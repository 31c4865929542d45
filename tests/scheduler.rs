use ledlogic::geometry::Size;
use ledlogic::screens::{AnyScreen, EnvironmentScreen, Screen, TestScreen, TextScreen};
use ledlogic::{DisplayLogic, Frame};

const DISPLAY: Size = Size { width: 192, height: 32 };

fn step(logic: &mut DisplayLogic<AnyScreen>, now: u64) -> Frame {
    logic.draw(false, &Vec::new(), Vec::new(), now, DISPLAY)
}

fn text(s: &str, count: u8) -> AnyScreen {
    AnyScreen::Text(TextScreen::with_text(s.to_string(), Some(count)))
}

fn env() -> AnyScreen {
    AnyScreen::Environment(EnvironmentScreen::new(None, Some(500)))
}

fn text_at(logic: &DisplayLogic<AnyScreen>, i: usize) -> String {
    match logic.get(i) {
        Some(AnyScreen::Text(t)) => t.text().to_string(),
        _ => panic!("no text screen at {}", i),
    }
}

fn ids(logic: &DisplayLogic<AnyScreen>) -> Vec<String> {
    (0..logic.len()).map(|i| logic.get(i).unwrap().id().to_string()).collect()
}

#[test]
fn empty_rotation_blanks() {
    let mut logic: DisplayLogic<AnyScreen> = DisplayLogic::new();
    assert_eq!(step(&mut logic, 0), Frame::Blank);
    assert_eq!(step(&mut logic, 10_000), Frame::Blank);
    assert_eq!(logic.len(), 0);
}

#[test]
fn single_screen_stays_across_boundaries() {
    let mut logic = DisplayLogic::new();
    logic.add(env());
    assert_eq!(step(&mut logic, 0), Frame::Front { clear_first: false });
    assert_eq!(step(&mut logic, 2_500), Frame::Front { clear_first: false });
    assert_eq!(step(&mut logic, 4_999), Frame::Front { clear_first: false });
    assert_eq!(step(&mut logic, 5_000), Frame::Front { clear_first: true });
    assert_eq!(step(&mut logic, 9_999), Frame::Front { clear_first: false });
    assert_eq!(step(&mut logic, 10_000), Frame::Front { clear_first: true });
    assert_eq!(step(&mut logic, 17_000), Frame::Front { clear_first: true });
    assert_eq!(logic.len(), 1);
    assert_eq!(logic.get(0).unwrap().id(), "environment");
}

#[test]
fn single_text_screen_is_paused_at_each_boundary() {
    let mut logic = DisplayLogic::new();
    logic.add(text("hi", 1));
    assert_eq!(step(&mut logic, 0), Frame::Front { clear_first: false });
    assert_eq!(step(&mut logic, 5_000), Frame::Front { clear_first: true });
    assert!(!logic.get(0).unwrap().should_remove());
    // The second showing was the last one: the screen leaves.
    assert_eq!(step(&mut logic, 10_000), Frame::Blank);
    assert_eq!(logic.len(), 0);
    assert_eq!(step(&mut logic, 10_001), Frame::Blank);
}

#[test]
fn one_shot_front_is_replaced_in_the_same_step() {
    let mut logic = DisplayLogic::new();
    logic.add(AnyScreen::Test(TestScreen));
    logic.add(env());
    assert_eq!(step(&mut logic, 0), Frame::Front { clear_first: false });
    assert_eq!(logic.get(0).unwrap().id(), "test");
    assert_eq!(step(&mut logic, 5_000), Frame::Front { clear_first: true });
    assert_eq!(logic.len(), 1);
    assert_eq!(logic.get(0).unwrap().id(), "environment");
    assert_eq!(step(&mut logic, 9_999), Frame::Front { clear_first: false });
}

#[test]
fn deleting_the_front_restarts_the_timing() {
    let mut logic = DisplayLogic::new();
    logic.add(text("hello", 3));
    logic.add(env());
    assert_eq!(step(&mut logic, 0), Frame::Front { clear_first: false });
    let frame = logic.draw(false, &vec!["text".to_string()], Vec::new(), 3_000, DISPLAY);
    assert_eq!(frame, Frame::Front { clear_first: true });
    assert_eq!(ids(&logic), vec!["environment".to_string()]);
    // The environment screen's showing began at 3000, not at 0.
    assert_eq!(step(&mut logic, 7_999), Frame::Front { clear_first: false });
    assert_eq!(step(&mut logic, 8_000), Frame::Front { clear_first: true });
}

#[test]
fn deletion_removes_every_match_and_keeps_order() {
    let mut logic = DisplayLogic::new();
    logic.add(text("a", 3));
    logic.add(env());
    logic.add(text("b", 3));
    logic.add(AnyScreen::Test(TestScreen));
    logic.add(text("c", 3));
    assert_eq!(step(&mut logic, 0), Frame::Front { clear_first: false });
    let frame = logic.draw(false, &vec!["text".to_string()], Vec::new(), 1_000, DISPLAY);
    assert_eq!(frame, Frame::Front { clear_first: true });
    assert_eq!(ids(&logic), vec!["environment".to_string(), "test".to_string()]);
}

#[test]
fn deletion_of_unknown_id_changes_nothing() {
    let mut logic = DisplayLogic::new();
    logic.add(text("a", 3));
    logic.add(env());
    assert_eq!(step(&mut logic, 0), Frame::Front { clear_first: false });
    let frame = logic.draw(false, &vec!["nothing".to_string()], Vec::new(), 1_000, DISPLAY);
    assert_eq!(frame, Frame::Front { clear_first: false });
    assert_eq!(ids(&logic), vec!["text".to_string(), "environment".to_string()]);
}

#[test]
fn deletion_of_every_screen_blanks() {
    let mut logic = DisplayLogic::new();
    logic.add(env());
    assert_eq!(step(&mut logic, 0), Frame::Front { clear_first: false });
    let frame = logic.draw(false, &vec!["environment".to_string()], Vec::new(), 1, DISPLAY);
    assert_eq!(frame, Frame::Blank);
    assert_eq!(logic.len(), 0);
}

#[test]
fn rotation_restores_order() {
    let mut logic = DisplayLogic::new();
    logic.add(text("a", 10));
    logic.add(text("b", 10));
    logic.add(text("c", 10));
    assert_eq!(step(&mut logic, 0), Frame::Front { clear_first: false });
    assert_eq!(step(&mut logic, 5_000), Frame::Front { clear_first: true });
    assert_eq!(text_at(&logic, 0), "b");
    assert_eq!(step(&mut logic, 10_000), Frame::Front { clear_first: true });
    assert_eq!(text_at(&logic, 0), "c");
    assert_eq!(step(&mut logic, 15_000), Frame::Front { clear_first: true });
    let order: Vec<String> = (0..3).map(|i| text_at(&logic, i)).collect();
    assert_eq!(order, vec!["a", "b", "c"]);
}

#[test]
fn added_screens_go_to_the_back() {
    let mut logic = DisplayLogic::new();
    logic.add(env());
    assert_eq!(step(&mut logic, 0), Frame::Front { clear_first: false });
    let frame = logic.draw(false, &Vec::new(), vec![text("x", 3), AnyScreen::Test(TestScreen)], 10, DISPLAY);
    assert_eq!(frame, Frame::Front { clear_first: false });
    assert_eq!(ids(&logic), vec!["environment".to_string(), "text".to_string(), "test".to_string()]);
}

#[test]
fn first_screen_added_to_empty_rotation_starts_its_showing() {
    let mut logic = DisplayLogic::new();
    assert_eq!(step(&mut logic, 0), Frame::Blank);
    let frame = logic.draw(false, &Vec::new(), vec![env()], 20_000, DISPLAY);
    assert_eq!(frame, Frame::Front { clear_first: false });
    assert_eq!(step(&mut logic, 24_999), Frame::Front { clear_first: false });
    assert_eq!(step(&mut logic, 25_000), Frame::Front { clear_first: true });
}

#[test]
fn asleep_blanks_and_changes_nothing() {
    let mut logic = DisplayLogic::new();
    logic.add(AnyScreen::Test(TestScreen));
    let frame = logic.draw(true, &vec!["test".to_string()], vec![env()], 100_000, DISPLAY);
    assert_eq!(frame, Frame::Blank);
    assert_eq!(ids(&logic), vec!["test".to_string()]);
    assert_eq!(step(&mut logic, 100_000), Frame::Front { clear_first: false });
}

#[test]
fn clock_going_backwards_counts_as_no_time() {
    let mut logic = DisplayLogic::new();
    logic.add(AnyScreen::Test(TestScreen));
    logic.add(env());
    assert_eq!(step(&mut logic, 50_000), Frame::Front { clear_first: false });
    assert_eq!(step(&mut logic, 10), Frame::Front { clear_first: false });
    assert_eq!(ids(&logic), vec!["test".to_string(), "environment".to_string()]);
}

#[test]
fn front_mut_reaches_the_front_screen() {
    let mut logic = DisplayLogic::new();
    logic.add(text("front", 3));
    logic.add(env());
    match logic.front_mut() {
        AnyScreen::Text(t) => assert_eq!(t.text(), "front"),
        _ => panic!("front is the text screen"),
    }
    assert!(logic.get(2).is_none());
}

#[test]
fn scrolling_text_stays_for_exactly_one_pass() {
    let mut logic = DisplayLogic::new();
    logic.add(AnyScreen::Text(TextScreen::with_text("abcdefghijklmnopqrst".to_string(), None)));
    logic.add(env());
    // (192 + 200 + 31) steps of 8 ms.
    assert_eq!(logic.get(0).unwrap().single_display_duration(DISPLAY), 3384);
    assert_eq!(step(&mut logic, 0), Frame::Front { clear_first: false });
    assert_eq!(step(&mut logic, 3383), Frame::Front { clear_first: false });
    assert_eq!(logic.get(0).unwrap().id(), "text");
    assert_eq!(step(&mut logic, 3384), Frame::Front { clear_first: true });
    assert_eq!(logic.get(0).unwrap().id(), "environment");
}
