use ledlogic::fonts::{Font, TextStyle};
use ledlogic::geometry::{Colour, Point, Rectangle, Size};
use ledlogic::screens::hate::HATE_DURATION_MS;
use ledlogic::screens::{EnvironmentScreen, HateScreen, Screen, TestScreen, TextPlacement, TextScreen};

const DISPLAY: Size = Size { width: 192, height: 32 };

fn bounds() -> Rectangle {
    Rectangle::new(Point::zero(), DISPLAY)
}

fn twenty_chars() -> TextScreen {
    TextScreen::with_text("abcdefghijklmnopqrst".to_string(), None)
}

#[test]
fn glyph_widths() {
    assert_eq!(Font::Ascii10x20.character_width(), 10);
    assert_eq!(Font::Latin10x20.character_width(), 10);
    assert_eq!(Font::Ibm437Regular9x14.character_width(), 9);
}

#[test]
fn text_strips_line_breaks() {
    let t = TextScreen::with_text("hello\nworld\n".to_string(), None);
    assert_eq!(t.text(), "helloworld");
    assert_eq!(t.style(), TextStyle::new(Font::Ascii10x20, Colour::white()));
    assert_eq!(t.id(), "text");
}

#[test]
fn fitting_text_stays_centred_for_the_default_duration() {
    let mut t = TextScreen::with_text("hi".to_string(), None);
    assert_eq!(t.single_display_duration(DISPLAY), 5000);
    assert_eq!(t.layout(0, bounds()), TextPlacement::Centred);
    assert_eq!(t.layout(1000, bounds()), TextPlacement::Centred);
}

#[test]
fn text_exactly_as_wide_as_the_display_does_not_scroll() {
    // 19 glyphs of 10 pixels are 190 pixels wide.
    let t = TextScreen::new("a".repeat(19), TextStyle::new(Font::Ascii10x20, Colour::red()), None);
    assert_eq!(t.single_display_duration(Size::new(190, 32)), 5000);
    assert_eq!(t.single_display_duration(Size::new(189, 32)), (189 + 190 + 31) * 8);
}

#[test]
fn scrolling_text_lasts_one_full_pass() {
    let t = twenty_chars();
    // (192 + 200 + 31) steps of 8 ms.
    assert_eq!(t.single_display_duration(DISPLAY), 3384);
    let narrow = TextScreen::new(
        "abcdefghijklmnopqrstuvwxy".to_string(),
        TextStyle::new(Font::Ibm437Regular9x14, Colour::red()),
        None,
    );
    assert_eq!(narrow.single_display_duration(DISPLAY), (192 + 225 + 31) * 8);
}

#[test]
fn scrolling_text_moves_one_pixel_per_step() {
    let mut t = twenty_chars();
    assert_eq!(t.layout(1000, bounds()), TextPlacement::Scrolled { x: 191 });
    assert_eq!(t.layout(1020, bounds()), TextPlacement::Scrolled { x: 189 });
    assert_eq!(t.layout(1023, bounds()), TextPlacement::Scrolled { x: 189 });
    assert_eq!(t.layout(1024, bounds()), TextPlacement::Scrolled { x: 188 });
    // 1024 + 8 * 420 brings the offset to 423, which wraps to 0.
    assert_eq!(t.layout(1024 + 8 * 420, bounds()), TextPlacement::Scrolled { x: 191 });
    let shifted = Rectangle::new(Point::new(10, 5), DISPLAY);
    assert_eq!(t.layout(1024 + 8 * 421, shifted), TextPlacement::Scrolled { x: 200 });
}

#[test]
fn pausing_stops_the_scroll_clock() {
    let mut t = twenty_chars();
    assert_eq!(t.layout(0, bounds()), TextPlacement::Scrolled { x: 191 });
    assert_eq!(t.layout(80, bounds()), TextPlacement::Scrolled { x: 181 });
    t.paused(80);
    // The next showing starts the clock again and keeps the offset.
    assert_eq!(t.layout(100_000, bounds()), TextPlacement::Scrolled { x: 181 });
    assert_eq!(t.layout(100_008, bounds()), TextPlacement::Scrolled { x: 180 });
}

#[test]
fn text_is_shown_count_plus_one_times() {
    let mut t = TextScreen::with_text("hi".to_string(), None);
    for _ in 0..3 {
        t.paused(5000);
        assert!(!t.should_remove());
    }
    t.paused(5000);
    assert!(t.should_remove());
    t.paused(5000);
    assert!(t.should_remove());

    let mut once = TextScreen::with_text("hi".to_string(), Some(0));
    assert!(!once.should_remove());
    once.paused(5000);
    assert!(once.should_remove());

    let mut many = TextScreen::with_text("hi".to_string(), Some(255));
    for _ in 0..254 {
        many.paused(5000);
    }
    assert!(!many.should_remove());
    many.paused(5000);
    assert!(many.should_remove());
}

#[test]
fn environment_colour_tiers() {
    let colour = |c: Option<u32>| EnvironmentScreen::new(None, c).co2_colour();
    assert_eq!(colour(Some(0)), Colour::green());
    assert_eq!(colour(Some(999)), Colour::green());
    assert_eq!(colour(Some(1000)), Colour::yellow());
    assert_eq!(colour(Some(1199)), Colour::yellow());
    assert_eq!(colour(Some(1200)), Colour::red());
    assert_eq!(colour(Some(u32::MAX)), Colour::red());
    assert_eq!(colour(None), Colour::white());
}

#[test]
fn environment_labels() {
    let e = EnvironmentScreen::new(Some("21.5".to_string()), Some(415));
    assert_eq!(e.co2_label(), "415");
    assert_eq!(e.temperature_label(), "21.5");
    let absent = EnvironmentScreen::new(None, None);
    assert_eq!(absent.co2_label(), "--");
    assert_eq!(absent.temperature_label(), "--");
    assert_eq!(EnvironmentScreen::new(None, Some(0)).co2_label(), "0");
    assert_eq!(EnvironmentScreen::new(None, Some(4294967295)).co2_label(), "4294967295");
}

#[test]
fn environment_screen_persists() {
    let mut e = EnvironmentScreen::new(None, Some(1));
    assert_eq!(e.id(), "environment");
    assert_eq!(e.single_display_duration(DISPLAY), 5000);
    e.paused(5000);
    assert!(!e.should_remove());
}

#[test]
fn test_screen_bands() {
    let bands = TestScreen.bands(bounds());
    let colours = [
        Colour::red(),
        Colour::orange(),
        Colour::yellow(),
        Colour::green(),
        Colour::blue(),
        Colour::violet(),
    ];
    assert_eq!(bands.len(), 6);
    for (i, (rect, colour)) in bands.iter().enumerate() {
        assert_eq!(*rect, Rectangle::new(Point::new(32 * i as i32, 0), Size::new(32, 32)));
        assert_eq!(*colour, colours[i]);
    }
    let shifted = TestScreen.bands(Rectangle::new(Point::new(-20, 3), Size::new(64, 8)));
    assert_eq!(shifted[5].0, Rectangle::new(Point::new(30, 3), Size::new(10, 8)));
    assert!(TestScreen.bands(Rectangle::new(Point::zero(), Size::new(5, 8))).is_empty());
    assert_eq!(Colour::orange(), Colour::new(255, 165, 0));
    assert_eq!(Colour::violet(), Colour::new(238, 130, 238));
}

#[test]
fn test_screen_is_one_shot() {
    let mut t = TestScreen;
    assert_eq!(t.id(), "test");
    assert_eq!(t.single_display_duration(DISPLAY), 5000);
    t.paused(5000);
    assert!(t.should_remove());
}

#[test]
fn hate_screen_scrolls_until_removed() {
    let mut h = HateScreen::new();
    assert_eq!(h.id(), "hate");
    assert_eq!(h.single_display_duration(DISPLAY), HATE_DURATION_MS);
    assert_eq!(HATE_DURATION_MS, 9_999_999 * 1000);
    assert!(h.should_remove());
    assert!(h.inner_mut().text().starts_with("HATE. LET ME TELL YOU"));
    assert_eq!(h.inner_mut().style(), TextStyle::new(Font::Ibm437Regular9x14, Colour::red()));
    assert_eq!(h.inner_mut().layout(0, bounds()), TextPlacement::Scrolled { x: 191 });
    assert_eq!(h.inner_mut().layout(16, bounds()), TextPlacement::Scrolled { x: 189 });
}
