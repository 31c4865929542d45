use ledlogic::fonts::{Font, TextStyle};
use ledlogic::geometry::Colour;
use ledlogic::messages::{
    parse_colour, MessageHandler, Reaction, CO2_TOPIC, GLOBAL_PRESENCE_TOPIC, TEMP_TOPIC,
    TEXT_COLOUR_TOPIC, TEXT_TOPIC,
};
use ledlogic::screens::Screen;

#[test]
fn colour_payloads() {
    assert_eq!(parse_colour("255,0,128"), Some(Colour::new(255, 0, 128)));
    assert_eq!(parse_colour("1,2,3,4"), Some(Colour::new(1, 2, 3)));
    assert_eq!(parse_colour("+1,02,3"), Some(Colour::new(1, 2, 3)));
    assert_eq!(parse_colour("1,2"), None);
    assert_eq!(parse_colour("1"), None);
    assert_eq!(parse_colour(""), None);
    assert_eq!(parse_colour("256,0,0"), None);
    assert_eq!(parse_colour("1,,3"), None);
    assert_eq!(parse_colour("a,b,c"), None);
    assert_eq!(parse_colour(" 1,2,3"), None);
    assert_eq!(parse_colour("1,2,-3"), None);
    assert_eq!(parse_colour("1,2,+"), None);
    assert_eq!(parse_colour("0,0,99999999999999999999999"), None);
}

#[test]
fn presence_puts_the_display_to_sleep() {
    let mut h = MessageHandler::new();
    assert!(!h.asleep());
    assert!(matches!(h.attempt_handle_message(GLOBAL_PRESENCE_TOPIC, "empty", None), Reaction::Sleep(true)));
    assert!(h.asleep());
    assert!(matches!(h.attempt_handle_message(TEXT_TOPIC, "hello", None), Reaction::Dropped));
    assert!(matches!(h.attempt_handle_message(GLOBAL_PRESENCE_TOPIC, "occupied", None), Reaction::Sleep(false)));
    assert!(!h.asleep());
    assert!(matches!(h.attempt_handle_message(TEXT_TOPIC, "hello", None), Reaction::ShowText(_)));
}

#[test]
fn text_uses_the_latest_colour() {
    let mut h = MessageHandler::new();
    match h.attempt_handle_message(TEXT_TOPIC, "first\nline", None) {
        Reaction::ShowText(t) => {
            assert_eq!(t.text(), "firstline");
            assert_eq!(t.style(), TextStyle::new(Font::Latin10x20, Colour::magenta()));
        }
        other => panic!("unexpected {:?}", other),
    }
    assert!(matches!(h.attempt_handle_message(TEXT_COLOUR_TOPIC, "0,255,0", None), Reaction::ColourSet));
    assert!(matches!(h.attempt_handle_message(TEXT_COLOUR_TOPIC, "0,255", None), Reaction::Dropped));
    match h.attempt_handle_message(TEXT_TOPIC, "second", None) {
        Reaction::ShowText(t) => assert_eq!(t.style(), TextStyle::new(Font::Latin10x20, Colour::green())),
        other => panic!("unexpected {:?}", other),
    }
}

#[test]
fn readings_replace_the_environment_screen() {
    let mut h = MessageHandler::new();
    match h.attempt_handle_message(CO2_TOPIC, "800", None) {
        Reaction::ReplaceEnvironment(e) => {
            assert_eq!(e.id(), "environment");
            assert_eq!(e.co2_label(), "800");
            assert_eq!(e.temperature_label(), "--");
        }
        other => panic!("unexpected {:?}", other),
    }
    match h.attempt_handle_message(TEMP_TOPIC, "21.50", Some("21.5".to_string())) {
        Reaction::ReplaceEnvironment(e) => {
            assert_eq!(e.co2_label(), "800");
            assert_eq!(e.temperature_label(), "21.5");
            assert_eq!(e.co2_colour(), Colour::green());
        }
        other => panic!("unexpected {:?}", other),
    }
    assert!(matches!(h.attempt_handle_message(CO2_TOPIC, "lots", None), Reaction::Dropped));
    assert!(matches!(h.attempt_handle_message(CO2_TOPIC, "4294967296", None), Reaction::Dropped));
    assert!(matches!(h.attempt_handle_message(TEMP_TOPIC, "warm", None), Reaction::Dropped));
    match h.attempt_handle_message(CO2_TOPIC, "1250", None) {
        Reaction::ReplaceEnvironment(e) => {
            assert_eq!(e.temperature_label(), "21.5");
            assert_eq!(e.co2_colour(), Colour::red());
        }
        other => panic!("unexpected {:?}", other),
    }
}

#[test]
fn unknown_topics_are_dropped() {
    let mut h = MessageHandler::new();
    assert!(matches!(h.attempt_handle_message("some/other/topic", "1,2,3", None), Reaction::Dropped));
    assert!(matches!(h.attempt_handle_message("", "", None), Reaction::Dropped));
}
