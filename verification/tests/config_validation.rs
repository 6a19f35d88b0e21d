//! Configuration validation: exactly one screen, styles that build.

use headless_display::api::push_config;
use headless_display::color::Rgb;
use headless_display::exchange::Mailbox;
use headless_display::scene::{Configuration, Element, FontName, Point, Screen, TextStyle};
use headless_display::style::{CheckedScreenConfig, ScreenBuildError};

fn one_screen_config() -> Configuration {
    Configuration::new(vec![Screen::new(vec![Element::new_text(
        "a",
        "Hi".to_string(),
        Point::new(0, 0),
    )])])
    .add_style("a", TextStyle::new("FFFFFF", FontName::Font5X7))
}

#[test]
fn one_screen_succeeds_with_declared_styles() {
    let checked = CheckedScreenConfig::new(one_screen_config()).expect("one screen must build");
    assert_eq!(checked.screen.elements.len(), 1);
    let built = checked.styles.get(&"a".to_string()).expect("declared style present");
    assert_eq!(built.text_color, Rgb { r: 255, g: 255, b: 255 });
    assert_eq!(built.font, FontName::Font5X7);
    assert_eq!(built.background_color, None);
    assert!(!built.underline);
    assert!(!built.strikethrough);
    assert!(checked.styles.get(&"b".to_string()).is_none());
}

#[test]
fn zero_screens_is_rejected_as_no_screen() {
    let config = Configuration::new(vec![]);
    match CheckedScreenConfig::new(config) {
        Err(e) => {
            assert!(matches!(e, ScreenBuildError::NoScreen));
            assert_eq!(e.status_code(), 400);
            assert_eq!(e.message(), "Config must contain at least one screen");
        }
        Ok(_) => panic!("zero screens must be rejected"),
    }
}

#[test]
fn two_screens_are_rejected_as_too_many() {
    let config = Configuration::new(vec![Screen::new(vec![]), Screen::new(vec![])]);
    match CheckedScreenConfig::new(config) {
        Err(e) => {
            assert!(matches!(e, ScreenBuildError::TooManyScreens));
            assert_eq!(e.status_code(), 400);
        }
        Ok(_) => panic!("two screens must be rejected"),
    }
}

#[test]
fn invalid_style_color_is_rejected() {
    let config = Configuration::new(vec![Screen::new(vec![])])
        .add_style("bad", TextStyle::new("not hex", FontName::Font5X7));
    match CheckedScreenConfig::new(config) {
        Err(ScreenBuildError::InvalidColorString(s)) => assert_eq!(s, "not hex"),
        other => panic!("expected an invalid color rejection, got {other:?}"),
    }
}

#[test]
fn invalid_background_color_is_rejected() {
    let style = TextStyle::new("FFFFFF", FontName::Font5X7).with_background("nope".to_string());
    let config = Configuration::new(vec![Screen::new(vec![])]).add_style("s", style);
    match CheckedScreenConfig::new(config) {
        Err(ScreenBuildError::InvalidColorString(s)) => assert_eq!(s, "nope"),
        other => panic!("expected an invalid color rejection, got {other:?}"),
    }
}

#[test]
fn style_build_applies_background_and_flags() {
    let style = TextStyle::new("010203", FontName::Profont12)
        .with_background("040506".to_string())
        .with_underline(true);
    let built = style.build().expect("style must build");
    assert_eq!(built.text_color, Rgb { r: 1, g: 2, b: 3 });
    assert_eq!(built.background_color, Some(Rgb { r: 4, g: 5, b: 6 }));
    assert!(built.underline);
    assert!(!built.strikethrough);
}

#[test]
fn rejected_push_leaves_pending_scene_untouched() {
    let mut slot: Mailbox<Option<CheckedScreenConfig>> = Mailbox::new();
    push_config(&mut slot, one_screen_config()).expect("valid push accepted");

    // A push with no screen fails with the "no screen" error and must not
    // replace the previously pushed scene.
    let r = push_config(&mut slot, Configuration::new(vec![]));
    match r {
        Err(e) => assert!(matches!(e, ScreenBuildError::NoScreen)),
        Ok(_) => panic!("empty configuration must be rejected"),
    }
    let pending = slot.take().expect("slot still holds the first push").expect("a real scene");
    assert_eq!(pending.screen.elements.len(), 1);
}

#[test]
fn rejected_push_into_empty_slot_stays_empty() {
    let mut slot: Mailbox<Option<CheckedScreenConfig>> = Mailbox::new();
    let r = push_config(&mut slot, Configuration::new(vec![]));
    assert!(r.is_err());
    assert!(slot.take().is_none());
}
