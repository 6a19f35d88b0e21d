//! The compositor state machine: status screens, the idle animation,
//! scene rendering, and the dirty-flag/exchange discipline.

use headless_display::api::push_config;
use headless_display::codec::encode_resource;
use headless_display::color::Rgb;
use headless_display::compositor::{Compositor, DrawCommand, SystemState};
use headless_display::exchange::Mailbox;
use headless_display::scene::{
    Configuration, Element, FontName, Point, Resource, Screen, TextStyle,
};
use headless_display::sprite::get_no_image_sprite;
use headless_display::store::{FlashOperation, PersistentStore};
use headless_display::style::CheckedScreenConfig;

/// A one-pixel QOI image with the given color.
fn qoi_frame(r: u8, g: u8, b: u8) -> Vec<u8> {
    let mut v = vec![
        0x71, 0x6f, 0x69, 0x66, 0, 0, 0, 1, 0, 0, 0, 1, 3, 0, 0xFE, r, g, b,
    ];
    v.extend_from_slice(&[0, 0, 0, 0, 0, 0, 0, 1]);
    v
}

fn take_config(slot: &mut Mailbox<Option<CheckedScreenConfig>>) -> Option<Option<CheckedScreenConfig>> {
    slot.take()
}

#[test]
fn pushed_text_scene_renders_on_next_cycle() {
    // Scenario: push a configuration with one text element, style "a",
    // text "Hi" at (0,0), white on the base font; the compositor's next
    // cycle renders exactly that.
    let store = PersistentStore::new();
    let mut slot: Mailbox<Option<CheckedScreenConfig>> = Mailbox::new();
    let config = Configuration::new(vec![Screen::new(vec![Element::new_text(
        "a",
        "Hi".to_string(),
        Point::new(0, 0),
    )])])
    .add_style("a", TextStyle::new("FFFFFF", FontName::Font5X7));
    push_config(&mut slot, config).expect("the push reports success");

    let mut comp = Compositor::new(0);
    comp.apply_events(Some(SystemState::Ready), take_config(&mut slot), &store, 0);
    let out = comp.render(0);
    assert!(out.system_up);
    assert!(out.exchange);
    assert_eq!(out.commands.len(), 1);
    match &out.commands[0] {
        DrawCommand::Text { content, position, style, align } => {
            assert_eq!(content, "Hi");
            assert_eq!(*position, Point::new(0, 0));
            assert_eq!(style.text_color, Rgb { r: 255, g: 255, b: 255 });
            assert_eq!(style.font, FontName::Font5X7);
            assert!(align.is_none());
        }
        other => panic!("expected the text command, got {other:?}"),
    }
}

#[test]
fn rejected_push_changes_no_scene() {
    // Scenario: a configuration with zero screens is rejected with the
    // "no screen" error; the device keeps showing what it showed.
    let store = PersistentStore::new();
    let mut slot: Mailbox<Option<CheckedScreenConfig>> = Mailbox::new();
    let r = push_config(&mut slot, Configuration::new(vec![]));
    let err = r.expect_err("zero screens must be rejected");
    assert_eq!(err.status_code(), 400);
    assert_eq!(err.message(), "Config must contain at least one screen");

    let mut comp = Compositor::new(0);
    comp.apply_events(Some(SystemState::Ready), take_config(&mut slot), &store, 0);
    let out = comp.render(0);
    // No scene was ever installed: the idle animation plays instead.
    assert!(matches!(out.commands[0], DrawCommand::Image { .. }));
}

#[test]
fn status_screen_while_connecting() {
    let mut comp = Compositor::new(0);
    let out = comp.render(0);
    assert!(!out.system_up);
    assert!(out.exchange, "the first frame is owed");
    assert_eq!(out.commands.len(), 1);
    match &out.commands[0] {
        DrawCommand::Status { message, image } => {
            assert_eq!(message, "Connecting to WIFI");
            assert!(!image.is_empty());
        }
        other => panic!("expected the status screen, got {other:?}"),
    }
}

#[test]
fn status_messages_follow_the_state() {
    let store = PersistentStore::new();
    for (state, message) in [
        (SystemState::Disconnected, "Lost WIFI..."),
        (SystemState::Failed, "Failed to connect. Retrying..."),
        (SystemState::WIFIWaitForIP, "Waiting for IP"),
    ] {
        let mut comp = Compositor::new(0);
        comp.apply_events(Some(state), None, &store, 0);
        let out = comp.render(0);
        assert!(!out.system_up);
        match &out.commands[0] {
            DrawCommand::Status { message: m, .. } => assert_eq!(m, message),
            other => panic!("expected a status screen, got {other:?}"),
        }
    }
}

#[test]
fn no_redraw_until_a_deadline_or_event() {
    let store = PersistentStore::new();
    let mut comp = Compositor::new(0);
    // First cycle paints and hands the buffer off; the dirty flag clears.
    assert!(comp.render(0).exchange);
    // Nothing changed and no deadline passed: the frame is reused.
    let quiet = comp.render(100);
    assert!(!quiet.exchange);
    assert!(quiet.commands.is_empty());
    // The connectivity animation's deadline (500 ms) passes: redraw.
    let due = comp.render(600);
    assert!(due.exchange);
    assert_eq!(due.commands.len(), 1);
    // A state push alone also forces a redraw.
    comp.apply_events(Some(SystemState::Disconnected), None, &store, 700);
    assert!(comp.render(700).exchange);
}

#[test]
fn idle_animation_plays_when_no_scene_was_pushed() {
    let store = PersistentStore::new();
    let mut comp = Compositor::new(0);
    comp.apply_events(Some(SystemState::Ready), None, &store, 0);
    let out = comp.render(0);
    assert!(out.system_up);
    match &out.commands[0] {
        DrawCommand::Image { position, center, data } => {
            assert_eq!(*position, Point::new(0, 0));
            assert!(center.is_none());
            assert!(!data.is_empty());
        }
        other => panic!("expected the idle animation, got {other:?}"),
    }
}

#[test]
fn missing_sprite_draws_the_placeholder() {
    let store = PersistentStore::new();
    let mut slot: Mailbox<Option<CheckedScreenConfig>> = Mailbox::new();
    let config = Configuration::new(vec![Screen::new(vec![Element::new_sprite(
        "ghost".to_string(),
        Point::new(3, 4),
    )])]);
    push_config(&mut slot, config).expect("the push is valid");

    let mut comp = Compositor::new(0);
    comp.apply_events(Some(SystemState::Ready), take_config(&mut slot), &store, 0);
    let out = comp.render(0);
    assert_eq!(out.commands.len(), 1);
    match &out.commands[0] {
        DrawCommand::Image { data, position, center } => {
            assert_eq!(*position, Point::new(3, 4));
            assert!(center.is_none());
            // The placeholder's current frame is what gets drawn.
            let mut placeholder = get_no_image_sprite(0);
            let expected = placeholder.get_image(0).unwrap();
            assert_eq!(*data, expected);
        }
        other => panic!("expected the placeholder image, got {other:?}"),
    }
}

#[test]
fn stored_sprite_renders_and_cycles() {
    let f0 = qoi_frame(1, 2, 3);
    let f1 = qoi_frame(4, 5, 6);
    let mut store = PersistentStore::new();
    let blob = encode_resource(&Resource::new(vec![f0.clone(), f1.clone()], 500));
    store.service_operation(FlashOperation::Store("logo".to_string(), blob), true, true)
        .0
        .unwrap();

    let mut slot: Mailbox<Option<CheckedScreenConfig>> = Mailbox::new();
    let config = Configuration::new(vec![Screen::new(vec![Element::new_sprite(
        "logo".to_string(),
        Point::new(0, 0),
    )])]);
    push_config(&mut slot, config).expect("the push is valid");

    let mut comp = Compositor::new(0);
    comp.apply_events(Some(SystemState::Ready), take_config(&mut slot), &store, 0);
    let first = comp.render(0);
    match &first.commands[0] {
        DrawCommand::Image { data, .. } => assert_eq!(*data, f0),
        other => panic!("expected the sprite's first frame, got {other:?}"),
    }
    // At 600 the sprite's deadline has elapsed: a redraw happens on its
    // own and shows the next frame.
    let second = comp.render(600);
    assert!(second.exchange);
    match &second.commands[0] {
        DrawCommand::Image { data, .. } => assert_eq!(*data, f1),
        other => panic!("expected the sprite's second frame, got {other:?}"),
    }
}

#[test]
fn clearing_the_scene_returns_to_idle() {
    let store = PersistentStore::new();
    let mut slot: Mailbox<Option<CheckedScreenConfig>> = Mailbox::new();
    let config = Configuration::new(vec![Screen::new(vec![Element::new_text(
        "missing",
        "x".to_string(),
        Point::new(0, 0),
    )])]);
    push_config(&mut slot, config).expect("valid push");

    let mut comp = Compositor::new(0);
    comp.apply_events(Some(SystemState::Ready), take_config(&mut slot), &store, 0);
    // The element's style is missing: it is skipped, not fatal.
    let out = comp.render(0);
    assert!(out.exchange);
    assert!(out.commands.is_empty());

    // An explicit "no scene" push clears the scene; the idle animation
    // returns.
    comp.apply_events(None, Some(None), &store, 10);
    let idle = comp.render(10);
    assert!(idle.exchange);
    assert!(matches!(idle.commands[0], DrawCommand::Image { .. }));
}

#[test]
fn scene_pushes_stay_pending_while_down() {
    // In a non-ready state the compositor does not consume scene pushes;
    // the mailbox still holds the value for the next ready cycle.
    let mut slot: Mailbox<Option<CheckedScreenConfig>> = Mailbox::new();
    let config = Configuration::new(vec![Screen::new(vec![])]);
    push_config(&mut slot, config).expect("valid push");
    assert!(slot.signaled());
    // (The compositor only takes from the mailbox in a ready state; the
    // loop around it checks `signaled` first, so the value survives.)
    let pending = slot.take();
    assert!(pending.is_some());
}
