//! The HTTP surface's decisions and the painter-side helpers.

use headless_display::api::{exists_message, format_request, upload_request};
use headless_display::compositor::SystemState;
use headless_display::wifi::{
    connection_backoff, connection_signal, ConnectionEvent, CONNECT_RETRY_DELAY_MS,
};
use headless_display::codec::encode_resource;
use headless_display::exchange::Mailbox;
use headless_display::panel::{fade_decision, painter_active, FpsCounter, PanelFlags, FADE_DURATION_MS};
use headless_display::scene::Resource;
use headless_display::store::{CommandQueue, FlashOperation};

#[test]
fn upload_accepts_only_wire_form_resources() {
    let blob = encode_resource(&Resource::new(vec![vec![1, 2]], 100));
    match upload_request("logo".to_string(), blob.clone()) {
        Ok(FlashOperation::Store(key, data)) => {
            assert_eq!(key, "logo");
            assert_eq!(data, blob);
        }
        other => panic!("expected a store command, got {other:?}"),
    }
    match upload_request("bad".to_string(), vec![0xFF; 10]) {
        Err(m) => assert_eq!(m, "Failed to deserialize postcard"),
        Ok(_) => panic!("a malformed body must be rejected"),
    }
}

#[test]
fn format_clears_the_scene_and_queues_the_command() {
    let mut slot = Mailbox::new();
    slot.signal(None);
    let mut queue = CommandQueue::new();
    assert!(format_request(&mut slot, &mut queue));
    assert!(matches!(slot.take(), Some(None)));
    assert!(matches!(queue.receive(), Some(FlashOperation::Format)));
}

#[test]
fn format_reports_a_full_queue() {
    let mut slot = Mailbox::new();
    let mut queue = CommandQueue::new();
    assert!(queue.try_send(FlashOperation::Format));
    assert!(queue.try_send(FlashOperation::Format));
    assert!(queue.try_send(FlashOperation::Format));
    assert!(!format_request(&mut slot, &mut queue));
}

#[test]
fn existence_answers() {
    assert_eq!(exists_message(true), "Item exists");
    assert_eq!(exists_message(false), "Item does not exist");
}

#[test]
fn painter_repaints_when_needed() {
    assert!(painter_active(true, false, true), "panel on");
    assert!(painter_active(false, true, true), "fade still running");
    assert!(painter_active(false, false, false), "status screen must stay visible");
    assert!(!painter_active(false, false, true), "panel off and idle");
}

#[test]
fn fades_follow_the_switch() {
    assert_eq!(fade_decision(true, true, 10, 200), None);
    assert_eq!(fade_decision(false, false, 10, 200), None);
    assert_eq!(fade_decision(true, false, 0, 200), Some((0, 200, FADE_DURATION_MS)));
    assert_eq!(fade_decision(false, true, 200, 200), Some((200, 0, FADE_DURATION_MS)));
    assert_eq!(FADE_DURATION_MS, 300);
}

#[test]
fn refresh_rate_reports_once_per_second() {
    let mut fps = FpsCounter::new(0);
    assert_eq!(fps.tick(100), None);
    assert_eq!(fps.tick(500), None);
    assert_eq!(fps.tick(1001), Some(3));
    assert_eq!(fps.tick(1500), None);
    assert_eq!(fps.tick(2500), Some(2));
}

#[test]
fn panel_flags_start_on() {
    let flags = PanelFlags::new(128);
    assert!(flags.panel_on);
    assert_eq!(flags.brightness, 128);
    assert!(!flags.system_up);
    assert_eq!(flags.refresh_rate, 0);
}

#[test]
fn connection_outcomes_push_their_states() {
    assert_eq!(connection_signal(&ConnectionEvent::LinkLost), SystemState::Disconnected);
    assert_eq!(connection_signal(&ConnectionEvent::Associated), SystemState::WIFIConnected);
    assert_eq!(connection_signal(&ConnectionEvent::AssociationFailed), SystemState::Failed);
    assert_eq!(connection_backoff(&ConnectionEvent::LinkLost), Some(CONNECT_RETRY_DELAY_MS));
    assert_eq!(connection_backoff(&ConnectionEvent::Associated), None);
    assert_eq!(
        connection_backoff(&ConnectionEvent::AssociationFailed),
        Some(CONNECT_RETRY_DELAY_MS)
    );
}
