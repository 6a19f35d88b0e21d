//! The frame-buffer exchange: last-value-wins hand-off of whole buffers.

use headless_display::color::Rgb;
use headless_display::exchange::{FrameBuffer, Mailbox};

#[test]
fn a_buffer_comes_back_as_itself() {
    // Ownership transfer, no copy: the buffer taken out carries exactly
    // the pixels that were painted into the buffer put in.
    let mut fb = FrameBuffer::new(4, 3, Rgb { r: 0, g: 0, b: 0 });
    fb.set_pixel(2, 1, Rgb { r: 9, g: 8, b: 7 });
    let painted = fb.pixels.clone();

    let mut slot: Mailbox<FrameBuffer> = Mailbox::new();
    assert!(!slot.signaled());
    slot.signal(fb);
    assert!(slot.signaled());
    let back = slot.take().expect("the buffer placed must be the buffer taken");
    assert_eq!(back.width, 4);
    assert_eq!(back.height, 3);
    assert_eq!(back.pixels, painted);
    assert_eq!(back.pixels[1 * 4 + 2], Rgb { r: 9, g: 8, b: 7 });
}

#[test]
fn taking_empties_the_slot() {
    let mut slot: Mailbox<u32> = Mailbox::new();
    slot.signal(5);
    assert_eq!(slot.take(), Some(5));
    assert_eq!(slot.take(), None);
    assert!(!slot.signaled());
}

#[test]
fn a_later_write_overwrites_an_unconsumed_one() {
    let mut slot: Mailbox<u32> = Mailbox::new();
    slot.signal(1);
    slot.signal(2);
    assert_eq!(slot.take(), Some(2), "the reader only sees the most recent value");
}

#[test]
fn clear_repaints_every_pixel() {
    let mut fb = FrameBuffer::new(2, 2, Rgb { r: 1, g: 1, b: 1 });
    fb.set_pixel(0, 0, Rgb { r: 5, g: 5, b: 5 });
    fb.clear(Rgb { r: 0, g: 0, b: 0 });
    assert_eq!(fb.pixels.len(), 4);
    for p in &fb.pixels {
        assert_eq!(*p, Rgb { r: 0, g: 0, b: 0 });
    }
}
