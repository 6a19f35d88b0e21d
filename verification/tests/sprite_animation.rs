//! Sprite animation: hold intervals, idempotence, cycle closure.

use headless_display::scene::Resource;
use headless_display::sprite::{bake, SpriteError};

#[test]
fn frames_advance_per_hold_interval() {
    // A two-frame resource held 500 ms per frame, baked at time 0:
    // the frame at 0 is the first, at 600 the second, at 1100 the first
    // again (the cycle has closed).
    let f0 = vec![10u8, 11];
    let f1 = vec![20u8, 21];
    let mut baked = bake(Resource::new(vec![f0.clone(), f1.clone()], 500), 0);
    assert_eq!(baked.get_image(0).unwrap(), f0);
    assert_eq!(baked.get_image(600).unwrap(), f1);
    assert_eq!(baked.get_image(1100).unwrap(), f0);
}

#[test]
fn get_image_is_idempotent_within_a_hold_interval() {
    let f0 = vec![1u8];
    let f1 = vec![2u8];
    let mut baked = bake(Resource::new(vec![f0.clone(), f1], 500), 0);
    let first = baked.get_image(600).unwrap();
    let again = baked.get_image(750).unwrap();
    assert_eq!(first, again);
    let third = baked.get_image(1099).unwrap();
    assert_eq!(first, third);
}

#[test]
fn cycle_closes_after_one_full_round() {
    // Three frames, 100 ms each, sampled at every deadline: after three
    // samples the cursor is back on the first frame.
    let frames = vec![vec![1u8], vec![2u8], vec![3u8]];
    let mut baked = bake(Resource::new(frames.clone(), 100), 0);
    assert_eq!(baked.get_image(0).unwrap(), frames[0]);
    assert_eq!(baked.get_image(100).unwrap(), frames[1]);
    assert_eq!(baked.get_image(200).unwrap(), frames[2]);
    assert_eq!(baked.get_image(300).unwrap(), frames[0]);
}

#[test]
fn deadline_is_inclusive() {
    let mut baked = bake(Resource::new(vec![vec![1u8], vec![2u8]], 500), 0);
    assert!(!baked.needs_update(499));
    assert!(baked.needs_update(500));
    assert_eq!(baked.get_image(499).unwrap(), vec![1]);
    assert_eq!(baked.get_image(500).unwrap(), vec![2]);
}

#[test]
fn time_before_bake_does_not_advance() {
    let mut baked = bake(Resource::new(vec![vec![1u8], vec![2u8]], 100), 1000);
    assert!(!baked.needs_update(500));
    assert_eq!(baked.get_image(500).unwrap(), vec![1]);
}

#[test]
fn empty_resource_has_no_frames() {
    let mut baked = bake(Resource::new(vec![], 100), 0);
    assert_eq!(baked.get_image(1000), Err(SpriteError::NoFrames));
}

#[test]
fn zero_hold_advances_every_call() {
    let mut baked = bake(Resource::new(vec![vec![1u8], vec![2u8]], 0), 0);
    assert_eq!(baked.get_image(0).unwrap(), vec![2]);
    assert_eq!(baked.get_image(0).unwrap(), vec![1]);
}
