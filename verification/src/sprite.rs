//! Sprite animation cursors.
//!
//! A baked resource is an infinite, restartable cyclic sequence of encoded
//! frames, each held for a fixed duration.  Asking for the image advances
//! the cursor once when the deadline has passed and is idempotent within
//! one hold interval.  All times are milliseconds.

use vstd::prelude::*;
use vstd::arithmetic::div_mod::{
    lemma_add_mod_noop, lemma_mod_division_less_than_divisor, lemma_mod_self_0, lemma_small_mod,
};
use vstd::arithmetic::mul::lemma_mul_inequality;
use crate::scene::Resource;

verus! {

/// Why a sprite frame could not be produced.
#[derive(Debug, Clone, Copy, PartialEq, Eq, Structural)]
pub enum SpriteError {
    /// The resource has no frames at all
    NoFrames,
}

/// A live animation cursor over a resource's frames.
#[derive(Debug)]
pub struct BakedResource {
    /// The encoded frames, cycled through in order
    pub frames: Vec<Vec<u8>>,
    /// Which frame the cursor rests on
    pub cursor: usize,
    /// When the cursor last advanced
    pub last_iteration: u64,
    /// How long each frame is held
    pub frame_time: u64,
}

impl BakedResource {
    /// The cursor stays inside the frame list.
    pub open spec fn wf(&self) -> bool {
        if self.frames@.len() == 0 {
            self.cursor == 0
        } else {
            self.cursor < self.frames@.len()
        }
    }

    /// The deadline has passed: `now` is at least one hold duration past
    /// the last advance.
    pub open spec fn spec_due(&self, now: u64) -> bool {
        now >= self.last_iteration + self.frame_time
    }

    /// The state after asking for the image at `now`: the cursor advances
    /// (wrapping) exactly when the deadline has passed.
    pub open spec fn spec_step(&self, now: u64) -> BakedResource {
        if self.frames@.len() > 0 && self.spec_due(now) {
            BakedResource {
                frames: self.frames,
                cursor: ((self.cursor + 1) % self.frames@.len() as int) as usize,
                last_iteration: now,
                frame_time: self.frame_time,
            }
        } else {
            *self
        }
    }

    /// The frame bytes under the cursor.
    pub open spec fn spec_frame(&self) -> Seq<u8>
        recommends
            self.frames@.len() > 0,
    {
        self.frames@[self.cursor as int]@
    }

    /// Whether the animation deadline has elapsed.
    pub fn needs_update(&self, time: u64) -> (r: bool)
        ensures
            r == self.spec_due(time),
    {
        self.last_iteration <= time && time - self.last_iteration >= self.frame_time
    }

    /// Returns the current frame, advancing the cursor first when the
    /// deadline has passed.  Repeated calls within one hold interval
    /// return the same frame and change nothing.
    pub fn get_image(&mut self, time: u64) -> (r: Result<Vec<u8>, SpriteError>)
        requires
            old(self).wf(),
        ensures
            *final(self) == old(self).spec_step(time),
            final(self).wf(),
            old(self).frames@.len() > 0 ==> (r matches Ok(f) && f@ == final(self).spec_frame()),
            old(self).frames@.len() == 0 ==> r == Err::<Vec<u8>, SpriteError>(
                SpriteError::NoFrames,
            ),
    {
        let n = self.frames.len();
        if n == 0 {
            return Err(SpriteError::NoFrames);
        }
        if self.needs_update(time) {
            self.last_iteration = time;
            let next = self.cursor + 1;
            self.cursor = if next >= n {
                0
            } else {
                next
            };
            proof {
                if next >= n {
                    assert(next == n);
                    lemma_mod_self_0(n as int);
                } else {
                    lemma_small_mod(next as nat, n as nat);
                }
            }
        }
        let frame = self.frames[self.cursor].clone();
        proof {
            assert(frame@ =~= self.frames@[self.cursor as int]@);
        }
        Ok(frame)
    }
}

/// Turns a stored resource into a fresh animation cursor starting on the
/// first frame, with `now` as the time of the last advance.
pub fn bake(res: Resource, now: u64) -> (b: BakedResource)
    ensures
        b.frames == res.frames,
        b.cursor == 0,
        b.last_iteration == now,
        b.frame_time == res.frame_time_ms as u64,
        b.wf(),
{
    BakedResource {
        frames: res.frames,
        cursor: 0,
        last_iteration: now,
        frame_time: res.frame_time_ms as u64,
    }
}

/// Asking again within the same hold interval changes nothing: the second
/// call at `t2`, before the next deadline of the state left by the first
/// call at `t1`, leaves the cursor untouched and shows the same frame.
pub proof fn lemma_get_image_idempotent(s: BakedResource, t1: u64, t2: u64)
    requires
        s.wf(),
        t1 <= t2,
        (t2 as int) < s.spec_step(t1).last_iteration + s.spec_step(t1).frame_time,
    ensures
        s.spec_step(t1).spec_step(t2) == s.spec_step(t1),
        s.spec_step(t1).spec_step(t2).spec_frame() == s.spec_step(t1).spec_frame(),
{
}

/// The animation state after sampling at each of the first `k` hold
/// deadlines: times `T`, `2*T`, ..., `k*T`.
pub open spec fn spec_sampled(s: BakedResource, k: nat) -> BakedResource
    decreases k,
{
    if k == 0 {
        s
    } else {
        spec_sampled(s, (k - 1) as nat).spec_step((k * s.frame_time) as u64)
    }
}

/// Sampling advances the cursor once per deadline: after `k` samples the
/// cursor sits at `k % n` and the last advance was at `k*T`.
proof fn lemma_sampled_state(s: BakedResource, k: nat)
    requires
        s.wf(),
        s.frames@.len() > 0,
        s.cursor == 0,
        s.last_iteration == 0,
        s.frame_time > 0,
        k * s.frame_time <= u64::MAX,
    ensures
        spec_sampled(s, k).frames == s.frames,
        spec_sampled(s, k).frame_time == s.frame_time,
        spec_sampled(s, k).cursor == k % s.frames@.len() as nat,
        spec_sampled(s, k).last_iteration == k * s.frame_time,
        spec_sampled(s, k).wf(),
    decreases k,
{
    let n = s.frames@.len() as nat;
    let t = s.frame_time as nat;
    assert(s.frames@.len() <= usize::MAX) by {
        assert(vstd::std_specs::vec::spec_vec_len(&s.frames) == s.frames@.len());
    }
    if k == 0 {
        lemma_small_mod(0, n);
        assert(spec_sampled(s, k) == s);
        assert(k * s.frame_time == 0) by (nonlinear_arith)
            requires
                k == 0,
        ;
    } else {
        assert((k - 1) * t <= k * t) by {
            lemma_mul_inequality(k - 1, k as int, t as int);
        }
        lemma_sampled_state(s, (k - 1) as nat);
        let prev = spec_sampled(s, (k - 1) as nat);
        assert(k * t == (k - 1) * t + t) by {
            assert((k - 1) * t == k * t - t) by (nonlinear_arith);
        }
        assert(prev.spec_due((k * t) as u64));
        let c = prev.cursor as nat;
        assert(spec_sampled(s, k) == prev.spec_step((k * t) as u64));
        assert(((c + 1) as int) % (n as int) == (k as int) % (n as int)) by {
            lemma_mod_step((k - 1) as int, n as int);
        }
        lemma_mod_division_less_than_divisor((c + 1) as int, n as int);
        assert((k * t) as u64 == k * t);
        assert(spec_sampled(s, k).last_iteration == (k * t) as u64);
        assert(spec_sampled(s, k).cursor == (((c + 1) as int) % (n as int)) as usize);
        assert(spec_sampled(s, k).cursor == k % n);
    }
}

/// `(x % n + 1) % n == (x + 1) % n` for positive `n`.
proof fn lemma_mod_step(x: int, n: int)
    requires
        x >= 0,
        n > 0,
    ensures
        ((x % n) + 1) % n == (x + 1) % n,
{
    lemma_add_mod_noop(x, 1, n);
    if n == 1 {
        lemma_mod_division_less_than_divisor(x, 1);
        lemma_mod_division_less_than_divisor((x % 1) + 1, 1);
        lemma_mod_division_less_than_divisor(x + 1, 1);
    } else {
        lemma_small_mod(1, n as nat);
    }
}

/// Cycle closure: a resource with `n` frames sampled at each of its hold
/// deadlines is back on its first frame after `n` samples, so the frame
/// shown at time `n*T` is the frame shown at time `0`.
pub proof fn lemma_cycle_closure(s: BakedResource, n: nat)
    requires
        s.wf(),
        n == s.frames@.len(),
        n > 0,
        s.cursor == 0,
        s.last_iteration == 0,
        s.frame_time > 0,
        n * s.frame_time <= u64::MAX,
    ensures
        spec_sampled(s, n).cursor == 0,
        spec_sampled(s, n).spec_frame() == s.spec_frame(),
{
    lemma_sampled_state(s, n);
    lemma_mod_self_0(n as int);
}

/// A hand-assembled one-pixel QOI image: header, one RGB pixel, end mark.
fn qoi_pixel_frame(r: u8, g: u8, b: u8) -> (f: Vec<u8>)
    ensures
        f@.len() == 26,
{
    let f: Vec<u8> = vec![
        0x71, 0x6f, 0x69, 0x66,  // magic "qoif"
        0, 0, 0, 1,  // width 1
        0, 0, 0, 1,  // height 1
        3,  // channels
        0,  // colorspace
        0xFE, r, g, b,  // one RGB pixel
        0, 0, 0, 0, 0, 0, 0, 1,  // end marker
    ];
    f
}

/// The built-in connectivity animation: three frames, half a second each.
pub fn get_wifi_sprite(now: u64) -> (b: BakedResource)
    ensures
        b.wf(),
        b.frames@.len() == 3,
        b.cursor == 0,
        b.last_iteration == now,
        b.frame_time == 500,
{
    let frames: Vec<Vec<u8>> = vec![
        qoi_pixel_frame(0x20, 0x20, 0xFF),
        qoi_pixel_frame(0x40, 0x40, 0xFF),
        qoi_pixel_frame(0x80, 0x80, 0xFF),
    ];
    bake(Resource { frames, frame_time_ms: 500 }, now)
}

/// The built-in idle animation shown while no scene has been pushed.
pub fn get_dino_sprite(now: u64) -> (b: BakedResource)
    ensures
        b.wf(),
        b.frames@.len() == 4,
        b.cursor == 0,
        b.last_iteration == now,
        b.frame_time == 700,
{
    let frames: Vec<Vec<u8>> = vec![
        qoi_pixel_frame(0x20, 0x80, 0x20),
        qoi_pixel_frame(0x30, 0xA0, 0x30),
        qoi_pixel_frame(0x40, 0xC0, 0x40),
        qoi_pixel_frame(0x30, 0xA0, 0x30),
    ];
    bake(Resource { frames, frame_time_ms: 700 }, now)
}

/// The built-in placeholder drawn when a sprite is missing or undecodable.
pub fn get_no_image_sprite(now: u64) -> (b: BakedResource)
    ensures
        b.wf(),
        b.frames@.len() == 1,
        b.cursor == 0,
        b.last_iteration == now,
        b.frame_time == 0,
{
    let frames: Vec<Vec<u8>> = vec![qoi_pixel_frame(0xFF, 0x00, 0xFF)];
    bake(Resource { frames, frame_time_ms: 0 }, now)
}

} // verus!
