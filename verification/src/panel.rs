//! Panel-driver pacing decisions.
//!
//! The hardware paint itself is outside; what is decided here is when
//! the painter repaints, which brightness fade to start when the panel
//! is switched, and the measured refresh rate.  The plain flags are the
//! cross-core scalars for which value tearing is acceptable.

use vstd::prelude::*;

verus! {

/// Plain cross-core flags shared between the compositor side and the
/// painter side.  The API writes `panel_on` and `brightness`; the
/// compositor writes `system_up`; the painter writes `refresh_rate`.
#[derive(Debug, Clone, Copy, PartialEq, Eq, Structural)]
pub struct PanelFlags {
    /// Whether the API asked for the panel to be on
    pub panel_on: bool,
    /// Requested brightness level
    pub brightness: u8,
    /// Whether the system is up (scene rendering, not a status screen)
    pub system_up: bool,
    /// Frames painted in the last measured second
    pub refresh_rate: u32,
}

impl PanelFlags {
    pub fn new(brightness: u8) -> (f: Self)
        ensures
            f == (PanelFlags { panel_on: true, brightness, system_up: false, refresh_rate: 0 }),
    {
        PanelFlags { panel_on: true, brightness, system_up: false, refresh_rate: 0 }
    }
}

/// Whether the painter repaints this tick: while the panel is on, while
/// a brightness fade is still running, or while the system is down and a
/// status screen must stay visible.
pub fn painter_active(panel_on: bool, fade_running: bool, system_up: bool) -> (r: bool)
    ensures
        r == (panel_on || fade_running || !system_up),
{
    panel_on || fade_running || !system_up
}

/// How long a panel on/off brightness fade runs, in milliseconds.
pub const FADE_DURATION_MS: u16 = 300;

/// The brightness fade to start when the requested on/off state differs
/// from the painter's: fading up to the requested brightness, or down to
/// zero, over the fixed fade duration.  No change, no fade.
pub fn fade_decision(curr_on: bool, panel_was_on: bool, prev_level: u8, brightness: u8) -> (r:
    Option<(u8, u8, u16)>)
    ensures
        curr_on == panel_was_on ==> r is None,
        curr_on != panel_was_on && curr_on ==> r == Some((prev_level, brightness, FADE_DURATION_MS)),
        curr_on != panel_was_on && !curr_on ==> r == Some((prev_level, 0u8, FADE_DURATION_MS)),
{
    if curr_on == panel_was_on {
        None
    } else if curr_on {
        Some((prev_level, brightness, FADE_DURATION_MS))
    } else {
        Some((prev_level, 0, FADE_DURATION_MS))
    }
}

/// Counts painted frames and reports the count once per second.
#[derive(Debug, Clone, Copy, PartialEq, Eq, Structural)]
pub struct FpsCounter {
    pub count: u32,
    pub window_start: u64,
}

impl FpsCounter {
    pub fn new(now: u64) -> (c: Self)
        ensures
            c == (FpsCounter { count: 0, window_start: now }),
    {
        FpsCounter { count: 0, window_start: now }
    }

    /// Records one painted frame; when more than a second of the window
    /// has elapsed, reports the frames painted in it and starts a new
    /// window at `now`.
    pub fn tick(&mut self, now: u64) -> (report: Option<u32>)
        requires
            old(self).count < u32::MAX,
        ensures
            ({
                let elapsed = old(self).window_start <= now && now - old(self).window_start > 1000;
                if elapsed {
                    report == Some((old(self).count + 1) as u32) && *final(self) == (FpsCounter {
                        count: 0,
                        window_start: now,
                    })
                } else {
                    report is None && *final(self) == (FpsCounter {
                        count: (old(self).count + 1) as u32,
                        window_start: old(self).window_start,
                    })
                }
            }),
    {
        self.count = self.count + 1;
        if self.window_start <= now && now - self.window_start > 1000 {
            let report = self.count;
            self.count = 0;
            self.window_start = now;
            Some(report)
        } else {
            None
        }
    }
}

} // verus!
