//! Frame pacing for shader and animation updates.
//!
//! Text repaints are always immediate; shader frames are capped to a frame rate.
//! Times are nanosecond readings of the caller's monotonic clock, and frame
//! intervals are in nanoseconds.

use vstd::prelude::*;

verus! {

/// How long without activity before the pacer falls back to the idle rate:
/// 100 ms.
pub const IDLE_TIMEOUT: u64 = 100_000_000;

/// The interval of the idle rate of ten frames a second: 100 ms.
pub const IDLE_FRAME_INTERVAL: u64 = 100_000_000;

/// How often the battery is checked: every 30 s.
pub const BATTERY_CHECK_INTERVAL: u64 = 30_000_000_000;

/// The pacer's state.
pub struct PacerModel {
    pub max_fps: u32,
    pub last_shader_frame: u64,
    pub last_activity: u64,
    pub window_focused: bool,
    pub update_in_background: bool,
    pub battery_mode: bool,
    pub idle_timeout: u64,
    pub battery_aware: bool,
    pub last_battery_check: u64,
}

/// Time from `earlier` to `now`, zero if the clock reads earlier than `earlier`.
pub open spec fn since(now: u64, earlier: u64) -> u64 {
    if now >= earlier {
        (now - earlier) as u64
    } else {
        0
    }
}

impl PacerModel {
    pub open spec fn effective_fps(self) -> u32 {
        if self.battery_mode && self.max_fps > 30 {
            30
        } else {
            self.max_fps
        }
    }

    /// The interval the next shader frame waits for: the idle rate of ten frames a
    /// second after a spell without activity (unless on battery), else the frame
    /// interval.
    pub open spec fn wait_for(self, now: u64, frame_interval: u64) -> u64 {
        if since(now, self.last_activity) > self.idle_timeout && !self.battery_mode {
            IDLE_FRAME_INTERVAL
        } else {
            frame_interval
        }
    }

    /// How long from `now` until the next shader frame at the given interval.
    pub open spec fn time_left(self, now: u64, frame_interval: u64) -> u64 {
        if frame_interval >= since(now, self.last_shader_frame) {
            (frame_interval - since(now, self.last_shader_frame)) as u64
        } else {
            0
        }
    }

    /// Whether a shader frame is due now.
    pub open spec fn frame_due(self, now: u64, frame_interval: u64) -> bool {
        &&& (self.window_focused || self.update_in_background)
        &&& since(now, self.last_shader_frame) >= self.wait_for(now, frame_interval)
    }
}

/// Controls frame pacing for shader/animation updates.
///
/// Separates text-content repaints (always immediate) from
/// shader animation updates (capped to max_fps).
pub struct FramePacer {
    max_fps: u32,
    last_shader_frame: u64,
    last_activity: u64,
    window_focused: bool,
    update_in_background: bool,
    battery_mode: bool,
    idle_timeout: u64,
    battery_aware: bool,
    last_battery_check: u64,
}

impl View for FramePacer {
    type V = PacerModel;

    closed spec fn view(&self) -> PacerModel {
        PacerModel {
            max_fps: self.max_fps,
            last_shader_frame: self.last_shader_frame,
            last_activity: self.last_activity,
            window_focused: self.window_focused,
            update_in_background: self.update_in_background,
            battery_mode: self.battery_mode,
            idle_timeout: self.idle_timeout,
            battery_aware: self.battery_aware,
            last_battery_check: self.last_battery_check,
        }
    }
}

impl FramePacer {
    /// A pacer created at time `now`.
    pub fn new(max_fps: u32, update_in_background: bool, now: u64) -> (r: Self)
        ensures
            r@ == (PacerModel {
                max_fps,
                last_shader_frame: now,
                last_activity: now,
                window_focused: true,
                update_in_background,
                battery_mode: false,
                idle_timeout: IDLE_TIMEOUT,
                battery_aware: true,
                last_battery_check: now,
            }),
    {
        FramePacer {
            max_fps,
            last_shader_frame: now,
            last_activity: now,
            window_focused: true,
            update_in_background,
            battery_mode: false,
            idle_timeout: IDLE_TIMEOUT,
            battery_aware: true,
            last_battery_check: now,
        }
    }

    /// Update configuration at runtime: the cap is kept within 1 to 240.
    pub fn set_max_fps(&mut self, fps: u32)
        ensures
            final(self)@ == (PacerModel {
                max_fps: if fps < 1 {
                    1
                } else if fps > 240 {
                    240
                } else {
                    fps
                },
                ..old(self)@
            }),
    {
        self.max_fps = if fps < 1 {
            1
        } else if fps > 240 {
            240
        } else {
            fps
        };
    }

    pub fn set_update_in_background(&mut self, enabled: bool)
        ensures
            final(self)@ == (PacerModel { update_in_background: enabled, ..old(self)@ }),
    {
        self.update_in_background = enabled;
    }

    pub fn set_window_focused(&mut self, focused: bool)
        ensures
            final(self)@ == (PacerModel { window_focused: focused, ..old(self)@ }),
    {
        self.window_focused = focused;
    }

    pub fn set_battery_mode(&mut self, on_battery: bool)
        ensures
            final(self)@ == (PacerModel { battery_mode: on_battery, ..old(self)@ }),
    {
        self.battery_mode = on_battery;
    }

    /// Signal that activity occurred (PTY output, user input) at time `now`.
    pub fn signal_activity(&mut self, now: u64)
        ensures
            final(self)@ == (PacerModel { last_activity: now, ..old(self)@ }),
    {
        self.last_activity = now;
    }

    /// Returns the effective FPS cap considering battery mode.
    pub fn effective_fps(&self) -> (r: u32)
        ensures
            r == self@.effective_fps(),
    {
        if self.battery_mode {
            if self.max_fps < 30 {
                self.max_fps
            } else {
                30
            }
        } else {
            self.max_fps
        }
    }

    /// Check if a shader frame should be rendered at time `now`, given the frame
    /// interval of the effective rate; a rendered frame is stamped with `now`.
    pub fn should_render_shader(&mut self, now: u64, frame_interval: u64) -> (r: bool)
        ensures
            r == old(self)@.frame_due(now, frame_interval),
            final(self)@ == (if r {
                PacerModel { last_shader_frame: now, ..old(self)@ }
            } else {
                old(self)@
            }),
    {
        if !self.window_focused && !self.update_in_background {
            return false;
        }
        let since_activity = if now >= self.last_activity {
            now - self.last_activity
        } else {
            0
        };
        let is_idle = since_activity > self.idle_timeout;
        let actual_interval = if is_idle && !self.battery_mode {
            IDLE_FRAME_INTERVAL
        } else {
            frame_interval
        };
        let since_frame = if now >= self.last_shader_frame {
            now - self.last_shader_frame
        } else {
            0
        };
        if since_frame >= actual_interval {
            self.last_shader_frame = now;
            true
        } else {
            false
        }
    }

    /// How long to sleep from `now` until the next shader frame.
    pub fn time_to_next_frame(&self, now: u64, frame_interval: u64) -> (r: u64)
        ensures
            r == self@.time_left(now, frame_interval),
    {
        let elapsed = if now >= self.last_shader_frame {
            now - self.last_shader_frame
        } else {
            0
        };
        frame_interval.saturating_sub(elapsed)
    }

    /// Whether bloom should be enabled (disabled on battery).
    pub fn bloom_enabled(&self) -> (r: bool)
        ensures
            r == !self@.battery_mode,
    {
        !self.battery_mode
    }

    /// Enable or disable battery-aware mode.
    pub fn set_battery_aware(&mut self, aware: bool)
        ensures
            final(self)@ == (PacerModel { battery_aware: aware, ..old(self)@ }),
    {
        self.battery_aware = aware;
    }

    /// Battery polling at time `now`: without battery awareness the battery mode is
    /// off; otherwise the battery is checked at most every 30 seconds. Returns
    /// whether a check is due, in which case the caller asks the system and reports
    /// with `set_battery_mode`.
    pub fn poll_battery_status(&mut self, now: u64) -> (check: bool)
        ensures
            !old(self)@.battery_aware ==> !check && final(self)@ == (PacerModel {
                battery_mode: false,
                ..old(self)@
            }),
            old(self)@.battery_aware ==> check == (since(now, old(self)@.last_battery_check)
                >= BATTERY_CHECK_INTERVAL),
            old(self)@.battery_aware ==> final(self)@ == (if check {
                PacerModel { last_battery_check: now, ..old(self)@ }
            } else {
                old(self)@
            }),
    {
        if !self.battery_aware {
            self.battery_mode = false;
            return false;
        }
        let elapsed = if now >= self.last_battery_check {
            now - self.last_battery_check
        } else {
            0
        };
        if elapsed < BATTERY_CHECK_INTERVAL {
            return false;
        }
        self.last_battery_check = now;
        true
    }
}

/// On battery the effective rate is at most 30 frames a second, and it never
/// exceeds the cap.
pub proof fn lemma_battery_caps_fps(m: PacerModel)
    ensures
        m.effective_fps() <= m.max_fps,
        m.battery_mode ==> m.effective_fps() <= 30,
{
}

/// An unfocused window without background updates never renders shader frames.
pub proof fn lemma_unfocused_never_renders(m: PacerModel, now: u64, frame_interval: u64)
    requires
        !m.window_focused,
        !m.update_in_background,
    ensures
        !m.frame_due(now, frame_interval),
{
}

/// Right after a frame is rendered, the next one is a whole frame interval away.
pub proof fn lemma_render_resets_wait(m: PacerModel, now: u64, frame_interval: u64)
    ensures
        (PacerModel { last_shader_frame: now, ..m }).time_left(now, frame_interval)
            == frame_interval,
{
}

} // verus!
