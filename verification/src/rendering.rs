//! Rendering performance settings and the tab bar's place.

use vstd::prelude::*;

verus! {

/// Rendering performance settings.
#[derive(Debug, Clone)]
pub struct RenderingConfig {
    /// Continue rendering terminal & shaders when the window is not focused.
    pub update_in_background: bool,
    /// Maximum frames per second for shader/animation updates (1-240).
    pub max_shader_fps: u32,
    /// Automatically reduce effects and FPS when on battery power.
    pub battery_aware: bool,
}

impl Default for RenderingConfig {
    fn default() -> (r: Self)
        ensures
            r.update_in_background,
            r.max_shader_fps == 144,
            r.battery_aware,
    {
        RenderingConfig { update_in_background: true, max_shader_fps: 144, battery_aware: true }
    }
}

/// `v` clamped to `[lo, hi]`.
pub open spec fn clamp_u32(v: u32, lo: u32, hi: u32) -> u32 {
    if v < lo {
        lo
    } else if v > hi {
        hi
    } else {
        v
    }
}

impl RenderingConfig {
    /// Clamp shader FPS to valid range.
    pub fn effective_shader_fps(&self) -> (r: u32)
        ensures
            r == clamp_u32(self.max_shader_fps, 1, 240),
            1 <= r <= 240,
    {
        if self.max_shader_fps < 1 {
            1
        } else if self.max_shader_fps > 240 {
            240
        } else {
            self.max_shader_fps
        }
    }
}

/// Tab bar position in the window.
#[derive(Debug, Clone, Copy, PartialEq, Eq, Structural)]
pub enum TabBarPosition {
    Top,
    Bottom,
}

} // verus!
