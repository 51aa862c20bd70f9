//! Whether the launcher window hides itself when it loses focus.

use vstd::prelude::*;
use std::sync::atomic::AtomicBool;

verus! {

/// A flag shared between the focus handler and the commands that open a
/// system dialog (during which hiding is suspended).
pub struct WindowBehavior {
    auto_hide_suspended: AtomicBool,
}

impl WindowBehavior {
    /// A behaviour with hiding not suspended. The flag is an atomic that
    /// other threads may change through a shared reference; no contract
    /// states its value.
    pub fn new() -> (r: Self) {
        WindowBehavior { auto_hide_suspended: AtomicBool::new(false) }
    }

    /// Suspends (or resumes) hiding on focus loss.
    pub fn set_auto_hide_suspended(&self, suspended: bool) {
        self.auto_hide_suspended.store(suspended, std::sync::atomic::Ordering::Relaxed);
    }

    /// Whether hiding on focus loss is suspended: the atomic flag's current
    /// value, which another thread may have set at any moment; no contract
    /// states it.
    pub fn auto_hide_suspended(&self) -> bool {
        self.auto_hide_suspended.load(std::sync::atomic::Ordering::Relaxed)
    }
}

impl Default for WindowBehavior {
    fn default() -> (r: Self) {
        WindowBehavior::new()
    }
}

} // verus!
