//! The active stylesheet.
//!
//! The operator writes the stylesheet in a CSS superset; the surrounding
//! process compiles it on startup and on every reload (the compiler resolves
//! imports from disk, so the compile is an I/O edge) and hands the outcome
//! in. A compile failure is never fatal: the previously installed style
//! stays active, and the failure is only reported.

use vstd::prelude::*;

verus! {

/// The CSS the toolkit is currently styling widgets with.
pub struct StyleState {
    /// The most recently installed compiled stylesheet, if any compile has
    /// succeeded yet.
    pub active_css: Option<String>,
}

impl StyleState {
    /// No user stylesheet installed yet; the toolkit's built-in fallback is
    /// in effect.
    pub fn new() -> (s: StyleState)
        ensures
            s.active_css is None,
    {
        StyleState { active_css: None }
    }

    /// Install the outcome of one compile: a compiled stylesheet replaces
    /// the active one; a failed compile leaves the previous style installed.
    /// The result says whether a new style was installed.
    pub fn apply_compiled(&mut self, compiled: Option<String>) -> (r: bool)
        ensures
            match compiled {
                Some(css) => r && final(self).active_css == Some(css),
                None => !r && *final(self) == *old(self),
            },
    {
        match compiled {
            Some(css) => {
                self.active_css = Some(css);
                true
            },
            None => false,
        }
    }
}

} // verus!
