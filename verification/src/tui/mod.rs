//! The full-screen interface's state, as data and transitions: no terminal, no threads.

pub mod app;
pub mod hit;
pub mod layout;
pub mod model;
pub mod picker;
pub mod theme;

use vstd::prelude::*;
use std::sync::Arc;
use crate::safety::Guard;

verus! {

/// What the background work of the interface needs; cheap to clone.
#[derive(Clone)]
pub struct Ctx {
    pub home: String,
    /// Where installed apps are looked for.
    pub app_dirs: Vec<String>,
    /// The guard for cleanups.
    pub guard: Arc<Guard>,
    /// The same, but also allowing app bundles in the application folders to be removed.
    pub app_guard: Arc<Guard>,
}

} // verus!
