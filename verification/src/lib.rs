//! klinit: the decision logic of a macOS cleanup tool, with its contracts.

pub mod text;
pub mod path;
pub mod plan;
pub mod safety;
pub mod executor;
pub mod sort;
pub mod targets;
pub mod modules;
pub mod leftovers;
pub mod locations;
pub mod apps;
pub mod group;
pub mod large;
pub mod dupes;
pub mod config;
pub mod disk;
pub mod tui;
