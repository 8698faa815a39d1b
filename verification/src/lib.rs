//! Core logic of GG, a graphical front end for Jujutsu.
use vstd::prelude::*;

pub use config::LaunchMode;

pub mod bundled;
pub mod cli;
pub mod clients;
pub mod config;
pub mod git_util;
pub mod gui;
pub mod hunk;
pub mod keyed;
pub mod menu;
pub mod messages;
pub mod ops;
pub mod paths;
pub mod recent;
pub mod restore;
pub mod text;
pub mod theme;
pub mod web;

verus! {
}
