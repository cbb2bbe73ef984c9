use vstd::prelude::*;

pub mod actions;
pub mod apply;
pub mod args;
pub mod bindings;
pub mod config;
pub mod dispatch;
pub mod events;
pub mod focus;
pub mod geometry;
pub mod keybinding;
pub mod layout;
pub mod manage;
pub mod migrate;
pub mod ops;
pub mod overview;
pub mod text;
pub mod wm;

verus! {

} // verus!
