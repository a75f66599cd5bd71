//! Verified core of FloatKeys, a floating on-screen keyboard: word prediction,
//! autocorrect, clipboard history, sticky modifiers, custom shortcuts and layout.
use vstd::prelude::*;

pub mod dict;
pub mod predict;
pub mod clip;
pub mod keys;
pub mod text;
pub mod board;
pub mod layout;
pub mod state;
pub mod panel;
pub mod press;
pub mod input;
pub mod events;
pub mod setup;
pub mod look;
pub mod place;
pub mod focus;

verus! {
} // verus!
