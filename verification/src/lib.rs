//! Clipboard compression daemon: the configuration model, hotkey parsing and
//! matching, the request and reply handling for the local language-model
//! server, and the decisions of the compression flow.

pub mod ai_client;
pub mod config;
pub mod daemon;
pub mod hotkeys;
pub mod text;

use vstd::prelude::*;

verus! {

} // verus!
