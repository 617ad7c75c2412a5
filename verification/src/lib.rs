//! Verified core logic of the Hydra music player: stream identity, ICY
//! metadata framing, gapless metadata parsing, output-device matching,
//! device-sync path layout, download and reconnect policies.
use vstd::prelude::*;

pub mod commands;
pub mod decoding;
pub mod device_sync;
pub mod devices;
pub mod download;
pub mod gapless;
pub mod icy;
pub mod identity;
pub mod offline;
pub mod output;
pub mod ranged;
pub mod sync_paths;
pub mod sync_plan;
pub mod text;
pub mod tray;
pub mod web;

verus! {

} // verus!
