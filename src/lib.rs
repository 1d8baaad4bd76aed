//! Telemetry collector for a peer-to-peer compute network: the logic that
//! normalises inbound node telemetry into store writes, decodes the store's
//! replies, drives cursor scans, and renders the node roster as CSV or as a
//! streamed JSON array.
use vstd::prelude::*;

pub mod json_stream;
pub mod pingme;
pub mod reply;
pub mod roster;
pub mod scan;
pub mod store;
pub mod telemetry;
pub mod text;
pub mod updater;

verus! {

} // verus!
