//! Verified core of the Odin swarm: Muninn's realtime media packetizer,
//! Odin's discovery records and planners, and the small decision cores of
//! the Idunn, Gjallar and Sleipnir organs.
use vstd::prelude::*;

pub mod documents;
pub mod media;
pub mod odin_core;
pub mod sleipnir;
pub mod text;
pub mod tracker;

verus! {

} // verus!
