//! Synchronization core for a collaboratively edited grid of text cells:
//! the shared cell/grid model, the last-write-wins merge engine, the wire
//! codec, and the relay's session registry, router and broadcaster.
use vstd::prelude::*;

pub mod model;
pub mod merge;
pub mod codec;
pub mod decode;
pub mod relay;
pub mod client;

verus! {

/// Wire type tag of a join request.
pub const INIT: &'static str = "INIT";

/// Wire type tag of a grid snapshot broadcast.
pub const GRID: &'static str = "GRID";

/// Wire type tag of a relay-originated client list update.
pub const CLIENT_LIST: &'static str = "CLIENT_LIST";

} // verus!
