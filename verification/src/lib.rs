//! Fleet command router for container management over a set of remote nodes.
//!
//! The library models the routing core: discovering candidate nodes from a
//! configuration text, translating structured commands into argument vectors,
//! resolving which nodes currently host a named container, deciding where a
//! command must run, and aggregating per-node outcomes.  Everything that talks
//! to the network (sessions, fan-out scheduling) lives outside the library and
//! exchanges plain values with it.

use vstd::prelude::*;

#[verifier::loop_isolation(false)]
pub mod command;
#[verifier::loop_isolation(false)]
pub mod direct;
#[verifier::loop_isolation(false)]
pub mod directory;
#[verifier::loop_isolation(false)]
pub mod dispatch;
#[verifier::loop_isolation(false)]
pub mod flags;
#[verifier::loop_isolation(false)]
pub mod resolve;
#[verifier::loop_isolation(false)]
pub mod text;

verus! {

/// Upper bound on in-flight remote requests during any fan-out.
pub const CONCURRENT_REQUESTS: usize = 10;

} // verus!
