//! Verified core of a cluster workload inventory and remote-command tool.
//!
//! The library models workloads as plain records, builds a filtered
//! inventory from a cluster snapshot, classifies runtime state, gates
//! remote command execution on a watch-driven readiness state machine,
//! translates logical commands into concrete shell invocations, parses
//! the output of the embedded-VM introspection command, and merges
//! per-workload status results back into the inventory.
//!
//! All cluster I/O (listing, watching, attaching) lives outside the
//! library; callers hand in plain values and take plain values back.

pub mod dispatch;
pub mod gate;
pub mod inventory;
pub mod record;
pub mod render;
pub mod status;
pub mod text;
pub mod translate;
