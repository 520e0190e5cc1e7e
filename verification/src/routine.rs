//! Routine (SOVD `operations`) shapes.
use vstd::prelude::*;

use crate::text::{hex_display, hex_upper, zero_padded};

verus! {

/// Routine identifier, typically a 16-bit UDS routine id widened to `u32`.
#[derive(Debug, Clone, Copy, PartialEq, Eq, Hash, Structural)]
pub struct RoutineId(pub u32);

impl RoutineId {
    /// The identifier as `0x` followed by at least four upper-case hex digits.
    pub fn to_string(&self) -> (s: String)
        ensures
            s@ == seq!['0', 'x'] + zero_padded(hex_upper(self.0 as nat), 4),
    {
        hex_display(self.0 as u64, 4)
    }
}

/// Raw routine result payload.
#[derive(Debug, Clone, PartialEq, Eq)]
pub struct RoutineResult {
    /// Opaque vendor-specific result bytes.
    pub data: Vec<u8>,
}

/// Current lifecycle state of a routine invocation.
#[derive(Debug, Clone, PartialEq, Eq)]
pub enum RoutineState {
    /// Not started on this backend yet.
    Idle,
    /// Accepted and still running.
    Running,
    /// Terminated with a result payload.
    Finished(RoutineResult),
    /// Terminated in error, with a vendor-supplied reason.
    Failed(String),
}

} // verus!
