//! Fault records reported by the Fault Library to the fault manager.
use vstd::prelude::*;

use crate::component::ComponentId;
use crate::json::JsonValue;

verus! {

/// ECU-specific Fault Identifier, unique within one ECU.
#[derive(Debug, Clone, Copy, PartialEq, Eq, Hash, Structural)]
pub struct FaultId(pub u32);

/// Fault severity reported by the Fault Library.
#[derive(Debug, Clone, Copy, PartialEq, Eq, Structural)]
pub enum FaultSeverity {
    /// Informational; never escalates to a DTC.
    Info,
    /// May escalate to a pending DTC after debouncing.
    Warning,
    /// Escalates to a confirmed DTC after debouncing.
    Error,
    /// Immediate DTC.
    Fatal,
}

/// A single fault event. Two equal records are two observations.
#[derive(Debug, Clone, PartialEq)]
pub struct FaultRecord {
    /// Which component reported the fault.
    pub component: ComponentId,
    /// Fault identifier.
    pub id: FaultId,
    /// Severity at the moment of reporting.
    pub severity: FaultSeverity,
    /// Milliseconds since boot when the fault was observed.
    pub timestamp_ms: u64,
    /// Optional opaque meta-data (snapshot data, freeze frames).
    pub meta: Option<JsonValue>,
}

} // verus!
