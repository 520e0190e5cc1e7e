//! Diagnostic Trouble Code (DTC) shapes.
use vstd::prelude::*;

use crate::text::{hex_display, hex_upper, zero_padded};

verus! {

/// OEM-specific DTC identifier (for example a 24-bit code held in a `u32`).
#[derive(Debug, Clone, Copy, PartialEq, Eq, Hash, Structural)]
pub struct DtcId(pub u32);

impl DtcId {
    /// The identifier as `0x` followed by at least six upper-case hex digits.
    pub fn to_string(&self) -> (s: String)
        ensures
            s@ == seq!['0', 'x'] + zero_padded(hex_upper(self.0 as nat), 6),
    {
        hex_display(self.0 as u64, 6)
    }
}

/// DTC severity as defined by ISO 14229-1 / ASAM SOVD.
#[derive(Debug, Clone, Copy, PartialEq, Eq, Structural)]
pub enum DtcSeverity {
    /// No maintenance needed.
    NoSeverity,
    /// Maintenance required at next regular service.
    MaintenanceOnly,
    /// Check at next halt.
    CheckAtNextHalt,
    /// Check immediately.
    CheckImmediately,
}

/// ISO 14229-1 DTC status byte: the eight status bits reported per DTC.
#[derive(Debug, Clone, Copy, PartialEq, Eq, Structural)]
pub struct DtcStatus(pub u8);

impl Default for DtcStatus {
    fn default() -> (r: Self)
        ensures
            r.0 == 0,
    {
        DtcStatus(0)
    }
}

/// Bit mask used to filter DTCs: a set bit keeps only DTCs with that status
/// bit set; `0x00` disables filtering.
#[derive(Debug, Clone, Copy, PartialEq, Eq, Structural)]
pub struct DtcStatusMask(pub u8);

impl DtcStatusMask {
    /// The mask that matches every DTC (no filtering).
    pub fn all() -> (r: Self)
        ensures
            r.0 == 0,
    {
        DtcStatusMask(0x00)
    }
}

impl Default for DtcStatusMask {
    fn default() -> (r: Self)
        ensures
            r.0 == 0,
    {
        DtcStatusMask(0)
    }
}

/// DTC grouping used when clearing: everything, or one 24-bit group code.
#[derive(Debug, Clone, Copy, PartialEq, Eq, Structural)]
pub enum DtcGroup {
    /// Every DTC of the component.
    All,
    /// Only DTCs of the given group code.
    Group(u32),
}

/// A fully resolved Diagnostic Trouble Code record.
#[derive(Debug, Clone, PartialEq, Eq)]
pub struct Dtc {
    /// OEM-specific DTC identifier.
    pub id: DtcId,
    /// ISO 14229 status byte.
    pub status: DtcStatus,
    /// Severity classification.
    pub severity: DtcSeverity,
    /// Human-readable short name (e.g. `P0420`).
    pub name: Option<String>,
    /// Occurrence count since last clear.
    pub occurrence_count: u32,
}

} // verus!
