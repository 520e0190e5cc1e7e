//! Data identifier (DID) shapes.
use vstd::prelude::*;

use crate::json::JsonValue;
use crate::text::{hex_display, hex_upper, zero_padded};

verus! {

/// 16-bit UDS Data Identifier, widened to `u32` for vendor extensions.
#[derive(Debug, Clone, Copy, PartialEq, Eq, Hash, Structural)]
pub struct DataIdentifier(pub u32);

impl DataIdentifier {
    /// The identifier as `0x` followed by at least four upper-case hex digits.
    pub fn to_string(&self) -> (s: String)
        ensures
            s@ == seq!['0', 'x'] + zero_padded(hex_upper(self.0 as nat), 4),
    {
        hex_display(self.0 as u64, 4)
    }
}

/// Decoded value of a DID.
#[derive(Debug, Clone, PartialEq)]
pub struct DataValue(pub JsonValue);

} // verus!
