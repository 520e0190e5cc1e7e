//! Verified core of an OpenSOVD (Service-Oriented Vehicle Diagnostics) stack:
//! the shared diagnostic types, an in-memory multi-component SOVD server,
//! fault filtering, the framing of fault records, and the mapping of remote
//! failures onto the library's error type.
use vstd::prelude::*;

pub mod assoc;
pub mod codec;
pub mod component;
pub mod data;
pub mod dtc;
pub mod error;
pub mod fault;
pub mod filter;
pub mod in_memory;
pub mod json;
pub mod resources;
pub mod roles;
pub mod routine;
pub mod text;
pub mod wire;

verus! {

} // verus!
