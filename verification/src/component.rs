//! Component identifiers and descriptive metadata.
use vstd::prelude::*;

verus! {

/// Stable identifier of one SOVD component (ECU or device view).
///
/// The string is embedded directly into REST paths
/// (`/sovd/v1/components/{id}/...`).
#[derive(Debug, Eq, Hash)]
pub struct ComponentId(pub String);

impl ComponentId {
    /// Builds a component id from its text.
    pub fn new(id: &str) -> (r: Self)
        ensures
            r.0@ == id@,
    {
        ComponentId(String::from_str(id))
    }

    /// Borrows the id as text.
    pub fn as_str(&self) -> (r: &str)
        ensures
            r@ == self.0@,
    {
        self.0.as_str()
    }
}

impl Clone for ComponentId {
    fn clone(&self) -> (r: Self)
        ensures
            r == *self,
    {
        ComponentId(self.0.clone())
    }
}

impl PartialEq for ComponentId {
    fn eq(&self, other: &Self) -> (r: bool) {
        self.0 == other.0
    }
}

impl vstd::std_specs::cmp::PartialEqSpecImpl for ComponentId {
    open spec fn obeys_eq_spec() -> bool {
        true
    }

    open spec fn eq_spec(&self, other: &Self) -> bool {
        self.0@ == other.0@
    }
}

/// Hardware revision string (free-form; vendor-defined encoding).
#[derive(Debug, Clone, PartialEq, Eq)]
pub struct HwRevision(pub String);

/// Software version string (free-form; typically semver).
#[derive(Debug, Clone, PartialEq, Eq)]
pub struct SwVersion(pub String);

/// Metadata describing a component.
#[derive(Debug, Clone, PartialEq, Eq)]
pub struct ComponentInfo {
    /// Stable identifier.
    pub id: ComponentId,
    /// Human-readable name.
    pub name: String,
    /// Hardware revision reported by the ECU, if available.
    pub hw_revision: Option<HwRevision>,
    /// Software version reported by the ECU, if available.
    pub sw_version: Option<SwVersion>,
    /// Free-form vendor string (OEM, supplier, variant).
    pub vendor: Option<String>,
}

} // verus!
