//! Request and response shapes of the SOVD v1 REST resources served by the
//! library: faults, entities, operations and executions, data values.
use vstd::prelude::*;

use crate::json::{
    JsonValue,
    clone_opt_string,
    clone_opt_strings,
    opt_strings_view,
};

verus! {

/// One value inside a fault's status object.
#[derive(Debug, PartialEq, Eq)]
pub enum StatusField {
    /// A JSON string.
    Text(String),
    /// Any other JSON value.
    Other(JsonValue),
}

impl Clone for StatusField {
    fn clone(&self) -> (r: Self)
        ensures
            r == *self,
    {
        match self {
            StatusField::Text(t) => StatusField::Text(t.clone()),
            StatusField::Other(v) => StatusField::Other(v.clone()),
        }
    }
}

/// A fault's status: usually an object of status attributes such as
/// `aggregatedStatus` or `confirmedDTC`.
#[derive(Debug, PartialEq, Eq)]
pub enum FaultStatus {
    /// A JSON object, as its entries in order.
    Object(Vec<(String, StatusField)>),
    /// Any other JSON value.
    Other(JsonValue),
}

/// The contents of a fault status.
pub enum FaultStatusView {
    /// The entries of an object.
    Object(Seq<(String, StatusField)>),
    /// Any other JSON value.
    Other(JsonValue),
}

impl View for FaultStatus {
    type V = FaultStatusView;

    open spec fn view(&self) -> FaultStatusView {
        match self {
            FaultStatus::Object(v) => FaultStatusView::Object(v@),
            FaultStatus::Other(j) => FaultStatusView::Other(*j),
        }
    }
}

fn clone_entries(v: &Vec<(String, StatusField)>) -> (r: Vec<(String, StatusField)>)
    ensures
        r@ == v@,
{
    let mut r: Vec<(String, StatusField)> = Vec::new();
    let mut i: usize = 0;
    while i < v.len()
        invariant
            i <= v@.len(),
            r@ == v@.take(i as int),
        decreases v@.len() - i,
    {
        let e = (v[i].0.clone(), v[i].1.clone());
        r.push(e);
        proof {
            assert(r@ =~= v@.take(i + 1));
        }
        i = i + 1;
    }
    proof {
        assert(v@.take(v@.len() as int) =~= v@);
    }
    r
}

impl FaultStatus {
    /// A copy with the same contents.
    pub fn duplicate(&self) -> (r: Self)
        ensures
            r@ == self@,
    {
        match self {
            FaultStatus::Object(v) => FaultStatus::Object(clone_entries(v)),
            FaultStatus::Other(j) => FaultStatus::Other(j.clone()),
        }
    }
}

/// The contents of an optional fault status.
pub open spec fn opt_status_view(o: Option<FaultStatus>) -> Option<FaultStatusView> {
    match o {
        Some(s) => Some(s@),
        None => None,
    }
}

/// One fault (diagnostic trouble code) held for a component.
#[derive(Debug, PartialEq, Eq)]
pub struct Fault {
    /// Native fault code, unique per component.
    pub code: String,
    /// Scope the fault belongs to.
    pub scope: Option<String>,
    /// Code as displayed to a tester.
    pub display_code: Option<String>,
    /// Human-readable name.
    pub fault_name: String,
    /// Translation id of the name.
    pub fault_translation_id: Option<String>,
    /// Severity; lower is more severe.
    pub severity: Option<i32>,
    /// Status attributes.
    pub status: Option<FaultStatus>,
    /// Symptom description.
    pub symptom: Option<String>,
    /// Translation id of the symptom.
    pub symptom_translation_id: Option<String>,
    /// Free-form tags.
    pub tags: Option<Vec<String>>,
}

/// The contents of a fault.
pub struct FaultView {
    pub code: String,
    pub scope: Option<String>,
    pub display_code: Option<String>,
    pub fault_name: String,
    pub fault_translation_id: Option<String>,
    pub severity: Option<i32>,
    pub status: Option<FaultStatusView>,
    pub symptom: Option<String>,
    pub symptom_translation_id: Option<String>,
    pub tags: Option<Seq<String>>,
}

impl View for Fault {
    type V = FaultView;

    open spec fn view(&self) -> FaultView {
        FaultView {
            code: self.code,
            scope: self.scope,
            display_code: self.display_code,
            fault_name: self.fault_name,
            fault_translation_id: self.fault_translation_id,
            severity: self.severity,
            status: opt_status_view(self.status),
            symptom: self.symptom,
            symptom_translation_id: self.symptom_translation_id,
            tags: opt_strings_view(self.tags),
        }
    }
}

impl Fault {
    /// A copy with the same contents.
    pub fn duplicate(&self) -> (r: Self)
        ensures
            r@ == self@,
    {
        let status = match &self.status {
            Some(s) => Some(s.duplicate()),
            None => None,
        };
        Fault {
            code: self.code.clone(),
            scope: clone_opt_string(&self.scope),
            display_code: clone_opt_string(&self.display_code),
            fault_name: self.fault_name.clone(),
            fault_translation_id: clone_opt_string(&self.fault_translation_id),
            severity: self.severity,
            status,
            symptom: clone_opt_string(&self.symptom),
            symptom_translation_id: clone_opt_string(&self.symptom_translation_id),
            tags: clone_opt_strings(&self.tags),
        }
    }
}

/// The contents of a list of faults.
pub open spec fn faults_view(s: Seq<Fault>) -> Seq<FaultView> {
    s.map_values(|f: Fault| f@)
}

/// Filter for listing faults.
///
/// A fault passes when its severity is strictly below `severity` (if set),
/// its scope equals `scope` (if set), and at least one `(key, value)` pair of
/// `status_keys` (if any) matches a string entry of its status object.
#[derive(Debug)]
pub struct FaultFilter {
    /// `(key, value)` pairs matched against the status object.
    pub status_keys: Vec<(String, String)>,
    /// Severity upper bound (exclusive).
    pub severity: Option<i32>,
    /// Scope to match.
    pub scope: Option<String>,
}

impl FaultFilter {
    /// The filter that lets every fault pass.
    pub fn all() -> (r: Self)
        ensures
            r.status_keys@.len() == 0,
            r.severity is None,
            r.scope is None,
    {
        FaultFilter { status_keys: Vec::new(), severity: None, scope: None }
    }
}

/// A list of faults.
#[derive(Debug)]
pub struct ListOfFaults {
    /// The faults.
    pub items: Vec<Fault>,
    /// Schema of the items, when asked for.
    pub schema: Option<JsonValue>,
}

/// One fault with its environment data.
#[derive(Debug)]
pub struct FaultDetails {
    /// The fault.
    pub item: Fault,
    /// Environment (freeze-frame) data recorded with the fault.
    pub environment_data: Option<JsonValue>,
    /// Errors met while reading the details.
    pub errors: Option<JsonValue>,
    /// Schema of the item, when asked for.
    pub schema: Option<JsonValue>,
}

/// What an entity offers, with links to its sub-collections.
#[derive(Debug, PartialEq, Eq)]
pub struct EntityCapabilities {
    pub id: String,
    pub name: String,
    pub translation_id: Option<String>,
    pub variant: Option<String>,
    pub configurations: Option<String>,
    pub bulk_data: Option<String>,
    pub data: Option<String>,
    pub data_lists: Option<String>,
    pub faults: Option<String>,
    pub operations: Option<String>,
    pub updates: Option<String>,
    pub modes: Option<String>,
    pub subareas: Option<String>,
    pub subcomponents: Option<String>,
    pub locks: Option<String>,
    pub depends_on: Option<String>,
    pub hosts: Option<String>,
    pub is_located_on: Option<String>,
    pub scripts: Option<String>,
    pub logs: Option<String>,
}

impl Clone for EntityCapabilities {
    fn clone(&self) -> (r: Self)
        ensures
            r == *self,
    {
        EntityCapabilities {
            id: self.id.clone(),
            name: self.name.clone(),
            translation_id: clone_opt_string(&self.translation_id),
            variant: clone_opt_string(&self.variant),
            configurations: clone_opt_string(&self.configurations),
            bulk_data: clone_opt_string(&self.bulk_data),
            data: clone_opt_string(&self.data),
            data_lists: clone_opt_string(&self.data_lists),
            faults: clone_opt_string(&self.faults),
            operations: clone_opt_string(&self.operations),
            updates: clone_opt_string(&self.updates),
            modes: clone_opt_string(&self.modes),
            subareas: clone_opt_string(&self.subareas),
            subcomponents: clone_opt_string(&self.subcomponents),
            locks: clone_opt_string(&self.locks),
            depends_on: clone_opt_string(&self.depends_on),
            hosts: clone_opt_string(&self.hosts),
            is_located_on: clone_opt_string(&self.is_located_on),
            scripts: clone_opt_string(&self.scripts),
            logs: clone_opt_string(&self.logs),
        }
    }
}

/// A reference to one entity in a discovery listing.
#[derive(Debug)]
pub struct EntityReference {
    pub id: String,
    pub name: String,
    pub translation_id: Option<String>,
    /// Link to the entity.
    pub href: String,
    pub tags: Option<Vec<String>>,
}

/// The entities a server knows.
#[derive(Debug)]
pub struct DiscoveredEntities {
    pub items: Vec<EntityReference>,
}

/// A data value read from a component.
#[derive(Debug)]
pub struct ReadValue {
    /// Data identifier.
    pub id: String,
    /// The value.
    pub data: JsonValue,
    pub errors: Option<JsonValue>,
    pub schema: Option<JsonValue>,
}

/// One operation a component offers.
#[derive(Debug, PartialEq, Eq)]
pub struct OperationDescription {
    pub id: String,
    pub name: Option<String>,
    pub translation_id: Option<String>,
    pub proximity_proof_required: bool,
    pub asynchronous_execution: bool,
    pub tags: Option<Vec<String>>,
}

/// The contents of an operation description.
pub struct OperationDescriptionView {
    pub id: String,
    pub name: Option<String>,
    pub translation_id: Option<String>,
    pub proximity_proof_required: bool,
    pub asynchronous_execution: bool,
    pub tags: Option<Seq<String>>,
}

impl View for OperationDescription {
    type V = OperationDescriptionView;

    open spec fn view(&self) -> OperationDescriptionView {
        OperationDescriptionView {
            id: self.id,
            name: self.name,
            translation_id: self.translation_id,
            proximity_proof_required: self.proximity_proof_required,
            asynchronous_execution: self.asynchronous_execution,
            tags: opt_strings_view(self.tags),
        }
    }
}

impl OperationDescription {
    /// A copy with the same contents.
    pub fn duplicate(&self) -> (r: Self)
        ensures
            r@ == self@,
    {
        OperationDescription {
            id: self.id.clone(),
            name: clone_opt_string(&self.name),
            translation_id: clone_opt_string(&self.translation_id),
            proximity_proof_required: self.proximity_proof_required,
            asynchronous_execution: self.asynchronous_execution,
            tags: clone_opt_strings(&self.tags),
        }
    }
}

/// The contents of a list of operation descriptions.
pub open spec fn operations_view(s: Seq<OperationDescription>) -> Seq<OperationDescriptionView> {
    s.map_values(|o: OperationDescription| o@)
}

/// The operations of a component.
#[derive(Debug)]
pub struct OperationsList {
    pub items: Vec<OperationDescription>,
    pub schema: Option<JsonValue>,
}

/// Lifecycle status of an execution.
#[derive(Debug, Clone, Copy, PartialEq, Eq, Structural)]
pub enum ExecutionStatus {
    /// Still running.
    Running,
    /// Finished successfully.
    Completed,
    /// Terminated with a failure.
    Failed,
}

/// What can be done to an execution.
#[derive(Debug, Clone, Copy, PartialEq, Eq, Structural)]
pub enum Capability {
    Execute,
    Stop,
    Freeze,
    Reset,
    Status,
}

/// Request body for starting an execution.
#[derive(Debug)]
pub struct StartExecutionRequest {
    /// Timeout in seconds.
    pub timeout: Option<u64>,
    /// Input parameters.
    pub parameters: Option<JsonValue>,
    /// Answer to a proximity challenge.
    pub proximity_response: Option<String>,
}

/// Response to starting an execution.
#[derive(Debug)]
pub struct StartExecutionAsyncResponse {
    /// Identifier of the new execution.
    pub id: String,
    pub status: Option<ExecutionStatus>,
}

/// Status of one execution.
#[derive(Debug)]
pub struct ExecutionStatusResponse {
    pub status: Option<ExecutionStatus>,
    pub capability: Capability,
    pub parameters: Option<JsonValue>,
    pub schema: Option<JsonValue>,
    pub error: Option<JsonValue>,
}

} // verus!
