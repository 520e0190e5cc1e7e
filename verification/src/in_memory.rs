//! In-memory SOVD server: a fixed roster of components, each with its faults,
//! operations, executions and data values.
//!
//! `InMemoryServer` holds every component; a per-component
//! `InMemoryComponentServer` names one of them and answers for it.
use vstd::prelude::*;

use crate::assoc::{
    assoc_find,
    assoc_insert,
    assoc_map,
    assoc_remove,
    keys_unique,
    lemma_assoc_contains,
    lemma_assoc_update_first,
};
use crate::component::ComponentId;
use crate::error::{SovdError, is_not_found};
use crate::filter::{filtered, matches_filter};
use crate::json::{JsonValue, clone_opt_json};
use crate::resources::{
    Capability,
    DiscoveredEntities,
    EntityCapabilities,
    EntityReference,
    ExecutionStatus,
    ExecutionStatusResponse,
    Fault,
    FaultDetails,
    FaultFilter,
    FaultStatus,
    FaultStatusView,
    FaultView,
    ListOfFaults,
    OperationDescription,
    OperationDescriptionView,
    OperationsList,
    ReadValue,
    StartExecutionAsyncResponse,
    StartExecutionRequest,
    StatusField,
    faults_view,
    operations_view,
};
use crate::text::{concat, concat3, str_eq, str_lt};

verus! {

/// Base of every `href` the server hands out.
pub const BASE_URI: &'static str = "/sovd/v1";

/// One execution of an operation.
#[derive(Debug)]
pub struct ExecutionRecord {
    /// The operation this execution belongs to.
    pub operation_id: String,
    /// Current lifecycle status.
    pub status: ExecutionStatus,
    /// Parameters supplied when the execution was started.
    pub parameters: Option<JsonValue>,
}

/// The contents of an execution record.
pub struct ExecutionRecordView {
    pub operation_id: Seq<char>,
    pub status: ExecutionStatus,
    pub parameters: Option<JsonValue>,
}

impl View for ExecutionRecord {
    type V = ExecutionRecordView;

    open spec fn view(&self) -> ExecutionRecordView {
        ExecutionRecordView {
            operation_id: self.operation_id@,
            status: self.status,
            parameters: self.parameters,
        }
    }
}

/// State of one component.
#[derive(Debug)]
pub struct ComponentState {
    /// Capabilities served from `GET /components/{id}`.
    pub capabilities: EntityCapabilities,
    /// Faults currently held.
    pub faults: Vec<Fault>,
    /// Environment data per fault code.
    pub fault_environments: Vec<(String, JsonValue)>,
    /// Operation catalog.
    pub operations: Vec<OperationDescription>,
    /// Executions by execution id.
    pub executions: Vec<(String, ExecutionRecord)>,
    /// Data values by data id.
    pub data_values: Vec<(String, JsonValue)>,
}

/// The contents of a component's state.
pub struct ComponentStateView {
    pub capabilities: EntityCapabilities,
    pub faults: Seq<FaultView>,
    pub fault_environments: Map<Seq<char>, JsonValue>,
    pub operations: Seq<OperationDescriptionView>,
    pub executions: Map<Seq<char>, ExecutionRecordView>,
    pub data_values: Map<Seq<char>, JsonValue>,
}

/// The contents of a table of execution records.
pub open spec fn executions_view(s: Seq<(String, ExecutionRecord)>) -> Map<
    Seq<char>,
    ExecutionRecordView,
> {
    assoc_map(s).map_values(|r: ExecutionRecord| r@)
}

impl View for ComponentState {
    type V = ComponentStateView;

    open spec fn view(&self) -> ComponentStateView {
        ComponentStateView {
            capabilities: self.capabilities,
            faults: faults_view(self.faults@),
            fault_environments: assoc_map(self.fault_environments@),
            operations: operations_view(self.operations@),
            executions: executions_view(self.executions@),
            data_values: assoc_map(self.data_values@),
        }
    }
}

/// Index of the first fault with `code`.
pub open spec fn fault_index(s: Seq<FaultView>, code: Seq<char>) -> Option<int>
    decreases s.len(),
{
    if s.len() == 0 {
        None
    } else if s[0].code@ == code {
        Some(0)
    } else {
        match fault_index(s.drop_first(), code) {
            Some(i) => Some(i + 1),
            None => None,
        }
    }
}

/// What `fault_index` returns, stated without recursion.
pub proof fn lemma_fault_index(s: Seq<FaultView>, code: Seq<char>)
    ensures
        match fault_index(s, code) {
            Some(i) => 0 <= i < s.len() && s[i].code@ == code && forall|j: int|
                0 <= j < i ==> #[trigger] s[j].code@ != code,
            None => forall|j: int| 0 <= j < s.len() ==> #[trigger] s[j].code@ != code,
        },
    decreases s.len(),
{
    if s.len() > 0 && s[0].code@ != code {
        let t = s.drop_first();
        lemma_fault_index(t, code);
        match fault_index(t, code) {
            Some(i) => {
                assert forall|j: int| 0 <= j < i + 1 implies #[trigger] s[j].code@ != code by {
                    if j > 0 {
                        assert(s[j] == t[j - 1]);
                    }
                }
                assert(s[i + 1] == t[i]);
            },
            None => {
                assert forall|j: int| 0 <= j < s.len() implies #[trigger] s[j].code@ != code by {
                    if j > 0 {
                        assert(s[j] == t[j - 1]);
                    }
                }
            },
        }
    }
}

/// The faults of `s` whose code is not `code`, in order.
pub open spec fn without_code(s: Seq<FaultView>, code: Seq<char>) -> Seq<FaultView>
    decreases s.len(),
{
    if s.len() == 0 {
        s
    } else if s.last().code@ == code {
        without_code(s.drop_last(), code)
    } else {
        without_code(s.drop_last(), code).push(s.last())
    }
}

/// No fault of `without_code(s, code)` has `code`; it is as long as `s`
/// exactly when no fault of `s` has `code`.
pub proof fn lemma_without_code(s: Seq<FaultView>, code: Seq<char>)
    ensures
        forall|i: int|
            0 <= i < without_code(s, code).len() ==> #[trigger] without_code(s, code)[i].code@
                != code,
        without_code(s, code).len() <= s.len(),
        without_code(s, code).len() == s.len() <==> forall|j: int|
            0 <= j < s.len() ==> #[trigger] s[j].code@ != code,
    decreases s.len(),
{
    if s.len() > 0 {
        let p = s.drop_last();
        lemma_without_code(p, code);
        let w = without_code(p, code);
        assert forall|i: int|
            0 <= i < without_code(s, code).len() implies #[trigger] without_code(s, code)[i].code@
            != code by {
            if i < w.len() {
                assert(without_code(s, code)[i] == w[i]);
            }
        }
        if without_code(s, code).len() == s.len() {
            assert forall|j: int| 0 <= j < s.len() implies #[trigger] s[j].code@ != code by {
                if j < p.len() {
                    assert(s[j] == p[j]);
                }
            }
        }
        if forall|j: int| 0 <= j < s.len() ==> #[trigger] s[j].code@ != code {
            assert forall|j: int| 0 <= j < p.len() implies #[trigger] p[j].code@ != code by {
                assert(s[j] == p[j]);
            }
            assert(s[s.len() - 1].code@ != code);
        }
    }
}

/// Message naming a component that is not registered.
pub open spec fn component_entity(id: Seq<char>) -> Seq<char> {
    "component \""@ + id + "\""@
}

/// Message naming a fault code that is not held.
pub open spec fn fault_entity(code: Seq<char>) -> Seq<char> {
    "fault \""@ + code + "\""@
}

/// Message naming an operation that is not offered.
pub open spec fn operation_entity(id: Seq<char>) -> Seq<char> {
    "operation \""@ + id + "\""@
}

/// Message naming an execution that is not known.
pub open spec fn execution_entity(id: Seq<char>) -> Seq<char> {
    "execution \""@ + id + "\""@
}

/// Message naming an execution that belongs to another operation.
pub open spec fn execution_of_operation_entity(exec_id: Seq<char>, op_id: Seq<char>) -> Seq<char> {
    "execution \""@ + exec_id + "\" of operation \""@ + op_id + "\""@
}

/// Message naming a data item that is not held.
pub open spec fn data_entity(id: Seq<char>) -> Seq<char> {
    "data \""@ + id + "\""@
}

/// Whether some operation of `ops` has identifier `id`.
pub open spec fn offers_operation(ops: Seq<OperationDescriptionView>, id: Seq<char>) -> bool {
    exists|i: int| 0 <= i < ops.len() && #[trigger] ops[i].id@ == id
}

/// The components that a table of entries stands for.
pub open spec fn components_view(s: Seq<(String, ComponentState)>) -> Map<Seq<char>, ComponentStateView> {
    assoc_map(s).map_values(|c: ComponentState| c@)
}

/// Replacing the first entry of a key replaces that component's state.
proof fn lemma_components_update(s: Seq<(String, ComponentState)>, i: int, c: ComponentState)
    requires
        0 <= i < s.len(),
        forall|j: int| 0 <= j < i ==> #[trigger] s[j].0@ != s[i].0@,
    ensures
        components_view(s.update(i, (s[i].0, c))) == components_view(s).insert(s[i].0@, c@),
{
    lemma_assoc_update_first(s, i, (s[i].0, c));
    assert(components_view(s.update(i, (s[i].0, c))) =~= components_view(s).insert(s[i].0@, c@));
}

/// No key occurs twice in a fault status object.
pub open spec fn status_keys_unique(status: Option<FaultStatusView>) -> bool {
    match status {
        Some(FaultStatusView::Object(entries)) => keys_unique(entries),
        _ => true,
    }
}

/// No key occurs twice in the status object of any of the faults.
pub open spec fn statuses_keys_unique(faults: Seq<FaultView>) -> bool {
    forall|k: int| 0 <= k < faults.len() ==> status_keys_unique(#[trigger] faults[k].status)
}

/// No key occurs twice in any table of a component: its environment data,
/// its executions, its data values and the status objects of its faults.
pub open spec fn tables_keys_unique(c: ComponentState) -> bool {
    &&& keys_unique(c.fault_environments@)
    &&& keys_unique(c.executions@)
    &&& keys_unique(c.data_values@)
    &&& statuses_keys_unique(faults_view(c.faults@))
}

/// Multi-component in-memory SOVD store.
///
/// Components are kept in strictly increasing order of their identifiers,
/// each component's capabilities carry its own identifier, and no key
/// occurs twice in any table of a component.
#[derive(Debug)]
pub struct InMemoryServer {
    components: Vec<(String, ComponentState)>,
}

impl InMemoryServer {
    #[verifier::type_invariant]
    spec fn inv(self) -> bool {
        &&& forall|i: int, j: int|
            0 <= i < j < self.components@.len() ==> str_lt(
                #[trigger] self.components@[i].0@,
                #[trigger] self.components@[j].0@,
            )
        &&& forall|i: int|
            0 <= i < self.components@.len() ==> (#[trigger] self.components@[i]).1.capabilities.id@
                == self.components@[i].0@
        &&& forall|i: int|
            0 <= i < self.components@.len() ==> tables_keys_unique(
                (#[trigger] self.components@[i]).1,
            )
    }


    /// The component identifiers, in order.
    pub closed spec fn ids(&self) -> Seq<Seq<char>> {
        self.components@.map_values(|e: (String, ComponentState)| e.0@)
    }
}

impl View for InMemoryServer {
    type V = Map<Seq<char>, ComponentStateView>;

    /// The components, by identifier.
    closed spec fn view(&self) -> Map<Seq<char>, ComponentStateView> {
        components_view(self.components@)
    }
}


/// A `NotFound` error naming `component`.
fn component_not_found(component: &ComponentId) -> (e: SovdError)
    ensures
        is_not_found(e, component_entity(component.0@)),
{
    SovdError::NotFound { entity: concat3("component \"", component.0.as_str(), "\"") }
}

impl InMemoryServer {
    /// Index of the component `component`, if registered.
    fn find(&self, component: &ComponentId) -> (r: Option<usize>)
        ensures
            r is Some <==> self@.contains_key(component.0@),
            r matches Some(i) ==> i < self.components@.len() && self.components@[i as int].0@
                == component.0@ && self@[component.0@] == self.components@[i as int].1@
                && forall|j: int| 0 <= j < i ==> #[trigger] self.components@[j].0@ != component.0@,
    {
        assoc_find(&self.components, component.0.as_str())
    }

    /// Takes the state of the component at `i` out, leaving an empty state
    /// with the same capabilities in its place.
    fn take_state(&mut self, i: usize) -> (r: ComponentState)
        requires
            i < old(self).components@.len(),
        ensures
            r == old(self).components@[i as int].1,
            tables_keys_unique(r),
            final(self).components@.len() == old(self).components@.len(),
            final(self).components@[i as int].0 == old(self).components@[i as int].0,
            final(self).components@[i as int].1.capabilities == r.capabilities,
            forall|j: int|
                0 <= j < old(self).components@.len() && j != i
                    ==> #[trigger] final(self).components@[j] == old(self).components@[j],
    {
        proof {
            use_type_invariant(&*self);
        }
        let mut comps: Vec<(String, ComponentState)> = Vec::new();
        std::mem::swap(&mut comps, &mut self.components);
        let (key, state) = comps.remove(i);
        let placeholder = ComponentState {
            capabilities: state.capabilities.clone(),
            faults: Vec::new(),
            fault_environments: Vec::new(),
            operations: Vec::new(),
            executions: Vec::new(),
            data_values: Vec::new(),
        };
        comps.insert(i, (key, placeholder));
        proof {
            let o = old(self).components@;
            assert forall|a: int, b: int| 0 <= a < b < comps@.len() implies str_lt(
                #[trigger] comps@[a].0@,
                #[trigger] comps@[b].0@,
            ) by {
                assert(comps@[a].0 == o[a].0);
                assert(comps@[b].0 == o[b].0);
            }
            assert forall|a: int| 0 <= a < comps@.len() implies (#[trigger] comps@[a]).1.capabilities.id@
                == comps@[a].0@ by {
                assert(o[a].1.capabilities.id@ == o[a].0@);
            }
            assert(faults_view(placeholder.faults@) =~= Seq::<FaultView>::empty());
            assert forall|a: int| 0 <= a < comps@.len() implies tables_keys_unique(
                (#[trigger] comps@[a]).1,
            ) by {
                if a != i {
                    assert(comps@[a] == o[a]);
                }
            }
            assert(tables_keys_unique(o[i as int].1));
        }
        self.components = comps;
        state
    }

    /// Puts `state` back as the state of the component at `i`.
    fn set_state(&mut self, i: usize, state: ComponentState)
        requires
            i < old(self).components@.len(),
            state.capabilities == old(self).components@[i as int].1.capabilities,
            tables_keys_unique(state),
        ensures
            final(self).components@ == old(self).components@.update(
                i as int,
                (old(self).components@[i as int].0, state),
            ),
    {
        proof {
            use_type_invariant(&*self);
        }
        let mut comps: Vec<(String, ComponentState)> = Vec::new();
        std::mem::swap(&mut comps, &mut self.components);
        let (key, _previous) = comps.remove(i);
        comps.insert(i, (key, state));
        proof {
            let o = old(self).components@;
            assert(comps@ =~= o.update(i as int, (o[i as int].0, state)));
            assert forall|a: int, b: int| 0 <= a < b < comps@.len() implies str_lt(
                #[trigger] comps@[a].0@,
                #[trigger] comps@[b].0@,
            ) by {
                assert(comps@[a].0 == o[a].0);
                assert(comps@[b].0 == o[b].0);
            }
            assert forall|a: int| 0 <= a < comps@.len() implies (#[trigger] comps@[a]).1.capabilities.id@
                == comps@[a].0@ by {
                assert(o[a].1.capabilities.id@ == o[a].0@);
            }
            assert forall|a: int| 0 <= a < comps@.len() implies tables_keys_unique(
                (#[trigger] comps@[a]).1,
            ) by {
                if a != i {
                    assert(comps@[a] == o[a]);
                }
            }
        }
        self.components = comps;
    }
}

/// The faults of `faults` that pass `filter`, copied.
fn filter_faults(faults: &Vec<Fault>, filter: &FaultFilter) -> (r: Vec<Fault>)
    ensures
        faults_view(r@) == filtered(faults_view(faults@), *filter),
{
    let mut out: Vec<Fault> = Vec::new();
    let mut i: usize = 0;
    while i < faults.len()
        invariant
            i <= faults@.len(),
            faults_view(out@) == filtered(faults_view(faults@).take(i as int), *filter),
        decreases faults@.len() - i,
    {
        let ghost before = faults_view(faults@).take(i as int);
        proof {
            assert(faults_view(faults@).take(i + 1).drop_last() =~= before);
            assert(faults_view(faults@).take(i + 1).last() == faults@[i as int]@);
        }
        if matches_filter(&faults[i], filter) {
            let f = faults[i].duplicate();
            out.push(f);
            proof {
                assert(faults_view(out@) =~= filtered(before, *filter).push(f@));
            }
        }
        i = i + 1;
    }
    proof {
        assert(faults_view(faults@).take(faults@.len() as int) =~= faults_view(faults@));
    }
    out
}

/// Index of the first fault of `faults` with `code`.
fn find_fault(faults: &Vec<Fault>, code: &str) -> (r: Option<usize>)
    ensures
        r is None <==> fault_index(faults_view(faults@), code@) is None,
        r matches Some(i) ==> fault_index(faults_view(faults@), code@) == Some(i as int),
{
    proof {
        lemma_fault_index(faults_view(faults@), code@);
    }
    let mut i: usize = 0;
    while i < faults.len()
        invariant
            i <= faults@.len(),
            forall|j: int| 0 <= j < i ==> #[trigger] faults_view(faults@)[j].code@ != code@,
        decreases faults@.len() - i,
    {
        if str_eq(faults[i].code.as_str(), code) {
            proof {
                lemma_fault_index(faults_view(faults@), code@);
                assert(faults_view(faults@)[i as int] == faults@[i as int]@);
                assert(faults_view(faults@)[i as int].code@ == code@);
                assert(fault_index(faults_view(faults@), code@) is Some);
            }
            return Some(i);
        }
        i = i + 1;
    }
    proof {
        lemma_fault_index(faults_view(faults@), code@);
    }
    None
}

/// Copies of a list of operation descriptions.
fn copy_operations(ops: &Vec<OperationDescription>) -> (r: Vec<OperationDescription>)
    ensures
        operations_view(r@) == operations_view(ops@),
{
    let mut out: Vec<OperationDescription> = Vec::new();
    let mut i: usize = 0;
    while i < ops.len()
        invariant
            i <= ops@.len(),
            out@.len() == i,
            operations_view(out@) == operations_view(ops@).take(i as int),
        decreases ops@.len() - i,
    {
        let ghost before = out@;
        let d = ops[i].duplicate();
        out.push(d);
        proof {
            assert(out@ == before.push(d));
            assert forall|j: int| 0 <= j < i implies #[trigger] operations_view(out@)[j]
                == operations_view(ops@)[j] by {
                assert(out@[j] == before[j]);
                assert(operations_view(before)[j] == operations_view(ops@).take(i as int)[j]);
            }
            assert(operations_view(out@) =~= operations_view(ops@).take(i + 1));
        }
        i = i + 1;
    }
    proof {
        assert(operations_view(ops@).take(ops@.len() as int) =~= operations_view(ops@));
    }
    out
}

/// Whether `ops` offers the operation `id`.
fn has_operation(ops: &Vec<OperationDescription>, id: &str) -> (r: bool)
    ensures
        r == offers_operation(operations_view(ops@), id@),
{
    let mut i: usize = 0;
    while i < ops.len()
        invariant
            i <= ops@.len(),
            forall|j: int| 0 <= j < i ==> #[trigger] operations_view(ops@)[j].id@ != id@,
        decreases ops@.len() - i,
    {
        if str_eq(ops[i].id.as_str(), id) {
            assert(operations_view(ops@)[i as int].id@ == id@);
            return true;
        }
        i = i + 1;
    }
    false
}

impl InMemoryServer {
    /// `GET /components/{id}/faults`: the faults of `component` that pass
    /// `filter`, in the order they are held.
    pub fn dispatch_list_faults(&self, component: &ComponentId, filter: &FaultFilter) -> (r: Result<
        ListOfFaults,
        SovdError,
    >)
        ensures
            !self@.contains_key(component.0@) ==> (r matches Err(e) && is_not_found(
                e,
                component_entity(component.0@),
            )),
            self@.contains_key(component.0@) ==> (r matches Ok(l) && faults_view(l.items@)
                == filtered(self@[component.0@].faults, *filter) && l.schema is None),
    {
        match self.find(component) {
            None => Err(component_not_found(component)),
            Some(i) => {
                let items = filter_faults(&self.components[i].1.faults, filter);
                Ok(ListOfFaults { items, schema: None })
            },
        }
    }

    /// `GET /components/{id}/faults/{code}`: the first fault with `code`,
    /// with the environment data recorded for that code.
    pub fn dispatch_get_fault(&self, component: &ComponentId, code: &str) -> (r: Result<
        FaultDetails,
        SovdError,
    >)
        ensures
            !self@.contains_key(component.0@) ==> (r matches Err(e) && is_not_found(
                e,
                component_entity(component.0@),
            )),
            self@.contains_key(component.0@) ==> match fault_index(
                self@[component.0@].faults,
                code@,
            ) {
                None => (r matches Err(e) && is_not_found(e, fault_entity(code@))),
                Some(k) => (r matches Ok(d) && d.item@ == self@[component.0@].faults[k]
                    && d.environment_data == (if self@[component.0@].fault_environments.contains_key(
                    code@,
                ) {
                    Some(self@[component.0@].fault_environments[code@])
                } else {
                    None
                }) && d.errors is None && d.schema is None),
            },
    {
        match self.find(component) {
            None => Err(component_not_found(component)),
            Some(i) => {
                let state = &self.components[i].1;
                match find_fault(&state.faults, code) {
                    None => Err(
                        SovdError::NotFound { entity: concat3("fault \"", code, "\"") },
                    ),
                    Some(k) => {
                        proof {
                            lemma_fault_index(faults_view(state.faults@), code@);
                        }
                        let item = state.faults[k].duplicate();
                        let environment_data = match assoc_find(&state.fault_environments, code) {
                            Some(e) => Some(state.fault_environments[e].1.clone()),
                            None => None,
                        };
                        Ok(FaultDetails { item, environment_data, errors: None, schema: None })
                    },
                }
            },
        }
    }

    /// `GET /components/{id}`: the capabilities of `component`.
    pub fn dispatch_entity_capabilities(&self, component: &ComponentId) -> (r: Result<
        EntityCapabilities,
        SovdError,
    >)
        ensures
            !self@.contains_key(component.0@) ==> (r matches Err(e) && is_not_found(
                e,
                component_entity(component.0@),
            )),
            self@.contains_key(component.0@) ==> (r matches Ok(c) && c
                == self@[component.0@].capabilities),
    {
        match self.find(component) {
            None => Err(component_not_found(component)),
            Some(i) => Ok(self.components[i].1.capabilities.clone()),
        }
    }

    /// `GET /components/{id}/operations`: the operation catalog of `component`.
    pub fn dispatch_list_operations(&self, component: &ComponentId) -> (r: Result<
        OperationsList,
        SovdError,
    >)
        ensures
            !self@.contains_key(component.0@) ==> (r matches Err(e) && is_not_found(
                e,
                component_entity(component.0@),
            )),
            self@.contains_key(component.0@) ==> (r matches Ok(l) && operations_view(l.items@)
                == self@[component.0@].operations && l.schema is None),
    {
        match self.find(component) {
            None => Err(component_not_found(component)),
            Some(i) => {
                let items = copy_operations(&self.components[i].1.operations);
                Ok(OperationsList { items, schema: None })
            },
        }
    }

    /// `GET /components/{id}/data/{data_id}`: one data value of `component`.
    pub fn dispatch_read_data(&self, component: &ComponentId, data_id: &str) -> (r: Result<
        ReadValue,
        SovdError,
    >)
        ensures
            !self@.contains_key(component.0@) ==> (r matches Err(e) && is_not_found(
                e,
                component_entity(component.0@),
            )),
            self@.contains_key(component.0@) && !self@[component.0@].data_values.contains_key(
                data_id@,
            ) ==> (r matches Err(e) && is_not_found(e, data_entity(data_id@))),
            self@.contains_key(component.0@) && self@[component.0@].data_values.contains_key(
                data_id@,
            ) ==> (r matches Ok(v) && v.id@ == data_id@ && v.data
                == self@[component.0@].data_values[data_id@] && v.errors is None
                && v.schema is None),
    {
        match self.find(component) {
            None => Err(component_not_found(component)),
            Some(i) => {
                let state = &self.components[i].1;
                match assoc_find(&state.data_values, data_id) {
                    None => Err(
                        SovdError::NotFound { entity: concat3("data \"", data_id, "\"") },
                    ),
                    Some(k) => Ok(
                        ReadValue {
                            id: String::from_str(data_id),
                            data: state.data_values[k].1.clone(),
                            errors: None,
                            schema: None,
                        },
                    ),
                }
            },
        }
    }

    /// `GET /components/{id}/operations/{op}/executions/{exec}`: the status of
    /// an execution, which must belong to operation `operation_id`.
    pub fn dispatch_execution_status(
        &self,
        component: &ComponentId,
        operation_id: &str,
        execution_id: &str,
    ) -> (r: Result<ExecutionStatusResponse, SovdError>)
        ensures
            !self@.contains_key(component.0@) ==> (r matches Err(e) && is_not_found(
                e,
                component_entity(component.0@),
            )),
            self@.contains_key(component.0@) && !self@[component.0@].executions.contains_key(
                execution_id@,
            ) ==> (r matches Err(e) && is_not_found(e, execution_entity(execution_id@))),
            self@.contains_key(component.0@) && self@[component.0@].executions.contains_key(
                execution_id@,
            ) && self@[component.0@].executions[execution_id@].operation_id != operation_id@
                ==> (r matches Err(e) && is_not_found(
                e,
                execution_of_operation_entity(execution_id@, operation_id@),
            )),
            self@.contains_key(component.0@) && self@[component.0@].executions.contains_key(
                execution_id@,
            ) && self@[component.0@].executions[execution_id@].operation_id == operation_id@
                ==> (r matches Ok(s) && s.status == Some(
                self@[component.0@].executions[execution_id@].status,
            ) && s.capability == Capability::Execute && s.parameters
                == self@[component.0@].executions[execution_id@].parameters && s.schema is None
                && s.error is None),
    {
        match self.find(component) {
            None => Err(component_not_found(component)),
            Some(i) => {
                let state = &self.components[i].1;
                match assoc_find(&state.executions, execution_id) {
                    None => Err(
                        SovdError::NotFound {
                            entity: concat3("execution \"", execution_id, "\""),
                        },
                    ),
                    Some(k) => {
                        let record = &state.executions[k].1;
                        if !str_eq(record.operation_id.as_str(), operation_id) {
                            let a = concat3("execution \"", execution_id, "\" of operation \"");
                            return Err(
                                SovdError::NotFound {
                                    entity: concat3(a.as_str(), operation_id, "\""),
                                },
                            );
                        }
                        Ok(
                            ExecutionStatusResponse {
                                status: Some(record.status),
                                capability: Capability::Execute,
                                parameters: clone_opt_json(&record.parameters),
                                schema: None,
                                error: None,
                            },
                        )
                    },
                }
            },
        }
    }
}

/// `faults` without the faults whose code is `code`, copied.
fn retain_other_codes(faults: &Vec<Fault>, code: &str) -> (r: Vec<Fault>)
    ensures
        faults_view(r@) == without_code(faults_view(faults@), code@),
        statuses_keys_unique(faults_view(faults@)) ==> statuses_keys_unique(faults_view(r@)),
{
    let mut out: Vec<Fault> = Vec::new();
    let mut i: usize = 0;
    while i < faults.len()
        invariant
            i <= faults@.len(),
            faults_view(out@) == without_code(faults_view(faults@).take(i as int), code@),
        decreases faults@.len() - i,
    {
        let ghost before = faults_view(faults@).take(i as int);
        proof {
            assert(faults_view(faults@).take(i + 1).drop_last() =~= before);
            assert(faults_view(faults@).take(i + 1).last() == faults@[i as int]@);
        }
        if !str_eq(faults[i].code.as_str(), code) {
            let f = faults[i].duplicate();
            out.push(f);
            proof {
                assert(faults_view(out@) =~= without_code(before, code@).push(f@));
            }
        }
        i = i + 1;
    }
    proof {
        assert(faults_view(faults@).take(faults@.len() as int) =~= faults_view(faults@));
        lemma_without_code_statuses(faults_view(faults@), code@);
    }
    out
}

/// Dropping the faults with a code keeps every other fault's status as it
/// was, so no status object gains a repeated key.
proof fn lemma_without_code_statuses(s: Seq<FaultView>, code: Seq<char>)
    ensures
        statuses_keys_unique(s) ==> statuses_keys_unique(without_code(s, code)),
    decreases s.len(),
{
    if s.len() > 0 {
        let p = s.drop_last();
        lemma_without_code_statuses(p, code);
        if statuses_keys_unique(s) {
            assert forall|k: int| 0 <= k < p.len() implies status_keys_unique(#[trigger] p[k].status) by {
                assert(p[k] == s[k]);
            }
            let w = without_code(s, code);
            assert forall|k: int| 0 <= k < w.len() implies status_keys_unique(#[trigger] w[k].status) by {
                if k < without_code(p, code).len() {
                    assert(w[k] == without_code(p, code)[k]);
                } else {
                    assert(w[k] == s[s.len() - 1]);
                }
            }
        }
    }
}

/// Text of the environment data recorded with each demo fault.
pub const DEMO_ENVIRONMENT: &'static str = "{\"data\":{\"battery_voltage\":12.8,\"occurrence_counter\":1},\"id\":\"env_data\"}";

/// The state after every fault and its environment data are cleared.
pub open spec fn faults_cleared(s: ComponentStateView) -> ComponentStateView {
    ComponentStateView { faults: Seq::empty(), fault_environments: Map::empty(), ..s }
}

/// The state after the faults with `code` and their environment data are
/// cleared.
pub open spec fn fault_cleared(s: ComponentStateView, code: Seq<char>) -> ComponentStateView {
    ComponentStateView {
        faults: without_code(s.faults, code),
        fault_environments: s.fault_environments.remove(code),
        ..s
    }
}

/// The state after execution `exec_id` of operation `op_id` is started with
/// `parameters`.
pub open spec fn execution_started(
    s: ComponentStateView,
    exec_id: Seq<char>,
    op_id: Seq<char>,
    parameters: Option<JsonValue>,
) -> ComponentStateView {
    ComponentStateView {
        executions: s.executions.insert(
            exec_id,
            ExecutionRecordView {
                operation_id: op_id,
                status: ExecutionStatus::Running,
                parameters,
            },
        ),
        ..s
    }
}

/// A call that changes the store, given by the values it was made with.
pub enum StoreCall {
    /// Clearing every fault of `component`.
    ClearAllFaults { component: Seq<char> },
    /// Clearing the faults of `component` with `code`.
    ClearFault { component: Seq<char>, code: Seq<char> },
    /// Starting an execution of `operation` on `component` under the
    /// identifier `execution`, with `parameters`.
    StartExecution {
        component: Seq<char>,
        operation: Seq<char>,
        execution: Seq<char>,
        parameters: Option<JsonValue>,
    },
}

/// The store after `call`, made on the store `m`. A call that fails
/// changes nothing.
pub open spec fn after_call(
    m: Map<Seq<char>, ComponentStateView>,
    call: StoreCall,
) -> Map<Seq<char>, ComponentStateView> {
    match call {
        StoreCall::ClearAllFaults { component } => if m.contains_key(component) {
            m.insert(component, faults_cleared(m[component]))
        } else {
            m
        },
        StoreCall::ClearFault { component, code } => if m.contains_key(component) && fault_index(
            m[component].faults,
            code,
        ) is Some {
            m.insert(component, fault_cleared(m[component], code))
        } else {
            m
        },
        StoreCall::StartExecution { component, operation, execution, parameters } => if m.contains_key(
            component,
        ) && offers_operation(m[component].operations, operation) {
            m.insert(component, execution_started(m[component], execution, operation, parameters))
        } else {
            m
        },
    }
}

/// The store after `calls`, made in order on the store `m`.
pub open spec fn after_calls(
    m: Map<Seq<char>, ComponentStateView>,
    calls: Seq<StoreCall>,
) -> Map<Seq<char>, ComponentStateView>
    decreases calls.len(),
{
    if calls.len() == 0 {
        m
    } else {
        after_call(after_calls(m, calls.drop_last()), calls.last())
    }
}

/// `call` starts an execution on `component` under the identifier
/// `execution`.
pub open spec fn starts_under(call: StoreCall, component: Seq<char>, execution: Seq<char>) -> bool {
    call matches StoreCall::StartExecution { component: c, execution: e, .. } && c == component
        && e == execution
}

/// `s` is a version 4 UUID in hyphenated lower-case text: 36 characters,
/// `-` at positions 8, 13, 18 and 23, lower-case hex digits elsewhere, the
/// version digit `4` at position 14 and a variant digit `8`, `9`, `a` or `b`
/// at position 19.
pub open spec fn is_uuid_v4_text(s: Seq<char>) -> bool {
    &&& s.len() == 36
    &&& forall|i: int|
        0 <= i < 36 ==> if i == 8 || i == 13 || i == 18 || i == 23 {
            s[i] == '-'
        } else {
            ('0' <= #[trigger] s[i] <= '9') || ('a' <= s[i] <= 'f')
        }
    &&& s[14] == '4'
    &&& s[19] == '8' || s[19] == '9' || s[19] == 'a' || s[19] == 'b'
}

/// The lower-case hexadecimal digit of a value below sixteen.
pub open spec fn lower_hex_digit(d: nat) -> char {
    if d < 10 {
        (48 + d) as char
    } else {
        (87 + d) as char
    }
}

/// Byte `i` of the version 4 UUID made from `bytes`: byte 6 carries the
/// version 4 in its high nibble, byte 8 the variant bits `10` in its two
/// high bits, and every other byte is taken as it is.
pub open spec fn v4_byte(bytes: Seq<u8>, i: int) -> u8 {
    if i == 6 {
        (bytes[6] & 0x0fu8) | 0x40u8
    } else if i == 8 {
        (bytes[8] & 0x3fu8) | 0x80u8
    } else {
        bytes[i]
    }
}

/// Character `k` of the hyphenated lower-case text of the version 4 UUID made
/// from `bytes`: two hex digits per byte, high nibble first, with `-` after
/// the 4th, 6th, 8th and 10th byte.
pub open spec fn uuid_v4_char(bytes: Seq<u8>, k: int) -> char {
    if k == 8 || k == 13 || k == 18 || k == 23 {
        '-'
    } else {
        let j = if k < 8 {
            k
        } else if k < 13 {
            k - 1
        } else if k < 18 {
            k - 2
        } else if k < 23 {
            k - 3
        } else {
            k - 4
        };
        let b = v4_byte(bytes, j / 2);
        lower_hex_digit(
            if j % 2 == 0 {
                (b >> 4u8) as nat
            } else {
                (b & 0x0fu8) as nat
            },
        )
    }
}

/// The hyphenated lower-case text of the version 4 UUID made from `bytes`.
pub open spec fn uuid_v4_text(bytes: Seq<u8>) -> Seq<char> {
    Seq::new(36, |k: int| uuid_v4_char(bytes, k))
}

/// Both nibbles of a byte are below sixteen; setting the version and the
/// variant bits leaves the high nibble `4` and `8` to `11`.
proof fn lemma_nibbles(b: u8)
    by (bit_vector)
    ensures
        (b >> 4u8) < 16u8,
        (b & 0x0fu8) < 16u8,
        ((b & 0x0fu8) | 0x40u8) >> 4u8 == 4u8,
        8u8 <= ((b & 0x3fu8) | 0x80u8) >> 4u8 <= 11u8,
{
}

/// The text of a version 4 UUID made from 16 random bytes is the shape of
/// such a UUID.
pub proof fn lemma_uuid_v4_text(bytes: Seq<u8>)
    requires
        bytes.len() == 16,
    ensures
        is_uuid_v4_text(uuid_v4_text(bytes)),
{
    let s = uuid_v4_text(bytes);
    assert forall|i: int| 0 <= i < 36 implies if i == 8 || i == 13 || i == 18 || i == 23 {
        s[i] == '-'
    } else {
        ('0' <= #[trigger] s[i] <= '9') || ('a' <= s[i] <= 'f')
    } by {
        assert(s[i] == uuid_v4_char(bytes, i));
        let j = if i < 8 {
            i
        } else if i < 13 {
            i - 1
        } else if i < 18 {
            i - 2
        } else if i < 23 {
            i - 3
        } else {
            i - 4
        };
        lemma_nibbles(v4_byte(bytes, j / 2));
    }
    lemma_nibbles(bytes[6]);
    lemma_nibbles(bytes[8]);
    assert(s[14] == uuid_v4_char(bytes, 14));
    assert(s[19] == uuid_v4_char(bytes, 19));
}

/// The identifier of an execution: the version 4 UUID made from 16 random
/// bytes, in its hyphenated lower-case text form
/// (`uuid::Builder::from_random_bytes`, then `into_uuid` and `to_string`).
///
/// Trusted: `from_random_bytes` takes the bytes as they are and sets the
/// version (byte 6: `(b & 0x0f) | 0x40`) and the RFC 4122 variant
/// (byte 8: `(b & 0x3f) | 0x80`); `Display` of a `Uuid` writes the
/// hyphenated lower-case form, two hex digits per byte in order. None of
/// these panics.
#[verifier::external_body]
fn execution_id_from_random(bytes: [u8; 16]) -> (id: String)
    ensures
        id@ == uuid_v4_text(bytes@),
{
    uuid::Builder::from_random_bytes(bytes).into_uuid().to_string()
}

impl InMemoryServer {
    /// Keys of a table that changed only in the state of entry `i`.
    proof fn lemma_same_ids(&self, o: Seq<(String, ComponentState)>, i: int, c: ComponentState)
        requires
            0 <= i < o.len(),
            self.components@ == o.update(i, (o[i].0, c)),
        ensures
            self.ids() == o.map_values(|e: (String, ComponentState)| e.0@),
    {
        assert(self.ids() =~= o.map_values(|e: (String, ComponentState)| e.0@));
    }

    /// `DELETE /components/{id}/faults`: clears every fault of `component`
    /// and its environment data. Clearing an empty set is no error.
    pub fn dispatch_clear_all_faults(&mut self, component: &ComponentId) -> (r: Result<
        (),
        SovdError,
    >)
        ensures
            final(self)@ == after_call(old(self)@, StoreCall::ClearAllFaults { component: component.0@ }),
            final(self).ids() == old(self).ids(),
            !old(self)@.contains_key(component.0@) ==> (r matches Err(e) && is_not_found(
                e,
                component_entity(component.0@),
            )) && final(self)@ == old(self)@,
            old(self)@.contains_key(component.0@) ==> r is Ok && final(self)@ == old(self)@.insert(
                component.0@,
                faults_cleared(old(self)@[component.0@]),
            ),
    {
        match self.find(component) {
            None => Err(component_not_found(component)),
            Some(i) => {
                let ghost o = self.components@;
                let mut state = self.take_state(i);
                state.faults = Vec::new();
                state.fault_environments = Vec::new();
                self.set_state(i, state);
                proof {
                    assert(self.components@ =~= o.update(i as int, (o[i as int].0, state)));
                    lemma_components_update(o, i as int, state);
                    assert(faults_view(state.faults@) =~= Seq::<FaultView>::empty());
                    assert(assoc_map(state.fault_environments@) =~= Map::<Seq<char>, JsonValue>::empty());
                    assert(state@ == faults_cleared(o[i as int].1@));
                    self.lemma_same_ids(o, i as int, state);
                }
                Ok(())
            },
        }
    }

    /// `DELETE /components/{id}/faults/{code}`: clears the faults with
    /// `code` and their environment data; a code that is not held is
    /// `NotFound` and changes nothing.
    pub fn dispatch_clear_fault(&mut self, component: &ComponentId, code: &str) -> (r: Result<
        (),
        SovdError,
    >)
        ensures
            final(self)@ == after_call(
                old(self)@,
                StoreCall::ClearFault { component: component.0@, code: code@ },
            ),
            final(self).ids() == old(self).ids(),
            !old(self)@.contains_key(component.0@) ==> (r matches Err(e) && is_not_found(
                e,
                component_entity(component.0@),
            )) && final(self)@ == old(self)@,
            old(self)@.contains_key(component.0@) && fault_index(
                old(self)@[component.0@].faults,
                code@,
            ) is None ==> (r matches Err(e) && is_not_found(e, fault_entity(code@))) && final(self)@ == old(self)@,
            old(self)@.contains_key(component.0@) && fault_index(
                old(self)@[component.0@].faults,
                code@,
            ) is Some ==> r is Ok && final(self)@ == old(self)@.insert(
                component.0@,
                fault_cleared(old(self)@[component.0@], code@),
            ),
    {
        match self.find(component) {
            None => Err(component_not_found(component)),
            Some(i) => {
                if find_fault(&self.components[i].1.faults, code).is_none() {
                    return Err(SovdError::NotFound { entity: concat3("fault \"", code, "\"") });
                }
                let ghost o = self.components@;
                let mut state = self.take_state(i);
                let kept = retain_other_codes(&state.faults, code);
                state.faults = kept;
                assoc_remove(&mut state.fault_environments, code);
                self.set_state(i, state);
                proof {
                    assert(self.components@ =~= o.update(i as int, (o[i as int].0, state)));
                    lemma_components_update(o, i as int, state);
                    assert(state@ == fault_cleared(o[i as int].1@, code@));
                    self.lemma_same_ids(o, i as int, state);
                }
                Ok(())
            },
        }
    }

    /// Starts an execution of operation `operation_id` under the identifier
    /// `execution_id`, recording the request's parameters. An operation the
    /// component does not offer is `NotFound` and changes nothing.
    pub fn dispatch_start_execution_with_id(
        &mut self,
        component: &ComponentId,
        operation_id: &str,
        request: StartExecutionRequest,
        execution_id: String,
    ) -> (r: Result<StartExecutionAsyncResponse, SovdError>)
        ensures
            final(self)@ == after_call(
                old(self)@,
                StoreCall::StartExecution {
                    component: component.0@,
                    operation: operation_id@,
                    execution: execution_id@,
                    parameters: request.parameters,
                },
            ),
            final(self).ids() == old(self).ids(),
            !old(self)@.contains_key(component.0@) ==> (r matches Err(e) && is_not_found(
                e,
                component_entity(component.0@),
            )) && final(self)@ == old(self)@,
            old(self)@.contains_key(component.0@) && !offers_operation(
                old(self)@[component.0@].operations,
                operation_id@,
            ) ==> (r matches Err(e) && is_not_found(e, operation_entity(operation_id@))) && final(self)@ == old(self)@,
            old(self)@.contains_key(component.0@) && offers_operation(
                old(self)@[component.0@].operations,
                operation_id@,
            ) ==> (r matches Ok(resp) && resp.id@ == execution_id@ && resp.status == Some(
                ExecutionStatus::Running,
            )) && final(self)@ == old(self)@.insert(
                component.0@,
                execution_started(
                    old(self)@[component.0@],
                    execution_id@,
                    operation_id@,
                    request.parameters,
                ),
            ),
    {
        match self.find(component) {
            None => Err(component_not_found(component)),
            Some(i) => {
                if !has_operation(&self.components[i].1.operations, operation_id) {
                    return Err(
                        SovdError::NotFound { entity: concat3("operation \"", operation_id, "\"") },
                    );
                }
                let ghost o = self.components@;
                let mut state = self.take_state(i);
                let ghost before = state.executions@;
                let record = ExecutionRecord {
                    operation_id: String::from_str(operation_id),
                    status: ExecutionStatus::Running,
                    parameters: request.parameters,
                };
                let ghost record_view = record@;
                assoc_insert(&mut state.executions, execution_id.clone(), record);
                self.set_state(i, state);
                proof {
                    assert(self.components@ =~= o.update(i as int, (o[i as int].0, state)));
                    lemma_components_update(o, i as int, state);
                    assert(executions_view(state.executions@) =~= executions_view(before).insert(
                        execution_id@,
                        record_view,
                    ));
                    assert(state@ == execution_started(
                        o[i as int].1@,
                        execution_id@,
                        operation_id@,
                        request.parameters,
                    ));
                    self.lemma_same_ids(o, i as int, state);
                }
                Ok(StartExecutionAsyncResponse { id: execution_id, status: Some(ExecutionStatus::Running) })
            },
        }
    }

    /// `POST /components/{id}/operations/{op}/executions`: starts an
    /// execution of `operation_id` under the version 4 UUID made from
    /// `random_bytes`, which the response carries.
    pub fn dispatch_start_execution(
        &mut self,
        component: &ComponentId,
        operation_id: &str,
        request: StartExecutionRequest,
        random_bytes: [u8; 16],
    ) -> (r: Result<StartExecutionAsyncResponse, SovdError>)
        ensures
            final(self)@ == after_call(
                old(self)@,
                StoreCall::StartExecution {
                    component: component.0@,
                    operation: operation_id@,
                    execution: uuid_v4_text(random_bytes@),
                    parameters: request.parameters,
                },
            ),
            final(self).ids() == old(self).ids(),
            !old(self)@.contains_key(component.0@) ==> (r matches Err(e) && is_not_found(
                e,
                component_entity(component.0@),
            )) && final(self)@ == old(self)@,
            old(self)@.contains_key(component.0@) && !offers_operation(
                old(self)@[component.0@].operations,
                operation_id@,
            ) ==> (r matches Err(e) && is_not_found(e, operation_entity(operation_id@))) && final(self)@ == old(self)@,
            old(self)@.contains_key(component.0@) && offers_operation(
                old(self)@[component.0@].operations,
                operation_id@,
            ) ==> (r matches Ok(resp) && resp.id@ == uuid_v4_text(random_bytes@) && is_uuid_v4_text(
                resp.id@,
            ) && resp.status == Some(ExecutionStatus::Running) && final(self)@ == old(self)@.insert(
                component.0@,
                execution_started(
                    old(self)@[component.0@],
                    uuid_v4_text(random_bytes@),
                    operation_id@,
                    request.parameters,
                ),
            )),
    {
        match self.find(component) {
            None => Err(component_not_found(component)),
            Some(i) => {
                if !has_operation(&self.components[i].1.operations, operation_id) {
                    return Err(
                        SovdError::NotFound { entity: concat3("operation \"", operation_id, "\"") },
                    );
                }
                let execution_id = execution_id_from_random(random_bytes);
                proof {
                    lemma_uuid_v4_text(random_bytes@);
                }
                self.dispatch_start_execution_with_id(component, operation_id, request, execution_id)
            },
        }
    }
}

/// `r` refers to the entity whose capabilities are `caps`.
pub open spec fn refers_to(r: EntityReference, caps: EntityCapabilities) -> bool {
    &&& r.id == caps.id
    &&& r.name == caps.name
    &&& r.translation_id == caps.translation_id
    &&& r.href@ == BASE_URI@ + "/components/"@ + caps.id@
    &&& r.tags is None
}

/// The reference to an entity, built from its capabilities.
fn entity_reference(caps: &EntityCapabilities) -> (r: EntityReference)
    ensures
        refers_to(r, *caps),
{
    EntityReference {
        id: caps.id.clone(),
        name: caps.name.clone(),
        translation_id: crate::json::clone_opt_string(&caps.translation_id),
        href: concat3(BASE_URI, "/components/", caps.id.as_str()),
        tags: None,
    }
}

/// Per-component view over an [`InMemoryServer`]: answers for exactly one
/// component of the store it is given.
#[derive(Debug)]
pub struct InMemoryComponentServer {
    component: ComponentId,
}

impl InMemoryServer {
    /// The component ids are in strictly increasing order, and they are the
    /// components of the server.
    proof fn lemma_ids(&self)
        requires
            self.inv(),
        ensures
            forall|i: int, j: int|
                0 <= i < j < self.ids().len() ==> str_lt(
                    #[trigger] self.ids()[i],
                    #[trigger] self.ids()[j],
                ),
            forall|k: Seq<char>| self@.contains_key(k) <==> self.ids().contains(k),
    {
        assert forall|k: Seq<char>| self@.contains_key(k) <==> self.ids().contains(k) by {
            lemma_assoc_contains(self.components@, k);
            if self@.contains_key(k) {
                let i = choose|i: int| 0 <= i < self.components@.len() && #[trigger] self.components@[i].0@ == k;
                assert(self.ids()[i] == k);
            }
            if self.ids().contains(k) {
                let i = choose|i: int| 0 <= i < self.ids().len() && self.ids()[i] == k;
                assert(self.components@[i].0@ == k);
            }
        }
    }

    /// The state of the `i`-th component in id order.
    proof fn lemma_entry(&self, i: int)
        requires
            self.inv(),
            0 <= i < self.components@.len(),
        ensures
            self.ids()[i] == self.components@[i].0@,
            self@.contains_key(self.ids()[i]),
            self@[self.ids()[i]] == self.components@[i].1@,
            self.components@[i].1.capabilities.id@ == self.components@[i].0@,
    {
        assert forall|j: int| 0 <= j < i implies #[trigger] self.components@[j].0@ != self.components@[i].0@ by {
            crate::text::lemma_str_lt_irreflexive(self.components@[i].0@);
        }
        crate::assoc::lemma_assoc_first(self.components@, i);
    }

    /// A server with no components.
    pub fn new_empty() -> (r: Self)
        ensures
            r@ == Map::<Seq<char>, ComponentStateView>::empty(),
            r.ids() == Seq::<Seq<char>>::empty(),
    {
        let r = InMemoryServer { components: Vec::new() };
        proof {
            assert(r@ =~= Map::<Seq<char>, ComponentStateView>::empty());
            assert(r.ids() =~= Seq::<Seq<char>>::empty());
        }
        r
    }

    /// The per-component view for `component`; `NotFound` when it is not
    /// registered.
    pub fn component_server(&self, component: &ComponentId) -> (r: Result<
        InMemoryComponentServer,
        SovdError,
    >)
        ensures
            self@.contains_key(component.0@) ==> (r matches Ok(v) && v.component_id() == component),
            !self@.contains_key(component.0@) ==> (r matches Err(e) && is_not_found(
                e,
                component_entity(component.0@),
            )),
    {
        match self.find(component) {
            Some(_) => Ok(InMemoryComponentServer { component: component.clone() }),
            None => Err(component_not_found(component)),
        }
    }

    /// `GET /sovd/v1/components`: a reference to every component, in
    /// strictly increasing order of identifier. Never fails.
    pub fn list_entities(&self) -> (r: Result<DiscoveredEntities, SovdError>)
        ensures
            forall|k: Seq<char>| self@.contains_key(k) <==> self.ids().contains(k),
            forall|i: int, j: int|
                0 <= i < j < self.ids().len() ==> str_lt(
                    #[trigger] self.ids()[i],
                    #[trigger] self.ids()[j],
                ),
            r matches Ok(d) && d.items@.len() == self.ids().len() && forall|i: int|
                0 <= i < d.items@.len() ==> refers_to(
                    #[trigger] d.items@[i],
                    self@[self.ids()[i]].capabilities,
                ) && d.items@[i].id@ == self.ids()[i],
    {
        proof {
            use_type_invariant(self);
            self.lemma_ids();
        }
        let mut items: Vec<EntityReference> = Vec::new();
        let mut i: usize = 0;
        while i < self.components.len()
            invariant
                self.inv(),
                i <= self.components@.len(),
                items@.len() == i,
                forall|j: int|
                    0 <= j < i ==> refers_to(
                        #[trigger] items@[j],
                        self@[self.ids()[j]].capabilities,
                    ) && items@[j].id@ == self.ids()[j],
            decreases self.components@.len() - i,
        {
            proof {
                self.lemma_entry(i as int);
            }
            let e = entity_reference(&self.components[i].1.capabilities);
            items.push(e);
            i = i + 1;
        }
        Ok(DiscoveredEntities { items })
    }
}

impl InMemoryComponentServer {
    /// The spec-level id of the component this view answers for.
    pub closed spec fn component_id_spec(&self) -> &ComponentId {
        &self.component
    }

    /// The component this view answers for.
    #[verifier::when_used_as_spec(component_id_spec)]
    pub fn component_id(&self) -> (r: &ComponentId)
        ensures
            r == self.component_id_spec(),
    {
        &self.component
    }

    /// The faults of this component that pass `filter`.
    pub fn list_faults(&self, server: &InMemoryServer, filter: &FaultFilter) -> (r: Result<
        ListOfFaults,
        SovdError,
    >)
        ensures
            !server@.contains_key(self.component_id().0@) ==> (r matches Err(e) && is_not_found(
                e,
                component_entity(self.component_id().0@),
            )),
            server@.contains_key(self.component_id().0@) ==> (r matches Ok(l) && faults_view(
                l.items@,
            ) == filtered(server@[self.component_id().0@].faults, *filter) && l.schema is None),
    {
        server.dispatch_list_faults(&self.component, filter)
    }

    /// The first fault of this component with `code`, with its environment
    /// data.
    pub fn get_fault(&self, server: &InMemoryServer, code: &str) -> (r: Result<
        FaultDetails,
        SovdError,
    >)
        ensures
            !server@.contains_key(self.component_id().0@) ==> (r matches Err(e) && is_not_found(
                e,
                component_entity(self.component_id().0@),
            )),
            server@.contains_key(self.component_id().0@) ==> match fault_index(
                server@[self.component_id().0@].faults,
                code@,
            ) {
                None => (r matches Err(e) && is_not_found(e, fault_entity(code@))),
                Some(k) => (r matches Ok(d) && d.item@ == server@[self.component_id().0@].faults[k]
                    && d.environment_data == (if server@[self.component_id().0@].fault_environments.contains_key(
                    code@,
                ) {
                    Some(server@[self.component_id().0@].fault_environments[code@])
                } else {
                    None
                }) && d.errors is None && d.schema is None),
            },
    {
        server.dispatch_get_fault(&self.component, code)
    }

    /// Clears every fault of this component.
    pub fn clear_all_faults(&self, server: &mut InMemoryServer) -> (r: Result<(), SovdError>)
        ensures
            final(server)@ == after_call(
                old(server)@,
                StoreCall::ClearAllFaults { component: self.component_id().0@ },
            ),
            final(server).ids() == old(server).ids(),
            !old(server)@.contains_key(self.component_id().0@) ==> (r matches Err(e) && is_not_found(
                e,
                component_entity(self.component_id().0@),
            )) && final(server)@ == old(server)@,
            old(server)@.contains_key(self.component_id().0@) ==> r is Ok && final(server)@ == old(
                server,
            )@.insert(
                self.component_id().0@,
                faults_cleared(old(server)@[self.component_id().0@]),
            ),
    {
        server.dispatch_clear_all_faults(&self.component)
    }

    /// Clears the faults of this component with `code`.
    pub fn clear_fault(&self, server: &mut InMemoryServer, code: &str) -> (r: Result<(), SovdError>)
        ensures
            final(server)@ == after_call(
                old(server)@,
                StoreCall::ClearFault { component: self.component_id().0@, code: code@ },
            ),
            final(server).ids() == old(server).ids(),
            !old(server)@.contains_key(self.component_id().0@) ==> (r matches Err(e) && is_not_found(
                e,
                component_entity(self.component_id().0@),
            )) && final(server)@ == old(server)@,
            old(server)@.contains_key(self.component_id().0@) && fault_index(
                old(server)@[self.component_id().0@].faults,
                code@,
            ) is None ==> (r matches Err(e) && is_not_found(e, fault_entity(code@))) && final(server)@
                == old(server)@,
            old(server)@.contains_key(self.component_id().0@) && fault_index(
                old(server)@[self.component_id().0@].faults,
                code@,
            ) is Some ==> r is Ok && final(server)@ == old(server)@.insert(
                self.component_id().0@,
                fault_cleared(old(server)@[self.component_id().0@], code@),
            ),
    {
        server.dispatch_clear_fault(&self.component, code)
    }

    /// Starts an execution of `operation_id` on this component under the
    /// version 4 UUID made from `random_bytes`.
    pub fn start_execution(
        &self,
        server: &mut InMemoryServer,
        operation_id: &str,
        request: StartExecutionRequest,
        random_bytes: [u8; 16],
    ) -> (r: Result<StartExecutionAsyncResponse, SovdError>)
        ensures
            final(server)@ == after_call(
                old(server)@,
                StoreCall::StartExecution {
                    component: self.component_id().0@,
                    operation: operation_id@,
                    execution: uuid_v4_text(random_bytes@),
                    parameters: request.parameters,
                },
            ),
            final(server).ids() == old(server).ids(),
            !old(server)@.contains_key(self.component_id().0@) ==> (r matches Err(e) && is_not_found(
                e,
                component_entity(self.component_id().0@),
            )) && final(server)@ == old(server)@,
            old(server)@.contains_key(self.component_id().0@) && !offers_operation(
                old(server)@[self.component_id().0@].operations,
                operation_id@,
            ) ==> (r matches Err(e) && is_not_found(e, operation_entity(operation_id@))) && final(server)@
                == old(server)@,
            old(server)@.contains_key(self.component_id().0@) && offers_operation(
                old(server)@[self.component_id().0@].operations,
                operation_id@,
            ) ==> (r matches Ok(resp) && resp.id@ == uuid_v4_text(random_bytes@) && is_uuid_v4_text(
                resp.id@,
            ) && resp.status == Some(ExecutionStatus::Running) && final(server)@ == old(server)@.insert(
                self.component_id().0@,
                execution_started(
                    old(server)@[self.component_id().0@],
                    uuid_v4_text(random_bytes@),
                    operation_id@,
                    request.parameters,
                ),
            )),
    {
        server.dispatch_start_execution(&self.component, operation_id, request, random_bytes)
    }

    /// The status of an execution of `operation_id` on this component.
    pub fn execution_status(
        &self,
        server: &InMemoryServer,
        operation_id: &str,
        execution_id: &str,
    ) -> (r: Result<ExecutionStatusResponse, SovdError>)
        ensures
            !server@.contains_key(self.component_id().0@) ==> (r matches Err(e) && is_not_found(
                e,
                component_entity(self.component_id().0@),
            )),
            server@.contains_key(self.component_id().0@) && !server@[self.component_id().0@].executions.contains_key(
                execution_id@,
            ) ==> (r matches Err(e) && is_not_found(e, execution_entity(execution_id@))),
            server@.contains_key(self.component_id().0@) && server@[self.component_id().0@].executions.contains_key(
                execution_id@,
            ) && server@[self.component_id().0@].executions[execution_id@].operation_id != operation_id@
                ==> (r matches Err(e) && is_not_found(
                e,
                execution_of_operation_entity(execution_id@, operation_id@),
            )),
            server@.contains_key(self.component_id().0@) && server@[self.component_id().0@].executions.contains_key(
                execution_id@,
            ) && server@[self.component_id().0@].executions[execution_id@].operation_id == operation_id@
                ==> (r matches Ok(s) && s.status == Some(
                server@[self.component_id().0@].executions[execution_id@].status,
            ) && s.capability == Capability::Execute && s.parameters
                == server@[self.component_id().0@].executions[execution_id@].parameters
                && s.schema is None && s.error is None),
    {
        server.dispatch_execution_status(&self.component, operation_id, execution_id)
    }

    /// One data value of this component.
    pub fn read_data(&self, server: &InMemoryServer, data_id: &str) -> (r: Result<ReadValue, SovdError>)
        ensures
            !server@.contains_key(self.component_id().0@) ==> (r matches Err(e) && is_not_found(
                e,
                component_entity(self.component_id().0@),
            )),
            server@.contains_key(self.component_id().0@) && !server@[self.component_id().0@].data_values.contains_key(
                data_id@,
            ) ==> (r matches Err(e) && is_not_found(e, data_entity(data_id@))),
            server@.contains_key(self.component_id().0@) && server@[self.component_id().0@].data_values.contains_key(
                data_id@,
            ) ==> (r matches Ok(v) && v.id@ == data_id@ && v.data
                == server@[self.component_id().0@].data_values[data_id@] && v.errors is None
                && v.schema is None),
    {
        server.dispatch_read_data(&self.component, data_id)
    }

    /// The capabilities of this component.
    pub fn entity_capabilities(&self, server: &InMemoryServer) -> (r: Result<
        EntityCapabilities,
        SovdError,
    >)
        ensures
            !server@.contains_key(self.component_id().0@) ==> (r matches Err(e) && is_not_found(
                e,
                component_entity(self.component_id().0@),
            )),
            server@.contains_key(self.component_id().0@) ==> (r matches Ok(c) && c
                == server@[self.component_id().0@].capabilities),
    {
        server.dispatch_entity_capabilities(&self.component)
    }

    /// The operation catalog of this component.
    pub fn list_operations(&self, server: &InMemoryServer) -> (r: Result<
        OperationsList,
        SovdError,
    >)
        ensures
            !server@.contains_key(self.component_id().0@) ==> (r matches Err(e) && is_not_found(
                e,
                component_entity(self.component_id().0@),
            )),
            server@.contains_key(self.component_id().0@) ==> (r matches Ok(l) && operations_view(
                l.items@,
            ) == server@[self.component_id().0@].operations && l.schema is None),
    {
        server.dispatch_list_operations(&self.component)
    }
}

/// The map built by inserting the entries of `s` in order: a later entry
/// with the same key wins.
pub open spec fn inserted_all(s: Seq<(String, JsonValue)>) -> Map<Seq<char>, JsonValue>
    decreases s.len(),
{
    if s.len() == 0 {
        Map::empty()
    } else {
        inserted_all(s.drop_last()).insert(s.last().0@, s.last().1)
    }
}

/// `f` is the JSON string `t`.
pub open spec fn is_text(f: StatusField, t: Seq<char>) -> bool {
    match f {
        StatusField::Text(a) => a@ == t,
        StatusField::Other(_) => false,
    }
}

/// The status object of a demo fault.
pub open spec fn is_demo_status(status: Option<FaultStatusView>, aggregated_status: Seq<char>) -> bool {
    match status {
        Some(FaultStatusView::Object(entries)) => entries.len() == 2 && entries[0].0@
            == "aggregatedStatus"@ && is_text(entries[0].1, aggregated_status) && entries[1].0@
            == "confirmedDTC"@ && is_text(entries[1].1, "1"@),
        _ => false,
    }
}

/// `f` is the demo fault with the given code, name, severity and aggregated
/// status: scope `Default`, displayed by its code, and a status object
/// holding `aggregatedStatus` and `confirmedDTC: "1"`.
pub open spec fn is_demo_fault(
    f: FaultView,
    code: Seq<char>,
    name: Seq<char>,
    severity: i32,
    aggregated_status: Seq<char>,
) -> bool {
    &&& f.code@ == code
    &&& f.scope matches Some(sc) && sc@ == "Default"@
    &&& f.display_code matches Some(dc) && dc@ == code
    &&& f.fault_name@ == name
    &&& f.fault_translation_id is None
    &&& f.severity == Some(severity)
    &&& is_demo_status(f.status, aggregated_status)
    &&& f.symptom is None
    &&& f.symptom_translation_id is None
    &&& f.tags is None
}

/// `o` is the demo operation with the given id, name and execution mode.
pub open spec fn is_demo_op(o: OperationDescriptionView, id: Seq<char>, name: Seq<char>, asynchronous: bool) -> bool {
    &&& o.id@ == id
    &&& o.name matches Some(n) && n@ == name
    &&& o.translation_id is None
    &&& !o.proximity_proof_required
    &&& o.asynchronous_execution == asynchronous
    &&& o.tags is None
}

/// `c` are the capabilities of a demo component: its id and name, and links
/// to its data, faults and operations.
pub open spec fn is_demo_capabilities(c: EntityCapabilities, id: Seq<char>, name: Seq<char>) -> bool {
    &&& c.id@ == id
    &&& c.name@ == name
    &&& c.data matches Some(d) && d@ == BASE_URI@ + "/components/"@ + id + "/data"@
    &&& c.faults matches Some(f) && f@ == BASE_URI@ + "/components/"@ + id + "/faults"@
    &&& c.operations matches Some(o) && o@ == BASE_URI@ + "/components/"@ + id + "/operations"@
    &&& c.translation_id is None && c.variant is None && c.configurations is None
    &&& c.bulk_data is None && c.data_lists is None && c.updates is None && c.modes is None
    &&& c.subareas is None && c.subcomponents is None && c.locks is None && c.depends_on is None
    &&& c.hosts is None && c.is_located_on is None && c.scripts is None && c.logs is None
}

/// Builds one demo fault.
fn demo_fault(code: &str, name: &str, severity: i32, aggregated_status: &str) -> (r: Fault)
    ensures
        is_demo_fault(r@, code@, name@, severity, aggregated_status@),
        status_keys_unique(r@.status),
{
    let mut entries: Vec<(String, StatusField)> = Vec::new();
    entries.push(
        (String::from_str("aggregatedStatus"), StatusField::Text(String::from_str(aggregated_status))),
    );
    entries.push((String::from_str("confirmedDTC"), StatusField::Text(String::from_str("1"))));
    proof {
        reveal_strlit("aggregatedStatus");
        reveal_strlit("confirmedDTC");
        assert(entries@[0].0@.len() != entries@[1].0@.len());
    }
    Fault {
        code: String::from_str(code),
        scope: Some(String::from_str("Default")),
        display_code: Some(String::from_str(code)),
        fault_name: String::from_str(name),
        fault_translation_id: None,
        severity: Some(severity),
        status: Some(FaultStatus::Object(entries)),
        symptom: None,
        symptom_translation_id: None,
        tags: None,
    }
}

/// Builds one demo operation description.
pub fn demo_op(id: &str, name: &str, asynchronous: bool) -> (r: OperationDescription)
    ensures
        is_demo_op(r@, id@, name@, asynchronous),
{
    OperationDescription {
        id: String::from_str(id),
        name: Some(String::from_str(name)),
        translation_id: None,
        proximity_proof_required: false,
        asynchronous_execution: asynchronous,
        tags: None,
    }
}

/// `BASE_URI/components/{id}` followed by `tail`.
fn component_link(id: &str, tail: &str) -> (r: String)
    ensures
        r@ == BASE_URI@ + "/components/"@ + id@ + tail@,
{
    let a = concat3(BASE_URI, "/components/", id);
    concat(a.as_str(), tail)
}

/// Builds the state of one demo component.
fn demo_component(
    id: &str,
    name: &str,
    faults: Vec<Fault>,
    operations: Vec<OperationDescription>,
    data: Vec<(String, JsonValue)>,
) -> (r: ComponentState)
    requires
        statuses_keys_unique(faults_view(faults@)),
    ensures
        tables_keys_unique(r),
        is_demo_capabilities(r.capabilities, id@, name@),
        r@.faults == faults_view(faults@),
        has_demo_environments(r@),
        r@.operations == operations_view(operations@),
        r@.data_values == inserted_all(data@),
{
    let a = component_link(id, "/data");
    let b = component_link(id, "/faults");
    let c = component_link(id, "/operations");
    let capabilities = EntityCapabilities {
        id: String::from_str(id),
        name: String::from_str(name),
        translation_id: None,
        variant: None,
        configurations: None,
        bulk_data: None,
        data: Some(a),
        data_lists: None,
        faults: Some(b),
        operations: Some(c),
        updates: None,
        modes: None,
        subareas: None,
        subcomponents: None,
        locks: None,
        depends_on: None,
        hosts: None,
        is_located_on: None,
        scripts: None,
        logs: None,
    };
    let mut fault_environments: Vec<(String, JsonValue)> = Vec::new();
    let mut i: usize = 0;
    while i < faults.len()
        invariant
            i <= faults@.len(),
            keys_unique(fault_environments@),
            assoc_map(fault_environments@).dom() == Set::new(
                |k: Seq<char>| exists|j: int| 0 <= j < i && #[trigger] faults_view(faults@)[j].code@ == k,
            ),
            forall|k: Seq<char>|
                #[trigger] assoc_map(fault_environments@).contains_key(k) ==> assoc_map(
                    fault_environments@,
                )[k].text@ == DEMO_ENVIRONMENT@,
        decreases faults@.len() - i,
    {
        let key = faults[i].code.clone();
        assoc_insert(&mut fault_environments, key, JsonValue::from_text(DEMO_ENVIRONMENT));
        proof {
            assert(assoc_map(fault_environments@).dom() =~= Set::new(
                |k: Seq<char>| exists|j: int| 0 <= j < i + 1 && #[trigger] faults_view(faults@)[j].code@ == k,
            )) by {
                assert forall|k: Seq<char>|
                    assoc_map(fault_environments@).dom().contains(k) implies exists|j: int|
                        0 <= j < i + 1 && #[trigger] faults_view(faults@)[j].code@ == k by {
                    if k == faults@[i as int].code@ {
                        assert(faults_view(faults@)[i as int].code@ == k);
                    }
                }
            }
        }
        i = i + 1;
    }
    let mut data_values: Vec<(String, JsonValue)> = Vec::new();
    let mut j: usize = 0;
    let n = data.len();
    let mut rest = data;
    let ghost all = rest@;
    while j < n
        invariant
            n == all.len(),
            j <= n,
            rest@ == all.skip(j as int),
            keys_unique(data_values@),
            assoc_map(data_values@) == inserted_all(all.take(j as int)),
        decreases n - j,
    {
        let (k, v) = rest.remove(0);
        proof {
            assert(all.take(j + 1).drop_last() =~= all.take(j as int));
            assert(all.take(j + 1).last() == all[j as int]);
        }
        assoc_insert(&mut data_values, k, v);
        proof {
            assert(rest@ =~= all.skip(j + 1));
        }
        j = j + 1;
    }
    proof {
        assert(all.take(n as int) =~= all);
        assert(forall|k: Seq<char>| assoc_map(fault_environments@).contains_key(k) <==> exists|j: int|
            0 <= j < faults@.len() && #[trigger] faults_view(faults@)[j].code@ == k);
        assert(executions_view(Seq::<(String, ExecutionRecord)>::empty()) =~= Map::<Seq<char>, ExecutionRecordView>::empty());
    }
    ComponentState {
        capabilities,
        faults,
        fault_environments,
        operations,
        executions: Vec::new(),
        data_values,
    }
}

/// JSON text of the demo VIN.
pub const DEMO_VIN: &'static str = "\"WDD2031411F123456\"";

/// JSON text of the demo battery voltage.
pub const DEMO_BATTERY_VOLTAGE: &'static str = "{\"unit\":\"V\",\"value\":12.8}";

/// The environment data of `c` holds one entry per fault code, each with the
/// demo environment.
pub open spec fn has_demo_environments(c: ComponentStateView) -> bool {
    &&& forall|k: Seq<char>|
        c.fault_environments.contains_key(k) <==> exists|i: int|
            0 <= i < c.faults.len() && #[trigger] c.faults[i].code@ == k
    &&& forall|k: Seq<char>|
        #[trigger] c.fault_environments.contains_key(k) ==> c.fault_environments[k].text@
            == DEMO_ENVIRONMENT@
    &&& c.executions == Map::<Seq<char>, ExecutionRecordView>::empty()
}

/// The three demo components of the Taktflow layout: Central Vehicle
/// Controller (`cvc`), Front Zone Controller (`fzc`) and Rear Zone
/// Controller (`rzc`), with their canned faults, operations and data.
pub open spec fn is_demo_roster(ids: Seq<Seq<char>>, m: Map<Seq<char>, ComponentStateView>) -> bool {
    let cvc = m["cvc"@];
    let fzc = m["fzc"@];
    let rzc = m["rzc"@];
    &&& ids == seq!["cvc"@, "fzc"@, "rzc"@]
    &&& m.dom() == set!["cvc"@, "fzc"@, "rzc"@]
    &&& is_demo_capabilities(cvc.capabilities, "cvc"@, "Central Vehicle Controller"@)
    &&& cvc.faults.len() == 2
    &&& is_demo_fault(cvc.faults[0], "P0A1F"@, "HV battery contactor welded"@, 2, "active"@)
    &&& is_demo_fault(cvc.faults[1], "P0562"@, "System voltage low"@, 3, "pending"@)
    &&& cvc.operations.len() == 3
    &&& is_demo_op(cvc.operations[0], "motor_self_test"@, "Motor self test"@, true)
    &&& is_demo_op(cvc.operations[1], "hv_precharge"@, "HV precharge routine"@, true)
    &&& is_demo_op(cvc.operations[2], "read_vin"@, "Read VIN"@, false)
    &&& cvc.data_values.dom() == set!["vin"@, "battery_voltage"@]
    &&& cvc.data_values["vin"@].text@ == DEMO_VIN@
    &&& cvc.data_values["battery_voltage"@].text@ == DEMO_BATTERY_VOLTAGE@
    &&& has_demo_environments(cvc)
    &&& is_demo_capabilities(fzc.capabilities, "fzc"@, "Front Zone Controller"@)
    &&& fzc.faults.len() == 1
    &&& is_demo_fault(fzc.faults[0], "U0100"@, "Lost communication with ECU"@, 2, "active"@)
    &&& fzc.operations.len() == 2
    &&& is_demo_op(fzc.operations[0], "relay_self_test"@, "Relay self test"@, true)
    &&& is_demo_op(fzc.operations[1], "read_vin"@, "Read VIN"@, false)
    &&& fzc.data_values.dom() == set!["vin"@]
    &&& fzc.data_values["vin"@].text@ == DEMO_VIN@
    &&& has_demo_environments(fzc)
    &&& is_demo_capabilities(rzc.capabilities, "rzc"@, "Rear Zone Controller"@)
    &&& rzc.faults.len() == 0
    &&& rzc.operations.len() == 1
    &&& is_demo_op(rzc.operations[0], "relay_self_test"@, "Relay self test"@, true)
    &&& rzc.data_values.dom() == Set::<Seq<char>>::empty()
    &&& has_demo_environments(rzc)
}

impl InMemoryServer {
    /// A server holding the three demo components (see [`is_demo_roster`]).
    #[verifier::spinoff_prover]
    #[verifier::rlimit(40)]
    pub fn new_with_demo_data() -> (r: Self)
        ensures
            is_demo_roster(r.ids(), r@),
    {
        let cvc_data = vec![
            (String::from_str("vin"), JsonValue::from_text(DEMO_VIN)),
            (String::from_str("battery_voltage"), JsonValue::from_text(DEMO_BATTERY_VOLTAGE)),
        ];
        let ghost cvc_entries = cvc_data@;
        let cvc_fault_a = demo_fault("P0A1F", "HV battery contactor welded", 2, "active");
        let cvc_fault_b = demo_fault("P0562", "System voltage low", 3, "pending");
        let cvc_faults = vec![cvc_fault_a, cvc_fault_b];
        proof {
            assert(faults_view(cvc_faults@)[0] == cvc_fault_a@);
            assert(faults_view(cvc_faults@)[1] == cvc_fault_b@);
        }
        let cvc = demo_component(
            "cvc",
            "Central Vehicle Controller",
            cvc_faults,
            vec![
                demo_op("motor_self_test", "Motor self test", true),
                demo_op("hv_precharge", "HV precharge routine", true),
                demo_op("read_vin", "Read VIN", false),
            ],
            cvc_data,
        );
        proof {
            reveal_strlit("vin");
            reveal_strlit("battery_voltage");
            assert(cvc_entries.drop_last() =~= seq![cvc_entries[0]]);
            assert(seq![cvc_entries[0]].drop_last() =~= Seq::<(String, JsonValue)>::empty());
            assert(inserted_all(cvc_entries) == inserted_all(seq![cvc_entries[0]]).insert(
                "battery_voltage"@,
                cvc_entries[1].1,
            ));
            assert(cvc_entries[0].0@ == "vin"@);
            assert(seq![cvc_entries[0]].last() == cvc_entries[0]);
            assert(inserted_all(Seq::<(String, JsonValue)>::empty()) == Map::<Seq<char>, JsonValue>::empty());
            assert(inserted_all(seq![cvc_entries[0]]) == Map::<Seq<char>, JsonValue>::empty().insert(
                "vin"@,
                cvc_entries[0].1,
            ));
            assert("vin"@.len() != "battery_voltage"@.len());
            assert(cvc_entries[0].1.text@ == DEMO_VIN@);
            assert(cvc@.data_values["vin"@].text@ == DEMO_VIN@);
        }
        let fzc_fault = demo_fault("U0100", "Lost communication with ECU", 2, "active");
        let fzc_faults = vec![fzc_fault];
        proof {
            assert(faults_view(fzc_faults@)[0] == fzc_fault@);
        }
        let fzc = demo_component(
            "fzc",
            "Front Zone Controller",
            fzc_faults,
            vec![
                demo_op("relay_self_test", "Relay self test", true),
                demo_op("read_vin", "Read VIN", false),
            ],
            vec![(String::from_str("vin"), JsonValue::from_text(DEMO_VIN))],
        );
        let rzc = demo_component(
            "rzc",
            "Rear Zone Controller",
            Vec::new(),
            vec![demo_op("relay_self_test", "Relay self test", true)],
            Vec::new(),
        );
        proof {
            reveal_strlit("cvc");
            reveal_strlit("fzc");
            reveal_strlit("rzc");
            reveal_strlit("vin");
            reveal_strlit("battery_voltage");
            reveal_strlit("P0A1F");
            reveal_strlit("P0562");
        }
        let components = vec![
            (String::from_str("cvc"), cvc),
            (String::from_str("fzc"), fzc),
            (String::from_str("rzc"), rzc),
        ];
        let r = InMemoryServer { components };
        proof {
            use_type_invariant(&r);
            r.lemma_ids();
            r.lemma_entry(0);
            r.lemma_entry(1);
            r.lemma_entry(2);
            assert(r.ids() =~= seq!["cvc"@, "fzc"@, "rzc"@]);
            assert(r@.dom() =~= set!["cvc"@, "fzc"@, "rzc"@]) by {
                assert forall|k: Seq<char>| r@.contains_key(k) <==> set!["cvc"@, "fzc"@, "rzc"@].contains(k) by {
                    assert(r@.contains_key(k) <==> r.ids().contains(k));
                    if r.ids().contains(k) {
                        let i = choose|i: int| 0 <= i < r.ids().len() && r.ids()[i] == k;
                        assert(i == 0 || i == 1 || i == 2);
                    }
                    if set!["cvc"@, "fzc"@, "rzc"@].contains(k) {
                        assert(r.ids()[0] == "cvc"@);
                        assert(r.ids()[1] == "fzc"@);
                        assert(r.ids()[2] == "rzc"@);
                    }
                }
            }
            reveal_with_fuel(inserted_all, 3);
            let m = r@;
            assert(m["cvc"@].data_values.dom() =~= set!["vin"@, "battery_voltage"@]);
            assert(m["fzc"@].data_values.dom() =~= set!["vin"@]);
            assert(m["rzc"@].data_values.dom() =~= Set::<Seq<char>>::empty());
            assert(has_demo_environments(m["cvc"@]));
            assert(has_demo_environments(m["fzc"@]));
            assert(has_demo_environments(m["rzc"@]));
        }
        r
    }
}

impl Default for InMemoryServer {
    /// The server with the three demo components.
    fn default() -> (r: Self)
        ensures
            is_demo_roster(r.ids(), r@),
    {
        Self::new_with_demo_data()
    }
}

/// Once a fault code is cleared, looking it up finds nothing, no
/// environment data is left for it, and every other fault is still held.
pub proof fn lemma_cleared_fault_not_found(s: ComponentStateView, code: Seq<char>)
    ensures
        fault_index(fault_cleared(s, code).faults, code) is None,
        !fault_cleared(s, code).fault_environments.contains_key(code),
        forall|other: Seq<char>|
            other != code && fault_index(s.faults, other) is Some ==> #[trigger] fault_index(
                fault_cleared(s, code).faults,
                other,
            ) is Some,
{
    lemma_without_code(s.faults, code);
    lemma_fault_index(without_code(s.faults, code), code);
    assert forall|other: Seq<char>|
        other != code && fault_index(s.faults, other) is Some implies #[trigger] fault_index(
        fault_cleared(s, code).faults,
        other,
    ) is Some by {
        lemma_fault_index(s.faults, other);
        let k = fault_index(s.faults, other)->0;
        lemma_without_code_keeps(s.faults, code, k);
        let j = choose|j: int|
            0 <= j < without_code(s.faults, code).len() && without_code(s.faults, code)[j]
                == s.faults[k];
        lemma_fault_index(without_code(s.faults, code), other);
        if fault_index(without_code(s.faults, code), other) is None {
            assert(without_code(s.faults, code)[j].code@ == other);
        }
    }
}

/// A fault whose code is not `code` survives `without_code`.
proof fn lemma_without_code_keeps(s: Seq<FaultView>, code: Seq<char>, k: int)
    requires
        0 <= k < s.len(),
        s[k].code@ != code,
    ensures
        exists|j: int|
            0 <= j < without_code(s, code).len() && without_code(s, code)[j] == s[k],
    decreases s.len(),
{
    let p = s.drop_last();
    if k < s.len() - 1 {
        assert(p[k] == s[k]);
        lemma_without_code_keeps(p, code, k);
        let j = choose|j: int| 0 <= j < without_code(p, code).len() && without_code(p, code)[j] == p[k];
        if s.last().code@ != code {
            assert(without_code(s, code)[j] == without_code(p, code)[j]);
        } else {
            assert(without_code(s, code) == without_code(p, code));
        }
        assert(without_code(s, code)[j] == s[k]);
    } else {
        assert(without_code(s, code)[without_code(p, code).len() as int] == s[k]);
    }
}

/// Clearing every fault leaves nothing to list, whatever the filter, and
/// clearing again changes nothing.
pub proof fn lemma_clear_all_faults(s: ComponentStateView, filter: FaultFilter)
    ensures
        filtered(faults_cleared(s).faults, filter).len() == 0,
        faults_cleared(faults_cleared(s)) == faults_cleared(s),
{
}

/// A started execution is known under its identifier, belongs to its
/// operation, is running, and carries the parameters it was started with;
/// the other executions are unchanged.
pub proof fn lemma_started_execution(
    s: ComponentStateView,
    exec_id: Seq<char>,
    op_id: Seq<char>,
    parameters: Option<JsonValue>,
)
    ensures
        execution_started(s, exec_id, op_id, parameters).executions.contains_key(exec_id),
        execution_started(s, exec_id, op_id, parameters).executions[exec_id].operation_id == op_id,
        execution_started(s, exec_id, op_id, parameters).executions[exec_id].status
            == ExecutionStatus::Running,
        execution_started(s, exec_id, op_id, parameters).executions[exec_id].parameters
            == parameters,
        execution_started(s, exec_id, op_id, parameters).executions.remove(exec_id)
            == s.executions.remove(exec_id),
        execution_started(s, exec_id, op_id, parameters).faults == s.faults,
{
    assert(execution_started(s, exec_id, op_id, parameters).executions.remove(exec_id)
        =~= s.executions.remove(exec_id));
}

/// An execution, once started, is reported the same way after the faults of
/// its component are cleared, in full or by code, and after another
/// execution is started under a different identifier.
pub proof fn lemma_executions_persist(
    s: ComponentStateView,
    code: Seq<char>,
    exec_id: Seq<char>,
    other_id: Seq<char>,
    op_id: Seq<char>,
    parameters: Option<JsonValue>,
)
    requires
        exec_id != other_id,
    ensures
        faults_cleared(s).executions == s.executions,
        fault_cleared(s, code).executions == s.executions,
        execution_started(s, other_id, op_id, parameters).executions.contains_key(exec_id)
            == s.executions.contains_key(exec_id),
        s.executions.contains_key(exec_id) ==> execution_started(
            s,
            other_id,
            op_id,
            parameters,
        ).executions[exec_id] == s.executions[exec_id],
{
}

/// An execution, once recorded, is reported the same way after any sequence
/// of calls that change the store, unless one of them starts another
/// execution under the same identifier on the same component: the component
/// stays registered and the record stays as it was.
pub proof fn lemma_execution_survives_calls(
    m: Map<Seq<char>, ComponentStateView>,
    component: Seq<char>,
    execution: Seq<char>,
    calls: Seq<StoreCall>,
)
    requires
        m.contains_key(component),
        m[component].executions.contains_key(execution),
        forall|i: int| 0 <= i < calls.len() ==> !starts_under(#[trigger] calls[i], component, execution),
    ensures
        after_calls(m, calls).contains_key(component),
        after_calls(m, calls)[component].executions.contains_key(execution),
        after_calls(m, calls)[component].executions[execution] == m[component].executions[execution],
    decreases calls.len(),
{
    if calls.len() > 0 {
        let init = calls.drop_last();
        assert forall|i: int| 0 <= i < init.len() implies !starts_under(
            #[trigger] init[i],
            component,
            execution,
        ) by {
            assert(init[i] == calls[i]);
        }
        lemma_execution_survives_calls(m, component, execution, init);
        assert(!starts_under(calls[calls.len() - 1], component, execution));
    }
}

/// The status of an execution that was started and has not been started over
/// under the same identifier: whatever calls changed the store in between,
/// the execution is known, belongs to the operation it was started for, is
/// running, and carries the parameters it was started with.
pub proof fn lemma_started_execution_survives_calls(
    m: Map<Seq<char>, ComponentStateView>,
    component: Seq<char>,
    operation: Seq<char>,
    execution: Seq<char>,
    parameters: Option<JsonValue>,
    calls: Seq<StoreCall>,
)
    requires
        m.contains_key(component),
        offers_operation(m[component].operations, operation),
        forall|i: int| 0 <= i < calls.len() ==> !starts_under(#[trigger] calls[i], component, execution),
    ensures
        ({
            let s = after_calls(
                after_call(
                    m,
                    StoreCall::StartExecution { component, operation, execution, parameters },
                ),
                calls,
            );
            &&& s.contains_key(component)
            &&& s[component].executions.contains_key(execution)
            &&& s[component].executions[execution] == (ExecutionRecordView {
                operation_id: operation,
                status: ExecutionStatus::Running,
                parameters,
            })
        }),
{
    let started = after_call(
        m,
        StoreCall::StartExecution { component, operation, execution, parameters },
    );
    lemma_started_execution(m[component], execution, operation, parameters);
    lemma_execution_survives_calls(started, component, execution, calls);
}

} // verus!
