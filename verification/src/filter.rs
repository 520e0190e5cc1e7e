//! Fault filtering: the query string of `GET .../faults` and the test each
//! fault must pass.
use vstd::prelude::*;

use crate::assoc::{assoc_find, assoc_map};
use crate::resources::{Fault, FaultFilter, FaultStatus, FaultStatusView, FaultView, StatusField};
use crate::text::{split_once, split_once_spec, str_eq};

verus! {

/// The string held under `key` in a status object, if the entry for `key`
/// is a JSON string.
pub open spec fn status_text(entries: Seq<(String, StatusField)>, key: Seq<char>) -> Option<
    Seq<char>,
> {
    let m = assoc_map(entries);
    if m.contains_key(key) {
        match m[key] {
            StatusField::Text(t) => Some(t@),
            StatusField::Other(_) => None,
        }
    } else {
        None
    }
}

/// The status is an object whose entry for `pair.0` is the string `pair.1`.
pub open spec fn status_pair_matches(status: Option<FaultStatusView>, pair: (String, String)) -> bool {
    match status {
        Some(FaultStatusView::Object(entries)) => status_text(entries, pair.0@) == Some(pair.1@),
        _ => false,
    }
}

/// The first entry of `entries` whose key is `key` exists and is the JSON
/// string `value`.
pub open spec fn first_entry_is_text(
    entries: Seq<(String, StatusField)>,
    key: Seq<char>,
    value: Seq<char>,
) -> bool {
    exists|j: int|
        0 <= j < entries.len() && (#[trigger] entries[j]).0@ == key && (forall|l: int|
            0 <= l < j ==> entries[l].0@ != key) && (entries[j].1 matches StatusField::Text(t)
            && t@ == value)
}

/// The string held under a key of a status object is the one its first
/// entry with that key holds.
pub proof fn lemma_status_text_first_entry(
    entries: Seq<(String, StatusField)>,
    key: Seq<char>,
    value: Seq<char>,
)
    ensures
        status_text(entries, key) == Some(value) <==> first_entry_is_text(entries, key, value),
    decreases entries.len(),
{
    if entries.len() > 0 {
        let rest = entries.drop_first();
        if entries[0].0@ == key {
            if first_entry_is_text(entries, key, value) {
                let j = choose|j: int|
                    0 <= j < entries.len() && (#[trigger] entries[j]).0@ == key && (forall|l: int|
                        0 <= l < j ==> entries[l].0@ != key) && (entries[j].1 matches StatusField::Text(
                        t,
                    ) && t@ == value);
                if j > 0 {
                    assert(entries[0].0@ != key);
                }
            }
            if status_text(entries, key) == Some(value) {
                assert(entries[0].0@ == key);
                assert(first_entry_is_text(entries, key, value));
            }
        } else {
            lemma_status_text_first_entry(rest, key, value);
            assert(status_text(entries, key) == status_text(rest, key));
            if first_entry_is_text(entries, key, value) {
                let j = choose|j: int|
                    0 <= j < entries.len() && (#[trigger] entries[j]).0@ == key && (forall|l: int|
                        0 <= l < j ==> entries[l].0@ != key) && (entries[j].1 matches StatusField::Text(
                        t,
                    ) && t@ == value);
                assert(j > 0);
                assert(rest[j - 1] == entries[j]);
                assert forall|l: int| 0 <= l < j - 1 implies rest[l].0@ != key by {
                    assert(rest[l] == entries[l + 1]);
                }
                assert(first_entry_is_text(rest, key, value));
            }
            if first_entry_is_text(rest, key, value) {
                let j = choose|j: int|
                    0 <= j < rest.len() && (#[trigger] rest[j]).0@ == key && (forall|l: int|
                        0 <= l < j ==> rest[l].0@ != key) && (rest[j].1 matches StatusField::Text(t)
                        && t@ == value);
                assert(entries[j + 1] == rest[j]);
                assert forall|l: int| 0 <= l < j + 1 implies entries[l].0@ != key by {
                    if l > 0 {
                        assert(entries[l] == rest[l - 1]);
                    }
                }
                assert(first_entry_is_text(entries, key, value));
            }
        }
    }
}

/// A status pair matches exactly when the fault's status is an object whose
/// first entry for the pair's key is the pair's value as a JSON string.
pub proof fn lemma_status_pair_matches(status: Option<FaultStatusView>, pair: (String, String))
    ensures
        status_pair_matches(status, pair) <==> (status matches Some(FaultStatusView::Object(entries))
            && first_entry_is_text(entries, pair.0@, pair.1@)),
{
    if let Some(FaultStatusView::Object(entries)) = status {
        lemma_status_text_first_entry(entries, pair.0@, pair.1@);
    }
}

/// Whether a fault passes a filter: severity strictly below the bound,
/// same scope, and at least one matching status pair, each only when the
/// filter sets it.
pub open spec fn passes_filter(f: FaultView, filter: FaultFilter) -> bool {
    &&& (filter.severity matches Some(limit) ==> (f.severity matches Some(sev) && sev < limit))
    &&& (filter.scope matches Some(scope) ==> (f.scope matches Some(s) && s@ == scope@))
    &&& (filter.status_keys@.len() > 0 ==> exists|i: int|
        0 <= i < filter.status_keys@.len() && #[trigger] status_pair_matches(
            f.status,
            filter.status_keys@[i],
        ))
}

/// A filter with a severity bound lets through only faults that have a
/// severity strictly below the bound: a fault without a severity never
/// passes it.
pub proof fn lemma_severity_bound(f: FaultView, filter: FaultFilter)
    ensures
        filter.severity matches Some(limit) ==> (passes_filter(f, filter) ==> (f.severity matches Some(
            sev,
        ) && sev < limit)),
        filter.severity is Some && f.severity is None ==> !passes_filter(f, filter),
        filter.severity matches Some(limit) && f.severity matches Some(sev) && sev >= limit
            ==> !passes_filter(f, filter),
        filter.severity matches Some(limit) && f.severity matches Some(sev) && sev < limit
            && filter.scope is None && filter.status_keys@.len() == 0 ==> passes_filter(f, filter),
{
}

/// With only status pairs set, a fault passes exactly when at least one of
/// the pairs is held by its status object: the first entry for the pair's
/// key is the pair's value as a JSON string. A fault that holds only one of
/// several pairs passes.
pub proof fn lemma_status_pairs_any(f: FaultView, filter: FaultFilter)
    requires
        filter.severity is None,
        filter.scope is None,
        filter.status_keys@.len() > 0,
    ensures
        passes_filter(f, filter) <==> (f.status matches Some(FaultStatusView::Object(entries))
            && exists|i: int|
            0 <= i < filter.status_keys@.len() && #[trigger] first_entry_is_text(
                entries,
                filter.status_keys@[i].0@,
                filter.status_keys@[i].1@,
            )),
{
    assert forall|i: int| 0 <= i < filter.status_keys@.len() implies (#[trigger] status_pair_matches(
        f.status,
        filter.status_keys@[i],
    ) <==> (f.status matches Some(FaultStatusView::Object(entries)) && first_entry_is_text(
        entries,
        filter.status_keys@[i].0@,
        filter.status_keys@[i].1@,
    ))) by {
        lemma_status_pair_matches(f.status, filter.status_keys@[i]);
    }
    if let Some(FaultStatusView::Object(entries)) = f.status {
        if passes_filter(f, filter) {
            let i = choose|i: int|
                0 <= i < filter.status_keys@.len() && #[trigger] status_pair_matches(
                    f.status,
                    filter.status_keys@[i],
                );
            assert(first_entry_is_text(entries, filter.status_keys@[i].0@, filter.status_keys@[i].1@));
        }
        if exists|i: int|
            0 <= i < filter.status_keys@.len() && #[trigger] first_entry_is_text(
                entries,
                filter.status_keys@[i].0@,
                filter.status_keys@[i].1@,
            ) {
            let i = choose|i: int|
                0 <= i < filter.status_keys@.len() && #[trigger] first_entry_is_text(
                    entries,
                    filter.status_keys@[i].0@,
                    filter.status_keys@[i].1@,
                );
            assert(status_pair_matches(f.status, filter.status_keys@[i]));
        }
    } else {
        if passes_filter(f, filter) {
            let i = choose|i: int|
                0 <= i < filter.status_keys@.len() && #[trigger] status_pair_matches(
                    f.status,
                    filter.status_keys@[i],
                );
            assert(!status_pair_matches(f.status, filter.status_keys@[i]));
        }
    }
}

/// The faults of `s` that pass `filter`, in order.
pub open spec fn filtered(s: Seq<FaultView>, filter: FaultFilter) -> Seq<FaultView>
    decreases s.len(),
{
    if s.len() == 0 {
        Seq::empty()
    } else if passes_filter(s.last(), filter) {
        filtered(s.drop_last(), filter).push(s.last())
    } else {
        filtered(s.drop_last(), filter)
    }
}

/// Every fault in the filtered list passes the filter.
pub proof fn lemma_filtered_pass(s: Seq<FaultView>, filter: FaultFilter)
    ensures
        forall|i: int|
            0 <= i < filtered(s, filter).len() ==> passes_filter(
                #[trigger] filtered(s, filter)[i],
                filter,
            ),
    decreases s.len(),
{
    if s.len() > 0 {
        lemma_filtered_pass(s.drop_last(), filter);
        let p = filtered(s.drop_last(), filter);
        assert forall|i: int| 0 <= i < filtered(s, filter).len() implies passes_filter(
            #[trigger] filtered(s, filter)[i],
            filter,
        ) by {
            if i < p.len() {
                assert(filtered(s, filter)[i] == p[i]);
            }
        }
    }
}

/// Listing through a filter keeps exactly the faults that pass it: every
/// fault that passes is listed, and every listed fault is one of the faults
/// and passes.
pub proof fn lemma_filtered_keeps_passing(s: Seq<FaultView>, filter: FaultFilter)
    ensures
        forall|i: int|
            0 <= i < s.len() && passes_filter(#[trigger] s[i], filter) ==> filtered(s, filter).contains(
                s[i],
            ),
        forall|j: int|
            0 <= j < filtered(s, filter).len() ==> s.contains(#[trigger] filtered(s, filter)[j])
                && passes_filter(filtered(s, filter)[j], filter),
        filtered(s, filter).len() <= s.len(),
    decreases s.len(),
{
    lemma_filtered_pass(s, filter);
    if s.len() > 0 {
        let p = s.drop_last();
        lemma_filtered_keeps_passing(p, filter);
        let fp = filtered(p, filter);
        let fs = filtered(s, filter);
        assert forall|i: int| 0 <= i < s.len() && passes_filter(#[trigger] s[i], filter) implies fs.contains(
            s[i],
        ) by {
            if i < p.len() {
                assert(p[i] == s[i]);
                let k = choose|k: int| 0 <= k < fp.len() && fp[k] == p[i];
                assert(fs[k] == fp[k]);
            } else {
                assert(fs[fs.len() - 1] == s[i]);
            }
        }
        assert forall|j: int| 0 <= j < fs.len() implies s.contains(#[trigger] fs[j]) && passes_filter(
            fs[j],
            filter,
        ) by {
            if j < fp.len() {
                assert(fs[j] == fp[j]);
                let k = choose|k: int| 0 <= k < p.len() && p[k] == fp[j];
                assert(s[k] == p[k]);
            } else {
                assert(fs[j] == s[s.len() - 1]);
            }
        }
    }
}

/// A filter that sets nothing keeps every fault.
pub proof fn lemma_filtered_all(s: Seq<FaultView>, filter: FaultFilter)
    requires
        filter.severity is None,
        filter.scope is None,
        filter.status_keys@.len() == 0,
    ensures
        filtered(s, filter) == s,
    decreases s.len(),
{
    if s.len() > 0 {
        lemma_filtered_all(s.drop_last(), filter);
        assert(s.drop_last().push(s.last()) =~= s);
    }
}

/// Whether the status of a fault holds the string `value` under `key`.
fn status_entry_is(status: &Option<FaultStatus>, key: &String, value: &String) -> (r: bool)
    ensures
        r == status_pair_matches(
            match status {
                Some(s) => Some(s@),
                None => None,
            },
            (*key, *value),
        ),
{
    match status {
        Some(FaultStatus::Object(entries)) => match assoc_find(entries, key.as_str()) {
            Some(i) => match &entries[i].1 {
                StatusField::Text(t) => str_eq(t.as_str(), value.as_str()),
                StatusField::Other(_) => false,
            },
            None => false,
        },
        _ => false,
    }
}

/// Whether `fault` passes `filter`.
pub fn matches_filter(fault: &Fault, filter: &FaultFilter) -> (r: bool)
    ensures
        r == passes_filter(fault@, *filter),
        filter.severity matches Some(limit) ==> (r ==> (fault.severity matches Some(sev) && sev
            < limit)),
        filter.severity is None && filter.scope is None && filter.status_keys@.len() > 0 ==> (r <==> (
        fault@.status matches Some(FaultStatusView::Object(entries)) && exists|i: int|
            0 <= i < filter.status_keys@.len() && #[trigger] first_entry_is_text(
                entries,
                filter.status_keys@[i].0@,
                filter.status_keys@[i].1@,
            ))),
{
    proof {
        lemma_severity_bound(fault@, *filter);
        if filter.severity is None && filter.scope is None && filter.status_keys@.len() > 0 {
            lemma_status_pairs_any(fault@, *filter);
        }
    }
    if let Some(limit) = filter.severity {
        match fault.severity {
            Some(sev) => {
                if !(sev < limit) {
                    return false;
                }
            },
            None => {
                return false;
            },
        }
    }
    if let Some(scope) = &filter.scope {
        match &fault.scope {
            Some(fault_scope) => {
                if !str_eq(fault_scope.as_str(), scope.as_str()) {
                    return false;
                }
            },
            None => {
                return false;
            },
        }
    }
    if filter.status_keys.len() > 0 {
        return any_status_pair_matches(fault, filter);
    }
    true
}

/// Whether some `(key, value)` pair of the filter matches the fault's status.
fn any_status_pair_matches(fault: &Fault, filter: &FaultFilter) -> (r: bool)
    ensures
        r == exists|i: int|
            0 <= i < filter.status_keys@.len() && #[trigger] status_pair_matches(
                fault@.status,
                filter.status_keys@[i],
            ),
{
    let n = filter.status_keys.len();
    let mut i: usize = 0;
    while i < n
        invariant
            n == filter.status_keys@.len(),
            i <= n,
            forall|j: int|
                0 <= j < i ==> !#[trigger] status_pair_matches(
                    fault@.status,
                    filter.status_keys@[j],
                ),
        decreases n - i,
    {
        if status_entry_is(&fault.status, &filter.status_keys[i].0, &filter.status_keys[i].1) {
            return true;
        }
        i = i + 1;
    }
    false
}

/// Query parameters of `GET .../faults`:
/// `?severity=3&scope=Default&status_key=aggregatedStatus:active`.
#[derive(Debug)]
pub struct FaultQuery {
    /// Severity upper bound (exclusive).
    pub severity: Option<i32>,
    /// Scope to match.
    pub scope: Option<String>,
    /// One `key:value` status filter.
    pub status_key: Option<String>,
}

impl Default for FaultQuery {
    fn default() -> (r: Self)
        ensures
            r.severity is None,
            r.scope is None,
            r.status_key is None,
    {
        FaultQuery { severity: None, scope: None, status_key: None }
    }
}

impl FaultQuery {
    /// The filter the query asks for: the severity bound and scope as given,
    /// and one status pair when `status_key` holds a `:` (split at the first
    /// one); a `status_key` without `:` is ignored.
    pub fn into_filter(self) -> (r: FaultFilter)
        ensures
            r.severity == self.severity,
            r.scope == self.scope,
            match self.status_key {
                Some(raw) => match split_once_spec(raw@, ':') {
                    Some((k, v)) => r.status_keys@.len() == 1 && r.status_keys@[0].0@ == k
                        && r.status_keys@[0].1@ == v,
                    None => r.status_keys@.len() == 0,
                },
                None => r.status_keys@.len() == 0,
            },
    {
        let mut status_keys: Vec<(String, String)> = Vec::new();
        if let Some(raw) = &self.status_key {
            if let Some((k, v)) = split_once(raw.as_str(), ':') {
                status_keys.push((k, v));
            }
        }
        FaultFilter { status_keys, severity: self.severity, scope: self.scope }
    }
}

} // verus!
