//! Talking to other SOVD hosts: the REST paths and URLs of a component's resources,
//! the query string of a fault filter, and how a failed exchange maps onto
//! [`SovdError`].
use vstd::prelude::*;

use crate::component::ComponentId;
use crate::error::{SovdError, is_internal, is_invalid_request, is_not_found, is_transport};
use crate::resources::FaultFilter;
use crate::text::{
    concat,
    concat3,
    decimal,
    decimal_string,
    signed_decimal,
    signed_decimal_string,
    trim_leading_slashes,
    trim_leading_slashes_spec,
};

verus! {

/// Path of a component entity below a SOVD REST root:
/// `sovd/v1/components/{id}`.
pub open spec fn entity_path_spec(id: Seq<char>) -> Seq<char> {
    "sovd/v1/components/"@ + id
}

/// Path of a resource of a component below a SOVD REST root:
/// `sovd/v1/components/{id}/{tail}`.
pub open spec fn resource_path_spec(id: Seq<char>, tail: Seq<char>) -> Seq<char> {
    "sovd/v1/components/"@ + id + "/"@ + tail
}

/// `sovd/v1/components/{id}`.
pub fn entity_path(component: &ComponentId) -> (r: String)
    ensures
        r@ == entity_path_spec(component.0@),
{
    concat("sovd/v1/components/", component.as_str())
}

/// `sovd/v1/components/{id}/{tail}`.
pub fn resource_path(component: &ComponentId, tail: &str) -> (r: String)
    ensures
        r@ == resource_path_spec(component.0@, tail@),
{
    let a = concat3("sovd/v1/components/", component.as_str(), "/");
    concat(a.as_str(), tail)
}

/// `a/b`: two path segments joined by a slash.
pub fn join_segments(a: &str, b: &str) -> (r: String)
    ensures
        r@ == a@ + "/"@ + b@,
{
    concat3(a, "/", b)
}

/// What `url::Url::join` gives for `input` against the URL that
/// `url::Url::parse` reads from `base`: the text of the joined URL, or the
/// text of the parse error (of `base`, or else of the join).
pub uninterp spec fn url_joined(base: Seq<char>, input: Seq<char>) -> Result<Seq<char>, Seq<char>>;

/// Resolves `input` against the URL written in `base`
/// (`url::Url::parse`, then `url::Url::join`, the result as its text and an
/// error as its `Display` text).
///
/// Trusted: the result is whatever the `url` crate's WHATWG URL parser
/// gives, named `url_joined`; nothing more is claimed of it. Neither call
/// panics: the parser reports an over-long URL as `ParseError::Overflow`.
#[verifier::external_body]
fn url_join(base: &str, input: &str) -> (r: Result<String, String>)
    ensures
        url_joined(base@, input@) == match r {
            Ok(t) => Ok::<Seq<char>, Seq<char>>(t@),
            Err(e) => Err::<Seq<char>, Seq<char>>(e@),
        },
{
    match url::Url::parse(base) {
        Ok(b) => match b.join(input) {
            Ok(u) => Ok(u.into()),
            Err(e) => Err(e.to_string()),
        },
        Err(e) => Err(e.to_string()),
    }
}

/// The URL of a CDA resource, given the result of joining its path to the
/// CDA base URL: the joined URL, or `InvalidRequest("bad CDA URL: {e}")`.
pub fn cda_url(joined: Result<String, String>) -> (r: Result<String, SovdError>)
    ensures
        joined matches Ok(t) ==> (r matches Ok(u) && u@ == t@),
        joined matches Err(e) ==> (r matches Err(x) && is_invalid_request(x, "bad CDA URL: "@ + e@)),
{
    match joined {
        Ok(t) => Ok(t),
        Err(e) => Err(SovdError::InvalidRequest(concat("bad CDA URL: ", e.as_str()))),
    }
}

/// The URL of resource `tail` of `component` on the CDA at `base`:
/// `base` joined with `sovd/v1/components/{id}/{tail}`.
pub fn component_url(base: &str, component: &ComponentId, tail: &str) -> (r: Result<
    String,
    SovdError,
>)
    ensures
        url_joined(base@, resource_path_spec(component.0@, tail@)) matches Ok(t) ==> (r matches Ok(
            u,
        ) && u@ == t),
        url_joined(base@, resource_path_spec(component.0@, tail@)) matches Err(e) ==> (r matches Err(
            x,
        ) && is_invalid_request(x, "bad CDA URL: "@ + e)),
{
    let path = resource_path(component, tail);
    cda_url(url_join(base, path.as_str()))
}

/// The URL of `component` itself on the CDA at `base`: `base` joined with
/// `sovd/v1/components/{id}`.
pub fn component_entity_url(base: &str, component: &ComponentId) -> (r: Result<String, SovdError>)
    ensures
        url_joined(base@, entity_path_spec(component.0@)) matches Ok(t) ==> (r matches Ok(u) && u@
            == t),
        url_joined(base@, entity_path_spec(component.0@)) matches Err(e) ==> (r matches Err(x)
            && is_invalid_request(x, "bad CDA URL: "@ + e)),
{
    let path = entity_path(component);
    cda_url(url_join(base, path.as_str()))
}

/// The URL of a resource of a remote SOVD host, given the result of joining
/// its path to the host's base URL: the joined URL, or
/// `Internal("RemoteHost: bad URL join: {e}")`.
pub fn remote_url(joined: Result<String, String>) -> (r: Result<String, SovdError>)
    ensures
        joined matches Ok(t) ==> (r matches Ok(u) && u@ == t@),
        joined matches Err(e) ==> (r matches Err(x) && is_internal(
            x,
            "RemoteHost: bad URL join: "@ + e@,
        )),
{
    match joined {
        Ok(t) => Ok(t),
        Err(e) => Err(SovdError::Internal(concat("RemoteHost: bad URL join: ", e.as_str()))),
    }
}

/// The URL of `path` on the remote SOVD host at `base`: `base` joined with
/// `path` without its leading slashes, so that the join stays below the
/// base URL's own path.
pub fn host_url(base: &str, path: &str) -> (r: Result<String, SovdError>)
    ensures
        url_joined(base@, trim_leading_slashes_spec(path@)) matches Ok(t) ==> (r matches Ok(u)
            && u@ == t),
        url_joined(base@, trim_leading_slashes_spec(path@)) matches Err(e) ==> (r matches Err(x)
            && is_internal(x, "RemoteHost: bad URL join: "@ + e)),
{
    let trimmed = trim_leading_slashes(path);
    remote_url(url_join(base, trimmed.as_str()))
}

/// The query pairs that carry `status_keys`: `status[{key}] = value`.
pub open spec fn status_pairs(keys: Seq<(String, String)>) -> Seq<(Seq<char>, Seq<char>)>
    decreases keys.len(),
{
    if keys.len() == 0 {
        Seq::empty()
    } else {
        status_pairs(keys.drop_last()).push(
            ("status["@ + keys.last().0@ + "]"@, keys.last().1@),
        )
    }
}

/// The query pairs that carry a fault filter, in order: `severity` when
/// set, `scope` when set, then one `status[{key}]` pair per status key.
/// A filter that sets nothing gives no pairs.
pub open spec fn fault_query_pairs_spec(filter: FaultFilter) -> Seq<(Seq<char>, Seq<char>)> {
    (match filter.severity {
        Some(sev) => seq![("severity"@, signed_decimal(sev as int))],
        None => Seq::empty(),
    }) + (match filter.scope {
        Some(scope) => seq![("scope"@, scope@)],
        None => Seq::empty(),
    }) + status_pairs(filter.status_keys@)
}

/// One pair per status key, in order: `status[{key}]` with the key's value.
pub proof fn lemma_status_pairs(keys: Seq<(String, String)>)
    ensures
        status_pairs(keys).len() == keys.len(),
        forall|i: int|
            0 <= i < keys.len() ==> #[trigger] status_pairs(keys)[i] == ("status["@ + keys[i].0@
                + "]"@, keys[i].1@),
    decreases keys.len(),
{
    if keys.len() > 0 {
        let p = keys.drop_last();
        lemma_status_pairs(p);
        assert forall|i: int| 0 <= i < keys.len() implies #[trigger] status_pairs(keys)[i] == (
        "status["@ + keys[i].0@ + "]"@, keys[i].1@) by {
            if i < p.len() {
                assert(status_pairs(keys)[i] == status_pairs(p)[i]);
                assert(p[i] == keys[i]);
            }
        }
    }
}

/// The number of pairs a filter's severity and scope take: one for each
/// that is set.
pub open spec fn head_pair_count(filter: FaultFilter) -> int {
    (if filter.severity is Some { 1int } else { 0int }) + (if filter.scope is Some { 1int } else { 0int })
}

/// The query of a fault filter carries every part of it and nothing else:
/// `severity` first when set, then `scope` when set, then exactly one
/// `status[{key}]` pair for each status key, in the keys' order.
pub proof fn lemma_fault_query_pairs(filter: FaultFilter)
    ensures
        fault_query_pairs_spec(filter).len() == head_pair_count(filter) + filter.status_keys@.len(),
        filter.severity matches Some(sev) ==> fault_query_pairs_spec(filter)[0] == ("severity"@, signed_decimal(sev as int)),
        filter.scope matches Some(scope) ==> fault_query_pairs_spec(filter)[head_pair_count(filter) - 1] == ("scope"@, scope@),
        forall|i: int|
            0 <= i < filter.status_keys@.len() ==> #[trigger] fault_query_pairs_spec(filter)[head_pair_count(filter) + i]
                == ("status["@ + filter.status_keys@[i].0@ + "]"@, filter.status_keys@[i].1@),
{
    lemma_status_pairs(filter.status_keys@);
    let a: Seq<(Seq<char>, Seq<char>)> = match filter.severity {
        Some(sev) => seq![("severity"@, signed_decimal(sev as int))],
        None => Seq::empty(),
    };
    let b: Seq<(Seq<char>, Seq<char>)> = match filter.scope {
        Some(scope) => seq![("scope"@, scope@)],
        None => Seq::empty(),
    };
    let c = status_pairs(filter.status_keys@);
    assert(fault_query_pairs_spec(filter) == a + b + c);
    assert(a.len() + b.len() == head_pair_count(filter));
    assert forall|i: int| 0 <= i < filter.status_keys@.len() implies #[trigger] fault_query_pairs_spec(
        filter,
    )[head_pair_count(filter) + i] == ("status["@ + filter.status_keys@[i].0@ + "]"@,
        filter.status_keys@[i].1@) by {
        assert((a + b + c)[a.len() + b.len() + i] == c[i]);
    }
    if filter.scope is Some {
        assert((a + b + c)[a.len() + b.len() - 1] == b[0]);
    }
    if filter.severity is Some {
        assert((a + b + c)[0] == a[0]);
    }
}

/// The text of a list of pairs.
pub open spec fn pairs_view(s: Seq<(String, String)>) -> Seq<(Seq<char>, Seq<char>)> {
    s.map_values(|p: (String, String)| (p.0@, p.1@))
}

/// The query pairs that carry `filter` to a remote fault listing.
pub fn fault_query_pairs(filter: &FaultFilter) -> (r: Vec<(String, String)>)
    ensures
        pairs_view(r@) == fault_query_pairs_spec(*filter),
        r@.len() == head_pair_count(*filter) + filter.status_keys@.len(),
        forall|i: int|
            0 <= i < filter.status_keys@.len() ==> (#[trigger] r@[head_pair_count(*filter) + i]).0@
                == "status["@ + filter.status_keys@[i].0@ + "]"@ && r@[head_pair_count(*filter)
                + i].1@ == filter.status_keys@[i].1@,
{
    let mut r: Vec<(String, String)> = Vec::new();
    if let Some(sev) = filter.severity {
        r.push((String::from_str("severity"), signed_decimal_string(sev as i64)));
    }
    if let Some(scope) = &filter.scope {
        r.push((String::from_str("scope"), scope.clone()));
    }
    let ghost head = pairs_view(r@);
    proof {
        assert(head =~= (match filter.severity {
            Some(sev) => seq![("severity"@, signed_decimal(sev as int))],
            None => Seq::empty(),
        }) + (match filter.scope {
            Some(scope) => seq![("scope"@, scope@)],
            None => Seq::empty(),
        }));
    }
    let n = filter.status_keys.len();
    let mut i: usize = 0;
    while i < n
        invariant
            n == filter.status_keys@.len(),
            i <= n,
            pairs_view(r@) == head + status_pairs(filter.status_keys@.take(i as int)),
        decreases n - i,
    {
        let k = concat3("status[", filter.status_keys[i].0.as_str(), "]");
        let v = filter.status_keys[i].1.clone();
        let ghost before = r@;
        r.push((k, v));
        proof {
            let t = filter.status_keys@.take(i + 1);
            assert(t.drop_last() =~= filter.status_keys@.take(i as int));
            assert(t.last() == filter.status_keys@[i as int]);
            assert(pairs_view(r@) =~= pairs_view(before).push((k@, v@)));
        }
        i = i + 1;
    }
    proof {
        assert(filter.status_keys@.take(n as int) =~= filter.status_keys@);
        lemma_fault_query_pairs(*filter);
        assert forall|i: int| 0 <= i < filter.status_keys@.len() implies (#[trigger] r@[head_pair_count(
            *filter,
        ) + i]).0@ == "status["@ + filter.status_keys@[i].0@ + "]"@ && r@[head_pair_count(*filter)
            + i].1@ == filter.status_keys@[i].1@ by {
            assert(pairs_view(r@)[head_pair_count(*filter) + i] == fault_query_pairs_spec(*filter)[head_pair_count(*filter) + i]);
        }
    }
    r
}

/// How an HTTP status renders as text: the code and its canonical reason
/// (`500 Internal Server Error`), or `<unknown status code>`.
pub open spec fn status_text(status: u16, reason: Option<Seq<char>>) -> Seq<char> {
    decimal(status as nat) + " "@ + match reason {
        Some(r) => r,
        None => "<unknown status code>"@,
    }
}

/// Message for a remote failure: `remote {status}: {body}`.
pub open spec fn remote_failure_msg(status: u16, reason: Option<Seq<char>>, body: Seq<char>) -> Seq<
    char,
> {
    "remote "@ + status_text(status, reason) + ": "@ + body
}

/// Maps a non-success HTTP answer of a remote SOVD host onto an error:
/// 404 is `NotFound`, 401 is `Unauthorized`, any 5xx is `Internal`, and
/// every other status is `Transport`. `reason` is the status's canonical
/// reason phrase, if it has one.
pub fn map_http_error(status: u16, reason: Option<&str>, body: &str) -> (r: SovdError)
    ensures
        status == 404 ==> is_not_found(r, "remote 404: "@ + body@),
        status == 401 ==> r is Unauthorized,
        500 <= status <= 599 ==> is_internal(
            r,
            remote_failure_msg(
                status,
                match reason {
                    Some(t) => Some(t@),
                    None => None,
                },
                body@,
            ),
        ),
        status != 404 && status != 401 && !(500 <= status <= 599) ==> is_transport(
            r,
            remote_failure_msg(
                status,
                match reason {
                    Some(t) => Some(t@),
                    None => None,
                },
                body@,
            ),
        ),
{
    if status == 404 {
        return SovdError::NotFound { entity: concat("remote 404: ", body) };
    }
    if status == 401 {
        return SovdError::Unauthorized;
    }
    let code = decimal_string(status as u64);
    let a = concat3("remote ", code.as_str(), " ");
    let b = match reason {
        Some(t) => concat(a.as_str(), t),
        None => concat(a.as_str(), "<unknown status code>"),
    };
    let msg = concat3(b.as_str(), ": ", body);
    proof {
        let rs = match reason {
            Some(t) => Some(t@),
            None => None,
        };
        assert(msg@ =~= remote_failure_msg(status, rs, body@));
    }
    if 500 <= status && status <= 599 {
        SovdError::Internal(msg)
    } else {
        SovdError::Transport(msg)
    }
}

/// What an HTTP client reports about a failed request.
#[derive(Debug)]
pub struct HttpFailure {
    /// The connection could not be established.
    pub is_connect: bool,
    /// The request timed out.
    pub is_timeout: bool,
    /// The request could not be sent.
    pub is_request: bool,
    /// The HTTP status of the answer, when there was one.
    pub status: Option<u16>,
    /// The client's description of the failure.
    pub message: String,
}

/// Maps a failed request to a forwarding backend onto an error: a failure to
/// connect, send or finish in time means the backend is unavailable; a 404
/// answer is `NotFound`; anything else is a `Transport` error with the
/// client's description.
pub fn map_reqwest_err(component: &ComponentId, err: &HttpFailure) -> (r: SovdError)
    ensures
        err.is_connect || err.is_timeout || err.is_request ==> (r matches SovdError::BackendUnavailable(c)
            && c == *component),
        !(err.is_connect || err.is_timeout || err.is_request) && err.status == Some(404u16)
            ==> is_not_found(r, "cda:"@ + component.0@),
        !(err.is_connect || err.is_timeout || err.is_request) && err.status != Some(404u16)
            ==> is_transport(r, err.message@),
{
    if err.is_connect || err.is_timeout || err.is_request {
        return SovdError::BackendUnavailable(component.clone());
    }
    if let Some(status) = err.status {
        if status == 404 {
            return SovdError::NotFound { entity: concat("cda:", component.as_str()) };
        }
    }
    SovdError::Transport(err.message.clone())
}

} // verus!

verus! {

/// The HTTP status with which a server answers a request that failed with
/// `e`: 404 for `NotFound`, 400 for `InvalidRequest`, 503 for
/// `BackendUnavailable`, 401 for `Unauthorized`, 502 for `Transport`, and 500
/// for `OperationFailed` and `Internal`.
pub open spec fn http_status_spec(e: SovdError) -> u16 {
    match e {
        SovdError::NotFound { .. } => 404,
        SovdError::InvalidRequest(_) => 400,
        SovdError::BackendUnavailable(_) => 503,
        SovdError::Unauthorized => 401,
        SovdError::OperationFailed { .. } => 500,
        SovdError::Transport(_) => 502,
        SovdError::Internal(_) => 500,
    }
}

/// The HTTP status with which a server answers a request that failed with `e`.
pub fn http_status(e: &SovdError) -> (r: u16)
    ensures
        r == http_status_spec(*e),
        e is NotFound ==> r == 404,
        e is InvalidRequest ==> r == 400,
        e is BackendUnavailable ==> r == 503,
        e is Unauthorized ==> r == 401,
        e is OperationFailed ==> r == 500,
        e is Transport ==> r == 502,
        e is Internal ==> r == 500,
{
    proof {
        lemma_http_status_codes(*e);
    }
    match e {
        SovdError::NotFound { .. } => 404,
        SovdError::InvalidRequest(_) => 400,
        SovdError::BackendUnavailable(_) => 503,
        SovdError::Unauthorized => 401,
        SovdError::OperationFailed { .. } => 500,
        SovdError::Transport(_) => 502,
        SovdError::Internal(_) => 500,
    }
}

/// Each kind of error is answered with its own fixed HTTP status: 404 for
/// anything not found, 400 for a bad request, 503 for an unavailable
/// backend, 401 for a missing authorization, 502 for a failed exchange with
/// another host, and 500 for a failed operation or an internal error.
pub proof fn lemma_http_status_codes(e: SovdError)
    ensures
        e is NotFound ==> http_status_spec(e) == 404,
        e is InvalidRequest ==> http_status_spec(e) == 400,
        e is BackendUnavailable ==> http_status_spec(e) == 503,
        e is Unauthorized ==> http_status_spec(e) == 401,
        e is OperationFailed ==> http_status_spec(e) == 500,
        e is Transport ==> http_status_spec(e) == 502,
        e is Internal ==> http_status_spec(e) == 500,
{
}

} // verus!
