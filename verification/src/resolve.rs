//! The ordered multi-host fallback, as a step machine. The runtime
//! performs the network and cache work one host at a time and hands
//! each host's outcome back; every decision — which host to consult
//! next, when a match ends the loop, when the list is exhausted — is
//! made here. Hosts are consulted strictly in server-list order, the
//! first match wins, and at most one lookup is requested per listed
//! host.

use vstd::prelude::*;
use crate::cache::{
    resolution_key, spec_resolution_key, ResolveAtUriResult, ResolveWebHostMetaResult,
    UnresolvedReason,
};
use crate::errors::{HopperError, HopperErrorKind};
use crate::model::{spec_validate_aturi, validate_aturi, AtUri, AtUriView};
use crate::servers::{parse_servers, spec_parse_servers};
use crate::webhostmeta::spec_match_uri;

verus! {

/// The destination a single host's cached or fetched state yields for
/// a locator: a match against its document when one was found, nothing
/// otherwise.
pub open spec fn spec_host_match(
    outcome: ResolveWebHostMetaResult,
    server: Seq<char>,
    uri: AtUriView,
) -> Option<Seq<char>> {
    match outcome {
        ResolveWebHostMetaResult::Found(doc) => spec_match_uri(doc@.links, server, uri),
        ResolveWebHostMetaResult::NotFound => None,
        ResolveWebHostMetaResult::FetchError => None,
    }
}

/// A resolution in progress: the locator, the server list, and the
/// index of the host whose outcome is awaited.
#[derive(Debug)]
pub struct ResolveState {
    pub aturi: AtUri,
    pub servers: Vec<String>,
    pub next: usize,
}

/// What the runtime must do next: consult the metadata cache (or
/// fetch) for one host, or stop with the final outcome to store under
/// the resolution key.
#[derive(Debug)]
pub enum ResolveAction {
    /// Look up this host's metadata and hand the outcome back to
    /// `resolve_step`.
    LookupHost(String),
    /// The resolution is finished with this outcome.
    Done(ResolveAtUriResult),
}

impl ResolveState {
    /// The awaited host index never runs past the list.
    pub open spec fn wf(self) -> bool {
        self.next <= self.servers@.len()
    }
}

/// Starts a resolution: with an empty server list it is already
/// exhausted, otherwise the first host is consulted.
pub fn resolve_start(aturi: AtUri, servers: Vec<String>) -> (r: (ResolveState, ResolveAction))
    ensures
        r.0.wf(),
        r.0.aturi == aturi,
        r.0.servers == servers,
        r.0.next == 0,
        servers@.len() == 0 ==> r.1 == ResolveAction::Done(
            ResolveAtUriResult::Unresolved(UnresolvedReason::NoDestination),
        ),
        servers@.len() > 0 ==> (r.1 matches ResolveAction::LookupHost(h) && h@ == servers@[0]@),
{
    if servers.len() == 0 {
        let state = ResolveState { aturi, servers, next: 0 };
        (
            state,
            ResolveAction::Done(ResolveAtUriResult::Unresolved(UnresolvedReason::NoDestination)),
        )
    } else {
        let h = servers[0].clone();
        let state = ResolveState { aturi, servers, next: 0 };
        (state, ResolveAction::LookupHost(h))
    }
}

/// Consumes the awaited host's outcome. A match on that host finishes
/// with its destination URL; otherwise the next host is consulted, or
/// the resolution finishes unresolved when the list is exhausted. The
/// host order of the list is followed exactly.
pub fn resolve_step(state: ResolveState, outcome: &ResolveWebHostMetaResult) -> (r: (
    ResolveState,
    ResolveAction,
))
    requires
        state.next < state.servers@.len(),
    ensures
        r.0.wf(),
        r.0.aturi == state.aturi,
        r.0.servers == state.servers,
        ({
            let m = spec_host_match(*outcome, state.servers@[state.next as int]@, state.aturi@);
            &&& m matches Some(u) ==> (r.0.next == state.next && (
            r.1 matches ResolveAction::Done(res) && res matches ResolveAtUriResult::Resolved(url)
                && url@ == u))
            &&& (m is None && state.next + 1 < state.servers@.len()) ==> (r.0.next == state.next
                + 1 && (r.1 matches ResolveAction::LookupHost(h) && h@ == state.servers@[state.next
                + 1]@))
            &&& (m is None && state.next + 1 == state.servers@.len()) ==> (r.0.next
                == state.servers@.len() && r.1 == ResolveAction::Done(
                ResolveAtUriResult::Unresolved(UnresolvedReason::NoDestination),
            ))
        }),
{
    let found: Option<String> = match outcome {
        ResolveWebHostMetaResult::Found(doc) => doc.match_uri(
            state.servers[state.next].as_str(),
            &state.aturi,
        ),
        ResolveWebHostMetaResult::NotFound => None,
        ResolveWebHostMetaResult::FetchError => None,
    };
    match found {
        Some(url) => {
            let act = ResolveAction::Done(ResolveAtUriResult::Resolved(url));
            (state, act)
        },
        None => {
            let n = state.servers.len();
            let next = state.next + 1;
            let state = ResolveState { aturi: state.aturi, servers: state.servers, next };
            if next < n {
                let h = state.servers[next].clone();
                (state, ResolveAction::LookupHost(h))
            } else {
                (
                    state,
                    ResolveAction::Done(
                        ResolveAtUriResult::Unresolved(UnresolvedReason::NoDestination),
                    ),
                )
            }
        },
    }
}

/// The ordered first-match fallback over a table of host outcomes, one
/// aligned with each server: the destination of the first host, from
/// `i` on, whose outcome matches the locator.
pub open spec fn spec_fallback(
    servers: Seq<Seq<char>>,
    outcomes: Seq<ResolveWebHostMetaResult>,
    uri: AtUriView,
    i: int,
) -> Option<Seq<char>>
    decreases servers.len() - i,
    when 0 <= i <= servers.len()
{
    if i == servers.len() {
        None
    } else {
        match spec_host_match(outcomes[i], servers[i], uri) {
            Some(u) => Some(u),
            None => spec_fallback(servers, outcomes, uri, i + 1),
        }
    }
}

/// Drives the step machine to completion over already-known host
/// outcomes, one aligned with each server: the result is exactly the
/// ordered first-match fallback `spec_fallback`, resolved with the
/// first matching host's destination or unresolved on exhaustion. The
/// runtime performs the same drive with each outcome looked up or
/// fetched on demand.
pub fn resolve_with_outcomes(
    aturi: AtUri,
    servers: Vec<String>,
    outcomes: &Vec<ResolveWebHostMetaResult>,
) -> (r: ResolveAtUriResult)
    requires
        outcomes@.len() == servers@.len(),
    ensures
        match spec_fallback(servers.deep_view(), outcomes@, aturi@, 0) {
            Some(u) => r matches ResolveAtUriResult::Resolved(url) && url@ == u,
            None => r == ResolveAtUriResult::Unresolved(UnresolvedReason::NoDestination),
        },
{
    let ghost sv = servers.deep_view();
    let ghost uri = aturi@;
    let ghost table = outcomes@;
    proof {
        assert(sv.len() == servers@.len());
    }
    let (mut state, mut action) = resolve_start(aturi, servers);
    #[verifier::loop_isolation(false)]
    loop
        invariant
            state.wf(),
            state.servers.deep_view() == sv,
            state.aturi@ == uri,
            outcomes@ == table,
            table.len() == sv.len(),
            match action {
                ResolveAction::LookupHost(h) => state.next < sv.len() && h@ == sv[state.next as int]
                    && spec_fallback(sv, table, uri, 0) == spec_fallback(
                    sv,
                    table,
                    uri,
                    state.next as int,
                ),
                ResolveAction::Done(res) => match spec_fallback(sv, table, uri, 0) {
                    Some(u) => res matches ResolveAtUriResult::Resolved(url) && url@ == u,
                    None => res == ResolveAtUriResult::Unresolved(UnresolvedReason::NoDestination),
                },
            },
        decreases sv.len() - state.next, (if action is LookupHost {
            1int
        } else {
            0int
        }),
    {
        match action {
            ResolveAction::Done(res) => {
                return res;
            },
            ResolveAction::LookupHost(_) => {
                proof {
                    assert(state.servers.deep_view().len() == state.servers@.len());
                }
                let outcome = &outcomes[state.next];
                proof {
                    assert(state.servers@[state.next as int]@ == sv[state.next as int]);
                }
                let (next_state, next_action) = resolve_step(state, outcome);
                state = next_state;
                action = next_action;
            },
        }
    }
}

/// A prepared resolution request: the validated locator, the server
/// list, and the resolution cache key, all derived from the two raw
/// request strings.
#[derive(Debug)]
pub struct ResolutionRequest {
    pub aturi: AtUri,
    pub servers: Vec<String>,
    pub key: String,
}

/// The synchronous, pre-network part of serving a request: validates
/// the raw AT-URI, builds the server list from the user's preference
/// string, and computes the cache key. Succeeds exactly when the
/// grammar accepts the raw string; the failure carries the offending
/// input.
pub fn prepare_resolution(raw: &str, server_pref: &str) -> (r: Result<
    ResolutionRequest,
    HopperError,
>)
    ensures
        r is Ok <==> spec_validate_aturi(raw@) is Some,
        r matches Err(e) ==> (e.kind == HopperErrorKind::InvalidAtUri && e.detail@ == raw@),
        r matches Ok(q) ==> {
            &&& Some(q.aturi.deep_view()) == spec_validate_aturi(raw@)
            &&& q.servers.deep_view() == spec_parse_servers(server_pref@)
            &&& q.key@ == spec_resolution_key(raw@, spec_parse_servers(server_pref@))
        },
{
    let aturi = match validate_aturi(raw) {
        Some(a) => a,
        None => {
            return Err(HopperError::invalid_aturi(raw));
        },
    };
    let servers = parse_servers(server_pref);
    let key = resolution_key(raw, &servers);
    Ok(ResolutionRequest { aturi, servers, key })
}

/// Maps a finished resolution outcome to the caller's result: the
/// destination URL of a resolved outcome, the terminal failure of an
/// unresolved one.
pub fn finish_resolution(outcome: ResolveAtUriResult) -> (r: Result<String, HopperError>)
    ensures
        outcome matches ResolveAtUriResult::Resolved(url) ==> (r matches Ok(u) && u == url),
        outcome matches ResolveAtUriResult::Unresolved(reason) ==> (r matches Err(e) && e.kind
            == HopperErrorKind::NoDestination),
{
    match outcome {
        ResolveAtUriResult::Resolved(url) => Ok(url),
        ResolveAtUriResult::Unresolved(_) => Err(HopperError::no_destination()),
    }
}

} // verus!
