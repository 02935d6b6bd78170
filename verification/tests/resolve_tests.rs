use hopper::cache::{resolution_key, ResolveAtUriResult, ResolveWebHostMetaResult, UnresolvedReason};
use hopper::errors::HopperErrorKind;
use hopper::resolve::{finish_resolution, prepare_resolution, resolve_start, resolve_step, ResolveAction};
use hopper::servers::parse_servers;
use hopper::webhostmeta::{Link, WebHostMeta};

/// Drives a resolution to completion against a fixed host table,
/// returning the outcome and the hosts that were looked up, in order.
fn run_resolution(
    raw: &str,
    server_pref: &str,
    table: &[(&str, ResolveWebHostMetaResult)],
) -> (ResolveAtUriResult, Vec<String>) {
    let request = prepare_resolution(raw, server_pref).expect("grammar should accept the input");
    let mut looked_up: Vec<String> = Vec::new();
    let (mut state, mut action) = resolve_start(request.aturi, request.servers);
    loop {
        match action {
            ResolveAction::Done(outcome) => return (outcome, looked_up),
            ResolveAction::LookupHost(host) => {
                let outcome = table
                    .iter()
                    .find(|(h, _)| *h == host)
                    .map(|(_, o)| o.clone())
                    .unwrap_or(ResolveWebHostMetaResult::NotFound);
                looked_up.push(host);
                let (next_state, next_action) = resolve_step(state, &outcome);
                state = next_state;
                action = next_action;
            }
        }
    }
}

#[test]
fn test_end_to_end_resolution() {
    // A preloaded document for frontpage.fyi with one collection-filtered
    // link resolves a matching three-part AT-URI to its destination.
    let doc = WebHostMeta::new(vec![Link::new(
        "https://frontpage.fyi/post/{authority}/{rkey}",
        Some("fyi.unravel.frontpage.post"),
    )]);
    let table = [("frontpage.fyi", ResolveWebHostMetaResult::Found(doc))];

    let (outcome, looked_up) = run_resolution(
        "at://bob.example.com/fyi.unravel.frontpage.post/xyz",
        "frontpage.fyi",
        &table,
    );

    assert_eq!(
        outcome,
        ResolveAtUriResult::Resolved("https://frontpage.fyi/post/bob.example.com/xyz".to_string())
    );
    // The first listed host matched, so no fallback host was consulted.
    assert_eq!(looked_up, vec!["frontpage.fyi".to_string()]);

    assert_eq!(
        finish_resolution(outcome),
        Ok("https://frontpage.fyi/post/bob.example.com/xyz".to_string())
    );
}

#[test]
fn test_end_to_end_no_destination() {
    // A valid AT-URI whose collection matches no link on any listed
    // host ends unresolved, each host consulted exactly once; the
    // stored negative outcome answers a retry without further lookups.
    let doc = WebHostMeta::new(vec![Link::new(
        "https://frontpage.fyi/post/{authority}/{rkey}",
        Some("fyi.unravel.frontpage.post"),
    )]);
    let table = [("frontpage.fyi", ResolveWebHostMetaResult::Found(doc))];

    let (outcome, looked_up) = run_resolution(
        "at://bob.example.com/app.bsky.feed.like/xyz",
        "frontpage.fyi",
        &table,
    );

    assert_eq!(
        outcome,
        ResolveAtUriResult::Unresolved(UnresolvedReason::NoDestination)
    );
    // Every server-list host was consulted once, in order: the user's
    // host first, then the remaining defaults.
    assert_eq!(
        looked_up,
        vec![
            "frontpage.fyi".to_string(),
            "smokesignal.events".to_string(),
            "whtwnd.com".to_string(),
            "bsky.app".to_string(),
        ]
    );

    let err = finish_resolution(outcome).unwrap_err();
    assert_eq!(err.kind, HopperErrorKind::NoDestination);
    assert_eq!(err.message(), "no destination found");
}

#[test]
fn test_fallback_order_and_fetch_errors() {
    // A failed or absent host is absorbed and the next host is tried;
    // the first match short-circuits the remaining hosts.
    let early = WebHostMeta::new(vec![Link::new(
        "https://b.example.com/{authority}",
        Some("app.bsky.feed.post"),
    )]);
    let late = WebHostMeta::new(vec![Link::new("https://c.example.com/{authority}", None)]);
    let table = [
        ("a.example.com", ResolveWebHostMetaResult::FetchError),
        ("b.example.com", ResolveWebHostMetaResult::Found(early)),
        ("c.example.com", ResolveWebHostMetaResult::Found(late)),
        ("d.example.com", ResolveWebHostMetaResult::NotFound),
    ];

    let (outcome, looked_up) = run_resolution(
        "at://alice.example.com",
        "a.example.com, b.example.com, c.example.com, d.example.com",
        &table,
    );

    // b's only link requires a collection the locator lacks; c matches.
    assert_eq!(
        outcome,
        ResolveAtUriResult::Resolved("https://c.example.com/alice.example.com".to_string())
    );
    assert_eq!(
        looked_up,
        vec![
            "a.example.com".to_string(),
            "b.example.com".to_string(),
            "c.example.com".to_string(),
        ]
    );
}

#[test]
fn test_prepare_resolution_rejects_invalid_input() {
    let err = prepare_resolution("not an aturi", "").unwrap_err();
    assert_eq!(err.kind, HopperErrorKind::InvalidAtUri);
    assert_eq!(err.detail, "not an aturi");
    assert_eq!(err.message(), "Invalid AT-URI: not an aturi");
}

#[test]
fn test_prepare_resolution_builds_key_and_servers() {
    let request = prepare_resolution("at://alice.bsky.social", "frontpage.fyi").unwrap();
    assert_eq!(request.aturi.authority, "alice.bsky.social");
    assert_eq!(
        request.servers,
        vec![
            "frontpage.fyi".to_string(),
            "smokesignal.events".to_string(),
            "whtwnd.com".to_string(),
            "bsky.app".to_string(),
        ]
    );
    assert_eq!(
        request.key,
        "frontpage.fyi,smokesignal.events,whtwnd.com,bsky.app\nat://alice.bsky.social"
    );
}

#[test]
fn test_parse_servers_defaults_only() {
    assert_eq!(
        parse_servers(""),
        vec![
            "smokesignal.events".to_string(),
            "frontpage.fyi".to_string(),
            "whtwnd.com".to_string(),
            "bsky.app".to_string(),
        ]
    );
}

#[test]
fn test_parse_servers_trims_dedups_and_appends() {
    // User hosts keep their order, are trimmed, drop empties, and are
    // de-duplicated; defaults follow without repeating a user host.
    assert_eq!(
        parse_servers(" b.example , a.example ,, b.example , frontpage.fyi "),
        vec![
            "b.example".to_string(),
            "a.example".to_string(),
            "frontpage.fyi".to_string(),
            "smokesignal.events".to_string(),
            "whtwnd.com".to_string(),
            "bsky.app".to_string(),
        ]
    );
}

#[test]
fn test_resolution_key_layout() {
    let servers = vec!["a.example".to_string(), "b.example".to_string()];
    assert_eq!(
        resolution_key("at://alice.bsky.social", &servers),
        "a.example,b.example\nat://alice.bsky.social"
    );
    // Distinct server lists give distinct keys for the same locator.
    let other = vec!["b.example".to_string(), "a.example".to_string()];
    assert_ne!(
        resolution_key("at://alice.bsky.social", &servers),
        resolution_key("at://alice.bsky.social", &other)
    );
}

#[test]
fn test_empty_server_list_is_exhausted_at_once() {
    let aturi = hopper::model::validate_aturi("at://alice.bsky.social").unwrap();
    let (_state, action) = resolve_start(aturi, Vec::new());
    match action {
        ResolveAction::Done(outcome) => assert_eq!(
            outcome,
            ResolveAtUriResult::Unresolved(UnresolvedReason::NoDestination)
        ),
        ResolveAction::LookupHost(h) => panic!("unexpected lookup of {}", h),
    }
}

#[test]
fn test_resolve_with_outcomes_table() {
    // The machine driven over a fixed outcome table realizes ordered
    // first-match fallback: failures and non-matching documents are
    // skipped, the first matching host wins.
    let b = WebHostMeta::new(vec![Link::new(
        "https://b.example.com/{authority}",
        Some("app.bsky.feed.post"),
    )]);
    let c = WebHostMeta::new(vec![Link::new("https://c.example.com/{authority}", None)]);
    let aturi = hopper::model::validate_aturi("at://alice.example.com").unwrap();
    let servers = vec![
        "a.example.com".to_string(),
        "b.example.com".to_string(),
        "c.example.com".to_string(),
    ];
    let outcomes = vec![
        ResolveWebHostMetaResult::FetchError,
        ResolveWebHostMetaResult::Found(b),
        ResolveWebHostMetaResult::Found(c),
    ];

    assert_eq!(
        hopper::resolve::resolve_with_outcomes(aturi.clone(), servers.clone(), &outcomes),
        ResolveAtUriResult::Resolved("https://c.example.com/alice.example.com".to_string())
    );

    // With no matching document anywhere the resolution is unresolved.
    let outcomes = vec![
        ResolveWebHostMetaResult::NotFound,
        ResolveWebHostMetaResult::FetchError,
        ResolveWebHostMetaResult::NotFound,
    ];
    assert_eq!(
        hopper::resolve::resolve_with_outcomes(aturi, servers, &outcomes),
        ResolveAtUriResult::Unresolved(UnresolvedReason::NoDestination)
    );
}
