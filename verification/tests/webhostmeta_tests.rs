use hopper::model::AtUri;
use hopper::webhostmeta::{Link, WebHostMeta};

#[test]
fn test_match_uri_no_collection_filter() {
    let hostname = "smokesignal.events".to_string();
    let web_finger = WebHostMeta {
        links: vec![Link {
            rel: "https://hopper.at/rel/link".to_string(),
            template: Some("https://smokesignal.events/profile/{authority}".to_string()),
            properties: Vec::new(), // No collection filter
        }],
        properties: Vec::new(),
    };

    // Should match: no collection filter, URI has no collection
    assert_eq!(
        web_finger.match_uri(
            &hostname,
            &AtUri {
                authority: "ngerakines.me".to_string(),
                collection: None,
                rkey: None,
            }
        ),
        Some("https://smokesignal.events/profile/ngerakines.me".into())
    );

    // Should ALSO match: no collection filter means accept any collection
    assert_eq!(
        web_finger.match_uri(
            &hostname,
            &AtUri {
                authority: "smokesignal.events".to_string(),
                collection: Some("app.bsky.feed.post".into()),
                rkey: Some("s0xnr5kqnp".into()),
            }
        ),
        Some("https://smokesignal.events/profile/smokesignal.events".into())
    );
}

#[test]
fn test_match_uri_specific_collection() {
    let hostname = "example.com".to_string();
    let web_finger = WebHostMeta {
        links: vec![Link {
            rel: "https://hopper.at/rel/link".to_string(),
            template: Some("https://example.com/{authority}/posts/{rkey}".to_string()),
            properties: vec![(
                "https://atproto.com/ns/collection".to_string(),
                "app.bsky.feed.post".to_string(),
            )],
        }],
        properties: Vec::new(),
    };

    // Should match: collection matches
    assert_eq!(
        web_finger.match_uri(
            &hostname,
            &AtUri {
                authority: "alice.example.com".to_string(),
                collection: Some("app.bsky.feed.post".into()),
                rkey: Some("abc123".into()),
            }
        ),
        Some("https://example.com/alice.example.com/posts/abc123".into())
    );

    // Should NOT match: different collection
    assert_eq!(
        web_finger.match_uri(
            &hostname,
            &AtUri {
                authority: "alice.example.com".to_string(),
                collection: Some("app.bsky.feed.like".into()),
                rkey: Some("abc123".into()),
            }
        ),
        None,
    );

    // Should NOT match: no collection
    assert_eq!(
        web_finger.match_uri(
            &hostname,
            &AtUri {
                authority: "alice.example.com".to_string(),
                collection: None,
                rkey: None,
            }
        ),
        None,
    );
}

#[test]
fn test_match_uri_authority_filter() {
    let hostname = "example.com".to_string();
    let web_finger = WebHostMeta {
        links: vec![Link {
            rel: "https://hopper.at/rel/link".to_string(),
            template: Some("https://example.com/special/{authority}".to_string()),
            properties: vec![(
                "https://atproto.com/ns/authority".to_string(),
                "alice.example.com".to_string(),
            )],
        }],
        properties: Vec::new(),
    };

    // Should match: authority matches
    assert_eq!(
        web_finger.match_uri(
            &hostname,
            &AtUri {
                authority: "alice.example.com".to_string(),
                collection: None,
                rkey: None,
            }
        ),
        Some("https://example.com/special/alice.example.com".into())
    );

    // Should NOT match: different authority
    assert_eq!(
        web_finger.match_uri(
            &hostname,
            &AtUri {
                authority: "bob.example.com".to_string(),
                collection: None,
                rkey: None,
            }
        ),
        None,
    );
}

#[test]
fn test_match_uri_rkey_filter() {
    let hostname = "example.com".to_string();
    let web_finger = WebHostMeta {
        links: vec![Link {
            rel: "https://hopper.at/rel/link".to_string(),
            template: Some("https://example.com/pinned".to_string()),
            properties: vec![(
                "https://atproto.com/ns/rkey".to_string(),
                "pinned".to_string(),
            )],
        }],
        properties: Vec::new(),
    };

    // Should match: rkey matches
    assert_eq!(
        web_finger.match_uri(
            &hostname,
            &AtUri {
                authority: "alice.example.com".to_string(),
                collection: Some("app.bsky.feed.post".into()),
                rkey: Some("pinned".into()),
            }
        ),
        Some("https://example.com/pinned".into())
    );

    // Should NOT match: different rkey
    assert_eq!(
        web_finger.match_uri(
            &hostname,
            &AtUri {
                authority: "alice.example.com".to_string(),
                collection: Some("app.bsky.feed.post".into()),
                rkey: Some("abc123".into()),
            }
        ),
        None,
    );

    // Should NOT match: no rkey
    assert_eq!(
        web_finger.match_uri(
            &hostname,
            &AtUri {
                authority: "alice.example.com".to_string(),
                collection: Some("app.bsky.feed.post".into()),
                rkey: None,
            }
        ),
        None,
    );
}

#[test]
fn test_match_uri_no_filters() {
    let hostname = "example.com".to_string();
    let web_finger = WebHostMeta {
        links: vec![Link {
            rel: "https://hopper.at/rel/link".to_string(),
            template: Some("https://example.com/{authority}/{collection}/{rkey}".to_string()),
            properties: Vec::new(), // No filters
        }],
        properties: Vec::new(),
    };

    // Should match: no filters means accept anything
    assert_eq!(
        web_finger.match_uri(
            &hostname,
            &AtUri {
                authority: "alice.example.com".to_string(),
                collection: Some("app.bsky.feed.post".into()),
                rkey: Some("abc123".into()),
            }
        ),
        Some("https://example.com/alice.example.com/app.bsky.feed.post/abc123".into())
    );

    // Should also match with different values
    assert_eq!(
        web_finger.match_uri(
            &hostname,
            &AtUri {
                authority: "bob.example.com".to_string(),
                collection: Some("app.bsky.feed.like".into()),
                rkey: Some("xyz789".into()),
            }
        ),
        Some("https://example.com/bob.example.com/app.bsky.feed.like/xyz789".into())
    );
}

#[test]
fn test_match_uri_first_match_wins() {
    // Order sensitivity: the first link has no filters, the second
    // requires a collection; a request carrying that collection still
    // matches the first link.
    let hostname = "example.com".to_string();
    let doc = WebHostMeta::new(vec![
        Link::new("https://example.com/anything/{authority}", None),
        Link::new("https://example.com/posts/{rkey}", Some("app.bsky.feed.post")),
    ]);

    assert_eq!(
        doc.match_uri(
            &hostname,
            &AtUri {
                authority: "alice.example.com".to_string(),
                collection: Some("app.bsky.feed.post".into()),
                rkey: Some("abc123".into()),
            }
        ),
        Some("https://example.com/anything/alice.example.com".into())
    );
}

#[test]
fn test_match_uri_skips_foreign_rel_and_host() {
    let hostname = "example.com".to_string();
    let doc = WebHostMeta {
        links: vec![
            // Wrong relation: ignored even though the template fits.
            Link {
                rel: "https://example.com/rel/other".to_string(),
                template: Some("https://example.com/a/{authority}".to_string()),
                properties: Vec::new(),
            },
            // No template: ignored.
            Link {
                rel: "https://hopper.at/rel/link".to_string(),
                template: None,
                properties: Vec::new(),
            },
            // Template rooted at another host: ignored.
            Link {
                rel: "https://hopper.at/rel/link".to_string(),
                template: Some("https://other.example.com/b/{authority}".to_string()),
                properties: Vec::new(),
            },
            // First real candidate.
            Link {
                rel: "https://hopper.at/rel/link".to_string(),
                template: Some("https://example.com/c/{authority}".to_string()),
                properties: Vec::new(),
            },
        ],
        properties: Vec::new(),
    };

    assert_eq!(
        doc.match_uri(
            &hostname,
            &AtUri {
                authority: "alice.example.com".to_string(),
                collection: None,
                rkey: None,
            }
        ),
        Some("https://example.com/c/alice.example.com".into())
    );
}

#[test]
fn test_match_uri_unsubstituted_placeholder_left_verbatim() {
    // A template placeholder for an absent component stays verbatim.
    let hostname = "example.com".to_string();
    let doc = WebHostMeta::new(vec![Link::new(
        "https://example.com/{authority}/{rkey}",
        None,
    )]);

    assert_eq!(
        doc.match_uri(
            &hostname,
            &AtUri {
                authority: "alice.example.com".to_string(),
                collection: None,
                rkey: None,
            }
        ),
        Some("https://example.com/alice.example.com/{rkey}".into())
    );
}

#[test]
fn test_link_new_shapes() {
    let with_filter = Link::new("https://h.example/p/{rkey}", Some("app.bsky.feed.post"));
    assert_eq!(with_filter.rel, "https://hopper.at/rel/link");
    assert_eq!(
        with_filter.template,
        Some("https://h.example/p/{rkey}".to_string())
    );
    assert_eq!(
        with_filter.properties,
        vec![(
            "https://atproto.com/ns/collection".to_string(),
            "app.bsky.feed.post".to_string()
        )]
    );

    let bare = Link::new("https://h.example/{authority}", None);
    assert!(bare.properties.is_empty());

    let doc = WebHostMeta::new(vec![bare.clone()]);
    assert!(doc.properties.is_empty());
    assert_eq!(doc.links, vec![bare]);
}
