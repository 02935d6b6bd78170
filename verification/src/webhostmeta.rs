//! Host metadata documents and the link-template matcher. A host
//! publishes an ordered list of links; the matcher walks that list in
//! declared order, keeps the first link whose relation, host prefix and
//! property filters all accept the locator, and substitutes the
//! locator's components into the link's URL template.

use vstd::prelude::*;
use crate::model::{AtUri, AtUriView};
use crate::strutil::{
    replace_all, spec_replace, spec_starts_with, str_eq, str_starts_with, to_string,
};

verus! {

/// The link relation that marks a destination link.
pub open spec fn spec_rel_link() -> Seq<char> {
    "https://hopper.at/rel/link"@
}

/// Property key constraining the locator's authority.
pub open spec fn spec_ns_authority() -> Seq<char> {
    "https://atproto.com/ns/authority"@
}

/// Property key constraining the locator's collection.
pub open spec fn spec_ns_collection() -> Seq<char> {
    "https://atproto.com/ns/collection"@
}

/// Property key constraining the locator's record key.
pub open spec fn spec_ns_rkey() -> Seq<char> {
    "https://atproto.com/ns/rkey"@
}

/// The link relation that marks a destination link.
pub fn rel_link() -> (r: &'static str)
    ensures
        r@ == spec_rel_link(),
{
    "https://hopper.at/rel/link"
}

/// Property key constraining the locator's authority.
pub fn ns_authority() -> (r: &'static str)
    ensures
        r@ == spec_ns_authority(),
{
    "https://atproto.com/ns/authority"
}

/// Property key constraining the locator's collection.
pub fn ns_collection() -> (r: &'static str)
    ensures
        r@ == spec_ns_collection(),
{
    "https://atproto.com/ns/collection"
}

/// Property key constraining the locator's record key.
pub fn ns_rkey() -> (r: &'static str)
    ensures
        r@ == spec_ns_rkey(),
{
    "https://atproto.com/ns/rkey"
}

/// One link of a host metadata document.
#[derive(Debug, Clone, PartialEq, Eq)]
pub struct Link {
    /// The link relation; only `spec_rel_link` links are destinations.
    pub rel: String,
    /// A URL template with zero or more of the placeholders
    /// `{authority}`, `{collection}` and `{rkey}`.
    pub template: Option<String>,
    /// Match filters, keyed by the namespace constants; a key that is
    /// absent constrains nothing.
    pub properties: Vec<(String, String)>,
}

/// The mathematical shape of a `Link`.
#[verifier::ext_equal]
pub struct LinkView {
    pub rel: Seq<char>,
    pub template: Option<Seq<char>>,
    pub properties: Seq<(Seq<char>, Seq<char>)>,
}

/// A host metadata document: host-level properties (carried, unused by
/// matching) and an ordered list of links.
#[derive(Debug, Clone, PartialEq, Eq)]
pub struct WebHostMeta {
    /// Host-level properties, carried for forward compatibility.
    pub properties: Vec<(String, String)>,
    /// The links, in declaration order; order is a priority order.
    pub links: Vec<Link>,
}

/// The mathematical shape of a `WebHostMeta`.
#[verifier::ext_equal]
pub struct WebHostMetaView {
    pub properties: Seq<(Seq<char>, Seq<char>)>,
    pub links: Seq<LinkView>,
}

/// A property list as character sequences, pairing each key with
/// its value in declaration order.
pub open spec fn spec_props(props: Seq<(String, String)>) -> Seq<(Seq<char>, Seq<char>)> {
    props.map_values(|p: (String, String)| (p.0@, p.1@))
}

impl View for Link {
    type V = LinkView;

    open spec fn view(&self) -> LinkView {
        LinkView {
            rel: self.rel@,
            template: match self.template {
                Some(ref t) => Some(t@),
                None => None,
            },
            properties: spec_props(self.properties@),
        }
    }
}

impl View for WebHostMeta {
    type V = WebHostMetaView;

    open spec fn view(&self) -> WebHostMetaView {
        WebHostMetaView {
            properties: spec_props(self.properties@),
            links: self.links@.map_values(|l: Link| l@),
        }
    }
}

/// The value under `key` in an ordered property list: the first
/// binding wins.
pub open spec fn spec_lookup(props: Seq<(Seq<char>, Seq<char>)>, key: Seq<char>) -> Option<
    Seq<char>,
>
    decreases props.len(),
{
    if props.len() == 0 {
        None
    } else if props[0].0 == key {
        Some(props[0].1)
    } else {
        spec_lookup(props.drop_first(), key)
    }
}

/// The template prefix a link must carry to count for `server`.
pub open spec fn spec_host_prefix(server: Seq<char>) -> Seq<char> {
    "https://"@ + server + "/"@
}

/// A link is a candidate for `server` when its relation is the
/// destination relation and it has a template rooted at that host.
pub open spec fn spec_is_candidate(link: LinkView, server: Seq<char>) -> bool {
    &&& link.rel == spec_rel_link()
    &&& link.template is Some
    &&& spec_starts_with(link.template->0, spec_host_prefix(server))
}

/// Each filter property that is present must equal the corresponding
/// locator component exactly; an absent component fails a present
/// filter, and an absent filter constrains nothing.
pub open spec fn spec_filters_pass(link: LinkView, uri: AtUriView) -> bool {
    &&& match spec_lookup(link.properties, spec_ns_authority()) {
        Some(v) => uri.authority == v,
        None => true,
    }
    &&& match spec_lookup(link.properties, spec_ns_collection()) {
        Some(v) => uri.collection == Some(v),
        None => true,
    }
    &&& match spec_lookup(link.properties, spec_ns_rkey()) {
        Some(v) => uri.rkey == Some(v),
        None => true,
    }
}

/// Template substitution: `{authority}` is replaced unconditionally;
/// `{collection}` and `{rkey}` only when the locator carries those
/// components, and are otherwise left verbatim.
pub open spec fn spec_substitute(template: Seq<char>, uri: AtUriView) -> Seq<char> {
    let r1 = spec_replace(template, "{authority}"@, uri.authority);
    let r2 = match uri.collection {
        Some(c) => spec_replace(r1, "{collection}"@, c),
        None => r1,
    };
    match uri.rkey {
        Some(k) => spec_replace(r2, "{rkey}"@, k),
        None => r2,
    }
}

/// The destination for `uri` on `server`: the substituted template of
/// the first link, in declaration order, that is a candidate and whose
/// filters pass.
pub open spec fn spec_match_uri(links: Seq<LinkView>, server: Seq<char>, uri: AtUriView) -> Option<
    Seq<char>,
>
    decreases links.len(),
{
    if links.len() == 0 {
        None
    } else if spec_is_candidate(links[0], server) && spec_filters_pass(links[0], uri) {
        Some(spec_substitute(links[0].template->0, uri))
    } else {
        spec_match_uri(links.drop_first(), server, uri)
    }
}

fn lookup_prop<'a>(props: &'a Vec<(String, String)>, key: &str) -> (r: Option<&'a String>)
    ensures
        r is Some <==> spec_lookup(spec_props(props@), key@) is Some,
        r matches Some(v) ==> spec_lookup(spec_props(props@), key@) == Some(v@),
{
    let ghost full = spec_props(props@);
    let n = props.len();
    let mut i: usize = 0;
    proof {
        assert(full.skip(0) =~= full);
    }
    while i < n
        invariant
            n == props@.len(),
            full == spec_props(props@),
            full.len() == n,
            i <= n,
            spec_lookup(full, key@) == spec_lookup(full.skip(i as int), key@),
        decreases n - i,
    {
        proof {
            assert(full.skip(i as int)[0] == full[i as int]);
            assert(full.skip(i as int).drop_first() =~= full.skip(i + 1));
        }
        if str_eq(props[i].0.as_str(), key) {
            return Some(&props[i].1);
        }
        i += 1;
    }
    None
}

fn substitute(template: &str, aturi: &AtUri) -> (r: String)
    ensures
        r@ == spec_substitute(template@, aturi@),
{
    proof {
        reveal_strlit("{authority}");
        reveal_strlit("{collection}");
        reveal_strlit("{rkey}");
    }
    let mut result = replace_all(template, "{authority}", aturi.authority.as_str());
    if let Some(c) = &aturi.collection {
        result = replace_all(result.as_str(), "{collection}", c.as_str());
    }
    if let Some(k) = &aturi.rkey {
        result = replace_all(result.as_str(), "{rkey}", k.as_str());
    }
    result
}

fn link_matches(link: &Link, prefix: &str, server: &str, aturi: &AtUri) -> (r: bool)
    requires
        prefix@ == spec_host_prefix(server@),
    ensures
        r == (spec_is_candidate(link@, server@) && spec_filters_pass(link@, aturi@)),
{
    if !str_eq(link.rel.as_str(), "https://hopper.at/rel/link") {
        return false;
    }
    let t = match &link.template {
        Some(t) => t,
        None => {
            return false;
        },
    };
    if !str_starts_with(t.as_str(), prefix) {
        return false;
    }
    match lookup_prop(&link.properties, "https://atproto.com/ns/authority") {
        Some(v) => {
            if !str_eq(aturi.authority.as_str(), v.as_str()) {
                return false;
            }
        },
        None => {},
    }
    match lookup_prop(&link.properties, "https://atproto.com/ns/collection") {
        Some(v) => {
            match &aturi.collection {
                Some(c) => {
                    if !str_eq(c.as_str(), v.as_str()) {
                        return false;
                    }
                },
                None => {
                    return false;
                },
            }
        },
        None => {},
    }
    match lookup_prop(&link.properties, "https://atproto.com/ns/rkey") {
        Some(v) => {
            match &aturi.rkey {
                Some(k) => {
                    if !str_eq(k.as_str(), v.as_str()) {
                        return false;
                    }
                },
                None => {
                    return false;
                },
            }
        },
        None => {},
    }
    true
}

impl Link {
    /// A destination link with the given template and an optional
    /// collection filter, as a host would publish it.
    pub fn new(template: &str, collection: Option<&str>) -> (r: Link)
        ensures
            r@.rel == spec_rel_link(),
            r@.template == Some(template@),
            collection matches Some(c) ==> r@.properties =~= seq![(spec_ns_collection(), c@)],
            collection is None ==> r@.properties =~= Seq::<(Seq<char>, Seq<char>)>::empty(),
    {
        let properties: Vec<(String, String)> = match collection {
            Some(c) => {
                let mut v: Vec<(String, String)> = Vec::new();
                v.push((to_string(ns_collection()), to_string(c)));
                v
            },
            None => Vec::new(),
        };
        Link { rel: to_string(rel_link()), template: Some(to_string(template)), properties }
    }
}

impl WebHostMeta {
    /// A document with the given links and no host-level properties.
    pub fn new(links: Vec<Link>) -> (r: WebHostMeta)
        ensures
            r@.links == links@.map_values(|l: Link| l@),
            r@.properties =~= Seq::<(Seq<char>, Seq<char>)>::empty(),
    {
        WebHostMeta { properties: Vec::new(), links }
    }

    /// The destination URL for `aturi` on `server`, per
    /// `spec_match_uri`: first matching link wins, or `None` when no
    /// link of this document matches.
    pub fn match_uri(&self, server: &str, aturi: &AtUri) -> (r: Option<String>)
        ensures
            r.deep_view() == spec_match_uri(self@.links, server@, aturi@),
    {
        let mut prefix = to_string("https://");
        prefix.append(server);
        prefix.append("/");
        proof {
            assert(prefix@ == spec_host_prefix(server@));
        }
        let ghost all = self@.links;
        let n = self.links.len();
        let mut i: usize = 0;
        proof {
            assert(all.skip(0) =~= all);
        }
        while i < n
            invariant
                n == self.links@.len(),
                all == self@.links,
                all.len() == n,
                i <= n,
                prefix@ == spec_host_prefix(server@),
                spec_match_uri(all, server@, aturi@) == spec_match_uri(
                    all.skip(i as int),
                    server@,
                    aturi@,
                ),
            decreases n - i,
        {
            proof {
                assert(all.skip(i as int)[0] == all[i as int]);
                assert(all.skip(i as int).drop_first() =~= all.skip(i + 1));
            }
            let link = &self.links[i];
            proof {
                assert(link@ == all[i as int]);
            }
            if link_matches(link, prefix.as_str(), server, aturi) {
                let t = match &link.template {
                    Some(t) => t,
                    None => {
                        proof {
                            assert(false);
                        }
                        return None;
                    },
                };
                let result = substitute(t.as_str(), aturi);
                return Some(result);
            }
            i += 1;
        }
        None
    }
}

/// Matching is order-sensitive and first-match-wins: whenever the
/// first link of a document is a candidate whose filters pass, the
/// result is that link's substitution, whatever the later links say.
pub proof fn lemma_first_match_wins(links: Seq<LinkView>, server: Seq<char>, uri: AtUriView)
    requires
        links.len() >= 1,
        spec_is_candidate(links[0], server),
        spec_filters_pass(links[0], uri),
    ensures
        spec_match_uri(links, server, uri) == Some(spec_substitute(links[0].template->0, uri)),
{
}

/// A link with no properties at all constrains nothing: its filters
/// pass for every locator.
pub proof fn lemma_no_filters_matches_all(link: LinkView, uri: AtUriView)
    requires
        link.properties.len() == 0,
    ensures
        spec_filters_pass(link, uri),
{
}

/// A link that requires a record key matches only locators whose
/// record key equals that value exactly; any other or absent record
/// key falls through.
pub proof fn lemma_rkey_filter(link: LinkView, uri: AtUriView, pinned: Seq<char>)
    requires
        spec_lookup(link.properties, spec_ns_rkey()) == Some(pinned),
    ensures
        spec_filters_pass(link, uri) ==> uri.rkey == Some(pinned),
{
}

} // verus!
