//! Cache entry types for the two resolution caches, and the key that
//! combines a raw AT-URI with its server list. The caches themselves —
//! shared, TTL-evicting, coalescing concurrent lookups per key — live
//! with the process runtime outside this library; what is stored and
//! under which key is decided here.

use vstd::prelude::*;
use crate::strutil::{lemma_split_append_sep, lemma_split_whole, spec_split};
use crate::webhostmeta::WebHostMeta;

verus! {

/// What the per-host metadata cache stores for a hostname. A fetch
/// that failed and a document that is absent are cached alike: the
/// fallback loop treats both as "try the next host".
#[derive(Clone, Debug, PartialEq, Eq)]
pub enum ResolveWebHostMetaResult {
    /// The host published a metadata document.
    Found(WebHostMeta),
    /// The host answered, but has no metadata document.
    NotFound,
    /// The fetch failed: network error, timeout, or a malformed body.
    FetchError,
}

/// Why a syntactically valid locator resolved to nothing.
#[derive(Clone, Copy, Debug, PartialEq, Eq, Structural)]
pub enum UnresolvedReason {
    /// Every host in the server list was consulted without a match.
    NoDestination,
}

/// What the resolution cache stores for a `(raw AT-URI, server list)`
/// key: negative outcomes are cached too, so an immediate retry does
/// no further network work.
#[derive(Clone, Debug, PartialEq, Eq)]
pub enum ResolveAtUriResult {
    /// The destination URL the first matching host produced.
    Resolved(String),
    /// No listed host produced a match.
    Unresolved(UnresolvedReason),
}

/// `parts` joined with `sep` between consecutive parts.
pub open spec fn spec_join(parts: Seq<Seq<char>>, sep: char) -> Seq<char>
    decreases parts.len(),
{
    if parts.len() == 0 {
        Seq::<char>::empty()
    } else if parts.len() == 1 {
        parts[0]
    } else {
        spec_join(parts.drop_last(), sep) + seq![sep] + parts.last()
    }
}

/// The resolution cache key: the server list joined with commas, a
/// newline, then the raw AT-URI. Hostnames contain neither commas nor
/// newlines, so distinct requests get distinct keys.
pub open spec fn spec_resolution_key(raw: Seq<char>, servers: Seq<Seq<char>>) -> Seq<char> {
    spec_join(servers, ',') + "\n"@ + raw
}

/// Computes the resolution cache key for a raw AT-URI and its server
/// list.
pub fn resolution_key(raw: &str, servers: &Vec<String>) -> (k: String)
    ensures
        k@ == spec_resolution_key(raw@, servers.deep_view()),
{
    let ghost all = servers.deep_view();
    let n = servers.len();
    proof {
        assert(all.len() == n);
    }
    let mut out = String::new();
    let mut i: usize = 0;
    proof {
        assert(out@ =~= spec_join(all.take(0), ','));
    }
    while i < n
        invariant
            n == servers@.len(),
            all == servers.deep_view(),
            all.len() == n,
            i <= n,
            out@ == spec_join(all.take(i as int), ','),
        decreases n - i,
    {
        proof {
            assert(all.take(i + 1).drop_last() =~= all.take(i as int));
            assert(all.take(i + 1).last() == all[i as int]);
        }
        if i > 0 {
            out.append(",");
            proof {
                reveal_strlit(",");
                assert(","@ =~= seq![',']);
            }
        }
        out.append(servers[i].as_str());
        proof {
            if i == 0 {
                assert(out@ =~= spec_join(all.take(1), ','));
            }
        }
        i += 1;
    }
    proof {
        assert(all.take(n as int) =~= all);
    }
    out.append("\n");
    out.append(raw);
    out
}

/// Joining keeps out any character that no part contains and that is
/// not the separator.
proof fn lemma_join_char_free(parts: Seq<Seq<char>>, sep: char, c: char)
    requires
        c != sep,
        forall|k: int, i: int|
            0 <= k < parts.len() && 0 <= i < parts[k].len() ==> #[trigger] parts[k][i] != c,
    ensures
        forall|i: int|
            0 <= i < spec_join(parts, sep).len() ==> #[trigger] spec_join(parts, sep)[i] != c,
    decreases parts.len(),
{
    if parts.len() > 1 {
        lemma_join_char_free(parts.drop_last(), sep, c);
        let u = spec_join(parts.drop_last(), sep);
        let t = parts.last();
        assert(spec_join(parts, sep) == u + seq![sep] + t);
        assert forall|i: int|
            0 <= i < spec_join(parts, sep).len() implies #[trigger] spec_join(parts, sep)[i]
            != c by {
            if i < u.len() {
                assert(spec_join(parts, sep)[i] == u[i]);
            } else if i == u.len() {
                assert(spec_join(parts, sep)[i] == sep);
            } else {
                assert(spec_join(parts, sep)[i] == t[i - u.len() - 1]);
                assert(parts[parts.len() - 1][i - u.len() - 1] != c);
            }
        }
    }
}

/// Splitting undoes joining when no part contains the separator.
proof fn lemma_split_join(parts: Seq<Seq<char>>, sep: char)
    requires
        parts.len() >= 1,
        forall|k: int, i: int|
            0 <= k < parts.len() && 0 <= i < parts[k].len() ==> #[trigger] parts[k][i] != sep,
    ensures
        spec_split(spec_join(parts, sep), sep) == parts,
    decreases parts.len(),
{
    if parts.len() == 1 {
        assert(forall|i: int| 0 <= i < parts[0].len() ==> #[trigger] parts[0][i] != sep);
        lemma_split_whole(parts[0], sep);
        assert(seq![parts[0]] =~= parts);
    } else {
        lemma_split_join(parts.drop_last(), sep);
        assert(forall|i: int|
            0 <= i < parts.last().len() ==> #[trigger] parts.last()[i] != sep) by {
            assert(forall|i: int|
                0 <= i < parts[parts.len() - 1].len() ==> #[trigger] parts[parts.len() - 1][i]
                    != sep);
        }
        lemma_split_append_sep(spec_join(parts.drop_last(), sep), parts.last(), sep);
        assert(parts.drop_last().push(parts.last()) =~= parts);
    }
}

/// Two requests share a resolution key only when they are the same
/// request, provided every server name is free of commas and newlines,
/// as every valid hostname is. Coalescing work per cache key therefore
/// merges only identical resolutions.
pub proof fn lemma_resolution_key_injective(
    raw1: Seq<char>,
    servers1: Seq<Seq<char>>,
    raw2: Seq<char>,
    servers2: Seq<Seq<char>>,
)
    requires
        servers1.len() >= 1,
        servers2.len() >= 1,
        forall|k: int, i: int|
            0 <= k < servers1.len() && 0 <= i < servers1[k].len() ==> (#[trigger] servers1[k][i]
                != ',' && servers1[k][i] != '\n'),
        forall|k: int, i: int|
            0 <= k < servers2.len() && 0 <= i < servers2[k].len() ==> (#[trigger] servers2[k][i]
                != ',' && servers2[k][i] != '\n'),
        spec_resolution_key(raw1, servers1) == spec_resolution_key(raw2, servers2),
    ensures
        raw1 == raw2,
        servers1 == servers2,
{
    reveal_strlit("\n");
    assert("\n"@ =~= seq!['\n']);
    let j1 = spec_join(servers1, ',');
    let j2 = spec_join(servers2, ',');
    lemma_join_char_free(servers1, ',', '\n');
    lemma_join_char_free(servers2, ',', '\n');
    let key = spec_resolution_key(raw1, servers1);
    assert(key[j1.len() as int] == '\n');
    assert(key[j2.len() as int] == '\n');
    if j1.len() < j2.len() {
        assert(key[j1.len() as int] == j2[j1.len() as int]);
        assert(false);
    }
    if j2.len() < j1.len() {
        assert(key[j2.len() as int] == j1[j2.len() as int]);
        assert(false);
    }
    assert(j1 =~= j2) by {
        assert(forall|i: int| 0 <= i < j1.len() ==> key[i] == #[trigger] j1[i]);
        assert(forall|i: int| 0 <= i < j2.len() ==> key[i] == #[trigger] j2[i]);
    }
    assert(raw1 =~= raw2) by {
        assert(key.len() == j1.len() + 1 + raw1.len());
        assert(key.len() == j2.len() + 1 + raw2.len());
        assert(forall|i: int|
            0 <= i < raw1.len() ==> #[trigger] raw1[i] == key[j1.len() + 1 + i]);
        assert(forall|i: int|
            0 <= i < raw2.len() ==> #[trigger] raw2[i] == key[j2.len() + 1 + i]);
    }
    lemma_split_join(servers1, ',');
    lemma_split_join(servers2, ',');
}

} // verus!
