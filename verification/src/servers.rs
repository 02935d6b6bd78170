//! The server preference list: user-supplied hostnames, trimmed and
//! with empties dropped, followed by the fixed default fallback hosts,
//! the whole de-duplicated keeping first occurrences. The list defines
//! both fallback priority and part of the resolution cache key.

use vstd::prelude::*;
use crate::ordered::{order_set_elems, order_set_insert, order_set_new, order_set_to_vec};
use crate::strutil::{spec_split, spec_trim, split_char, to_string, trim};

verus! {

/// The fixed default fallback hosts, in priority order.
pub open spec fn spec_default_servers() -> Seq<Seq<char>> {
    seq!["smokesignal.events"@, "frontpage.fyi"@, "whtwnd.com"@, "bsky.app"@]
}

/// `s` with every repetition of an earlier element dropped.
pub open spec fn spec_dedup(s: Seq<Seq<char>>) -> Seq<Seq<char>>
    decreases s.len(),
{
    if s.len() == 0 {
        Seq::<Seq<char>>::empty()
    } else {
        let d = spec_dedup(s.drop_last());
        if d.contains(s.last()) {
            d
        } else {
            d.push(s.last())
        }
    }
}

/// Each part trimmed, empties dropped, order kept.
pub open spec fn spec_clean_parts(parts: Seq<Seq<char>>) -> Seq<Seq<char>>
    decreases parts.len(),
{
    if parts.len() == 0 {
        Seq::<Seq<char>>::empty()
    } else {
        let rest = spec_clean_parts(parts.drop_last());
        let t = spec_trim(parts.last());
        if t.len() > 0 {
            rest.push(t)
        } else {
            rest
        }
    }
}

/// The hostnames a user's comma-separated preference string names, in
/// order, trimmed, with empties dropped.
pub open spec fn spec_user_servers(value: Seq<char>) -> Seq<Seq<char>> {
    spec_clean_parts(spec_split(value, ','))
}

/// What `parse_servers` returns: the user's hostnames followed by the
/// default fallback hosts, de-duplicated keeping first occurrences.
pub open spec fn spec_parse_servers(value: Seq<char>) -> Seq<Seq<char>> {
    spec_dedup(spec_user_servers(value) + spec_default_servers())
}

/// De-duplication keeps exactly the elements of its input.
pub proof fn lemma_dedup_contains(s: Seq<Seq<char>>, x: Seq<char>)
    ensures
        spec_dedup(s).contains(x) <==> s.contains(x),
    decreases s.len(),
{
    if s.len() > 0 {
        lemma_dedup_contains(s.drop_last(), x);
        let d = spec_dedup(s.drop_last());
        let t = s.last();
        assert(s.contains(x) <==> (s.drop_last().contains(x) || x == t)) by {
            if s.contains(x) {
                let i = choose|i: int| 0 <= i < s.len() && s[i] == x;
                if i < s.len() - 1 {
                    assert(s.drop_last()[i] == x);
                }
            }
            if s.drop_last().contains(x) {
                let i = choose|i: int|
                    0 <= i < s.drop_last().len() && s.drop_last()[i] == x;
                assert(s[i] == x);
            }
            if x == t {
                assert(s[s.len() - 1] == x);
            }
        }
        if d.contains(t) {
            assert(spec_dedup(s) == d);
        } else {
            assert(spec_dedup(s) == d.push(t));
            assert(d.push(t).contains(x) <==> (d.contains(x) || x == t)) by {
                if d.contains(x) {
                    let i = choose|i: int| 0 <= i < d.len() && d[i] == x;
                    assert(d.push(t)[i] == x);
                }
                if x == t {
                    assert(d.push(t)[d.len() as int] == x);
                }
                if d.push(t).contains(x) {
                    let i = choose|i: int| 0 <= i < d.push(t).len() && d.push(t)[i] == x;
                    if i < d.len() {
                        assert(d[i] == x);
                    }
                }
            }
        }
    }
}

/// A de-duplicated list holds no element twice: the server list is an
/// ordered sequence of hostnames without duplicates.
pub proof fn lemma_dedup_distinct(s: Seq<Seq<char>>)
    ensures
        forall|i: int, j: int|
            0 <= i < j < spec_dedup(s).len() ==> spec_dedup(s)[i] != spec_dedup(s)[j],
    decreases s.len(),
{
    if s.len() > 0 {
        lemma_dedup_distinct(s.drop_last());
        let d = spec_dedup(s.drop_last());
        if !d.contains(s.last()) {
            assert forall|i: int, j: int|
                0 <= i < j < spec_dedup(s).len() implies spec_dedup(s)[i] != spec_dedup(s)[j] by {
                if j < spec_dedup(s).len() - 1 {
                    assert(spec_dedup(s)[i] == d[i] && spec_dedup(s)[j] == d[j]);
                } else {
                    assert(spec_dedup(s)[j] == s.last());
                    assert(spec_dedup(s)[i] == d[i]);
                    assert(d.contains(d[i]));
                }
            }
        }
    }
}

/// Builds the server list from the user's comma-separated preference
/// string: the user's hostnames in the order given, trimmed and with
/// empties dropped, then the default fallback hosts, all de-duplicated
/// keeping first occurrences.
pub fn parse_servers(value: &str) -> (r: Vec<String>)
    ensures
        r.deep_view() == spec_parse_servers(value@),
{
    let parts = split_char(value, ',');
    let ghost all_parts = spec_split(value@, ',');
    let mut set = order_set_new();
    let n = parts.len();
    proof {
        assert(parts.deep_view().len() == parts@.len());
        assert(all_parts.take(0) =~= Seq::<Seq<char>>::empty());
    }
    let mut i: usize = 0;
    while i < n
        invariant
            n == parts@.len(),
            parts.deep_view() == all_parts,
            all_parts.len() == n,
            i <= n,
            order_set_elems(set) == spec_dedup(spec_clean_parts(all_parts.take(i as int))),
        decreases n - i,
    {
        let t = trim(parts[i].as_str());
        proof {
            assert(all_parts.take(i + 1).drop_last() =~= all_parts.take(i as int));
            assert(all_parts.take(i + 1).last() == all_parts[i as int]);
        }
        if t.unicode_len() > 0 {
            order_set_insert(&mut set, to_string(t));
            proof {
                let cleaned = spec_clean_parts(all_parts.take(i + 1));
                assert(cleaned =~= spec_clean_parts(all_parts.take(i as int)).push(t@));
                assert(cleaned.drop_last() =~= spec_clean_parts(all_parts.take(i as int)));
            }
        }
        i += 1;
    }
    proof {
        assert(all_parts.take(n as int) =~= all_parts);
    }
    let ghost user = spec_user_servers(value@);
    proof {
        assert((user + spec_default_servers().take(0)) =~= user);
    }
    insert_default(&mut set, "smokesignal.events", Ghost(user), Ghost(0));
    insert_default(&mut set, "frontpage.fyi", Ghost(user), Ghost(1));
    insert_default(&mut set, "whtwnd.com", Ghost(user), Ghost(2));
    insert_default(&mut set, "bsky.app", Ghost(user), Ghost(3));
    proof {
        assert((user + spec_default_servers().take(4)) =~= (user + spec_default_servers()));
    }
    order_set_to_vec(set)
}

fn insert_default(
    set: &mut ordermap::OrderSet<String>,
    host: &str,
    Ghost(user): Ghost<Seq<Seq<char>>>,
    Ghost(k): Ghost<int>,
)
    requires
        0 <= k < spec_default_servers().len(),
        host@ == spec_default_servers()[k],
        order_set_elems(*old(set)) == spec_dedup(user + spec_default_servers().take(k)),
    ensures
        order_set_elems(*final(set)) == spec_dedup(user + spec_default_servers().take(k + 1)),
{
    proof {
        assert((user + spec_default_servers().take(k + 1)).drop_last() =~= (user
            + spec_default_servers().take(k)));
        assert((user + spec_default_servers().take(k + 1)).last() == spec_default_servers()[k]);
    }
    order_set_insert(set, to_string(host));
}

} // verus!
