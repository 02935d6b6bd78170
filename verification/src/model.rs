//! AT-URI grammar: parsed locators and the validators for their
//! authority, hostname and NSID components. All functions are pure and
//! total; malformed input yields `false` or `None`, never a panic.

use vstd::prelude::*;
use crate::strutil::{
    lemma_split_len, spec_ends_with, spec_split, spec_starts_with, spec_trim, split_char,
    str_contains_char, str_ends_with, strip_prefix, trim,
};

verus! {

/// A parsed AT-URI, `at://AUTHORITY[/COLLECTION[/RKEY]]`.
#[derive(Debug, Clone, PartialEq, Eq)]
pub struct AtUri {
    /// The AUTHORITY component (handle or DID).
    pub authority: String,
    /// The COLLECTION component (an NSID), if present.
    pub collection: Option<String>,
    /// The RKEY component (record key), if present.
    pub rkey: Option<String>,
}

/// The mathematical shape of an `AtUri`: its components as character
/// sequences.
#[verifier::ext_equal]
pub struct AtUriView {
    pub authority: Seq<char>,
    pub collection: Option<Seq<char>>,
    pub rkey: Option<Seq<char>>,
}

impl View for AtUri {
    type V = AtUriView;

    open spec fn view(&self) -> AtUriView {
        AtUriView {
            authority: self.authority@,
            collection: match self.collection {
                Some(ref c) => Some(c@),
                None => None,
            },
            rkey: match self.rkey {
                Some(ref k) => Some(k@),
                None => None,
            },
        }
    }
}

impl DeepView for AtUri {
    type V = AtUriView;

    open spec fn deep_view(&self) -> AtUriView {
        self.view()
    }
}

/// The characters a hostname or NSID may contain.
pub open spec fn spec_valid_char(c: char) -> bool {
    ||| ('a' <= c && c <= 'z')
    ||| ('A' <= c && c <= 'Z')
    ||| ('0' <= c && c <= '9')
    ||| c == '-'
    ||| c == '.'
}

pub open spec fn spec_all_valid_chars(s: Seq<char>) -> bool {
    forall|i: int| 0 <= i < s.len() ==> spec_valid_char(s[i])
}

/// A dot-separated label: non-empty, at most 63 characters, and
/// neither starting nor ending with a hyphen.
pub open spec fn spec_valid_label(l: Seq<char>) -> bool {
    1 <= l.len() <= 63 && l[0] != '-' && l[l.len() - 1] != '-'
}

pub open spec fn spec_valid_labels(s: Seq<char>) -> bool {
    forall|k: int|
        0 <= k < spec_split(s, '.').len() ==> spec_valid_label(#[trigger] spec_split(s, '.')[k])
}

/// Private or reserved top-level domains that can never be publicly
/// resolvable hosts.
pub open spec fn spec_reserved_suffix(s: Seq<char>) -> bool {
    ||| spec_ends_with(s, ".localhost"@)
    ||| spec_ends_with(s, ".internal"@)
    ||| spec_ends_with(s, ".arpa"@)
    ||| spec_ends_with(s, ".local"@)
}

/// A syntactically valid public hostname.
pub open spec fn spec_valid_hostname(s: Seq<char>) -> bool {
    &&& !spec_reserved_suffix(s)
    &&& spec_all_valid_chars(s)
    &&& spec_valid_labels(s)
    &&& 1 <= s.len() <= 253
}

/// A syntactically valid NSID: hostname charset and label rules, with
/// at least three dot-separated labels.
pub open spec fn spec_valid_nsid(s: Seq<char>) -> bool {
    &&& spec_all_valid_chars(s)
    &&& spec_split(s, '.').len() >= 3
    &&& spec_valid_labels(s)
    &&& 1 <= s.len() <= 253
}

/// A syntactically valid AUTHORITY: a `did:web:` DID whose first
/// colon-segment is a dotted hostname, a `did:plc:` DID with exactly a
/// 24-character identifier, or a handle (a dotted hostname).
pub open spec fn spec_valid_authority(s: Seq<char>) -> bool {
    if spec_starts_with(s, "did:web:"@) {
        let parts = spec_split(s.skip("did:web:"@.len() as int), ':');
        parts.len() >= 1 && spec_valid_hostname(parts[0]) && parts[0].contains('.')
    } else if spec_starts_with(s, "did:plc:"@) {
        s.len() == "did:plc:"@.len() + 24
    } else {
        spec_valid_hostname(s) && s.contains('.')
    }
}

/// What `validate_aturi` returns: the raw string is trimmed, an
/// optional `web+` prefix is stripped, the `at://` scheme is required,
/// and the remainder splits on `/` into an authority, an optional
/// NSID, and an optional record key.
pub open spec fn spec_validate_aturi(raw: Seq<char>) -> Option<AtUriView> {
    let t0 = spec_trim(raw);
    let t1 = if spec_starts_with(t0, "web+"@) {
        t0.skip("web+"@.len() as int)
    } else {
        t0
    };
    if !spec_starts_with(t1, "at://"@) {
        None
    } else {
        let parts = spec_split(t1.skip("at://"@.len() as int), '/');
        if !spec_valid_authority(parts[0]) {
            None
        } else if parts.len() > 1 && !spec_valid_nsid(parts[1]) {
            None
        } else if parts.len() > 3 {
            None
        } else {
            Some(
                AtUriView {
                    authority: parts[0],
                    collection: if parts.len() > 1 {
                        Some(parts[1])
                    } else {
                        None
                    },
                    rkey: if parts.len() > 2 {
                        Some(parts[2])
                    } else {
                        None
                    },
                },
            )
        }
    }
}

fn is_valid_char_exec(c: char) -> (r: bool)
    ensures
        r == spec_valid_char(c),
{
    ('a' <= c && c <= 'z') || ('A' <= c && c <= 'Z') || ('0' <= c && c <= '9') || c == '-' || c
        == '.'
}

fn all_valid_chars(s: &str) -> (r: bool)
    ensures
        r == spec_all_valid_chars(s@),
{
    let len = s.unicode_len();
    let mut i: usize = 0;
    while i < len
        invariant
            len == s@.len(),
            i <= len,
            forall|j: int| 0 <= j < i ==> spec_valid_char(s@[j]),
        decreases len - i,
    {
        if !is_valid_char_exec(s.get_char(i)) {
            return false;
        }
        i += 1;
    }
    true
}

fn all_valid_labels(s: &str) -> (r: bool)
    ensures
        r == spec_valid_labels(s@),
{
    let labels = split_char(s, '.');
    let n = labels.len();
    proof {
        assert(labels.deep_view().len() == labels@.len());
    }
    let mut k: usize = 0;
    while k < n
        invariant
            n == labels@.len(),
            labels.deep_view() == spec_split(s@, '.'),
            k <= n,
            forall|j: int| 0 <= j < k ==> spec_valid_label(#[trigger] spec_split(s@, '.')[j]),
        decreases n - k,
    {
        let lab = &labels[k];
        let ls = lab.as_str();
        proof {
            assert(ls@ == labels.deep_view()[k as int]);
        }
        let llen = ls.unicode_len();
        if llen == 0 || llen > 63 {
            return false;
        }
        if ls.get_char(0) == '-' || ls.get_char(llen - 1) == '-' {
            return false;
        }
        k += 1;
    }
    true
}

/// True exactly when `hostname` is a syntactically valid public
/// hostname: allowed charset, valid dot-separated labels, length at
/// most 253, and not under a private or reserved top-level domain.
pub fn is_valid_hostname(hostname: &str) -> (r: bool)
    ensures
        r == spec_valid_hostname(hostname@),
{
    if str_ends_with(hostname, ".localhost") || str_ends_with(hostname, ".internal")
        || str_ends_with(hostname, ".arpa") || str_ends_with(hostname, ".local") {
        return false;
    }
    let len = hostname.unicode_len();
    if len == 0 || len > 253 {
        return false;
    }
    if !all_valid_chars(hostname) {
        return false;
    }
    all_valid_labels(hostname)
}

/// True exactly when `nsid` is a syntactically valid NSID: hostname
/// charset and label rules with at least three dot-separated labels.
pub fn is_valid_nsid(nsid: &str) -> (r: bool)
    ensures
        r == spec_valid_nsid(nsid@),
{
    let len = nsid.unicode_len();
    if len == 0 || len > 253 {
        return false;
    }
    if !all_valid_chars(nsid) {
        return false;
    }
    let labels = split_char(nsid, '.');
    proof {
        assert(labels.deep_view().len() == labels@.len());
    }
    if labels.len() < 3 {
        return false;
    }
    all_valid_labels(nsid)
}

/// True exactly when `authority` is a syntactically valid AT-URI
/// authority: a handle, a `did:plc:` DID, or a `did:web:` DID.
pub fn is_valid_authority(authority: &str) -> (r: bool)
    ensures
        r == spec_valid_authority(authority@),
{
    if let Some(rest) = strip_prefix(authority, "did:web:") {
        let parts = split_char(rest, ':');
        proof {
            assert(parts.deep_view().len() == parts@.len());
        }
        if parts.len() == 0 {
            return false;
        }
        let first = parts[0].as_str();
        proof {
            assert(first@ == spec_split(authority@.skip("did:web:"@.len() as int), ':')[0]);
        }
        is_valid_hostname(first) && str_contains_char(first, '.')
    } else if let Some(rest) = strip_prefix(authority, "did:plc:") {
        rest.unicode_len() == 24
    } else {
        is_valid_hostname(authority) && str_contains_char(authority, '.')
    }
}

/// Parses and validates a raw AT-URI. Returns the structured locator
/// exactly when the grammar accepts the input, and `None` otherwise;
/// the result is a function of the input string alone.
pub fn validate_aturi(aturi: &str) -> (r: Option<AtUri>)
    ensures
        r.deep_view() == spec_validate_aturi(aturi@),
{
    let t0 = trim(aturi);
    let t1 = match strip_prefix(t0, "web+") {
        Some(x) => x,
        None => t0,
    };
    let stripped = match strip_prefix(t1, "at://") {
        Some(x) => x,
        None => {
            return None;
        },
    };
    let parts = split_char(stripped, '/');
    proof {
        lemma_split_len(stripped@, '/');
        assert(parts.deep_view().len() == parts@.len());
    }
    if !is_valid_authority(parts[0].as_str()) {
        return None;
    }
    if parts.len() > 1 && !is_valid_nsid(parts[1].as_str()) {
        return None;
    }
    if parts.len() > 3 {
        return None;
    }
    let authority = parts[0].clone();
    let collection = if parts.len() > 1 {
        Some(parts[1].clone())
    } else {
        None
    };
    let rkey = if parts.len() > 2 {
        Some(parts[2].clone())
    } else {
        None
    };
    let r = Some(AtUri { authority, collection, rkey });
    proof {
        assert(r.deep_view() =~= spec_validate_aturi(aturi@));
    }
    r
}

/// Validation is deterministic: equal raw strings validate to equal
/// results, with no hidden state.
pub proof fn lemma_validate_aturi_deterministic(a: Seq<char>, b: Seq<char>)
    requires
        a == b,
    ensures
        spec_validate_aturi(a) == spec_validate_aturi(b),
{
}

/// A validated locator never carries a record key without a
/// collection: the record key is the third path segment.
pub proof fn lemma_validated_rkey_has_collection(raw: Seq<char>)
    ensures
        spec_validate_aturi(raw) matches Some(u) ==> (u.rkey is Some ==> u.collection is Some),
{
}

} // verus!
