//! The failure taxonomy visible outside the resolution core: a raw
//! string the grammar rejects, or a server list exhausted without a
//! match. Per-host fetch failures never escape; they only move the
//! fallback loop to the next host.

use vstd::prelude::*;
use crate::strutil::to_string;

verus! {

/// Why a resolution request failed.
#[derive(Clone, Copy, Debug, PartialEq, Eq, Structural)]
pub enum HopperErrorKind {
    /// The raw input fails AT-URI grammar validation; detected before
    /// any cache or network interaction.
    InvalidAtUri,
    /// Every host in the server list was consulted without a match.
    NoDestination,
}

/// A resolution failure: its kind, and for a rejected input the
/// offending raw string.
#[derive(Clone, Debug, PartialEq, Eq)]
pub struct HopperError {
    pub kind: HopperErrorKind,
    /// The offending raw AT-URI for `InvalidAtUri`; empty otherwise.
    pub detail: String,
}

/// The human-readable description `message` returns.
pub open spec fn spec_message(e: HopperError) -> Seq<char> {
    match e.kind {
        HopperErrorKind::InvalidAtUri => "Invalid AT-URI: "@ + e.detail@,
        HopperErrorKind::NoDestination => "no destination found"@,
    }
}

impl HopperError {
    /// The failure for a raw string the grammar rejects.
    pub fn invalid_aturi(raw: &str) -> (e: HopperError)
        ensures
            e.kind == HopperErrorKind::InvalidAtUri,
            e.detail@ == raw@,
    {
        HopperError { kind: HopperErrorKind::InvalidAtUri, detail: to_string(raw) }
    }

    /// The failure for a server list exhausted without a match.
    pub fn no_destination() -> (e: HopperError)
        ensures
            e.kind == HopperErrorKind::NoDestination,
            e.detail@ == Seq::<char>::empty(),
    {
        HopperError { kind: HopperErrorKind::NoDestination, detail: String::new() }
    }

    /// A human-readable description of the failure.
    pub fn message(&self) -> (m: String)
        ensures
            m@ == spec_message(*self),
    {
        match self.kind {
            HopperErrorKind::InvalidAtUri => {
                let mut m = to_string("Invalid AT-URI: ");
                m.append(self.detail.as_str());
                m
            },
            HopperErrorKind::NoDestination => to_string("no destination found"),
        }
    }
}

} // verus!
