//! The resolver decision: from the candidate list a lookup produced,
//! select exactly one IPv4 address or signal a distinguishable failure.
//!
//! The lookup itself is network I/O at the edge of the program; it hands
//! in what it observed as plain values.  The engine stores only IPv4
//! addresses, so IPv6 candidates are discarded; a record that resolves to
//! IPv6 only is a recoverable error, never a crash.

use crate::ip::IpV4;
use crate::search::find_first;
use crate::search::lemma_find_first;
use vstd::prelude::*;

verus! {

/// Why a resolution attempt produced no usable address.
#[derive(Clone, Copy, PartialEq, Eq, Structural, Debug)]
pub enum ResolveError {
    /// The lookup itself failed.
    LookupFailed,
    /// The lookup succeeded but yielded no IPv4 candidate (for instance,
    /// an IPv6-only record).
    NoIpv4Candidate,
}

/// What one lookup attempt observed: outright failure, or the candidate
/// addresses in the order the lookup produced them, each an IPv4 address
/// or `None` for a candidate of another family.
pub enum ResolveOutcome {
    LookupFailed,
    Candidates(Vec<Option<IpV4>>),
}

/// The predicate "this candidate is an IPv4 address".
pub open spec fn v4_candidate() -> spec_fn(Option<IpV4>) -> bool {
    |c: Option<IpV4>| c is Some
}

/// The first IPv4 address among the candidates, if any.
pub open spec fn first_v4(cands: Seq<Option<IpV4>>) -> Option<IpV4> {
    match find_first(cands, v4_candidate()) {
        None => None,
        Some(i) => cands[i],
    }
}

/// What the resolver must answer for a given lookup outcome.
pub open spec fn resolve_spec(outcome: ResolveOutcome) -> Result<IpV4, ResolveError> {
    match outcome {
        ResolveOutcome::LookupFailed => Err(ResolveError::LookupFailed),
        ResolveOutcome::Candidates(cands) => match first_v4(cands@) {
            Some(ip) => Ok(ip),
            None => Err(ResolveError::NoIpv4Candidate),
        },
    }
}

/// Select the first IPv4 candidate of a lookup outcome, discarding all
/// others (IPv6 included); an outcome with no IPv4 candidate is a
/// distinguishable, recoverable error.
pub fn resolve_first_v4(outcome: &ResolveOutcome) -> (r: Result<IpV4, ResolveError>)
    ensures
        r == resolve_spec(*outcome),
{
    match outcome {
        ResolveOutcome::LookupFailed => Err(ResolveError::LookupFailed),
        ResolveOutcome::Candidates(cands) => {
            let n = cands.len();
            let mut i: usize = 0;
            while i < n
                invariant
                    *outcome == ResolveOutcome::Candidates(*cands),
                    n == cands@.len(),
                    i <= n,
                    forall|j: int| 0 <= j < i ==> !(#[trigger] cands@[j] is Some),
                decreases n - i,
            {
                match cands[i] {
                    Some(ip) => {
                        proof {
                            assert(cands@[i as int] == Some(ip));
                            lemma_find_first(cands@, v4_candidate());
                            match find_first(cands@, v4_candidate()) {
                                Some(f) => {
                                    assert(f == i as int);
                                },
                                None => {
                                    assert(false);
                                },
                            }
                        }
                        return Ok(ip);
                    },
                    None => {},
                }
                i += 1;
            }
            proof {
                lemma_find_first(cands@, v4_candidate());
            }
            Err(ResolveError::NoIpv4Candidate)
        },
    }
}

} // verus!
