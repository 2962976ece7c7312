//! Probe verdict logic: how one TCP or HTTP probe attempt is classified
//! as healthy or unhealthy.
//!
//! The network attempt itself happens at the edge of the program; what it
//! observed is handed in as a plain value and classified here.

use vstd::prelude::*;
use vstd::string::StringSliceAdditionalSpecFns;
use vstd::utf8::encode_utf8;

verus! {

/// Which probe protocol a pool uses.
#[derive(Clone, Copy, PartialEq, Eq, Structural, Debug)]
pub enum PollType {
    HTTP,
    TCP,
}

/// The healthy-response criterion of an HTTP pool: either a set of
/// acceptable status codes, or a byte string that must occur somewhere in
/// the raw response body.
#[derive(Clone)]
pub enum HTTPReceive {
    StatusCodes(Vec<u16>),
    BodyString(String),
}

/// The HTTP-specific configuration of a pool.  `https_require_validity`
/// false (or absent) opts out of certificate validation when HTTPS is
/// enabled.
#[derive(Clone)]
pub struct HTTPOptions {
    pub https_enabled: bool,
    pub https_require_validity: Option<bool>,
    pub send: String,
    pub receive_up: HTTPReceive,
}

/// What one HTTP probe attempt observed: a transport-level failure
/// (connection refused, TLS failure, timeout), or a response with its
/// status code and — when it was read successfully — its raw body.
pub enum HttpEvent {
    TransportError,
    Response { status: u16, body: Option<Vec<u8>> },
}

/// `pat` occurs as a contiguous byte sequence somewhere in `body`.
pub open spec fn contains_bytes_spec(body: Seq<u8>, pat: Seq<u8>) -> bool {
    exists|i: int|
        0 <= i && i + pat.len() <= body.len() && #[trigger] body.subrange(i, i + pat.len()) == pat
}

/// The verdict of one TCP probe cycle: the connect attempt succeeded.
pub open spec fn tcp_verdict_spec(connected: bool) -> bool {
    connected
}

/// The verdict of one HTTP probe cycle.  A transport error is always
/// unhealthy; a response is judged by the pool's criterion: membership of
/// the status code in the configured set, or containment of the configured
/// byte string in the body (a body that could not be read is unhealthy).
pub open spec fn http_verdict_spec(receive_up: HTTPReceive, ev: HttpEvent) -> bool {
    match ev {
        HttpEvent::TransportError => false,
        HttpEvent::Response { status, body } => match receive_up {
            HTTPReceive::StatusCodes(codes) => codes@.contains(status),
            HTTPReceive::BodyString(text) => match body {
                None => false,
                Some(b) => contains_bytes_spec(b@, encode_utf8(text@)),
            },
        },
    }
}

/// Classify one TCP probe attempt: success of the connect attempt means
/// healthy, any connection error means unhealthy.
pub fn tcp_verdict(connected: bool) -> (healthy: bool)
    ensures
        healthy == tcp_verdict_spec(connected),
{
    connected
}

/// Whether `status` is one of the configured acceptable codes.
pub fn status_matches(codes: &Vec<u16>, status: u16) -> (r: bool)
    ensures
        r == codes@.contains(status),
{
    let n = codes.len();
    let mut i: usize = 0;
    while i < n
        invariant
            n == codes@.len(),
            i <= n,
            forall|j: int| 0 <= j < i ==> codes@[j] != status,
        decreases n - i,
    {
        if codes[i] == status {
            assert(codes@[i as int] == status);
            return true;
        }
        i += 1;
    }
    false
}

/// Whether `pat` starts at position `i` of `body`.
fn match_at(body: &[u8], pat: &[u8], i: usize) -> (r: bool)
    requires
        i + pat@.len() <= body@.len(),
    ensures
        r == (body@.subrange(i as int, i as int + pat@.len()) == pat@),
{
    let m = pat.len();
    let n = body.len();
    let mut k: usize = 0;
    while k < m
        invariant
            m == pat@.len(),
            n == body@.len(),
            i + m <= n,
            k <= m,
            forall|j: int| 0 <= j < k ==> body@[i + j] == pat@[j],
        decreases m - k,
    {
        if body[i + k] != pat[k] {
            proof {
                assert(body@.subrange(i as int, i as int + m as int)[k as int] == body@[i + k]);
            }
            return false;
        }
        k += 1;
    }
    proof {
        assert(body@.subrange(i as int, i as int + m as int) =~= pat@);
    }
    true
}

/// The sliding-window containment check: whether the byte string `pat`
/// occurs anywhere in `body`.  An empty `pat` is contained in every body.
pub fn contains_bytes(body: &[u8], pat: &[u8]) -> (r: bool)
    ensures
        r == contains_bytes_spec(body@, pat@),
{
    let m = pat.len();
    let n = body.len();
    if m > n {
        return false;
    }
    if m == 0 {
        proof {
            assert(body@.subrange(0, 0 + pat@.len() as int) =~= pat@);
        }
        return true;
    }
    let mut i: usize = 0;
    while i <= n - m
        invariant
            m == pat@.len(),
            n == body@.len(),
            0 < m <= n,
            i <= n - m + 1,
            forall|j: int| 0 <= j < i ==> #[trigger] body@.subrange(j, j + m) != pat@,
        decreases n - m - i + 1,
    {
        if match_at(body, pat, i) {
            assert(body@.subrange(i as int, i as int + m as int) == pat@);
            return true;
        }
        i += 1;
    }
    assert forall|j: int| 0 <= j && j + pat@.len() <= body@.len() implies #[trigger] body@.subrange(
        j,
        j + pat@.len(),
    ) != pat@ by {
        assert(j < n - m + 1);
    }
    false
}

/// Classify one HTTP probe attempt against the pool's healthy-response
/// criterion.
pub fn http_verdict(receive_up: &HTTPReceive, ev: &HttpEvent) -> (healthy: bool)
    ensures
        healthy == http_verdict_spec(*receive_up, *ev),
{
    match ev {
        HttpEvent::TransportError => false,
        HttpEvent::Response { status, body } => match receive_up {
            HTTPReceive::StatusCodes(codes) => status_matches(codes, *status),
            HTTPReceive::BodyString(text) => match body {
                None => false,
                Some(b) => {
                    let pat = text.as_str().as_bytes();
                    contains_bytes(b.as_slice(), pat)
                },
            },
        },
    }
}

} // verus!
