//! The per-(pool, member) polling cycle: startup jitter, the probe target
//! strings a cycle uses, and the decisions that drive one cycle — what to
//! do after resolution, and how a completed cycle updates the shared
//! table and observes cooperative cancellation.
//!
//! The long-lived loop itself sleeps and performs network calls, which
//! happen at the edge of the program; each cycle hands its observations
//! to the functions here as plain values.

use crate::digits::dec_digits;
use crate::digits::dec_u16;
use crate::ip::IpV4;
use crate::resolve::ResolveError;
use crate::table::HealthTable;
use crate::table::PoolView;
use crate::table::check_cancel_spec;
use crate::table::clear_cancel_at;
use crate::table::find_member;
use crate::table::find_pool;
use crate::table::lemma_find_member;
use crate::table::lemma_find_member_same_hosts;
use crate::table::lemma_find_pool;
use crate::table::lemma_find_pool_same_names;
use crate::table::reload_spec;
use crate::table::set_health_spec;
use crate::table::with_health;
use rand::Rng;
use vstd::prelude::*;
use vstd::string::StringExecFns;

verus! {

/// The one-time random startup backoff of a poller, uniform over
/// `0..=interval` seconds, staggering initial probe traffic across the
/// members sharing an interval.
///
/// Relies on rand's `thread_rng` and `Rng::gen_range`: a sample of the
/// inclusive range `0..=interval` lies within that range.  Nothing more
/// is assumed of the random value.
#[verifier::external_body]
pub fn startup_jitter(interval: u16) -> (r: u16)
    ensures
        r <= interval,
{
    rand::thread_rng().gen_range(0..=interval)
}

/// The `host:port` string a cycle resolves, and a TCP probe connects to.
pub open spec fn socket_string_spec(host: Seq<char>, port: u16) -> Seq<char> {
    host + seq![':'] + dec_digits(port as nat)
}

/// Render the `host:port` probe target.
pub fn socket_string(host: &String, port: u16) -> (r: String)
    ensures
        r@ == socket_string_spec(host@, port),
{
    let mut s = host.clone();
    s.append(":");
    let p = dec_u16(port);
    s.append(p.as_str());
    proof {
        reveal_strlit(":");
        assert(s@ =~= socket_string_spec(host@, port));
    }
    s
}

/// The URL one HTTP probe requests: `scheme://host:port` followed by the
/// configured send path, with the `https` scheme exactly when HTTPS is
/// enabled.
pub open spec fn probe_url_spec(https: bool, host: Seq<char>, port: u16, send: Seq<char>) -> Seq<
    char,
> {
    (if https {
        "https://"@
    } else {
        "http://"@
    }) + host + seq![':'] + dec_digits(port as nat) + send
}

/// Render the URL of one HTTP probe.
pub fn probe_url(https: bool, host: &String, port: u16, send: &String) -> (r: String)
    ensures
        r@ == probe_url_spec(https, host@, port, send@),
{
    let mut s = if https {
        String::from_str("https://")
    } else {
        String::from_str("http://")
    };
    s.append(host.as_str());
    s.append(":");
    let p = dec_u16(port);
    s.append(p.as_str());
    s.append(send.as_str());
    proof {
        reveal_strlit(":");
        assert(s@ =~= probe_url_spec(https, host@, port, send@));
    }
    s
}

/// What a poller does after its per-cycle resolution: probe the freshly
/// resolved address, or skip straight to the sleep when resolution
/// failed — a resolution failure never crashes the poller.
#[derive(Clone, Copy, PartialEq, Eq, Structural, Debug)]
pub enum CycleAction {
    Probe(IpV4),
    SkipProbe,
}

/// Decide what to do with this cycle's resolution outcome.
pub fn plan_cycle(resolution: &Result<IpV4, ResolveError>) -> (a: CycleAction)
    ensures
        a == (match resolution {
            Ok(ip) => CycleAction::Probe(*ip),
            Err(_) => CycleAction::SkipProbe,
        }),
{
    match resolution {
        Ok(ip) => CycleAction::Probe(*ip),
        Err(_) => CycleAction::SkipProbe,
    }
}

/// Whether the poller keeps running after a completed cycle.
#[derive(Clone, Copy, PartialEq, Eq, Structural, Debug)]
pub enum PollerVerdict {
    Continue,
    Stop,
}

/// Finish one completed probe cycle: write the verdict and the freshly
/// resolved address into the table entry for `(pool_name, host)`, then
/// make the once-per-cycle cancellation check.  The poller stops exactly
/// when the member's `cancel` flag was set, and clears it in the same
/// table operation.
pub fn finish_cycle(
    table: &mut HealthTable,
    pool_name: &String,
    host: &String,
    addr: IpV4,
    healthy: bool,
) -> (v: PollerVerdict)
    ensures
        final(table)@ == check_cancel_spec(
            set_health_spec(old(table)@, pool_name@, host@, addr, healthy),
            pool_name@,
            host@,
        ).0,
        v == (if check_cancel_spec(
            set_health_spec(old(table)@, pool_name@, host@, addr, healthy),
            pool_name@,
            host@,
        ).1 {
            PollerVerdict::Stop
        } else {
            PollerVerdict::Continue
        }),
        old(table).wf() ==> final(table).wf(),
{
    table.set_health(pool_name, host, addr, healthy);
    let cancelled = table.check_cancel(pool_name, host);
    if cancelled {
        PollerVerdict::Stop
    } else {
        PollerVerdict::Continue
    }
}

/// Cooperative cancellation is observed within one cycle: when the first
/// member of pool `name` hosted at `host` has its `cancel` flag set, the
/// very next completed cycle for `(name, host)` stops its poller, and
/// clears the flag as an observable side effect.
pub proof fn lemma_cancel_observed(
    t: Seq<PoolView>,
    name: Seq<char>,
    host: Seq<char>,
    addr: IpV4,
    healthy: bool,
)
    requires
        match find_pool(t, name) {
            Some(i) => match find_member(t[i].members, host) {
                Some(k) => t[i].members[k].cancel,
                None => false,
            },
            None => false,
        },
    ensures
        check_cancel_spec(set_health_spec(t, name, host, addr, healthy), name, host).1,
        match find_pool(t, name) {
            Some(i) => match find_member(t[i].members, host) {
                Some(k) => {
                    let after = check_cancel_spec(
                        set_health_spec(t, name, host, addr, healthy),
                        name,
                        host,
                    ).0;
                    !after[i].members[k].cancel
                },
                None => false,
            },
            None => false,
        },
{
    lemma_find_pool(t, name);
    let i = find_pool(t, name)->Some_0;
    let k = find_member(t[i].members, host)->Some_0;
    lemma_find_member(t[i].members, host);
    let t2 = set_health_spec(t, name, host, addr, healthy);
    let ms2 = with_health(t[i].members, host, addr, healthy);
    assert(t2 == t.update(i, PoolView { name: t[i].name, members: ms2 }));
    assert forall|j: int| 0 <= j < t.len() implies #[trigger] t[j].name == t2[j].name by {}
    lemma_find_pool_same_names(t, t2, name);
    assert(find_pool(t2, name) == Some(i));
    assert forall|j: int|
        0 <= j < t[i].members.len() implies #[trigger] t[i].members[j].host == ms2[j].host by {}
    lemma_find_member_same_hosts(t[i].members, ms2, host);
    assert(find_member(t2[i].members, host) == Some(k));
    assert(ms2[k].cancel == t[i].members[k].cancel);
    assert(check_cancel_spec(t2, name, host).1);
    let after = check_cancel_spec(t2, name, host).0;
    assert(after == t2.update(
        i,
        PoolView { name: t2[i].name, members: clear_cancel_at(t2[i].members, k) },
    ));
    assert(!after[i].members[k].cancel);
}

/// The reload control operation reaches every poller: after a reload,
/// the next completed cycle of any `(pool, host)` that the table still
/// lists stops that poller.
pub proof fn lemma_reload_stops_pollers(
    t: Seq<PoolView>,
    name: Seq<char>,
    host: Seq<char>,
    addr: IpV4,
    healthy: bool,
)
    requires
        match find_pool(t, name) {
            Some(i) => find_member(t[i].members, host) is Some,
            None => false,
        },
    ensures
        check_cancel_spec(
            set_health_spec(reload_spec(t), name, host, addr, healthy),
            name,
            host,
        ).1,
{
    let t2 = reload_spec(t);
    assert forall|j: int| 0 <= j < t.len() implies #[trigger] t[j].name == t2[j].name by {}
    lemma_find_pool_same_names(t, t2, name);
    lemma_find_pool(t, name);
    let i = find_pool(t, name)->Some_0;
    assert forall|j: int|
        0 <= j < t[i].members.len() implies #[trigger] t[i].members[j].host
        == t2[i].members[j].host by {}
    lemma_find_member_same_hosts(t[i].members, t2[i].members, host);
    let k = find_member(t[i].members, host)->Some_0;
    lemma_find_member(t[i].members, host);
    assert(t2[i].members[k].cancel);
    lemma_cancel_observed(t2, name, host, addr, healthy);
}

} // verus!
