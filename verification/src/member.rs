//! One probed endpoint of a pool: its hostname, last resolved address,
//! current health verdict and cooperative cancellation flag.

use crate::ip::IpV4;
use crate::resolve::ResolveError;
use vstd::prelude::*;
use vstd::string::StringExecFns;

verus! {

/// One probed endpoint.  `host` is the stable identity; `ip` and `healthy`
/// are overwritten by every completed probe cycle; `cancel` asks the
/// endpoint's poller to terminate after its in-flight cycle.
pub struct Member {
    pub host: String,
    pub ip: IpV4,
    pub healthy: bool,
    pub cancel: bool,
}

/// The mathematical value of a [`Member`].
pub struct MemberView {
    pub host: Seq<char>,
    pub ip: IpV4,
    pub healthy: bool,
    pub cancel: bool,
}

impl View for Member {
    type V = MemberView;

    open spec fn view(&self) -> MemberView {
        MemberView { host: self.host@, ip: self.ip, healthy: self.healthy, cancel: self.cancel }
    }
}

/// Two member snapshots denote the same member: identity is `(host, ip)`
/// alone, never the mutable `healthy`/`cancel` state.
pub open spec fn same_member(a: MemberView, b: MemberView) -> bool {
    a.host == b.host && a.ip == b.ip
}

impl Clone for Member {
    fn clone(&self) -> (r: Member)
        ensures
            r@ == self@,
    {
        Member { host: self.host.clone(), ip: self.ip, healthy: self.healthy, cancel: self.cancel }
    }
}

impl PartialEq for Member {
    fn eq(&self, rhs: &Member) -> (r: bool) {
        self.host == rhs.host && self.ip == rhs.ip
    }
}

impl vstd::std_specs::cmp::PartialEqSpecImpl for Member {
    open spec fn obeys_eq_spec() -> bool {
        true
    }

    open spec fn eq_spec(&self, rhs: &Member) -> bool {
        same_member(self@, rhs@)
    }
}

/// The value a freshly constructed member takes: unhealthy until its
/// first probe cycle completes, with a failed initial resolution masked by
/// the loopback address.
pub open spec fn initial_member(host: Seq<char>, resolution: Result<IpV4, ResolveError>) -> MemberView {
    MemberView {
        host,
        ip: match resolution {
            Ok(ip) => ip,
            Err(_) => IpV4 { a: 127u8, b: 0u8, c: 0u8, d: 1u8 },
        },
        healthy: false,
        cancel: false,
    }
}

impl Member {
    /// Construct a member from its hostname and the outcome of its one-time
    /// initial resolution.  A failed initial lookup — whatever its cause —
    /// is masked by the loopback address so that one bad DNS entry cannot
    /// keep the table from being populated; the member simply starts out
    /// unhealthy.
    pub fn new(host: &String, resolution: Result<IpV4, ResolveError>) -> (m: Member)
        ensures
            m@ == initial_member(host@, resolution),
    {
        let ip = match resolution {
            Ok(ip) => ip,
            Err(_) => IpV4::loopback(),
        };
        Member { host: host.clone(), ip, healthy: false, cancel: false }
    }

    /// The synthetic always-healthy member appended last when a pool
    /// configures a fallback address.
    pub fn fallback(ip: IpV4) -> (m: Member)
        ensures
            m@.host == "fallback"@,
            m@.ip == ip,
            m@.healthy == true,
            m@.cancel == false,
    {
        Member { host: String::from_str("fallback"), ip, healthy: true, cancel: false }
    }
}

/// Member identity is reflexive.
pub proof fn lemma_same_member_reflexive(a: MemberView)
    ensures
        same_member(a, a),
{
}

/// Member identity is symmetric.
pub proof fn lemma_same_member_symmetric(a: MemberView, b: MemberView)
    ensures
        same_member(a, b) <==> same_member(b, a),
{
}

/// Member identity ignores the mutable `healthy` and `cancel` state: any
/// two snapshots that agree on `(host, ip)` are the same member.
pub proof fn lemma_same_member_ignores_state(a: MemberView, b: MemberView)
    requires
        a.host == b.host,
        a.ip == b.ip,
    ensures
        same_member(a, b),
{
}

/// The executable `==` on members decides exactly the `same_member`
/// identity of their values.
pub proof fn lemma_eq_is_same_member(a: &Member, b: &Member)
    ensures
        vstd::std_specs::cmp::PartialEqSpec::eq_spec(a, b) == same_member(a@, b@),
{
}

} // verus!
