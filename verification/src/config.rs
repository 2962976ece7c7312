//! Static pool configuration and the member lists a configuration pass
//! builds from it.

use crate::ip::IpV4;
use crate::member::Member;
use crate::member::MemberView;
use crate::member::initial_member;
use crate::probe::HTTPOptions;
use crate::probe::PollType;
use crate::resolve::ResolveError;
use crate::table::members_view;
use vstd::prelude::*;

verus! {

/// Static configuration of one load-balanced pool.
#[derive(Clone)]
pub struct Pool {
    /// Unique key into the health table.
    pub name: String,
    pub port: u16,
    /// Seconds between probe cycles.
    pub interval: u16,
    /// Member hostnames, in priority order.
    pub members: Vec<String>,
    pub poll_type: PollType,
    /// Must be present iff `poll_type` is HTTP; see [`Pool::validate`].
    pub http_options: Option<HTTPOptions>,
    /// When present, a synthetic always-healthy member named `"fallback"`
    /// is appended last to the pool's member list.
    pub fallback_ip: Option<IpV4>,
}

/// A configuration error is fatal at startup: the engine refuses to start
/// the pool's pollers rather than run with guessed defaults.
#[derive(Clone, Copy, PartialEq, Eq, Structural, Debug)]
pub enum ConfigError {
    /// An HTTP pool that carries no `http_options`.
    MissingHTTPOptions,
}

impl Pool {
    /// A pool definition is acceptable iff an HTTP pool carries its HTTP
    /// options.
    pub open spec fn valid_spec(self) -> bool {
        self.poll_type is HTTP ==> self.http_options is Some
    }

    /// Check the pool definition; an HTTP pool without `http_options` is
    /// refused, never started with defaults.
    pub fn validate(&self) -> (r: Result<(), ConfigError>)
        ensures
            r is Ok <==> self.valid_spec(),
            !self.valid_spec() ==> r == Err::<(), ConfigError>(ConfigError::MissingHTTPOptions),
    {
        match self.poll_type {
            PollType::HTTP => match &self.http_options {
                Some(_) => Ok(()),
                None => Err(ConfigError::MissingHTTPOptions),
            },
            PollType::TCP => Ok(()),
        }
    }
}

/// The hostnames' character sequences, in order.
pub open spec fn hosts_view(hosts: Seq<String>) -> Seq<Seq<char>> {
    Seq::new(hosts.len(), |k: int| hosts[k]@)
}

/// The member list a configuration pass builds for one pool: one initial
/// member per configured hostname, in order, each from its own one-time
/// resolution; the synthetic always-healthy fallback, when configured,
/// appended last.
pub open spec fn built_members(
    hosts: Seq<Seq<char>>,
    resolutions: Seq<Result<IpV4, ResolveError>>,
    fallback_ip: Option<IpV4>,
) -> Seq<MemberView> {
    let base = Seq::new(hosts.len(), |k: int| initial_member(hosts[k], resolutions[k]));
    match fallback_ip {
        None => base,
        Some(ip) => base.push(MemberView { host: "fallback"@, ip, healthy: true, cancel: false }),
    }
}

/// Build one pool's member list from its hostnames and their one-time
/// initial resolutions, fallback last.
pub fn build_members(
    hosts: &Vec<String>,
    resolutions: &Vec<Result<IpV4, ResolveError>>,
    fallback_ip: Option<IpV4>,
) -> (ms: Vec<Member>)
    requires
        hosts@.len() == resolutions@.len(),
    ensures
        members_view(ms@) == built_members(hosts_view(hosts@), resolutions@, fallback_ip),
{
    let n = hosts.len();
    let mut ms: Vec<Member> = Vec::new();
    let mut k: usize = 0;
    while k < n
        invariant
            n == hosts@.len() == resolutions@.len(),
            k <= n,
            ms@.len() == k,
            forall|m: int|
                0 <= m < k ==> #[trigger] ms@[m]@ == initial_member(hosts@[m]@, resolutions@[m]),
        decreases n - k,
    {
        ms.push(Member::new(&hosts[k], resolutions[k]));
        k += 1;
    }
    match fallback_ip {
        None => {
            proof {
                assert(members_view(ms@) =~= built_members(
                    hosts_view(hosts@),
                    resolutions@,
                    fallback_ip,
                ));
            }
        },
        Some(ip) => {
            ms.push(Member::fallback(ip));
            proof {
                assert(members_view(ms@) =~= built_members(
                    hosts_view(hosts@),
                    resolutions@,
                    fallback_ip,
                ));
            }
        },
    }
    ms
}

} // verus!
