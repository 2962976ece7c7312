//! The shared health table: the map from pool name to the ordered list of
//! members with their current health and cancellation state.
//!
//! The table is the single source of truth read by the query API and
//! written by the pollers.  Callers share one table behind one exclusive
//! scope per call; every operation here is a whole-table transition, stated
//! against the spec-level transition functions below.

use crate::ip::IpV4;
use crate::member::Member;
use crate::member::MemberView;
use crate::member::same_member;
use crate::search::find_first;
use crate::search::lemma_find_first;
use vstd::prelude::*;
use vstd::string::StringExecFns;

verus! {

/// One pool's entry: its name and its ordered member list, configuration
/// order first, synthetic fallback (if any) last.
pub struct PoolEntry {
    pub name: String,
    pub members: Vec<Member>,
}

/// The mathematical value of a [`PoolEntry`].
pub struct PoolView {
    pub name: Seq<char>,
    pub members: Seq<MemberView>,
}

/// The views of a list of members, in order.
pub open spec fn members_view(ms: Seq<Member>) -> Seq<MemberView> {
    Seq::new(ms.len(), |k: int| ms[k]@)
}

impl View for PoolEntry {
    type V = PoolView;

    open spec fn view(&self) -> PoolView {
        PoolView { name: self.name@, members: members_view(self.members@) }
    }
}

/// The shared health table.  Its value is the sequence of pool entries in
/// insertion order; pool names are unique (see [`HealthTable::wf`]).
pub struct HealthTable {
    pools: Vec<PoolEntry>,
}

impl View for HealthTable {
    type V = Seq<PoolView>;

    closed spec fn view(&self) -> Seq<PoolView> {
        Seq::new(self.pools@.len(), |i: int| self.pools@[i]@)
    }
}

/// The predicate "this pool is named `name`".
pub open spec fn pool_named(name: Seq<char>) -> spec_fn(PoolView) -> bool {
    |p: PoolView| p.name == name
}

/// The predicate "this member's host is `host`".
pub open spec fn member_hosted(host: Seq<char>) -> spec_fn(MemberView) -> bool {
    |m: MemberView| m.host == host
}

/// The predicate "this member is currently healthy".
pub open spec fn member_healthy() -> spec_fn(MemberView) -> bool {
    |m: MemberView| m.healthy
}

/// The index of the pool named `name`, if present.
pub open spec fn find_pool(t: Seq<PoolView>, name: Seq<char>) -> Option<int> {
    find_first(t, pool_named(name))
}

/// The index of the first member of `ms` whose host is `host`, if any.
pub open spec fn find_member(ms: Seq<MemberView>, host: Seq<char>) -> Option<int> {
    find_first(ms, member_hosted(host))
}

/// The index of the first healthy member of `ms`, if any.
pub open spec fn first_healthy(ms: Seq<MemberView>) -> Option<int> {
    find_first(ms, member_healthy())
}

/// `find_pool` returns the index of the pool named `name`, before which no
/// pool bears that name, and `None` exactly when no pool does.
pub proof fn lemma_find_pool(t: Seq<PoolView>, name: Seq<char>)
    ensures
        match find_pool(t, name) {
            Some(i) => 0 <= i < t.len() && t[i].name == name && (forall|j: int|
                0 <= j < i ==> #[trigger] t[j].name != name),
            None => forall|j: int| 0 <= j < t.len() ==> #[trigger] t[j].name != name,
        },
{
    lemma_find_first(t, pool_named(name));
}

/// `find_member` returns the index of the first member hosted at `host`,
/// and `None` exactly when no member is.
pub proof fn lemma_find_member(ms: Seq<MemberView>, host: Seq<char>)
    ensures
        match find_member(ms, host) {
            Some(k) => 0 <= k < ms.len() && ms[k].host == host && (forall|j: int|
                0 <= j < k ==> #[trigger] ms[j].host != host),
            None => forall|j: int| 0 <= j < ms.len() ==> #[trigger] ms[j].host != host,
        },
{
    lemma_find_first(ms, member_hosted(host));
}

/// `first_healthy` returns the index of the earliest healthy member, and
/// `None` exactly when no member is healthy.
pub proof fn lemma_first_healthy(ms: Seq<MemberView>)
    ensures
        match first_healthy(ms) {
            Some(k) => 0 <= k < ms.len() && ms[k].healthy && (forall|j: int|
                0 <= j < k ==> !(#[trigger] ms[j].healthy)),
            None => forall|j: int| 0 <= j < ms.len() ==> !(#[trigger] ms[j].healthy),
        },
{
    lemma_find_first(ms, member_healthy());
}

/// Every member of `ms` hosted at `host` with its verdict replaced by
/// `healthy` and its address by `ip`; all other members untouched.
pub open spec fn with_health(ms: Seq<MemberView>, host: Seq<char>, ip: IpV4, healthy: bool) -> Seq<
    MemberView,
> {
    Seq::new(
        ms.len(),
        |k: int|
            if ms[k].host == host {
                MemberView { host: ms[k].host, ip, healthy, cancel: ms[k].cancel }
            } else {
                ms[k]
            },
    )
}

/// The table after a poller reports a probe result for `(name, host)`: the
/// matching members' `healthy`/`ip` fields are overwritten; a missing pool
/// or host changes nothing.
pub open spec fn set_health_spec(
    t: Seq<PoolView>,
    name: Seq<char>,
    host: Seq<char>,
    ip: IpV4,
    healthy: bool,
) -> Seq<PoolView> {
    match find_pool(t, name) {
        None => t,
        Some(i) => t.update(
            i,
            PoolView { name: t[i].name, members: with_health(t[i].members, host, ip, healthy) },
        ),
    }
}

/// `ms` with the cancellation flag of the member at `k` cleared.
pub open spec fn clear_cancel_at(ms: Seq<MemberView>, k: int) -> Seq<MemberView> {
    ms.update(
        k,
        MemberView { host: ms[k].host, ip: ms[k].ip, healthy: ms[k].healthy, cancel: false },
    )
}

/// The table and prior flag value after a poller's cancellation check on
/// `(name, host)`: the first matching member's `cancel` flag is read and
/// cleared in one table operation; a missing pool or host reads `false`
/// and changes nothing.
pub open spec fn check_cancel_spec(t: Seq<PoolView>, name: Seq<char>, host: Seq<char>) -> (
    Seq<PoolView>,
    bool,
) {
    match find_pool(t, name) {
        None => (t, false),
        Some(i) => match find_member(t[i].members, host) {
            None => (t, false),
            Some(k) => (
                t.update(
                    i,
                    PoolView { name: t[i].name, members: clear_cancel_at(t[i].members, k) },
                ),
                t[i].members[k].cancel,
            ),
        },
    }
}

/// The answer to a first-healthy query: the address of the earliest member
/// of pool `name` whose last probe verdict was healthy, if any.
pub open spec fn query_spec(t: Seq<PoolView>, name: Seq<char>) -> Option<IpV4> {
    match find_pool(t, name) {
        None => None,
        Some(i) => match first_healthy(t[i].members) {
            None => None,
            Some(k) => Some(t[i].members[k].ip),
        },
    }
}

/// The synthetic always-healthy member installed by the reset operation.
pub open spec fn reset_member() -> MemberView {
    MemberView {
        host: "localhost"@,
        ip: IpV4 { a: 1u8, b: 2u8, c: 3u8, d: 4u8 },
        healthy: true,
        cancel: false,
    }
}

/// The table after the reset control operation on `name`: that pool's
/// member list is replaced (or created) as the single synthetic healthy
/// member, regardless of prior state.
pub open spec fn reset_spec(t: Seq<PoolView>, name: Seq<char>) -> Seq<PoolView> {
    let entry = PoolView { name, members: seq![reset_member()] };
    match find_pool(t, name) {
        None => t.push(entry),
        Some(i) => t.update(i, entry),
    }
}

/// `ms` with every member's cancellation flag raised.
pub open spec fn cancel_all(ms: Seq<MemberView>) -> Seq<MemberView> {
    Seq::new(
        ms.len(),
        |k: int|
            MemberView { host: ms[k].host, ip: ms[k].ip, healthy: ms[k].healthy, cancel: true },
    )
}

/// The table after the reload control operation: every member of every
/// pool is flagged for cooperative cancellation.
pub open spec fn reload_spec(t: Seq<PoolView>) -> Seq<PoolView> {
    Seq::new(t.len(), |i: int| PoolView { name: t[i].name, members: cancel_all(t[i].members) })
}

/// Two member lists denote the same member set: equal length and pairwise
/// the same member, health and cancellation state ignored.
pub open spec fn same_members(a: Seq<MemberView>, b: Seq<MemberView>) -> bool {
    a.len() == b.len() && (forall|k: int| 0 <= k < a.len() ==> same_member(a[k], b[k]))
}

/// The table after reconciling pool `name` against a freshly built member
/// list `ms`: absent pools are inserted; a pool whose member set changed
/// (by member identity, which ignores health state) is replaced wholesale;
/// an unchanged member set leaves the entry — and its in-flight health
/// state — untouched.
pub open spec fn apply_spec(t: Seq<PoolView>, name: Seq<char>, ms: Seq<MemberView>) -> Seq<
    PoolView,
> {
    match find_pool(t, name) {
        None => t.push(PoolView { name, members: ms }),
        Some(i) => if same_members(t[i].members, ms) {
            t
        } else {
            t.update(i, PoolView { name, members: ms })
        },
    }
}

/// Overwrite the verdict and address of every member of `members` hosted
/// at `host`.
fn set_member_health(members: &mut Vec<Member>, host: &String, addr: IpV4, healthy: bool)
    ensures
        members_view(final(members)@) == with_health(
            members_view(old(members)@),
            host@,
            addr,
            healthy,
        ),
{
    let ghost ms0 = members_view(old(members)@);
    let n = members.len();
    let mut k: usize = 0;
    while k < n
        invariant
            n == ms0.len(),
            members@.len() == n,
            k <= n,
            forall|m: int|
                0 <= m < k ==> members@[m]@ == with_health(ms0, host@, addr, healthy)[m],
            forall|m: int| k <= m < n ==> members@[m]@ == ms0[m],
        decreases n - k,
    {
        let ghost kk = k as int;
        if members[k].host == *host {
            members[k].healthy = healthy;
            members[k].ip = addr;
            proof {
                assert(members@[kk]@ == (MemberView {
                    host: ms0[kk].host,
                    ip: addr,
                    healthy,
                    cancel: ms0[kk].cancel,
                }));
            }
        }
        k += 1;
    }
    proof {
        assert(members_view(members@) =~= with_health(ms0, host@, addr, healthy));
    }
}

/// Read and clear the cancellation flag of the first member of `members`
/// hosted at `host`, returning the prior value; `false` when no member
/// matches.
fn take_cancel(members: &mut Vec<Member>, host: &String) -> (r: bool)
    ensures
        match find_member(members_view(old(members)@), host@) {
            None => members_view(final(members)@) == members_view(old(members)@) && r == false,
            Some(k) => members_view(final(members)@) == clear_cancel_at(
                members_view(old(members)@),
                k,
            ) && r == members_view(old(members)@)[k].cancel,
        },
{
    let ghost ms0 = members_view(old(members)@);
    let n = members.len();
    let mut k: usize = 0;
    while k < n
        invariant
            ms0 == members_view(old(members)@),
            n == ms0.len(),
            members@.len() == n,
            k <= n,
            forall|m: int| 0 <= m < n ==> members@[m]@ == ms0[m],
            forall|m: int| 0 <= m < k ==> #[trigger] ms0[m].host != host@,
        decreases n - k,
    {
        let ghost kk = k as int;
        if members[k].host == *host {
            proof {
                assert(ms0[kk].host == host@);
                lemma_find_member(ms0, host@);
                match find_member(ms0, host@) {
                    Some(f) => {
                        assert(f == kk);
                    },
                    None => {
                        assert(false);
                    },
                }
            }
            let r = members[k].cancel;
            proof {
                assert(r == ms0[kk].cancel);
            }
            if r {
                members[k].cancel = false;
            }
            proof {
                assert(members_view(members@) =~= clear_cancel_at(ms0, kk));
            }
            return r;
        }
        k += 1;
    }
    proof {
        lemma_find_member(ms0, host@);
        assert(members_view(members@) =~= ms0);
    }
    false
}

/// Raise the cancellation flag of every member of `members`.
fn flag_all_members(members: &mut Vec<Member>)
    ensures
        members_view(final(members)@) == cancel_all(members_view(old(members)@)),
{
    let ghost ms0 = members_view(old(members)@);
    let n = members.len();
    let mut k: usize = 0;
    while k < n
        invariant
            n == ms0.len(),
            members@.len() == n,
            k <= n,
            forall|m: int| 0 <= m < k ==> members@[m]@ == cancel_all(ms0)[m],
            forall|m: int| k <= m < n ==> members@[m]@ == ms0[m],
        decreases n - k,
    {
        let ghost kk = k as int;
        members[k].cancel = true;
        proof {
            assert(members@[kk]@ == cancel_all(ms0)[kk]);
        }
        k += 1;
    }
    proof {
        assert(members_view(members@) =~= cancel_all(ms0));
    }
}

/// Decide whether two member lists denote the same member set, comparing
/// by member identity alone (health and cancellation state ignored).
pub fn members_equal(a: &Vec<Member>, b: &Vec<Member>) -> (r: bool)
    ensures
        r == same_members(members_view(a@), members_view(b@)),
{
    let ghost av = members_view(a@);
    let ghost bv = members_view(b@);
    if a.len() != b.len() {
        return false;
    }
    let n = a.len();
    let mut k: usize = 0;
    while k < n
        invariant
            av == members_view(a@),
            bv == members_view(b@),
            n == av.len() == bv.len(),
            k <= n,
            forall|m: int| 0 <= m < k ==> same_member(#[trigger] av[m], bv[m]),
        decreases n - k,
    {
        if !(a[k] == b[k]) {
            assert(!same_member(av[k as int], bv[k as int]));
            return false;
        }
        proof {
            assert(same_member(av[k as int], bv[k as int]));
        }
        k += 1;
    }
    true
}

impl HealthTable {
    /// Pool names are unique: the table is a map keyed by name.
    pub open spec fn wf(self) -> bool {
        forall|i: int, j: int|
            0 <= i < j < self@.len() ==> #[trigger] self@[i].name != #[trigger] self@[j].name
    }

    /// An empty table.
    pub fn new() -> (t: HealthTable)
        ensures
            t@ == Seq::<PoolView>::empty(),
            t.wf(),
    {
        let t = HealthTable { pools: Vec::new() };
        proof {
            assert(t@ =~= Seq::<PoolView>::empty());
        }
        t
    }

    /// Locate a pool by name; settles `find_pool` for the caller.
    fn find_idx(&self, name: &String) -> (r: Option<usize>)
        ensures
            match r {
                Some(i) => find_pool(self@, name@) == Some(i as int),
                None => find_pool(self@, name@) is None,
            },
    {
        let n = self.pools.len();
        let mut i: usize = 0;
        while i < n
            invariant
                n == self@.len(),
                0 <= i <= n,
                forall|j: int| 0 <= j < i ==> #[trigger] self@[j].name != name@,
            decreases n - i,
        {
            if self.pools[i].name == *name {
                proof {
                    assert(self@[i as int].name == name@);
                    lemma_find_pool(self@, name@);
                    match find_pool(self@, name@) {
                        Some(f) => {
                            assert(f == i as int);
                        },
                        None => {
                            assert(false);
                        },
                    }
                }
                return Some(i);
            }
            i += 1;
        }
        proof {
            lemma_find_pool(self@, name@);
        }
        None
    }

    /// Record one probe cycle's outcome: overwrite the `healthy` verdict
    /// and freshly resolved address of every member of `pool_name` hosted
    /// at `host`.  A pool or host no longer present is silently ignored —
    /// the table may have been reconfigured out from under the reporting
    /// poller.
    pub fn set_health(&mut self, pool_name: &String, host: &String, addr: IpV4, healthy: bool)
        ensures
            final(self)@ == set_health_spec(old(self)@, pool_name@, host@, addr, healthy),
            old(self).wf() ==> final(self).wf(),
    {
        let idx = self.find_idx(pool_name);
        match idx {
            None => {},
            Some(i) => {
                proof {
                    lemma_find_pool(self@, pool_name@);
                }
                let ghost t0 = self@;
                let ghost ii = i as int;
                set_member_health(&mut self.pools[i].members, host, addr, healthy);
                proof {
                    assert(self@[ii].members == with_health(t0[ii].members, host@, addr, healthy));
                    assert(self@ =~= t0.update(
                        ii,
                        PoolView {
                            name: t0[ii].name,
                            members: with_health(t0[ii].members, host@, addr, healthy),
                        },
                    ));
                }
            },
        }
    }

    /// A poller's once-per-cycle cancellation check: read and clear the
    /// `cancel` flag of the first member of `pool_name` hosted at `host`,
    /// atomically with respect to other table operations, returning the
    /// prior value.  A missing pool or host reads `false` and changes
    /// nothing.
    pub fn check_cancel(&mut self, pool_name: &String, host: &String) -> (r: bool)
        ensures
            final(self)@ == check_cancel_spec(old(self)@, pool_name@, host@).0,
            r == check_cancel_spec(old(self)@, pool_name@, host@).1,
            old(self).wf() ==> final(self).wf(),
    {
        let idx = self.find_idx(pool_name);
        match idx {
            None => false,
            Some(i) => {
                proof {
                    lemma_find_pool(self@, pool_name@);
                }
                let ghost t0 = self@;
                let ghost ii = i as int;
                let r = take_cancel(&mut self.pools[i].members, host);
                proof {
                    match find_member(t0[ii].members, host@) {
                        None => {
                            assert(self@ =~= t0);
                        },
                        Some(k) => {
                            assert(self@ =~= t0.update(
                                ii,
                                PoolView {
                                    name: t0[ii].name,
                                    members: clear_cancel_at(t0[ii].members, k),
                                },
                            ));
                        },
                    }
                }
                r
            },
        }
    }

    /// Answer a first-healthy query: the address of the earliest member of
    /// `pool_name`, in configured order (fallback last), whose most recent
    /// probe verdict was healthy; `None` when the pool is unknown or no
    /// member is healthy.
    pub fn query_first_healthy(&self, pool_name: &String) -> (r: Option<IpV4>)
        ensures
            r == query_spec(self@, pool_name@),
    {
        let idx = self.find_idx(pool_name);
        match idx {
            None => None,
            Some(i) => {
                proof {
                    lemma_find_pool(self@, pool_name@);
                }
                let ghost ms = self@[i as int].members;
                let n = self.pools[i].members.len();
                let mut k: usize = 0;
                while k < n
                    invariant
                        i < self.pools@.len(),
                        find_pool(self@, pool_name@) == Some(i as int),
                        self@[i as int].members == ms,
                        ms == members_view(self.pools@[i as int].members@),
                        n == ms.len(),
                        k <= n,
                        forall|m: int| 0 <= m < k ==> !(#[trigger] ms[m].healthy),
                    decreases n - k,
                {
                    if self.pools[i].members[k].healthy {
                        proof {
                            assert(ms[k as int].healthy);
                            lemma_first_healthy(ms);
                            match first_healthy(ms) {
                                Some(f) => {
                                    assert(f == k as int);
                                },
                                None => {
                                    assert(false);
                                },
                            }
                        }
                        let addr = self.pools[i].members[k].ip;
                        assert(addr == ms[k as int].ip);
                        return Some(addr);
                    }
                    k += 1;
                }
                proof {
                    lemma_first_healthy(ms);
                }
                None
            },
        }
    }

    /// The reset control operation: replace (or create) the entry for
    /// `pool_name` with the single synthetic healthy member, regardless of
    /// prior state.
    pub fn reset(&mut self, pool_name: &String)
        ensures
            final(self)@ == reset_spec(old(self)@, pool_name@),
            old(self).wf() ==> final(self).wf(),
    {
        let mut ms: Vec<Member> = Vec::new();
        ms.push(
            Member {
                host: String::from_str("localhost"),
                ip: IpV4::new(1, 2, 3, 4),
                healthy: true,
                cancel: false,
            },
        );
        proof {
            assert(members_view(ms@) =~= seq![reset_member()]);
        }
        let entry = PoolEntry { name: pool_name.clone(), members: ms };
        let ghost t0 = self@;
        let idx = self.find_idx(pool_name);
        match idx {
            None => {
                proof {
                    lemma_find_pool(self@, pool_name@);
                }
                self.pools.push(entry);
                proof {
                    assert(self@ =~= t0.push(
                        PoolView { name: pool_name@, members: seq![reset_member()] },
                    ));
                }
            },
            Some(i) => {
                proof {
                    lemma_find_pool(self@, pool_name@);
                }
                self.pools[i] = entry;
                proof {
                    assert(self@ =~= t0.update(
                        i as int,
                        PoolView { name: pool_name@, members: seq![reset_member()] },
                    ));
                }
            },
        }
    }

    /// The reload control operation: flag every member of every pool for
    /// cooperative cancellation, so that the old pollers terminate while a
    /// fresh configuration pass spins up their replacements.
    pub fn reload(&mut self)
        ensures
            final(self)@ == reload_spec(old(self)@),
            old(self).wf() ==> final(self).wf(),
    {
        let ghost t0 = self@;
        let n = self.pools.len();
        let mut i: usize = 0;
        while i < n
            invariant
                n == t0.len(),
                self@.len() == n,
                i <= n,
                forall|j: int| 0 <= j < i ==> self@[j] == reload_spec(t0)[j],
                forall|j: int| i <= j < n ==> self@[j] == t0[j],
            decreases n - i,
        {
            let ghost ii = i as int;
            flag_all_members(&mut self.pools[i].members);
            proof {
                assert(self@[ii] == reload_spec(t0)[ii]);
            }
            i += 1;
        }
        proof {
            assert(self@ =~= reload_spec(t0));
        }
    }

    /// Reconcile one configured pool against the table: insert it when
    /// absent, replace its member list wholesale when the freshly built
    /// member set differs by member identity, and leave it — with its
    /// in-flight health state — untouched when it does not.
    pub fn apply_pool(&mut self, pool_name: &String, members: Vec<Member>)
        ensures
            final(self)@ == apply_spec(old(self)@, pool_name@, members_view(members@)),
            old(self).wf() ==> final(self).wf(),
    {
        let ghost t0 = self@;
        let ghost msv = members_view(members@);
        let idx = self.find_idx(pool_name);
        match idx {
            None => {
                proof {
                    lemma_find_pool(self@, pool_name@);
                }
                self.pools.push(PoolEntry { name: pool_name.clone(), members });
                proof {
                    assert(self@ =~= t0.push(PoolView { name: pool_name@, members: msv }));
                }
            },
            Some(i) => {
                proof {
                    lemma_find_pool(self@, pool_name@);
                }
                if !members_equal(&self.pools[i].members, &members) {
                    self.pools[i] = PoolEntry { name: pool_name.clone(), members };
                    proof {
                        assert(self@ =~= t0.update(
                            i as int,
                            PoolView { name: pool_name@, members: msv },
                        ));
                    }
                } else {
                    proof {
                        assert(self@ =~= t0);
                    }
                }
            },
        }
    }

    /// Whether the table holds a pool named `pool_name`.
    pub fn has_pool(&self, pool_name: &String) -> (r: bool)
        ensures
            r == (find_pool(self@, pool_name@) is Some),
    {
        let idx = self.find_idx(pool_name);
        match idx {
            Some(_) => true,
            None => false,
        }
    }

    /// How many pools the table holds.
    pub fn num_pools(&self) -> (n: usize)
        ensures
            n == self@.len(),
    {
        self.pools.len()
    }

    /// The name of the pool at index `i`.
    pub fn pool_name(&self, i: usize) -> (r: &String)
        requires
            i < self@.len(),
        ensures
            r@ == self@[i as int].name,
    {
        &self.pools[i].name
    }

    /// The member list of the pool at index `i`.
    pub fn pool_members(&self, i: usize) -> (r: &Vec<Member>)
        requires
            i < self@.len(),
        ensures
            members_view(r@) == self@[i as int].members,
    {
        &self.pools[i].members
    }
}

/// Two tables whose pools bear the same names pairwise agree on where any
/// name is found.
pub proof fn lemma_find_pool_same_names(t1: Seq<PoolView>, t2: Seq<PoolView>, name: Seq<char>)
    requires
        t1.len() == t2.len(),
        forall|j: int| 0 <= j < t1.len() ==> #[trigger] t1[j].name == t2[j].name,
    ensures
        find_pool(t1, name) == find_pool(t2, name),
{
    lemma_find_pool(t1, name);
    lemma_find_pool(t2, name);
    match (find_pool(t1, name), find_pool(t2, name)) {
        (Some(a), Some(b)) => {
            if a < b {
                assert(t2[a].name != name);
                assert(false);
            }
            if b < a {
                assert(t1[b].name != name);
                assert(false);
            }
        },
        (Some(a), None) => {
            assert(t2[a].name == name);
            assert(false);
        },
        (None, Some(b)) => {
            assert(t1[b].name == name);
            assert(false);
        },
        (None, None) => {},
    }
}

/// Two member lists whose members bear the same hosts pairwise agree on
/// where any host is first found.
pub proof fn lemma_find_member_same_hosts(
    a: Seq<MemberView>,
    b: Seq<MemberView>,
    host: Seq<char>,
)
    requires
        a.len() == b.len(),
        forall|j: int| 0 <= j < a.len() ==> #[trigger] a[j].host == b[j].host,
    ensures
        find_member(a, host) == find_member(b, host),
{
    lemma_find_member(a, host);
    lemma_find_member(b, host);
    match (find_member(a, host), find_member(b, host)) {
        (Some(x), Some(y)) => {
            if x < y {
                assert(b[x].host != host);
                assert(false);
            }
            if y < x {
                assert(a[y].host != host);
                assert(false);
            }
        },
        (Some(x), None) => {
            assert(b[x].host == host);
            assert(false);
        },
        (None, Some(y)) => {
            assert(a[y].host == host);
            assert(false);
        },
        (None, None) => {},
    }
}

/// A first-healthy query answers with the earliest member, in list order,
/// whose verdict is healthy: when the pool is present and the query
/// answers `Some(ip)`, some healthy member carries `ip` and every member
/// before it is unhealthy; when it answers `None`, either the pool is
/// unknown or no member at all is healthy.
pub proof fn lemma_query_earliest(t: Seq<PoolView>, name: Seq<char>)
    ensures
        match find_pool(t, name) {
            None => query_spec(t, name) is None,
            Some(i) => match query_spec(t, name) {
                None => forall|k: int|
                    0 <= k < t[i].members.len() ==> !(#[trigger] t[i].members[k].healthy),
                Some(ip) => exists|k: int|
                    #![auto]
                    0 <= k < t[i].members.len() && t[i].members[k].healthy && ip
                        == t[i].members[k].ip && (forall|j: int|
                        0 <= j < k ==> !t[i].members[j].healthy),
            },
        },
{
    lemma_find_pool(t, name);
    match find_pool(t, name) {
        None => {},
        Some(i) => {
            lemma_first_healthy(t[i].members);
        },
    }
}

/// After the reset control operation on pool `name`, a first-healthy
/// query for `name` answers the fixed synthetic address, whatever the
/// prior state of the table.
pub proof fn lemma_reset_then_query(t: Seq<PoolView>, name: Seq<char>)
    ensures
        query_spec(reset_spec(t, name), name) == Some(IpV4 { a: 1u8, b: 2u8, c: 3u8, d: 4u8 }),
{
    let t2 = reset_spec(t, name);
    let entry = PoolView { name, members: seq![reset_member()] };
    lemma_find_pool(t, name);
    lemma_find_pool(t2, name);
    match find_pool(t, name) {
        None => {
            assert(t2 == t.push(entry));
            assert(t2[t.len() as int].name == name);
            match find_pool(t2, name) {
                None => {
                    assert(false);
                },
                Some(i2) => {
                    if i2 < t.len() {
                        assert(t2[i2] == t[i2]);
                        assert(t[i2].name != name);
                        assert(false);
                    }
                    assert(i2 == t.len());
                    assert(t2[i2] == entry);
                    lemma_first_healthy(entry.members);
                },
            }
        },
        Some(i) => {
            assert(t2 == t.update(i, entry));
            match find_pool(t2, name) {
                None => {
                    assert(t2[i].name == name);
                    assert(false);
                },
                Some(i2) => {
                    if i2 < i {
                        assert(t2[i2] == t[i2]);
                        assert(t[i2].name != name);
                        assert(false);
                    }
                    if i2 > i {
                        assert(t2[i].name == name);
                        assert(false);
                    }
                    assert(i2 == i);
                    assert(t2[i2] == entry);
                    lemma_first_healthy(entry.members);
                },
            }
        },
    }
}

/// Reconfiguring a pool with a member list that has the same `(host, ip)`
/// identities as the one in the table never triggers a replacement: the
/// table — including every member's in-flight health state — is left
/// exactly as it was.
pub proof fn lemma_same_members_no_replace(t: Seq<PoolView>, name: Seq<char>, ms: Seq<MemberView>)
    requires
        match find_pool(t, name) {
            Some(i) => same_members(t[i].members, ms),
            None => false,
        },
    ensures
        apply_spec(t, name, ms) == t,
{
}

} // verus!
