//! How the RTC cores are laid out on the UDP port space, and which core serves which
//! lobby.
use vstd::prelude::*;
use crate::sfu::config::{RtcAssignmentStrategy, SfuConfig};
use crate::sfu::lobby::LobbyId;

verus! {

/// Identity of one RTC core.
pub type RtcCoreId = u64;

/// An IP address as plain values.
#[derive(Debug, Clone, Copy, PartialEq, Eq)]
pub enum IpAddress {
    V4([u8; 4]),
    V6([u16; 8]),
}

impl IpAddress {
    /// The all-zero address of its family.
    pub open spec fn spec_is_unspecified(&self) -> bool {
        match self {
            IpAddress::V4(o) => o[0] == 0 && o[1] == 0 && o[2] == 0 && o[3] == 0,
            IpAddress::V6(s) => forall|i: int| 0 <= i < 8 ==> s[i] == 0,
        }
    }

    /// Whether this is `0.0.0.0` or `::`.
    pub fn is_unspecified(&self) -> (b: bool)
        ensures
            b == self.spec_is_unspecified(),
    {
        match self {
            IpAddress::V4(o) => o[0] == 0 && o[1] == 0 && o[2] == 0 && o[3] == 0,
            IpAddress::V6(s) => all_zero(s),
        }
    }

    /// `127.0.0.1`.
    pub open spec fn spec_localhost_v4() -> IpAddress {
        IpAddress::V4([127u8, 0u8, 0u8, 1u8])
    }

    pub fn localhost_v4() -> (ip: IpAddress)
        ensures
            ip == Self::spec_localhost_v4(),
    {
        IpAddress::V4([127u8, 0u8, 0u8, 1u8])
    }
}

/// Whether all eight groups of an IPv6 address are zero.
fn all_zero(s: &[u16; 8]) -> (b: bool)
    ensures
        b == (forall|j: int| 0 <= j < 8 ==> s[j] == 0),
{
    let mut i: usize = 0;
    while i < 8
        invariant
            i <= 8,
            forall|j: int| 0 <= j < i ==> s[j] == 0,
        decreases 8 - i,
    {
        if s[i] != 0 {
            return false;
        }
        i = i + 1;
    }
    true
}

/// Why the configured core layout cannot be used.
#[derive(Debug, Clone, Copy, PartialEq, Eq, Structural)]
pub enum LayoutError {
    /// `bind_ip` is not an IP address.
    InvalidBindIp,
    /// `advertised_ip` is set but not an IP address.
    InvalidAdvertisedIp,
    /// No core would run.
    NoCores,
    /// More cores than there are UDP ports.
    CoresExceedPortSpace { cores: usize },
    /// The consecutive ports of the cores run past 65535.
    PortBlockOverflow { base_port: u16, cores: usize },
}

/// Where the RTC cores listen: core `i` binds `bind_ip:(base_port + i)` and announces
/// `advertised_ip:(base_port + i)`.
#[derive(Debug, Clone, Copy, PartialEq, Eq)]
pub struct RtcCoreLayout {
    pub bind_ip: IpAddress,
    pub advertised_ip: IpAddress,
    pub base_port: u16,
    pub core_count: usize,
}

/// The number of cores: the configured one, or with zero configured the parallelism
/// the operating system reports (one when it reports none).
pub open spec fn core_count_spec(configured: usize, available_parallelism: Option<usize>) -> usize {
    if configured == 0 {
        match available_parallelism {
            Some(n) => n,
            None => 1,
        }
    } else {
        configured
    }
}

/// The layout that `from_config` derives, or the first reason it fails: the bind
/// address, then the advertised address, then the number of cores, then the port block.
pub open spec fn layout_spec(
    advertised_configured: bool,
    configured_cores: usize,
    base_port: u16,
    bind_ip: Option<IpAddress>,
    advertised_ip: Option<IpAddress>,
    available_parallelism: Option<usize>,
) -> Result<RtcCoreLayout, LayoutError> {
    match bind_ip {
        None => Err(LayoutError::InvalidBindIp),
        Some(bind) => {
            if advertised_configured && advertised_ip is None {
                Err(LayoutError::InvalidAdvertisedIp)
            } else {
                let advertised = if advertised_configured {
                    advertised_ip->0
                } else if bind.spec_is_unspecified() {
                    IpAddress::spec_localhost_v4()
                } else {
                    bind
                };
                let cores = core_count_spec(configured_cores, available_parallelism);
                if cores == 0 {
                    Err(LayoutError::NoCores)
                } else if cores - 1 > u16::MAX {
                    Err(LayoutError::CoresExceedPortSpace { cores })
                } else if base_port + (cores - 1) > u16::MAX {
                    Err(LayoutError::PortBlockOverflow { base_port, cores })
                } else {
                    Ok(RtcCoreLayout { bind_ip: bind, advertised_ip: advertised, base_port, core_count: cores })
                }
            }
        },
    }
}

impl RtcCoreLayout {
    /// Every core has a port of its own below 65536.
    pub open spec fn wf(&self) -> bool {
        &&& self.core_count > 0
        &&& self.base_port + self.core_count - 1 <= u16::MAX
    }

    /// The layout of the configuration. The caller reads the environment: `bind_ip`
    /// and `advertised_ip` are the configured addresses parsed (`None` where the text is
    /// not an address; `advertised_ip` is looked at only when one is configured), and
    /// `available_parallelism` is what the operating system reports, if anything.
    pub fn from_config(
        config: &SfuConfig,
        bind_ip: Option<IpAddress>,
        advertised_ip: Option<IpAddress>,
        available_parallelism: Option<usize>,
    ) -> (r: Result<RtcCoreLayout, LayoutError>)
        ensures
            r == layout_spec(
                config.advertised_ip@.len() > 0,
                config.cores,
                config.base_port,
                bind_ip,
                advertised_ip,
                available_parallelism,
            ),
            r is Ok ==> r->Ok_0.wf(),
    {
        let bind = match bind_ip {
            Some(ip) => ip,
            None => return Err(LayoutError::InvalidBindIp),
        };
        let advertised = if config.advertised_ip.unicode_len() == 0 {
            if bind.is_unspecified() {
                IpAddress::localhost_v4()
            } else {
                bind
            }
        } else {
            match advertised_ip {
                Some(ip) => ip,
                None => return Err(LayoutError::InvalidAdvertisedIp),
            }
        };
        let core_count: usize = if config.cores == 0 {
            match available_parallelism {
                Some(n) => n,
                None => 1,
            }
        } else {
            config.cores
        };
        if core_count == 0 {
            return Err(LayoutError::NoCores);
        }
        let last_offset: usize = core_count - 1;
        if last_offset > 65535 {
            return Err(LayoutError::CoresExceedPortSpace { cores: core_count });
        }
        if config.base_port as usize + last_offset > 65535 {
            return Err(LayoutError::PortBlockOverflow { base_port: config.base_port, cores: core_count });
        }
        Ok(RtcCoreLayout { bind_ip: bind, advertised_ip: advertised, base_port: config.base_port, core_count })
    }

    /// The port of core `index`: the cores take consecutive ports from `base_port` on.
    pub fn core_port(&self, index: usize) -> (p: u16)
        requires
            self.wf(),
            index < self.core_count,
        ensures
            p == self.base_port + index,
    {
        self.base_port + (index as u16)
    }
}

/// How many of the assignments name core `core`.
pub open spec fn count_assigned(a: Seq<(Seq<char>, usize)>, core: int) -> nat
    decreases a.len(),
{
    if a.len() == 0 {
        0
    } else {
        count_assigned(a.drop_last(), core) + if a.last().1 == core { 1nat } else { 0nat }
    }
}

/// Where lobby `lobby` is assigned, if it is.
pub open spec fn find_assignment(a: Seq<(Seq<char>, usize)>, lobby: Seq<char>) -> Option<int> {
    if exists|i: int| 0 <= i < a.len() && a[i].0 == lobby {
        Some(choose|i: int| 0 <= i < a.len() && a[i].0 == lobby)
    } else {
        None
    }
}

/// The first of the least loaded cores.
pub open spec fn is_least_loaded(loads: Seq<usize>, index: int) -> bool {
    &&& 0 <= index < loads.len()
    &&& forall|j: int| 0 <= j < loads.len() ==> loads[index] <= loads[j]
    &&& forall|j: int| 0 <= j < index ==> loads[index] < loads[j]
}

/// The state of the assignment of lobbies to cores, as plain values.
pub struct PoolView {
    pub strategy: RtcAssignmentStrategy,
    /// The number of lobbies on each core.
    pub loads: Seq<usize>,
    /// Each assigned lobby and the index of its core.
    pub assigned: Seq<(Seq<char>, usize)>,
    pub next_round_robin: usize,
}

/// The load of every core is the number of lobbies assigned to it, every assignment
/// names a core, and no lobby is assigned twice.
pub open spec fn pool_wf(p: PoolView) -> bool {
    &&& p.loads.len() <= usize::MAX
    &&& forall|i: int| 0 <= i < p.assigned.len() ==> (#[trigger] p.assigned[i]).1 < p.loads.len()
    &&& forall|i: int, j: int|
        0 <= i < p.assigned.len() && 0 <= j < p.assigned.len() && i != j ==> (#[trigger] p.assigned[i]).0
            != (#[trigger] p.assigned[j]).0
    &&& forall|c: int| 0 <= c < p.loads.len() ==> (#[trigger] p.loads[c]) == count_assigned(p.assigned, c)
}

/// Why a lobby could not be assigned.
#[derive(Debug, Clone, Copy, PartialEq, Eq, Structural)]
pub enum PoolError {
    /// The pool has no core.
    NoCores,
}

/// The pool after assigning `lobby`, and the index of its core. A lobby that has a core
/// keeps it; a new one goes to the next core in turn (round robin) or to the first of
/// the least loaded cores.
pub open spec fn assign_spec(p: PoolView, lobby: Seq<char>) -> (PoolView, Result<usize, PoolError>) {
    match find_assignment(p.assigned, lobby) {
        Some(i) => (p, Ok(p.assigned[i].1)),
        None => {
            if p.loads.len() == 0 {
                (p, Err(PoolError::NoCores))
            } else {
                let (index, next) = match p.strategy {
                    RtcAssignmentStrategy::RoundRobin => (
                        ((p.next_round_robin as int) % (p.loads.len() as int)) as usize,
                        if p.next_round_robin == usize::MAX { 0usize } else { (p.next_round_robin + 1) as usize },
                    ),
                    RtcAssignmentStrategy::LeastLoaded => (
                        (choose|k: int| is_least_loaded(p.loads, k)) as usize,
                        p.next_round_robin,
                    ),
                };
                (
                    PoolView {
                        strategy: p.strategy,
                        loads: p.loads.update(index as int, (p.loads[index as int] + 1) as usize),
                        assigned: p.assigned.push((lobby, index)),
                        next_round_robin: next,
                    },
                    Ok(index),
                )
            }
        },
    }
}

/// The pool after releasing `lobby`: its assignment goes and its core carries one
/// lobby less.
pub open spec fn release_spec(p: PoolView, lobby: Seq<char>) -> PoolView {
    match find_assignment(p.assigned, lobby) {
        Some(i) => {
            let core = p.assigned[i].1 as int;
            PoolView {
                loads: p.loads.update(core, if p.loads[core] == 0 { 0usize } else { (p.loads[core] - 1) as usize }),
                assigned: p.assigned.remove(i),
                ..p
            }
        },
        None => p,
    }
}

proof fn lemma_count_push(a: Seq<(Seq<char>, usize)>, x: (Seq<char>, usize), c: int)
    ensures
        count_assigned(a.push(x), c) == count_assigned(a, c) + if x.1 == c { 1nat } else { 0nat },
{
    assert(a.push(x).drop_last() =~= a);
}

proof fn lemma_count_remove(a: Seq<(Seq<char>, usize)>, i: int, c: int)
    requires
        0 <= i < a.len(),
    ensures
        count_assigned(a.remove(i), c) + (if a[i].1 == c { 1nat } else { 0nat }) == count_assigned(a, c),
    decreases a.len(),
{
    if i == a.len() - 1 {
        assert(a.remove(i) =~= a.drop_last());
    } else {
        lemma_count_remove(a.drop_last(), i, c);
        assert(a.remove(i).drop_last() =~= a.drop_last().remove(i));
        assert(a.remove(i).last() == a.last());
    }
}

proof fn lemma_count_bound(a: Seq<(Seq<char>, usize)>, c: int)
    ensures
        count_assigned(a, c) <= a.len(),
    decreases a.len(),
{
    if a.len() > 0 {
        lemma_count_bound(a.drop_last(), c);
    }
}

proof fn lemma_find_assignment(a: Seq<(Seq<char>, usize)>, lobby: Seq<char>, i: int)
    requires
        0 <= i < a.len(),
        a[i].0 == lobby,
        forall|x: int, y: int|
            0 <= x < a.len() && 0 <= y < a.len() && x != y ==> (#[trigger] a[x]).0 != (#[trigger] a[y]).0,
    ensures
        find_assignment(a, lobby) == Some(i),
{
}

/// The assignment of a new lobby keeps the pool well formed.
proof fn lemma_assign_wf(p: PoolView, lobby: Seq<char>)
    requires
        pool_wf(p),
        p.assigned.len() < usize::MAX,
    ensures
        pool_wf(assign_spec(p, lobby).0),
{
    if find_assignment(p.assigned, lobby) is None && p.loads.len() > 0 {
        let q = assign_spec(p, lobby).0;
        let index = q.assigned.last().1;
        if p.strategy == RtcAssignmentStrategy::LeastLoaded {
            lemma_least_loaded_exists(p.loads);
        }
        assert(index < p.loads.len());
        lemma_count_bound(p.assigned, index as int);
        assert(p.loads[index as int] == count_assigned(p.assigned, index as int));
        assert forall|c: int| 0 <= c < q.loads.len() implies (#[trigger] q.loads[c]) == count_assigned(q.assigned, c) by {
            lemma_count_push(p.assigned, (lobby, index), c);
            assert(p.loads[c] == count_assigned(p.assigned, c));
        }
        assert forall|i: int, j: int|
            0 <= i < q.assigned.len() && 0 <= j < q.assigned.len() && i != j implies (#[trigger] q.assigned[i]).0
                != (#[trigger] q.assigned[j]).0 by {
            if i == p.assigned.len() {
                assert(q.assigned[j] == p.assigned[j]);
            } else if j == p.assigned.len() {
                assert(q.assigned[i] == p.assigned[i]);
            }
        }
    }
}

proof fn lemma_least_loaded_exists(loads: Seq<usize>)
    requires
        loads.len() > 0,
    ensures
        exists|k: int| is_least_loaded(loads, k),
    decreases loads.len(),
{
    if loads.len() == 1 {
        assert(is_least_loaded(loads, 0));
    } else {
        let init = loads.drop_last();
        lemma_least_loaded_exists(init);
        let k = choose|k: int| is_least_loaded(init, k);
        let n = loads.len() - 1;
        assert forall|j: int| 0 <= j < n implies loads[j] == #[trigger] init[j] by {}
        if loads[k] <= loads[n] {
            assert forall|j: int| 0 <= j < loads.len() implies loads[k] <= #[trigger] loads[j] by {
                if j < n {
                    assert(init[k] <= init[j]);
                }
            }
            assert forall|j: int| 0 <= j < k implies loads[k] < #[trigger] loads[j] by {
                assert(init[k] < init[j]);
            }
            assert(is_least_loaded(loads, k));
        } else {
            assert forall|j: int| 0 <= j < loads.len() implies loads[n] <= #[trigger] loads[j] by {
                if j < n {
                    assert(init[k] <= init[j]);
                }
            }
            assert forall|j: int| 0 <= j < n implies loads[n] < #[trigger] loads[j] by {
                assert(init[k] <= init[j]);
            }
            assert(is_least_loaded(loads, n));
        }
    }
}

proof fn lemma_least_loaded_unique(loads: Seq<usize>, a: int, b: int)
    requires
        is_least_loaded(loads, a),
        is_least_loaded(loads, b),
    ensures
        a == b,
{
    if a < b {
        assert(loads[b] < loads[a]);
        assert(loads[a] <= loads[b]);
    } else if b < a {
        assert(loads[a] < loads[b]);
        assert(loads[b] <= loads[a]);
    }
}

/// One RTC core: its identity and the number of lobbies it serves.
#[derive(Debug, Clone, Copy, PartialEq, Eq, Structural)]
pub struct CoreSlot {
    pub id: RtcCoreId,
    pub lobby_count: usize,
}

/// Which core serves which lobby. The cores are numbered by their index.
#[derive(Debug)]
pub struct RtcAssignmentPool {
    strategy: RtcAssignmentStrategy,
    cores: Vec<CoreSlot>,
    assignments: Vec<(LobbyId, usize)>,
    next_round_robin: usize,
}

impl RtcAssignmentPool {
    pub closed spec fn view_pool(&self) -> PoolView {
        PoolView {
            strategy: self.strategy,
            loads: self.cores@.map_values(|c: CoreSlot| c.lobby_count),
            assigned: self.assignments@.map_values(|a: (LobbyId, usize)| (a.0@, a.1)),
            next_round_robin: self.next_round_robin,
        }
    }

    /// The identity of each core.
    pub closed spec fn core_ids(&self) -> Seq<RtcCoreId> {
        self.cores@.map_values(|c: CoreSlot| c.id)
    }

    /// The pool's state is consistent.
    pub open spec fn wf(&self) -> bool {
        pool_wf(self.view_pool())
    }

    /// A pool of `core_count` cores with identities `0..core_count` and no lobby.
    pub fn new(strategy: RtcAssignmentStrategy, core_count: usize) -> (p: Self)
        ensures
            p.wf(),
            p.view_pool() == (PoolView {
                strategy,
                loads: Seq::new(core_count as nat, |i: int| 0usize),
                assigned: Seq::empty(),
                next_round_robin: 0,
            }),
            p.core_ids() == Seq::new(core_count as nat, |i: int| i as RtcCoreId),
    {
        let mut cores: Vec<CoreSlot> = Vec::new();
        let mut i: usize = 0;
        while i < core_count
            invariant
                i <= core_count,
                cores@.len() == i,
                forall|j: int| 0 <= j < i ==> (#[trigger] cores@[j]) == (CoreSlot { id: j as RtcCoreId, lobby_count: 0 }),
            decreases core_count - i,
        {
            cores.push(CoreSlot { id: i as RtcCoreId, lobby_count: 0 });
            i = i + 1;
        }
        let p = RtcAssignmentPool { strategy, cores, assignments: Vec::new(), next_round_robin: 0 };
        assert(p.view_pool().loads =~= Seq::new(core_count as nat, |i: int| 0usize));
        assert(p.view_pool().assigned =~= Seq::<(Seq<char>, usize)>::empty());
        assert(p.core_ids() =~= Seq::new(core_count as nat, |i: int| i as RtcCoreId));
        p
    }

    fn find(&self, lobby_id: &LobbyId) -> (r: Option<usize>)
        requires
            self.wf(),
        ensures
            match r {
                Some(i) => find_assignment(self.view_pool().assigned, lobby_id@) == Some(i as int),
                None => find_assignment(self.view_pool().assigned, lobby_id@) is None,
            },
    {
        let ghost a = self.view_pool().assigned;
        let mut i: usize = 0;
        while i < self.assignments.len()
            invariant
                i <= self.assignments@.len(),
                a == self.view_pool().assigned,
                a.len() == self.assignments@.len(),
                pool_wf(self.view_pool()),
                forall|j: int| 0 <= j < i ==> (#[trigger] a[j]).0 != lobby_id@,
            decreases self.assignments@.len() - i,
        {
            if self.assignments[i].0.same_as(lobby_id) {
                proof {
                    lemma_find_assignment(a, lobby_id@, i as int);
                }
                return Some(i);
            }
            i = i + 1;
        }
        None
    }

    /// The index of the first of the least loaded cores.
    fn least_loaded(&self) -> (r: usize)
        requires
            self.cores@.len() > 0,
        ensures
            is_least_loaded(self.view_pool().loads, r as int),
    {
        let ghost loads = self.view_pool().loads;
        let mut best: usize = 0;
        let mut i: usize = 1;
        while i < self.cores.len()
            invariant
                1 <= i <= self.cores@.len(),
                best < i,
                loads == self.view_pool().loads,
                loads.len() == self.cores@.len(),
                forall|j: int| 0 <= j < i ==> loads[best as int] <= loads[j],
                forall|j: int| 0 <= j < best ==> loads[best as int] < loads[j],
            decreases self.cores@.len() - i,
        {
            if self.cores[i].lobby_count < self.cores[best].lobby_count {
                best = i;
            }
            i = i + 1;
        }
        best
    }

    /// The core of `lobby_id`: the one it already has, or a new one chosen by the
    /// strategy.
    pub fn assign_lobby(&mut self, lobby_id: &LobbyId) -> (r: Result<usize, PoolError>)
        requires
            old(self).wf(),
            old(self).view_pool().assigned.len() < usize::MAX,
        ensures
            final(self).wf(),
            (final(self).view_pool(), r) == assign_spec(old(self).view_pool(), lobby_id@),
            final(self).core_ids() == old(self).core_ids(),
    {
        let ghost p = self.view_pool();
        proof {
            lemma_assign_wf(p, lobby_id@);
        }
        if let Some(i) = self.find(lobby_id) {
            return Ok(self.assignments[i].1);
        }
        if self.cores.len() == 0 {
            return Err(PoolError::NoCores);
        }
        let index: usize = match self.strategy {
            RtcAssignmentStrategy::RoundRobin => {
                let index = self.next_round_robin % self.cores.len();
                self.next_round_robin = self.next_round_robin.wrapping_add(1);
                index
            },
            RtcAssignmentStrategy::LeastLoaded => {
                let index = self.least_loaded();
                proof {
                    lemma_least_loaded_exists(p.loads);
                    let k = choose|k: int| is_least_loaded(p.loads, k);
                    lemma_least_loaded_unique(p.loads, k, index as int);
                }
                index
            },
        };
        proof {
            lemma_count_bound(p.assigned, index as int);
        }
        self.assignments.push((lobby_id.duplicate(), index));
        let slot = self.cores[index];
        self.cores.set(index, CoreSlot { id: slot.id, lobby_count: slot.lobby_count + 1 });
        let ghost q = assign_spec(p, lobby_id@).0;
        assert(self.view_pool().loads =~= q.loads);
        assert(self.view_pool().assigned =~= q.assigned);
        assert(self.core_ids() =~= old(self).core_ids());
        Ok(index)
    }

    /// Forgets the core of `lobby_id`, once its lobby has stopped.
    pub fn release_lobby(&mut self, lobby_id: &LobbyId)
        requires
            old(self).wf(),
        ensures
            final(self).wf(),
            final(self).view_pool() == release_spec(old(self).view_pool(), lobby_id@),
            final(self).core_ids() == old(self).core_ids(),
    {
        let ghost p = self.view_pool();
        if let Some(i) = self.find(lobby_id) {
            let (_, index) = self.assignments.remove(i);
            let slot = self.cores[index];
            self.cores.set(index, CoreSlot { id: slot.id, lobby_count: slot.lobby_count.saturating_sub(1) });
            let ghost q = release_spec(p, lobby_id@);
            assert(self.view_pool().loads =~= q.loads);
            assert(self.view_pool().assigned =~= q.assigned);
            assert(self.core_ids() =~= old(self).core_ids());
            proof {
                assert forall|c: int| 0 <= c < q.loads.len() implies (#[trigger] q.loads[c]) == count_assigned(q.assigned, c) by {
                    lemma_count_remove(p.assigned, i as int, c);
                }
                assert forall|x: int, y: int|
                    0 <= x < q.assigned.len() && 0 <= y < q.assigned.len() && x != y implies (#[trigger] q.assigned[x]).0
                        != (#[trigger] q.assigned[y]).0 by {
                    let x2 = if x < i { x } else { x + 1 };
                    let y2 = if y < i { y } else { y + 1 };
                    assert(q.assigned[x] == p.assigned[x2]);
                    assert(q.assigned[y] == p.assigned[y2]);
                }
                assert forall|x: int| 0 <= x < q.assigned.len() implies (#[trigger] q.assigned[x]).1 < q.loads.len() by {
                    let x2 = if x < i { x } else { x + 1 };
                    assert(q.assigned[x] == p.assigned[x2]);
                }
            }
        }
    }

    /// The identity of the core at `index`.
    pub fn core_id(&self, index: usize) -> (id: RtcCoreId)
        requires
            index < self.core_ids().len(),
        ensures
            id == self.core_ids()[index as int],
    {
        self.cores[index].id
    }

    /// The number of cores.
    pub fn core_count(&self) -> (n: usize)
        ensures
            n == self.view_pool().loads.len(),
    {
        self.cores.len()
    }
}

/// A lobby keeps its core: once assigned, assigning it again gives the same core and
/// changes nothing.
pub proof fn lemma_assignment_is_sticky(p: PoolView, lobby: Seq<char>)
    requires
        pool_wf(p),
        p.assigned.len() < usize::MAX,
        assign_spec(p, lobby).1 is Ok,
    ensures
        assign_spec(assign_spec(p, lobby).0, lobby) == (assign_spec(p, lobby).0, assign_spec(p, lobby).1),
{
    let q = assign_spec(p, lobby).0;
    lemma_assign_wf(p, lobby);
    if find_assignment(p.assigned, lobby) is None {
        lemma_find_assignment(q.assigned, lobby, q.assigned.len() - 1);
    }
}

/// Releasing a lobby right after its first assignment gives back the pool's loads and
/// assignments.
pub proof fn lemma_release_undoes_assign(p: PoolView, lobby: Seq<char>)
    requires
        pool_wf(p),
        p.assigned.len() < usize::MAX,
        find_assignment(p.assigned, lobby) is None,
        assign_spec(p, lobby).1 is Ok,
    ensures
        release_spec(assign_spec(p, lobby).0, lobby).loads == p.loads,
        release_spec(assign_spec(p, lobby).0, lobby).assigned == p.assigned,
{
    let q = assign_spec(p, lobby).0;
    lemma_assign_wf(p, lobby);
    lemma_find_assignment(q.assigned, lobby, q.assigned.len() - 1);
    let index = q.assigned.last().1 as int;
    if p.strategy == RtcAssignmentStrategy::LeastLoaded {
        lemma_least_loaded_exists(p.loads);
    }
    assert(q.loads.len() == p.loads.len());
    assert(q.assigned[q.assigned.len() - 1].1 < q.loads.len());
    lemma_count_bound(p.assigned, index);
    assert(p.loads[index] == count_assigned(p.assigned, index));
    assert(q.loads[index] == p.loads[index] + 1);
    assert(q.assigned.remove(q.assigned.len() - 1) =~= p.assigned);
    assert(release_spec(q, lobby).loads =~= p.loads);
}

/// The pool after a run of requests, in order: `(true, l)` assigns lobby `l`, `(false, l)`
/// releases it.
pub open spec fn apply_pool_ops(p: PoolView, ops: Seq<(bool, Seq<char>)>) -> PoolView
    decreases ops.len(),
{
    if ops.len() == 0 {
        p
    } else {
        let q = apply_pool_ops(p, ops.drop_last());
        if ops.last().0 {
            assign_spec(q, ops.last().1).0
        } else {
            release_spec(q, ops.last().1)
        }
    }
}

/// `lobby` is assigned, and to core `core` wherever it appears.
spec fn assigned_to(a: Seq<(Seq<char>, usize)>, lobby: Seq<char>, core: usize) -> bool {
    &&& exists|i: int| 0 <= i < a.len() && a[i].0 == lobby
    &&& forall|i: int| 0 <= i < a.len() && (#[trigger] a[i]).0 == lobby ==> a[i].1 == core
}

proof fn lemma_other_ops_keep_assignment(p: PoolView, lobby: Seq<char>, core: usize, ops: Seq<(bool, Seq<char>)>)
    requires
        assigned_to(p.assigned, lobby, core),
        forall|i: int| 0 <= i < ops.len() ==> (#[trigger] ops[i]).1 != lobby,
    ensures
        assigned_to(apply_pool_ops(p, ops).assigned, lobby, core),
    decreases ops.len(),
{
    if ops.len() > 0 {
        let init = ops.drop_last();
        assert forall|i: int| 0 <= i < init.len() implies (#[trigger] init[i]).1 != lobby by {
            assert(init[i] == ops[i]);
        }
        lemma_other_ops_keep_assignment(p, lobby, core, init);
        let q = apply_pool_ops(p, init);
        let a = q.assigned;
        let other = ops.last().1;
        assert(ops[ops.len() - 1].1 != lobby);
        let w = choose|i: int| 0 <= i < a.len() && a[i].0 == lobby;
        if ops.last().0 {
            let b = assign_spec(q, other).0.assigned;
            if b != a {
                assert(b == a.push((other, b.last().1)));
                assert(b[w] == a[w]);
                assert forall|i: int| 0 <= i < b.len() && (#[trigger] b[i]).0 == lobby implies b[i].1 == core by {
                    if i < a.len() {
                        assert(b[i] == a[i]);
                    }
                }
            }
        } else {
            match find_assignment(a, other) {
                Some(j) => {
                    let b = a.remove(j);
                    assert(release_spec(q, other).assigned == b);
                    assert(a[j].0 == other);
                    if w < j {
                        assert(b[w] == a[w]);
                    } else {
                        assert(b[w - 1] == a[w]);
                    }
                    assert forall|i: int| 0 <= i < b.len() && (#[trigger] b[i]).0 == lobby implies b[i].1 == core by {
                        if i < j {
                            assert(b[i] == a[i]);
                        } else {
                            assert(b[i] == a[i + 1]);
                        }
                    }
                },
                None => {},
            }
        }
    }
}

/// A lobby stays on its core until it is released: once assigned, any run of requests
/// that assign or release other lobbies leaves it where it is, and assigning it again
/// then gives the same core and changes nothing (no load, no assignment, no round-robin
/// position).
pub proof fn lemma_assignment_sticks_until_released(p: PoolView, lobby: Seq<char>, ops: Seq<(bool, Seq<char>)>)
    requires
        pool_wf(p),
        p.assigned.len() < usize::MAX,
        assign_spec(p, lobby).1 is Ok,
        forall|i: int| 0 <= i < ops.len() ==> (#[trigger] ops[i]).1 != lobby,
    ensures
        ({
            let q = apply_pool_ops(assign_spec(p, lobby).0, ops);
            assign_spec(q, lobby) == (q, assign_spec(p, lobby).1)
        }),
{
    let p1 = assign_spec(p, lobby).0;
    let core = assign_spec(p, lobby).1->Ok_0;
    match find_assignment(p.assigned, lobby) {
        Some(i) => {
            assert(0 <= i < p.assigned.len() && p.assigned[i].0 == lobby);
            assert forall|j: int| 0 <= j < p1.assigned.len() && (#[trigger] p1.assigned[j]).0 == lobby implies p1.assigned[j].1 == core by {
                if j != i {
                    assert(p.assigned[j].0 != p.assigned[i].0);
                }
            }
        },
        None => {
            let n = p.assigned.len() as int;
            assert(p1.assigned[n] == (lobby, core));
            assert forall|j: int| 0 <= j < p1.assigned.len() && (#[trigger] p1.assigned[j]).0 == lobby implies p1.assigned[j].1 == core by {
                if j < n {
                    assert(p1.assigned[j] == p.assigned[j]);
                }
            }
        },
    }
    lemma_other_ops_keep_assignment(p1, lobby, core, ops);
    let q = apply_pool_ops(p1, ops);
    let j = choose|i: int| 0 <= i < q.assigned.len() && q.assigned[i].0 == lobby;
    assert(q.assigned[j].0 == lobby);
}

} // verus!
