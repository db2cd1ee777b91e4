//! The block of UDP ports that the RTC cores lease from.
use vstd::prelude::*;
use std::collections::BTreeSet;

verus! {

broadcast use {vstd::std_specs::btree::group_btree_axioms, vstd::laws_cmp::group_laws_cmp};

/// The ports `start..=end`.
pub open spec fn port_range(start: u16, end: u16) -> Set<u16> {
    Set::new(|p: u16| start <= p <= end)
}

/// `BTreeSet::first`: the least element of the set, or `None` when it is empty.
#[verifier::external_body]
fn least_port(set: &BTreeSet<u16>) -> (r: Option<u16>)
    ensures
        match r {
            Some(p) => set@.contains(p) && forall|q: u16| set@.contains(q) ==> p <= q,
            None => set@ == Set::<u16>::empty(),
        },
{
    set.first().copied()
}

/// A fixed block of ports `start..=end` and the ones of them that are free.
#[derive(Debug)]
pub struct PortAllocator {
    start: u16,
    end: u16,
    free: BTreeSet<u16>,
}

/// One port handed out by a `PortAllocator`; give it back with `PortAllocator::release`.
#[derive(Debug, PartialEq, Eq)]
pub struct PortLease {
    port: u16,
}

impl PortLease {
    /// The leased port, as a value of the specification.
    pub closed spec fn spec_port(&self) -> u16 {
        self.port
    }

    /// The leased port.
    pub fn port(&self) -> (p: u16)
        ensures
            p == self.spec_port(),
    {
        self.port
    }
}

impl PortAllocator {
    /// First port of the block.
    pub closed spec fn spec_start(&self) -> u16 {
        self.start
    }

    /// Last port of the block.
    pub closed spec fn spec_end(&self) -> u16 {
        self.end
    }

    /// The ports that are free now.
    pub closed spec fn free_ports(&self) -> Set<u16> {
        self.free@
    }

    /// The block is not empty and only its own ports are free.
    pub closed spec fn wf(&self) -> bool {
        &&& self.start <= self.end
        &&& self.free@.subset_of(port_range(self.start, self.end))
        &&& self.free@.finite()
    }

    /// A block with every port of `start..=end` free.
    pub fn new(start: u16, end: u16) -> (r: Self)
        requires
            start <= end,
        ensures
            r.wf(),
            r.spec_start() == start,
            r.spec_end() == end,
            r.free_ports() == port_range(start, end),
    {
        let mut free: BTreeSet<u16> = BTreeSet::new();
        let mut i: u32 = start as u32;
        while i <= end as u32
            invariant
                start <= i <= end as u32 + 1,
                free@.finite(),
                free@ == Set::new(|q: u16| start <= q && (q as u32) < i),
            decreases end as u32 + 1 - i,
        {
            free.insert(i as u16);
            assert(free@ =~= Set::new(|q: u16| start <= q && (q as u32) < i + 1));
            i = i + 1;
        }
        assert(free@ =~= port_range(start, end));
        PortAllocator { start, end, free }
    }

    /// Leases the lowest free port, or gives `None` when every port is leased.
    pub fn acquire(&mut self) -> (r: Option<PortLease>)
        requires
            old(self).wf(),
        ensures
            final(self).wf(),
            final(self).spec_start() == old(self).spec_start(),
            final(self).spec_end() == old(self).spec_end(),
            match r {
                Some(lease) => acquired(*old(self), *final(self), lease),
                None => {
                    &&& old(self).free_ports() == Set::<u16>::empty()
                    &&& final(self).free_ports() == old(self).free_ports()
                },
            },
    {
        match least_port(&self.free) {
            Some(port) => {
                self.free.remove(&port);
                Some(PortLease { port })
            },
            None => None,
        }
    }

    /// Takes a lease back: its port is free again if it belongs to this block.
    pub fn release(&mut self, lease: PortLease)
        requires
            old(self).wf(),
        ensures
            final(self).wf(),
            final(self).spec_start() == old(self).spec_start(),
            final(self).spec_end() == old(self).spec_end(),
            released(*old(self), lease, *final(self)),
    {
        let port = lease.port;
        if port >= self.start && port <= self.end {
            self.free.insert(port);
        }
    }

    /// How many ports are free.
    pub fn available(&self) -> (n: usize)
        requires
            self.wf(),
        ensures
            n == self.free_ports().len(),
            self.free_ports().finite(),
    {
        self.free.len()
    }

    /// How many ports the block holds.
    pub fn capacity(&self) -> (n: usize)
        requires
            self.wf(),
        ensures
            n == self.spec_end() - self.spec_start() + 1,
    {
        (self.end - self.start) as usize + 1
    }
}

/// `after` is `before` with `lease`, its lowest free port, taken out.
pub open spec fn acquired(before: PortAllocator, after: PortAllocator, lease: PortLease) -> bool {
    &&& before.free_ports().contains(lease.spec_port())
    &&& forall|q: u16| before.free_ports().contains(q) ==> lease.spec_port() <= q
    &&& after.free_ports() == before.free_ports().remove(lease.spec_port())
}

/// `after` is `before` with the port of `lease` free again, when the port is one of its block.
pub open spec fn released(before: PortAllocator, lease: PortLease, after: PortAllocator) -> bool {
    after.free_ports() == if before.spec_start() <= lease.spec_port() <= before.spec_end() {
        before.free_ports().insert(lease.spec_port())
    } else {
        before.free_ports()
    }
}

/// Leasing a port and handing the lease back leaves the free ports as they were.
pub proof fn lemma_acquire_release_restores(
    a: PortAllocator,
    b: PortAllocator,
    lease: PortLease,
    c: PortAllocator,
)
    requires
        a.wf(),
        b.spec_start() == a.spec_start(),
        b.spec_end() == a.spec_end(),
        acquired(a, b, lease),
        released(b, lease, c),
    ensures
        c.free_ports() == a.free_ports(),
{
    assert(a.free_ports().remove(lease.spec_port()).insert(lease.spec_port()) =~= a.free_ports());
}

/// A lease holds a port that was free, and while it is out the port is not free:
/// no port is leased twice.
pub proof fn lemma_leased_port_not_free(a: PortAllocator, b: PortAllocator, lease: PortLease)
    requires
        acquired(a, b, lease),
    ensures
        a.free_ports().contains(lease.spec_port()),
        !b.free_ports().contains(lease.spec_port()),
{
}

/// Of a well-formed block, the free ports are never more than the block holds.
pub proof fn lemma_available_within_capacity(a: PortAllocator)
    requires
        a.wf(),
    ensures
        a.free_ports().len() <= a.spec_end() - a.spec_start() + 1,
{
    let f = |q: u16| q as int;
    let r = vstd::set_lib::set_int_range(a.spec_start() as int, a.spec_end() as int + 1);
    vstd::set_lib::lemma_int_range(a.spec_start() as int, a.spec_end() as int + 1);
    let img = a.free_ports().map(f);
    assert(img.subset_of(r));
    assert forall|x: u16, y: u16| #[trigger] f(x) == #[trigger] f(y) implies x == y by {}
    vstd::set_lib::lemma_map_size(a.free_ports(), img, f);
    vstd::set_lib::lemma_len_subset(img, r);
}

/// A well-formed block's free ports are a finite set of its own ports.
pub proof fn lemma_free_ports_finite(a: PortAllocator)
    requires
        a.wf(),
    ensures
        a.free_ports().finite(),
        a.free_ports().subset_of(port_range(a.spec_start(), a.spec_end())),
{
}

/// A new lease never holds the port of a lease still out: a port that is not free
/// before an acquisition is not the one leased, and is still not free after it. So
/// every port out on lease stays out, and all the leases out hold different ports.
pub proof fn lemma_new_lease_differs_from_live_ones(a: PortAllocator, b: PortAllocator, lease: PortLease, live: u16)
    requires
        acquired(a, b, lease),
        !a.free_ports().contains(live),
    ensures
        lease.spec_port() != live,
        !b.free_ports().contains(live),
{
}

} // verus!
