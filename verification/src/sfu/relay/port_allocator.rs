//! Ports for the UDP sockets of relays, drawn at random from a range.
use vstd::prelude::*;
use rand::Rng;
use std::collections::HashSet;

verus! {

broadcast use vstd::std_specs::hash::group_hash_axioms;

/// How many random draws `allocate_port` makes before it gives up.
pub const ALLOCATION_ATTEMPTS: u32 = 1000;

/// `rand::Rng::gen_range(min..=max)` on the thread-local generator: a port drawn at
/// random from the range. Nothing is promised of the value but its range.
#[verifier::external_body]
fn random_port(min: u16, max: u16) -> (r: u16)
    requires
        min <= max,
    ensures
        min <= r <= max,
{
    rand::thread_rng().gen_range(min..=max)
}

/// The ports `min..=max` and those of them that relays hold.
pub struct PortAllocator {
    used_ports: HashSet<u16>,
    min: u16,
    max: u16,
}

impl PortAllocator {
    /// The ports in use.
    pub closed spec fn used(&self) -> Set<u16> {
        self.used_ports@
    }

    /// Lowest port of the range.
    pub closed spec fn spec_min(&self) -> u16 {
        self.min
    }

    /// Highest port of the range.
    pub closed spec fn spec_max(&self) -> u16 {
        self.max
    }

    /// A range with no port in use.
    pub fn new(min: u16, max: u16) -> (r: Self)
        ensures
            r.used() == Set::<u16>::empty(),
            r.spec_min() == min,
            r.spec_max() == max,
    {
        PortAllocator { used_ports: HashSet::new(), min, max }
    }

    /// Whether the range holds no port at all (`min > max`): drawing from it is not
    /// possible.
    pub fn range_is_empty(&self) -> (b: bool)
        ensures
            b == (self.spec_min() > self.spec_max()),
    {
        self.min > self.max
    }

    /// Every port of the range is in use.
    pub open spec fn range_full(&self) -> bool {
        forall|p: u16| self.spec_min() <= p <= self.spec_max() ==> #[trigger] self.used().contains(p)
    }

    /// Draws up to `ALLOCATION_ATTEMPTS` random ports of the range and takes the first
    /// that is not in use and that `port_is_bindable` accepts (the operating system
    /// lets a socket bind it). Gives `None`, and changes nothing, when every draw failed.
    pub fn allocate_port<F: Fn(u16) -> bool>(&mut self, port_is_bindable: F) -> (r: Option<u16>)
        requires
            old(self).spec_min() <= old(self).spec_max(),
            forall|p: u16| call_requires(port_is_bindable, (p,)),
        ensures
            final(self).spec_min() == old(self).spec_min(),
            final(self).spec_max() == old(self).spec_max(),
            match r {
                Some(port) => {
                    &&& old(self).spec_min() <= port <= old(self).spec_max()
                    &&& !old(self).used().contains(port)
                    &&& call_ensures(port_is_bindable, (port,), true)
                    &&& final(self).used() == old(self).used().insert(port)
                },
                None => final(self).used() == old(self).used(),
            },
            old(self).range_full() ==> r is None,
    {
        let mut attempt: u32 = 0;
        while attempt < ALLOCATION_ATTEMPTS
            invariant
                self.min <= self.max,
                self.min == old(self).min,
                self.max == old(self).max,
                self.used_ports@ == old(self).used_ports@,
                forall|p: u16| call_requires(port_is_bindable, (p,)),
                old(self).range_full() ==> self.range_full(),
            decreases ALLOCATION_ATTEMPTS - attempt,
        {
            let port = random_port(self.min, self.max);
            proof {
                if self.range_full() {
                    assert(self.used().contains(port));
                }
            }
            let bindable = !self.used_ports.contains(&port) && port_is_bindable(port);
            if self.take_port(port, bindable) {
                return Some(port);
            }
            attempt = attempt + 1;
        }
        None
    }

    /// Takes a drawn port, given whether the operating system lets a socket bind it: the
    /// port is taken when it is not in use and bindable; otherwise nothing changes.
    /// Returns whether it was taken.
    pub fn take_port(&mut self, port: u16, bindable: bool) -> (taken: bool)
        ensures
            taken == (!old(self).used().contains(port) && bindable),
            final(self).used() == (if taken { old(self).used().insert(port) } else { old(self).used() }),
            final(self).spec_min() == old(self).spec_min(),
            final(self).spec_max() == old(self).spec_max(),
    {
        if bindable && !self.used_ports.contains(&port) {
            self.used_ports.insert(port);
            true
        } else {
            false
        }
    }

    /// Gives a port back; releasing a port that is not in use changes nothing.
    pub fn release_port(&mut self, port: u16)
        ensures
            final(self).used() == old(self).used().remove(port),
            final(self).spec_min() == old(self).spec_min(),
            final(self).spec_max() == old(self).spec_max(),
    {
        self.used_ports.remove(&port);
    }
}

/// A port that `allocate_port` hands out was not in use before; once it is released
/// the ports in use are what they were before it was taken.
pub proof fn lemma_allocate_release_restores(
    a: PortAllocator,
    b: PortAllocator,
    port: u16,
    c: PortAllocator,
)
    requires
        !a.used().contains(port),
        b.used() == a.used().insert(port),
        c.used() == b.used().remove(port),
    ensures
        b.used().contains(port),
        c.used() == a.used(),
{
    assert(a.used().insert(port).remove(port) =~= a.used());
}

} // verus!
