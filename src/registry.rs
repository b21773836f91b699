//! The rendezvous server's registry of hosts: a bounded, one-to-one mapping
//! between host names and host addresses.
use vstd::prelude::*;
use crate::addr::PeerAddr;
use crate::bytes::{bytes_eq, copy_bytes};

verus! {

/// Whether some name is registered at `addr`.
pub open spec fn address_in_use(m: Map<Seq<u8>, PeerAddr>, addr: PeerAddr) -> bool {
    exists|n: Seq<u8>| #[trigger] m.contains_key(n) && m[n] == addr
}

/// Whether a host at `addr` may take `name`: the name is free, the address
/// holds no other name, and the registry is below its capacity.
pub open spec fn can_register(
    m: Map<Seq<u8>, PeerAddr>,
    max_hosts: nat,
    name: Seq<u8>,
    addr: PeerAddr,
) -> bool {
    &&& !m.contains_key(name)
    &&& !address_in_use(m, addr)
    &&& m.len() < max_hosts
}

/// The registry after a host at `addr` asks for `name`.
pub open spec fn after_register(
    m: Map<Seq<u8>, PeerAddr>,
    max_hosts: nat,
    name: Seq<u8>,
    addr: PeerAddr,
) -> Map<Seq<u8>, PeerAddr> {
    if can_register(m, max_hosts, name, addr) {
        m.insert(name, addr)
    } else {
        m
    }
}

/// The registry after the peer at `addr` goes away: every name held at
/// that address is gone.
pub open spec fn without_address(m: Map<Seq<u8>, PeerAddr>, addr: PeerAddr) -> Map<
    Seq<u8>,
    PeerAddr,
> {
    Map::new(|n: Seq<u8>| m.contains_key(n) && m[n] != addr, |n: Seq<u8>| m[n])
}

/// The address registered under `name`, if any.
pub open spec fn lookup_spec(m: Map<Seq<u8>, PeerAddr>, name: Seq<u8>) -> Option<PeerAddr> {
    if m.contains_key(name) {
        Some(m[name])
    } else {
        None
    }
}

/// Host names and addresses, one to one, with at most `max_hosts` entries.
pub struct HostRegistry {
    entries: Vec<(Vec<u8>, PeerAddr)>,
    max_hosts: usize,
    names: Ghost<Map<Seq<u8>, PeerAddr>>,
}

impl View for HostRegistry {
    type V = Map<Seq<u8>, PeerAddr>;

    closed spec fn view(&self) -> Map<Seq<u8>, PeerAddr> {
        self.names@
    }
}

impl HostRegistry {
    /// The capacity the registry was made with.
    pub closed spec fn capacity(&self) -> nat {
        self.max_hosts as nat
    }

    pub closed spec fn wf(&self) -> bool {
        let m = self.names@;
        &&& m.dom().finite()
        &&& m.len() == self.entries@.len()
        &&& self.entries@.len() <= self.max_hosts
        &&& forall|i: int|
            0 <= i < self.entries@.len() ==> #[trigger] m.contains_key(self.entries@[i].0@)
                && m[self.entries@[i].0@] == self.entries@[i].1
        &&& forall|n: Seq<u8>|
            #[trigger] m.contains_key(n) ==> exists|i: int|
                0 <= i < self.entries@.len() && #[trigger] self.entries@[i].0@ == n
        &&& forall|i: int, j: int|
            0 <= i < self.entries@.len() && 0 <= j < self.entries@.len() && i != j ==> {
                &&& #[trigger] self.entries@[i].0@ != #[trigger] self.entries@[j].0@
                &&& self.entries@[i].1 != self.entries@[j].1
            }
    }

    /// Every well-formed registry is finite, within its capacity, and one to
    /// one between names and addresses.
    pub proof fn lemma_wf(&self)
        requires
            self.wf(),
        ensures
            self@.dom().finite(),
            self@.len() <= self.capacity(),
            forall|a: Seq<u8>, b: Seq<u8>|
                #[trigger] self@.contains_key(a) && #[trigger] self@.contains_key(b) && a != b
                    ==> self@[a] != self@[b],
    {
        assert forall|a: Seq<u8>, b: Seq<u8>|
            #[trigger] self@.contains_key(a) && #[trigger] self@.contains_key(b) && a != b
                implies self@[a] != self@[b] by {
            let i = choose|i: int| 0 <= i < self.entries@.len() && self.entries@[i].0@ == a;
            let j = choose|j: int| 0 <= j < self.entries@.len() && self.entries@[j].0@ == b;
            assert(self.entries@[i].1 != self.entries@[j].1);
        }
    }

    /// An empty registry that will hold at most `max_hosts` hosts.
    pub fn new(max_hosts: usize) -> (r: HostRegistry)
        ensures
            r.wf(),
            r@ == Map::<Seq<u8>, PeerAddr>::empty(),
            r.capacity() == max_hosts,
    {
        HostRegistry { entries: Vec::new(), max_hosts, names: Ghost(Map::empty()) }
    }

    /// The number of registered hosts.
    pub fn len(&self) -> (r: usize)
        requires
            self.wf(),
        ensures
            r == self@.len(),
    {
        self.entries.len()
    }

    /// The capacity the registry was made with.
    pub fn max_hosts(&self) -> (r: usize)
        ensures
            r == self.capacity(),
    {
        self.max_hosts
    }

    /// The position of the entry named `name`, if any.
    fn find_name(&self, name: &[u8]) -> (r: Option<usize>)
        requires
            self.wf(),
        ensures
            match r {
                Some(i) => i < self.entries@.len() && self.entries@[i as int].0@ == name@,
                None => !self@.contains_key(name@),
            },
    {
        let mut i: usize = 0;
        while i < self.entries.len()
            invariant
                self.wf(),
                i <= self.entries@.len(),
                forall|j: int| 0 <= j < i ==> self.entries@[j].0@ != name@,
            decreases self.entries@.len() - i,
        {
            if bytes_eq(self.entries[i].0.as_slice(), name) {
                return Some(i);
            }
            i = i + 1;
        }
        None
    }

    /// The position of the entry at `addr`, if any.
    fn find_address(&self, addr: PeerAddr) -> (r: Option<usize>)
        requires
            self.wf(),
        ensures
            match r {
                Some(i) => i < self.entries@.len() && self.entries@[i as int].1 == addr,
                None => !address_in_use(self@, addr),
            },
    {
        let mut i: usize = 0;
        while i < self.entries.len()
            invariant
                self.wf(),
                i <= self.entries@.len(),
                forall|j: int| 0 <= j < i ==> self.entries@[j].1 != addr,
            decreases self.entries@.len() - i,
        {
            if self.entries[i].1 == addr {
                return Some(i);
            }
            i = i + 1;
        }
        proof {
            assert forall|n: Seq<u8>| #[trigger] self@.contains_key(n) implies self@[n] != addr by {
                let j = choose|j: int| 0 <= j < self.entries@.len() && self.entries@[j].0@ == n;
                assert(self.entries@[j].1 != addr);
            }
        }
        None
    }

    /// The address registered under `name`, if any.
    pub fn lookup(&self, name: &[u8]) -> (r: Option<PeerAddr>)
        requires
            self.wf(),
        ensures
            r == lookup_spec(self@, name@),
    {
        match self.find_name(name) {
            Some(i) => Some(self.entries[i].1),
            None => None,
        }
    }

    /// The name registered at `addr`, if any.
    pub fn name_at(&self, addr: PeerAddr) -> (r: Option<Vec<u8>>)
        requires
            self.wf(),
        ensures
            match r {
                Some(n) => self@.contains_key(n@) && self@[n@] == addr,
                None => !address_in_use(self@, addr),
            },
    {
        match self.find_address(addr) {
            Some(i) => {
                assert(self@.contains_key(self.entries@[i as int].0@));
                Some(copy_bytes(self.entries[i].0.as_slice()))
            },
            None => None,
        }
    }

    /// Registers `name` at `addr` when the name is free, the address holds
    /// no other name and the registry is below capacity; otherwise leaves the
    /// registry as it is. Returns whether the name was taken.
    pub fn register(&mut self, name: Vec<u8>, addr: PeerAddr) -> (r: bool)
        requires
            old(self).wf(),
        ensures
            final(self).wf(),
            final(self).capacity() == old(self).capacity(),
            r == can_register(old(self)@, old(self).capacity(), name@, addr),
            final(self)@ == after_register(old(self)@, old(self).capacity(), name@, addr),
    {
        if self.entries.len() >= self.max_hosts {
            return false;
        }
        match self.find_name(name.as_slice()) {
            Some(_) => {
                assert(self@.contains_key(name@));
                return false;
            },
            None => {},
        }
        match self.find_address(addr) {
            Some(i) => {
                assert(self@.contains_key(self.entries@[i as int].0@));
                return false;
            },
            None => {},
        }
        let ghost old_names = self.names@;
        let ghost old_entries = self.entries@;
        let ghost key = name@;
        self.entries.push((name, addr));
        self.names = Ghost(old_names.insert(key, addr));
        proof {
            let m = self.names@;
            let e = self.entries@;
            assert(e.len() == old_entries.len() + 1);
            assert(e[e.len() - 1].0@ == key);
            assert forall|i: int| 0 <= i < e.len() implies #[trigger] m.contains_key(e[i].0@)
                && m[e[i].0@] == e[i].1 by {
                if i < old_entries.len() {
                    assert(e[i] == old_entries[i]);
                    assert(old_names.contains_key(old_entries[i].0@));
                    assert(old_entries[i].0@ != key);
                }
            }
            assert forall|n: Seq<u8>| #[trigger] m.contains_key(n) implies exists|i: int|
                0 <= i < e.len() && #[trigger] e[i].0@ == n by {
                if n == key {
                    assert(e[e.len() - 1].0@ == n);
                } else {
                    assert(old_names.contains_key(n));
                    let j = choose|j: int| 0 <= j < old_entries.len() && old_entries[j].0@ == n;
                    assert(e[j] == old_entries[j]);
                }
            }
            assert forall|i: int, j: int|
                0 <= i < e.len() && 0 <= j < e.len() && i != j implies {
                &&& #[trigger] e[i].0@ != #[trigger] e[j].0@
                &&& e[i].1 != e[j].1
            } by {
                if i < old_entries.len() && j < old_entries.len() {
                    assert(e[i] == old_entries[i]);
                    assert(e[j] == old_entries[j]);
                } else if i < old_entries.len() {
                    assert(e[i] == old_entries[i]);
                    assert(old_names.contains_key(old_entries[i].0@));
                    assert(old_names[old_entries[i].0@] == old_entries[i].1);
                } else {
                    assert(e[j] == old_entries[j]);
                    assert(old_names.contains_key(old_entries[j].0@));
                    assert(old_names[old_entries[j].0@] == old_entries[j].1);
                }
            }
        }
        true
    }

    /// Forgets the host at `addr`, if one is registered there.
    pub fn remove_address(&mut self, addr: PeerAddr)
        requires
            old(self).wf(),
        ensures
            final(self).wf(),
            final(self).capacity() == old(self).capacity(),
            final(self)@ == without_address(old(self)@, addr),
    {
        match self.find_address(addr) {
            None => {
                proof {
                    assert(self@ =~= without_address(self@, addr));
                }
            },
            Some(i) => {
                let ghost old_names = self.names@;
                let ghost old_entries = self.entries@;
                let ghost key = old_entries[i as int].0@;
                proof {
                    self.lemma_wf();
                    assert(old_names.contains_key(key));
                    assert(forall|a: int, b: int|
                        0 <= a < old_entries.len() && 0 <= b < old_entries.len() && a != b
                            ==> #[trigger] old_entries[a].0@ != #[trigger] old_entries[b].0@
                            && old_entries[a].1 != old_entries[b].1);
                    assert(forall|a: int|
                        0 <= a < old_entries.len() ==> #[trigger] old_names.contains_key(
                            old_entries[a].0@,
                        ) && old_names[old_entries[a].0@] == old_entries[a].1);
                }
                self.entries.remove(i);
                self.names = Ghost(old_names.remove(key));
                proof {
                    let m = self.names@;
                    let e = self.entries@;
                    assert(e =~= old_entries.remove(i as int));
                    assert forall|k: int| 0 <= k < e.len() implies #[trigger] m.contains_key(e[k].0@)
                        && m[e[k].0@] == e[k].1 by {
                        let k0 = if k < i { k } else { k + 1 };
                        assert(e[k] == old_entries[k0]);
                        assert(old_entries[k0].0@ != old_entries[i as int].0@);
                        assert(old_names.contains_key(old_entries[k0].0@));
                    }
                    assert forall|n: Seq<u8>| #[trigger] m.contains_key(n) implies exists|k: int|
                        0 <= k < e.len() && #[trigger] e[k].0@ == n by {
                        let j = choose|j: int| 0 <= j < old_entries.len() && old_entries[j].0@ == n;
                        assert(j != i);
                        if j < i {
                            assert(e[j] == old_entries[j]);
                        } else {
                            assert(e[j - 1] == old_entries[j]);
                        }
                    }
                    assert forall|a: int, b: int|
                        0 <= a < e.len() && 0 <= b < e.len() && a != b implies {
                        &&& #[trigger] e[a].0@ != #[trigger] e[b].0@
                        &&& e[a].1 != e[b].1
                    } by {
                        let a0 = if a < i { a } else { a + 1 };
                        let b0 = if b < i { b } else { b + 1 };
                        assert(e[a] == old_entries[a0]);
                        assert(e[b] == old_entries[b0]);
                        assert(old_entries[a0].0@ != old_entries[b0].0@);
                    }
                    assert(m =~= without_address(old_names, addr));
                }
            },
        }
    }
}

/// The registry after the hosts at `addrs` ask, in order, for the names
/// at the same positions of `names`.
pub open spec fn register_all(
    m: Map<Seq<u8>, PeerAddr>,
    max_hosts: nat,
    names: Seq<Seq<u8>>,
    addrs: Seq<PeerAddr>,
) -> Map<Seq<u8>, PeerAddr>
    decreases names.len(),
{
    if names.len() == 0 || addrs.len() < names.len() {
        m
    } else {
        after_register(
            register_all(m, max_hosts, names.drop_last(), addrs.subrange(0, names.len() - 1)),
            max_hosts,
            names.last(),
            addrs[names.len() - 1],
        )
    }
}

/// Registering the hosts of `names`/`addrs` and then one more host at
/// `addr` with `name` is registering the extended sequences: a registry
/// that came from a run of `register` calls, followed by one more call,
/// is again described by `register_all`.
pub proof fn lemma_register_all_push(
    m: Map<Seq<u8>, PeerAddr>,
    max_hosts: nat,
    names: Seq<Seq<u8>>,
    addrs: Seq<PeerAddr>,
    name: Seq<u8>,
    addr: PeerAddr,
)
    requires
        addrs.len() == names.len(),
    ensures
        register_all(m, max_hosts, names.push(name), addrs.push(addr)) == after_register(
            register_all(m, max_hosts, names, addrs),
            max_hosts,
            name,
            addr,
        ),
{
    assert(names.push(name).drop_last() =~= names);
    assert(addrs.push(addr).subrange(0, names.len() as int) =~= addrs);
}

/// A second host that asks for a name already held leaves the registry
/// pointing at the first.
pub proof fn lemma_first_registrant_keeps_name(
    m: Map<Seq<u8>, PeerAddr>,
    max_hosts: nat,
    name: Seq<u8>,
    first: PeerAddr,
    second: PeerAddr,
)
    requires
        can_register(m, max_hosts, name, first),
    ensures
        after_register(after_register(m, max_hosts, name, first), max_hosts, name, second)
            == after_register(m, max_hosts, name, first),
        after_register(after_register(m, max_hosts, name, first), max_hosts, name, second)[name]
            == first,
{
}

/// A registration never takes the registry beyond its capacity, and one
/// made when the registry is full is refused.
pub proof fn lemma_capacity_bound(
    m: Map<Seq<u8>, PeerAddr>,
    max_hosts: nat,
    name: Seq<u8>,
    addr: PeerAddr,
)
    requires
        m.dom().finite(),
        m.len() <= max_hosts,
    ensures
        after_register(m, max_hosts, name, addr).dom().finite(),
        after_register(m, max_hosts, name, addr).len() <= max_hosts,
        m.len() == max_hosts ==> after_register(m, max_hosts, name, addr) == m,
{
    if can_register(m, max_hosts, name, addr) {
        assert(m.insert(name, addr).dom() =~= m.dom().insert(name));
    }
}

/// Hosts with distinct names and distinct addresses, none yet registered,
/// all succeed when there is room for them all, whatever order they come in.
pub proof fn lemma_distinct_registrations_all_succeed(
    m: Map<Seq<u8>, PeerAddr>,
    max_hosts: nat,
    names: Seq<Seq<u8>>,
    addrs: Seq<PeerAddr>,
)
    requires
        m.dom().finite(),
        addrs.len() == names.len(),
        m.len() + names.len() <= max_hosts,
        forall|i: int, j: int|
            0 <= i < names.len() && 0 <= j < names.len() && i != j ==> names[i] != names[j]
                && addrs[i] != addrs[j],
        forall|i: int| 0 <= i < names.len() ==> !m.contains_key(#[trigger] names[i]),
        forall|i: int| 0 <= i < names.len() ==> !address_in_use(m, #[trigger] addrs[i]),
    ensures
        register_all(m, max_hosts, names, addrs).dom().finite(),
        register_all(m, max_hosts, names, addrs).len() == m.len() + names.len(),
        forall|i: int|
            0 <= i < names.len() ==> #[trigger] register_all(m, max_hosts, names, addrs).contains_key(
                names[i],
            ) && register_all(m, max_hosts, names, addrs)[names[i]] == addrs[i],
        forall|n: Seq<u8>|
            #[trigger] register_all(m, max_hosts, names, addrs).contains_key(n) ==> m.contains_key(
                n,
            ) || exists|i: int| 0 <= i < names.len() && names[i] == n,
        forall|n: Seq<u8>|
            m.contains_key(n) ==> #[trigger] register_all(m, max_hosts, names, addrs).contains_key(n)
                && register_all(m, max_hosts, names, addrs)[n] == m[n],
    decreases names.len(),
{
    if names.len() > 0 {
        let k = names.len() - 1;
        let ns = names.drop_last();
        let as_ = addrs.subrange(0, k);
        lemma_distinct_registrations_all_succeed(m, max_hosts, ns, as_);
        let prev = register_all(m, max_hosts, ns, as_);
        let name = names.last();
        let addr = addrs[k];
        assert(!prev.contains_key(name)) by {
            if prev.contains_key(name) {
                if !m.contains_key(name) {
                    let i = choose|i: int| 0 <= i < ns.len() && ns[i] == name;
                    assert(names[i] == names[k]);
                }
            }
        }
        assert(!address_in_use(prev, addr)) by {
            if address_in_use(prev, addr) {
                let n = choose|n: Seq<u8>| #[trigger] prev.contains_key(n) && prev[n] == addr;
                if m.contains_key(n) {
                    assert(m[n] == addr);
                    assert(!address_in_use(m, addrs[k]));
                } else {
                    let i = choose|i: int| 0 <= i < ns.len() && ns[i] == n;
                    assert(prev[ns[i]] == as_[i]);
                    assert(addrs[i] == addrs[k]);
                }
            }
        }
        assert(prev.insert(name, addr).dom() =~= prev.dom().insert(name));
        let next = register_all(m, max_hosts, names, addrs);
        assert(next == prev.insert(name, addr));
        assert forall|i: int| 0 <= i < names.len() implies #[trigger] next.contains_key(names[i])
            && next[names[i]] == addrs[i] by {
            if i < k {
                assert(ns[i] == names[i]);
                assert(as_[i] == addrs[i]);
            }
        }
        assert forall|n: Seq<u8>| #[trigger] next.contains_key(n) implies m.contains_key(n)
            || exists|i: int| 0 <= i < names.len() && names[i] == n by {
            if n != name && !m.contains_key(n) {
                let i = choose|i: int| 0 <= i < ns.len() && ns[i] == n;
                assert(names[i] == n);
            } else if n == name {
                assert(names[k] == n);
            }
        }
    }
}

} // verus!
