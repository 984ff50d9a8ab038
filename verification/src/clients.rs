//! The clients of the pool: their addresses, their open sockets, and which of them wait for work.
use vstd::prelude::*;

verus! {

/// The address that a client connected from.
#[derive(Clone, Copy, Debug, PartialEq, Eq, Structural)]
pub enum ClientAddr {
    V4 { ip: u32, port: u16 },
    V6 { ip6: u128, port: u16, flowinfo: u32, scope_id: u32 },
}

/// The clients that wait for work, each of them once, in the order in which they came.
pub struct ClientSet {
    items: Vec<ClientAddr>,
}

impl View for ClientSet {
    type V = Seq<ClientAddr>;

    closed spec fn view(&self) -> Seq<ClientAddr> {
        self.items@
    }
}

impl ClientSet {
    /// No client is in the set twice.
    pub open spec fn well_formed(&self) -> bool {
        self@.no_duplicates()
    }

    /// The empty set.
    pub fn new() -> (r: ClientSet)
        ensures
            r.well_formed(),
            r@ == Seq::<ClientAddr>::empty(),
    {
        ClientSet { items: Vec::new() }
    }

    /// The number of clients in the set.
    pub fn len(&self) -> (n: usize)
        ensures
            n == self@.len(),
    {
        self.items.len()
    }

    /// Tells whether a client is in the set.
    pub fn contains(&self, addr: ClientAddr) -> (r: bool)
        ensures
            r == self@.contains(addr),
    {
        let mut i: usize = 0;
        while i < self.items.len()
            invariant
                i <= self@.len(),
                forall|j: int| 0 <= j < i ==> self@[j] != addr,
            decreases self.items.len() - i,
        {
            if self.items[i] == addr {
                assert(self@[i as int] == addr);
                return true;
            }
            i = i + 1;
        }
        false
    }

    /// Puts a client in the set, behind the others, unless it is there already.
    /// Tells whether it was new.
    pub fn insert(&mut self, addr: ClientAddr) -> (new: bool)
        requires
            old(self).well_formed(),
        ensures
            final(self).well_formed(),
            new == !old(self)@.contains(addr),
            final(self)@ == (if old(self)@.contains(addr) {
                old(self)@
            } else {
                old(self)@.push(addr)
            }),
    {
        if self.contains(addr) {
            return false;
        }
        self.items.push(addr);
        true
    }

    /// All the clients, in order.
    pub fn to_vec(&self) -> (r: Vec<ClientAddr>)
        ensures
            r@ == self@,
    {
        let mut r: Vec<ClientAddr> = Vec::new();
        let mut i: usize = 0;
        while i < self.items.len()
            invariant
                i <= self@.len(),
                r@ == self@.subrange(0, i as int),
            decreases self.items.len() - i,
        {
            r.push(self.items[i]);
            i = i + 1;
            assert(self@.subrange(0, i as int) == self@.subrange(0, i - 1).push(self@[i - 1]));
        }
        assert(self@.subrange(0, i as int) == self@);
        r
    }
}

/// The open sockets, each under the address of its client.
pub struct Sockets<T> {
    entries: Vec<(ClientAddr, T)>,
}

/// The place at which an address stands.
pub open spec fn place_of<T>(s: Seq<(ClientAddr, T)>, addr: ClientAddr) -> int {
    choose|i: int| 0 <= i < s.len() && (#[trigger] s[i]).0 == addr
}

/// Whether an address stands in a list of entries.
pub open spec fn has_place<T>(s: Seq<(ClientAddr, T)>, addr: ClientAddr) -> bool {
    exists|i: int| 0 <= i < s.len() && (#[trigger] s[i]).0 == addr
}

/// The map that a list of entries stands for.
pub open spec fn map_of<T>(s: Seq<(ClientAddr, T)>) -> Map<ClientAddr, T> {
    Map::new(|a: ClientAddr| has_place(s, a), |a: ClientAddr| s[place_of(s, a)].1)
}

/// No address stands in the list twice.
pub open spec fn unique_places<T>(s: Seq<(ClientAddr, T)>) -> bool {
    forall|i: int, j: int|
        #![trigger s[i], s[j]]
        0 <= i < s.len() && 0 <= j < s.len() && s[i].0 == s[j].0 ==> i == j
}

impl<T> View for Sockets<T> {
    type V = Map<ClientAddr, T>;

    closed spec fn view(&self) -> Map<ClientAddr, T> {
        map_of(self.entries@)
    }
}

proof fn lemma_place<T>(s: Seq<(ClientAddr, T)>, i: int)
    requires
        unique_places(s),
        0 <= i < s.len(),
    ensures
        map_of(s).dom().contains(s[i].0),
        map_of(s)[s[i].0] == s[i].1,
{
    assert(has_place(s, s[i].0));
    let j = place_of(s, s[i].0);
    assert(s[j].0 == s[i].0);
}

impl<T> Sockets<T> {
    /// Every address has one socket at most.
    pub closed spec fn well_formed(&self) -> bool {
        unique_places(self.entries@)
    }

    /// No open sockets.
    pub fn new() -> (r: Sockets<T>)
        ensures
            r.well_formed(),
            r@ == Map::<ClientAddr, T>::empty(),
    {
        let r = Sockets { entries: Vec::new() };
        assert(r@ =~= Map::<ClientAddr, T>::empty());
        r
    }

    fn find(&self, addr: ClientAddr) -> (r: Option<usize>)
        requires
            self.well_formed(),
        ensures
            match r {
                Some(i) => i < self.entries@.len() && self.entries@[i as int].0 == addr
                    && self@.dom().contains(addr) && self@[addr] == self.entries@[i as int].1,
                None => !self@.dom().contains(addr) && !has_place(self.entries@, addr),
            },
    {
        let mut i: usize = 0;
        while i < self.entries.len()
            invariant
                self.well_formed(),
                i <= self.entries@.len(),
                forall|j: int| 0 <= j < i ==> (#[trigger] self.entries@[j]).0 != addr,
            decreases self.entries.len() - i,
        {
            if self.entries[i].0 == addr {
                proof {
                    lemma_place(self.entries@, i as int);
                }
                return Some(i);
            }
            i = i + 1;
        }
        None
    }

    /// Tells whether a client has an open socket.
    pub fn contains(&self, addr: ClientAddr) -> (r: bool)
        requires
            self.well_formed(),
        ensures
            r == self@.dom().contains(addr),
    {
        self.find(addr).is_some()
    }

    /// The socket of a client.
    pub fn get(&self, addr: ClientAddr) -> (r: Option<&T>)
        requires
            self.well_formed(),
        ensures
            r == (if self@.dom().contains(addr) {
                Some(&self@[addr])
            } else {
                None
            }),
    {
        match self.find(addr) {
            Some(i) => Some(&self.entries[i].1),
            None => None,
        }
    }

    /// Keeps the socket of a client that has just connected. A client that has one already
    /// keeps that one, and the new one is dropped. Tells whether the new one was kept.
    pub fn connect(&mut self, who: ClientAddr, sender: T) -> (kept: bool)
        requires
            old(self).well_formed(),
        ensures
            final(self).well_formed(),
            kept == !old(self)@.dom().contains(who),
            final(self)@ == (if old(self)@.dom().contains(who) {
                old(self)@
            } else {
                old(self)@.insert(who, sender)
            }),
    {
        if self.contains(who) {
            return false;
        }
        let ghost before = self.entries@;
        self.entries.push((who, sender));
        proof {
            let after = self.entries@;
            assert(after == before.push((who, sender)));
            assert(!has_place(before, who));
            assert forall|i: int, j: int|
                #![trigger after[i], after[j]]
                0 <= i < after.len() && 0 <= j < after.len() && after[i].0 == after[j].0 implies i
                == j by {
                if i < before.len() && j < before.len() {
                    assert(before[i].0 == before[j].0);
                } else if i < before.len() {
                    assert(before[i].0 == who);
                } else if j < before.len() {
                    assert(before[j].0 == who);
                }
            }
            let m = map_of(before).insert(who, sender);
            assert forall|a: ClientAddr| map_of(after).dom().contains(a) <==> m.dom().contains(a) by {
                if has_place(after, a) {
                    let i = place_of(after, a);
                    if i < before.len() {
                        assert(before[i].0 == a);
                    }
                }
                if has_place(before, a) {
                    let i = place_of(before, a);
                    assert(after[i].0 == a);
                }
                assert(after[before.len() as int].0 == who);
            }
            assert forall|a: ClientAddr| map_of(after).dom().contains(a) implies map_of(after)[a]
                == m[a] by {
                let i = place_of(after, a);
                lemma_place(after, i);
                if i < before.len() {
                    lemma_place(before, i);
                    assert(before[i].0 == a);
                }
            }
            assert(map_of(after) =~= m);
        }
        true
    }

    /// Drops the socket of a client. Tells whether it had one.
    pub fn remove(&mut self, addr: ClientAddr) -> (found: bool)
        requires
            old(self).well_formed(),
        ensures
            final(self).well_formed(),
            found == old(self)@.dom().contains(addr),
            final(self)@ == old(self)@.remove(addr),
    {
        match self.find(addr) {
            None => {
                assert(self@ =~= self@.remove(addr));
                false
            },
            Some(at) => {
                let ghost before = self.entries@;
                self.entries.remove(at);
                proof {
                    let after = self.entries@;
                    assert(after == before.remove(at as int));
                    assert forall|i: int, j: int|
                        #![trigger after[i], after[j]]
                        0 <= i < after.len() && 0 <= j < after.len() && after[i].0 == after[j].0
                            implies i == j by {
                        let bi = if i < at { i } else { i + 1 };
                        let bj = if j < at { j } else { j + 1 };
                        assert(before[bi].0 == before[bj].0);
                    }
                    let m = map_of(before).remove(addr);
                    assert forall|a: ClientAddr|
                        map_of(after).dom().contains(a) <==> m.dom().contains(a) by {
                        if has_place(after, a) {
                            let i = place_of(after, a);
                            let bi = if i < at { i } else { i + 1 };
                            assert(before[bi].0 == a);
                            assert(before[at as int].0 == addr);
                        }
                        if has_place(before, a) && a != addr {
                            let bi = place_of(before, a);
                            let i = if bi < at { bi } else { bi - 1 };
                            assert(after[i].0 == a);
                        }
                    }
                    assert forall|a: ClientAddr| map_of(after).dom().contains(a) implies map_of(
                        after,
                    )[a] == m[a] by {
                        let i = place_of(after, a);
                        lemma_place(after, i);
                        let bi = if i < at { i } else { i + 1 };
                        lemma_place(before, bi);
                        assert(before[bi].0 == a);
                    }
                    assert(map_of(after) =~= m);
                }
                true
            },
        }
    }

    /// Drops the sockets of all the clients that could not be reached.
    pub fn remove_all(&mut self, failed: &Vec<ClientAddr>)
        requires
            old(self).well_formed(),
        ensures
            final(self).well_formed(),
            final(self)@ == old(self)@.remove_keys(failed@.to_set()),
    {
        let mut i: usize = 0;
        assert(self@ =~= old(self)@.remove_keys(failed@.subrange(0, 0).to_set()));
        while i < failed.len()
            invariant
                i <= failed@.len(),
                self.well_formed(),
                self@ == old(self)@.remove_keys(failed@.subrange(0, i as int).to_set()),
            decreases failed.len() - i,
        {
            let ghost before = self@;
            self.remove(failed[i]);
            proof {
                let done = failed@.subrange(0, i as int);
                let next = failed@.subrange(0, i + 1);
                assert(next == done.push(failed@[i as int]));
                assert forall|a: ClientAddr|
                    next.to_set().contains(a) <==> done.to_set().insert(
                        failed@[i as int],
                    ).contains(a) by {
                    if next.contains(a) {
                        let k = next.index_of(a);
                        if k < i {
                            assert(done[k] == a);
                        }
                    }
                    if done.contains(a) {
                        let k = done.index_of(a);
                        assert(next[k] == a);
                    }
                    assert(next[i as int] == failed@[i as int]);
                }
                assert(self@ =~= old(self)@.remove_keys(next.to_set()));
            }
            i = i + 1;
        }
        assert(failed@.subrange(0, i as int) == failed@);
    }

    /// The addresses of all the clients with an open socket, each once.
    pub fn addresses(&self) -> (r: Vec<ClientAddr>)
        requires
            self.well_formed(),
        ensures
            r@.no_duplicates(),
            r@.to_set() == self@.dom(),
    {
        let mut r: Vec<ClientAddr> = Vec::new();
        let mut i: usize = 0;
        while i < self.entries.len()
            invariant
                self.well_formed(),
                i <= self.entries@.len(),
                r@.len() == i,
                forall|j: int| 0 <= j < i ==> #[trigger] r@[j] == self.entries@[j].0,
            decreases self.entries.len() - i,
        {
            r.push(self.entries[i].0);
            i = i + 1;
        }
        proof {
            assert forall|j: int, k: int| 0 <= j < r@.len() && 0 <= k < r@.len() && j != k implies r@[j]
                != r@[k] by {
                assert(self.entries@[j].0 == r@[j]);
                assert(self.entries@[k].0 == r@[k]);
            }
            assert forall|a: ClientAddr| r@.to_set().contains(a) <==> self@.dom().contains(a) by {
                if r@.contains(a) {
                    let j = r@.index_of(a);
                    assert(self.entries@[j].0 == a);
                }
                if has_place(self.entries@, a) {
                    let j = place_of(self.entries@, a);
                    assert(r@[j] == a);
                }
            }
            assert(r@.to_set() =~= self@.dom());
        }
        r
    }
}

} // verus!
