//! A sorted, duplicate-free registry of neighbor addresses.
use vstd::prelude::*;

verus! {

/// A neighbor address: IPv4 as its 32-bit value, IPv6 as its 128-bit value.
/// Every IPv4 address orders before every IPv6 address.
#[derive(PartialEq, Eq, Structural, Clone, Copy, Debug, PartialOrd, Ord, Hash)]
pub enum NeighborAddr {
    V4(u32),
    V6(u128),
}

/// The position of an address in the total order of all addresses.
pub open spec fn addr_key(a: NeighborAddr) -> int {
    match a {
        NeighborAddr::V4(x) => x as int,
        NeighborAddr::V6(x) => 0x1_0000_0000 + x as int,
    }
}

/// Whether `a` orders strictly before `b`.
pub fn addr_less(a: &NeighborAddr, b: &NeighborAddr) -> (r: bool)
    ensures
        r == (addr_key(*a) < addr_key(*b)),
{
    match (a, b) {
        (NeighborAddr::V4(x), NeighborAddr::V4(y)) => *x < *y,
        (NeighborAddr::V4(_), NeighborAddr::V6(_)) => true,
        (NeighborAddr::V6(_), NeighborAddr::V4(_)) => false,
        (NeighborAddr::V6(x), NeighborAddr::V6(y)) => *x < *y,
    }
}

#[derive(PartialEq, Eq, Structural, Clone, Copy, Debug, PartialOrd, Ord, Hash)]
pub struct Neighbor {
    pub ipaddr: NeighborAddr,
}

pub open spec fn key_of(n: Neighbor) -> int {
    addr_key(n.ipaddr)
}

/// Strictly increasing by address, hence free of duplicates.
pub open spec fn strictly_sorted(s: Seq<Neighbor>) -> bool {
    forall|i: int, j: int| 0 <= i < j < s.len() ==> key_of(#[trigger] s[i]) < key_of(#[trigger] s[j])
}

pub struct NeighborVec(Vec<Neighbor>);

impl View for NeighborVec {
    type V = Seq<Neighbor>;

    closed spec fn view(&self) -> Seq<Neighbor> {
        self.0@
    }
}

impl NeighborVec {
    pub open spec fn wf(&self) -> bool {
        strictly_sorted(self@)
    }

    pub fn new() -> (r: Self)
        ensures
            r@ == Seq::<Neighbor>::empty(),
            r.wf(),
    {
        NeighborVec(Vec::new())
    }

    /// `Ok(i)` when the address is stored at `i`; otherwise `Err(i)` with `i`
    /// the position where it would keep the order.
    pub fn binary_search(&self, x: &Neighbor) -> (r: Result<usize, usize>)
        requires
            self.wf(),
        ensures
            match r {
                Ok(i) => i < self@.len() && self@[i as int] == *x,
                Err(i) => i <= self@.len() && (forall|j: int|
                    0 <= j < i ==> key_of(#[trigger] self@[j]) < key_of(*x)) && (forall|j: int|
                    i <= j < self@.len() ==> key_of(*x) < key_of(#[trigger] self@[j])),
            },
    {
        let v = &self.0;
        let mut lo: usize = 0;
        let mut hi: usize = v.len();
        while lo < hi
            invariant
                v@ == self@,
                strictly_sorted(v@),
                lo <= hi <= v@.len(),
                forall|j: int| 0 <= j < lo ==> key_of(#[trigger] v@[j]) < key_of(*x),
                forall|j: int| hi <= j < v@.len() ==> key_of(*x) < key_of(#[trigger] v@[j]),
            decreases hi - lo,
        {
            let mid = lo + (hi - lo) / 2;
            if addr_less(&v[mid].ipaddr, &x.ipaddr) {
                lo = mid + 1;
            } else if addr_less(&x.ipaddr, &v[mid].ipaddr) {
                hi = mid;
            } else {
                proof {
                    lemma_same_key_same_neighbor(v@[mid as int], *x);
                }
                return Ok(mid);
            }
        }
        Err(lo)
    }

    /// Inserts `element` at `index`, which must be the place that keeps the order.
    pub fn insert(&mut self, index: usize, element: Neighbor)
        requires
            old(self).wf(),
            index <= old(self)@.len(),
            forall|j: int| 0 <= j < index ==> key_of(#[trigger] old(self)@[j]) < key_of(element),
            forall|j: int|
                index <= j < old(self)@.len() ==> key_of(element) < key_of(#[trigger] old(self)@[j]),
        ensures
            final(self)@ == old(self)@.insert(index as int, element),
            final(self).wf(),
    {
        self.0.insert(index, element);
        assert(strictly_sorted(self.0@)) by {
            assert forall|i: int, j: int| 0 <= i < j < self.0@.len() implies key_of(
                #[trigger] self.0@[i],
            ) < key_of(#[trigger] self.0@[j]) by {
                if i < index && j > index {
                    assert(self.0@[j] == old(self)@[j - 1]);
                    assert(self.0@[i] == old(self)@[i]);
                } else if j > index {
                    assert(self.0@[j] == old(self)@[j - 1]);
                    assert(self.0@[i] == old(self)@[i - 1] || self.0@[i] == element);
                }
            }
        }
    }

    pub fn len(&self) -> (r: usize)
        ensures
            r == self@.len(),
    {
        self.0.len()
    }

    pub fn get(&self, index: usize) -> (r: Option<&Neighbor>)
        ensures
            index < self@.len() ==> r == Some(&self@[index as int]),
            index >= self@.len() ==> r is None,
    {
        if index < self.0.len() {
            Some(&self.0[index])
        } else {
            None
        }
    }

    /// Inserts the neighbor in order unless its address is already present;
    /// `None` then, and the registry is unchanged.
    pub fn insert_sort(&mut self, n: Neighbor) -> (r: Option<()>)
        requires
            old(self).wf(),
        ensures
            final(self).wf(),
            old(self)@.contains(n) ==> r is None && final(self)@ == old(self)@,
            !old(self)@.contains(n) ==> r is Some && final(self)@.len() == old(self)@.len() + 1,
            !old(self)@.contains(n) ==> exists|i: int|
                0 <= i <= old(self)@.len() && final(self)@ == old(self)@.insert(i, n),
    {
        match self.binary_search(&n) {
            Err(pos) => {
                proof {
                    if old(self)@.contains(n) {
                        let k = choose|k: int| 0 <= k < old(self)@.len() && old(self)@[k] == n;
                        assert(key_of(old(self)@[k]) == key_of(n));
                    }
                }
                self.insert(pos, n);
                assert(self@ == old(self)@.insert(pos as int, n));
                Some(())
            },
            Ok(i) => {
                assert(old(self)@[i as int] == n);
                None
            },
        }
    }
}

proof fn lemma_same_key_same_neighbor(a: Neighbor, b: Neighbor)
    requires
        key_of(a) == key_of(b),
    ensures
        a == b,
{
}

} // verus!
