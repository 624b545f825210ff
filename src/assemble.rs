//! The assembly phase: results come back from the workers in any order and
//! are written in the order of their indices.

use vstd::prelude::*;

verus! {

/// The slots after `arrivals` were put in, in order, into `slots`.
pub open spec fn fill<T>(slots: Seq<Option<T>>, arrivals: Seq<(nat, T)>) -> Seq<Option<T>>
    decreases arrivals.len(),
{
    if arrivals.len() == 0 {
        slots
    } else {
        let before = fill(slots, arrivals.drop_last());
        let (i, x) = arrivals.last();
        if i < before.len() {
            before.update(i as int, Some(x))
        } else {
            before
        }
    }
}

/// No two arrivals carry the same index, and every index is below `n`.
pub open spec fn distinct_indices<T>(arrivals: Seq<(nat, T)>, n: nat) -> bool {
    &&& forall|p: int| 0 <= p < arrivals.len() ==> (#[trigger] arrivals[p]).0 < n
    &&& forall|p: int, q: int|
        0 <= p < q < arrivals.len() ==> (#[trigger] arrivals[p]).0 != (#[trigger] arrivals[q]).0
}

pub open spec fn empty_slots<T>(n: nat) -> Seq<Option<T>> {
    Seq::new(n, |i: int| None)
}

proof fn lemma_fill_holds_arrivals<T>(n: nat, arrivals: Seq<(nat, T)>)
    requires
        distinct_indices(arrivals, n),
    ensures
        fill(empty_slots::<T>(n), arrivals).len() == n,
        forall|i: nat, x: T|
            #![trigger arrivals.contains((i, x))]
            i < n ==> (fill(empty_slots::<T>(n), arrivals)[i as int] == Some(x)
                <==> arrivals.contains((i, x))),
    decreases arrivals.len(),
{
    if arrivals.len() > 0 {
        let front = arrivals.drop_last();
        assert forall|p: int, q: int| 0 <= p < q < front.len() implies (#[trigger] front[p]).0 != (
        #[trigger] front[q]).0 by {
            assert(front[p] == arrivals[p] && front[q] == arrivals[q]);
        }
        assert forall|p: int| 0 <= p < front.len() implies (#[trigger] front[p]).0 < n by {
            assert(front[p] == arrivals[p]);
        }
        lemma_fill_holds_arrivals(n, front);
        let (j, y) = arrivals.last();
        assert forall|i: nat, x: T| i < n implies (fill(empty_slots::<T>(n), arrivals)[i as int]
            == Some(x) <==> #[trigger] arrivals.contains((i, x))) by {
            assert(front.contains((i, x)) ==> fill(empty_slots::<T>(n), front)[i as int] == Some(x));
            if arrivals.contains((i, x)) {
                let p = choose|p: int| 0 <= p < arrivals.len() && arrivals[p] == (i, x);
                if p < arrivals.len() - 1 {
                    assert(front[p] == (i, x));
                    assert(front.contains((i, x)));
                }
            }
            if front.contains((i, x)) {
                let p = choose|p: int| 0 <= p < front.len() && front[p] == (i, x);
                assert(arrivals[p] == (i, x));
                if i == j {
                    assert(arrivals[p].0 != arrivals[arrivals.len() - 1].0);
                }
            }
        }
    } else {
        assert forall|i: nat, x: T| i < n implies (fill(empty_slots::<T>(n), arrivals)[i as int]
            == Some(x) <==> #[trigger] arrivals.contains((i, x))) by {}
    }
}

/// The order results arrive in does not matter: two runs that receive the
/// same results, each index once, in different orders, end with the same
/// slots.
pub proof fn lemma_arrival_order_irrelevant<T>(n: nat, a: Seq<(nat, T)>, b: Seq<(nat, T)>)
    requires
        distinct_indices(a, n),
        distinct_indices(b, n),
        forall|p: (nat, T)| a.contains(p) <==> b.contains(p),
    ensures
        fill(empty_slots::<T>(n), a) == fill(empty_slots::<T>(n), b),
{
    lemma_fill_holds_arrivals(n, a);
    lemma_fill_holds_arrivals(n, b);
    let fa = fill(empty_slots::<T>(n), a);
    let fb = fill(empty_slots::<T>(n), b);
    assert forall|i: int| 0 <= i < n implies fa[i] == fb[i] by {
        let k = i as nat;
        match fa[i] {
            Some(x) => {
                assert(fa[k as int] == Some(x));
                assert(b.contains((k, x)));
                assert(fb[k as int] == Some(x));
            },
            None => {
                match fb[i] {
                    Some(y) => {
                        assert(fb[k as int] == Some(y));
                        assert(a.contains((k, y)));
                        assert(fa[k as int] == Some(y));
                    },
                    None => {},
                }
            },
        }
    }
    assert(fa =~= fb);
}

/// A result that never arrived.
#[derive(Debug, Clone, Copy, PartialEq, Eq, Structural)]
pub struct MissingResult {
    pub index: usize,
}

proof fn lemma_fill_len<T>(slots: Seq<Option<T>>, arrivals: Seq<(nat, T)>)
    ensures
        fill(slots, arrivals).len() == slots.len(),
    decreases arrivals.len(),
{
    if arrivals.len() > 0 {
        lemma_fill_len(slots, arrivals.drop_last());
    }
}

/// One slot per work unit, filled as results arrive.
pub struct ResultSlots<T> {
    slots: Vec<Option<T>>,
    arrived: Ghost<Seq<(nat, T)>>,
}

impl<T> ResultSlots<T> {
    pub closed spec fn contents(&self) -> Seq<Option<T>> {
        self.slots@
    }

    /// The results put in so far, with their indices, in arrival order.
    pub closed spec fn arrivals(&self) -> Seq<(nat, T)> {
        self.arrived@
    }

    /// The slots are what the arrivals, in order, made of empty slots.
    pub closed spec fn wf(&self) -> bool {
        self.slots@ == fill(empty_slots::<T>(self.slots@.len()), self.arrived@)
    }

    pub fn new(n: usize) -> (r: ResultSlots<T>)
        ensures
            r.wf(),
            r.contents() == empty_slots::<T>(n as nat),
            r.arrivals() == Seq::<(nat, T)>::empty(),
    {
        let mut slots: Vec<Option<T>> = Vec::new();
        let mut i: usize = 0;
        while i < n
            invariant
                i <= n,
                slots@ == empty_slots::<T>(i as nat),
            decreases n - i,
        {
            slots.push(None);
            i = i + 1;
            assert(slots@ =~= empty_slots::<T>(i as nat));
        }
        ResultSlots { slots, arrived: Ghost(Seq::empty()) }
    }

    pub fn len(&self) -> (r: usize)
        ensures
            r == self.contents().len(),
    {
        self.slots.len()
    }

    /// Puts the result of unit `index` in its slot.
    pub fn put(&mut self, index: usize, item: T)
        requires
            old(self).wf(),
            index < old(self).contents().len(),
        ensures
            final(self).wf(),
            final(self).arrivals() == old(self).arrivals().push((index as nat, item)),
            final(self).contents() == old(self).contents().update(index as int, Some(item)),
    {
        let ghost before = self.slots@;
        let ghost arrived = self.arrived@.push((index as nat, item));
        proof {
            lemma_fill_len(empty_slots::<T>(before.len()), self.arrived@);
        }
        assert(arrived.drop_last() =~= self.arrived@);
        self.slots.set(index, Some(item));
        self.arrived = Ghost(arrived);
    }

    /// The results in index order, or the first index whose result is missing.
    pub fn into_ordered(self) -> (r: Result<Vec<T>, MissingResult>)
        ensures
            r matches Ok(v) ==> {
                &&& v@.len() == self.contents().len()
                &&& forall|i: int| 0 <= i < v@.len() ==> self.contents()[i] == Some(#[trigger] v@[i])
            },
            r matches Err(e) ==> {
                &&& e.index < self.contents().len()
                &&& self.contents()[e.index as int] is None
                &&& forall|i: int| 0 <= i < e.index ==> (#[trigger] self.contents()[i]) is Some
            },
    {
        let ghost initial = self.slots@;
        let mut slots = self.slots;
        let n = slots.len();
        let mut i: usize = 0;
        while i < n
            invariant
                initial == self.contents(),
                n == initial.len(),
                slots@ == initial,
                i <= n,
                forall|k: int| 0 <= k < i ==> (#[trigger] initial[k]) is Some,
            decreases n - i,
        {
            if slots[i].is_none() {
                return Err(MissingResult { index: i });
            }
            i = i + 1;
        }
        let mut reversed: Vec<T> = Vec::new();
        while slots.len() > 0
            invariant
                n == initial.len(),
                slots@ == initial.subrange(0, slots@.len() as int),
                forall|k: int| 0 <= k < n ==> (#[trigger] initial[k]) is Some,
                reversed@.len() + slots@.len() == n,
                forall|k: int|
                    0 <= k < reversed@.len() ==> initial[n - 1 - k] == Some(#[trigger] reversed@[k]),
            decreases slots@.len(),
        {
            let ghost m = slots@.len() as int;
            match slots.pop() {
                Some(Some(x)) => {
                    reversed.push(x);
                },
                _ => {
                    proof {
                        assert(initial[m - 1] is Some);
                        assert(false);
                    }
                },
            }
            assert(slots@ =~= initial.subrange(0, slots@.len() as int));
        }
        let mut out: Vec<T> = Vec::new();
        while reversed.len() > 0
            invariant
                n == initial.len(),
                out@.len() + reversed@.len() == n,
                forall|k: int|
                    0 <= k < reversed@.len() ==> initial[n - 1 - k] == Some(#[trigger] reversed@[k]),
                forall|k: int| 0 <= k < out@.len() ==> initial[k] == Some(#[trigger] out@[k]),
            decreases reversed@.len(),
        {
            let ghost m = reversed@.len() as int;
            let x = reversed.pop().unwrap();
            assert(initial[n - 1 - (m - 1)] == Some(x));
            out.push(x);
        }
        Ok(out)
    }
}

/// Two sets of slots of the same size that received the same results,
/// each index once, hold the same results in the same places, whatever the
/// order the results arrived in; so they are written in the same order.
pub proof fn lemma_slots_independent_of_arrival_order<T>(a: &ResultSlots<T>, b: &ResultSlots<T>)
    requires
        a.wf(),
        b.wf(),
        a.contents().len() == b.contents().len(),
        distinct_indices(a.arrivals(), a.contents().len()),
        distinct_indices(b.arrivals(), b.contents().len()),
        forall|p: (nat, T)| a.arrivals().contains(p) <==> b.arrivals().contains(p),
    ensures
        a.contents() == b.contents(),
{
    lemma_arrival_order_irrelevant(a.contents().len(), a.arrivals(), b.arrivals());
}

/// Size of a tar block.
pub const TAR_BLOCK_SIZE: u64 = 512;

/// Zero bytes that follow a file's content of `len` bytes in a tar stream,
/// up to the next block boundary.
pub open spec fn tar_padding_of(len: nat) -> nat {
    let b = TAR_BLOCK_SIZE as int;
    ((b - (len as int) % b) % b) as nat
}

pub fn tar_padding(len: u64) -> (r: u64)
    ensures
        r == tar_padding_of(len as nat),
        r < TAR_BLOCK_SIZE,
        (len + r) % (TAR_BLOCK_SIZE as int) == 0,
{
    (TAR_BLOCK_SIZE - len % TAR_BLOCK_SIZE) % TAR_BLOCK_SIZE
}

} // verus!
