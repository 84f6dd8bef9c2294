//! The handle ownership protocol.
//!
//! Every native value crossing the boundary travels as an opaque handle. A
//! handle is valid from the moment its constructing operation returns until
//! exactly one consuming operation (or an explicit free) is applied to it;
//! borrowing operations read through it without affecting its validity.
//!
//! [`HandleTable`] is the single-owner discipline made explicit: a table maps
//! live handles to the values they own. `construct` registers a value under a
//! fresh handle, `consume` takes the value out and leaves the handle dead,
//! `borrow_handle` reads without invalidating, and `free` releases whether or
//! not the handle is still live (releasing a dead handle is a no-op, as
//! freeing a null pointer is).

use vstd::prelude::*;
use vstd::pervasive::VecAdditionalExecFns;

verus! {

/// Maps live handles to the values they own.
///
/// The view is the table's contents: a map from each live handle to its
/// value. A handle absent from the map is dead; applying a borrowing or
/// consuming operation to it yields nothing.
pub struct HandleTable<V> {
    slots: Vec<Option<V>>,
}

impl<V> View for HandleTable<V> {
    type V = Map<int, V>;

    closed spec fn view(&self) -> Map<int, V> {
        Map::new(
            |h: int| 0 <= h < self.slots@.len() && self.slots@[h] is Some,
            |h: int| self.slots@[h]->Some_0,
        )
    }
}

impl<V> HandleTable<V> {
    /// A table with no live handles.
    pub fn new() -> (t: Self)
        ensures
            t@ == Map::<int, V>::empty(),
    {
        let t = HandleTable { slots: Vec::new() };
        proof {
            assert(t@ =~= Map::<int, V>::empty());
        }
        t
    }

    /// Whether a handle is live.
    pub fn is_live(&self, h: usize) -> (b: bool)
        ensures
            b == self@.dom().contains(h as int),
    {
        h < self.slots.len() && self.slots[h].is_some()
    }

    /// Registers a value and returns ownership of a fresh handle to it.
    pub fn construct(&mut self, v: V) -> (h: usize)
        ensures
            !old(self)@.dom().contains(h as int),
            final(self)@ == old(self)@.insert(h as int, v),
    {
        let h = self.slots.len();
        self.slots.push(Some(v));
        proof {
            assert(self@ =~= old(self)@.insert(h as int, v));
        }
        h
    }

    /// Reads through a handle without affecting its ownership: yields the
    /// value of a live handle and nothing for a dead one.
    pub fn borrow_handle(&self, h: usize) -> (r: Option<&V>)
        ensures
            match r {
                Some(v) => self@.dom().contains(h as int) && *v == self@[h as int],
                None => !self@.dom().contains(h as int),
            },
    {
        if h < self.slots.len() {
            match &self.slots[h] {
                Some(v) => Some(v),
                None => None,
            }
        } else {
            None
        }
    }

    /// Takes ownership out of a live handle, leaving it dead; a dead handle
    /// yields nothing and the table is unchanged.
    pub fn consume(&mut self, h: usize) -> (r: Option<V>)
        ensures
            match r {
                Some(v) => old(self)@.dom().contains(h as int) && v == old(self)@[h as int]
                    && final(self)@ == old(self)@.remove(h as int),
                None => !old(self)@.dom().contains(h as int) && final(self)@ == old(self)@,
            },
    {
        if h < self.slots.len() {
            let mut taken: Option<V> = None;
            self.slots.set_and_swap(h, &mut taken);
            proof {
                if old(self)@.dom().contains(h as int) {
                    assert(self@ =~= old(self)@.remove(h as int));
                } else {
                    assert(self@ =~= old(self)@);
                }
            }
            taken
        } else {
            proof {
                assert(self@ =~= old(self)@);
            }
            None
        }
    }

    /// Releases a handle: the value of a live handle is dropped, and a dead
    /// handle is left alone — never a failure, matching a free of null.
    pub fn free(&mut self, h: usize)
        ensures
            final(self)@ == old(self)@.remove(h as int),
    {
        let _ = self.consume(h);
        proof {
            if !old(self)@.dom().contains(h as int) {
                assert(self@ =~= old(self)@.remove(h as int));
            }
        }
    }
}

/// Whether one of the handles equals `h`.
pub open spec fn handles_contain(handles: Seq<usize>, h: int) -> bool {
    exists|k: int| 0 <= k < handles.len() && handles[k] as int == h
}

impl<V> HandleTable<V> {
    /// Takes ownership out of a whole list of handles at once, as a
    /// consuming operation with several inputs does. All of them die
    /// together, and their values come back in the list's order. A dead or
    /// repeated handle fails the whole take and leaves the table unchanged:
    /// no handle is half-consumed.
    pub fn consume_all(&mut self, handles: &Vec<usize>) -> (r: Option<Vec<V>>)
        ensures
            match r {
                Some(values) => {
                    &&& values@.len() == handles@.len()
                    &&& forall|k: int|
                        0 <= k < handles@.len() ==> old(self)@.dom().contains(
                            #[trigger] handles@[k] as int,
                        )
                    &&& forall|k: int|
                        0 <= k < handles@.len() ==> #[trigger] values@[k] == old(
                            self,
                        )@[handles@[k] as int]
                    &&& forall|k1: int, k2: int|
                        0 <= k1 < k2 < handles@.len() ==> (#[trigger] handles@[k1]) != (
                        #[trigger] handles@[k2])
                    &&& forall|h: int|
                        final(self)@.dom().contains(h) <==> (old(self)@.dom().contains(h)
                            && !handles_contain(handles@, h))
                    &&& forall|h: int|
                        #[trigger] final(self)@.dom().contains(h) ==> final(self)@[h] == old(
                            self,
                        )@[h]
                },
                None => {
                    &&& final(self)@ == old(self)@
                    &&& !((forall|k: int|
                        0 <= k < handles@.len() ==> old(self)@.dom().contains(
                            #[trigger] handles@[k] as int,
                        )) && (forall|k1: int, k2: int|
                        0 <= k1 < k2 < handles@.len() ==> (#[trigger] handles@[k1]) != (
                        #[trigger] handles@[k2])))
                },
            },
    {
        let mut k: usize = 0;
        while k < handles.len()
            invariant
                0 <= k <= handles@.len(),
                forall|j: int|
                    0 <= j < k ==> self@.dom().contains(#[trigger] handles@[j] as int),
            decreases handles@.len() - k,
        {
            if !self.is_live(handles[k]) {
                return None;
            }
            k = k + 1;
        }
        let mut a: usize = 0;
        while a < handles.len()
            invariant
                0 <= a <= handles@.len(),
                forall|k1: int, k2: int|
                    0 <= k1 < a && k1 < k2 < handles@.len() ==> (#[trigger] handles@[k1]) != (
                    #[trigger] handles@[k2]),
            decreases handles@.len() - a,
        {
            let mut b: usize = a + 1;
            while b < handles.len()
                invariant
                    0 <= a < b <= handles@.len(),
                    forall|k2: int|
                        a < k2 < b ==> handles@[a as int] != (#[trigger] handles@[k2]),
                decreases handles@.len() - b,
            {
                if handles[a] == handles[b] {
                    return None;
                }
                b = b + 1;
            }
            a = a + 1;
        }
        let mut values: Vec<V> = Vec::new();
        let mut i: usize = 0;
        while i < handles.len()
            invariant
                0 <= i <= handles@.len(),
                values@.len() == i,
                forall|k: int|
                    0 <= k < handles@.len() ==> old(self)@.dom().contains(
                        #[trigger] handles@[k] as int,
                    ),
                forall|k1: int, k2: int|
                    0 <= k1 < k2 < handles@.len() ==> (#[trigger] handles@[k1]) != (
                    #[trigger] handles@[k2]),
                forall|k: int|
                    0 <= k < i ==> #[trigger] values@[k] == old(self)@[handles@[k] as int],
                forall|h: int|
                    #![trigger self@.dom().contains(h)]
                    #![trigger old(self)@.dom().contains(h)]
                    self@.dom().contains(h) <==> (old(self)@.dom().contains(h)
                        && !handles_contain(handles@.take(i as int), h)),
                forall|h: int|
                    #[trigger] self@.dom().contains(h) ==> self@[h] == old(self)@[h],
            decreases handles@.len() - i,
        {
            let h = handles[i];
            let ghost before = self@;
            proof {
                assert(!handles_contain(handles@.take(i as int), h as int));
                assert(self@.dom().contains(h as int));
            }
            let v = self.consume(h).unwrap();
            values.push(v);
            proof {
                assert forall|x: int| #[trigger] handles_contain(
                    handles@.take(i as int + 1),
                    x,
                ) implies (handles_contain(handles@.take(i as int), x) || x == h as int) by {
                    let k = choose|k: int|
                        0 <= k < handles@.take(i as int + 1).len() && (#[trigger] handles@.take(
                            i as int + 1,
                        )[k]) as int == x;
                    if k < i {
                        assert(handles@.take(i as int)[k] as int == x);
                    }
                }
                assert forall|x: int| handles_contain(handles@.take(i as int), x)
                    || x == h as int implies #[trigger] handles_contain(
                    handles@.take(i as int + 1),
                    x,
                ) by {
                    if handles_contain(handles@.take(i as int), x) {
                        let k = choose|k: int|
                            0 <= k < handles@.take(i as int).len() && (#[trigger] handles@.take(
                                i as int,
                            )[k]) as int == x;
                        assert(handles@.take(i as int + 1)[k] as int == x);
                    } else {
                        assert(handles@.take(i as int + 1)[i as int] as int == x);
                    }
                }
                assert forall|x: int| self@.dom().contains(x) <==> (old(self)@.dom().contains(x)
                    && !handles_contain(handles@.take(i as int + 1), x)) by {
                    assert(self@ == before.remove(h as int));
                    assert(before.dom().contains(x) <==> (old(self)@.dom().contains(x)
                        && !handles_contain(handles@.take(i as int), x)));
                }
            }
            i = i + 1;
        }
        proof {
            assert(handles@.take(handles@.len() as int) =~= handles@);
        }
        Some(values)
    }
}

/// A consumed handle is dead: once a consuming operation has taken a handle,
/// that handle is outside the table's domain, so every subsequent borrowing
/// or consuming operation on it yields nothing.
pub proof fn lemma_consumed_handle_is_dead<V>(contents: Map<int, V>, h: int)
    ensures
        !contents.remove(h).dom().contains(h),
{
}

} // verus!
