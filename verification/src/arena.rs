//! The executable arena: type-tagged handles, the slot store itself, and a
//! cursor over its positions.

use core::cmp::Ordering;
use core::marker::PhantomData;
use vstd::prelude::*;

use crate::model::ArenaModel;
use crate::model::positions;

verus! {

/// An opaque, copyable handle to one slot position of an [`Arena`]. The type
/// parameter tags the handle with the element type it refers to; it occupies
/// no storage and plays no part in equality or ordering, which go by the
/// position alone.
#[derive(Copy, Debug, Hash, Eq, Ord)]
pub struct ArenaId<T> {
    loc: usize,
    content: PhantomData<T>,
}

impl<T> Clone for ArenaId<T> {
    /// Cloning a handle copies its position.
    fn clone(&self) -> (r: Self)
        ensures
            r@ == self@,
    {
        ArenaId { loc: self.loc, content: PhantomData }
    }
}

impl<T> View for ArenaId<T> {
    type V = nat;

    /// A handle is modelled by the position it carries.
    closed spec fn view(&self) -> nat {
        self.loc as nat
    }
}

impl<T> ArenaId<T> {
    /// Wraps a position in a handle. No validation: the position may be out
    /// of range, and validity is settled by the arena at lookup time.
    pub fn new(loc: usize) -> (id: ArenaId<T>)
        ensures
            id@ == loc as nat,
    {
        ArenaId { loc, content: PhantomData }
    }
}

impl<T> PartialEq for ArenaId<T> {
    /// Handles compare equal exactly when their positions are equal, whatever
    /// arenas or allocation events they came from.
    fn eq(&self, other: &ArenaId<T>) -> (r: bool)
        ensures
            r == (self@ == other@),
    {
        self.loc == other.loc
    }
}

impl<T> vstd::std_specs::cmp::PartialEqSpecImpl for ArenaId<T> {
    open spec fn obeys_eq_spec() -> bool {
        true
    }

    open spec fn eq_spec(&self, other: &ArenaId<T>) -> bool {
        self@ == other@
    }
}

impl<T> PartialOrd for ArenaId<T> {
    /// Handles are totally ordered by position alone.
    fn partial_cmp(&self, other: &ArenaId<T>) -> (r: Option<Ordering>) {
        if self.loc < other.loc {
            Some(Ordering::Less)
        } else if self.loc == other.loc {
            Some(Ordering::Equal)
        } else {
            Some(Ordering::Greater)
        }
    }
}

impl<T> vstd::std_specs::cmp::PartialOrdSpecImpl for ArenaId<T> {
    open spec fn obeys_partial_cmp_spec() -> bool {
        true
    }

    open spec fn partial_cmp_spec(&self, other: &ArenaId<T>) -> Option<Ordering> {
        if self@ < other@ {
            Some(Ordering::Less)
        } else if self@ == other@ {
            Some(Ordering::Equal)
        } else {
            Some(Ordering::Greater)
        }
    }
}

/// The slot store: a densely indexed sequence of values plus the stack of
/// reclaimed positions. The arena owns all slot storage; handles are inert
/// until resolved against it.
#[derive(Clone)]
pub struct Arena<T> {
    grains: Vec<T>,
    free: Vec<usize>,
}

impl<T> View for Arena<T> {
    type V = ArenaModel<T>;

    closed spec fn view(&self) -> ArenaModel<T> {
        ArenaModel { slots: self.grains@, free: self.free@.map_values(|p: usize| p as nat) }
    }
}

impl<T> Arena<T> {
    /// Creates an arena with no slots and no reclaimed positions.
    pub fn new() -> (arena: Arena<T>)
        ensures
            arena@.slots.len() == 0,
            arena@.free.len() == 0,
    {
        Arena { grains: Vec::new(), free: Vec::new() }
    }

    /// The number of slots ever allocated, freed ones included: the
    /// high-water mark, not the live-element count.
    pub fn len(&self) -> (n: usize)
        ensures
            n == self@.slots.len(),
    {
        self.grains.len()
    }

    /// True exactly when no slot was ever allocated.
    pub fn is_empty(&self) -> (r: bool)
        ensures
            r == (self@.slots.len() == 0),
    {
        self.grains.is_empty()
    }

    /// Stores `value` and returns a handle to its slot. The most recently
    /// freed position is reused when one is available; otherwise `value` is
    /// appended as a new slot at position `len()`.
    pub fn allocate(&mut self, value: T) -> (id: ArenaId<T>)
        requires
            old(self)@.wf(),
        ensures
            final(self)@ == old(self)@.allocate(value),
            id@ == old(self)@.alloc_pos(),
            final(self)@.wf(),
    {
        match self.free.pop() {
            Some(address) => {
                proof {
                    let of = old(self)@.free;
                    assert(of[of.len() - 1] == address as nat);
                    assert(of[of.len() - 1] < old(self)@.slots.len());
                }
                let id = ArenaId::new(address);
                self.grains[address] = value;
                proof {
                    assert(self@.free =~= old(self)@.free.drop_last());
                    assert(self@ =~= old(self)@.allocate(value));
                }
                id
            },
            None => {
                let id = ArenaId::new(self.grains.len());
                self.grains.push(value);
                proof {
                    assert(self@.free =~= old(self)@.free);
                    assert(self@ =~= old(self)@.allocate(value));
                }
                id
            },
        }
    }

    /// Marks the handle's position as reclaimable by pushing it onto the
    /// reclaim stack. No range or double-free check: freeing an out-of-range
    /// or already-free position is accepted silently and leaves a model that
    /// is no longer well formed (or holds a duplicate position).
    pub fn free(&mut self, id: ArenaId<T>)
        ensures
            final(self)@ == old(self)@.free_pos(id@),
    {
        self.free.push(id.loc);
        proof {
            assert(self@.free =~= old(self)@.free.push(id@));
            assert(self@ =~= old(self)@.free_pos(id@));
        }
    }

    /// Resolves a handle: a reference to the slot's value when the position
    /// is in range, absent otherwise. The reclaim stack is not consulted, so
    /// a freed-but-not-reallocated position yields its stale value.
    pub fn get(&self, id: ArenaId<T>) -> (r: Option<&T>)
        ensures
            self@.lookup(id@) matches Some(value) ==> (r matches Some(v) && *v == value),
            self@.lookup(id@) is None ==> r is None,
    {
        if id.loc >= self.grains.len() {
            None
        } else {
            Some(&self.grains[id.loc])
        }
    }

    /// Like [`Self::get`], but grants exclusive mutation access to the slot.
    pub fn get_mut(&mut self, id: ArenaId<T>) -> (r: Option<&mut T>)
        ensures
            id@ < old(self)@.slots.len() ==> (r matches Some(v) && *v == old(self)@.slots[id@
                as int] && final(self)@.slots == old(self)@.slots.update(id@ as int, *final(v))
                && final(self)@.free == old(self)@.free),
            id@ >= old(self)@.slots.len() ==> (r is None && *final(self) == *old(self)),
    {
        if id.loc >= self.grains.len() {
            None
        } else {
            Some(&mut self.grains[id.loc])
        }
    }

    /// A fresh cursor over the arena's positions, from zero up to the current
    /// length.
    pub fn iter(&self) -> (it: ArenaIter<T>)
        ensures
            it.wf(),
            it.cursor() is None,
            it.bound() == self@.slots.len(),
    {
        ArenaIter { crnt: None, mark: PhantomData, max: self.grains.len() }
    }

    /// Infallible dereference: behaves as [`Self::get`] on an in-range
    /// position, which the caller must have established.
    pub fn index(&self, id: ArenaId<T>) -> (r: &T)
        requires
            id@ < self@.slots.len(),
        ensures
            *r == self@.slots[id@ as int],
    {
        match self.get(id) {
            Some(v) => v,
            None => vstd::pervasive::unreached(),
        }
    }
}

impl<T> Default for Arena<T> {
    /// A default arena is a new, empty one.
    fn default() -> (arena: Arena<T>)
        ensures
            arena@.slots.len() == 0,
            arena@.free.len() == 0,
    {
        Arena::new()
    }
}

/// A cursor over the positions of an arena, as handed out by
/// [`Arena::iter`]: it yields one handle per position from zero up to the
/// arena's length at the time it was made, in ascending order, without
/// filtering out freed positions. Each call to [`Arena::iter`] yields a
/// fresh, independent cursor.
pub struct ArenaIter<T> {
    crnt: Option<usize>,
    mark: PhantomData<T>,
    max: usize,
}

impl<T> ArenaIter<T> {
    /// The position yielded by the latest step, absent before the first one.
    /// An exhausted cursor rests at the last position it yielded.
    pub closed spec fn cursor(self) -> Option<nat> {
        match self.crnt {
            Some(v) => Some(v as nat),
            None => None,
        }
    }

    /// One past the last position the cursor yields.
    pub closed spec fn bound(self) -> nat {
        self.max as nat
    }

    /// A cursor is well formed when its position lies under the bound.
    pub open spec fn wf(self) -> bool {
        self.cursor() matches Some(v) ==> v < self.bound()
    }

    /// The positions the cursor has still to yield, in the order it will
    /// yield them: the whole range before the first step, nothing once the
    /// cursor has reached the last position.
    pub open spec fn remaining(self) -> Seq<nat> {
        match self.cursor() {
            None => positions(self.bound()),
            Some(v) => if v + 1 <= self.bound() {
                Seq::new((self.bound() - v - 1) as nat, |i: int| (v + 1 + i) as nat)
            } else {
                Seq::empty()
            },
        }
    }

    /// Steps the cursor: yields a handle to the first remaining position, or
    /// nothing once every position under the bound has been yielded. The
    /// sequence is finite: an exhausted cursor stays exhausted, however often
    /// it is stepped.
    pub fn next(&mut self) -> (r: Option<ArenaId<T>>)
        requires
            old(self).wf(),
        ensures
            final(self).wf(),
            final(self).bound() == old(self).bound(),
            old(self).remaining().len() > 0 ==> (r matches Some(id) && id@ == old(
                self,
            ).remaining()[0] && final(self).remaining() == old(self).remaining().drop_first()),
            old(self).remaining().len() == 0 ==> (r is None && final(self).cursor() == old(
                self,
            ).cursor()),
    {
        let mut stepped_to: Option<usize> = None;
        match self.crnt {
            None if self.max != 0 => {
                self.crnt = Some(0);
                stepped_to = Some(0);
            },
            Some(v) if v + 1 != self.max => {
                self.crnt = Some(v + 1);
                stepped_to = Some(v + 1);
            },
            // Exhausted (or empty-bounded): the cursor keeps its place. The
            // write-back settles the borrow's final value on these paths too.
            Some(v) => {
                self.crnt = Some(v);
            },
            None => {
                self.crnt = None;
            },
        }
        proof {
            if old(self).remaining().len() > 0 {
                assert(self.remaining() =~= old(self).remaining().drop_first());
            }
        }
        match stepped_to {
            Some(v) => Some(ArenaId::new(v)),
            None => None,
        }
    }
}

/// Law: a cursor over an arena with no slots has nothing to yield, whatever
/// state the cursor is in.
pub proof fn lemma_empty_iteration<T>(it: ArenaIter<T>)
    requires
        it.bound() == 0,
    ensures
        it.remaining().len() == 0,
{
}

} // verus!
