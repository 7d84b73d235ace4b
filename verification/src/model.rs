//! Mathematical model of the arena: a slot sequence together with a stack of
//! reclaimed positions. The executable types in [`crate::arena`] are
//! specified by their views into this model.

use vstd::prelude::*;

verus! {

/// Abstract state of an arena: `slots` is the densely indexed storage
/// (index = position), `free` is the stack of reclaimed positions, reused
/// most-recently-freed first (its last element is the next position handed
/// out).
#[verifier::ext_equal]
pub struct ArenaModel<T> {
    pub slots: Seq<T>,
    pub free: Seq<nat>,
}

impl<T> ArenaModel<T> {
    /// A model is well formed when every reclaimed position lies inside the
    /// slot sequence. Freeing an out-of-range position breaks this, and a
    /// later allocation that would reuse such a position has no defined
    /// executable counterpart.
    pub open spec fn wf(self) -> bool {
        forall|i: int| 0 <= i < self.free.len() ==> self.free[i] < self.slots.len()
    }

    /// The position the next allocation returns: the most recently freed
    /// position if any is available, otherwise the index one past the end.
    pub open spec fn alloc_pos(self) -> nat {
        if self.free.len() > 0 {
            self.free.last()
        } else {
            self.slots.len()
        }
    }

    /// State after allocating `value`: either the most recently freed
    /// position is popped and overwritten, or `value` is appended as a new
    /// slot. (An out-of-range reclaimed position cannot be overwritten; on a
    /// well-formed model that case never arises.)
    pub open spec fn allocate(self, value: T) -> ArenaModel<T> {
        if self.free.len() > 0 {
            ArenaModel {
                slots: if self.free.last() < self.slots.len() {
                    self.slots.update(self.free.last() as int, value)
                } else {
                    self.slots
                },
                free: self.free.drop_last(),
            }
        } else {
            ArenaModel { slots: self.slots.push(value), free: self.free }
        }
    }

    /// State after freeing position `pos`: the position is pushed onto the
    /// reclaim stack, unconditionally — no range or double-free check.
    pub open spec fn free_pos(self, pos: nat) -> ArenaModel<T> {
        ArenaModel { slots: self.slots, free: self.free.push(pos) }
    }

    /// What a lookup at `pos` yields: the slot's current value when the
    /// position is in range, absent otherwise. Freed-but-unreused slots still
    /// yield their stale value.
    pub open spec fn lookup(self, pos: nat) -> Option<T> {
        if pos < self.slots.len() {
            Some(self.slots[pos as int])
        } else {
            None
        }
    }
}

/// The positions a fresh iteration over an arena of `len` slots visits:
/// `0, 1, …, len - 1`, in ascending order.
pub open spec fn positions(len: nat) -> Seq<nat> {
    Seq::new(len, |i: int| i as nat)
}

/// One arena operation, for stating laws over arbitrary call sequences.
pub enum ArenaOp<T> {
    Allocate(T),
    Free(nat),
}

/// The model after one operation.
pub open spec fn apply_op<T>(m: ArenaModel<T>, op: ArenaOp<T>) -> ArenaModel<T> {
    match op {
        ArenaOp::Allocate(value) => m.allocate(value),
        ArenaOp::Free(pos) => m.free_pos(pos),
    }
}

/// The model after a sequence of operations, applied left to right.
pub open spec fn apply_ops<T>(m: ArenaModel<T>, ops: Seq<ArenaOp<T>>) -> ArenaModel<T>
    decreases ops.len(),
{
    if ops.len() == 0 {
        m
    } else {
        apply_ops(apply_op(m, ops[0]), ops.drop_first())
    }
}

/// Law: an allocation grows the slot count by exactly one when no freed
/// position is available and keeps it constant when one is reused; a free
/// never changes it.
pub proof fn lemma_step_growth<T>(m: ArenaModel<T>, op: ArenaOp<T>)
    ensures
        apply_op(m, op).slots.len() >= m.slots.len(),
        (op matches ArenaOp::Allocate(value) && m.free.len() == 0) ==> apply_op(
            m,
            op,
        ).slots.len() == m.slots.len() + 1,
        (op matches ArenaOp::Allocate(value) && m.free.len() > 0) ==> apply_op(m, op).slots.len()
            == m.slots.len(),
        op matches ArenaOp::Free(pos) ==> apply_op(m, op).slots.len() == m.slots.len(),
{
}

/// Law: the slot count never decreases across any sequence of allocate and
/// free operations.
pub proof fn lemma_growth_monotone<T>(m: ArenaModel<T>, ops: Seq<ArenaOp<T>>)
    ensures
        apply_ops(m, ops).slots.len() >= m.slots.len(),
    decreases ops.len(),
{
    if ops.len() > 0 {
        lemma_step_growth(m, ops[0]);
        lemma_growth_monotone(apply_op(m, ops[0]), ops.drop_first());
    }
}

/// Law: on a well-formed arena, allocating a value, freeing the handle that
/// came back, and allocating again reuses the very same position, and a
/// lookup there yields the second value, not the first.
pub proof fn lemma_reuse<T>(m: ArenaModel<T>, a: T, b: T)
    requires
        m.wf(),
    ensures
        ({
            let first = m.alloc_pos();
            let freed = m.allocate(a).free_pos(first);
            freed.alloc_pos() == first && freed.allocate(b).lookup(first) == Some(b)
        }),
{
}

/// The model after allocating each value of `values`, in order.
pub open spec fn allocate_all<T>(m: ArenaModel<T>, values: Seq<T>) -> ArenaModel<T>
    decreases values.len(),
{
    if values.len() == 0 {
        m
    } else {
        allocate_all(m.allocate(values[0]), values.drop_first())
    }
}

/// Law (round trip): allocating `values` in order into an arena with no freed
/// positions appends them to the slots; no position is ever reclaimed along
/// the way; the i-th allocation returns the position `m.slots.len() + i`, so
/// the handles come back in ascending position order; and a lookup through
/// the i-th handle afterwards yields exactly the i-th value. Starting from an
/// empty arena the returned positions are exactly the ones a fresh iteration
/// visits, in the same order.
pub proof fn lemma_round_trip<T>(m: ArenaModel<T>, values: Seq<T>)
    requires
        m.free.len() == 0,
    ensures
        allocate_all(m, values).slots == m.slots + values,
        allocate_all(m, values).free.len() == 0,
        forall|i: int|
            0 <= i < values.len() ==> #[trigger] allocate_all(m, values.take(i)).alloc_pos()
                == m.slots.len() + i,
        forall|i: int|
            0 <= i < values.len() ==> allocate_all(m, values).lookup((m.slots.len() + i) as nat)
                == Some(#[trigger] values[i]),
        m.slots.len() == 0 ==> positions(allocate_all(m, values).slots.len()) == Seq::new(
            values.len(),
            |i: int| allocate_all(m, values.take(i)).alloc_pos(),
        ),
    decreases values.len(),
{
    if values.len() == 0 {
        assert(allocate_all(m, values).slots =~= m.slots + values);
    } else {
        let m1 = m.allocate(values[0]);
        lemma_round_trip(m1, values.drop_first());
        assert(allocate_all(m1, values.drop_first()).slots =~= m.slots + values);
        assert forall|i: int|
            0 <= i < values.len() implies #[trigger] allocate_all(
            m,
            values.take(i),
        ).alloc_pos() == m.slots.len() + i by {
            if i == 0 {
                assert(values.take(0) =~= Seq::<T>::empty());
            } else {
                assert(values.take(i)[0] == values[0]);
                assert(values.take(i).drop_first() =~= values.drop_first().take(i - 1));
                assert(allocate_all(m, values.take(i)) == allocate_all(
                    m1,
                    values.drop_first().take(i - 1),
                ));
            }
        }
        assert forall|i: int|
            0 <= i < values.len() implies allocate_all(m, values).lookup(
            (m.slots.len() + i) as nat,
        ) == Some(#[trigger] values[i]) by {
            assert((m.slots + values)[m.slots.len() + i] == values[i]);
        }
    }
    if m.slots.len() == 0 {
        assert(positions(allocate_all(m, values).slots.len()) =~= Seq::new(
            values.len(),
            |i: int| allocate_all(m, values.take(i)).alloc_pos(),
        ));
    }
}

} // verus!
