//! Counting the values of each type on an operand stack.

use vstd::prelude::*;

use crate::util::{TypeMap, ValType};

verus! {

/// For each type, how many values of it a stack holds.
pub type StackHeight = TypeMap<u32>;

/// How many values of type `ty` the stack holds.
pub open spec fn count_of(stack: Seq<ValType>, ty: ValType) -> nat
    decreases stack.len(),
{
    if stack.len() == 0 {
        0
    } else {
        count_of(stack.drop_last(), ty) + if stack.last() == ty {
            1nat
        } else {
            0nat
        }
    }
}

/// The heights of a stack of at most `u32::MAX` values.
pub open spec fn heights(stack: Seq<ValType>) -> StackHeight {
    TypeMap {
        i32: count_of(stack, ValType::I32) as u32,
        i64: count_of(stack, ValType::I64) as u32,
        float32: count_of(stack, ValType::F32) as u32,
        float64: count_of(stack, ValType::F64) as u32,
    }
}

/// Every value of a stack is of exactly one of the four types.
pub proof fn lemma_count_of_total(stack: Seq<ValType>)
    ensures
        count_of(stack, ValType::I32) + count_of(stack, ValType::I64) + count_of(
            stack,
            ValType::F32,
        ) + count_of(stack, ValType::F64) == stack.len(),
    decreases stack.len(),
{
    if stack.len() > 0 {
        lemma_count_of_total(stack.drop_last());
    }
}

/// The values of two stacks, one on top of the other, are counted together.
pub proof fn lemma_count_of_concat(a: Seq<ValType>, b: Seq<ValType>, ty: ValType)
    ensures
        count_of(a + b, ty) == count_of(a, ty) + count_of(b, ty),
    decreases b.len(),
{
    if b.len() == 0 {
        assert(a + b =~= a);
    } else {
        lemma_count_of_concat(a, b.drop_last(), ty);
        assert((a + b).drop_last() =~= a + b.drop_last());
    }
}

/// The heights of a stack of at most `u32::MAX` values add up to its length.
pub proof fn lemma_heights_sum(stack: Seq<ValType>)
    requires
        stack.len() <= u32::MAX,
    ensures
        heights(stack).spec_sum() == stack.len(),
        forall|ty: ValType| #[trigger] heights(stack).spec_get(ty) == count_of(stack, ty),
{
    lemma_count_of_total(stack);
    assert forall|ty: ValType| #[trigger] heights(stack).spec_get(ty) == count_of(stack, ty) by {
        match ty {
            ValType::I32 => {},
            ValType::I64 => {},
            ValType::F32 => {},
            ValType::F64 => {},
        }
    }
}

/// Pushing a value raises the height of its type by one.
pub proof fn lemma_heights_push(stack: Seq<ValType>, ty: ValType)
    requires
        stack.len() < u32::MAX,
    ensures
        heights(stack.push(ty)) == heights(stack).spec_push(ty),
        heights(stack).spec_get(ty) < u32::MAX,
{
    assert(stack.push(ty).drop_last() =~= stack);
    lemma_count_of_total(stack);
    lemma_count_of_total(stack.push(ty));
}

/// Popping a value lowers the height of its type by one.
pub proof fn lemma_heights_pop(stack: Seq<ValType>)
    requires
        0 < stack.len() <= u32::MAX,
    ensures
        heights(stack.drop_last()) == heights(stack).spec_pop(stack.last()),
        heights(stack).spec_get(stack.last()) > 0,
{
    lemma_count_of_total(stack);
    lemma_count_of_total(stack.drop_last());
}

/// The heights of the top of a stack do not exceed those of the whole stack.
pub proof fn lemma_heights_top(below: Seq<ValType>, top: Seq<ValType>)
    requires
        below.len() + top.len() <= u32::MAX,
    ensures
        heights(top).le(heights(below + top)),
{
    lemma_count_of_total(below + top);
    lemma_count_of_total(top);
    lemma_count_of_concat(below, top, ValType::I32);
    lemma_count_of_concat(below, top, ValType::I64);
    lemma_count_of_concat(below, top, ValType::F32);
    lemma_count_of_concat(below, top, ValType::F64);
}

/// A value below a stack is counted with the values of the stack.
pub proof fn lemma_count_of_below(bottom: ValType, stack: Seq<ValType>, ty: ValType)
    ensures
        count_of(seq![bottom] + stack, ty) == count_of(stack, ty) + if bottom == ty {
            1nat
        } else {
            0nat
        },
{
    lemma_count_of_concat(seq![bottom], stack, ty);
    let one = seq![bottom];
    assert(one.drop_last() =~= Seq::<ValType>::empty());
    assert(one.last() == bottom);
    assert(count_of(one.drop_last(), ty) == 0);
    assert(count_of(one, ty) == if bottom == ty {
        1nat
    } else {
        0nat
    });
}

impl TypeMap<u32> {
    /// The heights of the empty stack.
    pub open spec fn zero() -> Self {
        TypeMap { i32: 0, i64: 0, float32: 0, float64: 0 }
    }

    /// The total height.
    pub open spec fn spec_sum(self) -> int {
        self.i32 + self.i64 + self.float32 + self.float64
    }

    /// The heights after a value of type `ty` is pushed.
    pub open spec fn spec_push(self, ty: ValType) -> Self {
        self.spec_set(ty, (self.spec_get(ty) + 1) as u32)
    }

    /// The heights after a value of type `ty` is popped.
    pub open spec fn spec_pop(self, ty: ValType) -> Self {
        self.spec_set(ty, (self.spec_get(ty) - 1) as u32)
    }

    /// Whether no height exceeds that of `other`.
    pub open spec fn le(self, other: Self) -> bool {
        &&& self.i32 <= other.i32
        &&& self.i64 <= other.i64
        &&& self.float32 <= other.float32
        &&& self.float64 <= other.float64
    }

    /// For each type, the larger of the two heights.
    pub open spec fn spec_max(self, other: Self) -> Self {
        TypeMap {
            i32: if self.i32 >= other.i32 {
                self.i32
            } else {
                other.i32
            },
            i64: if self.i64 >= other.i64 {
                self.i64
            } else {
                other.i64
            },
            float32: if self.float32 >= other.float32 {
                self.float32
            } else {
                other.float32
            },
            float64: if self.float64 >= other.float64 {
                self.float64
            } else {
                other.float64
            },
        }
    }

    /// For each type, the height less that of `rhs`.
    pub open spec fn spec_sub(self, rhs: Self) -> Self {
        TypeMap {
            i32: (self.i32 - rhs.i32) as u32,
            i64: (self.i64 - rhs.i64) as u32,
            float32: (self.float32 - rhs.float32) as u32,
            float64: (self.float64 - rhs.float64) as u32,
        }
    }

    pub fn new() -> (r: Self)
        ensures
            r == Self::zero(),
    {
        TypeMap { i32: 0, i64: 0, float32: 0, float64: 0 }
    }

    /// The height for one type, to be changed in place.
    pub fn counter(&mut self, ty: ValType) -> (r: &mut u32)
        ensures
            *r == old(self).spec_get(ty),
            *final(self) == old(self).spec_set(ty, *final(r)),
    {
        self.get_mut(ty)
    }

    pub fn push(&mut self, ty: ValType)
        requires
            old(self).spec_get(ty) < u32::MAX,
        ensures
            *final(self) == old(self).spec_push(ty),
    {
        let counter = self.counter(ty);
        *counter = *counter + 1;
    }

    pub fn pop(&mut self, ty: ValType)
        requires
            old(self).spec_get(ty) > 0,
        ensures
            *final(self) == old(self).spec_pop(ty),
    {
        let counter = self.counter(ty);
        *counter = *counter - 1;
    }

    pub fn sum(&self) -> (r: u32)
        requires
            self.spec_sum() <= u32::MAX,
        ensures
            r == self.spec_sum(),
    {
        self.i32 + self.i64 + self.float32 + self.float64
    }

    pub fn take_max(&mut self, other: Self)
        ensures
            *final(self) == old(self).spec_max(other),
    {
        if other.i32 > self.i32 {
            self.i32 = other.i32;
        }
        if other.i64 > self.i64 {
            self.i64 = other.i64;
        }
        if other.float32 > self.float32 {
            self.float32 = other.float32;
        }
        if other.float64 > self.float64 {
            self.float64 = other.float64;
        }
    }

    pub fn sub(self, rhs: Self) -> (r: Self)
        requires
            rhs.le(self),
        ensures
            r == self.spec_sub(rhs),
    {
        TypeMap {
            i32: self.i32 - rhs.i32,
            i64: self.i64 - rhs.i64,
            float32: self.float32 - rhs.float32,
            float64: self.float64 - rhs.float64,
        }
    }
}

/// Count the values of each type in a stack.
pub fn heights_of(stack: &[ValType]) -> (r: StackHeight)
    requires
        stack@.len() <= u32::MAX,
    ensures
        r == heights(stack@),
{
    let mut r = StackHeight::new();
    let mut i: usize = 0;
    while i < stack.len()
        invariant
            i <= stack@.len() <= u32::MAX,
            r == heights(stack@.subrange(0, i as int)),
        decreases stack@.len() - i,
    {
        proof {
            let before = stack@.subrange(0, i as int);
            let after = stack@.subrange(0, i + 1);
            assert(after.drop_last() =~= before);
            lemma_count_of_total(after);
        }
        r.push(stack[i]);
        i += 1;
    }
    assert(stack@.subrange(0, stack@.len() as int) =~= stack@);
    r
}

} // verus!
