//! Unsigned integers as counters: the integer is the next value to give out,
//! and the largest value of its type marks the end of the sequence.

use crate::traits::sequence::gives;
use crate::traits::{FiniteSequential, UniqueGenerator};
use vstd::prelude::*;

verus! {

impl FiniteSequential for u8 {
    type Output = u8;

    /// From the counter's value up to, and without, `u8::MAX`.
    open spec fn remaining(&self) -> Seq<u8> {
        Seq::new((u8::MAX - *self) as nat, |i: int| (*self + i) as u8)
    }

    fn next(&mut self) -> (id: Option<u8>) {
        // The largest value ends the sequence, and is never given out.
        if *self == u8::MAX {
            return None;
        }
        let next: u8 = *self;
        *self += 1;
        Some(next)
    }
}

impl UniqueGenerator for u8 {
    type Output = u8;

    open spec fn pending(&self) -> Seq<u8> {
        self.remaining()
    }

    proof fn lemma_pending_distinct(&self) {
    }

    fn next(&mut self) -> (id: Option<u8>) {
        FiniteSequential::next(self)
    }
}

/// One call of `next` in numbers: a `u8` counter below `u8::MAX` returns
/// its value and goes up by one; at `u8::MAX` it returns `None` and stays.
pub proof fn lemma_u8_counts_up(before: u8, after: u8, id: Option<u8>)
    requires
        gives(before.remaining(), after.remaining(), id),
    ensures
        before < u8::MAX ==> id == Some(before) && after == before + 1,
        before == u8::MAX ==> id is None && after == before,
{
    assert(before.remaining().len() == u8::MAX - before);
    assert(after.remaining().len() == u8::MAX - after);
}

impl FiniteSequential for u16 {
    type Output = u16;

    /// From the counter's value up to, and without, `u16::MAX`.
    open spec fn remaining(&self) -> Seq<u16> {
        Seq::new((u16::MAX - *self) as nat, |i: int| (*self + i) as u16)
    }

    fn next(&mut self) -> (id: Option<u16>) {
        // The largest value ends the sequence, and is never given out.
        if *self == u16::MAX {
            return None;
        }
        let next: u16 = *self;
        *self += 1;
        Some(next)
    }
}

impl UniqueGenerator for u16 {
    type Output = u16;

    open spec fn pending(&self) -> Seq<u16> {
        self.remaining()
    }

    proof fn lemma_pending_distinct(&self) {
    }

    fn next(&mut self) -> (id: Option<u16>) {
        FiniteSequential::next(self)
    }
}

/// One call of `next` in numbers: a `u16` counter below `u16::MAX` returns
/// its value and goes up by one; at `u16::MAX` it returns `None` and stays.
pub proof fn lemma_u16_counts_up(before: u16, after: u16, id: Option<u16>)
    requires
        gives(before.remaining(), after.remaining(), id),
    ensures
        before < u16::MAX ==> id == Some(before) && after == before + 1,
        before == u16::MAX ==> id is None && after == before,
{
    assert(before.remaining().len() == u16::MAX - before);
    assert(after.remaining().len() == u16::MAX - after);
}

impl FiniteSequential for u32 {
    type Output = u32;

    /// From the counter's value up to, and without, `u32::MAX`.
    open spec fn remaining(&self) -> Seq<u32> {
        Seq::new((u32::MAX - *self) as nat, |i: int| (*self + i) as u32)
    }

    fn next(&mut self) -> (id: Option<u32>) {
        // The largest value ends the sequence, and is never given out.
        if *self == u32::MAX {
            return None;
        }
        let next: u32 = *self;
        *self += 1;
        Some(next)
    }
}

impl UniqueGenerator for u32 {
    type Output = u32;

    open spec fn pending(&self) -> Seq<u32> {
        self.remaining()
    }

    proof fn lemma_pending_distinct(&self) {
    }

    fn next(&mut self) -> (id: Option<u32>) {
        FiniteSequential::next(self)
    }
}

/// One call of `next` in numbers: a `u32` counter below `u32::MAX` returns
/// its value and goes up by one; at `u32::MAX` it returns `None` and stays.
pub proof fn lemma_u32_counts_up(before: u32, after: u32, id: Option<u32>)
    requires
        gives(before.remaining(), after.remaining(), id),
    ensures
        before < u32::MAX ==> id == Some(before) && after == before + 1,
        before == u32::MAX ==> id is None && after == before,
{
    assert(before.remaining().len() == u32::MAX - before);
    assert(after.remaining().len() == u32::MAX - after);
}

impl FiniteSequential for u64 {
    type Output = u64;

    /// From the counter's value up to, and without, `u64::MAX`.
    open spec fn remaining(&self) -> Seq<u64> {
        Seq::new((u64::MAX - *self) as nat, |i: int| (*self + i) as u64)
    }

    fn next(&mut self) -> (id: Option<u64>) {
        // The largest value ends the sequence, and is never given out.
        if *self == u64::MAX {
            return None;
        }
        let next: u64 = *self;
        *self += 1;
        Some(next)
    }
}

impl UniqueGenerator for u64 {
    type Output = u64;

    open spec fn pending(&self) -> Seq<u64> {
        self.remaining()
    }

    proof fn lemma_pending_distinct(&self) {
    }

    fn next(&mut self) -> (id: Option<u64>) {
        FiniteSequential::next(self)
    }
}

/// One call of `next` in numbers: a `u64` counter below `u64::MAX` returns
/// its value and goes up by one; at `u64::MAX` it returns `None` and stays.
pub proof fn lemma_u64_counts_up(before: u64, after: u64, id: Option<u64>)
    requires
        gives(before.remaining(), after.remaining(), id),
    ensures
        before < u64::MAX ==> id == Some(before) && after == before + 1,
        before == u64::MAX ==> id is None && after == before,
{
    assert(before.remaining().len() == u64::MAX - before);
    assert(after.remaining().len() == u64::MAX - after);
}

impl FiniteSequential for u128 {
    type Output = u128;

    /// From the counter's value up to, and without, `u128::MAX`.
    open spec fn remaining(&self) -> Seq<u128> {
        Seq::new((u128::MAX - *self) as nat, |i: int| (*self + i) as u128)
    }

    fn next(&mut self) -> (id: Option<u128>) {
        // The largest value ends the sequence, and is never given out.
        if *self == u128::MAX {
            return None;
        }
        let next: u128 = *self;
        *self += 1;
        Some(next)
    }
}

impl UniqueGenerator for u128 {
    type Output = u128;

    open spec fn pending(&self) -> Seq<u128> {
        self.remaining()
    }

    proof fn lemma_pending_distinct(&self) {
    }

    fn next(&mut self) -> (id: Option<u128>) {
        FiniteSequential::next(self)
    }
}

/// One call of `next` in numbers: a `u128` counter below `u128::MAX` returns
/// its value and goes up by one; at `u128::MAX` it returns `None` and stays.
pub proof fn lemma_u128_counts_up(before: u128, after: u128, id: Option<u128>)
    requires
        gives(before.remaining(), after.remaining(), id),
    ensures
        before < u128::MAX ==> id == Some(before) && after == before + 1,
        before == u128::MAX ==> id is None && after == before,
{
    assert(before.remaining().len() == u128::MAX - before);
    assert(after.remaining().len() == u128::MAX - after);
}

impl FiniteSequential for usize {
    type Output = usize;

    /// From the counter's value up to, and without, `usize::MAX`.
    open spec fn remaining(&self) -> Seq<usize> {
        Seq::new((usize::MAX - *self) as nat, |i: int| (*self + i) as usize)
    }

    fn next(&mut self) -> (id: Option<usize>) {
        // The largest value ends the sequence, and is never given out.
        if *self == usize::MAX {
            return None;
        }
        let next: usize = *self;
        *self += 1;
        Some(next)
    }
}

impl UniqueGenerator for usize {
    type Output = usize;

    open spec fn pending(&self) -> Seq<usize> {
        self.remaining()
    }

    proof fn lemma_pending_distinct(&self) {
    }

    fn next(&mut self) -> (id: Option<usize>) {
        FiniteSequential::next(self)
    }
}

/// One call of `next` in numbers: a `usize` counter below `usize::MAX` returns
/// its value and goes up by one; at `usize::MAX` it returns `None` and stays.
pub proof fn lemma_usize_counts_up(before: usize, after: usize, id: Option<usize>)
    requires
        gives(before.remaining(), after.remaining(), id),
    ensures
        before < usize::MAX ==> id == Some(before) && after == before + 1,
        before == usize::MAX ==> id is None && after == before,
{
    assert(before.remaining().len() == usize::MAX - before);
    assert(after.remaining().len() == usize::MAX - after);
}

} // verus!
