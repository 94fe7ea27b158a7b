//! Counters held in atomic cells. They count as the plain counters do; the
//! integer lives in the atomic type of its width.
//!
//! A counter keeps its cell to itself and changes it through an exclusive
//! borrow only, so the integer in the cell is the counter's to tell: nothing
//! else can write it.

use crate::traits::{FiniteSequential, UniqueGenerator};
use core::sync::atomic::{AtomicU16, AtomicU32, AtomicU64, AtomicU8, AtomicUsize};
use vstd::prelude::*;

verus! {

/// A `u8` counter whose integer lives in an `AtomicU8`.
#[verifier::external_body]
pub struct AtomicCounterU8 {
    cell: AtomicU8,
}

/// The integer in the cell of an `AtomicCounterU8`.
pub uninterp spec fn atomic_counter_u8_value(counter: AtomicCounterU8) -> u8;

/// `AtomicU8::new` makes a cell that holds the integer given.
#[verifier::external_body]
fn make_u8_cell(start: u8) -> (counter: AtomicCounterU8)
    ensures
        atomic_counter_u8_value(counter) == start,
{
    AtomicCounterU8 { cell: AtomicU8::new(start) }
}

/// `AtomicU8::get_mut` lends out the integer in the cell: the borrow starts at
/// that integer, and what the borrow is left at is the integer in the cell
/// from then on.
#[verifier::external_body]
fn borrow_u8_cell(counter: &mut AtomicCounterU8) -> (value: &mut u8)
    ensures
        *value == atomic_counter_u8_value(*old(counter)),
        atomic_counter_u8_value(*final(counter)) == *final(value),
{
    counter.cell.get_mut()
}

impl View for AtomicCounterU8 {
    type V = u8;

    /// The next value to give out, as for a plain counter.
    open spec fn view(&self) -> u8 {
        atomic_counter_u8_value(*self)
    }
}

impl AtomicCounterU8 {
    /// A counter that stands at `start`.
    pub fn new(start: u8) -> (counter: Self)
        ensures
            counter@ == start,
    {
        make_u8_cell(start)
    }
}

impl Default for AtomicCounterU8 {
    /// A counter that stands at zero.
    fn default() -> (counter: Self)
        ensures
            counter@ == 0,
    {
        make_u8_cell(0)
    }
}

impl FiniteSequential for AtomicCounterU8 {
    type Output = u8;

    /// What remains for a plain counter at the integer in the cell.
    open spec fn remaining(&self) -> Seq<u8> {
        self@.remaining()
    }

    fn next(&mut self) -> (id: Option<u8>) {
        FiniteSequential::next(borrow_u8_cell(self))
    }
}

impl UniqueGenerator for AtomicCounterU8 {
    type Output = u8;

    open spec fn pending(&self) -> Seq<u8> {
        self.remaining()
    }

    proof fn lemma_pending_distinct(&self) {
    }

    fn next(&mut self) -> (id: Option<u8>) {
        FiniteSequential::next(self)
    }
}

/// A `u16` counter whose integer lives in an `AtomicU16`.
#[verifier::external_body]
pub struct AtomicCounterU16 {
    cell: AtomicU16,
}

/// The integer in the cell of an `AtomicCounterU16`.
pub uninterp spec fn atomic_counter_u16_value(counter: AtomicCounterU16) -> u16;

/// `AtomicU16::new` makes a cell that holds the integer given.
#[verifier::external_body]
fn make_u16_cell(start: u16) -> (counter: AtomicCounterU16)
    ensures
        atomic_counter_u16_value(counter) == start,
{
    AtomicCounterU16 { cell: AtomicU16::new(start) }
}

/// `AtomicU16::get_mut` lends out the integer in the cell: the borrow starts at
/// that integer, and what the borrow is left at is the integer in the cell
/// from then on.
#[verifier::external_body]
fn borrow_u16_cell(counter: &mut AtomicCounterU16) -> (value: &mut u16)
    ensures
        *value == atomic_counter_u16_value(*old(counter)),
        atomic_counter_u16_value(*final(counter)) == *final(value),
{
    counter.cell.get_mut()
}

impl View for AtomicCounterU16 {
    type V = u16;

    /// The next value to give out, as for a plain counter.
    open spec fn view(&self) -> u16 {
        atomic_counter_u16_value(*self)
    }
}

impl AtomicCounterU16 {
    /// A counter that stands at `start`.
    pub fn new(start: u16) -> (counter: Self)
        ensures
            counter@ == start,
    {
        make_u16_cell(start)
    }
}

impl Default for AtomicCounterU16 {
    /// A counter that stands at zero.
    fn default() -> (counter: Self)
        ensures
            counter@ == 0,
    {
        make_u16_cell(0)
    }
}

impl FiniteSequential for AtomicCounterU16 {
    type Output = u16;

    /// What remains for a plain counter at the integer in the cell.
    open spec fn remaining(&self) -> Seq<u16> {
        self@.remaining()
    }

    fn next(&mut self) -> (id: Option<u16>) {
        FiniteSequential::next(borrow_u16_cell(self))
    }
}

impl UniqueGenerator for AtomicCounterU16 {
    type Output = u16;

    open spec fn pending(&self) -> Seq<u16> {
        self.remaining()
    }

    proof fn lemma_pending_distinct(&self) {
    }

    fn next(&mut self) -> (id: Option<u16>) {
        FiniteSequential::next(self)
    }
}

/// A `u32` counter whose integer lives in an `AtomicU32`.
#[verifier::external_body]
pub struct AtomicCounterU32 {
    cell: AtomicU32,
}

/// The integer in the cell of an `AtomicCounterU32`.
pub uninterp spec fn atomic_counter_u32_value(counter: AtomicCounterU32) -> u32;

/// `AtomicU32::new` makes a cell that holds the integer given.
#[verifier::external_body]
fn make_u32_cell(start: u32) -> (counter: AtomicCounterU32)
    ensures
        atomic_counter_u32_value(counter) == start,
{
    AtomicCounterU32 { cell: AtomicU32::new(start) }
}

/// `AtomicU32::get_mut` lends out the integer in the cell: the borrow starts at
/// that integer, and what the borrow is left at is the integer in the cell
/// from then on.
#[verifier::external_body]
fn borrow_u32_cell(counter: &mut AtomicCounterU32) -> (value: &mut u32)
    ensures
        *value == atomic_counter_u32_value(*old(counter)),
        atomic_counter_u32_value(*final(counter)) == *final(value),
{
    counter.cell.get_mut()
}

impl View for AtomicCounterU32 {
    type V = u32;

    /// The next value to give out, as for a plain counter.
    open spec fn view(&self) -> u32 {
        atomic_counter_u32_value(*self)
    }
}

impl AtomicCounterU32 {
    /// A counter that stands at `start`.
    pub fn new(start: u32) -> (counter: Self)
        ensures
            counter@ == start,
    {
        make_u32_cell(start)
    }
}

impl Default for AtomicCounterU32 {
    /// A counter that stands at zero.
    fn default() -> (counter: Self)
        ensures
            counter@ == 0,
    {
        make_u32_cell(0)
    }
}

impl FiniteSequential for AtomicCounterU32 {
    type Output = u32;

    /// What remains for a plain counter at the integer in the cell.
    open spec fn remaining(&self) -> Seq<u32> {
        self@.remaining()
    }

    fn next(&mut self) -> (id: Option<u32>) {
        FiniteSequential::next(borrow_u32_cell(self))
    }
}

impl UniqueGenerator for AtomicCounterU32 {
    type Output = u32;

    open spec fn pending(&self) -> Seq<u32> {
        self.remaining()
    }

    proof fn lemma_pending_distinct(&self) {
    }

    fn next(&mut self) -> (id: Option<u32>) {
        FiniteSequential::next(self)
    }
}

/// A `u64` counter whose integer lives in an `AtomicU64`.
#[verifier::external_body]
pub struct AtomicCounterU64 {
    cell: AtomicU64,
}

/// The integer in the cell of an `AtomicCounterU64`.
pub uninterp spec fn atomic_counter_u64_value(counter: AtomicCounterU64) -> u64;

/// `AtomicU64::new` makes a cell that holds the integer given.
#[verifier::external_body]
fn make_u64_cell(start: u64) -> (counter: AtomicCounterU64)
    ensures
        atomic_counter_u64_value(counter) == start,
{
    AtomicCounterU64 { cell: AtomicU64::new(start) }
}

/// `AtomicU64::get_mut` lends out the integer in the cell: the borrow starts at
/// that integer, and what the borrow is left at is the integer in the cell
/// from then on.
#[verifier::external_body]
fn borrow_u64_cell(counter: &mut AtomicCounterU64) -> (value: &mut u64)
    ensures
        *value == atomic_counter_u64_value(*old(counter)),
        atomic_counter_u64_value(*final(counter)) == *final(value),
{
    counter.cell.get_mut()
}

impl View for AtomicCounterU64 {
    type V = u64;

    /// The next value to give out, as for a plain counter.
    open spec fn view(&self) -> u64 {
        atomic_counter_u64_value(*self)
    }
}

impl AtomicCounterU64 {
    /// A counter that stands at `start`.
    pub fn new(start: u64) -> (counter: Self)
        ensures
            counter@ == start,
    {
        make_u64_cell(start)
    }
}

impl Default for AtomicCounterU64 {
    /// A counter that stands at zero.
    fn default() -> (counter: Self)
        ensures
            counter@ == 0,
    {
        make_u64_cell(0)
    }
}

impl FiniteSequential for AtomicCounterU64 {
    type Output = u64;

    /// What remains for a plain counter at the integer in the cell.
    open spec fn remaining(&self) -> Seq<u64> {
        self@.remaining()
    }

    fn next(&mut self) -> (id: Option<u64>) {
        FiniteSequential::next(borrow_u64_cell(self))
    }
}

impl UniqueGenerator for AtomicCounterU64 {
    type Output = u64;

    open spec fn pending(&self) -> Seq<u64> {
        self.remaining()
    }

    proof fn lemma_pending_distinct(&self) {
    }

    fn next(&mut self) -> (id: Option<u64>) {
        FiniteSequential::next(self)
    }
}

/// A `usize` counter whose integer lives in an `AtomicUsize`.
#[verifier::external_body]
pub struct AtomicCounterUsize {
    cell: AtomicUsize,
}

/// The integer in the cell of an `AtomicCounterUsize`.
pub uninterp spec fn atomic_counter_usize_value(counter: AtomicCounterUsize) -> usize;

/// `AtomicUsize::new` makes a cell that holds the integer given.
#[verifier::external_body]
fn make_usize_cell(start: usize) -> (counter: AtomicCounterUsize)
    ensures
        atomic_counter_usize_value(counter) == start,
{
    AtomicCounterUsize { cell: AtomicUsize::new(start) }
}

/// `AtomicUsize::get_mut` lends out the integer in the cell: the borrow starts at
/// that integer, and what the borrow is left at is the integer in the cell
/// from then on.
#[verifier::external_body]
fn borrow_usize_cell(counter: &mut AtomicCounterUsize) -> (value: &mut usize)
    ensures
        *value == atomic_counter_usize_value(*old(counter)),
        atomic_counter_usize_value(*final(counter)) == *final(value),
{
    counter.cell.get_mut()
}

impl View for AtomicCounterUsize {
    type V = usize;

    /// The next value to give out, as for a plain counter.
    open spec fn view(&self) -> usize {
        atomic_counter_usize_value(*self)
    }
}

impl AtomicCounterUsize {
    /// A counter that stands at `start`.
    pub fn new(start: usize) -> (counter: Self)
        ensures
            counter@ == start,
    {
        make_usize_cell(start)
    }
}

impl Default for AtomicCounterUsize {
    /// A counter that stands at zero.
    fn default() -> (counter: Self)
        ensures
            counter@ == 0,
    {
        make_usize_cell(0)
    }
}

impl FiniteSequential for AtomicCounterUsize {
    type Output = usize;

    /// What remains for a plain counter at the integer in the cell.
    open spec fn remaining(&self) -> Seq<usize> {
        self@.remaining()
    }

    fn next(&mut self) -> (id: Option<usize>) {
        FiniteSequential::next(borrow_usize_cell(self))
    }
}

impl UniqueGenerator for AtomicCounterUsize {
    type Output = usize;

    open spec fn pending(&self) -> Seq<usize> {
        self.remaining()
    }

    proof fn lemma_pending_distinct(&self) {
    }

    fn next(&mut self) -> (id: Option<usize>) {
        FiniteSequential::next(self)
    }
}

} // verus!
