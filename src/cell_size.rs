use vstd::prelude::*;

verus! {

/// The behaviour of one tape cell: an unsigned integer of a fixed width whose
/// arithmetic wraps around modulo `modulus()`.
pub trait CellSize: Sized + Copy {
    /// The number of distinct values a cell can hold (2 to the power of its width).
    spec fn modulus() -> nat;

    /// The value held by the cell, as a mathematical integer.
    spec fn num(&self) -> int;

    /// A tape segment of `count` cells, all zero.
    fn get_zeroes(count: usize) -> (r: Vec<Self>)
        ensures
            r.len() == count,
            forall|i: int| 0 <= i < count ==> #[trigger] r[i].num() == 0;

    /// Adds `value` to the cell, wrapping around.
    fn add_to_cell(&mut self, value: Self)
        ensures
            final(self).num() == (old(self).num() + value.num()) % (Self::modulus() as int);

    /// Subtracts `value` from the cell, wrapping around.
    fn sub_from_cell(&mut self, value: Self)
        ensures
            final(self).num() == (old(self).num() - value.num()) % (Self::modulus() as int);

    fn is_zero(&self) -> (r: bool)
        ensures
            r == (self.num() == 0);

    fn is_nonzero(&self) -> (r: bool)
        ensures
            r == (self.num() != 0);

    /// The cell holding an input byte, widened without sign extension.
    fn from_stdout(c: u8) -> (r: Self)
        ensures
            r.num() == c as int;

    /// The low eight bits of the cell, as written to the output.
    fn to_stdin(&self) -> (r: u8)
        ensures
            r as int == self.num() % 256;

    /// The cell holding an instruction payload, reduced modulo the cell's range.
    fn from_tk_value(v: i32) -> (r: Self)
        ensures
            r.num() == (v as int) % (Self::modulus() as int);

    /// Every cell value lies in `0 .. modulus()`, and a cell holds at least a byte.
    proof fn lemma_range(&self)
        ensures
            0 <= self.num() < Self::modulus(),
            256 <= Self::modulus();
}

/// The two's-complement bits of `v`, read as an unsigned 32-bit number.
fn i32_bits(v: i32) -> (r: u32)
    ensures
        r as int == (v as int) % 0x1_0000_0000,
{
    if v >= 0 {
        v as u32
    } else {
        u32::MAX - ((-(v + 1)) as u32)
    }
}

impl CellSize for u8 {
    open spec fn modulus() -> nat {
        0x100
    }

    open spec fn num(&self) -> int {
        *self as int
    }

    fn get_zeroes(count: usize) -> (r: Vec<u8>) {
        let mut r: Vec<u8> = Vec::new();
        while r.len() < count
            invariant
                r.len() <= count,
                forall|i: int| 0 <= i < r.len() ==> r[i] == 0,
            decreases count - r.len(),
        {
            r.push(0);
        }
        r
    }

    fn add_to_cell(&mut self, value: u8) {
        *self = self.wrapping_add(value);
    }

    fn sub_from_cell(&mut self, value: u8) {
        *self = self.wrapping_sub(value);
    }

    fn is_zero(&self) -> (r: bool) {
        *self == 0
    }

    fn is_nonzero(&self) -> (r: bool) {
        *self > 0
    }

    fn from_stdout(c: u8) -> (r: u8) {
        c
    }

    fn to_stdin(&self) -> (r: u8) {
        *self
    }

    fn from_tk_value(v: i32) -> (r: u8) {
        let bits = i32_bits(v);
        proof {
            vstd::arithmetic::div_mod::lemma_mod_mod(v as int, 0x100, 0x100_0000);
        }
        (bits % 0x100) as u8
    }

    proof fn lemma_range(&self) {
    }
}

impl CellSize for u16 {
    open spec fn modulus() -> nat {
        0x1_0000
    }

    open spec fn num(&self) -> int {
        *self as int
    }

    fn get_zeroes(count: usize) -> (r: Vec<u16>) {
        let mut r: Vec<u16> = Vec::new();
        while r.len() < count
            invariant
                r.len() <= count,
                forall|i: int| 0 <= i < r.len() ==> r[i] == 0,
            decreases count - r.len(),
        {
            r.push(0);
        }
        r
    }

    fn add_to_cell(&mut self, value: u16) {
        *self = self.wrapping_add(value);
    }

    fn sub_from_cell(&mut self, value: u16) {
        *self = self.wrapping_sub(value);
    }

    fn is_zero(&self) -> (r: bool) {
        *self == 0
    }

    fn is_nonzero(&self) -> (r: bool) {
        *self > 0
    }

    fn from_stdout(c: u8) -> (r: u16) {
        c as u16
    }

    fn to_stdin(&self) -> (r: u8) {
        (*self % 0x100) as u8
    }

    fn from_tk_value(v: i32) -> (r: u16) {
        let bits = i32_bits(v);
        proof {
            vstd::arithmetic::div_mod::lemma_mod_mod(v as int, 0x1_0000, 0x1_0000);
        }
        (bits % 0x1_0000) as u16
    }

    proof fn lemma_range(&self) {
    }
}

impl CellSize for u32 {
    open spec fn modulus() -> nat {
        0x1_0000_0000
    }

    open spec fn num(&self) -> int {
        *self as int
    }

    fn get_zeroes(count: usize) -> (r: Vec<u32>) {
        let mut r: Vec<u32> = Vec::new();
        while r.len() < count
            invariant
                r.len() <= count,
                forall|i: int| 0 <= i < r.len() ==> r[i] == 0,
            decreases count - r.len(),
        {
            r.push(0);
        }
        r
    }

    fn add_to_cell(&mut self, value: u32) {
        *self = self.wrapping_add(value);
    }

    fn sub_from_cell(&mut self, value: u32) {
        *self = self.wrapping_sub(value);
    }

    fn is_zero(&self) -> (r: bool) {
        *self == 0
    }

    fn is_nonzero(&self) -> (r: bool) {
        *self > 0
    }

    fn from_stdout(c: u8) -> (r: u32) {
        c as u32
    }

    fn to_stdin(&self) -> (r: u8) {
        (*self % 0x100) as u8
    }

    fn from_tk_value(v: i32) -> (r: u32) {
        i32_bits(v)
    }

    proof fn lemma_range(&self) {
    }
}

impl CellSize for u64 {
    open spec fn modulus() -> nat {
        0x1_0000_0000_0000_0000
    }

    open spec fn num(&self) -> int {
        *self as int
    }

    fn get_zeroes(count: usize) -> (r: Vec<u64>) {
        let mut r: Vec<u64> = Vec::new();
        while r.len() < count
            invariant
                r.len() <= count,
                forall|i: int| 0 <= i < r.len() ==> r[i] == 0,
            decreases count - r.len(),
        {
            r.push(0);
        }
        r
    }

    fn add_to_cell(&mut self, value: u64) {
        *self = self.wrapping_add(value);
    }

    fn sub_from_cell(&mut self, value: u64) {
        *self = self.wrapping_sub(value);
    }

    fn is_zero(&self) -> (r: bool) {
        *self == 0
    }

    fn is_nonzero(&self) -> (r: bool) {
        *self > 0
    }

    fn from_stdout(c: u8) -> (r: u64) {
        c as u64
    }

    fn to_stdin(&self) -> (r: u8) {
        (*self % 0x100) as u8
    }

    fn from_tk_value(v: i32) -> (r: u64) {
        if v >= 0 {
            v as u64
        } else {
            u64::MAX - ((-(v + 1)) as u64)
        }
    }

    proof fn lemma_range(&self) {
    }
}

} // verus!
