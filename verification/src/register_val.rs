//! The value held by a virtual-machine register: one 64-bit cell that a
//! program reads as an integer, a boolean, a float or a pointer.
use vstd::prelude::*;

verus! {

/// A register cell. Each way of writing it stores 64 bits: an integer its
/// two's complement bits, a boolean 0 or 1, a float its IEEE-754 bits, a
/// pointer its address, null zero. Reading it as another kind than it was
/// written reads the same bits.
#[derive(Debug, Clone, Copy, PartialEq, Eq, Hash, Structural)]
pub struct RegisterVal {
    pub bits: u64,
}

/// Reading a cell as an integer: its bits in two's complement.
pub open spec fn int_of(v: RegisterVal) -> i64 {
    v.bits as i64
}

/// Reading a cell as a boolean: its low byte is not zero.
pub open spec fn bool_of(v: RegisterVal) -> bool {
    v.bits & 0xffu64 != 0
}

impl RegisterVal {
    /// The null value.
    pub fn null() -> (r: RegisterVal)
        ensures
            r.bits == 0,
    {
        RegisterVal { bits: 0 }
    }

    pub fn from_int(i: i64) -> (r: RegisterVal)
        ensures
            int_of(r) == i,
            r.bits == i as u64,
    {
        let r = RegisterVal { bits: i as u64 };
        assert((i as u64) as i64 == i) by (bit_vector);
        r
    }

    pub fn from_bool(b: bool) -> (r: RegisterVal)
        ensures
            bool_of(r) == b,
            r.bits == if b { 1u64 } else { 0u64 },
    {
        let r = RegisterVal { bits: if b { 1 } else { 0 } };
        assert(1u64 & 0xffu64 != 0 && 0u64 & 0xffu64 == 0) by (bit_vector);
        r
    }

    /// A cell holding the given IEEE-754 bits of a float.
    pub fn from_float_bits(bits: u64) -> (r: RegisterVal)
        ensures
            r.bits == bits,
    {
        RegisterVal { bits }
    }

    /// A cell holding the given address.
    pub fn from_ptr(ptr: u64) -> (r: RegisterVal)
        ensures
            r.bits == ptr,
    {
        RegisterVal { bits: ptr }
    }

    pub fn as_int(&self) -> (r: i64)
        ensures
            r == int_of(*self),
    {
        self.bits as i64
    }

    pub fn as_bool(&self) -> (r: bool)
        ensures
            r == bool_of(*self),
    {
        self.bits & 0xff != 0
    }

    pub fn float_bits(&self) -> (r: u64)
        ensures
            r == self.bits,
    {
        self.bits
    }

    pub fn ptr(&self) -> (r: u64)
        ensures
            r == self.bits,
    {
        self.bits
    }
}

/// Writing an integer and reading it back gives the integer.
pub proof fn law_int_roundtrip(i: i64)
    ensures
        int_of(RegisterVal { bits: i as u64 }) == i,
{
    assert((i as u64) as i64 == i) by (bit_vector);
}

/// Writing a boolean and reading it back gives the boolean.
pub proof fn law_bool_roundtrip(b: bool)
    ensures
        bool_of(RegisterVal { bits: if b { 1u64 } else { 0u64 } }) == b,
{
    assert(1u64 & 0xffu64 != 0 && 0u64 & 0xffu64 == 0) by (bit_vector);
}

} // verus!
