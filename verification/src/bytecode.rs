//! Compiled programs: instructions, constants and the entry points of functions.
use vstd::prelude::*;
use crate::instructions::Instruction;

verus! {

/// A constant of a compiled program. A float constant is held as its IEEE-754 bits.
#[derive(Debug, Clone, PartialEq)]
pub enum TaggedConstantValue {
    Null,
    Int(i64),
    Float(u64),
    Bool(bool),
    Str(String),
}

/// A compiled program.
#[derive(Debug, Clone)]
pub struct ByteCode {
    pub instructions: Vec<Instruction>,
    pub constant_pool: Vec<TaggedConstantValue>,
    /// The instruction index where each function begins, by function id.
    pub qlang_functions: Vec<u32>,
}

impl ByteCode {
    pub fn instructions(&self) -> (r: &Vec<Instruction>)
        ensures
            *r == self.instructions,
    {
        &self.instructions
    }

    pub fn constant_pool(&self) -> (r: &Vec<TaggedConstantValue>)
        ensures
            *r == self.constant_pool,
    {
        &self.constant_pool
    }
}

} // verus!
