//! The instruction set of the virtual machine: 32-bit instruction words, the
//! opcode table, and the one-line listing of an instruction.
//!
//! ```text
//! +---------------------------------------------+
//! |26-31(6b) |18-25(8b) | 9-17(9b)  |  0-8(9b)  |
//! |  opcode  |    A     |     C     |     B     |
//! |  opcode  |    A     |      Bx (unsigned)    |
//! |  opcode  |    A     |      sBx (signed)     |
//! +---------------------------------------------+
//! ```
use vstd::prelude::*;
use crate::text::{
    int_text, pad_end, pad_start, push_int_padded, push_int_text, push_padded_end, push_str,
};

verus! {

pub type OpCode = i32;

/// A 32-bit instruction word.
pub type Instruction = u32;

pub const OPCODE_SIZE: i32 = 6;
pub const OPCODE_SIZE_A: i32 = 8;
pub const OPCODE_SIZE_B: i32 = 9;
pub const OPCODE_SIZE_C: i32 = 9;
pub const OPCODE_SIZE_BX: i32 = 18;
pub const OPCODE_SIZE_SBX: i32 = 18;

pub const OPCODE_MAX_A: i32 = 255;
pub const OPCODE_MAX_B: i32 = 511;
pub const OPCODE_MAX_C: i32 = 511;
pub const OPCODE_MAX_BX: i32 = 262143;
pub const OPCODE_MAX_SBX: i32 = 131071;

/// The bit that marks an RK operand as a constant index.
pub const OP_BIT_RK: i32 = 256;
pub const OP_MAX_INDEX_RK: i32 = 255;

pub const OP_MOVE: OpCode = 0;
pub const OP_LOADCONST: OpCode = 1;
pub const OP_LOADBOOL: OpCode = 2;
pub const OP_LOADNULL: OpCode = 3;
pub const OP_INT_ADD: OpCode = 4;
pub const OP_INT_SUB: OpCode = 5;
pub const OP_INT_MUL: OpCode = 6;
pub const OP_INT_DIV: OpCode = 7;
pub const OP_INT_MOD: OpCode = 8;
pub const OP_INT_POW: OpCode = 9;
pub const OP_LOGICAL_NOT: OpCode = 10;
pub const OP_LOGICAL_AND: OpCode = 11;
pub const OP_LOGICAL_OR: OpCode = 12;
pub const OP_INT_EQ: OpCode = 13;
pub const OP_INT_NE: OpCode = 14;
pub const OP_INT_LT: OpCode = 15;
pub const OP_INT_LE: OpCode = 16;
pub const OP_INT_GT: OpCode = 17;
pub const OP_INT_GE: OpCode = 18;
pub const OP_JUMP: OpCode = 19;
pub const OP_JUMP_IF_TRUE: OpCode = 20;
pub const OP_JUMP_IF_FALSE: OpCode = 21;
pub const OP_CALL: OpCode = 22;
pub const OP_NATIVE_CALL: OpCode = 23;
pub const OP_QFFI_CALL: OpCode = 24;
pub const OP_TAILCALL: OpCode = 25;
pub const OP_RETURN: OpCode = 26;
pub const OP_INT_INC: OpCode = 27;
pub const OP_INT_DEC: OpCode = 28;
pub const OP_INT_BITAND: OpCode = 29;
pub const OP_INT_BITOR: OpCode = 30;
pub const OP_INT_BITXOR: OpCode = 31;
pub const OP_INT_SHL: OpCode = 32;
pub const OP_INT_SHR: OpCode = 33;
pub const OP_CONCAT: OpCode = 34;
pub const OP_DROP_STRING: OpCode = 35;
pub const OP_EXIT: OpCode = 36;
pub const OP_CLONE: OpCode = 37;
pub const OP_BITNOT: OpCode = 38;
pub const OP_FLOAT_ADD: OpCode = 39;
pub const OP_FLOAT_SUB: OpCode = 40;
pub const OP_FLOAT_MUL: OpCode = 41;
pub const OP_FLOAT_DIV: OpCode = 42;
pub const OP_FLOAT_POW: OpCode = 43;
pub const OP_FLOAT_EQ: OpCode = 44;
pub const OP_FLOAT_NE: OpCode = 45;
pub const OP_FLOAT_LT: OpCode = 46;
pub const OP_FLOAT_LE: OpCode = 47;
pub const OP_FLOAT_GT: OpCode = 48;
pub const OP_FLOAT_GE: OpCode = 49;
pub const OP_FLOAT_INC: OpCode = 50;
pub const OP_FLOAT_DEC: OpCode = 51;
pub const OP_FLOAT_NEG: OpCode = 52;
pub const OP_INT_NEG: OpCode = 53;
pub const OP_INT_TO_FLOAT: OpCode = 54;
pub const OP_FLOAT_TO_INT: OpCode = 55;
pub const OP_FLOAT_POSITIVE: OpCode = 56;
pub const OP_INT_POSITIVE: OpCode = 57;
pub const OP_FLOAT_MOD: OpCode = 58;
pub const OP_INT_TO_STRING: OpCode = 59;
pub const OP_FLOAT_TO_STRING: OpCode = 60;
pub const OP_DROP_ARRAY: OpCode = 61;
pub const OP_DROP_RANGE: OpCode = 62;
pub const OP_MOVE_2X: OpCode = 63;
pub const OP_MOVE_4X: OpCode = 64;
pub const OP_MOVE_8X: OpCode = 65;
pub const OP_MOVE_16X: OpCode = 66;
pub const OP_NOP: OpCode = 67;

/// How an instruction uses one of its operands.
#[derive(Debug, Clone, Copy, PartialEq, Eq, Structural)]
pub enum OpArgMode {
    NotUsed,
    Used,
    RegisterOrJumpOffset,
    ConstantOrRegisterConstant,
}

/// The operand layout of an instruction.
#[derive(Debug, Clone, Copy, PartialEq, Eq, Structural)]
pub enum OpType {
    Abc,
    ABx,
    AsBx,
}

/// One entry of the opcode table.
#[derive(Debug, Clone, Copy)]
pub struct OpProp {
    pub name: &'static str,
    pub is_test: bool,
    pub set_reg_a: bool,
    pub mode_arg_b: OpArgMode,
    pub mode_arg_c: OpArgMode,
    pub typ: OpType,
}

/// The name of opcode `op` (0 to 67), as the opcode table spells it.
pub open spec fn spec_op_name(op: int) -> Seq<char> {
    if op == 0 {
        "OP_MOVE"@
    } else if op == 1 {
        "OP_LOADCONST"@
    } else if op == 2 {
        "OP_LOADBOOL"@
    } else if op == 3 {
        "OP_LOADNULL"@
    } else if op == 4 {
        "OP_INT_ADD"@
    } else if op == 5 {
        "OP_INT_SUB"@
    } else if op == 6 {
        "OP_INT_MUL"@
    } else if op == 7 {
        "OP_INT_DIV"@
    } else if op == 8 {
        "OP_INT_MOD"@
    } else if op == 9 {
        "OP_INT_POW"@
    } else if op == 10 {
        "OP_LOGICAL_NOT"@
    } else if op == 11 {
        "OP_LOGICAL_AND"@
    } else if op == 12 {
        "OP_LOGICAL_OR"@
    } else if op == 13 {
        "OP_INT_EQ"@
    } else if op == 14 {
        "OP_INT_NE"@
    } else if op == 15 {
        "OP_INT_LT"@
    } else if op == 16 {
        "OP_INT_LE"@
    } else if op == 17 {
        "OP_INT_GT"@
    } else if op == 18 {
        "OP_INT_GE"@
    } else if op == 19 {
        "OP_JUMP"@
    } else if op == 20 {
        "OP_JUMP_IF_TRUE"@
    } else if op == 21 {
        "OP_JUMP_IF_FALSE"@
    } else if op == 22 {
        "OP_CALL"@
    } else if op == 23 {
        "OP_NATIVE_CALL"@
    } else if op == 24 {
        "OP_QFFI_CALL"@
    } else if op == 25 {
        "OP_TAILCALL"@
    } else if op == 26 {
        "OP_RETURN"@
    } else if op == 27 {
        "OP_INT_INC"@
    } else if op == 28 {
        "OP_INT_DEC"@
    } else if op == 29 {
        "OP_INT_BITAND"@
    } else if op == 30 {
        "OP_INT_BITOR"@
    } else if op == 31 {
        "OP_INT_BITXOR"@
    } else if op == 32 {
        "OP_INT_SHL"@
    } else if op == 33 {
        "OP_INT_SHR"@
    } else if op == 34 {
        "OP_CONCAT"@
    } else if op == 35 {
        "OP_DROP_STRING"@
    } else if op == 36 {
        "OP_EXIT"@
    } else if op == 37 {
        "OP_CLONE"@
    } else if op == 38 {
        "OP_BITNOT"@
    } else if op == 39 {
        "OP_FLOAT_ADD"@
    } else if op == 40 {
        "OP_FLOAT_SUB"@
    } else if op == 41 {
        "OP_FLOAT_MUL"@
    } else if op == 42 {
        "OP_FLOAT_DIV"@
    } else if op == 43 {
        "OP_FLOAT_POW"@
    } else if op == 44 {
        "OP_FLOAT_EQ"@
    } else if op == 45 {
        "OP_FLOAT_NE"@
    } else if op == 46 {
        "OP_FLOAT_LT"@
    } else if op == 47 {
        "OP_FLOAT_LE"@
    } else if op == 48 {
        "OP_FLOAT_GT"@
    } else if op == 49 {
        "OP_FLOAT_GE"@
    } else if op == 50 {
        "OP_FLOAT_INC"@
    } else if op == 51 {
        "OP_FLOAT_DEC"@
    } else if op == 52 {
        "OP_FLOAT_NEG"@
    } else if op == 53 {
        "OP_INT_NEG"@
    } else if op == 54 {
        "OP_INT_TO_FLOAT"@
    } else if op == 55 {
        "OP_FLOAT_TO_INT"@
    } else if op == 56 {
        "OP_FLOAT_POSITIVE"@
    } else if op == 57 {
        "OP_INT_POSITIVE"@
    } else if op == 58 {
        "OP_FLOAT_MOD"@
    } else if op == 59 {
        "OP_INT_TO_STRING"@
    } else if op == 60 {
        "OP_FLOAT_TO_STRING"@
    } else if op == 61 {
        "OP_DROP_ARRAY"@
    } else if op == 62 {
        "OP_DROP_RANGE"@
    } else if op == 63 {
        "OP_MOVE_2X"@
    } else if op == 64 {
        "OP_MOVE_4X"@
    } else if op == 65 {
        "OP_MOVE_8X"@
    } else if op == 66 {
        "OP_MOVE_16X"@
    } else {
        "OP_NOP"@
    }
}

/// The opcode table entry of `op` (0 to 67).
pub open spec fn spec_op_prop(op: int) -> OpProp {
    if op == 0 {
        OpProp { name: "OP_MOVE", is_test: false, set_reg_a: true, mode_arg_b: OpArgMode::RegisterOrJumpOffset, mode_arg_c: OpArgMode::NotUsed, typ: OpType::Abc }
    } else if op == 1 {
        OpProp { name: "OP_LOADCONST", is_test: false, set_reg_a: true, mode_arg_b: OpArgMode::ConstantOrRegisterConstant, mode_arg_c: OpArgMode::NotUsed, typ: OpType::ABx }
    } else if op == 2 {
        OpProp { name: "OP_LOADBOOL", is_test: false, set_reg_a: true, mode_arg_b: OpArgMode::Used, mode_arg_c: OpArgMode::Used, typ: OpType::Abc }
    } else if op == 3 {
        OpProp { name: "OP_LOADNULL", is_test: false, set_reg_a: true, mode_arg_b: OpArgMode::RegisterOrJumpOffset, mode_arg_c: OpArgMode::NotUsed, typ: OpType::Abc }
    } else if op == 4 {
        OpProp { name: "OP_INT_ADD", is_test: false, set_reg_a: true, mode_arg_b: OpArgMode::ConstantOrRegisterConstant, mode_arg_c: OpArgMode::ConstantOrRegisterConstant, typ: OpType::Abc }
    } else if op == 5 {
        OpProp { name: "OP_INT_SUB", is_test: false, set_reg_a: true, mode_arg_b: OpArgMode::ConstantOrRegisterConstant, mode_arg_c: OpArgMode::ConstantOrRegisterConstant, typ: OpType::Abc }
    } else if op == 6 {
        OpProp { name: "OP_INT_MUL", is_test: false, set_reg_a: true, mode_arg_b: OpArgMode::ConstantOrRegisterConstant, mode_arg_c: OpArgMode::ConstantOrRegisterConstant, typ: OpType::Abc }
    } else if op == 7 {
        OpProp { name: "OP_INT_DIV", is_test: false, set_reg_a: true, mode_arg_b: OpArgMode::ConstantOrRegisterConstant, mode_arg_c: OpArgMode::ConstantOrRegisterConstant, typ: OpType::Abc }
    } else if op == 8 {
        OpProp { name: "OP_INT_MOD", is_test: false, set_reg_a: true, mode_arg_b: OpArgMode::ConstantOrRegisterConstant, mode_arg_c: OpArgMode::ConstantOrRegisterConstant, typ: OpType::Abc }
    } else if op == 9 {
        OpProp { name: "OP_INT_POW", is_test: false, set_reg_a: true, mode_arg_b: OpArgMode::ConstantOrRegisterConstant, mode_arg_c: OpArgMode::ConstantOrRegisterConstant, typ: OpType::Abc }
    } else if op == 10 {
        OpProp { name: "OP_LOGICAL_NOT", is_test: false, set_reg_a: true, mode_arg_b: OpArgMode::RegisterOrJumpOffset, mode_arg_c: OpArgMode::NotUsed, typ: OpType::Abc }
    } else if op == 11 {
        OpProp { name: "OP_LOGICAL_AND", is_test: false, set_reg_a: true, mode_arg_b: OpArgMode::ConstantOrRegisterConstant, mode_arg_c: OpArgMode::ConstantOrRegisterConstant, typ: OpType::Abc }
    } else if op == 12 {
        OpProp { name: "OP_LOGICAL_OR", is_test: false, set_reg_a: true, mode_arg_b: OpArgMode::ConstantOrRegisterConstant, mode_arg_c: OpArgMode::ConstantOrRegisterConstant, typ: OpType::Abc }
    } else if op == 13 {
        OpProp { name: "OP_INT_EQ", is_test: false, set_reg_a: true, mode_arg_b: OpArgMode::ConstantOrRegisterConstant, mode_arg_c: OpArgMode::ConstantOrRegisterConstant, typ: OpType::Abc }
    } else if op == 14 {
        OpProp { name: "OP_INT_NE", is_test: false, set_reg_a: true, mode_arg_b: OpArgMode::ConstantOrRegisterConstant, mode_arg_c: OpArgMode::ConstantOrRegisterConstant, typ: OpType::Abc }
    } else if op == 15 {
        OpProp { name: "OP_INT_LT", is_test: false, set_reg_a: true, mode_arg_b: OpArgMode::ConstantOrRegisterConstant, mode_arg_c: OpArgMode::ConstantOrRegisterConstant, typ: OpType::Abc }
    } else if op == 16 {
        OpProp { name: "OP_INT_LE", is_test: false, set_reg_a: true, mode_arg_b: OpArgMode::ConstantOrRegisterConstant, mode_arg_c: OpArgMode::ConstantOrRegisterConstant, typ: OpType::Abc }
    } else if op == 17 {
        OpProp { name: "OP_INT_GT", is_test: false, set_reg_a: true, mode_arg_b: OpArgMode::ConstantOrRegisterConstant, mode_arg_c: OpArgMode::ConstantOrRegisterConstant, typ: OpType::Abc }
    } else if op == 18 {
        OpProp { name: "OP_INT_GE", is_test: false, set_reg_a: true, mode_arg_b: OpArgMode::ConstantOrRegisterConstant, mode_arg_c: OpArgMode::ConstantOrRegisterConstant, typ: OpType::Abc }
    } else if op == 19 {
        OpProp { name: "OP_JUMP", is_test: false, set_reg_a: false, mode_arg_b: OpArgMode::Used, mode_arg_c: OpArgMode::NotUsed, typ: OpType::ABx }
    } else if op == 20 {
        OpProp { name: "OP_JUMP_IF_TRUE", is_test: false, set_reg_a: true, mode_arg_b: OpArgMode::Used, mode_arg_c: OpArgMode::NotUsed, typ: OpType::ABx }
    } else if op == 21 {
        OpProp { name: "OP_JUMP_IF_FALSE", is_test: false, set_reg_a: true, mode_arg_b: OpArgMode::Used, mode_arg_c: OpArgMode::NotUsed, typ: OpType::ABx }
    } else if op == 22 {
        OpProp { name: "OP_CALL", is_test: false, set_reg_a: true, mode_arg_b: OpArgMode::Used, mode_arg_c: OpArgMode::Used, typ: OpType::Abc }
    } else if op == 23 {
        OpProp { name: "OP_NATIVE_CALL", is_test: false, set_reg_a: true, mode_arg_b: OpArgMode::Used, mode_arg_c: OpArgMode::NotUsed, typ: OpType::Abc }
    } else if op == 24 {
        OpProp { name: "OP_QFFI_CALL", is_test: false, set_reg_a: true, mode_arg_b: OpArgMode::Used, mode_arg_c: OpArgMode::NotUsed, typ: OpType::Abc }
    } else if op == 25 {
        OpProp { name: "OP_TAILCALL", is_test: false, set_reg_a: true, mode_arg_b: OpArgMode::Used, mode_arg_c: OpArgMode::Used, typ: OpType::Abc }
    } else if op == 26 {
        OpProp { name: "OP_RETURN", is_test: false, set_reg_a: true, mode_arg_b: OpArgMode::NotUsed, mode_arg_c: OpArgMode::NotUsed, typ: OpType::Abc }
    } else if op == 27 {
        OpProp { name: "OP_INT_INC", is_test: false, set_reg_a: true, mode_arg_b: OpArgMode::NotUsed, mode_arg_c: OpArgMode::NotUsed, typ: OpType::Abc }
    } else if op == 28 {
        OpProp { name: "OP_INT_DEC", is_test: false, set_reg_a: true, mode_arg_b: OpArgMode::NotUsed, mode_arg_c: OpArgMode::NotUsed, typ: OpType::Abc }
    } else if op == 29 {
        OpProp { name: "OP_INT_BITAND", is_test: false, set_reg_a: true, mode_arg_b: OpArgMode::ConstantOrRegisterConstant, mode_arg_c: OpArgMode::ConstantOrRegisterConstant, typ: OpType::Abc }
    } else if op == 30 {
        OpProp { name: "OP_INT_BITOR", is_test: false, set_reg_a: true, mode_arg_b: OpArgMode::ConstantOrRegisterConstant, mode_arg_c: OpArgMode::ConstantOrRegisterConstant, typ: OpType::Abc }
    } else if op == 31 {
        OpProp { name: "OP_INT_BITXOR", is_test: false, set_reg_a: true, mode_arg_b: OpArgMode::ConstantOrRegisterConstant, mode_arg_c: OpArgMode::ConstantOrRegisterConstant, typ: OpType::Abc }
    } else if op == 32 {
        OpProp { name: "OP_INT_SHL", is_test: false, set_reg_a: true, mode_arg_b: OpArgMode::ConstantOrRegisterConstant, mode_arg_c: OpArgMode::ConstantOrRegisterConstant, typ: OpType::Abc }
    } else if op == 33 {
        OpProp { name: "OP_INT_SHR", is_test: false, set_reg_a: true, mode_arg_b: OpArgMode::ConstantOrRegisterConstant, mode_arg_c: OpArgMode::ConstantOrRegisterConstant, typ: OpType::Abc }
    } else if op == 34 {
        OpProp { name: "OP_CONCAT", is_test: false, set_reg_a: true, mode_arg_b: OpArgMode::ConstantOrRegisterConstant, mode_arg_c: OpArgMode::ConstantOrRegisterConstant, typ: OpType::Abc }
    } else if op == 35 {
        OpProp { name: "OP_DROP_STRING", is_test: false, set_reg_a: true, mode_arg_b: OpArgMode::NotUsed, mode_arg_c: OpArgMode::NotUsed, typ: OpType::Abc }
    } else if op == 36 {
        OpProp { name: "OP_EXIT", is_test: false, set_reg_a: true, mode_arg_b: OpArgMode::NotUsed, mode_arg_c: OpArgMode::NotUsed, typ: OpType::Abc }
    } else if op == 37 {
        OpProp { name: "OP_CLONE", is_test: false, set_reg_a: true, mode_arg_b: OpArgMode::RegisterOrJumpOffset, mode_arg_c: OpArgMode::NotUsed, typ: OpType::Abc }
    } else if op == 38 {
        OpProp { name: "OP_BITNOT", is_test: false, set_reg_a: true, mode_arg_b: OpArgMode::RegisterOrJumpOffset, mode_arg_c: OpArgMode::NotUsed, typ: OpType::Abc }
    } else if op == 39 {
        OpProp { name: "OP_FLOAT_ADD", is_test: false, set_reg_a: true, mode_arg_b: OpArgMode::ConstantOrRegisterConstant, mode_arg_c: OpArgMode::ConstantOrRegisterConstant, typ: OpType::Abc }
    } else if op == 40 {
        OpProp { name: "OP_FLOAT_SUB", is_test: false, set_reg_a: true, mode_arg_b: OpArgMode::ConstantOrRegisterConstant, mode_arg_c: OpArgMode::ConstantOrRegisterConstant, typ: OpType::Abc }
    } else if op == 41 {
        OpProp { name: "OP_FLOAT_MUL", is_test: false, set_reg_a: true, mode_arg_b: OpArgMode::ConstantOrRegisterConstant, mode_arg_c: OpArgMode::ConstantOrRegisterConstant, typ: OpType::Abc }
    } else if op == 42 {
        OpProp { name: "OP_FLOAT_DIV", is_test: false, set_reg_a: true, mode_arg_b: OpArgMode::ConstantOrRegisterConstant, mode_arg_c: OpArgMode::ConstantOrRegisterConstant, typ: OpType::Abc }
    } else if op == 43 {
        OpProp { name: "OP_FLOAT_POW", is_test: false, set_reg_a: true, mode_arg_b: OpArgMode::ConstantOrRegisterConstant, mode_arg_c: OpArgMode::ConstantOrRegisterConstant, typ: OpType::Abc }
    } else if op == 44 {
        OpProp { name: "OP_FLOAT_EQ", is_test: false, set_reg_a: true, mode_arg_b: OpArgMode::ConstantOrRegisterConstant, mode_arg_c: OpArgMode::ConstantOrRegisterConstant, typ: OpType::Abc }
    } else if op == 45 {
        OpProp { name: "OP_FLOAT_NE", is_test: false, set_reg_a: true, mode_arg_b: OpArgMode::ConstantOrRegisterConstant, mode_arg_c: OpArgMode::ConstantOrRegisterConstant, typ: OpType::Abc }
    } else if op == 46 {
        OpProp { name: "OP_FLOAT_LT", is_test: false, set_reg_a: true, mode_arg_b: OpArgMode::ConstantOrRegisterConstant, mode_arg_c: OpArgMode::ConstantOrRegisterConstant, typ: OpType::Abc }
    } else if op == 47 {
        OpProp { name: "OP_FLOAT_LE", is_test: false, set_reg_a: true, mode_arg_b: OpArgMode::ConstantOrRegisterConstant, mode_arg_c: OpArgMode::ConstantOrRegisterConstant, typ: OpType::Abc }
    } else if op == 48 {
        OpProp { name: "OP_FLOAT_GT", is_test: false, set_reg_a: true, mode_arg_b: OpArgMode::ConstantOrRegisterConstant, mode_arg_c: OpArgMode::ConstantOrRegisterConstant, typ: OpType::Abc }
    } else if op == 49 {
        OpProp { name: "OP_FLOAT_GE", is_test: false, set_reg_a: true, mode_arg_b: OpArgMode::ConstantOrRegisterConstant, mode_arg_c: OpArgMode::ConstantOrRegisterConstant, typ: OpType::Abc }
    } else if op == 50 {
        OpProp { name: "OP_FLOAT_INC", is_test: false, set_reg_a: true, mode_arg_b: OpArgMode::NotUsed, mode_arg_c: OpArgMode::NotUsed, typ: OpType::Abc }
    } else if op == 51 {
        OpProp { name: "OP_FLOAT_DEC", is_test: false, set_reg_a: true, mode_arg_b: OpArgMode::NotUsed, mode_arg_c: OpArgMode::NotUsed, typ: OpType::Abc }
    } else if op == 52 {
        OpProp { name: "OP_FLOAT_NEG", is_test: false, set_reg_a: true, mode_arg_b: OpArgMode::RegisterOrJumpOffset, mode_arg_c: OpArgMode::NotUsed, typ: OpType::Abc }
    } else if op == 53 {
        OpProp { name: "OP_INT_NEG", is_test: false, set_reg_a: true, mode_arg_b: OpArgMode::RegisterOrJumpOffset, mode_arg_c: OpArgMode::NotUsed, typ: OpType::Abc }
    } else if op == 54 {
        OpProp { name: "OP_INT_TO_FLOAT", is_test: false, set_reg_a: true, mode_arg_b: OpArgMode::RegisterOrJumpOffset, mode_arg_c: OpArgMode::NotUsed, typ: OpType::Abc }
    } else if op == 55 {
        OpProp { name: "OP_FLOAT_TO_INT", is_test: false, set_reg_a: true, mode_arg_b: OpArgMode::RegisterOrJumpOffset, mode_arg_c: OpArgMode::NotUsed, typ: OpType::Abc }
    } else if op == 56 {
        OpProp { name: "OP_FLOAT_POSITIVE", is_test: false, set_reg_a: true, mode_arg_b: OpArgMode::RegisterOrJumpOffset, mode_arg_c: OpArgMode::NotUsed, typ: OpType::Abc }
    } else if op == 57 {
        OpProp { name: "OP_INT_POSITIVE", is_test: false, set_reg_a: true, mode_arg_b: OpArgMode::RegisterOrJumpOffset, mode_arg_c: OpArgMode::NotUsed, typ: OpType::Abc }
    } else if op == 58 {
        OpProp { name: "OP_FLOAT_MOD", is_test: false, set_reg_a: true, mode_arg_b: OpArgMode::ConstantOrRegisterConstant, mode_arg_c: OpArgMode::ConstantOrRegisterConstant, typ: OpType::Abc }
    } else if op == 59 {
        OpProp { name: "OP_INT_TO_STRING", is_test: false, set_reg_a: true, mode_arg_b: OpArgMode::RegisterOrJumpOffset, mode_arg_c: OpArgMode::NotUsed, typ: OpType::Abc }
    } else if op == 60 {
        OpProp { name: "OP_FLOAT_TO_STRING", is_test: false, set_reg_a: true, mode_arg_b: OpArgMode::RegisterOrJumpOffset, mode_arg_c: OpArgMode::NotUsed, typ: OpType::Abc }
    } else if op == 61 {
        OpProp { name: "OP_DROP_ARRAY", is_test: false, set_reg_a: true, mode_arg_b: OpArgMode::NotUsed, mode_arg_c: OpArgMode::NotUsed, typ: OpType::Abc }
    } else if op == 62 {
        OpProp { name: "OP_DROP_RANGE", is_test: false, set_reg_a: true, mode_arg_b: OpArgMode::NotUsed, mode_arg_c: OpArgMode::NotUsed, typ: OpType::Abc }
    } else if op == 63 {
        OpProp { name: "OP_MOVE_2X", is_test: false, set_reg_a: true, mode_arg_b: OpArgMode::RegisterOrJumpOffset, mode_arg_c: OpArgMode::NotUsed, typ: OpType::Abc }
    } else if op == 64 {
        OpProp { name: "OP_MOVE_4X", is_test: false, set_reg_a: true, mode_arg_b: OpArgMode::RegisterOrJumpOffset, mode_arg_c: OpArgMode::NotUsed, typ: OpType::Abc }
    } else if op == 65 {
        OpProp { name: "OP_MOVE_8X", is_test: false, set_reg_a: true, mode_arg_b: OpArgMode::RegisterOrJumpOffset, mode_arg_c: OpArgMode::NotUsed, typ: OpType::Abc }
    } else if op == 66 {
        OpProp { name: "OP_MOVE_16X", is_test: false, set_reg_a: true, mode_arg_b: OpArgMode::RegisterOrJumpOffset, mode_arg_c: OpArgMode::NotUsed, typ: OpType::Abc }
    } else {
        OpProp { name: "OP_NOP", is_test: false, set_reg_a: true, mode_arg_b: OpArgMode::NotUsed, mode_arg_c: OpArgMode::NotUsed, typ: OpType::AsBx }
    }
}

/// The opcode table entry of `op`.
pub fn op_prop(op: OpCode) -> (r: OpProp)
    requires
        0 <= op <= OP_NOP,
    ensures
        r == spec_op_prop(op as int),
        r.name@ == spec_op_name(op as int),
{
    match op {
        0 => OpProp { name: "OP_MOVE", is_test: false, set_reg_a: true, mode_arg_b: OpArgMode::RegisterOrJumpOffset, mode_arg_c: OpArgMode::NotUsed, typ: OpType::Abc },
        1 => OpProp { name: "OP_LOADCONST", is_test: false, set_reg_a: true, mode_arg_b: OpArgMode::ConstantOrRegisterConstant, mode_arg_c: OpArgMode::NotUsed, typ: OpType::ABx },
        2 => OpProp { name: "OP_LOADBOOL", is_test: false, set_reg_a: true, mode_arg_b: OpArgMode::Used, mode_arg_c: OpArgMode::Used, typ: OpType::Abc },
        3 => OpProp { name: "OP_LOADNULL", is_test: false, set_reg_a: true, mode_arg_b: OpArgMode::RegisterOrJumpOffset, mode_arg_c: OpArgMode::NotUsed, typ: OpType::Abc },
        4 => OpProp { name: "OP_INT_ADD", is_test: false, set_reg_a: true, mode_arg_b: OpArgMode::ConstantOrRegisterConstant, mode_arg_c: OpArgMode::ConstantOrRegisterConstant, typ: OpType::Abc },
        5 => OpProp { name: "OP_INT_SUB", is_test: false, set_reg_a: true, mode_arg_b: OpArgMode::ConstantOrRegisterConstant, mode_arg_c: OpArgMode::ConstantOrRegisterConstant, typ: OpType::Abc },
        6 => OpProp { name: "OP_INT_MUL", is_test: false, set_reg_a: true, mode_arg_b: OpArgMode::ConstantOrRegisterConstant, mode_arg_c: OpArgMode::ConstantOrRegisterConstant, typ: OpType::Abc },
        7 => OpProp { name: "OP_INT_DIV", is_test: false, set_reg_a: true, mode_arg_b: OpArgMode::ConstantOrRegisterConstant, mode_arg_c: OpArgMode::ConstantOrRegisterConstant, typ: OpType::Abc },
        8 => OpProp { name: "OP_INT_MOD", is_test: false, set_reg_a: true, mode_arg_b: OpArgMode::ConstantOrRegisterConstant, mode_arg_c: OpArgMode::ConstantOrRegisterConstant, typ: OpType::Abc },
        9 => OpProp { name: "OP_INT_POW", is_test: false, set_reg_a: true, mode_arg_b: OpArgMode::ConstantOrRegisterConstant, mode_arg_c: OpArgMode::ConstantOrRegisterConstant, typ: OpType::Abc },
        10 => OpProp { name: "OP_LOGICAL_NOT", is_test: false, set_reg_a: true, mode_arg_b: OpArgMode::RegisterOrJumpOffset, mode_arg_c: OpArgMode::NotUsed, typ: OpType::Abc },
        11 => OpProp { name: "OP_LOGICAL_AND", is_test: false, set_reg_a: true, mode_arg_b: OpArgMode::ConstantOrRegisterConstant, mode_arg_c: OpArgMode::ConstantOrRegisterConstant, typ: OpType::Abc },
        12 => OpProp { name: "OP_LOGICAL_OR", is_test: false, set_reg_a: true, mode_arg_b: OpArgMode::ConstantOrRegisterConstant, mode_arg_c: OpArgMode::ConstantOrRegisterConstant, typ: OpType::Abc },
        13 => OpProp { name: "OP_INT_EQ", is_test: false, set_reg_a: true, mode_arg_b: OpArgMode::ConstantOrRegisterConstant, mode_arg_c: OpArgMode::ConstantOrRegisterConstant, typ: OpType::Abc },
        14 => OpProp { name: "OP_INT_NE", is_test: false, set_reg_a: true, mode_arg_b: OpArgMode::ConstantOrRegisterConstant, mode_arg_c: OpArgMode::ConstantOrRegisterConstant, typ: OpType::Abc },
        15 => OpProp { name: "OP_INT_LT", is_test: false, set_reg_a: true, mode_arg_b: OpArgMode::ConstantOrRegisterConstant, mode_arg_c: OpArgMode::ConstantOrRegisterConstant, typ: OpType::Abc },
        16 => OpProp { name: "OP_INT_LE", is_test: false, set_reg_a: true, mode_arg_b: OpArgMode::ConstantOrRegisterConstant, mode_arg_c: OpArgMode::ConstantOrRegisterConstant, typ: OpType::Abc },
        17 => OpProp { name: "OP_INT_GT", is_test: false, set_reg_a: true, mode_arg_b: OpArgMode::ConstantOrRegisterConstant, mode_arg_c: OpArgMode::ConstantOrRegisterConstant, typ: OpType::Abc },
        18 => OpProp { name: "OP_INT_GE", is_test: false, set_reg_a: true, mode_arg_b: OpArgMode::ConstantOrRegisterConstant, mode_arg_c: OpArgMode::ConstantOrRegisterConstant, typ: OpType::Abc },
        19 => OpProp { name: "OP_JUMP", is_test: false, set_reg_a: false, mode_arg_b: OpArgMode::Used, mode_arg_c: OpArgMode::NotUsed, typ: OpType::ABx },
        20 => OpProp { name: "OP_JUMP_IF_TRUE", is_test: false, set_reg_a: true, mode_arg_b: OpArgMode::Used, mode_arg_c: OpArgMode::NotUsed, typ: OpType::ABx },
        21 => OpProp { name: "OP_JUMP_IF_FALSE", is_test: false, set_reg_a: true, mode_arg_b: OpArgMode::Used, mode_arg_c: OpArgMode::NotUsed, typ: OpType::ABx },
        22 => OpProp { name: "OP_CALL", is_test: false, set_reg_a: true, mode_arg_b: OpArgMode::Used, mode_arg_c: OpArgMode::Used, typ: OpType::Abc },
        23 => OpProp { name: "OP_NATIVE_CALL", is_test: false, set_reg_a: true, mode_arg_b: OpArgMode::Used, mode_arg_c: OpArgMode::NotUsed, typ: OpType::Abc },
        24 => OpProp { name: "OP_QFFI_CALL", is_test: false, set_reg_a: true, mode_arg_b: OpArgMode::Used, mode_arg_c: OpArgMode::NotUsed, typ: OpType::Abc },
        25 => OpProp { name: "OP_TAILCALL", is_test: false, set_reg_a: true, mode_arg_b: OpArgMode::Used, mode_arg_c: OpArgMode::Used, typ: OpType::Abc },
        26 => OpProp { name: "OP_RETURN", is_test: false, set_reg_a: true, mode_arg_b: OpArgMode::NotUsed, mode_arg_c: OpArgMode::NotUsed, typ: OpType::Abc },
        27 => OpProp { name: "OP_INT_INC", is_test: false, set_reg_a: true, mode_arg_b: OpArgMode::NotUsed, mode_arg_c: OpArgMode::NotUsed, typ: OpType::Abc },
        28 => OpProp { name: "OP_INT_DEC", is_test: false, set_reg_a: true, mode_arg_b: OpArgMode::NotUsed, mode_arg_c: OpArgMode::NotUsed, typ: OpType::Abc },
        29 => OpProp { name: "OP_INT_BITAND", is_test: false, set_reg_a: true, mode_arg_b: OpArgMode::ConstantOrRegisterConstant, mode_arg_c: OpArgMode::ConstantOrRegisterConstant, typ: OpType::Abc },
        30 => OpProp { name: "OP_INT_BITOR", is_test: false, set_reg_a: true, mode_arg_b: OpArgMode::ConstantOrRegisterConstant, mode_arg_c: OpArgMode::ConstantOrRegisterConstant, typ: OpType::Abc },
        31 => OpProp { name: "OP_INT_BITXOR", is_test: false, set_reg_a: true, mode_arg_b: OpArgMode::ConstantOrRegisterConstant, mode_arg_c: OpArgMode::ConstantOrRegisterConstant, typ: OpType::Abc },
        32 => OpProp { name: "OP_INT_SHL", is_test: false, set_reg_a: true, mode_arg_b: OpArgMode::ConstantOrRegisterConstant, mode_arg_c: OpArgMode::ConstantOrRegisterConstant, typ: OpType::Abc },
        33 => OpProp { name: "OP_INT_SHR", is_test: false, set_reg_a: true, mode_arg_b: OpArgMode::ConstantOrRegisterConstant, mode_arg_c: OpArgMode::ConstantOrRegisterConstant, typ: OpType::Abc },
        34 => OpProp { name: "OP_CONCAT", is_test: false, set_reg_a: true, mode_arg_b: OpArgMode::ConstantOrRegisterConstant, mode_arg_c: OpArgMode::ConstantOrRegisterConstant, typ: OpType::Abc },
        35 => OpProp { name: "OP_DROP_STRING", is_test: false, set_reg_a: true, mode_arg_b: OpArgMode::NotUsed, mode_arg_c: OpArgMode::NotUsed, typ: OpType::Abc },
        36 => OpProp { name: "OP_EXIT", is_test: false, set_reg_a: true, mode_arg_b: OpArgMode::NotUsed, mode_arg_c: OpArgMode::NotUsed, typ: OpType::Abc },
        37 => OpProp { name: "OP_CLONE", is_test: false, set_reg_a: true, mode_arg_b: OpArgMode::RegisterOrJumpOffset, mode_arg_c: OpArgMode::NotUsed, typ: OpType::Abc },
        38 => OpProp { name: "OP_BITNOT", is_test: false, set_reg_a: true, mode_arg_b: OpArgMode::RegisterOrJumpOffset, mode_arg_c: OpArgMode::NotUsed, typ: OpType::Abc },
        39 => OpProp { name: "OP_FLOAT_ADD", is_test: false, set_reg_a: true, mode_arg_b: OpArgMode::ConstantOrRegisterConstant, mode_arg_c: OpArgMode::ConstantOrRegisterConstant, typ: OpType::Abc },
        40 => OpProp { name: "OP_FLOAT_SUB", is_test: false, set_reg_a: true, mode_arg_b: OpArgMode::ConstantOrRegisterConstant, mode_arg_c: OpArgMode::ConstantOrRegisterConstant, typ: OpType::Abc },
        41 => OpProp { name: "OP_FLOAT_MUL", is_test: false, set_reg_a: true, mode_arg_b: OpArgMode::ConstantOrRegisterConstant, mode_arg_c: OpArgMode::ConstantOrRegisterConstant, typ: OpType::Abc },
        42 => OpProp { name: "OP_FLOAT_DIV", is_test: false, set_reg_a: true, mode_arg_b: OpArgMode::ConstantOrRegisterConstant, mode_arg_c: OpArgMode::ConstantOrRegisterConstant, typ: OpType::Abc },
        43 => OpProp { name: "OP_FLOAT_POW", is_test: false, set_reg_a: true, mode_arg_b: OpArgMode::ConstantOrRegisterConstant, mode_arg_c: OpArgMode::ConstantOrRegisterConstant, typ: OpType::Abc },
        44 => OpProp { name: "OP_FLOAT_EQ", is_test: false, set_reg_a: true, mode_arg_b: OpArgMode::ConstantOrRegisterConstant, mode_arg_c: OpArgMode::ConstantOrRegisterConstant, typ: OpType::Abc },
        45 => OpProp { name: "OP_FLOAT_NE", is_test: false, set_reg_a: true, mode_arg_b: OpArgMode::ConstantOrRegisterConstant, mode_arg_c: OpArgMode::ConstantOrRegisterConstant, typ: OpType::Abc },
        46 => OpProp { name: "OP_FLOAT_LT", is_test: false, set_reg_a: true, mode_arg_b: OpArgMode::ConstantOrRegisterConstant, mode_arg_c: OpArgMode::ConstantOrRegisterConstant, typ: OpType::Abc },
        47 => OpProp { name: "OP_FLOAT_LE", is_test: false, set_reg_a: true, mode_arg_b: OpArgMode::ConstantOrRegisterConstant, mode_arg_c: OpArgMode::ConstantOrRegisterConstant, typ: OpType::Abc },
        48 => OpProp { name: "OP_FLOAT_GT", is_test: false, set_reg_a: true, mode_arg_b: OpArgMode::ConstantOrRegisterConstant, mode_arg_c: OpArgMode::ConstantOrRegisterConstant, typ: OpType::Abc },
        49 => OpProp { name: "OP_FLOAT_GE", is_test: false, set_reg_a: true, mode_arg_b: OpArgMode::ConstantOrRegisterConstant, mode_arg_c: OpArgMode::ConstantOrRegisterConstant, typ: OpType::Abc },
        50 => OpProp { name: "OP_FLOAT_INC", is_test: false, set_reg_a: true, mode_arg_b: OpArgMode::NotUsed, mode_arg_c: OpArgMode::NotUsed, typ: OpType::Abc },
        51 => OpProp { name: "OP_FLOAT_DEC", is_test: false, set_reg_a: true, mode_arg_b: OpArgMode::NotUsed, mode_arg_c: OpArgMode::NotUsed, typ: OpType::Abc },
        52 => OpProp { name: "OP_FLOAT_NEG", is_test: false, set_reg_a: true, mode_arg_b: OpArgMode::RegisterOrJumpOffset, mode_arg_c: OpArgMode::NotUsed, typ: OpType::Abc },
        53 => OpProp { name: "OP_INT_NEG", is_test: false, set_reg_a: true, mode_arg_b: OpArgMode::RegisterOrJumpOffset, mode_arg_c: OpArgMode::NotUsed, typ: OpType::Abc },
        54 => OpProp { name: "OP_INT_TO_FLOAT", is_test: false, set_reg_a: true, mode_arg_b: OpArgMode::RegisterOrJumpOffset, mode_arg_c: OpArgMode::NotUsed, typ: OpType::Abc },
        55 => OpProp { name: "OP_FLOAT_TO_INT", is_test: false, set_reg_a: true, mode_arg_b: OpArgMode::RegisterOrJumpOffset, mode_arg_c: OpArgMode::NotUsed, typ: OpType::Abc },
        56 => OpProp { name: "OP_FLOAT_POSITIVE", is_test: false, set_reg_a: true, mode_arg_b: OpArgMode::RegisterOrJumpOffset, mode_arg_c: OpArgMode::NotUsed, typ: OpType::Abc },
        57 => OpProp { name: "OP_INT_POSITIVE", is_test: false, set_reg_a: true, mode_arg_b: OpArgMode::RegisterOrJumpOffset, mode_arg_c: OpArgMode::NotUsed, typ: OpType::Abc },
        58 => OpProp { name: "OP_FLOAT_MOD", is_test: false, set_reg_a: true, mode_arg_b: OpArgMode::ConstantOrRegisterConstant, mode_arg_c: OpArgMode::ConstantOrRegisterConstant, typ: OpType::Abc },
        59 => OpProp { name: "OP_INT_TO_STRING", is_test: false, set_reg_a: true, mode_arg_b: OpArgMode::RegisterOrJumpOffset, mode_arg_c: OpArgMode::NotUsed, typ: OpType::Abc },
        60 => OpProp { name: "OP_FLOAT_TO_STRING", is_test: false, set_reg_a: true, mode_arg_b: OpArgMode::RegisterOrJumpOffset, mode_arg_c: OpArgMode::NotUsed, typ: OpType::Abc },
        61 => OpProp { name: "OP_DROP_ARRAY", is_test: false, set_reg_a: true, mode_arg_b: OpArgMode::NotUsed, mode_arg_c: OpArgMode::NotUsed, typ: OpType::Abc },
        62 => OpProp { name: "OP_DROP_RANGE", is_test: false, set_reg_a: true, mode_arg_b: OpArgMode::NotUsed, mode_arg_c: OpArgMode::NotUsed, typ: OpType::Abc },
        63 => OpProp { name: "OP_MOVE_2X", is_test: false, set_reg_a: true, mode_arg_b: OpArgMode::RegisterOrJumpOffset, mode_arg_c: OpArgMode::NotUsed, typ: OpType::Abc },
        64 => OpProp { name: "OP_MOVE_4X", is_test: false, set_reg_a: true, mode_arg_b: OpArgMode::RegisterOrJumpOffset, mode_arg_c: OpArgMode::NotUsed, typ: OpType::Abc },
        65 => OpProp { name: "OP_MOVE_8X", is_test: false, set_reg_a: true, mode_arg_b: OpArgMode::RegisterOrJumpOffset, mode_arg_c: OpArgMode::NotUsed, typ: OpType::Abc },
        66 => OpProp { name: "OP_MOVE_16X", is_test: false, set_reg_a: true, mode_arg_b: OpArgMode::RegisterOrJumpOffset, mode_arg_c: OpArgMode::NotUsed, typ: OpType::Abc },
        _ => OpProp { name: "OP_NOP", is_test: false, set_reg_a: true, mode_arg_b: OpArgMode::NotUsed, mode_arg_c: OpArgMode::NotUsed, typ: OpType::AsBx },
    }
}

/// The name of an operand layout.
pub open spec fn op_type_text(t: OpType) -> Seq<char> {
    match t {
        OpType::Abc => "Abc"@,
        OpType::ABx => "ABx"@,
        OpType::AsBx => "AsBx"@,
    }
}

/// The name of an operand layout, as `Display` writes it.
pub fn op_type_to_string(t: OpType) -> (r: String)
    ensures
        r@ == op_type_text(t),
{
    match t {
        OpType::Abc => "Abc".to_owned(),
        OpType::ABx => "ABx".to_owned(),
        OpType::AsBx => "AsBx".to_owned(),
    }
}

/// The name of opcode `op`.
pub fn op_to_string(op: i32) -> (r: String)
    requires
        0 <= op <= OP_NOP,
    ensures
        r@ == spec_op_name(op as int),
{
    op_prop(op).name.to_owned()
}

// ---------------------------------------------------------------------------
// Fields of an instruction word
// ---------------------------------------------------------------------------

/// Bits 26 to 31.
pub open spec fn opcode_field(i: u32) -> int {
    (i >> 26u32) as int
}

/// Bits 18 to 25.
pub open spec fn a_field(i: u32) -> int {
    ((i >> 18u32) & 0xffu32) as int
}

/// Bits 9 to 17.
pub open spec fn c_field(i: u32) -> int {
    ((i >> 9u32) & 0x1ffu32) as int
}

/// Bits 0 to 8.
pub open spec fn b_field(i: u32) -> int {
    (i & 0x1ffu32) as int
}

/// Bits 0 to 17.
pub open spec fn bx_field(i: u32) -> int {
    (i & 0x3ffffu32) as int
}

/// An 8-bit two's complement field read as a signed number.
pub open spec fn sign_extend8(x: int) -> int {
    if x >= 128 { x - 256 } else { x }
}

/// A 9-bit two's complement field read as a signed number.
pub open spec fn sign_extend9(x: int) -> int {
    if x >= 256 { x - 512 } else { x }
}

pub open spec fn spec_get_opcode(i: u32) -> int {
    opcode_field(i)
}

pub open spec fn spec_get_arga(i: u32) -> int {
    sign_extend8(a_field(i))
}

pub open spec fn spec_get_argb(i: u32) -> int {
    sign_extend9(b_field(i))
}

pub open spec fn spec_get_argc(i: u32) -> int {
    sign_extend9(c_field(i))
}

pub open spec fn spec_get_argbx(i: u32) -> int {
    bx_field(i)
}

pub open spec fn spec_get_argsbx(i: u32) -> int {
    bx_field(i) - 131072
}

/// The word `i` with its opcode field replaced by the low 6 bits of `op`.
pub open spec fn spec_set_opcode(i: u32, op: i32) -> u32 {
    (i & 0x3ffffffu32) | (((op as u32) & 63u32) << 26u32)
}

/// The word `i` with its A field replaced by the low 8 bits of `a`.
pub open spec fn spec_set_arga(i: u32, a: i32) -> u32 {
    (i & 0xfc03ffffu32) | (((a as u32) & 0xffu32) << 18u32)
}

/// The word `i` with its B field replaced by the low 9 bits of `b`.
pub open spec fn spec_set_argb(i: u32, b: i32) -> u32 {
    (i & 0xfffffe00u32) | ((b as u32) & 0x1ffu32)
}

/// The word `i` with its C field replaced by the low 9 bits of `c`.
pub open spec fn spec_set_argc(i: u32, c: i32) -> u32 {
    (i & 0xfffc01ffu32) | (((c as u32) & 0x1ffu32) << 9u32)
}

/// The word `i` with its Bx field replaced by the low 18 bits of `bx`.
pub open spec fn spec_set_argbx(i: u32, bx: i32) -> u32 {
    (i & 0xfffc0000u32) | ((bx as u32) & 0x3ffffu32)
}

/// The opcode of an instruction (0 to 63).
pub fn get_opcode(inst: Instruction) -> (r: OpCode)
    ensures
        r == spec_get_opcode(inst),
        0 <= r < 64,
{
    assert((inst >> 26u32) < 64u32) by (bit_vector);
    (inst >> 26) as OpCode
}

/// Writes the opcode field; the other fields are kept.
pub fn set_opcode(inst: &mut Instruction, op: OpCode)
    ensures
        *final(inst) == spec_set_opcode(*old(inst), op),
        opcode_field(*final(inst)) == op % 64,
        *final(inst) & 0x3ffffffu32 == *old(inst) & 0x3ffffffu32,
{
    let ghost i = *inst;
    *inst = (*inst & 0x3ffffff) | ((op as u32) << 26);
    assert((i & 0x3ffffffu32) | ((op as u32) << 26u32) == spec_set_opcode(i, op)) by (bit_vector);
    proof {
        lemma_set_opcode_fields(i, op);
    }
}

proof fn lemma_set_opcode_fields(i: u32, op: i32)
    ensures
        opcode_field(spec_set_opcode(i, op)) == op % 64,
        spec_set_opcode(i, op) & 0x3ffffffu32 == i & 0x3ffffffu32,
        a_field(spec_set_opcode(i, op)) == a_field(i),
        b_field(spec_set_opcode(i, op)) == b_field(i),
        c_field(spec_set_opcode(i, op)) == c_field(i),
{
    let r = spec_set_opcode(i, op);
    assert((r >> 26u32 == ((op & 63i32) as u32)) &&
        ((op & 63i32) as int == op % 64) &&
        (r & 0x3ffffffu32 == i & 0x3ffffffu32) &&
        (((r >> 18u32) & 0xffu32) == ((i >> 18u32) & 0xffu32)) &&
        ((r & 0x1ffu32) == (i & 0x1ffu32)) &&
        (((r >> 9u32) & 0x1ffu32) == ((i >> 9u32) & 0x1ffu32))) by (bit_vector)
        requires r == (i & 0x3ffffffu32) | (((op as u32) & 63u32) << 26u32);
}

/// The A operand, a signed 8-bit number.
pub fn get_arga(inst: Instruction) -> (r: i32)
    ensures
        r == spec_get_arga(inst),
        -128 <= r < 128,
{
    assert(((inst >> 18u32) & 0xffu32) < 256u32) by (bit_vector);
    let a = ((inst >> 18) & 0xff) as i32;
    assert(a & 0x80i32 != 0 <==> a >= 128) by (bit_vector)
        requires 0 <= a < 256;
    if a & 0x80 != 0 {
        assert((a | !0xffi32) == a - 256) by (bit_vector)
            requires 128 <= a < 256;
        a | !0xff
    } else {
        a
    }
}

/// Writes the A field with the low 8 bits of `a`; the other fields are kept.
pub fn set_arga(inst: &mut Instruction, a: i32)
    ensures
        *final(inst) == spec_set_arga(*old(inst), a),
        a_field(*final(inst)) == a % 256,
        opcode_field(*final(inst)) == opcode_field(*old(inst)),
        b_field(*final(inst)) == b_field(*old(inst)),
        c_field(*final(inst)) == c_field(*old(inst)),
{
    let ghost i = *inst;
    *inst = (*inst & 0xfc03ffff) | ((a as u32 & 0xff) << 18);
    proof {
        lemma_set_arga_fields(i, a);
    }
}

proof fn lemma_set_arga_fields(i: u32, a: i32)
    ensures
        a_field(spec_set_arga(i, a)) == a % 256,
        opcode_field(spec_set_arga(i, a)) == opcode_field(i),
        b_field(spec_set_arga(i, a)) == b_field(i),
        c_field(spec_set_arga(i, a)) == c_field(i),
{
    let r = spec_set_arga(i, a);
    assert((((r >> 18u32) & 0xffu32) == ((a as u32) & 0xffu32)) &&
        (((a as u32) & 0xffu32) as int == a % 256) &&
        ((r >> 26u32) == (i >> 26u32)) &&
        ((r & 0x1ffu32) == (i & 0x1ffu32)) &&
        (((r >> 9u32) & 0x1ffu32) == ((i >> 9u32) & 0x1ffu32))) by (bit_vector)
        requires r == (i & 0xfc03ffffu32) | (((a as u32) & 0xffu32) << 18u32);
}

/// The B operand, a signed 9-bit number.
pub fn get_argb(inst: Instruction) -> (r: i32)
    ensures
        r == spec_get_argb(inst),
        -256 <= r < 256,
{
    assert((inst & 0x1ffu32) < 512u32) by (bit_vector);
    let b = (inst & 0x1ff) as i32;
    assert(b & 0x100i32 != 0 <==> b >= 256) by (bit_vector)
        requires 0 <= b < 512;
    if b & 0x100 != 0 {
        assert((b | !0x1ffi32) == b - 512) by (bit_vector)
            requires 256 <= b < 512;
        b | !0x1ff
    } else {
        b
    }
}

/// Writes the B field with the low 9 bits of `b`; the other fields are kept.
pub fn set_argb(inst: &mut Instruction, b: i32)
    ensures
        *final(inst) == spec_set_argb(*old(inst), b),
        b_field(*final(inst)) == b % 512,
        opcode_field(*final(inst)) == opcode_field(*old(inst)),
        a_field(*final(inst)) == a_field(*old(inst)),
        c_field(*final(inst)) == c_field(*old(inst)),
{
    let ghost i = *inst;
    *inst = (*inst & 0xfffffe00) | (b as u32 & 0x1ff);
    proof {
        lemma_set_argb_fields(i, b);
    }
}

proof fn lemma_set_argb_fields(i: u32, b: i32)
    ensures
        b_field(spec_set_argb(i, b)) == b % 512,
        opcode_field(spec_set_argb(i, b)) == opcode_field(i),
        a_field(spec_set_argb(i, b)) == a_field(i),
        c_field(spec_set_argb(i, b)) == c_field(i),
{
    let r = spec_set_argb(i, b);
    assert(((r & 0x1ffu32) == ((b as u32) & 0x1ffu32)) &&
        (((b as u32) & 0x1ffu32) as int == b % 512) &&
        ((r >> 26u32) == (i >> 26u32)) &&
        (((r >> 18u32) & 0xffu32) == ((i >> 18u32) & 0xffu32)) &&
        (((r >> 9u32) & 0x1ffu32) == ((i >> 9u32) & 0x1ffu32))) by (bit_vector)
        requires r == (i & 0xfffffe00u32) | ((b as u32) & 0x1ffu32);
}

/// The C operand, a signed 9-bit number.
pub fn get_argc(inst: Instruction) -> (r: i32)
    ensures
        r == spec_get_argc(inst),
        -256 <= r < 256,
{
    assert(((inst >> 9u32) & 0x1ffu32) < 512u32) by (bit_vector);
    let c = ((inst >> 9) & 0x1ff) as i32;
    assert(c & 0x100i32 != 0 <==> c >= 256) by (bit_vector)
        requires 0 <= c < 512;
    if c & 0x100 != 0 {
        assert((c | !0x1ffi32) == c - 512) by (bit_vector)
            requires 256 <= c < 512;
        c | !0x1ff
    } else {
        c
    }
}

/// Writes the C field with the low 9 bits of `c`; the other fields are kept.
pub fn set_argc(inst: &mut Instruction, c: i32)
    ensures
        *final(inst) == spec_set_argc(*old(inst), c),
        c_field(*final(inst)) == c % 512,
        opcode_field(*final(inst)) == opcode_field(*old(inst)),
        a_field(*final(inst)) == a_field(*old(inst)),
        b_field(*final(inst)) == b_field(*old(inst)),
{
    let ghost i = *inst;
    *inst = (*inst & 0xfffc01ff) | ((c as u32 & 0x1ff) << 9);
    proof {
        lemma_set_argc_fields(i, c);
    }
}

proof fn lemma_set_argc_fields(i: u32, c: i32)
    ensures
        c_field(spec_set_argc(i, c)) == c % 512,
        opcode_field(spec_set_argc(i, c)) == opcode_field(i),
        a_field(spec_set_argc(i, c)) == a_field(i),
        b_field(spec_set_argc(i, c)) == b_field(i),
{
    let r = spec_set_argc(i, c);
    assert((((r >> 9u32) & 0x1ffu32) == ((c as u32) & 0x1ffu32)) &&
        (((c as u32) & 0x1ffu32) as int == c % 512) &&
        ((r >> 26u32) == (i >> 26u32)) &&
        (((r >> 18u32) & 0xffu32) == ((i >> 18u32) & 0xffu32)) &&
        ((r & 0x1ffu32) == (i & 0x1ffu32))) by (bit_vector)
        requires r == (i & 0xfffc01ffu32) | (((c as u32) & 0x1ffu32) << 9u32);
}

/// The Bx operand, an unsigned 18-bit number.
pub fn get_argbx(inst: Instruction) -> (r: i32)
    ensures
        r == spec_get_argbx(inst),
        0 <= r < 262144,
{
    assert((inst & 0x3ffffu32) < 262144u32) by (bit_vector);
    (inst & 0x3ffff) as i32
}

/// Writes the Bx field with the low 18 bits of `bx`; opcode and A are kept.
pub fn set_argbx(inst: &mut Instruction, bx: i32)
    ensures
        *final(inst) == spec_set_argbx(*old(inst), bx),
        bx_field(*final(inst)) == bx % 262144,
        opcode_field(*final(inst)) == opcode_field(*old(inst)),
        a_field(*final(inst)) == a_field(*old(inst)),
{
    let ghost i = *inst;
    *inst = (*inst & 0xfffc0000) | (bx as u32 & 0x3ffff);
    proof {
        lemma_set_argbx_fields(i, bx);
    }
}

proof fn lemma_set_argbx_fields(i: u32, bx: i32)
    ensures
        bx_field(spec_set_argbx(i, bx)) == bx % 262144,
        opcode_field(spec_set_argbx(i, bx)) == opcode_field(i),
        a_field(spec_set_argbx(i, bx)) == a_field(i),
{
    let r = spec_set_argbx(i, bx);
    assert(((r & 0x3ffffu32) == ((bx as u32) & 0x3ffffu32)) &&
        (((bx as u32) & 0x3ffffu32) as int == bx % 262144) &&
        ((r >> 26u32) == (i >> 26u32)) &&
        (((r >> 18u32) & 0xffu32) == ((i >> 18u32) & 0xffu32))) by (bit_vector)
        requires r == (i & 0xfffc0000u32) | ((bx as u32) & 0x3ffffu32);
}

/// The sBx operand: Bx shifted down by 131072.
pub fn get_argsbx(inst: Instruction) -> (r: i32)
    ensures
        r == spec_get_argsbx(inst),
        -131072 <= r < 131072,
{
    get_argbx(inst) - (OPCODE_MAX_SBX + 1)
}

/// Writes `sbx + 131072` as Bx; opcode and A are kept.
pub fn set_argsbx(inst: &mut Instruction, sbx: i32)
    requires
        sbx + 131072 <= i32::MAX,
    ensures
        *final(inst) == spec_set_argbx(*old(inst), (sbx + 131072) as i32),
        bx_field(*final(inst)) == (sbx + 131072) % 262144,
        opcode_field(*final(inst)) == opcode_field(*old(inst)),
        a_field(*final(inst)) == a_field(*old(inst)),
{
    set_argbx(inst, sbx + (OPCODE_MAX_SBX + 1));
}

/// Fields A, B and C fill the low 26 bits.
proof fn lemma_low_fields(i: u32, j: u32)
    requires
        a_field(i) == a_field(j),
        b_field(i) == b_field(j),
        c_field(i) == c_field(j),
        opcode_field(i) == opcode_field(j),
    ensures
        i == j,
{
    assert(i == j) by (bit_vector)
        requires
            (i >> 26u32) == (j >> 26u32),
            ((i >> 18u32) & 0xffu32) == ((j >> 18u32) & 0xffu32),
            ((i >> 9u32) & 0x1ffu32) == ((j >> 9u32) & 0x1ffu32),
            (i & 0x1ffu32) == (j & 0x1ffu32);
}

proof fn lemma_zero_fields()
    ensures
        opcode_field(0) == 0,
        a_field(0) == 0,
        b_field(0) == 0,
        c_field(0) == 0,
        bx_field(0) == 0,
{
    assert((0u32 >> 26u32) == 0u32 && ((0u32 >> 18u32) & 0xffu32) == 0u32 && (0u32 & 0x1ffu32)
        == 0u32 && ((0u32 >> 9u32) & 0x1ffu32) == 0u32 && (0u32 & 0x3ffffu32) == 0u32)
        by (bit_vector);
}

/// An instruction of layout A B C. Its four fields hold the low bits of the
/// arguments: opcode `op mod 64`, A `a mod 256`, B `b mod 512`, C `c mod 512`.
#[allow(non_snake_case)]
pub fn Abc(op: OpCode, a: i32, b: i32, c: i32) -> (r: Instruction)
    ensures
        opcode_field(r) == op % 64,
        a_field(r) == a % 256,
        b_field(r) == b % 512,
        c_field(r) == c % 512,
{
    let mut inst: Instruction = 0;
    proof {
        lemma_zero_fields();
    }
    set_opcode(&mut inst, op);
    proof {
        lemma_set_opcode_fields(0, op);
    }
    set_arga(&mut inst, a);
    set_argb(&mut inst, b);
    set_argc(&mut inst, c);
    inst
}

/// An instruction of layout A Bx: opcode `op mod 64`, A `a mod 256`,
/// Bx `bx mod 2^18`.
#[allow(non_snake_case)]
pub fn ABx(op: OpCode, a: i32, bx: i32) -> (r: Instruction)
    ensures
        opcode_field(r) == op % 64,
        a_field(r) == a % 256,
        bx_field(r) == bx % 262144,
{
    let mut inst: Instruction = 0;
    set_opcode(&mut inst, op);
    set_arga(&mut inst, a);
    set_argbx(&mut inst, bx);
    inst
}

/// An instruction of layout A sBx: opcode `op mod 64`, A `a mod 256`,
/// Bx `(sbx + 131072) mod 2^18`.
#[allow(non_snake_case)]
pub fn ASBx(op: OpCode, a: i32, sbx: i32) -> (r: Instruction)
    requires
        sbx + 131072 <= i32::MAX,
    ensures
        opcode_field(r) == op % 64,
        a_field(r) == a % 256,
        bx_field(r) == (sbx + 131072) % 262144,
{
    let mut inst: Instruction = 0;
    set_opcode(&mut inst, op);
    set_arga(&mut inst, a);
    set_argsbx(&mut inst, sbx);
    inst
}

/// Whether an RK operand names a constant: its bit 8 is set.
pub open spec fn spec_is_k(v: i32) -> bool {
    v & 256i32 != 0
}

/// The constant index of an RK operand: its low 8 bits.
pub open spec fn spec_rk_to_k(v: i32) -> int {
    (v as int) % 256
}

pub fn is_k(v: i32) -> (r: bool)
    ensures
        r == spec_is_k(v),
        r == (v % 512 >= 256),
{
    assert((v & 256i32 != 0) == (v % 512 >= 256)) by (bit_vector);
    v & OP_BIT_RK != 0
}

/// Marks `v` as a constant index by setting bit 8.
pub fn rk_ask(v: i32) -> (r: i32)
    ensures
        r == v | 256i32,
        spec_is_k(r),
        spec_rk_to_k(r) == spec_rk_to_k(v),
{
    assert(spec_is_k(v | 256i32)) by (bit_vector);
    assert((v | 256i32) % 256 == v % 256) by (bit_vector);
    v | OP_BIT_RK
}

/// The constant index held by an RK operand (its low 8 bits).
pub fn rk_to_k(v: i32) -> (r: i32)
    ensures
        r == spec_rk_to_k(v),
{
    assert(((v & 0x1ffi32) & !256i32) as int == v % 256) by (bit_vector);
    (v & 0x1FF) & !OP_BIT_RK
}

// ---------------------------------------------------------------------------
// Laws of the encoding
// ---------------------------------------------------------------------------

/// Reading the opcode back gives what was written, for opcodes that fit in 6 bits.
pub proof fn law_opcode_roundtrip(i: u32, op: i32)
    requires
        0 <= op < 64,
    ensures
        spec_get_opcode(spec_set_opcode(i, op)) == op,
{
    lemma_set_opcode_fields(i, op);
}

/// Reading A back gives what was written, for values in -128..=127.
pub proof fn law_arga_roundtrip(i: u32, a: i32)
    requires
        -128 <= a < 128,
    ensures
        spec_get_arga(spec_set_arga(i, a)) == a,
{
    lemma_set_arga_fields(i, a);
}

/// Reading B back gives what was written, for values in -256..=255.
pub proof fn law_argb_roundtrip(i: u32, b: i32)
    requires
        -256 <= b < 256,
    ensures
        spec_get_argb(spec_set_argb(i, b)) == b,
{
    lemma_set_argb_fields(i, b);
}

/// Reading C back gives what was written, for values in -256..=255.
pub proof fn law_argc_roundtrip(i: u32, c: i32)
    requires
        -256 <= c < 256,
    ensures
        spec_get_argc(spec_set_argc(i, c)) == c,
{
    lemma_set_argc_fields(i, c);
}

/// Reading Bx back gives what was written, for values in 0..2^18.
pub proof fn law_argbx_roundtrip(i: u32, bx: i32)
    requires
        0 <= bx < 262144,
    ensures
        spec_get_argbx(spec_set_argbx(i, bx)) == bx,
{
    lemma_set_argbx_fields(i, bx);
}

/// Reading sBx back gives what was written, for values in -131072..131072.
pub proof fn law_argsbx_roundtrip(i: u32, sbx: i32)
    requires
        -131072 <= sbx < 131072,
    ensures
        spec_get_argsbx(spec_set_argbx(i, (sbx + 131072) as i32)) == sbx,
{
    lemma_set_argbx_fields(i, (sbx + 131072) as i32);
}

/// Writing one field leaves every other field as it was.
pub proof fn law_fields_independent(i: u32, v: i32)
    ensures
        spec_get_opcode(spec_set_arga(i, v)) == spec_get_opcode(i),
        spec_get_argb(spec_set_arga(i, v)) == spec_get_argb(i),
        spec_get_argc(spec_set_arga(i, v)) == spec_get_argc(i),
        spec_get_arga(spec_set_argb(i, v)) == spec_get_arga(i),
        spec_get_argc(spec_set_argb(i, v)) == spec_get_argc(i),
        spec_get_opcode(spec_set_argb(i, v)) == spec_get_opcode(i),
        spec_get_arga(spec_set_argc(i, v)) == spec_get_arga(i),
        spec_get_argb(spec_set_argc(i, v)) == spec_get_argb(i),
        spec_get_opcode(spec_set_argc(i, v)) == spec_get_opcode(i),
        spec_get_arga(spec_set_opcode(i, v)) == spec_get_arga(i),
        spec_get_argb(spec_set_opcode(i, v)) == spec_get_argb(i),
        spec_get_argc(spec_set_opcode(i, v)) == spec_get_argc(i),
        spec_get_opcode(spec_set_argbx(i, v)) == spec_get_opcode(i),
        spec_get_arga(spec_set_argbx(i, v)) == spec_get_arga(i),
{
    lemma_set_arga_fields(i, v);
    lemma_set_argb_fields(i, v);
    lemma_set_argc_fields(i, v);
    lemma_set_opcode_fields(i, v);
    lemma_set_argbx_fields(i, v);
}

/// An A B C instruction decodes to its operands when each fits its field.
pub proof fn law_abc_decodes(r: u32, op: i32, a: i32, b: i32, c: i32)
    requires
        0 <= op < 64,
        -128 <= a < 128,
        -256 <= b < 256,
        -256 <= c < 256,
        opcode_field(r) == op % 64,
        a_field(r) == a % 256,
        b_field(r) == b % 512,
        c_field(r) == c % 512,
    ensures
        spec_get_opcode(r) == op,
        spec_get_arga(r) == a,
        spec_get_argb(r) == b,
        spec_get_argc(r) == c,
{
}

/// An A Bx instruction decodes to its operands when each fits its field.
pub proof fn law_abx_decodes(r: u32, op: i32, a: i32, bx: i32)
    requires
        0 <= op < 64,
        -128 <= a < 128,
        0 <= bx < 262144,
        opcode_field(r) == op % 64,
        a_field(r) == a % 256,
        bx_field(r) == bx % 262144,
    ensures
        spec_get_opcode(r) == op,
        spec_get_arga(r) == a,
        spec_get_argbx(r) == bx,
{
}

/// An A sBx instruction decodes to its operands when each fits its field.
pub proof fn law_asbx_decodes(r: u32, op: i32, a: i32, sbx: i32)
    requires
        0 <= op < 64,
        -128 <= a < 128,
        -131072 <= sbx < 131072,
        opcode_field(r) == op % 64,
        a_field(r) == a % 256,
        bx_field(r) == (sbx + 131072) % 262144,
    ensures
        spec_get_opcode(r) == op,
        spec_get_arga(r) == a,
        spec_get_argsbx(r) == sbx,
{
}

/// An instruction is determined by its four fields: two words with the same
/// opcode, A, B and C are the same word.
pub proof fn law_fields_determine_word(i: u32, j: u32)
    requires
        spec_get_opcode(i) == spec_get_opcode(j),
        spec_get_arga(i) == spec_get_arga(j),
        spec_get_argb(i) == spec_get_argb(j),
        spec_get_argc(i) == spec_get_argc(j),
    ensures
        i == j,
{
    assert(((i >> 18u32) & 0xffu32) < 256u32 && (i & 0x1ffu32) < 512u32 && ((i >> 9u32) & 0x1ffu32)
        < 512u32) by (bit_vector);
    assert(((j >> 18u32) & 0xffu32) < 256u32 && (j & 0x1ffu32) < 512u32 && ((j >> 9u32) & 0x1ffu32)
        < 512u32) by (bit_vector);
    lemma_low_fields(i, j);
}

/// Marking an index in 0..256 as a constant and reading it back gives the index.
pub proof fn law_rk_roundtrip(v: i32)
    requires
        0 <= v < 256,
    ensures
        spec_is_k(v | 256i32),
        spec_rk_to_k(v | 256i32) == v,
        !spec_is_k(v),
{
    assert(spec_is_k(v | 256i32)) by (bit_vector);
    assert((v | 256i32) % 256 == v % 256) by (bit_vector);
    assert(!spec_is_k(v)) by (bit_vector)
        requires 0 <= v < 256;
}

// ---------------------------------------------------------------------------
// Listing
// ---------------------------------------------------------------------------

/// An RK operand as text: `K(index)` for a constant, `R(v)` for a register.
pub open spec fn rk_text(v: int) -> Seq<char> {
    if spec_is_k(v as i32) {
        "K("@ + int_text(spec_rk_to_k(v as i32)) + ")"@
    } else {
        "R("@ + int_text(v) + ")"@
    }
}

fn push_rk_text(out: &mut String, v: i32)
    ensures
        final(out)@ == old(out)@ + rk_text(v as int),
{
    if is_k(v) {
        push_str(out, "K(");
        push_int_text(out, rk_to_k(v) as i64);
        push_str(out, ")");
    } else {
        push_str(out, "R(");
        push_int_text(out, v as i64);
        push_str(out, ")");
    }
    assert(final(out)@ =~= old(out)@ + rk_text(v as int));
}

/// The first columns of a listing line: name, layout and operands, padded to 36 characters.
pub open spec fn columns(name: Seq<char>, t: OpType, a: int, b: int, c: int, bx: int, sbx: int) -> Seq<char> {
    let head = pad_end(name, 20) + "| "@ + pad_end(op_type_text(t), 4) + " | "@ + pad_start(int_text(a), 4);
    let operands = match t {
        OpType::Abc => ", "@ + pad_start(int_text(b), 4) + ", "@ + pad_start(int_text(c), 4),
        OpType::ABx => ", "@ + pad_start(int_text(bx), 10),
        OpType::AsBx => ", "@ + pad_start(int_text(sbx), 10),
    };
    pad_end(head + operands, 36)
}

/// The name a native-function table gives to index `a`, or the placeholder
/// when there is no such entry.
pub open spec fn native_text(a: int, natives: Seq<String>) -> Seq<char> {
    if 0 <= a < natives.len() {
        natives[a]@
    } else {
        "UNABLE TO GET FUNCTION!"@
    }
}

/// The listing line of an instruction word, with `natives` as the table of
/// native functions that NATIVE_CALL instructions name.
pub open spec fn listing(inst: u32, natives: Seq<String>) -> Seq<char> {
    let op = spec_get_opcode(inst);
    if op > 67 {
        "##### !INVALID OPCODE!"@
    } else {
        let a = spec_get_arga(inst);
        describe(
            columns(spec_op_name(op), spec_op_prop(op).typ, a, spec_get_argb(inst), spec_get_argc(inst),
                spec_get_argbx(inst), spec_get_argsbx(inst)),
            op, a, spec_get_argb(inst), spec_get_argc(inst), spec_get_argbx(inst),
            native_text(a, natives),
        )
    }
}

/// The explanatory part of a listing line: what opcode `op` does with its operands,
/// appended to the already formatted columns `cols`.
pub open spec fn describe(cols: Seq<char>, op: int, a: int, b: int, c: int, bx: int, native: Seq<char>) -> Seq<char> {
    if op == 0 {
        cols + " | R("@ + int_text(a) + ") := R("@ + int_text(b) + ")"@
    } else if op == 1 {
        cols + " | R("@ + int_text(a) + ") := Kst("@ + int_text(bx) + ")"@
    } else if op == 2 {
        cols + " | R("@ + int_text(a) + ") := (Bool)"@ + int_text(b) + "; if ("@ + int_text(c) + ") pc++"@
    } else if op == 3 {
        cols + " | R("@ + int_text(a) + ") := ... := R("@ + int_text(b) + ") := nil"@
    } else if op == 4 {
        cols + " | R("@ + int_text(a) + ") := "@ + rk_text(b) + " + "@ + rk_text(c)
    } else if op == 5 {
        cols + " | R("@ + int_text(a) + ") := "@ + rk_text(b) + " - "@ + rk_text(c)
    } else if op == 6 {
        cols + " | R("@ + int_text(a) + ") := "@ + rk_text(b) + " * "@ + rk_text(c)
    } else if op == 7 {
        cols + " | R("@ + int_text(a) + ") := "@ + rk_text(b) + " / "@ + rk_text(c)
    } else if op == 8 {
        cols + " | R("@ + int_text(a) + ") := "@ + rk_text(b) + " % "@ + rk_text(c)
    } else if op == 9 {
        cols + " | R("@ + int_text(a) + ") := "@ + rk_text(b) + " ^ "@ + rk_text(c)
    } else if op == 10 {
        cols + " | R("@ + int_text(a) + ") := not R("@ + int_text(b) + ")"@
    } else if op == 11 {
        cols + " | R("@ + int_text(a) + ") := "@ + rk_text(b) + " and "@ + rk_text(c)
    } else if op == 12 {
        cols + " | R("@ + int_text(a) + ") := "@ + rk_text(b) + " or "@ + rk_text(c)
    } else if op == 13 {
        cols + " | R("@ + int_text(a) + ") = ("@ + rk_text(b) + " == "@ + rk_text(c) + ")"@
    } else if op == 14 {
        cols + " | R("@ + int_text(a) + ") := "@ + rk_text(b) + " != "@ + rk_text(c)
    } else if op == 15 {
        cols + " | R("@ + int_text(a) + ") = ("@ + rk_text(b) + " < "@ + rk_text(c) + ")"@
    } else if op == 16 {
        cols + " | R("@ + int_text(a) + ") = ("@ + rk_text(b) + " <= "@ + rk_text(c) + ")"@
    } else if op == 17 {
        cols + " | R("@ + int_text(a) + ") = ("@ + rk_text(b) + " > "@ + rk_text(c) + ")"@
    } else if op == 18 {
        cols + " | R("@ + int_text(a) + ") = ("@ + rk_text(b) + " >= "@ + rk_text(c) + ")"@
    } else if op == 19 {
        cols + " | pc = "@ + int_text(bx)
    } else if op == 20 {
        cols + " | if R("@ + int_text(a) + ") is true then pc = "@ + int_text(bx)
    } else if op == 21 {
        cols + " | if R("@ + int_text(a) + ") is false then pc = "@ + int_text(bx)
    } else if op == 22 {
        cols + " | R("@ + int_text(a) + ")(#R("@ + int_text(b) + ")), base "@ + int_text(c)
    } else if op == 23 {
        cols + " | R("@ + int_text(a) + ")(#R("@ + int_text(b) + ")), base "@ + int_text(c) + ", NATIVE: "@ + native
    } else if op == 24 {
        cols + " | R("@ + int_text(a) + ")(#R("@ + int_text(b) + ")), base "@ + int_text(c) + ", QFFI"@
    } else if op == 25 {
        cols + " | return R("@ + int_text(a) + ")(R("@ + int_text(a) + "+1) ... R("@ + int_text(a) + "+"@ + int_text(b) + "-1))"@
    } else if op == 26 {
        cols + " | return"@
    } else if op == 27 {
        cols + " | R("@ + int_text(a) + ") += 1"@
    } else if op == 28 {
        cols + " | R("@ + int_text(a) + ") -= 1"@
    } else if op == 29 {
        cols + " | R("@ + int_text(a) + ") := R("@ + int_text(b) + ") bitwise and R("@ + int_text(c) + ")"@
    } else if op == 30 {
        cols + " | R("@ + int_text(a) + ") := R("@ + int_text(b) + ") bitwise or R("@ + int_text(c) + ")"@
    } else if op == 31 {
        cols + " | R("@ + int_text(a) + ") := R("@ + int_text(b) + ") bitwise exclusive or R("@ + int_text(c) + ")"@
    } else if op == 32 {
        cols + " | R("@ + int_text(a) + ") := R("@ + int_text(b) + ") << R("@ + int_text(c) + ")"@
    } else if op == 33 {
        cols + " | R("@ + int_text(a) + ") := R("@ + int_text(b) + ") >> R("@ + int_text(c) + ")"@
    } else if op == 34 {
        cols + " | R("@ + int_text(a) + ") := R("@ + int_text(b) + ") & R("@ + int_text(c) + ")"@
    } else if op == 35 {
        cols + " | R("@ + int_text(a) + ") -> destructor (string)"@
    } else if op == 36 {
        cols + " | std::process::exit("@ + int_text(a) + ")"@
    } else if op == 37 {
        cols + " | R("@ + int_text(a) + ") := R("@ + int_text(b) + ").clone()"@
    } else if op == 38 {
        cols + " | R("@ + int_text(a) + ") := ~R("@ + int_text(b) + ")"@
    } else if op == 39 {
        cols + " | R("@ + int_text(a) + ") := "@ + rk_text(b) + " + "@ + rk_text(c)
    } else if op == 40 {
        cols + " | R("@ + int_text(a) + ") := "@ + rk_text(b) + " - "@ + rk_text(c)
    } else if op == 41 {
        cols + " | R("@ + int_text(a) + ") := "@ + rk_text(b) + " * "@ + rk_text(c)
    } else if op == 42 {
        cols + " | R("@ + int_text(a) + ") := "@ + rk_text(b) + " / "@ + rk_text(c)
    } else if op == 43 {
        cols + " | R("@ + int_text(a) + ") := "@ + rk_text(b) + " ^ "@ + rk_text(c)
    } else if op == 44 {
        cols + " | R("@ + int_text(a) + ") = ("@ + rk_text(b) + " == "@ + rk_text(c) + ")"@
    } else if op == 45 {
        cols + " | R("@ + int_text(a) + ") := "@ + rk_text(b) + " != "@ + rk_text(c)
    } else if op == 46 {
        cols + " | R("@ + int_text(a) + ") = ("@ + rk_text(b) + " < "@ + rk_text(c) + ")"@
    } else if op == 47 {
        cols + " | R("@ + int_text(a) + ") = ("@ + rk_text(b) + " <= "@ + rk_text(c) + ")"@
    } else if op == 48 {
        cols + " | R("@ + int_text(a) + ") = ("@ + rk_text(b) + " > "@ + rk_text(c) + ")"@
    } else if op == 49 {
        cols + " | R("@ + int_text(a) + ") = ("@ + rk_text(b) + " >= "@ + rk_text(c) + ")"@
    } else if op == 50 {
        cols + " | R("@ + int_text(a) + ") += 1.0"@
    } else if op == 51 {
        cols + " | R("@ + int_text(a) + ") -= 1.0"@
    } else if op == 52 {
        cols + " | R("@ + int_text(a) + ") := -R("@ + int_text(b) + ")"@
    } else if op == 53 {
        cols + " | R("@ + int_text(a) + ") := -R("@ + int_text(b) + ")"@
    } else if op == 54 {
        cols + " | R("@ + int_text(a) + ") := R("@ + int_text(b) + ") as float"@
    } else if op == 55 {
        cols + " | R("@ + int_text(a) + ") := R("@ + int_text(b) + ") as int"@
    } else if op == 56 {
        cols + " | R("@ + int_text(a) + ") := +R("@ + int_text(b) + ")"@
    } else if op == 57 {
        cols + " | R("@ + int_text(a) + ") := +R("@ + int_text(b) + ")"@
    } else if op == 58 {
        cols + " | R("@ + int_text(a) + ") := "@ + rk_text(b) + " % "@ + rk_text(c)
    } else if op == 59 {
        cols + " | R("@ + int_text(a) + ") := R("@ + int_text(b) + ").to_string()"@
    } else if op == 60 {
        cols + " | R("@ + int_text(a) + ") := R("@ + int_text(b) + ").to_string()"@
    } else if op == 61 {
        cols + " | R("@ + int_text(a) + ") -> destructor (array)"@
    } else if op == 62 {
        cols + " | R("@ + int_text(a) + ") -> destructor (range)"@
    } else if op == 63 {
        cols + " | R("@ + int_text(a) + ") ..= R("@ + int_text(a + 1) + ") := R("@ + int_text(b) + ") ..= R("@ + int_text(b + 1) + ")"@
    } else if op == 64 {
        cols + " | R("@ + int_text(a) + ") ..= R("@ + int_text(a + 3) + ") := R("@ + int_text(b) + ") ..= R("@ + int_text(b + 3) + ")"@
    } else if op == 65 {
        cols + " | R("@ + int_text(a) + ") ..= R("@ + int_text(a + 7) + ") := R("@ + int_text(b) + ") ..= R("@ + int_text(b + 7) + ")"@
    } else if op == 66 {
        cols + " | R("@ + int_text(a) + ") ..= R("@ + int_text(a + 15) + ") := R("@ + int_text(b) + ") ..= R("@ + int_text(b + 15) + ")"@
    } else {
        cols
    }
}

/// The columns of a listing line come first in it.
proof fn lemma_describe_keeps_columns(cols: Seq<char>, op: int, a: int, b: int, c: int, bx: int, native: Seq<char>)
    ensures
        describe(cols, op, a, b, c, bx, native).len() >= cols.len(),
        describe(cols, op, a, b, c, bx, native).take(cols.len() as int) == cols,
{
    let d = describe(cols, op, a, b, c, bx, native);
    if op == 0 {
        assert(d.take(cols.len() as int) =~= cols);
    } else if op == 1 {
        assert(d.take(cols.len() as int) =~= cols);
    } else if op == 2 {
        assert(d.take(cols.len() as int) =~= cols);
    } else if op == 3 {
        assert(d.take(cols.len() as int) =~= cols);
    } else if op == 4 {
        assert(d.take(cols.len() as int) =~= cols);
    } else if op == 5 {
        assert(d.take(cols.len() as int) =~= cols);
    } else if op == 6 {
        assert(d.take(cols.len() as int) =~= cols);
    } else if op == 7 {
        assert(d.take(cols.len() as int) =~= cols);
    } else if op == 8 {
        assert(d.take(cols.len() as int) =~= cols);
    } else if op == 9 {
        assert(d.take(cols.len() as int) =~= cols);
    } else if op == 10 {
        assert(d.take(cols.len() as int) =~= cols);
    } else if op == 11 {
        assert(d.take(cols.len() as int) =~= cols);
    } else if op == 12 {
        assert(d.take(cols.len() as int) =~= cols);
    } else if op == 13 {
        assert(d.take(cols.len() as int) =~= cols);
    } else if op == 14 {
        assert(d.take(cols.len() as int) =~= cols);
    } else if op == 15 {
        assert(d.take(cols.len() as int) =~= cols);
    } else if op == 16 {
        assert(d.take(cols.len() as int) =~= cols);
    } else if op == 17 {
        assert(d.take(cols.len() as int) =~= cols);
    } else if op == 18 {
        assert(d.take(cols.len() as int) =~= cols);
    } else if op == 19 {
        assert(d.take(cols.len() as int) =~= cols);
    } else if op == 20 {
        assert(d.take(cols.len() as int) =~= cols);
    } else if op == 21 {
        assert(d.take(cols.len() as int) =~= cols);
    } else if op == 22 {
        assert(d.take(cols.len() as int) =~= cols);
    } else if op == 23 {
        assert(d.take(cols.len() as int) =~= cols);
    } else if op == 24 {
        assert(d.take(cols.len() as int) =~= cols);
    } else if op == 25 {
        assert(d.take(cols.len() as int) =~= cols);
    } else if op == 26 {
        assert(d.take(cols.len() as int) =~= cols);
    } else if op == 27 {
        assert(d.take(cols.len() as int) =~= cols);
    } else if op == 28 {
        assert(d.take(cols.len() as int) =~= cols);
    } else if op == 29 {
        assert(d.take(cols.len() as int) =~= cols);
    } else if op == 30 {
        assert(d.take(cols.len() as int) =~= cols);
    } else if op == 31 {
        assert(d.take(cols.len() as int) =~= cols);
    } else if op == 32 {
        assert(d.take(cols.len() as int) =~= cols);
    } else if op == 33 {
        assert(d.take(cols.len() as int) =~= cols);
    } else if op == 34 {
        assert(d.take(cols.len() as int) =~= cols);
    } else if op == 35 {
        assert(d.take(cols.len() as int) =~= cols);
    } else if op == 36 {
        assert(d.take(cols.len() as int) =~= cols);
    } else if op == 37 {
        assert(d.take(cols.len() as int) =~= cols);
    } else if op == 38 {
        assert(d.take(cols.len() as int) =~= cols);
    } else if op == 39 {
        assert(d.take(cols.len() as int) =~= cols);
    } else if op == 40 {
        assert(d.take(cols.len() as int) =~= cols);
    } else if op == 41 {
        assert(d.take(cols.len() as int) =~= cols);
    } else if op == 42 {
        assert(d.take(cols.len() as int) =~= cols);
    } else if op == 43 {
        assert(d.take(cols.len() as int) =~= cols);
    } else if op == 44 {
        assert(d.take(cols.len() as int) =~= cols);
    } else if op == 45 {
        assert(d.take(cols.len() as int) =~= cols);
    } else if op == 46 {
        assert(d.take(cols.len() as int) =~= cols);
    } else if op == 47 {
        assert(d.take(cols.len() as int) =~= cols);
    } else if op == 48 {
        assert(d.take(cols.len() as int) =~= cols);
    } else if op == 49 {
        assert(d.take(cols.len() as int) =~= cols);
    } else if op == 50 {
        assert(d.take(cols.len() as int) =~= cols);
    } else if op == 51 {
        assert(d.take(cols.len() as int) =~= cols);
    } else if op == 52 {
        assert(d.take(cols.len() as int) =~= cols);
    } else if op == 53 {
        assert(d.take(cols.len() as int) =~= cols);
    } else if op == 54 {
        assert(d.take(cols.len() as int) =~= cols);
    } else if op == 55 {
        assert(d.take(cols.len() as int) =~= cols);
    } else if op == 56 {
        assert(d.take(cols.len() as int) =~= cols);
    } else if op == 57 {
        assert(d.take(cols.len() as int) =~= cols);
    } else if op == 58 {
        assert(d.take(cols.len() as int) =~= cols);
    } else if op == 59 {
        assert(d.take(cols.len() as int) =~= cols);
    } else if op == 60 {
        assert(d.take(cols.len() as int) =~= cols);
    } else if op == 61 {
        assert(d.take(cols.len() as int) =~= cols);
    } else if op == 62 {
        assert(d.take(cols.len() as int) =~= cols);
    } else if op == 63 {
        assert(d.take(cols.len() as int) =~= cols);
    } else if op == 64 {
        assert(d.take(cols.len() as int) =~= cols);
    } else if op == 65 {
        assert(d.take(cols.len() as int) =~= cols);
    } else if op == 66 {
        assert(d.take(cols.len() as int) =~= cols);
    } else {
        assert(d.take(cols.len() as int) =~= cols);
    }
}

fn push_description(out: &mut String, op: OpCode, a: i32, b: i32, c: i32, bx: i32, native: &String)
    requires
        0 <= op <= OP_NOP,
    ensures
        final(out)@ == describe(old(out)@, op as int, a as int, b as int, c as int, bx as int, native@),
{
    match op {
        0 => { push_str(out, " | R("); push_int_text(out, a as i64); push_str(out, ") := R("); push_int_text(out, b as i64); push_str(out, ")"); },
        1 => { push_str(out, " | R("); push_int_text(out, a as i64); push_str(out, ") := Kst("); push_int_text(out, bx as i64); push_str(out, ")"); },
        2 => { push_str(out, " | R("); push_int_text(out, a as i64); push_str(out, ") := (Bool)"); push_int_text(out, b as i64); push_str(out, "; if ("); push_int_text(out, c as i64); push_str(out, ") pc++"); },
        3 => { push_str(out, " | R("); push_int_text(out, a as i64); push_str(out, ") := ... := R("); push_int_text(out, b as i64); push_str(out, ") := nil"); },
        4 => { push_str(out, " | R("); push_int_text(out, a as i64); push_str(out, ") := "); push_rk_text(out, b); push_str(out, " + "); push_rk_text(out, c); },
        5 => { push_str(out, " | R("); push_int_text(out, a as i64); push_str(out, ") := "); push_rk_text(out, b); push_str(out, " - "); push_rk_text(out, c); },
        6 => { push_str(out, " | R("); push_int_text(out, a as i64); push_str(out, ") := "); push_rk_text(out, b); push_str(out, " * "); push_rk_text(out, c); },
        7 => { push_str(out, " | R("); push_int_text(out, a as i64); push_str(out, ") := "); push_rk_text(out, b); push_str(out, " / "); push_rk_text(out, c); },
        8 => { push_str(out, " | R("); push_int_text(out, a as i64); push_str(out, ") := "); push_rk_text(out, b); push_str(out, " % "); push_rk_text(out, c); },
        9 => { push_str(out, " | R("); push_int_text(out, a as i64); push_str(out, ") := "); push_rk_text(out, b); push_str(out, " ^ "); push_rk_text(out, c); },
        10 => { push_str(out, " | R("); push_int_text(out, a as i64); push_str(out, ") := not R("); push_int_text(out, b as i64); push_str(out, ")"); },
        11 => { push_str(out, " | R("); push_int_text(out, a as i64); push_str(out, ") := "); push_rk_text(out, b); push_str(out, " and "); push_rk_text(out, c); },
        12 => { push_str(out, " | R("); push_int_text(out, a as i64); push_str(out, ") := "); push_rk_text(out, b); push_str(out, " or "); push_rk_text(out, c); },
        13 => { push_str(out, " | R("); push_int_text(out, a as i64); push_str(out, ") = ("); push_rk_text(out, b); push_str(out, " == "); push_rk_text(out, c); push_str(out, ")"); },
        14 => { push_str(out, " | R("); push_int_text(out, a as i64); push_str(out, ") := "); push_rk_text(out, b); push_str(out, " != "); push_rk_text(out, c); },
        15 => { push_str(out, " | R("); push_int_text(out, a as i64); push_str(out, ") = ("); push_rk_text(out, b); push_str(out, " < "); push_rk_text(out, c); push_str(out, ")"); },
        16 => { push_str(out, " | R("); push_int_text(out, a as i64); push_str(out, ") = ("); push_rk_text(out, b); push_str(out, " <= "); push_rk_text(out, c); push_str(out, ")"); },
        17 => { push_str(out, " | R("); push_int_text(out, a as i64); push_str(out, ") = ("); push_rk_text(out, b); push_str(out, " > "); push_rk_text(out, c); push_str(out, ")"); },
        18 => { push_str(out, " | R("); push_int_text(out, a as i64); push_str(out, ") = ("); push_rk_text(out, b); push_str(out, " >= "); push_rk_text(out, c); push_str(out, ")"); },
        19 => { push_str(out, " | pc = "); push_int_text(out, bx as i64); },
        20 => { push_str(out, " | if R("); push_int_text(out, a as i64); push_str(out, ") is true then pc = "); push_int_text(out, bx as i64); },
        21 => { push_str(out, " | if R("); push_int_text(out, a as i64); push_str(out, ") is false then pc = "); push_int_text(out, bx as i64); },
        22 => { push_str(out, " | R("); push_int_text(out, a as i64); push_str(out, ")(#R("); push_int_text(out, b as i64); push_str(out, ")), base "); push_int_text(out, c as i64); },
        23 => { push_str(out, " | R("); push_int_text(out, a as i64); push_str(out, ")(#R("); push_int_text(out, b as i64); push_str(out, ")), base "); push_int_text(out, c as i64); push_str(out, ", NATIVE: "); push_str(out, native.as_str()); },
        24 => { push_str(out, " | R("); push_int_text(out, a as i64); push_str(out, ")(#R("); push_int_text(out, b as i64); push_str(out, ")), base "); push_int_text(out, c as i64); push_str(out, ", QFFI"); },
        25 => { push_str(out, " | return R("); push_int_text(out, a as i64); push_str(out, ")(R("); push_int_text(out, a as i64); push_str(out, "+1) ... R("); push_int_text(out, a as i64); push_str(out, "+"); push_int_text(out, b as i64); push_str(out, "-1))"); },
        26 => { push_str(out, " | return"); },
        27 => { push_str(out, " | R("); push_int_text(out, a as i64); push_str(out, ") += 1"); },
        28 => { push_str(out, " | R("); push_int_text(out, a as i64); push_str(out, ") -= 1"); },
        29 => { push_str(out, " | R("); push_int_text(out, a as i64); push_str(out, ") := R("); push_int_text(out, b as i64); push_str(out, ") bitwise and R("); push_int_text(out, c as i64); push_str(out, ")"); },
        30 => { push_str(out, " | R("); push_int_text(out, a as i64); push_str(out, ") := R("); push_int_text(out, b as i64); push_str(out, ") bitwise or R("); push_int_text(out, c as i64); push_str(out, ")"); },
        31 => { push_str(out, " | R("); push_int_text(out, a as i64); push_str(out, ") := R("); push_int_text(out, b as i64); push_str(out, ") bitwise exclusive or R("); push_int_text(out, c as i64); push_str(out, ")"); },
        32 => { push_str(out, " | R("); push_int_text(out, a as i64); push_str(out, ") := R("); push_int_text(out, b as i64); push_str(out, ") << R("); push_int_text(out, c as i64); push_str(out, ")"); },
        33 => { push_str(out, " | R("); push_int_text(out, a as i64); push_str(out, ") := R("); push_int_text(out, b as i64); push_str(out, ") >> R("); push_int_text(out, c as i64); push_str(out, ")"); },
        34 => { push_str(out, " | R("); push_int_text(out, a as i64); push_str(out, ") := R("); push_int_text(out, b as i64); push_str(out, ") & R("); push_int_text(out, c as i64); push_str(out, ")"); },
        35 => { push_str(out, " | R("); push_int_text(out, a as i64); push_str(out, ") -> destructor (string)"); },
        36 => { push_str(out, " | std::process::exit("); push_int_text(out, a as i64); push_str(out, ")"); },
        37 => { push_str(out, " | R("); push_int_text(out, a as i64); push_str(out, ") := R("); push_int_text(out, b as i64); push_str(out, ").clone()"); },
        38 => { push_str(out, " | R("); push_int_text(out, a as i64); push_str(out, ") := ~R("); push_int_text(out, b as i64); push_str(out, ")"); },
        39 => { push_str(out, " | R("); push_int_text(out, a as i64); push_str(out, ") := "); push_rk_text(out, b); push_str(out, " + "); push_rk_text(out, c); },
        40 => { push_str(out, " | R("); push_int_text(out, a as i64); push_str(out, ") := "); push_rk_text(out, b); push_str(out, " - "); push_rk_text(out, c); },
        41 => { push_str(out, " | R("); push_int_text(out, a as i64); push_str(out, ") := "); push_rk_text(out, b); push_str(out, " * "); push_rk_text(out, c); },
        42 => { push_str(out, " | R("); push_int_text(out, a as i64); push_str(out, ") := "); push_rk_text(out, b); push_str(out, " / "); push_rk_text(out, c); },
        43 => { push_str(out, " | R("); push_int_text(out, a as i64); push_str(out, ") := "); push_rk_text(out, b); push_str(out, " ^ "); push_rk_text(out, c); },
        44 => { push_str(out, " | R("); push_int_text(out, a as i64); push_str(out, ") = ("); push_rk_text(out, b); push_str(out, " == "); push_rk_text(out, c); push_str(out, ")"); },
        45 => { push_str(out, " | R("); push_int_text(out, a as i64); push_str(out, ") := "); push_rk_text(out, b); push_str(out, " != "); push_rk_text(out, c); },
        46 => { push_str(out, " | R("); push_int_text(out, a as i64); push_str(out, ") = ("); push_rk_text(out, b); push_str(out, " < "); push_rk_text(out, c); push_str(out, ")"); },
        47 => { push_str(out, " | R("); push_int_text(out, a as i64); push_str(out, ") = ("); push_rk_text(out, b); push_str(out, " <= "); push_rk_text(out, c); push_str(out, ")"); },
        48 => { push_str(out, " | R("); push_int_text(out, a as i64); push_str(out, ") = ("); push_rk_text(out, b); push_str(out, " > "); push_rk_text(out, c); push_str(out, ")"); },
        49 => { push_str(out, " | R("); push_int_text(out, a as i64); push_str(out, ") = ("); push_rk_text(out, b); push_str(out, " >= "); push_rk_text(out, c); push_str(out, ")"); },
        50 => { push_str(out, " | R("); push_int_text(out, a as i64); push_str(out, ") += 1.0"); },
        51 => { push_str(out, " | R("); push_int_text(out, a as i64); push_str(out, ") -= 1.0"); },
        52 => { push_str(out, " | R("); push_int_text(out, a as i64); push_str(out, ") := -R("); push_int_text(out, b as i64); push_str(out, ")"); },
        53 => { push_str(out, " | R("); push_int_text(out, a as i64); push_str(out, ") := -R("); push_int_text(out, b as i64); push_str(out, ")"); },
        54 => { push_str(out, " | R("); push_int_text(out, a as i64); push_str(out, ") := R("); push_int_text(out, b as i64); push_str(out, ") as float"); },
        55 => { push_str(out, " | R("); push_int_text(out, a as i64); push_str(out, ") := R("); push_int_text(out, b as i64); push_str(out, ") as int"); },
        56 => { push_str(out, " | R("); push_int_text(out, a as i64); push_str(out, ") := +R("); push_int_text(out, b as i64); push_str(out, ")"); },
        57 => { push_str(out, " | R("); push_int_text(out, a as i64); push_str(out, ") := +R("); push_int_text(out, b as i64); push_str(out, ")"); },
        58 => { push_str(out, " | R("); push_int_text(out, a as i64); push_str(out, ") := "); push_rk_text(out, b); push_str(out, " % "); push_rk_text(out, c); },
        59 => { push_str(out, " | R("); push_int_text(out, a as i64); push_str(out, ") := R("); push_int_text(out, b as i64); push_str(out, ").to_string()"); },
        60 => { push_str(out, " | R("); push_int_text(out, a as i64); push_str(out, ") := R("); push_int_text(out, b as i64); push_str(out, ").to_string()"); },
        61 => { push_str(out, " | R("); push_int_text(out, a as i64); push_str(out, ") -> destructor (array)"); },
        62 => { push_str(out, " | R("); push_int_text(out, a as i64); push_str(out, ") -> destructor (range)"); },
        63 => { push_str(out, " | R("); push_int_text(out, a as i64); push_str(out, ") ..= R("); push_int_text(out, a as i64 + 1); push_str(out, ") := R("); push_int_text(out, b as i64); push_str(out, ") ..= R("); push_int_text(out, b as i64 + 1); push_str(out, ")"); },
        64 => { push_str(out, " | R("); push_int_text(out, a as i64); push_str(out, ") ..= R("); push_int_text(out, a as i64 + 3); push_str(out, ") := R("); push_int_text(out, b as i64); push_str(out, ") ..= R("); push_int_text(out, b as i64 + 3); push_str(out, ")"); },
        65 => { push_str(out, " | R("); push_int_text(out, a as i64); push_str(out, ") ..= R("); push_int_text(out, a as i64 + 7); push_str(out, ") := R("); push_int_text(out, b as i64); push_str(out, ") ..= R("); push_int_text(out, b as i64 + 7); push_str(out, ")"); },
        66 => { push_str(out, " | R("); push_int_text(out, a as i64); push_str(out, ") ..= R("); push_int_text(out, a as i64 + 15); push_str(out, ") := R("); push_int_text(out, b as i64); push_str(out, ") ..= R("); push_int_text(out, b as i64 + 15); push_str(out, ")"); },
        _ => {  },
    }
}

fn column_text(name: &str, t: OpType, a: i32, b: i32, c: i32, bx: i32, sbx: i32) -> (r: String)
    ensures
        r@ == columns(name@, t, a as int, b as int, c as int, bx as int, sbx as int),
{
    let mut h = String::new();
    let n = name.to_owned();
    push_padded_end(&mut h, &n, 20);
    push_str(&mut h, "| ");
    let tt = op_type_to_string(t);
    push_padded_end(&mut h, &tt, 4);
    push_str(&mut h, " | ");
    push_int_padded(&mut h, a as i64, 4);
    let ghost head = h@;
    match t {
        OpType::Abc => {
            push_str(&mut h, ", ");
            push_int_padded(&mut h, b as i64, 4);
            push_str(&mut h, ", ");
            push_int_padded(&mut h, c as i64, 4);
        },
        OpType::ABx => {
            push_str(&mut h, ", ");
            push_int_padded(&mut h, bx as i64, 10);
        },
        OpType::AsBx => {
            push_str(&mut h, ", ");
            push_int_padded(&mut h, sbx as i64, 10);
        },
    }
    let ghost operands = match t {
        OpType::Abc => ", "@ + pad_start(int_text(b as int), 4) + ", "@ + pad_start(int_text(c as int), 4),
        OpType::ABx => ", "@ + pad_start(int_text(bx as int), 10),
        OpType::AsBx => ", "@ + pad_start(int_text(sbx as int), 10),
    };
    assert(h@ =~= head + operands);
    let mut r = String::new();
    push_padded_end(&mut r, &h, 36);
    assert(r@ =~= columns(name@, t, a as int, b as int, c as int, bx as int, sbx as int));
    r
}

/// The listing line of an instruction word. A native call shows the name of
/// its function, looked up by index in `natives`, the table of native
/// functions the program runs with.
pub fn to_string(inst: Instruction, natives: &Vec<String>) -> (r: String)
    ensures
        r@ == listing(inst, natives@),
{
    let op = get_opcode(inst);
    if op > OP_NOP {
        return "##### !INVALID OPCODE!".to_owned();
    }
    let prop = op_prop(op);
    let arga = get_arga(inst);
    let argb = get_argb(inst);
    let argc = get_argc(inst);
    let argbx = get_argbx(inst);
    let argsbx = get_argsbx(inst);
    let mut out = column_text(prop.name, prop.typ, arga, argb, argc, argbx, argsbx);
    let native = if 0 <= arga && (arga as usize) < natives.len() {
        natives[arga as usize].clone()
    } else {
        "UNABLE TO GET FUNCTION!".to_owned()
    };
    push_description(&mut out, op, arga, argb, argc, argbx, &native);
    out
}

/// Every opcode's table name is the name of its constant: `OP_INT_GT` is
/// named "OP_INT_GT", and so on for all of them.
pub proof fn law_opcode_names()
    ensures
        spec_op_name(OP_MOVE as int) == "OP_MOVE"@,
        spec_op_name(OP_LOADCONST as int) == "OP_LOADCONST"@,
        spec_op_name(OP_LOADBOOL as int) == "OP_LOADBOOL"@,
        spec_op_name(OP_LOADNULL as int) == "OP_LOADNULL"@,
        spec_op_name(OP_INT_ADD as int) == "OP_INT_ADD"@,
        spec_op_name(OP_INT_SUB as int) == "OP_INT_SUB"@,
        spec_op_name(OP_INT_MUL as int) == "OP_INT_MUL"@,
        spec_op_name(OP_INT_DIV as int) == "OP_INT_DIV"@,
        spec_op_name(OP_INT_MOD as int) == "OP_INT_MOD"@,
        spec_op_name(OP_INT_POW as int) == "OP_INT_POW"@,
        spec_op_name(OP_LOGICAL_NOT as int) == "OP_LOGICAL_NOT"@,
        spec_op_name(OP_LOGICAL_AND as int) == "OP_LOGICAL_AND"@,
        spec_op_name(OP_LOGICAL_OR as int) == "OP_LOGICAL_OR"@,
        spec_op_name(OP_INT_EQ as int) == "OP_INT_EQ"@,
        spec_op_name(OP_INT_NE as int) == "OP_INT_NE"@,
        spec_op_name(OP_INT_LT as int) == "OP_INT_LT"@,
        spec_op_name(OP_INT_LE as int) == "OP_INT_LE"@,
        spec_op_name(OP_INT_GT as int) == "OP_INT_GT"@,
        spec_op_name(OP_INT_GE as int) == "OP_INT_GE"@,
        spec_op_name(OP_JUMP as int) == "OP_JUMP"@,
        spec_op_name(OP_JUMP_IF_TRUE as int) == "OP_JUMP_IF_TRUE"@,
        spec_op_name(OP_JUMP_IF_FALSE as int) == "OP_JUMP_IF_FALSE"@,
        spec_op_name(OP_CALL as int) == "OP_CALL"@,
        spec_op_name(OP_NATIVE_CALL as int) == "OP_NATIVE_CALL"@,
        spec_op_name(OP_QFFI_CALL as int) == "OP_QFFI_CALL"@,
        spec_op_name(OP_TAILCALL as int) == "OP_TAILCALL"@,
        spec_op_name(OP_RETURN as int) == "OP_RETURN"@,
        spec_op_name(OP_INT_INC as int) == "OP_INT_INC"@,
        spec_op_name(OP_INT_DEC as int) == "OP_INT_DEC"@,
        spec_op_name(OP_INT_BITAND as int) == "OP_INT_BITAND"@,
        spec_op_name(OP_INT_BITOR as int) == "OP_INT_BITOR"@,
        spec_op_name(OP_INT_BITXOR as int) == "OP_INT_BITXOR"@,
        spec_op_name(OP_INT_SHL as int) == "OP_INT_SHL"@,
        spec_op_name(OP_INT_SHR as int) == "OP_INT_SHR"@,
        spec_op_name(OP_CONCAT as int) == "OP_CONCAT"@,
        spec_op_name(OP_DROP_STRING as int) == "OP_DROP_STRING"@,
        spec_op_name(OP_EXIT as int) == "OP_EXIT"@,
        spec_op_name(OP_CLONE as int) == "OP_CLONE"@,
        spec_op_name(OP_BITNOT as int) == "OP_BITNOT"@,
        spec_op_name(OP_FLOAT_ADD as int) == "OP_FLOAT_ADD"@,
        spec_op_name(OP_FLOAT_SUB as int) == "OP_FLOAT_SUB"@,
        spec_op_name(OP_FLOAT_MUL as int) == "OP_FLOAT_MUL"@,
        spec_op_name(OP_FLOAT_DIV as int) == "OP_FLOAT_DIV"@,
        spec_op_name(OP_FLOAT_POW as int) == "OP_FLOAT_POW"@,
        spec_op_name(OP_FLOAT_EQ as int) == "OP_FLOAT_EQ"@,
        spec_op_name(OP_FLOAT_NE as int) == "OP_FLOAT_NE"@,
        spec_op_name(OP_FLOAT_LT as int) == "OP_FLOAT_LT"@,
        spec_op_name(OP_FLOAT_LE as int) == "OP_FLOAT_LE"@,
        spec_op_name(OP_FLOAT_GT as int) == "OP_FLOAT_GT"@,
        spec_op_name(OP_FLOAT_GE as int) == "OP_FLOAT_GE"@,
        spec_op_name(OP_FLOAT_INC as int) == "OP_FLOAT_INC"@,
        spec_op_name(OP_FLOAT_DEC as int) == "OP_FLOAT_DEC"@,
        spec_op_name(OP_FLOAT_NEG as int) == "OP_FLOAT_NEG"@,
        spec_op_name(OP_INT_NEG as int) == "OP_INT_NEG"@,
        spec_op_name(OP_INT_TO_FLOAT as int) == "OP_INT_TO_FLOAT"@,
        spec_op_name(OP_FLOAT_TO_INT as int) == "OP_FLOAT_TO_INT"@,
        spec_op_name(OP_FLOAT_POSITIVE as int) == "OP_FLOAT_POSITIVE"@,
        spec_op_name(OP_INT_POSITIVE as int) == "OP_INT_POSITIVE"@,
        spec_op_name(OP_FLOAT_MOD as int) == "OP_FLOAT_MOD"@,
        spec_op_name(OP_INT_TO_STRING as int) == "OP_INT_TO_STRING"@,
        spec_op_name(OP_FLOAT_TO_STRING as int) == "OP_FLOAT_TO_STRING"@,
        spec_op_name(OP_DROP_ARRAY as int) == "OP_DROP_ARRAY"@,
        spec_op_name(OP_DROP_RANGE as int) == "OP_DROP_RANGE"@,
        spec_op_name(OP_MOVE_2X as int) == "OP_MOVE_2X"@,
        spec_op_name(OP_MOVE_4X as int) == "OP_MOVE_4X"@,
        spec_op_name(OP_MOVE_8X as int) == "OP_MOVE_8X"@,
        spec_op_name(OP_MOVE_16X as int) == "OP_MOVE_16X"@,
        spec_op_name(OP_NOP as int) == "OP_NOP"@,
{
}

/// The text a listing line puts between the two operands of an integer
/// arithmetic instruction: the operation it performs.
pub open spec fn arithmetic_text(op: int) -> Seq<char> {
    if op == 4 {
        " + "@
    } else if op == 5 {
        " - "@
    } else if op == 6 {
        " * "@
    } else if op == 7 {
        " / "@
    } else if op == 8 {
        " % "@
    } else {
        " ^ "@
    }
}

/// The listing line of an integer arithmetic instruction (`INT_ADD` to
/// `INT_POW`, opcodes 4 to 9): its columns, then register A assigned operand
/// B combined with operand C by the instruction's own operation.
pub proof fn law_arithmetic_listings(inst: u32, natives: Seq<String>)
    requires
        4 <= spec_get_opcode(inst) <= 9,
    ensures
        ({
            let op = spec_get_opcode(inst);
            let (a, b, c) = (spec_get_arga(inst), spec_get_argb(inst), spec_get_argc(inst));
            let cols = columns(spec_op_name(op), OpType::Abc, a, b, c, spec_get_argbx(inst), spec_get_argsbx(inst));
            listing(inst, natives) == cols + (" | R("@ + int_text(a) + ") := "@ + rk_text(b) + arithmetic_text(op) + rk_text(c))
        }),
{
    let op = spec_get_opcode(inst);
    let (a, b, c) = (spec_get_arga(inst), spec_get_argb(inst), spec_get_argc(inst));
    let cols = columns(spec_op_name(op), OpType::Abc, a, b, c, spec_get_argbx(inst), spec_get_argsbx(inst));
    assert(listing(inst, natives) =~= cols + (" | R("@ + int_text(a) + ") := "@ + rk_text(b) + arithmetic_text(op) + rk_text(c)));
}

/// The text a listing line puts between the two operands of an integer
/// comparison: the comparison the instruction performs.
pub open spec fn comparison_text(op: int) -> Seq<char> {
    if op == 13 {
        " == "@
    } else if op == 14 {
        " != "@
    } else if op == 15 {
        " < "@
    } else if op == 16 {
        " <= "@
    } else if op == 17 {
        " > "@
    } else {
        " >= "@
    }
}

/// The listing line of an integer comparison (`INT_EQ` to `INT_GE`, opcodes
/// 13 to 18): its columns, then register A being set from operand B compared
/// with operand C by the instruction's own comparison. `INT_NE` is written
/// as an assignment, the others as a parenthesized test.
pub proof fn law_comparison_listings(inst: u32, natives: Seq<String>)
    requires
        13 <= spec_get_opcode(inst) <= 18,
    ensures
        ({
            let op = spec_get_opcode(inst);
            let (a, b, c) = (spec_get_arga(inst), spec_get_argb(inst), spec_get_argc(inst));
            let cols = columns(spec_op_name(op), OpType::Abc, a, b, c, spec_get_argbx(inst), spec_get_argsbx(inst));
            listing(inst, natives) == if op == 14 {
                cols + (" | R("@ + int_text(a) + ") := "@ + rk_text(b) + comparison_text(op) + rk_text(c))
            } else {
                cols + (" | R("@ + int_text(a) + ") = ("@ + rk_text(b) + comparison_text(op) + rk_text(c) + ")"@)
            }
        }),
{
    let op = spec_get_opcode(inst);
    let (a, b, c) = (spec_get_arga(inst), spec_get_argb(inst), spec_get_argc(inst));
    let cols = columns(spec_op_name(op), OpType::Abc, a, b, c, spec_get_argbx(inst), spec_get_argsbx(inst));
    let l = listing(inst, natives);
    if op == 14 {
        assert(l =~= cols + (" | R("@ + int_text(a) + ") := "@ + rk_text(b) + comparison_text(op) + rk_text(c)));
    } else {
        assert(l =~= cols + (" | R("@ + int_text(a) + ") = ("@ + rk_text(b) + comparison_text(op) + rk_text(c) + ")"@));
    }
}

/// Every instruction word has a listing line, and it begins with the name of
/// the word's opcode: the opcode field holds at most 63, so no word is
/// listed as an invalid opcode.
pub proof fn law_listing_starts_with_name(inst: u32, natives: Seq<String>)
    ensures
        0 <= spec_get_opcode(inst) < 64,
        listing(inst, natives).len() >= spec_op_name(spec_get_opcode(inst)).len(),
        listing(inst, natives).take(spec_op_name(spec_get_opcode(inst)).len() as int)
            == spec_op_name(spec_get_opcode(inst)),
{
    assert((inst >> 26u32) < 64u32) by (bit_vector);
    let op = spec_get_opcode(inst);
    let name = spec_op_name(op);
    let a = spec_get_arga(inst);
    let cols = columns(name, spec_op_prop(op).typ, a, spec_get_argb(inst), spec_get_argc(inst),
        spec_get_argbx(inst), spec_get_argsbx(inst));
    lemma_describe_keeps_columns(cols, op, a, spec_get_argb(inst), spec_get_argc(inst), spec_get_argbx(inst), native_text(a, natives));
    assert(cols.take(name.len() as int) =~= name);
    let l = listing(inst, natives);
    assert(l.take(name.len() as int) =~= cols.take(cols.len() as int).take(name.len() as int));
    assert(l.take(name.len() as int) =~= name);
}

} // verus!
