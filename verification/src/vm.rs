//! The register-based virtual machine: the shared program state (`VM`) and
//! the state of one thread of execution (`VMThread`), with the semantics of
//! every instruction.
//!
//! `VMThread::step` executes one instruction. Floating point, heap strings,
//! native functions and aborts are work for the host: for those the step
//! returns a `HostRequest` that says exactly what is to be done, having
//! already read the operands and reported any error that comes first.
use vstd::prelude::*;
use crate::bytecode::{ByteCode, TaggedConstantValue};
use crate::instructions::{
    Instruction, OpCode, get_arga, get_argb, get_argbx, get_argc, get_opcode, is_k, rk_to_k,
    spec_get_arga, spec_get_argb, spec_get_argbx, spec_get_argc, spec_get_opcode, spec_is_k,
    spec_rk_to_k,
};
use crate::register_val::{RegisterVal, bool_of, int_of};
use crate::text::{pad_start, push_int_padded, push_str, int_text};

verus! {

/// Runtime errors of a thread.
#[derive(Debug, Clone, Copy, PartialEq, Eq, Structural)]
pub enum VMRuntimeError {
    InvalidRegisterAccess(usize),
    InvalidConstantAccess(usize),
    InvalidOpcode(i32, usize),
    StackOverflow,
    StackUnderflow,
    DivideByZero,
    Exit(i32),
    InvalidThreadId(usize),
    ThreadJoinError(usize),
    InvalidPointer,
    InvalidNativeFunction(usize),
}

/// Why executing an instruction must abort the process.
#[derive(Debug, Clone, Copy, PartialEq, Eq, Structural)]
pub enum PanicReason {
    /// The opcode has no implementation.
    Unimplemented(OpCode),
    /// A call names a function that does not exist.
    InvalidFunctionIndex(i32),
    /// An index or address computation overflowed.
    ArithmeticOverflow,
    /// A register range reaches past the register file.
    IndexOutOfBounds,
    /// A remainder by zero.
    RemainderByZero,
    /// A shift by a negative amount or by 64 or more.
    ShiftOutOfRange(i64),
    /// A negative argument count.
    CapacityOverflow,
}

#[derive(Debug, Clone, Copy, PartialEq, Eq, Structural)]
pub enum IntOp {
    Add,
    Sub,
    Mul,
    Div,
    Mod,
    Pow,
}

#[derive(Debug, Clone, Copy, PartialEq, Eq, Structural)]
pub enum BitOp {
    And,
    Or,
    Xor,
    Shl,
    Shr,
}

#[derive(Debug, Clone, Copy, PartialEq, Eq, Structural)]
pub enum Comparison {
    Eq,
    Ne,
    Lt,
    Le,
    Gt,
    Ge,
}

#[derive(Debug, Clone, Copy, PartialEq, Eq, Structural)]
pub enum FloatOp {
    Add,
    Sub,
    Mul,
    Div,
    Pow,
    Mod,
}

/// Work that an instruction hands to the host, with its operands read.
#[allow(inconsistent_fields)]
/// `dest` is a register of the current frame, to be written with
/// `VMThread::set_register`.
#[derive(Debug, Clone, Copy, PartialEq, Eq, Structural)]
pub enum HostRequest {
    /// `dest := lhs op rhs` on floats; division by zero is `DivideByZero`.
    FloatBinary { op: FloatOp, dest: usize, lhs: RegisterVal, rhs: RegisterVal },
    /// `dest :=` whether `lhs` and `rhs` (floats) compare as `op` says.
    FloatCompare { op: Comparison, dest: usize, lhs: RegisterVal, rhs: RegisterVal },
    /// `dest := value + 1.0` (or `- 1.0` when not `increment`).
    FloatStep { dest: usize, value: RegisterVal, increment: bool },
    IntToFloat { dest: usize, value: RegisterVal },
    FloatToInt { dest: usize, value: RegisterVal },
    IntToString { dest: usize, value: RegisterVal },
    FloatToString { dest: usize, value: RegisterVal },
    /// `dest :=` a new string, the two strings pointed at joined.
    Concat { dest: usize, lhs: RegisterVal, rhs: RegisterVal },
    /// Free the string pointed at.
    DropString { value: RegisterVal },
    /// Free the array pointed at.
    DropArray { value: RegisterVal },
    /// `dest :=` native function `function` applied to registers
    /// `first_arg .. first_arg + arg_count` (absolute indices).
    NativeCall { function: usize, first_arg: usize, arg_count: usize, dest: usize },
    /// Abort the process.
    Panic(PanicReason),
}

/// What one executed instruction leaves to do.
#[derive(Debug, Clone, Copy, PartialEq, Eq, Structural)]
pub enum StepOutcome {
    Continue,
    Host(HostRequest),
}

/// Why an instruction stopped early: a runtime error, or an abort.
#[derive(Debug, Clone, Copy, PartialEq, Eq, Structural)]
pub enum Stop {
    Error(VMRuntimeError),
    Panic(PanicReason),
}

/// A frame of the call stack.
#[derive(Debug, Clone, Copy, PartialEq, Eq, Structural)]
pub struct CallFrame {
    /// The instruction to return to.
    pub return_pc: u32,
    /// The register where the frame's registers begin.
    pub base: u32,
}

/// Number of registers of a thread.
pub const REGISTER_COUNT: usize = 20000;

/// Number of call frames a thread can hold.
pub const CALL_STACK_SIZE: usize = 30000;

/// The program state that all threads share.
#[derive(Debug)]
pub struct VM {
    pub constant_pool: Vec<RegisterVal>,
    /// The constants that point to strings owned by the program.
    pub constant_ptrs: Vec<RegisterVal>,
    pub function_indexes: Vec<usize>,
    pub instructions: Vec<Instruction>,
}

/// One thread of execution.
pub struct VMThread {
    pub thread_id: usize,
    pub program_counter: usize,
    pub registers: Vec<RegisterVal>,
    pub call_stack: Vec<CallFrame>,
    pub call_stack_pointer: usize,
}

/// The state of a thread: program counter, registers, call stack and its height.
pub struct ThreadModel {
    pub pc: int,
    pub regs: Seq<RegisterVal>,
    pub stack: Seq<CallFrame>,
    pub sp: int,
}

// ---------------------------------------------------------------------------
// Semantics
// ---------------------------------------------------------------------------

pub open spec fn int_val(i: i64) -> RegisterVal {
    RegisterVal { bits: i as u64 }
}

pub open spec fn bool_val(b: bool) -> RegisterVal {
    RegisterVal { bits: if b { 1u64 } else { 0u64 } }
}

pub open spec fn null_val() -> RegisterVal {
    RegisterVal { bits: 0u64 }
}

/// The base register of the current frame (0 when no call is active).
pub open spec fn offset_of(t: ThreadModel) -> int {
    if t.sp == 0 {
        0
    } else {
        t.stack[t.sp - 1].base as int
    }
}

/// Writing register `reg` of the current frame: register `reg + offset`.
pub open spec fn set_reg(t: ThreadModel, reg: usize, val: RegisterVal) -> Result<ThreadModel, Stop> {
    let i = reg + offset_of(t);
    if i > usize::MAX {
        Err(Stop::Panic(PanicReason::ArithmeticOverflow))
    } else if i >= t.regs.len() {
        Err(Stop::Error(VMRuntimeError::InvalidRegisterAccess(i as usize)))
    } else {
        Ok(ThreadModel { regs: t.regs.update(i, val), ..t })
    }
}

/// Pushing a frame: `StackOverflow` when the stack is full.
pub open spec fn push_frame(t: ThreadModel, f: CallFrame) -> (ThreadModel, Result<(), VMRuntimeError>) {
    if t.sp >= t.stack.len() {
        (t, Err(VMRuntimeError::StackOverflow))
    } else {
        (ThreadModel { stack: t.stack.update(t.sp, f), sp: t.sp + 1, ..t }, Ok(()))
    }
}

/// Popping the top frame: `StackUnderflow` when no call is active.
pub open spec fn pop_frame(t: ThreadModel) -> (ThreadModel, Result<CallFrame, VMRuntimeError>) {
    if t.sp == 0 {
        (t, Err(VMRuntimeError::StackUnderflow))
    } else {
        (ThreadModel { sp: t.sp - 1, ..t }, Ok(t.stack[t.sp - 1]))
    }
}

/// Reading register `reg + off`.
pub open spec fn get_reg(t: ThreadModel, reg: usize, off: int) -> Result<RegisterVal, Stop> {
    let i = reg + off;
    if i > usize::MAX {
        Err(Stop::Panic(PanicReason::ArithmeticOverflow))
    } else if i >= t.regs.len() {
        Err(Stop::Error(VMRuntimeError::InvalidRegisterAccess(i as usize)))
    } else {
        Ok(t.regs[i])
    }
}

/// Reading constant `idx`.
pub open spec fn get_const(vm: VM, idx: usize) -> Result<RegisterVal, Stop> {
    if idx < vm.constant_pool@.len() {
        Ok(vm.constant_pool@[idx as int])
    } else {
        Err(Stop::Error(VMRuntimeError::InvalidConstantAccess(idx)))
    }
}

/// Reading an RK operand: a constant when it is marked so, a register otherwise.
pub open spec fn fetch_rk(vm: VM, t: ThreadModel, arg: i32, off: int) -> Result<RegisterVal, Stop> {
    if spec_is_k(arg) {
        get_const(vm, spec_rk_to_k(arg) as usize)
    } else {
        get_reg(t, arg as usize, off)
    }
}

pub open spec fn arg_a(inst: u32) -> i32 {
    spec_get_arga(inst) as i32
}

pub open spec fn arg_b(inst: u32) -> i32 {
    spec_get_argb(inst) as i32
}

pub open spec fn arg_c(inst: u32) -> i32 {
    spec_get_argc(inst) as i32
}

pub open spec fn arg_bx(inst: u32) -> i32 {
    spec_get_argbx(inst) as i32
}

/// The effect of writing `val` to register `reg` and continuing.
pub open spec fn write(t: ThreadModel, reg: usize, val: RegisterVal) -> (ThreadModel, Result<StepOutcome, Stop>) {
    match set_reg(t, reg, val) {
        Ok(t2) => (t2, Ok(StepOutcome::Continue)),
        Err(s) => (t, Err(s)),
    }
}

/// Division rounding toward zero.
pub open spec fn trunc_div(x: int, y: int) -> int {
    let q = (if x < 0 { -x } else { x }) / (if y < 0 { -y } else { y });
    if (x < 0) == (y < 0) {
        q
    } else {
        -q
    }
}

/// The remainder of `trunc_div`, with the sign of `x`.
pub open spec fn trunc_rem(x: int, y: int) -> int {
    x - y * trunc_div(x, y)
}

/// `x` raised to `e`.
pub open spec fn power(x: int, e: nat) -> int
    decreases e,
{
    if e == 0 {
        1
    } else {
        x * power(x, (e - 1) as nat)
    }
}

/// std's `i64::wrapping_div`: the quotient rounded toward zero, wrapped into `i64`.
#[verifier::external_body]
fn i64_wrapping_div(x: i64, y: i64) -> (r: i64)
    requires
        y != 0,
    ensures
        r == trunc_div(x as int, y as int) as i64,
{
    x.wrapping_div(y)
}

/// std's `i64::wrapping_rem`: the remainder of division rounding toward
/// zero, wrapped into `i64`.
#[verifier::external_body]
fn i64_wrapping_rem(x: i64, y: i64) -> (r: i64)
    requires
        y != 0,
    ensures
        r == trunc_rem(x as int, y as int) as i64,
{
    x.wrapping_rem(y)
}

/// std's `i64::wrapping_pow`: `x` to the power `e`, wrapped into `i64`.
#[verifier::external_body]
fn i64_wrapping_pow(x: i64, e: u32) -> (r: i64)
    ensures
        r == power(x as int, e as nat) as i64,
{
    x.wrapping_pow(e)
}

/// Integer arithmetic: wrapping; division by zero is an error, remainder by zero an abort.
pub open spec fn int_op_value(op: IntOp, x: i64, y: i64) -> Result<i64, Stop> {
    match op {
        IntOp::Add => Ok(vstd::wrapping::i64_specs::wrapping_add(x, y)),
        IntOp::Sub => Ok(vstd::wrapping::i64_specs::wrapping_sub(x, y)),
        IntOp::Mul => Ok(vstd::wrapping::i64_specs::wrapping_mul(x, y)),
        IntOp::Div => if y == 0 {
            Err(Stop::Error(VMRuntimeError::DivideByZero))
        } else {
            Ok(trunc_div(x as int, y as int) as i64)
        },
        IntOp::Mod => if y == 0 {
            Err(Stop::Panic(PanicReason::RemainderByZero))
        } else {
            Ok(trunc_rem(x as int, y as int) as i64)
        },
        IntOp::Pow => Ok(power(x as int, (y as u32) as nat) as i64),
    }
}

/// Bitwise operations; a shift by a negative amount or by 64 or more aborts.
pub open spec fn bit_op_value(op: BitOp, x: i64, y: i64) -> Result<i64, Stop> {
    match op {
        BitOp::And => Ok(x & y),
        BitOp::Or => Ok(x | y),
        BitOp::Xor => Ok(x ^ y),
        BitOp::Shl => if 0 <= y < 64 {
            Ok(x << y)
        } else {
            Err(Stop::Panic(PanicReason::ShiftOutOfRange(y)))
        },
        BitOp::Shr => if 0 <= y < 64 {
            Ok(x >> y)
        } else {
            Err(Stop::Panic(PanicReason::ShiftOutOfRange(y)))
        },
    }
}

pub open spec fn compare(op: Comparison, x: i64, y: i64) -> bool {
    match op {
        Comparison::Eq => x == y,
        Comparison::Ne => x != y,
        Comparison::Lt => x < y,
        Comparison::Le => x <= y,
        Comparison::Gt => x > y,
        Comparison::Ge => x >= y,
    }
}

/// Reading both RK operands B and C, B first; `k` says what to do with them.
pub open spec fn with_bc(
    vm: VM,
    t: ThreadModel,
    inst: u32,
    k: spec_fn(RegisterVal, RegisterVal) -> (ThreadModel, Result<StepOutcome, Stop>),
) -> (ThreadModel, Result<StepOutcome, Stop>) {
    let off = offset_of(t);
    match fetch_rk(vm, t, arg_b(inst), off) {
        Err(s) => (t, Err(s)),
        Ok(bv) => match fetch_rk(vm, t, arg_c(inst), off) {
            Err(s) => (t, Err(s)),
            Ok(cv) => k(bv, cv),
        },
    }
}

/// Reading RK operand B; `k` says what to do with it.
pub open spec fn with_b(
    vm: VM,
    t: ThreadModel,
    inst: u32,
    k: spec_fn(RegisterVal) -> (ThreadModel, Result<StepOutcome, Stop>),
) -> (ThreadModel, Result<StepOutcome, Stop>) {
    match fetch_rk(vm, t, arg_b(inst), offset_of(t)) {
        Err(s) => (t, Err(s)),
        Ok(bv) => k(bv),
    }
}

pub open spec fn host(t: ThreadModel, r: HostRequest) -> (ThreadModel, Result<StepOutcome, Stop>) {
    (t, Ok(StepOutcome::Host(r)))
}

pub open spec fn sem_move(t: ThreadModel, inst: u32) -> (ThreadModel, Result<StepOutcome, Stop>) {
    match get_reg(t, arg_b(inst) as usize, offset_of(t)) {
        Err(s) => (t, Err(s)),
        Ok(v) => write(t, arg_a(inst) as usize, v),
    }
}

pub open spec fn sem_loadconst(vm: VM, t: ThreadModel, inst: u32) -> (ThreadModel, Result<StepOutcome, Stop>) {
    match get_const(vm, arg_bx(inst) as usize) {
        Err(s) => (t, Err(s)),
        Ok(v) => write(t, arg_a(inst) as usize, v),
    }
}

pub open spec fn sem_loadbool(t: ThreadModel, inst: u32) -> (ThreadModel, Result<StepOutcome, Stop>) {
    match set_reg(t, arg_a(inst) as usize, bool_val(arg_b(inst) != 0)) {
        Err(s) => (t, Err(s)),
        Ok(t2) => (
            if arg_c(inst) != 0 {
                ThreadModel { pc: t2.pc + 1, ..t2 }
            } else {
                t2
            },
            Ok(StepOutcome::Continue),
        ),
    }
}

/// Writing null to registers `i ..= end` in turn, stopping at the first failure.
pub open spec fn loadnull_from(t: ThreadModel, i: int, end: int) -> (ThreadModel, Result<StepOutcome, Stop>)
    decreases end + 1 - i,
{
    if i > end {
        (t, Ok(StepOutcome::Continue))
    } else {
        match set_reg(t, i as usize, null_val()) {
            Err(s) => (t, Err(s)),
            Ok(t2) => if i == end {
                (t2, Ok(StepOutcome::Continue))
            } else {
                loadnull_from(t2, i + 1, end)
            },
        }
    }
}

pub open spec fn sem_loadnull(t: ThreadModel, inst: u32) -> (ThreadModel, Result<StepOutcome, Stop>) {
    loadnull_from(t, (arg_a(inst) as usize) as int, (arg_b(inst) as usize) as int)
}

pub open spec fn sem_int_op(vm: VM, t: ThreadModel, inst: u32, op: IntOp) -> (ThreadModel, Result<StepOutcome, Stop>) {
    with_bc(vm, t, inst, |bv: RegisterVal, cv: RegisterVal|
        match int_op_value(op, int_of(bv), int_of(cv)) {
            Err(s) => (t, Err(s)),
            Ok(r) => write(t, arg_a(inst) as usize, int_val(r)),
        })
}

pub open spec fn sem_bit_op(vm: VM, t: ThreadModel, inst: u32, op: BitOp) -> (ThreadModel, Result<StepOutcome, Stop>) {
    with_bc(vm, t, inst, |bv: RegisterVal, cv: RegisterVal|
        match bit_op_value(op, int_of(bv), int_of(cv)) {
            Err(s) => (t, Err(s)),
            Ok(r) => write(t, arg_a(inst) as usize, int_val(r)),
        })
}

pub open spec fn sem_int_compare(vm: VM, t: ThreadModel, inst: u32, op: Comparison) -> (ThreadModel, Result<StepOutcome, Stop>) {
    with_bc(vm, t, inst, |bv: RegisterVal, cv: RegisterVal|
        write(t, arg_a(inst) as usize, bool_val(compare(op, int_of(bv), int_of(cv)))))
}

pub open spec fn sem_logical_not(vm: VM, t: ThreadModel, inst: u32) -> (ThreadModel, Result<StepOutcome, Stop>) {
    with_b(vm, t, inst, |bv: RegisterVal| write(t, arg_a(inst) as usize, bool_val(!bool_of(bv))))
}

pub open spec fn sem_logical(vm: VM, t: ThreadModel, inst: u32, and: bool) -> (ThreadModel, Result<StepOutcome, Stop>) {
    with_bc(vm, t, inst, |bv: RegisterVal, cv: RegisterVal|
        write(
            t,
            arg_a(inst) as usize,
            bool_val(if and { bool_of(bv) && bool_of(cv) } else { bool_of(bv) || bool_of(cv) }),
        ))
}

pub open spec fn sem_jump(t: ThreadModel, inst: u32) -> (ThreadModel, Result<StepOutcome, Stop>) {
    (ThreadModel { pc: (arg_bx(inst) as usize) as int, ..t }, Ok(StepOutcome::Continue))
}

pub open spec fn sem_jump_if(t: ThreadModel, inst: u32, when: bool) -> (ThreadModel, Result<StepOutcome, Stop>) {
    match get_reg(t, arg_a(inst) as usize, offset_of(t)) {
        Err(s) => (t, Err(s)),
        Ok(v) => if bool_of(v) == when {
            (ThreadModel { pc: (arg_bx(inst) as usize) as int, ..t }, Ok(StepOutcome::Continue))
        } else {
            (t, Ok(StepOutcome::Continue))
        },
    }
}

/// A call: push a frame returning to the current instruction, whose base
/// is C plus the current base, then jump to the start of function A.
pub open spec fn sem_call(vm: VM, t: ThreadModel, inst: u32) -> (ThreadModel, Result<StepOutcome, Stop>) {
    let base = (arg_c(inst) as u32) as int + (offset_of(t) as u32) as int;
    if base > u32::MAX {
        (t, Err(Stop::Panic(PanicReason::ArithmeticOverflow)))
    } else if t.sp >= t.stack.len() {
        (t, Err(Stop::Error(VMRuntimeError::StackOverflow)))
    } else {
        let frame = CallFrame { return_pc: t.pc as u32, base: base as u32 };
        let t2 = ThreadModel { stack: t.stack.update(t.sp, frame), sp: t.sp + 1, ..t };
        let f = arg_a(inst) as usize;
        if f < vm.function_indexes@.len() {
            (ThreadModel { pc: vm.function_indexes@[f as int] as int, ..t2 }, Ok(StepOutcome::Continue))
        } else {
            (t2, Err(Stop::Panic(PanicReason::InvalidFunctionIndex(arg_a(inst)))))
        }
    }
}

/// A native call: the arguments are registers `C+1 ..= C+B` of the current
/// frame and the result goes to register C.
pub open spec fn sem_native_call(t: ThreadModel, inst: u32) -> (ThreadModel, Result<StepOutcome, Stop>) {
    let (a, b, c) = (arg_a(inst), arg_b(inst), arg_c(inst));
    let off = offset_of(t);
    if c < 0 {
        (t, Err(Stop::Panic(PanicReason::CapacityOverflow)))
    } else {
        let start = c + off + 1;
        let end = ((c + b) as usize) as int + off;
        if start > usize::MAX || end > usize::MAX {
            (t, Err(Stop::Panic(PanicReason::ArithmeticOverflow)))
        } else if start <= end && end >= t.regs.len() {
            (t, Err(Stop::Panic(PanicReason::IndexOutOfBounds)))
        } else {
            host(
                t,
                HostRequest::NativeCall {
                    function: a as usize,
                    first_arg: start as usize,
                    arg_count: if start <= end { (end - start + 1) as usize } else { 0 },
                    dest: c as usize,
                },
            )
        }
    }
}

pub open spec fn sem_return(t: ThreadModel) -> (ThreadModel, Result<StepOutcome, Stop>) {
    if t.sp == 0 {
        (t, Err(Stop::Error(VMRuntimeError::StackUnderflow)))
    } else {
        (
            ThreadModel { pc: t.stack[t.sp - 1].return_pc as int, sp: t.sp - 1, ..t },
            Ok(StepOutcome::Continue),
        )
    }
}

/// Increment and decrement read the constant numbered A and write register A.
pub open spec fn sem_int_step(vm: VM, t: ThreadModel, inst: u32, increment: bool) -> (ThreadModel, Result<StepOutcome, Stop>) {
    match get_const(vm, arg_a(inst) as usize) {
        Err(s) => (t, Err(s)),
        Ok(v) => write(
            t,
            arg_a(inst) as usize,
            int_val(
                if increment {
                    vstd::wrapping::i64_specs::wrapping_add(int_of(v), 1)
                } else {
                    vstd::wrapping::i64_specs::wrapping_sub(int_of(v), 1)
                },
            ),
        ),
    }
}

pub open spec fn sem_float_step(vm: VM, t: ThreadModel, inst: u32, increment: bool) -> (ThreadModel, Result<StepOutcome, Stop>) {
    match get_const(vm, arg_a(inst) as usize) {
        Err(s) => (t, Err(s)),
        Ok(v) => host(t, HostRequest::FloatStep { dest: arg_a(inst) as usize, value: v, increment }),
    }
}

pub open spec fn sem_drop_string(vm: VM, t: ThreadModel, inst: u32) -> (ThreadModel, Result<StepOutcome, Stop>) {
    match get_reg(t, arg_a(inst) as usize, offset_of(t)) {
        Err(s) => (t, Err(s)),
        Ok(v) => if vm.constant_ptrs@.contains(v) {
            (t, Ok(StepOutcome::Continue))
        } else {
            host(t, HostRequest::DropString { value: v })
        },
    }
}

pub open spec fn sem_drop_array(t: ThreadModel, inst: u32) -> (ThreadModel, Result<StepOutcome, Stop>) {
    match get_reg(t, arg_a(inst) as usize, 0) {
        Err(s) => (t, Err(s)),
        Ok(v) => host(t, HostRequest::DropArray { value: v }),
    }
}

/// Reading `count` registers from `base + off`. The last register of the file cannot be read this way.
pub open spec fn get_regs(t: ThreadModel, base: usize, count: int, off: int) -> Result<Seq<RegisterVal>, Stop> {
    let s = base + off;
    if s > usize::MAX || s + count > usize::MAX {
        Err(Stop::Panic(PanicReason::ArithmeticOverflow))
    } else if s + count >= t.regs.len() {
        Err(Stop::Error(VMRuntimeError::InvalidRegisterAccess(s as usize)))
    } else {
        Ok(t.regs.subrange(s, s + count))
    }
}

/// Writing `vals` to the registers from `base + off`.
pub open spec fn set_regs(t: ThreadModel, base: usize, vals: Seq<RegisterVal>, off: int) -> Result<ThreadModel, Stop> {
    let s = base + off;
    if s > usize::MAX || s + vals.len() > usize::MAX {
        Err(Stop::Panic(PanicReason::ArithmeticOverflow))
    } else if s + vals.len() >= t.regs.len() {
        Err(Stop::Error(VMRuntimeError::InvalidRegisterAccess(s as usize)))
    } else {
        Ok(ThreadModel {
            regs: t.regs.subrange(0, s) + vals + t.regs.subrange(s + vals.len(), t.regs.len() as int),
            ..t
        })
    }
}

/// Copying `n` consecutive registers from B to A.
pub open spec fn sem_move_n(t: ThreadModel, inst: u32, n: int) -> (ThreadModel, Result<StepOutcome, Stop>) {
    let off = offset_of(t);
    match get_regs(t, arg_b(inst) as usize, n, off) {
        Err(s) => (t, Err(s)),
        Ok(vals) => match set_regs(t, arg_a(inst) as usize, vals, off) {
            Err(s) => (t, Err(s)),
            Ok(t2) => (t2, Ok(StepOutcome::Continue)),
        },
    }
}

pub open spec fn unimplemented(t: ThreadModel, op: int) -> (ThreadModel, Result<StepOutcome, Stop>) {
    (t, Err(Stop::Panic(PanicReason::Unimplemented(op as i32))))
}

/// What opcode `op` does, once the program counter has moved past its instruction.
pub open spec fn sem_op(vm: VM, t: ThreadModel, inst: u32) -> (ThreadModel, Result<StepOutcome, Stop>) {
    let op = spec_get_opcode(inst);
    let a = arg_a(inst) as usize;
    if op == 0 {
        sem_move(t, inst)
    } else if op == 1 {
        sem_loadconst(vm, t, inst)
    } else if op == 2 {
        sem_loadbool(t, inst)
    } else if op == 3 {
        sem_loadnull(t, inst)
    } else if op == 4 {
        sem_int_op(vm, t, inst, IntOp::Add)
    } else if op == 5 {
        sem_int_op(vm, t, inst, IntOp::Sub)
    } else if op == 6 {
        sem_int_op(vm, t, inst, IntOp::Mul)
    } else if op == 7 {
        sem_int_op(vm, t, inst, IntOp::Div)
    } else if op == 8 {
        sem_int_op(vm, t, inst, IntOp::Mod)
    } else if op == 9 {
        sem_int_op(vm, t, inst, IntOp::Pow)
    } else if op == 10 {
        sem_logical_not(vm, t, inst)
    } else if op == 11 {
        sem_logical(vm, t, inst, true)
    } else if op == 12 {
        sem_logical(vm, t, inst, false)
    } else if op == 13 {
        sem_int_compare(vm, t, inst, Comparison::Eq)
    } else if op == 14 {
        sem_int_compare(vm, t, inst, Comparison::Ne)
    } else if op == 15 {
        sem_int_compare(vm, t, inst, Comparison::Lt)
    } else if op == 16 {
        sem_int_compare(vm, t, inst, Comparison::Le)
    } else if op == 17 {
        sem_int_compare(vm, t, inst, Comparison::Gt)
    } else if op == 18 {
        sem_int_compare(vm, t, inst, Comparison::Ge)
    } else if op == 19 {
        sem_jump(t, inst)
    } else if op == 20 {
        sem_jump_if(t, inst, true)
    } else if op == 21 {
        sem_jump_if(t, inst, false)
    } else if op == 22 {
        sem_call(vm, t, inst)
    } else if op == 23 {
        sem_native_call(t, inst)
    } else if op == 24 || op == 25 {
        unimplemented(t, op)
    } else if op == 26 {
        sem_return(t)
    } else if op == 27 {
        sem_int_step(vm, t, inst, true)
    } else if op == 28 {
        sem_int_step(vm, t, inst, false)
    } else if op == 29 {
        sem_bit_op(vm, t, inst, BitOp::And)
    } else if op == 30 {
        sem_bit_op(vm, t, inst, BitOp::Or)
    } else if op == 31 {
        sem_bit_op(vm, t, inst, BitOp::Xor)
    } else if op == 32 {
        sem_bit_op(vm, t, inst, BitOp::Shl)
    } else if op == 33 {
        sem_bit_op(vm, t, inst, BitOp::Shr)
    } else if op == 34 {
        with_bc(vm, t, inst, |bv: RegisterVal, cv: RegisterVal| host(t, HostRequest::Concat { dest: a, lhs: bv, rhs: cv }))
    } else if op == 35 {
        sem_drop_string(vm, t, inst)
    } else if op == 36 {
        (t, Err(Stop::Error(VMRuntimeError::Exit(arg_a(inst)))))
    } else if op == 37 {
        sem_move(t, inst)
    } else if op == 38 {
        unimplemented(t, op)
    } else if 39 <= op <= 43 || op == 58 {
        let fop = if op == 39 {
            FloatOp::Add
        } else if op == 40 {
            FloatOp::Sub
        } else if op == 41 {
            FloatOp::Mul
        } else if op == 42 {
            FloatOp::Div
        } else if op == 43 {
            FloatOp::Pow
        } else {
            FloatOp::Mod
        };
        with_bc(vm, t, inst, |bv: RegisterVal, cv: RegisterVal| host(t, HostRequest::FloatBinary { op: fop, dest: a, lhs: bv, rhs: cv }))
    } else if 44 <= op <= 49 {
        let kind = if op == 44 {
            Comparison::Eq
        } else if op == 45 {
            Comparison::Ne
        } else if op == 46 {
            Comparison::Lt
        } else if op == 47 {
            Comparison::Le
        } else if op == 48 {
            Comparison::Gt
        } else {
            Comparison::Ge
        };
        with_bc(vm, t, inst, |bv: RegisterVal, cv: RegisterVal| host(t, HostRequest::FloatCompare { op: kind, dest: a, lhs: bv, rhs: cv }))
    } else if op == 50 {
        sem_float_step(vm, t, inst, true)
    } else if op == 51 {
        sem_float_step(vm, t, inst, false)
    } else if op == 52 || op == 53 {
        unimplemented(t, op)
    } else if op == 54 {
        with_b(vm, t, inst, |bv: RegisterVal| host(t, HostRequest::IntToFloat { dest: a, value: bv }))
    } else if op == 55 {
        with_b(vm, t, inst, |bv: RegisterVal| host(t, HostRequest::FloatToInt { dest: a, value: bv }))
    } else if op == 56 || op == 57 {
        unimplemented(t, op)
    } else if op == 59 {
        with_b(vm, t, inst, |bv: RegisterVal| host(t, HostRequest::IntToString { dest: a, value: bv }))
    } else if op == 60 {
        with_b(vm, t, inst, |bv: RegisterVal| host(t, HostRequest::FloatToString { dest: a, value: bv }))
    } else if op == 61 {
        sem_drop_array(t, inst)
    } else if op == 62 {
        unimplemented(t, op)
    } else if op == 63 {
        sem_move_n(t, inst, 2)
    } else if op == 64 {
        sem_move_n(t, inst, 4)
    } else if op == 65 {
        sem_move_n(t, inst, 8)
    } else if op == 66 {
        sem_move_n(t, inst, 16)
    } else {
        (t, Ok(StepOutcome::Continue))
    }
}

/// One step of a thread: fetch the instruction at the program counter,
/// move past it, and execute it. An abort becomes a `Panic` request.
pub open spec fn step_spec(vm: VM, t: ThreadModel) -> (ThreadModel, Result<StepOutcome, VMRuntimeError>) {
    let inst = vm.instructions@[t.pc];
    let t1 = ThreadModel { pc: t.pc + 1, ..t };
    let op = spec_get_opcode(inst);
    if op > 67 {
        (t1, Err(VMRuntimeError::InvalidOpcode(op as i32, (t.pc + 1) as usize)))
    } else {
        let (t2, r) = sem_op(vm, t1, inst);
        (
            t2,
            match r {
                Ok(o) => Ok(o),
                Err(Stop::Error(e)) => Err(e),
                Err(Stop::Panic(p)) => Ok(StepOutcome::Host(HostRequest::Panic(p))),
            },
        )
    }
}


// ---------------------------------------------------------------------------
// Laws
// ---------------------------------------------------------------------------

/// Popping right after a successful push gives back the pushed frame and
/// the stack height from before the push.
pub proof fn law_pop_after_push(t: ThreadModel, f: CallFrame)
    requires
        0 <= t.sp < t.stack.len(),
    ensures
        push_frame(t, f).1 is Ok,
        pop_frame(push_frame(t, f).0).1 == Ok::<CallFrame, VMRuntimeError>(f),
        pop_frame(push_frame(t, f).0).0.sp == t.sp,
        pop_frame(push_frame(t, f).0).0.regs == t.regs,
        pop_frame(push_frame(t, f).0).0.pc == t.pc,
{
}

/// Reading a register right after writing it gives the written value, and
/// the write touches no other register.
pub proof fn law_read_after_write(t: ThreadModel, reg: usize, v: RegisterVal, other: usize)
    requires
        set_reg(t, reg, v) is Ok,
        other != reg,
        0 <= t.sp <= t.stack.len(),
    ensures
        get_reg(set_reg(t, reg, v)->Ok_0, reg, offset_of(t)) == Ok::<RegisterVal, Stop>(v),
        offset_of(set_reg(t, reg, v)->Ok_0) == offset_of(t),
        get_reg(set_reg(t, reg, v)->Ok_0, other, offset_of(t)) == get_reg(t, other, offset_of(t)),
{
}

/// A call followed by a return comes back to the instruction after the
/// call, with the stack height and the registers the return found.
pub proof fn law_return_after_call(vm: VM, t: ThreadModel, inst: u32)
    requires
        0 <= t.sp < t.stack.len(),
        0 <= t.pc <= u32::MAX,
        sem_call(vm, t, inst).1 == Ok::<StepOutcome, Stop>(StepOutcome::Continue),
    ensures
        sem_return(sem_call(vm, t, inst).0).0.pc == t.pc,
        sem_return(sem_call(vm, t, inst).0).0.sp == t.sp,
        sem_return(sem_call(vm, t, inst).0).1 == Ok::<StepOutcome, Stop>(StepOutcome::Continue),
{
}

/// Dropping a string that is one of the program's constants neither frees
/// anything nor changes the thread.
pub proof fn law_constant_strings_are_not_freed(vm: VM, t: ThreadModel, inst: u32)
    requires
        get_reg(t, arg_a(inst) as usize, offset_of(t)) is Ok,
        vm.constant_ptrs@.contains(get_reg(t, arg_a(inst) as usize, offset_of(t))->Ok_0),
    ensures
        sem_drop_string(vm, t, inst) == (t, Ok::<StepOutcome, Stop>(StepOutcome::Continue)),
{
}

/// Division by zero leaves the thread as it was and reports `DivideByZero`.
pub proof fn law_divide_by_zero_changes_nothing(vm: VM, t: ThreadModel, inst: u32)
    requires
        fetch_rk(vm, t, arg_b(inst), offset_of(t)) is Ok,
        fetch_rk(vm, t, arg_c(inst), offset_of(t)) is Ok,
        int_of(fetch_rk(vm, t, arg_c(inst), offset_of(t))->Ok_0) == 0,
    ensures
        sem_int_op(vm, t, inst, IntOp::Div) == (t, Err::<StepOutcome, Stop>(Stop::Error(VMRuntimeError::DivideByZero))),
{
}

/// Whether `t2` has the shape of `t`: same number of registers and frames,
/// and a stack height within the stack.
pub open spec fn same_shape(t: ThreadModel, t2: ThreadModel) -> bool {
    &&& t2.regs.len() == t.regs.len()
    &&& t2.stack.len() == t.stack.len()
    &&& 0 <= t2.sp <= t2.stack.len()
}

proof fn lemma_move_n_shape(t: ThreadModel, inst: u32, n: int)
    requires
        0 <= t.sp <= t.stack.len(),
        n >= 0,
    ensures
        same_shape(t, sem_move_n(t, inst, n).0),
{
    let off = offset_of(t);
    match get_regs(t, arg_b(inst) as usize, n, off) {
        Err(s) => {},
        Ok(vals) => {
            assert(vals.len() == n);
            match set_regs(t, arg_a(inst) as usize, vals, off) {
                Err(s) => {},
                Ok(t2) => {
                    assert(t2.regs.len() == t.regs.len());
                },
            }
        },
    }
}

#[verifier::spinoff_prover]
proof fn lemma_sem_op_shape(vm: VM, t: ThreadModel, inst: u32)
    requires
        0 <= t.sp <= t.stack.len(),
    ensures
        same_shape(t, sem_op(vm, t, inst).0),
{
    let op = spec_get_opcode(inst);
    if op == 3 {
        lemma_loadnull_shape(t, (arg_a(inst) as usize) as int, (arg_b(inst) as usize) as int);
    } else if op == 63 {
        lemma_move_n_shape(t, inst, 2);
    } else if op == 64 {
        lemma_move_n_shape(t, inst, 4);
    } else if op == 65 {
        lemma_move_n_shape(t, inst, 8);
    } else if op == 66 {
        lemma_move_n_shape(t, inst, 16);
    }
}

/// A step keeps the number of registers and of call frames, and leaves the
/// call stack height within the stack.
pub proof fn law_step_keeps_shape(vm: VM, t: ThreadModel)
    requires
        0 <= t.sp <= t.stack.len(),
        0 <= t.pc < vm.instructions@.len(),
    ensures
        same_shape(t, step_spec(vm, t).0),
{
    let inst = vm.instructions@[t.pc];
    let t1 = ThreadModel { pc: t.pc + 1, ..t };
    lemma_sem_op_shape(vm, t1, inst);
}

proof fn lemma_loadnull_shape(t: ThreadModel, i: int, end: int)
    ensures
        loadnull_from(t, i, end).0.regs.len() == t.regs.len(),
        loadnull_from(t, i, end).0.stack == t.stack,
        loadnull_from(t, i, end).0.sp == t.sp,
    decreases end + 1 - i,
{
    if i <= end {
        match set_reg(t, i as usize, null_val()) {
            Err(s) => {},
            Ok(t2) => {
                if i != end {
                    lemma_loadnull_shape(t2, i + 1, end);
                }
            },
        }
    }
}

// ---------------------------------------------------------------------------
// The shared program state
// ---------------------------------------------------------------------------

/// The number of string constants among `cs`.
pub open spec fn str_count(cs: Seq<TaggedConstantValue>) -> nat
    decreases cs.len(),
{
    if cs.len() == 0 {
        0
    } else {
        str_count(cs.drop_last()) + if cs.last() is Str { 1nat } else { 0nat }
    }
}

/// The register cell of a constant; the k-th string constant is the k-th of `string_ptrs`.
pub open spec fn constant_cell(cs: Seq<TaggedConstantValue>, i: int, string_ptrs: Seq<RegisterVal>) -> RegisterVal {
    match cs[i] {
        TaggedConstantValue::Null => null_val(),
        TaggedConstantValue::Int(v) => int_val(v),
        TaggedConstantValue::Float(bits) => RegisterVal { bits },
        TaggedConstantValue::Bool(b) => bool_val(b),
        TaggedConstantValue::Str(_) => string_ptrs[str_count(cs.take(i)) as int],
    }
}

impl VM {
    pub open spec fn wf(&self) -> bool {
        self.instructions@.len() < usize::MAX
    }

    /// A program state from its parts.
    pub fn new(
        instructions: Vec<Instruction>,
        constant_pool: Vec<RegisterVal>,
        constant_ptrs: Vec<RegisterVal>,
        function_indexes: Vec<usize>,
    ) -> (r: VM)
        ensures
            r.instructions == instructions,
            r.constant_pool == constant_pool,
            r.constant_ptrs == constant_ptrs,
            r.function_indexes == function_indexes,
    {
        VM { constant_pool, constant_ptrs, function_indexes, instructions }
    }

    /// The program state of a compiled program. The host has already placed
    /// each string constant on the heap: `string_ptrs` holds their
    /// addresses in the order the string constants appear.
    pub fn from_bytecode(bytecode: ByteCode, string_ptrs: Vec<RegisterVal>) -> (r: VM)
        requires
            string_ptrs@.len() == str_count(bytecode.constant_pool@),
        ensures
            r.instructions@ == bytecode.instructions@,
            r.constant_pool@.len() == bytecode.constant_pool@.len(),
            forall|i: int| 0 <= i < r.constant_pool@.len() ==>
                #[trigger] r.constant_pool@[i] == constant_cell(bytecode.constant_pool@, i, string_ptrs@),
            r.constant_ptrs@ == string_ptrs@,
            r.function_indexes@.len() == bytecode.qlang_functions@.len(),
            forall|i: int| 0 <= i < r.function_indexes@.len() ==>
                #[trigger] r.function_indexes@[i] == bytecode.qlang_functions@[i] as usize,
            forall|i: int| 0 <= i < r.constant_pool@.len() ==> {
                let cell = #[trigger] r.constant_pool@[i];
                &&& (bytecode.constant_pool@[i] is Null ==> cell.bits == 0)
                &&& (bytecode.constant_pool@[i] matches TaggedConstantValue::Int(v) ==> int_of(cell) == v)
                &&& (bytecode.constant_pool@[i] matches TaggedConstantValue::Float(bits) ==> cell.bits == bits)
                &&& (bytecode.constant_pool@[i] matches TaggedConstantValue::Bool(b) ==> bool_of(cell) == b)
            },
    {
        let ghost cs = bytecode.constant_pool@;
        let mut constant_pool: Vec<RegisterVal> = Vec::new();
        let mut next_str: usize = 0;
        let np = string_ptrs.len();
        let mut i: usize = 0;
        while i < bytecode.constant_pool.len()
            invariant
                np == string_ptrs@.len(),
                cs == bytecode.constant_pool@,
                string_ptrs@.len() == str_count(cs),
                i <= cs.len(),
                next_str == str_count(cs.take(i as int)),
                constant_pool@.len() == i,
                forall|j: int| 0 <= j < i ==> #[trigger] constant_pool@[j] == constant_cell(cs, j, string_ptrs@),
            decreases cs.len() - i,
        {
            proof {
                lemma_str_count_prefix(cs, i as int + 1);
                assert(cs.take(i + 1).drop_last() =~= cs.take(i as int));
                assert(cs.take(i + 1).last() == cs[i as int]);
            }
            let cell = match &bytecode.constant_pool[i] {
                TaggedConstantValue::Null => RegisterVal::null(),
                TaggedConstantValue::Int(v) => RegisterVal::from_int(*v),
                TaggedConstantValue::Float(bits) => RegisterVal::from_float_bits(*bits),
                TaggedConstantValue::Bool(b) => RegisterVal::from_bool(*b),
                TaggedConstantValue::Str(_) => {
                    let p = string_ptrs[next_str];
                    next_str = next_str + 1;
                    p
                },
            };
            constant_pool.push(cell);
            i = i + 1;
        }
        let mut function_indexes: Vec<usize> = Vec::new();
        let mut k: usize = 0;
        while k < bytecode.qlang_functions.len()
            invariant
                k <= bytecode.qlang_functions@.len(),
                function_indexes@.len() == k,
                forall|j: int| 0 <= j < k ==> #[trigger] function_indexes@[j] == bytecode.qlang_functions@[j] as usize,
            decreases bytecode.qlang_functions@.len() - k,
        {
            function_indexes.push(bytecode.qlang_functions[k] as usize);
            k = k + 1;
        }
        proof {
            assert forall|i: int| 0 <= i < constant_pool@.len() implies {
                let cell = #[trigger] constant_pool@[i];
                &&& (cs[i] is Null ==> cell.bits == 0)
                &&& (cs[i] matches TaggedConstantValue::Int(v) ==> int_of(cell) == v)
                &&& (cs[i] matches TaggedConstantValue::Float(bits) ==> cell.bits == bits)
                &&& (cs[i] matches TaggedConstantValue::Bool(b) ==> bool_of(cell) == b)
            } by {
                crate::vm_laws::law_constant_cells(cs, i, string_ptrs@);
            }
        }
        VM::new(bytecode.instructions, constant_pool, string_ptrs, function_indexes)
    }

    /// Whether `ptr` is one of the program's string constants.
    pub fn is_constant_ptr(&self, ptr: &RegisterVal) -> (r: bool)
        ensures
            r == self.constant_ptrs@.contains(*ptr),
    {
        let mut i: usize = 0;
        while i < self.constant_ptrs.len()
            invariant
                i <= self.constant_ptrs@.len(),
                forall|j: int| 0 <= j < i ==> self.constant_ptrs@[j] != *ptr,
            decreases self.constant_ptrs@.len() - i,
        {
            if self.constant_ptrs[i] == *ptr {
                assert(self.constant_ptrs@[i as int] == *ptr);
                return true;
            }
            i = i + 1;
        }
        false
    }

    pub fn get_constant(&self, index: usize) -> (r: Option<&RegisterVal>)
        ensures
            index < self.constant_pool@.len() ==> r == Some(&self.constant_pool@[index as int]),
            index >= self.constant_pool@.len() ==> r is None,
    {
        if index < self.constant_pool.len() {
            Some(&self.constant_pool[index])
        } else {
            None
        }
    }

    pub fn get_constant_pool_len(&self) -> (r: usize)
        ensures
            r == self.constant_pool@.len(),
    {
        self.constant_pool.len()
    }

    pub fn get_instruction(&self, pc: usize) -> (r: Option<&Instruction>)
        ensures
            pc < self.instructions@.len() ==> r == Some(&self.instructions@[pc as int]),
            pc >= self.instructions@.len() ==> r is None,
    {
        if pc < self.instructions.len() {
            Some(&self.instructions[pc])
        } else {
            None
        }
    }

    pub fn get_instruction_len(&self) -> (r: usize)
        ensures
            r == self.instructions@.len(),
    {
        self.instructions.len()
    }

    pub fn get_function_index(&self, fn_id: usize) -> (r: Option<&usize>)
        ensures
            fn_id < self.function_indexes@.len() ==> r == Some(&self.function_indexes@[fn_id as int]),
            fn_id >= self.function_indexes@.len() ==> r is None,
    {
        if fn_id < self.function_indexes.len() {
            Some(&self.function_indexes[fn_id])
        } else {
            None
        }
    }

    pub fn get_function_index_len(&self) -> (r: usize)
        ensures
            r == self.function_indexes@.len(),
    {
        self.function_indexes.len()
    }
}

proof fn lemma_str_count_prefix(cs: Seq<TaggedConstantValue>, n: int)
    requires
        0 <= n <= cs.len(),
    ensures
        str_count(cs.take(n)) <= str_count(cs),
    decreases cs.len() - n,
{
    if n < cs.len() {
        lemma_str_count_prefix(cs, n + 1);
        assert(cs.take(n + 1).drop_last() =~= cs.take(n));
    } else {
        assert(cs.take(n) =~= cs);
    }
}

// ---------------------------------------------------------------------------
// A thread
// ---------------------------------------------------------------------------

impl VMThread {
    pub open spec fn model(&self) -> ThreadModel {
        ThreadModel {
            pc: self.program_counter as int,
            regs: self.registers@,
            stack: self.call_stack@,
            sp: self.call_stack_pointer as int,
        }
    }

    /// The call stack pointer stays within the call stack.
    pub open spec fn wf(&self) -> bool {
        self.call_stack_pointer <= self.call_stack@.len()
    }

    /// A thread at the first instruction, with all registers null and no call active.
    pub fn new() -> (r: VMThread)
        ensures
            r.wf(),
            r.program_counter == 0,
            r.call_stack_pointer == 0,
            r.thread_id == 0,
            r.registers@ == Seq::new(REGISTER_COUNT as nat, |i: int| null_val()),
            r.call_stack@ == Seq::new(CALL_STACK_SIZE as nat, |i: int| CallFrame { return_pc: 0, base: 0 }),
    {
        let mut registers: Vec<RegisterVal> = Vec::new();
        let mut i: usize = 0;
        while i < REGISTER_COUNT
            invariant
                i <= REGISTER_COUNT,
                registers@ == Seq::new(i as nat, |j: int| null_val()),
            decreases REGISTER_COUNT - i,
        {
            registers.push(RegisterVal::null());
            i = i + 1;
            assert(registers@ =~= Seq::new(i as nat, |j: int| null_val()));
        }
        let mut call_stack: Vec<CallFrame> = Vec::new();
        let mut k: usize = 0;
        while k < CALL_STACK_SIZE
            invariant
                k <= CALL_STACK_SIZE,
                call_stack@ == Seq::new(k as nat, |j: int| CallFrame { return_pc: 0, base: 0 }),
            decreases CALL_STACK_SIZE - k,
        {
            call_stack.push(CallFrame { return_pc: 0, base: 0 });
            k = k + 1;
            assert(call_stack@ =~= Seq::new(k as nat, |j: int| CallFrame { return_pc: 0, base: 0 }));
        }
        VMThread { thread_id: 0, program_counter: 0, registers, call_stack, call_stack_pointer: 0 }
    }

    /// Pushes a frame; `StackOverflow` when the stack is full.
    pub fn push_call_frame(&mut self, frame: CallFrame) -> (r: Result<(), VMRuntimeError>)
        requires
            old(self).wf(),
        ensures
            final(self).wf(),
            final(self).registers == old(self).registers,
            final(self).program_counter == old(self).program_counter,
            final(self).thread_id == old(self).thread_id,
            old(self).call_stack_pointer >= old(self).call_stack@.len() ==> r == Err::<(), VMRuntimeError>(VMRuntimeError::StackOverflow)
                && final(self).call_stack == old(self).call_stack
                && final(self).call_stack_pointer == old(self).call_stack_pointer,
            old(self).call_stack_pointer < old(self).call_stack@.len() ==> r is Ok
                && final(self).call_stack@ == old(self).call_stack@.update(old(self).call_stack_pointer as int, frame)
                && final(self).call_stack_pointer == old(self).call_stack_pointer + 1,
            (final(self).model(), r) == push_frame(old(self).model(), frame),
    {
        if self.call_stack_pointer >= self.call_stack.len() {
            return Err(VMRuntimeError::StackOverflow);
        }
        self.call_stack.set(self.call_stack_pointer, frame);
        self.call_stack_pointer = self.call_stack_pointer + 1;
        Ok(())
    }

    /// Pops the top frame; `StackUnderflow` when no call is active.
    pub fn pop_call_frame(&mut self) -> (r: Result<CallFrame, VMRuntimeError>)
        requires
            old(self).wf(),
        ensures
            final(self).wf(),
            final(self).registers == old(self).registers,
            final(self).program_counter == old(self).program_counter,
            final(self).thread_id == old(self).thread_id,
            final(self).call_stack == old(self).call_stack,
            old(self).call_stack_pointer == 0 ==> r == Err::<CallFrame, VMRuntimeError>(VMRuntimeError::StackUnderflow)
                && final(self).call_stack_pointer == 0,
            old(self).call_stack_pointer > 0 ==> r == Ok::<CallFrame, VMRuntimeError>(old(self).call_stack@[old(self).call_stack_pointer - 1])
                && final(self).call_stack_pointer == old(self).call_stack_pointer - 1,
            (final(self).model(), r) == pop_frame(old(self).model()),
    {
        if self.call_stack_pointer == 0 {
            return Err(VMRuntimeError::StackUnderflow);
        }
        let frame = self.call_stack[self.call_stack_pointer - 1];
        self.call_stack_pointer = self.call_stack_pointer - 1;
        Ok(frame)
    }

    /// The base register of the current frame.
    pub fn current_offset(&self) -> (r: usize)
        requires
            self.wf(),
        ensures
            r == offset_of(self.model()),
    {
        if self.call_stack_pointer == 0 {
            return 0;
        }
        self.call_stack[self.call_stack_pointer - 1].base as usize
    }

    /// The instruction at the program counter.
    pub fn fetch_instruction(&self, vm: &VM) -> (r: Instruction)
        requires
            self.program_counter < vm.instructions@.len(),
        ensures
            r == vm.instructions@[self.program_counter as int],
    {
        vm.instructions[self.program_counter]
    }

    /// The value of register 0, which holds a finished thread's result.
    pub fn result(&self) -> (r: RegisterVal)
        ensures
            self.registers@.len() > 0 ==> r == self.registers@[0],
            self.registers@.len() == 0 ==> r == null_val(),
    {
        if self.registers.len() > 0 {
            self.registers[0]
        } else {
            RegisterVal::null()
        }
    }

    fn write_reg(&mut self, register: usize, value: RegisterVal) -> (r: Result<(), Stop>)
        requires
            old(self).wf(),
        ensures
            final(self).wf(),
            match set_reg(old(self).model(), register, value) {
                Ok(t) => r is Ok && final(self).model() == t,
                Err(s) => r == Err::<(), Stop>(s) && final(self).model() == old(self).model(),
            },
            final(self).thread_id == old(self).thread_id,
    {
        let offset = self.current_offset();
        if register > usize::MAX - offset {
            return Err(Stop::Panic(PanicReason::ArithmeticOverflow));
        }
        let i = register + offset;
        if i >= self.registers.len() {
            return Err(Stop::Error(VMRuntimeError::InvalidRegisterAccess(i)));
        }
        self.registers.set(i, value);
        Ok(())
    }

    /// Writes register `register` of the current frame. The caller ensures
    /// that `register` plus the frame's base does not overflow.
    pub fn set_register(&mut self, register: usize, value: RegisterVal) -> (r: Result<(), VMRuntimeError>)
        requires
            old(self).wf(),
            register + offset_of(old(self).model()) <= usize::MAX,
        ensures
            final(self).wf(),
            final(self).thread_id == old(self).thread_id,
            match set_reg(old(self).model(), register, value) {
                Ok(t) => r is Ok && final(self).model() == t,
                Err(Stop::Error(e)) => r == Err::<(), VMRuntimeError>(e) && final(self).model() == old(self).model(),
                Err(Stop::Panic(_)) => false,
            },
    {
        match self.write_reg(register, value) {
            Ok(()) => Ok(()),
            Err(Stop::Error(e)) => Err(e),
            Err(Stop::Panic(_)) => Err(VMRuntimeError::InvalidRegisterAccess(register)),
        }
    }

    /// Reads register `register + offset`.
    pub fn get_register_ref(&self, register: usize, offset: usize) -> (r: Result<RegisterVal, Stop>)
        ensures
            r == get_reg(self.model(), register, offset as int),
    {
        if register > usize::MAX - offset {
            return Err(Stop::Panic(PanicReason::ArithmeticOverflow));
        }
        let i = register + offset;
        if i >= self.registers.len() {
            return Err(Stop::Error(VMRuntimeError::InvalidRegisterAccess(i)));
        }
        Ok(self.registers[i])
    }

    /// Reads constant `index`.
    pub fn get_constant_ref(&self, vm: &VM, index: usize) -> (r: Result<RegisterVal, Stop>)
        ensures
            r == get_const(*vm, index),
    {
        match vm.get_constant(index) {
            Some(v) => Ok(*v),
            None => Err(Stop::Error(VMRuntimeError::InvalidConstantAccess(index))),
        }
    }

    fn fetch_rk(&self, vm: &VM, arg: i32, offset: usize) -> (r: Result<RegisterVal, Stop>)
        ensures
            r == fetch_rk(*vm, self.model(), arg, offset as int),
    {
        if is_k(arg) {
            self.get_constant_ref(vm, rk_to_k(arg) as usize)
        } else {
            self.get_register_ref(arg as usize, offset)
        }
    }

    /// Reads the RK operands B and C, B first.
    fn fetch_values(&self, vm: &VM, argb: i32, argc: i32, offset: usize) -> (r: Result<(RegisterVal, RegisterVal), Stop>)
        ensures
            match fetch_rk(*vm, self.model(), argb, offset as int) {
                Err(s) => r == Err::<(RegisterVal, RegisterVal), Stop>(s),
                Ok(bv) => match fetch_rk(*vm, self.model(), argc, offset as int) {
                    Err(s) => r == Err::<(RegisterVal, RegisterVal), Stop>(s),
                    Ok(cv) => r == Ok::<(RegisterVal, RegisterVal), Stop>((bv, cv)),
                },
            },
    {
        let b_val = self.fetch_rk(vm, argb, offset)?;
        let c_val = self.fetch_rk(vm, argc, offset)?;
        Ok((b_val, c_val))
    }

    fn op_move(&mut self, inst: Instruction) -> (r: Result<StepOutcome, Stop>)
        requires
            old(self).wf(),
        ensures
            final(self).wf(),
            final(self).thread_id == old(self).thread_id,
            (final(self).model(), r) == sem_move(old(self).model(), inst),
    {
        let arga = get_arga(inst);
        let argb = get_argb(inst);
        let offset = self.current_offset();
        let value = self.get_register_ref(argb as usize, offset)?;
        self.write_reg(arga as usize, value)?;
        Ok(StepOutcome::Continue)
    }

    fn op_loadconst(&mut self, vm: &VM, inst: Instruction) -> (r: Result<StepOutcome, Stop>)
        requires
            old(self).wf(),
        ensures
            final(self).wf(),
            final(self).thread_id == old(self).thread_id,
            (final(self).model(), r) == sem_loadconst(*vm, old(self).model(), inst),
    {
        let arga = get_arga(inst);
        let argbx = get_argbx(inst);
        let value = self.get_constant_ref(vm, argbx as usize)?;
        self.write_reg(arga as usize, value)?;
        Ok(StepOutcome::Continue)
    }

    fn op_loadbool(&mut self, inst: Instruction) -> (r: Result<StepOutcome, Stop>)
        requires
            old(self).wf(),
            old(self).program_counter < usize::MAX,
        ensures
            final(self).wf(),
            final(self).thread_id == old(self).thread_id,
            (final(self).model(), r) == sem_loadbool(old(self).model(), inst),
    {
        let arga = get_arga(inst);
        let argb = get_argb(inst);
        let argc = get_argc(inst);
        let value = RegisterVal::from_bool(argb != 0);
        self.write_reg(arga as usize, value)?;
        if argc != 0 {
            self.program_counter = self.program_counter + 1;
        }
        Ok(StepOutcome::Continue)
    }

    fn op_loadnull(&mut self, inst: Instruction) -> (r: Result<StepOutcome, Stop>)
        requires
            old(self).wf(),
        ensures
            final(self).wf(),
            final(self).thread_id == old(self).thread_id,
            (final(self).model(), r) == sem_loadnull(old(self).model(), inst),
    {
        let arga = get_arga(inst);
        let argb = get_argb(inst);
        let start = arga as usize;
        let end = argb as usize;
        if start > end {
            return Ok(StepOutcome::Continue);
        }
        let ghost goal = sem_loadnull(old(self).model(), inst);
        let mut i = start;
        loop
            invariant
                self.wf(),
                self.thread_id == old(self).thread_id,
                start <= i <= end,
                end == (arg_b(inst) as usize),
                goal == sem_loadnull(old(self).model(), inst),
                loadnull_from(self.model(), i as int, end as int) == goal,
            decreases end - i,
        {
            let ghost before = self.model();
            self.write_reg(i, RegisterVal::null())?;
            if i == end {
                return Ok(StepOutcome::Continue);
            }
            i = i + 1;
        }
    }

    fn perform_int_op(&mut self, vm: &VM, inst: Instruction, op: IntOp) -> (r: Result<StepOutcome, Stop>)
        requires
            old(self).wf(),
        ensures
            final(self).wf(),
            final(self).thread_id == old(self).thread_id,
            (final(self).model(), r) == sem_int_op(*vm, old(self).model(), inst, op),
    {
        let arga = get_arga(inst);
        let argb = get_argb(inst);
        let argc = get_argc(inst);
        let offset = self.current_offset();
        let (b_val, c_val) = self.fetch_values(vm, argb, argc, offset)?;
        let left = b_val.as_int();
        let right = c_val.as_int();
        let result = match op {
            IntOp::Add => left.wrapping_add(right),
            IntOp::Sub => left.wrapping_sub(right),
            IntOp::Mul => left.wrapping_mul(right),
            IntOp::Div => {
                if right == 0 {
                    return Err(Stop::Error(VMRuntimeError::DivideByZero));
                }
                i64_wrapping_div(left, right)
            },
            IntOp::Mod => {
                if right == 0 {
                    return Err(Stop::Panic(PanicReason::RemainderByZero));
                }
                i64_wrapping_rem(left, right)
            },
            IntOp::Pow => i64_wrapping_pow(left, right as u32),
        };
        self.write_reg(arga as usize, RegisterVal::from_int(result))?;
        Ok(StepOutcome::Continue)
    }

    fn perform_bit_op(&mut self, vm: &VM, inst: Instruction, op: BitOp) -> (r: Result<StepOutcome, Stop>)
        requires
            old(self).wf(),
        ensures
            final(self).wf(),
            final(self).thread_id == old(self).thread_id,
            (final(self).model(), r) == sem_bit_op(*vm, old(self).model(), inst, op),
    {
        let arga = get_arga(inst);
        let argb = get_argb(inst);
        let argc = get_argc(inst);
        let offset = self.current_offset();
        let (b_val, c_val) = self.fetch_values(vm, argb, argc, offset)?;
        let left = b_val.as_int();
        let right = c_val.as_int();
        let result = match op {
            BitOp::And => left & right,
            BitOp::Or => left | right,
            BitOp::Xor => left ^ right,
            BitOp::Shl => {
                if right < 0 || right >= 64 {
                    return Err(Stop::Panic(PanicReason::ShiftOutOfRange(right)));
                }
                left << right
            },
            BitOp::Shr => {
                if right < 0 || right >= 64 {
                    return Err(Stop::Panic(PanicReason::ShiftOutOfRange(right)));
                }
                left >> right
            },
        };
        self.write_reg(arga as usize, RegisterVal::from_int(result))?;
        Ok(StepOutcome::Continue)
    }

    fn perform_int_comparison(&mut self, vm: &VM, inst: Instruction, op: Comparison) -> (r: Result<StepOutcome, Stop>)
        requires
            old(self).wf(),
        ensures
            final(self).wf(),
            final(self).thread_id == old(self).thread_id,
            (final(self).model(), r) == sem_int_compare(*vm, old(self).model(), inst, op),
    {
        let arga = get_arga(inst);
        let argb = get_argb(inst);
        let argc = get_argc(inst);
        let offset = self.current_offset();
        let (b_val, c_val) = self.fetch_values(vm, argb, argc, offset)?;
        let b = b_val.as_int();
        let c = c_val.as_int();
        let result = match op {
            Comparison::Eq => b == c,
            Comparison::Ne => b != c,
            Comparison::Lt => b < c,
            Comparison::Le => b <= c,
            Comparison::Gt => b > c,
            Comparison::Ge => b >= c,
        };
        self.write_reg(arga as usize, RegisterVal::from_bool(result))?;
        Ok(StepOutcome::Continue)
    }

    fn op_logical_not(&mut self, vm: &VM, inst: Instruction) -> (r: Result<StepOutcome, Stop>)
        requires
            old(self).wf(),
        ensures
            final(self).wf(),
            final(self).thread_id == old(self).thread_id,
            (final(self).model(), r) == sem_logical_not(*vm, old(self).model(), inst),
    {
        let arga = get_arga(inst);
        let argb = get_argb(inst);
        let offset = self.current_offset();
        let b_val = self.fetch_rk(vm, argb, offset)?;
        self.write_reg(arga as usize, RegisterVal::from_bool(!b_val.as_bool()))?;
        Ok(StepOutcome::Continue)
    }

    fn op_logical(&mut self, vm: &VM, inst: Instruction, and: bool) -> (r: Result<StepOutcome, Stop>)
        requires
            old(self).wf(),
        ensures
            final(self).wf(),
            final(self).thread_id == old(self).thread_id,
            (final(self).model(), r) == sem_logical(*vm, old(self).model(), inst, and),
    {
        let arga = get_arga(inst);
        let argb = get_argb(inst);
        let argc = get_argc(inst);
        let offset = self.current_offset();
        let (b_val, c_val) = self.fetch_values(vm, argb, argc, offset)?;
        let result = if and {
            b_val.as_bool() && c_val.as_bool()
        } else {
            b_val.as_bool() || c_val.as_bool()
        };
        self.write_reg(arga as usize, RegisterVal::from_bool(result))?;
        Ok(StepOutcome::Continue)
    }

    fn op_jump(&mut self, inst: Instruction) -> (r: Result<StepOutcome, Stop>)
        requires
            old(self).wf(),
        ensures
            final(self).wf(),
            final(self).thread_id == old(self).thread_id,
            (final(self).model(), r) == sem_jump(old(self).model(), inst),
    {
        let argbx = get_argbx(inst);
        self.program_counter = argbx as usize;
        Ok(StepOutcome::Continue)
    }

    fn op_jump_if(&mut self, inst: Instruction, when: bool) -> (r: Result<StepOutcome, Stop>)
        requires
            old(self).wf(),
        ensures
            final(self).wf(),
            final(self).thread_id == old(self).thread_id,
            (final(self).model(), r) == sem_jump_if(old(self).model(), inst, when),
    {
        let arga = get_arga(inst);
        let argbx = get_argbx(inst);
        let offset = self.current_offset();
        let value = self.get_register_ref(arga as usize, offset)?;
        if value.as_bool() == when {
            self.program_counter = argbx as usize;
        }
        Ok(StepOutcome::Continue)
    }

    fn op_call(&mut self, vm: &VM, inst: Instruction) -> (r: Result<StepOutcome, Stop>)
        requires
            old(self).wf(),
        ensures
            final(self).wf(),
            final(self).thread_id == old(self).thread_id,
            (final(self).model(), r) == sem_call(*vm, old(self).model(), inst),
    {
        let arga = get_arga(inst);
        let argc = get_argc(inst);
        let offset = self.current_offset();
        let c = argc as u32;
        let o = offset as u32;
        if c > u32::MAX - o {
            return Err(Stop::Panic(PanicReason::ArithmeticOverflow));
        }
        let call_frame = CallFrame { return_pc: self.program_counter as u32, base: c + o };
        match self.push_call_frame(call_frame) {
            Ok(()) => {},
            Err(e) => {
                return Err(Stop::Error(e));
            },
        }
        if (arga as usize) < vm.get_function_index_len() {
            self.program_counter = vm.function_indexes[arga as usize];
            Ok(StepOutcome::Continue)
        } else {
            Err(Stop::Panic(PanicReason::InvalidFunctionIndex(arga)))
        }
    }

    fn op_native_call(&mut self, inst: Instruction) -> (r: Result<StepOutcome, Stop>)
        requires
            old(self).wf(),
        ensures
            final(self).wf(),
            final(self).thread_id == old(self).thread_id,
            (final(self).model(), r) == sem_native_call(old(self).model(), inst),
    {
        let arga = get_arga(inst);
        let argb = get_argb(inst);
        let argc = get_argc(inst);
        let offset = self.current_offset();
        if argc < 0 {
            return Err(Stop::Panic(PanicReason::CapacityOverflow));
        }
        let c = argc as usize;
        let last = (argc + argb) as usize;
        if c > usize::MAX - offset || c + offset > usize::MAX - 1 || last > usize::MAX - offset {
            return Err(Stop::Panic(PanicReason::ArithmeticOverflow));
        }
        let start = c + offset + 1;
        let end = last + offset;
        if start <= end && end >= self.registers.len() {
            return Err(Stop::Panic(PanicReason::IndexOutOfBounds));
        }
        let count = if start <= end { end - start + 1 } else { 0 };
        Ok(StepOutcome::Host(HostRequest::NativeCall { function: arga as usize, first_arg: start, arg_count: count, dest: c }))
    }

    fn op_return(&mut self) -> (r: Result<StepOutcome, Stop>)
        requires
            old(self).wf(),
        ensures
            final(self).wf(),
            final(self).thread_id == old(self).thread_id,
            (final(self).model(), r) == sem_return(old(self).model()),
    {
        match self.pop_call_frame() {
            Ok(frame) => {
                self.program_counter = frame.return_pc as usize;
                Ok(StepOutcome::Continue)
            },
            Err(e) => Err(Stop::Error(e)),
        }
    }

    fn op_int_step(&mut self, vm: &VM, inst: Instruction, increment: bool) -> (r: Result<StepOutcome, Stop>)
        requires
            old(self).wf(),
        ensures
            final(self).wf(),
            final(self).thread_id == old(self).thread_id,
            (final(self).model(), r) == sem_int_step(*vm, old(self).model(), inst, increment),
    {
        let arga = get_arga(inst);
        let value = self.get_constant_ref(vm, arga as usize)?;
        let v = value.as_int();
        let result = if increment {
            v.wrapping_add(1)
        } else {
            v.wrapping_sub(1)
        };
        self.write_reg(arga as usize, RegisterVal::from_int(result))?;
        Ok(StepOutcome::Continue)
    }

    fn op_float_step(&mut self, vm: &VM, inst: Instruction, increment: bool) -> (r: Result<StepOutcome, Stop>)
        requires
            old(self).wf(),
        ensures
            final(self).wf(),
            final(self).thread_id == old(self).thread_id,
            (final(self).model(), r) == sem_float_step(*vm, old(self).model(), inst, increment),
    {
        let arga = get_arga(inst);
        let value = self.get_constant_ref(vm, arga as usize)?;
        Ok(StepOutcome::Host(HostRequest::FloatStep { dest: arga as usize, value, increment }))
    }

    fn op_drop_string(&mut self, vm: &VM, inst: Instruction) -> (r: Result<StepOutcome, Stop>)
        requires
            old(self).wf(),
        ensures
            final(self).wf(),
            final(self).thread_id == old(self).thread_id,
            (final(self).model(), r) == sem_drop_string(*vm, old(self).model(), inst),
    {
        let arga = get_arga(inst);
        let offset = self.current_offset();
        let value = self.get_register_ref(arga as usize, offset)?;
        if vm.is_constant_ptr(&value) {
            return Ok(StepOutcome::Continue);
        }
        Ok(StepOutcome::Host(HostRequest::DropString { value }))
    }

    fn op_drop_array(&mut self, inst: Instruction) -> (r: Result<StepOutcome, Stop>)
        requires
            old(self).wf(),
        ensures
            final(self).wf(),
            final(self).thread_id == old(self).thread_id,
            (final(self).model(), r) == sem_drop_array(old(self).model(), inst),
    {
        let arga = get_arga(inst);
        let value = self.get_register_ref(arga as usize, 0)?;
        Ok(StepOutcome::Host(HostRequest::DropArray { value }))
    }

    /// Reads `count` registers from `base_register + offset`.
    fn get_multiple_registers_ref(&self, base_register: usize, count: usize, offset: usize) -> (r: Result<Vec<RegisterVal>, Stop>)
        ensures
            match get_regs(self.model(), base_register, count as int, offset as int) {
                Ok(vals) => r matches Ok(v) && v@ == vals,
                Err(s) => r matches Err(s2) && s2 == s,
            },
    {
        if base_register > usize::MAX - offset || base_register + offset > usize::MAX - count {
            return Err(Stop::Panic(PanicReason::ArithmeticOverflow));
        }
        let s = base_register + offset;
        if s + count >= self.registers.len() {
            return Err(Stop::Error(VMRuntimeError::InvalidRegisterAccess(s)));
        }
        let mut values: Vec<RegisterVal> = Vec::new();
        let n = self.registers.len();
        let mut i: usize = 0;
        while i < count
            invariant
                i <= count,
                n == self.registers@.len(),
                s + count < n,
                values@ == self.registers@.subrange(s as int, s + i),
            decreases count - i,
        {
            values.push(self.registers[s + i]);
            i = i + 1;
            assert(values@ =~= self.registers@.subrange(s as int, s + i));
        }
        Ok(values)
    }

    /// Writes `values` to the registers from `base_register + offset`.
    fn set_multiple_registers(&mut self, base_register: usize, values: &Vec<RegisterVal>, offset: usize) -> (r: Result<(), Stop>)
        requires
            old(self).wf(),
        ensures
            final(self).wf(),
            final(self).thread_id == old(self).thread_id,
            match set_regs(old(self).model(), base_register, values@, offset as int) {
                Ok(t) => r is Ok && final(self).model() == t,
                Err(s) => r == Err::<(), Stop>(s) && final(self).model() == old(self).model(),
            },
    {
        if base_register > usize::MAX - offset || base_register + offset > usize::MAX - values.len() {
            return Err(Stop::Panic(PanicReason::ArithmeticOverflow));
        }
        let s = base_register + offset;
        if s + values.len() >= self.registers.len() {
            return Err(Stop::Error(VMRuntimeError::InvalidRegisterAccess(s)));
        }
        let ghost old_regs = self.registers@;
        let n = self.registers.len();
        let mut i: usize = 0;
        while i < values.len()
            invariant
                n == old_regs.len(),
                self.wf(),
                self.thread_id == old(self).thread_id,
                self.program_counter == old(self).program_counter,
                self.call_stack == old(self).call_stack,
                self.call_stack_pointer == old(self).call_stack_pointer,
                old_regs == old(self).registers@,
                i <= values@.len(),
                s + values@.len() < old_regs.len(),
                self.registers@.len() == old_regs.len(),
                self.registers@ == old_regs.subrange(0, s as int) + values@.subrange(0, i as int)
                    + old_regs.subrange(s + i, old_regs.len() as int),
            decreases values@.len() - i,
        {
            self.registers.set(s + i, values[i]);
            i = i + 1;
            assert(self.registers@ =~= old_regs.subrange(0, s as int) + values@.subrange(0, i as int)
                + old_regs.subrange(s + i, old_regs.len() as int));
        }
        assert(values@.subrange(0, values@.len() as int) =~= values@);
        Ok(())
    }

    fn op_move_n(&mut self, inst: Instruction, n: usize) -> (r: Result<StepOutcome, Stop>)
        requires
            old(self).wf(),
        ensures
            final(self).wf(),
            final(self).thread_id == old(self).thread_id,
            (final(self).model(), r) == sem_move_n(old(self).model(), inst, n as int),
    {
        let arga = get_arga(inst);
        let argb = get_argb(inst);
        let offset = self.current_offset();
        let values = self.get_multiple_registers_ref(argb as usize, n, offset)?;
        self.set_multiple_registers(arga as usize, &values, offset)?;
        Ok(StepOutcome::Continue)
    }

    fn op_host_bc(&mut self, vm: &VM, inst: Instruction, op: OpCode) -> (r: Result<StepOutcome, Stop>)
        requires
            old(self).wf(),
            op == spec_get_opcode(inst),
            op == 34 || 39 <= op <= 49 || op == 58,
        ensures
            final(self).wf(),
            final(self).thread_id == old(self).thread_id,
            (final(self).model(), r) == sem_op(*vm, old(self).model(), inst),
    {
        let arga = get_arga(inst);
        let argb = get_argb(inst);
        let argc = get_argc(inst);
        let offset = self.current_offset();
        let (lhs, rhs) = self.fetch_values(vm, argb, argc, offset)?;
        let dest = arga as usize;
        let request = if op == 34 {
            HostRequest::Concat { dest, lhs, rhs }
        } else if op == 39 {
            HostRequest::FloatBinary { op: FloatOp::Add, dest, lhs, rhs }
        } else if op == 40 {
            HostRequest::FloatBinary { op: FloatOp::Sub, dest, lhs, rhs }
        } else if op == 41 {
            HostRequest::FloatBinary { op: FloatOp::Mul, dest, lhs, rhs }
        } else if op == 42 {
            HostRequest::FloatBinary { op: FloatOp::Div, dest, lhs, rhs }
        } else if op == 43 {
            HostRequest::FloatBinary { op: FloatOp::Pow, dest, lhs, rhs }
        } else if op == 58 {
            HostRequest::FloatBinary { op: FloatOp::Mod, dest, lhs, rhs }
        } else if op == 44 {
            HostRequest::FloatCompare { op: Comparison::Eq, dest, lhs, rhs }
        } else if op == 45 {
            HostRequest::FloatCompare { op: Comparison::Ne, dest, lhs, rhs }
        } else if op == 46 {
            HostRequest::FloatCompare { op: Comparison::Lt, dest, lhs, rhs }
        } else if op == 47 {
            HostRequest::FloatCompare { op: Comparison::Le, dest, lhs, rhs }
        } else if op == 48 {
            HostRequest::FloatCompare { op: Comparison::Gt, dest, lhs, rhs }
        } else {
            HostRequest::FloatCompare { op: Comparison::Ge, dest, lhs, rhs }
        };
        Ok(StepOutcome::Host(request))
    }

    fn op_host_b(&mut self, vm: &VM, inst: Instruction, op: OpCode) -> (r: Result<StepOutcome, Stop>)
        requires
            old(self).wf(),
            op == spec_get_opcode(inst),
            op == 54 || op == 55 || op == 59 || op == 60,
        ensures
            final(self).wf(),
            final(self).thread_id == old(self).thread_id,
            (final(self).model(), r) == sem_op(*vm, old(self).model(), inst),
    {
        let arga = get_arga(inst);
        let argb = get_argb(inst);
        let offset = self.current_offset();
        let value = self.fetch_rk(vm, argb, offset)?;
        let dest = arga as usize;
        let request = if op == 54 {
            HostRequest::IntToFloat { dest, value }
        } else if op == 55 {
            HostRequest::FloatToInt { dest, value }
        } else if op == 59 {
            HostRequest::IntToString { dest, value }
        } else {
            HostRequest::FloatToString { dest, value }
        };
        Ok(StepOutcome::Host(request))
    }

    /// Executes the instruction of opcode `op` (the program counter already past it).
    fn dispatch(&mut self, vm: &VM, inst: Instruction, op: OpCode) -> (r: Result<StepOutcome, Stop>)
        requires
            old(self).wf(),
            op == spec_get_opcode(inst),
            0 <= op <= 67,
            old(self).program_counter < usize::MAX,
        ensures
            final(self).wf(),
            final(self).thread_id == old(self).thread_id,
            (final(self).model(), r) == sem_op(*vm, old(self).model(), inst),
    {
        if op == 0 || op == 37 {
            self.op_move(inst)
        } else if op == 1 {
            self.op_loadconst(vm, inst)
        } else if op == 2 {
            self.op_loadbool(inst)
        } else if op == 3 {
            self.op_loadnull(inst)
        } else if op == 4 {
            self.perform_int_op(vm, inst, IntOp::Add)
        } else if op == 5 {
            self.perform_int_op(vm, inst, IntOp::Sub)
        } else if op == 6 {
            self.perform_int_op(vm, inst, IntOp::Mul)
        } else if op == 7 {
            self.perform_int_op(vm, inst, IntOp::Div)
        } else if op == 8 {
            self.perform_int_op(vm, inst, IntOp::Mod)
        } else if op == 9 {
            self.perform_int_op(vm, inst, IntOp::Pow)
        } else if op == 10 {
            self.op_logical_not(vm, inst)
        } else if op == 11 {
            self.op_logical(vm, inst, true)
        } else if op == 12 {
            self.op_logical(vm, inst, false)
        } else if op == 13 {
            self.perform_int_comparison(vm, inst, Comparison::Eq)
        } else if op == 14 {
            self.perform_int_comparison(vm, inst, Comparison::Ne)
        } else if op == 15 {
            self.perform_int_comparison(vm, inst, Comparison::Lt)
        } else if op == 16 {
            self.perform_int_comparison(vm, inst, Comparison::Le)
        } else if op == 17 {
            self.perform_int_comparison(vm, inst, Comparison::Gt)
        } else if op == 18 {
            self.perform_int_comparison(vm, inst, Comparison::Ge)
        } else if op == 19 {
            self.op_jump(inst)
        } else if op == 20 {
            self.op_jump_if(inst, true)
        } else if op == 21 {
            self.op_jump_if(inst, false)
        } else if op == 22 {
            self.op_call(vm, inst)
        } else if op == 23 {
            self.op_native_call(inst)
        } else if op == 26 {
            self.op_return()
        } else if op == 27 {
            self.op_int_step(vm, inst, true)
        } else if op == 28 {
            self.op_int_step(vm, inst, false)
        } else if op == 29 {
            self.perform_bit_op(vm, inst, BitOp::And)
        } else if op == 30 {
            self.perform_bit_op(vm, inst, BitOp::Or)
        } else if op == 31 {
            self.perform_bit_op(vm, inst, BitOp::Xor)
        } else if op == 32 {
            self.perform_bit_op(vm, inst, BitOp::Shl)
        } else if op == 33 {
            self.perform_bit_op(vm, inst, BitOp::Shr)
        } else if op == 34 || (39 <= op && op <= 49) || op == 58 {
            self.op_host_bc(vm, inst, op)
        } else if op == 35 {
            self.op_drop_string(vm, inst)
        } else if op == 36 {
            let arga = get_arga(inst);
            Err(Stop::Error(VMRuntimeError::Exit(arga)))
        } else if op == 50 {
            self.op_float_step(vm, inst, true)
        } else if op == 51 {
            self.op_float_step(vm, inst, false)
        } else if op == 54 || op == 55 || op == 59 || op == 60 {
            self.op_host_b(vm, inst, op)
        } else if op == 61 {
            self.op_drop_array(inst)
        } else if op == 63 {
            self.op_move_n(inst, 2)
        } else if op == 64 {
            self.op_move_n(inst, 4)
        } else if op == 65 {
            self.op_move_n(inst, 8)
        } else if op == 66 {
            self.op_move_n(inst, 16)
        } else if op == 24 || op == 25 || op == 38 || op == 52 || op == 53 || op == 56 || op == 57
            || op == 62 {
            Err(Stop::Panic(PanicReason::Unimplemented(op)))
        } else {
            Ok(StepOutcome::Continue)
        }
    }

    /// Executes the instruction at the program counter. The program counter
    /// first moves past it; then the instruction runs as `step_spec` says.
    pub fn step(&mut self, vm: &VM) -> (r: Result<StepOutcome, VMRuntimeError>)
        requires
            old(self).wf(),
            vm.wf(),
            old(self).program_counter < vm.instructions@.len(),
        ensures
            final(self).wf(),
            final(self).thread_id == old(self).thread_id,
            (final(self).model(), r) == step_spec(*vm, old(self).model()),
    {
        let inst = self.fetch_instruction(vm);
        self.program_counter = self.program_counter + 1;
        let opcode = get_opcode(inst);
        if opcode > 67 {
            return Err(VMRuntimeError::InvalidOpcode(opcode, self.program_counter));
        }
        match self.dispatch(vm, inst, opcode) {
            Ok(o) => Ok(o),
            Err(Stop::Error(e)) => Err(e),
            Err(Stop::Panic(p)) => Ok(StepOutcome::Host(HostRequest::Panic(p))),
        }
    }

    /// Pops every frame of the call stack and returns the report to print:
    /// the first and the last twenty frames, top first.
    pub fn on_err_unwind_callstack(&mut self) -> (r: Vec<String>)
        requires
            old(self).wf(),
        ensures
            final(self).wf(),
            final(self).call_stack_pointer == 0,
            final(self).call_stack == old(self).call_stack,
            final(self).registers == old(self).registers,
            final(self).program_counter == old(self).program_counter,
            strings_of(r@) == unwind_report(old(self).call_stack@, old(self).call_stack_pointer as int),
    {
        let ghost stack = self.call_stack@;
        let ghost sp0 = self.call_stack_pointer as int;
        let mut lines: Vec<String> = Vec::new();
        push_line(&mut lines, "Unwinding Callstack:".to_owned());
        let mut header = "Stack pointer is at: ".to_owned();
        crate::text::push_nat_text(&mut header, self.call_stack_pointer as u64);
        push_line(&mut lines, header);
        if self.call_stack_pointer > 41 {
            push_line(&mut lines, "Truncating callstack to first and last 20 calls...".to_owned());
        }
        let ghost head = strings_of(lines@);
        assert(head =~= unwind_head(sp0));
        let mut count: usize = 0;
        let mut reverse_count: usize = self.call_stack_pointer;
        loop
            invariant
                self.wf(),
                self.call_stack@ == stack,
                self.registers == old(self).registers,
                self.program_counter == old(self).program_counter,
                self.call_stack == old(self).call_stack,
                sp0 == old(self).call_stack_pointer,
                stack == old(self).call_stack@,
                0 <= sp0 <= stack.len(),
                reverse_count == self.call_stack_pointer,
                count as int + reverse_count == sp0,
                strings_of(lines@) == unwind_head(sp0) + unwind_frames(stack, sp0, count as int),
            ensures
                self.call_stack_pointer == 0,
                strings_of(lines@) == unwind_head(sp0) + unwind_frames(stack, sp0, sp0),
            decreases reverse_count,
        {
            let ghost before = strings_of(lines@);
            match self.pop_call_frame() {
                Ok(call_frame) => {
                    count = count + 1;
                    if count <= 20 {
                        push_line(&mut lines, frame_line(call_frame));
                    }
                    if reverse_count == 21 {
                        push_line(&mut lines, "...".to_owned());
                    }
                    if reverse_count <= 20 {
                        push_line(&mut lines, frame_line(call_frame));
                    }
                    reverse_count = reverse_count - 1;
                    assert(strings_of(lines@) =~= before + frame_lines(stack, sp0, count - 1));
                },
                Err(_) => {
                    break;
                },
            }
        }
        push_line(&mut lines, "END".to_owned());
        assert(strings_of(lines@) =~= unwind_report(stack, sp0));
        lines
    }
}

impl VMThread {
    /// The report of the heap cleanup that follows a failure.
    pub fn on_err_bulldoser(&mut self) -> (r: Vec<String>)
        ensures
            strings_of(r@) == bulldoser_report(),
            *final(self) == *old(self),
    {
        let mut lines: Vec<String> = Vec::new();
        push_line(&mut lines, "Running memory bulldoser; destroying heap objects:".to_owned());
        push_line(&mut lines, "END".to_owned());
        assert(strings_of(lines@) =~= bulldoser_report());
        lines
    }

    /// Cleans up after a failure: unwinds the call stack, then runs the
    /// heap cleanup; returns the report to print, a blank line between the two.
    pub fn on_error_cleanup(&mut self) -> (r: Vec<String>)
        requires
            old(self).wf(),
        ensures
            final(self).wf(),
            final(self).call_stack_pointer == 0,
            final(self).call_stack == old(self).call_stack,
            final(self).registers == old(self).registers,
            final(self).program_counter == old(self).program_counter,
            strings_of(r@) == unwind_report(old(self).call_stack@, old(self).call_stack_pointer as int)
                + seq![Seq::<char>::empty()] + bulldoser_report(),
    {
        let mut lines = self.on_err_unwind_callstack();
        push_line(&mut lines, String::new());
        let mut rest = self.on_err_bulldoser();
        let ghost a = strings_of(lines@);
        let ghost b = strings_of(rest@);
        lines.append(&mut rest);
        assert(strings_of(lines@) =~= a + b);
        lines
    }
}

pub open spec fn bulldoser_report() -> Seq<Seq<char>> {
    seq!["Running memory bulldoser; destroying heap objects:"@, "END"@]
}

/// The text of a list of strings.
pub open spec fn strings_of(v: Seq<String>) -> Seq<Seq<char>> {
    v.map_values(|s: String| s@)
}

fn push_line(lines: &mut Vec<String>, line: String)
    ensures
        strings_of(final(lines)@) == strings_of(old(lines)@).push(line@),
{
    let ghost l = line@;
    lines.push(line);
    assert(strings_of(lines@) =~= strings_of(old(lines)@).push(l));
}

/// The line that shows a frame: its return address right-aligned in six
/// columns, then its base.
pub open spec fn frame_text(f: CallFrame) -> Seq<char> {
    "Return PC: "@ + pad_start(int_text(f.return_pc as int), 6) + " | Base: "@ + int_text(f.base as int)
}

fn frame_line(f: CallFrame) -> (r: String)
    ensures
        r@ == frame_text(f),
{
    let mut s = "Return PC: ".to_owned();
    push_int_padded(&mut s, f.return_pc as i64, 6);
    push_str(&mut s, " | Base: ");
    crate::text::push_int_text(&mut s, f.base as i64);
    assert(s@ =~= frame_text(f));
    s
}

pub open spec fn unwind_head(sp: int) -> Seq<Seq<char>> {
    seq!["Unwinding Callstack:"@, "Stack pointer is at: "@ + int_text(sp)]
        + if sp > 41 { seq!["Truncating callstack to first and last 20 calls..."@] } else { Seq::empty() }
}

/// The lines for the `k`-th frame popped (from 0, top of the stack first)
/// out of `sp`: shown when it is among the first twenty popped, and again
/// when among the last twenty; `...` marks the gap before the last twenty.
pub open spec fn frame_lines(stack: Seq<CallFrame>, sp: int, k: int) -> Seq<Seq<char>> {
    let f = frame_text(stack[sp - 1 - k]);
    let remaining = sp - k;
    (if k + 1 <= 20 { seq![f] } else { Seq::empty() })
        + (if remaining == 21 { seq!["..."@] } else { Seq::empty() })
        + (if remaining <= 20 { seq![f] } else { Seq::empty() })
}

/// The lines for the first `n` frames popped.
pub open spec fn unwind_frames(stack: Seq<CallFrame>, sp: int, n: int) -> Seq<Seq<char>>
    decreases n,
{
    if n <= 0 {
        Seq::empty()
    } else {
        unwind_frames(stack, sp, n - 1) + frame_lines(stack, sp, n - 1)
    }
}

/// The whole report of unwinding a stack of height `sp`.
pub open spec fn unwind_report(stack: Seq<CallFrame>, sp: int) -> Seq<Seq<char>> {
    unwind_head(sp) + unwind_frames(stack, sp, sp) + seq!["END"@]
}


} // verus!
