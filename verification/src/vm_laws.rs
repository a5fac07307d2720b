//! What one step of a thread computes, stated against Rust's own integer
//! operators: the comparison and arithmetic instructions, and the constant
//! cells a program starts with.
use vstd::prelude::*;
use crate::bytecode::TaggedConstantValue;
use crate::register_val::{RegisterVal, bool_of, int_of, law_bool_roundtrip, law_int_roundtrip};
use crate::instructions::spec_get_opcode;
use crate::vm::{
    BitOp, Comparison, IntOp, StepOutcome, Stop, ThreadModel, VM, VMRuntimeError, arg_a, arg_b,
    arg_c, bool_val, compare, constant_cell, fetch_rk, int_op_value, int_val, offset_of,
    sem_int_compare, sem_int_op, sem_op, set_reg, step_spec, sem_bit_op, sem_logical,
    bit_op_value, PanicReason, HostRequest, trunc_div, trunc_rem, get_reg, get_const,
    sem_logical_not, sem_move, sem_loadconst, sem_jump, sem_jump_if, arg_bx,
};

verus! {

/// A step of `t` whose instruction reads its operands B and C as RK operands
/// and writes register A of the current frame, all within range.
pub open spec fn binary_step_ready(vm: VM, t: ThreadModel) -> bool {
    let inst = vm.instructions@[t.pc];
    &&& 0 <= t.pc < vm.instructions@.len()
    &&& 0 <= t.sp <= t.stack.len()
    &&& fetch_rk(vm, t, arg_b(inst), offset_of(t)) is Ok
    &&& fetch_rk(vm, t, arg_c(inst), offset_of(t)) is Ok
    &&& (arg_a(inst) as usize) + offset_of(t) < t.regs.len()
    &&& (arg_a(inst) as usize) + offset_of(t) <= usize::MAX
}

/// The integer value of operand B of the instruction at the program counter.
pub open spec fn operand_b(vm: VM, t: ThreadModel) -> i64 {
    int_of(fetch_rk(vm, t, arg_b(vm.instructions@[t.pc]), offset_of(t))->Ok_0)
}

/// The integer value of operand C of the instruction at the program counter.
pub open spec fn operand_c(vm: VM, t: ThreadModel) -> i64 {
    int_of(fetch_rk(vm, t, arg_c(vm.instructions@[t.pc]), offset_of(t))->Ok_0)
}

/// The register that operand A of the instruction at the program counter names.
pub open spec fn target_a(vm: VM, t: ThreadModel) -> int {
    (arg_a(vm.instructions@[t.pc]) as usize) + offset_of(t)
}

/// The step moved to the next instruction, kept the call stack, and wrote
/// at most register `i`.
pub open spec fn wrote_only(t: ThreadModel, t2: ThreadModel, i: int) -> bool {
    &&& t2.pc == t.pc + 1
    &&& t2.sp == t.sp
    &&& t2.stack == t.stack
    &&& t2.regs.len() == t.regs.len()
    &&& forall|j: int| 0 <= j < t.regs.len() && j != i ==> t2.regs[j] == t.regs[j]
}

/// The thread as a step sees it: the program counter already past the instruction.
pub open spec fn advanced(t: ThreadModel) -> ThreadModel {
    ThreadModel { pc: t.pc + 1, ..t }
}

proof fn lemma_advanced_reads_alike(vm: VM, t: ThreadModel)
    requires
        binary_step_ready(vm, t),
    ensures
        offset_of(advanced(t)) == offset_of(t),
        fetch_rk(vm, advanced(t), arg_b(vm.instructions@[t.pc]), offset_of(t))
            == fetch_rk(vm, t, arg_b(vm.instructions@[t.pc]), offset_of(t)),
        fetch_rk(vm, advanced(t), arg_c(vm.instructions@[t.pc]), offset_of(t))
            == fetch_rk(vm, t, arg_c(vm.instructions@[t.pc]), offset_of(t)),
{
}

proof fn lemma_write(t: ThreadModel, reg: usize, v: RegisterVal)
    requires
        0 <= t.sp <= t.stack.len(),
        reg + offset_of(t) < t.regs.len(),
        reg + offset_of(t) <= usize::MAX,
    ensures
        set_reg(t, reg, v) == Ok::<ThreadModel, Stop>(ThreadModel { regs: t.regs.update(reg + offset_of(t), v), ..t }),
{
}

/// The integer comparisons: `INT_EQ`, `INT_NE`, `INT_LT`, `INT_LE`, `INT_GT`
/// and `INT_GE` (opcodes 13 to 18) write to register A whether B `==`, `!=`,
/// `<`, `<=`, `>`, `>=` C, as Rust compares two `i64`, and change nothing else.
pub proof fn law_integer_comparisons(vm: VM, t: ThreadModel)
    requires
        binary_step_ready(vm, t),
        13 <= spec_get_opcode(vm.instructions@[t.pc]) <= 18,
    ensures
        ({
            let (t2, r) = step_spec(vm, t);
            let op = spec_get_opcode(vm.instructions@[t.pc]);
            let (x, y) = (operand_b(vm, t), operand_c(vm, t));
            let v = bool_of(t2.regs[target_a(vm, t)]);
            &&& r == Ok::<StepOutcome, VMRuntimeError>(StepOutcome::Continue)
            &&& wrote_only(t, t2, target_a(vm, t))
            &&& (op == 13 ==> v == (x == y))
            &&& (op == 14 ==> v == (x != y))
            &&& (op == 15 ==> v == (x < y))
            &&& (op == 16 ==> v == (x <= y))
            &&& (op == 17 ==> v == (x > y))
            &&& (op == 18 ==> v == (x >= y))
        }),
{
    law_bool_roundtrip(true);
    law_bool_roundtrip(false);
    let inst = vm.instructions@[t.pc];
    let op = spec_get_opcode(inst);
    let t1 = advanced(t);
    lemma_advanced_reads_alike(vm, t);
    let (x, y) = (operand_b(vm, t), operand_c(vm, t));
    let i = target_a(vm, t);
    let kind = if op == 13 {
        Comparison::Eq
    } else if op == 14 {
        Comparison::Ne
    } else if op == 15 {
        Comparison::Lt
    } else if op == 16 {
        Comparison::Le
    } else if op == 17 {
        Comparison::Gt
    } else {
        Comparison::Ge
    };
    let val = bool_val(compare(kind, x, y));
    lemma_write(t1, arg_a(inst) as usize, val);
    let t2 = ThreadModel { regs: t1.regs.update(i, val), ..t1 };
    assert(sem_int_compare(vm, t1, inst, kind) == (t2, Ok::<StepOutcome, Stop>(StepOutcome::Continue)));
    assert(sem_op(vm, t1, inst) == sem_int_compare(vm, t1, inst, kind));
    assert(step_spec(vm, t) == (t2, Ok::<StepOutcome, VMRuntimeError>(StepOutcome::Continue)));
    assert(t2.regs[i] == val);
}

/// The modulus of 64-bit arithmetic.
pub open spec fn two_to_64() -> int {
    0x1_0000_0000_0000_0000
}

/// `INT_ADD`, `INT_SUB` and `INT_MUL` (opcodes 4 to 6) write to register A
/// the sum, difference or product of B and C, exact when it fits in an
/// `i64` and otherwise wrapped around by a multiple of 2^64, and change
/// nothing else.
pub proof fn law_integer_arithmetic(vm: VM, t: ThreadModel)
    requires
        binary_step_ready(vm, t),
        4 <= spec_get_opcode(vm.instructions@[t.pc]) <= 6,
    ensures
        ({
            let (t2, r) = step_spec(vm, t);
            let op = spec_get_opcode(vm.instructions@[t.pc]);
            let (x, y) = (operand_b(vm, t), operand_c(vm, t));
            let v = int_of(t2.regs[target_a(vm, t)]) as int;
            let exact = if op == 4 { x + y } else if op == 5 { x - y } else { x * y };
            &&& r == Ok::<StepOutcome, VMRuntimeError>(StepOutcome::Continue)
            &&& wrote_only(t, t2, target_a(vm, t))
            &&& (v - exact) % two_to_64() == 0
            &&& (i64::MIN <= exact <= i64::MAX ==> v == exact)
        }),
{
    let inst = vm.instructions@[t.pc];
    let op = spec_get_opcode(inst);
    let (x, y) = (operand_b(vm, t), operand_c(vm, t));
    let w: i64 = if op == 4 {
        vstd::wrapping::i64_specs::wrapping_add(x, y)
    } else if op == 5 {
        vstd::wrapping::i64_specs::wrapping_sub(x, y)
    } else {
        vstd::wrapping::i64_specs::wrapping_mul(x, y)
    };
    law_int_roundtrip(w);
    let t1 = advanced(t);
    lemma_advanced_reads_alike(vm, t);
    let i = target_a(vm, t);
    let iop = if op == 4 { IntOp::Add } else if op == 5 { IntOp::Sub } else { IntOp::Mul };
    assert(int_op_value(iop, x, y) == Ok::<i64, Stop>(w));
    let val = int_val(w);
    lemma_write(t1, arg_a(inst) as usize, val);
    let t2 = ThreadModel { regs: t1.regs.update(i, val), ..t1 };
    assert(sem_int_op(vm, t1, inst, iop) == (t2, Ok::<StepOutcome, Stop>(StepOutcome::Continue)));
    assert(sem_op(vm, t1, inst) == sem_int_op(vm, t1, inst, iop));
    assert(step_spec(vm, t) == (t2, Ok::<StepOutcome, VMRuntimeError>(StepOutcome::Continue)));
    assert(t2.regs[i] == val);
    let exact = if op == 4 { x + y } else if op == 5 { x - y } else { x * y };
    assert((w - exact) % two_to_64() == 0 && (i64::MIN <= exact <= i64::MAX ==> w == exact)) by (nonlinear_arith)
        requires
            op == 4 ==> w == vstd::wrapping::i64_specs::wrapping_add(x, y) && exact == x + y,
            op == 5 ==> w == vstd::wrapping::i64_specs::wrapping_sub(x, y) && exact == x - y,
            op == 6 ==> w == vstd::wrapping::i64_specs::wrapping_mul(x, y) && exact == x * y,
            4 <= op <= 6;
}

/// The bitwise instructions: `INT_BITAND`, `INT_BITOR` and `INT_BITXOR`
/// (opcodes 29 to 31) write B `&`, `|`, `^` C; `INT_SHL` and `INT_SHR` (32
/// and 33) write B `<<` or `>>` C when C is from 0 to 63, and otherwise
/// abort with the shift amount, writing nothing. Nothing else changes.
pub proof fn law_bitwise(vm: VM, t: ThreadModel)
    requires
        binary_step_ready(vm, t),
        29 <= spec_get_opcode(vm.instructions@[t.pc]) <= 33,
    ensures
        ({
            let (t2, r) = step_spec(vm, t);
            let op = spec_get_opcode(vm.instructions@[t.pc]);
            let (x, y) = (operand_b(vm, t), operand_c(vm, t));
            let v = int_of(t2.regs[target_a(vm, t)]);
            let shifts_out = (op == 32 || op == 33) && !(0 <= y < 64);
            &&& (!shifts_out ==> r == Ok::<StepOutcome, VMRuntimeError>(StepOutcome::Continue)
                && wrote_only(t, t2, target_a(vm, t)))
            &&& (op == 29 ==> v == x & y)
            &&& (op == 30 ==> v == x | y)
            &&& (op == 31 ==> v == x ^ y)
            &&& (op == 32 && 0 <= y < 64 ==> v == x << y)
            &&& (op == 33 && 0 <= y < 64 ==> v == x >> y)
            &&& (shifts_out ==> r == Ok::<StepOutcome, VMRuntimeError>(
                StepOutcome::Host(HostRequest::Panic(PanicReason::ShiftOutOfRange(y))))
                && t2 == advanced(t))
        }),
{
    let inst = vm.instructions@[t.pc];
    let op = spec_get_opcode(inst);
    let t1 = advanced(t);
    lemma_advanced_reads_alike(vm, t);
    let (x, y) = (operand_b(vm, t), operand_c(vm, t));
    let i = target_a(vm, t);
    let bop = if op == 29 {
        BitOp::And
    } else if op == 30 {
        BitOp::Or
    } else if op == 31 {
        BitOp::Xor
    } else if op == 32 {
        BitOp::Shl
    } else {
        BitOp::Shr
    };
    assert(sem_op(vm, t1, inst) == sem_bit_op(vm, t1, inst, bop));
    match bit_op_value(bop, x, y) {
        Ok(w) => {
            law_int_roundtrip(w);
            let val = int_val(w);
            lemma_write(t1, arg_a(inst) as usize, val);
            let t2 = ThreadModel { regs: t1.regs.update(i, val), ..t1 };
            assert(sem_bit_op(vm, t1, inst, bop) == (t2, Ok::<StepOutcome, Stop>(StepOutcome::Continue)));
            assert(step_spec(vm, t) == (t2, Ok::<StepOutcome, VMRuntimeError>(StepOutcome::Continue)));
            assert(t2.regs[i] == val);
        },
        Err(e) => {
            assert(sem_bit_op(vm, t1, inst, bop) == (t1, Err::<StepOutcome, Stop>(e)));
        },
    }
}

/// `LOGICAL_AND` and `LOGICAL_OR` (opcodes 11 and 12) write to register A
/// whether B and C, or B or C, hold when read as booleans, and change
/// nothing else.
pub proof fn law_logical(vm: VM, t: ThreadModel)
    requires
        binary_step_ready(vm, t),
        11 <= spec_get_opcode(vm.instructions@[t.pc]) <= 12,
    ensures
        ({
            let (t2, r) = step_spec(vm, t);
            let op = spec_get_opcode(vm.instructions@[t.pc]);
            let inst = vm.instructions@[t.pc];
            let p = bool_of(fetch_rk(vm, t, arg_b(inst), offset_of(t))->Ok_0);
            let q = bool_of(fetch_rk(vm, t, arg_c(inst), offset_of(t))->Ok_0);
            let v = bool_of(t2.regs[target_a(vm, t)]);
            &&& r == Ok::<StepOutcome, VMRuntimeError>(StepOutcome::Continue)
            &&& wrote_only(t, t2, target_a(vm, t))
            &&& (op == 11 ==> v == (p && q))
            &&& (op == 12 ==> v == (p || q))
        }),
{
    law_bool_roundtrip(true);
    law_bool_roundtrip(false);
    let inst = vm.instructions@[t.pc];
    let op = spec_get_opcode(inst);
    let t1 = advanced(t);
    lemma_advanced_reads_alike(vm, t);
    let i = target_a(vm, t);
    let and = op == 11;
    let p = bool_of(fetch_rk(vm, t, arg_b(inst), offset_of(t))->Ok_0);
    let q = bool_of(fetch_rk(vm, t, arg_c(inst), offset_of(t))->Ok_0);
    let val = bool_val(if and { p && q } else { p || q });
    lemma_write(t1, arg_a(inst) as usize, val);
    let t2 = ThreadModel { regs: t1.regs.update(i, val), ..t1 };
    assert(sem_logical(vm, t1, inst, and) == (t2, Ok::<StepOutcome, Stop>(StepOutcome::Continue)));
    assert(sem_op(vm, t1, inst) == sem_logical(vm, t1, inst, and));
    assert(step_spec(vm, t) == (t2, Ok::<StepOutcome, VMRuntimeError>(StepOutcome::Continue)));
    assert(t2.regs[i] == val);
}

/// Division and remainder round toward zero, as Rust's `/` and `%` on
/// integers do: `INT_DIV` (opcode 7) writes a quotient `q` and `INT_MOD`
/// (opcode 8) a remainder `m` with `x == q * y + m`, `m` smaller than `y` in
/// size and of the sign of `x` (or zero). Dividing the least `i64` by -1
/// wraps back to it, with remainder 0. A zero divisor is `DivideByZero` for
/// `INT_DIV` and an abort for `INT_MOD`, and writes nothing.
pub proof fn law_division(vm: VM, t: ThreadModel)
    requires
        binary_step_ready(vm, t),
        7 <= spec_get_opcode(vm.instructions@[t.pc]) <= 8,
    ensures
        ({
            let (t2, r) = step_spec(vm, t);
            let op = spec_get_opcode(vm.instructions@[t.pc]);
            let (x, y) = (operand_b(vm, t), operand_c(vm, t));
            let v = int_of(t2.regs[target_a(vm, t)]);
            &&& (y != 0 ==> r == Ok::<StepOutcome, VMRuntimeError>(StepOutcome::Continue)
                && wrote_only(t, t2, target_a(vm, t)))
            &&& (y != 0 && !(x == i64::MIN && y == -1) ==> {
                let q = if op == 7 { v as int } else { (x - v) / (y as int) };
                let m = if op == 7 { x - v * y } else { v as int };
                &&& x == q * y + m
                &&& (if m < 0 { -m } else { m }) < (if y < 0 { -(y as int) } else { y as int })
                &&& (m == 0 || (m < 0) == (x < 0))
            })
            &&& (y == -1 && x == i64::MIN ==> v == (if op == 7 { i64::MIN } else { 0 }))
            &&& (y == 0 && op == 7 ==> r == Err::<StepOutcome, VMRuntimeError>(VMRuntimeError::DivideByZero)
                && t2 == advanced(t))
            &&& (y == 0 && op == 8 ==> r == Ok::<StepOutcome, VMRuntimeError>(
                StepOutcome::Host(HostRequest::Panic(PanicReason::RemainderByZero)))
                && t2 == advanced(t))
        }),
{
    let inst = vm.instructions@[t.pc];
    let op = spec_get_opcode(inst);
    let t1 = advanced(t);
    lemma_advanced_reads_alike(vm, t);
    let (x, y) = (operand_b(vm, t), operand_c(vm, t));
    let i = target_a(vm, t);
    let iop = if op == 7 { IntOp::Div } else { IntOp::Mod };
    assert(sem_op(vm, t1, inst) == sem_int_op(vm, t1, inst, iop));
    if y != 0 {
        let d = trunc_div(x as int, y as int);
        lemma_trunc_division(x as int, y as int);
        let w: i64 = if op == 7 { d as i64 } else { trunc_rem(x as int, y as int) as i64 };
        assert(int_op_value(iop, x, y) == Ok::<i64, Stop>(w));
        law_int_roundtrip(w);
        let val = int_val(w);
        lemma_write(t1, arg_a(inst) as usize, val);
        let t2 = ThreadModel { regs: t1.regs.update(i, val), ..t1 };
        assert(sem_int_op(vm, t1, inst, iop) == (t2, Ok::<StepOutcome, Stop>(StepOutcome::Continue)));
        assert(step_spec(vm, t) == (t2, Ok::<StepOutcome, VMRuntimeError>(StepOutcome::Continue)));
        assert(t2.regs[i] == val);
        let m = trunc_rem(x as int, y as int);
        if !(x == i64::MIN && y == -1) {
            assert(i64::MIN <= d <= i64::MAX);
            assert(w as int == (if op == 7 { d } else { m }));
            if op == 8 {
                assert(x - m == d * y);
                lemma_exact_quotient(x - m, d, y as int);
            }
        } else {
            assert(d == 0x8000_0000_0000_0000);
            assert(m == 0);
            assert((0x8000_0000_0000_0000int) as i64 == i64::MIN) by (bit_vector);
        }
    }
}

/// Truncating division: `x == q * y + m` with `m` smaller than `y` in size
/// and of the sign of `x`, and `q` fits an `i64` unless `x` is the least
/// `i64` and `y` is -1.
proof fn lemma_trunc_division(x: int, y: int)
    requires
        y != 0,
        i64::MIN <= x <= i64::MAX,
        i64::MIN <= y <= i64::MAX,
    ensures
        x == trunc_div(x, y) * y + trunc_rem(x, y),
        (if trunc_rem(x, y) < 0 { -trunc_rem(x, y) } else { trunc_rem(x, y) }) < (if y < 0 { -y } else { y }),
        trunc_rem(x, y) == 0 || (trunc_rem(x, y) < 0) == (x < 0),
        !(x == i64::MIN && y == -1) ==> i64::MIN <= trunc_div(x, y) <= i64::MAX,
        x == i64::MIN && y == -1 ==> trunc_div(x, y) == 0x8000_0000_0000_0000 && trunc_rem(x, y) == 0,
{
    let ax = if x < 0 { -x } else { x };
    let ay = if y < 0 { -y } else { y };
    let q0 = ax / ay;
    let r0 = ax % ay;
    assert(ax == q0 * ay + r0 && 0 <= r0 < ay && q0 >= 0) by (nonlinear_arith)
        requires ax >= 0, ay > 0, q0 == ax / ay, r0 == ax % ay;
    assert(q0 <= ax) by (nonlinear_arith)
        requires ax == q0 * ay + r0, 0 <= r0, ay >= 1, q0 >= 0;
    let q = trunc_div(x, y);
    assert(q == (if (x < 0) == (y < 0) { q0 } else { -q0 }));
    let m = x - y * q;
    assert(trunc_rem(x, y) == m);
    assert(m == (if x < 0 { -r0 } else { r0 })) by (nonlinear_arith)
        requires
            ax == q0 * ay + r0,
            ax == (if x < 0 { -x } else { x }),
            ay == (if y < 0 { -y } else { y }),
            q == (if (x < 0) == (y < 0) { q0 } else { -q0 }),
            m == x - y * q;
    assert(x == q * y + m) by (nonlinear_arith)
        requires m == x - y * q;
    if x == i64::MIN && y == -1 {
        assert(q0 == 0x8000_0000_0000_0000) by (nonlinear_arith)
            requires ax == 0x8000_0000_0000_0000int, ay == 1, q0 == ax / ay;
        assert(r0 == 0) by (nonlinear_arith)
            requires ax == 0x8000_0000_0000_0000int, ay == 1, r0 == ax % ay;
    } else {
        if ay == 1 {
            assert(q0 == ax) by (nonlinear_arith)
                requires ay == 1, q0 == ax / ay;
        } else {
            assert(q0 * 2 <= ax) by (nonlinear_arith)
                requires ax == q0 * ay + r0, 0 <= r0, ay >= 2, q0 >= 0;
        }
    }
}

/// An exact quotient: if `a == d * y` with `y` nonzero, then `a / y == d`.
proof fn lemma_exact_quotient(a: int, d: int, y: int)
    requires
        y != 0,
        a == d * y,
    ensures
        a / y == d,
{
    vstd::arithmetic::div_mod::lemma_fundamental_div_mod(a, y);
    let q = a / y;
    let r = a % y;
    assert(0 <= r < (if y < 0 { -y } else { y }));
    assert((d - q) * y == r) by (nonlinear_arith)
        requires a == d * y, a == y * q + r;
    if d != q {
        assert((if y < 0 { -y } else { y }) <= (if (d - q) * y < 0 { -((d - q) * y) } else { (d - q) * y })) by (nonlinear_arith)
            requires d != q, y != 0;
    }
}

/// `LOGICAL_NOT` (opcode 10) writes to register A whether B reads as false,
/// and changes nothing else.
pub proof fn law_logical_not(vm: VM, t: ThreadModel)
    requires
        binary_step_ready(vm, t),
        spec_get_opcode(vm.instructions@[t.pc]) == 10,
    ensures
        ({
            let (t2, r) = step_spec(vm, t);
            let inst = vm.instructions@[t.pc];
            let p = bool_of(fetch_rk(vm, t, arg_b(inst), offset_of(t))->Ok_0);
            &&& r == Ok::<StepOutcome, VMRuntimeError>(StepOutcome::Continue)
            &&& wrote_only(t, t2, target_a(vm, t))
            &&& bool_of(t2.regs[target_a(vm, t)]) == !p
        }),
{
    law_bool_roundtrip(true);
    law_bool_roundtrip(false);
    let inst = vm.instructions@[t.pc];
    let t1 = advanced(t);
    lemma_advanced_reads_alike(vm, t);
    let i = target_a(vm, t);
    let p = bool_of(fetch_rk(vm, t, arg_b(inst), offset_of(t))->Ok_0);
    let val = bool_val(!p);
    lemma_write(t1, arg_a(inst) as usize, val);
    let t2 = ThreadModel { regs: t1.regs.update(i, val), ..t1 };
    assert(sem_logical_not(vm, t1, inst) == (t2, Ok::<StepOutcome, Stop>(StepOutcome::Continue)));
    assert(sem_op(vm, t1, inst) == sem_logical_not(vm, t1, inst));
    assert(step_spec(vm, t) == (t2, Ok::<StepOutcome, VMRuntimeError>(StepOutcome::Continue)));
}

/// `JUMP` (opcode 19) continues at instruction Bx. `JUMP_IF_TRUE` and
/// `JUMP_IF_FALSE` (20 and 21) continue at Bx when register A reads as true,
/// or as false, and otherwise at the next instruction. None writes a register.
pub proof fn law_jumps(vm: VM, t: ThreadModel)
    requires
        0 <= t.pc < vm.instructions@.len(),
        0 <= t.sp <= t.stack.len(),
        19 <= spec_get_opcode(vm.instructions@[t.pc]) <= 21,
        get_reg(t, arg_a(vm.instructions@[t.pc]) as usize, offset_of(t)) is Ok,
    ensures
        ({
            let (t2, r) = step_spec(vm, t);
            let inst = vm.instructions@[t.pc];
            let op = spec_get_opcode(inst);
            let target = (arg_bx(inst) as usize) as int;
            let cond = bool_of(get_reg(t, arg_a(inst) as usize, offset_of(t))->Ok_0);
            let taken = op == 19 || (op == 20 && cond) || (op == 21 && !cond);
            &&& r == Ok::<StepOutcome, VMRuntimeError>(StepOutcome::Continue)
            &&& t2.regs == t.regs
            &&& t2.stack == t.stack
            &&& t2.sp == t.sp
            &&& t2.pc == (if taken { target } else { t.pc + 1 })
        }),
{
    let inst = vm.instructions@[t.pc];
    let op = spec_get_opcode(inst);
    let t1 = advanced(t);
    assert(offset_of(t1) == offset_of(t));
    assert(get_reg(t1, arg_a(inst) as usize, offset_of(t)) == get_reg(t, arg_a(inst) as usize, offset_of(t)));
    if op == 19 {
        assert(sem_op(vm, t1, inst) == sem_jump(t1, inst));
    } else if op == 20 {
        assert(sem_op(vm, t1, inst) == sem_jump_if(t1, inst, true));
    } else {
        assert(sem_op(vm, t1, inst) == sem_jump_if(t1, inst, false));
    }
}

/// `MOVE` (opcode 0) copies register B of the current frame into register A;
/// `LOADCONST` (opcode 1) copies constant Bx into register A. Nothing else changes.
pub proof fn law_moves(vm: VM, t: ThreadModel)
    requires
        0 <= t.pc < vm.instructions@.len(),
        0 <= t.sp <= t.stack.len(),
        0 <= spec_get_opcode(vm.instructions@[t.pc]) <= 1,
        (arg_a(vm.instructions@[t.pc]) as usize) + offset_of(t) < t.regs.len(),
        (arg_a(vm.instructions@[t.pc]) as usize) + offset_of(t) <= usize::MAX,
        spec_get_opcode(vm.instructions@[t.pc]) == 0 ==> get_reg(t, arg_b(vm.instructions@[t.pc]) as usize, offset_of(t)) is Ok,
        spec_get_opcode(vm.instructions@[t.pc]) == 1 ==> (arg_bx(vm.instructions@[t.pc]) as usize) < vm.constant_pool@.len(),
    ensures
        ({
            let (t2, r) = step_spec(vm, t);
            let inst = vm.instructions@[t.pc];
            let op = spec_get_opcode(inst);
            &&& r == Ok::<StepOutcome, VMRuntimeError>(StepOutcome::Continue)
            &&& wrote_only(t, t2, target_a(vm, t))
            &&& (op == 0 ==> t2.regs[target_a(vm, t)] == t.regs[(arg_b(inst) as usize) + offset_of(t)])
            &&& (op == 1 ==> t2.regs[target_a(vm, t)] == vm.constant_pool@[(arg_bx(inst) as usize) as int])
        }),
{
    let inst = vm.instructions@[t.pc];
    let op = spec_get_opcode(inst);
    let t1 = advanced(t);
    assert(offset_of(t1) == offset_of(t));
    let i = target_a(vm, t);
    let val = if op == 0 {
        get_reg(t, arg_b(inst) as usize, offset_of(t))->Ok_0
    } else {
        vm.constant_pool@[(arg_bx(inst) as usize) as int]
    };
    assert(get_reg(t1, arg_b(inst) as usize, offset_of(t)) == get_reg(t, arg_b(inst) as usize, offset_of(t)));
    lemma_write(t1, arg_a(inst) as usize, val);
    let t2 = ThreadModel { regs: t1.regs.update(i, val), ..t1 };
    if op == 0 {
        assert(sem_op(vm, t1, inst) == sem_move(t1, inst));
        assert(sem_move(t1, inst) == (t2, Ok::<StepOutcome, Stop>(StepOutcome::Continue)));
    } else {
        assert(sem_op(vm, t1, inst) == sem_loadconst(vm, t1, inst));
        assert(get_const(vm, arg_bx(inst) as usize) == Ok::<RegisterVal, Stop>(val));
        assert(sem_loadconst(vm, t1, inst) == (t2, Ok::<StepOutcome, Stop>(StepOutcome::Continue)));
    }
    assert(step_spec(vm, t) == (t2, Ok::<StepOutcome, VMRuntimeError>(StepOutcome::Continue)));
}

/// The cell of each constant of a program reads back as the constant:
/// `Null` as zero bits, `Int(v)` as `v`, `Float(bits)` as those bits,
/// `Bool(b)` as `b`, and the k-th string constant as the k-th string address.
pub proof fn law_constant_cells(cs: Seq<TaggedConstantValue>, i: int, string_ptrs: Seq<RegisterVal>)
    requires
        0 <= i < cs.len(),
    ensures
        cs[i] is Null ==> constant_cell(cs, i, string_ptrs).bits == 0,
        cs[i] matches TaggedConstantValue::Int(v) ==> int_of(constant_cell(cs, i, string_ptrs)) == v,
        cs[i] matches TaggedConstantValue::Float(bits) ==> constant_cell(cs, i, string_ptrs).bits == bits,
        cs[i] matches TaggedConstantValue::Bool(b) ==> bool_of(constant_cell(cs, i, string_ptrs)) == b,
{
    match cs[i] {
        TaggedConstantValue::Int(v) => law_int_roundtrip(v),
        TaggedConstantValue::Bool(b) => law_bool_roundtrip(b),
        _ => {},
    }
}

} // verus!
