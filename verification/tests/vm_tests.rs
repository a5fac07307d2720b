use quiklang::bytecode::{ByteCode, TaggedConstantValue};
use quiklang::instructions::{
    rk_ask, ABx, ASBx, Abc, Instruction, OP_CALL, OP_CONCAT, OP_DROP_STRING, OP_EXIT,
    OP_FLOAT_ADD, OP_FLOAT_LT, OP_INT_ADD, OP_INT_DIV, OP_INT_EQ, OP_INT_INC, OP_INT_MOD,
    OP_INT_MUL, OP_INT_POW, OP_INT_SHL, OP_INT_SUB, OP_INT_TO_STRING, OP_JUMP,
    OP_JUMP_IF_FALSE, OP_JUMP_IF_TRUE, OP_LOADBOOL, OP_LOADCONST, OP_LOADNULL, OP_LOGICAL_AND,
    OP_LOGICAL_NOT, OP_MOVE, OP_MOVE_2X, OP_NATIVE_CALL, OP_QFFI_CALL, OP_RETURN,
};
use quiklang::register_val::RegisterVal;
use quiklang::vm::{
    CallFrame, Comparison, FloatOp, HostRequest, PanicReason, StepOutcome, VMRuntimeError,
    VMThread, CALL_STACK_SIZE, REGISTER_COUNT, VM,
};

fn ival(i: i64) -> RegisterVal {
    RegisterVal::from_int(i)
}

fn vm_with(instructions: Vec<Instruction>, constants: Vec<RegisterVal>) -> VM {
    VM::new(instructions, constants, Vec::new(), vec![4])
}

/// Runs the first instruction of a program on a fresh thread whose
/// registers 0, 1, 2, ... hold `regs`.
fn run_one(
    inst: Instruction,
    constants: Vec<RegisterVal>,
    regs: &[i64],
) -> (VMThread, Result<StepOutcome, VMRuntimeError>) {
    let vm = vm_with(vec![inst], constants);
    let mut thread = VMThread::new();
    for (i, v) in regs.iter().enumerate() {
        thread.set_register(i, ival(*v)).unwrap();
    }
    let r = thread.step(&vm);
    (thread, r)
}

fn reg(t: &VMThread, i: usize) -> i64 {
    t.get_register_ref(i, 0).unwrap().as_int()
}

#[test]
fn new_thread_is_empty() {
    let t = VMThread::new();
    assert_eq!(t.program_counter, 0);
    assert_eq!(t.call_stack_pointer, 0);
    assert_eq!(t.registers.len(), REGISTER_COUNT);
    assert_eq!(t.call_stack.len(), CALL_STACK_SIZE);
    assert!(t.registers.iter().all(|r| r.bits == 0));
    assert_eq!(t.result(), RegisterVal::null());
}

#[test]
fn move_copies_a_register() {
    let (t, r) = run_one(Abc(OP_MOVE, 3, 1, 0), vec![], &[0, 17]);
    assert_eq!(r, Ok(StepOutcome::Continue));
    assert_eq!(reg(&t, 3), 17);
    assert_eq!(t.program_counter, 1);
}

#[test]
fn loadconst_reads_the_pool() {
    let (t, r) = run_one(ABx(OP_LOADCONST, 2, 1), vec![ival(5), ival(42)], &[]);
    assert_eq!(r, Ok(StepOutcome::Continue));
    assert_eq!(reg(&t, 2), 42);
}

#[test]
fn loadconst_out_of_the_pool() {
    let (_t, r) = run_one(ABx(OP_LOADCONST, 2, 9), vec![ival(5)], &[]);
    assert_eq!(r, Err(VMRuntimeError::InvalidConstantAccess(9)));
}

#[test]
fn loadbool_may_skip_the_next_instruction() {
    let (t, r) = run_one(Abc(OP_LOADBOOL, 0, 1, 1), vec![], &[]);
    assert_eq!(r, Ok(StepOutcome::Continue));
    assert!(t.get_register_ref(0, 0).unwrap().as_bool());
    assert_eq!(t.program_counter, 2);
    let (t, _) = run_one(Abc(OP_LOADBOOL, 0, 0, 0), vec![], &[9]);
    assert!(!t.get_register_ref(0, 0).unwrap().as_bool());
    assert_eq!(t.program_counter, 1);
}

#[test]
fn loadnull_clears_a_range() {
    let (t, r) = run_one(Abc(OP_LOADNULL, 1, 3, 0), vec![], &[5, 6, 7, 8, 9]);
    assert_eq!(r, Ok(StepOutcome::Continue));
    assert_eq!(reg(&t, 0), 5);
    assert_eq!(reg(&t, 1), 0);
    assert_eq!(reg(&t, 2), 0);
    assert_eq!(reg(&t, 3), 0);
    assert_eq!(reg(&t, 4), 9);
}

#[test]
fn integer_arithmetic_with_constants_and_registers() {
    let (t, _) = run_one(Abc(OP_INT_ADD, 0, rk_ask(0), 1), vec![ival(40)], &[0, 2]);
    assert_eq!(reg(&t, 0), 42);
    let (t, _) = run_one(Abc(OP_INT_SUB, 0, 1, 2), vec![], &[0, 5, 9]);
    assert_eq!(reg(&t, 0), -4);
    let (t, _) = run_one(Abc(OP_INT_MUL, 0, 1, 2), vec![], &[0, -6, 7]);
    assert_eq!(reg(&t, 0), -42);
    let (t, _) = run_one(Abc(OP_INT_POW, 0, 1, 2), vec![], &[0, 2, 10]);
    assert_eq!(reg(&t, 0), 1024);
}

#[test]
fn integer_arithmetic_wraps() {
    let (t, _) = run_one(Abc(OP_INT_ADD, 0, 1, 2), vec![], &[0, i64::MAX, 1]);
    assert_eq!(reg(&t, 0), i64::MIN);
}

#[test]
fn division_rounds_toward_zero() {
    let (t, _) = run_one(Abc(OP_INT_DIV, 0, 1, 2), vec![], &[0, -7, 2]);
    assert_eq!(reg(&t, 0), -3);
    let (t, _) = run_one(Abc(OP_INT_MOD, 0, 1, 2), vec![], &[0, -7, 2]);
    assert_eq!(reg(&t, 0), -1);
    let (t, _) = run_one(Abc(OP_INT_DIV, 0, 1, 2), vec![], &[0, i64::MIN, -1]);
    assert_eq!(reg(&t, 0), i64::MIN);
}

#[test]
fn division_by_zero_is_an_error() {
    let (t, r) = run_one(Abc(OP_INT_DIV, 0, 1, 2), vec![], &[3, 7, 0]);
    assert_eq!(r, Err(VMRuntimeError::DivideByZero));
    assert_eq!(reg(&t, 0), 3);
}

#[test]
fn remainder_by_zero_aborts() {
    let (_t, r) = run_one(Abc(OP_INT_MOD, 0, 1, 2), vec![], &[3, 7, 0]);
    assert_eq!(
        r,
        Ok(StepOutcome::Host(HostRequest::Panic(PanicReason::RemainderByZero)))
    );
}

#[test]
fn shift_out_of_range_aborts() {
    let (t, _) = run_one(Abc(OP_INT_SHL, 0, 1, 2), vec![], &[0, 3, 4]);
    assert_eq!(reg(&t, 0), 48);
    let (_t, r) = run_one(Abc(OP_INT_SHL, 0, 1, 2), vec![], &[0, 3, 64]);
    assert_eq!(
        r,
        Ok(StepOutcome::Host(HostRequest::Panic(PanicReason::ShiftOutOfRange(64))))
    );
}

#[test]
fn comparisons_and_logic() {
    let (t, _) = run_one(Abc(OP_INT_EQ, 0, 1, 2), vec![], &[0, 4, 4]);
    assert!(t.get_register_ref(0, 0).unwrap().as_bool());
    let (t, _) = run_one(Abc(OP_LOGICAL_AND, 0, 1, 2), vec![], &[0, 1, 0]);
    assert!(!t.get_register_ref(0, 0).unwrap().as_bool());
    let (t, _) = run_one(Abc(OP_LOGICAL_NOT, 0, 1, 0), vec![], &[0, 0]);
    assert!(t.get_register_ref(0, 0).unwrap().as_bool());
}

#[test]
fn increment_reads_the_constant_numbered_a() {
    let (t, r) = run_one(Abc(OP_INT_INC, 1, 0, 0), vec![ival(10), ival(20)], &[0, 100]);
    assert_eq!(r, Ok(StepOutcome::Continue));
    assert_eq!(reg(&t, 1), 21);
}

#[test]
fn jumps() {
    let (t, _) = run_one(ABx(OP_JUMP, 0, 7), vec![], &[]);
    assert_eq!(t.program_counter, 7);
    let (t, _) = run_one(ABx(OP_JUMP_IF_TRUE, 0, 7), vec![], &[1]);
    assert_eq!(t.program_counter, 7);
    let (t, _) = run_one(ABx(OP_JUMP_IF_TRUE, 0, 7), vec![], &[0]);
    assert_eq!(t.program_counter, 1);
    let (t, _) = run_one(ABx(OP_JUMP_IF_FALSE, 0, 7), vec![], &[0]);
    assert_eq!(t.program_counter, 7);
    // a jump reads the unsigned Bx field, so a signed operand lands 131072 further
    let (t, _) = run_one(ASBx(OP_JUMP, 0, 3), vec![], &[]);
    assert_eq!(t.program_counter, 131075);
}

#[test]
fn call_then_return() {
    // function 0 begins at instruction 4; the frame's registers begin at 3
    let mut program = vec![Abc(OP_CALL, 0, 0, 3)];
    program.extend([0, 0, 0].iter().map(|_| Abc(OP_MOVE, 0, 0, 0)));
    program.push(Abc(OP_RETURN, 0, 0, 0));
    let vm = VM::new(program, vec![], vec![], vec![4]);
    let mut t = VMThread::new();
    assert_eq!(t.step(&vm), Ok(StepOutcome::Continue));
    assert_eq!(t.program_counter, 4);
    assert_eq!(t.call_stack_pointer, 1);
    assert_eq!(t.call_stack[0], CallFrame { return_pc: 1, base: 3 });
    assert_eq!(t.current_offset(), 3);
    assert_eq!(t.step(&vm), Ok(StepOutcome::Continue));
    assert_eq!(t.program_counter, 1);
    assert_eq!(t.call_stack_pointer, 0);
    assert_eq!(t.current_offset(), 0);
}

#[test]
fn call_of_an_unknown_function_aborts() {
    let (_t, r) = run_one(Abc(OP_CALL, 5, 0, 0), vec![], &[]);
    assert_eq!(
        r,
        Ok(StepOutcome::Host(HostRequest::Panic(PanicReason::InvalidFunctionIndex(5))))
    );
}

#[test]
fn return_without_a_call_underflows() {
    let (_t, r) = run_one(Abc(OP_RETURN, 0, 0, 0), vec![], &[]);
    assert_eq!(r, Err(VMRuntimeError::StackUnderflow));
}

#[test]
fn frame_registers_are_relative_to_the_base() {
    let vm = vm_with(vec![Abc(OP_MOVE, 0, 1, 0)], vec![]);
    let mut t = VMThread::new();
    t.set_register(11, ival(99)).unwrap();
    t.push_call_frame(CallFrame { return_pc: 0, base: 10 }).unwrap();
    t.step(&vm).unwrap();
    assert_eq!(t.get_register_ref(0, 10).unwrap().as_int(), 99);
    assert_eq!(t.get_register_ref(10, 0).unwrap().as_int(), 99);
}

#[test]
fn native_call_is_handed_to_the_host() {
    let (_t, r) = run_one(Abc(OP_NATIVE_CALL, 2, 3, 5), vec![], &[]);
    assert_eq!(
        r,
        Ok(StepOutcome::Host(HostRequest::NativeCall {
            function: 2,
            first_arg: 6,
            arg_count: 3,
            dest: 5
        }))
    );
}

#[test]
fn float_work_is_handed_to_the_host() {
    let one = RegisterVal::from_float_bits(1.0f64.to_bits());
    let two = RegisterVal::from_float_bits(2.0f64.to_bits());
    let (_t, r) = run_one(Abc(OP_FLOAT_ADD, 4, rk_ask(0), rk_ask(1)), vec![one, two], &[]);
    assert_eq!(
        r,
        Ok(StepOutcome::Host(HostRequest::FloatBinary {
            op: FloatOp::Add,
            dest: 4,
            lhs: one,
            rhs: two
        }))
    );
    let (_t, r) = run_one(Abc(OP_FLOAT_LT, 1, rk_ask(1), rk_ask(0)), vec![one, two], &[]);
    assert_eq!(
        r,
        Ok(StepOutcome::Host(HostRequest::FloatCompare {
            op: Comparison::Lt,
            dest: 1,
            lhs: two,
            rhs: one
        }))
    );
}

#[test]
fn strings_are_handed_to_the_host() {
    let (_t, r) = run_one(Abc(OP_CONCAT, 0, 1, 2), vec![], &[0, 100, 200]);
    assert_eq!(
        r,
        Ok(StepOutcome::Host(HostRequest::Concat { dest: 0, lhs: ival(100), rhs: ival(200) }))
    );
    let (_t, r) = run_one(Abc(OP_INT_TO_STRING, 3, 1, 0), vec![], &[0, 12]);
    assert_eq!(
        r,
        Ok(StepOutcome::Host(HostRequest::IntToString { dest: 3, value: ival(12) }))
    );
}

#[test]
fn dropping_a_constant_string_does_nothing() {
    let ptr = RegisterVal::from_ptr(0x1000);
    let vm = VM::new(vec![Abc(OP_DROP_STRING, 0, 0, 0)], vec![ptr], vec![ptr], vec![]);
    let mut t = VMThread::new();
    t.set_register(0, ptr).unwrap();
    assert_eq!(t.step(&vm), Ok(StepOutcome::Continue));
    assert!(vm.is_constant_ptr(&ptr));

    let other = RegisterVal::from_ptr(0x2000);
    assert!(!vm.is_constant_ptr(&other));
    let mut t = VMThread::new();
    t.set_register(0, other).unwrap();
    assert_eq!(
        t.step(&vm),
        Ok(StepOutcome::Host(HostRequest::DropString { value: other }))
    );
}

#[test]
fn exit_stops_with_its_code() {
    let (_t, r) = run_one(Abc(OP_EXIT, -3, 0, 0), vec![], &[]);
    assert_eq!(r, Err(VMRuntimeError::Exit(-3)));
}

#[test]
fn unimplemented_opcode_aborts() {
    let (_t, r) = run_one(Abc(OP_QFFI_CALL, 0, 0, 0), vec![], &[]);
    assert_eq!(
        r,
        Ok(StepOutcome::Host(HostRequest::Panic(PanicReason::Unimplemented(OP_QFFI_CALL))))
    );
}

#[test]
fn move_2x_copies_two_registers() {
    let (t, r) = run_one(Abc(OP_MOVE_2X, 5, 1, 0), vec![], &[0, 8, 9]);
    assert_eq!(r, Ok(StepOutcome::Continue));
    assert_eq!(reg(&t, 5), 8);
    assert_eq!(reg(&t, 6), 9);
}

#[test]
fn register_out_of_range() {
    let mut t = VMThread::new();
    assert_eq!(
        t.set_register(REGISTER_COUNT, ival(1)),
        Err(VMRuntimeError::InvalidRegisterAccess(REGISTER_COUNT))
    );
    let (_t, r) = run_one(Abc(OP_MOVE, 0, -1, 0), vec![], &[]);
    assert_eq!(r, Err(VMRuntimeError::InvalidRegisterAccess(usize::MAX)));
}

#[test]
fn call_stack_push_and_pop() {
    let mut t = VMThread::new();
    assert_eq!(t.pop_call_frame(), Err(VMRuntimeError::StackUnderflow));
    let f = CallFrame { return_pc: 9, base: 2 };
    assert_eq!(t.push_call_frame(f), Ok(()));
    assert_eq!(t.pop_call_frame(), Ok(f));
    assert_eq!(t.call_stack_pointer, 0);
    for _ in 0..CALL_STACK_SIZE {
        t.push_call_frame(f).unwrap();
    }
    assert_eq!(t.push_call_frame(f), Err(VMRuntimeError::StackOverflow));
    assert_eq!(t.call_stack_pointer, CALL_STACK_SIZE);
}

#[test]
fn unwinding_reports_every_frame() {
    let mut t = VMThread::new();
    t.push_call_frame(CallFrame { return_pc: 3, base: 0 }).unwrap();
    t.push_call_frame(CallFrame { return_pc: 12, base: 40 }).unwrap();
    let lines = t.on_err_unwind_callstack();
    assert_eq!(
        lines,
        vec![
            "Unwinding Callstack:".to_string(),
            "Stack pointer is at: 2".to_string(),
            "Return PC:     12 | Base: 40".to_string(),
            "Return PC:     12 | Base: 40".to_string(),
            "Return PC:      3 | Base: 0".to_string(),
            "Return PC:      3 | Base: 0".to_string(),
            "END".to_string(),
        ]
    );
    assert_eq!(t.call_stack_pointer, 0);
}

#[test]
fn unwinding_a_deep_stack_is_truncated() {
    let mut t = VMThread::new();
    for i in 0..45u32 {
        t.push_call_frame(CallFrame { return_pc: i, base: 0 }).unwrap();
    }
    let lines = t.on_err_unwind_callstack();
    assert_eq!(lines[0], "Unwinding Callstack:");
    assert_eq!(lines[1], "Stack pointer is at: 45");
    assert_eq!(lines[2], "Truncating callstack to first and last 20 calls...");
    assert_eq!(lines[3], "Return PC:     44 | Base: 0");
    assert_eq!(lines[22], "Return PC:     25 | Base: 0");
    assert_eq!(lines[23], "...");
    assert_eq!(lines[24], "Return PC:     19 | Base: 0");
    assert_eq!(lines[43], "Return PC:      0 | Base: 0");
    assert_eq!(lines[44], "END");
    assert_eq!(lines.len(), 45);
}

#[test]
fn error_cleanup_unwinds_then_bulldozes() {
    let mut t = VMThread::new();
    let lines = t.on_error_cleanup();
    assert_eq!(
        lines,
        vec![
            "Unwinding Callstack:".to_string(),
            "Stack pointer is at: 0".to_string(),
            "END".to_string(),
            String::new(),
            "Running memory bulldoser; destroying heap objects:".to_string(),
            "END".to_string(),
        ]
    );
}

#[test]
fn program_state_from_bytecode() {
    let bytecode = ByteCode {
        instructions: vec![Abc(OP_MOVE, 0, 1, 0)],
        constant_pool: vec![
            TaggedConstantValue::Int(-5),
            TaggedConstantValue::Str("hi".to_string()),
            TaggedConstantValue::Bool(true),
            TaggedConstantValue::Null,
            TaggedConstantValue::Float(2.5f64.to_bits()),
            TaggedConstantValue::Str("there".to_string()),
        ],
        qlang_functions: vec![0, 7],
    };
    let p1 = RegisterVal::from_ptr(0xA0);
    let p2 = RegisterVal::from_ptr(0xB0);
    let vm = VM::from_bytecode(bytecode, vec![p1, p2]);
    assert_eq!(vm.get_constant_pool_len(), 6);
    assert_eq!(vm.get_constant(0).unwrap().as_int(), -5);
    assert_eq!(*vm.get_constant(1).unwrap(), p1);
    assert!(vm.get_constant(2).unwrap().as_bool());
    assert_eq!(vm.get_constant(3).unwrap().bits, 0);
    assert_eq!(vm.get_constant(4).unwrap().float_bits(), 2.5f64.to_bits());
    assert_eq!(*vm.get_constant(5).unwrap(), p2);
    assert!(vm.get_constant(6).is_none());
    assert!(vm.is_constant_ptr(&p2));
    assert_eq!(vm.get_instruction_len(), 1);
    assert_eq!(*vm.get_instruction(0).unwrap(), Abc(OP_MOVE, 0, 1, 0));
    assert!(vm.get_instruction(1).is_none());
    assert_eq!(vm.get_function_index_len(), 2);
    assert_eq!(*vm.get_function_index(1).unwrap(), 7);
    assert!(vm.get_function_index(2).is_none());
}

#[test]
fn register_values_round_trip() {
    for i in [0i64, 1, -1, i64::MIN, i64::MAX, 123456789] {
        assert_eq!(RegisterVal::from_int(i).as_int(), i);
    }
    assert!(RegisterVal::from_bool(true).as_bool());
    assert!(!RegisterVal::from_bool(false).as_bool());
    // a boolean reads only the low byte
    assert!(!RegisterVal::from_int(256).as_bool());
    assert_eq!(RegisterVal::from_ptr(77).ptr(), 77);
}

#[test]
fn integers_as_text() {
    assert_eq!(quiklang::text::int_to_text(i64::MIN), "-9223372036854775808");
    assert_eq!(quiklang::text::int_to_text(0), "0");
    assert_eq!(quiklang::text::int_to_text(4071), "4071");
}
