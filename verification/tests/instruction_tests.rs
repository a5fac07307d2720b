use quiklang::instructions::{
    get_arga, get_argb, get_argbx, get_argc, get_argsbx, get_opcode, is_k, op_to_string, rk_ask,
    rk_to_k, set_arga, set_argb, set_argbx, set_argc, set_argsbx, set_opcode, to_string,
    ABx, ASBx, Abc, OP_CALL, OP_EXIT, OP_INT_ADD, OP_JUMP, OP_LOADBOOL,
    OP_LOADCONST, OP_MOVE, OP_MOVE_2X, OP_NATIVE_CALL, OP_NOP,
};

fn columns_abc(name: &str, a: i32, b: i32, c: i32) -> String {
    format!("{:36}", format!("{:20}| {:4} | {:4}, {:4}, {:4}", name, "Abc", a, b, c))
}

fn columns_abx(name: &str, a: i32, bx: i32) -> String {
    format!("{:36}", format!("{:20}| {:4} | {:4}, {:10}", name, "ABx", a, bx))
}

fn no_natives() -> Vec<String> {
    Vec::new()
}

#[test]
fn abc_fields_round_trip() {
    let inst = Abc(OP_INT_ADD, 7, -3, 300);
    assert_eq!(get_opcode(inst), OP_INT_ADD);
    assert_eq!(get_arga(inst), 7);
    assert_eq!(get_argb(inst), -3);
    assert_eq!(get_argc(inst), 300 - 512);
}

#[test]
fn abc_exact_word() {
    // opcode 4 in bits 26..31, A = 1 in bits 18..25, C = 2 in bits 9..17, B = 3 in bits 0..8
    let inst = Abc(4, 1, 3, 2);
    assert_eq!(inst, (4u32 << 26) | (1u32 << 18) | (2u32 << 9) | 3u32);
}

#[test]
fn abx_and_asbx_fields() {
    let inst = ABx(OP_LOADCONST, -1, 262143);
    assert_eq!(get_opcode(inst), OP_LOADCONST);
    assert_eq!(get_arga(inst), -1);
    assert_eq!(get_argbx(inst), 262143);

    let inst = ASBx(OP_JUMP, 5, -131072);
    assert_eq!(get_argsbx(inst), -131072);
    assert_eq!(get_argbx(inst), 0);
    let inst = ASBx(OP_JUMP, 5, 131071);
    assert_eq!(get_argsbx(inst), 131071);
}

#[test]
fn setters_keep_other_fields() {
    let mut inst = Abc(OP_CALL, 10, 20, 30);
    set_arga(&mut inst, -5);
    assert_eq!(get_arga(inst), -5);
    assert_eq!(get_argb(inst), 20);
    assert_eq!(get_argc(inst), 30);
    assert_eq!(get_opcode(inst), OP_CALL);
    set_argb(&mut inst, 255);
    set_argc(&mut inst, -256);
    assert_eq!(get_argb(inst), 255);
    assert_eq!(get_argc(inst), -256);
    assert_eq!(get_arga(inst), -5);
    set_opcode(&mut inst, 63);
    assert_eq!(get_opcode(inst), 63);
    assert_eq!(get_arga(inst), -5);
    set_argbx(&mut inst, 1234);
    assert_eq!(get_argbx(inst), 1234);
    assert_eq!(get_opcode(inst), 63);
    set_argsbx(&mut inst, -7);
    assert_eq!(get_argsbx(inst), -7);
}

#[test]
fn opcode_keeps_low_six_bits() {
    // NOP is 67, which does not fit in six bits: 67 mod 64 = 3
    let inst = Abc(OP_NOP, 0, 0, 0);
    assert_eq!(get_opcode(inst), 3);
}

#[test]
fn rk_marks() {
    assert!(!is_k(5));
    assert!(is_k(rk_ask(5)));
    assert_eq!(rk_ask(5), 261);
    assert_eq!(rk_to_k(rk_ask(5)), 5);
    assert_eq!(rk_to_k(-1), 255);
    assert!(is_k(-1));
}

#[test]
fn op_names() {
    assert_eq!(op_to_string(OP_MOVE), "OP_MOVE");
    assert_eq!(op_to_string(OP_NOP), "OP_NOP");
    assert_eq!(op_to_string(OP_MOVE_2X), "OP_MOVE_2X");
}

#[test]
fn listing_move() {
    let inst = Abc(OP_MOVE, 1, 2, 0);
    let expected = format!("{} | R({}) := R({})", columns_abc("OP_MOVE", 1, 2, 0), 1, 2);
    assert_eq!(to_string(inst, &no_natives()), expected);
}

#[test]
fn listing_add_with_constant() {
    let inst = Abc(OP_INT_ADD, 3, rk_ask(4), 5);
    let b = get_argb(inst);
    let expected = format!(
        "{} | R({}) := {} + {}",
        columns_abc("OP_INT_ADD", 3, b, 5),
        3,
        "K(4)",
        "R(5)"
    );
    assert_eq!(to_string(inst, &no_natives()), expected);
}

#[test]
fn listing_loadconst_and_jump() {
    let inst = ABx(OP_LOADCONST, 2, 77);
    let expected = format!("{} | R({}) := Kst({})", columns_abx("OP_LOADCONST", 2, 77), 2, 77);
    assert_eq!(to_string(inst, &no_natives()), expected);

    let inst = ABx(OP_JUMP, 0, 12);
    let expected = format!("{} | pc = {}", columns_abx("OP_JUMP", 0, 12), 12);
    assert_eq!(to_string(inst, &no_natives()), expected);
}

#[test]
fn listing_loadbool_exit_and_move_2x() {
    let inst = Abc(OP_LOADBOOL, 1, 1, 0);
    let expected = format!(
        "{} | R({}) := (Bool){}; if ({}) pc++",
        columns_abc("OP_LOADBOOL", 1, 1, 0),
        1,
        1,
        0
    );
    assert_eq!(to_string(inst, &no_natives()), expected);

    let inst = Abc(OP_EXIT, -2, 0, 0);
    let expected = format!("{} | std::process::exit({})", columns_abc("OP_EXIT", -2, 0, 0), -2);
    assert_eq!(to_string(inst, &no_natives()), expected);

    let inst = Abc(OP_MOVE_2X, 4, 8, 0);
    let expected = format!(
        "{} | R({}) ..= R({}) := R({}) ..= R({})",
        columns_abc("OP_MOVE_2X", 4, 8, 0),
        4,
        5,
        8,
        9
    );
    assert_eq!(to_string(inst, &no_natives()), expected);
}

#[test]
fn listing_native_call() {
    let inst = Abc(OP_NATIVE_CALL, 1, 2, 3);
    let expected = format!(
        "{} | R({})(#R({})), base {}, NATIVE: {}",
        columns_abc("OP_NATIVE_CALL", 1, 2, 3),
        1,
        2,
        3,
        "UNABLE TO GET FUNCTION!"
    );
    assert_eq!(to_string(inst, &no_natives()), expected);

    let natives = vec!["print".to_string(), "read_line".to_string()];
    let expected = format!(
        "{} | R({})(#R({})), base {}, NATIVE: {}",
        columns_abc("OP_NATIVE_CALL", 1, 2, 3),
        1,
        2,
        3,
        "read_line"
    );
    assert_eq!(to_string(inst, &natives), expected);
}

#[test]
fn every_listing_starts_with_its_opcode_name() {
    let natives = vec!["print".to_string()];
    for word in [0u32, 1, 0x0400_0000, 0xFFFF_FFFF, 0x5C00_1234, 0x8000_0000, 0x7FFF_FFFF] {
        let line = to_string(word, &natives);
        let name = op_to_string(get_opcode(word));
        assert!(line.starts_with(&name), "{:#x}: {}", word, line);
    }
    for op in 0..64 {
        let line = to_string(Abc(op, 1, 2, 3), &natives);
        assert!(line.starts_with(&op_to_string(op)));
    }
}
