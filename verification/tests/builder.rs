//! Unit tests for the lowering engine: the IR it emits, the file
//! invariants, the constant table, and each diagnostic.

use ltacc::ast::{
    create_arg, create_func, create_int, create_stmt, AstArg, AstArgType, AstConst, AstMod,
    AstModType, AstStmt, AstStmtType, AstTree,
};
use ltacc::errors::BuildErrorKind;
use ltacc::ltac::{LtacArg, LtacType};
use ltacc::ltac_builder::{new_ltac_builder, DataType};
use ltacc::ltac_flow::{build_cond, build_while};
use ltacc::ltac_func::{build_end, build_func_call, build_return};
use ltacc::ltac_var::build_var_dec;

fn b_stmt(kind: AstStmtType) -> AstStmt {
    create_stmt(kind, String::new(), 0)
}

fn b_id(name: &str) -> AstArg {
    let mut a = create_arg(AstArgType::Id);
    a.str_val = String::from(name);
    a
}

fn b_const(name: &str, mod_type: AstModType, value: AstArg) -> AstConst {
    AstConst {
        name: String::from(name),
        data_type: AstMod { mod_type },
        value,
        line: String::new(),
        line_no: 1,
    }
}

#[test]
fn if_guard_emits_inverted_branch() {
    let mut b = new_ltac_builder(String::from("t"));
    let mut cond = b_stmt(AstStmtType::If);
    cond.args.push(create_int(1));
    cond.args.push(create_arg(AstArgType::OpLt));
    cond.args.push(create_int(2));
    build_cond(&mut b, &cond);
    let n = b.file.code.len();
    assert_eq!(b.file.code[n - 2].instr_type, LtacType::I32Cmp);
    // `<` inverts to branch-if-greater-or-equal
    assert_eq!(b.file.code[n - 1].instr_type, LtacType::Bge);
    assert_eq!(b.file.code[n - 1].name, "L1");
}

#[test]
fn while_back_edge_keeps_direct_branch() {
    let mut b = new_ltac_builder(String::from("t"));
    let mut w = b_stmt(AstStmtType::While);
    w.args.push(create_int(1));
    w.args.push(create_arg(AstArgType::OpLte));
    w.args.push(create_int(2));
    build_while(&mut b, &w);
    build_end(&mut b);
    let n = b.file.code.len();
    // flushed comparison block: label, cmp, direct branch, end label
    assert_eq!(b.file.code[n - 4].instr_type, LtacType::Label);
    assert_eq!(b.file.code[n - 3].instr_type, LtacType::I32Cmp);
    assert_eq!(b.file.code[n - 2].instr_type, LtacType::Ble);
    assert_eq!(b.file.code[n - 1].instr_type, LtacType::Label);
}

#[test]
fn every_polarity_pair() {
    let cases = [
        (AstArgType::OpEq, LtacType::Bne, LtacType::Be),
        (AstArgType::OpNeq, LtacType::Be, LtacType::Bne),
        (AstArgType::OpLt, LtacType::Bge, LtacType::Bl),
        (AstArgType::OpLte, LtacType::Bg, LtacType::Ble),
        (AstArgType::OpGt, LtacType::Ble, LtacType::Bg),
        (AstArgType::OpGte, LtacType::Bl, LtacType::Bge),
    ];
    for (op, inverted, direct) in cases {
        let mut b = new_ltac_builder(String::from("t"));
        let mut cond = b_stmt(AstStmtType::If);
        cond.args.push(create_int(1));
        cond.args.push(create_arg(op));
        cond.args.push(create_int(2));
        build_cond(&mut b, &cond);
        assert_eq!(b.file.code.last().unwrap().instr_type, inverted);

        let mut b2 = new_ltac_builder(String::from("t"));
        let mut w = b_stmt(AstStmtType::While);
        w.args.push(create_int(1));
        w.args.push(create_arg(op));
        w.args.push(create_int(2));
        build_while(&mut b2, &w);
        build_end(&mut b2);
        let n = b2.file.code.len();
        assert_eq!(b2.file.code[n - 2].instr_type, direct);
    }
}

#[test]
fn labels_in_a_built_file_are_unique() {
    // nested control flow with a string in between exercises the
    // shared counter
    let mut dec = b_stmt(AstStmtType::VarDec);
    dec.name = String::from("i");
    dec.modifiers.push(AstMod { mod_type: AstModType::Int });
    dec.args.push(create_int(0));
    let mut w = b_stmt(AstStmtType::While);
    w.args.push(b_id("i"));
    w.args.push(create_arg(AstArgType::OpLt));
    w.args.push(create_int(3));
    let mut cond = b_stmt(AstStmtType::If);
    cond.args.push(b_id("i"));
    cond.args.push(create_arg(AstArgType::OpEq));
    cond.args.push(create_int(1));
    let mut call = b_stmt(AstStmtType::FuncCall);
    call.name = String::from("puts");
    call.args.push(ltacc::ast::create_string(String::from("tick")));
    let mut inc = b_stmt(AstStmtType::VarAssign);
    inc.name = String::from("i");
    inc.args.push(b_id("i"));
    inc.args.push(create_arg(AstArgType::OpAdd));
    inc.args.push(create_int(1));
    let mut main = create_func(String::from("main"));
    main.statements = vec![
        dec,
        w,
        cond,
        call,
        b_stmt(AstStmtType::End),
        inc,
        b_stmt(AstStmtType::End),
        b_stmt(AstStmtType::End),
    ];
    let tree = AstTree {
        file_name: String::from("t"),
        module: String::new(),
        functions: vec![main],
        constants: Vec::new(),
    };
    let mut b = new_ltac_builder(String::from("t"));
    let file = b.build_ltac(&tree).expect("translation should succeed");
    let labels: Vec<&String> = file
        .code
        .iter()
        .filter(|i| i.instr_type == LtacType::Label)
        .map(|i| &i.name)
        .collect();
    assert!(labels.len() >= 4);
    for a in 0..labels.len() {
        for c in a + 1..labels.len() {
            assert_ne!(labels[a], labels[c]);
        }
    }
}

#[test]
fn frames_are_aligned_and_cover_locals() {
    let mut d1 = b_stmt(AstStmtType::VarDec);
    d1.name = String::from("a");
    d1.modifiers.push(AstMod { mod_type: AstModType::Int });
    d1.args.push(create_int(1));
    let mut d2 = b_stmt(AstStmtType::VarDec);
    d2.name = String::from("b");
    d2.modifiers.push(AstMod { mod_type: AstModType::Int64 });
    d2.args.push(create_int(2));
    let mut main = create_func(String::from("main"));
    main.statements = vec![d1, d2, b_stmt(AstStmtType::End)];
    let tree = AstTree {
        file_name: String::from("t"),
        module: String::new(),
        functions: vec![main],
        constants: Vec::new(),
    };
    let mut b = new_ltac_builder(String::from("t"));
    let file = b.build_ltac(&tree).expect("translation should succeed");
    let func = file
        .code
        .iter()
        .find(|i| i.instr_type == LtacType::Func)
        .expect("one function header");
    // locals are 4 + 8 bytes; the frame covers them, to a multiple of 16
    assert_eq!(func.arg2_val, 12);
    assert_eq!(func.arg1_val, 16);
    assert_eq!(func.arg1_val % 16, 0);
    assert!(func.arg1_val >= func.arg2_val);
}

#[test]
fn every_function_region_ends_in_ret() {
    let mut f1 = create_func(String::from("a"));
    f1.statements = vec![b_stmt(AstStmtType::End)];
    let mut f2 = create_func(String::from("b"));
    f2.statements = vec![b_stmt(AstStmtType::End)];
    let tree = AstTree {
        file_name: String::from("t"),
        module: String::new(),
        functions: vec![f1, f2],
        constants: Vec::new(),
    };
    let mut b = new_ltac_builder(String::from("t"));
    let file = b.build_ltac(&tree).expect("translation should succeed");
    for (i, instr) in file.code.iter().enumerate() {
        if instr.instr_type == LtacType::Func {
            let mut seen_ret = false;
            for later in &file.code[i + 1..] {
                if later.instr_type == LtacType::Func {
                    break;
                }
                if later.instr_type == LtacType::Ret {
                    seen_ret = true;
                    break;
                }
            }
            assert!(seen_ret, "function region without a return");
        }
    }
}

#[test]
fn constant_table_reinterprets_at_declared_width() {
    let consts = vec![
        b_const("big", AstModType::UByte, create_int(300)),
        b_const("neg", AstModType::Int, create_int(0xFFFF_FFFF)),
        b_const("word", AstModType::UInt64, create_int(7)),
    ];
    let tree = AstTree {
        file_name: String::from("t"),
        module: String::new(),
        functions: Vec::new(),
        constants: consts,
    };
    let mut b = new_ltac_builder(String::from("t"));
    assert!(b.build_global_constants(&tree));
    assert_eq!(b.global_consts.len(), 3);
    // 300 reinterpreted at 8 bits is 44
    assert!(matches!(b.global_consts[0].1, LtacArg::UByte(44)));
    // 0xFFFF_FFFF reinterpreted at a signed 32-bit width is -1
    assert!(matches!(b.global_consts[1].1, LtacArg::I32(-1)));
    assert!(matches!(b.global_consts[2].1, LtacArg::U64(7)));
}

#[test]
fn constant_with_wrong_literal_reports_type_mismatch() {
    let mut value = create_arg(AstArgType::StringL);
    value.str_val = String::from("oops");
    let tree = AstTree {
        file_name: String::from("t"),
        module: String::new(),
        functions: Vec::new(),
        constants: vec![b_const("s", AstModType::Int, value)],
    };
    let mut b = new_ltac_builder(String::from("t"));
    assert!(!b.build_global_constants(&tree));
    assert_eq!(b.errors.errors.len(), 1);
    assert_eq!(b.errors.errors[0].kind, BuildErrorKind::TypeMismatch);
}

#[test]
fn assigning_an_undeclared_name_reports_unknown_identifier() {
    let mut assign = b_stmt(AstStmtType::VarAssign);
    assign.name = String::from("ghostly");
    assign.args.push(create_int(1));
    let mut main = create_func(String::from("main"));
    main.statements = vec![assign, b_stmt(AstStmtType::End)];
    let tree = AstTree {
        file_name: String::from("t"),
        module: String::new(),
        functions: vec![main],
        constants: Vec::new(),
    };
    let mut b = new_ltac_builder(String::from("t"));
    assert!(b.build_ltac(&tree).is_err());
    assert!(b
        .errors
        .errors
        .iter()
        .any(|e| e.kind == BuildErrorKind::UnknownIdentifier));
}

#[test]
fn missing_return_in_int_function_is_reported() {
    let mut main = create_func(String::from("main"));
    main.modifiers.push(AstMod { mod_type: AstModType::Int });
    main.statements = vec![b_stmt(AstStmtType::End)];
    let tree = AstTree {
        file_name: String::from("t"),
        module: String::new(),
        functions: vec![main],
        constants: Vec::new(),
    };
    let mut b = new_ltac_builder(String::from("t"));
    assert!(b.build_ltac(&tree).is_err());
    assert!(b
        .errors
        .errors
        .iter()
        .any(|e| e.kind == BuildErrorKind::MissingReturn));
}

#[test]
fn returning_a_value_from_void_reports_type_mismatch() {
    let mut b = new_ltac_builder(String::from("t"));
    let mut ret = b_stmt(AstStmtType::Return);
    ret.args.push(create_int(3));
    assert!(build_return(&mut b, &ret));
    assert_eq!(b.errors.errors.len(), 1);
    assert_eq!(b.errors.errors[0].kind, BuildErrorKind::TypeMismatch);
    assert_eq!(b.file.code.last().unwrap().instr_type, LtacType::Ret);
}

#[test]
fn break_outside_a_loop_is_unsupported() {
    let mut b = new_ltac_builder(String::from("t"));
    ltacc::ltac_flow::build_break(&mut b);
    assert_eq!(b.errors.errors.len(), 1);
    assert_eq!(b.errors.errors[0].kind, BuildErrorKind::UnsupportedOperation);
    assert_eq!(b.file.code.len(), 0);
}

#[test]
fn break_and_continue_target_the_loop_labels() {
    let mut b = new_ltac_builder(String::from("t"));
    let mut w = b_stmt(AstStmtType::While);
    w.args.push(create_int(1));
    w.args.push(create_arg(AstArgType::OpEq));
    w.args.push(create_int(1));
    build_while(&mut b, &w);
    ltacc::ltac_flow::build_continue(&mut b);
    ltacc::ltac_flow::build_break(&mut b);
    let n = b.file.code.len();
    assert_eq!(b.file.code[n - 2].instr_type, LtacType::Br);
    assert_eq!(b.file.code[n - 2].name, "L0");
    assert_eq!(b.file.code[n - 1].instr_type, LtacType::Br);
    assert_eq!(b.file.code[n - 1].name, "L2");
}

#[test]
fn build_string_names_count_up_and_keep_text() {
    let mut b = new_ltac_builder(String::from("t"));
    let n1 = b.build_string(String::from("alpha"));
    let n2 = b.build_string(String::from("beta"));
    assert_eq!(n1, "STR0");
    assert_eq!(n2, "STR1");
    assert_eq!(b.file.data[0].val, "alpha");
    assert_eq!(b.file.data[1].val, "beta");
}

#[test]
fn build_float_stores_bit_pattern_decimal() {
    let mut b = new_ltac_builder(String::from("t"));
    let bits = (3.5f64).to_bits();
    let name = b.build_float(bits, true, false);
    assert_eq!(name, "FLT0");
    assert_eq!(b.file.data[0].val, bits.to_string());
    let neg = b.build_float(bits, true, true);
    assert_eq!(neg, "FLT1");
    assert_eq!(b.file.data[1].val, (-3.5f64).to_bits().to_string());
    let single = b.build_float((2.25f32).to_bits() as u64, false, false);
    assert_eq!(single, "FLT2");
    assert_eq!(b.file.data[2].val, (2.25f32).to_bits().to_string());
}

#[test]
fn call_pushes_arguments_with_positions() {
    let mut b = new_ltac_builder(String::from("t"));
    let mut call = b_stmt(AstStmtType::FuncCall);
    call.name = String::from("three");
    call.args.push(create_int(10));
    call.args.push(create_int(20));
    call.args.push(create_int(30));
    assert!(build_func_call(&mut b, &call));
    let n = b.file.code.len();
    assert_eq!(n, 4);
    for (k, want) in [(0usize, 1i32), (1, 2), (2, 3)] {
        assert_eq!(b.file.code[k].instr_type, LtacType::PushArg);
        assert_eq!(b.file.code[k].arg2_val, want);
    }
    assert_eq!(b.file.code[n - 1].instr_type, LtacType::Call);
    assert_eq!(b.file.code[n - 1].name, "three");
}

#[test]
fn var_dec_binds_next_slot_and_emits_ldarg_for_params() {
    let mut b = new_ltac_builder(String::from("t"));
    let mut p = b_stmt(AstStmtType::VarDec);
    p.name = String::from("n");
    p.modifiers.push(AstMod { mod_type: AstModType::Int });
    let (ok, next_int, next_flt) = build_var_dec(&mut b, &p, 1, 1);
    assert!(ok);
    assert_eq!((next_int, next_flt), (2, 1));
    assert_eq!(b.stack_pos, 4);
    assert_eq!(b.vars.len(), 1);
    assert_eq!(b.vars[0].1.pos, 4);
    assert_eq!(b.vars[0].1.data_type, DataType::Int);
    assert!(b.vars[0].1.is_param);
    let ld = b.file.code.last().unwrap();
    assert_eq!(ld.instr_type, LtacType::LdArgI32);
    assert_eq!(ld.arg1_val, 4);
    assert_eq!(ld.arg2_val, 1);
}

#[test]
fn elif_and_else_close_the_previous_alternative() {
    let mut b = new_ltac_builder(String::from("t"));
    let mut cond = b_stmt(AstStmtType::If);
    cond.args.push(create_int(1));
    cond.args.push(create_arg(AstArgType::OpEq));
    cond.args.push(create_int(2));
    build_cond(&mut b, &cond);
    // if: end label L0, next label L1
    let mut alt = b_stmt(AstStmtType::Elif);
    alt.args.push(create_int(3));
    alt.args.push(create_arg(AstArgType::OpGt));
    alt.args.push(create_int(4));
    build_cond(&mut b, &alt);
    let n = b.file.code.len();
    // jump to the chain's end, place the pending alternative label,
    // then the new guard with a fresh next label
    assert_eq!(b.file.code[n - 4].instr_type, LtacType::Br);
    assert_eq!(b.file.code[n - 4].name, "L0");
    assert_eq!(b.file.code[n - 3].instr_type, LtacType::Label);
    assert_eq!(b.file.code[n - 3].name, "L1");
    assert_eq!(b.file.code[n - 2].instr_type, LtacType::I32Cmp);
    assert_eq!(b.file.code[n - 1].instr_type, LtacType::Ble);
    assert_eq!(b.file.code[n - 1].name, "L2");
    let els = b_stmt(AstStmtType::Else);
    build_cond(&mut b, &els);
    let n2 = b.file.code.len();
    assert_eq!(b.file.code[n2 - 2].name, "L0");
    assert_eq!(b.file.code[n2 - 1].instr_type, LtacType::Label);
    assert_eq!(b.file.code[n2 - 1].name, "L2");
    build_end(&mut b);
    assert_eq!(b.file.code.last().unwrap().name, "L0");
}

#[test]
fn exit_statement_lowers_to_the_intrinsic() {
    let mut b = new_ltac_builder(String::from("t"));
    let mut ex = b_stmt(AstStmtType::Exit);
    ex.args.push(create_int(3));
    assert!(ltacc::ltac_func::build_exit(&mut b, &ex));
    let last = b.file.code.last().unwrap();
    assert_eq!(last.instr_type, LtacType::Exit);
    assert!(matches!(last.arg1, LtacArg::I32(3)));
}

#[test]
fn guard_on_an_undeclared_name_compares_slot_zero() {
    let mut b = new_ltac_builder(String::from("t"));
    let mut cond = b_stmt(AstStmtType::If);
    cond.args.push(b_id("nowhere"));
    cond.args.push(create_arg(AstArgType::OpEq));
    cond.args.push(create_int(0));
    build_cond(&mut b, &cond);
    let n = b.file.code.len();
    assert!(matches!(b.file.code[n - 2].arg1, LtacArg::Mem(0)));
}

#[test]
fn short_and_byte_constants_fill_the_table() {
    let consts = vec![
        b_const("s", AstModType::Short, create_int(5)),
        b_const("us", AstModType::UShort, create_int(70000)),
        b_const("b", AstModType::Byte, create_int(2)),
        b_const("u", AstModType::UInt, create_int(0x1_0000_0005)),
    ];
    let tree = AstTree {
        file_name: String::from("t"),
        module: String::new(),
        functions: Vec::new(),
        constants: consts,
    };
    let mut b = new_ltac_builder(String::from("t"));
    assert!(b.build_global_constants(&tree));
    assert!(matches!(b.global_consts[0].1, LtacArg::I16(5)));
    // 70000 reinterpreted at 16 bits is 4464
    assert!(matches!(b.global_consts[1].1, LtacArg::U16(4464)));
    assert!(matches!(b.global_consts[2].1, LtacArg::Byte(2)));
    // the high bit above 32 falls away
    assert!(matches!(b.global_consts[3].1, LtacArg::U32(5)));
}

#[test]
fn redeclared_constant_reports_duplicate_symbol() {
    let consts = vec![
        b_const("k", AstModType::Int, create_int(1)),
        b_const("k", AstModType::Int, create_int(2)),
    ];
    let tree = AstTree {
        file_name: String::from("t"),
        module: String::new(),
        functions: Vec::new(),
        constants: consts,
    };
    let mut b = new_ltac_builder(String::from("t"));
    assert!(!b.build_global_constants(&tree));
    assert_eq!(b.errors.errors.len(), 1);
    assert_eq!(b.errors.errors[0].kind, BuildErrorKind::DuplicateSymbol);
}

#[test]
fn reading_an_array_element_uses_the_offset_move() {
    let mut b = new_ltac_builder(String::from("t"));
    let mut arr = b_stmt(AstStmtType::VarDec);
    arr.name = String::from("items");
    arr.modifiers.push(AstMod { mod_type: AstModType::IntDynArray });
    // declared as a parameter so no initialiser is lowered
    assert!(build_var_dec(&mut b, &arr, 1, 1).0);
    let mut dest = b_stmt(AstStmtType::VarDec);
    dest.name = String::from("x");
    dest.modifiers.push(AstMod { mod_type: AstModType::Int });
    dest.args.push(create_int(0));
    assert!(build_var_dec(&mut b, &dest, 0, 0).0);
    // x = items[3]
    let mut read = b_stmt(AstStmtType::VarAssign);
    read.name = String::from("x");
    let mut token = b_id("items");
    token.sub_args.push(create_int(3));
    read.args.push(token);
    assert!(ltacc::ltac_var::build_var_assign(&mut b, &read));
    let last = b.file.code.last().unwrap();
    assert_eq!(last.instr_type, LtacType::MovOffImm);
    assert!(matches!(last.arg1, LtacArg::Mem(12)));
    assert!(matches!(last.arg2, LtacArg::Mem(8)));
    // index 3 of four-byte elements
    assert_eq!(last.arg2_offset, 12);
}

#[test]
fn storing_to_an_array_element_uses_the_offset_move() {
    let mut b = new_ltac_builder(String::from("t"));
    let mut arr = b_stmt(AstStmtType::VarDec);
    arr.name = String::from("items");
    arr.modifiers.push(AstMod { mod_type: AstModType::IntDynArray });
    assert!(build_var_dec(&mut b, &arr, 1, 1).0);
    // items[2] = 9
    let mut store = b_stmt(AstStmtType::ArrayAssign);
    store.name = String::from("items");
    store.sub_args.push(create_int(2));
    store.args.push(create_int(9));
    assert!(ltacc::ltac_var::build_var_assign(&mut b, &store));
    let last = b.file.code.last().unwrap();
    assert_eq!(last.instr_type, LtacType::MovOffImm);
    assert!(matches!(last.arg1, LtacArg::Mem(8)));
    assert_eq!(last.arg1_offset, 8);
    assert!(matches!(last.arg2, LtacArg::I32(9)));
    // items[i] = i + 1 goes through the accumulator with a
    // variable-index store
    let mut idx = b_stmt(AstStmtType::VarDec);
    idx.name = String::from("i");
    idx.modifiers.push(AstMod { mod_type: AstModType::Int });
    idx.args.push(create_int(0));
    assert!(build_var_dec(&mut b, &idx, 0, 0).0);
    let mut store2 = b_stmt(AstStmtType::ArrayAssign);
    store2.name = String::from("items");
    store2.sub_args.push(b_id("i"));
    store2.args.push(b_id("i"));
    store2.args.push(create_arg(AstArgType::OpAdd));
    store2.args.push(create_int(1));
    assert!(ltacc::ltac_var::build_var_assign(&mut b, &store2));
    let last2 = b.file.code.last().unwrap();
    assert_eq!(last2.instr_type, LtacType::MovOffMem);
    assert!(matches!(last2.arg1, LtacArg::Mem(8)));
    assert_eq!(last2.arg1_offset, 12);
    assert_eq!(last2.arg1_offset_size, 4);
    assert!(matches!(last2.arg2, LtacArg::Reg32(0)));
}
