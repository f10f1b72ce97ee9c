//! Number rendering, generated names, the AST helpers, and the LLIR
//! utilities.

use ltacc::ast::{
    add_func_enum, add_stmt, create_byte, create_char, create_float, create_func, create_int,
    create_orphan_stmt, create_short, create_stmt, enum_exists, AstEnum, AstMod, AstModType,
    AstStmtType, AstTree,
};
use ltacc::llir::{LLirDataType, LLirType};
use ltacc::llir_builder::{ast_to_datatype as llir_types, is_unsigned, new_llir_builder,
    store_for_type};
use ltacc::ltac_builder::{ast_to_datatype, ldarg_for_type, mov_for_type, reg_for_type, DataType};
use ltacc::ltac::{LtacArg, LtacType};
use ltacc::ltac_builder::{const_lookup, var_lookup, Var};
use ltacc::numtext::{i32_text, i64_text, u32_text, u64_text};

#[test]
fn decimal_rendering() {
    assert_eq!(u64_text(0), "0");
    assert_eq!(u64_text(10), "10");
    assert_eq!(u64_text(18446744073709551615), "18446744073709551615");
    assert_eq!(u32_text(4294967295), "4294967295");
    assert_eq!(i32_text(-1), "-1");
    assert_eq!(i32_text(-2147483648), "-2147483648");
    assert_eq!(i32_text(2147483647), "2147483647");
    assert_eq!(i64_text(-9223372036854775808), "-9223372036854775808");
}

#[test]
fn generated_names() {
    assert_eq!(ltacc::labels::make_label(0), "L0");
    assert_eq!(ltacc::labels::make_label(17), "L17");
    assert_eq!(ltacc::labels::make_str_label(3), "STR3");
    assert_eq!(ltacc::labels::make_flt_label(12), "FLT12");
}

#[test]
fn ast_create_helpers_fill_one_field() {
    let b = create_byte(7);
    assert_eq!(b.u8_val, 7);
    let s = create_short(300);
    assert_eq!(s.u16_val, 300);
    let i = create_int(12);
    assert_eq!(i.u64_val, 12);
    let f = create_float((1.5f64).to_bits());
    assert_eq!(f.flt_bits, (1.5f64).to_bits());
    let c = create_char('q');
    assert_eq!(c.char_val, 'q');
}

#[test]
fn add_stmt_appends_to_last_function() {
    let mut tree = AstTree {
        file_name: String::from("t"),
        module: String::new(),
        functions: vec![create_func(String::from("a")), create_func(String::from("b"))],
        constants: Vec::new(),
    };
    add_stmt(&mut tree, create_stmt(AstStmtType::End, String::new(), 3));
    assert_eq!(tree.functions[0].statements.len(), 0);
    assert_eq!(tree.functions[1].statements.len(), 1);
    let orphan = create_orphan_stmt(AstStmtType::Return);
    assert_eq!(orphan.line_no, 0);
}

#[test]
fn enum_lookup_in_last_function() {
    let mut tree = AstTree {
        file_name: String::from("t"),
        module: String::new(),
        functions: vec![create_func(String::from("a"))],
        constants: Vec::new(),
    };
    let e = AstEnum {
        name: String::from("color"),
        data_type: AstMod { mod_type: AstModType::Int },
        values: vec![(String::from("red"), 0)],
    };
    add_func_enum(&mut tree, e);
    assert!(enum_exists(&mut tree, String::from("color")));
    assert!(!enum_exists(&mut tree, String::from("shade")));
}

#[test]
fn type_mappings() {
    assert_eq!(ast_to_datatype(&AstMod { mod_type: AstModType::UInt64 }), DataType::UInt64);
    assert_eq!(ast_to_datatype(&AstMod { mod_type: AstModType::NoType }), DataType::Void);
    assert_eq!(mov_for_type(&DataType::UByte).instr_type, LtacType::MovUB);
    assert_eq!(mov_for_type(&DataType::Double).instr_type, LtacType::MovF64);
    assert!(matches!(reg_for_type(&DataType::Short, 2), LtacArg::Reg16(2)));
    assert!(matches!(reg_for_type(&DataType::Float, 0), LtacArg::FltReg(0)));
    let ld = ldarg_for_type(&DataType::UInt, LtacArg::Mem(8), 2);
    assert_eq!(ld.instr_type, LtacType::LdArgU32);
    assert_eq!(ld.arg2_val, 2);
    let none = ldarg_for_type(&DataType::ByteDynArray, LtacArg::Mem(8), 1);
    assert_eq!(none.instr_type, LtacType::Nop);
}

#[test]
fn llir_utilities() {
    let mut b = new_llir_builder(String::from("unit"));
    assert_eq!(b.file.name, "unit");
    b.add_code(ltacc::llir::create_instr(LLirType::Ret));
    assert_eq!(b.file.code.len(), 1);
    assert_eq!(store_for_type(&LLirDataType::Int).instr_type, LLirType::StrDW);
    assert_eq!(store_for_type(&LLirDataType::Str).instr_type, LLirType::StrQW);
    assert_eq!(store_for_type(&LLirDataType::Float).instr_type, LLirType::Nop);
    assert!(is_unsigned(&LLirDataType::UInt));
    assert!(!is_unsigned(&LLirDataType::Int64));
    assert_eq!(llir_types(&DataType::Short), (LLirDataType::Word, LLirDataType::Void));
    assert_eq!(llir_types(&DataType::Void), (LLirDataType::Void, LLirDataType::Void));
}

#[test]
fn constant_lookup_finds_most_recent() {
    let entries = vec![
        (String::from("k"), LtacArg::I32(1)),
        (String::from("m"), LtacArg::I32(2)),
        (String::from("k"), LtacArg::I32(3)),
    ];
    let idx = const_lookup(&entries, &String::from("k"));
    assert_eq!(idx, Some(2));
    assert!(const_lookup(&entries, &String::from("zz")).is_none());
}

#[test]
fn var_lookup_shadows_by_recency() {
    let entries = vec![
        (String::from("x"), Var { pos: 4, data_type: DataType::Int, is_param: false }),
        (String::from("x"), Var { pos: 8, data_type: DataType::Int, is_param: false }),
    ];
    let v = var_lookup(&entries, &String::from("x")).unwrap();
    assert_eq!(v.pos, 8);
    assert!(var_lookup(&entries, &String::from("y")).is_none());
}
