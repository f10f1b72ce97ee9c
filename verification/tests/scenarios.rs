//! End-to-end scenarios: source-level constructs lowered to LTAC and
//! emitted as x86_64 assembly text.

use ltacc::ast::{
    create_func, create_int, create_stmt, create_string, AstArg, AstArgType, AstMod, AstModType,
    AstStmt, AstStmtType, AstTree,
};
use ltacc::ltac_builder::new_ltac_builder;
use ltacc::x86::amd64_build_asm_text;

fn id_token(name: &str) -> AstArg {
    let mut a = create_orphan_arg(AstArgType::Id);
    a.str_val = String::from(name);
    a
}

fn create_orphan_arg(arg_type: AstArgType) -> AstArg {
    ltacc::ast::create_arg(arg_type)
}

fn stmt(kind: AstStmtType) -> AstStmt {
    create_stmt(kind, String::new(), 0)
}

fn int_mod() -> AstMod {
    AstMod { mod_type: AstModType::Int }
}

fn tree_with_main(statements: Vec<AstStmt>) -> AstTree {
    let mut main = create_func(String::from("main"));
    main.statements = statements;
    AstTree {
        file_name: String::from("first"),
        module: String::new(),
        functions: vec![main],
        constants: Vec::new(),
    }
}

fn compile_x86(statements: Vec<AstStmt>) -> String {
    let tree = tree_with_main(statements);
    let mut builder = new_ltac_builder(String::from("first"));
    let file = builder.build_ltac(&tree).expect("translation should succeed");
    amd64_build_asm_text(&file)
}

#[test]
fn empty_void_function() {
    let text = compile_x86(vec![stmt(AstStmtType::End)]);
    assert!(text.contains("\n.global main\nmain:\n  push rbp\n  mov rbp, rsp\n\n"));
    assert!(!text.contains("sub rsp"));
    assert!(text.contains("\n  leave\n  ret\n\n"));
}

#[test]
fn int_declaration_gets_frame_and_store() {
    let mut dec = stmt(AstStmtType::VarDec);
    dec.name = String::from("x");
    dec.modifiers.push(int_mod());
    dec.args.push(create_int(5));
    let text = compile_x86(vec![dec, stmt(AstStmtType::End)]);
    assert!(text.contains("  sub rsp, 16\n"));
    assert!(text.contains("  mov dword ptr [rbp-4], 5\n"));
    assert!(text.contains("\n  leave\n  ret\n\n"));
}

#[test]
fn expression_accumulates_in_eax() {
    let mut dec = stmt(AstStmtType::VarDec);
    dec.name = String::from("x");
    dec.modifiers.push(int_mod());
    dec.args.push(create_int(2));
    dec.args.push(create_orphan_arg(AstArgType::OpAdd));
    dec.args.push(create_int(3));
    dec.args.push(create_orphan_arg(AstArgType::OpMul));
    dec.args.push(create_int(4));
    let text = compile_x86(vec![dec, stmt(AstStmtType::End)]);
    assert!(text.contains("  mov eax, 2\n  add eax, 3\n  imul eax, 4\n  mov [rbp-4], eax\n"));
}

#[test]
fn if_branches_over_body_with_inverted_polarity() {
    let mut dec = stmt(AstStmtType::VarDec);
    dec.name = String::from("x");
    dec.modifiers.push(int_mod());
    dec.args.push(create_int(1));
    let mut cond = stmt(AstStmtType::If);
    cond.args.push(id_token("x"));
    cond.args.push(create_orphan_arg(AstArgType::OpEq));
    cond.args.push(create_int(0));
    let text = compile_x86(vec![
        dec,
        cond,
        stmt(AstStmtType::End),
        stmt(AstStmtType::End),
    ]);
    // the guard compares the slot directly and jumps over the body
    // when it fails; both pending labels close the construct
    assert!(text.contains("  cmp [rbp-4], 0\n  jne L1\n"));
    assert!(text.contains("L1:\nL0:\n"));
}

#[test]
fn while_keeps_direct_polarity_and_buffers_comparison() {
    let mut dec = stmt(AstStmtType::VarDec);
    dec.name = String::from("i");
    dec.modifiers.push(int_mod());
    dec.args.push(create_int(0));
    let mut w = stmt(AstStmtType::While);
    w.args.push(id_token("i"));
    w.args.push(create_orphan_arg(AstArgType::OpLt));
    w.args.push(create_int(10));
    let mut inc = stmt(AstStmtType::VarAssign);
    inc.name = String::from("i");
    inc.args.push(id_token("i"));
    inc.args.push(create_orphan_arg(AstArgType::OpAdd));
    inc.args.push(create_int(1));
    let text = compile_x86(vec![
        dec,
        w,
        inc,
        stmt(AstStmtType::End),
        stmt(AstStmtType::End),
    ]);
    // jump to the comparison, body label, body, then the buffered
    // comparison block ending with the end label
    assert!(text.contains("  jmp L0\nL1:\n"));
    assert!(text.contains("  mov eax, [rbp-4]\n  add eax, 1\n  mov [rbp-4], eax\n"));
    assert!(text.contains("L0:\n  mov eax, [rbp-4]\n  cmp eax, 10\n  jl L1\nL2:\n"));
}

#[test]
fn string_argument_gets_data_entry_and_pointer() {
    let mut call = stmt(AstStmtType::FuncCall);
    call.name = String::from("puts");
    call.args.push(create_string(String::from("hi")));
    let text = compile_x86(vec![call, stmt(AstStmtType::End)]);
    assert!(text.contains("STR0: .string \"hi\"\n"));
    assert!(text.contains("  mov rdi, offset STR0\n"));
    assert!(text.contains("  call puts\n"));
}

#[test]
fn extern_function_declares_symbol() {
    let puts = ltacc::ast::create_extern_func(String::from("puts"));
    let mut main = create_func(String::from("main"));
    main.statements = vec![stmt(AstStmtType::End)];
    let tree = AstTree {
        file_name: String::from("first"),
        module: String::new(),
        functions: vec![puts, main],
        constants: Vec::new(),
    };
    let mut builder = new_ltac_builder(String::from("first"));
    let file = builder.build_ltac(&tree).expect("translation should succeed");
    let text = amd64_build_asm_text(&file);
    assert!(text.contains(".extern puts\n"));
}

#[test]
fn syscall_uses_kernel_registers() {
    let mut call = stmt(AstStmtType::FuncCall);
    call.name = String::from("syscall");
    call.args.push(create_int(60));
    call.args.push(create_int(0));
    let text = compile_x86(vec![call, stmt(AstStmtType::End)]);
    assert!(text.contains("  mov rdi, 60\n"));
    assert!(text.contains("  mov rsi, 0\n"));
    assert!(text.contains("  syscall\n"));
}

#[test]
fn return_value_moves_into_return_register() {
    let mut dec = stmt(AstStmtType::VarDec);
    dec.name = String::from("x");
    dec.modifiers.push(int_mod());
    dec.args.push(create_int(7));
    let mut ret = stmt(AstStmtType::Return);
    ret.args.push(id_token("x"));
    let mut main = create_func(String::from("main"));
    main.modifiers.push(int_mod());
    main.statements = vec![dec, ret, stmt(AstStmtType::End)];
    let tree = AstTree {
        file_name: String::from("first"),
        module: String::new(),
        functions: vec![main],
        constants: Vec::new(),
    };
    let mut builder = new_ltac_builder(String::from("first"));
    let file = builder.build_ltac(&tree).expect("translation should succeed");
    let text = amd64_build_asm_text(&file);
    assert!(text.contains("  mov eax, [rbp-4]\n"));
    assert!(text.contains("\n  leave\n  ret\n\n"));
}

#[test]
fn parameters_load_in_source_order() {
    let mut pa = stmt(AstStmtType::VarDec);
    pa.name = String::from("a");
    pa.modifiers.push(int_mod());
    let mut pb = stmt(AstStmtType::VarDec);
    pb.name = String::from("b");
    pb.modifiers.push(int_mod());
    let mut f = create_func(String::from("add2"));
    f.args = vec![pa, pb];
    f.statements = vec![stmt(AstStmtType::End)];
    let tree = AstTree {
        file_name: String::from("first"),
        module: String::new(),
        functions: vec![f],
        constants: Vec::new(),
    };
    let mut builder = new_ltac_builder(String::from("first"));
    let file = builder.build_ltac(&tree).expect("translation should succeed");
    let text = amd64_build_asm_text(&file);
    // first parameter from the first argument register, second from
    // the second, in source order
    let first = text.find("  mov [rbp-4], edi\n").expect("first load");
    let second = text.find("  mov [rbp-8], esi\n").expect("second load");
    assert!(first < second);
}
