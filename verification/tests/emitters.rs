//! Exact emitted text of the per-instruction generators of the three
//! back ends.

use ltacc::ltac::{create_instr, LtacArg, LtacData, LtacDataType, LtacType};

fn instr_named(t: LtacType, name: &str) -> ltacc::ltac::LtacInstr {
    let mut i = create_instr(t);
    i.name = String::from(name);
    i
}

#[test]
fn x86_extern_label_func_ret() {
    let e = instr_named(LtacType::Extern, "puts");
    assert_eq!(ltacc::x86::amd64_build_extern(&e), ".extern puts\n");
    let l = instr_named(LtacType::Label, "L7");
    assert_eq!(ltacc::x86::amd64_build_label(&l), "L7:\n");
    let mut f = instr_named(LtacType::Func, "main");
    f.arg1_val = 32;
    assert_eq!(
        ltacc::x86::amd64_build_func(&f),
        "\n.global main\nmain:\n  push rbp\n  mov rbp, rsp\n  sub rsp, 32\n\n"
    );
    f.arg1_val = 0;
    assert_eq!(
        ltacc::x86::amd64_build_func(&f),
        "\n.global main\nmain:\n  push rbp\n  mov rbp, rsp\n\n"
    );
    assert_eq!(ltacc::x86::amd64_build_ret(), "\n  leave\n  ret\n\n");
}

#[test]
fn x86_ldarg_writes_slot_from_argument_register() {
    let mut ld = create_instr(LtacType::LdArgI32);
    ld.arg1_val = 8;
    ld.arg2_val = 2;
    assert_eq!(ltacc::x86::amd64_build_ldarg(&ld), "  mov [rbp-8], esi\n");
}

#[test]
fn x86_mov_variants() {
    let mut m = create_instr(LtacType::Mov);
    m.arg1 = LtacArg::Mem(4);
    m.arg2 = LtacArg::I32(-9);
    assert_eq!(ltacc::x86::amd64_build_mov(&m), "  mov dword ptr [rbp-4], -9\n");
    m.arg2 = LtacArg::Mem(8);
    assert_eq!(
        ltacc::x86::amd64_build_mov(&m),
        "  mov eax, [rbp-8]\n  mov [rbp-4], eax\n"
    );
    m.arg1 = LtacArg::Reg32(0);
    m.arg2 = LtacArg::RetRegI32;
    assert_eq!(ltacc::x86::amd64_build_mov(&m), "  mov eax, eax\n");
}

#[test]
fn x86_division_goes_through_idiv() {
    let mut d = create_instr(LtacType::I32Div);
    d.arg1 = LtacArg::Reg32(0);
    d.arg2 = LtacArg::I32(3);
    assert_eq!(
        ltacc::x86::amd64_build_math(&d),
        "  mov ebx, 3\n  cdq\n  idiv ebx\n"
    );
    d.instr_type = LtacType::I32Mod;
    assert_eq!(
        ltacc::x86::amd64_build_math(&d),
        "  mov ebx, 3\n  cdq\n  idiv ebx\n  mov eax, edx\n"
    );
}

#[test]
fn x86_cmp_and_jumps() {
    let mut c = create_instr(LtacType::I32Cmp);
    c.arg1 = LtacArg::Mem(4);
    c.arg2 = LtacArg::I32(0);
    assert_eq!(ltacc::x86::amd64_build_cmp(&c), "  cmp [rbp-4], 0\n");
    let j = instr_named(LtacType::Bge, "L3");
    assert_eq!(ltacc::x86::amd64_build_jump(&j), "  jge L3\n");
    let b = instr_named(LtacType::Br, "L9");
    assert_eq!(ltacc::x86::amd64_build_jump(&b), "  jmp L9\n");
}

#[test]
fn x86_pusharg_registers() {
    let mut p = create_instr(LtacType::PushArg);
    p.arg1 = LtacArg::I32(5);
    p.arg2_val = 3;
    assert_eq!(ltacc::x86::amd64_build_pusharg(&p, false), "  mov edx, 5\n");
    p.arg1 = LtacArg::PtrLcl(String::from("STR2"));
    p.arg2_val = 1;
    assert_eq!(
        ltacc::x86::amd64_build_pusharg(&p, false),
        "  mov rdi, offset STR2\n"
    );
    p.arg1 = LtacArg::Mem(12);
    p.arg2_val = 4;
    assert_eq!(ltacc::x86::amd64_build_pusharg(&p, true), "  mov r10, [rbp-12]\n");
}

#[test]
fn data_section_entries() {
    let data = vec![
        LtacData {
            data_type: LtacDataType::StringL,
            name: String::from("STR0"),
            val: String::from("hey"),
        },
        LtacData {
            data_type: LtacDataType::FloatL,
            name: String::from("FLT0"),
            val: String::from("1078530011"),
        },
        LtacData {
            data_type: LtacDataType::DoubleL,
            name: String::from("FLT1"),
            val: String::from("4614256656552045848"),
        },
    ];
    let text = ltacc::x86::amd64_build_data(&data);
    assert_eq!(
        text,
        ".data\nSTR0: .string \"hey\"\nFLT0: .long 1078530011\nFLT1: .quad 4614256656552045848\n\n"
    );
}

#[test]
fn aarch64_minimum_set() {
    let e = instr_named(LtacType::Extern, "puts");
    assert_eq!(ltacc::aarch64::aarch64_build_extern(&e), ".extern puts\n");
    let mut f = instr_named(LtacType::Func, "main");
    f.arg1_val = 48;
    assert_eq!(
        ltacc::aarch64::aarch64_build_func(&f),
        ".global main\nmain:\n  stp x29, x30, [sp, -48]!\n  mov x29, sp\n\n"
    );
    assert_eq!(
        ltacc::aarch64::aarch64_build_ret(48),
        "  ldp x29, x30, [sp], 48\n  ret\n"
    );
    let c = instr_named(LtacType::Call, "puts");
    assert_eq!(ltacc::aarch64::aarch64_build_call(&c), "  bl puts\n\n");
    let mut p = create_instr(LtacType::PushArg);
    p.arg1 = LtacArg::I32(5);
    p.arg2_val = 1;
    assert_eq!(ltacc::aarch64::aarch64_build_pusharg(&p), "  mov w0, 5\n");
    p.arg1 = LtacArg::PtrLcl(String::from("STR0"));
    assert_eq!(
        ltacc::aarch64::aarch64_build_pusharg(&p),
        "  adrp x0, STR0\n  add x0, x0, :lo12:STR0\n"
    );
}

#[test]
fn riscv64_function_frame_and_return() {
    let mut f = instr_named(LtacType::Func, "main");
    f.arg1_val = 16;
    assert_eq!(
        ltacc::riscv64::riscv64_build_func(&f),
        "\n.global main\nmain:\n  addi sp, sp, -32\n  sd ra, 24(sp)\n  sd s0, 16(sp)\n  addi s0, sp, 32\n\n"
    );
    assert_eq!(
        ltacc::riscv64::riscv64_build_ret(32),
        "  ld ra, 24(sp)\n  ld s0, 16(sp)\n  addi sp, sp, 32\n  ret\n\n"
    );
}

#[test]
fn riscv64_mov_picks_li_or_mv() {
    let mut m = create_instr(LtacType::Mov);
    m.arg1 = LtacArg::Reg32(0);
    m.arg2 = LtacArg::I32(7);
    assert_eq!(ltacc::riscv64::riscv64_build_mov(&m), "  li s1, 7\n");
    m.arg2 = LtacArg::RetRegI32;
    assert_eq!(ltacc::riscv64::riscv64_build_mov(&m), "  mv s1, a0\n");
    m.arg1 = LtacArg::RetRegI32;
    m.arg2 = LtacArg::Reg32(0);
    assert_eq!(ltacc::riscv64::riscv64_build_mov(&m), "  mv a0, s1\n");
}

#[test]
fn riscv64_math_forms() {
    let mut a = create_instr(LtacType::I32Add);
    a.arg1 = LtacArg::Reg32(0);
    a.arg2 = LtacArg::I32(3);
    assert_eq!(ltacc::riscv64::riscv64_build_instr(&a), "  addiw s1, s1, 3\n");
    a.instr_type = LtacType::I32Sub;
    assert_eq!(ltacc::riscv64::riscv64_build_instr(&a), "  addiw s1, s1, -3\n");
    a.instr_type = LtacType::I32Mul;
    assert_eq!(
        ltacc::riscv64::riscv64_build_instr(&a),
        "  li s2, 3\n  mulw s1, s1, s2\n"
    );
    a.instr_type = LtacType::I32And;
    a.arg2 = LtacArg::Reg32(1);
    assert_eq!(ltacc::riscv64::riscv64_build_instr(&a), "  and s1, s1, s4\n");
    assert!(ltacc::riscv64::riscv64_is_muldiv(&LtacType::I32Div));
    assert!(!ltacc::riscv64::riscv64_is_muldiv(&LtacType::I32Add));
}

#[test]
fn riscv64_loads_and_stores_expand_addressing() {
    let mut ld = create_instr(LtacType::Ld);
    ld.arg1 = LtacArg::Mem(4);
    ld.arg2 = LtacArg::Reg32(0);
    assert_eq!(
        ltacc::riscv64::riscv64_build_ld_str(&ld, 32),
        "  lw s1, -28(s0)\n"
    );
    let mut st = create_instr(LtacType::Str);
    st.arg1 = LtacArg::MemOffsetImm(8, 12);
    st.arg2 = LtacArg::Reg32(0);
    assert_eq!(
        ltacc::riscv64::riscv64_build_ld_str(&st, 32),
        "  ld s2, -32(s0)\n  addi s2, s2, 12\n  sw s1, 0(s2)\n"
    );
    let mut lm = create_instr(LtacType::Ld);
    lm.arg1 = LtacArg::MemOffsetMem(8, 4, 4);
    lm.arg2 = LtacArg::Reg32(0);
    assert_eq!(
        ltacc::riscv64::riscv64_build_ld_str(&lm, 32),
        "  ld s2, -32(s0)\n  lw s3, -28(s0)\n  slli s3, s3, 2\n  add s2, s2, s3\n  lw s1, 0(s2)\n"
    );
}

#[test]
fn riscv64_conditional_jump_reloads_operands() {
    let mut cmp = create_instr(LtacType::I32Cmp);
    cmp.arg1 = LtacArg::Mem(4);
    cmp.arg2 = LtacArg::I32(10);
    let br = instr_named(LtacType::Bl, "L2");
    assert_eq!(
        ltacc::riscv64::riscv64_build_cond_jump(&cmp, &br, 32),
        "  lw s2, -28(s0)\n  li s3, 10\n  blt s2, s3, L2\n"
    );
}

#[test]
fn riscv64_whole_unit_text() {
    let mut f = instr_named(LtacType::Func, "main");
    f.arg1_val = 16;
    let mut mv = create_instr(LtacType::Mov);
    mv.arg1 = LtacArg::RetRegI32;
    mv.arg2 = LtacArg::I32(0);
    let r = create_instr(LtacType::Ret);
    let file = ltacc::ltac::LtacFile {
        name: String::from("unit"),
        data: Vec::new(),
        code: vec![f, mv, r],
    };
    let text = ltacc::riscv64::riscv64_build_asm_text(&file);
    assert!(text.starts_with(".data\n\n.text\n"));
    assert!(text.contains("  li a0, 0\n"));
    assert!(text.contains("  ld ra, 24(sp)\n"));
}
