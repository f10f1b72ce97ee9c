//! The RISC-V 64 back end: LTAC to assembly text.
//!
//! Memory operands address downward from the frame pointer `s0`; the
//! frame adds sixteen bytes over the declared locals for the saved
//! return address and frame pointer.  Moves pick `li` or `mv` by
//! operand kind; integer operations use the word-suffixed forms, with
//! immediates folded into `*i` variants or staged through the scratch
//! register for multiply and divide.  Conditional branches re-load the
//! operands of the pending comparison and branch directly.

use vstd::prelude::*;
use vstd::string::StringExecFns;

use crate::ltac::{LtacArg, LtacData, LtacDataType, LtacFile, LtacInstr, LtacType};
use crate::numtext::{dec_int, i32_text, i64_text};

verus! {

/// The name of a virtual operation register.
pub open spec fn spec_rv_op_reg(n: int) -> Seq<char> {
    if n == 0 {
        "s1"@
    } else if n == 1 {
        "s4"@
    } else if n == 2 {
        "s5"@
    } else if n == 3 {
        "s6"@
    } else {
        "s1"@
    }
}

/// Returns the name of a virtual operation register.
pub fn riscv64_op_reg(n: i32) -> (r: &'static str)
    ensures
        r@ == spec_rv_op_reg(n as int),
{
    if n == 0 {
        "s1"
    } else if n == 1 {
        "s4"
    } else if n == 2 {
        "s5"
    } else if n == 3 {
        "s6"
    } else {
        "s1"
    }
}

/// The argument register for a 1-based position.
pub open spec fn spec_rv_arg_reg(n: int) -> Seq<char> {
    if n == 1 {
        "a0"@
    } else if n == 2 {
        "a1"@
    } else if n == 3 {
        "a2"@
    } else if n == 4 {
        "a3"@
    } else if n == 5 {
        "a4"@
    } else if n == 6 {
        "a5"@
    } else if n == 7 {
        "a6"@
    } else {
        "a7"@
    }
}

/// Returns the argument register for a 1-based position.
pub fn riscv64_arg_reg(n: i32) -> (r: &'static str)
    ensures
        r@ == spec_rv_arg_reg(n as int),
{
    if n == 1 {
        "a0"
    } else if n == 2 {
        "a1"
    } else if n == 3 {
        "a2"
    } else if n == 4 {
        "a3"
    } else if n == 5 {
        "a4"
    } else if n == 6 {
        "a5"
    } else if n == 7 {
        "a6"
    } else {
        "a7"
    }
}

/// The text of a frame-relative memory operand: the slot measured
/// down from the frame top.
pub open spec fn spec_rv_mem(stack_top: int, pos: int) -> Seq<char> {
    "-"@ + dec_int(stack_top - pos) + "(s0)"@
}

/// Returns the text of a frame-relative memory operand.
pub fn riscv64_mem(stack_top: i64, pos: i32) -> (r: String)
    requires
        -0x7FFF_FFFF_FFFFi64 < stack_top < 0x7FFF_FFFF_FFFFi64,
    ensures
        r@ == spec_rv_mem(stack_top as int, pos as int),
{
    let diff: i64 = stack_top - (pos as i64);
    let mut s = String::from_str("-");
    s.append(i64_text(diff).as_str());
    s.append("(s0)");
    proof {
        assert(s@ =~= spec_rv_mem(stack_top as int, pos as int));
    }
    s
}

/// The text of an extern declaration.
pub open spec fn spec_rv_extern(name: Seq<char>) -> Seq<char> {
    ".extern "@ + name + "\n"@
}

/// Builds an extern declaration.
pub fn riscv64_build_extern(code: &LtacInstr) -> (r: String)
    ensures
        r@ == spec_rv_extern(code.name@),
{
    let mut line = String::from_str(".extern ");
    line.append(code.name.as_str());
    line.append("\n");
    proof {
        assert(line@ =~= spec_rv_extern(code.name@));
    }
    line
}

/// The text of a label.
pub open spec fn spec_rv_label(name: Seq<char>) -> Seq<char> {
    name + ":\n"@
}

/// Builds a label.
pub fn riscv64_build_label(code: &LtacInstr) -> (r: String)
    ensures
        r@ == spec_rv_label(code.name@),
{
    let mut line = String::new();
    line.append(code.name.as_str());
    line.append(":\n");
    proof {
        assert(line@ =~= spec_rv_label(code.name@));
    }
    line
}

/// The text of a function header: the frame allocation and the saves
/// of the return address and old frame pointer.  `size` is the full
/// frame: declared locals plus the sixteen-byte save area.
pub open spec fn spec_rv_func(name: Seq<char>, size: int) -> Seq<char> {
    "\n.global "@ + name + "\n"@ + name + ":\n"@ + "  addi sp, sp, -"@ + dec_int(size) + "\n"@
        + "  sd ra, "@ + dec_int(size - 8) + "(sp)\n"@ + "  sd s0, "@ + dec_int(size - 16)
        + "(sp)\n"@ + "  addi s0, sp, "@ + dec_int(size) + "\n\n"@
}

/// Builds a function header; the full frame is the declared size plus
/// the save area.
pub fn riscv64_build_func(code: &LtacInstr) -> (r: String)
    ensures
        r@ == spec_rv_func(code.name@, code.arg1_val + 16),
{
    let size: i64 = (code.arg1_val as i64) + 16;
    let mut line = String::from_str("\n.global ");
    line.append(code.name.as_str());
    line.append("\n");
    line.append(code.name.as_str());
    line.append(":\n");
    line.append("  addi sp, sp, -");
    line.append(i64_text(size).as_str());
    line.append("\n");
    line.append("  sd ra, ");
    line.append(i64_text(size - 8).as_str());
    line.append("(sp)\n");
    line.append("  sd s0, ");
    line.append(i64_text(size - 16).as_str());
    line.append("(sp)\n");
    line.append("  addi s0, sp, ");
    line.append(i64_text(size).as_str());
    line.append("\n\n");
    proof {
        assert(line@ =~= spec_rv_func(code.name@, code.arg1_val + 16));
    }
    line
}

/// The text of the epilogue for a frame of the given full size.
pub open spec fn spec_rv_ret(size: int) -> Seq<char> {
    "  ld ra, "@ + dec_int(size - 8) + "(sp)\n"@ + "  ld s0, "@ + dec_int(size - 16)
        + "(sp)\n"@ + "  addi sp, sp, "@ + dec_int(size) + "\n  ret\n\n"@
}

/// Builds the epilogue.
pub fn riscv64_build_ret(stack_size: i64) -> (r: String)
    requires
        -0x7FFF_FFFF_FFFFi64 < stack_size < 0x7FFF_FFFF_FFFFi64,
    ensures
        r@ == spec_rv_ret(stack_size as int),
{
    let size: i64 = stack_size;
    let mut line = String::from_str("  ld ra, ");
    line.append(i64_text(size - 8).as_str());
    line.append("(sp)\n");
    line.append("  ld s0, ");
    line.append(i64_text(size - 16).as_str());
    line.append("(sp)\n");
    line.append("  addi sp, sp, ");
    line.append(i64_text(size).as_str());
    line.append("\n  ret\n\n");
    proof {
        assert(line@ =~= spec_rv_ret(stack_size as int));
    }
    line
}

/// The text of an argument load: the incoming argument register
/// stored to the parameter's slot.
pub open spec fn spec_rv_ldarg(i: LtacInstr, stack_top: int) -> Seq<char> {
    "  sw "@ + spec_rv_arg_reg(i.arg2_val as int) + ", "@ + spec_rv_mem(
        stack_top,
        i.arg1_val as int,
    ) + "\n"@
}

/// Builds an argument load.
pub fn riscv64_build_ldarg(code: &LtacInstr, stack_top: i64) -> (r: String)
    requires
        -0x7FFF_FFFF_FFFFi64 < stack_top < 0x7FFF_FFFF_FFFFi64,
    ensures
        r@ == spec_rv_ldarg(*code, stack_top as int),
{
    let mut line = String::from_str("  sw ");
    line.append(riscv64_arg_reg(code.arg2_val));
    line.append(", ");
    line.append(riscv64_mem(stack_top, code.arg1_val).as_str());
    line.append("\n");
    proof {
        assert(line@ =~= spec_rv_ldarg(*code, stack_top as int));
    }
    line
}

/// The text of a move: `li` for an immediate source, `mv` otherwise.
pub open spec fn spec_rv_mov(i: LtacInstr) -> Seq<char> {
    let mn: Seq<char> = if i.instr_type == LtacType::Mov && (i.arg2 matches LtacArg::I32(_)) {
        "  li "@
    } else {
        "  mv "@
    };
    let dst: Seq<char> = match i.arg1 {
        LtacArg::RetRegI32 | LtacArg::RetRegU32 | LtacArg::RetRegI64 | LtacArg::RetRegU64 => "a0, "@,
        LtacArg::Reg32(n) => spec_rv_op_reg(n as int) + ", "@,
        LtacArg::Reg64(n) => spec_rv_op_reg(n as int) + ", "@,
        _ => Seq::<char>::empty(),
    };
    let src: Seq<char> = match i.arg2 {
        LtacArg::Reg32(n) => spec_rv_op_reg(n as int),
        LtacArg::Reg64(n) => spec_rv_op_reg(n as int),
        LtacArg::RetRegI32 | LtacArg::RetRegU32 | LtacArg::RetRegI64 | LtacArg::RetRegU64 => "a0"@,
        LtacArg::I32(v) => dec_int(v as int),
        _ => Seq::<char>::empty(),
    };
    mn + dst + src + "\n"@
}

/// Builds a move.
pub fn riscv64_build_mov(code: &LtacInstr) -> (r: String)
    ensures
        r@ == spec_rv_mov(*code),
{
    let mut line = String::new();
    if matches!(code.instr_type, LtacType::Mov) && matches!(code.arg2, LtacArg::I32(_)) {
        line.append("  li ");
    } else {
        line.append("  mv ");
    }
    match &code.arg1 {
        LtacArg::RetRegI32 | LtacArg::RetRegU32 | LtacArg::RetRegI64 | LtacArg::RetRegU64 => {
            line.append("a0, ");
        },
        LtacArg::Reg32(n) => {
            line.append(riscv64_op_reg(*n));
            line.append(", ");
        },
        LtacArg::Reg64(n) => {
            line.append(riscv64_op_reg(*n));
            line.append(", ");
        },
        _ => {},
    }
    match &code.arg2 {
        LtacArg::Reg32(n) => {
            line.append(riscv64_op_reg(*n));
        },
        LtacArg::Reg64(n) => {
            line.append(riscv64_op_reg(*n));
        },
        LtacArg::RetRegI32 | LtacArg::RetRegU32 | LtacArg::RetRegI64 | LtacArg::RetRegU64 => {
            line.append("a0");
        },
        LtacArg::I32(v) => {
            line.append(i32_text(*v).as_str());
        },
        _ => {},
    }
    line.append("\n");
    proof {
        assert(line@ =~= spec_rv_mov(*code));
    }
    line
}

/// Reports whether the operation is a multiply, divide, or remainder:
/// those cannot take an immediate operand directly.
pub fn riscv64_is_muldiv(instr_type: &LtacType) -> (r: bool)
    ensures
        r == (*instr_type == LtacType::I32Mul || *instr_type == LtacType::I32Div
            || *instr_type == LtacType::I32Mod),
{
    matches!(instr_type, LtacType::I32Mul | LtacType::I32Div | LtacType::I32Mod)
}

/// The base mnemonic of an integer operation, before any suffix.
pub open spec fn spec_rv_base_mn(t: LtacType, imm: bool) -> Seq<char> {
    if t == LtacType::I32Add {
        if imm {
            "addiw"@
        } else {
            "addw"@
        }
    } else if t == LtacType::I32Sub {
        if imm {
            "addiw"@
        } else {
            "subw"@
        }
    } else if t == LtacType::I32Mul {
        "mulw"@
    } else if t == LtacType::I32Div {
        "divw"@
    } else if t == LtacType::I32Mod {
        "remw"@
    } else if t == LtacType::I32And {
        if imm {
            "andi"@
        } else {
            "and"@
        }
    } else if t == LtacType::I32Or {
        if imm {
            "ori"@
        } else {
            "or"@
        }
    } else if t == LtacType::I32Xor {
        if imm {
            "xori"@
        } else {
            "xor"@
        }
    } else if t == LtacType::I32Lsh {
        if imm {
            "slliw"@
        } else {
            "sllw"@
        }
    } else if t == LtacType::I32Rsh {
        if imm {
            "srliw"@
        } else {
            "srlw"@
        }
    } else {
        Seq::<char>::empty()
    }
}

/// The text of the second operand of an integer operation.
pub open spec fn spec_rv_math_rhs(i: LtacInstr, muldiv: bool) -> Seq<char> {
    match i.arg2 {
        LtacArg::Reg32(n) => spec_rv_op_reg(n as int),
        LtacArg::I32(v) => if muldiv {
            "s2"@
        } else if i.instr_type == LtacType::I32Sub {
            if v > 0 {
                "-"@ + dec_int(v as int)
            } else {
                dec_int(-(v as int))
            }
        } else {
            dec_int(v as int)
        },
        _ => Seq::<char>::empty(),
    }
}

/// The text of an integer operation: an immediate for multiply or
/// divide is first staged into the scratch register; an immediate
/// subtraction becomes an addition of the negated value.
pub open spec fn spec_rv_instr(i: LtacInstr) -> Seq<char> {
    let muldiv = i.instr_type == LtacType::I32Mul || i.instr_type == LtacType::I32Div
        || i.instr_type == LtacType::I32Mod;
    let imm = i.arg2 matches LtacArg::I32(_);
    let stage: Seq<char> = if muldiv && imm {
        match i.arg2 {
            LtacArg::I32(v) => "  li s2, "@ + dec_int(v as int) + "\n"@,
            _ => Seq::<char>::empty(),
        }
    } else {
        Seq::<char>::empty()
    };
    let dst: Seq<char> = match i.arg1 {
        LtacArg::RetRegI32 | LtacArg::RetRegU32 => "a0, "@,
        LtacArg::Reg32(n) => spec_rv_op_reg(n as int) + ", "@ + spec_rv_op_reg(n as int)
            + ", "@,
        _ => Seq::<char>::empty(),
    };
    stage + "  "@ + spec_rv_base_mn(i.instr_type, imm && !muldiv) + " "@ + dst
        + spec_rv_math_rhs(i, muldiv) + "\n"@
}

/// Builds an integer operation.
pub fn riscv64_build_instr(code: &LtacInstr) -> (r: String)
    ensures
        r@ == spec_rv_instr(*code),
{
    let mut line = String::new();
    let muldiv = riscv64_is_muldiv(&code.instr_type);
    let imm = matches!(code.arg2, LtacArg::I32(_));
    if muldiv && imm {
        match &code.arg2 {
            LtacArg::I32(v) => {
                line.append("  li s2, ");
                line.append(i32_text(*v).as_str());
                line.append("\n");
            },
            _ => {},
        }
    }
    line.append("  ");
    let mn: &'static str = match code.instr_type {
        LtacType::I32Add => if imm && !muldiv {
            "addiw"
        } else {
            "addw"
        },
        LtacType::I32Sub => if imm && !muldiv {
            "addiw"
        } else {
            "subw"
        },
        LtacType::I32Mul => "mulw",
        LtacType::I32Div => "divw",
        LtacType::I32Mod => "remw",
        LtacType::I32And => if imm && !muldiv {
            "andi"
        } else {
            "and"
        },
        LtacType::I32Or => if imm && !muldiv {
            "ori"
        } else {
            "or"
        },
        LtacType::I32Xor => if imm && !muldiv {
            "xori"
        } else {
            "xor"
        },
        LtacType::I32Lsh => if imm && !muldiv {
            "slliw"
        } else {
            "sllw"
        },
        LtacType::I32Rsh => if imm && !muldiv {
            "srliw"
        } else {
            "srlw"
        },
        _ => "",
    };
    proof {
        reveal_strlit("");
        assert(mn@ =~= spec_rv_base_mn(code.instr_type, imm && !muldiv));
    }
    line.append(mn);
    line.append(" ");
    match &code.arg1 {
        LtacArg::RetRegI32 | LtacArg::RetRegU32 => {
            line.append("a0, ");
        },
        LtacArg::Reg32(n) => {
            line.append(riscv64_op_reg(*n));
            line.append(", ");
            line.append(riscv64_op_reg(*n));
            line.append(", ");
        },
        _ => {},
    }
    match &code.arg2 {
        LtacArg::Reg32(n) => {
            line.append(riscv64_op_reg(*n));
        },
        LtacArg::I32(v) => {
            if muldiv {
                line.append("s2");
            } else if matches!(code.instr_type, LtacType::I32Sub) {
                if *v > 0 {
                    line.append("-");
                    line.append(i32_text(*v).as_str());
                } else {
                    let mag: i64 = -(*v as i64);
                    let mut m = crate::numtext::u64_text(mag as u64);
                    proof {
                        assert(m@ == dec_int(-(*v as int)));
                    }
                    line.append(m.as_str());
                }
            } else {
                line.append(i32_text(*v).as_str());
            }
        },
        _ => {},
    }
    line.append("\n");
    proof {
        assert(line@ =~= spec_rv_instr(*code));
    }
    line
}

/// The text of an unconditional jump.
pub open spec fn spec_rv_jump(name: Seq<char>) -> Seq<char> {
    "  j "@ + name + "\n\n"@
}

/// Builds an unconditional jump.
pub fn riscv64_build_jump(code: &LtacInstr) -> (r: String)
    ensures
        r@ == spec_rv_jump(code.name@),
{
    let mut line = String::from_str("  j ");
    line.append(code.name.as_str());
    line.append("\n\n");
    proof {
        assert(line@ =~= spec_rv_jump(code.name@));
    }
    line
}

/// The branch mnemonic for a conditional jump; `ble` and `bgt` are
/// assembler pseudo-instructions.
pub open spec fn spec_rv_branch_mn(t: LtacType) -> Seq<char> {
    if t == LtacType::Be {
        "beq"@
    } else if t == LtacType::Bne {
        "bne"@
    } else if t == LtacType::Bl {
        "blt"@
    } else if t == LtacType::Ble {
        "ble"@
    } else if t == LtacType::Bg {
        "bgt"@
    } else {
        "bge"@
    }
}

/// The load text and register for one comparison operand.
pub open spec fn spec_rv_cmp_side(a: LtacArg, stack_top: int, scratch: Seq<char>) -> (
    Seq<char>,
    Seq<char>,
) {
    match a {
        LtacArg::Reg32(n) => (Seq::<char>::empty(), spec_rv_op_reg(n as int)),
        LtacArg::I32(v) => ("  li "@ + scratch + ", "@ + dec_int(v as int) + "\n"@, scratch),
        LtacArg::Mem(p) => (
            "  lw "@ + scratch + ", "@ + spec_rv_mem(stack_top, p as int) + "\n"@,
            scratch,
        ),
        _ => (Seq::<char>::empty(), scratch),
    }
}

/// The text of a conditional jump: the pending comparison's operands
/// are loaded fresh, then the branch compares them directly.
pub open spec fn spec_rv_cond_jump(cmp: LtacInstr, br: LtacInstr, stack_top: int) -> Seq<char> {
    let side1 = spec_rv_cmp_side(cmp.arg1, stack_top, "s2"@);
    let side2 = spec_rv_cmp_side(cmp.arg2, stack_top, "s3"@);
    side1.0 + side2.0 + "  "@ + spec_rv_branch_mn(br.instr_type) + " "@ + side1.1 + ", "@
        + side2.1 + ", "@ + br.name@ + "\n"@
}

/// Builds one side of a conditional jump, returning its register.
fn riscv64_cmp_side(a: &LtacArg, stack_top: i64, scratch: &'static str, line: &mut String) -> (
    reg: String)
    requires
        scratch@ == "s2"@ || scratch@ == "s3"@,
        -0x7FFF_FFFF_FFFFi64 < stack_top < 0x7FFF_FFFF_FFFFi64,
    ensures
        final(line)@ == old(line)@ + spec_rv_cmp_side(*a, stack_top as int, scratch@).0,
        reg@ == spec_rv_cmp_side(*a, stack_top as int, scratch@).1,
{
    match a {
        LtacArg::Reg32(n) => {
            let mut r = String::new();
            r.append(riscv64_op_reg(*n));
            proof {
                assert(line@ =~= old(line)@ + spec_rv_cmp_side(*a, stack_top as int, scratch@).0);
                assert(r@ =~= spec_rv_cmp_side(*a, stack_top as int, scratch@).1);
            }
            r
        },
        LtacArg::I32(v) => {
            line.append("  li ");
            line.append(scratch);
            line.append(", ");
            line.append(i32_text(*v).as_str());
            line.append("\n");
            let mut r = String::new();
            r.append(scratch);
            proof {
                assert(line@ =~= old(line)@ + spec_rv_cmp_side(*a, stack_top as int, scratch@).0);
                assert(r@ =~= spec_rv_cmp_side(*a, stack_top as int, scratch@).1);
            }
            r
        },
        LtacArg::Mem(p) => {
            line.append("  lw ");
            line.append(scratch);
            line.append(", ");
            line.append(riscv64_mem(stack_top, *p).as_str());
            line.append("\n");
            let mut r = String::new();
            r.append(scratch);
            proof {
                assert(line@ =~= old(line)@ + spec_rv_cmp_side(*a, stack_top as int, scratch@).0);
                assert(r@ =~= spec_rv_cmp_side(*a, stack_top as int, scratch@).1);
            }
            r
        },
        _ => {
            let mut r = String::new();
            r.append(scratch);
            proof {
                assert(line@ =~= old(line)@ + spec_rv_cmp_side(*a, stack_top as int, scratch@).0);
                assert(r@ =~= spec_rv_cmp_side(*a, stack_top as int, scratch@).1);
            }
            r
        },
    }
}

/// Builds a conditional jump against the pending comparison.
pub fn riscv64_build_cond_jump(cmp: &LtacInstr, br: &LtacInstr, stack_top: i64) -> (r: String)
    requires
        -0x7FFF_FFFF_FFFFi64 < stack_top < 0x7FFF_FFFF_FFFFi64,
    ensures
        r@ == spec_rv_cond_jump(*cmp, *br, stack_top as int),
{
    let mut line = String::new();
    let r1 = riscv64_cmp_side(&cmp.arg1, stack_top, "s2", &mut line);
    let r2 = riscv64_cmp_side(&cmp.arg2, stack_top, "s3", &mut line);
    line.append("  ");
    let mn: &'static str = match br.instr_type {
        LtacType::Be => "beq",
        LtacType::Bne => "bne",
        LtacType::Bl => "blt",
        LtacType::Ble => "ble",
        LtacType::Bg => "bgt",
        _ => "bge",
    };
    proof {
        assert(mn@ =~= spec_rv_branch_mn(br.instr_type));
    }
    line.append(mn);
    line.append(" ");
    line.append(r1.as_str());
    line.append(", ");
    line.append(r2.as_str());
    line.append(", ");
    line.append(br.name.as_str());
    line.append("\n");
    proof {
        assert(line@ =~= spec_rv_cond_jump(*cmp, *br, stack_top as int));
    }
    line
}

/// The text of an argument push: load the value into the argument
/// register of its slot.
pub open spec fn spec_rv_pusharg(i: LtacInstr, stack_top: int) -> Seq<char> {
    let reg = spec_rv_arg_reg(i.arg2_val as int);
    match i.arg1 {
        LtacArg::I32(v) => "  li "@ + reg + ", "@ + dec_int(v as int) + "\n"@,
        LtacArg::Mem(p) => "  lw "@ + reg + ", "@ + spec_rv_mem(stack_top, p as int) + "\n"@,
        LtacArg::PtrLcl(s) => "  la "@ + reg + ", "@ + s@ + "\n"@,
        _ => Seq::<char>::empty(),
    }
}

/// Builds an argument push.
pub fn riscv64_build_pusharg(code: &LtacInstr, stack_top: i64) -> (r: String)
    requires
        -0x7FFF_FFFF_FFFFi64 < stack_top < 0x7FFF_FFFF_FFFFi64,
    ensures
        r@ == spec_rv_pusharg(*code, stack_top as int),
{
    let mut line = String::new();
    match &code.arg1 {
        LtacArg::I32(v) => {
            line.append("  li ");
            line.append(riscv64_arg_reg(code.arg2_val));
            line.append(", ");
            line.append(i32_text(*v).as_str());
            line.append("\n");
        },
        LtacArg::Mem(p) => {
            line.append("  lw ");
            line.append(riscv64_arg_reg(code.arg2_val));
            line.append(", ");
            line.append(riscv64_mem(stack_top, *p).as_str());
            line.append("\n");
        },
        LtacArg::PtrLcl(s) => {
            line.append("  la ");
            line.append(riscv64_arg_reg(code.arg2_val));
            line.append(", ");
            line.append(s.as_str());
            line.append("\n");
        },
        _ => {},
    }
    proof {
        assert(line@ =~= spec_rv_pusharg(*code, stack_top as int));
    }
    line
}

/// The text of one data entry, as in the other back ends.
pub open spec fn spec_rv_data_entry(d: LtacData) -> Seq<char> {
    match d.data_type {
        LtacDataType::StringL => d.name@ + ": .string \""@ + d.val@ + "\"\n"@,
        LtacDataType::FloatL => d.name@ + ": .long "@ + d.val@ + "\n"@,
        LtacDataType::DoubleL => d.name@ + ": .quad "@ + d.val@ + "\n"@,
    }
}

/// The text of the data section.
pub open spec fn spec_rv_data(data: Seq<LtacData>, k: int) -> Seq<char>
    decreases k,
{
    if k <= 0 || k > data.len() {
        ".data\n"@
    } else {
        spec_rv_data(data, k - 1) + spec_rv_data_entry(data[k - 1])
    }
}

/// Builds the data section.
pub fn write_data(data: &Vec<LtacData>) -> (r: String)
    ensures
        r@ == spec_rv_data(data@, data@.len() as int) + "\n"@,
{
    let mut line = String::from_str(".data\n");
    let n = data.len();
    let mut k: usize = 0;
    while k < n
        invariant
            n == data@.len(),
            k <= n,
            line@ == spec_rv_data(data@, k as int),
        decreases n - k,
    {
        let d = &data[k];
        match d.data_type {
            LtacDataType::StringL => {
                line.append(d.name.as_str());
                line.append(": .string \"");
                line.append(d.val.as_str());
                line.append("\"\n");
            },
            LtacDataType::FloatL => {
                line.append(d.name.as_str());
                line.append(": .long ");
                line.append(d.val.as_str());
                line.append("\n");
            },
            LtacDataType::DoubleL => {
                line.append(d.name.as_str());
                line.append(": .quad ");
                line.append(d.val.as_str());
                line.append("\n");
            },
        }
        proof {
            assert(line@ =~= spec_rv_data(data@, k + 1));
        }
        k = k + 1;
    }
    line.append("\n");
    line
}


/// The mnemonic of a load or store.
pub open spec fn spec_rv_ls_mn(t: LtacType) -> Seq<char> {
    if t == LtacType::Ld {
        "  lw "@
    } else if t == LtacType::LdQ {
        "  ld "@
    } else if t == LtacType::Str {
        "  sw "@
    } else if t == LtacType::StrQ {
        "  sd "@
    } else {
        Seq::<char>::empty()
    }
}

/// The text of a load or store with its addressing-mode expansion.
///
/// A plain slot addresses the frame directly, quad-width accesses
/// sitting eight bytes lower.  The offset forms first load the array
/// base into the scratch register, then add a literal offset, a
/// loaded index, or a register index — indexes of four-byte elements
/// are shifted left by two — and access through the scratch.
pub open spec fn spec_rv_ld_str(i: LtacInstr, stack_top: int) -> Seq<char> {
    let is_load = i.instr_type == LtacType::Ld || i.instr_type == LtacType::LdQ;
    let is_quad = i.instr_type == LtacType::LdQ || i.instr_type == LtacType::StrQ;
    let reg = match i.arg2 {
        LtacArg::Reg32(n) => spec_rv_op_reg(n as int),
        LtacArg::Reg64(n) => spec_rv_op_reg(n as int),
        _ => Seq::<char>::empty(),
    };
    let parts: (Seq<char>, Seq<char>) = match i.arg1 {
        LtacArg::Mem(val) => (
            Seq::<char>::empty(),
            "-"@ + dec_int(stack_top - val + (if is_quad {
                8int
            } else {
                0int
            })) + "(s0)"@,
        ),
        LtacArg::MemOffsetImm(pos, offset) => {
            let base = "  ld s2, -"@ + dec_int(stack_top - pos + 8) + "(s0)\n"@;
            if is_load {
                (base, dec_int(offset as int) + "(s2)"@)
            } else {
                (base + "  addi s2, s2, "@ + dec_int(offset as int) + "\n"@, "0(s2)"@)
            }
        },
        LtacArg::MemOffsetMem(pos, offset, size) => (
            "  ld s2, -"@ + dec_int(stack_top - pos + 8) + "(s0)\n"@ + "  lw s3, -"@ + dec_int(
                stack_top - offset,
            ) + "(s0)\n"@ + (if size == 4 {
                "  slli s3, s3, 2\n"@
            } else {
                Seq::<char>::empty()
            }) + "  add s2, s2, s3\n"@,
            "0(s2)"@,
        ),
        LtacArg::MemOffsetReg(pos, reg_pos, size) => (
            "  ld s2, -"@ + dec_int(stack_top - pos + 8) + "(s0)\n"@ + (if size == 4 {
                "  slli "@ + spec_rv_op_reg(reg_pos as int) + ", "@ + spec_rv_op_reg(
                    reg_pos as int,
                ) + ", 2\n"@
            } else {
                Seq::<char>::empty()
            }) + "  add s2, s2, "@ + spec_rv_op_reg(reg_pos as int) + "\n"@,
            "0(s2)"@,
        ),
        _ => (Seq::<char>::empty(), Seq::<char>::empty()),
    };
    parts.0 + spec_rv_ls_mn(i.instr_type) + reg + ", "@ + parts.1 + "\n"@
}

/// Builds a load or store.
#[verifier::rlimit(100)]
#[verifier::spinoff_prover]
pub fn riscv64_build_ld_str(code: &LtacInstr, stack_top: i64) -> (r: String)
    requires
        -0x7FFF_FFFF_FFFFi64 < stack_top < 0x7FFF_FFFF_FFFFi64,
    ensures
        r@ == spec_rv_ld_str(*code, stack_top as int),
{
    let is_load = matches!(code.instr_type, LtacType::Ld | LtacType::LdQ);
    let is_quad = matches!(code.instr_type, LtacType::LdQ | LtacType::StrQ);
    let mut full_line = String::new();
    let mut mem = String::new();
    match &code.arg1 {
        LtacArg::Mem(val) => {
            let pos: i64 = stack_top - (*val as i64) + (if is_quad {
                8
            } else {
                0
            });
            mem.append("-");
            mem.append(i64_text(pos).as_str());
            mem.append("(s0)");
        },
        LtacArg::MemOffsetImm(pos, offset) => {
            let array_pos: i64 = stack_top - (*pos as i64) + 8;
            full_line.append("  ld s2, -");
            full_line.append(i64_text(array_pos).as_str());
            full_line.append("(s0)\n");
            if is_load {
                mem.append(i32_text(*offset).as_str());
                mem.append("(s2)");
            } else {
                full_line.append("  addi s2, s2, ");
                full_line.append(i32_text(*offset).as_str());
                full_line.append("\n");
                mem.append("0(s2)");
            }
        },
        LtacArg::MemOffsetMem(pos, offset, size) => {
            let array_pos: i64 = stack_top - (*pos as i64) + 8;
            full_line.append("  ld s2, -");
            full_line.append(i64_text(array_pos).as_str());
            full_line.append("(s0)\n");
            let offset_pos: i64 = stack_top - (*offset as i64);
            full_line.append("  lw s3, -");
            full_line.append(i64_text(offset_pos).as_str());
            full_line.append("(s0)\n");
            if *size == 4 {
                full_line.append("  slli s3, s3, 2\n");
            }
            full_line.append("  add s2, s2, s3\n");
            mem.append("0(s2)");
        },
        LtacArg::MemOffsetReg(pos, reg_pos, size) => {
            let array_pos: i64 = stack_top - (*pos as i64) + 8;
            full_line.append("  ld s2, -");
            full_line.append(i64_text(array_pos).as_str());
            full_line.append("(s0)\n");
            if *size == 4 {
                full_line.append("  slli ");
                full_line.append(riscv64_op_reg(*reg_pos));
                full_line.append(", ");
                full_line.append(riscv64_op_reg(*reg_pos));
                full_line.append(", 2\n");
            }
            full_line.append("  add s2, s2, ");
            full_line.append(riscv64_op_reg(*reg_pos));
            full_line.append("\n");
            mem.append("0(s2)");
        },
        _ => {},
    }
    let mn: &'static str = match code.instr_type {
        LtacType::Ld => "  lw ",
        LtacType::LdQ => "  ld ",
        LtacType::Str => "  sw ",
        LtacType::StrQ => "  sd ",
        _ => "",
    };
    proof {
        reveal_strlit("");
        assert(mn@ =~= spec_rv_ls_mn(code.instr_type));
    }
    full_line.append(mn);
    match &code.arg2 {
        LtacArg::Reg32(n) => {
            full_line.append(riscv64_op_reg(*n));
        },
        LtacArg::Reg64(n) => {
            full_line.append(riscv64_op_reg(*n));
        },
        _ => {},
    }
    full_line.append(", ");
    full_line.append(mem.as_str());
    full_line.append("\n");
    proof {
        assert(full_line@ =~= spec_rv_ld_str(*code, stack_top as int));
    }
    full_line
}

/// The frame size in force before instruction `k`: set by the last
/// function header, its declared size plus the save area.
pub open spec fn rv_stack(code: Seq<LtacInstr>, k: int) -> int
    decreases k,
{
    if k <= 0 || k > code.len() {
        0
    } else if code[k - 1].instr_type == LtacType::Func {
        code[k - 1].arg1_val + 16
    } else {
        rv_stack(code, k - 1)
    }
}

/// The index of the pending comparison before instruction `k`.
pub open spec fn rv_cmp_idx(code: Seq<LtacInstr>, k: int) -> Option<int>
    decreases k,
{
    if k <= 0 || k > code.len() {
        Option::None
    } else if code[k - 1].instr_type == LtacType::I32Cmp {
        Option::Some(k - 1)
    } else {
        rv_cmp_idx(code, k - 1)
    }
}

/// The text instruction `k` contributes, given the state before it.
pub open spec fn spec_rv_instr_at(code: Seq<LtacInstr>, k: int) -> Seq<char> {
    let i = code[k];
    let st = rv_stack(code, k);
    match i.instr_type {
        LtacType::Extern => spec_rv_extern(i.name@),
        LtacType::Label => spec_rv_label(i.name@),
        LtacType::Func => spec_rv_func(i.name@, i.arg1_val + 16),
        LtacType::Ret => spec_rv_ret(st),
        LtacType::LdArgI32 => spec_rv_ldarg(i, st),
        LtacType::LdArgU32 => spec_rv_ldarg(i, st),
        LtacType::LdArgPtr => spec_rv_ldarg(i, st),
        LtacType::Mov => spec_rv_mov(i),
        LtacType::MovQ => spec_rv_mov(i),
        LtacType::PushArg => spec_rv_pusharg(i, st),
        LtacType::KPushArg => spec_rv_pusharg(i, st),
        LtacType::Call => "  call "@ + i.name@ + "\n\n"@,
        LtacType::Syscall => "  ecall\n"@,
        LtacType::Br => spec_rv_jump(i.name@),
        LtacType::Be => match rv_cmp_idx(code, k) {
            Option::Some(ci) => spec_rv_cond_jump(code[ci], i, st),
            Option::None => Seq::<char>::empty(),
        },
        LtacType::Bne => match rv_cmp_idx(code, k) {
            Option::Some(ci) => spec_rv_cond_jump(code[ci], i, st),
            Option::None => Seq::<char>::empty(),
        },
        LtacType::Bl => match rv_cmp_idx(code, k) {
            Option::Some(ci) => spec_rv_cond_jump(code[ci], i, st),
            Option::None => Seq::<char>::empty(),
        },
        LtacType::Ble => match rv_cmp_idx(code, k) {
            Option::Some(ci) => spec_rv_cond_jump(code[ci], i, st),
            Option::None => Seq::<char>::empty(),
        },
        LtacType::Bg => match rv_cmp_idx(code, k) {
            Option::Some(ci) => spec_rv_cond_jump(code[ci], i, st),
            Option::None => Seq::<char>::empty(),
        },
        LtacType::Bge => match rv_cmp_idx(code, k) {
            Option::Some(ci) => spec_rv_cond_jump(code[ci], i, st),
            Option::None => Seq::<char>::empty(),
        },
        LtacType::Ld => spec_rv_ld_str(i, st),
        LtacType::LdQ => spec_rv_ld_str(i, st),
        LtacType::Str => spec_rv_ld_str(i, st),
        LtacType::StrQ => spec_rv_ld_str(i, st),
        LtacType::I32Add => spec_rv_instr(i),
        LtacType::I32Sub => spec_rv_instr(i),
        LtacType::I32Mul => spec_rv_instr(i),
        LtacType::I32Div => spec_rv_instr(i),
        LtacType::I32Mod => spec_rv_instr(i),
        LtacType::I32And => spec_rv_instr(i),
        LtacType::I32Or => spec_rv_instr(i),
        LtacType::I32Xor => spec_rv_instr(i),
        LtacType::I32Lsh => spec_rv_instr(i),
        LtacType::I32Rsh => spec_rv_instr(i),
        _ => Seq::<char>::empty(),
    }
}

/// The text of the code section after the first `k` instructions.
pub open spec fn spec_rv_code(code: Seq<LtacInstr>, k: int) -> Seq<char>
    decreases k,
{
    if k <= 0 || k > code.len() {
        ".text\n"@
    } else {
        spec_rv_code(code, k - 1) + spec_rv_instr_at(code, k - 1)
    }
}

/// Builds the code section, tracking the frame size and the pending
/// comparison as it walks the stream.
pub fn write_code(code: &Vec<LtacInstr>) -> (r: String)
    ensures
        r@ == spec_rv_code(code@, code@.len() as int),
{
    let mut text = String::from_str(".text\n");
    let mut stack_size: i64 = 0;
    let mut last_cmp: Option<usize> = None;
    let n = code.len();
    let mut k: usize = 0;
    while k < n
        invariant
            n == code@.len(),
            k <= n,
            text@ == spec_rv_code(code@, k as int),
            stack_size as int == rv_stack(code@, k as int),
            -0x7FFF_FFFF_FFFFi64 < stack_size < 0x7FFF_FFFF_FFFFi64,
            match last_cmp {
                Some(ci) => rv_cmp_idx(code@, k as int) == Option::Some(ci as int) && ci < n,
                None => rv_cmp_idx(code@, k as int) is None,
            },
        decreases n - k,
    {
        let i = &code[k];
        let piece: String = match i.instr_type {
            LtacType::Extern => riscv64_build_extern(i),
            LtacType::Label => riscv64_build_label(i),
            LtacType::Func => riscv64_build_func(i),
            LtacType::Ret => riscv64_build_ret(stack_size),
            LtacType::LdArgI32 => riscv64_build_ldarg(i, stack_size),
            LtacType::LdArgU32 => riscv64_build_ldarg(i, stack_size),
            LtacType::LdArgPtr => riscv64_build_ldarg(i, stack_size),
            LtacType::Mov => riscv64_build_mov(i),
            LtacType::MovQ => riscv64_build_mov(i),
            LtacType::PushArg => riscv64_build_pusharg(i, stack_size),
            LtacType::KPushArg => riscv64_build_pusharg(i, stack_size),
            LtacType::Call => {
                let mut s = String::from_str("  call ");
                s.append(i.name.as_str());
                s.append("\n\n");
                s
            },
            LtacType::Syscall => String::from_str("  ecall\n"),
            LtacType::Br => riscv64_build_jump(i),
            LtacType::Be | LtacType::Bne | LtacType::Bl | LtacType::Ble | LtacType::Bg
                | LtacType::Bge => {
                match last_cmp {
                    Some(ci) => riscv64_build_cond_jump(&code[ci], i, stack_size),
                    None => String::new(),
                }
            },
            LtacType::Ld | LtacType::LdQ | LtacType::Str | LtacType::StrQ => riscv64_build_ld_str(
                i,
                stack_size,
            ),
            LtacType::I32Add | LtacType::I32Sub | LtacType::I32Mul | LtacType::I32Div
                | LtacType::I32Mod | LtacType::I32And | LtacType::I32Or | LtacType::I32Xor
                | LtacType::I32Lsh | LtacType::I32Rsh => riscv64_build_instr(i),
            _ => String::new(),
        };
        text.append(piece.as_str());
        if matches!(i.instr_type, LtacType::Func) {
            stack_size = (i.arg1_val as i64) + 16;
        }
        if matches!(i.instr_type, LtacType::I32Cmp) {
            last_cmp = Some(k);
        }
        proof {
            assert(piece@ =~= spec_rv_instr_at(code@, k as int));
            assert(text@ =~= spec_rv_code(code@, k + 1));
        }
        k = k + 1;
    }
    text
}

/// Builds the whole assembly text for a translation unit.
pub fn riscv64_build_asm_text(file: &LtacFile) -> (r: String)
    ensures
        r@ == spec_rv_data(file.data@, file.data@.len() as int) + "\n"@ + spec_rv_code(
            file.code@,
            file.code@.len() as int,
        ),
{
    let mut text = write_data(&file.data);
    let c = write_code(&file.code);
    text.append(c.as_str());
    text
}

} // verus!
