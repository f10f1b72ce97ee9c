//! The AArch64 back end: LTAC to assembly text.
//!
//! Only the minimum instruction set is implemented: extern
//! declarations, function headers and returns, labels, integer and
//! local-pointer argument pushes, and calls.  Everything else is
//! deliberately a no-op at this stage.  The prologue stores the frame
//! pointer and link register with a pre-decrement of the whole frame.

use vstd::prelude::*;
use vstd::string::StringExecFns;

use crate::ltac::{LtacArg, LtacFile, LtacInstr, LtacType};
use crate::numtext::{dec_int, i32_text, i64_text};

verus! {

/// The 32-bit argument register for a 1-based position.
pub open spec fn spec_a64_arg_reg32(n: int) -> Seq<char> {
    if n == 1 {
        "w0"@
    } else if n == 2 {
        "w1"@
    } else if n == 3 {
        "w2"@
    } else if n == 4 {
        "w3"@
    } else if n == 5 {
        "w4"@
    } else if n == 6 {
        "w5"@
    } else if n == 7 {
        "w6"@
    } else {
        "w7"@
    }
}

/// Returns the 32-bit argument register for a position.
pub fn aarch64_arg_reg32(n: i32) -> (r: &'static str)
    ensures
        r@ == spec_a64_arg_reg32(n as int),
{
    if n == 1 {
        "w0"
    } else if n == 2 {
        "w1"
    } else if n == 3 {
        "w2"
    } else if n == 4 {
        "w3"
    } else if n == 5 {
        "w4"
    } else if n == 6 {
        "w5"
    } else if n == 7 {
        "w6"
    } else {
        "w7"
    }
}

/// The 64-bit argument register for a 1-based position.
pub open spec fn spec_a64_arg_reg64(n: int) -> Seq<char> {
    if n == 1 {
        "x0"@
    } else if n == 2 {
        "x1"@
    } else if n == 3 {
        "x2"@
    } else if n == 4 {
        "x3"@
    } else if n == 5 {
        "x4"@
    } else if n == 6 {
        "x5"@
    } else if n == 7 {
        "x6"@
    } else {
        "x7"@
    }
}

/// Returns the 64-bit argument register for a position.
pub fn aarch64_arg_reg64(n: i32) -> (r: &'static str)
    ensures
        r@ == spec_a64_arg_reg64(n as int),
{
    if n == 1 {
        "x0"
    } else if n == 2 {
        "x1"
    } else if n == 3 {
        "x2"
    } else if n == 4 {
        "x3"
    } else if n == 5 {
        "x4"
    } else if n == 6 {
        "x5"
    } else if n == 7 {
        "x6"
    } else {
        "x7"
    }
}

/// The text of an extern declaration.
pub open spec fn spec_a64_extern(name: Seq<char>) -> Seq<char> {
    ".extern "@ + name + "\n"@
}

/// Builds an extern declaration.
pub fn aarch64_build_extern(code: &LtacInstr) -> (r: String)
    ensures
        r@ == spec_a64_extern(code.name@),
{
    let mut line = String::from_str(".extern ");
    line.append(code.name.as_str());
    line.append("\n");
    proof {
        assert(line@ =~= spec_a64_extern(code.name@));
    }
    line
}

/// The text of a label.
pub open spec fn spec_a64_label(name: Seq<char>) -> Seq<char> {
    name + ":\n"@
}

/// Builds a label.
pub fn aarch64_build_label(code: &LtacInstr) -> (r: String)
    ensures
        r@ == spec_a64_label(code.name@),
{
    let mut line = String::new();
    line.append(code.name.as_str());
    line.append(":\n");
    proof {
        assert(line@ =~= spec_a64_label(code.name@));
    }
    line
}

/// The text of a function header: the frame pointer and link register
/// stored with a pre-decrement of the whole frame.
pub open spec fn spec_a64_func(name: Seq<char>, frame: int) -> Seq<char> {
    ".global "@ + name + "\n"@ + name + ":\n"@ + "  stp x29, x30, [sp, -"@ + dec_int(frame)
        + "]!\n"@ + "  mov x29, sp\n\n"@
}

/// Builds a function header.
pub fn aarch64_build_func(code: &LtacInstr) -> (r: String)
    ensures
        r@ == spec_a64_func(code.name@, code.arg1_val as int),
{
    let mut line = String::from_str(".global ");
    line.append(code.name.as_str());
    line.append("\n");
    line.append(code.name.as_str());
    line.append(":\n");
    line.append("  stp x29, x30, [sp, -");
    line.append(i32_text(code.arg1_val).as_str());
    line.append("]!\n");
    line.append("  mov x29, sp\n\n");
    proof {
        assert(line@ =~= spec_a64_func(code.name@, code.arg1_val as int));
    }
    line
}

/// The text of a return: the frame is released with a post-increment.
pub open spec fn spec_a64_ret(stack_size: int) -> Seq<char> {
    "  ldp x29, x30, [sp], "@ + dec_int(stack_size) + "\n"@ + "  ret\n"@
}

/// Builds a return.
pub fn aarch64_build_ret(stack_size: i64) -> (r: String)
    ensures
        r@ == spec_a64_ret(stack_size as int),
{
    let mut line = String::from_str("  ldp x29, x30, [sp], ");
    line.append(i64_text(stack_size).as_str());
    line.append("\n");
    line.append("  ret\n");
    proof {
        assert(line@ =~= spec_a64_ret(stack_size as int));
    }
    line
}

/// The text of an argument push: an integer literal moves into the
/// argument register; a local pointer materialises through an `adrp`
/// pair.
pub open spec fn spec_a64_pusharg(i: LtacInstr) -> Seq<char> {
    let reg32 = spec_a64_arg_reg32(i.arg2_val as int);
    let reg64 = spec_a64_arg_reg64(i.arg2_val as int);
    match i.arg1 {
        LtacArg::I32(v) => "  mov "@ + reg32 + ", "@ + dec_int(v as int) + "\n"@,
        LtacArg::PtrLcl(s) => "  adrp "@ + reg64 + ", "@ + s@ + "\n"@ + "  add "@ + reg64
            + ", "@ + reg64 + ", :lo12:"@ + s@ + "\n"@,
        _ => Seq::<char>::empty(),
    }
}

/// Builds an argument push.
pub fn aarch64_build_pusharg(code: &LtacInstr) -> (r: String)
    ensures
        r@ == spec_a64_pusharg(*code),
{
    let mut line = String::new();
    match &code.arg1 {
        LtacArg::I32(v) => {
            line.append("  mov ");
            line.append(aarch64_arg_reg32(code.arg2_val));
            line.append(", ");
            line.append(i32_text(*v).as_str());
            line.append("\n");
        },
        LtacArg::PtrLcl(s) => {
            line.append("  adrp ");
            line.append(aarch64_arg_reg64(code.arg2_val));
            line.append(", ");
            line.append(s.as_str());
            line.append("\n");
            line.append("  add ");
            line.append(aarch64_arg_reg64(code.arg2_val));
            line.append(", ");
            line.append(aarch64_arg_reg64(code.arg2_val));
            line.append(", :lo12:");
            line.append(s.as_str());
            line.append("\n");
        },
        _ => {},
    }
    proof {
        assert(line@ =~= spec_a64_pusharg(*code));
    }
    line
}

/// The text of a call.
pub open spec fn spec_a64_call(name: Seq<char>) -> Seq<char> {
    "  bl "@ + name + "\n\n"@
}

/// Builds a call.
pub fn aarch64_build_call(code: &LtacInstr) -> (r: String)
    ensures
        r@ == spec_a64_call(code.name@),
{
    let mut line = String::from_str("  bl ");
    line.append(code.name.as_str());
    line.append("\n\n");
    proof {
        assert(line@ =~= spec_a64_call(code.name@));
    }
    line
}

/// The frame size in force before instruction `k`.
pub open spec fn a64_stack(code: Seq<LtacInstr>, k: int) -> int
    decreases k,
{
    if k <= 0 || k > code.len() {
        0
    } else if code[k - 1].instr_type == LtacType::Func {
        code[k - 1].arg1_val as int
    } else {
        a64_stack(code, k - 1)
    }
}

/// The text instruction `k` contributes; unimplemented operations
/// contribute nothing.
pub open spec fn spec_a64_instr_at(code: Seq<LtacInstr>, k: int) -> Seq<char> {
    let i = code[k];
    match i.instr_type {
        LtacType::Extern => spec_a64_extern(i.name@),
        LtacType::Label => spec_a64_label(i.name@),
        LtacType::Func => spec_a64_func(i.name@, i.arg1_val as int),
        LtacType::Ret => spec_a64_ret(a64_stack(code, k)),
        LtacType::PushArg => spec_a64_pusharg(i),
        LtacType::Call => spec_a64_call(i.name@),
        _ => Seq::<char>::empty(),
    }
}

/// The text of the code section after the first `k` instructions.
pub open spec fn spec_a64_code(code: Seq<LtacInstr>, k: int) -> Seq<char>
    decreases k,
{
    if k <= 0 || k > code.len() {
        ".text\n"@
    } else {
        spec_a64_code(code, k - 1) + spec_a64_instr_at(code, k - 1)
    }
}

/// Builds the code section, tracking the frame size.
pub fn aarch64_build_code(code: &Vec<LtacInstr>) -> (r: String)
    ensures
        r@ == spec_a64_code(code@, code@.len() as int),
{
    let mut text = String::from_str(".text\n");
    let mut stack_size: i64 = 0;
    let n = code.len();
    let mut k: usize = 0;
    while k < n
        invariant
            n == code@.len(),
            k <= n,
            text@ == spec_a64_code(code@, k as int),
            stack_size as int == a64_stack(code@, k as int),
        decreases n - k,
    {
        let i = &code[k];
        let piece: String = match i.instr_type {
            LtacType::Extern => aarch64_build_extern(i),
            LtacType::Label => aarch64_build_label(i),
            LtacType::Func => aarch64_build_func(i),
            LtacType::Ret => aarch64_build_ret(stack_size),
            LtacType::PushArg => aarch64_build_pusharg(i),
            LtacType::Call => aarch64_build_call(i),
            _ => String::new(),
        };
        text.append(piece.as_str());
        if matches!(i.instr_type, LtacType::Func) {
            stack_size = i.arg1_val as i64;
        }
        proof {
            assert(piece@ =~= spec_a64_instr_at(code@, k as int));
            assert(text@ =~= spec_a64_code(code@, k + 1));
        }
        k = k + 1;
    }
    text
}

/// Builds the whole assembly text for a translation unit: data as in
/// the other back ends, then the code section.
pub fn aarch64_build_asm_text(file: &LtacFile) -> (r: String)
    ensures
        r@ == crate::riscv64::spec_rv_data(file.data@, file.data@.len() as int) + "\n"@
            + spec_a64_code(file.code@, file.code@.len() as int),
{
    let mut text = crate::riscv64::write_data(&file.data);
    let c = aarch64_build_code(&file.code);
    text.append(c.as_str());
    text
}

} // verus!
