//! The x86_64 back end: LTAC to Intel-syntax assembly text.
//!
//! The generator is stateless: each instruction maps to a fixed piece
//! of text.  Virtual register 0 is the accumulator `eax`, register 1
//! the scratch `ebx`.  Arguments travel in the System V registers, or
//! in the kernel registers for a raw system call.  Operations the
//! target does not need emit nothing.

use vstd::prelude::*;
use vstd::string::StringExecFns;

use crate::ltac::{LtacArg, LtacData, LtacDataType, LtacFile, LtacInstr, LtacType};
use crate::numtext::{dec_int, i32_text};

verus! {

/// The 32-bit name of a virtual register.
pub open spec fn spec_op_reg32(n: int) -> Seq<char> {
    if n == 0 {
        "eax"@
    } else if n == 1 {
        "ebx"@
    } else if n == 2 {
        "ecx"@
    } else {
        "edx"@
    }
}

/// Returns the 32-bit name of a virtual register.
pub fn amd64_op_reg32(n: i32) -> (r: &'static str)
    ensures
        r@ == spec_op_reg32(n as int),
{
    if n == 0 {
        "eax"
    } else if n == 1 {
        "ebx"
    } else if n == 2 {
        "ecx"
    } else {
        "edx"
    }
}

/// The 32-bit System V argument register for a 1-based position.
pub open spec fn spec_arg_reg32(n: int) -> Seq<char> {
    if n == 1 {
        "edi"@
    } else if n == 2 {
        "esi"@
    } else if n == 3 {
        "edx"@
    } else if n == 4 {
        "ecx"@
    } else if n == 5 {
        "r8d"@
    } else {
        "r9d"@
    }
}

/// Returns the 32-bit System V argument register for a position.
pub fn amd64_arg_reg32(n: i32) -> (r: &'static str)
    ensures
        r@ == spec_arg_reg32(n as int),
{
    if n == 1 {
        "edi"
    } else if n == 2 {
        "esi"
    } else if n == 3 {
        "edx"
    } else if n == 4 {
        "ecx"
    } else if n == 5 {
        "r8d"
    } else {
        "r9d"
    }
}

/// The 64-bit System V argument register for a 1-based position.
pub open spec fn spec_arg_reg64(n: int) -> Seq<char> {
    if n == 1 {
        "rdi"@
    } else if n == 2 {
        "rsi"@
    } else if n == 3 {
        "rdx"@
    } else if n == 4 {
        "rcx"@
    } else if n == 5 {
        "r8"@
    } else {
        "r9"@
    }
}

/// Returns the 64-bit System V argument register for a position.
pub fn amd64_arg_reg64(n: i32) -> (r: &'static str)
    ensures
        r@ == spec_arg_reg64(n as int),
{
    if n == 1 {
        "rdi"
    } else if n == 2 {
        "rsi"
    } else if n == 3 {
        "rdx"
    } else if n == 4 {
        "rcx"
    } else if n == 5 {
        "r8"
    } else {
        "r9"
    }
}

/// The 64-bit kernel argument register for a 1-based position: the
/// system-call convention replaces `rcx` with `r10`.
pub open spec fn spec_karg_reg64(n: int) -> Seq<char> {
    if n == 1 {
        "rdi"@
    } else if n == 2 {
        "rsi"@
    } else if n == 3 {
        "rdx"@
    } else if n == 4 {
        "r10"@
    } else if n == 5 {
        "r8"@
    } else {
        "r9"@
    }
}

/// Returns the 64-bit kernel argument register for a position.
pub fn amd64_karg_reg64(n: i32) -> (r: &'static str)
    ensures
        r@ == spec_karg_reg64(n as int),
{
    if n == 1 {
        "rdi"
    } else if n == 2 {
        "rsi"
    } else if n == 3 {
        "rdx"
    } else if n == 4 {
        "r10"
    } else if n == 5 {
        "r8"
    } else {
        "r9"
    }
}

/// The text of a frame-relative memory operand.
pub open spec fn spec_mem(pos: int) -> Seq<char> {
    "[rbp-"@ + dec_int(pos) + "]"@
}

/// Returns the text of a frame-relative memory operand.
pub fn amd64_mem(pos: i32) -> (r: String)
    ensures
        r@ == spec_mem(pos as int),
{
    let mut s = String::from_str("[rbp-");
    s.append(i32_text(pos).as_str());
    s.append("]");
    proof {
        assert(s@ =~= spec_mem(pos as int));
    }
    s
}

/// The text of an extern declaration.
pub open spec fn spec_extern(name: Seq<char>) -> Seq<char> {
    ".extern "@ + name + "\n"@
}

/// Builds an extern declaration.
pub fn amd64_build_extern(code: &LtacInstr) -> (r: String)
    ensures
        r@ == spec_extern(code.name@),
{
    let mut line = String::from_str(".extern ");
    line.append(code.name.as_str());
    line.append("\n");
    proof {
        assert(line@ =~= spec_extern(code.name@));
    }
    line
}

/// The text of a label.
pub open spec fn spec_label(name: Seq<char>) -> Seq<char> {
    name + ":\n"@
}

/// Builds a label.
pub fn amd64_build_label(code: &LtacInstr) -> (r: String)
    ensures
        r@ == spec_label(code.name@),
{
    let mut line = String::new();
    line.append(code.name.as_str());
    line.append(":\n");
    proof {
        assert(line@ =~= spec_label(code.name@));
    }
    line
}

/// The text of a function header: global symbol, label, prologue, and
/// the stack adjustment when the frame is non-empty.
pub open spec fn spec_func(name: Seq<char>, frame: int) -> Seq<char> {
    "\n.global "@ + name + "\n"@ + name + ":\n"@ + "  push rbp\n  mov rbp, rsp\n"@ + (if frame
        > 0 {
        "  sub rsp, "@ + dec_int(frame) + "\n"@
    } else {
        Seq::<char>::empty()
    }) + "\n"@
}

/// Builds a function header with its prologue.
pub fn amd64_build_func(code: &LtacInstr) -> (r: String)
    ensures
        r@ == spec_func(code.name@, code.arg1_val as int),
{
    let mut line = String::from_str("\n.global ");
    line.append(code.name.as_str());
    line.append("\n");
    line.append(code.name.as_str());
    line.append(":\n");
    line.append("  push rbp\n  mov rbp, rsp\n");
    if code.arg1_val > 0 {
        line.append("  sub rsp, ");
        line.append(i32_text(code.arg1_val).as_str());
        line.append("\n");
    }
    line.append("\n");
    proof {
        assert(line@ =~= spec_func(code.name@, code.arg1_val as int));
    }
    line
}

/// The text of an argument load: the slot written, then the incoming
/// register of the matching width.
pub open spec fn spec_ldarg(i: LtacInstr) -> Seq<char> {
    if i.instr_type == LtacType::LdArgI32 {
        "  mov "@ + spec_mem(i.arg1_val as int) + ", "@ + spec_arg_reg32(i.arg2_val as int)
            + "\n"@
    } else if i.instr_type == LtacType::LdArgPtr {
        "  mov "@ + spec_mem(i.arg1_val as int) + ", "@ + spec_arg_reg64(i.arg2_val as int)
            + "\n"@
    } else {
        Seq::<char>::empty()
    }
}

/// Builds an argument load.
pub fn amd64_build_ldarg(code: &LtacInstr) -> (r: String)
    ensures
        r@ == spec_ldarg(*code),
{
    let mut line = String::new();
    if matches!(code.instr_type, LtacType::LdArgI32) {
        line.append("  mov ");
        line.append(amd64_mem(code.arg1_val).as_str());
        line.append(", ");
        line.append(amd64_arg_reg32(code.arg2_val));
        line.append("\n");
    } else if matches!(code.instr_type, LtacType::LdArgPtr) {
        line.append("  mov ");
        line.append(amd64_mem(code.arg1_val).as_str());
        line.append(", ");
        line.append(amd64_arg_reg64(code.arg2_val));
        line.append("\n");
    }
    proof {
        assert(line@ =~= spec_ldarg(*code));
    }
    line
}

/// The text of the epilogue.
pub open spec fn spec_ret() -> Seq<char> {
    "\n  leave\n  ret\n\n"@
}

/// Builds the epilogue.
pub fn amd64_build_ret() -> (r: String)
    ensures
        r@ == spec_ret(),
{
    String::from_str("\n  leave\n  ret\n\n")
}

/// The source-operand text of a move or comparison.
pub open spec fn spec_rhs(a: LtacArg) -> Seq<char> {
    match a {
        LtacArg::Reg32(n) => spec_op_reg32(n as int),
        LtacArg::RetRegI32 => "eax"@,
        LtacArg::I32(v) => dec_int(v as int),
        LtacArg::Mem(p) => spec_mem(p as int),
        _ => Seq::<char>::empty(),
    }
}

/// Builds the source-operand text of a move or comparison.
fn amd64_rhs(a: &LtacArg) -> (r: String)
    ensures
        r@ == spec_rhs(*a),
{
    let mut s = String::new();
    match a {
        LtacArg::Reg32(n) => {
            s.append(amd64_op_reg32(*n));
        },
        LtacArg::RetRegI32 => {
            s.append("eax");
        },
        LtacArg::I32(v) => {
            s.append(i32_text(*v).as_str());
        },
        LtacArg::Mem(p) => {
            s.append(amd64_mem(*p).as_str());
        },
        _ => {},
    }
    proof {
        assert(s@ =~= spec_rhs(*a));
    }
    s
}

/// The text of a move.
///
/// A literal stored to memory carries the `dword ptr` size hint; a
/// memory-to-memory move travels through the accumulator.
pub open spec fn spec_mov(i: LtacInstr) -> Seq<char> {
    match i.arg1 {
        LtacArg::Mem(p) => match i.arg2 {
            LtacArg::I32(v) => "  mov dword ptr "@ + spec_mem(p as int) + ", "@ + dec_int(
                v as int,
            ) + "\n"@,
            LtacArg::Mem(q) => "  mov eax, "@ + spec_mem(q as int) + "\n"@ + "  mov "@
                + spec_mem(p as int) + ", eax\n"@,
            LtacArg::Reg32(n) => "  mov "@ + spec_mem(p as int) + ", "@ + spec_op_reg32(
                n as int,
            ) + "\n"@,
            LtacArg::RetRegI32 => "  mov "@ + spec_mem(p as int) + ", eax\n"@,
            _ => Seq::<char>::empty(),
        },
        LtacArg::Reg32(n) => "  mov "@ + spec_op_reg32(n as int) + ", "@ + spec_rhs(i.arg2)
            + "\n"@,
        LtacArg::RetRegI32 => "  mov eax, "@ + spec_rhs(i.arg2) + "\n"@,
        _ => Seq::<char>::empty(),
    }
}

/// Builds a move.
pub fn amd64_build_mov(code: &LtacInstr) -> (r: String)
    ensures
        r@ == spec_mov(*code),
{
    let mut line = String::new();
    match &code.arg1 {
        LtacArg::Mem(p) => {
            match &code.arg2 {
                LtacArg::I32(v) => {
                    line.append("  mov dword ptr ");
                    line.append(amd64_mem(*p).as_str());
                    line.append(", ");
                    line.append(i32_text(*v).as_str());
                    line.append("\n");
                },
                LtacArg::Mem(q) => {
                    line.append("  mov eax, ");
                    line.append(amd64_mem(*q).as_str());
                    line.append("\n");
                    line.append("  mov ");
                    line.append(amd64_mem(*p).as_str());
                    line.append(", eax\n");
                },
                LtacArg::Reg32(n) => {
                    line.append("  mov ");
                    line.append(amd64_mem(*p).as_str());
                    line.append(", ");
                    line.append(amd64_op_reg32(*n));
                    line.append("\n");
                },
                LtacArg::RetRegI32 => {
                    line.append("  mov ");
                    line.append(amd64_mem(*p).as_str());
                    line.append(", eax\n");
                },
                _ => {},
            }
        },
        LtacArg::Reg32(n) => {
            line.append("  mov ");
            line.append(amd64_op_reg32(*n));
            line.append(", ");
            line.append(amd64_rhs(&code.arg2).as_str());
            line.append("\n");
        },
        LtacArg::RetRegI32 => {
            line.append("  mov eax, ");
            line.append(amd64_rhs(&code.arg2).as_str());
            line.append("\n");
        },
        _ => {},
    }
    proof {
        assert(line@ =~= spec_mov(*code));
    }
    line
}

/// The mnemonic of an accumulator operation.
pub open spec fn spec_math_op(t: LtacType) -> Seq<char> {
    match t {
        LtacType::I32Add => "add"@,
        LtacType::I32Sub => "sub"@,
        LtacType::I32Mul => "imul"@,
        LtacType::I32And => "and"@,
        LtacType::I32Or => "or"@,
        LtacType::I32Xor => "xor"@,
        LtacType::I32Lsh => "shl"@,
        LtacType::I32Rsh => "shr"@,
        _ => Seq::<char>::empty(),
    }
}

/// The text of an integer operation on the accumulator.
///
/// Division and remainder load the divisor into the scratch register
/// and use the sign-extended divide; the remainder then moves out of
/// `edx`.
pub open spec fn spec_math(i: LtacInstr) -> Seq<char> {
    if i.instr_type == LtacType::I32Div || i.instr_type == LtacType::I32Mod {
        "  mov ebx, "@ + spec_rhs(i.arg2) + "\n  cdq\n  idiv ebx\n"@ + (if i.instr_type
            == LtacType::I32Mod {
            "  mov eax, edx\n"@
        } else {
            Seq::<char>::empty()
        })
    } else {
        "  "@ + spec_math_op(i.instr_type) + " "@ + spec_rhs(i.arg1) + ", "@ + spec_rhs(i.arg2)
            + "\n"@
    }
}

/// Builds an integer operation.
pub fn amd64_build_math(code: &LtacInstr) -> (r: String)
    ensures
        r@ == spec_math(*code),
{
    let mut line = String::new();
    if matches!(code.instr_type, LtacType::I32Div | LtacType::I32Mod) {
        line.append("  mov ebx, ");
        line.append(amd64_rhs(&code.arg2).as_str());
        line.append("\n  cdq\n  idiv ebx\n");
        if matches!(code.instr_type, LtacType::I32Mod) {
            line.append("  mov eax, edx\n");
        }
    } else {
        line.append("  ");
        let mn = match code.instr_type {
            LtacType::I32Add => "add",
            LtacType::I32Sub => "sub",
            LtacType::I32Mul => "imul",
            LtacType::I32And => "and",
            LtacType::I32Or => "or",
            LtacType::I32Xor => "xor",
            LtacType::I32Lsh => "shl",
            LtacType::I32Rsh => "shr",
            _ => "",
        };
        proof {
            reveal_strlit("");
            assert(mn@ =~= spec_math_op(code.instr_type));
        }
        line.append(mn);
        line.append(" ");
        line.append(amd64_rhs(&code.arg1).as_str());
        line.append(", ");
        line.append(amd64_rhs(&code.arg2).as_str());
        line.append("\n");
    }
    proof {
        assert(line@ =~= spec_math(*code));
    }
    line
}

/// The text of a comparison.
pub open spec fn spec_cmp(i: LtacInstr) -> Seq<char> {
    "  cmp "@ + spec_rhs(i.arg1) + ", "@ + spec_rhs(i.arg2) + "\n"@
}

/// Builds a comparison.
pub fn amd64_build_cmp(code: &LtacInstr) -> (r: String)
    ensures
        r@ == spec_cmp(*code),
{
    let mut line = String::from_str("  cmp ");
    line.append(amd64_rhs(&code.arg1).as_str());
    line.append(", ");
    line.append(amd64_rhs(&code.arg2).as_str());
    line.append("\n");
    proof {
        assert(line@ =~= spec_cmp(*code));
    }
    line
}

/// The jump mnemonic for a branch operation.
pub open spec fn spec_jump_op(t: LtacType) -> Seq<char> {
    match t {
        LtacType::Br => "jmp"@,
        LtacType::Be => "je"@,
        LtacType::Bne => "jne"@,
        LtacType::Bl => "jl"@,
        LtacType::Ble => "jle"@,
        LtacType::Bg => "jg"@,
        LtacType::Bge => "jge"@,
        _ => Seq::<char>::empty(),
    }
}

/// The text of a branch.
pub open spec fn spec_jump(i: LtacInstr) -> Seq<char> {
    "  "@ + spec_jump_op(i.instr_type) + " "@ + i.name@ + "\n"@
}

/// Builds a branch.
pub fn amd64_build_jump(code: &LtacInstr) -> (r: String)
    ensures
        r@ == spec_jump(*code),
{
    let mut line = String::from_str("  ");
    let mn = match code.instr_type {
        LtacType::Br => "jmp",
        LtacType::Be => "je",
        LtacType::Bne => "jne",
        LtacType::Bl => "jl",
        LtacType::Ble => "jle",
        LtacType::Bg => "jg",
        LtacType::Bge => "jge",
        _ => "",
    };
    proof {
        reveal_strlit("");
        assert(mn@ =~= spec_jump_op(code.instr_type));
    }
    line.append(mn);
    line.append(" ");
    line.append(code.name.as_str());
    line.append("\n");
    proof {
        assert(line@ =~= spec_jump(*code));
    }
    line
}

/// The text of an argument push: a move into the argument register of
/// the slot, from a literal, a slot, or a local pointer.
pub open spec fn spec_pusharg(i: LtacInstr, karg: bool) -> Seq<char> {
    let reg32 = if karg {
        spec_karg_reg64(i.arg2_val as int)
    } else {
        spec_arg_reg32(i.arg2_val as int)
    };
    let reg64 = if karg {
        spec_karg_reg64(i.arg2_val as int)
    } else {
        spec_arg_reg64(i.arg2_val as int)
    };
    match i.arg1 {
        LtacArg::I32(v) => "  mov "@ + reg32 + ", "@ + dec_int(v as int) + "\n"@,
        LtacArg::Mem(p) => "  mov "@ + reg32 + ", "@ + spec_mem(p as int) + "\n"@,
        LtacArg::PtrLcl(s) => "  mov "@ + reg64 + ", offset "@ + s@ + "\n"@,
        _ => Seq::<char>::empty(),
    }
}

/// Builds an argument push.
pub fn amd64_build_pusharg(code: &LtacInstr, karg: bool) -> (r: String)
    ensures
        r@ == spec_pusharg(*code, karg),
{
    let mut line = String::new();
    match &code.arg1 {
        LtacArg::I32(v) => {
            line.append("  mov ");
            if karg {
                line.append(amd64_karg_reg64(code.arg2_val));
            } else {
                line.append(amd64_arg_reg32(code.arg2_val));
            }
            line.append(", ");
            line.append(i32_text(*v).as_str());
            line.append("\n");
        },
        LtacArg::Mem(p) => {
            line.append("  mov ");
            if karg {
                line.append(amd64_karg_reg64(code.arg2_val));
            } else {
                line.append(amd64_arg_reg32(code.arg2_val));
            }
            line.append(", ");
            line.append(amd64_mem(*p).as_str());
            line.append("\n");
        },
        LtacArg::PtrLcl(s) => {
            line.append("  mov ");
            if karg {
                line.append(amd64_karg_reg64(code.arg2_val));
            } else {
                line.append(amd64_arg_reg64(code.arg2_val));
            }
            line.append(", offset ");
            line.append(s.as_str());
            line.append("\n");
        },
        _ => {},
    }
    proof {
        assert(line@ =~= spec_pusharg(*code, karg));
    }
    line
}

/// The text of one data entry: strings verbatim, float constants as
/// the decimal of their bit pattern.
pub open spec fn spec_data_entry(d: LtacData) -> Seq<char> {
    match d.data_type {
        LtacDataType::StringL => d.name@ + ": .string \""@ + d.val@ + "\"\n"@,
        LtacDataType::FloatL => d.name@ + ": .long "@ + d.val@ + "\n"@,
        LtacDataType::DoubleL => d.name@ + ": .quad "@ + d.val@ + "\n"@,
    }
}

/// The text of the data section.
pub open spec fn spec_data(data: Seq<LtacData>, k: int) -> Seq<char>
    decreases k,
{
    if k <= 0 || k > data.len() {
        ".data\n"@
    } else {
        spec_data(data, k - 1) + spec_data_entry(data[k - 1])
    }
}

/// Builds the data section.
pub fn amd64_build_data(data: &Vec<LtacData>) -> (r: String)
    ensures
        r@ == spec_data(data@, data@.len() as int) + "\n"@,
{
    let mut line = String::from_str(".data\n");
    let n = data.len();
    let mut k: usize = 0;
    while k < n
        invariant
            n == data@.len(),
            k <= n,
            line@ == spec_data(data@, k as int),
        decreases n - k,
    {
        let d = &data[k];
        match d.data_type {
            LtacDataType::StringL => {
                line.append(d.name.as_str());
                line.append(": .string \"");
                line.append(d.val.as_str());
                line.append("\"\n");
            },
            LtacDataType::FloatL => {
                line.append(d.name.as_str());
                line.append(": .long ");
                line.append(d.val.as_str());
                line.append("\n");
            },
            LtacDataType::DoubleL => {
                line.append(d.name.as_str());
                line.append(": .quad ");
                line.append(d.val.as_str());
                line.append("\n");
            },
        }
        proof {
            assert(line@ =~= spec_data(data@, k + 1));
        }
        k = k + 1;
    }
    line.append("\n");
    line
}

/// The text one instruction contributes to the code section.
pub open spec fn spec_instr(i: LtacInstr) -> Seq<char> {
    match i.instr_type {
        LtacType::Extern => spec_extern(i.name@),
        LtacType::Label => spec_label(i.name@),
        LtacType::Func => spec_func(i.name@, i.arg1_val as int),
        LtacType::Ret => spec_ret(),
        LtacType::LdArgI32 => spec_ldarg(i),
        LtacType::LdArgPtr => spec_ldarg(i),
        LtacType::Mov => spec_mov(i),
        LtacType::I32Add => spec_math(i),
        LtacType::I32Sub => spec_math(i),
        LtacType::I32Mul => spec_math(i),
        LtacType::I32Div => spec_math(i),
        LtacType::I32Mod => spec_math(i),
        LtacType::I32And => spec_math(i),
        LtacType::I32Or => spec_math(i),
        LtacType::I32Xor => spec_math(i),
        LtacType::I32Lsh => spec_math(i),
        LtacType::I32Rsh => spec_math(i),
        LtacType::I32Cmp => spec_cmp(i),
        LtacType::Br => spec_jump(i),
        LtacType::Be => spec_jump(i),
        LtacType::Bne => spec_jump(i),
        LtacType::Bl => spec_jump(i),
        LtacType::Ble => spec_jump(i),
        LtacType::Bg => spec_jump(i),
        LtacType::Bge => spec_jump(i),
        LtacType::PushArg => spec_pusharg(i, false),
        LtacType::KPushArg => spec_pusharg(i, true),
        LtacType::Call => "  call "@ + i.name@ + "\n\n"@,
        LtacType::Syscall => "  syscall\n"@,
        _ => Seq::<char>::empty(),
    }
}

/// The text of the code section after the first `k` instructions.
pub open spec fn spec_code(code: Seq<LtacInstr>, k: int) -> Seq<char>
    decreases k,
{
    if k <= 0 || k > code.len() {
        ".text\n"@
    } else {
        spec_code(code, k - 1) + spec_instr(code[k - 1])
    }
}

/// Builds the code section.
pub fn amd64_build_code(code: &Vec<LtacInstr>) -> (r: String)
    ensures
        r@ == spec_code(code@, code@.len() as int),
{
    let mut text = String::from_str(".text\n");
    let n = code.len();
    let mut k: usize = 0;
    while k < n
        invariant
            n == code@.len(),
            k <= n,
            text@ == spec_code(code@, k as int),
        decreases n - k,
    {
        let i = &code[k];
        let piece: String = match i.instr_type {
            LtacType::Extern => amd64_build_extern(i),
            LtacType::Label => amd64_build_label(i),
            LtacType::Func => amd64_build_func(i),
            LtacType::Ret => amd64_build_ret(),
            LtacType::LdArgI32 => amd64_build_ldarg(i),
            LtacType::LdArgPtr => amd64_build_ldarg(i),
            LtacType::Mov => amd64_build_mov(i),
            LtacType::I32Add => amd64_build_math(i),
            LtacType::I32Sub => amd64_build_math(i),
            LtacType::I32Mul => amd64_build_math(i),
            LtacType::I32Div => amd64_build_math(i),
            LtacType::I32Mod => amd64_build_math(i),
            LtacType::I32And => amd64_build_math(i),
            LtacType::I32Or => amd64_build_math(i),
            LtacType::I32Xor => amd64_build_math(i),
            LtacType::I32Lsh => amd64_build_math(i),
            LtacType::I32Rsh => amd64_build_math(i),
            LtacType::I32Cmp => amd64_build_cmp(i),
            LtacType::Br => amd64_build_jump(i),
            LtacType::Be => amd64_build_jump(i),
            LtacType::Bne => amd64_build_jump(i),
            LtacType::Bl => amd64_build_jump(i),
            LtacType::Ble => amd64_build_jump(i),
            LtacType::Bg => amd64_build_jump(i),
            LtacType::Bge => amd64_build_jump(i),
            LtacType::PushArg => amd64_build_pusharg(i, false),
            LtacType::KPushArg => amd64_build_pusharg(i, true),
            LtacType::Call => {
                let mut s = String::from_str("  call ");
                s.append(i.name.as_str());
                s.append("\n\n");
                s
            },
            LtacType::Syscall => String::from_str("  syscall\n"),
            _ => String::new(),
        };
        text.append(piece.as_str());
        proof {
            assert(piece@ =~= spec_instr(code@[k as int]));
            assert(text@ =~= spec_code(code@, k + 1));
        }
        k = k + 1;
    }
    text
}

/// Builds the whole assembly text for a translation unit: the data
/// section, then the code section.
pub fn amd64_build_asm_text(file: &LtacFile) -> (r: String)
    ensures
        r@ == spec_data(file.data@, file.data@.len() as int) + "\n"@ + spec_code(
            file.code@,
            file.code@.len() as int,
        ),
{
    let mut text = amd64_build_data(&file.data);
    let code = amd64_build_code(&file.code);
    text.append(code.as_str());
    text
}

} // verus!
