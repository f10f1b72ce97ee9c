//! The LLIR intermediate representation.
//!
//! LLIR is a register-oriented IR aimed at a library-based code
//! generator: values live in numbered registers, locals are named
//! allocations, and loads and stores carry explicit signedness and
//! width in their operation.

use vstd::prelude::*;

verus! {

/// LLIR value types.
#[derive(Clone, Copy, PartialEq, Eq, Structural, Debug)]
pub enum LLirDataType {
    Void,
    Byte,
    UByte,
    Word,
    UWord,
    Int,
    UInt,
    Int64,
    UInt64,
    Float,
    Double,
    Str,
    Ptr,
}

/// LLIR operations.
#[derive(Clone, Copy, PartialEq, Eq, Structural, Debug)]
pub enum LLirType {
    Nop,
    Extern,
    Func,
    Call,
    Ret,
    Add,
    Sub,
    Mul,
    UMul,
    Div,
    UDiv,
    Rem,
    URem,
    And,
    Or,
    Xor,
    Lsh,
    Rsh,
    AllocArr,
    AllocB,
    AllocW,
    AllocDW,
    AllocQW,
    AllocF32,
    AllocF64,
    LdB,
    UldB,
    LdW,
    UldW,
    LdDW,
    UldDW,
    LdQW,
    UldQW,
    LdF32,
    LdF64,
    StrB,
    UstrB,
    StrW,
    UstrW,
    StrDW,
    UstrDW,
    StrQW,
    UstrQW,
    StrF32,
    StrF64,
}

/// LLIR operands: labels, named locals, numbered registers, and
/// integer literals.
#[derive(Debug)]
pub enum LLirArg {
    Empty,
    Label(String),
    Mem(String),
    Reg(i32),
    Int(i64),
    StrLiteral(String),
}

/// One LLIR instruction: the operation, its value type, and two
/// operands.
pub struct LLirInstr {
    pub instr_type: LLirType,
    pub data_type: LLirDataType,
    pub arg1: LLirArg,
    pub arg2: LLirArg,
}

/// An LLIR translation unit.
pub struct LLirFile {
    pub name: String,
    pub strings: Vec<(String, String)>,
    pub code: Vec<LLirInstr>,
}

/// Holds when an instruction is a blank instance of the given
/// operation.
pub open spec fn is_blank_llir_instr(instr: LLirInstr, instr_type: LLirType) -> bool {
    &&& instr.instr_type == instr_type
    &&& instr.data_type == LLirDataType::Void
    &&& instr.arg1 is Empty
    &&& instr.arg2 is Empty
}

/// Creates an LLIR instruction of the given operation with empty
/// operands.
pub fn create_instr(instr_type: LLirType) -> (instr: LLirInstr)
    ensures
        is_blank_llir_instr(instr, instr_type),
{
    LLirInstr {
        instr_type,
        data_type: LLirDataType::Void,
        arg1: LLirArg::Empty,
        arg2: LLirArg::Empty,
    }
}

} // verus!
