//! The LTAC intermediate representation.
//!
//! LTAC (linear three-address code) is the flat instruction stream
//! between the abstract syntax tree and target assembly.  An
//! [`LtacFile`] is a pure value: an ordered list of instructions plus a
//! read-only data section.

use vstd::prelude::*;

verus! {

/// Kind of a read-only data entry.
#[derive(Clone, Copy, PartialEq, Eq, Structural, Debug)]
pub enum LtacDataType {
    StringL,
    FloatL,
    DoubleL,
}

/// Instruction operation tags.
#[derive(Clone, Copy, PartialEq, Eq, Structural, Debug)]
pub enum LtacType {
    Nop,
    Extern,
    Label,
    Func,
    Ret,
    Mov,
    MovB,
    MovUB,
    MovW,
    MovUW,
    MovU,
    MovQ,
    MovUQ,
    MovF32,
    MovF64,
    MovOffImm,
    MovOffMem,
    MovI32Vec,
    Push,
    Pop,
    Ld,
    LdB,
    LdUB,
    LdW,
    LdUW,
    LdU,
    LdQ,
    LdUQ,
    LdF32,
    LdF64,
    Str,
    StrB,
    StrUB,
    StrW,
    StrUW,
    StrU,
    StrQ,
    StrUQ,
    StrF32,
    StrF64,
    StrPtr,
    LdArgI8,
    LdArgU8,
    LdArgI16,
    LdArgU16,
    LdArgI32,
    LdArgU32,
    LdArgI64,
    LdArgU64,
    LdArgF32,
    LdArgF64,
    LdArgPtr,
    PushArg,
    KPushArg,
    Call,
    Syscall,
    Malloc,
    Free,
    Exit,
    I8Cmp,
    U8Cmp,
    I16Cmp,
    U16Cmp,
    I32Cmp,
    U32Cmp,
    I64Cmp,
    U64Cmp,
    F32Cmp,
    F64Cmp,
    StrCmp,
    Br,
    Be,
    Bne,
    Bl,
    Ble,
    Bfl,
    Bfle,
    Bg,
    Bge,
    Bfg,
    Bfge,
    BAdd,
    BSub,
    BMul,
    BDiv,
    BMod,
    BAnd,
    BOr,
    BXor,
    BLsh,
    BRsh,
    WAnd,
    WOr,
    WXor,
    WLsh,
    WRsh,
    I8Add,
    I8Sub,
    I8Mul,
    I8Div,
    I8Mod,
    U8Add,
    U8Mul,
    U8Div,
    U8Mod,
    I16Add,
    I16Sub,
    I16Mul,
    I16Div,
    I16Mod,
    U16Add,
    U16Mul,
    U16Div,
    U16Mod,
    I32Add,
    I32Sub,
    I32Mul,
    I32Div,
    I32Mod,
    I32And,
    I32Or,
    I32Xor,
    I32Lsh,
    I32Rsh,
    U32Add,
    U32Mul,
    U32Div,
    U32Mod,
    I64Add,
    I64Sub,
    I64Mul,
    I64Div,
    I64Mod,
    I64And,
    I64Or,
    I64Xor,
    I64Lsh,
    I64Rsh,
    U64Add,
    U64Mul,
    U64Div,
    U64Mod,
    F32Add,
    F32Sub,
    F32Mul,
    F32Div,
    F64Add,
    F64Sub,
    F64Mul,
    F64Div,
    I32VAdd,
}

/// Instruction operands.
///
/// Register operands carry a virtual register index; memory operands
/// carry a positive stack offset.  The offset forms carry the element
/// size used for array addressing.  Float literals and local pointers
/// name a data-section label.
#[derive(Debug)]
pub enum LtacArg {
    Empty,
    Reg8(i32),
    Reg16(i32),
    Reg32(i32),
    Reg64(i32),
    FltReg(i32),
    FltReg64(i32),
    RetRegI32,
    RetRegU32,
    RetRegI64,
    RetRegU64,
    RetRegF32,
    RetRegF64,
    Mem(i32),
    MemOffsetImm(i32, i32),
    MemOffsetMem(i32, i32, i32),
    MemOffsetReg(i32, i32, i32),
    Byte(i8),
    UByte(u8),
    I16(i16),
    U16(u16),
    I32(i32),
    U32(u32),
    I64(i64),
    U64(u64),
    F32(String),
    F64(String),
    Ptr(i32),
    PtrLcl(String),
}

/// An LTAC translation unit: data section plus instruction stream.
pub struct LtacFile {
    pub name: String,
    pub data: Vec<LtacData>,
    pub code: Vec<LtacInstr>,
}

/// One read-only data entry.  Strings hold their text verbatim; float
/// entries hold the decimal rendering of the IEEE-754 bit pattern.
pub struct LtacData {
    pub data_type: LtacDataType,
    pub name: String,
    pub val: String,
}

/// One instruction: an operation, an optional symbol name, and two
/// operands with integer side fields for offsets and argument slots.
pub struct LtacInstr {
    pub instr_type: LtacType,
    pub name: String,
    pub arg1: LtacArg,
    pub arg1_val: i32,
    pub arg1_offset: i32,
    pub arg1_offset_size: i32,
    pub arg2: LtacArg,
    pub arg2_val: i32,
    pub arg2_offset: i32,
    pub arg2_offset_size: i32,
}

/// Holds when an instruction is a blank instance of the given
/// operation: empty name and operands, zero side fields.
pub open spec fn is_blank_instr(instr: LtacInstr, instr_type: LtacType) -> bool {
    &&& instr.instr_type == instr_type
    &&& instr.name@ == Seq::<char>::empty()
    &&& instr.arg1 is Empty
    &&& instr.arg1_val == 0
    &&& instr.arg1_offset == 0
    &&& instr.arg1_offset_size == 0
    &&& instr.arg2 is Empty
    &&& instr.arg2_val == 0
    &&& instr.arg2_offset == 0
    &&& instr.arg2_offset_size == 0
}

/// Creates an LTAC instruction of the given operation with empty
/// operands.
pub fn create_instr(instr_type: LtacType) -> (instr: LtacInstr)
    ensures
        is_blank_instr(instr, instr_type),
{
    LtacInstr {
        instr_type,
        name: String::new(),
        arg1: LtacArg::Empty,
        arg1_val: 0,
        arg1_offset: 0,
        arg1_offset_size: 0,
        arg2: LtacArg::Empty,
        arg2_val: 0,
        arg2_offset: 0,
        arg2_offset_size: 0,
    }
}

} // verus!
