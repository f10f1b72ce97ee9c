//! State and utilities for building LLIR.
//!
//! The builder owns the file under construction, the register and
//! string counters, and the variables in scope.

use vstd::prelude::*;

use crate::llir::{create_instr, LLirDataType, LLirFile, LLirInstr, LLirType};
use crate::ltac_builder::DataType;

verus! {

/// One variable in scope: its name, its type, and for aggregates the
/// element type.
#[derive(Debug)]
pub struct Var {
    pub name: String,
    pub data_type: LLirDataType,
    pub sub_type: LLirDataType,
}

/// The LLIR building state for one translation unit.
pub struct LLirBuilder {
    pub file: LLirFile,
    pub reg_pos: i32,
    pub str_pos: i32,
    pub vars: Vec<Var>,
}

/// Creates a fresh builder for a translation unit of the given name.
pub fn new_llir_builder(name: String) -> (b: LLirBuilder)
    ensures
        b.file.name@ == name@,
        b.file.strings@.len() == 0,
        b.file.code@.len() == 0,
        b.reg_pos == 0,
        b.str_pos == 0,
        b.vars@.len() == 0,
{
    LLirBuilder {
        file: LLirFile { name, strings: Vec::new(), code: Vec::new() },
        reg_pos: 0,
        str_pos: 0,
        vars: Vec::new(),
    }
}

impl LLirBuilder {
    /// Appends one instruction to the file.
    pub fn add_code(&mut self, code: LLirInstr)
        ensures
            final(self).file.code@ == old(self).file.code@.push(code),
            final(self).file.name@ == old(self).file.name@,
            final(self).file.strings@ == old(self).file.strings@,
            final(self).reg_pos == old(self).reg_pos,
            final(self).str_pos == old(self).str_pos,
            final(self).vars@ == old(self).vars@,
    {
        self.file.code.push(code);
    }
}

/// The store operation for a value type.
pub open spec fn store_op_for(data_type: LLirDataType) -> LLirType {
    match data_type {
        LLirDataType::Byte => LLirType::StrB,
        LLirDataType::UByte => LLirType::UstrB,
        LLirDataType::Word => LLirType::StrW,
        LLirDataType::UWord => LLirType::UstrW,
        LLirDataType::Int => LLirType::StrDW,
        LLirDataType::UInt => LLirType::UstrDW,
        LLirDataType::Int64 => LLirType::StrQW,
        LLirDataType::UInt64 => LLirType::UstrQW,
        LLirDataType::Str => LLirType::StrQW,
        LLirDataType::Ptr => LLirType::StrQW,
        _ => LLirType::Nop,
    }
}

/// Returns a blank store instruction of the width for the given type.
pub fn store_for_type(data_type: &LLirDataType) -> (instr: LLirInstr)
    ensures
        crate::llir::is_blank_llir_instr(instr, store_op_for(*data_type)),
{
    match data_type {
        LLirDataType::Byte => create_instr(LLirType::StrB),
        LLirDataType::UByte => create_instr(LLirType::UstrB),
        LLirDataType::Word => create_instr(LLirType::StrW),
        LLirDataType::UWord => create_instr(LLirType::UstrW),
        LLirDataType::Int => create_instr(LLirType::StrDW),
        LLirDataType::UInt => create_instr(LLirType::UstrDW),
        LLirDataType::Int64 => create_instr(LLirType::StrQW),
        LLirDataType::UInt64 => create_instr(LLirType::UstrQW),
        LLirDataType::Str => create_instr(LLirType::StrQW),
        LLirDataType::Ptr => create_instr(LLirType::StrQW),
        _ => create_instr(LLirType::Nop),
    }
}

/// Reports whether a value type is unsigned.
pub fn is_unsigned(data_type: &LLirDataType) -> (r: bool)
    ensures
        r == (*data_type == LLirDataType::UByte || *data_type == LLirDataType::UWord
            || *data_type == LLirDataType::UInt || *data_type == LLirDataType::UInt64),
{
    matches!(
        data_type,
        LLirDataType::UByte | LLirDataType::UWord | LLirDataType::UInt | LLirDataType::UInt64
    )
}

/// The LLIR base and element types for a source-level data type.
pub open spec fn llir_types_of(data_type: DataType) -> (LLirDataType, LLirDataType) {
    match data_type {
        DataType::Byte => (LLirDataType::Byte, LLirDataType::Void),
        DataType::UByte => (LLirDataType::UByte, LLirDataType::Void),
        DataType::Short => (LLirDataType::Word, LLirDataType::Void),
        DataType::UShort => (LLirDataType::UWord, LLirDataType::Void),
        DataType::Int => (LLirDataType::Int, LLirDataType::Void),
        DataType::UInt => (LLirDataType::UInt, LLirDataType::Void),
        DataType::Int64 => (LLirDataType::Int64, LLirDataType::Void),
        DataType::UInt64 => (LLirDataType::UInt64, LLirDataType::Void),
        DataType::Char => (LLirDataType::Byte, LLirDataType::Void),
        DataType::Str => (LLirDataType::Str, LLirDataType::Void),
        _ => (LLirDataType::Void, LLirDataType::Void),
    }
}

/// Maps a source-level data type to its LLIR base and element types.
pub fn ast_to_datatype(data_type: &DataType) -> (r: (LLirDataType, LLirDataType))
    ensures
        r == llir_types_of(*data_type),
{
    match data_type {
        DataType::Byte => (LLirDataType::Byte, LLirDataType::Void),
        DataType::UByte => (LLirDataType::UByte, LLirDataType::Void),
        DataType::Short => (LLirDataType::Word, LLirDataType::Void),
        DataType::UShort => (LLirDataType::UWord, LLirDataType::Void),
        DataType::Int => (LLirDataType::Int, LLirDataType::Void),
        DataType::UInt => (LLirDataType::UInt, LLirDataType::Void),
        DataType::Int64 => (LLirDataType::Int64, LLirDataType::Void),
        DataType::UInt64 => (LLirDataType::UInt64, LLirDataType::Void),
        DataType::Char => (LLirDataType::Byte, LLirDataType::Void),
        DataType::Str => (LLirDataType::Str, LLirDataType::Void),
        _ => (LLirDataType::Void, LLirDataType::Void),
    }
}

} // verus!
