//! Lowering of variable declarations and assignments.
//!
//! The stack is a bump allocator growing downward: each declaration
//! advances the high-water mark by the declared width.  Parameters are
//! stored into their slots by argument-load instructions carrying the
//! 1-based argument position.  Expressions arrive as a flat token list
//! in evaluation order; lowering accumulates into virtual register 0
//! and stores the result.

use vstd::prelude::*;

use crate::ast::{AstArg, AstArgType, AstStmt};
use crate::errors::BuildErrorKind;
use crate::ltac::{create_instr, LtacArg, LtacInstr, LtacType};
use crate::ltac_builder::{
    builder_inv, datatype_of, errors_unchanged, ldarg_op_for, lowering_frame, var_table_lookup,
    DataType, LtacBuilder, Var,
};
use crate::ltac_flow::is_op_instr;
use crate::ltac_func::build_func_call;

verus! {

/// The stack width in bytes of a declared type: one, two, four, or
/// eight; pointers, strings, and array bases take eight.
pub open spec fn type_width(dt: DataType) -> int {
    match dt {
        DataType::Byte | DataType::UByte | DataType::Char => 1,
        DataType::Short | DataType::UShort => 2,
        DataType::Int | DataType::UInt | DataType::Float => 4,
        _ => 8,
    }
}

/// Whether parameters of this type use the float argument registers.
pub open spec fn is_float_type(dt: DataType) -> bool {
    dt == DataType::Float || dt == DataType::Double
}

/// Returns the stack width of a declared type.
pub fn width_for_type(dt: &DataType) -> (w: i32)
    ensures
        w as int == type_width(*dt),
        1 <= w <= 8,
{
    match dt {
        DataType::Byte | DataType::UByte | DataType::Char => 1,
        DataType::Short | DataType::UShort => 2,
        DataType::Int | DataType::UInt | DataType::Float => 4,
        _ => 8,
    }
}

/// An argument-load instruction for a parameter: the slot it stores
/// to, and the argument position it reads from.
pub open spec fn is_ldarg_instr(i: LtacInstr, op: LtacType, pos: int, arg_no: int) -> bool {
    &&& i.instr_type == op
    &&& i.name@ == Seq::<char>::empty()
    &&& i.arg1 == LtacArg::Mem(pos as i32)
    &&& i.arg1_val == pos
    &&& i.arg2 is Empty
    &&& i.arg2_val == arg_no
}

/// Lowers a variable declaration.
///
/// The declared name is bound to the next stack slot.  For a
/// parameter (`arg_no > 0`) an argument-load instruction is emitted
/// and the matching class counter advances; the result carries the
/// updated integer and float argument positions.  For a local the
/// initialiser is lowered as an assignment.
pub fn build_var_dec(builder: &mut LtacBuilder, line: &AstStmt, arg_no: i32, flt_arg_no: i32) -> (r: (bool, i32, i32))
    requires
        builder_inv(*old(builder)),
        0 < arg_no ==> arg_no < 0x7FFF_0000,
        0 < flt_arg_no ==> flt_arg_no < 0x7FFF_0000,
    ensures
        builder_inv(*final(builder)),
        lowering_frame(*old(builder), *final(builder)),
        final(builder).blocks@ == old(builder).blocks@,
        final(builder).functions@ == old(builder).functions@,
        final(builder).global_consts@ == old(builder).global_consts@,
        final(builder).current_func@ == old(builder).current_func@,
        final(builder).current_type == old(builder).current_type,
        final(builder).file.name@ == old(builder).file.name@,
        final(builder).str_pos >= old(builder).str_pos,
        final(builder).file.code@.len() >= old(builder).file.code@.len(),
        forall|i: int|
            0 <= i < old(builder).file.code@.len() ==> final(builder).file.code@[i] == old(
                builder,
            ).file.code@[i],
        forall|i: int|
            old(builder).file.code@.len() <= i < final(builder).file.code@.len() ==> final(builder).file.code@[i].instr_type != LtacType::Func,
        final(builder).errors.errors@.len() >= old(builder).errors.errors@.len(),
        !r.0 ==> final(builder).errors.errors@.len() > old(builder).errors.errors@.len(),
        r.0 ==> line.modifiers@.len() > 0 && old(builder).stack_pos < 0x7FFF_0000,
        ({
            let width = type_width(datatype_of(line.modifiers@[0].mod_type));
            let pos = old(builder).stack_pos + width;
            (line.modifiers@.len() > 0 && old(builder).stack_pos < 0x7FFF_0000) ==> {
                &&& final(builder).stack_pos == pos
                &&& final(builder).vars@ == old(builder).vars@.push(
                    (line.name, Var {
                        pos: pos as i32,
                        data_type: datatype_of(line.modifiers@[0].mod_type),
                        is_param: arg_no > 0,
                    }),
                )
            }
        }),
        ({
            let dt = datatype_of(line.modifiers@[0].mod_type);
            let pos = old(builder).stack_pos + type_width(dt);
            (line.modifiers@.len() > 0 && old(builder).stack_pos < 0x7FFF_0000 && arg_no > 0)
                ==> {
                &&& (ldarg_op_for(dt) != LtacType::Nop ==> {
                    &&& final(builder).file.code@ == old(builder).file.code@.push(
                        final(builder).file.code@.last(),
                    )
                    &&& is_ldarg_instr(
                        final(builder).file.code@.last(),
                        ldarg_op_for(dt),
                        pos,
                        if is_float_type(dt) {
                            flt_arg_no as int
                        } else {
                            arg_no as int
                        },
                    )
                })
                &&& (ldarg_op_for(dt) == LtacType::Nop ==> final(builder).file.code@ == old(
                    builder,
                ).file.code@)
                &&& r == (true, if is_float_type(dt) {
                    arg_no
                } else {
                    (arg_no + 1) as i32
                }, if is_float_type(dt) {
                    (flt_arg_no + 1) as i32
                } else {
                    flt_arg_no
                })
                &&& errors_unchanged(*old(builder), *final(builder))
                &&& final(builder).file.data@ == old(builder).file.data@
                &&& final(builder).str_pos == old(builder).str_pos
                &&& final(builder).flt_pos == old(builder).flt_pos
            }
        }),
        ({
            let dt = datatype_of(line.modifiers@[0].mod_type);
            let pos = old(builder).stack_pos + type_width(dt);
            (line.modifiers@.len() > 0 && old(builder).stack_pos < 0x7FFF_0000 && arg_no <= 0
                && dt == DataType::Int && line.args@.len() == 1 && line.args@[0].arg_type
                == AstArgType::IntL && line.sub_args@.len() == 0) ==> {
                &&& final(builder).file.code@ == old(builder).file.code@.push(
                    final(builder).file.code@.last(),
                )
                &&& is_op_instr(
                    final(builder).file.code@.last(),
                    LtacType::Mov,
                    LtacArg::Mem(pos as i32),
                    LtacArg::I32(line.args@[0].u64_val as i32),
                )
                &&& r.0
                &&& errors_unchanged(*old(builder), *final(builder))
            }
        }),
        ({
            let dt = datatype_of(line.modifiers@[0].mod_type);
            let pos = old(builder).stack_pos + type_width(dt);
            let vars2 = old(builder).vars@.push(
                (line.name, Var { pos: pos as i32, data_type: dt, is_param: false }),
            );
            (line.modifiers@.len() > 0 && old(builder).stack_pos < 0x7FFF_0000 && arg_no <= 0
                && assign_ok(*line, vars2)) ==> r.0 && errors_unchanged(
                *old(builder),
                *final(builder),
            ) && final(builder).str_pos == old(builder).str_pos
        }),
        (line.modifiers@.len() == 0 || old(builder).stack_pos >= 0x7FFF_0000) ==> {
            &&& !r.0
            &&& final(builder).file.code@ == old(builder).file.code@
            &&& final(builder).vars@ == old(builder).vars@
            &&& final(builder).stack_pos == old(builder).stack_pos
            &&& final(builder).errors.errors@.len() == old(builder).errors.errors@.len() + 1
        },
{
    if line.modifiers.len() == 0 || builder.stack_pos >= 0x7FFF_0000 {
        builder.errors.add(
            BuildErrorKind::UnsupportedOperation,
            line.name.clone(),
            line.line_no,
        );
        return (false, arg_no, flt_arg_no);
    }
    let data_type = crate::ltac_builder::ast_to_datatype(&line.modifiers[0]);
    let width = width_for_type(&data_type);
    builder.stack_pos = builder.stack_pos + width;
    let pos = builder.stack_pos;

    let v = Var { pos, data_type, is_param: arg_no > 0 };
    builder.vars.push((line.name.clone(), v));

    if arg_no > 0 {
        let is_flt = matches!(data_type, DataType::Float | DataType::Double);
        let slot = if is_flt {
            flt_arg_no
        } else {
            arg_no
        };
        let mut ld = crate::ltac_builder::ldarg_for_type(&data_type, LtacArg::Mem(pos), slot);
        if !matches!(ld.instr_type, LtacType::Nop) {
            ld.arg1_val = pos;
            builder.emit(ld);
        }
        if is_flt {
            (true, arg_no, flt_arg_no + 1)
        } else {
            (true, arg_no + 1, flt_arg_no)
        }
    } else {
        proof {
            assert(builder.vars@.last() == (line.name, v));
            assert(var_table_lookup(builder.vars@, line.name@) == Option::Some(v));
        }
        let ok = build_var_assign(builder, line);
        (ok, arg_no, flt_arg_no)
    }
}

/// Lowers an assignment statement.
///
/// The target must be a declared variable; an unknown name records an
/// unknown-identifier diagnostic and fails.  Integer and
/// integer-array targets take the single-token or expression path —
/// an indexed target stores through the offset moves.  Assignments to
/// other scalar types emit nothing.
pub fn build_var_assign(builder: &mut LtacBuilder, line: &AstStmt) -> (r: bool)
    requires
        builder_inv(*old(builder)),
    ensures
        builder_inv(*final(builder)),
        lowering_frame(*old(builder), *final(builder)),
        final(builder).blocks@ == old(builder).blocks@,
        final(builder).vars@ == old(builder).vars@,
        final(builder).stack_pos == old(builder).stack_pos,
        final(builder).functions@ == old(builder).functions@,
        final(builder).global_consts@ == old(builder).global_consts@,
        final(builder).current_func@ == old(builder).current_func@,
        final(builder).current_type == old(builder).current_type,
        final(builder).file.name@ == old(builder).file.name@,
        final(builder).str_pos >= old(builder).str_pos,
        final(builder).file.code@.len() >= old(builder).file.code@.len(),
        forall|i: int|
            0 <= i < old(builder).file.code@.len() ==> final(builder).file.code@[i] == old(
                builder,
            ).file.code@[i],
        forall|i: int|
            old(builder).file.code@.len() <= i < final(builder).file.code@.len() ==> final(builder).file.code@[i].instr_type != LtacType::Func,
        final(builder).errors.errors@.len() >= old(builder).errors.errors@.len(),
        !r ==> final(builder).errors.errors@.len() > old(builder).errors.errors@.len(),
        var_table_lookup(old(builder).vars@, line.name@) is None ==> {
            &&& !r
            &&& final(builder).file.code@ == old(builder).file.code@
            &&& final(builder).errors.errors@.len() == old(builder).errors.errors@.len() + 1
            &&& final(builder).errors.errors@.last().kind == BuildErrorKind::UnknownIdentifier
        },
        assign_ok(*line, old(builder).vars@) ==> (r && errors_unchanged(
            *old(builder),
            *final(builder),
        ) && final(builder).str_pos == old(builder).str_pos),
        var_table_lookup(old(builder).vars@, line.name@) matches Some(v) ==> ((v.data_type
            != DataType::Int && v.data_type != DataType::IntDynArray) ==> {
            &&& r
            &&& final(builder).file.code@ == old(builder).file.code@
            &&& final(builder).str_pos == old(builder).str_pos
            &&& errors_unchanged(*old(builder), *final(builder))
        }),
        var_table_lookup(old(builder).vars@, line.name@) matches Some(v) ==> ((v.data_type
            == DataType::Int && line.args@.len() == 1 && line.args@[0].arg_type
            == AstArgType::IntL && line.sub_args@.len() == 0) ==> {
            &&& r
            &&& final(builder).file.code@ == old(builder).file.code@.push(
                final(builder).file.code@.last(),
            )
            &&& is_op_instr(
                final(builder).file.code@.last(),
                LtacType::Mov,
                LtacArg::Mem(v.pos),
                LtacArg::I32(line.args@[0].u64_val as i32),
            )
            &&& errors_unchanged(*old(builder), *final(builder))
        }),
{
    let var = match crate::ltac_builder::var_lookup(&builder.vars, &line.name) {
        Some(v) => v,
        None => {
            builder.errors.add(
                BuildErrorKind::UnknownIdentifier,
                line.name.clone(),
                line.line_no,
            );
            return false;
        },
    };
    if matches!(var.data_type, DataType::Int | DataType::IntDynArray) {
        if line.args.len() == 1 {
            build_i32var_single_assign(builder, line, &var)
        } else {
            build_i32var_math(builder, line, &var)
        }
    } else {
        true
    }
}

/// The truncated product of an array index and its element size.
pub open spec fn scaled_offset(imm: u64, size: int) -> i32 {
    (((imm as i32) as i64) * (size as i64)) as i32
}

/// Lowers an assignment whose right side is one token.
///
/// An integer literal or a known variable moves straight into the
/// target slot; reading an element of a known array uses the
/// offset-move forms; a known function name becomes a call whose
/// result register moves into the target.  An unknown name records a
/// diagnostic and stores slot zero, and the translation carries on.
pub fn build_i32var_single_assign(builder: &mut LtacBuilder, line: &AstStmt, var: &Var) -> (r:
    bool)
    requires
        builder_inv(*old(builder)),
    ensures
        builder_inv(*final(builder)),
        lowering_frame(*old(builder), *final(builder)),
        final(builder).blocks@ == old(builder).blocks@,
        final(builder).vars@ == old(builder).vars@,
        final(builder).stack_pos == old(builder).stack_pos,
        final(builder).functions@ == old(builder).functions@,
        final(builder).global_consts@ == old(builder).global_consts@,
        final(builder).current_func@ == old(builder).current_func@,
        final(builder).current_type == old(builder).current_type,
        final(builder).file.name@ == old(builder).file.name@,
        final(builder).str_pos >= old(builder).str_pos,
        final(builder).file.code@.len() >= old(builder).file.code@.len(),
        forall|i: int|
            0 <= i < old(builder).file.code@.len() ==> final(builder).file.code@[i] == old(
                builder,
            ).file.code@[i],
        forall|i: int|
            old(builder).file.code@.len() <= i < final(builder).file.code@.len() ==> final(builder).file.code@[i].instr_type != LtacType::Func,
        final(builder).errors.errors@.len() >= old(builder).errors.errors@.len(),
        !r ==> final(builder).errors.errors@.len() > old(builder).errors.errors@.len(),
        (line.args@.len() >= 1 && single_token_ok(line.args@[0], old(builder).vars@)) ==> (r
            && errors_unchanged(*old(builder), *final(builder)) && final(builder).str_pos == old(
            builder,
        ).str_pos),
        (line.args@.len() >= 1 && line.args@[0].arg_type == AstArgType::IntL
            && line.sub_args@.len() == 0) ==> {
            &&& r
            &&& final(builder).file.code@ == old(builder).file.code@.push(
                final(builder).file.code@.last(),
            )
            &&& is_op_instr(
                final(builder).file.code@.last(),
                LtacType::Mov,
                LtacArg::Mem(var.pos),
                LtacArg::I32(line.args@[0].u64_val as i32),
            )
            &&& errors_unchanged(*old(builder), *final(builder))
        },
        (line.args@.len() >= 1 && line.args@[0].arg_type == AstArgType::IntL
            && line.sub_args@.len() == 1 && line.sub_args@[0].arg_type == AstArgType::IntL)
            ==> {
            &&& r
            &&& final(builder).file.code@ == old(builder).file.code@.push(
                final(builder).file.code@.last(),
            )
            &&& final(builder).file.code@.last().instr_type == LtacType::MovOffImm
            &&& final(builder).file.code@.last().arg1 == LtacArg::Mem(var.pos)
            &&& final(builder).file.code@.last().arg1_offset == scaled_offset(
                line.sub_args@[0].u64_val,
                4,
            )
            &&& final(builder).file.code@.last().arg2 == LtacArg::I32(
                line.args@[0].u64_val as i32,
            )
            &&& errors_unchanged(*old(builder), *final(builder))
        },
        var_table_lookup(old(builder).vars@, line.args@[0].str_val@) matches Some(v) ==> ((
        line.args@.len() >= 1 && line.args@[0].arg_type == AstArgType::Id
            && line.args@[0].sub_args@.len() == 0 && line.sub_args@.len() == 0) ==> {
            &&& r
            &&& final(builder).file.code@ == old(builder).file.code@.push(
                final(builder).file.code@.last(),
            )
            &&& is_op_instr(
                final(builder).file.code@.last(),
                LtacType::Mov,
                LtacArg::Mem(var.pos),
                LtacArg::Mem(v.pos),
            )
            &&& errors_unchanged(*old(builder), *final(builder))
        }),
        var_table_lookup(old(builder).vars@, line.args@[0].str_val@) matches Some(v) ==> ((
        line.args@.len() >= 1 && line.args@[0].arg_type == AstArgType::Id
            && line.args@[0].sub_args@.len() == 1 && line.args@[0].sub_args@[0].arg_type
            == AstArgType::IntL && line.sub_args@.len() == 0) ==> {
            let size: int = if v.data_type == DataType::IntDynArray {
                4
            } else {
                1
            };
            &&& r
            &&& final(builder).file.code@ == old(builder).file.code@.push(
                final(builder).file.code@.last(),
            )
            &&& final(builder).file.code@.last().instr_type == LtacType::MovOffImm
            &&& final(builder).file.code@.last().arg1 == LtacArg::Mem(var.pos)
            &&& final(builder).file.code@.last().arg2 == LtacArg::Mem(v.pos)
            &&& final(builder).file.code@.last().arg2_offset == scaled_offset(
                line.args@[0].sub_args@[0].u64_val,
                size,
            )
            &&& errors_unchanged(*old(builder), *final(builder))
        }),
{
    if line.args.len() == 0 {
        builder.errors.add(
            BuildErrorKind::UnsupportedOperation,
            line.name.clone(),
            line.line_no,
        );
        return false;
    }
    let arg = &line.args[0];
    let mut instr = create_instr(LtacType::Mov);
    instr.arg1 = LtacArg::Mem(var.pos);

    match arg.arg_type {
        AstArgType::IntL => {
            instr.arg2 = LtacArg::I32(#[verifier::truncate] (arg.u64_val as i32));
        },
        AstArgType::Id => {
            match crate::ltac_builder::var_lookup(&builder.vars, &arg.str_val) {
                Some(v) => {
                    let size: i32 = if matches!(v.data_type, DataType::IntDynArray) {
                        4
                    } else {
                        1
                    };
                    instr.arg2 = LtacArg::Mem(v.pos);
                    if arg.sub_args.len() == 1 {
                        let first_arg = &arg.sub_args[0];
                        if matches!(first_arg.arg_type, AstArgType::IntL) {
                            instr.instr_type = LtacType::MovOffImm;
                            let imm32: i32 = #[verifier::truncate] (first_arg.u64_val as i32);
                            let off64: i64 = if size == 4 {
                                (imm32 as i64) * 4
                            } else {
                                imm32 as i64
                            };
                            instr.arg2_offset = #[verifier::truncate] (off64 as i32);
                            proof {
                                assert(off64 == ((first_arg.u64_val as i32) as i64) * (
                                size as i64)) by {
                                    if size == 4 {
                                    } else {
                                        assert(size == 1);
                                    }
                                }
                                assert(instr.arg2_offset == scaled_offset(
                                    first_arg.u64_val,
                                    size as int,
                                ));
                            }
                        } else if matches!(first_arg.arg_type, AstArgType::Id) {
                            let mut instr2 = create_instr(LtacType::MovOffMem);
                            instr2.arg1 = LtacArg::Reg32(0);
                            instr2.arg2 = LtacArg::Mem(v.pos);
                            instr2.arg2_offset_size = size;
                            match crate::ltac_builder::var_lookup(
                                &builder.vars,
                                &first_arg.str_val,
                            ) {
                                Some(iv) => {
                                    instr2.arg2_offset = iv.pos;
                                },
                                None => {
                                    instr2.arg2_offset = 0;
                                },
                            }
                            builder.emit(instr2);
                            instr.arg2 = LtacArg::Reg32(0);
                        }
                    }
                },
                None => {
                    match crate::ltac_builder::func_lookup(&builder.functions, &arg.str_val) {
                        Some(t) => {
                            // a call supplies the value: lower it, then move
                            // the return register into the target slot
                            let mut stmt = crate::ast::create_orphan_stmt(
                                crate::ast::AstStmtType::FuncCall,
                            );
                            stmt.name = arg.str_val.clone();
                            stmt.args = clone_args(&arg.sub_args);
                            let ok = build_func_call(builder, &stmt);
                            if matches!(t, DataType::Int) {
                                instr.arg2 = LtacArg::RetRegI32;
                            }
                            builder.emit(instr);
                            return ok;
                        },
                        None => {
                            builder.errors.add(
                                BuildErrorKind::UnknownIdentifier,
                                arg.str_val.clone(),
                                line.line_no,
                            );
                            instr.arg2 = LtacArg::Mem(0);
                        },
                    }
                },
            }
        },
        _ => {},
    }

    // an indexed target stores through the offset-move forms
    if line.sub_args.len() == 1 && matches!(instr.instr_type, LtacType::Mov) {
        let first_arg = &line.sub_args[0];
        if matches!(first_arg.arg_type, AstArgType::IntL) {
            instr.instr_type = LtacType::MovOffImm;
            let imm32: i32 = #[verifier::truncate] (first_arg.u64_val as i32);
            let off64: i64 = (imm32 as i64) * 4;
            instr.arg1_offset = #[verifier::truncate] (off64 as i32);
            proof {
                assert(off64 == ((first_arg.u64_val as i32) as i64) * 4);
                assert(instr.arg1_offset == scaled_offset(first_arg.u64_val, 4));
            }
        } else if matches!(first_arg.arg_type, AstArgType::Id) {
            instr.instr_type = LtacType::MovOffMem;
            instr.arg1_offset_size = 4;
            match crate::ltac_builder::var_lookup(&builder.vars, &first_arg.str_val) {
                Some(iv) => {
                    instr.arg1_offset = iv.pos;
                },
                None => {
                    instr.arg1_offset = 0;
                },
            }
        }
    }
    builder.emit(instr);
    true
}

/// A right-side token whose single-token lowering never records a
/// diagnostic: an integer literal, or a name bound in the symbol
/// table.
pub open spec fn single_token_ok(a: AstArg, vars: Seq<(String, Var)>) -> bool {
    ||| a.arg_type == AstArgType::IntL
    ||| (a.arg_type == AstArgType::Id && var_table_lookup(vars, a.str_val@) is Some)
}

/// An assignment statement whose lowering succeeds with no
/// diagnostic: the target is declared, and for an integer or
/// integer-array target the right side is a single benign token or a
/// plain expression.
pub open spec fn assign_ok(line: AstStmt, vars: Seq<(String, Var)>) -> bool {
    match var_table_lookup(vars, line.name@) {
        Option::Some(v) => {
            if v.data_type == DataType::Int || v.data_type == DataType::IntDynArray {
                if line.args@.len() == 1 {
                    single_token_ok(line.args@[0], vars)
                } else {
                    plain_math_args(line.args@, vars)
                }
            } else {
                true
            }
        },
        Option::None => false,
    }
}

/// Clones an argument-token list.
fn clone_args(args: &Vec<AstArg>) -> (r: Vec<AstArg>)
    ensures
        r@.len() == args@.len(),
        forall|i: int|
            0 <= i < args@.len() ==> {
                &&& (#[trigger] r@[i]).arg_type == args@[i].arg_type
                &&& r@[i].str_val@ == args@[i].str_val@
                &&& r@[i].u64_val == args@[i].u64_val
                &&& r@[i].u8_val == args@[i].u8_val
                &&& r@[i].u16_val == args@[i].u16_val
                &&& r@[i].char_val == args@[i].char_val
                &&& r@[i].flt_bits == args@[i].flt_bits
            },
{
    let mut out: Vec<AstArg> = Vec::new();
    let n = args.len();
    let mut i: usize = 0;
    while i < n
        invariant
            n == args@.len(),
            i <= n,
            out@.len() == i,
            forall|j: int|
                0 <= j < i ==> {
                    &&& (#[trigger] out@[j]).arg_type == args@[j].arg_type
                    &&& out@[j].str_val@ == args@[j].str_val@
                    &&& out@[j].u64_val == args@[j].u64_val
                    &&& out@[j].u8_val == args@[j].u8_val
                    &&& out@[j].u16_val == args@[j].u16_val
                    &&& out@[j].char_val == args@[j].char_val
                    &&& out@[j].flt_bits == args@[j].flt_bits
                },
        decreases n - i,
    {
        let a = &args[i];
        out.push(
            crate::ast::AstArg {
                arg_type: a.arg_type,
                str_val: a.str_val.clone(),
                char_val: a.char_val,
                u8_val: a.u8_val,
                u16_val: a.u16_val,
                u64_val: a.u64_val,
                flt_bits: a.flt_bits,
                sub_args: Vec::new(),
                sub_modifiers: Vec::new(),
            },
        );
        i = i + 1;
    }
    out
}

/// The operations the expression accumulator uses: a move or an
/// integer arithmetic, bitwise, or shift operation.
pub open spec fn is_acc_op(t: LtacType) -> bool {
    ||| t == LtacType::Mov
    ||| t == LtacType::I32Add
    ||| t == LtacType::I32Sub
    ||| t == LtacType::I32Mul
    ||| t == LtacType::I32Div
    ||| t == LtacType::I32Mod
    ||| t == LtacType::I32And
    ||| t == LtacType::I32Or
    ||| t == LtacType::I32Xor
    ||| t == LtacType::I32Lsh
    ||| t == LtacType::I32Rsh
}

/// The accumulator operation in force after the first `k` expression
/// tokens: operators switch it, value tokens leave it.
pub open spec fn op_after(args: Seq<AstArg>, k: int) -> LtacType
    decreases k,
{
    if k <= 0 {
        LtacType::Mov
    } else if k > args.len() {
        LtacType::Mov
    } else {
        match args[k - 1].arg_type {
            AstArgType::OpAdd => LtacType::I32Add,
            AstArgType::OpSub => LtacType::I32Sub,
            AstArgType::OpMul => LtacType::I32Mul,
            AstArgType::OpDiv => LtacType::I32Div,
            AstArgType::OpMod => LtacType::I32Mod,
            AstArgType::OpAnd => LtacType::I32And,
            AstArgType::OpOr => LtacType::I32Or,
            AstArgType::OpXor => LtacType::I32Xor,
            AstArgType::OpLeftShift => LtacType::I32Lsh,
            AstArgType::OpRightShift => LtacType::I32Rsh,
            _ => op_after(args, k - 1),
        }
    }
}

/// Whether every expression token is an integer literal, a variable
/// known at lowering time, or an operator: the case with no embedded
/// calls.
pub open spec fn plain_math_args(args: Seq<AstArg>, vars: Seq<(String, Var)>) -> bool {
    forall|i: int|
        0 <= i < args.len() ==> {
            ||| (#[trigger] args[i]).arg_type == AstArgType::IntL
            ||| (args[i].arg_type == AstArgType::Id && args[i].sub_args@.len() == 0
                && var_table_lookup(vars, args[i].str_val@) is Some)
            ||| args[i].arg_type == AstArgType::OpAdd
            ||| args[i].arg_type == AstArgType::OpSub
            ||| args[i].arg_type == AstArgType::OpMul
            ||| args[i].arg_type == AstArgType::OpDiv
            ||| args[i].arg_type == AstArgType::OpMod
            ||| args[i].arg_type == AstArgType::OpAnd
            ||| args[i].arg_type == AstArgType::OpOr
            ||| args[i].arg_type == AstArgType::OpXor
            ||| args[i].arg_type == AstArgType::OpLeftShift
            ||| args[i].arg_type == AstArgType::OpRightShift
        }
}

/// Holds when the first `ai` tokens of a plain expression have been
/// lowered, ending at code index `ci`: each value token became one
/// accumulator instruction under the operation in force.
pub open spec fn math_args_lowered(
    args: Seq<AstArg>,
    ai: int,
    code: Seq<LtacInstr>,
    ci: int,
    vars: Seq<(String, Var)>,
) -> bool
    decreases ai,
{
    if ai <= 0 {
        true
    } else if ai > args.len() {
        false
    } else {
        let a = args[ai - 1];
        if a.arg_type == AstArgType::IntL {
            &&& ci >= 1
            &&& 0 <= ci - 1 < code.len()
            &&& is_op_instr(
                code[ci - 1],
                op_after(args, ai - 1),
                LtacArg::Reg32(0),
                LtacArg::I32(a.u64_val as i32),
            )
            &&& math_args_lowered(args, ai - 1, code, ci - 1, vars)
        } else if a.arg_type == AstArgType::Id && a.sub_args@.len() == 0 && var_table_lookup(
            vars,
            a.str_val@,
        ) is Some {
            &&& ci >= 1
            &&& 0 <= ci - 1 < code.len()
            &&& (var_table_lookup(vars, a.str_val@) matches Some(v) && is_op_instr(
                code[ci - 1],
                op_after(args, ai - 1),
                LtacArg::Reg32(0),
                LtacArg::Mem(v.pos),
            ))
            &&& math_args_lowered(args, ai - 1, code, ci - 1, vars)
        } else {
            math_args_lowered(args, ai - 1, code, ci, vars)
        }
    }
}

/// The lowered-expression relation reads the stream only below its
/// cursor, so extending the stream leaves it intact.
proof fn lemma_math_args_stable(
    args: Seq<AstArg>,
    ai: int,
    code1: Seq<LtacInstr>,
    ci: int,
    vars: Seq<(String, Var)>,
    code2: Seq<LtacInstr>,
)
    requires
        math_args_lowered(args, ai, code1, ci, vars),
        0 <= ci <= code1.len(),
        ci <= code2.len(),
        forall|l: int| 0 <= l < ci ==> code2[l] == code1[l],
    ensures
        math_args_lowered(args, ai, code2, ci, vars),
    decreases ai,
{
    if ai <= 0 {
    } else if ai > args.len() {
    } else {
        let a = args[ai - 1];
        if a.arg_type == AstArgType::IntL {
            lemma_math_args_stable(args, ai - 1, code1, ci - 1, vars, code2);
        } else if a.arg_type == AstArgType::Id && a.sub_args@.len() == 0 && var_table_lookup(
            vars,
            a.str_val@,
        ) is Some {
            lemma_math_args_stable(args, ai - 1, code1, ci - 1, vars, code2);
        } else {
            lemma_math_args_stable(args, ai - 1, code1, ci, vars, code2);
        }
    }
}

/// The number of instructions a plain expression emits before the
/// store: one per literal or identifier token.
pub open spec fn value_tokens(args: Seq<AstArg>, k: int) -> int
    decreases k,
{
    if k <= 0 || k > args.len() {
        0
    } else {
        value_tokens(args, k - 1) + if args[k - 1].arg_type == AstArgType::IntL || args[k
            - 1].arg_type == AstArgType::Id {
            1int
        } else {
            0int
        }
    }
}

/// Lowers an expression assignment: the token list in evaluation
/// order.
///
/// Lowering starts the accumulator with a plain move, switches the
/// operation at each operator token, emits one accumulator instruction
/// per value token, and finally stores virtual register 0 to the
/// target — directly, or through an offset move when the statement
/// carries an array index.
pub fn build_i32var_math(builder: &mut LtacBuilder, line: &AstStmt, var: &Var) -> (r: bool)
    requires
        builder_inv(*old(builder)),
    ensures
        builder_inv(*final(builder)),
        lowering_frame(*old(builder), *final(builder)),
        final(builder).blocks@ == old(builder).blocks@,
        final(builder).vars@ == old(builder).vars@,
        final(builder).stack_pos == old(builder).stack_pos,
        final(builder).functions@ == old(builder).functions@,
        final(builder).global_consts@ == old(builder).global_consts@,
        final(builder).current_func@ == old(builder).current_func@,
        final(builder).current_type == old(builder).current_type,
        final(builder).file.name@ == old(builder).file.name@,
        final(builder).str_pos >= old(builder).str_pos,
        final(builder).file.code@.len() >= old(builder).file.code@.len(),
        forall|i: int|
            0 <= i < old(builder).file.code@.len() ==> final(builder).file.code@[i] == old(
                builder,
            ).file.code@[i],
        forall|i: int|
            old(builder).file.code@.len() <= i < final(builder).file.code@.len() ==> final(builder).file.code@[i].instr_type != LtacType::Func,
        final(builder).errors.errors@.len() >= old(builder).errors.errors@.len(),
        !r ==> final(builder).errors.errors@.len() > old(builder).errors.errors@.len(),
        plain_math_args(line.args@, old(builder).vars@) ==> {
            &&& r
            &&& errors_unchanged(*old(builder), *final(builder))
            &&& final(builder).str_pos == old(builder).str_pos
            &&& final(builder).file.code@.len() == old(builder).file.code@.len()
                + value_tokens(line.args@, line.args@.len() as int) + 1
            &&& math_args_lowered(
                line.args@,
                line.args@.len() as int,
                final(builder).file.code@,
                final(builder).file.code@.len() - 1,
                old(builder).vars@,
            )
            &&& (line.sub_args@.len() == 0 ==> is_op_instr(
                final(builder).file.code@.last(),
                LtacType::Mov,
                LtacArg::Mem(var.pos),
                LtacArg::Reg32(0),
            ))
            &&& ((line.sub_args@.len() == 1 && line.sub_args@[0].arg_type == AstArgType::IntL)
                ==> final(builder).file.code@.last().instr_type == LtacType::MovOffImm
                && final(builder).file.code@.last().arg1 == LtacArg::Mem(var.pos) && final(builder).file.code@.last().arg1_offset == scaled_offset(
                line.sub_args@[0].u64_val,
                4,
            ) && final(builder).file.code@.last().arg2 == LtacArg::Reg32(0))
        },
{
    let n = line.args.len();
    let mut cur_op = LtacType::Mov;
    let mut ai: usize = 0;
    let mut ok = true;
    while ai < n
        invariant
            builder_inv(*builder),
            n == line.args@.len(),
            0 <= ai <= n,
            cur_op == op_after(line.args@, ai as int),
            is_acc_op(cur_op),
            builder.blocks@ == old(builder).blocks@,
            builder.vars@ == old(builder).vars@,
            builder.stack_pos == old(builder).stack_pos,
            builder.functions@ == old(builder).functions@,
            builder.global_consts@ == old(builder).global_consts@,
            builder.current_func@ == old(builder).current_func@,
            builder.current_type == old(builder).current_type,
            builder.file.name@ == old(builder).file.name@,
            builder.str_pos >= old(builder).str_pos,
            builder.flt_pos >= old(builder).flt_pos,
            builder.file.data@.len() >= old(builder).file.data@.len(),
            forall|i: int|
                0 <= i < old(builder).file.data@.len() ==> builder.file.data@[i] == old(
                    builder,
                ).file.data@[i],
            builder.file.code@.len() >= old(builder).file.code@.len(),
            forall|i: int|
                0 <= i < old(builder).file.code@.len() ==> builder.file.code@[i] == old(
                    builder,
                ).file.code@[i],
            forall|i: int|
                old(builder).file.code@.len() <= i < builder.file.code@.len() ==> builder.file.code@[i].instr_type
                    != LtacType::Func,
            builder.errors.errors@.len() >= old(builder).errors.errors@.len(),
            !ok ==> builder.errors.errors@.len() > old(builder).errors.errors@.len(),
            plain_math_args(line.args@, old(builder).vars@) ==> {
                &&& ok
                &&& builder.str_pos == old(builder).str_pos
                &&& builder.file.code@.len() == old(builder).file.code@.len() + value_tokens(
                    line.args@,
                    ai as int,
                )
                &&& math_args_lowered(
                    line.args@,
                    ai as int,
                    builder.file.code@,
                    builder.file.code@.len() as int,
                    old(builder).vars@,
                )
                &&& errors_unchanged(*old(builder), *builder)
            },
        decreases n - ai,
    {
        let arg = &line.args[ai];
        let ghost code_pre = builder.file.code@;
        match arg.arg_type {
            AstArgType::IntL => {
                let mut out = create_instr(cur_op);
                out.arg1 = LtacArg::Reg32(0);
                out.arg2 = LtacArg::I32(#[verifier::truncate] (arg.u64_val as i32));
                builder.emit(out);
            },
            AstArgType::StringL => {},
            AstArgType::Id => {
                match crate::ltac_builder::var_lookup(&builder.vars, &arg.str_val) {
                    Some(v) => {
                        let mut out = create_instr(cur_op);
                        out.arg1 = LtacArg::Reg32(0);
                        out.arg2 = LtacArg::Mem(v.pos);
                        builder.emit(out);
                    },
                    None => {
                        match crate::ltac_builder::func_lookup(&builder.functions, &arg.str_val) {
                            Some(t) => {
                                let mut stmt = crate::ast::create_orphan_stmt(
                                    crate::ast::AstStmtType::FuncCall,
                                );
                                stmt.name = arg.str_val.clone();
                                stmt.args = clone_args(&arg.sub_args);
                                let call_ok = build_func_call(builder, &stmt);
                                if !call_ok {
                                    ok = false;
                                }
                                let mut out = create_instr(cur_op);
                                out.arg1 = LtacArg::Reg32(0);
                                if matches!(t, DataType::Int) {
                                    out.arg2 = LtacArg::RetRegI32;
                                }
                                builder.emit(out);
                            },
                            None => {
                                builder.errors.add(
                                    BuildErrorKind::UnknownIdentifier,
                                    arg.str_val.clone(),
                                    line.line_no,
                                );
                                let mut out = create_instr(cur_op);
                                out.arg1 = LtacArg::Reg32(0);
                                out.arg2 = LtacArg::Mem(0);
                                builder.emit(out);
                            },
                        }
                    },
                }
            },
            AstArgType::OpAdd => {
                cur_op = LtacType::I32Add;
            },
            AstArgType::OpSub => {
                cur_op = LtacType::I32Sub;
            },
            AstArgType::OpMul => {
                cur_op = LtacType::I32Mul;
            },
            AstArgType::OpDiv => {
                cur_op = LtacType::I32Div;
            },
            AstArgType::OpMod => {
                cur_op = LtacType::I32Mod;
            },
            AstArgType::OpAnd => {
                cur_op = LtacType::I32And;
            },
            AstArgType::OpOr => {
                cur_op = LtacType::I32Or;
            },
            AstArgType::OpXor => {
                cur_op = LtacType::I32Xor;
            },
            AstArgType::OpLeftShift => {
                cur_op = LtacType::I32Lsh;
            },
            AstArgType::OpRightShift => {
                cur_op = LtacType::I32Rsh;
            },
            _ => {},
        }
        proof {
            assert(cur_op == op_after(line.args@, ai as int + 1));
            assert(value_tokens(line.args@, ai as int + 1) == value_tokens(line.args@, ai as int)
                + (if line.args@[ai as int].arg_type == AstArgType::IntL
                || line.args@[ai as int].arg_type == AstArgType::Id {
                1int
            } else {
                0int
            }));
            if plain_math_args(line.args@, old(builder).vars@) && ok {
                lemma_math_args_stable(
                    line.args@,
                    ai as int,
                    code_pre,
                    code_pre.len() as int,
                    old(builder).vars@,
                    builder.file.code@,
                );
                assert(math_args_lowered(
                    line.args@,
                    ai + 1,
                    builder.file.code@,
                    builder.file.code@.len() as int,
                    old(builder).vars@,
                ));
            }
        }
        ai = ai + 1;
    }

    // store the accumulator back to the target
    let ghost code_pre2 = builder.file.code@;
    let mut instr = create_instr(LtacType::Mov);
    instr.arg1 = LtacArg::Mem(var.pos);
    instr.arg2 = LtacArg::Reg32(0);

    if line.sub_args.len() == 1 {
        let first_arg = &line.sub_args[0];
        if matches!(first_arg.arg_type, AstArgType::IntL) {
            instr.instr_type = LtacType::MovOffImm;
            let imm32: i32 = #[verifier::truncate] (first_arg.u64_val as i32);
            let off64: i64 = (imm32 as i64) * 4;
            instr.arg1_offset = #[verifier::truncate] (off64 as i32);
            proof {
                assert(off64 == ((first_arg.u64_val as i32) as i64) * 4);
                assert(instr.arg1_offset == scaled_offset(first_arg.u64_val, 4));
            }
        } else if matches!(first_arg.arg_type, AstArgType::Id) {
            instr.instr_type = LtacType::MovOffMem;
            instr.arg1_offset_size = 4;
            match crate::ltac_builder::var_lookup(&builder.vars, &first_arg.str_val) {
                Some(v) => {
                    instr.arg1_offset = v.pos;
                },
                None => {
                    instr.arg1_offset = 0;
                },
            }
        }
    }
    builder.emit(instr);
    proof {
        if plain_math_args(line.args@, old(builder).vars@) {
            lemma_math_args_stable(
                line.args@,
                n as int,
                code_pre2,
                code_pre2.len() as int,
                old(builder).vars@,
                builder.file.code@,
            );
        }
    }
    ok
}

/// The stack bytes the parameter list claims: the sum of the declared
/// widths of the first `k` parameters.
pub open spec fn params_width(args: Seq<AstStmt>, k: int) -> int
    decreases k,
{
    if k <= 0 || k > args.len() {
        0
    } else {
        params_width(args, k - 1) + if args[k - 1].modifiers@.len() > 0 {
            type_width(datatype_of(args[k - 1].modifiers@[0].mod_type))
        } else {
            0
        }
    }
}

/// The symbol-table entries the parameter list binds: each parameter
/// at the slot its width advanced the high-water mark to.
pub open spec fn params_vars(args: Seq<AstStmt>, k: int, base: int) -> Seq<(String, Var)>
    decreases k,
{
    if k <= 0 || k > args.len() {
        Seq::empty()
    } else {
        params_vars(args, k - 1, base).push(
            (args[k - 1].name, Var {
                pos: (base + params_width(args, k)) as i32,
                data_type: datatype_of(args[k - 1].modifiers@[0].mod_type),
                is_param: true,
            }),
        )
    }
}

/// The stack bytes the body's declarations claim: the sum of the
/// declared widths over the first `k` statements that declare a
/// variable.
pub open spec fn locals_width(stmts: Seq<AstStmt>, k: int) -> int
    decreases k,
{
    if k <= 0 || k > stmts.len() {
        0
    } else {
        locals_width(stmts, k - 1) + if stmts[k - 1].stmt_type == crate::ast::AstStmtType::VarDec
            && stmts[k - 1].modifiers@.len() > 0 {
            type_width(datatype_of(stmts[k - 1].modifiers@[0].mod_type))
        } else {
            0
        }
    }
}

/// Holds when the first `k` parameters have been lowered, their
/// argument loads ending at code index `ci`: loads appear in source
/// order, and each carries the next position of its register class —
/// `arg_no` for the integer class, `flt_no` for floats.
pub open spec fn params_loaded(
    args: Seq<AstStmt>,
    k: int,
    code: Seq<LtacInstr>,
    ci: int,
    arg_no: int,
    flt_no: int,
) -> bool
    decreases k,
{
    if k <= 0 {
        true
    } else if k > args.len() {
        false
    } else if args[k - 1].modifiers@.len() == 0 {
        false
    } else {
        let dt = datatype_of(args[k - 1].modifiers@[0].mod_type);
        if ldarg_op_for(dt) == LtacType::Nop {
            if is_float_type(dt) {
                params_loaded(args, k - 1, code, ci, arg_no, flt_no - 1)
            } else {
                params_loaded(args, k - 1, code, ci, arg_no - 1, flt_no)
            }
        } else if is_float_type(dt) {
            &&& ci >= 1
            &&& 0 <= ci - 1 < code.len()
            &&& code[ci - 1].instr_type == ldarg_op_for(dt)
            &&& code[ci - 1].arg2_val == flt_no - 1
            &&& params_loaded(args, k - 1, code, ci - 1, arg_no, flt_no - 1)
        } else {
            &&& ci >= 1
            &&& 0 <= ci - 1 < code.len()
            &&& code[ci - 1].instr_type == ldarg_op_for(dt)
            &&& code[ci - 1].arg2_val == arg_no - 1
            &&& params_loaded(args, k - 1, code, ci - 1, arg_no - 1, flt_no)
        }
    }
}

/// The loaded-parameters relation reads the stream only below its
/// cursor, so extending the stream leaves it intact.
pub proof fn lemma_params_stable(
    args: Seq<AstStmt>,
    k: int,
    code1: Seq<LtacInstr>,
    ci: int,
    arg_no: int,
    flt_no: int,
    code2: Seq<LtacInstr>,
)
    requires
        params_loaded(args, k, code1, ci, arg_no, flt_no),
        0 <= ci <= code1.len(),
        ci <= code2.len(),
        forall|l: int| 0 <= l < ci ==> code2[l] == code1[l],
    ensures
        params_loaded(args, k, code2, ci, arg_no, flt_no),
    decreases k,
{
    if k <= 0 {
    } else if k > args.len() {
    } else if args[k - 1].modifiers@.len() == 0 {
    } else {
        let dt = datatype_of(args[k - 1].modifiers@[0].mod_type);
        if ldarg_op_for(dt) == LtacType::Nop {
            if is_float_type(dt) {
                lemma_params_stable(args, k - 1, code1, ci, arg_no, flt_no - 1, code2);
            } else {
                lemma_params_stable(args, k - 1, code1, ci, arg_no - 1, flt_no, code2);
            }
        } else if is_float_type(dt) {
            lemma_params_stable(args, k - 1, code1, ci - 1, arg_no, flt_no - 1, code2);
        } else {
            lemma_params_stable(args, k - 1, code1, ci - 1, arg_no - 1, flt_no, code2);
        }
    }
}

} // verus!
