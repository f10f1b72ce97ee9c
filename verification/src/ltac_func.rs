//! Lowering of calls, returns, and block ends.
//!
//! A call pushes each argument with its 1-based position, then the
//! call itself; the built-in `syscall` uses the kernel argument
//! convention.  A block end closes the innermost open frame: for an
//! `if` chain it places the pending labels, for a `while` it flushes
//! the buffered comparison block.  At function level it guarantees a
//! trailing `Ret`.

use vstd::prelude::*;

use crate::ast::{string_eq, AstArg, AstArgType, AstStmt};
use crate::blocks::{frame_ids, lemma_append_block, lemma_pop_frame, BlockFrame};
use crate::errors::BuildErrorKind;
use crate::labels::str_label_text;
use crate::ltac::{create_instr, LtacArg, LtacData, LtacDataType, LtacInstr, LtacType};
use crate::ltac_builder::{
    builder_inv, data_unchanged, errors_unchanged, id_fresh, is_label_named, lowering_frame,
    tables_unchanged, LtacBuilder, Var, LABEL_LIMIT,
};
use crate::ltac_flow::{cond_operand, var_slot};

verus! {

/// An argument-push instruction: operation, operand, 1-based slot.
pub open spec fn is_push_instr(i: LtacInstr, op: LtacType, a1: LtacArg, arg_no: int) -> bool {
    &&& i.instr_type == op
    &&& i.name@ == Seq::<char>::empty()
    &&& i.arg1 == a1
    &&& i.arg2 is Empty
    &&& i.arg2_val == arg_no
}

/// A call instruction of the given kind to the given symbol.
pub open spec fn is_call_instr(i: LtacInstr, op: LtacType, name: Seq<char>) -> bool {
    &&& i.instr_type == op
    &&& i.name@ == name
    &&& i.arg1 is Empty
    &&& i.arg2 is Empty
}

/// Holds when the first `ai` argument tokens have been lowered, the
/// lowered pushes ending at code index `ci`, the built strings ending
/// at data index `di`, with `arg_no` the next argument slot and `sid`
/// the next string label value.  Literals push immediates, string
/// literals push a pointer to a fresh data entry holding the text
/// verbatim, identifiers push their stack slot; other tokens push
/// nothing but still advance the slot.
pub open spec fn call_args_lowered(
    args: Seq<AstArg>,
    ai: int,
    code: Seq<LtacInstr>,
    ci: int,
    data: Seq<LtacData>,
    di: int,
    arg_no: int,
    sid: int,
    vars: Seq<(String, Var)>,
    push_op: LtacType,
) -> bool
    decreases ai,
{
    if ai <= 0 {
        true
    } else if ai > args.len() {
        false
    } else {
        let a = args[ai - 1];
        if a.arg_type == AstArgType::IntL {
            &&& ci >= 1
            &&& 0 <= ci - 1 < code.len()
            &&& is_push_instr(code[ci - 1], push_op, LtacArg::I32(a.u64_val as i32), arg_no - 1)
            &&& call_args_lowered(args, ai - 1, code, ci - 1, data, di, arg_no - 1, sid, vars, push_op)
        } else if a.arg_type == AstArgType::StringL {
            &&& ci >= 1 && di >= 1 && sid >= 1
            &&& 0 <= ci - 1 < code.len()
            &&& 0 <= di - 1 < data.len()
            &&& code[ci - 1].instr_type == push_op
            &&& code[ci - 1].arg2_val == arg_no - 1
            &&& (code[ci - 1].arg1 matches LtacArg::PtrLcl(n) && n@ == str_label_text(sid - 1))
            &&& data[di - 1].data_type == LtacDataType::StringL
            &&& data[di - 1].name@ == str_label_text(sid - 1)
            &&& data[di - 1].val@ == a.str_val@
            &&& call_args_lowered(args, ai - 1, code, ci - 1, data, di - 1, arg_no - 1, sid - 1, vars, push_op)
        } else if a.arg_type == AstArgType::Id {
            &&& ci >= 1
            &&& 0 <= ci - 1 < code.len()
            &&& is_push_instr(
                code[ci - 1],
                push_op,
                LtacArg::Mem(var_slot(vars, a.str_val@) as i32),
                arg_no - 1,
            )
            &&& call_args_lowered(args, ai - 1, code, ci - 1, data, di, arg_no - 1, sid, vars, push_op)
        } else {
            call_args_lowered(args, ai - 1, code, ci, data, di, arg_no - 1, sid, vars, push_op)
        }
    }
}

/// The lowered-arguments relation reads the stream and data section
/// only below its cursors, so extending either leaves it intact.
pub proof fn lemma_call_args_stable(
    args: Seq<AstArg>,
    ai: int,
    code1: Seq<LtacInstr>,
    ci: int,
    data1: Seq<LtacData>,
    di: int,
    arg_no: int,
    sid: int,
    vars: Seq<(String, Var)>,
    push_op: LtacType,
    code2: Seq<LtacInstr>,
    data2: Seq<LtacData>,
)
    requires
        call_args_lowered(args, ai, code1, ci, data1, di, arg_no, sid, vars, push_op),
        0 <= ci <= code1.len(),
        0 <= di <= data1.len(),
        ci <= code2.len(),
        di <= data2.len(),
        forall|l: int| 0 <= l < ci ==> code2[l] == code1[l],
        forall|l: int| 0 <= l < di ==> data2[l] == data1[l],
    ensures
        call_args_lowered(args, ai, code2, ci, data2, di, arg_no, sid, vars, push_op),
    decreases ai,
{
    if ai <= 0 {
    } else if ai > args.len() {
    } else {
        let a = args[ai - 1];
        if a.arg_type == AstArgType::IntL {
            lemma_call_args_stable(
                args, ai - 1, code1, ci - 1, data1, di, arg_no - 1, sid, vars, push_op, code2,
                data2,
            );
        } else if a.arg_type == AstArgType::StringL {
            lemma_call_args_stable(
                args, ai - 1, code1, ci - 1, data1, di - 1, arg_no - 1, sid - 1, vars, push_op,
                code2, data2,
            );
        } else if a.arg_type == AstArgType::Id {
            lemma_call_args_stable(
                args, ai - 1, code1, ci - 1, data1, di, arg_no - 1, sid, vars, push_op, code2,
                data2,
            );
        } else {
            lemma_call_args_stable(
                args, ai - 1, code1, ci, data1, di, arg_no - 1, sid, vars, push_op, code2, data2,
            );
        }
    }
}

/// Lowers a function call statement.
///
/// On success the stream gains one push per literal, string, or
/// identifier argument — each carrying its 1-based position — and one
/// final `Call` (or `Syscall` for the built-in `syscall`); each string
/// argument also gains a data entry.  Fails only when the label or
/// argument budget would be exhausted.
pub fn build_func_call(builder: &mut LtacBuilder, line: &AstStmt) -> (r: bool)
    requires
        builder_inv(*old(builder)),
    ensures
        builder_inv(*final(builder)),
        tables_unchanged(*old(builder), *final(builder)),
        lowering_frame(*old(builder), *final(builder)),
        final(builder).blocks@ == old(builder).blocks@,
        final(builder).file.name@ == old(builder).file.name@,
        final(builder).flt_pos == old(builder).flt_pos,
        !r ==> final(builder).file.code@ == old(builder).file.code@ && final(builder).file.data@ == old(builder).file.data@,
        r == (line.args@.len() < 0x7FFF_0000 && old(builder).str_pos < LABEL_LIMIT && (
        LABEL_LIMIT - old(builder).str_pos) as int >= line.args@.len()),
        final(builder).str_pos as int <= old(builder).str_pos as int + line.args@.len(),
        r ==> ({
            let push_op = if line.name@ == "syscall"@ {
                LtacType::KPushArg
            } else {
                LtacType::PushArg
            };
            let call_op = if line.name@ == "syscall"@ {
                LtacType::Syscall
            } else {
                LtacType::Call
            };
            &&& final(builder).file.code@.len() >= old(builder).file.code@.len() + 1
            &&& forall|i: int|
                0 <= i < old(builder).file.code@.len() ==> final(builder).file.code@[i] == old(
                    builder,
                ).file.code@[i]
            &&& forall|i: int|
                0 <= i < old(builder).file.data@.len() ==> final(builder).file.data@[i] == old(
                    builder,
                ).file.data@[i]
            &&& is_call_instr(final(builder).file.code@.last(), call_op, line.name@)
            &&& call_args_lowered(
                line.args@,
                line.args@.len() as int,
                final(builder).file.code@,
                final(builder).file.code@.len() - 1,
                final(builder).file.data@,
                final(builder).file.data@.len() as int,
                1 + line.args@.len() as int,
                final(builder).str_pos as int,
                old(builder).vars@,
                push_op,
            )
            &&& errors_unchanged(*old(builder), *final(builder))
        }),
        !r ==> final(builder).errors.errors@.len() == old(builder).errors.errors@.len() + 1,
{
    let is_sys = string_eq(&line.name, &String::from_str("syscall"));
    proof {
        reveal_strlit("syscall");
    }
    let n = line.args.len();
    if n >= 0x7FFF_0000usize {
        builder.errors.add(BuildErrorKind::UnsupportedOperation, line.name.clone(), line.line_no);
        return false;
    }
    if builder.str_pos >= LABEL_LIMIT || ((LABEL_LIMIT - builder.str_pos) as usize) < n {
        builder.errors.add(BuildErrorKind::UnsupportedOperation, line.name.clone(), line.line_no);
        return false;
    }
    let ghost push_op = if line.name@ == "syscall"@ {
        LtacType::KPushArg
    } else {
        LtacType::PushArg
    };
    let mut arg_no: i32 = 1;
    let mut ai: usize = 0;
    while ai < n
        invariant
            builder_inv(*builder),
            n == line.args@.len(),
            n < 0x7FFF_0000usize,
            is_sys == (line.name@ == "syscall"@),
            push_op == (if line.name@ == "syscall"@ {
                LtacType::KPushArg
            } else {
                LtacType::PushArg
            }),
            0 <= ai <= n,
            arg_no as int == 1 + ai as int,
            (LABEL_LIMIT as int) - (builder.str_pos as int) >= n - ai,
            builder.str_pos >= old(builder).str_pos,
            builder.str_pos as int <= old(builder).str_pos as int + ai as int,
            tables_unchanged(*old(builder), *builder),
            builder.blocks@ == old(builder).blocks@,
            builder.file.name@ == old(builder).file.name@,
            builder.flt_pos == old(builder).flt_pos,
            errors_unchanged(*old(builder), *builder),
            builder.file.code@.len() >= old(builder).file.code@.len(),
            builder.file.data@.len() >= old(builder).file.data@.len(),
            forall|i: int|
                0 <= i < old(builder).file.code@.len() ==> builder.file.code@[i] == old(
                    builder,
                ).file.code@[i],
            forall|i: int|
                0 <= i < old(builder).file.data@.len() ==> builder.file.data@[i] == old(
                    builder,
                ).file.data@[i],
            forall|i: int|
                old(builder).file.code@.len() <= i < builder.file.code@.len() ==> (
                #[trigger] builder.file.code@[i]).instr_type != LtacType::Func,
            call_args_lowered(
                line.args@,
                ai as int,
                builder.file.code@,
                builder.file.code@.len() as int,
                builder.file.data@,
                builder.file.data@.len() as int,
                arg_no as int,
                builder.str_pos as int,
                old(builder).vars@,
                push_op,
            ),
        decreases n - ai,
    {
        let arg = &line.args[ai];
        let ghost code_pre = builder.file.code@;
        let ghost data_pre = builder.file.data@;
        let ghost sid_pre = builder.str_pos as int;
        let op = if is_sys {
            LtacType::KPushArg
        } else {
            LtacType::PushArg
        };
        match arg.arg_type {
            AstArgType::IntL => {
                let mut push = create_instr(op);
                push.arg1 = LtacArg::I32(#[verifier::truncate] (arg.u64_val as i32));
                push.arg2_val = arg_no;
                builder.emit(push);
            },
            AstArgType::StringL => {
                let name = builder.build_string(arg.str_val.clone());
                let mut push = create_instr(op);
                push.arg1 = LtacArg::PtrLcl(name);
                push.arg2_val = arg_no;
                builder.emit(push);
            },
            AstArgType::Id => {
                let mut push = create_instr(op);
                push.arg2_val = arg_no;
                match crate::ltac_builder::var_lookup(&builder.vars, &arg.str_val) {
                    Some(v) => {
                        push.arg1 = LtacArg::Mem(v.pos);
                    },
                    None => {
                        push.arg1 = LtacArg::Mem(0);
                    },
                }
                builder.emit(push);
            },
            _ => {},
        }
        proof {
            lemma_call_args_stable(
                line.args@,
                ai as int,
                code_pre,
                code_pre.len() as int,
                data_pre,
                data_pre.len() as int,
                arg_no as int,
                sid_pre,
                old(builder).vars@,
                push_op,
                builder.file.code@,
                builder.file.data@,
            );
            assert(call_args_lowered(
                line.args@,
                ai + 1,
                builder.file.code@,
                builder.file.code@.len() as int,
                builder.file.data@,
                builder.file.data@.len() as int,
                arg_no + 1,
                builder.str_pos as int,
                old(builder).vars@,
                push_op,
            ));
        }
        arg_no = arg_no + 1;
        ai = ai + 1;
    }
    let ghost code_pre2 = builder.file.code@;
    let ghost data_pre2 = builder.file.data@;
    let mut fc = create_instr(
        if is_sys {
            LtacType::Syscall
        } else {
            LtacType::Call
        },
    );
    fc.name = line.name.clone();
    builder.emit(fc);
    proof {
        lemma_call_args_stable(
            line.args@,
            n as int,
            code_pre2,
            code_pre2.len() as int,
            data_pre2,
            data_pre2.len() as int,
            1 + n as int,
            builder.str_pos as int,
            old(builder).vars@,
            push_op,
            builder.file.code@,
            builder.file.data@,
        );
        assert(builder.file.name@ == old(builder).file.name@);
        assert(builder.str_pos >= old(builder).str_pos);
        assert(builder.flt_pos >= old(builder).flt_pos);
        assert(builder.file.code@.len() >= old(builder).file.code@.len());
        assert(forall|i: int|
            0 <= i < old(builder).file.code@.len() ==> builder.file.code@[i] == old(
                builder,
            ).file.code@[i]);
        assert(forall|i: int|
            old(builder).file.code@.len() <= i < builder.file.code@.len() ==> (
            #[trigger] builder.file.code@[i]).instr_type != LtacType::Func);
        assert(builder.file.data@.len() >= old(builder).file.data@.len());
        assert(forall|i: int|
            0 <= i < old(builder).file.data@.len() ==> builder.file.data@[i] == old(
                builder,
            ).file.data@[i]);
        assert(builder.errors.errors@.len() >= old(builder).errors.errors@.len());
    }
    true
}

/// Lowers a `return` statement: for one returned value, a move of the
/// value into the integer return register, then `Ret`.  Returning a
/// value from a void function records a type-mismatch diagnostic and
/// still emits the return, as the surrounding translation carries on.
pub fn build_return(builder: &mut LtacBuilder, line: &AstStmt) -> (r: bool)
    requires
        builder_inv(*old(builder)),
    ensures
        builder_inv(*final(builder)),
        r,
        tables_unchanged(*old(builder), *final(builder)),
        data_unchanged(*old(builder), *final(builder)),
        lowering_frame(*old(builder), *final(builder)),
        final(builder).blocks@ == old(builder).blocks@,
        final(builder).file.code@.last().instr_type == LtacType::Ret,
        (line.args@.len() == 1 && (line.args@[0].arg_type == AstArgType::IntL
            || line.args@[0].arg_type == AstArgType::Id)) ==> {
            &&& final(builder).file.code@.len() == old(builder).file.code@.len() + 2
            &&& forall|i: int|
                0 <= i < old(builder).file.code@.len() ==> final(builder).file.code@[i] == old(
                    builder,
                ).file.code@[i]
            &&& crate::ltac_flow::is_op_instr(
                final(builder).file.code@[final(builder).file.code@.len() - 2],
                LtacType::Mov,
                LtacArg::RetRegI32,
                cond_operand(old(builder).vars@, line.args@[0]),
            )
        },
        line.args@.len() == 0 ==> {
            &&& final(builder).file.code@.len() == old(builder).file.code@.len() + 1
            &&& forall|i: int|
                0 <= i < old(builder).file.code@.len() ==> final(builder).file.code@[i] == old(
                    builder,
                ).file.code@[i]
        },
        final(builder).file.code@.len() > old(builder).file.code@.len(),
        (line.args@.len() > 0 && old(builder).current_type == crate::ltac_builder::DataType::Void)
            ==> final(builder).errors.errors@.len() == old(builder).errors.errors@.len() + 1
            && final(builder).errors.errors@.last().kind
            == crate::errors::BuildErrorKind::TypeMismatch,
        (line.args@.len() == 0 || old(builder).current_type != crate::ltac_builder::DataType::Void)
            ==> errors_unchanged(*old(builder), *final(builder)),
{
    if line.args.len() > 0 && matches!(builder.current_type, crate::ltac_builder::DataType::Void) {
        builder.errors.add(
            BuildErrorKind::TypeMismatch,
            builder.current_func.clone(),
            line.line_no,
        );
    }
    if line.args.len() == 1 {
        let arg1 = &line.args[0];
        let mut mov = create_instr(LtacType::Mov);
        mov.arg1 = LtacArg::RetRegI32;
        match arg1.arg_type {
            AstArgType::IntL => {
                mov.arg2 = LtacArg::I32(#[verifier::truncate] (arg1.u64_val as i32));
                builder.emit(mov);
            },
            AstArgType::Id => {
                match crate::ltac_builder::var_lookup(&builder.vars, &arg1.str_val) {
                    Some(v) => {
                        mov.arg2 = LtacArg::Mem(v.pos);
                    },
                    None => {
                        mov.arg2 = LtacArg::Mem(0);
                    },
                }
                builder.emit(mov);
            },
            _ => {},
        }
    }
    let ret = create_instr(LtacType::Ret);
    builder.emit(ret);
    true
}

/// Lowers the end of a block.
///
/// With no open frame this is the end of a function body: when the
/// stream does not already end in `Ret`, one is appended, and a
/// missing-return diagnostic is recorded for non-void functions.
/// Otherwise the innermost frame closes: an `if` chain places its
/// pending next and end labels, an `else` its end label, and a `while`
/// flushes its buffered comparison block.
pub fn build_end(builder: &mut LtacBuilder) -> (r: bool)
    requires
        builder_inv(*old(builder)),
    ensures
        builder_inv(*final(builder)),
        r,
        tables_unchanged(*old(builder), *final(builder)),
        data_unchanged(*old(builder), *final(builder)),
        lowering_frame(*old(builder), *final(builder)),
        old(builder).blocks@.len() == 0 ==> {
            let was_ret = old(builder).file.code@.len() > 0 && old(
                builder,
            ).file.code@.last().instr_type == LtacType::Ret;
            &&& final(builder).blocks@ == old(builder).blocks@
            &&& final(builder).file.code@.len() > 0
            &&& final(builder).file.code@.last().instr_type == LtacType::Ret
            &&& (was_ret ==> final(builder).file.code@ == old(builder).file.code@
                && errors_unchanged(*old(builder), *final(builder)))
            &&& (old(builder).current_type == crate::ltac_builder::DataType::Void
                ==> errors_unchanged(*old(builder), *final(builder)))
            &&& (!was_ret && old(builder).current_type != crate::ltac_builder::DataType::Void
                ==> final(builder).errors.errors@.len() == old(builder).errors.errors@.len() + 1
                && final(builder).errors.errors@.last().kind
                == crate::errors::BuildErrorKind::MissingReturn)
            &&& forall|i: int|
                0 <= i < old(builder).file.code@.len() ==> final(builder).file.code@[i] == old(
                    builder,
                ).file.code@[i]
            &&& final(builder).file.code@.len() <= old(builder).file.code@.len() + 1
        },
        old(builder).blocks@.len() > 0 ==> {
            &&& final(builder).blocks@ == old(builder).blocks@.drop_last()
            &&& errors_unchanged(*old(builder), *final(builder))
            &&& forall|i: int|
                0 <= i < old(builder).file.code@.len() ==> final(builder).file.code@[i] == old(
                    builder,
                ).file.code@[i]
            &&& match old(builder).blocks@.last() {
                BlockFrame::IfFrame { end_id, next_id } => {
                    &&& final(builder).file.code@.len() == old(builder).file.code@.len() + 2
                    &&& is_label_named(
                        final(builder).file.code@[final(builder).file.code@.len() - 2],
                        next_id as int,
                    )
                    &&& is_label_named(final(builder).file.code@.last(), end_id as int)
                },
                BlockFrame::ElseFrame { end_id } => {
                    &&& final(builder).file.code@.len() == old(builder).file.code@.len() + 1
                    &&& is_label_named(final(builder).file.code@.last(), end_id as int)
                },
                BlockFrame::WhileFrame { buffered, .. } => final(builder).file.code@ == old(
                    builder,
                ).file.code@ + buffered@,
            }
        },
{
    let popped = builder.blocks.pop();
    match popped {
        None => {
            let len = builder.file.code.len();
            let needs_ret: bool = if len == 0 {
                true
            } else {
                !matches!(builder.file.code[len - 1].instr_type, LtacType::Ret)
            };
            if needs_ret {
                if !matches!(builder.current_type, crate::ltac_builder::DataType::Void) {
                    builder.errors.add(
                        BuildErrorKind::MissingReturn,
                        builder.current_func.clone(),
                        0,
                    );
                }
                let ret = create_instr(LtacType::Ret);
                builder.emit(ret);
            }
        },
        Some(BlockFrame::IfFrame { end_id, next_id }) => {
            proof {
                lemma_pop_frame(
                    builder.file.code@,
                    old(builder).blocks@,
                    builder.str_pos as int,
                );
                let f = old(builder).blocks@.last();
                assert(frame_ids(f) =~= seq![end_id as int, next_id as int]);
                assert(frame_ids(f)[0] == end_id as int);
                assert(frame_ids(f)[1] == next_id as int);
                assert(id_fresh(*builder, end_id as int));
                assert(id_fresh(*builder, next_id as int));
            }
            builder.emit_label(next_id);
            builder.emit_label(end_id);
        },
        Some(BlockFrame::ElseFrame { end_id }) => {
            proof {
                lemma_pop_frame(
                    builder.file.code@,
                    old(builder).blocks@,
                    builder.str_pos as int,
                );
                let f = old(builder).blocks@.last();
                assert(frame_ids(f) =~= seq![end_id as int]);
                assert(frame_ids(f)[0] == end_id as int);
                assert(id_fresh(*builder, end_id as int));
            }
            builder.emit_label(end_id);
        },
        Some(BlockFrame::WhileFrame { cmp_id, end_id, mut buffered }) => {
            proof {
                let f = old(builder).blocks@.last();
                assert(crate::blocks::while_frame_ok(f));
                lemma_pop_frame(
                    builder.file.code@,
                    old(builder).blocks@,
                    builder.str_pos as int,
                );
                assert(frame_ids(f) =~= seq![cmp_id as int, end_id as int]);
                assert(frame_ids(f)[0] == cmp_id as int);
                assert(frame_ids(f)[1] == end_id as int);
                assert(id_fresh(*builder, cmp_id as int));
                assert(id_fresh(*builder, end_id as int));
                lemma_append_block(
                    builder.file.code@,
                    builder.blocks@,
                    builder.str_pos as int,
                    buffered@,
                    cmp_id as int,
                    end_id as int,
                );
            }
            builder.file.code.append(&mut buffered);
        },
    }
    true
}

/// Lowers an `exit` statement to the exit intrinsic, carrying the
/// status token when one is given.
pub fn build_exit(builder: &mut LtacBuilder, line: &AstStmt) -> (r: bool)
    requires
        builder_inv(*old(builder)),
    ensures
        builder_inv(*final(builder)),
        r,
        lowering_frame(*old(builder), *final(builder)),
        tables_unchanged(*old(builder), *final(builder)),
        data_unchanged(*old(builder), *final(builder)),
        errors_unchanged(*old(builder), *final(builder)),
        final(builder).blocks@ == old(builder).blocks@,
        final(builder).file.code@.len() == old(builder).file.code@.len() + 1,
        forall|i: int|
            0 <= i < old(builder).file.code@.len() ==> final(builder).file.code@[i] == old(
                builder,
            ).file.code@[i],
        line.args@.len() > 0 ==> crate::ltac_flow::is_op_instr(
            final(builder).file.code@.last(),
            LtacType::Exit,
            cond_operand(old(builder).vars@, line.args@[0]),
            LtacArg::Empty,
        ),
        line.args@.len() == 0 ==> crate::ltac_flow::is_op_instr(
            final(builder).file.code@.last(),
            LtacType::Exit,
            LtacArg::Empty,
            LtacArg::Empty,
        ),
{
    let mut instr = create_instr(LtacType::Exit);
    if line.args.len() > 0 {
        let arg = &line.args[0];
        match arg.arg_type {
            AstArgType::IntL => {
                instr.arg1 = LtacArg::I32(#[verifier::truncate] (arg.u64_val as i32));
            },
            AstArgType::Id => {
                match crate::ltac_builder::var_lookup(&builder.vars, &arg.str_val) {
                    Some(v) => {
                        instr.arg1 = LtacArg::Mem(v.pos);
                    },
                    None => {
                        instr.arg1 = LtacArg::Mem(0);
                    },
                }
            },
            _ => {},
        }
    }
    builder.emit(instr);
    true
}

} // verus!
