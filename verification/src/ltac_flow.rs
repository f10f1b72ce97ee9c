//! Lowering of control flow: `if`/`elif`/`else`, `while`, `break`,
//! `continue`.
//!
//! An `if` guard branches *over* its body, so the emitted branch is the
//! negation of the written comparison.  A `while` loop jumps to its
//! comparison block, which is buffered on the frame and flushed when
//! the loop closes, and there the branch keeps the written polarity:
//! it jumps back to the body while the condition holds.

use vstd::prelude::*;

use crate::ast::{AstArg, AstArgType, AstStmt, AstStmtType};
use crate::blocks::{
    all_frame_ids, frame_ids, is_label_instr, label_inv, lemma_pop_frame, lemma_push_frame,
    BlockFrame,
};
use crate::errors::BuildErrorKind;
use crate::labels::{label_text, make_label};
use crate::ltac::{create_instr, LtacArg, LtacInstr, LtacType};
use crate::ltac_builder::{
    builder_inv, data_unchanged, errors_unchanged, id_fresh, is_label_named, lowering_frame,
    tables_unchanged, var_table_lookup, LtacBuilder, Var, LABEL_LIMIT,
};

verus! {

/// The branch that jumps when the written comparison *fails*: the
/// polarity used for `if` guards.
pub open spec fn inverted_branch_op(op: AstArgType) -> LtacType {
    match op {
        AstArgType::OpEq => LtacType::Bne,
        AstArgType::OpNeq => LtacType::Be,
        AstArgType::OpLt => LtacType::Bge,
        AstArgType::OpLte => LtacType::Bg,
        AstArgType::OpGt => LtacType::Ble,
        AstArgType::OpGte => LtacType::Bl,
        _ => LtacType::Br,
    }
}

/// The branch that jumps when the written comparison *holds*: the
/// polarity used for `while` back edges.
pub open spec fn direct_branch_op(op: AstArgType) -> LtacType {
    match op {
        AstArgType::OpEq => LtacType::Be,
        AstArgType::OpNeq => LtacType::Bne,
        AstArgType::OpLt => LtacType::Bl,
        AstArgType::OpLte => LtacType::Ble,
        AstArgType::OpGt => LtacType::Bg,
        AstArgType::OpGte => LtacType::Bge,
        _ => LtacType::Br,
    }
}

/// An instruction with the given operation and operands and no name.
pub open spec fn is_op_instr(i: LtacInstr, op: LtacType, a1: LtacArg, a2: LtacArg) -> bool {
    &&& i.instr_type == op
    &&& i.name@ == Seq::<char>::empty()
    &&& i.arg1 == a1
    &&& i.arg2 == a2
}

/// A branch of the given kind to the label with counter value `k`.
pub open spec fn is_branch_to(i: LtacInstr, op: LtacType, k: int) -> bool {
    &&& i.instr_type == op
    &&& i.name@ == label_text(k)
    &&& i.arg1 is Empty
    &&& i.arg2 is Empty
}

/// The comparison operand an `if` guard lowers a token to: literals
/// become immediates, identifiers their stack slot.
pub open spec fn cond_operand(vars: Seq<(String, Var)>, a: AstArg) -> LtacArg {
    if a.arg_type == AstArgType::IntL {
        LtacArg::I32(a.u64_val as i32)
    } else if a.arg_type == AstArgType::Id {
        match var_table_lookup(vars, a.str_val@) {
            Option::Some(v) => LtacArg::Mem(v.pos),
            Option::None => LtacArg::Mem(0),
        }
    } else {
        LtacArg::Empty
    }
}

/// The label targets of the innermost open loop, `(cmp, end)`.
pub open spec fn innermost_loop(frames: Seq<BlockFrame>) -> Option<(u32, u32)>
    decreases frames.len(),
{
    if frames.len() == 0 {
        Option::None
    } else {
        match frames.last() {
            BlockFrame::WhileFrame { cmp_id, end_id, .. } => Option::Some((cmp_id, end_id)),
            _ => innermost_loop(frames.drop_last()),
        }
    }
}

/// Finds the labels of the innermost open loop.
fn find_loop_labels(blocks: &Vec<BlockFrame>) -> (r: Option<(u32, u32)>)
    ensures
        r == innermost_loop(blocks@),
{
    let mut i: usize = blocks.len();
    proof {
        assert(blocks@.subrange(0, blocks@.len() as int) =~= blocks@);
    }
    while i > 0
        invariant
            i <= blocks@.len(),
            innermost_loop(blocks@) == innermost_loop(blocks@.subrange(0, i as int)),
        decreases i,
    {
        i = i - 1;
        proof {
            assert(blocks@.subrange(0, i + 1).drop_last() =~= blocks@.subrange(0, i as int));
            assert(blocks@.subrange(0, i + 1).last() == blocks@[i as int]);
        }
        match &blocks[i] {
            BlockFrame::WhileFrame { cmp_id, end_id, .. } => {
                return Some((*cmp_id, *end_id));
            },
            _ => {},
        }
    }
    proof {
        assert(blocks@.subrange(0, 0) =~= Seq::<BlockFrame>::empty());
    }
    None
}

/// Lowers `break`: an unconditional jump to the innermost loop's end
/// label.  Outside a loop a diagnostic is recorded instead.
pub fn build_break(builder: &mut LtacBuilder)
    requires
        builder_inv(*old(builder)),
    ensures
        builder_inv(*final(builder)),
        lowering_frame(*old(builder), *final(builder)),
        innermost_loop(old(builder).blocks@) matches Some(t) ==> {
            &&& final(builder).file.code@.len() == old(builder).file.code@.len() + 1
            &&& final(builder).file.code@ == old(builder).file.code@.push(
                final(builder).file.code@.last(),
            )
            &&& is_branch_to(final(builder).file.code@.last(), LtacType::Br, t.1 as int)
            &&& errors_unchanged(*old(builder), *final(builder))
        },
        innermost_loop(old(builder).blocks@) is None ==> {
            &&& final(builder).file.code@ == old(builder).file.code@
            &&& final(builder).errors.errors@.len() == old(builder).errors.errors@.len() + 1
            &&& final(builder).errors.errors@.last().kind
                == BuildErrorKind::UnsupportedOperation
        },
        tables_unchanged(*old(builder), *final(builder)),
        data_unchanged(*old(builder), *final(builder)),
        final(builder).blocks@ == old(builder).blocks@,
{
    match find_loop_labels(&builder.blocks) {
        Some((_cmp, end)) => {
            let mut br = create_instr(LtacType::Br);
            br.name = make_label(end);
            builder.emit(br);
        },
        None => {
            builder.errors.add(
                BuildErrorKind::UnsupportedOperation,
                String::new(),
                0,
            );
        },
    }
}

/// Lowers `continue`: an unconditional jump to the innermost loop's
/// comparison label.  Outside a loop a diagnostic is recorded instead.
pub fn build_continue(builder: &mut LtacBuilder)
    requires
        builder_inv(*old(builder)),
    ensures
        builder_inv(*final(builder)),
        lowering_frame(*old(builder), *final(builder)),
        innermost_loop(old(builder).blocks@) matches Some(t) ==> {
            &&& final(builder).file.code@.len() == old(builder).file.code@.len() + 1
            &&& final(builder).file.code@ == old(builder).file.code@.push(
                final(builder).file.code@.last(),
            )
            &&& is_branch_to(final(builder).file.code@.last(), LtacType::Br, t.0 as int)
            &&& errors_unchanged(*old(builder), *final(builder))
        },
        innermost_loop(old(builder).blocks@) is None ==> {
            &&& final(builder).file.code@ == old(builder).file.code@
            &&& final(builder).errors.errors@.len() == old(builder).errors.errors@.len() + 1
            &&& final(builder).errors.errors@.last().kind
                == BuildErrorKind::UnsupportedOperation
        },
        tables_unchanged(*old(builder), *final(builder)),
        data_unchanged(*old(builder), *final(builder)),
        final(builder).blocks@ == old(builder).blocks@,
{
    match find_loop_labels(&builder.blocks) {
        Some((cmp, _end)) => {
            let mut br = create_instr(LtacType::Br);
            br.name = make_label(cmp);
            builder.emit(br);
        },
        None => {
            builder.errors.add(
                BuildErrorKind::UnsupportedOperation,
                String::new(),
                0,
            );
        },
    }
}

/// Allocates a fresh label counter value.
pub fn create_label(builder: &mut LtacBuilder) -> (id: u32)
    requires
        builder_inv(*old(builder)),
        old(builder).str_pos < LABEL_LIMIT,
    ensures
        builder_inv(*final(builder)),
        id == old(builder).str_pos,
        final(builder).str_pos == old(builder).str_pos + 1,
        final(builder).flt_pos == old(builder).flt_pos,
        final(builder).file.code@ == old(builder).file.code@,
        final(builder).file.data@ == old(builder).file.data@,
        final(builder).file.name@ == old(builder).file.name@,
        tables_unchanged(*old(builder), *final(builder)),
        errors_unchanged(*old(builder), *final(builder)),
        final(builder).blocks@ == old(builder).blocks@,
        id_fresh(*final(builder), id as int),
{
    builder.next_label()
}

/// Builds the comparison instruction for an `if`/`elif` guard.
fn build_cond_cmp(builder: &LtacBuilder, line: &AstStmt) -> (cmp: LtacInstr)
    requires
        line.args@.len() >= 3,
    ensures
        is_op_instr(
            cmp,
            LtacType::I32Cmp,
            cond_operand(builder.vars@, line.args@[0]),
            cond_operand(builder.vars@, line.args@[2]),
        ),
{
    let mut cmp = create_instr(LtacType::I32Cmp);
    let arg1 = &line.args[0];
    match arg1.arg_type {
        AstArgType::IntL => {
            cmp.arg1 = LtacArg::I32(arg1.u64_val as i32);
        },
        AstArgType::Id => {
            match crate::ltac_builder::var_lookup(&builder.vars, &arg1.str_val) {
                Some(v) => {
                    cmp.arg1 = LtacArg::Mem(v.pos);
                },
                None => {
                    cmp.arg1 = LtacArg::Mem(0);
                },
            }
        },
        _ => {},
    }
    let arg2 = &line.args[2];
    match arg2.arg_type {
        AstArgType::IntL => {
            cmp.arg2 = LtacArg::I32(arg2.u64_val as i32);
        },
        AstArgType::Id => {
            match crate::ltac_builder::var_lookup(&builder.vars, &arg2.str_val) {
                Some(v) => {
                    cmp.arg2 = LtacArg::Mem(v.pos);
                },
                None => {
                    cmp.arg2 = LtacArg::Mem(0);
                },
            }
        },
        _ => {},
    }
    cmp
}

/// Lowers an `if`, `elif`, or `else` statement.
///
/// `if` opens a frame with an end label and a next label, then emits
/// the comparison and a branch of inverted polarity to the next label.
/// `elif` and `else` close the previous alternative: a jump to the end
/// label, then the pending next label; `elif` allocates a fresh next
/// label and emits its own guard.
pub fn build_cond(builder: &mut LtacBuilder, line: &AstStmt)
    requires
        builder_inv(*old(builder)),
    ensures
        builder_inv(*final(builder)),
        tables_unchanged(*old(builder), *final(builder)),
        lowering_frame(*old(builder), *final(builder)),
        final(builder).file.name@ == old(builder).file.name@,
        final(builder).file.data@ == old(builder).file.data@,
        final(builder).flt_pos == old(builder).flt_pos,
        ({
            let c0 = old(builder).file.code@;
            let n0 = c0.len() as int;
            let k_end = old(builder).str_pos as int;
            let k_next = k_end + 1;
            (line.stmt_type == AstStmtType::If && line.args@.len() >= 3
                && old(builder).str_pos + 2 <= LABEL_LIMIT) ==> {
                &&& final(builder).file.code@.len() == n0 + 2
                &&& forall|i: int| 0 <= i < n0 ==> final(builder).file.code@[i] == c0[i]
                &&& is_op_instr(
                    final(builder).file.code@[n0],
                    LtacType::I32Cmp,
                    cond_operand(old(builder).vars@, line.args@[0]),
                    cond_operand(old(builder).vars@, line.args@[2]),
                )
                &&& is_branch_to(
                    final(builder).file.code@[n0 + 1],
                    inverted_branch_op(line.args@[1].arg_type),
                    k_next,
                )
                &&& final(builder).blocks@ == old(builder).blocks@.push(
                    BlockFrame::IfFrame { end_id: old(builder).str_pos, next_id: (old(builder).str_pos + 1) as u32 },
                )
                &&& final(builder).str_pos == old(builder).str_pos + 2
                &&& errors_unchanged(*old(builder), *final(builder))
            }
        }),
        old(builder).blocks@.last() matches BlockFrame::IfFrame { end_id, next_id } ==> ({
            let c0 = old(builder).file.code@;
            let n0 = c0.len() as int;
            &&& ((line.stmt_type == AstStmtType::Elif && old(builder).blocks@.len() > 0
                && line.args@.len() >= 3 && old(builder).str_pos < LABEL_LIMIT) ==> {
                &&& final(builder).file.code@.len() == n0 + 4
                &&& forall|i: int| 0 <= i < n0 ==> final(builder).file.code@[i] == c0[i]
                &&& is_branch_to(final(builder).file.code@[n0], LtacType::Br, end_id as int)
                &&& is_label_named(final(builder).file.code@[n0 + 1], next_id as int)
                &&& is_op_instr(
                    final(builder).file.code@[n0 + 2],
                    LtacType::I32Cmp,
                    cond_operand(old(builder).vars@, line.args@[0]),
                    cond_operand(old(builder).vars@, line.args@[2]),
                )
                &&& is_branch_to(
                    final(builder).file.code@[n0 + 3],
                    inverted_branch_op(line.args@[1].arg_type),
                    old(builder).str_pos as int,
                )
                &&& final(builder).blocks@ == old(builder).blocks@.drop_last().push(
                    BlockFrame::IfFrame { end_id, next_id: old(builder).str_pos },
                )
                &&& final(builder).str_pos == old(builder).str_pos + 1
                &&& errors_unchanged(*old(builder), *final(builder))
            })
            &&& ((line.stmt_type == AstStmtType::Else && old(builder).blocks@.len() > 0) ==> {
                &&& final(builder).file.code@.len() == n0 + 2
                &&& forall|i: int| 0 <= i < n0 ==> final(builder).file.code@[i] == c0[i]
                &&& is_branch_to(final(builder).file.code@[n0], LtacType::Br, end_id as int)
                &&& is_label_named(final(builder).file.code@[n0 + 1], next_id as int)
                &&& final(builder).blocks@ == old(builder).blocks@.drop_last().push(
                    BlockFrame::ElseFrame { end_id },
                )
                &&& final(builder).str_pos == old(builder).str_pos
                &&& errors_unchanged(*old(builder), *final(builder))
            })
        }),
{
    if matches!(line.stmt_type, AstStmtType::If) {
        if builder.str_pos > LABEL_LIMIT - 2 {
            builder.errors.add(
                BuildErrorKind::UnsupportedOperation,
                String::new(),
                line.line_no,
            );
            return ;
        }
        let end_id = builder.next_label();
        let next_id = builder.next_label();
        let frame = BlockFrame::IfFrame { end_id, next_id };
        proof {
            assert(frame_ids(frame) =~= seq![end_id as int, next_id as int]);
            assert forall|a: int|
                0 <= a < frame_ids(frame).len() implies crate::blocks::value_fresh_for_code(
                builder.file.code@,
                #[trigger] frame_ids(frame)[a],
            ) && crate::blocks::value_fresh_for_ids(
                all_frame_ids(builder.blocks@),
                frame_ids(frame)[a],
            ) by {
                assert(id_fresh(*builder, end_id as int));
                assert(id_fresh(*builder, next_id as int));
            }
            lemma_push_frame(
                builder.file.code@,
                builder.blocks@,
                builder.str_pos as int,
                frame,
            );
        }
        builder.blocks.push(frame);
        if line.args.len() < 3 {
            builder.errors.add(
                BuildErrorKind::UnsupportedOperation,
                String::new(),
                line.line_no,
            );
            return ;
        }
        let cmp = build_cond_cmp(builder, line);
        builder.emit(cmp);
        let op = line.args[1].arg_type;
        let mut br = create_instr(
            match op {
                AstArgType::OpEq => LtacType::Bne,
                AstArgType::OpNeq => LtacType::Be,
                AstArgType::OpLt => LtacType::Bge,
                AstArgType::OpLte => LtacType::Bg,
                AstArgType::OpGt => LtacType::Ble,
                AstArgType::OpGte => LtacType::Bl,
                _ => LtacType::Br,
            },
        );
        br.name = make_label(next_id);
        builder.emit(br);
    } else {
        // elif / else: close the previous alternative
        let popped = builder.blocks.pop();
        let (end_id, next_id) = match popped {
            Some(BlockFrame::IfFrame { end_id, next_id }) => {
                proof {
                    lemma_pop_frame(
                        builder.file.code@,
                        old(builder).blocks@,
                        builder.str_pos as int,
                    );
                    let f = old(builder).blocks@.last();
                    assert(frame_ids(f) =~= seq![end_id as int, next_id as int]);
                    assert(frame_ids(f)[0] == end_id as int);
                    assert(frame_ids(f)[1] == next_id as int);
                    assert(id_fresh(*builder, end_id as int));
                    assert(id_fresh(*builder, next_id as int));
                }
                (end_id, next_id)
            },
            Some(other) => {
                // not inside an if chain: restore and report
                builder.blocks.push(other);
                proof {
                    assert(builder.blocks@ =~= old(builder).blocks@);
                }
                builder.errors.add(
                    BuildErrorKind::UnsupportedOperation,
                    String::new(),
                    line.line_no,
                );
                return ;
            },
            None => {
                builder.errors.add(
                    BuildErrorKind::UnsupportedOperation,
                    String::new(),
                    line.line_no,
                );
                return ;
            },
        };
        let mut jmp = create_instr(LtacType::Br);
        jmp.name = make_label(end_id);
        builder.emit(jmp);
        builder.emit_label(next_id);
        if matches!(line.stmt_type, AstStmtType::Else) {
            let frame = BlockFrame::ElseFrame { end_id };
            proof {
                assert(frame_ids(frame) =~= seq![end_id as int]);
                assert forall|a: int|
                    0 <= a < frame_ids(frame).len() implies crate::blocks::value_fresh_for_code(
                    builder.file.code@,
                    #[trigger] frame_ids(frame)[a],
                ) && crate::blocks::value_fresh_for_ids(
                    all_frame_ids(builder.blocks@),
                    frame_ids(frame)[a],
                ) by {
                    assert(id_fresh(*builder, end_id as int));
                }
                lemma_push_frame(
                    builder.file.code@,
                    builder.blocks@,
                    builder.str_pos as int,
                    frame,
                );
            }
            builder.blocks.push(frame);
            return ;
        }
        // elif: allocate the next alternative's label and emit the guard
        if builder.str_pos >= LABEL_LIMIT {
            let frame = BlockFrame::ElseFrame { end_id };
            proof {
                assert(frame_ids(frame) =~= seq![end_id as int]);
                assert forall|a: int|
                    0 <= a < frame_ids(frame).len() implies crate::blocks::value_fresh_for_code(
                    builder.file.code@,
                    #[trigger] frame_ids(frame)[a],
                ) && crate::blocks::value_fresh_for_ids(
                    all_frame_ids(builder.blocks@),
                    frame_ids(frame)[a],
                ) by {
                    assert(id_fresh(*builder, end_id as int));
                }
                lemma_push_frame(
                    builder.file.code@,
                    builder.blocks@,
                    builder.str_pos as int,
                    frame,
                );
            }
            builder.blocks.push(frame);
            builder.errors.add(
                BuildErrorKind::UnsupportedOperation,
                String::new(),
                line.line_no,
            );
            return ;
        }
        let next2 = builder.next_label();
        let frame = BlockFrame::IfFrame { end_id, next_id: next2 };
        proof {
            assert(frame_ids(frame) =~= seq![end_id as int, next2 as int]);
            assert forall|a: int|
                0 <= a < frame_ids(frame).len() implies crate::blocks::value_fresh_for_code(
                builder.file.code@,
                #[trigger] frame_ids(frame)[a],
            ) && crate::blocks::value_fresh_for_ids(
                all_frame_ids(builder.blocks@),
                frame_ids(frame)[a],
            ) by {
                assert(id_fresh(*builder, end_id as int));
                assert(id_fresh(*builder, next2 as int));
            }
            lemma_push_frame(
                builder.file.code@,
                builder.blocks@,
                builder.str_pos as int,
                frame,
            );
        }
        builder.blocks.push(frame);
        if line.args.len() < 3 {
            builder.errors.add(
                BuildErrorKind::UnsupportedOperation,
                String::new(),
                line.line_no,
            );
            return ;
        }
        let cmp = build_cond_cmp(builder, line);
        builder.emit(cmp);
        let op = line.args[1].arg_type;
        let mut br = create_instr(
            match op {
                AstArgType::OpEq => LtacType::Bne,
                AstArgType::OpNeq => LtacType::Be,
                AstArgType::OpLt => LtacType::Bge,
                AstArgType::OpLte => LtacType::Bg,
                AstArgType::OpGt => LtacType::Ble,
                AstArgType::OpGte => LtacType::Bl,
                _ => LtacType::Br,
            },
        );
        br.name = make_label(next2);
        builder.emit(br);
    }
}

/// The left comparison operand of a `while` guard: identifiers are
/// first loaded into virtual register 0.
pub open spec fn while_operand1(a: AstArg) -> LtacArg {
    if a.arg_type == AstArgType::IntL {
        LtacArg::I32(a.u64_val as i32)
    } else if a.arg_type == AstArgType::Id {
        LtacArg::Reg32(0)
    } else {
        LtacArg::Empty
    }
}

/// The right comparison operand of a `while` guard: identifiers are
/// first loaded into virtual register 1.
pub open spec fn while_operand2(a: AstArg) -> LtacArg {
    if a.arg_type == AstArgType::IntL {
        LtacArg::I32(a.u64_val as i32)
    } else if a.arg_type == AstArgType::Id {
        LtacArg::Reg32(1)
    } else {
        LtacArg::Empty
    }
}

/// The stack slot an identifier denotes, slot 0 when undeclared.
pub open spec fn var_slot(vars: Seq<(String, Var)>, name: Seq<char>) -> int {
    match var_table_lookup(vars, name) {
        Option::Some(v) => v.pos as int,
        Option::None => 0,
    }
}

/// Lowers a `while` statement: a jump to the comparison label, the
/// body label, and a buffered comparison block that is flushed when
/// the loop closes.  The back-edge branch keeps the written polarity.
pub fn build_while(builder: &mut LtacBuilder, line: &AstStmt)
    requires
        builder_inv(*old(builder)),
    ensures
        builder_inv(*final(builder)),
        tables_unchanged(*old(builder), *final(builder)),
        lowering_frame(*old(builder), *final(builder)),
        final(builder).file.name@ == old(builder).file.name@,
        final(builder).file.data@ == old(builder).file.data@,
        final(builder).flt_pos == old(builder).flt_pos,
        ({
            let c0 = old(builder).file.code@;
            let n0 = c0.len() as int;
            let k_cmp = old(builder).str_pos as int;
            let k_body = k_cmp + 1;
            let k_end = k_cmp + 2;
            (line.args@.len() >= 3 && old(builder).str_pos + 3 <= LABEL_LIMIT) ==> {
                &&& final(builder).str_pos == old(builder).str_pos + 3
                &&& final(builder).file.code@.len() == n0 + 2
                &&& forall|i: int| 0 <= i < n0 ==> final(builder).file.code@[i] == c0[i]
                &&& is_branch_to(final(builder).file.code@[n0], LtacType::Br, k_cmp)
                &&& is_label_named(final(builder).file.code@[n0 + 1], k_body)
                &&& final(builder).blocks@.len() == old(builder).blocks@.len() + 1
                &&& forall|i: int|
                    0 <= i < old(builder).blocks@.len() ==> final(builder).blocks@[i] == old(
                        builder,
                    ).blocks@[i]
                &&& ({
                    let nmov1: int = if line.args@[0].arg_type == AstArgType::Id { 1 } else { 0 };
                    let nmov2: int = if line.args@[2].arg_type == AstArgType::Id { 1 } else { 0 };
                    match final(builder).blocks@.last() {
                        BlockFrame::WhileFrame { cmp_id, end_id, buffered } => {
                            &&& cmp_id as int == k_cmp
                            &&& end_id as int == k_end
                            &&& buffered@.len() == 4 + nmov1 + nmov2
                            &&& is_label_named(buffered@[0], k_cmp)
                            &&& (line.args@[0].arg_type == AstArgType::Id ==> is_op_instr(
                                buffered@[1],
                                LtacType::Mov,
                                LtacArg::Reg32(0),
                                LtacArg::Mem(var_slot(old(builder).vars@, line.args@[0].str_val@) as i32),
                            ))
                            &&& (line.args@[2].arg_type == AstArgType::Id ==> is_op_instr(
                                buffered@[1 + nmov1],
                                LtacType::Mov,
                                LtacArg::Reg32(1),
                                LtacArg::Mem(var_slot(old(builder).vars@, line.args@[2].str_val@) as i32),
                            ))
                            &&& is_op_instr(
                                buffered@[1 + nmov1 + nmov2],
                                LtacType::I32Cmp,
                                while_operand1(line.args@[0]),
                                while_operand2(line.args@[2]),
                            )
                            &&& is_branch_to(
                                buffered@[2 + nmov1 + nmov2],
                                direct_branch_op(line.args@[1].arg_type),
                                k_body,
                            )
                            &&& is_label_named(buffered@[3 + nmov1 + nmov2], k_end)
                        },
                        _ => false,
                    }
                })
                &&& errors_unchanged(*old(builder), *final(builder))
            }
        }),
{
    if builder.str_pos > LABEL_LIMIT - 3 {
        builder.errors.add(
            BuildErrorKind::UnsupportedOperation,
            String::new(),
            line.line_no,
        );
        return ;
    }
    if line.args.len() < 3 {
        builder.errors.add(
            BuildErrorKind::UnsupportedOperation,
            String::new(),
            line.line_no,
        );
        return ;
    }
    let cmp_label = builder.next_label();
    let loop_label = builder.next_label();
    let end_label = builder.next_label();

    // Jump to the comparison label, then place the body label.
    let mut br = create_instr(LtacType::Br);
    br.name = make_label(cmp_label);
    builder.emit(br);
    builder.emit_label(loop_label);

    // Build the buffered comparison block.
    let mut cmp_block: Vec<LtacInstr> = Vec::new();
    let mut lbl = create_instr(LtacType::Label);
    lbl.name = make_label(cmp_label);
    cmp_block.push(lbl);

    let mut cmp = create_instr(LtacType::I32Cmp);
    let arg1 = &line.args[0];
    match arg1.arg_type {
        AstArgType::IntL => {
            cmp.arg1 = LtacArg::I32(arg1.u64_val as i32);
        },
        AstArgType::Id => {
            let mut mov = create_instr(LtacType::Mov);
            mov.arg1 = LtacArg::Reg32(0);
            match crate::ltac_builder::var_lookup(&builder.vars, &arg1.str_val) {
                Some(v) => {
                    mov.arg2 = LtacArg::Mem(v.pos);
                },
                None => {
                    mov.arg2 = LtacArg::Mem(0);
                },
            }
            cmp_block.push(mov);
            cmp.arg1 = LtacArg::Reg32(0);
        },
        _ => {},
    }
    let arg2 = &line.args[2];
    match arg2.arg_type {
        AstArgType::IntL => {
            cmp.arg2 = LtacArg::I32(arg2.u64_val as i32);
        },
        AstArgType::Id => {
            let mut mov = create_instr(LtacType::Mov);
            mov.arg1 = LtacArg::Reg32(1);
            match crate::ltac_builder::var_lookup(&builder.vars, &arg2.str_val) {
                Some(v) => {
                    mov.arg2 = LtacArg::Mem(v.pos);
                },
                None => {
                    mov.arg2 = LtacArg::Mem(0);
                },
            }
            cmp_block.push(mov);
            cmp.arg2 = LtacArg::Reg32(1);
        },
        _ => {},
    }
    cmp_block.push(cmp);

    let op = line.args[1].arg_type;
    let mut back = create_instr(
        match op {
            AstArgType::OpEq => LtacType::Be,
            AstArgType::OpNeq => LtacType::Bne,
            AstArgType::OpLt => LtacType::Bl,
            AstArgType::OpLte => LtacType::Ble,
            AstArgType::OpGt => LtacType::Bg,
            AstArgType::OpGte => LtacType::Bge,
            _ => LtacType::Br,
        },
    );
    back.name = make_label(loop_label);
    cmp_block.push(back);

    let mut end_lbl = create_instr(LtacType::Label);
    end_lbl.name = make_label(end_label);
    cmp_block.push(end_lbl);

    let frame = BlockFrame::WhileFrame {
        cmp_id: cmp_label,
        end_id: end_label,
        buffered: cmp_block,
    };
    proof {
        assert(frame_ids(frame) =~= seq![cmp_label as int, end_label as int]);
        assert forall|a: int|
            0 <= a < frame_ids(frame).len() implies crate::blocks::value_fresh_for_code(
            builder.file.code@,
            #[trigger] frame_ids(frame)[a],
        ) && crate::blocks::value_fresh_for_ids(
            all_frame_ids(builder.blocks@),
            frame_ids(frame)[a],
        ) by {
            assert(id_fresh(*builder, cmp_label as int));
            assert(id_fresh(*builder, end_label as int));
        }
        lemma_push_frame(
            builder.file.code@,
            builder.blocks@,
            builder.str_pos as int,
            frame,
        );
    }
    builder.blocks.push(frame);
}

} // verus!
