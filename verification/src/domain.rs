//! The domain on which statement lowering is guaranteed to succeed.
//!
//! [`step_ok`] and [`step`] form a small abstract machine over a
//! [`LowerState`]: the symbol table, the stack high-water mark, a
//! bound on the label counter, the kinds of the open control-flow
//! frames, and whether the stream currently ends in a return.
//! [`block_ok`] runs it over a statement list.  A list the machine
//! accepts is lowered with no diagnostic recorded — that is the
//! success-owed contract of `build_block`, and through it of
//! `build_functions` and `build_ltac`.

use vstd::prelude::*;

use crate::ast::{AstFunc, AstStmt, AstStmtType, AstTree};
use crate::blocks::BlockFrame;
use crate::ltac::LtacType;
use crate::ltac_builder::{
    const_arg_ok, datatype_of, func_table_lookup, var_table_lookup, DataType, LtacBuilder, Var,
    LABEL_LIMIT,
};
use crate::ltac_flow::innermost_loop;
use crate::ltac_var::{assign_ok, params_vars, params_width, type_width};

verus! {

/// Kind of an open control-flow construct, abstracted from its frame.
pub enum BlockKind {
    OpenIf,
    OpenElse,
    OpenWhile,
}

/// The kind of a frame.
pub open spec fn frame_kind(f: BlockFrame) -> BlockKind {
    match f {
        BlockFrame::IfFrame { .. } => BlockKind::OpenIf,
        BlockFrame::ElseFrame { .. } => BlockKind::OpenElse,
        BlockFrame::WhileFrame { .. } => BlockKind::OpenWhile,
    }
}

/// The kinds of a whole frame stack.
pub open spec fn kinds_of(frames: Seq<BlockFrame>) -> Seq<BlockKind> {
    frames.map_values(|f: BlockFrame| frame_kind(f))
}

/// Whether some open construct is a loop.
pub open spec fn has_open_loop(frames: Seq<BlockKind>) -> bool {
    exists|i: int| 0 <= i < frames.len() && frames[i] == BlockKind::OpenWhile
}

/// The abstract lowering state a statement list is checked against.
pub struct LowerState {
    pub vars: Seq<(String, Var)>,
    pub stack: int,
    pub labels: int,
    pub frames: Seq<BlockKind>,
    pub ret_last: bool,
    pub is_void: bool,
}

/// The symbol-table entry a declaration binds from this state.
pub open spec fn decl_var(line: AstStmt, stack: int) -> (String, Var) {
    (line.name, Var {
        pos: (stack + type_width(datatype_of(line.modifiers@[0].mod_type))) as i32,
        data_type: datatype_of(line.modifiers@[0].mod_type),
        is_param: false,
    })
}

/// Whether lowering one statement from this state succeeds and
/// records no diagnostic.
pub open spec fn step_ok(s: LowerState, line: AstStmt) -> bool {
    match line.stmt_type {
        AstStmtType::VarDec => {
            &&& line.modifiers@.len() > 0
            &&& s.stack < 0x7FFF_0000
            &&& assign_ok(line, s.vars.push(decl_var(line, s.stack)))
        },
        AstStmtType::VarAssign => assign_ok(line, s.vars),
        AstStmtType::ArrayAssign => assign_ok(line, s.vars),
        AstStmtType::If => line.args@.len() >= 3 && s.labels + 2 <= LABEL_LIMIT as int,
        AstStmtType::Elif => {
            &&& s.frames.len() > 0
            &&& s.frames.last() == BlockKind::OpenIf
            &&& line.args@.len() >= 3
            &&& s.labels + 1 <= LABEL_LIMIT as int
        },
        AstStmtType::Else => s.frames.len() > 0 && s.frames.last() == BlockKind::OpenIf,
        AstStmtType::While => line.args@.len() >= 3 && s.labels + 3 <= LABEL_LIMIT as int,
        AstStmtType::Break => has_open_loop(s.frames),
        AstStmtType::Continue => has_open_loop(s.frames),
        AstStmtType::FuncCall => line.args@.len() < 0x7FFF_0000 && s.labels + line.args@.len()
            < LABEL_LIMIT as int,
        AstStmtType::Return => !(line.args@.len() > 0 && s.is_void),
        AstStmtType::Exit => true,
        AstStmtType::End => s.frames.len() > 0 || s.is_void || s.ret_last,
    }
}

/// The state after lowering one statement.
pub open spec fn step(s: LowerState, line: AstStmt) -> LowerState {
    match line.stmt_type {
        AstStmtType::VarDec => LowerState {
            vars: s.vars.push(decl_var(line, s.stack)),
            stack: s.stack + type_width(datatype_of(line.modifiers@[0].mod_type)),
            labels: s.labels,
            frames: s.frames,
            ret_last: false,
            is_void: s.is_void,
        },
        AstStmtType::VarAssign => LowerState { ret_last: assign_keeps_ret(s, line), ..s },
        AstStmtType::ArrayAssign => LowerState { ret_last: assign_keeps_ret(s, line), ..s },
        AstStmtType::If => LowerState {
            labels: s.labels + 2,
            frames: s.frames.push(BlockKind::OpenIf),
            ret_last: false,
            ..s
        },
        AstStmtType::Elif => LowerState {
            labels: s.labels + 1,
            frames: s.frames.drop_last().push(BlockKind::OpenIf),
            ret_last: false,
            ..s
        },
        AstStmtType::Else => LowerState {
            frames: s.frames.drop_last().push(BlockKind::OpenElse),
            ret_last: false,
            ..s
        },
        AstStmtType::While => LowerState {
            labels: s.labels + 3,
            frames: s.frames.push(BlockKind::OpenWhile),
            ret_last: false,
            ..s
        },
        AstStmtType::Break => LowerState { ret_last: false, ..s },
        AstStmtType::Continue => LowerState { ret_last: false, ..s },
        AstStmtType::FuncCall => LowerState {
            labels: s.labels + line.args@.len(),
            ret_last: false,
            ..s
        },
        AstStmtType::Return => LowerState { ret_last: true, ..s },
        AstStmtType::Exit => LowerState { ret_last: false, ..s },
        AstStmtType::End => if s.frames.len() > 0 {
            LowerState { frames: s.frames.drop_last(), ret_last: false, ..s }
        } else {
            LowerState { ret_last: true, ..s }
        },
    }
}

/// Whether an assignment leaves the stream's tail untouched: targets
/// of non-integer scalar types emit nothing.
pub open spec fn assign_keeps_ret(s: LowerState, line: AstStmt) -> bool {
    match var_table_lookup(s.vars, line.name@) {
        Option::Some(v) => if v.data_type == DataType::Int || v.data_type
            == DataType::IntDynArray {
            false
        } else {
            s.ret_last
        },
        Option::None => false,
    }
}

/// The machine accepts the first `k` statements.
pub open spec fn block_ok(s: LowerState, stmts: Seq<AstStmt>, k: int) -> bool
    decreases k,
{
    if k <= 0 {
        true
    } else if k > stmts.len() {
        false
    } else {
        block_ok(s, stmts, k - 1) && step_ok(block_state(s, stmts, k - 1), stmts[k - 1])
    }
}

/// The state after the first `k` statements.
pub open spec fn block_state(s: LowerState, stmts: Seq<AstStmt>, k: int) -> LowerState
    decreases k,
{
    if k <= 0 || k > stmts.len() {
        s
    } else {
        step(block_state(s, stmts, k - 1), stmts[k - 1])
    }
}

/// Acceptance of a list accepts every prefix.
pub proof fn lemma_block_ok_prefix(s: LowerState, stmts: Seq<AstStmt>, k1: int, k2: int)
    requires
        block_ok(s, stmts, k2),
        0 <= k1 <= k2,
    ensures
        block_ok(s, stmts, k1),
    decreases k2 - k1,
{
    if k1 < k2 {
        lemma_block_ok_prefix(s, stmts, k1 + 1, k2);
    }
}

/// The canonical abstract state of a builder: its tables and
/// counters, an exact label bound, and no return recorded yet.
pub open spec fn lower_state_of(b: LtacBuilder) -> LowerState {
    LowerState {
        vars: b.vars@,
        stack: b.stack_pos as int,
        labels: b.str_pos as int,
        frames: kinds_of(b.blocks@),
        ret_last: false,
        is_void: b.current_type == DataType::Void,
    }
}

/// Correspondence between a builder and an abstract state: the tables
/// agree, the label counter stays below the bound, the frame kinds
/// agree, and a recorded return means the stream really ends in one.
pub open spec fn state_matches(b: LtacBuilder, s: LowerState) -> bool {
    &&& s.vars == b.vars@
    &&& s.stack == b.stack_pos as int
    &&& b.str_pos as int <= s.labels
    &&& s.frames == kinds_of(b.blocks@)
    &&& (s.ret_last ==> b.file.code@.len() > 0 && b.file.code@.last().instr_type
        == LtacType::Ret)
    &&& s.is_void == (b.current_type == DataType::Void)
}

/// Pushing a frame pushes its kind.
pub proof fn lemma_kinds_push(frames: Seq<BlockFrame>, f: BlockFrame)
    ensures
        kinds_of(frames.push(f)) == kinds_of(frames).push(frame_kind(f)),
{
    assert(kinds_of(frames.push(f)) =~= kinds_of(frames).push(frame_kind(f)));
}

/// Dropping the top frame drops its kind.
pub proof fn lemma_kinds_drop(frames: Seq<BlockFrame>)
    requires
        frames.len() > 0,
    ensures
        kinds_of(frames.drop_last()) == kinds_of(frames).drop_last(),
{
    assert(kinds_of(frames.drop_last()) =~= kinds_of(frames).drop_last());
}

/// The innermost open loop exists exactly when some open frame is a
/// `while`.
pub proof fn lemma_loop_kind(frames: Seq<BlockFrame>)
    ensures
        innermost_loop(frames) is Some <==> has_open_loop(kinds_of(frames)),
    decreases frames.len(),
{
    if frames.len() > 0 {
        match frames.last() {
            BlockFrame::WhileFrame { .. } => {
                assert(kinds_of(frames)[frames.len() - 1] == BlockKind::OpenWhile);
            },
            _ => {
                lemma_loop_kind(frames.drop_last());
                lemma_kinds_drop(frames);
                if has_open_loop(kinds_of(frames)) {
                    let i = choose|i: int|
                        0 <= i < kinds_of(frames).len() && kinds_of(frames)[i]
                            == BlockKind::OpenWhile;
                    assert(i < frames.len() - 1);
                    assert(kinds_of(frames.drop_last())[i] == BlockKind::OpenWhile);
                }
                if has_open_loop(kinds_of(frames.drop_last())) {
                    let i = choose|i: int|
                        0 <= i < kinds_of(frames.drop_last()).len() && kinds_of(
                            frames.drop_last(),
                        )[i] == BlockKind::OpenWhile;
                    assert(kinds_of(frames)[i] == BlockKind::OpenWhile);
                }
            },
        }
    }
}


/// Raising the label bound cannot lose acceptance: a run that fits a
/// tight budget fits a looser one, consuming the same amount.
pub proof fn lemma_labels_slack(s: LowerState, s2: LowerState, stmts: Seq<AstStmt>, k: int)
    requires
        s2.vars == s.vars,
        s2.stack == s.stack,
        s2.frames == s.frames,
        s2.ret_last == s.ret_last,
        s2.is_void == s.is_void,
        s.labels <= s2.labels,
        block_ok(s2, stmts, k),
        0 <= k,
    ensures
        block_ok(s, stmts, k),
        ({
            let b = block_state(s, stmts, k);
            let b2 = block_state(s2, stmts, k);
            &&& b.vars == b2.vars
            &&& b.stack == b2.stack
            &&& b.frames == b2.frames
            &&& b.ret_last == b2.ret_last
            &&& b.is_void == b2.is_void
            &&& b2.labels - b.labels == s2.labels - s.labels
        }),
    decreases k,
{
    if k > 0 {
        lemma_labels_slack(s, s2, stmts, k - 1);
    }
}

/// The declared return type of a function: void when no modifier was
/// written.
pub open spec fn declared_type(f: AstFunc) -> DataType {
    if f.modifiers@.len() > 0 {
        datatype_of(f.modifiers@[0].mod_type)
    } else {
        DataType::Void
    }
}

/// The function table after recording the first `k` functions over a
/// base table.
pub open spec fn func_table_of(
    funcs: Seq<AstFunc>,
    base: Seq<(String, DataType)>,
    k: int,
) -> Seq<(String, DataType)>
    decreases k,
{
    if k <= 0 || k > funcs.len() {
        base
    } else {
        func_table_of(funcs, base, k - 1).push((funcs[k - 1].name, declared_type(funcs[k - 1])))
    }
}

/// A parameter list every declaration of which fits the stack budget.
pub open spec fn params_ok(args: Seq<AstStmt>) -> bool {
    &&& args.len() < 0x7FFE_0000
    &&& forall|k: int|
        0 <= k < args.len() ==> ((#[trigger] args[k]).modifiers@.len() > 0 && params_width(
            args,
            k,
        ) < 0x7FFF_0000)
}

/// The state a function body starts from: the parameters bound from
/// stack offset zero, no open frame, and the voidness its recorded
/// table entry gives it.
pub open spec fn func_start_state(
    f: AstFunc,
    table: Seq<(String, DataType)>,
    labels: int,
) -> LowerState {
    LowerState {
        vars: params_vars(f.args@, f.args@.len() as int, 0),
        stack: params_width(f.args@, f.args@.len() as int),
        labels: labels,
        frames: Seq::empty(),
        ret_last: false,
        is_void: match func_table_lookup(table, f.name@) {
            Option::Some(t) => t == DataType::Void,
            Option::None => true,
        },
    }
}

/// Whether lowering one function succeeds with no diagnostic: its
/// parameters fit, its body is accepted, every construct is closed,
/// and a non-void body ends in a return.
pub open spec fn func_ok(f: AstFunc, table: Seq<(String, DataType)>, labels: int) -> bool {
    if f.is_extern {
        true
    } else {
        let s0 = func_start_state(f, table, labels);
        let send = block_state(s0, f.statements@, f.statements@.len() as int);
        &&& params_ok(f.args@)
        &&& block_ok(s0, f.statements@, f.statements@.len() as int)
        &&& send.frames.len() == 0
        &&& (!s0.is_void ==> send.ret_last)
    }
}

/// The label bound after lowering the first `k` functions.
pub open spec fn funcs_labels(
    funcs: Seq<AstFunc>,
    table: Seq<(String, DataType)>,
    labels: int,
    k: int,
) -> int
    decreases k,
{
    if k <= 0 || k > funcs.len() {
        labels
    } else {
        let f = funcs[k - 1];
        let before = funcs_labels(funcs, table, labels, k - 1);
        if f.is_extern {
            before
        } else {
            block_state(
                func_start_state(f, table, before),
                f.statements@,
                f.statements@.len() as int,
            ).labels
        }
    }
}

/// Whether lowering the first `k` functions succeeds with no
/// diagnostic.
pub open spec fn funcs_ok(
    funcs: Seq<AstFunc>,
    table: Seq<(String, DataType)>,
    labels: int,
    k: int,
) -> bool
    decreases k,
{
    if k <= 0 {
        true
    } else if k > funcs.len() {
        false
    } else {
        funcs_ok(funcs, table, labels, k - 1) && func_ok(
            funcs[k - 1],
            table,
            funcs_labels(funcs, table, labels, k - 1),
        )
    }
}

/// Acceptance of the functions accepts every prefix.
pub proof fn lemma_funcs_ok_prefix(
    funcs: Seq<AstFunc>,
    table: Seq<(String, DataType)>,
    labels: int,
    k1: int,
    k2: int,
)
    requires
        funcs_ok(funcs, table, labels, k2),
        0 <= k1 <= k2,
    ensures
        funcs_ok(funcs, table, labels, k1),
    decreases k2 - k1,
{
    if k1 < k2 {
        lemma_funcs_ok_prefix(funcs, table, labels, k1 + 1, k2);
    }
}

/// Whether a whole tree is translated with no diagnostic: every
/// constant fits its declared type, constant names are distinct, and
/// every function is accepted under the recorded table, the label
/// counter starting from zero.
pub open spec fn tree_ok(tree: AstTree) -> bool {
    &&& (forall|i: int|
        0 <= i < tree.constants@.len() ==> const_arg_ok(
            datatype_of((#[trigger] tree.constants@[i]).data_type.mod_type),
            tree.constants@[i].value,
        ))
    &&& (forall|i: int, j: int|
        0 <= i < j < tree.constants@.len() ==> (#[trigger] tree.constants@[i]).name@ != (
        #[trigger] tree.constants@[j]).name@)
    &&& funcs_ok(
        tree.functions@,
        func_table_of(tree.functions@, Seq::empty(), tree.functions@.len() as int),
        0,
        tree.functions@.len() as int,
    )
}

} // verus!
