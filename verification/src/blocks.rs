//! Control-flow frames and the label invariant of the builder.
//!
//! Each open `if`/`elif`/`else` or `while` construct is one
//! [`BlockFrame`] on a stack.  A frame holds the counter values of the
//! labels it has allocated but not yet emitted; a `while` frame also
//! buffers its comparison block, which is flushed when the construct
//! closes so that the loop body comes first.
//!
//! [`label_inv`] is the invariant that makes label uniqueness hold:
//! every `Label` instruction in the stream carries a generated name,
//! the counter values of emitted labels are pairwise distinct, and the
//! values still pending in frames are distinct from each other and
//! from everything emitted.

use vstd::prelude::*;

use crate::labels::{label_ok, label_text, label_value, lemma_label_text_value};
use crate::ltac::{LtacInstr, LtacType};

verus! {

/// One open control-flow construct.
///
/// `IfFrame` tracks the label that ends the whole chain (`end_id`) and
/// the label of the next alternative (`next_id`).  An `ElseFrame` has
/// no next alternative left.  A `WhileFrame` tracks the comparison and
/// end labels and buffers the comparison block.
pub enum BlockFrame {
    IfFrame { end_id: u32, next_id: u32 },
    ElseFrame { end_id: u32 },
    WhileFrame { cmp_id: u32, end_id: u32, buffered: Vec<LtacInstr> },
}

/// Holds when an instruction is a `Label`.
pub open spec fn is_label_instr(i: LtacInstr) -> bool {
    i.instr_type == LtacType::Label
}

/// Holds when an instruction is a conditional branch: one that
/// consumes the flags of a preceding comparison.
pub open spec fn is_cond_branch(i: LtacInstr) -> bool {
    ||| i.instr_type == LtacType::Be
    ||| i.instr_type == LtacType::Bne
    ||| i.instr_type == LtacType::Bl
    ||| i.instr_type == LtacType::Ble
    ||| i.instr_type == LtacType::Bg
    ||| i.instr_type == LtacType::Bge
    ||| i.instr_type == LtacType::Bfl
    ||| i.instr_type == LtacType::Bfle
    ||| i.instr_type == LtacType::Bfg
    ||| i.instr_type == LtacType::Bfge
}

/// Every conditional branch directly follows its comparison, so a
/// back end may consume the flags of the instruction before it.
pub open spec fn conds_follow_cmp(code: Seq<LtacInstr>) -> bool {
    &&& (code.len() > 0 ==> !is_cond_branch(code[0]))
    &&& forall|j: int, i: int|
        0 <= j && i == j + 1 && i < code.len() && is_cond_branch(#[trigger] code[i]) ==> (
        #[trigger] code[j]).instr_type == LtacType::I32Cmp
}

/// The label counter values a frame still owes to the stream.
pub open spec fn frame_ids(f: BlockFrame) -> Seq<int> {
    match f {
        BlockFrame::IfFrame { end_id, next_id } => seq![end_id as int, next_id as int],
        BlockFrame::ElseFrame { end_id } => seq![end_id as int],
        BlockFrame::WhileFrame { cmp_id, end_id, .. } => seq![cmp_id as int, end_id as int],
    }
}

/// The pending label values of a whole frame stack, bottom first.
pub open spec fn all_frame_ids(frames: Seq<BlockFrame>) -> Seq<int>
    decreases frames.len(),
{
    if frames.len() == 0 {
        Seq::empty()
    } else {
        all_frame_ids(frames.drop_last()) + frame_ids(frames.last())
    }
}

/// Every `Label` in the stream carries a generated name with value
/// below `bound`.
pub open spec fn code_labels_ok(code: Seq<LtacInstr>, bound: int) -> bool {
    forall|i: int|
        0 <= i < code.len() && is_label_instr(#[trigger] code[i]) ==> label_ok(
            code[i].name@,
            bound,
        )
}

/// The values of emitted labels are pairwise distinct.
pub open spec fn code_labels_distinct(code: Seq<LtacInstr>) -> bool {
    forall|i: int, j: int|
        0 <= i < j < code.len() && is_label_instr(#[trigger] code[i]) && is_label_instr(
            #[trigger] code[j],
        ) ==> label_value(code[i].name@) != label_value(code[j].name@)
}

/// No two `Label` instructions in the stream share a name.
pub open spec fn labels_unique(code: Seq<LtacInstr>) -> bool {
    forall|i: int, j: int|
        0 <= i < j < code.len() && is_label_instr(#[trigger] code[i]) && is_label_instr(
            #[trigger] code[j],
        ) ==> code[i].name@ != code[j].name@
}

/// All values in `ids` lie in `[0, bound)`.
pub open spec fn ids_ok(ids: Seq<int>, bound: int) -> bool {
    forall|a: int| 0 <= a < ids.len() ==> 0 <= #[trigger] ids[a] < bound
}

/// The values in `ids` are pairwise distinct.
pub open spec fn ids_distinct(ids: Seq<int>) -> bool {
    forall|a: int, b: int| 0 <= a < b < ids.len() ==> ids[a] != ids[b]
}

/// No emitted label carries a value that is still pending in a frame.
pub open spec fn code_ids_disjoint(code: Seq<LtacInstr>, ids: Seq<int>) -> bool {
    forall|i: int, a: int|
        0 <= i < code.len() && 0 <= a < ids.len() && is_label_instr(#[trigger] code[i])
            ==> label_value(code[i].name@) != #[trigger] ids[a]
}

/// A `while` frame's buffer starts with its comparison label, ends
/// with its end label, and holds no other label.
pub open spec fn while_frame_ok(f: BlockFrame) -> bool {
    match f {
        BlockFrame::WhileFrame { cmp_id, end_id, buffered } => {
            &&& buffered@.len() >= 2
            &&& is_label_instr(buffered@[0])
            &&& buffered@[0].name@ == label_text(cmp_id as int)
            &&& is_label_instr(buffered@.last())
            &&& buffered@.last().name@ == label_text(end_id as int)
            &&& forall|i: int| 0 < i < buffered@.len() - 1 ==> !is_label_instr(#[trigger] buffered@[i])
            &&& forall|i: int|
                0 <= i < buffered@.len() ==> (#[trigger] buffered@[i]).instr_type
                    != LtacType::Func
            &&& !is_cond_branch(buffered@[0])
            &&& forall|j: int, i: int|
                0 <= j && i == j + 1 && i < buffered@.len() && is_cond_branch(
                    #[trigger] buffered@[i],
                ) ==> (#[trigger] buffered@[j]).instr_type == LtacType::I32Cmp
        },
        _ => true,
    }
}

/// Every frame's buffer is well shaped.
pub open spec fn frames_ok(frames: Seq<BlockFrame>) -> bool {
    forall|fi: int| 0 <= fi < frames.len() ==> while_frame_ok(#[trigger] frames[fi])
}

/// The label invariant of the builder: generated names everywhere,
/// distinct values, pending values distinct from each other and from
/// the stream, well-shaped buffers.
pub open spec fn label_inv(code: Seq<LtacInstr>, frames: Seq<BlockFrame>, bound: int) -> bool {
    &&& code_labels_ok(code, bound)
    &&& code_labels_distinct(code)
    &&& ids_ok(all_frame_ids(frames), bound)
    &&& ids_distinct(all_frame_ids(frames))
    &&& code_ids_disjoint(code, all_frame_ids(frames))
    &&& frames_ok(frames)
}

/// A value below every label already present is fresh for the stream.
pub open spec fn value_fresh_for_code(code: Seq<LtacInstr>, k: int) -> bool {
    forall|i: int|
        0 <= i < code.len() && is_label_instr(#[trigger] code[i]) ==> label_value(code[i].name@)
            != k
}

/// A value absent from the pending ids.
pub open spec fn value_fresh_for_ids(ids: Seq<int>, k: int) -> bool {
    forall|a: int| 0 <= a < ids.len() ==> #[trigger] ids[a] != k
}

/// Distinct label values give distinct label names.
pub proof fn lemma_labels_unique(code: Seq<LtacInstr>)
    requires
        code_labels_distinct(code),
    ensures
        labels_unique(code),
{
    assert forall|i: int, j: int|
        0 <= i < j < code.len() && is_label_instr(#[trigger] code[i]) && is_label_instr(
            #[trigger] code[j],
        ) implies code[i].name@ != code[j].name@ by {
        assert(label_value(code[i].name@) != label_value(code[j].name@));
    }
}

/// Anything at or above the bound of the stream is fresh for it.
pub proof fn lemma_bound_fresh(code: Seq<LtacInstr>, bound: int, k: int)
    requires
        code_labels_ok(code, bound),
        k >= bound,
    ensures
        value_fresh_for_code(code, k),
{
}

/// Anything at or above the bound of the pending ids is absent from
/// them.
pub proof fn lemma_bound_fresh_ids(ids: Seq<int>, bound: int, k: int)
    requires
        ids_ok(ids, bound),
        k >= bound,
    ensures
        value_fresh_for_ids(ids, k),
{
}

/// The invariant survives raising the counter bound.
pub proof fn lemma_bound_widen(
    code: Seq<LtacInstr>,
    frames: Seq<BlockFrame>,
    b1: int,
    b2: int,
)
    requires
        label_inv(code, frames, b1),
        b1 <= b2,
    ensures
        label_inv(code, frames, b2),
{
}

/// Appending a non-label instruction preserves the invariant.
pub proof fn lemma_push_non_label(
    code: Seq<LtacInstr>,
    frames: Seq<BlockFrame>,
    bound: int,
    instr: LtacInstr,
)
    requires
        label_inv(code, frames, bound),
        !is_label_instr(instr),
    ensures
        label_inv(code.push(instr), frames, bound),
{
    let code2 = code.push(instr);
    assert forall|i: int|
        0 <= i < code2.len() && is_label_instr(#[trigger] code2[i]) implies label_ok(
        code2[i].name@,
        bound,
    ) by {
        assert(code2[i] == code[i]);
    }
    assert forall|i: int, j: int|
        0 <= i < j < code2.len() && is_label_instr(#[trigger] code2[i]) && is_label_instr(
            #[trigger] code2[j],
        ) implies label_value(code2[i].name@) != label_value(code2[j].name@) by {
        assert(code2[i] == code[i] && code2[j] == code[j]);
    }
    assert forall|i: int, a: int|
        0 <= i < code2.len() && 0 <= a < all_frame_ids(frames).len() && is_label_instr(
            #[trigger] code2[i],
        ) implies label_value(code2[i].name@) != #[trigger] all_frame_ids(frames)[a] by {
        assert(code2[i] == code[i]);
    }
}

/// Appending a label whose value is fresh preserves the invariant.
pub proof fn lemma_push_label(
    code: Seq<LtacInstr>,
    frames: Seq<BlockFrame>,
    bound: int,
    instr: LtacInstr,
    k: int,
)
    requires
        label_inv(code, frames, bound),
        is_label_instr(instr),
        instr.name@ == label_text(k),
        0 <= k < bound,
        value_fresh_for_code(code, k),
        value_fresh_for_ids(all_frame_ids(frames), k),
    ensures
        label_inv(code.push(instr), frames, bound),
{
    lemma_label_text_value(k);
    let code2 = code.push(instr);
    assert(label_ok(instr.name@, bound));
    assert forall|i: int|
        0 <= i < code2.len() && is_label_instr(#[trigger] code2[i]) implies label_ok(
        code2[i].name@,
        bound,
    ) by {
        if i < code.len() {
            assert(code2[i] == code[i]);
        } else {
            assert(code2[i] == instr);
        }
    }
    assert forall|i: int, j: int|
        0 <= i < j < code2.len() && is_label_instr(#[trigger] code2[i]) && is_label_instr(
            #[trigger] code2[j],
        ) implies label_value(code2[i].name@) != label_value(code2[j].name@) by {
        if j < code.len() {
            assert(code2[i] == code[i] && code2[j] == code[j]);
        } else {
            assert(code2[j] == instr && code2[i] == code[i]);
            assert(label_value(code[i].name@) != k);
        }
    }
    assert forall|i: int, a: int|
        0 <= i < code2.len() && 0 <= a < all_frame_ids(frames).len() && is_label_instr(
            #[trigger] code2[i],
        ) implies label_value(code2[i].name@) != #[trigger] all_frame_ids(frames)[a] by {
        if i < code.len() {
            assert(code2[i] == code[i]);
        } else {
            assert(code2[i] == instr);
            assert(all_frame_ids(frames)[a] != k);
        }
    }
}

/// Pushing a frame whose ids are fresh preserves the invariant.
pub proof fn lemma_push_frame(
    code: Seq<LtacInstr>,
    frames: Seq<BlockFrame>,
    bound: int,
    f: BlockFrame,
)
    requires
        label_inv(code, frames, bound),
        while_frame_ok(f),
        ids_ok(frame_ids(f), bound),
        ids_distinct(frame_ids(f)),
        forall|a: int|
            0 <= a < frame_ids(f).len() ==> value_fresh_for_code(code, #[trigger] frame_ids(f)[a])
                && value_fresh_for_ids(all_frame_ids(frames), frame_ids(f)[a]),
    ensures
        label_inv(code, frames.push(f), bound),
        all_frame_ids(frames.push(f)) == all_frame_ids(frames) + frame_ids(f),
{
    let frames2 = frames.push(f);
    assert(frames2.drop_last() =~= frames);
    assert(frames2.last() == f);
    let ids = all_frame_ids(frames);
    let ids2 = all_frame_ids(frames2);
    assert(ids2 == ids + frame_ids(f));
    assert forall|a: int| 0 <= a < ids2.len() implies 0 <= #[trigger] ids2[a] < bound by {
        if a < ids.len() {
            assert(ids2[a] == ids[a]);
        } else {
            assert(ids2[a] == frame_ids(f)[a - ids.len()]);
        }
    }
    assert forall|a: int, b: int| 0 <= a < b < ids2.len() implies ids2[a] != ids2[b] by {
        if b < ids.len() {
            assert(ids2[a] == ids[a] && ids2[b] == ids[b]);
        } else if a < ids.len() {
            assert(ids2[b] == frame_ids(f)[b - ids.len()]);
            assert(ids2[a] == ids[a]);
            assert(value_fresh_for_ids(ids, frame_ids(f)[b - ids.len()]));
        } else {
            assert(ids2[a] == frame_ids(f)[a - ids.len()]);
            assert(ids2[b] == frame_ids(f)[b - ids.len()]);
        }
    }
    assert forall|i: int, a: int|
        0 <= i < code.len() && 0 <= a < ids2.len() && is_label_instr(#[trigger] code[i]) implies
        label_value(code[i].name@) != #[trigger] ids2[a] by {
        if a < ids.len() {
            assert(ids2[a] == ids[a]);
        } else {
            assert(ids2[a] == frame_ids(f)[a - ids.len()]);
            assert(value_fresh_for_code(code, frame_ids(f)[a - ids.len()]));
        }
    }
    assert forall|fi: int| 0 <= fi < frames2.len() implies while_frame_ok(#[trigger] frames2[fi]) by {
        if fi < frames.len() {
            assert(frames2[fi] == frames[fi]);
        } else {
            assert(frames2[fi] == f);
        }
    }
}

/// Popping the top frame preserves the invariant; the popped ids stay
/// below the bound and fresh for the stream and the remaining frames.
pub proof fn lemma_pop_frame(code: Seq<LtacInstr>, frames: Seq<BlockFrame>, bound: int)
    requires
        label_inv(code, frames, bound),
        frames.len() > 0,
    ensures
        label_inv(code, frames.drop_last(), bound),
        ids_ok(frame_ids(frames.last()), bound),
        ids_distinct(frame_ids(frames.last())),
        forall|a: int|
            0 <= a < frame_ids(frames.last()).len() ==> value_fresh_for_code(
                code,
                #[trigger] frame_ids(frames.last())[a],
            ) && value_fresh_for_ids(all_frame_ids(frames.drop_last()), frame_ids(frames.last())[a]),
    decreases frames.len(),
{
    let rest = frames.drop_last();
    let f = frames.last();
    let ids = all_frame_ids(frames);
    let idsr = all_frame_ids(rest);
    assert(ids == idsr + frame_ids(f));
    assert forall|a: int| 0 <= a < idsr.len() implies 0 <= #[trigger] idsr[a] < bound by {
        assert(idsr[a] == ids[a]);
    }
    assert forall|a: int, b: int| 0 <= a < b < idsr.len() implies idsr[a] != idsr[b] by {
        assert(idsr[a] == ids[a] && idsr[b] == ids[b]);
    }
    assert forall|i: int, a: int|
        0 <= i < code.len() && 0 <= a < idsr.len() && is_label_instr(#[trigger] code[i]) implies
        label_value(code[i].name@) != #[trigger] idsr[a] by {
        assert(idsr[a] == ids[a]);
    }
    assert forall|fi: int| 0 <= fi < rest.len() implies while_frame_ok(#[trigger] rest[fi]) by {
        assert(rest[fi] == frames[fi]);
    }
    assert forall|a: int|
        0 <= a < frame_ids(f).len() implies 0 <= #[trigger] frame_ids(f)[a] < bound by {
        assert(frame_ids(f)[a] == ids[idsr.len() + a]);
    }
    assert forall|a: int, b: int|
        0 <= a < b < frame_ids(f).len() implies frame_ids(f)[a] != frame_ids(f)[b] by {
        assert(frame_ids(f)[a] == ids[idsr.len() + a]);
        assert(frame_ids(f)[b] == ids[idsr.len() + b]);
    }
    assert forall|a: int|
        0 <= a < frame_ids(f).len() implies value_fresh_for_code(
        code,
        #[trigger] frame_ids(f)[a],
    ) && value_fresh_for_ids(idsr, frame_ids(f)[a]) by {
        let k = frame_ids(f)[a];
        assert(k == ids[idsr.len() + a]);
        assert forall|i: int|
            0 <= i < code.len() && is_label_instr(#[trigger] code[i]) implies label_value(
            code[i].name@,
        ) != k by {
            assert(label_value(code[i].name@) != ids[idsr.len() + a]);
        }
        assert forall|b: int| 0 <= b < idsr.len() implies #[trigger] idsr[b] != k by {
            assert(idsr[b] == ids[b]);
            assert(ids[b] != ids[idsr.len() + a]);
        }
    }
}

/// Appending a buffered comparison block — a label, non-labels, a
/// label — preserves the invariant when both label values are fresh.
pub proof fn lemma_append_block(
    code: Seq<LtacInstr>,
    frames: Seq<BlockFrame>,
    bound: int,
    block: Seq<LtacInstr>,
    k1: int,
    k2: int,
)
    requires
        label_inv(code, frames, bound),
        block.len() >= 2,
        is_label_instr(block[0]),
        block[0].name@ == label_text(k1),
        is_label_instr(block.last()),
        block.last().name@ == label_text(k2),
        forall|i: int| 0 < i < block.len() - 1 ==> !is_label_instr(#[trigger] block[i]),
        0 <= k1 < bound,
        0 <= k2 < bound,
        k1 != k2,
        value_fresh_for_code(code, k1),
        value_fresh_for_code(code, k2),
        value_fresh_for_ids(all_frame_ids(frames), k1),
        value_fresh_for_ids(all_frame_ids(frames), k2),
    ensures
        label_inv(code + block, frames, bound),
{
    lemma_label_text_value(k1);
    lemma_label_text_value(k2);
    let code2 = code + block;
    let ids = all_frame_ids(frames);
    let n = code.len() as int;
    let m = block.len() as int;
    assert forall|i: int|
        0 <= i < code2.len() && is_label_instr(#[trigger] code2[i]) implies label_ok(
        code2[i].name@,
        bound,
    ) by {
        if i < n {
            assert(code2[i] == code[i]);
        } else {
            assert(code2[i] == block[i - n]);
            if i - n == 0 {
                assert(code2[i].name@ == label_text(k1));
            } else {
                assert(i - n == m - 1);
                assert(code2[i].name@ == label_text(k2));
            }
        }
    }
    assert forall|i: int, j: int|
        0 <= i < j < code2.len() && is_label_instr(#[trigger] code2[i]) && is_label_instr(
            #[trigger] code2[j],
        ) implies label_value(code2[i].name@) != label_value(code2[j].name@) by {
        if j < n {
            assert(code2[i] == code[i] && code2[j] == code[j]);
        } else if i < n {
            assert(code2[i] == code[i]);
            assert(code2[j] == block[j - n]);
            if j - n == 0 {
                assert(label_value(code2[j].name@) == k1);
            } else {
                assert(j - n == m - 1);
                assert(label_value(code2[j].name@) == k2);
            }
        } else {
            assert(code2[i] == block[i - n] && code2[j] == block[j - n]);
            assert(i - n == 0 && j - n == m - 1);
            assert(label_value(code2[i].name@) == k1);
            assert(label_value(code2[j].name@) == k2);
        }
    }
    assert forall|i: int, a: int|
        0 <= i < code2.len() && 0 <= a < ids.len() && is_label_instr(#[trigger] code2[i]) implies
        label_value(code2[i].name@) != #[trigger] ids[a] by {
        if i < n {
            assert(code2[i] == code[i]);
        } else {
            assert(code2[i] == block[i - n]);
            if i - n == 0 {
                assert(label_value(code2[i].name@) == k1);
            } else {
                assert(i - n == m - 1);
                assert(label_value(code2[i].name@) == k2);
            }
        }
    }
}

/// Inserting a non-label instruction anywhere preserves the invariant.
pub proof fn lemma_insert_non_label(
    code: Seq<LtacInstr>,
    frames: Seq<BlockFrame>,
    bound: int,
    pos: int,
    instr: LtacInstr,
)
    requires
        label_inv(code, frames, bound),
        !is_label_instr(instr),
        0 <= pos <= code.len(),
    ensures
        label_inv(code.insert(pos, instr), frames, bound),
{
    let code2 = code.insert(pos, instr);
    let ids = all_frame_ids(frames);
    assert(code2.len() == code.len() + 1);
    assert forall|i: int| 0 <= i < code2.len() implies code2[i] == (if i < pos {
        code[i]
    } else if i == pos {
        instr
    } else {
        code[i - 1]
    }) by {}
    assert forall|i: int|
        0 <= i < code2.len() && is_label_instr(#[trigger] code2[i]) implies label_ok(
        code2[i].name@,
        bound,
    ) by {
        if i < pos {
            assert(code2[i] == code[i]);
        } else if i > pos {
            assert(code2[i] == code[i - 1]);
        }
    }
    assert forall|i: int, j: int|
        0 <= i < j < code2.len() && is_label_instr(#[trigger] code2[i]) && is_label_instr(
            #[trigger] code2[j],
        ) implies label_value(code2[i].name@) != label_value(code2[j].name@) by {
        let i0 = if i < pos { i } else { i - 1 };
        let j0 = if j < pos { j } else { j - 1 };
        assert(i != pos && j != pos);
        assert(code2[i] == code[i0] && code2[j] == code[j0]);
        assert(0 <= i0 < j0 < code.len());
    }
    assert forall|i: int, a: int|
        0 <= i < code2.len() && 0 <= a < ids.len() && is_label_instr(#[trigger] code2[i]) implies
        label_value(code2[i].name@) != #[trigger] ids[a] by {
        if i < pos {
            assert(code2[i] == code[i]);
        } else if i > pos {
            assert(code2[i] == code[i - 1]);
        }
    }
}


/// Inserting a non-branch instruction before a non-branch position
/// keeps every conditional branch next to its comparison.
pub proof fn lemma_conds_insert(
    pre: Seq<LtacInstr>,
    pos: int,
    fc: LtacInstr,
    c2: Seq<LtacInstr>,
)
    requires
        conds_follow_cmp(pre),
        !is_cond_branch(fc),
        0 <= pos < pre.len(),
        !is_cond_branch(pre[pos]),
        c2.len() == pre.len() + 1,
        forall|l: int| 0 <= l < pos ==> c2[l] == #[trigger] pre[l],
        c2[pos] == fc,
        forall|l: int| pos < l < c2.len() ==> c2[l] == #[trigger] pre[l - 1],
    ensures
        conds_follow_cmp(c2),
{
    if pos > 0 {
        assert(c2[0] == pre[0]);
    }
    assert forall|j: int, i: int|
        0 <= j && i == j + 1 && i < c2.len() && is_cond_branch(#[trigger] c2[i]) implies (
    #[trigger] c2[j]).instr_type == LtacType::I32Cmp by {
        if i < pos {
            assert(c2[i] == pre[i]);
            assert(c2[j] == pre[j]);
        } else if i == pos {
            assert(c2[i] == fc);
        } else if j == pos {
            assert(c2[i] == pre[i - 1]);
        } else {
            assert(c2[i] == pre[i - 1]);
            assert(c2[j] == pre[j - 1]);
        }
    }
}

} // verus!
