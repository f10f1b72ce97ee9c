//! File-level invariants of emitted LTAC and the lemmas that carry
//! them through translation.
//!
//! A finished file keeps every function header aligned — the frame
//! size is a multiple of sixteen and at least the local high-water
//! mark recorded beside it — and every function region terminated: a
//! `Ret` follows each `Func` before the next one.

use vstd::prelude::*;

use crate::ltac::{LtacInstr, LtacType};

verus! {

/// Every function header carries a frame size that is a multiple of
/// sixteen and at least the local high-water mark in its second side
/// field.
pub open spec fn frames_aligned(code: Seq<LtacInstr>) -> bool {
    forall|i: int|
        0 <= i < code.len() && (#[trigger] code[i]).instr_type == LtacType::Func ==> {
            &&& code[i].arg1_val % 16 == 0
            &&& code[i].arg1_val >= code[i].arg2_val
            &&& code[i].arg2_val >= 0
        }
}

/// Scanning forward from position `i`, a `Ret` appears before the
/// next `Func` and before the end of the stream.
pub open spec fn ret_follows(code: Seq<LtacInstr>, i: int) -> bool
    decreases code.len() - i when 0 <= i
{
    if i + 1 >= code.len() {
        false
    } else if code[i + 1].instr_type == LtacType::Ret {
        true
    } else if code[i + 1].instr_type == LtacType::Func {
        false
    } else {
        ret_follows(code, i + 1)
    }
}

/// Every `Func` is followed by a `Ret` before the next `Func`.
pub open spec fn funcs_have_ret(code: Seq<LtacInstr>) -> bool {
    forall|i: int|
        0 <= i < code.len() && (#[trigger] code[i]).instr_type == LtacType::Func
            ==> ret_follows(code, i)
}

/// A terminated region stays terminated when the stream keeps its
/// prefix: the scan never leaves the old range.
proof fn lemma_ret_follows_stable(code: Seq<LtacInstr>, c2: Seq<LtacInstr>, i: int)
    requires
        0 <= i,
        ret_follows(code, i),
        code.len() <= c2.len(),
        forall|l: int| 0 <= l < code.len() ==> c2[l] == #[trigger] code[l],
    ensures
        ret_follows(c2, i),
    decreases code.len() - i,
{
    if i + 1 < code.len() {
        if code[i + 1].instr_type == LtacType::Ret {
        } else {
            lemma_ret_follows_stable(code, c2, i + 1);
        }
    }
}

/// Appending header-free instructions disturbs neither invariant.
pub proof fn lemma_file_invs_append(code: Seq<LtacInstr>, c2: Seq<LtacInstr>)
    requires
        frames_aligned(code),
        funcs_have_ret(code),
        code.len() <= c2.len(),
        forall|l: int| 0 <= l < code.len() ==> c2[l] == #[trigger] code[l],
        forall|l: int|
            code.len() <= l < c2.len() ==> (#[trigger] c2[l]).instr_type != LtacType::Func,
    ensures
        frames_aligned(c2),
        funcs_have_ret(c2),
{
    assert forall|i: int|
        0 <= i < c2.len() && (#[trigger] c2[i]).instr_type == LtacType::Func implies {
        &&& c2[i].arg1_val % 16 == 0
        &&& c2[i].arg1_val >= c2[i].arg2_val
        &&& c2[i].arg2_val >= 0
        &&& ret_follows(c2, i)
    } by {
        assert(i < code.len());
        assert(c2[i] == code[i]);
        lemma_ret_follows_stable(code, c2, i);
    }
}

/// The index of the first `Ret` at or after position `k`, or the
/// length when there is none.
pub open spec fn first_ret(body: Seq<LtacInstr>, k: int) -> int
    decreases body.len() - k when 0 <= k <= body.len()
{
    if k >= body.len() {
        k
    } else if body[k].instr_type == LtacType::Ret {
        k
    } else {
        first_ret(body, k + 1)
    }
}

/// When the stream ends in `Ret`, the first `Ret` is a real position,
/// and nothing before it is a `Ret`.
proof fn lemma_first_ret(body: Seq<LtacInstr>, k: int)
    requires
        0 <= k < body.len(),
        body.last().instr_type == LtacType::Ret,
    ensures
        k <= first_ret(body, k) < body.len(),
        body[first_ret(body, k)].instr_type == LtacType::Ret,
        forall|l: int|
            k <= l < first_ret(body, k) ==> (#[trigger] body[l]).instr_type != LtacType::Ret,
    decreases body.len() - k,
{
    if body[k].instr_type == LtacType::Ret {
    } else {
        assert(k < body.len() - 1);
        lemma_first_ret(body, k + 1);
    }
}

/// Scanning across a header-free stretch that ends in `Ret` succeeds.
proof fn lemma_ret_follows_span(c2: Seq<LtacInstr>, i: int, j: int)
    requires
        0 <= i < j < c2.len(),
        c2[j].instr_type == LtacType::Ret,
        forall|l: int| i < l < j ==> (#[trigger] c2[l]).instr_type != LtacType::Func,
        forall|l: int| i < l < j ==> (#[trigger] c2[l]).instr_type != LtacType::Ret,
    ensures
        ret_follows(c2, i),
    decreases j - i,
{
    if i + 1 == j {
    } else {
        lemma_ret_follows_span(c2, i + 1, j);
    }
}

/// Placing one aligned header before a header-free body that ends in
/// `Ret` keeps both invariants.  The combined stream `c2` is given by
/// its indices: the old stream, the header, then the body.
pub proof fn lemma_file_invs_extend(
    code: Seq<LtacInstr>,
    fc: LtacInstr,
    body: Seq<LtacInstr>,
    c2: Seq<LtacInstr>,
)
    requires
        frames_aligned(code),
        funcs_have_ret(code),
        fc.instr_type == LtacType::Func,
        fc.arg1_val % 16 == 0,
        fc.arg1_val >= fc.arg2_val,
        fc.arg2_val >= 0,
        body.len() > 0,
        body.last().instr_type == LtacType::Ret,
        forall|i: int| 0 <= i < body.len() ==> (#[trigger] body[i]).instr_type != LtacType::Func,
        c2.len() == code.len() + 1 + body.len(),
        forall|i: int| 0 <= i < code.len() ==> c2[i] == #[trigger] code[i],
        c2[code.len() as int] == fc,
        forall|i: int| 0 <= i < body.len() ==> c2[code.len() + 1 + i] == #[trigger] body[i],
    ensures
        frames_aligned(c2),
        funcs_have_ret(c2),
{
    let n = code.len() as int;
    assert forall|i: int| n < i < c2.len() implies c2[i] == body[i - n - 1] by {
        assert(c2[n + 1 + (i - n - 1)] == body[i - n - 1]);
    }
    let jb = first_ret(body, 0);
    lemma_first_ret(body, 0);
    assert forall|i: int|
        0 <= i < c2.len() && (#[trigger] c2[i]).instr_type == LtacType::Func implies {
        &&& c2[i].arg1_val % 16 == 0
        &&& c2[i].arg1_val >= c2[i].arg2_val
        &&& c2[i].arg2_val >= 0
        &&& ret_follows(c2, i)
    } by {
        if i < n {
            assert(c2[i] == code[i]);
            lemma_ret_follows_stable(code, c2, i);
        } else if i == n {
            let j = n + 1 + jb;
            assert(c2[j] == body[jb]);
            assert forall|l: int| i < l < j implies (#[trigger] c2[l]).instr_type
                != LtacType::Func && c2[l].instr_type != LtacType::Ret by {
                assert(c2[l] == body[l - n - 1]);
            }
            lemma_ret_follows_span(c2, i, j);
        } else {
            assert(c2[i] == body[i - n - 1]);
            assert(false);
        }
    }
}

} // verus!
