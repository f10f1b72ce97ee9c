//! Generated names: jump labels and data-section labels.
//!
//! The builder derives every label from a monotonic counter: jump
//! labels and string labels share one counter, float labels use a
//! second.  A name determines its counter value (`label_value` /
//! `data_label_value` read the digits back), which is what makes
//! uniqueness of emitted labels provable: distinct counter values give
//! distinct names.

use vstd::prelude::*;
use vstd::string::StringExecFns;

use crate::numtext::{dec_digits, dec_val, lemma_dec_val_of_digits, u32_text};

verus! {

/// The jump-label name for counter value `k`.
pub open spec fn label_text(k: int) -> Seq<char> {
    seq!['L'] + dec_digits(k)
}

/// The string-data label name for counter value `k`.
pub open spec fn str_label_text(k: int) -> Seq<char> {
    seq!['S', 'T', 'R'] + dec_digits(k)
}

/// The float-data label name for counter value `k`.
pub open spec fn flt_label_text(k: int) -> Seq<char> {
    seq!['F', 'L', 'T'] + dec_digits(k)
}

/// The counter value a jump-label name was generated from.
pub open spec fn label_value(s: Seq<char>) -> int {
    dec_val(s.skip(1))
}

/// The counter value a data label name was generated from.
pub open spec fn data_label_value(s: Seq<char>) -> int {
    dec_val(s.skip(3))
}

/// Holds when `s` is a generated jump-label name whose counter value
/// lies below `bound`.
pub open spec fn label_ok(s: Seq<char>, bound: int) -> bool {
    &&& s == label_text(label_value(s))
    &&& 0 <= label_value(s) < bound
}

/// A jump-label name reads back to the value it was generated from.
pub proof fn lemma_label_text_value(k: int)
    requires
        k >= 0,
    ensures
        label_value(label_text(k)) == k,
        label_text(k).len() >= 2,
        label_text(k)[0] == 'L',
    decreases k,
{
    assert(label_text(k).skip(1) =~= dec_digits(k));
    lemma_dec_val_of_digits(k);
}

/// A string-data label name reads back to the value it was generated
/// from.
pub proof fn lemma_str_label_text_value(k: int)
    requires
        k >= 0,
    ensures
        data_label_value(str_label_text(k)) == k,
        str_label_text(k).len() >= 4,
        str_label_text(k)[0] == 'S',
{
    assert(str_label_text(k).skip(3) =~= dec_digits(k));
    lemma_dec_val_of_digits(k);
}

/// A float-data label name reads back to the value it was generated
/// from.
pub proof fn lemma_flt_label_text_value(k: int)
    requires
        k >= 0,
    ensures
        data_label_value(flt_label_text(k)) == k,
        flt_label_text(k).len() >= 4,
        flt_label_text(k)[0] == 'F',
{
    assert(flt_label_text(k).skip(3) =~= dec_digits(k));
    lemma_dec_val_of_digits(k);
}

/// String-data and float-data labels never collide: their first
/// letters differ.
pub proof fn lemma_data_prefixes_disjoint(a: int, b: int)
    requires
        a >= 0,
        b >= 0,
    ensures
        str_label_text(a) != flt_label_text(b),
{
    assert(str_label_text(a)[0] == 'S');
    assert(flt_label_text(b)[0] == 'F');
}

/// Builds the jump-label name for counter value `k`.
pub fn make_label(k: u32) -> (r: String)
    ensures
        r@ == label_text(k as int),
{
    let mut s = String::from_str("L");
    proof {
        reveal_strlit("L");
        assert("L"@ =~= seq!['L']);
    }
    let digits = u32_text(k);
    s.append(digits.as_str());
    s
}

/// Builds the string-data label name for counter value `k`.
pub fn make_str_label(k: u32) -> (r: String)
    ensures
        r@ == str_label_text(k as int),
{
    let mut s = String::from_str("STR");
    proof {
        reveal_strlit("STR");
        assert("STR"@ =~= seq!['S', 'T', 'R']);
    }
    let digits = u32_text(k);
    s.append(digits.as_str());
    s
}

/// Builds the float-data label name for counter value `k`.
pub fn make_flt_label(k: u32) -> (r: String)
    ensures
        r@ == flt_label_text(k as int),
{
    let mut s = String::from_str("FLT");
    proof {
        reveal_strlit("FLT");
        assert("FLT"@ =~= seq!['F', 'L', 'T']);
    }
    let digits = u32_text(k);
    s.append(digits.as_str());
    s
}

} // verus!
