//! The lowering engine: AST to LTAC.
//!
//! [`LtacBuilder`] owns the translation-unit state: the file under
//! construction, the label counters, the function and constant tables,
//! the per-function symbol table, and the stack of open control-flow
//! frames.  [`builder_inv`] ties the state together; every lowering
//! step preserves it, which is what makes the emitted file satisfy the
//! label-uniqueness and frame invariants stated on [`build_ltac`].

use vstd::prelude::*;

use crate::ast::{string_eq, AstArg, AstArgType, AstMod, AstModType};
use crate::blocks::{
    all_frame_ids, is_label_instr, label_inv, lemma_bound_fresh, lemma_bound_fresh_ids,
    lemma_bound_widen, lemma_push_label, lemma_push_non_label, BlockFrame,
};
use crate::errors::{BuildErrorKind, ErrorManager};
use crate::labels::{
    data_label_value, flt_label_text, label_text, label_value, lemma_data_prefixes_disjoint,
    lemma_flt_label_text_value, lemma_str_label_text_value, make_flt_label, make_label,
    make_str_label, str_label_text,
};
use crate::ltac::{
    is_blank_instr, LtacArg, LtacData, LtacDataType, LtacFile, LtacInstr, LtacType,
};
use crate::numtext::{dec_digits, u64_text};

verus! {

/// Largest label counter value the builder will allocate.
pub const LABEL_LIMIT: u32 = 0x7FFF_FFFF;

/// The data types the lowering pass distinguishes.
#[derive(Clone, Copy, PartialEq, Eq, Structural, Debug)]
pub enum DataType {
    Void,
    Byte,
    ByteDynArray,
    UByte,
    UByteDynArray,
    Short,
    UShort,
    ShortDynArray,
    UShortDynArray,
    Int,
    UInt,
    IntDynArray,
    UIntDynArray,
    Int64,
    UInt64,
    I64DynArray,
    U64DynArray,
    Float,
    Double,
    FloatDynArray,
    DoubleDynArray,
    Char,
    Str,
}

/// One entry of the per-function symbol table: the stack slot, the
/// declared type, and whether the variable is a parameter.
#[derive(Clone, Copy, PartialEq, Eq, Structural, Debug)]
pub struct Var {
    pub pos: i32,
    pub data_type: DataType,
    pub is_param: bool,
}

/// The lowering engine for one translation unit.
pub struct LtacBuilder {
    pub file: LtacFile,
    pub errors: ErrorManager,
    pub str_pos: u32,
    pub flt_pos: u32,
    pub functions: Vec<(String, DataType)>,
    pub current_func: String,
    pub current_type: DataType,
    pub global_consts: Vec<(String, LtacArg)>,
    pub vars: Vec<(String, Var)>,
    pub stack_pos: i32,
    pub blocks: Vec<BlockFrame>,
}

/// A data entry carries the generated name for its counter value.
pub open spec fn data_entry_ok(d: LtacData, sbound: int, fbound: int) -> bool {
    match d.data_type {
        LtacDataType::StringL => {
            &&& d.name@ == str_label_text(data_label_value(d.name@))
            &&& 0 <= data_label_value(d.name@) < sbound
        },
        _ => {
            &&& d.name@ == flt_label_text(data_label_value(d.name@))
            &&& 0 <= data_label_value(d.name@) < fbound
        },
    }
}

/// Every data entry is well formed under the counter bounds.
pub open spec fn data_ok(data: Seq<LtacData>, sbound: int, fbound: int) -> bool {
    forall|i: int| 0 <= i < data.len() ==> data_entry_ok(#[trigger] data[i], sbound, fbound)
}

/// No two data entries share a name.
pub open spec fn data_distinct(data: Seq<LtacData>) -> bool {
    forall|i: int, j: int| 0 <= i < j < data.len() ==> data[i].name@ != data[j].name@
}

/// The builder's overall invariant.
pub open spec fn builder_inv(b: LtacBuilder) -> bool {
    &&& label_inv(b.file.code@, b.blocks@, b.str_pos as int)
    &&& crate::blocks::conds_follow_cmp(b.file.code@)
    &&& data_ok(b.file.data@, b.str_pos as int, b.flt_pos as int)
    &&& data_distinct(b.file.data@)
    &&& 0 <= b.stack_pos <= 0x7FFF_0008
}

/// A label counter value that neither the stream nor any frame holds.
pub open spec fn id_fresh(b: LtacBuilder, k: int) -> bool {
    &&& 0 <= k < b.str_pos as int
    &&& crate::blocks::value_fresh_for_code(b.file.code@, k)
    &&& crate::blocks::value_fresh_for_ids(all_frame_ids(b.blocks@), k)
}

/// Fields of the builder that carry symbol information, unchanged.
pub open spec fn tables_unchanged(a: LtacBuilder, b: LtacBuilder) -> bool {
    &&& b.functions@ == a.functions@
    &&& b.current_func@ == a.current_func@
    &&& b.current_type == a.current_type
    &&& b.global_consts@ == a.global_consts@
    &&& b.vars@ == a.vars@
    &&& b.stack_pos == a.stack_pos
}

/// The file name, data section, and counters, unchanged.
pub open spec fn data_unchanged(a: LtacBuilder, b: LtacBuilder) -> bool {
    &&& b.file.name@ == a.file.name@
    &&& b.file.data@ == a.file.data@
    &&& b.str_pos == a.str_pos
    &&& b.flt_pos == a.flt_pos
}

/// Diagnostics, unchanged.
pub open spec fn errors_unchanged(a: LtacBuilder, b: LtacBuilder) -> bool {
    b.errors.errors@ == a.errors.errors@
}

/// What every statement-lowering step guarantees: the stream and data
/// section only grow, what was emitted before is untouched, no
/// function header is emitted (only `build_functions` places those),
/// and the tables that belong to the translation unit stay intact.
pub open spec fn lowering_frame(a: LtacBuilder, b: LtacBuilder) -> bool {
    &&& b.file.name@ == a.file.name@
    &&& b.functions@ == a.functions@
    &&& b.global_consts@ == a.global_consts@
    &&& b.current_func@ == a.current_func@
    &&& b.current_type == a.current_type
    &&& b.str_pos >= a.str_pos
    &&& b.flt_pos >= a.flt_pos
    &&& b.file.code@.len() >= a.file.code@.len()
    &&& (forall|i: int| 0 <= i < a.file.code@.len() ==> b.file.code@[i] == a.file.code@[i])
    &&& (forall|i: int|
        a.file.code@.len() <= i < b.file.code@.len() ==> (#[trigger] b.file.code@[i]).instr_type
            != LtacType::Func)
    &&& b.file.data@.len() >= a.file.data@.len()
    &&& (forall|i: int| 0 <= i < a.file.data@.len() ==> b.file.data@[i] == a.file.data@[i])
    &&& b.errors.errors@.len() >= a.errors.errors@.len()
}

/// A `Label` instruction for counter value `k`, blank otherwise.
pub open spec fn is_label_named(i: LtacInstr, k: int) -> bool {
    &&& i.instr_type == LtacType::Label
    &&& i.name@ == label_text(k)
    &&& i.arg1 is Empty
    &&& i.arg2 is Empty
    &&& i.arg1_val == 0
    &&& i.arg2_val == 0
}

impl LtacBuilder {
    /// Appends a non-label instruction to the stream.
    pub fn emit(&mut self, instr: LtacInstr)
        requires
            builder_inv(*old(self)),
            !is_label_instr(instr),
            crate::blocks::is_cond_branch(instr) ==> old(self).file.code@.len() > 0 && old(
                self,
            ).file.code@.last().instr_type == LtacType::I32Cmp,
        ensures
            builder_inv(*final(self)),
            final(self).file.code@ == old(self).file.code@.push(instr),
            tables_unchanged(*old(self), *final(self)),
            data_unchanged(*old(self), *final(self)),
            errors_unchanged(*old(self), *final(self)),
            final(self).blocks@ == old(self).blocks@,
            forall|k: int| id_fresh(*old(self), k) ==> id_fresh(*final(self), k),
    {
        proof {
            lemma_push_non_label(
                self.file.code@,
                self.blocks@,
                self.str_pos as int,
                instr,
            );
            let code2 = self.file.code@.push(instr);
            if self.file.code@.len() > 0 {
                assert(code2[0] == self.file.code@[0]);
            }
            assert forall|j: int, i: int|
                0 <= j && i == j + 1 && i < code2.len() && crate::blocks::is_cond_branch(
                    #[trigger] code2[i],
                ) implies (#[trigger] code2[j]).instr_type == LtacType::I32Cmp by {
                if i < self.file.code@.len() {
                    assert(code2[i] == self.file.code@[i]);
                    assert(code2[j] == self.file.code@[j]);
                } else {
                    assert(code2[i] == instr);
                    assert(code2[j] == self.file.code@.last());
                }
            }
            assert forall|k: int| id_fresh(*self, k) implies crate::blocks::value_fresh_for_code(
                code2,
                k,
            ) by {
                assert forall|i: int|
                    0 <= i < code2.len() && is_label_instr(#[trigger] code2[i]) implies label_value(
                    code2[i].name@,
                ) != k by {
                    if i < self.file.code@.len() {
                        assert(code2[i] == self.file.code@[i]);
                    }
                }
            }
        }
        self.file.code.push(instr);
    }

    /// Appends the `Label` instruction for counter value `id`.
    pub fn emit_label(&mut self, id: u32)
        requires
            builder_inv(*old(self)),
            id_fresh(*old(self), id as int),
        ensures
            builder_inv(*final(self)),
            final(self).file.code@.len() == old(self).file.code@.len() + 1,
            final(self).file.code@ == old(self).file.code@.push(final(self).file.code@.last()),
            is_label_named(final(self).file.code@.last(), id as int),
            tables_unchanged(*old(self), *final(self)),
            data_unchanged(*old(self), *final(self)),
            errors_unchanged(*old(self), *final(self)),
            final(self).blocks@ == old(self).blocks@,
            forall|k: int|
                id_fresh(*old(self), k) && k != id as int ==> id_fresh(*final(self), k),
    {
        let mut instr = crate::ltac::create_instr(LtacType::Label);
        instr.name = make_label(id);
        proof {
            lemma_push_label(
                self.file.code@,
                self.blocks@,
                self.str_pos as int,
                instr,
                id as int,
            );
            crate::labels::lemma_label_text_value(id as int);
            let code2 = self.file.code@.push(instr);
            if self.file.code@.len() > 0 {
                assert(code2[0] == self.file.code@[0]);
            }
            assert forall|j: int, i: int|
                0 <= j && i == j + 1 && i < code2.len() && crate::blocks::is_cond_branch(
                    #[trigger] code2[i],
                ) implies (#[trigger] code2[j]).instr_type == LtacType::I32Cmp by {
                if i < self.file.code@.len() {
                    assert(code2[i] == self.file.code@[i]);
                    assert(code2[j] == self.file.code@[j]);
                } else {
                    assert(code2[i] == instr);
                    assert(code2[j] == self.file.code@.last());
                }
            }
            assert forall|k: int|
                id_fresh(*self, k) && k != id as int implies crate::blocks::value_fresh_for_code(
                code2,
                k,
            ) by {
                assert forall|i: int|
                    0 <= i < code2.len() && is_label_instr(#[trigger] code2[i]) implies label_value(
                    code2[i].name@,
                ) != k by {
                    if i < self.file.code@.len() {
                        assert(code2[i] == self.file.code@[i]);
                    } else {
                        assert(code2[i] == instr);
                        assert(label_value(instr.name@) == id as int);
                    }
                }
            }
        }
        self.file.code.push(instr);
    }

    /// Allocates a fresh label counter value.
    pub fn next_label(&mut self) -> (id: u32)
        requires
            builder_inv(*old(self)),
            old(self).str_pos < LABEL_LIMIT,
        ensures
            builder_inv(*final(self)),
            id == old(self).str_pos,
            final(self).str_pos == old(self).str_pos + 1,
            final(self).flt_pos == old(self).flt_pos,
            final(self).file.code@ == old(self).file.code@,
            final(self).file.data@ == old(self).file.data@,
            final(self).file.name@ == old(self).file.name@,
            tables_unchanged(*old(self), *final(self)),
            errors_unchanged(*old(self), *final(self)),
            final(self).blocks@ == old(self).blocks@,
            id_fresh(*final(self), id as int),
            forall|k: int| id_fresh(*old(self), k) ==> id_fresh(*final(self), k),
    {
        let id = self.str_pos;
        self.str_pos = self.str_pos + 1;
        proof {
            lemma_bound_widen(
                self.file.code@,
                self.blocks@,
                id as int,
                self.str_pos as int,
            );
            lemma_bound_fresh(self.file.code@, id as int, id as int);
            lemma_bound_fresh_ids(all_frame_ids(self.blocks@), id as int, id as int);
        }
        id
    }

    /// Builds a string literal into the data section and returns the
    /// generated label name.
    pub fn build_string(&mut self, val: String) -> (name: String)
        requires
            builder_inv(*old(self)),
            old(self).str_pos < LABEL_LIMIT,
        ensures
            builder_inv(*final(self)),
            name@ == str_label_text(old(self).str_pos as int),
            final(self).str_pos == old(self).str_pos + 1,
            final(self).flt_pos == old(self).flt_pos,
            final(self).file.data@.len() == old(self).file.data@.len() + 1,
            forall|i: int|
                0 <= i < old(self).file.data@.len() ==> final(self).file.data@[i] == old(
                    self,
                ).file.data@[i],
            final(self).file.data@.last().data_type == LtacDataType::StringL,
            final(self).file.data@.last().name@ == str_label_text(old(self).str_pos as int),
            final(self).file.data@.last().val@ == val@,
            final(self).file.code@ == old(self).file.code@,
            final(self).file.name@ == old(self).file.name@,
            tables_unchanged(*old(self), *final(self)),
            errors_unchanged(*old(self), *final(self)),
            final(self).blocks@ == old(self).blocks@,
            forall|k: int| id_fresh(*old(self), k) ==> id_fresh(*final(self), k),
    {
        let id = self.str_pos;
        self.str_pos = self.str_pos + 1;
        let name = make_str_label(id);
        let entry = LtacData {
            data_type: LtacDataType::StringL,
            name: make_str_label(id),
            val,
        };
        proof {
            lemma_bound_widen(self.file.code@, self.blocks@, id as int, self.str_pos as int);
            lemma_str_label_text_value(id as int);
            let data2 = self.file.data@.push(entry);
            assert forall|i: int|
                0 <= i < data2.len() implies data_entry_ok(
                #[trigger] data2[i],
                self.str_pos as int,
                self.flt_pos as int,
            ) by {
                if i < self.file.data@.len() {
                    assert(data2[i] == self.file.data@[i]);
                } else {
                    assert(data2[i] == entry);
                }
            }
            assert forall|i: int, j: int| 0 <= i < j < data2.len() implies data2[i].name@
                != data2[j].name@ by {
                if j < self.file.data@.len() {
                    assert(data2[i] == self.file.data@[i] && data2[j] == self.file.data@[j]);
                } else {
                    assert(data2[j] == entry);
                    assert(data2[i] == self.file.data@[i]);
                    let d = self.file.data@[i];
                    match d.data_type {
                        LtacDataType::StringL => {
                            if d.name@ == entry.name@ {
                                assert(data_label_value(d.name@) == id as int);
                            }
                        },
                        _ => {
                            if d.name@ == entry.name@ {
                                lemma_data_prefixes_disjoint(
                                    id as int,
                                    data_label_value(d.name@),
                                );
                                assert(d.name@ == flt_label_text(data_label_value(d.name@)));
                                assert(false);
                            }
                        },
                    }
                }
            }
        }
        self.file.data.push(entry);
        name
    }

    /// Builds a float literal into the data section and returns the
    /// generated label name.  The caller passes the IEEE-754 bit
    /// pattern: the double encoding for `is_double`, the single
    /// encoding otherwise.  `negate_next` flips the sign bit first.
    pub fn build_float(&mut self, bits: u64, is_double: bool, negate_next: bool) -> (name:
        String)
        requires
            builder_inv(*old(self)),
            old(self).flt_pos < LABEL_LIMIT,
        ensures
            builder_inv(*final(self)),
            name@ == flt_label_text(old(self).flt_pos as int),
            final(self).flt_pos == old(self).flt_pos + 1,
            final(self).str_pos == old(self).str_pos,
            final(self).file.data@.len() == old(self).file.data@.len() + 1,
            forall|i: int|
                0 <= i < old(self).file.data@.len() ==> final(self).file.data@[i] == old(
                    self,
                ).file.data@[i],
            final(self).file.data@.last().data_type == (if is_double {
                LtacDataType::DoubleL
            } else {
                LtacDataType::FloatL
            }),
            final(self).file.data@.last().name@ == flt_label_text(old(self).flt_pos as int),
            final(self).file.data@.last().val@ == dec_digits(
                flt_stored_bits(bits, is_double, negate_next) as int,
            ),
            final(self).file.code@ == old(self).file.code@,
            final(self).file.name@ == old(self).file.name@,
            tables_unchanged(*old(self), *final(self)),
            errors_unchanged(*old(self), *final(self)),
            final(self).blocks@ == old(self).blocks@,
            forall|k: int| id_fresh(*old(self), k) ==> id_fresh(*final(self), k),
    {
        let id = self.flt_pos;
        self.flt_pos = self.flt_pos + 1;
        let name = make_flt_label(id);
        let stored: u64 = if is_double {
            if negate_next {
                bits ^ 0x8000_0000_0000_0000u64
            } else {
                bits
            }
        } else {
            let low: u32 = bits as u32;
            let flipped: u32 = if negate_next {
                low ^ 0x8000_0000u32
            } else {
                low
            };
            flipped as u64
        };
        let entry = LtacData {
            data_type: if is_double {
                LtacDataType::DoubleL
            } else {
                LtacDataType::FloatL
            },
            name: make_flt_label(id),
            val: u64_text(stored),
        };
        proof {
            lemma_flt_label_text_value(id as int);
            let data2 = self.file.data@.push(entry);
            assert forall|i: int|
                0 <= i < data2.len() implies data_entry_ok(
                #[trigger] data2[i],
                self.str_pos as int,
                self.flt_pos as int,
            ) by {
                if i < self.file.data@.len() {
                    assert(data2[i] == self.file.data@[i]);
                } else {
                    assert(data2[i] == entry);
                }
            }
            assert forall|i: int, j: int| 0 <= i < j < data2.len() implies data2[i].name@
                != data2[j].name@ by {
                if j < self.file.data@.len() {
                    assert(data2[i] == self.file.data@[i] && data2[j] == self.file.data@[j]);
                } else {
                    assert(data2[j] == entry);
                    assert(data2[i] == self.file.data@[i]);
                    let d = self.file.data@[i];
                    match d.data_type {
                        LtacDataType::StringL => {
                            if d.name@ == entry.name@ {
                                lemma_data_prefixes_disjoint(
                                    data_label_value(d.name@),
                                    id as int,
                                );
                                assert(d.name@ == str_label_text(data_label_value(d.name@)));
                                assert(false);
                            }
                        },
                        _ => {
                            if d.name@ == entry.name@ {
                                assert(data_label_value(d.name@) == id as int);
                            }
                        },
                    }
                }
            }
        }
        self.file.data.push(entry);
        name
    }
}

/// The bit pattern a float literal is stored with.
pub open spec fn flt_stored_bits(bits: u64, is_double: bool, negate_next: bool) -> u64 {
    if is_double {
        if negate_next {
            bits ^ 0x8000_0000_0000_0000u64
        } else {
            bits
        }
    } else {
        if negate_next {
            ((bits as u32) ^ 0x8000_0000u32) as u64
        } else {
            (bits as u32) as u64
        }
    }
}

/// Creates a fresh builder for a translation unit of the given name.
pub fn new_ltac_builder(name: String) -> (b: LtacBuilder)
    ensures
        builder_inv(b),
        b.file.name@ == name@,
        b.file.data@.len() == 0,
        b.file.code@.len() == 0,
        b.errors.errors@.len() == 0,
        b.str_pos == 0,
        b.flt_pos == 0,
        b.functions@.len() == 0,
        b.current_func@ == Seq::<char>::empty(),
        b.current_type == DataType::Void,
        b.global_consts@.len() == 0,
        b.vars@.len() == 0,
        b.stack_pos == 0,
        b.blocks@.len() == 0,
{
    let b = LtacBuilder {
        file: LtacFile { name, data: Vec::new(), code: Vec::new() },
        errors: crate::errors::create_error_manager(),
        str_pos: 0,
        flt_pos: 0,
        functions: Vec::new(),
        current_func: String::new(),
        current_type: DataType::Void,
        global_consts: Vec::new(),
        vars: Vec::new(),
        stack_pos: 0,
        blocks: Vec::new(),
    };
    proof {
        assert(all_frame_ids(b.blocks@) =~= Seq::<int>::empty());
    }
    b
}

/// The variable a name denotes: the most recent declaration wins.
pub open spec fn var_table_lookup(entries: Seq<(String, Var)>, name: Seq<char>) -> Option<Var>
    decreases entries.len(),
{
    if entries.len() == 0 {
        Option::None
    } else if entries.last().0@ == name {
        Option::Some(entries.last().1)
    } else {
        var_table_lookup(entries.drop_last(), name)
    }
}

/// Looks a name up in the symbol table.
pub fn var_lookup(entries: &Vec<(String, Var)>, name: &String) -> (r: Option<Var>)
    ensures
        r == var_table_lookup(entries@, name@),
{
    let mut i: usize = entries.len();
    proof {
        assert(entries@.subrange(0, entries@.len() as int) =~= entries@);
    }
    while i > 0
        invariant
            i <= entries@.len(),
            var_table_lookup(entries@, name@) == var_table_lookup(
                entries@.subrange(0, i as int),
                name@,
            ),
        decreases i,
    {
        i = i - 1;
        proof {
            assert(entries@.subrange(0, i + 1).drop_last() =~= entries@.subrange(0, i as int));
            assert(entries@.subrange(0, i + 1).last() == entries@[i as int]);
        }
        if string_eq(&entries[i].0, name) {
            return Some(entries[i].1);
        }
    }
    proof {
        assert(entries@.subrange(0, 0) =~= Seq::<(String, Var)>::empty());
    }
    None
}

/// The return type a function name denotes.
pub open spec fn func_table_lookup(
    entries: Seq<(String, DataType)>,
    name: Seq<char>,
) -> Option<DataType>
    decreases entries.len(),
{
    if entries.len() == 0 {
        Option::None
    } else if entries.last().0@ == name {
        Option::Some(entries.last().1)
    } else {
        func_table_lookup(entries.drop_last(), name)
    }
}

/// Looks a name up in the function table.
pub fn func_lookup(entries: &Vec<(String, DataType)>, name: &String) -> (r: Option<DataType>)
    ensures
        r == func_table_lookup(entries@, name@),
{
    let mut i: usize = entries.len();
    proof {
        assert(entries@.subrange(0, entries@.len() as int) =~= entries@);
    }
    while i > 0
        invariant
            i <= entries@.len(),
            func_table_lookup(entries@, name@) == func_table_lookup(
                entries@.subrange(0, i as int),
                name@,
            ),
        decreases i,
    {
        i = i - 1;
        proof {
            assert(entries@.subrange(0, i + 1).drop_last() =~= entries@.subrange(0, i as int));
            assert(entries@.subrange(0, i + 1).last() == entries@[i as int]);
        }
        if string_eq(&entries[i].0, name) {
            return Some(entries[i].1);
        }
    }
    proof {
        assert(entries@.subrange(0, 0) =~= Seq::<(String, DataType)>::empty());
    }
    None
}

/// The index of the entry a constant name denotes, most recent first.
pub open spec fn const_table_find(
    entries: Seq<(String, LtacArg)>,
    name: Seq<char>,
) -> Option<int>
    decreases entries.len(),
{
    if entries.len() == 0 {
        Option::None
    } else if entries.last().0@ == name {
        Option::Some(entries.len() - 1)
    } else {
        const_table_find(entries.drop_last(), name)
    }
}

/// An absent constant name means no entry bears it.
pub proof fn lemma_const_find_absent(entries: Seq<(String, LtacArg)>, name: Seq<char>)
    requires
        const_table_find(entries, name) is None,
    ensures
        forall|i: int| 0 <= i < entries.len() ==> (#[trigger] entries[i]).0@ != name,
    decreases entries.len(),
{
    if entries.len() > 0 {
        lemma_const_find_absent(entries.drop_last(), name);
        assert forall|i: int| 0 <= i < entries.len() implies (#[trigger] entries[i]).0@
            != name by {
            if i < entries.len() - 1 {
                assert(entries.drop_last()[i] == entries[i]);
            }
        }
    }
}

/// A found constant index bears the looked-up name.
pub proof fn lemma_const_find_present(entries: Seq<(String, LtacArg)>, name: Seq<char>)
    ensures
        match const_table_find(entries, name) {
            Option::Some(ix) => 0 <= ix < entries.len() && entries[ix].0@ == name,
            Option::None => true,
        },
    decreases entries.len(),
{
    if entries.len() > 0 && entries.last().0@ != name {
        lemma_const_find_present(entries.drop_last(), name);
        match const_table_find(entries.drop_last(), name) {
            Option::Some(ix) => {
                assert(entries.drop_last()[ix] == entries[ix]);
            },
            Option::None => {},
        }
    }
}

/// Looks a name up in the constant table, returning its index.
pub fn const_lookup(entries: &Vec<(String, LtacArg)>, name: &String) -> (r: Option<usize>)
    ensures
        r matches Some(i) ==> const_table_find(entries@, name@) == Option::Some(i as int),
        r is None ==> const_table_find(entries@, name@) is None,
{
    let mut i: usize = entries.len();
    proof {
        assert(entries@.subrange(0, entries@.len() as int) =~= entries@);
    }
    while i > 0
        invariant
            i <= entries@.len(),
            const_table_find(entries@, name@) == const_table_find(
                entries@.subrange(0, i as int),
                name@,
            ),
        decreases i,
    {
        i = i - 1;
        proof {
            assert(entries@.subrange(0, i + 1).drop_last() =~= entries@.subrange(0, i as int));
            assert(entries@.subrange(0, i + 1).last() == entries@[i as int]);
            assert(entries@.subrange(0, i + 1).len() == i + 1);
        }
        if string_eq(&entries[i].0, name) {
            return Some(i);
        }
    }
    proof {
        assert(entries@.subrange(0, 0) =~= Seq::<(String, LtacArg)>::empty());
    }
    None
}

/// The data type a declared modifier denotes.
pub open spec fn datatype_of(m: AstModType) -> DataType {
    match m {
        AstModType::Byte => DataType::Byte,
        AstModType::ByteDynArray => DataType::ByteDynArray,
        AstModType::UByte => DataType::UByte,
        AstModType::UByteDynArray => DataType::UByteDynArray,
        AstModType::Short => DataType::Short,
        AstModType::UShort => DataType::UShort,
        AstModType::ShortDynArray => DataType::ShortDynArray,
        AstModType::UShortDynArray => DataType::UShortDynArray,
        AstModType::Int => DataType::Int,
        AstModType::UInt => DataType::UInt,
        AstModType::IntDynArray => DataType::IntDynArray,
        AstModType::UIntDynArray => DataType::UIntDynArray,
        AstModType::Int64 => DataType::Int64,
        AstModType::UInt64 => DataType::UInt64,
        AstModType::I64DynArray => DataType::I64DynArray,
        AstModType::U64DynArray => DataType::U64DynArray,
        AstModType::Float => DataType::Float,
        AstModType::Double => DataType::Double,
        AstModType::FloatDynArray => DataType::FloatDynArray,
        AstModType::DoubleDynArray => DataType::DoubleDynArray,
        AstModType::Char => DataType::Char,
        AstModType::Str => DataType::Str,
        _ => DataType::Void,
    }
}

/// Maps a declared modifier to the lowering pass's data type.
pub fn ast_to_datatype(ast_mod: &AstMod) -> (r: DataType)
    ensures
        r == datatype_of(ast_mod.mod_type),
{
    match &ast_mod.mod_type {
        AstModType::Byte => DataType::Byte,
        AstModType::ByteDynArray => DataType::ByteDynArray,
        AstModType::UByte => DataType::UByte,
        AstModType::UByteDynArray => DataType::UByteDynArray,
        AstModType::Short => DataType::Short,
        AstModType::UShort => DataType::UShort,
        AstModType::ShortDynArray => DataType::ShortDynArray,
        AstModType::UShortDynArray => DataType::UShortDynArray,
        AstModType::Int => DataType::Int,
        AstModType::UInt => DataType::UInt,
        AstModType::IntDynArray => DataType::IntDynArray,
        AstModType::UIntDynArray => DataType::UIntDynArray,
        AstModType::Int64 => DataType::Int64,
        AstModType::UInt64 => DataType::UInt64,
        AstModType::I64DynArray => DataType::I64DynArray,
        AstModType::U64DynArray => DataType::U64DynArray,
        AstModType::Float => DataType::Float,
        AstModType::Double => DataType::Double,
        AstModType::FloatDynArray => DataType::FloatDynArray,
        AstModType::DoubleDynArray => DataType::DoubleDynArray,
        AstModType::Char => DataType::Char,
        AstModType::Str => DataType::Str,
        _ => DataType::Void,
    }
}

/// The move operation for a data type.
pub open spec fn mov_op_for(data_type: DataType) -> LtacType {
    match data_type {
        DataType::Byte | DataType::ByteDynArray => LtacType::MovB,
        DataType::UByte | DataType::UByteDynArray => LtacType::MovUB,
        DataType::Short | DataType::ShortDynArray => LtacType::MovW,
        DataType::UShort | DataType::UShortDynArray => LtacType::MovUW,
        DataType::Int | DataType::IntDynArray => LtacType::Mov,
        DataType::UInt | DataType::UIntDynArray => LtacType::MovU,
        DataType::Int64 | DataType::I64DynArray => LtacType::MovQ,
        DataType::UInt64 | DataType::U64DynArray => LtacType::MovUQ,
        DataType::Float | DataType::FloatDynArray => LtacType::MovF32,
        DataType::Double | DataType::DoubleDynArray => LtacType::MovF64,
        DataType::Char | DataType::Str => LtacType::MovB,
        _ => LtacType::Mov,
    }
}

/// Returns a blank move instruction of the width for the given type.
pub fn mov_for_type(data_type: &DataType) -> (instr: LtacInstr)
    ensures
        is_blank_instr(instr, mov_op_for(*data_type)),
{
    crate::ltac::create_instr(
        match data_type {
            DataType::Byte | DataType::ByteDynArray => LtacType::MovB,
            DataType::UByte | DataType::UByteDynArray => LtacType::MovUB,
            DataType::Short | DataType::ShortDynArray => LtacType::MovW,
            DataType::UShort | DataType::UShortDynArray => LtacType::MovUW,
            DataType::Int | DataType::IntDynArray => LtacType::Mov,
            DataType::UInt | DataType::UIntDynArray => LtacType::MovU,
            DataType::Int64 | DataType::I64DynArray => LtacType::MovQ,
            DataType::UInt64 | DataType::U64DynArray => LtacType::MovUQ,
            DataType::Float | DataType::FloatDynArray => LtacType::MovF32,
            DataType::Double | DataType::DoubleDynArray => LtacType::MovF64,
            DataType::Char | DataType::Str => LtacType::MovB,
            _ => LtacType::Mov,
        },
    )
}

/// The register class for a data type.
pub open spec fn reg_arg_for(data_type: DataType, reg_no: int) -> LtacArg {
    match data_type {
        DataType::Byte | DataType::ByteDynArray => LtacArg::Reg8(reg_no as i32),
        DataType::UByte | DataType::UByteDynArray => LtacArg::Reg8(reg_no as i32),
        DataType::Short | DataType::ShortDynArray => LtacArg::Reg16(reg_no as i32),
        DataType::UShort | DataType::UShortDynArray => LtacArg::Reg16(reg_no as i32),
        DataType::Int | DataType::IntDynArray => LtacArg::Reg32(reg_no as i32),
        DataType::UInt | DataType::UIntDynArray => LtacArg::Reg32(reg_no as i32),
        DataType::Int64 | DataType::I64DynArray => LtacArg::Reg64(reg_no as i32),
        DataType::UInt64 | DataType::U64DynArray => LtacArg::Reg64(reg_no as i32),
        DataType::Float | DataType::FloatDynArray => LtacArg::FltReg(reg_no as i32),
        DataType::Double | DataType::DoubleDynArray => LtacArg::FltReg64(reg_no as i32),
        DataType::Char | DataType::Str => LtacArg::Reg8(reg_no as i32),
        _ => LtacArg::Reg32(reg_no as i32),
    }
}

/// Returns the register operand of the right class for a data type.
pub fn reg_for_type(data_type: &DataType, reg_no: i32) -> (arg: LtacArg)
    ensures
        arg == reg_arg_for(*data_type, reg_no as int),
{
    match data_type {
        DataType::Byte | DataType::ByteDynArray => LtacArg::Reg8(reg_no),
        DataType::UByte | DataType::UByteDynArray => LtacArg::Reg8(reg_no),
        DataType::Short | DataType::ShortDynArray => LtacArg::Reg16(reg_no),
        DataType::UShort | DataType::UShortDynArray => LtacArg::Reg16(reg_no),
        DataType::Int | DataType::IntDynArray => LtacArg::Reg32(reg_no),
        DataType::UInt | DataType::UIntDynArray => LtacArg::Reg32(reg_no),
        DataType::Int64 | DataType::I64DynArray => LtacArg::Reg64(reg_no),
        DataType::UInt64 | DataType::U64DynArray => LtacArg::Reg64(reg_no),
        DataType::Float | DataType::FloatDynArray => LtacArg::FltReg(reg_no),
        DataType::Double | DataType::DoubleDynArray => LtacArg::FltReg64(reg_no),
        DataType::Char | DataType::Str => LtacArg::Reg8(reg_no),
        _ => LtacArg::Reg32(reg_no),
    }
}

/// The argument-load operation for a data type, `Nop` when parameters
/// of that type are not supported.
pub open spec fn ldarg_op_for(data_type: DataType) -> LtacType {
    match data_type {
        DataType::Byte => LtacType::LdArgI8,
        DataType::UByte => LtacType::LdArgU8,
        DataType::Short => LtacType::LdArgI16,
        DataType::UShort => LtacType::LdArgU16,
        DataType::Int => LtacType::LdArgI32,
        DataType::UInt => LtacType::LdArgU32,
        DataType::Int64 => LtacType::LdArgI64,
        DataType::UInt64 => LtacType::LdArgU64,
        DataType::Float => LtacType::LdArgF32,
        DataType::Double => LtacType::LdArgF64,
        DataType::Str | DataType::IntDynArray => LtacType::LdArgPtr,
        _ => LtacType::Nop,
    }
}

/// Returns the argument-load instruction for a parameter of the given
/// type, destination, and 1-based position.  For unsupported types the
/// result is a blank `Nop`.
pub fn ldarg_for_type(data_type: &DataType, dest: LtacArg, pos: i32) -> (instr: LtacInstr)
    ensures
        instr.instr_type == ldarg_op_for(*data_type),
        ldarg_op_for(*data_type) != LtacType::Nop ==> instr.arg1 == dest && instr.arg2_val
            == pos && instr.name@ == Seq::<char>::empty() && instr.arg1_val == 0
            && instr.arg1_offset == 0 && instr.arg2 is Empty,
        ldarg_op_for(*data_type) == LtacType::Nop ==> is_blank_instr(instr, LtacType::Nop),
{
    let op = match data_type {
        DataType::Byte => LtacType::LdArgI8,
        DataType::UByte => LtacType::LdArgU8,
        DataType::Short => LtacType::LdArgI16,
        DataType::UShort => LtacType::LdArgU16,
        DataType::Int => LtacType::LdArgI32,
        DataType::UInt => LtacType::LdArgU32,
        DataType::Int64 => LtacType::LdArgI64,
        DataType::UInt64 => LtacType::LdArgU64,
        DataType::Float => LtacType::LdArgF32,
        DataType::Double => LtacType::LdArgF64,
        DataType::Str | DataType::IntDynArray => LtacType::LdArgPtr,
        _ => LtacType::Nop,
    };
    let mut instr = crate::ltac::create_instr(op);
    if !matches!(op, LtacType::Nop) {
        instr.arg1 = dest;
        instr.arg2_val = pos;
    }
    instr
}

/// Whether a constant declaration of this type accepts this literal.
pub open spec fn const_arg_ok(dt: DataType, val: AstArg) -> bool {
    match dt {
        DataType::Byte | DataType::UByte => val.arg_type == AstArgType::ByteL || val.arg_type
            == AstArgType::IntL,
        DataType::Short | DataType::UShort => val.arg_type == AstArgType::ShortL
            || val.arg_type == AstArgType::IntL,
        DataType::Int | DataType::UInt | DataType::Int64 | DataType::UInt64 => val.arg_type
            == AstArgType::IntL,
        _ => false,
    }
}

/// The literal operand a constant declaration stores: the literal's
/// value, reinterpreted at the declared width.
pub open spec fn const_arg_val(dt: DataType, val: AstArg) -> LtacArg {
    match dt {
        DataType::Byte => if val.arg_type == AstArgType::ByteL {
            LtacArg::Byte(val.u8_val as i8)
        } else {
            LtacArg::Byte(val.u64_val as i8)
        },
        DataType::UByte => if val.arg_type == AstArgType::ByteL {
            LtacArg::UByte(val.u8_val)
        } else {
            LtacArg::UByte(val.u64_val as u8)
        },
        DataType::Short => if val.arg_type == AstArgType::ShortL {
            LtacArg::I16(val.u16_val as i16)
        } else {
            LtacArg::I16(val.u64_val as i16)
        },
        DataType::UShort => if val.arg_type == AstArgType::ShortL {
            LtacArg::U16(val.u16_val)
        } else {
            LtacArg::U16(val.u64_val as u16)
        },
        DataType::Int => LtacArg::I32(val.u64_val as i32),
        DataType::UInt => LtacArg::U32(val.u64_val as u32),
        DataType::Int64 => LtacArg::I64(val.u64_val as i64),
        DataType::UInt64 => LtacArg::U64(val.u64_val),
        _ => LtacArg::Empty,
    }
}


/// Lowering-step guarantees compose.
pub proof fn lemma_lowering_frame_trans(a: LtacBuilder, b: LtacBuilder, c: LtacBuilder)
    requires
        lowering_frame(a, b),
        lowering_frame(b, c),
    ensures
        lowering_frame(a, c),
{
    assert forall|i: int| 0 <= i < a.file.code@.len() implies c.file.code@[i]
        == a.file.code@[i] by {
        assert(b.file.code@[i] == a.file.code@[i]);
        assert(c.file.code@[i] == b.file.code@[i]);
    }
    assert forall|i: int|
        a.file.code@.len() <= i < c.file.code@.len() implies (
    #[trigger] c.file.code@[i]).instr_type != LtacType::Func by {
        if i < b.file.code@.len() {
            assert(c.file.code@[i] == b.file.code@[i]);
        }
    }
    assert forall|i: int| 0 <= i < a.file.data@.len() implies c.file.data@[i]
        == a.file.data@[i] by {
        assert(b.file.data@[i] == a.file.data@[i]);
    }
}

/// The constant operand a declaration stores, when the literal fits
/// the declared type.
fn const_arg_for(dt: &DataType, val: &AstArg) -> (r: Option<LtacArg>)
    ensures
        r is Some <==> const_arg_ok(*dt, *val),
        r matches Some(a) ==> a == const_arg_val(*dt, *val),
{
    match dt {
        DataType::Byte => match val.arg_type {
            AstArgType::ByteL => Some(LtacArg::Byte(#[verifier::truncate] (val.u8_val as i8))),
            AstArgType::IntL => Some(LtacArg::Byte(#[verifier::truncate] (val.u64_val as i8))),
            _ => None,
        },
        DataType::UByte => match val.arg_type {
            AstArgType::ByteL => Some(LtacArg::UByte(val.u8_val)),
            AstArgType::IntL => Some(LtacArg::UByte(#[verifier::truncate] (val.u64_val as u8))),
            _ => None,
        },
        DataType::Short => match val.arg_type {
            AstArgType::ShortL => Some(LtacArg::I16(#[verifier::truncate] (val.u16_val as i16))),
            AstArgType::IntL => Some(LtacArg::I16(#[verifier::truncate] (val.u64_val as i16))),
            _ => None,
        },
        DataType::UShort => match val.arg_type {
            AstArgType::ShortL => Some(LtacArg::U16(val.u16_val)),
            AstArgType::IntL => Some(LtacArg::U16(#[verifier::truncate] (val.u64_val as u16))),
            _ => None,
        },
        DataType::Int => match val.arg_type {
            AstArgType::IntL => Some(LtacArg::I32(#[verifier::truncate] (val.u64_val as i32))),
            _ => None,
        },
        DataType::UInt => match val.arg_type {
            AstArgType::IntL => Some(LtacArg::U32(#[verifier::truncate] (val.u64_val as u32))),
            _ => None,
        },
        DataType::Int64 => match val.arg_type {
            AstArgType::IntL => Some(LtacArg::I64(#[verifier::truncate] (val.u64_val as i64))),
            _ => None,
        },
        DataType::UInt64 => match val.arg_type {
            AstArgType::IntL => Some(LtacArg::U64(val.u64_val)),
            _ => None,
        },
        _ => None,
    }
}

/// The frame size for a local high-water mark: zero for an empty
/// frame, else the next multiple of sixteen with at least one spare
/// byte.
pub open spec fn spec_frame(hw: int) -> int {
    if hw <= 0 {
        0
    } else {
        (hw / 16 + 1) * 16
    }
}

/// A function header recording the given source function: its name, a
/// local high-water mark equal to the summed widths of its parameters
/// and declared locals, and the frame that mark rounds up to.
pub open spec fn func_header_for(instr: LtacInstr, f: crate::ast::AstFunc) -> bool {
    &&& instr.instr_type == LtacType::Func
    &&& instr.name@ == f.name@
    &&& instr.arg2_val as int == crate::ltac_var::params_width(f.args@, f.args@.len() as int)
        + crate::ltac_var::locals_width(f.statements@, f.statements@.len() as int)
    &&& instr.arg1_val as int == spec_frame(instr.arg2_val as int)
}

impl LtacBuilder {
    /// Builds the constant table from the tree's declarations.
    ///
    /// Succeeds exactly when every declared constant carries a literal
    /// of a type its declaration accepts and no name is declared
    /// twice; the stored operand is the literal reinterpreted at the
    /// declared width.  The first mismatch records a type-mismatch
    /// diagnostic, a re-declared name a duplicate-symbol diagnostic.
    pub fn build_global_constants(&mut self, tree: &crate::ast::AstTree) -> (r: bool)
        requires
            builder_inv(*old(self)),
            old(self).global_consts@.len() == 0,
        ensures
            builder_inv(*final(self)),
            final(self).file.code@ == old(self).file.code@,
            final(self).file.data@ == old(self).file.data@,
            final(self).file.name@ == old(self).file.name@,
            final(self).str_pos == old(self).str_pos,
            final(self).flt_pos == old(self).flt_pos,
            final(self).blocks@ == old(self).blocks@,
            final(self).vars@ == old(self).vars@,
            final(self).stack_pos == old(self).stack_pos,
            final(self).functions@ == old(self).functions@,
            final(self).current_func@ == old(self).current_func@,
            final(self).current_type == old(self).current_type,
            r == ((forall|i: int|
                0 <= i < tree.constants@.len() ==> const_arg_ok(
                    datatype_of((#[trigger] tree.constants@[i]).data_type.mod_type),
                    tree.constants@[i].value,
                )) && (forall|i: int, j: int|
                0 <= i < j < tree.constants@.len() ==> (#[trigger] tree.constants@[i]).name@ != (
                #[trigger] tree.constants@[j]).name@)),
            r ==> {
                &&& final(self).global_consts@.len() == old(self).global_consts@.len()
                    + tree.constants@.len()
                &&& forall|i: int|
                    0 <= i < old(self).global_consts@.len() ==> final(self).global_consts@[i]
                        == old(self).global_consts@[i]
                &&& forall|i: int|
                    0 <= i < tree.constants@.len() ==> (#[trigger] final(self).global_consts@[old(self).global_consts@.len() + i]).0@ == tree.constants@[i].name@ && final(self).global_consts@[old(self).global_consts@.len() + i].1 == const_arg_val(
                        datatype_of(tree.constants@[i].data_type.mod_type),
                        tree.constants@[i].value,
                    )
                &&& errors_unchanged(*old(self), *final(self))
            },
            !r ==> final(self).errors.errors@.len() == old(self).errors.errors@.len() + 1,
    {
        let n = tree.constants.len();
        let mut i: usize = 0;
        while i < n
            invariant
                builder_inv(*self),
                n == tree.constants@.len(),
                i <= n,
                old(self).global_consts@.len() == 0,
                self.file.code@ == old(self).file.code@,
                self.file.data@ == old(self).file.data@,
                self.file.name@ == old(self).file.name@,
                self.str_pos == old(self).str_pos,
                self.flt_pos == old(self).flt_pos,
                self.blocks@ == old(self).blocks@,
                self.vars@ == old(self).vars@,
                self.stack_pos == old(self).stack_pos,
                self.functions@ == old(self).functions@,
                self.current_func@ == old(self).current_func@,
                self.current_type == old(self).current_type,
                errors_unchanged(*old(self), *self),
                forall|j: int|
                    0 <= j < i ==> const_arg_ok(
                        datatype_of((#[trigger] tree.constants@[j]).data_type.mod_type),
                        tree.constants@[j].value,
                    ),
                forall|j: int, l: int|
                    0 <= j < l < i ==> (#[trigger] tree.constants@[j]).name@ != (
                    #[trigger] tree.constants@[l]).name@,
                self.global_consts@.len() == old(self).global_consts@.len() + i,
                forall|j: int|
                    0 <= j < old(self).global_consts@.len() ==> self.global_consts@[j] == old(self).global_consts@[j],
                forall|j: int|
                    0 <= j < i ==> (#[trigger] self.global_consts@[old(self).global_consts@.len()
                        + j]).0@ == tree.constants@[j].name@ && self.global_consts@[old(self).global_consts@.len() + j].1 == const_arg_val(
                        datatype_of(tree.constants@[j].data_type.mod_type),
                        tree.constants@[j].value,
                    ),
            decreases n - i,
        {
            let c = &tree.constants[i];
            if const_lookup(&self.global_consts, &c.name).is_some() {
                proof {
                    lemma_const_find_present(self.global_consts@, c.name@);
                    let ix = const_table_find(self.global_consts@, c.name@)->Some_0;
                    assert(0 <= ix < i as int);
                    assert(self.global_consts@[old(self).global_consts@.len() + ix].0@
                        == tree.constants@[ix].name@);
                    assert(tree.constants@[ix].name@ == tree.constants@[i as int].name@);
                }
                self.errors.add(BuildErrorKind::DuplicateSymbol, c.name.clone(), c.line_no);
                return false;
            }
            proof {
                lemma_const_find_absent(self.global_consts@, c.name@);
                assert forall|j: int|
                    0 <= j < i implies (#[trigger] tree.constants@[j]).name@
                    != tree.constants@[i as int].name@ by {
                    let e = self.global_consts@[old(self).global_consts@.len() + j];
                    assert(e.0@ == tree.constants@[j].name@);
                    assert(e.0@ != c.name@);
                }
            }
            let dt = ast_to_datatype(&c.data_type);
            match const_arg_for(&dt, &c.value) {
                Some(arg) => {
                    self.global_consts.push((c.name.clone(), arg));
                },
                None => {
                    self.errors.add(BuildErrorKind::TypeMismatch, c.name.clone(), c.line_no);
                    return false;
                },
            }
            i = i + 1;
        }
        true
    }

    /// Lowers the parameter list of a function: one declaration and
    /// one argument load per parameter, in source order, with separate
    /// position counters for the integer and float register classes.
    pub fn load_params(&mut self, args: &Vec<crate::ast::AstStmt>) -> (r: (bool, i32, i32))
        requires
            builder_inv(*old(self)),
        ensures
            builder_inv(*final(self)),
            lowering_frame(*old(self), *final(self)),
            final(self).blocks@ == old(self).blocks@,
            r.0 == (args@.len() < 0x7FFE_0000 && (forall|k: int|
                0 <= k < args@.len() ==> ((#[trigger] args@[k]).modifiers@.len() > 0 && old(
                    self,
                ).stack_pos + crate::ltac_var::params_width(args@, k) < 0x7FFF_0000))),
            r.0 ==> final(self).vars@ == old(self).vars@ + crate::ltac_var::params_vars(
                args@,
                args@.len() as int,
                old(self).stack_pos as int,
            ),
            r.0 ==> {
                &&& final(self).file.data@ == old(self).file.data@
                &&& final(self).str_pos == old(self).str_pos
                &&& final(self).flt_pos == old(self).flt_pos
                &&& crate::ltac_var::params_loaded(
                    args@,
                    args@.len() as int,
                    final(self).file.code@,
                    final(self).file.code@.len() as int,
                    r.1 as int,
                    r.2 as int,
                )
                &&& final(self).stack_pos == old(self).stack_pos + crate::ltac_var::params_width(
                    args@,
                    args@.len() as int,
                )
                &&& errors_unchanged(*old(self), *final(self))
            },
            !r.0 ==> final(self).errors.errors@.len() > old(self).errors.errors@.len(),
    {
        let n = args.len();
        if n >= 0x7FFE_0000usize {
            self.errors.add(BuildErrorKind::UnsupportedOperation, String::new(), 0);
            return (false, 1, 1);
        }
        let mut arg_no: i32 = 1;
        let mut flt_no: i32 = 1;
        let mut k: usize = 0;
        proof {
            assert(self.vars@ =~= self.vars@ + crate::ltac_var::params_vars(
                args@,
                0,
                self.stack_pos as int,
            ));
        }
        while k < n
            invariant
                builder_inv(*self),
                n == args@.len(),
                n < 0x7FFE_0000usize,
                k <= n,
                1 <= arg_no,
                1 <= flt_no,
                arg_no as int <= 1 + k as int,
                flt_no as int <= 1 + k as int,
                lowering_frame(*old(self), *self),
                self.blocks@ == old(self).blocks@,
                self.file.data@ == old(self).file.data@,
                self.str_pos == old(self).str_pos,
                self.flt_pos == old(self).flt_pos,
                errors_unchanged(*old(self), *self),
                forall|k2: int|
                    0 <= k2 < k ==> ((#[trigger] args@[k2]).modifiers@.len() > 0 && old(
                        self,
                    ).stack_pos + crate::ltac_var::params_width(args@, k2) < 0x7FFF_0000),
                self.vars@ == old(self).vars@ + crate::ltac_var::params_vars(
                    args@,
                    k as int,
                    old(self).stack_pos as int,
                ),
                self.stack_pos == old(self).stack_pos + crate::ltac_var::params_width(
                    args@,
                    k as int,
                ),
                crate::ltac_var::params_loaded(
                    args@,
                    k as int,
                    self.file.code@,
                    self.file.code@.len() as int,
                    arg_no as int,
                    flt_no as int,
                ),
            decreases n - k,
        {
            let ghost pre = *self;
            let ghost an0 = arg_no as int;
            let ghost fn0 = flt_no as int;
            let line = &args[k];
            let ret = crate::ltac_var::build_var_dec(self, line, arg_no, flt_no);
            if !ret.0 {
                proof {
                    lemma_lowering_frame_trans(*old(self), pre, *self);
                    // the declaration can only have failed its guard,
                    // so the well-formedness condition fails at `k`
                    assert(!(args@[k as int].modifiers@.len() > 0 && old(self).stack_pos
                        + crate::ltac_var::params_width(args@, k as int) < 0x7FFF_0000));
                }
                return (false, arg_no, flt_no);
            }
            arg_no = ret.1;
            flt_no = ret.2;
            proof {
                lemma_lowering_frame_trans(*old(self), pre, *self);
                crate::ltac_var::lemma_params_stable(
                    args@,
                    k as int,
                    pre.file.code@,
                    pre.file.code@.len() as int,
                    an0,
                    fn0,
                    self.file.code@,
                );
                assert(crate::ltac_var::params_loaded(
                    args@,
                    k + 1,
                    self.file.code@,
                    self.file.code@.len() as int,
                    arg_no as int,
                    flt_no as int,
                ));
                assert(crate::ltac_var::params_width(args@, k + 1)
                    == crate::ltac_var::params_width(args@, k as int) + crate::ltac_var::type_width(
                    datatype_of(args@[k as int].modifiers@[0].mod_type),
                ));
                assert(crate::ltac_var::params_vars(args@, k + 1, old(self).stack_pos as int)
                    =~= crate::ltac_var::params_vars(args@, k as int, old(self).stack_pos as int).push(
                    (args@[k as int].name, Var {
                        pos: (old(self).stack_pos + crate::ltac_var::params_width(args@, k + 1)) as i32,
                        data_type: datatype_of(args@[k as int].modifiers@[0].mod_type),
                        is_param: true,
                    }),
                ));
                assert(self.vars@ =~= old(self).vars@ + crate::ltac_var::params_vars(
                    args@,
                    k + 1,
                    old(self).stack_pos as int,
                ));
            }
            k = k + 1;
        }
        (true, arg_no, flt_no)
    }

    /// Lowers a statement list: the body of a function.
    ///
    /// On success the stack high-water mark advanced by exactly the
    /// summed widths of the body's declarations; on the first failing
    /// statement translation stops with at least one diagnostic
    /// recorded.  A list the abstract machine of [`crate::domain`]
    /// accepts is owed success with no diagnostic, ending in the
    /// machine's state.
    pub fn build_block(&mut self, statements: &Vec<crate::ast::AstStmt>) -> (r: bool)
        requires
            builder_inv(*old(self)),
        ensures
            builder_inv(*final(self)),
            lowering_frame(*old(self), *final(self)),
            r ==> final(self).stack_pos == old(self).stack_pos + crate::ltac_var::locals_width(
                statements@,
                statements@.len() as int,
            ),
            !r ==> final(self).errors.errors@.len() > old(self).errors.errors@.len(),
            ({
                let s0 = crate::domain::lower_state_of(*old(self));
                let send = crate::domain::block_state(s0, statements@, statements@.len() as int);
                crate::domain::block_ok(s0, statements@, statements@.len() as int) ==> {
                    &&& r
                    &&& errors_unchanged(*old(self), *final(self))
                    &&& crate::domain::state_matches(*final(self), send)
                    &&& ((!s0.is_void && send.ret_last) ==> final(self).file.code@.len() > old(
                        self,
                    ).file.code@.len())
                }
            }),
    {
        let n = statements.len();
        let mut k: usize = 0;
        while k < n
            invariant
                builder_inv(*self),
                n == statements@.len(),
                k <= n,
                lowering_frame(*old(self), *self),
                self.stack_pos == old(self).stack_pos + crate::ltac_var::locals_width(
                    statements@,
                    k as int,
                ),
                ({
                    let s0 = crate::domain::lower_state_of(*old(self));
                    let sk = crate::domain::block_state(s0, statements@, k as int);
                    crate::domain::block_ok(s0, statements@, n as int) ==> {
                        &&& errors_unchanged(*old(self), *self)
                        &&& crate::domain::state_matches(*self, sk)
                        &&& ((!s0.is_void && sk.ret_last) ==> self.file.code@.len() > old(
                            self,
                        ).file.code@.len())
                    }
                }),
            decreases n - k,
        {
            let ghost pre = *self;
            let line = &statements[k];
            let code_ok: bool = match line.stmt_type {
                crate::ast::AstStmtType::VarDec => crate::ltac_var::build_var_dec(
                    self,
                    line,
                    0,
                    0,
                ).0,
                crate::ast::AstStmtType::VarAssign => crate::ltac_var::build_var_assign(
                    self,
                    line,
                ),
                crate::ast::AstStmtType::ArrayAssign => crate::ltac_var::build_var_assign(
                    self,
                    line,
                ),
                crate::ast::AstStmtType::If => {
                    crate::ltac_flow::build_cond(self, line);
                    true
                },
                crate::ast::AstStmtType::Elif => {
                    crate::ltac_flow::build_cond(self, line);
                    true
                },
                crate::ast::AstStmtType::Else => {
                    crate::ltac_flow::build_cond(self, line);
                    true
                },
                crate::ast::AstStmtType::While => {
                    crate::ltac_flow::build_while(self, line);
                    true
                },
                crate::ast::AstStmtType::Break => {
                    crate::ltac_flow::build_break(self);
                    true
                },
                crate::ast::AstStmtType::Continue => {
                    crate::ltac_flow::build_continue(self);
                    true
                },
                crate::ast::AstStmtType::FuncCall => crate::ltac_func::build_func_call(
                    self,
                    line,
                ),
                crate::ast::AstStmtType::Return => crate::ltac_func::build_return(self, line),
                crate::ast::AstStmtType::Exit => crate::ltac_func::build_exit(self, line),
                crate::ast::AstStmtType::End => crate::ltac_func::build_end(self),
            };
            proof {
                lemma_lowering_frame_trans(*old(self), pre, *self);
                assert(crate::ltac_var::locals_width(statements@, k + 1)
                    == crate::ltac_var::locals_width(statements@, k as int) + (
                if statements@[k as int].stmt_type == crate::ast::AstStmtType::VarDec
                    && statements@[k as int].modifiers@.len() > 0 {
                    crate::ltac_var::type_width(
                        datatype_of(statements@[k as int].modifiers@[0].mod_type),
                    )
                } else {
                    0
                }));
                let s0 = crate::domain::lower_state_of(*old(self));
                if crate::domain::block_ok(s0, statements@, n as int) {
                    crate::domain::lemma_block_ok_prefix(s0, statements@, k as int + 1, n as int);
                    let sk = crate::domain::block_state(s0, statements@, k as int);
                    let sk1 = crate::domain::block_state(s0, statements@, k as int + 1);
                    let stmt = statements@[k as int];
                    assert(crate::domain::step_ok(sk, stmt));
                    assert(sk1 == crate::domain::step(sk, stmt));
                    assert(crate::domain::state_matches(pre, sk));
                    if stmt.stmt_type == crate::ast::AstStmtType::VarDec {
                        let dt = datatype_of(stmt.modifiers@[0].mod_type);
                        let pos = pre.stack_pos + crate::ltac_var::type_width(dt);
                        assert(crate::domain::decl_var(stmt, sk.stack) == (stmt.name, Var {
                            pos: pos as i32,
                            data_type: dt,
                            is_param: false,
                        }));
                        assert(code_ok);
                        assert(self.vars@ == sk1.vars);
                    } else if stmt.stmt_type == crate::ast::AstStmtType::VarAssign || stmt.stmt_type
                        == crate::ast::AstStmtType::ArrayAssign {
                        assert(code_ok);
                        match var_table_lookup(sk.vars, stmt.name@) {
                            Option::Some(v) => {
                                if v.data_type != DataType::Int && v.data_type
                                    != DataType::IntDynArray {
                                    assert(self.file.code@ == pre.file.code@);
                                }
                            },
                            Option::None => {
                                assert(false);
                            },
                        }
                    } else if stmt.stmt_type == crate::ast::AstStmtType::If {
                        crate::domain::lemma_kinds_push(
                            pre.blocks@,
                            self.blocks@.last(),
                        );
                        assert(self.blocks@ == pre.blocks@.push(self.blocks@.last()));
                        assert(crate::domain::kinds_of(self.blocks@) == sk1.frames);
                    } else if stmt.stmt_type == crate::ast::AstStmtType::Elif {
                        assert(crate::domain::frame_kind(pre.blocks@.last())
                            == crate::domain::BlockKind::OpenIf);
                        assert(pre.blocks@.last() matches crate::blocks::BlockFrame::IfFrame { .. });
                        assert(self.blocks@ == pre.blocks@.drop_last().push(self.blocks@.last()));
                        crate::domain::lemma_kinds_drop(pre.blocks@);
                        crate::domain::lemma_kinds_push(
                            pre.blocks@.drop_last(),
                            self.blocks@.last(),
                        );
                        assert(crate::domain::kinds_of(self.blocks@) =~= sk1.frames);
                    } else if stmt.stmt_type == crate::ast::AstStmtType::Else {
                        assert(crate::domain::frame_kind(pre.blocks@.last())
                            == crate::domain::BlockKind::OpenIf);
                        assert(pre.blocks@.last() matches crate::blocks::BlockFrame::IfFrame { .. });
                        assert(self.blocks@ == pre.blocks@.drop_last().push(self.blocks@.last()));
                        crate::domain::lemma_kinds_drop(pre.blocks@);
                        crate::domain::lemma_kinds_push(
                            pre.blocks@.drop_last(),
                            self.blocks@.last(),
                        );
                        assert(crate::domain::kinds_of(self.blocks@) =~= sk1.frames);
                    } else if stmt.stmt_type == crate::ast::AstStmtType::While {
                        crate::domain::lemma_kinds_push(
                            pre.blocks@,
                            self.blocks@.last(),
                        );
                        assert(self.blocks@ == pre.blocks@.push(self.blocks@.last()));
                        assert(crate::domain::kinds_of(self.blocks@) == sk1.frames);
                    } else if stmt.stmt_type == crate::ast::AstStmtType::Break || stmt.stmt_type
                        == crate::ast::AstStmtType::Continue {
                        crate::domain::lemma_loop_kind(pre.blocks@);
                        assert(crate::ltac_flow::innermost_loop(pre.blocks@) is Some);
                    } else if stmt.stmt_type == crate::ast::AstStmtType::FuncCall {
                        assert(pre.str_pos as int + stmt.args@.len() < LABEL_LIMIT as int);
                        assert(code_ok);
                    } else if stmt.stmt_type == crate::ast::AstStmtType::Return {
                        assert(code_ok);
                    } else if stmt.stmt_type == crate::ast::AstStmtType::Exit {
                        assert(code_ok);
                    } else {
                        // an end statement
                        assert(stmt.stmt_type == crate::ast::AstStmtType::End);
                        assert(crate::domain::kinds_of(pre.blocks@).len() == pre.blocks@.len());
                        if pre.blocks@.len() > 0 {
                            crate::domain::lemma_kinds_drop(pre.blocks@);
                        } else {
                            assert(sk.is_void || sk.ret_last);
                        }
                    }
                    assert(crate::domain::state_matches(*self, sk1));
                    assert(errors_unchanged(*old(self), *self));
                    assert(((!s0.is_void && sk1.ret_last) ==> self.file.code@.len() > old(
                        self,
                    ).file.code@.len()));
                    assert(code_ok);
                }
            }
            if !code_ok {
                return false;
            }
            k = k + 1;
        }
        true
    }
}


/// Function regions already recorded in the stream survive any
/// prefix-preserving growth.
proof fn lemma_regions_preserved(
    funcs: Seq<crate::ast::AstFunc>,
    fi: int,
    code_entry: Seq<LtacInstr>,
    c2: Seq<LtacInstr>,
)
    requires
        0 <= fi <= funcs.len(),
        code_entry.len() <= c2.len(),
        forall|l: int| 0 <= l < code_entry.len() ==> c2[l] == #[trigger] code_entry[l],
        forall|g: int|
            0 <= g < fi && !(#[trigger] funcs[g]).is_extern ==> exists|ci: int|
                0 <= ci < code_entry.len() && func_header_for(
                    #[trigger] code_entry[ci],
                    funcs[g],
                ),
        forall|g: int|
            0 <= g < fi && (#[trigger] funcs[g]).is_extern ==> exists|ci: int|
                0 <= ci < code_entry.len() && (#[trigger] code_entry[ci]).instr_type
                    == LtacType::Extern && code_entry[ci].name@ == funcs[g].name@,
    ensures
        forall|g: int|
            0 <= g < fi && !(#[trigger] funcs[g]).is_extern ==> exists|ci: int|
                0 <= ci < c2.len() && func_header_for(#[trigger] c2[ci], funcs[g]),
        forall|g: int|
            0 <= g < fi && (#[trigger] funcs[g]).is_extern ==> exists|ci: int|
                0 <= ci < c2.len() && (#[trigger] c2[ci]).instr_type == LtacType::Extern
                    && c2[ci].name@ == funcs[g].name@,
{
    assert forall|g: int|
        0 <= g < fi && !(#[trigger] funcs[g]).is_extern implies exists|ci: int|
        0 <= ci < c2.len() && func_header_for(#[trigger] c2[ci], funcs[g]) by {
        let ci = choose|ci: int|
            0 <= ci < code_entry.len() && func_header_for(#[trigger] code_entry[ci], funcs[g]);
        assert(c2[ci] == code_entry[ci]);
    }
    assert forall|g: int|
        0 <= g < fi && (#[trigger] funcs[g]).is_extern implies exists|ci: int|
        0 <= ci < c2.len() && (#[trigger] c2[ci]).instr_type == LtacType::Extern && c2[ci].name@
            == funcs[g].name@ by {
        let ci = choose|ci: int|
            0 <= ci < code_entry.len() && (#[trigger] code_entry[ci]).instr_type
                == LtacType::Extern && code_entry[ci].name@ == funcs[g].name@;
        assert(c2[ci] == code_entry[ci]);
    }
}

/// After a function's parameters are loaded, the canonical abstract
/// state of the builder is accepted by the machine whenever the
/// function is, and runs to the same final state up to label slack.
proof fn lemma_body_accepted(
    b1: LtacBuilder,
    f: crate::ast::AstFunc,
    table: Seq<(String, DataType)>,
    labels: int,
)
    requires
        crate::domain::func_ok(f, table, labels),
        !f.is_extern,
        b1.vars@ == crate::ltac_var::params_vars(f.args@, f.args@.len() as int, 0),
        b1.stack_pos as int == crate::ltac_var::params_width(f.args@, f.args@.len() as int),
        b1.blocks@.len() == 0,
        b1.str_pos as int <= labels,
        (b1.current_type == DataType::Void) == (match func_table_lookup(table, f.name@) {
            Option::Some(t) => t == DataType::Void,
            Option::None => true,
        }),
    ensures
        ({
            let s0c = crate::domain::lower_state_of(b1);
            let send_c = crate::domain::block_state(s0c, f.statements@, f.statements@.len() as int);
            let s_fi = crate::domain::func_start_state(f, table, labels);
            let send_fi = crate::domain::block_state(
                s_fi,
                f.statements@,
                f.statements@.len() as int,
            );
            &&& crate::domain::block_ok(s0c, f.statements@, f.statements@.len() as int)
            &&& crate::domain::state_matches(b1, s0c)
            &&& s0c.is_void == s_fi.is_void
            &&& send_c.frames == send_fi.frames
            &&& send_c.ret_last == send_fi.ret_last
            &&& send_c.labels <= send_fi.labels
        }),
{
    let s0c = crate::domain::lower_state_of(b1);
    let s_fi = crate::domain::func_start_state(f, table, labels);
    assert(crate::domain::kinds_of(b1.blocks@) =~= Seq::<crate::domain::BlockKind>::empty());
    assert(s0c.vars == s_fi.vars);
    assert(s0c.stack == s_fi.stack);
    assert(s0c.frames == s_fi.frames);
    assert(s0c.is_void == s_fi.is_void);
    crate::domain::lemma_labels_slack(s0c, s_fi, f.statements@, f.statements@.len() as int);
}

/// Placing an aligned function header before its body keeps every
/// file invariant: the body is header-free and ends in the region's
/// return, and the entry stream ends at a region boundary, so the
/// header splits no comparison from its branch.
proof fn lemma_place_header(
    code_entry: Seq<LtacInstr>,
    pre_insert: Seq<LtacInstr>,
    c2: Seq<LtacInstr>,
    fc: LtacInstr,
    pos: int,
)
    requires
        crate::laws::frames_aligned(code_entry),
        crate::laws::funcs_have_ret(code_entry),
        crate::blocks::conds_follow_cmp(pre_insert),
        code_entry.len() == 0 || code_entry.last().instr_type == LtacType::Ret
            || code_entry.last().instr_type == LtacType::Extern,
        pos == code_entry.len(),
        pos < pre_insert.len(),
        forall|l: int| 0 <= l < pos ==> pre_insert[l] == #[trigger] code_entry[l],
        pre_insert.last().instr_type == LtacType::Ret,
        forall|l: int|
            pos <= l < pre_insert.len() ==> (#[trigger] pre_insert[l]).instr_type
                != LtacType::Func,
        fc.instr_type == LtacType::Func,
        fc.arg1_val % 16 == 0,
        fc.arg1_val >= fc.arg2_val,
        fc.arg2_val >= 0,
        c2.len() == pre_insert.len() + 1,
        forall|l: int| 0 <= l < pos ==> c2[l] == #[trigger] pre_insert[l],
        c2[pos] == fc,
        forall|l: int| pos < l < c2.len() ==> c2[l] == #[trigger] pre_insert[l - 1],
    ensures
        crate::laws::frames_aligned(c2),
        crate::laws::funcs_have_ret(c2),
        crate::blocks::conds_follow_cmp(c2),
        c2.len() > 0 && c2.last().instr_type == LtacType::Ret,
{
    let body = pre_insert.subrange(pos, pre_insert.len() as int);
    assert(body.len() > 0);
    assert(body.last() == pre_insert[pre_insert.len() - 1]);
    assert forall|l: int| 0 <= l < body.len() implies (#[trigger] body[l]).instr_type
        != LtacType::Func by {
        assert(body[l] == pre_insert[pos + l]);
    }
    assert forall|l: int| 0 <= l < code_entry.len() implies c2[l] == #[trigger] code_entry[l] by {
        assert(c2[l] == pre_insert[l]);
    }
    assert forall|l: int| 0 <= l < body.len() implies c2[pos + 1 + l] == #[trigger] body[l] by {
        let lp = pos + 1 + l;
        assert(pos < lp < c2.len());
        assert(c2[lp] == pre_insert[lp - 1]);
        assert(body[l] == pre_insert[pos + l]);
    }
    crate::laws::lemma_file_invs_extend(code_entry, fc, body, c2);
    assert(!crate::blocks::is_cond_branch(pre_insert[pos])) by {
        if pos > 0 && crate::blocks::is_cond_branch(pre_insert[pos]) {
            assert(pre_insert[pos - 1].instr_type == LtacType::I32Cmp);
            assert(pre_insert[pos - 1] == code_entry.last());
        }
    }
    crate::blocks::lemma_conds_insert(pre_insert, pos, fc, c2);
    assert(c2.last() == body.last());
}

impl LtacBuilder {
    /// Rounds a local high-water mark up to the next multiple of
    /// sixteen, leaving at least one spare byte, as the frame size.
    fn round_frame(&self, stack_pos: i32) -> (r: i32)
        requires
            1 <= stack_pos <= 0x7FFF_0008,
        ensures
            r % 16 == 0,
            r >= stack_pos + 1,
            r <= stack_pos + 16,
            r as int == spec_frame(stack_pos as int),
    {
        let mut stack_size: i32 = 0;
        while stack_size < stack_pos + 1
            invariant
                stack_size % 16 == 0,
                0 <= stack_size <= stack_pos + 16,
                stack_size == 0 || stack_size < stack_pos + 1 + 16,
                stack_size == 0 || stack_size - 16 < stack_pos + 1,
                stack_pos <= 0x7FFF_0008,
            decreases stack_pos + 16 - stack_size,
        {
            stack_size = stack_size + 16;
        }
        proof {
            let hw = stack_pos as int;
            let m = spec_frame(hw);
            assert((hw / 16) * 16 + (hw % 16) == hw);
            assert(m % 16 == 0) by (nonlinear_arith)
                requires
                    m == (hw / 16 + 1) * 16,
            {}
            assert(hw < m <= hw + 16);
            assert(stack_size as int == m) by (nonlinear_arith)
                requires
                    stack_size % 16 == 0,
                    m % 16 == 0,
                    hw < stack_size <= hw + 16,
                    hw < m <= hw + 16,
            {}
        }
        stack_size
    }

    /// Lowers every function of the tree.
    ///
    /// A first pass records each function's return type so calls may
    /// resolve forward references.  The second pass emits extern
    /// declarations directly and lowers each body: parameters, then
    /// statements, then a guaranteed trailing return, and finally the
    /// function header — whose frame is the high-water mark rounded to
    /// a multiple of sixteen — inserted before the body.
    #[verifier::rlimit(100)]
    #[verifier::spinoff_prover]
    pub fn build_functions(&mut self, tree: &crate::ast::AstTree) -> (r: bool)
        requires
            builder_inv(*old(self)),
            crate::laws::frames_aligned(old(self).file.code@),
            crate::laws::funcs_have_ret(old(self).file.code@),
            old(self).file.code@.len() == 0 || old(self).file.code@.last().instr_type
                == LtacType::Ret || old(self).file.code@.last().instr_type == LtacType::Extern,
        ensures
            builder_inv(*final(self)),
            crate::laws::frames_aligned(final(self).file.code@),
            crate::laws::funcs_have_ret(final(self).file.code@),
            final(self).file.name@ == old(self).file.name@,
            final(self).errors.errors@.len() >= old(self).errors.errors@.len(),
            !r ==> final(self).errors.errors@.len() > old(self).errors.errors@.len(),
            r ==> forall|g: int|
                0 <= g < tree.functions@.len() && !(#[trigger] tree.functions@[g]).is_extern
                    ==> exists|ci: int|
                    0 <= ci < final(self).file.code@.len() && func_header_for(
                        #[trigger] final(self).file.code@[ci],
                        tree.functions@[g],
                    ),
            r ==> forall|g: int|
                0 <= g < tree.functions@.len() && (#[trigger] tree.functions@[g]).is_extern
                    ==> exists|ci: int|
                    0 <= ci < final(self).file.code@.len() && (#[trigger] final(self).file.code@[ci]).instr_type == LtacType::Extern
                        && final(self).file.code@[ci].name@ == tree.functions@[g].name@,
            final(self).functions@ == crate::domain::func_table_of(
                tree.functions@,
                old(self).functions@,
                tree.functions@.len() as int,
            ),
            (r && (exists|g: int|
                0 <= g < tree.functions@.len() && !(#[trigger] tree.functions@[g]).is_extern))
                ==> final(self).vars@.len() == 0 && final(self).stack_pos == 0,
            ({
                let table = crate::domain::func_table_of(
                    tree.functions@,
                    old(self).functions@,
                    tree.functions@.len() as int,
                );
                (old(self).blocks@.len() == 0 && crate::domain::funcs_ok(
                    tree.functions@,
                    table,
                    old(self).str_pos as int,
                    tree.functions@.len() as int,
                )) ==> (r && errors_unchanged(*old(self), *final(self)))
            }),
    {
        let n = tree.functions.len();
        // first pass: record return types
        let mut i: usize = 0;
        while i < n
            invariant
                builder_inv(*self),
                n == tree.functions@.len(),
                i <= n,
                self.file.code@ == old(self).file.code@,
                self.file.data@ == old(self).file.data@,
                self.file.name@ == old(self).file.name@,
                self.str_pos == old(self).str_pos,
                self.flt_pos == old(self).flt_pos,
                self.blocks@ == old(self).blocks@,
                self.vars@ == old(self).vars@,
                self.stack_pos == old(self).stack_pos,
                self.global_consts@ == old(self).global_consts@,
                self.current_func@ == old(self).current_func@,
                self.current_type == old(self).current_type,
                errors_unchanged(*old(self), *self),
                self.functions@ == crate::domain::func_table_of(
                    tree.functions@,
                    old(self).functions@,
                    i as int,
                ),
            decreases n - i,
        {
            let func = &tree.functions[i];
            let func_type: DataType = if func.modifiers.len() > 0 {
                ast_to_datatype(&func.modifiers[0])
            } else {
                DataType::Void
            };
            self.functions.push((func.name.clone(), func_type));
            proof {
                assert(func_type == crate::domain::declared_type(tree.functions@[i as int]));
                assert(self.functions@ =~= crate::domain::func_table_of(
                    tree.functions@,
                    old(self).functions@,
                    i as int + 1,
                ));
            }
            i = i + 1;
        }
        // second pass: lower every body
        let mut fi: usize = 0;
        while fi < n
            invariant
                builder_inv(*self),
                n == tree.functions@.len(),
                fi <= n,
                crate::laws::frames_aligned(self.file.code@),
                crate::laws::funcs_have_ret(self.file.code@),
                self.file.code@.len() == 0 || self.file.code@.last().instr_type == LtacType::Ret
                    || self.file.code@.last().instr_type == LtacType::Extern,
                self.file.name@ == old(self).file.name@,
                self.errors.errors@.len() >= old(self).errors.errors@.len(),
                self.functions@ == crate::domain::func_table_of(
                    tree.functions@,
                    old(self).functions@,
                    n as int,
                ),
                forall|g: int|
                    0 <= g < fi && !(#[trigger] tree.functions@[g]).is_extern ==> exists|
                        ci: int,
                    |
                        0 <= ci < self.file.code@.len() && func_header_for(
                            #[trigger] self.file.code@[ci],
                            tree.functions@[g],
                        ),
                forall|g: int|
                    0 <= g < fi && (#[trigger] tree.functions@[g]).is_extern ==> exists|ci: int|
                        0 <= ci < self.file.code@.len() && (#[trigger] self.file.code@[ci]).instr_type
                            == LtacType::Extern && self.file.code@[ci].name@
                            == tree.functions@[g].name@,
                (exists|g: int|
                    0 <= g < fi && !(#[trigger] tree.functions@[g]).is_extern) ==> self.vars@.len()
                    == 0 && self.stack_pos == 0,
                ({
                    let table = crate::domain::func_table_of(
                        tree.functions@,
                        old(self).functions@,
                        n as int,
                    );
                    (old(self).blocks@.len() == 0 && crate::domain::funcs_ok(
                        tree.functions@,
                        table,
                        old(self).str_pos as int,
                        n as int,
                    )) ==> {
                        &&& errors_unchanged(*old(self), *self)
                        &&& self.blocks@.len() == 0
                        &&& self.str_pos as int <= crate::domain::funcs_labels(
                            tree.functions@,
                            table,
                            old(self).str_pos as int,
                            fi as int,
                        )
                    }
                }),
            decreases n - fi,
        {
            let func = &tree.functions[fi];
            let ghost code_entry = self.file.code@;
            let ghost table = crate::domain::func_table_of(
                tree.functions@,
                old(self).functions@,
                n as int,
            );
            let ghost base = old(self).str_pos as int;
            let ghost hyp = old(self).blocks@.len() == 0 && crate::domain::funcs_ok(
                tree.functions@,
                table,
                base,
                n as int,
            );
            if func.is_extern {
                let mut fc = crate::ltac::create_instr(LtacType::Extern);
                fc.name = func.name.clone();
                self.emit(fc);
                proof {
                    crate::laws::lemma_file_invs_append(code_entry, self.file.code@);
                    lemma_regions_preserved(tree.functions@, fi as int, code_entry, self.file.code@);
                    assert(self.file.code@[code_entry.len() as int].instr_type == LtacType::Extern
                        && self.file.code@[code_entry.len() as int].name@
                        == tree.functions@[fi as int].name@);
                    if hyp {
                        assert(crate::domain::funcs_labels(tree.functions@, table, base, fi as int
                            + 1) == crate::domain::funcs_labels(tree.functions@, table, base, fi as int));
                    }
                }
            } else {
                self.current_func = func.name.clone();
                self.current_type = match func_lookup(&self.functions, &func.name) {
                    Some(t) => t,
                    None => DataType::Void,
                };
                self.stack_pos = 0;
                self.vars.clear();
                let pos = self.file.code.len();
                let ghost b0 = *self;
                let ghost f_spec = tree.functions@[fi as int];
                let ghost labels_fi = crate::domain::funcs_labels(
                    tree.functions@,
                    table,
                    base,
                    fi as int,
                );
                let ghost s_fi = crate::domain::func_start_state(f_spec, table, labels_fi);
                proof {
                    if hyp {
                        crate::domain::lemma_funcs_ok_prefix(
                            tree.functions@,
                            table,
                            base,
                            fi as int + 1,
                            n as int,
                        );
                        assert(crate::domain::func_ok(f_spec, table, labels_fi));
                    }
                }
                let ret = self.load_params(&func.args);
                if !ret.0 {
                    proof {
                        crate::laws::lemma_file_invs_append(code_entry, self.file.code@);
                        if hyp {
                            assert(crate::domain::params_ok(f_spec.args@));
                            assert(ret.0);
                        }
                    }
                    return false;
                }
                let ghost b1 = *self;
                let ghost s0c = crate::domain::lower_state_of(b1);
                proof {
                    if hyp {
                        assert(b1.vars@ =~= Seq::<(String, Var)>::empty()
                            + crate::ltac_var::params_vars(
                            func.args@,
                            func.args@.len() as int,
                            0,
                        ));
                        lemma_body_accepted(b1, f_spec, table, labels_fi);
                    }
                }
                let ok = self.build_block(&func.statements);
                if !ok {
                    proof {
                        lemma_lowering_frame_trans(b0, b1, *self);
                        crate::laws::lemma_file_invs_append(code_entry, self.file.code@);
                        if hyp {
                            assert(ok);
                        }
                    }
                    return false;
                }
                proof {
                    lemma_lowering_frame_trans(b0, b1, *self);
                }
                let ghost send_c = crate::domain::block_state(
                    s0c,
                    f_spec.statements@,
                    f_spec.statements@.len() as int,
                );
                let ghost send_fi = crate::domain::block_state(
                    s_fi,
                    f_spec.statements@,
                    f_spec.statements@.len() as int,
                );
                // guarantee the body ends in a return
                proof {
                    if hyp && !s0c.is_void {
                        assert(send_c.ret_last);
                        assert(self.file.code@.len() > b1.file.code@.len());
                        assert(self.file.code@.last().instr_type == LtacType::Ret);
                    }
                }
                let len1 = self.file.code.len();
                let needs_ret: bool = if len1 == pos {
                    true
                } else {
                    !matches!(self.file.code[len1 - 1].instr_type, LtacType::Ret)
                };
                let ghost b2 = *self;
                if needs_ret {
                    if !matches!(self.current_type, DataType::Void) {
                        proof {
                            if hyp {
                                assert(!s0c.is_void);
                                assert(false);
                            }
                        }
                        self.errors.add(
                            crate::errors::BuildErrorKind::MissingReturn,
                            self.current_func.clone(),
                            0,
                        );
                    }
                    let rinstr = crate::ltac::create_instr(LtacType::Ret);
                    self.emit(rinstr);
                }
                proof {
                    assert(lowering_frame(b2, *self));
                    lemma_lowering_frame_trans(b0, b2, *self);
                }
                // the function header
                let mut fc = crate::ltac::create_instr(LtacType::Func);
                fc.name = func.name.clone();
                if self.stack_pos > 0 {
                    let frame = self.round_frame(self.stack_pos);
                    fc.arg1_val = frame;
                    fc.arg2_val = self.stack_pos;
                }
                let ghost pre_insert = self.file.code@;
                proof {
                    crate::blocks::lemma_insert_non_label(
                        self.file.code@,
                        self.blocks@,
                        self.str_pos as int,
                        pos as int,
                        fc,
                    );
                }
                self.file.code.insert(pos, fc);
                proof {
                    let c2 = self.file.code@;
                    assert forall|l: int| 0 <= l < pos as int implies pre_insert[l] == #[trigger]
                        code_entry[l] by {
                        assert(c2[l] == pre_insert[l]);
                    }
                    lemma_place_header(code_entry, pre_insert, c2, fc, pos as int);
                    assert(func_header_for(c2[pos as int], tree.functions@[fi as int]));
                    lemma_regions_preserved(tree.functions@, fi as int, code_entry, c2);
                    if hyp {
                        assert(errors_unchanged(*old(self), *self));
                        assert(crate::domain::state_matches(b2, send_c));
                        assert(send_c.frames.len() == 0);
                        assert(self.blocks@.len() == 0);
                        assert(crate::domain::funcs_labels(tree.functions@, table, base, fi as int
                            + 1) == send_fi.labels);
                        assert(self.str_pos as int <= send_c.labels);
                        assert(send_c.labels <= send_fi.labels);
                    }
                }
                self.stack_pos = 0;
                self.vars.clear();
            }
            fi = fi + 1;
        }
        true
    }

    /// Translates a whole tree into an LTAC file.
    ///
    /// Translation succeeds exactly when no diagnostic was recorded,
    /// and success is owed on the whole domain [`crate::domain`]
    /// accepts.  A returned file carries the guarantees of the
    /// lowering: no two labels share a name, no two data entries
    /// share a name, every conditional branch directly follows its
    /// comparison, every function region ends in a return, and every
    /// function header's frame is the local high-water mark — the
    /// summed widths of the function's parameters and declared locals
    /// — rounded to a multiple of sixteen, zero for an empty frame.
    pub fn build_ltac(&mut self, tree: &crate::ast::AstTree) -> (r: Result<
        LtacFile,
        (),
    >)
        requires
            builder_inv(*old(self)),
            old(self).file.code@.len() == 0,
            old(self).errors.errors@.len() == 0,
            old(self).global_consts@.len() == 0,
            old(self).functions@.len() == 0,
            old(self).blocks@.len() == 0,
            old(self).str_pos == 0,
        ensures
            builder_inv(*final(self)),
            crate::domain::tree_ok(*tree) ==> r is Ok,
            r is Ok <==> final(self).errors.errors@.len() == 0,
            r matches Ok(f) ==> {
                &&& crate::blocks::labels_unique(f.code@)
                &&& crate::blocks::conds_follow_cmp(f.code@)
                &&& data_distinct(f.data@)
                &&& crate::laws::frames_aligned(f.code@)
                &&& crate::laws::funcs_have_ret(f.code@)
                &&& f.name@ == old(self).file.name@
                &&& forall|g: int|
                    0 <= g < tree.functions@.len() && !(#[trigger] tree.functions@[g]).is_extern
                        ==> exists|ci: int|
                        0 <= ci < f.code@.len() && func_header_for(
                            #[trigger] f.code@[ci],
                            tree.functions@[g],
                        )
            },
    {
        let ghost whole_tree = *tree;
        let consts_ok = self.build_global_constants(tree);
        if !consts_ok {
            proof {
                if crate::domain::tree_ok(whole_tree) {
                    assert(consts_ok);
                }
            }
            return Err(());
        }
        let good = self.build_functions(tree);
        if !good {
            proof {
                if crate::domain::tree_ok(whole_tree) {
                    assert(old(self).functions@ =~= Seq::<(String, DataType)>::empty());
                    assert(crate::domain::func_table_of(
                        tree.functions@,
                        Seq::<(String, DataType)>::empty(),
                        tree.functions@.len() as int,
                    ) =~= crate::domain::func_table_of(
                        tree.functions@,
                        old(self).functions@,
                        tree.functions@.len() as int,
                    ));
                    assert(good);
                }
            }
            return Err(());
        }
        if self.errors.count() > 0 {
            proof {
                if crate::domain::tree_ok(whole_tree) {
                    assert(old(self).functions@ =~= Seq::<(String, DataType)>::empty());
                    assert(crate::domain::func_table_of(
                        tree.functions@,
                        Seq::<(String, DataType)>::empty(),
                        tree.functions@.len() as int,
                    ) =~= crate::domain::func_table_of(
                        tree.functions@,
                        old(self).functions@,
                        tree.functions@.len() as int,
                    ));
                    assert(self.errors.errors@.len() == 0);
                }
            }
            return Err(());
        }
        proof {
            crate::blocks::lemma_labels_unique(self.file.code@);
        }
        let mut out = LtacFile {
            name: String::new(),
            data: Vec::new(),
            code: Vec::new(),
        };
        core::mem::swap(&mut out, &mut self.file);
        proof {
            assert(self.file.code@ =~= Seq::<LtacInstr>::empty());
            assert(all_frame_ids(self.blocks@) == all_frame_ids(self.blocks@));
        }
        Ok(out)
    }
}


/// The literal round-trip law for stored constants: a literal
/// declared at a signed width keeps its value whenever it fits the
/// width, and at an unsigned width it is stored as its modular
/// reinterpretation.
pub proof fn lemma_literal_round_trip(dt: DataType, val: AstArg)
    requires
        const_arg_ok(dt, val),
        val.arg_type == AstArgType::IntL,
    ensures
        dt == DataType::Int && val.u64_val < 0x8000_0000 ==> (const_arg_val(dt, val) matches
            LtacArg::I32(v) && v as int == val.u64_val as int),
        dt == DataType::UInt ==> (const_arg_val(dt, val) matches LtacArg::U32(v) && v as int == (
        val.u64_val as int) % 0x1_0000_0000),
        dt == DataType::Int64 && val.u64_val < 0x8000_0000_0000_0000 ==> (const_arg_val(dt, val)
            matches LtacArg::I64(v) && v as int == val.u64_val as int),
        dt == DataType::UInt64 ==> (const_arg_val(dt, val) matches LtacArg::U64(v) && v
            == val.u64_val),
        dt == DataType::Byte && val.u64_val < 0x80 ==> (const_arg_val(dt, val) matches
            LtacArg::Byte(v) && v as int == val.u64_val as int),
        dt == DataType::UByte ==> (const_arg_val(dt, val) matches LtacArg::UByte(v) && v as int
            == (val.u64_val as int) % 0x100),
        dt == DataType::Short && val.u64_val < 0x8000 ==> (const_arg_val(dt, val) matches
            LtacArg::I16(v) && v as int == val.u64_val as int),
        dt == DataType::UShort ==> (const_arg_val(dt, val) matches LtacArg::U16(v) && v as int
            == (val.u64_val as int) % 0x1_0000),
{
    let x = val.u64_val;
    assert((x as u32) as u64 == x % 0x1_0000_0000u64) by (bit_vector);
    assert((x as u16) as u64 == x % 0x1_0000u64) by (bit_vector);
    assert((x as u8) as u64 == x % 0x100u64) by (bit_vector);
}

} // verus!
