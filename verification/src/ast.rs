//! The abstract syntax tree handed to the lowering pass.
//!
//! The tree is produced by a front end outside this library and is
//! read-only input here.  Float literals are carried as their IEEE-754
//! bit pattern so that the tree is a plain value; the front end
//! converts before building an [`AstArg`].

use vstd::prelude::*;

verus! {

/// Statement forms.
#[derive(Clone, Copy, PartialEq, Eq, Structural, Debug)]
pub enum AstStmtType {
    VarDec,
    VarAssign,
    ArrayAssign,
    If,
    Elif,
    Else,
    While,
    Break,
    Continue,
    FuncCall,
    Return,
    Exit,
    End,
}

/// Expression-token forms: literals, identifiers, and operators.
#[derive(Clone, Copy, PartialEq, Eq, Structural, Debug)]
pub enum AstArgType {
    NoArg,
    ByteL,
    ShortL,
    IntL,
    FloatL,
    CharL,
    StringL,
    Id,
    LdArg,
    Array,
    OpRParen,
    OpLParen,
    OpNeg,
    OpAdd,
    OpSub,
    OpMul,
    OpDiv,
    OpMod,
    OpEq,
    OpNeq,
    OpLt,
    OpLte,
    OpGt,
    OpGte,
    OpNot,
    OpAnd,
    OpOr,
    OpXor,
    OpLeftShift,
    OpRightShift,
}

/// Declared type modifiers.
#[derive(PartialEq, Debug)]
pub enum AstModType {
    NoType,
    Byte,
    ByteDynArray,
    UByte,
    UByteDynArray,
    Short,
    UShort,
    ShortDynArray,
    UShortDynArray,
    Int,
    UInt,
    IntDynArray,
    UIntDynArray,
    Int64,
    UInt64,
    I64DynArray,
    U64DynArray,
    Float,
    Double,
    FloatDynArray,
    DoubleDynArray,
    Char,
    Str,
    Enum(String),
}

/// The top of a parsed translation unit.
pub struct AstTree {
    pub file_name: String,
    pub module: String,
    pub functions: Vec<AstFunc>,
    pub constants: Vec<AstConst>,
}

/// A function: declared arguments, body statements, and a return-type
/// modifier when one was written.
pub struct AstFunc {
    pub name: String,
    pub is_extern: bool,
    pub statements: Vec<AstStmt>,
    pub args: Vec<AstStmt>,
    pub modifiers: Vec<AstMod>,
    pub enums: Vec<AstEnum>,
    pub line: String,
}

/// A global constant declaration.
pub struct AstConst {
    pub name: String,
    pub data_type: AstMod,
    pub value: AstArg,
    pub line: String,
    pub line_no: i32,
}

/// An enumeration declared inside a function.
pub struct AstEnum {
    pub name: String,
    pub data_type: AstMod,
    pub values: Vec<(String, i32)>,
}

/// A statement: its form, subject name, expression tokens, index
/// tokens for an array target, and type modifiers.
pub struct AstStmt {
    pub stmt_type: AstStmtType,
    pub name: String,
    pub sub_args: Vec<AstArg>,
    pub args: Vec<AstArg>,
    pub modifiers: Vec<AstMod>,
    pub line: String,
    pub line_no: i32,
}

/// An expression token: a literal, identifier, or operator.  The
/// `flt_bits` field carries a float literal as the bit pattern of its
/// IEEE-754 double encoding.
pub struct AstArg {
    pub arg_type: AstArgType,
    pub str_val: String,
    pub char_val: char,
    pub u8_val: u8,
    pub u16_val: u16,
    pub u64_val: u64,
    pub flt_bits: u64,
    pub sub_args: Vec<AstArg>,
    pub sub_modifiers: Vec<AstMod>,
}

/// A statement or function modifier: a declared type.
#[derive(PartialEq, Debug)]
pub struct AstMod {
    pub mod_type: AstModType,
}

/// Holds when a function record is empty but for its name and the
/// extern flag.
pub open spec fn is_fresh_func(f: AstFunc, name: Seq<char>, is_extern: bool) -> bool {
    &&& f.name@ == name
    &&& f.is_extern == is_extern
    &&& f.statements@ =~= Seq::<AstStmt>::empty()
    &&& f.args@ =~= Seq::<AstStmt>::empty()
    &&& f.modifiers@ =~= Seq::<AstMod>::empty()
    &&& f.enums@ =~= Seq::<AstEnum>::empty()
    &&& f.line@ == Seq::<char>::empty()
}

/// Creates a function record for an extern declaration.
pub fn create_extern_func(name: String) -> (f: AstFunc)
    ensures
        is_fresh_func(f, name@, true),
{
    AstFunc {
        name,
        is_extern: true,
        statements: Vec::new(),
        args: Vec::new(),
        modifiers: Vec::new(),
        enums: Vec::new(),
        line: String::new(),
    }
}

/// Creates an ordinary function record.
pub fn create_func(name: String) -> (f: AstFunc)
    ensures
        is_fresh_func(f, name@, false),
{
    AstFunc {
        name,
        is_extern: false,
        statements: Vec::new(),
        args: Vec::new(),
        modifiers: Vec::new(),
        enums: Vec::new(),
        line: String::new(),
    }
}

/// Holds when a statement is empty but for its form and source line
/// information.
pub open spec fn is_fresh_stmt(s: AstStmt, stmt_type: AstStmtType, line: Seq<char>, line_no: int) -> bool {
    &&& s.stmt_type == stmt_type
    &&& s.name@ == Seq::<char>::empty()
    &&& s.sub_args@ =~= Seq::<AstArg>::empty()
    &&& s.args@ =~= Seq::<AstArg>::empty()
    &&& s.modifiers@ =~= Seq::<AstMod>::empty()
    &&& s.line@ == line
    &&& s.line_no == line_no
}

/// Creates a statement of the given form, recording the source line it
/// came from.
pub fn create_stmt(stmt_type: AstStmtType, line: String, line_no: i32) -> (s: AstStmt)
    ensures
        is_fresh_stmt(s, stmt_type, line@, line_no as int),
{
    AstStmt {
        stmt_type,
        name: String::new(),
        sub_args: Vec::new(),
        args: Vec::new(),
        modifiers: Vec::new(),
        line,
        line_no,
    }
}

/// Creates a statement with no source location.  Used by the lowering
/// pass for statements it synthesises itself.
pub fn create_orphan_stmt(stmt_type: AstStmtType) -> (s: AstStmt)
    ensures
        is_fresh_stmt(s, stmt_type, Seq::<char>::empty(), 0),
{
    AstStmt {
        stmt_type,
        name: String::new(),
        sub_args: Vec::new(),
        args: Vec::new(),
        modifiers: Vec::new(),
        line: String::new(),
        line_no: 0,
    }
}

/// Appends a statement to the most recently declared function.
pub fn add_stmt(tree: &mut AstTree, stmt: AstStmt)
    requires
        old(tree).functions@.len() > 0,
    ensures
        final(tree).functions@.len() == old(tree).functions@.len(),
        final(tree).functions@.last().statements@ == old(tree).functions@.last().statements@.push(
            stmt,
        ),
        forall|i: int|
            0 <= i < final(tree).functions@.len() - 1 ==> final(tree).functions@[i] == old(
                tree,
            ).functions@[i],
        final(tree).functions@.last().name@ == old(tree).functions@.last().name@,
        final(tree).functions@.last().is_extern == old(tree).functions@.last().is_extern,
        final(tree).functions@.last().args@ == old(tree).functions@.last().args@,
        final(tree).functions@.last().modifiers@ == old(tree).functions@.last().modifiers@,
        final(tree).functions@.last().enums@ == old(tree).functions@.last().enums@,
        final(tree).file_name@ == old(tree).file_name@,
        final(tree).module@ == old(tree).module@,
        final(tree).constants@ == old(tree).constants@,
{
    let pos = tree.functions.len() - 1;
    let top_func = &mut tree.functions[pos];
    top_func.statements.push(stmt);
}

/// Appends an enumeration to the most recently declared function.
pub fn add_func_enum(tree: &mut AstTree, new_enum: AstEnum)
    requires
        old(tree).functions@.len() > 0,
    ensures
        final(tree).functions@.len() == old(tree).functions@.len(),
        final(tree).functions@.last().enums@ == old(tree).functions@.last().enums@.push(new_enum),
        forall|i: int|
            0 <= i < final(tree).functions@.len() - 1 ==> final(tree).functions@[i] == old(
                tree,
            ).functions@[i],
        final(tree).functions@.last().statements@ == old(tree).functions@.last().statements@,
{
    let pos = tree.functions.len() - 1;
    let top_func = &mut tree.functions[pos];
    top_func.enums.push(new_enum);
}

/// Holds when the most recently declared function has an enumeration
/// of the given name.
pub open spec fn last_func_has_enum(tree: AstTree, name: Seq<char>) -> bool {
    exists|i: int|
        0 <= i < tree.functions@.last().enums@.len() && tree.functions@.last().enums@[i].name@
            == name
}

/// Reports whether the most recently declared function already has an
/// enumeration of the given name.
pub fn enum_exists(tree: &mut AstTree, to_find: String) -> (found: bool)
    requires
        old(tree).functions@.len() > 0,
    ensures
        *final(tree) == *old(tree),
        found == last_func_has_enum(*old(tree), to_find@),
{
    let pos = tree.functions.len() - 1;
    let top_func = &tree.functions[pos];
    let n = top_func.enums.len();
    let mut i: usize = 0;
    while i < n
        invariant
            0 < tree.functions@.len(),
            top_func == tree.functions@.last(),
            n == top_func.enums@.len(),
            i <= n,
            forall|j: int| 0 <= j < i ==> top_func.enums@[j].name@ != to_find@,
        decreases n - i,
    {
        if string_eq(&top_func.enums[i].name, &to_find) {
            return true;
        }
        i = i + 1;
    }
    false
}

/// Reports whether two strings hold the same text.
pub fn string_eq(a: &String, b: &String) -> (r: bool)
    ensures
        r == (a@ == b@),
{
    a.eq(b)
}

/// Holds when an argument token is all zero but for its form.
pub open spec fn is_blank_arg_except(
    a: AstArg,
    arg_type: AstArgType,
    str_val: Seq<char>,
    char_val: char,
    u8_val: u8,
    u16_val: u16,
    u64_val: u64,
    flt_bits: u64,
) -> bool {
    &&& a.arg_type == arg_type
    &&& a.str_val@ == str_val
    &&& a.char_val == char_val
    &&& a.u8_val == u8_val
    &&& a.u16_val == u16_val
    &&& a.u64_val == u64_val
    &&& a.flt_bits == flt_bits
    &&& a.sub_args@ =~= Seq::<AstArg>::empty()
    &&& a.sub_modifiers@ =~= Seq::<AstMod>::empty()
}

/// Creates a byte literal token.
pub fn create_byte(val: u8) -> (a: AstArg)
    ensures
        is_blank_arg_except(a, AstArgType::ByteL, Seq::<char>::empty(), '\0', val, 0, 0, 0),
{
    AstArg {
        arg_type: AstArgType::ByteL,
        str_val: String::new(),
        char_val: '\0',
        u8_val: val,
        u16_val: 0,
        u64_val: 0,
        flt_bits: 0,
        sub_args: Vec::new(),
        sub_modifiers: Vec::new(),
    }
}

/// Creates a short literal token.
pub fn create_short(val: u16) -> (a: AstArg)
    ensures
        is_blank_arg_except(a, AstArgType::ShortL, Seq::<char>::empty(), '\0', 0, val, 0, 0),
{
    AstArg {
        arg_type: AstArgType::ShortL,
        str_val: String::new(),
        char_val: '\0',
        u8_val: 0,
        u16_val: val,
        u64_val: 0,
        flt_bits: 0,
        sub_args: Vec::new(),
        sub_modifiers: Vec::new(),
    }
}

/// Creates an integer literal token.
pub fn create_int(val: u64) -> (a: AstArg)
    ensures
        is_blank_arg_except(a, AstArgType::IntL, Seq::<char>::empty(), '\0', 0, 0, val, 0),
{
    AstArg {
        arg_type: AstArgType::IntL,
        str_val: String::new(),
        char_val: '\0',
        u8_val: 0,
        u16_val: 0,
        u64_val: val,
        flt_bits: 0,
        sub_args: Vec::new(),
        sub_modifiers: Vec::new(),
    }
}

/// Creates a float literal token from the bit pattern of the double
/// encoding of the literal.
pub fn create_float(bits: u64) -> (a: AstArg)
    ensures
        is_blank_arg_except(a, AstArgType::FloatL, Seq::<char>::empty(), '\0', 0, 0, 0, bits),
{
    AstArg {
        arg_type: AstArgType::FloatL,
        str_val: String::new(),
        char_val: '\0',
        u8_val: 0,
        u16_val: 0,
        u64_val: 0,
        flt_bits: bits,
        sub_args: Vec::new(),
        sub_modifiers: Vec::new(),
    }
}

/// Creates a character literal token.
pub fn create_char(val: char) -> (a: AstArg)
    ensures
        is_blank_arg_except(a, AstArgType::CharL, Seq::<char>::empty(), val, 0, 0, 0, 0),
{
    AstArg {
        arg_type: AstArgType::CharL,
        str_val: String::new(),
        char_val: val,
        u8_val: 0,
        u16_val: 0,
        u64_val: 0,
        flt_bits: 0,
        sub_args: Vec::new(),
        sub_modifiers: Vec::new(),
    }
}

/// Creates a string literal token.
pub fn create_string(val: String) -> (a: AstArg)
    ensures
        is_blank_arg_except(a, AstArgType::StringL, val@, '\0', 0, 0, 0, 0),
{
    AstArg {
        arg_type: AstArgType::StringL,
        str_val: val,
        char_val: '\0',
        u8_val: 0,
        u16_val: 0,
        u64_val: 0,
        flt_bits: 0,
        sub_args: Vec::new(),
        sub_modifiers: Vec::new(),
    }
}

/// Creates a bare token of the given form, usually an operator.
pub fn create_arg(arg_type: AstArgType) -> (a: AstArg)
    ensures
        is_blank_arg_except(a, arg_type, Seq::<char>::empty(), '\0', 0, 0, 0, 0),
{
    AstArg {
        arg_type,
        str_val: String::new(),
        char_val: '\0',
        u8_val: 0,
        u16_val: 0,
        u64_val: 0,
        flt_bits: 0,
        sub_args: Vec::new(),
        sub_modifiers: Vec::new(),
    }
}

} // verus!
