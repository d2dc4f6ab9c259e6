//! The parser of the source language: reads the words of a text as the
//! grammar has it.

use vstd::prelude::*;
use crate::text::{str_eq, owned, str_chars, read_radix};
use crate::syntax::ast::{
    Var,
    CmpTreeV,
    Value,
    ValueV,
    DExp,
    ValueBind,
    JumpCmp,
    CmpTree,
    CmpKind,
    Op,
    OpKind,
    Goto,
    Expand,
    InlineBlock,
    Select,
    Const,
    Take,
    LogicLine,
    LineV,
    clone_lines,
    values_view,
    lines_view,
};
use crate::syntax::parse_meta::{Meta, MetaPV, Error, Errors};
use crate::syntax::op_expr::{OpExprInfo, OpExprV};
use crate::syntax::sugar::{
    build_skip,
    build_if,
    build_while,
    build_gwhile,
    build_do_while,
    build_print,
    wrap_targets,
    Catcher,
    build_switch,
    assign_exprs,
    quick_take,
    consted,
    expr_open,
    exprs_view,
    catchers_view,
    bodies_view,
    trees_of,
    lines_of,
    some_line,
    assigned,
    if_line,
    branch_labels,
    max_of,
    lemma_assigned_shape,
    lemma_catch_blocks_shape,
};
use crate::syntax::def::lexer::{Token, TokenV, TokKind, tokens_view};
use crate::syntax::def::grammar::{
    PErrV,
    G,
    Stop,
    Infix,
    CasesV,
    is_reserved_text,
    sym,
    word,
    unexpected,
    expect,
    expect_word,
    var_of,
    stops,
    compare_sign,
    infix_of,
    any_infix_from,
    any_infix,
    oper_name,
    take_var,
    e_value,
    e_binary,
    e_unary,
    e_infix,
    strict_ne,
    op_of,
    truth,
    uint_of,
    e_assign,
    e_sets,
    no_catcher,
    with_numbers,
    g_value,
    g_primary,
    g_postfix,
    g_values,
    g_values_more,
    g_dexp,
    g_lines,
    g_lines_more,
    g_cond,
    g_cond_more,
    g_cond_and,
    g_cond_and_more,
    g_cond_inside,
    g_cond_not,
    g_cond_or_always,
    g_expr,
    g_infix,
    g_infix_more,
    g_call,
    g_expr_inside,
    g_prefix,
    g_exprs,
    g_exprs_more,
    g_line,
    g_block,
    g_goto,
    g_leave,
    g_skip,
    g_elifs,
    g_else,
    g_if,
    g_while,
    g_do,
    g_select,
    g_numbers,
    g_flags,
    g_cases,
    g_switch,
    g_const,
    g_take,
    g_op,
    g_operands,
    g_comma_values,
    g_assign,
    g_assign_one,
};

verus! {

/// Why a source text is no program.
#[derive(Debug, PartialEq, Clone)]
pub enum ParseError {
    /// The character at `location` begins no word.
    InvalidToken { location: usize },
    /// The word at `location` cannot stand there.
    UnrecognizedToken { location: usize },
    /// The text ends where more must follow.
    UnrecognizedEof,
    /// The text is nested deeper than the parser follows.
    TooDeep,
    /// The counters of generated names are exhausted.
    TooManyNames,
    /// The text reads as the grammar has it, and means nothing.
    User { error: Error },
}

/// How deep the parser follows nested statements and values.
pub const PARSE_DEPTH: usize = 4000;

/// The mathematical form of a [`ParseError`].
pub open spec fn error_view(e: ParseError) -> PErrV {
    match e {
        ParseError::InvalidToken { location } => PErrV::InvalidToken(location as int),
        ParseError::UnrecognizedToken { location } => PErrV::UnrecognizedToken(location as int),
        ParseError::UnrecognizedEof => PErrV::UnrecognizedEof,
        ParseError::TooDeep => PErrV::TooDeep,
        ParseError::TooManyNames => PErrV::TooManyNames,
        ParseError::User { error } => match error.err {
            Errors::NotALiteralUInteger(text, why) => PErrV::NotUInt {
                start: error.start as int,
                end: error.end as int,
                text: text@,
                why,
            },
            Errors::SetVarNoPatternValue(vars, values) => PErrV::SetCount {
                start: error.start as int,
                end: error.end as int,
                vars: vars as nat,
                values: values as nat,
            },
        },
    }
}

/// The state is fit for reading statements: a scope of labels is open,
/// and so is a loop level, which `break` and `continue` refer to.
pub open spec fn ready(m: MetaPV) -> bool {
    m.labels.len() > 0 && m.breaks.len() > 0 && m.continues.len() > 0
}

/// As many scopes and loop levels are open in `b` as in `a`.
pub open spec fn shape_kept(a: MetaPV, b: MetaPV) -> bool {
    a.labels.len() == b.labels.len() && a.breaks.len() == b.breaks.len() && a.continues.len()
        == b.continues.len()
}

/// Whether every expression of the list has its result open.
pub open spec fn exprs_open(es: Seq<OpExprInfo>) -> bool {
    forall|i: int| 0 <= i < es.len() ==> expr_open(#[trigger] es[i]@)
}

/// The depth left, as the measure that the grammar counts down.
pub open spec fn fuel(depth: usize) -> nat {
    depth as nat
}

/// The position, as the grammar counts.
pub open spec fn at(pos: usize) -> int {
    pos as int
}

/// The words, as the grammar sees them.
pub open spec fn words(toks: &Vec<Token>) -> Seq<TokenV> {
    tokens_view(toks@)
}

/// The outcome `r` of reading a value, with the state `m` behind it, is
/// what the grammar `g` says: the same value at the same place with the
/// same state, or the same error.
pub open spec fn read_value(r: Result<(Value, usize), ParseError>, m: MetaPV, g: G<ValueV>) -> bool {
    match g {
        Ok((v, p, m2)) => r is Ok && r->Ok_0.0@ == v && r->Ok_0.1 == p && m == m2,
        Err(e) => r is Err && error_view(r->Err_0) == e,
    }
}

/// As [`read_value`], of values.
pub open spec fn read_values(
    r: Result<(Vec<Value>, usize), ParseError>,
    m: MetaPV,
    g: G<Seq<ValueV>>,
) -> bool {
    match g {
        Ok((v, p, m2)) => r is Ok && values_view(r->Ok_0.0) == v && r->Ok_0.1 == p && m == m2,
        Err(e) => r is Err && error_view(r->Err_0) == e,
    }
}

/// As [`read_value`], of an expression with a handle.
pub open spec fn read_dexp(
    r: Result<(DExp, usize), ParseError>,
    m: MetaPV,
    g: G<crate::syntax::ast::DExpV>,
) -> bool {
    match g {
        Ok((v, p, m2)) => r is Ok && r->Ok_0.0@ == v && r->Ok_0.1 == p && m == m2,
        Err(e) => r is Err && error_view(r->Err_0) == e,
    }
}

/// As [`read_value`], of a statement.
pub open spec fn read_line(r: Result<(LogicLine, usize), ParseError>, m: MetaPV, g: G<LineV>) -> bool {
    match g {
        Ok((v, p, m2)) => r is Ok && r->Ok_0.0@ == v && r->Ok_0.1 == p && m == m2,
        Err(e) => r is Err && error_view(r->Err_0) == e,
    }
}

/// As [`read_value`], of a statement that may be left out.
pub open spec fn read_some_line(
    r: Result<(Option<LogicLine>, usize), ParseError>,
    m: MetaPV,
    g: G<Option<LineV>>,
) -> bool {
    match g {
        Ok((v, p, m2)) => r is Ok && some_line(r->Ok_0.0) == v && r->Ok_0.1 == p && m == m2,
        Err(e) => r is Err && error_view(r->Err_0) == e,
    }
}

/// As [`read_value`], of statements.
pub open spec fn read_lines(
    r: Result<(Vec<LogicLine>, usize), ParseError>,
    m: MetaPV,
    g: G<Seq<LineV>>,
) -> bool {
    match g {
        Ok((v, p, m2)) => r is Ok && lines_view(r->Ok_0.0) == v && r->Ok_0.1 == p && m == m2,
        Err(e) => r is Err && error_view(r->Err_0) == e,
    }
}

/// As [`read_value`], of a condition.
pub open spec fn read_tree(
    r: Result<(CmpTree, usize), ParseError>,
    m: MetaPV,
    g: G<crate::syntax::ast::CmpTreeV>,
) -> bool {
    match g {
        Ok((v, p, m2)) => r is Ok && r->Ok_0.0@ == v && r->Ok_0.1 == p && m == m2,
        Err(e) => r is Err && error_view(r->Err_0) == e,
    }
}

/// As [`read_value`], of an expression over operations.
pub open spec fn read_expr(r: Result<(OpExprInfo, usize), ParseError>, m: MetaPV, g: G<OpExprV>) -> bool {
    match g {
        Ok((v, p, m2)) => r is Ok && r->Ok_0.0@ == v && r->Ok_0.1 == p && m == m2,
        Err(e) => r is Err && error_view(r->Err_0) == e,
    }
}

/// As [`read_value`], of expressions over operations.
pub open spec fn read_exprs(
    r: Result<(Vec<OpExprInfo>, usize), ParseError>,
    m: MetaPV,
    g: G<Seq<OpExprV>>,
) -> bool {
    match g {
        Ok((v, p, m2)) => r is Ok && exprs_view(r->Ok_0.0@) == v && r->Ok_0.1 == p && m == m2,
        Err(e) => r is Err && error_view(r->Err_0) == e,
    }
}

/// The token at `pos` is the token that the grammar sees there.
proof fn lemma_word_at(toks: &Vec<Token>, pos: usize)
    ensures
        words(toks).len() == toks.len(),
        pos < toks.len() ==> words(toks)[pos as int] == toks@[pos as int]@,
{
}

/// Whether the sign `s` stands at `pos`.
fn sym_at(toks: &Vec<Token>, pos: usize, s: &str) -> (r: bool)
    ensures
        r == sym(words(toks), at(pos), s@),
        r ==> pos < toks.len(),
{
    proof {
        lemma_word_at(toks, pos);
    }
    pos < toks.len() && toks[pos].kind == TokKind::Sym && str_eq(toks[pos].text.as_str(), s)
}

/// Whether the word `s` stands at `pos`.
fn word_at(toks: &Vec<Token>, pos: usize, s: &str) -> (r: bool)
    ensures
        r == word(words(toks), at(pos), s@),
        r ==> pos < toks.len(),
{
    proof {
        lemma_word_at(toks, pos);
    }
    pos < toks.len() && toks[pos].kind == TokKind::Ident && str_eq(toks[pos].text.as_str(), s)
}

/// The error for what stands at `pos`, or for the end of the text there.
fn unexpected_at(toks: &Vec<Token>, pos: usize) -> (r: ParseError)
    ensures
        error_view(r) == unexpected(words(toks), at(pos)),
{
    proof {
        lemma_word_at(toks, pos);
    }
    if pos < toks.len() {
        ParseError::UnrecognizedToken { location: toks[pos].start }
    } else {
        ParseError::UnrecognizedEof
    }
}

/// The place behind the sign `s`, which must stand at `pos`.
fn expect_sym(toks: &Vec<Token>, pos: usize, s: &str) -> (r: Result<usize, ParseError>)
    ensures
        match expect(words(toks), at(pos), s@) {
            Ok(p) => r is Ok && r->Ok_0 == p,
            Err(e) => r is Err && error_view(r->Err_0) == e,
        },
        r is Ok ==> pos < toks.len() && r->Ok_0 == pos + 1,
{
    if sym_at(toks, pos, s) {
        Ok(pos + 1)
    } else {
        Err(unexpected_at(toks, pos))
    }
}

/// The place behind the word `s`, which must stand at `pos`.
fn expect_a_word(toks: &Vec<Token>, pos: usize, s: &str) -> (r: Result<usize, ParseError>)
    ensures
        match expect_word(words(toks), at(pos), s@) {
            Ok(p) => r is Ok && r->Ok_0 == p,
            Err(e) => r is Err && error_view(r->Err_0) == e,
        },
        r is Ok ==> pos < toks.len() && r->Ok_0 == pos + 1,
{
    if word_at(toks, pos, s) {
        Ok(pos + 1)
    } else {
        Err(unexpected_at(toks, pos))
    }
}

/// Whether a list that ends as `stop` says ends at `pos`.
fn at_stop(toks: &Vec<Token>, pos: usize, stop: Stop) -> (r: bool)
    ensures
        r == stops(words(toks), at(pos), stop),
{
    proof {
        lemma_word_at(toks, pos);
    }
    match stop {
        Stop::Paren => sym_at(toks, pos, ")"),
        Stop::Brace => sym_at(toks, pos, "}"),
        Stop::Bracket => sym_at(toks, pos, "]"),
        Stop::Semi => sym_at(toks, pos, ";"),
        Stop::Assign => sym_at(toks, pos, ";") || sym_at(toks, pos, "="),
        Stop::CaseOrBrace => sym_at(toks, pos, "}") || word_at(toks, pos, "case"),
        Stop::End => pos >= toks.len(),
    }
}

/// Whether the grammar keeps the word for itself.
pub(crate) fn is_reserved(s: &str) -> (r: bool)
    ensures
        r == is_reserved_text(s@),
{
    str_eq(s, "goto") || str_eq(s, "const") || str_eq(s, "take") || str_eq(s, "setres") || str_eq(
        s,
        "op",
    ) || str_eq(s, "set") || str_eq(s, "print") || str_eq(s, "noop") || str_eq(s, "select")
        || str_eq(s, "switch") || str_eq(s, "case") || str_eq(s, "skip") || str_eq(s, "if")
        || str_eq(s, "else") || str_eq(s, "elif") || str_eq(s, "while") || str_eq(s, "do")
        || str_eq(s, "gwhile") || str_eq(s, "break") || str_eq(s, "continue") || str_eq(
        s,
        "inline",
    ) || str_eq(s, "_")
}

/// The name that the word at `pos` is, if it is one.
pub(crate) fn var_at(toks: &Vec<Token>, pos: usize, strings: bool) -> (r: Option<Var>)
    ensures
        match var_of(words(toks), at(pos), strings) {
            Some(n) => r is Some && r->Some_0@ == n,
            None => r is None,
        },
        r is Some ==> pos < toks.len(),
{
    proof {
        lemma_word_at(toks, pos);
    }
    if pos >= toks.len() {
        return None;
    }
    let t = &toks[pos];
    match t.kind {
        TokKind::Ident => if is_reserved(t.text.as_str()) {
            None
        } else {
            Some(t.text.clone())
        },
        TokKind::Number => Some(t.text.clone()),
        TokKind::Quoted => Some(t.text.clone()),
        TokKind::Str => if strings {
            Some(t.text.clone())
        } else {
            None
        },
        TokKind::Sym => None,
    }
}

/// What reading an unsigned number from one token gives.
pub open spec fn uint_read(r: Result<(usize, usize), ParseError>, t: TokenV, pos: usize) -> bool {
    if t.kind != TokKind::Number {
        r is Err && error_view(r->Err_0) == PErrV::UnrecognizedToken(t.start)
    } else {
        match uint_of(t.text) {
            Ok(n) => r == Ok::<(usize, usize), ParseError>((n, (pos + 1) as usize)),
            Err(why) => r is Err && error_view(r->Err_0) == (PErrV::NotUInt {
                start: t.start,
                end: t.end,
                text: t.text,
                why,
            }),
        }
    }
}

/// The unsigned number that the word at `pos` writes.
pub(crate) fn uint_at(toks: &Vec<Token>, pos: usize) -> (r: Result<(usize, usize), ParseError>)
    ensures
        r is Ok ==> pos < toks.len() && r->Ok_0.1 == pos + 1,
        pos >= toks.len() ==> r is Err && error_view(r->Err_0) == PErrV::UnrecognizedEof,
        pos < toks.len() ==> uint_read(r, words(toks)[pos as int], pos),
{
    proof {
        lemma_word_at(toks, pos);
    }
    if pos >= toks.len() {
        return Err(ParseError::UnrecognizedEof);
    }
    let t = &toks[pos];
    if t.kind != TokKind::Number {
        return Err(ParseError::UnrecognizedToken { location: t.start });
    }
    let v = str_chars(t.text.as_str());
    let hex = v.len() >= 2 && v[0] == '0' && v[1] == 'x';
    let bin = v.len() >= 2 && v[0] == '0' && v[1] == 'b';
    let res = if hex {
        read_radix(&v, 2, 16)
    } else if bin {
        read_radix(&v, 2, 2)
    } else {
        assert(v@.skip(0) =~= v@);
        read_radix(&v, 0, 10)
    };
    match res {
        Ok(n) => Ok((n, pos + 1)),
        Err(why) => Err(
            ParseError::User {
                error: Error {
                    start: t.start,
                    end: t.end,
                    err: Errors::NotALiteralUInteger(t.text.clone(), why),
                },
            },
        ),
    }
}

/// A fresh variable, where the counter has room for one.
fn fresh_var(meta: &mut Meta) -> (r: Result<String, ParseError>)
    ensures
        match take_var(old(meta)@) {
            Ok((m, v)) => r is Ok && final(meta)@ == m && r->Ok_0@ == v,
            Err(e) => r is Err && error_view(r->Err_0) == e,
        },
        r is Ok ==> shape_kept(old(meta)@, final(meta)@),
{
    if meta.tmp_var_count() == usize::MAX {
        Err(ParseError::TooManyNames)
    } else {
        Ok(meta.get_tmp_var())
    }
}

/// Turns an expression into the value that stands for it.
fn expr_value(e: OpExprInfo, meta: &mut Meta) -> (r: Result<Value, ParseError>)
    requires
        expr_open(e@),
    ensures
        match e_value(e@, old(meta)@) {
            Ok((m, v)) => r is Ok && final(meta)@ == m && r->Ok_0@ == v,
            Err(err) => r is Err && error_view(r->Err_0) == err,
        },
        r is Ok ==> shape_kept(old(meta)@, final(meta)@),
{
    if meta.tag_number() >= usize::MAX - 1 {
        return Err(ParseError::TooManyNames);
    }
    Ok(e.into_value(meta))
}

/// The outcome `r` with the state `m` is what `g` says.
pub open spec fn made_expr(
    r: Result<OpExprInfo, ParseError>,
    m: MetaPV,
    g: Result<(MetaPV, OpExprV), PErrV>,
) -> bool {
    match g {
        Ok((m2, e)) => r is Ok && m == m2 && r->Ok_0@ == e,
        Err(err) => r is Err && error_view(r->Err_0) == err,
    }
}

/// The operation with an open result on the values of two expressions.
fn binary_expr(kind: OpKind, a: OpExprInfo, b: OpExprInfo, meta: &mut Meta) -> (r: Result<
    OpExprInfo,
    ParseError,
>)
    requires
        expr_open(a@),
        expr_open(b@),
    ensures
        made_expr(r, final(meta)@, e_binary(kind, a@, b@, old(meta)@)),
        r is Ok ==> shape_kept(old(meta)@, final(meta)@) && expr_open(r->Ok_0@),
{
    let av = expr_value(a, meta)?;
    let bv = expr_value(b, meta)?;
    let op = Op { kind, result: Value::ResultHandle, arg1: av, arg2: Some(bv) };
    Ok(OpExprInfo::Op(op))
}

/// The operation with an open result on the value of one expression.
fn unary_expr(kind: OpKind, a: OpExprInfo, meta: &mut Meta) -> (r: Result<OpExprInfo, ParseError>)
    requires
        expr_open(a@),
    ensures
        made_expr(r, final(meta)@, e_unary(kind, a@, old(meta)@)),
        r is Ok ==> shape_kept(old(meta)@, final(meta)@) && expr_open(r->Ok_0@),
{
    let av = expr_value(a, meta)?;
    let op = Op { kind, result: Value::ResultHandle, arg1: av, arg2: None };
    Ok(OpExprInfo::Op(op))
}

/// `a !== b` into `result`: that `a === b` gave `false`.
fn strict_not_equal(result: Value, a: Value, b: Value) -> (r: Op)
    ensures
        r@ == strict_ne(result@, a@, b@),
{
    let inner = Op::StrictEqual(Value::ResultHandle, a, b);
    let line = LogicLine::Op(inner);
    assert(line@ == LineV::Op(inner@));
    let mut lines: Vec<LogicLine> = Vec::new();
    lines.push(line);
    assert(lines_view(lines) =~= seq![line@]);
    let d = Value::DExp(DExp { result: String::new(), lines: Expand(lines) });
    let no = Value::ReprVar(owned("false"));
    assert(no@ == ValueV::ReprVar("false"@));
    Op::Equal(result, d, no)
}

/// Two expressions joined by a sign.
fn infix_expr(sign: Infix, a: OpExprInfo, b: OpExprInfo, meta: &mut Meta) -> (r: Result<
    OpExprInfo,
    ParseError,
>)
    requires
        expr_open(a@),
        expr_open(b@),
    ensures
        made_expr(r, final(meta)@, e_infix(sign, a@, b@, old(meta)@)),
        r is Ok ==> shape_kept(old(meta)@, final(meta)@) && expr_open(r->Ok_0@),
{
    match sign {
        Infix::Oper(kind) => binary_expr(kind, a, b, meta),
        Infix::StrictNotEqual => {
            let av = expr_value(a, meta)?;
            let bv = expr_value(b, meta)?;
            Ok(OpExprInfo::Op(strict_not_equal(Value::ResultHandle, av, bv)))
        },
    }
}

/// The operation that a sign or a name stands for, on two values.
fn make_op(sign: Infix, result: Value, a: Value, b: Value) -> (r: Op)
    ensures
        r@ == op_of(sign, result@, a@, b@),
{
    match sign {
        Infix::Oper(kind) => Op { kind, result, arg1: a, arg2: Some(b) },
        Infix::StrictNotEqual => strict_not_equal(result, a, b),
    }
}

/// The comparison whose sign stands at `pos`.
fn compare_sign_at(toks: &Vec<Token>, pos: usize) -> (r: Option<CmpKind>)
    ensures
        r == compare_sign(words(toks), at(pos)),
        r is Some ==> pos < toks.len(),
{
    if sym_at(toks, pos, "==") {
        Some(CmpKind::Equal)
    } else if sym_at(toks, pos, "!=") {
        Some(CmpKind::NotEqual)
    } else if sym_at(toks, pos, "<") {
        Some(CmpKind::LessThan)
    } else if sym_at(toks, pos, "<=") {
        Some(CmpKind::LessThanEq)
    } else if sym_at(toks, pos, ">") {
        Some(CmpKind::GreaterThan)
    } else if sym_at(toks, pos, ">=") {
        Some(CmpKind::GreaterThanEq)
    } else if sym_at(toks, pos, "===") {
        Some(CmpKind::StrictEqual)
    } else if sym_at(toks, pos, "!==") {
        Some(CmpKind::StrictNotEqual)
    } else {
        None
    }
}

/// The operation whose sign stands at `pos` and binds at `level`.
fn infix_at(toks: &Vec<Token>, pos: usize, level: u8) -> (r: Option<Infix>)
    ensures
        r == infix_of(words(toks), at(pos), level as int),
        r is Some ==> pos < toks.len(),
{
    if level == 0 {
        if sym_at(toks, pos, "&&") {
            return Some(Infix::Oper(OpKind::Land));
        }
    } else if level == 1 {
        if sym_at(toks, pos, "==") {
            return Some(Infix::Oper(OpKind::Equal));
        } else if sym_at(toks, pos, "!=") {
            return Some(Infix::Oper(OpKind::NotEqual));
        } else if sym_at(toks, pos, "===") {
            return Some(Infix::Oper(OpKind::StrictEqual));
        } else if sym_at(toks, pos, "!==") {
            return Some(Infix::StrictNotEqual);
        }
    } else if level == 2 {
        if sym_at(toks, pos, "<") {
            return Some(Infix::Oper(OpKind::LessThan));
        } else if sym_at(toks, pos, ">") {
            return Some(Infix::Oper(OpKind::GreaterThan));
        } else if sym_at(toks, pos, "<=") {
            return Some(Infix::Oper(OpKind::LessThanEq));
        } else if sym_at(toks, pos, ">=") {
            return Some(Infix::Oper(OpKind::GreaterThanEq));
        }
    } else if level == 3 {
        if sym_at(toks, pos, "|") {
            return Some(Infix::Oper(OpKind::Or));
        }
    } else if level == 4 {
        if sym_at(toks, pos, "^") {
            return Some(Infix::Oper(OpKind::Xor));
        }
    } else if level == 5 {
        if sym_at(toks, pos, "&") {
            return Some(Infix::Oper(OpKind::And));
        }
    } else if level == 6 {
        if sym_at(toks, pos, "<<") {
            return Some(Infix::Oper(OpKind::Shl));
        } else if sym_at(toks, pos, ">>") {
            return Some(Infix::Oper(OpKind::Shr));
        }
    } else if level == 7 {
        if sym_at(toks, pos, "+") {
            return Some(Infix::Oper(OpKind::Add));
        } else if sym_at(toks, pos, "-") {
            return Some(Infix::Oper(OpKind::Sub));
        }
    } else if level == 8 {
        if sym_at(toks, pos, "*") {
            return Some(Infix::Oper(OpKind::Mul));
        } else if sym_at(toks, pos, "/") {
            return Some(Infix::Oper(OpKind::Div));
        } else if sym_at(toks, pos, "//") {
            return Some(Infix::Oper(OpKind::Idiv));
        } else if sym_at(toks, pos, "%") {
            return Some(Infix::Oper(OpKind::Mod));
        }
    } else if level == 9 {
        if sym_at(toks, pos, "**") {
            return Some(Infix::Oper(OpKind::Pow));
        }
    }
    None
}

/// The operation whose sign stands at `pos`, at any level.
fn any_infix_at(toks: &Vec<Token>, pos: usize) -> (r: Option<Infix>)
    ensures
        r == any_infix(words(toks), at(pos)),
        r is Some ==> pos < toks.len(),
{
    let mut level: u8 = 0;
    while level <= 9
        invariant
            level <= 10,
            any_infix(words(toks), at(pos)) == any_infix_from(words(toks), at(pos), level as int),
        decreases 10 - level,
    {
        match infix_at(toks, pos, level) {
            Some(i) => {
                return Some(i);
            },
            None => {},
        }
        level += 1;
    }
    None
}

/// The operation that the word at `pos` names.
fn oper_name_at(toks: &Vec<Token>, pos: usize) -> (r: Option<OpKind>)
    ensures
        r == oper_name(words(toks), at(pos)),
        r is Some ==> pos < toks.len(),
{
    proof {
        lemma_word_at(toks, pos);
    }
    if pos < toks.len() && toks[pos].kind == TokKind::Ident {
        OpKind::from_name(toks[pos].text.as_str())
    } else {
        None
    }
}

/// One less than the depth, as the grammar counts.
pub open spec fn less(depth: usize) -> nat {
    (depth - 1) as nat
}

/// Parses a value.
pub(crate) fn parse_value(toks: &Vec<Token>, pos: usize, meta: &mut Meta, depth: usize) -> (r: Result<
    (Value, usize),
    ParseError,
>)
    requires
        ready(old(meta)@),
    ensures
        read_value(r, final(meta)@, g_value(words(toks), at(pos), old(meta)@, fuel(depth))),
        r is Ok ==> pos < r->Ok_0.1 <= toks.len() && shape_kept(old(meta)@, final(meta)@),
    decreases depth, 0nat,
{
    if depth == 0 {
        return Err(ParseError::TooDeep);
    }
    let (first, start) = parse_primary(toks, pos, meta, depth - 1)?;
    let ghost goal = g_postfix(words(toks), first@, at(start), meta@, less(depth));
    let mut value = first;
    let mut p = start;
    loop
        invariant
            depth > 0,
            ready(old(meta)@),
            pos < p <= toks.len(),
            shape_kept(old(meta)@, meta@),
            g_value(words(toks), at(pos), old(meta)@, fuel(depth)) == goal,
            g_postfix(words(toks), value@, at(p), meta@, less(depth)) == goal,
        decreases toks.len() - p,
    {
        proof {
            lemma_word_at(toks, p);
            lemma_word_at(toks, (p - 1) as usize);
        }
        if sym_at(toks, p, ".") {
            let attr = match var_at(toks, p + 1, false) {
                Some(a) => a,
                None => {
                    return Err(unexpected_at(toks, p + 1));
                },
            };
            value = Value::ValueBind(ValueBind(Box::new(value), attr));
            p = p + 2;
        } else if sym_at(toks, p, "[") && toks[p].start == toks[p - 1].end {
            let (args, p2) = parse_values(toks, p + 1, meta, depth - 1, Stop::Bracket)?;
            let p3 = expect_sym(toks, p2, "]")?;
            value = quick_take(value, args);
            p = p3;
        } else {
            return Ok((value, p));
        }
    }
}

/// Parses what begins a value.
fn parse_primary(toks: &Vec<Token>, pos: usize, meta: &mut Meta, depth: usize) -> (r: Result<
    (Value, usize),
    ParseError,
>)
    requires
        ready(old(meta)@),
    ensures
        read_value(r, final(meta)@, g_primary(words(toks), at(pos), old(meta)@, fuel(depth))),
        r is Ok ==> pos < r->Ok_0.1 <= toks.len() && shape_kept(old(meta)@, final(meta)@),
    decreases depth, 0nat,
{
    if depth == 0 {
        return Err(ParseError::TooDeep);
    }
    if sym_at(toks, pos, "`") {
        let name = match var_at(toks, pos + 1, true) {
            Some(n) => n,
            None => {
                return Err(unexpected_at(toks, pos + 1));
            },
        };
        let p = expect_sym(toks, pos + 2, "`")?;
        Ok((Value::ReprVar(name), p))
    } else if sym_at(toks, pos, "$") {
        Ok((Value::ResultHandle, pos + 1))
    } else if sym_at(toks, pos, "(") {
        let (d, p) = parse_dexp(toks, pos + 1, meta, depth - 1)?;
        Ok((Value::DExp(d), p))
    } else if word_at(toks, pos, "const") && sym_at(toks, pos + 1, "(") {
        meta.add_label_scope();
        let (d, p) = parse_dexp(toks, pos + 2, meta, depth - 1)?;
        let labels = meta.pop_label_scope();
        let tmp = fresh_var(meta)?;
        Ok((consted(d, labels, tmp), p))
    } else {
        match var_at(toks, pos, true) {
            Some(n) => Ok((Value::Var(n), pos + 1)),
            None => Err(unexpected_at(toks, pos)),
        }
    }
}

/// Parses values up to where `stop` says.
pub(crate) fn parse_values(
    toks: &Vec<Token>,
    pos: usize,
    meta: &mut Meta,
    depth: usize,
    stop: Stop,
) -> (r: Result<(Vec<Value>, usize), ParseError>)
    requires
        ready(old(meta)@),
        pos <= toks.len(),
    ensures
        read_values(
            r,
            final(meta)@,
            g_values(words(toks), at(pos), old(meta)@, fuel(depth), stop),
        ),
        r is Ok ==> pos <= r->Ok_0.1 <= toks.len() && shape_kept(old(meta)@, final(meta)@),
    decreases depth, 0nat,
{
    if depth == 0 {
        return Err(ParseError::TooDeep);
    }
    let mut values: Vec<Value> = Vec::new();
    let mut p = pos;
    let ghost goal = g_values_more(
        words(toks),
        Seq::empty(),
        at(pos),
        meta@,
        less(depth),
        stop,
    );
    assert(values_view(values) =~= Seq::empty());
    loop
        invariant
            depth > 0,
            ready(old(meta)@),
            pos <= p <= toks.len(),
            shape_kept(old(meta)@, meta@),
            g_values(words(toks), at(pos), old(meta)@, fuel(depth), stop) == goal,
            g_values_more(words(toks), values_view(values), at(p), meta@, less(depth), stop)
                == goal,
        decreases toks.len() - p,
    {
        proof {
            lemma_word_at(toks, p);
        }
        if at_stop(toks, p, stop) {
            return Ok((values, p));
        }
        let ghost before = values_view(values);
        let (v, p2) = parse_value(toks, p, meta, depth - 1)?;
        values.push(v);
        assert(values_view(values) =~= before.push(v@));
        p = p2;
    }
}

/// Parses an expression with a handle, behind its `(`.
fn parse_dexp(toks: &Vec<Token>, pos: usize, meta: &mut Meta, depth: usize) -> (r: Result<
    (DExp, usize),
    ParseError,
>)
    requires
        ready(old(meta)@),
    ensures
        read_dexp(r, final(meta)@, g_dexp(words(toks), at(pos), old(meta)@, fuel(depth))),
        r is Ok ==> pos < r->Ok_0.1 <= toks.len() && shape_kept(old(meta)@, final(meta)@),
    decreases depth, 0nat,
{
    if depth == 0 {
        return Err(ParseError::TooDeep);
    }
    if pos >= toks.len() {
        return Err(ParseError::UnrecognizedEof);
    }
    proof {
        lemma_word_at(toks, pos);
        lemma_word_at(toks, (pos + 1) as usize);
    }
    let mut p = pos;
    let mut result = String::new();
    if sym_at(toks, pos + 1, ":") && toks[pos + 1].start == toks[pos].end {
        match var_at(toks, pos, true) {
            Some(n) => {
                result = n;
                p = pos + 2;
            },
            None => {},
        }
    }
    let (lines, p2) = parse_lines(toks, p, meta, depth - 1, Stop::Paren)?;
    let p3 = expect_sym(toks, p2, ")")?;
    Ok((DExp { result, lines: Expand(lines) }, p3))
}

/// Parses statements up to where `stop` says.
pub(crate) fn parse_lines(
    toks: &Vec<Token>,
    pos: usize,
    meta: &mut Meta,
    depth: usize,
    stop: Stop,
) -> (r: Result<(Vec<LogicLine>, usize), ParseError>)
    requires
        ready(old(meta)@),
        pos <= toks.len(),
    ensures
        read_lines(r, final(meta)@, g_lines(words(toks), at(pos), old(meta)@, fuel(depth), stop)),
        r is Ok ==> pos <= r->Ok_0.1 <= toks.len() && shape_kept(old(meta)@, final(meta)@),
    decreases depth, 0nat,
{
    if depth == 0 {
        return Err(ParseError::TooDeep);
    }
    let mut lines: Vec<LogicLine> = Vec::new();
    let mut p = pos;
    let ghost goal = g_lines_more(words(toks), Seq::empty(), at(pos), meta@, less(depth), stop);
    assert(lines_view(lines) =~= Seq::empty());
    loop
        invariant
            depth > 0,
            ready(old(meta)@),
            pos <= p <= toks.len(),
            shape_kept(old(meta)@, meta@),
            g_lines(words(toks), at(pos), old(meta)@, fuel(depth), stop) == goal,
            g_lines_more(words(toks), lines_view(lines), at(p), meta@, less(depth), stop) == goal,
        decreases toks.len() - p,
    {
        proof {
            lemma_word_at(toks, p);
        }
        if at_stop(toks, p, stop) {
            return Ok((lines, p));
        }
        let ghost before = lines_view(lines);
        let (l, p2) = parse_line(toks, p, meta, depth - 1)?;
        lines.push(l);
        assert(lines_view(lines) =~= before.push(l@));
        p = p2;
    }
}

/// Parses a condition.
pub(crate) fn parse_cond(toks: &Vec<Token>, pos: usize, meta: &mut Meta, depth: usize) -> (r: Result<
    (CmpTree, usize),
    ParseError,
>)
    requires
        ready(old(meta)@),
    ensures
        read_tree(r, final(meta)@, g_cond(words(toks), at(pos), old(meta)@, fuel(depth))),
        r is Ok ==> pos < r->Ok_0.1 <= toks.len() && shape_kept(old(meta)@, final(meta)@),
    decreases depth, 0nat,
{
    if depth == 0 {
        return Err(ParseError::TooDeep);
    }
    let (first, start) = parse_cond_and(toks, pos, meta, depth - 1)?;
    let ghost goal = g_cond_more(words(toks), first@, at(start), meta@, less(depth));
    let mut tree = first;
    let mut p = start;
    loop
        invariant
            depth > 0,
            ready(old(meta)@),
            pos < p <= toks.len(),
            shape_kept(old(meta)@, meta@),
            g_cond(words(toks), at(pos), old(meta)@, fuel(depth)) == goal,
            g_cond_more(words(toks), tree@, at(p), meta@, less(depth)) == goal,
        decreases toks.len() - p,
    {
        if !sym_at(toks, p, "||") {
            return Ok((tree, p));
        }
        let (rhs, p2) = parse_cond_and(toks, p + 1, meta, depth - 1)?;
        tree = CmpTree::Or(Box::new(tree), Box::new(rhs));
        p = p2;
    }
}

/// Parses a conjunction.
fn parse_cond_and(toks: &Vec<Token>, pos: usize, meta: &mut Meta, depth: usize) -> (r: Result<
    (CmpTree, usize),
    ParseError,
>)
    requires
        ready(old(meta)@),
    ensures
        read_tree(r, final(meta)@, g_cond_and(words(toks), at(pos), old(meta)@, fuel(depth))),
        r is Ok ==> pos < r->Ok_0.1 <= toks.len() && shape_kept(old(meta)@, final(meta)@),
    decreases depth, 0nat,
{
    if depth == 0 {
        return Err(ParseError::TooDeep);
    }
    let (first, start) = parse_cond_not(toks, pos, meta, depth - 1)?;
    let ghost goal = g_cond_and_more(words(toks), first@, at(start), meta@, less(depth));
    let mut tree = first;
    let mut p = start;
    loop
        invariant
            depth > 0,
            ready(old(meta)@),
            pos < p <= toks.len(),
            shape_kept(old(meta)@, meta@),
            g_cond_and(words(toks), at(pos), old(meta)@, fuel(depth)) == goal,
            g_cond_and_more(words(toks), tree@, at(p), meta@, less(depth)) == goal,
        decreases toks.len() - p,
    {
        if !sym_at(toks, p, "&&") {
            return Ok((tree, p));
        }
        let (rhs, p2) = parse_cond_not(toks, p + 1, meta, depth - 1)?;
        tree = CmpTree::And(Box::new(tree), Box::new(rhs));
        p = p2;
    }
}

/// Parses a condition between parentheses, if the words at `pos` are one;
/// the state stays as it was where they are none.
fn try_cond_inside(toks: &Vec<Token>, pos: usize, meta: &mut Meta, depth: usize) -> (r: Option<
    (CmpTree, usize),
>)
    requires
        ready(old(meta)@),
    ensures
        match g_cond_inside(words(toks), at(pos), old(meta)@, fuel(depth)) {
            Some((tree, p, m)) => r is Some && final(meta)@ == m && r->Some_0.0@ == tree
                && r->Some_0.1 == p,
            None => r is None && final(meta)@ == old(meta)@,
        },
        r is Some ==> pos < r->Some_0.1 <= toks.len() && shape_kept(old(meta)@, final(meta)@),
    decreases depth, 0nat,
{
    if depth == 0 || !sym_at(toks, pos, "(") {
        return None;
    }
    let saved = meta.duplicate();
    match parse_cond(toks, pos + 1, meta, depth - 1) {
        Ok((tree, p)) => {
            if sym_at(toks, p, ")") {
                return Some((tree, p + 1));
            }
        },
        Err(_) => {},
    }
    *meta = saved;
    None
}

/// The condition that `v` is not `false`.
fn truth_of(v: Value) -> (r: CmpTree)
    ensures
        r@ == truth(v@),
{
    let c = JumpCmp::bool(v);
    CmpTree::Atom(c)
}

/// Parses one comparison.
fn parse_cond_not(toks: &Vec<Token>, pos: usize, meta: &mut Meta, depth: usize) -> (r: Result<
    (CmpTree, usize),
    ParseError,
>)
    requires
        ready(old(meta)@),
    ensures
        read_tree(r, final(meta)@, g_cond_not(words(toks), at(pos), old(meta)@, fuel(depth))),
        r is Ok ==> pos < r->Ok_0.1 <= toks.len() && shape_kept(old(meta)@, final(meta)@),
    decreases depth, 0nat,
{
    if depth == 0 {
        return Err(ParseError::TooDeep);
    }
    if sym_at(toks, pos, "!") {
        let (t, p) = parse_cond_not(toks, pos + 1, meta, depth - 1)?;
        return Ok((t.reverse(), p));
    }
    if word_at(toks, pos, "_") {
        let always = JumpCmp::Always;
        assert(always@ == crate::syntax::ast::JumpCmpV::Always);
        return Ok((CmpTree::Atom(always), pos + 1));
    }
    match try_cond_inside(toks, pos, meta, depth - 1) {
        Some(found) => {
            return Ok(found);
        },
        None => {},
    }
    let (a, p) = parse_value(toks, pos, meta, depth - 1)?;
    match compare_sign_at(toks, p) {
        Some(k) => {
            let (b, p2) = parse_value(toks, p + 1, meta, depth - 1)?;
            let c = JumpCmp::of_kind(k, a, b);
            Ok((CmpTree::Atom(c), p2))
        },
        None => Ok((truth_of(a), p)),
    }
}

/// Parses a condition, or nothing in front of `;`.
fn parse_cond_or_always(toks: &Vec<Token>, pos: usize, meta: &mut Meta, depth: usize) -> (r:
    Result<(CmpTree, usize), ParseError>)
    requires
        ready(old(meta)@),
        pos <= toks.len(),
    ensures
        read_tree(
            r,
            final(meta)@,
            g_cond_or_always(words(toks), at(pos), old(meta)@, fuel(depth)),
        ),
        r is Ok ==> pos <= r->Ok_0.1 <= toks.len() && shape_kept(old(meta)@, final(meta)@),
    decreases depth, 0nat,
{
    if depth == 0 {
        return Err(ParseError::TooDeep);
    }
    if sym_at(toks, pos, ";") {
        let always = JumpCmp::Always;
        assert(always@ == crate::syntax::ast::JumpCmpV::Always);
        Ok((CmpTree::Atom(always), pos))
    } else {
        parse_cond(toks, pos, meta, depth - 1)
    }
}

/// Parses an expression over operations.
pub(crate) fn parse_expr(toks: &Vec<Token>, pos: usize, meta: &mut Meta, depth: usize) -> (r: Result<
    (OpExprInfo, usize),
    ParseError,
>)
    requires
        ready(old(meta)@),
    ensures
        read_expr(r, final(meta)@, g_expr(words(toks), at(pos), old(meta)@, fuel(depth))),
        r is Ok ==> pos < r->Ok_0.1 <= toks.len() && shape_kept(old(meta)@, final(meta)@)
            && expr_open(r->Ok_0.0@),
    decreases depth, 0nat,
{
    if depth == 0 {
        return Err(ParseError::TooDeep);
    }
    if word_at(toks, pos, "if") {
        let (c, p) = parse_cond(toks, pos + 1, meta, depth - 1)?;
        let p = expect_sym(toks, p, "?")?;
        let (yes, p) = parse_expr(toks, p, meta, depth - 1)?;
        let p = expect_sym(toks, p, ":")?;
        let (no, p) = parse_expr(toks, p, meta, depth - 1)?;
        if meta.tmp_var_count() == usize::MAX || meta.tag_number() >= usize::MAX - 4 {
            return Err(ParseError::TooManyNames);
        }
        return Ok((OpExprInfo::new_if_else(meta, c, yes, no), p));
    }
    parse_infix(toks, pos, meta, depth - 1, 0)
}

/// Parses operands joined by the signs that bind at `level`.
fn parse_infix(toks: &Vec<Token>, pos: usize, meta: &mut Meta, depth: usize, level: u8) -> (r:
    Result<(OpExprInfo, usize), ParseError>)
    requires
        ready(old(meta)@),
    ensures
        read_expr(
            r,
            final(meta)@,
            g_infix(words(toks), at(pos), old(meta)@, fuel(depth), level as int),
        ),
        r is Ok ==> pos < r->Ok_0.1 <= toks.len() && shape_kept(old(meta)@, final(meta)@)
            && expr_open(r->Ok_0.0@),
    decreases depth, 0nat,
{
    if depth == 0 {
        return Err(ParseError::TooDeep);
    }
    if level >= 10 {
        return parse_prefix(toks, pos, meta, depth - 1);
    }
    if level == 9 {
        let (base, p) = parse_infix(toks, pos, meta, depth - 1, 10)?;
        if sym_at(toks, p, "**") {
            let (exp, p2) = parse_infix(toks, p + 1, meta, depth - 1, 9)?;
            let e = binary_expr(OpKind::Pow, base, exp, meta)?;
            return Ok((e, p2));
        }
        return Ok((base, p));
    }
    let (first, start) = parse_infix(toks, pos, meta, depth - 1, level + 1)?;
    let ghost goal = g_infix_more(
        words(toks),
        first@,
        at(start),
        meta@,
        less(depth),
        level as int,
    );
    let mut lhs = first;
    let mut p = start;
    loop
        invariant
            depth > 0,
            level < 9,
            ready(old(meta)@),
            pos < p <= toks.len(),
            shape_kept(old(meta)@, meta@),
            expr_open(lhs@),
            g_infix(words(toks), at(pos), old(meta)@, fuel(depth), level as int) == goal,
            g_infix_more(words(toks), lhs@, at(p), meta@, less(depth), level as int) == goal,
        decreases toks.len() - p,
    {
        let sign = match infix_at(toks, p, level) {
            Some(s) => s,
            None => {
                return Ok((lhs, p));
            },
        };
        let (rhs, p2) = parse_infix(toks, p + 1, meta, depth - 1, level + 1)?;
        lhs = infix_expr(sign, lhs, rhs, meta)?;
        p = p2;
    }
}

/// The operands of a call, behind the name of the operation and `(`.
fn parse_call(toks: &Vec<Token>, pos: usize, meta: &mut Meta, depth: usize, kind: OpKind) -> (r:
    Result<(OpExprInfo, usize), ParseError>)
    requires
        ready(old(meta)@),
        depth > 0,
        pos + 1 < toks.len(),
        sym(words(toks), pos + 1, "("@),
        oper_name(words(toks), at(pos)) == Some(kind),
    ensures
        read_expr(r, final(meta)@, g_call(words(toks), at(pos), old(meta)@, fuel(depth))->Some_0),
        r is Ok ==> pos < r->Ok_0.1 <= toks.len() && shape_kept(old(meta)@, final(meta)@)
            && expr_open(r->Ok_0.0@),
    decreases depth, 0nat,
{
    let (a, p) = parse_expr(toks, pos + 2, meta, depth - 1)?;
    if kind.binary() {
        let p = expect_sym(toks, p, ",")?;
        let (b, p) = parse_expr(toks, p, meta, depth - 1)?;
        let p = expect_sym(toks, p, ")")?;
        let e = binary_expr(kind, a, b, meta)?;
        Ok((e, p))
    } else {
        let p = expect_sym(toks, p, ")")?;
        let e = unary_expr(kind, a, meta)?;
        Ok((e, p))
    }
}

/// Parses an expression between parentheses, if the words at `pos` are
/// one; the state stays as it was where they are none.
fn try_expr_inside(toks: &Vec<Token>, pos: usize, meta: &mut Meta, depth: usize) -> (r: Option<
    (OpExprInfo, usize),
>)
    requires
        ready(old(meta)@),
    ensures
        match g_expr_inside(words(toks), at(pos), old(meta)@, fuel(depth)) {
            Some((e, p, m)) => r is Some && final(meta)@ == m && r->Some_0.0@ == e
                && r->Some_0.1 == p,
            None => r is None && final(meta)@ == old(meta)@,
        },
        r is Some ==> pos < r->Some_0.1 <= toks.len() && shape_kept(old(meta)@, final(meta)@)
            && expr_open(r->Some_0.0@),
    decreases depth, 0nat,
{
    if depth == 0 || !sym_at(toks, pos, "(") {
        return None;
    }
    let saved = meta.duplicate();
    match parse_expr(toks, pos + 1, meta, depth - 1) {
        Ok((e, p)) => {
            if sym_at(toks, p, ")") {
                return Some((e, p + 1));
            }
        },
        Err(_) => {},
    }
    *meta = saved;
    None
}

/// Parses an operand.
fn parse_prefix(toks: &Vec<Token>, pos: usize, meta: &mut Meta, depth: usize) -> (r: Result<
    (OpExprInfo, usize),
    ParseError,
>)
    requires
        ready(old(meta)@),
    ensures
        read_expr(r, final(meta)@, g_prefix(words(toks), at(pos), old(meta)@, fuel(depth))),
        r is Ok ==> pos < r->Ok_0.1 <= toks.len() && shape_kept(old(meta)@, final(meta)@)
            && expr_open(r->Ok_0.0@),
    decreases depth, 1nat,
{
    if depth == 0 {
        return Err(ParseError::TooDeep);
    }
    if sym_at(toks, pos, "-") || sym_at(toks, pos, "~") || sym_at(toks, pos, "!") {
        return parse_signed(toks, pos, meta, depth);
    }
    if pos >= toks.len() {
        return Err(ParseError::UnrecognizedEof);
    }
    parse_operand(toks, pos, meta, depth)
}

/// Parses an operand behind a sign: `-`, `~` or `!`.
fn parse_signed(toks: &Vec<Token>, pos: usize, meta: &mut Meta, depth: usize) -> (r: Result<
    (OpExprInfo, usize),
    ParseError,
>)
    requires
        ready(old(meta)@),
        depth > 0,
        pos < toks.len(),
        sym(words(toks), at(pos), "-"@) || sym(words(toks), at(pos), "~"@) || sym(
            words(toks),
            at(pos),
            "!"@,
        ),
    ensures
        read_expr(r, final(meta)@, g_prefix(words(toks), at(pos), old(meta)@, fuel(depth))),
        r is Ok ==> pos < r->Ok_0.1 <= toks.len() && shape_kept(old(meta)@, final(meta)@)
            && expr_open(r->Ok_0.0@),
    decreases depth, 0nat,
{
    let minus = sym_at(toks, pos, "-");
    let tilde = sym_at(toks, pos, "~");
    let (x, p) = parse_prefix(toks, pos + 1, meta, depth - 1)?;
    if tilde {
        let e = unary_expr(OpKind::Not, x, meta)?;
        return Ok((e, p));
    }
    let xv = expr_value(x, meta)?;
    let op = if minus {
        let zero = Value::ReprVar(owned("0"));
        assert(zero@ == ValueV::ReprVar("0"@));
        Op::Sub(Value::ResultHandle, zero, xv)
    } else {
        let no = Value::ReprVar(owned("false"));
        assert(no@ == ValueV::ReprVar("false"@));
        Op::Equal(Value::ResultHandle, xv, no)
    };
    Ok((OpExprInfo::Op(op), p))
}

/// Parses an operand without a sign.
fn parse_operand(toks: &Vec<Token>, pos: usize, meta: &mut Meta, depth: usize) -> (r: Result<
    (OpExprInfo, usize),
    ParseError,
>)
    requires
        ready(old(meta)@),
        depth > 0,
        pos < toks.len(),
        !sym(words(toks), at(pos), "-"@),
        !sym(words(toks), at(pos), "~"@),
        !sym(words(toks), at(pos), "!"@),
    ensures
        read_expr(r, final(meta)@, g_prefix(words(toks), at(pos), old(meta)@, fuel(depth))),
        r is Ok ==> pos < r->Ok_0.1 <= toks.len() && shape_kept(old(meta)@, final(meta)@)
            && expr_open(r->Ok_0.0@),
    decreases depth, 0nat,
{
    if depth > 1 && sym_at(toks, pos + 1, "(") {
        match oper_name_at(toks, pos) {
            Some(kind) => {
                return parse_call(toks, pos, meta, depth - 1, kind);
            },
            None => {},
        }
    }
    assert(g_call(words(toks), at(pos), meta@, less(depth)) is None);
    match try_expr_inside(toks, pos, meta, depth - 1) {
        Some(found) => {
            return Ok(found);
        },
        None => {},
    }
    let (v, p) = parse_value(toks, pos, meta, depth - 1)?;
    Ok((OpExprInfo::Value(v), p))
}

/// Parses expressions with commas between them.
fn parse_exprs(toks: &Vec<Token>, pos: usize, meta: &mut Meta, depth: usize) -> (r: Result<
    (Vec<OpExprInfo>, usize),
    ParseError,
>)
    requires
        ready(old(meta)@),
    ensures
        read_exprs(r, final(meta)@, g_exprs(words(toks), at(pos), old(meta)@, fuel(depth))),
        r is Ok ==> pos < r->Ok_0.1 <= toks.len() && shape_kept(old(meta)@, final(meta)@)
            && exprs_open(r->Ok_0.0@) && r->Ok_0.0.len() > 0,
    decreases depth, 0nat,
{
    if depth == 0 {
        return Err(ParseError::TooDeep);
    }
    let mut exprs: Vec<OpExprInfo> = Vec::new();
    let (e, start) = parse_expr(toks, pos, meta, depth - 1)?;
    exprs.push(e);
    assert(exprs_view(exprs@) =~= seq![e@]);
    let ghost goal = g_exprs_more(words(toks), seq![e@], at(start), meta@, less(depth));
    let mut p = start;
    loop
        invariant
            depth > 0,
            ready(old(meta)@),
            pos < p <= toks.len(),
            exprs.len() > 0,
            exprs_open(exprs@),
            shape_kept(old(meta)@, meta@),
            g_exprs(words(toks), at(pos), old(meta)@, fuel(depth)) == goal,
            g_exprs_more(words(toks), exprs_view(exprs@), at(p), meta@, less(depth)) == goal,
        decreases toks.len() - p,
    {
        if !sym_at(toks, p, ",") {
            return Ok((exprs, p));
        }
        let ghost before = exprs_view(exprs@);
        let (e, p2) = parse_expr(toks, p + 1, meta, depth - 1)?;
        exprs.push(e);
        assert(exprs_view(exprs@) =~= before.push(e@));
        p = p2;
    }
}

/// Parses one statement.
pub(crate) fn parse_line(toks: &Vec<Token>, pos: usize, meta: &mut Meta, depth: usize) -> (r: Result<
    (LogicLine, usize),
    ParseError,
>)
    requires
        ready(old(meta)@),
    ensures
        read_line(r, final(meta)@, g_line(words(toks), at(pos), old(meta)@, fuel(depth))),
        r is Ok ==> pos < r->Ok_0.1 <= toks.len() && shape_kept(old(meta)@, final(meta)@),
    decreases depth, 0nat,
{
    if depth == 0 {
        return Err(ParseError::TooDeep);
    }
    if pos >= toks.len() {
        return Err(ParseError::UnrecognizedEof);
    }
    if sym_at(toks, pos, ":") {
        let name = match var_at(toks, pos + 1, true) {
            Some(n) => n,
            None => {
                return Err(unexpected_at(toks, pos + 1));
            },
        };
        return Ok((LogicLine::new_label(name, meta), pos + 2));
    }
    if sym_at(toks, pos, "{") {
        return parse_block(toks, pos + 1, meta, depth - 1, false);
    }
    if word_at(toks, pos, "inline") {
        let p = expect_sym(toks, pos + 1, "{")?;
        return parse_block(toks, p, meta, depth - 1, true);
    }
    if word_at(toks, pos, "noop") {
        let p = expect_sym(toks, pos + 1, ";")?;
        return Ok((LogicLine::NoOp, p));
    }
    if word_at(toks, pos, "op") {
        return parse_op(toks, pos + 1, meta, depth - 1);
    }
    if word_at(toks, pos, "goto") {
        return parse_goto(toks, pos + 1, meta, depth - 1);
    }
    let out = word_at(toks, pos, "break");
    if out || word_at(toks, pos, "continue") {
        return parse_leave(toks, pos + 1, meta, depth - 1, out);
    }
    if word_at(toks, pos, "skip") {
        return parse_skip(toks, pos + 1, meta, depth - 1);
    }
    if word_at(toks, pos, "if") {
        return parse_if(toks, pos + 1, meta, depth - 1);
    }
    let guarded = word_at(toks, pos, "gwhile");
    if word_at(toks, pos, "while") || guarded {
        return parse_while(toks, pos + 1, meta, depth - 1, guarded);
    }
    if word_at(toks, pos, "do") {
        return parse_do(toks, pos + 1, meta, depth - 1);
    }
    if word_at(toks, pos, "select") {
        return parse_select(toks, pos + 1, meta, depth - 1);
    }
    if word_at(toks, pos, "switch") {
        return parse_switch(toks, pos + 1, meta, depth - 1);
    }
    if word_at(toks, pos, "const") && !sym_at(toks, pos + 1, "(") {
        return parse_const(toks, pos + 1, meta, depth - 1);
    }
    if word_at(toks, pos, "take") {
        return parse_take(toks, pos + 1, meta, depth - 1);
    }
    if word_at(toks, pos, "setres") {
        let (value, p) = parse_value(toks, pos + 1, meta, depth - 1)?;
        let p = expect_sym(toks, p, ";")?;
        return Ok((LogicLine::SetResultHandle(value), p));
    }
    if word_at(toks, pos, "set") {
        let (a, p) = parse_value(toks, pos + 1, meta, depth - 1)?;
        let (b, p) = parse_value(toks, p, meta, depth - 1)?;
        let p = expect_sym(toks, p, ";")?;
        return Ok((Meta::build_set(a, b), p));
    }
    if word_at(toks, pos, "print") {
        let (values, p) = parse_values(toks, pos + 1, meta, depth - 1, Stop::Semi)?;
        let p = expect_sym(toks, p, ";")?;
        if values.len() == 0 {
            return Err(unexpected_at(toks, pos + 1));
        }
        return Ok((build_print(values), p));
    }
    parse_assign(toks, pos, meta, depth - 1)
}

/// Parses a block, behind its `{`.
fn parse_block(toks: &Vec<Token>, pos: usize, meta: &mut Meta, depth: usize, inline: bool) -> (r:
    Result<(LogicLine, usize), ParseError>)
    requires
        ready(old(meta)@),
        0 < pos <= toks.len(),
    ensures
        read_line(r, final(meta)@, g_block(words(toks), at(pos), old(meta)@, fuel(depth), inline)),
        r is Ok ==> pos <= r->Ok_0.1 <= toks.len() && shape_kept(old(meta)@, final(meta)@),
    decreases depth, 0nat,
{
    if depth == 0 {
        return Err(ParseError::TooDeep);
    }
    let (lines, p) = parse_lines(toks, pos, meta, depth - 1, Stop::Brace)?;
    let p1 = expect_sym(toks, p, "}")?;
    if inline {
        Ok((LogicLine::InlineBlock(InlineBlock(lines)), p1))
    } else {
        Ok((LogicLine::Expand(Expand(lines)), p1))
    }
}

/// Parses a jump, behind `goto`.
fn parse_goto(toks: &Vec<Token>, pos: usize, meta: &mut Meta, depth: usize) -> (r: Result<
    (LogicLine, usize),
    ParseError,
>)
    requires
        ready(old(meta)@),
        0 < pos <= toks.len(),
    ensures
        read_line(r, final(meta)@, g_goto(words(toks), at(pos), old(meta)@, fuel(depth))),
        r is Ok ==> pos <= r->Ok_0.1 <= toks.len() && shape_kept(old(meta)@, final(meta)@),
    decreases depth, 0nat,
{
    if depth == 0 {
        return Err(ParseError::TooDeep);
    }
    let p = expect_sym(toks, pos, ":")?;
    let name = match var_at(toks, p, true) {
        Some(n) => n,
        None => {
            return Err(unexpected_at(toks, p));
        },
    };
    let (c, p1) = parse_cond_or_always(toks, p + 1, meta, depth - 1)?;
    let p2 = expect_sym(toks, p1, ";")?;
    Ok((LogicLine::Goto(Goto(name, c)), p2))
}

/// Parses a jump out of a loop or to its next round, behind the word.
fn parse_leave(toks: &Vec<Token>, pos: usize, meta: &mut Meta, depth: usize, out: bool) -> (r:
    Result<(LogicLine, usize), ParseError>)
    requires
        ready(old(meta)@),
        0 < pos <= toks.len(),
    ensures
        read_line(r, final(meta)@, g_leave(words(toks), at(pos), old(meta)@, fuel(depth), out)),
        r is Ok ==> pos <= r->Ok_0.1 <= toks.len() && shape_kept(old(meta)@, final(meta)@),
    decreases depth, 0nat,
{
    if depth == 0 {
        return Err(ParseError::TooDeep);
    }
    let (c, p) = parse_cond_or_always(toks, pos, meta, depth - 1)?;
    let p1 = expect_sym(toks, p, ";")?;
    if meta.tag_number() == usize::MAX {
        return Err(ParseError::TooManyNames);
    }
    let target = if out {
        meta.get_break().clone()
    } else {
        meta.get_continue().clone()
    };
    Ok((LogicLine::Goto(Goto(target, c)), p1))
}

/// Parses a statement to jump over, behind `skip`.
fn parse_skip(toks: &Vec<Token>, pos: usize, meta: &mut Meta, depth: usize) -> (r: Result<
    (LogicLine, usize),
    ParseError,
>)
    requires
        ready(old(meta)@),
        0 < pos <= toks.len(),
    ensures
        read_line(r, final(meta)@, g_skip(words(toks), at(pos), old(meta)@, fuel(depth))),
        r is Ok ==> pos <= r->Ok_0.1 <= toks.len() && shape_kept(old(meta)@, final(meta)@),
    decreases depth, 0nat,
{
    if depth == 0 {
        return Err(ParseError::TooDeep);
    }
    let (c, p) = parse_cond(toks, pos, meta, depth - 1)?;
    let (body, p1) = parse_line(toks, p, meta, depth - 1)?;
    if meta.tag_number() == usize::MAX {
        return Err(ParseError::TooManyNames);
    }
    Ok((build_skip(c, body, meta), p1))
}

/// Parses `else` and its statement, if `else` stands at `pos`.
fn parse_else(toks: &Vec<Token>, pos: usize, meta: &mut Meta, depth: usize) -> (r: Result<
    (Option<LogicLine>, usize),
    ParseError,
>)
    requires
        ready(old(meta)@),
        0 < pos <= toks.len(),
    ensures
        read_some_line(r, final(meta)@, g_else(words(toks), at(pos), old(meta)@, fuel(depth))),
        r is Ok ==> pos <= r->Ok_0.1 <= toks.len() && shape_kept(old(meta)@, final(meta)@),
    decreases depth, 0nat,
{
    if depth == 0 {
        return Err(ParseError::TooDeep);
    }
    if word_at(toks, pos, "else") {
        let (b, p) = parse_line(toks, pos + 1, meta, depth - 1)?;
        Ok((Some(b), p))
    } else {
        Ok((None, pos))
    }
}

/// What reading the further branches of a choice gives.
pub open spec fn read_elifs(
    r: Result<(Vec<CmpTree>, Vec<LogicLine>, usize), ParseError>,
    m: MetaPV,
    g: G<(Seq<CmpTreeV>, Seq<LineV>)>,
) -> bool {
    match g {
        Ok(((conds, bodies), p, m2)) => r is Ok && trees_of(r->Ok_0.0@) == conds && lines_of(
            r->Ok_0.1@,
        ) == bodies && r->Ok_0.2 == p && m == m2,
        Err(e) => r is Err && error_view(r->Err_0) == e,
    }
}

/// Parses the further branches of a choice: `elif`, a condition and a
/// statement, any number of times.
fn parse_elifs(toks: &Vec<Token>, pos: usize, meta: &mut Meta, depth: usize) -> (r: Result<
    (Vec<CmpTree>, Vec<LogicLine>, usize),
    ParseError,
>)
    requires
        ready(old(meta)@),
        0 < pos <= toks.len(),
    ensures
        read_elifs(
            r,
            final(meta)@,
            g_elifs(words(toks), Seq::empty(), Seq::empty(), at(pos), old(meta)@, fuel(depth)),
        ),
        r is Ok ==> pos <= r->Ok_0.2 <= toks.len() && shape_kept(old(meta)@, final(meta)@)
            && r->Ok_0.0.len() == r->Ok_0.1.len(),
    decreases depth, 1nat,
{
    let mut p = pos;
    let mut conds: Vec<CmpTree> = Vec::new();
    let mut bodies: Vec<LogicLine> = Vec::new();
    assert(trees_of(conds@) =~= Seq::empty());
    assert(lines_of(bodies@) =~= Seq::empty());
    loop
        invariant
            ready(old(meta)@),
            pos <= p <= toks.len(),
            conds.len() == bodies.len(),
            shape_kept(old(meta)@, meta@),
            g_elifs(words(toks), trees_of(conds@), lines_of(bodies@), at(p), meta@, fuel(depth))
                == g_elifs(
                words(toks),
                Seq::empty(),
                Seq::empty(),
                at(pos),
                old(meta)@,
                fuel(depth),
            ),
        decreases toks.len() - p,
    {
        if !word_at(toks, p, "elif") {
            return Ok((conds, bodies, p));
        }
        let ghost cv = trees_of(conds@);
        let ghost bv = lines_of(bodies@);
        let (c, p2) = parse_cond(toks, p + 1, meta, depth)?;
        let (b, p3) = parse_line(toks, p2, meta, depth)?;
        conds.push(c);
        bodies.push(b);
        assert(trees_of(conds@) =~= cv.push(c@));
        assert(lines_of(bodies@) =~= bv.push(b@));
        p = p3;
    }
}

/// Parses a choice, behind `if`.
fn parse_if(toks: &Vec<Token>, pos: usize, meta: &mut Meta, depth: usize) -> (r: Result<
    (LogicLine, usize),
    ParseError,
>)
    requires
        ready(old(meta)@),
        0 < pos <= toks.len(),
    ensures
        read_line(r, final(meta)@, g_if(words(toks), at(pos), old(meta)@, fuel(depth))),
        r is Ok ==> pos <= r->Ok_0.1 <= toks.len() && shape_kept(old(meta)@, final(meta)@),
    decreases depth, 0nat,
{
    if depth == 0 {
        return Err(ParseError::TooDeep);
    }
    let (cond, p) = parse_cond(toks, pos, meta, depth - 1)?;
    let (body, p1) = parse_line(toks, p, meta, depth - 1)?;
    let (conds, bodies, p2) = parse_elifs(toks, p1, meta, depth - 1)?;
    let (otherwise, p3) = parse_else(toks, p2, meta, depth - 1)?;
    if meta.tag_number() >= usize::MAX - 2 || conds.len() >= usize::MAX - 2 - meta.tag_number() {
        return Err(ParseError::TooManyNames);
    }
    proof {
        lemma_if_shape(
            meta@,
            cond@,
            body@,
            trees_of(conds@),
            lines_of(bodies@),
            some_line(otherwise),
        );
    }
    Ok((build_if(cond, body, conds, bodies, otherwise, meta), p3))
}

/// Parses a loop with its condition in front, behind `while` or `gwhile`.
fn parse_while(toks: &Vec<Token>, pos: usize, meta: &mut Meta, depth: usize, guarded: bool) -> (r:
    Result<(LogicLine, usize), ParseError>)
    requires
        ready(old(meta)@),
        0 < pos <= toks.len(),
    ensures
        read_line(
            r,
            final(meta)@,
            g_while(words(toks), at(pos), old(meta)@, fuel(depth), guarded),
        ),
        r is Ok ==> pos <= r->Ok_0.1 <= toks.len() && shape_kept(old(meta)@, final(meta)@),
    decreases depth, 0nat,
{
    if depth == 0 {
        return Err(ParseError::TooDeep);
    }
    let (cond, p) = parse_cond(toks, pos, meta, depth - 1)?;
    meta.add_control_level(None, None);
    let (body, p1) = parse_line(toks, p, meta, depth - 1)?;
    let (on_break, on_continue) = meta.pop_control_level();
    if meta.tag_number() >= usize::MAX - 1 {
        return Err(ParseError::TooManyNames);
    }
    if guarded {
        Ok((build_gwhile(cond, body, on_break, on_continue, meta), p1))
    } else {
        Ok((build_while(cond, body, on_break, on_continue, meta), p1))
    }
}

/// Parses a loop with its condition behind, behind `do`.
fn parse_do(toks: &Vec<Token>, pos: usize, meta: &mut Meta, depth: usize) -> (r: Result<
    (LogicLine, usize),
    ParseError,
>)
    requires
        ready(old(meta)@),
        0 < pos <= toks.len(),
    ensures
        read_line(r, final(meta)@, g_do(words(toks), at(pos), old(meta)@, fuel(depth))),
        r is Ok ==> pos <= r->Ok_0.1 <= toks.len() && shape_kept(old(meta)@, final(meta)@),
    decreases depth, 0nat,
{
    if depth == 0 {
        return Err(ParseError::TooDeep);
    }
    meta.add_control_level(None, None);
    let (body, p) = parse_line(toks, pos, meta, depth - 1)?;
    let (on_break, on_continue) = meta.pop_control_level();
    let p1 = expect_a_word(toks, p, "while")?;
    let (cond, p2) = parse_cond_or_always(toks, p1, meta, depth - 1)?;
    let p3 = expect_sym(toks, p2, ";")?;
    if meta.tag_number() == usize::MAX {
        return Err(ParseError::TooManyNames);
    }
    Ok((build_do_while(cond, body, on_break, on_continue, meta), p3))
}

/// Parses a jump table over statements, behind `select`.
fn parse_select(toks: &Vec<Token>, pos: usize, meta: &mut Meta, depth: usize) -> (r: Result<
    (LogicLine, usize),
    ParseError,
>)
    requires
        ready(old(meta)@),
        0 < pos <= toks.len(),
    ensures
        read_line(r, final(meta)@, g_select(words(toks), at(pos), old(meta)@, fuel(depth))),
        r is Ok ==> pos <= r->Ok_0.1 <= toks.len() && shape_kept(old(meta)@, final(meta)@),
    decreases depth, 0nat,
{
    if depth == 0 {
        return Err(ParseError::TooDeep);
    }
    let (value, p) = parse_value(toks, pos, meta, depth - 1)?;
    let p1 = expect_sym(toks, p, "{")?;
    meta.add_control_level(None, None);
    let (lines, p2) = parse_lines(toks, p1, meta, depth - 1, Stop::Brace)?;
    let p3 = expect_sym(toks, p2, "}")?;
    let (on_break, on_continue) = meta.pop_control_level();
    let select = LogicLine::Select(Select(value, Expand(lines)));
    Ok((wrap_targets(select, on_break, on_continue, meta), p3))
}

/// A catcher that catches nothing.
fn empty_catcher() -> (r: Catcher)
    ensures
        r@ == no_catcher(),
{
    let body: Vec<LogicLine> = Vec::new();
    assert(lines_view(body) =~= Seq::empty());
    Catcher { underflow: false, misses: false, overflow: false, user: None, name: None, body }
}

/// Reads the signs of a catcher.
fn read_flags(toks: &Vec<Token>, pos: usize) -> (r: (Catcher, usize))
    requires
        pos <= toks.len(),
    ensures
        (r.0@, at(r.1)) == g_flags(words(toks), no_catcher(), at(pos)),
        pos <= r.1 <= toks.len(),
        r.0.user is None,
        r.0.name is None,
{
    let mut c = empty_catcher();
    let mut q = pos;
    loop
        invariant
            pos <= q <= toks.len(),
            c.user is None,
            c.name is None,
            g_flags(words(toks), c@, at(q)) == g_flags(words(toks), no_catcher(), at(pos)),
        decreases toks.len() - q,
    {
        if sym_at(toks, q, "<") {
            c.underflow = true;
        } else if sym_at(toks, q, "!") {
            c.misses = true;
        } else if sym_at(toks, q, ">") {
            c.overflow = true;
        } else {
            return (c, q);
        }
        q += 1;
    }
}

/// What reading the numbers of a case gives.
pub open spec fn read_numbers(
    r: Result<(Vec<usize>, usize), ParseError>,
    g: Result<(Seq<usize>, int), PErrV>,
) -> bool {
    match g {
        Ok((ns, p)) => r is Ok && r->Ok_0.0@ == ns && r->Ok_0.1 == p,
        Err(e) => r is Err && error_view(r->Err_0) == e,
    }
}

/// Reads the numbers of a case, up to its `:`.
fn numbers_at(toks: &Vec<Token>, pos: usize) -> (r: Result<(Vec<usize>, usize), ParseError>)
    requires
        pos <= toks.len(),
    ensures
        read_numbers(r, g_numbers(words(toks), Seq::empty(), at(pos))),
        r is Ok ==> pos <= r->Ok_0.1 <= toks.len(),
{
    let mut here: Vec<usize> = Vec::new();
    let mut q = pos;
    loop
        invariant
            pos <= q <= toks.len(),
            g_numbers(words(toks), here@, at(q)) == g_numbers(words(toks), Seq::empty(), at(pos)),
        decreases toks.len() - q,
    {
        proof {
            lemma_word_at(toks, q);
        }
        if sym_at(toks, q, ":") {
            return Ok((here, q));
        }
        let (n, q2) = uint_at(toks, q)?;
        here.push(n);
        q = q2;
    }
}

/// Adds the statements `body` as the case of each of the numbers `here`.
fn add_cases(
    numbers: &mut Vec<usize>,
    bodies: &mut Vec<Vec<LogicLine>>,
    here: Vec<usize>,
    body: Vec<LogicLine>,
)
    requires
        old(numbers).len() == old(bodies).len(),
    ensures
        final(numbers).len() == final(bodies).len(),
        (CasesV {
            numbers: final(numbers)@,
            bodies: bodies_view(final(bodies)@),
            catchers: Seq::empty(),
        }) == with_numbers(
            CasesV {
                numbers: old(numbers)@,
                bodies: bodies_view(old(bodies)@),
                catchers: Seq::empty(),
            },
            here@,
            lines_view(body),
        ),
{
    let ghost n0 = numbers@;
    let ghost b0 = bodies_view(bodies@);
    let ghost bv = lines_view(body);
    let mut k: usize = 0;
    assert(numbers@ =~= n0 + here@.take(0));
    assert(bodies_view(bodies@) =~= b0 + Seq::new(0, |i: int| bv));
    while k < here.len()
        invariant
            k <= here.len(),
            numbers.len() == bodies.len(),
            bv == lines_view(body),
            numbers@ == n0 + here@.take(k as int),
            bodies_view(bodies@) == b0 + Seq::new(k as nat, |i: int| bv),
        decreases here.len() - k,
    {
        let ghost n1 = numbers@;
        let ghost b1 = bodies_view(bodies@);
        numbers.push(here[k]);
        let copy = clone_lines(&body);
        bodies.push(copy);
        assert(bodies_view(bodies@) =~= b1.push(bv));
        k += 1;
        assert(numbers@ =~= n0 + here@.take(k as int));
        assert(bodies_view(bodies@) =~= b0 + Seq::new(k as nat, |i: int| bv));
    }
    assert(here@.take(k as int) =~= here@);
}

/// The cases as they are collected.
pub open spec fn cases_of(
    numbers: Vec<usize>,
    bodies: Vec<Vec<LogicLine>>,
    catchers: Vec<Catcher>,
) -> CasesV {
    CasesV {
        numbers: numbers@,
        bodies: bodies_view(bodies@),
        catchers: catchers_view(catchers@),
    }
}

/// What reading the cases of a `switch` gives.
pub open spec fn read_cases(
    r: Result<(Vec<usize>, Vec<Vec<LogicLine>>, Vec<Catcher>, usize), ParseError>,
    m: MetaPV,
    g: G<CasesV>,
) -> bool {
    match g {
        Ok((cs, p, m2)) => r is Ok && cases_of(r->Ok_0.0, r->Ok_0.1, r->Ok_0.2) == cs
            && r->Ok_0.3 == p && m == m2,
        Err(e) => r is Err && error_view(r->Err_0) == e,
    }
}

/// No cases.
pub open spec fn no_cases() -> CasesV {
    CasesV { numbers: Seq::empty(), bodies: Seq::empty(), catchers: Seq::empty() }
}

/// Parses the cases of a `switch`.
fn parse_cases(toks: &Vec<Token>, pos: usize, meta: &mut Meta, depth: usize) -> (r: Result<
    (Vec<usize>, Vec<Vec<LogicLine>>, Vec<Catcher>, usize),
    ParseError,
>)
    requires
        ready(old(meta)@),
        0 < pos <= toks.len(),
    ensures
        read_cases(
            r,
            final(meta)@,
            g_cases(words(toks), no_cases(), at(pos), old(meta)@, fuel(depth)),
        ),
        r is Ok ==> pos <= r->Ok_0.3 <= toks.len() && shape_kept(old(meta)@, final(meta)@)
            && r->Ok_0.0.len() == r->Ok_0.1.len(),
    decreases depth, 2nat,
{
    let mut p = pos;
    let mut numbers: Vec<usize> = Vec::new();
    let mut bodies: Vec<Vec<LogicLine>> = Vec::new();
    let mut catchers: Vec<Catcher> = Vec::new();
    assert(bodies_view(bodies@) =~= Seq::empty());
    assert(catchers_view(catchers@) =~= Seq::empty());
    assert(numbers@ =~= Seq::empty());
    loop
        invariant
            ready(old(meta)@),
            pos <= p <= toks.len(),
            numbers.len() == bodies.len(),
            shape_kept(old(meta)@, meta@),
            g_cases(words(toks), cases_of(numbers, bodies, catchers), at(p), meta@, fuel(depth))
                == g_cases(words(toks), no_cases(), at(pos), old(meta)@, fuel(depth)),
        decreases toks.len() - p,
    {
        if !word_at(toks, p, "case") {
            return Ok((numbers, bodies, catchers, p));
        }
        let q4 = parse_case(toks, p, meta, depth, &mut numbers, &mut bodies, &mut catchers)?;
        p = q4;
    }
}

/// Parses a jump table over numbered cases, behind `switch`.
fn parse_switch(toks: &Vec<Token>, pos: usize, meta: &mut Meta, depth: usize) -> (r: Result<
    (LogicLine, usize),
    ParseError,
>)
    requires
        ready(old(meta)@),
        0 < pos <= toks.len(),
    ensures
        read_line(r, final(meta)@, g_switch(words(toks), at(pos), old(meta)@, fuel(depth))),
        r is Ok ==> pos <= r->Ok_0.1 <= toks.len() && shape_kept(old(meta)@, final(meta)@),
    decreases depth, 0nat,
{
    if depth == 0 {
        return Err(ParseError::TooDeep);
    }
    let (value, p) = parse_value(toks, pos, meta, depth - 1)?;
    let p1 = expect_sym(toks, p, "{")?;
    meta.add_control_level(None, None);
    let (append, p2) = parse_lines(toks, p1, meta, depth - 1, Stop::CaseOrBrace)?;
    let (numbers, bodies, catchers, p3) = parse_cases(toks, p2, meta, depth - 1)?;
    let p4 = expect_sym(toks, p3, "}")?;
    let (on_break, on_continue) = meta.pop_control_level();
    if meta.tmp_var_count() == usize::MAX || meta.tag_number() >= usize::MAX - 1 || catchers.len()
        > (usize::MAX - 1 - meta.tag_number()) / 2 {
        return Err(ParseError::TooManyNames);
    }
    proof {
        let cv = catchers_view(catchers@);
        let m1 = if cv.len() == 0 {
            meta@
        } else {
            meta@.next_var().0
        };
        lemma_catch_blocks_shape(
            m1,
            cv,
            ValueV::Var(meta@.next_var().1),
            max_of(numbers@) as nat,
            cv.len(),
        );
    }
    let line = build_switch(value, append, numbers, bodies, catchers, meta);
    Ok((wrap_targets(line, on_break, on_continue, meta), p4))
}

/// Parses one case of a `switch`, from `case` on, and adds it to the
/// cases: what the cases read as from `pos` on is what the cases with this
/// one read as behind it.
fn parse_case(
    toks: &Vec<Token>,
    pos: usize,
    meta: &mut Meta,
    depth: usize,
    numbers: &mut Vec<usize>,
    bodies: &mut Vec<Vec<LogicLine>>,
    catchers: &mut Vec<Catcher>,
) -> (r: Result<usize, ParseError>)
    requires
        ready(old(meta)@),
        word(words(toks), at(pos), "case"@),
        old(numbers).len() == old(bodies).len(),
    ensures
        g_cases(
            words(toks),
            cases_of(*old(numbers), *old(bodies), *old(catchers)),
            at(pos),
            old(meta)@,
            fuel(depth),
        ) == (match r {
            Ok(p) => g_cases(
                words(toks),
                cases_of(*final(numbers), *final(bodies), *final(catchers)),
                at(p),
                final(meta)@,
                fuel(depth),
            ),
            Err(e) => Err(error_view(e)),
        }),
        r is Ok ==> pos < r->Ok_0 <= toks.len() && shape_kept(old(meta)@, final(meta)@)
            && final(numbers).len() == final(bodies).len(),
    decreases depth, 1nat,
{
    proof {
        lemma_word_at(toks, pos);
    }
    let q = pos + 1;
    let mut c = empty_catcher();
    let mut catches = true;
    let mut q1 = q;
    if sym_at(toks, q, "(") {
        let (tree, q2) = parse_cond(toks, q + 1, meta, depth)?;
        q1 = expect_sym(toks, q2, ")")?;
        c.user = Some(tree);
    } else {
        let (flags, q2) = read_flags(toks, q);
        c = flags;
        catches = q2 > q;
        q1 = q2;
    }
    let ghost c0 = c@;
    let mut here: Vec<usize> = Vec::new();
    let mut q2 = q1;
    if catches {
        match var_at(toks, q1, true) {
            Some(n) => {
                c.name = Some(n);
                q2 = q1 + 1;
            },
            None => {},
        }
    } else {
        let (h, qq) = numbers_at(toks, q1)?;
        here = h;
        q2 = qq;
    }
    let q3 = expect_sym(toks, q2, ":")?;
    let (body, q4) = parse_lines(toks, q3, meta, depth, Stop::CaseOrBrace)?;
    if catches {
        let ghost cs = catchers_view(catchers@);
        c.body = body;
        let ghost cv = c@;
        catchers.push(c);
        assert(catchers_view(catchers@) =~= cs.push(cv));
    } else {
        let ghost hv = here@;
        let ghost bv = lines_view(body);
        add_cases(numbers, bodies, here, body);
        assert(cases_of(*numbers, *bodies, *catchers) == with_numbers(
            cases_of(*old(numbers), *old(bodies), *old(catchers)),
            hv,
            bv,
        ));
    }
    Ok(q4)
}

/// Parses the binding of a constant, behind `const`.
fn parse_const(toks: &Vec<Token>, pos: usize, meta: &mut Meta, depth: usize) -> (r: Result<
    (LogicLine, usize),
    ParseError,
>)
    requires
        ready(old(meta)@),
        0 < pos <= toks.len(),
    ensures
        read_line(r, final(meta)@, g_const(words(toks), at(pos), old(meta)@, fuel(depth))),
        r is Ok ==> pos <= r->Ok_0.1 <= toks.len() && shape_kept(old(meta)@, final(meta)@),
    decreases depth, 0nat,
{
    if depth == 0 {
        return Err(ParseError::TooDeep);
    }
    let name = match var_at(toks, pos, true) {
        Some(n) => n,
        None => {
            return Err(unexpected_at(toks, pos));
        },
    };
    let p = expect_sym(toks, pos + 1, "=")?;
    meta.add_label_scope();
    let (value, p1) = parse_value(toks, p, meta, depth - 1)?;
    let p2 = expect_sym(toks, p1, ";")?;
    let labels = meta.pop_label_scope();
    Ok((LogicLine::Const(Const(name, value, labels)), p2))
}

/// Parses a take, behind `take`.
fn parse_take(toks: &Vec<Token>, pos: usize, meta: &mut Meta, depth: usize) -> (r: Result<
    (LogicLine, usize),
    ParseError,
>)
    requires
        ready(old(meta)@),
        0 < pos <= toks.len(),
    ensures
        read_line(r, final(meta)@, g_take(words(toks), at(pos), old(meta)@, fuel(depth))),
        r is Ok ==> pos <= r->Ok_0.1 <= toks.len() && shape_kept(old(meta)@, final(meta)@),
    decreases depth, 0nat,
{
    if depth == 0 {
        return Err(ParseError::TooDeep);
    }
    let mut p = pos;
    let mut args: Vec<Value> = Vec::new();
    assert(values_view(args) =~= Seq::empty());
    if sym_at(toks, pos, "[") {
        let (a, p2) = parse_values(toks, pos + 1, meta, depth - 1, Stop::Bracket)?;
        p = expect_sym(toks, p2, "]")?;
        args = a;
    }
    if p >= toks.len() {
        return Err(ParseError::UnrecognizedEof);
    }
    let mut name = owned("__");
    let mut named = false;
    let mut p1 = p;
    if sym_at(toks, p + 1, "=") {
        match var_at(toks, p, true) {
            Some(n) => {
                name = n;
                named = true;
                p1 = p + 2;
            },
            None => {},
        }
    }
    let (value, p2) = parse_value(toks, p1, meta, depth - 1)?;
    let p3 = expect_sym(toks, p2, ";")?;
    Ok((Take::new(args, name, named, value), p3))
}

/// Parses an operation, behind `op`.
fn parse_op(toks: &Vec<Token>, pos: usize, meta: &mut Meta, depth: usize) -> (r: Result<
    (LogicLine, usize),
    ParseError,
>)
    requires
        ready(old(meta)@),
        0 < pos <= toks.len(),
    ensures
        read_line(r, final(meta)@, g_op(words(toks), at(pos), old(meta)@, fuel(depth))),
        r is Ok ==> pos <= r->Ok_0.1 <= toks.len() && shape_kept(old(meta)@, final(meta)@),
    decreases depth, 0nat,
{
    if depth == 0 {
        return Err(ParseError::TooDeep);
    }
    let lead = match oper_name_at(toks, pos) {
        Some(k) => Some(Infix::Oper(k)),
        None => any_infix_at(toks, pos),
    };
    match lead {
        Some(sign) => {
            let (result, p) = parse_value(toks, pos + 1, meta, depth - 1)?;
            return parse_operands(toks, sign, result, p, meta, depth - 1);
        },
        None => {},
    }
    let (result, p) = parse_value(toks, pos, meta, depth - 1)?;
    let tilde = sym_at(toks, p, "~");
    let bang = sym_at(toks, p, "!");
    if tilde || bang || sym_at(toks, p, "-") {
        let (a, p2) = parse_value(toks, p + 1, meta, depth - 1)?;
        let p3 = expect_sym(toks, p2, ";")?;
        let op = if tilde {
            Op::Not(result, a)
        } else if bang {
            let no = Value::ReprVar(owned("false"));
            assert(no@ == ValueV::ReprVar("false"@));
            Op::Equal(result, a, no)
        } else {
            let zero = Value::ReprVar(owned("0"));
            assert(zero@ == ValueV::ReprVar("0"@));
            Op::Sub(result, zero, a)
        };
        return Ok((LogicLine::Op(op), p3));
    }
    match oper_name_at(toks, p) {
        Some(kind) => {
            return parse_operands(toks, Infix::Oper(kind), result, p + 1, meta, depth - 1);
        },
        None => {},
    }
    let (a, p2) = parse_value(toks, p, meta, depth - 1)?;
    let sign = match any_infix_at(toks, p2) {
        Some(s) => s,
        None => {
            return Err(unexpected_at(toks, p2));
        },
    };
    let (b, p3) = parse_value(toks, p2 + 1, meta, depth - 1)?;
    let p4 = expect_sym(toks, p3, ";")?;
    Ok((LogicLine::Op(make_op(sign, result, a, b)), p4))
}

/// Parses the operands of an operation that was named in front of them.
fn parse_operands(
    toks: &Vec<Token>,
    sign: Infix,
    result: Value,
    pos: usize,
    meta: &mut Meta,
    depth: usize,
) -> (r: Result<(LogicLine, usize), ParseError>)
    requires
        ready(old(meta)@),
        0 < pos <= toks.len(),
    ensures
        read_line(
            r,
            final(meta)@,
            g_operands(words(toks), sign, result@, at(pos), old(meta)@, fuel(depth)),
        ),
        r is Ok ==> pos <= r->Ok_0.1 <= toks.len() && shape_kept(old(meta)@, final(meta)@),
    decreases depth, 0nat,
{
    if depth == 0 {
        return Err(ParseError::TooDeep);
    }
    let (a, p) = parse_value(toks, pos, meta, depth - 1)?;
    let single: Option<OpKind> = match sign {
        Infix::Oper(kind) => if kind.binary() {
            None
        } else {
            Some(kind)
        },
        Infix::StrictNotEqual => None,
    };
    match single {
        Some(kind) => {
            if sym_at(toks, p, ";") {
                let op = Op { kind, result, arg1: a, arg2: None };
                return Ok((LogicLine::Op(op), p + 1));
            }
            let (_, p2) = parse_value(toks, p, meta, depth - 1)?;
            let p3 = expect_sym(toks, p2, ";")?;
            let op = Op { kind, result, arg1: a, arg2: None };
            Ok((LogicLine::Op(op), p3))
        },
        None => {
            let (b, p2) = parse_value(toks, p, meta, depth - 1)?;
            let p3 = expect_sym(toks, p2, ";")?;
            Ok((LogicLine::Op(make_op(sign, result, a, b)), p3))
        },
    }
}

/// The outcome `r` with the state `m` is what `g` says.
pub open spec fn made_line(
    r: Result<LogicLine, ParseError>,
    m: MetaPV,
    g: Result<(MetaPV, LineV), PErrV>,
) -> bool {
    match g {
        Ok((m2, line)) => r is Ok && m == m2 && r->Ok_0@ == line,
        Err(err) => r is Err && error_view(r->Err_0) == err,
    }
}

/// The statement that assigns the expressions to the variables, where
/// the counters have room for it.
fn assign_all(
    vars: Vec<Value>,
    exprs: Vec<OpExprInfo>,
    start: usize,
    end: usize,
    meta: &mut Meta,
) -> (r: Result<LogicLine, ParseError>)
    requires
        ready(old(meta)@),
        vars.len() > 0,
        exprs.len() > 0,
        exprs_open(exprs@),
    ensures
        made_line(
            r,
            final(meta)@,
            e_assign(values_view(vars), exprs_view(exprs@), at(start), at(end), old(meta)@),
        ),
        r is Ok ==> shape_kept(old(meta)@, final(meta)@),
{
    if meta.tmp_var_count() == usize::MAX || meta.tag_number() >= usize::MAX - 1 || exprs.len() > (
    usize::MAX - 1 - meta.tag_number()) / 2 {
        return Err(ParseError::TooManyNames);
    }
    proof {
        assert forall|i: int| 0 <= i < exprs_view(exprs@).len() implies expr_open(
            #[trigger] exprs_view(exprs@)[i],
        ) by {
            assert(exprs_view(exprs@)[i] == exprs@[i]@);
        }
        if assigned(meta@, values_view(vars), exprs_view(exprs@)) is Some {
            lemma_assigned_shape(meta@, values_view(vars), exprs_view(exprs@));
        }
    }
    match assign_exprs(vars, exprs, start, end, meta) {
        Ok(line) => Ok(line),
        Err(e) => Err(ParseError::User { error: e }),
    }
}

/// The statement that sets the values to the variables, one to one.
fn set_all(vars: Vec<Value>, values: Vec<Value>, start: usize, end: usize) -> (r: Result<
    LogicLine,
    ParseError,
>)
    requires
        vars.len() > 0,
    ensures
        match e_sets(values_view(vars), values_view(values), at(start), at(end)) {
            Ok(line) => r is Ok && r->Ok_0@ == line,
            Err(e) => r is Err && error_view(r->Err_0) == e,
        },
{
    match Meta::build_sets([start, end], vars, values) {
        Ok(line) => Ok(line),
        Err(e) => Err(ParseError::User { error: e }),
    }
}

/// Parses values with a comma in front of each, behind the value `first`.
fn parse_comma_values(
    toks: &Vec<Token>,
    first: Value,
    pos: usize,
    meta: &mut Meta,
    depth: usize,
) -> (r: Result<(Vec<Value>, usize), ParseError>)
    requires
        ready(old(meta)@),
        0 < pos <= toks.len(),
    ensures
        read_values(
            r,
            final(meta)@,
            g_comma_values(words(toks), seq![first@], at(pos), old(meta)@, fuel(depth)),
        ),
        r is Ok ==> pos <= r->Ok_0.1 <= toks.len() && shape_kept(old(meta)@, final(meta)@)
            && r->Ok_0.0.len() > 0,
    decreases depth, 1nat,
{
    let mut vars: Vec<Value> = Vec::new();
    vars.push(first);
    assert(values_view(vars) =~= seq![first@]);
    let mut p = pos;
    loop
        invariant
            ready(old(meta)@),
            pos <= p <= toks.len(),
            vars.len() > 0,
            shape_kept(old(meta)@, meta@),
            g_comma_values(words(toks), values_view(vars), at(p), meta@, fuel(depth))
                == g_comma_values(words(toks), seq![first@], at(pos), old(meta)@, fuel(depth)),
        decreases toks.len() - p,
    {
        if !sym_at(toks, p, ",") {
            return Ok((vars, p));
        }
        let ghost before = values_view(vars);
        let (v, p2) = parse_value(toks, p + 1, meta, depth)?;
        vars.push(v);
        assert(values_view(vars) =~= before.push(v@));
        p = p2;
    }
}

/// Parses a statement that begins with a value: an assignment, or the
/// words of an instruction.
fn parse_assign(toks: &Vec<Token>, pos: usize, meta: &mut Meta, depth: usize) -> (r: Result<
    (LogicLine, usize),
    ParseError,
>)
    requires
        ready(old(meta)@),
        pos < toks.len(),
    ensures
        read_line(r, final(meta)@, g_assign(words(toks), at(pos), old(meta)@, fuel(depth))),
        r is Ok ==> pos < r->Ok_0.1 <= toks.len() && shape_kept(old(meta)@, final(meta)@),
    decreases depth, 0nat,
{
    if depth == 0 {
        return Err(ParseError::TooDeep);
    }
    proof {
        lemma_word_at(toks, pos);
    }
    let start = toks[pos].start;
    let (first, p) = parse_value(toks, pos, meta, depth - 1)?;
    if sym_at(toks, p, ",") {
        let (vars, p1) = parse_comma_values(toks, first, p, meta, depth - 1)?;
        let p2 = expect_sym(toks, p1, "=")?;
        let (exprs, p3) = parse_exprs(toks, p2, meta, depth - 1)?;
        let p4 = expect_sym(toks, p3, ";")?;
        proof {
            lemma_word_at(toks, (p4 - 1) as usize);
        }
        let line = assign_all(vars, exprs, start, toks[p4 - 1].end, meta)?;
        return Ok((line, p4));
    }
    let ghost fv = first@;
    let (more, p1) = parse_values(toks, p, meta, depth - 1, Stop::Assign)?;
    let ghost mv = values_view(more);
    let mut vars: Vec<Value> = Vec::new();
    vars.push(first);
    let mut more = more;
    vars.append(&mut more);
    assert(values_view(vars) =~= seq![fv] + mv);
    if sym_at(toks, p1, ";") {
        return Ok((LogicLine::Other(vars), p1 + 1));
    }
    let p2 = expect_sym(toks, p1, "=")?;
    if vars.len() == 1 {
        return parse_assign_one(toks, vars, p2, meta, depth - 1, start);
    }
    let (values, p3) = parse_values(toks, p2, meta, depth - 1, Stop::Semi)?;
    let p4 = expect_sym(toks, p3, ";")?;
    proof {
        lemma_word_at(toks, (p4 - 1) as usize);
    }
    let line = set_all(vars, values, start, toks[p4 - 1].end)?;
    Ok((line, p4))
}

/// Parses what stands behind `=` for one variable.
fn parse_assign_one(
    toks: &Vec<Token>,
    vars: Vec<Value>,
    pos: usize,
    meta: &mut Meta,
    depth: usize,
    start: usize,
) -> (r: Result<(LogicLine, usize), ParseError>)
    requires
        ready(old(meta)@),
        0 < pos <= toks.len(),
        vars.len() > 0,
    ensures
        read_line(
            r,
            final(meta)@,
            g_assign_one(
                words(toks),
                values_view(vars),
                at(pos),
                old(meta)@,
                fuel(depth),
                at(start),
            ),
        ),
        r is Ok ==> pos <= r->Ok_0.1 <= toks.len() && shape_kept(old(meta)@, final(meta)@),
    decreases depth, 0nat,
{
    if depth == 0 {
        return Err(ParseError::TooDeep);
    }
    let (exprs, p) = parse_exprs(toks, pos, meta, depth - 1)?;
    proof {
        lemma_word_at(toks, p);
    }
    if sym_at(toks, p, ";") {
        let line = assign_all(vars, exprs, start, toks[p].end, meta)?;
        return Ok((line, p + 1));
    }
    let mut exprs = exprs;
    if exprs.len() != 1 {
        return Err(unexpected_at(toks, p));
    }
    let ghost ev = exprs_view(exprs@);
    assert(ev[0] == exprs@[0]@);
    let head = match exprs.pop().unwrap() {
        OpExprInfo::Value(v) => v,
        _ => {
            return Err(unexpected_at(toks, p));
        },
    };
    let (tail, p1) = parse_values(toks, p, meta, depth - 1, Stop::Semi)?;
    let p2 = expect_sym(toks, p1, ";")?;
    let mut values: Vec<Value> = Vec::new();
    values.push(head);
    let ghost tv = values_view(tail);
    let mut tail = tail;
    values.append(&mut tail);
    assert(values_view(values) =~= seq![head@] + tv);
    proof {
        lemma_word_at(toks, (p2 - 1) as usize);
    }
    let line = set_all(vars, values, start, toks[p2 - 1].end)?;
    Ok((line, p2))
}

/// A choice keeps the scopes and the loop levels as they are.
proof fn lemma_if_shape(
    m: MetaPV,
    cond: CmpTreeV,
    body: LineV,
    conds: Seq<CmpTreeV>,
    bodies: Seq<LineV>,
    otherwise: Option<LineV>,
)
    requires
        m.labels.len() > 0,
    ensures
        shape_kept(m, if_line(m, cond, body, conds, bodies, otherwise).0),
{
    let n = conds.len();
    let m1 = MetaPV { tags: (m.tags + 2 + n) as usize, ..m };
    lemma_branch_labels_shape(m1, (m.tags + 2) as nat, n);
}

/// Recording the labels of branches keeps the scopes and the loop levels
/// as they are.
proof fn lemma_branch_labels_shape(m: MetaPV, first_tag: nat, n: nat)
    requires
        m.labels.len() > 0,
    ensures
        shape_kept(m, branch_labels(m, first_tag, n)),
    decreases n,
{
    if n > 0 {
        lemma_branch_labels_shape(m, first_tag, (n - 1) as nat);
    }
}

} // verus!
