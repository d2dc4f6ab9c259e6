//! The grammar of the source language: what each run of words reads as.
//!
//! Each function reads one construct from the words `t` at the position
//! `pos`, in the state `m`, and gives what it read, the position behind it,
//! and the state after it. `fuel` bounds how deep constructs nest.

use vstd::prelude::*;
use crate::text::{UIntError};
use crate::syntax::ast::{ValueV, DExpV, JumpCmpV, CmpTreeV, OpV, OpKind, CmpKind, LineV};
use crate::syntax::sem::tree_reversed;
use crate::syntax::import::oper_named;
use crate::syntax::parse_meta::{MetaPV, set_line};
use crate::syntax::op_expr::OpExprV;
use crate::syntax::ctor::take_line;
use crate::syntax::sugar::{
    quick_take_value,
    consted_value,
    assigned,
    always,
    skip_line,
    if_line,
    while_line,
    gwhile_line,
    do_while_line,
    with_some_label,
    some_label,
    print_lines,
    switch_line,
    CatcherV,
};
use crate::syntax::def::lexer::{TokenV, TokKind};

verus! {

/// Why a run of words is no construct of the language; positions are
/// those of characters in the source text.
pub enum PErrV {
    InvalidToken(int),
    UnrecognizedToken(int),
    UnrecognizedEof,
    TooDeep,
    TooManyNames,
    NotUInt { start: int, end: int, text: Seq<char>, why: UIntError },
    SetCount { start: int, end: int, vars: nat, values: nat },
}

/// What was read, the position behind it, and the state after it.
pub type G<T> = Result<(T, int, MetaPV), PErrV>;

/// Where a list of constructs ends: in front of a sign, of `case` or `}`,
/// or at the end of the words.
#[derive(Clone, Copy, PartialEq, Eq, Structural)]
pub enum Stop {
    Paren,
    Brace,
    Bracket,
    Semi,
    Assign,
    CaseOrBrace,
    End,
}

/// What a sign between two operands stands for.
#[derive(Clone, Copy, PartialEq, Eq, Structural)]
pub enum Infix {
    Oper(OpKind),
    StrictNotEqual,
}

/// The words that the grammar keeps for itself.
pub open spec fn is_reserved_text(s: Seq<char>) -> bool {
    s == "goto"@ || s == "const"@ || s == "take"@ || s == "setres"@ || s == "op"@ || s == "set"@
        || s == "print"@ || s == "noop"@ || s == "select"@ || s == "switch"@ || s == "case"@ || s
        == "skip"@ || s == "if"@ || s == "else"@ || s == "elif"@ || s == "while"@ || s == "do"@
        || s == "gwhile"@ || s == "break"@ || s == "continue"@ || s == "inline"@ || s == "_"@
}

/// Whether a token is a name: a word that is not kept, a number, a
/// quoted name, or, where `strings` allows, a string.
pub open spec fn token_is_var(t: TokenV, strings: bool) -> bool {
    match t.kind {
        TokKind::Ident => !is_reserved_text(t.text),
        TokKind::Number => true,
        TokKind::Quoted => true,
        TokKind::Str => strings,
        TokKind::Sym => false,
    }
}

/// Whether the sign `s` stands at `p`.
pub open spec fn sym(t: Seq<TokenV>, p: int, s: Seq<char>) -> bool {
    0 <= p < t.len() && t[p].kind == TokKind::Sym && t[p].text == s
}

/// Whether the word `s` stands at `p`.
pub open spec fn word(t: Seq<TokenV>, p: int, s: Seq<char>) -> bool {
    0 <= p < t.len() && t[p].kind == TokKind::Ident && t[p].text == s
}

/// The error for what stands at `p` where it cannot stand.
pub open spec fn unexpected(t: Seq<TokenV>, p: int) -> PErrV {
    if 0 <= p < t.len() {
        PErrV::UnrecognizedToken(t[p].start)
    } else {
        PErrV::UnrecognizedEof
    }
}

/// The position behind the sign `s`, which must stand at `p`.
pub open spec fn expect(t: Seq<TokenV>, p: int, s: Seq<char>) -> Result<int, PErrV> {
    if sym(t, p, s) {
        Ok(p + 1)
    } else {
        Err(unexpected(t, p))
    }
}

/// The position behind the word `s`, which must stand at `p`.
pub open spec fn expect_word(t: Seq<TokenV>, p: int, s: Seq<char>) -> Result<int, PErrV> {
    if word(t, p, s) {
        Ok(p + 1)
    } else {
        Err(unexpected(t, p))
    }
}

/// The name that stands at `p`, if one does.
pub open spec fn var_of(t: Seq<TokenV>, p: int, strings: bool) -> Option<Seq<char>> {
    if 0 <= p < t.len() && token_is_var(t[p], strings) {
        Some(t[p].text)
    } else {
        None
    }
}

pub open spec fn stops(t: Seq<TokenV>, p: int, stop: Stop) -> bool {
    match stop {
        Stop::Paren => sym(t, p, ")"@),
        Stop::Brace => sym(t, p, "}"@),
        Stop::Bracket => sym(t, p, "]"@),
        Stop::Semi => sym(t, p, ";"@),
        Stop::Assign => sym(t, p, ";"@) || sym(t, p, "="@),
        Stop::CaseOrBrace => sym(t, p, "}"@) || word(t, p, "case"@),
        Stop::End => p >= t.len(),
    }
}

/// The comparison whose sign stands at `p`.
pub open spec fn compare_sign(t: Seq<TokenV>, p: int) -> Option<CmpKind> {
    if sym(t, p, "=="@) {
        Some(CmpKind::Equal)
    } else if sym(t, p, "!="@) {
        Some(CmpKind::NotEqual)
    } else if sym(t, p, "<"@) {
        Some(CmpKind::LessThan)
    } else if sym(t, p, "<="@) {
        Some(CmpKind::LessThanEq)
    } else if sym(t, p, ">"@) {
        Some(CmpKind::GreaterThan)
    } else if sym(t, p, ">="@) {
        Some(CmpKind::GreaterThanEq)
    } else if sym(t, p, "==="@) {
        Some(CmpKind::StrictEqual)
    } else if sym(t, p, "!=="@) {
        Some(CmpKind::StrictNotEqual)
    } else {
        None
    }
}

/// The operation whose sign stands at `p` and binds at `level`. The levels,
/// from the loosest: `&&`; `==`, `!=`, `===`, `!==`; `<`, `>`, `<=`, `>=`;
/// `|`; `^`; `&`; `<<`, `>>`; `+`, `-`; `*`, `/`, `//`, `%`; `**`.
pub open spec fn infix_of(t: Seq<TokenV>, p: int, level: int) -> Option<Infix> {
    if level == 0 {
        if sym(t, p, "&&"@) {
            Some(Infix::Oper(OpKind::Land))
        } else {
            None
        }
    } else if level == 1 {
        if sym(t, p, "=="@) {
            Some(Infix::Oper(OpKind::Equal))
        } else if sym(t, p, "!="@) {
            Some(Infix::Oper(OpKind::NotEqual))
        } else if sym(t, p, "==="@) {
            Some(Infix::Oper(OpKind::StrictEqual))
        } else if sym(t, p, "!=="@) {
            Some(Infix::StrictNotEqual)
        } else {
            None
        }
    } else if level == 2 {
        if sym(t, p, "<"@) {
            Some(Infix::Oper(OpKind::LessThan))
        } else if sym(t, p, ">"@) {
            Some(Infix::Oper(OpKind::GreaterThan))
        } else if sym(t, p, "<="@) {
            Some(Infix::Oper(OpKind::LessThanEq))
        } else if sym(t, p, ">="@) {
            Some(Infix::Oper(OpKind::GreaterThanEq))
        } else {
            None
        }
    } else if level == 3 {
        if sym(t, p, "|"@) {
            Some(Infix::Oper(OpKind::Or))
        } else {
            None
        }
    } else if level == 4 {
        if sym(t, p, "^"@) {
            Some(Infix::Oper(OpKind::Xor))
        } else {
            None
        }
    } else if level == 5 {
        if sym(t, p, "&"@) {
            Some(Infix::Oper(OpKind::And))
        } else {
            None
        }
    } else if level == 6 {
        if sym(t, p, "<<"@) {
            Some(Infix::Oper(OpKind::Shl))
        } else if sym(t, p, ">>"@) {
            Some(Infix::Oper(OpKind::Shr))
        } else {
            None
        }
    } else if level == 7 {
        if sym(t, p, "+"@) {
            Some(Infix::Oper(OpKind::Add))
        } else if sym(t, p, "-"@) {
            Some(Infix::Oper(OpKind::Sub))
        } else {
            None
        }
    } else if level == 8 {
        if sym(t, p, "*"@) {
            Some(Infix::Oper(OpKind::Mul))
        } else if sym(t, p, "/"@) {
            Some(Infix::Oper(OpKind::Div))
        } else if sym(t, p, "//"@) {
            Some(Infix::Oper(OpKind::Idiv))
        } else if sym(t, p, "%"@) {
            Some(Infix::Oper(OpKind::Mod))
        } else {
            None
        }
    } else if level == 9 {
        if sym(t, p, "**"@) {
            Some(Infix::Oper(OpKind::Pow))
        } else {
            None
        }
    } else {
        None
    }
}

/// The operation whose sign stands at `p`, from the level `level` on.
pub open spec fn any_infix_from(t: Seq<TokenV>, p: int, level: int) -> Option<Infix>
    decreases 10 - level,
{
    if level > 9 || level < 0 {
        None
    } else {
        match infix_of(t, p, level) {
            Some(i) => Some(i),
            None => any_infix_from(t, p, level + 1),
        }
    }
}

/// The operation whose sign stands at `p`, at any level.
pub open spec fn any_infix(t: Seq<TokenV>, p: int) -> Option<Infix> {
    any_infix_from(t, p, 0)
}

/// The operation that the word at `p` names.
pub open spec fn oper_name(t: Seq<TokenV>, p: int) -> Option<OpKind> {
    if 0 <= p < t.len() && t[p].kind == TokKind::Ident {
        oper_named(t[p].text)
    } else {
        None
    }
}

/// A fresh variable, where the counter has room.
pub open spec fn take_var(m: MetaPV) -> Result<(MetaPV, Seq<char>), PErrV> {
    if m.tmp_vars == usize::MAX {
        Err(PErrV::TooManyNames)
    } else {
        Ok(m.next_var())
    }
}

/// The state with one more scope of labels open.
pub open spec fn scope_opened(m: MetaPV) -> MetaPV {
    MetaPV { labels: m.labels.push(Seq::empty()), ..m }
}

/// The state with the innermost scope of labels closed.
pub open spec fn scope_closed(m: MetaPV) -> MetaPV {
    MetaPV { labels: m.labels.drop_last(), ..m }
}

/// The state with one more loop level open.
pub open spec fn level_opened(m: MetaPV) -> MetaPV {
    MetaPV { breaks: m.breaks.push(None), continues: m.continues.push(None), ..m }
}

/// The state with the innermost loop level closed.
pub open spec fn level_closed(m: MetaPV) -> MetaPV {
    MetaPV { breaks: m.breaks.drop_last(), continues: m.continues.drop_last(), ..m }
}

/// The value that stands for an expression, where the counter of tags
/// has room for a choice.
pub open spec fn e_value(e: OpExprV, m: MetaPV) -> Result<(MetaPV, ValueV), PErrV> {
    if m.tags >= usize::MAX - 1 {
        Err(PErrV::TooManyNames)
    } else {
        Ok(e.value(m))
    }
}

/// The operation `kind`, with its result open, on two expressions.
pub open spec fn e_binary(kind: OpKind, a: OpExprV, b: OpExprV, m: MetaPV) -> Result<
    (MetaPV, OpExprV),
    PErrV,
> {
    match e_value(a, m) {
        Err(e) => Err(e),
        Ok((m1, av)) => match e_value(b, m1) {
            Err(e) => Err(e),
            Ok((m2, bv)) => Ok(
                (
                    m2,
                    OpExprV::Op(
                        OpV { kind, result: ValueV::ResultHandle, a: av, b: Some(bv) },
                    ),
                ),
            ),
        },
    }
}

/// The operation `kind`, with its result open, on one expression.
pub open spec fn e_unary(kind: OpKind, a: OpExprV, m: MetaPV) -> Result<(MetaPV, OpExprV), PErrV> {
    match e_value(a, m) {
        Err(e) => Err(e),
        Ok((m1, av)) => Ok(
            (m1, OpExprV::Op(OpV { kind, result: ValueV::ResultHandle, a: av, b: None })),
        ),
    }
}

/// `a !== b` into `result`: that `a === b` gave `false`.
pub open spec fn strict_ne(result: ValueV, a: ValueV, b: ValueV) -> OpV {
    OpV {
        kind: OpKind::Equal,
        result,
        a: ValueV::DExp(
            DExpV {
                result: Seq::empty(),
                lines: seq![
                    LineV::Op(
                        OpV {
                            kind: OpKind::StrictEqual,
                            result: ValueV::ResultHandle,
                            a,
                            b: Some(b),
                        },
                    ),
                ],
            },
        ),
        b: Some(ValueV::ReprVar("false"@)),
    }
}

/// Two expressions joined by a sign.
pub open spec fn e_infix(sign: Infix, a: OpExprV, b: OpExprV, m: MetaPV) -> Result<
    (MetaPV, OpExprV),
    PErrV,
> {
    match sign {
        Infix::Oper(kind) => e_binary(kind, a, b, m),
        Infix::StrictNotEqual => match e_value(a, m) {
            Err(e) => Err(e),
            Ok((m1, av)) => match e_value(b, m1) {
                Err(e) => Err(e),
                Ok((m2, bv)) => Ok(
                    (m2, OpExprV::Op(strict_ne(ValueV::ResultHandle, av, bv))),
                ),
            },
        },
    }
}

/// The operation that a sign or a name stands for, on two values.
pub open spec fn op_of(sign: Infix, result: ValueV, a: ValueV, b: ValueV) -> OpV {
    match sign {
        Infix::Oper(kind) => OpV { kind, result, a, b: Some(b) },
        Infix::StrictNotEqual => strict_ne(result, a, b),
    }
}

/// The condition that `v` is not `false`.
pub open spec fn truth(v: ValueV) -> CmpTreeV {
    CmpTreeV::Atom(JumpCmpV::Cmp(CmpKind::NotEqual, v, ValueV::ReprVar("false"@)))
}

// ---------------------------------------------------------------------
// values
// ---------------------------------------------------------------------
/// A value: what begins one, and then any number of attributes `.name`
/// and of arguments `[..]`.
pub open spec fn g_value(t: Seq<TokenV>, pos: int, m: MetaPV, fuel: nat) -> G<ValueV>
    decreases fuel, 0nat, 0nat,
{
    if fuel == 0 {
        Err(PErrV::TooDeep)
    } else {
        match g_primary(t, pos, m, (fuel - 1) as nat) {
            Err(e) => Err(e),
            Ok((v, p, m1)) => g_postfix(t, v, p, m1, (fuel - 1) as nat),
        }
    }
}

/// What begins a value: a name between backticks, which no constant
/// replaces; `$`; an expression between parentheses; `const` and such an
/// expression; or a name.
pub open spec fn g_primary(t: Seq<TokenV>, pos: int, m: MetaPV, fuel: nat) -> G<ValueV>
    decreases fuel, 0nat, 0nat,
{
    if fuel == 0 {
        Err(PErrV::TooDeep)
    } else {
        let f = (fuel - 1) as nat;
        if sym(t, pos, "`"@) {
            match var_of(t, pos + 1, true) {
                None => Err(unexpected(t, pos + 1)),
                Some(n) => match expect(t, pos + 2, "`"@) {
                    Err(e) => Err(e),
                    Ok(p) => Ok((ValueV::ReprVar(n), p, m)),
                },
            }
        } else if sym(t, pos, "$"@) {
            Ok((ValueV::ResultHandle, pos + 1, m))
        } else if sym(t, pos, "("@) {
            match g_dexp(t, pos + 1, m, f) {
                Err(e) => Err(e),
                Ok((d, p, m1)) => Ok((ValueV::DExp(d), p, m1)),
            }
        } else if word(t, pos, "const"@) && sym(t, pos + 1, "("@) {
            match g_dexp(t, pos + 2, scope_opened(m), f) {
                Err(e) => Err(e),
                Ok((d, p, m1)) => match take_var(scope_closed(m1)) {
                    Err(e) => Err(e),
                    Ok((m2, tmp)) => Ok((consted_value(d, m1.labels.last(), tmp), p, m2)),
                },
            }
        } else {
            match var_of(t, pos, true) {
                Some(n) => Ok((ValueV::Var(n), pos + 1, m)),
                None => Err(unexpected(t, pos)),
            }
        }
    }
}

/// What follows a value: `.name` makes the attribute of the value; `[`,
/// right behind the value, hands arguments over to it.
pub open spec fn g_postfix(t: Seq<TokenV>, v: ValueV, p: int, m: MetaPV, f: nat) -> G<ValueV>
    decreases f, t.len() - p, 1nat,
{
    if p < 0 || p > t.len() {
        Err(PErrV::TooDeep)
    } else {
        if sym(t, p, "."@) {
            match var_of(t, p + 1, false) {
                None => Err(unexpected(t, p + 1)),
                Some(a) => g_postfix(t, ValueV::ValueBind(Box::new(v), a), p + 2, m, f),
            }
        } else if sym(t, p, "["@) && p > 0 && t[p].start == t[p - 1].end {
            match g_values(t, p + 1, m, f, Stop::Bracket) {
                Err(e) => Err(e),
                Ok((args, p2, m2)) => match expect(t, p2, "]"@) {
                    Err(e) => Err(e),
                    Ok(p3) => if p3 > p {
                        g_postfix(t, quick_take_value(v, args), p3, m2, f)
                    } else {
                        Err(PErrV::TooDeep)
                    },
                },
            }
        } else {
            Ok((v, p, m))
        }
    }
}

/// Values up to where `stop` says.
pub open spec fn g_values(t: Seq<TokenV>, pos: int, m: MetaPV, fuel: nat, stop: Stop) -> G<
    Seq<ValueV>,
>
    decreases fuel, 0nat, 0nat,
{
    if fuel == 0 {
        Err(PErrV::TooDeep)
    } else {
        g_values_more(t, Seq::empty(), pos, m, (fuel - 1) as nat, stop)
    }
}

pub open spec fn g_values_more(
    t: Seq<TokenV>,
    done: Seq<ValueV>,
    p: int,
    m: MetaPV,
    f: nat,
    stop: Stop,
) -> G<Seq<ValueV>>
    decreases f, t.len() - p, 1nat,
{
    if p < 0 || p > t.len() {
        Err(PErrV::TooDeep)
    } else {
        if stops(t, p, stop) {
            Ok((done, p, m))
        } else {
            match g_value(t, p, m, f) {
                Err(e) => Err(e),
                Ok((v, p2, m2)) => if p < p2 <= t.len() {
                    g_values_more(t, done.push(v), p2, m2, f, stop)
                } else {
                    Err(PErrV::TooDeep)
                },
            }
        }
    }
}

/// An expression with a handle, behind its `(`: a name and `:` right
/// behind it name the handle; statements follow, and `)`.
pub open spec fn g_dexp(t: Seq<TokenV>, pos: int, m: MetaPV, fuel: nat) -> G<DExpV>
    decreases fuel, 0nat, 0nat,
{
    if fuel == 0 {
        Err(PErrV::TooDeep)
    } else if pos < 0 || pos >= t.len() {
        Err(PErrV::UnrecognizedEof)
    } else {
        let named = sym(t, pos + 1, ":"@) && t[pos + 1].start == t[pos].end && var_of(
            t,
            pos,
            true,
        ) is Some;
        let result = if named {
            var_of(t, pos, true)->Some_0
        } else {
            Seq::empty()
        };
        let p = if named {
            pos + 2
        } else {
            pos
        };
        match g_lines(t, p, m, (fuel - 1) as nat, Stop::Paren) {
            Err(e) => Err(e),
            Ok((lines, p2, m1)) => match expect(t, p2, ")"@) {
                Err(e) => Err(e),
                Ok(p3) => Ok((DExpV { result, lines }, p3, m1)),
            },
        }
    }
}

/// Statements up to where `stop` says.
pub open spec fn g_lines(t: Seq<TokenV>, pos: int, m: MetaPV, fuel: nat, stop: Stop) -> G<
    Seq<LineV>,
>
    decreases fuel, 0nat, 0nat,
{
    if fuel == 0 {
        Err(PErrV::TooDeep)
    } else {
        g_lines_more(t, Seq::empty(), pos, m, (fuel - 1) as nat, stop)
    }
}

pub open spec fn g_lines_more(
    t: Seq<TokenV>,
    done: Seq<LineV>,
    p: int,
    m: MetaPV,
    f: nat,
    stop: Stop,
) -> G<Seq<LineV>>
    decreases f, t.len() - p, 1nat,
{
    if p < 0 || p > t.len() {
        Err(PErrV::TooDeep)
    } else {
        if stops(t, p, stop) {
            Ok((done, p, m))
        } else {
            match g_line(t, p, m, f) {
                Err(e) => Err(e),
                Ok((l, p2, m2)) => if p < p2 <= t.len() {
                    g_lines_more(t, done.push(l), p2, m2, f, stop)
                } else {
                    Err(PErrV::TooDeep)
                },
            }
        }
    }
}

// ---------------------------------------------------------------------
// conditions
// ---------------------------------------------------------------------
/// A condition: conjunctions joined by `||`, from the left.
pub open spec fn g_cond(t: Seq<TokenV>, pos: int, m: MetaPV, fuel: nat) -> G<CmpTreeV>
    decreases fuel, 0nat, 0nat,
{
    if fuel == 0 {
        Err(PErrV::TooDeep)
    } else {
        match g_cond_and(t, pos, m, (fuel - 1) as nat) {
            Err(e) => Err(e),
            Ok((tree, p, m1)) => g_cond_more(t, tree, p, m1, (fuel - 1) as nat),
        }
    }
}

pub open spec fn g_cond_more(t: Seq<TokenV>, tree: CmpTreeV, p: int, m: MetaPV, f: nat) -> G<
    CmpTreeV,
>
    decreases f, t.len() - p, 1nat,
{
    if p < 0 || p > t.len() {
        Err(PErrV::TooDeep)
    } else {
        if sym(t, p, "||"@) {
            match g_cond_and(t, p + 1, m, f) {
                Err(e) => Err(e),
                Ok((rhs, p2, m2)) => if p < p2 <= t.len() {
                    g_cond_more(t, CmpTreeV::Or(Box::new(tree), Box::new(rhs)), p2, m2, f)
                } else {
                    Err(PErrV::TooDeep)
                },
            }
        } else {
            Ok((tree, p, m))
        }
    }
}

/// A conjunction: comparisons joined by `&&`, from the left.
pub open spec fn g_cond_and(t: Seq<TokenV>, pos: int, m: MetaPV, fuel: nat) -> G<CmpTreeV>
    decreases fuel, 0nat, 0nat,
{
    if fuel == 0 {
        Err(PErrV::TooDeep)
    } else {
        match g_cond_not(t, pos, m, (fuel - 1) as nat) {
            Err(e) => Err(e),
            Ok((tree, p, m1)) => g_cond_and_more(t, tree, p, m1, (fuel - 1) as nat),
        }
    }
}

pub open spec fn g_cond_and_more(t: Seq<TokenV>, tree: CmpTreeV, p: int, m: MetaPV, f: nat) -> G<
    CmpTreeV,
>
    decreases f, t.len() - p, 1nat,
{
    if p < 0 || p > t.len() {
        Err(PErrV::TooDeep)
    } else {
        if sym(t, p, "&&"@) {
            match g_cond_not(t, p + 1, m, f) {
                Err(e) => Err(e),
                Ok((rhs, p2, m2)) => if p < p2 <= t.len() {
                    g_cond_and_more(t, CmpTreeV::And(Box::new(tree), Box::new(rhs)), p2, m2, f)
                } else {
                    Err(PErrV::TooDeep)
                },
            }
        } else {
            Ok((tree, p, m))
        }
    }
}

/// What a condition between parentheses reads as, if the words at `pos`
/// are one.
pub open spec fn g_cond_inside(t: Seq<TokenV>, pos: int, m: MetaPV, fuel: nat) -> Option<
    (CmpTreeV, int, MetaPV),
>
    decreases fuel, 0nat, 0nat,
{
    let f = (fuel - 1) as nat;
    if fuel > 0 && sym(t, pos, "("@) {
        match g_cond(t, pos + 1, m, f) {
            Ok((tree, p, m1)) => if sym(t, p, ")"@) {
                Some((tree, p + 1, m1))
            } else {
                None
            },
            Err(_) => None,
        }
    } else {
        None
    }
}

/// One comparison: the complement of one behind `!`; `_` for "always"; a
/// condition between parentheses; two values with the sign of a
/// comparison between them; or one value, for "is not `false`".
pub open spec fn g_cond_not(t: Seq<TokenV>, pos: int, m: MetaPV, fuel: nat) -> G<CmpTreeV>
    decreases fuel, 0nat, 0nat,
{
    if fuel == 0 {
        Err(PErrV::TooDeep)
    } else if sym(t, pos, "!"@) {
        match g_cond_not(t, pos + 1, m, (fuel - 1) as nat) {
            Err(e) => Err(e),
            Ok((tree, p, m1)) => Ok((tree_reversed(tree), p, m1)),
        }
    } else if word(t, pos, "_"@) {
        Ok((always(), pos + 1, m))
    } else {
        match g_cond_inside(t, pos, m, (fuel - 1) as nat) {
            Some(found) => Ok(found),
            None => match g_value(t, pos, m, (fuel - 1) as nat) {
                Err(e) => Err(e),
                Ok((a, p, m1)) => match compare_sign(t, p) {
                    None => Ok((truth(a), p, m1)),
                    Some(k) => match g_value(t, p + 1, m1, (fuel - 1) as nat) {
                        Err(e) => Err(e),
                        Ok((b, p2, m2)) => Ok(
                            (CmpTreeV::Atom(JumpCmpV::Cmp(k, a, b)), p2, m2),
                        ),
                    },
                },
            },
        }
    }
}

/// A condition, or nothing in front of `;`, which stands for "always".
pub open spec fn g_cond_or_always(t: Seq<TokenV>, pos: int, m: MetaPV, fuel: nat) -> G<CmpTreeV>
    decreases fuel, 0nat, 0nat,
{
    if fuel == 0 {
        Err(PErrV::TooDeep)
    } else if sym(t, pos, ";"@) {
        Ok((always(), pos, m))
    } else {
        g_cond(t, pos, m, (fuel - 1) as nat)
    }
}

// ---------------------------------------------------------------------
// expressions
// ---------------------------------------------------------------------
/// An expression over operations: `if cond ? a : b`, or operands joined
/// by signs.
pub open spec fn g_expr(t: Seq<TokenV>, pos: int, m: MetaPV, fuel: nat) -> G<OpExprV>
    decreases fuel, 0nat, 0nat,
{
    if fuel == 0 {
        Err(PErrV::TooDeep)
    } else if word(t, pos, "if"@) {
        match g_cond(t, pos + 1, m, (fuel - 1) as nat) {
            Err(e) => Err(e),
            Ok((c, p, m1)) => match expect(t, p, "?"@) {
                Err(e) => Err(e),
                Ok(p1) => match g_expr(t, p1, m1, (fuel - 1) as nat) {
                    Err(e) => Err(e),
                    Ok((yes, p2, m2)) => match expect(t, p2, ":"@) {
                        Err(e) => Err(e),
                        Ok(p3) => match g_expr(t, p3, m2, (fuel - 1) as nat) {
                            Err(e) => Err(e),
                            Ok((no, p4, m3)) => if m3.tmp_vars == usize::MAX || m3.tags
                                >= usize::MAX - 4 {
                                Err(PErrV::TooManyNames)
                            } else {
                                Ok(
                                    (
                                        OpExprV::choice(m3, c, yes, no).1,
                                        p4,
                                        OpExprV::choice(m3, c, yes, no).0,
                                    ),
                                )
                            },
                        },
                    },
                },
            },
        }
    } else {
        g_infix(t, pos, m, (fuel - 1) as nat, 0)
    }
}

/// Operands joined by the signs that bind at `level`, from the left;
/// each operand is joined by the signs that bind tighter. The power binds
/// from the right, and tightest of all.
pub open spec fn g_infix(t: Seq<TokenV>, pos: int, m: MetaPV, fuel: nat, level: int) -> G<OpExprV>
    decreases fuel, 0nat, 0nat,
{
    if fuel == 0 {
        Err(PErrV::TooDeep)
    } else if level >= 10 {
        g_prefix(t, pos, m, (fuel - 1) as nat)
    } else if level == 9 {
        match g_infix(t, pos, m, (fuel - 1) as nat, 10) {
            Err(e) => Err(e),
            Ok((base, p, m1)) => if sym(t, p, "**"@) {
                match g_infix(t, p + 1, m1, (fuel - 1) as nat, 9) {
                    Err(e) => Err(e),
                    Ok((exp, p2, m2)) => match e_binary(OpKind::Pow, base, exp, m2) {
                        Err(e) => Err(e),
                        Ok((m3, e)) => Ok((e, p2, m3)),
                    },
                }
            } else {
                Ok((base, p, m1))
            },
        }
    } else {
        match g_infix(t, pos, m, (fuel - 1) as nat, level + 1) {
            Err(e) => Err(e),
            Ok((lhs, p, m1)) => g_infix_more(t, lhs, p, m1, (fuel - 1) as nat, level),
        }
    }
}

pub open spec fn g_infix_more(
    t: Seq<TokenV>,
    lhs: OpExprV,
    p: int,
    m: MetaPV,
    f: nat,
    level: int,
) -> G<OpExprV>
    decreases f, t.len() - p, 1nat,
{
    if p < 0 || p > t.len() {
        Err(PErrV::TooDeep)
    } else {
        match infix_of(t, p, level) {
            None => Ok((lhs, p, m)),
            Some(sign) => match g_infix(t, p + 1, m, f, level + 1) {
                Err(e) => Err(e),
                Ok((rhs, p2, m2)) => match e_infix(sign, lhs, rhs, m2) {
                    Err(e) => Err(e),
                    Ok((m3, e)) => if p < p2 <= t.len() {
                        g_infix_more(t, e, p2, m3, f, level)
                    } else {
                        Err(PErrV::TooDeep)
                    },
                },
            },
        }
    }
}

/// The call of an operation by its name, with its operands between
/// parentheses, if the words at `pos` begin one.
pub open spec fn g_call(t: Seq<TokenV>, pos: int, m: MetaPV, fuel: nat) -> Option<G<OpExprV>>
    decreases fuel, 0nat, 0nat,
{
    let f = (fuel - 1) as nat;
    if fuel > 0 && sym(t, pos + 1, "("@) && oper_name(t, pos) is Some {
        let kind = oper_name(t, pos)->Some_0;
        Some(
            match g_expr(t, pos + 2, m, f) {
                Err(e) => Err(e),
                Ok((a, p, m1)) => if kind.is_binary() {
                    match expect(t, p, ","@) {
                        Err(e) => Err(e),
                        Ok(p1) => match g_expr(t, p1, m1, f) {
                            Err(e) => Err(e),
                            Ok((b, p2, m2)) => match expect(t, p2, ")"@) {
                                Err(e) => Err(e),
                                Ok(p3) => match e_binary(kind, a, b, m2) {
                                    Err(e) => Err(e),
                                    Ok((m3, e)) => Ok((e, p3, m3)),
                                },
                            },
                        },
                    }
                } else {
                    match expect(t, p, ")"@) {
                        Err(e) => Err(e),
                        Ok(p1) => match e_unary(kind, a, m1) {
                            Err(e) => Err(e),
                            Ok((m2, e)) => Ok((e, p1, m2)),
                        },
                    }
                },
            },
        )
    } else {
        None
    }
}

/// What an expression between parentheses reads as, if the words at
/// `pos` are one.
pub open spec fn g_expr_inside(t: Seq<TokenV>, pos: int, m: MetaPV, fuel: nat) -> Option<
    (OpExprV, int, MetaPV),
>
    decreases fuel, 0nat, 0nat,
{
    let f = (fuel - 1) as nat;
    if fuel > 0 && sym(t, pos, "("@) {
        match g_expr(t, pos + 1, m, f) {
            Ok((e, p, m1)) => if sym(t, p, ")"@) {
                Some((e, p + 1, m1))
            } else {
                None
            },
            Err(_) => None,
        }
    } else {
        None
    }
}

/// An operand: `-x` for `0 - x`, `~x`, `!x` for `x == false`; the call of
/// an operation; an expression between parentheses; or a value.
pub open spec fn g_prefix(t: Seq<TokenV>, pos: int, m: MetaPV, fuel: nat) -> G<OpExprV>
    decreases fuel, 0nat, 0nat,
{
    if fuel == 0 {
        Err(PErrV::TooDeep)
    } else if sym(t, pos, "-"@) || sym(t, pos, "~"@) || sym(t, pos, "!"@) {
        match g_prefix(t, pos + 1, m, (fuel - 1) as nat) {
            Err(e) => Err(e),
            Ok((x, p, m1)) => if sym(t, pos, "~"@) {
                match e_unary(OpKind::Not, x, m1) {
                    Err(e) => Err(e),
                    Ok((m2, e)) => Ok((e, p, m2)),
                }
            } else {
                match e_value(x, m1) {
                    Err(e) => Err(e),
                    Ok((m2, xv)) => Ok(
                        (
                            OpExprV::Op(
                                if sym(t, pos, "-"@) {
                                    OpV {
                                        kind: OpKind::Sub,
                                        result: ValueV::ResultHandle,
                                        a: ValueV::ReprVar("0"@),
                                        b: Some(xv),
                                    }
                                } else {
                                    OpV {
                                        kind: OpKind::Equal,
                                        result: ValueV::ResultHandle,
                                        a: xv,
                                        b: Some(ValueV::ReprVar("false"@)),
                                    }
                                },
                            ),
                            p,
                            m2,
                        ),
                    ),
                }
            },
        }
    } else if pos < 0 || pos >= t.len() {
        Err(PErrV::UnrecognizedEof)
    } else {
        match g_call(t, pos, m, (fuel - 1) as nat) {
            Some(r) => r,
            None => match g_expr_inside(t, pos, m, (fuel - 1) as nat) {
                Some(found) => Ok(found),
                None => match g_value(t, pos, m, (fuel - 1) as nat) {
                    Err(e) => Err(e),
                    Ok((v, p, m1)) => Ok((OpExprV::Value(v), p, m1)),
                },
            },
        }
    }
}

/// Expressions with commas between them, at least one.
pub open spec fn g_exprs(t: Seq<TokenV>, pos: int, m: MetaPV, fuel: nat) -> G<Seq<OpExprV>>
    decreases fuel, 0nat, 0nat,
{
    if fuel == 0 {
        Err(PErrV::TooDeep)
    } else {
        match g_expr(t, pos, m, (fuel - 1) as nat) {
            Err(e) => Err(e),
            Ok((e, p, m1)) => g_exprs_more(t, seq![e], p, m1, (fuel - 1) as nat),
        }
    }
}

pub open spec fn g_exprs_more(t: Seq<TokenV>, done: Seq<OpExprV>, p: int, m: MetaPV, f: nat) -> G<
    Seq<OpExprV>,
>
    decreases f, t.len() - p, 1nat,
{
    if p < 0 || p > t.len() {
        Err(PErrV::TooDeep)
    } else {
        if sym(t, p, ","@) {
            match g_expr(t, p + 1, m, f) {
                Err(e) => Err(e),
                Ok((e, p2, m2)) => if p < p2 <= t.len() {
                    g_exprs_more(t, done.push(e), p2, m2, f)
                } else {
                    Err(PErrV::TooDeep)
                },
            }
        } else {
            Ok((done, p, m))
        }
    }
}

// ---------------------------------------------------------------------
// statements
// ---------------------------------------------------------------------
/// One statement.
pub open spec fn g_line(t: Seq<TokenV>, pos: int, m: MetaPV, fuel: nat) -> G<LineV>
    decreases fuel, 0nat, 0nat,
{
    let f = (fuel - 1) as nat;
    if fuel == 0 {
        Err(PErrV::TooDeep)
    } else if pos < 0 || pos >= t.len() {
        Err(PErrV::UnrecognizedEof)
    } else if sym(t, pos, ":"@) {
        match var_of(t, pos + 1, true) {
            None => Err(unexpected(t, pos + 1)),
            Some(n) => Ok((LineV::Label(n), pos + 2, m.with_label(n))),
        }
    } else if sym(t, pos, "{"@) {
        g_block(t, pos + 1, m, f, false)
    } else if word(t, pos, "inline"@) {
        match expect(t, pos + 1, "{"@) {
            Err(e) => Err(e),
            Ok(p) => g_block(t, p, m, f, true),
        }
    } else if word(t, pos, "noop"@) {
        match expect(t, pos + 1, ";"@) {
            Err(e) => Err(e),
            Ok(p) => Ok((LineV::NoOp, p, m)),
        }
    } else if word(t, pos, "op"@) {
        g_op(t, pos + 1, m, f)
    } else if word(t, pos, "goto"@) {
        g_goto(t, pos + 1, m, f)
    } else if word(t, pos, "break"@) || word(t, pos, "continue"@) {
        g_leave(t, pos + 1, m, f, word(t, pos, "break"@))
    } else if word(t, pos, "skip"@) {
        g_skip(t, pos + 1, m, f)
    } else if word(t, pos, "if"@) {
        g_if(t, pos + 1, m, f)
    } else if word(t, pos, "while"@) || word(t, pos, "gwhile"@) {
        g_while(t, pos + 1, m, f, word(t, pos, "gwhile"@))
    } else if word(t, pos, "do"@) {
        g_do(t, pos + 1, m, f)
    } else if word(t, pos, "select"@) {
        g_select(t, pos + 1, m, f)
    } else if word(t, pos, "switch"@) {
        g_switch(t, pos + 1, m, f)
    } else if word(t, pos, "const"@) && !sym(t, pos + 1, "("@) {
        g_const(t, pos + 1, m, f)
    } else if word(t, pos, "take"@) {
        g_take(t, pos + 1, m, f)
    } else if word(t, pos, "setres"@) {
        match g_value(t, pos + 1, m, f) {
            Err(e) => Err(e),
            Ok((v, p, m1)) => match expect(t, p, ";"@) {
                Err(e) => Err(e),
                Ok(p1) => Ok((LineV::SetResultHandle(v), p1, m1)),
            },
        }
    } else if word(t, pos, "set"@) {
        match g_value(t, pos + 1, m, f) {
            Err(e) => Err(e),
            Ok((a, p, m1)) => match g_value(t, p, m1, f) {
                Err(e) => Err(e),
                Ok((b, p1, m2)) => match expect(t, p1, ";"@) {
                    Err(e) => Err(e),
                    Ok(p2) => Ok((set_line(a, b), p2, m2)),
                },
            },
        }
    } else if word(t, pos, "print"@) {
        match g_values(t, pos + 1, m, f, Stop::Semi) {
            Err(e) => Err(e),
            Ok((values, p, m1)) => match expect(t, p, ";"@) {
                Err(e) => Err(e),
                Ok(p1) => if values.len() == 0 {
                    Err(unexpected(t, pos + 1))
                } else if values.len() == 1 {
                    Ok((print_lines(values)[0], p1, m1))
                } else {
                    Ok((LineV::Expand(print_lines(values)), p1, m1))
                },
            },
        }
    } else {
        g_assign(t, pos, m, f)
    }
}

/// A block, behind its `{`: statements, and `}`.
pub open spec fn g_block(t: Seq<TokenV>, pos: int, m: MetaPV, fuel: nat, inline: bool) -> G<LineV>
    decreases fuel, 0nat, 0nat,
{
    if fuel == 0 {
        Err(PErrV::TooDeep)
    } else {
        let f = (fuel - 1) as nat;
        match g_lines(t, pos, m, f, Stop::Brace) {
            Err(e) => Err(e),
            Ok((lines, p, m1)) => match expect(t, p, "}"@) {
                Err(e) => Err(e),
                Ok(p1) => Ok(
                    (
                        if inline {
                            LineV::InlineBlock(lines)
                        } else {
                            LineV::Expand(lines)
                        },
                        p1,
                        m1,
                    ),
                ),
            },
        }
    }
}

/// `goto :label cond;`, behind `goto`.
pub open spec fn g_goto(t: Seq<TokenV>, pos: int, m: MetaPV, fuel: nat) -> G<LineV>
    decreases fuel, 0nat, 0nat,
{
    if fuel == 0 {
        Err(PErrV::TooDeep)
    } else {
        let f = (fuel - 1) as nat;
        match expect(t, pos, ":"@) {
            Err(e) => Err(e),
            Ok(p) => match var_of(t, p, true) {
                None => Err(unexpected(t, p)),
                Some(name) => match g_cond_or_always(t, p + 1, m, f) {
                    Err(e) => Err(e),
                    Ok((c, p1, m1)) => match expect(t, p1, ";"@) {
                        Err(e) => Err(e),
                        Ok(p2) => Ok((LineV::Goto(name, c), p2, m1)),
                    },
                },
            },
        }
    }
}

/// `break cond;` or `continue cond;`, behind the word: a jump to the
/// target of the innermost loop.
pub open spec fn g_leave(t: Seq<TokenV>, pos: int, m: MetaPV, fuel: nat, out: bool) -> G<LineV>
    decreases fuel, 0nat, 0nat,
{
    if fuel == 0 {
        Err(PErrV::TooDeep)
    } else {
        let f = (fuel - 1) as nat;
        match g_cond_or_always(t, pos, m, f) {
            Err(e) => Err(e),
            Ok((c, p, m1)) => match expect(t, p, ";"@) {
                Err(e) => Err(e),
                Ok(p1) => if m1.tags == usize::MAX {
                    Err(PErrV::TooManyNames)
                } else if out {
                    Ok((LineV::Goto(m1.break_target().1, c), p1, m1.break_target().0))
                } else {
                    Ok((LineV::Goto(m1.continue_target().1, c), p1, m1.continue_target().0))
                },
            },
        }
    }
}

/// `skip cond statement`, behind `skip`.
pub open spec fn g_skip(t: Seq<TokenV>, pos: int, m: MetaPV, fuel: nat) -> G<LineV>
    decreases fuel, 0nat, 0nat,
{
    if fuel == 0 {
        Err(PErrV::TooDeep)
    } else {
        let f = (fuel - 1) as nat;
        match g_cond(t, pos, m, f) {
            Err(e) => Err(e),
            Ok((c, p, m1)) => match g_line(t, p, m1, f) {
                Err(e) => Err(e),
                Ok((body, p1, m2)) => if m2.tags == usize::MAX {
                    Err(PErrV::TooManyNames)
                } else {
                    Ok((skip_line(m2, c, body).1, p1, skip_line(m2, c, body).0))
                },
            },
        }
    }
}

/// The further branches of a choice: `elif cond statement`, any number.
pub open spec fn g_elifs(
    t: Seq<TokenV>,
    conds: Seq<CmpTreeV>,
    bodies: Seq<LineV>,
    p: int,
    m: MetaPV,
    f: nat,
) -> G<(Seq<CmpTreeV>, Seq<LineV>)>
    decreases f, t.len() - p, 1nat,
{
    if p < 0 || p > t.len() {
        Err(PErrV::TooDeep)
    } else {
        if word(t, p, "elif"@) {
            match g_cond(t, p + 1, m, f) {
                Err(e) => Err(e),
                Ok((c, p1, m1)) => match g_line(t, p1, m1, f) {
                    Err(e) => Err(e),
                    Ok((b, p2, m2)) => if p < p2 <= t.len() {
                        g_elifs(t, conds.push(c), bodies.push(b), p2, m2, f)
                    } else {
                        Err(PErrV::TooDeep)
                    },
                },
            }
        } else {
            Ok(((conds, bodies), p, m))
        }
    }
}

/// `else statement`, if `else` stands at `pos`.
pub open spec fn g_else(t: Seq<TokenV>, pos: int, m: MetaPV, fuel: nat) -> G<Option<LineV>>
    decreases fuel, 0nat, 0nat,
{
    if fuel == 0 {
        Err(PErrV::TooDeep)
    } else if word(t, pos, "else"@) {
        match g_line(t, pos + 1, m, (fuel - 1) as nat) {
            Err(e) => Err(e),
            Ok((b, p, m1)) => Ok((Some(b), p, m1)),
        }
    } else {
        Ok((None, pos, m))
    }
}

/// `if cond statement`, then `elif` branches, then `else statement`,
/// behind `if`.
pub open spec fn g_if(t: Seq<TokenV>, pos: int, m: MetaPV, fuel: nat) -> G<LineV>
    decreases fuel, 0nat, 0nat,
{
    if fuel == 0 {
        Err(PErrV::TooDeep)
    } else {
        let f = (fuel - 1) as nat;
        match g_cond(t, pos, m, f) {
            Err(e) => Err(e),
            Ok((cond, p, m1)) => match g_line(t, p, m1, f) {
                Err(e) => Err(e),
                Ok((body, p1, m2)) => match g_elifs(t, Seq::empty(), Seq::empty(), p1, m2, f) {
                    Err(e) => Err(e),
                    Ok(((conds, bodies), p2, m3)) => match g_else(t, p2, m3, f) {
                        Err(e) => Err(e),
                        Ok((otherwise, p3, m4)) => if m4.tags >= usize::MAX - 2
                            || conds.len() >= usize::MAX - 2 - m4.tags {
                            Err(PErrV::TooManyNames)
                        } else {
                            Ok(
                                (
                                    if_line(m4, cond, body, conds, bodies, otherwise).1,
                                    p3,
                                    if_line(m4, cond, body, conds, bodies, otherwise).0,
                                ),
                            )
                        },
                    },
                },
            },
        }
    }
}

/// `while cond statement` or `gwhile cond statement`, behind the word.
pub open spec fn g_while(t: Seq<TokenV>, pos: int, m: MetaPV, fuel: nat, guarded: bool) -> G<LineV>
    decreases fuel, 0nat, 0nat,
{
    if fuel == 0 {
        Err(PErrV::TooDeep)
    } else {
        let f = (fuel - 1) as nat;
        match g_cond(t, pos, m, f) {
            Err(e) => Err(e),
            Ok((cond, p, m1)) => match g_line(t, p, level_opened(m1), f) {
                Err(e) => Err(e),
                Ok((body, p1, m2)) => {
                    let m3 = level_closed(m2);
                    if m3.tags >= usize::MAX - 1 {
                        Err(PErrV::TooManyNames)
                    } else if guarded {
                        Ok(
                            (
                                gwhile_line(
                                    m3,
                                    cond,
                                    body,
                                    m2.breaks.last(),
                                    m2.continues.last(),
                                ).1,
                                p1,
                                gwhile_line(
                                    m3,
                                    cond,
                                    body,
                                    m2.breaks.last(),
                                    m2.continues.last(),
                                ).0,
                            ),
                        )
                    } else {
                        Ok(
                            (
                                while_line(
                                    m3,
                                    cond,
                                    body,
                                    m2.breaks.last(),
                                    m2.continues.last(),
                                ).1,
                                p1,
                                while_line(
                                    m3,
                                    cond,
                                    body,
                                    m2.breaks.last(),
                                    m2.continues.last(),
                                ).0,
                            ),
                        )
                    }
                },
            },
        }
    }
}

/// `do statement while cond;`, behind `do`.
pub open spec fn g_do(t: Seq<TokenV>, pos: int, m: MetaPV, fuel: nat) -> G<LineV>
    decreases fuel, 0nat, 0nat,
{
    if fuel == 0 {
        Err(PErrV::TooDeep)
    } else {
        let f = (fuel - 1) as nat;
        match g_line(t, pos, level_opened(m), f) {
            Err(e) => Err(e),
            Ok((body, p, m1)) => {
                let m2 = level_closed(m1);
                match expect_word(t, p, "while"@) {
                    Err(e) => Err(e),
                    Ok(p1) => match g_cond_or_always(t, p1, m2, f) {
                        Err(e) => Err(e),
                        Ok((cond, p2, m3)) => match expect(t, p2, ";"@) {
                            Err(e) => Err(e),
                            Ok(p3) => if m3.tags == usize::MAX {
                                Err(PErrV::TooManyNames)
                            } else {
                                Ok(
                                    (
                                        do_while_line(
                                            m3,
                                            cond,
                                            body,
                                            m1.breaks.last(),
                                            m1.continues.last(),
                                        ).1,
                                        p3,
                                        do_while_line(
                                            m3,
                                            cond,
                                            body,
                                            m1.breaks.last(),
                                            m1.continues.last(),
                                        ).0,
                                    ),
                                )
                            },
                        },
                    },
                }
            },
        }
    }
}

/// A statement between the targets that `break` and `continue` used in
/// it; alone where they used none.
pub open spec fn wrapped(
    line: LineV,
    on_break: Option<Seq<char>>,
    on_continue: Option<Seq<char>>,
) -> LineV {
    if on_break is None && on_continue is None {
        line
    } else {
        LineV::Expand(some_label(on_continue) + seq![line] + some_label(on_break))
    }
}

/// `select value { statements }`, behind `select`.
pub open spec fn g_select(t: Seq<TokenV>, pos: int, m: MetaPV, fuel: nat) -> G<LineV>
    decreases fuel, 0nat, 0nat,
{
    if fuel == 0 {
        Err(PErrV::TooDeep)
    } else {
        let f = (fuel - 1) as nat;
        match g_value(t, pos, m, f) {
            Err(e) => Err(e),
            Ok((value, p, m1)) => match expect(t, p, "{"@) {
                Err(e) => Err(e),
                Ok(p1) => match g_lines(t, p1, level_opened(m1), f, Stop::Brace) {
                    Err(e) => Err(e),
                    Ok((lines, p2, m2)) => match expect(t, p2, "}"@) {
                        Err(e) => Err(e),
                        Ok(p3) => Ok(
                            (
                                wrapped(
                                    LineV::Select(value, lines),
                                    m2.breaks.last(),
                                    m2.continues.last(),
                                ),
                                p3,
                                with_some_label(
                                    with_some_label(level_closed(m2), m2.continues.last()),
                                    m2.breaks.last(),
                                ),
                            ),
                        ),
                    },
                },
            }
        }
    }
}

/// The numbers of a case, up to its `:`.
pub open spec fn g_numbers(t: Seq<TokenV>, done: Seq<usize>, p: int) -> Result<
    (Seq<usize>, int),
    PErrV,
>
    decreases t.len() - p,
{
    if sym(t, p, ":"@) {
        Ok((done, p))
    } else if p < 0 || p >= t.len() {
        Err(PErrV::UnrecognizedEof)
    } else if t[p].kind != TokKind::Number {
        Err(PErrV::UnrecognizedToken(t[p].start))
    } else {
        match uint_of(t[p].text) {
            Err(why) => Err(
                PErrV::NotUInt { start: t[p].start, end: t[p].end, text: t[p].text, why },
            ),
            Ok(n) => g_numbers(t, done.push(n), p + 1),
        }
    }
}

/// The unsigned number that a text writes: in base 16 behind `0x`, in
/// base 2 behind `0b`, else in base 10.
pub open spec fn uint_of(t: Seq<char>) -> Result<usize, UIntError> {
    if t.len() >= 2 && t[0] == '0' && t[1] == 'x' {
        crate::text::radix_read(t.skip(2), 16)
    } else if t.len() >= 2 && t[0] == '0' && t[1] == 'b' {
        crate::text::radix_read(t.skip(2), 2)
    } else {
        crate::text::radix_read(t, 10)
    }
}

/// The signs of a catcher: `<` for an index below zero, `!` for a number
/// that no case has, `>` for an index above the greatest case.
pub open spec fn g_flags(t: Seq<TokenV>, c: CatcherV, p: int) -> (CatcherV, int)
    decreases t.len() - p,
{
    if sym(t, p, "<"@) {
        g_flags(t, CatcherV { underflow: true, ..c }, p + 1)
    } else if sym(t, p, "!"@) {
        g_flags(t, CatcherV { misses: true, ..c }, p + 1)
    } else if sym(t, p, ">"@) {
        g_flags(t, CatcherV { overflow: true, ..c }, p + 1)
    } else {
        (c, p)
    }
}

/// A catcher that catches nothing.
pub open spec fn no_catcher() -> CatcherV {
    CatcherV {
        underflow: false,
        misses: false,
        overflow: false,
        user: None,
        name: None,
        body: Seq::empty(),
    }
}

/// The cases of a `switch` as they are collected: the numbers and the
/// statements of the numbered cases, one entry for each number, and the
/// catchers.
pub struct CasesV {
    pub numbers: Seq<usize>,
    pub bodies: Seq<Seq<LineV>>,
    pub catchers: Seq<CatcherV>,
}

/// The statements `body`, once for each of the numbers `here`.
pub open spec fn with_numbers(cs: CasesV, here: Seq<usize>, body: Seq<LineV>) -> CasesV {
    CasesV {
        numbers: cs.numbers + here,
        bodies: cs.bodies + Seq::new(here.len(), |i: int| body),
        catchers: cs.catchers,
    }
}

/// The cases of a `switch`: `case`, then the signs of a catcher or a
/// condition between parentheses, each with an optional name for the index,
/// or else numbers; then `:` and statements.
pub open spec fn g_cases(t: Seq<TokenV>, cs: CasesV, p: int, m: MetaPV, f: nat) -> G<CasesV>
    decreases f, t.len() - p, 1nat,
{
    if p < 0 || p > t.len() {
        Err(PErrV::TooDeep)
    } else {
        if word(t, p, "case"@) {
            let q = p + 1;
            // what the case catches
            let head: G<(CatcherV, bool)> = if sym(t, q, "("@) {
                match g_cond(t, q + 1, m, f) {
                    Err(e) => Err(e),
                    Ok((tree, q2, m1)) => match expect(t, q2, ")"@) {
                        Err(e) => Err(e),
                        Ok(q3) => Ok(((CatcherV { user: Some(tree), ..no_catcher() }, true), q3, m1)),
                    },
                }
            } else {
                let (c, q2) = g_flags(t, no_catcher(), q);
                Ok(((c, q2 > q), q2, m))
            };
            match head {
                Err(e) => Err(e),
                Ok(((c, catches), q1, m1)) => {
                    // the name of the index, or the numbers
                    let named = catches && var_of(t, q1, true) is Some;
                    let c1 = if named {
                        CatcherV { name: var_of(t, q1, true), ..c }
                    } else {
                        c
                    };
                    let found: Result<(Seq<usize>, int), PErrV> = if catches {
                        Ok(
                            (
                                Seq::empty(),
                                if named {
                                    q1 + 1
                                } else {
                                    q1
                                },
                            ),
                        )
                    } else {
                        g_numbers(t, Seq::empty(), q1)
                    };
                    match found {
                        Err(e) => Err(e),
                        Ok((here, q2)) => match expect(t, q2, ":"@) {
                            Err(e) => Err(e),
                            Ok(q3) => match g_lines(t, q3, m1, f, Stop::CaseOrBrace) {
                                Err(e) => Err(e),
                                Ok((body, q4, m2)) => if p < q4 <= t.len() {
                                    g_cases(
                                        t,
                                        if catches {
                                            CasesV {
                                                catchers: cs.catchers.push(
                                                    CatcherV { body, ..c1 },
                                                ),
                                                ..cs
                                            }
                                        } else {
                                            with_numbers(cs, here, body)
                                        },
                                        q4,
                                        m2,
                                        f,
                                    )
                                } else {
                                    Err(PErrV::TooDeep)
                                },
                            },
                        },
                    }
                },
            }
        } else {
            Ok((cs, p, m))
        }
    }
}

/// `switch value { statements cases }`, behind `switch`: the statements
/// in front of the first case stand behind the statements of each case.
pub open spec fn g_switch(t: Seq<TokenV>, pos: int, m: MetaPV, fuel: nat) -> G<LineV>
    decreases fuel, 0nat, 0nat,
{
    if fuel == 0 {
        Err(PErrV::TooDeep)
    } else {
        let f = (fuel - 1) as nat;
        match g_value(t, pos, m, f) {
            Err(e) => Err(e),
            Ok((value, p, m1)) => match expect(t, p, "{"@) {
                Err(e) => Err(e),
                Ok(p1) => match g_lines(t, p1, level_opened(m1), f, Stop::CaseOrBrace) {
                    Err(e) => Err(e),
                    Ok((append, p2, m2)) => match g_cases(
                        t,
                        CasesV {
                            numbers: Seq::empty(),
                            bodies: Seq::empty(),
                            catchers: Seq::empty(),
                        },
                        p2,
                        m2,
                        f,
                    ) {
                        Err(e) => Err(e),
                        Ok((cs, p3, m3)) => match expect(t, p3, "}"@) {
                            Err(e) => Err(e),
                            Ok(p4) => {
                                let m4 = level_closed(m3);
                                if m4.tmp_vars == usize::MAX || m4.tags >= usize::MAX - 1
                                    || cs.catchers.len() > (usize::MAX - 1 - m4.tags) / 2 {
                                    Err(PErrV::TooManyNames)
                                } else {
                                    let built = switch_line(
                                        m4,
                                        value,
                                        append,
                                        cs.numbers,
                                        cs.bodies,
                                        cs.catchers,
                                    );
                                    Ok(
                                        (
                                            wrapped(
                                                built.1,
                                                m3.breaks.last(),
                                                m3.continues.last(),
                                            ),
                                            p4,
                                            with_some_label(
                                                with_some_label(
                                                    built.0,
                                                    m3.continues.last(),
                                                ),
                                                m3.breaks.last(),
                                            ),
                                        ),
                                    )
                                }
                            },
                        },
                    },
                },
            }
        }
    }
}

/// `const name = value;`, behind `const`: the labels that the value
/// defines are kept with it.
pub open spec fn g_const(t: Seq<TokenV>, pos: int, m: MetaPV, fuel: nat) -> G<LineV>
    decreases fuel, 0nat, 0nat,
{
    if fuel == 0 {
        Err(PErrV::TooDeep)
    } else {
        let f = (fuel - 1) as nat;
        match var_of(t, pos, true) {
            None => Err(unexpected(t, pos)),
            Some(name) => match expect(t, pos + 1, "="@) {
                Err(e) => Err(e),
                Ok(p) => match g_value(t, p, scope_opened(m), f) {
                    Err(e) => Err(e),
                    Ok((value, p1, m1)) => match expect(t, p1, ";"@) {
                        Err(e) => Err(e),
                        Ok(p2) => Ok(
                            (LineV::Const(name, value, m1.labels.last()), p2, scope_closed(m1)),
                        ),
                    },
                },
            },
        }
    }
}

/// `take[args] name = value;`, behind `take`: the arguments and the name
/// may be left out; a take without a name binds `__`.
pub open spec fn g_take(t: Seq<TokenV>, pos: int, m: MetaPV, fuel: nat) -> G<LineV>
    decreases fuel, 0nat, 0nat,
{
    if fuel == 0 {
        Err(PErrV::TooDeep)
    } else {
        let f = (fuel - 1) as nat;
        let args: G<Seq<ValueV>> = if sym(t, pos, "["@) {
            match g_values(t, pos + 1, m, f, Stop::Bracket) {
                Err(e) => Err(e),
                Ok((a, p, m1)) => match expect(t, p, "]"@) {
                    Err(e) => Err(e),
                    Ok(p1) => Ok((a, p1, m1)),
                },
            }
        } else {
            Ok((Seq::empty(), pos, m))
        };
        match args {
            Err(e) => Err(e),
            Ok((a, p, m1)) => if p >= t.len() {
                Err(PErrV::UnrecognizedEof)
            } else {
                let named = sym(t, p + 1, "="@) && var_of(t, p, true) is Some;
                let name = if named {
                    var_of(t, p, true)->Some_0
                } else {
                    "__"@
                };
                let p1 = if named {
                    p + 2
                } else {
                    p
                };
                match g_value(t, p1, m1, f) {
                    Err(e) => Err(e),
                    Ok((value, p2, m2)) => match expect(t, p2, ";"@) {
                        Err(e) => Err(e),
                        Ok(p3) => Ok((take_line(a, name, named, value), p3, m2)),
                    },
                }
            },
        }
    }
}

/// An operation, behind `op`: the operation first, by name or sign, then
/// the result and the operands; or the result first, and then the sign and
/// one operand, the name and the operands, or two operands with the sign
/// between them. An operation on one value may name a second, which does
/// not count.
pub open spec fn g_op(t: Seq<TokenV>, pos: int, m: MetaPV, fuel: nat) -> G<LineV>
    decreases fuel, 0nat, 0nat,
{
    if fuel == 0 {
        Err(PErrV::TooDeep)
    } else {
        let f = (fuel - 1) as nat;
        let lead = match oper_name(t, pos) {
            Some(k) => Some(Infix::Oper(k)),
            None => any_infix(t, pos),
        };
        match lead {
            Some(sign) => match g_value(t, pos + 1, m, f) {
                Err(e) => Err(e),
                Ok((result, p, m1)) => g_operands(t, sign, result, p, m1, f),
            },
            None => match g_value(t, pos, m, f) {
                Err(e) => Err(e),
                Ok((result, p, m1)) => if sym(t, p, "~"@) || sym(t, p, "!"@) || sym(t, p, "-"@) {
                    match g_value(t, p + 1, m1, f) {
                        Err(e) => Err(e),
                        Ok((a, p2, m2)) => match expect(t, p2, ";"@) {
                            Err(e) => Err(e),
                            Ok(p3) => Ok(
                                (
                                    LineV::Op(
                                        if sym(t, p, "~"@) {
                                            OpV { kind: OpKind::Not, result, a, b: None }
                                        } else if sym(t, p, "!"@) {
                                            OpV {
                                                kind: OpKind::Equal,
                                                result,
                                                a,
                                                b: Some(ValueV::ReprVar("false"@)),
                                            }
                                        } else {
                                            OpV {
                                                kind: OpKind::Sub,
                                                result,
                                                a: ValueV::ReprVar("0"@),
                                                b: Some(a),
                                            }
                                        },
                                    ),
                                    p3,
                                    m2,
                                ),
                            ),
                        },
                    }
                } else {
                    match oper_name(t, p) {
                        Some(kind) => g_operands(t, Infix::Oper(kind), result, p + 1, m1, f),
                        None => match g_value(t, p, m1, f) {
                            Err(e) => Err(e),
                            Ok((a, p2, m2)) => match any_infix(t, p2) {
                                None => Err(unexpected(t, p2)),
                                Some(sign) => match g_value(t, p2 + 1, m2, f) {
                                    Err(e) => Err(e),
                                    Ok((b, p3, m3)) => match expect(t, p3, ";"@) {
                                        Err(e) => Err(e),
                                        Ok(p4) => Ok((LineV::Op(op_of(sign, result, a, b)), p4, m3)),
                                    },
                                },
                            },
                        },
                    }
                },
            },
        }
    }
}

/// The operands of an operation that was named in front of them, and `;`.
pub open spec fn g_operands(
    t: Seq<TokenV>,
    sign: Infix,
    result: ValueV,
    pos: int,
    m: MetaPV,
    fuel: nat,
) -> G<LineV>
    decreases fuel, 0nat, 0nat,
{
    if fuel == 0 {
        Err(PErrV::TooDeep)
    } else {
        let f = (fuel - 1) as nat;
        match g_value(t, pos, m, f) {
            Err(e) => Err(e),
            Ok((a, p, m1)) => {
                let unary = match sign {
                    Infix::Oper(kind) => !kind.is_binary(),
                    Infix::StrictNotEqual => false,
                };
                if unary && sym(t, p, ";"@) {
                    Ok((LineV::Op(OpV { kind: sign->Oper_0, result, a, b: None }), p + 1, m1))
                } else {
                    match g_value(t, p, m1, f) {
                        Err(e) => Err(e),
                        Ok((b, p2, m2)) => match expect(t, p2, ";"@) {
                            Err(e) => Err(e),
                            Ok(p3) => Ok(
                                (
                                    LineV::Op(
                                        if unary {
                                            OpV { kind: sign->Oper_0, result, a, b: None }
                                        } else {
                                            op_of(sign, result, a, b)
                                        },
                                    ),
                                    p3,
                                    m2,
                                ),
                            ),
                        },
                    }
                }
            },
        }
    }
}

/// Values with commas in front of each, any number.
pub open spec fn g_comma_values(t: Seq<TokenV>, done: Seq<ValueV>, p: int, m: MetaPV, f: nat) -> G<
    Seq<ValueV>,
>
    decreases f, t.len() - p, 1nat,
{
    if p < 0 || p > t.len() {
        Err(PErrV::TooDeep)
    } else {
        if sym(t, p, ","@) {
            match g_value(t, p + 1, m, f) {
                Err(e) => Err(e),
                Ok((v, p2, m2)) => if p < p2 <= t.len() {
                    g_comma_values(t, done.push(v), p2, m2, f)
                } else {
                    Err(PErrV::TooDeep)
                },
            }
        } else {
            Ok((done, p, m))
        }
    }
}

/// The statement that assigns the expressions to the variables, where
/// the counters have room; the error for numbers that do not fit.
pub open spec fn e_assign(
    vars: Seq<ValueV>,
    exprs: Seq<OpExprV>,
    start: int,
    end: int,
    m: MetaPV,
) -> Result<(MetaPV, LineV), PErrV> {
    if m.tmp_vars == usize::MAX || m.tags >= usize::MAX - 1 || exprs.len() > (usize::MAX - 1
        - m.tags) / 2 {
        Err(PErrV::TooManyNames)
    } else {
        match assigned(m, vars, exprs) {
            Some(r) => Ok(r),
            None => Err(PErrV::SetCount { start, end, vars: vars.len(), values: exprs.len() }),
        }
    }
}

/// The statement that sets the values to the variables, one to one.
pub open spec fn e_sets(vars: Seq<ValueV>, values: Seq<ValueV>, start: int, end: int) -> Result<
    LineV,
    PErrV,
> {
    if vars.len() != values.len() {
        Err(PErrV::SetCount { start, end, vars: vars.len(), values: values.len() })
    } else {
        Ok(crate::syntax::parse_meta::sets_line(vars, values))
    }
}

/// A statement that begins with a value. Values alone, up to `;`, are
/// the words of an instruction. Values with commas between them, `=`,
/// and expressions with commas between them are an assignment of the
/// expressions. Values, `=` and values are an assignment one to one;
/// behind one variable stands an expression.
pub open spec fn g_assign(t: Seq<TokenV>, pos: int, m: MetaPV, fuel: nat) -> G<LineV>
    decreases fuel, 0nat, 0nat,
{
    if fuel == 0 {
        Err(PErrV::TooDeep)
    } else {
        let f = (fuel - 1) as nat;
        let start = t[pos].start;
        match g_value(t, pos, m, f) {
            Err(e) => Err(e),
            Ok((first, p, m1)) => if sym(t, p, ","@) {
                match g_comma_values(t, seq![first], p, m1, f) {
                    Err(e) => Err(e),
                    Ok((vars, p1, m2)) => match expect(t, p1, "="@) {
                        Err(e) => Err(e),
                        Ok(p2) => match g_exprs(t, p2, m2, f) {
                            Err(e) => Err(e),
                            Ok((exprs, p3, m3)) => match expect(t, p3, ";"@) {
                                Err(e) => Err(e),
                                Ok(p4) => match e_assign(vars, exprs, start, t[p4 - 1].end, m3) {
                                    Err(e) => Err(e),
                                    Ok((m4, line)) => Ok((line, p4, m4)),
                                },
                            },
                        },
                    },
                }
            } else {
                match g_values(t, p, m1, f, Stop::Assign) {
                    Err(e) => Err(e),
                    Ok((more, p1, m2)) => {
                        let vars = seq![first] + more;
                        if sym(t, p1, ";"@) {
                            Ok((LineV::Other(vars), p1 + 1, m2))
                        } else {
                            match expect(t, p1, "="@) {
                                Err(e) => Err(e),
                                Ok(p2) => if vars.len() == 1 {
                                    g_assign_one(t, vars, p2, m2, f, start)
                                } else {
                                    match g_values(t, p2, m2, f, Stop::Semi) {
                                        Err(e) => Err(e),
                                        Ok((values, p3, m3)) => match expect(t, p3, ";"@) {
                                            Err(e) => Err(e),
                                            Ok(p4) => match e_sets(
                                                vars,
                                                values,
                                                start,
                                                t[p4 - 1].end,
                                            ) {
                                                Err(e) => Err(e),
                                                Ok(line) => Ok((line, p4, m3)),
                                            },
                                        },
                                    }
                                },
                            }
                        }
                    },
                }
            },
        }
    }
}

/// What stands behind `=` for one variable: an expression and `;`; or a
/// value and more values, which is an error of numbers.
pub open spec fn g_assign_one(
    t: Seq<TokenV>,
    vars: Seq<ValueV>,
    pos: int,
    m: MetaPV,
    fuel: nat,
    start: int,
) -> G<LineV>
    decreases fuel, 0nat, 0nat,
{
    if fuel == 0 {
        Err(PErrV::TooDeep)
    } else {
        let f = (fuel - 1) as nat;
        match g_exprs(t, pos, m, f) {
            Err(e) => Err(e),
            Ok((exprs, p, m1)) => if sym(t, p, ";"@) {
                match e_assign(vars, exprs, start, t[p].end, m1) {
                    Err(e) => Err(e),
                    Ok((m2, line)) => Ok((line, p + 1, m2)),
                }
            } else if exprs.len() != 1 || !(exprs[0] is Value) {
                Err(unexpected(t, p))
            } else {
                match g_values(t, p, m1, f, Stop::Semi) {
                    Err(e) => Err(e),
                    Ok((tail, p1, m2)) => match expect(t, p1, ";"@) {
                        Err(e) => Err(e),
                        Ok(p2) => match e_sets(
                            vars,
                            seq![exprs[0]->Value_0] + tail,
                            start,
                            t[p2 - 1].end,
                        ) {
                            Err(e) => Err(e),
                            Ok(line) => Ok((line, p2, m2)),
                        },
                    },
                }
            },
        }
    }
}

} // verus!
