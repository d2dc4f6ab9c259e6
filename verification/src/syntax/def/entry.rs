//! The parsers of the source language, one for each thing that can be read
//! on its own.

use vstd::prelude::*;
use crate::text::str_chars;
use crate::syntax::ast::{Var, Value, ValueV, CmpTree, CmpTreeV, Expand, LogicLine, LineV};
use crate::syntax::parse_meta::{Meta, MetaPV};
use crate::syntax::sugar::{with_targets, wrap_targets, some_label, with_some_label};
use crate::syntax::def::lexer::{Token, TokKind, tokenize, lex_text, tokens_view};
use crate::syntax::def::grammar::{
    PErrV,
    Stop,
    token_is_var,
    unexpected,
    uint_of,
    scope_opened,
    level_opened,
    level_closed,
    wrapped,
    g_lines,
    g_line,
    g_cond,
    g_value,
};
use crate::syntax::def::parser::{
    ParseError,
    PARSE_DEPTH,
    error_view,
    ready,
    words,
    parse_lines,
    parse_line,
    parse_value,
    parse_cond,
    uint_at,
    var_at,
};

verus! {

/// Splits a source text into its words.
pub(crate) fn lex(src: &str) -> (r: Result<Vec<Token>, ParseError>)
    ensures
        match lex_text(src@) {
            Ok(toks) => r is Ok && words(&r->Ok_0) == toks,
            Err(at) => r is Err && error_view(r->Err_0) == PErrV::InvalidToken(at),
        },
{
    let chars = str_chars(src);
    match tokenize(&chars) {
        Ok(toks) => Ok(toks),
        Err(at) => Err(ParseError::InvalidToken { location: at }),
    }
}

/// The state with what reading statements needs: a scope of labels, if
/// none is open, and a loop level for `break` and `continue` outside of
/// any loop.
pub open spec fn opened(m: MetaPV) -> MetaPV {
    level_opened(
        if m.labels.len() == 0 {
            scope_opened(m)
        } else {
            m
        },
    )
}

/// Opens what reading statements needs.
fn open_level(meta: &mut Meta)
    ensures
        final(meta)@ == opened(old(meta)@),
        ready(final(meta)@),
{
    if meta.label_scope_depth() == 0 {
        meta.add_label_scope();
    }
    meta.add_control_level(None, None);
}

/// As many loop levels are open in `b` as in `a`, and a scope of labels.
pub open spec fn levels_kept(a: MetaPV, b: MetaPV) -> bool {
    b.breaks.len() == a.breaks.len() && b.continues.len() == a.continues.len() && b.labels.len()
        >= 1
}

/// The error for a word that is left over at `pos`.
fn left_over(toks: &Vec<Token>, pos: usize) -> (r: ParseError)
    ensures
        error_view(r) == unexpected(words(toks), pos as int),
{
    assert(words(toks).len() == toks.len());
    if pos < toks.len() {
        assert(words(toks)[pos as int] == toks@[pos as int]@);
        ParseError::UnrecognizedToken { location: toks[pos].start }
    } else {
        ParseError::UnrecognizedEof
    }
}

/// The state behind the outermost loop level, with the targets that
/// `break` and `continue` found in it recorded as labels.
pub open spec fn closed(m: MetaPV) -> MetaPV {
    with_some_label(with_some_label(level_closed(m), m.continues.last()), m.breaks.last())
}

/// What a text reads as, as a program: its statements, up to its end,
/// between the targets of `continue` and of `break` outside of any loop.
pub open spec fn program_read(src: Seq<char>, m: MetaPV) -> Result<(Seq<LineV>, MetaPV), PErrV> {
    match lex_text(src) {
        Err(at) => Err(PErrV::InvalidToken(at)),
        Ok(t) => match g_lines(t, 0, opened(m), PARSE_DEPTH as nat, Stop::End) {
            Err(e) => Err(e),
            Ok((lines, p, m1)) => if p < t.len() {
                Err(unexpected(t, p))
            } else {
                Ok(
                    (
                        some_label(m1.continues.last()) + lines + some_label(m1.breaks.last()),
                        closed(m1),
                    ),
                )
            },
        },
    }
}

/// What a text reads as, as one statement with nothing behind it.
pub open spec fn statement_read(src: Seq<char>, m: MetaPV) -> Result<(LineV, MetaPV), PErrV> {
    match lex_text(src) {
        Err(at) => Err(PErrV::InvalidToken(at)),
        Ok(t) => match g_line(t, 0, opened(m), PARSE_DEPTH as nat) {
            Err(e) => Err(e),
            Ok((line, p, m1)) => if p < t.len() {
                Err(unexpected(t, p))
            } else {
                Ok((wrapped(line, m1.breaks.last(), m1.continues.last()), closed(m1)))
            },
        },
    }
}

/// What a text reads as, as one condition with nothing behind it.
pub open spec fn condition_read(src: Seq<char>, m: MetaPV) -> Result<(CmpTreeV, MetaPV), PErrV> {
    match lex_text(src) {
        Err(at) => Err(PErrV::InvalidToken(at)),
        Ok(t) => match g_cond(t, 0, opened(m), PARSE_DEPTH as nat) {
            Err(e) => Err(e),
            Ok((tree, p, m1)) => if p < t.len() {
                Err(unexpected(t, p))
            } else {
                Ok((tree, level_closed(m1)))
            },
        },
    }
}

/// What a text reads as, as one value with nothing behind it.
pub open spec fn value_read(src: Seq<char>, m: MetaPV) -> Result<(ValueV, MetaPV), PErrV> {
    match lex_text(src) {
        Err(at) => Err(PErrV::InvalidToken(at)),
        Ok(t) => match g_value(t, 0, opened(m), PARSE_DEPTH as nat) {
            Err(e) => Err(e),
            Ok((v, p, m1)) => if p < t.len() {
                Err(unexpected(t, p))
            } else {
                Ok((v, level_closed(m1)))
            },
        },
    }
}

/// Reads a whole program.
pub struct TopLevelParser {}

/// Reads one statement.
pub struct LogicLineParser {}

/// Reads one name.
pub struct VarParser {}

/// Reads one name that is no string.
pub struct NoStringVarParser {}

/// Reads one unsigned number.
pub struct LiteralUIntParser {}

/// Reads one condition.
pub struct JumpCmpParser {}

/// Reads one value.
pub struct ValueParser {}

impl TopLevelParser {
    pub fn new() -> Self {
        TopLevelParser {  }
    }

    /// Reads the statements of a program. `break` outside of any loop goes
    /// to the end of the program, `continue` to its start. On success as
    /// many scopes of labels are open as before, but for the one that
    /// reading needs.
    pub fn parse(&self, meta: &mut Meta, src: &str) -> (r: Result<Expand, ParseError>)
        ensures
            match program_read(src@, old(meta)@) {
                Ok((lines, m)) => r is Ok && r->Ok_0@ == lines && final(meta)@ == m,
                Err(e) => r is Err && error_view(r->Err_0) == e,
            },
            r is Ok ==> levels_kept(old(meta)@, final(meta)@),
    {
        let toks = lex(src)?;
        open_level(meta);
        let (lines, p) = parse_lines(&toks, 0, meta, PARSE_DEPTH, Stop::End)?;
        if p < toks.len() {
            return Err(left_over(&toks, p));
        }
        let (on_break, on_continue) = meta.pop_control_level();
        Ok(Expand(with_targets(lines, on_break, on_continue, meta)))
    }
}

impl LogicLineParser {
    pub fn new() -> Self {
        LogicLineParser {  }
    }

    /// Reads one statement, and nothing behind it.
    pub fn parse(&self, meta: &mut Meta, src: &str) -> (r: Result<LogicLine, ParseError>)
        ensures
            match statement_read(src@, old(meta)@) {
                Ok((line, m)) => r is Ok && r->Ok_0@ == line && final(meta)@ == m,
                Err(e) => r is Err && error_view(r->Err_0) == e,
            },
            r is Ok ==> levels_kept(old(meta)@, final(meta)@),
    {
        let toks = lex(src)?;
        open_level(meta);
        let (line, p) = parse_line(&toks, 0, meta, PARSE_DEPTH)?;
        if p < toks.len() {
            return Err(left_over(&toks, p));
        }
        let (on_break, on_continue) = meta.pop_control_level();
        Ok(wrap_targets(line, on_break, on_continue, meta))
    }
}

/// What reading one name from a text gives: the text must be one word,
/// and the word a name.
pub open spec fn one_var_read(r: Result<Var, ParseError>, src: Seq<char>, strings: bool) -> bool {
    match lex_text(src) {
        Err(at) => r is Err && error_view(r->Err_0) == PErrV::InvalidToken(at),
        Ok(toks) => if toks.len() == 0 {
            r is Err && error_view(r->Err_0) == PErrV::UnrecognizedEof
        } else if toks.len() > 1 {
            r is Err && error_view(r->Err_0) == PErrV::UnrecognizedToken(toks[1].start)
        } else if token_is_var(toks[0], strings) {
            r is Ok && r->Ok_0@ == toks[0].text
        } else {
            r is Err && error_view(r->Err_0) == PErrV::UnrecognizedToken(toks[0].start)
        },
    }
}

/// What reading one unsigned number from a text gives: the text must be
/// one word, and the word an unsigned number.
pub open spec fn one_uint_read(r: Result<usize, ParseError>, src: Seq<char>) -> bool {
    match lex_text(src) {
        Err(at) => r is Err && error_view(r->Err_0) == PErrV::InvalidToken(at),
        Ok(toks) => if toks.len() == 0 {
            r is Err && error_view(r->Err_0) == PErrV::UnrecognizedEof
        } else if toks[0].kind != TokKind::Number {
            r is Err && error_view(r->Err_0) == PErrV::UnrecognizedToken(toks[0].start)
        } else {
            match uint_of(toks[0].text) {
                Err(why) => r is Err && error_view(r->Err_0) == (PErrV::NotUInt {
                    start: toks[0].start,
                    end: toks[0].end,
                    text: toks[0].text,
                    why,
                }),
                Ok(n) => if toks.len() > 1 {
                    r is Err && error_view(r->Err_0) == PErrV::UnrecognizedToken(toks[1].start)
                } else {
                    r == Ok::<usize, ParseError>(n)
                },
            }
        },
    }
}

/// The name that a text of one word is.
fn one_var(src: &str, strings: bool) -> (r: Result<Var, ParseError>)
    ensures
        one_var_read(r, src@, strings),
{
    let toks = lex(src)?;
    assert(tokens_view(toks@).len() == toks.len());
    if toks.len() == 0 {
        return Err(ParseError::UnrecognizedEof);
    }
    if toks.len() > 1 {
        assert(tokens_view(toks@)[1] == toks@[1]@);
        return Err(left_over(&toks, 1));
    }
    assert(tokens_view(toks@)[0] == toks@[0]@);
    match var_at(&toks, 0, strings) {
        Some(name) => Ok(name),
        None => Err(left_over(&toks, 0)),
    }
}

impl VarParser {
    pub fn new() -> Self {
        VarParser {  }
    }

    /// Reads one name: a word that the language does not keep, a number,
    /// a quoted name, or a string.
    pub fn parse(&self, meta: &mut Meta, src: &str) -> (r: Result<Var, ParseError>)
        ensures
            final(meta)@ == old(meta)@,
            one_var_read(r, src@, true),
    {
        one_var(src, true)
    }
}

impl NoStringVarParser {
    pub fn new() -> Self {
        NoStringVarParser {  }
    }

    /// Reads one name that is no string.
    pub fn parse(&self, meta: &mut Meta, src: &str) -> (r: Result<Var, ParseError>)
        ensures
            final(meta)@ == old(meta)@,
            one_var_read(r, src@, false),
    {
        one_var(src, false)
    }
}

impl LiteralUIntParser {
    pub fn new() -> Self {
        LiteralUIntParser {  }
    }

    /// Reads one unsigned number: decimal, or hexadecimal behind `0x`, or
    /// binary behind `0b`.
    pub fn parse(&self, meta: &mut Meta, src: &str) -> (r: Result<usize, ParseError>)
        ensures
            final(meta)@ == old(meta)@,
            one_uint_read(r, src@),
    {
        let toks = lex(src)?;
        assert(tokens_view(toks@).len() == toks.len());
        let inner = uint_at(&toks, 0);
        proof {
            if toks.len() > 0 {
                assert(tokens_view(toks@)[0] == toks@[0]@);
            }
            if toks.len() > 1 {
                assert(tokens_view(toks@)[1] == toks@[1]@);
            }
        }
        let (n, p) = inner?;
        if p < toks.len() {
            return Err(left_over(&toks, p));
        }
        Ok(n)
    }
}

impl JumpCmpParser {
    pub fn new() -> Self {
        JumpCmpParser {  }
    }

    /// Reads one condition, and nothing behind it.
    pub fn parse(&self, meta: &mut Meta, src: &str) -> (r: Result<CmpTree, ParseError>)
        ensures
            match condition_read(src@, old(meta)@) {
                Ok((tree, m)) => r is Ok && r->Ok_0@ == tree && final(meta)@ == m,
                Err(e) => r is Err && error_view(r->Err_0) == e,
            },
            r is Ok ==> levels_kept(old(meta)@, final(meta)@),
    {
        let toks = lex(src)?;
        open_level(meta);
        let (tree, p) = parse_cond(&toks, 0, meta, PARSE_DEPTH)?;
        if p < toks.len() {
            return Err(left_over(&toks, p));
        }
        let _ = meta.pop_control_level();
        Ok(tree)
    }
}

impl ValueParser {
    pub fn new() -> Self {
        ValueParser {  }
    }

    /// Reads one value, and nothing behind it.
    pub fn parse(&self, meta: &mut Meta, src: &str) -> (r: Result<Value, ParseError>)
        ensures
            match value_read(src@, old(meta)@) {
                Ok((v, m)) => r is Ok && r->Ok_0@ == v && final(meta)@ == m,
                Err(e) => r is Err && error_view(r->Err_0) == e,
            },
            r is Ok ==> levels_kept(old(meta)@, final(meta)@),
    {
        let toks = lex(src)?;
        open_level(meta);
        let (value, p) = parse_value(&toks, 0, meta, PARSE_DEPTH)?;
        if p < toks.len() {
            return Err(left_over(&toks, p));
        }
        let _ = meta.pop_control_level();
        Ok(value)
    }
}

/// Reads a program with a fresh state of its own.
pub fn parse(src: &str) -> (r: Result<Expand, ParseError>)
    ensures
        match program_read(src@, MetaPV::fresh()) {
            Ok((lines, _)) => r is Ok && r->Ok_0@ == lines,
            Err(e) => r is Err && error_view(r->Err_0) == e,
        },
{
    let mut meta = Meta::new();
    TopLevelParser::new().parse(&mut meta, src)
}

} // verus!
