//! Which texts are identifiers of the source language, and how a name is
//! written so that it reads back as itself.

use vstd::prelude::*;
use crate::text::{str_chars, str_eq, owned, push_char, is_string_text};
use crate::syntax::ast::Value;

verus! {

/// Whether Unicode counts `c` as alphabetic: what `char::is_alphabetic` says.
pub uninterp spec fn unicode_alphabetic(c: char) -> bool;

/// Whether Unicode counts `c` as alphabetic or numeric: what
/// `char::is_alphanumeric` says.
pub uninterp spec fn unicode_alphanumeric(c: char) -> bool;

/// The standard library's `char::is_alphabetic`, a function of the
/// character alone.
#[verifier::external_body]
pub(crate) fn is_alphabetic(c: char) -> (r: bool)
    ensures
        r == unicode_alphabetic(c),
{
    c.is_alphabetic()
}

/// The standard library's `char::is_alphanumeric`, a function of the
/// character alone.
#[verifier::external_body]
pub(crate) fn is_alphanumeric(c: char) -> (r: bool)
    ensures
        r == unicode_alphanumeric(c),
{
    c.is_alphanumeric()
}

/// A character that may begin a name.
pub open spec fn is_name_start(c: char) -> bool {
    c == '_' || unicode_alphabetic(c)
}

/// A character that may stand inside a name.
pub open spec fn is_name_part(c: char) -> bool {
    c == '_' || unicode_alphanumeric(c)
}

pub open spec fn is_dec_digit(c: char) -> bool {
    '0' <= c && c <= '9'
}

pub open spec fn is_hex_digit(c: char) -> bool {
    is_dec_digit(c) || ('a' <= c && c <= 'f') || ('A' <= c && c <= 'F')
}

pub open spec fn is_bin_digit(c: char) -> bool {
    c == '0' || c == '1'
}

/// Whether `c` is a digit of the base: 2, 16, or else 10.
pub open spec fn is_digit_of(c: char, base: int) -> bool {
    if base == 2 {
        is_bin_digit(c)
    } else if base == 16 {
        is_hex_digit(c)
    } else {
        is_dec_digit(c)
    }
}

/// A plain name: a letter or `_`, then letters, digits and `_`.
pub open spec fn is_plain_name(s: Seq<char>) -> bool {
    s.len() > 0 && is_name_start(s[0]) && forall|i: int|
        1 <= i < s.len() ==> is_name_part(#[trigger] s[i])
}

/// A name of the game: `@`, then a letter or `_`, then letters, digits,
/// `_` and `-`.
pub open spec fn is_at_name(s: Seq<char>) -> bool {
    s.len() >= 2 && s[0] == '@' && is_name_start(s[1]) && forall|i: int|
        2 <= i < s.len() ==> is_name_part(#[trigger] s[i]) || s[i] == '-'
}

/// Digits of the base from `from` up to `to`: at least one, the first a
/// digit, the others digits or `_`.
pub open spec fn is_digit_run(s: Seq<char>, from: int, to: int, base: int) -> bool {
    0 <= from < to <= s.len() && is_digit_of(s[from], base) && forall|i: int|
        from < i < to ==> is_digit_of(#[trigger] s[i], base) || s[i] == '_'
}

/// The position of the first `.` of `s` from `i` on; the length where
/// there is none.
pub open spec fn dot_pos(s: Seq<char>, i: int) -> int
    decreases s.len() - i,
{
    if i < 0 || i >= s.len() {
        s.len() as int
    } else if s[i] == '.' {
        i
    } else {
        dot_pos(s, i + 1)
    }
}

/// A number: `0x` or `0b`, an optional `-` and digits of that base; or an
/// optional `-`, decimal digits, and optionally `.` and more digits.
pub open spec fn is_number(s: Seq<char>) -> bool {
    if s.len() >= 2 && s[0] == '0' && (s[1] == 'x' || s[1] == 'b') {
        let base: int = if s[1] == 'x' {
            16
        } else {
            2
        };
        let from: int = if s.len() > 2 && s[2] == '-' {
            3
        } else {
            2
        };
        is_digit_run(s, from, s.len() as int, base)
    } else {
        let from: int = if s.len() > 0 && s[0] == '-' {
            1
        } else {
            0
        };
        let dot = dot_pos(s, 0);
        if dot >= s.len() {
            is_digit_run(s, from, s.len() as int, 10)
        } else {
            is_digit_run(s, from, dot, 10) && is_digit_run(s, dot + 1, s.len() as int, 10)
        }
    }
}

/// What the source language reads as one identifier: a name or a number.
pub open spec fn is_ident_text(s: Seq<char>) -> bool {
    is_plain_name(s) || is_at_name(s) || is_number(s)
}

/// The words that the source language keeps for itself.
pub open spec fn is_keyword_text(s: Seq<char>) -> bool {
    s == "goto"@
        || s == "const"@
        || s == "take"@
        || s == "setres"@
        || s == "op"@
        || s == "set"@
        || s == "print"@
        || s == "end"@
        || s == "noop"@
        || s == "jump"@
        || s == "select"@
        || s == "switch"@
        || s == "case"@
        || s == "skip"@
        || s == "if"@
        || s == "else"@
        || s == "elif"@
        || s == "while"@
        || s == "do"@
        || s == "gwhile"@
        || s == "break"@
        || s == "continue"@
        || s == "inline"@
        || s == "match"@
        || s == "add"@
        || s == "sub"@
        || s == "mul"@
        || s == "div"@
        || s == "idiv"@
        || s == "mod"@
        || s == "pow"@
        || s == "equal"@
        || s == "notEqual"@
        || s == "land"@
        || s == "lessThan"@
        || s == "lessThanEq"@
        || s == "greaterThan"@
        || s == "greaterThanEq"@
        || s == "strictEqual"@
        || s == "strictNotEqual"@
        || s == "always"@
        || s == "shl"@
        || s == "shr"@
        || s == "or"@
        || s == "and"@
        || s == "xor"@
        || s == "max"@
        || s == "min"@
        || s == "angle"@
        || s == "len"@
        || s == "noise"@
        || s == "not"@
        || s == "abs"@
        || s == "log"@
        || s == "log10"@
        || s == "floor"@
        || s == "ceil"@
        || s == "sqrt"@
        || s == "rand"@
        || s == "sin"@
        || s == "cos"@
        || s == "tan"@
        || s == "asin"@
        || s == "acos"@
        || s == "atan"@
}

/// Whether a text is written as it is: a string, or an identifier that
/// is no keyword.
pub open spec fn is_bare_text(s: Seq<char>) -> bool {
    is_string_text(s) || (is_ident_text(s) && !is_keyword_text(s))
}

/// `s` with each `'` replaced by `"`.
pub open spec fn quotes_swapped(s: Seq<char>) -> Seq<char> {
    Seq::new(
        s.len(),
        |i: int|
            if s[i] == '\'' {
                '"'
            } else {
                s[i]
            },
    )
}

/// A name as the source language writes it: as it is where that reads
/// back as the name, else between single quotes, with the single quotes
/// inside it written as double quotes.
pub open spec fn ident_text(s: Seq<char>) -> Seq<char> {
    if is_bare_text(s) {
        s
    } else {
        "'"@ + quotes_swapped(s) + "'"@
    }
}

fn digit_of_base(c: char, base: u8) -> (r: bool)
    ensures
        r == is_digit_of(c, base as int),
{
    if base == 2 {
        c == '0' || c == '1'
    } else if base == 16 {
        ('0' <= c && c <= '9') || ('a' <= c && c <= 'f') || ('A' <= c && c <= 'F')
    } else {
        '0' <= c && c <= '9'
    }
}

fn digit_run(v: &Vec<char>, from: usize, to: usize, base: u8) -> (r: bool)
    requires
        to <= v.len(),
    ensures
        r == is_digit_run(v@, from as int, to as int, base as int),
{
    if from >= to {
        return false;
    }
    if !digit_of_base(v[from], base) {
        return false;
    }
    let mut i: usize = from + 1;
    while i < to
        invariant
            from < i <= to <= v.len(),
            forall|j: int|
                from < j < i ==> is_digit_of(#[trigger] v@[j], base as int) || v@[j] == '_',
        decreases to - i,
    {
        if !(digit_of_base(v[i], base) || v[i] == '_') {
            return false;
        }
        i += 1;
    }
    true
}

fn find_dot(v: &Vec<char>) -> (r: usize)
    ensures
        r == dot_pos(v@, 0),
{
    let mut i: usize = 0;
    while i < v.len()
        invariant
            i <= v.len(),
            dot_pos(v@, 0) == dot_pos(v@, i as int),
        decreases v.len() - i,
    {
        if v[i] == '.' {
            return i;
        }
        i += 1;
    }
    v.len()
}

fn number(v: &Vec<char>) -> (r: bool)
    ensures
        r == is_number(v@),
{
    let n = v.len();
    if n >= 2 && v[0] == '0' && (v[1] == 'x' || v[1] == 'b') {
        let base: u8 = if v[1] == 'x' {
            16
        } else {
            2
        };
        let from: usize = if n > 2 && v[2] == '-' {
            3
        } else {
            2
        };
        digit_run(v, from, n, base)
    } else {
        let from: usize = if n > 0 && v[0] == '-' {
            1
        } else {
            0
        };
        let dot = find_dot(v);
        if dot >= n {
            digit_run(v, from, n, 10)
        } else {
            digit_run(v, from, dot, 10) && digit_run(v, dot + 1, n, 10)
        }
    }
}

fn plain_name(v: &Vec<char>) -> (r: bool)
    ensures
        r == is_plain_name(v@),
{
    if v.len() == 0 {
        return false;
    }
    if !(v[0] == '_' || is_alphabetic(v[0])) {
        return false;
    }
    let mut i: usize = 1;
    while i < v.len()
        invariant
            1 <= i <= v.len(),
            forall|j: int| 1 <= j < i ==> is_name_part(#[trigger] v@[j]),
        decreases v.len() - i,
    {
        if !(v[i] == '_' || is_alphanumeric(v[i])) {
            return false;
        }
        i += 1;
    }
    true
}

fn at_name(v: &Vec<char>) -> (r: bool)
    ensures
        r == is_at_name(v@),
{
    if v.len() < 2 {
        return false;
    }
    if v[0] != '@' || !(v[1] == '_' || is_alphabetic(v[1])) {
        return false;
    }
    let mut i: usize = 2;
    while i < v.len()
        invariant
            2 <= i <= v.len(),
            forall|j: int| 2 <= j < i ==> is_name_part(#[trigger] v@[j]) || v@[j] == '-',
        decreases v.len() - i,
    {
        if !(v[i] == '_' || is_alphanumeric(v[i]) || v[i] == '-') {
            return false;
        }
        i += 1;
    }
    true
}

/// Whether the characters make one identifier.
pub fn chars_are_ident(v: &Vec<char>) -> (r: bool)
    ensures
        r == is_ident_text(v@),
{
    plain_name(v) || at_name(v) || number(v)
}

impl Value {
    /// Whether `s` is a string of the target language: at least two
    /// characters, the first and the last of them `"`.
    pub fn is_string(s: &str) -> (r: bool)
        ensures
            r == is_string_text(s@),
    {
        crate::text::is_string(s)
    }

    /// Whether `s` is an identifier: a name or a number.
    pub fn is_ident(s: &str) -> (r: bool)
        ensures
            r == is_ident_text(s@),
    {
        let v = str_chars(s);
        chars_are_ident(&v)
    }

    /// Whether `s` is a word that the source language keeps for itself.
    pub fn is_ident_keyword(s: &str) -> (r: bool)
        ensures
            r == is_keyword_text(s@),
    {
        str_eq(s, "goto")
            || str_eq(s, "const")
            || str_eq(s, "take")
            || str_eq(s, "setres")
            || str_eq(s, "op")
            || str_eq(s, "set")
            || str_eq(s, "print")
            || str_eq(s, "end")
            || str_eq(s, "noop")
            || str_eq(s, "jump")
            || str_eq(s, "select")
            || str_eq(s, "switch")
            || str_eq(s, "case")
            || str_eq(s, "skip")
            || str_eq(s, "if")
            || str_eq(s, "else")
            || str_eq(s, "elif")
            || str_eq(s, "while")
            || str_eq(s, "do")
            || str_eq(s, "gwhile")
            || str_eq(s, "break")
            || str_eq(s, "continue")
            || str_eq(s, "inline")
            || str_eq(s, "match")
            || str_eq(s, "add")
            || str_eq(s, "sub")
            || str_eq(s, "mul")
            || str_eq(s, "div")
            || str_eq(s, "idiv")
            || str_eq(s, "mod")
            || str_eq(s, "pow")
            || str_eq(s, "equal")
            || str_eq(s, "notEqual")
            || str_eq(s, "land")
            || str_eq(s, "lessThan")
            || str_eq(s, "lessThanEq")
            || str_eq(s, "greaterThan")
            || str_eq(s, "greaterThanEq")
            || str_eq(s, "strictEqual")
            || str_eq(s, "strictNotEqual")
            || str_eq(s, "always")
            || str_eq(s, "shl")
            || str_eq(s, "shr")
            || str_eq(s, "or")
            || str_eq(s, "and")
            || str_eq(s, "xor")
            || str_eq(s, "max")
            || str_eq(s, "min")
            || str_eq(s, "angle")
            || str_eq(s, "len")
            || str_eq(s, "noise")
            || str_eq(s, "not")
            || str_eq(s, "abs")
            || str_eq(s, "log")
            || str_eq(s, "log10")
            || str_eq(s, "floor")
            || str_eq(s, "ceil")
            || str_eq(s, "sqrt")
            || str_eq(s, "rand")
            || str_eq(s, "sin")
            || str_eq(s, "cos")
            || str_eq(s, "tan")
            || str_eq(s, "asin")
            || str_eq(s, "acos")
            || str_eq(s, "atan")
    }

    /// Whether `s` is written as it is in the source language.
    pub fn no_use_repr_var(s: &str) -> (r: bool)
        ensures
            r == is_bare_text(s@),
    {
        Value::is_string(s) || (Value::is_ident(s) && !Value::is_ident_keyword(s))
    }

    /// The name `s` as the source language writes it.
    pub fn replace_ident(s: &str) -> (r: String)
        ensures
            r@ == ident_text(s@),
    {
        if Value::no_use_repr_var(s) {
            owned(s)
        } else {
            let v = str_chars(s);
            let mut r = owned("'");
            let ghost q = "'"@;
            let mut i: usize = 0;
            while i < v.len()
                invariant
                    i <= v.len(),
                    v@ == s@,
                    q == "'"@,
                    r@ == q + quotes_swapped(s@).take(i as int),
                decreases v.len() - i,
            {
                let c = if v[i] == '\'' {
                    '"'
                } else {
                    v[i]
                };
                push_char(&mut r, c);
                i += 1;
                assert(r@ =~= q + quotes_swapped(s@).take(i as int));
            }
            assert(quotes_swapped(s@).take(v.len() as int) =~= quotes_swapped(s@));
            r.append("'");
            r
        }
    }
}

} // verus!
