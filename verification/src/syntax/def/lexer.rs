//! The words of the source language.

use vstd::prelude::*;
use crate::text::{is_space, is_space_char, push_char, chars_text};
use crate::syntax::ident::{
    is_alphabetic,
    is_alphanumeric,
    is_name_start,
    is_name_part,
    is_digit_of,
};

verus! {

/// What kind of word a token is.
#[derive(Debug, PartialEq, Eq, Structural, Clone, Copy)]
pub enum TokKind {
    /// A name, or a word that the language keeps for itself.
    Ident,
    /// A number, written without `_`.
    Number,
    /// A string, with its quotes, and with `[` for each `\[`.
    Str,
    /// A name between single quotes, with each `"` inside it read as `'`.
    Quoted,
    /// A sign.
    Sym,
}

/// A word of the source text: its kind, its text, and the position of its
/// first and behind its last character.
#[derive(Debug, Clone)]
pub struct Token {
    pub kind: TokKind,
    pub text: String,
    pub start: usize,
    pub end: usize,
}

/// The mathematical form of a [`Token`].
pub struct TokenV {
    pub kind: TokKind,
    pub text: Seq<char>,
    pub start: int,
    pub end: int,
}

impl View for Token {
    type V = TokenV;

    open spec fn view(&self) -> TokenV {
        TokenV { kind: self.kind, text: self.text@, start: self.start as int, end: self.end as int }
    }
}

pub open spec fn tokens_view(toks: Seq<Token>) -> Seq<TokenV> {
    Seq::new(toks.len(), |i: int| toks[i]@)
}

/// The end of a comment that runs to the end of its line: the position
/// of the next line feed from `i` on, or the end of the text.
pub open spec fn line_end(s: Seq<char>, i: int) -> int
    decreases s.len() - i,
{
    if i < 0 || i >= s.len() {
        s.len() as int
    } else if s[i] == '\n' {
        i
    } else {
        line_end(s, i + 1)
    }
}

/// The position behind the next `*#` from `i` on, if there is one.
pub open spec fn block_end(s: Seq<char>, i: int) -> Option<int>
    decreases s.len() - i,
{
    if i < 0 || i + 1 >= s.len() {
        None
    } else if s[i] == '*' && s[i + 1] == '#' {
        Some(i + 2)
    } else {
        block_end(s, i + 1)
    }
}

/// Whether `c` may follow a backslash in a string.
pub open spec fn is_escape(c: char) -> bool {
    c == 'n' || c == '\\' || c == '['
}

/// The position of the `"` that closes the string whose inside begins
/// at `i`. A backslash takes the character behind it along, which must be
/// `n`, a backslash or `[`.
pub open spec fn string_close(s: Seq<char>, i: int) -> Option<int>
    decreases s.len() - i,
{
    if i < 0 || i >= s.len() {
        None
    } else if s[i] == '"' {
        Some(i)
    } else if s[i] == '\\' {
        if i + 1 < s.len() && is_escape(s[i + 1]) {
            string_close(s, i + 2)
        } else {
            None
        }
    } else {
        string_close(s, i + 1)
    }
}

/// The inside of a string as it is kept: `\[` becomes `[`, every other
/// character stays, the backslashes in front of `n` and of a backslash too.
pub open spec fn string_inside(s: Seq<char>, i: int, to: int) -> Seq<char>
    decreases to - i,
{
    if i < 0 || i >= to || to > s.len() {
        Seq::empty()
    } else if s[i] == '\\' && i + 1 < to {
        if s[i + 1] == '[' {
            seq!['['] + string_inside(s, i + 2, to)
        } else {
            seq![s[i], s[i + 1]] + string_inside(s, i + 2, to)
        }
    } else {
        seq![s[i]] + string_inside(s, i + 1, to)
    }
}

/// The position of the `'` that closes the quoted name whose inside
/// begins at `i`; white space before it leaves the name open.
pub open spec fn quote_close(s: Seq<char>, i: int) -> Option<int>
    decreases s.len() - i,
{
    if i < 0 || i >= s.len() {
        None
    } else if s[i] == '\'' {
        Some(i)
    } else if is_space_char(s[i]) {
        None
    } else {
        quote_close(s, i + 1)
    }
}

/// `s` with each `"` replaced by `'`.
pub open spec fn single_quoted(s: Seq<char>) -> Seq<char> {
    Seq::new(
        s.len(),
        |i: int|
            if s[i] == '"' {
                '\''
            } else {
                s[i]
            },
    )
}

/// `s` without its `_`.
pub open spec fn underscores_dropped(s: Seq<char>) -> Seq<char>
    decreases s.len(),
{
    if s.len() == 0 {
        Seq::empty()
    } else if s.last() == '_' {
        underscores_dropped(s.drop_last())
    } else {
        underscores_dropped(s.drop_last()).push(s.last())
    }
}

/// The end of the name that runs on at `i`: the first position from `i`
/// on whose character is no part of a name; in a name of the game, `-`
/// is a part too.
pub open spec fn name_end(s: Seq<char>, i: int, game: bool) -> int
    decreases s.len() - i,
{
    if i < 0 || i >= s.len() {
        s.len() as int
    } else if is_name_part(s[i]) || (game && s[i] == '-') {
        name_end(s, i + 1, game)
    } else {
        i
    }
}

/// The end of the digits and `_` that run on at `i`.
pub open spec fn run_end(s: Seq<char>, i: int, base: int) -> int
    decreases s.len() - i,
{
    if i < 0 || i >= s.len() {
        s.len() as int
    } else if is_digit_of(s[i], base) || s[i] == '_' {
        run_end(s, i + 1, base)
    } else {
        i
    }
}

/// The end of the digits that begin at `i` with a digit; `i` where no
/// digit stands there.
pub open spec fn digits_end(s: Seq<char>, i: int, base: int) -> int {
    if 0 <= i < s.len() && is_digit_of(s[i], base) {
        run_end(s, i + 1, base)
    } else {
        i
    }
}

/// The end of the number that begins at `i`; `i` where none begins
/// there. A number is `0x` or `0b`, an optional `-` and digits of that
/// base; or an optional `-`, decimal digits, and optionally `.` and
/// decimal digits.
pub open spec fn number_end(s: Seq<char>, i: int) -> int {
    let prefixed = 0 <= i && i + 1 < s.len() && s[i] == '0' && (s[i + 1] == 'x' || s[i + 1] == 'b');
    let base: int = if prefixed && s[i + 1] == 'x' {
        16
    } else {
        2
    };
    let from: int = if prefixed && i + 2 < s.len() && s[i + 2] == '-' {
        i + 3
    } else {
        i + 2
    };
    if prefixed && digits_end(s, from, base) > from {
        digits_end(s, from, base)
    } else {
        let start: int = if 0 <= i < s.len() && s[i] == '-' {
            i + 1
        } else {
            i
        };
        let end = digits_end(s, start, 10);
        if end == start {
            i
        } else if end < s.len() && s[end] == '.' && digits_end(s, end + 1, 10) > end + 1 {
            digits_end(s, end + 1, 10)
        } else {
            end
        }
    }
}

/// The length of the sign that begins at `i`: three for `===` and `!==`;
/// two for `==`, `!=`, `<=`, `>=`, `&&`, `||`, `<<`, `>>`, `//` and `**`;
/// one for the other signs; 0 where no sign begins.
pub open spec fn sign_size(s: Seq<char>, i: int) -> int {
    let c = s[i];
    let c1 = if i + 1 < s.len() {
        s[i + 1]
    } else {
        ' '
    };
    let c2 = if i + 2 < s.len() {
        s[i + 2]
    } else {
        ' '
    };
    if (c == '=' || c == '!') && c1 == '=' && c2 == '=' {
        3
    } else if (c == '=' || c == '!' || c == '<' || c == '>') && c1 == '=' {
        2
    } else if (c == '&' && c1 == '&') || (c == '|' && c1 == '|') || (c == '<' && c1 == '<') || (c
        == '>' && c1 == '>') || (c == '/' && c1 == '/') || (c == '*' && c1 == '*') {
        2
    } else if c == ';' || c == ':' || c == '(' || c == ')' || c == '{' || c == '}' || c == '['
        || c == ']' || c == '=' || c == '$' || c == '.' || c == ',' || c == '?' || c == '!' || c
        == '+' || c == '-' || c == '*' || c == '/' || c == '%' || c == '&' || c == '|' || c == '^'
        || c == '~' || c == '<' || c == '>' || c == '`' {
        1
    } else {
        0
    }
}

/// Puts `tok` in front of the tokens that `rest` holds; an error stays.
pub open spec fn token_then(tok: TokenV, rest: Result<Seq<TokenV>, int>) -> Result<
    Seq<TokenV>,
    int,
> {
    match rest {
        Ok(toks) => Ok(seq![tok] + toks),
        Err(e) => Err(e),
    }
}

/// The words of the text from `i` on. White space stands between words,
/// and so do comments: from `#*` to the next `*#`, or from `#` to the end
/// of the line. A word is a string, a quoted name, a name, a number, or a
/// sign, whichever begins at its place, as long as it can be. The error
/// is the position of the first character that begins no word.
pub open spec fn lex_from(s: Seq<char>, i: int) -> Result<Seq<TokenV>, int>
    decreases s.len() - i,
{
    if i < 0 || i >= s.len() {
        Ok(Seq::empty())
    } else if is_space_char(s[i]) {
        lex_from(s, i + 1)
    } else if s[i] == '#' {
        if i + 1 < s.len() && s[i + 1] == '*' {
            match block_end(s, i + 2) {
                Some(e) => if i < e <= s.len() {
                    lex_from(s, e)
                } else {
                    Err(i)
                },
                None => Err(i),
            }
        } else {
            let e = line_end(s, i + 1);
            if i < e <= s.len() {
                lex_from(s, e)
            } else {
                Err(i)
            }
        }
    } else if s[i] == '"' {
        match string_close(s, i + 1) {
            Some(q) => if i < q < s.len() {
                token_then(
                    TokenV {
                        kind: TokKind::Str,
                        text: seq!['"'] + string_inside(s, i + 1, q) + seq!['"'],
                        start: i,
                        end: q + 1,
                    },
                    lex_from(s, q + 1),
                )
            } else {
                Err(i)
            },
            None => Err(i),
        }
    } else if s[i] == '\'' {
        match quote_close(s, i + 1) {
            Some(q) => if i + 1 < q < s.len() {
                token_then(
                    TokenV {
                        kind: TokKind::Quoted,
                        text: single_quoted(s.subrange(i + 1, q)),
                        start: i,
                        end: q + 1,
                    },
                    lex_from(s, q + 1),
                )
            } else {
                Err(i)
            },
            None => Err(i),
        }
    } else if is_name_start(s[i]) || (s[i] == '@' && i + 1 < s.len() && is_name_start(s[i + 1])) {
        let e = name_end(s, i + 1, s[i] == '@');
        if i < e <= s.len() {
            token_then(
                TokenV {
                    kind: TokKind::Ident,
                    text: s.subrange(i, e),
                    start: i,
                    end: e,
                },
                lex_from(s, e),
            )
        } else {
            Err(i)
        }
    } else {
        let e = number_end(s, i);
        if i < e <= s.len() {
            token_then(
                TokenV {
                    kind: TokKind::Number,
                    text: underscores_dropped(s.subrange(i, e)),
                    start: i,
                    end: e,
                },
                lex_from(s, e),
            )
        } else {
            let n = sign_size(s, i);
            if n > 0 && i + n <= s.len() {
                token_then(
                    TokenV {
                        kind: TokKind::Sym,
                        text: s.subrange(i, i + n),
                        start: i,
                        end: i + n,
                    },
                    lex_from(s, i + n),
                )
            } else {
                Err(i)
            }
        }
    }
}

/// The words of a source text.
pub open spec fn lex_text(s: Seq<char>) -> Result<Seq<TokenV>, int> {
    lex_from(s, 0)
}

fn name_start(c: char) -> (r: bool)
    ensures
        r == is_name_start(c),
{
    c == '_' || is_alphabetic(c)
}

fn name_part(c: char) -> (r: bool)
    ensures
        r == is_name_part(c),
{
    c == '_' || is_alphanumeric(c)
}

fn digit_in(c: char, base: u8) -> (r: bool)
    ensures
        r == is_digit_of(c, base as int),
{
    if base == 2 {
        c == '0' || c == '1'
    } else if base == 16 {
        ('0' <= c && c <= '9') || ('a' <= c && c <= 'f') || ('A' <= c && c <= 'F')
    } else {
        '0' <= c && c <= '9'
    }
}

fn find_line_end(v: &Vec<char>, i: usize) -> (r: usize)
    requires
        i <= v.len(),
    ensures
        r == line_end(v@, i as int),
        i <= r <= v.len(),
{
    let mut j: usize = i;
    while j < v.len() && v[j] != '\n'
        invariant
            i <= j <= v.len(),
            line_end(v@, i as int) == line_end(v@, j as int),
        decreases v.len() - j,
    {
        j += 1;
    }
    j
}

fn find_block_end(v: &Vec<char>, i: usize) -> (r: Option<usize>)
    requires
        i <= v.len(),
    ensures
        match block_end(v@, i as int) {
            Some(e) => r == Some(e as usize) && i + 2 <= e <= v.len(),
            None => r is None,
        },
{
    let mut j: usize = i;
    while j < v.len() && v.len() - j >= 2
        invariant
            i <= j <= v.len(),
            block_end(v@, i as int) == block_end(v@, j as int),
        decreases v.len() - j,
    {
        if v[j] == '*' && v[j + 1] == '#' {
            return Some(j + 2);
        }
        j += 1;
    }
    None
}

fn escape(c: char) -> (r: bool)
    ensures
        r == is_escape(c),
{
    c == 'n' || c == '\\' || c == '['
}

fn find_string_close(v: &Vec<char>, i: usize) -> (r: Option<usize>)
    requires
        i <= v.len(),
    ensures
        match string_close(v@, i as int) {
            Some(q) => r == Some(q as usize) && i <= q < v.len(),
            None => r is None,
        },
{
    let mut j: usize = i;
    while j < v.len()
        invariant
            i <= j <= v.len(),
            string_close(v@, i as int) == string_close(v@, j as int),
        decreases v.len() - j,
    {
        if v[j] == '"' {
            return Some(j);
        }
        if v[j] == '\\' {
            if v.len() - j >= 2 && escape(v[j + 1]) {
                j += 2;
            } else {
                return None;
            }
        } else {
            j += 1;
        }
    }
    None
}

/// The inside `v[from..to]` of a string as it is kept.
fn read_inside(v: &Vec<char>, from: usize, to: usize, out: &mut String)
    requires
        from <= to <= v.len(),
    ensures
        final(out)@ == old(out)@ + string_inside(v@, from as int, to as int),
    decreases to - from,
{
    if from >= to {
        assert(out@ + Seq::<char>::empty() =~= out@);
        return ;
    }
    let ghost before = out@;
    if v[from] == '\\' && to - from >= 2 {
        if v[from + 1] == '[' {
            push_char(out, '[');
        } else {
            push_char(out, v[from]);
            push_char(out, v[from + 1]);
        }
        let ghost mid = out@;
        read_inside(v, from + 2, to, out);
        proof {
            let rest = string_inside(v@, from + 2, to as int);
            if v@[from + 1] == '[' {
                assert(mid + rest =~= before + (seq!['['] + rest));
            } else {
                assert(mid + rest =~= before + (seq![v@[from as int], v@[from + 1]] + rest));
            }
        }
    } else {
        push_char(out, v[from]);
        let ghost mid = out@;
        read_inside(v, from + 1, to, out);
        proof {
            let rest = string_inside(v@, from + 1, to as int);
            assert(mid + rest =~= before + (seq![v@[from as int]] + rest));
        }
    }
}

fn find_quote_close(v: &Vec<char>, i: usize) -> (r: Option<usize>)
    requires
        i <= v.len(),
    ensures
        match quote_close(v@, i as int) {
            Some(q) => r == Some(q as usize) && i <= q < v.len(),
            None => r is None,
        },
{
    let mut j: usize = i;
    while j < v.len()
        invariant
            i <= j <= v.len(),
            quote_close(v@, i as int) == quote_close(v@, j as int),
        decreases v.len() - j,
    {
        if v[j] == '\'' {
            return Some(j);
        }
        if is_space(v[j]) {
            return None;
        }
        j += 1;
    }
    None
}

fn find_name_end(v: &Vec<char>, i: usize, game: bool) -> (r: usize)
    requires
        i <= v.len(),
    ensures
        r == name_end(v@, i as int, game),
        i <= r <= v.len(),
{
    let mut j: usize = i;
    while j < v.len() && (name_part(v[j]) || (game && v[j] == '-'))
        invariant
            i <= j <= v.len(),
            name_end(v@, i as int, game) == name_end(v@, j as int, game),
        decreases v.len() - j,
    {
        j += 1;
    }
    j
}

fn find_digits_end(v: &Vec<char>, i: usize, base: u8) -> (r: usize)
    requires
        i <= v.len(),
    ensures
        r == digits_end(v@, i as int, base as int),
        i <= r <= v.len(),
{
    if i >= v.len() || !digit_in(v[i], base) {
        return i;
    }
    let mut j: usize = i + 1;
    while j < v.len() && (digit_in(v[j], base) || v[j] == '_')
        invariant
            i < j <= v.len(),
            run_end(v@, i + 1, base as int) == run_end(v@, j as int, base as int),
        decreases v.len() - j,
    {
        j += 1;
    }
    j
}

fn find_number_end(v: &Vec<char>, i: usize) -> (r: usize)
    requires
        i < v.len(),
    ensures
        r == number_end(v@, i as int),
        i <= r <= v.len(),
{
    let prefixed = v.len() - i >= 2 && v[i] == '0' && (v[i + 1] == 'x' || v[i + 1] == 'b');
    if prefixed {
        let base: u8 = if v[i + 1] == 'x' {
            16
        } else {
            2
        };
        let mut from: usize = i + 2;
        if from < v.len() && v[from] == '-' {
            from += 1;
        }
        let end = find_digits_end(v, from, base);
        if end > from {
            return end;
        }
    }
    let mut start: usize = i;
    if v[start] == '-' {
        start += 1;
    }
    let end = find_digits_end(v, start, 10);
    if end == start {
        return i;
    }
    if end < v.len() && v[end] == '.' {
        let frac = find_digits_end(v, end + 1, 10);
        if frac > end + 1 {
            return frac;
        }
    }
    end
}

fn sign_len(v: &Vec<char>, i: usize) -> (r: usize)
    requires
        i < v.len(),
    ensures
        r == sign_size(v@, i as int),
        r <= 3,
        r > 0 ==> i + r <= v.len(),
{
    let c = v[i];
    let c1 = if v.len() - i >= 2 {
        v[i + 1]
    } else {
        ' '
    };
    let c2 = if v.len() - i >= 3 {
        v[i + 2]
    } else {
        ' '
    };
    if (c == '=' || c == '!') && c1 == '=' && c2 == '=' {
        3
    } else if (c == '=' || c == '!' || c == '<' || c == '>') && c1 == '=' {
        2
    } else if (c == '&' && c1 == '&') || (c == '|' && c1 == '|') || (c == '<' && c1 == '<') || (c
        == '>' && c1 == '>') || (c == '/' && c1 == '/') || (c == '*' && c1 == '*') {
        2
    } else if c == ';' || c == ':' || c == '(' || c == ')' || c == '{' || c == '}' || c == '['
        || c == ']' || c == '=' || c == '$' || c == '.' || c == ',' || c == '?' || c == '!' || c
        == '+' || c == '-' || c == '*' || c == '/' || c == '%' || c == '&' || c == '|' || c == '^'
        || c == '~' || c == '<' || c == '>' || c == '`' {
        1
    } else {
        0
    }
}

/// The characters `v[from..to]` without `_`.
fn without_underscores(v: &Vec<char>, from: usize, to: usize) -> (r: String)
    requires
        from <= to <= v.len(),
    ensures
        r@ == underscores_dropped(v@.subrange(from as int, to as int)),
{
    let ghost s = v@.subrange(from as int, to as int);
    let mut r = String::new();
    let mut i: usize = from;
    assert(s.take(0) =~= Seq::<char>::empty());
    while i < to
        invariant
            from <= i <= to <= v.len(),
            s == v@.subrange(from as int, to as int),
            r@ == underscores_dropped(s.take(i - from)),
        decreases to - i,
    {
        proof {
            assert(s.take(i - from + 1).drop_last() =~= s.take(i - from));
            assert(s.take(i - from + 1).last() == v@[i as int]);
        }
        if v[i] != '_' {
            push_char(&mut r, v[i]);
        }
        i += 1;
    }
    assert(s.take(to - from) =~= s);
    r
}

/// The characters `v[from..to]` with each `"` replaced by `'`.
fn with_single_quotes(v: &Vec<char>, from: usize, to: usize) -> (r: String)
    requires
        from <= to <= v.len(),
    ensures
        r@ == single_quoted(v@.subrange(from as int, to as int)),
{
    let ghost s = v@.subrange(from as int, to as int);
    let mut r = String::new();
    let mut i: usize = from;
    while i < to
        invariant
            from <= i <= to <= v.len(),
            s == v@.subrange(from as int, to as int),
            r@ == single_quoted(s).take(i - from),
        decreases to - i,
    {
        let c = if v[i] == '"' {
            '\''
        } else {
            v[i]
        };
        push_char(&mut r, c);
        i += 1;
        assert(r@ =~= single_quoted(s).take(i - from));
    }
    assert(single_quoted(s).take(to - from) =~= single_quoted(s));
    r
}

/// The tokens `done`, followed by what `rest` holds.
pub open spec fn tokens_then(done: Seq<TokenV>, rest: Result<Seq<TokenV>, int>) -> Result<
    Seq<TokenV>,
    int,
> {
    match rest {
        Ok(toks) => Ok(done + toks),
        Err(e) => Err(e),
    }
}

proof fn lemma_tokens_then_step(done: Seq<TokenV>, tok: TokenV, rest: Result<Seq<TokenV>, int>)
    ensures
        tokens_then(done, token_then(tok, rest)) == tokens_then(done.push(tok), rest),
{
    match rest {
        Ok(toks) => {
            assert(done + (seq![tok] + toks) =~= done.push(tok) + toks);
        },
        Err(_) => {},
    }
}

/// Splits a source text into its words.
pub(crate) fn tokenize(v: &Vec<char>) -> (r: Result<Vec<Token>, usize>)
    ensures
        match lex_text(v@) {
            Ok(toks) => r is Ok && tokens_view(r->Ok_0@) == toks,
            Err(at) => r is Err && r->Err_0 == at,
        },
{
    let ghost s = v@;
    let mut toks: Vec<Token> = Vec::new();
    let mut i: usize = 0;
    proof {
        assert(tokens_then(tokens_view(toks@), lex_from(s, 0)) == lex_text(s)) by {
            match lex_from(s, 0) {
                Ok(rest) => {
                    assert(tokens_view(toks@) + rest =~= rest);
                },
                Err(_) => {},
            }
        }
    }
    while i < v.len()
        invariant
            i <= v.len(),
            s == v@,
            tokens_then(tokens_view(toks@), lex_from(s, i as int)) == lex_text(s),
        decreases v.len() - i,
    {
        let c = v[i];
        let ghost before = tokens_view(toks@);
        if is_space(c) {
            i += 1;
        } else if c == '#' {
            if v.len() - i >= 2 && v[i + 1] == '*' {
                match find_block_end(v, i + 2) {
                    Some(e) => {
                        i = e;
                    },
                    None => {
                        return Err(i);
                    },
                }
            } else {
                i = find_line_end(v, i + 1);
            }
        } else if c == '"' {
            let q = match find_string_close(v, i + 1) {
                Some(q) => q,
                None => {
                    return Err(i);
                },
            };
            let mut text = String::new();
            push_char(&mut text, '"');
            read_inside(v, i + 1, q, &mut text);
            push_char(&mut text, '"');
            let tok = Token { kind: TokKind::Str, text, start: i, end: q + 1 };
            proof {
                assert(tok@.text =~= seq!['"'] + string_inside(s, i + 1, q as int) + seq!['"']);
                lemma_tokens_then_step(before, tok@, lex_from(s, q + 1));
            }
            toks.push(tok);
            assert(tokens_view(toks@) =~= before.push(tok@));
            i = q + 1;
        } else if c == '\'' {
            let q = match find_quote_close(v, i + 1) {
                Some(q) => q,
                None => {
                    return Err(i);
                },
            };
            if q == i + 1 {
                return Err(i);
            }
            let tok = Token {
                kind: TokKind::Quoted,
                text: with_single_quotes(v, i + 1, q),
                start: i,
                end: q + 1,
            };
            proof {
                lemma_tokens_then_step(before, tok@, lex_from(s, q + 1));
            }
            toks.push(tok);
            assert(tokens_view(toks@) =~= before.push(tok@));
            i = q + 1;
        } else if name_start(c) || (c == '@' && v.len() - i >= 2 && name_start(v[i + 1])) {
            let e = find_name_end(v, i + 1, c == '@');
            let tok = Token { kind: TokKind::Ident, text: chars_text(v, i, e), start: i, end: e };
            proof {
                lemma_tokens_then_step(before, tok@, lex_from(s, e as int));
            }
            toks.push(tok);
            assert(tokens_view(toks@) =~= before.push(tok@));
            i = e;
        } else {
            let end = find_number_end(v, i);
            if end > i {
                let tok = Token {
                    kind: TokKind::Number,
                    text: without_underscores(v, i, end),
                    start: i,
                    end,
                };
                proof {
                    lemma_tokens_then_step(before, tok@, lex_from(s, end as int));
                }
                toks.push(tok);
                assert(tokens_view(toks@) =~= before.push(tok@));
                i = end;
            } else {
                let n = sign_len(v, i);
                if n == 0 {
                    return Err(i);
                }
                let tok = Token {
                    kind: TokKind::Sym,
                    text: chars_text(v, i, i + n),
                    start: i,
                    end: i + n,
                };
                proof {
                    lemma_tokens_then_step(before, tok@, lex_from(s, i + n));
                }
                toks.push(tok);
                assert(tokens_view(toks@) =~= before.push(tok@));
                i = i + n;
            }
        }
    }
    proof {
        assert(tokens_view(toks@) + Seq::<TokenV>::empty() =~= tokens_view(toks@));
    }
    Ok(toks)
}

} // verus!
