//! Text primitives shared by the whole crate: decimal rendering of counters,
//! joining of tokens, and conversions between strings and character vectors.

use vstd::prelude::*;

verus! {

/// The character that stands for the decimal digit `d`.
pub open spec fn digit_char(d: nat) -> char {
    if d == 0 {
        '0'
    } else if d == 1 {
        '1'
    } else if d == 2 {
        '2'
    } else if d == 3 {
        '3'
    } else if d == 4 {
        '4'
    } else if d == 5 {
        '5'
    } else if d == 6 {
        '6'
    } else if d == 7 {
        '7'
    } else if d == 8 {
        '8'
    } else {
        '9'
    }
}

/// Whether `c` is one of the ten ASCII decimal digits.
pub open spec fn is_digit_char(c: char) -> bool {
    '0' <= c && c <= '9'
}

/// The decimal rendering of `n`, without sign and without leading zeros.
pub open spec fn dec_text(n: nat) -> Seq<char>
    decreases n,
{
    if n < 10 {
        seq![digit_char(n)]
    } else {
        dec_text(n / 10).push(digit_char(n % 10))
    }
}

/// `parts` joined by `sep`; the empty list gives the empty text.
pub open spec fn join_with(parts: Seq<Seq<char>>, sep: Seq<char>) -> Seq<char>
    decreases parts.len(),
{
    if parts.len() == 0 {
        Seq::empty()
    } else if parts.len() == 1 {
        parts[0]
    } else {
        join_with(parts.drop_last(), sep) + sep + parts.last()
    }
}

/// The views of a list of strings.
pub open spec fn texts(v: Seq<String>) -> Seq<Seq<char>> {
    Seq::new(v.len(), |i: int| v[i]@)
}

/// A text counts as a string literal of the target language when it has at
/// least two characters and both its first and its last one are `"`.
pub open spec fn is_string_text(s: Seq<char>) -> bool {
    s.len() >= 2 && s[0] == '"' && s[s.len() - 1] == '"'
}

/// The numeric value of a sequence of decimal digits.
pub open spec fn dec_value(s: Seq<char>) -> nat
    decreases s.len(),
{
    if s.len() == 0 {
        0
    } else {
        dec_value(s.drop_last()) * 10 + digit_value(s.last())
    }
}

/// The value of one decimal digit; 0 for any other character.
pub open spec fn digit_value(c: char) -> nat {
    if c == '1' {
        1
    } else if c == '2' {
        2
    } else if c == '3' {
        3
    } else if c == '4' {
        4
    } else if c == '5' {
        5
    } else if c == '6' {
        6
    } else if c == '7' {
        7
    } else if c == '8' {
        8
    } else if c == '9' {
        9
    } else {
        0
    }
}

/// Reading a decimal rendering back gives the number it was made from.
pub proof fn lemma_dec_value_of_text(n: nat)
    ensures
        dec_value(dec_text(n)) == n,
    decreases n,
{
    if n < 10 {
        let s = dec_text(n);
        assert(s.drop_last() =~= Seq::<char>::empty());
        assert(dec_value(s.drop_last()) == 0);
    } else {
        lemma_dec_value_of_text(n / 10);
        let s = dec_text(n);
        assert(s.drop_last() =~= dec_text(n / 10));
    }
}

/// Distinct numbers have distinct decimal renderings.
pub proof fn lemma_dec_text_injective(a: nat, b: nat)
    requires
        dec_text(a) == dec_text(b),
    ensures
        a == b,
{
    lemma_dec_value_of_text(a);
    lemma_dec_value_of_text(b);
}

/// The standard library's `String::push`: appends one character.
#[verifier::external_body]
pub(crate) fn push_char(s: &mut String, c: char)
    ensures
        final(s)@ == old(s)@.push(c),
{
    s.push(c)
}

/// The standard library's equality on string slices: true exactly when both
/// hold the same characters.
#[verifier::external_body]
pub(crate) fn str_eq(a: &str, b: &str) -> (r: bool)
    ensures
        r == (a@ == b@),
{
    a == b
}

/// The digit character for `d`.
pub fn digit(d: usize) -> (c: char)
    requires
        d < 10,
    ensures
        c == digit_char(d as nat),
{
    if d == 0 {
        '0'
    } else if d == 1 {
        '1'
    } else if d == 2 {
        '2'
    } else if d == 3 {
        '3'
    } else if d == 4 {
        '4'
    } else if d == 5 {
        '5'
    } else if d == 6 {
        '6'
    } else if d == 7 {
        '7'
    } else if d == 8 {
        '8'
    } else {
        '9'
    }
}

/// Appends the decimal rendering of `n` to `out`.
pub fn push_usize(out: &mut String, n: usize)
    ensures
        final(out)@ == old(out)@ + dec_text(n as nat),
    decreases n,
{
    if n < 10 {
        push_char(out, digit(n));
        assert(out@ =~= old(out)@ + dec_text(n as nat));
    } else {
        push_usize(out, n / 10);
        push_char(out, digit(n % 10));
        assert(out@ =~= old(out)@ + dec_text(n as nat));
    }
}

/// The decimal rendering of `n` as an owned string.
pub fn usize_text(n: usize) -> (r: String)
    ensures
        r@ == dec_text(n as nat),
{
    let mut r = String::new();
    push_usize(&mut r, n);
    assert(r@ =~= dec_text(n as nat));
    r
}

/// The characters of `s`, in order.
pub fn str_chars(s: &str) -> (r: Vec<char>)
    ensures
        r@ == s@,
{
    let mut r: Vec<char> = Vec::new();
    for c in it: s.chars()
        invariant
            it.seq() == s@,
            r@ == s@.take(it.index() as int),
    {
        r.push(c);
    }
    assert(r@ =~= s@);
    r
}

/// The string made of the characters `v[from..to]`.
pub fn chars_text(v: &Vec<char>, from: usize, to: usize) -> (r: String)
    requires
        from <= to <= v.len(),
    ensures
        r@ == v@.subrange(from as int, to as int),
{
    let mut r = String::new();
    let mut i: usize = from;
    while i < to
        invariant
            from <= i <= to <= v.len(),
            r@ == v@.subrange(from as int, i as int),
        decreases to - i,
    {
        push_char(&mut r, v[i]);
        i += 1;
        assert(r@ =~= v@.subrange(from as int, i as int));
    }
    r
}

/// The string that holds exactly the characters of `v`.
pub fn chars_string(v: &Vec<char>) -> (r: String)
    ensures
        r@ == v@,
{
    let r = chars_text(v, 0, v.len());
    assert(v@.subrange(0, v.len() as int) =~= v@);
    r
}

/// An owned copy of a string slice.
pub fn owned(s: &str) -> (r: String)
    ensures
        r@ == s@,
{
    s.to_owned()
}

/// Joins the strings of `parts` with single spaces.
pub fn join_space(parts: &Vec<String>) -> (r: String)
    ensures
        r@ == join_with(texts(parts@), " "@),
{
    let mut r = String::new();
    let mut i: usize = 0;
    while i < parts.len()
        invariant
            i <= parts.len(),
            r@ == join_with(texts(parts@).take(i as int), " "@),
        decreases parts.len() - i,
    {
        let ghost before = texts(parts@).take(i as int);
        let ghost after = texts(parts@).take(i + 1);
        proof {
            assert(after.drop_last() =~= before);
            assert(after.last() == parts@[i as int]@);
        }
        if i > 0 {
            r.append(" ");
        } else {
            proof {
                assert(before =~= Seq::<Seq<char>>::empty());
                assert(r@ =~= Seq::<char>::empty());
                assert(after.len() == 1);
                assert(Seq::<char>::empty() + parts@[i as int]@ =~= parts@[i as int]@);
            }
        }
        r.append(parts[i].as_str());
        i += 1;
    }
    assert(texts(parts@).take(parts.len() as int) =~= texts(parts@));
    r
}

/// Whether `s` is a string literal of the target language.
pub fn is_string(s: &str) -> (r: bool)
    ensures
        r == is_string_text(s@),
{
    let v = str_chars(s);
    v.len() >= 2 && v[0] == '"' && v[v.len() - 1] == '"'
}


/// Whether `c` is white space, as Unicode's property `White_Space` has it.
pub open spec fn is_space_char(c: char) -> bool {
    let n = c as u32;
    (0x09 <= n && n <= 0x0d) || n == 0x20 || n == 0x85 || n == 0xa0 || n == 0x1680 || (0x2000 <= n
        && n <= 0x200a) || n == 0x2028 || n == 0x2029 || n == 0x202f || n == 0x205f || n == 0x3000
}

pub fn is_space(c: char) -> (r: bool)
    ensures
        r == is_space_char(c),
{
    let n = c as u32;
    (0x09 <= n && n <= 0x0d) || n == 0x20 || n == 0x85 || n == 0xa0 || n == 0x1680 || (0x2000 <= n
        && n <= 0x200a) || n == 0x2028 || n == 0x2029 || n == 0x202f || n == 0x205f || n == 0x3000
}

/// Whether every character of `s` is a decimal digit.
pub open spec fn all_digits(s: Seq<char>) -> bool {
    forall|i: int| 0 <= i < s.len() ==> is_digit_char(#[trigger] s[i])
}

/// The number that `s` writes in decimal, where `s` is a non-empty run of
/// digits whose value fits the machine word.
pub open spec fn parse_dec_text(s: Seq<char>) -> Option<usize> {
    if s.len() > 0 && all_digits(s) && dec_value(s) <= usize::MAX {
        Some(dec_value(s) as usize)
    } else {
        None
    }
}

/// The value of a prefix is at most the value of the whole.
pub proof fn lemma_dec_value_prefix(s: Seq<char>, k: int)
    requires
        0 <= k <= s.len(),
    ensures
        dec_value(s.take(k)) <= dec_value(s),
    decreases s.len() - k,
{
    if k < s.len() {
        assert(s.take(k + 1).drop_last() =~= s.take(k));
        lemma_dec_value_prefix(s, k + 1);
    } else {
        assert(s.take(k) =~= s);
    }
}

pub fn digit_of(c: char) -> (r: Option<usize>)
    ensures
        r is Some <==> is_digit_char(c),
        r is Some ==> r->Some_0 == digit_value(c) && r->Some_0 < 10,
{
    if c == '0' {
        Some(0)
    } else if c == '1' {
        Some(1)
    } else if c == '2' {
        Some(2)
    } else if c == '3' {
        Some(3)
    } else if c == '4' {
        Some(4)
    } else if c == '5' {
        Some(5)
    } else if c == '6' {
        Some(6)
    } else if c == '7' {
        Some(7)
    } else if c == '8' {
        Some(8)
    } else if c == '9' {
        Some(9)
    } else {
        None
    }
}

/// Reads an unsigned decimal number.
pub fn parse_dec(v: &Vec<char>) -> (r: Option<usize>)
    ensures
        r == parse_dec_text(v@),
{
    if v.len() == 0 {
        return None;
    }
    let mut acc: usize = 0;
    let mut i: usize = 0;
    while i < v.len()
        invariant
            i <= v.len(),
            all_digits(v@.take(i as int)),
            acc == dec_value(v@.take(i as int)),
        decreases v.len() - i,
    {
        proof {
            assert(v@.take(i + 1).drop_last() =~= v@.take(i as int));
            assert(v@.take(i + 1).last() == v@[i as int]);
        }
        let d = match digit_of(v[i]) {
            Some(d) => d,
            None => {
                assert(!all_digits(v@)) by {
                    assert(!is_digit_char(v@[i as int]));
                }
                return None;
            },
        };
        if acc > (usize::MAX - d) / 10 {
            proof {
                lemma_dec_value_prefix(v@, i + 1);
                assert(dec_value(v@.take(i + 1)) == acc * 10 + d);
            }
            return None;
        }
        acc = acc * 10 + d;
        i += 1;
        proof {
            assert forall|j: int| 0 <= j < i implies is_digit_char(
                #[trigger] v@.take(i as int)[j],
            ) by {
                if j < i - 1 {
                    assert(v@.take(i - 1)[j] == v@[j]);
                }
            }
        }
    }
    assert(v@.take(v.len() as int) =~= v@);
    Some(acc)
}

/// The elements of `v` in the opposite order.
pub fn reversed<T>(v: Vec<T>) -> (r: Vec<T>)
    ensures
        r@ == v@.reverse(),
{
    let ghost s = v@;
    let mut rest = v;
    let mut out: Vec<T> = Vec::new();
    while rest.len() > 0
        invariant
            rest.len() + out.len() == s.len(),
            rest@ == s.take(rest.len() as int),
            forall|i: int| 0 <= i < out.len() ==> out@[i] == s[s.len() - 1 - i],
        decreases rest.len(),
    {
        let x = rest.pop().unwrap();
        out.push(x);
        assert(rest@ =~= s.take(rest.len() as int));
    }
    assert(out@ =~= s.reverse());
    out
}

/// The value of a digit in a base up to 16; none for any other character.
pub open spec fn radix_digit(c: char, base: nat) -> Option<nat> {
    let d: Option<nat> = if '0' <= c && c <= '9' {
        Some((c as u32 - '0' as u32) as nat)
    } else if 'a' <= c && c <= 'f' {
        Some((c as u32 - 'a' as u32 + 10) as nat)
    } else if 'A' <= c && c <= 'F' {
        Some((c as u32 - 'A' as u32 + 10) as nat)
    } else {
        None
    };
    match d {
        Some(n) => if n < base {
            Some(n)
        } else {
            None
        },
        None => None,
    }
}

/// Whether every character of `s` is a digit of the base.
pub open spec fn all_radix_digits(s: Seq<char>, base: nat) -> bool {
    forall|i: int| 0 <= i < s.len() ==> radix_digit(#[trigger] s[i], base) is Some
}

/// The number that the digits of `s` write in the base.
pub open spec fn radix_value(s: Seq<char>, base: nat) -> nat
    decreases s.len(),
{
    if s.len() == 0 {
        0
    } else {
        radix_value(s.drop_last(), base) * base + (match radix_digit(s.last(), base) {
            Some(d) => d,
            None => 0,
        })
    }
}

/// The value of a prefix is at most the value of the whole.
pub proof fn lemma_radix_value_prefix(s: Seq<char>, base: nat, k: int)
    requires
        0 <= k <= s.len(),
        base >= 1,
    ensures
        radix_value(s.take(k), base) <= radix_value(s, base),
    decreases s.len() - k,
{
    if k < s.len() {
        assert(s.take(k + 1).drop_last() =~= s.take(k));
        lemma_radix_value_prefix(s, base, k + 1);
        assert(radix_value(s.take(k), base) <= radix_value(s.take(k), base) * base)
            by (nonlinear_arith)
            requires
                base >= 1,
        ;
    } else {
        assert(s.take(k) =~= s);
    }
}

/// Why a text is no unsigned number of the machine.
#[derive(Debug, PartialEq, Eq, Structural, Clone, Copy)]
pub enum UIntError {
    /// There is no digit.
    Empty,
    /// A character is no digit of the base.
    InvalidDigit,
    /// The value does not fit the machine word.
    Overflow,
}

/// The number that the digits of `s` write in the base, where `s` is a
/// run of digits of the base, not empty, whose value fits the machine word.
pub open spec fn radix_read(s: Seq<char>, base: nat) -> Result<usize, UIntError> {
    if s.len() == 0 {
        Err(UIntError::Empty)
    } else if !all_radix_digits(s, base) {
        Err(UIntError::InvalidDigit)
    } else if radix_value(s, base) > usize::MAX {
        Err(UIntError::Overflow)
    } else {
        Ok(radix_value(s, base) as usize)
    }
}

fn digit_in_radix(c: char, base: usize) -> (r: Option<usize>)
    requires
        2 <= base <= 16,
    ensures
        match radix_digit(c, base as nat) {
            Some(d) => r == Some(d as usize),
            None => r is None,
        },
{
    let n = c as u32;
    let d: u32 = if '0' <= c && c <= '9' {
        n - ('0' as u32)
    } else if 'a' <= c && c <= 'f' {
        n - ('a' as u32) + 10
    } else if 'A' <= c && c <= 'F' {
        n - ('A' as u32) + 10
    } else {
        return None;
    };
    if (d as usize) < base {
        Some(d as usize)
    } else {
        None
    }
}

/// Reads the digits `v[from..]` as a number in the base.
pub fn read_radix(v: &Vec<char>, from: usize, base: usize) -> (r: Result<usize, UIntError>)
    requires
        from <= v.len(),
        2 <= base <= 16,
    ensures
        r == radix_read(v@.skip(from as int), base as nat),
{
    if from >= v.len() {
        return Err(UIntError::Empty);
    }
    let ghost s = v@.skip(from as int);
    let mut k: usize = from;
    while k < v.len()
        invariant
            from <= k <= v.len(),
            2 <= base <= 16,
            s == v@.skip(from as int),
            forall|j: int| 0 <= j < k - from ==> radix_digit(#[trigger] s[j], base as nat) is Some,
        decreases v.len() - k,
    {
        if digit_in_radix(v[k], base).is_none() {
            assert(!all_radix_digits(s, base as nat)) by {
                assert(s[k - from] == v@[k as int]);
            }
            return Err(UIntError::InvalidDigit);
        }
        assert(s[k - from] == v@[k as int]);
        k += 1;
    }
    assert(all_radix_digits(s, base as nat));
    let mut acc: usize = 0;
    let mut i: usize = from;
    assert(s.take(0) =~= Seq::<char>::empty());
    while i < v.len()
        invariant
            from <= i <= v.len(),
            2 <= base <= 16,
            s == v@.skip(from as int),
            all_radix_digits(s, base as nat),
            acc == radix_value(s.take(i - from), base as nat),
        decreases v.len() - i,
    {
        proof {
            assert(s.take(i - from + 1).drop_last() =~= s.take(i - from));
            assert(s.take(i - from + 1).last() == v@[i as int]);
            assert(s[i - from] == v@[i as int]);
        }
        let d = match digit_in_radix(v[i], base) {
            Some(d) => d,
            None => 0,
        };
        if acc > (usize::MAX - d) / base {
            proof {
                lemma_radix_value_prefix(s, base as nat, i - from + 1);
                assert(acc * base + d > usize::MAX) by (nonlinear_arith)
                    requires
                        acc > (usize::MAX - d) / (base as int),
                        base >= 2,
                        d <= usize::MAX,
                ;
            }
            return Err(UIntError::Overflow);
        }
        assert(acc * base + d <= usize::MAX) by (nonlinear_arith)
            requires
                acc <= (usize::MAX - d) / (base as int),
                base >= 2,
                d <= usize::MAX,
        ;
        acc = acc * base + d;
        i += 1;
    }
    assert(s.take(v.len() - from) =~= s);
    Ok(acc)
}

} // verus!
