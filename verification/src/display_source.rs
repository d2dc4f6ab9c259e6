//! The buffer that source text is written to, with its indentation.

use vstd::prelude::*;
use vstd::std_specs::cmp::PartialEqSpecImpl;
use crate::text::{owned, push_char, str_chars, chars_text, str_eq};

verus! {

pub const LF: char = '\n';

/// What writing source text carries along.
#[derive(Debug, Clone, PartialEq)]
pub struct DisplaySourceMeta {
    indent_str: String,
    indent_level: usize,
    /// Set at the start of a line: the next text is written behind the
    /// indentation.
    do_indent_flag: bool,
    space_str: String,
    buffer: String,
}

/// The mathematical form of a [`DisplaySourceMeta`].
pub struct DisplayV {
    pub indent: Seq<char>,
    pub level: usize,
    pub flag: bool,
    pub space: Seq<char>,
    pub buffer: Seq<char>,
}

/// `s`, `n` times.
pub open spec fn repeated(s: Seq<char>, n: nat) -> Seq<char>
    decreases n,
{
    if n == 0 {
        Seq::empty()
    } else {
        repeated(s, (n - 1) as nat) + s
    }
}

impl DisplayV {
    /// The state in which writing starts: four spaces for each level, no
    /// level yet, at the start of a line.
    pub open spec fn fresh() -> DisplayV {
        DisplayV {
            indent: "    "@,
            level: 0,
            flag: true,
            space: " "@,
            buffer: Seq::empty(),
        }
    }

    /// Writes the indentation if the line has none yet.
    pub open spec fn indented(self) -> DisplayV {
        if self.flag {
            DisplayV {
                buffer: self.buffer + repeated(self.indent, self.level as nat),
                flag: false,
                ..self
            }
        } else {
            self
        }
    }

    /// Writes `s`, behind the indentation at the start of a line.
    pub open spec fn pushed(self, s: Seq<char>) -> DisplayV {
        let m = self.indented();
        DisplayV { buffer: m.buffer + s, ..m }
    }

    /// Ends the line.
    pub open spec fn lf(self) -> DisplayV {
        DisplayV { buffer: self.buffer.push('\n'), flag: true, ..self }
    }

    /// Takes back the end of the line, if the buffer ends with one.
    pub open spec fn lf_popped(self) -> (DisplayV, bool) {
        if self.buffer.len() > 0 && self.buffer.last() == '\n' {
            (DisplayV { buffer: self.buffer.drop_last(), flag: false, ..self }, true)
        } else {
            (self, false)
        }
    }

    /// Writes the blank between two words.
    pub open spec fn spaced(self) -> DisplayV {
        DisplayV { buffer: self.buffer + self.space, ..self }
    }

    /// One level deeper; the deepest level there is stays.
    pub open spec fn entered(self) -> DisplayV {
        if self.level < usize::MAX {
            DisplayV { level: (self.level + 1) as usize, ..self }
        } else {
            self
        }
    }

    /// One level up; the outermost level stays.
    pub open spec fn left(self) -> DisplayV {
        if self.level > 0 {
            DisplayV { level: (self.level - 1) as usize, ..self }
        } else {
            self
        }
    }
}

impl View for DisplaySourceMeta {
    type V = DisplayV;

    closed spec fn view(&self) -> DisplayV {
        DisplayV {
            indent: self.indent_str@,
            level: self.indent_level,
            flag: self.do_indent_flag,
            space: self.space_str@,
            buffer: self.buffer@,
        }
    }
}

impl PartialEq<&str> for DisplaySourceMeta {
    fn eq(&self, other: &&str) -> (r: bool) {
        str_eq(self.buffer.as_str(), *other)
    }
}

impl PartialEqSpecImpl<&str> for DisplaySourceMeta {
    open spec fn obeys_eq_spec() -> bool {
        true
    }

    open spec fn eq_spec(&self, other: &&str) -> bool {
        self@.buffer == (*other)@
    }
}

impl PartialEq<str> for DisplaySourceMeta {
    fn eq(&self, other: &str) -> (r: bool) {
        str_eq(self.buffer.as_str(), other)
    }
}

impl PartialEqSpecImpl<str> for DisplaySourceMeta {
    open spec fn obeys_eq_spec() -> bool {
        true
    }

    open spec fn eq_spec(&self, other: &str) -> bool {
        self@.buffer == other@
    }
}

impl core::ops::Deref for DisplaySourceMeta {
    type Target = str;

    /// The text of the buffer.
    fn deref(&self) -> (r: &str)
        ensures
            r@ == self@.buffer,
    {
        self.buffer.as_str()
    }
}

/// The standard library's `String::pop`: takes the last character off.
#[verifier::external_body]
fn pop_char(s: &mut String) -> (r: Option<char>)
    ensures
        old(s)@.len() == 0 ==> r is None && final(s)@ == old(s)@,
        old(s)@.len() > 0 ==> r == Some(old(s)@.last()) && final(s)@ == old(s)@.drop_last(),
{
    s.pop()
}

/// The standard library's `str::ends_with` for one character.
#[verifier::external_body]
fn ends_with_char(s: &str, c: char) -> (r: bool)
    ensures
        r == (s@.len() > 0 && s@.last() == c),
{
    s.ends_with(c)
}

impl Default for DisplaySourceMeta {
    fn default() -> (r: Self)
        ensures
            r@ == DisplayV::fresh(),
    {
        DisplaySourceMeta {
            indent_str: owned("    "),
            indent_level: 0,
            do_indent_flag: true,
            space_str: owned(" "),
            buffer: String::new(),
        }
    }
}

impl DisplaySourceMeta {
    pub fn new() -> (r: Self)
        ensures
            r@ == DisplayV::fresh(),
    {
        DisplaySourceMeta::default()
    }

    /// Goes one level deeper.
    pub fn block_enter(&mut self)
        ensures
            final(self)@ == old(self)@.entered(),
    {
        if self.indent_level < usize::MAX {
            self.indent_level += 1;
        }
    }

    /// Goes one level up.
    pub fn block_exit(&mut self)
        ensures
            final(self)@ == old(self)@.left(),
    {
        if self.indent_level > 0 {
            self.indent_level -= 1;
        }
    }

    /// Writes `s`, behind the indentation at the start of a line.
    pub fn push(&mut self, s: &str)
        ensures
            final(self)@ == old(self)@.pushed(s@),
    {
        self.check_indent();
        self.buffer.append(s);
    }

    /// Writes the indentation if the line has none yet.
    pub fn check_indent(&mut self)
        ensures
            final(self)@ == old(self)@.indented(),
    {
        if self.do_indent_flag {
            self.push_indent();
            self.do_indent_flag_off();
        }
    }

    /// Ends the line.
    pub fn add_lf(&mut self)
        ensures
            final(self)@ == old(self)@.lf(),
    {
        push_char(&mut self.buffer, LF);
        self.do_indent_flag_on();
    }

    /// Takes back the end of the line, if the buffer ends with one, and
    /// says whether it did.
    #[must_use]
    pub fn pop_lf(&mut self) -> (r: bool)
        ensures
            (final(self)@, r) == old(self)@.lf_popped(),
    {
        if ends_with_char(self.buffer.as_str(), LF) {
            let _ = pop_char(&mut self.buffer);
            self.do_indent_flag_off();
            true
        } else {
            false
        }
    }

    /// Writes the blank between two words.
    pub fn add_space(&mut self)
        ensures
            final(self)@ == old(self)@.spaced(),
    {
        let space = self.space_str.clone();
        self.buffer.append(space.as_str());
    }

    fn push_indent(&mut self)
        ensures
            final(self)@ == (DisplayV {
                buffer: old(self)@.buffer + repeated(old(self)@.indent, old(self)@.level as nat),
                ..old(self)@
            }),
    {
        let indent = self.indent_str.clone();
        let ghost start = self.buffer@;
        let mut i: usize = 0;
        assert(start + repeated(indent@, 0) =~= start);
        while i < self.indent_level
            invariant
                i <= self.indent_level,
                indent@ == self.indent_str@,
                self.indent_str == old(self).indent_str,
                self.indent_level == old(self).indent_level,
                self.do_indent_flag == old(self).do_indent_flag,
                self.space_str == old(self).space_str,
                start == old(self).buffer@,
                self.buffer@ == start + repeated(indent@, i as nat),
            decreases self.indent_level - i,
        {
            self.buffer.append(indent.as_str());
            i += 1;
            assert(self.buffer@ =~= start + repeated(indent@, i as nat));
        }
    }

    fn do_indent_flag_off(&mut self)
        ensures
            final(self)@ == (DisplayV { flag: false, ..old(self)@ }),
    {
        self.do_indent_flag = false
    }

    fn do_indent_flag_on(&mut self)
        ensures
            final(self)@ == (DisplayV { flag: true, ..old(self)@ }),
    {
        self.do_indent_flag = true
    }

    pub fn indent_str(&self) -> (r: &str)
        ensures
            r@ == self@.indent,
    {
        self.indent_str.as_str()
    }

    pub fn indent_level(&self) -> (r: usize)
        ensures
            r == self@.level,
    {
        self.indent_level
    }

    pub fn set_indent_str(&mut self, indent_str: String)
        ensures
            final(self)@ == (DisplayV { indent: indent_str@, ..old(self)@ }),
    {
        self.indent_str = indent_str;
    }

    pub fn buffer(&self) -> (r: &str)
        ensures
            r@ == self@.buffer,
    {
        self.buffer.as_str()
    }

    pub fn into_buffer(self) -> (r: String)
        ensures
            r@ == self@.buffer,
    {
        self.buffer
    }

    pub fn set_space_str(&mut self, space_str: String)
        ensures
            final(self)@ == (DisplayV { space: space_str@, ..old(self)@ }),
    {
        self.space_str = space_str;
    }

    pub fn space_str(&self) -> (r: &str)
        ensures
            r@ == self@.space,
    {
        self.space_str.as_str()
    }

    /// Runs `f` one level deeper.
    pub fn do_block<F: FnOnce(&mut Self)>(&mut self, f: F)
        requires
            forall|m: &mut Self| (*m)@ == old(self)@.entered() ==> #[trigger] f.requires((m,)),
        ensures
            exists|m: &mut Self|
                (*m)@ == old(self)@.entered() && #[trigger] f.ensures((m,), ()) && final(self)@
                    == (*final(m))@.left(),
    {
        self.block_enter();
        f(self);
        self.block_exit();
    }
}

/// What was written between the states `before` and `after`.
pub open spec fn written_since(before: DisplayV, after: DisplayV) -> Seq<char> {
    if before.buffer.len() <= after.buffer.len() {
        after.buffer.skip(before.buffer.len() as int)
    } else {
        Seq::empty()
    }
}

/// What can be written as source text.
pub trait DisplaySource {
    /// What writing does to the buffer.
    spec fn shown(&self, m: DisplayV) -> DisplayV;

    /// Writes the value to the buffer.
    fn display_source(&self, meta: &mut DisplaySourceMeta)
        ensures
            final(meta)@ == self.shown(old(meta)@),
    ;

    /// Writes the value to the buffer and gives what this call wrote.
    fn display_source_and_get(&self, meta: &mut DisplaySourceMeta) -> (r: String)
        ensures
            final(meta)@ == self.shown(old(meta)@),
            r@ == written_since(old(meta)@, final(meta)@),
    ;
}

impl DisplaySourceMeta {
    /// The text of the buffer from the character `start` on.
    pub fn written_from(&self, start: usize) -> (r: String)
        ensures
            r@ == (if start <= self@.buffer.len() {
                self@.buffer.skip(start as int)
            } else {
                Seq::empty()
            }),
    {
        let v = str_chars(self.buffer.as_str());
        if start <= v.len() {
            let r = chars_text(&v, start, v.len());
            assert(v@.subrange(start as int, v.len() as int) =~= v@.skip(start as int));
            r
        } else {
            String::new()
        }
    }

    /// The number of characters in the buffer.
    pub fn len(&self) -> (r: usize)
        ensures
            r == self@.buffer.len(),
    {
        str_chars(self.buffer.as_str()).len()
    }
}

/// Whether `mid` and `after` hold a state for each of `n` items.
pub open spec fn paired(mid: Seq<DisplayV>, after: Seq<DisplayV>, n: nat) -> bool {
    mid.len() == n && after.len() == n
}

impl DisplaySourceMeta {
    /// Writes the items in turn, and calls `split` between each two of
    /// them: `after[i]` is the state behind the item `i`, and `mid[i]` the
    /// state in front of it, which `split` made of the state behind the
    /// item before.
    pub fn display_source_iter_by_splitter<T: DisplaySource, F: Fn(&mut Self)>(
        &mut self,
        split: F,
        items: &Vec<T>,
    )
        requires
            forall|m: &mut Self| #[trigger] split.requires((m,)),
        ensures
            items.len() == 0 ==> final(self)@ == old(self)@,
            items.len() > 0 ==> exists|mid: Seq<DisplayV>, after: Seq<DisplayV>|
                {
                    &&& #[trigger] paired(mid, after, items.len() as nat)
                    &&& mid[0] == old(self)@
                    &&& after.last() == final(self)@
                    &&& forall|i: int|
                        0 <= i < items.len() ==> #[trigger] after[i] == items@[i].shown(mid[i])
                    &&& forall|i: int|
                        1 <= i < items.len() ==> exists|m: &mut Self|
                            (*m)@ == after[i - 1] && #[trigger] split.ensures((m,), ())
                                && (*final(m))@ == #[trigger] mid[i]
                },
    {
        let ghost mut mid: Seq<DisplayV> = Seq::empty();
        let ghost mut after: Seq<DisplayV> = Seq::empty();
        let mut i: usize = 0;
        while i < items.len()
            invariant
                i <= items.len(),
                forall|m: &mut Self| #[trigger] split.requires((m,)),
                mid.len() == i,
                after.len() == i,
                i == 0 ==> self@ == old(self)@,
                i > 0 ==> mid[0] == old(self)@ && after.last() == self@,
                forall|k: int| 0 <= k < i ==> #[trigger] after[k] == items@[k].shown(mid[k]),
                forall|k: int|
                    1 <= k < i ==> exists|m: &mut Self|
                        (*m)@ == after[k - 1] && #[trigger] split.ensures((m,), ())
                            && (*final(m))@ == #[trigger] mid[k],
            decreases items.len() - i,
        {
            let ghost mid0 = mid;
            let ghost after0 = after;
            if i > 0 {
                split(self);
            }
            proof {
                mid = mid.push(self@);
            }
            items[i].display_source(self);
            proof {
                after = after.push(self@);
                assert forall|k: int| 1 <= k < i + 1 implies exists|m: &mut Self|
                    (*m)@ == after[k - 1] && #[trigger] split.ensures((m,), ()) && (*final(m))@
                        == #[trigger] mid[k] by {
                    if k < i {
                        assert(mid[k] == mid0[k]);
                        assert(after[k - 1] == after0[k - 1]);
                    }
                }
            }
            i += 1;
        }
        proof {
            if items.len() > 0 {
                assert(paired(mid, after, items.len() as nat));
            }
        }
    }
}

impl<T: DisplaySource> DisplaySource for &T {
    open spec fn shown(&self, m: DisplayV) -> DisplayV {
        (**self).shown(m)
    }

    fn display_source(&self, meta: &mut DisplaySourceMeta) {
        (**self).display_source(meta)
    }

    fn display_source_and_get(&self, meta: &mut DisplaySourceMeta) -> (r: String) {
        (**self).display_source_and_get(meta)
    }
}

} // verus!
