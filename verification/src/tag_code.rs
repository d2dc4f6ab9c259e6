//! The tag assembler: emitted lines that may carry symbolic tags, and the
//! resolution of those tags to line numbers.

use vstd::prelude::*;
use vstd::std_specs::hash::*;
use std::collections::HashMap;
use crate::text::{
    dec_text,
    owned,
    push_usize,
    str_chars,
    chars_text,
    chars_string,
    str_eq,
    join_with,
    join_space,
    texts,
    is_space,
    is_space_char,
    parse_dec,
    parse_dec_text,
};

verus! {

broadcast use group_hash_axioms;

/// A jump: the tag it goes to and the text of its condition.
#[derive(Debug, PartialEq, Clone)]
pub struct Jump(pub usize, pub String);

/// A value together with the tags that point at it.
#[derive(Debug, PartialEq, Clone)]
pub struct TagBox<T> {
    pub tags: Vec<usize>,
    pub data: T,
}

/// One entry of the tagged code.
#[derive(Debug, PartialEq, Clone)]
pub enum TagLine {
    Jump(TagBox<Jump>),
    Line(TagBox<String>),
    /// Declares that the tag points at the next entry that is an instruction.
    TagDown(usize),
}

/// The mathematical form of a [`TagLine`].
pub enum TagLineV {
    Jump { tags: Seq<usize>, to: usize, cond: Seq<char> },
    Line { tags: Seq<usize>, text: Seq<char> },
    TagDown(usize),
}

impl<T> TagBox<T> {
    /// A value that no tag points at.
    pub fn new(data: T) -> (r: Self)
        ensures
            r.tags@ == Seq::<usize>::empty(),
            r.data == data,
    {
        TagBox { tags: Vec::new(), data }
    }

    /// The first tag that points at the value, if there is one.
    pub fn tag(&self) -> (r: Option<usize>)
        ensures
            r == (if self.tags@.len() == 0 {
                None
            } else {
                Some(self.tags@[0])
            }),
    {
        if self.tags.len() == 0 {
            None
        } else {
            Some(self.tags[0])
        }
    }

    /// All tags that point at the value.
    pub fn tags(&self) -> (r: &Vec<usize>)
        ensures
            r == &self.tags,
    {
        &self.tags
    }

    pub fn data(&self) -> (r: &T)
        ensures
            r == &self.data,
    {
        &self.data
    }
}

impl<T> From<T> for TagBox<T> {
    fn from(data: T) -> (r: Self) {
        TagBox::new(data)
    }
}

impl<T> vstd::std_specs::convert::FromSpecImpl<T> for TagBox<T> {
    open spec fn obeys_from_spec() -> bool {
        false
    }

    open spec fn from_spec(data: T) -> Self {
        arbitrary()
    }
}

impl View for TagLine {
    type V = TagLineV;

    open spec fn view(&self) -> TagLineV {
        match *self {
            TagLine::Jump(b) => TagLineV::Jump { tags: b.tags@, to: b.data.0, cond: b.data.1@ },
            TagLine::Line(b) => TagLineV::Line { tags: b.tags@, text: b.data@ },
            TagLine::TagDown(t) => TagLineV::TagDown(t),
        }
    }
}

impl TagLineV {
    /// Whether the entry is an instruction, that is, anything but a `TagDown`.
    pub open spec fn is_code(self) -> bool {
        !(self is TagDown)
    }

    /// The tags that the entry defines.
    pub open spec fn tags(self) -> Seq<usize> {
        match self {
            TagLineV::Jump { tags, .. } => tags,
            TagLineV::Line { tags, .. } => tags,
            TagLineV::TagDown(t) => seq![t],
        }
    }

    /// The same entry with no tag attached.
    pub open spec fn bare(self) -> TagLineV {
        match self {
            TagLineV::Jump { tags, to, cond } => TagLineV::Jump { tags: Seq::empty(), to, cond },
            TagLineV::Line { tags, text } => TagLineV::Line { tags: Seq::empty(), text },
            TagLineV::TagDown(t) => self,
        }
    }

    /// The same entry with `more` added behind its tags.
    pub open spec fn tagged(self, more: Seq<usize>) -> TagLineV {
        match self {
            TagLineV::Jump { tags, to, cond } => TagLineV::Jump { tags: tags + more, to, cond },
            TagLineV::Line { tags, text } => TagLineV::Line { tags: tags + more, text },
            TagLineV::TagDown(t) => self,
        }
    }
}

/// The entry that pads a short branch: the instruction `noop`.
pub open spec fn noop_line() -> TagLineV {
    TagLineV::Line { tags: Seq::empty(), text: "noop"@ }
}

/// The views of a list of entries.
pub open spec fn lines_view(v: Seq<TagLine>) -> Seq<TagLineV> {
    Seq::new(v.len(), |i: int| v[i]@)
}

/// The number of instructions among the entries.
pub open spec fn count_code(s: Seq<TagLineV>) -> nat
    decreases s.len(),
{
    if s.len() == 0 {
        0
    } else {
        count_code(s.drop_last()) + (if s.last().is_code() {
            1nat
        } else {
            0nat
        })
    }
}

pub proof fn lemma_count_code_bound(s: Seq<TagLineV>)
    ensures
        count_code(s) <= s.len(),
    decreases s.len(),
{
    if s.len() > 0 {
        lemma_count_code_bound(s.drop_last());
    }
}

/// Counting instructions distributes over concatenation.
pub proof fn lemma_count_code_concat(a: Seq<TagLineV>, b: Seq<TagLineV>)
    ensures
        count_code(a + b) == count_code(a) + count_code(b),
    decreases b.len(),
{
    if b.len() == 0 {
        assert(a + b =~= a);
    } else {
        lemma_count_code_concat(a, b.drop_last());
        assert((a + b).drop_last() =~= a + b.drop_last());
    }
}

impl Default for TagLine {
    fn default() -> (r: Self)
        ensures
            r@ == noop_line(),
    {
        TagLine::Line(TagBox::new(owned("noop")))
    }
}

impl TagLine {
    pub fn is_tag_down(&self) -> (r: bool)
        ensures
            r == (self@ is TagDown),
    {
        matches!(self, TagLine::TagDown(..))
    }

    pub fn is_jump(&self) -> (r: bool)
        ensures
            r == (self@ is Jump),
    {
        matches!(self, TagLine::Jump(..))
    }

    pub fn is_line(&self) -> (r: bool)
        ensures
            r == (self@ is Line),
    {
        matches!(self, TagLine::Line(..))
    }

    pub fn as_tag_down(&self) -> (r: Option<usize>)
        ensures
            r == (match self@ {
                TagLineV::TagDown(t) => Some(t),
                _ => None,
            }),
    {
        match self {
            TagLine::TagDown(t) => Some(*t),
            _ => None,
        }
    }

    /// The tags attached to an instruction, or the tag of a `TagDown`.
    pub fn tags(&self) -> (r: Vec<usize>)
        ensures
            r@ == self@.tags(),
    {
        match self {
            TagLine::Jump(b) => copy_tags(&b.tags),
            TagLine::Line(b) => copy_tags(&b.tags),
            TagLine::TagDown(t) => {
                let mut v: Vec<usize> = Vec::new();
                v.push(*t);
                v
            },
        }
    }

    /// A copy of the entry.
    pub fn duplicate(&self) -> (r: Self)
        ensures
            r@ == self@,
    {
        match self {
            TagLine::Jump(b) => TagLine::Jump(
                TagBox { tags: copy_tags(&b.tags), data: Jump(b.data.0, b.data.1.clone()) },
            ),
            TagLine::Line(b) => TagLine::Line(
                TagBox { tags: copy_tags(&b.tags), data: b.data.clone() },
            ),
            TagLine::TagDown(t) => TagLine::TagDown(*t),
        }
    }
}

/// A copy of a list of tags.
pub fn copy_tags(v: &Vec<usize>) -> (r: Vec<usize>)
    ensures
        r@ == v@,
{
    let mut r: Vec<usize> = Vec::new();
    let mut i: usize = 0;
    while i < v.len()
        invariant
            i <= v.len(),
            r@ == v@.take(i as int),
        decreases v.len() - i,
    {
        r.push(v[i]);
        i += 1;
        assert(r@ =~= v@.take(i as int));
    }
    assert(v@.take(v.len() as int) =~= v@);
    r
}


/// The tagged code: a list of entries.
#[derive(Debug, PartialEq, Clone)]
pub struct TagCodes {
    lines: Vec<TagLine>,
}

impl View for TagCodes {
    type V = Seq<TagLineV>;

    closed spec fn view(&self) -> Seq<TagLineV> {
        lines_view(self.lines@)
    }
}

/// Records the tags of one entry in the table `m`: each tag is bound to the
/// instruction number `n`, and a tag that the table already holds is the error.
pub open spec fn scan_tags(m: Map<usize, usize>, tags: Seq<usize>, n: usize) -> Result<
    Map<usize, usize>,
    usize,
>
    decreases tags.len(),
{
    if tags.len() == 0 {
        Ok(m)
    } else {
        match scan_tags(m, tags.drop_last(), n) {
            Err(t) => Err(t),
            Ok(m1) => if m1.contains_key(tags.last()) {
                Err(tags.last())
            } else {
                Ok(m1.insert(tags.last(), n))
            },
        }
    }
}

/// The table from each tag to the number of the instruction it points at:
/// the number of instructions that stand before the entry that defines the tag.
/// A tag defined twice is an error, reported with the index of the entry that
/// defines it again.
pub open spec fn scan_lines(s: Seq<TagLineV>) -> Result<Map<usize, usize>, (usize, usize)>
    decreases s.len(),
{
    if s.len() == 0 {
        Ok(Map::empty())
    } else {
        match scan_lines(s.drop_last()) {
            Err(e) => Err(e),
            Ok(m) => match scan_tags(m, s.last().tags(), count_code(s.drop_last()) as usize) {
                Err(t) => Err(((s.len() - 1) as usize, t)),
                Ok(m2) => Ok(m2),
            },
        }
    }
}

/// The line number that a jump to `to` gets: the instruction the tag points
/// at, or 0 where the tag is not defined or points behind the last instruction.
pub open spec fn jump_target(m: Map<usize, usize>, to: usize, n: nat) -> nat {
    if m.contains_key(to) && m[to] < n {
        m[to] as nat
    } else {
        0
    }
}

/// The text of a jump once its target is known.
pub open spec fn jump_text(target: nat, cond: Seq<char>) -> Seq<char> {
    "jump "@ + dec_text(target) + " "@ + cond
}

/// The final text of one instruction.
pub open spec fn line_text(l: TagLineV, m: Map<usize, usize>, n: nat) -> Seq<char> {
    match l {
        TagLineV::Jump { to, cond, .. } => jump_text(jump_target(m, to, n), cond),
        TagLineV::Line { text, .. } => text,
        TagLineV::TagDown(_) => Seq::empty(),
    }
}

/// The final texts of the instructions of `s`, in order.
pub open spec fn emit(s: Seq<TagLineV>, m: Map<usize, usize>, n: nat) -> Seq<Seq<char>>
    decreases s.len(),
{
    if s.len() == 0 {
        Seq::empty()
    } else if s.last().is_code() {
        emit(s.drop_last(), m, n).push(line_text(s.last(), m, n))
    } else {
        emit(s.drop_last(), m, n)
    }
}

/// The numbered program that the tagged code stands for.
pub open spec fn resolve(s: Seq<TagLineV>) -> Result<Seq<Seq<char>>, (usize, usize)> {
    match scan_lines(s) {
        Ok(m) => Ok(emit(s, m, count_code(s))),
        Err(e) => Err(e),
    }
}

/// One `TagDown` for each tag.
pub open spec fn tag_downs(tags: Seq<usize>) -> Seq<TagLineV> {
    Seq::new(tags.len(), |i: int| TagLineV::TagDown(tags[i]))
}

/// Folds every `TagDown` into the next instruction; `pending` holds the tags
/// met since the last instruction. Tags behind the last instruction stay.
pub open spec fn fold_from(s: Seq<TagLineV>, pending: Seq<usize>) -> Seq<TagLineV>
    decreases s.len(),
{
    if s.len() == 0 {
        tag_downs(pending)
    } else {
        match s[0] {
            TagLineV::TagDown(t) => fold_from(s.drop_first(), pending.push(t)),
            _ => seq![s[0].tagged(pending)] + fold_from(s.drop_first(), Seq::empty()),
        }
    }
}

pub open spec fn fold_tags(s: Seq<TagLineV>) -> Seq<TagLineV> {
    fold_from(s, Seq::empty())
}

/// Puts every attached tag back in front of its instruction as a `TagDown`.
pub open spec fn unfold_tags(s: Seq<TagLineV>) -> Seq<TagLineV>
    decreases s.len(),
{
    if s.len() == 0 {
        Seq::empty()
    } else if s.last().is_code() {
        unfold_tags(s.drop_last()) + tag_downs(s.last().tags()).push(s.last().bare())
    } else {
        unfold_tags(s.drop_last()).push(s.last())
    }
}

/// Every tag that an entry of a well-scanned code defines is bound to the
/// number of instructions that stand before that entry.
pub proof fn law_tag_points_at_next(s: Seq<TagLineV>, i: int, k: int)
    requires
        scan_lines(s) is Ok,
        s.len() <= usize::MAX,
        0 <= i < s.len(),
        0 <= k < s[i].tags().len(),
    ensures
        scan_lines(s)->Ok_0.contains_key(s[i].tags()[k]),
        scan_lines(s)->Ok_0[s[i].tags()[k]] == count_code(s.take(i)),
    decreases s.len(),
{
    let prev = s.drop_last();
    let m = scan_lines(prev)->Ok_0;
    let n = count_code(prev) as usize;
    lemma_count_code_bound(prev);
    lemma_scan_tags_keeps(m, s.last().tags(), n);
    if i < s.len() - 1 {
        law_tag_points_at_next(prev, i, k);
        assert(prev[i] == s[i]);
        assert(prev.take(i) =~= s.take(i));
    } else {
        assert(s.take(i) =~= prev);
        lemma_scan_tags_binds(m, s.last().tags(), n, k);
    }
}

/// Scanning more tags keeps what the table held.
pub proof fn lemma_scan_tags_keeps(m: Map<usize, usize>, tags: Seq<usize>, n: usize)
    requires
        scan_tags(m, tags, n) is Ok,
    ensures
        forall|t: usize| #[trigger]
            m.contains_key(t) ==> scan_tags(m, tags, n)->Ok_0.contains_key(t) && scan_tags(
                m,
                tags,
                n,
            )->Ok_0[t] == m[t],
    decreases tags.len(),
{
    if tags.len() > 0 {
        lemma_scan_tags_keeps(m, tags.drop_last(), n);
        let m1 = scan_tags(m, tags.drop_last(), n)->Ok_0;
        assert forall|t: usize| #[trigger] m.contains_key(t) implies scan_tags(
            m,
            tags,
            n,
        )->Ok_0.contains_key(t) && scan_tags(m, tags, n)->Ok_0[t] == m[t] by {
            assert(m1.contains_key(t));
            assert(t != tags.last());
        }
    }
}

/// Each scanned tag is bound to `n`.
pub proof fn lemma_scan_tags_binds(m: Map<usize, usize>, tags: Seq<usize>, n: usize, k: int)
    requires
        scan_tags(m, tags, n) is Ok,
        0 <= k < tags.len(),
    ensures
        scan_tags(m, tags, n)->Ok_0.contains_key(tags[k]),
        scan_tags(m, tags, n)->Ok_0[tags[k]] == n,
    decreases tags.len(),
{
    if k < tags.len() - 1 {
        lemma_scan_tags_binds(m, tags.drop_last(), n, k);
    }
}

impl TagLine {
    /// The entry with `more` added behind its tags.
    pub fn with_tags(&self, more: &Vec<usize>) -> (r: Self)
        ensures
            r@ == self@.tagged(more@),
    {
        match self {
            TagLine::Jump(b) => {
                let mut tags = copy_tags(&b.tags);
                push_tags(&mut tags, more);
                TagLine::Jump(TagBox { tags, data: Jump(b.data.0, b.data.1.clone()) })
            },
            TagLine::Line(b) => {
                let mut tags = copy_tags(&b.tags);
                push_tags(&mut tags, more);
                TagLine::Line(TagBox { tags, data: b.data.clone() })
            },
            TagLine::TagDown(t) => TagLine::TagDown(*t),
        }
    }

    /// The entry without its tags.
    pub fn without_tags(&self) -> (r: Self)
        ensures
            r@ == self@.bare(),
    {
        match self {
            TagLine::Jump(b) => TagLine::Jump(TagBox::new(Jump(b.data.0, b.data.1.clone()))),
            TagLine::Line(b) => TagLine::Line(TagBox::new(b.data.clone())),
            TagLine::TagDown(t) => TagLine::TagDown(*t),
        }
    }
}

/// Appends the tags of `more` to `tags`.
pub fn push_tags(tags: &mut Vec<usize>, more: &Vec<usize>)
    ensures
        final(tags)@ == old(tags)@ + more@,
{
    let mut i: usize = 0;
    while i < more.len()
        invariant
            i <= more.len(),
            tags@ == old(tags)@ + more@.take(i as int),
        decreases more.len() - i,
    {
        tags.push(more[i]);
        i += 1;
        assert(tags@ =~= old(tags)@ + more@.take(i as int));
    }
    assert(more@.take(more.len() as int) =~= more@);
}

impl TagCodes {
    pub fn new() -> (r: Self)
        ensures
            r@ == Seq::<TagLineV>::empty(),
    {
        let r = TagCodes { lines: Vec::new() };
        assert(r@ =~= Seq::<TagLineV>::empty());
        r
    }

    /// The code that holds exactly `lines`.
    pub fn from_tag_lines(lines: Vec<TagLine>) -> (r: Self)
        ensures
            r@ == lines_view(lines@),
    {
        TagCodes { lines }
    }

    pub fn push(&mut self, line: TagLine)
        ensures
            final(self)@ == old(self)@.push(line@),
    {
        self.lines.push(line);
        assert(self@ =~= old(self)@.push(line@));
    }

    pub fn pop(&mut self) -> (r: Option<TagLine>)
        ensures
            old(self)@.len() == 0 ==> r is None && final(self)@ == old(self)@,
            old(self)@.len() > 0 ==> r is Some && r->Some_0@ == old(self)@.last() && final(self)@
                == old(self)@.drop_last(),
    {
        let r = self.lines.pop();
        assert(old(self)@.len() > 0 ==> self@ =~= old(self)@.drop_last());
        r
    }

    pub fn len(&self) -> (r: usize)
        ensures
            r == self@.len(),
    {
        self.lines.len()
    }

    pub fn is_empty(&self) -> (r: bool)
        ensures
            r == (self@.len() == 0),
    {
        self.lines.len() == 0
    }

    pub fn clear(&mut self)
        ensures
            final(self)@ == Seq::<TagLineV>::empty(),
    {
        self.lines.clear();
        assert(self@ =~= Seq::<TagLineV>::empty());
    }

    pub fn lines(&self) -> (r: &Vec<TagLine>)
        ensures
            lines_view(r@) == self@,
    {
        &self.lines
    }

    pub fn lines_mut(&mut self) -> (r: &mut Vec<TagLine>)
        ensures
            lines_view(r@) == old(self)@,
            final(self)@ == lines_view(final(r)@),
    {
        &mut self.lines
    }

    /// Takes the entries from index `at` on out of the code.
    pub fn split_off(&mut self, at: usize) -> (r: Vec<TagLine>)
        requires
            at <= old(self)@.len(),
        ensures
            final(self)@ == old(self)@.take(at as int),
            lines_view(r@) == old(self)@.skip(at as int),
    {
        let r = self.lines.split_off(at);
        assert(self@ =~= old(self)@.take(at as int));
        assert(lines_view(r@) =~= old(self)@.skip(at as int));
        r
    }

    /// Appends `more` to the code.
    pub fn extend(&mut self, more: Vec<TagLine>)
        ensures
            final(self)@ == old(self)@ + lines_view(more@),
    {
        let mut rest = more;
        self.lines.append(&mut rest);
        assert(self@ =~= old(self)@ + lines_view(more@));
    }

    /// The number of instructions, that is, of entries that are no `TagDown`.
    pub fn count_no_tag(&self) -> (r: usize)
        ensures
            r == count_code(self@),
    {
        count_lines(&self.lines)
    }
}

/// The number of instructions among `lines`.
pub fn count_lines(lines: &Vec<TagLine>) -> (r: usize)
    ensures
        r == count_code(lines_view(lines@)),
{
    let ghost s = lines_view(lines@);
    let mut n: usize = 0;
    let mut i: usize = 0;
    while i < lines.len()
        invariant
            i <= lines.len(),
            s == lines_view(lines@),
            n == count_code(s.take(i as int)),
            n <= i,
        decreases lines.len() - i,
    {
        proof {
            assert(s.take(i + 1).drop_last() =~= s.take(i as int));
            assert(s.take(i + 1).last() == lines@[i as int]@);
        }
        if !lines[i].is_tag_down() {
            n += 1;
        }
        i += 1;
    }
    assert(s.take(lines.len() as int) =~= s);
    n
}


/// Records the tags of one entry in `table`, each bound to `n`.
fn scan_entry(table: &mut HashMap<usize, usize>, tags: &Vec<usize>, n: usize) -> (r: Result<
    (),
    usize,
>)
    ensures
        match scan_tags(old(table)@, tags@, n) {
            Ok(m) => r is Ok && final(table)@ == m,
            Err(t) => r == Err::<(), usize>(t),
        },
{
    let mut j: usize = 0;
    while j < tags.len()
        invariant
            j <= tags.len(),
            scan_tags(old(table)@, tags@.take(j as int), n) == Ok::<Map<usize, usize>, usize>(
                table@,
            ),
        decreases tags.len() - j,
    {
        proof {
            assert(tags@.take(j + 1).drop_last() =~= tags@.take(j as int));
            assert(tags@.take(j + 1).last() == tags@[j as int]);
        }
        let t = tags[j];
        if table.contains_key(&t) {
            proof {
                lemma_scan_tags_error_stays(old(table)@, tags@, n, j + 1);
            }
            return Err(t);
        }
        table.insert(t, n);
        j += 1;
    }
    assert(tags@.take(tags.len() as int) =~= tags@);
    Ok(())
}

/// An error found in a prefix of the tags is the error of the whole list.
pub proof fn lemma_scan_tags_error_stays(m: Map<usize, usize>, tags: Seq<usize>, n: usize, k: int)
    requires
        0 <= k <= tags.len(),
        scan_tags(m, tags.take(k), n) is Err,
    ensures
        scan_tags(m, tags, n) == scan_tags(m, tags.take(k), n),
    decreases tags.len() - k,
{
    if k < tags.len() {
        assert(tags.take(k + 1).drop_last() =~= tags.take(k));
        lemma_scan_tags_error_stays(m, tags, n, k + 1);
    } else {
        assert(tags.take(k) =~= tags);
    }
}

/// An error found in a prefix of the entries is the error of the whole code.
pub proof fn lemma_scan_lines_error_stays(s: Seq<TagLineV>, k: int)
    requires
        0 <= k <= s.len(),
        scan_lines(s.take(k)) is Err,
    ensures
        scan_lines(s) == scan_lines(s.take(k)),
    decreases s.len() - k,
{
    if k < s.len() {
        assert(s.take(k + 1).drop_last() =~= s.take(k));
        lemma_scan_lines_error_stays(s, k + 1);
    } else {
        assert(s.take(k) =~= s);
    }
}

impl TagCodes {
    /// The table from each tag to the number of the instruction it points at.
    pub fn tag_table(&self) -> (r: Result<HashMap<usize, usize>, (usize, usize)>)
        ensures
            match scan_lines(self@) {
                Ok(m) => r is Ok && r->Ok_0@ == m,
                Err(e) => r == Err::<HashMap<usize, usize>, (usize, usize)>(e),
            },
    {
        let ghost s = self@;
        let mut table: HashMap<usize, usize> = HashMap::new();
        let mut n: usize = 0;
        let mut i: usize = 0;
        while i < self.lines.len()
            invariant
                i <= self.lines.len(),
                s == self@,
                s.len() == self.lines.len(),
                n == count_code(s.take(i as int)),
                n <= i,
                scan_lines(s.take(i as int)) == Ok::<Map<usize, usize>, (usize, usize)>(table@),
            decreases self.lines.len() - i,
        {
            proof {
                assert(s.take(i + 1).drop_last() =~= s.take(i as int));
                assert(s.take(i + 1).last() == self.lines@[i as int]@);
            }
            let tags = self.lines[i].tags();
            match scan_entry(&mut table, &tags, n) {
                Err(t) => {
                    proof {
                        lemma_scan_lines_error_stays(s, i + 1);
                    }
                    return Err((i, t));
                },
                Ok(()) => {},
            }
            if !self.lines[i].is_tag_down() {
                n += 1;
            }
            i += 1;
        }
        assert(s.take(self.lines.len() as int) =~= s);
        Ok(table)
    }

    /// Resolves every tag and gives the numbered program, one text for each
    /// instruction. A jump goes to the number of the instruction that its tag
    /// points at, and to 0 where the tag is defined nowhere or only behind the
    /// last instruction. A tag that is defined twice is the error.
    pub fn compile(&self) -> (r: Result<Vec<String>, (usize, usize)>)
        ensures
            match resolve(self@) {
                Ok(lines) => r is Ok && texts(r->Ok_0@) == lines,
                Err(e) => r == Err::<Vec<String>, (usize, usize)>(e),
            },
    {
        let table = match self.tag_table() {
            Ok(t) => t,
            Err(e) => {
                return Err(e);
            },
        };
        let total = self.count_no_tag();
        let ghost s = self@;
        let ghost m = table@;
        let mut out: Vec<String> = Vec::new();
        let mut i: usize = 0;
        while i < self.lines.len()
            invariant
                i <= self.lines.len(),
                s == self@,
                s.len() == self.lines.len(),
                m == table@,
                total == count_code(s),
                texts(out@) == emit(s.take(i as int), m, total as nat),
            decreases self.lines.len() - i,
        {
            proof {
                assert(s.take(i + 1).drop_last() =~= s.take(i as int));
                assert(s.take(i + 1).last() == self.lines@[i as int]@);
            }
            let ghost before = texts(out@);
            match &self.lines[i] {
                TagLine::TagDown(_) => {},
                TagLine::Line(b) => {
                    out.push(b.data.clone());
                    assert(texts(out@) =~= before.push(b.data@));
                },
                TagLine::Jump(b) => {
                    let target = match table.get(&b.data.0) {
                        Some(t) => if *t < total {
                            *t
                        } else {
                            0
                        },
                        None => 0,
                    };
                    let text = jump_line(target, &b.data.1);
                    out.push(text);
                    assert(texts(out@) =~= before.push(text@));
                },
            }
            i += 1;
        }
        assert(s.take(self.lines.len() as int) =~= s);
        Ok(out)
    }

    /// Attaches every `TagDown` to the instruction that follows it. The code
    /// is left as it was where a tag is defined twice, which is the error.
    pub fn build_tagdown(&mut self) -> (r: Result<(), (usize, usize)>)
        ensures
            match scan_lines(old(self)@) {
                Ok(_) => r is Ok && final(self)@ == fold_tags(old(self)@),
                Err(e) => r == Err::<(), (usize, usize)>(e) && final(self)@ == old(self)@,
            },
    {
        match self.tag_table() {
            Ok(_) => {},
            Err(e) => {
                return Err(e);
            },
        }
        let ghost s = self@;
        let mut out: Vec<TagLine> = Vec::new();
        let mut pending: Vec<usize> = Vec::new();
        let mut i: usize = 0;
        proof {
            assert(s.skip(0) =~= s);
            assert(lines_view(out@) + fold_tags(s) =~= fold_tags(s));
        }
        while i < self.lines.len()
            invariant
                i <= self.lines.len(),
                s == self@,
                s.len() == self.lines.len(),
                lines_view(out@) + fold_from(s.skip(i as int), pending@) == fold_tags(s),
            decreases self.lines.len() - i,
        {
            proof {
                assert(s.skip(i as int)[0] == self.lines@[i as int]@);
                assert(s.skip(i as int).drop_first() =~= s.skip(i + 1));
            }
            let ghost before = lines_view(out@);
            match &self.lines[i] {
                TagLine::TagDown(t) => {
                    pending.push(*t);
                },
                line => {
                    let tagged = line.with_tags(&pending);
                    out.push(tagged);
                    pending = Vec::new();
                    proof {
                        assert(lines_view(out@) =~= before + seq![tagged@]);
                        assert((before + seq![tagged@]) + fold_from(
                            s.skip(i + 1),
                            Seq::empty(),
                        ) =~= before + (seq![tagged@] + fold_from(s.skip(i + 1), Seq::empty())));
                    }
                },
            }
            i += 1;
        }
        let ghost before = lines_view(out@);
        let mut j: usize = 0;
        while j < pending.len()
            invariant
                j <= pending.len(),
                lines_view(out@) == before + tag_downs(pending@).take(j as int),
            decreases pending.len() - j,
        {
            let ghost sofar = lines_view(out@);
            out.push(TagLine::TagDown(pending[j]));
            j += 1;
            proof {
                assert(lines_view(out@) =~= sofar.push(TagLineV::TagDown(pending@[j - 1])));
                assert(tag_downs(pending@).take(j as int) =~= tag_downs(pending@).take(j - 1).push(
                    TagLineV::TagDown(pending@[j - 1]),
                ));
            }
        }
        proof {
            assert(tag_downs(pending@).take(pending.len() as int) =~= tag_downs(pending@));
            assert(s.skip(self.lines.len() as int) =~= Seq::<TagLineV>::empty());
        }
        self.lines = out;
        Ok(())
    }

    /// Puts every attached tag back in front of its instruction as a `TagDown`.
    pub fn tag_up(&mut self)
        ensures
            final(self)@ == unfold_tags(old(self)@),
    {
        let ghost s = self@;
        let mut out: Vec<TagLine> = Vec::new();
        let mut i: usize = 0;
        while i < self.lines.len()
            invariant
                i <= self.lines.len(),
                s == self@,
                s.len() == self.lines.len(),
                lines_view(out@) == unfold_tags(s.take(i as int)),
            decreases self.lines.len() - i,
        {
            proof {
                assert(s.take(i + 1).drop_last() =~= s.take(i as int));
                assert(s.take(i + 1).last() == self.lines@[i as int]@);
            }
            let ghost before = lines_view(out@);
            let line = &self.lines[i];
            if line.is_tag_down() {
                out.push(line.duplicate());
                assert(lines_view(out@) =~= before.push(line@));
            } else {
                let tags = line.tags();
                let mut j: usize = 0;
                while j < tags.len()
                    invariant
                        j <= tags.len(),
                        lines_view(out@) == before + tag_downs(tags@).take(j as int),
                    decreases tags.len() - j,
                {
                    let ghost sofar = lines_view(out@);
                    out.push(TagLine::TagDown(tags[j]));
                    j += 1;
                    proof {
                        assert(lines_view(out@) =~= sofar.push(TagLineV::TagDown(tags@[j - 1])));
                        assert(tag_downs(tags@).take(j as int) =~= tag_downs(tags@).take(
                            j - 1,
                        ).push(TagLineV::TagDown(tags@[j - 1])));
                    }
                }
                assert(tag_downs(tags@).take(tags.len() as int) =~= tag_downs(tags@));
                let ghost sofar = lines_view(out@);
                let bare = line.without_tags();
                out.push(bare);
                proof {
                    assert(lines_view(out@) =~= sofar.push(bare@));
                    assert(sofar.push(bare@) =~= before + tag_downs(tags@).push(line@.bare()));
                }
            }
            i += 1;
        }
        assert(s.take(self.lines.len() as int) =~= s);
        self.lines = out;
    }
}

/// The text `jump <target> <cond>`.
pub fn jump_line(target: usize, cond: &String) -> (r: String)
    ensures
        r@ == jump_text(target as nat, cond@),
{
    let mut r = owned("jump ");
    push_usize(&mut r, target);
    r.append(" ");
    r.append(cond.as_str());
    r
}


/// Puts `tok` in front of the tokens that `rest` holds; an error stays.
pub open spec fn token_then(tok: Seq<char>, rest: Result<Seq<Seq<char>>, usize>) -> Result<
    Seq<Seq<char>>,
    usize,
> {
    match rest {
        Ok(toks) => Ok(seq![tok] + toks),
        Err(e) => Err(e),
    }
}

/// The tokens of `s` from index `i` on. `mode` 0 stands between tokens, 1
/// inside a plain token and 2 inside a string; in modes 1 and 2 the token
/// began at `start`. A plain token ends before white space or `"`; a
/// string runs from its opening `"` through the next `"`. A string that
/// is never closed is the error, with the position of its opening `"`,
/// counted in characters from 1.
pub open spec fn split_from(s: Seq<char>, i: int, start: int, mode: int) -> Result<
    Seq<Seq<char>>,
    usize,
>
    decreases s.len() - i,
{
    if i >= s.len() {
        if mode == 1 {
            Ok(seq![s.subrange(start, s.len() as int)])
        } else if mode == 2 {
            Err((start + 1) as usize)
        } else {
            Ok(Seq::empty())
        }
    } else if mode == 2 {
        if s[i] == '"' {
            token_then(s.subrange(start, i + 1), split_from(s, i + 1, 0, 0))
        } else {
            split_from(s, i + 1, start, 2)
        }
    } else if mode == 1 {
        if is_space_char(s[i]) {
            token_then(s.subrange(start, i), split_from(s, i + 1, 0, 0))
        } else if s[i] == '"' {
            token_then(s.subrange(start, i), split_from(s, i + 1, i, 2))
        } else {
            split_from(s, i + 1, start, 1)
        }
    } else {
        if is_space_char(s[i]) {
            split_from(s, i + 1, 0, 0)
        } else if s[i] == '"' {
            split_from(s, i + 1, i, 2)
        } else {
            split_from(s, i + 1, i, 1)
        }
    }
}

/// The tokens of one line of the target language.
pub open spec fn split_tokens(s: Seq<char>) -> Result<Seq<Seq<char>>, usize> {
    split_from(s, 0, 0, 0)
}

/// The tokens `done`, followed by what `rest` holds.
pub open spec fn tokens_then(done: Seq<Seq<char>>, rest: Result<Seq<Seq<char>>, usize>) -> Result<
    Seq<Seq<char>>,
    usize,
> {
    match rest {
        Ok(toks) => Ok(done + toks),
        Err(e) => Err(e),
    }
}

/// Splits the characters of a line into tokens.
pub fn split_chars(v: &Vec<char>) -> (r: Result<Vec<String>, usize>)
    ensures
        match split_tokens(v@) {
            Ok(toks) => r is Ok && texts(r->Ok_0@) == toks,
            Err(e) => r == Err::<Vec<String>, usize>(e),
        },
{
    let ghost s = v@;
    let mut out: Vec<String> = Vec::new();
    let mut i: usize = 0;
    let mut start: usize = 0;
    let mut mode: u8 = 0;
    proof {
        assert(tokens_then(texts(out@), split_from(s, 0, 0, 0)) == split_tokens(s)) by {
            match split_from(s, 0, 0, 0) {
                Ok(toks) => {
                    assert(texts(out@) + toks =~= toks);
                },
                Err(_) => {},
            }
        }
    }
    while i < v.len()
        invariant
            i <= v.len(),
            s == v@,
            mode <= 2,
            mode != 0 ==> start < i,
            tokens_then(texts(out@), split_from(s, i as int, start as int, mode as int))
                == split_tokens(s),
        decreases v.len() - i,
    {
        let c = v[i];
        let ghost before = texts(out@);
        if mode == 2 {
            if c == '"' {
                let tok = chars_text(v, start, i + 1);
                out.push(tok);
                proof {
                    assert(texts(out@) =~= before.push(tok@));
                    lemma_tokens_then_step(before, tok@, split_from(s, i + 1, 0, 0));
                }
                mode = 0;
                start = 0;
            }
        } else if mode == 1 {
            if is_space(c) {
                let tok = chars_text(v, start, i);
                out.push(tok);
                proof {
                    assert(texts(out@) =~= before.push(tok@));
                    lemma_tokens_then_step(before, tok@, split_from(s, i + 1, 0, 0));
                }
                mode = 0;
                start = 0;
            } else if c == '"' {
                let tok = chars_text(v, start, i);
                out.push(tok);
                proof {
                    assert(texts(out@) =~= before.push(tok@));
                    lemma_tokens_then_step(before, tok@, split_from(s, i + 1, i as int, 2));
                }
                mode = 2;
                start = i;
            }
        } else {
            if is_space(c) {
            } else if c == '"' {
                mode = 2;
                start = i;
            } else {
                mode = 1;
                start = i;
            }
        }
        i += 1;
    }
    if mode == 1 {
        let ghost before = texts(out@);
        let tok = chars_text(v, start, v.len());
        out.push(tok);
        proof {
            assert(texts(out@) =~= before.push(tok@));
            assert(before + seq![tok@] =~= before.push(tok@));
        }
        Ok(out)
    } else if mode == 2 {
        Err(start + 1)
    } else {
        proof {
            assert(texts(out@) + Seq::<Seq<char>>::empty() =~= texts(out@));
        }
        Ok(out)
    }
}

proof fn lemma_tokens_then_step(
    done: Seq<Seq<char>>,
    tok: Seq<char>,
    rest: Result<Seq<Seq<char>>, usize>,
)
    ensures
        tokens_then(done, token_then(tok, rest)) == tokens_then(done.push(tok), rest),
{
    match rest {
        Ok(toks) => {
            assert(done + (seq![tok] + toks) =~= done.push(tok) + toks);
        },
        Err(_) => {},
    }
}

/// Splits one line of the target language into its tokens: runs of
/// characters without white space, and strings in double quotes, which may
/// hold white space. The error is the position, counted in characters from 1,
/// of the quote that opens a string which is never closed.
pub fn mdt_logic_split(s: &str) -> (r: Result<Vec<String>, usize>)
    ensures
        match split_tokens(s@) {
            Ok(toks) => r is Ok && texts(r->Ok_0@) == toks,
            Err(e) => r == Err::<Vec<String>, usize>(e),
        },
{
    let v = str_chars(s);
    split_chars(&v)
}


/// The lines of a text: the runs of characters between line feeds.
pub open spec fn lines_from(s: Seq<char>, i: int, start: int) -> Seq<Seq<char>>
    decreases s.len() - i,
{
    if i >= s.len() {
        seq![s.subrange(start, s.len() as int)]
    } else if s[i] == '\n' {
        seq![s.subrange(start, i)] + lines_from(s, i + 1, i + 1)
    } else {
        lines_from(s, i + 1, start)
    }
}

pub open spec fn split_lines(s: Seq<char>) -> Seq<Seq<char>> {
    lines_from(s, 0, 0)
}

/// What one line of a numbered program stands for. A line without tokens
/// stands for nothing. A line whose first token is `jump` is a jump to the
/// line number that its second token writes, under the condition that the
/// other tokens spell; where the number is missing or unreadable the line is
/// an error. Any other line is an instruction, kept as it is where its
/// tokens cannot be told apart.
pub open spec fn import_line(line: Seq<char>) -> Result<Option<TagLineV>, ()> {
    match split_tokens(line) {
        Err(_) => Ok(Some(TagLineV::Line { tags: Seq::empty(), text: line })),
        Ok(toks) => if toks.len() == 0 {
            Ok(None)
        } else if toks[0] == "jump"@ {
            if toks.len() >= 2 && parse_dec_text(toks[1]) is Some {
                Ok(
                    Some(
                        TagLineV::Jump {
                            tags: Seq::empty(),
                            to: parse_dec_text(toks[1])->Some_0,
                            cond: join_with(toks.skip(2), " "@),
                        },
                    ),
                )
            } else {
                Err(())
            }
        } else {
            Ok(Some(TagLineV::Line { tags: Seq::empty(), text: join_with(toks, " "@) }))
        },
    }
}

/// The instructions that the lines stand for; the error is the index of the
/// first line that is one.
pub open spec fn import_lines(lines: Seq<Seq<char>>) -> Result<Seq<TagLineV>, usize>
    decreases lines.len(),
{
    if lines.len() == 0 {
        Ok(Seq::empty())
    } else {
        match import_lines(lines.drop_last()) {
            Err(e) => Err(e),
            Ok(code) => match import_line(lines.last()) {
                Err(_) => Err((lines.len() - 1) as usize),
                Ok(None) => Ok(code),
                Ok(Some(l)) => Ok(code.push(l)),
            },
        }
    }
}

/// Whether one of the first `upto` entries of `code` is a jump to `k`.
pub open spec fn is_target(code: Seq<TagLineV>, upto: int, k: usize) -> bool {
    exists|j: int| 0 <= j < upto && j < code.len() && code[j] is Jump && #[trigger] code[j]->Jump_to == k
}

/// The first `upto` instructions, each with a `TagDown` of its own number
/// in front where some jump of `code` goes to it.
pub open spec fn mark_targets(code: Seq<TagLineV>, upto: int) -> Seq<TagLineV>
    decreases upto,
{
    if upto <= 0 {
        Seq::empty()
    } else if is_target(code, code.len() as int, (upto - 1) as usize) {
        mark_targets(code, upto - 1).push(TagLineV::TagDown((upto - 1) as usize)).push(
            code[upto - 1],
        )
    } else {
        mark_targets(code, upto - 1).push(code[upto - 1])
    }
}

/// The targets, among the first `upto` entries, that lie behind the last
/// instruction, each once, in the order in which the jumps name them.
pub open spec fn late_targets(code: Seq<TagLineV>, upto: int) -> Seq<usize>
    decreases upto,
{
    if upto <= 0 {
        Seq::empty()
    } else {
        let p = late_targets(code, upto - 1);
        match code[upto - 1] {
            TagLineV::Jump { to, .. } => if to >= code.len() && !p.contains(to) {
                p.push(to)
            } else {
                p
            },
            _ => p,
        }
    }
}

/// The tagged code that a numbered program stands for: its instructions,
/// with a `TagDown` in front of each line that a jump goes to, and behind
/// the last line for targets that lie behind it.
pub open spec fn import_text(text: Seq<char>) -> Result<Seq<TagLineV>, usize> {
    match import_lines(split_lines(text)) {
        Err(e) => Err(e),
        Ok(code) => Ok(
            mark_targets(code, code.len() as int) + tag_downs(
                late_targets(code, code.len() as int),
            ),
        ),
    }
}

/// The entry that one line of a numbered program stands for.
pub fn import_chars(line: &Vec<char>) -> (r: Result<Option<TagLine>, ()>)
    ensures
        match import_line(line@) {
            Ok(Some(l)) => r is Ok && r->Ok_0 is Some && r->Ok_0->Some_0@ == l,
            Ok(None) => r is Ok && r->Ok_0 is None,
            Err(_) => r is Err,
        },
{
    match split_chars(line) {
        Err(_) => Ok(Some(TagLine::Line(TagBox::new(chars_string(line))))),
        Ok(toks) => {
            if toks.len() == 0 {
                Ok(None)
            } else if str_eq(toks[0].as_str(), "jump") {
                if toks.len() < 2 {
                    return Err(());
                }
                let digits = str_chars(toks[1].as_str());
                match parse_dec(&digits) {
                    None => Err(()),
                    Some(to) => {
                        let mut rest: Vec<String> = Vec::new();
                        let mut k: usize = 2;
                        while k < toks.len()
                            invariant
                                2 <= k <= toks.len(),
                                texts(rest@) == texts(toks@).subrange(2, k as int),
                            decreases toks.len() - k,
                        {
                            let ghost sofar = texts(rest@);
                            let tok = toks[k].clone();
                            rest.push(tok);
                            k += 1;
                            proof {
                                assert(texts(rest@) =~= sofar.push(tok@));
                                assert(texts(toks@).subrange(2, k as int) =~= texts(
                                    toks@,
                                ).subrange(2, k - 1).push(toks@[k - 1]@));
                            }
                        }
                        assert(texts(toks@).subrange(2, toks.len() as int) =~= texts(toks@).skip(
                            2,
                        ));
                        let cond = join_space(&rest);
                        Ok(Some(TagLine::Jump(TagBox::new(Jump(to, cond)))))
                    },
                }
            } else {
                Ok(Some(TagLine::Line(TagBox::new(join_space(&toks)))))
            }
        },
    }
}

impl TagCodes {
    /// Reads a numbered program of the target language. The error is the
    /// index of the first line that is a jump without a readable target.
    pub fn from_str(text: &str) -> (r: Result<Self, usize>)
        ensures
            match import_text(text@) {
                Ok(code) => r is Ok && r->Ok_0@ == code,
                Err(e) => r == Err::<Self, usize>(e),
            },
    {
        let v = str_chars(text);
        let ghost s = v@;
        // the instructions, line by line
        let mut code: Vec<TagLine> = Vec::new();
        let mut line: Vec<char> = Vec::new();
        let mut n: usize = 0;
        let mut i: usize = 0;
        let mut start: usize = 0;
        let ghost mut done: Seq<Seq<char>> = Seq::empty();
        proof {
            assert(done + lines_from(s, 0, 0) =~= split_lines(s));
            assert(lines_view(code@) =~= Seq::<TagLineV>::empty());
        }
        while i < v.len()
            invariant
                i <= v.len(),
                start <= i,
                s == v@,
                s == text@,
                n == done.len(),
                n <= i,
                line@ == s.subrange(start as int, i as int),
                done + lines_from(s, i as int, start as int) == split_lines(s),
                import_lines(done) == Ok::<Seq<TagLineV>, usize>(lines_view(code@)),
            decreases v.len() - i,
        {
            if v[i] == '\n' {
                let ghost before = lines_view(code@);
                proof {
                    assert(done.push(line@).drop_last() =~= done);
                    assert(done + (seq![line@] + lines_from(s, i + 1, i + 1)) =~= done.push(line@)
                        + lines_from(s, i + 1, i + 1));
                }
                match import_chars(&line) {
                    Err(_) => {
                        proof {
                            let upto = done.push(line@);
                            assert(upto.last() == line@);
                            assert(import_lines(upto) == Err::<Seq<TagLineV>, usize>(n));
                            assert(split_lines(s).take(n + 1) =~= upto);
                            lemma_import_error_stays(split_lines(s), n + 1);
                        }
                        return Err(n);
                    },
                    Ok(None) => {},
                    Ok(Some(l)) => {
                        code.push(l);
                        assert(lines_view(code@) =~= before.push(l@));
                    },
                }
                proof {
                    done = done.push(line@);
                }
                n += 1;
                line = Vec::new();
                start = i + 1;
                assert(line@ =~= s.subrange(start as int, i + 1));
            } else {
                line.push(v[i]);
                assert(line@ =~= s.subrange(start as int, i + 1));
            }
            i += 1;
        }
        let ghost before = lines_view(code@);
        proof {
            assert(done.push(line@).drop_last() =~= done);
            assert(done + seq![line@] =~= done.push(line@));
        }
        match import_chars(&line) {
            Err(_) => {
                return Err(n);
            },
            Ok(None) => {},
            Ok(Some(l)) => {
                code.push(l);
                assert(lines_view(code@) =~= before.push(l@));
            },
        }
        Ok(TagCodes::from_tag_lines(place_targets(&code)))
    }
}

/// An error found in a prefix of the lines is the error of the whole text.
pub proof fn lemma_import_error_stays(lines: Seq<Seq<char>>, k: int)
    requires
        0 <= k <= lines.len(),
        import_lines(lines.take(k)) is Err,
    ensures
        import_lines(lines) == import_lines(lines.take(k)),
    decreases lines.len() - k,
{
    if k < lines.len() {
        assert(lines.take(k + 1).drop_last() =~= lines.take(k));
        lemma_import_error_stays(lines, k + 1);
    } else {
        assert(lines.take(k) =~= lines);
    }
}

/// Puts a `TagDown` in front of each instruction that a jump goes to, and
/// behind the last one for the targets that lie behind it.
pub fn place_targets(code: &Vec<TagLine>) -> (r: Vec<TagLine>)
    ensures
        lines_view(r@) == mark_targets(lines_view(code@), code.len() as int) + tag_downs(
            late_targets(lines_view(code@), code.len() as int),
        ),
{
    let ghost s = lines_view(code@);
    let mut marks: Vec<bool> = Vec::new();
    let mut k: usize = 0;
    while k < code.len()
        invariant
            k <= code.len(),
            marks.len() == k,
            forall|x: int| 0 <= x < k ==> !#[trigger] marks@[x],
        decreases code.len() - k,
    {
        marks.push(false);
        k += 1;
    }
    let mut late: Vec<usize> = Vec::new();
    let mut j: usize = 0;
    while j < code.len()
        invariant
            j <= code.len(),
            s == lines_view(code@),
            marks.len() == code.len(),
            forall|x: int| 0 <= x < marks.len() ==> (#[trigger] marks@[x] <==> is_target(
                s,
                j as int,
                x as usize,
            )),
            late@ == late_targets(s, j as int),
        decreases code.len() - j,
    {
        let ghost old_marks = marks@;
        match &code[j] {
            TagLine::Jump(b) => {
                let to = b.data.0;
                if to < code.len() {
                    marks.set(to, true);
                } else {
                    let mut seen = false;
                    let mut q: usize = 0;
                    while q < late.len()
                        invariant
                            q <= late.len(),
                            seen <==> late@.take(q as int).contains(to),
                        decreases late.len() - q,
                    {
                        if late[q] == to {
                            seen = true;
                        }
                        proof {
                            let a = late@.take(q as int);
                            let b2 = late@.take(q + 1);
                            assert(b2 =~= a.push(late@[q as int]));
                            if a.contains(to) {
                                let w = choose|w: int| 0 <= w < a.len() && a[w] == to;
                                assert(b2[w] == to);
                            }
                            if late@[q as int] == to {
                                assert(b2[q as int] == to);
                            }
                        }
                        q += 1;
                    }
                    assert(late@.take(late.len() as int) =~= late@);
                    if !seen {
                        late.push(to);
                    }
                }
            },
            _ => {},
        }
        proof {
            assert(s[j as int] == code@[j as int]@);
            assert forall|x: int| 0 <= x < marks.len() implies (#[trigger] marks@[x] <==> is_target(
                s,
                j + 1,
                x as usize,
            )) by {
                let hit = s[j as int] is Jump && s[j as int]->Jump_to == x as usize;
                if is_target(s, j as int, x as usize) {
                    let w = choose|w: int|
                        0 <= w < j && w < s.len() && s[w] is Jump && #[trigger] s[w]->Jump_to
                            == x as usize;
                    assert(0 <= w < j + 1 && s[w] is Jump && s[w]->Jump_to == x as usize);
                }
                if hit {
                    assert(0 <= j < j + 1 && s[j as int] is Jump && s[j as int]->Jump_to
                        == x as usize);
                }
                if is_target(s, j + 1, x as usize) {
                    let w = choose|w: int|
                        0 <= w < j + 1 && w < s.len() && s[w] is Jump && #[trigger] s[w]->Jump_to
                            == x as usize;
                    if w < j {
                        assert(is_target(s, j as int, x as usize));
                    }
                }
                assert(old_marks[x] <==> is_target(s, j as int, x as usize));
            }
        }
        j += 1;
    }
    let mut out: Vec<TagLine> = Vec::new();
    let mut i: usize = 0;
    while i < code.len()
        invariant
            i <= code.len(),
            s == lines_view(code@),
            marks.len() == code.len(),
            forall|x: int| 0 <= x < marks.len() ==> (#[trigger] marks@[x] <==> is_target(
                s,
                code.len() as int,
                x as usize,
            )),
            lines_view(out@) == mark_targets(s, i as int),
        decreases code.len() - i,
    {
        let ghost before = lines_view(out@);
        assert(s[i as int] == code@[i as int]@);
        if marks[i] {
            out.push(TagLine::TagDown(i));
            let line = code[i].duplicate();
            out.push(line);
            assert(lines_view(out@) =~= before.push(TagLineV::TagDown(i)).push(line@));
        } else {
            let line = code[i].duplicate();
            out.push(line);
            assert(lines_view(out@) =~= before.push(line@));
        }
        i += 1;
    }
    let ghost before = lines_view(out@);
    let mut q: usize = 0;
    while q < late.len()
        invariant
            q <= late.len(),
            lines_view(out@) == before + tag_downs(late@).take(q as int),
        decreases late.len() - q,
    {
        let ghost sofar = lines_view(out@);
        out.push(TagLine::TagDown(late[q]));
        q += 1;
        proof {
            assert(lines_view(out@) =~= sofar.push(TagLineV::TagDown(late@[q - 1])));
            assert(tag_downs(late@).take(q as int) =~= tag_downs(late@).take(q - 1).push(
                TagLineV::TagDown(late@[q - 1]),
            ));
        }
    }
    assert(tag_downs(late@).take(late.len() as int) =~= tag_downs(late@));
    out
}

/// The tags of an instruction as they are shown: each as `:` and its
/// number, with a space behind.
pub open spec fn tags_prefix(tags: Seq<usize>) -> Seq<char>
    decreases tags.len(),
{
    if tags.len() == 0 {
        Seq::empty()
    } else {
        tags_prefix(tags.drop_last()) + ":"@ + dec_text(tags.last() as nat) + " "@
    }
}

/// An entry as it is shown in listings, with its tags unresolved.
pub open spec fn debug_text(l: TagLineV) -> Seq<char> {
    match l {
        TagLineV::Jump { tags, to, cond } => tags_prefix(tags) + "jump :"@ + dec_text(to as nat)
            + " "@ + cond,
        TagLineV::Line { tags, text } => tags_prefix(tags) + text,
        TagLineV::TagDown(t) => ":"@ + dec_text(t as nat),
    }
}

/// The shown form of a list of tags.
pub fn tags_text(tags: &Vec<usize>) -> (r: String)
    ensures
        r@ == tags_prefix(tags@),
{
    let mut r = String::new();
    let mut i: usize = 0;
    while i < tags.len()
        invariant
            i <= tags.len(),
            r@ == tags_prefix(tags@.take(i as int)),
        decreases tags.len() - i,
    {
        proof {
            assert(tags@.take(i + 1).drop_last() =~= tags@.take(i as int));
            assert(tags@.take(i + 1).last() == tags@[i as int]);
        }
        r.append(":");
        push_usize(&mut r, tags[i]);
        r.append(" ");
        i += 1;
    }
    assert(tags@.take(tags.len() as int) =~= tags@);
    r
}

impl TagLine {
    /// The entry as it is shown in listings, with its tags unresolved.
    pub fn to_text(&self) -> (r: String)
        ensures
            r@ == debug_text(self@),
    {
        match self {
            TagLine::Jump(b) => {
                let mut r = tags_text(&b.tags);
                r.append("jump :");
                push_usize(&mut r, b.data.0);
                r.append(" ");
                r.append(b.data.1.as_str());
                r
            },
            TagLine::Line(b) => {
                let mut r = tags_text(&b.tags);
                r.append(b.data.as_str());
                r
            },
            TagLine::TagDown(t) => {
                let mut r = owned(":");
                push_usize(&mut r, *t);
                r
            },
        }
    }
}

} // verus!
