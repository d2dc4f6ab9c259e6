//! Listings of the state of a compilation, for error messages.

use vstd::prelude::*;
use crate::text::{owned, texts, usize_text, dec_text};
use crate::tag_code::{TagLineV, debug_text};
use crate::syntax::model::MetaV;
use crate::syntax::meta::CompileMeta;

verus! {

/// Each line with `insert` in front.
pub open spec fn prefixed(lines: Seq<Seq<char>>, insert: Seq<char>) -> Seq<Seq<char>> {
    Seq::new(lines.len(), |i: int| insert + lines[i])
}

/// The emitted code as it is listed, one text for each entry.
pub open spec fn code_listing(codes: Seq<TagLineV>) -> Seq<Seq<char>> {
    Seq::new(codes.len(), |i: int| debug_text(codes[i]))
}

/// The tags as they are listed: each id, an arrow, and the name.
pub open spec fn tags_listing(tags: Seq<Seq<char>>) -> Seq<Seq<char>> {
    Seq::new(tags.len(), |i: int| dec_text(i as nat) + " \t-> "@ + tags[i])
}

/// What an error message says of the state: the tags, then the code.
pub open spec fn state_listing(m: MetaV) -> Seq<Seq<char>> {
    seq!["Tags by id:"@] + prefixed(tags_listing(m.tags), "\t"@) + seq!["Emitted code:"@]
        + prefixed(code_listing(m.codes), "\t"@)
}

/// Puts `insert` in front of each line.
pub fn line_first_add(lines: &mut Vec<String>, insert: &str)
    ensures
        texts(final(lines)@) == prefixed(texts(old(lines)@), insert@),
{
    let ghost before = texts(lines@);
    let mut out: Vec<String> = Vec::new();
    let mut i: usize = 0;
    while i < lines.len()
        invariant
            i <= lines.len(),
            *lines == *old(lines),
            out.len() == i,
            forall|j: int| 0 <= j < i ==> out@[j]@ == insert@ + lines@[j]@,
        decreases lines.len() - i,
    {
        let mut s = owned(insert);
        s.append(lines[i].as_str());
        out.push(s);
        i += 1;
    }
    assert(texts(out@) =~= prefixed(before, insert@));
    *lines = out;
}

/// Appends the texts of `more` to `out`.
fn append_all(out: &mut Vec<String>, more: Vec<String>)
    ensures
        texts(final(out)@) == texts(old(out)@) + texts(more@),
{
    let mut rest = more;
    let ghost a = old(out)@;
    out.append(&mut rest);
    assert(texts(out@) =~= texts(a) + texts(more@));
}

impl CompileMeta {
    /// The emitted code as it is listed.
    pub fn debug_tag_codes(&self) -> (r: Vec<String>)
        ensures
            texts(r@) == code_listing(self@.codes),
    {
        let lines = self.tag_codes().lines();
        let mut out: Vec<String> = Vec::new();
        let mut i: usize = 0;
        while i < lines.len()
            invariant
                i <= lines.len(),
                crate::tag_code::lines_view(lines@) == self@.codes,
                out.len() == i,
                forall|j: int| 0 <= j < i ==> out@[j]@ == debug_text(lines@[j]@),
            decreases lines.len() - i,
        {
            out.push(lines[i].to_text());
            i += 1;
        }
        assert(texts(out@) =~= code_listing(self@.codes));
        out
    }

    /// The tags as they are listed, by id.
    pub fn debug_tags_map(&self) -> (r: Vec<String>)
        ensures
            texts(r@) == tags_listing(self@.tags),
    {
        let tags = self.tags_map();
        let mut out: Vec<String> = Vec::new();
        let mut i: usize = 0;
        while i < tags.len()
            invariant
                i <= tags.len(),
                crate::syntax::ast::vars_view(tags@) == self@.tags,
                out.len() == i,
                forall|j: int|
                    0 <= j < i ==> out@[j]@ == dec_text(j as nat) + " \t-> "@ + tags@[j]@,
            decreases tags.len() - i,
        {
            let mut s = usize_text(i);
            s.append(" \t-> ");
            s.append(tags[i].as_str());
            out.push(s);
            i += 1;
        }
        assert(texts(out@) =~= tags_listing(self@.tags));
        out
    }

    /// What an error message says of the state.
    pub fn err_info(&self) -> (r: Vec<String>)
        ensures
            texts(r@) == state_listing(self@),
    {
        let mut res: Vec<String> = Vec::new();
        let mut tags_map = self.debug_tags_map();
        let mut tag_lines = self.debug_tag_codes();
        line_first_add(&mut tags_map, "\t");
        line_first_add(&mut tag_lines, "\t");
        res.push(owned("Tags by id:"));
        assert(texts(res@) =~= seq!["Tags by id:"@]);
        append_all(&mut res, tags_map);
        let ghost mid = texts(res@);
        res.push(owned("Emitted code:"));
        assert(texts(res@) =~= mid + seq!["Emitted code:"@]);
        append_all(&mut res, tag_lines);
        res
    }
}

} // verus!
