//! The state that a compilation carries along.

use vstd::prelude::*;
use crate::text::{owned, push_usize};
use crate::tag_code::{TagCodes, TagLine, count_code};
use crate::syntax::ast::{Var, Value, Const, vars_view, clone_vars};
use crate::syntax::model::{
    MetaV,
    ConstV,
    FrameV,
    CompileError,
    tmp_name,
    find_in,
    find_frames,
    find_pos,
    const_pos,
    const_replaced,
    without,
    rename_in,
    rename_frames,
    tag_pos,
    label_renames,
    leak_all,
    leaks_left,
};

verus! {

/// A constant of a block: its name, then the labels of its body and the body.
pub type ConstEntry = (Var, (Vec<Var>, Value));

/// A block: the names it leaks, and its constants, the latest last.
pub type ConstFrame = (Vec<Var>, Vec<ConstEntry>);

/// The new names of the labels of one expansion.
pub type LabelMap = Vec<(Var, Var)>;

pub open spec fn const_view(e: ConstEntry) -> ConstV {
    ConstV { name: e.0@, labels: vars_view(e.1.0@), value: e.1.1@ }
}

pub open spec fn consts_view(v: Seq<ConstEntry>) -> Seq<ConstV> {
    Seq::new(v.len(), |i: int| const_view(v[i]))
}

pub open spec fn frame_view(f: ConstFrame) -> FrameV {
    FrameV { leaks: vars_view(f.0@), consts: consts_view(f.1@) }
}

pub open spec fn frames_view(v: Seq<ConstFrame>) -> Seq<FrameV> {
    Seq::new(v.len(), |i: int| frame_view(v[i]))
}

pub open spec fn pairs_view(v: Seq<(Var, Var)>) -> Seq<(Seq<char>, Seq<char>)> {
    Seq::new(v.len(), |i: int| (v[i].0@, v[i].1@))
}

pub open spec fn renames_view(v: Seq<LabelMap>) -> Seq<Seq<(Seq<char>, Seq<char>)>> {
    Seq::new(v.len(), |i: int| pairs_view(v[i]@))
}

/// The state of a compilation.
#[derive(Debug)]
pub struct CompileMeta {
    /// The tag names; the position of a name is its id.
    tags_map: Vec<String>,
    tag_codes: TagCodes,
    tmp_var_count: usize,
    /// The open blocks, the innermost last.
    const_var_namespace: Vec<ConstFrame>,
    /// The handles of the open expressions, the innermost last.
    dexp_result_handles: Vec<Var>,
    tmp_tag_count: usize,
    /// For each open expansion, the new names of its labels.
    const_expand_tag_name_map: Vec<LabelMap>,
}

impl View for CompileMeta {
    type V = MetaV;

    closed spec fn view(&self) -> MetaV {
        MetaV {
            tags: vars_view(self.tags_map@),
            codes: self.tag_codes@,
            tmp_vars: self.tmp_var_count,
            tmp_tags: self.tmp_tag_count,
            frames: frames_view(self.const_var_namespace@),
            handles: vars_view(self.dexp_result_handles@),
            renames: renames_view(self.const_expand_tag_name_map@),
        }
    }
}

/// The name of the `n`-th temporary.
pub fn tmp_text(n: usize) -> (r: String)
    ensures
        r@ == tmp_name(n as nat),
{
    let mut r = owned("__");
    push_usize(&mut r, n);
    r
}

/// The latest constant called `name` among `consts`.
pub fn find_entry<'a>(consts: &'a Vec<ConstEntry>, name: &Var) -> (r: Option<&'a ConstEntry>)
    ensures
        match find_in(consts_view(consts@), name@) {
            Some(c) => r is Some && const_view(*r->Some_0) == c,
            None => r is None,
        },
{
    let ghost cv = consts_view(consts@);
    let mut j: usize = consts.len();
    assert(cv.take(j as int) =~= cv);
    while j > 0
        invariant
            j <= consts.len(),
            cv == consts_view(consts@),
            find_in(cv, name@) == find_in(cv.take(j as int), name@),
        decreases j,
    {
        proof {
            assert(cv.take(j as int).drop_last() =~= cv.take(j - 1));
            assert(cv.take(j as int).last() == const_view(consts@[j - 1]));
        }
        if consts[j - 1].0 == *name {
            return Some(&consts[j - 1]);
        }
        j -= 1;
    }
    assert(cv.take(0).len() == 0);
    None
}

/// The position of the latest constant called `name` among `consts`.
pub fn find_entry_pos(consts: &Vec<ConstEntry>, name: &Var) -> (r: Option<usize>)
    ensures
        match find_pos(consts_view(consts@), name@) {
            Some(k) => r is Some && r->Some_0 == k && 0 <= k < consts.len(),
            None => r is None,
        },
{
    let ghost cv = consts_view(consts@);
    let mut j: usize = consts.len();
    assert(cv.take(j as int) =~= cv);
    while j > 0
        invariant
            j <= consts.len(),
            cv == consts_view(consts@),
            find_pos(cv, name@) == find_pos(cv.take(j as int), name@),
        decreases j,
    {
        proof {
            assert(cv.take(j as int).drop_last() =~= cv.take(j - 1));
            assert(cv.take(j as int).last() == const_view(consts@[j - 1]));
        }
        if consts[j - 1].0 == *name {
            return Some(j - 1);
        }
        j -= 1;
    }
    assert(cv.take(0).len() == 0);
    None
}

/// The new name of `name` among `pairs`.
pub fn find_rename<'a>(pairs: &'a LabelMap, name: &Var) -> (r: Option<&'a Var>)
    ensures
        match rename_in(pairs_view(pairs@), name@) {
            Some(n) => r is Some && r->Some_0@ == n,
            None => r is None,
        },
{
    let ghost pv = pairs_view(pairs@);
    let mut j: usize = pairs.len();
    assert(pv.take(j as int) =~= pv);
    while j > 0
        invariant
            j <= pairs.len(),
            pv == pairs_view(pairs@),
            rename_in(pv, name@) == rename_in(pv.take(j as int), name@),
        decreases j,
    {
        proof {
            assert(pv.take(j as int).drop_last() =~= pv.take(j - 1));
            assert(pv.take(j as int).last() == (pairs@[j - 1].0@, pairs@[j - 1].1@));
        }
        if pairs[j - 1].0 == *name {
            return Some(&pairs[j - 1].1);
        }
        j -= 1;
    }
    assert(pv.take(0).len() == 0);
    None
}

/// The labels and the body of the constant at the place `k` of a block,
/// to be changed in place.
fn entry_mut(frame: &mut ConstFrame, k: usize) -> (r: &mut (Vec<Var>, Value))
    requires
        k < old(frame).1.len(),
    ensures
        *r == old(frame).1@[k as int].1,
        final(frame).0 == old(frame).0,
        final(frame).1@ == old(frame).1@.update(
            k as int,
            (old(frame).1@[k as int].0, *final(r)),
        ),
{
    &mut frame.1[k].1
}

/// The labels and the body of the constant at the place `k` of the
/// block `j`, to be changed in place.
fn slot_mut(ns: &mut Vec<ConstFrame>, j: usize, k: usize) -> (r: &mut (Vec<Var>, Value))
    requires
        j < old(ns).len(),
        k < old(ns)@[j as int].1.len(),
    ensures
        *r == old(ns)@[j as int].1@[k as int].1,
        const_replaced(
            frames_view(old(ns)@),
            frames_view(final(ns)@),
            j as int,
            k as int,
            vars_view(final(r).0@),
            final(r).1@,
        ),
{
    entry_mut(&mut ns[j], k)
}

impl Default for CompileMeta {
    fn default() -> (r: Self)
        ensures
            r@ == MetaV::fresh(),
    {
        CompileMeta::new()
    }
}

impl CompileMeta {
    pub fn new() -> (r: Self)
        ensures
            r@ == MetaV::fresh(),
    {
        Self::with_tag_codes(TagCodes::new())
    }

    /// A fresh state that starts from the given code.
    pub fn with_tag_codes(tag_codes: TagCodes) -> (r: Self)
        ensures
            r@ == MetaV::fresh().with_codes(tag_codes@),
    {
        let r = CompileMeta {
            tags_map: Vec::new(),
            tag_codes,
            tmp_var_count: 0,
            const_var_namespace: Vec::new(),
            dexp_result_handles: Vec::new(),
            tmp_tag_count: 0,
            const_expand_tag_name_map: Vec::new(),
        };
        proof {
            assert(r@.tags =~= Seq::empty());
            assert(r@.frames =~= Seq::empty());
            assert(r@.handles =~= Seq::empty());
            assert(r@.renames =~= Seq::empty());
        }
        r
    }

    /// The id of the tag `label`; a label not met before gets the next id.
    pub fn get_tag(&mut self, label: String) -> (r: usize)
        ensures
            (final(self)@, r) == old(self)@.tag_of(label@),
    {
        let ghost tv = vars_view(self.tags_map@);
        let mut i: usize = 0;
        while i < self.tags_map.len()
            invariant
                i <= self.tags_map.len(),
                tv == vars_view(self.tags_map@),
                *self == *old(self),
                tag_pos(tv, label@, 0) == tag_pos(tv, label@, i as int),
            decreases self.tags_map.len() - i,
        {
            assert(tv[i as int] == self.tags_map@[i as int]@);
            if self.tags_map[i] == label {
                return i;
            }
            i += 1;
        }
        let id = self.tags_map.len();
        self.tags_map.push(label);
        assert(vars_view(self.tags_map@) =~= tv.push(label@));
        id
    }

    /// The number of temporary tags handed out so far.
    pub fn tmp_tag_count(&self) -> (r: usize)
        ensures
            r == self@.tmp_tags,
    {
        self.tmp_tag_count
    }

    /// The number of temporary variables handed out so far.
    pub fn tmp_var_count(&self) -> (r: usize)
        ensures
            r == self@.tmp_vars,
    {
        self.tmp_var_count
    }

    /// A tag name that was not handed out before.
    pub fn get_tmp_tag(&mut self) -> (r: Var)
        requires
            old(self)@.tmp_tags < usize::MAX,
        ensures
            old(self)@.fresh_tag() == Ok::<(MetaV, Seq<char>), CompileError>((final(self)@, r@)),
    {
        let id = self.tmp_tag_count;
        self.tmp_tag_count += 1;
        tmp_text(id)
    }

    /// A variable name that was not handed out before.
    pub fn get_tmp_var(&mut self) -> (r: Var)
        requires
            old(self)@.tmp_vars < usize::MAX,
        ensures
            old(self)@.fresh_var() == Ok::<(MetaV, Seq<char>), CompileError>((final(self)@, r@)),
    {
        let id = self.tmp_var_count;
        self.tmp_var_count += 1;
        tmp_text(id)
    }

    /// Appends an entry to the emitted code.
    pub fn push(&mut self, data: TagLine)
        ensures
            final(self)@ == old(self)@.emit(data@),
    {
        self.tag_codes.push(data)
    }

    /// Takes the last entry off the emitted code.
    pub fn pop(&mut self) -> (r: Option<TagLine>)
        ensures
            old(self)@.codes.len() == 0 ==> r is None && final(self)@ == old(self)@,
            old(self)@.codes.len() > 0 ==> r is Some && r->Some_0@ == old(self)@.codes.last()
                && final(self)@ == old(self)@.with_codes(old(self)@.codes.drop_last()),
    {
        self.tag_codes.pop()
    }

    /// The number of entries emitted.
    pub fn tag_code_count(&self) -> (r: usize)
        ensures
            r == self@.codes.len(),
    {
        self.tag_codes.len()
    }

    /// The number of instructions emitted.
    pub fn tag_code_count_no_tag(&self) -> (r: usize)
        ensures
            r == count_code(self@.codes),
    {
        self.tag_codes.count_no_tag()
    }

    pub fn tag_codes(&self) -> (r: &TagCodes)
        ensures
            r@ == self@.codes,
    {
        &self.tag_codes
    }

    pub fn tag_codes_mut(&mut self) -> (r: &mut TagCodes)
        ensures
            r@ == old(self)@.codes,
            final(self)@ == old(self)@.with_codes(final(r)@),
    {
        &mut self.tag_codes
    }

    /// Takes the entries from index `at` on out of the emitted code.
    pub fn take_codes_from(&mut self, at: usize) -> (r: Vec<TagLine>)
        requires
            at <= old(self)@.codes.len(),
        ensures
            final(self)@ == old(self)@.with_codes(old(self)@.codes.take(at as int)),
            crate::tag_code::lines_view(r@) == old(self)@.codes.skip(at as int),
    {
        self.tag_codes.split_off(at)
    }

    /// Appends entries to the emitted code.
    pub fn extend_codes(&mut self, more: Vec<TagLine>)
        ensures
            final(self)@ == old(self)@.with_codes(
                old(self)@.codes + crate::tag_code::lines_view(more@),
            ),
    {
        self.tag_codes.extend(more)
    }

    /// Gives up the state and keeps the emitted code.
    pub fn into_tag_codes(self) -> (r: TagCodes)
        ensures
            r@ == self@.codes,
    {
        self.tag_codes
    }

    /// The tag names; the position of a name is its id.
    pub fn tags_map(&self) -> (r: &Vec<String>)
        ensures
            vars_view(r@) == self@.tags,
    {
        &self.tags_map
    }

    /// The number of open blocks.
    pub fn block_depth(&self) -> (r: usize)
        ensures
            r == self@.frames.len(),
    {
        self.const_var_namespace.len()
    }

    /// The number of open expressions.
    pub fn dexp_depth(&self) -> (r: usize)
        ensures
            r == self@.handles.len(),
    {
        self.dexp_result_handles.len()
    }

    /// Opens a block.
    pub fn block_enter(&mut self)
        ensures
            final(self)@ == old(self)@.enter_block(),
    {
        let frame: ConstFrame = (Vec::new(), Vec::new());
        proof {
            assert(frame_view(frame).leaks =~= Seq::empty());
            assert(frame_view(frame).consts =~= Seq::empty());
        }
        self.const_var_namespace.push(frame);
        assert(frames_view(self.const_var_namespace@) =~= frames_view(
            old(self).const_var_namespace@,
        ).push(frame_view(frame)));
    }

    /// Marks `name` to be handed to the enclosing block when the innermost
    /// block ends.
    pub fn add_const_value_leak(&mut self, name: Var)
        requires
            old(self)@.frames.len() > 0,
        ensures
            old(self)@.add_leak(name@) == Ok::<MetaV, CompileError>(final(self)@),
    {
        let ghost fv = frames_view(self.const_var_namespace@);
        let mut top = self.const_var_namespace.pop().unwrap();
        let ghost old_leaks = vars_view(top.0@);
        top.0.push(name);
        proof {
            assert(vars_view(top.0@) =~= old_leaks.push(name@));
        }
        self.const_var_namespace.push(top);
        assert(frames_view(self.const_var_namespace@) =~= fv.drop_last().push(frame_view(top)));
    }

    /// The constant called `name` of the innermost block that has one: the
    /// labels of its body, and the body.
    pub fn get_const_value(&self, name: &Var) -> (r: Option<&(Vec<Var>, Value)>)
        ensures
            match self@.find_const(name@) {
                Some(c) => r is Some && vars_view(r->Some_0.0@) == c.labels && r->Some_0.1@
                    == c.value,
                None => r is None,
            },
    {
        let ghost fv = frames_view(self.const_var_namespace@);
        let mut j: usize = self.const_var_namespace.len();
        assert(fv.take(j as int) =~= fv);
        while j > 0
            invariant
                j <= self.const_var_namespace.len(),
                fv == frames_view(self.const_var_namespace@),
                find_frames(fv, name@) == find_frames(fv.take(j as int), name@),
            decreases j,
        {
            proof {
                assert(fv.take(j as int).drop_last() =~= fv.take(j - 1));
                assert(fv.take(j as int).last() == frame_view(self.const_var_namespace@[j - 1]));
            }
            match find_entry(&self.const_var_namespace[j - 1].1, name) {
                Some(e) => {
                    return Some(&e.1);
                },
                None => {},
            }
            j -= 1;
        }
        assert(fv.take(0).len() == 0);
        None
    }

    /// The position of the constant called `name` of the innermost block
    /// that has one.
    pub fn const_position(&self, name: &Var) -> (r: Option<(usize, usize)>)
        ensures
            match const_pos(self@.frames, name@) {
                Some((j, k)) => r is Some && r->Some_0.0 == j && r->Some_0.1 == k && 0 <= j
                    < self@.frames.len() && 0 <= k < self@.frames[j].consts.len(),
                None => r is None,
            },
    {
        let ghost fv = frames_view(self.const_var_namespace@);
        let mut j: usize = self.const_var_namespace.len();
        assert(fv.take(j as int) =~= fv);
        while j > 0
            invariant
                j <= self.const_var_namespace.len(),
                fv == frames_view(self.const_var_namespace@),
                const_pos(fv, name@) == const_pos(fv.take(j as int), name@),
            decreases j,
        {
            proof {
                assert(fv.take(j as int).drop_last() =~= fv.take(j - 1));
                assert(fv.take(j as int).last() == frame_view(self.const_var_namespace@[j - 1]));
                assert(fv[j - 1] == frame_view(self.const_var_namespace@[j - 1]));
            }
            match find_entry_pos(&self.const_var_namespace[j - 1].1, name) {
                Some(k) => {
                    return Some((j - 1, k));
                },
                None => {},
            }
            j -= 1;
        }
        assert(fv.take(0).len() == 0);
        None
    }

    /// The constant called `name` of the innermost block that has one, to
    /// be changed in place: the labels of its body, and the body.
    pub fn get_const_value_mut(&mut self, name: &Var) -> (r: Option<&mut (Vec<Var>, Value)>)
        ensures
            final(self)@.tags == old(self)@.tags,
            final(self)@.codes == old(self)@.codes,
            final(self)@.tmp_vars == old(self)@.tmp_vars,
            final(self)@.tmp_tags == old(self)@.tmp_tags,
            final(self)@.handles == old(self)@.handles,
            final(self)@.renames == old(self)@.renames,
            match const_pos(old(self)@.frames, name@) {
                Some((j, k)) => r is Some && vars_view(r->Some_0.0@) == old(
                    self,
                )@.frames[j].consts[k].labels && r->Some_0.1@ == old(self)@.frames[j].consts[k].value
                    && const_replaced(
                    old(self)@.frames,
                    final(self)@.frames,
                    j,
                    k,
                    vars_view(final(r->Some_0).0@),
                    final(r->Some_0).1@,
                ),
                None => r is None && final(self)@.frames == old(self)@.frames,
            },
    {
        match self.const_position(name) {
            None => None,
            Some((j, k)) => {
                proof {
                    let fv = frames_view(self.const_var_namespace@);
                    assert(self@.frames == fv);
                    assert(fv.len() == self.const_var_namespace@.len());
                    let found = const_pos(fv, name@)->Some_0;
                    assert(found.0 == j && found.1 == k);
                    assert(fv[j as int] == frame_view(self.const_var_namespace@[j as int]));
                    assert(fv[j as int].consts.len() == self.const_var_namespace@[j as int].1@.len());
                    assert(fv[j as int].consts[k as int] == const_view(
                        self.const_var_namespace@[j as int].1@[k as int],
                    ));
                }
                Some(slot_mut(&mut self.const_var_namespace, j, k))
            },
        }
    }

    /// Opens an expression with the given handle.
    pub fn push_dexp_handle(&mut self, handle: Var)
        ensures
            final(self)@ == old(self)@.push_handle(handle@),
    {
        self.dexp_result_handles.push(handle);
        assert(vars_view(self.dexp_result_handles@) =~= vars_view(
            old(self).dexp_result_handles@,
        ).push(handle@));
    }

    /// Closes the innermost expression and gives its handle.
    pub fn pop_dexp_handle(&mut self) -> (r: Var)
        requires
            old(self)@.handles.len() > 0,
        ensures
            old(self)@.pop_handle() == Ok::<(MetaV, Seq<char>), CompileError>((final(self)@, r@)),
    {
        let r = self.dexp_result_handles.pop().unwrap();
        assert(vars_view(self.dexp_result_handles@) =~= vars_view(
            old(self).dexp_result_handles@,
        ).drop_last());
        r
    }

    /// The handle of the innermost expression.
    pub fn dexp_handle(&self) -> (r: &Var)
        requires
            self@.handles.len() > 0,
        ensures
            r@ == self@.handles.last(),
    {
        &self.dexp_result_handles[self.dexp_result_handles.len() - 1]
    }

    /// Gives the innermost expression a new handle, and hands back the old.
    pub fn set_dexp_handle(&mut self, new_dexp_handle: Var) -> (r: Var)
        requires
            old(self)@.handles.len() > 0,
        ensures
            old(self)@.set_handle(new_dexp_handle@) == Ok::<MetaV, CompileError>(final(self)@),
            r@ == old(self)@.handles.last(),
    {
        let r = self.dexp_result_handles.pop().unwrap();
        self.dexp_result_handles.push(new_dexp_handle);
        assert(vars_view(self.dexp_result_handles@) =~= vars_view(
            old(self).dexp_result_handles@,
        ).drop_last().push(new_dexp_handle@));
        r
    }

    /// The name of the label `name` inside the open expansions.
    pub fn get_in_const_label(&self, name: Var) -> (r: Var)
        ensures
            r@ == self@.label_in(name@),
    {
        let ghost rv = renames_view(self.const_expand_tag_name_map@);
        let mut j: usize = self.const_expand_tag_name_map.len();
        assert(rv.take(j as int) =~= rv);
        while j > 0
            invariant
                j <= self.const_expand_tag_name_map.len(),
                rv == renames_view(self.const_expand_tag_name_map@),
                rename_frames(rv, name@) == rename_frames(rv.take(j as int), name@),
            decreases j,
        {
            proof {
                assert(rv.take(j as int).drop_last() =~= rv.take(j - 1));
                assert(rv.take(j as int).last() == pairs_view(
                    self.const_expand_tag_name_map@[j - 1]@,
                ));
            }
            match find_rename(&self.const_expand_tag_name_map[j - 1], &name) {
                Some(n) => {
                    return n.clone();
                },
                None => {},
            }
            j -= 1;
        }
        assert(rv.take(0).len() == 0);
        name
    }

    /// Ends the innermost expansion and gives the new names it had.
    pub fn const_expand_exit(&mut self) -> (r: LabelMap)
        requires
            old(self)@.renames.len() > 0,
        ensures
            final(self)@ == old(self)@.expand_exit(),
            pairs_view(r@) == old(self)@.renames.last(),
    {
        let r = self.const_expand_tag_name_map.pop().unwrap();
        assert(renames_view(self.const_expand_tag_name_map@) =~= renames_view(
            old(self).const_expand_tag_name_map@,
        ).drop_last());
        r
    }
}

/// `consts` without the constants called `name`.
pub fn remove_named(consts: &Vec<ConstEntry>, name: &Var) -> (r: Vec<ConstEntry>)
    ensures
        consts_view(r@) == without(consts_view(consts@), name@),
{
    let ghost cv = consts_view(consts@);
    let mut out: Vec<ConstEntry> = Vec::new();
    let mut i: usize = 0;
    assert(consts_view(out@) =~= without(cv.take(0), name@));
    while i < consts.len()
        invariant
            i <= consts.len(),
            cv == consts_view(consts@),
            consts_view(out@) == without(cv.take(i as int), name@),
        decreases consts.len() - i,
    {
        proof {
            assert(cv.take(i + 1).drop_last() =~= cv.take(i as int));
            assert(cv.take(i + 1).last() == const_view(consts@[i as int]));
        }
        if !(consts[i].0 == *name) {
            let ghost before = consts_view(out@);
            let e = clone_entry(&consts[i]);
            out.push(e);
            assert(consts_view(out@) =~= before.push(const_view(e)));
        }
        i += 1;
    }
    assert(cv.take(consts.len() as int) =~= cv);
    out
}

/// A copy of a constant.
pub fn clone_entry(e: &ConstEntry) -> (r: ConstEntry)
    ensures
        const_view(r) == const_view(*e),
{
    (e.0.clone(), (clone_vars(&e.1.0), e.1.1.clone()))
}

/// The new names of the labels of the constant `name`, for the expansion
/// that takes the temporary tags from `first` on.
pub fn rename_labels(labels: &Vec<Var>, name: &Var, first: usize) -> (r: LabelMap)
    requires
        first + labels.len() <= usize::MAX,
    ensures
        pairs_view(r@) == label_renames(vars_view(labels@), name@, first as nat),
{
    let ghost lv = vars_view(labels@);
    let mut map: LabelMap = Vec::new();
    let mut i: usize = 0;
    while i < labels.len()
        invariant
            i <= labels.len(),
            first + labels.len() <= usize::MAX,
            lv == vars_view(labels@),
            pairs_view(map@) == label_renames(lv, name@, first as nat).take(i as int),
        decreases labels.len() - i,
    {
        let ghost before = pairs_view(map@);
        let mut mapped = tmp_text(first + i);
        mapped.append("_const_");
        mapped.append(name.as_str());
        mapped.append("_");
        mapped.append(labels[i].as_str());
        let label = labels[i].clone();
        map.push((label, mapped));
        i += 1;
        proof {
            assert(pairs_view(map@) =~= before.push((label@, mapped@)));
            assert(label_renames(lv, name@, first as nat).take(i as int) =~= before.push(
                (label@, mapped@),
            ));
        }
    }
    assert(label_renames(lv, name@, first as nat).take(labels.len() as int) =~= label_renames(
        lv,
        name@,
        first as nat,
    ));
    map
}

impl CompileMeta {
    /// Binds a constant in the innermost block, and gives what the block
    /// bound the name to before.
    pub fn add_const_value(&mut self, c: Const) -> (r: Option<(Vec<Var>, Value)>)
        requires
            old(self)@.frames.len() > 0,
        ensures
            old(self)@.add_const(c.0@, c.1@, vars_view(c.2@)) == Ok::<MetaV, CompileError>(
                final(self)@,
            ),
            match find_in(old(self)@.frames.last().consts, c.0@) {
                Some(p) => r is Some && vars_view(r->Some_0.0@) == p.labels && r->Some_0.1@
                    == p.value,
                None => r is None,
            },
    {
        let Const(var, value, labels) = c;
        let bound: Option<(Vec<Var>, Value)> = match &value {
            Value::Var(v1) => match self.get_const_value(v1) {
                Some(found) => Some((clone_vars(&found.0), found.1.clone())),
                None => None,
            },
            _ => None,
        };
        let (labels1, value1) = match bound {
            Some(b) => b,
            None => (labels, value),
        };
        let value2 = match value1 {
            Value::ReprVar(s) => Value::Var(s),
            v => v,
        };
        let ghost fv = frames_view(self.const_var_namespace@);
        let mut top = self.const_var_namespace.pop().unwrap();
        let ghost old_consts = consts_view(top.1@);
        let prev = match find_entry(&top.1, &var) {
            Some(e) => Some((clone_vars(&e.1.0), e.1.1.clone())),
            None => None,
        };
        let entry: ConstEntry = (var, (labels1, value2));
        top.1.push(entry);
        proof {
            assert(consts_view(top.1@) =~= old_consts.push(const_view(entry)));
        }
        self.const_var_namespace.push(top);
        assert(frames_view(self.const_var_namespace@) =~= fv.drop_last().push(frame_view(top)));
        prev
    }

    /// Ends the innermost block: the names it leaks go to the block below,
    /// and what is left of it is handed out.
    pub fn try_block_exit(&mut self) -> (r: Result<Vec<ConstEntry>, CompileError>)
        ensures
            match old(self)@.exit_block() {
                Ok(m) => r is Ok && final(self)@ == m && consts_view(r->Ok_0@) == leaks_left(
                    old(self)@.frames.last().consts,
                    old(self)@.frames.last().leaks,
                ),
                Err(e) => r == Err::<Vec<ConstEntry>, CompileError>(e),
            },
    {
        if self.const_var_namespace.len() == 0 {
            return Err(CompileError::NoBlock);
        }
        let ghost fv = frames_view(self.const_var_namespace@);
        let top = self.const_var_namespace.pop().unwrap();
        let leaks = top.0;
        let mut rest = top.1;
        let ghost topc = consts_view(rest@);
        let ghost lv = vars_view(leaks@);
        let ghost below = fv.drop_last();
        let ghost parent0 = if below.len() == 0 {
            None
        } else {
            Some(below.last().consts)
        };
        proof {
            assert(frames_view(self.const_var_namespace@) =~= below);
            assert(fv.last() == frame_view(top));
        }
        let mut i: usize = 0;
        while i < leaks.len()
            invariant
                i <= leaks.len(),
                lv == vars_view(leaks@),
                fv == old(self)@.frames,
                fv.len() > 0,
                fv.last().consts == topc,
                fv.last().leaks == lv,
                below == fv.drop_last(),
                parent0 == (if below.len() == 0 {
                    None
                } else {
                    Some(below.last().consts)
                }),
                self.tags_map == old(self).tags_map,
                self.tag_codes == old(self).tag_codes,
                self.tmp_var_count == old(self).tmp_var_count,
                self.tmp_tag_count == old(self).tmp_tag_count,
                self.dexp_result_handles == old(self).dexp_result_handles,
                self.const_expand_tag_name_map == old(self).const_expand_tag_name_map,
                frames_view(self.const_var_namespace@).len() == below.len(),
                below.len() > 0 ==> frames_view(self.const_var_namespace@).drop_last()
                    == below.drop_last() && frames_view(self.const_var_namespace@).last().leaks
                    == below.last().leaks,
                leak_all(topc, parent0, lv.take(i as int)) == Ok::<
                    Option<Seq<ConstV>>,
                    CompileError,
                >(
                    if below.len() == 0 {
                        None
                    } else {
                        Some(frames_view(self.const_var_namespace@).last().consts)
                    },
                ),
                consts_view(rest@) == leaks_left(topc, lv.take(i as int)),
            decreases leaks.len() - i,
        {
            proof {
                assert(lv.take(i + 1).drop_last() =~= lv.take(i as int));
                assert(lv.take(i + 1).last() == leaks@[i as int]@);
            }
            let entry = match find_entry(&rest, &leaks[i]) {
                None => {
                    proof {
                        assert(leak_all(topc, parent0, lv.take(i + 1)) == Err::<
                            Option<Seq<ConstV>>,
                            CompileError,
                        >(CompileError::LeakUnbound));
                        lemma_leak_error_stays(topc, parent0, lv, i + 1);
                    }
                    return Err(CompileError::LeakUnbound);
                },
                Some(e) => clone_entry(e),
            };
            if self.const_var_namespace.len() == 0 {
                proof {
                    assert(leak_all(topc, parent0, lv.take(i + 1)) == Err::<
                        Option<Seq<ConstV>>,
                        CompileError,
                    >(CompileError::LeakAtRoot));
                    lemma_leak_error_stays(topc, parent0, lv, i + 1);
                }
                return Err(CompileError::LeakAtRoot);
            }
            rest = remove_named(&rest, &leaks[i]);
            let ghost cur = frames_view(self.const_var_namespace@);
            let mut parent = self.const_var_namespace.pop().unwrap();
            let ghost old_consts = consts_view(parent.1@);
            parent.1.push(entry);
            proof {
                assert(consts_view(parent.1@) =~= old_consts.push(const_view(entry)));
            }
            self.const_var_namespace.push(parent);
            proof {
                assert(frames_view(self.const_var_namespace@) =~= cur.drop_last().push(
                    frame_view(parent),
                ));
                assert(frames_view(self.const_var_namespace@).drop_last() =~= cur.drop_last());
            }
            i += 1;
        }
        proof {
            assert(lv.take(leaks.len() as int) =~= lv);
            let now = frames_view(self.const_var_namespace@);
            if below.len() > 0 {
                assert(now =~= below.drop_last().push(
                    FrameV { leaks: below.last().leaks, consts: now.last().consts },
                ));
            } else {
                assert(now =~= below);
            }
        }
        Ok(rest)
    }

    /// Ends the innermost block; see [`CompileMeta::try_block_exit`].
    pub fn block_exit(&mut self) -> (r: Vec<ConstEntry>)
        requires
            old(self)@.exit_block() is Ok,
        ensures
            old(self)@.exit_block() == Ok::<MetaV, CompileError>(final(self)@),
            consts_view(r@) == leaks_left(
                old(self)@.frames.last().consts,
                old(self)@.frames.last().leaks,
            ),
    {
        match self.try_block_exit() {
            Ok(r) => r,
            Err(_) => Vec::new(),
        }
    }

    /// Begins the expansion of the constant `name`, if there is one, and
    /// gives a copy of its body.
    pub fn try_const_expand_enter(&mut self, name: &Var) -> (r: Result<Option<Value>, CompileError>)
        ensures
            match old(self)@.expand_enter(name@) {
                Ok(Some((m, body))) => r is Ok && r->Ok_0 is Some && final(self)@ == m
                    && r->Ok_0->Some_0@ == body,
                Ok(None) => r is Ok && r->Ok_0 is None && final(self)@ == old(self)@,
                Err(e) => r == Err::<Option<Value>, CompileError>(e),
            },
    {
        let (labels, value) = match self.get_const_value(name) {
            None => {
                return Ok(None);
            },
            Some(found) => (clone_vars(&found.0), found.1.clone()),
        };
        if labels.len() > usize::MAX - self.tmp_tag_count {
            return Err(CompileError::TooManyTemporaries);
        }
        let map = rename_labels(&labels, name, self.tmp_tag_count);
        self.tmp_tag_count += labels.len();
        self.const_expand_tag_name_map.push(map);
        assert(renames_view(self.const_expand_tag_name_map@) =~= renames_view(
            old(self).const_expand_tag_name_map@,
        ).push(pairs_view(map@)));
        Ok(Some(value))
    }

    /// Begins the expansion of the constant `name`; see
    /// [`CompileMeta::try_const_expand_enter`].
    pub fn const_expand_enter(&mut self, name: &Var) -> (r: Option<Value>)
        requires
            old(self)@.expand_enter(name@) is Ok,
        ensures
            match old(self)@.expand_enter(name@) {
                Ok(Some((m, body))) => r is Some && final(self)@ == m && r->Some_0@ == body,
                _ => r is None && final(self)@ == old(self)@,
            },
    {
        match self.try_const_expand_enter(name) {
            Ok(r) => r,
            Err(_) => None,
        }
    }
}

/// An error met while leaking a prefix of the names is the error of the
/// whole list.
pub proof fn lemma_leak_error_stays(
    top: Seq<ConstV>,
    parent: Option<Seq<ConstV>>,
    leaks: Seq<Seq<char>>,
    k: int,
)
    requires
        0 <= k <= leaks.len(),
        leak_all(top, parent, leaks.take(k)) is Err,
    ensures
        leak_all(top, parent, leaks) == leak_all(top, parent, leaks.take(k)),
    decreases leaks.len() - k,
{
    if k < leaks.len() {
        assert(leaks.take(k + 1).drop_last() =~= leaks.take(k));
        lemma_leak_error_stays(top, parent, leaks, k + 1);
    } else {
        assert(leaks.take(k) =~= leaks);
    }
}

} // verus!
