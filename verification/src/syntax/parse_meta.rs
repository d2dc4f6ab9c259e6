//! What reading a source text carries along, and the statements that the
//! shorter forms of the language stand for.

use vstd::prelude::*;
use vstd::std_specs::convert::FromSpecImpl;
use crate::text::{owned, push_usize, dec_text, usize_text, reversed};
pub use crate::text::UIntError;
use crate::syntax::ast::{
    Var,
    Location,
    Value,
    ValueV,
    JumpCmp,
    JumpCmpV,
    CmpTree,
    CmpTreeV,
    CmpKind,
    Expand,
    LogicLine,
    LineV,
    values_view,
    lines_view,
    vars_view,
};
use crate::syntax::sem::tree_reversed;

verus! {

/// What is wrong with a source text that reads as the grammar has it.
#[derive(Debug, PartialEq, Clone)]
pub enum Errors {
    /// The text where an unsigned number must stand, and why it is none.
    NotALiteralUInteger(String, UIntError),
    /// An assignment of so many values to so many variables.
    SetVarNoPatternValue(usize, usize),
}

/// An error between two positions of the source text.
#[derive(Debug, PartialEq, Clone)]
pub struct Error {
    pub start: Location,
    pub end: Location,
    pub err: Errors,
}

impl From<(Location, Errors, Location)> for Error {
    fn from(value: (Location, Errors, Location)) -> (r: Self) {
        Error { start: value.0, end: value.2, err: value.1 }
    }
}

impl FromSpecImpl<(Location, Errors, Location)> for Error {
    open spec fn obeys_from_spec() -> bool {
        true
    }

    open spec fn from_spec(value: (Location, Errors, Location)) -> Self {
        Error { start: value.0, end: value.2, err: value.1 }
    }
}

impl From<([Location; 2], Errors)> for Error {
    fn from(value: ([Location; 2], Errors)) -> (r: Self) {
        Error { start: value.0[0], end: value.0[1], err: value.1 }
    }
}

impl FromSpecImpl<([Location; 2], Errors)> for Error {
    open spec fn obeys_from_spec() -> bool {
        true
    }

    open spec fn from_spec(value: ([Location; 2], Errors)) -> Self {
        Error { start: value.0[0], end: value.0[1], err: value.1 }
    }
}

impl From<((Location, Location), Errors)> for Error {
    fn from(value: ((Location, Location), Errors)) -> (r: Self) {
        Error { start: (value.0).0, end: (value.0).1, err: value.1 }
    }
}

impl FromSpecImpl<((Location, Location), Errors)> for Error {
    open spec fn obeys_from_spec() -> bool {
        true
    }

    open spec fn from_spec(value: ((Location, Location), Errors)) -> Self {
        Error { start: (value.0).0, end: (value.0).1, err: value.1 }
    }
}

/// The state of reading a source text.
#[derive(Debug)]
pub struct Meta {
    tmp_var_count: usize,
    tag_number: usize,
    /// The labels defined so far in each open scope, the innermost last.
    defined_labels: Vec<Vec<Var>>,
    /// The targets of `break` of the open loops, made when first used.
    break_labels: Vec<Option<Var>>,
    /// The targets of `continue` of the open loops, made when first used.
    continue_labels: Vec<Option<Var>>,
}

/// The mathematical form of a [`Meta`].
pub struct MetaPV {
    pub tmp_vars: usize,
    pub tags: usize,
    pub labels: Seq<Seq<Seq<char>>>,
    pub breaks: Seq<Option<Seq<char>>>,
    pub continues: Seq<Option<Seq<char>>>,
}

/// The name of the `n`-th temporary that reading makes.
pub open spec fn parse_tmp_name(n: nat) -> Seq<char> {
    "___"@ + dec_text(n)
}

pub open spec fn scopes_view(v: Seq<Vec<Var>>) -> Seq<Seq<Seq<char>>> {
    Seq::new(v.len(), |i: int| vars_view(v[i]@))
}

pub open spec fn opt_view(o: Option<Var>) -> Option<Seq<char>> {
    match o {
        Some(s) => Some(s@),
        None => None,
    }
}

pub open spec fn opts_view(v: Seq<Option<Var>>) -> Seq<Option<Seq<char>>> {
    Seq::new(v.len(), |i: int| opt_view(v[i]))
}

impl View for Meta {
    type V = MetaPV;

    closed spec fn view(&self) -> MetaPV {
        MetaPV {
            tmp_vars: self.tmp_var_count,
            tags: self.tag_number,
            labels: scopes_view(self.defined_labels@),
            breaks: opts_view(self.break_labels@),
            continues: opts_view(self.continue_labels@),
        }
    }
}

impl MetaPV {
    /// The state in which reading starts: one open scope, no loop.
    pub open spec fn fresh() -> MetaPV {
        MetaPV {
            tmp_vars: 0,
            tags: 0,
            labels: seq![Seq::empty()],
            breaks: Seq::empty(),
            continues: Seq::empty(),
        }
    }

    pub open spec fn next_var(self) -> (MetaPV, Seq<char>) {
        (
            MetaPV { tmp_vars: (self.tmp_vars + 1) as usize, ..self },
            parse_tmp_name(self.tmp_vars as nat),
        )
    }

    pub open spec fn next_tag(self) -> (MetaPV, Seq<char>) {
        (MetaPV { tags: (self.tags + 1) as usize, ..self }, parse_tmp_name(self.tags as nat))
    }

    /// Two tags, one after the other.
    pub open spec fn next_two_tags(self) -> (MetaPV, Seq<char>, Seq<char>) {
        (
            MetaPV { tags: (self.tags + 2) as usize, ..self },
            parse_tmp_name(self.tags as nat),
            parse_tmp_name((self.tags + 1) as nat),
        )
    }

    pub open spec fn with_label(self, label: Seq<char>) -> MetaPV {
        MetaPV {
            labels: self.labels.drop_last().push(self.labels.last().push(label)),
            ..self
        }
    }

    /// The target of `break` of the innermost loop, made now if the loop
    /// had none.
    pub open spec fn break_target(self) -> (MetaPV, Seq<char>) {
        match self.breaks.last() {
            Some(l) => (self, l),
            None => (
                MetaPV {
                    tags: (self.tags + 1) as usize,
                    breaks: self.breaks.drop_last().push(Some(parse_tmp_name(self.tags as nat))),
                    ..self
                },
                parse_tmp_name(self.tags as nat),
            ),
        }
    }

    /// The target of `continue` of the innermost loop, made now if the loop
    /// had none.
    pub open spec fn continue_target(self) -> (MetaPV, Seq<char>) {
        match self.continues.last() {
            Some(l) => (self, l),
            None => (
                MetaPV {
                    tags: (self.tags + 1) as usize,
                    continues: self.continues.drop_last().push(
                        Some(parse_tmp_name(self.tags as nat)),
                    ),
                    ..self
                },
                parse_tmp_name(self.tags as nat),
            ),
        }
    }
}

/// The name of the `n`-th temporary that reading makes.
pub fn parse_tmp_text(n: usize) -> (r: String)
    ensures
        r@ == parse_tmp_name(n as nat),
{
    let mut r = owned("___");
    push_usize(&mut r, n);
    r
}

impl Default for Meta {
    fn default() -> (r: Self)
        ensures
            r@ == MetaPV::fresh(),
    {
        let mut scopes: Vec<Vec<Var>> = Vec::new();
        scopes.push(Vec::new());
        let r = Meta {
            tmp_var_count: 0,
            tag_number: 0,
            defined_labels: scopes,
            break_labels: Vec::new(),
            continue_labels: Vec::new(),
        };
        proof {
            assert(vars_view(scopes@[0]@) =~= Seq::empty());
            assert(r@.labels =~= seq![Seq::empty()]);
            assert(r@.breaks =~= Seq::empty());
            assert(r@.continues =~= Seq::empty());
        }
        r
    }
}

/// A copy of a list of optional labels.
fn clone_opts(v: &Vec<Option<Var>>) -> (r: Vec<Option<Var>>)
    ensures
        opts_view(r@) == opts_view(v@),
{
    let mut r: Vec<Option<Var>> = Vec::new();
    let mut i: usize = 0;
    while i < v.len()
        invariant
            i <= v.len(),
            r.len() == i,
            forall|j: int| 0 <= j < i ==> opt_view(r@[j]) == opt_view(v@[j]),
        decreases v.len() - i,
    {
        let x = match &v[i] {
            Some(s) => Some(s.clone()),
            None => None,
        };
        r.push(x);
        i += 1;
    }
    assert(opts_view(r@) =~= opts_view(v@));
    r
}

impl Meta {
    /// A copy of the state.
    pub fn duplicate(&self) -> (r: Self)
        ensures
            r@ == self@,
    {
        let mut scopes: Vec<Vec<Var>> = Vec::new();
        let mut i: usize = 0;
        while i < self.defined_labels.len()
            invariant
                i <= self.defined_labels.len(),
                scopes.len() == i,
                forall|j: int|
                    0 <= j < i ==> vars_view(scopes@[j]@) == vars_view(self.defined_labels@[j]@),
            decreases self.defined_labels.len() - i,
        {
            scopes.push(crate::syntax::ast::clone_vars(&self.defined_labels[i]));
            i += 1;
        }
        assert(scopes_view(scopes@) =~= scopes_view(self.defined_labels@));
        Meta {
            tmp_var_count: self.tmp_var_count,
            tag_number: self.tag_number,
            defined_labels: scopes,
            break_labels: clone_opts(&self.break_labels),
            continue_labels: clone_opts(&self.continue_labels),
        }
    }

    /// The number of temporary variables handed out so far.
    pub fn tmp_var_count(&self) -> (r: usize)
        ensures
            r == self@.tmp_vars,
    {
        self.tmp_var_count
    }

    /// The number of tags handed out so far.
    pub fn tag_number(&self) -> (r: usize)
        ensures
            r == self@.tags,
    {
        self.tag_number
    }

    /// The number of open scopes of labels.
    pub fn label_scope_depth(&self) -> (r: usize)
        ensures
            r == self@.labels.len(),
    {
        self.defined_labels.len()
    }

    pub fn new() -> (r: Self)
        ensures
            r@ == MetaPV::fresh(),
    {
        Meta::default()
    }

    /// A variable name that was not handed out before.
    pub fn get_tmp_var(&mut self) -> (r: Var)
        requires
            old(self)@.tmp_vars < usize::MAX,
        ensures
            (final(self)@, r@) == old(self)@.next_var(),
    {
        let var = self.tmp_var_count;
        self.tmp_var_count += 1;
        parse_tmp_text(var)
    }

    /// A tag name that was not handed out before.
    pub fn get_tag(&mut self) -> (r: String)
        requires
            old(self)@.tags < usize::MAX,
        ensures
            (final(self)@, r@) == old(self)@.next_tag(),
    {
        let tag = self.tag_number;
        self.tag_number += 1;
        parse_tmp_text(tag)
    }

    /// Records that the innermost scope defines `label`, and hands the
    /// label back.
    pub fn add_defined_label(&mut self, label: Var) -> (r: Var)
        requires
            old(self)@.labels.len() > 0,
        ensures
            final(self)@ == old(self)@.with_label(label@),
            r@ == label@,
    {
        let ghost sv = scopes_view(self.defined_labels@);
        let mut top = self.defined_labels.pop().unwrap();
        let ghost tv = vars_view(top@);
        top.push(label.clone());
        assert(vars_view(top@) =~= tv.push(label@));
        self.defined_labels.push(top);
        assert(scopes_view(self.defined_labels@) =~= sv.drop_last().push(tv.push(label@)));
        label
    }

    /// Opens a scope of labels.
    pub fn add_label_scope(&mut self)
        ensures
            final(self)@ == (MetaPV {
                labels: old(self)@.labels.push(Seq::empty()),
                ..old(self)@
            }),
    {
        let scope: Vec<Var> = Vec::new();
        assert(vars_view(scope@) =~= Seq::empty());
        self.defined_labels.push(scope);
        assert(scopes_view(self.defined_labels@) =~= scopes_view(old(self).defined_labels@).push(
            Seq::empty(),
        ));
    }

    /// Closes the innermost scope of labels and gives the labels it defined.
    pub fn pop_label_scope(&mut self) -> (r: Vec<Var>)
        requires
            old(self)@.labels.len() > 0,
        ensures
            final(self)@ == (MetaPV { labels: old(self)@.labels.drop_last(), ..old(self)@ }),
            vars_view(r@) == old(self)@.labels.last(),
    {
        let r = self.defined_labels.pop().unwrap();
        assert(scopes_view(self.defined_labels@) =~= scopes_view(
            old(self).defined_labels@,
        ).drop_last());
        r
    }

    /// Opens a loop with the given targets of `break` and `continue`.
    pub fn add_control_level(&mut self, on_break: Option<Var>, on_continue: Option<Var>)
        ensures
            final(self)@ == (MetaPV {
                breaks: old(self)@.breaks.push(opt_view(on_break)),
                continues: old(self)@.continues.push(opt_view(on_continue)),
                ..old(self)@
            }),
    {
        self.break_labels.push(on_break);
        self.continue_labels.push(on_continue);
        proof {
            assert(opts_view(self.break_labels@) =~= opts_view(old(self).break_labels@).push(
                opt_view(on_break),
            ));
            assert(opts_view(self.continue_labels@) =~= opts_view(
                old(self).continue_labels@,
            ).push(opt_view(on_continue)));
        }
    }

    /// Closes the innermost loop and gives its targets of `break` and of
    /// `continue`; a target that was never used is none.
    pub fn pop_control_level(&mut self) -> (r: (Option<Var>, Option<Var>))
        requires
            old(self)@.breaks.len() > 0,
            old(self)@.continues.len() > 0,
        ensures
            final(self)@ == (MetaPV {
                breaks: old(self)@.breaks.drop_last(),
                continues: old(self)@.continues.drop_last(),
                ..old(self)@
            }),
            opt_view(r.0) == old(self)@.breaks.last(),
            opt_view(r.1) == old(self)@.continues.last(),
    {
        let b = self.break_labels.pop().unwrap();
        let c = self.continue_labels.pop().unwrap();
        proof {
            assert(opts_view(self.break_labels@) =~= opts_view(
                old(self).break_labels@,
            ).drop_last());
            assert(opts_view(self.continue_labels@) =~= opts_view(
                old(self).continue_labels@,
            ).drop_last());
        }
        (b, c)
    }

    /// The target of `break` of the innermost loop.
    pub fn get_break(&mut self) -> (r: &Var)
        requires
            old(self)@.breaks.len() > 0,
            old(self)@.breaks.last() is None ==> old(self)@.tags < usize::MAX,
        ensures
            (final(self)@, r@) == old(self)@.break_target(),
    {
        let n = self.break_labels.len();
        let ghost bv = opts_view(self.break_labels@);
        assert(bv.last() == opt_view(self.break_labels@[n - 1]));
        if self.break_labels[n - 1].is_none() {
            let tag = self.get_tag();
            let _ = self.break_labels.pop();
            self.break_labels.push(Some(tag));
            assert(opts_view(self.break_labels@) =~= bv.drop_last().push(Some(tag@)));
        }
        self.break_labels[n - 1].as_ref().unwrap()
    }

    /// The target of `continue` of the innermost loop.
    pub fn get_continue(&mut self) -> (r: &Var)
        requires
            old(self)@.continues.len() > 0,
            old(self)@.continues.last() is None ==> old(self)@.tags < usize::MAX,
        ensures
            (final(self)@, r@) == old(self)@.continue_target(),
    {
        let n = self.continue_labels.len();
        let ghost cv = opts_view(self.continue_labels@);
        assert(cv.last() == opt_view(self.continue_labels@[n - 1]));
        if self.continue_labels[n - 1].is_none() {
            let tag = self.get_tag();
            let _ = self.continue_labels.pop();
            self.continue_labels.push(Some(tag));
            assert(opts_view(self.continue_labels@) =~= cv.drop_last().push(Some(tag@)));
        }
        self.continue_labels[n - 1].as_ref().unwrap()
    }

    /// Appends the label to `lines`, where there is one, and records that
    /// the innermost scope defines it.
    pub fn push_some_label_to(&mut self, lines: &mut Vec<LogicLine>, label: Option<Var>)
        requires
            old(self)@.labels.len() > 0,
        ensures
            match label {
                Some(l) => final(self)@ == old(self)@.with_label(l@) && lines_view(*final(lines))
                    == lines_view(*old(lines)).push(LineV::Label(l@)),
                None => final(self)@ == old(self)@ && lines_view(*final(lines)) == lines_view(
                    *old(lines),
                ),
            },
    {
        match label {
            Some(l) => {
                let ghost before = lines_view(*lines);
                let line = LogicLine::new_label(l, self);
                lines.push(line);
                assert(lines_view(*lines) =~= before.push(line@));
            },
            None => {},
        }
    }

    /// The statement `set var value`.
    pub fn build_set(var: Value, value: Value) -> (r: LogicLine)
        ensures
            r@ == set_line(var@, value@),
    {
        let mut args: Vec<Value> = Vec::new();
        args.push(Value::ReprVar(owned("set")));
        args.push(var);
        args.push(value);
        assert(values_view(args) =~= seq![ValueV::ReprVar("set"@), var@, value@]);
        LogicLine::Other(args)
    }

    /// The statements of an assignment of `values` to `vars`, one to one:
    /// one `set` for one variable, a block of them for more. Where the
    /// numbers differ the assignment is an error.
    pub fn build_sets(loc: [Location; 2], vars: Vec<Value>, values: Vec<Value>) -> (r: Result<
        LogicLine,
        Error,
    >)
        requires
            vars.len() > 0 || values.len() > 0,
        ensures
            match r {
                Ok(line) => vars.len() == values.len() && line@ == sets_line(
                    values_view(vars),
                    values_view(values),
                ),
                Err(e) => vars.len() != values.len() && e == (Error {
                    start: loc[0],
                    end: loc[1],
                    err: Errors::SetVarNoPatternValue(vars.len(), values.len()),
                }),
            },
    {
        if vars.len() != values.len() {
            return Err(
                Error {
                    start: loc[0],
                    end: loc[1],
                    err: Errors::SetVarNoPatternValue(vars.len(), values.len()),
                },
            );
        }
        let ghost av = values_view(vars);
        let ghost bv = values_view(values);
        let n = vars.len();
        let mut a = reversed(vars);
        let mut b = reversed(values);
        if n == 1 {
            let x = a.pop().unwrap();
            let y = b.pop().unwrap();
            assert(x@ == av[0] && y@ == bv[0]);
            return Ok(Meta::build_set(x, y));
        }
        let mut out: Vec<LogicLine> = Vec::new();
        let mut i: usize = 0;
        assert(lines_view(out) =~= set_lines(av, bv).take(0));
        while i < n
            invariant
                i <= n,
                n == av.len(),
                n == bv.len(),
                a.len() == n - i,
                b.len() == n - i,
                forall|j: int| 0 <= j < a.len() ==> (#[trigger] a@[j])@ == av[n - 1 - j],
                forall|j: int| 0 <= j < b.len() ==> (#[trigger] b@[j])@ == bv[n - 1 - j],
                lines_view(out) == set_lines(av, bv).take(i as int),
            decreases n - i,
        {
            let x = a.pop().unwrap();
            let y = b.pop().unwrap();
            let ghost before = lines_view(out);
            let line = Meta::build_set(x, y);
            out.push(line);
            i += 1;
            proof {
                assert(lines_view(out) =~= before.push(line@));
                assert(set_lines(av, bv).take(i as int) =~= set_lines(av, bv).take(i - 1).push(
                    line@,
                ));
            }
        }
        assert(set_lines(av, bv).take(n as int) =~= set_lines(av, bv));
        Ok(LogicLine::Expand(Expand(out)))
    }
}

/// The statement `set var value`.
pub open spec fn set_line(var: ValueV, value: ValueV) -> LineV {
    LineV::Other(seq![ValueV::ReprVar("set"@), var, value])
}

/// One `set` for each variable and its value.
pub open spec fn set_lines(vars: Seq<ValueV>, values: Seq<ValueV>) -> Seq<LineV> {
    Seq::new(vars.len(), |i: int| set_line(vars[i], values[i]))
}

/// The statement that assigns `values` to `vars`, one to one.
pub open spec fn sets_line(vars: Seq<ValueV>, values: Seq<ValueV>) -> LineV {
    if vars.len() == 1 {
        set_line(vars[0], values[0])
    } else {
        LineV::Expand(set_lines(vars, values))
    }
}

impl LogicLine {
    /// The label `lab`, recorded as defined in the innermost scope.
    pub fn new_label(lab: Var, meta: &mut Meta) -> (r: Self)
        requires
            old(meta)@.labels.len() > 0,
        ensures
            r@ == LineV::Label(lab@),
            final(meta)@ == old(meta)@.with_label(lab@),
    {
        LogicLine::Label(meta.add_defined_label(lab))
    }
}

/// What a `case` of a `switch` catches besides the numbered cases.
pub enum SwitchCatch {
    /// The index is above the greatest case.
    Overflow,
    /// The index is below zero.
    Underflow,
    /// The index is a number that no case has.
    Misses,
    /// A condition of the author's.
    UserDefine(CmpTree),
}

/// The condition under which the catcher is passed by: the complement of
/// what it catches.
pub open spec fn catch_skip(catch: SwitchCatch, value: ValueV, max_case: nat) -> CmpTreeV {
    match catch {
        SwitchCatch::UserDefine(c) => tree_reversed(c@),
        SwitchCatch::Overflow => CmpTreeV::Atom(
            JumpCmpV::Cmp(CmpKind::LessThanEq, value, ValueV::ReprVar(dec_text(max_case))),
        ),
        _ => CmpTreeV::Atom(
            JumpCmpV::Cmp(CmpKind::GreaterThanEq, value, ValueV::ReprVar("0"@)),
        ),
    }
}

pub open spec fn fuel_of(n: usize) -> nat {
    n as nat
}

impl SwitchCatch {
    /// The condition under which the catcher is passed by, for the index
    /// `value` of a `switch` whose greatest case is `max_case`. A catcher of
    /// misses is no condition: it has none.
    pub fn build(self, value: Value, max_case: usize) -> (r: CmpTree)
        requires
            !(self is Misses),
        ensures
            r@ == catch_skip(self, value@, fuel_of(max_case)),
    {
        match self {
            SwitchCatch::UserDefine(c) => c.reverse(),
            SwitchCatch::Overflow => {
                let top = Value::ReprVar(usize_text(max_case));
                assert(top@ == ValueV::ReprVar(dec_text(fuel_of(max_case))));
                CmpTree::Atom(JumpCmp::of_kind(CmpKind::LessThanEq, value, top))
            },
            _ => CmpTree::Atom(
                JumpCmp::of_kind(CmpKind::GreaterThanEq, value, Value::new_noeffect()),
            ),
        }
    }

    pub fn is_misses(&self) -> (r: bool)
        ensures
            r == (*self is Misses),
    {
        matches!(self, SwitchCatch::Misses)
    }
}

} // verus!
