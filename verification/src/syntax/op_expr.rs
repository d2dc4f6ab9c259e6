//! Expressions over operations, and the statements they stand for.

use vstd::prelude::*;
use crate::syntax::ast::{
    Var,
    Value,
    ValueV,
    DExp,
    DExpV,
    JumpCmp,
    JumpCmpV,
    CmpTree,
    CmpTreeV,
    Op,
    OpV,
    Goto,
    Expand,
    Take,
    LogicLine,
    LineV,
    lines_view,
};
use crate::syntax::parse_meta::{Meta, MetaPV, set_line};

verus! {

/// An expression as it is read: a value, an operation whose result is still
/// open, or a choice between two expressions.
pub enum OpExprInfo {
    Value(Value),
    Op(Op),
    IfElse { child_result: Var, cmp: CmpTree, true_line: LogicLine, false_line: LogicLine },
}

/// The mathematical form of an [`OpExprInfo`].
pub enum OpExprV {
    Value(ValueV),
    Op(OpV),
    IfElse { child: Seq<char>, cond: CmpTreeV, yes: LineV, no: LineV },
}

impl View for OpExprInfo {
    type V = OpExprV;

    open spec fn view(&self) -> OpExprV {
        match *self {
            OpExprInfo::Value(v) => OpExprV::Value(v@),
            OpExprInfo::Op(op) => OpExprV::Op(op@),
            OpExprInfo::IfElse { child_result, cmp, true_line, false_line } => OpExprV::IfElse {
                child: child_result@,
                cond: cmp@,
                yes: true_line@,
                no: false_line@,
            },
        }
    }
}

/// The statements of a choice: `child` is bound to the handle of `bind`;
/// where `cond` holds, `yes` runs, else `no`.
pub open spec fn choice_lines(
    bind: ValueV,
    child: Seq<char>,
    cond: CmpTreeV,
    yes: LineV,
    no: LineV,
    true_lab: Seq<char>,
    skip_lab: Seq<char>,
) -> Seq<LineV> {
    seq![
        LineV::Take(child, bind),
        LineV::Goto(true_lab, cond),
        no,
        LineV::Goto(skip_lab, CmpTreeV::Atom(JumpCmpV::Always)),
        LineV::Label(true_lab),
        yes,
        LineV::Label(skip_lab),
    ]
}

impl OpExprV {
    /// What an expression must meet to be turned into statements: the
    /// result of an operation is still open, and a choice finds two fresh
    /// tags.
    pub open spec fn usable(self, m: MetaPV) -> bool {
        match self {
            OpExprV::Op(op) => op.result is ResultHandle,
            OpExprV::Value(_) => true,
            OpExprV::IfElse { .. } => m.tags < usize::MAX - 1,
        }
    }

    /// The statement that computes the expression into `result`.
    pub open spec fn line(self, m: MetaPV, result: ValueV) -> (MetaPV, LineV) {
        match self {
            OpExprV::Op(op) => (m, LineV::Op(OpV { result, ..op })),
            OpExprV::Value(v) => (m, set_line(result, v)),
            OpExprV::IfElse { child, cond, yes, no } => {
                let (m1, t, s) = m.next_two_tags();
                (m1, LineV::Expand(choice_lines(result, child, cond, yes, no, t, s)))
            },
        }
    }

    /// The value that stands for the expression.
    pub open spec fn value(self, m: MetaPV) -> (MetaPV, ValueV) {
        match self {
            OpExprV::Op(op) => (
                m,
                ValueV::DExp(DExpV { result: Seq::empty(), lines: seq![LineV::Op(op)] }),
            ),
            OpExprV::Value(v) => (m, v),
            OpExprV::IfElse { child, cond, yes, no } => {
                let (m1, t, s) = m.next_two_tags();
                (
                    m1,
                    ValueV::DExp(
                        DExpV {
                            result: Seq::empty(),
                            lines: choice_lines(ValueV::ResultHandle, child, cond, yes, no, t, s),
                        },
                    ),
                )
            },
        }
    }

    /// The choice between `yes` and `no`, both computed into one fresh
    /// variable.
    pub open spec fn choice(m: MetaPV, cond: CmpTreeV, yes: OpExprV, no: OpExprV) -> (
        MetaPV,
        OpExprV,
    ) {
        let (m1, result) = m.next_var();
        let (m2, yes_line) = yes.line(m1, ValueV::Var(result));
        let (m3, no_line) = no.line(m2, ValueV::Var(result));
        (m3, OpExprV::IfElse { child: result, cond, yes: yes_line, no: no_line })
    }
}

/// The seven statements of a choice.
fn choice_vec(
    bind: Value,
    child: Var,
    cond: CmpTree,
    yes: LogicLine,
    no: LogicLine,
    true_lab: Var,
    skip_lab: Var,
) -> (r: Vec<LogicLine>)
    ensures
        lines_view(r) == choice_lines(bind@, child@, cond@, yes@, no@, true_lab@, skip_lab@),
{
    let never_fails = JumpCmp::Always;
    assert(never_fails@ == JumpCmpV::Always);
    let always = CmpTree::Atom(never_fails);
    assert(always@ == CmpTreeV::Atom(JumpCmpV::Always));
    let l0 = LogicLine::Take(Take(child, bind));
    let l1 = LogicLine::Goto(Goto(true_lab.clone(), cond));
    let l3 = LogicLine::Goto(Goto(skip_lab.clone(), always));
    let l4 = LogicLine::Label(true_lab);
    let l6 = LogicLine::Label(skip_lab);
    let mut v: Vec<LogicLine> = Vec::new();
    v.push(l0);
    v.push(l1);
    v.push(no);
    v.push(l3);
    v.push(l4);
    v.push(yes);
    v.push(l6);
    assert(lines_view(v) =~= choice_lines(
        bind@,
        child@,
        cond@,
        yes@,
        no@,
        true_lab@,
        skip_lab@,
    ));
    v
}

impl OpExprInfo {
    /// The choice between two expressions under a condition.
    pub fn new_if_else(meta: &mut Meta, cmp: CmpTree, true_line: Self, false_line: Self) -> (r:
        Self)
        requires
            old(meta)@.tmp_vars < usize::MAX,
            true_line@.usable(old(meta)@.next_var().0),
            false_line@.usable(
                true_line@.line(
                    old(meta)@.next_var().0,
                    ValueV::Var(old(meta)@.next_var().1),
                ).0,
            ),
        ensures
            (final(meta)@, r@) == OpExprV::choice(old(meta)@, cmp@, true_line@, false_line@),
    {
        let result = meta.get_tmp_var();
        let yes = true_line.into_logic_line(meta, Value::Var(result.clone()));
        let no = false_line.into_logic_line(meta, Value::Var(result.clone()));
        OpExprInfo::IfElse { child_result: result, cmp, true_line: yes, false_line: no }
    }

    /// The value that stands for the expression: an operation or a choice
    /// becomes an expression without a named handle around it.
    pub fn into_value(self, meta: &mut Meta) -> (r: Value)
        requires
            self@.usable(old(meta)@),
        ensures
            (final(meta)@, r@) == self@.value(old(meta)@),
    {
        match self {
            OpExprInfo::Op(op) => {
                let mut lines: Vec<LogicLine> = Vec::new();
                let line = LogicLine::Op(op);
                lines.push(line);
                assert(lines_view(lines) =~= seq![LineV::Op(op@)]);
                Value::DExp(DExp { result: String::new(), lines: Expand(lines) })
            },
            OpExprInfo::Value(value) => value,
            OpExprInfo::IfElse { child_result, cmp, true_line, false_line } => {
                let true_lab = meta.get_tag();
                let skip_lab = meta.get_tag();
                let lines = choice_vec(
                    Value::ResultHandle,
                    child_result,
                    cmp,
                    true_line,
                    false_line,
                    true_lab,
                    skip_lab,
                );
                Value::DExp(DExp { result: String::new(), lines: Expand(lines) })
            },
        }
    }

    /// The statement that computes the expression into `result`.
    pub fn into_logic_line(self, meta: &mut Meta, result: Value) -> (r: LogicLine)
        requires
            self@.usable(old(meta)@),
        ensures
            (final(meta)@, r@) == self@.line(old(meta)@, result@),
    {
        match self {
            OpExprInfo::Op(op) => {
                let mut op = op;
                op.result = result;
                LogicLine::Op(op)
            },
            OpExprInfo::Value(value) => Meta::build_set(result, value),
            OpExprInfo::IfElse { child_result, cmp, true_line, false_line } => {
                let true_lab = meta.get_tag();
                let skip_lab = meta.get_tag();
                let lines = choice_vec(
                    result,
                    child_result,
                    cmp,
                    true_line,
                    false_line,
                    true_lab,
                    skip_lab,
                );
                LogicLine::Expand(Expand(lines))
            },
        }
    }
}

impl From<Value> for OpExprInfo {
    fn from(value: Value) -> (r: Self) {
        OpExprInfo::Value(value)
    }
}

impl vstd::std_specs::convert::FromSpecImpl<Value> for OpExprInfo {
    open spec fn obeys_from_spec() -> bool {
        true
    }

    open spec fn from_spec(value: Value) -> Self {
        OpExprInfo::Value(value)
    }
}

impl From<Op> for OpExprInfo {
    fn from(value: Op) -> (r: Self) {
        OpExprInfo::Op(value)
    }
}

impl vstd::std_specs::convert::FromSpecImpl<Op> for OpExprInfo {
    open spec fn obeys_from_spec() -> bool {
        true
    }

    open spec fn from_spec(value: Op) -> Self {
        OpExprInfo::Op(value)
    }
}

/// The expression of the operation that `f` makes.
pub fn op_expr_build_op<F>(f: F) -> (r: OpExprInfo) where F: FnOnce() -> Op
    requires
        f.requires(()),
    ensures
        match r {
            OpExprInfo::Op(op) => f.ensures((), op),
            _ => false,
        },
{
    OpExprInfo::Op(f())
}

} // verus!
