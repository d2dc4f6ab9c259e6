//! Conditions of jumps: their complement, their normal form, and the
//! inlining of comparisons that an expression wraps.

use vstd::prelude::*;
use crate::text::{owned, str_eq};
use crate::syntax::ast::{
    Value,
    ValueV,
    DExp,
    Expand,
    JumpCmp,
    JumpCmpV,
    CmpTree,
    CmpTreeV,
    Op,
    OpV,
    OpKind,
    CmpKind,
    LogicLine,
    LineV,
    FALSE_VAR,
    ZERO_VAR,
};
use crate::syntax::sem::{
    op_cmper,
    op_as_jump,
    jump_reversed,
    tree_reversed,
    is_false_repr,
    wrapped_op,
    inline_step,
    jump_depth,
    inlined,
    normalized,
    jump_operands,
    jump_name,
    jump_is_native,
};

verus! {

/// The sign of a condition in the source language.
pub open spec fn jump_symbol(c: JumpCmpV) -> Seq<char> {
    match c {
        JumpCmpV::Cmp(k, _, _) => k.symbol(),
        JumpCmpV::Always => "_"@,
        JumpCmpV::NotAlways => "!_"@,
    }
}

/// The tree `(..(t0 || t1) || ..) || tn`.
pub open spec fn ors_of(ts: Seq<CmpTreeV>) -> CmpTreeV
    recommends
        ts.len() > 0,
    decreases ts.len(),
{
    if ts.len() <= 1 {
        ts[0]
    } else {
        CmpTreeV::Or(Box::new(ors_of(ts.drop_last())), Box::new(ts.last()))
    }
}

/// The tree `(..(t0 && t1) && ..) && tn`.
pub open spec fn ands_of(ts: Seq<CmpTreeV>) -> CmpTreeV
    recommends
        ts.len() > 0,
    decreases ts.len(),
{
    if ts.len() <= 1 {
        ts[0]
    } else {
        CmpTreeV::And(Box::new(ands_of(ts.drop_last())), Box::new(ts.last()))
    }
}

pub open spec fn trees_view(ts: Seq<CmpTree>) -> Seq<CmpTreeV> {
    Seq::new(ts.len(), |i: int| ts[i]@)
}

impl Value {
    /// A placeholder without effect: the literal `0`, which no constant
    /// replaces.
    pub fn new_noeffect() -> (r: Self)
        ensures
            r@ == ValueV::ReprVar("0"@),
    {
        Value::ReprVar(owned(ZERO_VAR))
    }

    /// Whether the value is the literal `false` that no constant replaces.
    pub fn is_false_literal(&self) -> (r: bool)
        ensures
            r == is_false_repr(self@),
    {
        match self {
            Value::ReprVar(s) => {
                let r = str_eq(s.as_str(), FALSE_VAR);
                proof {
                    if r {
                        assert(self@ =~= ValueV::ReprVar("false"@));
                    }
                }
                r
            },
            _ => false,
        }
    }
}

impl Default for Value {
    fn default() -> (r: Self)
        ensures
            r@ == ValueV::ReprVar("0"@),
    {
        Value::new_noeffect()
    }
}

impl JumpCmp {
    /// The condition that `val` is not `false`.
    pub fn bool(val: Value) -> (r: Self)
        ensures
            r@ == JumpCmpV::Cmp(CmpKind::NotEqual, val@, ValueV::ReprVar("false"@)),
    {
        JumpCmp::NotEqual(val, Value::ReprVar(owned(FALSE_VAR)))
    }

    /// The comparison of kind `kind` between `a` and `b`.
    pub fn of_kind(kind: CmpKind, a: Value, b: Value) -> (r: Self)
        ensures
            r@ == JumpCmpV::Cmp(kind, a@, b@),
    {
        match kind {
            CmpKind::Equal => JumpCmp::Equal(a, b),
            CmpKind::NotEqual => JumpCmp::NotEqual(a, b),
            CmpKind::LessThan => JumpCmp::LessThan(a, b),
            CmpKind::LessThanEq => JumpCmp::LessThanEq(a, b),
            CmpKind::GreaterThan => JumpCmp::GreaterThan(a, b),
            CmpKind::GreaterThanEq => JumpCmp::GreaterThanEq(a, b),
            CmpKind::StrictEqual => JumpCmp::StrictEqual(a, b),
            CmpKind::StrictNotEqual => JumpCmp::StrictNotEqual(a, b),
        }
    }

    /// The kind of a comparison with two operands.
    pub fn kind(&self) -> (r: Option<CmpKind>)
        ensures
            match self@ {
                JumpCmpV::Cmp(k, _, _) => r == Some(k),
                _ => r is None,
            },
    {
        match self {
            JumpCmp::Equal(..) => Some(CmpKind::Equal),
            JumpCmp::NotEqual(..) => Some(CmpKind::NotEqual),
            JumpCmp::LessThan(..) => Some(CmpKind::LessThan),
            JumpCmp::LessThanEq(..) => Some(CmpKind::LessThanEq),
            JumpCmp::GreaterThan(..) => Some(CmpKind::GreaterThan),
            JumpCmp::GreaterThanEq(..) => Some(CmpKind::GreaterThanEq),
            JumpCmp::StrictEqual(..) => Some(CmpKind::StrictEqual),
            JumpCmp::StrictNotEqual(..) => Some(CmpKind::StrictNotEqual),
            JumpCmp::Always => None,
            JumpCmp::NotAlways => None,
        }
    }

    /// The condition that holds exactly when this one does not.
    pub fn reverse(self) -> (r: Self)
        ensures
            r@ == jump_reversed(self@),
    {
        match self {
            JumpCmp::Equal(a, b) => JumpCmp::NotEqual(a, b),
            JumpCmp::NotEqual(a, b) => JumpCmp::Equal(a, b),
            JumpCmp::LessThan(a, b) => JumpCmp::GreaterThanEq(a, b),
            JumpCmp::LessThanEq(a, b) => JumpCmp::GreaterThan(a, b),
            JumpCmp::GreaterThan(a, b) => JumpCmp::LessThanEq(a, b),
            JumpCmp::GreaterThanEq(a, b) => JumpCmp::LessThan(a, b),
            JumpCmp::StrictEqual(a, b) => JumpCmp::StrictNotEqual(a, b),
            JumpCmp::StrictNotEqual(a, b) => JumpCmp::StrictEqual(a, b),
            JumpCmp::Always => JumpCmp::NotAlways,
            JumpCmp::NotAlways => JumpCmp::Always,
        }
    }

    /// The two operands; a condition without operands gives two placeholders.
    pub fn get_values(self) -> (r: (Value, Value))
        ensures
            (r.0@, r.1@) == jump_operands(self@),
    {
        match self {
            JumpCmp::Equal(a, b)
            | JumpCmp::NotEqual(a, b)
            | JumpCmp::LessThan(a, b)
            | JumpCmp::LessThanEq(a, b)
            | JumpCmp::GreaterThan(a, b)
            | JumpCmp::GreaterThanEq(a, b)
            | JumpCmp::StrictEqual(a, b)
            | JumpCmp::StrictNotEqual(a, b) => (a, b),
            JumpCmp::Always | JumpCmp::NotAlways => (Value::new_noeffect(), Value::new_noeffect()),
        }
    }

    /// The two operands, if the condition has any.
    pub fn get_values_ref(&self) -> (r: Option<(&Value, &Value)>)
        ensures
            match self@ {
                JumpCmpV::Cmp(_, a, b) => r is Some && r->Some_0.0@ == a && r->Some_0.1@ == b,
                _ => r is None,
            },
    {
        match self {
            JumpCmp::Equal(a, b)
            | JumpCmp::NotEqual(a, b)
            | JumpCmp::LessThan(a, b)
            | JumpCmp::LessThanEq(a, b)
            | JumpCmp::GreaterThan(a, b)
            | JumpCmp::GreaterThanEq(a, b)
            | JumpCmp::StrictEqual(a, b)
            | JumpCmp::StrictNotEqual(a, b) => Some((a, b)),
            JumpCmp::Always | JumpCmp::NotAlways => None,
        }
    }

    /// The name of the condition in the target language, which has none for
    /// "strictly unequal" and "never".
    pub fn cmp_str(&self) -> (r: &'static str)
        requires
            jump_is_native(self@),
        ensures
            r@ == jump_name(self@),
    {
        match self.kind() {
            Some(k) => k.text(),
            None => "always",
        }
    }

    /// The sign of the condition in the source language.
    pub fn get_symbol_cmp_str(&self) -> (r: &'static str)
        ensures
            r@ == jump_symbol(self@),
    {
        match self {
            JumpCmp::Always => "_",
            JumpCmp::NotAlways => "!_",
            _ => match self.kind() {
                Some(k) => k.symbol_text(),
                None => "_",
            },
        }
    }

    /// One step of inlining; a condition that gives none comes back as it was.
    fn inline_once(self) -> (r: Result<JumpCmp, JumpCmp>)
        ensures
            match inline_step(self@) {
                Some(c) => r is Ok && r->Ok_0@ == c,
                None => r is Err && r->Err_0@ == self@,
            },
    {
        let invert = match &self {
            JumpCmp::Equal(..) => true,
            JumpCmp::NotEqual(..) => false,
            _ => {
                return Err(self);
            },
        };
        let (a, b) = self.get_values();
        let a_donates = a.is_dexp() && b.is_false_literal();
        let b_donates = !a_donates && a.is_false_literal() && b.is_dexp();
        if a_donates {
            match donate(a) {
                Ok(inner) => Ok(
                    if invert {
                        inner.reverse()
                    } else {
                        inner
                    },
                ),
                Err(a) => Err(
                    if invert {
                        JumpCmp::Equal(a, b)
                    } else {
                        JumpCmp::NotEqual(a, b)
                    },
                ),
            }
        } else if b_donates {
            match donate(b) {
                Ok(inner) => Ok(
                    if invert {
                        inner.reverse()
                    } else {
                        inner
                    },
                ),
                Err(b) => Err(
                    if invert {
                        JumpCmp::Equal(a, b)
                    } else {
                        JumpCmp::NotEqual(a, b)
                    },
                ),
            }
        } else {
            Err(
                if invert {
                    JumpCmp::Equal(a, b)
                } else {
                    JumpCmp::NotEqual(a, b)
                },
            )
        }
    }

    /// The condition with every wrapper around a comparison removed.
    fn into_inlined(self) -> (r: JumpCmp)
        ensures
            r@ == inlined(self@),
        decreases jump_depth(self@),
    {
        match self.inline_once() {
            Ok(inner) => inner.into_inlined(),
            Err(same) => same,
        }
    }

    /// Removes every wrapper around a comparison: where the condition
    /// compares with `false` an expression whose only statement is a
    /// comparing operation, it becomes the comparison itself.
    pub fn inline_cmp_op(&mut self)
        ensures
            final(self)@ == inlined(old(self)@),
    {
        let mut taken = JumpCmp::Always;
        core::mem::swap(self, &mut taken);
        *self = taken.into_inlined();
    }

    /// The condition in a form that the target language can test.
    pub fn do_start_compile_into(self) -> (r: Self)
        ensures
            r@ == normalized(self@),
            jump_is_native(r@),
    {
        match self.into_inlined() {
            JumpCmp::NotAlways => JumpCmp::NotEqual(Value::new_noeffect(), Value::new_noeffect()),
            JumpCmp::StrictNotEqual(a, b) => {
                let op = Op::StrictEqual(Value::ResultHandle, a, b);
                let mut lines: Vec<LogicLine> = Vec::new();
                lines.push(LogicLine::Op(op));
                let d = Value::DExp(DExp { result: String::new(), lines: Expand(lines) });
                proof {
                    assert(lines@ =~= seq![LogicLine::Op(op)]);
                    assert(crate::syntax::ast::lines_view(lines) =~= seq![LineV::Op(op@)]);
                    assert(d@->DExp_0.lines =~= seq![LineV::Op(op@)]);
                }
                JumpCmp::bool(d).reverse()
            },
            other => other,
        }
    }
}

/// Takes the comparison out of an expression that wraps one; any other
/// value comes back as it was.
fn donate(v: Value) -> (r: Result<JumpCmp, Value>)
    ensures
        match wrapped_op(v@) {
            Some(op) => match op_as_jump(op) {
                Some(c) => r is Ok && r->Ok_0@ == c,
                None => r is Err && r->Err_0@ == v@,
            },
            None => r is Err && r->Err_0@ == v@,
        },
{
    match v {
        Value::DExp(d) => {
            let DExp { result, lines } = d;
            let mut lines = lines.0;
            if !result.as_str().is_empty() || lines.len() != 1 {
                proof {
                    assert(crate::syntax::ast::lines_view(lines).len() == lines.len());
                }
                return Err(Value::DExp(DExp { result, lines: Expand(lines) }));
            }
            let ghost before = crate::syntax::ast::lines_view(lines);
            let line = lines.pop().unwrap();
            match line {
                LogicLine::Op(op) => {
                    let mut op = op;
                    match op.try_into_cmp() {
                        Some(c) => Ok(c),
                        None => {
                            lines.push(LogicLine::Op(op));
                            assert(crate::syntax::ast::lines_view(lines) =~= before);
                            Err(Value::DExp(DExp { result, lines: Expand(lines) }))
                        },
                    }
                },
                other => {
                    lines.push(other);
                    assert(crate::syntax::ast::lines_view(lines) =~= before);
                    Err(Value::DExp(DExp { result, lines: Expand(lines) }))
                },
            }
        },
        other => Err(other),
    }
}

impl Op {
    /// The comparison that the operation computes, if it computes one.
    pub fn get_cmper(&self) -> (r: Option<CmpKind>)
        ensures
            r == op_cmper(self@.kind),
    {
        match self.kind {
            OpKind::LessThan => Some(CmpKind::LessThan),
            OpKind::LessThanEq => Some(CmpKind::LessThanEq),
            OpKind::GreaterThan => Some(CmpKind::GreaterThan),
            OpKind::GreaterThanEq => Some(CmpKind::GreaterThanEq),
            OpKind::Equal => Some(CmpKind::Equal),
            OpKind::NotEqual => Some(CmpKind::NotEqual),
            OpKind::StrictEqual => Some(CmpKind::StrictEqual),
            _ => None,
        }
    }

    /// Turns a comparing operation whose result goes to the handle of the
    /// expression around it into the jump condition that tests the same.
    /// Where there is one, the operands move into it and the operation keeps
    /// placeholders; else nothing changes.
    pub fn try_into_cmp(&mut self) -> (r: Option<JumpCmp>)
        ensures
            match op_as_jump(old(self)@) {
                Some(c) => r is Some && r->Some_0@ == c && final(self)@ == (OpV {
                    a: ValueV::ResultHandle,
                    b: Some(ValueV::ResultHandle),
                    ..old(self)@
                }),
                None => r is None && final(self)@ == old(self)@,
            },
    {
        let kind = match self.get_cmper() {
            Some(k) => k,
            None => {
                return None;
            },
        };
        if !self.result.is_result_handle() || self.arg2.is_none() {
            return None;
        }
        let mut a = Value::ResultHandle;
        core::mem::swap(&mut self.arg1, &mut a);
        let mut b = Some(Value::ResultHandle);
        core::mem::swap(&mut self.arg2, &mut b);
        Some(JumpCmp::of_kind(kind, a, b.unwrap()))
    }
}

impl CmpTree {
    /// The tree that holds exactly when this one does not.
    pub fn reverse(self) -> (r: Self)
        ensures
            r@ == tree_reversed(self@),
        decreases self,
    {
        match self {
            CmpTree::Or(a, b) => CmpTree::And(Box::new((*a).reverse()), Box::new((*b).reverse())),
            CmpTree::And(a, b) => CmpTree::Or(Box::new((*a).reverse()), Box::new((*b).reverse())),
            CmpTree::Atom(c) => CmpTree::Atom(c.reverse()),
        }
    }

    /// The trees joined by `||`, from the left; none for no tree.
    pub fn new_ors(trees: Vec<CmpTree>) -> (r: Option<Self>)
        ensures
            trees.len() == 0 ==> r is None,
            trees.len() > 0 ==> r is Some && r->Some_0@ == ors_of(trees_view(trees@)),
    {
        let ghost tv = trees_view(trees@);
        let mut rest = trees;
        let mut stack: Vec<CmpTree> = Vec::new();
        while rest.len() > 0
            invariant
                rest.len() + stack.len() == tv.len(),
                forall|i: int| 0 <= i < rest.len() ==> rest@[i]@ == tv[i],
                forall|i: int|
                    0 <= i < stack.len() ==> (#[trigger] stack@[i])@ == tv[tv.len() - 1 - i],
            decreases rest.len(),
        {
            let t = rest.pop().unwrap();
            stack.push(t);
        }
        let mut root = match stack.pop() {
            Some(t) => t,
            None => {
                return None;
            },
        };
        let mut n: usize = 1;
        assert(tv.take(1) =~= seq![tv[0]]);
        while stack.len() > 0
            invariant
                1 <= n <= tv.len(),
                tv.len() <= usize::MAX,
                stack.len() + n == tv.len(),
                forall|i: int|
                    0 <= i < stack.len() ==> (#[trigger] stack@[i])@ == tv[tv.len() - 1 - i],
                root@ == ors_of(tv.take(n as int)),
            decreases stack.len(),
        {
            let t = stack.pop().unwrap();
            proof {
                assert(tv.take(n + 1).drop_last() =~= tv.take(n as int));
                assert(tv.take(n + 1).last() == tv[n as int]);
            }
            root = CmpTree::Or(Box::new(root), Box::new(t));
            n += 1;
        }
        assert(tv.take(n as int) =~= tv);
        Some(root)
    }

    /// The trees joined by `&&`, from the left; none for no tree.
    pub fn new_ands(trees: Vec<CmpTree>) -> (r: Option<Self>)
        ensures
            trees.len() == 0 ==> r is None,
            trees.len() > 0 ==> r is Some && r->Some_0@ == ands_of(trees_view(trees@)),
    {
        let ghost tv = trees_view(trees@);
        let mut rest = trees;
        let mut stack: Vec<CmpTree> = Vec::new();
        while rest.len() > 0
            invariant
                rest.len() + stack.len() == tv.len(),
                forall|i: int| 0 <= i < rest.len() ==> rest@[i]@ == tv[i],
                forall|i: int|
                    0 <= i < stack.len() ==> (#[trigger] stack@[i])@ == tv[tv.len() - 1 - i],
            decreases rest.len(),
        {
            let t = rest.pop().unwrap();
            stack.push(t);
        }
        let mut root = match stack.pop() {
            Some(t) => t,
            None => {
                return None;
            },
        };
        let mut n: usize = 1;
        assert(tv.take(1) =~= seq![tv[0]]);
        while stack.len() > 0
            invariant
                1 <= n <= tv.len(),
                tv.len() <= usize::MAX,
                stack.len() + n == tv.len(),
                forall|i: int|
                    0 <= i < stack.len() ==> (#[trigger] stack@[i])@ == tv[tv.len() - 1 - i],
                root@ == ands_of(tv.take(n as int)),
            decreases stack.len(),
        {
            let t = stack.pop().unwrap();
            proof {
                assert(tv.take(n + 1).drop_last() =~= tv.take(n as int));
                assert(tv.take(n + 1).last() == tv[n as int]);
            }
            root = CmpTree::And(Box::new(root), Box::new(t));
            n += 1;
        }
        assert(tv.take(n as int) =~= tv);
        Some(root)
    }
}

/// Reversing a condition twice gives the condition back.
pub proof fn lemma_jump_reverse_involutive(c: JumpCmpV)
    ensures
        jump_reversed(jump_reversed(c)) == c,
{
}

/// Reversing a tree twice gives the tree back: the complement of the
/// complement is the condition itself, structure and all.
pub proof fn law_reverse_involutive(t: CmpTreeV)
    ensures
        tree_reversed(tree_reversed(t)) == t,
    decreases t,
{
    match t {
        CmpTreeV::Or(a, b) => {
            law_reverse_involutive(*a);
            law_reverse_involutive(*b);
        },
        CmpTreeV::And(a, b) => {
            law_reverse_involutive(*a);
            law_reverse_involutive(*b);
        },
        CmpTreeV::Atom(c) => {
            lemma_jump_reverse_involutive(c);
        },
    }
}

} // verus!
