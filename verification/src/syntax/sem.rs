//! The meaning of the language: what each value resolves to and what each
//! statement emits, as functions on the state of a compilation.

use vstd::prelude::*;
use crate::text::{dec_text, is_string_text, join_with};
use crate::tag_code::{TagLineV, count_code, noop_line};
use crate::syntax::ast::{ValueV, DExpV, JumpCmpV, CmpTreeV, OpV, LineV, OpKind, CmpKind};
use crate::syntax::model::{MetaV, CompileError, Resolved, Compiled};

verus! {

/// The comparison that an operation computes, if it computes one.
pub open spec fn op_cmper(kind: OpKind) -> Option<CmpKind> {
    match kind {
        OpKind::LessThan => Some(CmpKind::LessThan),
        OpKind::LessThanEq => Some(CmpKind::LessThanEq),
        OpKind::GreaterThan => Some(CmpKind::GreaterThan),
        OpKind::GreaterThanEq => Some(CmpKind::GreaterThanEq),
        OpKind::Equal => Some(CmpKind::Equal),
        OpKind::NotEqual => Some(CmpKind::NotEqual),
        OpKind::StrictEqual => Some(CmpKind::StrictEqual),
        _ => None,
    }
}

/// The jump condition that tests directly what the operation would compute:
/// there is one where the operation is a comparison whose result goes to
/// the handle of the expression around it.
pub open spec fn op_as_jump(op: OpV) -> Option<JumpCmpV> {
    match (op_cmper(op.kind), op.b) {
        (Some(k), Some(b)) => if op.result is ResultHandle {
            Some(JumpCmpV::Cmp(k, op.a, b))
        } else {
            None
        },
        _ => None,
    }
}

/// The condition that holds exactly when `c` does not.
pub open spec fn jump_reversed(c: JumpCmpV) -> JumpCmpV {
    match c {
        JumpCmpV::Cmp(k, a, b) => JumpCmpV::Cmp(k.reversed(), a, b),
        JumpCmpV::Always => JumpCmpV::NotAlways,
        JumpCmpV::NotAlways => JumpCmpV::Always,
    }
}

/// The tree that holds exactly when `t` does not: every comparison is
/// replaced by its complement, and `&&` and `||` change places.
pub open spec fn tree_reversed(t: CmpTreeV) -> CmpTreeV
    decreases t,
{
    match t {
        CmpTreeV::Or(a, b) => CmpTreeV::And(
            Box::new(tree_reversed(*a)),
            Box::new(tree_reversed(*b)),
        ),
        CmpTreeV::And(a, b) => CmpTreeV::Or(
            Box::new(tree_reversed(*a)),
            Box::new(tree_reversed(*b)),
        ),
        CmpTreeV::Atom(c) => CmpTreeV::Atom(jump_reversed(c)),
    }
}

/// Whether `v` is the literal `false` that no constant replaces.
pub open spec fn is_false_repr(v: ValueV) -> bool {
    v == ValueV::ReprVar("false"@)
}

/// The operation that a comparison with `false` wraps: the only statement
/// of an expression without a named handle.
pub open spec fn wrapped_op(v: ValueV) -> Option<OpV> {
    match v {
        ValueV::DExp(d) => if d.result.len() == 0 && d.lines.len() == 1 {
            match d.lines[0] {
                LineV::Op(op) => Some(op),
                _ => None,
            }
        } else {
            None
        },
        _ => None,
    }
}

/// One step of inlining: where `c` compares an expression that wraps a
/// comparing operation with `false`, the condition that tests the
/// operation's operands directly.
pub open spec fn inline_step(c: JumpCmpV) -> Option<JumpCmpV> {
    match c {
        JumpCmpV::Cmp(k, a, b) => if k == CmpKind::Equal || k == CmpKind::NotEqual {
            let donor = if a is DExp && is_false_repr(b) {
                wrapped_op(a)
            } else if is_false_repr(a) && b is DExp {
                wrapped_op(b)
            } else {
                None
            };
            match donor {
                Some(op) => match op_as_jump(op) {
                    Some(inner) => if k == CmpKind::Equal {
                        Some(jump_reversed(inner))
                    } else {
                        Some(inner)
                    },
                    None => None,
                },
                None => None,
            }
        } else {
            None
        },
        _ => None,
    }
}

/// How many inlining steps a value can give at most.
pub open spec fn inline_depth(v: ValueV) -> nat
    decreases v,
{
    match v {
        ValueV::DExp(d) => if d.lines.len() == 1 {
            match d.lines[0] {
                LineV::Op(op) => 1 + inline_depth(op.a) + (match op.b {
                    Some(b) => inline_depth(b),
                    None => 0,
                }),
                _ => 0,
            }
        } else {
            0
        },
        _ => 0,
    }
}

pub open spec fn jump_depth(c: JumpCmpV) -> nat {
    match c {
        JumpCmpV::Cmp(_, a, b) => inline_depth(a) + inline_depth(b),
        _ => 0,
    }
}

/// `c` with every wrapper around a comparison removed.
pub open spec fn inlined(c: JumpCmpV) -> JumpCmpV
    decreases jump_depth(c),
{
    match inline_step(c) {
        Some(inner) => {
            if jump_depth(inner) < jump_depth(c) {
                inlined(inner)
            } else {
                c
            }
        },
        None => c,
    }
}

/// The condition in a form that the target language can test: wrappers
/// are inlined, "never" becomes `0 != 0`, and "strictly unequal" becomes
/// the test that a strict comparison gave `false`.
pub open spec fn normalized(c: JumpCmpV) -> JumpCmpV {
    match inlined(c) {
        JumpCmpV::NotAlways => JumpCmpV::Cmp(
            CmpKind::NotEqual,
            ValueV::ReprVar("0"@),
            ValueV::ReprVar("0"@),
        ),
        JumpCmpV::Cmp(CmpKind::StrictNotEqual, a, b) => JumpCmpV::Cmp(
            CmpKind::Equal,
            ValueV::DExp(
                DExpV {
                    result: Seq::empty(),
                    lines: seq![
                        LineV::Op(
                            OpV {
                                kind: OpKind::StrictEqual,
                                result: ValueV::ResultHandle,
                                a,
                                b: Some(b),
                            },
                        ),
                    ],
                },
            ),
            ValueV::ReprVar("false"@),
        ),
        other => other,
    }
}

/// The two operands of a condition; a condition without operands has two
/// placeholders.
pub open spec fn jump_operands(c: JumpCmpV) -> (ValueV, ValueV) {
    match c {
        JumpCmpV::Cmp(_, a, b) => (a, b),
        _ => (ValueV::ReprVar("0"@), ValueV::ReprVar("0"@)),
    }
}

/// The name of a condition in the target language.
pub open spec fn jump_name(c: JumpCmpV) -> Seq<char> {
    match c {
        JumpCmpV::Cmp(k, _, _) => k.name(),
        _ => "always"@,
    }
}

/// Whether the target language has the condition.
pub open spec fn jump_is_native(c: JumpCmpV) -> bool {
    match c {
        JumpCmpV::Cmp(k, _, _) => k.is_native(),
        JumpCmpV::Always => true,
        JumpCmpV::NotAlways => false,
    }
}

/// The text of a jump's condition.
pub open spec fn jump_cond(name: Seq<char>, a: Seq<char>, b: Seq<char>) -> Seq<char> {
    name + " "@ + a + " "@ + b
}

/// The words of an operation's instruction.
pub open spec fn op_words(kind: OpKind, result: Seq<char>, a: Seq<char>, b: Seq<char>) -> Seq<
    Seq<char>,
> {
    seq!["op"@, kind.name(), result, a, b]
}

pub open spec fn text_line(text: Seq<char>) -> TagLineV {
    TagLineV::Line { tags: Seq::empty(), text }
}

/// What was emitted between the states `before` and `after`, taken out of
/// the code of `after`.
pub open spec fn take_emitted(before: MetaV, after: MetaV) -> (MetaV, Seq<TagLineV>) {
    let at = if before.codes.len() <= after.codes.len() {
        before.codes.len() as int
    } else {
        after.codes.len() as int
    };
    (after.with_codes(after.codes.take(at)), after.codes.skip(at))
}

/// The greatest number of instructions among the branches.
pub open spec fn max_len(cases: Seq<Seq<TagLineV>>) -> nat
    decreases cases.len(),
{
    if cases.len() == 0 {
        0
    } else {
        let rest = max_len(cases.drop_last());
        let last = count_code(cases.last());
        if last > rest {
            last
        } else {
            rest
        }
    }
}

/// `n` filler instructions.
pub open spec fn noops(n: nat) -> Seq<TagLineV> {
    Seq::new(n, |i: int| noop_line())
}

/// The branch, filled up to `len` instructions.
pub open spec fn padded(case: Seq<TagLineV>, len: nat) -> Seq<TagLineV> {
    if len >= count_code(case) {
        case + noops((len - count_code(case)) as nat)
    } else {
        case
    }
}

/// The branches one after the other, each filled up to `len` instructions.
pub open spec fn laid_out(cases: Seq<Seq<TagLineV>>, len: nat) -> Seq<TagLineV>
    decreases cases.len(),
{
    if cases.len() == 0 {
        Seq::empty()
    } else {
        laid_out(cases.drop_last(), len) + padded(cases.last(), len)
    }
}

pub type ResolvedAll = Result<(MetaV, Seq<Seq<char>>), CompileError>;

pub type CompiledCases = Result<(MetaV, Seq<Seq<TagLineV>>), CompileError>;

pub type CompiledHead = Result<(MetaV, Seq<TagLineV>), CompileError>;

/// Resolves a value: compiles what it depends on and gives its handle.
pub open spec fn sem_value(m: MetaV, v: ValueV, fuel: nat) -> Resolved
    decreases fuel, 2nat, 0nat,
{
    match v {
        ValueV::Var(name) => sem_var(m, name, fuel),
        ValueV::DExp(d) => sem_dexp(m, d, fuel),
        ValueV::ResultHandle => if m.handles.len() == 0 {
            Err(CompileError::OutOfDExp)
        } else {
            Ok((m, m.handles.last()))
        },
        ValueV::ReprVar(name) => Ok((m, name)),
        ValueV::ValueBind(base, attr) => if fuel == 0 {
            Err(CompileError::RecursionLimit)
        } else {
            match sem_value(m, *base, (fuel - 1) as nat) {
                Err(e) => Err(e),
                Ok((m1, h)) => if is_string_text(attr) {
                    Err(CompileError::StringAsBindAttr)
                } else if is_string_text(h) {
                    Err(CompileError::StringAsBindBase)
                } else {
                    Ok((m1, crate::syntax::model::bind_name(h, attr)))
                },
            }
        },
    }
}

/// Resolves a name: a constant of that name is expanded, one step where
/// its body is a name; any other name stands for itself.
pub open spec fn sem_var(m: MetaV, name: Seq<char>, fuel: nat) -> Resolved
    decreases fuel, 1nat, 0nat,
{
    match m.expand_enter(name) {
        Err(e) => Err(e),
        Ok(None) => Ok((m, name)),
        Ok(Some((m1, body))) => {
            let res: Resolved = match body {
                ValueV::Var(v) => Ok((m1, v)),
                _ => if fuel == 0 {
                    Err(CompileError::RecursionLimit)
                } else {
                    sem_value(m1, body, (fuel - 1) as nat)
                },
            };
            match res {
                Err(e) => Err(e),
                Ok((m2, h)) => Ok((m2.expand_exit(), h)),
            }
        },
    }
}

/// The handle that an expression starts with: a fresh temporary where it
/// names none, the body of the constant of that name where there is one,
/// else the name itself.
pub open spec fn dexp_handle(m: MetaV, result: Seq<char>) -> Resolved {
    if result.len() == 0 {
        m.fresh_var()
    } else {
        match m.find_const(result) {
            Some(c) => match c.value {
                ValueV::DExp(_) => Err(CompileError::ConstRebindAsDExpHandle),
                ValueV::Var(v) => if v.len() == 0 {
                    Err(CompileError::ConstRebindNotVar)
                } else {
                    Ok((m, v))
                },
                _ => Err(CompileError::ConstRebindNotVar),
            },
            None => Ok((m, result)),
        }
    }
}

/// Resolves an expression: its statements are compiled with its handle as
/// the current one, and the handle that is current at their end is the result.
pub open spec fn sem_dexp(m: MetaV, d: DExpV, fuel: nat) -> Resolved
    decreases fuel, 1nat, 0nat,
{
    match dexp_handle(m, d.result) {
        Err(e) => Err(e),
        Ok((m1, h)) => if fuel == 0 {
            Err(CompileError::RecursionLimit)
        } else {
            match sem_lines(m1.push_handle(h), d.lines, (fuel - 1) as nat) {
                Err(e) => Err(e),
                Ok(m2) => m2.pop_handle(),
            }
        },
    }
}

/// Resolves the values in turn.
pub open spec fn sem_values(m: MetaV, vs: Seq<ValueV>, fuel: nat) -> ResolvedAll
    decreases fuel, 3nat, vs.len(),
{
    if vs.len() == 0 {
        Ok((m, Seq::empty()))
    } else {
        match sem_values(m, vs.drop_last(), fuel) {
            Err(e) => Err(e),
            Ok((m1, hs)) => match sem_value(m1, vs.last(), fuel) {
                Err(e) => Err(e),
                Ok((m2, h)) => Ok((m2, hs.push(h))),
            },
        }
    }
}

/// The words of an operation's instruction: the result and the operands
/// are resolved in that order, and a missing operand is written `0`.
pub open spec fn sem_op(m: MetaV, op: OpV, fuel: nat) -> ResolvedAll
    decreases fuel, 3nat, 0nat,
{
    match sem_value(m, op.result, fuel) {
        Err(e) => Err(e),
        Ok((m1, r)) => match sem_value(m1, op.a, fuel) {
            Err(e) => Err(e),
            Ok((m2, a)) => match op.b {
                None => Ok((m2, op_words(op.kind, r, a, "0"@))),
                Some(bv) => match sem_value(m2, bv, fuel) {
                    Err(e) => Err(e),
                    Ok((m3, b)) => Ok((m3, op_words(op.kind, r, a, b))),
                },
            },
        },
    }
}

/// Compiles an operation to its instruction.
pub open spec fn sem_op_line(m: MetaV, op: OpV, fuel: nat) -> Compiled
    decreases fuel, 4nat, 0nat,
{
    match sem_op(m, op, fuel) {
        Err(e) => Err(e),
        Ok((m1, words)) => Ok(m1.emit(text_line(join_with(words, " "@)))),
    }
}

/// Compiles a condition to jumps to `do_tag` that are taken exactly when
/// the condition holds. `a || b` is the jumps of `a`, then those of `b`.
/// `a && b` jumps over the jumps of `b`, to a fresh tag behind them, when
/// `a` does not hold.
pub open spec fn sem_build(m: MetaV, t: CmpTreeV, do_tag: Seq<char>, fuel: nat) -> Compiled
    decreases fuel, 3nat, 0nat,
{
    let tag = m.label_in(do_tag);
    match t {
        CmpTreeV::Or(a, b) => if fuel == 0 {
            Err(CompileError::RecursionLimit)
        } else {
            match sem_build(m, *a, tag, (fuel - 1) as nat) {
                Err(e) => Err(e),
                Ok(m1) => sem_build(m1, *b, tag, (fuel - 1) as nat),
            }
        },
        CmpTreeV::And(a, b) => match m.fresh_tag() {
            Err(e) => Err(e),
            Ok((m1, end)) => if fuel == 0 {
                Err(CompileError::RecursionLimit)
            } else {
                match sem_build(m1, tree_reversed(*a), end, (fuel - 1) as nat) {
                    Err(e) => Err(e),
                    Ok(m2) => match sem_build(m2, *b, tag, (fuel - 1) as nat) {
                        Err(e) => Err(e),
                        Ok(m3) => {
                            let (m4, id) = m3.tag_of(end);
                            Ok(m4.emit(TagLineV::TagDown(id)))
                        },
                    },
                }
            },
        },
        CmpTreeV::Atom(c) => {
            let c1 = normalized(c);
            let (av, bv) = jump_operands(c1);
            match sem_value(m, av, fuel) {
                Err(e) => Err(e),
                Ok((m1, a)) => match sem_value(m1, bv, fuel) {
                    Err(e) => Err(e),
                    Ok((m2, b)) => {
                        let (m3, id) = m2.tag_of(tag);
                        Ok(
                            m3.emit(
                                TagLineV::Jump {
                                    tags: Seq::empty(),
                                    to: id,
                                    cond: jump_cond(jump_name(c1), a, b),
                                },
                            ),
                        )
                    },
                },
            }
        },
    }
}

/// Compiles each branch on its own and takes its code out.
pub open spec fn sem_cases(m: MetaV, cases: Seq<LineV>, fuel: nat) -> CompiledCases
    decreases fuel, 3nat, cases.len(),
{
    if cases.len() == 0 {
        Ok((m, Seq::empty()))
    } else {
        match sem_cases(m, cases.drop_last(), fuel) {
            Err(e) => Err(e),
            Ok((m1, done)) => if fuel == 0 {
                Err(CompileError::RecursionLimit)
            } else {
                match sem_line(m1, cases.last(), (fuel - 1) as nat) {
                    Err(e) => Err(e),
                    Ok(m2) => {
                        let (m3, code) = take_emitted(m1, m2);
                        Ok((m3, done.push(code)))
                    },
                }
            },
        }
    }
}

/// The head of a jump table without instructions in its branches: the
/// index is resolved for what it does, and bound to `__`.
pub open spec fn sem_head_empty(m: MetaV, idx: ValueV, fuel: nat) -> CompiledHead
    decreases fuel, 5nat, 0nat,
{
    match sem_value(m, idx, fuel) {
        Err(e) => Err(e),
        Ok((m1, h)) => match m1.add_const("__"@, ValueV::Var(h), Seq::empty()) {
            Err(e) => Err(e),
            Ok(m2) => Ok(take_emitted(m, m2)),
        },
    }
}

/// The head of a jump table with one instruction in each branch: the index
/// is added to the counter.
pub open spec fn sem_head_single(m: MetaV, idx: ValueV, fuel: nat) -> CompiledHead
    decreases fuel, 5nat, 0nat,
{
    let counter = ValueV::ReprVar("@counter"@);
    match sem_op_line(
        m,
        OpV { kind: OpKind::Add, result: counter, a: counter, b: Some(idx) },
        fuel,
    ) {
        Err(e) => Err(e),
        Ok(m1) => Ok(take_emitted(m, m1)),
    }
}

/// The head of a jump table with `len` instructions in each branch: the
/// index times `len`, computed into a fresh temporary, is added to the
/// counter.
pub open spec fn sem_head_scaled(m: MetaV, idx: ValueV, len: nat, fuel: nat) -> CompiledHead
    decreases fuel, 5nat, 0nat,
{
    let counter = ValueV::ReprVar("@counter"@);
    match m.fresh_var() {
        Err(e) => Err(e),
        Ok((m1, tmp)) => match sem_op_line(
            m1,
            OpV {
                kind: OpKind::Mul,
                result: ValueV::Var(tmp),
                a: idx,
                b: Some(ValueV::ReprVar(dec_text(len))),
            },
            fuel,
        ) {
            Err(e) => Err(e),
            Ok(m2) => {
                let (m3, head) = take_emitted(m1, m2);
                match sem_op_line(
                    m3,
                    OpV {
                        kind: OpKind::Add,
                        result: counter,
                        a: counter,
                        b: Some(ValueV::Var(tmp)),
                    },
                    fuel,
                ) {
                    Err(e) => Err(e),
                    Ok(m4) => {
                        let (m5, head1) = take_emitted(m3, m4);
                        Ok((m5, head + head1))
                    },
                }
            },
        },
    }
}

/// The instructions in front of a jump table whose branches are `len` long.
pub open spec fn sem_select_head(m: MetaV, idx: ValueV, len: nat, fuel: nat) -> CompiledHead
    decreases fuel, 5nat, 1nat,
{
    if len == 0 {
        sem_head_empty(m, idx, fuel)
    } else if len == 1 {
        sem_head_single(m, idx, fuel)
    } else {
        sem_head_scaled(m, idx, len, fuel)
    }
}

/// Compiles a jump table: the head, then the branches, each filled up to
/// the length of the longest.
pub open spec fn sem_select(m: MetaV, idx: ValueV, cases: Seq<LineV>, fuel: nat) -> Compiled
    decreases fuel, 6nat, 0nat,
{
    match sem_cases(m, cases, fuel) {
        Err(e) => Err(e),
        Ok((m1, codes)) => {
            let len = max_len(codes);
            match sem_select_head(m1, idx, len, fuel) {
                Err(e) => Err(e),
                Ok((m2, head)) => Ok(m2.with_codes(m2.codes + head + laid_out(codes, len))),
            }
        },
    }
}

/// Compiles the statements in turn.
pub open spec fn sem_lines(m: MetaV, lines: Seq<LineV>, fuel: nat) -> Compiled
    decreases fuel, 8nat, lines.len(),
{
    if lines.len() == 0 {
        Ok(m)
    } else {
        match sem_lines(m, lines.drop_last(), fuel) {
            Err(e) => Err(e),
            Ok(m1) => sem_line(m1, lines.last(), fuel),
        }
    }
}

/// Compiles one statement.
pub open spec fn sem_line(m: MetaV, line: LineV, fuel: nat) -> Compiled
    decreases fuel, 7nat, 0nat,
{
    match line {
        LineV::NoOp => Ok(m.emit(noop_line())),
        LineV::Ignore => Ok(m),
        LineV::Label(lab) => {
            let (m1, id) = m.tag_of(m.label_in(lab));
            Ok(m1.emit(TagLineV::TagDown(id)))
        },
        LineV::Other(args) => match sem_values(m, args, fuel) {
            Err(e) => Err(e),
            Ok((m1, hs)) => Ok(m1.emit(text_line(join_with(hs, " "@)))),
        },
        LineV::SetResultHandle(v) => match sem_value(m, v, fuel) {
            Err(e) => Err(e),
            Ok((m1, h)) => m1.set_handle(h),
        },
        LineV::Select(idx, cases) => sem_select(m, idx, cases, fuel),
        LineV::Expand(lines) => if fuel == 0 {
            Err(CompileError::RecursionLimit)
        } else {
            match sem_lines(m.enter_block(), lines, (fuel - 1) as nat) {
                Err(e) => Err(e),
                Ok(m1) => m1.exit_block(),
            }
        },
        LineV::InlineBlock(lines) => if fuel == 0 {
            Err(CompileError::RecursionLimit)
        } else {
            sem_lines(m, lines, (fuel - 1) as nat)
        },
        LineV::Goto(lab, tree) => sem_build(m, tree, lab, fuel),
        LineV::Op(op) => sem_op_line(m, op, fuel),
        LineV::Const(name, value, labels) => m.add_const(name, value, labels),
        LineV::Take(name, value) => match sem_value(m, value, fuel) {
            Err(e) => Err(e),
            Ok((m1, h)) => m1.add_const(name, ValueV::Var(h), Seq::empty()),
        },
        LineV::ConstLeak(name) => m.add_leak(name),
    }
}

/// Compiles a whole program: a block of its own.
pub open spec fn sem_program(m: MetaV, lines: Seq<LineV>, fuel: nat) -> Compiled {
    match sem_lines(m.enter_block(), lines, fuel) {
        Err(e) => Err(e),
        Ok(m1) => m1.exit_block(),
    }
}

} // verus!
