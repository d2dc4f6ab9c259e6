//! Writing the syntax tree as source text.

use vstd::prelude::*;
use crate::text::{owned, join_with, texts};
use crate::display_source::{DisplaySourceMeta, DisplayV, DisplaySource};
use crate::syntax::ast::{
    Var,
    Value,
    ValueV,
    DExp,
    DExpV,
    ValueBind,
    JumpCmp,
    JumpCmpV,
    CmpTree,
    CmpTreeV,
    Op,
    OpV,
    Goto,
    Expand,
    InlineBlock,
    Select,
    Const,
    Take,
    LogicLine,
    LineV,
    lines_view,
    values_view,
    vars_view,
};
use crate::syntax::ident::ident_text;
use crate::syntax::cond::jump_symbol;

verus! {

/// The names as the source language writes them.
pub open spec fn ident_texts(names: Seq<Seq<char>>) -> Seq<Seq<char>> {
    Seq::new(names.len(), |i: int| ident_text(names[i]))
}

/// The note that lists the labels of a constant.
pub open spec fn labels_note(labels: Seq<Seq<char>>) -> Seq<char> {
    "# labels: ["@ + join_with(ident_texts(labels), ", "@) + "]"@
}

pub open spec fn show_value(m: DisplayV, v: ValueV) -> DisplayV
    decreases v, 0nat,
{
    match v {
        ValueV::Var(s) => m.pushed(ident_text(s)),
        ValueV::ReprVar(s) => m.pushed("`"@ + ident_text(s) + "`"@),
        ValueV::ResultHandle => m.pushed("$"@),
        ValueV::DExp(d) => show_dexp(m, d),
        ValueV::ValueBind(base, attr) => show_value(m, *base).pushed("."@).pushed(
            ident_text(attr),
        ),
    }
}

/// An expression: `(`, its handle and `:` where it names one, its
/// statements, `)`. One statement stands on the same line, more stand on
/// lines of their own, one level deeper.
pub open spec fn show_dexp(m: DisplayV, d: DExpV) -> DisplayV
    decreases d, 0nat,
{
    let m1 = m.pushed("("@);
    let named = d.result.len() > 0;
    let m2 = if named {
        m1.pushed(ident_text(d.result)).pushed(":"@)
    } else {
        m1
    };
    let m3 = if d.lines.len() == 0 {
        m2
    } else if d.lines.len() == 1 {
        show_line(
            if named {
                m2.spaced()
            } else {
                m2
            },
            d.lines[0],
        )
    } else {
        show_lines(m2.lf().entered(), d.lines, d.lines.len()).left()
    };
    m3.pushed(")"@)
}

/// The first `n` statements, each followed by the end of its line.
pub open spec fn show_lines(m: DisplayV, lines: Seq<LineV>, n: nat) -> DisplayV
    decreases lines, n,
{
    if n == 0 || n > lines.len() {
        m
    } else {
        show_line(show_lines(m, lines, (n - 1) as nat), lines[n - 1]).lf()
    }
}

/// The first `n` values, with a blank between two of them.
pub open spec fn show_values(m: DisplayV, vs: Seq<ValueV>, n: nat) -> DisplayV
    decreases vs, n,
{
    if n == 0 || n > vs.len() {
        m
    } else if n == 1 {
        show_value(m, vs[0])
    } else {
        show_value(show_values(m, vs, (n - 1) as nat).spaced(), vs[n - 1])
    }
}

pub open spec fn show_jump(m: DisplayV, c: JumpCmpV) -> DisplayV
    decreases c, 0nat,
{
    match c {
        JumpCmpV::Cmp(k, a, b) => show_value(
            show_value(m, a).spaced().pushed(k.symbol()).spaced(),
            b,
        ),
        _ => m.pushed(jump_symbol(c)),
    }
}

pub open spec fn show_tree(m: DisplayV, t: CmpTreeV) -> DisplayV
    decreases t, 0nat,
{
    match t {
        CmpTreeV::Atom(c) => show_jump(m, c),
        CmpTreeV::Or(a, b) => show_tree(
            show_tree(m.pushed("("@), *a).spaced().pushed("||"@).spaced(),
            *b,
        ).pushed(")"@),
        CmpTreeV::And(a, b) => show_tree(
            show_tree(m.pushed("("@), *a).spaced().pushed("&&"@).spaced(),
            *b,
        ).pushed(")"@),
    }
}

/// An operation: `op`, where the result goes, then the operand behind the
/// sign for one operand, the sign between the operands where the
/// operation has one, else the name in front of both.
pub open spec fn show_op(m: DisplayV, op: OpV) -> DisplayV
    decreases op, 0nat,
{
    let m1 = show_value(m.pushed("op"@).spaced(), op.result).spaced();
    let m2 = match op.b {
        None => show_value(m1.pushed(op.kind.symbol()).spaced(), op.a),
        Some(b) => if op.kind.has_sign() {
            show_value(show_value(m1, op.a).spaced().pushed(op.kind.symbol()).spaced(), b)
        } else {
            show_value(show_value(m1.pushed(op.kind.symbol()).spaced(), op.a).spaced(), b)
        },
    };
    m2.pushed(";"@)
}

/// A block between braces, its statements one level deeper.
pub open spec fn show_block(m: DisplayV, lines: Seq<LineV>) -> DisplayV
    decreases lines, lines.len() + 1,
{
    show_lines(m.pushed("{"@).lf().entered(), lines, lines.len()).left().pushed("}"@)
}

pub open spec fn show_line(m: DisplayV, l: LineV) -> DisplayV
    decreases l, 0nat,
{
    match l {
        LineV::Expand(lines) => show_block(m, lines),
        LineV::InlineBlock(lines) => show_block(m.pushed("inline"@).spaced(), lines),
        LineV::Ignore => m.pushed("# ignore line"@),
        LineV::NoOp => m.pushed("noop;"@),
        LineV::Label(lab) => m.pushed(":"@).pushed(ident_text(lab)),
        LineV::Goto(lab, t) => show_tree(
            m.pushed("goto"@).spaced().pushed(":"@).pushed(ident_text(lab)).spaced(),
            t,
        ).pushed(";"@),
        LineV::Op(op) => show_op(m, op),
        LineV::Select(v, lines) => show_block(
            show_value(m.pushed("select"@).spaced(), v).spaced(),
            lines,
        ),
        LineV::Take(name, v) => show_value(
            m.pushed("take"@).spaced().pushed(ident_text(name)).spaced().pushed("="@).spaced(),
            v,
        ).pushed(";"@),
        LineV::Const(name, v, labels) => show_value(
            m.pushed("const"@).spaced().pushed(ident_text(name)).spaced().pushed("="@).spaced(),
            v,
        ).pushed(";"@).spaced().pushed(labels_note(labels)),
        LineV::ConstLeak(name) => m.pushed("# constleak"@).spaced().pushed(
            ident_text(name),
        ).pushed(";"@),
        LineV::SetResultHandle(v) => show_value(m.pushed("setres"@).spaced(), v).pushed(";"@),
        LineV::Other(args) => show_values(m, args, args.len()).pushed(";"@),
    }
}

/// Writes a name as the source language writes it.
pub fn write_ident(s: &Var, meta: &mut DisplaySourceMeta)
    ensures
        final(meta)@ == old(meta)@.pushed(ident_text(s@)),
{
    let text = Value::replace_ident(s.as_str());
    meta.push(text.as_str());
}

pub fn write_value(v: &Value, meta: &mut DisplaySourceMeta)
    ensures
        final(meta)@ == show_value(old(meta)@, v@),
    decreases v, 0nat,
{
    match v {
        Value::Var(s) => write_ident(s, meta),
        Value::ReprVar(s) => {
            let mut text = owned("`");
            let inner = Value::replace_ident(s.as_str());
            text.append(inner.as_str());
            text.append("`");
            meta.push(text.as_str());
        },
        Value::ResultHandle => meta.push("$"),
        Value::DExp(d) => write_dexp(d, meta),
        Value::ValueBind(b) => {
            write_value(&*b.0, meta);
            meta.push(".");
            write_ident(&b.1, meta);
        },
    }
}

pub fn write_dexp(d: &DExp, meta: &mut DisplaySourceMeta)
    ensures
        final(meta)@ == show_dexp(old(meta)@, d@),
    decreases d, 0nat,
{
    meta.push("(");
    let named = !d.result.as_str().is_empty();
    if named {
        write_ident(&d.result, meta);
        meta.push(":");
    }
    let n = d.lines.0.len();
    if n == 0 {
    } else if n == 1 {
        if named {
            meta.add_space();
        }
        write_line(&d.lines.0[0], meta);
    } else {
        meta.add_lf();
        meta.block_enter();
        write_lines(&d.lines.0, meta);
        meta.block_exit();
    }
    meta.push(")");
}

pub fn write_lines(lines: &Vec<LogicLine>, meta: &mut DisplaySourceMeta)
    ensures
        final(meta)@ == show_lines(old(meta)@, lines_view(*lines), lines.len() as nat),
    decreases lines, lines.len(),
{
    let ghost lv = lines_view(*lines);
    let mut i: usize = 0;
    while i < lines.len()
        invariant
            i <= lines.len(),
            lv == lines_view(*lines),
            meta@ == show_lines(old(meta)@, lv, i as nat),
        decreases lines.len() - i,
    {
        write_line(&lines[i], meta);
        meta.add_lf();
        i += 1;
    }
}

pub fn write_values(vs: &Vec<Value>, meta: &mut DisplaySourceMeta)
    ensures
        final(meta)@ == show_values(old(meta)@, values_view(*vs), vs.len() as nat),
    decreases vs, vs.len(),
{
    let ghost vv = values_view(*vs);
    let mut i: usize = 0;
    while i < vs.len()
        invariant
            i <= vs.len(),
            vv == values_view(*vs),
            meta@ == show_values(old(meta)@, vv, i as nat),
        decreases vs.len() - i,
    {
        if i > 0 {
            meta.add_space();
        }
        write_value(&vs[i], meta);
        i += 1;
    }
}

pub fn write_jump(c: &JumpCmp, meta: &mut DisplaySourceMeta)
    ensures
        final(meta)@ == show_jump(old(meta)@, c@),
    decreases c, 0nat,
{
    let sym = c.get_symbol_cmp_str();
    match c {
        JumpCmp::Equal(a, b)
        | JumpCmp::NotEqual(a, b)
        | JumpCmp::LessThan(a, b)
        | JumpCmp::LessThanEq(a, b)
        | JumpCmp::GreaterThan(a, b)
        | JumpCmp::GreaterThanEq(a, b)
        | JumpCmp::StrictEqual(a, b)
        | JumpCmp::StrictNotEqual(a, b) => {
            write_value(a, meta);
            meta.add_space();
            meta.push(sym);
            meta.add_space();
            write_value(b, meta);
        },
        JumpCmp::Always | JumpCmp::NotAlways => meta.push(sym),
    }
}

pub fn write_tree(t: &CmpTree, meta: &mut DisplaySourceMeta)
    ensures
        final(meta)@ == show_tree(old(meta)@, t@),
    decreases t, 0nat,
{
    match t {
        CmpTree::Atom(c) => write_jump(c, meta),
        CmpTree::Or(a, b) => {
            meta.push("(");
            write_tree(&**a, meta);
            meta.add_space();
            meta.push("||");
            meta.add_space();
            write_tree(&**b, meta);
            meta.push(")");
        },
        CmpTree::And(a, b) => {
            meta.push("(");
            write_tree(&**a, meta);
            meta.add_space();
            meta.push("&&");
            meta.add_space();
            write_tree(&**b, meta);
            meta.push(")");
        },
    }
}

pub fn write_op(op: &Op, meta: &mut DisplaySourceMeta)
    ensures
        final(meta)@ == show_op(old(meta)@, op@),
    decreases op, 0nat,
{
    meta.push("op");
    meta.add_space();
    write_value(&op.result, meta);
    meta.add_space();
    match &op.arg2 {
        None => {
            meta.push(op.kind.oper_symbol_str());
            meta.add_space();
            write_value(&op.arg1, meta);
        },
        Some(b) => {
            if op.kind.sign().is_some() {
                write_value(&op.arg1, meta);
                meta.add_space();
                meta.push(op.kind.oper_symbol_str());
                meta.add_space();
                write_value(b, meta);
            } else {
                meta.push(op.kind.oper_symbol_str());
                meta.add_space();
                write_value(&op.arg1, meta);
                meta.add_space();
                write_value(b, meta);
            }
        },
    }
    meta.push(";");
}

pub fn write_block(lines: &Vec<LogicLine>, meta: &mut DisplaySourceMeta)
    ensures
        final(meta)@ == show_block(old(meta)@, lines_view(*lines)),
    decreases lines, lines.len() + 1,
{
    meta.push("{");
    meta.add_lf();
    meta.block_enter();
    write_lines(lines, meta);
    meta.block_exit();
    meta.push("}");
}

/// The names of `labels` as the source language writes them.
fn ident_list(labels: &Vec<Var>) -> (r: Vec<String>)
    ensures
        texts(r@) == ident_texts(vars_view(labels@)),
{
    let mut r: Vec<String> = Vec::new();
    let mut i: usize = 0;
    while i < labels.len()
        invariant
            i <= labels.len(),
            r.len() == i,
            forall|j: int| 0 <= j < i ==> r@[j]@ == ident_text(labels@[j]@),
        decreases labels.len() - i,
    {
        r.push(Value::replace_ident(labels[i].as_str()));
        i += 1;
    }
    assert(texts(r@) =~= ident_texts(vars_view(labels@)));
    r
}

/// Joins the texts with `, `.
fn join_comma(parts: &Vec<String>) -> (r: String)
    ensures
        r@ == join_with(texts(parts@), ", "@),
{
    let mut r = String::new();
    let mut i: usize = 0;
    while i < parts.len()
        invariant
            i <= parts.len(),
            r@ == join_with(texts(parts@).take(i as int), ", "@),
        decreases parts.len() - i,
    {
        let ghost before = texts(parts@).take(i as int);
        let ghost after = texts(parts@).take(i + 1);
        proof {
            assert(after.drop_last() =~= before);
            assert(after.last() == parts@[i as int]@);
        }
        if i > 0 {
            r.append(", ");
        } else {
            proof {
                assert(before =~= Seq::<Seq<char>>::empty());
                assert(r@ =~= Seq::<char>::empty());
                assert(Seq::<char>::empty() + parts@[i as int]@ =~= parts@[i as int]@);
            }
        }
        r.append(parts[i].as_str());
        i += 1;
    }
    assert(texts(parts@).take(parts.len() as int) =~= texts(parts@));
    r
}

pub fn write_line(l: &LogicLine, meta: &mut DisplaySourceMeta)
    ensures
        final(meta)@ == show_line(old(meta)@, l@),
    decreases l, 0nat,
{
    match l {
        LogicLine::Expand(e) => write_block(&e.0, meta),
        LogicLine::InlineBlock(b) => {
            meta.push("inline");
            meta.add_space();
            write_block(&b.0, meta);
        },
        LogicLine::Ignore => meta.push("# ignore line"),
        LogicLine::NoOp => meta.push("noop;"),
        LogicLine::Label(lab) => {
            meta.push(":");
            write_ident(lab, meta);
        },
        LogicLine::Goto(g) => {
            meta.push("goto");
            meta.add_space();
            meta.push(":");
            write_ident(&g.0, meta);
            meta.add_space();
            write_tree(&g.1, meta);
            meta.push(";");
        },
        LogicLine::Op(op) => write_op(op, meta),
        LogicLine::Select(s) => {
            meta.push("select");
            meta.add_space();
            write_value(&s.0, meta);
            meta.add_space();
            write_block(&s.1.0, meta);
        },
        LogicLine::Take(t) => {
            meta.push("take");
            meta.add_space();
            write_ident(&t.0, meta);
            meta.add_space();
            meta.push("=");
            meta.add_space();
            write_value(&t.1, meta);
            meta.push(";");
        },
        LogicLine::Const(c) => {
            meta.push("const");
            meta.add_space();
            write_ident(&c.0, meta);
            meta.add_space();
            meta.push("=");
            meta.add_space();
            write_value(&c.1, meta);
            meta.push(";");
            meta.add_space();
            let labs = ident_list(&c.2);
            let mut note = owned("# labels: [");
            note.append(join_comma(&labs).as_str());
            note.append("]");
            meta.push(note.as_str());
        },
        LogicLine::ConstLeak(name) => {
            meta.push("# constleak");
            meta.add_space();
            write_ident(name, meta);
            meta.push(";");
        },
        LogicLine::SetResultHandle(v) => {
            meta.push("setres");
            meta.add_space();
            write_value(v, meta);
            meta.push(";");
        },
        LogicLine::Other(args) => {
            write_values(args, meta);
            meta.push(";");
        },
    }
}

impl DisplaySource for str {
    open spec fn shown(&self, m: DisplayV) -> DisplayV {
        m.pushed(ident_text(self@))
    }

    fn display_source(&self, meta: &mut DisplaySourceMeta) {
        let text = Value::replace_ident(self);
        meta.push(text.as_str());
    }

    fn display_source_and_get(&self, meta: &mut DisplaySourceMeta) -> (r: String) {
        let start = meta.len();
        let text = Value::replace_ident(self);
        meta.push(text.as_str());
        meta.written_from(start)
    }
}

impl DisplaySource for Var {
    open spec fn shown(&self, m: DisplayV) -> DisplayV {
        m.pushed(ident_text(self@))
    }

    fn display_source(&self, meta: &mut DisplaySourceMeta) {
        write_ident(self, meta)
    }

    fn display_source_and_get(&self, meta: &mut DisplaySourceMeta) -> (r: String) {
        let start = meta.len();
        write_ident(self, meta);
        meta.written_from(start)
    }
}

impl DisplaySource for Value {
    open spec fn shown(&self, m: DisplayV) -> DisplayV {
        show_value(m, self@)
    }

    fn display_source(&self, meta: &mut DisplaySourceMeta) {
        write_value(self, meta)
    }

    fn display_source_and_get(&self, meta: &mut DisplaySourceMeta) -> (r: String) {
        let start = meta.len();
        write_value(self, meta);
        meta.written_from(start)
    }
}

impl DisplaySource for DExp {
    open spec fn shown(&self, m: DisplayV) -> DisplayV {
        show_dexp(m, self@)
    }

    fn display_source(&self, meta: &mut DisplaySourceMeta) {
        write_dexp(self, meta)
    }

    fn display_source_and_get(&self, meta: &mut DisplaySourceMeta) -> (r: String) {
        let start = meta.len();
        write_dexp(self, meta);
        meta.written_from(start)
    }
}

impl DisplaySource for ValueBind {
    open spec fn shown(&self, m: DisplayV) -> DisplayV {
        show_value(m, ValueV::ValueBind(Box::new((*self.0)@), self.1@))
    }

    fn display_source(&self, meta: &mut DisplaySourceMeta) {
        write_value(&Value::ValueBind(self.clone()), meta)
    }

    fn display_source_and_get(&self, meta: &mut DisplaySourceMeta) -> (r: String) {
        let start = meta.len();
        write_value(&Value::ValueBind(self.clone()), meta);
        meta.written_from(start)
    }
}

impl DisplaySource for JumpCmp {
    open spec fn shown(&self, m: DisplayV) -> DisplayV {
        show_jump(m, self@)
    }

    fn display_source(&self, meta: &mut DisplaySourceMeta) {
        write_jump(self, meta)
    }

    fn display_source_and_get(&self, meta: &mut DisplaySourceMeta) -> (r: String) {
        let start = meta.len();
        write_jump(self, meta);
        meta.written_from(start)
    }
}

impl DisplaySource for CmpTree {
    open spec fn shown(&self, m: DisplayV) -> DisplayV {
        show_tree(m, self@)
    }

    fn display_source(&self, meta: &mut DisplaySourceMeta) {
        write_tree(self, meta)
    }

    fn display_source_and_get(&self, meta: &mut DisplaySourceMeta) -> (r: String) {
        let start = meta.len();
        write_tree(self, meta);
        meta.written_from(start)
    }
}

impl DisplaySource for Op {
    open spec fn shown(&self, m: DisplayV) -> DisplayV {
        show_op(m, self@)
    }

    fn display_source(&self, meta: &mut DisplaySourceMeta) {
        write_op(self, meta)
    }

    fn display_source_and_get(&self, meta: &mut DisplaySourceMeta) -> (r: String) {
        let start = meta.len();
        write_op(self, meta);
        meta.written_from(start)
    }
}

impl DisplaySource for Goto {
    open spec fn shown(&self, m: DisplayV) -> DisplayV {
        show_line(m, LineV::Goto(self.0@, self.1@))
    }

    fn display_source(&self, meta: &mut DisplaySourceMeta) {
        write_line(&LogicLine::Goto(self.clone()), meta)
    }

    fn display_source_and_get(&self, meta: &mut DisplaySourceMeta) -> (r: String) {
        let start = meta.len();
        write_line(&LogicLine::Goto(self.clone()), meta);
        meta.written_from(start)
    }
}

impl DisplaySource for Expand {
    open spec fn shown(&self, m: DisplayV) -> DisplayV {
        show_lines(m, self@, self@.len())
    }

    fn display_source(&self, meta: &mut DisplaySourceMeta) {
        write_lines(&self.0, meta)
    }

    fn display_source_and_get(&self, meta: &mut DisplaySourceMeta) -> (r: String) {
        let start = meta.len();
        write_lines(&self.0, meta);
        meta.written_from(start)
    }
}

impl DisplaySource for InlineBlock {
    open spec fn shown(&self, m: DisplayV) -> DisplayV {
        show_lines(m, self@, self@.len())
    }

    fn display_source(&self, meta: &mut DisplaySourceMeta) {
        write_lines(&self.0, meta)
    }

    fn display_source_and_get(&self, meta: &mut DisplaySourceMeta) -> (r: String) {
        let start = meta.len();
        write_lines(&self.0, meta);
        meta.written_from(start)
    }
}

impl DisplaySource for Select {
    open spec fn shown(&self, m: DisplayV) -> DisplayV {
        show_line(m, LineV::Select(self.0@, self.1@))
    }

    fn display_source(&self, meta: &mut DisplaySourceMeta) {
        write_line(&LogicLine::Select(self.clone()), meta)
    }

    fn display_source_and_get(&self, meta: &mut DisplaySourceMeta) -> (r: String) {
        let start = meta.len();
        write_line(&LogicLine::Select(self.clone()), meta);
        meta.written_from(start)
    }
}

impl DisplaySource for Const {
    open spec fn shown(&self, m: DisplayV) -> DisplayV {
        show_line(m, LineV::Const(self.0@, self.1@, vars_view(self.2@)))
    }

    fn display_source(&self, meta: &mut DisplaySourceMeta) {
        write_line(&LogicLine::Const(self.clone()), meta)
    }

    fn display_source_and_get(&self, meta: &mut DisplaySourceMeta) -> (r: String) {
        let start = meta.len();
        write_line(&LogicLine::Const(self.clone()), meta);
        meta.written_from(start)
    }
}

impl DisplaySource for Take {
    open spec fn shown(&self, m: DisplayV) -> DisplayV {
        show_line(m, LineV::Take(self.0@, self.1@))
    }

    fn display_source(&self, meta: &mut DisplaySourceMeta) {
        write_line(&LogicLine::Take(self.clone()), meta)
    }

    fn display_source_and_get(&self, meta: &mut DisplaySourceMeta) -> (r: String) {
        let start = meta.len();
        write_line(&LogicLine::Take(self.clone()), meta);
        meta.written_from(start)
    }
}

impl DisplaySource for LogicLine {
    open spec fn shown(&self, m: DisplayV) -> DisplayV {
        show_line(m, self@)
    }

    fn display_source(&self, meta: &mut DisplaySourceMeta) {
        write_line(self, meta)
    }

    fn display_source_and_get(&self, meta: &mut DisplaySourceMeta) -> (r: String) {
        let start = meta.len();
        write_line(self, meta);
        meta.written_from(start)
    }
}

} // verus!
