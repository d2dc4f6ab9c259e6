//! The statements that the shorter forms of the language stand for.

use vstd::prelude::*;
use crate::text::{owned, reversed};
use crate::text::dec_text;
use crate::syntax::cond::{ands_of, trees_view};
use crate::syntax::sem::tree_reversed;
use crate::syntax::parse_meta::SwitchCatch;
use crate::syntax::ast::{
    JumpCmp,
    JumpCmpV,
    CmpTree,
    CmpTreeV,
    CmpKind,
    Goto,
    Select,
    clone_lines,
    Var,
    Value,
    ValueV,
    DExp,
    DExpV,
    Expand,
    Const,
    Take,
    LogicLine,
    LineV,
    values_view,
    lines_view,
    vars_view,
};
use crate::syntax::ctor::arg_consts;
use crate::syntax::parse_meta::{Meta, MetaPV, Error, Errors, set_line};
use crate::syntax::op_expr::{OpExprInfo, OpExprV};

verus! {

/// The value `value[args]`: the value, taken with the arguments handed over.
pub open spec fn quick_take_value(value: ValueV, args: Seq<ValueV>) -> ValueV {
    ValueV::DExp(
        DExpV { result: "__"@, lines: arg_consts(args).push(LineV::SetResultHandle(value)) },
    )
}

/// The value `value[args]`: an expression that binds the arguments to
/// `_0`, `_1` and so on, and hands on the handle of `value`.
pub fn quick_take(value: Value, args: Vec<Value>) -> (r: Value)
    ensures
        r@ == quick_take_value(value@, values_view(args)),
{
    let mut lines: Vec<LogicLine> = Vec::new();
    assert(lines_view(lines) =~= Seq::empty());
    Take::build_arg_consts_to_expand(args, &mut lines);
    let ghost before = lines_view(lines);
    let last = LogicLine::SetResultHandle(value);
    lines.push(last);
    proof {
        assert(before =~= arg_consts(values_view(args)));
        assert(lines_view(lines) =~= before.push(last@));
    }
    Value::DExp(DExp { result: owned("__"), lines: Expand(lines) })
}

/// The value `const(..)`: an expression as a constant that is used at once.
pub open spec fn consted_value(d: DExpV, labels: Seq<Seq<char>>, tmp: Seq<char>) -> ValueV {
    ValueV::DExp(
        DExpV {
            result: "__"@,
            lines: seq![
                LineV::Const(tmp, ValueV::DExp(d), labels),
                LineV::SetResultHandle(ValueV::Var(tmp)),
            ],
        },
    )
}

/// The value `const(..)`: the expression `d`, whose body defines
/// `labels`, is bound to the name `tmp`, and the handle of `tmp` is
/// handed on. So each use of the value expands the constant, with labels
/// of its own.
pub fn consted(d: DExp, labels: Vec<Var>, tmp: Var) -> (r: Value)
    ensures
        r@ == consted_value(d@, vars_view(labels@), tmp@),
{
    let inner = Value::DExp(d);
    assert(inner@ == ValueV::DExp(d@));
    let l0 = LogicLine::Const(Const(tmp.clone(), inner, labels));
    let l1 = LogicLine::SetResultHandle(Value::Var(tmp));
    let mut lines: Vec<LogicLine> = Vec::new();
    lines.push(l0);
    lines.push(l1);
    assert(lines_view(lines) =~= seq![l0@, l1@]);
    Value::DExp(DExp { result: owned("__"), lines: Expand(lines) })
}

/// The statements that compute the first `n` expressions, each into its
/// variable, in turn.
pub open spec fn assign_each(m: MetaPV, vars: Seq<ValueV>, exprs: Seq<OpExprV>, n: nat) -> (
    MetaPV,
    Seq<LineV>,
)
    decreases n,
{
    if n == 0 || n > vars.len() || n > exprs.len() {
        (m, Seq::empty())
    } else {
        let (m1, lines) = assign_each(m, vars, exprs, (n - 1) as nat);
        let (m2, line) = exprs[n - 1].line(m1, vars[n - 1]);
        (m2, lines.push(line))
    }
}

/// One `set` of `value` to each of the variables from the second on.
pub open spec fn set_rest(vars: Seq<ValueV>, value: ValueV) -> Seq<LineV> {
    Seq::new((vars.len() - 1) as nat, |i: int| set_line(vars[i + 1], value))
}

/// The statement that assigns the expressions to the variables. With as
/// many expressions as variables, each is computed into its variable: one
/// statement for one, a block for more. One expression for several
/// variables is computed once, into the handle of the first variable, and
/// then set to the others. Any other numbers are an error.
pub open spec fn assigned(m: MetaPV, vars: Seq<ValueV>, exprs: Seq<OpExprV>) -> Option<
    (MetaPV, LineV),
> {
    if vars.len() == exprs.len() {
        let (m1, lines) = assign_each(m, vars, exprs, vars.len());
        if vars.len() == 1 {
            Some((m1, lines[0]))
        } else {
            Some((m1, LineV::Expand(lines)))
        }
    } else if exprs.len() == 1 {
        let (m1, tmp) = m.next_var();
        let (m2, line) = exprs[0].line(m1, ValueV::Var(tmp));
        Some(
            (
                m2,
                LineV::Expand(
                    seq![LineV::Take(tmp, vars[0]), line] + set_rest(vars, ValueV::Var(tmp)),
                ),
            ),
        )
    } else {
        None
    }
}

pub open spec fn exprs_view(es: Seq<OpExprInfo>) -> Seq<OpExprV> {
    Seq::new(es.len(), |i: int| es[i]@)
}

/// Whether each of the expressions finds the names it needs: the
/// result of each operation is open, and the counters have room for a
/// temporary and for two tags for each expression.
pub open spec fn assignable(m: MetaPV, exprs: Seq<OpExprV>) -> bool {
    &&& m.tmp_vars < usize::MAX
    &&& m.tags + 2 * exprs.len() < usize::MAX
    &&& forall|i: int| 0 <= i < exprs.len() ==> crate::syntax::sugar::expr_open(#[trigger] exprs[i])
}

/// An expression whose operation, if it is one, has its result open.
pub open spec fn expr_open(e: OpExprV) -> bool {
    match e {
        OpExprV::Op(op) => op.result is ResultHandle,
        _ => true,
    }
}

/// Computing an expression into a variable takes at most two tags.
pub proof fn lemma_line_tags(e: OpExprV, m: MetaPV, result: ValueV)
    requires
        m.tags < usize::MAX - 1,
    ensures
        e.line(m, result).0.tags <= m.tags + 2,
        e.line(m, result).0.tags >= m.tags,
        e.line(m, result).0.tmp_vars == m.tmp_vars,
        e.line(m, result).0.labels == m.labels,
        e.line(m, result).0.breaks == m.breaks,
        e.line(m, result).0.continues == m.continues,
{
}

/// The statement that assigns the expressions to the variables.
pub fn assign_exprs(
    vars: Vec<Value>,
    exprs: Vec<OpExprInfo>,
    start: usize,
    end: usize,
    meta: &mut Meta,
) -> (r: Result<LogicLine, Error>)
    requires
        vars.len() > 0,
        exprs.len() > 0,
        assignable(old(meta)@, exprs_view(exprs@)),
    ensures
        match assigned(old(meta)@, values_view(vars), exprs_view(exprs@)) {
            Some((m, line)) => r is Ok && final(meta)@ == m && r->Ok_0@ == line,
            None => r == Err::<LogicLine, Error>(
                Error { start, end, err: Errors::SetVarNoPatternValue(vars.len(), exprs.len()) },
            ) && final(meta)@ == old(meta)@,
        },
{
    let n = vars.len();
    let k = exprs.len();
    if n != k && k != 1 {
        return Err(Error { start, end, err: Errors::SetVarNoPatternValue(n, k) });
    }
    let ghost vv = values_view(vars);
    let ghost ev = exprs_view(exprs@);
    let ghost m0 = meta@;
    let mut vars = reversed(vars);
    let mut exprs = reversed(exprs);
    let mut lines: Vec<LogicLine> = Vec::new();
    if n == k {
        let mut i: usize = 0;
        assert(lines_view(lines) =~= Seq::empty());
        while i < n
            invariant
                i <= n,
                n == vv.len(),
                n == ev.len(),
                vars.len() == n - i,
                exprs.len() == n - i,
                forall|j: int| 0 <= j < vars.len() ==> (#[trigger] vars@[j])@ == vv[n - 1 - j],
                forall|j: int| 0 <= j < exprs.len() ==> (#[trigger] exprs@[j])@ == ev[n - 1 - j],
                forall|j: int| 0 <= j < ev.len() ==> expr_open(#[trigger] ev[j]),
                m0.tags + 2 * n < usize::MAX,
                meta@.tags <= m0.tags + 2 * i,
                lines.len() == i,
                (meta@, lines_view(lines)) == assign_each(m0, vv, ev, i as nat),
            decreases n - i,
        {
            let v = vars.pop().unwrap();
            let e = exprs.pop().unwrap();
            let ghost before = lines_view(lines);
            proof {
                assert(e@ == ev[i as int]);
                assert(v@ == vv[i as int]);
                lemma_line_tags(e@, meta@, v@);
            }
            let line = e.into_logic_line(meta, v);
            lines.push(line);
            assert(lines_view(lines) =~= before.push(line@));
            i += 1;
        }
        if n == 1 {
            assert(lines_view(lines)[0] == lines@[0]@);
            return Ok(lines.pop().unwrap());
        }
        return Ok(LogicLine::Expand(Expand(lines)));
    }
    let tmp = meta.get_tmp_var();
    let first = vars.pop().unwrap();
    let e = exprs.pop().unwrap();
    proof {
        assert(e@ == ev[0]);
        assert(first@ == vv[0]);
    }
    let target = Value::Var(tmp.clone());
    let l0 = LogicLine::Take(Take(tmp.clone(), first));
    let l1 = e.into_logic_line(meta, target);
    lines.push(l0);
    lines.push(l1);
    let ghost head = seq![l0@, l1@];
    assert(lines_view(lines) =~= head + set_rest(vv, ValueV::Var(tmp@)).take(0));
    let mut i: usize = 1;
    while i < n
        invariant
            1 <= i <= n,
            n == vv.len(),
            vars.len() == n - i,
            forall|j: int| 0 <= j < vars.len() ==> (#[trigger] vars@[j])@ == vv[n - 1 - j],
            lines_view(lines) == head + set_rest(vv, ValueV::Var(tmp@)).take(i - 1),
        decreases n - i,
    {
        let v = vars.pop().unwrap();
        let ghost before = lines_view(lines);
        let line = Meta::build_set(v, Value::Var(tmp.clone()));
        lines.push(line);
        proof {
            assert(v@ == vv[i as int]);
            assert(lines_view(lines) =~= before.push(line@));
            assert(set_rest(vv, ValueV::Var(tmp@)).take(i as int) =~= set_rest(
                vv,
                ValueV::Var(tmp@),
            ).take(i - 1).push(line@));
        }
        i += 1;
    }
    assert(set_rest(vv, ValueV::Var(tmp@)).take(n - 1) =~= set_rest(vv, ValueV::Var(tmp@)));
    Ok(LogicLine::Expand(Expand(lines)))
}

/// One `case` of a `switch` that catches what the numbered cases miss:
/// an index below zero, a number that no case has, an index above the
/// greatest case, or what a condition of the author's says. It may bind
/// the index to a name for its statements.
pub struct Catcher {
    pub underflow: bool,
    pub misses: bool,
    pub overflow: bool,
    pub user: Option<CmpTree>,
    pub name: Option<Var>,
    pub body: Vec<LogicLine>,
}

/// The mathematical form of a [`Catcher`].
pub struct CatcherV {
    pub underflow: bool,
    pub misses: bool,
    pub overflow: bool,
    pub user: Option<CmpTreeV>,
    pub name: Option<Seq<char>>,
    pub body: Seq<LineV>,
}

impl View for Catcher {
    type V = CatcherV;

    open spec fn view(&self) -> CatcherV {
        CatcherV {
            underflow: self.underflow,
            misses: self.misses,
            overflow: self.overflow,
            user: match self.user {
                Some(t) => Some(t@),
                None => None,
            },
            name: match self.name {
                Some(n) => Some(n@),
                None => None,
            },
            body: lines_view(self.body),
        }
    }
}

pub open spec fn catchers_view(cs: Seq<Catcher>) -> Seq<CatcherV> {
    Seq::new(cs.len(), |i: int| cs[i]@)
}

pub open spec fn bodies_view(bs: Seq<Vec<LogicLine>>) -> Seq<Seq<LineV>> {
    Seq::new(bs.len(), |i: int| lines_view(bs[i]))
}

/// "Always", as a condition.
pub open spec fn always() -> CmpTreeV {
    CmpTreeV::Atom(JumpCmpV::Always)
}

/// The conditions under which a catcher is passed by: that the index is
/// not below zero, that it is not above the greatest case, that the
/// author's condition does not hold; each only where the catcher asks.
pub open spec fn pass_conds(c: CatcherV, index: ValueV, max_case: nat) -> Seq<CmpTreeV> {
    (if c.underflow {
        seq![
            CmpTreeV::Atom(JumpCmpV::Cmp(CmpKind::GreaterThanEq, index, ValueV::ReprVar("0"@))),
        ]
    } else {
        Seq::empty()
    }) + (if c.overflow {
        seq![
            CmpTreeV::Atom(
                JumpCmpV::Cmp(CmpKind::LessThanEq, index, ValueV::ReprVar(dec_text(max_case))),
            ),
        ]
    } else {
        Seq::empty()
    }) + (match c.user {
        Some(t) => seq![tree_reversed(t)],
        None => Seq::empty(),
    })
}

/// The condition under which a catcher is passed by: all of its
/// conditions at once; a catcher of misses alone is always passed by.
pub open spec fn pass_cond(c: CatcherV, index: ValueV, max_case: nat) -> CmpTreeV {
    let conds = pass_conds(c, index, max_case);
    if conds.len() == 0 {
        always()
    } else {
        ands_of(conds)
    }
}

/// The block of one catcher: where the catcher names the index, the
/// name is bound to it; a jump passes the catcher by; a catcher of
/// misses begins with the label that the missing cases jump to; then its
/// statements stand, and the label that the jump goes to.
pub open spec fn catch_block(m: MetaPV, c: CatcherV, index: ValueV, max_case: nat) -> (
    MetaPV,
    LineV,
    Option<Seq<char>>,
) {
    let (m1, mis) = if c.misses {
        (m.next_tag().0, Some(m.next_tag().1))
    } else {
        (m, None)
    };
    let (m2, over) = m1.next_tag();
    let m3 = match mis {
        Some(t) => m2.with_label(t),
        None => m2,
    };
    let m4 = m3.with_label(over);
    let lines = (match c.name {
        Some(n) => seq![LineV::Const(n, index, Seq::empty())],
        None => Seq::empty(),
    }) + seq![LineV::Goto(over, pass_cond(c, index, max_case))] + (match mis {
        Some(t) => seq![LineV::Label(t)],
        None => Seq::empty(),
    }) + seq![LineV::Expand(c.body), LineV::Label(over)];
    (m4, LineV::Expand(lines), mis)
}

/// The blocks of the first `n` catchers, and the label of the last of
/// them that catches misses.
pub open spec fn catch_blocks(
    m: MetaPV,
    cs: Seq<CatcherV>,
    index: ValueV,
    max_case: nat,
    n: nat,
) -> (MetaPV, Seq<LineV>, Option<Seq<char>>)
    decreases n,
{
    if n == 0 || n > cs.len() {
        (m, Seq::empty(), None)
    } else {
        let (m1, blocks, missed) = catch_blocks(m, cs, index, max_case, (n - 1) as nat);
        let (m2, block, mis) = catch_block(m1, cs[n - 1], index, max_case);
        (
            m2,
            blocks.push(block),
            if mis is Some {
                mis
            } else {
                missed
            },
        )
    }
}

/// The greatest of the numbers; 0 for none.
pub open spec fn max_of(numbers: Seq<usize>) -> usize
    decreases numbers.len(),
{
    if numbers.len() == 0 {
        0
    } else {
        let rest = max_of(numbers.drop_last());
        if numbers.last() > rest {
            numbers.last()
        } else {
            rest
        }
    }
}

/// The last position before `upto` at which `numbers` holds `n`.
pub open spec fn last_case(numbers: Seq<usize>, n: usize, upto: int) -> Option<int>
    decreases upto,
{
    if upto <= 0 || upto > numbers.len() {
        None
    } else if numbers[upto - 1] == n {
        Some(upto - 1)
    } else {
        last_case(numbers, n, upto - 1)
    }
}

/// The branch of the jump table for the index `n`: the statements of
/// the last case of that number, with the appended statements behind
/// them; for a number that no case has, the jump to the catcher of misses,
/// or else the appended statements alone, or nothing where there are none.
pub open spec fn case_line(
    numbers: Seq<usize>,
    bodies: Seq<Seq<LineV>>,
    append: Seq<LineV>,
    missed: Option<Seq<char>>,
    n: usize,
) -> LineV {
    match last_case(numbers, n, numbers.len() as int) {
        Some(k) => LineV::Expand(bodies[k] + append),
        None => match missed {
            Some(t) => LineV::Goto(t, always()),
            None => if append.len() == 0 {
                LineV::Ignore
            } else {
                LineV::Expand(append)
            },
        },
    }
}

/// The branches of the jump table: one for each number from 0 up to the
/// greatest case.
pub open spec fn case_lines(
    numbers: Seq<usize>,
    bodies: Seq<Seq<LineV>>,
    append: Seq<LineV>,
    missed: Option<Seq<char>>,
) -> Seq<LineV> {
    if numbers.len() == 0 {
        Seq::empty()
    } else {
        Seq::new(
            (max_of(numbers) + 1) as nat,
            |n: int| case_line(numbers, bodies, append, missed, n as usize),
        )
    }
}

/// The statement that a `switch` stands for. Without catchers it is the
/// jump table on the value. With catchers the value is taken into a
/// fresh temporary, the blocks of the catchers stand in front of the
/// table, and the table goes by the temporary.
pub open spec fn switch_line(
    m: MetaPV,
    value: ValueV,
    append: Seq<LineV>,
    numbers: Seq<usize>,
    bodies: Seq<Seq<LineV>>,
    catchers: Seq<CatcherV>,
) -> (MetaPV, LineV) {
    if catchers.len() == 0 {
        (m, LineV::Select(value, case_lines(numbers, bodies, append, None)))
    } else {
        let (m1, tmp) = m.next_var();
        let index = ValueV::Var(tmp);
        let (m2, blocks, missed) = catch_blocks(
            m1,
            catchers,
            index,
            max_of(numbers) as nat,
            catchers.len(),
        );
        (
            m2,
            LineV::Expand(
                seq![
                    LineV::Take(tmp, value),
                    LineV::Expand(blocks),
                    LineV::Select(index, case_lines(numbers, bodies, append, missed)),
                ],
            ),
        )
    }
}

/// The greatest of the numbers; 0 for none.
pub fn greatest(numbers: &Vec<usize>) -> (r: usize)
    ensures
        r == max_of(numbers@),
        forall|j: int| 0 <= j < numbers.len() ==> numbers@[j] <= r,
{
    let mut max_case: usize = 0;
    let mut i: usize = 0;
    assert(numbers@.take(0) =~= Seq::empty());
    while i < numbers.len()
        invariant
            i <= numbers.len(),
            max_case == max_of(numbers@.take(i as int)),
            forall|j: int| 0 <= j < i ==> numbers@[j] <= max_case,
        decreases numbers.len() - i,
    {
        proof {
            assert(numbers@.take(i + 1).drop_last() =~= numbers@.take(i as int));
            assert(numbers@.take(i + 1).last() == numbers@[i as int]);
        }
        if numbers[i] > max_case {
            max_case = numbers[i];
        }
        i += 1;
    }
    assert(numbers@.take(numbers.len() as int) =~= numbers@);
    max_case
}

/// "Always", as a condition.
fn always_tree() -> (r: CmpTree)
    ensures
        r@ == always(),
{
    let c = JumpCmp::Always;
    assert(c@ == JumpCmpV::Always);
    CmpTree::Atom(c)
}

/// The condition under which the catcher is passed by.
fn pass_tree(c: &Catcher, index: &Value, max_case: usize) -> (r: CmpTree)
    ensures
        r@ == pass_cond(c@, index@, max_case as nat),
{
    let mut conds: Vec<CmpTree> = Vec::new();
    assert(trees_view(conds@) =~= Seq::empty());
    if c.underflow {
        let ghost before = trees_view(conds@);
        let t = SwitchCatch::Underflow.build(index.clone(), max_case);
        conds.push(t);
        assert(trees_view(conds@) =~= before.push(t@));
    }
    if c.overflow {
        let ghost before = trees_view(conds@);
        let t = SwitchCatch::Overflow.build(index.clone(), max_case);
        conds.push(t);
        assert(trees_view(conds@) =~= before.push(t@));
    }
    match &c.user {
        Some(u) => {
            let ghost before = trees_view(conds@);
            let t = u.clone().reverse();
            conds.push(t);
            assert(trees_view(conds@) =~= before.push(t@));
        },
        None => {},
    }
    assert(trees_view(conds@) =~= pass_conds(c@, index@, max_case as nat));
    match CmpTree::new_ands(conds) {
        Some(t) => t,
        None => always_tree(),
    }
}

/// The block of one catcher, and the label of its misses.
fn build_catch(c: Catcher, index: &Value, max_case: usize, meta: &mut Meta) -> (r: (
    LogicLine,
    Option<Var>,
))
    requires
        old(meta)@.labels.len() > 0,
        old(meta)@.tags < usize::MAX - 1,
    ensures
        (
            final(meta)@,
            r.0@,
            match r.1 {
                Some(t) => Some(t@),
                None => None,
            },
        ) == catch_block(old(meta)@, c@, index@, max_case as nat),
{
    let skip = pass_tree(&c, index, max_case);
    let mut block: Vec<LogicLine> = Vec::new();
    assert(lines_view(block) =~= Seq::empty());
    match c.name {
        Some(n) => {
            let labels: Vec<Var> = Vec::new();
            assert(vars_view(labels@) =~= Seq::empty());
            let l = LogicLine::Const(Const(n, index.clone(), labels));
            block.push(l);
            assert(lines_view(block) =~= seq![l@]);
        },
        None => {},
    }
    let mis = if c.misses {
        Some(meta.get_tag())
    } else {
        None
    };
    let over = meta.get_tag();
    let ghost s0 = lines_view(block);
    let jump = LogicLine::Goto(Goto(over.clone(), skip));
    block.push(jump);
    assert(lines_view(block) =~= s0 + seq![jump@]);
    let ghost s1 = lines_view(block);
    let missed = match mis {
        Some(t) => {
            let l = LogicLine::new_label(t.clone(), meta);
            block.push(l);
            assert(lines_view(block) =~= s1 + seq![l@]);
            Some(t)
        },
        None => {
            assert(lines_view(block) =~= s1 + Seq::<LineV>::empty());
            None
        },
    };
    let ghost s2 = lines_view(block);
    let body = LogicLine::Expand(Expand(c.body));
    let end = LogicLine::new_label(over, meta);
    block.push(body);
    block.push(end);
    assert(lines_view(block) =~= s2 + seq![body@, end@]);
    (LogicLine::Expand(Expand(block)), missed)
}

/// The view of an optional name.
pub open spec fn name_view(o: Option<Var>) -> Option<Seq<char>> {
    match o {
        Some(t) => Some(t@),
        None => None,
    }
}

/// The branch of the jump table for the index `n`.
fn build_case(
    numbers: &Vec<usize>,
    bodies: &Vec<Vec<LogicLine>>,
    append: &Vec<LogicLine>,
    missed: &Option<Var>,
    n: usize,
) -> (r: LogicLine)
    requires
        numbers.len() == bodies.len(),
    ensures
        r@ == case_line(
            numbers@,
            bodies_view(bodies@),
            lines_view(*append),
            name_view(*missed),
            n,
        ),
{
    let mut found: Option<usize> = None;
    let mut k: usize = 0;
    while k < numbers.len()
        invariant
            k <= numbers.len(),
            match found {
                Some(f) => last_case(numbers@, n, k as int) == Some(f as int) && f < k,
                None => last_case(numbers@, n, k as int) is None,
            },
        decreases numbers.len() - k,
    {
        if numbers[k] == n {
            found = Some(k);
        }
        k += 1;
    }
    match found {
        Some(k) => {
            let mut lines = clone_lines(&bodies[k]);
            let ghost a = lines_view(lines);
            let mut tail = clone_lines(append);
            let ghost b = lines_view(tail);
            lines.append(&mut tail);
            assert(lines_view(lines) =~= a + b);
            assert(bodies_view(bodies@)[k as int] == lines_view(bodies@[k as int]));
            LogicLine::Expand(Expand(lines))
        },
        None => match missed {
            Some(m) => LogicLine::Goto(Goto(m.clone(), always_tree())),
            None => if append.len() == 0 {
                assert(lines_view(*append).len() == 0);
                LogicLine::Ignore
            } else {
                assert(lines_view(*append).len() > 0);
                LogicLine::Expand(Expand(clone_lines(append)))
            },
        },
    }
}

/// Whether the counters have room for a `switch` with these catchers.
pub open spec fn switch_fits(m: MetaPV, catchers: nat) -> bool {
    m.labels.len() > 0 && m.tmp_vars < usize::MAX && m.tags + 2 * catchers < usize::MAX
}

/// Making the block of a catcher takes at most two tags and keeps the
/// scopes open.
pub proof fn lemma_catch_block_tags(m: MetaPV, c: CatcherV, index: ValueV, max_case: nat)
    requires
        m.labels.len() > 0,
        m.tags < usize::MAX - 1,
    ensures
        catch_block(m, c, index, max_case).0.tags <= m.tags + 2,
        catch_block(m, c, index, max_case).0.labels.len() == m.labels.len(),
        catch_block(m, c, index, max_case).0.tmp_vars == m.tmp_vars,
        catch_block(m, c, index, max_case).0.breaks == m.breaks,
        catch_block(m, c, index, max_case).0.continues == m.continues,
{
}

/// The statement that a `switch` stands for: `value` picks among the
/// cases, of which `numbers` and `bodies` give the number and the
/// statements, `append` stands behind the statements of each, and
/// `catchers` catch what the numbers miss.
pub fn build_switch(
    value: Value,
    append: Vec<LogicLine>,
    numbers: Vec<usize>,
    bodies: Vec<Vec<LogicLine>>,
    catchers: Vec<Catcher>,
    meta: &mut Meta,
) -> (r: LogicLine)
    requires
        numbers.len() == bodies.len(),
        switch_fits(old(meta)@, catchers.len() as nat),
    ensures
        (final(meta)@, r@) == switch_line(
            old(meta)@,
            value@,
            lines_view(append),
            numbers@,
            bodies_view(bodies@),
            catchers_view(catchers@),
        ),
{
    let max_case = greatest(&numbers);
    let has_catch = catchers.len() > 0;
    let ghost cv = catchers_view(catchers@);
    let ncatch = catchers.len();
    let mut tmp = String::new();
    let index = if has_catch {
        tmp = meta.get_tmp_var();
        Value::Var(tmp.clone())
    } else {
        value.clone()
    };
    let ghost m1 = meta@;
    // the catchers, in turn
    let mut blocks: Vec<LogicLine> = Vec::new();
    let mut missed: Option<Var> = None;
    let mut rest = reversed(catchers);
    let mut i: usize = 0;
    assert(lines_view(blocks) =~= Seq::empty());
    while i < ncatch
        invariant
            i <= ncatch,
            ncatch == cv.len(),
            rest.len() == ncatch - i,
            forall|j: int| 0 <= j < rest.len() ==> (#[trigger] rest@[j])@ == cv[ncatch - 1 - j],
            meta@.labels.len() > 0,
            m1.tags + 2 * ncatch < usize::MAX,
            meta@.tags <= m1.tags + 2 * i,
            (meta@, lines_view(blocks), name_view(missed)) == catch_blocks(
                m1,
                cv,
                index@,
                max_case as nat,
                i as nat,
            ),
        decreases ncatch - i,
    {
        let c = rest.pop().unwrap();
        let ghost before = lines_view(blocks);
        proof {
            assert(c@ == cv[i as int]);
            lemma_catch_block_tags(meta@, c@, index@, max_case as nat);
        }
        let (block, mis) = build_catch(c, &index, max_case, meta);
        blocks.push(block);
        assert(lines_view(blocks) =~= before.push(block@));
        match mis {
            Some(t) => {
                missed = Some(t);
            },
            None => {},
        }
        i += 1;
    }
    // the branches
    let ghost nv = numbers@;
    let ghost bv = bodies_view(bodies@);
    let ghost av = lines_view(append);
    let ghost want = case_lines(nv, bv, av, name_view(missed));
    let mut cases: Vec<LogicLine> = Vec::new();
    if numbers.len() > 0 {
        while cases.len() <= max_case
            invariant
                cases.len() <= max_case + 1,
                numbers.len() == bodies.len(),
                numbers.len() > 0,
                nv == numbers@,
                bv == bodies_view(bodies@),
                av == lines_view(append),
                max_case == max_of(nv),
                want == case_lines(nv, bv, av, name_view(missed)),
                forall|j: int| 0 <= j < cases.len() ==> (#[trigger] cases@[j])@ == want[j],
            decreases max_case + 1 - cases.len(),
        {
            let n = cases.len();
            let case = build_case(&numbers, &bodies, &append, &missed, n);
            cases.push(case);
        }
    }
    assert(lines_view(cases) =~= want);
    let select = LogicLine::Select(Select(index.clone(), Expand(cases)));
    if !has_catch {
        return select;
    }
    let take = LogicLine::Take(Take(tmp, value));
    let before = LogicLine::Expand(Expand(blocks));
    let mut lines: Vec<LogicLine> = Vec::new();
    lines.push(take);
    lines.push(before);
    lines.push(select);
    assert(lines_view(lines) =~= seq![take@, before@, select@]);
    LogicLine::Expand(Expand(lines))
}

/// Computing expressions into variables keeps the scopes and the loop
/// levels as they are, and takes at most two tags for each.
pub proof fn lemma_assign_each_shape(
    m: MetaPV,
    vars: Seq<ValueV>,
    exprs: Seq<OpExprV>,
    n: nat,
)
    requires
        m.tags + 2 * n < usize::MAX,
    ensures
        assign_each(m, vars, exprs, n).0.tags <= m.tags + 2 * n,
        assign_each(m, vars, exprs, n).0.labels == m.labels,
        assign_each(m, vars, exprs, n).0.breaks == m.breaks,
        assign_each(m, vars, exprs, n).0.continues == m.continues,
    decreases n,
{
    if !(n == 0 || n > vars.len() || n > exprs.len()) {
        lemma_assign_each_shape(m, vars, exprs, (n - 1) as nat);
        let m1 = assign_each(m, vars, exprs, (n - 1) as nat).0;
        lemma_line_tags(exprs[n - 1], m1, vars[n - 1]);
    }
}

/// An assignment keeps the scopes and the loop levels as they are.
pub proof fn lemma_assigned_shape(m: MetaPV, vars: Seq<ValueV>, exprs: Seq<OpExprV>)
    requires
        m.tmp_vars < usize::MAX,
        m.tags + 2 * exprs.len() < usize::MAX,
        exprs.len() > 0,
        assigned(m, vars, exprs) is Some,
    ensures
        assigned(m, vars, exprs)->Some_0.0.labels == m.labels,
        assigned(m, vars, exprs)->Some_0.0.breaks == m.breaks,
        assigned(m, vars, exprs)->Some_0.0.continues == m.continues,
{
    if vars.len() == exprs.len() {
        lemma_assign_each_shape(m, vars, exprs, vars.len());
    } else {
        lemma_line_tags(exprs[0], m.next_var().0, ValueV::Var(m.next_var().1));
    }
}

/// The blocks of catchers keep the scopes and the loop levels open.
pub proof fn lemma_catch_blocks_shape(
    m: MetaPV,
    cs: Seq<CatcherV>,
    index: ValueV,
    max_case: nat,
    n: nat,
)
    requires
        m.labels.len() > 0,
        m.tags + 2 * n < usize::MAX,
    ensures
        catch_blocks(m, cs, index, max_case, n).0.tags <= m.tags + 2 * n,
        catch_blocks(m, cs, index, max_case, n).0.labels.len() == m.labels.len(),
        catch_blocks(m, cs, index, max_case, n).0.breaks == m.breaks,
        catch_blocks(m, cs, index, max_case, n).0.continues == m.continues,
    decreases n,
{
    if !(n == 0 || n > cs.len()) {
        lemma_catch_blocks_shape(m, cs, index, max_case, (n - 1) as nat);
        let m1 = catch_blocks(m, cs, index, max_case, (n - 1) as nat).0;
        lemma_catch_block_tags(m1, cs[n - 1], index, max_case);
    }
}

/// The state with the label recorded, where there is one.
pub open spec fn with_some_label(m: MetaPV, label: Option<Seq<char>>) -> MetaPV {
    match label {
        Some(l) => m.with_label(l),
        None => m,
    }
}

/// The label as a statement, where there is one.
pub open spec fn some_label(label: Option<Seq<char>>) -> Seq<LineV> {
    match label {
        Some(l) => seq![LineV::Label(l)],
        None => Seq::empty(),
    }
}

/// `skip cond body`: the body is jumped over where the condition holds.
pub open spec fn skip_line(m: MetaPV, cond: CmpTreeV, body: LineV) -> (MetaPV, LineV) {
    let (m1, tag) = m.next_tag();
    (
        m1.with_label(tag),
        LineV::Expand(seq![LineV::Goto(tag, cond), body, LineV::Label(tag)]),
    )
}

/// `skip cond body`.
pub fn build_skip(cond: CmpTree, body: LogicLine, meta: &mut Meta) -> (r: LogicLine)
    requires
        old(meta)@.labels.len() > 0,
        old(meta)@.tags < usize::MAX,
    ensures
        (final(meta)@, r@) == skip_line(old(meta)@, cond@, body@),
{
    let tag = meta.get_tag();
    let l0 = LogicLine::Goto(Goto(tag.clone(), cond));
    let l2 = LogicLine::new_label(tag, meta);
    let mut lines: Vec<LogicLine> = Vec::new();
    lines.push(l0);
    lines.push(body);
    lines.push(l2);
    assert(lines_view(lines) =~= seq![l0@, body@, l2@]);
    LogicLine::Expand(Expand(lines))
}

/// The jumps of the branches behind the first: one for each, to a tag
/// of its own.
pub open spec fn branch_jumps(conds: Seq<CmpTreeV>, first_tag: nat, n: nat) -> Seq<LineV>
    decreases n,
{
    if n == 0 || n > conds.len() {
        Seq::empty()
    } else {
        branch_jumps(conds, first_tag, (n - 1) as nat).push(
            LineV::Goto(
                crate::syntax::parse_meta::parse_tmp_name((first_tag + n - 1) as nat),
                conds[n - 1],
            ),
        )
    }
}

/// The statements of the branches behind the first: for each its label,
/// its statement, and the jump to the end.
pub open spec fn branch_bodies(
    bodies: Seq<LineV>,
    first_tag: nat,
    end: Seq<char>,
    n: nat,
) -> Seq<LineV>
    decreases n,
{
    if n == 0 || n > bodies.len() {
        Seq::empty()
    } else {
        branch_bodies(bodies, first_tag, end, (n - 1) as nat) + seq![
            LineV::Label(crate::syntax::parse_meta::parse_tmp_name((first_tag + n - 1) as nat)),
            bodies[n - 1],
            LineV::Goto(end, always()),
        ]
    }
}

/// The state after the labels of the first `n` branches are recorded.
pub open spec fn branch_labels(m: MetaPV, first_tag: nat, n: nat) -> MetaPV
    decreases n,
{
    if n == 0 {
        m
    } else {
        branch_labels(m, first_tag, (n - 1) as nat).with_label(
            crate::syntax::parse_meta::parse_tmp_name((first_tag + n - 1) as nat),
        )
    }
}

/// A choice between branches. Alone, the first branch is jumped over
/// where its condition does not hold. With more branches, or with a
/// statement for the case that none is taken, a jump for each branch
/// stands first, then that statement, and then the branches, each
/// followed by the jump to the end, the first branch last.
pub open spec fn if_line(
    m: MetaPV,
    cond: CmpTreeV,
    body: LineV,
    conds: Seq<CmpTreeV>,
    bodies: Seq<LineV>,
    otherwise: Option<LineV>,
) -> (MetaPV, LineV) {
    if conds.len() == 0 && otherwise is None {
        skip_line(m, tree_reversed(cond), body)
    } else {
        let end = crate::syntax::parse_meta::parse_tmp_name(m.tags as nat);
        let first = crate::syntax::parse_meta::parse_tmp_name((m.tags + 1) as nat);
        let n = conds.len();
        let m1 = MetaPV { tags: (m.tags + 2 + n) as usize, ..m };
        let m2 = branch_labels(m1, (m.tags + 2) as nat, n).with_label(first).with_label(end);
        (
            m2,
            LineV::Expand(
                seq![LineV::Goto(first, cond)] + branch_jumps(conds, (m.tags + 2) as nat, n) + (
                match otherwise {
                    Some(l) => seq![l],
                    None => Seq::empty(),
                }) + seq![LineV::Goto(end, always())] + branch_bodies(
                    bodies,
                    (m.tags + 2) as nat,
                    end,
                    n,
                ) + seq![LineV::Label(first), body, LineV::Label(end)],
            ),
        )
    }
}

pub open spec fn some_line(o: Option<LogicLine>) -> Option<LineV> {
    match o {
        Some(l) => Some(l@),
        None => None,
    }
}

pub open spec fn trees_of(ts: Seq<CmpTree>) -> Seq<CmpTreeV> {
    Seq::new(ts.len(), |i: int| ts[i]@)
}

pub open spec fn lines_of(ls: Seq<LogicLine>) -> Seq<LineV> {
    Seq::new(ls.len(), |i: int| ls[i]@)
}

/// A choice between branches: `if cond body`, then for each further
/// branch `elif conds[i] bodies[i]`, then `else otherwise`.
pub fn build_if(
    cond: CmpTree,
    body: LogicLine,
    conds: Vec<CmpTree>,
    bodies: Vec<LogicLine>,
    otherwise: Option<LogicLine>,
    meta: &mut Meta,
) -> (r: LogicLine)
    requires
        conds.len() == bodies.len(),
        old(meta)@.labels.len() > 0,
        old(meta)@.tags + 2 + conds.len() < usize::MAX,
    ensures
        (final(meta)@, r@) == if_line(
            old(meta)@,
            cond@,
            body@,
            trees_of(conds@),
            lines_of(bodies@),
            some_line(otherwise),
        ),
{
    if conds.len() == 0 && otherwise.is_none() {
        return build_skip(cond.reverse(), body, meta);
    }
    let ghost cv = trees_of(conds@);
    let ghost bv = lines_of(bodies@);
    let ghost m0 = meta@;
    let n = conds.len();
    let end = meta.get_tag();
    let first = meta.get_tag();
    let base = meta.tag_number();
    let mut lines: Vec<LogicLine> = Vec::new();
    let l0 = LogicLine::Goto(Goto(first.clone(), cond));
    lines.push(l0);
    let ghost head = seq![l0@];
    assert(lines_view(lines) =~= head + branch_jumps(cv, base as nat, 0));
    let mut tags: Vec<Var> = Vec::new();
    let mut rest = reversed(conds);
    let mut i: usize = 0;
    while i < n
        invariant
            i <= n,
            n == cv.len(),
            rest.len() == n - i,
            tags.len() == i,
            base == m0.tags + 2,
            base + n < usize::MAX,
            forall|j: int| 0 <= j < rest.len() ==> (#[trigger] rest@[j])@ == cv[n - 1 - j],
            forall|j: int|
                0 <= j < i ==> (#[trigger] tags@[j])@ == crate::syntax::parse_meta::parse_tmp_name(
                    (base + j) as nat,
                ),
            meta@ == (MetaPV { tags: (base + i) as usize, ..m0 }),
            lines_view(lines) == head + branch_jumps(cv, base as nat, i as nat),
        decreases n - i,
    {
        let c = rest.pop().unwrap();
        let tag = meta.get_tag();
        let ghost before = lines_view(lines);
        let l = LogicLine::Goto(Goto(tag.clone(), c));
        lines.push(l);
        tags.push(tag);
        proof {
            assert(c@ == cv[i as int]);
            assert(lines_view(lines) =~= before.push(l@));
            assert(head + branch_jumps(cv, base as nat, i as nat).push(l@) =~= before.push(l@));
        }
        i += 1;
    }
    let ghost s1 = lines_view(lines);
    match otherwise {
        Some(b) => {
            lines.push(b);
            assert(lines_view(lines) =~= s1 + seq![b@]);
        },
        None => {
            assert(lines_view(lines) =~= s1 + Seq::<LineV>::empty());
        },
    }
    let ghost s2 = lines_view(lines);
    let to_end = LogicLine::Goto(Goto(end.clone(), always_tree()));
    lines.push(to_end);
    let ghost s3 = s2 + seq![to_end@];
    assert(lines_view(lines) =~= s3 + branch_bodies(bv, base as nat, end@, 0));
    let ghost m1 = meta@;
    let mut bodies = reversed(bodies);
    let mut k: usize = 0;
    while k < n
        invariant
            k <= n,
            n == bv.len(),
            bodies.len() == n - k,
            tags.len() == n,
            meta@.labels.len() > 0,
            forall|j: int| 0 <= j < bodies.len() ==> (#[trigger] bodies@[j])@ == bv[n - 1 - j],
            forall|j: int|
                0 <= j < n ==> (#[trigger] tags@[j])@ == crate::syntax::parse_meta::parse_tmp_name(
                    (base + j) as nat,
                ),
            meta@ == branch_labels(m1, base as nat, k as nat),
            lines_view(lines) == s3 + branch_bodies(bv, base as nat, end@, k as nat),
        decreases n - k,
    {
        let b = bodies.pop().unwrap();
        let ghost before = lines_view(lines);
        let l0 = LogicLine::new_label(tags[k].clone(), meta);
        let l2 = LogicLine::Goto(Goto(end.clone(), always_tree()));
        lines.push(l0);
        lines.push(b);
        lines.push(l2);
        proof {
            assert(b@ == bv[k as int]);
            assert(lines_view(lines) =~= before + seq![l0@, b@, l2@]);
            assert(s3 + (branch_bodies(bv, base as nat, end@, k as nat) + seq![l0@, b@, l2@])
                =~= before + seq![l0@, b@, l2@]);
        }
        k += 1;
    }
    let ghost s4 = lines_view(lines);
    let lf = LogicLine::new_label(first, meta);
    let le = LogicLine::new_label(end, meta);
    lines.push(lf);
    lines.push(body);
    lines.push(le);
    assert(lines_view(lines) =~= s4 + seq![lf@, body@, le@]);
    LogicLine::Expand(Expand(lines))
}

/// `while cond body`: the loop is jumped over where the condition does
/// not hold at first, and runs again as long as it holds.
pub open spec fn while_line(
    m: MetaPV,
    cond: CmpTreeV,
    body: LineV,
    on_break: Option<Seq<char>>,
    on_continue: Option<Seq<char>>,
) -> (MetaPV, LineV) {
    let (m1, end, head) = m.next_two_tags();
    let m2 = with_some_label(
        with_some_label(m1.with_label(head), on_continue).with_label(end),
        on_break,
    );
    (
        m2,
        LineV::Expand(
            seq![LineV::Goto(end, tree_reversed(cond)), LineV::Label(head), body] + some_label(
                on_continue,
            ) + seq![LineV::Goto(head, cond), LineV::Label(end)] + some_label(on_break),
        ),
    )
}

/// `gwhile cond body`: the loop begins with a jump to its condition,
/// which stands behind the body.
pub open spec fn gwhile_line(
    m: MetaPV,
    cond: CmpTreeV,
    body: LineV,
    on_break: Option<Seq<char>>,
    on_continue: Option<Seq<char>>,
) -> (MetaPV, LineV) {
    let (m1, test, head) = m.next_two_tags();
    let m2 = with_some_label(
        with_some_label(m1.with_label(head).with_label(test), on_continue),
        on_break,
    );
    (
        m2,
        LineV::Expand(
            seq![LineV::Goto(test, always()), LineV::Label(head), body, LineV::Label(test)]
                + some_label(on_continue) + seq![LineV::Goto(head, cond)] + some_label(on_break),
        ),
    )
}

/// `do body while cond`: the body runs once, and again as long as the
/// condition holds.
pub open spec fn do_while_line(
    m: MetaPV,
    cond: CmpTreeV,
    body: LineV,
    on_break: Option<Seq<char>>,
    on_continue: Option<Seq<char>>,
) -> (MetaPV, LineV) {
    let (m1, head) = m.next_tag();
    let m2 = with_some_label(with_some_label(m1.with_label(head), on_continue), on_break);
    (
        m2,
        LineV::Expand(
            seq![LineV::Label(head), body] + some_label(on_continue) + seq![
                LineV::Goto(head, cond),
            ] + some_label(on_break),
        ),
    )
}

/// Appends the label to the statements, where there is one.
fn push_target(lines: &mut Vec<LogicLine>, label: Option<Var>, meta: &mut Meta)
    requires
        old(meta)@.labels.len() > 0,
    ensures
        final(meta)@ == with_some_label(old(meta)@, name_view(label)),
        lines_view(*final(lines)) == lines_view(*old(lines)) + some_label(name_view(label)),
        final(meta)@.labels.len() > 0,
{
    let ghost before = lines_view(*lines);
    match label {
        Some(l) => {
            let line = LogicLine::new_label(l, meta);
            lines.push(line);
            assert(lines_view(*lines) =~= before + seq![line@]);
        },
        None => {
            assert(lines_view(*lines) =~= before + Seq::<LineV>::empty());
        },
    }
}

/// `while cond body`, with the targets that the body used.
pub fn build_while(
    cond: CmpTree,
    body: LogicLine,
    on_break: Option<Var>,
    on_continue: Option<Var>,
    meta: &mut Meta,
) -> (r: LogicLine)
    requires
        old(meta)@.labels.len() > 0,
        old(meta)@.tags < usize::MAX - 1,
    ensures
        (final(meta)@, r@) == while_line(
            old(meta)@,
            cond@,
            body@,
            name_view(on_break),
            name_view(on_continue),
        ),
{
    let end = meta.get_tag();
    let head = meta.get_tag();
    let l0 = LogicLine::Goto(Goto(end.clone(), cond.clone().reverse()));
    let l1 = LogicLine::new_label(head.clone(), meta);
    let mut lines: Vec<LogicLine> = Vec::new();
    lines.push(l0);
    lines.push(l1);
    lines.push(body);
    let ghost s0 = seq![l0@, l1@, body@];
    assert(lines_view(lines) =~= s0);
    push_target(&mut lines, on_continue, meta);
    let ghost s1 = lines_view(lines);
    let l3 = LogicLine::Goto(Goto(head, cond));
    let l4 = LogicLine::new_label(end, meta);
    lines.push(l3);
    lines.push(l4);
    assert(lines_view(lines) =~= s1 + seq![l3@, l4@]);
    push_target(&mut lines, on_break, meta);
    LogicLine::Expand(Expand(lines))
}

/// `gwhile cond body`, with the targets that the body used.
pub fn build_gwhile(
    cond: CmpTree,
    body: LogicLine,
    on_break: Option<Var>,
    on_continue: Option<Var>,
    meta: &mut Meta,
) -> (r: LogicLine)
    requires
        old(meta)@.labels.len() > 0,
        old(meta)@.tags < usize::MAX - 1,
    ensures
        (final(meta)@, r@) == gwhile_line(
            old(meta)@,
            cond@,
            body@,
            name_view(on_break),
            name_view(on_continue),
        ),
{
    let test = meta.get_tag();
    let head = meta.get_tag();
    let l0 = LogicLine::Goto(Goto(test.clone(), always_tree()));
    let l1 = LogicLine::new_label(head.clone(), meta);
    let l3 = LogicLine::new_label(test, meta);
    let mut lines: Vec<LogicLine> = Vec::new();
    lines.push(l0);
    lines.push(l1);
    lines.push(body);
    lines.push(l3);
    assert(lines_view(lines) =~= seq![l0@, l1@, body@, l3@]);
    push_target(&mut lines, on_continue, meta);
    let ghost s1 = lines_view(lines);
    let l4 = LogicLine::Goto(Goto(head, cond));
    lines.push(l4);
    assert(lines_view(lines) =~= s1 + seq![l4@]);
    push_target(&mut lines, on_break, meta);
    LogicLine::Expand(Expand(lines))
}

/// `do body while cond`, with the targets that the body used.
pub fn build_do_while(
    cond: CmpTree,
    body: LogicLine,
    on_break: Option<Var>,
    on_continue: Option<Var>,
    meta: &mut Meta,
) -> (r: LogicLine)
    requires
        old(meta)@.labels.len() > 0,
        old(meta)@.tags < usize::MAX,
    ensures
        (final(meta)@, r@) == do_while_line(
            old(meta)@,
            cond@,
            body@,
            name_view(on_break),
            name_view(on_continue),
        ),
{
    let head = meta.get_tag();
    let l0 = LogicLine::new_label(head.clone(), meta);
    let mut lines: Vec<LogicLine> = Vec::new();
    lines.push(l0);
    lines.push(body);
    assert(lines_view(lines) =~= seq![l0@, body@]);
    push_target(&mut lines, on_continue, meta);
    let ghost s1 = lines_view(lines);
    let l2 = LogicLine::Goto(Goto(head, cond));
    lines.push(l2);
    assert(lines_view(lines) =~= s1 + seq![l2@]);
    push_target(&mut lines, on_break, meta);
    LogicLine::Expand(Expand(lines))
}

/// The statements between the targets that `continue` and `break` used
/// in them: `continue` goes to their start, `break` behind their end.
pub fn with_targets(
    lines: Vec<LogicLine>,
    on_break: Option<Var>,
    on_continue: Option<Var>,
    meta: &mut Meta,
) -> (r: Vec<LogicLine>)
    requires
        old(meta)@.labels.len() > 0,
    ensures
        final(meta)@ == with_some_label(
            with_some_label(old(meta)@, name_view(on_continue)),
            name_view(on_break),
        ),
        lines_view(r) == some_label(name_view(on_continue)) + lines_view(lines) + some_label(
            name_view(on_break),
        ),
{
    let mut out: Vec<LogicLine> = Vec::new();
    assert(lines_view(out) =~= Seq::empty());
    push_target(&mut out, on_continue, meta);
    let ghost s0 = lines_view(out);
    let mut rest = lines;
    out.append(&mut rest);
    assert(lines_view(out) =~= s0 + lines_view(lines));
    push_target(&mut out, on_break, meta);
    assert(Seq::<LineV>::empty() + some_label(name_view(on_continue)) =~= some_label(
        name_view(on_continue),
    ));
    out
}

/// One statement between the targets that `continue` and `break` used in
/// it; the statement alone where they used none.
pub fn wrap_targets(
    line: LogicLine,
    on_break: Option<Var>,
    on_continue: Option<Var>,
    meta: &mut Meta,
) -> (r: LogicLine)
    requires
        old(meta)@.labels.len() > 0,
    ensures
        final(meta)@ == with_some_label(
            with_some_label(old(meta)@, name_view(on_continue)),
            name_view(on_break),
        ),
        r@ == (if on_break is None && on_continue is None {
            line@
        } else {
            LineV::Expand(
                some_label(name_view(on_continue)) + seq![line@] + some_label(
                    name_view(on_break),
                ),
            )
        }),
{
    if on_break.is_none() && on_continue.is_none() {
        return line;
    }
    let mut lines: Vec<LogicLine> = Vec::new();
    lines.push(line);
    assert(lines_view(lines) =~= seq![line@]);
    LogicLine::Expand(Expand(with_targets(lines, on_break, on_continue, meta)))
}

/// `print` with the values: one instruction for each.
pub open spec fn print_lines(values: Seq<ValueV>) -> Seq<LineV> {
    Seq::new(values.len(), |i: int| LineV::Other(seq![ValueV::ReprVar("print"@), values[i]]))
}

/// `print` with the values: the instruction for one value, a block of
/// instructions for more.
pub fn build_print(values: Vec<Value>) -> (r: LogicLine)
    requires
        values.len() > 0,
    ensures
        r@ == (if values.len() == 1 {
            print_lines(values_view(values))[0]
        } else {
            LineV::Expand(print_lines(values_view(values)))
        }),
{
    let ghost vv = values_view(values);
    let n = values.len();
    let mut rest = reversed(values);
    let mut lines: Vec<LogicLine> = Vec::new();
    let mut i: usize = 0;
    while i < n
        invariant
            i <= n,
            n == vv.len(),
            rest.len() == n - i,
            lines.len() == i,
            forall|j: int| 0 <= j < rest.len() ==> (#[trigger] rest@[j])@ == vv[n - 1 - j],
            forall|j: int| 0 <= j < i ==> (#[trigger] lines@[j])@ == print_lines(vv)[j],
        decreases n - i,
    {
        let v = rest.pop().unwrap();
        let mut words: Vec<Value> = Vec::new();
        words.push(Value::ReprVar(owned("print")));
        words.push(v);
        assert(values_view(words) =~= seq![ValueV::ReprVar("print"@), v@]);
        lines.push(LogicLine::Other(words));
        i += 1;
    }
    if n == 1 {
        return lines.pop().unwrap();
    }
    assert(lines_view(lines) =~= print_lines(vv));
    LogicLine::Expand(Expand(lines))
}

} // verus!
