//! The compiler proper: resolves values and compiles statements, exactly as
//! the functions of the module `sem` say.

use vstd::prelude::*;
use crate::text::{owned, join_space, is_string, texts, usize_text};
use crate::tag_code::{TagLine, TagLineV, TagBox, Jump, count_lines, noop_line};
use crate::syntax::ast::{
    Var,
    Value,
    ValueV,
    DExp,
    ValueBind,
    CmpTree,
    Op,
    Goto,
    Expand,
    InlineBlock,
    Select,
    Const,
    Take,
    LogicLine,
    LineV,
    COUNTER,
    UNUSED_VAR,
    values_view,
    lines_view,
};
use crate::syntax::model::{MetaV, CompileError, Resolved, Compiled, bind_name};
use crate::syntax::meta::CompileMeta;
use crate::syntax::sem::{
    sem_value,
    sem_var,
    sem_dexp,
    sem_values,
    sem_op,
    sem_op_line,
    sem_build,
    sem_cases,
    sem_select,
    sem_select_head,
    sem_head_empty,
    sem_head_single,
    sem_head_scaled,
    sem_lines,
    sem_line,
    dexp_handle,
    take_emitted,
    max_len,
    laid_out,
    noops,
    op_words,
    jump_cond,
    ResolvedAll,
    CompiledHead,
};

verus! {

/// How deep the compiler follows nested blocks, expressions and constants.
pub const DEPTH_LIMIT: usize = 1000;

/// The depth left, as the measure that the meaning functions count down.
pub open spec fn fuel(depth: usize) -> nat {
    depth as nat
}

/// The outcome `r` with the state `m` is what `spec` says.
pub open spec fn resolved_as(r: Result<Var, CompileError>, m: MetaV, spec: Resolved) -> bool {
    match spec {
        Ok((m2, h)) => r is Ok && m == m2 && r->Ok_0@ == h,
        Err(e) => r == Err::<Var, CompileError>(e),
    }
}

/// The outcome `r` with the state `m` is what `spec` says.
pub open spec fn compiled_as(r: Result<(), CompileError>, m: MetaV, spec: Compiled) -> bool {
    match spec {
        Ok(m2) => r is Ok && m == m2,
        Err(e) => r == Err::<(), CompileError>(e),
    }
}

/// The outcome `r` with the state `m` is what `spec` says.
pub open spec fn resolved_all_as(
    r: Result<Vec<Var>, CompileError>,
    m: MetaV,
    spec: ResolvedAll,
) -> bool {
    match spec {
        Ok((m2, hs)) => r is Ok && m == m2 && texts(r->Ok_0@) == hs,
        Err(e) => r == Err::<Vec<Var>, CompileError>(e),
    }
}

pub open spec fn codes_view(v: Seq<Vec<TagLine>>) -> Seq<Seq<TagLineV>> {
    Seq::new(v.len(), |i: int| crate::tag_code::lines_view(v[i]@))
}

/// An error in resolving a prefix of the values is the error of the whole.
pub proof fn lemma_values_error_stays(m: MetaV, vs: Seq<ValueV>, fuel: nat, k: int)
    requires
        0 <= k <= vs.len(),
        sem_values(m, vs.take(k), fuel) is Err,
    ensures
        sem_values(m, vs, fuel) == sem_values(m, vs.take(k), fuel),
    decreases vs.len() - k,
{
    if k < vs.len() {
        assert(vs.take(k + 1).drop_last() =~= vs.take(k));
        lemma_values_error_stays(m, vs, fuel, k + 1);
    } else {
        assert(vs.take(k) =~= vs);
    }
}

/// An error in compiling a prefix of the statements is the error of the whole.
pub proof fn lemma_lines_error_stays(m: MetaV, ls: Seq<LineV>, fuel: nat, k: int)
    requires
        0 <= k <= ls.len(),
        sem_lines(m, ls.take(k), fuel) is Err,
    ensures
        sem_lines(m, ls, fuel) == sem_lines(m, ls.take(k), fuel),
    decreases ls.len() - k,
{
    if k < ls.len() {
        assert(ls.take(k + 1).drop_last() =~= ls.take(k));
        lemma_lines_error_stays(m, ls, fuel, k + 1);
    } else {
        assert(ls.take(k) =~= ls);
    }
}

/// An error in compiling a prefix of the branches is the error of the whole.
pub proof fn lemma_cases_error_stays(m: MetaV, ls: Seq<LineV>, fuel: nat, k: int)
    requires
        0 <= k <= ls.len(),
        sem_cases(m, ls.take(k), fuel) is Err,
    ensures
        sem_cases(m, ls, fuel) == sem_cases(m, ls.take(k), fuel),
    decreases ls.len() - k,
{
    if k < ls.len() {
        assert(ls.take(k + 1).drop_last() =~= ls.take(k));
        lemma_cases_error_stays(m, ls, fuel, k + 1);
    } else {
        assert(ls.take(k) =~= ls);
    }
}

/// The name that stands for the attribute `attr` of the handle `h`.
pub fn bind_text(h: &Var, attr: &Var) -> (r: Var)
    ensures
        r@ == bind_name(h@, attr@),
{
    let mut r = owned("__");
    r.append(h.as_str());
    r.append("__bind__");
    r.append(attr.as_str());
    r
}

/// Resolves a value: compiles what it depends on and gives its handle.
pub fn resolve_value(v: &Value, meta: &mut CompileMeta, depth: usize) -> (r: Result<
    Var,
    CompileError,
>)
    ensures
        resolved_as(r, final(meta)@, sem_value(old(meta)@, v@, fuel(depth))),
    decreases depth, 2nat, 0nat,
{
    match v {
        Value::Var(name) => resolve_var(name, meta, depth),
        Value::DExp(d) => resolve_dexp(d, meta, depth),
        Value::ResultHandle => {
            if meta.dexp_depth() == 0 {
                Err(CompileError::OutOfDExp)
            } else {
                Ok(meta.dexp_handle().clone())
            }
        },
        Value::ReprVar(name) => Ok(name.clone()),
        Value::ValueBind(b) => {
            if depth == 0 {
                return Err(CompileError::RecursionLimit);
            }
            let h = match resolve_value(&*b.0, meta, depth - 1) {
                Ok(h) => h,
                Err(e) => {
                    return Err(e);
                },
            };
            if is_string(b.1.as_str()) {
                Err(CompileError::StringAsBindAttr)
            } else if is_string(h.as_str()) {
                Err(CompileError::StringAsBindBase)
            } else {
                Ok(bind_text(&h, &b.1))
            }
        },
    }
}

/// Resolves a name: a constant of that name is expanded.
pub fn resolve_var(name: &Var, meta: &mut CompileMeta, depth: usize) -> (r: Result<
    Var,
    CompileError,
>)
    ensures
        resolved_as(r, final(meta)@, sem_var(old(meta)@, name@, fuel(depth))),
    decreases depth, 1nat, 0nat,
{
    let body = match meta.try_const_expand_enter(name) {
        Err(e) => {
            return Err(e);
        },
        Ok(None) => {
            return Ok(name.clone());
        },
        Ok(Some(body)) => body,
    };
    let ghost entered = meta@;
    let h = match body {
        Value::Var(v) => v,
        other => {
            if depth == 0 {
                return Err(CompileError::RecursionLimit);
            }
            match resolve_value(&other, meta, depth - 1) {
                Ok(h) => {
                    proof {
                        // the expansion that began is still the innermost
                        crate::syntax::laws::lemma_value_settles(
                            entered,
                            other@,
                            fuel((depth - 1) as usize),
                        );
                    }
                    h
                },
                Err(e) => {
                    return Err(e);
                },
            }
        },
    };
    let _ = meta.const_expand_exit();
    Ok(h)
}

/// The handle that an expression starts with.
pub fn first_handle(result: &Var, meta: &mut CompileMeta) -> (r: Result<Var, CompileError>)
    ensures
        resolved_as(r, final(meta)@, dexp_handle(old(meta)@, result@)),
{
    if result.as_str().is_empty() {
        if meta.tmp_var_count() == usize::MAX {
            return Err(CompileError::TooManyTemporaries);
        }
        Ok(meta.get_tmp_var())
    } else {
        match meta.get_const_value(result) {
            Some(found) => match &found.1 {
                Value::DExp(_) => Err(CompileError::ConstRebindAsDExpHandle),
                Value::Var(v) => {
                    if v.as_str().is_empty() {
                        Err(CompileError::ConstRebindNotVar)
                    } else {
                        Ok(v.clone())
                    }
                },
                _ => Err(CompileError::ConstRebindNotVar),
            },
            None => Ok(result.clone()),
        }
    }
}

/// Resolves an expression.
pub fn resolve_dexp(d: &DExp, meta: &mut CompileMeta, depth: usize) -> (r: Result<
    Var,
    CompileError,
>)
    ensures
        resolved_as(r, final(meta)@, sem_dexp(old(meta)@, d@, fuel(depth))),
    decreases depth, 1nat, 0nat,
{
    let h = match first_handle(&d.result, meta) {
        Ok(h) => h,
        Err(e) => {
            return Err(e);
        },
    };
    if depth == 0 {
        return Err(CompileError::RecursionLimit);
    }
    meta.push_dexp_handle(h);
    match compile_lines(&d.lines.0, meta, depth - 1) {
        Ok(()) => {},
        Err(e) => {
            return Err(e);
        },
    }
    if meta.dexp_depth() == 0 {
        return Err(CompileError::OutOfDExp);
    }
    Ok(meta.pop_dexp_handle())
}

/// Resolves the values in turn.
pub fn resolve_values(vs: &Vec<Value>, meta: &mut CompileMeta, depth: usize) -> (r: Result<
    Vec<Var>,
    CompileError,
>)
    ensures
        resolved_all_as(r, final(meta)@, sem_values(old(meta)@, values_view(*vs), fuel(depth))),
    decreases depth, 3nat, vs.len(),
{
    let ghost vv = values_view(*vs);
    let mut out: Vec<Var> = Vec::new();
    let mut i: usize = 0;
    assert(vv.take(0) =~= Seq::empty());
    assert(texts(out@) =~= Seq::empty());
    while i < vs.len()
        invariant
            i <= vs.len(),
            vv == values_view(*vs),
            sem_values(old(meta)@, vv.take(i as int), fuel(depth)) == Ok::<
                (MetaV, Seq<Seq<char>>),
                CompileError,
            >((meta@, texts(out@))),
        decreases vs.len() - i,
    {
        proof {
            assert(vv.take(i + 1).drop_last() =~= vv.take(i as int));
            assert(vv.take(i + 1).last() == vs@[i as int]@);
        }
        let ghost before = texts(out@);
        match resolve_value(&vs[i], meta, depth) {
            Ok(h) => {
                out.push(h);
                assert(texts(out@) =~= before.push(h@));
            },
            Err(e) => {
                proof {
                    lemma_values_error_stays(old(meta)@, vv, fuel(depth), i + 1);
                }
                return Err(e);
            },
        }
        i += 1;
    }
    assert(vv.take(vs.len() as int) =~= vv);
    Ok(out)
}

/// The words of an operation's instruction.
pub fn op_args(op: &Op, meta: &mut CompileMeta, depth: usize) -> (r: Result<
    Vec<Var>,
    CompileError,
>)
    ensures
        resolved_all_as(r, final(meta)@, sem_op(old(meta)@, op@, fuel(depth))),
    decreases depth, 3nat, 0nat,
{
    let ghost m0 = meta@;
    let res = match resolve_value(&op.result, meta, depth) {
        Ok(h) => h,
        Err(e) => {
            return Err(e);
        },
    };
    let ghost m1 = meta@;
    assert(sem_value(m0, op@.result, fuel(depth)) == Ok::<(MetaV, Seq<char>), CompileError>(
        (m1, res@),
    ));
    let a = match resolve_value(&op.arg1, meta, depth) {
        Ok(h) => h,
        Err(e) => {
            return Err(e);
        },
    };
    let ghost m2 = meta@;
    assert(sem_value(m1, op@.a, fuel(depth)) == Ok::<(MetaV, Seq<char>), CompileError>(
        (m2, a@),
    ));
    let b = match &op.arg2 {
        None => owned(UNUSED_VAR),
        Some(bv) => match resolve_value(bv, meta, depth) {
            Ok(h) => h,
            Err(e) => {
                return Err(e);
            },
        },
    };
    let mut args: Vec<Var> = Vec::new();
    args.push(owned("op"));
    args.push(owned(op.kind.oper_str()));
    args.push(res);
    args.push(a);
    args.push(b);
    assert(texts(args@) =~= op_words(op@.kind, res@, a@, b@));
    Ok(args)
}

/// Compiles an operation to its instruction.
pub fn compile_op(op: &Op, meta: &mut CompileMeta, depth: usize) -> (r: Result<(), CompileError>)
    ensures
        compiled_as(r, final(meta)@, sem_op_line(old(meta)@, op@, fuel(depth))),
    decreases depth, 4nat, 0nat,
{
    let args = match op_args(op, meta, depth) {
        Ok(a) => a,
        Err(e) => {
            return Err(e);
        },
    };
    meta.push(TagLine::Line(TagBox::new(join_space(&args))));
    Ok(())
}

/// The text of a jump's condition.
pub fn cond_text(name: &str, a: &Var, b: &Var) -> (r: String)
    ensures
        r@ == jump_cond(name@, a@, b@),
{
    let mut r = owned(name);
    r.append(" ");
    r.append(a.as_str());
    r.append(" ");
    r.append(b.as_str());
    r
}

/// Compiles a condition to jumps to `do_tag`.
pub fn build_tree(t: CmpTree, meta: &mut CompileMeta, do_tag: Var, depth: usize) -> (r: Result<
    (),
    CompileError,
>)
    ensures
        compiled_as(r, final(meta)@, sem_build(old(meta)@, t@, do_tag@, fuel(depth))),
    decreases depth, 3nat, 0nat,
{
    let tag = meta.get_in_const_label(do_tag);
    match t {
        CmpTree::Or(a, b) => {
            if depth == 0 {
                return Err(CompileError::RecursionLimit);
            }
            match build_tree(*a, meta, tag.clone(), depth - 1) {
                Ok(()) => {},
                Err(e) => {
                    return Err(e);
                },
            }
            build_tree(*b, meta, tag, depth - 1)
        },
        CmpTree::And(a, b) => {
            if meta.tmp_tag_count() == usize::MAX {
                return Err(CompileError::TooManyTemporaries);
            }
            let end = meta.get_tmp_tag();
            if depth == 0 {
                return Err(CompileError::RecursionLimit);
            }
            match build_tree((*a).reverse(), meta, end.clone(), depth - 1) {
                Ok(()) => {},
                Err(e) => {
                    return Err(e);
                },
            }
            match build_tree(*b, meta, tag, depth - 1) {
                Ok(()) => {},
                Err(e) => {
                    return Err(e);
                },
            }
            let id = meta.get_tag(end);
            meta.push(TagLine::TagDown(id));
            Ok(())
        },
        CmpTree::Atom(c) => {
            let c1 = c.do_start_compile_into();
            let name = c1.cmp_str();
            let (av, bv) = c1.get_values();
            let a = match resolve_value(&av, meta, depth) {
                Ok(h) => h,
                Err(e) => {
                    return Err(e);
                },
            };
            let b = match resolve_value(&bv, meta, depth) {
                Ok(h) => h,
                Err(e) => {
                    return Err(e);
                },
            };
            let id = meta.get_tag(tag);
            meta.push(TagLine::Jump(TagBox::new(Jump(id, cond_text(name, &a, &b)))));
            Ok(())
        },
    }
}

/// Compiles the statements in turn.
pub fn compile_lines(lines: &Vec<LogicLine>, meta: &mut CompileMeta, depth: usize) -> (r: Result<
    (),
    CompileError,
>)
    ensures
        compiled_as(r, final(meta)@, sem_lines(old(meta)@, lines_view(*lines), fuel(depth))),
    decreases depth, 8nat, lines.len(),
{
    let ghost lv = lines_view(*lines);
    let mut i: usize = 0;
    assert(lv.take(0) =~= Seq::empty());
    while i < lines.len()
        invariant
            i <= lines.len(),
            lv == lines_view(*lines),
            sem_lines(old(meta)@, lv.take(i as int), fuel(depth)) == Ok::<MetaV, CompileError>(
                meta@,
            ),
        decreases lines.len() - i,
    {
        proof {
            assert(lv.take(i + 1).drop_last() =~= lv.take(i as int));
            assert(lv.take(i + 1).last() == lines@[i as int]@);
        }
        match compile_line(&lines[i], meta, depth) {
            Ok(()) => {},
            Err(e) => {
                proof {
                    lemma_lines_error_stays(old(meta)@, lv, fuel(depth), i + 1);
                }
                return Err(e);
            },
        }
        i += 1;
    }
    assert(lv.take(lines.len() as int) =~= lv);
    Ok(())
}

/// Compiles one statement.
pub fn compile_line(line: &LogicLine, meta: &mut CompileMeta, depth: usize) -> (r: Result<
    (),
    CompileError,
>)
    ensures
        compiled_as(r, final(meta)@, sem_line(old(meta)@, line@, fuel(depth))),
    decreases depth, 7nat, 0nat,
{
    match line {
        LogicLine::NoOp => {
            meta.push(TagLine::default());
            Ok(())
        },
        LogicLine::Ignore => Ok(()),
        LogicLine::Label(lab) => {
            let name = meta.get_in_const_label(lab.clone());
            let id = meta.get_tag(name);
            meta.push(TagLine::TagDown(id));
            Ok(())
        },
        LogicLine::Other(args) => {
            let handles = match resolve_values(args, meta, depth) {
                Ok(h) => h,
                Err(e) => {
                    return Err(e);
                },
            };
            meta.push(TagLine::Line(TagBox::new(join_space(&handles))));
            Ok(())
        },
        LogicLine::SetResultHandle(v) => {
            let h = match resolve_value(v, meta, depth) {
                Ok(h) => h,
                Err(e) => {
                    return Err(e);
                },
            };
            if meta.dexp_depth() == 0 {
                return Err(CompileError::OutOfDExp);
            }
            let _ = meta.set_dexp_handle(h);
            Ok(())
        },
        LogicLine::Select(s) => compile_select(&s.0, &s.1.0, meta, depth),
        LogicLine::Expand(e) => {
            if depth == 0 {
                return Err(CompileError::RecursionLimit);
            }
            meta.block_enter();
            match compile_lines(&e.0, meta, depth - 1) {
                Ok(()) => {},
                Err(e) => {
                    return Err(e);
                },
            }
            match meta.try_block_exit() {
                Ok(_) => Ok(()),
                Err(e) => Err(e),
            }
        },
        LogicLine::InlineBlock(b) => {
            if depth == 0 {
                return Err(CompileError::RecursionLimit);
            }
            compile_lines(&b.0, meta, depth - 1)
        },
        LogicLine::Goto(g) => build_tree(g.1.clone(), meta, g.0.clone(), depth),
        LogicLine::Op(op) => compile_op(op, meta, depth),
        LogicLine::Const(c) => {
            if meta.block_depth() == 0 {
                return Err(CompileError::NoBlock);
            }
            let _ = meta.add_const_value(c.clone());
            Ok(())
        },
        LogicLine::Take(t) => {
            let h = match resolve_value(&t.1, meta, depth) {
                Ok(h) => h,
                Err(e) => {
                    return Err(e);
                },
            };
            if meta.block_depth() == 0 {
                return Err(CompileError::NoBlock);
            }
            let labels: Vec<Var> = Vec::new();
            assert(crate::syntax::ast::vars_view(labels@) =~= Seq::empty());
            let _ = meta.add_const_value(Const(t.0.clone(), Value::Var(h), labels));
            Ok(())
        },
        LogicLine::ConstLeak(name) => {
            if meta.block_depth() == 0 {
                return Err(CompileError::NoBlock);
            }
            meta.add_const_value_leak(name.clone());
            Ok(())
        },
    }
}

/// Takes out of the emitted code what was emitted since it was `start` long.
pub fn take_since(meta: &mut CompileMeta, start: usize, Ghost(before): Ghost<MetaV>) -> (r: Vec<
    TagLine,
>)
    requires
        start == before.codes.len(),
    ensures
        (final(meta)@, crate::tag_code::lines_view(r@)) == take_emitted(before, old(meta)@),
{
    let len = meta.tag_code_count();
    let at = if start <= len {
        start
    } else {
        len
    };
    meta.take_codes_from(at)
}

/// Compiles a jump table.
pub fn compile_select(
    idx: &Value,
    cases: &Vec<LogicLine>,
    meta: &mut CompileMeta,
    depth: usize,
) -> (r: Result<(), CompileError>)
    ensures
        compiled_as(
            r,
            final(meta)@,
            sem_select(old(meta)@, idx@, lines_view(*cases), fuel(depth)),
        ),
    decreases depth, 6nat, 0nat,
{
    let ghost cv = lines_view(*cases);
    let mut codes: Vec<Vec<TagLine>> = Vec::new();
    let mut i: usize = 0;
    assert(cv.take(0) =~= Seq::empty());
    assert(codes_view(codes@) =~= Seq::empty());
    while i < cases.len()
        invariant
            i <= cases.len(),
            cv == lines_view(*cases),
            sem_cases(old(meta)@, cv.take(i as int), fuel(depth)) == Ok::<
                (MetaV, Seq<Seq<TagLineV>>),
                CompileError,
            >((meta@, codes_view(codes@))),
        decreases cases.len() - i,
    {
        proof {
            assert(cv.take(i + 1).drop_last() =~= cv.take(i as int));
            assert(cv.take(i + 1).last() == cases@[i as int]@);
        }
        if depth == 0 {
            proof {
                lemma_cases_error_stays(old(meta)@, cv, fuel(depth), i + 1);
            }
            return Err(CompileError::RecursionLimit);
        }
        let ghost m1 = meta@;
        let ghost done = codes_view(codes@);
        let start = meta.tag_code_count();
        match compile_line(&cases[i], meta, depth - 1) {
            Ok(()) => {},
            Err(e) => {
                proof {
                    lemma_cases_error_stays(old(meta)@, cv, fuel(depth), i + 1);
                }
                return Err(e);
            },
        }
        let code = take_since(meta, start, Ghost(m1));
        codes.push(code);
        assert(codes_view(codes@) =~= done.push(crate::tag_code::lines_view(code@)));
        i += 1;
    }
    assert(cv.take(cases.len() as int) =~= cv);
    let ghost all = codes_view(codes@);
    // the length of the longest branch
    let mut longest: usize = 0;
    let mut k: usize = 0;
    while k < codes.len()
        invariant
            k <= codes.len(),
            all == codes_view(codes@),
            longest == max_len(all.take(k as int)),
        decreases codes.len() - k,
    {
        proof {
            assert(all.take(k + 1).drop_last() =~= all.take(k as int));
            assert(all.take(k + 1).last() == crate::tag_code::lines_view(codes@[k as int]@));
        }
        let n = count_lines(&codes[k]);
        if n > longest {
            longest = n;
        }
        k += 1;
    }
    assert(all.take(codes.len() as int) =~= all);
    let head = match select_head(idx, longest, meta, depth) {
        Ok(h) => h,
        Err(e) => {
            return Err(e);
        },
    };
    let ghost m2 = meta@;
    meta.extend_codes(head);
    let body = lay_out(&codes, longest);
    meta.extend_codes(body);
    proof {
        assert(meta@.codes =~= m2.codes + crate::tag_code::lines_view(head@) + laid_out(
            all,
            longest as nat,
        ));
    }
    Ok(())
}

/// The outcome `r` with the state `m` is what `spec` says.
pub open spec fn head_as(r: Result<Vec<TagLine>, CompileError>, m: MetaV, spec: CompiledHead) -> bool {
    match spec {
        Ok((m2, head)) => r is Ok && m == m2 && crate::tag_code::lines_view(r->Ok_0@) == head,
        Err(e) => r == Err::<Vec<TagLine>, CompileError>(e),
    }
}

/// The head of a jump table without instructions in its branches.
pub fn head_empty(idx: &Value, meta: &mut CompileMeta, depth: usize) -> (r: Result<
    Vec<TagLine>,
    CompileError,
>)
    ensures
        head_as(r, final(meta)@, sem_head_empty(old(meta)@, idx@, fuel(depth))),
    decreases depth, 5nat, 0nat,
{
    let ghost m0 = meta@;
    let start = meta.tag_code_count();
    let h = match resolve_value(idx, meta, depth) {
        Ok(h) => h,
        Err(e) => {
            return Err(e);
        },
    };
    if meta.block_depth() == 0 {
        return Err(CompileError::NoBlock);
    }
    let labels: Vec<Var> = Vec::new();
    assert(crate::syntax::ast::vars_view(labels@) =~= Seq::empty());
    let _ = meta.add_const_value(Const(owned("__"), Value::Var(h), labels));
    Ok(take_since(meta, start, Ghost(m0)))
}

/// The head of a jump table with one instruction in each branch.
pub fn head_single(idx: &Value, meta: &mut CompileMeta, depth: usize) -> (r: Result<
    Vec<TagLine>,
    CompileError,
>)
    ensures
        head_as(r, final(meta)@, sem_head_single(old(meta)@, idx@, fuel(depth))),
    decreases depth, 5nat, 0nat,
{
    let ghost m0 = meta@;
    let start = meta.tag_code_count();
    let op = Op::Add(Value::ReprVar(owned(COUNTER)), Value::ReprVar(owned(COUNTER)), idx.clone());
    match compile_op(&op, meta, depth) {
        Ok(()) => {},
        Err(e) => {
            return Err(e);
        },
    }
    Ok(take_since(meta, start, Ghost(m0)))
}

/// The head of a jump table with `len` instructions in each branch.
pub fn head_scaled(idx: &Value, len: usize, meta: &mut CompileMeta, depth: usize) -> (r: Result<
    Vec<TagLine>,
    CompileError,
>)
    ensures
        head_as(r, final(meta)@, sem_head_scaled(old(meta)@, idx@, len as nat, fuel(depth))),
    decreases depth, 5nat, 0nat,
{
    if meta.tmp_var_count() == usize::MAX {
        return Err(CompileError::TooManyTemporaries);
    }
    let tmp = meta.get_tmp_var();
    let ghost m1 = meta@;
    let start1 = meta.tag_code_count();
    let mul = Op::Mul(Value::Var(tmp.clone()), idx.clone(), Value::ReprVar(usize_text(len)));
    match compile_op(&mul, meta, depth) {
        Ok(()) => {},
        Err(e) => {
            return Err(e);
        },
    }
    let mut head = take_since(meta, start1, Ghost(m1));
    let ghost m3 = meta@;
    let start3 = meta.tag_code_count();
    let add = Op::Add(
        Value::ReprVar(owned(COUNTER)),
        Value::ReprVar(owned(COUNTER)),
        Value::Var(tmp),
    );
    match compile_op(&add, meta, depth) {
        Ok(()) => {},
        Err(e) => {
            return Err(e);
        },
    }
    let mut head1 = take_since(meta, start3, Ghost(m3));
    let ghost h0 = crate::tag_code::lines_view(head@);
    let ghost h1 = crate::tag_code::lines_view(head1@);
    head.append(&mut head1);
    assert(crate::tag_code::lines_view(head@) =~= h0 + h1);
    Ok(head)
}

/// The instructions in front of a jump table whose branches are `len` long.
pub fn select_head(idx: &Value, len: usize, meta: &mut CompileMeta, depth: usize) -> (r: Result<
    Vec<TagLine>,
    CompileError,
>)
    ensures
        head_as(r, final(meta)@, sem_select_head(old(meta)@, idx@, len as nat, fuel(depth))),
    decreases depth, 5nat, 1nat,
{
    if len == 0 {
        head_empty(idx, meta, depth)
    } else if len == 1 {
        head_single(idx, meta, depth)
    } else {
        head_scaled(idx, len, meta, depth)
    }
}

/// The branches one after the other, each filled up to `len` instructions.
pub fn lay_out(codes: &Vec<Vec<TagLine>>, len: usize) -> (r: Vec<TagLine>)
    ensures
        crate::tag_code::lines_view(r@) == laid_out(codes_view(codes@), len as nat),
{
    let ghost all = codes_view(codes@);
    let mut out: Vec<TagLine> = Vec::new();
    let mut i: usize = 0;
    assert(crate::tag_code::lines_view(out@) =~= laid_out(all.take(0), len as nat));
    while i < codes.len()
        invariant
            i <= codes.len(),
            all == codes_view(codes@),
            crate::tag_code::lines_view(out@) == laid_out(all.take(i as int), len as nat),
        decreases codes.len() - i,
    {
        proof {
            assert(all.take(i + 1).drop_last() =~= all.take(i as int));
            assert(all.take(i + 1).last() == crate::tag_code::lines_view(codes@[i as int]@));
        }
        let ghost before = crate::tag_code::lines_view(out@);
        let case = &codes[i];
        let ghost cv = crate::tag_code::lines_view(case@);
        let mut j: usize = 0;
        while j < case.len()
            invariant
                j <= case.len(),
                cv == crate::tag_code::lines_view(case@),
                crate::tag_code::lines_view(out@) == before + cv.take(j as int),
            decreases case.len() - j,
        {
            let ghost sofar = crate::tag_code::lines_view(out@);
            let l = case[j].duplicate();
            out.push(l);
            j += 1;
            proof {
                assert(crate::tag_code::lines_view(out@) =~= sofar.push(l@));
                assert(cv.take(j as int) =~= cv.take(j - 1).push(cv[j - 1]));
            }
        }
        assert(cv.take(case.len() as int) =~= cv);
        let n = count_lines(case);
        let mut pad: usize = 0;
        let fill: usize = if len >= n {
            len - n
        } else {
            0
        };
        while pad < fill
            invariant
                pad <= fill,
                crate::tag_code::lines_view(out@) == before + cv + noops(pad as nat),
            decreases fill - pad,
        {
            let ghost sofar = crate::tag_code::lines_view(out@);
            let l = TagLine::default();
            out.push(l);
            pad += 1;
            proof {
                assert(crate::tag_code::lines_view(out@) =~= sofar.push(noop_line()));
                assert(noops(pad as nat) =~= noops((pad - 1) as nat).push(noop_line()));
            }
        }
        proof {
            assert(before + cv + noops(fill as nat) =~= before + (cv + noops(fill as nat)));
            if len < n {
                assert(cv + noops(0) =~= cv);
            }
        }
        i += 1;
    }
    assert(all.take(codes.len() as int) =~= all);
    out
}

} // verus!
