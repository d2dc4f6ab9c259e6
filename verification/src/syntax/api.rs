//! The two capabilities of the syntax tree: a value gives its handle, a
//! statement compiles.

use vstd::prelude::*;
use crate::tag_code::{TagLine, TagCodes, lines_view as code_view};
use crate::syntax::ast::{
    Var,
    Value,
    ValueV,
    DExp,
    ValueBind,
    JumpCmp,
    CmpTree,
    Op,
    Goto,
    Expand,
    InlineBlock,
    Select,
    Const,
    Take,
    LogicLine,
    LineV,
    vars_view,
};
use crate::syntax::model::{MetaV, CompileError, Resolved, Compiled};
use crate::syntax::meta::CompileMeta;
use crate::syntax::sem::{
    sem_value,
    sem_var,
    sem_dexp,
    sem_op,
    sem_build,
    sem_line,
    take_emitted,
    jump_operands,
};
use crate::syntax::compile::{
    DEPTH_LIMIT,
    fuel,
    resolved_as,
    compiled_as,
    resolved_all_as,
    resolve_value,
    resolve_var,
    resolve_dexp,
    op_args,
    build_tree,
    compile_line,
    take_since,
};

verus! {

/// The outcome `r` with the state `m`, for a statement that was compiled
/// from the state `before` and whose code was then taken out.
pub open spec fn taken_as(
    r: Result<Vec<TagLine>, CompileError>,
    m: MetaV,
    before: MetaV,
    spec: Compiled,
) -> bool {
    match spec {
        Ok(m2) => r is Ok && (m, code_view(r->Ok_0@)) == take_emitted(before, m2),
        Err(e) => r == Err::<Vec<TagLine>, CompileError>(e),
    }
}

/// What resolves to a handle.
pub trait TakeHandle: Sized {
    /// What resolving does to the state, and the handle it gives.
    spec fn handle_spec(&self, m: MetaV, fuel: nat) -> Resolved;

    /// Compiles what the value depends on, and gives its handle.
    fn take_handle(self, meta: &mut CompileMeta) -> (r: Result<Var, CompileError>)
        ensures
            resolved_as(r, final(meta)@, self.handle_spec(old(meta)@, fuel(DEPTH_LIMIT))),
    ;
}

impl TakeHandle for Var {
    open spec fn handle_spec(&self, m: MetaV, fuel: nat) -> Resolved {
        sem_var(m, self@, fuel)
    }

    fn take_handle(self, meta: &mut CompileMeta) -> (r: Result<Var, CompileError>) {
        resolve_var(&self, meta, DEPTH_LIMIT)
    }
}

impl TakeHandle for Value {
    open spec fn handle_spec(&self, m: MetaV, fuel: nat) -> Resolved {
        sem_value(m, self@, fuel)
    }

    fn take_handle(self, meta: &mut CompileMeta) -> (r: Result<Var, CompileError>) {
        resolve_value(&self, meta, DEPTH_LIMIT)
    }
}

impl TakeHandle for DExp {
    open spec fn handle_spec(&self, m: MetaV, fuel: nat) -> Resolved {
        sem_dexp(m, self@, fuel)
    }

    fn take_handle(self, meta: &mut CompileMeta) -> (r: Result<Var, CompileError>) {
        resolve_dexp(&self, meta, DEPTH_LIMIT)
    }
}

impl TakeHandle for ValueBind {
    open spec fn handle_spec(&self, m: MetaV, fuel: nat) -> Resolved {
        sem_value(m, ValueV::ValueBind(Box::new((*self.0)@), self.1@), fuel)
    }

    fn take_handle(self, meta: &mut CompileMeta) -> (r: Result<Var, CompileError>) {
        let v = Value::ValueBind(self);
        resolve_value(&v, meta, DEPTH_LIMIT)
    }
}

/// What compiles to tagged code.
pub trait Compile: Sized {
    /// What compiling does to the state.
    spec fn compile_spec(&self, m: MetaV, fuel: nat) -> Compiled;

    /// Compiles the statement: its code goes to the end of the emitted code.
    fn compile(self, meta: &mut CompileMeta) -> (r: Result<(), CompileError>)
        ensures
            compiled_as(r, final(meta)@, self.compile_spec(old(meta)@, fuel(DEPTH_LIMIT))),
    ;

    /// Compiles the statement, then takes its code out of the emitted code
    /// and hands it back. What compiling did besides emitting stays done.
    fn compile_take(self, meta: &mut CompileMeta) -> (r: Result<Vec<TagLine>, CompileError>)
        ensures
            taken_as(
                r,
                final(meta)@,
                old(meta)@,
                self.compile_spec(old(meta)@, fuel(DEPTH_LIMIT)),
            ),
    ;
}

/// Compiles `line`, then takes its code out of the emitted code.
pub fn compile_take_line(line: &LogicLine, meta: &mut CompileMeta) -> (r: Result<
    Vec<TagLine>,
    CompileError,
>)
    ensures
        taken_as(r, final(meta)@, old(meta)@, sem_line(old(meta)@, line@, fuel(DEPTH_LIMIT))),
{
    let start = meta.tag_code_count();
    match compile_line(line, meta, DEPTH_LIMIT) {
        Ok(()) => {},
        Err(e) => {
            return Err(e);
        },
    }
    Ok(take_since(meta, start, Ghost(old(meta)@)))
}

impl Compile for LogicLine {
    open spec fn compile_spec(&self, m: MetaV, fuel: nat) -> Compiled {
        sem_line(m, self@, fuel)
    }

    fn compile(self, meta: &mut CompileMeta) -> (r: Result<(), CompileError>) {
        compile_line(&self, meta, DEPTH_LIMIT)
    }

    fn compile_take(self, meta: &mut CompileMeta) -> (r: Result<Vec<TagLine>, CompileError>) {
        compile_take_line(&self, meta)
    }
}

impl Compile for Op {
    open spec fn compile_spec(&self, m: MetaV, fuel: nat) -> Compiled {
        sem_line(m, LineV::Op(self@), fuel)
    }

    fn compile(self, meta: &mut CompileMeta) -> (r: Result<(), CompileError>) {
        compile_line(&LogicLine::Op(self), meta, DEPTH_LIMIT)
    }

    fn compile_take(self, meta: &mut CompileMeta) -> (r: Result<Vec<TagLine>, CompileError>) {
        compile_take_line(&LogicLine::Op(self), meta)
    }
}

impl Compile for Goto {
    open spec fn compile_spec(&self, m: MetaV, fuel: nat) -> Compiled {
        sem_line(m, LineV::Goto(self.0@, self.1@), fuel)
    }

    fn compile(self, meta: &mut CompileMeta) -> (r: Result<(), CompileError>) {
        compile_line(&LogicLine::Goto(self), meta, DEPTH_LIMIT)
    }

    fn compile_take(self, meta: &mut CompileMeta) -> (r: Result<Vec<TagLine>, CompileError>) {
        compile_take_line(&LogicLine::Goto(self), meta)
    }
}

impl Compile for Expand {
    open spec fn compile_spec(&self, m: MetaV, fuel: nat) -> Compiled {
        sem_line(m, LineV::Expand(self@), fuel)
    }

    fn compile(self, meta: &mut CompileMeta) -> (r: Result<(), CompileError>) {
        compile_line(&LogicLine::Expand(self), meta, DEPTH_LIMIT)
    }

    fn compile_take(self, meta: &mut CompileMeta) -> (r: Result<Vec<TagLine>, CompileError>) {
        compile_take_line(&LogicLine::Expand(self), meta)
    }
}

impl Compile for InlineBlock {
    open spec fn compile_spec(&self, m: MetaV, fuel: nat) -> Compiled {
        sem_line(m, LineV::InlineBlock(self@), fuel)
    }

    fn compile(self, meta: &mut CompileMeta) -> (r: Result<(), CompileError>) {
        compile_line(&LogicLine::InlineBlock(self), meta, DEPTH_LIMIT)
    }

    fn compile_take(self, meta: &mut CompileMeta) -> (r: Result<Vec<TagLine>, CompileError>) {
        compile_take_line(&LogicLine::InlineBlock(self), meta)
    }
}

impl Compile for Select {
    open spec fn compile_spec(&self, m: MetaV, fuel: nat) -> Compiled {
        sem_line(m, LineV::Select(self.0@, self.1@), fuel)
    }

    fn compile(self, meta: &mut CompileMeta) -> (r: Result<(), CompileError>) {
        compile_line(&LogicLine::Select(self), meta, DEPTH_LIMIT)
    }

    fn compile_take(self, meta: &mut CompileMeta) -> (r: Result<Vec<TagLine>, CompileError>) {
        compile_take_line(&LogicLine::Select(self), meta)
    }
}

impl Compile for Const {
    open spec fn compile_spec(&self, m: MetaV, fuel: nat) -> Compiled {
        sem_line(m, LineV::Const(self.0@, self.1@, vars_view(self.2@)), fuel)
    }

    fn compile(self, meta: &mut CompileMeta) -> (r: Result<(), CompileError>) {
        compile_line(&LogicLine::Const(self), meta, DEPTH_LIMIT)
    }

    fn compile_take(self, meta: &mut CompileMeta) -> (r: Result<Vec<TagLine>, CompileError>) {
        compile_take_line(&LogicLine::Const(self), meta)
    }
}

impl Compile for Take {
    open spec fn compile_spec(&self, m: MetaV, fuel: nat) -> Compiled {
        sem_line(m, LineV::Take(self.0@, self.1@), fuel)
    }

    fn compile(self, meta: &mut CompileMeta) -> (r: Result<(), CompileError>) {
        compile_line(&LogicLine::Take(self), meta, DEPTH_LIMIT)
    }

    fn compile_take(self, meta: &mut CompileMeta) -> (r: Result<Vec<TagLine>, CompileError>) {
        compile_take_line(&LogicLine::Take(self), meta)
    }
}

impl Op {
    /// The words of the operation's instruction: `op`, the operation's
    /// name, and the handles of the result and of the operands.
    pub fn generate_args(self, meta: &mut CompileMeta) -> (r: Result<Vec<String>, CompileError>)
        ensures
            resolved_all_as(r, final(meta)@, sem_op(old(meta)@, self@, fuel(DEPTH_LIMIT))),
    {
        op_args(&self, meta, DEPTH_LIMIT)
    }
}

impl JumpCmp {
    /// Resolves the two operands and gives their handles.
    pub fn build_value(self, meta: &mut CompileMeta) -> (r: Result<(Var, Var), CompileError>)
        ensures
            match sem_value(old(meta)@, jump_operands(self@).0, fuel(DEPTH_LIMIT)) {
                Err(e) => r == Err::<(Var, Var), CompileError>(e),
                Ok((m1, a)) => match sem_value(m1, jump_operands(self@).1, fuel(DEPTH_LIMIT)) {
                    Err(e) => r == Err::<(Var, Var), CompileError>(e),
                    Ok((m2, b)) => r is Ok && final(meta)@ == m2 && r->Ok_0.0@ == a && r->Ok_0.1@
                        == b,
                },
            },
    {
        let (av, bv) = self.get_values();
        let a = match resolve_value(&av, meta, DEPTH_LIMIT) {
            Ok(h) => h,
            Err(e) => {
                return Err(e);
            },
        };
        let b = match resolve_value(&bv, meta, DEPTH_LIMIT) {
            Ok(h) => h,
            Err(e) => {
                return Err(e);
            },
        };
        Ok((a, b))
    }
}

impl CmpTree {
    /// Compiles the condition to jumps to `do_tag` that are taken exactly
    /// when the condition holds.
    pub fn build(self, meta: &mut CompileMeta, do_tag: Var) -> (r: Result<(), CompileError>)
        ensures
            compiled_as(
                r,
                final(meta)@,
                sem_build(old(meta)@, self@, do_tag@, fuel(DEPTH_LIMIT)),
            ),
    {
        build_tree(self, meta, do_tag, DEPTH_LIMIT)
    }
}

impl CompileMeta {
    /// Compiles a program from scratch: what was emitted before is dropped,
    /// and the program is compiled as a block. The state comes back.
    pub fn compile_res_self(self, lines: Expand) -> (r: Result<Self, CompileError>)
        ensures
            match sem_line(
                self@.with_codes(Seq::empty()),
                LineV::Expand(lines@),
                fuel(DEPTH_LIMIT),
            ) {
                Ok(m) => r is Ok && r->Ok_0@ == m,
                Err(e) => r is Err && r->Err_0 == e,
            },
    {
        let mut meta = self;
        meta.tag_codes_mut().clear();
        match compile_line(&LogicLine::Expand(lines), &mut meta, DEPTH_LIMIT) {
            Ok(()) => Ok(meta),
            Err(e) => Err(e),
        }
    }

    /// Compiles a program from scratch and gives its tagged code.
    pub fn compile(self, lines: Expand) -> (r: Result<TagCodes, CompileError>)
        ensures
            match sem_line(
                self@.with_codes(Seq::empty()),
                LineV::Expand(lines@),
                fuel(DEPTH_LIMIT),
            ) {
                Ok(m) => r is Ok && r->Ok_0@ == m.codes,
                Err(e) => r == Err::<TagCodes, CompileError>(e),
            },
    {
        match self.compile_res_self(lines) {
            Ok(meta) => Ok(meta.into_tag_codes()),
            Err(e) => Err(e),
        }
    }
}

} // verus!
