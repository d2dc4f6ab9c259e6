//! Constructors, accessors and conversions of the syntax tree.

use vstd::prelude::*;
use vstd::std_specs::convert::FromSpecImpl;
use crate::text::owned;
use crate::tag_code::{TagLine, TagBox, Jump};
use crate::syntax::ast::{
    Var,
    Value,
    ValueV,
    DExp,
    ValueBind,
    JumpCmp,
    CmpTree,
    Op,
    Goto,
    Expand,
    InlineBlock,
    Select,
    Const,
    Take,
    LogicLine,
    LineV,
    values_view,
    lines_view,
    vars_view,
};

verus! {

impl From<Var> for Value {
    fn from(value: Var) -> (r: Self) {
        Value::Var(value)
    }
}

impl FromSpecImpl<Var> for Value {
    open spec fn obeys_from_spec() -> bool {
        true
    }

    open spec fn from_spec(value: Var) -> Self {
        Value::Var(value)
    }
}

impl From<&str> for Value {
    fn from(value: &str) -> (r: Self) {
        Value::Var(owned(value))
    }
}

impl FromSpecImpl<&str> for Value {
    open spec fn obeys_from_spec() -> bool {
        false
    }

    open spec fn from_spec(value: &str) -> Self {
        arbitrary()
    }
}

impl From<DExp> for Value {
    fn from(value: DExp) -> (r: Self) {
        Value::DExp(value)
    }
}

impl FromSpecImpl<DExp> for Value {
    open spec fn obeys_from_spec() -> bool {
        true
    }

    open spec fn from_spec(value: DExp) -> Self {
        Value::DExp(value)
    }
}

impl From<ValueBind> for Value {
    fn from(value: ValueBind) -> (r: Self) {
        Value::ValueBind(value)
    }
}

impl FromSpecImpl<ValueBind> for Value {
    open spec fn obeys_from_spec() -> bool {
        true
    }

    open spec fn from_spec(value: ValueBind) -> Self {
        Value::ValueBind(value)
    }
}

impl From<Op> for LogicLine {
    fn from(value: Op) -> (r: Self) {
        LogicLine::Op(value)
    }
}

impl FromSpecImpl<Op> for LogicLine {
    open spec fn obeys_from_spec() -> bool {
        true
    }

    open spec fn from_spec(value: Op) -> Self {
        LogicLine::Op(value)
    }
}

impl From<Goto> for LogicLine {
    fn from(value: Goto) -> (r: Self) {
        LogicLine::Goto(value)
    }
}

impl FromSpecImpl<Goto> for LogicLine {
    open spec fn obeys_from_spec() -> bool {
        true
    }

    open spec fn from_spec(value: Goto) -> Self {
        LogicLine::Goto(value)
    }
}

impl From<Expand> for LogicLine {
    fn from(value: Expand) -> (r: Self) {
        LogicLine::Expand(value)
    }
}

impl FromSpecImpl<Expand> for LogicLine {
    open spec fn obeys_from_spec() -> bool {
        true
    }

    open spec fn from_spec(value: Expand) -> Self {
        LogicLine::Expand(value)
    }
}

impl From<InlineBlock> for LogicLine {
    fn from(value: InlineBlock) -> (r: Self) {
        LogicLine::InlineBlock(value)
    }
}

impl FromSpecImpl<InlineBlock> for LogicLine {
    open spec fn obeys_from_spec() -> bool {
        true
    }

    open spec fn from_spec(value: InlineBlock) -> Self {
        LogicLine::InlineBlock(value)
    }
}

impl From<Select> for LogicLine {
    fn from(value: Select) -> (r: Self) {
        LogicLine::Select(value)
    }
}

impl FromSpecImpl<Select> for LogicLine {
    open spec fn obeys_from_spec() -> bool {
        true
    }

    open spec fn from_spec(value: Select) -> Self {
        LogicLine::Select(value)
    }
}

impl From<Const> for LogicLine {
    fn from(value: Const) -> (r: Self) {
        LogicLine::Const(value)
    }
}

impl FromSpecImpl<Const> for LogicLine {
    open spec fn obeys_from_spec() -> bool {
        true
    }

    open spec fn from_spec(value: Const) -> Self {
        LogicLine::Const(value)
    }
}

impl From<Take> for LogicLine {
    fn from(value: Take) -> (r: Self) {
        LogicLine::Take(value)
    }
}

impl FromSpecImpl<Take> for LogicLine {
    open spec fn obeys_from_spec() -> bool {
        true
    }

    open spec fn from_spec(value: Take) -> Self {
        LogicLine::Take(value)
    }
}

impl From<JumpCmp> for CmpTree {
    fn from(value: JumpCmp) -> (r: Self) {
        CmpTree::Atom(value)
    }
}

impl FromSpecImpl<JumpCmp> for CmpTree {
    open spec fn obeys_from_spec() -> bool {
        true
    }

    open spec fn from_spec(value: JumpCmp) -> Self {
        CmpTree::Atom(value)
    }
}

impl From<Vec<LogicLine>> for Expand {
    fn from(value: Vec<LogicLine>) -> (r: Self) {
        Expand(value)
    }
}

impl FromSpecImpl<Vec<LogicLine>> for Expand {
    open spec fn obeys_from_spec() -> bool {
        true
    }

    open spec fn from_spec(value: Vec<LogicLine>) -> Self {
        Expand(value)
    }
}

impl From<&str> for TagLine {
    fn from(value: &str) -> (r: Self) {
        TagLine::Line(TagBox::new(owned(value)))
    }
}

impl FromSpecImpl<&str> for TagLine {
    open spec fn obeys_from_spec() -> bool {
        false
    }

    open spec fn from_spec(value: &str) -> Self {
        arbitrary()
    }
}

impl From<String> for TagLine {
    fn from(value: String) -> (r: Self) {
        TagLine::Line(TagBox::new(value))
    }
}

impl FromSpecImpl<String> for TagLine {
    open spec fn obeys_from_spec() -> bool {
        false
    }

    open spec fn from_spec(value: String) -> Self {
        arbitrary()
    }
}

impl From<Jump> for TagLine {
    fn from(value: Jump) -> (r: Self) {
        TagLine::Jump(TagBox::new(value))
    }
}

impl FromSpecImpl<Jump> for TagLine {
    open spec fn obeys_from_spec() -> bool {
        false
    }

    open spec fn from_spec(value: Jump) -> Self {
        arbitrary()
    }
}

impl Default for LogicLine {
    fn default() -> (r: Self)
        ensures
            r@ == LineV::NoOp,
    {
        LogicLine::NoOp
    }
}

impl Default for Expand {
    fn default() -> (r: Self)
        ensures
            r@ == Seq::<LineV>::empty(),
    {
        let r = Expand(Vec::new());
        assert(r@ =~= Seq::<LineV>::empty());
        r
    }
}

impl core::ops::Deref for Expand {
    type Target = Vec<LogicLine>;

    fn deref(&self) -> (r: &Vec<LogicLine>)
        ensures
            *r == self.0,
    {
        &self.0
    }
}

impl core::ops::DerefMut for Expand {
    fn deref_mut(&mut self) -> (r: &mut Vec<LogicLine>)
        ensures
            *r == old(self).0,
            final(self).0 == *final(r),
    {
        &mut self.0
    }
}

impl core::ops::Deref for InlineBlock {
    type Target = Vec<LogicLine>;

    fn deref(&self) -> (r: &Vec<LogicLine>)
        ensures
            *r == self.0,
    {
        &self.0
    }
}

impl core::ops::DerefMut for InlineBlock {
    fn deref_mut(&mut self) -> (r: &mut Vec<LogicLine>)
        ensures
            *r == old(self).0,
            final(self).0 == *final(r),
    {
        &mut self.0
    }
}

impl core::ops::Deref for DExp {
    type Target = Expand;

    fn deref(&self) -> (r: &Expand)
        ensures
            *r == self.lines,
    {
        &self.lines
    }
}

impl core::ops::DerefMut for DExp {
    fn deref_mut(&mut self) -> (r: &mut Expand)
        ensures
            *r == old(self).lines,
            final(self).lines == *final(r),
            final(self).result == old(self).result,
    {
        &mut self.lines
    }
}

impl DExp {
    /// The expression with the handle `result` and the statements `lines`.
    pub fn new(result: Var, lines: Expand) -> (r: Self)
        ensures
            r == (DExp { result, lines }),
    {
        DExp { result, lines }
    }

    /// The expression that names its handle only where `result` holds one.
    pub fn new_optional_res(result: Option<Var>, lines: Expand) -> (r: Self)
        ensures
            r.lines == lines,
            match result {
                Some(s) => r.result == s,
                None => r.result@ == Seq::<char>::empty(),
            },
    {
        match result {
            Some(s) => DExp { result: s, lines },
            None => DExp { result: String::new(), lines },
        }
    }

    /// The expression that names no handle.
    pub fn new_nores(lines: Expand) -> (r: Self)
        ensures
            r.lines == lines,
            r.result@ == Seq::<char>::empty(),
    {
        DExp { result: String::new(), lines }
    }

    pub fn result(&self) -> (r: &str)
        ensures
            r@ == self.result@,
    {
        self.result.as_str()
    }

    pub fn lines(&self) -> (r: &Expand)
        ensures
            *r == self.lines,
    {
        &self.lines
    }

    pub fn lines_mut(&mut self) -> (r: &mut Expand)
        ensures
            *r == old(self).lines,
            final(self).lines == *final(r),
            final(self).result == old(self).result,
    {
        &mut self.lines
    }
}

/// What an operation is made of, for one choice of how its values are held.
pub struct OpInfo<Arg> {
    pub oper_str: &'static str,
    pub oper_sym: Option<&'static str>,
    pub result: Arg,
    pub arg1: Arg,
    pub arg2: Option<Arg>,
}

impl<Arg> OpInfo<Arg> {
    pub fn new(
        oper_str: &'static str,
        oper_sym: Option<&'static str>,
        result: Arg,
        arg1: Arg,
        arg2: Option<Arg>,
    ) -> (r: Self)
        ensures
            r == (OpInfo { oper_str, oper_sym, result, arg1, arg2 }),
    {
        OpInfo { oper_str, oper_sym, result, arg1, arg2 }
    }
}

impl Op {
    /// The name of the operation in the target language.
    pub fn oper_str(&self) -> (r: &'static str)
        ensures
            r@ == self@.kind.name(),
    {
        self.kind.oper_str()
    }

    /// The sign of the operation in the source language; its name where it
    /// has no sign.
    pub fn oper_symbol_str(&self) -> (r: &'static str)
        ensures
            r@ == self@.kind.symbol(),
    {
        self.kind.oper_symbol_str()
    }

    /// The value that takes the result.
    pub fn get_result(&self) -> (r: &Value)
        ensures
            *r == self.result,
    {
        &self.result
    }

    pub fn get_result_mut(&mut self) -> (r: &mut Value)
        ensures
            *r == old(self).result,
            *final(self) == (Op { result: *final(r), ..*old(self) }),
    {
        &mut self.result
    }

    /// What the operation is made of, by reference.
    pub fn get_info(&self) -> (r: OpInfo<&Value>)
        ensures
            r.oper_str@ == self.kind.name(),
            r.oper_sym is Some == self.kind.has_sign(),
            r.oper_sym is Some ==> r.oper_sym->Some_0@ == self.kind.symbol(),
            *r.result == self.result,
            *r.arg1 == self.arg1,
            match self.arg2 {
                Some(b) => r.arg2 is Some && *r.arg2->Some_0 == b,
                None => r.arg2 is None,
            },
    {
        OpInfo {
            oper_str: self.kind.oper_str(),
            oper_sym: self.kind.sign(),
            result: &self.result,
            arg1: &self.arg1,
            arg2: match &self.arg2 {
                Some(b) => Some(b),
                None => None,
            },
        }
    }

    /// What the operation is made of.
    pub fn into_info(self) -> (r: OpInfo<Value>)
        ensures
            r.oper_str@ == self.kind.name(),
            r.oper_sym is Some == self.kind.has_sign(),
            r.oper_sym is Some ==> r.oper_sym->Some_0@ == self.kind.symbol(),
            r.result == self.result,
            r.arg1 == self.arg1,
            r.arg2 == self.arg2,
    {
        OpInfo {
            oper_str: self.kind.oper_str(),
            oper_sym: self.kind.sign(),
            result: self.result,
            arg1: self.arg1,
            arg2: self.arg2,
        }
    }
}

impl Const {
    /// The constant `var` with the body `value`, which defines no labels.
    pub fn new(var: Var, value: Value) -> (r: Self)
        ensures
            r.0 == var,
            r.1 == value,
            r.2@ == Seq::<Var>::empty(),
    {
        Const(var, value, Vec::new())
    }
}

/// The name of the `i`-th argument of a call.
pub open spec fn arg_name(i: nat) -> Seq<char> {
    "_"@ + crate::text::dec_text(i)
}

/// The constants that hand `values` over as arguments: the `i`-th value is
/// bound to `_i`.
pub open spec fn arg_consts(values: Seq<ValueV>) -> Seq<LineV> {
    Seq::new(values.len(), |i: int| LineV::Const(arg_name(i as nat), values[i], Seq::empty()))
}

/// The statements that take `value` as `var` after handing `args` over:
/// a plain take where there are no arguments, else a block of the argument
/// constants and the take, which leaks `var` where `do_leak_res` says so.
pub open spec fn take_line(
    args: Seq<ValueV>,
    var: Seq<char>,
    do_leak_res: bool,
    value: ValueV,
) -> LineV {
    if args.len() == 0 {
        LineV::Take(var, value)
    } else if do_leak_res {
        LineV::Expand(arg_consts(args).push(LineV::Take(var, value)).push(LineV::ConstLeak(var)))
    } else {
        LineV::Expand(arg_consts(args).push(LineV::Take(var, value)))
    }
}

/// Whether `f` was handed the constant that binds `value` to `_i`.
pub open spec fn handed<F: FnMut(Const)>(f: F, value: ValueV, i: nat) -> bool {
    exists|c: Const|
        c.0@ == arg_name(i) && c.1@ == value && c.2@.len() == 0 && #[trigger] f.ensures((c,), ())
}

impl Take {
    /// Hands each of the constants that pass `values` over as arguments
    /// to `f`, in turn.
    pub fn build_arg_consts<F: FnMut(Const)>(values: Vec<Value>, f: F)
        requires
            forall|c: Const| #[trigger] f.requires((c,)),
        ensures
            forall|i: int|
                0 <= i < values.len() ==> handed(f, #[trigger] values_view(values)[i], i as nat),
    {
        let ghost vv = values_view(values);
        let ghost f0 = f;
        let mut f = f;
        let n = values.len();
        let mut rest = crate::text::reversed(values);
        let mut i: usize = 0;
        while rest.len() > 0
            invariant
                rest.len() + i == n,
                n == vv.len(),
                f == f0,
                forall|c: Const| #[trigger] f.requires((c,)),
                forall|j: int| 0 <= j < rest.len() ==> (#[trigger] rest@[j])@ == vv[n - 1 - j],
                forall|j: int| 0 <= j < i ==> handed(f0, #[trigger] vv[j], j as nat),
            decreases rest.len(),
        {
            let value = rest.pop().unwrap();
            let mut name = owned("_");
            crate::text::push_usize(&mut name, i);
            let c = Const(name, value, Vec::new());
            let ghost cv = c;
            f(c);
            proof {
                assert(cv.0@ == arg_name(i as nat));
                assert(f0.ensures((cv,), ()));
                assert(handed(f0, vv[i as int], i as nat));
            }
            i += 1;
        }
    }

    /// Appends to `expand` the constants that hand `values` over as
    /// arguments.
    pub fn build_arg_consts_to_expand(values: Vec<Value>, expand: &mut Vec<LogicLine>)
        ensures
            lines_view(*final(expand)) == lines_view(*old(expand)) + arg_consts(
                values_view(values),
            ),
    {
        let ghost vv = values_view(values);
        let ghost base = lines_view(*expand);
        let n = values.len();
        let mut rest = values;
        let mut stack: Vec<Value> = Vec::new();
        while rest.len() > 0
            invariant
                rest.len() + stack.len() == n,
                n == vv.len(),
                forall|i: int| 0 <= i < rest.len() ==> rest@[i]@ == vv[i],
                forall|i: int| 0 <= i < stack.len() ==> (#[trigger] stack@[i])@ == vv[n - 1 - i],
            decreases rest.len(),
        {
            let v = rest.pop().unwrap();
            stack.push(v);
        }
        let mut i: usize = 0;
        assert(lines_view(*expand) =~= base + arg_consts(vv).take(0));
        while stack.len() > 0
            invariant
                stack.len() + i == n,
                n == vv.len(),
                forall|j: int| 0 <= j < stack.len() ==> (#[trigger] stack@[j])@ == vv[n - 1 - j],
                lines_view(*expand) == base + arg_consts(vv).take(i as int),
            decreases stack.len(),
        {
            let value = stack.pop().unwrap();
            let mut name = owned("_");
            crate::text::push_usize(&mut name, i);
            let labels: Vec<Var> = Vec::new();
            let ghost before = lines_view(*expand);
            let line = LogicLine::Const(Const(name, value, labels));
            expand.push(line);
            proof {
                assert(vars_view(labels@) =~= Seq::empty());
                assert(lines_view(*expand) =~= before.push(line@));
                assert(arg_consts(vv).take(i + 1) =~= arg_consts(vv).take(i as int).push(line@));
            }
            i += 1;
        }
        assert(arg_consts(vv).take(n as int) =~= arg_consts(vv));
    }

    /// The statements that take `value` as `var` after handing `args` over.
    pub fn new(args: Vec<Value>, var: Var, do_leak_res: bool, value: Value) -> (r: LogicLine)
        ensures
            r@ == take_line(values_view(args), var@, do_leak_res, value@),
    {
        if args.len() == 0 {
            assert(values_view(args).len() == 0);
            LogicLine::Take(Take(var, value))
        } else {
            let mut expand: Vec<LogicLine> = Vec::new();
            assert(lines_view(expand) =~= Seq::empty());
            Take::build_arg_consts_to_expand(args, &mut expand);
            assert(lines_view(expand) =~= arg_consts(values_view(args)));
            if do_leak_res {
                let ghost s0 = lines_view(expand);
                let t = LogicLine::Take(Take(var.clone(), value));
                expand.push(t);
                let l = LogicLine::ConstLeak(var);
                expand.push(l);
                assert(lines_view(expand) =~= s0.push(t@).push(l@));
            } else {
                let ghost s0 = lines_view(expand);
                let t = LogicLine::Take(Take(var, value));
                expand.push(t);
                assert(lines_view(expand) =~= s0.push(t@));
            }
            LogicLine::Expand(Expand(expand))
        }
    }
}

impl LogicLine {
    pub fn is_op(&self) -> (r: bool)
        ensures
            r == (self@ is Op),
    {
        matches!(self, LogicLine::Op(..))
    }

    pub fn as_op(&self) -> (r: Option<&Op>)
        ensures
            match *self {
                LogicLine::Op(op) => r == Some(&op),
                _ => r is None,
            },
    {
        match self {
            LogicLine::Op(v) => Some(v),
            _ => None,
        }
    }

    pub fn as_op_mut(&mut self) -> (r: Option<&mut Op>)
        ensures
            match *old(self) {
                LogicLine::Op(op) => r is Some && *r->Some_0 == op && *final(self)
                    == LogicLine::Op(*final(r->Some_0)),
                _ => r is None && *final(self) == *old(self),
            },
    {
        match self {
            LogicLine::Op(v) => Some(v),
            _ => None,
        }
    }

    pub fn is_label(&self) -> (r: bool)
        ensures
            r == (self@ is Label),
    {
        matches!(self, LogicLine::Label(..))
    }

    pub fn as_label(&self) -> (r: Option<&Var>)
        ensures
            match *self {
                LogicLine::Label(s) => r == Some(&s),
                _ => r is None,
            },
    {
        match self {
            LogicLine::Label(v) => Some(v),
            _ => None,
        }
    }

    pub fn is_goto(&self) -> (r: bool)
        ensures
            r == (self@ is Goto),
    {
        matches!(self, LogicLine::Goto(..))
    }

    pub fn as_goto(&self) -> (r: Option<&Goto>)
        ensures
            match *self {
                LogicLine::Goto(g) => r == Some(&g),
                _ => r is None,
            },
    {
        match self {
            LogicLine::Goto(v) => Some(v),
            _ => None,
        }
    }

    pub fn is_other(&self) -> (r: bool)
        ensures
            r == (self@ is Other),
    {
        matches!(self, LogicLine::Other(..))
    }

    pub fn as_other(&self) -> (r: Option<&Vec<Value>>)
        ensures
            match *self {
                LogicLine::Other(vs) => r == Some(&vs),
                _ => r is None,
            },
    {
        match self {
            LogicLine::Other(v) => Some(v),
            _ => None,
        }
    }

    pub fn is_expand(&self) -> (r: bool)
        ensures
            r == (self@ is Expand),
    {
        matches!(self, LogicLine::Expand(..))
    }

    pub fn as_expand(&self) -> (r: Option<&Expand>)
        ensures
            match *self {
                LogicLine::Expand(e) => r == Some(&e),
                _ => r is None,
            },
    {
        match self {
            LogicLine::Expand(v) => Some(v),
            _ => None,
        }
    }
}

} // verus!
