//! The syntax tree of the source language, and the mathematical form of
//! each of its types.

use vstd::prelude::*;

verus! {

/// The atom of the language: an identifier or a literal.
pub type Var = String;

/// A position in a source text.
pub type Location = usize;

pub const COUNTER: &'static str = "@counter";

pub const FALSE_VAR: &'static str = "false";

pub const ZERO_VAR: &'static str = "0";

pub const UNUSED_VAR: &'static str = "0";

#[derive(Debug, PartialEq)]
pub enum Value {
    /// An ordinary name, which a constant of that name replaces.
    Var(Var),
    /// An expression with a handle.
    DExp(DExp),
    /// A name that no constant replaces.
    ReprVar(Var),
    /// Stands for the handle of the expression around it.
    ResultHandle,
    ValueBind(ValueBind),
}

/// Statements with a handle: once they are compiled, the handle holds
/// their result. An empty `result` asks for a fresh handle.
#[derive(Debug, PartialEq)]
pub struct DExp {
    pub result: Var,
    pub lines: Expand,
}

/// An attribute `.1` of the value `.0`.
#[derive(Debug, PartialEq)]
pub struct ValueBind(pub Box<Value>, pub Var);

/// The comparison of a conditional jump.
#[derive(Debug, PartialEq)]
pub enum JumpCmp {
    Equal(Value, Value),
    NotEqual(Value, Value),
    LessThan(Value, Value),
    LessThanEq(Value, Value),
    GreaterThan(Value, Value),
    GreaterThanEq(Value, Value),
    StrictEqual(Value, Value),
    StrictNotEqual(Value, Value),
    Always,
    NotAlways,
}

/// A condition made of comparisons, `&&` and `||`.
#[derive(Debug, PartialEq)]
pub enum CmpTree {
    And(Box<CmpTree>, Box<CmpTree>),
    Or(Box<CmpTree>, Box<CmpTree>),
    Atom(JumpCmp),
}

/// An operation: which one it is, where its result goes, and its one or
/// two operands.
#[derive(Debug, PartialEq)]
pub struct Op {
    pub kind: OpKind,
    pub result: Value,
    pub arg1: Value,
    pub arg2: Option<Value>,
}

#[derive(Debug, PartialEq)]
pub struct Goto(pub Var, pub CmpTree);

/// A block with a scope of its own for constants.
#[derive(Debug, PartialEq)]
pub struct Expand(pub Vec<LogicLine>);

/// A block without a scope of its own.
#[derive(Debug, PartialEq)]
pub struct InlineBlock(pub Vec<LogicLine>);

/// A jump table: the value picks one of the statements of the block.
#[derive(Debug, PartialEq)]
pub struct Select(pub Value, pub Expand);

/// Binds the name `.0` to the value `.1`, whose body defines the labels `.2`.
#[derive(Debug, PartialEq)]
pub struct Const(pub Var, pub Value, pub Vec<Var>);

/// Computes the value `.1` and binds the name `.0` to its handle.
#[derive(Debug, PartialEq)]
pub struct Take(pub Var, pub Value);

#[derive(Debug, PartialEq)]
pub enum LogicLine {
    Op(Op),
    Label(Var),
    Goto(Goto),
    Other(Vec<Value>),
    Expand(Expand),
    InlineBlock(InlineBlock),
    Select(Select),
    NoOp,
    /// Emits nothing.
    Ignore,
    Const(Const),
    Take(Take),
    ConstLeak(Var),
    /// Sets the handle of the expression around it.
    SetResultHandle(Value),
}

/// Which operation an [`Op`] is.
#[derive(Debug, PartialEq, Eq, Structural, Clone, Copy)]
pub enum OpKind {
    Add,
    Sub,
    Mul,
    Div,
    Idiv,
    Mod,
    Pow,
    Equal,
    NotEqual,
    Land,
    LessThan,
    LessThanEq,
    GreaterThan,
    GreaterThanEq,
    StrictEqual,
    Shl,
    Shr,
    Or,
    And,
    Xor,
    Max,
    Min,
    Angle,
    Len,
    Noise,
    Not,
    Abs,
    Log,
    Log10,
    Floor,
    Ceil,
    Sqrt,
    Rand,
    Sin,
    Cos,
    Tan,
    Asin,
    Acos,
    Atan,
}

/// Which comparison a [`JumpCmp`] with two operands is.
#[derive(Debug, PartialEq, Eq, Structural, Clone, Copy)]
pub enum CmpKind {
    Equal,
    NotEqual,
    LessThan,
    LessThanEq,
    GreaterThan,
    GreaterThanEq,
    StrictEqual,
    StrictNotEqual,
}

pub enum ValueV {
    Var(Seq<char>),
    DExp(DExpV),
    ReprVar(Seq<char>),
    ResultHandle,
    ValueBind(Box<ValueV>, Seq<char>),
}

pub struct DExpV {
    pub result: Seq<char>,
    pub lines: Seq<LineV>,
}

pub enum JumpCmpV {
    Cmp(CmpKind, ValueV, ValueV),
    Always,
    NotAlways,
}

pub enum CmpTreeV {
    And(Box<CmpTreeV>, Box<CmpTreeV>),
    Or(Box<CmpTreeV>, Box<CmpTreeV>),
    Atom(JumpCmpV),
}

/// An operation: its kind, where the result goes, and one or two operands.
pub struct OpV {
    pub kind: OpKind,
    pub result: ValueV,
    pub a: ValueV,
    pub b: Option<ValueV>,
}

pub enum LineV {
    Op(OpV),
    Label(Seq<char>),
    Goto(Seq<char>, CmpTreeV),
    Other(Seq<ValueV>),
    Expand(Seq<LineV>),
    InlineBlock(Seq<LineV>),
    Select(ValueV, Seq<LineV>),
    NoOp,
    Ignore,
    Const(Seq<char>, ValueV, Seq<Seq<char>>),
    Take(Seq<char>, ValueV),
    ConstLeak(Seq<char>),
    SetResultHandle(ValueV),
}

impl OpKind {
    /// Whether the operation takes two operands.
    pub open spec fn is_binary(self) -> bool {
        match self {
            OpKind::Not => false,
            OpKind::Abs => false,
            OpKind::Log => false,
            OpKind::Log10 => false,
            OpKind::Floor => false,
            OpKind::Ceil => false,
            OpKind::Sqrt => false,
            OpKind::Rand => false,
            OpKind::Sin => false,
            OpKind::Cos => false,
            OpKind::Tan => false,
            OpKind::Asin => false,
            OpKind::Acos => false,
            OpKind::Atan => false,
            _ => true,
        }
    }

    /// The name of the operation in the target language.
    pub open spec fn name(self) -> Seq<char> {
        match self {
            OpKind::Add => "add"@,
            OpKind::Sub => "sub"@,
            OpKind::Mul => "mul"@,
            OpKind::Div => "div"@,
            OpKind::Idiv => "idiv"@,
            OpKind::Mod => "mod"@,
            OpKind::Pow => "pow"@,
            OpKind::Equal => "equal"@,
            OpKind::NotEqual => "notEqual"@,
            OpKind::Land => "land"@,
            OpKind::LessThan => "lessThan"@,
            OpKind::LessThanEq => "lessThanEq"@,
            OpKind::GreaterThan => "greaterThan"@,
            OpKind::GreaterThanEq => "greaterThanEq"@,
            OpKind::StrictEqual => "strictEqual"@,
            OpKind::Shl => "shl"@,
            OpKind::Shr => "shr"@,
            OpKind::Or => "or"@,
            OpKind::And => "and"@,
            OpKind::Xor => "xor"@,
            OpKind::Max => "max"@,
            OpKind::Min => "min"@,
            OpKind::Angle => "angle"@,
            OpKind::Len => "len"@,
            OpKind::Noise => "noise"@,
            OpKind::Not => "not"@,
            OpKind::Abs => "abs"@,
            OpKind::Log => "log"@,
            OpKind::Log10 => "log10"@,
            OpKind::Floor => "floor"@,
            OpKind::Ceil => "ceil"@,
            OpKind::Sqrt => "sqrt"@,
            OpKind::Rand => "rand"@,
            OpKind::Sin => "sin"@,
            OpKind::Cos => "cos"@,
            OpKind::Tan => "tan"@,
            OpKind::Asin => "asin"@,
            OpKind::Acos => "acos"@,
            OpKind::Atan => "atan"@,
        }
    }

    /// The sign of the operation in the source language; its name where it
    /// has no sign.
    pub open spec fn symbol(self) -> Seq<char> {
        match self {
            OpKind::Add => "+"@,
            OpKind::Sub => "-"@,
            OpKind::Mul => "*"@,
            OpKind::Div => "/"@,
            OpKind::Idiv => "//"@,
            OpKind::Mod => "%"@,
            OpKind::Pow => "**"@,
            OpKind::Equal => "=="@,
            OpKind::NotEqual => "!="@,
            OpKind::Land => "&&"@,
            OpKind::LessThan => "<"@,
            OpKind::LessThanEq => "<="@,
            OpKind::GreaterThan => ">"@,
            OpKind::GreaterThanEq => ">="@,
            OpKind::StrictEqual => "==="@,
            OpKind::Shl => "<<"@,
            OpKind::Shr => ">>"@,
            OpKind::Or => "|"@,
            OpKind::And => "&"@,
            OpKind::Xor => "^"@,
            OpKind::Max => "max"@,
            OpKind::Min => "min"@,
            OpKind::Angle => "angle"@,
            OpKind::Len => "len"@,
            OpKind::Noise => "noise"@,
            OpKind::Not => "~"@,
            OpKind::Abs => "abs"@,
            OpKind::Log => "log"@,
            OpKind::Log10 => "log10"@,
            OpKind::Floor => "floor"@,
            OpKind::Ceil => "ceil"@,
            OpKind::Sqrt => "sqrt"@,
            OpKind::Rand => "rand"@,
            OpKind::Sin => "sin"@,
            OpKind::Cos => "cos"@,
            OpKind::Tan => "tan"@,
            OpKind::Asin => "asin"@,
            OpKind::Acos => "acos"@,
            OpKind::Atan => "atan"@,
        }
    }

    /// Whether the operation has a sign of its own in the source language.
    pub open spec fn has_sign(self) -> bool {
        match self {
            OpKind::Max => false,
            OpKind::Min => false,
            OpKind::Angle => false,
            OpKind::Len => false,
            OpKind::Noise => false,
            OpKind::Abs => false,
            OpKind::Log => false,
            OpKind::Log10 => false,
            OpKind::Floor => false,
            OpKind::Ceil => false,
            OpKind::Sqrt => false,
            OpKind::Rand => false,
            OpKind::Sin => false,
            OpKind::Cos => false,
            OpKind::Tan => false,
            OpKind::Asin => false,
            OpKind::Acos => false,
            OpKind::Atan => false,
            _ => true,
        }
    }

    /// The sign of the operation, if it has one.
    pub fn sign(self) -> (r: Option<&'static str>)
        ensures
            r is Some == self.has_sign(),
            r is Some ==> r->Some_0@ == self.symbol(),
    {
        match self {
            OpKind::Add => Some("+"),
            OpKind::Sub => Some("-"),
            OpKind::Mul => Some("*"),
            OpKind::Div => Some("/"),
            OpKind::Idiv => Some("//"),
            OpKind::Mod => Some("%"),
            OpKind::Pow => Some("**"),
            OpKind::Equal => Some("=="),
            OpKind::NotEqual => Some("!="),
            OpKind::Land => Some("&&"),
            OpKind::LessThan => Some("<"),
            OpKind::LessThanEq => Some("<="),
            OpKind::GreaterThan => Some(">"),
            OpKind::GreaterThanEq => Some(">="),
            OpKind::StrictEqual => Some("==="),
            OpKind::Shl => Some("<<"),
            OpKind::Shr => Some(">>"),
            OpKind::Or => Some("|"),
            OpKind::And => Some("&"),
            OpKind::Xor => Some("^"),
            OpKind::Max => None,
            OpKind::Min => None,
            OpKind::Angle => None,
            OpKind::Len => None,
            OpKind::Noise => None,
            OpKind::Not => Some("~"),
            OpKind::Abs => None,
            OpKind::Log => None,
            OpKind::Log10 => None,
            OpKind::Floor => None,
            OpKind::Ceil => None,
            OpKind::Sqrt => None,
            OpKind::Rand => None,
            OpKind::Sin => None,
            OpKind::Cos => None,
            OpKind::Tan => None,
            OpKind::Asin => None,
            OpKind::Acos => None,
            OpKind::Atan => None,
        }
    }

    pub fn binary(self) -> (r: bool)
        ensures
            r == self.is_binary(),
    {
        match self {
            OpKind::Not => false,
            OpKind::Abs => false,
            OpKind::Log => false,
            OpKind::Log10 => false,
            OpKind::Floor => false,
            OpKind::Ceil => false,
            OpKind::Sqrt => false,
            OpKind::Rand => false,
            OpKind::Sin => false,
            OpKind::Cos => false,
            OpKind::Tan => false,
            OpKind::Asin => false,
            OpKind::Acos => false,
            OpKind::Atan => false,
            _ => true,
        }
    }

    pub fn oper_str(self) -> (r: &'static str)
        ensures
            r@ == self.name(),
    {
        match self {
            OpKind::Add => "add",
            OpKind::Sub => "sub",
            OpKind::Mul => "mul",
            OpKind::Div => "div",
            OpKind::Idiv => "idiv",
            OpKind::Mod => "mod",
            OpKind::Pow => "pow",
            OpKind::Equal => "equal",
            OpKind::NotEqual => "notEqual",
            OpKind::Land => "land",
            OpKind::LessThan => "lessThan",
            OpKind::LessThanEq => "lessThanEq",
            OpKind::GreaterThan => "greaterThan",
            OpKind::GreaterThanEq => "greaterThanEq",
            OpKind::StrictEqual => "strictEqual",
            OpKind::Shl => "shl",
            OpKind::Shr => "shr",
            OpKind::Or => "or",
            OpKind::And => "and",
            OpKind::Xor => "xor",
            OpKind::Max => "max",
            OpKind::Min => "min",
            OpKind::Angle => "angle",
            OpKind::Len => "len",
            OpKind::Noise => "noise",
            OpKind::Not => "not",
            OpKind::Abs => "abs",
            OpKind::Log => "log",
            OpKind::Log10 => "log10",
            OpKind::Floor => "floor",
            OpKind::Ceil => "ceil",
            OpKind::Sqrt => "sqrt",
            OpKind::Rand => "rand",
            OpKind::Sin => "sin",
            OpKind::Cos => "cos",
            OpKind::Tan => "tan",
            OpKind::Asin => "asin",
            OpKind::Acos => "acos",
            OpKind::Atan => "atan",
        }
    }

    pub fn oper_symbol_str(self) -> (r: &'static str)
        ensures
            r@ == self.symbol(),
    {
        match self {
            OpKind::Add => "+",
            OpKind::Sub => "-",
            OpKind::Mul => "*",
            OpKind::Div => "/",
            OpKind::Idiv => "//",
            OpKind::Mod => "%",
            OpKind::Pow => "**",
            OpKind::Equal => "==",
            OpKind::NotEqual => "!=",
            OpKind::Land => "&&",
            OpKind::LessThan => "<",
            OpKind::LessThanEq => "<=",
            OpKind::GreaterThan => ">",
            OpKind::GreaterThanEq => ">=",
            OpKind::StrictEqual => "===",
            OpKind::Shl => "<<",
            OpKind::Shr => ">>",
            OpKind::Or => "|",
            OpKind::And => "&",
            OpKind::Xor => "^",
            OpKind::Max => "max",
            OpKind::Min => "min",
            OpKind::Angle => "angle",
            OpKind::Len => "len",
            OpKind::Noise => "noise",
            OpKind::Not => "~",
            OpKind::Abs => "abs",
            OpKind::Log => "log",
            OpKind::Log10 => "log10",
            OpKind::Floor => "floor",
            OpKind::Ceil => "ceil",
            OpKind::Sqrt => "sqrt",
            OpKind::Rand => "rand",
            OpKind::Sin => "sin",
            OpKind::Cos => "cos",
            OpKind::Tan => "tan",
            OpKind::Asin => "asin",
            OpKind::Acos => "acos",
            OpKind::Atan => "atan",
        }
    }
}

impl CmpKind {
    /// The comparison that holds exactly when this one does not.
    pub open spec fn reversed(self) -> CmpKind {
        match self {
            CmpKind::Equal => CmpKind::NotEqual,
            CmpKind::NotEqual => CmpKind::Equal,
            CmpKind::LessThan => CmpKind::GreaterThanEq,
            CmpKind::LessThanEq => CmpKind::GreaterThan,
            CmpKind::GreaterThan => CmpKind::LessThanEq,
            CmpKind::GreaterThanEq => CmpKind::LessThan,
            CmpKind::StrictEqual => CmpKind::StrictNotEqual,
            CmpKind::StrictNotEqual => CmpKind::StrictEqual,
        }
    }

    /// Whether the target language has the comparison.
    pub open spec fn is_native(self) -> bool {
        self != CmpKind::StrictNotEqual
    }

    /// The name of the comparison in the target language.
    pub open spec fn name(self) -> Seq<char> {
        match self {
            CmpKind::Equal => "equal"@,
            CmpKind::NotEqual => "notEqual"@,
            CmpKind::LessThan => "lessThan"@,
            CmpKind::LessThanEq => "lessThanEq"@,
            CmpKind::GreaterThan => "greaterThan"@,
            CmpKind::GreaterThanEq => "greaterThanEq"@,
            CmpKind::StrictEqual => "strictEqual"@,
            CmpKind::StrictNotEqual => "strictNotEqual"@,
        }
    }

    /// The sign of the comparison in the source language.
    pub open spec fn symbol(self) -> Seq<char> {
        match self {
            CmpKind::Equal => "=="@,
            CmpKind::NotEqual => "!="@,
            CmpKind::LessThan => "<"@,
            CmpKind::LessThanEq => "<="@,
            CmpKind::GreaterThan => ">"@,
            CmpKind::GreaterThanEq => ">="@,
            CmpKind::StrictEqual => "==="@,
            CmpKind::StrictNotEqual => "!=="@,
        }
    }

    pub fn reverse(self) -> (r: CmpKind)
        ensures
            r == self.reversed(),
    {
        match self {
            CmpKind::Equal => CmpKind::NotEqual,
            CmpKind::NotEqual => CmpKind::Equal,
            CmpKind::LessThan => CmpKind::GreaterThanEq,
            CmpKind::LessThanEq => CmpKind::GreaterThan,
            CmpKind::GreaterThan => CmpKind::LessThanEq,
            CmpKind::GreaterThanEq => CmpKind::LessThan,
            CmpKind::StrictEqual => CmpKind::StrictNotEqual,
            CmpKind::StrictNotEqual => CmpKind::StrictEqual,
        }
    }

    pub fn text(self) -> (r: &'static str)
        ensures
            r@ == self.name(),
    {
        match self {
            CmpKind::Equal => "equal",
            CmpKind::NotEqual => "notEqual",
            CmpKind::LessThan => "lessThan",
            CmpKind::LessThanEq => "lessThanEq",
            CmpKind::GreaterThan => "greaterThan",
            CmpKind::GreaterThanEq => "greaterThanEq",
            CmpKind::StrictEqual => "strictEqual",
            CmpKind::StrictNotEqual => "strictNotEqual",
        }
    }

    pub fn symbol_text(self) -> (r: &'static str)
        ensures
            r@ == self.symbol(),
    {
        match self {
            CmpKind::Equal => "==",
            CmpKind::NotEqual => "!=",
            CmpKind::LessThan => "<",
            CmpKind::LessThanEq => "<=",
            CmpKind::GreaterThan => ">",
            CmpKind::GreaterThanEq => ">=",
            CmpKind::StrictEqual => "===",
            CmpKind::StrictNotEqual => "!==",
        }
    }
}

pub open spec fn value_view(v: Value) -> ValueV
    decreases v,
{
    match v {
        Value::Var(s) => ValueV::Var(s@),
        Value::DExp(d) => ValueV::DExp(DExpV { result: d.result@, lines: lines_view(d.lines.0) }),
        Value::ReprVar(s) => ValueV::ReprVar(s@),
        Value::ResultHandle => ValueV::ResultHandle,
        Value::ValueBind(b) => ValueV::ValueBind(Box::new(value_view(*b.0)), b.1@),
    }
}

pub open spec fn values_view(l: Vec<Value>) -> Seq<ValueV>
    decreases l,
{
    Seq::new(
        l@.len(),
        |i: int|
            if 0 <= i < l@.len() {
                value_view(l@[i])
            } else {
                ValueV::ResultHandle
            },
    )
}

pub open spec fn lines_view(l: Vec<LogicLine>) -> Seq<LineV>
    decreases l,
{
    Seq::new(
        l@.len(),
        |i: int|
            if 0 <= i < l@.len() {
                line_view(l@[i])
            } else {
                LineV::NoOp
            },
    )
}

pub open spec fn jump_view(c: JumpCmp) -> JumpCmpV
    decreases c,
{
    match c {
        JumpCmp::Equal(a, b) => JumpCmpV::Cmp(CmpKind::Equal, value_view(a), value_view(b)),
        JumpCmp::NotEqual(a, b) => JumpCmpV::Cmp(CmpKind::NotEqual, value_view(a), value_view(b)),
        JumpCmp::LessThan(a, b) => JumpCmpV::Cmp(CmpKind::LessThan, value_view(a), value_view(b)),
        JumpCmp::LessThanEq(a, b) => JumpCmpV::Cmp(CmpKind::LessThanEq, value_view(a), value_view(b)),
        JumpCmp::GreaterThan(a, b) => JumpCmpV::Cmp(CmpKind::GreaterThan, value_view(a), value_view(b)),
        JumpCmp::GreaterThanEq(a, b) => JumpCmpV::Cmp(CmpKind::GreaterThanEq, value_view(a), value_view(b)),
        JumpCmp::StrictEqual(a, b) => JumpCmpV::Cmp(CmpKind::StrictEqual, value_view(a), value_view(b)),
        JumpCmp::StrictNotEqual(a, b) => JumpCmpV::Cmp(CmpKind::StrictNotEqual, value_view(a), value_view(b)),
        JumpCmp::Always => JumpCmpV::Always,
        JumpCmp::NotAlways => JumpCmpV::NotAlways,
    }
}

pub open spec fn tree_view(t: CmpTree) -> CmpTreeV
    decreases t,
{
    match t {
        CmpTree::And(a, b) => CmpTreeV::And(Box::new(tree_view(*a)), Box::new(tree_view(*b))),
        CmpTree::Or(a, b) => CmpTreeV::Or(Box::new(tree_view(*a)), Box::new(tree_view(*b))),
        CmpTree::Atom(c) => CmpTreeV::Atom(jump_view(c)),
    }
}

pub open spec fn op_view(op: Op) -> OpV
    decreases op,
{
    OpV {
        kind: op.kind,
        result: value_view(op.result),
        a: value_view(op.arg1),
        b: match op.arg2 {
            Some(b) => Some(value_view(b)),
            None => None,
        },
    }
}

pub open spec fn vars_view(l: Seq<Var>) -> Seq<Seq<char>> {
    Seq::new(l.len(), |i: int| l[i]@)
}

pub open spec fn line_view(l: LogicLine) -> LineV
    decreases l,
{
    match l {
        LogicLine::Op(op) => LineV::Op(op_view(op)),
        LogicLine::Label(s) => LineV::Label(s@),
        LogicLine::Goto(g) => LineV::Goto(g.0@, tree_view(g.1)),
        LogicLine::Other(vs) => LineV::Other(values_view(vs)),
        LogicLine::Expand(e) => LineV::Expand(lines_view(e.0)),
        LogicLine::InlineBlock(b) => LineV::InlineBlock(lines_view(b.0)),
        LogicLine::Select(s) => LineV::Select(value_view(s.0), lines_view(s.1.0)),
        LogicLine::NoOp => LineV::NoOp,
        LogicLine::Ignore => LineV::Ignore,
        LogicLine::Const(c) => LineV::Const(c.0@, value_view(c.1), vars_view(c.2@)),
        LogicLine::Take(t) => LineV::Take(t.0@, value_view(t.1)),
        LogicLine::ConstLeak(s) => LineV::ConstLeak(s@),
        LogicLine::SetResultHandle(v) => LineV::SetResultHandle(value_view(v)),
    }
}

impl View for Value {
    type V = ValueV;

    open spec fn view(&self) -> ValueV {
        value_view(*self)
    }
}

impl View for DExp {
    type V = DExpV;

    open spec fn view(&self) -> DExpV {
        DExpV { result: self.result@, lines: lines_view(self.lines.0) }
    }
}

impl View for JumpCmp {
    type V = JumpCmpV;

    open spec fn view(&self) -> JumpCmpV {
        jump_view(*self)
    }
}

impl View for CmpTree {
    type V = CmpTreeV;

    open spec fn view(&self) -> CmpTreeV {
        tree_view(*self)
    }
}

impl View for Op {
    type V = OpV;

    open spec fn view(&self) -> OpV {
        op_view(*self)
    }
}

impl View for Expand {
    type V = Seq<LineV>;

    open spec fn view(&self) -> Seq<LineV> {
        lines_view(self.0)
    }
}

impl View for InlineBlock {
    type V = Seq<LineV>;

    open spec fn view(&self) -> Seq<LineV> {
        lines_view(self.0)
    }
}

impl View for LogicLine {
    type V = LineV;

    open spec fn view(&self) -> LineV {
        line_view(*self)
    }
}

impl Value {
    pub fn is_dexp(&self) -> (r: bool)
        ensures
            r == (self@ is DExp),
    {
        matches!(self, Value::DExp(..))
    }

    pub fn as_dexp(&self) -> (r: Option<&DExp>)
        ensures
            match self@ {
                ValueV::DExp(d) => r is Some && r->Some_0@ == d,
                _ => r is None,
            },
    {
        match self {
            Value::DExp(v) => Some(v),
            _ => None,
        }
    }

    pub fn as_dexp_mut(&mut self) -> (r: Option<&mut DExp>)
        ensures
            match *old(self) {
                Value::DExp(d) => r is Some && *r->Some_0 == d && *final(self) == Value::DExp(
                    *final(r->Some_0),
                ),
                _ => r is None && *final(self) == *old(self),
            },
    {
        match self {
            Value::DExp(v) => Some(v),
            _ => None,
        }
    }

    pub fn is_var(&self) -> (r: bool)
        ensures
            r == (self@ is Var),
    {
        matches!(self, Value::Var(..))
    }

    pub fn as_var(&self) -> (r: Option<&Var>)
        ensures
            match self@ {
                ValueV::Var(s) => r is Some && r->Some_0@ == s,
                _ => r is None,
            },
    {
        match self {
            Value::Var(v) => Some(v),
            _ => None,
        }
    }

    pub fn is_repr_var(&self) -> (r: bool)
        ensures
            r == (self@ is ReprVar),
    {
        matches!(self, Value::ReprVar(..))
    }

    pub fn as_repr_var(&self) -> (r: Option<&Var>)
        ensures
            match self@ {
                ValueV::ReprVar(s) => r is Some && r->Some_0@ == s,
                _ => r is None,
            },
    {
        match self {
            Value::ReprVar(v) => Some(v),
            _ => None,
        }
    }

    pub fn is_result_handle(&self) -> (r: bool)
        ensures
            r == (self@ is ResultHandle),
    {
        matches!(self, Value::ResultHandle)
    }
}

/// A copy of a list of names.
pub fn clone_vars(l: &Vec<Var>) -> (r: Vec<Var>)
    ensures
        vars_view(r@) == vars_view(l@),
{
    let mut r: Vec<Var> = Vec::new();
    let mut i: usize = 0;
    while i < l.len()
        invariant
            i <= l.len(),
            r.len() == i,
            forall|j: int| 0 <= j < i ==> r@[j]@ == l@[j]@,
        decreases l.len() - i,
    {
        r.push(l[i].clone());
        i += 1;
    }
    assert(vars_view(r@) =~= vars_view(l@));
    r
}

pub fn clone_values(l: &Vec<Value>) -> (r: Vec<Value>)
    ensures
        values_view(r) == values_view(*l),
    decreases l,
{
    let mut r: Vec<Value> = Vec::new();
    let mut i: usize = 0;
    while i < l.len()
        invariant
            i <= l.len(),
            r.len() == i,
            forall|j: int| 0 <= j < i ==> value_view(r@[j]) == value_view(l@[j]),
        decreases l.len() - i,
    {
        let x = l[i].clone();
        r.push(x);
        i += 1;
    }
    assert(values_view(r) =~= values_view(*l));
    r
}

pub fn clone_lines(l: &Vec<LogicLine>) -> (r: Vec<LogicLine>)
    ensures
        lines_view(r) == lines_view(*l),
    decreases l,
{
    let mut r: Vec<LogicLine> = Vec::new();
    let mut i: usize = 0;
    while i < l.len()
        invariant
            i <= l.len(),
            r.len() == i,
            forall|j: int| 0 <= j < i ==> line_view(r@[j]) == line_view(l@[j]),
        decreases l.len() - i,
    {
        let x = l[i].clone();
        r.push(x);
        i += 1;
    }
    assert(lines_view(r) =~= lines_view(*l));
    r
}

impl Clone for Value {
    fn clone(&self) -> (r: Self)
        ensures
            r@ == self@,
        decreases self,
    {
        match self {
            Value::Var(s) => Value::Var(s.clone()),
            Value::DExp(d) => Value::DExp(d.clone()),
            Value::ReprVar(s) => Value::ReprVar(s.clone()),
            Value::ResultHandle => Value::ResultHandle,
            Value::ValueBind(b) => Value::ValueBind(
                ValueBind(Box::new((*b.0).clone()), b.1.clone()),
            ),
        }
    }
}

impl Clone for ValueBind {
    fn clone(&self) -> (r: Self)
        ensures
            (*r.0)@ == (*self.0)@,
            r.1@ == self.1@,
        decreases self,
    {
        ValueBind(Box::new((*self.0).clone()), self.1.clone())
    }
}

impl Clone for DExp {
    fn clone(&self) -> (r: Self)
        ensures
            r@ == self@,
        decreases self,
    {
        DExp { result: self.result.clone(), lines: Expand(clone_lines(&self.lines.0)) }
    }
}

impl Clone for JumpCmp {
    fn clone(&self) -> (r: Self)
        ensures
            r@ == self@,
        decreases self,
    {
        match self {
            JumpCmp::Equal(a, b) => JumpCmp::Equal(a.clone(), b.clone()),
            JumpCmp::NotEqual(a, b) => JumpCmp::NotEqual(a.clone(), b.clone()),
            JumpCmp::LessThan(a, b) => JumpCmp::LessThan(a.clone(), b.clone()),
            JumpCmp::LessThanEq(a, b) => JumpCmp::LessThanEq(a.clone(), b.clone()),
            JumpCmp::GreaterThan(a, b) => JumpCmp::GreaterThan(a.clone(), b.clone()),
            JumpCmp::GreaterThanEq(a, b) => JumpCmp::GreaterThanEq(a.clone(), b.clone()),
            JumpCmp::StrictEqual(a, b) => JumpCmp::StrictEqual(a.clone(), b.clone()),
            JumpCmp::StrictNotEqual(a, b) => JumpCmp::StrictNotEqual(a.clone(), b.clone()),
            JumpCmp::Always => JumpCmp::Always,
            JumpCmp::NotAlways => JumpCmp::NotAlways,
        }
    }
}

impl Clone for CmpTree {
    fn clone(&self) -> (r: Self)
        ensures
            r@ == self@,
        decreases self,
    {
        match self {
            CmpTree::And(a, b) => CmpTree::And(Box::new((**a).clone()), Box::new((**b).clone())),
            CmpTree::Or(a, b) => CmpTree::Or(Box::new((**a).clone()), Box::new((**b).clone())),
            CmpTree::Atom(c) => CmpTree::Atom(c.clone()),
        }
    }
}

#[allow(non_snake_case)]
impl Op {
    /// The operation `add`.
    pub fn Add(result: Value, a: Value, b: Value) -> (r: Op)
        ensures
            r == (Op { kind: OpKind::Add, result, arg1: a, arg2: Some(b) }),
    {
        Op { kind: OpKind::Add, result, arg1: a, arg2: Some(b) }
    }

    /// The operation `sub`.
    pub fn Sub(result: Value, a: Value, b: Value) -> (r: Op)
        ensures
            r == (Op { kind: OpKind::Sub, result, arg1: a, arg2: Some(b) }),
    {
        Op { kind: OpKind::Sub, result, arg1: a, arg2: Some(b) }
    }

    /// The operation `mul`.
    pub fn Mul(result: Value, a: Value, b: Value) -> (r: Op)
        ensures
            r == (Op { kind: OpKind::Mul, result, arg1: a, arg2: Some(b) }),
    {
        Op { kind: OpKind::Mul, result, arg1: a, arg2: Some(b) }
    }

    /// The operation `div`.
    pub fn Div(result: Value, a: Value, b: Value) -> (r: Op)
        ensures
            r == (Op { kind: OpKind::Div, result, arg1: a, arg2: Some(b) }),
    {
        Op { kind: OpKind::Div, result, arg1: a, arg2: Some(b) }
    }

    /// The operation `idiv`.
    pub fn Idiv(result: Value, a: Value, b: Value) -> (r: Op)
        ensures
            r == (Op { kind: OpKind::Idiv, result, arg1: a, arg2: Some(b) }),
    {
        Op { kind: OpKind::Idiv, result, arg1: a, arg2: Some(b) }
    }

    /// The operation `mod`.
    pub fn Mod(result: Value, a: Value, b: Value) -> (r: Op)
        ensures
            r == (Op { kind: OpKind::Mod, result, arg1: a, arg2: Some(b) }),
    {
        Op { kind: OpKind::Mod, result, arg1: a, arg2: Some(b) }
    }

    /// The operation `pow`.
    pub fn Pow(result: Value, a: Value, b: Value) -> (r: Op)
        ensures
            r == (Op { kind: OpKind::Pow, result, arg1: a, arg2: Some(b) }),
    {
        Op { kind: OpKind::Pow, result, arg1: a, arg2: Some(b) }
    }

    /// The operation `equal`.
    pub fn Equal(result: Value, a: Value, b: Value) -> (r: Op)
        ensures
            r == (Op { kind: OpKind::Equal, result, arg1: a, arg2: Some(b) }),
    {
        Op { kind: OpKind::Equal, result, arg1: a, arg2: Some(b) }
    }

    /// The operation `notEqual`.
    pub fn NotEqual(result: Value, a: Value, b: Value) -> (r: Op)
        ensures
            r == (Op { kind: OpKind::NotEqual, result, arg1: a, arg2: Some(b) }),
    {
        Op { kind: OpKind::NotEqual, result, arg1: a, arg2: Some(b) }
    }

    /// The operation `land`.
    pub fn Land(result: Value, a: Value, b: Value) -> (r: Op)
        ensures
            r == (Op { kind: OpKind::Land, result, arg1: a, arg2: Some(b) }),
    {
        Op { kind: OpKind::Land, result, arg1: a, arg2: Some(b) }
    }

    /// The operation `lessThan`.
    pub fn LessThan(result: Value, a: Value, b: Value) -> (r: Op)
        ensures
            r == (Op { kind: OpKind::LessThan, result, arg1: a, arg2: Some(b) }),
    {
        Op { kind: OpKind::LessThan, result, arg1: a, arg2: Some(b) }
    }

    /// The operation `lessThanEq`.
    pub fn LessThanEq(result: Value, a: Value, b: Value) -> (r: Op)
        ensures
            r == (Op { kind: OpKind::LessThanEq, result, arg1: a, arg2: Some(b) }),
    {
        Op { kind: OpKind::LessThanEq, result, arg1: a, arg2: Some(b) }
    }

    /// The operation `greaterThan`.
    pub fn GreaterThan(result: Value, a: Value, b: Value) -> (r: Op)
        ensures
            r == (Op { kind: OpKind::GreaterThan, result, arg1: a, arg2: Some(b) }),
    {
        Op { kind: OpKind::GreaterThan, result, arg1: a, arg2: Some(b) }
    }

    /// The operation `greaterThanEq`.
    pub fn GreaterThanEq(result: Value, a: Value, b: Value) -> (r: Op)
        ensures
            r == (Op { kind: OpKind::GreaterThanEq, result, arg1: a, arg2: Some(b) }),
    {
        Op { kind: OpKind::GreaterThanEq, result, arg1: a, arg2: Some(b) }
    }

    /// The operation `strictEqual`.
    pub fn StrictEqual(result: Value, a: Value, b: Value) -> (r: Op)
        ensures
            r == (Op { kind: OpKind::StrictEqual, result, arg1: a, arg2: Some(b) }),
    {
        Op { kind: OpKind::StrictEqual, result, arg1: a, arg2: Some(b) }
    }

    /// The operation `shl`.
    pub fn Shl(result: Value, a: Value, b: Value) -> (r: Op)
        ensures
            r == (Op { kind: OpKind::Shl, result, arg1: a, arg2: Some(b) }),
    {
        Op { kind: OpKind::Shl, result, arg1: a, arg2: Some(b) }
    }

    /// The operation `shr`.
    pub fn Shr(result: Value, a: Value, b: Value) -> (r: Op)
        ensures
            r == (Op { kind: OpKind::Shr, result, arg1: a, arg2: Some(b) }),
    {
        Op { kind: OpKind::Shr, result, arg1: a, arg2: Some(b) }
    }

    /// The operation `or`.
    pub fn Or(result: Value, a: Value, b: Value) -> (r: Op)
        ensures
            r == (Op { kind: OpKind::Or, result, arg1: a, arg2: Some(b) }),
    {
        Op { kind: OpKind::Or, result, arg1: a, arg2: Some(b) }
    }

    /// The operation `and`.
    pub fn And(result: Value, a: Value, b: Value) -> (r: Op)
        ensures
            r == (Op { kind: OpKind::And, result, arg1: a, arg2: Some(b) }),
    {
        Op { kind: OpKind::And, result, arg1: a, arg2: Some(b) }
    }

    /// The operation `xor`.
    pub fn Xor(result: Value, a: Value, b: Value) -> (r: Op)
        ensures
            r == (Op { kind: OpKind::Xor, result, arg1: a, arg2: Some(b) }),
    {
        Op { kind: OpKind::Xor, result, arg1: a, arg2: Some(b) }
    }

    /// The operation `max`.
    pub fn Max(result: Value, a: Value, b: Value) -> (r: Op)
        ensures
            r == (Op { kind: OpKind::Max, result, arg1: a, arg2: Some(b) }),
    {
        Op { kind: OpKind::Max, result, arg1: a, arg2: Some(b) }
    }

    /// The operation `min`.
    pub fn Min(result: Value, a: Value, b: Value) -> (r: Op)
        ensures
            r == (Op { kind: OpKind::Min, result, arg1: a, arg2: Some(b) }),
    {
        Op { kind: OpKind::Min, result, arg1: a, arg2: Some(b) }
    }

    /// The operation `angle`.
    pub fn Angle(result: Value, a: Value, b: Value) -> (r: Op)
        ensures
            r == (Op { kind: OpKind::Angle, result, arg1: a, arg2: Some(b) }),
    {
        Op { kind: OpKind::Angle, result, arg1: a, arg2: Some(b) }
    }

    /// The operation `len`.
    pub fn Len(result: Value, a: Value, b: Value) -> (r: Op)
        ensures
            r == (Op { kind: OpKind::Len, result, arg1: a, arg2: Some(b) }),
    {
        Op { kind: OpKind::Len, result, arg1: a, arg2: Some(b) }
    }

    /// The operation `noise`.
    pub fn Noise(result: Value, a: Value, b: Value) -> (r: Op)
        ensures
            r == (Op { kind: OpKind::Noise, result, arg1: a, arg2: Some(b) }),
    {
        Op { kind: OpKind::Noise, result, arg1: a, arg2: Some(b) }
    }

    /// The operation `not`.
    pub fn Not(result: Value, a: Value) -> (r: Op)
        ensures
            r == (Op { kind: OpKind::Not, result, arg1: a, arg2: None }),
    {
        Op { kind: OpKind::Not, result, arg1: a, arg2: None }
    }

    /// The operation `abs`.
    pub fn Abs(result: Value, a: Value) -> (r: Op)
        ensures
            r == (Op { kind: OpKind::Abs, result, arg1: a, arg2: None }),
    {
        Op { kind: OpKind::Abs, result, arg1: a, arg2: None }
    }

    /// The operation `log`.
    pub fn Log(result: Value, a: Value) -> (r: Op)
        ensures
            r == (Op { kind: OpKind::Log, result, arg1: a, arg2: None }),
    {
        Op { kind: OpKind::Log, result, arg1: a, arg2: None }
    }

    /// The operation `log10`.
    pub fn Log10(result: Value, a: Value) -> (r: Op)
        ensures
            r == (Op { kind: OpKind::Log10, result, arg1: a, arg2: None }),
    {
        Op { kind: OpKind::Log10, result, arg1: a, arg2: None }
    }

    /// The operation `floor`.
    pub fn Floor(result: Value, a: Value) -> (r: Op)
        ensures
            r == (Op { kind: OpKind::Floor, result, arg1: a, arg2: None }),
    {
        Op { kind: OpKind::Floor, result, arg1: a, arg2: None }
    }

    /// The operation `ceil`.
    pub fn Ceil(result: Value, a: Value) -> (r: Op)
        ensures
            r == (Op { kind: OpKind::Ceil, result, arg1: a, arg2: None }),
    {
        Op { kind: OpKind::Ceil, result, arg1: a, arg2: None }
    }

    /// The operation `sqrt`.
    pub fn Sqrt(result: Value, a: Value) -> (r: Op)
        ensures
            r == (Op { kind: OpKind::Sqrt, result, arg1: a, arg2: None }),
    {
        Op { kind: OpKind::Sqrt, result, arg1: a, arg2: None }
    }

    /// The operation `rand`.
    pub fn Rand(result: Value, a: Value) -> (r: Op)
        ensures
            r == (Op { kind: OpKind::Rand, result, arg1: a, arg2: None }),
    {
        Op { kind: OpKind::Rand, result, arg1: a, arg2: None }
    }

    /// The operation `sin`.
    pub fn Sin(result: Value, a: Value) -> (r: Op)
        ensures
            r == (Op { kind: OpKind::Sin, result, arg1: a, arg2: None }),
    {
        Op { kind: OpKind::Sin, result, arg1: a, arg2: None }
    }

    /// The operation `cos`.
    pub fn Cos(result: Value, a: Value) -> (r: Op)
        ensures
            r == (Op { kind: OpKind::Cos, result, arg1: a, arg2: None }),
    {
        Op { kind: OpKind::Cos, result, arg1: a, arg2: None }
    }

    /// The operation `tan`.
    pub fn Tan(result: Value, a: Value) -> (r: Op)
        ensures
            r == (Op { kind: OpKind::Tan, result, arg1: a, arg2: None }),
    {
        Op { kind: OpKind::Tan, result, arg1: a, arg2: None }
    }

    /// The operation `asin`.
    pub fn Asin(result: Value, a: Value) -> (r: Op)
        ensures
            r == (Op { kind: OpKind::Asin, result, arg1: a, arg2: None }),
    {
        Op { kind: OpKind::Asin, result, arg1: a, arg2: None }
    }

    /// The operation `acos`.
    pub fn Acos(result: Value, a: Value) -> (r: Op)
        ensures
            r == (Op { kind: OpKind::Acos, result, arg1: a, arg2: None }),
    {
        Op { kind: OpKind::Acos, result, arg1: a, arg2: None }
    }

    /// The operation `atan`.
    pub fn Atan(result: Value, a: Value) -> (r: Op)
        ensures
            r == (Op { kind: OpKind::Atan, result, arg1: a, arg2: None }),
    {
        Op { kind: OpKind::Atan, result, arg1: a, arg2: None }
    }

}

impl Clone for Op {
    fn clone(&self) -> (r: Self)
        ensures
            r@ == self@,
        decreases self,
    {
        Op {
            kind: self.kind,
            result: self.result.clone(),
            arg1: self.arg1.clone(),
            arg2: match &self.arg2 {
                Some(b) => Some(b.clone()),
                None => None,
            },
        }
    }
}

impl Clone for Goto {
    fn clone(&self) -> (r: Self)
        ensures
            r.0@ == self.0@,
            r.1@ == self.1@,
        decreases self,
    {
        Goto(self.0.clone(), self.1.clone())
    }
}

impl Clone for Expand {
    fn clone(&self) -> (r: Self)
        ensures
            r@ == self@,
        decreases self,
    {
        Expand(clone_lines(&self.0))
    }
}

impl Clone for InlineBlock {
    fn clone(&self) -> (r: Self)
        ensures
            r@ == self@,
        decreases self,
    {
        InlineBlock(clone_lines(&self.0))
    }
}

impl Clone for Select {
    fn clone(&self) -> (r: Self)
        ensures
            r.0@ == self.0@,
            r.1@ == self.1@,
        decreases self,
    {
        Select(self.0.clone(), Expand(clone_lines(&self.1.0)))
    }
}

impl Clone for Const {
    fn clone(&self) -> (r: Self)
        ensures
            r.0@ == self.0@,
            r.1@ == self.1@,
            vars_view(r.2@) == vars_view(self.2@),
        decreases self,
    {
        Const(self.0.clone(), self.1.clone(), clone_vars(&self.2))
    }
}

impl Clone for Take {
    fn clone(&self) -> (r: Self)
        ensures
            r.0@ == self.0@,
            r.1@ == self.1@,
        decreases self,
    {
        Take(self.0.clone(), self.1.clone())
    }
}

impl Clone for LogicLine {
    fn clone(&self) -> (r: Self)
        ensures
            r@ == self@,
        decreases self,
    {
        match self {
            LogicLine::Op(op) => LogicLine::Op(op.clone()),
            LogicLine::Label(s) => LogicLine::Label(s.clone()),
            LogicLine::Goto(g) => LogicLine::Goto(g.clone()),
            LogicLine::Other(vs) => LogicLine::Other(clone_values(vs)),
            LogicLine::Expand(e) => LogicLine::Expand(e.clone()),
            LogicLine::InlineBlock(b) => LogicLine::InlineBlock(b.clone()),
            LogicLine::Select(s) => LogicLine::Select(s.clone()),
            LogicLine::NoOp => LogicLine::NoOp,
            LogicLine::Ignore => LogicLine::Ignore,
            LogicLine::Const(c) => LogicLine::Const(c.clone()),
            LogicLine::Take(t) => LogicLine::Take(t.clone()),
            LogicLine::ConstLeak(s) => LogicLine::ConstLeak(s.clone()),
            LogicLine::SetResultHandle(v) => LogicLine::SetResultHandle(v.clone()),
        }
    }
}

} // verus!
