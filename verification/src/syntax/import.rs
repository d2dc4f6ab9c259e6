//! Reading the target language back: from the words of an instruction to
//! the statement that compiles to it.

use vstd::prelude::*;
use crate::text::{str_eq, texts, owned, usize_text, dec_text, push_usize, join_space, join_with};
use crate::tag_code::{TagLine, TagLineV, TagCodes, split_tokens, mdt_logic_split};
use crate::syntax::ast::{
    Var,
    Value,
    ValueV,
    JumpCmp,
    JumpCmpV,
    CmpTree,
    CmpTreeV,
    CmpKind,
    Op,
    OpV,
    OpKind,
    Goto,
    Expand,
    LogicLine,
    LineV,
    values_view,
    lines_view,
};

verus! {

/// Why the words of a jump's condition are no condition.
#[derive(Debug, PartialEq, Clone)]
pub enum JumpCmpRParseError {
    /// There are not three words.
    ArgsCountError(Vec<String>),
    /// The first word names no comparison; the two others are its operands.
    UnknownComparer(String, [String; 2]),
}

/// Why the words of an operation are no operation.
#[derive(Debug, PartialEq, Clone)]
pub enum OpRParseError {
    /// There are not four words.
    ArgsCountError(Vec<String>),
    /// The first word names no operation; the two others are its operands.
    UnknownOper(String, [String; 2]),
}

/// Why an entry of tagged code is no statement.
#[derive(Debug, PartialEq, Clone)]
pub enum LogicLineFromTagError {
    JumpCmpRParseError(JumpCmpRParseError),
    OpRParseError(OpRParseError),
    /// A string of the line `str` opens at the character `char_num` and is
    /// never closed.
    StringNoStop { str: String, char_num: usize },
}

/// The mathematical form of the three error types above.
pub enum FromTagErrorV {
    JumpArgsCount(Seq<Seq<char>>),
    UnknownComparer(Seq<char>, Seq<char>, Seq<char>),
    OpArgsCount(Seq<Seq<char>>),
    UnknownOper(Seq<char>, Seq<char>, Seq<char>),
    StringNoStop(Seq<char>, usize),
}

impl View for JumpCmpRParseError {
    type V = FromTagErrorV;

    open spec fn view(&self) -> FromTagErrorV {
        match *self {
            JumpCmpRParseError::ArgsCountError(args) => FromTagErrorV::JumpArgsCount(texts(args@)),
            JumpCmpRParseError::UnknownComparer(name, ab) => FromTagErrorV::UnknownComparer(
                name@,
                ab@[0]@,
                ab@[1]@,
            ),
        }
    }
}

impl View for OpRParseError {
    type V = FromTagErrorV;

    open spec fn view(&self) -> FromTagErrorV {
        match *self {
            OpRParseError::ArgsCountError(args) => FromTagErrorV::OpArgsCount(texts(args@)),
            OpRParseError::UnknownOper(name, ab) => FromTagErrorV::UnknownOper(
                name@,
                ab@[0]@,
                ab@[1]@,
            ),
        }
    }
}

impl View for LogicLineFromTagError {
    type V = FromTagErrorV;

    open spec fn view(&self) -> FromTagErrorV {
        match *self {
            LogicLineFromTagError::JumpCmpRParseError(e) => e@,
            LogicLineFromTagError::OpRParseError(e) => e@,
            LogicLineFromTagError::StringNoStop { str, char_num } => FromTagErrorV::StringNoStop(
                str@,
                char_num,
            ),
        }
    }
}

impl From<JumpCmpRParseError> for LogicLineFromTagError {
    fn from(value: JumpCmpRParseError) -> (r: Self) {
        LogicLineFromTagError::JumpCmpRParseError(value)
    }
}

impl vstd::std_specs::convert::FromSpecImpl<JumpCmpRParseError> for LogicLineFromTagError {
    open spec fn obeys_from_spec() -> bool {
        true
    }

    open spec fn from_spec(value: JumpCmpRParseError) -> Self {
        LogicLineFromTagError::JumpCmpRParseError(value)
    }
}

impl From<OpRParseError> for LogicLineFromTagError {
    fn from(value: OpRParseError) -> (r: Self) {
        LogicLineFromTagError::OpRParseError(value)
    }
}

impl vstd::std_specs::convert::FromSpecImpl<OpRParseError> for LogicLineFromTagError {
    open spec fn obeys_from_spec() -> bool {
        true
    }

    open spec fn from_spec(value: OpRParseError) -> Self {
        LogicLineFromTagError::OpRParseError(value)
    }
}

/// What is said of words that are too many or too few.
pub open spec fn count_message(expected: Seq<char>, args: Seq<Seq<char>>) -> Seq<char> {
    "wrong number of words: expected "@ + expected + ", found "@ + dec_text(args.len()) + ": "@
        + join_with(args, " "@)
}

/// What is said of a first word that names nothing.
pub open spec fn unknown_message(what: Seq<char>, name: Seq<char>, a: Seq<char>, b: Seq<char>) -> Seq<
    char,
> {
    "unknown "@ + what + ": "@ + name + ", with the operands: "@ + a + " "@ + b
}

/// What is said of a string that is never closed.
pub open spec fn no_stop_message(line: Seq<char>, char_num: usize) -> Seq<char> {
    "unclosed string, which begins at character "@ + dec_text(char_num as nat)
        + " of the line: "@ + line
}

/// What an error says, in words.
pub open spec fn error_message(e: FromTagErrorV) -> Seq<char> {
    match e {
        FromTagErrorV::JumpArgsCount(args) => count_message("3"@, args),
        FromTagErrorV::UnknownComparer(name, a, b) => unknown_message("comparison"@, name, a, b),
        FromTagErrorV::OpArgsCount(args) => count_message("4"@, args),
        FromTagErrorV::UnknownOper(name, a, b) => unknown_message("operation"@, name, a, b),
        FromTagErrorV::StringNoStop(line, n) => no_stop_message(line, n),
    }
}

fn count_text(expected: &str, args: &Vec<String>) -> (r: String)
    ensures
        r@ == count_message(expected@, texts(args@)),
{
    let mut r = owned("wrong number of words: expected ");
    r.append(expected);
    r.append(", found ");
    push_usize(&mut r, args.len());
    r.append(": ");
    r.append(join_space(args).as_str());
    r
}

fn unknown_text(what: &str, name: &String, a: &String, b: &String) -> (r: String)
    ensures
        r@ == unknown_message(what@, name@, a@, b@),
{
    let mut r = owned("unknown ");
    r.append(what);
    r.append(": ");
    r.append(name.as_str());
    r.append(", with the operands: ");
    r.append(a.as_str());
    r.append(" ");
    r.append(b.as_str());
    r
}

impl JumpCmpRParseError {
    /// What the error says, in words.
    pub fn message(&self) -> (r: String)
        ensures
            r@ == error_message(self@),
    {
        match self {
            JumpCmpRParseError::ArgsCountError(args) => count_text("3", args),
            JumpCmpRParseError::UnknownComparer(name, ab) => unknown_text(
                "comparison",
                name,
                &ab[0],
                &ab[1],
            ),
        }
    }
}

impl OpRParseError {
    /// What the error says, in words.
    pub fn message(&self) -> (r: String)
        ensures
            r@ == error_message(self@),
    {
        match self {
            OpRParseError::ArgsCountError(args) => count_text("4", args),
            OpRParseError::UnknownOper(name, ab) => unknown_text(
                "operation",
                name,
                &ab[0],
                &ab[1],
            ),
        }
    }
}

impl LogicLineFromTagError {
    /// What the error says, in words.
    pub fn message(&self) -> (r: String)
        ensures
            r@ == error_message(self@),
    {
        match self {
            LogicLineFromTagError::JumpCmpRParseError(e) => e.message(),
            LogicLineFromTagError::OpRParseError(e) => e.message(),
            LogicLineFromTagError::StringNoStop { str, char_num } => {
                let mut r = owned("unclosed string, which begins at character ");
                push_usize(&mut r, *char_num);
                r.append(" of the line: ");
                r.append(str.as_str());
                r
            },
        }
    }
}

/// The comparison that the target language calls `name`.
pub open spec fn kind_named(name: Seq<char>) -> Option<CmpKind> {
    if name == "equal"@ {
        Some(CmpKind::Equal)
    } else if name == "notEqual"@ {
        Some(CmpKind::NotEqual)
    } else if name == "lessThan"@ {
        Some(CmpKind::LessThan)
    } else if name == "lessThanEq"@ {
        Some(CmpKind::LessThanEq)
    } else if name == "greaterThan"@ {
        Some(CmpKind::GreaterThan)
    } else if name == "greaterThanEq"@ {
        Some(CmpKind::GreaterThanEq)
    } else if name == "strictEqual"@ {
        Some(CmpKind::StrictEqual)
    } else {
        None
    }
}

/// The operation that the target language calls `name`.
pub open spec fn oper_named(name: Seq<char>) -> Option<OpKind> {
    if name == "add"@ {
        Some(OpKind::Add)
    } else if name == "sub"@ {
        Some(OpKind::Sub)
    } else if name == "mul"@ {
        Some(OpKind::Mul)
    } else if name == "div"@ {
        Some(OpKind::Div)
    } else if name == "idiv"@ {
        Some(OpKind::Idiv)
    } else if name == "mod"@ {
        Some(OpKind::Mod)
    } else if name == "pow"@ {
        Some(OpKind::Pow)
    } else if name == "equal"@ {
        Some(OpKind::Equal)
    } else if name == "notEqual"@ {
        Some(OpKind::NotEqual)
    } else if name == "land"@ {
        Some(OpKind::Land)
    } else if name == "lessThan"@ {
        Some(OpKind::LessThan)
    } else if name == "lessThanEq"@ {
        Some(OpKind::LessThanEq)
    } else if name == "greaterThan"@ {
        Some(OpKind::GreaterThan)
    } else if name == "greaterThanEq"@ {
        Some(OpKind::GreaterThanEq)
    } else if name == "strictEqual"@ {
        Some(OpKind::StrictEqual)
    } else if name == "shl"@ {
        Some(OpKind::Shl)
    } else if name == "shr"@ {
        Some(OpKind::Shr)
    } else if name == "or"@ {
        Some(OpKind::Or)
    } else if name == "and"@ {
        Some(OpKind::And)
    } else if name == "xor"@ {
        Some(OpKind::Xor)
    } else if name == "max"@ {
        Some(OpKind::Max)
    } else if name == "min"@ {
        Some(OpKind::Min)
    } else if name == "angle"@ {
        Some(OpKind::Angle)
    } else if name == "len"@ {
        Some(OpKind::Len)
    } else if name == "noise"@ {
        Some(OpKind::Noise)
    } else if name == "not"@ {
        Some(OpKind::Not)
    } else if name == "abs"@ {
        Some(OpKind::Abs)
    } else if name == "log"@ {
        Some(OpKind::Log)
    } else if name == "log10"@ {
        Some(OpKind::Log10)
    } else if name == "floor"@ {
        Some(OpKind::Floor)
    } else if name == "ceil"@ {
        Some(OpKind::Ceil)
    } else if name == "sqrt"@ {
        Some(OpKind::Sqrt)
    } else if name == "rand"@ {
        Some(OpKind::Rand)
    } else if name == "sin"@ {
        Some(OpKind::Sin)
    } else if name == "cos"@ {
        Some(OpKind::Cos)
    } else if name == "tan"@ {
        Some(OpKind::Tan)
    } else if name == "asin"@ {
        Some(OpKind::Asin)
    } else if name == "acos"@ {
        Some(OpKind::Acos)
    } else if name == "atan"@ {
        Some(OpKind::Atan)
    } else {
        None
    }
}

/// The condition that three words spell: the name of a comparison and its
/// two operands, or `always` and two words that do not count.
pub open spec fn jump_from_words(args: Seq<Seq<char>>) -> Result<JumpCmpV, FromTagErrorV> {
    if args.len() != 3 {
        Err(FromTagErrorV::JumpArgsCount(args))
    } else {
        match kind_named(args[0]) {
            Some(k) => Ok(JumpCmpV::Cmp(k, ValueV::Var(args[1]), ValueV::Var(args[2]))),
            None => if args[0] == "always"@ {
                Ok(JumpCmpV::Always)
            } else {
                Err(FromTagErrorV::UnknownComparer(args[0], args[1], args[2]))
            },
        }
    }
}

/// The operation that four words spell: its name, where the result goes,
/// and two operands, of which an operation on one value takes the first.
pub open spec fn op_from_words(args: Seq<Seq<char>>) -> Result<OpV, FromTagErrorV> {
    if args.len() != 4 {
        Err(FromTagErrorV::OpArgsCount(args))
    } else {
        match oper_named(args[0]) {
            Some(k) => Ok(
                OpV {
                    kind: k,
                    result: ValueV::Var(args[1]),
                    a: ValueV::Var(args[2]),
                    b: if k.is_binary() {
                        Some(ValueV::Var(args[3]))
                    } else {
                        None
                    },
                },
            ),
            None => Err(FromTagErrorV::UnknownOper(args[0], args[2], args[3])),
        }
    }
}

impl CmpKind {
    /// The comparison that the target language calls `name`.
    pub fn from_name(name: &str) -> (r: Option<CmpKind>)
        ensures
            r == kind_named(name@),
    {
        if str_eq(name, "equal") {
            Some(CmpKind::Equal)
        } else if str_eq(name, "notEqual") {
            Some(CmpKind::NotEqual)
        } else if str_eq(name, "lessThan") {
            Some(CmpKind::LessThan)
        } else if str_eq(name, "lessThanEq") {
            Some(CmpKind::LessThanEq)
        } else if str_eq(name, "greaterThan") {
            Some(CmpKind::GreaterThan)
        } else if str_eq(name, "greaterThanEq") {
            Some(CmpKind::GreaterThanEq)
        } else if str_eq(name, "strictEqual") {
            Some(CmpKind::StrictEqual)
        } else {
            None
        }
    }
}

impl OpKind {
    /// The operation that the target language calls `name`.
    pub fn from_name(name: &str) -> (r: Option<OpKind>)
        ensures
            r == oper_named(name@),
    {
        if str_eq(name, "add") {
            Some(OpKind::Add)
        } else if str_eq(name, "sub") {
            Some(OpKind::Sub)
        } else if str_eq(name, "mul") {
            Some(OpKind::Mul)
        } else if str_eq(name, "div") {
            Some(OpKind::Div)
        } else if str_eq(name, "idiv") {
            Some(OpKind::Idiv)
        } else if str_eq(name, "mod") {
            Some(OpKind::Mod)
        } else if str_eq(name, "pow") {
            Some(OpKind::Pow)
        } else if str_eq(name, "equal") {
            Some(OpKind::Equal)
        } else if str_eq(name, "notEqual") {
            Some(OpKind::NotEqual)
        } else if str_eq(name, "land") {
            Some(OpKind::Land)
        } else if str_eq(name, "lessThan") {
            Some(OpKind::LessThan)
        } else if str_eq(name, "lessThanEq") {
            Some(OpKind::LessThanEq)
        } else if str_eq(name, "greaterThan") {
            Some(OpKind::GreaterThan)
        } else if str_eq(name, "greaterThanEq") {
            Some(OpKind::GreaterThanEq)
        } else if str_eq(name, "strictEqual") {
            Some(OpKind::StrictEqual)
        } else if str_eq(name, "shl") {
            Some(OpKind::Shl)
        } else if str_eq(name, "shr") {
            Some(OpKind::Shr)
        } else if str_eq(name, "or") {
            Some(OpKind::Or)
        } else if str_eq(name, "and") {
            Some(OpKind::And)
        } else if str_eq(name, "xor") {
            Some(OpKind::Xor)
        } else if str_eq(name, "max") {
            Some(OpKind::Max)
        } else if str_eq(name, "min") {
            Some(OpKind::Min)
        } else if str_eq(name, "angle") {
            Some(OpKind::Angle)
        } else if str_eq(name, "len") {
            Some(OpKind::Len)
        } else if str_eq(name, "noise") {
            Some(OpKind::Noise)
        } else if str_eq(name, "not") {
            Some(OpKind::Not)
        } else if str_eq(name, "abs") {
            Some(OpKind::Abs)
        } else if str_eq(name, "log") {
            Some(OpKind::Log)
        } else if str_eq(name, "log10") {
            Some(OpKind::Log10)
        } else if str_eq(name, "floor") {
            Some(OpKind::Floor)
        } else if str_eq(name, "ceil") {
            Some(OpKind::Ceil)
        } else if str_eq(name, "sqrt") {
            Some(OpKind::Sqrt)
        } else if str_eq(name, "rand") {
            Some(OpKind::Rand)
        } else if str_eq(name, "sin") {
            Some(OpKind::Sin)
        } else if str_eq(name, "cos") {
            Some(OpKind::Cos)
        } else if str_eq(name, "tan") {
            Some(OpKind::Tan)
        } else if str_eq(name, "asin") {
            Some(OpKind::Asin)
        } else if str_eq(name, "acos") {
            Some(OpKind::Acos)
        } else if str_eq(name, "atan") {
            Some(OpKind::Atan)
        } else {
            None
        }
    }
}

/// A copy of a list of words.
pub fn clone_words(args: &Vec<String>) -> (r: Vec<String>)
    ensures
        texts(r@) == texts(args@),
{
    let mut r: Vec<String> = Vec::new();
    let mut i: usize = 0;
    while i < args.len()
        invariant
            i <= args.len(),
            r.len() == i,
            forall|j: int| 0 <= j < i ==> r@[j]@ == args@[j]@,
        decreases args.len() - i,
    {
        r.push(args[i].clone());
        i += 1;
    }
    assert(texts(r@) =~= texts(args@));
    r
}

/// What is built from the words of an instruction of the target language.
pub trait FromMdtArgs: Sized {
    type Err;

    fn from_mdt_args(args: &Vec<String>) -> Result<Self, Self::Err>;
}

impl FromMdtArgs for JumpCmp {
    type Err = LogicLineFromTagError;

    /// The condition that the words behind the target of a jump spell.
    fn from_mdt_args(args: &Vec<String>) -> (r: Result<Self, LogicLineFromTagError>)
        ensures
            match jump_from_words(texts(args@)) {
                Ok(c) => r is Ok && r->Ok_0@ == c,
                Err(e) => r is Err && r->Err_0@ == e,
            },
    {
        if args.len() != 3 {
            let e = JumpCmpRParseError::ArgsCountError(clone_words(args));
            return Err(LogicLineFromTagError::JumpCmpRParseError(e));
        }
        assert(texts(args@)[0] == args@[0]@);
        assert(texts(args@)[1] == args@[1]@);
        assert(texts(args@)[2] == args@[2]@);
        match CmpKind::from_name(args[0].as_str()) {
            Some(k) => {
                let a = Value::Var(args[1].clone());
                let b = Value::Var(args[2].clone());
                Ok(JumpCmp::of_kind(k, a, b))
            },
            None => {
                if str_eq(args[0].as_str(), "always") {
                    Ok(JumpCmp::Always)
                } else {
                    let ab = [args[1].clone(), args[2].clone()];
                    let e = JumpCmpRParseError::UnknownComparer(args[0].clone(), ab);
                    Err(LogicLineFromTagError::JumpCmpRParseError(e))
                }
            },
        }
    }
}

impl FromMdtArgs for Op {
    type Err = OpRParseError;

    /// The operation that the words behind `op` spell.
    fn from_mdt_args(args: &Vec<String>) -> (r: Result<Self, OpRParseError>)
        ensures
            match op_from_words(texts(args@)) {
                Ok(op) => r is Ok && r->Ok_0@ == op,
                Err(e) => r is Err && r->Err_0@ == e,
            },
    {
        if args.len() != 4 {
            return Err(OpRParseError::ArgsCountError(clone_words(args)));
        }
        assert(texts(args@)[0] == args@[0]@);
        assert(texts(args@)[1] == args@[1]@);
        assert(texts(args@)[2] == args@[2]@);
        assert(texts(args@)[3] == args@[3]@);
        match OpKind::from_name(args[0].as_str()) {
            Some(k) => {
                let result = Value::Var(args[1].clone());
                let a = Value::Var(args[2].clone());
                let b = if k.binary() {
                    Some(Value::Var(args[3].clone()))
                } else {
                    None
                };
                Ok(Op { kind: k, result, arg1: a, arg2: b })
            },
            None => {
                let ab = [args[2].clone(), args[3].clone()];
                Err(OpRParseError::UnknownOper(args[0].clone(), ab))
            },
        }
    }
}

/// The statement that words which begin no operation spell: each word is
/// a value of its own.
pub open spec fn words_line(args: Seq<Seq<char>>) -> LineV {
    LineV::Other(Seq::new(args.len(), |i: int| ValueV::Var(args[i])))
}

/// The statement that an entry of tagged code stands for. A jump to the
/// tag `t` is a goto to the label that writes `t` in decimal, a `TagDown`
/// is that label, and a line is the operation that its words spell where
/// the first of them is `op`, else a statement of those words.
pub open spec fn line_from_tag(l: TagLineV) -> Result<LineV, FromTagErrorV> {
    match l {
        TagLineV::Jump { to, cond, .. } => match split_tokens(cond) {
            Err(n) => Err(FromTagErrorV::StringNoStop(cond, n)),
            Ok(args) => match jump_from_words(args) {
                Err(e) => Err(e),
                Ok(c) => Ok(LineV::Goto(dec_text(to as nat), CmpTreeV::Atom(c))),
            },
        },
        TagLineV::TagDown(t) => Ok(LineV::Label(dec_text(t as nat))),
        TagLineV::Line { text, .. } => match split_tokens(text) {
            Err(n) => Err(FromTagErrorV::StringNoStop(text, n)),
            Ok(args) => if args.len() > 0 && args[0] == "op"@ {
                match op_from_words(args.skip(1)) {
                    Err(e) => Err(e),
                    Ok(op) => Ok(LineV::Op(op)),
                }
            } else {
                Ok(words_line(args))
            },
        },
    }
}

/// Whether an entry can be read back: it has no tag attached, and a line
/// that splits into words has at least one.
pub open spec fn readable(l: TagLineV) -> bool {
    match l {
        TagLineV::Jump { tags, .. } => tags.len() == 0,
        TagLineV::TagDown(_) => true,
        TagLineV::Line { tags, text } => tags.len() == 0 && (split_tokens(text) is Ok
            ==> split_tokens(text)->Ok_0.len() > 0),
    }
}

/// The statements that the entries stand for; the error comes with the
/// index of the first entry that gives one.
pub open spec fn lines_from_tags(s: Seq<TagLineV>) -> Result<Seq<LineV>, (usize, FromTagErrorV)>
    decreases s.len(),
{
    if s.len() == 0 {
        Ok(Seq::empty())
    } else {
        match lines_from_tags(s.drop_last()) {
            Err(e) => Err(e),
            Ok(lines) => match line_from_tag(s.last()) {
                Err(e) => Err(((s.len() - 1) as usize, e)),
                Ok(l) => Ok(lines.push(l)),
            },
        }
    }
}

/// An error in a prefix of the entries is the error of the whole code.
pub proof fn lemma_from_tags_error_stays(s: Seq<TagLineV>, k: int)
    requires
        0 <= k <= s.len(),
        lines_from_tags(s.take(k)) is Err,
    ensures
        lines_from_tags(s) == lines_from_tags(s.take(k)),
    decreases s.len() - k,
{
    if k < s.len() {
        assert(s.take(k + 1).drop_last() =~= s.take(k));
        lemma_from_tags_error_stays(s, k + 1);
    } else {
        assert(s.take(k) =~= s);
    }
}

/// The words from the second on.
fn rest_words(args: &Vec<String>) -> (r: Vec<String>)
    requires
        args.len() > 0,
    ensures
        texts(r@) == texts(args@).skip(1),
{
    let mut r: Vec<String> = Vec::new();
    let mut i: usize = 1;
    while i < args.len()
        invariant
            1 <= i <= args.len(),
            r.len() == i - 1,
            forall|j: int| 0 <= j < r.len() ==> r@[j]@ == args@[j + 1]@,
        decreases args.len() - i,
    {
        r.push(args[i].clone());
        i += 1;
    }
    assert(texts(r@) =~= texts(args@).skip(1));
    r
}

/// Whether an entry can be read back.
pub fn readable_line(line: &TagLine) -> (r: bool)
    ensures
        r == readable(line@),
{
    match line {
        TagLine::Jump(b) => b.tags.len() == 0,
        TagLine::TagDown(_) => true,
        TagLine::Line(b) => {
            if b.tags.len() != 0 {
                return false;
            }
            match mdt_logic_split(b.data.as_str()) {
                Ok(words) => {
                    assert(texts(words@).len() == words.len());
                    words.len() > 0
                },
                Err(_) => true,
            }
        },
    }
}

impl LogicLine {
    /// The statement that an entry of tagged code stands for.
    pub fn try_from(line: &TagLine) -> (r: Result<Self, LogicLineFromTagError>)
        requires
            readable(line@),
        ensures
            match line_from_tag(line@) {
                Ok(l) => r is Ok && r->Ok_0@ == l,
                Err(e) => r is Err && r->Err_0@ == e,
            },
    {
        match line {
            TagLine::Jump(b) => {
                let args = match mdt_logic_split(b.data.1.as_str()) {
                    Ok(a) => a,
                    Err(n) => {
                        return Err(
                            LogicLineFromTagError::StringNoStop {
                                str: b.data.1.clone(),
                                char_num: n,
                            },
                        );
                    },
                };
                match JumpCmp::from_mdt_args(&args) {
                    Ok(c) => {
                        let tree = CmpTree::Atom(c);
                        assert(tree@ == CmpTreeV::Atom(c@));
                        Ok(LogicLine::Goto(Goto(usize_text(b.data.0), tree)))
                    },
                    Err(e) => Err(e),
                }
            },
            TagLine::TagDown(t) => Ok(LogicLine::Label(usize_text(*t))),
            TagLine::Line(b) => {
                let args = match mdt_logic_split(b.data.as_str()) {
                    Ok(a) => a,
                    Err(n) => {
                        return Err(
                            LogicLineFromTagError::StringNoStop {
                                str: b.data.clone(),
                                char_num: n,
                            },
                        );
                    },
                };
                assert(texts(args@)[0] == args@[0]@);
                if str_eq(args[0].as_str(), "op") {
                    let rest = rest_words(&args);
                    match Op::from_mdt_args(&rest) {
                        Ok(op) => Ok(LogicLine::Op(op)),
                        Err(e) => Err(LogicLineFromTagError::OpRParseError(e)),
                    }
                } else {
                    let mut values: Vec<Value> = Vec::new();
                    let mut i: usize = 0;
                    while i < args.len()
                        invariant
                            i <= args.len(),
                            values.len() == i,
                            forall|j: int| 0 <= j < i ==> values@[j]@ == ValueV::Var(args@[j]@),
                        decreases args.len() - i,
                    {
                        values.push(Value::Var(args[i].clone()));
                        i += 1;
                    }
                    assert(values_view(values) =~= words_line(texts(args@))->Other_0);
                    Ok(LogicLine::Other(values))
                }
            },
        }
    }
}

impl Expand {
    /// The statements that a tagged code stands for.
    pub fn try_from(codes: &TagCodes) -> (r: Result<Self, (usize, LogicLineFromTagError)>)
        requires
            forall|i: int| 0 <= i < codes@.len() ==> readable(#[trigger] codes@[i]),
        ensures
            match lines_from_tags(codes@) {
                Ok(lines) => r is Ok && r->Ok_0@ == lines,
                Err(e) => r is Err && r->Err_0.0 == e.0 && r->Err_0.1@ == e.1,
            },
    {
        let entries = codes.lines();
        let ghost s = codes@;
        let mut lines: Vec<LogicLine> = Vec::new();
        let mut i: usize = 0;
        assert(lines_view(lines) =~= Seq::empty());
        assert(s.take(0) =~= Seq::empty());
        while i < entries.len()
            invariant
                i <= entries.len(),
                s == crate::tag_code::lines_view(entries@),
                s == codes@,
                forall|k: int| 0 <= k < s.len() ==> readable(#[trigger] s[k]),
                lines_from_tags(s.take(i as int)) == Ok::<Seq<LineV>, (usize, FromTagErrorV)>(
                    lines_view(lines),
                ),
            decreases entries.len() - i,
        {
            proof {
                assert(s.take(i + 1).drop_last() =~= s.take(i as int));
                assert(s.take(i + 1).last() == entries@[i as int]@);
                assert(readable(s[i as int]));
            }
            let ghost before = lines_view(lines);
            match LogicLine::try_from(&entries[i]) {
                Ok(l) => {
                    lines.push(l);
                    assert(lines_view(lines) =~= before.push(l@));
                },
                Err(e) => {
                    proof {
                        assert(lines_from_tags(s.take(i + 1)) == Err::<
                            Seq<LineV>,
                            (usize, FromTagErrorV),
                        >((i, e@)));
                        lemma_from_tags_error_stays(s, i + 1);
                    }
                    return Err((i, e));
                },
            }
            i += 1;
        }
        assert(s.take(entries.len() as int) =~= s);
        Ok(Expand(lines))
    }
}

} // verus!
