//! What compiling means: the state of a compilation as a mathematical value,
//! and the effect of each construct of the language on it.

use vstd::prelude::*;
use crate::text::{dec_text};
use crate::tag_code::{TagLineV};
use crate::syntax::ast::{ValueV};

verus! {

/// Why a compilation fails.
#[derive(Debug, PartialEq, Eq, Structural, Clone, Copy)]
pub enum CompileError {
    /// An expression names its handle by a constant whose body is an
    /// expression.
    ConstRebindAsDExpHandle,
    /// An expression names its handle by a constant whose body is neither a
    /// name nor an expression.
    ConstRebindNotVar,
    /// The base of an attribute resolves to a string.
    StringAsBindBase,
    /// The attribute of a value is a string.
    StringAsBindAttr,
    /// `$` or `setres` outside of any expression.
    OutOfDExp,
    /// Constants and blocks are nested deeper than the compiler follows.
    RecursionLimit,
    /// A constant or a leak outside of any block.
    NoBlock,
    /// A leak of a name that its block does not bind.
    LeakUnbound,
    /// A leak out of the outermost block.
    LeakAtRoot,
    /// The counter of temporary names is exhausted.
    TooManyTemporaries,
}

/// A constant: its name, the labels that its body defines, and its body.
pub struct ConstV {
    pub name: Seq<char>,
    pub labels: Seq<Seq<char>>,
    pub value: ValueV,
}

/// The constants of one block, the latest last, and the names to hand to
/// the enclosing block when this one ends.
pub struct FrameV {
    pub leaks: Seq<Seq<char>>,
    pub consts: Seq<ConstV>,
}

/// The state of a compilation.
pub struct MetaV {
    /// The tag names; the position of a name is its id.
    pub tags: Seq<Seq<char>>,
    /// The code emitted so far.
    pub codes: Seq<TagLineV>,
    pub tmp_vars: usize,
    pub tmp_tags: usize,
    /// The open blocks, the innermost last.
    pub frames: Seq<FrameV>,
    /// The handles of the open expressions, the innermost last.
    pub handles: Seq<Seq<char>>,
    /// For each open expansion of a constant, the new names of its labels.
    pub renames: Seq<Seq<(Seq<char>, Seq<char>)>>,
}

pub type Resolved = Result<(MetaV, Seq<char>), CompileError>;

pub type Compiled = Result<MetaV, CompileError>;

/// The name of the `n`-th temporary variable, and of the `n`-th temporary tag.
pub open spec fn tmp_name(n: nat) -> Seq<char> {
    "__"@ + dec_text(n)
}

/// The name that stands for the attribute `attr` of the handle `h`.
pub open spec fn bind_name(h: Seq<char>, attr: Seq<char>) -> Seq<char> {
    "__"@ + h + "__bind__"@ + attr
}

/// The name of the label `label` in the expansion of the constant `name`
/// that took the temporary tag `tmp`.
pub open spec fn const_label(tmp: Seq<char>, name: Seq<char>, label: Seq<char>) -> Seq<char> {
    tmp + "_const_"@ + name + "_"@ + label
}

/// The latest constant called `name` among `consts`.
pub open spec fn find_in(consts: Seq<ConstV>, name: Seq<char>) -> Option<ConstV>
    decreases consts.len(),
{
    if consts.len() == 0 {
        None
    } else if consts.last().name == name {
        Some(consts.last())
    } else {
        find_in(consts.drop_last(), name)
    }
}

/// The constant called `name` of the innermost block that has one.
pub open spec fn find_frames(frames: Seq<FrameV>, name: Seq<char>) -> Option<ConstV>
    decreases frames.len(),
{
    if frames.len() == 0 {
        None
    } else {
        match find_in(frames.last().consts, name) {
            Some(c) => Some(c),
            None => find_frames(frames.drop_last(), name),
        }
    }
}

/// The position of the latest constant called `name` among `consts`.
pub open spec fn find_pos(consts: Seq<ConstV>, name: Seq<char>) -> Option<int>
    decreases consts.len(),
{
    if consts.len() == 0 {
        None
    } else if consts.last().name == name {
        Some(consts.len() - 1)
    } else {
        find_pos(consts.drop_last(), name)
    }
}

/// The position of the constant called `name` of the innermost block that
/// has one: the block, and the place in the block.
pub open spec fn const_pos(frames: Seq<FrameV>, name: Seq<char>) -> Option<(int, int)>
    decreases frames.len(),
{
    if frames.len() == 0 {
        None
    } else {
        match find_pos(frames.last().consts, name) {
            Some(k) => Some((frames.len() - 1, k)),
            None => const_pos(frames.drop_last(), name),
        }
    }
}

/// Whether `after` is `before` with the labels and the body of the
/// constant at the place `k` of the block `j` replaced by `labels` and
/// `value`, and nothing else changed.
pub open spec fn const_replaced(
    before: Seq<FrameV>,
    after: Seq<FrameV>,
    j: int,
    k: int,
    labels: Seq<Seq<char>>,
    value: ValueV,
) -> bool {
    &&& after.len() == before.len()
    &&& forall|i: int| 0 <= i < before.len() && i != j ==> #[trigger] after[i] == before[i]
    &&& after[j].leaks == before[j].leaks
    &&& after[j].consts.len() == before[j].consts.len()
    &&& forall|i: int|
        0 <= i < before[j].consts.len() && i != k ==> #[trigger] after[j].consts[i]
            == before[j].consts[i]
    &&& after[j].consts[k] == (ConstV { name: before[j].consts[k].name, labels, value })
}

/// `consts` without the constants called `name`.
pub open spec fn without(consts: Seq<ConstV>, name: Seq<char>) -> Seq<ConstV>
    decreases consts.len(),
{
    if consts.len() == 0 {
        consts
    } else if consts.last().name == name {
        without(consts.drop_last(), name)
    } else {
        without(consts.drop_last(), name).push(consts.last())
    }
}

/// The latest new name of `name` among `pairs`.
pub open spec fn rename_in(pairs: Seq<(Seq<char>, Seq<char>)>, name: Seq<char>) -> Option<
    Seq<char>,
>
    decreases pairs.len(),
{
    if pairs.len() == 0 {
        None
    } else if pairs.last().0 == name {
        Some(pairs.last().1)
    } else {
        rename_in(pairs.drop_last(), name)
    }
}

/// The name of the label `name` inside the open expansions: the new name
/// that the innermost expansion that knows the label gave it, or the label
/// itself.
pub open spec fn rename_frames(
    renames: Seq<Seq<(Seq<char>, Seq<char>)>>,
    name: Seq<char>,
) -> Seq<char>
    decreases renames.len(),
{
    if renames.len() == 0 {
        name
    } else {
        match rename_in(renames.last(), name) {
            Some(r) => r,
            None => rename_frames(renames.drop_last(), name),
        }
    }
}

/// The first position from `i` on at which `tags` holds `name`.
pub open spec fn tag_pos(tags: Seq<Seq<char>>, name: Seq<char>, i: int) -> Option<int>
    decreases tags.len() - i,
{
    if i < 0 || i >= tags.len() {
        None
    } else if tags[i] == name {
        Some(i)
    } else {
        tag_pos(tags, name, i + 1)
    }
}

/// The new names of the labels of a constant, for the expansion that takes
/// the temporary tags from `first` on.
pub open spec fn label_renames(
    labels: Seq<Seq<char>>,
    name: Seq<char>,
    first: nat,
) -> Seq<(Seq<char>, Seq<char>)> {
    Seq::new(
        labels.len(),
        |i: int| (labels[i], const_label(tmp_name((first + i) as nat), name, labels[i])),
    )
}

/// Hands the constants named in `leaks`, in turn, from the block `top` to the
/// block `parent` below it.
pub open spec fn leak_all(
    top: Seq<ConstV>,
    parent: Option<Seq<ConstV>>,
    leaks: Seq<Seq<char>>,
) -> Result<Option<Seq<ConstV>>, CompileError>
    decreases leaks.len(),
{
    if leaks.len() == 0 {
        Ok(parent)
    } else {
        match leak_all(top, parent, leaks.drop_last()) {
            Err(e) => Err(e),
            Ok(p) => match find_in(leaks_left(top, leaks.drop_last()), leaks.last()) {
                None => Err(CompileError::LeakUnbound),
                Some(c) => match p {
                    None => Err(CompileError::LeakAtRoot),
                    Some(consts) => Ok(Some(consts.push(c))),
                },
            },
        }
    }
}

/// What is left of the block `top` once the names of `leaks` are taken out.
pub open spec fn leaks_left(top: Seq<ConstV>, leaks: Seq<Seq<char>>) -> Seq<ConstV>
    decreases leaks.len(),
{
    if leaks.len() == 0 {
        top
    } else {
        without(leaks_left(top, leaks.drop_last()), leaks.last())
    }
}

impl MetaV {
    /// The state in which a compilation starts.
    pub open spec fn fresh() -> MetaV {
        MetaV {
            tags: Seq::empty(),
            codes: Seq::empty(),
            tmp_vars: 0,
            tmp_tags: 0,
            frames: Seq::empty(),
            handles: Seq::empty(),
            renames: Seq::empty(),
        }
    }

    pub open spec fn emit(self, line: TagLineV) -> MetaV {
        MetaV { codes: self.codes.push(line), ..self }
    }

    pub open spec fn with_codes(self, codes: Seq<TagLineV>) -> MetaV {
        MetaV { codes, ..self }
    }

    /// The id of the tag `name`; a name not met before gets the next id.
    pub open spec fn tag_of(self, name: Seq<char>) -> (MetaV, usize) {
        match tag_pos(self.tags, name, 0) {
            Some(i) => (self, i as usize),
            None => (MetaV { tags: self.tags.push(name), ..self }, self.tags.len() as usize),
        }
    }

    pub open spec fn fresh_var(self) -> Resolved {
        if self.tmp_vars == usize::MAX {
            Err(CompileError::TooManyTemporaries)
        } else {
            Ok(
                (
                    MetaV { tmp_vars: (self.tmp_vars + 1) as usize, ..self },
                    tmp_name(self.tmp_vars as nat),
                ),
            )
        }
    }

    pub open spec fn fresh_tag(self) -> Resolved {
        if self.tmp_tags == usize::MAX {
            Err(CompileError::TooManyTemporaries)
        } else {
            Ok(
                (
                    MetaV { tmp_tags: (self.tmp_tags + 1) as usize, ..self },
                    tmp_name(self.tmp_tags as nat),
                ),
            )
        }
    }

    pub open spec fn find_const(self, name: Seq<char>) -> Option<ConstV> {
        find_frames(self.frames, name)
    }

    pub open spec fn label_in(self, name: Seq<char>) -> Seq<char> {
        rename_frames(self.renames, name)
    }

    pub open spec fn push_handle(self, h: Seq<char>) -> MetaV {
        MetaV { handles: self.handles.push(h), ..self }
    }

    pub open spec fn pop_handle(self) -> Resolved {
        if self.handles.len() == 0 {
            Err(CompileError::OutOfDExp)
        } else {
            Ok((MetaV { handles: self.handles.drop_last(), ..self }, self.handles.last()))
        }
    }

    pub open spec fn set_handle(self, h: Seq<char>) -> Compiled {
        if self.handles.len() == 0 {
            Err(CompileError::OutOfDExp)
        } else {
            Ok(MetaV { handles: self.handles.drop_last().push(h), ..self })
        }
    }

    pub open spec fn enter_block(self) -> MetaV {
        MetaV {
            frames: self.frames.push(FrameV { leaks: Seq::empty(), consts: Seq::empty() }),
            ..self
        }
    }

    /// Ends the innermost block: its leaked names go to the block below, the
    /// rest is dropped.
    pub open spec fn exit_block(self) -> Compiled {
        if self.frames.len() == 0 {
            Err(CompileError::NoBlock)
        } else {
            let top = self.frames.last();
            let below = self.frames.drop_last();
            let parent = if below.len() == 0 {
                None
            } else {
                Some(below.last().consts)
            };
            match leak_all(top.consts, parent, top.leaks) {
                Err(e) => Err(e),
                Ok(None) => Ok(MetaV { frames: below, ..self }),
                Ok(Some(consts)) => Ok(
                    MetaV {
                        frames: below.drop_last().push(FrameV { leaks: below.last().leaks, consts }),
                        ..self
                    },
                ),
            }
        }
    }

    /// Binds `name` in the innermost block. A value that is the name of a
    /// constant is replaced by that constant's labels and body, and a name
    /// that no constant replaces becomes an ordinary name.
    pub open spec fn add_const(
        self,
        name: Seq<char>,
        value: ValueV,
        labels: Seq<Seq<char>>,
    ) -> Compiled {
        if self.frames.len() == 0 {
            Err(CompileError::NoBlock)
        } else {
            let bound = match value {
                ValueV::Var(v) => self.find_const(v),
                _ => None,
            };
            let (labels1, value1) = match bound {
                Some(c) => (c.labels, c.value),
                None => (labels, value),
            };
            let value2 = match value1 {
                ValueV::ReprVar(s) => ValueV::Var(s),
                v => v,
            };
            let top = self.frames.last();
            Ok(
                MetaV {
                    frames: self.frames.drop_last().push(
                        FrameV {
                            leaks: top.leaks,
                            consts: top.consts.push(
                                ConstV { name, labels: labels1, value: value2 },
                            ),
                        },
                    ),
                    ..self
                },
            )
        }
    }

    pub open spec fn add_leak(self, name: Seq<char>) -> Compiled {
        if self.frames.len() == 0 {
            Err(CompileError::NoBlock)
        } else {
            let top = self.frames.last();
            Ok(
                MetaV {
                    frames: self.frames.drop_last().push(
                        FrameV { leaks: top.leaks.push(name), consts: top.consts },
                    ),
                    ..self
                },
            )
        }
    }

    /// Begins the expansion of the constant `name`, if there is one: each
    /// label of its body gets a new name, made with a temporary tag of its
    /// own, and the body is handed out.
    pub open spec fn expand_enter(self, name: Seq<char>) -> Result<
        Option<(MetaV, ValueV)>,
        CompileError,
    > {
        match self.find_const(name) {
            None => Ok(None),
            Some(c) => if self.tmp_tags + c.labels.len() > usize::MAX {
                Err(CompileError::TooManyTemporaries)
            } else {
                Ok(
                    Some(
                        (
                            MetaV {
                                tmp_tags: (self.tmp_tags + c.labels.len()) as usize,
                                renames: self.renames.push(
                                    label_renames(c.labels, name, self.tmp_tags as nat),
                                ),
                                ..self
                            },
                            c.value,
                        ),
                    ),
                )
            },
        }
    }

    /// Ends the innermost expansion.
    pub open spec fn expand_exit(self) -> MetaV {
        MetaV { renames: self.renames.drop_last(), ..self }
    }
}

} // verus!
