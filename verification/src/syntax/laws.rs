//! What holds of every compilation.

use vstd::prelude::*;
use crate::text::{dec_text, lemma_dec_text_injective};
use crate::tag_code::{TagLineV, count_code, noop_line, lemma_count_code_concat};
use crate::syntax::ast::{ValueV, JumpCmpV, CmpTreeV, CmpKind, LineV};
use crate::syntax::model::{
    MetaV,
    ConstV,
    CompileError,
    tmp_name,
    const_label,
    tag_pos,
    find_in,
    rename_in,
    label_renames,
};
use crate::syntax::ast::{DExpV, OpV};
use crate::syntax::sem::{
    sem_value,
    sem_var,
    sem_dexp,
    sem_values,
    sem_op,
    sem_op_line,
    sem_lines,
    sem_line,
    sem_program,
    dexp_handle,
    tree_reversed,
    normalized,
    jump_operands,
    sem_build,
    sem_cases,
    sem_select,
    sem_select_head,
    max_len,
    laid_out,
    padded,
    noops,
    jump_cond,
    take_emitted,
};

verus! {

/// Temporaries with different numbers have different names.
pub proof fn lemma_tmp_names_distinct(i: nat, j: nat)
    requires
        i != j,
    ensures
        tmp_name(i) != tmp_name(j),
{
    reveal_strlit("__");
    if tmp_name(i) == tmp_name(j) {
        assert(tmp_name(i).skip(2) =~= dec_text(i));
        assert(tmp_name(j).skip(2) =~= dec_text(j));
        lemma_dec_text_injective(i, j);
    }
}

/// Two temporary variables handed out from states with different counts
/// have different names, and each hand-out raises the count: no name is
/// handed out twice.
pub proof fn law_fresh_vars_distinct(m1: MetaV, m2: MetaV)
    requires
        m1.fresh_var() is Ok,
        m2.fresh_var() is Ok,
        m1.tmp_vars != m2.tmp_vars,
    ensures
        m1.fresh_var()->Ok_0.1 != m2.fresh_var()->Ok_0.1,
        m1.fresh_var()->Ok_0.0.tmp_vars == m1.tmp_vars + 1,
{
    lemma_tmp_names_distinct(m1.tmp_vars as nat, m2.tmp_vars as nat);
}

/// Two temporary tags handed out from states with different counts have
/// different names, and each hand-out raises the count.
pub proof fn law_fresh_tags_distinct(m1: MetaV, m2: MetaV)
    requires
        m1.fresh_tag() is Ok,
        m2.fresh_tag() is Ok,
        m1.tmp_tags != m2.tmp_tags,
    ensures
        m1.fresh_tag()->Ok_0.1 != m2.fresh_tag()->Ok_0.1,
        m1.fresh_tag()->Ok_0.0.tmp_tags == m1.tmp_tags + 1,
{
    lemma_tmp_names_distinct(m1.tmp_tags as nat, m2.tmp_tags as nat);
}

/// Where `tag_pos` finds a name, the name stands there.
pub proof fn lemma_tag_pos_holds(tags: Seq<Seq<char>>, name: Seq<char>, i: int)
    requires
        tag_pos(tags, name, i) is Some,
    ensures
        i <= tag_pos(tags, name, i)->Some_0 < tags.len(),
        tags[tag_pos(tags, name, i)->Some_0] == name,
    decreases tags.len() - i,
{
    if 0 <= i < tags.len() && tags[i] != name {
        lemma_tag_pos_holds(tags, name, i + 1);
    }
}

/// Different tag names get different ids: asking for the id of `a` and
/// then for the id of `b`, from any state, gives two different numbers.
pub proof fn law_tag_ids_distinct(m: MetaV, a: Seq<char>, b: Seq<char>)
    requires
        a != b,
        m.tags.len() < usize::MAX,
    ensures
        m.tag_of(a).1 != m.tag_of(a).0.tag_of(b).1,
{
    let (m1, ia) = m.tag_of(a);
    let (m2, ib) = m1.tag_of(b);
    if tag_pos(m.tags, a, 0) is Some {
        lemma_tag_pos_holds(m.tags, a, 0);
    }
    assert(m1.tags[ia as int] == a);
    if tag_pos(m1.tags, b, 0) is Some {
        lemma_tag_pos_holds(m1.tags, b, 0);
        assert(m1.tags[ib as int] == b);
    } else {
        assert(ib == m1.tags.len());
    }
}

/// Filler instructions are instructions.
pub proof fn lemma_noops_count(n: nat)
    ensures
        count_code(noops(n)) == n,
    decreases n,
{
    if n > 0 {
        lemma_noops_count((n - 1) as nat);
        assert(noops(n).drop_last() =~= noops((n - 1) as nat));
    }
}

/// A filled-up branch has exactly the length it was filled up to.
pub proof fn lemma_padded_count(case: Seq<TagLineV>, len: nat)
    requires
        count_code(case) <= len,
    ensures
        count_code(padded(case, len)) == len,
{
    lemma_noops_count((len - count_code(case)) as nat);
    lemma_count_code_concat(case, noops((len - count_code(case)) as nat));
}

/// No branch is longer than the longest.
pub proof fn lemma_max_len_bounds(cases: Seq<Seq<TagLineV>>, i: int)
    requires
        0 <= i < cases.len(),
    ensures
        count_code(cases[i]) <= max_len(cases),
    decreases cases.len(),
{
    if i < cases.len() - 1 {
        lemma_max_len_bounds(cases.drop_last(), i);
    }
}

/// Branches filled up to `len` hold `len` instructions each.
pub proof fn lemma_laid_out_count(cases: Seq<Seq<TagLineV>>, len: nat)
    requires
        forall|i: int| 0 <= i < cases.len() ==> count_code(#[trigger] cases[i]) <= len,
    ensures
        count_code(laid_out(cases, len)) == cases.len() * len,
    decreases cases.len(),
{
    if cases.len() > 0 {
        let rest = cases.drop_last();
        assert forall|i: int| 0 <= i < rest.len() implies count_code(#[trigger] rest[i])
            <= len by {
            assert(rest[i] == cases[i]);
        }
        lemma_laid_out_count(rest, len);
        lemma_padded_count(cases.last(), len);
        lemma_count_code_concat(laid_out(rest, len), padded(cases.last(), len));
        assert((cases.len() - 1) * len + len == cases.len() * len) by (nonlinear_arith);
    } else {
        assert(cases.len() * len == 0) by (nonlinear_arith)
            requires
                cases.len() == 0,
        ;
    }
}

/// The stride of a jump table: behind a head, `N` branches whose longest
/// holds `M` instructions take exactly `N * M` instructions.
pub proof fn law_select_stride(head: Seq<TagLineV>, cases: Seq<Seq<TagLineV>>)
    ensures
        count_code(head + laid_out(cases, max_len(cases))) == count_code(head) + cases.len()
            * max_len(cases),
{
    assert forall|i: int| 0 <= i < cases.len() implies count_code(#[trigger] cases[i]) <= max_len(
        cases,
    ) by {
        lemma_max_len_bounds(cases, i);
    }
    lemma_laid_out_count(cases, max_len(cases));
    lemma_count_code_concat(head, laid_out(cases, max_len(cases)));
}

/// Compiling the branches gives one piece of code for each branch.
pub proof fn lemma_cases_len(m: MetaV, cases: Seq<LineV>, fuel: nat)
    requires
        sem_cases(m, cases, fuel) is Ok,
    ensures
        sem_cases(m, cases, fuel)->Ok_0.1.len() == cases.len(),
    decreases cases.len(),
{
    if cases.len() > 0 {
        lemma_cases_len(m, cases.drop_last(), fuel);
    }
}

/// A compiled jump table adds to the code its head and, for `N` branches
/// whose longest holds `M` instructions, exactly `N * M` instructions.
pub proof fn law_select_count(m: MetaV, idx: ValueV, cases: Seq<LineV>, fuel: nat)
    requires
        sem_select(m, idx, cases, fuel) is Ok,
    ensures
        ({
            let (m1, codes) = sem_cases(m, cases, fuel)->Ok_0;
            let (m2, head) = sem_select_head(m1, idx, max_len(codes), fuel)->Ok_0;
            count_code(sem_select(m, idx, cases, fuel)->Ok_0.codes) == count_code(m2.codes)
                + count_code(head) + cases.len() * max_len(codes)
        }),
{
    let (m1, codes) = sem_cases(m, cases, fuel)->Ok_0;
    let (m2, head) = sem_select_head(m1, idx, max_len(codes), fuel)->Ok_0;
    lemma_cases_len(m, cases, fuel);
    law_select_stride(head, codes);
    lemma_count_code_concat(m2.codes, head);
    lemma_count_code_concat(m2.codes + head, laid_out(codes, max_len(codes)));
    lemma_count_code_concat(head, laid_out(codes, max_len(codes)));
}

/// A constant keeps what it was bound to: once `a` is bound, a constant
/// `b` that is bound to the name `a` holds the labels and the body that `a`
/// had then, whatever `a` is bound to afterwards.
pub proof fn law_const_snapshot(
    m: MetaV,
    a: Seq<char>,
    b: Seq<char>,
    body: ValueV,
    labels: Seq<Seq<char>>,
    labels_b: Seq<Seq<char>>,
    body2: ValueV,
    labels2: Seq<Seq<char>>,
)
    requires
        m.frames.len() > 0,
        a != b,
    ensures
        ({
            let m1 = m.add_const(a, body, labels)->Ok_0;
            let m2 = m1.add_const(b, ValueV::Var(a), labels_b)->Ok_0;
            let m3 = m2.add_const(a, body2, labels2)->Ok_0;
            &&& m1.find_const(a) is Some
            &&& m3.find_const(b) is Some
            &&& m3.find_const(b)->Some_0.labels == m1.find_const(a)->Some_0.labels
            &&& m3.find_const(b)->Some_0.value == m1.find_const(a)->Some_0.value
        }),
{
    let m1 = m.add_const(a, body, labels)->Ok_0;
    let c1 = m1.frames.last().consts;
    assert(c1.last().name == a);
    assert(find_in(c1, a) == Some(c1.last()));
    assert(m1.find_const(a) == Some(c1.last()));
    let m2 = m1.add_const(b, ValueV::Var(a), labels_b)->Ok_0;
    let c2 = m2.frames.last().consts;
    assert(c2.last().name == b);
    assert(c2.last().labels == c1.last().labels);
    assert(c2.last().value == c1.last().value);
    let m3 = m2.add_const(a, body2, labels2)->Ok_0;
    let c3 = m3.frames.last().consts;
    assert(c3.drop_last() =~= c2);
    assert(c3.last().name == a);
    assert(find_in(c3, b) == find_in(c2, b));
    assert(find_in(c2, b) == Some(c2.last()));
}

/// The new name of a label tells the expansions apart: made with
/// different temporary tags, the new names of one label differ.
pub proof fn lemma_const_label_injective(x: nat, y: nat, name: Seq<char>, label: Seq<char>)
    requires
        x != y,
    ensures
        const_label(tmp_name(x), name, label) != const_label(tmp_name(y), name, label),
{
    reveal_strlit("__");
    let rest = "_const_"@ + name + "_"@ + label;
    let s1 = const_label(tmp_name(x), name, label);
    let s2 = const_label(tmp_name(y), name, label);
    assert(s1 =~= "__"@ + dec_text(x) + rest);
    assert(s2 =~= "__"@ + dec_text(y) + rest);
    if s1 == s2 {
        assert(dec_text(x).len() == dec_text(y).len());
        assert(s1.subrange(2, 2 + dec_text(x).len() as int) =~= dec_text(x));
        assert(s2.subrange(2, 2 + dec_text(y).len() as int) =~= dec_text(y));
        lemma_dec_text_injective(x, y);
    }
}

/// Each expansion of a constant gives the labels of its body names of
/// their own: two expansions that begin with different counts of temporary
/// tags rename every label differently, and each expansion raises the
/// count by the number of its labels.
pub proof fn law_expansions_rename_apart(m1: MetaV, m2: MetaV, name: Seq<char>, i: int)
    requires
        m1.expand_enter(name) is Ok,
        m2.expand_enter(name) is Ok,
        m1.find_const(name) is Some,
        m2.find_const(name) == m1.find_const(name),
        m1.tmp_tags != m2.tmp_tags,
        0 <= i < m1.find_const(name)->Some_0.labels.len(),
    ensures
        ({
            let e1 = m1.expand_enter(name)->Ok_0->Some_0.0;
            let e2 = m2.expand_enter(name)->Ok_0->Some_0.0;
            &&& e1.renames.last()[i].0 == e2.renames.last()[i].0
            &&& e1.renames.last()[i].1 != e2.renames.last()[i].1
            &&& e1.tmp_tags == m1.tmp_tags + m1.find_const(name)->Some_0.labels.len()
        }),
{
    let c = m1.find_const(name)->Some_0;
    lemma_const_label_injective(
        (m1.tmp_tags + i) as nat,
        (m2.tmp_tags + i) as nat,
        name,
        c.labels[i],
    );
}

/// Where `pairs` holds a new name for `name`, `rename_in` gives the new
/// name of one of the pairs that hold `name`.
pub proof fn lemma_rename_in_finds(pairs: Seq<(Seq<char>, Seq<char>)>, name: Seq<char>, i: int)
    requires
        0 <= i < pairs.len(),
        pairs[i].0 == name,
    ensures
        exists|j: int|
            0 <= j < pairs.len() && (#[trigger] pairs[j]).0 == name && rename_in(pairs, name)
                == Some(pairs[j].1),
    decreases pairs.len(),
{
    if pairs.last().0 == name {
        assert(rename_in(pairs, name) == Some(pairs[pairs.len() - 1].1));
    } else {
        let rest = pairs.drop_last();
        assert(rest[i] == pairs[i]);
        lemma_rename_in_finds(rest, name, i);
        let j = choose|j: int|
            0 <= j < rest.len() && (#[trigger] rest[j]).0 == name && rename_in(rest, name) == Some(
                rest[j].1,
            );
        assert(pairs[j] == rest[j]);
    }
}

/// Inside the expansion of a constant, each label of its body reads as a
/// name that this expansion made for it: the label and the jumps to it,
/// which are both read this way, meet at a name of their own expansion.
pub proof fn law_label_resolves_in_expansion(m: MetaV, name: Seq<char>, i: int)
    requires
        m.expand_enter(name) is Ok,
        m.find_const(name) is Some,
        0 <= i < m.find_const(name)->Some_0.labels.len(),
    ensures
        ({
            let labels = m.find_const(name)->Some_0.labels;
            let inside = m.expand_enter(name)->Ok_0->Some_0.0;
            exists|j: int|
                0 <= j < labels.len() && #[trigger] labels[j] == labels[i] && inside.label_in(
                    labels[i],
                ) == const_label(tmp_name((m.tmp_tags + j) as nat), name, labels[i])
        }),
{
    let labels = m.find_const(name)->Some_0.labels;
    let pairs = label_renames(labels, name, m.tmp_tags as nat);
    let inside = m.expand_enter(name)->Ok_0->Some_0.0;
    assert(inside.renames.last() == pairs);
    lemma_rename_in_finds(pairs, labels[i], i);
    let j = choose|j: int|
        0 <= j < pairs.len() && (#[trigger] pairs[j]).0 == labels[i] && rename_in(pairs, labels[i])
            == Some(pairs[j].1);
    assert(labels[j] == labels[i]);
    assert(inside.label_in(labels[i]) == pairs[j].1);
}

/// The first position of a name is the only one that `tag_pos` gives: a
/// name that was just given an id has the same id when asked again.
pub proof fn lemma_tag_of_again(m: MetaV, name: Seq<char>)
    requires
        m.tags.len() < usize::MAX,
    ensures
        m.tag_of(name).0.tag_of(name) == m.tag_of(name),
{
    let (m1, id) = m.tag_of(name);
    if tag_pos(m.tags, name, 0) is None {
        lemma_tag_pos_none(m.tags, name, 0);
        lemma_tag_pos_first(m1.tags, name, 0, m.tags.len() as int);
    }
}

/// Where `tag_pos` finds nothing, the name stands nowhere.
pub proof fn lemma_tag_pos_none(tags: Seq<Seq<char>>, name: Seq<char>, i: int)
    requires
        0 <= i,
        tag_pos(tags, name, i) is None,
    ensures
        forall|k: int| i <= k < tags.len() ==> tags[k] != name,
    decreases tags.len() - i,
{
    if i < tags.len() {
        lemma_tag_pos_none(tags, name, i + 1);
    }
}

/// `tag_pos` gives the first position at which the name stands.
pub proof fn lemma_tag_pos_first(tags: Seq<Seq<char>>, name: Seq<char>, i: int, k: int)
    requires
        0 <= i <= k < tags.len(),
        tags[k] == name,
        forall|j: int| i <= j < k ==> tags[j] != name,
    ensures
        tag_pos(tags, name, i) == Some(k),
    decreases k - i,
{
    if i < k {
        lemma_tag_pos_first(tags, name, i + 1, k);
    }
}

/// Whether a value resolves to a name without any code: a literal name,
/// or a name that is no constant.
pub open spec fn names_itself(m: MetaV, v: ValueV) -> bool {
    match v {
        ValueV::ReprVar(_) => true,
        ValueV::Var(n) => m.find_const(n) is None,
        _ => false,
    }
}

/// The name that such a value resolves to.
pub open spec fn own_name(v: ValueV) -> Seq<char> {
    match v {
        ValueV::ReprVar(n) => n,
        ValueV::Var(n) => n,
        _ => Seq::empty(),
    }
}

/// A disjunction of two comparisons of names compiles to two jumps to
/// the same target, one behind the other, with nothing between them.
pub proof fn law_or_emits_adjacent_jumps(
    m: MetaV,
    k1: CmpKind,
    a1: ValueV,
    b1: ValueV,
    k2: CmpKind,
    a2: ValueV,
    b2: ValueV,
    do_tag: Seq<char>,
    fuel: nat,
)
    requires
        fuel >= 1,
        k1.is_native(),
        k2.is_native(),
        m.tags.len() < usize::MAX,
        names_itself(m, a1),
        names_itself(m, b1),
        names_itself(m, a2),
        names_itself(m, b2),
    ensures
        ({
            let t = CmpTreeV::Or(
                Box::new(CmpTreeV::Atom(JumpCmpV::Cmp(k1, a1, b1))),
                Box::new(CmpTreeV::Atom(JumpCmpV::Cmp(k2, a2, b2))),
            );
            let target = m.label_in(m.label_in(do_tag));
            let id = m.tag_of(target).1;
            &&& sem_build(m, t, do_tag, fuel) is Ok
            &&& sem_build(m, t, do_tag, fuel)->Ok_0.codes == m.codes.push(
                TagLineV::Jump {
                    tags: Seq::empty(),
                    to: id,
                    cond: jump_cond(k1.name(), own_name(a1), own_name(b1)),
                },
            ).push(
                TagLineV::Jump {
                    tags: Seq::empty(),
                    to: id,
                    cond: jump_cond(k2.name(), own_name(a2), own_name(b2)),
                },
            )
        }),
{
    let c1 = JumpCmpV::Cmp(k1, a1, b1);
    let c2 = JumpCmpV::Cmp(k2, a2, b2);
    let tag = m.label_in(do_tag);
    let target = m.label_in(tag);
    let f1 = (fuel - 1) as nat;
    lemma_plain_atom(m, k1, a1, b1, tag, f1);
    let ma = sem_build(m, CmpTreeV::Atom(c1), tag, f1)->Ok_0;
    assert(ma.frames == m.frames);
    lemma_plain_atom(ma, k2, a2, b2, tag, f1);
    lemma_tag_of_again(m, target);
}

/// A value that names itself resolves to its name and leaves the state
/// as it is.
pub proof fn lemma_own_name(m: MetaV, v: ValueV, fuel: nat)
    requires
        names_itself(m, v),
    ensures
        sem_value(m, v, fuel) == Ok::<(MetaV, Seq<char>), CompileError>((m, own_name(v))),
{
    match v {
        ValueV::Var(n) => {
            assert(m.expand_enter(n) == Ok::<Option<(MetaV, ValueV)>, CompileError>(None));
            assert(sem_var(m, n, fuel) == Ok::<(MetaV, Seq<char>), CompileError>((m, n)));
        },
        _ => {},
    }
}

/// A comparison of names compiles to one jump.
pub proof fn lemma_plain_atom(
    m: MetaV,
    k: CmpKind,
    a: ValueV,
    b: ValueV,
    tag: Seq<char>,
    fuel: nat,
)
    requires
        k.is_native(),
        names_itself(m, a),
        names_itself(m, b),
    ensures
        sem_build(m, CmpTreeV::Atom(JumpCmpV::Cmp(k, a, b)), tag, fuel) == Ok::<
            MetaV,
            CompileError,
        >(
            m.tag_of(m.label_in(tag)).0.emit(
                TagLineV::Jump {
                    tags: Seq::empty(),
                    to: m.tag_of(m.label_in(tag)).1,
                    cond: jump_cond(k.name(), own_name(a), own_name(b)),
                },
            ),
        ),
{
    let c = JumpCmpV::Cmp(k, a, b);
    assert(crate::syntax::sem::inline_step(c) is None);
    assert(crate::syntax::sem::inlined(c) == c);
    assert(crate::syntax::sem::normalized(c) == c);
    assert(crate::syntax::sem::jump_operands(c) == (a, b));
    lemma_own_name(m, a, fuel);
    lemma_own_name(m, b, fuel);
}

/// What a successful step of a compilation leaves as it found it, and
/// what it only adds to: as many blocks and expressions are open as
/// before, the open expansions are the same, no counter went back, and
/// the tags and the code that were there are still there, in front.
pub open spec fn settled(a: MetaV, b: MetaV) -> bool {
    &&& b.frames.len() == a.frames.len()
    &&& b.handles.len() == a.handles.len()
    &&& b.renames == a.renames
    &&& b.tmp_vars >= a.tmp_vars
    &&& b.tmp_tags >= a.tmp_tags
    &&& a.tags.len() <= b.tags.len()
    &&& forall|k: int| 0 <= k < a.tags.len() ==> #[trigger] b.tags[k] == a.tags[k]
    &&& a.codes.len() <= b.codes.len()
    &&& forall|k: int| 0 <= k < a.codes.len() ==> #[trigger] b.codes[k] == a.codes[k]
}

/// Steps that settle, one after the other, settle.
pub proof fn lemma_settled_trans(a: MetaV, b: MetaV, c: MetaV)
    requires
        settled(a, b),
        settled(b, c),
    ensures
        settled(a, c),
{
    assert forall|k: int| 0 <= k < a.tags.len() implies #[trigger] c.tags[k] == a.tags[k] by {
        assert(b.tags[k] == a.tags[k]);
    }
    assert forall|k: int| 0 <= k < a.codes.len() implies #[trigger] c.codes[k] == a.codes[k] by {
        assert(b.codes[k] == a.codes[k]);
    }
}

/// Asking for the id of a tag settles.
pub proof fn lemma_tag_of_settles(m: MetaV, name: Seq<char>)
    ensures
        settled(m, m.tag_of(name).0),
{
}

/// Taking the emitted code out leaves the code as it was before.
pub proof fn lemma_take_emitted_settles(before: MetaV, after: MetaV)
    requires
        settled(before, after),
    ensures
        settled(before, take_emitted(before, after).0),
        take_emitted(before, after).0.codes == before.codes,
{
    assert(take_emitted(before, after).0.codes =~= before.codes);
}

/// Emitting an entry settles.
pub proof fn lemma_emit_settles(m: MetaV, line: TagLineV)
    ensures
        settled(m, m.emit(line)),
{
}

/// Binding a constant settles.
pub proof fn lemma_add_const_settles(
    m: MetaV,
    name: Seq<char>,
    value: ValueV,
    labels: Seq<Seq<char>>,
)
    requires
        m.add_const(name, value, labels) is Ok,
    ensures
        settled(m, m.add_const(name, value, labels)->Ok_0),
{
}

/// Marking a name to leak settles.
pub proof fn lemma_add_leak_settles(m: MetaV, name: Seq<char>)
    requires
        m.add_leak(name) is Ok,
    ensures
        settled(m, m.add_leak(name)->Ok_0),
{
}

/// Ending a block closes exactly one block, and changes nothing else
/// that settling speaks of.
pub proof fn lemma_exit_block_closes(m: MetaV)
    requires
        m.exit_block() is Ok,
    ensures
        m.exit_block()->Ok_0.frames.len() == m.frames.len() - 1,
        m.exit_block()->Ok_0.handles == m.handles,
        m.exit_block()->Ok_0.renames == m.renames,
        m.exit_block()->Ok_0.tmp_vars == m.tmp_vars,
        m.exit_block()->Ok_0.tmp_tags == m.tmp_tags,
        m.exit_block()->Ok_0.tags == m.tags,
        m.exit_block()->Ok_0.codes == m.codes,
{
    let top = m.frames.last();
    let below = m.frames.drop_last();
    let parent = if below.len() == 0 {
        None
    } else {
        Some(below.last().consts)
    };
    lemma_leak_keeps_parent(top.consts, parent, top.leaks);
}

/// Leaking hands constants to the block below only where there is one.
pub proof fn lemma_leak_keeps_parent(
    top: Seq<ConstV>,
    parent: Option<Seq<ConstV>>,
    leaks: Seq<Seq<char>>,
)
    requires
        crate::syntax::model::leak_all(top, parent, leaks) is Ok,
    ensures
        crate::syntax::model::leak_all(top, parent, leaks)->Ok_0 is Some == parent is Some,
    decreases leaks.len(),
{
    if leaks.len() > 0 {
        lemma_leak_keeps_parent(top, parent, leaks.drop_last());
    }
}

pub proof fn lemma_value_settles(m: MetaV, v: ValueV, fuel: nat)
    requires
        sem_value(m, v, fuel) is Ok,
    ensures
        settled(m, sem_value(m, v, fuel)->Ok_0.0),
    decreases fuel, 2nat, 0nat,
{
    match v {
        ValueV::Var(name) => lemma_var_settles(m, name, fuel),
        ValueV::DExp(d) => lemma_dexp_settles(m, d, fuel),
        ValueV::ValueBind(base, attr) => {
            lemma_value_settles(m, *base, (fuel - 1) as nat);
        },
        _ => {},
    }
}

pub proof fn lemma_var_settles(m: MetaV, name: Seq<char>, fuel: nat)
    requires
        sem_var(m, name, fuel) is Ok,
    ensures
        settled(m, sem_var(m, name, fuel)->Ok_0.0),
    decreases fuel, 1nat, 0nat,
{
    match m.expand_enter(name) {
        Ok(Some((m1, body))) => {
            assert(m1.renames.drop_last() =~= m.renames);
            match body {
                ValueV::Var(_) => {},
                _ => {
                    lemma_value_settles(m1, body, (fuel - 1) as nat);
                    let m2 = sem_value(m1, body, (fuel - 1) as nat)->Ok_0.0;
                    assert(m2.renames == m1.renames);
                    assert forall|k: int| 0 <= k < m.tags.len() implies #[trigger] m2.tags[k]
                        == m.tags[k] by {
                        assert(m1.tags[k] == m.tags[k]);
                    }
                    assert forall|k: int| 0 <= k < m.codes.len() implies #[trigger] m2.codes[k]
                        == m.codes[k] by {
                        assert(m1.codes[k] == m.codes[k]);
                    }
                },
            }
        },
        _ => {},
    }
}

pub proof fn lemma_dexp_settles(m: MetaV, d: DExpV, fuel: nat)
    requires
        sem_dexp(m, d, fuel) is Ok,
    ensures
        settled(m, sem_dexp(m, d, fuel)->Ok_0.0),
    decreases fuel, 1nat, 0nat,
{
    let (m1, h) = dexp_handle(m, d.result)->Ok_0;
    let m2 = m1.push_handle(h);
    lemma_lines_settles(m2, d.lines, (fuel - 1) as nat);
    let m3 = sem_lines(m2, d.lines, (fuel - 1) as nat)->Ok_0;
    let m4 = m3.pop_handle()->Ok_0.0;
    assert forall|k: int| 0 <= k < m.tags.len() implies #[trigger] m4.tags[k] == m.tags[k] by {
        assert(m3.tags[k] == m2.tags[k]);
    }
    assert forall|k: int| 0 <= k < m.codes.len() implies #[trigger] m4.codes[k] == m.codes[k] by {
        assert(m3.codes[k] == m2.codes[k]);
    }
}

pub proof fn lemma_values_settles(m: MetaV, vs: Seq<ValueV>, fuel: nat)
    requires
        sem_values(m, vs, fuel) is Ok,
    ensures
        settled(m, sem_values(m, vs, fuel)->Ok_0.0),
    decreases fuel, 3nat, vs.len(),
{
    if vs.len() > 0 {
        lemma_values_settles(m, vs.drop_last(), fuel);
        let m1 = sem_values(m, vs.drop_last(), fuel)->Ok_0.0;
        lemma_value_settles(m1, vs.last(), fuel);
        lemma_settled_trans(m, m1, sem_value(m1, vs.last(), fuel)->Ok_0.0);
    }
}

pub proof fn lemma_op_settles(m: MetaV, op: OpV, fuel: nat)
    requires
        sem_op(m, op, fuel) is Ok,
    ensures
        settled(m, sem_op(m, op, fuel)->Ok_0.0),
    decreases fuel, 3nat, 0nat,
{
    lemma_value_settles(m, op.result, fuel);
    let m1 = sem_value(m, op.result, fuel)->Ok_0.0;
    lemma_value_settles(m1, op.a, fuel);
    let m2 = sem_value(m1, op.a, fuel)->Ok_0.0;
    lemma_settled_trans(m, m1, m2);
    match op.b {
        Some(bv) => {
            lemma_value_settles(m2, bv, fuel);
            lemma_settled_trans(m, m2, sem_value(m2, bv, fuel)->Ok_0.0);
        },
        None => {},
    }
}

pub proof fn lemma_op_line_settles(m: MetaV, op: OpV, fuel: nat)
    requires
        sem_op_line(m, op, fuel) is Ok,
    ensures
        settled(m, sem_op_line(m, op, fuel)->Ok_0),
    decreases fuel, 4nat, 0nat,
{
    lemma_op_settles(m, op, fuel);
    let m1 = sem_op(m, op, fuel)->Ok_0.0;
    let m2 = sem_op_line(m, op, fuel)->Ok_0;
    assert forall|k: int| 0 <= k < m.codes.len() implies #[trigger] m2.codes[k] == m.codes[k] by {
        assert(m1.codes[k] == m.codes[k]);
    }
}

pub proof fn lemma_build_settles(m: MetaV, t: CmpTreeV, do_tag: Seq<char>, fuel: nat)
    requires
        sem_build(m, t, do_tag, fuel) is Ok,
    ensures
        settled(m, sem_build(m, t, do_tag, fuel)->Ok_0),
    decreases fuel, 3nat, 0nat,
{
    let tag = m.label_in(do_tag);
    let out = sem_build(m, t, do_tag, fuel)->Ok_0;
    match t {
        CmpTreeV::Or(a, b) => {
            let f = (fuel - 1) as nat;
            lemma_build_settles(m, *a, tag, f);
            let m1 = sem_build(m, *a, tag, f)->Ok_0;
            lemma_build_settles(m1, *b, tag, f);
            lemma_settled_trans(m, m1, out);
        },
        CmpTreeV::And(a, b) => {
            let f = (fuel - 1) as nat;
            let (m1, end) = m.fresh_tag()->Ok_0;
            lemma_build_settles(m1, tree_reversed(*a), end, f);
            let m2 = sem_build(m1, tree_reversed(*a), end, f)->Ok_0;
            lemma_build_settles(m2, *b, tag, f);
            let m3 = sem_build(m2, *b, tag, f)->Ok_0;
            lemma_tag_of_settles(m3, end);
            let m4 = m3.tag_of(end).0;
            assert(settled(m, m1));
            lemma_settled_trans(m, m1, m2);
            lemma_settled_trans(m, m2, m3);
            lemma_settled_trans(m, m3, m4);
            assert forall|k: int| 0 <= k < m.codes.len() implies #[trigger] out.codes[k]
                == m.codes[k] by {
                assert(m4.codes[k] == m.codes[k]);
            }
        },
        CmpTreeV::Atom(c) => {
            let c1 = normalized(c);
            let (av, bv) = jump_operands(c1);
            lemma_value_settles(m, av, fuel);
            let m1 = sem_value(m, av, fuel)->Ok_0.0;
            lemma_value_settles(m1, bv, fuel);
            let m2 = sem_value(m1, bv, fuel)->Ok_0.0;
            lemma_tag_of_settles(m2, tag);
            let m3 = m2.tag_of(tag).0;
            lemma_settled_trans(m, m1, m2);
            lemma_settled_trans(m, m2, m3);
            assert forall|k: int| 0 <= k < m.codes.len() implies #[trigger] out.codes[k]
                == m.codes[k] by {
                assert(m3.codes[k] == m.codes[k]);
            }
        },
    }
}

pub proof fn lemma_cases_settles(m: MetaV, cases: Seq<LineV>, fuel: nat)
    requires
        sem_cases(m, cases, fuel) is Ok,
    ensures
        settled(m, sem_cases(m, cases, fuel)->Ok_0.0),
        sem_cases(m, cases, fuel)->Ok_0.0.codes == m.codes,
    decreases fuel, 3nat, cases.len(),
{
    if cases.len() > 0 {
        lemma_cases_settles(m, cases.drop_last(), fuel);
        let m1 = sem_cases(m, cases.drop_last(), fuel)->Ok_0.0;
        lemma_line_settles(m1, cases.last(), (fuel - 1) as nat);
        let m2 = sem_line(m1, cases.last(), (fuel - 1) as nat)->Ok_0;
        lemma_take_emitted_settles(m1, m2);
        lemma_settled_trans(m, m1, take_emitted(m1, m2).0);
    }
}

pub proof fn lemma_head_settles(m: MetaV, idx: ValueV, len: nat, fuel: nat)
    requires
        sem_select_head(m, idx, len, fuel) is Ok,
    ensures
        settled(m, sem_select_head(m, idx, len, fuel)->Ok_0.0),
        sem_select_head(m, idx, len, fuel)->Ok_0.0.codes == m.codes,
    decreases fuel, 5nat, 1nat,
{
    let counter = ValueV::ReprVar("@counter"@);
    if len == 0 {
        lemma_value_settles(m, idx, fuel);
        let (m1, h) = sem_value(m, idx, fuel)->Ok_0;
        let m2 = m1.add_const("__"@, ValueV::Var(h), Seq::empty())->Ok_0;
        assert(settled(m1, m2));
        lemma_settled_trans(m, m1, m2);
        lemma_take_emitted_settles(m, m2);
    } else if len == 1 {
        let op = OpV { kind: crate::syntax::ast::OpKind::Add, result: counter, a: counter, b: Some(idx) };
        lemma_op_line_settles(m, op, fuel);
        lemma_take_emitted_settles(m, sem_op_line(m, op, fuel)->Ok_0);
    } else {
        let (m1, tmp) = m.fresh_var()->Ok_0;
        let mul = OpV {
            kind: crate::syntax::ast::OpKind::Mul,
            result: ValueV::Var(tmp),
            a: idx,
            b: Some(ValueV::ReprVar(dec_text(len))),
        };
        lemma_op_line_settles(m1, mul, fuel);
        let m2 = sem_op_line(m1, mul, fuel)->Ok_0;
        lemma_take_emitted_settles(m1, m2);
        let m3 = take_emitted(m1, m2).0;
        let add = OpV {
            kind: crate::syntax::ast::OpKind::Add,
            result: counter,
            a: counter,
            b: Some(ValueV::Var(tmp)),
        };
        lemma_op_line_settles(m3, add, fuel);
        let m4 = sem_op_line(m3, add, fuel)->Ok_0;
        lemma_take_emitted_settles(m3, m4);
        let m5 = take_emitted(m3, m4).0;
        assert(settled(m, m1));
        lemma_settled_trans(m, m1, m3);
        lemma_settled_trans(m, m3, m5);
    }
}

pub proof fn lemma_select_settles(m: MetaV, idx: ValueV, cases: Seq<LineV>, fuel: nat)
    requires
        sem_select(m, idx, cases, fuel) is Ok,
    ensures
        settled(m, sem_select(m, idx, cases, fuel)->Ok_0),
    decreases fuel, 6nat, 0nat,
{
    lemma_cases_settles(m, cases, fuel);
    let (m1, codes) = sem_cases(m, cases, fuel)->Ok_0;
    lemma_head_settles(m1, idx, max_len(codes), fuel);
    let (m2, head) = sem_select_head(m1, idx, max_len(codes), fuel)->Ok_0;
    lemma_settled_trans(m, m1, m2);
    let out = sem_select(m, idx, cases, fuel)->Ok_0;
    assert forall|k: int| 0 <= k < m.codes.len() implies #[trigger] out.codes[k] == m.codes[k] by {
        assert(m2.codes[k] == m.codes[k]);
    }
}

pub proof fn lemma_lines_settles(m: MetaV, lines: Seq<LineV>, fuel: nat)
    requires
        sem_lines(m, lines, fuel) is Ok,
    ensures
        settled(m, sem_lines(m, lines, fuel)->Ok_0),
    decreases fuel, 8nat, lines.len(),
{
    if lines.len() > 0 {
        lemma_lines_settles(m, lines.drop_last(), fuel);
        let m1 = sem_lines(m, lines.drop_last(), fuel)->Ok_0;
        lemma_line_settles(m1, lines.last(), fuel);
        lemma_settled_trans(m, m1, sem_line(m1, lines.last(), fuel)->Ok_0);
    }
}

pub proof fn lemma_line_settles(m: MetaV, line: LineV, fuel: nat)
    requires
        sem_line(m, line, fuel) is Ok,
    ensures
        settled(m, sem_line(m, line, fuel)->Ok_0),
    decreases fuel, 7nat, 0nat,
{
    let out = sem_line(m, line, fuel)->Ok_0;
    match line {
        LineV::NoOp => lemma_emit_settles(m, noop_line()),
        LineV::Ignore => {},
        LineV::Label(lab) => {
            lemma_tag_of_settles(m, m.label_in(lab));
            let m1 = m.tag_of(m.label_in(lab)).0;
            lemma_emit_settles(m1, TagLineV::TagDown(m.tag_of(m.label_in(lab)).1));
            lemma_settled_trans(m, m1, out);
        },
        LineV::Other(args) => {
            lemma_values_settles(m, args, fuel);
            let (m1, hs) = sem_values(m, args, fuel)->Ok_0;
            lemma_emit_settles(m1, crate::syntax::sem::text_line(crate::text::join_with(hs, " "@)));
            lemma_settled_trans(m, m1, out);
        },
        LineV::SetResultHandle(v) => {
            lemma_value_settles(m, v, fuel);
            let m1 = sem_value(m, v, fuel)->Ok_0.0;
            assert(settled(m1, out));
            lemma_settled_trans(m, m1, out);
        },
        LineV::Select(idx, cases) => lemma_select_settles(m, idx, cases, fuel),
        LineV::Expand(lines) => {
            let m1 = m.enter_block();
            lemma_lines_settles(m1, lines, (fuel - 1) as nat);
            let m2 = sem_lines(m1, lines, (fuel - 1) as nat)->Ok_0;
            lemma_exit_block_closes(m2);
            assert forall|k: int| 0 <= k < m.tags.len() implies #[trigger] out.tags[k]
                == m.tags[k] by {
                assert(m2.tags[k] == m1.tags[k]);
            }
            assert forall|k: int| 0 <= k < m.codes.len() implies #[trigger] out.codes[k]
                == m.codes[k] by {
                assert(m2.codes[k] == m1.codes[k]);
            }
        },
        LineV::InlineBlock(lines) => lemma_lines_settles(m, lines, (fuel - 1) as nat),
        LineV::Goto(lab, tree) => lemma_build_settles(m, tree, lab, fuel),
        LineV::Op(op) => lemma_op_line_settles(m, op, fuel),
        LineV::Const(name, value, labels) => lemma_add_const_settles(m, name, value, labels),
        LineV::Take(name, value) => {
            lemma_value_settles(m, value, fuel);
            let (m1, h) = sem_value(m, value, fuel)->Ok_0;
            lemma_add_const_settles(m1, name, ValueV::Var(h), Seq::empty());
            lemma_settled_trans(m, m1, out);
        },
        LineV::ConstLeak(name) => lemma_add_leak_settles(m, name),
    }
}

/// A conjunction jumps over its second part to a temporary tag of its
/// own: the tag that the state hands out next. The counter of temporary
/// tags is raised, so no later build is handed the same tag, and the code
/// ends with the place of that tag, as long as the table of tags fits the
/// machine word.
pub proof fn law_and_skips_to_own_tag(
    m: MetaV,
    a: CmpTreeV,
    b: CmpTreeV,
    do_tag: Seq<char>,
    fuel: nat,
)
    requires
        sem_build(m, CmpTreeV::And(Box::new(a), Box::new(b)), do_tag, fuel) is Ok,
    ensures
        ({
            let out = sem_build(m, CmpTreeV::And(Box::new(a), Box::new(b)), do_tag, fuel)->Ok_0;
            &&& out.tmp_tags > m.tmp_tags
            &&& out.codes.len() > 0
            &&& out.codes.last() is TagDown
            &&& out.tags.len() <= usize::MAX ==> {
                &&& 0 <= out.codes.last()->TagDown_0 < out.tags.len()
                &&& out.tags[out.codes.last()->TagDown_0 as int] == tmp_name(m.tmp_tags as nat)
            }
        }),
{
    let tag = m.label_in(do_tag);
    let f = (fuel - 1) as nat;
    let (m1, end) = m.fresh_tag()->Ok_0;
    lemma_build_settles(m1, tree_reversed(a), end, f);
    let m2 = sem_build(m1, tree_reversed(a), end, f)->Ok_0;
    lemma_build_settles(m2, b, tag, f);
    let m3 = sem_build(m2, b, tag, f)->Ok_0;
    let (m4, id) = m3.tag_of(end);
    if tag_pos(m3.tags, end, 0) is Some {
        lemma_tag_pos_holds(m3.tags, end, 0);
    }
    if m4.tags.len() <= usize::MAX {
        assert(m4.tags[id as int] == end);
    }
}

/// Every statement that compiles leaves the stacks of the compilation as
/// it found them: as many blocks and expressions are open as before and
/// the same expansions; no counter of temporaries went back; and each tag
/// and each entry of code that was there is still there, at its place.
pub proof fn law_statement_settles(m: MetaV, line: LineV, fuel: nat)
    requires
        sem_line(m, line, fuel) is Ok,
    ensures
        settled(m, sem_line(m, line, fuel)->Ok_0),
{
    lemma_line_settles(m, line, fuel);
}

/// Every value that resolves leaves the stacks of the compilation as it
/// found them, like a statement.
pub proof fn law_value_settles(m: MetaV, v: ValueV, fuel: nat)
    requires
        sem_value(m, v, fuel) is Ok,
    ensures
        settled(m, sem_value(m, v, fuel)->Ok_0.0),
{
    lemma_value_settles(m, v, fuel);
}

/// A program that compiles from the fresh state ends with every stack
/// empty, as it began.
pub proof fn law_program_ends_balanced(lines: Seq<LineV>, fuel: nat)
    requires
        sem_program(MetaV::fresh(), lines, fuel) is Ok,
    ensures
        sem_program(MetaV::fresh(), lines, fuel)->Ok_0.frames.len() == 0,
        sem_program(MetaV::fresh(), lines, fuel)->Ok_0.handles.len() == 0,
        sem_program(MetaV::fresh(), lines, fuel)->Ok_0.renames.len() == 0,
{
    let m1 = MetaV::fresh().enter_block();
    lemma_lines_settles(m1, lines, fuel);
    lemma_exit_block_closes(sem_lines(m1, lines, fuel)->Ok_0);
}

} // verus!
