use mindustry_logic_bang_lang::display_source::{DisplaySource, DisplaySourceMeta};
use mindustry_logic_bang_lang::syntax::ast::{
    CmpTree, Const, DExp, Expand, Goto, JumpCmp, LogicLine, Op, OpKind, Take, Value,
};
use mindustry_logic_bang_lang::syntax::import::{
    JumpCmpRParseError, LogicLineFromTagError, OpRParseError,
};
use mindustry_logic_bang_lang::syntax::meta::CompileMeta;
use mindustry_logic_bang_lang::syntax::op_expr::{op_expr_build_op, OpExprInfo};
use mindustry_logic_bang_lang::syntax::parse_meta::{Error, Errors, Meta, SwitchCatch, UIntError};
use mindustry_logic_bang_lang::syntax::sugar::{
    assign_exprs, build_do_while, build_gwhile, build_if, build_print, build_skip, build_switch,
    build_while, consted, quick_take, with_targets, wrap_targets, Catcher,
};
use mindustry_logic_bang_lang::tag_code::{TagBox, TagLine};
use mindustry_logic_bang_lang::text::read_radix;

fn set(a: &str, b: &str) -> LogicLine {
    LogicLine::Other(vec![Value::ReprVar("set".into()), a.into(), b.into()])
}

#[test]
fn labels_are_recorded_in_the_innermost_scope() {
    let mut meta = Meta::new();
    assert_eq!(LogicLine::new_label("a".into(), &mut meta), LogicLine::Label("a".into()));
    meta.add_label_scope();
    assert_eq!(meta.add_defined_label("b".into()), "b");
    let mut lines = Vec::new();
    meta.push_some_label_to(&mut lines, Some("c".into()));
    meta.push_some_label_to(&mut lines, None);
    assert_eq!(lines, vec![LogicLine::Label("c".into())]);
    assert_eq!(meta.pop_label_scope(), vec!["b".to_string(), "c".to_string()]);
    assert_eq!(meta.pop_label_scope(), vec!["a".to_string()]);
}

#[test]
fn targets_of_break_and_continue_are_made_when_first_used() {
    let mut meta = Meta::new();
    meta.add_control_level(None, Some("go".into()));
    assert_eq!(meta.get_continue(), "go");
    assert_eq!(meta.get_break(), "___0");
    assert_eq!(meta.get_break(), "___0");
    meta.add_control_level(None, None);
    assert_eq!(meta.get_continue(), "___1");
    assert_eq!(meta.pop_control_level(), (None, Some("___1".to_string())));
    assert_eq!(meta.pop_control_level(), (Some("___0".to_string()), Some("go".to_string())));
    assert_eq!(meta.get_tag(), "___2");
}

#[test]
fn assignments_one_to_one() {
    assert_eq!(Meta::build_set("a".into(), "1".into()), set("a", "1"));
    assert_eq!(
        Meta::build_sets([3, 9], vec!["a".into()], vec!["1".into()]),
        Ok(set("a", "1"))
    );
    assert_eq!(
        Meta::build_sets([3, 9], vec!["a".into(), "b".into()], vec!["1".into(), "2".into()]),
        Ok(Expand(vec![set("a", "1"), set("b", "2")]).into())
    );
    assert_eq!(
        Meta::build_sets([3, 9], vec!["a".into(), "b".into()], vec!["1".into()]),
        Err(Error { start: 3, end: 9, err: Errors::SetVarNoPatternValue(2, 1) })
    );
}

#[test]
fn expressions_become_values_and_statements() {
    let mut meta = Meta::new();
    let add = || Op::Add(Value::ResultHandle, "b".into(), "2".into());
    assert_eq!(
        op_expr_build_op(add).into_value(&mut meta),
        DExp::new_nores(vec![add().into()].into()).into()
    );
    assert_eq!(
        op_expr_build_op(add).into_logic_line(&mut meta, "x".into()),
        Op::Add("x".into(), "b".into(), "2".into()).into()
    );
    assert_eq!(OpExprInfo::from(Value::from("v")).into_value(&mut meta), "v".into());
    assert_eq!(OpExprInfo::Value("v".into()).into_logic_line(&mut meta, "x".into()), set("x", "v"));
    let cond: CmpTree = JumpCmp::LessThan("b".into(), "c".into()).into();
    let choice = OpExprInfo::new_if_else(
        &mut meta,
        cond.clone(),
        op_expr_build_op(add),
        OpExprInfo::Value("c".into()),
    );
    assert_eq!(
        choice.into_logic_line(&mut meta, "a".into()),
        Expand(vec![
            Take("___0".into(), "a".into()).into(),
            Goto("___0".into(), cond).into(),
            set("___0", "c"),
            Goto("___1".into(), JumpCmp::Always.into()).into(),
            LogicLine::Label("___0".into()),
            Op::Add("___0".into(), "b".into(), "2".into()).into(),
            LogicLine::Label("___1".into()),
        ])
        .into()
    );
}

#[test]
fn one_expression_for_several_variables_is_computed_once() {
    let mut meta = Meta::new();
    let line = assign_exprs(
        vec!["a".into(), "b".into(), "c".into()],
        vec![OpExprInfo::Op(Op::Mul(Value::ResultHandle, "x".into(), "2".into()))],
        0,
        1,
        &mut meta,
    );
    assert_eq!(
        line,
        Ok(Expand(vec![
            Take("___0".into(), "a".into()).into(),
            Op::Mul("___0".into(), "x".into(), "2".into()).into(),
            set("b", "___0"),
            set("c", "___0"),
        ])
        .into())
    );
    let line = assign_exprs(
        vec!["a".into(), "b".into(), "c".into()],
        vec![OpExprInfo::Value("1".into()), OpExprInfo::Value("2".into())],
        4,
        8,
        &mut meta,
    );
    assert_eq!(line, Err(Error { start: 4, end: 8, err: Errors::SetVarNoPatternValue(3, 2) }));
}

#[test]
fn catchers_are_passed_by_on_the_complement() {
    assert_eq!(
        SwitchCatch::Overflow.build("x".into(), 8),
        JumpCmp::LessThanEq("x".into(), Value::ReprVar("8".into())).into()
    );
    assert_eq!(
        SwitchCatch::Underflow.build("x".into(), 8),
        JumpCmp::GreaterThanEq("x".into(), Value::ReprVar("0".into())).into()
    );
    let user: CmpTree = JumpCmp::Equal("a".into(), "b".into()).into();
    assert_eq!(
        SwitchCatch::UserDefine(user).build("x".into(), 8),
        JumpCmp::NotEqual("a".into(), "b".into()).into()
    );
    assert!(SwitchCatch::Misses.is_misses());
    assert!(!SwitchCatch::Overflow.is_misses());
}

#[test]
fn switch_without_cases_is_an_empty_table() {
    let mut meta = Meta::new();
    let line = build_switch("x".into(), vec![LogicLine::NoOp], vec![], vec![], vec![], &mut meta);
    assert_eq!(line, LogicLine::Select(mindustry_logic_bang_lang::syntax::ast::Select(
        "x".into(),
        Expand(vec![]),
    )));
    let catcher = Catcher {
        underflow: true,
        misses: false,
        overflow: true,
        user: None,
        name: None,
        body: vec![LogicLine::NoOp],
    };
    let line = build_switch("x".into(), vec![], vec![2], vec![vec![]], vec![catcher], &mut meta);
    let index = Value::Var("___0".into());
    let pass = CmpTree::And(
        Box::new(JumpCmp::GreaterThanEq(index.clone(), Value::ReprVar("0".into())).into()),
        Box::new(JumpCmp::LessThanEq(index.clone(), Value::ReprVar("2".into())).into()),
    );
    assert_eq!(
        line,
        Expand(vec![
            Take("___0".into(), "x".into()).into(),
            Expand(vec![Expand(vec![
                Goto("___0".into(), pass).into(),
                Expand(vec![LogicLine::NoOp]).into(),
                LogicLine::Label("___0".into()),
            ])
            .into()])
            .into(),
            mindustry_logic_bang_lang::syntax::ast::Select(
                index,
                Expand(vec![LogicLine::Ignore, LogicLine::Ignore, Expand(vec![]).into()]),
            )
            .into(),
        ])
        .into()
    );
}

#[test]
fn values_with_arguments_and_values_as_constants() {
    assert_eq!(
        quick_take("F".into(), vec!["1".into(), "x".into()]),
        DExp::new(
            "__".into(),
            vec![
                Const::new("_0".into(), "1".into()).into(),
                Const::new("_1".into(), "x".into()).into(),
                LogicLine::SetResultHandle("F".into()),
            ]
            .into()
        )
        .into()
    );
    let body = DExp::new_nores(vec![LogicLine::Label("l".into())].into());
    assert_eq!(
        consted(body.clone(), vec!["l".into()], "t".into()),
        DExp::new(
            "__".into(),
            vec![
                Const("t".into(), body.into(), vec!["l".into()]).into(),
                LogicLine::SetResultHandle("t".into()),
            ]
            .into()
        )
        .into()
    );
    let mut seen = Vec::new();
    Take::build_arg_consts(vec!["a".into(), "b".into()], |c| seen.push(c));
    assert_eq!(
        seen,
        vec![Const::new("_0".into(), "a".into()), Const::new("_1".into(), "b".into())]
    );
    assert_eq!(Take::new(vec![], "r".into(), true, "v".into()), Take("r".into(), "v".into()).into());
}

#[test]
fn constants_can_be_changed_in_place() {
    let mut meta = CompileMeta::new();
    meta.block_enter();
    assert!(meta.add_const_value(Const::new("A".into(), "1".into())).is_none());
    meta.block_enter();
    assert!(meta.add_const_value(Const::new("B".into(), "2".into())).is_none());
    assert_eq!(
        meta.add_const_value(Const::new("B".into(), "3".into())),
        Some((vec![], "2".into()))
    );
    assert_eq!(meta.get_const_value(&"A".to_string()), Some(&(vec![], "1".into())));
    assert_eq!(meta.get_const_value(&"B".to_string()), Some(&(vec![], "3".into())));
    assert_eq!(meta.get_const_value(&"C".to_string()), None);
    *meta.get_const_value_mut(&"A".to_string()).unwrap() = (vec!["l".into()], "9".into());
    assert!(meta.get_const_value_mut(&"C".to_string()).is_none());
    meta.add_const_value_leak("B".into());
    assert_eq!(meta.block_exit(), vec![]);
    assert_eq!(meta.get_const_value(&"A".to_string()), Some(&(vec!["l".into()], "9".into())));
    assert_eq!(meta.get_const_value(&"B".to_string()), Some(&(vec![], "3".into())));
    assert_eq!(
        meta.block_exit(),
        vec![
            ("A".to_string(), (vec!["l".to_string()], "9".into())),
            ("B".to_string(), (vec![], "3".into())),
        ]
    );
}

#[test]
fn handles_of_expressions_stack() {
    let mut meta = CompileMeta::new();
    meta.push_dexp_handle("a".into());
    meta.push_dexp_handle("b".into());
    assert_eq!(meta.dexp_handle(), "b");
    assert_eq!(meta.set_dexp_handle("c".into()), "b");
    assert_eq!(meta.pop_dexp_handle(), "c");
    assert_eq!(meta.pop_dexp_handle(), "a");
    meta.push("x".into());
    meta.push(TagLine::TagDown(3));
    assert_eq!(meta.tag_code_count(), 2);
    assert_eq!(meta.tag_code_count_no_tag(), 1);
    assert_eq!(meta.debug_tag_codes(), vec!["x", ":3"]);
    assert_eq!(meta.pop(), Some(TagLine::TagDown(3)));
    assert_eq!(meta.pop(), Some("x".into()));
    assert_eq!(meta.pop(), None);
}

#[test]
fn operations_know_their_names_and_signs() {
    let op = Op::Idiv("r".into(), "a".into(), "b".into());
    assert_eq!(op.oper_str(), "idiv");
    assert_eq!(op.oper_symbol_str(), "//");
    assert_eq!(op.get_result(), &Value::from("r"));
    let info = op.get_info();
    assert_eq!((info.oper_str, info.oper_sym), ("idiv", Some("//")));
    assert_eq!((info.result, info.arg1, info.arg2), (&"r".into(), &"a".into(), Some(&"b".into())));
    let mut op = Op::Floor("r".into(), "a".into());
    assert_eq!((op.oper_str(), op.oper_symbol_str()), ("floor", "floor"));
    *op.get_result_mut() = Value::ResultHandle;
    let info = op.into_info();
    assert_eq!((info.oper_sym, info.result, info.arg2), (None, Value::ResultHandle, None));
    assert_eq!(OpKind::from_name("xor"), Some(OpKind::Xor));
    assert_eq!(OpKind::from_name("nope"), None);
    assert_eq!(JumpCmp::StrictNotEqual("a".into(), "b".into()).get_symbol_cmp_str(), "!==");
    assert_eq!(JumpCmp::LessThanEq("a".into(), "b".into()).cmp_str(), "lessThanEq");
    assert_eq!(JumpCmp::Always.cmp_str(), "always");
    assert_eq!(
        JumpCmp::NotAlways.get_values(),
        (Value::ReprVar("0".into()), Value::ReprVar("0".into()))
    );
    assert_eq!(
        JumpCmp::NotAlways.do_start_compile_into(),
        JumpCmp::NotEqual(Value::ReprVar("0".into()), Value::ReprVar("0".into()))
    );
    assert_eq!(
        CmpTree::new_ors(vec![JumpCmp::Always.into(), JumpCmp::NotAlways.into()]),
        Some(CmpTree::Or(Box::new(JumpCmp::Always.into()), Box::new(JumpCmp::NotAlways.into())))
    );
    assert_eq!(CmpTree::new_ands(vec![]), None);
}

#[test]
fn errors_say_what_is_wrong() {
    let e = JumpCmpRParseError::ArgsCountError(vec!["always".into(), "0".into()]);
    assert_eq!(e.message(), "wrong number of words: expected 3, found 2: always 0");
    let e: LogicLineFromTagError =
        OpRParseError::UnknownOper("plus".into(), ["a".into(), "b".into()]).into();
    assert_eq!(e.message(), "unknown operation: plus, with the operands: a b");
    let e = LogicLineFromTagError::StringNoStop { str: "print \"x".into(), char_num: 7 };
    assert_eq!(e.message(), "unclosed string, which begins at character 7 of the line: print \"x");
}

#[test]
fn items_are_written_with_a_splitter_between() {
    let mut meta = DisplaySourceMeta::new();
    let items: Vec<Value> = vec!["a".into(), Value::ResultHandle, Value::ReprVar("if".into())];
    meta.display_source_iter_by_splitter(|m| m.push(", "), &items);
    assert_eq!(meta.buffer(), "a, $, `'if'`");
    assert_eq!(meta.len(), 12);
    meta.set_space_str("  ".into());
    meta.set_indent_str("\t".into());
    meta.add_lf();
    meta.do_block(|m| {
        assert_eq!(m.indent_level(), 1);
        let shown = JumpCmp::LessThan("a".into(), "b".into()).display_source_and_get(m);
        assert_eq!(shown, "\ta  <  b");
    });
    assert_eq!((meta.indent_str(), meta.space_str(), meta.indent_level()), ("\t", "  ", 0));
    assert_eq!(meta.written_from(12), "\n\ta  <  b");
}

#[test]
fn tags_stay_with_their_value() {
    let boxed = TagBox::new(5);
    assert_eq!(boxed.tag(), None);
    assert_eq!((boxed.tags(), boxed.data()), (&vec![], &5));
    let line = TagLine::default().with_tags(&vec![3, 4]);
    assert_eq!(line.tags(), vec![3, 4]);
    assert_eq!(line.to_text(), ":3 :4 noop");
    assert_eq!(line.without_tags(), TagLine::default());
    assert!(line.is_line() && !line.is_jump() && !line.is_tag_down());
    assert_eq!(TagLine::TagDown(7).as_tag_down(), Some(7));
    assert_eq!(line.as_tag_down(), None);
}

#[test]
fn control_structures_are_blocks_of_jumps_and_labels() {
    let cond = || -> CmpTree { JumpCmp::LessThan("a".into(), "b".into()).into() };
    let body = || LogicLine::Other(vec!["foo".into()]);
    let always = || -> CmpTree { JumpCmp::Always.into() };
    let label = |s: &str| LogicLine::Label(s.into());
    let goto = |s: &str, c: CmpTree| -> LogicLine { Goto(s.into(), c).into() };

    let mut meta = Meta::new();
    assert_eq!(
        build_skip(cond(), body(), &mut meta),
        Expand(vec![goto("___0", cond()), body(), label("___0")]).into()
    );
    let mut meta = Meta::new();
    assert_eq!(
        build_if(cond(), body(), vec![], vec![], None, &mut meta),
        Expand(vec![goto("___0", cond().reverse()), body(), label("___0")]).into()
    );
    let mut meta = Meta::new();
    assert_eq!(
        build_if(cond(), body(), vec![always()], vec![LogicLine::NoOp], Some(LogicLine::Ignore), &mut meta),
        Expand(vec![
            goto("___1", cond()),
            goto("___2", always()),
            LogicLine::Ignore,
            goto("___0", always()),
            label("___2"),
            LogicLine::NoOp,
            goto("___0", always()),
            label("___1"),
            body(),
            label("___0"),
        ])
        .into()
    );
    meta.add_label_scope();
    assert_eq!(
        build_while(cond(), body(), Some("out".into()), Some("next".into()), &mut meta),
        Expand(vec![
            goto("___3", cond().reverse()),
            label("___4"),
            body(),
            label("next"),
            goto("___4", cond()),
            label("___3"),
            label("out"),
        ])
        .into()
    );
    assert_eq!(meta.pop_label_scope(), vec!["___4", "next", "___3", "out"]);
    assert_eq!(
        build_gwhile(cond(), body(), None, Some("next".into()), &mut meta),
        Expand(vec![
            goto("___5", always()),
            label("___6"),
            body(),
            label("___5"),
            label("next"),
            goto("___6", cond()),
        ])
        .into()
    );
    assert_eq!(
        build_do_while(cond(), body(), Some("out".into()), None, &mut meta),
        Expand(vec![label("___7"), body(), goto("___7", cond()), label("out")]).into()
    );
    assert_eq!(
        with_targets(vec![body()], None, Some("top".into()), &mut meta),
        vec![label("top"), body()]
    );
    assert_eq!(wrap_targets(body(), None, None, &mut meta), body());
    assert_eq!(
        wrap_targets(body(), Some("end".into()), None, &mut meta),
        Expand(vec![body(), label("end")]).into()
    );
    let print = |v: &str| LogicLine::Other(vec![Value::ReprVar("print".into()), v.into()]);
    assert_eq!(build_print(vec!["a".into()]), print("a"));
    assert_eq!(
        build_print(vec!["a".into(), "b".into()]),
        Expand(vec![print("a"), print("b")]).into()
    );
}

#[test]
fn a_value_tells_what_it_is() {
    let var: Value = "a".into();
    let repr = Value::ReprVar("b".into());
    let mut dexp = Value::DExp(DExp::new("r".into(), Expand(vec![LogicLine::NoOp])));
    assert!(var.is_var() && !var.is_repr_var() && !var.is_dexp());
    assert!(repr.is_repr_var() && !repr.is_var());
    assert_eq!(var.as_var(), Some(&"a".to_string()));
    assert_eq!(var.as_repr_var(), None);
    assert_eq!(repr.as_repr_var(), Some(&"b".to_string()));
    assert_eq!(repr.as_var(), None);
    assert_eq!(var.as_dexp(), None);
    assert_eq!(dexp.as_dexp(), Some(&DExp::new("r".into(), Expand(vec![LogicLine::NoOp]))));
    let inner = dexp.as_dexp_mut().unwrap();
    inner.lines_mut().0.push(LogicLine::Ignore);
    assert_eq!(
        dexp,
        Value::DExp(DExp::new("r".into(), Expand(vec![LogicLine::NoOp, LogicLine::Ignore])))
    );
    let mut plain: Value = "a".into();
    assert!(plain.as_dexp_mut().is_none());
}

#[test]
fn an_expression_may_leave_its_handle_open() {
    assert_eq!(
        DExp::new_optional_res(Some("r".into()), Expand(vec![LogicLine::NoOp])),
        DExp::new("r".into(), Expand(vec![LogicLine::NoOp]))
    );
    assert_eq!(
        DExp::new_optional_res(None, Expand(vec![LogicLine::NoOp])),
        DExp::new_nores(Expand(vec![LogicLine::NoOp]))
    );
    assert_eq!(DExp::new_nores(Expand(vec![])).result(), "");
}

#[test]
fn a_statement_tells_what_it_is() {
    let op = LogicLine::Op(Op::Add("x".into(), "1".into(), "2".into()));
    let label = LogicLine::Label("l".into());
    let goto = LogicLine::Goto(Goto("l".into(), JumpCmp::Always.into()));
    let other = LogicLine::Other(vec!["a".into(), "b".into()]);
    let block = LogicLine::Expand(Expand(vec![LogicLine::NoOp]));
    assert!(op.is_op() && !op.is_label() && !op.is_goto() && !op.is_other() && !op.is_expand());
    assert!(label.is_label() && !label.is_op());
    assert!(goto.is_goto() && !goto.is_label());
    assert!(other.is_other() && !other.is_expand());
    assert!(block.is_expand() && !block.is_other());
    assert_eq!(op.as_op(), Some(&Op::Add("x".into(), "1".into(), "2".into())));
    assert_eq!(label.as_op(), None);
    assert_eq!(label.as_label(), Some(&"l".to_string()));
    assert_eq!(op.as_label(), None);
    assert_eq!(goto.as_goto(), Some(&Goto("l".into(), JumpCmp::Always.into())));
    assert_eq!(other.as_other(), Some(&vec!["a".into(), "b".into()]));
    assert_eq!(block.as_other(), None);
    assert_eq!(block.as_expand(), Some(&Expand(vec![LogicLine::NoOp])));
    assert_eq!(other.as_expand(), None);
    let mut op = op;
    *op.as_op_mut().unwrap().get_result_mut() = "y".into();
    assert_eq!(op, LogicLine::Op(Op::Add("y".into(), "1".into(), "2".into())));
    let mut label = label;
    assert!(label.as_op_mut().is_none());
}

#[test]
fn a_comparison_hands_out_its_operands() {
    let cmp = JumpCmp::LessThan("a".into(), "b".into());
    let (a, b) = cmp.get_values_ref().unwrap();
    assert_eq!((a, b), (&Value::from("a"), &Value::from("b")));
    assert_eq!(JumpCmp::Always.get_values_ref(), None);
    assert_eq!(JumpCmp::NotAlways.get_values_ref(), None);
}

#[test]
fn a_comparison_with_false_of_a_comparing_operation_is_the_comparison() {
    let wrapped = |op: Op| Value::DExp(DExp::new_nores(Expand(vec![LogicLine::Op(op)])));
    let no = || Value::ReprVar("false".into());
    // `(op $ a < b;) != false` is `a < b`
    let mut cmp = JumpCmp::NotEqual(
        wrapped(Op::LessThan(Value::ResultHandle, "a".into(), "b".into())),
        no(),
    );
    cmp.inline_cmp_op();
    assert_eq!(cmp, JumpCmp::LessThan("a".into(), "b".into()));
    // `(op $ a < b;) == false` is its complement
    let mut cmp = JumpCmp::Equal(
        wrapped(Op::LessThan(Value::ResultHandle, "a".into(), "b".into())),
        no(),
    );
    cmp.inline_cmp_op();
    assert_eq!(cmp, JumpCmp::GreaterThanEq("a".into(), "b".into()));
    // wrappers inside wrappers come off one after another
    let mut cmp = JumpCmp::NotEqual(
        wrapped(Op::NotEqual(
            Value::ResultHandle,
            wrapped(Op::GreaterThan(Value::ResultHandle, "a".into(), "b".into())),
            no(),
        )),
        no(),
    );
    cmp.inline_cmp_op();
    assert_eq!(cmp, JumpCmp::GreaterThan("a".into(), "b".into()));
    // an operation that does not compare stays
    let mut cmp = JumpCmp::NotEqual(
        wrapped(Op::Add(Value::ResultHandle, "a".into(), "b".into())),
        no(),
    );
    cmp.inline_cmp_op();
    assert_eq!(
        cmp,
        JumpCmp::NotEqual(wrapped(Op::Add(Value::ResultHandle, "a".into(), "b".into())), no())
    );
    // so does one whose result has a name
    let mut cmp = JumpCmp::NotEqual(wrapped(Op::LessThan("x".into(), "a".into(), "b".into())), no());
    cmp.inline_cmp_op();
    assert_eq!(
        cmp,
        JumpCmp::NotEqual(wrapped(Op::LessThan("x".into(), "a".into(), "b".into())), no())
    );
}

#[test]
fn the_operands_of_a_comparison_resolve_in_turn() {
    let mut meta = CompileMeta::new();
    let first = Value::DExp(DExp::new_nores(Expand(vec![LogicLine::Other(vec![
        "read".into(),
        Value::ResultHandle,
        "cell1".into(),
        "0".into(),
    ])])));
    let second = Value::DExp(DExp::new_nores(Expand(vec![LogicLine::Other(vec![
        "read".into(),
        Value::ResultHandle,
        "cell1".into(),
        "1".into(),
    ])])));
    let handles = JumpCmp::LessThan(first, second).build_value(&mut meta);
    assert_eq!(handles, Ok(("__0".to_string(), "__1".to_string())));
    assert_eq!(
        meta.into_tag_codes().compile().unwrap(),
        vec!["read __0 cell1 0", "read __1 cell1 1"]
    );
    let mut meta = CompileMeta::new();
    assert_eq!(
        JumpCmp::Always.build_value(&mut meta),
        Ok(("0".to_string(), "0".to_string()))
    );
}

#[test]
fn names_are_written_as_the_language_reads_them() {
    let mut meta = DisplaySourceMeta::new();
    assert_eq!("abc".display_source_and_get(&mut meta), "abc");
    assert_eq!("a b".to_string().display_source_and_get(&mut meta), "'a b'");
    "@x".display_source(&mut meta);
    assert_eq!(meta, "abc'a b'@x");
    assert!(meta == *"abc'a b'@x");
    assert!(!(meta == *"abc"));
    let text: &str = &meta;
    assert_eq!(text, "abc'a b'@x");
    assert!(meta.starts_with("abc"));
    let value: Value = "x".into();
    assert_eq!((&value).display_source_and_get(&mut meta), "x");
    (&&value).display_source(&mut meta);
    assert_eq!(meta.buffer(), "abc'a b'@xxx");
}

#[test]
fn digits_are_read_in_their_base() {
    use_radix("ff", 0, 16, Ok(255));
    use_radix("0xFf", 2, 16, Ok(255));
    use_radix("0b101", 2, 2, Ok(5));
    use_radix("123", 0, 10, Ok(123));
    use_radix("123", 3, 10, Err(UIntError::Empty));
    use_radix("", 0, 10, Err(UIntError::Empty));
    use_radix("12a", 0, 10, Err(UIntError::InvalidDigit));
    use_radix("102", 0, 2, Err(UIntError::InvalidDigit));
    use_radix("18446744073709551615", 0, 10, Ok(usize::MAX));
    use_radix("18446744073709551616", 0, 10, Err(UIntError::Overflow));
    use_radix("ffffffffffffffff", 0, 16, Ok(usize::MAX));
    use_radix("10000000000000000", 0, 16, Err(UIntError::Overflow));
    // an invalid digit is found before the number is too large
    use_radix("99999999999999999999999x", 0, 10, Err(UIntError::InvalidDigit));
}

fn use_radix(text: &str, from: usize, base: usize, expected: Result<usize, UIntError>) {
    let chars: Vec<char> = text.chars().collect();
    assert_eq!(read_radix(&chars, from, base), expected, "{text} from {from} in base {base}");
}

#[test]
fn an_error_is_made_of_its_positions_and_its_kind() {
    let expected = Error { start: 3, end: 9, err: Errors::SetVarNoPatternValue(2, 3) };
    assert_eq!(Error::from((3, Errors::SetVarNoPatternValue(2, 3), 9)), expected);
    assert_eq!(Error::from(([3, 9], Errors::SetVarNoPatternValue(2, 3))), expected);
    assert_eq!(Error::from(((3, 9), Errors::SetVarNoPatternValue(2, 3))), expected);
}
