use mindustry_logic_bang_lang::display_source::{DisplaySource, DisplaySourceMeta};
use mindustry_logic_bang_lang::syntax::api::{Compile, TakeHandle};
use mindustry_logic_bang_lang::syntax::ast::{
    CmpTree, Const, DExp, Expand, JumpCmp, LogicLine, Op, Take, Value, ValueBind,
};
use mindustry_logic_bang_lang::syntax::def::entry::{
    parse, JumpCmpParser, LiteralUIntParser, LogicLineParser, TopLevelParser, ValueParser,
};
use mindustry_logic_bang_lang::syntax::def::parser::ParseError;
use mindustry_logic_bang_lang::syntax::import::{
    FromMdtArgs, LogicLineFromTagError, OpRParseError,
};
use mindustry_logic_bang_lang::syntax::meta::CompileMeta;
use mindustry_logic_bang_lang::syntax::model::CompileError;
use mindustry_logic_bang_lang::syntax::parse_meta::{Error, Errors, Meta, UIntError};
use mindustry_logic_bang_lang::tag_code::{mdt_logic_split, Jump, TagCodes, TagLine};
use mindustry_logic_bang_lang::text::usize_text;

fn compile(src: &str) -> Vec<String> {
    let ast = parse(src).unwrap();
    CompileMeta::new().compile(ast).unwrap().compile().unwrap()
}

fn failure_of(src: &str) -> CompileError {
    let ast = parse(src).unwrap();
    match CompileMeta::new().compile(ast) {
        Ok(_) => panic!("compiles"),
        Err(e) => e,
    }
}

#[test]
fn expressions_in_operands_get_fresh_handles() {
    assert_eq!(
        compile("op x 1 + 2;\nop y (op $ x + 3;) * (op $ x * 2;);"),
        vec!["op add x 1 2", "op add __0 x 3", "op mul __1 x 2", "op mul y __0 __1"],
    );
}

#[test]
fn jump_to_label_gets_line_number() {
    assert_eq!(compile("goto :x _; :x end;"), vec!["jump 1 always 0 0", "end"]);
}

#[test]
fn each_use_of_a_constant_expands_it() {
    assert_eq!(
        compile("const C = (read $ cell1 0;); x = C; y = C;"),
        vec!["read __0 cell1 0", "set x __0", "read __1 cell1 0", "set y __1"],
    );
}

#[test]
fn select_pads_branches_to_the_longest() {
    assert_eq!(
        compile("select 1 { print 0; print 1 \" is one!\"; print 2; }"),
        vec![
            "op mul __0 1 2",
            "op add @counter @counter __0",
            "print 0",
            "noop",
            "print 1",
            "print \" is one!\"",
            "print 2",
            "noop",
        ],
    );
}

#[test]
fn select_takes_head_and_branches_times_longest() {
    // three branches of 1, 3 and 2 instructions behind a head of two
    let lines = compile("select i { a; { b; c; d; } { e; f; } }");
    assert_eq!(lines.len(), 2 + 3 * 3);
    assert_eq!(lines[0], "op mul __0 i 3");
    // one instruction in each branch: a head of one, and no filling
    let lines = compile("select i { a; b; c; d; }");
    assert_eq!(lines.len(), 1 + 4 * 1);
    // no instruction at all: only what the index needs
    let lines = compile("select (op $ i + 1;) { :a :b }");
    assert_eq!(lines, vec!["op add __0 i 1"]);
}

#[test]
fn conditions_short_circuit() {
    assert_eq!(
        compile("goto :end a && b || c && d; foo; :end end;"),
        vec![
            "jump 2 equal a false",
            "jump 5 notEqual b false",
            "jump 4 equal c false",
            "jump 5 notEqual d false",
            "foo",
            "end",
        ],
    );
}

#[test]
fn disjunction_is_two_adjacent_jumps() {
    assert_eq!(
        compile("goto :l a < b || c > d; x; :l y;"),
        vec!["jump 3 lessThan a b", "jump 3 greaterThan c d", "x", "y"],
    );
}

#[test]
fn constant_keeps_what_it_was_bound_to() {
    assert_eq!(compile("const A = 1; const B = A; const A = 2; print A B;"), vec!["print 2", "print 1"]);
    // with a body that has a label: the binding is the old body, labels and all
    assert_eq!(
        compile(
            "const A = (:l goto :l _;); const B = A; const A = (noop;); take B; take A; take B;"
        ),
        vec!["jump 0 always 0 0", "noop", "jump 2 always 0 0"],
    );
}

#[test]
fn labels_of_a_constant_are_fresh_in_each_expansion() {
    let lines = compile("const L = (:top foo; goto :top _;); take L; take L; take L;");
    assert_eq!(
        lines,
        vec![
            "foo",
            "jump 0 always 0 0",
            "foo",
            "jump 2 always 0 0",
            "foo",
            "jump 4 always 0 0",
        ],
    );
}

#[test]
fn expansion_renames_labels_with_temporary_tag_and_names() {
    let mut meta = CompileMeta::new();
    meta.block_enter();
    let body = Value::DExp(DExp::new_nores(Expand(vec![LogicLine::Label("top".into())])));
    assert!(meta.add_const_value(Const("M".into(), body.clone(), vec!["top".into()])).is_none());
    assert_eq!(meta.const_expand_enter(&"M".to_string()), Some(body.clone()));
    assert_eq!(meta.get_in_const_label("top".into()), "__0_const_M_top");
    assert_eq!(meta.get_in_const_label("other".into()), "other");
    assert_eq!(meta.const_expand_enter(&"M".to_string()), Some(body));
    assert_eq!(meta.get_in_const_label("top".into()), "__1_const_M_top");
    assert_eq!(
        meta.const_expand_exit(),
        vec![("top".to_string(), "__1_const_M_top".to_string())]
    );
    assert_eq!(meta.get_in_const_label("top".into()), "__0_const_M_top");
    assert_eq!(meta.const_expand_enter(&"N".to_string()), None);
}

#[test]
fn reversing_twice_gives_the_tree_back() {
    let tree = JumpCmpParser::new()
        .parse(&mut Meta::new(), "a < b && (c === d || !_) || e !== f && g")
        .unwrap();
    assert_ne!(tree.clone().reverse(), tree);
    assert_eq!(tree.clone().reverse().reverse(), tree);
    let atom: CmpTree = JumpCmp::Always.into();
    assert_eq!(atom.clone().reverse(), JumpCmp::NotAlways.into());
    assert_eq!(atom.clone().reverse().reverse(), atom);
}

#[test]
fn temporaries_and_tags_are_never_handed_out_twice() {
    let mut meta = CompileMeta::new();
    let a = meta.get_tmp_var();
    let b = meta.get_tmp_var();
    let c = meta.get_tmp_tag();
    let d = meta.get_tmp_tag();
    assert_eq!((a.as_str(), b.as_str()), ("__0", "__1"));
    assert_eq!((c.as_str(), d.as_str()), ("__0", "__1"));
    assert_eq!(meta.get_tag("x".into()), 0);
    assert_eq!(meta.get_tag("y".into()), 1);
    assert_eq!(meta.get_tag("x".into()), 0);
    assert_eq!(meta.get_tag("z".into()), 2);
    assert_eq!(meta.tags_map(), &vec!["x".to_string(), "y".to_string(), "z".to_string()]);
    let mut meta = Meta::new();
    assert_eq!(meta.get_tmp_var(), "___0");
    assert_eq!(meta.get_tag(), "___0");
    assert_eq!(meta.get_tag(), "___1");
    assert_eq!(meta.get_tmp_var(), "___1");
}

#[test]
fn source_text_reads_back_as_the_same_tree() {
    let sources = [
        "op x 1 + 2; op y (op $ x + 3;) * (op $ x * 2;);",
        "goto :end a && b || !c && d; foo; :end end;",
        "print (res: noop; $ = x;) a.b.c `x` 'a-b' \"str\";",
        "select x { print 1; { print 2; print 3; } }",
        "inline { foo; } setres (x: op $ ~ y;); op z max a b;",
        "take V = (read $ cell1 0;); print V;",
        "const F = (:again foo; goto :again x < 2;); take F; take[a b] F;",
        "if a < b { x = 1; } elif c { x = 2; } else { x = 3; }",
        "while i < 10 { op i i + 1; if i == 5 break; continue; }",
        "do { x = max(x, 2 ** y); } while x !== null; gwhile a b;",
        "switch n { end; case 0: a; case 2 3: b; case ! m: c; }",
        "a, b = if x ? 1 : -y, len(p, q) // 2; 'take' 'if' \"a b\";",
    ];
    for src in sources {
        let ast = parse(src).unwrap();
        let mut meta = DisplaySourceMeta::new();
        ast.display_source(&mut meta);
        let shown = meta.into_buffer();
        assert_eq!(parse(&shown).unwrap(), ast, "shown as:\n{}", shown);
    }
}

#[test]
fn a_quoted_number_with_underscores_reads_back_without_them() {
    // the name `1_000` is a number as the language writes them, so it is
    // written bare; read again, the number loses its `_`
    let ast = parse("'1_000';").unwrap();
    assert_eq!(ast, Expand(vec![LogicLine::Other(vec!["1_000".into()])]));
    let mut meta = DisplaySourceMeta::new();
    ast.display_source(&mut meta);
    assert_eq!(meta.buffer(), "1_000;\n");
    assert_eq!(
        parse(meta.buffer()).unwrap(),
        Expand(vec![LogicLine::Other(vec!["1000".into()])])
    );
}

#[test]
fn a_leak_is_written_as_a_comment_and_does_not_read_back() {
    let ast = parse("take[a] R = F;").unwrap();
    assert_eq!(
        ast,
        Expand(vec![Expand(vec![
            Const("_0".into(), "a".into(), vec![]).into(),
            Take("R".into(), "F".into()).into(),
            LogicLine::ConstLeak("R".into()),
        ])
        .into()])
    );
    let mut meta = DisplaySourceMeta::new();
    ast.display_source(&mut meta);
    assert_eq!(
        meta.buffer(),
        "{\n    const _0 = a; # labels: []\n    take R = F;\n    # constleak R;\n}\n"
    );
    assert_eq!(
        parse(meta.buffer()).unwrap(),
        Expand(vec![Expand(vec![
            Const("_0".into(), "a".into(), vec![]).into(),
            Take("R".into(), "F".into()).into(),
        ])
        .into()])
    );
}

#[test]
fn named_expression_without_statements_emits_nothing() {
    assert_eq!(compile("print (x:);"), vec!["print x"]);
}

#[test]
fn attribute_names_are_made_of_handle_and_attribute() {
    assert_eq!(compile("print a.b;"), vec!["print __a__bind__b"]);
    assert_eq!(compile("const A = x; print A.size;"), vec!["print __x__bind__size"]);
}

#[test]
fn operation_on_one_value_writes_zero_for_the_other() {
    assert_eq!(compile("op x ~ y;"), vec!["op not x y 0"]);
    assert_eq!(compile("op x sin y 0;"), vec!["op sin x y 0"]);
    assert_eq!(compile("x = -y;"), vec!["op sub x 0 y"]);
}

#[test]
fn greater_than_inlines_as_greater_than() {
    assert_eq!(compile(":0 goto :0 (op $ a > b;);"), vec!["jump 0 greaterThan a b"]);
    assert_eq!(compile(":0 goto :0 !(op $ a > b;);"), vec!["jump 0 lessThanEq a b"]);
    assert_eq!(
        Op::GreaterThan(Value::ResultHandle, "b".into(), "c".into()).try_into_cmp(),
        Some(JumpCmp::GreaterThan("b".into(), "c".into())),
    );
}

#[test]
fn errors_of_handles() {
    assert_eq!(failure_of("print $;"), CompileError::OutOfDExp);
    assert_eq!(failure_of("setres x;"), CompileError::OutOfDExp);
    assert_eq!(
        failure_of("const R = (x: noop;); print (R: noop;);"),
        CompileError::ConstRebindAsDExpHandle
    );
    assert_eq!(
        failure_of("print (const R = a.b; setres (R: noop;););"),
        CompileError::ConstRebindNotVar
    );
    assert_eq!(failure_of("print \"text\".len;"), CompileError::StringAsBindBase);
    let bind = ValueBind(Box::new("a".into()), "\"attr\"".into());
    let mut meta = CompileMeta::new();
    assert_eq!(bind.take_handle(&mut meta), Err(CompileError::StringAsBindAttr));
}

#[test]
fn errors_of_blocks() {
    let mut meta = CompileMeta::new();
    let line: LogicLine = Const::new("A".into(), "1".into()).into();
    assert_eq!(line.compile(&mut meta), Err(CompileError::NoBlock));
    let mut meta = CompileMeta::new();
    assert_eq!(LogicLine::ConstLeak("A".into()).compile(&mut meta), Err(CompileError::NoBlock));
    let ast = Expand(vec![Expand(vec![LogicLine::ConstLeak("A".into())]).into()]);
    assert_eq!(CompileMeta::new().compile(ast).err(), Some(CompileError::LeakUnbound));
    let ast = Expand(vec![
        Const::new("A".into(), "1".into()).into(),
        LogicLine::ConstLeak("A".into()),
    ]);
    assert_eq!(CompileMeta::new().compile(ast).err(), Some(CompileError::LeakAtRoot));
}

#[test]
fn constant_that_uses_itself_hits_the_depth_limit() {
    assert_eq!(failure_of("const A = (print A;); take A;"), CompileError::RecursionLimit);
}

#[test]
fn tags_resolve_to_the_next_instruction() {
    let mut codes = TagCodes::new();
    codes.push(TagLine::Jump(Jump(3, "always 0 0".into()).into()));
    codes.push(TagLine::TagDown(1));
    codes.push(TagLine::TagDown(2));
    codes.push("a".into());
    codes.push(TagLine::Jump(Jump(1, "equal x y".into()).into()));
    codes.push(TagLine::Jump(Jump(2, "always 0 0".into()).into()));
    codes.push(TagLine::Jump(Jump(9, "always 0 0".into()).into()));
    codes.push(TagLine::TagDown(3));
    assert_eq!(codes.len(), 8);
    assert_eq!(codes.count_no_tag(), 5);
    assert_eq!(
        codes.compile().unwrap(),
        vec![
            // a tag behind the last instruction points at the first
            "jump 0 always 0 0",
            "a",
            // two tags in front of one instruction point at it both
            "jump 1 equal x y",
            "jump 1 always 0 0",
            // a tag that is defined nowhere points at the first
            "jump 0 always 0 0",
        ],
    );
    codes.push(TagLine::TagDown(1));
    assert_eq!(codes.compile(), Err((8, 1)));
    assert_eq!(codes.build_tagdown(), Err((8, 1)));
    assert_eq!(codes.len(), 9);
}

#[test]
fn tags_fold_into_instructions_and_back() {
    let mut codes = TagCodes::new();
    codes.push(TagLine::TagDown(4));
    codes.push(TagLine::TagDown(5));
    codes.push("a".into());
    codes.push(TagLine::Jump(Jump(4, "always 0 0".into()).into()));
    codes.push(TagLine::TagDown(6));
    let unfolded = codes.clone();
    codes.build_tagdown().unwrap();
    assert_eq!(codes.len(), 3);
    assert_eq!(codes.lines()[0].tags(), vec![4, 5]);
    assert_eq!(codes.lines()[2], TagLine::TagDown(6));
    assert_eq!(codes.compile().unwrap(), unfolded.compile().unwrap());
    codes.tag_up();
    assert_eq!(codes, unfolded);
}

#[test]
fn lines_split_into_words_and_strings() {
    assert_eq!(mdt_logic_split("  a  b\tc "), Ok(vec!["a".into(), "b".into(), "c".into()]));
    assert_eq!(
        mdt_logic_split("print \"a b\"c"),
        Ok(vec!["print".into(), "\"a b\"".into(), "c".into()])
    );
    assert_eq!(mdt_logic_split(""), Ok(vec![]));
    assert_eq!(mdt_logic_split("ab \"cd"), Err(4));
    assert_eq!(mdt_logic_split("你好 \"x"), Err(4));
}

#[test]
fn numbered_programs_are_read_back() {
    let codes = TagCodes::from_str("a\n\njump 0 always 0 0\njump 7 equal  x \"y z\"\n").unwrap();
    assert_eq!(
        codes.lines(),
        &vec![
            TagLine::TagDown(0),
            "a".into(),
            TagLine::Jump(Jump(0, "always 0 0".into()).into()),
            TagLine::Jump(Jump(7, "equal x \"y z\"".into()).into()),
            TagLine::TagDown(7),
        ]
    );
    assert_eq!(TagCodes::from_str("a\njump x always 0 0"), Err(1));
    assert_eq!(TagCodes::from_str("jump"), Err(0));
    assert_eq!(TagCodes::from_str("jump 99999999999999999999999 always 0 0"), Err(0));
}

#[test]
fn words_that_spell_no_operation_are_errors() {
    let words = |s: &str| mdt_logic_split(s).unwrap();
    assert_eq!(
        Op::from_mdt_args(&words("add a b")),
        Err(OpRParseError::ArgsCountError(vec!["add".into(), "a".into(), "b".into()]))
    );
    assert_eq!(
        Op::from_mdt_args(&words("plus r a b")),
        Err(OpRParseError::UnknownOper("plus".into(), ["a".into(), "b".into()]))
    );
    assert_eq!(Op::from_mdt_args(&words("sin r a 0")), Ok(Op::Sin("r".into(), "a".into())));
    assert_eq!(
        Op::from_mdt_args(&words("noise r a b")),
        Ok(Op::Noise("r".into(), "a".into(), "b".into()))
    );
    let line: TagLine = "print \"abc".into();
    assert_eq!(
        LogicLine::try_from(&line),
        Err(LogicLineFromTagError::StringNoStop { str: "print \"abc".into(), char_num: 7 })
    );
    let line: TagLine = "op add a b".into();
    assert_eq!(
        LogicLine::try_from(&line),
        Err(LogicLineFromTagError::OpRParseError(OpRParseError::ArgsCountError(vec![
            "add".into(),
            "a".into(),
            "b".into()
        ])))
    );
}

#[test]
fn texts_that_are_no_programs() {
    let top = TopLevelParser::new();
    assert_eq!(
        top.parse(&mut Meta::new(), "print \\;"),
        Err(ParseError::InvalidToken { location: 6 })
    );
    assert_eq!(top.parse(&mut Meta::new(), "print a"), Err(ParseError::UnrecognizedEof));
    assert_eq!(
        top.parse(&mut Meta::new(), "print a; }"),
        Err(ParseError::UnrecognizedToken { location: 9 })
    );
    assert_eq!(
        top.parse(&mut Meta::new(), "a, b, c = 1, 2;"),
        Err(ParseError::User {
            error: Error { start: 0, end: 15, err: Errors::SetVarNoPatternValue(3, 2) }
        })
    );
    assert_eq!(
        top.parse(&mut Meta::new(), "switch x { case 1.5: }"),
        Err(ParseError::User {
            error: Error {
                start: 16,
                end: 19,
                err: Errors::NotALiteralUInteger("1.5".into(), UIntError::InvalidDigit)
            }
        })
    );
    let number = LiteralUIntParser::new();
    assert_eq!(number.parse(&mut Meta::new(), "0x"), Err(ParseError::UnrecognizedToken { location: 1 }));
    assert!(matches!(
        number.parse(&mut Meta::new(), "99999999999999999999999"),
        Err(ParseError::User {
            error: Error { err: Errors::NotALiteralUInteger(_, UIntError::Overflow), .. }
        })
    ));
    assert_eq!(number.parse(&mut Meta::new(), "0xff"), Ok(255));
    assert_eq!(number.parse(&mut Meta::new(), "0b101"), Ok(5));
    let deep = "(".repeat(3000);
    assert_eq!(ValueParser::new().parse(&mut Meta::new(), &deep), Err(ParseError::TooDeep));
}

#[test]
fn numbers_are_written_in_decimal() {
    assert_eq!(usize_text(0), "0");
    assert_eq!(usize_text(7), "7");
    assert_eq!(usize_text(1203), "1203");
    assert_eq!(usize_text(usize::MAX), usize::MAX.to_string());
}

#[test]
fn names_are_written_bare_or_quoted() {
    assert!(Value::is_ident("abc"));
    assert!(Value::is_ident("_x1"));
    assert!(Value::is_ident("你我他"));
    assert!(Value::is_ident("@a-b"));
    assert!(Value::is_ident("-12.5"));
    assert!(Value::is_ident("0x-ff"));
    assert!(Value::is_ident("0b01_10"));
    assert!(!Value::is_ident("a-b"));
    assert!(!Value::is_ident("1._2"));
    assert!(!Value::is_ident("-0x8f"));
    assert!(!Value::is_ident("a b"));
    assert!(!Value::is_ident(""));
    assert!(!Value::is_ident("@"));
    assert!(Value::is_ident_keyword("goto"));
    assert!(Value::is_ident_keyword("max"));
    assert!(!Value::is_ident_keyword("foo"));
    assert!(Value::is_string("\"\""));
    assert!(!Value::is_string("\""));
    assert!(Value::no_use_repr_var("\"a b\""));
    assert!(!Value::no_use_repr_var("take"));
    assert_eq!(Value::replace_ident("abc"), "abc");
    assert_eq!(Value::replace_ident("take"), "'take'");
    assert_eq!(Value::replace_ident("a'b c"), "'a\"b c'");
}

#[test]
fn state_is_listed_for_error_messages() {
    let ast = parse(":top foo; goto :top a < b;").unwrap();
    let meta = CompileMeta::new().compile_res_self(ast).unwrap();
    assert_eq!(
        meta.err_info(),
        vec![
            "Tags by id:",
            "\t0 \t-> top",
            "Emitted code:",
            "\t:0",
            "\tfoo",
            "\tjump :0 lessThan a b",
        ],
    );
}

#[test]
fn switch_with_catchers_reads_as_its_statements() {
    let parser = LogicLineParser::new();
    let short = parser
        .parse(&mut Meta::new(), "switch x { end; case ! e: stop; case 1: a; case 1: b; }")
        .unwrap();
    let long = parser
        .parse(
            &mut Meta::new(),
            "{ take ___0 = x; { { const e = ___0; goto :___1 _; :___0 { stop; } :___1 } }
               select ___0 { goto :___0 _; { b; end; } } }",
        )
        .unwrap();
    assert_eq!(short, long);
}

#[test]
fn strings_keep_their_escapes_but_for_the_bracket() {
    assert_eq!(compile(r#"print "a\[b\n\\";"#), vec![r#"print "a[b\n\\""#]);
    assert_eq!(
        TopLevelParser::new().parse(&mut Meta::new(), r#"print "a\qb";"#),
        Err(ParseError::InvalidToken { location: 6 })
    );
    assert_eq!(
        TopLevelParser::new().parse(&mut Meta::new(), r#"print "ab\"#),
        Err(ParseError::InvalidToken { location: 6 })
    );
}

#[test]
fn comments_stand_between_words() {
    assert_eq!(
        compile("a #* b *# c; # d\n#*\n*#e;#*x*#"),
        vec!["a c", "e"],
    );
    assert_eq!(
        TopLevelParser::new().parse(&mut Meta::new(), "a; #* never closed"),
        Err(ParseError::InvalidToken { location: 3 })
    );
}
