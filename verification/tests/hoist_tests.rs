use impl_opaque::ast::{AttrMark, Block, BodyExpr, Item, LocalDecl, LocalInit, Seg, Stmt, Unit};
use impl_opaque::attr::ParseErr;
use impl_opaque::expand::fn_field::{FnFieldExpander, IndexIdent};
use impl_opaque::expand::impl_field::ImplFieldExpander;
use impl_opaque::toks::lex;

fn marked_local(name: &str, ty: Option<&str>, init: Option<(&str, Option<&str>)>) -> LocalDecl {
    LocalDecl {
        attrs: vec![AttrMark { path: "field".to_string(), args: String::new() }],
        pat: name.to_string(),
        ty: ty.map(|t| t.to_string()),
        init: init.map(|(e, d)| LocalInit {
            expr: BodyExpr::Code(e.to_string()),
            diverge: d.map(|x| x.to_string()),
        }),
    }
}

#[test]
fn slot_names_carry_the_reserved_prefix() {
    assert_eq!(IndexIdent(0).ident(), "__internal_do_not_use_or_you_will_be_fired_0");
    assert_eq!(IndexIdent(3).ident(), "__internal_do_not_use_or_you_will_be_fired_3");
    assert_eq!(IndexIdent(905).ident(), "__internal_do_not_use_or_you_will_be_fired_905");
}

#[test]
fn one_marked_local_becomes_one_field() {
    let mut block = Block {
        stmts: vec![
            Stmt::Local(marked_local("mut count", Some("i32"), Some(("start", None)))),
            Stmt::Other(vec![Seg::Text("count += 1;".to_string())]),
        ],
    };
    let mut exp = FnFieldExpander::new();
    exp.expand(&mut block);
    assert_eq!(exp.fields.len(), 1);
    assert_eq!(exp.fields[0].idx.0, 0);
    assert_eq!(exp.fields[0].ty, "i32");
    assert!(matches!(&exp.fields[0].init, BodyExpr::Code(e) if e == "start"));
    match &block.stmts[0] {
        Stmt::Local(l) => {
            assert!(l.attrs.is_empty());
            assert!(matches!(l.init.as_ref().unwrap().expr, BodyExpr::SlotRead(0)));
        },
        _ => panic!("the declaration must stay in place"),
    }
}

#[test]
fn unmarked_locals_are_left_alone() {
    let mut block = Block {
        stmts: vec![Stmt::Local(LocalDecl {
            attrs: vec![],
            pat: "x".to_string(),
            ty: None,
            init: Some(LocalInit { expr: BodyExpr::Code("1".to_string()), diverge: None }),
        })],
    };
    let mut exp = FnFieldExpander::new();
    exp.expand(&mut block);
    assert_eq!(exp.fields.len(), 0);
    match &block.stmts[0] {
        Stmt::Local(l) => assert!(matches!(&l.init.as_ref().unwrap().expr, BodyExpr::Code(e) if e == "1")),
        _ => panic!("statement kind must be kept"),
    }
}

#[test]
fn numbering_continues_across_bodies_and_nested_blocks() {
    let inner = Block {
        stmts: vec![Stmt::Local(marked_local("b", Some("u8"), Some(("2", None))))],
    };
    let mut first = Block {
        stmts: vec![
            Stmt::Local(marked_local("a", Some("u8"), Some(("1", None)))),
            Stmt::Other(vec![
                Seg::Text("if x {".to_string()),
                Seg::Sub(inner),
                Seg::Text("}".to_string()),
            ]),
        ],
    };
    let mut second = Block {
        stmts: vec![Stmt::Local(marked_local("c", Some("u8"), Some(("3", None))))],
    };
    let mut exp = FnFieldExpander::new();
    exp.expand(&mut first);
    exp.expand(&mut second);
    assert_eq!(exp.fields.len(), 3);
    assert_eq!(exp.fields[0].idx.0, 0);
    assert_eq!(exp.fields[1].idx.0, 1);
    assert_eq!(exp.fields[2].idx.0, 2);
    match &second.stmts[0] {
        Stmt::Local(l) => assert!(matches!(l.init.as_ref().unwrap().expr, BodyExpr::SlotRead(2))),
        _ => panic!("the declaration must stay in place"),
    }
}

#[test]
fn missing_type_embeds_a_failure() {
    let mut block = Block {
        stmts: vec![Stmt::Local(marked_local("x", None, Some(("1", None))))],
    };
    let mut exp = FnFieldExpander::new();
    exp.expand(&mut block);
    assert_eq!(exp.fields.len(), 0);
    match &block.stmts[0] {
        Stmt::Local(l) => match &l.init.as_ref().unwrap().expr {
            BodyExpr::Fail(m) => assert!(m.contains("type")),
            _ => panic!("expected an embedded failure"),
        },
        _ => panic!("the declaration must stay in place"),
    }
}

#[test]
fn missing_initializer_embeds_a_failure_naming_the_initializer() {
    let mut block = Block {
        stmts: vec![Stmt::Local(marked_local("x", Some("i32"), None))],
    };
    let mut exp = FnFieldExpander::new();
    exp.expand(&mut block);
    assert_eq!(exp.fields.len(), 0);
    match &block.stmts[0] {
        Stmt::Local(l) => match &l.init.as_ref().unwrap().expr {
            BodyExpr::Fail(m) => assert!(m.contains("initializer")),
            _ => panic!("expected an embedded failure"),
        },
        _ => panic!("the declaration must stay in place"),
    }
}

#[test]
fn diverging_initializer_embeds_a_failure_naming_divergence() {
    let mut block = Block {
        stmts: vec![Stmt::Local(marked_local(
            "x",
            Some("i32"),
            Some(("maybe()", Some("{ return; }"))),
        ))],
    };
    let mut exp = FnFieldExpander::new();
    exp.expand(&mut block);
    assert_eq!(exp.fields.len(), 0);
    match &block.stmts[0] {
        Stmt::Local(l) => match &l.init.as_ref().unwrap().expr {
            BodyExpr::Fail(m) => assert!(m.contains("diverge")),
            _ => panic!("expected an embedded failure"),
        },
        _ => panic!("the declaration must stay in place"),
    }
}

#[test]
fn block_level_field_declaration_is_removed_and_collected() {
    let body = lex("pub count: usize = 0").unwrap();
    let mut unit = Unit {
        attrs: vec![],
        header: "impl Trait for State".to_string(),
        self_ty: "State".to_string(),
        impl_generics: String::new(),
        where_clause: String::new(),
        items: vec![Item::FieldMacro(impl_opaque::ast::FieldMacroItem { attrs: vec![], body })],
    };
    let mut exp = ImplFieldExpander::new();
    exp.expand(&mut unit);
    assert_eq!(unit.items.len(), 0);
    assert_eq!(exp.fields.len(), 1);
    assert_eq!(exp.fields[0].name, "count");
    assert_eq!(exp.fields[0].ty, "usize");
    assert_eq!(exp.fields[0].init, "0");
    assert!(matches!(exp.fields[0].vis, impl_opaque::attr::Vis::Public));
}

#[test]
fn malformed_field_declaration_embeds_a_failure_and_continues() {
    let bad = lex("count usize = 0").unwrap();
    let good = lex("n: u8 = 1 + 2").unwrap();
    let mut unit = Unit {
        attrs: vec![],
        header: "impl Trait for State".to_string(),
        self_ty: "State".to_string(),
        impl_generics: String::new(),
        where_clause: String::new(),
        items: vec![
            Item::FieldMacro(impl_opaque::ast::FieldMacroItem { attrs: vec![], body: bad }),
            Item::FieldMacro(impl_opaque::ast::FieldMacroItem { attrs: vec![], body: good }),
        ],
    };
    let mut exp = ImplFieldExpander::new();
    exp.expand(&mut unit);
    assert_eq!(unit.items.len(), 1);
    match &unit.items[0] {
        Item::Fail(m) => assert!(m.contains("expected `:`")),
        _ => panic!("expected an embedded failure item"),
    }
    assert_eq!(exp.fields.len(), 1);
    assert_eq!(exp.fields[0].name, "n");
    assert_eq!(exp.fields[0].init, "1 + 2");
}

#[test]
fn field_declaration_errors_by_shape() {
    let cases: Vec<(&str, ParseErr)> = vec![
        ("", ParseErr::ExpectedIdent),
        ("x", ParseErr::ExpectedColon),
        ("x:", ParseErr::ExpectedType),
        ("x: u8", ParseErr::ExpectedEq),
        ("x: u8 =", ParseErr::ExpectedExpr),
    ];
    for (src, want) in cases {
        let toks = lex(src).unwrap();
        let got = impl_opaque::expand::impl_field::parse_field_toks(&toks).unwrap_err();
        assert_eq!(got, want);
    }
}
