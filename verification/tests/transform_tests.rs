use impl_opaque::ast::{
    AttrMark, Block, BodyExpr, FieldMacroItem, Item, LocalDecl, LocalInit, Method, Seg, Stmt, Unit,
};
use impl_opaque::attr::ParseErr;
use impl_opaque::opaque;

fn counter_unit() -> Unit {
    Unit {
        attrs: vec![],
        header: "impl Iterator for Counter".to_string(),
        self_ty: "Counter".to_string(),
        impl_generics: String::new(),
        where_clause: String::new(),
        items: vec![
            Item::Passthrough("type Item = i32;".to_string()),
            Item::Method(Method {
                sig: "fn next(&mut self) -> Option<Self::Item>".to_string(),
                body: Block {
                    stmts: vec![Stmt::Other(vec![Seg::Text(
                        "self.counter += 1; Some(self.counter)".to_string(),
                    )])],
                },
            }),
        ],
    }
}

#[test]
fn counter_output_holds_the_promoted_member_and_constructor() {
    let out = opaque("pub, pub(self) counter: i32", counter_unit()).unwrap();
    assert!(out.contains("pub struct Counter"));
    assert!(out.contains("pub (self) counter : i32,"));
    assert!(out.contains("pub fn new (counter : i32, ) -> Self"));
    assert!(out.contains("counter,"));
    assert!(out.contains("impl Iterator for Counter {"));
    assert!(out.contains("type Item = i32;"));
    assert!(out.contains("self.counter += 1; Some(self.counter)"));
}

#[test]
fn transform_agrees_with_the_single_entry_point() {
    let attr = impl_opaque::attr::parse_attr_src("pub, pub(self) counter: i32").unwrap();
    let direct = impl_opaque::transform(attr, counter_unit());
    let via_entry = opaque("pub, pub(self) counter: i32", counter_unit()).unwrap();
    assert_eq!(direct, via_entry);
}

#[test]
fn output_is_byte_identical_across_runs() {
    let a = opaque("pub, pub(self) counter: i32", counter_unit()).unwrap();
    let b = opaque("pub, pub(self) counter: i32", counter_unit()).unwrap();
    assert_eq!(a, b);
}

#[test]
fn every_output_carries_the_default_construction_guard() {
    let out = opaque("pub, pub(self) counter: i32", counter_unit()).unwrap();
    assert!(out.contains("__internal_no_default_derive : ::impl_opaque::__private::Opaque,"));
}

#[test]
fn formatter_names_the_type_and_suppresses_detail() {
    let out = opaque("pub, pub(self) counter: i32", counter_unit()).unwrap();
    assert!(out.contains("::core::fmt::Debug for Counter"));
    assert!(out.contains("finish_non_exhaustive()"));
}

#[test]
fn unit_without_fields_keeps_only_the_guard_member() {
    let unit = Unit {
        attrs: vec![],
        header: "impl Trait for State".to_string(),
        self_ty: "State".to_string(),
        impl_generics: String::new(),
        where_clause: String::new(),
        items: vec![],
    };
    let out = opaque("pub", unit).unwrap();
    assert!(out.contains(
        "pub struct State  {\n__internal_no_default_derive : ::impl_opaque::__private::Opaque,\n}"
    ));
}

#[test]
fn hoisted_local_reads_its_slot_and_feeds_the_constructor() {
    let unit = Unit {
        attrs: vec![],
        header: "impl Trait for State".to_string(),
        self_ty: "State".to_string(),
        impl_generics: String::new(),
        where_clause: String::new(),
        items: vec![Item::Method(Method {
            sig: "fn run(&self)".to_string(),
            body: Block {
                stmts: vec![
                    Stmt::Local(LocalDecl {
                        attrs: vec![AttrMark {
                            path: "field".to_string(),
                            args: String::new(),
                        }],
                        pat: "ref msg".to_string(),
                        ty: Some("String".to_string()),
                        init: Some(LocalInit {
                            expr: BodyExpr::Code("msg.to_string()".to_string()),
                            diverge: None,
                        }),
                    }),
                    Stmt::Other(vec![Seg::Text("println!(\"{}\", msg);".to_string())]),
                ],
            },
        })],
    };
    let out = opaque("pub, msg: &str", unit).unwrap();
    assert!(out.contains("__internal_do_not_use_or_you_will_be_fired_0 : String,"));
    assert!(out.contains("__internal_do_not_use_or_you_will_be_fired_0 : msg.to_string(),"));
    assert!(out.contains(
        "let ref msg : String = self.__internal_do_not_use_or_you_will_be_fired_0 ;"
    ));
    assert!(out.contains("pub fn new (msg : & str, ) -> Self"));
}

#[test]
fn block_level_field_declaration_reaches_the_struct() {
    let body = impl_opaque::toks::lex("count: usize = 40 + 2").unwrap();
    let unit = Unit {
        attrs: vec![],
        header: "impl Trait for State".to_string(),
        self_ty: "State".to_string(),
        impl_generics: String::new(),
        where_clause: String::new(),
        items: vec![Item::FieldMacro(FieldMacroItem { attrs: vec![], body })],
    };
    let out = opaque("pub", unit).unwrap();
    assert!(out.contains("count : usize,"));
    assert!(out.contains("count : 40 + 2,"));
    assert!(!out.contains("field! ("));
}

#[test]
fn malformed_field_declaration_surfaces_in_the_output() {
    let body = impl_opaque::toks::lex("count usize = 0").unwrap();
    let unit = Unit {
        attrs: vec![],
        header: "impl Trait for State".to_string(),
        self_ty: "State".to_string(),
        impl_generics: String::new(),
        where_clause: String::new(),
        items: vec![Item::FieldMacro(FieldMacroItem { attrs: vec![], body })],
    };
    let out = opaque("pub", unit).unwrap();
    assert!(out.contains("::core::compile_error! { \"expected `:`\" }"));
}

#[test]
fn grammar_errors_abort_the_transformation() {
    assert_eq!(opaque("x y", counter_unit()).unwrap_err(), ParseErr::ExpectedColon);
    assert_eq!(opaque("(unbalanced", counter_unit()).unwrap_err(), ParseErr::NoLex);
}

#[test]
fn unit_annotations_move_onto_the_synthesized_type() {
    let unit = Unit {
        attrs: vec![AttrMark { path: "doc".to_string(), args: " = \"hidden\"".to_string() }],
        header: "impl Trait for State".to_string(),
        self_ty: "State".to_string(),
        impl_generics: String::new(),
        where_clause: String::new(),
        items: vec![],
    };
    let out = opaque("pub", unit).unwrap();
    assert!(out.contains("#[doc = \"hidden\"]\n#[repr(Rust)]"));
}
