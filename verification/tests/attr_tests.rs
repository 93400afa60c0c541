use impl_opaque::attr::{parse_attr_src, ParseErr, Vis};

#[test]
fn empty_argument_list_is_valid() {
    let a = parse_attr_src("").unwrap();
    assert!(matches!(a.vis, Vis::Inherited));
    assert_eq!(a.new_args.args.len(), 0);
}

#[test]
fn visibility_alone() {
    let a = parse_attr_src("pub").unwrap();
    assert!(matches!(a.vis, Vis::Public));
    assert_eq!(a.new_args.args.len(), 0);
}

#[test]
fn restricted_visibility_alone() {
    let a = parse_attr_src("pub(crate)").unwrap();
    match &a.vis {
        Vis::Restricted(p) => assert_eq!(p, "crate"),
        _ => panic!("expected a restricted visibility"),
    }
}

#[test]
fn visibility_then_promoted_parameter() {
    let a = parse_attr_src("pub, pub(self) counter: i32").unwrap();
    assert!(matches!(a.vis, Vis::Public));
    assert_eq!(a.new_args.args.len(), 1);
    let arg = &a.new_args.args[0];
    match &arg.vis {
        Some(Vis::Restricted(p)) => assert_eq!(p, "self"),
        _ => panic!("expected a promoted parameter"),
    }
    assert_eq!(arg.name, "counter");
    assert_eq!(arg.ty, "i32");
}

#[test]
fn plain_parameter_without_unit_visibility() {
    let a = parse_attr_src("msg: &str").unwrap();
    assert!(matches!(a.vis, Vis::Inherited));
    assert_eq!(a.new_args.args.len(), 1);
    let arg = &a.new_args.args[0];
    assert!(arg.vis.is_none());
    assert_eq!(arg.name, "msg");
    assert_eq!(arg.ty, "& str");
}

#[test]
fn leading_pub_of_first_parameter_is_not_the_unit_visibility() {
    let a = parse_attr_src("pub(self) counter: i32").unwrap();
    assert!(matches!(a.vis, Vis::Inherited));
    assert_eq!(a.new_args.args.len(), 1);
    assert_eq!(a.new_args.args[0].name, "counter");
}

#[test]
fn generic_type_with_inner_comma() {
    let a = parse_attr_src("m: Vec<i32, String>, n: u8").unwrap();
    assert_eq!(a.new_args.args.len(), 2);
    assert_eq!(a.new_args.args[0].ty, "Vec < i32 , String >");
    assert_eq!(a.new_args.args[1].name, "n");
    assert_eq!(a.new_args.args[1].ty, "u8");
}

#[test]
fn function_pointer_type_keeps_its_arrow() {
    let a = parse_attr_src("f: fn(i32) -> i32, n: u8").unwrap();
    assert_eq!(a.new_args.args.len(), 2);
    assert_eq!(a.new_args.args[0].ty, "fn (i32) -> i32");
}

#[test]
fn tuple_type_is_kept_as_one_group() {
    let a = parse_attr_src("p: (i32, String)").unwrap();
    assert_eq!(a.new_args.args[0].ty, "(i32 , String)");
}

#[test]
fn trailing_comma_is_allowed() {
    let a = parse_attr_src("x: u8,").unwrap();
    assert_eq!(a.new_args.args.len(), 1);
}

#[test]
fn destructuring_pattern_is_rejected() {
    assert_eq!(parse_attr_src("(a, b): (i32, i32)").unwrap_err(), ParseErr::ExpectedIdent);
}

#[test]
fn missing_colon_is_rejected() {
    assert_eq!(parse_attr_src("x i32").unwrap_err(), ParseErr::ExpectedColon);
}

#[test]
fn missing_type_is_rejected() {
    assert_eq!(parse_attr_src("x:").unwrap_err(), ParseErr::ExpectedType);
}

#[test]
fn unbalanced_text_does_not_lex() {
    assert_eq!(parse_attr_src("(unbalanced").unwrap_err(), ParseErr::NoLex);
}
