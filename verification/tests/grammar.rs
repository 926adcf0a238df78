use omg_idl_code_gen::{parse_idl, Configuration, Context, ParseErrorKind, ParseNode, Production};
use omg_idl_grammar::{IdlParser, Rule};
use pest::Parser;

fn find<'a>(node: &'a ParseNode, rule: &str) -> Option<&'a ParseNode> {
    if node.rule == rule {
        return Some(node);
    }
    node.children.iter().find_map(|child| find(child, rule))
}

fn first_const_expr(source: &str) -> ParseNode {
    let trees = parse_idl(source).unwrap();
    find(&trees[0], "const_expr").unwrap().clone()
}

#[test]
fn decimal_integer_literal() {
    let mut pairs = IdlParser::parse(Rule::decimal_integer_literal, "1234").unwrap();
    let pair = pairs.next().unwrap();
    assert_eq!(pair.as_rule(), Rule::decimal_integer_literal);
    assert_eq!(pair.as_span().start(), 0);
    assert_eq!(pair.as_span().end(), 4);
    assert!(pair.into_inner().next().is_none());
    assert!(pairs.next().is_none());
}

#[test]
fn character_literal() {
    let mut pairs = IdlParser::parse(Rule::character_literal, "'A'").unwrap();
    let pair = pairs.next().unwrap();
    assert_eq!(pair.as_rule(), Rule::character_literal);
    assert_eq!(pair.as_span().start(), 0);
    assert_eq!(pair.as_span().end(), 3);
    assert!(pair.into_inner().next().is_none());
    assert!(pairs.next().is_none());
}

#[test]
fn source_is_parsed_into_one_specification() {
    let trees = parse_idl("const long X = 1;").unwrap();
    assert_eq!(trees.len(), 1);
    assert_eq!(trees[0].rule, "specification");
    assert_eq!(trees[0].pos, 0);
    let dcl = find(&trees[0], "const_dcl").unwrap();
    assert_eq!(dcl.kind(), Production::ConstDcl);
    assert_eq!(dcl.text, "const long X = 1");
    assert_eq!(dcl.children.len(), 3);
    assert_eq!(dcl.children[1].rule, "identifier");
    assert_eq!(dcl.children[1].text, "X");
    assert_eq!(dcl.children[1].pos, 11);
}

#[test]
fn parse_tree_is_not_the_source_handed_back() {
    let source = "enum Foo { VARIANT0, VARIANT1 };";
    let trees = parse_idl(source).unwrap();
    let names: Vec<_> = find(&trees[0], "enum_dcl")
        .unwrap()
        .children
        .iter()
        .map(|c| (c.rule.clone(), c.text.clone()))
        .collect();
    assert_eq!(
        names,
        vec![
            ("identifier".to_string(), "Foo".to_string()),
            ("enumerator".to_string(), "VARIANT0".to_string()),
            ("enumerator".to_string(), "VARIANT1".to_string()),
        ]
    );
}

#[test]
fn rejected_source_is_a_parser_failure() {
    let error = parse_idl("struct { long x; };").unwrap_err();
    assert_eq!(error.kind, ParseErrorKind::Rejected);
    assert_eq!(error.pos, 7);
    assert!(!error.detail.is_empty());
    let later = parse_idl("const long X = 1;\nmodule {").unwrap_err();
    assert_eq!(later.kind, ParseErrorKind::Rejected);
    assert_eq!(later.pos, 25);
}

#[test]
fn same_source_gives_the_same_tree() {
    let source = "module A { struct Foo { long a; sequence<long, 4> b; }; };";
    assert_eq!(parse_idl(source).unwrap(), parse_idl(source).unwrap());
}

#[test]
fn parsed_expression_is_lowered_and_rendered_without_space() {
    let config = Configuration::new(".", "input.idl", false);
    let context = Context::new(&config);
    let expr = context.read_const_expr(&first_const_expr("const long X = 0xF0 & 0x0F;")).unwrap();
    assert_eq!(expr.to_string(), "0xF0&0x0F");
    let nested = context
        .read_const_expr(&first_const_expr("const long Y = ( 1 + 2 ) * -3 << ::A::n;"))
        .unwrap();
    assert_eq!(nested.to_string(), "(1+2)*-3<<crate::A::n");
}

#[test]
fn rendered_expression_parses_to_the_same_expression() {
    let config = Configuration::new(".", "input.idl", false);
    let context = Context::new(&config);
    let sources = [
        "1",
        "0xF0 & 0x0F",
        "( 1 + 2 ) * 3",
        "-7 % A::b",
        "~1 | 2 ^ 3",
        "1 << 4 >> 2",
        "TRUE",
        "'c'",
        "\"text\"",
        "10 / ( 2 - 1 )",
    ];
    for source in sources {
        let first = context
            .read_const_expr(&first_const_expr(&format!("const long X = {};", source)))
            .unwrap();
        let rendered = first.to_string();
        let second = context
            .read_const_expr(&first_const_expr(&format!("const long X = {};", rendered)))
            .unwrap();
        assert_eq!(first, second);
        assert_eq!(second.to_string(), rendered);
    }
}

#[test]
fn parsed_types_are_lowered() {
    let config = Configuration::new(".", "input.idl", false);
    let context = Context::new(&config);
    let render = |source: &str| {
        let trees = parse_idl(source).unwrap();
        let declarator = find(&trees[0], "type_declarator").unwrap();
        context.read_type_spec(&declarator.children[0]).unwrap().to_string()
    };
    assert_eq!(render("typedef long T;"), "i32");
    assert_eq!(render("typedef long long T;"), "i64");
    assert_eq!(render("typedef short T;"), "i16");
    assert_eq!(render("typedef octet T;"), "u8");
    assert_eq!(render("typedef unsigned short T;"), "u16");
    assert_eq!(render("typedef unsigned long T;"), "u32");
    assert_eq!(render("typedef unsigned long long T;"), "u64");
    assert_eq!(render("typedef char T;"), "char");
    assert_eq!(render("typedef wchar T;"), "char");
    assert_eq!(render("typedef float T;"), "f32");
    assert_eq!(render("typedef double T;"), "f64");
    assert_eq!(render("typedef long double T;"), "f128");
    assert_eq!(render("typedef boolean T;"), "bool");
    assert_eq!(render("typedef string T;"), "String");
    assert_eq!(render("typedef wstring T;"), "String");
    assert_eq!(render("typedef string<16> T;"), "String");
    assert_eq!(render("typedef wstring<16> T;"), "String");
    assert_eq!(render("typedef sequence<octet> T;"), "Vec<u8>");
    assert_eq!(render("typedef sequence<octet, 8> T;"), "Vec<u8>");
    assert_eq!(render("typedef sequence<sequence<A::Foo> > T;"), "Vec<Vec<A::Foo>>");
}
