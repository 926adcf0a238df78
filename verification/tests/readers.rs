use omg_idl_code_gen::{
    BinaryOp, Configuration, Context, IdlScopedName, IdlStructMember, IdlSwitchCase,
    IdlSwitchElement, IdlSwitchLabel, IdlTypeSpec, IdlValueExpr, ParseErrorKind, ParseNode,
    Production, UnaryOp,
};

fn leaf(rule: &str, text: &str) -> ParseNode {
    ParseNode::new(rule, text, 0, vec![])
}

fn leaf_at(rule: &str, text: &str, pos: usize) -> ParseNode {
    ParseNode::new(rule, text, pos, vec![])
}

fn node(rule: &str, text: &str, children: Vec<ParseNode>) -> ParseNode {
    ParseNode::new(rule, text, 0, children)
}

fn node_at(rule: &str, text: &str, pos: usize, children: Vec<ParseNode>) -> ParseNode {
    ParseNode::new(rule, text, pos, children)
}

fn dec_expr(text: &str) -> ParseNode {
    node(
        "const_expr",
        text,
        vec![node(
            "unary_expr",
            text,
            vec![node(
                "primary_expr",
                text,
                vec![node(
                    "literal",
                    text,
                    vec![node(
                        "integer_literal",
                        text,
                        vec![leaf("decimal_integer_literal", text)],
                    )],
                )],
            )],
        )],
    )
}

fn long_type() -> ParseNode {
    node(
        "type_spec",
        "long",
        vec![node(
            "simple_type_spec",
            "long",
            vec![node(
                "base_type_spec",
                "long",
                vec![node(
                    "integer_type",
                    "long",
                    vec![node("signed_int", "long", vec![leaf("signed_long_int", "long")])],
                )],
            )],
        )],
    )
}

fn simple_declarator(id: &str) -> ParseNode {
    node("declarator", id, vec![node("simple_declarator", id, vec![leaf("identifier", id)])])
}

fn array_declarator(id: &str, dims: &[&str]) -> ParseNode {
    let mut children = vec![leaf("identifier", id)];
    for dim in dims {
        children.push(node(
            "fixed_array_size",
            dim,
            vec![node("positive_int_const", dim, vec![dec_expr(dim)])],
        ));
    }
    node("declarator", id, vec![node("array_declarator", id, children)])
}

fn dec(text: &str) -> IdlValueExpr {
    IdlValueExpr::DecLiteral(text.to_string())
}

#[test]
fn productions_are_told_by_name() {
    assert_eq!(Production::from_name("const_expr"), Production::ConstExpr);
    assert_eq!(Production::from_name("float"), Production::Float);
    assert_eq!(Production::from_name("unsigned_longlong_int"), Production::UnsignedLonglongInt);
    assert_eq!(Production::from_name("include_directive"), Production::IncludeDirective);
    assert_eq!(Production::from_name("included_specification"), Production::IncludedSpecification);
    assert_eq!(Production::from_name("definition"), Production::Other);
    assert_eq!(Production::from_name(""), Production::Other);
    assert_eq!(leaf("enum_dcl", "").kind(), Production::EnumDcl);
}

#[test]
fn children_are_found_by_position() {
    let parent = node("member", "", vec![leaf("identifier", "a"), leaf("identifier", "b")]);
    assert_eq!(parent.child(1).unwrap().text, "b");
    assert!(parent.child(2).is_none());
    assert_eq!(parent.clone(), parent);
}

#[test]
fn identifier_is_its_lexeme() {
    let config = Configuration::new(".", "input.idl", false);
    let context = Context::new(&config);
    assert_eq!(context.read_identifier(&leaf("identifier", "Foo")).unwrap(), "Foo");
    assert_eq!(context.read_identifier(&leaf("enumerator", "RED")).unwrap(), "RED");
}

#[test]
fn other_node_is_no_identifier() {
    let config = Configuration::new(".", "input.idl", false);
    let context = Context::new(&config);
    let error = context.read_identifier(&leaf_at("literal", "1", 9)).unwrap_err();
    assert_eq!(error.kind, ParseErrorKind::NotAnIdentifier);
    assert_eq!(error.pos, 9);
}

#[test]
fn scoped_name_keeps_its_leading_colons() {
    let config = Configuration::new(".", "input.idl", false);
    let context = Context::new(&config);
    let absolute = node(
        "scoped_name",
        "::A::Foo",
        vec![leaf("identifier", "A"), leaf("identifier", "Foo")],
    );
    assert_eq!(
        context.read_scoped_name(&absolute).unwrap(),
        IdlScopedName(vec!["A".to_string(), "Foo".to_string()], true)
    );
    let relative = node("scoped_name", "A::Foo", vec![leaf("identifier", "A"), leaf("identifier", "Foo")]);
    assert_eq!(
        context.read_scoped_name(&relative).unwrap(),
        IdlScopedName(vec!["A".to_string(), "Foo".to_string()], false)
    );
    let short = node("scoped_name", ":", vec![leaf("identifier", "A")]);
    assert!(!context.read_scoped_name(&short).unwrap().1);
}

#[test]
fn scoped_name_fails_on_its_first_bad_component() {
    let config = Configuration::new(".", "input.idl", false);
    let context = Context::new(&config);
    let bad = node(
        "scoped_name",
        "A::1::2",
        vec![leaf("identifier", "A"), leaf_at("literal", "1", 3), leaf_at("literal", "2", 6)],
    );
    let error = context.read_scoped_name(&bad).unwrap_err();
    assert_eq!(error.kind, ParseErrorKind::NotAnIdentifier);
    assert_eq!(error.pos, 3);
}

#[test]
fn literal_nodes_lower_to_their_lexemes() {
    let config = Configuration::new(".", "input.idl", false);
    let context = Context::new(&config);
    assert_eq!(context.read_const_expr(&dec_expr("42")).unwrap(), dec("42"));
    assert_eq!(
        context.read_const_expr(&leaf("hex_integer_literal", "0xF0")).unwrap(),
        IdlValueExpr::HexLiteral("0xF0".to_string())
    );
    assert_eq!(
        context.read_const_expr(&leaf("octal_integer_literal", "017")).unwrap(),
        IdlValueExpr::OctLiteral("017".to_string())
    );
    assert_eq!(
        context.read_const_expr(&leaf("character_literal", "'A'")).unwrap(),
        IdlValueExpr::CharLiteral("'A'".to_string())
    );
    assert_eq!(
        context.read_const_expr(&leaf("wide_character_literal", "L'A'")).unwrap(),
        IdlValueExpr::WideCharLiteral("L'A'".to_string())
    );
    assert_eq!(
        context.read_const_expr(&leaf("string_literal", "\"a\"")).unwrap(),
        IdlValueExpr::StringLiteral("\"a\"".to_string())
    );
    assert_eq!(
        context.read_const_expr(&leaf("wide_string_literal", "L\"a\"")).unwrap(),
        IdlValueExpr::WideStringLiteral("L\"a\"".to_string())
    );
}

#[test]
fn boolean_literal_is_true_when_its_upper_case_is_true() {
    let config = Configuration::new(".", "input.idl", false);
    let context = Context::new(&config);
    let read = |text: &str| context.read_const_expr(&leaf("boolean_literal", text)).unwrap();
    assert_eq!(read("TRUE"), IdlValueExpr::BooleanLiteral(true));
    assert_eq!(read("true"), IdlValueExpr::BooleanLiteral(true));
    assert_eq!(read("True"), IdlValueExpr::BooleanLiteral(true));
    assert_eq!(read("FALSE"), IdlValueExpr::BooleanLiteral(false));
    assert_eq!(read("yes"), IdlValueExpr::BooleanLiteral(false));
}

#[test]
fn float_literal_gathers_its_parts() {
    let config = Configuration::new(".", "input.idl", false);
    let context = Context::new(&config);
    let literal = node(
        "floating_pt_literal",
        "1.5e10f",
        vec![
            leaf("integral_part", "1"),
            leaf("fractional_part", "5"),
            leaf("exponent", "e10"),
            leaf("float_suffix", "f"),
        ],
    );
    assert_eq!(
        context.read_const_expr(&literal).unwrap(),
        IdlValueExpr::FloatLiteral(
            Some("1".to_string()),
            Some("5".to_string()),
            Some("e10".to_string()),
            Some("f".to_string()),
        )
    );
    let partial = node("floating_pt_literal", ".5", vec![leaf("fractional_part", "5")]);
    assert_eq!(
        context.read_const_expr(&partial).unwrap(),
        IdlValueExpr::FloatLiteral(None, Some("5".to_string()), None, None)
    );
}

#[test]
fn float_literal_rejects_an_unknown_part() {
    let config = Configuration::new(".", "input.idl", false);
    let context = Context::new(&config);
    let literal = node(
        "floating_pt_literal",
        "1x",
        vec![leaf("integral_part", "1"), leaf_at("identifier", "x", 1)],
    );
    let error = context.read_const_expr(&literal).unwrap_err();
    assert_eq!(error.kind, ParseErrorKind::UnknownFloatPart);
    assert_eq!(error.pos, 1);
}

#[test]
fn const_expr_of_two_children_is_a_pair() {
    let config = Configuration::new(".", "input.idl", false);
    let context = Context::new(&config);
    let sum = node(
        "const_expr",
        "1 + 2",
        vec![
            node("unary_expr", "1", vec![node("primary_expr", "1", vec![node("literal", "1", vec![leaf("decimal_integer_literal", "1")])])]),
            node("add_expr", "+ 2", vec![dec_expr("2")]),
        ],
    );
    assert_eq!(
        context.read_const_expr(&sum).unwrap(),
        IdlValueExpr::Expr(
            Box::new(dec("1")),
            Box::new(IdlValueExpr::BinaryOp(BinaryOp::Add, Box::new(dec("2")))),
        )
    );
    assert_eq!(context.read_const_expr(&sum).unwrap().to_string(), "1+2");
}

#[test]
fn every_operator_production_has_its_operator() {
    let config = Configuration::new(".", "input.idl", false);
    let context = Context::new(&config);
    let cases = [
        ("and_expr", BinaryOp::And),
        ("or_expr", BinaryOp::Or),
        ("xor_expr", BinaryOp::Xor),
        ("lshift_expr", BinaryOp::LShift),
        ("rshift_expr", BinaryOp::RShift),
        ("add_expr", BinaryOp::Add),
        ("sub_expr", BinaryOp::Sub),
        ("mul_expr", BinaryOp::Mul),
        ("div_expr", BinaryOp::Div),
        ("mod_expr", BinaryOp::Mod),
    ];
    for (rule, op) in cases {
        let tree = node(rule, "", vec![dec_expr("2")]);
        assert_eq!(
            context.read_const_expr(&tree).unwrap(),
            IdlValueExpr::BinaryOp(op, Box::new(dec("2")))
        );
    }
}

#[test]
fn operator_without_operand_fails() {
    let config = Configuration::new(".", "input.idl", false);
    let context = Context::new(&config);
    let error = context.read_const_expr(&leaf_at("mul_expr", "*", 5)).unwrap_err();
    assert_eq!(error.kind, ParseErrorKind::MissingOperand);
    assert_eq!(error.pos, 5);
}

#[test]
fn unary_expr_takes_its_operator() {
    let config = Configuration::new(".", "input.idl", false);
    let context = Context::new(&config);
    let read = |op: &str| {
        let tree = node(
            "unary_expr",
            "",
            vec![leaf("unary_operator", op), node_at("primary_expr", "1", 1, vec![node("literal", "1", vec![leaf("decimal_integer_literal", "1")])])],
        );
        context.read_const_expr(&tree)
    };
    assert_eq!(read("-").unwrap(), IdlValueExpr::UnaryOp(UnaryOp::Neg, Box::new(dec("1"))));
    assert_eq!(read("+").unwrap(), IdlValueExpr::UnaryOp(UnaryOp::Pos, Box::new(dec("1"))));
    assert_eq!(read("~").unwrap(), IdlValueExpr::UnaryOp(UnaryOp::Inverse, Box::new(dec("1"))));
    let error = read("!").unwrap_err();
    assert_eq!(error.kind, ParseErrorKind::UnknownUnaryOperator);
    assert_eq!(error.pos, 1);
}

#[test]
fn primary_expr_tells_name_literal_and_parentheses() {
    let config = Configuration::new(".", "input.idl", false);
    let context = Context::new(&config);
    let named = node(
        "primary_expr",
        "A::x",
        vec![node("scoped_name", "A::x", vec![leaf("identifier", "A"), leaf("identifier", "x")])],
    );
    assert_eq!(
        context.read_const_expr(&named).unwrap(),
        IdlValueExpr::ScopedName(IdlScopedName(vec!["A".to_string(), "x".to_string()], false))
    );
    let braced = node("primary_expr", "(7)", vec![dec_expr("7")]);
    assert_eq!(context.read_const_expr(&braced).unwrap(), IdlValueExpr::Brace(Box::new(dec("7"))));
    let other = node_at("primary_expr", "x", 4, vec![leaf("identifier", "x")]);
    assert_eq!(context.read_const_expr(&other).unwrap_err().kind, ParseErrorKind::UnknownPrimaryExpr);
    let empty = leaf_at("primary_expr", "", 4);
    let error = context.read_const_expr(&empty).unwrap_err();
    assert_eq!(error.kind, ParseErrorKind::UnknownPrimaryExpr);
    assert_eq!(error.pos, 4);
}

#[test]
fn empty_expression_nodes_fail() {
    let config = Configuration::new(".", "input.idl", false);
    let context = Context::new(&config);
    assert_eq!(
        context.read_const_expr(&leaf("const_expr", "")).unwrap_err().kind,
        ParseErrorKind::EmptyConstExpr
    );
    assert_eq!(
        context.read_const_expr(&leaf("unary_expr", "")).unwrap_err().kind,
        ParseErrorKind::EmptyUnaryExpr
    );
    assert_eq!(
        context.read_const_expr(&leaf("positive_int_const", "")).unwrap_err().kind,
        ParseErrorKind::UnknownConstExpr
    );
}

#[test]
fn primitive_types_lower_to_their_atoms() {
    let config = Configuration::new(".", "input.idl", false);
    let context = Context::new(&config);
    let cases = [
        ("float", IdlTypeSpec::F32Type),
        ("double", IdlTypeSpec::F64Type),
        ("long_double", IdlTypeSpec::F128Type),
        ("unsigned_short_int", IdlTypeSpec::U16Type),
        ("unsigned_longlong_int", IdlTypeSpec::U64Type),
        ("unsigned_long_int", IdlTypeSpec::U32Type),
        ("signed_short_int", IdlTypeSpec::I16Type),
        ("signed_longlong_int", IdlTypeSpec::I64Type),
        ("signed_long_int", IdlTypeSpec::I32Type),
        ("char_type", IdlTypeSpec::CharType),
        ("wide_char_type", IdlTypeSpec::WideCharType),
        ("boolean_type", IdlTypeSpec::BooleanType),
        ("octet_type", IdlTypeSpec::OctetType),
    ];
    for (rule, expected) in cases {
        assert_eq!(context.read_type_spec(&leaf(rule, "")).unwrap(), expected);
    }
    assert_eq!(context.read_type_spec(&long_type()).unwrap(), IdlTypeSpec::I32Type);
}

#[test]
fn string_types_carry_their_bound() {
    let config = Configuration::new(".", "input.idl", false);
    let context = Context::new(&config);
    assert_eq!(
        context.read_type_spec(&leaf("string_type", "string")).unwrap(),
        IdlTypeSpec::StringType(None)
    );
    let bounded = node("string_type", "string<8>", vec![node("positive_int_const", "8", vec![dec_expr("8")])]);
    assert_eq!(
        context.read_type_spec(&bounded).unwrap(),
        IdlTypeSpec::StringType(Some(Box::new(dec("8"))))
    );
    let wide = node("wide_string_type", "wstring<8>", vec![node("positive_int_const", "8", vec![dec_expr("8")])]);
    assert_eq!(
        context.read_type_spec(&wide).unwrap(),
        IdlTypeSpec::WideStringType(Some(Box::new(dec("8"))))
    );
    assert_eq!(context.read_type_spec(&bounded).unwrap().to_string(), "String");
}

#[test]
fn sequence_drops_its_bound() {
    let config = Configuration::new(".", "input.idl", false);
    let context = Context::new(&config);
    let unbounded = node("sequence_type", "sequence<long>", vec![long_type()]);
    let bounded = node(
        "sequence_type",
        "sequence<long, 4>",
        vec![long_type(), node("positive_int_const", "4", vec![dec_expr("4")])],
    );
    let expected = IdlTypeSpec::SequenceType(Box::new(IdlTypeSpec::I32Type));
    assert_eq!(context.read_type_spec(&unbounded).unwrap(), expected);
    assert_eq!(context.read_type_spec(&bounded).unwrap(), expected);
    assert_eq!(context.read_type_spec(&bounded).unwrap().to_string(), "Vec<i32>");
}

#[test]
fn sequence_fails_on_a_bad_bound() {
    let config = Configuration::new(".", "input.idl", false);
    let context = Context::new(&config);
    let bounded = node(
        "sequence_type",
        "sequence<long, >",
        vec![long_type(), leaf_at("positive_int_const", "", 15)],
    );
    let error = context.read_type_spec(&bounded).unwrap_err();
    assert_eq!(error.kind, ParseErrorKind::UnknownConstExpr);
    assert_eq!(error.pos, 15);
}

#[test]
fn type_failures_name_their_kind() {
    let config = Configuration::new(".", "input.idl", false);
    let context = Context::new(&config);
    assert_eq!(
        context.read_type_spec(&leaf("sequence_type", "")).unwrap_err().kind,
        ParseErrorKind::MissingSequenceElement
    );
    assert_eq!(
        context.read_type_spec(&leaf("identifier", "x")).unwrap_err().kind,
        ParseErrorKind::UnknownTypeSpec
    );
}

#[test]
fn scoped_name_is_a_type() {
    let config = Configuration::new(".", "input.idl", false);
    let context = Context::new(&config);
    let named = node(
        "simple_type_spec",
        "::A::Foo",
        vec![node("scoped_name", "::A::Foo", vec![leaf("identifier", "A"), leaf("identifier", "Foo")])],
    );
    assert_eq!(
        context.read_type_spec(&named).unwrap(),
        IdlTypeSpec::ScopedName(IdlScopedName(vec!["A".to_string(), "Foo".to_string()], true))
    );
}

#[test]
fn member_declarators_give_members() {
    let config = Configuration::new(".", "input.idl", false);
    let context = Context::new(&config);
    let simple = context
        .read_struct_member_declarator(&simple_declarator("m_l1"), &IdlTypeSpec::I32Type)
        .unwrap();
    assert_eq!(simple, IdlStructMember { id: "m_l1".to_string(), type_spec: IdlTypeSpec::I32Type });
    let array = context
        .read_struct_member_declarator(&array_declarator("grid", &["2", "3"]), &IdlTypeSpec::I32Type)
        .unwrap();
    assert_eq!(
        array,
        IdlStructMember {
            id: "grid".to_string(),
            type_spec: IdlTypeSpec::ArrayType(Box::new(IdlTypeSpec::I32Type), vec![dec("2"), dec("3")]),
        }
    );
    assert_eq!(array.type_spec.to_string(), "[[i32;2];3]");
}

#[test]
fn declarator_failures_name_their_kind() {
    let config = Configuration::new(".", "input.idl", false);
    let context = Context::new(&config);
    let read = |tree: &ParseNode| {
        context.read_struct_member_declarator(tree, &IdlTypeSpec::I32Type).unwrap_err()
    };
    assert_eq!(read(&leaf("declarator", "")).kind, ParseErrorKind::MissingDeclarator);
    assert_eq!(
        read(&node("declarator", "", vec![leaf("simple_declarator", "")])).kind,
        ParseErrorKind::MissingDeclaratorName
    );
    assert_eq!(
        read(&node("declarator", "", vec![leaf("array_declarator", "")])).kind,
        ParseErrorKind::MissingDeclaratorName
    );
    assert_eq!(
        read(&node("declarator", "", vec![leaf("identifier", "x")])).kind,
        ParseErrorKind::UnknownDeclarator
    );
}

#[test]
fn member_reports_a_bad_dimension_before_a_bad_name() {
    let config = Configuration::new(".", "input.idl", false);
    let context = Context::new(&config);
    let tree = node(
        "declarator",
        "",
        vec![node_at(
            "array_declarator",
            "",
            7,
            vec![leaf_at("literal", "1", 8), leaf_at("fixed_array_size", "[]", 9)],
        )],
    );
    let member = context.read_struct_member_declarator(&tree, &IdlTypeSpec::I32Type).unwrap_err();
    assert_eq!(member.kind, ParseErrorKind::MissingArraySize);
    assert_eq!(member.pos, 7);
    let element = context.read_switch_element_declarator(&tree, &IdlTypeSpec::I32Type).unwrap_err();
    assert_eq!(element.kind, ParseErrorKind::NotAnIdentifier);
    assert_eq!(element.pos, 8);
}

#[test]
fn union_element_reports_a_missing_dimension_where_it_stands() {
    let config = Configuration::new(".", "input.idl", false);
    let context = Context::new(&config);
    let tree = node(
        "declarator",
        "",
        vec![node_at(
            "array_declarator",
            "",
            7,
            vec![leaf_at("identifier", "a", 8), leaf_at("fixed_array_size", "[]", 9)],
        )],
    );
    let element = context.read_switch_element_declarator(&tree, &IdlTypeSpec::I32Type).unwrap_err();
    assert_eq!(element.kind, ParseErrorKind::MissingArraySize);
    assert_eq!(element.pos, 9);
}

#[test]
fn member_declares_one_member_for_each_declarator() {
    let config = Configuration::new(".", "input.idl", false);
    let context = Context::new(&config);
    let member = node(
        "member",
        "long a, b[2];",
        vec![
            long_type(),
            node("declarators", "a, b[2]", vec![simple_declarator("a"), array_declarator("b", &["2"])]),
        ],
    );
    let members = context.read_struct_member(&member).unwrap();
    assert_eq!(
        members,
        vec![
            IdlStructMember { id: "a".to_string(), type_spec: IdlTypeSpec::I32Type },
            IdlStructMember {
                id: "b".to_string(),
                type_spec: IdlTypeSpec::ArrayType(Box::new(IdlTypeSpec::I32Type), vec![dec("2")]),
            },
        ]
    );
}

#[test]
fn member_failures_name_their_kind() {
    let config = Configuration::new(".", "input.idl", false);
    let context = Context::new(&config);
    assert_eq!(
        context.read_struct_member(&leaf("member", "")).unwrap_err().kind,
        ParseErrorKind::MissingMemberType
    );
    assert_eq!(
        context.read_struct_member(&node("member", "", vec![long_type()])).unwrap_err().kind,
        ParseErrorKind::MissingDeclarators
    );
}

#[test]
fn members_of_several_nodes_are_joined_in_order() {
    let config = Configuration::new(".", "input.idl", false);
    let context = Context::new(&config);
    let member = |id: &str| {
        node("member", "", vec![long_type(), node("declarators", id, vec![simple_declarator(id)])])
    };
    let items = vec![leaf("identifier", "Foo"), member("a"), member("b")];
    let members = context.read_struct_members(&items, 1).unwrap();
    assert_eq!(members.len(), 2);
    assert_eq!(members[0].id, "a");
    assert_eq!(members[1].id, "b");
    assert!(context.read_struct_members(&items, 0).is_err());
}

#[test]
fn case_labels_are_expressions_or_default() {
    let config = Configuration::new(".", "input.idl", false);
    let context = Context::new(&config);
    let labelled = node("case_label", "case 1:", vec![dec_expr("1")]);
    assert_eq!(context.read_switch_label(&labelled).unwrap(), IdlSwitchLabel::Label(dec("1")));
    assert_eq!(
        context.read_switch_label(&leaf("case_label", "default:")).unwrap(),
        IdlSwitchLabel::Default
    );
}

#[test]
fn case_gathers_its_labels_and_its_element() {
    let config = Configuration::new(".", "input.idl", false);
    let context = Context::new(&config);
    let case = node(
        "case",
        "case 1: case 2: long s;",
        vec![
            node("case_label", "case 1:", vec![dec_expr("1")]),
            node("case_label", "case 2:", vec![dec_expr("2")]),
            node("element_spec", "long s", vec![long_type(), simple_declarator("s")]),
        ],
    );
    assert_eq!(
        context.read_switch_case(&case).unwrap(),
        IdlSwitchCase {
            labels: vec![IdlSwitchLabel::Label(dec("1")), IdlSwitchLabel::Label(dec("2"))],
            elem_spec: IdlSwitchElement { id: "s".to_string(), type_spec: IdlTypeSpec::I32Type },
        }
    );
    let body = node("switch_body", "", vec![case.clone(), case]);
    assert_eq!(context.read_switch_body(&body).unwrap().len(), 2);
}

#[test]
fn case_without_element_fails() {
    let config = Configuration::new(".", "input.idl", false);
    let context = Context::new(&config);
    let case = node_at("case", "", 12, vec![leaf("case_label", "default:")]);
    let error = context.read_switch_case(&case).unwrap_err();
    assert_eq!(error.kind, ParseErrorKind::MissingElementSpec);
    assert_eq!(error.pos, 12);
}

#[test]
fn case_takes_its_last_element_and_reports_labels_first() {
    let config = Configuration::new(".", "input.idl", false);
    let context = Context::new(&config);
    let case = node(
        "case",
        "",
        vec![
            leaf("case_label", "default:"),
            node("element_spec", "long a", vec![long_type(), simple_declarator("a")]),
            node("element_spec", "long b", vec![long_type(), simple_declarator("b")]),
        ],
    );
    assert_eq!(context.read_switch_case(&case).unwrap().elem_spec.id, "b");
    let bad = node(
        "case",
        "",
        vec![
            node("case_label", "case :", vec![leaf_at("const_expr", "", 5)]),
            leaf_at("element_spec", "", 9),
        ],
    );
    let error = context.read_switch_case(&bad).unwrap_err();
    assert_eq!(error.kind, ParseErrorKind::EmptyConstExpr);
    assert_eq!(error.pos, 5);
}

#[test]
fn union_parts_fail_by_their_kind() {
    let config = Configuration::new(".", "input.idl", false);
    let context = Context::new(&config);
    assert_eq!(
        context.read_switch_type_spec(&leaf("switch_type_spec", "")).unwrap_err().kind,
        ParseErrorKind::MissingSwitchType
    );
    assert_eq!(
        context
            .read_switch_type_spec(&node("switch_type_spec", "long", vec![leaf("signed_long_int", "long")]))
            .unwrap(),
        IdlTypeSpec::I32Type
    );
    assert_eq!(
        context.read_switch_element_spec(&leaf("element_spec", "")).unwrap_err().kind,
        ParseErrorKind::MissingElementType
    );
    assert_eq!(
        context
            .read_switch_element_spec(&node("element_spec", "long", vec![long_type()]))
            .unwrap_err()
            .kind,
        ParseErrorKind::MissingDeclarator
    );
}
