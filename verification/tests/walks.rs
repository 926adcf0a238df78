use omg_idl_code_gen::{
    analyze, Configuration, Context, IdlConstDcl, IdlError, IdlModule, IdlStructMember,
    IdlTypeDcl, IdlTypeDclKind, IdlTypeSpec, IdlValueExpr, ParseErrorKind, ParseNode,
};

fn leaf(rule: &str, text: &str) -> ParseNode {
    ParseNode::new(rule, text, 0, vec![])
}

fn node(rule: &str, text: &str, children: Vec<ParseNode>) -> ParseNode {
    ParseNode::new(rule, text, 0, children)
}

fn node_at(rule: &str, pos: usize, children: Vec<ParseNode>) -> ParseNode {
    ParseNode::new(rule, "", pos, children)
}

fn dec_expr(text: &str) -> ParseNode {
    node("const_expr", text, vec![leaf("decimal_integer_literal", text)])
}

fn simple_declarator(rule: &str, id: &str) -> ParseNode {
    node(rule, id, vec![node("simple_declarator", id, vec![leaf("identifier", id)])])
}

fn typedef_of(kind: &str, ids: &[&str]) -> ParseNode {
    let declarators = ids.iter().map(|id| simple_declarator("any_declarator", id)).collect();
    node(
        "type_declarator",
        "",
        vec![leaf(kind, ""), node("any_declarators", "", declarators)],
    )
}

fn struct_of(id: &str, members: &[&str]) -> ParseNode {
    let mut children = vec![leaf("identifier", id)];
    for member in members {
        children.push(node(
            "member",
            "",
            vec![
                leaf("signed_long_int", "long"),
                node("declarators", "", vec![simple_declarator("declarator", member)]),
            ],
        ));
    }
    node("struct_def", "", children)
}

fn const_of(id: &str, value: &str) -> ParseNode {
    node(
        "const_dcl",
        "",
        vec![leaf("signed_long_int", "long"), leaf("identifier", id), dec_expr(value)],
    )
}

fn module_of(id: &str, body: Vec<ParseNode>) -> ParseNode {
    let mut children = vec![leaf("identifier", id)];
    children.extend(body);
    node("module_dcl", "", children)
}

fn included(path: &str, body: Vec<ParseNode>) -> ParseNode {
    node(
        "include_directive",
        "",
        vec![leaf("path_spec", path), node("included_specification", "", body)],
    )
}

fn child<'a>(module: &'a IdlModule, name: &str) -> &'a IdlModule {
    module
        .submodules()
        .into_iter()
        .find(|m| m.id.as_deref() == Some(name))
        .unwrap()
}

fn type_ids(module: &IdlModule) -> Vec<String> {
    module.types.keys().cloned().collect()
}

fn typedef(id: &str, spec: IdlTypeSpec) -> IdlTypeDcl {
    IdlTypeDcl(IdlTypeDclKind::TypeDcl(id.to_string(), spec))
}

fn parse_kind(result: Result<(), IdlError>) -> ParseErrorKind {
    match result {
        Err(IdlError::ParserError(error)) => error.kind,
        other => panic!("no parser failure: {:?}", other),
    }
}

fn shape_kind(context: &mut Context, tree: ParseNode) -> ParseErrorKind {
    let mut scope = Vec::new();
    parse_kind(context.process(&mut scope, &tree))
}

#[test]
fn struct_is_entered_under_its_name() {
    let config = Configuration::new(".", "input.idl", false);
    let mut context = Context::new(&config);
    let mut scope = Vec::new();
    context.process(&mut scope, &struct_of("Foo", &["m_l1", "m_l2"])).unwrap();
    assert!(scope.is_empty());
    let expected = IdlTypeDcl(IdlTypeDclKind::StructDcl(
        "Foo".to_string(),
        vec![
            IdlStructMember { id: "m_l1".to_string(), type_spec: IdlTypeSpec::I32Type },
            IdlStructMember { id: "m_l2".to_string(), type_spec: IdlTypeSpec::I32Type },
        ],
    ));
    assert_eq!(context.root_module.types.get("Foo"), Some(&expected));
}

#[test]
fn module_opens_its_scope_and_closes_it() {
    let config = Configuration::new(".", "input.idl", false);
    let mut context = Context::new(&config);
    let mut scope = vec!["Outer".to_string()];
    let tree = module_of("A", vec![module_of("B", vec![struct_of("Foo", &["x"])])]);
    context.process(&mut scope, &tree).unwrap();
    assert_eq!(scope, vec!["Outer".to_string()]);
    let outer = child(&context.root_module, "Outer");
    let b = child(child(outer, "A"), "B");
    assert_eq!(type_ids(b), vec!["Foo".to_string()]);
    assert!(context.root_module.types.is_empty());
}

#[test]
fn empty_module_is_created() {
    let config = Configuration::new(".", "input.idl", false);
    let mut context = Context::new(&config);
    let mut scope = Vec::new();
    context.process(&mut scope, &module_of("Empty", vec![])).unwrap();
    let empty = child(&context.root_module, "Empty");
    assert!(empty.types.is_empty());
    assert!(empty.constants.is_empty());
    assert!(empty.submodules().is_empty());
}

#[test]
fn module_passes_over_what_fails_in_its_body() {
    let config = Configuration::new(".", "input.idl", false);
    let mut context = Context::new(&config);
    let mut scope = Vec::new();
    let tree = module_of(
        "A",
        vec![const_of("first", "1"), leaf("const_dcl", ""), const_of("second", "2")],
    );
    context.process(&mut scope, &tree).unwrap();
    let keys: Vec<_> = child(&context.root_module, "A").constants.keys().cloned().collect();
    assert_eq!(keys, vec!["first".to_string(), "second".to_string()]);
}

#[test]
fn typedef_enters_one_type_for_each_declarator() {
    let config = Configuration::new(".", "input.idl", false);
    let mut context = Context::new(&config);
    let mut scope = Vec::new();
    context.process(&mut scope, &typedef_of("signed_short_int", &["A", "B"])).unwrap();
    assert_eq!(type_ids(&context.root_module), vec!["A".to_string(), "B".to_string()]);
    assert_eq!(context.root_module.types.get("B"), Some(&typedef("B", IdlTypeSpec::I16Type)));
}

#[test]
fn typedef_passes_over_a_declarator_that_fails() {
    let config = Configuration::new(".", "input.idl", false);
    let mut context = Context::new(&config);
    let mut scope = Vec::new();
    let tree = node(
        "type_declarator",
        "",
        vec![
            leaf("octet_type", "octet"),
            node(
                "any_declarators",
                "",
                vec![
                    simple_declarator("any_declarator", "Good"),
                    leaf("any_declarator", ""),
                    simple_declarator("any_declarator", "Also"),
                ],
            ),
        ],
    );
    context.process(&mut scope, &tree).unwrap();
    assert_eq!(type_ids(&context.root_module), vec!["Good".to_string(), "Also".to_string()]);
}

#[test]
fn declarator_of_a_typedef_reports_its_failure() {
    let config = Configuration::new(".", "input.idl", false);
    let mut context = Context::new(&config);
    let scope = vec!["A".to_string()];
    let result = context.process_declarator(&scope, &leaf("any_declarator", ""), &IdlTypeSpec::I32Type);
    assert_eq!(parse_kind(result), ParseErrorKind::MissingDeclarator);
    assert!(context.root_module.submodules().is_empty());
    context
        .process_declarator(&scope, &simple_declarator("any_declarator", "T"), &IdlTypeSpec::I32Type)
        .unwrap();
    assert_eq!(type_ids(child(&context.root_module, "A")), vec!["T".to_string()]);
}

#[test]
fn enum_is_entered_with_its_enumerators() {
    let config = Configuration::new(".", "input.idl", false);
    let mut context = Context::new(&config);
    let mut scope = Vec::new();
    let tree = node(
        "enum_dcl",
        "",
        vec![
            leaf("identifier", "Foo"),
            node("enumerator", "VARIANT0", vec![leaf("identifier", "VARIANT0")]),
            node("enumerator", "VARIANT1", vec![leaf("identifier", "VARIANT1")]),
        ],
    );
    context.process(&mut scope, &tree).unwrap();
    let expected = IdlTypeDcl(IdlTypeDclKind::EnumDcl(
        "Foo".to_string(),
        vec!["VARIANT0".to_string(), "VARIANT1".to_string()],
    ));
    assert_eq!(context.root_module.types.get("Foo"), Some(&expected));
}

#[test]
fn constant_is_entered_with_type_and_value() {
    let config = Configuration::new(".", "input.idl", false);
    let mut context = Context::new(&config);
    let mut scope = Vec::new();
    context.process(&mut scope, &const_of("length", "20")).unwrap();
    let expected = IdlConstDcl {
        id: "length".to_string(),
        typedcl: IdlTypeSpec::I32Type,
        value: IdlValueExpr::DecLiteral("20".to_string()),
    };
    assert_eq!(context.root_module.constants.get("length"), Some(&expected));
}

#[test]
fn union_is_entered_with_discriminator_and_cases() {
    let config = Configuration::new(".", "input.idl", false);
    let mut context = Context::new(&config);
    let mut scope = Vec::new();
    let case = node(
        "case",
        "",
        vec![
            leaf("case_label", "default:"),
            node(
                "element_spec",
                "",
                vec![leaf("octet_type", "octet"), simple_declarator("declarator", "o")],
            ),
        ],
    );
    let tree = node(
        "union_def",
        "",
        vec![
            leaf("identifier", "Foo"),
            node("switch_type_spec", "long", vec![leaf("signed_long_int", "long")]),
            node("switch_body", "", vec![case]),
        ],
    );
    context.process(&mut scope, &tree).unwrap();
    match &context.root_module.types.get("Foo").unwrap().0 {
        IdlTypeDclKind::UnionDcl(id, discriminator, cases) => {
            assert_eq!(id, "Foo");
            assert_eq!(*discriminator, IdlTypeSpec::I32Type);
            assert_eq!(cases.len(), 1);
            assert_eq!(cases[0].elem_spec.id, "o");
        }
        other => panic!("no union: {:?}", other),
    }
}

#[test]
fn declarations_without_their_parts_fail() {
    let config = Configuration::new(".", "input.idl", false);
    let mut context = Context::new(&config);
    let mut scope = Vec::new();
    let kind = shape_kind;
    assert_eq!(kind(&mut context, leaf("module_dcl", "")), ParseErrorKind::MissingName);
    assert_eq!(kind(&mut context, leaf("struct_def", "")), ParseErrorKind::MissingName);
    assert_eq!(kind(&mut context, leaf("enum_dcl", "")), ParseErrorKind::MissingName);
    assert_eq!(kind(&mut context, leaf("union_def", "")), ParseErrorKind::MissingName);
    assert_eq!(
        kind(&mut context, node("union_def", "", vec![leaf("identifier", "U")])),
        ParseErrorKind::MissingUnionPart
    );
    assert_eq!(
        kind(
            &mut context,
            node(
                "union_def",
                "",
                vec![
                    leaf("identifier", "U"),
                    node("switch_type_spec", "", vec![leaf("signed_long_int", "long")]),
                ],
            )
        ),
        ParseErrorKind::MissingUnionPart
    );
    assert_eq!(kind(&mut context, leaf("type_declarator", "")), ParseErrorKind::MissingTypeDeclarator);
    assert_eq!(
        kind(&mut context, node("type_declarator", "", vec![leaf("octet_type", "")])),
        ParseErrorKind::MissingTypeDeclarator
    );
    assert_eq!(kind(&mut context, leaf("const_dcl", "")), ParseErrorKind::MissingConstPart);
    assert_eq!(
        kind(&mut context, node("const_dcl", "", vec![leaf("octet_type", "")])),
        ParseErrorKind::MissingConstPart
    );
    assert_eq!(
        kind(
            &mut context,
            node("const_dcl", "", vec![leaf("octet_type", ""), leaf("identifier", "c")])
        ),
        ParseErrorKind::MissingConstPart
    );
    context.process(&mut scope, &leaf("definition", "")).unwrap();
    assert!(context.root_module.types.is_empty());
    assert!(context.root_module.submodules().is_empty());
}

#[test]
fn struct_with_a_bad_member_enters_nothing() {
    let config = Configuration::new(".", "input.idl", false);
    let mut context = Context::new(&config);
    let mut scope = Vec::new();
    let tree = node("struct_def", "", vec![leaf("identifier", "Foo"), node_at("member", 11, vec![])]);
    let result = context.process(&mut scope, &tree);
    assert_eq!(parse_kind(result), ParseErrorKind::MissingMemberType);
    assert!(context.root_module.types.is_empty());
}

#[test]
fn unknown_nodes_are_walked_for_their_children() {
    let config = Configuration::new(".", "input.idl", false);
    let mut context = Context::new(&config);
    let mut scope = Vec::new();
    let tree = node(
        "specification",
        "",
        vec![
            node("definition", "", vec![node("type_dcl", "", vec![struct_of("A", &["x"])])]),
            node("definition", "", vec![leaf("struct_def", "")]),
            node("definition", "", vec![const_of("N", "3")]),
            leaf("EOI", ""),
        ],
    );
    context.process(&mut scope, &tree).unwrap();
    assert_eq!(type_ids(&context.root_module), vec!["A".to_string()]);
    assert!(context.root_module.constants.contains_key("N"));
}

#[test]
fn include_is_walked_under_the_scope_it_stands_in() {
    let config = Configuration::new(".", "input.idl", false);
    let mut context = Context::new(&config);
    let mut scope = Vec::new();
    let tree = module_of(
        "A",
        vec![
            const_of("before", "1"),
            included("inner.idl", vec![node("specification", "", vec![struct_of("Inner", &["x"]), const_of("inside", "2")])]),
            const_of("after", "3"),
        ],
    );
    context.process(&mut scope, &tree).unwrap();
    let a = child(&context.root_module, "A");
    assert_eq!(type_ids(a), vec!["Inner".to_string()]);
    let keys: Vec<_> = a.constants.keys().cloned().collect();
    assert_eq!(keys, vec!["before".to_string(), "inside".to_string(), "after".to_string()]);
}

#[test]
fn include_stops_at_its_first_failure() {
    let config = Configuration::new(".", "input.idl", false);
    let mut context = Context::new(&config);
    let mut scope = Vec::new();
    let tree = included(
        "inner.idl",
        vec![const_of("first", "1"), leaf("const_dcl", ""), const_of("never", "2")],
    );
    let result = context.process(&mut scope, &tree);
    assert_eq!(parse_kind(result), ParseErrorKind::MissingConstPart);
    let keys: Vec<_> = context.root_module.constants.keys().cloned().collect();
    assert_eq!(keys, vec!["first".to_string()]);
}

#[test]
fn include_that_was_not_found_fails_with_its_name() {
    let config = Configuration::new(".", "input.idl", false);
    let mut context = Context::new(&config);
    let mut scope = Vec::new();
    let marked = node(
        "include_directive",
        "",
        vec![leaf("path_spec", "missing.idl"), leaf("include_not_found", "")],
    );
    match context.process(&mut scope, &marked) {
        Err(IdlError::FileNotFound(name)) => assert_eq!(name, "missing.idl"),
        other => panic!("not the failure expected: {:?}", other),
    }
    let unresolved = node("include_directive", "", vec![leaf("path_spec", "later.idl")]);
    match context.process(&mut scope, &unresolved) {
        Err(IdlError::FileNotFound(name)) => assert_eq!(name, "later.idl"),
        other => panic!("not the failure expected: {:?}", other),
    }
    context.process(&mut scope, &leaf("include_directive", "")).unwrap();
}

#[test]
fn include_that_was_rejected_fails_as_the_parser_did() {
    let config = Configuration::new(".", "input.idl", false);
    let mut context = Context::new(&config);
    let mut scope = Vec::new();
    let tree = node(
        "include_directive",
        "",
        vec![
            leaf("path_spec", "bad.idl"),
            ParseNode::new("include_rejected", "expected identifier", 7, vec![]),
        ],
    );
    match context.process(&mut scope, &tree) {
        Err(IdlError::ParserError(error)) => {
            assert_eq!(error.kind, ParseErrorKind::Rejected);
            assert_eq!(error.pos, 7);
            assert_eq!(error.detail, "expected identifier");
        }
        other => panic!("not the failure expected: {:?}", other),
    }
}

#[test]
fn walking_a_tree_again_changes_nothing() {
    let config = Configuration::new(".", "input.idl", false);
    let header = vec![
        module_of("A", vec![struct_of("Foo", &["x"]), const_of("length", "20")]),
        typedef_of("octet_type", &["Byte"]),
    ];
    let between = module_of("B", vec![struct_of("Foo", &["y"]), const_of("other", "1")]);
    let once = vec![
        included("header.idl", header.clone()),
        between.clone(),
    ];
    let twice = vec![
        included("header.idl", header.clone()),
        between,
        included("header.idl", header),
    ];
    let first = analyze(&config, &once);
    let second = analyze(&config, &twice);
    let summary = |root: &IdlModule| {
        let names: Vec<_> = root.submodules().iter().map(|m| m.id.clone().unwrap()).collect();
        let a = child(root, "A");
        let b = child(root, "B");
        (
            names,
            type_ids(root),
            type_ids(a),
            a.constants.keys().cloned().collect::<Vec<_>>(),
            type_ids(b),
            b.type_dcls()[0].clone(),
        )
    };
    assert_eq!(summary(&first.root_module), summary(&second.root_module));
    assert_eq!(summary(&first.root_module).0, vec!["A".to_string(), "B".to_string()]);
}

#[test]
fn analysis_passes_over_trees_that_fail() {
    let config = Configuration::new(".", "input.idl", false);
    let trees = vec![const_of("a", "1"), leaf("struct_def", ""), const_of("b", "2")];
    let context = analyze(&config, &trees);
    let keys: Vec<_> = context.root_module.constants.keys().cloned().collect();
    assert_eq!(keys, vec!["a".to_string(), "b".to_string()]);
}
