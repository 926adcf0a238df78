use omg_idl_code_gen::render::render_with;
use omg_idl_code_gen::{
    IdlConstDcl, IdlModule, IdlScopedName, IdlStructMember, IdlSwitchCase, IdlSwitchElement,
    IdlSwitchLabel, IdlTypeDcl, IdlTypeDclKind, IdlTypeSpec, IdlValueExpr, RenderError,
    TemplateSet, TemplateValue,
};

const INDENT: &str = "{% for i in range(indent_level) %}    {% endfor %}";

fn templates() -> TemplateSet {
    let module = [INDENT, "pub mod {{ module_name }} {\n{{ module_information }}", INDENT, "}"].concat();
    let structure = [
        INDENT,
        "pub struct {{ struct_name }} {\n{% for field in fields %}",
        INDENT,
        "    pub {{ field.name }}: {{ field.type_str }},\n{% endfor %}",
        INDENT,
        "}",
    ]
    .concat();
    let enumeration = [
        INDENT,
        "pub enum {{ enum_name }} {\n{% for variant in variants %}",
        INDENT,
        "    {{ variant }},\n{% endfor %}",
        INDENT,
        "}",
    ]
    .concat();
    let union_switch = [
        INDENT,
        "pub enum {{ union_name }} {\n{% for member in union_members %}",
        INDENT,
        "    {% if member.name == \"default\" %}default{% else %}LABEL{{ member.name }}{% endif %}",
        "{ {{ member.element_id }}: {{ member.element_type }}, },\n{% endfor %}",
        INDENT,
        "}",
    ]
    .concat();
    let typedef = [INDENT, "pub type {{ typedef_name }} = {{ typedef_type }};"].concat();
    let constant = [INDENT, "pub const {{ const_name }}: {{ const_type }} = {{ const_value }};"].concat();
    TemplateSet::new(&module, &structure, &enumeration, &union_switch, &typedef, &constant)
}

fn scope(names: &[&str]) -> Vec<String> {
    names.iter().map(|n| n.to_string()).collect()
}

fn typedef(id: &str, spec: IdlTypeSpec) -> IdlTypeDcl {
    IdlTypeDcl(IdlTypeDclKind::TypeDcl(id.to_string(), spec))
}

fn constant(id: &str, value: &str) -> IdlConstDcl {
    IdlConstDcl {
        id: id.to_string(),
        typedcl: IdlTypeSpec::I32Type,
        value: IdlValueExpr::DecLiteral(value.to_string()),
    }
}

fn imports(indent: &str) -> String {
    format!(
        "{0}#[allow(unused_imports)]\n{0}use std::vec::Vec;\n{0}#[allow(unused_imports)]\n{0}use serde_derive::{{Serialize, Deserialize}};\n",
        indent
    )
}

#[test]
fn template_is_rendered_with_its_context() {
    let context = vec![
        ("who".to_string(), TemplateValue::Text("World".to_string())),
        ("count".to_string(), TemplateValue::Number(3)),
        ("items".to_string(), TemplateValue::Texts(vec!["a".to_string(), "b".to_string()])),
        (
            "rows".to_string(),
            TemplateValue::Records(vec![
                vec![("k".to_string(), "x".to_string()), ("v".to_string(), "1".to_string())],
                vec![("k".to_string(), "y".to_string()), ("v".to_string(), "2".to_string())],
            ]),
        ),
    ];
    let source = "Hello {{ who }} {{ count + 1 }} {% for i in items %}[{{ i }}]{% endfor %} {% for r in rows %}{{ r.k }}={{ r.v }};{% endfor %}";
    assert_eq!(render_with(source, &context).unwrap(), "Hello World 4 [a][b] x=1;y=2;");
}

#[test]
fn text_is_not_escaped() {
    let context = vec![("t".to_string(), TemplateValue::Text("Vec<A::B> & \"q\"".to_string()))];
    assert_eq!(render_with("{{ t }}", &context).unwrap(), "Vec<A::B> & \"q\"");
}

#[test]
fn broken_template_is_a_template_failure() {
    let context = vec![("who".to_string(), TemplateValue::Text("World".to_string()))];
    match render_with("{% for %}", &context) {
        Err(RenderError::Template(_)) => {}
        other => panic!("not the failure expected: {:?}", other),
    }
}

#[test]
fn typedef_is_rendered_at_its_level() {
    let dcl = typedef("FooSeq", IdlTypeSpec::SequenceType(Box::new(IdlTypeSpec::I32Type)));
    assert_eq!(dcl.render(&templates(), 0).unwrap(), "pub type FooSeq = Vec<i32>;");
    assert_eq!(dcl.render(&templates(), 2).unwrap(), "        pub type FooSeq = Vec<i32>;");
}

#[test]
fn struct_is_rendered_with_its_fields() {
    let dcl = IdlTypeDcl(IdlTypeDclKind::StructDcl(
        "Foo".to_string(),
        vec![
            IdlStructMember { id: "m_l1".to_string(), type_spec: IdlTypeSpec::I32Type },
            IdlStructMember { id: "m_d".to_string(), type_spec: IdlTypeSpec::F64Type },
        ],
    ));
    assert_eq!(
        dcl.render(&templates(), 1).unwrap(),
        "    pub struct Foo {\n        pub m_l1: i32,\n        pub m_d: f64,\n    }"
    );
}

#[test]
fn enum_is_rendered_with_its_variants() {
    let dcl = IdlTypeDcl(IdlTypeDclKind::EnumDcl(
        "Foo".to_string(),
        vec!["VARIANT0".to_string(), "VARIANT1".to_string(), "VARIANT2".to_string()],
    ));
    assert_eq!(
        dcl.render(&templates(), 0).unwrap(),
        "pub enum Foo {\n    VARIANT0,\n    VARIANT1,\n    VARIANT2,\n}"
    );
}

#[test]
fn union_is_rendered_with_one_member_for_each_label() {
    let label = |text: &str| IdlSwitchLabel::Label(IdlValueExpr::DecLiteral(text.to_string()));
    let element = |id: &str, spec: IdlTypeSpec| IdlSwitchElement { id: id.to_string(), type_spec: spec };
    let dcl = IdlTypeDcl(IdlTypeDclKind::UnionDcl(
        "Foo".to_string(),
        IdlTypeSpec::I32Type,
        vec![
            IdlSwitchCase { labels: vec![label("0")], elem_spec: element("l", IdlTypeSpec::I32Type) },
            IdlSwitchCase {
                labels: vec![label("1"), label("2")],
                elem_spec: element("s", IdlTypeSpec::I16Type),
            },
            IdlSwitchCase {
                labels: vec![IdlSwitchLabel::Default],
                elem_spec: element("o", IdlTypeSpec::OctetType),
            },
        ],
    ));
    assert_eq!(
        dcl.render(&templates(), 0).unwrap(),
        "pub enum Foo {\n    LABEL0{ l: i32, },\n    LABEL1{ s: i16, },\n    LABEL2{ s: i16, },\n    default{ o: u8, },\n}"
    );
}

#[test]
fn missing_declaration_renders_as_nothing() {
    assert_eq!(IdlTypeDcl::default().render(&templates(), 3).unwrap(), "");
    assert_eq!(IdlTypeDcl(IdlTypeDclKind::default()).render(&templates(), 0).unwrap(), "");
}

#[test]
fn constant_is_rendered_with_type_and_value() {
    let dcl = IdlConstDcl {
        id: "X".to_string(),
        typedcl: IdlTypeSpec::I32Type,
        value: IdlValueExpr::Expr(
            Box::new(IdlValueExpr::HexLiteral("0xF0".to_string())),
            Box::new(IdlValueExpr::BinaryOp(
                omg_idl_code_gen::BinaryOp::And,
                Box::new(IdlValueExpr::HexLiteral("0x0F".to_string())),
            )),
        ),
    };
    assert_eq!(dcl.render(&templates(), 0).unwrap(), "pub const X: i32 = 0xF0&0x0F;");
    assert_eq!(IdlConstDcl::default().render(&templates(), 0).unwrap(), "pub const :  = ;");
}

#[test]
fn empty_root_renders_as_nothing() {
    assert_eq!(IdlModule::new(None).render(&templates(), 0).unwrap(), "");
}

#[test]
fn root_holds_no_imports() {
    let mut root = IdlModule::new(None);
    root.add_type(&scope(&[]), "T".to_string(), typedef("T", IdlTypeSpec::OctetType));
    root.add_const(&scope(&[]), "N".to_string(), constant("N", "1"));
    assert_eq!(
        root.render(&templates(), 0).unwrap(),
        "pub type T = u8;\npub const N: i32 = 1;\n"
    );
}

#[test]
fn empty_module_renders_with_just_the_two_imports() {
    let module = IdlModule::new(Some("A".to_string()));
    let expected = format!("pub mod A {{\n{}}}", imports("    "));
    assert_eq!(module.render(&templates(), 0).unwrap(), expected);
    let deeper = format!("        pub mod A {{\n{}        }}", imports("            "));
    assert_eq!(module.render(&templates(), 2).unwrap(), deeper);
}

#[test]
fn module_renders_types_then_modules_then_constants() {
    let mut root = IdlModule::new(None);
    root.add_const(&scope(&["A"]), "N".to_string(), constant("N", "1"));
    root.add_type(&scope(&["A", "B"]), "T".to_string(), typedef("T", IdlTypeSpec::I16Type));
    root.add_type(&scope(&["A"]), "U".to_string(), typedef("U", IdlTypeSpec::I32Type));
    let b = format!("    pub mod B {{\n{}        pub type T = i16;\n    }}", imports("        "));
    let a = format!(
        "pub mod A {{\n{}    pub type U = i32;\n{}\n    pub const N: i32 = 1;\n}}",
        imports("    "),
        b
    );
    assert_eq!(root.render(&templates(), 0).unwrap(), format!("{}\n", a));
}

#[test]
fn declaration_is_nested_as_deep_as_its_scope() {
    let mut root = IdlModule::new(None);
    root.add_type(&scope(&["m1", "m2", "m3"]), "T".to_string(), typedef("T", IdlTypeSpec::I16Type));
    let m3 = format!("        pub mod m3 {{\n{}            pub type T = i16;\n        }}", imports("            "));
    let m2 = format!("    pub mod m2 {{\n{}{}\n    }}", imports("        "), m3);
    let m1 = format!("pub mod m1 {{\n{}{}\n}}", imports("    "), m2);
    assert_eq!(root.render(&templates(), 0).unwrap(), format!("{}\n", m1));
}

#[test]
fn own_imports_stand_at_the_level_of_the_module() {
    let mut module = IdlModule::new(Some("A".to_string()));
    module.uses.push("use crate::B;".to_string());
    let expected = format!(
        "    pub mod A {{\n    #[allow(unused_imports)]\n    use crate::B;\n{}    }}",
        imports("        ")
    );
    assert_eq!(module.render(&templates(), 1).unwrap(), expected);
}

#[test]
fn module_too_deep_to_count_fails() {
    let module = IdlModule::new(Some("A".to_string()));
    match module.render(&templates(), usize::MAX) {
        Err(RenderError::NestingTooDeep) => {}
        other => panic!("not the failure expected: {:?}", other),
    }
    assert_eq!(IdlModule::new(None).render(&templates(), usize::MAX).unwrap(), "");
}

#[test]
fn first_failing_declaration_fails_the_module() {
    let broken = TemplateSet::new("{{ module_information }}", "", "", "", "{% if %}", "ok");
    let mut root = IdlModule::new(None);
    root.add_const(&scope(&[]), "N".to_string(), constant("N", "1"));
    assert_eq!(root.render(&broken, 0).unwrap(), "ok\n");
    root.add_type(&scope(&["A"]), "T".to_string(), typedef("T", IdlTypeSpec::I16Type));
    match root.render(&broken, 0) {
        Err(RenderError::Template(_)) => {}
        other => panic!("not the failure expected: {:?}", other),
    }
}

#[test]
fn absolute_names_are_rooted_in_rendered_types() {
    let foo = IdlScopedName(vec!["A".to_string(), "Foo".to_string()], true);
    let length = IdlScopedName(vec!["A".to_string(), "length".to_string()], true);
    let sequence = typedef(
        "FooSeq",
        IdlTypeSpec::SequenceType(Box::new(IdlTypeSpec::ScopedName(foo.clone()))),
    );
    let array = typedef(
        "Foo",
        IdlTypeSpec::ArrayType(
            Box::new(IdlTypeSpec::ScopedName(foo)),
            vec![IdlValueExpr::ScopedName(length)],
        ),
    );
    assert_eq!(sequence.render(&templates(), 0).unwrap(), "pub type FooSeq = Vec<crate::A::Foo>;");
    assert_eq!(
        array.render(&templates(), 0).unwrap(),
        "pub type Foo = [crate::A::Foo;crate::A::length];"
    );
}
