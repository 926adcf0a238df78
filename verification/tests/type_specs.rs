use omg_idl_code_gen::{IdlScopedName, IdlTypeSpec, IdlValueExpr};

fn dec(text: &str) -> IdlValueExpr {
    IdlValueExpr::DecLiteral(text.to_string())
}

#[test]
fn primitives_have_their_tokens() {
    assert_eq!(IdlTypeSpec::F32Type.to_string(), "f32");
    assert_eq!(IdlTypeSpec::F64Type.to_string(), "f64");
    assert_eq!(IdlTypeSpec::F128Type.to_string(), "f128");
    assert_eq!(IdlTypeSpec::I16Type.to_string(), "i16");
    assert_eq!(IdlTypeSpec::I32Type.to_string(), "i32");
    assert_eq!(IdlTypeSpec::I64Type.to_string(), "i64");
    assert_eq!(IdlTypeSpec::U16Type.to_string(), "u16");
    assert_eq!(IdlTypeSpec::U32Type.to_string(), "u32");
    assert_eq!(IdlTypeSpec::U64Type.to_string(), "u64");
    assert_eq!(IdlTypeSpec::CharType.to_string(), "char");
    assert_eq!(IdlTypeSpec::WideCharType.to_string(), "char");
    assert_eq!(IdlTypeSpec::BooleanType.to_string(), "bool");
    assert_eq!(IdlTypeSpec::OctetType.to_string(), "u8");
}

#[test]
fn strings_render_as_string() {
    assert_eq!(IdlTypeSpec::StringType(None).to_string(), "String");
    assert_eq!(IdlTypeSpec::WideStringType(None).to_string(), "String");
}

#[test]
fn bounded_string_renders_as_unbounded() {
    let bounded = IdlTypeSpec::StringType(Some(Box::new(dec("32"))));
    assert_eq!(bounded.to_string(), IdlTypeSpec::StringType(None).to_string());
    let wide = IdlTypeSpec::WideStringType(Some(Box::new(dec("32"))));
    assert_eq!(wide.to_string(), IdlTypeSpec::WideStringType(None).to_string());
}

#[test]
fn sequence_renders_as_vec() {
    let seq = IdlTypeSpec::SequenceType(Box::new(IdlTypeSpec::I32Type));
    assert_eq!(seq.to_string(), "Vec<i32>");
    let nested = IdlTypeSpec::SequenceType(Box::new(seq));
    assert_eq!(nested.to_string(), "Vec<Vec<i32>>");
}

#[test]
fn array_of_one_dimension() {
    let array = IdlTypeSpec::ArrayType(Box::new(IdlTypeSpec::I32Type), vec![dec("4")]);
    assert_eq!(array.to_string(), "[i32;4]");
}

#[test]
fn array_of_three_dimensions_nests_first_to_last() {
    let array = IdlTypeSpec::ArrayType(
        Box::new(IdlTypeSpec::OctetType),
        vec![dec("2"), dec("3"), dec("4")],
    );
    assert_eq!(array.to_string(), "[[[u8;2];3];4]");
}

#[test]
fn array_without_dimension_is_its_element() {
    let array = IdlTypeSpec::ArrayType(Box::new(IdlTypeSpec::F64Type), vec![]);
    assert_eq!(array.to_string(), "f64");
}

#[test]
fn array_of_named_type_over_named_constant() {
    let foo = IdlScopedName(vec!["A".to_string(), "Foo".to_string()], true);
    let length = IdlScopedName(vec!["A".to_string(), "length".to_string()], true);
    let array = IdlTypeSpec::ArrayType(
        Box::new(IdlTypeSpec::ScopedName(foo)),
        vec![IdlValueExpr::ScopedName(length)],
    );
    assert_eq!(array.to_string(), "[crate::A::Foo;crate::A::length]");
}

#[test]
fn missing_type_is_empty() {
    assert_eq!(IdlTypeSpec::Missing.to_string(), "");
    assert_eq!(IdlTypeSpec::default(), IdlTypeSpec::Missing);
}

#[test]
fn type_clones_are_equal() {
    let array = IdlTypeSpec::ArrayType(
        Box::new(IdlTypeSpec::SequenceType(Box::new(IdlTypeSpec::StringType(Some(Box::new(
            dec("8"),
        )))))),
        vec![dec("2"), dec("3")],
    );
    assert_eq!(array.clone(), array);
    assert_eq!(array.clone().to_string(), "[[Vec<String>;2];3]");
}
