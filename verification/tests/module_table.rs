use omg_idl_code_gen::{
    Configuration, Context, IdlConstDcl, IdlModule, IdlTypeDcl, IdlTypeDclKind, IdlTypeSpec,
    IdlValueExpr,
};

fn scope(names: &[&str]) -> Vec<String> {
    names.iter().map(|n| n.to_string()).collect()
}

fn typedef(id: &str, spec: IdlTypeSpec) -> IdlTypeDcl {
    IdlTypeDcl(IdlTypeDclKind::TypeDcl(id.to_string(), spec))
}

fn constant(id: &str, value: &str) -> IdlConstDcl {
    IdlConstDcl {
        id: id.to_string(),
        typedcl: IdlTypeSpec::I32Type,
        value: IdlValueExpr::DecLiteral(value.to_string()),
    }
}

fn child<'a>(module: &'a IdlModule, name: &str) -> &'a IdlModule {
    module
        .submodules()
        .into_iter()
        .find(|m| m.id.as_deref() == Some(name))
        .unwrap()
}

#[test]
fn new_module_is_empty() {
    let root = IdlModule::new(None);
    assert!(root.id.is_none());
    assert!(root.uses.is_empty());
    assert!(root.submodules().is_empty());
    assert!(root.type_dcls().is_empty());
    assert!(root.const_dcls().is_empty());
    let named = IdlModule::new(Some("A".to_string()));
    assert_eq!(named.id.as_deref(), Some("A"));
}

#[test]
fn lookup_creates_the_modules_on_the_way() {
    let mut root = IdlModule::new(None);
    {
        let leaf = root.lookup_or_create(&scope(&["A", "B"]));
        assert_eq!(leaf.id.as_deref(), Some("B"));
    }
    let a = child(&root, "A");
    assert_eq!(a.submodules().len(), 1);
    assert_eq!(child(a, "B").submodules().len(), 0);
}

#[test]
fn lookup_of_the_empty_scope_is_the_module_itself() {
    let mut root = IdlModule::new(None);
    root.lookup_or_create(&scope(&[])).uses.push("use x;".to_string());
    assert_eq!(root.uses, vec!["use x;".to_string()]);
    assert!(root.submodules().is_empty());
}

#[test]
fn lookup_finds_what_is_there() {
    let mut root = IdlModule::new(None);
    root.lookup_or_create(&scope(&["A"])).uses.push("marked".to_string());
    root.lookup_or_create(&scope(&["B"]));
    let again = root.lookup_or_create(&scope(&["A"]));
    assert_eq!(again.uses, vec!["marked".to_string()]);
    let names: Vec<_> = root.submodules().iter().map(|m| m.id.clone().unwrap()).collect();
    assert_eq!(names, vec!["A".to_string(), "B".to_string()]);
}

#[test]
fn types_keep_their_order_of_declaration() {
    let mut root = IdlModule::new(None);
    root.add_type(&scope(&[]), "Zeta".to_string(), typedef("Zeta", IdlTypeSpec::I16Type));
    root.add_type(&scope(&[]), "Alpha".to_string(), typedef("Alpha", IdlTypeSpec::I32Type));
    root.add_type(&scope(&[]), "Mid".to_string(), typedef("Mid", IdlTypeSpec::I64Type));
    let keys: Vec<_> = root.types.keys().cloned().collect();
    assert_eq!(keys, vec!["Zeta".to_string(), "Alpha".to_string(), "Mid".to_string()]);
    let dcls = root.type_dcls();
    assert_eq!(*dcls[0], typedef("Zeta", IdlTypeSpec::I16Type));
    assert_eq!(*dcls[2], typedef("Mid", IdlTypeSpec::I64Type));
}

#[test]
fn first_type_declaration_wins() {
    let mut root = IdlModule::new(None);
    root.add_type(&scope(&["A"]), "Foo".to_string(), typedef("Foo", IdlTypeSpec::I16Type));
    root.add_type(&scope(&["A"]), "Bar".to_string(), typedef("Bar", IdlTypeSpec::I32Type));
    root.add_type(&scope(&["A"]), "Foo".to_string(), typedef("Foo", IdlTypeSpec::F64Type));
    let a = child(&root, "A");
    let dcls = a.type_dcls();
    assert_eq!(dcls.len(), 2);
    assert_eq!(*dcls[0], typedef("Foo", IdlTypeSpec::I16Type));
    assert_eq!(*dcls[1], typedef("Bar", IdlTypeSpec::I32Type));
}

#[test]
fn first_constant_declaration_wins() {
    let mut root = IdlModule::new(None);
    root.add_const(&scope(&[]), "N".to_string(), constant("N", "1"));
    root.add_const(&scope(&[]), "N".to_string(), constant("N", "2"));
    let dcls = root.const_dcls();
    assert_eq!(dcls.len(), 1);
    assert_eq!(*dcls[0], constant("N", "1"));
}

#[test]
fn same_key_in_another_scope_is_another_declaration() {
    let mut root = IdlModule::new(None);
    root.add_type(&scope(&["A"]), "Foo".to_string(), typedef("Foo", IdlTypeSpec::I16Type));
    root.add_type(&scope(&["B"]), "Foo".to_string(), typedef("Foo", IdlTypeSpec::F64Type));
    root.add_type(&scope(&[]), "Foo".to_string(), typedef("Foo", IdlTypeSpec::BooleanType));
    assert_eq!(*child(&root, "A").type_dcls()[0], typedef("Foo", IdlTypeSpec::I16Type));
    assert_eq!(*child(&root, "B").type_dcls()[0], typedef("Foo", IdlTypeSpec::F64Type));
    assert_eq!(*root.type_dcls()[0], typedef("Foo", IdlTypeSpec::BooleanType));
}

#[test]
fn types_and_constants_have_their_own_keys() {
    let mut root = IdlModule::new(None);
    root.add_type(&scope(&[]), "X".to_string(), typedef("X", IdlTypeSpec::I16Type));
    root.add_const(&scope(&[]), "X".to_string(), constant("X", "5"));
    assert_eq!(root.type_dcls().len(), 1);
    assert_eq!(root.const_dcls().len(), 1);
}

#[test]
fn declaration_lands_in_the_module_of_its_scope() {
    let mut root = IdlModule::new(None);
    root.add_const(&scope(&["m1", "m2", "m3"]), "K".to_string(), constant("K", "9"));
    assert!(root.const_dcls().is_empty());
    let m1 = child(&root, "m1");
    assert!(m1.const_dcls().is_empty());
    let m2 = child(m1, "m2");
    assert!(m2.const_dcls().is_empty());
    let m3 = child(m2, "m3");
    assert_eq!(*m3.const_dcls()[0], constant("K", "9"));
    assert!(m3.submodules().is_empty());
}

#[test]
fn context_starts_with_an_empty_root() {
    let config = Configuration::new("dir", "root.idl", true);
    let context = Context::new(&config);
    assert_eq!(context.config.idl_file(), "root.idl");
    assert!(context.root_module.id.is_none());
    assert!(context.root_module.submodules().is_empty());
}

#[test]
fn context_enters_declarations_into_its_root() {
    let config = Configuration::new(".", "input.idl", false);
    let mut context = Context::new(&config);
    context.lookup_module(&scope(&["A"]));
    context.add_type_dcl(&scope(&["A"]), "T".to_string(), typedef("T", IdlTypeSpec::OctetType));
    context.add_const_dcl(&scope(&["A"]), "C".to_string(), constant("C", "1"));
    context.add_const_dcl(&scope(&["A"]), "C".to_string(), constant("C", "2"));
    let a = child(&context.root_module, "A");
    assert_eq!(a.type_dcls().len(), 1);
    assert_eq!(*a.const_dcls()[0], constant("C", "1"));
}
