use cfg_ir::ast::{Ident, Module};
use cfg_ir::types::{EnumType, StructType, Type};

fn color() -> Type {
    Type::Enum(EnumType {
        name: "Color".to_string(),
        variants: vec!["Red".to_string(), "Green".to_string()],
    })
}

fn point() -> Type {
    Type::Struct(StructType { name: "Point".to_string(), fields: vec!["x".to_string(), "y".to_string()] })
}

fn names(defs: &[(String, Type)]) -> Vec<String> {
    defs.iter().map(|(n, t)| format!("{}={}", n, t.render())).collect()
}

#[test]
fn enum_constructors_keeps_only_enums() {
    let m = Module { ty_defs: vec![("Color".to_string(), color()), ("Point".to_string(), point())], fns: vec![] };
    let r = m.enum_constructors();
    assert_eq!(r.len(), 1);
    assert_eq!(r[0].0, "Color");
    match &r[0].1 {
        Type::Enum(e) => {
            assert_eq!(e.name, "Color");
            assert_eq!(e.variants, vec!["Red".to_string(), "Green".to_string()]);
        }
        _ => panic!("expected an enumerated type"),
    }
}

#[test]
fn enum_constructors_twice_is_equal() {
    let m = Module {
        ty_defs: vec![("Point".to_string(), point()), ("Color".to_string(), color()), ("Flag".to_string(), Type::Bool)],
        fns: vec![],
    };
    let a = m.enum_constructors();
    let b = m.enum_constructors();
    assert_eq!(names(&a), names(&b));
    assert_eq!(names(&a), vec!["Color=Color".to_string()]);
    assert_eq!(m.ty_defs.len(), 3);
}

#[test]
fn enum_constructors_without_enums_is_empty() {
    let m = Module { ty_defs: vec![("Point".to_string(), point())], fns: vec![] };
    assert!(m.enum_constructors().is_empty());
    let empty = Module { ty_defs: vec![], fns: vec![] };
    assert!(empty.enum_constructors().is_empty());
}

#[test]
fn ident_from_string() {
    let id = Ident::from("main".to_string());
    assert_eq!(id.text(), "main");
    assert_eq!(Ident::from("add").text(), "add");
    assert!(Ident::from("x") == Ident::from("x".to_string()));
}

#[test]
fn type_copies_and_names() {
    let c = color().duplicate();
    assert_eq!(c.render(), "Color");
    assert!(c.is_enum());
    assert!(!point().is_enum());
    assert_eq!(Type::Int.render(), "Int");
}
