use enuminfo_macros::enum_class::implement_enum_class;
use enuminfo_macros::enum_is::{implement_enum_is, is_method_for};
use enuminfo_macros::model::{EnumInput, FieldShape, MacroError, VariantDef};

fn unit(ident: &str) -> VariantDef {
    VariantDef { ident: ident.to_string(), attrs: vec![], fields: FieldShape::Unit }
}

// Variant indices of SimpleEnum.
const CASE1: usize = 0;
const CASE2: usize = 1;

#[test]
fn test_enum_is() {
    let input = EnumInput {
        ident: "SimpleEnum".to_string(),
        attrs: vec![],
        variants: Some(vec![unit("Case1"), unit("Case2")]),
    };
    let m = implement_enum_is(&input).unwrap();

    assert!(m.check("is_case1", CASE1).unwrap());
    assert!(!m.check("is_case2", CASE1).unwrap());

    assert!(!m.check("is_case1", CASE2).unwrap());
    assert!(m.check("is_case2", CASE2).unwrap());
}

#[test]
fn is_methods_are_snake_case() {
    let input = EnumInput {
        ident: "UserRole".to_string(),
        attrs: vec![],
        variants: Some(vec![
            unit("Admin"),
            VariantDef { ident: "StandardUser".to_string(), attrs: vec![], fields: FieldShape::WithFields },
        ]),
    };
    let m = implement_enum_is(&input).unwrap();
    assert_eq!(m.methods, vec!["is_admin".to_string(), "is_standard_user".to_string()]);
    assert_eq!(m.check("is_nobody", 0), None);
}

#[test]
fn is_method_name_of_acronym() {
    assert_eq!(is_method_for("XMLHttpRequest"), "is_xml_http_request");
}

#[test]
fn is_rejects_struct_input() {
    let input = EnumInput { ident: "S".to_string(), attrs: vec![], variants: None };
    assert_eq!(implement_enum_is(&input), Err(MacroError::NotAnEnum));
}

#[test]
fn class_is_enum_ident() {
    let input = EnumInput { ident: "Shape".to_string(), attrs: vec![], variants: Some(vec![]) };
    assert_eq!(implement_enum_class(&input), Ok("Shape".to_string()));
    let s = EnumInput { ident: "S".to_string(), attrs: vec![], variants: None };
    assert_eq!(implement_enum_class(&s), Err(MacroError::NotAnEnum));
}
