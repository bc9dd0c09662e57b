use enuminfo_macros::enum_from_name::implement_enum_from_name;
use enuminfo_macros::enum_name::implement_enum_name;
use enuminfo_macros::model::{
    AttrPlace, AttrProblem, EnumInput, FieldShape, MacroError, MetaItem, MetaValue, VariantDef,
};

fn str_entry(key: &str, value: &str) -> MetaItem {
    MetaItem::Entry { key: key.to_string(), value: MetaValue::Str(value.to_string()) }
}

fn bare_entry(key: &str) -> MetaItem {
    MetaItem::Entry { key: key.to_string(), value: MetaValue::Bare }
}

fn variant(ident: &str, attrs: Vec<MetaItem>, fields: FieldShape) -> VariantDef {
    VariantDef { ident: ident.to_string(), attrs, fields }
}

fn enum_input(ident: &str, attrs: Vec<MetaItem>, variants: Vec<VariantDef>) -> EnumInput {
    EnumInput { ident: ident.to_string(), attrs, variants: Some(variants) }
}

// Variant indices of the enums below.
const FIRST_VARIANT: usize = 0;
const SECOND_VARIANT: usize = 1;
const USER_ACCOUNT: usize = 0;
const ADMIN_ROLE: usize = 1;
const ACTIVE_STATUS: usize = 0;

fn simple_enum() -> EnumInput {
    enum_input(
        "SimpleEnum",
        vec![],
        vec![
            variant("FirstVariant", vec![], FieldShape::Unit),
            variant("SecondVariant", vec![], FieldShape::Unit),
        ],
    )
}

fn custom_enum() -> EnumInput {
    enum_input(
        "CustomEnum",
        vec![str_entry("rename_all", "snake_case")],
        vec![
            variant("UserAccount", vec![], FieldShape::Unit),
            variant("AdminRole", vec![str_entry("rename", "ADMIN_ROLE")], FieldShape::Unit),
        ],
    )
}

fn ignored_enum() -> EnumInput {
    enum_input(
        "IgnoredEnum",
        vec![str_entry("rename_all", "kebab-case")],
        vec![
            variant("ActiveStatus", vec![], FieldShape::Unit),
            variant("IgnoredStatus", vec![bare_entry("ignore_from_name")], FieldShape::Unit),
        ],
    )
}

#[test]
fn test_simple_enum_from_name() {
    let t = implement_enum_from_name(&simple_enum()).unwrap();
    assert_eq!(t.from_name("FirstVariant"), Some(FIRST_VARIANT));
    assert_eq!(t.from_name("SecondVariant"), Some(SECOND_VARIANT));
    assert_eq!(t.from_name("UnknownVariant"), None);

    assert_eq!(t.from_raw_name("FirstVariant"), Some(FIRST_VARIANT));
    assert_eq!(t.from_raw_name("SecondVariant"), Some(SECOND_VARIANT));
    assert_eq!(t.from_raw_name("UnknownVariant"), None);
}

#[test]
fn test_custom_rename_from_name() {
    let t = implement_enum_from_name(&custom_enum()).unwrap();
    assert_eq!(t.from_name("user_account"), Some(USER_ACCOUNT));
    assert_eq!(t.from_name("ADMIN_ROLE"), Some(ADMIN_ROLE));
    assert_eq!(t.from_name("admin_role"), None);
    assert_eq!(t.from_raw_name("UserAccount"), Some(USER_ACCOUNT));
    assert_eq!(t.from_raw_name("AdminRole"), Some(ADMIN_ROLE));
}

#[test]
fn test_ignored_variant_cannot_be_parsed() {
    let t = implement_enum_from_name(&ignored_enum()).unwrap();
    assert_eq!(t.from_name("active-status"), Some(ACTIVE_STATUS));
    assert_eq!(t.from_raw_name("ActiveStatus"), Some(ACTIVE_STATUS));

    assert_eq!(t.from_name("ignored-status"), None);
    assert_eq!(t.from_raw_name("IgnoredStatus"), None);
}

#[test]
fn test_from_str() {
    let t = implement_enum_from_name(&ignored_enum()).unwrap();
    assert_eq!(t.from_str("active-status").unwrap(), ACTIVE_STATUS);
    assert!(t.from_str("ignored-status").is_err());
}

#[test]
fn from_str_error_names_type_and_input() {
    let t = implement_enum_from_name(&ignored_enum()).unwrap();
    let e = t.from_str("nope").unwrap_err();
    assert_eq!(e.type_ident, "IgnoredEnum");
    assert_eq!(e.input, "nope");
}

#[test]
fn from_name_arms_list_kept_variants() {
    let t = implement_enum_from_name(&ignored_enum()).unwrap();
    assert_eq!(t.entries.len(), 1);
    assert_eq!(t.entries[0].variant, 0);
    assert_eq!(t.entries[0].name, "active-status");
    assert_eq!(t.entries[0].raw_name, "ActiveStatus");
}

#[test]
fn from_name_accepts_empty_tuple_and_struct_variants() {
    let input = enum_input(
        "EmptyKinds",
        vec![],
        vec![
            variant("Unit", vec![], FieldShape::Unit),
            variant("Tuple", vec![], FieldShape::EmptyTuple),
            variant("Struct", vec![], FieldShape::EmptyStruct),
        ],
    );
    let t = implement_enum_from_name(&input).unwrap();
    assert_eq!(t.from_name("Tuple"), Some(1));
    assert_eq!(t.from_name("Struct"), Some(2));
}

#[test]
fn from_name_rejects_variant_with_fields() {
    let input = enum_input(
        "E",
        vec![],
        vec![
            variant("A", vec![], FieldShape::Unit),
            variant("B", vec![], FieldShape::WithFields),
        ],
    );
    assert_eq!(implement_enum_from_name(&input), Err(MacroError::NotUnitVariant { variant: 1 }));
}

#[test]
fn from_name_skips_ignored_variant_with_fields() {
    let input = enum_input(
        "E",
        vec![],
        vec![
            variant("A", vec![], FieldShape::Unit),
            variant("B", vec![bare_entry("ignore_from_name")], FieldShape::WithFields),
        ],
    );
    let t = implement_enum_from_name(&input).unwrap();
    assert_eq!(t.entries.len(), 1);
    assert_eq!(t.from_raw_name("B"), None);
}

#[test]
fn from_name_refuses_unknown_container_key() {
    let input = enum_input(
        "E",
        vec![bare_entry("something_else")],
        vec![variant("A", vec![], FieldShape::Unit)],
    );
    assert_eq!(
        implement_enum_from_name(&input),
        Err(MacroError::Attribute {
            place: AttrPlace::Container,
            item: 0,
            problem: AttrProblem::UnknownKey
        })
    );
}

#[test]
fn from_name_passes_over_unknown_variant_key() {
    let input = enum_input(
        "E",
        vec![],
        vec![variant("A", vec![bare_entry("something_else")], FieldShape::Unit)],
    );
    let t = implement_enum_from_name(&input).unwrap();
    assert_eq!(t.from_name("A"), Some(0));
}

#[test]
fn from_name_refuses_value_on_ignore_key() {
    let input = enum_input(
        "E",
        vec![],
        vec![variant("A", vec![str_entry("ignore_from_name", "yes")], FieldShape::Unit)],
    );
    assert_eq!(
        implement_enum_from_name(&input),
        Err(MacroError::Attribute {
            place: AttrPlace::Variant(0),
            item: 0,
            problem: AttrProblem::UnexpectedValue
        })
    );
}

#[test]
fn from_name_rejects_duplicate_names() {
    let input = enum_input(
        "E",
        vec![str_entry("rename_all", "snake_case")],
        vec![
            variant("HttpCode", vec![], FieldShape::Unit),
            variant("HTTPCode", vec![], FieldShape::Unit),
        ],
    );
    assert_eq!(
        implement_enum_from_name(&input),
        Err(MacroError::DuplicateName { variant: 1, name: "http_code".to_string() })
    );
}

#[test]
fn from_name_rejects_struct_input() {
    let input = EnumInput { ident: "S".to_string(), attrs: vec![], variants: None };
    assert_eq!(implement_enum_from_name(&input), Err(MacroError::NotAnEnum));
}

#[test]
fn from_name_inverts_name_on_concrete_enum() {
    let input = custom_enum();
    let names = implement_enum_name(&input).unwrap();
    let t = implement_enum_from_name(&input).unwrap();
    for v in 0..2 {
        assert_eq!(t.from_name(&names.names[v]), Some(v));
        assert_eq!(t.from_raw_name(&names.raw_names[v]), Some(v));
    }
}
