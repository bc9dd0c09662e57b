use enuminfo_macros::enum_name::implement_enum_name;
use enuminfo_macros::model::{
    AttrPlace, AttrProblem, EnumInput, FieldShape, MacroError, MetaItem, MetaValue, VariantDef,
};

fn str_entry(key: &str, value: &str) -> MetaItem {
    MetaItem::Entry { key: key.to_string(), value: MetaValue::Str(value.to_string()) }
}

fn bare_entry(key: &str) -> MetaItem {
    MetaItem::Entry { key: key.to_string(), value: MetaValue::Bare }
}

fn variant(ident: &str, attrs: Vec<MetaItem>, fields: FieldShape) -> VariantDef {
    VariantDef { ident: ident.to_string(), attrs, fields }
}

fn enum_input(ident: &str, attrs: Vec<MetaItem>, variants: Vec<VariantDef>) -> EnumInput {
    EnumInput { ident: ident.to_string(), attrs, variants: Some(variants) }
}

#[test]
fn test_simple_enum_names() {
    let input = enum_input(
        "SimpleEnum",
        vec![],
        vec![
            variant("FirstVariant", vec![], FieldShape::Unit),
            variant("SecondVariant", vec![], FieldShape::Unit),
        ],
    );
    let table = implement_enum_name(&input).unwrap();

    assert_eq!(table.names[0], "FirstVariant");
    assert_eq!(table.raw_names[0], "FirstVariant");

    assert_eq!(table.names[1], "SecondVariant");
    assert_eq!(table.raw_names[1], "SecondVariant");
}

#[test]
fn test_rename_all_snake_case_and_variant_types() {
    let input = enum_input(
        "SnakeEnum",
        vec![str_entry("rename_all", "snake_case")],
        vec![
            variant("UnitVariant", vec![], FieldShape::Unit),
            variant("TupleVariant", vec![], FieldShape::WithFields),
            variant("StructVariant", vec![], FieldShape::WithFields),
        ],
    );
    let table = implement_enum_name(&input).unwrap();

    assert_eq!(table.names[0], "unit_variant");
    assert_eq!(table.names[1], "tuple_variant");
    assert_eq!(table.names[2], "struct_variant");

    assert_eq!(table.raw_names[0], "UnitVariant");
    assert_eq!(table.raw_names[1], "TupleVariant");
    assert_eq!(table.raw_names[2], "StructVariant");
}

#[test]
fn test_individual_rename_override() {
    let input = enum_input(
        "CustomRenamedEnum",
        vec![str_entry("rename_all", "kebab-case")],
        vec![
            variant("NormalVariant", vec![], FieldShape::Unit),
            variant(
                "SpecialVariant",
                vec![str_entry("rename", "OVERRIDDEN_NAME")],
                FieldShape::WithFields,
            ),
        ],
    );
    let table = implement_enum_name(&input).unwrap();

    assert_eq!(table.names[0], "normal-variant");
    assert_eq!(table.raw_names[0], "NormalVariant");

    assert_eq!(table.names[1], "OVERRIDDEN_NAME");
    assert_eq!(table.raw_names[1], "SpecialVariant");
}

#[test]
fn name_rejects_struct_input() {
    let input = EnumInput { ident: "Point".to_string(), attrs: vec![], variants: None };
    assert_eq!(implement_enum_name(&input), Err(MacroError::NotAnEnum));
}

#[test]
fn name_rejects_duplicate_after_casing() {
    let input = enum_input(
        "Clash",
        vec![str_entry("rename_all", "lowercase")],
        vec![
            variant("Red", vec![], FieldShape::Unit),
            variant("RED", vec![], FieldShape::Unit),
        ],
    );
    assert_eq!(
        implement_enum_name(&input),
        Err(MacroError::DuplicateName { variant: 1, name: "red".to_string() })
    );
}

#[test]
fn name_rejects_duplicate_from_rename() {
    let input = enum_input(
        "Clash",
        vec![],
        vec![
            variant("Alpha", vec![], FieldShape::Unit),
            variant("Beta", vec![str_entry("rename", "Alpha")], FieldShape::Unit),
        ],
    );
    assert_eq!(
        implement_enum_name(&input),
        Err(MacroError::DuplicateName { variant: 1, name: "Alpha".to_string() })
    );
}

#[test]
fn name_refuses_unknown_variant_key() {
    let input = enum_input(
        "E",
        vec![],
        vec![
            variant("A", vec![], FieldShape::Unit),
            variant("B", vec![str_entry("rename", "b"), bare_entry("ignore_from_name")], FieldShape::Unit),
        ],
    );
    assert_eq!(
        implement_enum_name(&input),
        Err(MacroError::Attribute {
            place: AttrPlace::Variant(1),
            item: 1,
            problem: AttrProblem::UnknownKey
        })
    );
}

#[test]
fn name_passes_over_unknown_bare_container_key() {
    let input = enum_input(
        "E",
        vec![bare_entry("something_else"), str_entry("rename_all", "UPPERCASE")],
        vec![variant("Abc", vec![], FieldShape::Unit)],
    );
    let table = implement_enum_name(&input).unwrap();
    assert_eq!(table.names, vec!["ABC".to_string()]);
}

#[test]
fn name_refuses_value_on_unknown_container_key() {
    let input = enum_input(
        "E",
        vec![str_entry("something_else", "x")],
        vec![variant("Abc", vec![], FieldShape::Unit)],
    );
    assert_eq!(
        implement_enum_name(&input),
        Err(MacroError::Attribute {
            place: AttrPlace::Container,
            item: 0,
            problem: AttrProblem::UnexpectedValue
        })
    );
}

#[test]
fn name_refuses_rename_without_string() {
    let input = enum_input(
        "E",
        vec![],
        vec![variant("Abc", vec![bare_entry("rename")], FieldShape::Unit)],
    );
    assert_eq!(
        implement_enum_name(&input),
        Err(MacroError::Attribute {
            place: AttrPlace::Variant(0),
            item: 0,
            problem: AttrProblem::ExpectedString
        })
    );
}

#[test]
fn name_refuses_non_string_rename_all() {
    let input = enum_input(
        "E",
        vec![MetaItem::Entry { key: "rename_all".to_string(), value: MetaValue::Other }],
        vec![variant("Abc", vec![], FieldShape::Unit)],
    );
    assert_eq!(
        implement_enum_name(&input),
        Err(MacroError::Attribute {
            place: AttrPlace::Container,
            item: 0,
            problem: AttrProblem::ExpectedString
        })
    );
}

#[test]
fn name_reports_malformed_attribute() {
    let input = enum_input(
        "E",
        vec![],
        vec![variant("Abc", vec![str_entry("rename", "x"), MetaItem::Malformed], FieldShape::Unit)],
    );
    assert_eq!(
        implement_enum_name(&input),
        Err(MacroError::Attribute {
            place: AttrPlace::Variant(0),
            item: 1,
            problem: AttrProblem::Malformed
        })
    );
}

#[test]
fn name_last_rename_and_rename_all_win() {
    let input = enum_input(
        "E",
        vec![str_entry("rename_all", "UPPERCASE"), str_entry("rename_all", "kebab-case")],
        vec![
            variant("FirstOne", vec![str_entry("rename", "a"), str_entry("rename", "b")], FieldShape::Unit),
            variant("SecondOne", vec![], FieldShape::Unit),
        ],
    );
    let table = implement_enum_name(&input).unwrap();
    assert_eq!(table.names, vec!["b".to_string(), "second-one".to_string()]);
}

#[test]
fn name_unknown_casing_keeps_identifiers() {
    let input = enum_input(
        "E",
        vec![str_entry("rename_all", "Title Case")],
        vec![variant("MyVariant", vec![], FieldShape::Unit)],
    );
    let table = implement_enum_name(&input).unwrap();
    assert_eq!(table.names, vec!["MyVariant".to_string()]);
}

#[test]
fn name_of_empty_enum() {
    let input = enum_input("Never", vec![], vec![]);
    let table = implement_enum_name(&input).unwrap();
    assert!(table.names.is_empty());
    assert!(table.raw_names.is_empty());
}

#[test]
fn name_table_equals_identifiers_without_casing() {
    let input = enum_input(
        "E",
        vec![str_entry("rename_all", "Title Case")],
        vec![
            variant("FirstOne", vec![], FieldShape::Unit),
            variant("SecondOne", vec![], FieldShape::WithFields),
        ],
    );
    let table = implement_enum_name(&input).unwrap();
    assert_eq!(table.names, table.raw_names);
}

#[test]
fn name_serde_screaming_snake_case() {
    let input = enum_input(
        "E",
        vec![str_entry("rename_all", "SCREAMING_SNAKE_CASE")],
        vec![variant("MyVariant", vec![], FieldShape::Unit)],
    );
    let table = implement_enum_name(&input).unwrap();
    assert_eq!(table.names, vec!["MY_VARIANT".to_string()]);
}
