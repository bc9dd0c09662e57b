use enuminfo_macros::enum_variants::implement_enum_variants;
use enuminfo_macros::model::{
    EnumInput, FieldShape, MacroError, MetaItem, MetaValue, VariantDef,
};

fn str_entry(key: &str, value: &str) -> MetaItem {
    MetaItem::Entry { key: key.to_string(), value: MetaValue::Str(value.to_string()) }
}

fn bare_entry(key: &str) -> MetaItem {
    MetaItem::Entry { key: key.to_string(), value: MetaValue::Bare }
}

fn variant(ident: &str, attrs: Vec<MetaItem>, fields: FieldShape) -> VariantDef {
    VariantDef { ident: ident.to_string(), attrs, fields }
}

fn enum_input(ident: &str, attrs: Vec<MetaItem>, variants: Vec<VariantDef>) -> EnumInput {
    EnumInput { ident: ident.to_string(), attrs, variants: Some(variants) }
}

#[test]
fn test_basic_enum_variants() {
    // Status::Pending, Status::Active, Status::Completed
    let input = enum_input(
        "Status",
        vec![],
        vec![
            variant("Pending", vec![], FieldShape::Unit),
            variant("Active", vec![], FieldShape::Unit),
            variant("Completed", vec![], FieldShape::Unit),
        ],
    );
    let t = implement_enum_variants(&input).unwrap();
    assert_eq!(t.variants, vec![0, 1, 2]);
    assert_eq!(t.variant_count(), 3);
}

#[test]
fn test_enum_variants_with_ignore() {
    // Role::Admin, Role::User; InternalSystem is left out
    let input = enum_input(
        "Role",
        vec![],
        vec![
            variant("Admin", vec![], FieldShape::Unit),
            variant("User", vec![], FieldShape::Unit),
            variant("InternalSystem", vec![bare_entry("ignore_variant")], FieldShape::Unit),
        ],
    );
    let t = implement_enum_variants(&input).unwrap();
    assert_eq!(t.variants, vec![0, 1]);
    assert_eq!(t.variant_count(), 2);
}

#[test]
fn test_enum_variants_empty_tuple_and_struct_variants() {
    let input = enum_input(
        "EmptyKinds",
        vec![],
        vec![
            variant("Unit", vec![], FieldShape::Unit),
            variant("Tuple", vec![], FieldShape::EmptyTuple),
            variant("Struct", vec![], FieldShape::EmptyStruct),
        ],
    );
    let t = implement_enum_variants(&input).unwrap();
    assert_eq!(t.variants, vec![0, 1, 2]);
    assert_eq!(t.variant_count(), 3);
}

#[test]
fn test_enum_variants_with_rename_attributes() {
    let input = enum_input(
        "Color",
        vec![str_entry("rename_all", "snake_case")],
        vec![
            variant("Red", vec![], FieldShape::Unit),
            variant("Green", vec![str_entry("rename", "custom_green")], FieldShape::Unit),
            variant("Blue", vec![], FieldShape::Unit),
        ],
    );
    let t = implement_enum_variants(&input).unwrap();
    assert_eq!(t.variants, vec![0, 1, 2]);
    assert_eq!(t.variant_count(), 3);
}

#[test]
fn variants_left_out_with_documented_key() {
    let input = enum_input(
        "Direction",
        vec![],
        vec![
            variant("North", vec![], FieldShape::Unit),
            variant("South", vec![], FieldShape::Unit),
            variant("East", vec![], FieldShape::Unit),
            variant("West", vec![], FieldShape::Unit),
            variant("Unknown", vec![bare_entry("ignore_variants")], FieldShape::Unit),
        ],
    );
    let t = implement_enum_variants(&input).unwrap();
    assert_eq!(t.variants, vec![0, 1, 2, 3]);
    assert_eq!(t.variant_count(), 4);
}

#[test]
fn variants_reject_variant_with_fields() {
    let input = enum_input(
        "E",
        vec![],
        vec![variant("A", vec![], FieldShape::WithFields)],
    );
    assert_eq!(implement_enum_variants(&input), Err(MacroError::NotUnitVariant { variant: 0 }));
}

#[test]
fn variants_reject_duplicate_names() {
    let input = enum_input(
        "E",
        vec![],
        vec![
            variant("A", vec![str_entry("rename", "x")], FieldShape::Unit),
            variant("B", vec![str_entry("rename", "x")], FieldShape::Unit),
        ],
    );
    assert_eq!(
        implement_enum_variants(&input),
        Err(MacroError::DuplicateName { variant: 1, name: "x".to_string() })
    );
}

#[test]
fn variants_reject_struct_input() {
    let input = EnumInput { ident: "S".to_string(), attrs: vec![], variants: None };
    assert_eq!(implement_enum_variants(&input), Err(MacroError::NotAnEnum));
}

#[test]
fn variants_listing_ignores_renames() {
    let plain = enum_input(
        "Color",
        vec![],
        vec![
            variant("Red", vec![], FieldShape::Unit),
            variant("Green", vec![bare_entry("ignore_variants")], FieldShape::Unit),
            variant("Blue", vec![], FieldShape::Unit),
        ],
    );
    let renamed = enum_input(
        "Color",
        vec![str_entry("rename_all", "SCREAMING_SNAKE_CASE")],
        vec![
            variant("Red", vec![str_entry("rename", "crimson")], FieldShape::Unit),
            variant(
                "Green",
                vec![str_entry("rename", "lime"), bare_entry("ignore_variants")],
                FieldShape::Unit,
            ),
            variant("Blue", vec![], FieldShape::Unit),
        ],
    );
    let a = implement_enum_variants(&plain).unwrap();
    let b = implement_enum_variants(&renamed).unwrap();
    assert_eq!(a.variants, vec![0, 2]);
    assert_eq!(a.variants, b.variants);
}
