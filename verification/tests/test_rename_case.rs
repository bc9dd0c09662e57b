use enuminfo_macros::rename_case::{str_eq, RenameCase};

#[test]
fn casing_names() {
    assert_eq!(RenameCase::from_str("lowercase"), RenameCase::LowerCase);
    assert_eq!(RenameCase::from_str("UPPERCASE"), RenameCase::UpperCase);
    assert_eq!(RenameCase::from_str("camelCase"), RenameCase::LowerCamelCase);
    assert_eq!(RenameCase::from_str("lowerCamelCase"), RenameCase::LowerCamelCase);
    assert_eq!(RenameCase::from_str("snake_case"), RenameCase::SnakeCase);
    assert_eq!(RenameCase::from_str("SCREAMING-SNAKE-CASE"), RenameCase::ScreamingSnakeCase);
    assert_eq!(RenameCase::from_str("SCREAMING_SNAKE_CASE"), RenameCase::ScreamingSnakeCase);
    assert_eq!(RenameCase::from_str("kebab-case"), RenameCase::KebabCase);
    assert_eq!(RenameCase::from_str("SCREAMING-KEBAB-CASE"), RenameCase::ScreamingKebabCase);
    assert_eq!(RenameCase::from_str("PascalCase"), RenameCase::UpperCamelCase);
    assert_eq!(RenameCase::from_str("UpperCamelCase"), RenameCase::UpperCamelCase);
}

#[test]
fn unknown_casing_is_no_rename() {
    assert_eq!(RenameCase::from_str("Train-Case"), RenameCase::NoRename);
    assert_eq!(RenameCase::from_str("screaming_snake_case"), RenameCase::NoRename);
    assert_eq!(RenameCase::from_str(""), RenameCase::NoRename);
    assert_eq!(RenameCase::from_str("Title Case").apply("MyVariant"), "MyVariant");
}

#[test]
fn casing_of_my_variant() {
    assert_eq!(RenameCase::NoRename.apply("MyVariant"), "MyVariant");
    assert_eq!(RenameCase::LowerCase.apply("MyVariant"), "myvariant");
    assert_eq!(RenameCase::UpperCase.apply("MyVariant"), "MYVARIANT");
    assert_eq!(RenameCase::LowerCamelCase.apply("MyVariant"), "myVariant");
    assert_eq!(RenameCase::SnakeCase.apply("MyVariant"), "my_variant");
    assert_eq!(RenameCase::ScreamingSnakeCase.apply("MyVariant"), "MY_VARIANT");
    assert_eq!(RenameCase::KebabCase.apply("MyVariant"), "my-variant");
    assert_eq!(RenameCase::ScreamingKebabCase.apply("MyVariant"), "MY-VARIANT");
    assert_eq!(RenameCase::UpperCamelCase.apply("MyVariant"), "MyVariant");
}

#[test]
fn casing_changes_its_input() {
    assert_eq!(RenameCase::UpperCamelCase.apply("XMLHttpRequest"), "XmlHttpRequest");
    assert_eq!(RenameCase::LowerCamelCase.apply("XMLHttpRequest"), "xmlHttpRequest");
    assert_eq!(RenameCase::SnakeCase.apply("XMLHttpRequest"), "xml_http_request");
    assert_eq!(RenameCase::ScreamingSnakeCase.apply("XMLHttpRequest"), "XML_HTTP_REQUEST");
    assert_eq!(RenameCase::KebabCase.apply("XMLHttpRequest"), "xml-http-request");
    assert_eq!(RenameCase::ScreamingKebabCase.apply("XMLHttpRequest"), "XML-HTTP-REQUEST");
    assert_eq!(RenameCase::LowerCase.apply("ÀB"), "àb");
    assert_eq!(RenameCase::UpperCase.apply("straße"), "STRASSE");
}

#[test]
fn string_equality() {
    assert!(str_eq("abc", "abc"));
    assert!(!str_eq("abc", "abd"));
    assert!(!str_eq("abc", "ab"));
    assert!(str_eq("", ""));
}
