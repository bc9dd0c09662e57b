//! The `rename_all` casing conventions and how they turn a variant
//! identifier into its public name.
use vstd::prelude::*;

verus! {

/// What `str::to_lowercase` returns for a string.
pub uninterp spec fn lowercase_of(s: Seq<char>) -> Seq<char>;

/// What `str::to_uppercase` returns for a string.
pub uninterp spec fn uppercase_of(s: Seq<char>) -> Seq<char>;

/// What heck's `to_lower_camel_case` returns for a string.
pub uninterp spec fn lower_camel_case_of(s: Seq<char>) -> Seq<char>;

/// What heck's `to_snake_case` returns for a string.
pub uninterp spec fn snake_case_of(s: Seq<char>) -> Seq<char>;

/// What heck's `to_shouty_snake_case` returns for a string.
pub uninterp spec fn shouty_snake_case_of(s: Seq<char>) -> Seq<char>;

/// What heck's `to_kebab_case` returns for a string.
pub uninterp spec fn kebab_case_of(s: Seq<char>) -> Seq<char>;

/// What heck's `to_shouty_kebab_case` returns for a string.
pub uninterp spec fn shouty_kebab_case_of(s: Seq<char>) -> Seq<char>;

/// What heck's `to_upper_camel_case` returns for a string.
pub uninterp spec fn upper_camel_case_of(s: Seq<char>) -> Seq<char>;

/// Calls `str::to_lowercase`; its result is named `lowercase_of` of the input,
/// nothing more is claimed of it (Unicode lowercase mapping).
#[verifier::external_body]
fn str_to_lowercase(value: &str) -> (r: String)
    ensures
        r@ == lowercase_of(value@),
{
    value.to_lowercase()
}

/// Calls `str::to_uppercase`; its result is named `uppercase_of` of the input,
/// nothing more is claimed of it (Unicode uppercase mapping).
#[verifier::external_body]
fn str_to_uppercase(value: &str) -> (r: String)
    ensures
        r@ == uppercase_of(value@),
{
    value.to_uppercase()
}

/// Calls heck's `ToLowerCamelCase::to_lower_camel_case` on a `str`; claims only
/// that the result is `lower_camel_case_of` the input.
#[verifier::external_body]
fn heck_lower_camel_case(value: &str) -> (r: String)
    ensures
        r@ == lower_camel_case_of(value@),
{
    heck::ToLowerCamelCase::to_lower_camel_case(value)
}

/// Calls heck's `ToSnakeCase::to_snake_case` on a `str`; claims only that the
/// result is `snake_case_of` the input.
#[verifier::external_body]
pub(crate) fn heck_snake_case(value: &str) -> (r: String)
    ensures
        r@ == snake_case_of(value@),
{
    heck::ToSnakeCase::to_snake_case(value)
}

/// Calls heck's `ToShoutySnakeCase::to_shouty_snake_case` on a `str`; claims
/// only that the result is `shouty_snake_case_of` the input.
#[verifier::external_body]
fn heck_shouty_snake_case(value: &str) -> (r: String)
    ensures
        r@ == shouty_snake_case_of(value@),
{
    heck::ToShoutySnakeCase::to_shouty_snake_case(value)
}

/// Calls heck's `ToKebabCase::to_kebab_case` on a `str`; claims only that the
/// result is `kebab_case_of` the input.
#[verifier::external_body]
fn heck_kebab_case(value: &str) -> (r: String)
    ensures
        r@ == kebab_case_of(value@),
{
    heck::ToKebabCase::to_kebab_case(value)
}

/// Calls heck's `ToShoutyKebabCase::to_shouty_kebab_case` on a `str`; claims
/// only that the result is `shouty_kebab_case_of` the input.
#[verifier::external_body]
fn heck_shouty_kebab_case(value: &str) -> (r: String)
    ensures
        r@ == shouty_kebab_case_of(value@),
{
    heck::ToShoutyKebabCase::to_shouty_kebab_case(value)
}

/// Calls heck's `ToUpperCamelCase::to_upper_camel_case` on a `str`; claims
/// only that the result is `upper_camel_case_of` the input.
#[verifier::external_body]
fn heck_upper_camel_case(value: &str) -> (r: String)
    ensures
        r@ == upper_camel_case_of(value@),
{
    heck::ToUpperCamelCase::to_upper_camel_case(value)
}

/// Whether two string slices hold the same characters.
pub fn str_eq(a: &str, b: &str) -> (r: bool)
    ensures
        r == (a@ == b@),
{
    let x: String = a.to_owned();
    let y: String = b.to_owned();
    x == y
}

/// The casing conventions that `#[enuminfo(rename_all = "...")]` selects.
#[derive(Clone, Copy, Debug, PartialEq, Eq, Structural)]
pub enum RenameCase {
    NoRename,
    LowerCase,
    UpperCase,
    LowerCamelCase,
    SnakeCase,
    ScreamingSnakeCase,
    KebabCase,
    ScreamingKebabCase,
    UpperCamelCase,
}

/// The convention that a `rename_all` value names (serde's spellings, and the
/// hyphenated `SCREAMING-SNAKE-CASE`); any other value names none.
pub open spec fn casing_named(value: Seq<char>) -> RenameCase {
    if value == "lowercase"@ {
        RenameCase::LowerCase
    } else if value == "UPPERCASE"@ {
        RenameCase::UpperCase
    } else if value == "camelCase"@ || value == "lowerCamelCase"@ {
        RenameCase::LowerCamelCase
    } else if value == "snake_case"@ {
        RenameCase::SnakeCase
    } else if value == "SCREAMING_SNAKE_CASE"@ || value == "SCREAMING-SNAKE-CASE"@ {
        RenameCase::ScreamingSnakeCase
    } else if value == "kebab-case"@ {
        RenameCase::KebabCase
    } else if value == "SCREAMING-KEBAB-CASE"@ {
        RenameCase::ScreamingKebabCase
    } else if value == "PascalCase"@ || value == "UpperCamelCase"@ {
        RenameCase::UpperCamelCase
    } else {
        RenameCase::NoRename
    }
}

impl RenameCase {
    /// The string that this convention makes of `value`.
    pub open spec fn cased(self, value: Seq<char>) -> Seq<char> {
        match self {
            RenameCase::NoRename => value,
            RenameCase::LowerCase => lowercase_of(value),
            RenameCase::UpperCase => uppercase_of(value),
            RenameCase::LowerCamelCase => lower_camel_case_of(value),
            RenameCase::SnakeCase => snake_case_of(value),
            RenameCase::ScreamingSnakeCase => shouty_snake_case_of(value),
            RenameCase::KebabCase => kebab_case_of(value),
            RenameCase::ScreamingKebabCase => shouty_kebab_case_of(value),
            RenameCase::UpperCamelCase => upper_camel_case_of(value),
        }
    }

    /// Reads a `rename_all` value; an unrecognised value gives `NoRename`.
    pub fn from_str(value: &str) -> (r: RenameCase)
        ensures
            r == casing_named(value@),
    {
        if str_eq(value, "lowercase") {
            RenameCase::LowerCase
        } else if str_eq(value, "UPPERCASE") {
            RenameCase::UpperCase
        } else if str_eq(value, "camelCase") || str_eq(value, "lowerCamelCase") {
            RenameCase::LowerCamelCase
        } else if str_eq(value, "snake_case") {
            RenameCase::SnakeCase
        } else if str_eq(value, "SCREAMING_SNAKE_CASE") || str_eq(value, "SCREAMING-SNAKE-CASE") {
            RenameCase::ScreamingSnakeCase
        } else if str_eq(value, "kebab-case") {
            RenameCase::KebabCase
        } else if str_eq(value, "SCREAMING-KEBAB-CASE") {
            RenameCase::ScreamingKebabCase
        } else if str_eq(value, "PascalCase") || str_eq(value, "UpperCamelCase") {
            RenameCase::UpperCamelCase
        } else {
            RenameCase::NoRename
        }
    }

    /// Applies this convention to `value`.
    pub fn apply(&self, value: &str) -> (r: String)
        ensures
            r@ == self.cased(value@),
    {
        match self {
            RenameCase::NoRename => value.to_owned(),
            RenameCase::LowerCase => str_to_lowercase(value),
            RenameCase::UpperCase => str_to_uppercase(value),
            RenameCase::LowerCamelCase => heck_lower_camel_case(value),
            RenameCase::SnakeCase => heck_snake_case(value),
            RenameCase::ScreamingSnakeCase => heck_shouty_snake_case(value),
            RenameCase::KebabCase => heck_kebab_case(value),
            RenameCase::ScreamingKebabCase => heck_shouty_kebab_case(value),
            RenameCase::UpperCamelCase => heck_upper_camel_case(value),
        }
    }
}

} // verus!
