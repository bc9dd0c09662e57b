//! `EnumClass`: the enum's own name.
use vstd::prelude::*;
use crate::model::{EnumInput, MacroError};

verus! {

/// The string that the generated `class()` returns: the enum's identifier.
pub fn implement_enum_class(input: &EnumInput) -> (r: Result<String, MacroError>)
    ensures
        match r {
            Ok(s) => input.variants is Some && s@ == input.ident@,
            Err(e) => input.variants is None && e == MacroError::NotAnEnum,
        },
{
    match &input.variants {
        None => Err(MacroError::NotAnEnum),
        Some(_) => Ok(input.ident.clone()),
    }
}

} // verus!
