//! Verified logic of the `enuminfo` derive macros: how variant names are
//! resolved and checked, and what each derive generates for an enum.
pub mod attrs;
pub mod doc_laws;
pub mod enum_class;
pub mod enum_from_name;
pub mod enum_is;
pub mod enum_name;
pub mod enum_variants;
pub mod laws;
pub mod listing;
pub mod model;
pub mod rename_case;
