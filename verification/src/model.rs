//! The derive input as plain values: what the derives read of an item, and
//! the errors they report.
use vstd::prelude::*;

verus! {

/// What follows a key inside `#[enuminfo(...)]`.
#[derive(Clone, Debug, PartialEq, Eq)]
pub enum MetaValue {
    /// The key stands alone, as in `ignore_from_name`.
    Bare,
    /// `key = "text"`.
    Str(String),
    /// Anything else after the key, such as `= 5` or `(...)`.
    Other,
}

/// One entry of an `#[enuminfo(...)]` attribute, in source order; the entries
/// of all `enuminfo` attributes of one item are listed one after another.
#[derive(Clone, Debug, PartialEq, Eq)]
pub enum MetaItem {
    /// A key, written as its path, with what follows it.
    Entry { key: String, value: MetaValue },
    /// The attribute's syntax breaks at this point.
    Malformed,
}

/// The fields of a variant.
#[derive(Clone, Copy, Debug, PartialEq, Eq, Structural)]
pub enum FieldShape {
    /// `Variant`
    Unit,
    /// `Variant()`
    EmptyTuple,
    /// `Variant {}`
    EmptyStruct,
    /// A variant that holds at least one field.
    WithFields,
}

/// One variant of the input enum.
#[derive(Clone, Debug, PartialEq, Eq)]
pub struct VariantDef {
    /// The identifier as written, such as `"InProgress"`.
    pub ident: String,
    /// The entries of its `enuminfo` attributes.
    pub attrs: Vec<MetaItem>,
    pub fields: FieldShape,
}

/// The item a derive is applied to.
#[derive(Clone, Debug, PartialEq, Eq)]
pub struct EnumInput {
    /// The item's identifier.
    pub ident: String,
    /// The entries of the item's own `enuminfo` attributes.
    pub attrs: Vec<MetaItem>,
    /// The variants in declaration order; `None` when the item is a struct or a union.
    pub variants: Option<Vec<VariantDef>>,
}

/// What is wrong with an attribute entry.
#[derive(Clone, Copy, Debug, PartialEq, Eq, Structural)]
pub enum AttrProblem {
    /// A key the derive does not accept in this place.
    UnknownKey,
    /// A key that takes `= "..."` was given no value or another kind of value.
    ExpectedString,
    /// A key that takes no value was given one.
    UnexpectedValue,
    /// The attribute's syntax breaks here.
    Malformed,
}

/// Where an attribute entry stands.
#[derive(Clone, Copy, Debug, PartialEq, Eq, Structural)]
pub enum AttrPlace {
    /// On the enum itself.
    Container,
    /// On the variant with this index.
    Variant(usize),
}

/// Why a derive refuses its input.
#[derive(Clone, Debug, PartialEq, Eq)]
pub enum MacroError {
    /// The item is not an enum.
    NotAnEnum,
    /// The entry at index `item` of the attributes at `place` is refused.
    Attribute { place: AttrPlace, item: usize, problem: AttrProblem },
    /// The variant with this index holds fields.
    NotUnitVariant { variant: usize },
    /// The variant with this index resolves to a name that an earlier one already has.
    DuplicateName { variant: usize, name: String },
}

/// A refusal as a mathematical value.
pub enum Failure {
    NotAnEnum,
    Attribute { place: AttrPlace, item: int, problem: AttrProblem },
    NotUnitVariant { variant: int },
    DuplicateName { variant: int, name: Seq<char> },
}

impl View for MacroError {
    type V = Failure;

    open spec fn view(&self) -> Failure {
        match self {
            MacroError::NotAnEnum => Failure::NotAnEnum,
            MacroError::Attribute { place, item, problem } => Failure::Attribute {
                place: *place,
                item: *item as int,
                problem: *problem,
            },
            MacroError::NotUnitVariant { variant } => Failure::NotUnitVariant {
                variant: *variant as int,
            },
            MacroError::DuplicateName { variant, name } => Failure::DuplicateName {
                variant: *variant as int,
                name: name@,
            },
        }
    }
}

/// The characters of each string, in order.
pub open spec fn strings(v: Seq<String>) -> Seq<Seq<char>> {
    v.map_values(|s: String| s@)
}

/// Whether `s` holds a string equal to `x`.
pub fn contains_string(s: &Vec<String>, x: &String) -> (r: bool)
    ensures
        r == strings(s@).contains(x@),
{
    let mut i: usize = 0;
    while i < s.len()
        invariant
            0 <= i <= s.len(),
            forall|j: int| 0 <= j < i ==> s@[j]@ != x@,
        decreases s.len() - i,
    {
        if s[i] == *x {
            assert(strings(s@)[i as int] == x@);
            return true;
        }
        i = i + 1;
    }
    assert(!strings(s@).contains(x@)) by {
        if strings(s@).contains(x@) {
            let j = choose|j: int| 0 <= j < strings(s@).len() && strings(s@)[j] == x@;
            assert(s@[j]@ == x@);
        }
    }
    false
}

} // verus!
