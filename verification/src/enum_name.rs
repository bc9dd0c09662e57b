//! `EnumName`: each variant's public name and its identifier.
use vstd::prelude::*;
use crate::attrs::{
    container_casing, read_container_attrs, read_variant_attrs, resolve, resolve_name,
    variant_marks, variant_name, VariantPolicy,
};
use crate::model::{
    contains_string, strings, AttrPlace, AttrProblem, EnumInput, Failure, MacroError, VariantDef,
};
use crate::rename_case::RenameCase;

verus! {

/// What `EnumName` generates: `name()` gives `names[i]` and `raw_name()` gives
/// `raw_names[i]` for the variant with index `i`.
#[derive(Clone, Debug, PartialEq, Eq)]
pub struct NameTable {
    pub names: Vec<String>,
    pub raw_names: Vec<String>,
}

/// The identifiers of the variants, in order.
pub open spec fn idents(vs: Seq<VariantDef>) -> Seq<Seq<char>> {
    vs.map_values(|v: VariantDef| v.ident@)
}

/// The casing that the enum's attributes select where they are accepted.
pub open spec fn enum_casing(input: EnumInput, refuse_unknown: bool) -> RenameCase {
    match container_casing(input.attrs@, refuse_unknown) {
        Ok(c) => c,
        Err(_) => RenameCase::NoRename,
    }
}

/// Names the variants from index `i` on, after the names `seen`: the first
/// refused attribute entry or the first name met twice stops it.
pub open spec fn name_scan(vs: Seq<VariantDef>, case: RenameCase, i: int, seen: Seq<Seq<char>>) -> Result<
    Seq<Seq<char>>,
    Failure,
>
    decreases vs.len() - i,
{
    if i < 0 || i >= vs.len() {
        Ok(seen)
    } else {
        match variant_marks(vs[i], VariantPolicy::ForName) {
            Err((k, p)) => Err(
                Failure::Attribute { place: AttrPlace::Variant(i as usize), item: k, problem: p },
            ),
            Ok((renamed, _)) => {
                let n = resolve_name(renamed, vs[i].ident@, case);
                if seen.contains(n) {
                    Err(Failure::DuplicateName { variant: i, name: n })
                } else {
                    name_scan(vs, case, i + 1, seen.push(n))
                }
            },
        }
    }
}

/// What `EnumName` makes of its input: the variants' names, or why it refuses it.
pub open spec fn enum_name_outcome(input: EnumInput) -> Result<Seq<Seq<char>>, Failure> {
    match input.variants {
        None => Err(Failure::NotAnEnum),
        Some(vs) => match container_casing(input.attrs@, false) {
            Err((k, p)) => Err(
                Failure::Attribute { place: AttrPlace::Container, item: k, problem: p },
            ),
            Ok(case) => name_scan(vs@, case, 0, Seq::empty()),
        },
    }
}

/// Resolves the name of every variant and checks that no two share one.
pub fn implement_enum_name(input: &EnumInput) -> (r: Result<NameTable, MacroError>)
    ensures
        match r {
            Ok(t) => enum_name_outcome(*input) matches Ok(ns) && ns == strings(t.names@),
            Err(e) => enum_name_outcome(*input) matches Err(f) && f == e@,
        },
        r matches Ok(t) ==> {
            &&& input.variants matches Some(vs)
            &&& t.names.len() == vs.len()
            &&& strings(t.raw_names@) == idents(vs@)
            &&& forall|j: int|
                0 <= j < vs.len() ==> #[trigger] t.names@[j]@ == variant_name(
                    vs@[j],
                    VariantPolicy::ForName,
                    enum_casing(*input, false),
                )
            &&& strings(t.names@).no_duplicates()
        },
{
    let vs = match &input.variants {
        None => {
            return Err(MacroError::NotAnEnum);
        },
        Some(vs) => vs,
    };
    let case = match read_container_attrs(&input.attrs, false) {
        Err((k, p)) => {
            return Err(MacroError::Attribute { place: AttrPlace::Container, item: k, problem: p });
        },
        Ok(c) => c,
    };
    let mut names: Vec<String> = Vec::new();
    let mut raw_names: Vec<String> = Vec::new();
    let mut i: usize = 0;
    assert(strings(names@) =~= Seq::<Seq<char>>::empty());
    assert(strings(raw_names@) =~= idents(vs@).take(0));
    while i < vs.len()
        invariant
            0 <= i <= vs.len(),
            input.variants == Some(*vs),
            container_casing(input.attrs@, false) == Ok::<RenameCase, (int, AttrProblem)>(case),
            enum_name_outcome(*input) == name_scan(vs@, case, i as int, strings(names@)),
            names.len() == i,
            strings(raw_names@) == idents(vs@).take(i as int),
            forall|j: int|
                0 <= j < i ==> #[trigger] names@[j]@ == variant_name(
                    vs@[j],
                    VariantPolicy::ForName,
                    case,
                ),
            strings(names@).no_duplicates(),
        decreases vs.len() - i,
    {
        let v = &vs[i];
        let renamed = match read_variant_attrs(&v.attrs, VariantPolicy::ForName) {
            Err((k, p)) => {
                return Err(MacroError::Attribute { place: AttrPlace::Variant(i), item: k, problem: p });
            },
            Ok((renamed, _)) => renamed,
        };
        let name = resolve(&renamed, &v.ident, case);
        if contains_string(&names, &name) {
            return Err(MacroError::DuplicateName { variant: i, name });
        }
        let ghost old_names = names@;
        let ghost old_raw = raw_names@;
        names.push(name);
        raw_names.push(v.ident.clone());
        proof {
            assert(strings(names@) =~= strings(old_names).push(name@));
            assert(strings(raw_names@) =~= strings(old_raw).push(vs@[i as int].ident@));
            assert(idents(vs@).take(i + 1) =~= idents(vs@).take(i as int).push(
                idents(vs@)[i as int],
            ));
            assert forall|j: int| 0 <= j < i + 1 implies #[trigger] names@[j]@ == variant_name(
                vs@[j],
                VariantPolicy::ForName,
                case,
            ) by {
                if j < i {
                    assert(names@[j] == old_names[j]);
                }
            }
        }
        i = i + 1;
    }
    proof {
        assert(idents(vs@).take(vs.len() as int) =~= idents(vs@));
    }
    Ok(NameTable { names, raw_names })
}

} // verus!
