//! `EnumVariants`: the list of unit variants that are not left out.
use vstd::prelude::*;
use crate::attrs::{
    container_casing, read_container_attrs, read_variant_attrs, resolve, resolve_name,
    variant_marks, VariantPolicy,
};
use crate::model::{
    contains_string, strings, AttrPlace, AttrProblem, EnumInput, FieldShape, Failure, MacroError,
    VariantDef,
};
use crate::enum_name::enum_casing;
use crate::listing::{lemma_list_keep, lemma_list_skip, lists_kept_variants};
use crate::rename_case::RenameCase;

verus! {

/// What `EnumVariants` generates: `VARIANTS` (and `variants()`) lists the
/// variants with these indices, in this order.
#[derive(Clone, Debug, PartialEq, Eq)]
pub struct VariantsTable {
    pub variants: Vec<usize>,
}

/// The names of listed variants.
pub open spec fn listed_names(es: Seq<(int, Seq<char>)>) -> Seq<Seq<char>> {
    es.map_values(|e: (int, Seq<char>)| e.1)
}

/// The indices of listed variants.
pub open spec fn listed_indices(es: Seq<(int, Seq<char>)>) -> Seq<int> {
    es.map_values(|e: (int, Seq<char>)| e.0)
}

/// Lists the variants from index `i` on, after the listed `seen` (index and
/// name): a variant marked `ignore_variants` is left out; a refused attribute
/// entry, a variant with fields or a name met twice stops it.
pub open spec fn variants_scan(
    vs: Seq<VariantDef>,
    case: RenameCase,
    i: int,
    seen: Seq<(int, Seq<char>)>,
) -> Result<Seq<(int, Seq<char>)>, Failure>
    decreases vs.len() - i,
{
    if i < 0 || i >= vs.len() {
        Ok(seen)
    } else {
        match variant_marks(vs[i], VariantPolicy::ForVariants) {
            Err((k, p)) => Err(
                Failure::Attribute { place: AttrPlace::Variant(i as usize), item: k, problem: p },
            ),
            Ok((renamed, ignored)) => {
                if ignored {
                    variants_scan(vs, case, i + 1, seen)
                } else if vs[i].fields == FieldShape::WithFields {
                    Err(Failure::NotUnitVariant { variant: i })
                } else {
                    let n = resolve_name(renamed, vs[i].ident@, case);
                    if listed_names(seen).contains(n) {
                        Err(Failure::DuplicateName { variant: i, name: n })
                    } else {
                        variants_scan(vs, case, i + 1, seen.push((i, n)))
                    }
                }
            },
        }
    }
}

/// When the variants listed so far describe the variants below `i`, a
/// successful listing describes all variants.
pub proof fn lemma_variants_scan(
    vs: Seq<VariantDef>,
    case: RenameCase,
    i: int,
    seen: Seq<(int, Seq<char>)>,
)
    requires
        lists_kept_variants(
            vs,
            VariantPolicy::ForVariants,
            case,
            listed_indices(seen),
            listed_names(seen),
            i,
        ),
        variants_scan(vs, case, i, seen) is Ok,
    ensures
        variants_scan(vs, case, i, seen) matches Ok(res) && lists_kept_variants(
            vs,
            VariantPolicy::ForVariants,
            case,
            listed_indices(res),
            listed_names(res),
            vs.len() as int,
        ),
    decreases vs.len() - i,
{
    if i < vs.len() {
        let p = VariantPolicy::ForVariants;
        let (renamed, ignored) = variant_marks(vs[i], p)->Ok_0;
        if ignored {
            lemma_list_skip(vs, p, case, listed_indices(seen), listed_names(seen), i);
            lemma_variants_scan(vs, case, i + 1, seen);
        } else {
            let n = resolve_name(renamed, vs[i].ident@, case);
            let seen2 = seen.push((i, n));
            lemma_list_keep(vs, p, case, listed_indices(seen), listed_names(seen), i);
            assert(listed_indices(seen2) =~= listed_indices(seen).push(i));
            assert(listed_names(seen2) =~= listed_names(seen).push(n));
            lemma_variants_scan(vs, case, i + 1, seen2);
        }
    }
}

/// What `EnumVariants` makes of its input: the listed variants with their
/// names, or why it refuses it.
pub open spec fn variants_outcome(input: EnumInput) -> Result<Seq<(int, Seq<char>)>, Failure> {
    match input.variants {
        None => Err(Failure::NotAnEnum),
        Some(vs) => match container_casing(input.attrs@, true) {
            Err((k, p)) => Err(
                Failure::Attribute { place: AttrPlace::Container, item: k, problem: p },
            ),
            Ok(case) => variants_scan(vs@, case, 0, Seq::empty()),
        },
    }
}

/// The indices as integers.
pub open spec fn indices(v: Seq<usize>) -> Seq<int> {
    v.map_values(|x: usize| x as int)
}

/// Lists the unit variants that are not left out, checking that no two of
/// them share a name.
pub fn implement_enum_variants(input: &EnumInput) -> (r: Result<VariantsTable, MacroError>)
    ensures
        match r {
            Ok(t) => variants_outcome(*input) matches Ok(es) && listed_indices(es) == indices(
                t.variants@,
            ),
            Err(e) => variants_outcome(*input) matches Err(f) && f == e@,
        },
        r matches Ok(t) ==> {
            &&& input.variants matches Some(vs)
            &&& variants_outcome(*input) matches Ok(es)
            &&& lists_kept_variants(
                vs@,
                VariantPolicy::ForVariants,
                enum_casing(*input, true),
                indices(t.variants@),
                listed_names(es),
                vs.len() as int,
            )
        },
{
    let vs = match &input.variants {
        None => {
            return Err(MacroError::NotAnEnum);
        },
        Some(vs) => vs,
    };
    let case = match read_container_attrs(&input.attrs, true) {
        Err((k, p)) => {
            return Err(MacroError::Attribute { place: AttrPlace::Container, item: k, problem: p });
        },
        Ok(c) => c,
    };
    let mut listed: Vec<usize> = Vec::new();
    let mut names: Vec<String> = Vec::new();
    let ghost mut seen: Seq<(int, Seq<char>)> = Seq::empty();
    let mut i: usize = 0;
    assert(strings(names@) =~= listed_names(seen));
    assert(indices(listed@) =~= listed_indices(seen));
    while i < vs.len()
        invariant
            0 <= i <= vs.len(),
            input.variants == Some(*vs),
            container_casing(input.attrs@, true) == Ok::<RenameCase, (int, AttrProblem)>(case),
            variants_outcome(*input) == variants_scan(vs@, case, i as int, seen),
            strings(names@) == listed_names(seen),
            indices(listed@) == listed_indices(seen),
        decreases vs.len() - i,
    {
        let v = &vs[i];
        let (renamed, ignored) = match read_variant_attrs(&v.attrs, VariantPolicy::ForVariants) {
            Err((k, p)) => {
                return Err(MacroError::Attribute { place: AttrPlace::Variant(i), item: k, problem: p });
            },
            Ok(marks) => marks,
        };
        if !ignored {
            if v.fields == FieldShape::WithFields {
                return Err(MacroError::NotUnitVariant { variant: i });
            }
            let name = resolve(&renamed, &v.ident, case);
            if contains_string(&names, &name) {
                return Err(MacroError::DuplicateName { variant: i, name });
            }
            let ghost old_seen = seen;
            let ghost old_names = names@;
            let ghost old_listed = listed@;
            proof {
                seen = seen.push((i as int, name@));
            }
            names.push(name);
            listed.push(i);
            proof {
                assert(strings(names@) =~= strings(old_names).push(seen.last().1));
                assert(listed_names(seen) =~= listed_names(old_seen).push(seen.last().1));
                assert(indices(listed@) =~= indices(old_listed).push(i as int));
                assert(listed_indices(seen) =~= listed_indices(old_seen).push(i as int));
            }
        }
        i = i + 1;
    }
    proof {
        let e0 = Seq::<(int, Seq<char>)>::empty();
        assert(listed_indices(e0) =~= Seq::<int>::empty());
        assert(listed_names(e0) =~= Seq::<Seq<char>>::empty());
        lemma_variants_scan(vs@, case, 0, e0);
    }
    Ok(VariantsTable { variants: listed })
}

impl VariantsTable {
    /// The generated `variant_count()`: how many variants are listed.
    pub fn variant_count(&self) -> (r: usize)
        ensures
            r == self.variants.len(),
    {
        self.variants.len()
    }
}

} // verus!
