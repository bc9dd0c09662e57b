//! `EnumFromName`: the lookup of unit variants by name and by identifier.
use vstd::prelude::*;
use crate::attrs::{
    container_casing, read_container_attrs, read_variant_attrs, resolve, resolve_name,
    variant_marks, VariantPolicy,
};
use crate::enum_name::enum_casing;
use crate::listing::{lemma_list_keep, lemma_list_skip, lists_kept_variants};
use crate::model::{
    contains_string, strings, AttrPlace, AttrProblem, EnumInput, FieldShape, Failure, MacroError,
    VariantDef,
};
use crate::rename_case::{str_eq, RenameCase};

verus! {

/// One arm of the generated lookups: `name` and `raw_name` both lead to the
/// variant with index `variant`.
#[derive(Clone, Debug, PartialEq, Eq)]
pub struct FromNameEntry {
    pub variant: usize,
    pub name: String,
    pub raw_name: String,
}

/// What `EnumFromName` generates: `from_name` and `from_raw_name` try the
/// entries in order; the `FromStr` impl reports `type_ident` when nothing matches.
#[derive(Clone, Debug, PartialEq, Eq)]
pub struct FromNameTable {
    pub type_ident: String,
    pub entries: Vec<FromNameEntry>,
}

/// The error of the generated `FromStr` impl.
#[derive(Clone, Debug, PartialEq, Eq)]
pub struct FromNameError {
    pub type_ident: String,
    pub input: String,
}

/// An arm as a mathematical value: (variant index, name, identifier).
pub open spec fn entry_view(e: FromNameEntry) -> (int, Seq<char>, Seq<char>) {
    (e.variant as int, e.name@, e.raw_name@)
}

/// The arms as mathematical values.
pub open spec fn entries_view(es: Seq<FromNameEntry>) -> Seq<(int, Seq<char>, Seq<char>)> {
    es.map_values(|e: FromNameEntry| entry_view(e))
}

/// The names of the arms.
pub open spec fn arm_names(es: Seq<(int, Seq<char>, Seq<char>)>) -> Seq<Seq<char>> {
    es.map_values(|e: (int, Seq<char>, Seq<char>)| e.1)
}

/// The variant indices of the arms.
pub open spec fn arm_indices(es: Seq<(int, Seq<char>, Seq<char>)>) -> Seq<int> {
    es.map_values(|e: (int, Seq<char>, Seq<char>)| e.0)
}

/// Each arm's identifier is that of its variant.
pub open spec fn arms_carry_idents(vs: Seq<VariantDef>, es: Seq<(int, Seq<char>, Seq<char>)>) -> bool {
    forall|k: int|
        #![trigger es[k]]
        0 <= k < es.len() ==> 0 <= es[k].0 < vs.len() && es[k].2 == vs[es[k].0].ident@
}

/// Collects the arms for the variants from index `i` on, after the arms `seen`:
/// a variant marked `ignore_from_name` is left out; a refused attribute entry,
/// a variant with fields or a name met twice stops it.
pub open spec fn from_name_scan(
    vs: Seq<VariantDef>,
    case: RenameCase,
    i: int,
    seen: Seq<(int, Seq<char>, Seq<char>)>,
) -> Result<Seq<(int, Seq<char>, Seq<char>)>, Failure>
    decreases vs.len() - i,
{
    if i < 0 || i >= vs.len() {
        Ok(seen)
    } else {
        match variant_marks(vs[i], VariantPolicy::ForFromName) {
            Err((k, p)) => Err(
                Failure::Attribute { place: AttrPlace::Variant(i as usize), item: k, problem: p },
            ),
            Ok((renamed, ignored)) => {
                if ignored {
                    from_name_scan(vs, case, i + 1, seen)
                } else if vs[i].fields == FieldShape::WithFields {
                    Err(Failure::NotUnitVariant { variant: i })
                } else {
                    let n = resolve_name(renamed, vs[i].ident@, case);
                    if arm_names(seen).contains(n) {
                        Err(Failure::DuplicateName { variant: i, name: n })
                    } else {
                        from_name_scan(vs, case, i + 1, seen.push((i, n, vs[i].ident@)))
                    }
                }
            },
        }
    }
}

/// What `EnumFromName` makes of its input: the lookup arms, or why it refuses it.
pub open spec fn from_name_outcome(input: EnumInput) -> Result<
    Seq<(int, Seq<char>, Seq<char>)>,
    Failure,
> {
    match input.variants {
        None => Err(Failure::NotAnEnum),
        Some(vs) => match container_casing(input.attrs@, true) {
            Err((k, p)) => Err(
                Failure::Attribute { place: AttrPlace::Container, item: k, problem: p },
            ),
            Ok(case) => from_name_scan(vs@, case, 0, Seq::empty()),
        },
    }
}

/// When the arms collected so far describe the variants below `i`, a successful
/// collection describes all variants.
pub proof fn lemma_from_name_scan(
    vs: Seq<VariantDef>,
    case: RenameCase,
    i: int,
    seen: Seq<(int, Seq<char>, Seq<char>)>,
)
    requires
        lists_kept_variants(
            vs,
            VariantPolicy::ForFromName,
            case,
            arm_indices(seen),
            arm_names(seen),
            i,
        ),
        arms_carry_idents(vs, seen),
        from_name_scan(vs, case, i, seen) is Ok,
    ensures
        from_name_scan(vs, case, i, seen) matches Ok(res) && lists_kept_variants(
            vs,
            VariantPolicy::ForFromName,
            case,
            arm_indices(res),
            arm_names(res),
            vs.len() as int,
        ) && arms_carry_idents(vs, res),
    decreases vs.len() - i,
{
    if i < vs.len() {
        let p = VariantPolicy::ForFromName;
        let (renamed, ignored) = variant_marks(vs[i], p)->Ok_0;
        if ignored {
            lemma_list_skip(vs, p, case, arm_indices(seen), arm_names(seen), i);
            lemma_from_name_scan(vs, case, i + 1, seen);
        } else {
            let n = resolve_name(renamed, vs[i].ident@, case);
            let seen2 = seen.push((i, n, vs[i].ident@));
            lemma_list_keep(vs, p, case, arm_indices(seen), arm_names(seen), i);
            assert(arm_indices(seen2) =~= arm_indices(seen).push(i));
            assert(arm_names(seen2) =~= arm_names(seen).push(n));
            assert(arms_carry_idents(vs, seen2)) by {
                assert forall|k: int| 0 <= k < seen2.len() implies 0 <= #[trigger] seen2[k].0
                    < vs.len() && seen2[k].2 == vs[seen2[k].0].ident@ by {
                    if k < seen.len() {
                        assert(seen2[k] == seen[k]);
                    }
                }
            }
            lemma_from_name_scan(vs, case, i + 1, seen2);
        }
    }
}

/// The variant of the first arm from index `i` on whose name (or, with `raw`,
/// whose identifier) is `key`.
pub open spec fn first_match(
    es: Seq<(int, Seq<char>, Seq<char>)>,
    key: Seq<char>,
    raw: bool,
    i: int,
) -> Option<int>
    decreases es.len() - i,
{
    if i < 0 || i >= es.len() {
        None
    } else if (if raw {
        es[i].2
    } else {
        es[i].1
    }) == key {
        Some(es[i].0)
    } else {
        first_match(es, key, raw, i + 1)
    }
}

/// An optional index as an optional integer.
pub open spec fn opt_int(o: Option<usize>) -> Option<int> {
    match o {
        Some(v) => Some(v as int),
        None => None,
    }
}

/// Collects the lookup arms of the enum's unit variants, checking that no two
/// share a name.
pub fn implement_enum_from_name(input: &EnumInput) -> (r: Result<FromNameTable, MacroError>)
    ensures
        match r {
            Ok(t) => from_name_outcome(*input) matches Ok(es) && es == entries_view(t.entries@)
                && t.type_ident@ == input.ident@,
            Err(e) => from_name_outcome(*input) matches Err(f) && f == e@,
        },
        r matches Ok(t) ==> {
            &&& input.variants matches Some(vs)
            &&& lists_kept_variants(
                vs@,
                VariantPolicy::ForFromName,
                enum_casing(*input, true),
                arm_indices(entries_view(t.entries@)),
                arm_names(entries_view(t.entries@)),
                vs.len() as int,
            )
            &&& arms_carry_idents(vs@, entries_view(t.entries@))
        },
{
    let vs = match &input.variants {
        None => {
            return Err(MacroError::NotAnEnum);
        },
        Some(vs) => vs,
    };
    let case = match read_container_attrs(&input.attrs, true) {
        Err((k, p)) => {
            return Err(MacroError::Attribute { place: AttrPlace::Container, item: k, problem: p });
        },
        Ok(c) => c,
    };
    let mut entries: Vec<FromNameEntry> = Vec::new();
    let mut names: Vec<String> = Vec::new();
    let mut i: usize = 0;
    assert(entries_view(entries@) =~= Seq::<(int, Seq<char>, Seq<char>)>::empty());
    assert(strings(names@) =~= arm_names(entries_view(entries@)));
    while i < vs.len()
        invariant
            0 <= i <= vs.len(),
            input.variants == Some(*vs),
            container_casing(input.attrs@, true) == Ok::<RenameCase, (int, AttrProblem)>(case),
            from_name_outcome(*input) == from_name_scan(
                vs@,
                case,
                i as int,
                entries_view(entries@),
            ),
            strings(names@) == arm_names(entries_view(entries@)),
        decreases vs.len() - i,
    {
        let v = &vs[i];
        let (renamed, ignored) = match read_variant_attrs(&v.attrs, VariantPolicy::ForFromName) {
            Err((k, p)) => {
                return Err(MacroError::Attribute { place: AttrPlace::Variant(i), item: k, problem: p });
            },
            Ok(marks) => marks,
        };
        if !ignored {
            if v.fields == FieldShape::WithFields {
                return Err(MacroError::NotUnitVariant { variant: i });
            }
            let name = resolve(&renamed, &v.ident, case);
            if contains_string(&names, &name) {
                return Err(MacroError::DuplicateName { variant: i, name });
            }
            let ghost old_entries = entries@;
            let ghost old_names = names@;
            let entry = FromNameEntry { variant: i, name: name.clone(), raw_name: v.ident.clone() };
            entries.push(entry);
            names.push(name);
            proof {
                assert(entries_view(entries@) =~= entries_view(old_entries).push(
                    (i as int, name@, vs@[i as int].ident@),
                ));
                assert(strings(names@) =~= strings(old_names).push(name@));
                assert(arm_names(entries_view(entries@)) =~= arm_names(
                    entries_view(old_entries),
                ).push(name@));
            }
        }
        i = i + 1;
    }
    proof {
        let e0 = Seq::<(int, Seq<char>, Seq<char>)>::empty();
        assert(arm_indices(e0) =~= Seq::<int>::empty());
        assert(arm_names(e0) =~= Seq::<Seq<char>>::empty());
        lemma_from_name_scan(vs@, case, 0, e0);
    }
    Ok(FromNameTable { type_ident: input.ident.clone(), entries })
}

impl FromNameTable {
    /// The generated `from_name` (with `raw` false) or `from_raw_name` (with
    /// `raw` true): the variant of the first arm whose name or identifier is `key`.
    fn lookup(&self, key: &str, raw: bool) -> (r: Option<usize>)
        ensures
            opt_int(r) == first_match(entries_view(self.entries@), key@, raw, 0),
    {
        let ghost es = entries_view(self.entries@);
        let mut i: usize = 0;
        while i < self.entries.len()
            invariant
                0 <= i <= self.entries.len(),
                es == entries_view(self.entries@),
                first_match(es, key@, raw, 0) == first_match(es, key@, raw, i as int),
            decreases self.entries.len() - i,
        {
            let e = &self.entries[i];
            let hit = if raw {
                str_eq(e.raw_name.as_str(), key)
            } else {
                str_eq(e.name.as_str(), key)
            };
            if hit {
                return Some(e.variant);
            }
            i = i + 1;
        }
        None
    }

    /// The generated `from_name`: the variant whose name is `name`.
    pub fn from_name(&self, name: &str) -> (r: Option<usize>)
        ensures
            opt_int(r) == first_match(entries_view(self.entries@), name@, false, 0),
    {
        self.lookup(name, false)
    }

    /// The generated `from_raw_name`: the variant whose identifier is `name`.
    pub fn from_raw_name(&self, name: &str) -> (r: Option<usize>)
        ensures
            opt_int(r) == first_match(entries_view(self.entries@), name@, true, 0),
    {
        self.lookup(name, true)
    }

    /// The generated `FromStr` impl: `from_name`, or an error that names the
    /// type and the input.
    pub fn from_str(&self, s: &str) -> (r: Result<usize, FromNameError>)
        ensures
            match r {
                Ok(v) => first_match(entries_view(self.entries@), s@, false, 0) == Some(
                    v as int,
                ),
                Err(e) => first_match(entries_view(self.entries@), s@, false, 0) is None
                    && e.type_ident@ == self.type_ident@ && e.input@ == s@,
            },
    {
        match self.from_name(s) {
            Some(v) => Ok(v),
            None => Err(FromNameError { type_ident: self.type_ident.clone(), input: s.to_owned() }),
        }
    }
}

} // verus!
