//! Properties that hold across the derives and of the code they generate.
use vstd::prelude::*;
use crate::attrs::{
    container_casing, container_scan, is_ignore_key, resolve_name, variant_ignored, variant_marks,
    variant_name, variant_scan, VariantPolicy,
};
use crate::enum_from_name::{
    arm_indices, arm_names, arms_carry_idents, first_match, from_name_outcome,
    lemma_from_name_scan,
};
use crate::enum_is::{enum_is_outcome, first_method};
use crate::enum_name::{enum_casing, enum_name_outcome, idents, name_scan};
use crate::enum_variants::{listed_indices, variants_outcome, variants_scan};
use crate::listing::lists_kept_variants;
use crate::model::{EnumInput, MetaItem, MetaValue, VariantDef};
use crate::rename_case::{casing_named, RenameCase};

verus! {

/// The component of an arm that a lookup compares with its key.
pub open spec fn arm_key(e: (int, Seq<char>, Seq<char>), raw: bool) -> Seq<char> {
    if raw {
        e.2
    } else {
        e.1
    }
}

/// A lookup finds the first arm whose key matches.
proof fn lemma_first_match_hit(
    es: Seq<(int, Seq<char>, Seq<char>)>,
    key: Seq<char>,
    raw: bool,
    i: int,
    k: int,
)
    requires
        0 <= i <= k < es.len(),
        arm_key(es[k], raw) == key,
        forall|m: int| i <= m < k ==> arm_key(#[trigger] es[m], raw) != key,
    ensures
        first_match(es, key, raw, i) == Some(es[k].0),
    decreases k - i,
{
    if i < k {
        lemma_first_match_hit(es, key, raw, i + 1, k);
    }
}

/// What a lookup finds is the variant of an arm whose key matches.
proof fn lemma_first_match_sound(
    es: Seq<(int, Seq<char>, Seq<char>)>,
    key: Seq<char>,
    raw: bool,
    i: int,
)
    requires
        0 <= i,
    ensures
        first_match(es, key, raw, i) matches Some(v) ==> exists|k: int|
            i <= k < es.len() && arm_key(#[trigger] es[k], raw) == key && es[k].0 == v,
    decreases es.len() - i,
{
    if i < es.len() {
        lemma_first_match_sound(es, key, raw, i + 1);
        if arm_key(es[i], raw) == key {
            assert(arm_key(es[i], raw) == key && es[i].0 == es[i].0);
        }
    }
}

/// The arms that `EnumFromName` builds for an accepted input.
proof fn lemma_arms(input: EnumInput, es: Seq<(int, Seq<char>, Seq<char>)>)
    requires
        from_name_outcome(input) == Ok::<Seq<(int, Seq<char>, Seq<char>)>, crate::model::Failure>(
            es,
        ),
    ensures
        input.variants is Some,
        lists_kept_variants(
            input.variants->Some_0@,
            VariantPolicy::ForFromName,
            enum_casing(input, true),
            arm_indices(es),
            arm_names(es),
            input.variants->Some_0.len() as int,
        ),
        arms_carry_idents(input.variants->Some_0@, es),
{
    let vs = input.variants->Some_0@;
    let case = enum_casing(input, true);
    let e0 = Seq::<(int, Seq<char>, Seq<char>)>::empty();
    assert(arm_indices(e0) =~= Seq::<int>::empty());
    assert(arm_names(e0) =~= Seq::<Seq<char>>::empty());
    lemma_from_name_scan(vs, case, 0, e0);
}

/// Looking up the name of a variant that `EnumFromName` keeps gives that
/// variant back: `from_name(name(v)) == Some(v)`.
pub proof fn law_from_name_finds_kept_variant(
    input: EnumInput,
    es: Seq<(int, Seq<char>, Seq<char>)>,
    j: int,
)
    requires
        from_name_outcome(input) == Ok::<Seq<(int, Seq<char>, Seq<char>)>, crate::model::Failure>(
            es,
        ),
        input.variants matches Some(vs) && 0 <= j < vs.len() && !variant_ignored(
            vs@[j],
            VariantPolicy::ForFromName,
        ),
    ensures
        first_match(
            es,
            variant_name(
                input.variants->Some_0@[j],
                VariantPolicy::ForFromName,
                enum_casing(input, true),
            ),
            false,
            0,
        ) == Some(j),
{
    lemma_arms(input, es);
    let vs = input.variants->Some_0@;
    let idx = arm_indices(es);
    let names = arm_names(es);
    assert(idx.contains(j));
    let k = choose|k: int| 0 <= k < idx.len() && idx[k] == j;
    assert(idx[k] == es[k].0);
    let key = names[k];
    assert forall|m: int| 0 <= m < k implies arm_key(#[trigger] es[m], false) != key by {
        assert(names[m] == es[m].1);
    }
    lemma_first_match_hit(es, key, false, 0, k);
}

/// Looking up the identifier of a variant that `EnumFromName` keeps gives that
/// variant back: `from_raw_name(raw_name(v)) == Some(v)`, for an enum whose
/// variant identifiers differ (as in every enum Rust accepts).
pub proof fn law_from_raw_name_finds_kept_variant(
    input: EnumInput,
    es: Seq<(int, Seq<char>, Seq<char>)>,
    j: int,
)
    requires
        from_name_outcome(input) == Ok::<Seq<(int, Seq<char>, Seq<char>)>, crate::model::Failure>(
            es,
        ),
        input.variants matches Some(vs) && 0 <= j < vs.len() && !variant_ignored(
            vs@[j],
            VariantPolicy::ForFromName,
        ),
        input.variants matches Some(vs) && forall|a: int, b: int|
            0 <= a < b < vs.len() ==> (#[trigger] vs@[a]).ident@ != (#[trigger] vs@[b]).ident@,
    ensures
        first_match(es, input.variants->Some_0@[j].ident@, true, 0) == Some(j),
{
    lemma_arms(input, es);
    let vs = input.variants->Some_0@;
    let idx = arm_indices(es);
    assert(idx.contains(j));
    let k = choose|k: int| 0 <= k < idx.len() && idx[k] == j;
    assert(idx[k] == es[k].0);
    let key = vs[j].ident@;
    assert forall|m: int| 0 <= m < k implies arm_key(#[trigger] es[m], true) != key by {
        assert(idx[m] == es[m].0);
        assert(idx[m] < idx[k]);
        assert(vs[es[m].0] != vs[j] || es[m].0 == j);
    }
    lemma_first_match_hit(es, key, true, 0, k);
}

/// A lookup by name or by identifier only ever gives a variant that
/// `EnumFromName` keeps, and one whose name (or identifier) is the key; a
/// variant marked `ignore_from_name` is never found.
pub proof fn law_from_name_only_finds_kept_variants(
    input: EnumInput,
    es: Seq<(int, Seq<char>, Seq<char>)>,
    key: Seq<char>,
    raw: bool,
)
    requires
        from_name_outcome(input) == Ok::<Seq<(int, Seq<char>, Seq<char>)>, crate::model::Failure>(
            es,
        ),
    ensures
        first_match(es, key, raw, 0) matches Some(v) ==> {
            let vs = input.variants->Some_0@;
            &&& 0 <= v < vs.len()
            &&& !variant_ignored(vs[v], VariantPolicy::ForFromName)
            &&& key == (if raw {
                vs[v].ident@
            } else {
                variant_name(vs[v], VariantPolicy::ForFromName, enum_casing(input, true))
            })
        },
{
    lemma_arms(input, es);
    lemma_first_match_sound(es, key, raw, 0);
    if let Some(v) = first_match(es, key, raw, 0) {
        let k = choose|k: int| 0 <= k < es.len() && arm_key(#[trigger] es[k], raw) == key && es[k].0 == v;
        assert(arm_indices(es)[k] == es[k].0);
        assert(arm_names(es)[k] == es[k].1);
    }
}

/// An enum attribute list that `EnumFromName` accepts (only `rename_all` keys)
/// is read the same way by `EnumName`.
proof fn lemma_container_agree(items: Seq<MetaItem>, i: int, case: RenameCase)
    requires
        container_scan(items, true, i, case) is Ok,
    ensures
        container_scan(items, false, i, case) == container_scan(items, true, i, case),
    decreases items.len() - i,
{
    if 0 <= i < items.len() {
        let c = crate::attrs::container_step(items[i], true, case)->Ok_0;
        lemma_container_agree(items, i + 1, c);
    }
}

/// A variant attribute list that `EnumName` accepts (only `rename` keys) is
/// read the same way by `EnumFromName`.
proof fn lemma_variant_agree(
    items: Seq<MetaItem>,
    i: int,
    renamed: Option<Seq<char>>,
    ignored: bool,
)
    requires
        variant_scan(items, VariantPolicy::ForName, i, renamed, ignored) is Ok,
    ensures
        variant_scan(items, VariantPolicy::ForFromName, i, renamed, ignored) == variant_scan(
            items,
            VariantPolicy::ForName,
            i,
            renamed,
            ignored,
        ),
    decreases items.len() - i,
{
    if 0 <= i < items.len() {
        let (r, g) = crate::attrs::variant_step(
            items[i],
            VariantPolicy::ForName,
            renamed,
            ignored,
        )->Ok_0;
        lemma_variant_agree(items, i + 1, r, g);
    }
}

/// The names that `EnumName` gives, in a successful naming.
pub proof fn lemma_name_scan(vs: Seq<VariantDef>, case: RenameCase, i: int, seen: Seq<Seq<char>>)
    requires
        0 <= i <= vs.len(),
        seen.len() == i,
        forall|j: int|
            0 <= j < i ==> (#[trigger] variant_marks(vs[j], VariantPolicy::ForName)) is Ok
                && seen[j] == variant_name(vs[j], VariantPolicy::ForName, case),
        name_scan(vs, case, i, seen) is Ok,
    ensures
        name_scan(vs, case, i, seen) matches Ok(res) && res.len() == vs.len() && forall|j: int|
            0 <= j < vs.len() ==> (#[trigger] variant_marks(vs[j], VariantPolicy::ForName)) is Ok
                && res[j] == variant_name(vs[j], VariantPolicy::ForName, case),
    decreases vs.len() - i,
{
    if i < vs.len() {
        let (renamed, _) = variant_marks(vs[i], VariantPolicy::ForName)->Ok_0;
        let n = resolve_name(renamed, vs[i].ident@, case);
        let seen2 = seen.push(n);
        assert forall|j: int| 0 <= j < i + 1 implies (#[trigger] variant_marks(
            vs[j],
            VariantPolicy::ForName,
        )) is Ok && seen2[j] == variant_name(vs[j], VariantPolicy::ForName, case) by {
            if j < i {
                assert(seen2[j] == seen[j]);
            }
        }
        lemma_name_scan(vs, case, i + 1, seen2);
    }
}

/// For an enum that derives both `EnumName` and `EnumFromName`, every value is
/// found again by its name and by its identifier:
/// `from_name(v.name()) == Some(v)` and `from_raw_name(v.raw_name()) == Some(v)`,
/// for an enum whose variant identifiers differ (as in every enum Rust accepts).
pub proof fn law_from_name_inverts_name(
    input: EnumInput,
    ns: Seq<Seq<char>>,
    es: Seq<(int, Seq<char>, Seq<char>)>,
    j: int,
)
    requires
        enum_name_outcome(input) == Ok::<Seq<Seq<char>>, crate::model::Failure>(ns),
        from_name_outcome(input) == Ok::<Seq<(int, Seq<char>, Seq<char>)>, crate::model::Failure>(
            es,
        ),
        input.variants matches Some(vs) && 0 <= j < vs.len(),
        input.variants matches Some(vs) && forall|a: int, b: int|
            0 <= a < b < vs.len() ==> (#[trigger] vs@[a]).ident@ != (#[trigger] vs@[b]).ident@,
    ensures
        0 <= j < ns.len(),
        first_match(es, ns[j], false, 0) == Some(j),
        first_match(es, input.variants->Some_0@[j].ident@, true, 0) == Some(j),
{
    let vs = input.variants->Some_0@;
    lemma_container_agree(input.attrs@, 0, RenameCase::NoRename);
    let case = enum_casing(input, true);
    assert(container_casing(input.attrs@, false) == container_casing(input.attrs@, true));
    lemma_name_scan(vs, case, 0, Seq::empty());
    assert(variant_marks(vs[j], VariantPolicy::ForName) is Ok);
    lemma_variant_agree(vs[j].attrs@, 0, None, false);
    lemma_scan_ignored(vs[j].attrs@, VariantPolicy::ForName, 0, None, false);
    assert(!variant_ignored(vs[j], VariantPolicy::ForFromName));
    assert(variant_name(vs[j], VariantPolicy::ForName, case) == variant_name(
        vs[j],
        VariantPolicy::ForFromName,
        case,
    ));
    law_from_name_finds_kept_variant(input, es, j);
    law_from_raw_name_finds_kept_variant(input, es, j);
}

/// Whether an entry carries a key that leaves its variant out under `policy`.
pub open spec fn is_ignore_entry(m: MetaItem, policy: VariantPolicy) -> bool {
    m matches MetaItem::Entry { key, .. } && is_ignore_key(policy, key@)
}

/// Whether some entry carries a key that leaves its variant out under `policy`.
pub open spec fn carries_ignore_key(items: Seq<MetaItem>, policy: VariantPolicy) -> bool {
    exists|k: int| 0 <= k < items.len() && #[trigger] is_ignore_entry(items[k], policy)
}

/// Whether an entry is a `rename` or `rename_all` entry.
pub open spec fn is_rename_entry(m: MetaItem) -> bool {
    m matches MetaItem::Entry { key, .. } && (key@ == "rename"@ || key@ == "rename_all"@)
}

/// The entries without the `rename` and `rename_all` ones, in order.
pub open spec fn without_renames(items: Seq<MetaItem>) -> Seq<MetaItem>
    decreases items.len(),
{
    if items.len() == 0 {
        items
    } else if is_rename_entry(items.last()) {
        without_renames(items.drop_last())
    } else {
        without_renames(items.drop_last()).push(items.last())
    }
}

/// No key that leaves a variant out is spelled `rename` or `rename_all`.
pub proof fn lemma_ignore_keys_are_not_renames(m: MetaItem, policy: VariantPolicy)
    ensures
        is_ignore_entry(m, policy) ==> !is_rename_entry(m),
        is_ignore_entry(m, policy) ==> (m matches MetaItem::Entry { key, .. } && key@ != "rename"@),
{
    reveal_strlit("rename");
    reveal_strlit("rename_all");
    reveal_strlit("ignore_from_name");
    reveal_strlit("ignore_variants");
    reveal_strlit("ignore_variant");
    assert("rename"@.len() == 6);
    assert("rename_all"@.len() == 10);
    assert("ignore_from_name"@.len() == 16);
    assert("ignore_variants"@.len() == 15);
    assert("ignore_variant"@.len() == 14);
}

/// In an accepted reading, a variant ends up left out exactly when it was so
/// already or one of the remaining entries carries an ignore key.
pub proof fn lemma_scan_ignored(
    items: Seq<MetaItem>,
    policy: VariantPolicy,
    i: int,
    renamed: Option<Seq<char>>,
    ignored: bool,
)
    requires
        0 <= i,
        variant_scan(items, policy, i, renamed, ignored) is Ok,
    ensures
        variant_scan(items, policy, i, renamed, ignored)->Ok_0.1 == (ignored || exists|k: int|
            i <= k < items.len() && #[trigger] is_ignore_entry(items[k], policy)),
    decreases items.len() - i,
{
    if i < items.len() {
        lemma_ignore_keys_are_not_renames(items[i], policy);
        let (r2, g2) = crate::attrs::variant_step(items[i], policy, renamed, ignored)->Ok_0;
        assert(g2 == (ignored || is_ignore_entry(items[i], policy)));
        lemma_scan_ignored(items, policy, i + 1, r2, g2);
        if exists|k: int| i <= k < items.len() && #[trigger] is_ignore_entry(items[k], policy) {
            let k = choose|k: int| i <= k < items.len() && #[trigger] is_ignore_entry(items[k], policy);
            if k > i {
                assert(i + 1 <= k < items.len() && is_ignore_entry(items[k], policy));
            }
        }
    }
}

/// Dropping the `rename` entries keeps whether an ignore key is present.
proof fn lemma_without_renames_keeps_ignore(items: Seq<MetaItem>, policy: VariantPolicy)
    ensures
        carries_ignore_key(without_renames(items), policy) == carries_ignore_key(items, policy),
    decreases items.len(),
{
    if items.len() > 0 {
        let init = items.drop_last();
        let x = items.last();
        lemma_without_renames_keeps_ignore(init, policy);
        lemma_ignore_keys_are_not_renames(x, policy);
        let w = without_renames(init);
        assert(carries_ignore_key(items, policy) == (carries_ignore_key(init, policy)
            || is_ignore_entry(x, policy))) by {
            if carries_ignore_key(items, policy) {
                let k = choose|k: int| 0 <= k < items.len() && #[trigger] is_ignore_entry(items[k], policy);
                if k < init.len() {
                    assert(init[k] == items[k]);
                }
            }
            if carries_ignore_key(init, policy) {
                let k = choose|k: int| 0 <= k < init.len() && #[trigger] is_ignore_entry(init[k], policy);
                assert(items[k] == init[k]);
            }
            if is_ignore_entry(x, policy) {
                assert(is_ignore_entry(items[items.len() - 1], policy));
            }
        }
        if !is_rename_entry(x) {
            let w2 = w.push(x);
            assert(carries_ignore_key(w2, policy) == (carries_ignore_key(w, policy)
                || is_ignore_entry(x, policy))) by {
                if carries_ignore_key(w2, policy) {
                    let k = choose|k: int| 0 <= k < w2.len() && #[trigger] is_ignore_entry(w2[k], policy);
                    if k < w.len() {
                        assert(w[k] == w2[k]);
                    }
                }
                if carries_ignore_key(w, policy) {
                    let k = choose|k: int| 0 <= k < w.len() && #[trigger] is_ignore_entry(w[k], policy);
                    assert(w2[k] == w[k]);
                }
                if is_ignore_entry(x, policy) {
                    assert(is_ignore_entry(w2[w.len() as int], policy));
                }
            }
        }
    }
}

/// Two accepted listings over variants that are left out alike list the same indices.
proof fn lemma_variants_same_listing(
    vs1: Seq<VariantDef>,
    c1: RenameCase,
    s1: Seq<(int, Seq<char>)>,
    vs2: Seq<VariantDef>,
    c2: RenameCase,
    s2: Seq<(int, Seq<char>)>,
    i: int,
)
    requires
        0 <= i,
        vs1.len() == vs2.len(),
        forall|j: int|
            0 <= j < vs1.len() ==> carries_ignore_key(
                (#[trigger] vs1[j]).attrs@,
                VariantPolicy::ForVariants,
            ) == carries_ignore_key(vs2[j].attrs@, VariantPolicy::ForVariants),
        listed_indices(s1) == listed_indices(s2),
        variants_scan(vs1, c1, i, s1) is Ok,
        variants_scan(vs2, c2, i, s2) is Ok,
    ensures
        listed_indices(variants_scan(vs1, c1, i, s1)->Ok_0) == listed_indices(
            variants_scan(vs2, c2, i, s2)->Ok_0,
        ),
    decreases vs1.len() - i,
{
    if i < vs1.len() {
        let p = VariantPolicy::ForVariants;
        let (r1, g1) = variant_marks(vs1[i], p)->Ok_0;
        let (r2, g2) = variant_marks(vs2[i], p)->Ok_0;
        lemma_scan_ignored(vs1[i].attrs@, p, 0, None, false);
        lemma_scan_ignored(vs2[i].attrs@, p, 0, None, false);
        assert(carries_ignore_key(vs1[i].attrs@, p) == carries_ignore_key(vs2[i].attrs@, p));
        assert(g1 == g2);
        if g1 {
            lemma_variants_same_listing(vs1, c1, s1, vs2, c2, s2, i + 1);
        } else {
            let n1 = resolve_name(r1, vs1[i].ident@, c1);
            let n2 = resolve_name(r2, vs2[i].ident@, c2);
            assert(listed_indices(s1.push((i, n1))) =~= listed_indices(s1).push(i));
            assert(listed_indices(s2.push((i, n2))) =~= listed_indices(s2).push(i));
            lemma_variants_same_listing(vs1, c1, s1.push((i, n1)), vs2, c2, s2.push((i, n2)), i + 1);
        }
    }
}

/// `rename` and `rename_all` never change which variants `VARIANTS` lists nor
/// their order: two enums with the same variants, whose variant attributes
/// differ only in `rename` entries (and whose own attributes may differ in
/// any way), list the same variants when `EnumVariants` accepts both.
pub proof fn law_variants_ignore_renames(
    d1: EnumInput,
    es1: Seq<(int, Seq<char>)>,
    d2: EnumInput,
    es2: Seq<(int, Seq<char>)>,
)
    requires
        variants_outcome(d1) == Ok::<Seq<(int, Seq<char>)>, crate::model::Failure>(es1),
        variants_outcome(d2) == Ok::<Seq<(int, Seq<char>)>, crate::model::Failure>(es2),
        d1.variants matches Some(vs1) && d2.variants matches Some(vs2) && vs1.len() == vs2.len()
            && forall|j: int|
            0 <= j < vs1.len() ==> without_renames((#[trigger] vs1@[j]).attrs@) == without_renames(
                vs2@[j].attrs@,
            ),
    ensures
        listed_indices(es1) == listed_indices(es2),
{
    let vs1 = d1.variants->Some_0@;
    let vs2 = d2.variants->Some_0@;
    let p = VariantPolicy::ForVariants;
    assert forall|j: int| 0 <= j < vs1.len() implies carries_ignore_key(
        (#[trigger] vs1[j]).attrs@,
        p,
    ) == carries_ignore_key(vs2[j].attrs@, p) by {
        lemma_without_renames_keeps_ignore(vs1[j].attrs@, p);
        lemma_without_renames_keeps_ignore(vs2[j].attrs@, p);
    }
    let c1 = enum_casing(d1, true);
    let c2 = enum_casing(d2, true);
    let e0 = Seq::<(int, Seq<char>)>::empty();
    lemma_variants_same_listing(vs1, c1, e0, vs2, c2, e0, 0);
}

/// Whether a `rename_all` entry, if this is one, names no casing.
pub open spec fn names_no_casing(m: MetaItem) -> bool {
    match m {
        MetaItem::Entry { key, value: MetaValue::Str(s) } => key@ == "rename_all"@ ==> casing_named(
            s@,
        ) == RenameCase::NoRename,
        _ => true,
    }
}

/// Reading enum attributes whose `rename_all` values name no casing selects none.
proof fn lemma_container_no_casing(items: Seq<MetaItem>, refuse: bool, i: int)
    requires
        0 <= i,
        forall|k: int| 0 <= k < items.len() ==> names_no_casing(#[trigger] items[k]),
        container_scan(items, refuse, i, RenameCase::NoRename) is Ok,
    ensures
        container_scan(items, refuse, i, RenameCase::NoRename) == Ok::<
            RenameCase,
            (int, crate::model::AttrProblem),
        >(RenameCase::NoRename),
    decreases items.len() - i,
{
    if i < items.len() {
        assert(names_no_casing(items[i]));
        lemma_container_no_casing(items, refuse, i + 1);
    }
}

/// Reading variant attributes without `rename` entries keeps the override as it was.
proof fn lemma_scan_without_rename(
    items: Seq<MetaItem>,
    policy: VariantPolicy,
    i: int,
    renamed: Option<Seq<char>>,
    ignored: bool,
)
    requires
        0 <= i,
        forall|k: int| 0 <= k < items.len() ==> !(#[trigger] items[k] matches MetaItem::Entry {
            key,
            ..
        } && key@ == "rename"@),
        variant_scan(items, policy, i, renamed, ignored) is Ok,
    ensures
        variant_scan(items, policy, i, renamed, ignored)->Ok_0.0 == renamed,
    decreases items.len() - i,
{
    if i < items.len() {
        let m = items[i];
        let (r2, g2) = crate::attrs::variant_step(m, policy, renamed, ignored)->Ok_0;
        lemma_scan_without_rename(items, policy, i + 1, r2, g2);
    }
}

/// With no casing selected (no `rename_all`, or only values that name none)
/// and no `rename` on any variant, `EnumName` names every variant by its
/// identifier: `name()` equals `raw_name()` throughout.
pub proof fn law_unknown_casing_keeps_name_table(input: EnumInput, ns: Seq<Seq<char>>)
    requires
        enum_name_outcome(input) == Ok::<Seq<Seq<char>>, crate::model::Failure>(ns),
        forall|k: int| 0 <= k < input.attrs@.len() ==> names_no_casing(#[trigger] input.attrs@[k]),
        input.variants matches Some(vs) && forall|j: int, k: int|
            0 <= j < vs.len() && 0 <= k < vs@[j].attrs.len() ==> !((#[trigger] vs@[j].attrs@[k])
                matches MetaItem::Entry { key, .. } && key@ == "rename"@),
    ensures
        ns == idents(input.variants->Some_0@),
{
    let vs = input.variants->Some_0@;
    lemma_container_no_casing(input.attrs@, false, 0);
    let case = RenameCase::NoRename;
    lemma_name_scan(vs, case, 0, Seq::empty());
    assert forall|j: int| 0 <= j < vs.len() implies ns[j] == #[trigger] idents(vs)[j] by {
        assert(variant_marks(vs[j], VariantPolicy::ForName) is Ok);
        assert forall|k: int| 0 <= k < vs[j].attrs@.len() implies !(#[trigger] vs[j].attrs@[k]
            matches MetaItem::Entry { key, .. } && key@ == "rename"@) by {
            assert(input.variants->Some_0@[j].attrs@[k] == vs[j].attrs@[k]);
        }
        lemma_scan_without_rename(vs[j].attrs@, VariantPolicy::ForName, 0, None, false);
    }
    assert(ns =~= idents(vs));
}

/// A `rename_all` value that names no casing leaves every identifier as it is.
pub proof fn law_unknown_casing_keeps_names(value: Seq<char>, ident: Seq<char>)
    requires
        value != "lowercase"@,
        value != "UPPERCASE"@,
        value != "camelCase"@,
        value != "lowerCamelCase"@,
        value != "snake_case"@,
        value != "SCREAMING-SNAKE-CASE"@,
        value != "SCREAMING_SNAKE_CASE"@,
        value != "kebab-case"@,
        value != "SCREAMING-KEBAB-CASE"@,
        value != "PascalCase"@,
        value != "UpperCamelCase"@,
    ensures
        casing_named(value) == RenameCase::NoRename,
        casing_named(value).cased(ident) == ident,
{
}

/// A variant's own `rename` decides its name whatever casing the enum selects.
pub proof fn law_rename_overrides_casing(
    v: VariantDef,
    policy: VariantPolicy,
    case: RenameCase,
    n: Seq<char>,
    ignored: bool,
)
    requires
        variant_marks(v, policy) == Ok::<(Option<Seq<char>>, bool), (int, crate::model::AttrProblem)>(
            (Some(n), ignored),
        ),
    ensures
        variant_name(v, policy, case) == n,
{
}

/// The checker that `EnumIs` names after a variant is true on that variant and
/// false on every other, where no two checkers share a name.
pub proof fn law_is_method_picks_its_variant(input: EnumInput, ms: Seq<Seq<char>>, i: int)
    requires
        enum_is_outcome(input) == Ok::<Seq<Seq<char>>, crate::model::Failure>(ms),
        ms.no_duplicates(),
        0 <= i < ms.len(),
    ensures
        first_method(ms, ms[i], 0) == Some(i),
{
    lemma_first_method_hit(ms, ms[i], 0, i);
}

/// A lookup of checkers finds the first one with the name.
proof fn lemma_first_method_hit(ms: Seq<Seq<char>>, name: Seq<char>, i: int, k: int)
    requires
        0 <= i <= k < ms.len(),
        ms[k] == name,
        ms.no_duplicates(),
    ensures
        first_method(ms, name, i) == Some(k),
    decreases k - i,
{
    if i < k {
        lemma_first_method_hit(ms, name, i + 1, k);
    }
}

} // verus!
