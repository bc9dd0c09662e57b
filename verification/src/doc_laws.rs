//! The derives' documented behaviour, stated from the attribute entries
//! themselves: which keys leave a variant out of which derive, how
//! `rename` and `rename_all` decide a name, and how `EnumIs` names its checkers.
use vstd::prelude::*;
use crate::attrs::{
    container_casing, container_scan, variant_ignored, variant_marks, variant_name,
    variant_scan, VariantPolicy,
};
use crate::enum_from_name::{
    arm_indices, arm_names, first_match, from_name_outcome, lemma_from_name_scan,
};
use crate::enum_is::enum_is_outcome;
use crate::enum_name::{enum_casing, enum_name_outcome, name_scan};
use crate::enum_variants::{lemma_variants_scan, listed_indices, listed_names, variants_outcome};
use crate::laws::{law_from_name_finds_kept_variant, carries_ignore_key, is_ignore_entry};
use crate::listing::lists_kept_variants;
use crate::model::{EnumInput, Failure, MetaItem, MetaValue, VariantDef};
use crate::rename_case::{
    casing_named, kebab_case_of, lower_camel_case_of, lowercase_of, shouty_kebab_case_of,
    shouty_snake_case_of, snake_case_of, upper_camel_case_of, uppercase_of, RenameCase,
};

verus! {

/// Whether an entry's key is exactly `key`.
pub open spec fn has_key(m: MetaItem, key: Seq<char>) -> bool {
    m matches MetaItem::Entry { key: k, .. } && k@ == key
}

/// Whether some entry's key is exactly `key`.
pub open spec fn some_entry_has_key(items: Seq<MetaItem>, key: Seq<char>) -> bool {
    exists|k: int| 0 <= k < items.len() && #[trigger] has_key(items[k], key)
}

/// The string value of the last `key = "..."` entry at index `i` or later;
/// `found` when there is none.
pub open spec fn last_value(
    items: Seq<MetaItem>,
    key: Seq<char>,
    i: int,
    found: Option<Seq<char>>,
) -> Option<Seq<char>>
    decreases items.len() - i,
{
    if i < 0 || i >= items.len() {
        found
    } else {
        let f = match items[i] {
            MetaItem::Entry { key: k, value: MetaValue::Str(s) } => if k@ == key {
                Some(s@)
            } else {
                found
            },
            _ => found,
        };
        last_value(items, key, i + 1, f)
    }
}

/// The documented table of `rename_all` values: what each makes of an
/// identifier; a value outside the table leaves it as it is.
pub open spec fn documented_casing(value: Seq<char>, ident: Seq<char>) -> Seq<char> {
    if value == "lowercase"@ {
        lowercase_of(ident)
    } else if value == "UPPERCASE"@ {
        uppercase_of(ident)
    } else if value == "camelCase"@ || value == "lowerCamelCase"@ {
        lower_camel_case_of(ident)
    } else if value == "snake_case"@ {
        snake_case_of(ident)
    } else if value == "SCREAMING_SNAKE_CASE"@ || value == "SCREAMING-SNAKE-CASE"@ {
        shouty_snake_case_of(ident)
    } else if value == "kebab-case"@ {
        kebab_case_of(ident)
    } else if value == "SCREAMING-KEBAB-CASE"@ {
        shouty_kebab_case_of(ident)
    } else if value == "PascalCase"@ || value == "UpperCamelCase"@ {
        upper_camel_case_of(ident)
    } else {
        ident
    }
}

/// The documented name of variant `v` of the enum `input`: the value of its
/// last `rename`; else its identifier under the value of the enum's last
/// `rename_all`; else its identifier.
pub open spec fn documented_name(input: EnumInput, v: VariantDef) -> Seq<char> {
    match last_value(v.attrs@, "rename"@, 0, None) {
        Some(n) => n,
        None => match last_value(input.attrs@, "rename_all"@, 0, None) {
            Some(value) => documented_casing(value, v.ident@),
            None => v.ident@,
        },
    }
}

/// `RenameCase::from_str` followed by `apply` follows the documented table.
pub proof fn law_casing_follows_table(value: Seq<char>, ident: Seq<char>)
    ensures
        casing_named(value).cased(ident) == documented_casing(value, ident),
{
}

/// Reading the enum's attributes selects the casing of the last `rename_all`
/// value, or keeps the casing it started with when there is none.
proof fn lemma_container_last(
    items: Seq<MetaItem>,
    refuse: bool,
    i: int,
    case: RenameCase,
    found: Option<Seq<char>>,
)
    requires
        0 <= i,
        found matches Some(f) ==> case == casing_named(f),
        container_scan(items, refuse, i, case) is Ok,
    ensures
        last_value(items, "rename_all"@, i, found) matches Some(v) ==> container_scan(
            items,
            refuse,
            i,
            case,
        ) == Ok::<RenameCase, (int, crate::model::AttrProblem)>(casing_named(v)),
        last_value(items, "rename_all"@, i, found) is None ==> container_scan(
            items,
            refuse,
            i,
            case,
        ) == Ok::<RenameCase, (int, crate::model::AttrProblem)>(case),
        found is Some ==> last_value(items, "rename_all"@, i, found) is Some,
    decreases items.len() - i,
{
    if i < items.len() {
        let c2 = crate::attrs::container_step(items[i], refuse, case)->Ok_0;
        let f2 = match items[i] {
            MetaItem::Entry { key: k, value: MetaValue::Str(s) } => if k@ == "rename_all"@ {
                Some(s@)
            } else {
                found
            },
            _ => found,
        };
        lemma_container_last(items, refuse, i + 1, c2, f2);
    }
}

/// Reading a variant's attributes keeps the value of its last `rename`.
proof fn lemma_variant_last_rename(
    items: Seq<MetaItem>,
    policy: VariantPolicy,
    i: int,
    renamed: Option<Seq<char>>,
    ignored: bool,
)
    requires
        0 <= i,
        variant_scan(items, policy, i, renamed, ignored) is Ok,
    ensures
        variant_scan(items, policy, i, renamed, ignored)->Ok_0.0 == last_value(
            items,
            "rename"@,
            i,
            renamed,
        ),
    decreases items.len() - i,
{
    if i < items.len() {
        let (r2, g2) = crate::attrs::variant_step(items[i], policy, renamed, ignored)->Ok_0;
        lemma_variant_last_rename(items, policy, i + 1, r2, g2);
    }
}

/// Where the enum's and the variant's attributes are accepted, the name a
/// derive gives the variant is its documented name.
proof fn lemma_documented_name(input: EnumInput, v: VariantDef, policy: VariantPolicy, refuse: bool)
    requires
        container_casing(input.attrs@, refuse) is Ok,
        variant_marks(v, policy) is Ok,
    ensures
        variant_name(v, policy, enum_casing(input, refuse)) == documented_name(input, v),
{
    lemma_container_last(input.attrs@, refuse, 0, RenameCase::NoRename, None);
    lemma_variant_last_rename(v.attrs@, policy, 0, None, false);
    if let Some(value) = last_value(input.attrs@, "rename_all"@, 0, None) {
        law_casing_follows_table(value, v.ident@);
    }
}

/// A variant's ignore mark under `policy` is exactly the presence of one of
/// these keys: `ignore_from_name` for `EnumFromName`, `ignore_variants` or
/// `ignore_variant` for `EnumVariants`, none for `EnumName`.
proof fn lemma_ignore_keys(items: Seq<MetaItem>)
    ensures
        carries_ignore_key(items, VariantPolicy::ForFromName) == some_entry_has_key(
            items,
            "ignore_from_name"@,
        ),
        carries_ignore_key(items, VariantPolicy::ForVariants) == (some_entry_has_key(
            items,
            "ignore_variants"@,
        ) || some_entry_has_key(items, "ignore_variant"@)),
{
    if carries_ignore_key(items, VariantPolicy::ForFromName) {
        let k = choose|k: int|
            0 <= k < items.len() && #[trigger] is_ignore_entry(items[k], VariantPolicy::ForFromName);
        assert(has_key(items[k], "ignore_from_name"@));
    }
    if some_entry_has_key(items, "ignore_from_name"@) {
        let k = choose|k: int| 0 <= k < items.len() && #[trigger] has_key(items[k], "ignore_from_name"@);
        assert(is_ignore_entry(items[k], VariantPolicy::ForFromName));
    }
    if carries_ignore_key(items, VariantPolicy::ForVariants) {
        let k = choose|k: int|
            0 <= k < items.len() && #[trigger] is_ignore_entry(items[k], VariantPolicy::ForVariants);
        if has_key(items[k], "ignore_variants"@) {
        } else {
            assert(has_key(items[k], "ignore_variant"@));
        }
    }
    if some_entry_has_key(items, "ignore_variants"@) {
        let k = choose|k: int| 0 <= k < items.len() && #[trigger] has_key(items[k], "ignore_variants"@);
        assert(is_ignore_entry(items[k], VariantPolicy::ForVariants));
    }
    if some_entry_has_key(items, "ignore_variant"@) {
        let k = choose|k: int| 0 <= k < items.len() && #[trigger] has_key(items[k], "ignore_variant"@);
        assert(is_ignore_entry(items[k], VariantPolicy::ForVariants));
    }
}

/// `EnumName` names every variant by its documented name: its last `rename`,
/// else its identifier under the enum's last `rename_all`, else its identifier.
pub proof fn law_enum_name_gives_documented_names(input: EnumInput, ns: Seq<Seq<char>>)
    requires
        enum_name_outcome(input) == Ok::<Seq<Seq<char>>, Failure>(ns),
    ensures
        input.variants matches Some(vs) && ns.len() == vs.len() && forall|j: int|
            0 <= j < vs.len() ==> #[trigger] ns[j] == documented_name(input, vs@[j]),
{
    let vs = input.variants->Some_0@;
    let case = enum_casing(input, false);
    crate::laws::lemma_name_scan(vs, case, 0, Seq::empty());
    assert forall|j: int| 0 <= j < vs.len() implies #[trigger] ns[j] == documented_name(
        input,
        vs[j],
    ) by {
        lemma_documented_name(input, vs[j], VariantPolicy::ForName, false);
    }
}

/// The arms that `EnumFromName` builds for an accepted input.
proof fn lemma_arms(input: EnumInput, es: Seq<(int, Seq<char>, Seq<char>)>)
    requires
        from_name_outcome(input) == Ok::<Seq<(int, Seq<char>, Seq<char>)>, Failure>(es),
    ensures
        input.variants is Some,
        lists_kept_variants(
            input.variants->Some_0@,
            VariantPolicy::ForFromName,
            enum_casing(input, true),
            arm_indices(es),
            arm_names(es),
            input.variants->Some_0.len() as int,
        ),
{
    let vs = input.variants->Some_0@;
    let e0 = Seq::<(int, Seq<char>, Seq<char>)>::empty();
    assert(crate::enum_from_name::arm_indices(e0) =~= Seq::<int>::empty());
    assert(arm_names(e0) =~= Seq::<Seq<char>>::empty());
    lemma_from_name_scan(vs, enum_casing(input, true), 0, e0);
}

/// `EnumFromName` leaves a variant out of its lookups exactly when the variant
/// carries an `ignore_from_name` entry; any other key (such as `ignore_variants`
/// of `EnumVariants`) does not. Every variant it keeps is found by its
/// documented name: `from_name(name(v)) == Some(v)`.
pub proof fn law_from_name_leaves_out_exactly_ignore_from_name(
    input: EnumInput,
    es: Seq<(int, Seq<char>, Seq<char>)>,
    j: int,
)
    requires
        from_name_outcome(input) == Ok::<Seq<(int, Seq<char>, Seq<char>)>, Failure>(es),
        input.variants matches Some(vs) && 0 <= j < vs.len(),
    ensures
        arm_indices(es).contains(j) <==> !some_entry_has_key(
            input.variants->Some_0@[j].attrs@,
            "ignore_from_name"@,
        ),
        arm_indices(es).contains(j) ==> first_match(
            es,
            documented_name(input, input.variants->Some_0@[j]),
            false,
            0,
        ) == Some(j),
{
    let vs = input.variants->Some_0@;
    let p = VariantPolicy::ForFromName;
    lemma_arms(input, es);
    let idx = arm_indices(es);
    assert(variant_marks(vs[j], p) is Ok);
    crate::laws::lemma_scan_ignored(vs[j].attrs@, p, 0, None, false);
    lemma_ignore_keys(vs[j].attrs@);
    if idx.contains(j) {
        let k = choose|k: int| 0 <= k < idx.len() && idx[k] == j;
        assert(!variant_ignored(vs[idx[k]], p));
        assert(!variant_ignored(vs[j], p));
        assert(container_casing(input.attrs@, true) is Ok);
        lemma_documented_name(input, vs[j], p, true);
        law_from_name_finds_kept_variant(input, es, j);
    }
}

/// The variants that `EnumVariants` lists for an accepted input.
proof fn lemma_listing(input: EnumInput, es: Seq<(int, Seq<char>)>)
    requires
        variants_outcome(input) == Ok::<Seq<(int, Seq<char>)>, Failure>(es),
    ensures
        input.variants is Some,
        lists_kept_variants(
            input.variants->Some_0@,
            VariantPolicy::ForVariants,
            enum_casing(input, true),
            listed_indices(es),
            listed_names(es),
            input.variants->Some_0.len() as int,
        ),
{
    let vs = input.variants->Some_0@;
    let e0 = Seq::<(int, Seq<char>)>::empty();
    assert(listed_indices(e0) =~= Seq::<int>::empty());
    assert(listed_names(e0) =~= Seq::<Seq<char>>::empty());
    lemma_variants_scan(vs, enum_casing(input, true), 0, e0);
}

/// `VARIANTS` lists a variant exactly when it carries no `ignore_variants`
/// (or `ignore_variant`) entry; any other key (such as `ignore_from_name` of
/// `EnumFromName`) does not change the listing. The listing keeps declaration
/// order.
pub proof fn law_variants_leave_out_exactly_ignore_variants(
    input: EnumInput,
    es: Seq<(int, Seq<char>)>,
    j: int,
)
    requires
        variants_outcome(input) == Ok::<Seq<(int, Seq<char>)>, Failure>(es),
        input.variants matches Some(vs) && 0 <= j < vs.len(),
    ensures
        listed_indices(es).contains(j) <==> !(some_entry_has_key(
            input.variants->Some_0@[j].attrs@,
            "ignore_variants"@,
        ) || some_entry_has_key(input.variants->Some_0@[j].attrs@, "ignore_variant"@)),
        forall|a: int, b: int|
            0 <= a < b < listed_indices(es).len() ==> listed_indices(es)[a] < listed_indices(es)[b],
{
    let vs = input.variants->Some_0@;
    let p = VariantPolicy::ForVariants;
    lemma_listing(input, es);
    let idx = listed_indices(es);
    assert(variant_marks(vs[j], p) is Ok);
    crate::laws::lemma_scan_ignored(vs[j].attrs@, p, 0, None, false);
    lemma_ignore_keys(vs[j].attrs@);
    if idx.contains(j) {
        let k = choose|k: int| 0 <= k < idx.len() && idx[k] == j;
        assert(!variant_ignored(vs[idx[k]], p));
    }
}

/// `EnumIs` names the checker of each variant `is_` followed by the
/// identifier in snake case, whatever `enuminfo` attributes the variants
/// carry; it accepts every enum.
pub proof fn law_is_methods_follow_identifiers(input: EnumInput)
    requires
        input.variants is Some,
    ensures
        enum_is_outcome(input) matches Ok(ms) && ms.len() == input.variants->Some_0.len()
            && forall|i: int|
            0 <= i < ms.len() ==> #[trigger] ms[i] == "is_"@ + snake_case_of(
                input.variants->Some_0@[i].ident@,
            ),
{
}

/// An entry that `EnumName` accepts on the enum: `rename_all = "..."`, or
/// any other key standing alone.
pub open spec fn name_container_entry_ok(m: MetaItem) -> bool {
    match m {
        MetaItem::Entry { key, value } => if key@ == "rename_all"@ {
            value is Str
        } else {
            value is Bare
        },
        MetaItem::Malformed => false,
    }
}

/// An entry that `EnumFromName` and `EnumVariants` accept on the enum:
/// only `rename_all = "..."`.
pub open spec fn strict_container_entry_ok(m: MetaItem) -> bool {
    m matches MetaItem::Entry { key, value: MetaValue::Str(_) } && key@ == "rename_all"@
}

/// An entry that `EnumName` accepts on a variant: only `rename = "..."`.
pub open spec fn name_variant_entry_ok(m: MetaItem) -> bool {
    m matches MetaItem::Entry { key, value: MetaValue::Str(_) } && key@ == "rename"@
}

/// An entry that `EnumFromName` and `EnumVariants` accept on a variant:
/// `rename = "..."`, or any other key standing alone.
pub open spec fn lenient_variant_entry_ok(m: MetaItem) -> bool {
    match m {
        MetaItem::Entry { key, value } => if key@ == "rename"@ {
            value is Str
        } else {
            value is Bare
        },
        MetaItem::Malformed => false,
    }
}

/// Whether `policy` accepts entry `m` on a variant.
pub open spec fn variant_entry_ok(m: MetaItem, policy: VariantPolicy) -> bool {
    if policy == VariantPolicy::ForName {
        name_variant_entry_ok(m)
    } else {
        lenient_variant_entry_ok(m)
    }
}

/// Whether entry `m` is accepted on the enum, where `refuse` says whether
/// unknown keys are refused.
pub open spec fn container_entry_ok(m: MetaItem, refuse: bool) -> bool {
    if refuse {
        strict_container_entry_ok(m)
    } else {
        name_container_entry_ok(m)
    }
}

/// Reading the enum's entries succeeds exactly when each entry is accepted.
proof fn lemma_container_ok(items: Seq<MetaItem>, refuse: bool, i: int, case: RenameCase)
    requires
        0 <= i <= items.len(),
    ensures
        container_scan(items, refuse, i, case) is Ok <==> forall|k: int|
            i <= k < items.len() ==> container_entry_ok(#[trigger] items[k], refuse),
    decreases items.len() - i,
{
    if i < items.len() {
        let step = crate::attrs::container_step(items[i], refuse, case);
        assert(step is Ok <==> container_entry_ok(items[i], refuse));
        if step is Ok {
            lemma_container_ok(items, refuse, i + 1, step->Ok_0);
            if forall|k: int| i + 1 <= k < items.len() ==> container_entry_ok(#[trigger] items[k], refuse) {
                assert forall|k: int| i <= k < items.len() implies container_entry_ok(#[trigger] items[k], refuse) by {
                    if k > i {
                        assert(i + 1 <= k);
                    }
                }
            }
        }
    }
}

/// Reading a variant's entries succeeds exactly when each entry is accepted.
proof fn lemma_variant_ok(
    items: Seq<MetaItem>,
    policy: VariantPolicy,
    i: int,
    renamed: Option<Seq<char>>,
    ignored: bool,
)
    requires
        0 <= i <= items.len(),
    ensures
        variant_scan(items, policy, i, renamed, ignored) is Ok <==> forall|k: int|
            i <= k < items.len() ==> variant_entry_ok(#[trigger] items[k], policy),
    decreases items.len() - i,
{
    if i < items.len() {
        crate::laws::lemma_ignore_keys_are_not_renames(items[i], policy);
        let step = crate::attrs::variant_step(items[i], policy, renamed, ignored);
        assert(step is Ok <==> variant_entry_ok(items[i], policy));
        if step is Ok {
            let (r, g) = step->Ok_0;
            lemma_variant_ok(items, policy, i + 1, r, g);
            if forall|k: int| i + 1 <= k < items.len() ==> variant_entry_ok(#[trigger] items[k], policy) {
                assert forall|k: int| i <= k < items.len() implies variant_entry_ok(#[trigger] items[k], policy) by {
                    if k > i {
                        assert(i + 1 <= k);
                    }
                }
            }
        }
    }
}

/// Whether every entry on the enum and on its variants is accepted by a
/// derive with these rules.
pub open spec fn all_entries_ok(input: EnumInput, refuse: bool, policy: VariantPolicy) -> bool {
    &&& forall|k: int|
        0 <= k < input.attrs@.len() ==> container_entry_ok(#[trigger] input.attrs@[k], refuse)
    &&& input.variants matches Some(vs) && forall|j: int, k: int|
        0 <= j < vs.len() && 0 <= k < vs@[j].attrs@.len() ==> variant_entry_ok(
            #[trigger] vs@[j].attrs@[k],
            policy,
        )
}

/// Where every variant's entries are accepted, a naming stops on no attribute entry.
proof fn lemma_name_scan_no_attr_error(
    vs: Seq<VariantDef>,
    case: RenameCase,
    i: int,
    seen: Seq<Seq<char>>,
)
    requires
        0 <= i,
        forall|j: int| 0 <= j < vs.len() ==> (#[trigger] variant_marks(vs[j], VariantPolicy::ForName)) is Ok,
    ensures
        !(name_scan(vs, case, i, seen) matches Err(Failure::Attribute { .. })),
    decreases vs.len() - i,
{
    if i < vs.len() {
        assert(variant_marks(vs[i], VariantPolicy::ForName) is Ok);
        let (r, _) = variant_marks(vs[i], VariantPolicy::ForName)->Ok_0;
        let n = crate::attrs::resolve_name(r, vs[i].ident@, case);
        lemma_name_scan_no_attr_error(vs, case, i + 1, seen.push(n));
    }
}

/// Where every variant's entries are accepted, collecting lookup arms stops
/// on no attribute entry.
proof fn lemma_from_name_scan_no_attr_error(
    vs: Seq<VariantDef>,
    case: RenameCase,
    i: int,
    seen: Seq<(int, Seq<char>, Seq<char>)>,
)
    requires
        0 <= i,
        forall|j: int|
            0 <= j < vs.len() ==> (#[trigger] variant_marks(vs[j], VariantPolicy::ForFromName)) is Ok,
    ensures
        !(crate::enum_from_name::from_name_scan(vs, case, i, seen) matches Err(
            Failure::Attribute { .. },
        )),
    decreases vs.len() - i,
{
    if i < vs.len() {
        assert(variant_marks(vs[i], VariantPolicy::ForFromName) is Ok);
        let (r, _) = variant_marks(vs[i], VariantPolicy::ForFromName)->Ok_0;
        let n = crate::attrs::resolve_name(r, vs[i].ident@, case);
        lemma_from_name_scan_no_attr_error(vs, case, i + 1, seen);
        lemma_from_name_scan_no_attr_error(vs, case, i + 1, seen.push((i, n, vs[i].ident@)));
    }
}

/// Where every variant's entries are accepted, listing variants stops on no
/// attribute entry.
proof fn lemma_variants_scan_no_attr_error(
    vs: Seq<VariantDef>,
    case: RenameCase,
    i: int,
    seen: Seq<(int, Seq<char>)>,
)
    requires
        0 <= i,
        forall|j: int|
            0 <= j < vs.len() ==> (#[trigger] variant_marks(vs[j], VariantPolicy::ForVariants)) is Ok,
    ensures
        !(crate::enum_variants::variants_scan(vs, case, i, seen) matches Err(
            Failure::Attribute { .. },
        )),
    decreases vs.len() - i,
{
    if i < vs.len() {
        assert(variant_marks(vs[i], VariantPolicy::ForVariants) is Ok);
        let (r, _) = variant_marks(vs[i], VariantPolicy::ForVariants)->Ok_0;
        let n = crate::attrs::resolve_name(r, vs[i].ident@, case);
        lemma_variants_scan_no_attr_error(vs, case, i + 1, seen);
        lemma_variants_scan_no_attr_error(vs, case, i + 1, seen.push((i, n)));
    }
}

/// Every variant's entries are accepted under `policy` when all entries are.
proof fn lemma_all_marks_ok(input: EnumInput, refuse: bool, policy: VariantPolicy)
    requires
        all_entries_ok(input, refuse, policy),
    ensures
        container_scan(input.attrs@, refuse, 0, RenameCase::NoRename) is Ok,
        forall|j: int|
            0 <= j < input.variants->Some_0.len() ==> (#[trigger] variant_marks(
                input.variants->Some_0@[j],
                policy,
            )) is Ok,
{
    lemma_container_ok(input.attrs@, refuse, 0, RenameCase::NoRename);
    let vs = input.variants->Some_0@;
    assert forall|j: int| 0 <= j < vs.len() implies (#[trigger] variant_marks(vs[j], policy)) is Ok by {
        lemma_variant_ok(vs[j].attrs@, policy, 0, None, false);
        assert forall|k: int| 0 <= k < vs[j].attrs@.len() implies variant_entry_ok(
            #[trigger] vs[j].attrs@[k],
            policy,
        ) by {
            assert(input.variants->Some_0@[j].attrs@[k] == vs[j].attrs@[k]);
        }
    }
}

/// Every entry of an enum that derive accepts has the accepted form for its
/// place, where each variant's reading succeeds and the enum's does.
proof fn lemma_entries_ok_of_marks(input: EnumInput, refuse: bool, policy: VariantPolicy)
    requires
        container_scan(input.attrs@, refuse, 0, RenameCase::NoRename) is Ok,
        input.variants is Some,
        forall|j: int|
            0 <= j < input.variants->Some_0.len() ==> (#[trigger] variant_marks(
                input.variants->Some_0@[j],
                policy,
            )) is Ok,
    ensures
        all_entries_ok(input, refuse, policy),
{
    lemma_container_ok(input.attrs@, refuse, 0, RenameCase::NoRename);
    let vs = input.variants->Some_0@;
    assert forall|j: int, k: int| 0 <= j < vs.len() && 0 <= k < vs[j].attrs@.len() implies variant_entry_ok(
        #[trigger] input.variants->Some_0@[j].attrs@[k],
        policy,
    ) by {
        assert(variant_marks(vs[j], policy) is Ok);
        lemma_variant_ok(vs[j].attrs@, policy, 0, None, false);
    }
}

/// `EnumName` accepts on the enum only `rename_all = "..."` and other keys
/// standing alone, and on a variant only `rename = "..."` (so `ignore_from_name`
/// or `ignore_variants` on a variant is refused); where all entries have
/// these forms, no attribute entry is refused.
pub proof fn law_enum_name_attribute_rules(input: EnumInput)
    requires
        input.variants is Some,
    ensures
        enum_name_outcome(input) is Ok ==> all_entries_ok(input, false, VariantPolicy::ForName),
        all_entries_ok(input, false, VariantPolicy::ForName) ==> !(enum_name_outcome(input) matches Err(
            Failure::Attribute { .. },
        )),
{
    let vs = input.variants->Some_0@;
    if enum_name_outcome(input) is Ok {
        let case = enum_casing(input, false);
        crate::laws::lemma_name_scan(vs, case, 0, Seq::empty());
        lemma_entries_ok_of_marks(input, false, VariantPolicy::ForName);
    }
    if all_entries_ok(input, false, VariantPolicy::ForName) {
        lemma_all_marks_ok(input, false, VariantPolicy::ForName);
        lemma_name_scan_no_attr_error(vs, enum_casing(input, false), 0, Seq::empty());
    }
}

/// `EnumFromName` accepts on the enum only `rename_all = "..."`, and on a
/// variant `rename = "..."` and any other key standing alone; where all
/// entries have these forms, no attribute entry is refused.
pub proof fn law_enum_from_name_attribute_rules(input: EnumInput)
    requires
        input.variants is Some,
    ensures
        from_name_outcome(input) is Ok ==> all_entries_ok(input, true, VariantPolicy::ForFromName),
        all_entries_ok(input, true, VariantPolicy::ForFromName) ==> !(from_name_outcome(input) matches Err(
            Failure::Attribute { .. },
        )),
{
    let vs = input.variants->Some_0@;
    if from_name_outcome(input) is Ok {
        lemma_arms(input, from_name_outcome(input)->Ok_0);
        lemma_entries_ok_of_marks(input, true, VariantPolicy::ForFromName);
    }
    if all_entries_ok(input, true, VariantPolicy::ForFromName) {
        lemma_all_marks_ok(input, true, VariantPolicy::ForFromName);
        lemma_from_name_scan_no_attr_error(vs, enum_casing(input, true), 0, Seq::empty());
    }
}

/// `EnumVariants` accepts on the enum only `rename_all = "..."`, and on a
/// variant `rename = "..."` and any other key standing alone; where all
/// entries have these forms, no attribute entry is refused.
pub proof fn law_enum_variants_attribute_rules(input: EnumInput)
    requires
        input.variants is Some,
    ensures
        variants_outcome(input) is Ok ==> all_entries_ok(input, true, VariantPolicy::ForVariants),
        all_entries_ok(input, true, VariantPolicy::ForVariants) ==> !(variants_outcome(input) matches Err(
            Failure::Attribute { .. },
        )),
{
    let vs = input.variants->Some_0@;
    if variants_outcome(input) is Ok {
        lemma_listing(input, variants_outcome(input)->Ok_0);
        lemma_entries_ok_of_marks(input, true, VariantPolicy::ForVariants);
    }
    if all_entries_ok(input, true, VariantPolicy::ForVariants) {
        lemma_all_marks_ok(input, true, VariantPolicy::ForVariants);
        lemma_variants_scan_no_attr_error(vs, enum_casing(input, true), 0, Seq::empty());
    }
}

/// A successful naming that starts from distinct names ends with distinct names.
proof fn lemma_name_scan_distinct(vs: Seq<VariantDef>, case: RenameCase, i: int, seen: Seq<Seq<char>>)
    requires
        0 <= i,
        seen.no_duplicates(),
        name_scan(vs, case, i, seen) is Ok,
    ensures
        (name_scan(vs, case, i, seen)->Ok_0).no_duplicates(),
    decreases vs.len() - i,
{
    if i < vs.len() {
        let (r, _) = variant_marks(vs[i], VariantPolicy::ForName)->Ok_0;
        let n = crate::attrs::resolve_name(r, vs[i].ident@, case);
        let seen2 = seen.push(n);
        assert forall|a: int, b: int|
            0 <= a < seen2.len() && 0 <= b < seen2.len() && a != b implies seen2[a] != seen2[b] by {
            if a < seen.len() && b < seen.len() {
                assert(seen2[a] == seen[a] && seen2[b] == seen[b]);
            } else if a == seen.len() {
                assert(seen2[b] == seen[b]);
            } else {
                assert(seen2[a] == seen[a]);
            }
        }
        lemma_name_scan_distinct(vs, case, i + 1, seen2);
    }
}

/// No two variants share a name under `EnumName`: an enum where two variants
/// would get one name is refused.
pub proof fn law_enum_name_names_distinct(input: EnumInput, ns: Seq<Seq<char>>)
    requires
        enum_name_outcome(input) == Ok::<Seq<Seq<char>>, Failure>(ns),
    ensures
        forall|a: int, b: int| 0 <= a < b < ns.len() ==> ns[a] != ns[b],
{
    let vs = input.variants->Some_0@;
    let e0 = Seq::<Seq<char>>::empty();
    lemma_name_scan_distinct(vs, enum_casing(input, false), 0, e0);
}

/// Every derive refuses an item that is not an enum, and `EnumIs` and the
/// enum-name helper accept every enum.
pub proof fn law_derives_refuse_non_enums(input: EnumInput)
    ensures
        input.variants is None ==> {
            &&& enum_name_outcome(input) == Err::<Seq<Seq<char>>, Failure>(Failure::NotAnEnum)
            &&& from_name_outcome(input) == Err::<Seq<(int, Seq<char>, Seq<char>)>, Failure>(
                Failure::NotAnEnum,
            )
            &&& variants_outcome(input) == Err::<Seq<(int, Seq<char>)>, Failure>(Failure::NotAnEnum)
            &&& enum_is_outcome(input) == Err::<Seq<Seq<char>>, Failure>(Failure::NotAnEnum)
        },
        input.variants is Some ==> enum_is_outcome(input) is Ok,
{
}

} // verus!
