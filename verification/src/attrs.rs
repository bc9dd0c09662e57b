//! How the derives read `#[enuminfo(...)]` entries and resolve a variant's name.
use vstd::prelude::*;
use crate::model::{AttrProblem, MetaItem, MetaValue, VariantDef};
use crate::rename_case::{casing_named, str_eq, RenameCase};

verus! {

/// Which derive reads a variant's attributes; each accepts other keys.
#[derive(Clone, Copy, Debug, PartialEq, Eq, Structural)]
pub enum VariantPolicy {
    /// `EnumName`: only `rename`; any other key is refused.
    ForName,
    /// `EnumFromName`: `rename` and `ignore_from_name`; other keys are passed over.
    ForFromName,
    /// `EnumVariants`: `rename`, `ignore_variants` (also spelled `ignore_variant`);
    /// other keys are passed over.
    ForVariants,
}

/// Whether `key` marks a variant as left out under `policy`.
pub open spec fn is_ignore_key(policy: VariantPolicy, key: Seq<char>) -> bool {
    match policy {
        VariantPolicy::ForName => false,
        VariantPolicy::ForFromName => key == "ignore_from_name"@,
        VariantPolicy::ForVariants => key == "ignore_variants"@ || key == "ignore_variant"@,
    }
}

/// A key that the derive passes over may only stand alone.
pub open spec fn passed_over(value: MetaValue) -> Result<(), AttrProblem> {
    match value {
        MetaValue::Bare => Ok(()),
        _ => Err(AttrProblem::UnexpectedValue),
    }
}

/// Reads one entry of the enum's own attributes, given the casing read so far.
pub open spec fn container_step(item: MetaItem, refuse_unknown: bool, case: RenameCase) -> Result<
    RenameCase,
    AttrProblem,
> {
    match item {
        MetaItem::Malformed => Err(AttrProblem::Malformed),
        MetaItem::Entry { key, value } => {
            if key@ == "rename_all"@ {
                match value {
                    MetaValue::Str(s) => Ok(casing_named(s@)),
                    _ => Err(AttrProblem::ExpectedString),
                }
            } else if refuse_unknown {
                Err(AttrProblem::UnknownKey)
            } else {
                match passed_over(value) {
                    Ok(_) => Ok(case),
                    Err(p) => Err(p),
                }
            }
        },
    }
}

/// Reads the enum's own attribute entries from index `i` on, with `case` read so
/// far: the last `rename_all` wins, and the first refused entry stops the reading.
pub open spec fn container_scan(
    items: Seq<MetaItem>,
    refuse_unknown: bool,
    i: int,
    case: RenameCase,
) -> Result<RenameCase, (int, AttrProblem)>
    decreases items.len() - i,
{
    if i < 0 || i >= items.len() {
        Ok(case)
    } else {
        match container_step(items[i], refuse_unknown, case) {
            Ok(c) => container_scan(items, refuse_unknown, i + 1, c),
            Err(p) => Err((i, p)),
        }
    }
}

/// The casing the enum's attributes select, or the first refused entry.
pub open spec fn container_casing(items: Seq<MetaItem>, refuse_unknown: bool) -> Result<
    RenameCase,
    (int, AttrProblem),
> {
    container_scan(items, refuse_unknown, 0, RenameCase::NoRename)
}

/// Reads one entry of a variant's attributes, given the override and the
/// ignore mark read so far.
pub open spec fn variant_step(
    item: MetaItem,
    policy: VariantPolicy,
    renamed: Option<Seq<char>>,
    ignored: bool,
) -> Result<(Option<Seq<char>>, bool), AttrProblem> {
    match item {
        MetaItem::Malformed => Err(AttrProblem::Malformed),
        MetaItem::Entry { key, value } => {
            if key@ == "rename"@ {
                match value {
                    MetaValue::Str(s) => Ok((Some(s@), ignored)),
                    _ => Err(AttrProblem::ExpectedString),
                }
            } else if is_ignore_key(policy, key@) {
                match passed_over(value) {
                    Ok(_) => Ok((renamed, true)),
                    Err(p) => Err(p),
                }
            } else if policy == VariantPolicy::ForName {
                Err(AttrProblem::UnknownKey)
            } else {
                match passed_over(value) {
                    Ok(_) => Ok((renamed, ignored)),
                    Err(p) => Err(p),
                }
            }
        },
    }
}

/// Reads a variant's attribute entries from index `i` on: the last `rename`
/// wins, an ignore key marks the variant, and the first refused entry stops the reading.
pub open spec fn variant_scan(
    items: Seq<MetaItem>,
    policy: VariantPolicy,
    i: int,
    renamed: Option<Seq<char>>,
    ignored: bool,
) -> Result<(Option<Seq<char>>, bool), (int, AttrProblem)>
    decreases items.len() - i,
{
    if i < 0 || i >= items.len() {
        Ok((renamed, ignored))
    } else {
        match variant_step(items[i], policy, renamed, ignored) {
            Ok((r, g)) => variant_scan(items, policy, i + 1, r, g),
            Err(p) => Err((i, p)),
        }
    }
}

/// What a variant's attributes say under `policy`: its name override and whether
/// it is left out, or the first refused entry.
pub open spec fn variant_marks(v: VariantDef, policy: VariantPolicy) -> Result<
    (Option<Seq<char>>, bool),
    (int, AttrProblem),
> {
    variant_scan(v.attrs@, policy, 0, None, false)
}

/// A variant's public name: its override if it has one, else its identifier
/// under the enum's casing.
pub open spec fn resolve_name(renamed: Option<Seq<char>>, ident: Seq<char>, case: RenameCase) -> Seq<
    char,
> {
    match renamed {
        Some(n) => n,
        None => case.cased(ident),
    }
}

/// The name of variant `v` under `policy` and `case`; meaningful where its
/// attributes are accepted.
pub open spec fn variant_name(v: VariantDef, policy: VariantPolicy, case: RenameCase) -> Seq<char> {
    match variant_marks(v, policy) {
        Ok((renamed, _)) => resolve_name(renamed, v.ident@, case),
        Err(_) => v.ident@,
    }
}

/// Whether variant `v` carries the ignore key of `policy`; meaningful where its
/// attributes are accepted.
pub open spec fn variant_ignored(v: VariantDef, policy: VariantPolicy) -> bool {
    match variant_marks(v, policy) {
        Ok((_, ignored)) => ignored,
        Err(_) => false,
    }
}

/// An optional string as an optional sequence of characters.
pub open spec fn opt_chars(o: Option<String>) -> Option<Seq<char>> {
    match o {
        Some(s) => Some(s@),
        None => None,
    }
}

/// Reads the enum's own attribute entries. `refuse_unknown` says whether a key
/// other than `rename_all` is refused (`EnumFromName`, `EnumVariants`) or passed
/// over (`EnumName`).
pub fn read_container_attrs(items: &Vec<MetaItem>, refuse_unknown: bool) -> (r: Result<
    RenameCase,
    (usize, AttrProblem),
>)
    ensures
        match r {
            Ok(c) => container_casing(items@, refuse_unknown) == Ok::<
                RenameCase,
                (int, AttrProblem),
            >(c),
            Err((k, p)) => container_casing(items@, refuse_unknown) == Err::<
                RenameCase,
                (int, AttrProblem),
            >((k as int, p)),
        },
{
    let mut case = RenameCase::NoRename;
    let mut i: usize = 0;
    while i < items.len()
        invariant
            0 <= i <= items.len(),
            container_casing(items@, refuse_unknown) == container_scan(
                items@,
                refuse_unknown,
                i as int,
                case,
            ),
        decreases items.len() - i,
    {
        match &items[i] {
            MetaItem::Malformed => {
                return Err((i, AttrProblem::Malformed));
            },
            MetaItem::Entry { key, value } => {
                if str_eq(key.as_str(), "rename_all") {
                    match value {
                        MetaValue::Str(s) => {
                            case = RenameCase::from_str(s.as_str());
                        },
                        _ => {
                            return Err((i, AttrProblem::ExpectedString));
                        },
                    }
                } else if refuse_unknown {
                    return Err((i, AttrProblem::UnknownKey));
                } else {
                    match value {
                        MetaValue::Bare => {},
                        _ => {
                            return Err((i, AttrProblem::UnexpectedValue));
                        },
                    }
                }
            },
        }
        i = i + 1;
    }
    Ok(case)
}

/// Whether `key` is an ignore key under `policy`.
fn is_ignore_key_exec(policy: VariantPolicy, key: &String) -> (r: bool)
    ensures
        r == is_ignore_key(policy, key@),
{
    match policy {
        VariantPolicy::ForName => false,
        VariantPolicy::ForFromName => str_eq(key.as_str(), "ignore_from_name"),
        VariantPolicy::ForVariants => str_eq(key.as_str(), "ignore_variants") || str_eq(
            key.as_str(),
            "ignore_variant",
        ),
    }
}

/// Reads a variant's attribute entries under `policy`: its name override and
/// whether it is left out, or the first refused entry.
pub fn read_variant_attrs(items: &Vec<MetaItem>, policy: VariantPolicy) -> (r: Result<
    (Option<String>, bool),
    (usize, AttrProblem),
>)
    ensures
        match r {
            Ok((renamed, ignored)) => variant_scan(items@, policy, 0, None, false) == Ok::<
                (Option<Seq<char>>, bool),
                (int, AttrProblem),
            >((opt_chars(renamed), ignored)),
            Err((k, p)) => variant_scan(items@, policy, 0, None, false) == Err::<
                (Option<Seq<char>>, bool),
                (int, AttrProblem),
            >((k as int, p)),
        },
{
    let mut renamed: Option<String> = None;
    let mut ignored = false;
    let mut i: usize = 0;
    while i < items.len()
        invariant
            0 <= i <= items.len(),
            variant_scan(items@, policy, 0, None, false) == variant_scan(
                items@,
                policy,
                i as int,
                opt_chars(renamed),
                ignored,
            ),
        decreases items.len() - i,
    {
        match &items[i] {
            MetaItem::Malformed => {
                return Err((i, AttrProblem::Malformed));
            },
            MetaItem::Entry { key, value } => {
                if str_eq(key.as_str(), "rename") {
                    match value {
                        MetaValue::Str(s) => {
                            renamed = Some(s.clone());
                        },
                        _ => {
                            return Err((i, AttrProblem::ExpectedString));
                        },
                    }
                } else if is_ignore_key_exec(policy, key) {
                    match value {
                        MetaValue::Bare => {
                            ignored = true;
                        },
                        _ => {
                            return Err((i, AttrProblem::UnexpectedValue));
                        },
                    }
                } else if policy == VariantPolicy::ForName {
                    return Err((i, AttrProblem::UnknownKey));
                } else {
                    match value {
                        MetaValue::Bare => {},
                        _ => {
                            return Err((i, AttrProblem::UnexpectedValue));
                        },
                    }
                }
            },
        }
        i = i + 1;
    }
    Ok((renamed, ignored))
}

/// A variant's public name from its override, its identifier and the casing.
pub fn resolve(renamed: &Option<String>, ident: &String, case: RenameCase) -> (r: String)
    ensures
        r@ == resolve_name(opt_chars(*renamed), ident@, case),
{
    match renamed {
        Some(n) => n.clone(),
        None => case.apply(ident.as_str()),
    }
}

} // verus!
