//! What it means for a list of variant indices and names to hold exactly the
//! unit variants that a derive keeps, and how such a list grows.
use vstd::prelude::*;
use crate::attrs::{variant_ignored, variant_marks, variant_name, VariantPolicy};
use crate::model::{FieldShape, VariantDef};
use crate::rename_case::RenameCase;

verus! {

/// `idx` and `names` list, in increasing order of index and each with its name,
/// exactly those variants below `upto` that `policy` does not leave out; all of
/// them are unit variants, every variant below `upto` has accepted attributes,
/// and no name occurs twice.
pub open spec fn lists_kept_variants(
    vs: Seq<VariantDef>,
    policy: VariantPolicy,
    case: RenameCase,
    idx: Seq<int>,
    names: Seq<Seq<char>>,
    upto: int,
) -> bool {
    &&& 0 <= upto <= vs.len()
    &&& idx.len() == names.len()
    &&& forall|k: int|
        #![trigger idx[k]]
        0 <= k < idx.len() ==> {
            &&& 0 <= idx[k] < upto
            &&& !variant_ignored(vs[idx[k]], policy)
            &&& vs[idx[k]].fields != FieldShape::WithFields
            &&& names[k] == variant_name(vs[idx[k]], policy, case)
        }
    &&& forall|k1: int, k2: int| 0 <= k1 < k2 < idx.len() ==> idx[k1] < idx[k2]
    &&& forall|j: int| 0 <= j < upto ==> (#[trigger] variant_marks(vs[j], policy)) is Ok
    &&& forall|j: int|
        0 <= j < upto && !variant_ignored(vs[j], policy) ==> #[trigger] idx.contains(j)
    &&& names.no_duplicates()
}

/// A list that describes the variants below `i` still does after a variant `i`
/// that is left out.
pub proof fn lemma_list_skip(
    vs: Seq<VariantDef>,
    policy: VariantPolicy,
    case: RenameCase,
    idx: Seq<int>,
    names: Seq<Seq<char>>,
    i: int,
)
    requires
        lists_kept_variants(vs, policy, case, idx, names, i),
        i < vs.len(),
        variant_marks(vs[i], policy) is Ok,
        variant_ignored(vs[i], policy),
    ensures
        lists_kept_variants(vs, policy, case, idx, names, i + 1),
{
}

/// A list that describes the variants below `i` grows by the kept unit
/// variant `i` and its new name.
pub proof fn lemma_list_keep(
    vs: Seq<VariantDef>,
    policy: VariantPolicy,
    case: RenameCase,
    idx: Seq<int>,
    names: Seq<Seq<char>>,
    i: int,
)
    requires
        lists_kept_variants(vs, policy, case, idx, names, i),
        i < vs.len(),
        variant_marks(vs[i], policy) is Ok,
        !variant_ignored(vs[i], policy),
        vs[i].fields != FieldShape::WithFields,
        !names.contains(variant_name(vs[i], policy, case)),
    ensures
        lists_kept_variants(
            vs,
            policy,
            case,
            idx.push(i),
            names.push(variant_name(vs[i], policy, case)),
            i + 1,
        ),
{
    let n = variant_name(vs[i], policy, case);
    let idx2 = idx.push(i);
    let names2 = names.push(n);
    assert forall|j: int| 0 <= j < i + 1 && !variant_ignored(vs[j], policy) implies #[trigger] idx2.contains(
        j,
    ) by {
        if j < i {
            assert(idx.contains(j));
            let k = choose|k: int| 0 <= k < idx.len() && idx[k] == j;
            assert(idx2[k] == j);
        } else {
            assert(idx2[idx.len() as int] == j);
        }
    }
    assert forall|a: int, b: int|
        0 <= a < names2.len() && 0 <= b < names2.len() && a != b implies names2[a] != names2[b] by {
        if a < names.len() && b < names.len() {
        } else if a == names.len() {
            assert(names2[b] == names[b]);
        } else {
            assert(names2[a] == names[a]);
        }
    }
    assert forall|k1: int, k2: int| 0 <= k1 < k2 < idx2.len() implies idx2[k1] < idx2[k2] by {
        if k2 < idx.len() {
        } else {
            assert(0 <= idx[k1] < i);
        }
    }
}

} // verus!
