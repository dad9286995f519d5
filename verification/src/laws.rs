//! Laws the engine guarantees, stated and proved over the format and merge
//! specifications.

use vstd::prelude::*;

use crate::format::blob_table;
use crate::format::blob_well_formed;
use crate::format::entry_count;
use crate::format::entry_name;
use crate::format::entry_payload;
use crate::format::table_prefix;
use crate::registry::ModuleFlavor;
use crate::registry::ancestors;
use crate::registry::is_ancestor;
use crate::registry::merged_registry;
use crate::registry::package_closure;
use crate::registry::separator;

verus! {

/// A name is in the mapping of the first `i` entries exactly when one of
/// those entries bears it.
pub proof fn lemma_blob_table_dom(d: Seq<u8>, i: int, n: Seq<u8>)
    requires
        0 <= i,
    ensures
        table_prefix(d, i).contains_key(n) <==> exists|j: int| 0 <= j < i && entry_name(d, j) == n,
    decreases i,
{
    if i > 0 {
        lemma_blob_table_dom(d, i - 1, n);
        if table_prefix(d, i).contains_key(n) {
            if entry_name(d, i - 1) == n {
                assert(0 <= i - 1 < i && entry_name(d, i - 1) == n);
            } else {
                let j = choose|j: int| 0 <= j < i - 1 && entry_name(d, j) == n;
                assert(0 <= j < i && entry_name(d, j) == n);
            }
        }
        if exists|j: int| 0 <= j < i && entry_name(d, j) == n {
            let j = choose|j: int| 0 <= j < i && entry_name(d, j) == n;
            if j < i - 1 {
                assert(table_prefix(d, i - 1).contains_key(n));
            }
        }
    }
}

/// The payload held under a name is the one of the last entry bearing that
/// name.
pub proof fn lemma_blob_table_last(d: Seq<u8>, i: int, j: int)
    requires
        0 <= j < i,
        forall|k: int| j < k < i ==> entry_name(d, k) != entry_name(d, j),
    ensures
        table_prefix(d, i).contains_key(entry_name(d, j)),
        table_prefix(d, i)[entry_name(d, j)] == entry_payload(d, j),
    decreases i,
{
    if j < i - 1 {
        lemma_blob_table_last(d, i - 1, j);
    }
}

/// Whether a blob lays the given (name, payload) pairs out in the packed
/// format, in order.
pub open spec fn encodes(d: Seq<u8>, pairs: Seq<(Seq<u8>, Seq<u8>)>) -> bool {
    &&& blob_well_formed(d)
    &&& entry_count(d) == pairs.len()
    &&& forall|i: int|
        0 <= i < pairs.len() ==> entry_name(d, i) == pairs[i].0 && entry_payload(d, i)
            == pairs[i].1
}

/// Round-trip: a blob that encodes pairs with pairwise distinct names
/// decodes to exactly those pairs — every pair is present byte for byte,
/// and nothing else is.
pub proof fn lemma_round_trip(d: Seq<u8>, pairs: Seq<(Seq<u8>, Seq<u8>)>)
    requires
        encodes(d, pairs),
        forall|i: int, j: int| 0 <= i < j < pairs.len() ==> pairs[i].0 != pairs[j].0,
    ensures
        forall|i: int|
            0 <= i < pairs.len() ==> blob_table(d).contains_key(#[trigger] pairs[i].0)
                && blob_table(d)[pairs[i].0] == pairs[i].1,
        forall|n: Seq<u8>|
            blob_table(d).contains_key(n) ==> exists|i: int| 0 <= i < pairs.len() && pairs[i].0
                == n,
{
    let cnt = entry_count(d) as int;
    assert forall|i: int| 0 <= i < pairs.len() implies blob_table(d).contains_key(
        #[trigger] pairs[i].0,
    ) && blob_table(d)[pairs[i].0] == pairs[i].1 by {
        assert(forall|k: int| i < k < cnt ==> entry_name(d, k) != entry_name(d, i));
        lemma_blob_table_last(d, cnt, i);
    }
    assert forall|n: Seq<u8>| blob_table(d).contains_key(n) implies exists|i: int|
        0 <= i < pairs.len() && pairs[i].0 == n by {
        lemma_blob_table_dom(d, cnt, n);
        let j = choose|j: int| 0 <= j < cnt && entry_name(d, j) == n;
        assert(pairs[j].0 == n);
    }
}

/// Duplicate-name precedence: the decoded table holds, under any name, the
/// payload of the last entry bearing it; so of two entries of one name the
/// later wins.
pub proof fn lemma_duplicate_last_wins(d: Seq<u8>, j: int)
    requires
        0 <= j < entry_count(d),
        forall|k: int| j < k < entry_count(d) ==> entry_name(d, k) != entry_name(d, j),
    ensures
        blob_table(d).contains_key(entry_name(d, j)),
        blob_table(d)[entry_name(d, j)] == entry_payload(d, j),
{
    lemma_blob_table_last(d, entry_count(d) as int, j);
}

/// Package derivation: every dotted-prefix ancestor of a registered
/// blob-packed name is in the package closure, and a name without a
/// separator implies no ancestors.
pub proof fn lemma_package_derivation(mem: Set<Seq<u8>>, n: Seq<u8>)
    requires
        mem.contains(n),
    ensures
        forall|p: Seq<u8>| ancestors(n).contains(p) ==> package_closure(mem).contains(p),
        (forall|k: int| 0 <= k < n.len() ==> n[k] != separator()) ==> ancestors(n)
            =~= Set::<Seq<u8>>::empty(),
{
    assert forall|p: Seq<u8>| ancestors(n).contains(p) implies package_closure(mem).contains(
        p,
    ) by {
        assert(mem.contains(n) && is_ancestor(p, n));
    }
    if forall|k: int| 0 <= k < n.len() ==> n[k] != separator() {
        assert forall|p: Seq<u8>| !ancestors(n).contains(p) by {
            if is_ancestor(p, n) {
                let k = choose|k: int| 0 <= k < n.len() && n[k] == separator() && p == n.subrange(
                    0,
                    k,
                );
            }
        }
    }
}

/// Flavor precedence: a name in the blob-packed source reports InMemory
/// whatever else holds it; otherwise a precompiled name reports
/// Precompiled; otherwise a natively linked name reports NativelyLinked.
pub proof fn lemma_flavor_precedence(
    native: Set<Seq<u8>>,
    pre: Set<Seq<u8>>,
    mem: Set<Seq<u8>>,
    n: Seq<u8>,
)
    ensures
        mem.contains(n) ==> merged_registry(native, pre, mem).contains_key(n) && merged_registry(
            native,
            pre,
            mem,
        )[n] == ModuleFlavor::InMemory,
        !mem.contains(n) && pre.contains(n) ==> merged_registry(native, pre, mem).contains_key(n)
            && merged_registry(native, pre, mem)[n] == ModuleFlavor::Precompiled,
        !mem.contains(n) && !pre.contains(n) && native.contains(n) ==> merged_registry(
            native,
            pre,
            mem,
        ).contains_key(n) && merged_registry(native, pre, mem)[n] == ModuleFlavor::NativelyLinked,
        !mem.contains(n) && !pre.contains(n) && !native.contains(n) ==> !merged_registry(
            native,
            pre,
            mem,
        ).contains_key(n),
{
}

} // verus!
