use vstd::prelude::*;

use crate::service::minted;

verus! {

/// Law: minted ids are never reused. If one creation step mints its id and
/// a later step starts from a counter the first step's counter has already
/// reached — which holds across any run, since every operation's contract
/// keeps the counter from decreasing — the two minted ids differ.
pub proof fn lemma_minted_ids_distinct(
    pre0: u64,
    post0: u64,
    id0: u64,
    pre1: u64,
    post1: u64,
    id1: u64,
)
    requires
        minted(pre0, post0, id0),
        minted(pre1, post1, id1),
        post0 <= pre1,
    ensures
        id0 != id1,
{
}

/// The contract shape shared by the point lookups: the result is the record
/// under the key, or absence.
pub open spec fn lookup_result<T>(m: Map<u64, T>, key: u64, r: Option<T>) -> bool {
    match r {
        Some(v) => m.contains_key(key) && v == m[key],
        None => !m.contains_key(key),
    }
}

/// Law: a lookup's result is a function of the stored map alone. Any two
/// results that satisfy the lookup contract against the same map are equal,
/// so repeated reads of one key agree until a mutation intervenes — and a
/// read, taking its store by shared reference, cannot be that mutation.
pub proof fn lemma_get_deterministic<T>(m: Map<u64, T>, key: u64, r1: Option<T>, r2: Option<T>)
    requires
        lookup_result(m, key, r1),
        lookup_result(m, key, r2),
    ensures
        r1 == r2,
{
}

/// Law: deletion is terminal. The map a successful delete leaves behind
/// holds nothing under the deleted key, so the next lookup of that key
/// reports absence.
pub proof fn lemma_delete_terminal<T>(m: Map<u64, T>, key: u64)
    ensures
        !m.remove(key).contains_key(key),
{
}

} // verus!
