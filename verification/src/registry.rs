//! The registry's lookup model: first-match association lookups over the
//! stored sequences, with the lemmas that connect them to indexwise
//! updates and appends.

use vstd::prelude::*;

use crate::types::{CrossChainSync, H256};

verus! {

/// First-match lookup in an association list.
pub open spec fn lookup_assoc<K, V>(s: Seq<(K, V)>, key: K) -> Option<V>
    decreases s.len(),
{
    if s.len() == 0 {
        None
    } else if s[0].0 == key {
        Some(s[0].1)
    } else {
        lookup_assoc(s.drop_first(), key)
    }
}

/// First-match lookup of a record by request identity.
pub open spec fn lookup_sync(s: Seq<CrossChainSync>, id: H256) -> Option<CrossChainSync>
    decreases s.len(),
{
    if s.len() == 0 {
        None
    } else if s[0].request_id == id {
        Some(s[0])
    } else {
        lookup_sync(s.drop_first(), id)
    }
}

/// No two records share a request identity.
pub open spec fn unique_ids(s: Seq<CrossChainSync>) -> bool {
    forall|i: int, j: int|
        0 <= i < s.len() && 0 <= j < s.len() && s[i].request_id == s[j].request_id ==> i == j
}

/// Replacing the value at the first entry of a key changes that key's
/// lookup and no other.
pub proof fn lemma_lookup_assoc_update<K, V>(s: Seq<(K, V)>, i: int, key: K, v: V)
    requires
        0 <= i < s.len(),
        s[i].0 == key,
        forall|k: int| 0 <= k < i ==> s[k].0 != key,
    ensures
        lookup_assoc(s.update(i, (key, v)), key) == Some(v),
        forall|t: K|
            t != key ==> lookup_assoc(s.update(i, (key, v)), t) == lookup_assoc(s, t),
    decreases s.len(),
{
    let s2 = s.update(i, (key, v));
    if i == 0 {
        assert(s2[0] == (key, v));
        assert(s2.drop_first() =~= s.drop_first());
    } else {
        assert(s2[0] == s[0]);
        assert(s2.drop_first() =~= s.drop_first().update(i - 1, (key, v)));
        assert(s.drop_first()[i - 1] == s[i]);
        assert forall|k: int| 0 <= k < i - 1 implies s.drop_first()[k].0 != key by {
            assert(s.drop_first()[k] == s[k + 1]);
        }
        lemma_lookup_assoc_update(s.drop_first(), i - 1, key, v);
        assert forall|t: K| t != key implies lookup_assoc(s2, t) == lookup_assoc(s, t) by {
            if s[0].0 != t {
                assert(lookup_assoc(s.drop_first().update(i - 1, (key, v)), t) == lookup_assoc(
                    s.drop_first(),
                    t,
                ));
            }
        }
    }
}

/// Appending an entry for an absent key defines that key's lookup and
/// changes no other.
pub proof fn lemma_lookup_assoc_push<K, V>(s: Seq<(K, V)>, key: K, v: V)
    requires
        forall|i: int| 0 <= i < s.len() ==> s[i].0 != key,
    ensures
        lookup_assoc(s.push((key, v)), key) == Some(v),
        forall|t: K| t != key ==> lookup_assoc(s.push((key, v)), t) == lookup_assoc(s, t),
    decreases s.len(),
{
    let s2 = s.push((key, v));
    if s.len() == 0 {
        assert(s2[0] == (key, v));
        assert forall|t: K| t != key implies lookup_assoc(s2, t) == lookup_assoc(s, t) by {
            assert(s2.drop_first() =~= Seq::<(K, V)>::empty());
            assert(lookup_assoc(Seq::<(K, V)>::empty(), t) == None::<V>);
        }
    } else {
        assert(s2[0] == s[0]);
        assert(s2.drop_first() =~= s.drop_first().push((key, v)));
        assert forall|i: int| 0 <= i < s.drop_first().len() implies s.drop_first()[i].0 != key by {
            assert(s.drop_first()[i] == s[i + 1]);
        }
        lemma_lookup_assoc_push(s.drop_first(), key, v);
        assert(s[0].0 != key);
        assert forall|t: K| t != key implies lookup_assoc(s2, t) == lookup_assoc(s, t) by {
            if s[0].0 != t {
                assert(lookup_assoc(s.drop_first().push((key, v)), t) == lookup_assoc(
                    s.drop_first(),
                    t,
                ));
            }
        }
    }
}

/// A found record has a witness index; a missing identity has none.
pub proof fn lemma_lookup_sync_properties(s: Seq<CrossChainSync>, id: H256)
    ensures
        match lookup_sync(s, id) {
            Some(r) => r.request_id == id && exists|i: int| 0 <= i < s.len() && s[i] == r,
            None => forall|i: int| 0 <= i < s.len() ==> s[i].request_id != id,
        },
    decreases s.len(),
{
    if s.len() > 0 && s[0].request_id != id {
        lemma_lookup_sync_properties(s.drop_first(), id);
        match lookup_sync(s, id) {
            Some(r) => {
                let i = choose|i: int| 0 <= i < s.drop_first().len() && s.drop_first()[i] == r;
                assert(s[i + 1] == r);
            },
            None => {
                assert forall|i: int| 0 <= i < s.len() implies s[i].request_id != id by {
                    if i > 0 {
                        assert(s.drop_first()[i - 1] == s[i]);
                    }
                }
            },
        }
    }
}

/// Lookup returns the record at the first index holding the identity.
pub proof fn lemma_lookup_sync_at_first(s: Seq<CrossChainSync>, i: int)
    requires
        0 <= i < s.len(),
        forall|k: int| 0 <= k < i ==> s[k].request_id != s[i].request_id,
    ensures
        lookup_sync(s, s[i].request_id) == Some(s[i]),
    decreases s.len(),
{
    if i > 0 {
        assert(s.drop_first()[i - 1] == s[i]);
        assert forall|k: int| 0 <= k < i - 1 implies (#[trigger] s.drop_first()[k]).request_id
            != s.drop_first()[i - 1].request_id by {
            assert(s.drop_first()[k] == s[k + 1]);
        }
        lemma_lookup_sync_at_first(s.drop_first(), i - 1);
    }
}

/// Replacing the record at the first index of an identity changes that
/// identity's lookup and no other.
pub proof fn lemma_lookup_sync_update(s: Seq<CrossChainSync>, i: int, r2: CrossChainSync)
    requires
        0 <= i < s.len(),
        s[i].request_id == r2.request_id,
        forall|k: int| 0 <= k < i ==> s[k].request_id != r2.request_id,
    ensures
        lookup_sync(s.update(i, r2), r2.request_id) == Some(r2),
        forall|id: H256|
            id != r2.request_id ==> lookup_sync(s.update(i, r2), id) == lookup_sync(s, id),
    decreases s.len(),
{
    let s2 = s.update(i, r2);
    if i == 0 {
        assert(s2[0] == r2);
        assert(s2.drop_first() =~= s.drop_first());
    } else {
        assert(s2[0] == s[0]);
        assert(s2.drop_first() =~= s.drop_first().update(i - 1, r2));
        assert(s.drop_first()[i - 1] == s[i]);
        assert forall|k: int| 0 <= k < i - 1 implies s.drop_first()[k].request_id
            != r2.request_id by {
            assert(s.drop_first()[k] == s[k + 1]);
        }
        lemma_lookup_sync_update(s.drop_first(), i - 1, r2);
        assert forall|id: H256| id != r2.request_id implies lookup_sync(s2, id) == lookup_sync(
            s,
            id,
        ) by {
            if s[0].request_id != id {
                assert(lookup_sync(s.drop_first().update(i - 1, r2), id) == lookup_sync(
                    s.drop_first(),
                    id,
                ));
            }
        }
    }
}

/// Appending a record with a fresh identity defines that identity's
/// lookup and changes no other.
pub proof fn lemma_lookup_sync_push(s: Seq<CrossChainSync>, r: CrossChainSync)
    requires
        forall|i: int| 0 <= i < s.len() ==> s[i].request_id != r.request_id,
    ensures
        lookup_sync(s.push(r), r.request_id) == Some(r),
        forall|id: H256| id != r.request_id ==> lookup_sync(s.push(r), id) == lookup_sync(s, id),
    decreases s.len(),
{
    let s2 = s.push(r);
    if s.len() == 0 {
        assert(s2[0] == r);
        assert forall|id: H256| id != r.request_id implies lookup_sync(s2, id) == lookup_sync(
            s,
            id,
        ) by {
            assert(s2.drop_first() =~= Seq::<CrossChainSync>::empty());
            assert(lookup_sync(Seq::<CrossChainSync>::empty(), id) == None::<CrossChainSync>);
        }
    } else {
        assert(s2[0] == s[0]);
        assert(s2.drop_first() =~= s.drop_first().push(r));
        assert forall|i: int|
            0 <= i < s.drop_first().len() implies s.drop_first()[i].request_id != r.request_id by {
            assert(s.drop_first()[i] == s[i + 1]);
        }
        lemma_lookup_sync_push(s.drop_first(), r);
        assert(s[0].request_id != r.request_id);
        assert forall|id: H256| id != r.request_id implies lookup_sync(s2, id) == lookup_sync(
            s,
            id,
        ) by {
            if s[0].request_id != id {
                assert(lookup_sync(s.drop_first().push(r), id) == lookup_sync(s.drop_first(), id));
            }
        }
    }
}

} // verus!
