//! Association lists keyed by account: a sequence of `(key, value)` pairs with
//! pairwise distinct keys, read as a finite map.
use vstd::prelude::*;

use crate::account::AccountId;

verus! {

/// No key occurs twice.
pub open spec fn keys_unique<M>(p: Seq<(AccountId, M)>) -> bool {
    forall|i: int, j: int|
        0 <= i < p.len() && 0 <= j < p.len() && #[trigger] p[i].0 == #[trigger] p[j].0 ==> i == j
}

/// The key occurs at some position.
pub open spec fn has_key<M>(p: Seq<(AccountId, M)>, k: AccountId) -> bool {
    exists|i: int| 0 <= i < p.len() && #[trigger] p[i].0 == k
}

/// The map that an association list stands for.
pub open spec fn assoc_map<M>(p: Seq<(AccountId, M)>) -> Map<AccountId, M> {
    Map::new(
        |k: AccountId| has_key(p, k),
        |k: AccountId| p[choose|i: int| 0 <= i < p.len() && #[trigger] p[i].0 == k].1,
    )
}

pub proof fn lemma_assoc_at<M>(p: Seq<(AccountId, M)>, i: int)
    requires
        keys_unique(p),
        0 <= i < p.len(),
    ensures
        assoc_map(p).contains_key(p[i].0),
        assoc_map(p)[p[i].0] == p[i].1,
{
    let k = p[i].0;
    assert(has_key(p, k));
    let j = choose|j: int| 0 <= j < p.len() && #[trigger] p[j].0 == k;
    assert(p[j].0 == p[i].0);
}

pub proof fn lemma_assoc_absent<M>(p: Seq<(AccountId, M)>, k: AccountId)
    requires
        forall|j: int| 0 <= j < p.len() ==> p[j].0 != k,
    ensures
        !assoc_map(p).contains_key(k),
{
}

/// Replacing the value at a position keeps the key and updates the map there.
pub proof fn lemma_assoc_update<M>(p: Seq<(AccountId, M)>, i: int, v: M)
    requires
        keys_unique(p),
        0 <= i < p.len(),
    ensures
        keys_unique(p.update(i, (p[i].0, v))),
        assoc_map(p.update(i, (p[i].0, v))) == assoc_map(p).insert(p[i].0, v),
{
    let q = p.update(i, (p[i].0, v));
    assert forall|a: int, b: int|
        0 <= a < q.len() && 0 <= b < q.len() && #[trigger] q[a].0 == #[trigger] q[b].0 implies a == b by {
        assert(p[a].0 == q[a].0 && p[b].0 == q[b].0);
    }
    let m = assoc_map(p).insert(p[i].0, v);
    assert forall|k: AccountId| #[trigger] assoc_map(q).contains_key(k) <==> m.contains_key(k) by {
        if has_key(q, k) {
            let j = choose|j: int| 0 <= j < q.len() && #[trigger] q[j].0 == k;
            assert(p[j].0 == k);
        }
        if has_key(p, k) {
            let j = choose|j: int| 0 <= j < p.len() && #[trigger] p[j].0 == k;
            assert(q[j].0 == k);
        }
        if k == p[i].0 {
            assert(q[i].0 == k);
        }
    }
    assert forall|k: AccountId| #[trigger] assoc_map(q).contains_key(k) implies assoc_map(q)[k]
        == m[k] by {
        let j = choose|j: int| 0 <= j < q.len() && #[trigger] q[j].0 == k;
        lemma_assoc_at(q, j);
        if j != i {
            lemma_assoc_at(p, j);
        }
    }
    assert(assoc_map(q) =~= m);
}

/// Appending a pair with a fresh key adds that key to the map.
pub proof fn lemma_assoc_push<M>(p: Seq<(AccountId, M)>, k: AccountId, v: M)
    requires
        keys_unique(p),
        !assoc_map(p).contains_key(k),
    ensures
        keys_unique(p.push((k, v))),
        assoc_map(p.push((k, v))) == assoc_map(p).insert(k, v),
{
    let q = p.push((k, v));
    assert forall|a: int, b: int|
        0 <= a < q.len() && 0 <= b < q.len() && #[trigger] q[a].0 == #[trigger] q[b].0 implies a == b by {
        if a < p.len() {
            assert(p[a].0 == q[a].0);
        }
        if b < p.len() {
            assert(p[b].0 == q[b].0);
        }
    }
    let m = assoc_map(p).insert(k, v);
    assert forall|x: AccountId| #[trigger] assoc_map(q).contains_key(x) <==> m.contains_key(x) by {
        if has_key(q, x) {
            let j = choose|j: int| 0 <= j < q.len() && #[trigger] q[j].0 == x;
            if j < p.len() {
                assert(p[j].0 == x);
            }
        }
        if has_key(p, x) {
            let j = choose|j: int| 0 <= j < p.len() && #[trigger] p[j].0 == x;
            assert(q[j].0 == x);
        }
        if x == k {
            assert(q[p.len() as int].0 == x);
        }
    }
    assert forall|x: AccountId| #[trigger] assoc_map(q).contains_key(x) implies assoc_map(q)[x]
        == m[x] by {
        let j = choose|j: int| 0 <= j < q.len() && #[trigger] q[j].0 == x;
        lemma_assoc_at(q, j);
        if j < p.len() {
            assert(p[j] == q[j]);
            lemma_assoc_at(p, j);
        }
    }
    assert(assoc_map(q) =~= m);
}

/// Removing the pair at a position removes its key from the map.
pub proof fn lemma_assoc_remove<M>(p: Seq<(AccountId, M)>, i: int)
    requires
        keys_unique(p),
        0 <= i < p.len(),
    ensures
        keys_unique(p.remove(i)),
        assoc_map(p.remove(i)) == assoc_map(p).remove(p[i].0),
{
    let q = p.remove(i);
    assert forall|a: int| 0 <= a < q.len() implies #[trigger] q[a] == p[if a < i { a } else { a + 1 }] by {
    }
    assert forall|a: int, b: int|
        0 <= a < q.len() && 0 <= b < q.len() && #[trigger] q[a].0 == #[trigger] q[b].0 implies a == b by {
        let a1 = if a < i { a } else { a + 1 };
        let b1 = if b < i { b } else { b + 1 };
        assert(p[a1].0 == p[b1].0);
    }
    let m = assoc_map(p).remove(p[i].0);
    assert forall|x: AccountId| #[trigger] assoc_map(q).contains_key(x) <==> m.contains_key(x) by {
        if has_key(q, x) {
            let j = choose|j: int| 0 <= j < q.len() && #[trigger] q[j].0 == x;
            let j1 = if j < i { j } else { j + 1 };
            assert(p[j1].0 == x);
            assert(j1 != i);
        }
        if has_key(p, x) && x != p[i].0 {
            let j = choose|j: int| 0 <= j < p.len() && #[trigger] p[j].0 == x;
            let j1 = if j < i { j } else { j - 1 };
            assert(q[j1].0 == x);
        }
    }
    assert forall|x: AccountId| #[trigger] assoc_map(q).contains_key(x) implies assoc_map(q)[x]
        == m[x] by {
        let j = choose|j: int| 0 <= j < q.len() && #[trigger] q[j].0 == x;
        let j1 = if j < i { j } else { j + 1 };
        lemma_assoc_at(q, j);
        lemma_assoc_at(p, j1);
    }
    assert(assoc_map(q) =~= m);
}

} // verus!
