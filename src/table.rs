use vstd::prelude::*;

verus! {

/// A row of a table whose rows are told apart by a key.
pub trait Keyed {
    type Key;

    spec fn key(&self) -> Self::Key;
}

/// Some row of `s` has key `k`.
pub open spec fn has_key<A: Keyed>(s: Seq<A>, k: A::Key) -> bool {
    exists|i: int| 0 <= i < s.len() && s[i].key() == k
}

/// The position of the row with key `k` (meaningful when `has_key(s, k)`).
pub open spec fn key_pos<A: Keyed>(s: Seq<A>, k: A::Key) -> int {
    choose|i: int| 0 <= i < s.len() && s[i].key() == k
}

/// No two rows of `s` share a key.
pub open spec fn keys_unique<A: Keyed>(s: Seq<A>) -> bool {
    forall|i: int, j: int|
        0 <= i < s.len() && 0 <= j < s.len() && s[i].key() == s[j].key() ==> i == j
}

/// The row with key `k`, if any.
pub open spec fn lookup<A: Keyed>(s: Seq<A>, k: A::Key) -> Option<A> {
    if has_key(s, k) {
        Some(s[key_pos(s, k)])
    } else {
        None
    }
}

/// `s` with the row `a` in place of the row of the same key, or appended.
pub open spec fn upsert<A: Keyed>(s: Seq<A>, a: A) -> Seq<A> {
    if has_key(s, a.key()) {
        s.update(key_pos(s, a.key()), a)
    } else {
        s.push(a)
    }
}

/// `s` without the row of key `k`.
pub open spec fn remove_key<A: Keyed>(s: Seq<A>, k: A::Key) -> Seq<A> {
    if has_key(s, k) {
        s.remove(key_pos(s, k))
    } else {
        s
    }
}

/// In a table with unique keys, a row found at `i` is the one `key_pos` names.
pub proof fn lemma_key_pos<A: Keyed>(s: Seq<A>, i: int)
    requires
        keys_unique(s),
        0 <= i < s.len(),
    ensures
        has_key(s, s[i].key()),
        key_pos(s, s[i].key()) == i,
        lookup(s, s[i].key()) == Some(s[i]),
{
    let k = s[i].key();
    assert(has_key(s, k));
    let j = key_pos(s, k);
    assert(s[j].key() == k);
}

/// Upserting keeps keys unique and makes the row the one found under its key.
pub proof fn lemma_upsert<A: Keyed>(s: Seq<A>, a: A)
    requires
        keys_unique(s),
    ensures
        keys_unique(upsert(s, a)),
        lookup(upsert(s, a), a.key()) == Some(a),
        forall|k: A::Key| k != a.key() ==> lookup(#[trigger] upsert(s, a), k) == lookup(s, k),
{
    let t = upsert(s, a);
    if has_key(s, a.key()) {
        let p = key_pos(s, a.key());
        assert(keys_unique(t));
        lemma_key_pos(t, p);
        assert forall|k: A::Key| k != a.key() implies lookup(t, k) == lookup(s, k) by {
            if has_key(s, k) {
                let q = key_pos(s, k);
                assert(t[q] == s[q]);
                lemma_key_pos(t, q);
            } else {
                if has_key(t, k) {
                    let q = key_pos(t, k);
                    assert(s[q].key() == k);
                }
            }
        }
    } else {
        let n = s.len() as int;
        assert(keys_unique(t)) by {
            assert forall|i: int, j: int|
                0 <= i < t.len() && 0 <= j < t.len() && t[i].key() == t[j].key() implies i == j by {
                if i < n && j < n {
                } else if i == n && j < n {
                    assert(s[j].key() == a.key());
                } else if j == n && i < n {
                    assert(s[i].key() == a.key());
                }
            }
        }
        lemma_key_pos(t, n);
        assert forall|k: A::Key| k != a.key() implies lookup(t, k) == lookup(s, k) by {
            if has_key(s, k) {
                let q = key_pos(s, k);
                lemma_key_pos(t, q);
            } else {
                if has_key(t, k) {
                    let q = key_pos(t, k);
                    assert(q < n);
                    assert(s[q].key() == k);
                }
            }
        }
    }
}

/// Removing a key keeps keys unique and leaves no row under it.
pub proof fn lemma_remove_key<A: Keyed>(s: Seq<A>, k: A::Key)
    requires
        keys_unique(s),
    ensures
        keys_unique(remove_key(s, k)),
        !has_key(remove_key(s, k), k),
        forall|k2: A::Key| k2 != k ==> lookup(#[trigger] remove_key(s, k), k2) == lookup(s, k2),
{
    let t = remove_key(s, k);
    if has_key(s, k) {
        let p = key_pos(s, k);
        assert(keys_unique(t)) by {
            assert forall|i: int, j: int|
                0 <= i < t.len() && 0 <= j < t.len() && t[i].key() == t[j].key() implies i == j by {
                let i0 = if i < p { i } else { i + 1 };
                let j0 = if j < p { j } else { j + 1 };
                assert(t[i] == s[i0]);
                assert(t[j] == s[j0]);
            }
        }
        if has_key(t, k) {
            let q = key_pos(t, k);
            let q0 = if q < p { q } else { q + 1 };
            assert(t[q] == s[q0]);
        }
        assert forall|k2: A::Key| k2 != k implies lookup(t, k2) == lookup(s, k2) by {
            if has_key(s, k2) {
                let q = key_pos(s, k2);
                assert(q != p);
                let q1 = if q < p { q } else { q - 1 };
                assert(t[q1] == s[q]);
                lemma_key_pos(t, q1);
            } else {
                if has_key(t, k2) {
                    let q = key_pos(t, k2);
                    let q0 = if q < p { q } else { q + 1 };
                    assert(t[q] == s[q0]);
                }
            }
        }
    }
}

/// Upserting a row whose key sits at `i` replaces the row at `i`.
pub proof fn lemma_upsert_at<A: Keyed>(s: Seq<A>, i: int, a: A)
    requires
        keys_unique(s),
        0 <= i < s.len(),
        s[i].key() == a.key(),
    ensures
        upsert(s, a) == s.update(i, a),
        remove_key(s, a.key()) == s.remove(i),
{
    lemma_key_pos(s, i);
}

} // verus!
