//! Lists that are searched by a key: where a key stands first, and how that
//! changes when the list grows or shrinks.

use vstd::prelude::*;

verus! {

/// An index of a vector as a position in its view.
pub open spec fn as_position(at: Option<usize>) -> Option<int> {
    match at {
        Some(i) => Some(i as int),
        None => None,
    }
}

/// A key found at `i`, and nowhere before, stands first at `i`.
pub proof fn lemma_first_at<K>(keys: Seq<K>, k: K, i: int)
    requires
        0 <= i < keys.len(),
        keys[i] == k,
        forall|j: int| 0 <= j < i ==> keys[j] != k,
    ensures
        keys.index_of_first(k) == Some(i),
{
    keys.index_of_first_ensures(k);
    assert(keys.contains(k));
}

/// A key found nowhere has no first position.
pub proof fn lemma_first_none<K>(keys: Seq<K>, k: K)
    requires
        forall|j: int| 0 <= j < keys.len() ==> keys[j] != k,
    ensures
        keys.index_of_first(k) is None,
{
    keys.index_of_first_ensures(k);
}

/// Among keys that are all different, a key stands first wherever it stands.
pub proof fn lemma_first_unique<K>(keys: Seq<K>, i: int)
    requires
        keys.no_duplicates(),
        0 <= i < keys.len(),
    ensures
        keys.index_of_first(keys[i]) == Some(i),
{
    lemma_first_at(keys, keys[i], i);
}

/// Adding a key that was absent: it is found at the end, and every other
/// key where it was.
pub proof fn lemma_first_after_push<K>(keys: Seq<K>, k: K, other: K)
    requires
        keys.index_of_first(k) is None,
    ensures
        keys.push(k).index_of_first(other) == if other == k {
            Some(keys.len() as int)
        } else {
            keys.index_of_first(other)
        },
        keys.no_duplicates() ==> keys.push(k).no_duplicates(),
{
    let grown = keys.push(k);
    keys.index_of_first_ensures(k);
    keys.index_of_first_ensures(other);
    assert forall|j: int| 0 <= j < keys.len() implies keys[j] != k by {
        if keys[j] == k {
            assert(keys.contains(k));
        }
    }
    if other == k {
        lemma_first_at(grown, k, keys.len() as int);
    } else {
        match keys.index_of_first(other) {
            Some(i) => {
                lemma_first_at(grown, other, i);
            },
            None => {
                assert forall|j: int| 0 <= j < grown.len() implies grown[j] != other by {
                    if j < keys.len() && keys[j] == other {
                        assert(keys.contains(other));
                    }
                }
                lemma_first_none(grown, other);
            },
        }
    }
}

/// Taking out the key at `i`, among keys that are all different: that key is
/// gone, and every other key is found where it was, or one place earlier.
pub proof fn lemma_first_after_remove<K>(keys: Seq<K>, i: int, other: K)
    requires
        keys.no_duplicates(),
        0 <= i < keys.len(),
    ensures
        keys.remove(i).no_duplicates(),
        keys.remove(i).index_of_first(other) == if other == keys[i] {
            None
        } else {
            match keys.index_of_first(other) {
                Some(j) => Some(if j < i { j } else { j - 1 }),
                None => None,
            }
        },
{
    let rest = keys.remove(i);
    keys.index_of_first_ensures(other);
    if other == keys[i] {
        assert forall|j: int| 0 <= j < rest.len() implies rest[j] != other by {
            if j < i {
                assert(rest[j] == keys[j]);
            } else {
                assert(rest[j] == keys[j + 1]);
            }
        }
        lemma_first_none(rest, other);
    } else {
        match keys.index_of_first(other) {
            Some(j) => {
                let at = if j < i { j } else { j - 1 };
                assert(rest[at] == other);
                assert forall|m: int| 0 <= m < at implies rest[m] != other by {
                    if m < i {
                        assert(rest[m] == keys[m]);
                    } else {
                        assert(rest[m] == keys[m + 1]);
                    }
                }
                lemma_first_at(rest, other, at);
            },
            None => {
                assert forall|m: int| 0 <= m < rest.len() implies rest[m] != other by {
                    if m < i {
                        assert(rest[m] == keys[m]);
                        if keys[m] == other { assert(keys.contains(other)); }
                    } else {
                        assert(rest[m] == keys[m + 1]);
                        if keys[m + 1] == other { assert(keys.contains(other)); }
                    }
                }
                lemma_first_none(rest, other);
            },
        }
    }
}


/// What the first `k + 1` items hold: what the first `k` hold, and item `k`.
pub proof fn lemma_take_contains<K>(items: Seq<K>, k: int, x: K)
    requires
        0 <= k < items.len(),
    ensures
        items.take(k + 1).contains(x) <==> items.take(k).contains(x) || items[k] == x,
{
    let longer = items.take(k + 1);
    let shorter = items.take(k);
    if shorter.contains(x) {
        let j = choose|j: int| 0 <= j < shorter.len() && shorter[j] == x;
        assert(longer[j] == x);
    }
    if items[k] == x {
        assert(longer[k] == x);
    }
    if longer.contains(x) {
        let j = choose|j: int| 0 <= j < longer.len() && longer[j] == x;
        if j < k {
            assert(shorter[j] == x);
        }
    }
}


/// Adding a key at the end: a key that was found is found where it was;
/// the added key, if it was absent, is found at the end.
pub proof fn lemma_first_in_push<K>(keys: Seq<K>, k: K, other: K)
    ensures
        keys.push(k).index_of_first(other) == match keys.index_of_first(other) {
            Some(i) => Some(i),
            None => if other == k {
                Some(keys.len() as int)
            } else {
                None
            },
        },
{
    let grown = keys.push(k);
    keys.index_of_first_ensures(other);
    match keys.index_of_first(other) {
        Some(i) => {
            lemma_first_at(grown, other, i);
        },
        None => {
            assert forall|j: int| 0 <= j < keys.len() implies keys[j] != other by {
                if keys[j] == other {
                    assert(keys.contains(other));
                }
            }
            if other == k {
                lemma_first_at(grown, other, keys.len() as int);
            } else {
                lemma_first_none(grown, other);
            }
        },
    }
}


/// Keys of which each stands first where it stands are all different.
pub proof fn lemma_all_first_distinct<K>(keys: Seq<K>)
    requires
        forall|i: int| 0 <= i < keys.len() ==> keys.index_of_first(#[trigger] keys[i]) == Some(i),
    ensures
        keys.no_duplicates(),
{
}

/// A key that does not stand first where it stands occurs twice.
pub proof fn lemma_not_first_duplicate<K>(keys: Seq<K>, i: int)
    requires
        0 <= i < keys.len(),
        keys.index_of_first(keys[i]) != Some(i),
    ensures
        !keys.no_duplicates(),
{
    keys.index_of_first_ensures(keys[i]);
    assert(keys.contains(keys[i]));
    let j = keys.index_of_first(keys[i])->0;
    assert(keys[j] == keys[i] && j != i);
}

} // verus!
