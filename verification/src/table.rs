//! Tables of entries keyed by correlation or sequence ids, with at most one
//! entry per key: the bookkeeping behind pending commands, open generation
//! streams, embedding batches and known sequences.
use vstd::prelude::*;

verus! {

/// An entry of a table, found by the string it is keyed by.
pub trait Keyed {
    /// The key of this entry.
    spec fn key(&self) -> Seq<char>;

    /// The key of this entry, as stored.
    fn key_string(&self) -> (r: &String)
        ensures
            r@ == self.key(),
    ;
}

impl Keyed for String {
    open spec fn key(&self) -> Seq<char> {
        self@
    }

    fn key_string(&self) -> (r: &String) {
        self
    }
}

/// Whether some entry of `s` has key `k`.
pub open spec fn has_key<T: Keyed>(s: Seq<T>, k: Seq<char>) -> bool {
    exists|i: int| 0 <= i < s.len() && #[trigger] s[i].key() == k
}

/// No two entries of `s` share a key.
pub open spec fn keys_unique<T: Keyed>(s: Seq<T>) -> bool {
    forall|i: int, j: int|
        0 <= i < s.len() && 0 <= j < s.len() && i != j ==> #[trigger] s[i].key() != #[trigger] s[j].key()
}

/// The position of the entry with key `k` (meaningful when there is one).
pub open spec fn key_pos<T: Keyed>(s: Seq<T>, k: Seq<char>) -> int {
    choose|i: int| 0 <= i < s.len() && #[trigger] s[i].key() == k
}

/// The entry with key `k` (meaningful when there is one).
pub open spec fn entry<T: Keyed>(s: Seq<T>, k: Seq<char>) -> T {
    s[key_pos(s, k)]
}

/// `s` without the entry keyed `k`, the others in their order.
pub open spec fn without_key<T: Keyed>(s: Seq<T>, k: Seq<char>) -> Seq<T> {
    if has_key(s, k) {
        s.remove(key_pos(s, k))
    } else {
        s
    }
}

/// `s` with `e` stored under its key: in place of the entry with that key if
/// there is one, else at the end.
pub open spec fn with_entry<T: Keyed>(s: Seq<T>, e: T) -> Seq<T> {
    if has_key(s, e.key()) {
        s.update(key_pos(s, e.key()), e)
    } else {
        s.push(e)
    }
}

/// In a table with unique keys, the entry keyed `k` sits at `key_pos`.
pub proof fn lemma_key_pos<T: Keyed>(s: Seq<T>, k: Seq<char>, i: int)
    requires
        keys_unique(s),
        0 <= i < s.len(),
        s[i].key() == k,
    ensures
        has_key(s, k),
        key_pos(s, k) == i,
{
    assert(has_key(s, k));
    let j = key_pos(s, k);
    assert(0 <= j < s.len() && s[j].key() == k);
}

/// Removing an entry keeps keys unique.
pub proof fn lemma_unique_remove<T: Keyed>(s: Seq<T>, i: int)
    requires
        keys_unique(s),
        0 <= i < s.len(),
    ensures
        keys_unique(s.remove(i)),
{
    let r = s.remove(i);
    assert forall|a: int, b: int|
        0 <= a < r.len() && 0 <= b < r.len() && a != b implies #[trigger] r[a].key() != #[trigger] r[b].key() by {
        let a2 = if a < i { a } else { a + 1 };
        let b2 = if b < i { b } else { b + 1 };
        assert(r[a] == s[a2]);
        assert(r[b] == s[b2]);
    }
}

/// Storing an entry keeps keys unique.
pub proof fn lemma_unique_with_entry<T: Keyed>(s: Seq<T>, e: T)
    requires
        keys_unique(s),
    ensures
        keys_unique(with_entry(s, e)),
        has_key(with_entry(s, e), e.key()),
{
    let r = with_entry(s, e);
    if has_key(s, e.key()) {
        let p = key_pos(s, e.key());
        assert(0 <= p < s.len() && s[p].key() == e.key());
        assert forall|a: int, b: int|
            0 <= a < r.len() && 0 <= b < r.len() && a != b implies #[trigger] r[a].key() != #[trigger] r[b].key() by {
            if a == p {
                assert(s[b].key() != s[p].key());
            } else if b == p {
                assert(s[a].key() != s[p].key());
            } else {
                assert(r[a] == s[a] && r[b] == s[b]);
            }
        }
        assert(r[p].key() == e.key());
    } else {
        assert forall|a: int, b: int|
            0 <= a < r.len() && 0 <= b < r.len() && a != b implies #[trigger] r[a].key() != #[trigger] r[b].key() by {
            if a == s.len() {
                assert(r[b] == s[b]);
            } else if b == s.len() {
                assert(r[a] == s[a]);
            } else {
                assert(r[a] == s[a] && r[b] == s[b]);
            }
        }
        assert(r[s.len() as int].key() == e.key());
    }
}

/// The position of the entry keyed `k`, if any.
pub fn find_key<T: Keyed>(v: &Vec<T>, k: &String) -> (r: Option<usize>)
    ensures
        match r {
            Some(i) => i < v@.len() && v@[i as int].key() == k@,
            None => !has_key(v@, k@),
        },
{
    let n = v.len();
    let mut i: usize = 0;
    while i < n
        invariant
            n == v@.len(),
            i <= n,
            forall|j: int| 0 <= j < i ==> #[trigger] v@[j].key() != k@,
        decreases n - i,
    {
        if v[i].key_string().eq(k) {
            return Some(i);
        }
        i = i + 1;
    }
    None
}

/// Whether some entry is keyed `k`.
pub fn contains_key<T: Keyed>(v: &Vec<T>, k: &String) -> (r: bool)
    ensures
        r == has_key(v@, k@),
{
    find_key(v, k).is_some()
}

/// Takes the entry keyed `k` out of the table, if there is one.
pub fn remove_key<T: Keyed>(v: &mut Vec<T>, k: &String) -> (r: Option<T>)
    requires
        keys_unique(old(v)@),
    ensures
        keys_unique(final(v)@),
        final(v)@ == without_key(old(v)@, k@),
        match r {
            Some(e) => has_key(old(v)@, k@) && e == entry(old(v)@, k@),
            None => !has_key(old(v)@, k@),
        },
{
    match find_key(v, k) {
        Some(i) => {
            proof {
                lemma_key_pos(v@, k@, i as int);
                lemma_unique_remove(v@, i as int);
            }
            let e = v.remove(i);
            Some(e)
        },
        None => None,
    }
}

/// Stores `e` under its key, replacing an entry with the same key.
pub fn insert_entry<T: Keyed>(v: &mut Vec<T>, e: T)
    requires
        keys_unique(old(v)@),
    ensures
        keys_unique(final(v)@),
        final(v)@ == with_entry(old(v)@, e),
        has_key(final(v)@, e.key()),
{
    proof {
        lemma_unique_with_entry(v@, e);
    }
    match find_key(v, e.key_string()) {
        Some(i) => {
            proof {
                lemma_key_pos(v@, e.key(), i as int);
            }
            v.set(i, e);
        },
        None => {
            v.push(e);
        },
    }
}


/// After storing `e`, every entry is either `e` or an entry that was there
/// before, at the same position.
pub proof fn lemma_with_entry_at<T: Keyed>(s: Seq<T>, e: T)
    ensures
        with_entry(s, e).len() >= s.len(),
        forall|i: int|
            0 <= i < with_entry(s, e).len() ==> #[trigger] with_entry(s, e)[i] == e || (i < s.len()
                && with_entry(s, e)[i] == s[i]),
{
}

/// Removing key `k` from a table with unique keys leaves no entry keyed `k`,
/// keeps the keys unique, and adds no key.
pub proof fn lemma_without_key<T: Keyed>(s: Seq<T>, k: Seq<char>)
    requires
        keys_unique(s),
    ensures
        !has_key(without_key(s, k), k),
        keys_unique(without_key(s, k)),
        forall|x: Seq<char>| has_key(without_key(s, k), x) ==> has_key(s, x),
        has_key(s, k) ==> entry(s, k).key() == k,
{
    if has_key(s, k) {
        let p = key_pos(s, k);
        assert(0 <= p < s.len() && s[p].key() == k);
        lemma_unique_remove(s, p);
        let r = s.remove(p);
        assert forall|x: Seq<char>| has_key(r, x) implies has_key(s, x) by {
            let i = choose|i: int| 0 <= i < r.len() && #[trigger] r[i].key() == x;
            if i < p {
                assert(s[i].key() == x);
            } else {
                assert(s[i + 1].key() == x);
            }
        }
        if has_key(r, k) {
            let i = choose|i: int| 0 <= i < r.len() && #[trigger] r[i].key() == k;
            if i < p {
                assert(s[i].key() == k);
            } else {
                assert(s[i + 1].key() == k);
            }
        }
    }
}

/// Removing key `k` from a table removes that entry and nothing else: the
/// table shrinks by one exactly when `k` was there, and every other entry
/// stays, under its key, in the same relative order.
pub proof fn law_removing_a_key_keeps_the_others<T: Keyed>(s: Seq<T>, k: Seq<char>)
    requires
        keys_unique(s),
    ensures
        !has_key(without_key(s, k), k),
        has_key(s, k) ==> without_key(s, k).len() + 1 == s.len(),
        !has_key(s, k) ==> without_key(s, k) == s,
        forall|x: Seq<char>|
            x != k ==> (#[trigger] has_key(without_key(s, k), x) <==> has_key(s, x)),
        forall|x: Seq<char>|
            x != k && has_key(s, x) ==> #[trigger] entry(without_key(s, k), x) == entry(s, x),
        forall|i: int, j: int|
            0 <= i < j < without_key(s, k).len() ==> key_pos(s, (#[trigger] without_key(s, k)[i]).key())
                < key_pos(s, (#[trigger] without_key(s, k)[j]).key()),
{
    lemma_without_key(s, k);
    let r = without_key(s, k);
    if has_key(s, k) {
        let p = key_pos(s, k);
        assert(0 <= p < s.len() && s[p].key() == k);
        assert(r == s.remove(p));
        assert forall|x: Seq<char>| x != k && has_key(s, x) implies has_key(r, x) && entry(r, x) == entry(
            s,
            x,
        ) by {
            let i = choose|i: int| 0 <= i < s.len() && #[trigger] s[i].key() == x;
            assert(i != p);
            lemma_key_pos(s, x, i);
            let j = if i < p { i } else { i - 1 };
            assert(r[j] == s[i]);
            assert(r[j].key() == x);
            lemma_key_pos(r, x, j);
        }
        assert forall|i: int, j: int| 0 <= i < j < r.len() implies key_pos(s, (#[trigger] r[i]).key())
            < key_pos(s, (#[trigger] r[j]).key()) by {
            let a = if i < p { i } else { i + 1 };
            let b = if j < p { j } else { j + 1 };
            assert(r[i] == s[a]);
            assert(r[j] == s[b]);
            lemma_key_pos(s, s[a].key(), a);
            lemma_key_pos(s, s[b].key(), b);
        }
    } else {
        assert forall|i: int, j: int| 0 <= i < j < r.len() implies key_pos(s, (#[trigger] r[i]).key())
            < key_pos(s, (#[trigger] r[j]).key()) by {
            lemma_key_pos(s, s[i].key(), i);
            lemma_key_pos(s, s[j].key(), j);
        }
    }
}

} // verus!
