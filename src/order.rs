use vstd::prelude::*;

verus! {

broadcast use vstd::seq_lib::group_seq_properties, vstd::seq_lib::to_multiset_insert;

/// Keys never increase along the sequence.
pub open spec fn sorted_by<T>(s: Seq<T>, key: spec_fn(T) -> int) -> bool {
    forall|i: int, j: int| 0 <= i < j < s.len() ==> #[trigger] key(s[i]) >= #[trigger] key(s[j])
}

/// `x` placed after every leading entry whose key is at least its own.
pub open spec fn insert_stable<T>(s: Seq<T>, x: T, key: spec_fn(T) -> int) -> Seq<T>
    decreases s.len(),
{
    if s.len() == 0 {
        seq![x]
    } else if key(s[0]) < key(x) {
        seq![x] + s
    } else {
        seq![s[0]] + insert_stable(s.drop_first(), x, key)
    }
}

/// The entries ordered by key, largest first; entries of equal key keep
/// the order in which they came.
pub open spec fn stable_sort<T>(s: Seq<T>, key: spec_fn(T) -> int) -> Seq<T>
    decreases s.len(),
{
    if s.len() == 0 {
        s
    } else {
        insert_stable(stable_sort(s.drop_last(), key), s.last(), key)
    }
}

/// Inserting at the first position whose key is below `x`'s is the stable
/// insertion; it keeps the order and the entries.
pub proof fn lemma_insert_stable<T>(s: Seq<T>, x: T, key: spec_fn(T) -> int, j: int)
    requires
        sorted_by(s, key),
        0 <= j <= s.len(),
        forall|i: int| 0 <= i < j ==> key(s[i]) >= key(x),
        j < s.len() ==> key(s[j]) < key(x),
    ensures
        insert_stable(s, x, key) == s.insert(j, x),
        sorted_by(s.insert(j, x), key),
        s.insert(j, x).to_multiset() == s.to_multiset().insert(x),
    decreases j,
{
    let t = s.insert(j, x);
    if j == 0 {
        if s.len() == 0 {
            assert(t =~= seq![x]);
        } else {
            assert(t =~= seq![x] + s);
        }
    } else {
        let d = s.drop_first();
        assert forall|i: int| 0 <= i < j - 1 implies key(d[i]) >= key(x) by {
            assert(d[i] == s[i + 1]);
        }
        assert(sorted_by(d, key)) by {
            assert forall|a: int, b: int| 0 <= a < b < d.len() implies #[trigger] key(d[a]) >= #[trigger] key(d[b]) by {
                assert(d[a] == s[a + 1]);
                assert(d[b] == s[b + 1]);
            }
        }
        if j - 1 < d.len() {
            assert(d[j - 1] == s[j]);
        }
        lemma_insert_stable(d, x, key, j - 1);
        assert(key(s[0]) >= key(x));
        assert(t =~= seq![s[0]] + d.insert(j - 1, x));
    }
    s.insert_ensures(j, x);
    assert forall|a: int, b: int| 0 <= a < b < t.len() implies #[trigger] key(t[a]) >= #[trigger] key(t[b]) by {
        if b < j {
        } else if b == j {
        } else if a < j {
            assert(t[b] == s[b - 1]);
            if j < s.len() {
                assert(key(s[j]) >= key(s[b - 1]) || j == b - 1);
            }
        } else if a == j {
            assert(t[b] == s[b - 1]);
            assert(key(s[j]) >= key(s[b - 1]) || j == b - 1);
        } else {
            assert(t[a] == s[a - 1]);
            assert(t[b] == s[b - 1]);
        }
    }
}

/// A property of every entry survives an insertion of an entry that has it.
pub proof fn lemma_insert_all<T>(s: Seq<T>, j: int, x: T, p: spec_fn(T) -> bool)
    requires
        0 <= j <= s.len(),
        p(x),
        forall|i: int| 0 <= i < s.len() ==> #[trigger] p(s[i]),
    ensures
        forall|i: int| 0 <= i < s.insert(j, x).len() ==> #[trigger] p(s.insert(j, x)[i]),
{
    s.insert_ensures(j, x);
    assert forall|i: int| 0 <= i < s.insert(j, x).len() implies #[trigger] p(s.insert(j, x)[i]) by {
        if i > j {
            assert(s.insert(j, x)[i] == s[i - 1]);
        }
    }
}

/// Sorting a sequence with one more entry inserts that entry stably.
pub proof fn lemma_stable_sort_push<T>(s: Seq<T>, x: T, key: spec_fn(T) -> int)
    ensures
        stable_sort(s.push(x), key) == insert_stable(stable_sort(s, key), x, key),
{
    assert(s.push(x).drop_last() =~= s);
}

} // verus!
