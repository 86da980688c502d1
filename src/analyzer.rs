use vstd::prelude::*;
use crate::stats::{extension, extension_of};
use crate::order::{lemma_insert_stable, lemma_stable_sort_push, sorted_by, stable_sort};
use crate::text::{decimal, lower_of, lowercase};

verus! {

broadcast use vstd::seq_lib::group_seq_properties, vstd::seq_lib::to_multiset_insert,
    vstd::seq_lib::lemma_multiset_commutative, vstd::seq_lib::to_multiset_len;

/// Totals of a storage walk.
pub struct StorageInfo {
    /// Bytes of all files seen.
    pub total_size: u64,
    /// Files seen.
    pub file_count: usize,
    /// Directories seen.
    pub dir_count: usize,
    /// Bytes per lowercased extension, one entry per extension.
    pub by_extension: Vec<(String, u64)>,
    /// The largest files seen, largest first.
    pub largest_files: Vec<(String, u64)>,
}

/// Bytes recorded under key `k`, or 0 where `k` has no entry.
pub open spec fn ext_bytes(v: Seq<(String, u64)>, k: Seq<char>) -> int
    decreases v.len(),
{
    if v.len() == 0 {
        0
    } else if v.last().0@ == k {
        v.last().1 as int
    } else {
        ext_bytes(v.drop_last(), k)
    }
}

/// Sum of all the byte counts of the entries.
pub open spec fn pair_total(v: Seq<(String, u64)>) -> int
    decreases v.len(),
{
    if v.len() == 0 {
        0
    } else {
        pair_total(v.drop_last()) + v.last().1
    }
}

/// No two entries share a key.
pub open spec fn unique_keys(v: Seq<(String, u64)>) -> bool {
    forall|a: int, b: int| 0 <= a < b < v.len() ==> v[a].0@ != v[b].0@
}

/// Byte counts never increase along the sequence.
pub open spec fn pairs_sorted_desc(v: Seq<(String, u64)>) -> bool {
    forall|a: int, b: int| 0 <= a < b < v.len() ==> v[a].1 >= v[b].1
}

impl StorageInfo {
    /// The totals of a walk that has seen nothing.
    pub fn empty() -> (r: StorageInfo)
        ensures
            r.total_size == 0,
            r.file_count == 0,
            r.dir_count == 0,
            r.by_extension@.len() == 0,
            r.largest_files@.len() == 0,
            r.well_formed(),
    {
        StorageInfo { total_size: 0, file_count: 0, dir_count: 0, by_extension: Vec::new(), largest_files: Vec::new() }
    }

    /// Extension entries have distinct keys and account for no more bytes
    /// than the total, and the largest files come largest first.
    pub open spec fn well_formed(&self) -> bool {
        &&& unique_keys(self.by_extension@)
        &&& pair_total(self.by_extension@) <= self.total_size
        &&& pairs_sorted_desc(self.largest_files@)
    }
}

proof fn lemma_entry_le_total(v: Seq<(String, u64)>, i: int)
    requires
        0 <= i < v.len(),
    ensures
        v[i].1 <= pair_total(v),
    decreases v.len(),
{
    lemma_pair_total_nonneg(v.drop_last());
    if i < v.len() - 1 {
        lemma_entry_le_total(v.drop_last(), i);
    }
}

proof fn lemma_pair_total_nonneg(v: Seq<(String, u64)>)
    ensures
        pair_total(v) >= 0,
    decreases v.len(),
{
    if v.len() > 0 {
        lemma_pair_total_nonneg(v.drop_last());
    }
}

proof fn lemma_pair_total_update(v: Seq<(String, u64)>, j: int, x: (String, u64))
    requires
        0 <= j < v.len(),
    ensures
        pair_total(v.update(j, x)) == pair_total(v) - v[j].1 + x.1,
    decreases v.len(),
{
    if j < v.len() - 1 {
        assert(v.update(j, x).drop_last() =~= v.drop_last().update(j, x));
        lemma_pair_total_update(v.drop_last(), j, x);
    } else {
        assert(v.update(j, x).drop_last() =~= v.drop_last());
    }
}

proof fn lemma_ext_bytes_unique(v: Seq<(String, u64)>, i: int)
    requires
        unique_keys(v),
        0 <= i < v.len(),
    ensures
        ext_bytes(v, v[i].0@) == v[i].1,
    decreases v.len(),
{
    if i < v.len() - 1 {
        lemma_ext_bytes_unique(v.drop_last(), i);
    }
}

proof fn lemma_ext_bytes_absent(v: Seq<(String, u64)>, k: Seq<char>)
    requires
        forall|a: int| 0 <= a < v.len() ==> v[a].0@ != k,
    ensures
        ext_bytes(v, k) == 0,
    decreases v.len(),
{
    if v.len() > 0 {
        lemma_ext_bytes_absent(v.drop_last(), k);
    }
}

/// Adds `size` bytes under key `key`, creating the entry where it is missing.
fn add_to_key(v: &mut Vec<(String, u64)>, key: String, size: u64)
    requires
        unique_keys(old(v)@),
        pair_total(old(v)@) + size <= u64::MAX,
    ensures
        unique_keys(final(v)@),
        pair_total(final(v)@) == pair_total(old(v)@) + size,
        ext_bytes(final(v)@, key@) == ext_bytes(old(v)@, key@) + size,
        forall|k: Seq<char>| k != key@ ==> ext_bytes(final(v)@, k) == ext_bytes(old(v)@, k),
{
    let mut j: usize = 0;
    while j < v.len() && !(v[j].0 == key)
        invariant
            j <= v@.len(),
            forall|a: int| 0 <= a < j ==> v@[a].0@ != key@,
        decreases v@.len() - j,
    {
        j = j + 1;
    }
    let ghost before = v@;
    if j < v.len() {
        proof {
            lemma_entry_le_total(before, j as int);
            lemma_pair_total_nonneg(before);
        }
        let e = (v[j].0.clone(), v[j].1 + size);
        v.set(j, e);
        proof {
            lemma_pair_total_update(before, j as int, e);
            lemma_ext_bytes_unique(before, j as int);
            lemma_ext_bytes_unique(v@, j as int);
            assert forall|k: Seq<char>| k != key@ implies ext_bytes(v@, k) == ext_bytes(before, k) by {
                lemma_ext_bytes_other(before, j as int, e, k);
            }
        }
    } else {
        proof {
            lemma_ext_bytes_absent(before, key@);
        }
        v.push((key, size));
        proof {
            assert(v@.drop_last() =~= before);
        }
    }
}

proof fn lemma_ext_bytes_other(v: Seq<(String, u64)>, j: int, x: (String, u64), k: Seq<char>)
    requires
        0 <= j < v.len(),
        x.0@ == v[j].0@,
        k != x.0@,
    ensures
        ext_bytes(v.update(j, x), k) == ext_bytes(v, k),
    decreases v.len(),
{
    if j < v.len() - 1 {
        assert(v.update(j, x).drop_last() =~= v.drop_last().update(j, x));
        lemma_ext_bytes_other(v.drop_last(), j, x, k);
    } else {
        assert(v.update(j, x).drop_last() =~= v.drop_last());
    }
}

/// The byte count of an entry, as the key that orders entries.
pub open spec fn pair_key() -> spec_fn((String, u64)) -> int {
    |p: (String, u64)| p.1 as int
}

proof fn lemma_pairs_sorted_by_key(s: Seq<(String, u64)>)
    ensures
        pairs_sorted_desc(s) == sorted_by(s, pair_key()),
{
    if sorted_by(s, pair_key()) {
        assert forall|a: int, b: int| 0 <= a < b < s.len() implies s[a].1 >= s[b].1 by {
            assert(pair_key()(s[a]) >= pair_key()(s[b]));
        }
    }
    if pairs_sorted_desc(s) {
        assert forall|a: int, b: int| 0 <= a < b < s.len() implies #[trigger] pair_key()(s[a]) >= #[trigger] pair_key()(s[b]) by {
            assert(s[a].1 >= s[b].1);
        }
    }
}

/// The `n` largest entries, largest first, entries of equal size in the
/// order given: the first `n` of `v` sorted stably by size. As many as `n`
/// allows, taken from `v`, and none of the entries left out is larger than
/// any taken.
pub fn keep_largest(v: Vec<(String, u64)>, n: usize) -> (r: Vec<(String, u64)>)
    ensures
        r@.len() == if n < v@.len() { n as int } else { v@.len() as int },
        r@ == stable_sort(v@, pair_key()).take(r@.len() as int),
        pairs_sorted_desc(r@),
        r@.to_multiset().subset_of(v@.to_multiset()),
        forall|x: (String, u64), i: int|
            #![trigger v@.to_multiset().sub(r@.to_multiset()).count(x), r@[i]]
            v@.to_multiset().sub(r@.to_multiset()).count(x) > 0 && 0 <= i < r@.len() ==> x.1 <= r@[i].1,
{
    let ghost orig = v@;
    let mut rest = v;
    let count = rest.len();
    let mut out: Vec<(String, u64)> = Vec::new();
    let mut i: usize = 0;
    proof {
        assert(orig.skip(0) =~= orig);
        assert(orig.take(0) =~= Seq::<(String, u64)>::empty());
    }
    while rest.len() > 0
        invariant
            orig == v@,
            i <= orig.len() == count,
            rest@ == orig.skip(i as int),
            out@ == stable_sort(orig.take(i as int), pair_key()),
            out@.to_multiset() == orig.take(i as int).to_multiset(),
            sorted_by(out@, pair_key()),
        decreases rest@.len(),
    {
        let c = rest.remove(0);
        let ghost p = orig.take(i as int);
        let ghost prev = out@;
        let mut j: usize = 0;
        while j < out.len() && out[j].1 >= c.1
            invariant
                j <= out@.len(),
                forall|k: int| 0 <= k < j ==> out@[k].1 >= c.1,
            decreases out@.len() - j,
        {
            j = j + 1;
        }
        proof {
            assert(c == orig[i as int]);
            assert(orig.take(i + 1) =~= p.push(c));
            assert(rest@ =~= orig.skip(i + 1));
            assert forall|k: int| 0 <= k < j implies #[trigger] pair_key()(prev[k]) >= pair_key()(c) by {
                assert(prev[k].1 >= c.1);
            }
            if j < prev.len() {
                assert(pair_key()(prev[j as int]) < pair_key()(c));
            }
            lemma_insert_stable(prev, c, pair_key(), j as int);
            lemma_stable_sort_push(p, c, pair_key());
        }
        out.insert(j, c);
        i = i + 1;
    }
    proof {
        assert(orig.take(i as int) =~= orig);
        lemma_pairs_sorted_by_key(out@);
    }
    let ghost full = out@;
    assert(full.len() == full.to_multiset().len());
    assert(orig.len() == orig.to_multiset().len());
    if n < out.len() {
        out.truncate(n);
    }
    proof {
        let k = out@.len() as int;
        let head = full.take(k);
        assert(out@ =~= full.take(k));
        let tail = full.skip(k);
        assert(full =~= head + tail);
        assert(out@ =~= head);
        assert(full.to_multiset() =~= head.to_multiset().add(tail.to_multiset()));
        assert(full.to_multiset().sub(head.to_multiset()) =~= tail.to_multiset());
        assert forall|x: (String, u64), i: int|
            orig.to_multiset().sub(head.to_multiset()).count(x) > 0 && 0 <= i < k implies x.1 <= out@[i].1 by {
            assert(tail.contains(x));
            let j = choose|j: int| 0 <= j < tail.len() && tail[j] == x;
            assert(full[k + j] == x);
            assert(full[i] == head[i]);
        }
    }
    out
}

/// Settings of a storage walk: depth limit and number of largest files kept.
pub struct StorageAnalyzer {
    pub max_depth: Option<usize>,
    pub top_n: usize,
}

impl Default for StorageAnalyzer {
    /// No depth limit; no largest files are kept.
    fn default() -> (r: StorageAnalyzer)
        ensures
            r.max_depth is None,
            r.top_n == 0,
    {
        StorageAnalyzer { max_depth: None, top_n: 0 }
    }
}

impl StorageAnalyzer {
    /// No depth limit; the ten largest files are kept.
    pub fn new() -> (r: StorageAnalyzer)
        ensures
            r.max_depth is None,
            r.top_n == 10,
    {
        StorageAnalyzer { max_depth: None, top_n: 10 }
    }

    pub fn with_max_depth(self, depth: usize) -> (r: StorageAnalyzer)
        ensures
            r.max_depth == Some(depth),
            r.top_n == self.top_n,
    {
        StorageAnalyzer { max_depth: Some(depth), ..self }
    }

    pub fn with_top_n(self, n: usize) -> (r: StorageAnalyzer)
        ensures
            r.max_depth == self.max_depth,
            r.top_n == n,
    {
        StorageAnalyzer { top_n: n, ..self }
    }

    /// Counts a directory met by the walk.
    pub fn record_dir(&self, info: &mut StorageInfo)
        requires
            old(info).dir_count < usize::MAX,
        ensures
            final(info).dir_count == old(info).dir_count + 1,
            final(info).total_size == old(info).total_size,
            final(info).file_count == old(info).file_count,
            final(info).by_extension == old(info).by_extension,
            final(info).largest_files == old(info).largest_files,
    {
        info.dir_count = info.dir_count + 1;
    }

    /// Counts a file met by the walk: its bytes go to the total and, where
    /// its name has an extension, to the lowercased extension's entry; the
    /// file joins the largest files, of which `top_n` are kept.
    pub fn record_file(&self, info: &mut StorageInfo, path: String, name: &str, size: u64)
        requires
            old(info).well_formed(),
            old(info).total_size + size <= u64::MAX,
            old(info).file_count < usize::MAX,
        ensures
            final(info).well_formed(),
            final(info).total_size == old(info).total_size + size,
            final(info).file_count == old(info).file_count + 1,
            final(info).dir_count == old(info).dir_count,
            match extension_of(name@) {
                Some(e) => {
                    &&& ext_bytes(final(info).by_extension@, lower_of(e)) == ext_bytes(old(info).by_extension@, lower_of(e)) + size
                    &&& forall|k: Seq<char>| k != lower_of(e) ==> ext_bytes(final(info).by_extension@, k) == ext_bytes(old(info).by_extension@, k)
                },
                None => final(info).by_extension@ == old(info).by_extension@,
            },
            final(info).largest_files@.len() == if self.top_n < old(info).largest_files@.len() + 1 {
                self.top_n as int
            } else {
                old(info).largest_files@.len() + 1 as int
            },
            final(info).largest_files@ == stable_sort(old(info).largest_files@.push((path, size)), pair_key()).take(
                final(info).largest_files@.len() as int,
            ),
            final(info).largest_files@.to_multiset().subset_of(old(info).largest_files@.push((path, size)).to_multiset()),
            forall|x: (String, u64), i: int|
                #![trigger old(info).largest_files@.push((path, size)).to_multiset().sub(final(info).largest_files@.to_multiset()).count(x), final(info).largest_files@[i]]
                old(info).largest_files@.push((path, size)).to_multiset().sub(final(info).largest_files@.to_multiset()).count(x) > 0
                    && 0 <= i < final(info).largest_files@.len() ==> x.1 <= final(info).largest_files@[i].1,
    {
        info.total_size = info.total_size + size;
        info.file_count = info.file_count + 1;
        match extension(name) {
            Some(e) => {
                let key = lowercase(e.as_str());
                add_to_key(&mut info.by_extension, key, size);
            },
            None => {},
        }
        let mut largest = Vec::new();
        std::mem::swap(&mut largest, &mut info.largest_files);
        largest.push((path, size));
        info.largest_files = keep_largest(largest, self.top_n);
    }

    /// The totals of several walks together: counts and bytes add up,
    /// extension entries of the same key merge, and `top_n` of all the
    /// largest files are kept. `None` where a count or the bytes do not fit.
    pub fn analyze_multiple(&self, infos: Vec<StorageInfo>) -> (r: Option<StorageInfo>)
        requires
            forall|i: int| 0 <= i < infos@.len() ==> (#[trigger] infos@[i]).well_formed(),
        ensures
            fits_together(infos@) ==> r is Some,
            r is Some ==> ({
                let c = r->0;
                &&& c.well_formed()
                &&& c.total_size == sum_sizes(infos@)
                &&& c.file_count == sum_files(infos@)
                &&& c.dir_count == sum_dirs(infos@)
                &&& forall|k: Seq<char>| #[trigger] ext_bytes(c.by_extension@, k) == sum_ext(infos@, k)
                &&& c.largest_files@.len() == if self.top_n < all_largest(infos@).len() {
                    self.top_n as int
                } else {
                    all_largest(infos@).len() as int
                }
                &&& c.largest_files@ == stable_sort(all_largest(infos@), pair_key()).take(c.largest_files@.len() as int)
                &&& c.largest_files@.to_multiset().subset_of(all_largest(infos@).to_multiset())
                &&& forall|x: (String, u64), i: int|
                    #![trigger all_largest(infos@).to_multiset().sub(c.largest_files@.to_multiset()).count(x), c.largest_files@[i]]
                    all_largest(infos@).to_multiset().sub(c.largest_files@.to_multiset()).count(x) > 0
                        && 0 <= i < c.largest_files@.len() ==> x.1 <= c.largest_files@[i].1
            }),
    {
        let ghost all = infos@;
        let mut combined = StorageInfo::empty();
        let mut all_files: Vec<(String, u64)> = Vec::new();
        let mut rest = infos;
        let count = rest.len();
        let mut done: usize = 0;
        proof {
            assert(all.skip(0) =~= all);
            lemma_sums_split(all, 0);
        }
        while rest.len() > 0
            invariant
                all == infos@,
                done <= all.len() == count,
                rest@ == all.skip(done as int),
                combined.well_formed(),
                forall|i: int| 0 <= i < rest@.len() ==> (#[trigger] rest@[i]).well_formed(),
                combined.total_size + sum_sizes(rest@) == sum_sizes(all),
                combined.file_count + sum_files(rest@) == sum_files(all),
                combined.dir_count + sum_dirs(rest@) == sum_dirs(all),
                forall|k: Seq<char>| #[trigger] ext_bytes(combined.by_extension@, k) + sum_ext(rest@, k) == sum_ext(all, k),
                all_files@ + all_largest(rest@) == all_largest(all),
                fits_together(all) ==> fits_together(rest@) && combined.total_size + sum_sizes(rest@) <= u64::MAX
                    && combined.file_count + sum_files(rest@) <= usize::MAX && combined.dir_count + sum_dirs(rest@) <= usize::MAX,
            decreases rest@.len(),
        {
            let ghost rb = rest@;
            let info = rest.remove(0);
            proof {
                assert(rb[0] == info);
                assert(rb.drop_first() =~= rest@);
                assert(info.well_formed());
                lemma_sums_nonneg(rest@);
                assert(sum_sizes(rb) == info.total_size + sum_sizes(rest@));
                assert(sum_files(rb) == info.file_count + sum_files(rest@));
                assert(sum_dirs(rb) == info.dir_count + sum_dirs(rest@));
                assert(forall|k: Seq<char>| #[trigger] sum_ext(rb, k) == ext_bytes(info.by_extension@, k) + sum_ext(rest@, k));
            }
            if combined.total_size > u64::MAX - info.total_size || combined.file_count > usize::MAX - info.file_count
                || combined.dir_count > usize::MAX - info.dir_count {
                assert(!fits_together(all));
                return None;
            }
            let ghost before = combined.by_extension@;
            combined.total_size = combined.total_size + info.total_size;
            combined.file_count = combined.file_count + info.file_count;
            combined.dir_count = combined.dir_count + info.dir_count;
            let mut exts = info.by_extension;
            let ghost snapshot = (combined.total_size, combined.file_count, combined.dir_count);
            while exts.len() > 0
                invariant
                    snapshot == (combined.total_size, combined.file_count, combined.dir_count),
                    unique_keys(combined.by_extension@),
                    unique_keys(exts@),
                    pairs_sorted_desc(combined.largest_files@),
                    pair_total(combined.by_extension@) + pair_total(exts@) <= combined.total_size,
                    forall|k: Seq<char>| #[trigger] ext_bytes(combined.by_extension@, k) + ext_bytes(exts@, k)
                        == ext_bytes(before, k) + ext_bytes(info.by_extension@, k),
                decreases exts@.len(),
            {
                let ghost eb = exts@;
                let (key, size) = exts.pop().unwrap();
                let ghost cb = combined.by_extension@;
                proof {
                    assert(eb.drop_last() =~= exts@);
                    lemma_pair_total_nonneg(exts@);
                    lemma_pair_total_nonneg(cb);
                    lemma_ext_bytes_absent(exts@, key@);
                }
                add_to_key(&mut combined.by_extension, key, size);
                proof {
                    assert forall|k: Seq<char>| #[trigger] ext_bytes(combined.by_extension@, k) + ext_bytes(exts@, k)
                        == ext_bytes(before, k) + ext_bytes(info.by_extension@, k) by {
                        assert(ext_bytes(cb, k) + ext_bytes(eb, k) == ext_bytes(before, k) + ext_bytes(info.by_extension@, k));
                    }
                }
            }
            proof {
                assert forall|k: Seq<char>| #[trigger] ext_bytes(combined.by_extension@, k) + sum_ext(rest@, k) == sum_ext(all, k) by {
                    assert(ext_bytes(before, k) + sum_ext(rb, k) == sum_ext(all, k));
                }
            }
            let ghost fb = all_files@;
            let mut files = info.largest_files;
            all_files.append(&mut files);
            proof {
                assert(all_largest(rb) == info.largest_files@ + all_largest(rest@));
                assert(all_files@ + all_largest(rest@) =~= fb + all_largest(rb));
                assert(rest@ =~= all.skip(done + 1));
            }
            done = done + 1;
        }
        proof {
            assert(all_largest(rest@) =~= Seq::<(String, u64)>::empty());
            assert(all_files@ =~= all_largest(all));
            assert forall|k: Seq<char>| #[trigger] ext_bytes(combined.by_extension@, k) == sum_ext(all, k) by {
                assert(ext_bytes(combined.by_extension@, k) + sum_ext(rest@, k) == sum_ext(all, k));
            }
        }
        let kept = keep_largest(all_files, self.top_n);
        combined.largest_files = kept;
        Some(combined)
    }
}

/// Bytes of all the walks together.
pub open spec fn sum_sizes(s: Seq<StorageInfo>) -> int
    decreases s.len(),
{
    if s.len() == 0 { 0 } else { s[0].total_size + sum_sizes(s.drop_first()) }
}

/// Files of all the walks together.
pub open spec fn sum_files(s: Seq<StorageInfo>) -> int
    decreases s.len(),
{
    if s.len() == 0 { 0 } else { s[0].file_count + sum_files(s.drop_first()) }
}

/// Directories of all the walks together.
pub open spec fn sum_dirs(s: Seq<StorageInfo>) -> int
    decreases s.len(),
{
    if s.len() == 0 { 0 } else { s[0].dir_count + sum_dirs(s.drop_first()) }
}

/// Bytes under extension `k` in all the walks together.
pub open spec fn sum_ext(s: Seq<StorageInfo>, k: Seq<char>) -> int
    decreases s.len(),
{
    if s.len() == 0 { 0 } else { ext_bytes(s[0].by_extension@, k) + sum_ext(s.drop_first(), k) }
}

/// The largest files of all the walks, one walk after the other.
pub open spec fn all_largest(s: Seq<StorageInfo>) -> Seq<(String, u64)>
    decreases s.len(),
{
    if s.len() == 0 { Seq::empty() } else { s[0].largest_files@ + all_largest(s.drop_first()) }
}

/// The bytes and the counts of all the walks fit their types.
pub open spec fn fits_together(s: Seq<StorageInfo>) -> bool {
    &&& sum_sizes(s) <= u64::MAX
    &&& sum_files(s) <= usize::MAX
    &&& sum_dirs(s) <= usize::MAX
}

proof fn lemma_sums_nonneg(s: Seq<StorageInfo>)
    ensures
        sum_sizes(s) >= 0,
        sum_files(s) >= 0,
        sum_dirs(s) >= 0,
    decreases s.len(),
{
    if s.len() > 0 {
        lemma_sums_nonneg(s.drop_first());
    }
}

proof fn lemma_sums_split(s: Seq<StorageInfo>, i: int)
    requires
        0 <= i <= s.len(),
    ensures
        sum_sizes(s.skip(i)) <= sum_sizes(s),
        sum_files(s.skip(i)) <= sum_files(s),
        sum_dirs(s.skip(i)) <= sum_dirs(s),
    decreases i,
{
    if i > 0 {
        lemma_sums_split(s.drop_first(), i - 1);
        assert(s.drop_first().skip(i - 1) =~= s.skip(i));
    } else {
        assert(s.skip(0) =~= s);
    }
}

/// Relies on bytesize's `Display` for `ByteSize`: a byte count below 1000
/// is written as its decimal digits followed by ` B`. Larger counts pick a
/// unit through a floating-point logarithm, so nothing is stated of them.
#[verifier::external_body]
fn byte_size_text(bytes: u64) -> (r: String)
    ensures
        bytes < 1000 ==> r@ == decimal(bytes as nat) + " B"@,
{
    bytesize::ByteSize::b(bytes).to_string()
}

/// A byte count for people to read: exact below 1000 bytes, in decimal
/// units above.
pub fn format_bytes(bytes: u64) -> (r: String)
    ensures
        bytes < 1000 ==> r@ == decimal(bytes as nat) + " B"@,
{
    byte_size_text(bytes)
}

} // verus!
