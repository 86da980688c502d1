use vstd::prelude::*;
use crate::text::{lower_of, lowercase};
use crate::order::{lemma_insert_stable, lemma_stable_sort_push, sorted_by, stable_sort};
use crate::tree::{TreeNode, lemma_sorted_desc_by_size, nodes_of, nodes_of_list, size_key, sorted_desc};

verus! {

broadcast use vstd::seq_lib::group_seq_properties, vstd::seq_lib::to_multiset_insert,
    vstd::seq_lib::lemma_multiset_commutative, vstd::seq_lib::to_multiset_len;

/// Pushes every node of the subtree, the node first, then each child's
/// subtree in order.
fn collect_items<'a>(node: &'a TreeNode, items: &mut Vec<&'a TreeNode>)
    ensures
        final(items)@.unref() == old(items)@.unref() + nodes_of(*node),
    decreases node,
{
    let ghost start = items@.unref();
    items.push(node);
    let mut i: usize = 0;
    while i < node.children.len()
        invariant
            i <= node.children@.len(),
            items@.unref() == start + seq![*node] + nodes_of_list(node.children@.take(i as int)),
        decreases node.children@.len() - i,
    {
        proof {
            assert(decreases_to!(node => node.children@[i as int]));
        }
        collect_items(&node.children[i], items);
        proof {
            assert(node.children@.take(i + 1).drop_last() =~= node.children@.take(i as int));
            assert(node.children@.take(i + 1).last() == node.children@[i as int]);
            assert(items@.unref() =~= start + seq![*node] + nodes_of_list(node.children@.take(i + 1)));
        }
        i = i + 1;
    }
    proof {
        assert(node.children@.take(i as int) =~= node.children@);
        assert(items@.unref() =~= start + nodes_of(*node));
    }
}

/// Orders references to nodes largest first, nodes of equal size in the
/// order given.
fn sort_refs_desc<'a>(v: &Vec<&'a TreeNode>) -> (r: Vec<&'a TreeNode>)
    ensures
        r@.unref() == stable_sort(v@.unref(), size_key()),
        sorted_by(r@.unref(), size_key()),
        r@.unref().to_multiset() == v@.unref().to_multiset(),
{
    let ghost orig = v@.unref();
    let mut out: Vec<&'a TreeNode> = Vec::new();
    let mut i: usize = 0;
    assert(orig.take(0) =~= Seq::<TreeNode>::empty());
    while i < v.len()
        invariant
            orig == v@.unref(),
            i <= orig.len(),
            out@.unref() == stable_sort(orig.take(i as int), size_key()),
            out@.unref().to_multiset() == orig.take(i as int).to_multiset(),
            sorted_by(out@.unref(), size_key()),
        decreases orig.len() - i,
    {
        let c = v[i];
        let ghost p = orig.take(i as int);
        let ghost prev = out@.unref();
        let mut j: usize = 0;
        while j < out.len() && out[j].size >= c.size
            invariant
                j <= out@.len(),
                forall|k: int| 0 <= k < j ==> out@[k].size >= c.size,
            decreases out@.len() - j,
        {
            j = j + 1;
        }
        proof {
            assert(*c == orig[i as int]);
            assert(orig.take(i + 1) =~= p.push(*c));
            assert forall|k: int| 0 <= k < j implies #[trigger] size_key()(prev[k]) >= size_key()(*c) by {
                assert(prev[k].size >= c.size);
            }
            if j < prev.len() {
                assert(size_key()(prev[j as int]) < size_key()(*c));
            }
            lemma_insert_stable(prev, *c, size_key(), j as int);
            lemma_stable_sort_push(p, *c, size_key());
            assert(out@.insert(j as int, c).unref() =~= prev.insert(j as int, *c));
        }
        out.insert(j, c);
        i = i + 1;
    }
    assert(orig.take(i as int) =~= orig);
    out
}

/// The `n` largest nodes of the subtree, files and directories alike,
/// largest first, nodes of equal size in depth-first order: as many as `n`
/// allows, taken from the subtree's nodes, and none of the nodes left out is
/// larger than any node taken.
pub fn get_largest_items<'a>(root: &'a TreeNode, n: usize) -> (r: Vec<&'a TreeNode>)
    ensures
        r@.unref() == stable_sort(nodes_of(*root), size_key()).take(r@.len() as int),
        r@.len() == if n < nodes_of(*root).len() { n as int } else { nodes_of(*root).len() as int },
        sorted_desc(r@.unref()),
        r@.unref().to_multiset().subset_of(nodes_of(*root).to_multiset()),
        forall|x: TreeNode, i: int|
            #![trigger nodes_of(*root).to_multiset().sub(r@.unref().to_multiset()).count(x), r@[i]]
            nodes_of(*root).to_multiset().sub(r@.unref().to_multiset()).count(x) > 0 && 0 <= i
                < r@.len() ==> x.size <= r@[i].size,
{
    let mut items: Vec<&'a TreeNode> = Vec::new();
    collect_items(root, &mut items);
    assert(items@.unref() =~= nodes_of(*root));
    let mut sorted = sort_refs_desc(&items);
    let ghost full = sorted@.unref();
    proof {
        lemma_sorted_desc_by_size(full);
    }
    assert(full.len() == full.to_multiset().len());
    if n < sorted.len() {
        sorted.truncate(n);
    }
    proof {
        let k = sorted@.len() as int;
        let head = full.take(k);
        let tail = full.skip(k);
        assert(full =~= head + tail);
        assert(sorted@.unref() =~= head);
        assert(sorted@.unref() =~= full.take(sorted@.len() as int));
        assert(full.to_multiset() =~= head.to_multiset().add(tail.to_multiset()));
        assert(full.to_multiset().sub(head.to_multiset()) =~= tail.to_multiset());
        assert forall|x: TreeNode, i: int|
            full.to_multiset().sub(head.to_multiset()).count(x) > 0 && 0 <= i < k implies x.size
            <= sorted@[i].size by {
            assert(tail.contains(x));
            let j = choose|j: int| 0 <= j < tail.len() && tail[j] == x;
            assert(full[k + j] == x);
            assert(full[i] == head[i]);
        }
    }
    sorted
}

/// Index of the last `.` of a file name, or -1 where it has none.
pub open spec fn last_dot(name: Seq<char>) -> int
    decreases name.len(),
{
    if name.len() == 0 {
        -1
    } else if name.last() == '.' {
        name.len() - 1
    } else {
        last_dot(name.drop_last())
    }
}

/// The extension of a file name: what follows its last `.`, where that `.`
/// is not the name's first character.
pub open spec fn extension_of(name: Seq<char>) -> Option<Seq<char>> {
    let k = last_dot(name);
    if k <= 0 {
        None
    } else {
        Some(name.subrange(k + 1, name.len() as int))
    }
}

/// The key under which a file is counted: its lowercased extension, or
/// `(no ext)` where it has none.
pub open spec fn key_of(n: TreeNode) -> Seq<char> {
    match extension_of(n.name@) {
        Some(e) => lower_of(e),
        None => NO_EXTENSION@,
    }
}

/// Key of the files without an extension.
pub const NO_EXTENSION: &'static str = "(no ext)";

/// Sum of the sizes of the files (non-directories) of `s` with key `k`.
pub open spec fn key_size(s: Seq<TreeNode>, k: Seq<char>) -> int
    decreases s.len(),
{
    if s.len() == 0 {
        0
    } else if !s.last().is_dir && key_of(s.last()) == k {
        key_size(s.drop_last(), k) + s.last().size
    } else {
        key_size(s.drop_last(), k)
    }
}

/// Number of the files (non-directories) of `s` with key `k`.
pub open spec fn key_count(s: Seq<TreeNode>, k: Seq<char>) -> int
    decreases s.len(),
{
    if s.len() == 0 {
        0
    } else if !s.last().is_dir && key_of(s.last()) == k {
        key_count(s.drop_last(), k) + 1
    } else {
        key_count(s.drop_last(), k)
    }
}

/// Sum of the sizes of the files (non-directories) of `s`.
pub open spec fn file_total(s: Seq<TreeNode>) -> int
    decreases s.len(),
{
    if s.len() == 0 {
        0
    } else if !s.last().is_dir {
        file_total(s.drop_last()) + s.last().size
    } else {
        file_total(s.drop_last())
    }
}

/// The extension of a file name, as `extension_of` states it.
pub fn extension(name: &str) -> (r: Option<String>)
    ensures
        r is Some <==> extension_of(name@) is Some,
        r is Some ==> r->0@ == extension_of(name@)->0,
{
    let len = name.unicode_len();
    let mut k: usize = len;
    while k > 0 && name.get_char(k - 1) != '.'
        invariant
            k <= len == name@.len(),
            last_dot(name@) == last_dot(name@.take(k as int)),
        decreases k,
    {
        proof {
            assert(name@.take(k as int).drop_last() =~= name@.take(k - 1));
        }
        k = k - 1;
    }
    proof {
        assert(name@.take(len as int) =~= name@);
        if k > 0 {
            assert(name@.take(k as int).last() == '.');
        } else {
            assert(name@.take(0) =~= Seq::<char>::empty());
        }
    }
    if k <= 1 {
        None
    } else {
        Some(String::from_str(name.substring_char(k, len)))
    }
}

/// The key of a file name: its lowercased extension, or `(no ext)`.
fn key_for(n: &TreeNode) -> (r: String)
    ensures
        r@ == key_of(*n),
{
    match extension(n.name.as_str()) {
        Some(e) => lowercase(e.as_str()),
        None => String::from_str(NO_EXTENSION),
    }
}

/// Bytes and files of one extension within a subtree.
pub struct ExtensionStats {
    /// Lowercased extension, or `(no ext)`.
    pub extension: String,
    /// Sum of the sizes of the files with this extension.
    pub size: u64,
    /// Number of files with this extension.
    pub count: usize,
    /// Sum of the sizes of all files of the subtree.
    pub total: u64,
}

impl ExtensionStats {
    /// Share of this extension in the subtree's file bytes, in hundredths
    /// of a percent, rounded down; 0 where the subtree holds no bytes.
    pub fn percentage_hundredths(&self) -> (r: u64)
        ensures
            self.total == 0 ==> r == 0,
            self.total > 0 ==> r == if self.size as int * 10000 / self.total as int <= u64::MAX {
                self.size as int * 10000 / self.total as int
            } else {
                u64::MAX as int
            },
    {
        if self.total == 0 {
            0
        } else {
            let scaled: u128 = self.size as u128 * 10000;
            let q: u128 = scaled / (self.total as u128);
            if q > u64::MAX as u128 {
                u64::MAX
            } else {
                q as u64
            }
        }
    }

}

/// The bytes and the number of the files of `files` under the entry's key.
pub open spec fn entry_counts(e: ExtensionStats, files: Seq<TreeNode>) -> bool {
    &&& e.size == key_size(files, e.extension@)
    &&& e.count == key_count(files, e.extension@)
    &&& e.count > 0
}

/// What an entry of the result holds for the files `files`.
pub open spec fn entry_matches(e: ExtensionStats, files: Seq<TreeNode>) -> bool {
    &&& entry_counts(e, files)
    &&& e.total == file_total(files)
}

/// Sum of the sizes of the entries of `s` filed under key `k`.
pub open spec fn tally_size(s: Seq<(u64, String)>, k: Seq<char>) -> int
    decreases s.len(),
{
    if s.len() == 0 {
        0
    } else if s.last().1@ == k {
        tally_size(s.drop_last(), k) + s.last().0
    } else {
        tally_size(s.drop_last(), k)
    }
}

/// Number of the entries of `s` filed under key `k`.
pub open spec fn tally_count(s: Seq<(u64, String)>, k: Seq<char>) -> int
    decreases s.len(),
{
    if s.len() == 0 {
        0
    } else if s.last().1@ == k {
        tally_count(s.drop_last(), k) + 1
    } else {
        tally_count(s.drop_last(), k)
    }
}

/// Sum of the sizes of all the entries of `s`.
pub open spec fn tally_total(s: Seq<(u64, String)>) -> int
    decreases s.len(),
{
    if s.len() == 0 {
        0
    } else {
        tally_total(s.drop_last()) + s.last().0
    }
}

proof fn lemma_tally_bounds(s: Seq<(u64, String)>, k: Seq<char>)
    ensures
        0 <= tally_size(s, k) <= tally_total(s),
        0 <= tally_count(s, k) <= s.len(),
    decreases s.len(),
{
    if s.len() > 0 {
        lemma_tally_bounds(s.drop_last(), k);
    }
}

proof fn lemma_tally_prefix(s: Seq<(u64, String)>, i: int)
    requires
        0 <= i <= s.len(),
    ensures
        0 <= tally_total(s.take(i)) <= tally_total(s),
    decreases s.len() - i,
{
    lemma_tally_bounds(s.take(i), Seq::empty());
    if i < s.len() {
        lemma_tally_prefix(s, i + 1);
        assert(s.take(i + 1).drop_last() =~= s.take(i));
    } else {
        assert(s.take(i) =~= s);
    }
}

proof fn lemma_tally_absent(s: Seq<(u64, String)>, k: Seq<char>)
    requires
        forall|m: int| 0 <= m < s.len() ==> s[m].1@ != k,
    ensures
        tally_size(s, k) == 0,
        tally_count(s, k) == 0,
    decreases s.len(),
{
    if s.len() > 0 {
        lemma_tally_absent(s.drop_last(), k);
    }
}

/// The bytes and the number of the entries of `s` under the stat's key.
pub open spec fn tally_counts(e: ExtensionStats, s: Seq<(u64, String)>) -> bool {
    &&& e.size == tally_size(s, e.extension@)
    &&& e.count == tally_count(s, e.extension@)
    &&& e.count > 0
}

/// What a stat of the tally holds for the entries `s`.
pub open spec fn tally_matches(e: ExtensionStats, s: Seq<(u64, String)>) -> bool {
    &&& tally_counts(e, s)
    &&& e.total == tally_total(s)
    &&& e.size <= e.total
}

/// Per-key totals of files given as (size, key), largest first: one stat
/// per key that occurs, with the bytes and the number of files under it
/// and the bytes of all the files.
pub fn tally_extensions(files: &Vec<(u64, String)>) -> (r: Vec<ExtensionStats>)
    requires
        tally_total(files@) <= u64::MAX,
    ensures
        forall|i: int| 0 <= i < r@.len() ==> #[trigger] tally_matches(r@[i], files@),
        forall|i: int, j: int| 0 <= i < j < r@.len() ==> r@[i].extension@ != r@[j].extension@,
        forall|m: int| 0 <= m < files@.len() ==> has_key(r@, (#[trigger] files@[m]).1@),
        forall|i: int, j: int| 0 <= i < j < r@.len() ==> r@[i].size >= r@[j].size,
{
    let ghost ents = files@;
    let mut total: u64 = 0;
    let mut i: usize = 0;
    while i < files.len()
        invariant
            ents == files@,
            tally_total(ents) <= u64::MAX,
            i <= ents.len(),
            total == tally_total(ents.take(i as int)),
        decreases ents.len() - i,
    {
        proof {
            assert(ents.take(i + 1).drop_last() =~= ents.take(i as int));
            lemma_tally_prefix(ents, i + 1);
        }
        total = total + files[i].0;
        i = i + 1;
    }
    assert(ents.take(ents.len() as int) =~= ents);
    let mut acc: Vec<ExtensionStats> = Vec::new();
    i = 0;
    while i < files.len()
        invariant
            ents == files@,
            tally_total(ents) <= u64::MAX,
            total == tally_total(ents),
            i <= ents.len(),
            forall|a: int| 0 <= a < acc@.len() ==> #[trigger] tally_counts(acc@[a], ents.take(i as int)) && acc@[a].total == total,
            forall|a: int, b: int| 0 <= a < b < acc@.len() ==> acc@[a].extension@ != acc@[b].extension@,
            forall|m: int| 0 <= m < i ==> exists|a: int|
                0 <= a < acc@.len() && acc@[a].extension@ == (#[trigger] ents[m]).1@,
        decreases ents.len() - i,
    {
        let ghost p = ents.take(i as int);
        let ghost q = ents.take(i + 1);
        proof {
            assert(q.drop_last() =~= p);
            assert(q.last() == ents[i as int]);
            lemma_tally_prefix(ents, i + 1);
        }
        let size = files[i].0;
        let key = files[i].1.clone();
        let ghost old_acc = acc@;
        let mut j: usize = 0;
        while j < acc.len() && !(acc[j].extension == key)
            invariant
                j <= acc@.len(),
                forall|a: int| 0 <= a < j ==> acc@[a].extension@ != key@,
            decreases acc@.len() - j,
        {
            j = j + 1;
        }
        if j < acc.len() {
            assert(tally_size(q, key@) == tally_size(p, key@) + size);
            assert(tally_count(q, key@) == tally_count(p, key@) + 1);
            assert(q.len() <= files@.len());
            assert(acc@[j as int].extension@ == key@);
            assert(tally_counts(acc@[j as int], p));
            assert(files@.len() <= usize::MAX);
            proof {
                lemma_tally_bounds(q, key@);
            }
            let e = ExtensionStats {
                extension: acc[j].extension.clone(),
                size: acc[j].size + size,
                count: acc[j].count + 1,
                total,
            };
            acc.set(j, e);
            proof {
                assert forall|a: int| 0 <= a < acc@.len() implies #[trigger] tally_counts(acc@[a], q) && acc@[a].total == total by {
                    if a != j {
                        assert(acc@[a] == old_acc[a]);
                        assert(tally_counts(old_acc[a], p));
                    }
                }
                assert forall|m: int| 0 <= m < i + 1 implies exists|a: int|
                    0 <= a < acc@.len() && acc@[a].extension@ == (#[trigger] ents[m]).1@ by {
                    if m < i {
                        let a0 = choose|a: int| 0 <= a < old_acc.len() && old_acc[a].extension@ == ents[m].1@;
                        assert(acc@[a0].extension@ == old_acc[a0].extension@);
                    } else {
                        assert(acc@[j as int].extension@ == ents[m].1@);
                    }
                }
            }
        } else {
            proof {
                assert forall|m: int| 0 <= m < p.len() implies p[m].1@ != key@ by {
                    assert(p[m] == ents[m]);
                }
                lemma_tally_absent(p, key@);
            }
            acc.push(ExtensionStats { extension: key, size, count: 1, total });
            proof {
                assert forall|a: int| 0 <= a < acc@.len() implies #[trigger] tally_counts(acc@[a], q) && acc@[a].total == total by {
                    if a < old_acc.len() {
                        assert(acc@[a] == old_acc[a]);
                        assert(tally_counts(old_acc[a], p));
                    }
                }
                assert forall|m: int| 0 <= m < i + 1 implies exists|a: int|
                    0 <= a < acc@.len() && acc@[a].extension@ == (#[trigger] ents[m]).1@ by {
                    if m < i {
                        let a0 = choose|a: int| 0 <= a < old_acc.len() && old_acc[a].extension@ == ents[m].1@;
                        assert(acc@[a0] == old_acc[a0]);
                    } else {
                        assert(acc@[old_acc.len() as int].extension@ == ents[m].1@);
                    }
                }
            }
        }
        assert(forall|a: int| 0 <= a < acc@.len() ==> #[trigger] tally_counts(acc@[a], q) && acc@[a].total == total);
        i = i + 1;
        assert(q == ents.take(i as int));
        assert forall|a: int| 0 <= a < acc@.len() implies #[trigger] tally_counts(acc@[a], ents.take(i as int)) && acc@[a].total == total by {
            assert(tally_counts(acc@[a], q));
        }
    }
    assert(ents.take(ents.len() as int) =~= ents);
    assert forall|a: int| 0 <= a < acc@.len() implies #[trigger] tally_matches(acc@[a], ents) by {
        assert(tally_counts(acc@[a], ents.take(i as int)));
        lemma_tally_bounds(ents, acc@[a].extension@);
    }
    let ghost ok = |e: ExtensionStats| tally_matches(e, ents);
    assert forall|a: int| 0 <= a < acc@.len() implies #[trigger] ok(acc@[a]) by {
        assert(tally_matches(acc@[a], ents));
    }
    let r = sort_stats_desc(acc, Ghost(ok));
    assert forall|a: int| 0 <= a < r@.len() implies #[trigger] tally_matches(r@[a], files@) by {
        assert(ok(r@[a]));
    }
    assert forall|m: int| 0 <= m < files@.len() implies has_key(r@, (#[trigger] files@[m]).1@) by {
        let a0 = choose|a: int| 0 <= a < acc@.len() && acc@[a].extension@ == ents[m].1@;
    }
    r
}

/// Per-extension totals over the files (non-directories) of a subtree,
/// largest first: one entry per key that occurs, with the bytes and the
/// number of files under it and the subtree's file total.
pub fn analyze_extensions(root: &TreeNode) -> (r: Vec<ExtensionStats>)
    requires
        file_total(nodes_of(*root)) <= u64::MAX,
    ensures
        forall|i: int| 0 <= i < r@.len() ==> #[trigger] entry_matches(r@[i], nodes_of(*root)),
        forall|i: int| 0 <= i < r@.len() ==> #[trigger] r@[i].size <= r@[i].total,
        forall|i: int, j: int|
            0 <= i < j < r@.len() ==> r@[i].extension@ != r@[j].extension@,
        forall|m: int|
            0 <= m < nodes_of(*root).len() && !(#[trigger] nodes_of(*root)[m]).is_dir ==> has_key(r@, key_of(nodes_of(*root)[m])),
        forall|i: int, j: int| 0 <= i < j < r@.len() ==> r@[i].size >= r@[j].size,
{
    let mut items: Vec<&TreeNode> = Vec::new();
    collect_items(root, &mut items);
    let ghost files = nodes_of(*root);
    assert(items@.unref() =~= files);
    let mut ents: Vec<(u64, String)> = Vec::new();
    let mut i: usize = 0;
    while i < items.len()
        invariant
            items@.unref() == files,
            file_total(files) <= u64::MAX,
            i <= files.len(),
            tally_total(ents@) == file_total(files.take(i as int)),
            forall|k: Seq<char>| #[trigger] tally_size(ents@, k) == key_size(files.take(i as int), k),
            forall|k: Seq<char>| #[trigger] tally_count(ents@, k) == key_count(files.take(i as int), k),
            forall|m: int| 0 <= m < i && !(#[trigger] files[m]).is_dir ==> exists|t: int|
                0 <= t < ents@.len() && ents@[t].1@ == key_of(files[m]),
        decreases files.len() - i,
    {
        let ghost p = files.take(i as int);
        let ghost before = ents@;
        proof {
            assert(files.take(i + 1).drop_last() =~= p);
            assert(files.take(i + 1).last() == files[i as int]);
        }
        let node = items[i];
        assert(*node == files[i as int]);
        if !node.is_dir {
            let key = key_for(node);
            ents.push((node.size, key));
            proof {
                assert(ents@.drop_last() =~= before);
                assert forall|m: int| 0 <= m < i + 1 && !(#[trigger] files[m]).is_dir implies exists|t: int|
                    0 <= t < ents@.len() && ents@[t].1@ == key_of(files[m]) by {
                    if m < i {
                        let t0 = choose|t: int| 0 <= t < before.len() && before[t].1@ == key_of(files[m]);
                        assert(ents@[t0] == before[t0]);
                    } else {
                        assert(ents@[before.len() as int].1@ == key_of(files[m]));
                    }
                }
            }
        }
        proof {
            assert forall|k: Seq<char>| #[trigger] tally_size(ents@, k) == key_size(files.take(i + 1), k) by {
                assert(tally_size(before, k) == key_size(p, k));
            }
            assert forall|k: Seq<char>| #[trigger] tally_count(ents@, k) == key_count(files.take(i + 1), k) by {
                assert(tally_count(before, k) == key_count(p, k));
            }
        }
        i = i + 1;
    }
    proof {
        assert(files.take(i as int) =~= files);
    }
    let r = tally_extensions(&ents);
    proof {
        assert forall|a: int| 0 <= a < r@.len() implies #[trigger] entry_matches(r@[a], files) by {
            assert(tally_matches(r@[a], ents@));
            assert(tally_size(ents@, r@[a].extension@) == key_size(files, r@[a].extension@));
            assert(tally_count(ents@, r@[a].extension@) == key_count(files, r@[a].extension@));
        }
        assert forall|a: int| 0 <= a < r@.len() implies #[trigger] r@[a].size <= r@[a].total by {
            assert(tally_matches(r@[a], ents@));
        }
        assert forall|m: int| 0 <= m < files.len() && !(#[trigger] files[m]).is_dir implies has_key(r@, key_of(files[m])) by {
            let t0 = choose|t: int| 0 <= t < ents@.len() && ents@[t].1@ == key_of(files[m]);
            assert(has_key(r@, ents@[t0].1@));
        }
    }
    r
}

/// Some entry of `r` has the key `k`.
pub open spec fn has_key(r: Seq<ExtensionStats>, k: Seq<char>) -> bool {
    exists|b: int| 0 <= b < r.len() && r[b].extension@ == k
}

/// The byte count of a stat, as the key that orders stats.
pub open spec fn stat_key() -> spec_fn(ExtensionStats) -> int {
    |e: ExtensionStats| e.size as int
}

/// Orders the entries largest first, keeping each entry.
#[verifier::rlimit(80)]
fn sort_stats_desc(v: Vec<ExtensionStats>, ok: Ghost<spec_fn(ExtensionStats) -> bool>) -> (r: Vec<ExtensionStats>)
    requires
        forall|a: int| 0 <= a < v@.len() ==> #[trigger] ok@(v@[a]),
        forall|a: int, b: int| 0 <= a < b < v@.len() ==> v@[a].extension@ != v@[b].extension@,
    ensures
        forall|a: int| 0 <= a < r@.len() ==> #[trigger] ok@(r@[a]),
        forall|a: int, b: int| 0 <= a < b < r@.len() ==> r@[a].extension@ != r@[b].extension@,
        forall|a: int, b: int| 0 <= a < b < r@.len() ==> r@[a].size >= r@[b].size,
        forall|a: int| 0 <= a < v@.len() ==> has_key(r@, #[trigger] v@[a].extension@),
{
    let ghost orig = v@;
    let mut rest = v;
    let mut out: Vec<ExtensionStats> = Vec::new();
    while rest.len() > 0
        invariant
            forall|a: int| 0 <= a < rest@.len() ==> #[trigger] ok@(rest@[a]),
            forall|a: int| 0 <= a < out@.len() ==> #[trigger] ok@(out@[a]),
            forall|a: int, b: int| 0 <= a < b < rest@.len() ==> rest@[a].extension@ != rest@[b].extension@,
            forall|a: int, b: int| 0 <= a < b < out@.len() ==> out@[a].extension@ != out@[b].extension@,
            forall|a: int, b: int| 0 <= a < rest@.len() && 0 <= b < out@.len() ==> rest@[a].extension@ != out@[b].extension@,
            sorted_by(out@, stat_key()),
            rest@ == orig.take(rest@.len() as int),
            rest@.len() <= orig.len(),
            forall|a: int| rest@.len() <= a < orig.len() ==> has_key(out@, #[trigger] orig[a].extension@),
        decreases rest@.len(),
    {
        let ghost before = rest@;
        let ghost prev = out@;
        let c = rest.pop().unwrap();
        proof {
            assert(before == rest@.push(c));
            assert(rest@ =~= orig.take(rest@.len() as int));
        }
        let mut j: usize = 0;
        while j < out.len() && out[j].size >= c.size
            invariant
                j <= out@.len(),
                forall|a: int| 0 <= a < j ==> out@[a].size >= c.size,
            decreases out@.len() - j,
        {
            j = j + 1;
        }
        proof {
            prev.insert_ensures(j as int, c);
            assert forall|k: int| 0 <= k < j implies #[trigger] stat_key()(prev[k]) >= stat_key()(c) by {
                assert(prev[k].size >= c.size);
            }
            if j < prev.len() {
                assert(stat_key()(prev[j as int]) < stat_key()(c));
            }
            lemma_insert_stable(prev, c, stat_key(), j as int);
        }
        out.insert(j, c);
        proof {
            let now = out@;
            assert(now == prev.insert(j as int, c));
            assert forall|a: int, b: int| 0 <= a < b < now.len() implies now[a].extension@ != now[b].extension@ by {
                if b < j {
                } else if b == j {
                    assert(before[before.len() - 1] == c);
                } else if a < j {
                    assert(now[b] == prev[b - 1]);
                } else if a == j {
                    assert(now[b] == prev[b - 1]);
                    assert(before[before.len() - 1] == c);
                } else {
                    assert(now[a] == prev[a - 1]);
                    assert(now[b] == prev[b - 1]);
                }
            }
            assert forall|a: int, b: int| 0 <= a < rest@.len() && 0 <= b < now.len() implies rest@[a].extension@ != now[b].extension@ by {
                assert(rest@[a] == before[a]);
                if b < j {
                } else if b == j {
                } else {
                    assert(now[b] == prev[b - 1]);
                }
            }
            assert forall|a: int| 0 <= a < now.len() implies #[trigger] ok@(now[a]) by {
                if a < j {
                } else if a == j {
                } else {
                    assert(now[a] == prev[a - 1]);
                }
            }
            assert forall|a: int| rest@.len() <= a < orig.len() implies has_key(now, #[trigger] orig[a].extension@) by {
                if a == rest@.len() {
                    assert(orig[a] == c);
                    assert(now[j as int] == c);
                } else {
                    assert(has_key(prev, orig[a].extension@));
                    let b0 = choose|b: int| 0 <= b < prev.len() && prev[b].extension@ == orig[a].extension@;
                    if b0 < j {
                        assert(now[b0] == prev[b0]);
                    } else {
                        assert(now[b0 + 1] == prev[b0]);
                    }
                }
            }
        }
    }
    assert forall|a: int| 0 <= a < orig.len() implies has_key(out@, #[trigger] orig[a].extension@) by {
    }
    assert forall|a: int, b: int| 0 <= a < b < out@.len() implies out@[a].size >= out@[b].size by {
        assert(stat_key()(out@[a]) >= stat_key()(out@[b]));
    }
    out
}

} // verus!
