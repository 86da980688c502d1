use vstd::prelude::*;
use crate::order::{lemma_insert_all, lemma_insert_stable, lemma_stable_sort_push, sorted_by, stable_sort};

verus! {

broadcast use vstd::seq_lib::group_seq_properties, vstd::seq_lib::to_multiset_insert;

/// One filesystem entry of a scanned subtree.
pub struct TreeNode {
    /// Full path of the entry.
    pub path: String,
    /// Last component of the path.
    pub name: String,
    /// Size in bytes; for a directory, the sum of its retained children.
    pub size: u64,
    /// Retained children, largest first.
    pub children: Vec<TreeNode>,
    /// Whether the entry is a directory.
    pub is_dir: bool,
    /// Distance from the scan root.
    pub depth: usize,
}

/// Sum of the sizes of a sequence of nodes.
pub open spec fn total_size(s: Seq<TreeNode>) -> int
    decreases s.len(),
{
    if s.len() == 0 {
        0
    } else {
        total_size(s.drop_last()) + s.last().size
    }
}

/// Sizes never increase along the sequence.
pub open spec fn sorted_desc(s: Seq<TreeNode>) -> bool {
    forall|i: int, j: int| 0 <= i < j < s.len() ==> s[i].size >= s[j].size
}

/// The inclusion filter: an entry is kept when its size reaches `min_size`.
pub open spec fn keeps(min_size: u64) -> spec_fn(TreeNode) -> bool {
    |c: TreeNode| c.size >= min_size
}

/// A node with children is a directory whose size is exactly the sum of its
/// children's sizes, with its children ordered largest first, each one
/// level deeper than itself.
pub open spec fn consistent(m: TreeNode) -> bool {
    &&& m.children@.len() > 0 ==> {
        &&& m.is_dir
        &&& m.size == total_size(m.children@)
        &&& sorted_desc(m.children@)
    }
    &&& forall|i: int| 0 <= i < m.children@.len() ==> #[trigger] m.children@[i].depth == m.depth + 1
}

/// The size of a node, as the key that orders siblings.
pub open spec fn size_key() -> spec_fn(TreeNode) -> int {
    |n: TreeNode| n.size as int
}

pub proof fn lemma_sorted_desc_by_size(s: Seq<TreeNode>)
    ensures
        sorted_desc(s) == sorted_by(s, size_key()),
{
    if sorted_by(s, size_key()) {
        assert forall|i: int, j: int| 0 <= i < j < s.len() implies s[i].size >= s[j].size by {
            assert(size_key()(s[i]) >= size_key()(s[j]));
        }
    }
    if sorted_desc(s) {
        assert forall|i: int, j: int| 0 <= i < j < s.len() implies #[trigger] size_key()(s[i]) >= #[trigger] size_key()(s[j]) by {
            assert(s[i].size >= s[j].size);
        }
    }
}

proof fn lemma_filtered_total_prefix(s: Seq<TreeNode>, keep: spec_fn(TreeNode) -> bool, i: int)
    requires
        0 <= i <= s.len(),
    ensures
        total_size(s.take(i).filter(keep)) <= total_size(s.filter(keep)),
    decreases s.len() - i,
{
    if i < s.len() {
        lemma_filtered_total_prefix(s, keep, i + 1);
        assert(s.take(i + 1) =~= s.take(i).push(s[i]));
        s.take(i).lemma_filter_push(s[i], keep);
        assert(s.take(i).filter(keep).push(s[i]).drop_last() =~= s.take(i).filter(keep));
    } else {
        assert(s.take(i) =~= s);
    }
}

/// Every node of the subtree is consistent.
pub open spec fn well_formed(n: TreeNode) -> bool {
    forall|k: int| 0 <= k < nodes_of(n).len() ==> #[trigger] consistent(nodes_of(n)[k])
}

/// Every node of a subtree, the node first, then each child's subtree in order.
pub open spec fn nodes_of(n: TreeNode) -> Seq<TreeNode>
    decreases n, 1nat,
{
    seq![n] + nodes_of_list(n.children@)
}

/// The subtrees of a sequence of nodes, one after the other.
pub open spec fn nodes_of_list(s: Seq<TreeNode>) -> Seq<TreeNode>
    decreases s, 0nat,
{
    if s.len() == 0 {
        Seq::empty()
    } else {
        nodes_of_list(s.drop_last()) + nodes_of(s.last())
    }
}

pub proof fn lemma_total_size_add(a: Seq<TreeNode>, b: Seq<TreeNode>)
    ensures
        total_size(a + b) == total_size(a) + total_size(b),
    decreases b.len(),
{
    if b.len() > 0 {
        assert((a + b).drop_last() =~= a + b.drop_last());
        lemma_total_size_add(a, b.drop_last());
    } else {
        assert(a + b =~= a);
    }
}

proof fn lemma_list_well_formed(s: Seq<TreeNode>)
    requires
        forall|i: int| 0 <= i < s.len() ==> #[trigger] well_formed(s[i]),
    ensures
        forall|k: int| 0 <= k < nodes_of_list(s).len() ==> #[trigger] consistent(nodes_of_list(s)[k]),
    decreases s.len(),
{
    if s.len() > 0 {
        lemma_list_well_formed(s.drop_last());
        let a = nodes_of_list(s.drop_last());
        let b = nodes_of(s.last());
        assert(well_formed(s[s.len() - 1]));
        assert forall|k: int| 0 <= k < (a + b).len() implies #[trigger] consistent((a + b)[k]) by {
            if k < a.len() {
                assert((a + b)[k] == a[k]);
            } else {
                assert((a + b)[k] == b[k - a.len()]);
            }
        }
    }
}

proof fn lemma_wf_intro(n: TreeNode)
    requires
        consistent(n),
        forall|i: int| 0 <= i < n.children@.len() ==> #[trigger] well_formed(n.children@[i]),
    ensures
        well_formed(n),
{
    lemma_list_well_formed(n.children@);
    let l = nodes_of_list(n.children@);
    assert forall|k: int| 0 <= k < nodes_of(n).len() implies #[trigger] consistent(nodes_of(n)[k]) by {
        if k == 0 {
            assert(nodes_of(n)[0] == n);
        } else {
            assert(nodes_of(n)[k] == l[k - 1]);
        }
    }
}

pub proof fn lemma_total_size_nonneg(s: Seq<TreeNode>)
    ensures
        total_size(s) >= 0,
    decreases s.len(),
{
    if s.len() > 0 {
        lemma_total_size_nonneg(s.drop_last());
    }
}

pub proof fn lemma_total_size_insert(s: Seq<TreeNode>, j: int, c: TreeNode)
    requires
        0 <= j <= s.len(),
    ensures
        total_size(s.insert(j, c)) == total_size(s) + c.size,
{
    let pre = s.subrange(0, j);
    let post = s.subrange(j, s.len() as int);
    assert(s =~= pre + post);
    assert(s.insert(j, c) =~= pre.push(c) + post);
    lemma_total_size_add(pre, post);
    lemma_total_size_add(pre.push(c), post);
    assert(pre.push(c).drop_last() =~= pre);
}

/// One step of `finish_dir`: the next child `c` after the children `p`.
proof fn lemma_finish_step(
    p: Seq<TreeNode>,
    c: TreeNode,
    keep: spec_fn(TreeNode) -> bool,
    good: spec_fn(TreeNode) -> bool,
    prev: Seq<TreeNode>,
    now: Seq<TreeNode>,
    j: int,
)
    requires
        prev == stable_sort(p.filter(keep), size_key()),
        prev.to_multiset() == p.filter(keep).to_multiset(),
        sorted_by(prev, size_key()),
        total_size(prev) == total_size(p.filter(keep)),
        forall|k: int| 0 <= k < prev.len() ==> #[trigger] good(prev[k]),
        keep(c) ==> {
            &&& good(c)
            &&& 0 <= j <= prev.len()
            &&& forall|k: int| 0 <= k < j ==> prev[k].size >= c.size
            &&& j < prev.len() ==> prev[j].size < c.size
            &&& now == prev.insert(j, c)
        },
        !keep(c) ==> now == prev,
    ensures
        now == stable_sort(p.push(c).filter(keep), size_key()),
        now.to_multiset() == p.push(c).filter(keep).to_multiset(),
        sorted_by(now, size_key()),
        total_size(now) == total_size(p.push(c).filter(keep)),
        forall|k: int| 0 <= k < now.len() ==> #[trigger] good(now[k]),
{
    p.lemma_filter_push(c, keep);
    if keep(c) {
        assert forall|k: int| 0 <= k < j implies #[trigger] size_key()(prev[k]) >= size_key()(c) by {
            assert(prev[k].size >= c.size);
        }
        if j < prev.len() {
            assert(size_key()(prev[j]) < size_key()(c));
        }
        lemma_insert_stable(prev, c, size_key(), j);
        lemma_stable_sort_push(p.filter(keep), c, size_key());
        lemma_total_size_insert(prev, j, c);
        lemma_insert_all(prev, j, c, good);
        assert(p.filter(keep).push(c).drop_last() =~= p.filter(keep));
    }
}

impl TreeNode {
    /// A node without children.
    pub fn new(path: String, name: String, size: u64, is_dir: bool, depth: usize) -> (r: TreeNode)
        ensures
            r.path@ == path@,
            r.name@ == name@,
            r.size == size,
            r.children@.len() == 0,
            r.is_dir == is_dir,
            r.depth == depth,
            well_formed(r),
    {
        let r = TreeNode { path, name, size, children: Vec::new(), is_dir, depth };
        proof {
            lemma_wf_intro(r);
        }
        r
    }
}

impl TreeNode {
    /// This node's share of `parent_size`, in hundredths of a percent,
    /// rounded down; 0 where the parent holds no bytes.
    pub fn percentage_hundredths(&self, parent_size: u64) -> (r: u64)
        ensures
            parent_size == 0 ==> r == 0,
            parent_size > 0 ==> r == if self.size as int * 10000 / parent_size as int <= u64::MAX {
                self.size as int * 10000 / parent_size as int
            } else {
                u64::MAX as int
            },
    {
        if parent_size == 0 {
            0
        } else {
            let scaled: u128 = self.size as u128 * 10000;
            let q: u128 = scaled / (parent_size as u128);
            if q > u64::MAX as u128 {
                u64::MAX
            } else {
                q as u64
            }
        }
    }
}

/// Sum of a sequence of byte counts.
pub open spec fn sum_of(s: Seq<u64>) -> int
    decreases s.len(),
{
    if s.len() == 0 {
        0
    } else {
        sum_of(s.drop_last()) + s.last()
    }
}

/// Total of the file sizes under a directory collapsed past the depth limit,
/// saturating at the largest `u64`.
pub fn aggregate_sizes(sizes: &Vec<u64>) -> (r: u64)
    ensures
        r == if sum_of(sizes@) <= u64::MAX { sum_of(sizes@) } else { u64::MAX as int },
{
    let mut sum: u64 = 0;
    let mut saturated = false;
    let mut i: usize = 0;
    while i < sizes.len()
        invariant
            i <= sizes@.len(),
            saturated ==> sum == u64::MAX && sum_of(sizes@.take(i as int)) > u64::MAX,
            !saturated ==> sum == sum_of(sizes@.take(i as int)),
        decreases sizes@.len() - i,
    {
        proof {
            assert(sizes@.take(i + 1).drop_last() =~= sizes@.take(i as int));
        }
        if !saturated {
            if sum > u64::MAX - sizes[i] {
                sum = u64::MAX;
                saturated = true;
            } else {
                sum = sum + sizes[i];
            }
        }
        i = i + 1;
    }
    proof {
        assert(sizes@.take(sizes@.len() as int) =~= sizes@);
    }
    sum
}

/// Default depth limit of a scan.
pub const DEFAULT_MAX_DEPTH: usize = 5;

/// Default inclusion threshold of a scan, in bytes.
pub const DEFAULT_MIN_SIZE: u64 = 1048576;

/// Levels below the scan root whose children are built by concurrent tasks.
pub const FORK_DEPTH: usize = 2;

/// What becomes of one entry of a directory being built.
pub enum ChildPlan {
    /// Build its subtree fully, one level deeper.
    Descend,
    /// A directory past the depth limit: one leaf holding its total size.
    Collapse,
    /// A file past the depth limit: a leaf with its own size.
    Leaf,
}

/// Settings of a tree build: depth limit, inclusion threshold, parallelism.
pub struct TreemapBuilder {
    pub max_depth: usize,
    pub min_size: u64,
    pub parallel: bool,
}

impl Default for TreemapBuilder {
    /// Depth limit 5, threshold 1 MiB, parallel.
    fn default() -> (r: TreemapBuilder)
        ensures
            r.max_depth == DEFAULT_MAX_DEPTH,
            r.min_size == DEFAULT_MIN_SIZE,
            r.parallel,
    {
        TreemapBuilder { max_depth: DEFAULT_MAX_DEPTH, min_size: DEFAULT_MIN_SIZE, parallel: true }
    }
}

impl TreemapBuilder {
    /// Depth limit 5, threshold 1 MiB, parallel.
    pub fn new() -> (r: TreemapBuilder)
        ensures
            r.max_depth == DEFAULT_MAX_DEPTH,
            r.min_size == DEFAULT_MIN_SIZE,
            r.parallel,
    {
        TreemapBuilder { max_depth: DEFAULT_MAX_DEPTH, min_size: DEFAULT_MIN_SIZE, parallel: true }
    }

    pub fn max_depth(self, depth: usize) -> (r: TreemapBuilder)
        ensures
            r.max_depth == depth,
            r.min_size == self.min_size,
            r.parallel == self.parallel,
    {
        TreemapBuilder { max_depth: depth, ..self }
    }

    pub fn min_size(self, size: u64) -> (r: TreemapBuilder)
        ensures
            r.max_depth == self.max_depth,
            r.min_size == size,
            r.parallel == self.parallel,
    {
        TreemapBuilder { min_size: size, ..self }
    }

    pub fn parallel(self, enabled: bool) -> (r: TreemapBuilder)
        ensures
            r.max_depth == self.max_depth,
            r.min_size == self.min_size,
            r.parallel == enabled,
    {
        TreemapBuilder { parallel: enabled, ..self }
    }

    /// How an entry found in a directory at `depth` is turned into a child.
    pub fn plan_child(&self, depth: usize, is_dir: bool) -> (r: ChildPlan)
        ensures
            depth < self.max_depth ==> r is Descend,
            depth >= self.max_depth && is_dir ==> r is Collapse,
            depth >= self.max_depth && !is_dir ==> r is Leaf,
    {
        if depth < self.max_depth {
            ChildPlan::Descend
        } else if is_dir {
            ChildPlan::Collapse
        } else {
            ChildPlan::Leaf
        }
    }

    /// Whether the children of a directory at `depth` are built by
    /// concurrent tasks rather than in the calling task.
    pub fn forks_at(&self, depth: usize) -> (r: bool)
        ensures
            r == (self.parallel && depth < FORK_DEPTH),
    {
        self.parallel && depth < FORK_DEPTH
    }

    /// Whether an entry of this size passes the inclusion threshold.
    pub fn retains(&self, size: u64) -> (r: bool)
        ensures
            r == (size >= self.min_size),
    {
        size >= self.min_size
    }

    /// The directory node over the children built for its entries: children
    /// under the threshold are dropped, the rest are ordered largest first
    /// (children of equal size in the order given), and the directory's size
    /// is the sum of those that remain.
    pub fn finish_dir(&self, path: String, name: String, children: Vec<TreeNode>, depth: usize) -> (r: TreeNode)
        requires
            total_size(children@.filter(keeps(self.min_size))) <= u64::MAX,
            forall|i: int| 0 <= i < children@.len() ==> #[trigger] well_formed(children@[i]),
            forall|i: int| 0 <= i < children@.len() ==> #[trigger] children@[i].depth == depth + 1,
        ensures
            r.path@ == path@,
            r.name@ == name@,
            r.is_dir,
            r.depth == depth,
            r.children@ == stable_sort(children@.filter(keeps(self.min_size)), size_key()),
            r.size == total_size(r.children@),
            sorted_desc(r.children@),
            r.children@.to_multiset() == children@.filter(keeps(self.min_size)).to_multiset(),
            forall|i: int| 0 <= i < r.children@.len() ==> #[trigger] r.children@[i].size >= self.min_size,
            well_formed(r),
    {
        let ghost orig = children@;
        let ghost keep = keeps(self.min_size);
        let ghost good = |n: TreeNode| n.size >= self.min_size && well_formed(n) && n.depth == depth + 1;
        let mut rest = children;
        let count = rest.len();
        let mut kept: Vec<TreeNode> = Vec::new();
        let mut sum: u64 = 0;
        let mut i: usize = 0;
        proof {
            assert(orig.skip(0) =~= orig);
            assert(orig.take(0) =~= Seq::<TreeNode>::empty());
            assert(orig.take(0).filter(keep) =~= Seq::<TreeNode>::empty()) by {
                reveal(Seq::filter);
            }
        }
        while rest.len() > 0
            invariant
                orig == children@,
                keep == keeps(self.min_size),
                good == (|n: TreeNode| n.size >= self.min_size && well_formed(n) && n.depth == depth + 1),
                i <= orig.len() == count,
                rest@ == orig.skip(i as int),
                kept@ == stable_sort(orig.take(i as int).filter(keep), size_key()),
                kept@.to_multiset() == orig.take(i as int).filter(keep).to_multiset(),
                sorted_by(kept@, size_key()),
                sum == total_size(kept@),
                total_size(kept@) == total_size(orig.take(i as int).filter(keep)),
                total_size(orig.filter(keep)) <= u64::MAX,
                forall|k: int| 0 <= k < kept@.len() ==> #[trigger] good(kept@[k]),
                forall|k: int| 0 <= k < orig.len() ==> #[trigger] well_formed(orig[k]),
                forall|k: int| 0 <= k < orig.len() ==> #[trigger] orig[k].depth == depth + 1,
            decreases rest@.len(),
        {
            let c = rest.remove(0);
            let ghost p = orig.take(i as int);
            let ghost prev = kept@;
            proof {
                assert(c == orig[i as int]);
                assert(orig.take(i + 1) =~= p.push(c));
                assert(rest@ =~= orig.skip(i + 1));
                p.lemma_filter_push(c, keep);
                lemma_filtered_total_prefix(orig, keep, i + 1);
                lemma_total_size_nonneg(p.filter(keep));
                if keep(c) {
                    assert(p.filter(keep).push(c).drop_last() =~= p.filter(keep));
                }
            }
            let mut j: usize = 0;
            if c.size >= self.min_size {
                while j < kept.len() && kept[j].size >= c.size
                    invariant
                        j <= kept@.len(),
                        forall|k: int| 0 <= k < j ==> kept@[k].size >= c.size,
                    decreases kept@.len() - j,
                {
                    j = j + 1;
                }
                proof {
                    assert(good(c));
                    prev.insert_ensures(j as int, c);
                    lemma_total_size_insert(prev, j as int, c);
                }
                sum = sum + c.size;
                kept.insert(j, c);
            }
            proof {
                lemma_finish_step(p, c, keep, good, prev, kept@, j as int);
                assert(orig.take(i + 1) =~= p.push(c));
            }
            i = i + 1;
        }
        proof {
            assert(orig.take(i as int) =~= orig);
            lemma_sorted_desc_by_size(kept@);
            assert forall|k: int| 0 <= k < kept@.len() implies #[trigger] kept@[k].size >= self.min_size && well_formed(kept@[k])
                && kept@[k].depth == depth + 1 by {
                assert(good(kept@[k]));
            }
        }
        let r = TreeNode { path, name, size: sum, children: kept, is_dir: true, depth };
        proof {
            lemma_wf_intro(r);
        }
        r
    }
}

/// What a walk of the disk found at one path.
pub struct DiskEntry {
    pub path: String,
    pub name: String,
    pub is_dir: bool,
    /// For a file, its length; for a directory, the total length of all
    /// the files below it, which stands for it where it is collapsed.
    pub size: u64,
    /// For a directory that could be listed, its entries; `None` for a
    /// file and for a directory that could not be read.
    pub entries: Option<Vec<DiskEntry>>,
}

/// The node the build makes of an entry past the depth limit: a childless
/// node of the entry's size.
pub open spec fn placeholder(e: DiskEntry, depth: int, n: TreeNode) -> bool {
    &&& n.path@ == e.path@
    &&& n.name@ == e.name@
    &&& n.is_dir == e.is_dir
    &&& n.size == e.size
    &&& n.children@.len() == 0
    &&& n.depth == depth
}

/// What backs a node of the build: the nodes made of the entries of a
/// listed directory, in listing order, and what backs each entry in turn.
pub struct BuildTrace {
    pub cands: Seq<TreeNode>,
    pub subs: Seq<BuildTrace>,
}

/// `n` is the node that the build with settings `b` makes of the entry `e`
/// found at `depth`, as `t` backs it: a file becomes a leaf of its size; a
/// listed directory becomes a directory whose children are the nodes made
/// of its entries (`t.cands`), those under the threshold dropped, ordered
/// largest first with equal sizes in listing order, and whose size is
/// their sum.
pub open spec fn builds_by(b: TreemapBuilder, e: DiskEntry, depth: int, n: TreeNode, t: BuildTrace) -> bool
    decreases e, 1nat,
{
    &&& n.path@ == e.path@
    &&& n.name@ == e.name@
    &&& n.depth == depth
    &&& n.is_dir == e.is_dir
    &&& if !e.is_dir {
        n.size == e.size && n.children@.len() == 0
    } else {
        &&& e.entries is Some
        &&& builds_all(b, e.entries->0@, depth + 1, t.cands, t.subs)
        &&& total_size(t.cands.filter(keeps(b.min_size))) <= u64::MAX
        &&& n.children@ == stable_sort(t.cands.filter(keeps(b.min_size)), size_key())
        &&& n.size == total_size(n.children@)
    }
}

/// The build makes no node of the entry `e` found at `depth`, as `t` backs
/// it: `e` is a directory that cannot be read, or whose kept entries do not
/// add up within 64 bits.
pub open spec fn builds_none_by(b: TreemapBuilder, e: DiskEntry, depth: int, t: BuildTrace) -> bool
    decreases e, 1nat,
{
    e.is_dir && (e.entries is None || (builds_all(b, e.entries->0@, depth + 1, t.cands, t.subs)
        && total_size(t.cands.filter(keeps(b.min_size))) > u64::MAX))
}

/// `cands` are the nodes made of the entries `es` of a directory, each at
/// `depth`, in listing order, backed entry by entry by `subs`: at or above
/// the depth limit an entry is built (and left out where no node is made of
/// it), below it an entry becomes a placeholder.
pub open spec fn builds_all(
    b: TreemapBuilder,
    es: Seq<DiskEntry>,
    depth: int,
    cands: Seq<TreeNode>,
    subs: Seq<BuildTrace>,
) -> bool
    decreases es, 0nat,
{
    if es.len() == 0 {
        cands.len() == 0 && subs.len() == 0
    } else if subs.len() == 0 {
        false
    } else if depth <= b.max_depth {
        ||| builds_none_by(b, es.last(), depth, subs.last())
            && builds_all(b, es.drop_last(), depth, cands, subs.drop_last())
        ||| cands.len() > 0 && builds_by(b, es.last(), depth, cands.last(), subs.last())
            && builds_all(b, es.drop_last(), depth, cands.drop_last(), subs.drop_last())
    } else {
        cands.len() > 0 && placeholder(es.last(), depth, cands.last())
            && builds_all(b, es.drop_last(), depth, cands.drop_last(), subs.drop_last())
    }
}

/// `n` is the node that the build with settings `b` makes of the entry `e`
/// found at `depth`.
pub open spec fn builds(b: TreemapBuilder, e: DiskEntry, depth: int, n: TreeNode) -> bool {
    exists|t: BuildTrace| #[trigger] builds_by(b, e, depth, n, t)
}

/// The build makes no node of the entry `e` found at `depth`.
pub open spec fn builds_none(b: TreemapBuilder, e: DiskEntry, depth: int) -> bool {
    exists|t: BuildTrace| #[trigger] builds_none_by(b, e, depth, t)
}

/// Whether a build forks its work does not change what it builds: two
/// settings with the same depth limit and threshold make the same node of
/// every entry, and make none of the same entries.
pub proof fn law_build_ignores_parallel(
    b1: TreemapBuilder,
    b2: TreemapBuilder,
    e: DiskEntry,
    depth: int,
    n: TreeNode,
    t: BuildTrace,
)
    requires
        b1.max_depth == b2.max_depth,
        b1.min_size == b2.min_size,
    ensures
        builds_by(b1, e, depth, n, t) == builds_by(b2, e, depth, n, t),
        builds_none_by(b1, e, depth, t) == builds_none_by(b2, e, depth, t),
    decreases e, 1nat,
{
    if e.is_dir && e.entries is Some {
        assert(decreases_to!(e => e.entries));
        assert(decreases_to!(e.entries => e.entries->0));
        assert(decreases_to!(e.entries->0 => e.entries->0@));
        lemma_all_ignores_parallel(b1, b2, e.entries->0@, depth + 1, t.cands, t.subs);
    }
}

proof fn lemma_all_ignores_parallel(
    b1: TreemapBuilder,
    b2: TreemapBuilder,
    es: Seq<DiskEntry>,
    depth: int,
    cands: Seq<TreeNode>,
    subs: Seq<BuildTrace>,
)
    requires
        b1.max_depth == b2.max_depth,
        b1.min_size == b2.min_size,
    ensures
        builds_all(b1, es, depth, cands, subs) == builds_all(b2, es, depth, cands, subs),
    decreases es, 0nat,
{
    if es.len() > 0 && subs.len() > 0 {
        lemma_all_ignores_parallel(b1, b2, es.drop_last(), depth, cands, subs.drop_last());
        if cands.len() > 0 {
            lemma_all_ignores_parallel(b1, b2, es.drop_last(), depth, cands.drop_last(), subs.drop_last());
            law_build_ignores_parallel(b1, b2, es.last(), depth, cands.last(), subs.last());
        } else {
            law_build_ignores_parallel(b1, b2, es.last(), depth, arbitrary(), subs.last());
        }
    }
}

/// A directory at or above the depth limit has exactly the size of its
/// children, and only such directories have children.
pub open spec fn shaped(b: TreemapBuilder, n: TreeNode) -> bool {
    &&& n.is_dir && n.depth <= b.max_depth ==> n.size == total_size(n.children@)
    &&& n.children@.len() > 0 ==> n.depth <= b.max_depth
}

/// A node below the root of a build: shaped, and passing the threshold.
pub open spec fn placed(b: TreemapBuilder, n: TreeNode) -> bool {
    n.size >= b.min_size && shaped(b, n)
}

/// A node made for the file entry `f`.
pub open spec fn made_for(c: TreeNode, f: DiskEntry) -> bool {
    c.path@ == f.path@ && c.size == f.size && !c.is_dir
}

/// Every file entry of `e` of at least `min_size` bytes has a node among `s`.
pub open spec fn files_kept(e: DiskEntry, s: Seq<TreeNode>, min_size: u64) -> bool {
    e.entries is Some ==> forall|i: int| 0 <= i < e.entries->0@.len() && !e.entries->0@[i].is_dir
        && e.entries->0@[i].size >= min_size ==> exists|k: int| 0 <= k < s.len() && made_for(s[k], #[trigger] e.entries->0@[i])
}

/// Every entry of a listed directory is a file smaller than `min_size`.
pub open spec fn only_small_files(e: DiskEntry, min_size: u64) -> bool {
    e.entries is Some && forall|i: int| 0 <= i < e.entries->0@.len()
        ==> !(#[trigger] e.entries->0@[i]).is_dir && e.entries->0@[i].size < min_size
}

impl TreemapBuilder {
    /// Whether the children that pass the threshold add up within 64 bits.
    pub fn retained_total_fits(&self, children: &Vec<TreeNode>) -> (r: bool)
        ensures
            r == (total_size(children@.filter(keeps(self.min_size))) <= u64::MAX),
    {
        let ghost keep = keeps(self.min_size);
        let mut sum: u64 = 0;
        let mut i: usize = 0;
        assert(children@.take(0).filter(keep) =~= Seq::<TreeNode>::empty()) by {
            reveal(Seq::filter);
        }
        while i < children.len()
            invariant
                keep == keeps(self.min_size),
                i <= children@.len(),
                sum == total_size(children@.take(i as int).filter(keep)),
            decreases children@.len() - i,
        {
            let ghost p = children@.take(i as int);
            proof {
                assert(children@.take(i + 1) =~= p.push(children@[i as int]));
                p.lemma_filter_push(children@[i as int], keep);
                assert(p.filter(keep).push(children@[i as int]).drop_last() =~= p.filter(keep));
            }
            if children[i].size >= self.min_size {
                if sum > u64::MAX - children[i].size {
                    proof {
                        lemma_filtered_total_prefix(children@, keep, i + 1);
                    }
                    return false;
                }
                sum = sum + children[i].size;
            }
            i = i + 1;
        }
        assert(children@.take(i as int) =~= children@);
        true
    }

    /// The node for an entry found at `depth`, as `builds` states it; `None`
    /// where the build makes none, as `builds_none` states it.
    fn build_entry(&self, e: &DiskEntry, depth: usize) -> (out: (Option<TreeNode>, Ghost<BuildTrace>))
        requires
            depth <= self.max_depth < usize::MAX,
        ensures
            ({
                let r = out.0;
                &&& r is Some ==> builds_by(*self, *e, depth as int, r->0, out.1@)
                &&& r is None ==> builds_none_by(*self, *e, depth as int, out.1@)
                &&& r is Some ==> well_formed(r->0) && shaped(*self, r->0)
                &&& r is Some && e.is_dir && only_small_files(*e, self.min_size) ==> r->0.size == 0 && r->0.children@.len() == 0
                &&& r is Some && e.is_dir ==> files_kept(*e, r->0.children@, self.min_size)
                &&& forall|k: int| 0 < k < nodes_of(r->0).len() && r is Some ==> #[trigger] placed(*self, nodes_of(r->0)[k])
            }),
        decreases e,
    {
        if !e.is_dir {
            let n = TreeNode::new(e.path.clone(), e.name.clone(), e.size, false, depth);
            assert(nodes_of(n) =~= seq![n]);
            return (Some(n), Ghost(BuildTrace { cands: Seq::empty(), subs: Seq::empty() }));
        }
        match &e.entries {
            None => (None, Ghost(BuildTrace { cands: Seq::empty(), subs: Seq::empty() })),
            Some(entries) => {
                let mut built: Vec<TreeNode> = Vec::new();
                let ghost mut subs: Seq<BuildTrace> = Seq::empty();
                let mut i: usize = 0;
                assert(entries@.take(0) =~= Seq::<DiskEntry>::empty());
                while i < entries.len()
                    invariant
                        depth <= self.max_depth < usize::MAX,
                        i <= entries@.len(),
                        e.entries == Some(*entries),
                        builds_all(*self, entries@.take(i as int), depth + 1, built@, subs),
                        forall|k: int| 0 <= k < built@.len() ==> #[trigger] well_formed(built@[k]),
                        forall|k: int| 0 <= k < built@.len() ==> #[trigger] built@[k].depth == depth + 1,
                        forall|k: int| 0 <= k < built@.len() ==> #[trigger] shaped(*self, built@[k]),
                        forall|k: int| 0 <= k < built@.len() ==> only_small_files(*e, self.min_size) ==> #[trigger] built@[k].size < self.min_size,
                        forall|j: int| 0 <= j < i && !entries@[j].is_dir && entries@[j].size >= self.min_size
                            ==> exists|k: int| 0 <= k < built@.len() && made_for(built@[k], #[trigger] entries@[j]),
                        forall|k: int, t: int| 0 <= k < built@.len() && 0 < t < nodes_of(built@[k]).len()
                            ==> #[trigger] placed(*self, nodes_of(built@[k])[t]),
                    decreases entries@.len() - i,
                {
                    let ent = &entries[i];
                    let ghost before = built@;
                    proof {
                        assert(decreases_to!(e => e.entries));
                        assert(decreases_to!(e.entries => e.entries->0));
                        assert(decreases_to!(e.entries->0 => e.entries->0@[i as int]));
                        assert(entries@.take(i + 1).drop_last() =~= entries@.take(i as int));
                        assert(entries@.take(i + 1).last() == entries@[i as int]);
                    }
                    let empty_trace = Ghost(BuildTrace { cands: Seq::empty(), subs: Seq::empty() });
                    let (child, trace) = match self.plan_child(depth, ent.is_dir) {
                        ChildPlan::Descend => self.build_entry(ent, depth + 1),
                        ChildPlan::Collapse => (Some(TreeNode::new(ent.path.clone(), ent.name.clone(), ent.size, true, depth + 1)), empty_trace),
                        ChildPlan::Leaf => (Some(TreeNode::new(ent.path.clone(), ent.name.clone(), ent.size, false, depth + 1)), empty_trace),
                    };
                    let ghost before_subs = subs;
                    proof {
                        subs = subs.push(trace@);
                        assert(subs.drop_last() =~= before_subs);
                    }
                    match child {
                        Some(c) => {
                            proof {
                                if only_small_files(*e, self.min_size) {
                                    assert(!entries@[i as int].is_dir);
                                }
                                assert(nodes_of(c) =~= seq![c] + nodes_of_list(c.children@));
                                if depth + 1 > self.max_depth {
                                    assert(nodes_of(c) =~= seq![c]);
                                }
                            }
                            built.push(c);
                            proof {
                                assert(built@.drop_last() =~= before);
                                assert(built@.last() == c);
                                assert forall|j: int| 0 <= j < i + 1 && !entries@[j].is_dir && entries@[j].size >= self.min_size
                                    implies exists|k: int| 0 <= k < built@.len() && made_for(built@[k], #[trigger] entries@[j]) by {
                                    if j < i {
                                        let k0 = choose|k: int| 0 <= k < before.len() && made_for(before[k], entries@[j]);
                                        assert(built@[k0] == before[k0]);
                                    } else {
                                        assert(made_for(built@[before.len() as int], entries@[j]));
                                    }
                                }
                                assert forall|k: int, t: int| 0 <= k < built@.len() && 0 < t < nodes_of(built@[k]).len()
                                    implies #[trigger] placed(*self, nodes_of(built@[k])[t]) by {
                                    if k < before.len() {
                                        assert(built@[k] == before[k]);
                                    }
                                }
                            }
                        },
                        None => {},
                    }
                    i = i + 1;
                }
                assert(entries@.take(i as int) =~= entries@);
                let ghost cands = built@;
                let ghost trace = BuildTrace { cands, subs };
                assert(builds_all(*self, e.entries->0@, depth + 1, cands, subs));
                if !self.retained_total_fits(&built) {
                    return (None, Ghost(trace));
                }
                let r = self.finish_dir(e.path.clone(), e.name.clone(), built, depth);
                proof {
                    assert(builds_by(*self, *e, depth as int, r, trace));
                    assert forall|i: int, t: int| 0 <= i < r.children@.len() && 0 <= t < nodes_of(r.children@[i]).len()
                        implies #[trigger] placed(*self, nodes_of(r.children@[i])[t]) by {
                        let x = r.children@[i];
                        assert(r.children@.contains(x));
                        assert(r.children@.to_multiset().count(x) > 0);
                        assert(built@.filter(keeps(self.min_size)).to_multiset().count(x) > 0);
                        built@.lemma_filter_contains_rev(keeps(self.min_size), x);
                        let k = choose|k: int| 0 <= k < built@.len() && built@[k] == x;
                        if t == 0 {
                            assert(nodes_of(x)[0] == x);
                            assert(shaped(*self, built@[k]));
                        } else {
                            assert(placed(*self, nodes_of(built@[k])[t]));
                        }
                    }
                    lemma_below_root(r, |n: TreeNode| placed(*self, n));
                    assert forall|k: int| 0 < k < nodes_of(r).len() implies #[trigger] placed(*self, nodes_of(r)[k]) by {
                        assert((|n: TreeNode| placed(*self, n))(nodes_of(r)[k]));
                    }
                    assert forall|j: int| 0 <= j < entries@.len() && !entries@[j].is_dir && entries@[j].size >= self.min_size
                        implies exists|k: int| 0 <= k < r.children@.len() && made_for(r.children@[k], #[trigger] entries@[j]) by {
                        let k0 = choose|k: int| 0 <= k < built@.len() && made_for(built@[k], entries@[j]);
                        built@.lemma_filter_contains(keeps(self.min_size), k0);
                        let x = built@[k0];
                        assert(built@.filter(keeps(self.min_size)).to_multiset().count(x) > 0);
                        assert(r.children@.to_multiset().count(x) > 0);
                        assert(r.children@.contains(x));
                        let k1 = choose|k: int| 0 <= k < r.children@.len() && r.children@[k] == x;
                        assert(made_for(r.children@[k1], entries@[j]));
                    }
                    if only_small_files(*e, self.min_size) {
                        lemma_filter_all_out(built@, keeps(self.min_size));
                    }
                }
                (Some(r), Ghost(trace))
            },
        }
    }

    /// The tree of a walk of `root`: each directory listed down to the
    /// depth limit, directories past it collapsed into leaves of their
    /// total size, entries under the threshold dropped, unreadable ones
    /// left out; exactly the node that `builds` describes. A root of which
    /// the build makes no node (it cannot be read, or its kept entries do
    /// not add up within 64 bits) becomes an empty directory.
    pub fn build_tree(&self, root: &DiskEntry) -> (r: TreeNode)
        requires
            self.max_depth < usize::MAX,
        ensures
            builds(*self, *root, 0, r) || (builds_none(*self, *root, 0) && r.path@ == root.path@
                && r.name@ == root.name@ && r.is_dir && r.size == 0 && r.children@.len() == 0 && r.depth == 0),
            !root.is_dir ==> !r.is_dir && r.size == root.size && r.children@.len() == 0,
            root.is_dir ==> r.is_dir,
            well_formed(r),
            r.depth == 0,
            r.path@ == root.path@,
            shaped(*self, r),
            forall|k: int| 0 < k < nodes_of(r).len() ==> #[trigger] placed(*self, nodes_of(r)[k]),
            root.is_dir && only_small_files(*root, self.min_size) ==> r.size == 0 && r.children@.len() == 0,
            root.is_dir && r.children@.len() > 0 ==> files_kept(*root, r.children@, self.min_size),
    {
        let (built, trace) = self.build_entry(root, 0);
        match built {
            Some(t) => {
                assert(builds_by(*self, *root, 0, t, trace@));
                t
            },
            None => {
                assert(builds_none_by(*self, *root, 0, trace@));
                let r = self.finish_dir(root.path.clone(), root.name.clone(), Vec::new(), 0);
                proof {
                    assert(Seq::<TreeNode>::empty().filter(keeps(self.min_size)) =~= Seq::<TreeNode>::empty()) by {
                        reveal(Seq::filter);
                    }
                    assert(r.children@.to_multiset().len() == 0);
                    assert(nodes_of(r) =~= seq![r]);
                }
                r
            },
        }
    }
}

/// A property that every node of every child's subtree has holds of every
/// node below the root.
proof fn lemma_below_root(r: TreeNode, p: spec_fn(TreeNode) -> bool)
    requires
        forall|i: int, t: int| 0 <= i < r.children@.len() && 0 <= t < nodes_of(r.children@[i]).len()
            ==> #[trigger] p(nodes_of(r.children@[i])[t]),
    ensures
        forall|k: int| 0 < k < nodes_of(r).len() ==> #[trigger] p(nodes_of(r)[k]),
{
    lemma_list_nodes_all(r.children@, p);
    let l = nodes_of_list(r.children@);
    assert forall|k: int| 0 < k < nodes_of(r).len() implies #[trigger] p(nodes_of(r)[k]) by {
        assert(nodes_of(r)[k] == l[k - 1]);
    }
}

proof fn lemma_list_nodes_all(s: Seq<TreeNode>, p: spec_fn(TreeNode) -> bool)
    requires
        forall|i: int, t: int| 0 <= i < s.len() && 0 <= t < nodes_of(s[i]).len() ==> #[trigger] p(nodes_of(s[i])[t]),
    ensures
        forall|k: int| 0 <= k < nodes_of_list(s).len() ==> #[trigger] p(nodes_of_list(s)[k]),
    decreases s.len(),
{
    if s.len() > 0 {
        let d = s.drop_last();
        assert forall|i: int, t: int| 0 <= i < d.len() && 0 <= t < nodes_of(d[i]).len()
            implies #[trigger] p(nodes_of(d[i])[t]) by {
            assert(d[i] == s[i]);
        }
        lemma_list_nodes_all(d, p);
        let a = nodes_of_list(d);
        let b = nodes_of(s.last());
        let last = s.len() - 1;
        assert(s[last] == s.last());
        assert forall|k: int| 0 <= k < (a + b).len() implies #[trigger] p((a + b)[k]) by {
            if k < a.len() {
                assert((a + b)[k] == a[k]);
            } else {
                assert((a + b)[k] == b[k - a.len()]);
                assert(p(nodes_of(s[last])[k - a.len()]));
            }
        }
    }
}

proof fn lemma_filter_all_out(s: Seq<TreeNode>, keep: spec_fn(TreeNode) -> bool)
    requires
        forall|k: int| 0 <= k < s.len() ==> !keep(#[trigger] s[k]),
    ensures
        s.filter(keep).len() == 0,
    decreases s.len(),
{
    reveal(Seq::filter);
    if s.len() > 0 {
        lemma_filter_all_out(s.drop_last(), keep);
    }
}

} // verus!
