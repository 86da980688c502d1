use vstd::prelude::*;
use crate::rules::{CleanItem, CleanResult, RiskLevel, category_label};

verus! {

broadcast use vstd::seq_lib::group_seq_properties;

/// How a cleanup is carried out.
pub struct Cleaner {
    /// Move to the trash rather than delete.
    pub use_trash: bool,
    /// Ask before cleaning high-risk items.
    pub confirm_high_risk: bool,
    /// Report what would be removed without removing it.
    pub dry_run: bool,
}

impl Default for Cleaner {
    /// Trash on, confirmation on, dry run off.
    fn default() -> (r: Cleaner)
        ensures
            r.use_trash,
            r.confirm_high_risk,
            !r.dry_run,
    {
        Cleaner { use_trash: true, confirm_high_risk: true, dry_run: false }
    }
}

impl Cleaner {
    /// Trash on, confirmation on, dry run off.
    pub fn new() -> (r: Cleaner)
        ensures
            r.use_trash,
            r.confirm_high_risk,
            !r.dry_run,
    {
        Cleaner { use_trash: true, confirm_high_risk: true, dry_run: false }
    }

    pub fn use_trash(self, value: bool) -> (r: Cleaner)
        ensures
            r.use_trash == value,
            r.confirm_high_risk == self.confirm_high_risk,
            r.dry_run == self.dry_run,
    {
        Cleaner { use_trash: value, ..self }
    }

    pub fn confirm_high_risk(self, value: bool) -> (r: Cleaner)
        ensures
            r.use_trash == self.use_trash,
            r.confirm_high_risk == value,
            r.dry_run == self.dry_run,
    {
        Cleaner { confirm_high_risk: value, ..self }
    }

    pub fn dry_run(self, value: bool) -> (r: Cleaner)
        ensures
            r.use_trash == self.use_trash,
            r.confirm_high_risk == self.confirm_high_risk,
            r.dry_run == value,
    {
        Cleaner { dry_run: value, ..self }
    }

    /// Whether the user is asked before the high-risk items are cleaned.
    pub fn asks_before(&self, high_risk: &Vec<CleanItem>) -> (r: bool)
        ensures
            r == (high_risk@.len() > 0 && self.confirm_high_risk),
    {
        high_risk.len() > 0 && self.confirm_high_risk
    }
}

/// The item is of high risk.
pub open spec fn is_high(it: CleanItem) -> bool {
    it.risk_level == RiskLevel::High
}

/// The high-risk items and the others, each in the order given.
pub fn split_by_risk(items: Vec<CleanItem>) -> (r: (Vec<CleanItem>, Vec<CleanItem>))
    ensures
        r.0@ == items@.filter(|it: CleanItem| is_high(it)),
        r.1@ == items@.filter(|it: CleanItem| !is_high(it)),
{
    let ghost all = items@;
    let ghost hi = |it: CleanItem| is_high(it);
    let ghost lo = |it: CleanItem| !is_high(it);
    let mut rest = items;
    let count = rest.len();
    let mut high: Vec<CleanItem> = Vec::new();
    let mut normal: Vec<CleanItem> = Vec::new();
    let mut k: usize = 0;
    assert(all.skip(0) =~= all);
    while rest.len() > 0
        invariant
            all == items@,
            hi == (|it: CleanItem| is_high(it)),
            lo == (|it: CleanItem| !is_high(it)),
            k <= all.len() == count,
            rest@ == all.skip(k as int),
            high@ == all.take(k as int).filter(hi),
            normal@ == all.take(k as int).filter(lo),
        decreases rest@.len(),
    {
        let x = rest.remove(0);
        proof {
            assert(x == all[k as int]);
            assert(all.take(k + 1) =~= all.take(k as int).push(x));
            all.take(k as int).lemma_filter_push(x, hi);
            all.take(k as int).lemma_filter_push(x, lo);
            assert(rest@ =~= all.skip(k + 1));
        }
        if x.risk_level == RiskLevel::High {
            high.push(x);
        } else {
            normal.push(x);
        }
        k = k + 1;
    }
    assert(all.take(k as int) =~= all);
    (high, normal)
}

/// Sum of the sizes of the items.
pub open spec fn items_size(s: Seq<CleanItem>) -> int
    decreases s.len(),
{
    if s.len() == 0 {
        0
    } else {
        items_size(s.drop_last()) + s.last().size
    }
}

/// What a dry run reports: every item counted as cleaned, with its bytes.
pub fn dry_run_result(items: &Vec<CleanItem>) -> (r: CleanResult)
    requires
        items_size(items@) <= u64::MAX,
    ensures
        r.cleaned_count == items@.len(),
        r.bytes_freed == items_size(items@),
        r.failed@.len() == 0,
        !r.cancelled,
{
    let mut result = CleanResult::default();
    let mut i: usize = 0;
    while i < items.len()
        invariant
            i <= items@.len(),
            items_size(items@) <= u64::MAX,
            result.cleaned_count == i,
            result.bytes_freed == items_size(items@.take(i as int)),
            result.failed@.len() == 0,
            !result.cancelled,
        decreases items@.len() - i,
    {
        proof {
            assert(items@.take(i + 1).drop_last() =~= items@.take(i as int));
            lemma_items_size_prefix(items@, i + 1);
        }
        result.bytes_freed = result.bytes_freed + items[i].size;
        result.cleaned_count = result.cleaned_count + 1;
        i = i + 1;
    }
    assert(items@.take(i as int) =~= items@);
    result
}

proof fn lemma_items_size_prefix(s: Seq<CleanItem>, i: int)
    requires
        0 <= i <= s.len(),
    ensures
        0 <= items_size(s.take(i)) <= items_size(s),
    decreases s.len() - i,
{
    if i < s.len() {
        lemma_items_size_prefix(s, i + 1);
        assert(s.take(i + 1).drop_last() =~= s.take(i));
    } else {
        assert(s.take(i) =~= s);
    }
    lemma_items_size_nonneg(s.take(i));
}

proof fn lemma_items_size_nonneg(s: Seq<CleanItem>)
    ensures
        items_size(s) >= 0,
    decreases s.len(),
{
    if s.len() > 0 {
        lemma_items_size_nonneg(s.drop_last());
    }
}

/// Bytes of the items whose removal succeeded (`None` outcome).
pub open spec fn removed_bytes(items: Seq<CleanItem>, outcomes: Seq<Option<String>>) -> int
    decreases items.len(),
{
    if items.len() == 0 || outcomes.len() == 0 {
        0
    } else {
        removed_bytes(items.drop_last(), outcomes.drop_last()) + if outcomes.last() is None {
            items.last().size as int
        } else {
            0
        }
    }
}

/// Number of the items whose removal succeeded.
pub open spec fn removed_count(items: Seq<CleanItem>, outcomes: Seq<Option<String>>) -> int
    decreases items.len(),
{
    if items.len() == 0 || outcomes.len() == 0 {
        0
    } else {
        removed_count(items.drop_last(), outcomes.drop_last()) + if outcomes.last() is None { 1int } else { 0int }
    }
}

/// The path and the reason of each item whose removal failed, in order.
pub open spec fn failures(items: Seq<CleanItem>, outcomes: Seq<Option<String>>) -> Seq<(Seq<char>, Seq<char>)>
    decreases items.len(),
{
    if items.len() == 0 || outcomes.len() == 0 {
        Seq::empty()
    } else {
        let rest = failures(items.drop_last(), outcomes.drop_last());
        match outcomes.last() {
            Some(reason) => rest.push((items.last().path@, reason@)),
            None => rest,
        }
    }
}

/// The views of a list of failures.
pub open spec fn failure_views(f: Seq<(String, String)>) -> Seq<(Seq<char>, Seq<char>)> {
    f.map_values(|p: (String, String)| (p.0@, p.1@))
}

proof fn lemma_removed_bounds(items: Seq<CleanItem>, outcomes: Seq<Option<String>>)
    ensures
        0 <= removed_bytes(items, outcomes) <= items_size(items),
        0 <= removed_count(items, outcomes) <= items.len(),
    decreases items.len(),
{
    if items.len() > 0 && outcomes.len() > 0 {
        lemma_removed_bounds(items.drop_last(), outcomes.drop_last());
    } else if items.len() > 0 {
        lemma_items_size_nonneg(items);
    }
}

/// What a cleanup of `items` achieved, given the outcome of each removal:
/// `None` where it succeeded, the reason where it failed.
pub fn tally_removals(items: &Vec<CleanItem>, outcomes: &Vec<Option<String>>) -> (r: CleanResult)
    requires
        items@.len() == outcomes@.len(),
        items_size(items@) <= u64::MAX,
    ensures
        r.cleaned_count == removed_count(items@, outcomes@),
        r.bytes_freed == removed_bytes(items@, outcomes@),
        failure_views(r.failed@) == failures(items@, outcomes@),
        !r.cancelled,
{
    let mut result = CleanResult::default();
    let mut i: usize = 0;
    assert(failure_views(result.failed@) =~= Seq::empty());
    while i < items.len()
        invariant
            items@.len() == outcomes@.len(),
            items_size(items@) <= u64::MAX,
            i <= items@.len(),
            result.cleaned_count == removed_count(items@.take(i as int), outcomes@.take(i as int)),
            result.bytes_freed == removed_bytes(items@.take(i as int), outcomes@.take(i as int)),
            failure_views(result.failed@) == failures(items@.take(i as int), outcomes@.take(i as int)),
            !result.cancelled,
        decreases items@.len() - i,
    {
        let ghost ip = items@.take(i as int);
        let ghost op = outcomes@.take(i as int);
        let ghost fb = result.failed@;
        proof {
            assert(items@.take(i + 1).drop_last() =~= ip);
            assert(outcomes@.take(i + 1).drop_last() =~= op);
            assert(items@.take(i + 1).last() == items@[i as int]);
            assert(outcomes@.take(i + 1).last() == outcomes@[i as int]);
            lemma_removed_bounds(items@.take(i + 1), outcomes@.take(i + 1));
            lemma_items_size_prefix(items@, i + 1);
        }
        match &outcomes[i] {
            None => {
                result.cleaned_count = result.cleaned_count + 1;
                result.bytes_freed = result.bytes_freed + items[i].size;
            },
            Some(reason) => {
                result.failed.push((items[i].path.clone(), reason.clone()));
                proof {
                    assert(failure_views(result.failed@) =~= failure_views(fb).push((items@[i as int].path@, reason@)));
                }
            },
        }
        i = i + 1;
    }
    assert(items@.take(i as int) =~= items@);
    assert(outcomes@.take(i as int) =~= outcomes@);
    result
}

/// The items of a scan grouped by category.
pub struct ScanSummary {
    /// Items found.
    pub total_items: usize,
    /// Bytes of all the items.
    pub total_size: u64,
    /// One group per category name, in order of first appearance, each
    /// holding its items in the order given.
    pub by_category: Vec<(String, Vec<CleanItem>)>,
}

/// The item belongs to the category shown as `name`.
pub open spec fn in_category(name: Seq<char>) -> spec_fn(CleanItem) -> bool {
    |it: CleanItem| category_label(it.category) == name
}

/// Each group holds the items of its category, and no two groups share a name.
pub open spec fn groups_match(g: Seq<(String, Vec<CleanItem>)>, items: Seq<CleanItem>) -> bool {
    &&& forall|a: int| 0 <= a < g.len() ==> (#[trigger] g[a]).1@ == items.filter(in_category(g[a].0@))
    &&& forall|a: int, b: int| 0 <= a < b < g.len() ==> g[a].0@ != g[b].0@
    &&& forall|m: int| 0 <= m < items.len() ==> exists|a: int| 0 <= a < g.len() && g[a].0@ == category_label(#[trigger] items[m].category)
}

impl ScanSummary {
    /// Counts, sums and groups the items by the name of their category.
    pub fn from_items(items: Vec<CleanItem>) -> (r: ScanSummary)
        requires
            items_size(items@) <= u64::MAX,
        ensures
            r.total_items == items@.len(),
            r.total_size == items_size(items@),
            groups_match(r.by_category@, items@),
    {
        let ghost all = items@;
        let mut rest = items;
        let count = rest.len();
        let mut groups: Vec<(String, Vec<CleanItem>)> = Vec::new();
        let mut total: u64 = 0;
        let mut k: usize = 0;
        assert(all.skip(0) =~= all);
        assert forall|a: int| 0 <= a < groups@.len() implies (#[trigger] groups@[a]).1@ == all.take(0).filter(in_category(groups@[a].0@)) by {}
        while rest.len() > 0
            invariant
                all == items@,
                items_size(all) <= u64::MAX,
                k <= all.len() == count,
                rest@ == all.skip(k as int),
                total == items_size(all.take(k as int)),
                groups_match(groups@, all.take(k as int)),
            decreases rest@.len(),
        {
            let x = rest.remove(0);
            let ghost p = all.take(k as int);
            let ghost q = all.take(k + 1);
            let ghost before = groups@;
            proof {
                assert(x == all[k as int]);
                assert(q =~= p.push(x));
                assert(q.drop_last() =~= p);
                assert(rest@ =~= all.skip(k + 1));
                lemma_items_size_prefix(all, k + 1);
            }
            total = total + x.size;
            let name = x.category.label();
            let mut j: usize = 0;
            while j < groups.len() && !(groups[j].0 == name)
                invariant
                    j <= groups@.len(),
                    forall|a: int| 0 <= a < j ==> groups@[a].0@ != name@,
                decreases groups@.len() - j,
            {
                j = j + 1;
            }
            if j < groups.len() {
                let mut entry = (String::new(), Vec::new());
                std::mem::swap(&mut entry, &mut groups[j]);
                let (gname, mut gitems) = entry;
                gitems.push(x);
                groups.set(j, (gname, gitems));
                proof {
                    assert forall|a: int| 0 <= a < groups@.len() implies (#[trigger] groups@[a]).1@ == q.filter(in_category(groups@[a].0@)) by {
                        p.lemma_filter_push(x, in_category(groups@[a].0@));
                        if a != j {
                            assert(groups@[a] == before[a]);
                        }
                    }
                    assert forall|m: int| 0 <= m < q.len() implies exists|a: int| 0 <= a < groups@.len() && groups@[a].0@ == category_label(#[trigger] q[m].category) by {
                        if m < p.len() {
                            assert(q[m] == p[m]);
                            let a0 = choose|a: int| 0 <= a < before.len() && before[a].0@ == category_label(p[m].category);
                            assert(groups@[a0].0@ == before[a0].0@);
                        } else {
                            assert(groups@[j as int].0@ == category_label(q[m].category));
                        }
                    }
                }
            } else {
                proof {
                    assert forall|m: int| 0 <= m < p.len() implies !(in_category(name@)(p[m])) by {
                        let a0 = choose|a: int| 0 <= a < before.len() && before[a].0@ == category_label(#[trigger] p[m].category);
                    }
                    lemma_filter_none(p, in_category(name@));
                    p.lemma_filter_push(x, in_category(name@));
                }
                let mut first: Vec<CleanItem> = Vec::new();
                first.push(x);
                groups.push((name, first));
                proof {
                    assert forall|a: int| 0 <= a < groups@.len() implies (#[trigger] groups@[a]).1@ == q.filter(in_category(groups@[a].0@)) by {
                        p.lemma_filter_push(x, in_category(groups@[a].0@));
                        if a < before.len() {
                            assert(groups@[a] == before[a]);
                        } else {
                            assert(groups@[a].1@ =~= seq![x]);
                            assert(p.filter(in_category(name@)) =~= Seq::<CleanItem>::empty());
                        }
                    }
                    assert forall|m: int| 0 <= m < q.len() implies exists|a: int| 0 <= a < groups@.len() && groups@[a].0@ == category_label(#[trigger] q[m].category) by {
                        if m < p.len() {
                            assert(q[m] == p[m]);
                            let a0 = choose|a: int| 0 <= a < before.len() && before[a].0@ == category_label(p[m].category);
                            assert(groups@[a0] == before[a0]);
                        } else {
                            assert(groups@[before.len() as int].0@ == category_label(q[m].category));
                        }
                    }
                }
            }
            k = k + 1;
        }
        assert(all.take(k as int) =~= all);
        ScanSummary { total_items: count, total_size: total, by_category: groups }
    }
}

proof fn lemma_filter_none(s: Seq<CleanItem>, pred: spec_fn(CleanItem) -> bool)
    requires
        forall|m: int| 0 <= m < s.len() ==> !pred(s[m]),
    ensures
        s.filter(pred).len() == 0,
    decreases s.len(),
{
    reveal(Seq::filter);
    if s.len() > 0 {
        lemma_filter_none(s.drop_last(), pred);
    }
}

} // verus!
