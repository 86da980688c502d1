use vstd::prelude::*;
use super::{Category, CleanItem, CleanRule, Locations, RiskLevel};
use crate::text::{lemma_text_less_irreflexive, lemma_text_less_total, lemma_text_less_transitive, same_text, text_before, text_less, has_substring, contains_str, join, joined, lower_of, lowercase, views};

verus! {

/// Default size, in bytes, from which a directory counts as a large cache.
pub const DEFAULT_SIZE_THRESHOLD: u64 = 104857600;

/// Default age, in days, after which an entry counts as stale.
pub const DEFAULT_STALE_DAYS: u32 = 30;

/// Seconds in a day.
pub const SECS_PER_DAY: i128 = 86400;

/// Directory names that mark a cache.
pub open spec fn cache_patterns() -> Seq<Seq<char>> {
    seq!["cache"@, "Cache"@, ".cache"@, "caches"@, "Caches"@, "tmp"@, "temp"@, "Temp"@, "Temporary"@]
}

/// Extensions that mark a temporary file.
pub open spec fn temp_extensions() -> Seq<Seq<char>> {
    seq!["tmp"@, "temp"@, "log"@, "bak"@, "old"@, "orig"@, "swp"@, "swo"@]
}

/// The lowercased name holds one of the lowercased cache patterns.
pub open spec fn is_cache_name_spec(name: Seq<char>) -> bool {
    exists|i: int| 0 <= i < cache_patterns().len() && has_substring(lower_of(name), #[trigger] lower_of(cache_patterns()[i]))
}

/// What follows the last `.` of a name, or the whole name where it has none.
pub open spec fn last_segment(name: Seq<char>) -> Seq<char>
    decreases name.len(),
{
    if name.len() == 0 {
        name
    } else if name.last() == '.' {
        Seq::empty()
    } else {
        last_segment(name.drop_last()).push(name.last())
    }
}

/// The lowercased last segment of the name is a temporary extension.
pub open spec fn is_temp_file_spec(name: Seq<char>) -> bool {
    temp_extensions().contains(lower_of(last_segment(name)))
}

/// Finds directories that look like caches by their names and sizes.
pub struct HeuristicRule {
    /// Size in bytes from which a cache directory is reported.
    pub size_threshold: u64,
    /// Age in days after which an entry is stale.
    pub stale_days: u32,
}

/// The project directories, under the home directory, that the rule looks into.
pub open spec fn project_dirs() -> Seq<Seq<char>> {
    seq!["Projects"@, "projects"@, "Code"@, "code"@, "Development"@, "dev"@, "src"@]
}

/// The paths that `HeuristicRule` inspects: the home directory and its
/// project directories.
pub open spec fn heuristic_paths(env: Locations) -> Seq<Seq<char>> {
    if env.home is Some {
        seq![env.home->0@] + project_dirs().map_values(|d: Seq<char>| joined(env.home->0@, d))
    } else {
        seq![]
    }
}

impl Default for HeuristicRule {
    /// A rule with the default thresholds.
    fn default() -> (r: HeuristicRule)
        ensures
            r.size_threshold == DEFAULT_SIZE_THRESHOLD,
            r.stale_days == DEFAULT_STALE_DAYS,
    {
        HeuristicRule { size_threshold: DEFAULT_SIZE_THRESHOLD, stale_days: DEFAULT_STALE_DAYS }
    }
}

impl HeuristicRule {
    pub fn new(size_threshold: u64, stale_days: u32) -> (r: HeuristicRule)
        ensures
            r.size_threshold == size_threshold,
            r.stale_days == stale_days,
    {
        HeuristicRule { size_threshold, stale_days }
    }

    /// Whether a directory name looks like a cache.
    pub fn is_cache_name(name: &str) -> (r: bool)
        ensures
            r == is_cache_name_spec(name@),
    {
        let lower = lowercase(name);
        let patterns: [&str; 9] = ["cache", "Cache", ".cache", "caches", "Caches", "tmp", "temp", "Temp", "Temporary"];
        proof {
            reveal_strlit("cache");
            reveal_strlit("Cache");
            reveal_strlit(".cache");
            reveal_strlit("caches");
            reveal_strlit("Caches");
            reveal_strlit("tmp");
            reveal_strlit("temp");
            reveal_strlit("Temp");
            reveal_strlit("Temporary");
            assert(patterns@.map_values(|p: &str| p@) =~= cache_patterns());
        }
        let mut i: usize = 0;
        while i < 9
            invariant
                i <= 9,
                patterns@.map_values(|p: &str| p@) == cache_patterns(),
                lower@ == lower_of(name@),
                forall|k: int| 0 <= k < i ==> !has_substring(lower_of(name@), #[trigger] lower_of(cache_patterns()[k])),
            decreases 9 - i,
        {
            assert(patterns@[i as int]@ == cache_patterns()[i as int]);
            let p = lowercase(patterns[i]);
            if contains_str(lower.as_str(), p.as_str()) {
                return true;
            }
            i = i + 1;
        }
        false
    }

    /// Whether a file name ends in a temporary extension.
    pub fn is_temp_file(name: &str) -> (r: bool)
        ensures
            r == is_temp_file_spec(name@),
    {
        let n = name.unicode_len();
        let mut k: usize = n;
        proof {
            assert(name@.take(n as int) =~= name@);
            assert(last_segment(name@) =~= last_segment(name@.take(n as int)) + name@.subrange(n as int, n as int));
        }
        while k > 0 && name.get_char(k - 1) != '.'
            invariant
                k <= n == name@.len(),
                last_segment(name@) == last_segment(name@.take(k as int)) + name@.subrange(k as int, n as int),
            decreases k,
        {
            proof {
                let t = name@.take(k as int);
                assert(t.drop_last() =~= name@.take(k - 1));
                assert(name@.subrange(k - 1, n as int) =~= seq![t.last()] + name@.subrange(k as int, n as int));
                assert(last_segment(t) == last_segment(t.drop_last()).push(t.last()));
                assert(last_segment(t.drop_last()).push(t.last()) + name@.subrange(k as int, n as int)
                    =~= last_segment(t.drop_last()) + name@.subrange(k - 1, n as int));
            }
            k = k - 1;
        }
        proof {
            if k > 0 {
                assert(name@.take(k as int).last() == '.');
            } else {
                assert(name@.take(0) =~= Seq::<char>::empty());
            }
            assert(last_segment(name@) =~= name@.subrange(k as int, n as int));
        }
        let seg = lowercase(name.substring_char(k, n));
        let exts: [&str; 8] = ["tmp", "temp", "log", "bak", "old", "orig", "swp", "swo"];
        proof {
            assert(exts@.map_values(|p: &str| p@) =~= temp_extensions());
        }
        let mut i: usize = 0;
        while i < 8
            invariant
                i <= 8,
                exts@.map_values(|p: &str| p@) == temp_extensions(),
                seg@ == lower_of(last_segment(name@)),
                forall|j: int| 0 <= j < i ==> temp_extensions()[j] != seg@,
            decreases 8 - i,
        {
            assert(exts@[i as int]@ == temp_extensions()[i as int]);
            let e = String::from_str(exts[i]);
            if e == seg {
                return true;
            }
            i = i + 1;
        }
        false
    }

    /// Whether an entry last modified at `modified` (seconds since the Unix
    /// epoch) is older than the stale threshold at time `now`.
    pub fn is_stale(&self, modified: i64, now: i64) -> (r: bool)
        ensures
            r == (modified < now - self.stale_days * 86400),
    {
        let threshold: i128 = now as i128 - self.stale_days as i128 * SECS_PER_DAY;
        (modified as i128) < threshold
    }

    /// The item for a cache directory found inside a project directory.
    pub fn project_cache_item(&self, path: String, size: u64, stale: bool) -> (r: Option<CleanItem>)
        ensures
            r is Some <==> size >= self.size_threshold,
            r is Some ==> ({
                let it = r->0;
                &&& it.path@ == path@
                &&& it.size == size
                &&& it.description@ == if stale {
                    "Heuristically detected cache (stale)"@
                } else {
                    "Heuristically detected cache"@
                }
                &&& it.risk_level == if stale { RiskLevel::Low } else { RiskLevel::Medium }
                &&& it.category == Category::Heuristic
            }),
    {
        if size >= self.size_threshold {
            let desc = if stale { "Heuristically detected cache (stale)" } else { "Heuristically detected cache" };
            let risk = if stale { RiskLevel::Low } else { RiskLevel::Medium };
            Some(CleanItem::new(path, size, String::from_str(desc), risk, Category::Heuristic))
        } else {
            None
        }
    }

    /// The item for a cache directory found directly under the home directory.
    pub fn home_cache_item(&self, path: String, size: u64) -> (r: Option<CleanItem>)
        ensures
            r is Some <==> size >= self.size_threshold,
            r is Some ==> ({
                let it = r->0;
                &&& it.path@ == path@
                &&& it.size == size
                &&& it.description@ == "Heuristically detected cache directory"@
                &&& it.risk_level == RiskLevel::Medium
                &&& it.category == Category::Heuristic
            }),
    {
        if size >= self.size_threshold {
            Some(CleanItem::new(path, size, String::from_str("Heuristically detected cache directory"), RiskLevel::Medium, Category::Heuristic))
        } else {
            None
        }
    }
}

impl CleanRule for HeuristicRule {
    fn name(&self) -> (r: &'static str)
        ensures
            r@ == "Heuristic Detection"@,
    {
        "Heuristic Detection"
    }

    fn category(&self) -> (r: Category)
        ensures
            r == Category::Heuristic,
    {
        Category::Heuristic
    }

    fn risk_level(&self) -> (r: RiskLevel)
        ensures
            r == RiskLevel::Medium,
    {
        RiskLevel::Medium
    }

    fn description(&self) -> (r: &'static str)
        ensures
            r@ == "Automatically detected cache and temporary directories"@,
    {
        "Automatically detected cache and temporary directories"
    }

    fn scan_paths(&self, env: &Locations) -> (r: Vec<String>)
        ensures
            views(r@) == heuristic_paths(*env),
    {
        let mut paths: Vec<String> = Vec::new();
        if let Some(home) = &env.home {
            paths.push(home.clone());
            let dirs: [&str; 7] = ["Projects", "projects", "Code", "code", "Development", "dev", "src"];
            proof {
                assert(dirs@.map_values(|d: &str| d@) =~= project_dirs());
            }
            let mut i: usize = 0;
            while i < 7
                invariant
                    i <= 7,
                    dirs@.map_values(|d: &str| d@) == project_dirs(),
                    views(paths@) == seq![home@] + project_dirs().take(i as int).map_values(|d: Seq<char>| joined(home@, d)),
                decreases 7 - i,
            {
                assert(dirs@[i as int]@ == project_dirs()[i as int]);
                let ghost before = paths@;
                let joined_dir = join(home.as_str(), dirs[i]);
                paths.push(joined_dir);
                proof {
                    assert(views(paths@) =~= views(before).push(joined(home@, project_dirs()[i as int])));
                    assert(project_dirs().take(i + 1).map_values(|d: Seq<char>| joined(home@, d)) =~= project_dirs().take(i as int).map_values(|d: Seq<char>| joined(home@, d)).push(joined(home@, project_dirs()[i as int])));
                    assert(project_dirs().take(i + 1) =~= project_dirs().take(i as int).push(dirs@[i as int]@));
                    assert(views(paths@) =~= seq![home@] + project_dirs().take(i + 1).map_values(|d: Seq<char>| joined(home@, d)));
                }
                i = i + 1;
            }
            proof {
                assert(project_dirs().take(7) =~= project_dirs());
            }
        }
        proof {
            assert(views(paths@) =~= heuristic_paths(*env));
        }
        paths
    }
}

/// Finds caches of unknown applications from names and sizes.
pub struct HeuristicDetector {
    /// Size in bytes from which a directory is reported.
    pub size_threshold: u64,
    /// Age in days after which a directory is stale.
    pub stale_days: u32,
}

impl Default for HeuristicDetector {
    /// A detector with the default thresholds.
    fn default() -> (r: HeuristicDetector)
        ensures
            r.size_threshold == DEFAULT_SIZE_THRESHOLD,
            r.stale_days == DEFAULT_STALE_DAYS,
    {
        HeuristicDetector { size_threshold: DEFAULT_SIZE_THRESHOLD, stale_days: DEFAULT_STALE_DAYS }
    }
}

impl HeuristicDetector {
    /// A detector reporting directories of at least `size_threshold_mb` MiB.
    pub fn new(size_threshold_mb: u64, stale_days: u32) -> (r: HeuristicDetector)
        requires
            size_threshold_mb * 1048576 <= u64::MAX,
        ensures
            r.size_threshold == size_threshold_mb * 1048576,
            r.stale_days == stale_days,
    {
        HeuristicDetector { size_threshold: size_threshold_mb * 1048576, stale_days }
    }

    /// Judges a directory from its name, its size, its last modification
    /// and the time now (both in seconds since the Unix epoch): as
    /// `classify` does, with the directory stale when it was last modified
    /// more than `stale_days` days before `now`.
    pub fn analyze(&self, path: String, name: &str, size: u64, modified: i64, now: i64) -> (r: Option<CacheClassification>)
        ensures
            r is Some <==> is_cache_name_spec(name@) && size >= self.size_threshold,
            r is Some ==> ({
                let c = r->0;
                let stale = modified < now - self.stale_days * 86400;
                &&& c.path@ == path@
                &&& c.size == size
                &&& c.reason@ == "Directory name '"@ + name@ + "' matches cache pattern"@
                &&& c.confidence_tenths == 5 + (if lower_of(name@) == "cache"@ || lower_of(name@) == "caches"@ { 3int } else { 0int })
                    + (if stale { 1int } else { 0int })
                &&& c.is_stale == stale
            }),
    {
        let threshold: i128 = now as i128 - self.stale_days as i128 * SECS_PER_DAY;
        let stale = (modified as i128) < threshold;
        self.classify(path, name, size, stale)
    }

    /// Judges a directory from its name, its size and whether it is stale:
    /// it is a cache when its name matches a cache pattern and it reaches
    /// the size threshold. Confidence, in tenths, starts at 5, gains 3 for a
    /// name that is exactly `cache` or `caches` in any case, and 1 when stale.
    pub fn classify(&self, path: String, name: &str, size: u64, stale: bool) -> (r: Option<CacheClassification>)
        ensures
            r is Some <==> is_cache_name_spec(name@) && size >= self.size_threshold,
            r is Some ==> ({
                let c = r->0;
                &&& c.path@ == path@
                &&& c.size == size
                &&& c.reason@ == "Directory name '"@ + name@ + "' matches cache pattern"@
                &&& c.confidence_tenths == 5 + (if lower_of(name@) == "cache"@ || lower_of(name@) == "caches"@ { 3int } else { 0int })
                    + (if stale { 1int } else { 0int })
                &&& c.is_stale == stale
            }),
    {
        if !HeuristicRule::is_cache_name(name) || size < self.size_threshold {
            return None;
        }
        let lower = lowercase(name);
        let cache = String::from_str("cache");
        let caches = String::from_str("caches");
        let mut confidence: u8 = 5;
        if lower == cache || lower == caches {
            confidence = confidence + 3;
        }
        if stale {
            confidence = confidence + 1;
        }
        let mut reason = String::from_str("Directory name '");
        reason.append(name);
        reason.append("' matches cache pattern");
        Some(CacheClassification { path, size, reason, confidence_tenths: confidence, is_stale: stale })
    }
}

/// A directory judged to be a cache.
pub struct CacheClassification {
    pub path: String,
    /// Size in bytes.
    pub size: u64,
    /// Why it was judged a cache.
    pub reason: String,
    /// Confidence in tenths, from 0 to 10.
    pub confidence_tenths: u8,
    /// Whether it has not been modified for the stale period.
    pub is_stale: bool,
}

/// The paths of the items strictly increase.
pub open spec fn paths_increasing(s: Seq<CleanItem>) -> bool {
    forall|a: int, b: int| 0 <= a < b < s.len() ==> text_less(s[a].path@, s[b].path@)
}

/// Some item of `s` has the path `p`.
pub open spec fn has_path(s: Seq<CleanItem>, p: Seq<char>) -> bool {
    exists|a: int| 0 <= a < s.len() && s[a].path@ == p
}

/// `x` is, among the first `k` items, the first one with its path.
pub open spec fn first_of_path(all: Seq<CleanItem>, k: int, x: CleanItem) -> bool {
    exists|m: int| 0 <= m < k && all[m] == x && forall|m2: int| 0 <= m2 < m ==> all[m2].path@ != x.path@
}

/// What `dedup_by_path` holds after the first `k` items.
pub open spec fn dedup_state(all: Seq<CleanItem>, k: int, out: Seq<CleanItem>) -> bool {
    &&& paths_increasing(out)
    &&& forall|m: int| 0 <= m < k ==> has_path(out, (#[trigger] all[m]).path@)
    &&& forall|a: int| 0 <= a < out.len() ==> first_of_path(all, k, #[trigger] out[a])
}

/// The items ordered by path, one per path: of items sharing a path, the
/// first one given is kept.
pub fn dedup_by_path(items: Vec<CleanItem>) -> (r: Vec<CleanItem>)
    ensures
        dedup_state(items@, items@.len() as int, r@),
{
    let ghost all = items@;
    let mut rest = items;
    let count = rest.len();
    let mut out: Vec<CleanItem> = Vec::new();
    let mut k: usize = 0;
    assert(all.skip(0) =~= all);
    while rest.len() > 0
        invariant
            all == items@,
            k <= all.len() == count,
            rest@ == all.skip(k as int),
            dedup_state(all, k as int, out@),
        decreases rest@.len(),
    {
        let x = rest.remove(0);
        proof {
            assert(x == all[k as int]);
            assert(rest@ =~= all.skip(k + 1));
        }
        let mut j: usize = 0;
        while j < out.len() && text_before(out[j].path.as_str(), x.path.as_str())
            invariant
                j <= out@.len(),
                forall|a: int| 0 <= a < j ==> text_less(out@[a].path@, x.path@),
            decreases out@.len() - j,
        {
            j = j + 1;
        }
        let ghost prev = out@;
        if j < out.len() && same_text(out[j].path.as_str(), x.path.as_str()) {
            proof {
                lemma_dedup_skip(all, k as int, prev, j as int);
            }
        } else {
            out.insert(j, x);
            proof {
                lemma_dedup_insert(all, k as int, prev, j as int);
            }
        }
        k = k + 1;
    }
    assert(k == all.len());
    out
}

proof fn lemma_first_of_path_grows(all: Seq<CleanItem>, k: int, x: CleanItem)
    requires
        first_of_path(all, k, x),
    ensures
        first_of_path(all, k + 1, x),
{
    let m = choose|m: int| 0 <= m < k && all[m] == x && forall|m2: int| 0 <= m2 < m ==> all[m2].path@ != x.path@;
    assert(0 <= m < k + 1 && all[m] == x);
}

proof fn lemma_dedup_skip(all: Seq<CleanItem>, k: int, prev: Seq<CleanItem>, j: int)
    requires
        0 <= k < all.len(),
        dedup_state(all, k, prev),
        0 <= j < prev.len(),
        prev[j].path@ == all[k].path@,
    ensures
        dedup_state(all, k + 1, prev),
{
    assert(has_path(prev, all[k].path@));
    assert forall|a: int| 0 <= a < prev.len() implies first_of_path(all, k + 1, #[trigger] prev[a]) by {
        lemma_first_of_path_grows(all, k, prev[a]);
    }
}

proof fn lemma_dedup_insert(all: Seq<CleanItem>, k: int, prev: Seq<CleanItem>, j: int)
    requires
        0 <= k < all.len(),
        dedup_state(all, k, prev),
        0 <= j <= prev.len(),
        forall|a: int| 0 <= a < j ==> text_less(prev[a].path@, all[k].path@),
        j < prev.len() ==> !text_less(prev[j].path@, all[k].path@) && prev[j].path@ != all[k].path@,
    ensures
        dedup_state(all, k + 1, prev.insert(j, all[k])),
{
    let x = all[k];
    let out = prev.insert(j, x);
    prev.insert_ensures(j, x);
    if j < prev.len() {
        lemma_text_less_total(prev[j].path@, x.path@);
    }
    assert forall|b: int| j <= b < prev.len() implies text_less(x.path@, prev[b].path@) by {
        if b > j {
            lemma_text_less_transitive(x.path@, prev[j].path@, prev[b].path@);
        }
    }
    assert forall|m2: int| 0 <= m2 < k implies all[m2].path@ != x.path@ by {
        if all[m2].path@ == x.path@ {
            assert(has_path(prev, all[m2].path@));
            let a0 = choose|a: int| 0 <= a < prev.len() && prev[a].path@ == all[m2].path@;
            lemma_text_less_irreflexive(x.path@);
        }
    }
    assert forall|a: int, b: int| 0 <= a < b < out.len() implies text_less(out[a].path@, out[b].path@) by {
        if b < j {
        } else if b == j {
        } else if a < j {
            assert(out[b] == prev[b - 1]);
            lemma_text_less_transitive(out[a].path@, x.path@, prev[b - 1].path@);
        } else if a == j {
            assert(out[b] == prev[b - 1]);
        } else {
            assert(out[a] == prev[a - 1]);
            assert(out[b] == prev[b - 1]);
        }
    }
    assert forall|m: int| 0 <= m < k + 1 implies has_path(out, (#[trigger] all[m]).path@) by {
        if m == k {
            assert(out[j] == x);
        } else {
            assert(has_path(prev, all[m].path@));
            let a0 = choose|a: int| 0 <= a < prev.len() && prev[a].path@ == all[m].path@;
            if a0 < j {
                assert(out[a0] == prev[a0]);
            } else {
                assert(out[a0 + 1] == prev[a0]);
            }
        }
    }
    assert forall|a: int| 0 <= a < out.len() implies first_of_path(all, k + 1, #[trigger] out[a]) by {
        if a == j {
            assert(out[a] == all[k]);
        } else {
            let pa = if a < j { a } else { a - 1 };
            assert(out[a] == prev[pa]);
            lemma_first_of_path_grows(all, k, prev[pa]);
        }
    }
}

} // verus!
