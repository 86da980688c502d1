use vstd::prelude::*;
use super::{Category, CleanItem, RiskLevel};
use crate::text::{contains_str, has_prefix, has_substring, starts_with_str, str_views};

verus! {

/// How a rule finds its items one level below each of its scan paths: every
/// entry there not skipped by its name is looked at, at each of the
/// sub-paths, and becomes an item when it is large enough.
pub struct EntryScan {
    /// An entry whose name contains one of these is skipped.
    pub skip_containing: Vec<&'static str>,
    /// An entry whose name starts with one of these is skipped.
    pub skip_starting: Vec<&'static str>,
    /// Where, below an entry, the item lies; `""` for the entry itself.
    pub subpaths: Vec<&'static str>,
    /// Size in bytes that an item must exceed.
    pub threshold: u64,
    /// The description is this, the entry's name, then `suffix`.
    pub prefix: &'static str,
    pub suffix: &'static str,
}

/// An entry named `name` is passed over.
pub open spec fn skips_spec(e: EntryScan, name: Seq<char>) -> bool {
    (exists|i: int| 0 <= i < e.skip_containing@.len() && has_substring(name, #[trigger] e.skip_containing@[i]@))
        || (exists|i: int| 0 <= i < e.skip_starting@.len() && has_prefix(name, #[trigger] e.skip_starting@[i]@))
}

impl EntryScan {
    /// Whether an entry named `name` is passed over.
    pub fn skips(&self, name: &str) -> (r: bool)
        ensures
            r == skips_spec(*self, name@),
    {
        let mut i: usize = 0;
        while i < self.skip_containing.len()
            invariant
                i <= self.skip_containing@.len(),
                forall|k: int| 0 <= k < i ==> !has_substring(name@, #[trigger] self.skip_containing@[k]@),
            decreases self.skip_containing@.len() - i,
        {
            if contains_str(name, self.skip_containing[i]) {
                return true;
            }
            i = i + 1;
        }
        let mut j: usize = 0;
        while j < self.skip_starting.len()
            invariant
                j <= self.skip_starting@.len(),
                forall|k: int| 0 <= k < self.skip_containing@.len() ==> !has_substring(name@, #[trigger] self.skip_containing@[k]@),
                forall|k: int| 0 <= k < j ==> !has_prefix(name@, #[trigger] self.skip_starting@[k]@),
            decreases self.skip_starting@.len() - j,
        {
            if starts_with_str(name, self.skip_starting[j]) {
                return true;
            }
            j = j + 1;
        }
        false
    }

    /// The item found at `path` below the entry named `name`, holding
    /// `size` bytes, where the size exceeds the threshold.
    pub fn item(&self, path: String, name: &str, size: u64, risk_level: RiskLevel, category: Category) -> (r: Option<CleanItem>)
        ensures
            r is Some <==> size > self.threshold,
            r is Some ==> ({
                let it = r->0;
                &&& it.path@ == path@
                &&& it.size == size
                &&& it.description@ == self.prefix@ + name@ + self.suffix@
                &&& it.risk_level == risk_level
                &&& it.category == category
            }),
    {
        if size > self.threshold {
            let mut desc = String::from_str(self.prefix);
            desc.append(name);
            desc.append(self.suffix);
            Some(CleanItem::new(path, size, desc, risk_level, category))
        } else {
            None
        }
    }
}

/// An entry scan with the given parts.
pub fn entry_scan(
    skip_containing: Vec<&'static str>,
    skip_starting: Vec<&'static str>,
    subpaths: Vec<&'static str>,
    threshold: u64,
    prefix: &'static str,
    suffix: &'static str,
) -> (r: EntryScan)
    ensures
        r.skip_containing == skip_containing,
        r.skip_starting == skip_starting,
        r.subpaths == subpaths,
        r.threshold == threshold,
        r.prefix == prefix,
        r.suffix == suffix,
{
    EntryScan { skip_containing, skip_starting, subpaths, threshold, prefix, suffix }
}

/// The parts of an entry scan, as views.
pub open spec fn scan_is(
    e: EntryScan,
    skip_containing: Seq<Seq<char>>,
    skip_starting: Seq<Seq<char>>,
    subpaths: Seq<Seq<char>>,
    threshold: u64,
    prefix: Seq<char>,
    suffix: Seq<char>,
) -> bool {
    &&& str_views(e.skip_containing@) == skip_containing
    &&& str_views(e.skip_starting@) == skip_starting
    &&& str_views(e.subpaths@) == subpaths
    &&& e.threshold == threshold
    &&& e.prefix@ == prefix
    &&& e.suffix@ == suffix
}

} // verus!
