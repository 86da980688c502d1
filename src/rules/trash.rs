use vstd::prelude::*;
use super::{Category, CleanItem, CleanRule, Locations, Platform, RiskLevel};
use crate::text::{join, joined, views};

verus! {

/// Trash cleanup rule
pub struct TrashRule;

/// The paths that `TrashRule` inspects.
pub open spec fn trash_paths(env: Locations) -> Seq<Seq<char>> {
    Seq::empty()
}

impl CleanRule for TrashRule {
    fn name(&self) -> (r: &'static str)
        ensures
            r@ == "Trash"@,
    {
        "Trash"
    }

    fn category(&self) -> (r: Category)
        ensures
            r == Category::System,
    {
        Category::System
    }

    fn risk_level(&self) -> (r: RiskLevel)
        ensures
            r == RiskLevel::Medium,
    {
        RiskLevel::Medium
    }

    fn description(&self) -> (r: &'static str)
        ensures
            r@ == "Empty system trash"@,
    {
        "Empty system trash"
    }

    fn scan_paths(&self, env: &Locations) -> (r: Vec<String>)
        ensures
            views(r@) == trash_paths(*env),
    {
        let mut paths: Vec<String> = Vec::new();
        proof {
            assert(views(paths@) =~= trash_paths(*env));
        }
        paths
    }
}

impl TrashRule {
    /// The directory holding the trashed files on `platform`, where known.
    pub fn trash_dir(&self, env: &Locations, platform: Platform) -> (r: Option<String>)
        ensures
            platform is MacOs && env.home is Some ==> r is Some && r->0@ == joined(env.home->0@, ".Trash"@),
            platform is Linux && env.home is Some ==> r is Some && r->0@ == joined(env.home->0@, ".local/share/Trash/files"@),
            platform is Other || env.home is None ==> r is None,
    {
        match (&env.home, platform) {
            (Some(home), Platform::MacOs) => Some(join(home.as_str(), ".Trash")),
            (Some(home), Platform::Linux) => Some(join(home.as_str(), ".local/share/Trash/files")),
            _ => None,
        }
    }

    /// The single item standing for the whole trash, where it holds bytes.
    pub fn trash_item(&self, total_size: u64) -> (r: Option<CleanItem>)
        ensures
            r is Some <==> total_size > 0,
            r is Some ==> ({
                let it = r->0;
                &&& it.path@ == "System Trash"@
                &&& it.size == total_size
                &&& it.description@ == "All items in the Trash"@
                &&& it.risk_level == RiskLevel::Medium
                &&& it.category == Category::System
            }),
    {
        if total_size == 0 {
            return None;
        }
        Some(CleanItem::new(
            String::from_str("System Trash"),
            total_size,
            String::from_str("All items in the Trash"),
            self.risk_level(),
            self.category(),
        ))
    }
}

} // verus!
