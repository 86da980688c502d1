use vstd::prelude::*;
use super::{Category, CleanItem, CleanRule, Locations, RiskLevel};
use crate::text::{join_each, joined, same_text, str_views, views};

verus! {

/// .DS_Store cleanup rule
pub struct DsStoreRule;

/// The paths that `DsStoreRule` inspects.
pub open spec fn ds_store_paths(env: Locations) -> Seq<Seq<char>> {
    (if env.home is Some { seq![env.home->0@] } else { seq![] })
}

impl CleanRule for DsStoreRule {
    fn name(&self) -> (r: &'static str)
        ensures
            r@ == ".DS_Store Files"@,
    {
        ".DS_Store Files"
    }

    fn category(&self) -> (r: Category)
        ensures
            r == Category::System,
    {
        Category::System
    }

    fn risk_level(&self) -> (r: RiskLevel)
        ensures
            r == RiskLevel::Low,
    {
        RiskLevel::Low
    }

    fn description(&self) -> (r: &'static str)
        ensures
            r@ == "macOS directory metadata files"@,
    {
        "macOS directory metadata files"
    }

    fn scan_paths(&self, env: &Locations) -> (r: Vec<String>)
        ensures
            views(r@) == ds_store_paths(*env),
    {
        let mut paths: Vec<String> = Vec::new();
        if let Some(base) = &env.home {
            paths.push(base.clone());
        }
        proof {
            assert(views(paths@) =~= ds_store_paths(*env));
        }
        paths
    }
}

/// Folders, under the home directory, searched for `.DS_Store` files.
pub open spec fn ds_store_roots() -> Seq<Seq<char>> {
    seq!["Desktop"@, "Documents"@, "Downloads"@, "Public"@, "Pictures"@, "Music"@, "Movies"@]
}

impl DsStoreRule {
    /// The folders searched for `.DS_Store` files.
    pub fn target_dirs(&self, env: &Locations) -> (r: Vec<String>)
        ensures
            env.home is Some ==> views(r@) == ds_store_roots().map_values(|d: Seq<char>| joined(env.home->0@, d)),
            env.home is None ==> r@.len() == 0,
    {
        match &env.home {
            Some(home) => {
                let roots: Vec<&'static str> = vec!["Desktop", "Documents", "Downloads", "Public", "Pictures", "Music", "Movies"];
                assert(str_views(roots@) =~= ds_store_roots());
                join_each(home.as_str(), &roots)
            },
            None => Vec::new(),
        }
    }

    /// Whether a file of this name is a `.DS_Store` file.
    pub fn is_ds_store(name: &str) -> (r: bool)
        ensures
            r == (name@ == ".DS_Store"@),
    {
        same_text(name, ".DS_Store")
    }

    /// The item for a `.DS_Store` file of `size` bytes.
    pub fn ds_store_item(&self, path: String, size: u64) -> (r: CleanItem)
        ensures
            r.path@ == path@,
            r.size == size,
            r.description@ == "Folder view settings"@,
            r.risk_level == RiskLevel::Low,
            r.category == Category::System,
    {
        CleanItem::new(path, size, String::from_str("Folder view settings"), self.risk_level(), self.category())
    }
}

} // verus!
