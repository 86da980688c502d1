use vstd::prelude::*;
use super::{Category, CleanItem, CleanRule, Locations, RiskLevel};
use crate::text::{contains_str, decimal, has_substring, push_decimal, views};

verus! {

/// Docker cleanup rule
pub struct DockerRule;

/// The paths that `DockerRule` inspects.
pub open spec fn docker_paths(env: Locations) -> Seq<Seq<char>> {
    Seq::empty()
}

impl CleanRule for DockerRule {
    fn name(&self) -> (r: &'static str)
        ensures
            r@ == "Docker Cleanup"@,
    {
        "Docker Cleanup"
    }

    fn category(&self) -> (r: Category)
        ensures
            r == Category::Docker,
    {
        Category::Docker
    }

    fn risk_level(&self) -> (r: RiskLevel)
        ensures
            r == RiskLevel::Medium,
    {
        RiskLevel::Medium
    }

    fn description(&self) -> (r: &'static str)
        ensures
            r@ == "Dangling images, stopped containers, and unused networks"@,
    {
        "Dangling images, stopped containers, and unused networks"
    }

    fn scan_paths(&self, env: &Locations) -> (r: Vec<String>)
        ensures
            views(r@) == docker_paths(*env),
    {
        let mut paths: Vec<String> = Vec::new();
        proof {
            assert(views(paths@) =~= docker_paths(*env));
        }
        paths
    }
}

/// Path standing for the dangling images in an item.
pub const DANGLING_IMAGES_PATH: &'static str = "Docker Dangling Imagess";

/// Path standing for the stopped containers in an item.
pub const STOPPED_CONTAINERS_PATH: &'static str = "Docker Stopped Containers";

impl DockerRule {
    /// The item for `count` dangling images of `size` bytes in all; none
    /// where there are no such images.
    pub fn dangling_images_item(&self, size: u64, count: u64) -> (r: Option<CleanItem>)
        ensures
            r is Some <==> count > 0,
            r is Some ==> ({
                let it = r->0;
                &&& it.path@ == DANGLING_IMAGES_PATH@
                &&& it.size == size
                &&& it.description@ == decimal(count as nat) + " dangling images"@
                &&& it.risk_level == RiskLevel::Medium
                &&& it.category == Category::Docker
            }),
    {
        if count == 0 {
            return None;
        }
        let mut desc = String::new();
        push_decimal(&mut desc, count);
        desc.append(" dangling images");
        Some(CleanItem::new(String::from_str(DANGLING_IMAGES_PATH), size, desc, self.risk_level(), self.category()))
    }

    /// The item for `count` stopped containers, whose size is not known;
    /// none where there are no such containers.
    pub fn stopped_containers_item(&self, count: u64) -> (r: Option<CleanItem>)
        ensures
            r is Some <==> count > 0,
            r is Some ==> ({
                let it = r->0;
                &&& it.path@ == STOPPED_CONTAINERS_PATH@
                &&& it.size == 0
                &&& it.description@ == decimal(count as nat) + " stopped containers"@
                &&& it.risk_level == RiskLevel::Medium
                &&& it.category == Category::Docker
            }),
    {
        if count == 0 {
            return None;
        }
        let mut desc = String::new();
        push_decimal(&mut desc, count);
        desc.append(" stopped containers");
        Some(CleanItem::new(String::from_str(STOPPED_CONTAINERS_PATH), 0, desc, self.risk_level(), self.category()))
    }

    /// The docker arguments that clean an item of this rule: images are
    /// pruned for an item whose path names images, containers for one that
    /// names containers, and nothing is run for any other.
    pub fn prune_args(&self, item_path: &str) -> (r: Option<Vec<&'static str>>)
        ensures
            has_substring(item_path@, "Images"@) ==> r is Some && r->0@.map_values(|a: &str| a@) == seq!["image"@, "prune"@, "-f"@],
            !has_substring(item_path@, "Images"@) && has_substring(item_path@, "Containers"@) ==> r is Some
                && r->0@.map_values(|a: &str| a@) == seq!["container"@, "prune"@, "-f"@],
            !has_substring(item_path@, "Images"@) && !has_substring(item_path@, "Containers"@) ==> r is None,
    {
        if contains_str(item_path, "Images") {
            let v: Vec<&'static str> = vec!["image", "prune", "-f"];
            assert(v@.map_values(|a: &str| a@) =~= seq!["image"@, "prune"@, "-f"@]);
            Some(v)
        } else if contains_str(item_path, "Containers") {
            let v: Vec<&'static str> = vec!["container", "prune", "-f"];
            assert(v@.map_values(|a: &str| a@) =~= seq!["container"@, "prune"@, "-f"@]);
            Some(v)
        } else {
            None
        }
    }
}

} // verus!
