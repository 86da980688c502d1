use vstd::prelude::*;
use super::{Category, CleanItem, CleanRule, Locations, RiskLevel, Rule, category_label};
use crate::text::{contains_str, has_substring, join, join_each, joined, same_text, str_views, views};

verus! {

/// npm cache rule
pub struct NpmCacheRule;

/// The paths that `NpmCacheRule` inspects.
pub open spec fn npm_cache_paths(env: Locations) -> Seq<Seq<char>> {
    (if env.home is Some { seq![joined(env.home->0@, ".npm/_cacache"@), joined(env.home->0@, ".npm/_logs"@)] } else { seq![] })
}

impl CleanRule for NpmCacheRule {
    fn name(&self) -> (r: &'static str)
        ensures
            r@ == "npm Cache"@,
    {
        "npm Cache"
    }

    fn category(&self) -> (r: Category)
        ensures
            r == Category::NodeJs,
    {
        Category::NodeJs
    }

    fn risk_level(&self) -> (r: RiskLevel)
        ensures
            r == RiskLevel::Low,
    {
        RiskLevel::Low
    }

    fn description(&self) -> (r: &'static str)
        ensures
            r@ == "npm package download cache"@,
    {
        "npm package download cache"
    }

    fn scan_paths(&self, env: &Locations) -> (r: Vec<String>)
        ensures
            views(r@) == npm_cache_paths(*env),
    {
        let mut paths: Vec<String> = Vec::new();
        if let Some(base) = &env.home {
            paths.push(join(base.as_str(), ".npm/_cacache"));
            paths.push(join(base.as_str(), ".npm/_logs"));
        }
        proof {
            assert(views(paths@) =~= npm_cache_paths(*env));
        }
        paths
    }
}

impl NpmCacheRule {
    /// The item for a scanned path of this rule holding `size` bytes, where
    /// the size is over the rule's threshold.
    pub fn item_for(&self, path: String, size: u64) -> (r: Option<CleanItem>)
        ensures
            r is Some <==> size > 0,
            r is Some ==> ({
                let it = r->0;
                &&& it.path@ == path@
                &&& it.size == size
                &&& it.description@ == (if has_substring(path@, "_logs"@) { "npm logs"@ } else { "npm download cache"@ })
                &&& it.risk_level == (RiskLevel::Low)
                &&& it.category == Category::NodeJs
                &&& it.last_modified is None
            }),
    {
        if size > 0 {
            let desc = if contains_str(path.as_str(), "_logs") { "npm logs" } else { "npm download cache" };
            let risk = self.risk_level();
            Some(CleanItem::new(path, size, String::from_str(desc), risk, self.category()))
        } else {
            None
        }
    }
}

/// yarn cache rule
pub struct YarnCacheRule;

/// The paths that `YarnCacheRule` inspects.
pub open spec fn yarn_cache_paths(env: Locations) -> Seq<Seq<char>> {
    (if env.home is Some { seq![joined(env.home->0@, ".yarn/cache"@), joined(env.home->0@, ".cache/yarn"@)] } else { seq![] })
}

impl CleanRule for YarnCacheRule {
    fn name(&self) -> (r: &'static str)
        ensures
            r@ == "Yarn Cache"@,
    {
        "Yarn Cache"
    }

    fn category(&self) -> (r: Category)
        ensures
            r == Category::NodeJs,
    {
        Category::NodeJs
    }

    fn risk_level(&self) -> (r: RiskLevel)
        ensures
            r == RiskLevel::Low,
    {
        RiskLevel::Low
    }

    fn description(&self) -> (r: &'static str)
        ensures
            r@ == "Yarn package cache"@,
    {
        "Yarn package cache"
    }

    fn scan_paths(&self, env: &Locations) -> (r: Vec<String>)
        ensures
            views(r@) == yarn_cache_paths(*env),
    {
        let mut paths: Vec<String> = Vec::new();
        if let Some(base) = &env.home {
            paths.push(join(base.as_str(), ".yarn/cache"));
            paths.push(join(base.as_str(), ".cache/yarn"));
        }
        proof {
            assert(views(paths@) =~= yarn_cache_paths(*env));
        }
        paths
    }
}

impl YarnCacheRule {
    /// The item for a scanned path of this rule holding `size` bytes, where
    /// the size is over the rule's threshold.
    pub fn item_for(&self, path: String, size: u64) -> (r: Option<CleanItem>)
        ensures
            r is Some <==> size > 0,
            r is Some ==> ({
                let it = r->0;
                &&& it.path@ == path@
                &&& it.size == size
                &&& it.description@ == ("Yarn package cache"@)
                &&& it.risk_level == (RiskLevel::Low)
                &&& it.category == Category::NodeJs
                &&& it.last_modified is None
            }),
    {
        if size > 0 {
            let desc = "Yarn package cache";
            let risk = self.risk_level();
            Some(CleanItem::new(path, size, String::from_str(desc), risk, self.category()))
        } else {
            None
        }
    }
}

/// pnpm cache rule
pub struct PnpmCacheRule;

/// The paths that `PnpmCacheRule` inspects.
pub open spec fn pnpm_cache_paths(env: Locations) -> Seq<Seq<char>> {
    (if env.home is Some { seq![joined(env.home->0@, ".pnpm-store"@), joined(env.home->0@, ".local/share/pnpm/store"@)] } else { seq![] })
}

impl CleanRule for PnpmCacheRule {
    fn name(&self) -> (r: &'static str)
        ensures
            r@ == "pnpm Store"@,
    {
        "pnpm Store"
    }

    fn category(&self) -> (r: Category)
        ensures
            r == Category::NodeJs,
    {
        Category::NodeJs
    }

    fn risk_level(&self) -> (r: RiskLevel)
        ensures
            r == RiskLevel::Medium,
    {
        RiskLevel::Medium
    }

    fn description(&self) -> (r: &'static str)
        ensures
            r@ == "pnpm content-addressable store"@,
    {
        "pnpm content-addressable store"
    }

    fn scan_paths(&self, env: &Locations) -> (r: Vec<String>)
        ensures
            views(r@) == pnpm_cache_paths(*env),
    {
        let mut paths: Vec<String> = Vec::new();
        if let Some(base) = &env.home {
            paths.push(join(base.as_str(), ".pnpm-store"));
            paths.push(join(base.as_str(), ".local/share/pnpm/store"));
        }
        proof {
            assert(views(paths@) =~= pnpm_cache_paths(*env));
        }
        paths
    }
}

impl PnpmCacheRule {
    /// The item for a scanned path of this rule holding `size` bytes, where
    /// the size is over the rule's threshold.
    pub fn item_for(&self, path: String, size: u64) -> (r: Option<CleanItem>)
        ensures
            r is Some <==> size > 0,
            r is Some ==> ({
                let it = r->0;
                &&& it.path@ == path@
                &&& it.size == size
                &&& it.description@ == ("pnpm content store (shared across projects)"@)
                &&& it.risk_level == (RiskLevel::Medium)
                &&& it.category == Category::NodeJs
                &&& it.last_modified is None
            }),
    {
        if size > 0 {
            let desc = "pnpm content store (shared across projects)";
            let risk = self.risk_level();
            Some(CleanItem::new(path, size, String::from_str(desc), risk, self.category()))
        } else {
            None
        }
    }
}

/// pip cache rule
pub struct PipCacheRule;

/// The paths that `PipCacheRule` inspects.
pub open spec fn pip_cache_paths(env: Locations) -> Seq<Seq<char>> {
    (if env.cache is Some { seq![joined(env.cache->0@, "pip"@)] } else { seq![] }) + (if env.home is Some { seq![joined(env.home->0@, ".cache/pip"@), joined(env.home->0@, "Library/Caches/pip"@)] } else { seq![] })
}

impl CleanRule for PipCacheRule {
    fn name(&self) -> (r: &'static str)
        ensures
            r@ == "pip Cache"@,
    {
        "pip Cache"
    }

    fn category(&self) -> (r: Category)
        ensures
            r == Category::Python,
    {
        Category::Python
    }

    fn risk_level(&self) -> (r: RiskLevel)
        ensures
            r == RiskLevel::Low,
    {
        RiskLevel::Low
    }

    fn description(&self) -> (r: &'static str)
        ensures
            r@ == "pip package download cache"@,
    {
        "pip package download cache"
    }

    fn scan_paths(&self, env: &Locations) -> (r: Vec<String>)
        ensures
            views(r@) == pip_cache_paths(*env),
    {
        let mut paths: Vec<String> = Vec::new();
        if let Some(base) = &env.cache {
            paths.push(join(base.as_str(), "pip"));
        }
        if let Some(base) = &env.home {
            paths.push(join(base.as_str(), ".cache/pip"));
            paths.push(join(base.as_str(), "Library/Caches/pip"));
        }
        proof {
            assert(views(paths@) =~= pip_cache_paths(*env));
        }
        paths
    }
}

impl PipCacheRule {
    /// The item for a scanned path of this rule holding `size` bytes, where
    /// the size is over the rule's threshold.
    pub fn item_for(&self, path: String, size: u64) -> (r: Option<CleanItem>)
        ensures
            r is Some <==> size > 0,
            r is Some ==> ({
                let it = r->0;
                &&& it.path@ == path@
                &&& it.size == size
                &&& it.description@ == ("pip download cache"@)
                &&& it.risk_level == (RiskLevel::Low)
                &&& it.category == Category::Python
                &&& it.last_modified is None
            }),
    {
        if size > 0 {
            let desc = "pip download cache";
            let risk = self.risk_level();
            Some(CleanItem::new(path, size, String::from_str(desc), risk, self.category()))
        } else {
            None
        }
    }
}

/// uv cache rule
pub struct UvCacheRule;

/// The paths that `UvCacheRule` inspects.
pub open spec fn uv_cache_paths(env: Locations) -> Seq<Seq<char>> {
    (if env.cache is Some { seq![joined(env.cache->0@, "uv"@)] } else { seq![] }) + (if env.home is Some { seq![joined(env.home->0@, ".cache/uv"@)] } else { seq![] })
}

impl CleanRule for UvCacheRule {
    fn name(&self) -> (r: &'static str)
        ensures
            r@ == "uv Cache"@,
    {
        "uv Cache"
    }

    fn category(&self) -> (r: Category)
        ensures
            r == Category::Python,
    {
        Category::Python
    }

    fn risk_level(&self) -> (r: RiskLevel)
        ensures
            r == RiskLevel::Low,
    {
        RiskLevel::Low
    }

    fn description(&self) -> (r: &'static str)
        ensures
            r@ == "uv package manager cache"@,
    {
        "uv package manager cache"
    }

    fn scan_paths(&self, env: &Locations) -> (r: Vec<String>)
        ensures
            views(r@) == uv_cache_paths(*env),
    {
        let mut paths: Vec<String> = Vec::new();
        if let Some(base) = &env.cache {
            paths.push(join(base.as_str(), "uv"));
        }
        if let Some(base) = &env.home {
            paths.push(join(base.as_str(), ".cache/uv"));
        }
        proof {
            assert(views(paths@) =~= uv_cache_paths(*env));
        }
        paths
    }
}

impl UvCacheRule {
    /// The item for a scanned path of this rule holding `size` bytes, where
    /// the size is over the rule's threshold.
    pub fn item_for(&self, path: String, size: u64) -> (r: Option<CleanItem>)
        ensures
            r is Some <==> size > 0,
            r is Some ==> ({
                let it = r->0;
                &&& it.path@ == path@
                &&& it.size == size
                &&& it.description@ == ("uv package cache"@)
                &&& it.risk_level == (RiskLevel::Low)
                &&& it.category == Category::Python
                &&& it.last_modified is None
            }),
    {
        if size > 0 {
            let desc = "uv package cache";
            let risk = self.risk_level();
            Some(CleanItem::new(path, size, String::from_str(desc), risk, self.category()))
        } else {
            None
        }
    }
}

/// Conda cache rule
pub struct CondaCacheRule;

/// The paths that `CondaCacheRule` inspects.
pub open spec fn conda_cache_paths(env: Locations) -> Seq<Seq<char>> {
    (if env.home is Some { seq![joined(env.home->0@, "anaconda3/pkgs"@), joined(env.home->0@, "miniconda3/pkgs"@), joined(env.home->0@, "miniforge3/pkgs"@), joined(env.home->0@, ".conda/pkgs"@)] } else { seq![] })
}

impl CleanRule for CondaCacheRule {
    fn name(&self) -> (r: &'static str)
        ensures
            r@ == "Conda Package Cache"@,
    {
        "Conda Package Cache"
    }

    fn category(&self) -> (r: Category)
        ensures
            r == Category::Python,
    {
        Category::Python
    }

    fn risk_level(&self) -> (r: RiskLevel)
        ensures
            r == RiskLevel::Low,
    {
        RiskLevel::Low
    }

    fn description(&self) -> (r: &'static str)
        ensures
            r@ == "Conda/Miniconda package cache"@,
    {
        "Conda/Miniconda package cache"
    }

    fn scan_paths(&self, env: &Locations) -> (r: Vec<String>)
        ensures
            views(r@) == conda_cache_paths(*env),
    {
        let mut paths: Vec<String> = Vec::new();
        if let Some(base) = &env.home {
            paths.push(join(base.as_str(), "anaconda3/pkgs"));
            paths.push(join(base.as_str(), "miniconda3/pkgs"));
            paths.push(join(base.as_str(), "miniforge3/pkgs"));
            paths.push(join(base.as_str(), ".conda/pkgs"));
        }
        proof {
            assert(views(paths@) =~= conda_cache_paths(*env));
        }
        paths
    }
}

impl CondaCacheRule {
    /// The item for a scanned path of this rule holding `size` bytes, where
    /// the size is over the rule's threshold.
    pub fn item_for(&self, path: String, size: u64) -> (r: Option<CleanItem>)
        ensures
            r is Some <==> size > 104857600,
            r is Some ==> ({
                let it = r->0;
                &&& it.path@ == path@
                &&& it.size == size
                &&& it.description@ == ("Conda package cache"@)
                &&& it.risk_level == (RiskLevel::Low)
                &&& it.category == Category::Python
                &&& it.last_modified is None
            }),
    {
        if size > 104857600 {
            let desc = "Conda package cache";
            let risk = self.risk_level();
            Some(CleanItem::new(path, size, String::from_str(desc), risk, self.category()))
        } else {
            None
        }
    }
}

/// Cargo cache rule
pub struct CargoCacheRule;

/// The paths that `CargoCacheRule` inspects.
pub open spec fn cargo_cache_paths(env: Locations) -> Seq<Seq<char>> {
    (if env.home is Some { seq![joined(env.home->0@, ".cargo/registry/cache"@), joined(env.home->0@, ".cargo/git/checkouts"@)] } else { seq![] })
}

impl CleanRule for CargoCacheRule {
    fn name(&self) -> (r: &'static str)
        ensures
            r@ == "Cargo Registry Cache"@,
    {
        "Cargo Registry Cache"
    }

    fn category(&self) -> (r: Category)
        ensures
            r == Category::Rust,
    {
        Category::Rust
    }

    fn risk_level(&self) -> (r: RiskLevel)
        ensures
            r == RiskLevel::Low,
    {
        RiskLevel::Low
    }

    fn description(&self) -> (r: &'static str)
        ensures
            r@ == "Cargo registry and git cache"@,
    {
        "Cargo registry and git cache"
    }

    fn scan_paths(&self, env: &Locations) -> (r: Vec<String>)
        ensures
            views(r@) == cargo_cache_paths(*env),
    {
        let mut paths: Vec<String> = Vec::new();
        if let Some(base) = &env.home {
            paths.push(join(base.as_str(), ".cargo/registry/cache"));
            paths.push(join(base.as_str(), ".cargo/git/checkouts"));
        }
        proof {
            assert(views(paths@) =~= cargo_cache_paths(*env));
        }
        paths
    }
}

impl CargoCacheRule {
    /// The item for a scanned path of this rule holding `size` bytes, where
    /// the size is over the rule's threshold.
    pub fn item_for(&self, path: String, size: u64) -> (r: Option<CleanItem>)
        ensures
            r is Some <==> size > 0,
            r is Some ==> ({
                let it = r->0;
                &&& it.path@ == path@
                &&& it.size == size
                &&& it.description@ == (if has_substring(path@, "git"@) { "Cargo git checkouts"@ } else { "Cargo registry cache"@ })
                &&& it.risk_level == (RiskLevel::Low)
                &&& it.category == Category::Rust
                &&& it.last_modified is None
            }),
    {
        if size > 0 {
            let desc = if contains_str(path.as_str(), "git") { "Cargo git checkouts" } else { "Cargo registry cache" };
            let risk = self.risk_level();
            Some(CleanItem::new(path, size, String::from_str(desc), risk, self.category()))
        } else {
            None
        }
    }
}

/// Cargo target directories rule
pub struct CargoTargetRule;

/// The paths that `CargoTargetRule` inspects.
pub open spec fn cargo_target_paths(env: Locations) -> Seq<Seq<char>> {
    (if env.home is Some { seq![env.home->0@] } else { seq![] })
}

impl CleanRule for CargoTargetRule {
    fn name(&self) -> (r: &'static str)
        ensures
            r@ == "Rust Build Artifacts"@,
    {
        "Rust Build Artifacts"
    }

    fn category(&self) -> (r: Category)
        ensures
            r == Category::Rust,
    {
        Category::Rust
    }

    fn risk_level(&self) -> (r: RiskLevel)
        ensures
            r == RiskLevel::Low,
    {
        RiskLevel::Low
    }

    fn description(&self) -> (r: &'static str)
        ensures
            r@ == "Rust project target directories (build artifacts)"@,
    {
        "Rust project target directories (build artifacts)"
    }

    fn scan_paths(&self, env: &Locations) -> (r: Vec<String>)
        ensures
            views(r@) == cargo_target_paths(*env),
    {
        let mut paths: Vec<String> = Vec::new();
        if let Some(base) = &env.home {
            paths.push(base.clone());
        }
        proof {
            assert(views(paths@) =~= cargo_target_paths(*env));
        }
        paths
    }
}

/// Go module cache rule
pub struct GoCacheRule;

/// The paths that `GoCacheRule` inspects.
pub open spec fn go_cache_paths(env: Locations) -> Seq<Seq<char>> {
    (if env.home is Some { seq![joined(env.home->0@, "go/pkg/mod/cache"@)] } else { seq![] }) + (if env.gopath is Some { seq![joined(env.gopath->0@, "pkg/mod/cache"@)] } else { seq![] })
}

impl CleanRule for GoCacheRule {
    fn name(&self) -> (r: &'static str)
        ensures
            r@ == "Go Module Cache"@,
    {
        "Go Module Cache"
    }

    fn category(&self) -> (r: Category)
        ensures
            r == Category::Go,
    {
        Category::Go
    }

    fn risk_level(&self) -> (r: RiskLevel)
        ensures
            r == RiskLevel::Low,
    {
        RiskLevel::Low
    }

    fn description(&self) -> (r: &'static str)
        ensures
            r@ == "Go module download cache"@,
    {
        "Go module download cache"
    }

    fn scan_paths(&self, env: &Locations) -> (r: Vec<String>)
        ensures
            views(r@) == go_cache_paths(*env),
    {
        let mut paths: Vec<String> = Vec::new();
        if let Some(base) = &env.home {
            paths.push(join(base.as_str(), "go/pkg/mod/cache"));
        }
        if let Some(base) = &env.gopath {
            paths.push(join(base.as_str(), "pkg/mod/cache"));
        }
        proof {
            assert(views(paths@) =~= go_cache_paths(*env));
        }
        paths
    }
}

impl GoCacheRule {
    /// The item for a scanned path of this rule holding `size` bytes, where
    /// the size is over the rule's threshold.
    pub fn item_for(&self, path: String, size: u64) -> (r: Option<CleanItem>)
        ensures
            r is Some <==> size > 0,
            r is Some ==> ({
                let it = r->0;
                &&& it.path@ == path@
                &&& it.size == size
                &&& it.description@ == ("Go module cache"@)
                &&& it.risk_level == (RiskLevel::Low)
                &&& it.category == Category::Go
                &&& it.last_modified is None
            }),
    {
        if size > 0 {
            let desc = "Go module cache";
            let risk = self.risk_level();
            Some(CleanItem::new(path, size, String::from_str(desc), risk, self.category()))
        } else {
            None
        }
    }
}

/// Gradle cache rule
pub struct GradleCacheRule;

/// The paths that `GradleCacheRule` inspects.
pub open spec fn gradle_cache_paths(env: Locations) -> Seq<Seq<char>> {
    (if env.home is Some { seq![joined(env.home->0@, ".gradle/caches"@), joined(env.home->0@, ".gradle/wrapper/dists"@)] } else { seq![] })
}

impl CleanRule for GradleCacheRule {
    fn name(&self) -> (r: &'static str)
        ensures
            r@ == "Gradle Cache"@,
    {
        "Gradle Cache"
    }

    fn category(&self) -> (r: Category)
        ensures
            r == Category::Java,
    {
        Category::Java
    }

    fn risk_level(&self) -> (r: RiskLevel)
        ensures
            r == RiskLevel::Low,
    {
        RiskLevel::Low
    }

    fn description(&self) -> (r: &'static str)
        ensures
            r@ == "Gradle build cache and dependencies"@,
    {
        "Gradle build cache and dependencies"
    }

    fn scan_paths(&self, env: &Locations) -> (r: Vec<String>)
        ensures
            views(r@) == gradle_cache_paths(*env),
    {
        let mut paths: Vec<String> = Vec::new();
        if let Some(base) = &env.home {
            paths.push(join(base.as_str(), ".gradle/caches"));
            paths.push(join(base.as_str(), ".gradle/wrapper/dists"));
        }
        proof {
            assert(views(paths@) =~= gradle_cache_paths(*env));
        }
        paths
    }
}

impl GradleCacheRule {
    /// The item for a scanned path of this rule holding `size` bytes, where
    /// the size is over the rule's threshold.
    pub fn item_for(&self, path: String, size: u64) -> (r: Option<CleanItem>)
        ensures
            r is Some <==> size > 0,
            r is Some ==> ({
                let it = r->0;
                &&& it.path@ == path@
                &&& it.size == size
                &&& it.description@ == (if has_substring(path@, "wrapper"@) { "Gradle wrapper distributions"@ } else { "Gradle cache"@ })
                &&& it.risk_level == (RiskLevel::Low)
                &&& it.category == Category::Java
                &&& it.last_modified is None
            }),
    {
        if size > 0 {
            let desc = if contains_str(path.as_str(), "wrapper") { "Gradle wrapper distributions" } else { "Gradle cache" };
            let risk = self.risk_level();
            Some(CleanItem::new(path, size, String::from_str(desc), risk, self.category()))
        } else {
            None
        }
    }
}

/// Maven local repository rule
pub struct MavenCacheRule;

/// The paths that `MavenCacheRule` inspects.
pub open spec fn maven_cache_paths(env: Locations) -> Seq<Seq<char>> {
    (if env.home is Some { seq![joined(env.home->0@, ".m2/repository"@)] } else { seq![] })
}

impl CleanRule for MavenCacheRule {
    fn name(&self) -> (r: &'static str)
        ensures
            r@ == "Maven Local Repository"@,
    {
        "Maven Local Repository"
    }

    fn category(&self) -> (r: Category)
        ensures
            r == Category::Java,
    {
        Category::Java
    }

    fn risk_level(&self) -> (r: RiskLevel)
        ensures
            r == RiskLevel::Medium,
    {
        RiskLevel::Medium
    }

    fn description(&self) -> (r: &'static str)
        ensures
            r@ == "Maven local repository cache"@,
    {
        "Maven local repository cache"
    }

    fn scan_paths(&self, env: &Locations) -> (r: Vec<String>)
        ensures
            views(r@) == maven_cache_paths(*env),
    {
        let mut paths: Vec<String> = Vec::new();
        if let Some(base) = &env.home {
            paths.push(join(base.as_str(), ".m2/repository"));
        }
        proof {
            assert(views(paths@) =~= maven_cache_paths(*env));
        }
        paths
    }
}

impl MavenCacheRule {
    /// The item for a scanned path of this rule holding `size` bytes, where
    /// the size is over the rule's threshold.
    pub fn item_for(&self, path: String, size: u64) -> (r: Option<CleanItem>)
        ensures
            r is Some <==> size > 104857600,
            r is Some ==> ({
                let it = r->0;
                &&& it.path@ == path@
                &&& it.size == size
                &&& it.description@ == ("Maven local repository"@)
                &&& it.risk_level == (RiskLevel::Medium)
                &&& it.category == Category::Java
                &&& it.last_modified is None
            }),
    {
        if size > 104857600 {
            let desc = "Maven local repository";
            let risk = self.risk_level();
            Some(CleanItem::new(path, size, String::from_str(desc), risk, self.category()))
        } else {
            None
        }
    }
}

/// Android SDK cache rule
pub struct AndroidCacheRule;

/// The paths that `AndroidCacheRule` inspects.
pub open spec fn android_cache_paths(env: Locations) -> Seq<Seq<char>> {
    (if env.home is Some { seq![joined(env.home->0@, ".android/cache"@), joined(env.home->0@, ".android/build-cache"@), joined(env.home->0@, "Library/Android/sdk/.downloadIntermediates"@)] } else { seq![] })
}

impl CleanRule for AndroidCacheRule {
    fn name(&self) -> (r: &'static str)
        ensures
            r@ == "Android SDK Cache"@,
    {
        "Android SDK Cache"
    }

    fn category(&self) -> (r: Category)
        ensures
            r == Category::Android,
    {
        Category::Android
    }

    fn risk_level(&self) -> (r: RiskLevel)
        ensures
            r == RiskLevel::Low,
    {
        RiskLevel::Low
    }

    fn description(&self) -> (r: &'static str)
        ensures
            r@ == "Android SDK and AVD cache files"@,
    {
        "Android SDK and AVD cache files"
    }

    fn scan_paths(&self, env: &Locations) -> (r: Vec<String>)
        ensures
            views(r@) == android_cache_paths(*env),
    {
        let mut paths: Vec<String> = Vec::new();
        if let Some(base) = &env.home {
            paths.push(join(base.as_str(), ".android/cache"));
            paths.push(join(base.as_str(), ".android/build-cache"));
            paths.push(join(base.as_str(), "Library/Android/sdk/.downloadIntermediates"));
        }
        proof {
            assert(views(paths@) =~= android_cache_paths(*env));
        }
        paths
    }
}

impl AndroidCacheRule {
    /// The item for a scanned path of this rule holding `size` bytes, where
    /// the size is over the rule's threshold.
    pub fn item_for(&self, path: String, size: u64) -> (r: Option<CleanItem>)
        ensures
            r is Some <==> size > 0,
            r is Some ==> ({
                let it = r->0;
                &&& it.path@ == path@
                &&& it.size == size
                &&& it.description@ == ("Android SDK cache"@)
                &&& it.risk_level == (RiskLevel::Low)
                &&& it.category == Category::Android
                &&& it.last_modified is None
            }),
    {
        if size > 0 {
            let desc = "Android SDK cache";
            let risk = self.risk_level();
            Some(CleanItem::new(path, size, String::from_str(desc), risk, self.category()))
        } else {
            None
        }
    }
}

/// Docker cache rule
pub struct DockerCacheRule;

/// The paths that `DockerCacheRule` inspects.
pub open spec fn docker_cache_paths(env: Locations) -> Seq<Seq<char>> {
    Seq::empty()
}

impl CleanRule for DockerCacheRule {
    fn name(&self) -> (r: &'static str)
        ensures
            r@ == "Docker Cache"@,
    {
        "Docker Cache"
    }

    fn category(&self) -> (r: Category)
        ensures
            r == Category::Docker,
    {
        Category::Docker
    }

    fn risk_level(&self) -> (r: RiskLevel)
        ensures
            r == RiskLevel::Medium,
    {
        RiskLevel::Medium
    }

    fn description(&self) -> (r: &'static str)
        ensures
            r@ == "Docker build cache and unused data"@,
    {
        "Docker build cache and unused data"
    }

    fn scan_paths(&self, env: &Locations) -> (r: Vec<String>)
        ensures
            views(r@) == docker_cache_paths(*env),
    {
        let mut paths: Vec<String> = Vec::new();
        proof {
            assert(views(paths@) =~= docker_cache_paths(*env));
        }
        paths
    }
}

/// Reclaimable space from which Docker's report becomes an item, in bytes.
pub const DOCKER_RECLAIM_THRESHOLD: u64 = 104857600;

impl DockerCacheRule {
    /// The item for the reclaimable space that Docker reports, where it
    /// is over the threshold.
    pub fn reclaimable_item(&self, total_reclaimable: u64) -> (r: Option<CleanItem>)
        ensures
            r is Some <==> total_reclaimable > DOCKER_RECLAIM_THRESHOLD,
            r is Some ==> ({
                let it = r->0;
                &&& it.path@ == "/var/lib/docker"@
                &&& it.size == total_reclaimable
                &&& it.description@ == "Docker reclaimable space (run 'docker system prune')"@
                &&& it.risk_level == RiskLevel::Medium
                &&& it.category == Category::Docker
            }),
    {
        if total_reclaimable > DOCKER_RECLAIM_THRESHOLD {
            Some(CleanItem::new(
                String::from_str("/var/lib/docker"),
                total_reclaimable,
                String::from_str("Docker reclaimable space (run 'docker system prune')"),
                RiskLevel::Medium,
                Category::Docker,
            ))
        } else {
            None
        }
    }
}

/// VSCode cache rule
pub struct VSCodeCacheRule;

/// The paths that `VSCodeCacheRule` inspects.
pub open spec fn vscode_cache_paths(env: Locations) -> Seq<Seq<char>> {
    (if env.home is Some { seq![joined(env.home->0@, ".vscode/extensions"@), joined(env.home->0@, "Library/Application Support/Code/Cache"@), joined(env.home->0@, "Library/Application Support/Code/CachedData"@), joined(env.home->0@, "Library/Application Support/Code/CachedExtensions"@), joined(env.home->0@, "Library/Application Support/Code/logs"@), joined(env.home->0@, "Library/Caches/com.microsoft.VSCode"@)] } else { seq![] })
}

impl CleanRule for VSCodeCacheRule {
    fn name(&self) -> (r: &'static str)
        ensures
            r@ == "VS Code Cache"@,
    {
        "VS Code Cache"
    }

    fn category(&self) -> (r: Category)
        ensures
            r is Other && category_label(r) == "IDE"@,
    {
        Category::Other(String::from_str("IDE"))
    }

    fn risk_level(&self) -> (r: RiskLevel)
        ensures
            r == RiskLevel::Low,
    {
        RiskLevel::Low
    }

    fn description(&self) -> (r: &'static str)
        ensures
            r@ == "VS Code extensions cache and logs"@,
    {
        "VS Code extensions cache and logs"
    }

    fn scan_paths(&self, env: &Locations) -> (r: Vec<String>)
        ensures
            views(r@) == vscode_cache_paths(*env),
    {
        let mut paths: Vec<String> = Vec::new();
        if let Some(base) = &env.home {
            paths.push(join(base.as_str(), ".vscode/extensions"));
            paths.push(join(base.as_str(), "Library/Application Support/Code/Cache"));
            paths.push(join(base.as_str(), "Library/Application Support/Code/CachedData"));
            paths.push(join(base.as_str(), "Library/Application Support/Code/CachedExtensions"));
            paths.push(join(base.as_str(), "Library/Application Support/Code/logs"));
            paths.push(join(base.as_str(), "Library/Caches/com.microsoft.VSCode"));
        }
        proof {
            assert(views(paths@) =~= vscode_cache_paths(*env));
        }
        paths
    }
}

impl VSCodeCacheRule {
    /// The item for a scanned path of this rule holding `size` bytes, where
    /// the size is over the rule's threshold.
    pub fn item_for(&self, path: String, size: u64) -> (r: Option<CleanItem>)
        ensures
            r is Some <==> size > 10485760,
            r is Some ==> ({
                let it = r->0;
                &&& it.path@ == path@
                &&& it.size == size
                &&& it.description@ == (if has_substring(path@, "extensions"@) { "VS Code extensions (consider cleaning unused)"@ } else { if has_substring(path@, "logs"@) { "VS Code logs"@ } else { "VS Code cache"@ } })
                &&& it.risk_level == (if has_substring(path@, "extensions"@) { RiskLevel::Medium } else { RiskLevel::Low })
                &&& it.category is Other && category_label(it.category) == "IDE"@
                &&& it.last_modified is None
            }),
    {
        if size > 10485760 {
            let desc = if contains_str(path.as_str(), "extensions") { "VS Code extensions (consider cleaning unused)" } else { if contains_str(path.as_str(), "logs") { "VS Code logs" } else { "VS Code cache" } };
            let risk = if contains_str(path.as_str(), "extensions") { RiskLevel::Medium } else { self.risk_level() };
            Some(CleanItem::new(path, size, String::from_str(desc), risk, self.category()))
        } else {
            None
        }
    }
}

/// Cursor IDE cache rule
pub struct CursorCacheRule;

/// The paths that `CursorCacheRule` inspects.
pub open spec fn cursor_cache_paths(env: Locations) -> Seq<Seq<char>> {
    (if env.home is Some { seq![joined(env.home->0@, ".cursor/extensions"@), joined(env.home->0@, "Library/Application Support/Cursor/Cache"@), joined(env.home->0@, "Library/Application Support/Cursor/CachedData"@), joined(env.home->0@, "Library/Application Support/Cursor/logs"@), joined(env.home->0@, "Library/Caches/com.todesktop.230313mzl4w4u92"@)] } else { seq![] })
}

impl CleanRule for CursorCacheRule {
    fn name(&self) -> (r: &'static str)
        ensures
            r@ == "Cursor Cache"@,
    {
        "Cursor Cache"
    }

    fn category(&self) -> (r: Category)
        ensures
            r is Other && category_label(r) == "IDE"@,
    {
        Category::Other(String::from_str("IDE"))
    }

    fn risk_level(&self) -> (r: RiskLevel)
        ensures
            r == RiskLevel::Low,
    {
        RiskLevel::Low
    }

    fn description(&self) -> (r: &'static str)
        ensures
            r@ == "Cursor AI IDE cache and logs"@,
    {
        "Cursor AI IDE cache and logs"
    }

    fn scan_paths(&self, env: &Locations) -> (r: Vec<String>)
        ensures
            views(r@) == cursor_cache_paths(*env),
    {
        let mut paths: Vec<String> = Vec::new();
        if let Some(base) = &env.home {
            paths.push(join(base.as_str(), ".cursor/extensions"));
            paths.push(join(base.as_str(), "Library/Application Support/Cursor/Cache"));
            paths.push(join(base.as_str(), "Library/Application Support/Cursor/CachedData"));
            paths.push(join(base.as_str(), "Library/Application Support/Cursor/logs"));
            paths.push(join(base.as_str(), "Library/Caches/com.todesktop.230313mzl4w4u92"));
        }
        proof {
            assert(views(paths@) =~= cursor_cache_paths(*env));
        }
        paths
    }
}

impl CursorCacheRule {
    /// The item for a scanned path of this rule holding `size` bytes, where
    /// the size is over the rule's threshold.
    pub fn item_for(&self, path: String, size: u64) -> (r: Option<CleanItem>)
        ensures
            r is Some <==> size > 10485760,
            r is Some ==> ({
                let it = r->0;
                &&& it.path@ == path@
                &&& it.size == size
                &&& it.description@ == (if has_substring(path@, "extensions"@) { "Cursor extensions"@ } else { if has_substring(path@, "logs"@) { "Cursor logs"@ } else { "Cursor cache"@ } })
                &&& it.risk_level == (if has_substring(path@, "extensions"@) { RiskLevel::Medium } else { RiskLevel::Low })
                &&& it.category is Other && category_label(it.category) == "IDE"@
                &&& it.last_modified is None
            }),
    {
        if size > 10485760 {
            let desc = if contains_str(path.as_str(), "extensions") { "Cursor extensions" } else { if contains_str(path.as_str(), "logs") { "Cursor logs" } else { "Cursor cache" } };
            let risk = if contains_str(path.as_str(), "extensions") { RiskLevel::Medium } else { self.risk_level() };
            Some(CleanItem::new(path, size, String::from_str(desc), risk, self.category()))
        } else {
            None
        }
    }
}

/// JetBrains IDEs cache rule
pub struct JetBrainsCacheRule;

/// The paths that `JetBrainsCacheRule` inspects.
pub open spec fn jet_brains_cache_paths(env: Locations) -> Seq<Seq<char>> {
    (if env.home is Some { seq![joined(env.home->0@, "Library/Caches/JetBrains"@), joined(env.home->0@, "Library/Caches/IntelliJIdea"@), joined(env.home->0@, "Library/Caches/WebStorm"@), joined(env.home->0@, "Library/Caches/PyCharm"@), joined(env.home->0@, "Library/Caches/CLion"@), joined(env.home->0@, "Library/Caches/GoLand"@), joined(env.home->0@, "Library/Caches/RustRover"@), joined(env.home->0@, "Library/Caches/DataGrip"@)] } else { seq![] })
}

impl CleanRule for JetBrainsCacheRule {
    fn name(&self) -> (r: &'static str)
        ensures
            r@ == "JetBrains Cache"@,
    {
        "JetBrains Cache"
    }

    fn category(&self) -> (r: Category)
        ensures
            r is Other && category_label(r) == "IDE"@,
    {
        Category::Other(String::from_str("IDE"))
    }

    fn risk_level(&self) -> (r: RiskLevel)
        ensures
            r == RiskLevel::Low,
    {
        RiskLevel::Low
    }

    fn description(&self) -> (r: &'static str)
        ensures
            r@ == "JetBrains IDEs cache (IntelliJ, WebStorm, PyCharm, etc.)"@,
    {
        "JetBrains IDEs cache (IntelliJ, WebStorm, PyCharm, etc.)"
    }

    fn scan_paths(&self, env: &Locations) -> (r: Vec<String>)
        ensures
            views(r@) == jet_brains_cache_paths(*env),
    {
        let mut paths: Vec<String> = Vec::new();
        if let Some(base) = &env.home {
            paths.push(join(base.as_str(), "Library/Caches/JetBrains"));
            paths.push(join(base.as_str(), "Library/Caches/IntelliJIdea"));
            paths.push(join(base.as_str(), "Library/Caches/WebStorm"));
            paths.push(join(base.as_str(), "Library/Caches/PyCharm"));
            paths.push(join(base.as_str(), "Library/Caches/CLion"));
            paths.push(join(base.as_str(), "Library/Caches/GoLand"));
            paths.push(join(base.as_str(), "Library/Caches/RustRover"));
            paths.push(join(base.as_str(), "Library/Caches/DataGrip"));
        }
        proof {
            assert(views(paths@) =~= jet_brains_cache_paths(*env));
        }
        paths
    }
}

impl JetBrainsCacheRule {
    /// The item for a scanned path of this rule holding `size` bytes, where
    /// the size is over the rule's threshold.
    pub fn item_for(&self, path: String, size: u64) -> (r: Option<CleanItem>)
        ensures
            r is Some <==> size > 52428800,
            r is Some ==> ({
                let it = r->0;
                &&& it.path@ == path@
                &&& it.size == size
                &&& it.description@ == ("JetBrains IDE cache"@)
                &&& it.risk_level == (RiskLevel::Low)
                &&& it.category is Other && category_label(it.category) == "IDE"@
                &&& it.last_modified is None
            }),
    {
        if size > 52428800 {
            let desc = "JetBrains IDE cache";
            let risk = self.risk_level();
            Some(CleanItem::new(path, size, String::from_str(desc), risk, self.category()))
        } else {
            None
        }
    }
}

/// Flutter cache rule
pub struct FlutterCacheRule;

/// The paths that `FlutterCacheRule` inspects.
pub open spec fn flutter_cache_paths(env: Locations) -> Seq<Seq<char>> {
    (if env.home is Some { seq![joined(env.home->0@, "flutter/bin/cache"@), joined(env.home->0@, ".flutter"@), joined(env.home->0@, "development/flutter/bin/cache"@)] } else { seq![] }) + (if env.flutter_root is Some { seq![joined(env.flutter_root->0@, "bin/cache"@)] } else { seq![] })
}

impl CleanRule for FlutterCacheRule {
    fn name(&self) -> (r: &'static str)
        ensures
            r@ == "Flutter Cache"@,
    {
        "Flutter Cache"
    }

    fn category(&self) -> (r: Category)
        ensures
            r is Other && category_label(r) == "Mobile"@,
    {
        Category::Other(String::from_str("Mobile"))
    }

    fn risk_level(&self) -> (r: RiskLevel)
        ensures
            r == RiskLevel::Low,
    {
        RiskLevel::Low
    }

    fn description(&self) -> (r: &'static str)
        ensures
            r@ == "Flutter SDK cache and artifacts"@,
    {
        "Flutter SDK cache and artifacts"
    }

    fn scan_paths(&self, env: &Locations) -> (r: Vec<String>)
        ensures
            views(r@) == flutter_cache_paths(*env),
    {
        let mut paths: Vec<String> = Vec::new();
        if let Some(base) = &env.home {
            paths.push(join(base.as_str(), "flutter/bin/cache"));
            paths.push(join(base.as_str(), ".flutter"));
            paths.push(join(base.as_str(), "development/flutter/bin/cache"));
        }
        if let Some(base) = &env.flutter_root {
            paths.push(join(base.as_str(), "bin/cache"));
        }
        proof {
            assert(views(paths@) =~= flutter_cache_paths(*env));
        }
        paths
    }
}

impl FlutterCacheRule {
    /// The item for a scanned path of this rule holding `size` bytes, where
    /// the size is over the rule's threshold.
    pub fn item_for(&self, path: String, size: u64) -> (r: Option<CleanItem>)
        ensures
            r is Some <==> size > 104857600,
            r is Some ==> ({
                let it = r->0;
                &&& it.path@ == path@
                &&& it.size == size
                &&& it.description@ == ("Flutter SDK cache"@)
                &&& it.risk_level == (RiskLevel::Low)
                &&& it.category is Other && category_label(it.category) == "Mobile"@
                &&& it.last_modified is None
            }),
    {
        if size > 104857600 {
            let desc = "Flutter SDK cache";
            let risk = self.risk_level();
            Some(CleanItem::new(path, size, String::from_str(desc), risk, self.category()))
        } else {
            None
        }
    }
}

/// Dart pub cache rule
pub struct DartPubCacheRule;

/// The paths that `DartPubCacheRule` inspects.
pub open spec fn dart_pub_cache_paths(env: Locations) -> Seq<Seq<char>> {
    (if env.home is Some { seq![joined(env.home->0@, ".pub-cache"@)] } else { seq![] }) + (if env.pub_cache is Some { seq![env.pub_cache->0@] } else { seq![] })
}

impl CleanRule for DartPubCacheRule {
    fn name(&self) -> (r: &'static str)
        ensures
            r@ == "Dart Pub Cache"@,
    {
        "Dart Pub Cache"
    }

    fn category(&self) -> (r: Category)
        ensures
            r is Other && category_label(r) == "Mobile"@,
    {
        Category::Other(String::from_str("Mobile"))
    }

    fn risk_level(&self) -> (r: RiskLevel)
        ensures
            r == RiskLevel::Low,
    {
        RiskLevel::Low
    }

    fn description(&self) -> (r: &'static str)
        ensures
            r@ == "Dart package manager cache"@,
    {
        "Dart package manager cache"
    }

    fn scan_paths(&self, env: &Locations) -> (r: Vec<String>)
        ensures
            views(r@) == dart_pub_cache_paths(*env),
    {
        let mut paths: Vec<String> = Vec::new();
        if let Some(base) = &env.home {
            paths.push(join(base.as_str(), ".pub-cache"));
        }
        if let Some(base) = &env.pub_cache {
            paths.push(base.clone());
        }
        proof {
            assert(views(paths@) =~= dart_pub_cache_paths(*env));
        }
        paths
    }
}

impl DartPubCacheRule {
    /// The item for a scanned path of this rule holding `size` bytes, where
    /// the size is over the rule's threshold.
    pub fn item_for(&self, path: String, size: u64) -> (r: Option<CleanItem>)
        ensures
            r is Some <==> size > 52428800,
            r is Some ==> ({
                let it = r->0;
                &&& it.path@ == path@
                &&& it.size == size
                &&& it.description@ == ("Dart pub cache"@)
                &&& it.risk_level == (RiskLevel::Low)
                &&& it.category is Other && category_label(it.category) == "Mobile"@
                &&& it.last_modified is None
            }),
    {
        if size > 52428800 {
            let desc = "Dart pub cache";
            let risk = self.risk_level();
            Some(CleanItem::new(path, size, String::from_str(desc), risk, self.category()))
        } else {
            None
        }
    }
}

/// nvm cache rule
pub struct NvmCacheRule;

/// The paths that `NvmCacheRule` inspects.
pub open spec fn nvm_cache_paths(env: Locations) -> Seq<Seq<char>> {
    (if env.home is Some { seq![joined(env.home->0@, ".nvm/versions"@), joined(env.home->0@, ".nvm/.cache"@)] } else { seq![] })
}

impl CleanRule for NvmCacheRule {
    fn name(&self) -> (r: &'static str)
        ensures
            r@ == "nvm Cache"@,
    {
        "nvm Cache"
    }

    fn category(&self) -> (r: Category)
        ensures
            r == Category::NodeJs,
    {
        Category::NodeJs
    }

    fn risk_level(&self) -> (r: RiskLevel)
        ensures
            r == RiskLevel::Medium,
    {
        RiskLevel::Medium
    }

    fn description(&self) -> (r: &'static str)
        ensures
            r@ == "Node Version Manager installed versions"@,
    {
        "Node Version Manager installed versions"
    }

    fn scan_paths(&self, env: &Locations) -> (r: Vec<String>)
        ensures
            views(r@) == nvm_cache_paths(*env),
    {
        let mut paths: Vec<String> = Vec::new();
        if let Some(base) = &env.home {
            paths.push(join(base.as_str(), ".nvm/versions"));
            paths.push(join(base.as_str(), ".nvm/.cache"));
        }
        proof {
            assert(views(paths@) =~= nvm_cache_paths(*env));
        }
        paths
    }
}

impl NvmCacheRule {
    /// The item for a scanned path of this rule holding `size` bytes, where
    /// the size is over the rule's threshold.
    pub fn item_for(&self, path: String, size: u64) -> (r: Option<CleanItem>)
        ensures
            r is Some <==> size > 104857600,
            r is Some ==> ({
                let it = r->0;
                &&& it.path@ == path@
                &&& it.size == size
                &&& it.description@ == (if has_substring(path@, ".cache"@) { "nvm download cache"@ } else { "nvm Node.js versions (keep versions you use)"@ })
                &&& it.risk_level == (RiskLevel::Medium)
                &&& it.category == Category::NodeJs
                &&& it.last_modified is None
            }),
    {
        if size > 104857600 {
            let desc = if contains_str(path.as_str(), ".cache") { "nvm download cache" } else { "nvm Node.js versions (keep versions you use)" };
            let risk = self.risk_level();
            Some(CleanItem::new(path, size, String::from_str(desc), risk, self.category()))
        } else {
            None
        }
    }
}

/// Bun cache rule
pub struct BunCacheRule;

/// The paths that `BunCacheRule` inspects.
pub open spec fn bun_cache_paths(env: Locations) -> Seq<Seq<char>> {
    (if env.home is Some { seq![joined(env.home->0@, ".bun/install/cache"@)] } else { seq![] })
}

impl CleanRule for BunCacheRule {
    fn name(&self) -> (r: &'static str)
        ensures
            r@ == "Bun Cache"@,
    {
        "Bun Cache"
    }

    fn category(&self) -> (r: Category)
        ensures
            r == Category::NodeJs,
    {
        Category::NodeJs
    }

    fn risk_level(&self) -> (r: RiskLevel)
        ensures
            r == RiskLevel::Low,
    {
        RiskLevel::Low
    }

    fn description(&self) -> (r: &'static str)
        ensures
            r@ == "Bun package manager cache"@,
    {
        "Bun package manager cache"
    }

    fn scan_paths(&self, env: &Locations) -> (r: Vec<String>)
        ensures
            views(r@) == bun_cache_paths(*env),
    {
        let mut paths: Vec<String> = Vec::new();
        if let Some(base) = &env.home {
            paths.push(join(base.as_str(), ".bun/install/cache"));
        }
        proof {
            assert(views(paths@) =~= bun_cache_paths(*env));
        }
        paths
    }
}

impl BunCacheRule {
    /// The item for a scanned path of this rule holding `size` bytes, where
    /// the size is over the rule's threshold.
    pub fn item_for(&self, path: String, size: u64) -> (r: Option<CleanItem>)
        ensures
            r is Some <==> size > 52428800,
            r is Some ==> ({
                let it = r->0;
                &&& it.path@ == path@
                &&& it.size == size
                &&& it.description@ == ("Bun package cache"@)
                &&& it.risk_level == (RiskLevel::Low)
                &&& it.category == Category::NodeJs
                &&& it.last_modified is None
            }),
    {
        if size > 52428800 {
            let desc = "Bun package cache";
            let risk = self.risk_level();
            Some(CleanItem::new(path, size, String::from_str(desc), risk, self.category()))
        } else {
            None
        }
    }
}

/// Deno cache rule
pub struct DenoCacheRule;

/// The paths that `DenoCacheRule` inspects.
pub open spec fn deno_cache_paths(env: Locations) -> Seq<Seq<char>> {
    (if env.cache is Some { seq![joined(env.cache->0@, "deno"@)] } else { seq![] }) + (if env.home is Some { seq![joined(env.home->0@, ".deno"@), joined(env.home->0@, "Library/Caches/deno"@)] } else { seq![] })
}

impl CleanRule for DenoCacheRule {
    fn name(&self) -> (r: &'static str)
        ensures
            r@ == "Deno Cache"@,
    {
        "Deno Cache"
    }

    fn category(&self) -> (r: Category)
        ensures
            r == Category::NodeJs,
    {
        Category::NodeJs
    }

    fn risk_level(&self) -> (r: RiskLevel)
        ensures
            r == RiskLevel::Low,
    {
        RiskLevel::Low
    }

    fn description(&self) -> (r: &'static str)
        ensures
            r@ == "Deno runtime cache"@,
    {
        "Deno runtime cache"
    }

    fn scan_paths(&self, env: &Locations) -> (r: Vec<String>)
        ensures
            views(r@) == deno_cache_paths(*env),
    {
        let mut paths: Vec<String> = Vec::new();
        if let Some(base) = &env.cache {
            paths.push(join(base.as_str(), "deno"));
        }
        if let Some(base) = &env.home {
            paths.push(join(base.as_str(), ".deno"));
            paths.push(join(base.as_str(), "Library/Caches/deno"));
        }
        proof {
            assert(views(paths@) =~= deno_cache_paths(*env));
        }
        paths
    }
}

impl DenoCacheRule {
    /// The item for a scanned path of this rule holding `size` bytes, where
    /// the size is over the rule's threshold.
    pub fn item_for(&self, path: String, size: u64) -> (r: Option<CleanItem>)
        ensures
            r is Some <==> size > 52428800,
            r is Some ==> ({
                let it = r->0;
                &&& it.path@ == path@
                &&& it.size == size
                &&& it.description@ == ("Deno cache"@)
                &&& it.risk_level == (RiskLevel::Low)
                &&& it.category == Category::NodeJs
                &&& it.last_modified is None
            }),
    {
        if size > 52428800 {
            let desc = "Deno cache";
            let risk = self.risk_level();
            Some(CleanItem::new(path, size, String::from_str(desc), risk, self.category()))
        } else {
            None
        }
    }
}

/// Rustup cache rule
pub struct RustupCacheRule;

/// The paths that `RustupCacheRule` inspects.
pub open spec fn rustup_cache_paths(env: Locations) -> Seq<Seq<char>> {
    (if env.home is Some { seq![joined(env.home->0@, ".rustup/toolchains"@), joined(env.home->0@, ".rustup/downloads"@), joined(env.home->0@, ".rustup/tmp"@)] } else { seq![] })
}

impl CleanRule for RustupCacheRule {
    fn name(&self) -> (r: &'static str)
        ensures
            r@ == "Rustup Toolchains"@,
    {
        "Rustup Toolchains"
    }

    fn category(&self) -> (r: Category)
        ensures
            r == Category::Rust,
    {
        Category::Rust
    }

    fn risk_level(&self) -> (r: RiskLevel)
        ensures
            r == RiskLevel::Medium,
    {
        RiskLevel::Medium
    }

    fn description(&self) -> (r: &'static str)
        ensures
            r@ == "Rustup installed toolchains and components"@,
    {
        "Rustup installed toolchains and components"
    }

    fn scan_paths(&self, env: &Locations) -> (r: Vec<String>)
        ensures
            views(r@) == rustup_cache_paths(*env),
    {
        let mut paths: Vec<String> = Vec::new();
        if let Some(base) = &env.home {
            paths.push(join(base.as_str(), ".rustup/toolchains"));
            paths.push(join(base.as_str(), ".rustup/downloads"));
            paths.push(join(base.as_str(), ".rustup/tmp"));
        }
        proof {
            assert(views(paths@) =~= rustup_cache_paths(*env));
        }
        paths
    }
}

impl RustupCacheRule {
    /// The item for a scanned path of this rule holding `size` bytes, where
    /// the size is over the rule's threshold.
    pub fn item_for(&self, path: String, size: u64) -> (r: Option<CleanItem>)
        ensures
            r is Some <==> size > 524288000,
            r is Some ==> ({
                let it = r->0;
                &&& it.path@ == path@
                &&& it.size == size
                &&& it.description@ == (if has_substring(path@, "toolchains"@) { "Rustup toolchains (keep versions you use)"@ } else { if has_substring(path@, "downloads"@) { "Rustup downloads cache"@ } else { "Rustup temporary files"@ } })
                &&& it.risk_level == (RiskLevel::Medium)
                &&& it.category == Category::Rust
                &&& it.last_modified is None
            }),
    {
        if size > 524288000 {
            let desc = if contains_str(path.as_str(), "toolchains") { "Rustup toolchains (keep versions you use)" } else { if contains_str(path.as_str(), "downloads") { "Rustup downloads cache" } else { "Rustup temporary files" } };
            let risk = self.risk_level();
            Some(CleanItem::new(path, size, String::from_str(desc), risk, self.category()))
        } else {
            None
        }
    }
}

/// Ruby cache rule
pub struct RubyCacheRule;

/// The paths that `RubyCacheRule` inspects.
pub open spec fn ruby_cache_paths(env: Locations) -> Seq<Seq<char>> {
    (if env.home is Some { seq![joined(env.home->0@, ".gem"@), joined(env.home->0@, ".bundle/cache"@), joined(env.home->0@, ".rbenv/versions"@)] } else { seq![] })
}

impl CleanRule for RubyCacheRule {
    fn name(&self) -> (r: &'static str)
        ensures
            r@ == "Ruby Gems Cache"@,
    {
        "Ruby Gems Cache"
    }

    fn category(&self) -> (r: Category)
        ensures
            r is Other && category_label(r) == "Ruby"@,
    {
        Category::Other(String::from_str("Ruby"))
    }

    fn risk_level(&self) -> (r: RiskLevel)
        ensures
            r == RiskLevel::Low,
    {
        RiskLevel::Low
    }

    fn description(&self) -> (r: &'static str)
        ensures
            r@ == "Ruby gems and bundle cache"@,
    {
        "Ruby gems and bundle cache"
    }

    fn scan_paths(&self, env: &Locations) -> (r: Vec<String>)
        ensures
            views(r@) == ruby_cache_paths(*env),
    {
        let mut paths: Vec<String> = Vec::new();
        if let Some(base) = &env.home {
            paths.push(join(base.as_str(), ".gem"));
            paths.push(join(base.as_str(), ".bundle/cache"));
            paths.push(join(base.as_str(), ".rbenv/versions"));
        }
        proof {
            assert(views(paths@) =~= ruby_cache_paths(*env));
        }
        paths
    }
}

impl RubyCacheRule {
    /// The item for a scanned path of this rule holding `size` bytes, where
    /// the size is over the rule's threshold.
    pub fn item_for(&self, path: String, size: u64) -> (r: Option<CleanItem>)
        ensures
            r is Some <==> size > 104857600,
            r is Some ==> ({
                let it = r->0;
                &&& it.path@ == path@
                &&& it.size == size
                &&& it.description@ == (if has_substring(path@, "rbenv"@) { "rbenv Ruby versions"@ } else { if has_substring(path@, "bundle"@) { "Bundler cache"@ } else { "Ruby gems cache"@ } })
                &&& it.risk_level == (RiskLevel::Low)
                &&& it.category is Other && category_label(it.category) == "Ruby"@
                &&& it.last_modified is None
            }),
    {
        if size > 104857600 {
            let desc = if contains_str(path.as_str(), "rbenv") { "rbenv Ruby versions" } else { if contains_str(path.as_str(), "bundle") { "Bundler cache" } else { "Ruby gems cache" } };
            let risk = self.risk_level();
            Some(CleanItem::new(path, size, String::from_str(desc), risk, self.category()))
        } else {
            None
        }
    }
}

/// The rules of `get_devtools_rules`, in catalog order.
pub open spec fn devtools_rules_spec() -> Seq<Rule> {
    seq![Rule::NpmCache(NpmCacheRule), Rule::YarnCache(YarnCacheRule), Rule::PnpmCache(PnpmCacheRule), Rule::NvmCache(NvmCacheRule), Rule::BunCache(BunCacheRule), Rule::DenoCache(DenoCacheRule), Rule::PipCache(PipCacheRule), Rule::UvCache(UvCacheRule), Rule::CondaCache(CondaCacheRule), Rule::CargoCache(CargoCacheRule), Rule::CargoTarget(CargoTargetRule), Rule::RustupCache(RustupCacheRule), Rule::GoCache(GoCacheRule), Rule::GradleCache(GradleCacheRule), Rule::MavenCache(MavenCacheRule), Rule::AndroidCache(AndroidCacheRule), Rule::DockerCache(DockerCacheRule), Rule::VSCodeCache(VSCodeCacheRule), Rule::CursorCache(CursorCacheRule), Rule::JetBrainsCache(JetBrainsCacheRule), Rule::FlutterCache(FlutterCacheRule), Rule::DartPubCache(DartPubCacheRule), Rule::RubyCache(RubyCacheRule)]
}

/// The rules for development tools, on every platform.
pub fn get_devtools_rules() -> (r: Vec<Rule>)
    ensures
        r@ == devtools_rules_spec(),
{
    let r: Vec<Rule> = vec![Rule::NpmCache(NpmCacheRule), Rule::YarnCache(YarnCacheRule), Rule::PnpmCache(PnpmCacheRule), Rule::NvmCache(NvmCacheRule), Rule::BunCache(BunCacheRule), Rule::DenoCache(DenoCacheRule), Rule::PipCache(PipCacheRule), Rule::UvCache(UvCacheRule), Rule::CondaCache(CondaCacheRule), Rule::CargoCache(CargoCacheRule), Rule::CargoTarget(CargoTargetRule), Rule::RustupCache(RustupCacheRule), Rule::GoCache(GoCacheRule), Rule::GradleCache(GradleCacheRule), Rule::MavenCache(MavenCacheRule), Rule::AndroidCache(AndroidCacheRule), Rule::DockerCache(DockerCacheRule), Rule::VSCodeCache(VSCodeCacheRule), Rule::CursorCache(CursorCacheRule), Rule::JetBrainsCache(JetBrainsCacheRule), Rule::FlutterCache(FlutterCacheRule), Rule::DartPubCache(DartPubCacheRule), Rule::RubyCache(RubyCacheRule)];
    assert(r@ =~= devtools_rules_spec());
    r
}

/// Project directories, under the home directory, searched for build output.
pub open spec fn project_roots() -> Seq<Seq<char>> {
    seq!["Projects"@, "projects"@, "Code"@, "code"@, "Development"@, "dev"@, "src"@]
}

/// Size in bytes that a build directory must exceed to be reported.
pub const CARGO_TARGET_THRESHOLD: u64 = 52428800;

impl CargoTargetRule {
    /// The directories searched for Cargo build output.
    pub fn search_dirs(&self, env: &Locations) -> (r: Vec<String>)
        ensures
            env.home is Some ==> views(r@) == project_roots().map_values(|d: Seq<char>| joined(env.home->0@, d)),
            env.home is None ==> r@.len() == 0,
    {
        match &env.home {
            Some(home) => {
                let roots: Vec<&'static str> = vec!["Projects", "projects", "Code", "code", "Development", "dev", "src"];
                assert(str_views(roots@) =~= project_roots());
                join_each(home.as_str(), &roots)
            },
            None => Vec::new(),
        }
    }

    /// Whether a directory of this name holds Cargo build output.
    pub fn is_target_dir(name: &str) -> (r: bool)
        ensures
            r == (name@ == "target"@),
    {
        same_text(name, "target")
    }

    /// The item for a build directory of `size` bytes of the project
    /// `project` (`unknown` where it has no name), where it exceeds the threshold.
    pub fn build_item(&self, path: String, project: Option<&str>, size: u64) -> (r: Option<CleanItem>)
        ensures
            r is Some <==> size > CARGO_TARGET_THRESHOLD,
            r is Some ==> ({
                let it = r->0;
                &&& it.path@ == path@
                &&& it.size == size
                &&& it.description@ == "Rust build: "@ + match project {
                    Some(p) => p@,
                    None => "unknown"@,
                }
                &&& it.risk_level == RiskLevel::Low
                &&& it.category == Category::Rust
            }),
    {
        if size <= CARGO_TARGET_THRESHOLD {
            return None;
        }
        let mut desc = String::from_str("Rust build: ");
        match project {
            Some(p) => desc.append(p),
            None => desc.append("unknown"),
        }
        Some(CleanItem::new(path, size, desc, self.risk_level(), self.category()))
    }
}

} // verus!
