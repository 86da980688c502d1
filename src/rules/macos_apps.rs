use vstd::prelude::*;
use super::{Category, CleanItem, CleanRule, Locations, RiskLevel, Rule};
use super::entries::{EntryScan, entry_scan, scan_is};
use crate::text::{join, joined, str_views, views};

verus! {

/// Application cache rule (~/Library/Caches/<BundleID>)
pub struct AppCacheRule;

/// The paths that `AppCacheRule` inspects.
pub open spec fn app_cache_paths(env: Locations) -> Seq<Seq<char>> {
    (if env.home is Some { seq![joined(env.home->0@, "Library/Caches"@)] } else { seq![] })
}

impl CleanRule for AppCacheRule {
    fn name(&self) -> (r: &'static str)
        ensures
            r@ == "Application Caches"@,
    {
        "Application Caches"
    }

    fn category(&self) -> (r: Category)
        ensures
            r == Category::MacApps,
    {
        Category::MacApps
    }

    fn risk_level(&self) -> (r: RiskLevel)
        ensures
            r == RiskLevel::Low,
    {
        RiskLevel::Low
    }

    fn description(&self) -> (r: &'static str)
        ensures
            r@ == "Cache files for installed macOS applications"@,
    {
        "Cache files for installed macOS applications"
    }

    fn scan_paths(&self, env: &Locations) -> (r: Vec<String>)
        ensures
            views(r@) == app_cache_paths(*env),
    {
        let mut paths: Vec<String> = Vec::new();
        if let Some(base) = &env.home {
            paths.push(join(base.as_str(), "Library/Caches"));
        }
        proof {
            assert(views(paths@) =~= app_cache_paths(*env));
        }
        paths
    }
}

/// Application logs rule (~/Library/Logs/<AppName>)
pub struct AppLogsRule;

/// The paths that `AppLogsRule` inspects.
pub open spec fn app_logs_paths(env: Locations) -> Seq<Seq<char>> {
    (if env.home is Some { seq![joined(env.home->0@, "Library/Logs"@)] } else { seq![] })
}

impl CleanRule for AppLogsRule {
    fn name(&self) -> (r: &'static str)
        ensures
            r@ == "Application Logs"@,
    {
        "Application Logs"
    }

    fn category(&self) -> (r: Category)
        ensures
            r == Category::MacApps,
    {
        Category::MacApps
    }

    fn risk_level(&self) -> (r: RiskLevel)
        ensures
            r == RiskLevel::Low,
    {
        RiskLevel::Low
    }

    fn description(&self) -> (r: &'static str)
        ensures
            r@ == "Log files for installed macOS applications"@,
    {
        "Log files for installed macOS applications"
    }

    fn scan_paths(&self, env: &Locations) -> (r: Vec<String>)
        ensures
            views(r@) == app_logs_paths(*env),
    {
        let mut paths: Vec<String> = Vec::new();
        if let Some(base) = &env.home {
            paths.push(join(base.as_str(), "Library/Logs"));
        }
        proof {
            assert(views(paths@) =~= app_logs_paths(*env));
        }
        paths
    }
}

/// Application Support cache rule (~/Library/Application Support/<App>/Cache)
pub struct AppSupportCacheRule;

/// The paths that `AppSupportCacheRule` inspects.
pub open spec fn app_support_cache_paths(env: Locations) -> Seq<Seq<char>> {
    (if env.home is Some { seq![joined(env.home->0@, "Library/Application Support"@)] } else { seq![] })
}

impl CleanRule for AppSupportCacheRule {
    fn name(&self) -> (r: &'static str)
        ensures
            r@ == "Application Support Caches"@,
    {
        "Application Support Caches"
    }

    fn category(&self) -> (r: Category)
        ensures
            r == Category::MacApps,
    {
        Category::MacApps
    }

    fn risk_level(&self) -> (r: RiskLevel)
        ensures
            r == RiskLevel::Medium,
    {
        RiskLevel::Medium
    }

    fn description(&self) -> (r: &'static str)
        ensures
            r@ == "Cache directories within Application Support folders"@,
    {
        "Cache directories within Application Support folders"
    }

    fn scan_paths(&self, env: &Locations) -> (r: Vec<String>)
        ensures
            views(r@) == app_support_cache_paths(*env),
    {
        let mut paths: Vec<String> = Vec::new();
        if let Some(base) = &env.home {
            paths.push(join(base.as_str(), "Library/Application Support"));
        }
        proof {
            assert(views(paths@) =~= app_support_cache_paths(*env));
        }
        paths
    }
}

/// Container cache rule (~/Library/Containers/<BundleID>/Data/Library/Caches)
pub struct ContainerCacheRule;

/// The paths that `ContainerCacheRule` inspects.
pub open spec fn container_cache_paths(env: Locations) -> Seq<Seq<char>> {
    (if env.home is Some { seq![joined(env.home->0@, "Library/Containers"@)] } else { seq![] })
}

impl CleanRule for ContainerCacheRule {
    fn name(&self) -> (r: &'static str)
        ensures
            r@ == "Sandboxed App Caches"@,
    {
        "Sandboxed App Caches"
    }

    fn category(&self) -> (r: Category)
        ensures
            r == Category::MacApps,
    {
        Category::MacApps
    }

    fn risk_level(&self) -> (r: RiskLevel)
        ensures
            r == RiskLevel::Low,
    {
        RiskLevel::Low
    }

    fn description(&self) -> (r: &'static str)
        ensures
            r@ == "Cache files for sandboxed macOS applications"@,
    {
        "Cache files for sandboxed macOS applications"
    }

    fn scan_paths(&self, env: &Locations) -> (r: Vec<String>)
        ensures
            views(r@) == container_cache_paths(*env),
    {
        let mut paths: Vec<String> = Vec::new();
        if let Some(base) = &env.home {
            paths.push(join(base.as_str(), "Library/Containers"));
        }
        proof {
            assert(views(paths@) =~= container_cache_paths(*env));
        }
        paths
    }
}

/// The rules of `get_macos_app_rules`, in catalog order.
pub open spec fn macos_app_rules_spec() -> Seq<Rule> {
    seq![Rule::AppCache(AppCacheRule), Rule::AppLogs(AppLogsRule), Rule::AppSupportCache(AppSupportCacheRule), Rule::ContainerCache(ContainerCacheRule)]
}

/// The rules for macOS application data.
pub fn get_macos_app_rules() -> (r: Vec<Rule>)
    ensures
        r@ == macos_app_rules_spec(),
{
    let r: Vec<Rule> = vec![Rule::AppCache(AppCacheRule), Rule::AppLogs(AppLogsRule), Rule::AppSupportCache(AppSupportCacheRule), Rule::ContainerCache(ContainerCacheRule)];
    assert(r@ =~= macos_app_rules_spec());
    r
}

impl AppCacheRule {
    /// How this rule finds its items below its scan paths.
    pub fn entry_scan(&self) -> (r: EntryScan)
        ensures
            scan_is(r, seq!["com.apple."@, "Homebrew"@, "CocoaPods"@, "CloudKit"@, "FamilyCircle"@, "Google"@], seq![], seq![""@], 10485760, "App cache: "@, ""@),
    {
        let skip_containing: Vec<&'static str> = vec!["com.apple.", "Homebrew", "CocoaPods", "CloudKit", "FamilyCircle", "Google"];
        let skip_starting: Vec<&'static str> = vec![];
        let subpaths: Vec<&'static str> = vec![""];
        let r = entry_scan(skip_containing, skip_starting, subpaths, 10485760, "App cache: ", "");
        assert(str_views(r.skip_containing@) =~= seq!["com.apple."@, "Homebrew"@, "CocoaPods"@, "CloudKit"@, "FamilyCircle"@, "Google"@]);
        assert(str_views(r.skip_starting@) =~= seq![]);
        assert(str_views(r.subpaths@) =~= seq![""@]);
        r
    }
}

impl AppLogsRule {
    /// How this rule finds its items below its scan paths.
    pub fn entry_scan(&self) -> (r: EntryScan)
        ensures
            scan_is(r, seq!["DiagnosticReports"@, "CrashReporter"@], seq![], seq![""@], 1048576, "App logs: "@, ""@),
    {
        let skip_containing: Vec<&'static str> = vec!["DiagnosticReports", "CrashReporter"];
        let skip_starting: Vec<&'static str> = vec![];
        let subpaths: Vec<&'static str> = vec![""];
        let r = entry_scan(skip_containing, skip_starting, subpaths, 1048576, "App logs: ", "");
        assert(str_views(r.skip_containing@) =~= seq!["DiagnosticReports"@, "CrashReporter"@]);
        assert(str_views(r.skip_starting@) =~= seq![]);
        assert(str_views(r.subpaths@) =~= seq![""@]);
        r
    }
}

impl AppSupportCacheRule {
    /// How this rule finds its items below its scan paths.
    pub fn entry_scan(&self) -> (r: EntryScan)
        ensures
            scan_is(r, seq![], seq![], seq!["Cache"@, "Caches"@, "cache"@, "CachedData"@, "GPUCache"@, "ShaderCache"@], 10485760, ""@, " cache"@),
    {
        let skip_containing: Vec<&'static str> = vec![];
        let skip_starting: Vec<&'static str> = vec![];
        let subpaths: Vec<&'static str> = vec!["Cache", "Caches", "cache", "CachedData", "GPUCache", "ShaderCache"];
        let r = entry_scan(skip_containing, skip_starting, subpaths, 10485760, "", " cache");
        assert(str_views(r.skip_containing@) =~= seq![]);
        assert(str_views(r.skip_starting@) =~= seq![]);
        assert(str_views(r.subpaths@) =~= seq!["Cache"@, "Caches"@, "cache"@, "CachedData"@, "GPUCache"@, "ShaderCache"@]);
        r
    }
}

impl ContainerCacheRule {
    /// How this rule finds its items below its scan paths.
    pub fn entry_scan(&self) -> (r: EntryScan)
        ensures
            scan_is(r, seq![], seq![], seq!["Data/Library/Caches"@], 5242880, "Container cache: "@, ""@),
    {
        let skip_containing: Vec<&'static str> = vec![];
        let skip_starting: Vec<&'static str> = vec![];
        let subpaths: Vec<&'static str> = vec!["Data/Library/Caches"];
        let r = entry_scan(skip_containing, skip_starting, subpaths, 5242880, "Container cache: ", "");
        assert(str_views(r.skip_containing@) =~= seq![]);
        assert(str_views(r.skip_starting@) =~= seq![]);
        assert(str_views(r.subpaths@) =~= seq!["Data/Library/Caches"@]);
        r
    }
}

impl AppLogsRule {
    /// The item for a single log file of `size` bytes, where it exceeds 1 MiB.
    pub fn log_file_item(&self, path: String, name: &str, size: u64) -> (r: Option<CleanItem>)
        ensures
            r is Some <==> size > 1048576,
            r is Some ==> ({
                let it = r->0;
                &&& it.path@ == path@
                &&& it.size == size
                &&& it.description@ == "Log file: "@ + name@
                &&& it.risk_level == RiskLevel::Low
                &&& it.category == Category::MacApps
            }),
    {
        if size <= 1048576 {
            return None;
        }
        let mut desc = String::from_str("Log file: ");
        desc.append(name);
        Some(CleanItem::new(path, size, desc, self.risk_level(), self.category()))
    }
}

} // verus!
