use vstd::prelude::*;
use super::{Category, CleanItem, CleanRule, Locations, RiskLevel, Rule};
use super::entries::{EntryScan, entry_scan, scan_is};
use crate::stats::{extension, extension_of};
use crate::text::{decimal, join, joined, push_decimal, same_text, str_views, views};

verus! {

/// APT cache rule (Debian/Ubuntu)
pub struct AptCacheRule;

/// The paths that `AptCacheRule` inspects.
pub open spec fn apt_cache_paths(env: Locations) -> Seq<Seq<char>> {
    seq!["/var/cache/apt/archives"@]
}

impl CleanRule for AptCacheRule {
    fn name(&self) -> (r: &'static str)
        ensures
            r@ == "APT Package Cache"@,
    {
        "APT Package Cache"
    }

    fn category(&self) -> (r: Category)
        ensures
            r == Category::LinuxPackages,
    {
        Category::LinuxPackages
    }

    fn risk_level(&self) -> (r: RiskLevel)
        ensures
            r == RiskLevel::Low,
    {
        RiskLevel::Low
    }

    fn description(&self) -> (r: &'static str)
        ensures
            r@ == "Downloaded package files from APT (Debian/Ubuntu)"@,
    {
        "Downloaded package files from APT (Debian/Ubuntu)"
    }

    fn scan_paths(&self, env: &Locations) -> (r: Vec<String>)
        ensures
            views(r@) == apt_cache_paths(*env),
    {
        let mut paths: Vec<String> = Vec::new();
        paths.push(String::from_str("/var/cache/apt/archives"));
        proof {
            assert(views(paths@) =~= apt_cache_paths(*env));
        }
        paths
    }
}

/// DNF/YUM cache rule (Fedora/RHEL)
pub struct DnfCacheRule;

/// The paths that `DnfCacheRule` inspects.
pub open spec fn dnf_cache_paths(env: Locations) -> Seq<Seq<char>> {
    seq!["/var/cache/dnf"@, "/var/cache/yum"@]
}

impl CleanRule for DnfCacheRule {
    fn name(&self) -> (r: &'static str)
        ensures
            r@ == "DNF/YUM Package Cache"@,
    {
        "DNF/YUM Package Cache"
    }

    fn category(&self) -> (r: Category)
        ensures
            r == Category::LinuxPackages,
    {
        Category::LinuxPackages
    }

    fn risk_level(&self) -> (r: RiskLevel)
        ensures
            r == RiskLevel::Low,
    {
        RiskLevel::Low
    }

    fn description(&self) -> (r: &'static str)
        ensures
            r@ == "Downloaded package files from DNF/YUM (Fedora/RHEL)"@,
    {
        "Downloaded package files from DNF/YUM (Fedora/RHEL)"
    }

    fn scan_paths(&self, env: &Locations) -> (r: Vec<String>)
        ensures
            views(r@) == dnf_cache_paths(*env),
    {
        let mut paths: Vec<String> = Vec::new();
        paths.push(String::from_str("/var/cache/dnf"));
        paths.push(String::from_str("/var/cache/yum"));
        proof {
            assert(views(paths@) =~= dnf_cache_paths(*env));
        }
        paths
    }
}

impl DnfCacheRule {
    /// The item for a scanned path of this rule holding `size` bytes, where
    /// the size is over the rule's threshold.
    pub fn item_for(&self, path: String, size: u64) -> (r: Option<CleanItem>)
        ensures
            r is Some <==> size > 0,
            r is Some ==> ({
                let it = r->0;
                &&& it.path@ == path@
                &&& it.size == size
                &&& it.description@ == ("DNF/YUM package cache"@)
                &&& it.risk_level == (RiskLevel::Low)
                &&& it.category == Category::LinuxPackages
                &&& it.last_modified is None
            }),
    {
        if size > 0 {
            let desc = "DNF/YUM package cache";
            let risk = self.risk_level();
            Some(CleanItem::new(path, size, String::from_str(desc), risk, self.category()))
        } else {
            None
        }
    }
}

/// Pacman cache rule (Arch Linux)
pub struct PacmanCacheRule;

/// The paths that `PacmanCacheRule` inspects.
pub open spec fn pacman_cache_paths(env: Locations) -> Seq<Seq<char>> {
    seq!["/var/cache/pacman/pkg"@]
}

impl CleanRule for PacmanCacheRule {
    fn name(&self) -> (r: &'static str)
        ensures
            r@ == "Pacman Package Cache"@,
    {
        "Pacman Package Cache"
    }

    fn category(&self) -> (r: Category)
        ensures
            r == Category::LinuxPackages,
    {
        Category::LinuxPackages
    }

    fn risk_level(&self) -> (r: RiskLevel)
        ensures
            r == RiskLevel::Medium,
    {
        RiskLevel::Medium
    }

    fn description(&self) -> (r: &'static str)
        ensures
            r@ == "Downloaded package files from Pacman (Arch Linux)"@,
    {
        "Downloaded package files from Pacman (Arch Linux)"
    }

    fn scan_paths(&self, env: &Locations) -> (r: Vec<String>)
        ensures
            views(r@) == pacman_cache_paths(*env),
    {
        let mut paths: Vec<String> = Vec::new();
        paths.push(String::from_str("/var/cache/pacman/pkg"));
        proof {
            assert(views(paths@) =~= pacman_cache_paths(*env));
        }
        paths
    }
}

impl PacmanCacheRule {
    /// The item for a scanned path of this rule holding `size` bytes, where
    /// the size is over the rule's threshold.
    pub fn item_for(&self, path: String, size: u64) -> (r: Option<CleanItem>)
        ensures
            r is Some <==> size > 0,
            r is Some ==> ({
                let it = r->0;
                &&& it.path@ == path@
                &&& it.size == size
                &&& it.description@ == ("Pacman package cache"@)
                &&& it.risk_level == (RiskLevel::Medium)
                &&& it.category == Category::LinuxPackages
                &&& it.last_modified is None
            }),
    {
        if size > 0 {
            let desc = "Pacman package cache";
            let risk = self.risk_level();
            Some(CleanItem::new(path, size, String::from_str(desc), risk, self.category()))
        } else {
            None
        }
    }
}

/// Snap cache rule
pub struct SnapCacheRule;

/// The paths that `SnapCacheRule` inspects.
pub open spec fn snap_cache_paths(env: Locations) -> Seq<Seq<char>> {
    (if env.home is Some { seq![joined(env.home->0@, "snap"@)] } else { seq![] })
}

impl CleanRule for SnapCacheRule {
    fn name(&self) -> (r: &'static str)
        ensures
            r@ == "Snap Cache"@,
    {
        "Snap Cache"
    }

    fn category(&self) -> (r: Category)
        ensures
            r == Category::LinuxPackages,
    {
        Category::LinuxPackages
    }

    fn risk_level(&self) -> (r: RiskLevel)
        ensures
            r == RiskLevel::Low,
    {
        RiskLevel::Low
    }

    fn description(&self) -> (r: &'static str)
        ensures
            r@ == "Cache files for Snap applications"@,
    {
        "Cache files for Snap applications"
    }

    fn scan_paths(&self, env: &Locations) -> (r: Vec<String>)
        ensures
            views(r@) == snap_cache_paths(*env),
    {
        let mut paths: Vec<String> = Vec::new();
        if let Some(base) = &env.home {
            paths.push(join(base.as_str(), "snap"));
        }
        proof {
            assert(views(paths@) =~= snap_cache_paths(*env));
        }
        paths
    }
}

/// Flatpak cache rule
pub struct FlatpakCacheRule;

/// The paths that `FlatpakCacheRule` inspects.
pub open spec fn flatpak_cache_paths(env: Locations) -> Seq<Seq<char>> {
    (if env.home is Some { seq![joined(env.home->0@, ".var/app"@)] } else { seq![] })
}

impl CleanRule for FlatpakCacheRule {
    fn name(&self) -> (r: &'static str)
        ensures
            r@ == "Flatpak Cache"@,
    {
        "Flatpak Cache"
    }

    fn category(&self) -> (r: Category)
        ensures
            r == Category::LinuxPackages,
    {
        Category::LinuxPackages
    }

    fn risk_level(&self) -> (r: RiskLevel)
        ensures
            r == RiskLevel::Low,
    {
        RiskLevel::Low
    }

    fn description(&self) -> (r: &'static str)
        ensures
            r@ == "Cache files for Flatpak applications"@,
    {
        "Cache files for Flatpak applications"
    }

    fn scan_paths(&self, env: &Locations) -> (r: Vec<String>)
        ensures
            views(r@) == flatpak_cache_paths(*env),
    {
        let mut paths: Vec<String> = Vec::new();
        if let Some(base) = &env.home {
            paths.push(join(base.as_str(), ".var/app"));
        }
        proof {
            assert(views(paths@) =~= flatpak_cache_paths(*env));
        }
        paths
    }
}

/// Systemd journal logs rule
pub struct JournalLogsRule;

/// The paths that `JournalLogsRule` inspects.
pub open spec fn journal_logs_paths(env: Locations) -> Seq<Seq<char>> {
    seq!["/var/log/journal"@]
}

impl CleanRule for JournalLogsRule {
    fn name(&self) -> (r: &'static str)
        ensures
            r@ == "Systemd Journal Logs"@,
    {
        "Systemd Journal Logs"
    }

    fn category(&self) -> (r: Category)
        ensures
            r == Category::System,
    {
        Category::System
    }

    fn risk_level(&self) -> (r: RiskLevel)
        ensures
            r == RiskLevel::Medium,
    {
        RiskLevel::Medium
    }

    fn description(&self) -> (r: &'static str)
        ensures
            r@ == "Systemd journal log files"@,
    {
        "Systemd journal log files"
    }

    fn scan_paths(&self, env: &Locations) -> (r: Vec<String>)
        ensures
            views(r@) == journal_logs_paths(*env),
    {
        let mut paths: Vec<String> = Vec::new();
        paths.push(String::from_str("/var/log/journal"));
        proof {
            assert(views(paths@) =~= journal_logs_paths(*env));
        }
        paths
    }
}

impl JournalLogsRule {
    /// The item for a scanned path of this rule holding `size` bytes, where
    /// the size is over the rule's threshold.
    pub fn item_for(&self, path: String, size: u64) -> (r: Option<CleanItem>)
        ensures
            r is Some <==> size > 104857600,
            r is Some ==> ({
                let it = r->0;
                &&& it.path@ == path@
                &&& it.size == size
                &&& it.description@ == ("Systemd journal logs (consider using journalctl --vacuum-size)"@)
                &&& it.risk_level == (RiskLevel::Medium)
                &&& it.category == Category::System
                &&& it.last_modified is None
            }),
    {
        if size > 104857600 {
            let desc = "Systemd journal logs (consider using journalctl --vacuum-size)";
            let risk = self.risk_level();
            Some(CleanItem::new(path, size, String::from_str(desc), risk, self.category()))
        } else {
            None
        }
    }
}

/// User cache rule (~/.cache)
pub struct UserCacheRule;

/// The paths that `UserCacheRule` inspects.
pub open spec fn user_cache_paths(env: Locations) -> Seq<Seq<char>> {
    (if env.cache is Some { seq![env.cache->0@] } else { seq![] })
}

impl CleanRule for UserCacheRule {
    fn name(&self) -> (r: &'static str)
        ensures
            r@ == "User Cache Directory"@,
    {
        "User Cache Directory"
    }

    fn category(&self) -> (r: Category)
        ensures
            r == Category::System,
    {
        Category::System
    }

    fn risk_level(&self) -> (r: RiskLevel)
        ensures
            r == RiskLevel::Low,
    {
        RiskLevel::Low
    }

    fn description(&self) -> (r: &'static str)
        ensures
            r@ == "User cache directory (~/.cache)"@,
    {
        "User cache directory (~/.cache)"
    }

    fn scan_paths(&self, env: &Locations) -> (r: Vec<String>)
        ensures
            views(r@) == user_cache_paths(*env),
    {
        let mut paths: Vec<String> = Vec::new();
        if let Some(base) = &env.cache {
            paths.push(base.clone());
        }
        proof {
            assert(views(paths@) =~= user_cache_paths(*env));
        }
        paths
    }
}

/// The rules of `get_linux_rules`, in catalog order.
pub open spec fn linux_rules_spec() -> Seq<Rule> {
    seq![Rule::AptCache(AptCacheRule), Rule::DnfCache(DnfCacheRule), Rule::PacmanCache(PacmanCacheRule), Rule::SnapCache(SnapCacheRule), Rule::FlatpakCache(FlatpakCacheRule), Rule::JournalLogs(JournalLogsRule), Rule::UserCache(UserCacheRule)]
}

/// The rules for Linux package managers and system caches.
pub fn get_linux_rules() -> (r: Vec<Rule>)
    ensures
        r@ == linux_rules_spec(),
{
    let r: Vec<Rule> = vec![Rule::AptCache(AptCacheRule), Rule::DnfCache(DnfCacheRule), Rule::PacmanCache(PacmanCacheRule), Rule::SnapCache(SnapCacheRule), Rule::FlatpakCache(FlatpakCacheRule), Rule::JournalLogs(JournalLogsRule), Rule::UserCache(UserCacheRule)];
    assert(r@ =~= linux_rules_spec());
    r
}

impl SnapCacheRule {
    /// How this rule finds its items below its scan paths.
    pub fn entry_scan(&self) -> (r: EntryScan)
        ensures
            scan_is(r, seq![], seq![], seq!["common/.cache"@], 1048576, "Snap cache: "@, ""@),
    {
        let skip_containing: Vec<&'static str> = vec![];
        let skip_starting: Vec<&'static str> = vec![];
        let subpaths: Vec<&'static str> = vec!["common/.cache"];
        let r = entry_scan(skip_containing, skip_starting, subpaths, 1048576, "Snap cache: ", "");
        assert(str_views(r.skip_containing@) =~= seq![]);
        assert(str_views(r.skip_starting@) =~= seq![]);
        assert(str_views(r.subpaths@) =~= seq!["common/.cache"@]);
        r
    }
}

impl FlatpakCacheRule {
    /// How this rule finds its items below its scan paths.
    pub fn entry_scan(&self) -> (r: EntryScan)
        ensures
            scan_is(r, seq![], seq![], seq!["cache"@], 1048576, "Flatpak cache: "@, ""@),
    {
        let skip_containing: Vec<&'static str> = vec![];
        let skip_starting: Vec<&'static str> = vec![];
        let subpaths: Vec<&'static str> = vec!["cache"];
        let r = entry_scan(skip_containing, skip_starting, subpaths, 1048576, "Flatpak cache: ", "");
        assert(str_views(r.skip_containing@) =~= seq![]);
        assert(str_views(r.skip_starting@) =~= seq![]);
        assert(str_views(r.subpaths@) =~= seq!["cache"@]);
        r
    }
}

impl UserCacheRule {
    /// How this rule finds its items below its scan paths.
    pub fn entry_scan(&self) -> (r: EntryScan)
        ensures
            scan_is(r, seq!["pip"@, "npm"@, "yarn"@, "cargo"@, "go"@], seq![], seq![""@], 10485760, "Cache: "@, ""@),
    {
        let skip_containing: Vec<&'static str> = vec!["pip", "npm", "yarn", "cargo", "go"];
        let skip_starting: Vec<&'static str> = vec![];
        let subpaths: Vec<&'static str> = vec![""];
        let r = entry_scan(skip_containing, skip_starting, subpaths, 10485760, "Cache: ", "");
        assert(str_views(r.skip_containing@) =~= seq!["pip"@, "npm"@, "yarn"@, "cargo"@, "go"@]);
        assert(str_views(r.skip_starting@) =~= seq![]);
        assert(str_views(r.subpaths@) =~= seq![""@]);
        r
    }
}

impl AptCacheRule {
    /// Whether a file of the archive directory is a downloaded package.
    pub fn is_package(name: &str) -> (r: bool)
        ensures
            r == (extension_of(name@) == Some("deb"@)),
    {
        match extension(name) {
            Some(e) => same_text(e.as_str(), "deb"),
            None => false,
        }
    }

    /// The item for the archive directory holding `packages` packages of
    /// `total_size` bytes in all; none where they hold no bytes.
    pub fn archive_item(&self, path: String, total_size: u64, packages: u64) -> (r: Option<CleanItem>)
        ensures
            r is Some <==> total_size > 0,
            r is Some ==> ({
                let it = r->0;
                &&& it.path@ == path@
                &&& it.size == total_size
                &&& it.description@ == "APT cache ("@ + decimal(packages as nat) + " packages)"@
                &&& it.risk_level == RiskLevel::Low
                &&& it.category == Category::LinuxPackages
            }),
    {
        if total_size == 0 {
            return None;
        }
        let mut desc = String::from_str("APT cache (");
        push_decimal(&mut desc, packages);
        desc.append(" packages)");
        Some(CleanItem::new(path, total_size, desc, self.risk_level(), self.category()))
    }
}

} // verus!
