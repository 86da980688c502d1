use vstd::prelude::*;
use super::{Category, CleanItem, CleanRule, Locations, RiskLevel, Rule};
use super::entries::{EntryScan, entry_scan, scan_is};
use crate::text::{join, joined, str_views, views};

verus! {

/// Homebrew cache rule
pub struct HomebrewRule;

/// The paths that `HomebrewRule` inspects.
pub open spec fn homebrew_paths(env: Locations) -> Seq<Seq<char>> {
    (if env.home is Some { seq![joined(env.home->0@, "Library/Caches/Homebrew"@)] } else { seq![] })
}

impl CleanRule for HomebrewRule {
    fn name(&self) -> (r: &'static str)
        ensures
            r@ == "Homebrew Cache"@,
    {
        "Homebrew Cache"
    }

    fn category(&self) -> (r: Category)
        ensures
            r == Category::Brew,
    {
        Category::Brew
    }

    fn risk_level(&self) -> (r: RiskLevel)
        ensures
            r == RiskLevel::Low,
    {
        RiskLevel::Low
    }

    fn description(&self) -> (r: &'static str)
        ensures
            r@ == "Homebrew downloaded packages and caches"@,
    {
        "Homebrew downloaded packages and caches"
    }

    fn scan_paths(&self, env: &Locations) -> (r: Vec<String>)
        ensures
            views(r@) == homebrew_paths(*env),
    {
        let mut paths: Vec<String> = Vec::new();
        if let Some(base) = &env.home {
            paths.push(join(base.as_str(), "Library/Caches/Homebrew"));
        }
        proof {
            assert(views(paths@) =~= homebrew_paths(*env));
        }
        paths
    }
}

impl HomebrewRule {
    /// The item for a scanned path of this rule holding `size` bytes, where
    /// the size is over the rule's threshold.
    pub fn item_for(&self, path: String, size: u64) -> (r: Option<CleanItem>)
        ensures
            r is Some <==> size > 0,
            r is Some ==> ({
                let it = r->0;
                &&& it.path@ == path@
                &&& it.size == size
                &&& it.description@ == ("Homebrew download cache"@)
                &&& it.risk_level == (RiskLevel::Low)
                &&& it.category == Category::Brew
                &&& it.last_modified is None
            }),
    {
        if size > 0 {
            let desc = "Homebrew download cache";
            let risk = self.risk_level();
            Some(CleanItem::new(path, size, String::from_str(desc), risk, self.category()))
        } else {
            None
        }
    }
}

/// Xcode DerivedData rule
pub struct XcodeDerivedDataRule;

/// The paths that `XcodeDerivedDataRule` inspects.
pub open spec fn xcode_derived_data_paths(env: Locations) -> Seq<Seq<char>> {
    (if env.home is Some { seq![joined(env.home->0@, "Library/Developer/Xcode/DerivedData"@)] } else { seq![] })
}

impl CleanRule for XcodeDerivedDataRule {
    fn name(&self) -> (r: &'static str)
        ensures
            r@ == "Xcode DerivedData"@,
    {
        "Xcode DerivedData"
    }

    fn category(&self) -> (r: Category)
        ensures
            r == Category::Xcode,
    {
        Category::Xcode
    }

    fn risk_level(&self) -> (r: RiskLevel)
        ensures
            r == RiskLevel::Low,
    {
        RiskLevel::Low
    }

    fn description(&self) -> (r: &'static str)
        ensures
            r@ == "Xcode build artifacts and intermediate files"@,
    {
        "Xcode build artifacts and intermediate files"
    }

    fn scan_paths(&self, env: &Locations) -> (r: Vec<String>)
        ensures
            views(r@) == xcode_derived_data_paths(*env),
    {
        let mut paths: Vec<String> = Vec::new();
        if let Some(base) = &env.home {
            paths.push(join(base.as_str(), "Library/Developer/Xcode/DerivedData"));
        }
        proof {
            assert(views(paths@) =~= xcode_derived_data_paths(*env));
        }
        paths
    }
}

/// Xcode Archives rule
pub struct XcodeArchivesRule;

/// The paths that `XcodeArchivesRule` inspects.
pub open spec fn xcode_archives_paths(env: Locations) -> Seq<Seq<char>> {
    (if env.home is Some { seq![joined(env.home->0@, "Library/Developer/Xcode/Archives"@)] } else { seq![] })
}

impl CleanRule for XcodeArchivesRule {
    fn name(&self) -> (r: &'static str)
        ensures
            r@ == "Xcode Archives"@,
    {
        "Xcode Archives"
    }

    fn category(&self) -> (r: Category)
        ensures
            r == Category::Xcode,
    {
        Category::Xcode
    }

    fn risk_level(&self) -> (r: RiskLevel)
        ensures
            r == RiskLevel::Medium,
    {
        RiskLevel::Medium
    }

    fn description(&self) -> (r: &'static str)
        ensures
            r@ == "Old Xcode archive files"@,
    {
        "Old Xcode archive files"
    }

    fn scan_paths(&self, env: &Locations) -> (r: Vec<String>)
        ensures
            views(r@) == xcode_archives_paths(*env),
    {
        let mut paths: Vec<String> = Vec::new();
        if let Some(base) = &env.home {
            paths.push(join(base.as_str(), "Library/Developer/Xcode/Archives"));
        }
        proof {
            assert(views(paths@) =~= xcode_archives_paths(*env));
        }
        paths
    }
}

impl XcodeArchivesRule {
    /// The item for a scanned path of this rule holding `size` bytes, where
    /// the size is over the rule's threshold.
    pub fn item_for(&self, path: String, size: u64) -> (r: Option<CleanItem>)
        ensures
            r is Some <==> size > 0,
            r is Some ==> ({
                let it = r->0;
                &&& it.path@ == path@
                &&& it.size == size
                &&& it.description@ == ("Xcode archive files"@)
                &&& it.risk_level == (RiskLevel::Medium)
                &&& it.category == Category::Xcode
                &&& it.last_modified is None
            }),
    {
        if size > 0 {
            let desc = "Xcode archive files";
            let risk = self.risk_level();
            Some(CleanItem::new(path, size, String::from_str(desc), risk, self.category()))
        } else {
            None
        }
    }
}

/// Xcode Device Support rule
pub struct XcodeDeviceSupportRule;

/// The paths that `XcodeDeviceSupportRule` inspects.
pub open spec fn xcode_device_support_paths(env: Locations) -> Seq<Seq<char>> {
    (if env.home is Some { seq![joined(env.home->0@, "Library/Developer/Xcode/iOS DeviceSupport"@), joined(env.home->0@, "Library/Developer/Xcode/watchOS DeviceSupport"@)] } else { seq![] })
}

impl CleanRule for XcodeDeviceSupportRule {
    fn name(&self) -> (r: &'static str)
        ensures
            r@ == "Xcode Device Support"@,
    {
        "Xcode Device Support"
    }

    fn category(&self) -> (r: Category)
        ensures
            r == Category::Xcode,
    {
        Category::Xcode
    }

    fn risk_level(&self) -> (r: RiskLevel)
        ensures
            r == RiskLevel::Medium,
    {
        RiskLevel::Medium
    }

    fn description(&self) -> (r: &'static str)
        ensures
            r@ == "iOS/watchOS device support files for debugging"@,
    {
        "iOS/watchOS device support files for debugging"
    }

    fn scan_paths(&self, env: &Locations) -> (r: Vec<String>)
        ensures
            views(r@) == xcode_device_support_paths(*env),
    {
        let mut paths: Vec<String> = Vec::new();
        if let Some(base) = &env.home {
            paths.push(join(base.as_str(), "Library/Developer/Xcode/iOS DeviceSupport"));
            paths.push(join(base.as_str(), "Library/Developer/Xcode/watchOS DeviceSupport"));
        }
        proof {
            assert(views(paths@) =~= xcode_device_support_paths(*env));
        }
        paths
    }
}

impl XcodeDeviceSupportRule {
    /// The item for a scanned path of this rule holding `size` bytes, where
    /// the size is over the rule's threshold.
    pub fn item_for(&self, path: String, size: u64) -> (r: Option<CleanItem>)
        ensures
            r is Some <==> size > 0,
            r is Some ==> ({
                let it = r->0;
                &&& it.path@ == path@
                &&& it.size == size
                &&& it.description@ == ("Device support symbols"@)
                &&& it.risk_level == (RiskLevel::Medium)
                &&& it.category == Category::Xcode
                &&& it.last_modified is None
            }),
    {
        if size > 0 {
            let desc = "Device support symbols";
            let risk = self.risk_level();
            Some(CleanItem::new(path, size, String::from_str(desc), risk, self.category()))
        } else {
            None
        }
    }
}

/// CocoaPods cache rule
pub struct CocoaPodsRule;

/// The paths that `CocoaPodsRule` inspects.
pub open spec fn cocoa_pods_paths(env: Locations) -> Seq<Seq<char>> {
    (if env.home is Some { seq![joined(env.home->0@, "Library/Caches/CocoaPods"@)] } else { seq![] })
}

impl CleanRule for CocoaPodsRule {
    fn name(&self) -> (r: &'static str)
        ensures
            r@ == "CocoaPods Cache"@,
    {
        "CocoaPods Cache"
    }

    fn category(&self) -> (r: Category)
        ensures
            r == Category::Xcode,
    {
        Category::Xcode
    }

    fn risk_level(&self) -> (r: RiskLevel)
        ensures
            r == RiskLevel::Low,
    {
        RiskLevel::Low
    }

    fn description(&self) -> (r: &'static str)
        ensures
            r@ == "CocoaPods spec and download cache"@,
    {
        "CocoaPods spec and download cache"
    }

    fn scan_paths(&self, env: &Locations) -> (r: Vec<String>)
        ensures
            views(r@) == cocoa_pods_paths(*env),
    {
        let mut paths: Vec<String> = Vec::new();
        if let Some(base) = &env.home {
            paths.push(join(base.as_str(), "Library/Caches/CocoaPods"));
        }
        proof {
            assert(views(paths@) =~= cocoa_pods_paths(*env));
        }
        paths
    }
}

impl CocoaPodsRule {
    /// The item for a scanned path of this rule holding `size` bytes, where
    /// the size is over the rule's threshold.
    pub fn item_for(&self, path: String, size: u64) -> (r: Option<CleanItem>)
        ensures
            r is Some <==> size > 0,
            r is Some ==> ({
                let it = r->0;
                &&& it.path@ == path@
                &&& it.size == size
                &&& it.description@ == ("CocoaPods cache"@)
                &&& it.risk_level == (RiskLevel::Low)
                &&& it.category == Category::Xcode
                &&& it.last_modified is None
            }),
    {
        if size > 0 {
            let desc = "CocoaPods cache";
            let risk = self.risk_level();
            Some(CleanItem::new(path, size, String::from_str(desc), risk, self.category()))
        } else {
            None
        }
    }
}

/// iOS Simulator rule
pub struct SimulatorRule;

/// The paths that `SimulatorRule` inspects.
pub open spec fn simulator_paths(env: Locations) -> Seq<Seq<char>> {
    (if env.home is Some { seq![joined(env.home->0@, "Library/Developer/CoreSimulator/Devices"@)] } else { seq![] })
}

impl CleanRule for SimulatorRule {
    fn name(&self) -> (r: &'static str)
        ensures
            r@ == "iOS Simulators"@,
    {
        "iOS Simulators"
    }

    fn category(&self) -> (r: Category)
        ensures
            r == Category::Xcode,
    {
        Category::Xcode
    }

    fn risk_level(&self) -> (r: RiskLevel)
        ensures
            r == RiskLevel::High,
    {
        RiskLevel::High
    }

    fn description(&self) -> (r: &'static str)
        ensures
            r@ == "iOS/watchOS/tvOS simulator data"@,
    {
        "iOS/watchOS/tvOS simulator data"
    }

    fn scan_paths(&self, env: &Locations) -> (r: Vec<String>)
        ensures
            views(r@) == simulator_paths(*env),
    {
        let mut paths: Vec<String> = Vec::new();
        if let Some(base) = &env.home {
            paths.push(join(base.as_str(), "Library/Developer/CoreSimulator/Devices"));
        }
        proof {
            assert(views(paths@) =~= simulator_paths(*env));
        }
        paths
    }
}

impl SimulatorRule {
    /// The item for a scanned path of this rule holding `size` bytes, where
    /// the size is over the rule's threshold.
    pub fn item_for(&self, path: String, size: u64) -> (r: Option<CleanItem>)
        ensures
            r is Some <==> size > 0,
            r is Some ==> ({
                let it = r->0;
                &&& it.path@ == path@
                &&& it.size == size
                &&& it.description@ == ("iOS Simulator data (will reset all simulators)"@)
                &&& it.risk_level == (RiskLevel::High)
                &&& it.category == Category::Xcode
                &&& it.last_modified is None
            }),
    {
        if size > 0 {
            let desc = "iOS Simulator data (will reset all simulators)";
            let risk = self.risk_level();
            Some(CleanItem::new(path, size, String::from_str(desc), risk, self.category()))
        } else {
            None
        }
    }
}

/// macOS Cache rule
pub struct MacOSCacheRule;

/// The paths that `MacOSCacheRule` inspects.
pub open spec fn macos_cache_paths(env: Locations) -> Seq<Seq<char>> {
    (if env.home is Some { seq![joined(env.home->0@, "Library/Caches"@)] } else { seq![] })
}

impl CleanRule for MacOSCacheRule {
    fn name(&self) -> (r: &'static str)
        ensures
            r@ == "macOS User Caches"@,
    {
        "macOS User Caches"
    }

    fn category(&self) -> (r: Category)
        ensures
            r == Category::System,
    {
        Category::System
    }

    fn risk_level(&self) -> (r: RiskLevel)
        ensures
            r == RiskLevel::Low,
    {
        RiskLevel::Low
    }

    fn description(&self) -> (r: &'static str)
        ensures
            r@ == "User application caches in ~/Library/Caches"@,
    {
        "User application caches in ~/Library/Caches"
    }

    fn scan_paths(&self, env: &Locations) -> (r: Vec<String>)
        ensures
            views(r@) == macos_cache_paths(*env),
    {
        let mut paths: Vec<String> = Vec::new();
        if let Some(base) = &env.home {
            paths.push(join(base.as_str(), "Library/Caches"));
        }
        proof {
            assert(views(paths@) =~= macos_cache_paths(*env));
        }
        paths
    }
}

/// macOS Logs rule
pub struct MacOSLogsRule;

/// The paths that `MacOSLogsRule` inspects.
pub open spec fn macos_logs_paths(env: Locations) -> Seq<Seq<char>> {
    (if env.home is Some { seq![joined(env.home->0@, "Library/Logs"@)] } else { seq![] })
}

impl CleanRule for MacOSLogsRule {
    fn name(&self) -> (r: &'static str)
        ensures
            r@ == "macOS User Logs"@,
    {
        "macOS User Logs"
    }

    fn category(&self) -> (r: Category)
        ensures
            r == Category::System,
    {
        Category::System
    }

    fn risk_level(&self) -> (r: RiskLevel)
        ensures
            r == RiskLevel::Low,
    {
        RiskLevel::Low
    }

    fn description(&self) -> (r: &'static str)
        ensures
            r@ == "User application logs in ~/Library/Logs"@,
    {
        "User application logs in ~/Library/Logs"
    }

    fn scan_paths(&self, env: &Locations) -> (r: Vec<String>)
        ensures
            views(r@) == macos_logs_paths(*env),
    {
        let mut paths: Vec<String> = Vec::new();
        if let Some(base) = &env.home {
            paths.push(join(base.as_str(), "Library/Logs"));
        }
        proof {
            assert(views(paths@) =~= macos_logs_paths(*env));
        }
        paths
    }
}

impl MacOSLogsRule {
    /// The item for a scanned path of this rule holding `size` bytes, where
    /// the size is over the rule's threshold.
    pub fn item_for(&self, path: String, size: u64) -> (r: Option<CleanItem>)
        ensures
            r is Some <==> size > 0,
            r is Some ==> ({
                let it = r->0;
                &&& it.path@ == path@
                &&& it.size == size
                &&& it.description@ == ("User application logs"@)
                &&& it.risk_level == (RiskLevel::Low)
                &&& it.category == Category::System
                &&& it.last_modified is None
            }),
    {
        if size > 0 {
            let desc = "User application logs";
            let risk = self.risk_level();
            Some(CleanItem::new(path, size, String::from_str(desc), risk, self.category()))
        } else {
            None
        }
    }
}

/// The rules of `get_macos_rules`, in catalog order.
pub open spec fn macos_rules_spec() -> Seq<Rule> {
    seq![Rule::Homebrew(HomebrewRule), Rule::XcodeDerivedData(XcodeDerivedDataRule), Rule::XcodeArchives(XcodeArchivesRule), Rule::XcodeDeviceSupport(XcodeDeviceSupportRule), Rule::CocoaPods(CocoaPodsRule), Rule::Simulator(SimulatorRule), Rule::MacOSCache(MacOSCacheRule), Rule::MacOSLogs(MacOSLogsRule)]
}

/// The rules for macOS system and Xcode caches.
pub fn get_macos_rules() -> (r: Vec<Rule>)
    ensures
        r@ == macos_rules_spec(),
{
    let r: Vec<Rule> = vec![Rule::Homebrew(HomebrewRule), Rule::XcodeDerivedData(XcodeDerivedDataRule), Rule::XcodeArchives(XcodeArchivesRule), Rule::XcodeDeviceSupport(XcodeDeviceSupportRule), Rule::CocoaPods(CocoaPodsRule), Rule::Simulator(SimulatorRule), Rule::MacOSCache(MacOSCacheRule), Rule::MacOSLogs(MacOSLogsRule)];
    assert(r@ =~= macos_rules_spec());
    r
}

impl XcodeDerivedDataRule {
    /// How this rule finds its items below its scan paths.
    pub fn entry_scan(&self) -> (r: EntryScan)
        ensures
            scan_is(r, seq![], seq![], seq![""@], 0, "Xcode build data for "@, ""@),
    {
        let skip_containing: Vec<&'static str> = vec![];
        let skip_starting: Vec<&'static str> = vec![];
        let subpaths: Vec<&'static str> = vec![""];
        let r = entry_scan(skip_containing, skip_starting, subpaths, 0, "Xcode build data for ", "");
        assert(str_views(r.skip_containing@) =~= seq![]);
        assert(str_views(r.skip_starting@) =~= seq![]);
        assert(str_views(r.subpaths@) =~= seq![""@]);
        r
    }
}

impl MacOSCacheRule {
    /// How this rule finds its items below its scan paths.
    pub fn entry_scan(&self) -> (r: EntryScan)
        ensures
            scan_is(r, seq![], seq!["com.apple."@, "CloudKit"@, "FamilyCircle"@], seq![""@], 1048576, "Cache for "@, ""@),
    {
        let skip_containing: Vec<&'static str> = vec![];
        let skip_starting: Vec<&'static str> = vec!["com.apple.", "CloudKit", "FamilyCircle"];
        let subpaths: Vec<&'static str> = vec![""];
        let r = entry_scan(skip_containing, skip_starting, subpaths, 1048576, "Cache for ", "");
        assert(str_views(r.skip_containing@) =~= seq![]);
        assert(str_views(r.skip_starting@) =~= seq!["com.apple."@, "CloudKit"@, "FamilyCircle"@]);
        assert(str_views(r.subpaths@) =~= seq![""@]);
        r
    }
}

} // verus!
