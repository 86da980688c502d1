use vstd::prelude::*;

verus! {

/// All settings.
pub struct Config {
    pub general: GeneralConfig,
    pub categories: CategoryConfig,
    pub heuristic: HeuristicConfig,
    pub risk: RiskConfig,
    pub ignore: IgnoreConfig,
}

/// General settings.
pub struct GeneralConfig {
    /// Move to the trash rather than delete.
    pub use_trash: bool,
    /// Scan hidden files.
    pub scan_hidden: bool,
    /// Worker threads; 0 chooses automatically.
    pub parallel_threads: usize,
    /// Ask before high-risk cleanups.
    pub confirm_high_risk: bool,
}

/// Which categories are cleaned.
pub struct CategoryConfig {
    pub enabled: Vec<String>,
}

/// Settings of the heuristic detection.
pub struct HeuristicConfig {
    pub enabled: bool,
    /// Size in MiB from which a directory counts as a large cache.
    pub size_threshold_mb: u64,
    /// Age in days after which an entry counts as stale.
    pub stale_days: u32,
}

/// Which risk levels ask for confirmation.
pub struct RiskConfig {
    pub confirm_high_risk: bool,
    pub confirm_medium_risk: bool,
}

/// Paths left out of scans.
pub struct IgnoreConfig {
    pub paths: Vec<String>,
}

/// The categories enabled by default.
pub open spec fn default_categories() -> Seq<Seq<char>> {
    seq!["system"@, "brew"@, "xcode"@, "npm"@, "pip"@, "cargo"@, "docker"@]
}

impl Default for GeneralConfig {
    fn default() -> (r: GeneralConfig)
        ensures
            r.use_trash,
            r.scan_hidden,
            r.parallel_threads == 0,
            r.confirm_high_risk,
    {
        GeneralConfig { use_trash: true, scan_hidden: true, parallel_threads: 0, confirm_high_risk: true }
    }
}

impl Default for CategoryConfig {
    fn default() -> (r: CategoryConfig)
        ensures
            r.enabled@.map_values(|s: String| s@) == default_categories(),
    {
        let enabled: Vec<String> = vec![
            String::from_str("system"),
            String::from_str("brew"),
            String::from_str("xcode"),
            String::from_str("npm"),
            String::from_str("pip"),
            String::from_str("cargo"),
            String::from_str("docker"),
        ];
        assert(enabled@.map_values(|s: String| s@) =~= default_categories());
        CategoryConfig { enabled }
    }
}

impl Default for HeuristicConfig {
    fn default() -> (r: HeuristicConfig)
        ensures
            r.enabled,
            r.size_threshold_mb == 100,
            r.stale_days == 30,
    {
        HeuristicConfig { enabled: true, size_threshold_mb: 100, stale_days: 30 }
    }
}

impl Default for RiskConfig {
    fn default() -> (r: RiskConfig)
        ensures
            r.confirm_high_risk,
            !r.confirm_medium_risk,
    {
        RiskConfig { confirm_high_risk: true, confirm_medium_risk: false }
    }
}

impl Default for IgnoreConfig {
    fn default() -> (r: IgnoreConfig)
        ensures
            r.paths@.len() == 0,
    {
        IgnoreConfig { paths: Vec::new() }
    }
}

impl Default for Config {
    fn default() -> (r: Config)
        ensures
            r.general.use_trash && r.general.scan_hidden && r.general.parallel_threads == 0
                && r.general.confirm_high_risk,
            r.categories.enabled@.map_values(|s: String| s@) == default_categories(),
            r.heuristic.enabled && r.heuristic.size_threshold_mb == 100 && r.heuristic.stale_days == 30,
            r.risk.confirm_high_risk && !r.risk.confirm_medium_risk,
            r.ignore.paths@.len() == 0,
    {
        Config {
            general: GeneralConfig::default(),
            categories: CategoryConfig::default(),
            heuristic: HeuristicConfig::default(),
            risk: RiskConfig::default(),
            ignore: IgnoreConfig::default(),
        }
    }
}

} // verus!
