use vstd::prelude::*;

pub mod devtools;
pub mod catalog;
pub mod docker;
pub mod entries;
pub mod heuristic;
pub mod linux;
pub mod macos;
pub mod macos_apps;
pub mod misc;
pub mod trash;

pub use catalog::Rule;

use catalog::rule_category_label;
use devtools::{devtools_rules_spec, get_devtools_rules};
use docker::DockerRule;
use heuristic::{DEFAULT_SIZE_THRESHOLD, DEFAULT_STALE_DAYS, HeuristicRule};
use linux::{get_linux_rules, linux_rules_spec};
use macos::{get_macos_rules, macos_rules_spec};
use macos_apps::{get_macos_app_rules, macos_app_rules_spec};
use misc::DsStoreRule;
use trash::TrashRule;
use crate::text::{lower_of, lowercase};

verus! {

/// How much care cleaning an item calls for.
#[derive(Clone, Copy, Debug, PartialEq, Eq, Structural, PartialOrd, Ord, Hash)]
pub enum RiskLevel {
    /// Caches that can be deleted safely.
    Low,
    /// May slow an application down for a while.
    Medium,
    /// Asks for explicit confirmation.
    High,
}

impl RiskLevel {
    /// Display name.
    pub fn label(&self) -> (r: &'static str)
        ensures
            r@ == risk_label(*self),
    {
        match self {
            RiskLevel::Low => "Low",
            RiskLevel::Medium => "Medium",
            RiskLevel::High => "High",
        }
    }
}

pub open spec fn risk_label(r: RiskLevel) -> Seq<char> {
    match r {
        RiskLevel::Low => "Low"@,
        RiskLevel::Medium => "Medium"@,
        RiskLevel::High => "High"@,
    }
}

/// Group a rule belongs to.
#[derive(Clone, Debug, PartialEq, Eq, Hash)]
pub enum Category {
    System,
    Brew,
    Xcode,
    NodeJs,
    Python,
    Rust,
    Go,
    Java,
    Docker,
    Android,
    Heuristic,
    MacApps,
    LinuxPackages,
    /// Any other group, by name.
    Other(String),
}

pub open spec fn category_label(c: Category) -> Seq<char> {
    match c {
        Category::System => "System"@,
        Category::Brew => "Homebrew"@,
        Category::Xcode => "Xcode"@,
        Category::NodeJs => "Node.js"@,
        Category::Python => "Python"@,
        Category::Rust => "Rust"@,
        Category::Go => "Go"@,
        Category::Java => "Java"@,
        Category::Docker => "Docker"@,
        Category::Android => "Android"@,
        Category::Heuristic => "Heuristic"@,
        Category::MacApps => "macOS Apps"@,
        Category::LinuxPackages => "Linux Packages"@,
        Category::Other(name) => name@,
    }
}

impl Category {
    /// Display name.
    pub fn label(&self) -> (r: String)
        ensures
            r@ == category_label(*self),
    {
        match self {
            Category::System => String::from_str("System"),
            Category::Brew => String::from_str("Homebrew"),
            Category::Xcode => String::from_str("Xcode"),
            Category::NodeJs => String::from_str("Node.js"),
            Category::Python => String::from_str("Python"),
            Category::Rust => String::from_str("Rust"),
            Category::Go => String::from_str("Go"),
            Category::Java => String::from_str("Java"),
            Category::Docker => String::from_str("Docker"),
            Category::Android => String::from_str("Android"),
            Category::Heuristic => String::from_str("Heuristic"),
            Category::MacApps => String::from_str("macOS Apps"),
            Category::LinuxPackages => String::from_str("Linux Packages"),
            Category::Other(name) => name.clone(),
        }
    }
}

/// One thing that can be cleaned.
#[derive(Clone, Debug)]
pub struct CleanItem {
    pub path: String,
    /// Size in bytes.
    pub size: u64,
    pub description: String,
    pub risk_level: RiskLevel,
    pub category: Category,
    /// Last modification, as a Unix timestamp.
    pub last_modified: Option<i64>,
}

impl CleanItem {
    pub fn new(path: String, size: u64, description: String, risk_level: RiskLevel, category: Category) -> (r: CleanItem)
        ensures
            r.path@ == path@,
            r.size == size,
            r.description@ == description@,
            r.risk_level == risk_level,
            r.category == category,
            r.last_modified is None,
    {
        CleanItem { path, size, description, risk_level, category, last_modified: None }
    }

    pub fn with_last_modified(self, timestamp: i64) -> (r: CleanItem)
        ensures
            r.path == self.path,
            r.size == self.size,
            r.description == self.description,
            r.risk_level == self.risk_level,
            r.category == self.category,
            r.last_modified == Some(timestamp),
    {
        CleanItem { last_modified: Some(timestamp), ..self }
    }
}

/// Outcome of a cleanup.
#[derive(Clone, Debug)]
pub struct CleanResult {
    /// Items removed.
    pub cleaned_count: usize,
    /// Bytes removed.
    pub bytes_freed: u64,
    /// Items that could not be removed, with the reason.
    pub failed: Vec<(String, String)>,
    /// Whether the cleanup was called off.
    pub cancelled: bool,
}

impl Default for CleanResult {
    fn default() -> (r: CleanResult)
        ensures
            r.cleaned_count == 0,
            r.bytes_freed == 0,
            r.failed@.len() == 0,
            !r.cancelled,
    {
        CleanResult { cleaned_count: 0, bytes_freed: 0, failed: Vec::new(), cancelled: false }
    }
}

impl CleanResult {
    /// An empty result marked as called off.
    pub fn cancelled() -> (r: CleanResult)
        ensures
            r.cleaned_count == 0,
            r.bytes_freed == 0,
            r.failed@.len() == 0,
            r.cancelled,
    {
        CleanResult { cleaned_count: 0, bytes_freed: 0, failed: Vec::new(), cancelled: true }
    }

    /// Adds the counts and failures of `other` to this result.
    pub fn merge(&mut self, other: CleanResult)
        requires
            old(self).cleaned_count + other.cleaned_count <= usize::MAX,
            old(self).bytes_freed + other.bytes_freed <= u64::MAX,
        ensures
            final(self).cleaned_count == old(self).cleaned_count + other.cleaned_count,
            final(self).bytes_freed == old(self).bytes_freed + other.bytes_freed,
            final(self).failed@ == old(self).failed@ + other.failed@,
            final(self).cancelled == (old(self).cancelled || other.cancelled),
    {
        self.cleaned_count = self.cleaned_count + other.cleaned_count;
        self.bytes_freed = self.bytes_freed + other.bytes_freed;
        let mut more = other.failed;
        self.failed.append(&mut more);
        self.cancelled = self.cancelled || other.cancelled;
    }
}

/// The directories that the environment provides, as the scanning side
/// found them.
pub struct Locations {
    /// The user's home directory.
    pub home: Option<String>,
    /// The user's cache directory.
    pub cache: Option<String>,
    /// `GOPATH`, where set.
    pub gopath: Option<String>,
    /// `FLUTTER_ROOT`, where set.
    pub flutter_root: Option<String>,
    /// `PUB_CACHE`, where set.
    pub pub_cache: Option<String>,
}

/// A cleanup rule of the catalog: what it is called, its group and risk,
/// and where it looks.
pub trait CleanRule {
    fn name(&self) -> &'static str;

    fn category(&self) -> Category;

    fn risk_level(&self) -> RiskLevel;

    fn description(&self) -> &'static str;

    /// The paths this rule inspects, given the environment's directories.
    fn scan_paths(&self, env: &Locations) -> Vec<String>;
}

/// The operating system the catalog is assembled for.
#[derive(Clone, Copy, Debug, PartialEq, Eq, Structural)]
pub enum Platform {
    MacOs,
    Linux,
    Other,
}

/// The whole catalog for a platform, in order: the platform's own rules,
/// the development tools, then Docker, the trash, `.DS_Store` files and
/// the heuristic detector with its default thresholds.
pub open spec fn all_rules_spec(platform: Platform) -> Seq<Rule> {
    (if platform is MacOs { macos_rules_spec() + macos_app_rules_spec() } else { Seq::empty() })
        + (if platform is Linux { linux_rules_spec() } else { Seq::empty() })
        + devtools_rules_spec()
        + seq![
        Rule::Docker(DockerRule),
        Rule::Trash(TrashRule),
        Rule::DsStore(DsStoreRule),
        Rule::Heuristic(HeuristicRule { size_threshold: DEFAULT_SIZE_THRESHOLD, stale_days: DEFAULT_STALE_DAYS }),
    ]
}

/// Every rule available on `platform`.
pub fn get_all_rules(platform: Platform) -> (r: Vec<Rule>)
    ensures
        r@ == all_rules_spec(platform),
{
    let mut rules: Vec<Rule> = Vec::new();
    if let Platform::MacOs = platform {
        let mut more = get_macos_rules();
        rules.append(&mut more);
        let mut apps = get_macos_app_rules();
        rules.append(&mut apps);
    }
    if let Platform::Linux = platform {
        let mut more = get_linux_rules();
        rules.append(&mut more);
    }
    let mut tools = get_devtools_rules();
    rules.append(&mut tools);
    rules.push(Rule::Docker(DockerRule));
    rules.push(Rule::Trash(TrashRule));
    rules.push(Rule::DsStore(DsStoreRule));
    rules.push(Rule::Heuristic(HeuristicRule::default()));
    assert(rules@ =~= all_rules_spec(platform));
    rules
}

/// A rule is selected when the lowercased name of its category equals one
/// of the lowercased names asked for.
pub open spec fn selects(categories: Seq<String>) -> spec_fn(Rule) -> bool {
    |x: Rule| exists|i: int| 0 <= i < categories.len() && #[trigger] lower_of(categories[i]@) == lower_of(rule_category_label(x))
}

/// The rules of the catalog whose category is one of `categories`, compared
/// without regard to case, in catalog order.
pub fn get_rules_by_category(categories: &Vec<String>, platform: Platform) -> (r: Vec<Rule>)
    ensures
        r@ == all_rules_spec(platform).filter(selects(categories@)),
{
    let ghost all = all_rules_spec(platform);
    let ghost pred = selects(categories@);
    let mut rest = get_all_rules(platform);
    let total = rest.len();
    let mut out: Vec<Rule> = Vec::new();
    let mut k: usize = 0;
    assert(all.skip(0) =~= all);
    while rest.len() > 0
        invariant
            pred == selects(categories@),
            k <= all.len() == total,
            rest@ == all.skip(k as int),
            out@ == all.take(k as int).filter(pred),
        decreases rest@.len(),
    {
        let x = rest.remove(0);
        proof {
            assert(x == all[k as int]);
            assert(all.take(k + 1) =~= all.take(k as int).push(x));
            all.take(k as int).lemma_filter_push(x, pred);
            assert(rest@ =~= all.skip(k + 1));
        }
        let label = lowercase(x.category().label().as_str());
        let mut j: usize = 0;
        let mut found = false;
        while j < categories.len()
            invariant
                j <= categories@.len(),
                label@ == lower_of(rule_category_label(x)),
                found <==> exists|i: int| 0 <= i < j && #[trigger] lower_of(categories@[i]@) == label@,
            decreases categories@.len() - j,
        {
            if !found {
                let c = lowercase(categories[j].as_str());
                if c == label {
                    found = true;
                }
            }
            j = j + 1;
        }
        if found {
            out.push(x);
        }
        k = k + 1;
    }
    proof {
        assert(all.take(k as int) =~= all);
    }
    out
}

} // verus!
