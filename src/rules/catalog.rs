use vstd::prelude::*;
use super::{Category, CleanRule, Locations, RiskLevel, category_label};
use super::devtools::{
    NpmCacheRule, YarnCacheRule, PnpmCacheRule, PipCacheRule, UvCacheRule, CondaCacheRule,
    CargoCacheRule, CargoTargetRule, GoCacheRule, GradleCacheRule, MavenCacheRule,
    AndroidCacheRule, DockerCacheRule, VSCodeCacheRule, CursorCacheRule, JetBrainsCacheRule,
    FlutterCacheRule, DartPubCacheRule, NvmCacheRule, BunCacheRule, DenoCacheRule,
    RustupCacheRule, RubyCacheRule, npm_cache_paths, yarn_cache_paths, pnpm_cache_paths,
    pip_cache_paths, uv_cache_paths, conda_cache_paths, cargo_cache_paths, cargo_target_paths,
    go_cache_paths, gradle_cache_paths, maven_cache_paths, android_cache_paths,
    docker_cache_paths, vscode_cache_paths, cursor_cache_paths, jet_brains_cache_paths,
    flutter_cache_paths, dart_pub_cache_paths, nvm_cache_paths, bun_cache_paths,
    deno_cache_paths, rustup_cache_paths, ruby_cache_paths,
};
use super::docker::{DockerRule, docker_paths};
use super::linux::{
    AptCacheRule, DnfCacheRule, PacmanCacheRule, SnapCacheRule, FlatpakCacheRule,
    JournalLogsRule, UserCacheRule, apt_cache_paths, dnf_cache_paths, pacman_cache_paths,
    snap_cache_paths, flatpak_cache_paths, journal_logs_paths, user_cache_paths,
};
use super::macos::{
    HomebrewRule, XcodeDerivedDataRule, XcodeArchivesRule, XcodeDeviceSupportRule,
    CocoaPodsRule, SimulatorRule, MacOSCacheRule, MacOSLogsRule, homebrew_paths,
    xcode_derived_data_paths, xcode_archives_paths, xcode_device_support_paths,
    cocoa_pods_paths, simulator_paths, macos_cache_paths, macos_logs_paths,
};
use super::macos_apps::{
    AppCacheRule, AppLogsRule, AppSupportCacheRule, ContainerCacheRule, app_cache_paths,
    app_logs_paths, app_support_cache_paths, container_cache_paths,
};
use super::misc::{DsStoreRule, ds_store_paths};
use super::trash::{TrashRule, trash_paths};
use super::heuristic::{HeuristicRule, heuristic_paths};
use crate::text::{views};

verus! {

/// Any rule of the catalog.
pub enum Rule {
    NpmCache(NpmCacheRule),
    YarnCache(YarnCacheRule),
    PnpmCache(PnpmCacheRule),
    PipCache(PipCacheRule),
    UvCache(UvCacheRule),
    CondaCache(CondaCacheRule),
    CargoCache(CargoCacheRule),
    CargoTarget(CargoTargetRule),
    GoCache(GoCacheRule),
    GradleCache(GradleCacheRule),
    MavenCache(MavenCacheRule),
    AndroidCache(AndroidCacheRule),
    DockerCache(DockerCacheRule),
    VSCodeCache(VSCodeCacheRule),
    CursorCache(CursorCacheRule),
    JetBrainsCache(JetBrainsCacheRule),
    FlutterCache(FlutterCacheRule),
    DartPubCache(DartPubCacheRule),
    NvmCache(NvmCacheRule),
    BunCache(BunCacheRule),
    DenoCache(DenoCacheRule),
    RustupCache(RustupCacheRule),
    RubyCache(RubyCacheRule),
    AptCache(AptCacheRule),
    DnfCache(DnfCacheRule),
    PacmanCache(PacmanCacheRule),
    SnapCache(SnapCacheRule),
    FlatpakCache(FlatpakCacheRule),
    JournalLogs(JournalLogsRule),
    UserCache(UserCacheRule),
    Homebrew(HomebrewRule),
    XcodeDerivedData(XcodeDerivedDataRule),
    XcodeArchives(XcodeArchivesRule),
    XcodeDeviceSupport(XcodeDeviceSupportRule),
    CocoaPods(CocoaPodsRule),
    Simulator(SimulatorRule),
    MacOSCache(MacOSCacheRule),
    MacOSLogs(MacOSLogsRule),
    AppCache(AppCacheRule),
    AppLogs(AppLogsRule),
    AppSupportCache(AppSupportCacheRule),
    ContainerCache(ContainerCacheRule),
    DsStore(DsStoreRule),
    Trash(TrashRule),
    Docker(DockerRule),
    Heuristic(HeuristicRule),
}

/// Display name of a rule.
pub open spec fn rule_name(r: Rule) -> Seq<char> {
    match r {
        Rule::NpmCache(_) => "npm Cache"@,
        Rule::YarnCache(_) => "Yarn Cache"@,
        Rule::PnpmCache(_) => "pnpm Store"@,
        Rule::PipCache(_) => "pip Cache"@,
        Rule::UvCache(_) => "uv Cache"@,
        Rule::CondaCache(_) => "Conda Package Cache"@,
        Rule::CargoCache(_) => "Cargo Registry Cache"@,
        Rule::CargoTarget(_) => "Rust Build Artifacts"@,
        Rule::GoCache(_) => "Go Module Cache"@,
        Rule::GradleCache(_) => "Gradle Cache"@,
        Rule::MavenCache(_) => "Maven Local Repository"@,
        Rule::AndroidCache(_) => "Android SDK Cache"@,
        Rule::DockerCache(_) => "Docker Cache"@,
        Rule::VSCodeCache(_) => "VS Code Cache"@,
        Rule::CursorCache(_) => "Cursor Cache"@,
        Rule::JetBrainsCache(_) => "JetBrains Cache"@,
        Rule::FlutterCache(_) => "Flutter Cache"@,
        Rule::DartPubCache(_) => "Dart Pub Cache"@,
        Rule::NvmCache(_) => "nvm Cache"@,
        Rule::BunCache(_) => "Bun Cache"@,
        Rule::DenoCache(_) => "Deno Cache"@,
        Rule::RustupCache(_) => "Rustup Toolchains"@,
        Rule::RubyCache(_) => "Ruby Gems Cache"@,
        Rule::AptCache(_) => "APT Package Cache"@,
        Rule::DnfCache(_) => "DNF/YUM Package Cache"@,
        Rule::PacmanCache(_) => "Pacman Package Cache"@,
        Rule::SnapCache(_) => "Snap Cache"@,
        Rule::FlatpakCache(_) => "Flatpak Cache"@,
        Rule::JournalLogs(_) => "Systemd Journal Logs"@,
        Rule::UserCache(_) => "User Cache Directory"@,
        Rule::Homebrew(_) => "Homebrew Cache"@,
        Rule::XcodeDerivedData(_) => "Xcode DerivedData"@,
        Rule::XcodeArchives(_) => "Xcode Archives"@,
        Rule::XcodeDeviceSupport(_) => "Xcode Device Support"@,
        Rule::CocoaPods(_) => "CocoaPods Cache"@,
        Rule::Simulator(_) => "iOS Simulators"@,
        Rule::MacOSCache(_) => "macOS User Caches"@,
        Rule::MacOSLogs(_) => "macOS User Logs"@,
        Rule::AppCache(_) => "Application Caches"@,
        Rule::AppLogs(_) => "Application Logs"@,
        Rule::AppSupportCache(_) => "Application Support Caches"@,
        Rule::ContainerCache(_) => "Sandboxed App Caches"@,
        Rule::DsStore(_) => ".DS_Store Files"@,
        Rule::Trash(_) => "Trash"@,
        Rule::Docker(_) => "Docker Cleanup"@,
        Rule::Heuristic(_) => "Heuristic Detection"@,
    }
}

/// Display name of a rule's category.
pub open spec fn rule_category_label(r: Rule) -> Seq<char> {
    match r {
        Rule::NpmCache(_) => "Node.js"@,
        Rule::YarnCache(_) => "Node.js"@,
        Rule::PnpmCache(_) => "Node.js"@,
        Rule::PipCache(_) => "Python"@,
        Rule::UvCache(_) => "Python"@,
        Rule::CondaCache(_) => "Python"@,
        Rule::CargoCache(_) => "Rust"@,
        Rule::CargoTarget(_) => "Rust"@,
        Rule::GoCache(_) => "Go"@,
        Rule::GradleCache(_) => "Java"@,
        Rule::MavenCache(_) => "Java"@,
        Rule::AndroidCache(_) => "Android"@,
        Rule::DockerCache(_) => "Docker"@,
        Rule::VSCodeCache(_) => "IDE"@,
        Rule::CursorCache(_) => "IDE"@,
        Rule::JetBrainsCache(_) => "IDE"@,
        Rule::FlutterCache(_) => "Mobile"@,
        Rule::DartPubCache(_) => "Mobile"@,
        Rule::NvmCache(_) => "Node.js"@,
        Rule::BunCache(_) => "Node.js"@,
        Rule::DenoCache(_) => "Node.js"@,
        Rule::RustupCache(_) => "Rust"@,
        Rule::RubyCache(_) => "Ruby"@,
        Rule::AptCache(_) => "Linux Packages"@,
        Rule::DnfCache(_) => "Linux Packages"@,
        Rule::PacmanCache(_) => "Linux Packages"@,
        Rule::SnapCache(_) => "Linux Packages"@,
        Rule::FlatpakCache(_) => "Linux Packages"@,
        Rule::JournalLogs(_) => "System"@,
        Rule::UserCache(_) => "System"@,
        Rule::Homebrew(_) => "Homebrew"@,
        Rule::XcodeDerivedData(_) => "Xcode"@,
        Rule::XcodeArchives(_) => "Xcode"@,
        Rule::XcodeDeviceSupport(_) => "Xcode"@,
        Rule::CocoaPods(_) => "Xcode"@,
        Rule::Simulator(_) => "Xcode"@,
        Rule::MacOSCache(_) => "System"@,
        Rule::MacOSLogs(_) => "System"@,
        Rule::AppCache(_) => "macOS Apps"@,
        Rule::AppLogs(_) => "macOS Apps"@,
        Rule::AppSupportCache(_) => "macOS Apps"@,
        Rule::ContainerCache(_) => "macOS Apps"@,
        Rule::DsStore(_) => "System"@,
        Rule::Trash(_) => "System"@,
        Rule::Docker(_) => "Docker"@,
        Rule::Heuristic(_) => "Heuristic"@,
    }
}

/// Risk level of a rule.
pub open spec fn rule_risk(r: Rule) -> RiskLevel {
    match r {
        Rule::NpmCache(_) => RiskLevel::Low,
        Rule::YarnCache(_) => RiskLevel::Low,
        Rule::PnpmCache(_) => RiskLevel::Medium,
        Rule::PipCache(_) => RiskLevel::Low,
        Rule::UvCache(_) => RiskLevel::Low,
        Rule::CondaCache(_) => RiskLevel::Low,
        Rule::CargoCache(_) => RiskLevel::Low,
        Rule::CargoTarget(_) => RiskLevel::Low,
        Rule::GoCache(_) => RiskLevel::Low,
        Rule::GradleCache(_) => RiskLevel::Low,
        Rule::MavenCache(_) => RiskLevel::Medium,
        Rule::AndroidCache(_) => RiskLevel::Low,
        Rule::DockerCache(_) => RiskLevel::Medium,
        Rule::VSCodeCache(_) => RiskLevel::Low,
        Rule::CursorCache(_) => RiskLevel::Low,
        Rule::JetBrainsCache(_) => RiskLevel::Low,
        Rule::FlutterCache(_) => RiskLevel::Low,
        Rule::DartPubCache(_) => RiskLevel::Low,
        Rule::NvmCache(_) => RiskLevel::Medium,
        Rule::BunCache(_) => RiskLevel::Low,
        Rule::DenoCache(_) => RiskLevel::Low,
        Rule::RustupCache(_) => RiskLevel::Medium,
        Rule::RubyCache(_) => RiskLevel::Low,
        Rule::AptCache(_) => RiskLevel::Low,
        Rule::DnfCache(_) => RiskLevel::Low,
        Rule::PacmanCache(_) => RiskLevel::Medium,
        Rule::SnapCache(_) => RiskLevel::Low,
        Rule::FlatpakCache(_) => RiskLevel::Low,
        Rule::JournalLogs(_) => RiskLevel::Medium,
        Rule::UserCache(_) => RiskLevel::Low,
        Rule::Homebrew(_) => RiskLevel::Low,
        Rule::XcodeDerivedData(_) => RiskLevel::Low,
        Rule::XcodeArchives(_) => RiskLevel::Medium,
        Rule::XcodeDeviceSupport(_) => RiskLevel::Medium,
        Rule::CocoaPods(_) => RiskLevel::Low,
        Rule::Simulator(_) => RiskLevel::High,
        Rule::MacOSCache(_) => RiskLevel::Low,
        Rule::MacOSLogs(_) => RiskLevel::Low,
        Rule::AppCache(_) => RiskLevel::Low,
        Rule::AppLogs(_) => RiskLevel::Low,
        Rule::AppSupportCache(_) => RiskLevel::Medium,
        Rule::ContainerCache(_) => RiskLevel::Low,
        Rule::DsStore(_) => RiskLevel::Low,
        Rule::Trash(_) => RiskLevel::Medium,
        Rule::Docker(_) => RiskLevel::Medium,
        Rule::Heuristic(_) => RiskLevel::Medium,
    }
}

/// Description of a rule.
pub open spec fn rule_description(r: Rule) -> Seq<char> {
    match r {
        Rule::NpmCache(_) => "npm package download cache"@,
        Rule::YarnCache(_) => "Yarn package cache"@,
        Rule::PnpmCache(_) => "pnpm content-addressable store"@,
        Rule::PipCache(_) => "pip package download cache"@,
        Rule::UvCache(_) => "uv package manager cache"@,
        Rule::CondaCache(_) => "Conda/Miniconda package cache"@,
        Rule::CargoCache(_) => "Cargo registry and git cache"@,
        Rule::CargoTarget(_) => "Rust project target directories (build artifacts)"@,
        Rule::GoCache(_) => "Go module download cache"@,
        Rule::GradleCache(_) => "Gradle build cache and dependencies"@,
        Rule::MavenCache(_) => "Maven local repository cache"@,
        Rule::AndroidCache(_) => "Android SDK and AVD cache files"@,
        Rule::DockerCache(_) => "Docker build cache and unused data"@,
        Rule::VSCodeCache(_) => "VS Code extensions cache and logs"@,
        Rule::CursorCache(_) => "Cursor AI IDE cache and logs"@,
        Rule::JetBrainsCache(_) => "JetBrains IDEs cache (IntelliJ, WebStorm, PyCharm, etc.)"@,
        Rule::FlutterCache(_) => "Flutter SDK cache and artifacts"@,
        Rule::DartPubCache(_) => "Dart package manager cache"@,
        Rule::NvmCache(_) => "Node Version Manager installed versions"@,
        Rule::BunCache(_) => "Bun package manager cache"@,
        Rule::DenoCache(_) => "Deno runtime cache"@,
        Rule::RustupCache(_) => "Rustup installed toolchains and components"@,
        Rule::RubyCache(_) => "Ruby gems and bundle cache"@,
        Rule::AptCache(_) => "Downloaded package files from APT (Debian/Ubuntu)"@,
        Rule::DnfCache(_) => "Downloaded package files from DNF/YUM (Fedora/RHEL)"@,
        Rule::PacmanCache(_) => "Downloaded package files from Pacman (Arch Linux)"@,
        Rule::SnapCache(_) => "Cache files for Snap applications"@,
        Rule::FlatpakCache(_) => "Cache files for Flatpak applications"@,
        Rule::JournalLogs(_) => "Systemd journal log files"@,
        Rule::UserCache(_) => "User cache directory (~/.cache)"@,
        Rule::Homebrew(_) => "Homebrew downloaded packages and caches"@,
        Rule::XcodeDerivedData(_) => "Xcode build artifacts and intermediate files"@,
        Rule::XcodeArchives(_) => "Old Xcode archive files"@,
        Rule::XcodeDeviceSupport(_) => "iOS/watchOS device support files for debugging"@,
        Rule::CocoaPods(_) => "CocoaPods spec and download cache"@,
        Rule::Simulator(_) => "iOS/watchOS/tvOS simulator data"@,
        Rule::MacOSCache(_) => "User application caches in ~/Library/Caches"@,
        Rule::MacOSLogs(_) => "User application logs in ~/Library/Logs"@,
        Rule::AppCache(_) => "Cache files for installed macOS applications"@,
        Rule::AppLogs(_) => "Log files for installed macOS applications"@,
        Rule::AppSupportCache(_) => "Cache directories within Application Support folders"@,
        Rule::ContainerCache(_) => "Cache files for sandboxed macOS applications"@,
        Rule::DsStore(_) => "macOS directory metadata files"@,
        Rule::Trash(_) => "Empty system trash"@,
        Rule::Docker(_) => "Dangling images, stopped containers, and unused networks"@,
        Rule::Heuristic(_) => "Automatically detected cache and temporary directories"@,
    }
}

/// The paths a rule inspects.
pub open spec fn rule_paths(r: Rule, env: Locations) -> Seq<Seq<char>> {
    match r {
        Rule::NpmCache(_) => npm_cache_paths(env),
        Rule::YarnCache(_) => yarn_cache_paths(env),
        Rule::PnpmCache(_) => pnpm_cache_paths(env),
        Rule::PipCache(_) => pip_cache_paths(env),
        Rule::UvCache(_) => uv_cache_paths(env),
        Rule::CondaCache(_) => conda_cache_paths(env),
        Rule::CargoCache(_) => cargo_cache_paths(env),
        Rule::CargoTarget(_) => cargo_target_paths(env),
        Rule::GoCache(_) => go_cache_paths(env),
        Rule::GradleCache(_) => gradle_cache_paths(env),
        Rule::MavenCache(_) => maven_cache_paths(env),
        Rule::AndroidCache(_) => android_cache_paths(env),
        Rule::DockerCache(_) => docker_cache_paths(env),
        Rule::VSCodeCache(_) => vscode_cache_paths(env),
        Rule::CursorCache(_) => cursor_cache_paths(env),
        Rule::JetBrainsCache(_) => jet_brains_cache_paths(env),
        Rule::FlutterCache(_) => flutter_cache_paths(env),
        Rule::DartPubCache(_) => dart_pub_cache_paths(env),
        Rule::NvmCache(_) => nvm_cache_paths(env),
        Rule::BunCache(_) => bun_cache_paths(env),
        Rule::DenoCache(_) => deno_cache_paths(env),
        Rule::RustupCache(_) => rustup_cache_paths(env),
        Rule::RubyCache(_) => ruby_cache_paths(env),
        Rule::AptCache(_) => apt_cache_paths(env),
        Rule::DnfCache(_) => dnf_cache_paths(env),
        Rule::PacmanCache(_) => pacman_cache_paths(env),
        Rule::SnapCache(_) => snap_cache_paths(env),
        Rule::FlatpakCache(_) => flatpak_cache_paths(env),
        Rule::JournalLogs(_) => journal_logs_paths(env),
        Rule::UserCache(_) => user_cache_paths(env),
        Rule::Homebrew(_) => homebrew_paths(env),
        Rule::XcodeDerivedData(_) => xcode_derived_data_paths(env),
        Rule::XcodeArchives(_) => xcode_archives_paths(env),
        Rule::XcodeDeviceSupport(_) => xcode_device_support_paths(env),
        Rule::CocoaPods(_) => cocoa_pods_paths(env),
        Rule::Simulator(_) => simulator_paths(env),
        Rule::MacOSCache(_) => macos_cache_paths(env),
        Rule::MacOSLogs(_) => macos_logs_paths(env),
        Rule::AppCache(_) => app_cache_paths(env),
        Rule::AppLogs(_) => app_logs_paths(env),
        Rule::AppSupportCache(_) => app_support_cache_paths(env),
        Rule::ContainerCache(_) => container_cache_paths(env),
        Rule::DsStore(_) => ds_store_paths(env),
        Rule::Trash(_) => trash_paths(env),
        Rule::Docker(_) => docker_paths(env),
        Rule::Heuristic(_) => heuristic_paths(env),
    }
}

impl CleanRule for Rule {
    fn name(&self) -> (r: &'static str)
        ensures
            r@ == rule_name(*self),
    {
        match self {
            Rule::NpmCache(x) => x.name(),
            Rule::YarnCache(x) => x.name(),
            Rule::PnpmCache(x) => x.name(),
            Rule::PipCache(x) => x.name(),
            Rule::UvCache(x) => x.name(),
            Rule::CondaCache(x) => x.name(),
            Rule::CargoCache(x) => x.name(),
            Rule::CargoTarget(x) => x.name(),
            Rule::GoCache(x) => x.name(),
            Rule::GradleCache(x) => x.name(),
            Rule::MavenCache(x) => x.name(),
            Rule::AndroidCache(x) => x.name(),
            Rule::DockerCache(x) => x.name(),
            Rule::VSCodeCache(x) => x.name(),
            Rule::CursorCache(x) => x.name(),
            Rule::JetBrainsCache(x) => x.name(),
            Rule::FlutterCache(x) => x.name(),
            Rule::DartPubCache(x) => x.name(),
            Rule::NvmCache(x) => x.name(),
            Rule::BunCache(x) => x.name(),
            Rule::DenoCache(x) => x.name(),
            Rule::RustupCache(x) => x.name(),
            Rule::RubyCache(x) => x.name(),
            Rule::AptCache(x) => x.name(),
            Rule::DnfCache(x) => x.name(),
            Rule::PacmanCache(x) => x.name(),
            Rule::SnapCache(x) => x.name(),
            Rule::FlatpakCache(x) => x.name(),
            Rule::JournalLogs(x) => x.name(),
            Rule::UserCache(x) => x.name(),
            Rule::Homebrew(x) => x.name(),
            Rule::XcodeDerivedData(x) => x.name(),
            Rule::XcodeArchives(x) => x.name(),
            Rule::XcodeDeviceSupport(x) => x.name(),
            Rule::CocoaPods(x) => x.name(),
            Rule::Simulator(x) => x.name(),
            Rule::MacOSCache(x) => x.name(),
            Rule::MacOSLogs(x) => x.name(),
            Rule::AppCache(x) => x.name(),
            Rule::AppLogs(x) => x.name(),
            Rule::AppSupportCache(x) => x.name(),
            Rule::ContainerCache(x) => x.name(),
            Rule::DsStore(x) => x.name(),
            Rule::Trash(x) => x.name(),
            Rule::Docker(x) => x.name(),
            Rule::Heuristic(x) => x.name(),
        }
    }

    fn category(&self) -> (r: Category)
        ensures
            category_label(r) == rule_category_label(*self),
    {
        match self {
            Rule::NpmCache(x) => x.category(),
            Rule::YarnCache(x) => x.category(),
            Rule::PnpmCache(x) => x.category(),
            Rule::PipCache(x) => x.category(),
            Rule::UvCache(x) => x.category(),
            Rule::CondaCache(x) => x.category(),
            Rule::CargoCache(x) => x.category(),
            Rule::CargoTarget(x) => x.category(),
            Rule::GoCache(x) => x.category(),
            Rule::GradleCache(x) => x.category(),
            Rule::MavenCache(x) => x.category(),
            Rule::AndroidCache(x) => x.category(),
            Rule::DockerCache(x) => x.category(),
            Rule::VSCodeCache(x) => x.category(),
            Rule::CursorCache(x) => x.category(),
            Rule::JetBrainsCache(x) => x.category(),
            Rule::FlutterCache(x) => x.category(),
            Rule::DartPubCache(x) => x.category(),
            Rule::NvmCache(x) => x.category(),
            Rule::BunCache(x) => x.category(),
            Rule::DenoCache(x) => x.category(),
            Rule::RustupCache(x) => x.category(),
            Rule::RubyCache(x) => x.category(),
            Rule::AptCache(x) => x.category(),
            Rule::DnfCache(x) => x.category(),
            Rule::PacmanCache(x) => x.category(),
            Rule::SnapCache(x) => x.category(),
            Rule::FlatpakCache(x) => x.category(),
            Rule::JournalLogs(x) => x.category(),
            Rule::UserCache(x) => x.category(),
            Rule::Homebrew(x) => x.category(),
            Rule::XcodeDerivedData(x) => x.category(),
            Rule::XcodeArchives(x) => x.category(),
            Rule::XcodeDeviceSupport(x) => x.category(),
            Rule::CocoaPods(x) => x.category(),
            Rule::Simulator(x) => x.category(),
            Rule::MacOSCache(x) => x.category(),
            Rule::MacOSLogs(x) => x.category(),
            Rule::AppCache(x) => x.category(),
            Rule::AppLogs(x) => x.category(),
            Rule::AppSupportCache(x) => x.category(),
            Rule::ContainerCache(x) => x.category(),
            Rule::DsStore(x) => x.category(),
            Rule::Trash(x) => x.category(),
            Rule::Docker(x) => x.category(),
            Rule::Heuristic(x) => x.category(),
        }
    }

    fn risk_level(&self) -> (r: RiskLevel)
        ensures
            r == rule_risk(*self),
    {
        match self {
            Rule::NpmCache(x) => x.risk_level(),
            Rule::YarnCache(x) => x.risk_level(),
            Rule::PnpmCache(x) => x.risk_level(),
            Rule::PipCache(x) => x.risk_level(),
            Rule::UvCache(x) => x.risk_level(),
            Rule::CondaCache(x) => x.risk_level(),
            Rule::CargoCache(x) => x.risk_level(),
            Rule::CargoTarget(x) => x.risk_level(),
            Rule::GoCache(x) => x.risk_level(),
            Rule::GradleCache(x) => x.risk_level(),
            Rule::MavenCache(x) => x.risk_level(),
            Rule::AndroidCache(x) => x.risk_level(),
            Rule::DockerCache(x) => x.risk_level(),
            Rule::VSCodeCache(x) => x.risk_level(),
            Rule::CursorCache(x) => x.risk_level(),
            Rule::JetBrainsCache(x) => x.risk_level(),
            Rule::FlutterCache(x) => x.risk_level(),
            Rule::DartPubCache(x) => x.risk_level(),
            Rule::NvmCache(x) => x.risk_level(),
            Rule::BunCache(x) => x.risk_level(),
            Rule::DenoCache(x) => x.risk_level(),
            Rule::RustupCache(x) => x.risk_level(),
            Rule::RubyCache(x) => x.risk_level(),
            Rule::AptCache(x) => x.risk_level(),
            Rule::DnfCache(x) => x.risk_level(),
            Rule::PacmanCache(x) => x.risk_level(),
            Rule::SnapCache(x) => x.risk_level(),
            Rule::FlatpakCache(x) => x.risk_level(),
            Rule::JournalLogs(x) => x.risk_level(),
            Rule::UserCache(x) => x.risk_level(),
            Rule::Homebrew(x) => x.risk_level(),
            Rule::XcodeDerivedData(x) => x.risk_level(),
            Rule::XcodeArchives(x) => x.risk_level(),
            Rule::XcodeDeviceSupport(x) => x.risk_level(),
            Rule::CocoaPods(x) => x.risk_level(),
            Rule::Simulator(x) => x.risk_level(),
            Rule::MacOSCache(x) => x.risk_level(),
            Rule::MacOSLogs(x) => x.risk_level(),
            Rule::AppCache(x) => x.risk_level(),
            Rule::AppLogs(x) => x.risk_level(),
            Rule::AppSupportCache(x) => x.risk_level(),
            Rule::ContainerCache(x) => x.risk_level(),
            Rule::DsStore(x) => x.risk_level(),
            Rule::Trash(x) => x.risk_level(),
            Rule::Docker(x) => x.risk_level(),
            Rule::Heuristic(x) => x.risk_level(),
        }
    }

    fn description(&self) -> (r: &'static str)
        ensures
            r@ == rule_description(*self),
    {
        match self {
            Rule::NpmCache(x) => x.description(),
            Rule::YarnCache(x) => x.description(),
            Rule::PnpmCache(x) => x.description(),
            Rule::PipCache(x) => x.description(),
            Rule::UvCache(x) => x.description(),
            Rule::CondaCache(x) => x.description(),
            Rule::CargoCache(x) => x.description(),
            Rule::CargoTarget(x) => x.description(),
            Rule::GoCache(x) => x.description(),
            Rule::GradleCache(x) => x.description(),
            Rule::MavenCache(x) => x.description(),
            Rule::AndroidCache(x) => x.description(),
            Rule::DockerCache(x) => x.description(),
            Rule::VSCodeCache(x) => x.description(),
            Rule::CursorCache(x) => x.description(),
            Rule::JetBrainsCache(x) => x.description(),
            Rule::FlutterCache(x) => x.description(),
            Rule::DartPubCache(x) => x.description(),
            Rule::NvmCache(x) => x.description(),
            Rule::BunCache(x) => x.description(),
            Rule::DenoCache(x) => x.description(),
            Rule::RustupCache(x) => x.description(),
            Rule::RubyCache(x) => x.description(),
            Rule::AptCache(x) => x.description(),
            Rule::DnfCache(x) => x.description(),
            Rule::PacmanCache(x) => x.description(),
            Rule::SnapCache(x) => x.description(),
            Rule::FlatpakCache(x) => x.description(),
            Rule::JournalLogs(x) => x.description(),
            Rule::UserCache(x) => x.description(),
            Rule::Homebrew(x) => x.description(),
            Rule::XcodeDerivedData(x) => x.description(),
            Rule::XcodeArchives(x) => x.description(),
            Rule::XcodeDeviceSupport(x) => x.description(),
            Rule::CocoaPods(x) => x.description(),
            Rule::Simulator(x) => x.description(),
            Rule::MacOSCache(x) => x.description(),
            Rule::MacOSLogs(x) => x.description(),
            Rule::AppCache(x) => x.description(),
            Rule::AppLogs(x) => x.description(),
            Rule::AppSupportCache(x) => x.description(),
            Rule::ContainerCache(x) => x.description(),
            Rule::DsStore(x) => x.description(),
            Rule::Trash(x) => x.description(),
            Rule::Docker(x) => x.description(),
            Rule::Heuristic(x) => x.description(),
        }
    }

    fn scan_paths(&self, env: &Locations) -> (r: Vec<String>)
        ensures
            views(r@) == rule_paths(*self, *env),
    {
        match self {
            Rule::NpmCache(x) => x.scan_paths(env),
            Rule::YarnCache(x) => x.scan_paths(env),
            Rule::PnpmCache(x) => x.scan_paths(env),
            Rule::PipCache(x) => x.scan_paths(env),
            Rule::UvCache(x) => x.scan_paths(env),
            Rule::CondaCache(x) => x.scan_paths(env),
            Rule::CargoCache(x) => x.scan_paths(env),
            Rule::CargoTarget(x) => x.scan_paths(env),
            Rule::GoCache(x) => x.scan_paths(env),
            Rule::GradleCache(x) => x.scan_paths(env),
            Rule::MavenCache(x) => x.scan_paths(env),
            Rule::AndroidCache(x) => x.scan_paths(env),
            Rule::DockerCache(x) => x.scan_paths(env),
            Rule::VSCodeCache(x) => x.scan_paths(env),
            Rule::CursorCache(x) => x.scan_paths(env),
            Rule::JetBrainsCache(x) => x.scan_paths(env),
            Rule::FlutterCache(x) => x.scan_paths(env),
            Rule::DartPubCache(x) => x.scan_paths(env),
            Rule::NvmCache(x) => x.scan_paths(env),
            Rule::BunCache(x) => x.scan_paths(env),
            Rule::DenoCache(x) => x.scan_paths(env),
            Rule::RustupCache(x) => x.scan_paths(env),
            Rule::RubyCache(x) => x.scan_paths(env),
            Rule::AptCache(x) => x.scan_paths(env),
            Rule::DnfCache(x) => x.scan_paths(env),
            Rule::PacmanCache(x) => x.scan_paths(env),
            Rule::SnapCache(x) => x.scan_paths(env),
            Rule::FlatpakCache(x) => x.scan_paths(env),
            Rule::JournalLogs(x) => x.scan_paths(env),
            Rule::UserCache(x) => x.scan_paths(env),
            Rule::Homebrew(x) => x.scan_paths(env),
            Rule::XcodeDerivedData(x) => x.scan_paths(env),
            Rule::XcodeArchives(x) => x.scan_paths(env),
            Rule::XcodeDeviceSupport(x) => x.scan_paths(env),
            Rule::CocoaPods(x) => x.scan_paths(env),
            Rule::Simulator(x) => x.scan_paths(env),
            Rule::MacOSCache(x) => x.scan_paths(env),
            Rule::MacOSLogs(x) => x.scan_paths(env),
            Rule::AppCache(x) => x.scan_paths(env),
            Rule::AppLogs(x) => x.scan_paths(env),
            Rule::AppSupportCache(x) => x.scan_paths(env),
            Rule::ContainerCache(x) => x.scan_paths(env),
            Rule::DsStore(x) => x.scan_paths(env),
            Rule::Trash(x) => x.scan_paths(env),
            Rule::Docker(x) => x.scan_paths(env),
            Rule::Heuristic(x) => x.scan_paths(env),
        }
    }
}

} // verus!
