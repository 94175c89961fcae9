//! Plain data types and fixed tables of the surrounding system-maintenance
//! tool: application and service inventory records, optimization and backup
//! reports, and the classification rules for unwanted software and
//! dangerous registry keys.

use vstd::prelude::*;
use crate::text::{contains_seq, contains_str, lower_seq, to_lower_str};
use vstd::string::StringExecFns;

verus! {

/// A cached view of one file's metadata.
#[derive(Clone, Debug)]
pub struct CachedFileInfo {
    pub size: u64,
    pub modified: u64,
    pub file_type: String,
    pub cached_at: u64,
}

/// One installed application, as the inventory reports it.
#[derive(Clone, Debug)]
pub struct AppInfo {
    pub name: String,
    pub version: String,
    pub install_location: String,
    pub size_mb: u64,
    pub category: String,
    pub is_bloatware: bool,
    pub can_uninstall: bool,
    pub registry_key: String,
}

/// One system service, as the inventory reports it.
#[derive(Clone, Debug)]
pub struct ServiceInfo {
    pub name: String,
    pub display_name: String,
    pub status: String,
    pub start_type: String,
    pub description: String,
    pub is_recommended_disable: bool,
}

/// Outcome of one optimization run.
#[derive(Clone, Debug)]
pub struct OptimizationResult {
    pub success: bool,
    pub message: String,
    pub details: Vec<String>,
    pub errors: Vec<String>,
    pub space_freed_mb: u64,
    pub files_removed: usize,
    pub registry_entries_cleaned: usize,
    pub bloatware_removed: usize,
}

/// Metadata of one stored backup.
#[derive(Clone, Debug)]
pub struct BackupInfo {
    pub id: String,
    pub timestamp: String,
    pub description: String,
    pub backup_type: String,
    pub file_size_mb: u64,
    pub status: String,
}

/// The closed set of categories unwanted software falls under.
#[derive(Clone, Copy, Debug, PartialEq, Eq, Structural)]
pub enum BloatwareCategory {
    MicrosoftBloatware,
    OEMBloatware,
    ThirdPartyBloatware,
    TrialSoftware,
    Adware,
    RedundantUtility,
    OutdatedSoftware,
    ResourceHeavy,
    GamingPlatform,
    SocialMedia,
    StreamingService,
}

/// How an application can be removed.
#[derive(Clone, Debug)]
pub enum RemovalMethod {
    Winget,
    PowerShell,
    WMI,
    UWP,
    Registry,
    FileSystem,
    Service,
    ScheduledTask,
    Custom(String),
}

/// Outcome of one uninstallation.
#[derive(Clone, Debug)]
pub struct UninstallResult {
    pub app_name: String,
    pub success: bool,
    pub method_used: RemovalMethod,
    pub details: Vec<String>,
    pub errors: Vec<String>,
    pub space_freed_mb: u64,
    pub registry_entries_removed: usize,
    pub files_removed: usize,
    pub services_stopped: usize,
    pub tasks_removed: usize,
}

/// The reported operating-system version.
pub fn get_os_version() -> (r: Result<String, String>)
    ensures
        r is Ok,
        r->Ok_0@ == "Windows 11 Pro"@,
{
    Ok(String::from_str("Windows 11 Pro"))
}

/// The reported total and free memory, in bytes.
pub fn get_memory_info() -> (r: Result<(u64, u64), String>)
    ensures
        r is Ok,
        r->Ok_0.0 == 16_000_000_000u64,
        r->Ok_0.1 == 8_000_000_000u64,
{
    Ok((16_000_000_000, 8_000_000_000))
}

/// The reported uptime in seconds and last boot time.
pub fn get_system_uptime() -> (r: Result<(u64, String), String>)
    ensures
        r is Ok,
        r->Ok_0.0 == 3600u64,
        r->Ok_0.1@ == "2024-01-01 12:00:00"@,
{
    Ok((3600, String::from_str("2024-01-01 12:00:00")))
}

/// The service names recommended for disabling, lowercased.
pub fn get_recommended_disable_services() -> (r: Vec<String>)
    ensures
        r@.len() == 8,
        r@[0]@ == "fax"@,
        r@[1]@ == "dmwappushservice"@,
        r@[2]@ == "mapsbrokerdiscoverysvc"@,
        r@[3]@ == "lfsvc"@,
        r@[4]@ == "sharedaccess"@,
        r@[5]@ == "telephonyapi"@,
        r@[6]@ == "remoteregistry"@,
        r@[7]@ == "remoteprocedure"@,
{
    let mut r: Vec<String> = Vec::new();
    r.push(String::from_str("fax"));
    r.push(String::from_str("dmwappushservice"));
    r.push(String::from_str("mapsbrokerdiscoverysvc"));
    r.push(String::from_str("lfsvc"));
    r.push(String::from_str("sharedaccess"));
    r.push(String::from_str("telephonyapi"));
    r.push(String::from_str("remoteregistry"));
    r.push(String::from_str("remoteprocedure"));
    r
}

/// All bloatware categories, in their fixed order.
pub fn get_bloatware_categories() -> (r: Vec<BloatwareCategory>)
    ensures
        r@ == seq![
            BloatwareCategory::MicrosoftBloatware,
            BloatwareCategory::OEMBloatware,
            BloatwareCategory::ThirdPartyBloatware,
            BloatwareCategory::TrialSoftware,
            BloatwareCategory::Adware,
            BloatwareCategory::RedundantUtility,
            BloatwareCategory::OutdatedSoftware,
            BloatwareCategory::ResourceHeavy,
            BloatwareCategory::GamingPlatform,
            BloatwareCategory::SocialMedia,
            BloatwareCategory::StreamingService,
        ],
{
    let mut r: Vec<BloatwareCategory> = Vec::new();
    r.push(BloatwareCategory::MicrosoftBloatware);
    r.push(BloatwareCategory::OEMBloatware);
    r.push(BloatwareCategory::ThirdPartyBloatware);
    r.push(BloatwareCategory::TrialSoftware);
    r.push(BloatwareCategory::Adware);
    r.push(BloatwareCategory::RedundantUtility);
    r.push(BloatwareCategory::OutdatedSoftware);
    r.push(BloatwareCategory::ResourceHeavy);
    r.push(BloatwareCategory::GamingPlatform);
    r.push(BloatwareCategory::SocialMedia);
    r.push(BloatwareCategory::StreamingService);
    proof {
        assert(r@ =~= seq![
            BloatwareCategory::MicrosoftBloatware,
            BloatwareCategory::OEMBloatware,
            BloatwareCategory::ThirdPartyBloatware,
            BloatwareCategory::TrialSoftware,
            BloatwareCategory::Adware,
            BloatwareCategory::RedundantUtility,
            BloatwareCategory::OutdatedSoftware,
            BloatwareCategory::ResourceHeavy,
            BloatwareCategory::GamingPlatform,
            BloatwareCategory::SocialMedia,
            BloatwareCategory::StreamingService,
        ]);
    }
    r
}

/// Whether an application name matches a database pattern: either contains
/// the other, compared case-insensitively.
pub open spec fn spec_matches_pattern(app_name: Seq<char>, pattern: Seq<char>) -> bool {
    ||| contains_seq(lower_seq(app_name), lower_seq(pattern))
    ||| contains_seq(lower_seq(pattern), lower_seq(app_name))
}

/// Whether an application name matches a database pattern.
pub fn matches_pattern(app_name: &str, pattern: &str) -> (r: bool)
    ensures
        r == spec_matches_pattern(app_name@, pattern@),
{
    let a = to_lower_str(app_name);
    let p = to_lower_str(pattern);
    contains_str(a.as_str(), p.as_str()) || contains_str(p.as_str(), a.as_str())
}

/// The category assigned to an application from its name and publisher.
pub open spec fn spec_classify_category(name: Seq<char>, publisher: Seq<char>) -> BloatwareCategory {
    let n = lower_seq(name);
    let p = lower_seq(publisher);
    if contains_seq(p, "microsoft"@) {
        BloatwareCategory::MicrosoftBloatware
    } else if contains_seq(n, "game"@) || contains_seq(n, "candy"@) || contains_seq(n, "crush"@) {
        BloatwareCategory::GamingPlatform
    } else if contains_seq(n, "facebook"@) || contains_seq(n, "instagram"@) || contains_seq(
        n,
        "tiktok"@,
    ) {
        BloatwareCategory::SocialMedia
    } else if contains_seq(n, "netflix"@) || contains_seq(n, "spotify"@) || contains_seq(
        n,
        "youtube"@,
    ) {
        BloatwareCategory::StreamingService
    } else if contains_seq(n, "trial"@) || contains_seq(n, "demo"@) {
        BloatwareCategory::TrialSoftware
    } else {
        BloatwareCategory::ThirdPartyBloatware
    }
}

/// Assign a category to an application from its name and publisher.
pub fn classify_bloatware_category(name: &str, publisher: &str) -> (r: BloatwareCategory)
    ensures
        r == spec_classify_category(name@, publisher@),
{
    let n = to_lower_str(name);
    let p = to_lower_str(publisher);
    if contains_str(p.as_str(), "microsoft") {
        BloatwareCategory::MicrosoftBloatware
    } else if contains_str(n.as_str(), "game") || contains_str(n.as_str(), "candy") || contains_str(
        n.as_str(),
        "crush",
    ) {
        BloatwareCategory::GamingPlatform
    } else if contains_str(n.as_str(), "facebook") || contains_str(n.as_str(), "instagram")
        || contains_str(n.as_str(), "tiktok") {
        BloatwareCategory::SocialMedia
    } else if contains_str(n.as_str(), "netflix") || contains_str(n.as_str(), "spotify")
        || contains_str(n.as_str(), "youtube") {
        BloatwareCategory::StreamingService
    } else if contains_str(n.as_str(), "trial") || contains_str(n.as_str(), "demo") {
        BloatwareCategory::TrialSoftware
    } else {
        BloatwareCategory::ThirdPartyBloatware
    }
}

/// Whether a registry key path touches one of the dangerous subtrees that
/// must never be deleted without an explicit override.
pub open spec fn spec_is_dangerous_key(key_path: Seq<char>) -> bool {
    ||| contains_seq(key_path, "SYSTEM\\CurrentControlSet\\Control\\Session Manager"@)
    ||| contains_seq(key_path, "SYSTEM\\CurrentControlSet\\Services"@)
    ||| contains_seq(key_path, "SOFTWARE\\Microsoft\\Windows NT\\CurrentVersion"@)
    ||| contains_seq(key_path, "SOFTWARE\\Microsoft\\Windows\\CurrentVersion\\Run"@)
}

/// Whether a registry key path touches one of the dangerous subtrees.
pub fn is_dangerous_key(key_path: &str) -> (r: bool)
    ensures
        r == spec_is_dangerous_key(key_path@),
{
    contains_str(key_path, "SYSTEM\\CurrentControlSet\\Control\\Session Manager") || contains_str(
        key_path,
        "SYSTEM\\CurrentControlSet\\Services",
    ) || contains_str(key_path, "SOFTWARE\\Microsoft\\Windows NT\\CurrentVersion") || contains_str(
        key_path,
        "SOFTWARE\\Microsoft\\Windows\\CurrentVersion\\Run",
    )
}

/// The registry name patterns of known unwanted software.
pub fn get_bloatware_registry_patterns() -> (r: Vec<String>)
    ensures
        r@.len() == 8,
        r@[0]@ == "CandyCrush"@,
        r@[1]@ == "Microsoft.SolitaireCollection"@,
        r@[2]@ == "Microsoft.Weather"@,
        r@[3]@ == "Microsoft.News"@,
        r@[4]@ == "Xbox"@,
        r@[5]@ == "McAfee"@,
        r@[6]@ == "Norton"@,
        r@[7]@ == "WildTangent"@,
{
    let mut r: Vec<String> = Vec::new();
    r.push(String::from_str("CandyCrush"));
    r.push(String::from_str("Microsoft.SolitaireCollection"));
    r.push(String::from_str("Microsoft.Weather"));
    r.push(String::from_str("Microsoft.News"));
    r.push(String::from_str("Xbox"));
    r.push(String::from_str("McAfee"));
    r.push(String::from_str("Norton"));
    r.push(String::from_str("WildTangent"));
    r
}

/// The registry subtrees whose deletion endangers the system.
pub fn get_dangerous_registry_patterns() -> (r: Vec<String>)
    ensures
        r@.len() == 4,
        r@[0]@ == "SYSTEM\\CurrentControlSet\\Control\\Session Manager"@,
        r@[1]@ == "SYSTEM\\CurrentControlSet\\Services"@,
        r@[2]@ == "SOFTWARE\\Microsoft\\Windows NT\\CurrentVersion"@,
        r@[3]@ == "SOFTWARE\\Microsoft\\Windows\\CurrentVersion\\Run"@,
{
    let mut r: Vec<String> = Vec::new();
    r.push(String::from_str("SYSTEM\\CurrentControlSet\\Control\\Session Manager"));
    r.push(String::from_str("SYSTEM\\CurrentControlSet\\Services"));
    r.push(String::from_str("SOFTWARE\\Microsoft\\Windows NT\\CurrentVersion"));
    r.push(String::from_str("SOFTWARE\\Microsoft\\Windows\\CurrentVersion\\Run"));
    r
}

} // verus!
