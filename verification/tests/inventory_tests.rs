use dedup_cleaner::inventory::{
    classify_bloatware_category, get_bloatware_categories, get_bloatware_registry_patterns,
    get_dangerous_registry_patterns, get_memory_info, get_os_version,
    get_recommended_disable_services, get_system_uptime, is_dangerous_key, matches_pattern,
    BloatwareCategory,
};

#[test]
fn reported_system_facts() {
    assert_eq!(get_os_version().unwrap(), "Windows 11 Pro");
    assert_eq!(get_memory_info().unwrap(), (16_000_000_000, 8_000_000_000));
    let (uptime, boot) = get_system_uptime().unwrap();
    assert_eq!(uptime, 3600);
    assert_eq!(boot, "2024-01-01 12:00:00");
}

#[test]
fn recommended_disable_list() {
    let services = get_recommended_disable_services();
    assert_eq!(services.len(), 8);
    assert!(services.contains(&"fax".to_string()));
    assert!(services.contains(&"remoteregistry".to_string()));
}

#[test]
fn category_list_is_complete() {
    let cats = get_bloatware_categories();
    assert_eq!(cats.len(), 11);
    assert_eq!(cats[0], BloatwareCategory::MicrosoftBloatware);
    assert_eq!(cats[10], BloatwareCategory::StreamingService);
}

#[test]
fn pattern_matching_is_case_insensitive_and_symmetric() {
    assert!(matches_pattern("Microsoft Solitaire Collection", "solitaire"));
    assert!(matches_pattern("solitaire", "Microsoft SOLITAIRE Collection"));
    assert!(matches_pattern("McAfee Security", "mcafee security scanner"));
    assert!(!matches_pattern("Paint", "Notepad"));
}

#[test]
fn classification_precedence() {
    assert_eq!(
        classify_bloatware_category("Anything", "Microsoft Corporation"),
        BloatwareCategory::MicrosoftBloatware
    );
    assert_eq!(
        classify_bloatware_category("Candy Crush Saga", "King"),
        BloatwareCategory::GamingPlatform
    );
    assert_eq!(
        classify_bloatware_category("TikTok", "ByteDance"),
        BloatwareCategory::SocialMedia
    );
    assert_eq!(
        classify_bloatware_category("Netflix", "Netflix Inc."),
        BloatwareCategory::StreamingService
    );
    assert_eq!(
        classify_bloatware_category("Photo Editor Trial", "Someone"),
        BloatwareCategory::TrialSoftware
    );
    assert_eq!(
        classify_bloatware_category("Plain Tool", "Someone"),
        BloatwareCategory::ThirdPartyBloatware
    );
}

#[test]
fn dangerous_registry_keys() {
    assert!(is_dangerous_key("SYSTEM\\CurrentControlSet\\Services\\Foo"));
    assert!(is_dangerous_key(
        "HKLM\\SOFTWARE\\Microsoft\\Windows\\CurrentVersion\\Run\\Updater"
    ));
    assert!(!is_dangerous_key("SOFTWARE\\Vendor\\App"));
}

#[test]
fn fixed_pattern_tables() {
    let bloat = get_bloatware_registry_patterns();
    assert_eq!(bloat.len(), 8);
    assert_eq!(bloat[0], "CandyCrush");
    let dangerous = get_dangerous_registry_patterns();
    assert_eq!(dangerous.len(), 4);
    assert_eq!(dangerous[1], "SYSTEM\\CurrentControlSet\\Services");
}
