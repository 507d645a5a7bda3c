use one_publish::toolchains::check_environment_report;
use one_publish::selection::{make_cache_key, normalize_provider_ids};
use one_publish::toolchains::add_provider_report;
use one_publish::environment::{
    EnvironmentCheckResult, EnvironmentIssue, FixAction, FixType, IssueSeverity, IssueType, ProviderStatus,
};
use one_publish::toolchains::{
    create_missing_cargo_issue, create_missing_dotnet_issue, create_missing_go_issue, create_missing_java_issue,
    create_outdated_cargo_issue, create_outdated_dotnet_issue, create_outdated_go_issue, create_outdated_java_issue,
    detect_cargo_issues, detect_java_issues, get_cargo_install_fixes, get_dotnet_install_fixes, get_go_install_fixes,
    get_java_install_fixes, Platform,
};
use one_publish::version::{compare_versions, parse_go_version, parse_java_version, parse_semver, parse_version};

#[test]
fn test_create_missing_cargo_issue() {
    let issue = create_missing_cargo_issue(Platform::Linux);
    assert_eq!(issue.severity, IssueSeverity::Critical);
    assert_eq!(issue.provider_id, "cargo");
    assert_eq!(issue.issue_type, IssueType::MissingTool);
    assert!(!issue.fixes.is_empty());
}

#[test]
fn test_create_outdated_cargo_issue() {
    let issue = create_outdated_cargo_issue("1.68.0", "1.70.0");
    assert_eq!(issue.severity, IssueSeverity::Warning);
    assert_eq!(issue.current_value, Some("1.68.0".to_string()));
    assert_eq!(issue.expected_value, Some("1.70.0+".to_string()));
}

#[test]
fn test_get_cargo_install_fixes() {
    let fixes = get_cargo_install_fixes(Platform::Linux);
    assert!(!fixes.is_empty());
    assert!(fixes
        .iter()
        .any(|f| f.action_type == FixType::RunCommand || f.action_type == FixType::OpenUrl));
}

#[test]
fn test_create_missing_dotnet_issue() {
    let issue = create_missing_dotnet_issue(Platform::Linux);
    assert_eq!(issue.severity, IssueSeverity::Critical);
    assert_eq!(issue.provider_id, "dotnet");
    assert_eq!(issue.issue_type, IssueType::MissingTool);
    assert!(!issue.fixes.is_empty());
}

#[test]
fn test_create_outdated_dotnet_issue() {
    let issue = create_outdated_dotnet_issue("5.0.401", "6.0.0");
    assert_eq!(issue.severity, IssueSeverity::Warning);
    assert_eq!(issue.current_value, Some("5.0.401".to_string()));
    assert_eq!(issue.expected_value, Some("6.0.0+".to_string()));
}

#[test]
fn test_get_dotnet_install_fixes() {
    let fixes = get_dotnet_install_fixes(Platform::Linux);
    assert!(!fixes.is_empty());
}

#[test]
fn test_parse_go_version() {
    let output = b"go version go1.21.0 darwin/arm64\n";
    assert_eq!(parse_go_version(output), "1.21.0");
    let output = b"go version go1.20.5 linux/amd64\n";
    assert_eq!(parse_go_version(output), "1.20.5");
}

#[test]
fn go_version_unknown_without_marker() {
    assert_eq!(parse_go_version(b"something else\n"), "unknown");
}

#[test]
fn test_create_missing_go_issue() {
    let issue = create_missing_go_issue(Platform::Linux);
    assert_eq!(issue.severity, IssueSeverity::Critical);
    assert_eq!(issue.provider_id, "go");
    assert_eq!(issue.issue_type, IssueType::MissingTool);
    assert!(!issue.fixes.is_empty());
}

#[test]
fn test_create_outdated_go_issue() {
    let issue = create_outdated_go_issue("1.19.5", "1.20");
    assert_eq!(issue.severity, IssueSeverity::Warning);
    assert_eq!(issue.current_value, Some("1.19.5".to_string()));
    assert_eq!(issue.expected_value, Some("1.20+".to_string()));
}

#[test]
fn test_get_go_install_fixes() {
    let fixes = get_go_install_fixes(Platform::Linux);
    assert!(!fixes.is_empty());
}

#[test]
fn test_parse_java_version() {
    let output = b"openjdk version \"17.0.2\" 2022-01-18\n";
    assert_eq!(parse_java_version(output), "17");
    let output = b"java version \"1.8.0_345\"\n";
    assert_eq!(parse_java_version(output), "8");
    let output = b"openjdk version \"11.0.15\" 2022-04-19\n";
    assert_eq!(parse_java_version(output), "11");
}

#[test]
fn test_create_missing_java_issue() {
    let issue = create_missing_java_issue(Platform::Linux);
    assert_eq!(issue.severity, IssueSeverity::Critical);
    assert_eq!(issue.provider_id, "java");
    assert_eq!(issue.issue_type, IssueType::MissingTool);
    assert!(!issue.fixes.is_empty());
}

#[test]
fn test_create_outdated_java_issue() {
    let issue = create_outdated_java_issue("8", "11");
    assert_eq!(issue.severity, IssueSeverity::Warning);
    assert_eq!(issue.current_value, Some("8".to_string()));
    assert_eq!(issue.expected_value, Some("11+".to_string()));
}

#[test]
fn test_get_java_install_fixes() {
    let fixes = get_java_install_fixes(Platform::Linux);
    assert!(!fixes.is_empty());
}

#[test]
fn test_parse_version() {
    let output = b"cargo 1.75.0 (187b4c3df 2023-12-22)\n";
    assert_eq!(parse_version(output, "cargo"), Some("1.75.0".to_string()));
    let output = b"dotnet 8.0.101\n";
    assert_eq!(parse_version(output, "dotnet"), Some("8.0.101".to_string()));
}

#[test]
fn test_parse_semver() {
    assert_eq!(parse_semver("1.75.0"), Some((1, 75, 0)));
    assert_eq!(parse_semver("v1.75.0"), Some((1, 75, 0)));
    assert_eq!(parse_semver("1.75"), Some((1, 75, 0)));
    assert_eq!(parse_semver("invalid"), None);
}

#[test]
fn test_compare_versions() {
    assert_eq!(compare_versions("1.75.0", "1.75.1"), -1);
    assert_eq!(compare_versions("1.75.0", "1.75.0"), 0);
    assert_eq!(compare_versions("1.76.0", "1.75.0"), 1);
    assert_eq!(compare_versions("1.75.0", "1.74.99"), 1);
}

#[test]
fn test_environment_issue_builder() {
    let issue = EnvironmentIssue::new(
        IssueSeverity::Critical,
        "rust".to_string(),
        IssueType::MissingTool,
        "Cargo not found".to_string(),
    )
    .with_current_value("none".to_string())
    .with_expected_value("1.75.0+".to_string())
    .with_fix(FixAction {
        action_type: FixType::OpenUrl,
        label: "Open Download Page".to_string(),
        command: None,
        url: Some("https://rustup.rs/".to_string()),
    });
    assert_eq!(issue.severity, IssueSeverity::Critical);
    assert_eq!(issue.provider_id, "rust");
    assert_eq!(issue.fixes.len(), 1);
}

#[test]
fn test_environment_check_result() {
    let mut result = EnvironmentCheckResult::new();
    assert!(result.is_ready);
    result = result.with_issue(EnvironmentIssue::new(
        IssueSeverity::Critical,
        "rust".to_string(),
        IssueType::MissingTool,
        "Cargo not found".to_string(),
    ));
    assert!(!result.is_ready);
}

#[test]
fn detect_issues_by_version() {
    let status = ProviderStatus {
        provider_id: "cargo".to_string(),
        installed: true,
        version: Some("1.60.0".to_string()),
        path: None,
    };
    let issues = detect_cargo_issues(&status, Platform::MacOs);
    assert_eq!(issues.len(), 1);
    assert_eq!(issues[0].issue_type, IssueType::OutdatedVersion);
    let status = ProviderStatus {
        provider_id: "java".to_string(),
        installed: true,
        version: Some("17".to_string()),
        path: None,
    };
    assert!(detect_java_issues(&status, Platform::Windows).is_empty());
    let status = ProviderStatus { provider_id: "java".to_string(), installed: false, version: None, path: None };
    assert_eq!(detect_java_issues(&status, Platform::Windows)[0].issue_type, IssueType::MissingTool);
}

#[test]
fn provider_ids_are_trimmed_deduplicated_and_sorted() {
    let ids = normalize_provider_ids(Some(vec![
        " java".to_string(),
        "cargo".to_string(),
        "".to_string(),
        "java ".to_string(),
        "dotnet".to_string(),
    ]));
    assert_eq!(ids, vec!["cargo", "dotnet", "java"]);
    assert_eq!(make_cache_key(&ids), "cargo,dotnet,java");
    assert_eq!(normalize_provider_ids(None), vec!["cargo", "dotnet", "go", "java"]);
    assert_eq!(normalize_provider_ids(Some(vec![])), vec!["cargo", "dotnet", "go", "java"]);
}

#[test]
fn unknown_provider_gets_info_issue() {
    let r = add_provider_report(EnvironmentCheckResult::new(), "rust", None, Platform::Linux);
    assert!(r.is_ready);
    assert_eq!(r.issues.len(), 1);
    assert_eq!(r.issues[0].severity, IssueSeverity::Info);
    assert_eq!(r.issues[0].description, "Unsupported provider_id: rust");
    let missing = ProviderStatus { provider_id: "go".to_string(), installed: false, version: None, path: None };
    let r = add_provider_report(r, "go", Some(missing), Platform::Linux);
    assert!(!r.is_ready);
    assert_eq!(r.providers.len(), 1);
}

#[test]
fn environment_report_covers_each_requested_provider() {
    let entries = vec![
        ("cargo".to_string(), Some(ProviderStatus { provider_id: "cargo".to_string(), installed: true, version: Some("1.60.0".to_string()), path: None })),
        ("rust".to_string(), None),
    ];
    let r = check_environment_report(entries, Platform::Linux);
    assert!(r.is_ready);
    assert_eq!(r.providers.len(), 1);
    assert_eq!(r.issues.len(), 2);
    assert_eq!(r.issues[0].issue_type, IssueType::OutdatedVersion);
    assert_eq!(r.issues[1].issue_type, IssueType::MissingTool);
    assert_eq!(r.issues[1].description, "Unsupported provider_id: rust");
}
