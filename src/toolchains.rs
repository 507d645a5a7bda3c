//! Per-toolchain rules of the environment probe: which versions are too
//! old, and which fixes to offer on each platform.

use vstd::prelude::*;
use crate::environment::{EnvironmentCheckResult, EnvironmentIssue, FixAction, FixType, IssueSeverity, IssueType, ProviderStatus};
use crate::text::{same_text, opt_view};
use crate::text::push_str;
use crate::version::{parse_semver, compare_versions, parse_u32, semver_of, version_order, parse_u32_text};

verus! {

pub const MIN_CARGO_VERSION: &'static str = "1.70.0";
pub const MIN_DOTNET_VERSION: &'static str = "6.0.0";
pub const MIN_GO_VERSION: &'static str = "1.20";
pub const MIN_JAVA_VERSION: &'static str = "11";

/// The operating system the fixes are offered for.
#[derive(PartialEq, Eq, Structural, Clone, Copy, Debug)]
pub enum Platform {
    MacOs,
    Windows,
    Linux,
    Other,
}

/// A fix as contracts see it: its type, label, command and page.
pub open spec fn fix_view(f: FixAction) -> (FixType, Seq<char>, Option<Seq<char>>, Option<Seq<char>>) {
    (f.action_type, f.label@, opt_view(f.command), opt_view(f.url))
}

pub open spec fn fix_views(fs: Seq<FixAction>) -> Seq<(FixType, Seq<char>, Option<Seq<char>>, Option<Seq<char>>)> {
    fs.map_values(|f: FixAction| fix_view(f))
}

pub open spec fn opt_str(o: Option<&str>) -> Option<Seq<char>> {
    match o {
        Some(s) => Some(s@),
        None => None,
    }
}

fn fix(action_type: FixType, label: &str, command: Option<&str>, url: Option<&str>) -> (r: FixAction)
    ensures
        fix_view(r) == (action_type, label@, opt_str(command), opt_str(url)),
        r.url is Some <==> url is Some,
        url matches Some(u) ==> r.url->0@ == u@,
{
    FixAction {
        action_type,
        label: label.to_owned(),
        command: match command {
            Some(c) => Some(c.to_owned()),
            None => None,
        },
        url: match url {
            Some(u) => Some(u.to_owned()),
            None => None,
        },
    }
}

/// Fix lists end with a page to open.
pub open spec fn ends_with_page(fixes: Seq<FixAction>, url: Seq<char>) -> bool {
    fixes.len() > 0 && fixes.last().action_type == FixType::OpenUrl && (fixes.last().url matches Some(u)
        && u@ == url)
}

/// `{v}+`.
fn at_least(v: &str) -> (r: String)
    ensures
        r@ == v@ + "+"@,
{
    let mut s = v.to_owned();
    push_str(&mut s, "+");
    s
}

/// `{tool} version outdated. Current: {current}, Recommended: {recommended}+`.
fn outdated_text(tool: &str, current: &str, recommended: &str) -> (r: String) {
    let mut s = tool.to_owned();
    push_str(&mut s, " version outdated. Current: ");
    push_str(&mut s, current);
    push_str(&mut s, ", Recommended: ");
    push_str(&mut s, recommended);
    push_str(&mut s, "+");
    s
}

/// The shape of a "tool missing" issue for provider `id` with minimum
/// version `min`.
pub open spec fn is_missing_issue(i: EnvironmentIssue, id: Seq<char>, min: Seq<char>) -> bool {
    &&& i.severity == IssueSeverity::Critical
    &&& i.issue_type == IssueType::MissingTool
    &&& i.provider_id@ == id
    &&& i.current_value matches Some(c) && c@ == "not installed"@
    &&& i.expected_value matches Some(e) && e@ == min + "+"@
    &&& i.fixes@.len() > 0
}

/// The shape of an "outdated" issue for provider `id`.
pub open spec fn is_outdated_issue(i: EnvironmentIssue, id: Seq<char>, current: Seq<char>, recommended: Seq<char>) -> bool {
    &&& i.severity == IssueSeverity::Warning
    &&& i.issue_type == IssueType::OutdatedVersion
    &&& i.provider_id@ == id
    &&& i.current_value matches Some(c) && c@ == current
    &&& i.expected_value matches Some(e) && e@ == recommended + "+"@
    &&& i.fixes@.len() == 1
}

fn missing_issue(id: &str, description: &str, min: &str, fixes: Vec<FixAction>) -> (r: EnvironmentIssue)
    requires
        fixes@.len() > 0,
    ensures
        is_missing_issue(r, id@, min@),
        r.fixes@ == fixes@,
{
    proof {
        reveal_strlit("not installed");
    }
    EnvironmentIssue::new(IssueSeverity::Critical, id.to_owned(), IssueType::MissingTool, description.to_owned())
        .with_expected_value(at_least(min))
        .with_current_value("not installed".to_owned())
        .with_fixes(fixes)
}

fn outdated_issue(id: &str, tool: &str, current: &str, recommended: &str, fix: FixAction) -> (r: EnvironmentIssue)
    ensures
        is_outdated_issue(r, id@, current@, recommended@),
        r.fixes@ == seq![fix],
{
    let r = EnvironmentIssue::new(
        IssueSeverity::Warning,
        id.to_owned(),
        IssueType::OutdatedVersion,
        outdated_text(tool, current, recommended),
    ).with_current_value(current.to_owned()).with_expected_value(at_least(recommended)).with_fix(fix);
    assert(r.fixes@ =~= seq![fix]);
    r
}

// ----- cargo -----

/// The fixes offered for a missing cargo on each platform.
pub open spec fn cargo_fix_table(platform: Platform) -> Seq<(FixType, Seq<char>, Option<Seq<char>>, Option<Seq<char>>)> {
    match platform {
        Platform::MacOs => seq![
            (FixType::RunCommand, "Install via Homebrew"@, Some("brew install rust"@), None),
            (FixType::CopyCommand, "Copy rustup install command"@, Some("curl --proto '=https' --tlsv1.2 -sSf https://sh.rustup.rs | sh"@), None),
            (FixType::OpenUrl, "Open rustup.rs"@, None, Some("https://rustup.rs/"@)),
        ],
        Platform::Windows => seq![
            (FixType::RunCommand, "Install via winget"@, Some("winget install Rustlang.Rustup"@), None),
            (FixType::OpenUrl, "Download Installer"@, None, Some("https://rustup.rs/"@)),
        ],
        Platform::Linux => seq![
            (FixType::CopyCommand, "Copy rustup install command"@, Some("curl --proto '=https' --tlsv1.2 -sSf https://sh.rustup.rs | sh"@), None),
            (FixType::OpenUrl, "Open rustup.rs"@, None, Some("https://rustup.rs/"@)),
        ],
        Platform::Other => seq![
            (FixType::OpenUrl, "Open rustup.rs"@, None, Some("https://rustup.rs/"@)),
        ],
    }
}

/// How to install Rust on `platform`.
pub fn get_cargo_install_fixes(platform: Platform) -> (r: Vec<FixAction>)
    ensures
        fix_views(r@) == cargo_fix_table(platform),
        ends_with_page(r@, "https://rustup.rs/"@),
{
    let mut v: Vec<FixAction> = Vec::new();
    match platform {
        Platform::MacOs => {
            v.push(fix(FixType::RunCommand, "Install via Homebrew", Some("brew install rust"), None));
            v.push(fix(FixType::CopyCommand, "Copy rustup install command", Some("curl --proto '=https' --tlsv1.2 -sSf https://sh.rustup.rs | sh"), None));
            v.push(fix(FixType::OpenUrl, "Open rustup.rs", None, Some("https://rustup.rs/")));
        },
        Platform::Windows => {
            v.push(fix(FixType::RunCommand, "Install via winget", Some("winget install Rustlang.Rustup"), None));
            v.push(fix(FixType::OpenUrl, "Download Installer", None, Some("https://rustup.rs/")));
        },
        Platform::Linux => {
            v.push(fix(FixType::CopyCommand, "Copy rustup install command", Some("curl --proto '=https' --tlsv1.2 -sSf https://sh.rustup.rs | sh"), None));
            v.push(fix(FixType::OpenUrl, "Open rustup.rs", None, Some("https://rustup.rs/")));
        },
        Platform::Other => {
            v.push(fix(FixType::OpenUrl, "Open rustup.rs", None, Some("https://rustup.rs/")));
        },
    }
    assert(fix_views(v@) =~= cargo_fix_table(platform));
    v
}

/// The issue for a missing cargo.
pub fn create_missing_cargo_issue(platform: Platform) -> (r: EnvironmentIssue)
    ensures
        is_missing_issue(r, "cargo"@, MIN_CARGO_VERSION@),
        fix_views(r.fixes@) == cargo_fix_table(platform),
{
    missing_issue("cargo", "Rust toolchain (cargo) not found", MIN_CARGO_VERSION, get_cargo_install_fixes(platform))
}

/// The issue for a cargo older than `recommended`.
pub fn create_outdated_cargo_issue(current: &str, recommended: &str) -> (r: EnvironmentIssue)
    ensures
        is_outdated_issue(r, "cargo"@, current@, recommended@),
        r.fixes@[0].action_type == FixType::RunCommand,
{
    outdated_issue("cargo", "cargo", current, recommended, fix(FixType::RunCommand, "Update via rustup", Some("rustup update"), None))
}

/// The issues that a status reports, given the minimum version: a missing
/// tool, or an installed one whose version reads as a semantic version
/// below the minimum.
pub open spec fn semver_issue_kind(status: ProviderStatus, min: Seq<char>) -> Option<bool> {
    if !status.installed {
        Some(true)
    } else {
        match status.version {
            Some(v) => if semver_of(v@) is Some && version_order(v@, min) < 0 {
                Some(false)
            } else {
                None
            },
            None => None,
        }
    }
}

/// The issues list that `semver_issue_kind` describes, for provider `id`.
pub open spec fn issues_match(issues: Seq<EnvironmentIssue>, status: ProviderStatus, id: Seq<char>, min: Seq<char>, kind: Option<bool>) -> bool {
    match kind {
        None => issues.len() == 0,
        Some(true) => issues.len() == 1 && is_missing_issue(issues[0], id, min),
        Some(false) => issues.len() == 1 && (status.version matches Some(v) && is_outdated_issue(
            issues[0],
            id,
            v@,
            min,
        )),
    }
}

/// Cargo's issues for `status`.
pub fn detect_cargo_issues(status: &ProviderStatus, platform: Platform) -> (r: Vec<EnvironmentIssue>)
    ensures
        issues_match(r@, *status, "cargo"@, MIN_CARGO_VERSION@, semver_issue_kind(*status, MIN_CARGO_VERSION@)),
{
    let mut issues: Vec<EnvironmentIssue> = Vec::new();
    if !status.installed {
        issues.push(create_missing_cargo_issue(platform));
        return issues;
    }
    if let Some(version) = &status.version {
        if parse_semver(version.as_str()).is_some() && compare_versions(version.as_str(), MIN_CARGO_VERSION) < 0 {
            issues.push(create_outdated_cargo_issue(version.as_str(), MIN_CARGO_VERSION));
        }
    }
    issues
}

// ----- dotnet -----

/// The fixes offered for a missing dotnet on each platform.
pub open spec fn dotnet_fix_table(platform: Platform) -> Seq<(FixType, Seq<char>, Option<Seq<char>>, Option<Seq<char>>)> {
    match platform {
        Platform::MacOs => seq![
            (FixType::RunCommand, "Install via Homebrew"@, Some("brew install dotnet"@), None),
            (FixType::OpenUrl, "Download .NET for macOS"@, None, Some("https://dotnet.microsoft.com/download/dotnet/8.0"@)),
        ],
        Platform::Windows => seq![
            (FixType::RunCommand, "Install via winget"@, Some("winget install Microsoft.DotNet.SDK.8"@), None),
            (FixType::OpenUrl, "Download .NET for Windows"@, None, Some("https://dotnet.microsoft.com/download/dotnet/8.0"@)),
        ],
        Platform::Linux => seq![
            (FixType::RunCommand, "Open Microsoft instructions"@, None, Some("https://learn.microsoft.com/en-us/dotnet/core/install/linux"@)),
            (FixType::OpenUrl, "Download .NET for Linux"@, None, Some("https://dotnet.microsoft.com/download/dotnet/8.0"@)),
        ],
        Platform::Other => seq![
            (FixType::OpenUrl, "Download .NET SDK"@, None, Some("https://dotnet.microsoft.com/download"@)),
        ],
    }
}

/// How to install the .NET SDK on `platform`.
pub fn get_dotnet_install_fixes(platform: Platform) -> (r: Vec<FixAction>)
    ensures
        fix_views(r@) == dotnet_fix_table(platform),
        r@.len() > 0,
        r@.last().action_type == FixType::OpenUrl,
{
    let mut v: Vec<FixAction> = Vec::new();
    match platform {
        Platform::MacOs => {
            v.push(fix(FixType::RunCommand, "Install via Homebrew", Some("brew install dotnet"), None));
            v.push(fix(FixType::OpenUrl, "Download .NET for macOS", None, Some("https://dotnet.microsoft.com/download/dotnet/8.0")));
        },
        Platform::Windows => {
            v.push(fix(FixType::RunCommand, "Install via winget", Some("winget install Microsoft.DotNet.SDK.8"), None));
            v.push(fix(FixType::OpenUrl, "Download .NET for Windows", None, Some("https://dotnet.microsoft.com/download/dotnet/8.0")));
        },
        Platform::Linux => {
            v.push(fix(FixType::RunCommand, "Open Microsoft instructions", None, Some("https://learn.microsoft.com/en-us/dotnet/core/install/linux")));
            v.push(fix(FixType::OpenUrl, "Download .NET for Linux", None, Some("https://dotnet.microsoft.com/download/dotnet/8.0")));
        },
        Platform::Other => {
            v.push(fix(FixType::OpenUrl, "Download .NET SDK", None, Some("https://dotnet.microsoft.com/download")));
        },
    }
    assert(fix_views(v@) =~= dotnet_fix_table(platform));
    v
}

/// The issue for a missing .NET SDK.
pub fn create_missing_dotnet_issue(platform: Platform) -> (r: EnvironmentIssue)
    ensures
        is_missing_issue(r, "dotnet"@, MIN_DOTNET_VERSION@),
        fix_views(r.fixes@) == dotnet_fix_table(platform),
{
    missing_issue("dotnet", ".NET SDK (dotnet) not found", MIN_DOTNET_VERSION, get_dotnet_install_fixes(platform))
}

/// The issue for a .NET SDK older than `recommended`.
pub fn create_outdated_dotnet_issue(current: &str, recommended: &str) -> (r: EnvironmentIssue)
    ensures
        is_outdated_issue(r, "dotnet"@, current@, recommended@),
        r.fixes@[0].action_type == FixType::OpenUrl,
{
    outdated_issue("dotnet", ".NET SDK", current, recommended, fix(FixType::OpenUrl, "Download .NET SDK", None, Some("https://dotnet.microsoft.com/download")))
}

/// The .NET SDK's issues for `status`.
pub fn detect_dotnet_issues(status: &ProviderStatus, platform: Platform) -> (r: Vec<EnvironmentIssue>)
    ensures
        issues_match(r@, *status, "dotnet"@, MIN_DOTNET_VERSION@, semver_issue_kind(*status, MIN_DOTNET_VERSION@)),
{
    let mut issues: Vec<EnvironmentIssue> = Vec::new();
    if !status.installed {
        issues.push(create_missing_dotnet_issue(platform));
        return issues;
    }
    if let Some(version) = &status.version {
        if parse_semver(version.as_str()).is_some() && compare_versions(version.as_str(), MIN_DOTNET_VERSION) < 0 {
            issues.push(create_outdated_dotnet_issue(version.as_str(), MIN_DOTNET_VERSION));
        }
    }
    issues
}

// ----- go -----

/// The fixes offered for a missing go on each platform.
pub open spec fn go_fix_table(platform: Platform) -> Seq<(FixType, Seq<char>, Option<Seq<char>>, Option<Seq<char>>)> {
    match platform {
        Platform::MacOs => seq![
            (FixType::RunCommand, "Install via Homebrew"@, Some("brew install go"@), None),
            (FixType::OpenUrl, "Download Go for macOS"@, None, Some("https://go.dev/dl/"@)),
        ],
        Platform::Windows => seq![
            (FixType::RunCommand, "Install via winget"@, Some("winget install GoLang.Go"@), None),
            (FixType::OpenUrl, "Download Go for Windows"@, None, Some("https://go.dev/dl/"@)),
        ],
        Platform::Linux => seq![
            (FixType::CopyCommand, "Copy snap install command"@, Some("snap install go --classic"@), None),
            (FixType::OpenUrl, "Download Go for Linux"@, None, Some("https://go.dev/dl/"@)),
        ],
        Platform::Other => seq![
            (FixType::OpenUrl, "Download Go"@, None, Some("https://go.dev/dl/"@)),
        ],
    }
}

/// How to install Go on `platform`.
pub fn get_go_install_fixes(platform: Platform) -> (r: Vec<FixAction>)
    ensures
        fix_views(r@) == go_fix_table(platform),
        ends_with_page(r@, "https://go.dev/dl/"@),
{
    let mut v: Vec<FixAction> = Vec::new();
    match platform {
        Platform::MacOs => {
            v.push(fix(FixType::RunCommand, "Install via Homebrew", Some("brew install go"), None));
            v.push(fix(FixType::OpenUrl, "Download Go for macOS", None, Some("https://go.dev/dl/")));
        },
        Platform::Windows => {
            v.push(fix(FixType::RunCommand, "Install via winget", Some("winget install GoLang.Go"), None));
            v.push(fix(FixType::OpenUrl, "Download Go for Windows", None, Some("https://go.dev/dl/")));
        },
        Platform::Linux => {
            v.push(fix(FixType::CopyCommand, "Copy snap install command", Some("snap install go --classic"), None));
            v.push(fix(FixType::OpenUrl, "Download Go for Linux", None, Some("https://go.dev/dl/")));
        },
        Platform::Other => {
            v.push(fix(FixType::OpenUrl, "Download Go", None, Some("https://go.dev/dl/")));
        },
    }
    assert(fix_views(v@) =~= go_fix_table(platform));
    v
}

/// The issue for a missing Go toolchain.
pub fn create_missing_go_issue(platform: Platform) -> (r: EnvironmentIssue)
    ensures
        is_missing_issue(r, "go"@, MIN_GO_VERSION@),
        fix_views(r.fixes@) == go_fix_table(platform),
{
    missing_issue("go", "Go toolchain not found", MIN_GO_VERSION, get_go_install_fixes(platform))
}

/// The issue for a Go toolchain older than `recommended`.
pub fn create_outdated_go_issue(current: &str, recommended: &str) -> (r: EnvironmentIssue)
    ensures
        is_outdated_issue(r, "go"@, current@, recommended@),
        r.fixes@[0].action_type == FixType::OpenUrl,
{
    outdated_issue("go", "Go", current, recommended, fix(FixType::OpenUrl, "Download Go", None, Some("https://go.dev/dl/")))
}

/// Go's issues for `status`.
pub fn detect_go_issues(status: &ProviderStatus, platform: Platform) -> (r: Vec<EnvironmentIssue>)
    ensures
        issues_match(r@, *status, "go"@, MIN_GO_VERSION@, semver_issue_kind(*status, MIN_GO_VERSION@)),
{
    let mut issues: Vec<EnvironmentIssue> = Vec::new();
    if !status.installed {
        issues.push(create_missing_go_issue(platform));
        return issues;
    }
    if let Some(version) = &status.version {
        if parse_semver(version.as_str()).is_some() && compare_versions(version.as_str(), MIN_GO_VERSION) < 0 {
            issues.push(create_outdated_go_issue(version.as_str(), MIN_GO_VERSION));
        }
    }
    issues
}

// ----- java -----

/// The fixes offered for a missing java on each platform.
pub open spec fn java_fix_table(platform: Platform) -> Seq<(FixType, Seq<char>, Option<Seq<char>>, Option<Seq<char>>)> {
    match platform {
        Platform::MacOs => seq![
            (FixType::RunCommand, "Install via Homebrew"@, Some("brew install openjdk"@), None),
            (FixType::OpenUrl, "Download JDK for macOS"@, None, Some("https://adoptium.net/"@)),
        ],
        Platform::Windows => seq![
            (FixType::RunCommand, "Install via winget"@, Some("winget install EclipseAdoptium.Temurin.21.JDK"@), None),
            (FixType::OpenUrl, "Download JDK for Windows"@, None, Some("https://adoptium.net/"@)),
        ],
        Platform::Linux => seq![
            (FixType::CopyCommand, "Copy apt install command"@, Some("sudo apt install openjdk-17-jdk"@), None),
            (FixType::OpenUrl, "Download JDK for Linux"@, None, Some("https://adoptium.net/"@)),
        ],
        Platform::Other => seq![
            (FixType::OpenUrl, "Download JDK"@, None, Some("https://adoptium.net/"@)),
        ],
    }
}

/// How to install a JDK on `platform`.
pub fn get_java_install_fixes(platform: Platform) -> (r: Vec<FixAction>)
    ensures
        fix_views(r@) == java_fix_table(platform),
        ends_with_page(r@, "https://adoptium.net/"@),
{
    let mut v: Vec<FixAction> = Vec::new();
    match platform {
        Platform::MacOs => {
            v.push(fix(FixType::RunCommand, "Install via Homebrew", Some("brew install openjdk"), None));
            v.push(fix(FixType::OpenUrl, "Download JDK for macOS", None, Some("https://adoptium.net/")));
        },
        Platform::Windows => {
            v.push(fix(FixType::RunCommand, "Install via winget", Some("winget install EclipseAdoptium.Temurin.21.JDK"), None));
            v.push(fix(FixType::OpenUrl, "Download JDK for Windows", None, Some("https://adoptium.net/")));
        },
        Platform::Linux => {
            v.push(fix(FixType::CopyCommand, "Copy apt install command", Some("sudo apt install openjdk-17-jdk"), None));
            v.push(fix(FixType::OpenUrl, "Download JDK for Linux", None, Some("https://adoptium.net/")));
        },
        Platform::Other => {
            v.push(fix(FixType::OpenUrl, "Download JDK", None, Some("https://adoptium.net/")));
        },
    }
    assert(fix_views(v@) =~= java_fix_table(platform));
    v
}

/// The issue for a missing JDK.
pub fn create_missing_java_issue(platform: Platform) -> (r: EnvironmentIssue)
    ensures
        is_missing_issue(r, "java"@, MIN_JAVA_VERSION@),
        fix_views(r.fixes@) == java_fix_table(platform),
{
    missing_issue("java", "Java (JDK) not found", MIN_JAVA_VERSION, get_java_install_fixes(platform))
}

/// The issue for a JDK older than `recommended`.
pub fn create_outdated_java_issue(current: &str, recommended: &str) -> (r: EnvironmentIssue)
    ensures
        is_outdated_issue(r, "java"@, current@, recommended@),
        r.fixes@[0].action_type == FixType::OpenUrl,
{
    outdated_issue("java", "Java", current, recommended, fix(FixType::OpenUrl, "Download JDK", None, Some("https://adoptium.net/")))
}

/// Java versions are major numbers: an installed JDK is outdated when its
/// version reads as a `u32` below the minimum's.
pub open spec fn java_issue_kind(status: ProviderStatus) -> Option<bool> {
    if !status.installed {
        Some(true)
    } else {
        match status.version {
            Some(v) => match (parse_u32_text(v@), parse_u32_text(MIN_JAVA_VERSION@)) {
                (Some(cur), Some(min)) => if cur < min {
                    Some(false)
                } else {
                    None
                },
                _ => None,
            },
            None => None,
        }
    }
}

/// Java's issues for `status`.
pub fn detect_java_issues(status: &ProviderStatus, platform: Platform) -> (r: Vec<EnvironmentIssue>)
    ensures
        issues_match(r@, *status, "java"@, MIN_JAVA_VERSION@, java_issue_kind(*status)),
{
    let mut issues: Vec<EnvironmentIssue> = Vec::new();
    if !status.installed {
        issues.push(create_missing_java_issue(platform));
        return issues;
    }
    if let Some(version) = &status.version {
        if let Some(cur) = parse_u32(version.as_str()) {
            if let Some(min) = parse_u32(MIN_JAVA_VERSION) {
                if cur < min {
                    issues.push(create_outdated_java_issue(version.as_str(), MIN_JAVA_VERSION));
                }
            }
        }
    }
    issues
}

/// The provider ids the probe knows.
pub open spec fn probed_id(id: Seq<char>) -> bool {
    id == "cargo"@ || id == "dotnet"@ || id == "go"@ || id == "java"@
}

/// A probed provider's minimum version.
pub open spec fn min_version_of(id: Seq<char>) -> Seq<char> {
    if id == "cargo"@ {
        MIN_CARGO_VERSION@
    } else if id == "dotnet"@ {
        MIN_DOTNET_VERSION@
    } else if id == "go"@ {
        MIN_GO_VERSION@
    } else {
        MIN_JAVA_VERSION@
    }
}

/// Which issue a probed provider's status shows (see `issues_match`).
pub open spec fn issue_kind_of(id: Seq<char>, status: ProviderStatus) -> Option<bool> {
    if id == "cargo"@ || id == "dotnet"@ || id == "go"@ {
        semver_issue_kind(status, min_version_of(id))
    } else {
        java_issue_kind(status)
    }
}

/// The text of the issue for an id the probe does not know.
pub open spec fn unsupported_text(id: Seq<char>) -> Seq<char> {
    "Unsupported provider_id: "@ + id
}

/// Adds one provider's check to `result`: for a known provider with its
/// status, the issues its status shows (those of `detect_*_issues`), then
/// the status; otherwise an `Info` issue naming the unsupported id.
pub fn add_provider_report(
    result: EnvironmentCheckResult,
    provider_id: &str,
    status: Option<ProviderStatus>,
    platform: Platform,
) -> (r: EnvironmentCheckResult)
    ensures
        probed_id(provider_id@) && status is Some ==> {
            &&& r.providers@ == result.providers@.push(status->0)
            &&& r.is_ready == (result.is_ready && status->0.installed)
            &&& exists|added: Seq<EnvironmentIssue>| r.issues@ == result.issues@ + added && issues_match(
                added,
                status->0,
                provider_id@,
                min_version_of(provider_id@),
                issue_kind_of(provider_id@, status->0),
            )
        },
        !(probed_id(provider_id@) && status is Some) ==> {
            &&& r.providers@ == result.providers@
            &&& r.is_ready == result.is_ready
            &&& r.issues@.len() == result.issues@.len() + 1
            &&& r.issues@.drop_last() == result.issues@
            &&& r.issues@.last().severity == IssueSeverity::Info
            &&& r.issues@.last().issue_type == IssueType::MissingTool
            &&& r.issues@.last().provider_id@ == provider_id@
            &&& r.issues@.last().description@ == unsupported_text(provider_id@)
        },
{
    let known = same_text(provider_id, "cargo") || same_text(provider_id, "dotnet") || same_text(provider_id, "go")
        || same_text(provider_id, "java");
    match status {
        Some(st) if known => {
            let issues = if same_text(provider_id, "cargo") {
                detect_cargo_issues(&st, platform)
            } else if same_text(provider_id, "dotnet") {
                detect_dotnet_issues(&st, platform)
            } else if same_text(provider_id, "go") {
                detect_go_issues(&st, platform)
            } else {
                detect_java_issues(&st, platform)
            };
            let ghost added = issues@;
            proof {
                assert(issues_match(added, st, provider_id@, min_version_of(provider_id@), issue_kind_of(provider_id@, st)));
                assert(issues@.len() <= 1);
                assert(issues@.len() == 1 ==> (issues@[0].severity == IssueSeverity::Critical <==> !st.installed));
                assert(!st.installed ==> issues@.len() == 1);
            }
            let mut r = result;
            let ghost start = r.issues@;
            let mut issues = issues;
            if issues.len() == 1 {
                let issue = issues.remove(0);
                r = r.with_issue(issue);
                assert(r.issues@ =~= start + added);
            } else {
                assert(r.issues@ =~= start + added);
            }
            r.with_provider(st)
        },
        _ => {
            let mut description = "Unsupported provider_id: ".to_owned();
            push_str(&mut description, provider_id);
            let r = result.with_issue(
                EnvironmentIssue::new(IssueSeverity::Info, provider_id.to_owned(), IssueType::MissingTool, description),
            );
            assert(r.issues@.drop_last() =~= result.issues@);
            r
        },
    }
}

/// How many entries name a probed provider and carry its status.
pub open spec fn probed_count(entries: Seq<(String, Option<ProviderStatus>)>) -> nat
    decreases entries.len(),
{
    if entries.len() == 0 {
        0
    } else {
        probed_count(entries.drop_last()) + if probed_id(entries.last().0@) && entries.last().1 is Some {
            1nat
        } else {
            0nat
        }
    }
}

/// The environment check over the requested providers, in order, each with
/// the status its probe found (none for an id the probe does not know):
/// every entry is reported as `add_provider_report` says, and the result is
/// ready exactly when no issue is critical.
pub fn check_environment_report(entries: Vec<(String, Option<ProviderStatus>)>, platform: Platform) -> (r:
    EnvironmentCheckResult)
    ensures
        r.is_ready == crate::environment::none_critical(r.issues@),
        r.providers@.len() == probed_count(entries@),
{
    let ghost orig = entries@;
    let n = entries.len();
    let mut entries = entries;
    let mut result = EnvironmentCheckResult::new();
    let mut i: usize = 0;
    while i < n
        invariant
            n == orig.len(),
            i <= n,
            entries@ == orig.subrange(i as int, n as int),
            result.providers@.len() == probed_count(orig.subrange(0, i as int)),
        decreases n - i,
    {
        assert(orig.subrange(0, i + 1).drop_last() =~= orig.subrange(0, i as int));
        assert(entries@[0] == orig[i as int]);
        let (id, status) = entries.remove(0);
        result = add_provider_report(result, id.as_str(), status, platform);
        assert(entries@ =~= orig.subrange(i + 1, n as int));
        i = i + 1;
    }
    assert(orig.subrange(0, n as int) =~= orig);
    result.check_ready();
    result
}

} // verus!
