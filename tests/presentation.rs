use one_publish::reports::{csv_escape, html_escape, markdown_link};
use one_publish::repository::{
    classify_git_branch_scan_error, detect_provider_from_markers, format_git_command_failure, ProjectMarkers,
};
use one_publish::shortcuts::get_shortcuts_help;
use one_publish::toolchains::Platform;
use one_publish::tray::TrayTexts;

#[test]
fn html_escape_replaces_special_characters() {
    assert_eq!(html_escape("/tmp/out/a&b.md"), "/tmp/out/a&amp;b.md");
    assert_eq!(html_escape("<bundle>\"'"), "&lt;bundle&gt;&quot;&#39;");
}

#[test]
fn markdown_link_escapes_label_only() {
    assert_eq!(
        markdown_link("/tmp/out/execution-snapshot 1.md"),
        "[/tmp/out/execution-snapshot 1.md](</tmp/out/execution-snapshot 1.md>)"
    );
    assert_eq!(markdown_link("a[b]\\c"), "[a\\[b\\]\\\\c](<a[b]\\c>)");
}

#[test]
fn csv_escape_quotes_when_needed() {
    assert_eq!(csv_escape("plain"), "plain");
    assert_eq!(csv_escape("a,b"), "\"a,b\"");
    assert_eq!(csv_escape("say \"hi\""), "\"say \"\"hi\"\"\"");
}

#[test]
fn git_failures_are_reported_and_classified() {
    assert_eq!(format_git_command_failure("fetch", b"  \n"), "git fetch command failed");
    assert_eq!(format_git_command_failure("fetch", b" fatal: boom \n"), "git fetch command failed: fatal: boom");
    assert_eq!(classify_git_branch_scan_error("fatal: Not a git repository"), "not_git_repo");
    assert_eq!(classify_git_branch_scan_error("Permission denied (publickey)"), "permission_denied");
    assert_eq!(classify_git_branch_scan_error("Could not resolve host: x"), "cannot_connect_repo");
    assert_eq!(classify_git_branch_scan_error("something else"), "unknown");
}

#[test]
fn provider_detection_prefers_dotnet_then_cargo() {
    let m = ProjectMarkers { dotnet: true, cargo: true, go: false, java: false };
    assert_eq!(detect_provider_from_markers(&m), Some("dotnet"));
    let m = ProjectMarkers { dotnet: false, cargo: false, go: true, java: true };
    assert_eq!(detect_provider_from_markers(&m), Some("go"));
    let m = ProjectMarkers { dotnet: false, cargo: false, go: false, java: false };
    assert_eq!(detect_provider_from_markers(&m), None);
}

#[test]
fn shortcuts_and_tray_texts() {
    let help = get_shortcuts_help(Platform::Linux);
    assert_eq!(help.len(), 3);
    assert_eq!(help[0].key, "Ctrl R");
    assert_eq!(get_shortcuts_help(Platform::MacOs)[1].key, "⌘ P");
    assert_eq!(TrayTexts::from_language("en").quit, "Quit");
    assert_eq!(TrayTexts::from_language("zh").show_main, "显示主界面");
}
