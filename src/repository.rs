//! Repository-level decisions: which provider a project directory points
//! at, and how git failures are reported and classified.

use vstd::prelude::*;
use crate::text::{push_str, to_chars, string_of, find_text, trim_bounds, contains_text, trim};
use crate::version::{lossy_text, decode_lossy};

verus! {

/// Which build files were found in a project directory.
#[derive(Debug, Clone, Copy)]
pub struct ProjectMarkers {
    /// A `.sln` or `.csproj` there, or a `.csproj` under `src` or `UI`.
    pub dotnet: bool,
    /// `Cargo.toml`.
    pub cargo: bool,
    /// `go.mod`.
    pub go: bool,
    /// A Gradle or Maven build file, or the Gradle wrapper.
    pub java: bool,
}

/// The provider for a directory: dotnet, then cargo, then go, then java.
pub open spec fn provider_for(m: ProjectMarkers) -> Option<Seq<char>> {
    if m.dotnet {
        Some("dotnet"@)
    } else if m.cargo {
        Some("cargo"@)
    } else if m.go {
        Some("go"@)
    } else if m.java {
        Some("java"@)
    } else {
        None
    }
}

/// Picks the provider that the markers point at.
pub fn detect_provider_from_markers(markers: &ProjectMarkers) -> (r: Option<&'static str>)
    ensures
        match r {
            Some(id) => provider_for(*markers) == Some(id@),
            None => provider_for(*markers) is None,
        },
{
    if markers.dotnet {
        Some("dotnet")
    } else if markers.cargo {
        Some("cargo")
    } else if markers.go {
        Some("go")
    } else if markers.java {
        Some("java")
    } else {
        None
    }
}

/// `git {command} command failed`, with `: {error}` when git said
/// something.
pub open spec fn git_failure_text(command: Seq<char>, error: Seq<char>) -> Seq<char> {
    let head = "git "@ + command + " command failed"@;
    if error.len() == 0 {
        head
    } else {
        head + ": "@ + error
    }
}

/// Reports a failed git command from its decoded error output.
pub fn format_git_failure_text(command: &str, stderr: &str) -> (r: String)
    ensures
        r@ == git_failure_text(command@, trim(stderr@)),
{
    let cs = to_chars(stderr);
    assert(cs@.subrange(0, cs@.len() as int) =~= cs@);
    let (a, b) = trim_bounds(cs.as_slice(), 0, cs.len());
    let mut s = "git ".to_owned();
    push_str(&mut s, command);
    push_str(&mut s, " command failed");
    if a < b {
        let error = string_of(cs.as_slice(), a, b);
        push_str(&mut s, ": ");
        push_str(&mut s, error.as_str());
    }
    s
}

/// Reports a failed git command from its error output.
pub fn format_git_command_failure(command: &str, stderr: &[u8]) -> (r: String)
    ensures
        r@ == git_failure_text(command@, trim(lossy_text(stderr@))),
{
    let text = decode_lossy(stderr);
    format_git_failure_text(command, text.as_str())
}

/// Lower-cased text, as `str::to_lowercase` gives it.
pub uninterp spec fn lower_of(s: Seq<char>) -> Seq<char>;

/// Relies on `str::to_lowercase`: the lower case of each character; the
/// result depends on the text alone.
#[verifier::external_body]
fn lowercase(s: &str) -> (r: String)
    ensures
        r@ == lower_of(s@),
{
    s.to_lowercase()
}

pub open spec fn not_a_repo(s: Seq<char>) -> bool {
    contains_text(s, "not a git repository"@) || contains_text(s, "不是 git 仓库"@) || contains_text(
        s,
        "不是一个git仓库"@,
    )
}

pub open spec fn denied(s: Seq<char>) -> bool {
    contains_text(s, "permission denied"@) || contains_text(s, "operation not permitted"@)
        || contains_text(s, "访问被拒绝"@) || contains_text(s, "权限"@)
}

pub open spec fn unreachable_remote(s: Seq<char>) -> bool {
    contains_text(s, "unable to access"@) || contains_text(s, "failed to connect"@) || contains_text(
        s,
        "could not resolve host"@,
    ) || contains_text(s, "connection timed out"@) || contains_text(s, "connection refused"@)
        || contains_text(s, "unable to connect"@) || contains_text(s, "unable to look up"@)
        || contains_text(s, "couldn't connect to server"@) || contains_text(s, "network is unreachable"@)
        || contains_text(s, "could not read from remote repository"@) || contains_text(
        s,
        "could not read username"@,
    ) || contains_text(s, "authentication failed"@) || contains_text(s, "publickey"@)
        || contains_text(s, "repository not found"@) || contains_text(s, "proxy connect aborted"@)
        || contains_text(s, "无法连接"@) || contains_text(s, "连接超时"@) || contains_text(
        s,
        "连接被拒绝"@,
    ) || contains_text(s, "无法访问远程仓库"@) || contains_text(s, "无法从远程仓库读取"@)
        || contains_text(s, "无法解析主机"@) || contains_text(s, "网络不可达"@)
}

/// The class of a git branch-scan failure, from lower-cased error text.
pub open spec fn scan_error_class(s: Seq<char>) -> Seq<char> {
    if not_a_repo(s) {
        "not_git_repo"@
    } else if contains_text(s, "detected dubious ownership"@) {
        "dubious_ownership"@
    } else if denied(s) {
        "permission_denied"@
    } else if unreachable_remote(s) {
        "cannot_connect_repo"@
    } else {
        "unknown"@
    }
}

/// Whether `needle` occurs in `hay`.
fn mentions(hay: &Vec<char>, needle: &str) -> (r: bool)
    ensures
        r == contains_text(hay@, needle@),
{
    let n = to_chars(needle);
    find_text(hay.as_slice(), n.as_slice())
}

/// Classifies lower-cased git error text.
pub fn classify_lowered_scan_error(normalized: &str) -> (r: &'static str)
    ensures
        r@ == scan_error_class(normalized@),
{
    let s = to_chars(normalized);
    if mentions(&s, "not a git repository") || mentions(&s, "不是 git 仓库") || mentions(&s, "不是一个git仓库") {
        return "not_git_repo";
    }
    if mentions(&s, "detected dubious ownership") {
        return "dubious_ownership";
    }
    if mentions(&s, "permission denied") || mentions(&s, "operation not permitted") || mentions(&s, "访问被拒绝")
        || mentions(&s, "权限") {
        return "permission_denied";
    }
    if mentions(&s, "unable to access") || mentions(&s, "failed to connect") || mentions(&s, "could not resolve host")
        || mentions(&s, "connection timed out") || mentions(&s, "connection refused") || mentions(&s, "unable to connect")
        || mentions(&s, "unable to look up") || mentions(&s, "couldn't connect to server") || mentions(
        &s,
        "network is unreachable",
    ) || mentions(&s, "could not read from remote repository") || mentions(&s, "could not read username")
        || mentions(&s, "authentication failed") || mentions(&s, "publickey") || mentions(&s, "repository not found")
        || mentions(&s, "proxy connect aborted") || mentions(&s, "无法连接") || mentions(&s, "连接超时") || mentions(
        &s,
        "连接被拒绝",
    ) || mentions(&s, "无法访问远程仓库") || mentions(&s, "无法从远程仓库读取") || mentions(&s, "无法解析主机")
        || mentions(&s, "网络不可达") {
        return "cannot_connect_repo";
    }
    "unknown"
}

/// Classifies the error output of a git branch scan.
pub fn classify_git_branch_scan_error(stderr: &str) -> (r: &'static str)
    ensures
        r@ == scan_error_class(lower_of(stderr@)),
{
    let normalized = lowercase(stderr);
    classify_lowered_scan_error(normalized.as_str())
}

} // verus!
