//! What the environment probe reports: issues with guided fixes, the
//! status of each toolchain, and the overall readiness.

use vstd::prelude::*;

verus! {

#[derive(PartialEq, Eq, Structural, Clone, Copy, Debug)]
pub enum IssueSeverity {
    /// Blocks publishing.
    Critical,
    Warning,
    Info,
}

#[derive(PartialEq, Eq, Structural, Clone, Copy, Debug)]
pub enum IssueType {
    MissingTool,
    OutdatedVersion,
    MissingDependency,
    IncompatibleVersion,
}

#[derive(PartialEq, Eq, Structural, Clone, Copy, Debug)]
pub enum FixType {
    OpenUrl,
    RunCommand,
    CopyCommand,
    Manual,
}

/// A fix the user can apply.
#[derive(Debug)]
pub struct FixAction {
    pub action_type: FixType,
    pub label: String,
    pub command: Option<String>,
    pub url: Option<String>,
}

/// What applying a fix did.
#[derive(Debug)]
pub enum FixResult {
    OpenedUrl(String),
    CommandExecuted { stdout: String, stderr: String, exit_code: i32 },
    CopiedToClipboard(String),
    Manual(String),
}

/// A problem found in the environment.
#[derive(Debug)]
pub struct EnvironmentIssue {
    pub severity: IssueSeverity,
    pub provider_id: String,
    pub issue_type: IssueType,
    pub description: String,
    pub current_value: Option<String>,
    pub expected_value: Option<String>,
    pub fixes: Vec<FixAction>,
}

impl EnvironmentIssue {
    /// An issue with no values and no fixes yet.
    pub fn new(severity: IssueSeverity, provider_id: String, issue_type: IssueType, description: String) -> (r:
        Self)
        ensures
            r.severity == severity,
            r.provider_id == provider_id,
            r.issue_type == issue_type,
            r.description == description,
            r.current_value is None,
            r.expected_value is None,
            r.fixes@.len() == 0,
    {
        EnvironmentIssue {
            severity,
            provider_id,
            issue_type,
            description,
            current_value: None,
            expected_value: None,
            fixes: Vec::new(),
        }
    }

    pub fn with_current_value(self, value: String) -> (r: Self)
        ensures
            r == (EnvironmentIssue { current_value: Some(value), ..self }),
    {
        let mut s = self;
        s.current_value = Some(value);
        s
    }

    pub fn with_expected_value(self, value: String) -> (r: Self)
        ensures
            r == (EnvironmentIssue { expected_value: Some(value), ..self }),
    {
        let mut s = self;
        s.expected_value = Some(value);
        s
    }

    /// Adds one fix at the end.
    pub fn with_fix(self, fix: FixAction) -> (r: Self)
        ensures
            r.fixes@ == self.fixes@.push(fix),
            r.severity == self.severity,
            r.provider_id == self.provider_id,
            r.issue_type == self.issue_type,
            r.description == self.description,
            r.current_value == self.current_value,
            r.expected_value == self.expected_value,
    {
        let mut s = self;
        s.fixes.push(fix);
        s
    }

    /// Adds fixes at the end, in order.
    pub fn with_fixes(self, fixes: Vec<FixAction>) -> (r: Self)
        ensures
            r.fixes@ == self.fixes@ + fixes@,
            r.severity == self.severity,
            r.provider_id == self.provider_id,
            r.issue_type == self.issue_type,
            r.description == self.description,
            r.current_value == self.current_value,
            r.expected_value == self.expected_value,
    {
        let mut s = self;
        let mut more = fixes;
        s.fixes.append(&mut more);
        s
    }
}

/// Whether a toolchain is installed, and which version where.
#[derive(Debug)]
pub struct ProviderStatus {
    pub provider_id: String,
    pub installed: bool,
    pub version: Option<String>,
    pub path: Option<String>,
}

/// The outcome of an environment check.
#[derive(Debug)]
pub struct EnvironmentCheckResult {
    pub is_ready: bool,
    pub providers: Vec<ProviderStatus>,
    pub issues: Vec<EnvironmentIssue>,
    pub checked_at: String,
}

/// Relies on chrono's `Utc::now` and `DateTime::to_rfc3339`: the current
/// time as RFC 3339 text. Nothing is promised of its value.
#[verifier::external_body]
fn now_rfc3339() -> (r: String) {
    chrono::Utc::now().to_rfc3339()
}

/// No issue is critical.
pub open spec fn none_critical(issues: Seq<EnvironmentIssue>) -> bool {
    forall|i: int| 0 <= i < issues.len() ==> (#[trigger] issues[i]).severity != IssueSeverity::Critical
}

impl EnvironmentCheckResult {
    /// A ready result with no provider and no issue, stamped with the
    /// current time.
    pub fn new() -> (r: Self)
        ensures
            r.is_ready,
            r.providers@.len() == 0,
            r.issues@.len() == 0,
    {
        EnvironmentCheckResult {
            is_ready: true,
            providers: Vec::new(),
            issues: Vec::new(),
            checked_at: now_rfc3339(),
        }
    }

    /// Adds a provider's status; one that is not installed makes the result
    /// not ready.
    pub fn with_provider(self, status: ProviderStatus) -> (r: Self)
        ensures
            r.providers@ == self.providers@.push(status),
            r.is_ready == (self.is_ready && status.installed),
            r.issues == self.issues,
            r.checked_at == self.checked_at,
    {
        let mut s = self;
        let installed = status.installed;
        s.providers.push(status);
        if !installed {
            s.is_ready = false;
        }
        s
    }

    /// Adds an issue; a critical one makes the result not ready.
    pub fn with_issue(self, issue: EnvironmentIssue) -> (r: Self)
        ensures
            r.issues@ == self.issues@.push(issue),
            r.is_ready == (self.is_ready && issue.severity != IssueSeverity::Critical),
            r.providers == self.providers,
            r.checked_at == self.checked_at,
    {
        let mut s = self;
        if issue.severity == IssueSeverity::Critical {
            s.is_ready = false;
        }
        s.issues.push(issue);
        s
    }

    /// Recomputes readiness: ready exactly when no issue is critical.
    pub fn check_ready(&mut self)
        ensures
            final(self).is_ready == none_critical(old(self).issues@),
            final(self).issues == old(self).issues,
            final(self).providers == old(self).providers,
            final(self).checked_at == old(self).checked_at,
    {
        let mut ready = true;
        let mut i: usize = 0;
        while i < self.issues.len()
            invariant
                i <= self.issues@.len(),
                ready == none_critical(self.issues@.subrange(0, i as int)),
            decreases self.issues.len() - i,
        {
            if self.issues[i].severity == IssueSeverity::Critical {
                assert(self.issues@.subrange(0, i + 1)[i as int] == self.issues@[i as int]);
                ready = false;
            }
            assert forall|j: int| 0 <= j < i + 1 implies #[trigger] self.issues@.subrange(0, i + 1)[j] == self.issues@[j] by {}
            i = i + 1;
        }
        assert(self.issues@.subrange(0, self.issues@.len() as int) =~= self.issues@);
        self.is_ready = ready;
    }
}

} // verus!
