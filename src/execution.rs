//! The decisions of the execution engine: the single-flight slot, how a
//! finished run is classified, and how a plan becomes a command line. The
//! process itself is spawned and watched by the caller.

use vstd::prelude::*;
use vstd::string::StrSliceExecFns;
use crate::errors::AppError;
use crate::plan::ExecutionPlan;
use crate::keyed::{StrMap, lookup};
use crate::value::{PublishSpec, SpecValue};
use crate::text::{
    push_char, push_str, to_chars, same_text, split_words, words_of, views, decimal, decimal_text,
    signed_decimal, signed_text, opt_view,
};

verus! {

// ----- the single-flight slot -----

/// The slot as contracts see it: empty, or the running session's id and
/// whether cancellation was requested.
pub open spec fn slot_state(o: Option<RunningExecution>) -> Option<(Seq<char>, bool)> {
    match o {
        Some(r) => Some((r.session_id@, r.cancel_requested)),
        None => None,
    }
}

/// Starting session `sid`: refused while a session runs (state unchanged),
/// else the slot holds `sid` with no cancellation requested.
pub open spec fn start_step(s: Option<(Seq<char>, bool)>, sid: Seq<char>) -> (Option<(Seq<char>, bool)>, bool) {
    match s {
        Some(_) => (s, false),
        None => (Some((sid, false)), true),
    }
}

/// Requesting cancellation: marks the running session; nothing to do when
/// the slot is empty.
pub open spec fn cancel_step(s: Option<(Seq<char>, bool)>) -> (Option<(Seq<char>, bool)>, bool) {
    match s {
        Some((id, _)) => (Some((id, true)), true),
        None => (s, false),
    }
}

/// Session `sid` finished: the slot is cleared only if it still holds `sid`.
pub open spec fn finish_step(s: Option<(Seq<char>, bool)>, sid: Seq<char>) -> Option<(Seq<char>, bool)> {
    match s {
        Some((id, _)) => if id == sid {
            None
        } else {
            s
        },
        None => s,
    }
}

/// Whether cancellation was requested for session `sid`.
pub open spec fn cancel_flag(s: Option<(Seq<char>, bool)>, sid: Seq<char>) -> bool {
    match s {
        Some((id, c)) => id == sid && c,
        None => false,
    }
}

/// The one running execution.
#[derive(Debug)]
pub struct RunningExecution {
    pub session_id: String,
    pub cancel_requested: bool,
}

/// Holds at most one running execution.
#[derive(Debug)]
pub struct ExecutionSlot {
    running: Option<RunningExecution>,
}

impl View for ExecutionSlot {
    type V = Option<(Seq<char>, bool)>;

    closed spec fn view(&self) -> Option<(Seq<char>, bool)> {
        slot_state(self.running)
    }
}

impl ExecutionSlot {
    /// An empty slot.
    pub fn new() -> (r: ExecutionSlot)
        ensures
            r@ is None,
    {
        ExecutionSlot { running: None }
    }

    /// Whether a session is running.
    pub fn is_running(&self) -> (r: bool)
        ensures
            r == self@ is Some,
    {
        self.running.is_some()
    }

    /// Occupies the slot with `session_id`, or fails with
    /// `publish_already_running` and leaves the slot as it was.
    pub fn try_start(&mut self, session_id: String) -> (r: Result<(), AppError>)
        ensures
            (final(self)@, r is Ok) == start_step(old(self)@, session_id@),
            r matches Err(e) ==> opt_view(e.code) == Some("publish_already_running"@),
    {
        if self.running.is_some() {
            return Err(
                AppError::unknown_with_code(
                    "another publish execution is already running".to_owned(),
                    "publish_already_running",
                ),
            );
        }
        self.running = Some(RunningExecution { session_id, cancel_requested: false });
        Ok(())
    }

    /// Marks the running session as cancelled; `false` when none runs. The
    /// caller then kills the child process.
    pub fn request_cancel(&mut self) -> (r: bool)
        ensures
            (final(self)@, r) == cancel_step(old(self)@),
    {
        match &mut self.running {
            Some(run) => {
                run.cancel_requested = true;
                true
            },
            None => false,
        }
    }

    /// Whether cancellation was requested for `session_id`.
    pub fn cancel_requested(&self, session_id: &str) -> (r: bool)
        ensures
            r == cancel_flag(self@, session_id@),
    {
        match &self.running {
            Some(run) => run.cancel_requested && same_text(run.session_id.as_str(), session_id),
            None => false,
        }
    }

    /// Clears the slot if it still holds `session_id`.
    pub fn finish(&mut self, session_id: &str)
        ensures
            final(self)@ == finish_step(old(self)@, session_id@),
    {
        let matches = match &self.running {
            Some(run) => same_text(run.session_id.as_str(), session_id),
            None => false,
        };
        if matches {
            self.running = None;
        }
    }
}

/// While a session runs, a second start is refused and changes nothing.
pub proof fn lemma_single_flight(s: Option<(Seq<char>, bool)>, sid: Seq<char>)
    requires
        s is Some,
    ensures
        start_step(s, sid) == (s, false),
{
}

/// Once cancellation of the running session `sid` succeeds, the session's
/// flag stays set through any later start attempts, and the run is then
/// reported cancelled and not successful, whatever its exit status.
pub proof fn lemma_cancel_precedence(
    s: Option<(Seq<char>, bool)>,
    sid: Seq<char>,
    others: Seq<Seq<char>>,
    exit_success: bool,
    exit_code: Option<i32>,
)
    requires
        s matches Some((id, _)) && id == sid,
    ensures
        ({
            let (after, ok) = cancel_step(s);
            let later = attempts(after, others);
            ok && cancel_flag(later, sid) && outcome_of(exit_success, exit_code, cancel_flag(later, sid)).cancelled
                && !outcome_of(exit_success, exit_code, cancel_flag(later, sid)).success
        }),
{
    let (after, ok) = cancel_step(s);
    lemma_attempts_keep(after, others);
}

/// The slot after a series of start attempts.
pub open spec fn attempts(s: Option<(Seq<char>, bool)>, sids: Seq<Seq<char>>) -> Option<(Seq<char>, bool)>
    decreases sids.len(),
{
    if sids.len() == 0 {
        s
    } else {
        start_step(attempts(s, sids.drop_last()), sids.last()).0
    }
}

proof fn lemma_attempts_keep(s: Option<(Seq<char>, bool)>, sids: Seq<Seq<char>>)
    requires
        s is Some,
    ensures
        attempts(s, sids) == s,
    decreases sids.len(),
{
    if sids.len() > 0 {
        lemma_attempts_keep(s, sids.drop_last());
    }
}

// ----- classifying a finished run -----

/// How a finished run is reported.
#[derive(Debug)]
pub struct RunOutcome {
    pub success: bool,
    pub cancelled: bool,
    pub error: Option<String>,
}

/// A finished run as contracts see it.
pub struct OutcomeView {
    pub success: bool,
    pub cancelled: bool,
    pub error: Option<Seq<char>>,
}

/// Success needs a zero exit and no cancellation; a cancelled run is
/// reported cancelled whatever its exit status.
pub open spec fn outcome_of(exit_success: bool, exit_code: Option<i32>, cancelled: bool) -> OutcomeView {
    OutcomeView {
        success: exit_success && !cancelled,
        cancelled,
        error: if cancelled {
            Some(cancelled_text())
        } else if exit_success {
            None
        } else {
            Some(failed_prefix() + code_debug_text(exit_code))
        },
    }
}

pub open spec fn cancelled_text() -> Seq<char> {
    "发布已取消"@
}

pub open spec fn failed_prefix() -> Seq<char> {
    "发布失败，退出代码: "@
}

/// `Some(<code>)` or `None`.
pub open spec fn code_debug_text(code: Option<i32>) -> Seq<char> {
    match code {
        Some(c) => "Some("@ + signed_text(c as int) + ")"@,
        None => "None"@,
    }
}

/// Classifies a finished run from its exit status and the session's
/// cancellation flag, read after the process exited.
pub fn classify_outcome(exit_success: bool, exit_code: Option<i32>, cancelled: bool) -> (r: RunOutcome)
    ensures
        r.success == outcome_of(exit_success, exit_code, cancelled).success,
        r.cancelled == outcome_of(exit_success, exit_code, cancelled).cancelled,
        opt_view(r.error) == outcome_of(exit_success, exit_code, cancelled).error,
{
    let error = if cancelled {
        Some("发布已取消".to_owned())
    } else if exit_success {
        None
    } else {
        let mut e = "发布失败，退出代码: ".to_owned();
        match exit_code {
            Some(c) => {
                push_str(&mut e, "Some(");
                push_str(&mut e, signed_decimal(c as i64).as_str());
                push_str(&mut e, ")");
            },
            None => {
                push_str(&mut e, "None");
            },
        }
        Some(e)
    };
    RunOutcome { success: exit_success && !cancelled, cancelled, error }
}

/// Lines joined by line breaks.
pub open spec fn joined_lines(lines: Seq<Seq<char>>) -> Seq<char>
    decreases lines.len(),
{
    if lines.len() == 0 {
        Seq::empty()
    } else if lines.len() == 1 {
        lines[0]
    } else {
        joined_lines(lines.drop_last()) + seq!['\n'] + lines.last()
    }
}

/// What a finished publish run reports.
#[derive(Debug)]
pub struct PublishResult {
    pub provider_id: String,
    pub success: bool,
    pub cancelled: bool,
    /// The whole transcript, one line per output line.
    pub output: String,
    pub error: Option<String>,
    pub output_dir: String,
    /// Files found in the output directory; counted only after a success.
    pub file_count: usize,
}

/// The report of a finished run: the outcome, the transcript joined by
/// line breaks, and the files found, which count only when the run
/// succeeded.
pub fn publish_result(
    provider_id: String,
    outcome: RunOutcome,
    transcript: &Vec<String>,
    output_dir: String,
    files_found: usize,
) -> (r: PublishResult)
    ensures
        r.provider_id == provider_id,
        r.success == outcome.success,
        r.cancelled == outcome.cancelled,
        r.error == outcome.error,
        r.output@ == joined_lines(views(transcript@)),
        r.output_dir == output_dir,
        r.file_count == if outcome.success { files_found } else { 0 },
{
    let mut output = String::new();
    let mut i: usize = 0;
    while i < transcript.len()
        invariant
            i <= transcript@.len(),
            output@ == joined_lines(views(transcript@.subrange(0, i as int))),
        decreases transcript.len() - i,
    {
        let ghost pre = views(transcript@.subrange(0, i + 1));
        assert(pre.drop_last() =~= views(transcript@.subrange(0, i as int)));
        if i > 0 {
            push_char(&mut output, '\n');
        } else {
            assert(output@ =~= Seq::<char>::empty());
        }
        push_str(&mut output, transcript[i].as_str());
        if i == 0 {
            assert(output@ =~= pre[0]);
        } else {
            assert(output@ =~= joined_lines(pre.drop_last()) + seq!['\n'] + pre.last());
        }
        i = i + 1;
    }
    assert(transcript@.subrange(0, transcript@.len() as int) =~= transcript@);
    let file_count = if outcome.success { files_found } else { 0 };
    PublishResult {
        provider_id,
        success: outcome.success,
        cancelled: outcome.cancelled,
        output,
        error: outcome.error,
        output_dir,
        file_count,
    }
}

/// The transcript line that marks a cancelled run.
pub fn cancelled_marker() -> (r: String)
    ensures
        r@ == "[cancelled] "@ + cancelled_text(),
{
    let mut s = "[cancelled] ".to_owned();
    push_str(&mut s, "发布已取消");
    s
}

/// How an output line appears in the transcript: stderr lines carry a
/// `[stderr] ` prefix.
pub fn transcript_line(stream: &str, line: &str) -> (r: String)
    ensures
        r@ == (if stream@ == "stderr"@ {
            "[stderr] "@ + line@
        } else {
            line@
        }),
{
    if same_text(stream, "stderr") {
        let mut s = "[stderr] ".to_owned();
        push_str(&mut s, line);
        s
    } else {
        line.to_owned()
    }
}

/// `a` followed by ` b` for each further word.
pub open spec fn join_spaced(first: Seq<char>, rest: Seq<Seq<char>>) -> Seq<char>
    decreases rest.len(),
{
    if rest.len() == 0 {
        first
    } else {
        join_spaced(first, rest.drop_last()) + seq![' '] + rest.last()
    }
}

/// The command line shown before any process output: `$ program args...`.
pub fn command_line(program: &str, args: &Vec<String>) -> (r: String)
    ensures
        r@ == join_spaced("$ "@ + program@, views(args@)),
{
    let mut s = "$ ".to_owned();
    push_str(&mut s, program);
    let mut i: usize = 0;
    while i < args.len()
        invariant
            i <= args@.len(),
            s@ == join_spaced("$ "@ + program@, views(args@.subrange(0, i as int))),
        decreases args.len() - i,
    {
        assert(views(args@.subrange(0, i + 1)).drop_last() =~= views(args@.subrange(0, i as int)));
        push_char(&mut s, ' ');
        push_str(&mut s, args[i].as_str());
        assert(s@ =~= join_spaced("$ "@ + program@, views(args@.subrange(0, i as int))) + seq![' '] + args@[i as int]@);
        i = i + 1;
    }
    assert(args@.subrange(0, args@.len() as int) =~= args@);
    s
}

/// A session id: the provider id and a timestamp in nanoseconds.
pub fn build_publish_session_id(provider_id: &str, nanos: u128) -> (r: String)
    ensures
        r@ == provider_id@ + seq!['-'] + decimal_text(nanos as nat),
{
    let mut s = provider_id.to_owned();
    push_char(&mut s, '-');
    push_str(&mut s, decimal(nanos).as_str());
    s
}

// ----- where the build output goes -----

/// A string parameter's text (a non-empty string, or a number's text).
pub open spec fn param_text(params: Seq<(Seq<char>, SpecValue)>, key: Seq<char>) -> Option<Seq<char>> {
    match lookup(params, key) {
        Some(SpecValue::String(s)) => if s@.len() > 0 {
            Some(s@)
        } else {
            None
        },
        Some(SpecValue::Number(n)) => Some(n@),
        _ => None,
    }
}

/// Reads a string parameter.
pub fn read_parameter_string(params: &StrMap<SpecValue>, key: &str) -> (r: Option<String>)
    ensures
        opt_view(r) == param_text(params@, key@),
{
    match params.get(key) {
        Some(SpecValue::String(s)) => {
            if s.as_str().unicode_len() > 0 {
                Some(s.clone())
            } else {
                None
            }
        },
        Some(SpecValue::Number(n)) => Some(n.clone()),
        _ => None,
    }
}

/// Reads a boolean parameter: true only when it holds `true`.
pub fn read_parameter_bool(params: &StrMap<SpecValue>, key: &str) -> (r: bool)
    ensures
        r == (lookup(params@, key@) == Some(SpecValue::Bool(true))),
{
    match params.get(key) {
        Some(SpecValue::Bool(b)) => *b,
        _ => false,
    }
}

/// The directory a relative output location starts from.
#[derive(PartialEq, Eq, Structural, Clone, Copy, Debug)]
pub enum OutputBase {
    /// The directory holding the project file.
    ProjectParent,
    /// The directory the build runs in.
    WorkingDir,
}

/// Where a provider's build output is expected.
#[derive(Debug)]
pub enum OutputDir {
    /// A path the parameters name.
    Given(String),
    /// Path components below a base directory.
    Under(OutputBase, Vec<String>),
    /// No known location.
    Unknown,
}

/// The expected output location, as contracts see it.
pub enum OutputView {
    Given(Seq<char>),
    Under(OutputBase, Seq<Seq<char>>),
    Unknown,
}

pub open spec fn output_view(o: OutputDir) -> OutputView {
    match o {
        OutputDir::Given(s) => OutputView::Given(s@),
        OutputDir::Under(b, parts) => OutputView::Under(b, views(parts@)),
        OutputDir::Unknown => OutputView::Unknown,
    }
}

/// dotnet: `output`, else `bin/<configuration or Release>/publish` beside
/// the project file; cargo: `target_dir`, else `target/<release|debug>` in
/// the working directory; go: `output`; java: `build/libs` in the working
/// directory.
pub open spec fn output_rule(provider: Seq<char>, params: Seq<(Seq<char>, SpecValue)>) -> OutputView {
    if provider == "dotnet"@ {
        match param_text(params, "output"@) {
            Some(o) => OutputView::Given(o),
            None => {
                let conf = match param_text(params, "configuration"@) {
                    Some(c) => c,
                    None => "Release"@,
                };
                OutputView::Under(OutputBase::ProjectParent, seq!["bin"@, conf, "publish"@])
            },
        }
    } else if provider == "cargo"@ {
        match param_text(params, "target_dir"@) {
            Some(t) => OutputView::Given(t),
            None => {
                let profile = if lookup(params, "release"@) == Some(SpecValue::Bool(true)) {
                    "release"@
                } else {
                    "debug"@
                };
                OutputView::Under(OutputBase::WorkingDir, seq!["target"@, profile])
            },
        }
    } else if provider == "go"@ {
        match param_text(params, "output"@) {
            Some(o) => OutputView::Given(o),
            None => OutputView::Given(Seq::empty()),
        }
    } else if provider == "java"@ {
        OutputView::Under(OutputBase::WorkingDir, seq!["build"@, "libs"@])
    } else {
        OutputView::Unknown
    }
}

/// Where the build output of `spec` is expected.
pub fn infer_output_dir(spec: &PublishSpec) -> (r: OutputDir)
    ensures
        output_view(r) == output_rule(spec.provider_id@, spec.parameters@),
{
    let p = spec.provider_id.as_str();
    if same_text(p, "dotnet") {
        if let Some(o) = read_parameter_string(&spec.parameters, "output") {
            return OutputDir::Given(o);
        }
        let configuration = match read_parameter_string(&spec.parameters, "configuration") {
            Some(c) => c,
            None => "Release".to_owned(),
        };
        let mut parts: Vec<String> = Vec::new();
        parts.push("bin".to_owned());
        parts.push(configuration);
        parts.push("publish".to_owned());
        assert(views(parts@) =~= seq!["bin"@, configuration@, "publish"@]);
        OutputDir::Under(OutputBase::ProjectParent, parts)
    } else if same_text(p, "cargo") {
        if let Some(t) = read_parameter_string(&spec.parameters, "target_dir") {
            return OutputDir::Given(t);
        }
        let profile = if read_parameter_bool(&spec.parameters, "release") {
            "release".to_owned()
        } else {
            "debug".to_owned()
        };
        let mut parts: Vec<String> = Vec::new();
        parts.push("target".to_owned());
        parts.push(profile);
        assert(views(parts@) =~= seq!["target"@, profile@]);
        OutputDir::Under(OutputBase::WorkingDir, parts)
    } else if same_text(p, "go") {
        match read_parameter_string(&spec.parameters, "output") {
            Some(o) => OutputDir::Given(o),
            None => OutputDir::Given(String::new()),
        }
    } else if same_text(p, "java") {
        let mut parts: Vec<String> = Vec::new();
        parts.push("build".to_owned());
        parts.push("libs".to_owned());
        assert(views(parts@) =~= seq!["build"@, "libs"@]);
        OutputDir::Under(OutputBase::WorkingDir, parts)
    } else {
        OutputDir::Unknown
    }
}

// ----- classifying operating-system failures -----

/// The kinds of operating-system failure that the error codes tell apart.
#[derive(PartialEq, Eq, Structural, Clone, Copy, Debug)]
pub enum IoFailure {
    NotFound,
    PermissionDenied,
    NotADirectory,
    Other,
}

/// The code of a failure to spawn the build process.
pub fn classify_process_spawn_error(kind: IoFailure) -> (r: &'static str)
    ensures
        r@ == (match kind {
            IoFailure::NotFound => "tool_missing"@,
            IoFailure::PermissionDenied => "permission_denied"@,
            _ => "publish_spawn_failed"@,
        }),
{
    match kind {
        IoFailure::NotFound => "tool_missing",
        IoFailure::PermissionDenied => "permission_denied",
        _ => "publish_spawn_failed",
    }
}

/// The code of a failure while waiting for the build process.
pub fn classify_process_wait_error(kind: IoFailure) -> (r: &'static str)
    ensures
        r@ == (match kind {
            IoFailure::PermissionDenied => "permission_denied"@,
            _ => "publish_wait_failed"@,
        }),
{
    match kind {
        IoFailure::PermissionDenied => "permission_denied",
        _ => "publish_wait_failed",
    }
}

/// The code of a failure to run git.
pub fn classify_git_execution_error(kind: IoFailure) -> (r: &'static str)
    ensures
        r@ == (match kind {
            IoFailure::NotFound => "git_missing"@,
            IoFailure::PermissionDenied => "permission_denied"@,
            _ => "unknown"@,
        }),
{
    match kind {
        IoFailure::NotFound => "git_missing",
        IoFailure::PermissionDenied => "permission_denied",
        _ => "unknown",
    }
}

/// The code of a failure to read a repository path.
pub fn classify_repository_path_error(kind: IoFailure) -> (r: &'static str)
    ensures
        r@ == (match kind {
            IoFailure::NotFound => "path_not_found"@,
            IoFailure::NotADirectory => "not_directory"@,
            IoFailure::PermissionDenied => "permission_denied"@,
            _ => "read_failed"@,
        }),
{
    match kind {
        IoFailure::NotFound => "path_not_found",
        IoFailure::NotADirectory => "not_directory",
        IoFailure::PermissionDenied => "permission_denied",
        _ => "read_failed",
    }
}

// ----- from plan to command -----

/// The program and arguments of a plan's first step: the words of its
/// title.
pub fn resolve_plan_command(plan: &ExecutionPlan) -> (r: Result<(String, Vec<String>), AppError>)
    ensures
        match r {
            Ok((program, args)) => plan.steps@.len() > 0 && words_of(plan.steps@[0].title@) == seq![
                program@,
            ] + views(args@),
            Err(e) => (plan.steps@.len() == 0 && opt_view(e.code) == Some("plan_missing_step"@)) || (
            plan.steps@.len() > 0 && words_of(plan.steps@[0].title@).len() == 0 && opt_view(e.code)
                == Some("plan_invalid_step_title"@)),
        },
{
    if plan.steps.len() == 0 {
        return Err(
            AppError::unknown_with_code("execution plan has no step".to_owned(), "plan_missing_step"),
        );
    }
    let cs = to_chars(plan.steps[0].title.as_str());
    assert(cs@.subrange(0, cs@.len() as int) =~= cs@);
    let mut words = split_words(cs.as_slice(), 0, cs.len());
    if words.len() == 0 {
        return Err(
            AppError::unknown_with_code(
                "execution step title is empty".to_owned(),
                "plan_invalid_step_title",
            ),
        );
    }
    let ghost all = words@;
    let program = words.remove(0);
    assert(views(all) =~= seq![program@] + views(words@));
    Ok((program, words))
}

/// The arguments to run: the plan's skeleton, then the project path for
/// dotnet (its positional argument), then the rendered parameters.
pub open spec fn run_arguments(provider_id: Seq<char>, skeleton: Seq<Seq<char>>, project_path: Seq<char>, rendered: Seq<Seq<char>>) -> Seq<Seq<char>> {
    if provider_id == "dotnet"@ {
        skeleton.push(project_path) + rendered
    } else {
        skeleton + rendered
    }
}

/// Puts together the arguments of the command to run.
pub fn assemble_arguments(provider_id: &str, skeleton: Vec<String>, project_path: &str, rendered: Vec<String>) -> (r: Vec<String>)
    ensures
        views(r@) == run_arguments(provider_id@, views(skeleton@), project_path@, views(rendered@)),
{
    let mut args = skeleton;
    let ghost s0 = args@;
    if same_text(provider_id, "dotnet") {
        args.push(project_path.to_owned());
    }
    let ghost s1 = args@;
    let mut rest = rendered;
    let ghost r0 = rest@;
    args.append(&mut rest);
    assert(views(args@) =~= views(s1) + views(r0));
    assert(views(s1) =~= (if provider_id@ == "dotnet"@ { views(s0).push(project_path@) } else { views(s0) }));
    args
}

/// Whether the command runs in the project path itself (a directory of a
/// non-dotnet project) rather than in its parent.
pub fn runs_in_project_path(provider_id: &str, path_is_dir: bool) -> (r: bool)
    ensures
        r == (provider_id@ != "dotnet"@ && path_is_dir),
{
    !same_text(provider_id, "dotnet") && path_is_dir
}

/// Whether `program` names the Gradle wrapper.
pub open spec fn is_gradle_wrapper(program: Seq<char>) -> bool {
    program == "./gradlew"@ || program == "gradlew"@
}

/// The Java program to run: other programs as they are; for the Gradle
/// wrapper, the wrapper script in the project directory if it is there,
/// else `gradle` if it is on the path. Whether each exists is found out by
/// the caller.
pub fn resolve_java_program(
    program: &str,
    working_dir: Option<&str>,
    wrapper_path: &str,
    wrapper_present: bool,
    gradle_available: bool,
) -> (r: Result<String, AppError>)
    ensures
        !is_gradle_wrapper(program@) ==> (r matches Ok(p) && p@ == program@),
        is_gradle_wrapper(program@) ==> match working_dir {
            None => (r matches Err(e) && opt_view(e.code) == Some("java_project_dir_required"@)),
            Some(_) => if wrapper_present {
                (r matches Ok(p) && p@ == wrapper_path@)
            } else if gradle_available {
                (r matches Ok(p) && p@ == "gradle"@)
            } else {
                (r matches Err(e) && opt_view(e.code) == Some("java_gradle_not_found"@))
            },
        },
{
    if !same_text(program, "./gradlew") && !same_text(program, "gradlew") {
        return Ok(program.to_owned());
    }
    if working_dir.is_none() {
        return Err(
            AppError::unknown_with_code(
                "java provider requires a project directory".to_owned(),
                "java_project_dir_required",
            ),
        );
    }
    if wrapper_present {
        return Ok(wrapper_path.to_owned());
    }
    if gradle_available {
        return Ok("gradle".to_owned());
    }
    let mut message = "gradle wrapper not found at ".to_owned();
    push_str(&mut message, wrapper_path);
    push_str(&mut message, " and `gradle` is not available in PATH");
    Err(AppError::unknown_with_code(message, "java_gradle_not_found"))
}

} // verus!
