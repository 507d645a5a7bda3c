use one_publish::execution::publish_result;
use one_publish::execution::{infer_output_dir, OutputBase, OutputDir};
use one_publish::execution::{
    classify_git_execution_error, classify_process_spawn_error, classify_process_wait_error,
    classify_repository_path_error, IoFailure,
};
use one_publish::execution::{assemble_arguments, runs_in_project_path};
use one_publish::execution::{
    build_publish_session_id, classify_outcome, command_line, resolve_java_program,
    resolve_plan_command, transcript_line, ExecutionSlot,
};
use one_publish::fix_command::validate_and_parse_fix_command;
use one_publish::keyed::StrMap;
use one_publish::plan::{ExecutionPlan, PlanStep, PLAN_VERSION};
use one_publish::value::{PublishSpec, SPEC_VERSION};

#[test]
fn resolve_plan_command_uses_first_step_title() {
    let plan = ExecutionPlan {
        version: PLAN_VERSION,
        spec: PublishSpec {
            version: SPEC_VERSION,
            provider_id: "cargo".to_string(),
            project_path: "/tmp/demo".to_string(),
            parameters: StrMap::new(),
        },
        steps: vec![PlanStep {
            id: "cargo.build".to_string(),
            title: "cargo build".to_string(),
            kind: "process".to_string(),
            payload: StrMap::new(),
        }],
    };
    let (program, args) = resolve_plan_command(&plan).expect("command");
    assert_eq!(program, "cargo");
    assert_eq!(args, vec!["build".to_string()]);
}

#[test]
fn resolve_plan_command_without_step_fails() {
    let plan = ExecutionPlan {
        version: PLAN_VERSION,
        spec: PublishSpec::empty(),
        steps: vec![],
    };
    let err = resolve_plan_command(&plan).expect_err("no step");
    assert_eq!(err.code.as_deref(), Some("plan_missing_step"));
}

#[test]
fn resolve_java_program_requires_project_dir_for_wrapper_mode() {
    let err = resolve_java_program("./gradlew", None, "gradlew", false, false).expect_err("missing dir should fail");
    assert!(err.message.contains("project directory"));
}

#[test]
fn resolve_java_program_prefers_wrapper_then_gradle() {
    let p = resolve_java_program("./gradlew", Some("/tmp/p"), "/tmp/p/gradlew", true, true).expect("wrapper");
    assert_eq!(p, "/tmp/p/gradlew");
    let p = resolve_java_program("./gradlew", Some("/tmp/p"), "/tmp/p/gradlew", false, true).expect("gradle");
    assert_eq!(p, "gradle");
    let e = resolve_java_program("./gradlew", Some("/tmp/p"), "/tmp/p/gradlew", false, false).expect_err("none");
    assert_eq!(e.code.as_deref(), Some("java_gradle_not_found"));
    let p = resolve_java_program("mvn", None, "", false, false).expect("other");
    assert_eq!(p, "mvn");
}

#[test]
fn fix_command_parsing_allows_brew_install() {
    let (program, args) = validate_and_parse_fix_command("brew install rustup").expect("brew install");
    assert_eq!(program, "brew");
    assert_eq!(args, vec!["install".to_string(), "rustup".to_string()]);
}

#[test]
fn fix_command_parsing_rejects_unsafe_separator() {
    let err = validate_and_parse_fix_command("brew install rust; rm -rf /").expect_err("unsafe command should fail");
    assert!(err.message.contains("unsafe shell characters"));
}

#[test]
fn fix_command_parsing_rejects_others() {
    assert!(validate_and_parse_fix_command("sudo brew install x").is_err());
    assert!(validate_and_parse_fix_command("brew upgrade x").is_err());
    assert!(validate_and_parse_fix_command("echo \"x\"").is_err());
    assert!(validate_and_parse_fix_command("   ").is_err());
    let e = validate_and_parse_fix_command("curl x").expect_err("not allowed");
    assert_eq!(e.message, "unsupported command: `curl` is not allowed");
    let (p, a) = validate_and_parse_fix_command("  rustup update  ").expect("rustup");
    assert_eq!(p, "rustup");
    assert_eq!(a, vec!["update".to_string()]);
}

#[test]
fn second_start_while_running_is_refused() {
    let mut slot = ExecutionSlot::new();
    assert!(slot.try_start("s1".to_string()).is_ok());
    let e = slot.try_start("s2".to_string()).expect_err("already running");
    assert_eq!(e.code.as_deref(), Some("publish_already_running"));
    assert!(slot.is_running());
    slot.finish("s2");
    assert!(slot.is_running());
    slot.finish("s1");
    assert!(!slot.is_running());
    assert!(slot.try_start("s3".to_string()).is_ok());
}

#[test]
fn cancelled_run_is_reported_cancelled_whatever_the_exit() {
    let mut slot = ExecutionSlot::new();
    assert!(!slot.request_cancel());
    slot.try_start("s1".to_string()).expect("start");
    assert!(slot.request_cancel());
    assert!(slot.cancel_requested("s1"));
    for (ok, code) in [(true, Some(0)), (false, Some(137)), (false, None)] {
        let out = classify_outcome(ok, code, slot.cancel_requested("s1"));
        assert!(out.cancelled);
        assert!(!out.success);
        assert_eq!(out.error.as_deref(), Some("发布已取消"));
    }
}

#[test]
fn failed_run_reports_exit_code() {
    let out = classify_outcome(false, Some(-2), false);
    assert!(!out.success && !out.cancelled);
    assert_eq!(out.error.as_deref(), Some("发布失败，退出代码: Some(-2)"));
    let out = classify_outcome(true, Some(0), false);
    assert!(out.success);
    assert_eq!(out.error, None);
}

#[test]
fn transcript_and_command_line_shapes() {
    assert_eq!(transcript_line("stderr", "oops"), "[stderr] oops");
    assert_eq!(transcript_line("stdout", "fine"), "fine");
    assert_eq!(command_line("cargo", &vec!["build".to_string(), "--release".to_string()]), "$ cargo build --release");
    assert_eq!(command_line("go", &vec![]), "$ go");
    assert_eq!(build_publish_session_id("go", 1234567890123), "go-1234567890123");
}

#[test]
fn dotnet_arguments_carry_project_path() {
    let args = assemble_arguments(
        "dotnet",
        vec!["publish".to_string()],
        "/p/app.csproj",
        vec!["-c".to_string(), "Release".to_string()],
    );
    assert_eq!(args, vec!["publish", "/p/app.csproj", "-c", "Release"]);
    let args = assemble_arguments("cargo", vec!["build".to_string()], "/p", vec!["--release".to_string()]);
    assert_eq!(args, vec!["build", "--release"]);
    assert!(!runs_in_project_path("dotnet", true));
    assert!(runs_in_project_path("go", true));
    assert!(!runs_in_project_path("go", false));
}

#[test]
fn os_failures_map_to_stable_codes() {
    assert_eq!(classify_process_spawn_error(IoFailure::NotFound), "tool_missing");
    assert_eq!(classify_process_spawn_error(IoFailure::Other), "publish_spawn_failed");
    assert_eq!(classify_process_wait_error(IoFailure::PermissionDenied), "permission_denied");
    assert_eq!(classify_process_wait_error(IoFailure::NotFound), "publish_wait_failed");
    assert_eq!(classify_git_execution_error(IoFailure::NotFound), "git_missing");
    assert_eq!(classify_repository_path_error(IoFailure::NotADirectory), "not_directory");
}

#[test]
fn infer_output_dir_for_cargo_release_defaults_to_target_release() {
    let mut params = StrMap::new();
    params.insert("release".to_string(), one_publish::value::SpecValue::Bool(true));
    let spec = PublishSpec {
        version: SPEC_VERSION,
        provider_id: "cargo".to_string(),
        project_path: "/tmp/demo-project".to_string(),
        parameters: params,
    };
    match infer_output_dir(&spec) {
        OutputDir::Under(OutputBase::WorkingDir, parts) => assert_eq!(parts.join("/"), "target/release"),
        other => panic!("unexpected {other:?}"),
    }
}

#[test]
fn fix_allow_list_is_exact() {
    assert!(validate_and_parse_fix_command("rustup update").is_ok());
    assert!(validate_and_parse_fix_command("rustup update stable").is_err());
    let e = validate_and_parse_fix_command("brew install sudo").expect_err("sudo word");
    assert_eq!(e.message, "unsupported command: sudo is not allowed");
    assert!(validate_and_parse_fix_command("winget install mysudotool").is_err());
}

#[test]
fn publish_result_counts_files_only_after_success() {
    let lines = vec!["$ go build".to_string(), "done".to_string()];
    let r = publish_result("go".to_string(), classify_outcome(true, Some(0), false), &lines, "./dist".to_string(), 3);
    assert_eq!(r.output, "$ go build\ndone");
    assert_eq!(r.file_count, 3);
    let r = publish_result("go".to_string(), classify_outcome(false, Some(1), false), &lines, "./dist".to_string(), 3);
    assert_eq!(r.file_count, 0);
    assert!(!r.success);
}
