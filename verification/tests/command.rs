use assistant_backend::text::separates;
use assistant_backend::command::{
    classify_launch_failure, classify_output, conclude, plan, split_whitespace,
    ExecError, Invocation, LaunchOutcome,
};

fn text(s: &str) -> String {
    s.to_string()
}

fn completed(stdout: &str, stderr: &str, success: bool, status: &str) -> LaunchOutcome {
    LaunchOutcome::Completed {
        stdout: text(stdout),
        stderr: text(stderr),
        success,
        status: text(status),
    }
}

fn echo() -> Invocation {
    plan("echo hello", None, "/").unwrap()
}

#[test]
fn separators_are_the_whitespace_characters() {
    let mut code: u32 = 0;
    while code <= 0x10ffff {
        if let Some(c) = char::from_u32(code) {
            assert_eq!(separates(c), c.is_whitespace(), "U+{:04X}", code);
        }
        code += 1;
    }
}

#[test]
fn a_line_splits_at_whitespace() {
    assert_eq!(split_whitespace("git commit -m msg"), vec!["git", "commit", "-m", "msg"]);
    assert_eq!(split_whitespace("  ls \t -la\n"), vec!["ls", "-la"]);
    assert_eq!(split_whitespace("one"), vec!["one"]);
    assert_eq!(split_whitespace("a\u{a0}b\u{3000}c"), vec!["a", "b", "c"]);
}

#[test]
fn a_line_without_words_splits_into_nothing() {
    assert!(split_whitespace("").is_empty());
    assert!(split_whitespace("   ").is_empty());
    assert!(split_whitespace("\t\n \r").is_empty());
}

#[test]
fn splitting_agrees_with_the_standard_library() {
    for line in [
        "",
        " ",
        "a",
        " a",
        "a ",
        "a  b",
        "echo 'two words'",
        "caf\u{e9} \u{1f600}  x\u{2003}y",
        "\u{85}lead\u{2028}trail\u{205f}",
        "tab\tsep\u{b}vt\u{c}ff\rcr\nlf",
    ] {
        let expected: Vec<String> = line.split_whitespace().map(|w| w.to_string()).collect();
        assert_eq!(split_whitespace(line), expected, "{:?}", line);
    }
}

#[test]
fn quotes_do_not_group_words() {
    assert_eq!(split_whitespace("echo \"a b\""), vec!["echo", "\"a", "b\""]);
}

#[test]
fn the_first_word_is_the_program() {
    let invocation = plan("cargo build --release", Some(text("/work")), "/home").unwrap();
    assert_eq!(invocation.program, "cargo");
    assert_eq!(invocation.args, vec!["build", "--release"]);
    assert_eq!(invocation.working_dir, "/work");
}

#[test]
fn a_program_alone_has_no_arguments() {
    let invocation = plan(" pwd ", None, "/home/me").unwrap();
    assert_eq!(invocation.program, "pwd");
    assert!(invocation.args.is_empty());
}

#[test]
fn without_a_directory_the_callers_is_used() {
    let invocation = plan("ls", None, "/home/me").unwrap();
    assert_eq!(invocation.working_dir, "/home/me");
}

#[test]
fn an_empty_command_is_refused() {
    assert_eq!(plan("", None, "/"), Err(ExecError::EmptyCommand));
    assert_eq!(plan("  \t ", Some(text("/work")), "/"), Err(ExecError::EmptyCommand));
    assert_eq!(ExecError::EmptyCommand.message(), "Empty command");
}

#[test]
fn a_directory_that_does_not_exist_is_ignored() {
    let invocation = plan("ls", Some(text("/no/such/dir")), "/").unwrap();
    assert_eq!(invocation.directory(false), None);
    assert_eq!(invocation.directory(true), Some(&text("/no/such/dir")));
}

#[test]
fn output_of_a_successful_command_is_returned() {
    assert_eq!(classify_output(text("hello"), text(""), true, "exit status: 0"), Ok(text("hello")));
    assert_eq!(conclude(&echo(), completed("hello", "", true, "exit status: 0")), Ok(text("hello")));
}

#[test]
fn warnings_of_a_successful_command_are_appended() {
    assert_eq!(
        classify_output(text("built"), text("unused variable"), true, "exit status: 0"),
        Ok(text("built\n\nWarnings:\nunused variable"))
    );
    assert_eq!(
        classify_output(text(""), text("careful"), true, "exit status: 0"),
        Ok(text("\n\nWarnings:\ncareful"))
    );
}

#[test]
fn errors_of_a_failed_command_are_the_message() {
    assert_eq!(
        classify_output(text("partial output"), text("boom"), false, "exit status: 2"),
        Err(ExecError::Other(text("boom")))
    );
    assert_eq!(
        conclude(&echo(), completed("", "boom", false, "exit status: 2")),
        Err(ExecError::Other(text("boom")))
    );
    assert_eq!(ExecError::Other(text("boom")).message(), "boom");
}

#[test]
fn a_silent_failure_names_the_exit_status() {
    assert_eq!(
        classify_output(text(""), text(""), false, "exit status: 3"),
        Err(ExecError::Other(text("Command failed with no output. Exit code: exit status: 3")))
    );
}

#[test]
fn a_failure_with_output_but_no_errors_returns_the_output() {
    assert_eq!(
        classify_output(text("something"), text(""), false, "exit status: 1"),
        Ok(text("something"))
    );
}

#[test]
fn a_silent_success_returns_empty_output() {
    assert_eq!(classify_output(text(""), text(""), true, "exit status: 0"), Ok(text("")));
}

#[test]
fn a_missing_program_is_named() {
    let failure =
        classify_launch_failure("not-a-real-binary-xyz", text("No such file or directory (os error 2)"));
    assert_eq!(failure, ExecError::ProgramNotFound(text("not-a-real-binary-xyz")));
    assert_eq!(
        failure.message(),
        "Program 'not-a-real-binary-xyz' not found. Make sure it is installed and in your system PATH."
    );
    assert_eq!(
        classify_launch_failure("x", text("program not found")),
        ExecError::ProgramNotFound(text("x"))
    );
}

#[test]
fn running_a_program_that_does_not_exist_is_reported_as_not_found() {
    let invocation = plan("not-a-real-binary-xyz --flag", None, "/").unwrap();
    let result = conclude(
        &invocation,
        LaunchOutcome::Failed(text("No such file or directory (os error 2)")),
    );
    let message = result.unwrap_err().message();
    assert!(message.contains("not found"));
    assert!(message.contains("not-a-real-binary-xyz"));
}

#[test]
fn a_refused_permission_is_named() {
    let failure = classify_launch_failure("./run.sh", text("permission denied"));
    assert_eq!(failure, ExecError::PermissionDenied(text("./run.sh")));
    assert_eq!(
        failure.message(),
        "Permission denied when trying to execute './run.sh'. Check file permissions."
    );
}

#[test]
fn a_refused_permission_is_named_in_the_wording_of_each_platform() {
    for error in [
        "Permission denied (os error 13)",
        "permission denied",
        "Access is denied. (os error 5)",
        "spawn failed: Permission denied",
    ] {
        assert_eq!(
            classify_launch_failure("./run.sh", text(error)),
            ExecError::PermissionDenied(text("./run.sh")),
            "{:?}",
            error
        );
    }
}

#[test]
fn a_launch_refused_for_lack_of_permission_is_reworded() {
    let invocation = plan("./run.sh now", None, "/").unwrap();
    let result = conclude(&invocation, LaunchOutcome::Failed(text("Permission denied (os error 13)")));
    assert_eq!(result, Err(ExecError::PermissionDenied(text("./run.sh"))));
    assert_eq!(
        result.unwrap_err().message(),
        "Permission denied when trying to execute './run.sh'. Check file permissions."
    );
}

#[test]
fn other_wordings_are_not_taken_for_a_refused_permission() {
    assert_eq!(
        classify_launch_failure("p", text("PERMISSION DENIED")),
        ExecError::Other(text("PERMISSION DENIED"))
    );
    assert_eq!(
        classify_launch_failure("p", text("Permission  denied")),
        ExecError::Other(text("Permission  denied"))
    );
}

#[test]
fn not_found_wins_over_permission_denied() {
    assert_eq!(
        classify_launch_failure("p", text("Permission denied: not found")),
        ExecError::ProgramNotFound(text("p"))
    );
}

#[test]
fn other_launch_failures_pass_through() {
    let failure = classify_launch_failure("p", text("Exec format error (os error 8)"));
    assert_eq!(failure, ExecError::Other(text("Exec format error (os error 8)")));
    assert_eq!(failure.message(), "Exec format error (os error 8)");
    assert_eq!(classify_launch_failure("p", text("")), ExecError::Other(text("")));
}
