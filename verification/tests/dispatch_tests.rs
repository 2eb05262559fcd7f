use minishell::builtins::{
    cd_error_message, cd_target, exit_status_message, is_builtin, launch_failed_message,
    not_found_message, parse_exit_code, type_report, u32_to_string, ShellState,
};
use minishell::dispatch::{dispatch_tokens, Step};
use minishell::tokenizer::split_command_with_quotes;

fn dispatch_line(line: &str, state: &ShellState) -> Step {
    let tokens = split_command_with_quotes(line);
    dispatch_tokens(&tokens, state)
}

fn state_at(cwd: &str) -> ShellState {
    ShellState { cwd: cwd.to_string() }
}

#[test]
fn type_of_builtin_reports_shell_builtin() {
    let step = dispatch_line("type cd", &state_at("/"));
    assert_eq!(step, Step::Out("cd is a shell builtin".to_string()));
}

#[test]
fn type_of_unknown_command_reports_not_found() {
    let step = dispatch_line("type nonexistent_cmd_xyz", &state_at("/"));
    match step {
        Step::TypeQuery(name) => {
            assert_eq!(name, "nonexistent_cmd_xyz");
            let report = type_report(&name, &None);
            assert_eq!(report, "nonexistent_cmd_xyz: not found");
        }
        other => panic!("expected a type query, got {:?}", other),
    }
}

#[test]
fn type_of_resolved_command_reports_its_path() {
    let report = type_report("ls", &Some("/bin/ls".to_string()));
    assert_eq!(report, "ls is /bin/ls");
}

#[test]
fn failed_cd_reports_and_leaves_directory_unchanged() {
    let mut state = state_at("/home/user");
    let step = dispatch_line("cd /nonexistent", &state);
    match step {
        Step::Cd(target) => {
            assert_eq!(target, "/nonexistent");
            assert_eq!(
                cd_error_message(&target),
                "cd: /nonexistent: No such file or directory"
            );
            // The attempt failed: nothing is recorded.
            state.apply_cd(None);
        }
        other => panic!("expected a cd step, got {:?}", other),
    }
    let pwd_step = dispatch_line("pwd", &state);
    assert_eq!(pwd_step, Step::Out("/home/user".to_string()));
}

#[test]
fn successful_cd_updates_the_working_directory() {
    let mut state = state_at("/home/user");
    state.apply_cd(Some("/tmp".to_string()));
    assert_eq!(dispatch_line("pwd", &state), Step::Out("/tmp".to_string()));
}

#[test]
fn exit_zero_requests_termination_with_code_zero() {
    assert_eq!(dispatch_line("exit 0", &state_at("/")), Step::Exit(0));
}

#[test]
fn exit_without_code_defaults_to_zero() {
    assert_eq!(dispatch_line("exit", &state_at("/")), Step::Exit(0));
}

#[test]
fn exit_with_code_carries_that_code() {
    assert_eq!(dispatch_line("exit 42", &state_at("/")), Step::Exit(42));
}

#[test]
fn exit_with_non_numeric_code_is_a_usage_error() {
    assert_eq!(
        dispatch_line("exit abc", &state_at("/")),
        Step::Out("exit: abc: numeric argument required".to_string())
    );
}

#[test]
fn echo_joins_arguments_with_single_spaces() {
    assert_eq!(
        dispatch_line("echo Hello   World", &state_at("/")),
        Step::Out("Hello World".to_string())
    );
}

#[test]
fn echo_preserves_quoted_spacing() {
    assert_eq!(
        dispatch_line("echo 'a  b' c", &state_at("/")),
        Step::Out("a  b c".to_string())
    );
}

#[test]
fn echo_without_arguments_prints_an_empty_line() {
    assert_eq!(dispatch_line("echo", &state_at("/")), Step::Out(String::new()));
}

#[test]
fn empty_line_is_a_no_op() {
    assert_eq!(dispatch_line("", &state_at("/")), Step::Empty);
    assert_eq!(dispatch_line("   ", &state_at("/")), Step::Empty);
}

#[test]
fn type_without_argument_is_a_usage_error() {
    assert_eq!(
        dispatch_line("type", &state_at("/")),
        Step::Out("type: missing argument".to_string())
    );
}

#[test]
fn cd_without_argument_is_a_usage_error() {
    assert_eq!(
        dispatch_line("cd", &state_at("/")),
        Step::Out("cd: missing argument".to_string())
    );
}

#[test]
fn unknown_command_becomes_an_external_launch() {
    let step = dispatch_line("ls -l /tmp", &state_at("/"));
    assert_eq!(
        step,
        Step::External("ls".to_string(), vec!["-l".to_string(), "/tmp".to_string()])
    );
}

#[test]
fn every_builtin_name_is_recognized() {
    for name in ["exit", "echo", "type", "pwd", "cd"] {
        assert!(is_builtin(name));
    }
    assert!(!is_builtin("ls"));
    assert!(!is_builtin(""));
}

#[test]
fn cd_target_expands_tilde_to_home() {
    assert_eq!(cd_target("~", &Some("/home/user".to_string())), "/home/user");
}

#[test]
fn cd_target_falls_back_to_root_without_home() {
    assert_eq!(cd_target("~", &None), "/");
}

#[test]
fn cd_target_takes_other_paths_literally() {
    assert_eq!(cd_target("../x", &Some("/home/user".to_string())), "../x");
}

#[test]
fn parse_exit_code_accepts_decimal_values() {
    assert_eq!(parse_exit_code("0"), Some(0));
    assert_eq!(parse_exit_code("7"), Some(7));
    assert_eq!(parse_exit_code("2147483647"), Some(2147483647));
}

#[test]
fn parse_exit_code_rejects_bad_input() {
    assert_eq!(parse_exit_code(""), None);
    assert_eq!(parse_exit_code("12a"), None);
    assert_eq!(parse_exit_code("-1"), None);
    assert_eq!(parse_exit_code("2147483648"), None);
    assert_eq!(parse_exit_code("999999999999999999999"), None);
}

#[test]
fn decimal_rendering_is_exact() {
    assert_eq!(u32_to_string(0), "0");
    assert_eq!(u32_to_string(7), "7");
    assert_eq!(u32_to_string(12345), "12345");
    assert_eq!(u32_to_string(4294967295), "4294967295");
}

#[test]
fn failure_messages_are_exact() {
    assert_eq!(not_found_message("frob"), "frob: command not found");
    assert_eq!(
        launch_failed_message("frob", "Permission denied"),
        "frob: failed to execute: Permission denied"
    );
    assert_eq!(
        exit_status_message("frob", 3),
        "frob: command exited with status 3"
    );
}
