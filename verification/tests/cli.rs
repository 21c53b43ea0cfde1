use powersession::invocation::Invocation;
use powersession::resolver::{resolution_exit_code, resolve, Resolution, UsageError};
use powersession::router::{dispatch, Action};

fn args(list: &[&str]) -> Vec<String> {
    list.iter().map(|s| (*s).to_owned()).collect()
}

fn expect_resolved(list: &[&str]) -> (String, Invocation) {
    match resolve(&args(list)) {
        Resolution::Resolved { options, invocation } => (options.log_level, invocation),
        Resolution::Usage => panic!("expected a resolved invocation, got the usage state"),
        Resolution::Failed { .. } => panic!("expected a resolved invocation, got a usage error"),
    }
}

fn expect_failed(list: &[&str]) -> UsageError {
    let resolution = resolve(&args(list));
    assert_ne!(resolution_exit_code(&resolution), 0);
    match resolution {
        Resolution::Failed { error } => error,
        _ => panic!("expected a usage error"),
    }
}

#[test]
fn rec_with_defaults() {
    let (log_level, invocation) = expect_resolved(&["rec", "demo.cast"]);
    assert_eq!(log_level, "error");
    match invocation {
        Invocation::Record { file, command, force } => {
            assert_eq!(file, "demo.cast");
            assert!(command.is_none());
            assert!(!force);
        }
        _ => panic!("expected the record invocation"),
    }
}

#[test]
fn rec_with_command_and_force() {
    let (log_level, invocation) = expect_resolved(&["rec", "demo.cast", "-c", "pwsh", "-f"]);
    assert_eq!(log_level, "error");
    match invocation {
        Invocation::Record { file, command, force } => {
            assert_eq!(file, "demo.cast");
            assert_eq!(command.as_deref(), Some("pwsh"));
            assert!(force);
        }
        _ => panic!("expected the record invocation"),
    }
}

#[test]
fn rec_with_long_options() {
    let (_, invocation) = expect_resolved(&["rec", "demo.cast", "--command", "bash", "--force"]);
    match invocation {
        Invocation::Record { file, command, force } => {
            assert_eq!(file, "demo.cast");
            assert_eq!(command.as_deref(), Some("bash"));
            assert!(force);
        }
        _ => panic!("expected the record invocation"),
    }
}

#[test]
fn play_resolves() {
    let (log_level, invocation) = expect_resolved(&["play", "demo.cast"]);
    assert_eq!(log_level, "error");
    match invocation {
        Invocation::Play { file } => assert_eq!(file, "demo.cast"),
        _ => panic!("expected the play invocation"),
    }
}

#[test]
fn auth_resolves() {
    let (log_level, invocation) = expect_resolved(&["auth"]);
    assert_eq!(log_level, "error");
    assert!(matches!(invocation, Invocation::Auth));
}

#[test]
fn upload_resolves() {
    let (_, invocation) = expect_resolved(&["upload", "demo.cast"]);
    match invocation {
        Invocation::Upload { file } => assert_eq!(file, "demo.cast"),
        _ => panic!("expected the upload invocation"),
    }
}

#[test]
fn server_resolves() {
    let (_, invocation) = expect_resolved(&["server", "https://example.com/"]);
    match invocation {
        Invocation::SetServer { url } => assert_eq!(url, "https://example.com/"),
        _ => panic!("expected the set-server invocation"),
    }
}

#[test]
fn log_level_with_value_before_subcommand() {
    let (log_level, invocation) = expect_resolved(&["--log-level", "debug", "play", "demo.cast"]);
    assert_eq!(log_level, "debug");
    assert!(matches!(invocation, Invocation::Play { .. }));
}

#[test]
fn log_level_short_form() {
    let (log_level, _) = expect_resolved(&["-l", "info", "auth"]);
    assert_eq!(log_level, "info");
}

#[test]
fn log_level_after_subcommand() {
    let (log_level, invocation) = expect_resolved(&["rec", "demo.cast", "-l", "warn"]);
    assert_eq!(log_level, "warn");
    match invocation {
        Invocation::Record { file, command, force } => {
            assert_eq!(file, "demo.cast");
            assert!(command.is_none());
            assert!(!force);
        }
        _ => panic!("expected the record invocation"),
    }
}

#[test]
fn log_level_without_value_is_trace() {
    let (log_level, _) = expect_resolved(&["play", "demo.cast", "--log-level"]);
    assert_eq!(log_level, "trace");
}

#[test]
fn log_level_short_without_value_is_trace() {
    let (log_level, _) = expect_resolved(&["auth", "-l"]);
    assert_eq!(log_level, "trace");
}

#[test]
fn log_level_value_is_consumed_greedily() {
    // The option takes the next token whenever it is not flag-shaped, even a
    // word that could have been the subcommand.
    let (log_level, invocation) = expect_resolved(&["-l", "rec", "auth"]);
    assert_eq!(log_level, "rec");
    assert!(matches!(invocation, Invocation::Auth));
}

#[test]
fn no_subcommand_is_usage_not_error() {
    let resolution = resolve(&args(&[]));
    assert!(matches!(resolution, Resolution::Usage));
    assert_eq!(resolution_exit_code(&resolution), 0);
}

#[test]
fn rec_without_file_fails() {
    match expect_failed(&["rec"]) {
        UsageError::MissingRequired { subcommand, field } => {
            assert_eq!(subcommand, "rec");
            assert_eq!(field, "file");
        }
        _ => panic!("expected a missing required field"),
    }
}

#[test]
fn rec_force_without_file_fails() {
    match expect_failed(&["rec", "-f"]) {
        UsageError::MissingRequired { subcommand, field } => {
            assert_eq!(subcommand, "rec");
            assert_eq!(field, "file");
        }
        _ => panic!("expected a missing required field"),
    }
}

#[test]
fn rec_command_without_value_fails() {
    match expect_failed(&["rec", "demo.cast", "-c"]) {
        UsageError::MissingRequired { subcommand, field } => {
            assert_eq!(subcommand, "rec");
            assert_eq!(field, "command");
        }
        _ => panic!("expected a missing required field"),
    }
}

#[test]
fn play_without_file_fails() {
    match expect_failed(&["play"]) {
        UsageError::MissingRequired { subcommand, field } => {
            assert_eq!(subcommand, "play");
            assert_eq!(field, "file");
        }
        _ => panic!("expected a missing required field"),
    }
}

#[test]
fn upload_without_file_fails() {
    match expect_failed(&["upload"]) {
        UsageError::MissingRequired { subcommand, field } => {
            assert_eq!(subcommand, "upload");
            assert_eq!(field, "file");
        }
        _ => panic!("expected a missing required field"),
    }
}

#[test]
fn server_without_url_fails() {
    match expect_failed(&["server"]) {
        UsageError::MissingRequired { subcommand, field } => {
            assert_eq!(subcommand, "server");
            assert_eq!(field, "url");
        }
        _ => panic!("expected a missing required field"),
    }
}

#[test]
fn unrecognized_subcommand_fails() {
    match expect_failed(&["frobnicate"]) {
        UsageError::Unrecognized { token } => assert_eq!(token, "frobnicate"),
        _ => panic!("expected an unrecognized token"),
    }
}

#[test]
fn unrecognized_flag_fails() {
    match expect_failed(&["rec", "demo.cast", "-x"]) {
        UsageError::Unrecognized { token } => assert_eq!(token, "-x"),
        _ => panic!("expected an unrecognized token"),
    }
}

#[test]
fn top_level_flag_fails() {
    match expect_failed(&["--verbose"]) {
        UsageError::Unrecognized { token } => assert_eq!(token, "--verbose"),
        _ => panic!("expected an unrecognized token"),
    }
}

#[test]
fn extra_positional_fails() {
    match expect_failed(&["play", "a.cast", "b.cast"]) {
        UsageError::Unrecognized { token } => assert_eq!(token, "b.cast"),
        _ => panic!("expected an unrecognized token"),
    }
}

#[test]
fn auth_with_argument_fails() {
    match expect_failed(&["auth", "extra"]) {
        UsageError::Unrecognized { token } => assert_eq!(token, "extra"),
        _ => panic!("expected an unrecognized token"),
    }
}

#[test]
fn dispatch_record_carries_parameters() {
    let invocation = Invocation::Record {
        file: "demo.cast".to_owned(),
        command: Some("bash".to_owned()),
        force: true,
    };
    match dispatch(invocation) {
        Action::RunRecord { file, command, force } => {
            assert_eq!(file, "demo.cast");
            assert_eq!(command.as_deref(), Some("bash"));
            assert!(force);
        }
        _ => panic!("expected the record action"),
    }
}

#[test]
fn dispatch_auth_touches_no_recorder_or_player() {
    let action = dispatch(Invocation::Auth);
    assert!(matches!(action, Action::RunAuth));
    assert!(!matches!(action, Action::RunRecord { .. }));
    assert!(!matches!(action, Action::RunPlay { .. }));
}

#[test]
fn dispatch_play_and_upload_and_server() {
    match dispatch(Invocation::Play { file: "a.cast".to_owned() }) {
        Action::RunPlay { file } => assert_eq!(file, "a.cast"),
        _ => panic!("expected the play action"),
    }
    match dispatch(Invocation::Upload { file: "b.cast".to_owned() }) {
        Action::RunUpload { file } => assert_eq!(file, "b.cast"),
        _ => panic!("expected the upload action"),
    }
    match dispatch(Invocation::SetServer { url: "https://example.com/".to_owned() }) {
        Action::ConfigureServer { url } => assert_eq!(url, "https://example.com/"),
        _ => panic!("expected the configure-server action"),
    }
}
