use powersession::resolver::{resolve, Resolution};
use powersession::router::{dispatch, Action};
use powersession::server::{server_exit_code, set_server, ServerOutcome};

fn args(list: &[&str]) -> Vec<String> {
    list.iter().map(|s| (*s).to_owned()).collect()
}

#[test]
fn valid_url_is_accepted_and_handed_on() {
    match set_server("https://example.com/".to_owned()) {
        ServerOutcome::Accepted { url } => assert_eq!(url, "https://example.com/"),
        ServerOutcome::Rejected { .. } => panic!("a well-formed URL must be accepted"),
    }
}

#[test]
fn invalid_url_is_rejected_with_example_and_exit_zero() {
    let outcome = set_server("not-a-url".to_owned());
    match &outcome {
        ServerOutcome::Rejected { message } => {
            assert!(message.contains("https://asciinema.org"));
            assert_eq!(message, "Error: not a correct URL - e.g: https://asciinema.org");
        }
        ServerOutcome::Accepted { .. } => panic!("a malformed URL must be rejected"),
    }
    // Known, deliberately kept behaviour: the rejection still exits 0.
    assert_eq!(server_exit_code(&outcome), 0);
}

#[test]
fn accepted_url_also_exits_zero() {
    let outcome = set_server("https://asciinema.org".to_owned());
    assert!(matches!(outcome, ServerOutcome::Accepted { .. }));
    assert_eq!(server_exit_code(&outcome), 0);
}

#[test]
fn relative_reference_is_rejected() {
    assert!(matches!(
        set_server("/just/a/path".to_owned()),
        ServerOutcome::Rejected { .. }
    ));
}

#[test]
fn server_subcommand_end_to_end() {
    let resolution = resolve(&args(&["server", "https://example.com/"]));
    let invocation = match resolution {
        Resolution::Resolved { invocation, .. } => invocation,
        _ => panic!("expected a resolved invocation"),
    };
    let url = match dispatch(invocation) {
        Action::ConfigureServer { url } => url,
        _ => panic!("expected the configure-server action"),
    };
    match set_server(url) {
        ServerOutcome::Accepted { url } => assert_eq!(url, "https://example.com/"),
        ServerOutcome::Rejected { .. } => panic!("a well-formed URL must be accepted"),
    }
}
