//! The server URL validator: a candidate endpoint string is accepted and
//! handed on for persistence only when it parses as a well-formed URL;
//! otherwise a human-readable message naming an example of a valid URL is
//! produced.
//!
//! Known gap, kept deliberately: the rejection path reports through the
//! output stream only and the process still exits with status 0, so automated
//! callers cannot see the failure in the exit code. [`server_exit_code`]
//! states this behaviour explicitly rather than silently changing it.

use vstd::prelude::*;

verus! {

/// Whether a candidate string parses as a well-formed URL. URL parsing is a
/// pure function of the string, but its definition (the WHATWG URL standard)
/// is far too large to restate here, so the result only carries this name;
/// the parser itself is trusted through [`parse_url_ok`].
pub uninterp spec fn url_ok(candidate: Seq<char>) -> bool;

/// Relies on `reqwest::Url::parse` (the `url` crate's WHATWG parser, which
/// `reqwest` re-exports): whether a string parses as a URL is a function of
/// the string alone, and parsing returns a `Result` and never panics.
#[verifier::external_body]
fn parse_url_ok(candidate: &str) -> (r: bool)
    ensures
        r == url_ok(candidate@),
{
    reqwest::Url::parse(candidate).is_ok()
}

/// What validating a candidate endpoint decides.
pub enum ServerOutcome {
    /// The candidate is well formed: persist it as the active server.
    Accepted { url: String },
    /// The candidate is not a URL: report `message`; nothing is persisted.
    Rejected { message: String },
}

/// Mathematical view of [`ServerOutcome`].
pub ghost enum SpecServerOutcome {
    Accepted { url: Seq<char> },
    Rejected { message: Seq<char> },
}

impl View for ServerOutcome {
    type V = SpecServerOutcome;

    open spec fn view(&self) -> SpecServerOutcome {
        match self {
            ServerOutcome::Accepted { url } => SpecServerOutcome::Accepted { url: url@ },
            ServerOutcome::Rejected { message } => SpecServerOutcome::Rejected {
                message: message@,
            },
        }
    }
}

/// The message produced for a candidate that does not parse as a URL.
pub open spec fn url_error_message() -> Seq<char> {
    "Error: not a correct URL - e.g: https://asciinema.org"@
}

/// The validator as a mathematical function: a well-formed candidate is
/// accepted unchanged, any other is rejected with [`url_error_message`].
pub open spec fn spec_set_server(url: Seq<char>) -> SpecServerOutcome {
    if url_ok(url) {
        SpecServerOutcome::Accepted { url }
    } else {
        SpecServerOutcome::Rejected { message: url_error_message() }
    }
}

/// Validate a candidate server endpoint. Accepts exactly the candidates that
/// parse as well-formed URLs, carrying the candidate through unchanged;
/// rejects every other with the fixed explanatory message.
pub fn set_server(url: String) -> (outcome: ServerOutcome)
    ensures
        outcome@ == spec_set_server(url@),
{
    if parse_url_ok(url.as_str()) {
        ServerOutcome::Accepted { url }
    } else {
        ServerOutcome::Rejected {
            message: "Error: not a correct URL - e.g: https://asciinema.org".to_owned(),
        }
    }
}

/// The rejection message names an example of a valid URL: it ends with
/// `https://asciinema.org`.
pub proof fn lemma_rejected_message_shows_example()
    ensures
        url_error_message().len() == 53,
        url_error_message().subrange(32, 53) == "https://asciinema.org"@,
{
    reveal_strlit("Error: not a correct URL - e.g: https://asciinema.org");
    reveal_strlit("https://asciinema.org");
    assert(url_error_message().subrange(32, 53) =~= "https://asciinema.org"@);
}

/// The exit status of the `server` subcommand: 0 on both outcomes. That the
/// rejection path also exits 0 is the known gap described at the module head.
pub fn server_exit_code(outcome: &ServerOutcome) -> (code: i32)
    ensures
        code == 0,
{
    match outcome {
        ServerOutcome::Accepted { .. } => 0,
        ServerOutcome::Rejected { .. } => 0,
    }
}

} // verus!
