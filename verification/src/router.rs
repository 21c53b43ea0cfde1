//! The command router: a total map from a resolved invocation to the single
//! collaborator action that runs it.
//!
//! The router is the only place that knows which collaborator each subcommand
//! constructs. It performs no recovery: a collaborator's failure is the
//! process's final word. The collaborators themselves (pseudo-terminal
//! capture, timed replay, authentication, upload) are outside this crate;
//! the router's output names the one call to make and the values to make it
//! with.

use vstd::prelude::*;

use crate::invocation::{Invocation, SpecInvocation};

verus! {

/// The one collaborator construction-and-execution call a resolved invocation
/// maps to.
pub enum Action {
    /// Construct the recording collaborator from (destination path, optional
    /// command override, force flag) — with no pre-supplied timestamp-source
    /// override — and run it.
    RunRecord { file: String, command: Option<String>, force: bool },
    /// Construct the playback collaborator from the source path and run it.
    RunPlay { file: String },
    /// Construct the remote-service client (active endpoint) and run the
    /// authentication collaborator over it.
    RunAuth,
    /// Construct the remote-service client and the upload collaborator from
    /// the source path, and run it.
    RunUpload { file: String },
    /// Hand the candidate URL to the server validator; no remote-service
    /// client is constructed, this is a configuration mutation.
    ConfigureServer { url: String },
}

/// Mathematical view of [`Action`].
pub ghost enum SpecAction {
    RunRecord { file: Seq<char>, command: Option<Seq<char>>, force: bool },
    RunPlay { file: Seq<char> },
    RunAuth,
    RunUpload { file: Seq<char> },
    ConfigureServer { url: Seq<char> },
}

impl View for Action {
    type V = SpecAction;

    open spec fn view(&self) -> SpecAction {
        match self {
            Action::RunRecord { file, command, force } => SpecAction::RunRecord {
                file: file@,
                command: command.deep_view(),
                force: *force,
            },
            Action::RunPlay { file } => SpecAction::RunPlay { file: file@ },
            Action::RunAuth => SpecAction::RunAuth,
            Action::RunUpload { file } => SpecAction::RunUpload { file: file@ },
            Action::ConfigureServer { url } => SpecAction::ConfigureServer { url: url@ },
        }
    }
}

/// The router as a mathematical function: each invocation variant maps to
/// exactly one action, parameters carried over unchanged.
pub open spec fn spec_dispatch(invocation: SpecInvocation) -> SpecAction {
    match invocation {
        SpecInvocation::Record { file, command, force } => SpecAction::RunRecord {
            file,
            command,
            force,
        },
        SpecInvocation::Play { file } => SpecAction::RunPlay { file },
        SpecInvocation::Auth => SpecAction::RunAuth,
        SpecInvocation::Upload { file } => SpecAction::RunUpload { file },
        SpecInvocation::SetServer { url } => SpecAction::ConfigureServer { url },
    }
}

/// Map the resolved invocation to its collaborator action. Total by
/// construction: the match is exhaustive over the invocation variants and no
/// branch falls through to another operation.
pub fn dispatch(invocation: Invocation) -> (action: Action)
    ensures
        action@ == spec_dispatch(invocation@),
{
    match invocation {
        Invocation::Record { file, command, force } => Action::RunRecord { file, command, force },
        Invocation::Play { file } => Action::RunPlay { file },
        Invocation::Auth => Action::RunAuth,
        Invocation::Upload { file } => Action::RunUpload { file },
        Invocation::SetServer { url } => Action::ConfigureServer { url },
    }
}

/// Whether an action constructs the recording collaborator.
pub open spec fn uses_recorder(action: SpecAction) -> bool {
    action is RunRecord
}

/// Whether an action constructs the playback collaborator.
pub open spec fn uses_player(action: SpecAction) -> bool {
    action is RunPlay
}

/// Whether an action constructs the remote-service client collaborator.
/// Configuring the server does not: it is a configuration mutation, not a
/// network operation.
pub open spec fn uses_api_client(action: SpecAction) -> bool {
    action is RunAuth || action is RunUpload
}

/// Dispatch is total and exact: each invocation variant corresponds to one
/// action variant and the parameters are carried over unchanged.
pub proof fn lemma_dispatch_total(invocation: SpecInvocation)
    ensures
        invocation is Record <==> spec_dispatch(invocation) is RunRecord,
        invocation is Play <==> spec_dispatch(invocation) is RunPlay,
        invocation is Auth <==> spec_dispatch(invocation) is RunAuth,
        invocation is Upload <==> spec_dispatch(invocation) is RunUpload,
        invocation is SetServer <==> spec_dispatch(invocation) is ConfigureServer,
        invocation matches SpecInvocation::Record { file, command, force } ==> spec_dispatch(
            invocation,
        ) == (SpecAction::RunRecord { file, command, force }),
        invocation matches SpecInvocation::Play { file } ==> spec_dispatch(invocation)
            == (SpecAction::RunPlay { file }),
        invocation matches SpecInvocation::Upload { file } ==> spec_dispatch(invocation)
            == (SpecAction::RunUpload { file }),
        invocation matches SpecInvocation::SetServer { url } ==> spec_dispatch(invocation)
            == (SpecAction::ConfigureServer { url }),
{
}

/// Dispatch is side-effect isolated: authenticating never touches the
/// recording or playback collaborators, and recording or replaying never
/// constructs the remote-service client, whatever the invocation's
/// parameters were.
pub proof fn lemma_dispatch_isolated(invocation: SpecInvocation)
    ensures
        invocation is Auth ==> !uses_recorder(spec_dispatch(invocation)) && !uses_player(
            spec_dispatch(invocation),
        ),
        invocation is Record || invocation is Play ==> !uses_api_client(
            spec_dispatch(invocation),
        ),
        invocation is SetServer ==> !uses_api_client(spec_dispatch(invocation))
            && !uses_recorder(spec_dispatch(invocation)) && !uses_player(
            spec_dispatch(invocation),
        ),
{
}

/// The recording collaborator's overwrite rule, as this router relies on it:
/// an existing destination is only recorded over when the force flag is set.
/// The refusal itself is the collaborator's contract; this function is the
/// rule the router's callers (and a stub collaborator in tests) hold it to.
pub fn record_overwrite_permitted(destination_exists: bool, force: bool) -> (permitted: bool)
    ensures
        permitted == (!destination_exists || force),
{
    !destination_exists || force
}

} // verus!
