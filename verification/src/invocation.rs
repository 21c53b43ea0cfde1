//! The data model of a resolved command invocation.
//!
//! Exactly one `Invocation` is produced per process run, together with the
//! `GlobalOptions` that apply to every subcommand. The mathematical view of
//! each type replaces every `String` field by its `Seq<char>` view, so that
//! the resolver's and router's contracts can speak of argument text directly.

use vstd::prelude::*;

verus! {

/// Options recognized regardless of which subcommand is chosen.
///
/// `log_level` is the severity filter handed to the diagnostic-logging
/// initializer: `"error"` when the flag is absent, `"trace"` when the flag is
/// present without a value, and the supplied value otherwise.
pub struct GlobalOptions {
    pub log_level: String,
}

/// Mathematical view of [`GlobalOptions`].
pub ghost struct SpecGlobalOptions {
    pub log_level: Seq<char>,
}

impl View for GlobalOptions {
    type V = SpecGlobalOptions;

    open spec fn view(&self) -> SpecGlobalOptions {
        SpecGlobalOptions { log_level: self.log_level@ }
    }
}

/// The single operation a process run will execute, with its parameters.
///
/// Required parameters are plain fields: their presence was established by the
/// resolver, so no variant carries an unfilled required slot.
pub enum Invocation {
    /// Record a session to `file`; `command` overrides the default shell;
    /// `force` permits overwriting an existing destination.
    Record { file: String, command: Option<String>, force: bool },
    /// Replay the session recorded in `file`.
    Play { file: String },
    /// Authenticate against the active server.
    Auth,
    /// Upload the session in `file` to the active server.
    Upload { file: String },
    /// Validate `url` and, if well formed, persist it as the active server.
    SetServer { url: String },
}

/// Mathematical view of [`Invocation`].
pub ghost enum SpecInvocation {
    Record { file: Seq<char>, command: Option<Seq<char>>, force: bool },
    Play { file: Seq<char> },
    Auth,
    Upload { file: Seq<char> },
    SetServer { url: Seq<char> },
}

impl View for Invocation {
    type V = SpecInvocation;

    open spec fn view(&self) -> SpecInvocation {
        match self {
            Invocation::Record { file, command, force } => SpecInvocation::Record {
                file: file@,
                command: command.deep_view(),
                force: *force,
            },
            Invocation::Play { file } => SpecInvocation::Play { file: file@ },
            Invocation::Auth => SpecInvocation::Auth,
            Invocation::Upload { file } => SpecInvocation::Upload { file: file@ },
            Invocation::SetServer { url } => SpecInvocation::SetServer { url: url@ },
        }
    }
}

} // verus!
