//! The argument grammar and the invocation resolver.
//!
//! The grammar: exactly one subcommand out of `rec`, `play`, `auth`, `upload`
//! and `server`; the global option `-l`/`--log-level` (optional value,
//! default `"error"`, `"trace"` when present without a value) is recognized
//! anywhere on the line; `rec` takes a required positional `file`, an
//! optional `-c`/`--command` value and the `-f`/`--force` flag; `play`,
//! `upload` and `server` each take one required positional; `auth` takes
//! nothing.
//!
//! Resolution proceeds in two passes over the raw argument list (the process
//! arguments without the program name): the first extracts every global
//! log-level occurrence (the last one wins), the second matches the remaining
//! tokens against the chosen subcommand's parameters. A token is flag-shaped
//! when it starts with `-`; an option that takes a value consumes the next
//! token. The only failures are a missing required value and an unrecognized
//! subcommand, flag or extra positional; with no subcommand at all the
//! resolver reports the usage state instead.

use vstd::prelude::*;
use vstd::string::StrSliceExecFns;

use crate::invocation::{GlobalOptions, Invocation, SpecGlobalOptions, SpecInvocation};

verus! {

// ---------------------------------------------------------------------------
// Token classification
// ---------------------------------------------------------------------------
/// A token that looks like a flag: non-empty and starting with `-`.
pub open spec fn flag_like(token: Seq<char>) -> bool {
    token.len() > 0 && token[0] == '-'
}

/// The global log-level flag, short or long form.
pub open spec fn is_log_flag(token: Seq<char>) -> bool {
    token == "-l"@ || token == "--log-level"@
}

/// The `rec` subcommand's command-override option.
pub open spec fn is_command_flag(token: Seq<char>) -> bool {
    token == "-c"@ || token == "--command"@
}

/// The `rec` subcommand's force flag.
pub open spec fn is_force_flag(token: Seq<char>) -> bool {
    token == "-f"@ || token == "--force"@
}

fn token_is(token: &String, word: &str) -> (r: bool)
    ensures
        r == (token@ == word@),
{
    let owned: String = word.to_owned();
    *token == owned
}

fn flag_like_exec(token: &String) -> (r: bool)
    ensures
        r == flag_like(token@),
{
    let s: &str = token.as_str();
    if s.is_empty() {
        false
    } else {
        s.get_char(0) == '-'
    }
}

fn is_log_flag_exec(token: &String) -> (r: bool)
    ensures
        r == is_log_flag(token@),
{
    token_is(token, "-l") || token_is(token, "--log-level")
}

fn is_command_flag_exec(token: &String) -> (r: bool)
    ensures
        r == is_command_flag(token@),
{
    token_is(token, "-c") || token_is(token, "--command")
}

fn is_force_flag_exec(token: &String) -> (r: bool)
    ensures
        r == is_force_flag(token@),
{
    token_is(token, "-f") || token_is(token, "--force")
}

// ---------------------------------------------------------------------------
// Failure and result types
// ---------------------------------------------------------------------------
/// A user-input error: the only two failure kinds this layer produces.
pub enum UsageError {
    /// A required positional or option value is absent; names the field and
    /// the subcommand it belongs to.
    MissingRequired { subcommand: String, field: String },
    /// An unrecognized subcommand, flag, or extra positional value.
    Unrecognized { token: String },
}

/// Mathematical view of [`UsageError`].
pub ghost enum SpecUsageError {
    MissingRequired { subcommand: Seq<char>, field: Seq<char> },
    Unrecognized { token: Seq<char> },
}

impl View for UsageError {
    type V = SpecUsageError;

    open spec fn view(&self) -> SpecUsageError {
        match self {
            UsageError::MissingRequired { subcommand, field } => SpecUsageError::MissingRequired {
                subcommand: subcommand@,
                field: field@,
            },
            UsageError::Unrecognized { token } => SpecUsageError::Unrecognized { token: token@ },
        }
    }
}

/// What resolving an argument list produces: exactly one invocation, the
/// usage state (no subcommand given: help is shown, no error is reported), or
/// a usage error.
pub enum Resolution {
    Resolved { options: GlobalOptions, invocation: Invocation },
    Usage,
    Failed { error: UsageError },
}

/// Mathematical view of [`Resolution`].
pub ghost enum SpecResolution {
    Resolved { options: SpecGlobalOptions, invocation: SpecInvocation },
    Usage,
    Failed { error: SpecUsageError },
}

impl View for Resolution {
    type V = SpecResolution;

    open spec fn view(&self) -> SpecResolution {
        match self {
            Resolution::Resolved { options, invocation } => SpecResolution::Resolved {
                options: options@,
                invocation: invocation@,
            },
            Resolution::Usage => SpecResolution::Usage,
            Resolution::Failed { error } => SpecResolution::Failed { error: error@ },
        }
    }
}

// ---------------------------------------------------------------------------
// Pass one: global option extraction
// ---------------------------------------------------------------------------
/// Remove every occurrence of the global log-level flag (together with its
/// value, when the next token is not flag-shaped) from the argument list.
/// Returns the remaining tokens in order and the level the flag resolved to:
/// `None` when the flag never occurred, the last supplied value otherwise,
/// with `"trace"` standing in where the flag stood without a value.
pub open spec fn strip_globals(args: Seq<Seq<char>>) -> (Seq<Seq<char>>, Option<Seq<char>>)
    decreases args.len(),
{
    if args.len() == 0 {
        (Seq::<Seq<char>>::empty(), None::<Seq<char>>)
    } else if is_log_flag(args[0]) {
        if args.len() >= 2 && !flag_like(args[1]) {
            let r = strip_globals(args.skip(2));
            (r.0, if r.1 is Some { r.1 } else { Some(args[1]) })
        } else {
            let r = strip_globals(args.skip(1));
            (r.0, if r.1 is Some { r.1 } else { Some("trace"@) })
        }
    } else {
        let r = strip_globals(args.skip(1));
        (seq![args[0]] + r.0, r.1)
    }
}

/// The severity filter the whole run uses: the extracted log level, or
/// `"error"` when the flag never occurred.
pub open spec fn resolved_log_level(args: Seq<Seq<char>>) -> Seq<char> {
    match strip_globals(args).1 {
        Some(level) => level,
        None => "error"@,
    }
}

fn strip_globals_exec(args: &Vec<String>, i: usize) -> (r: (Vec<String>, Option<String>))
    requires
        i <= args.len(),
    ensures
        r.0.deep_view() == strip_globals(args.deep_view().skip(i as int)).0,
        r.1.deep_view() == strip_globals(args.deep_view().skip(i as int)).1,
    decreases args.len() - i,
{
    let ghost dv = args.deep_view();
    let ghost here = dv.skip(i as int);
    if i == args.len() {
        let rest: Vec<String> = Vec::new();
        proof {
            assert(here =~= Seq::<Seq<char>>::empty());
            assert(rest.deep_view() =~= Seq::<Seq<char>>::empty());
        }
        (rest, None)
    } else if is_log_flag_exec(&args[i]) {
        if i + 1 < args.len() && !flag_like_exec(&args[i + 1]) {
            proof {
                assert(here.skip(2) =~= dv.skip(i + 2));
                assert(here[1] == dv[i + 1]);
            }
            let r = strip_globals_exec(args, i + 2);
            let level: Option<String> = match r.1 {
                Some(level) => Some(level),
                None => Some(args[i + 1].clone()),
            };
            (r.0, level)
        } else {
            proof {
                assert(here.skip(1) =~= dv.skip(i + 1));
            }
            let r = strip_globals_exec(args, i + 1);
            let level: Option<String> = match r.1 {
                Some(level) => Some(level),
                None => Some("trace".to_owned()),
            };
            (r.0, level)
        }
    } else {
        proof {
            assert(here.skip(1) =~= dv.skip(i + 1));
        }
        let r = strip_globals_exec(args, i + 1);
        let (mut rest, level) = r;
        rest.insert(0, args[i].clone());
        proof {
            assert(rest.deep_view() =~= seq![here[0]] + strip_globals(dv.skip(i + 1)).0);
        }
        (rest, level)
    }
}

// ---------------------------------------------------------------------------
// Pass two: subcommand parameter parsing
// ---------------------------------------------------------------------------
/// Parse the tokens after `rec`, accumulating the positional `file`, the
/// optional command override and the force flag. A flag-shaped token other
/// than the recognized options, or a second positional, is unrecognized; the
/// command option consumes the following token as its value.
pub open spec fn parse_rec(
    tail: Seq<Seq<char>>,
    file: Option<Seq<char>>,
    command: Option<Seq<char>>,
    force: bool,
) -> Result<SpecInvocation, SpecUsageError>
    decreases tail.len(),
{
    if tail.len() == 0 {
        match file {
            Some(f) => Ok(SpecInvocation::Record { file: f, command, force }),
            None => Err(
                SpecUsageError::MissingRequired { subcommand: "rec"@, field: "file"@ },
            ),
        }
    } else if is_command_flag(tail[0]) {
        if tail.len() >= 2 {
            parse_rec(tail.skip(2), file, Some(tail[1]), force)
        } else {
            Err(SpecUsageError::MissingRequired { subcommand: "rec"@, field: "command"@ })
        }
    } else if is_force_flag(tail[0]) {
        parse_rec(tail.skip(1), file, command, true)
    } else if flag_like(tail[0]) {
        Err(SpecUsageError::Unrecognized { token: tail[0] })
    } else if file is None {
        parse_rec(tail.skip(1), Some(tail[0]), command, force)
    } else {
        Err(SpecUsageError::Unrecognized { token: tail[0] })
    }
}

/// Parse the tokens after a subcommand that takes exactly one required
/// positional (`play`, `upload`, `server`). Any flag-shaped token is
/// unrecognized, a second positional is unrecognized, an absent positional is
/// a missing required field of the named subcommand.
pub open spec fn parse_single(
    tail: Seq<Seq<char>>,
    subcommand: Seq<char>,
    field: Seq<char>,
    found: Option<Seq<char>>,
) -> Result<Seq<char>, SpecUsageError>
    decreases tail.len(),
{
    if tail.len() == 0 {
        match found {
            Some(value) => Ok(value),
            None => Err(SpecUsageError::MissingRequired { subcommand, field }),
        }
    } else if flag_like(tail[0]) {
        Err(SpecUsageError::Unrecognized { token: tail[0] })
    } else if found is None {
        parse_single(tail.skip(1), subcommand, field, Some(tail[0]))
    } else {
        Err(SpecUsageError::Unrecognized { token: tail[0] })
    }
}

/// Parse the tokens after `auth`, which takes no parameters: any token at all
/// is unrecognized.
pub open spec fn parse_none(tail: Seq<Seq<char>>) -> Result<(), SpecUsageError> {
    if tail.len() == 0 {
        Ok(())
    } else {
        Err(SpecUsageError::Unrecognized { token: tail[0] })
    }
}

/// Mathematical view of an invocation-or-error result.
pub open spec fn invocation_result_view(r: Result<Invocation, UsageError>) -> Result<
    SpecInvocation,
    SpecUsageError,
> {
    match r {
        Ok(invocation) => Ok(invocation@),
        Err(error) => Err(error@),
    }
}

/// Mathematical view of a value-or-error result.
pub open spec fn value_result_view(r: Result<String, UsageError>) -> Result<
    Seq<char>,
    SpecUsageError,
> {
    match r {
        Ok(value) => Ok(value@),
        Err(error) => Err(error@),
    }
}

fn parse_rec_exec(
    rest: &Vec<String>,
    i: usize,
    file: Option<String>,
    command: Option<String>,
    force: bool,
) -> (r: Result<Invocation, UsageError>)
    requires
        i <= rest.len(),
    ensures
        invocation_result_view(r) == parse_rec(
            rest.deep_view().skip(i as int),
            file.deep_view(),
            command.deep_view(),
            force,
        ),
    decreases rest.len() - i,
{
    let ghost dv = rest.deep_view();
    let ghost here = dv.skip(i as int);
    if i == rest.len() {
        match file {
            Some(f) => Ok(Invocation::Record { file: f, command, force }),
            None => Err(
                UsageError::MissingRequired {
                    subcommand: "rec".to_owned(),
                    field: "file".to_owned(),
                },
            ),
        }
    } else if is_command_flag_exec(&rest[i]) {
        if i + 1 < rest.len() {
            proof {
                assert(here.skip(2) =~= dv.skip(i + 2));
                assert(here[1] == dv[i + 1]);
            }
            parse_rec_exec(rest, i + 2, file, Some(rest[i + 1].clone()), force)
        } else {
            Err(
                UsageError::MissingRequired {
                    subcommand: "rec".to_owned(),
                    field: "command".to_owned(),
                },
            )
        }
    } else if is_force_flag_exec(&rest[i]) {
        proof {
            assert(here.skip(1) =~= dv.skip(i + 1));
        }
        parse_rec_exec(rest, i + 1, file, command, true)
    } else if flag_like_exec(&rest[i]) {
        Err(UsageError::Unrecognized { token: rest[i].clone() })
    } else if file.is_none() {
        proof {
            assert(here.skip(1) =~= dv.skip(i + 1));
        }
        parse_rec_exec(rest, i + 1, Some(rest[i].clone()), command, force)
    } else {
        Err(UsageError::Unrecognized { token: rest[i].clone() })
    }
}

fn parse_single_exec(
    rest: &Vec<String>,
    i: usize,
    subcommand: &str,
    field: &str,
    found: Option<String>,
) -> (r: Result<String, UsageError>)
    requires
        i <= rest.len(),
    ensures
        value_result_view(r) == parse_single(
            rest.deep_view().skip(i as int),
            subcommand@,
            field@,
            found.deep_view(),
        ),
    decreases rest.len() - i,
{
    let ghost dv = rest.deep_view();
    let ghost here = dv.skip(i as int);
    if i == rest.len() {
        match found {
            Some(value) => Ok(value),
            None => Err(
                UsageError::MissingRequired {
                    subcommand: subcommand.to_owned(),
                    field: field.to_owned(),
                },
            ),
        }
    } else if flag_like_exec(&rest[i]) {
        Err(UsageError::Unrecognized { token: rest[i].clone() })
    } else if found.is_none() {
        proof {
            assert(here.skip(1) =~= dv.skip(i + 1));
        }
        parse_single_exec(rest, i + 1, subcommand, field, Some(rest[i].clone()))
    } else {
        Err(UsageError::Unrecognized { token: rest[i].clone() })
    }
}

// ---------------------------------------------------------------------------
// Resolution
// ---------------------------------------------------------------------------
/// The resolver as a mathematical function over the argument list (the
/// process arguments without the program name).
pub open spec fn spec_resolve(args: Seq<Seq<char>>) -> SpecResolution {
    let rest = strip_globals(args).0;
    let options = SpecGlobalOptions { log_level: resolved_log_level(args) };
    if rest.len() == 0 {
        SpecResolution::Usage
    } else if flag_like(rest[0]) {
        SpecResolution::Failed { error: SpecUsageError::Unrecognized { token: rest[0] } }
    } else {
        let tail = rest.skip(1);
        if rest[0] == "rec"@ {
            match parse_rec(tail, None, None, false) {
                Ok(invocation) => SpecResolution::Resolved { options, invocation },
                Err(error) => SpecResolution::Failed { error },
            }
        } else if rest[0] == "play"@ {
            match parse_single(tail, "play"@, "file"@, None) {
                Ok(file) => SpecResolution::Resolved {
                    options,
                    invocation: SpecInvocation::Play { file },
                },
                Err(error) => SpecResolution::Failed { error },
            }
        } else if rest[0] == "auth"@ {
            match parse_none(tail) {
                Ok(_) => SpecResolution::Resolved {
                    options,
                    invocation: SpecInvocation::Auth,
                },
                Err(error) => SpecResolution::Failed { error },
            }
        } else if rest[0] == "upload"@ {
            match parse_single(tail, "upload"@, "file"@, None) {
                Ok(file) => SpecResolution::Resolved {
                    options,
                    invocation: SpecInvocation::Upload { file },
                },
                Err(error) => SpecResolution::Failed { error },
            }
        } else if rest[0] == "server"@ {
            match parse_single(tail, "server"@, "url"@, None) {
                Ok(url) => SpecResolution::Resolved {
                    options,
                    invocation: SpecInvocation::SetServer { url },
                },
                Err(error) => SpecResolution::Failed { error },
            }
        } else {
            SpecResolution::Failed { error: SpecUsageError::Unrecognized { token: rest[0] } }
        }
    }
}

/// Resolve a raw argument list (the process arguments without the program
/// name) into exactly one invocation plus the global options, the usage
/// state, or a usage error — precisely [`spec_resolve`] of the list.
pub fn resolve(args: &Vec<String>) -> (r: Resolution)
    ensures
        r@ == spec_resolve(args.deep_view()),
{
    let ghost dv = args.deep_view();
    proof {
        assert(dv.skip(0) =~= dv);
    }
    let (rest, level) = strip_globals_exec(args, 0);
    let log_level: String = match level {
        Some(level) => level,
        None => "error".to_owned(),
    };
    let options = GlobalOptions { log_level };
    if rest.len() == 0 {
        return Resolution::Usage;
    }
    if flag_like_exec(&rest[0]) {
        return Resolution::Failed { error: UsageError::Unrecognized { token: rest[0].clone() } };
    }
    if token_is(&rest[0], "rec") {
        match parse_rec_exec(&rest, 1, None, None, false) {
            Ok(invocation) => Resolution::Resolved { options, invocation },
            Err(error) => Resolution::Failed { error },
        }
    } else if token_is(&rest[0], "play") {
        match parse_single_exec(&rest, 1, "play", "file", None) {
            Ok(file) => Resolution::Resolved {
                options,
                invocation: Invocation::Play { file },
            },
            Err(error) => Resolution::Failed { error },
        }
    } else if token_is(&rest[0], "auth") {
        if rest.len() == 1 {
            Resolution::Resolved { options, invocation: Invocation::Auth }
        } else {
            Resolution::Failed { error: UsageError::Unrecognized { token: rest[1].clone() } }
        }
    } else if token_is(&rest[0], "upload") {
        match parse_single_exec(&rest, 1, "upload", "file", None) {
            Ok(file) => Resolution::Resolved {
                options,
                invocation: Invocation::Upload { file },
            },
            Err(error) => Resolution::Failed { error },
        }
    } else if token_is(&rest[0], "server") {
        match parse_single_exec(&rest, 1, "server", "url", None) {
            Ok(url) => Resolution::Resolved {
                options,
                invocation: Invocation::SetServer { url },
            },
            Err(error) => Resolution::Failed { error },
        }
    } else {
        Resolution::Failed { error: UsageError::Unrecognized { token: rest[0].clone() } }
    }
}

/// The process exit status the resolution alone determines: a usage error
/// exits non-zero; a resolved invocation or the usage state does not make the
/// process fail at this layer.
pub open spec fn spec_exit_code(r: SpecResolution) -> int {
    if r is Failed {
        2
    } else {
        0
    }
}

/// The exit status for a resolution: non-zero exactly on a usage error.
pub fn resolution_exit_code(resolution: &Resolution) -> (code: i32)
    ensures
        code as int == spec_exit_code(resolution@),
        (code != 0) <==> resolution@ is Failed,
{
    match resolution {
        Resolution::Failed { .. } => 2,
        Resolution::Usage => 0,
        Resolution::Resolved { .. } => 0,
    }
}

// ---------------------------------------------------------------------------
// Laws of the grammar
// ---------------------------------------------------------------------------
/// A token that is not flag-shaped is none of the grammar's flags.
pub proof fn lemma_positional_not_flag(token: Seq<char>)
    requires
        !flag_like(token),
    ensures
        !is_log_flag(token),
        !is_command_flag(token),
        !is_force_flag(token),
{
    reveal_strlit("-l");
    reveal_strlit("--log-level");
    reveal_strlit("-c");
    reveal_strlit("--command");
    reveal_strlit("-f");
    reveal_strlit("--force");
}

/// Omitting `--log-level` yields the default `"error"`, and the first pass
/// leaves an argument list without the flag untouched.
pub proof fn lemma_log_level_absent(args: Seq<Seq<char>>)
    requires
        forall|j: int| 0 <= j < args.len() ==> !is_log_flag(#[trigger] args[j]),
    ensures
        strip_globals(args).0 == args,
        strip_globals(args).1 is None,
        resolved_log_level(args) == "error"@,
    decreases args.len(),
{
    if args.len() == 0 {
        assert(strip_globals(args).0 =~= args);
    } else {
        assert forall|j: int| 0 <= j < args.skip(1).len() implies !is_log_flag(
            #[trigger] args.skip(1)[j],
        ) by {
            assert(args.skip(1)[j] == args[j + 1]);
        }
        lemma_log_level_absent(args.skip(1));
        assert(strip_globals(args).0 =~= args);
    }
}

/// `--log-level <value>` yields exactly the supplied value (here after any
/// tokens free of the flag, so the occurrence is the deciding one).
pub proof fn lemma_log_level_value(prefix: Seq<Seq<char>>, value: Seq<char>)
    requires
        forall|j: int| 0 <= j < prefix.len() ==> !is_log_flag(#[trigger] prefix[j]),
        !flag_like(value),
    ensures
        strip_globals(prefix + seq!["--log-level"@, value]).0 == prefix,
        resolved_log_level(prefix + seq!["--log-level"@, value]) == value,
    decreases prefix.len(),
{
    let args = prefix + seq!["--log-level"@, value];
    if prefix.len() == 0 {
        assert(args =~= seq!["--log-level"@, value]);
        assert(args.skip(2) =~= Seq::<Seq<char>>::empty());
        assert(strip_globals(Seq::<Seq<char>>::empty()).0 =~= Seq::<Seq<char>>::empty());
        assert(strip_globals(Seq::<Seq<char>>::empty()).1 is None);
        assert(strip_globals(args).0 =~= prefix);
    } else {
        assert(args[0] == prefix[0]);
        assert(args.skip(1) =~= prefix.skip(1) + seq!["--log-level"@, value]);
        assert forall|j: int| 0 <= j < prefix.skip(1).len() implies !is_log_flag(
            #[trigger] prefix.skip(1)[j],
        ) by {
            assert(prefix.skip(1)[j] == prefix[j + 1]);
        }
        lemma_log_level_value(prefix.skip(1), value);
        assert(strip_globals(args).0 =~= seq![prefix[0]] + prefix.skip(1));
        assert(seq![prefix[0]] + prefix.skip(1) =~= prefix);
    }
}

/// `--log-level` with no value (at the end of the line) yields `"trace"`.
pub proof fn lemma_log_level_missing_value(prefix: Seq<Seq<char>>)
    requires
        forall|j: int| 0 <= j < prefix.len() ==> !is_log_flag(#[trigger] prefix[j]),
    ensures
        strip_globals(prefix + seq!["--log-level"@]).0 == prefix,
        resolved_log_level(prefix + seq!["--log-level"@]) == "trace"@,
    decreases prefix.len(),
{
    let args = prefix + seq!["--log-level"@];
    if prefix.len() == 0 {
        assert(args =~= seq!["--log-level"@]);
        assert(args.skip(1) =~= Seq::<Seq<char>>::empty());
        assert(strip_globals(Seq::<Seq<char>>::empty()).0 =~= Seq::<Seq<char>>::empty());
        assert(strip_globals(Seq::<Seq<char>>::empty()).1 is None);
        assert(strip_globals(args).0 =~= prefix);
    } else {
        assert(args[0] == prefix[0]);
        assert(args.skip(1) =~= prefix.skip(1) + seq!["--log-level"@]);
        assert forall|j: int| 0 <= j < prefix.skip(1).len() implies !is_log_flag(
            #[trigger] prefix.skip(1)[j],
        ) by {
            assert(prefix.skip(1)[j] == prefix[j + 1]);
        }
        lemma_log_level_missing_value(prefix.skip(1));
        assert(strip_globals(args).0 =~= seq![prefix[0]] + prefix.skip(1));
        assert(seq![prefix[0]] + prefix.skip(1) =~= prefix);
    }
}

/// Every subcommand word of the grammar is a plain token, none a flag, and
/// all five are distinct words.
proof fn lemma_subcommand_words()
    ensures
        !flag_like("rec"@) && !is_log_flag("rec"@),
        !flag_like("play"@) && !is_log_flag("play"@),
        !flag_like("auth"@) && !is_log_flag("auth"@),
        !flag_like("upload"@) && !is_log_flag("upload"@),
        !flag_like("server"@) && !is_log_flag("server"@),
        "play"@ != "rec"@,
        "auth"@ != "rec"@ && "auth"@ != "play"@,
        "upload"@ != "rec"@ && "upload"@ != "play"@ && "upload"@ != "auth"@,
        "server"@ != "rec"@ && "server"@ != "play"@ && "server"@ != "auth"@ && "server"@
            != "upload"@,
{
    reveal_strlit("rec");
    reveal_strlit("play");
    reveal_strlit("auth");
    reveal_strlit("upload");
    reveal_strlit("server");
    reveal_strlit("-l");
    reveal_strlit("--log-level");
}

/// `rec <file>` resolves to exactly the record invocation over the supplied
/// file, with every default applied: no command override, force off, log
/// level `"error"`.
pub proof fn lemma_resolve_rec_defaults(file: Seq<char>)
    requires
        !flag_like(file),
    ensures
        spec_resolve(seq!["rec"@, file]) == (SpecResolution::Resolved {
            options: SpecGlobalOptions { log_level: "error"@ },
            invocation: SpecInvocation::Record { file, command: None, force: false },
        }),
{
    let args = seq!["rec"@, file];
    lemma_subcommand_words();
    lemma_positional_not_flag(file);
    assert forall|j: int| 0 <= j < args.len() implies !is_log_flag(#[trigger] args[j]) by {}
    lemma_log_level_absent(args);
    let tail = args.skip(1);
    assert(tail =~= seq![file]);
    assert(tail.skip(1) =~= Seq::<Seq<char>>::empty());
    assert(parse_rec(tail.skip(1), Some(file), None, false) == Ok::<_, SpecUsageError>(
        SpecInvocation::Record { file, command: None, force: false },
    ));
    assert(parse_rec(tail, None, None, false) == Ok::<_, SpecUsageError>(
        SpecInvocation::Record { file, command: None, force: false },
    ));
}

/// `rec <file> -c <command> -f` resolves to the record invocation whose
/// fields are exactly the supplied values.
pub proof fn lemma_resolve_rec_full(file: Seq<char>, command: Seq<char>)
    requires
        !flag_like(file),
        !is_log_flag(command),
    ensures
        spec_resolve(seq!["rec"@, file, "-c"@, command, "-f"@]) == (SpecResolution::Resolved {
            options: SpecGlobalOptions { log_level: "error"@ },
            invocation: SpecInvocation::Record { file, command: Some(command), force: true },
        }),
{
    let args = seq!["rec"@, file, "-c"@, command, "-f"@];
    lemma_subcommand_words();
    lemma_positional_not_flag(file);
    reveal_strlit("-c");
    reveal_strlit("-f");
    reveal_strlit("-l");
    reveal_strlit("--log-level");
    reveal_strlit("--command");
    reveal_strlit("--force");
    assert(!is_log_flag("-c"@)) by {
        assert("-c"@.len() == 2);
        assert("--log-level"@.len() == 11);
        assert("-c"@[1] == 'c');
        assert("-l"@[1] == 'l');
    }
    assert(!is_log_flag("-f"@)) by {
        assert("-f"@.len() == 2);
        assert("--log-level"@.len() == 11);
        assert("-f"@[1] == 'f');
        assert("-l"@[1] == 'l');
    }
    assert forall|j: int| 0 <= j < args.len() implies !is_log_flag(#[trigger] args[j]) by {
        assert(args[0] == "rec"@);
        assert(args[1] == file);
        assert(args[2] == "-c"@);
        assert(args[3] == command);
        assert(args[4] == "-f"@);
    }
    lemma_log_level_absent(args);
    let tail = args.skip(1);
    assert(tail =~= seq![file, "-c"@, command, "-f"@]);
    let t1 = tail.skip(1);
    assert(t1 =~= seq!["-c"@, command, "-f"@]);
    let t3 = t1.skip(2);
    assert(t3 =~= seq!["-f"@]);
    let t4 = t3.skip(1);
    assert(t4 =~= Seq::<Seq<char>>::empty());
    assert(is_command_flag("-c"@));
    assert(is_force_flag("-f"@));
    assert(!is_command_flag("-f"@)) by {
        assert("-f"@.len() == 2);
        assert("--command"@.len() == 9);
        assert("-f"@[1] == 'f');
        assert("-c"@[1] == 'c');
    }
    assert(parse_rec(t4, Some(file), Some(command), true) == Ok::<_, SpecUsageError>(
        SpecInvocation::Record { file, command: Some(command), force: true },
    ));
    assert(parse_rec(t3, Some(file), Some(command), false) == parse_rec(
        t4,
        Some(file),
        Some(command),
        true,
    ));
    assert(parse_rec(t1, Some(file), None, false) == parse_rec(t3, Some(file), Some(command), false));
    assert(parse_rec(tail, None, None, false) == parse_rec(t1, Some(file), None, false));
}

/// `play <file>` resolves to exactly the play invocation over the supplied
/// file, log level defaulted.
pub proof fn lemma_resolve_play(file: Seq<char>)
    requires
        !flag_like(file),
    ensures
        spec_resolve(seq!["play"@, file]) == (SpecResolution::Resolved {
            options: SpecGlobalOptions { log_level: "error"@ },
            invocation: SpecInvocation::Play { file },
        }),
{
    let args = seq!["play"@, file];
    lemma_subcommand_words();
    lemma_positional_not_flag(file);
    assert forall|j: int| 0 <= j < args.len() implies !is_log_flag(#[trigger] args[j]) by {}
    lemma_log_level_absent(args);
    let tail = args.skip(1);
    assert(tail =~= seq![file]);
    assert(tail.skip(1) =~= Seq::<Seq<char>>::empty());
    assert(parse_single(tail.skip(1), "play"@, "file"@, Some(file)) == Ok::<_, SpecUsageError>(
        file,
    ));
    assert(parse_single(tail, "play"@, "file"@, None) == Ok::<_, SpecUsageError>(file));
}

/// `auth` resolves to exactly the auth invocation, log level defaulted.
pub proof fn lemma_resolve_auth()
    ensures
        spec_resolve(seq!["auth"@]) == (SpecResolution::Resolved {
            options: SpecGlobalOptions { log_level: "error"@ },
            invocation: SpecInvocation::Auth,
        }),
{
    let args = seq!["auth"@];
    lemma_subcommand_words();
    assert forall|j: int| 0 <= j < args.len() implies !is_log_flag(#[trigger] args[j]) by {}
    lemma_log_level_absent(args);
    assert(args.skip(1) =~= Seq::<Seq<char>>::empty());
}

/// `upload <file>` resolves to exactly the upload invocation over the
/// supplied file, log level defaulted.
pub proof fn lemma_resolve_upload(file: Seq<char>)
    requires
        !flag_like(file),
    ensures
        spec_resolve(seq!["upload"@, file]) == (SpecResolution::Resolved {
            options: SpecGlobalOptions { log_level: "error"@ },
            invocation: SpecInvocation::Upload { file },
        }),
{
    let args = seq!["upload"@, file];
    lemma_subcommand_words();
    lemma_positional_not_flag(file);
    assert forall|j: int| 0 <= j < args.len() implies !is_log_flag(#[trigger] args[j]) by {}
    lemma_log_level_absent(args);
    let tail = args.skip(1);
    assert(tail =~= seq![file]);
    assert(tail.skip(1) =~= Seq::<Seq<char>>::empty());
    assert(parse_single(tail.skip(1), "upload"@, "file"@, Some(file)) == Ok::<_, SpecUsageError>(
        file,
    ));
    assert(parse_single(tail, "upload"@, "file"@, None) == Ok::<_, SpecUsageError>(file));
}

/// `server <url>` resolves to exactly the set-server invocation over the
/// supplied candidate, log level defaulted.
pub proof fn lemma_resolve_server(url: Seq<char>)
    requires
        !flag_like(url),
    ensures
        spec_resolve(seq!["server"@, url]) == (SpecResolution::Resolved {
            options: SpecGlobalOptions { log_level: "error"@ },
            invocation: SpecInvocation::SetServer { url },
        }),
{
    let args = seq!["server"@, url];
    lemma_subcommand_words();
    lemma_positional_not_flag(url);
    assert forall|j: int| 0 <= j < args.len() implies !is_log_flag(#[trigger] args[j]) by {}
    lemma_log_level_absent(args);
    let tail = args.skip(1);
    assert(tail =~= seq![url]);
    assert(tail.skip(1) =~= Seq::<Seq<char>>::empty());
    assert(parse_single(tail.skip(1), "server"@, "url"@, Some(url)) == Ok::<_, SpecUsageError>(
        url,
    ));
    assert(parse_single(tail, "server"@, "url"@, None) == Ok::<_, SpecUsageError>(url));
}

/// `rec` never resolves without its required `file`: however many recognized
/// flags follow, a tail without a positional token parses to an error.
pub proof fn lemma_rec_requires_file(tail: Seq<Seq<char>>, command: Option<Seq<char>>, force: bool)
    requires
        forall|j: int| 0 <= j < tail.len() ==> flag_like(#[trigger] tail[j]),
    ensures
        parse_rec(tail, None, command, force) is Err,
    decreases tail.len(),
{
    if tail.len() == 0 {
    } else if is_command_flag(tail[0]) {
        if tail.len() >= 2 {
            assert forall|j: int| 0 <= j < tail.skip(2).len() implies flag_like(
                #[trigger] tail.skip(2)[j],
            ) by {
                assert(tail.skip(2)[j] == tail[j + 2]);
            }
            lemma_rec_requires_file(tail.skip(2), Some(tail[1]), force);
        }
    } else if is_force_flag(tail[0]) {
        assert forall|j: int| 0 <= j < tail.skip(1).len() implies flag_like(
            #[trigger] tail.skip(1)[j],
        ) by {
            assert(tail.skip(1)[j] == tail[j + 1]);
        }
        lemma_rec_requires_file(tail.skip(1), command, true);
    }
}

/// A subcommand with one required positional never resolves without it: a
/// tail of flag-shaped tokens only parses to an error.
pub proof fn lemma_single_requires_value(tail: Seq<Seq<char>>, subcommand: Seq<char>, field: Seq<char>)
    requires
        forall|j: int| 0 <= j < tail.len() ==> flag_like(#[trigger] tail[j]),
    ensures
        parse_single(tail, subcommand, field, None) is Err,
{
}

/// `rec` with no arguments at all fails naming the missing `file` of `rec`,
/// and the process exit status is non-zero.
pub proof fn lemma_resolve_rec_missing_file()
    ensures
        spec_resolve(seq!["rec"@]) == (SpecResolution::Failed {
            error: SpecUsageError::MissingRequired { subcommand: "rec"@, field: "file"@ },
        }),
        spec_exit_code(spec_resolve(seq!["rec"@])) != 0,
{
    let args = seq!["rec"@];
    lemma_subcommand_words();
    assert forall|j: int| 0 <= j < args.len() implies !is_log_flag(#[trigger] args[j]) by {}
    lemma_log_level_absent(args);
    assert(args.skip(1) =~= Seq::<Seq<char>>::empty());
}

/// `play` with no arguments fails naming the missing `file` of `play`, and
/// the process exit status is non-zero.
pub proof fn lemma_resolve_play_missing_file()
    ensures
        spec_resolve(seq!["play"@]) == (SpecResolution::Failed {
            error: SpecUsageError::MissingRequired { subcommand: "play"@, field: "file"@ },
        }),
        spec_exit_code(spec_resolve(seq!["play"@])) != 0,
{
    let args = seq!["play"@];
    lemma_subcommand_words();
    assert forall|j: int| 0 <= j < args.len() implies !is_log_flag(#[trigger] args[j]) by {}
    lemma_log_level_absent(args);
    assert(args.skip(1) =~= Seq::<Seq<char>>::empty());
}

} // verus!
