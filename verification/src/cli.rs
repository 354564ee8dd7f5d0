//! What the command line tells the user, and how it ends.

use clap::error::ErrorKind;
use deno_npm::resolution::SnapshotFromLockfileError;
use vstd::prelude::*;
use vstd::string::*;

use crate::calls::call_on;

verus! {

/// An error of any kind.
#[verifier::external_type_specification]
#[verifier::external_body]
pub struct ExAnyError(anyhow::Error);

/// The I/O error that `anyhow::Error::downcast` finds in `error`, where it was
/// made of one.
pub uninterp spec fn io_error_in(error: anyhow::Error) -> Option<std::io::Error>;

/// `anyhow::Error::from` on an I/O error: the result carries that very error.
/// Nothing is stated of the backtrace that it may hold besides.
#[verifier::external_body]
fn any_error(error: std::io::Error) -> (r: anyhow::Error)
    ensures
        io_error_in(r) == Some(error),
{
    anyhow::Error::from(error)
}

/// What a subcommand may return: something that comes down to an exit code or
/// an error.
pub trait SubcommandOutput: Sized {
    /// The exit code, where the subcommand succeeded.
    spec fn exit_code(self) -> Option<i32>;

    fn output(self) -> (r: Result<i32, anyhow::Error>)
        ensures
            match self.exit_code() {
                Some(code) => r matches Ok(given) && given == code,
                None => r is Err,
            },
    ;
}

impl SubcommandOutput for Result<i32, anyhow::Error> {
    open spec fn exit_code(self) -> Option<i32> {
        match self {
            Ok(code) => Some(code),
            Err(_) => None,
        }
    }

    fn output(self) -> (r: Result<i32, anyhow::Error>)
        ensures
            r == self,
    {
        self
    }
}

impl SubcommandOutput for Result<(), anyhow::Error> {
    open spec fn exit_code(self) -> Option<i32> {
        match self {
            Ok(_) => Some(0),
            Err(_) => None,
        }
    }

    fn output(self) -> (r: Result<i32, anyhow::Error>)
        ensures
            r == (match self {
                Ok(_) => Ok(0i32),
                Err(error) => Err(error),
            }),
    {
        match self {
            Ok(_) => Ok(0),
            Err(error) => Err(error),
        }
    }
}

impl SubcommandOutput for Result<(), std::io::Error> {
    open spec fn exit_code(self) -> Option<i32> {
        match self {
            Ok(_) => Some(0),
            Err(_) => None,
        }
    }

    fn output(self) -> (r: Result<i32, anyhow::Error>)
        ensures
            match self {
                Ok(_) => r == Ok::<i32, anyhow::Error>(0),
                Err(error) => r matches Err(given) && io_error_in(given) == Some(error),
            },
    {
        match self {
            Ok(_) => Ok(0),
            Err(error) => Err(any_error(error)),
        }
    }
}

/// The end of the process: what it says last, and the code that it ends with.
pub struct Exit {
    pub message: String,
    pub code: i32,
}

/// `text` without the prefixes `prefix`, however often it begins with it.
pub open spec fn without_prefixes(text: Seq<char>, prefix: Seq<char>) -> Seq<char>
    decreases text.len(),
{
    if prefix.len() > 0 && prefix.is_prefix_of(text) {
        without_prefixes(text.skip(prefix.len() as int), prefix)
    } else {
        text
    }
}

fn begins_at(text: &str, at: usize, prefix: &str) -> (r: bool)
    requires
        at <= text@.len(),
        text@.len() <= usize::MAX,
    ensures
        r == prefix@.is_prefix_of(text@.skip(at as int)),
{
    let rest: usize = text.unicode_len() - at;
    let len: usize = prefix.unicode_len();
    if rest < len {
        return false;
    }
    let ghost tail = text@.skip(at as int);
    let mut i: usize = 0;
    while i < len
        invariant
            len == prefix@.len(),
            at + len <= text@.len() <= usize::MAX,
            tail == text@.skip(at as int),
            i <= len,
            forall|j: int| 0 <= j < i ==> tail[j] == prefix@[j],
        decreases len - i,
    {
        if text.get_char(at + i) != prefix.get_char(i) {
            assert(tail.subrange(0, len as int)[i as int] != prefix@[i as int]);
            return false;
        }
        i += 1;
    }
    assert(tail.subrange(0, len as int) =~= prefix@);
    true
}

/// `text` without the prefixes `prefix`.
fn strip_prefixes(text: &str, prefix: &str) -> (r: String)
    requires
        prefix@.len() > 0,
    ensures
        r@ == without_prefixes(text@, prefix@),
{
    let total: usize = text.unicode_len();
    let len: usize = prefix.unicode_len();
    let mut at: usize = 0;
    assert(text@.skip(0) =~= text@);
    while begins_at(text, at, prefix)
        invariant
            total == text@.len(),
            len == prefix@.len(),
            len > 0,
            at <= total,
            without_prefixes(text@, prefix@) == without_prefixes(text@.skip(at as int), prefix@),
        ensures
            !prefix@.is_prefix_of(text@.skip(at as int)),
        decreases total - at,
    {
        assert(text@.skip(at as int).skip(len as int) =~= text@.skip(at + len));
        at += len;
    }
    assert(text@.subrange(at as int, total as int) =~= text@.skip(at as int));
    text.substring_char(at, total).to_string()
}

/// Ends the process with a message, which goes behind the word `error` and a
/// colon, and therefore sheds those it begins with itself.
pub fn exit_with_message(message: &str, code: i32) -> (r: Exit)
    ensures
        r.message@ == without_prefixes(message@, "error: "@),
        r.code == code,
{
    proof {
        reveal_strlit("error: ");
    }
    Exit { message: strip_prefixes(message, "error: "), code }
}

/// What a lockfile that does not match has to say, where that is what `error`
/// is about.
pub uninterp spec fn integrity_text(error: anyhow::Error) -> Option<Seq<char>>;

/// `anyhow::Error::downcast_ref` to deno_npm's `SnapshotFromLockfileError`: the
/// text of the error, where it says that an integrity check failed.
#[verifier::external_body]
fn integrity_failure(error: &anyhow::Error) -> (r: Option<String>)
    ensures
        r is Some <==> integrity_text(*error) is Some,
        r matches Some(text) ==> integrity_text(*error) == Some(text@),
{
    match error.downcast_ref::<SnapshotFromLockfileError>() {
        Some(SnapshotFromLockfileError::IntegrityCheckFailed(failure)) => Some(failure.to_string()),
        _ => None,
    }
}

/// `format` on an error, in full. What comes out is not stated: it may hold a
/// backtrace, whose text is up to the machine.
#[verifier::external_body]
pub(crate) fn debug_text(error: &anyhow::Error) -> String {
    format!("{error:?}")
}

/// Whether `text` is what `debug_text` may make of `error`.
pub closed spec fn shown_as(error: anyhow::Error, text: Seq<char>) -> bool {
    exists|debug: String|
        #[trigger] call_ensures(debug_text, (&error,), debug) && debug@ == text
}

/// The message of a fatal error, and the code that the process ends with.
/// `debug` is the error in full; `js_error` and `integrity_failure` are what an
/// error of a script, or a lockfile that does not match, has to say instead.
pub fn error_report(
    debug: String,
    js_error: Option<String>,
    integrity_failure: Option<String>,
) -> (r: (String, i32))
    ensures
        r == (match (js_error, integrity_failure) {
            (Some(text), _) => (text, 1i32),
            (None, Some(text)) => (text, 10i32),
            (None, None) => (debug, 1i32),
        }),
{
    match (js_error, integrity_failure) {
        (Some(text), _) => (text, 1),
        (None, Some(text)) => (text, 10),
        (None, None) => (debug, 1),
    }
}

/// Ends the process because of an error. `js_error` is what the error has to say
/// where it is one of a script.
pub fn exit_for_error(error: anyhow::Error, js_error: Option<String>) -> (r: Exit)
    ensures
        match (js_error, integrity_text(error)) {
            (Some(text), _) => r.message@ == without_prefixes(text@, "error: "@) && r.code == 1,
            (None, Some(text)) => r.message@ == without_prefixes(text, "error: "@) && r.code == 10,
            (None, None) => r.code == 1 && exists|text: Seq<char>|
                #![trigger shown_as(error, text)]
                shown_as(error, text) && r.message@ == without_prefixes(text, "error: "@),
        },
{
    let debug = call_on(debug_text, &error);
    assert(shown_as(error, debug@));
    let (text, code) = error_report(debug, js_error, integrity_failure(&error));
    exit_with_message(text.as_str(), code)
}

/// Ends the process because an unstable API was used without its flag.
pub fn unstable_exit_cb(feature: &str, api_name: &str) -> (r: Exit)
    ensures
        r.message@ == "Unstable API '"@ + api_name@ + "'. The `--unstable-"@ + feature@
            + "` flag must be provided."@,
        r.code == 70,
{
    let mut message = "Unstable API '".to_string();
    message.append(api_name);
    message.append("'. The `--unstable-");
    message.append(feature);
    message.append("` flag must be provided.");
    Exit { message, code: 70 }
}

/// What the user is told who turned on an unstable API by the flag for all of
/// them.
pub fn unstable_warn_cb(feature: &str, api_name: &str) -> (r: String)
    ensures
        r@ == "The `"@ + api_name@
            + "` API was used with `--unstable` flag. The `--unstable` flag is deprecated and will be removed in Deno 2.0. Use granular `--unstable-"@
            + feature@
            + "` instead.\nLearn more at: https://docs.deno.com/runtime/manual/tools/unstable_flags"@,
{
    let mut message = "The `".to_string();
    message.append(api_name);
    message.append(
        "` API was used with `--unstable` flag. The `--unstable` flag is deprecated and will be removed in Deno 2.0. Use granular `--unstable-",
    );
    message.append(feature);
    message.append(
        "` instead.\nLearn more at: https://docs.deno.com/runtime/manual/tools/unstable_flags",
    );
    message
}

/// What the user is told when the host panics, above what the panic itself has
/// to say.
pub open spec fn panic_text(
    os: Seq<char>,
    arch: Seq<char>,
    version: Seq<char>,
    args: Seq<char>,
) -> Seq<char> {
    "\n============================================================\nDeno has panicked. This is a bug in Deno. Please report this\nat https://github.com/denoland/deno/issues/new.\nIf you can reliably reproduce this panic, include the\nreproduction steps and re-run with the RUST_BACKTRACE=1 env\nvar set and include the backtrace in your report.\n\nPlatform: "@
        + os + " "@ + arch + "\nVersion: "@ + version + "\nArgs: "@ + args + "\n\n"@
}

/// The code that the process ends with after a panic.
pub const PANIC_EXIT_CODE: i32 = 1;

/// The code that the process ends with after it displayed its version.
pub const VERSION_EXIT_CODE: i32 = 0;

/// What the user is told when the host panics.
pub fn panic_report(os: &str, arch: &str, version: &str, args: &str) -> (r: String)
    ensures
        r@ == panic_text(os@, arch@, version@, args@),
{
    let mut report = "\n============================================================\nDeno has panicked. This is a bug in Deno. Please report this\nat https://github.com/denoland/deno/issues/new.\nIf you can reliably reproduce this panic, include the\nreproduction steps and re-run with the RUST_BACKTRACE=1 env\nvar set and include the backtrace in your report.\n\nPlatform: ".to_string();
    report.append(os);
    report.append(" ");
    report.append(arch);
    report.append("\nVersion: ");
    report.append(version);
    report.append("\nArgs: ");
    report.append(args);
    report.append("\n\n");
    report
}

/// Ends the process because the host panicked. The message comes before what the
/// panic itself has to say.
pub fn panic_exit(os: &str, arch: &str, version: &str, args: &str) -> (r: Exit)
    ensures
        r.message@ == panic_text(os@, arch@, version@, args@),
        r.code == PANIC_EXIT_CODE,
{
    Exit { message: panic_report(os, arch, version, args), code: PANIC_EXIT_CODE }
}

/// The subcommands that start up in a way of their own.
#[derive(Clone, Copy, Debug, PartialEq, Eq, Structural)]
pub enum Subcommand {
    Check,
    Lsp,
    Other,
}

/// What the command line says, as far as it bears on the start.
pub struct Flags {
    pub subcommand: Subcommand,
    /// Whether the flag for all unstable APIs was given.
    pub legacy_unstable: bool,
}

/// The kind of an error of the argument parser.
#[verifier::external_type_specification]
#[verifier::external_body]
pub struct ExErrorKind(ErrorKind);

/// Whether an error of the argument parser is the wish to see the version.
pub uninterp spec fn displays_version(kind: ErrorKind) -> bool;

/// Tells the variant `DisplayVersion` of clap's `ErrorKind` from the others.
#[verifier::external_body]
fn is_display_version(kind: &ErrorKind) -> (r: bool)
    ensures
        r == displays_version(*kind),
{
    matches!(kind, ErrorKind::DisplayVersion)
}

/// Why there are no flags: an error of the argument parser, and its kind.
pub struct FlagsError<E> {
    pub kind: ErrorKind,
    pub error: E,
}

/// How the process starts.
pub struct Startup {
    /// What the user is to be warned of.
    pub warning: Option<String>,
    /// The flags that V8 is given before those of the user.
    pub default_v8_flags: Vec<String>,
    /// Whether V8's platform may use what is on its way out.
    pub legacy_platform: bool,
}

/// What becomes of the process once its arguments were looked at.
pub enum StartupStep<E> {
    Start(Startup),
    /// Display the error and end the process with this code, whether or not the
    /// display succeeds.
    PrintAndExit(E, i32),
    /// End the process because of the error.
    Fail(E),
}

/// What the user is warned of who gave the flag for all unstable APIs.
pub open spec fn legacy_warning(flags: Flags) -> Option<Seq<char>> {
    if !flags.legacy_unstable {
        None
    } else if flags.subcommand is Check {
        Some("The `--unstable` flag is not needed for `deno check` anymore."@)
    } else {
        Some(
            "The `--unstable` flag is deprecated and will be removed in Deno 2.0. Use granular `--unstable-*` flags instead.\nLearn more at: https://docs.deno.com/runtime/manual/tools/unstable_flags"@,
        )
    }
}

/// The flags that V8 is given before those of the user.
pub open spec fn v8_defaults(subcommand: Subcommand, deno_future: bool) -> Seq<Seq<char>> {
    if subcommand is Lsp {
        seq!["--max-old-space-size=3072"@]
    } else if deno_future {
        seq!["--no-harmony-import-assertions"@]
    } else {
        seq!["--harmony-import-assertions"@, "--no-maglev"@]
    }
}

/// The texts of strings.
pub open spec fn texts(strings: Seq<String>) -> Seq<Seq<char>> {
    Seq::new(strings.len(), |i: int| strings[i]@)
}

/// The flags that V8 is given before those of the user. `deno_future` turns on
/// what the next version will do.
pub fn default_v8_flags(subcommand: Subcommand, deno_future: bool) -> (r: Vec<String>)
    ensures
        texts(r@) == v8_defaults(subcommand, deno_future),
{
    let mut flags: Vec<String> = Vec::new();
    match subcommand {
        // The same default as that of other language servers.
        Subcommand::Lsp => flags.push("--max-old-space-size=3072".to_string()),
        _ => if deno_future {
            flags.push("--no-harmony-import-assertions".to_string());
        } else {
            // V8 no longer supports import assertions by default.
            flags.push("--harmony-import-assertions".to_string());
            flags.push("--no-maglev".to_string());
        },
    }
    assert(texts(flags@) =~= v8_defaults(subcommand, deno_future));
    flags
}

/// How the process starts, given what its arguments were parsed to.
pub fn resolve_flags_and_init<E>(parsed: Result<Flags, FlagsError<E>>, deno_future: bool) -> (r:
    StartupStep<E>)
    ensures
        match parsed {
            Ok(flags) => {
                &&& r matches StartupStep::Start(startup)
                &&& match legacy_warning(flags) {
                    Some(text) => startup.warning matches Some(warning) && warning@ == text,
                    None => startup.warning is None,
                }
                &&& texts(startup.default_v8_flags@) == v8_defaults(flags.subcommand, deno_future)
                &&& startup.legacy_platform == !deno_future
            },
            Err(failure) => if displays_version(failure.kind) {
                r == StartupStep::PrintAndExit(failure.error, VERSION_EXIT_CODE)
            } else {
                r == StartupStep::Fail(failure.error)
            },
        },
{
    let flags = match parsed {
        Ok(flags) => flags,
        Err(failure) => {
            if is_display_version(&failure.kind) {
                return StartupStep::PrintAndExit(failure.error, VERSION_EXIT_CODE);
            }
            return StartupStep::Fail(failure.error);
        },
    };
    let warning = if !flags.legacy_unstable {
        None
    } else {
        match flags.subcommand {
            Subcommand::Check => Some(
                "The `--unstable` flag is not needed for `deno check` anymore.".to_string(),
            ),
            _ => Some(
                "The `--unstable` flag is deprecated and will be removed in Deno 2.0. Use granular `--unstable-*` flags instead.\nLearn more at: https://docs.deno.com/runtime/manual/tools/unstable_flags".to_string(),
            ),
        }
    };
    StartupStep::Start(
        Startup {
            warning,
            default_v8_flags: default_v8_flags(flags.subcommand, deno_future),
            legacy_platform: !deno_future,
        },
    )
}

/// A last message does not begin with the word that is printed in front of it,
/// and is the end of the message it was made from.
pub proof fn law_error_is_said_once(text: Seq<char>, prefix: Seq<char>)
    requires
        prefix.len() > 0,
    ensures
        !prefix.is_prefix_of(without_prefixes(text, prefix)),
        without_prefixes(text, prefix).is_suffix_of(text),
        without_prefixes(without_prefixes(text, prefix), prefix) == without_prefixes(text, prefix),
    decreases text.len(),
{
    if prefix.is_prefix_of(text) {
        let rest = text.skip(prefix.len() as int);
        law_error_is_said_once(rest, prefix);
        let end = without_prefixes(rest, prefix);
        assert(text.subrange(text.len() - end.len(), text.len() as int) =~= rest.subrange(
            rest.len() - end.len(),
            rest.len() as int,
        ));
    } else {
        assert(text.subrange(0, text.len() as int) =~= text);
    }
}

/// The text of an error is what formatting that very error comes to.
pub(crate) proof fn law_error_speaks_for_itself(error: anyhow::Error, text: Seq<char>)
    requires
        shown_as(error, text),
    ensures
        exists|debug: String|
            #[trigger] call_ensures(debug_text, (&error,), debug) && debug@ == text,
{
}

} // verus!
