//! How the process starts, and how it ends.

use vstd::prelude::*;
use vstd::string::*;

use crate::cli::{
    default_v8_flags, displays_version, error_report, exit_for_error, exit_with_message,
    integrity_text, io_error_in, panic_exit, panic_report, resolve_flags_and_init, shown_as,
    unstable_exit_cb, unstable_warn_cb, without_prefixes, Exit, Flags, FlagsError, StartupStep,
    Subcommand, SubcommandOutput,
};

verus! {

/// Whether `text` is `rest` behind the word `error` and a colon, said `times`
/// times, and `rest` does not begin so again.
pub open spec fn is_rest(text: Seq<char>, rest: Seq<char>, times: nat) -> bool {
    let word = "error: "@;
    &&& text.len() == times * word.len() + rest.len()
    &&& rest == text.skip((times * word.len()) as int)
    &&& forall|k: int|
        0 <= k < times ==> #[trigger] text.subrange(
            k * (word.len() as int),
            (k + 1) * (word.len() as int),
        ) == word
    &&& !word.is_prefix_of(rest)
}

proof fn lemma_rest(text: Seq<char>) -> (times: nat)
    ensures
        is_rest(text, without_prefixes(text, "error: "@), times),
    decreases text.len(),
{
    reveal_strlit("error: ");
    let word = "error: "@;
    assert(word.len() == 7);
    if word.is_prefix_of(text) {
        let tail = text.skip(7);
        let fewer = lemma_rest(tail);
        let times = fewer + 1;
        let rest = without_prefixes(tail, word);
        assert(tail.skip((fewer * 7) as int) =~= text.skip((times * 7) as int));
        assert forall|k: int| 0 <= k < times implies #[trigger] text.subrange(k * 7, (k + 1) * 7)
            == word by {
            if k > 0 {
                let j = k - 1;
                let len = word.len() as int;
                assert(tail.subrange(j * len, (j + 1) * len) == word);
                assert(text.subrange(k * 7, (k + 1) * 7) =~= tail.subrange(j * len, (j + 1) * len));
            } else {
                assert(text.subrange(0, 7) =~= word);
            }
        }
        assert(is_rest(text, rest, times));
        times
    } else {
        assert(text.skip(0) =~= text);
        0
    }
}

/// A last message is what the message holds behind the words `error: ` that it
/// begins with, all of it and nothing else.
pub proof fn law_last_message(message: &str, code: i32, r: Exit)
    requires
        call_ensures(exit_with_message, (message, code), r),
    ensures
        exists|times: nat| is_rest(message@, r.message@, times),
        r.code == code,
{
    let times = lemma_rest(message@);
    assert(is_rest(message@, r.message@, times));
}

/// An error of a script speaks for itself, before a lockfile that does not match,
/// and that before all others. Only the lockfile has a code of its own.
pub proof fn law_error_report(
    debug: String,
    js_error: Option<String>,
    integrity_failure: Option<String>,
    r: (String, i32),
)
    requires
        call_ensures(error_report, (debug, js_error, integrity_failure), r),
    ensures
        js_error matches Some(text) ==> r.0 == text && r.1 == 1,
        js_error is None ==> (integrity_failure matches Some(text) ==> r.0 == text && r.1 == 10),
        js_error is None && integrity_failure is None ==> r.0 == debug && r.1 == 1,
{
}

/// A fatal error is reported in the words of the script's error, of the lockfile
/// that does not match, or of the error itself, in this order, and ends the
/// process with 1, but with 10 over a lockfile.
pub proof fn law_fatal_error(error: anyhow::Error, js_error: Option<String>, r: Exit)
    requires
        call_ensures(exit_for_error, (error, js_error), r),
    ensures
        r.code == (if js_error is None && integrity_text(error) is Some {
            10int
        } else {
            1int
        }),
        exists|text: Seq<char>, times: nat|
            {
                &&& js_error matches Some(given) ==> text == given@
                &&& js_error is None ==> (integrity_text(error) matches Some(given) ==> text
                    == given)
                &&& js_error is None && integrity_text(error) is None ==> shown_as(error, text)
                &&& #[trigger] is_rest(text, r.message@, times)
            },
{
    let text = match (js_error, integrity_text(error)) {
        (Some(given), _) => given@,
        (None, Some(given)) => given,
        (None, None) => choose|text: Seq<char>| #[trigger]
            shown_as(error, text) && r.message@ == without_prefixes(text, "error: "@),
    };
    let times = lemma_rest(text);
    assert(is_rest(text, r.message@, times));
}

/// A subcommand that returns a code ends with it; one that returns nothing ends
/// with 0; an error is passed on, and an I/O error within another.
pub proof fn law_subcommands(
    code: Result<i32, anyhow::Error>,
    done: Result<(), anyhow::Error>,
    written: Result<(), std::io::Error>,
    of_code: Result<i32, anyhow::Error>,
    of_done: Result<i32, anyhow::Error>,
    of_written: Result<i32, anyhow::Error>,
)
    requires
        call_ensures(<Result<i32, anyhow::Error> as SubcommandOutput>::output, (code,), of_code),
        call_ensures(<Result<(), anyhow::Error> as SubcommandOutput>::output, (done,), of_done),
        call_ensures(
            <Result<(), std::io::Error> as SubcommandOutput>::output,
            (written,),
            of_written,
        ),
    ensures
        of_code == code,
        done is Ok ==> of_done == Ok::<i32, anyhow::Error>(0),
        done matches Err(error) ==> of_done == Err::<i32, anyhow::Error>(error),
        written is Ok ==> of_written == Ok::<i32, anyhow::Error>(0),
        written matches Err(error) ==> (of_written matches Err(given) && io_error_in(given) == Some(
            error,
        )),
{
}

/// Whoever uses an unstable API without its flag is told both, and the process
/// ends with 70.
pub proof fn law_unstable_api_is_refused(feature: &str, api_name: &str, r: Exit)
    requires
        call_ensures(unstable_exit_cb, (feature, api_name), r),
    ensures
        r.message@ == "Unstable API '"@ + api_name@ + "'. The `--unstable-"@ + feature@
            + "` flag must be provided."@,
        r.code == 70,
{
}

/// Whoever turns an unstable API on by the flag for all of them is told which
/// flag to use instead.
pub proof fn law_unstable_api_is_warned_of(feature: &str, api_name: &str, r: String)
    requires
        call_ensures(unstable_warn_cb, (feature, api_name), r),
    ensures
        r@ == "The `"@ + api_name@
            + "` API was used with `--unstable` flag. The `--unstable` flag is deprecated and will be removed in Deno 2.0. Use granular `--unstable-"@
            + feature@
            + "` instead.\nLearn more at: https://docs.deno.com/runtime/manual/tools/unstable_flags"@,
{
}

/// A panic is reported with the platform, the version and the arguments, at the
/// end of the report, and ends the process with 1.
pub proof fn law_panic(
    os: &str,
    arch: &str,
    version: &str,
    args: &str,
    report: String,
    exit: Exit,
)
    requires
        call_ensures(panic_report, (os, arch, version, args), report),
        call_ensures(panic_exit, (os, arch, version, args), exit),
    ensures
        exit.code == 1,
        exit.message@ == report@,
        report@
            == "\n============================================================\nDeno has panicked. This is a bug in Deno. Please report this\nat https://github.com/denoland/deno/issues/new.\nIf you can reliably reproduce this panic, include the\nreproduction steps and re-run with the RUST_BACKTRACE=1 env\nvar set and include the backtrace in your report.\n\nPlatform: "@
            + os@ + " "@ + arch@ + "\nVersion: "@ + version@ + "\nArgs: "@ + args@ + "\n\n"@,
{
}

/// Whether `flags` are the ones that V8 starts with: the language server is given
/// a larger heap, and nothing else; other subcommands have import assertions
/// turned off in the next version, and on in this one, without the middle tier
/// compiler.
pub open spec fn are_right_v8_flags(
    subcommand: Subcommand,
    deno_future: bool,
    flags: Seq<String>,
) -> bool {
    match (subcommand, deno_future) {
        (Subcommand::Lsp, _) => flags.len() == 1 && flags[0]@ == "--max-old-space-size=3072"@,
        (_, true) => flags.len() == 1 && flags[0]@ == "--no-harmony-import-assertions"@,
        (_, false) => flags.len() == 2 && flags[0]@ == "--harmony-import-assertions"@ && flags[1]@
            == "--no-maglev"@,
    }
}

/// V8 starts with flags that go by the subcommand and the version.
pub proof fn law_v8_flags(subcommand: Subcommand, deno_future: bool, r: Vec<String>)
    requires
        call_ensures(default_v8_flags, (subcommand, deno_future), r),
    ensures
        are_right_v8_flags(subcommand, deno_future, r@),
{
    lemma_v8_flags(subcommand, deno_future, r@);
}

proof fn lemma_v8_flags(subcommand: Subcommand, deno_future: bool, flags: Seq<String>)
    requires
        crate::cli::texts(flags) == crate::cli::v8_defaults(subcommand, deno_future),
    ensures
        are_right_v8_flags(subcommand, deno_future, flags),
{
    let texts = crate::cli::texts(flags);
    assert(texts.len() == flags.len());
    assert(flags.len() > 0 ==> texts[0] == flags[0]@);
    assert(flags.len() > 1 ==> texts[1] == flags[1]@);
}

/// Flags start the process, with a warning exactly where the flag for all
/// unstable APIs was given, and with the old platform of V8 in this version
/// only. Without flags the process ends: well where its version was asked for,
/// and over the error otherwise.
pub proof fn law_start<E>(
    parsed: Result<Flags, FlagsError<E>>,
    deno_future: bool,
    r: StartupStep<E>,
)
    requires
        call_ensures(resolve_flags_and_init::<E>, (parsed, deno_future), r),
    ensures
        match parsed {
            Ok(flags) => {
                &&& r matches StartupStep::Start(startup)
                &&& startup.warning is Some <==> flags.legacy_unstable
                &&& startup.warning matches Some(warning) ==> warning@ == (
                if flags.subcommand is Check {
                    "The `--unstable` flag is not needed for `deno check` anymore."@
                } else {
                    "The `--unstable` flag is deprecated and will be removed in Deno 2.0. Use granular `--unstable-*` flags instead.\nLearn more at: https://docs.deno.com/runtime/manual/tools/unstable_flags"@
                })
                &&& are_right_v8_flags(
                    flags.subcommand,
                    deno_future,
                    startup.default_v8_flags@,
                )
                &&& startup.legacy_platform <==> !deno_future
            },
            Err(failure) => if displays_version(failure.kind) {
                r matches StartupStep::PrintAndExit(error, code) && error == failure.error && code
                    == 0
            } else {
                r matches StartupStep::Fail(error) && error == failure.error
            },
        },
{
    if let (Ok(flags), StartupStep::Start(startup)) = (parsed, r) {
        lemma_v8_flags(flags.subcommand, deno_future, startup.default_v8_flags@);
    }
}

} // verus!
