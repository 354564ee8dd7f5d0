use clap::error::ErrorKind;
use deno_host::cli::{
    default_v8_flags, error_report, exit_for_error, exit_with_message, panic_exit, panic_report,
    resolve_flags_and_init, unstable_exit_cb, unstable_warn_cb, Flags, FlagsError, StartupStep,
    Subcommand, SubcommandOutput,
};
use deno_host::ipc::{
    send_to_deno, send_to_host, EventListen, IpcMessage, ListenAction, ListenEvent, Listening,
    SentToDenoMessage, SentToWindowMessage,
};
use deno_lockfile::Lockfile;
use deno_npm::registry::TestNpmRegistryApi;
use deno_npm::resolution::{
    incomplete_snapshot_from_lockfile, snapshot_from_lockfile, SnapshotFromLockfileParams,
};
use serde_json::Value;
use std::path::PathBuf;

#[test]
fn subcommands_come_down_to_a_code() {
    let code: Result<i32, anyhow::Error> = Ok(3);
    assert_eq!(code.output().unwrap(), 3);
    let done: Result<(), anyhow::Error> = Ok(());
    assert_eq!(done.output().unwrap(), 0);
    let failed: Result<(), anyhow::Error> = Err(anyhow::Error::msg("broken"));
    assert_eq!(failed.output().unwrap_err().to_string(), "broken");
    let done: Result<(), std::io::Error> = Ok(());
    assert_eq!(done.output().unwrap(), 0);
    let failed: Result<(), std::io::Error> =
        Err(std::io::Error::from(std::io::ErrorKind::NotFound));
    let error = failed.output().unwrap_err();
    assert_eq!(
        error.downcast_ref::<std::io::Error>().unwrap().kind(),
        std::io::ErrorKind::NotFound
    );
}

#[test]
fn the_word_error_is_said_once() {
    let exit = exit_with_message("error: error: caf\u{e9} error: x", 4);
    assert_eq!(exit.message, "caf\u{e9} error: x");
    assert_eq!(exit.code, 4);
    assert_eq!(exit_with_message("error:x", 1).message, "error:x");
    assert_eq!(exit_with_message("error: ", 1).message, "");
    assert_eq!(exit_with_message("", 1).message, "");
}

fn mismatch() -> anyhow::Error {
    let api = TestNpmRegistryApi::default();
    api.ensure_package_version_with_integrity("chalk", "5.3.0", Some("sha512-bad"));
    let lockfile = Lockfile::with_lockfile_content(
        PathBuf::from("/deno.lock"),
        r#"{
          "version": "2",
          "remote": {},
          "npm": {
            "specifiers": { "chalk@5": "chalk@5.3.0" },
            "packages": {
              "chalk@5.3.0": { "integrity": "sha512-good", "dependencies": {} }
            }
          }
        }"#,
        false,
    )
    .unwrap();
    let incomplete_snapshot = incomplete_snapshot_from_lockfile(&lockfile).unwrap();
    let snapshot = snapshot_from_lockfile(SnapshotFromLockfileParams {
        api: &api,
        incomplete_snapshot,
        skip_integrity_check: false,
    });
    anyhow::Error::from(futures::executor::block_on(snapshot).unwrap_err())
}

#[test]
fn errors_end_the_process_with_their_code() {
    let text = |text: &str| text.to_string();
    let exit = exit_for_error(anyhow::Error::msg("error: broken"), None);
    assert!(exit.message.starts_with("broken"));
    assert_eq!(exit.code, 1);
    let exit = exit_for_error(anyhow::Error::msg("broken"), Some(text("error: js")));
    assert_eq!((exit.message.as_str(), exit.code), ("js", 1));
    let exit = exit_for_error(mismatch(), None);
    assert!(exit.message.starts_with("Integrity check failed for package: \"npm:chalk@5.3.0\"."));
    assert_eq!(exit.code, 10);
    let exit = exit_for_error(mismatch(), Some(text("js")));
    assert_eq!((exit.message.as_str(), exit.code), ("js", 1));
    assert_eq!(error_report(text("debug"), None, None), (text("debug"), 1));
    assert_eq!(
        error_report(text("debug"), None, Some(text("integrity"))),
        (text("integrity"), 10)
    );
    assert_eq!(
        error_report(text("debug"), Some(text("js")), Some(text("integrity"))),
        (text("js"), 1)
    );
}

#[test]
fn unstable_apis() {
    let exit = unstable_exit_cb("kv", "Deno.openKv");
    assert_eq!(
        exit.message,
        "Unstable API 'Deno.openKv'. The `--unstable-kv` flag must be provided."
    );
    assert_eq!(exit.code, 70);
    assert_eq!(
        unstable_warn_cb("kv", "Deno.openKv"),
        "The `Deno.openKv` API was used with `--unstable` flag. The `--unstable` flag is deprecated and will be removed in Deno 2.0. Use granular `--unstable-kv` instead.\nLearn more at: https://docs.deno.com/runtime/manual/tools/unstable_flags"
    );
}

#[test]
fn panics_are_reported() {
    let report = panic_report("linux", "x86_64", "1.45", "[\"deno\"]");
    assert!(report.starts_with("\n====="));
    assert!(report.ends_with(
        "in your report.\n\nPlatform: linux x86_64\nVersion: 1.45\nArgs: [\"deno\"]\n\n"
    ));
    assert_eq!(report.lines().count(), 12);
    let exit = panic_exit("linux", "x86_64", "1.45", "[\"deno\"]");
    assert_eq!((exit.message, exit.code), (report, 1));
}

#[test]
fn v8_starts_with_defaults() {
    assert_eq!(default_v8_flags(Subcommand::Lsp, true), vec!["--max-old-space-size=3072"]);
    assert_eq!(default_v8_flags(Subcommand::Lsp, false), vec!["--max-old-space-size=3072"]);
    assert_eq!(
        default_v8_flags(Subcommand::Other, true),
        vec!["--no-harmony-import-assertions"]
    );
    assert_eq!(
        default_v8_flags(Subcommand::Check, false),
        vec!["--harmony-import-assertions", "--no-maglev"]
    );
}

#[test]
fn flags_decide_how_the_process_starts() {
    let start = |subcommand, legacy_unstable| match resolve_flags_and_init::<()>(
        Ok(Flags { subcommand, legacy_unstable }),
        false,
    ) {
        StartupStep::Start(startup) => startup,
        _ => panic!("no start"),
    };
    assert_eq!(start(Subcommand::Other, false).warning, None);
    assert_eq!(
        start(Subcommand::Check, true).warning.unwrap(),
        "The `--unstable` flag is not needed for `deno check` anymore."
    );
    assert!(start(Subcommand::Lsp, true).warning.unwrap().starts_with(
        "The `--unstable` flag is deprecated and will be removed in Deno 2.0. Use granular"
    ));
    assert!(start(Subcommand::Lsp, true).legacy_platform);
    assert!(matches!(
        resolve_flags_and_init(
            Err(FlagsError { kind: ErrorKind::DisplayVersion, error: "1.45" }),
            true
        ),
        StartupStep::PrintAndExit("1.45", 0)
    ));
    assert!(matches!(
        resolve_flags_and_init(
            Err(FlagsError { kind: ErrorKind::DisplayHelp, error: "usage" }),
            true
        ),
        StartupStep::Fail("usage")
    ));
}

#[test]
fn messages_are_wrapped() {
    let to_window = || SentToWindowMessage {
        id: "main".to_string(),
        event: "e".to_string(),
        content: Value::Bool(true),
    };
    assert_eq!(send_to_host(to_window()), IpcMessage::SentToWindow(to_window()));
    let to_deno = || SentToDenoMessage {
        id: "1".to_string(),
        event: "e".to_string(),
        content: Value::Null,
    };
    assert_eq!(send_to_deno(to_deno()), IpcMessage::SentToDeno(to_deno()));
}

#[test]
fn a_listener_hears_once() {
    let event = EventListen { name: "e".to_string() };
    let (mut listening, action) = Listening::<u8>::start_as(event, 7);
    match action {
        ListenAction::Register(name, id) => assert_eq!((name.as_str(), id), ("e", 7)),
        _ => panic!("no registration"),
    }
    assert!(matches!(listening.step(ListenEvent::Registered), ListenAction::Receive));
    match listening.step(ListenEvent::Received(Some(9))) {
        ListenAction::Remove(name, id) => assert_eq!((name.as_str(), id), ("e", 7)),
        _ => panic!("no removal"),
    }
    assert!(matches!(listening.step(ListenEvent::Removed), ListenAction::Respond(Some(9))));
}

#[test]
fn listeners_have_random_identifiers() {
    let id = || Listening::<u8>::start(EventListen { name: "e".to_string() }).0.id;
    let (a, b) = (id(), id());
    assert_ne!(a, b);
    let uuid = uuid::Uuid::from_u128(a);
    assert_eq!(uuid.get_version_num(), 4);
    assert_eq!((a >> 62) & 3, 2);
}
