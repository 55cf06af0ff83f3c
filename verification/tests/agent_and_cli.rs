use sudel::agent::{
    agent_options, agent_passes, confirmation_log, hotkeys_for_platform, press_targets,
    registered_hotkey_message, shred_failure_log, Debounce, HotkeyCode, Press, PressPhase,
};
use sudel::cli::{
    after_target_source, confirmation_summary, diagnostics_header, error_report,
    maybe_prepare_picker, platform_notes, run, selection_report, use_folder_picker, CliFlags,
    RunMode, TargetSource, TargetStep,
};
use sudel::config::Config;
use sudel::paths::{LocalPath, Platform};
use sudel::shred::ShredOptions;

fn flags() -> CliFlags {
    CliFlags {
        agent: false,
        passes: None,
        recursive: false,
        install: false,
        uninstall: false,
        quiet: false,
        diagnose: false,
    }
}

#[test]
fn hotkeys_per_platform() {
    let mac = hotkeys_for_platform(Platform::MacOs);
    assert_eq!(mac.len(), 2);
    assert_eq!(mac[1].code, HotkeyCode::Backspace);
    let win = hotkeys_for_platform(Platform::Windows);
    assert_eq!(win.len(), 1);
    assert!(win[0].shift && win[0].alt && win[0].code == HotkeyCode::Delete);
    assert_eq!(
        registered_hotkey_message(Platform::Windows),
        "AGENT hotkey registered: Shift+Alt+Delete"
    );
}

#[test]
fn presses_closer_than_debounce_are_ignored() {
    let ms: u64 = 1_000_000;
    let mut d = Debounce::new();
    assert!(d.on_press(1000 * ms));
    assert!(!d.on_press(1500 * ms));
    assert!(!d.on_press(1699 * ms));
    assert!(!d.on_press(1699 * ms + 600_000));
    assert!(d.on_press(1700 * ms));
    assert!(!d.on_press(100 * ms));
    assert!(d.on_press(5000 * ms));
}

#[test]
fn press_reads_passes_and_targets() {
    let cfg: Result<Config, String> = Ok(Config { agent_passes: Some(7) });
    assert_eq!(agent_passes(3, &cfg), 7);
    assert_eq!(agent_passes(3, &Ok(Config { agent_passes: None })), 3);
    assert_eq!(agent_passes(3, &Err("x".to_string())), 3);
    let t = press_targets(&Ok(vec!["/a".to_string()]));
    assert_eq!(t.targets, ["/a"]);
    assert_eq!(t.log, ["AGENT using current OS selection"]);
    let t = press_targets(&Ok(Vec::new()));
    assert!(t.targets.is_empty());
    assert_eq!(t.log, ["AGENT no selected targets"]);
    let t = press_targets(&Err("boom".to_string()));
    assert_eq!(
        t.log,
        ["AGENT selection lookup failed: boom", "AGENT no selected targets"]
    );
    assert_eq!(confirmation_log(false).unwrap(), "AGENT delete canceled by user");
    assert!(confirmation_log(true).is_none());
    assert_eq!(shred_failure_log("e"), "AGENT shred failed: e");
}

#[test]
fn run_modes() {
    let cfg = Config { agent_passes: Some(6) };
    let none = Config { agent_passes: None };
    assert_eq!(
        run(&flags(), &none),
        RunMode::Delete { passes: 3, recursive: false, quiet: false }
    );
    assert_eq!(
        run(&CliFlags { passes: Some(1), recursive: true, ..flags() }, &cfg),
        RunMode::Delete { passes: 1, recursive: true, quiet: false }
    );
    assert_eq!(
        run(&CliFlags { agent: true, ..flags() }, &cfg),
        RunMode::Agent { passes: 6, recursive: false, quiet: true }
    );
    assert_eq!(
        run(&CliFlags { install: true, uninstall: true, ..flags() }, &cfg),
        RunMode::Install { passes: Some(6), quiet: false }
    );
    assert_eq!(
        run(&CliFlags { uninstall: true, quiet: true, ..flags() }, &cfg),
        RunMode::Uninstall { quiet: true }
    );
    assert_eq!(run(&CliFlags { diagnose: true, install: true, ..flags() }, &cfg), RunMode::Diagnose);
}

#[test]
fn target_sources_in_order() {
    assert_eq!(after_target_source(TargetSource::CommandLine, 2), TargetStep::Use);
    assert_eq!(
        after_target_source(TargetSource::CommandLine, 0),
        TargetStep::Try(TargetSource::Selection)
    );
    assert_eq!(
        after_target_source(TargetSource::Selection, 0),
        TargetStep::Try(TargetSource::Picker)
    );
    assert_eq!(after_target_source(TargetSource::Picker, 0), TargetStep::Nothing);
    assert!(use_folder_picker(0));
    assert!(!use_folder_picker(3));
}

#[test]
fn texts_shown_to_the_user() {
    assert_eq!(
        confirmation_summary(&vec!["/a/b".to_string()]),
        "Permanently delete this item?\n\n/a/b"
    );
    assert_eq!(
        confirmation_summary(&vec!["/a".to_string(), "/b".to_string()]),
        "Permanently delete these 2 selected items?\n\nThis cannot be undone."
    );
    assert_eq!(
        selection_report(&Ok(vec!["/a".to_string(), "/b".to_string()])),
        "selection lookup: ok (2 item(s))"
    );
    assert_eq!(selection_report(&Err("no".to_string())), "selection lookup: error (no)");
    assert_eq!(
        diagnostics_header("linux", "x86_64"),
        ["SuDel diagnostics", "platform: linux", "arch: x86_64"]
    );
    assert_eq!(platform_notes(Platform::Windows).len(), 4);
    assert!(platform_notes(Platform::Other).is_empty());
    assert!(maybe_prepare_picker(Platform::Windows).is_none());
    assert_eq!(maybe_prepare_picker(Platform::MacOs).unwrap().program, "osascript");
}

#[test]
fn errors_are_printed_unless_agent_or_quiet() {
    let args = vec!["SuDel".to_string(), "x".to_string()];
    assert_eq!(error_report(&args, "bad").unwrap(), "error: bad");
    let args = vec!["SuDel".to_string(), "--quiet".to_string()];
    assert!(error_report(&args, "bad").is_none());
}

#[test]
fn a_press_deletes_only_after_confirmation() {
    let mut press = Press::new(3);
    press.on_config(&Ok(Config { agent_passes: Some(5) }));
    assert_eq!(press.passes(), 5);
    let log = press.on_selection(&Ok(vec!["/a".to_string()]));
    assert_eq!(log, ["AGENT using current OS selection"]);
    assert_eq!(press.phase(), PressPhase::AwaitConfirmation);
    assert!(press.take_deletion().is_none());
    assert!(press.on_confirmation(true).is_none());
    let (targets, passes) = press.take_deletion().unwrap();
    assert_eq!(targets, ["/a"]);
    assert_eq!(passes, 5);
    assert!(press.take_deletion().is_none());

    let mut press = Press::new(3);
    press.on_config(&Err("unreadable".to_string()));
    press.on_selection(&Ok(vec!["/a".to_string()]));
    assert_eq!(
        press.on_confirmation(false).unwrap(),
        "AGENT delete canceled by user"
    );
    assert_eq!(press.phase(), PressPhase::Over);
    assert!(press.take_deletion().is_none());

    let mut press = Press::new(3);
    press.on_config(&Ok(Config { agent_passes: None }));
    assert_eq!(press.on_selection(&Ok(Vec::new())), ["AGENT no selected targets"]);
    assert_eq!(press.phase(), PressPhase::Over);
}

#[test]
fn the_agent_always_allows_directories() {
    let o = agent_options(ShredOptions {
        passes: 4,
        recursive: false,
        quiet: true,
        log_path: LocalPath { parts: Vec::new() },
    });
    assert!(o.recursive);
    assert_eq!(o.passes, 4);
    assert!(o.quiet);
}
