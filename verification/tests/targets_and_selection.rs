use sudel::paths::{LocalPath, PathPart, PathPrefix};
use sudel::selection::{
    command_lines, selected_lines, selected_paths, selected_paths_detailed, selection_command,
    CommandResult, SelectionStep,
};
use sudel::paths::Platform;
use sudel::targets::{
    dedupe_targets, plan_deletion, reject_protected_targets, same_or_nested, DeleteStep, Protected,
    Target,
};

fn path(parts: &[&str]) -> LocalPath {
    let mut v = vec![PathPart::RootDir];
    for p in parts {
        v.push(PathPart::Normal(p.as_bytes().to_vec()));
    }
    LocalPath { parts: v }
}

fn target(parts: &[&str], display: &str) -> Target {
    Target { path: path(parts), display: display.to_string() }
}

fn displays(ts: &[Target]) -> Vec<String> {
    ts.iter().map(|t| t.display.clone()).collect()
}

#[test]
fn dedupe_keeps_first_of_each_path_in_order() {
    let ts = vec![
        target(&["a"], "/a"),
        target(&["b"], "/b"),
        target(&["a"], "/a/"),
        target(&["c"], "/c"),
        target(&["b"], "/./b"),
    ];
    let d = dedupe_targets(ts);
    assert_eq!(displays(&d), ["/a", "/b", "/c"]);
}

#[test]
fn dedupe_is_idempotent_and_keeps_distinct_lists() {
    let ts = vec![target(&["x"], "/x"), target(&["y"], "/y")];
    let once = dedupe_targets(ts);
    assert_eq!(displays(&once), ["/x", "/y"]);
    let twice = dedupe_targets(once);
    assert_eq!(displays(&twice), ["/x", "/y"]);
    assert!(dedupe_targets(Vec::new()).is_empty());
}

#[test]
fn nesting_goes_both_ways() {
    let app = path(&["opt", "sudel"]);
    assert!(same_or_nested(&path(&["opt", "sudel"]), &app));
    assert!(same_or_nested(&path(&["opt", "sudel", "bin"]), &app));
    assert!(same_or_nested(&path(&["opt"]), &app));
    assert!(!same_or_nested(&path(&["opt", "sudelx"]), &app));
    assert!(!same_or_nested(&path(&["home"]), &app));
}

#[test]
fn refuses_the_executable_first() {
    let exe = Some(path(&["opt", "sudel", "SuDel"]));
    let log = path(&["home", "ann", ".sudel.log"]);
    let ts = vec![target(&["tmp", "x"], "/tmp/x"), target(&["opt", "sudel", "SuDel"], "/opt/sudel/SuDel")];
    let e = reject_protected_targets(&ts, &exe, &log).unwrap_err();
    assert_eq!(e.kind, Protected::Executable);
    assert_eq!(e.message, "refusing to delete SuDel executable: /opt/sudel/SuDel");
    assert_eq!(
        e.log_message.as_deref(),
        Some("SAFE blocked self-delete target: /opt/sudel/SuDel")
    );
}

#[test]
fn refuses_the_app_directory_and_log() {
    let exe = Some(path(&["opt", "sudel", "SuDel"]));
    let log = path(&["home", "ann", ".sudel.log"]);
    let ts = vec![target(&["opt", "sudel", "readme"], "/opt/sudel/readme")];
    let e = reject_protected_targets(&ts, &exe, &log).unwrap_err();
    assert_eq!(e.kind, Protected::AppDirectory);
    assert_eq!(e.message, "refusing to delete SuDel app directory: /opt/sudel/readme");
    assert_eq!(
        e.log_message.as_deref(),
        Some("SAFE blocked protected app directory target: /opt/sudel/readme")
    );
    let ts = vec![target(&["home", "ann"], "/home/ann")];
    let e = reject_protected_targets(&ts, &exe, &log).unwrap_err();
    assert_eq!(e.kind, Protected::LogFile);
    assert_eq!(e.message, "refusing to delete SuDel log file: /home/ann");
    assert!(e.log_message.is_none());
}

#[test]
fn accepts_unrelated_targets() {
    let exe = Some(path(&["opt", "sudel", "SuDel"]));
    let log = path(&["home", "ann", ".sudel.log"]);
    let ts = vec![target(&["tmp", "a"], "/tmp/a"), target(&["home", "ann", "doc"], "/home/ann/doc")];
    assert!(reject_protected_targets(&ts, &exe, &log).is_ok());
    assert!(reject_protected_targets(&ts, &None, &log).is_ok());
}

#[test]
fn output_lines_are_trimmed_and_blank_ones_dropped() {
    assert_eq!(
        selected_lines("/a/b\n\n  /c d  \r\n\t\n/e"),
        ["/a/b", "/c d", "/e"]
    );
    assert!(selected_lines("").is_empty());
    assert!(selected_lines("\n \n").is_empty());
}

#[test]
fn command_outcomes() {
    let ok = CommandResult::Exited {
        success: true,
        status: "exit status: 0".to_string(),
        stdout: b"/Users/ann/a.txt\n/Users/ann/b\n".to_vec(),
        stderr: Vec::new(),
    };
    assert_eq!(command_lines("osascript", &ok).unwrap(), ["/Users/ann/a.txt", "/Users/ann/b"]);
    let failed = CommandResult::Exited {
        success: false,
        status: "exit status: 1".to_string(),
        stdout: Vec::new(),
        stderr: b"  execution error  \n".to_vec(),
    };
    assert_eq!(command_lines("osascript", &failed).unwrap_err(), "execution error");
    let silent = CommandResult::Exited {
        success: false,
        status: "exit status: 2".to_string(),
        stdout: Vec::new(),
        stderr: b" \n".to_vec(),
    };
    assert_eq!(
        command_lines("pwsh", &silent).unwrap_err(),
        "pwsh exited with exit status: 2"
    );
    let missing = CommandResult::LaunchFailed("No such file or directory".to_string());
    assert_eq!(
        command_lines("powershell.exe", &missing).unwrap_err(),
        "powershell.exe launch failed: No such file or directory"
    );
}

#[test]
fn invalid_utf8_is_replaced() {
    let ok = CommandResult::Exited {
        success: true,
        status: String::new(),
        stdout: vec![b'/', b'x', 0xff, b'\n'],
        stderr: Vec::new(),
    };
    assert_eq!(command_lines("osascript", &ok).unwrap(), ["/x\u{fffd}"]);
}

#[test]
fn selection_commands_per_platform() {
    let mac = selection_command(Platform::MacOs, 0).unwrap();
    assert_eq!(mac.program, "osascript");
    assert_eq!(mac.args[0], "-e");
    assert!(mac.args[1].contains("tell application \"Finder\""));
    assert!(selection_command(Platform::MacOs, 1).is_none());
    let w0 = selection_command(Platform::Windows, 0).unwrap();
    let w1 = selection_command(Platform::Windows, 1).unwrap();
    assert_eq!(w0.program, "powershell.exe");
    assert_eq!(w1.program, "pwsh");
    assert_eq!(
        &w0.args[..5],
        ["-NoProfile", "-NonInteractive", "-ExecutionPolicy", "Bypass", "-Command"]
    );
    assert!(selection_command(Platform::Other, 0).is_none());
}

#[test]
fn lookup_falls_back_then_reports_last_error() {
    let mut tried: Vec<Result<Vec<String>, String>> = Vec::new();
    match selected_paths_detailed(Platform::Windows, &tried) {
        SelectionStep::Run(c) => assert_eq!(c.program, "powershell.exe"),
        other => panic!("unexpected {other:?}"),
    }
    tried.push(Err("first".to_string()));
    match selected_paths_detailed(Platform::Windows, &tried) {
        SelectionStep::Run(c) => assert_eq!(c.program, "pwsh"),
        other => panic!("unexpected {other:?}"),
    }
    tried.push(Err("second".to_string()));
    match selected_paths_detailed(Platform::Windows, &tried) {
        SelectionStep::Done(r) => assert_eq!(r.unwrap_err(), "second"),
        other => panic!("unexpected {other:?}"),
    }
    let tried = vec![Err("first".to_string()), Ok(vec!["C:\\a".to_string()])];
    match selected_paths_detailed(Platform::Windows, &tried) {
        SelectionStep::Done(r) => assert_eq!(r.unwrap(), ["C:\\a"]),
        other => panic!("unexpected {other:?}"),
    }
}

#[test]
fn lookup_elsewhere_is_empty() {
    match selected_paths_detailed(Platform::Other, &Vec::new()) {
        SelectionStep::Done(r) => assert!(r.unwrap().is_empty()),
        other => panic!("unexpected {other:?}"),
    }
    assert!(selected_paths(Err("x".to_string())).is_empty());
    assert_eq!(selected_paths(Ok(vec!["/a".to_string()])), ["/a"]);
}

#[test]
fn drive_prefixes_compare_as_parsed() {
    let on = |d: u8, name: &str| LocalPath {
        parts: vec![
            PathPart::Prefix(PathPrefix::Disk(d)),
            PathPart::RootDir,
            PathPart::Normal(name.as_bytes().to_vec()),
        ],
    };
    assert!(same_or_nested(&on(b'C', "SuDel"), &on(b'C', "SuDel")));
    assert!(!same_or_nested(&on(b'C', "SuDel"), &on(b'D', "SuDel")));
    let unc = LocalPath {
        parts: vec![PathPart::Prefix(PathPrefix::Unc(b"srv".to_vec(), b"share".to_vec()))],
    };
    assert!(!same_or_nested(&on(b'C', "x"), &unc));
}

#[test]
fn names_that_are_not_utf8_stay_distinct() {
    let raw = |b: &[u8], d: &str| Target {
        path: LocalPath {
            parts: vec![PathPart::RootDir, PathPart::Normal(b.to_vec())],
        },
        display: d.to_string(),
    };
    let ts = vec![raw(&[0x66, 0xff], "/f?1"), raw(&[0x66, 0xfe], "/f?2"), raw(&[0x66, 0xff], "/f?3")];
    assert_eq!(displays(&dedupe_targets(ts)), ["/f?1", "/f?2"]);
}

#[test]
fn a_refused_run_deletes_nothing() {
    let exe = Some(path(&["opt", "sudel", "SuDel"]));
    let log = path(&["home", "ann", ".sudel.log"]);
    let ts = vec![
        target(&["tmp", "a"], "/tmp/a"),
        target(&["tmp", "a"], "/tmp//a"),
        target(&["opt", "sudel"], "/opt/sudel"),
    ];
    match plan_deletion(ts, &exe, &log) {
        DeleteStep::Refuse(e) => {
            assert_eq!(e.kind, Protected::Executable);
            assert_eq!(e.message, "refusing to delete SuDel executable: /opt/sudel");
        }
        DeleteStep::Shred(_) => panic!("a protected target must refuse the run"),
    }
    let ts = vec![
        target(&["tmp", "b"], "/tmp/b"),
        target(&["tmp", "a"], "/tmp/a"),
        target(&["tmp", "b"], "/tmp/./b"),
    ];
    match plan_deletion(ts, &exe, &log) {
        DeleteStep::Shred(ts) => assert_eq!(displays(&ts), ["/tmp/b", "/tmp/a"]),
        DeleteStep::Refuse(e) => panic!("unexpected refusal {e:?}"),
    }
}
