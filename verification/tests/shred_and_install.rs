use sudel::install::{
    bootout_launch_agent, ensure_launch_agent_keepalive, ensure_macos_app_bundle,
    install_current_binary, installed_binary_path, kickstart_launch_agent, launch_agent_plist_path,
    launchctl_uid, macos_bundle_root_from_executable, open_full_disk_access_guidance,
    uninstall_current_binary, InstallStep, UninstallStep,
};
use sudel::paths::{LocalPath, PathPart, Platform};
use sudel::shred::{
    after_target, chunk_buffer, deletion_parent, directory_entry_action, file_message, hex_name, pass_message,
    shred_result, shred_target, sync_parent_of, writable_mode, EntryKind, FileShred, FileStep,
    NameSearch, Overwrite, ShredAction, CHUNK_SIZE, NAME_ATTEMPTS,
};

fn path(parts: &[&str]) -> LocalPath {
    let mut v = vec![PathPart::RootDir];
    for p in parts {
        v.push(PathPart::Normal(p.as_bytes().to_vec()));
    }
    LocalPath { parts: v }
}

fn names(p: &LocalPath) -> Vec<String> {
    p.parts
        .iter()
        .map(|c| match c {
            PathPart::Normal(s) => String::from_utf8_lossy(s).into_owned(),
            PathPart::Prefix(p) => format!("prefix:{p:?}"),
            PathPart::RootDir => "/".to_string(),
            PathPart::CurDir => ".".to_string(),
            PathPart::ParentDir => "..".to_string(),
        })
        .collect()
}

#[test]
fn hex_names_are_lower_case_pairs() {
    assert_eq!(hex_name(&[0x00, 0xff, 0x1a, 0xb2]), "00ff1ab2");
    assert_eq!(hex_name(&[]), "");
}

#[test]
fn overwrite_chunks_cover_the_file() {
    let size = 2 * CHUNK_SIZE as u64 + 10;
    let mut o = Overwrite::new(size);
    let mut seen = Vec::new();
    while let Some(c) = o.next_chunk() {
        seen.push(c);
    }
    assert_eq!(seen, [CHUNK_SIZE, CHUNK_SIZE, 10]);
    assert_eq!(Overwrite::new(0).next_chunk(), None);
    let mut exact = Overwrite::new(CHUNK_SIZE as u64);
    assert_eq!(exact.next_chunk(), Some(CHUNK_SIZE));
    assert_eq!(exact.next_chunk(), None);
}

#[test]
fn file_shred_runs_each_pass_then_finishes() {
    let mut buffer = chunk_buffer();
    let mut s = FileShred::new(2, 5);
    let mut steps = Vec::new();
    while let Some(step) = s.next_step(&mut buffer) {
        steps.push(step.unwrap());
    }
    assert_eq!(
        steps,
        [
            FileStep::BeginPass(0),
            FileStep::Rewind,
            FileStep::Write(5),
            FileStep::Sync,
            FileStep::BeginPass(1),
            FileStep::Rewind,
            FileStep::Write(5),
            FileStep::Sync,
            FileStep::Finish,
        ]
    );
    assert_eq!(buffer.len(), CHUNK_SIZE);
}

#[test]
fn file_shred_of_empty_file_and_zero_passes() {
    let mut buffer = chunk_buffer();
    let mut s = FileShred::new(1, 0);
    let mut steps = Vec::new();
    while let Some(step) = s.next_step(&mut buffer) {
        steps.push(step.unwrap());
    }
    assert_eq!(
        steps,
        [FileStep::BeginPass(0), FileStep::Rewind, FileStep::Sync, FileStep::Finish]
    );
    let mut s = FileShred::new(0, 100);
    assert_eq!(s.next_step(&mut buffer).unwrap().unwrap(), FileStep::Finish);
    assert!(s.next_step(&mut buffer).is_none());
}

#[test]
fn random_chunks_change_the_buffer() {
    let mut buffer = chunk_buffer();
    let mut s = FileShred::new(1, 64);
    s.next_step(&mut buffer);
    s.next_step(&mut buffer);
    assert_eq!(s.next_step(&mut buffer).unwrap().unwrap(), FileStep::Write(64));
    assert!(buffer[..64].iter().any(|b| *b != 0));
    assert!(buffer[64..].iter().all(|b| *b == 0));
}

#[test]
fn name_search_gives_sixteen_hex_names() {
    let parent = path(&["tmp"]);
    let mut search = NameSearch::new();
    let mut count = 0;
    while let Some(candidate) = search.next_candidate(&parent) {
        let p = candidate.unwrap();
        let n = names(&p);
        assert_eq!(n.len(), 3);
        assert_eq!(n[1], "tmp");
        assert_eq!(n[2].len(), 24);
        assert!(n[2].chars().all(|c| c.is_ascii_hexdigit() && !c.is_ascii_uppercase()));
        count += 1;
    }
    assert_eq!(count, NAME_ATTEMPTS);
}

#[test]
fn target_kinds_decide_the_action() {
    assert_eq!(shred_target(EntryKind::Symlink, "/l", false).unwrap(), ShredAction::DeleteLink);
    assert_eq!(shred_target(EntryKind::File, "/f", false).unwrap(), ShredAction::ShredFile);
    assert_eq!(shred_target(EntryKind::Directory, "/d", true).unwrap(), ShredAction::ShredDirectory);
    assert_eq!(
        shred_target(EntryKind::Directory, "/d", false).unwrap_err(),
        "/d is a directory; re-run with --recursive"
    );
    assert_eq!(
        shred_target(EntryKind::Other, "/dev/x", true).unwrap_err(),
        "unsupported path type: /dev/x"
    );
    assert_eq!(directory_entry_action(EntryKind::Directory), ShredAction::RemoveDirectory);
    assert_eq!(directory_entry_action(EntryKind::Other), ShredAction::Skip);
}

#[test]
fn progress_and_result_texts() {
    assert_eq!(pass_message(0, 3), "  pass 1/3");
    assert_eq!(pass_message(9, 10), "  pass 10/10");
    assert_eq!(file_message("/a/b"), "  file /a/b");
    assert_eq!(shred_result(&Ok(())), "OK");
    assert_eq!(shred_result(&Err("denied".to_string())), "ERROR: denied");
    assert_eq!(sudel::shred::deleting_message("/x"), "deleting /x");
}

#[test]
fn parents_for_renaming_and_syncing() {
    let p = deletion_parent(&path(&["a", "b"]), "/a/b").unwrap();
    assert_eq!(names(&p), ["/", "a"]);
    let root = LocalPath { parts: vec![PathPart::RootDir] };
    assert_eq!(
        deletion_parent(&root, "/").unwrap_err(),
        "cannot delete path without parent: /"
    );
    assert!(sync_parent_of(&root).is_none());
    assert_eq!(names(&sync_parent_of(&path(&["x"])).unwrap()), ["/"]);
}

#[test]
fn writable_mode_sets_owner_write() {
    assert_eq!(writable_mode(0o444), 0o644);
    assert_eq!(writable_mode(0o755), 0o755);
}

#[test]
fn install_locations() {
    let exe = path(&["tmp", "build", "SuDel"]);
    let home = path(&["Users", "ann"]);
    let p = installed_binary_path(Platform::MacOs, &exe, "/tmp/build/SuDel", Some(home.duplicate()))
        .unwrap();
    assert_eq!(
        names(&p),
        ["/", "Users", "ann", "Applications", "SuDel.app", "Contents", "MacOS", "SuDel"]
    );
    let p = installed_binary_path(Platform::Other, &exe, "/tmp/build/SuDel", Some(home.duplicate()))
        .unwrap();
    assert_eq!(names(&p), ["/", "Users", "ann", ".local", "bin", "SuDel"]);
    let p = installed_binary_path(Platform::Windows, &exe, "x", Some(home.duplicate())).unwrap();
    assert_eq!(names(&p), ["/", "Users", "ann", "SuDel", "SuDel"]);
    assert_eq!(
        installed_binary_path(Platform::Windows, &exe, "x", None).unwrap_err(),
        "APPDATA is not set"
    );
    let root = LocalPath { parts: vec![PathPart::RootDir] };
    assert_eq!(
        installed_binary_path(Platform::Other, &root, "/", Some(home)).unwrap_err(),
        "invalid executable path: /"
    );
}

#[test]
fn bundle_root_and_agent_plist() {
    let exe = path(&["Users", "ann", "Applications", "SuDel.app", "Contents", "MacOS", "SuDel"]);
    assert_eq!(
        names(&macos_bundle_root_from_executable(&exe)),
        ["/", "Users", "ann", "Applications", "SuDel.app"]
    );
    let short = LocalPath { parts: vec![PathPart::Normal(b"SuDel".to_vec())] };
    assert_eq!(names(&macos_bundle_root_from_executable(&short)), ["SuDel"]);
    let plist = launch_agent_plist_path(Some(path(&["Users", "ann"]))).unwrap();
    assert_eq!(names(&plist), ["/", "Users", "ann", "Library", "LaunchAgents", "SuDel.plist"]);
    let files = ensure_macos_app_bundle(&exe).unwrap();
    assert_eq!(
        names(&files.info_plist_path),
        ["/", "Users", "ann", "Applications", "SuDel.app", "Contents", "Info.plist"]
    );
    assert!(files.info_plist.contains("<string>com.sudel.agent</string>"));
    assert_eq!(
        ensure_macos_app_bundle(&short).unwrap_err(),
        "invalid macOS app bundle path"
    );
}

#[test]
fn keepalive_is_added_once() {
    let plist = "<dict>\n  <key>RunAtLoad</key>\n  <true/>\n</dict>\n";
    let updated = ensure_launch_agent_keepalive(plist).unwrap();
    assert_eq!(
        updated,
        "<dict>\n  <key>RunAtLoad</key>\n  <true/>\n  <key>KeepAlive</key>\n  <true/>\n</dict>\n"
    );
    assert!(ensure_launch_agent_keepalive(&updated).is_none());
    assert_eq!(ensure_launch_agent_keepalive("<dict/>").unwrap(), "<dict/>");
}

#[test]
fn launchctl_commands() {
    assert_eq!(launchctl_uid(b" 501\n"), "501");
    let b = bootout_launch_agent("501");
    assert_eq!(b.program, "launchctl");
    assert_eq!(b.args, ["bootout", "gui/501/SuDel"]);
    let k = kickstart_launch_agent("501", "/Users/ann/Library/LaunchAgents/SuDel.plist");
    assert_eq!(k[1].args, ["bootstrap", "gui/501", "/Users/ann/Library/LaunchAgents/SuDel.plist"]);
    assert_eq!(k[2].args, ["kickstart", "-k", "gui/501/SuDel"]);
    let g = open_full_disk_access_guidance("/Apps/SuDel", true);
    assert_eq!(g.commands[1].args, ["-R", "/Apps/SuDel"]);
    assert!(g.messages.is_empty());
    assert_eq!(open_full_disk_access_guidance("/Apps/SuDel", false).messages.len(), 3);
}

#[test]
fn install_and_uninstall_steps() {
    let cur = path(&["tmp", "SuDel"]);
    let dest = path(&["home", ".local", "bin", "SuDel"]);
    assert_eq!(
        install_current_binary(Platform::Other, &cur, &dest, Some(5), false),
        [
            InstallStep::CreateDestinationDirectory,
            InstallStep::CopyBinary,
            InstallStep::SavePasses(5),
            InstallStep::EnableAutoLaunch,
            InstallStep::ReportInstalled,
        ]
    );
    assert_eq!(
        install_current_binary(Platform::MacOs, &dest, &dest, None, true),
        [
            InstallStep::EnableAutoLaunch,
            InstallStep::WriteAppBundle,
            InstallStep::EnsureKeepAlive,
            InstallStep::KickstartAgent,
            InstallStep::OpenDiskAccessGuidance,
        ]
    );
    assert_eq!(
        uninstall_current_binary(Platform::Windows, &cur, &dest, false),
        [
            UninstallStep::DisableAutoLaunch,
            UninstallStep::RemoveBinary,
            UninstallStep::RemoveDestinationDirectory,
            UninstallStep::ReportUninstalled,
        ]
    );
    assert_eq!(
        uninstall_current_binary(Platform::MacOs, &dest, &dest, true),
        [
            UninstallStep::DisableAutoLaunch,
            UninstallStep::BootoutAgent,
            UninstallStep::RemoveAgentPlist,
            UninstallStep::RemoveBundle,
        ]
    );
    assert_eq!(
        uninstall_current_binary(Platform::Other, &dest, &dest, true),
        [UninstallStep::DisableAutoLaunch]
    );
}

#[test]
fn run_stops_after_the_first_failure() {
    let ok = after_target(&Ok(()));
    assert_eq!(ok.result, "OK");
    assert!(ok.go_on);
    let failed = after_target(&Err("denied".to_string()));
    assert_eq!(failed.result, "ERROR: denied");
    assert!(!failed.go_on);
}
