//! Installing SuDel as a background agent that starts at login, and removing it.
//!
//! The functions here decide the paths, file contents, commands and the order
//! of the steps; the program performs each step.

use vstd::prelude::*;
use vstd::string::StringExecFns;

use crate::config::{unset_error, unset_message};
use crate::paths::{file_name_of, named, parent_of, Component, LocalPath, Platform};
use crate::selection::{command, lossy_text, strings_view, utf8_lossy, CommandSpec};
use crate::text::{
    chars_of, contains_chars, contains_text, lemma_contains_transitive,
    lemma_replace_shows_replacement, occurs_at, replace_chars, replace_text, string_of, trim,
    trim_bounds,
};

verus! {

/// The error for an executable path that does not end in a file name.
pub open spec fn invalid_executable_message(display: Seq<char>) -> Seq<char> {
    "invalid executable path: "@ + display
}

/// Where the application bundle keeps its executable below the home directory.
pub open spec fn bundle_executable(home: Seq<Component>, file_name: Seq<u8>) -> Seq<Component> {
    home.push(named("Applications"@)).push(named("SuDel.app"@)).push(
        named("Contents"@),
    ).push(named("MacOS"@)).push(Component::Normal(file_name))
}

/// The executable inside the application bundle in the user's Applications folder.
pub fn macos_bundle_executable_path(home: &LocalPath, file_name: &Vec<u8>) -> (p: LocalPath)
    ensures
        p@ == bundle_executable(home@, file_name@),
{
    home.join("Applications").join("SuDel.app").join("Contents").join("MacOS").join_bytes(file_name)
}

/// Where the installed binary goes below the root directory (`APPDATA` on
/// Windows, `HOME` elsewhere): `SuDel` there on Windows, the application
/// bundle on macOS, `.local/bin` elsewhere, under the binary's file name.
pub open spec fn installed_path(
    platform: Platform,
    root: Seq<Component>,
    file_name: Seq<u8>,
) -> Seq<Component> {
    match platform {
        Platform::Windows => root.push(named("SuDel"@)).push(Component::Normal(file_name)),
        Platform::MacOs => bundle_executable(root, file_name),
        Platform::Other => root.push(named(".local"@)).push(named("bin"@)).push(
            Component::Normal(file_name),
        ),
    }
}

/// Where the binary is installed; the file name of `current` is kept.
pub fn installed_binary_path(
    platform: Platform,
    current: &LocalPath,
    display: &str,
    root: Option<LocalPath>,
) -> (r: Result<LocalPath, String>)
    requires
        platform == Platform::MacOs && file_name_of(current@) is Some ==> root is Some,
    ensures
        file_name_of(current@) is None ==> (r matches Err(m) && m@ == invalid_executable_message(
            display@,
        )),
        file_name_of(current@) matches Some(n) ==> (match root {
            Some(h) => r matches Ok(p) && p@ == installed_path(platform, h@, n),
            None => r matches Err(m) && m@ == unset_message(platform),
        }),
{
    let name = match current.file_name() {
        Some(n) => n,
        None => {
            let mut m = String::from_str("invalid executable path: ");
            m.append(display);
            return Err(m);
        },
    };
    match root {
        None => Err(unset_error(platform)),
        Some(h) => match platform {
            Platform::Windows => Ok(h.join("SuDel").join_bytes(&name)),
            Platform::MacOs => Ok(macos_bundle_executable_path(&h, &name)),
            Platform::Other => Ok(h.join(".local").join("bin").join_bytes(&name)),
        },
    }
}

/// The application bundle that holds an executable three levels down, or
/// the executable itself where it has fewer ancestors.
pub open spec fn bundle_root(executable: Seq<Component>) -> Seq<Component> {
    match parent_of(executable) {
        Some(a) => match parent_of(a) {
            Some(b) => match parent_of(b) {
                Some(c) => c,
                None => executable,
            },
            None => executable,
        },
        None => executable,
    }
}

/// The application bundle that holds the installed executable.
pub fn macos_bundle_root_from_executable(executable: &LocalPath) -> (r: LocalPath)
    ensures
        r@ == bundle_root(executable@),
{
    match executable.parent() {
        Some(a) => match a.parent() {
            Some(b) => match b.parent() {
                Some(c) => c,
                None => executable.duplicate(),
            },
            None => executable.duplicate(),
        },
        None => executable.duplicate(),
    }
}

/// The login agent's property list below the home directory.
pub open spec fn agent_plist(home: Seq<Component>) -> Seq<Component> {
    home.push(named("Library"@)).push(named("LaunchAgents"@)).push(
        named("SuDel.plist"@),
    )
}

/// The login agent's property list, given `HOME` where it is set.
pub fn launch_agent_plist_path(home: Option<LocalPath>) -> (r: Result<LocalPath, String>)
    ensures
        home matches Some(h) ==> (r matches Ok(p) && p@ == agent_plist(h@)),
        home is None ==> (r matches Err(m) && m@ == unset_message(Platform::MacOs)),
{
    match home {
        None => Err(unset_error(Platform::MacOs)),
        Some(h) => Ok(h.join("Library").join("LaunchAgents").join("SuDel.plist")),
    }
}

} // verus!

verus! {

/// The key that keeps the login agent running.
pub open spec fn keepalive_key() -> Seq<char> {
    "<key>KeepAlive</key>"@
}

/// The run-at-login entry of the login agent's property list.
pub open spec fn run_at_load_entry() -> Seq<char> {
    "  <key>RunAtLoad</key>\n  <true/>\n"@
}

/// The run-at-login entry followed by the keep-alive entry.
pub open spec fn run_at_load_keepalive_entry() -> Seq<char> {
    "  <key>RunAtLoad</key>\n  <true/>\n  <key>KeepAlive</key>\n  <true/>\n"@
}

/// The new contents of the login agent's property list, so that the agent
/// is restarted whenever it stops: none where the file already has the
/// keep-alive key; otherwise the keep-alive entry is added after each
/// run-at-login entry.
pub fn ensure_launch_agent_keepalive(contents: &str) -> (r: Option<String>)
    ensures
        contains_text(contents@, keepalive_key()) <==> r is None,
        r matches Some(s) ==> s@ == replace_text(
            contents@,
            run_at_load_entry(),
            run_at_load_keepalive_entry(),
        ),
{
    let c = chars_of(contents);
    let key = chars_of("<key>KeepAlive</key>");
    if contains_chars(&c, &key) {
        return None;
    }
    let pat = chars_of("  <key>RunAtLoad</key>\n  <true/>\n");
    let rep = chars_of("  <key>RunAtLoad</key>\n  <true/>\n  <key>KeepAlive</key>\n  <true/>\n");
    proof {
        reveal_strlit("  <key>RunAtLoad</key>\n  <true/>\n");
    }
    let out = replace_chars(&c, &pat, &rep);
    Some(string_of(out.as_slice()))
}

/// Adding the keep-alive entry is done once: where the property list had
/// a run-at-login entry and no keep-alive key, the new contents have the
/// key, so a second pass leaves them alone.
pub proof fn lemma_keepalive_once(contents: Seq<char>)
    requires
        !contains_text(contents, keepalive_key()),
        contains_text(contents, run_at_load_entry()),
    ensures
        contains_text(
            replace_text(contents, run_at_load_entry(), run_at_load_keepalive_entry()),
            keepalive_key(),
        ),
{
    reveal_strlit("  <key>RunAtLoad</key>\n  <true/>\n");
    reveal_strlit("  <key>RunAtLoad</key>\n  <true/>\n  <key>KeepAlive</key>\n  <true/>\n");
    reveal_strlit("<key>KeepAlive</key>");
    lemma_replace_shows_replacement(contents, run_at_load_entry(), run_at_load_keepalive_entry());
    assert(run_at_load_keepalive_entry().subrange(35, 55) =~= keepalive_key());
    assert(occurs_at(run_at_load_keepalive_entry(), keepalive_key(), 35));
    lemma_contains_transitive(
        replace_text(contents, run_at_load_entry(), run_at_load_keepalive_entry()),
        run_at_load_keepalive_entry(),
        keepalive_key(),
    );
}

} // verus!

verus! {

/// The command that prints the user's numeric id.
pub fn uid_command() -> (c: CommandSpec)
    ensures
        c@ == ("id"@, seq!["-u"@]),
{
    let c = command("id", &["-u"]);
    assert(c@.1 =~= seq!["-u"@]);
    c
}

/// The user id from the output of [`uid_command`], trimmed.
pub fn launchctl_uid(stdout: &[u8]) -> (s: String)
    ensures
        s@ == trim(lossy_text(stdout@)),
{
    let text = utf8_lossy(stdout);
    let cs = chars_of(text.as_str());
    let (lo, hi) = trim_bounds(&cs, 0, cs.len());
    assert(cs@.subrange(0, cs@.len() as int) =~= cs@);
    string_of(&cs.as_slice()[lo..hi])
}

/// The login session domain of a user.
pub open spec fn gui_domain(uid: Seq<char>) -> Seq<char> {
    "gui/"@ + uid
}

/// The login agent's service name in a user's session.
pub open spec fn agent_service(uid: Seq<char>) -> Seq<char> {
    "gui/"@ + uid + "/SuDel"@
}

/// `gui/<uid>`.
fn gui_domain_string(uid: &str) -> (s: String)
    ensures
        s@ == gui_domain(uid@),
{
    let mut s = String::from_str("gui/");
    s.append(uid);
    s
}

/// `gui/<uid>/SuDel`.
fn agent_service_string(uid: &str) -> (s: String)
    ensures
        s@ == agent_service(uid@),
{
    let mut s = gui_domain_string(uid);
    s.append("/SuDel");
    s
}

/// The command that stops the login agent.
pub fn bootout_launch_agent(uid: &str) -> (c: CommandSpec)
    ensures
        c@ == ("launchctl"@, seq!["bootout"@, agent_service(uid@)]),
{
    let service = agent_service_string(uid);
    let c = command("launchctl", &["bootout", service.as_str()]);
    assert(c@.1 =~= seq!["bootout"@, agent_service(uid@)]);
    c
}

/// The commands that restart the login agent from its property list at
/// `plist`: stop it, load it again, and start it at once.
pub fn kickstart_launch_agent(uid: &str, plist: &str) -> (cs: Vec<CommandSpec>)
    ensures
        cs@.len() == 3,
        cs@[0]@ == ("launchctl"@, seq!["bootout"@, agent_service(uid@)]),
        cs@[1]@ == ("launchctl"@, seq!["bootstrap"@, gui_domain(uid@), plist@]),
        cs@[2]@ == ("launchctl"@, seq!["kickstart"@, "-k"@, agent_service(uid@)]),
{
    let mut cs: Vec<CommandSpec> = Vec::new();
    cs.push(bootout_launch_agent(uid));
    let domain = gui_domain_string(uid);
    let c1 = command("launchctl", &["bootstrap", domain.as_str(), plist]);
    assert(c1@.1 =~= seq!["bootstrap"@, gui_domain(uid@), plist@]);
    cs.push(c1);
    let service = agent_service_string(uid);
    let c2 = command("launchctl", &["kickstart", "-k", service.as_str()]);
    assert(c2@.1 =~= seq!["kickstart"@, "-k"@, agent_service(uid@)]);
    cs.push(c2);
    cs
}

/// The property list that describes the application bundle.
pub open spec fn info_plist() -> Seq<char> {
    "<?xml version=\"1.0\" encoding=\"UTF-8\"?>
<!DOCTYPE plist PUBLIC \"-//Apple//DTD PLIST 1.0//EN\" \"http://www.apple.com/DTDs/PropertyList-1.0.dtd\">
<plist version=\"1.0\">
<dict>
  <key>CFBundleDevelopmentRegion</key>
  <string>en</string>
  <key>CFBundleExecutable</key>
  <string>SuDel</string>
  <key>CFBundleIdentifier</key>
  <string>com.sudel.agent</string>
  <key>CFBundleInfoDictionaryVersion</key>
  <string>6.0</string>
  <key>CFBundleName</key>
  <string>SuDel</string>
  <key>CFBundlePackageType</key>
  <string>APPL</string>
  <key>CFBundleShortVersionString</key>
  <string>0.1.0</string>
  <key>CFBundleVersion</key>
  <string>0.1.0</string>
  <key>LSBackgroundOnly</key>
  <true/>
</dict>
</plist>
"@
}

/// The files that make the installed binary an application bundle.
#[derive(Debug)]
pub struct AppBundleFiles {
    /// The directory to create for resources.
    pub resources_dir: LocalPath,
    /// Where the bundle's property list goes.
    pub info_plist_path: LocalPath,
    /// What the property list says.
    pub info_plist: String,
}

/// The bundle's files around the installed executable at
/// `destination` (`.../Contents/MacOS/<name>`).
pub fn ensure_macos_app_bundle(destination: &LocalPath) -> (r: Result<AppBundleFiles, String>)
    ensures
        r is Err <==> (parent_of(destination@) is None || parent_of(
            parent_of(destination@)->0,
        ) is None),
        r matches Err(m) ==> m@ == "invalid macOS app bundle path"@,
        r matches Ok(f) ==> ({
            let contents = parent_of(parent_of(destination@)->0)->0;
            &&& f.resources_dir@ == contents.push(named("Resources"@))
            &&& f.info_plist_path@ == contents.push(named("Info.plist"@))
            &&& f.info_plist@ == info_plist()
        }),
{
    let contents_dir = match destination.parent() {
        Some(macos) => match macos.parent() {
            Some(c) => c,
            None => return Err(String::from_str("invalid macOS app bundle path")),
        },
        None => return Err(String::from_str("invalid macOS app bundle path")),
    };
    let text = "<?xml version=\"1.0\" encoding=\"UTF-8\"?>
<!DOCTYPE plist PUBLIC \"-//Apple//DTD PLIST 1.0//EN\" \"http://www.apple.com/DTDs/PropertyList-1.0.dtd\">
<plist version=\"1.0\">
<dict>
  <key>CFBundleDevelopmentRegion</key>
  <string>en</string>
  <key>CFBundleExecutable</key>
  <string>SuDel</string>
  <key>CFBundleIdentifier</key>
  <string>com.sudel.agent</string>
  <key>CFBundleInfoDictionaryVersion</key>
  <string>6.0</string>
  <key>CFBundleName</key>
  <string>SuDel</string>
  <key>CFBundlePackageType</key>
  <string>APPL</string>
  <key>CFBundleShortVersionString</key>
  <string>0.1.0</string>
  <key>CFBundleVersion</key>
  <string>0.1.0</string>
  <key>LSBackgroundOnly</key>
  <true/>
</dict>
</plist>
";
    Ok(
        AppBundleFiles {
            resources_dir: contents_dir.join("Resources"),
            info_plist_path: contents_dir.join("Info.plist"),
            info_plist: String::from_str(text),
        },
    )
}

/// The system settings page for Full Disk Access.
pub open spec fn disk_access_page() -> Seq<char> {
    "x-apple.systempreferences:com.apple.preference.security?Privacy_AllFiles"@
}

/// What guiding the user to grant Full Disk Access does.
#[derive(Debug)]
pub struct Guidance {
    /// Commands to run, their failures ignored.
    pub commands: Vec<CommandSpec>,
    /// Lines to print to standard error.
    pub messages: Vec<String>,
}

/// Opens the Full Disk Access settings and reveals the installed binary
/// (shown as `display`); explains why, unless quiet.
pub fn open_full_disk_access_guidance(display: &str, quiet: bool) -> (g: Guidance)
    ensures
        g.commands@.len() == 2,
        g.commands@[0]@ == ("open"@, seq![disk_access_page()]),
        g.commands@[1]@ == ("open"@, seq!["-R"@, display@]),
        quiet ==> g.messages@.len() == 0,
        !quiet ==> strings_view(g.messages@) == seq![
            "macOS requires manual approval for protected folders like Downloads."@,
            "Add this binary to Full Disk Access and leave it enabled:"@,
            display@,
        ],
{
    let mut commands: Vec<CommandSpec> = Vec::new();
    let c0 = command(
        "open",
        &["x-apple.systempreferences:com.apple.preference.security?Privacy_AllFiles"],
    );
    assert(c0@.1 =~= seq![disk_access_page()]);
    commands.push(c0);
    let c1 = command("open", &["-R", display]);
    assert(c1@.1 =~= seq!["-R"@, display@]);
    commands.push(c1);
    let mut messages: Vec<String> = Vec::new();
    if !quiet {
        messages.push(
            String::from_str("macOS requires manual approval for protected folders like Downloads."),
        );
        messages.push(String::from_str("Add this binary to Full Disk Access and leave it enabled:"));
        messages.push(String::from_str(display));
        assert(strings_view(messages@) =~= seq![
            "macOS requires manual approval for protected folders like Downloads."@,
            "Add this binary to Full Disk Access and leave it enabled:"@,
            display@,
        ]);
    }
    Guidance { commands, messages }
}

} // verus!

verus! {

/// One step of installing; the program performs the steps in order and
/// stops at the first that fails.
#[derive(Debug, Clone, Copy, PartialEq, Eq, Structural)]
pub enum InstallStep {
    /// Create the directory that will hold the installed binary.
    CreateDestinationDirectory,
    /// Copy the running binary to its installed place.
    CopyBinary,
    /// Save this pass count for the agent.
    SavePasses(usize),
    /// Register the installed binary to start at login as `--agent --quiet`.
    EnableAutoLaunch,
    /// Write the application bundle's files ([`ensure_macos_app_bundle`]).
    WriteAppBundle,
    /// Add the keep-alive entry to the login agent ([`ensure_launch_agent_keepalive`]).
    EnsureKeepAlive,
    /// Restart the login agent ([`kickstart_launch_agent`]).
    KickstartAgent,
    /// Point the user to Full Disk Access ([`open_full_disk_access_guidance`]).
    OpenDiskAccessGuidance,
    /// Print `installed <destination>`.
    ReportInstalled,
}

/// The platform's own steps after the binary is in place.
pub open spec fn post_install_steps(platform: Platform) -> Seq<InstallStep> {
    match platform {
        Platform::MacOs => seq![
            InstallStep::WriteAppBundle,
            InstallStep::EnsureKeepAlive,
            InstallStep::KickstartAgent,
            InstallStep::OpenDiskAccessGuidance,
        ],
        _ => seq![],
    }
}

/// The platform's own steps after the binary is in place.
pub fn post_install_platform_setup(platform: Platform) -> (v: Vec<InstallStep>)
    ensures
        v@ == post_install_steps(platform),
{
    let mut v: Vec<InstallStep> = Vec::new();
    if platform == Platform::MacOs {
        v.push(InstallStep::WriteAppBundle);
        v.push(InstallStep::EnsureKeepAlive);
        v.push(InstallStep::KickstartAgent);
        v.push(InstallStep::OpenDiskAccessGuidance);
        assert(v@ =~= post_install_steps(platform));
    } else {
        assert(v@ =~= post_install_steps(platform));
    }
    v
}

/// The steps of installing: where the running binary is not already the
/// installed one, its directory is made and the binary copied; then the
/// pass count is saved where one was given, start at login enabled, the
/// platform's own steps taken and, unless quiet, the result reported.
pub open spec fn install_steps(
    platform: Platform,
    already_installed: bool,
    has_parent: bool,
    passes: Option<usize>,
    quiet: bool,
) -> Seq<InstallStep> {
    (if already_installed {
        seq![]
    } else if has_parent {
        seq![InstallStep::CreateDestinationDirectory, InstallStep::CopyBinary]
    } else {
        seq![InstallStep::CopyBinary]
    }) + (match passes {
        Some(n) => seq![InstallStep::SavePasses(n)],
        None => seq![],
    }) + seq![InstallStep::EnableAutoLaunch] + post_install_steps(platform) + (if quiet {
        seq![]
    } else {
        seq![InstallStep::ReportInstalled]
    })
}

/// The steps that install the running binary `current` at `destination`.
pub fn install_current_binary(
    platform: Platform,
    current: &LocalPath,
    destination: &LocalPath,
    configured_passes: Option<usize>,
    quiet: bool,
) -> (v: Vec<InstallStep>)
    ensures
        v@ == install_steps(
            platform,
            current@ == destination@,
            parent_of(destination@) is Some,
            configured_passes,
            quiet,
        ),
{
    let mut v: Vec<InstallStep> = Vec::new();
    let ghost start = v@;
    if !current.same_as(destination) {
        if destination.parent().is_some() {
            v.push(InstallStep::CreateDestinationDirectory);
        }
        v.push(InstallStep::CopyBinary);
    }
    let ghost a = v@;
    if let Some(n) = configured_passes {
        v.push(InstallStep::SavePasses(n));
    }
    let ghost b = v@;
    v.push(InstallStep::EnableAutoLaunch);
    let ghost c = v@;
    let mut post = post_install_platform_setup(platform);
    v.append(&mut post);
    let ghost d = v@;
    if !quiet {
        v.push(InstallStep::ReportInstalled);
    }
    assert(v@ =~= install_steps(
        platform,
        current@ == destination@,
        parent_of(destination@) is Some,
        configured_passes,
        quiet,
    ));
    v
}

/// One step of uninstalling; the program performs the steps in order and
/// stops at the first that fails, except where a step says otherwise.
#[derive(Debug, Clone, Copy, PartialEq, Eq, Structural)]
pub enum UninstallStep {
    /// Unregister start at login; a failure is ignored.
    DisableAutoLaunch,
    /// Stop the login agent ([`bootout_launch_agent`]); a failure of the command is ignored.
    BootoutAgent,
    /// Remove the login agent's property list, where it exists.
    RemoveAgentPlist,
    /// Remove the whole application bundle ([`macos_bundle_root_from_executable`]), where it exists.
    RemoveBundle,
    /// Remove the installed binary, where it exists.
    RemoveBinary,
    /// Remove the installed binary's directory if it is empty; a failure is ignored.
    RemoveDestinationDirectory,
    /// Print `uninstalled <destination>`.
    ReportUninstalled,
}

/// The platform's own steps before the installed files are removed.
pub open spec fn pre_uninstall_steps(platform: Platform) -> Seq<UninstallStep> {
    match platform {
        Platform::MacOs => seq![UninstallStep::BootoutAgent, UninstallStep::RemoveAgentPlist],
        _ => seq![],
    }
}

/// The platform's own steps before the installed files are removed.
pub fn pre_uninstall_platform_cleanup(platform: Platform) -> (v: Vec<UninstallStep>)
    ensures
        v@ == pre_uninstall_steps(platform),
{
    let mut v: Vec<UninstallStep> = Vec::new();
    if platform == Platform::MacOs {
        v.push(UninstallStep::BootoutAgent);
        v.push(UninstallStep::RemoveAgentPlist);
    }
    assert(v@ =~= pre_uninstall_steps(platform));
    v
}

/// Which installed files are removed: the bundle on macOS; elsewhere the
/// binary unless it is the running one, and on Windows then its directory.
pub open spec fn removal_steps(platform: Platform, running_installed: bool) -> Seq<UninstallStep> {
    match platform {
        Platform::MacOs => seq![UninstallStep::RemoveBundle],
        Platform::Windows => (if running_installed {
            seq![]
        } else {
            seq![UninstallStep::RemoveBinary]
        }) + seq![UninstallStep::RemoveDestinationDirectory],
        Platform::Other => if running_installed {
            seq![]
        } else {
            seq![UninstallStep::RemoveBinary]
        },
    }
}

/// Which installed files are removed, for the running binary `current` and
/// the installed one at `destination`.
pub fn remove_installed_artifacts(
    platform: Platform,
    current: &LocalPath,
    destination: &LocalPath,
) -> (v: Vec<UninstallStep>)
    ensures
        v@ == removal_steps(platform, current@ == destination@),
{
    let mut v: Vec<UninstallStep> = Vec::new();
    match platform {
        Platform::MacOs => {
            v.push(UninstallStep::RemoveBundle);
        },
        Platform::Windows => {
            if !current.same_as(destination) {
                v.push(UninstallStep::RemoveBinary);
            }
            v.push(UninstallStep::RemoveDestinationDirectory);
        },
        Platform::Other => {
            if !current.same_as(destination) {
                v.push(UninstallStep::RemoveBinary);
            }
        },
    }
    assert(v@ =~= removal_steps(platform, current@ == destination@));
    v
}

/// The steps of uninstalling: start at login disabled, the platform's own
/// clean-up, the installed files removed and, unless quiet, the result reported.
pub fn uninstall_current_binary(
    platform: Platform,
    current: &LocalPath,
    destination: &LocalPath,
    quiet: bool,
) -> (v: Vec<UninstallStep>)
    ensures
        v@ == seq![UninstallStep::DisableAutoLaunch] + pre_uninstall_steps(platform) + removal_steps(
            platform,
            current@ == destination@,
        ) + (if quiet {
            seq![]
        } else {
            seq![UninstallStep::ReportUninstalled]
        }),
{
    let mut v: Vec<UninstallStep> = Vec::new();
    v.push(UninstallStep::DisableAutoLaunch);
    let mut pre = pre_uninstall_platform_cleanup(platform);
    v.append(&mut pre);
    let mut removal = remove_installed_artifacts(platform, current, destination);
    v.append(&mut removal);
    if !quiet {
        v.push(UninstallStep::ReportUninstalled);
    }
    assert(v@ =~= seq![UninstallStep::DisableAutoLaunch] + pre_uninstall_steps(platform)
        + removal_steps(platform, current@ == destination@) + (if quiet {
        seq![]
    } else {
        seq![UninstallStep::ReportUninstalled]
    }));
    v
}

/// The line that reports an install at `display`.
pub fn installed_message(display: &str) -> (s: String)
    ensures
        s@ == "installed "@ + display@,
{
    let mut s = String::from_str("installed ");
    s.append(display);
    s
}

/// The line that reports removing the install at `display`.
pub fn uninstalled_message(display: &str) -> (s: String)
    ensures
        s@ == "uninstalled "@ + display@,
{
    let mut s = String::from_str("uninstalled ");
    s.append(display);
    s
}

} // verus!

verus! {

/// A pass count given to an install is saved exactly once, before start at
/// login is enabled, whether or not the binary was already in place; with
/// no count nothing is saved.
pub proof fn lemma_install_saves_passes(
    platform: Platform,
    already_installed: bool,
    has_parent: bool,
    passes: Option<usize>,
    quiet: bool,
)
    ensures
        ({
            let s = install_steps(platform, already_installed, has_parent, passes, quiet);
            &&& passes matches Some(n) ==> exists|i: int, k: int|
                0 <= i < k < s.len() && s[i] == InstallStep::SavePasses(n) && s[k]
                    == InstallStep::EnableAutoLaunch && forall|j: int|
                    0 <= j < s.len() && j != i ==> !(#[trigger] s[j] is SavePasses)
            &&& passes is None ==> forall|j: int| 0 <= j < s.len() ==> !(#[trigger] s[j] is SavePasses)
            &&& s.contains(InstallStep::EnableAutoLaunch)
            &&& s.contains(InstallStep::CopyBinary) <==> !already_installed
            &&& s.contains(InstallStep::ReportInstalled) <==> !quiet
        }),
{
    let a: Seq<InstallStep> = if already_installed {
        seq![]
    } else if has_parent {
        seq![InstallStep::CreateDestinationDirectory, InstallStep::CopyBinary]
    } else {
        seq![InstallStep::CopyBinary]
    };
    let b: Seq<InstallStep> = match passes {
        Some(n) => seq![InstallStep::SavePasses(n)],
        None => seq![],
    };
    let e = seq![InstallStep::EnableAutoLaunch];
    let p = post_install_steps(platform);
    let r: Seq<InstallStep> = if quiet {
        seq![]
    } else {
        seq![InstallStep::ReportInstalled]
    };
    let s = install_steps(platform, already_installed, has_parent, passes, quiet);
    assert(s == a + b + e + p + r);
    assert forall|j: int| 0 <= j < a.len() implies !(#[trigger] a[j] is SavePasses) by {}
    assert forall|j: int| 0 <= j < p.len() implies !(#[trigger] p[j] is SavePasses) by {}
    assert forall|j: int| 0 <= j < s.len() && !(a.len() <= j < a.len() + b.len()) implies !(
    #[trigger] s[j] is SavePasses) by {
        if j < a.len() {
            assert(s[j] == a[j]);
        } else if j < a.len() + b.len() + 1 {
            assert(s[j] == e[j - a.len() - b.len()]);
        } else if j < a.len() + b.len() + 1 + p.len() {
            assert(s[j] == p[j - a.len() - b.len() - 1]);
        } else {
            assert(s[j] == r[j - a.len() - b.len() - 1 - p.len()]);
        }
    }
    let ie = (a.len() + b.len()) as int;
    assert(s[ie] == InstallStep::EnableAutoLaunch);
    if let Some(n) = passes {
        let i = a.len() as int;
        let k = i + 1;
        assert(s[i] == InstallStep::SavePasses(n));
        assert(s[k] == InstallStep::EnableAutoLaunch);
    }
    if !already_installed {
        assert(s[a.len() - 1] == InstallStep::CopyBinary);
    } else {
        assert forall|j: int| 0 <= j < s.len() implies s[j] != InstallStep::CopyBinary by {
            if j < a.len() + b.len() {
                assert(s[j] == b[j - a.len()]);
            } else if j < a.len() + b.len() + 1 {
                assert(s[j] == e[j - a.len() - b.len()]);
            } else if j < a.len() + b.len() + 1 + p.len() {
                assert(s[j] == p[j - a.len() - b.len() - 1]);
            } else {
                assert(s[j] == r[j - a.len() - b.len() - 1 - p.len()]);
            }
        }
    }
    if !quiet {
        assert(s[s.len() - 1] == InstallStep::ReportInstalled);
    } else {
        assert forall|j: int| 0 <= j < s.len() implies s[j] != InstallStep::ReportInstalled by {
            if j < a.len() {
                assert(s[j] == a[j]);
            } else if j < a.len() + b.len() {
                assert(s[j] == b[j - a.len()]);
            } else if j < a.len() + b.len() + 1 {
                assert(s[j] == e[j - a.len() - b.len()]);
            } else {
                assert(s[j] == p[j - a.len() - b.len() - 1]);
            }
        }
    }
}

/// Uninstalling removes what was installed: on macOS the application
/// bundle always goes, whichever binary runs the uninstall; elsewhere the
/// installed binary goes exactly when it is not the one running.
pub proof fn lemma_uninstall_removes_install(platform: Platform, running_installed: bool)
    ensures
        platform == Platform::MacOs ==> removal_steps(platform, running_installed).contains(
            UninstallStep::RemoveBundle,
        ),
        platform != Platform::MacOs ==> (removal_steps(platform, running_installed).contains(
            UninstallStep::RemoveBinary,
        ) <==> !running_installed),
        platform == Platform::MacOs ==> !removal_steps(platform, running_installed).contains(
            UninstallStep::RemoveBinary,
        ),
        platform == Platform::Windows ==> removal_steps(platform, running_installed).contains(
            UninstallStep::RemoveDestinationDirectory,
        ),
{
    let s = removal_steps(platform, running_installed);
    if platform == Platform::Windows {
        assert(s[s.len() - 1] == UninstallStep::RemoveDestinationDirectory);
    }
    if platform == Platform::MacOs {
        assert(s[0] == UninstallStep::RemoveBundle);
        assert forall|j: int| 0 <= j < s.len() implies s[j] != UninstallStep::RemoveBinary by {}
    } else if !running_installed {
        assert(s[0] == UninstallStep::RemoveBinary);
    } else {
        assert forall|j: int| 0 <= j < s.len() implies s[j] != UninstallStep::RemoveBinary by {}
    }
}

} // verus!
