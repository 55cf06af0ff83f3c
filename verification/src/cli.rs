//! What a run of the command does, decided from its flags and settings,
//! and the texts it shows.

use vstd::prelude::*;
use vstd::string::StringExecFns;

use crate::config::{default_passes, Config};
use crate::paths::Platform;
use crate::selection::{command, strings_view, CommandSpec};
use crate::text::{decimal, decimal_string};

verus! {

/// The command line's flags.
#[derive(Debug, Clone, Copy)]
pub struct CliFlags {
    /// `--agent`: run as the background hotkey agent.
    pub agent: bool,
    /// `--passes N`.
    pub passes: Option<usize>,
    /// `--recursive`: directories may be deleted.
    pub recursive: bool,
    /// `--install`.
    pub install: bool,
    /// `--uninstall`.
    pub uninstall: bool,
    /// `--quiet`.
    pub quiet: bool,
    /// `--diagnose`.
    pub diagnose: bool,
}

/// What a run does.
#[derive(Debug, Clone, Copy, PartialEq, Eq, Structural)]
pub enum RunMode {
    /// Print diagnostics.
    Diagnose,
    /// Install, saving this pass count for the agent where there is one.
    Install { passes: Option<usize>, quiet: bool },
    /// Uninstall.
    Uninstall { quiet: bool },
    /// Run the background agent with these settings ([`crate::agent::agent_options`]
    /// then allows directories).
    Agent { passes: usize, recursive: bool, quiet: bool },
    /// Delete the targets with these settings.
    Delete { passes: usize, recursive: bool, quiet: bool },
}

/// The pass count: the command line's, else the configuration's, else the default.
pub open spec fn chosen_passes(flags: CliFlags, config: Config) -> usize {
    match flags.passes {
        Some(n) => n,
        None => match config.agent_passes {
            Some(n) => n,
            None => 3,
        },
    }
}

/// What a run does: diagnose, install and uninstall take precedence in that
/// order; otherwise the agent runs (quietly) or the targets are deleted.
pub open spec fn run_mode(flags: CliFlags, config: Config) -> RunMode {
    if flags.diagnose {
        RunMode::Diagnose
    } else if flags.install {
        RunMode::Install {
            passes: match flags.passes {
                Some(n) => Some(n),
                None => config.agent_passes,
            },
            quiet: flags.quiet,
        }
    } else if flags.uninstall {
        RunMode::Uninstall { quiet: flags.quiet }
    } else if flags.agent {
        RunMode::Agent {
            passes: chosen_passes(flags, config),
            recursive: flags.recursive,
            quiet: true,
        }
    } else {
        RunMode::Delete {
            passes: chosen_passes(flags, config),
            recursive: flags.recursive,
            quiet: flags.quiet,
        }
    }
}

/// Decides what a run does, from its flags and the loaded configuration.
pub fn run(flags: &CliFlags, config: &Config) -> (m: RunMode)
    ensures
        m == run_mode(*flags, *config),
{
    if flags.diagnose {
        return RunMode::Diagnose;
    }
    if flags.install {
        let passes = match flags.passes {
            Some(n) => Some(n),
            None => config.agent_passes,
        };
        return RunMode::Install { passes, quiet: flags.quiet };
    }
    if flags.uninstall {
        return RunMode::Uninstall { quiet: flags.quiet };
    }
    let passes = match flags.passes {
        Some(n) => n,
        None => match config.agent_passes {
            Some(n) => n,
            None => default_passes(),
        },
    };
    if flags.agent {
        RunMode::Agent { passes, recursive: flags.recursive, quiet: true }
    } else {
        RunMode::Delete { passes, recursive: flags.recursive, quiet: flags.quiet }
    }
}

/// Where a run's targets come from, tried in this order.
#[derive(Debug, Clone, Copy, PartialEq, Eq, Structural)]
pub enum TargetSource {
    CommandLine,
    Selection,
    Picker,
}

/// The next move in finding targets.
#[derive(Debug, Clone, Copy, PartialEq, Eq, Structural)]
pub enum TargetStep {
    /// Delete the targets just found.
    Use,
    /// Ask this source next.
    Try(TargetSource),
    /// There is nothing to delete; the run ends without error.
    Nothing,
}

/// After a source gave `found` targets: use them if there are any, else
/// ask the next source; the paths on the command line come first, then
/// the current selection, then a file picker.
pub fn after_target_source(source: TargetSource, found: usize) -> (s: TargetStep)
    ensures
        found > 0 ==> s == TargetStep::Use,
        found == 0 && source == TargetSource::CommandLine ==> s == TargetStep::Try(
            TargetSource::Selection,
        ),
        found == 0 && source == TargetSource::Selection ==> s == TargetStep::Try(
            TargetSource::Picker,
        ),
        found == 0 && source == TargetSource::Picker ==> s == TargetStep::Nothing,
{
    if found > 0 {
        TargetStep::Use
    } else {
        match source {
            TargetSource::CommandLine => TargetStep::Try(TargetSource::Selection),
            TargetSource::Selection => TargetStep::Try(TargetSource::Picker),
            TargetSource::Picker => TargetStep::Nothing,
        }
    }
}

/// The line printed before an error ends the run: none when running as
/// the agent or quietly (judged from the raw arguments).
pub fn error_report(args: &Vec<String>, error: &str) -> (r: Option<String>)
    ensures
        (exists|i: int|
            0 <= i < args.len() && (args@[i]@ == "--agent"@ || args@[i]@ == "--quiet"@))
            ==> r is None,
        (forall|i: int|
            0 <= i < args.len() ==> args@[i]@ != "--agent"@ && args@[i]@ != "--quiet"@) ==> (r matches Some(
            s,
        ) && s@ == "error: "@ + error@),
{
    let agent = String::from_str("--agent");
    let quiet = String::from_str("--quiet");
    let mut i: usize = 0;
    while i < args.len()
        invariant
            i <= args.len(),
            agent@ == "--agent"@,
            quiet@ == "--quiet"@,
            forall|j: int| 0 <= j < i ==> args@[j]@ != "--agent"@ && args@[j]@ != "--quiet"@,
        decreases args.len() - i,
    {
        if args[i] == agent || args[i] == quiet {
            return None;
        }
        i = i + 1;
    }
    let mut s = String::from_str("error: ");
    s.append(error);
    Some(s)
}

} // verus!

verus! {

/// Appends a label and a value as one string.
fn labelled(label: &str, value: &str) -> (s: String)
    ensures
        s@ == label@ + value@,
{
    let mut s = String::from_str(label);
    s.append(value);
    s
}

/// The first lines of the diagnostics: a title, the operating system and
/// the processor architecture.
pub fn diagnostics_header(os: &str, arch: &str) -> (v: Vec<String>)
    ensures
        strings_view(v@) == seq!["SuDel diagnostics"@, "platform: "@ + os@, "arch: "@ + arch@],
{
    let mut v: Vec<String> = Vec::new();
    v.push(String::from_str("SuDel diagnostics"));
    v.push(labelled("platform: ", os));
    v.push(labelled("arch: ", arch));
    assert(strings_view(v@) =~= seq![
        "SuDel diagnostics"@,
        "platform: "@ + os@,
        "arch: "@ + arch@,
    ]);
    v
}

/// The diagnostics lines for the executable, log file and configuration file.
pub fn diagnostics_paths(executable: &str, log: &str, config: &str) -> (v: Vec<String>)
    ensures
        strings_view(v@) == seq![
            "executable: "@ + executable@,
            "log path: "@ + log@,
            "config path: "@ + config@,
        ],
{
    let mut v: Vec<String> = Vec::new();
    v.push(labelled("executable: ", executable));
    v.push(labelled("log path: ", log));
    v.push(labelled("config path: ", config));
    assert(strings_view(v@) =~= seq![
        "executable: "@ + executable@,
        "log path: "@ + log@,
        "config path: "@ + config@,
    ]);
    v
}

/// The diagnostics line for the selection lookup: how many items it found,
/// or its error.
pub fn selection_report(lookup: &Result<Vec<String>, String>) -> (s: String)
    ensures
        lookup matches Ok(v) ==> s@ == "selection lookup: ok ("@ + decimal(v@.len()) + " item(s))"@,
        lookup matches Err(e) ==> s@ == "selection lookup: error ("@ + e@ + ")"@,
{
    match lookup {
        Ok(v) => {
            let mut s = String::from_str("selection lookup: ok (");
            let n = decimal_string(v.len() as u64);
            s.append(n.as_str());
            s.append(" item(s))");
            s
        },
        Err(e) => {
            let mut s = String::from_str("selection lookup: error (");
            s.append(e.as_str());
            s.append(")");
            s
        },
    }
}

/// The log message that records a diagnostics run.
pub fn diagnostics_log_message() -> (s: String)
    ensures
        s@ == "DIAG diagnostics command executed"@,
{
    String::from_str("DIAG diagnostics command executed")
}

/// The platform's troubleshooting notes that end the diagnostics.
pub open spec fn notes(platform: Platform) -> Seq<Seq<char>> {
    match platform {
        Platform::MacOs => seq![
            "macOS notes:"@,
            "- If the hotkey does not work, try running `SuDel --agent` from Terminal first."@,
            "- Terminal may need permission under Privacy & Security > Automation and Accessibility."@,
            "- Unsigned background binaries may need manual approval in Privacy & Security."@,
        ],
        Platform::Windows => seq![
            "Windows notes:"@,
            "- If Explorer selection is not detected, try launching SuDel once from PowerShell."@,
            "- Some systems only expose Explorer selection through powershell.exe, others through pwsh."@,
            "- If the hotkey is already used by another app, SuDel may not receive it."@,
        ],
        Platform::Other => seq![],
    }
}

/// The platform's troubleshooting notes that end the diagnostics.
pub fn platform_notes(platform: Platform) -> (v: Vec<String>)
    ensures
        strings_view(v@) == notes(platform),
{
    let mut v: Vec<String> = Vec::new();
    match platform {
        Platform::MacOs => {
            v.push(String::from_str("macOS notes:"));
            v.push(
                String::from_str(
                    "- If the hotkey does not work, try running `SuDel --agent` from Terminal first.",
                ),
            );
            v.push(
                String::from_str(
                    "- Terminal may need permission under Privacy & Security > Automation and Accessibility.",
                ),
            );
            v.push(
                String::from_str(
                    "- Unsigned background binaries may need manual approval in Privacy & Security.",
                ),
            );
        },
        Platform::Windows => {
            v.push(String::from_str("Windows notes:"));
            v.push(
                String::from_str(
                    "- If Explorer selection is not detected, try launching SuDel once from PowerShell.",
                ),
            );
            v.push(
                String::from_str(
                    "- Some systems only expose Explorer selection through powershell.exe, others through pwsh.",
                ),
            );
            v.push(
                String::from_str(
                    "- If the hotkey is already used by another app, SuDel may not receive it.",
                ),
            );
        },
        Platform::Other => {},
    }
    assert(strings_view(v@) =~= notes(platform));
    v
}

/// The title of the dialog that picks files to delete.
pub fn files_picker_title() -> (s: &'static str)
    ensures
        s@ == "SuDel: choose files to permanently delete"@,
{
    "SuDel: choose files to permanently delete"
}

/// The title of the dialog that picks a folder to delete.
pub fn folder_picker_title() -> (s: &'static str)
    ensures
        s@ == "SuDel: choose folder to permanently delete"@,
{
    "SuDel: choose folder to permanently delete"
}

/// Whether to offer the folder dialog: only when no file was picked.
pub fn use_folder_picker(files_picked: usize) -> (r: bool)
    ensures
        r == (files_picked == 0),
{
    files_picked == 0
}

/// The command that brings Finder forward before a dialog opens on macOS;
/// none elsewhere.
pub fn maybe_prepare_picker(platform: Platform) -> (r: Option<CommandSpec>)
    ensures
        platform == Platform::MacOs ==> (r matches Some(c) && c@ == (
            "osascript"@,
            seq!["-e"@, "tell application \"Finder\" to activate"@],
        )),
        platform != Platform::MacOs ==> r is None,
{
    if platform == Platform::MacOs {
        let c = command("osascript", &["-e", "tell application \"Finder\" to activate"]);
        assert(c@.1 =~= seq!["-e"@, "tell application \"Finder\" to activate"@]);
        Some(c)
    } else {
        None
    }
}

/// The title of the confirmation dialog.
pub fn confirmation_title() -> (s: &'static str)
    ensures
        s@ == "SuDel Confirmation"@,
{
    "SuDel Confirmation"
}

/// The question the confirmation dialog asks: the one item's path, or how
/// many items there are.
pub fn confirmation_summary(targets: &Vec<String>) -> (s: String)
    ensures
        targets.len() == 1 ==> s@ == "Permanently delete this item?\n\n"@ + targets@[0]@,
        targets.len() != 1 ==> s@ == "Permanently delete these "@ + decimal(targets.len() as nat)
            + " selected items?\n\nThis cannot be undone."@,
{
    if targets.len() == 1 {
        let mut s = String::from_str("Permanently delete this item?\n\n");
        s.append(targets[0].as_str());
        s
    } else {
        let mut s = String::from_str("Permanently delete these ");
        let n = decimal_string(targets.len() as u64);
        s.append(n.as_str());
        s.append(" selected items?\n\nThis cannot be undone.");
        s
    }
}

} // verus!

verus! {

/// The command line's pass count wins: with `--passes n` every mode that
/// uses a pass count uses `n`, whatever the configuration says; only
/// without it is the configuration consulted, and without both the count is 3.
pub proof fn lemma_cli_passes_win(flags: CliFlags, config: Config)
    ensures
        flags.passes matches Some(n) ==> match run_mode(flags, config) {
            RunMode::Install { passes, .. } => passes == Some(n),
            RunMode::Agent { passes, .. } => passes == n,
            RunMode::Delete { passes, .. } => passes == n,
            _ => true,
        },
        flags.passes is None ==> match run_mode(flags, config) {
            RunMode::Install { passes, .. } => passes == config.agent_passes,
            RunMode::Agent { passes, .. } => config.agent_passes matches Some(p) ==> passes == p,
            RunMode::Delete { passes, .. } => config.agent_passes matches Some(p) ==> passes == p,
            _ => true,
        },
        flags.diagnose ==> run_mode(flags, config) == RunMode::Diagnose,
        !flags.diagnose && flags.install ==> (run_mode(flags, config) is Install),
        !flags.diagnose && !flags.install && flags.uninstall ==> (run_mode(flags, config)
            == (RunMode::Uninstall { quiet: flags.quiet })),
        !flags.diagnose && !flags.install && !flags.uninstall && flags.agent ==> (run_mode(
            flags,
            config,
        ) is Agent),
        !flags.diagnose && !flags.install && !flags.uninstall && !flags.agent ==> (run_mode(
            flags,
            config,
        ) is Delete),
        match run_mode(flags, config) {
            RunMode::Install { quiet, .. } => quiet == flags.quiet,
            RunMode::Agent { recursive, quiet, .. } => recursive == flags.recursive && quiet,
            RunMode::Delete { recursive, quiet, .. } => recursive == flags.recursive && quiet
                == flags.quiet,
            _ => true,
        },
        flags.passes is None && config.agent_passes is None ==> match run_mode(flags, config) {
            RunMode::Agent { passes, .. } => passes == 3,
            RunMode::Delete { passes, .. } => passes == 3,
            _ => true,
        },
{
}

} // verus!
