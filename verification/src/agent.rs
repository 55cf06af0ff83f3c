//! The background agent: its hotkeys, how it spaces presses, and what it
//! does and logs on each press.

use vstd::prelude::*;
use vstd::string::StringExecFns;

use crate::config::Config;
use crate::shred::ShredOptions;
use crate::paths::Platform;
use crate::selection::{copy_strings, strings_view};

verus! {

/// A key the agent listens for.
#[derive(Debug, Clone, Copy, PartialEq, Eq, Structural)]
pub enum HotkeyCode {
    Delete,
    Backspace,
}

/// A global hotkey: a key pressed with modifiers.
#[derive(Debug, Clone, Copy, PartialEq, Eq, Structural)]
pub struct HotkeySpec {
    pub shift: bool,
    pub alt: bool,
    pub code: HotkeyCode,
}

/// The hotkeys the agent registers: Shift+Alt+Delete everywhere, and on
/// macOS also Shift+Option+Backspace, the key many MacBooks label Delete.
pub open spec fn platform_hotkeys(platform: Platform) -> Seq<HotkeySpec> {
    let delete = HotkeySpec { shift: true, alt: true, code: HotkeyCode::Delete };
    let backspace = HotkeySpec { shift: true, alt: true, code: HotkeyCode::Backspace };
    match platform {
        Platform::MacOs => seq![delete, backspace],
        _ => seq![delete],
    }
}

/// The hotkeys the agent registers.
pub fn hotkeys_for_platform(platform: Platform) -> (v: Vec<HotkeySpec>)
    ensures
        v@ == platform_hotkeys(platform),
{
    let mut v: Vec<HotkeySpec> = Vec::new();
    v.push(HotkeySpec { shift: true, alt: true, code: HotkeyCode::Delete });
    if platform == Platform::MacOs {
        v.push(HotkeySpec { shift: true, alt: true, code: HotkeyCode::Backspace });
    }
    assert(v@ =~= platform_hotkeys(platform));
    v
}

/// The log message once the hotkeys are registered.
pub fn registered_hotkey_message(platform: Platform) -> (s: String)
    ensures
        platform == Platform::MacOs ==> s@
            == "AGENT hotkeys registered: Shift+Option+Delete and Shift+Option+Backspace"@,
        platform != Platform::MacOs ==> s@ == "AGENT hotkey registered: Shift+Alt+Delete"@,
{
    if platform == Platform::MacOs {
        String::from_str("AGENT hotkeys registered: Shift+Option+Delete and Shift+Option+Backspace")
    } else {
        String::from_str("AGENT hotkey registered: Shift+Alt+Delete")
    }
}

/// Presses closer than this many nanoseconds (700 ms) to the last one acted on are ignored.
pub const DEBOUNCE_NS: u64 = 700000000;

/// A press at `now` is acted on: there was none before, or the last one
/// acted on is at least [`DEBOUNCE_NS`] earlier (a clock that went back
/// counts as no time passed).
pub open spec fn forwards(last: Option<u64>, now: u64) -> bool {
    match last {
        None => true,
        Some(prev) => now >= prev && now - prev >= DEBOUNCE_NS,
    }
}

/// Spaces out hotkey presses.
#[derive(Debug)]
pub struct Debounce {
    pub last: Option<u64>,
}

impl Debounce {
    /// Nothing acted on yet.
    pub fn new() -> (d: Debounce)
        ensures
            d.last is None,
    {
        Debounce { last: None }
    }

    /// Decides on a press at `now` (nanoseconds on a steady clock); a press
    /// acted on becomes the last one.
    pub fn on_press(&mut self, now: u64) -> (forward: bool)
        ensures
            forward == forwards(old(self).last, now),
            forward ==> final(self).last == Some(now),
            !forward ==> final(self).last == old(self).last,
    {
        let forward = match self.last {
            None => true,
            Some(prev) => now >= prev && now - prev >= DEBOUNCE_NS,
        };
        if forward {
            self.last = Some(now);
        }
        forward
    }
}

/// Two presses acted on, one after the other on a clock that does not go
/// back, are at least [`DEBOUNCE_NS`] apart.
pub proof fn lemma_presses_spaced(first: u64, second: u64)
    requires
        forwards(Some(first), second),
    ensures
        second >= first + DEBOUNCE_NS,
{
}

/// The pass count for a press: the configuration's where it could be read
/// and sets one, the running count otherwise.
pub fn agent_passes(current: usize, config: &Result<Config, String>) -> (n: usize)
    ensures
        n == agent_passes_spec(current, *config),
{
    match config {
        Ok(c) => match c.agent_passes {
            Some(p) => p,
            None => current,
        },
        Err(_) => current,
    }
}

/// The targets of a press and the log messages about them.
#[derive(Debug)]
pub struct PressTargets {
    /// What to delete; the press ends here where it is empty.
    pub targets: Vec<String>,
    /// Messages to append to the log, in order.
    pub log: Vec<String>,
}

/// What a press works on, from the selection lookup: the selection when it
/// succeeded (noting its use when it is not empty), nothing when it failed
/// (noting the error); with nothing to delete, that is noted too.
pub fn press_targets(lookup: &Result<Vec<String>, String>) -> (r: PressTargets)
    ensures
        lookup matches Ok(v) ==> strings_view(r.targets@) == strings_view(v@),
        lookup is Err ==> r.targets@.len() == 0,
        strings_view(r.log@) == (match lookup {
            Ok(v) => if v@.len() > 0 {
                seq!["AGENT using current OS selection"@]
            } else {
                seq!["AGENT no selected targets"@]
            },
            Err(e) => seq!["AGENT selection lookup failed: "@ + e@, "AGENT no selected targets"@],
        }),
{
    let mut log: Vec<String> = Vec::new();
    match lookup {
        Ok(v) => {
            let targets = copy_strings(v);
            if v.len() > 0 {
                log.push(String::from_str("AGENT using current OS selection"));
            } else {
                log.push(String::from_str("AGENT no selected targets"));
            }
            assert(strings_view(log@) =~= (if v@.len() > 0 {
                seq!["AGENT using current OS selection"@]
            } else {
                seq!["AGENT no selected targets"@]
            }));
            PressTargets { targets, log }
        },
        Err(e) => {
            let mut m = String::from_str("AGENT selection lookup failed: ");
            m.append(e.as_str());
            log.push(m);
            log.push(String::from_str("AGENT no selected targets"));
            assert(strings_view(log@) =~= seq![
                "AGENT selection lookup failed: "@ + e@,
                "AGENT no selected targets"@,
            ]);
            PressTargets { targets: Vec::new(), log }
        },
    }
}

/// The log message where the user declined the deletion, if they did.
pub fn confirmation_log(confirmed: bool) -> (r: Option<String>)
    ensures
        confirmed ==> r is None,
        !confirmed ==> (r matches Some(s) && s@ == "AGENT delete canceled by user"@),
{
    if confirmed {
        None
    } else {
        Some(String::from_str("AGENT delete canceled by user"))
    }
}

/// The log message for a deletion that failed.
pub fn shred_failure_log(error: &str) -> (s: String)
    ensures
        s@ == "AGENT shred failed: "@ + error@,
{
    let mut s = String::from_str("AGENT shred failed: ");
    s.append(error);
    s
}

/// The settings the agent deletes with: those it was started with, except
/// that directories are always allowed.
pub fn agent_options(options: ShredOptions) -> (r: ShredOptions)
    ensures
        r.passes == options.passes,
        r.recursive,
        r.quiet == options.quiet,
        r.log_path@ == options.log_path@,
{
    let mut r = options;
    r.recursive = true;
    r
}

/// The log message when the agent starts.
pub fn starting_log() -> (s: String)
    ensures
        s@ == "AGENT starting"@,
{
    String::from_str("AGENT starting")
}

/// The log message for a press acted on.
pub fn pressed_log() -> (s: String)
    ensures
        s@ == "AGENT hotkey pressed"@,
{
    String::from_str("AGENT hotkey pressed")
}

} // verus!

verus! {

/// Where handling a hotkey press has got to.
#[derive(Debug, Clone, Copy, PartialEq, Eq, Structural)]
pub enum PressPhase {
    /// Waiting for the configuration to be read.
    AwaitConfig,
    /// Waiting for the selection lookup.
    AwaitSelection,
    /// Waiting for the user to confirm the deletion.
    AwaitConfirmation,
    /// Confirmed: the targets may be deleted.
    Ready,
    /// Nothing more to do.
    Over,
}

/// The handling of one hotkey press: read the pass count, look up the
/// selection, ask the user, and only then delete.
#[derive(Debug)]
pub struct Press {
    phase: PressPhase,
    passes: usize,
    targets: Vec<String>,
}

impl Press {
    /// Where the press has got to.
    pub closed spec fn phase_of(&self) -> PressPhase {
        self.phase
    }

    /// The pass count the deletion will use.
    pub closed spec fn passes_of(&self) -> usize {
        self.passes
    }

    /// What the deletion will work on.
    pub closed spec fn targets_of(&self) -> Seq<Seq<char>> {
        strings_view(self.targets@)
    }

    /// Where the press has got to.
    pub fn phase(&self) -> (p: PressPhase)
        ensures
            p == self.phase_of(),
    {
        self.phase
    }

    /// The pass count the deletion will use.
    pub fn passes(&self) -> (n: usize)
        ensures
            n == self.passes_of(),
    {
        self.passes
    }

    /// What the deletion will work on, for the confirmation question.
    pub fn targets(&self) -> (t: &Vec<String>)
        ensures
            strings_view(t@) == self.targets_of(),
    {
        &self.targets
    }

    /// A press, with the agent's current pass count.
    pub fn new(passes: usize) -> (p: Press)
        ensures
            p.phase_of() == PressPhase::AwaitConfig,
            p.passes_of() == passes,
            p.targets_of().len() == 0,
    {
        Press { phase: PressPhase::AwaitConfig, passes, targets: Vec::new() }
    }

    /// Takes in the configuration, as [`agent_passes`] does.
    pub fn on_config(&mut self, loaded: &Result<Config, String>)
        requires
            old(self).phase_of() == PressPhase::AwaitConfig,
        ensures
            final(self).phase_of() == PressPhase::AwaitSelection,
            final(self).passes_of() == agent_passes_spec(old(self).passes_of(), *loaded),
            final(self).targets_of() == old(self).targets_of(),
    {
        self.passes = agent_passes(self.passes, loaded);
        self.phase = PressPhase::AwaitSelection;
    }

    /// Takes in the selection lookup and returns the messages to log, as
    /// [`press_targets`] does; the press ends where there is nothing to delete.
    pub fn on_selection(&mut self, lookup: &Result<Vec<String>, String>) -> (log: Vec<String>)
        requires
            old(self).phase_of() == PressPhase::AwaitSelection,
        ensures
            final(self).passes_of() == old(self).passes_of(),
            lookup matches Ok(v) ==> final(self).targets_of() == strings_view(v@),
            lookup is Err ==> final(self).targets_of().len() == 0,
            final(self).phase_of() == (if final(self).targets_of().len() > 0 {
                PressPhase::AwaitConfirmation
            } else {
                PressPhase::Over
            }),
            strings_view(log@) == (match lookup {
                Ok(v) => if v@.len() > 0 {
                    seq!["AGENT using current OS selection"@]
                } else {
                    seq!["AGENT no selected targets"@]
                },
                Err(e) => seq![
                    "AGENT selection lookup failed: "@ + e@,
                    "AGENT no selected targets"@,
                ],
            }),
    {
        let found = press_targets(lookup);
        self.targets = found.targets;
        self.phase = if self.targets.len() > 0 {
            PressPhase::AwaitConfirmation
        } else {
            PressPhase::Over
        };
        found.log
    }

    /// Takes in the user's answer; returns the message to log where they declined.
    pub fn on_confirmation(&mut self, confirmed: bool) -> (log: Option<String>)
        requires
            old(self).phase_of() == PressPhase::AwaitConfirmation,
        ensures
            final(self).phase_of() == (if confirmed {
                PressPhase::Ready
            } else {
                PressPhase::Over
            }),
            final(self).passes_of() == old(self).passes_of(),
            final(self).targets_of() == old(self).targets_of(),
            confirmed ==> log is None,
            !confirmed ==> (log matches Some(s) && s@ == "AGENT delete canceled by user"@),
    {
        self.phase = if confirmed {
            PressPhase::Ready
        } else {
            PressPhase::Over
        };
        confirmation_log(confirmed)
    }

    /// The deletion to carry out: the targets and the pass count, only once
    /// the user confirmed; the press is then over.
    pub fn take_deletion(&mut self) -> (r: Option<(Vec<String>, usize)>)
        ensures
            final(self).phase_of() == (if old(self).phase_of() == PressPhase::Ready {
                PressPhase::Over
            } else {
                old(self).phase_of()
            }),
            r is Some <==> old(self).phase_of() == PressPhase::Ready,
            r matches Some(d) ==> strings_view(d.0@) == old(self).targets_of() && d.1 == old(
                self,
            ).passes_of(),
            old(self).phase_of() != PressPhase::Ready ==> final(self).targets_of() == old(
                self,
            ).targets_of() && final(self).passes_of() == old(self).passes_of(),
    {
        if self.phase == PressPhase::Ready {
            self.phase = PressPhase::Over;
            let mut targets: Vec<String> = Vec::new();
            std::mem::swap(&mut targets, &mut self.targets);
            Some((targets, self.passes))
        } else {
            None
        }
    }
}

/// The pass count that [`agent_passes`] gives.
pub open spec fn agent_passes_spec(current: usize, config: Result<Config, String>) -> usize {
    match config {
        Ok(c) => match c.agent_passes {
            Some(p) => p,
            None => current,
        },
        Err(_) => current,
    }
}

} // verus!

verus! {

/// The configuration read at a press sets the pass count: where it was
/// read and gives a count, the press uses exactly that count, higher or
/// lower than the running one; otherwise the running count is kept.
pub proof fn lemma_press_uses_configured_passes(current: usize, config: Result<Config, String>)
    ensures
        config matches Ok(c) ==> (c.agent_passes matches Some(p) ==> agent_passes_spec(
            current,
            config,
        ) == p),
        !(config matches Ok(c) && c.agent_passes is Some) ==> agent_passes_spec(current, config)
            == current,
{
}

} // verus!
