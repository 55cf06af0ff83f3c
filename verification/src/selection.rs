//! Finding the files and folders selected in Finder or File Explorer.
//!
//! The lookup runs a script through the platform's scripting host; the
//! caller runs each command that [`selected_paths_detailed`] asks for and
//! hands back what [`command_lines`] makes of its outcome.

use vstd::prelude::*;
use vstd::string::StringExecFns;
use vstd::utf8::{decode_utf8, valid_utf8};

use crate::paths::Platform;
use crate::text::{
    chars_of, lemma_lines_ends, lemma_lines_step, lemma_trim_strip_cr, lines, lines_after,
    strip_cr, string_of, trim, trim_bounds,
};

verus! {

/// The text that `String::from_utf8_lossy` makes of these bytes.
pub uninterp spec fn lossy_text(bytes: Seq<u8>) -> Seq<char>;

/// Decodes bytes as UTF-8, putting U+FFFD in place of each invalid sequence.
///
/// Calls `String::from_utf8_lossy`. Claims: the result is `lossy_text` of the
/// bytes, and the plain decoding where the bytes are valid UTF-8.
#[verifier::external_body]
pub(crate) fn utf8_lossy(bytes: &[u8]) -> (s: String)
    ensures
        s@ == lossy_text(bytes@),
        valid_utf8(bytes@) ==> s@ == decode_utf8(bytes@),
{
    String::from_utf8_lossy(bytes).into_owned()
}

/// The views of a list of strings.
pub open spec fn strings_view(v: Seq<String>) -> Seq<Seq<char>> {
    v.map_values(|s: String| s@)
}

/// The trimmed lines that are not blank, in order.
pub open spec fn kept_lines(ls: Seq<Seq<char>>) -> Seq<Seq<char>>
    decreases ls.len(),
{
    if ls.len() == 0 {
        seq![]
    } else {
        let t = trim(ls[0]);
        (if t.len() > 0 {
            seq![t]
        } else {
            Seq::<Seq<char>>::empty()
        }) + kept_lines(ls.drop_first())
    }
}

/// Appends `s[start..end]`, trimmed, unless it is blank.
fn push_trimmed(s: &Vec<char>, start: usize, end: usize, out: &mut Vec<String>)
    requires
        start <= end <= s.len(),
    ensures
        strings_view(final(out)@) == strings_view(old(out)@) + (if trim(
            s@.subrange(start as int, end as int),
        ).len() > 0 {
            seq![trim(s@.subrange(start as int, end as int))]
        } else {
            Seq::<Seq<char>>::empty()
        }),
{
    let (lo, hi) = trim_bounds(s, start, end);
    if lo < hi {
        let piece = string_of(&s.as_slice()[lo..hi]);
        let ghost before = out@;
        out.push(piece);
        assert(strings_view(out@) =~= strings_view(before) + seq![
            trim(s@.subrange(start as int, end as int)),
        ]);
    } else {
        assert(strings_view(out@) =~= strings_view(out@) + Seq::<Seq<char>>::empty());
    }
}

/// The non-blank lines of a command's output, each trimmed.
pub fn selected_lines(text: &str) -> (r: Vec<String>)
    ensures
        strings_view(r@) == kept_lines(lines(text@)),
{
    let s = chars_of(text);
    let ghost all = s@;
    let mut out: Vec<String> = Vec::new();
    let mut line_start: usize = 0;
    let mut i: usize = 0;
    proof {
        lemma_lines_ends(all, 0);
        assert(strings_view(out@) + kept_lines(lines(all)) =~= kept_lines(lines(all)));
    }
    while i < s.len()
        invariant
            s@ == all,
            line_start <= i <= s.len(),
            strings_view(out@) + kept_lines(
                lines_after(all.skip(i as int), all.subrange(line_start as int, i as int)),
            ) == kept_lines(lines(all)),
        decreases s.len() - i,
    {
        proof {
            lemma_lines_step(all, line_start as int, i as int);
        }
        if s[i] == '\n' {
            let ghost raw = all.subrange(line_start as int, i as int);
            let ghost rest = lines_after(all.skip(i + 1), all.subrange(i + 1, i + 1));
            let ghost before = strings_view(out@);
            proof {
                lemma_trim_strip_cr(raw);
                assert((seq![strip_cr(raw)] + rest).drop_first() =~= rest);
            }
            push_trimmed(&s, line_start, i, &mut out);
            proof {
                let f = if trim(raw).len() > 0 {
                    seq![trim(raw)]
                } else {
                    Seq::<Seq<char>>::empty()
                };
                assert(kept_lines(seq![strip_cr(raw)] + rest) == f + kept_lines(rest));
                assert(before + (f + kept_lines(rest)) =~= (before + f) + kept_lines(rest));
            }
            line_start = i + 1;
        }
        i = i + 1;
    }
    proof {
        lemma_lines_ends(all, line_start as int);
    }
    if line_start < s.len() {
        let ghost last = all.subrange(line_start as int, all.len() as int);
        let ghost before = strings_view(out@);
        assert(seq![last].drop_first() =~= Seq::<Seq<char>>::empty());
        push_trimmed(&s, line_start, s.len(), &mut out);
        proof {
            let f = if trim(last).len() > 0 {
                seq![trim(last)]
            } else {
                Seq::<Seq<char>>::empty()
            };
            assert(kept_lines(seq![last]) == f + kept_lines(Seq::<Seq<char>>::empty()));
            assert(f + kept_lines(Seq::<Seq<char>>::empty()) =~= f);
            assert(before + kept_lines(seq![last]) =~= strings_view(out@));
        }
    } else {
        assert(strings_view(out@) + kept_lines(Seq::<Seq<char>>::empty()) =~= strings_view(
            out@,
        ));
    }
    out
}

} // verus!

verus! {

/// A program to run, with its arguments.
#[derive(Debug, Clone)]
pub struct CommandSpec {
    pub program: String,
    pub args: Vec<String>,
}

/// A command as values: the program and the arguments.
pub type CommandView = (Seq<char>, Seq<Seq<char>>);

impl View for CommandSpec {
    type V = CommandView;

    open spec fn view(&self) -> CommandView {
        (self.program@, strings_view(self.args@))
    }
}

/// Builds a command from string slices.
pub fn command(program: &str, args: &[&str]) -> (c: CommandSpec)
    ensures
        c@.0 == program@,
        c@.1.len() == args@.len(),
        forall|i: int| 0 <= i < args@.len() ==> #[trigger] c@.1[i] == args@[i]@,
{
    let mut v: Vec<String> = Vec::new();
    let mut i: usize = 0;
    while i < args.len()
        invariant
            i <= args@.len(),
            v@.len() == i,
            forall|j: int| 0 <= j < i ==> #[trigger] v@[j]@ == args@[j]@,
        decreases args@.len() - i,
    {
        v.push(args[i].to_owned());
        i = i + 1;
    }
    CommandSpec { program: program.to_owned(), args: v }
}

/// The AppleScript that lists Finder's selection, one POSIX path per line.
pub open spec fn finder_script() -> Seq<char> {
    "
tell application \"Finder\"
    set selectedItems to selection
    if (count of selectedItems) is 0 then
        return \"\"
    end if
    set output to {}
    repeat with currentItem in selectedItems
        set end of output to POSIX path of (currentItem as alias)
    end repeat
    set AppleScript's text item delimiters to linefeed
    return output as text
end tell
"@
}

/// The PowerShell script that lists File Explorer's selection, one path per line.
pub open spec fn explorer_script() -> Seq<char> {
    "
$shell = New-Object -ComObject Shell.Application
$results = @()
foreach ($window in $shell.Windows()) {
  try {
    $document = $window.Document
    if ($document -and $document.SelectedItems) {
      foreach ($item in $document.SelectedItems()) {
        $results += $item.Path
      }
    }
  } catch {}
}
$results | Select-Object -Unique
"@
}

/// The AppleScript that lists Finder's selection.
pub fn finder_selection_script() -> (s: &'static str)
    ensures
        s@ == finder_script(),
{
    "
tell application \"Finder\"
    set selectedItems to selection
    if (count of selectedItems) is 0 then
        return \"\"
    end if
    set output to {}
    repeat with currentItem in selectedItems
        set end of output to POSIX path of (currentItem as alias)
    end repeat
    set AppleScript's text item delimiters to linefeed
    return output as text
end tell
"
}

/// The PowerShell script that lists File Explorer's selection.
pub fn explorer_selection_script() -> (s: &'static str)
    ensures
        s@ == explorer_script(),
{
    "
$shell = New-Object -ComObject Shell.Application
$results = @()
foreach ($window in $shell.Windows()) {
  try {
    $document = $window.Document
    if ($document -and $document.SelectedItems) {
      foreach ($item in $document.SelectedItems()) {
        $results += $item.Path
      }
    }
  } catch {}
}
$results | Select-Object -Unique
"
}

/// The arguments that run a PowerShell script without a profile or prompts.
pub open spec fn powershell_args() -> Seq<Seq<char>> {
    seq![
        "-NoProfile"@,
        "-NonInteractive"@,
        "-ExecutionPolicy"@,
        "Bypass"@,
        "-Command"@,
        explorer_script(),
    ]
}

/// The commands tried in turn to read the selection: `osascript` on macOS,
/// `powershell.exe` and then `pwsh` on Windows, none elsewhere.
pub open spec fn selection_commands(platform: Platform) -> Seq<CommandView> {
    match platform {
        Platform::MacOs => seq![("osascript"@, seq!["-e"@, finder_script()])],
        Platform::Windows => seq![
            ("powershell.exe"@, powershell_args()),
            ("pwsh"@, powershell_args()),
        ],
        Platform::Other => seq![],
    }
}

/// The command that reads Finder's selection.
pub fn macos_selected_paths() -> (c: CommandSpec)
    ensures
        c@ == selection_commands(Platform::MacOs)[0],
{
    let c = command("osascript", &["-e", finder_selection_script()]);
    assert(c@.1 =~= seq!["-e"@, finder_script()]);
    c
}

/// The commands that read File Explorer's selection, in the order they are
/// tried: Windows PowerShell, then PowerShell 7.
pub fn windows_selected_paths() -> (v: Vec<CommandSpec>)
    ensures
        v@.len() == 2,
        v@[0]@ == selection_commands(Platform::Windows)[0],
        v@[1]@ == selection_commands(Platform::Windows)[1],
{
    let args = [
        "-NoProfile",
        "-NonInteractive",
        "-ExecutionPolicy",
        "Bypass",
        "-Command",
        explorer_selection_script(),
    ];
    let mut v: Vec<CommandSpec> = Vec::new();
    let c0 = command("powershell.exe", &args);
    assert(c0@.1 =~= powershell_args());
    v.push(c0);
    let c1 = command("pwsh", &args);
    assert(c1@.1 =~= powershell_args());
    v.push(c1);
    v
}

/// The `i`-th command that reads the selection, where there is one.
pub fn selection_command(platform: Platform, i: usize) -> (c: Option<CommandSpec>)
    ensures
        i < selection_commands(platform).len() ==> (c matches Some(s) && s@
            == selection_commands(platform)[i as int]),
        i >= selection_commands(platform).len() ==> c is None,
{
    match platform {
        Platform::MacOs => if i == 0 {
            Some(macos_selected_paths())
        } else {
            None
        },
        Platform::Windows => if i < 2 {
            let mut v = windows_selected_paths();
            Some(v.swap_remove(i))
        } else {
            None
        },
        Platform::Other => None,
    }
}

/// What running a command gave.
#[derive(Debug)]
pub enum CommandResult {
    /// The program could not be started; the error, as text.
    LaunchFailed(String),
    /// The program ran to its end.
    Exited {
        /// It reported success.
        success: bool,
        /// Its exit status, as text.
        status: String,
        stdout: Vec<u8>,
        stderr: Vec<u8>,
    },
}

/// What a command's outcome says of the selection: the non-blank output
/// lines on success; otherwise an error that is the trimmed error output,
/// or, where that is blank, the program and its exit status.
pub open spec fn lines_outcome(program: Seq<char>, result: CommandResult) -> Result<
    Seq<Seq<char>>,
    Seq<char>,
> {
    match result {
        CommandResult::LaunchFailed(e) => Err(program + " launch failed: "@ + e@),
        CommandResult::Exited { success, status, stdout, stderr } => if success {
            Ok(kept_lines(lines(lossy_text(stdout@))))
        } else if trim(lossy_text(stderr@)).len() == 0 {
            Err(program + " exited with "@ + status@)
        } else {
            Err(trim(lossy_text(stderr@)))
        },
    }
}

/// The view of a selection lookup's result.
pub open spec fn lookup_view(r: Result<Vec<String>, String>) -> Result<Seq<Seq<char>>, Seq<char>> {
    match r {
        Ok(v) => Ok(strings_view(v@)),
        Err(e) => Err(e@),
    }
}

/// Reads the selection out of the outcome of running `program`.
pub fn command_lines(program: &str, result: &CommandResult) -> (r: Result<Vec<String>, String>)
    ensures
        lookup_view(r) == lines_outcome(program@, *result),
{
    match result {
        CommandResult::LaunchFailed(e) => {
            let mut m = String::from_str(program);
            m.append(" launch failed: ");
            m.append(e.as_str());
            Err(m)
        },
        CommandResult::Exited { success, status, stdout, stderr } => {
            if *success {
                let text = utf8_lossy(stdout.as_slice());
                Ok(selected_lines(text.as_str()))
            } else {
                let text = utf8_lossy(stderr.as_slice());
                let cs = chars_of(text.as_str());
                let (lo, hi) = trim_bounds(&cs, 0, cs.len());
                assert(cs@.subrange(0, cs@.len() as int) =~= cs@);
                if lo == hi {
                    let mut m = String::from_str(program);
                    m.append(" exited with ");
                    m.append(status.as_str());
                    Err(m)
                } else {
                    Err(string_of(&cs.as_slice()[lo..hi]))
                }
            }
        },
    }
}

} // verus!

verus! {

/// A copy of a list of strings.
pub fn copy_strings(v: &Vec<String>) -> (r: Vec<String>)
    ensures
        strings_view(r@) == strings_view(v@),
{
    let mut r: Vec<String> = Vec::new();
    let mut i: usize = 0;
    while i < v.len()
        invariant
            i <= v.len(),
            r@.len() == i,
            forall|j: int| 0 <= j < i ==> (#[trigger] r@[j])@ == v@[j]@,
        decreases v.len() - i,
    {
        r.push(v[i].clone());
        i = i + 1;
    }
    assert(strings_view(r@) =~= strings_view(v@));
    r
}

/// The next move in looking up the selection.
#[derive(Debug)]
pub enum SelectionStep {
    /// Run this command and hand [`command_lines`] of its outcome back.
    Run(CommandSpec),
    /// The lookup is over, with this result.
    Done(Result<Vec<String>, String>),
}

/// All the lookups tried so far failed.
pub open spec fn all_failed(tried: Seq<Result<Vec<String>, String>>) -> bool {
    forall|i: int| 0 <= i < tried.len() ==> (#[trigger] tried[i]) is Err
}

/// Looks up the selection, given the results of the commands tried so far
/// (in the order that [`selection_command`] numbers them): the first success
/// ends it; while none succeeded, the next command is run; when all failed,
/// the last error is the result; with no command to run, the selection is empty.
pub fn selected_paths_detailed(platform: Platform, tried: &Vec<Result<Vec<String>, String>>) -> (r:
    SelectionStep)
    ensures
        r is Run <==> (all_failed(tried@) && tried.len() < selection_commands(platform).len()),
        r matches SelectionStep::Run(c) ==> c@ == selection_commands(platform)[tried.len() as int],
        r matches SelectionStep::Done(x) ==> (if all_failed(tried@) {
            if tried.len() == 0 {
                lookup_view(x) == Ok::<Seq<Seq<char>>, Seq<char>>(seq![])
            } else {
                lookup_view(x) == lookup_view(tried@.last())
            }
        } else {
            exists|i: int|
                0 <= i < tried.len() && tried@[i] is Ok && all_failed(tried@.take(i)) && lookup_view(
                    x,
                ) == lookup_view(tried@[i])
        }),
{
    let mut i: usize = 0;
    while i < tried.len()
        invariant
            i <= tried.len(),
            all_failed(tried@.take(i as int)),
        decreases tried.len() - i,
    {
        match &tried[i] {
            Ok(v) => {
                assert(!all_failed(tried@));
                let r = Ok(copy_strings(v));
                assert(lookup_view(r) == lookup_view(tried@[i as int]));
                return SelectionStep::Done(r);
            },
            Err(_) => {},
        }
        assert(tried@.take(i + 1) =~= tried@.take(i as int).push(tried@[i as int]));
        i = i + 1;
    }
    assert(tried@.take(i as int) =~= tried@);
    match selection_command(platform, tried.len()) {
        Some(c) => SelectionStep::Run(c),
        None => {
            if tried.len() == 0 {
                let v: Vec<String> = Vec::new();
                assert(strings_view(v@) =~= Seq::<Seq<char>>::empty());
                let r: Result<Vec<String>, String> = Ok(v);
                SelectionStep::Done(r)
            } else {
                assert(tried@[tried.len() - 1] is Err);
                match &tried[tried.len() - 1] {
                    Ok(v) => SelectionStep::Done(Ok(copy_strings(v))),
                    Err(e) => {
                        let r: Result<Vec<String>, String> = Err(e.clone());
                        assert(lookup_view(r) == lookup_view(tried@.last()));
                        SelectionStep::Done(r)
                    },
                }
            }
        },
    }
}

/// The selected paths, or none where the lookup failed.
pub fn selected_paths(lookup: Result<Vec<String>, String>) -> (r: Vec<String>)
    ensures
        lookup matches Ok(v) ==> r@ == v@,
        lookup is Err ==> r@.len() == 0,
{
    match lookup {
        Ok(v) => v,
        Err(_) => Vec::new(),
    }
}

} // verus!
