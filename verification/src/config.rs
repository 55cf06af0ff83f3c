//! The configuration file: where it lives, what it says and what saving writes.

use vstd::prelude::*;

use crate::text::{
    chars_of, decimal, decimal_string, digit_char, find_char, first_index, lemma_decimal_digits,
    lemma_first_index, lemma_lines_ends, lemma_lines_one, lemma_lines_step, lemma_trim_strip_cr,
    lines, lines_after, range_equals, strip_cr, trim, trim_bounds, trim_end,
};
use crate::paths::{named, Component, LocalPath, Platform};
use vstd::string::StringExecFns;

verus! {

/// The overwrite pass count used when neither the command line nor the
/// configuration file gives one.
pub fn default_passes() -> (n: usize)
    ensures
        n == 3,
{
    3
}

/// Settings read from the configuration file.
#[derive(Debug, Clone, Copy)]
pub struct Config {
    /// The overwrite pass count for the background agent, where one is set.
    pub agent_passes: Option<usize>,
}

impl Default for Config {
    fn default() -> (c: Self)
        ensures
            c.agent_passes is None,
    {
        Config { agent_passes: None }
    }
}

/// Value of a string of decimal digits.
pub open spec fn digits_value(d: Seq<char>) -> nat
    decreases d.len(),
{
    if d.len() == 0 {
        0
    } else {
        digits_value(d.drop_last()) * 10 + ((d.last() as nat) - ('0' as nat)) as nat
    }
}

/// Every character is an ASCII decimal digit.
pub open spec fn all_digits(d: Seq<char>) -> bool {
    forall|i: int| 0 <= i < d.len() ==> '0' <= #[trigger] d[i] <= '9'
}

/// What `str::parse::<usize>` gives: an optional `+`, then one or more ASCII
/// digits whose value fits in `usize`.
pub open spec fn parse_usize(t: Seq<char>) -> Option<usize> {
    let digits = if t.len() > 0 && t[0] == '+' {
        t.drop_first()
    } else {
        t
    };
    if digits.len() > 0 && all_digits(digits) && digits_value(digits) <= usize::MAX {
        Some(digits_value(digits) as usize)
    } else {
        None
    }
}

/// What one line of the configuration file says of the pass count: nothing
/// (`None`), or the new setting (`Some`), which is `None` unless the value is a
/// positive whole number.
pub open spec fn passes_setting(line: Seq<char>) -> Option<Option<usize>> {
    let t = trim(line);
    let k = first_index(t, '=') as int;
    if t.len() == 0 || t[0] == '#' || k == t.len() || trim(t.take(k)) != "passes"@ {
        None
    } else {
        match parse_usize(trim(t.skip(k + 1))) {
            Some(n) => if n > 0 {
                Some(Some(n))
            } else {
                Some(None)
            },
            None => Some(None),
        }
    }
}

/// The pass count after reading `ls` in order, starting from `cur`: the last
/// line that sets it wins.
pub open spec fn passes_after(ls: Seq<Seq<char>>, cur: Option<usize>) -> Option<usize>
    decreases ls.len(),
{
    if ls.len() == 0 {
        cur
    } else {
        passes_after(
            ls.drop_first(),
            match passes_setting(ls[0]) {
                Some(v) => v,
                None => cur,
            },
        )
    }
}

/// The configuration that a file with these contents describes.
pub open spec fn parsed_config(contents: Seq<char>) -> Option<usize> {
    passes_after(lines(contents), None)
}

/// Parses digits `s[lo..hi]`, with an optional leading `+`, as `usize`.
fn parse_usize_range(s: &Vec<char>, lo: usize, hi: usize) -> (r: Option<usize>)
    requires
        lo <= hi <= s.len(),
    ensures
        r == parse_usize(s@.subrange(lo as int, hi as int)),
{
    let ghost t = s@.subrange(lo as int, hi as int);
    let mut start = lo;
    if lo < hi && s[lo] == '+' {
        start = lo + 1;
    }
    let ghost digits = s@.subrange(start as int, hi as int);
    assert(digits =~= (if t.len() > 0 && t[0] == '+' {
        t.drop_first()
    } else {
        t
    }));
    if start == hi {
        return None;
    }
    let mut value: usize = 0;
    let mut i = start;
    while i < hi
        invariant
            lo <= start <= i <= hi <= s.len(),
            digits == s@.subrange(start as int, hi as int),
            t == s@.subrange(lo as int, hi as int),
            digits == (if t.len() > 0 && t[0] == '+' {
                t.drop_first()
            } else {
                t
            }),
            all_digits(s@.subrange(start as int, i as int)),
            value == digits_value(s@.subrange(start as int, i as int)),
        decreases hi - i,
    {
        let c = s[i];
        if !('0' <= c && c <= '9') {
            assert(digits[i - start] == c);
            assert(!all_digits(digits));
            return None;
        }
        let d = (c as u32 - '0' as u32) as usize;
        let ghost prefix = s@.subrange(start as int, i + 1);
        assert(prefix.drop_last() =~= s@.subrange(start as int, i as int));
        assert(all_digits(prefix));
        assert(digits_value(prefix) == value * 10 + d);
        let next = match value.checked_mul(10) {
            Some(m) => m.checked_add(d),
            None => None,
        };
        match next {
            Some(v) => {
                value = v;
            },
            None => {
                proof {
                    lemma_digits_value_monotone(digits, i + 1 - start);
                    assert(digits.take(i + 1 - start) =~= prefix);
                    assert(digits_value(digits) > usize::MAX);
                }
                return None;
            },
        }
        i = i + 1;
    }
    assert(digits =~= s@.subrange(start as int, i as int));
    Some(value)
}

/// A longer run of digits is worth at least as much as its prefix.
proof fn lemma_digits_value_monotone(d: Seq<char>, k: int)
    requires
        0 <= k <= d.len(),
    ensures
        digits_value(d.take(k)) <= digits_value(d),
    decreases d.len() - k,
{
    if k < d.len() {
        lemma_digits_value_monotone(d, k + 1);
        assert(d.take(k + 1).drop_last() =~= d.take(k));
        assert(digits_value(d.take(k)) <= digits_value(d.take(k + 1)));
    } else {
        assert(d.take(k) =~= d);
    }
}

} // verus!

verus! {

/// Applies one line, `s[start..end]`, of the configuration file to the pass count so far.
fn apply_line(s: &Vec<char>, start: usize, end: usize, cur: Option<usize>) -> (r: Option<usize>)
    requires
        start <= end <= s.len(),
    ensures
        r == (match passes_setting(s@.subrange(start as int, end as int)) {
            Some(v) => v,
            None => cur,
        }),
{
    let ghost line = s@.subrange(start as int, end as int);
    let (lo, hi) = trim_bounds(s, start, end);
    let ghost t = s@.subrange(lo as int, hi as int);
    if lo == hi || s[lo] == '#' {
        return cur;
    }
    let k = find_char(s, lo, hi, '=');
    if k == hi {
        return cur;
    }
    assert(t.take(k - lo) =~= s@.subrange(lo as int, k as int));
    assert(t.skip(k - lo + 1) =~= s@.subrange(k + 1, hi as int));
    let (klo, khi) = trim_bounds(s, lo, k);
    let word = chars_of("passes");
    if !range_equals(s, klo, khi, &word) {
        return cur;
    }
    let (vlo, vhi) = trim_bounds(s, k + 1, hi);
    match parse_usize_range(s, vlo, vhi) {
        Some(n) => if n > 0 {
            Some(n)
        } else {
            None
        },
        None => None,
    }
}

/// Reads the pass count out of the configuration file's contents.
///
/// Each line is trimmed; blank lines and lines that start with `#` are
/// skipped, as are lines without `=`. A line whose key, trimmed, is
/// `passes` sets the count to its trimmed value where that is a positive
/// whole number, and clears it otherwise. The last such line wins.
pub fn parse_config(contents: &str) -> (c: Config)
    ensures
        c.agent_passes == parsed_config(contents@),
{
    let s = chars_of(contents);
    let ghost all = s@;
    let mut passes: Option<usize> = None;
    let mut line_start: usize = 0;
    let mut i: usize = 0;
    proof {
        lemma_lines_ends(all, 0);
    }
    while i < s.len()
        invariant
            s@ == all,
            line_start <= i <= s.len(),
            passes_after(lines_after(all.skip(i as int), all.subrange(line_start as int, i as int)), passes)
                == parsed_config(all),
        decreases s.len() - i,
    {
        proof {
            lemma_lines_step(all, line_start as int, i as int);
        }
        if s[i] == '\n' {
            let ghost raw = all.subrange(line_start as int, i as int);
            let ghost rest = lines_after(all.skip(i + 1), all.subrange(i + 1, i + 1));
            proof {
                lemma_trim_strip_cr(raw);
                assert((seq![strip_cr(raw)] + rest).drop_first() =~= rest);
            }
            passes = apply_line(&s, line_start, i, passes);
            line_start = i + 1;
        }
        i = i + 1;
    }
    proof {
        lemma_lines_ends(all, line_start as int);
    }
    if line_start < s.len() {
        let ghost rest = Seq::<Seq<char>>::empty();
        let ghost last = all.subrange(line_start as int, all.len() as int);
        assert(seq![last].drop_first() =~= rest);
        let ghost before = passes;
        passes = apply_line(&s, line_start, s.len(), passes);
        assert(passes_after(seq![last], before) == passes_after(rest, passes));
        assert(passes_after(rest, passes) == passes);
    } else {
        assert(passes_after(Seq::<Seq<char>>::empty(), passes) == passes);
    }
    Config { agent_passes: passes }
}

} // verus!

verus! {

/// The outcome of reading the configuration file.
pub enum ReadOutcome {
    /// The file was read; these are its contents.
    Contents(String),
    /// There is no such file.
    NotFound,
    /// Reading failed for another reason, described here.
    Failed(String),
}

/// The text that saving a pass count writes to the configuration file.
pub open spec fn saved_contents(passes: nat) -> Seq<char> {
    "passes="@ + decimal(passes) + "\n"@
}

impl Config {
    /// The configuration, given the outcome of reading its file: the parsed
    /// contents, the default where the file does not exist, and the error
    /// where reading failed otherwise.
    pub fn load(read: ReadOutcome) -> (r: Result<Config, String>)
        ensures
            read matches ReadOutcome::Contents(c) ==> (r matches Ok(cfg) && cfg.agent_passes
                == parsed_config(c@)),
            read is NotFound ==> (r matches Ok(cfg) && cfg.agent_passes is None),
            read matches ReadOutcome::Failed(e) ==> (r matches Err(m) && m@ == e@),
    {
        match read {
            ReadOutcome::Contents(c) => Ok(parse_config(c.as_str())),
            ReadOutcome::NotFound => Ok(Config::default()),
            ReadOutcome::Failed(e) => Err(e),
        }
    }

    /// The text that saving `passes` as the agent's pass count writes to the
    /// configuration file.
    pub fn save_agent_passes(passes: usize) -> (s: String)
        ensures
            s@ == saved_contents(passes as nat),
    {
        let mut s = String::from_str("passes=");
        let n = decimal_string(passes as u64);
        s.append(n.as_str());
        s.append("\n");
        s
    }
}

/// A decimal digit's character is worth the digit.
proof fn lemma_digit_char_value(d: nat)
    requires
        d < 10,
    ensures
        (digit_char(d) as nat) - ('0' as nat) == d,
{
    assert(((('0' as nat) + d) as char) as nat == ('0' as nat) + d);
}

/// The value of the digits of a number's decimal notation is the number.
proof fn lemma_digits_value_decimal(n: nat)
    ensures
        digits_value(decimal(n)) == n,
    decreases n,
{
    if n >= 10 {
        lemma_digits_value_decimal(n / 10);
        assert(decimal(n).drop_last() =~= decimal(n / 10));
        lemma_digit_char_value((n % 10) as nat);
        assert(decimal(n).last() == digit_char((n % 10) as nat));
    } else {
        lemma_digit_char_value(n);
        assert(decimal(n).drop_last() =~= Seq::<char>::empty());
        assert(digits_value(Seq::<char>::empty()) == 0);
    }
}

/// What is saved is read back: a file written for a positive pass count
/// sets that count, and one written for zero sets none.
pub proof fn lemma_saved_passes_read_back(passes: usize)
    ensures
        parsed_config(saved_contents(passes as nat)) == (if passes > 0 {
            Some(passes)
        } else {
            None
        }),
{
    reveal_strlit("passes=");
    reveal_strlit("passes");
    reveal_strlit("\n");
    let d = decimal(passes as nat);
    lemma_decimal_digits(passes as nat);
    lemma_digits_value_decimal(passes as nat);
    let body = "passes="@ + d;
    assert(saved_contents(passes as nat) =~= body.push('\n'));
    assert forall|i: int| 0 <= i < body.len() implies body[i] != '\n' by {
        if i >= 7 {
            assert(body[i] == d[i - 7]);
        }
    }
    lemma_lines_one(body, seq![]);
    assert(Seq::<char>::empty() + body =~= body);
    let line = body;
    assert(strip_cr(line) == line) by {
        assert(line.last() == d[d.len() - 1]);
    }
    assert(trim_end(line) == line) by {
        assert(line.last() == d[d.len() - 1]);
    }
    assert(trim(line) == line);
    lemma_first_index(line, '=', 6);
    assert(line.take(6) =~= "passes"@);
    assert(trim_end(line.take(6)) == line.take(6));
    assert(trim(line.take(6)) == "passes"@);
    assert(line.skip(7) =~= d);
    assert(trim_end(d) == d) by {
        assert(d.last() == d[d.len() - 1]);
    }
    assert(trim(d) == d);
    assert(d[0] != '+');
    assert(all_digits(d));
    let ls = seq![line];
    assert(ls.drop_first() =~= Seq::<Seq<char>>::empty());
    assert(lines(saved_contents(passes as nat)) == ls);
    assert(parse_usize(d) == Some(passes));
    assert(line[0] == 'p');
    let step: Option<usize> = if passes > 0 {
        Some(passes)
    } else {
        None
    };
    assert(passes_setting(line) == Some(step));
    assert(passes_after(Seq::<Seq<char>>::empty(), step) == step);
}

} // verus!

verus! {

/// The environment variable that holds the user's data root on a platform.
pub open spec fn root_variable(platform: Platform) -> Seq<char> {
    match platform {
        Platform::Windows => "APPDATA"@,
        _ => "HOME"@,
    }
}

/// The message given when the data root's variable is not set.
pub open spec fn unset_message(platform: Platform) -> Seq<char> {
    root_variable(platform) + " is not set"@
}

/// The name of the variable that holds the user's data root.
pub fn root_variable_name(platform: Platform) -> (s: &'static str)
    ensures
        s@ == root_variable(platform),
{
    match platform {
        Platform::Windows => "APPDATA",
        _ => "HOME",
    }
}

/// The error for a data root whose variable is not set.
pub fn unset_error(platform: Platform) -> (s: String)
    ensures
        s@ == unset_message(platform),
{
    let mut s = String::from_str(root_variable_name(platform));
    s.append(" is not set");
    s
}

/// Where SuDel keeps its data below the user's root directory.
pub open spec fn data_dir(platform: Platform, root: Seq<Component>) -> Seq<Component> {
    match platform {
        Platform::Windows => root.push(named("SuDel"@)),
        Platform::MacOs => root.push(named("Library"@)).push(
            named("Application Support"@),
        ).push(named("SuDel"@)),
        Platform::Other => root.push(named(".config"@)).push(
            named("SuDel"@),
        ),
    }
}

/// SuDel's data directory, given the value of the root variable
/// (`APPDATA` on Windows, `HOME` elsewhere) where it is set.
pub fn data_root(platform: Platform, root: Option<LocalPath>) -> (r: Result<LocalPath, String>)
    ensures
        root matches Some(p) ==> (r matches Ok(d) && d@ == data_dir(platform, p@)),
        root is None ==> (r matches Err(m) && m@ == unset_message(platform)),
{
    match root {
        None => Err(unset_error(platform)),
        Some(p) => match platform {
            Platform::Windows => Ok(p.join("SuDel")),
            Platform::MacOs => Ok(p.join("Library").join("Application Support").join("SuDel")),
            Platform::Other => Ok(p.join(".config").join("SuDel")),
        },
    }
}

/// The configuration file below SuDel's data directory.
pub fn config_path(platform: Platform, root: Option<LocalPath>) -> (r: Result<LocalPath, String>)
    ensures
        root matches Some(p) ==> (r matches Ok(c) && c@ == data_dir(platform, p@).push(
            named("config"@),
        ).push(named("sudel.conf"@))),
        root is None ==> (r matches Err(m) && m@ == unset_message(platform)),
{
    let base = data_root(platform, root)?;
    Ok(base.join("config").join("sudel.conf"))
}

} // verus!
