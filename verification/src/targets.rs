//! Which targets a run deletes: duplicates dropped, protected paths refused.

use vstd::prelude::*;
use vstd::string::StringExecFns;

use crate::paths::{is_prefix, parent_of, Component, LocalPath};

verus! {

/// A path to delete, with the text it is shown as.
#[derive(Debug)]
pub struct Target {
    pub path: LocalPath,
    pub display: String,
}

/// A target as a value: its components and its shown text.
pub type TargetView = (Seq<Component>, Seq<char>);

impl View for Target {
    type V = TargetView;

    open spec fn view(&self) -> TargetView {
        (self.path@, self.display@)
    }
}

impl Target {
    /// A copy of the target.
    pub fn duplicate(&self) -> (r: Target)
        ensures
            r@ == self@,
    {
        Target { path: self.path.duplicate(), display: self.display.clone() }
    }
}

/// The views of a list of targets.
pub open spec fn targets_view(ts: Seq<Target>) -> Seq<TargetView> {
    ts.map_values(|t: Target| t@)
}

/// Some entry of `d` has path `p`.
pub open spec fn has_path(d: Seq<TargetView>, p: Seq<Component>) -> bool {
    exists|j: int| 0 <= j < d.len() && (#[trigger] d[j]).0 == p
}

/// The targets with every later repetition of a path dropped, in their order.
pub open spec fn dedupe(s: Seq<TargetView>) -> Seq<TargetView>
    decreases s.len(),
{
    if s.len() == 0 {
        seq![]
    } else {
        let d = dedupe(s.drop_last());
        if has_path(d, s.last().0) {
            d
        } else {
            d.push(s.last())
        }
    }
}

/// Tests whether some target in `d` has the path `p`.
fn contains_path(d: &Vec<Target>, p: &LocalPath) -> (r: bool)
    ensures
        r == has_path(targets_view(d@), p@),
{
    let mut j: usize = 0;
    while j < d.len()
        invariant
            j <= d.len(),
            forall|k: int| 0 <= k < j ==> (#[trigger] d@[k]).path@ != p@,
        decreases d.len() - j,
    {
        if d[j].path.same_as(p) {
            assert(targets_view(d@)[j as int].0 == p@);
            return true;
        }
        j = j + 1;
    }
    assert forall|k: int| 0 <= k < targets_view(d@).len() implies (#[trigger] targets_view(
        d@,
    )[k]).0 != p@ by {
        assert(targets_view(d@)[k] == d@[k]@);
    }
    false
}

/// Drops every target whose path came earlier, keeping the first of each.
pub fn dedupe_targets(targets: Vec<Target>) -> (r: Vec<Target>)
    ensures
        targets_view(r@) == dedupe(targets_view(targets@)),
{
    let mut out: Vec<Target> = Vec::new();
    let mut i: usize = 0;
    while i < targets.len()
        invariant
            i <= targets.len(),
            targets_view(out@) == dedupe(targets_view(targets@).take(i as int)),
        decreases targets.len() - i,
    {
        let ghost s = targets_view(targets@).take(i + 1);
        assert(s.drop_last() =~= targets_view(targets@).take(i as int));
        assert(s.last() == targets@[i as int]@);
        if !contains_path(&out, &targets[i].path) {
            let t = targets[i].duplicate();
            out.push(t);
            assert(targets_view(out@) =~= dedupe(targets_view(targets@).take(i as int)).push(
                s.last(),
            ));
        }
        i = i + 1;
    }
    assert(targets_view(targets@).take(i as int) =~= targets_view(targets@));
    out
}

/// The first path is the second, lies below it, or holds it.
pub open spec fn nested(target: Seq<Component>, protected: Seq<Component>) -> bool {
    target == protected || is_prefix(protected, target) || is_prefix(target, protected)
}

/// Tests whether deleting `target` would touch `protected`, or
/// `protected`'s removal would remove `target`.
pub fn same_or_nested(target: &LocalPath, protected: &LocalPath) -> (r: bool)
    ensures
        r == nested(target@, protected@),
{
    if target.same_as(protected) {
        return true;
    }
    target.starts_with(protected) || protected.starts_with(target)
}

/// The protected thing that a target would touch.
#[derive(Debug, Clone, Copy, PartialEq, Eq, Structural)]
pub enum Protected {
    /// The running executable.
    Executable,
    /// The directory that holds the running executable.
    AppDirectory,
    /// The activity log.
    LogFile,
}

/// What a target touches, tested in this order: the executable, its
/// directory, the log file.
pub open spec fn protection(
    target: Seq<Component>,
    exe: Option<Seq<Component>>,
    log: Seq<Component>,
) -> Option<Protected> {
    if exe matches Some(e) && nested(target, e) {
        Some(Protected::Executable)
    } else if exe matches Some(e) && parent_of(e) matches Some(dir) && nested(target, dir) {
        Some(Protected::AppDirectory)
    } else if nested(target, log) {
        Some(Protected::LogFile)
    } else {
        None
    }
}

/// The error text for refusing a target shown as `display`.
pub open spec fn refusal_message(kind: Protected, display: Seq<char>) -> Seq<char> {
    match kind {
        Protected::Executable => "refusing to delete SuDel executable: "@ + display,
        Protected::AppDirectory => "refusing to delete SuDel app directory: "@ + display,
        Protected::LogFile => "refusing to delete SuDel log file: "@ + display,
    }
}

/// The log message written on refusing a target, where one is written.
pub open spec fn refusal_log(kind: Protected, display: Seq<char>) -> Option<Seq<char>> {
    match kind {
        Protected::Executable => Some("SAFE blocked self-delete target: "@ + display),
        Protected::AppDirectory => Some("SAFE blocked protected app directory target: "@ + display),
        Protected::LogFile => None,
    }
}

/// Why a run refused its targets.
#[derive(Debug)]
pub struct Rejection {
    pub kind: Protected,
    /// The error to report.
    pub message: String,
    /// The message to append to the log first, where there is one.
    pub log_message: Option<String>,
}

/// The refusal of a target.
fn refuse(kind: Protected, display: &String) -> (r: Rejection)
    ensures
        r.kind == kind,
        r.message@ == refusal_message(kind, display@),
        r.log_message matches Some(m) ==> refusal_log(kind, display@) == Some(m@),
        r.log_message is None ==> refusal_log(kind, display@) is None,
{
    match kind {
        Protected::Executable => {
            let mut m = String::from_str("refusing to delete SuDel executable: ");
            m.append(display.as_str());
            let mut l = String::from_str("SAFE blocked self-delete target: ");
            l.append(display.as_str());
            Rejection { kind, message: m, log_message: Some(l) }
        },
        Protected::AppDirectory => {
            let mut m = String::from_str("refusing to delete SuDel app directory: ");
            m.append(display.as_str());
            let mut l = String::from_str("SAFE blocked protected app directory target: ");
            l.append(display.as_str());
            Rejection { kind, message: m, log_message: Some(l) }
        },
        Protected::LogFile => {
            let mut m = String::from_str("refusing to delete SuDel log file: ");
            m.append(display.as_str());
            Rejection { kind, message: m, log_message: None }
        },
    }
}

/// The view of an optional path.
pub open spec fn opt_view(p: Option<LocalPath>) -> Option<Seq<Component>> {
    match p {
        Some(q) => Some(q@),
        None => None,
    }
}

/// Refuses the targets when one of them is, holds or lies in the running
/// executable (`exe`, where known), its directory or the log file; the
/// first such target, in order, is reported.
pub fn reject_protected_targets(
    targets: &Vec<Target>,
    exe: &Option<LocalPath>,
    log_path: &LocalPath,
) -> (r: Result<(), Rejection>)
    ensures
        r is Ok <==> forall|i: int|
            0 <= i < targets.len() ==> protection(
                #[trigger] targets@[i].path@,
                opt_view(*exe),
                log_path@,
            ) is None,
        r matches Err(e) ==> exists|i: int|
            0 <= i < targets.len() && protection(targets@[i].path@, opt_view(*exe), log_path@)
                == Some(e.kind) && (forall|j: int|
                0 <= j < i ==> protection(
                    #[trigger] targets@[j].path@,
                    opt_view(*exe),
                    log_path@,
                ) is None) && e.message@ == refusal_message(e.kind, targets@[i].display@) && (
            e.log_message matches Some(m) ==> refusal_log(e.kind, targets@[i].display@) == Some(
                m@,
            )) && (e.log_message is None ==> refusal_log(e.kind, targets@[i].display@) is None),
{
    let exe_dir: Option<LocalPath> = match exe {
        Some(e) => e.parent(),
        None => None,
    };
    let mut i: usize = 0;
    while i < targets.len()
        invariant
            i <= targets.len(),
            exe matches Some(e) ==> opt_view(exe_dir) == parent_of(e@),
            exe is None ==> exe_dir is None,
            forall|j: int|
                0 <= j < i ==> protection(
                    #[trigger] targets@[j].path@,
                    opt_view(*exe),
                    log_path@,
                ) is None,
        decreases targets.len() - i,
    {
        let t = &targets[i];
        if let Some(e) = exe {
            if same_or_nested(&t.path, e) {
                return Err(refuse(Protected::Executable, &t.display));
            }
        }
        if let Some(d) = &exe_dir {
            if same_or_nested(&t.path, d) {
                return Err(refuse(Protected::AppDirectory, &t.display));
            }
        }
        if same_or_nested(&t.path, log_path) {
            return Err(refuse(Protected::LogFile, &t.display));
        }
        i = i + 1;
    }
    Ok(())
}

} // verus!

verus! {

/// No path occurs twice among the targets that remain after deduplication.
pub proof fn lemma_dedupe_distinct(s: Seq<TargetView>)
    ensures
        forall|i: int, j: int|
            0 <= i < j < dedupe(s).len() ==> (#[trigger] dedupe(s)[i]).0 != (#[trigger] dedupe(
                s,
            )[j]).0,
    decreases s.len(),
{
    if s.len() > 0 {
        lemma_dedupe_distinct(s.drop_last());
        let d = dedupe(s.drop_last());
        if !has_path(d, s.last().0) {
            assert forall|i: int, j: int|
                0 <= i < j < dedupe(s).len() implies (#[trigger] dedupe(s)[i]).0 != (
            #[trigger] dedupe(s)[j]).0 by {
                if j == d.len() {
                    assert(dedupe(s)[i] == d[i]);
                } else {
                    assert(dedupe(s)[i] == d[i]);
                    assert(dedupe(s)[j] == d[j]);
                }
            }
        }
    }
}

/// Deduplication loses no path, and every entry it keeps is the first
/// target with that path, in the order of the input.
pub proof fn lemma_dedupe_first_occurrences(s: Seq<TargetView>)
    ensures
        forall|i: int| 0 <= i < s.len() ==> has_path(dedupe(s), #[trigger] s[i].0),
        forall|k: int|
            0 <= k < dedupe(s).len() ==> exists|i: int|
                0 <= i < s.len() && #[trigger] dedupe(s)[k] == s[i] && (forall|j: int|
                    0 <= j < i ==> s[j].0 != s[i].0),
    decreases s.len(),
{
    if s.len() > 0 {
        let p = s.drop_last();
        lemma_dedupe_first_occurrences(p);
        let d = dedupe(p);
        assert forall|i: int| 0 <= i < s.len() implies has_path(dedupe(s), #[trigger] s[i].0) by {
            if i < p.len() {
                assert(s[i] == p[i]);
                assert(has_path(d, p[i].0));
                let w = choose|w: int| 0 <= w < d.len() && (#[trigger] d[w]).0 == p[i].0;
                assert(dedupe(s)[w] == d[w]);
            } else if has_path(d, s.last().0) {
            } else {
                assert(dedupe(s)[d.len() as int] == s.last());
            }
        }
        assert forall|k: int| 0 <= k < dedupe(s).len() implies exists|i: int|
            0 <= i < s.len() && #[trigger] dedupe(s)[k] == s[i] && (forall|j: int|
                0 <= j < i ==> s[j].0 != s[i].0) by {
            if k < d.len() {
                assert(dedupe(s)[k] == d[k]);
                let i = choose|i: int|
                    0 <= i < p.len() && #[trigger] d[k] == p[i] && (forall|j: int|
                        0 <= j < i ==> p[j].0 != p[i].0);
                assert(s[i] == p[i]);
                assert forall|j: int| 0 <= j < i implies s[j].0 != s[i].0 by {
                    assert(s[j] == p[j]);
                }
            } else {
                let i = s.len() - 1;
                assert(dedupe(s)[k] == s[i]);
                assert forall|j: int| 0 <= j < i implies s[j].0 != s[i].0 by {
                    assert(s[j] == p[j]);
                    if s[j].0 == s[i].0 {
                        assert(has_path(d, p[j].0));
                    }
                }
            }
        }
    }
}

/// Targets whose paths are already distinct are left as they are.
pub proof fn lemma_dedupe_of_distinct(s: Seq<TargetView>)
    requires
        forall|i: int, j: int| 0 <= i < j < s.len() ==> (#[trigger] s[i]).0 != (#[trigger] s[j]).0,
    ensures
        dedupe(s) == s,
    decreases s.len(),
{
    if s.len() > 0 {
        let p = s.drop_last();
        assert forall|i: int, j: int| 0 <= i < j < p.len() implies (#[trigger] p[i]).0 != (
        #[trigger] p[j]).0 by {
            assert(p[i] == s[i]);
            assert(p[j] == s[j]);
        }
        lemma_dedupe_of_distinct(p);
        if has_path(p, s.last().0) {
            let w = choose|w: int| 0 <= w < p.len() && (#[trigger] p[w]).0 == s.last().0;
            assert(s[w] == p[w]);
            assert(false);
        }
        assert(p.push(s.last()) =~= s);
    }
}

/// Deduplicating twice gives what deduplicating once gives.
pub proof fn lemma_dedupe_idempotent(s: Seq<TargetView>)
    ensures
        dedupe(dedupe(s)) == dedupe(s),
{
    lemma_dedupe_distinct(s);
    lemma_dedupe_of_distinct(dedupe(s));
}

} // verus!

verus! {

/// The next move in a deletion run once its targets are known.
#[derive(Debug)]
pub enum DeleteStep {
    /// Delete nothing: a target is protected; log the message where there is one and fail.
    Refuse(Rejection),
    /// Shred these targets, in this order.
    Shred(Vec<Target>),
}

/// Plans a deletion run: repeated paths are dropped, keeping the first of
/// each; then, if any remaining target is protected, the run is refused
/// and nothing is deleted; otherwise exactly the deduplicated targets are
/// shredded, in order.
pub fn plan_deletion(targets: Vec<Target>, exe: &Option<LocalPath>, log_path: &LocalPath) -> (r:
    DeleteStep)
    ensures
        ({
            let d = dedupe(targets_view(targets@));
            &&& r is Refuse <==> exists|i: int|
                0 <= i < d.len() && (#[trigger] protection(d[i].0, opt_view(*exe), log_path@))
                    is Some
            &&& r matches DeleteStep::Shred(ts) ==> targets_view(ts@) == d
            &&& r matches DeleteStep::Refuse(e) ==> exists|i: int|
                0 <= i < d.len() && protection(d[i].0, opt_view(*exe), log_path@) == Some(e.kind)
                    && (forall|j: int|
                    0 <= j < i ==> protection(
                        #[trigger] d[j].0,
                        opt_view(*exe),
                        log_path@,
                    ) is None) && e.message@ == refusal_message(e.kind, d[i].1) && (
                e.log_message matches Some(m) ==> refusal_log(e.kind, d[i].1) == Some(m@)) && (
                e.log_message is None ==> refusal_log(e.kind, d[i].1) is None)
        }),
{
    let deduped = dedupe_targets(targets);
    let ghost d = targets_view(deduped@);
    assert forall|i: int| 0 <= i < deduped@.len() implies #[trigger] deduped@[i].path@ == d[i].0
        && deduped@[i].display@ == d[i].1 by {}
    match reject_protected_targets(&deduped, exe, log_path) {
        Ok(()) => {
            assert forall|i: int| 0 <= i < d.len() implies !(#[trigger] protection(
                d[i].0,
                opt_view(*exe),
                log_path@,
            ) is Some) by {
                assert(deduped@[i].path@ == d[i].0);
            }
            DeleteStep::Shred(deduped)
        },
        Err(e) => {
            let ghost i = choose|i: int|
                0 <= i < deduped.len() && protection(deduped@[i].path@, opt_view(*exe), log_path@)
                    == Some(e.kind) && (forall|j: int|
                    0 <= j < i ==> protection(
                        #[trigger] deduped@[j].path@,
                        opt_view(*exe),
                        log_path@,
                    ) is None) && e.message@ == refusal_message(
                    e.kind,
                    deduped@[i].display@,
                ) && (e.log_message matches Some(m) ==> refusal_log(
                    e.kind,
                    deduped@[i].display@,
                ) == Some(m@)) && (e.log_message is None ==> refusal_log(
                    e.kind,
                    deduped@[i].display@,
                ) is None);
            assert(deduped@[i].path@ == d[i].0);
            assert forall|j: int| 0 <= j < i implies protection(
                #[trigger] d[j].0,
                opt_view(*exe),
                log_path@,
            ) is None by {
                assert(deduped@[j].path@ == d[j].0);
            }
            DeleteStep::Refuse(e)
        },
    }
}

/// The targets kept by deduplication are the first of each path, in the
/// order of the input: the returned indices pick them out of the input,
/// rise strictly, and each is the first index with its path.
pub proof fn lemma_dedupe_order(s: Seq<TargetView>) -> (idx: Seq<int>)
    ensures
        idx.len() == dedupe(s).len(),
        forall|k: int|
            0 <= k < idx.len() ==> 0 <= #[trigger] idx[k] < s.len() && dedupe(s)[k] == s[idx[k]]
                && (forall|j: int| 0 <= j < idx[k] ==> (#[trigger] s[j]).0 != s[idx[k]].0),
        forall|k1: int, k2: int| 0 <= k1 < k2 < idx.len() ==> #[trigger] idx[k1] < #[trigger] idx[k2],
    decreases s.len(),
{
    if s.len() == 0 {
        Seq::<int>::empty()
    } else {
        let p = s.drop_last();
        let pi = lemma_dedupe_order(p);
        lemma_dedupe_first_occurrences(p);
        let d = dedupe(p);
        let n = s.len() - 1;
        if has_path(d, s.last().0) {
            assert forall|k: int| 0 <= k < pi.len() implies 0 <= #[trigger] pi[k] < s.len()
                && dedupe(s)[k] == s[pi[k]] && (forall|j: int| 0 <= j < pi[k] ==> (#[trigger] s[j]).0 != s[pi[k]].0) by {
                assert(s[pi[k]] == p[pi[k]]);
                assert forall|j: int| 0 <= j < pi[k] implies (#[trigger] s[j]).0 != s[pi[k]].0 by {
                    assert(s[j] == p[j]);
                }
            }
            pi
        } else {
            let idx = pi.push(n);
            assert forall|k: int| 0 <= k < idx.len() implies 0 <= #[trigger] idx[k] < s.len()
                && dedupe(s)[k] == s[idx[k]] && (forall|j: int| 0 <= j < idx[k] ==> (#[trigger] s[j]).0 != s[idx[k]].0) by {
                if k < pi.len() {
                    assert(idx[k] == pi[k]);
                    assert(s[pi[k]] == p[pi[k]]);
                    assert(dedupe(s)[k] == d[k]);
                    assert forall|j: int| 0 <= j < pi[k] implies (#[trigger] s[j]).0 != s[pi[k]].0 by {
                        assert(s[j] == p[j]);
                    }
                } else {
                    assert(idx[k] == n);
                    assert(dedupe(s)[k] == s.last());
                    assert forall|j: int| 0 <= j < n implies (#[trigger] s[j]).0 != s[n].0 by {
                        assert(s[j] == p[j]);
                        assert(has_path(d, p[j].0));
                    }
                }
            }
            assert forall|k1: int, k2: int| 0 <= k1 < k2 < idx.len() implies #[trigger] idx[k1]
                < #[trigger] idx[k2] by {
                if k2 < pi.len() {
                    assert(idx[k1] == pi[k1] && idx[k2] == pi[k2]);
                } else {
                    assert(idx[k1] == pi[k1]);
                }
            }
            idx
        }
    }
}

} // verus!

verus! {

/// A protected path is always refused: a target that is, lies under or
/// holds the executable, its directory or the log file has a protection,
/// and one that touches the log file but neither of the others is refused
/// as the log file. A target that touches none of them is let through.
pub proof fn lemma_protected_paths_refused(
    t: Seq<Component>,
    exe: Option<Seq<Component>>,
    log: Seq<Component>,
)
    ensures
        (t == log || is_prefix(log, t) || is_prefix(t, log)) ==> protection(t, exe, log) is Some,
        exe matches Some(e) ==> ((t == e || is_prefix(e, t) || is_prefix(t, e)) ==> protection(
            t,
            exe,
            log,
        ) == Some(Protected::Executable)),
        exe matches Some(e) ==> (parent_of(e) matches Some(d) ==> ((t == d || is_prefix(d, t)
            || is_prefix(t, d)) ==> protection(t, exe, log) is Some)),
        exe matches Some(e) ==> (parent_of(e) matches Some(d) ==> ((t == d || is_prefix(d, t)
            || is_prefix(t, d)) && !(t == e || is_prefix(e, t) || is_prefix(t, e)) ==> protection(
            t,
            exe,
            log,
        ) == Some(Protected::AppDirectory))),
        (t == log && (exe matches Some(e) ==> !(t == e || is_prefix(e, t) || is_prefix(t, e)) && (
        parent_of(e) matches Some(d) ==> !(t == d || is_prefix(d, t) || is_prefix(t, d)))))
            ==> protection(t, exe, log) == Some(Protected::LogFile),
        protection(t, exe, log) is None ==> !(t == log || is_prefix(log, t) || is_prefix(t, log))
            && (exe matches Some(e) ==> !(t == e || is_prefix(e, t) || is_prefix(t, e)) && (
        parent_of(e) matches Some(d) ==> !(t == d || is_prefix(d, t) || is_prefix(t, d)))),
{
}

/// A run that names a protected path deletes nothing: where any target is
/// the log file, or is, holds or lies in the executable or its directory,
/// the planned step refuses the run.
pub proof fn lemma_run_with_protected_target_refused(
    targets: Seq<TargetView>,
    exe: Option<Seq<Component>>,
    log: Seq<Component>,
    i: int,
)
    requires
        0 <= i < targets.len(),
        targets[i].0 == log || is_prefix(log, targets[i].0) || is_prefix(targets[i].0, log) || (
        exe matches Some(e) && (targets[i].0 == e || is_prefix(e, targets[i].0) || is_prefix(
            targets[i].0,
            e,
        ))),
    ensures
        exists|k: int|
            0 <= k < dedupe(targets).len() && (#[trigger] protection(
                dedupe(targets)[k].0,
                exe,
                log,
            )) is Some,
{
    lemma_dedupe_first_occurrences(targets);
    let d = dedupe(targets);
    assert(has_path(d, targets[i].0));
    let k = choose|k: int| 0 <= k < d.len() && (#[trigger] d[k]).0 == targets[i].0;
    lemma_protected_paths_refused(d[k].0, exe, log);
}

} // verus!
