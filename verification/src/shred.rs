//! Overwriting and deleting: what is done to each target, in what order, and
//! what is reported.

use vstd::prelude::*;
use vstd::string::StringExecFns;

use rand::RngCore;

use crate::paths::{parent_of, LocalPath};
use crate::text::{decimal, decimal_string, digit_char, digit_of};

verus! {

/// How a deletion run works.
#[derive(Debug)]
pub struct ShredOptions {
    /// How many times each file is overwritten before it is removed.
    pub passes: usize,
    /// Directories may be deleted, with everything in them.
    pub recursive: bool,
    /// No progress is reported.
    pub quiet: bool,
    /// Where outcomes are logged.
    pub log_path: LocalPath,
}

/// The number of bytes overwritten at a time.
pub const CHUNK_SIZE: usize = 1048576;

/// The sizes of the writes that overwrite `remaining` bytes, in order.
pub open spec fn chunks(remaining: nat) -> Seq<nat>
    decreases remaining,
{
    if remaining == 0 {
        seq![]
    } else if remaining <= CHUNK_SIZE {
        seq![remaining]
    } else {
        seq![CHUNK_SIZE as nat] + chunks((remaining - CHUNK_SIZE) as nat)
    }
}

/// The sum of a list of sizes.
pub open spec fn total(s: Seq<nat>) -> nat
    decreases s.len(),
{
    if s.len() == 0 {
        0
    } else {
        s[0] + total(s.drop_first())
    }
}

/// The writes of one overwrite pass cover the file exactly: they add up to
/// its size, none is empty or larger than a chunk, and there are as many as
/// whole or partial chunks fit in the file.
pub proof fn lemma_chunks_cover(size: nat)
    ensures
        total(chunks(size)) == size,
        forall|i: int| 0 <= i < chunks(size).len() ==> 0 < #[trigger] chunks(size)[i] <= CHUNK_SIZE,
        chunks(size).len() == (size + CHUNK_SIZE - 1) / (CHUNK_SIZE as int),
    decreases size,
{
    if size > CHUNK_SIZE {
        let rest = (size - CHUNK_SIZE) as nat;
        lemma_chunks_cover(rest);
        let c = chunks(size);
        assert(c.drop_first() =~= chunks(rest));
        assert(total(c) == CHUNK_SIZE + total(chunks(rest)));
        assert forall|i: int| 0 <= i < c.len() implies 0 < #[trigger] c[i] <= CHUNK_SIZE by {
            if i > 0 {
                assert(c[i] == chunks(rest)[i - 1]);
            }
        }
    } else if size > 0 {
        assert(chunks(size).drop_first() =~= Seq::<nat>::empty());
        assert(total(Seq::<nat>::empty()) == 0);
        assert(total(chunks(size)) == size + total(Seq::<nat>::empty()));
    }
}

/// The progress of one overwrite pass over a file.
#[derive(Debug)]
pub struct Overwrite {
    remaining: u64,
}

impl Overwrite {
    /// The bytes still to be overwritten.
    pub closed spec fn left(&self) -> nat {
        self.remaining as nat
    }

    /// A pass over a file of `size` bytes.
    pub fn new(size: u64) -> (o: Overwrite)
        ensures
            o.left() == size,
    {
        Overwrite { remaining: size }
    }

    /// Takes the next write: the bytes left, up to one chunk; none once the
    /// whole file is covered.
    pub fn next_chunk(&mut self) -> (r: Option<usize>)
        ensures
            old(self).left() == 0 <==> r is None,
            r is None ==> final(self).left() == 0,
            r matches Some(c) ==> 0 < c <= CHUNK_SIZE,
            r matches Some(c) ==> chunks(old(self).left()) == seq![c as nat] + chunks(
                final(self).left(),
            ) && final(self).left() == old(self).left() - c,
    {
        if self.remaining == 0 {
            return None;
        }
        let c: usize = if self.remaining <= CHUNK_SIZE as u64 {
            self.remaining as usize
        } else {
            CHUNK_SIZE
        };
        let ghost before = self.remaining as nat;
        self.remaining = self.remaining - c as u64;
        proof {
            if before <= CHUNK_SIZE {
                assert(chunks(0) == Seq::<nat>::empty());
                assert(seq![c as nat] + Seq::<nat>::empty() =~= seq![c as nat]);
            }
        }
        Some(c)
    }

    /// Takes the next write, as [`Overwrite::next_chunk`] does, and fills the
    /// first that many bytes of `buffer` with random data.
    pub fn next_random_chunk(&mut self, buffer: &mut Vec<u8>) -> (r: Option<Result<usize, String>>)
        requires
            old(buffer).len() >= CHUNK_SIZE,
        ensures
            final(buffer).len() == old(buffer).len(),
            old(self).left() == 0 <==> r is None,
            r is None ==> final(self).left() == 0,
            r is Some ==> chunks(old(self).left()).len() > 0 && chunks(old(self).left()).drop_first()
                == chunks(final(self).left()),
            r matches Some(Ok(c)) ==> chunks(old(self).left())[0] == c && final(self).left() == old(
                self,
            ).left() - c,
    {
        match self.next_chunk() {
            None => None,
            Some(c) => {
                proof {
                    assert((seq![c as nat] + chunks(self.left())).drop_first() =~= chunks(
                        self.left(),
                    ));
                }
                match fill_random(buffer, c) {
                    Ok(()) => Some(Ok(c)),
                    Err(e) => Some(Err(e)),
                }
            },
        }
    }
}

/// A zeroed buffer of one chunk.
pub fn chunk_buffer() -> (b: Vec<u8>)
    ensures
        b.len() == CHUNK_SIZE,
        forall|i: int| 0 <= i < CHUNK_SIZE ==> b@[i] == 0,
{
    vec![0u8; CHUNK_SIZE]
}

/// Fills the first `len` bytes of `buffer` with random data from the
/// operating system.
///
/// Calls `rand::rngs::OsRng`'s `try_fill_bytes` on `buffer[..len]`. Claims:
/// the buffer keeps its length and the bytes after `len`. The bytes written
/// are not stated: they come from the operating system's random source.
#[verifier::external_body]
fn fill_random(buffer: &mut Vec<u8>, len: usize) -> (r: Result<(), String>)
    requires
        len <= old(buffer).len(),
    ensures
        final(buffer).len() == old(buffer).len(),
        final(buffer)@.skip(len as int) == old(buffer)@.skip(len as int),
{
    match rand::rngs::OsRng.try_fill_bytes(&mut buffer[..len]) {
        Ok(()) => Ok(()),
        Err(e) => Err(e.to_string()),
    }
}

/// Lower-case hexadecimal notation of bytes, two digits per byte.
pub open spec fn hex_of(bytes: Seq<u8>) -> Seq<char>
    decreases bytes.len(),
{
    if bytes.len() == 0 {
        seq![]
    } else {
        hex_of(bytes.drop_last()) + seq![
            digit_char((bytes.last() / 16) as nat),
            digit_char((bytes.last() % 16) as nat),
        ]
    }
}

/// Writes bytes in lower-case hexadecimal, two digits per byte.
pub fn hex_name(bytes: &[u8]) -> (s: String)
    ensures
        s@ == hex_of(bytes@),
{
    let mut out: Vec<char> = Vec::new();
    let mut i: usize = 0;
    while i < bytes.len()
        invariant
            i <= bytes@.len(),
            out@ == hex_of(bytes@.take(i as int)),
        decreases bytes@.len() - i,
    {
        let b = bytes[i];
        assert(b >> 4 == b / 16 && b & 15 == b % 16) by (bit_vector);
        out.push(digit_of(b >> 4));
        out.push(digit_of(b & 15));
        assert(bytes@.take(i + 1).drop_last() =~= bytes@.take(i as int));
        assert(out@ =~= hex_of(bytes@.take(i + 1)));
        i = i + 1;
    }
    assert(bytes@.take(i as int) =~= bytes@);
    crate::text::string_of(out.as_slice())
}

/// Hexadecimal notation has two lower-case hexadecimal digits per byte, so
/// it is a plain file name: no separator, no dot.
pub proof fn lemma_hex_name_shape(bytes: Seq<u8>)
    ensures
        hex_of(bytes).len() == 2 * bytes.len(),
        forall|i: int|
            0 <= i < hex_of(bytes).len() ==> ('0' <= #[trigger] hex_of(bytes)[i] <= '9') || ('a'
                <= hex_of(bytes)[i] <= 'f'),
    decreases bytes.len(),
{
    if bytes.len() > 0 {
        let p = bytes.drop_last();
        lemma_hex_name_shape(p);
        let h = hex_of(bytes);
        assert forall|i: int| 0 <= i < h.len() implies ('0' <= #[trigger] h[i] <= '9') || ('a'
            <= h[i] <= 'f') by {
            if i < hex_of(p).len() {
                assert(h[i] == hex_of(p)[i]);
            } else {
                let hi = (bytes.last() / 16) as nat;
                let lo = (bytes.last() % 16) as nat;
                assert(((('0' as nat) + hi) as char) as nat == ('0' as nat) + hi);
                assert(((('a' as nat) + (hi - 10)) as char) as nat == ('a' as nat) + (hi - 10));
                assert(((('0' as nat) + lo) as char) as nat == ('0' as nat) + lo);
                assert(((('a' as nat) + (lo - 10)) as char) as nat == ('a' as nat) + (lo - 10));
            }
        }
    }
}

} // verus!

verus! {

/// How many random names are tried before renaming gives up.
pub const NAME_ATTEMPTS: usize = 16;

/// How many random bytes make a temporary name.
pub const NAME_BYTES: usize = 12;

/// The search for a free temporary name beside a file that is about to be removed.
#[derive(Debug)]
pub struct NameSearch {
    tried: usize,
}

/// `name` is a temporary name: lower-case hexadecimal, two digits for each random byte.
pub open spec fn is_temp_name(name: Seq<char>) -> bool {
    exists|bytes: Seq<u8>| bytes.len() == NAME_BYTES && name == hex_of(bytes)
}

impl NameSearch {
    /// The candidates given so far.
    pub closed spec fn attempts(&self) -> nat {
        self.tried as nat
    }

    /// A search that has tried nothing yet.
    pub fn new() -> (s: NameSearch)
        ensures
            s.attempts() == 0,
    {
        NameSearch { tried: 0 }
    }

    /// The next candidate below `parent`: a fresh random temporary name while
    /// fewer than [`NAME_ATTEMPTS`] were given; none after that.
    pub fn next_candidate(&mut self, parent: &LocalPath) -> (r: Option<Result<LocalPath, String>>)
        requires
            old(self).attempts() <= NAME_ATTEMPTS,
        ensures
            final(self).attempts() <= NAME_ATTEMPTS,
            old(self).attempts() < NAME_ATTEMPTS ==> r is Some && final(self).attempts() == old(
                self,
            ).attempts() + 1,
            old(self).attempts() == NAME_ATTEMPTS ==> r is None && final(self).attempts()
                == NAME_ATTEMPTS,
            r matches Some(Ok(p)) ==> exists|name: Seq<char>|
                is_temp_name(name) && p@ == parent@.push(crate::paths::named(name)),
    {
        if self.tried >= NAME_ATTEMPTS {
            return None;
        }
        self.tried = self.tried + 1;
        let mut bytes: Vec<u8> = vec![0u8; NAME_BYTES];
        match fill_random(&mut bytes, NAME_BYTES) {
            Err(e) => Some(Err(e)),
            Ok(()) => {
                let name = hex_name(bytes.as_slice());
                assert(is_temp_name(name@));
                Some(Ok(parent.join(name.as_str())))
            },
        }
    }
}

/// The error once every candidate name was taken.
pub fn names_exhausted_error() -> (s: String)
    ensures
        s@ == "unable to generate unique temporary filename"@,
{
    String::from_str("unable to generate unique temporary filename")
}

/// What a path is, without following a symbolic link.
#[derive(Debug, Clone, Copy, PartialEq, Eq, Structural)]
pub enum EntryKind {
    Symlink,
    File,
    Directory,
    Other,
}

/// What is done to a path.
#[derive(Debug, Clone, Copy, PartialEq, Eq, Structural)]
pub enum ShredAction {
    /// Remove the link itself, leaving what it points to.
    DeleteLink,
    /// Overwrite the file, then rename and remove it.
    ShredFile,
    /// Shred everything inside, deepest first, then remove the directories.
    ShredDirectory,
    /// Remove the (by then empty) directory.
    RemoveDirectory,
    /// Leave it.
    Skip,
}

/// The error for a directory given without `--recursive`.
pub open spec fn directory_message(display: Seq<char>) -> Seq<char> {
    display + " is a directory; re-run with --recursive"@
}

/// The error for a path that is neither file, directory nor link.
pub open spec fn unsupported_message(display: Seq<char>) -> Seq<char> {
    "unsupported path type: "@ + display
}

/// What is done to a target, shown as `display`: a link is removed, a file
/// shredded, a directory shredded only where recursion is allowed; anything
/// else is an error.
pub fn shred_target(kind: EntryKind, display: &str, recursive: bool) -> (r: Result<
    ShredAction,
    String,
>)
    ensures
        kind == EntryKind::Symlink ==> r == Ok::<ShredAction, String>(ShredAction::DeleteLink),
        kind == EntryKind::File ==> r == Ok::<ShredAction, String>(ShredAction::ShredFile),
        kind == EntryKind::Directory && recursive ==> r == Ok::<ShredAction, String>(
            ShredAction::ShredDirectory,
        ),
        kind == EntryKind::Directory && !recursive ==> (r matches Err(m) && m@ == directory_message(
            display@,
        )),
        kind == EntryKind::Other ==> (r matches Err(m) && m@ == unsupported_message(display@)),
{
    match kind {
        EntryKind::Symlink => Ok(ShredAction::DeleteLink),
        EntryKind::File => Ok(ShredAction::ShredFile),
        EntryKind::Directory => if recursive {
            Ok(ShredAction::ShredDirectory)
        } else {
            let mut m = String::from_str(display);
            m.append(" is a directory; re-run with --recursive");
            Err(m)
        },
        EntryKind::Other => {
            let mut m = String::from_str("unsupported path type: ");
            m.append(display);
            Err(m)
        },
    }
}

/// What is done to an entry met while walking a directory, deepest first.
pub fn directory_entry_action(kind: EntryKind) -> (a: ShredAction)
    ensures
        kind == EntryKind::File ==> a == ShredAction::ShredFile,
        kind == EntryKind::Symlink ==> a == ShredAction::DeleteLink,
        kind == EntryKind::Directory ==> a == ShredAction::RemoveDirectory,
        kind == EntryKind::Other ==> a == ShredAction::Skip,
{
    match kind {
        EntryKind::File => ShredAction::ShredFile,
        EntryKind::Symlink => ShredAction::DeleteLink,
        EntryKind::Directory => ShredAction::RemoveDirectory,
        EntryKind::Other => ShredAction::Skip,
    }
}

/// The progress line for starting on a target.
pub fn deleting_message(display: &str) -> (s: String)
    ensures
        s@ == "deleting "@ + display@,
{
    let mut s = String::from_str("deleting ");
    s.append(display);
    s
}

/// The progress line for a file met inside a directory.
pub fn file_message(display: &str) -> (s: String)
    ensures
        s@ == "  file "@ + display@,
{
    let mut s = String::from_str("  file ");
    s.append(display);
    s
}

/// The progress line for overwrite pass `pass` (counted from zero) of `passes`.
pub fn pass_message(pass: usize, passes: usize) -> (s: String)
    requires
        pass < passes,
    ensures
        s@ == "  pass "@ + decimal((pass + 1) as nat) + "/"@ + decimal(passes as nat),
{
    let mut s = String::from_str("  pass ");
    let a = decimal_string((pass + 1) as u64);
    s.append(a.as_str());
    s.append("/");
    let b = decimal_string(passes as u64);
    s.append(b.as_str());
    s
}

/// The error for a file that has no parent to rename it in.
pub open spec fn no_parent_message(display: Seq<char>) -> Seq<char> {
    "cannot delete path without parent: "@ + display
}

/// The directory in which a file, shown as `display`, is renamed before it
/// is removed: its parent.
pub fn deletion_parent(path: &LocalPath, display: &str) -> (r: Result<LocalPath, String>)
    ensures
        r matches Ok(p) ==> parent_of(path@) == Some(p@),
        r is Err <==> parent_of(path@) is None,
        r matches Err(m) ==> m@ == no_parent_message(display@),
{
    match path.parent() {
        Some(p) => Ok(p),
        None => {
            let mut m = String::from_str("cannot delete path without parent: ");
            m.append(display);
            Err(m)
        },
    }
}

/// The directory whose entry changes when `path` is created or removed,
/// and that is flushed afterwards: its parent, where it has one.
pub fn sync_parent_of(path: &LocalPath) -> (r: Option<LocalPath>)
    ensures
        r matches Some(p) ==> parent_of(path@) == Some(p@),
        r is None ==> parent_of(path@) is None,
{
    path.parent()
}

/// The permission bits of a file once its owner may write it.
pub fn writable_mode(mode: u32) -> (m: u32)
    ensures
        m == mode | 0o200,
{
    mode | 0o200
}

/// What follows shredding one target: the result to log, and whether the run
/// goes on to the next target (it stops at the first failure).
#[derive(Debug)]
pub struct TargetReport {
    pub result: String,
    pub go_on: bool,
}

/// What follows shredding one target, from its outcome: the result text of
/// [`shred_result`] is logged, and the run goes on only after a success.
pub fn after_target(outcome: &Result<(), String>) -> (r: TargetReport)
    ensures
        r.go_on == outcome is Ok,
        outcome is Ok ==> r.result@ == "OK"@,
        outcome matches Err(e) ==> r.result@ == "ERROR: "@ + e@,
{
    TargetReport { result: shred_result(outcome), go_on: outcome.is_ok() }
}

/// The result logged for a target: `OK`, or `ERROR: ` and the error.
pub fn shred_result(outcome: &Result<(), String>) -> (s: String)
    ensures
        outcome is Ok ==> s@ == "OK"@,
        outcome matches Err(e) ==> s@ == "ERROR: "@ + e@,
{
    match outcome {
        Ok(()) => String::from_str("OK"),
        Err(e) => {
            let mut s = String::from_str("ERROR: ");
            s.append(e.as_str());
            s
        },
    }
}

} // verus!

verus! {

/// One step of shredding a file.
#[derive(Debug, Clone, Copy, PartialEq, Eq, Structural)]
pub enum FileStep {
    /// Overwrite pass `0`-based number starts; report it unless quiet ([`pass_message`]).
    BeginPass(usize),
    /// Seek to the start of the file.
    Rewind,
    /// Write this many bytes from the start of the buffer, which hold fresh random data.
    Write(usize),
    /// Flush the file and sync it to the disk.
    Sync,
    /// Close the file, rename it to a random name and remove it.
    Finish,
}

/// The writes of one pass over `size` bytes.
pub open spec fn write_steps(cs: Seq<nat>) -> Seq<FileStep>
    decreases cs.len(),
{
    if cs.len() == 0 {
        seq![]
    } else {
        seq![FileStep::Write(cs[0] as usize)] + write_steps(cs.drop_first())
    }
}

/// One overwrite pass: back to the start, the writes, then a sync.
pub open spec fn pass_steps(size: nat) -> Seq<FileStep> {
    seq![FileStep::Rewind] + write_steps(chunks(size)) + seq![FileStep::Sync]
}

/// The steps from pass `p` on: each pass announced then run, then the file removed.
pub open spec fn steps_from(p: nat, passes: nat, size: nat) -> Seq<FileStep>
    decreases passes - p,
{
    if p >= passes {
        seq![FileStep::Finish]
    } else {
        seq![FileStep::BeginPass(p as usize)] + pass_steps(size) + steps_from(p + 1, passes, size)
    }
}

/// Where shredding a file has got to.
#[derive(Debug)]
enum Phase {
    Start,
    Rewind,
    Writing(Overwrite),
    Done,
}

/// Shredding one file of a known size: `passes` overwrite passes with
/// random data, then removal.
#[derive(Debug)]
pub struct FileShred {
    passes: usize,
    size: u64,
    pass: usize,
    phase: Phase,
}

impl FileShred {
    /// The steps still to come.
    pub closed spec fn remaining(&self) -> Seq<FileStep> {
        match self.phase {
            Phase::Start => steps_from(self.pass as nat, self.passes as nat, self.size as nat),
            Phase::Rewind => pass_steps(self.size as nat) + steps_from(
                self.pass as nat + 1,
                self.passes as nat,
                self.size as nat,
            ),
            Phase::Writing(o) => write_steps(chunks(o.left())) + seq![FileStep::Sync] + steps_from(
                self.pass as nat + 1,
                self.passes as nat,
                self.size as nat,
            ),
            Phase::Done => seq![],
        }
    }

    /// The state's own consistency.
    pub closed spec fn wf(&self) -> bool {
        &&& self.pass <= self.passes
        &&& (self.phase is Rewind || self.phase is Writing) ==> self.pass < self.passes
    }

    /// Shredding a file of `size` bytes with `passes` passes.
    pub fn new(passes: usize, size: u64) -> (s: FileShred)
        ensures
            s.wf(),
            s.remaining() == steps_from(0, passes as nat, size as nat),
    {
        FileShred { passes, size, pass: 0, phase: Phase::Start }
    }

    /// Takes the next step; for a write, first fills that many bytes at
    /// the start of `buffer` with random data, or reports why it could not.
    /// Nothing is left after [`FileStep::Finish`].
    pub fn next_step(&mut self, buffer: &mut Vec<u8>) -> (r: Option<Result<FileStep, String>>)
        requires
            old(self).wf(),
            old(buffer).len() >= CHUNK_SIZE,
        ensures
            final(self).wf(),
            final(buffer).len() == old(buffer).len(),
            r is None <==> old(self).remaining().len() == 0,
            r is None ==> final(self).remaining().len() == 0,
            r matches Some(x) ==> old(self).remaining().len() > 0 && final(self).remaining()
                == old(self).remaining().drop_first() && (x matches Ok(step) ==> step == old(
                self,
            ).remaining()[0]) && (x is Err ==> old(self).remaining()[0] is Write),
    {
        let ghost before = self.remaining();
        match &mut self.phase {
            Phase::Done => None,
            Phase::Start => {
                if self.pass < self.passes {
                    let p = self.pass;
                    self.phase = Phase::Rewind;
                    proof {
                        let rest = pass_steps(self.size as nat) + steps_from(
                            self.pass as nat + 1,
                            self.passes as nat,
                            self.size as nat,
                        );
                        assert(before =~= seq![FileStep::BeginPass(p)] + rest);
                        assert(before.drop_first() =~= rest);
                    }
                    Some(Ok(FileStep::BeginPass(p)))
                } else {
                    self.phase = Phase::Done;
                    proof {
                        assert(before.drop_first() =~= Seq::<FileStep>::empty());
                    }
                    Some(Ok(FileStep::Finish))
                }
            },
            Phase::Rewind => {
                self.phase = Phase::Writing(Overwrite::new(self.size));
                proof {
                    let after = self.remaining();
                    assert(before =~= seq![FileStep::Rewind] + after);
                    assert(before.drop_first() =~= after);
                }
                Some(Ok(FileStep::Rewind))
            },
            Phase::Writing(o) => {
                let ghost left = o.left();
                match o.next_random_chunk(buffer) {
                    None => {
                        let ghost tail = steps_from(
                            self.pass as nat + 1,
                            self.passes as nat,
                            self.size as nat,
                        );
                        self.pass = self.pass + 1;
                        self.phase = Phase::Start;
                        proof {
                            assert(chunks(0) =~= Seq::<nat>::empty());
                            assert(write_steps(Seq::<nat>::empty()) =~= Seq::<FileStep>::empty());
                            assert(before =~= seq![FileStep::Sync] + tail);
                            assert(before.drop_first() =~= tail);
                        }
                        Some(Ok(FileStep::Sync))
                    },
                    Some(x) => {
                        proof {
                            let cs = chunks(left);
                            let tail = seq![FileStep::Sync] + steps_from(
                                self.pass as nat + 1,
                                self.passes as nat,
                                self.size as nat,
                            );
                            let c = cs[0];
                            assert(write_steps(cs) == seq![FileStep::Write(c as usize)]
                                + write_steps(cs.drop_first()));
                            assert(before =~= seq![FileStep::Write(c as usize)] + (write_steps(
                                chunks(o.left()),
                            ) + tail));
                            assert(before.drop_first() =~= self.remaining());
                        }
                        match x {
                            Ok(c) => Some(Ok(FileStep::Write(c))),
                            Err(e) => Some(Err(e)),
                        }
                    },
                }
            },
        }
    }
}

} // verus!

verus! {

/// The bytes written by a list of steps.
pub open spec fn written(steps: Seq<FileStep>) -> nat
    decreases steps.len(),
{
    if steps.len() == 0 {
        0
    } else {
        (match steps[0] {
            FileStep::Write(n) => n as nat,
            _ => 0,
        }) + written(steps.drop_first())
    }
}

/// The passes begun by a list of steps.
pub open spec fn passes_begun(steps: Seq<FileStep>) -> nat
    decreases steps.len(),
{
    if steps.len() == 0 {
        0
    } else {
        (if steps[0] is BeginPass {
            1nat
        } else {
            0nat
        }) + passes_begun(steps.drop_first())
    }
}

/// Counting over two lists of steps adds up.
proof fn lemma_counts_concat(a: Seq<FileStep>, b: Seq<FileStep>)
    ensures
        written(a + b) == written(a) + written(b),
        passes_begun(a + b) == passes_begun(a) + passes_begun(b),
    decreases a.len(),
{
    if a.len() > 0 {
        lemma_counts_concat(a.drop_first(), b);
        assert((a + b).drop_first() =~= a.drop_first() + b);
    } else {
        assert(a + b =~= b);
    }
}

/// The writes of a pass add up to the sizes they were made from, and begin no pass.
proof fn lemma_write_steps_counts(cs: Seq<nat>)
    requires
        forall|i: int| 0 <= i < cs.len() ==> #[trigger] cs[i] <= usize::MAX,
    ensures
        written(write_steps(cs)) == total(cs),
        passes_begun(write_steps(cs)) == 0,
    decreases cs.len(),
{
    if cs.len() > 0 {
        assert forall|i: int| 0 <= i < cs.drop_first().len() implies #[trigger] cs.drop_first()[i]
            <= usize::MAX by {
            assert(cs.drop_first()[i] == cs[i + 1]);
        }
        lemma_write_steps_counts(cs.drop_first());
        let w = seq![FileStep::Write(cs[0] as usize)];
        lemma_counts_concat(w, write_steps(cs.drop_first()));
        assert(w.drop_first() =~= Seq::<FileStep>::empty());
        assert(written(w) == cs[0] + written(Seq::<FileStep>::empty()));
        assert(passes_begun(w) == 0 + passes_begun(Seq::<FileStep>::empty()));
    } else {
        assert(write_steps(cs) =~= Seq::<FileStep>::empty());
    }
}

/// One pass writes the whole file once.
proof fn lemma_pass_counts(size: nat)
    ensures
        written(pass_steps(size)) == size,
        passes_begun(pass_steps(size)) == 0,
{
    lemma_chunks_cover(size);
    lemma_write_steps_counts(chunks(size));
    let r = seq![FileStep::Rewind];
    let s = seq![FileStep::Sync];
    lemma_counts_concat(r, write_steps(chunks(size)));
    lemma_counts_concat(r + write_steps(chunks(size)), s);
    assert(r.drop_first() =~= Seq::<FileStep>::empty());
    assert(s.drop_first() =~= Seq::<FileStep>::empty());
    assert(written(r) == 0 + written(Seq::<FileStep>::empty()));
    assert(written(s) == 0 + written(Seq::<FileStep>::empty()));
    assert(passes_begun(r) == 0 + passes_begun(Seq::<FileStep>::empty()));
    assert(passes_begun(s) == 0 + passes_begun(Seq::<FileStep>::empty()));
}

/// Shredding a file runs exactly `passes` passes, writes its size once per
/// pass, and ends by removing it.
pub proof fn lemma_file_shred_counts(passes: nat, size: nat, p: nat)
    requires
        p <= passes,
    ensures
        written(steps_from(p, passes, size)) == (passes - p) * size,
        passes_begun(steps_from(p, passes, size)) == passes - p,
        steps_from(p, passes, size).last() == FileStep::Finish,
    decreases passes - p,
{
    if p < passes {
        lemma_file_shred_counts(passes, size, p + 1);
        lemma_pass_counts(size);
        let b = seq![FileStep::BeginPass(p as usize)];
        let rest = steps_from(p + 1, passes, size);
        lemma_counts_concat(b, pass_steps(size));
        lemma_counts_concat(b + pass_steps(size), rest);
        assert(b.drop_first() =~= Seq::<FileStep>::empty());
        assert(written(b) == 0 + written(Seq::<FileStep>::empty()));
        assert(passes_begun(b) == 1 + passes_begun(Seq::<FileStep>::empty()));
        assert((passes - p) * size == size + (passes - (p + 1)) * size) by (nonlinear_arith)
            requires
                p < passes,
        ;
    } else {
        let f = seq![FileStep::Finish];
        assert(f.drop_first() =~= Seq::<FileStep>::empty());
        assert(written(f) == 0 + written(Seq::<FileStep>::empty()));
        assert(passes_begun(f) == 0 + passes_begun(Seq::<FileStep>::empty()));
        assert((passes - p) * size == 0) by (nonlinear_arith)
            requires
                p == passes,
        ;
    }
}

} // verus!

verus! {

/// Making a file writable sets the owner's write bit and changes no other bit.
pub proof fn lemma_writable_mode(mode: u32)
    ensures
        (mode | 0o200u32) & 0o200u32 == 0o200u32,
        (mode | 0o200u32) & !0o200u32 == mode & !0o200u32,
{
    assert((mode | 0o200u32) & 0o200u32 == 0o200u32) by (bit_vector);
    assert((mode | 0o200u32) & !0o200u32 == mode & !0o200u32) by (bit_vector);
}

} // verus!
