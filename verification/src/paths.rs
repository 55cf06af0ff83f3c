//! Paths as sequences of components, the way the standard library compares them.

use vstd::prelude::*;
use vstd::string::StrSliceExecFns;
use vstd::utf8::encode_utf8;

verus! {

/// The operating system family whose rules apply.
#[derive(Clone, Copy, Debug, PartialEq, Eq, Structural)]
pub enum Platform {
    MacOs,
    Windows,
    Other,
}

/// A Windows path prefix as a value, parsed as the standard library parses it.
pub enum PrefixValue {
    Verbatim(Seq<u8>),
    VerbatimUnc(Seq<u8>, Seq<u8>),
    VerbatimDisk(u8),
    DeviceNs(Seq<u8>),
    Unc(Seq<u8>, Seq<u8>),
    Disk(u8),
}

/// One component of a path, as a value; names are the platform's encoded bytes.
pub enum Component {
    Prefix(PrefixValue),
    RootDir,
    CurDir,
    ParentDir,
    Normal(Seq<u8>),
}

/// The component for a name given as text: its UTF-8 bytes.
pub open spec fn named(s: Seq<char>) -> Component {
    Component::Normal(encode_utf8(s))
}

/// A parsed Windows path prefix: `\\?\x`, `\\?\UNC\server\share`,
/// `\\?\C:`, `\\.\device`, `\\server\share` or `C:`. Texts are the
/// platform's encoded bytes; a drive is its letter's byte as the standard
/// library gives it.
#[derive(Debug, Clone)]
pub enum PathPrefix {
    Verbatim(Vec<u8>),
    VerbatimUnc(Vec<u8>, Vec<u8>),
    VerbatimDisk(u8),
    DeviceNs(Vec<u8>),
    Unc(Vec<u8>, Vec<u8>),
    Disk(u8),
}

impl View for PathPrefix {
    type V = PrefixValue;

    open spec fn view(&self) -> PrefixValue {
        match self {
            PathPrefix::Verbatim(a) => PrefixValue::Verbatim(a@),
            PathPrefix::VerbatimUnc(a, b) => PrefixValue::VerbatimUnc(a@, b@),
            PathPrefix::VerbatimDisk(d) => PrefixValue::VerbatimDisk(*d),
            PathPrefix::DeviceNs(a) => PrefixValue::DeviceNs(a@),
            PathPrefix::Unc(a, b) => PrefixValue::Unc(a@, b@),
            PathPrefix::Disk(d) => PrefixValue::Disk(*d),
        }
    }
}

/// A copy of some bytes.
pub fn copy_bytes(a: &Vec<u8>) -> (r: Vec<u8>)
    ensures
        r@ == a@,
{
    let mut r: Vec<u8> = Vec::new();
    let mut i: usize = 0;
    while i < a.len()
        invariant
            i <= a.len(),
            r@ == a@.take(i as int),
        decreases a.len() - i,
    {
        r.push(a[i]);
        assert(r@ =~= a@.take(i + 1));
        i = i + 1;
    }
    assert(a@.take(i as int) =~= a@);
    r
}

/// Compares two byte strings.
pub fn bytes_equal(a: &Vec<u8>, b: &Vec<u8>) -> (r: bool)
    ensures
        r == (a@ == b@),
{
    if a.len() != b.len() {
        return false;
    }
    let mut i: usize = 0;
    while i < a.len()
        invariant
            i <= a.len(),
            a.len() == b.len(),
            forall|j: int| 0 <= j < i ==> a@[j] == b@[j],
        decreases a.len() - i,
    {
        if a[i] != b[i] {
            return false;
        }
        i = i + 1;
    }
    assert(a@ =~= b@);
    true
}

impl PathPrefix {
    /// A copy of the prefix.
    pub fn duplicate(&self) -> (r: PathPrefix)
        ensures
            r@ == self@,
    {
        match self {
            PathPrefix::Verbatim(a) => PathPrefix::Verbatim(copy_bytes(a)),
            PathPrefix::VerbatimUnc(a, b) => PathPrefix::VerbatimUnc(copy_bytes(a), copy_bytes(b)),
            PathPrefix::VerbatimDisk(d) => PathPrefix::VerbatimDisk(*d),
            PathPrefix::DeviceNs(a) => PathPrefix::DeviceNs(copy_bytes(a)),
            PathPrefix::Unc(a, b) => PathPrefix::Unc(copy_bytes(a), copy_bytes(b)),
            PathPrefix::Disk(d) => PathPrefix::Disk(*d),
        }
    }

    /// Compares two parsed prefixes, as the standard library compares prefix components.
    pub fn same_as(&self, other: &PathPrefix) -> (r: bool)
        ensures
            r == (self@ == other@),
    {
        match (self, other) {
            (PathPrefix::Verbatim(a), PathPrefix::Verbatim(b)) => bytes_equal(a, b),
            (PathPrefix::VerbatimUnc(a, b), PathPrefix::VerbatimUnc(c, d)) => bytes_equal(a, c)
                && bytes_equal(b, d),
            (PathPrefix::VerbatimDisk(a), PathPrefix::VerbatimDisk(b)) => *a == *b,
            (PathPrefix::DeviceNs(a), PathPrefix::DeviceNs(b)) => bytes_equal(a, b),
            (PathPrefix::Unc(a, b), PathPrefix::Unc(c, d)) => bytes_equal(a, c) && bytes_equal(b, d),
            (PathPrefix::Disk(a), PathPrefix::Disk(b)) => *a == *b,
            _ => false,
        }
    }
}

/// One component of a path: a Windows prefix, the root, `.`, `..` or a name
/// (in the platform's encoding, so names that are not UTF-8 are kept as they are).
#[derive(Debug, Clone)]
pub enum PathPart {
    Prefix(PathPrefix),
    RootDir,
    CurDir,
    ParentDir,
    Normal(Vec<u8>),
}

impl View for PathPart {
    type V = Component;

    open spec fn view(&self) -> Component {
        match self {
            PathPart::Prefix(p) => Component::Prefix(p@),
            PathPart::RootDir => Component::RootDir,
            PathPart::CurDir => Component::CurDir,
            PathPart::ParentDir => Component::ParentDir,
            PathPart::Normal(s) => Component::Normal(s@),
        }
    }
}

impl PathPart {
    /// A copy of the component.
    pub fn duplicate(&self) -> (r: PathPart)
        ensures
            r@ == self@,
    {
        match self {
            PathPart::Prefix(p) => PathPart::Prefix(p.duplicate()),
            PathPart::RootDir => PathPart::RootDir,
            PathPart::CurDir => PathPart::CurDir,
            PathPart::ParentDir => PathPart::ParentDir,
            PathPart::Normal(s) => PathPart::Normal(copy_bytes(s)),
        }
    }

    /// Compares two components.
    pub fn same_as(&self, other: &PathPart) -> (r: bool)
        ensures
            r == (self@ == other@),
    {
        match (self, other) {
            (PathPart::Prefix(a), PathPart::Prefix(b)) => a.same_as(b),
            (PathPart::RootDir, PathPart::RootDir) => true,
            (PathPart::CurDir, PathPart::CurDir) => true,
            (PathPart::ParentDir, PathPart::ParentDir) => true,
            (PathPart::Normal(a), PathPart::Normal(b)) => bytes_equal(a, b),
            _ => false,
        }
    }
}

/// A path held as its components; two paths are equal when their components are.
#[derive(Debug)]
pub struct LocalPath {
    pub parts: Vec<PathPart>,
}

/// The components of a list of parts.
pub open spec fn parts_view(parts: Seq<PathPart>) -> Seq<Component> {
    parts.map_values(|p: PathPart| p@)
}

impl View for LocalPath {
    type V = Seq<Component>;

    open spec fn view(&self) -> Seq<Component> {
        parts_view(self.parts@)
    }
}

/// `base` is a leading run of the components of `path`, as `Path::starts_with` tests.
pub open spec fn is_prefix(base: Seq<Component>, path: Seq<Component>) -> bool {
    base.len() <= path.len() && path.take(base.len() as int) == base
}

/// The parent, as `Path::parent` gives it: the path without its last component
/// where that is a name, `.` or `..`; none for an empty path, a root or a prefix.
pub open spec fn parent_of(p: Seq<Component>) -> Option<Seq<Component>> {
    if p.len() == 0 {
        None
    } else {
        match p.last() {
            Component::RootDir => None,
            Component::Prefix(_) => None,
            _ => Some(p.drop_last()),
        }
    }
}

/// The final name, as `Path::file_name` gives it.
pub open spec fn file_name_of(p: Seq<Component>) -> Option<Seq<u8>> {
    if p.len() == 0 {
        None
    } else {
        match p.last() {
            Component::Normal(n) => Some(n),
            _ => None,
        }
    }
}

impl LocalPath {
    /// The path with no components.
    pub fn empty() -> (r: LocalPath)
        ensures
            r@ == Seq::<Component>::empty(),
    {
        LocalPath { parts: Vec::new() }
    }

    /// A copy of the path.
    pub fn duplicate(&self) -> (r: LocalPath)
        ensures
            r@ == self@,
    {
        let mut parts: Vec<PathPart> = Vec::new();
        let mut i: usize = 0;
        while i < self.parts.len()
            invariant
                i <= self.parts.len(),
                parts@.len() == i,
                forall|j: int| 0 <= j < i ==> (#[trigger] parts@[j])@ == self.parts@[j]@,
            decreases self.parts.len() - i,
        {
            let p = self.parts[i].duplicate();
            parts.push(p);
            i = i + 1;
        }
        assert(parts_view(parts@) =~= parts_view(self.parts@));
        LocalPath { parts }
    }

    /// The path with one more name at its end, as joining a plain file name does.
    pub fn join(&self, name: &str) -> (r: LocalPath)
        ensures
            r@ == self@.push(named(name@)),
    {
        self.join_bytes(&name.as_bytes_vec())
    }

    /// The path with one more name, given in the platform's encoding, at its end.
    pub fn join_bytes(&self, name: &Vec<u8>) -> (r: LocalPath)
        ensures
            r@ == self@.push(Component::Normal(name@)),
    {
        let mut r = self.duplicate();
        r.parts.push(PathPart::Normal(copy_bytes(name)));
        assert(r@ =~= self@.push(Component::Normal(name@)));
        r
    }

    /// Tests whether `base` is a leading run of this path's components.
    pub fn starts_with(&self, base: &LocalPath) -> (r: bool)
        ensures
            r == is_prefix(base@, self@),
    {
        if base.parts.len() > self.parts.len() {
            return false;
        }
        let mut i: usize = 0;
        while i < base.parts.len()
            invariant
                i <= base.parts.len() <= self.parts.len(),
                forall|j: int| 0 <= j < i ==> self@[j] == base@[j],
            decreases base.parts.len() - i,
        {
            if !self.parts[i].same_as(&base.parts[i]) {
                assert(self@.take(base@.len() as int)[i as int] != base@[i as int]);
                return false;
            }
            i = i + 1;
        }
        assert(self@.take(base@.len() as int) =~= base@);
        true
    }

    /// Tests two paths for equality of their components.
    pub fn same_as(&self, other: &LocalPath) -> (r: bool)
        ensures
            r == (self@ == other@),
    {
        if self.parts.len() != other.parts.len() {
            assert(self@.len() != other@.len());
            return false;
        }
        let r = self.starts_with(other);
        if r {
            assert(self@ =~= other@);
        } else {
            assert(self@.take(other@.len() as int) =~= self@);
        }
        r
    }

    /// The parent path, where there is one.
    pub fn parent(&self) -> (r: Option<LocalPath>)
        ensures
            r matches Some(p) ==> parent_of(self@) == Some(p@),
            r is None ==> parent_of(self@) is None,
    {
        let n = self.parts.len();
        if n == 0 {
            return None;
        }
        match &self.parts[n - 1] {
            PathPart::RootDir => None,
            PathPart::Prefix(_) => None,
            _ => {
                let mut parts: Vec<PathPart> = Vec::new();
                let mut i: usize = 0;
                while i < n - 1
                    invariant
                        n == self.parts.len(),
                        i <= n - 1,
                        parts@.len() == i,
                        forall|j: int| 0 <= j < i ==> (#[trigger] parts@[j])@ == self.parts@[j]@,
                    decreases n - 1 - i,
                {
                    let p = self.parts[i].duplicate();
                    parts.push(p);
                    i = i + 1;
                }
                let r = LocalPath { parts };
                assert(r@ =~= self@.drop_last());
                Some(r)
            },
        }
    }

    /// The final name, where the path ends in one.
    pub fn file_name(&self) -> (r: Option<Vec<u8>>)
        ensures
            r matches Some(s) ==> file_name_of(self@) == Some(s@),
            r is None ==> file_name_of(self@) is None,
    {
        let n = self.parts.len();
        if n == 0 {
            return None;
        }
        match &self.parts[n - 1] {
            PathPart::Normal(s) => Some(copy_bytes(s)),
            _ => None,
        }
    }
}

} // verus!
