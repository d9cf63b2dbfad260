//! Questions about paths that only the platform answers (std `Path`): what counts as a path
//! component differs between platforms, so each answer is kept together with the question it
//! answers, and only this module can make one.

use vstd::prelude::*;

verus! {

/// The platform's answer to whether `base` is a prefix of `dir` in whole path components.
#[derive(Debug)]
pub struct PrefixAnswer {
    dir: String,
    base: String,
    accepted: bool,
}

impl PrefixAnswer {
    /// The directory asked about.
    pub closed spec fn dir(&self) -> Seq<char> {
        self.dir@
    }

    /// The path asked to be its prefix.
    pub closed spec fn base(&self) -> Seq<char> {
        self.base@
    }

    /// Whether the platform took `base` as a prefix of `dir`.
    pub closed spec fn accepted(&self) -> bool {
        self.accepted
    }

    /// Whether the platform took `base` as a prefix of `dir`.
    pub fn is_accepted(&self) -> (r: bool)
        ensures
            r == self.accepted(),
    {
        self.accepted
    }
}

/// std `Path::new(dir).starts_with(Path::new(base))`, kept with the question. What counts as a
/// component depends on the platform, so the contract states only what holds on every
/// platform: a path is a prefix of itself.
#[verifier::external_body]
pub(crate) fn ask_starts_with(dir: &str, base: &str) -> (r: PrefixAnswer)
    ensures
        r.dir() == dir@,
        r.base() == base@,
        dir@ == base@ ==> r.accepted(),
{
    let accepted = std::path::Path::new(dir).starts_with(std::path::Path::new(base));
    PrefixAnswer { dir: dir.to_string(), base: base.to_string(), accepted }
}

/// The platform's count of the components of `path`.
#[derive(Debug)]
pub struct DepthAnswer {
    path: String,
    depth: usize,
}

impl DepthAnswer {
    /// The path asked about.
    pub closed spec fn path(&self) -> Seq<char> {
        self.path@
    }

    /// How many components the platform counted.
    pub closed spec fn depth(&self) -> usize {
        self.depth
    }

    /// How many components the platform counted.
    pub fn components(&self) -> (r: usize)
        ensures
            r == self.depth(),
    {
        self.depth
    }
}

/// std `Path::new(path).components().count()`, kept with the question. What counts as a
/// component depends on the platform, so nothing is stated of the count.
#[verifier::external_body]
pub(crate) fn ask_depth(path: &str) -> (r: DepthAnswer)
    ensures
        r.path() == path@,
{
    let depth = std::path::Path::new(path).components().count();
    DepthAnswer { path: path.to_string(), depth }
}

/// What holds of every path that std's `Path::is_absolute` accepts, on every platform: it
/// starts with a separator, or has a drive colon second.
pub open spec fn absolute_shape(p: Seq<char>) -> bool {
    p.len() > 0 && (p[0] == '/' || p[0] == '\\' || (p.len() >= 2 && p[1] == ':'))
}

/// The platform's answer to whether `path` is absolute.
#[derive(Debug)]
pub struct AbsoluteAnswer {
    path: String,
    absolute: bool,
}

impl AbsoluteAnswer {
    /// The path asked about.
    pub closed spec fn path(&self) -> Seq<char> {
        self.path@
    }

    /// Whether the platform took the path for absolute.
    pub closed spec fn absolute(&self) -> bool {
        self.absolute
    }

    /// Whether the platform took the path for absolute.
    pub fn is_absolute(&self) -> (r: bool)
        ensures
            r == self.absolute(),
    {
        self.absolute
    }
}

/// std `Path::new(p).is_absolute()`, kept with the question. What counts as absolute depends
/// on the platform, so the contract states only the shape every absolute path has.
#[verifier::external_body]
pub(crate) fn ask_is_absolute(p: &str) -> (r: AbsoluteAnswer)
    ensures
        r.path() == p@,
        r.absolute() ==> absolute_shape(p@),
{
    let absolute = std::path::Path::new(p).is_absolute();
    AbsoluteAnswer { path: p.to_string(), absolute }
}

} // verus!
