use crate::components::Components;
use crate::error::PathError;
use crate::flavors::{MockPath, PurePosixPath, PureWindowsPath};
use crate::model::{has_nul, parse_model, PathModel};
use crate::pure::PurePath;
use vstd::prelude::*;

verus! {

/// Which kind of path a `Path` holds.
#[derive(Clone, Copy, Debug, PartialEq, Eq, Structural)]
pub enum PathKind {
    Windows,
    Posix,
    Double,
}

/// The grammar-specific path that a `Path` wraps.
#[derive(Debug)]
enum PathImplementation {
    Windows(PureWindowsPath),
    Posix(PurePosixPath),
    Pure(MockPath),
}

/// The path type to use by default: it holds a Windows path, a POSIX path
/// or a test double, chosen when it is made and never changed, and hands
/// every operation on to it.
#[derive(Debug)]
pub struct Path {
    path: PathImplementation,
}

/// Asks `std::path::is_separator` whether the character separates path
/// components on this host. The answer depends on the machine, so nothing
/// is claimed of it.
#[verifier::external_body]
fn host_separates(c: char) -> (res: bool) {
    std::path::is_separator(c)
}

impl Path {
    /// Which kind of path is held. It is fixed when the path is made; a
    /// transformation gives a path of the same kind, but for a join with an
    /// absolute operand, which gives that operand.
    pub closed spec fn variant(&self) -> PathKind {
        match self.path {
            PathImplementation::Windows(_) => PathKind::Windows,
            PathImplementation::Posix(_) => PathKind::Posix,
            PathImplementation::Pure(_) => PathKind::Double,
        }
    }

    /// Which kind of path is held. Only the Windows kind goes by the
    /// Windows grammar.
    pub fn kind(&self) -> (res: PathKind)
        ensures
            res == self.variant(),
            res == PathKind::Windows <==> self.model().windows,
    {
        match &self.path {
            PathImplementation::Windows(p) => {
                let _ = p.components();
                PathKind::Windows
            },
            PathImplementation::Posix(p) => {
                let _ = p.components();
                PathKind::Posix
            },
            PathImplementation::Pure(p) => {
                let _ = p.components();
                PathKind::Double
            },
        }
    }

    /// Parses the text under the named grammar.
    pub fn for_grammar(windows: bool, path: &str) -> (res: Result<Path, PathError>)
        ensures
            res is Err <==> has_nul(path@),
            res matches Err(e) ==> e == PathError::InvalidPath,
            res matches Ok(p) ==> p.model() == parse_model(windows, path@),
            res matches Ok(p) ==> p.variant() == (if windows {
                PathKind::Windows
            } else {
                PathKind::Posix
            }),
    {
        if windows {
            match PureWindowsPath::new(path) {
                Ok(p) => Ok(Path { path: PathImplementation::Windows(p) }),
                Err(e) => Err(e),
            }
        } else {
            match PurePosixPath::new(path) {
                Ok(p) => Ok(Path { path: PathImplementation::Posix(p) }),
                Err(e) => Err(e),
            }
        }
    }

    /// Wraps a test double.
    pub fn mock(double: MockPath) -> (res: Path)
        ensures
            res.model() == double.model(),
            res.variant() == PathKind::Double,
    {
        Path { path: PathImplementation::Pure(double) }
    }

    /// The parsed value of the wrapped path.
    fn components(&self) -> (res: &Components)
        ensures
            res@ == self.model(),
            res@.windows <==> self.variant() == PathKind::Windows,
    {
        match &self.path {
            PathImplementation::Windows(p) => p.components(),
            PathImplementation::Posix(p) => p.components(),
            PathImplementation::Pure(p) => p.components(),
        }
    }

    /// A path of the same kind as this one around the given value.
    fn rewrap(&self, inner: Components) -> (res: Path)
        requires
            inner@.windows == self.model().windows,
        ensures
            res.model() == inner@,
            res.variant() == self.variant(),
    {
        match &self.path {
            PathImplementation::Windows(p) => {
                let _ = p.components();
                Path { path: PathImplementation::Windows(PureWindowsPath::from_components(inner)) }
            },
            PathImplementation::Posix(p) => {
                let _ = p.components();
                Path { path: PathImplementation::Posix(PurePosixPath::from_components(inner)) }
            },
            PathImplementation::Pure(p) => {
                let _ = p.components();
                Path { path: PathImplementation::Pure(MockPath::from_components(inner)) }
            },
        }
    }
}

impl Clone for Path {
    fn clone(&self) -> (res: Self)
        ensures
            res.model() == self.model(),
            res.variant() == self.variant(),
    {
        self.rewrap(self.components().clone())
    }
}

impl<'a> PurePath<'a> for Path {
    closed spec fn model(&self) -> PathModel {
        match self.path {
            PathImplementation::Windows(p) => p.model(),
            PathImplementation::Posix(p) => p.model(),
            PathImplementation::Pure(p) => p.model(),
        }
    }

    /// Parses the text under the grammar of the host: the Windows one where
    /// a backslash separates path components, the POSIX one elsewhere.
    fn new(path: &'a str) -> (res: Result<Self, PathError>)
        ensures
            res matches Ok(p) ==> p.variant() == (if p.model().windows {
                PathKind::Windows
            } else {
                PathKind::Posix
            }),
    {
        Path::for_grammar(host_separates('\\'), path)
    }

    fn to_str(&self) -> (res: &str) {
        self.components().to_str()
    }

    fn bytes(&self) -> (res: Vec<u8>) {
        self.components().bytes()
    }

    fn parts(&self) -> (res: Vec<&str>) {
        self.components().parts()
    }

    fn drive(&self) -> (res: Option<&str>) {
        self.components().drive()
    }

    fn root(&self) -> (res: Option<&str>) {
        self.components().root()
    }

    fn anchor(&self) -> (res: Option<&str>) {
        self.components().anchor()
    }

    fn parents(&self) -> (res: Vec<&str>) {
        self.components().parents()
    }

    fn parent(&self) -> (res: Option<&str>) {
        self.components().parent()
    }

    fn name(&self) -> (res: Option<&str>) {
        self.components().name()
    }

    fn suffix(&self) -> (res: Option<&str>) {
        self.components().suffix()
    }

    fn suffixes(&self) -> (res: Vec<&str>) {
        self.components().suffixes()
    }

    fn stem(&self) -> (res: Option<&str>) {
        self.components().stem()
    }

    fn as_uri(&self) -> (res: Result<String, PathError>) {
        self.components().as_uri()
    }

    fn is_absolute(&self) -> (res: bool) {
        self.components().is_absolute()
    }

    fn is_relative_to(&self, other: &Self) -> (res: bool) {
        self.components().is_relative_to(other.components())
    }

    fn is_reserved(&self) -> (res: bool) {
        self.components().is_reserved()
    }

    fn join_path(&self, other: &Self) -> (res: Self)
        ensures
            res.variant() == (if other.model().is_absolute() {
                other.variant()
            } else {
                self.variant()
            }),
    {
        if other.is_absolute() {
            other.clone()
        } else {
            self.rewrap(self.components().join_path(other.components()))
        }
    }

    fn match_expr(&self, pattern: &str) -> (res: bool) {
        self.components().match_expr(pattern)
    }

    fn relative_to(&self, other: &Self) -> (res: Result<Self, PathError>)
        ensures
            res matches Ok(p) ==> p.variant() == self.variant(),
    {
        match self.components().relative_to(other.components()) {
            Ok(inner) => Ok(self.rewrap(inner)),
            Err(e) => Err(e),
        }
    }

    fn with_name(&self, name: &str) -> (res: Result<Self, PathError>)
        ensures
            res matches Ok(p) ==> p.variant() == self.variant(),
    {
        match self.components().with_name(name) {
            Ok(inner) => Ok(self.rewrap(inner)),
            Err(e) => Err(e),
        }
    }

    fn with_stem(&self, stem: &str) -> (res: Result<Self, PathError>)
        ensures
            res matches Ok(p) ==> p.variant() == self.variant(),
    {
        match self.components().with_stem(stem) {
            Ok(inner) => Ok(self.rewrap(inner)),
            Err(e) => Err(e),
        }
    }

    fn with_suffix(&self, suffix: &str) -> (res: Result<Self, PathError>)
        ensures
            res matches Ok(p) ==> p.variant() == self.variant(),
    {
        match self.components().with_suffix(suffix) {
            Ok(inner) => Ok(self.rewrap(inner)),
            Err(e) => Err(e),
        }
    }
}

} // verus!
