use crate::components::Components;
use crate::error::PathError;
use crate::model::{parse_model, texts, PathModel};
use crate::pure::PurePath;
use vstd::prelude::*;
use vstd::string::*;

verus! {

/// A path under the POSIX grammar: `/` separates, a leading `/` is the root,
/// there is no drive. It can be made on any system.
#[derive(Debug)]
pub struct PurePosixPath {
    inner: Components,
}

/// A path under the Windows grammar: `\` and `/` separate, a letter and a
/// colon or a share make the drive, texts compare without regard to case.
/// It can be made on any system.
#[derive(Debug)]
pub struct PureWindowsPath {
    inner: Components,
}

/// A path for use in tests: it parses under the POSIX grammar as any path
/// does, and can also be made from components that are handed over.
#[derive(Debug)]
pub struct MockPath {
    inner: Components,
}

impl MockPath {
    /// The double with the given text and components, whether or not the
    /// text parses to them.
    pub fn from_fields(path: String, drive: String, root: String, segments: Vec<String>) -> (res:
        MockPath)
        ensures
            res.model() == (PathModel {
                windows: false,
                raw: path@,
                drive: drive@,
                root: root@,
                segs: texts(segments@),
            }),
    {
        MockPath { inner: Components::with_text(false, path, drive, root, segments) }
    }

    /// The text of the double as an owned string.
    pub fn to_string(&self) -> (res: String)
        ensures
            res@ == self.model().raw,
    {
        String::from_str(self.inner.to_str())
    }
}

impl Clone for PurePosixPath {
    fn clone(&self) -> (res: Self)
        ensures
            res.model() == self.model(),
    {
        proof {
            use_type_invariant(self);
        }
        PurePosixPath { inner: self.inner.clone() }
    }
}

impl<'a> PurePath<'a> for PurePosixPath {
    closed spec fn model(&self) -> PathModel {
        self.inner@
    }

    /// Parses the text under the POSIX grammar.
    fn new(path: &'a str) -> (res: Result<Self, PathError>)
        ensures
            res matches Ok(p) ==> p.model() == parse_model(false, path@),
    {
        match Components::parse(path, false) {
            Ok(inner) => Ok(PurePosixPath { inner }),
            Err(e) => Err(e),
        }
    }

    fn to_str(&self) -> (res: &str) {
        self.inner.to_str()
    }

    fn bytes(&self) -> (res: Vec<u8>) {
        self.inner.bytes()
    }

    fn parts(&self) -> (res: Vec<&str>) {
        self.inner.parts()
    }

    fn drive(&self) -> (res: Option<&str>) {
        self.inner.drive()
    }

    fn root(&self) -> (res: Option<&str>) {
        self.inner.root()
    }

    fn anchor(&self) -> (res: Option<&str>) {
        self.inner.anchor()
    }

    fn parents(&self) -> (res: Vec<&str>) {
        self.inner.parents()
    }

    fn parent(&self) -> (res: Option<&str>) {
        self.inner.parent()
    }

    fn name(&self) -> (res: Option<&str>) {
        self.inner.name()
    }

    fn suffix(&self) -> (res: Option<&str>) {
        self.inner.suffix()
    }

    fn suffixes(&self) -> (res: Vec<&str>) {
        self.inner.suffixes()
    }

    fn stem(&self) -> (res: Option<&str>) {
        self.inner.stem()
    }

    fn as_uri(&self) -> (res: Result<String, PathError>) {
        self.inner.as_uri()
    }

    fn is_absolute(&self) -> (res: bool) {
        self.inner.is_absolute()
    }

    fn is_relative_to(&self, other: &Self) -> (res: bool) {
        self.inner.is_relative_to(&other.inner)
    }

    fn is_reserved(&self) -> (res: bool) {
        self.inner.is_reserved()
    }

    fn join_path(&self, other: &Self) -> (res: Self) {
        proof {
            use_type_invariant(self);
            use_type_invariant(other);
        }
        let inner = self.inner.join_path(&other.inner);
        PurePosixPath { inner }
    }

    fn match_expr(&self, pattern: &str) -> (res: bool) {
        self.inner.match_expr(pattern)
    }

    fn relative_to(&self, other: &Self) -> (res: Result<Self, PathError>) {
        proof {
            use_type_invariant(self);
        }
        match self.inner.relative_to(&other.inner) {
            Ok(inner) => Ok(PurePosixPath { inner }),
            Err(e) => Err(e),
        }
    }

    fn with_name(&self, name: &str) -> (res: Result<Self, PathError>) {
        proof {
            use_type_invariant(self);
        }
        match self.inner.with_name(name) {
            Ok(inner) => Ok(PurePosixPath { inner }),
            Err(e) => Err(e),
        }
    }

    fn with_stem(&self, stem: &str) -> (res: Result<Self, PathError>) {
        proof {
            use_type_invariant(self);
        }
        match self.inner.with_stem(stem) {
            Ok(inner) => Ok(PurePosixPath { inner }),
            Err(e) => Err(e),
        }
    }

    fn with_suffix(&self, suffix: &str) -> (res: Result<Self, PathError>) {
        proof {
            use_type_invariant(self);
        }
        match self.inner.with_suffix(suffix) {
            Ok(inner) => Ok(PurePosixPath { inner }),
            Err(e) => Err(e),
        }
    }
}

impl Clone for PureWindowsPath {
    fn clone(&self) -> (res: Self)
        ensures
            res.model() == self.model(),
    {
        proof {
            use_type_invariant(self);
        }
        PureWindowsPath { inner: self.inner.clone() }
    }
}

impl<'a> PurePath<'a> for PureWindowsPath {
    closed spec fn model(&self) -> PathModel {
        self.inner@
    }

    /// Parses the text under the Windows grammar.
    fn new(path: &'a str) -> (res: Result<Self, PathError>)
        ensures
            res matches Ok(p) ==> p.model() == parse_model(true, path@),
    {
        match Components::parse(path, true) {
            Ok(inner) => Ok(PureWindowsPath { inner }),
            Err(e) => Err(e),
        }
    }

    fn to_str(&self) -> (res: &str) {
        self.inner.to_str()
    }

    fn bytes(&self) -> (res: Vec<u8>) {
        self.inner.bytes()
    }

    fn parts(&self) -> (res: Vec<&str>) {
        self.inner.parts()
    }

    fn drive(&self) -> (res: Option<&str>) {
        self.inner.drive()
    }

    fn root(&self) -> (res: Option<&str>) {
        self.inner.root()
    }

    fn anchor(&self) -> (res: Option<&str>) {
        self.inner.anchor()
    }

    fn parents(&self) -> (res: Vec<&str>) {
        self.inner.parents()
    }

    fn parent(&self) -> (res: Option<&str>) {
        self.inner.parent()
    }

    fn name(&self) -> (res: Option<&str>) {
        self.inner.name()
    }

    fn suffix(&self) -> (res: Option<&str>) {
        self.inner.suffix()
    }

    fn suffixes(&self) -> (res: Vec<&str>) {
        self.inner.suffixes()
    }

    fn stem(&self) -> (res: Option<&str>) {
        self.inner.stem()
    }

    fn as_uri(&self) -> (res: Result<String, PathError>) {
        self.inner.as_uri()
    }

    fn is_absolute(&self) -> (res: bool) {
        self.inner.is_absolute()
    }

    fn is_relative_to(&self, other: &Self) -> (res: bool) {
        self.inner.is_relative_to(&other.inner)
    }

    fn is_reserved(&self) -> (res: bool) {
        self.inner.is_reserved()
    }

    fn join_path(&self, other: &Self) -> (res: Self) {
        proof {
            use_type_invariant(self);
            use_type_invariant(other);
        }
        let inner = self.inner.join_path(&other.inner);
        PureWindowsPath { inner }
    }

    fn match_expr(&self, pattern: &str) -> (res: bool) {
        self.inner.match_expr(pattern)
    }

    fn relative_to(&self, other: &Self) -> (res: Result<Self, PathError>) {
        proof {
            use_type_invariant(self);
        }
        match self.inner.relative_to(&other.inner) {
            Ok(inner) => Ok(PureWindowsPath { inner }),
            Err(e) => Err(e),
        }
    }

    fn with_name(&self, name: &str) -> (res: Result<Self, PathError>) {
        proof {
            use_type_invariant(self);
        }
        match self.inner.with_name(name) {
            Ok(inner) => Ok(PureWindowsPath { inner }),
            Err(e) => Err(e),
        }
    }

    fn with_stem(&self, stem: &str) -> (res: Result<Self, PathError>) {
        proof {
            use_type_invariant(self);
        }
        match self.inner.with_stem(stem) {
            Ok(inner) => Ok(PureWindowsPath { inner }),
            Err(e) => Err(e),
        }
    }

    fn with_suffix(&self, suffix: &str) -> (res: Result<Self, PathError>) {
        proof {
            use_type_invariant(self);
        }
        match self.inner.with_suffix(suffix) {
            Ok(inner) => Ok(PureWindowsPath { inner }),
            Err(e) => Err(e),
        }
    }
}

impl Clone for MockPath {
    fn clone(&self) -> (res: Self)
        ensures
            res.model() == self.model(),
    {
        proof {
            use_type_invariant(self);
        }
        MockPath { inner: self.inner.clone() }
    }
}

impl<'a> PurePath<'a> for MockPath {
    closed spec fn model(&self) -> PathModel {
        self.inner@
    }

    /// Parses the text under the POSIX grammar.
    fn new(path: &'a str) -> (res: Result<Self, PathError>)
        ensures
            res matches Ok(p) ==> p.model() == parse_model(false, path@),
    {
        match Components::parse(path, false) {
            Ok(inner) => Ok(MockPath { inner }),
            Err(e) => Err(e),
        }
    }

    fn to_str(&self) -> (res: &str) {
        self.inner.to_str()
    }

    fn bytes(&self) -> (res: Vec<u8>) {
        self.inner.bytes()
    }

    fn parts(&self) -> (res: Vec<&str>) {
        self.inner.parts()
    }

    fn drive(&self) -> (res: Option<&str>) {
        self.inner.drive()
    }

    fn root(&self) -> (res: Option<&str>) {
        self.inner.root()
    }

    fn anchor(&self) -> (res: Option<&str>) {
        self.inner.anchor()
    }

    fn parents(&self) -> (res: Vec<&str>) {
        self.inner.parents()
    }

    fn parent(&self) -> (res: Option<&str>) {
        self.inner.parent()
    }

    fn name(&self) -> (res: Option<&str>) {
        self.inner.name()
    }

    fn suffix(&self) -> (res: Option<&str>) {
        self.inner.suffix()
    }

    fn suffixes(&self) -> (res: Vec<&str>) {
        self.inner.suffixes()
    }

    fn stem(&self) -> (res: Option<&str>) {
        self.inner.stem()
    }

    fn as_uri(&self) -> (res: Result<String, PathError>) {
        self.inner.as_uri()
    }

    fn is_absolute(&self) -> (res: bool) {
        self.inner.is_absolute()
    }

    fn is_relative_to(&self, other: &Self) -> (res: bool) {
        self.inner.is_relative_to(&other.inner)
    }

    fn is_reserved(&self) -> (res: bool) {
        self.inner.is_reserved()
    }

    fn join_path(&self, other: &Self) -> (res: Self) {
        proof {
            use_type_invariant(self);
            use_type_invariant(other);
        }
        let inner = self.inner.join_path(&other.inner);
        MockPath { inner }
    }

    fn match_expr(&self, pattern: &str) -> (res: bool) {
        self.inner.match_expr(pattern)
    }

    fn relative_to(&self, other: &Self) -> (res: Result<Self, PathError>) {
        proof {
            use_type_invariant(self);
        }
        match self.inner.relative_to(&other.inner) {
            Ok(inner) => Ok(MockPath { inner }),
            Err(e) => Err(e),
        }
    }

    fn with_name(&self, name: &str) -> (res: Result<Self, PathError>) {
        proof {
            use_type_invariant(self);
        }
        match self.inner.with_name(name) {
            Ok(inner) => Ok(MockPath { inner }),
            Err(e) => Err(e),
        }
    }

    fn with_stem(&self, stem: &str) -> (res: Result<Self, PathError>) {
        proof {
            use_type_invariant(self);
        }
        match self.inner.with_stem(stem) {
            Ok(inner) => Ok(MockPath { inner }),
            Err(e) => Err(e),
        }
    }

    fn with_suffix(&self, suffix: &str) -> (res: Result<Self, PathError>) {
        proof {
            use_type_invariant(self);
        }
        match self.inner.with_suffix(suffix) {
            Ok(inner) => Ok(MockPath { inner }),
            Err(e) => Err(e),
        }
    }
}

impl PurePosixPath {
    /// The POSIX grammar rules the value inside.
    #[verifier::type_invariant]
    spec fn posix_only(self) -> bool {
        !self.inner@.windows
    }

    /// The parsed value that this path holds.
    pub(crate) fn components(&self) -> (res: &Components)
        ensures
            res@ == self.model(),
            !res@.windows,
    {
        proof {
            use_type_invariant(self);
        }
        &self.inner
    }

    /// The path that holds the given value.
    pub(crate) fn from_components(inner: Components) -> (res: PurePosixPath)
        requires
            !inner@.windows,
        ensures
            res.model() == inner@,
    {
        PurePosixPath { inner }
    }
}

impl PureWindowsPath {
    /// The Windows grammar rules the value inside.
    #[verifier::type_invariant]
    spec fn windows_only(self) -> bool {
        self.inner@.windows
    }

    /// The parsed value that this path holds.
    pub(crate) fn components(&self) -> (res: &Components)
        ensures
            res@ == self.model(),
            res@.windows,
    {
        proof {
            use_type_invariant(self);
        }
        &self.inner
    }

    /// The path that holds the given value.
    pub(crate) fn from_components(inner: Components) -> (res: PureWindowsPath)
        requires
            inner@.windows,
        ensures
            res.model() == inner@,
    {
        PureWindowsPath { inner }
    }
}

impl MockPath {
    /// The POSIX grammar rules the value inside.
    #[verifier::type_invariant]
    spec fn posix_only(self) -> bool {
        !self.inner@.windows
    }

    /// The parsed value that this path holds.
    pub(crate) fn components(&self) -> (res: &Components)
        ensures
            res@ == self.model(),
            !res@.windows,
    {
        proof {
            use_type_invariant(self);
        }
        &self.inner
    }

    /// The path that holds the given value.
    pub(crate) fn from_components(inner: Components) -> (res: MockPath)
        requires
            !inner@.windows,
        ensures
            res.model() == inner@,
    {
        MockPath { inner }
    }
}

} // verus!
