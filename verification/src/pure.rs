use crate::error::PathError;
use crate::glob::match_model;
use crate::model::{
    has_nul, has_sep, join_model, opt_text, parse_model, present, relative_model, renamed_model,
    slice_texts, stem_of, suffix_of, suffix_ok, suffixes_of, PathModel,
};
use crate::reserved::{base_of, is_device_name};
use crate::uri::uri_of;
use vstd::prelude::*;
use vstd::utf8::encode_utf8;

verus! {

/// A path as a value: conversions, components, properties and
/// transformations, none of which touches a filesystem.
pub trait PurePath<'a>: Sized {
    /// What the path is.
    spec fn model(&self) -> PathModel;

    // === Conversion ===
    /// Parses the text under the grammar of the type. Only a text with a
    /// NUL character is refused, and the path keeps the text as it is.
    fn new(path: &'a str) -> (res: Result<Self, PathError>)
        ensures
            res is Err <==> has_nul(path@),
            res matches Err(e) ==> e == PathError::InvalidPath,
            res matches Ok(p) ==> p.model().raw == path@,
            res matches Ok(p) ==> p.model() == parse_model(p.model().windows, path@),
    ;

    fn to_str(&self) -> (res: &str)
        ensures
            res@ == self.model().raw,
    ;

    fn bytes(&self) -> (res: Vec<u8>)
        ensures
            res@ == encode_utf8(self.model().raw),
    ;

    // === Getters ===
    fn parts(&self) -> (res: Vec<&str>)
        ensures
            slice_texts(res@) == self.model().parts(),
    ;

    fn drive(&self) -> (res: Option<&str>)
        ensures
            opt_text(res) == present(self.model().drive),
    ;

    fn root(&self) -> (res: Option<&str>)
        ensures
            opt_text(res) == present(self.model().root),
    ;

    fn anchor(&self) -> (res: Option<&str>)
        ensures
            opt_text(res) == present(self.model().anchor()),
    ;

    fn parents(&self) -> (res: Vec<&str>)
        ensures
            slice_texts(res@) == self.model().parents(),
    ;

    fn parent(&self) -> (res: Option<&str>)
        ensures
            opt_text(res) == present(self.model().parent()),
    ;

    fn name(&self) -> (res: Option<&str>)
        ensures
            opt_text(res) == present(self.model().name()),
    ;

    fn suffix(&self) -> (res: Option<&str>)
        ensures
            opt_text(res) == present(suffix_of(self.model().name())),
    ;

    fn suffixes(&self) -> (res: Vec<&str>)
        ensures
            slice_texts(res@) == suffixes_of(self.model().name()),
    ;

    fn stem(&self) -> (res: Option<&str>)
        ensures
            opt_text(res) == present(stem_of(self.model().name())),
    ;

    fn as_uri(&self) -> (res: Result<String, PathError>)
        ensures
            res is Err <==> !self.model().is_absolute(),
            res matches Err(e) ==> e == PathError::ValueError,
            res matches Ok(s) ==> s@ == uri_of(self.model()),
    ;

    // === Path properties ===
    fn is_absolute(&self) -> (res: bool)
        ensures
            res == self.model().is_absolute(),
    ;

    fn is_relative_to(&self, other: &Self) -> (res: bool)
        ensures
            res == self.model().is_relative_to(other.model()),
    ;

    fn is_reserved(&self) -> (res: bool)
        ensures
            res == (self.model().windows && self.model().has_name() && is_device_name(
                base_of(self.model().name()),
            )),
    ;

    // === Path transformations ===
    fn join_path(&self, other: &Self) -> (res: Self)
        ensures
            res.model() == join_model(self.model(), other.model()),
    ;

    fn match_expr(&self, pattern: &str) -> (res: bool)
        ensures
            res == match_model(self.model(), parse_model(self.model().windows, pattern@)),
    ;

    fn relative_to(&self, other: &Self) -> (res: Result<Self, PathError>)
        ensures
            res is Err <==> !self.model().is_relative_to(other.model()),
            res matches Err(e) ==> e == PathError::ValueError,
            res matches Ok(p) ==> p.model() == relative_model(self.model(), other.model()),
    ;

    fn with_name(&self, name: &str) -> (res: Result<Self, PathError>)
        ensures
            res is Err <==> !self.model().has_name() || has_sep(name@, self.model().windows),
            res matches Err(e) ==> e == PathError::ValueError,
            res matches Ok(p) ==> p.model() == renamed_model(self.model(), name@),
    ;

    fn with_stem(&self, stem: &str) -> (res: Result<Self, PathError>)
        ensures
            res is Err <==> !self.model().has_name() || has_sep(
                stem@ + suffix_of(self.model().name()),
                self.model().windows,
            ),
            res matches Err(e) ==> e == PathError::ValueError,
            res matches Ok(p) ==> p.model() == renamed_model(
                self.model(),
                stem@ + suffix_of(self.model().name()),
            ),
    ;

    fn with_suffix(&self, suffix: &str) -> (res: Result<Self, PathError>)
        ensures
            res is Err <==> !suffix_ok(suffix@, self.model().windows) || !self.model().has_name()
                || has_sep(stem_of(self.model().name()), self.model().windows),
            res matches Err(e) ==> e == PathError::ValueError,
            res matches Ok(p) ==> p.model() == renamed_model(
                self.model(),
                stem_of(self.model().name()) + suffix@,
            ),
    ;
}

/// Questions about what a path names on a filesystem. The library only
/// states the queries; whoever has a filesystem answers them, and says why
/// where an answer cannot be had.
pub trait SystemPath: Sized {
    fn new(path: &str) -> Result<Self, PathError>;

    fn is_dir(&self) -> Result<bool, PathError>;

    fn is_file(&self) -> Result<bool, PathError>;

    fn is_symlink(&self) -> Result<bool, PathError>;

    fn is_executable(&self) -> Result<bool, PathError>;

    fn is_readable(&self) -> Result<bool, PathError>;

    fn is_writable(&self) -> Result<bool, PathError>;
}

} // verus!
