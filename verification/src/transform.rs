use crate::components::{clone_strings, first_strings, Components};
use crate::error::PathError;
use crate::lemmas::{has_sep_concat, last_dot_bound};
use crate::model::{
    has_sep, join_model, relative_model, renamed_model, same_text, slice_texts,
    stem_of, suffix_of, suffix_ok, texts,
};
use crate::text::{contains_sep, same_str};
use vstd::prelude::*;
use vstd::string::*;

verus! {

/// Appends copies of the strings of `more`.
fn append_strings(out: &mut Vec<String>, more: &Vec<String>)
    ensures
        texts(final(out)@) == texts(old(out)@) + texts(more@),
{
    let mut i: usize = 0;
    while i < more.len()
        invariant
            i <= more.len(),
            out@.len() == old(out)@.len() + i,
            forall|k: int| 0 <= k < old(out)@.len() ==> out@[k] == old(out)@[k],
            forall|k: int| 0 <= k < i ==> out@[old(out)@.len() + k]@ == more@[k]@,
        decreases more.len() - i,
    {
        out.push(more[i].clone());
        i += 1;
    }
    assert(texts(out@) =~= texts(old(out)@) + texts(more@));
}

impl Components {
    /// Whether the path is anchored and, under Windows, has a drive wherever
    /// it has a root.
    pub fn is_absolute(&self) -> (res: bool)
        ensures
            res == self@.is_absolute(),
    {
        let has_drive = self.drive_text().unicode_len() > 0;
        let has_root = self.root_text().unicode_len() > 0;
        (has_drive || has_root) && (!(self.is_windows() && has_root) || has_drive)
    }

    /// Whether the parts of `other` begin the parts of this path.
    pub fn is_relative_to(&self, other: &Components) -> (res: bool)
        ensures
            res == self@.is_relative_to(other@),
    {
        let mine = self.parts();
        let theirs = other.parts();
        if theirs.len() > mine.len() {
            return false;
        }
        let mut i: usize = 0;
        while i < theirs.len()
            invariant
                i <= theirs.len() <= mine.len(),
                slice_texts(mine@) == self@.parts(),
                slice_texts(theirs@) == other@.parts(),
                forall|k: int|
                    0 <= k < i ==> same_text(
                        #[trigger] self@.parts()[k],
                        other@.parts()[k],
                        self@.windows,
                    ),
            decreases theirs.len() - i,
        {
            assert(slice_texts(mine@)[i as int] == mine@[i as int]@);
            assert(slice_texts(theirs@)[i as int] == theirs@[i as int]@);
            if !same_str(mine[i], theirs[i], self.is_windows()) {
                return false;
            }
            i += 1;
        }
        assert(slice_texts(mine@).len() == mine@.len());
        assert(slice_texts(theirs@).len() == theirs@.len());
        true
    }

    /// `other` itself where it is absolute; else this path with the segments
    /// of `other` behind its own.
    pub fn join_path(&self, other: &Components) -> (res: Components)
        ensures
            res@ == join_model(self@, other@),
    {
        if other.is_absolute() {
            other.clone()
        } else {
            let mut segs = clone_strings(self.segs_ref());
            append_strings(&mut segs, other.segs_ref());
            Components::assemble(
                self.is_windows(),
                String::from_str(self.drive_text()),
                String::from_str(self.root_text()),
                segs,
            )
        }
    }

    /// The segments of this path behind the parts of `other`, as a path
    /// without an anchor. The anchor of this path is never among them.
    pub fn relative_to(&self, other: &Components) -> (res: Result<Components, PathError>)
        ensures
            res is Err <==> !self@.is_relative_to(other@),
            res matches Err(e) ==> e == PathError::ValueError,
            res matches Ok(p) ==> p@ == relative_model(self@, other@),
    {
        if !self.is_relative_to(other) {
            return Err(PathError::ValueError);
        }
        let own = self.segs_ref();
        let theirs: usize = other.parts().len();
        let lead: usize = if self.anchor().is_some() {
            1
        } else {
            0
        };
        let skip: usize = if theirs > lead {
            theirs - lead
        } else {
            0
        };
        assert(texts(own@).len() == own@.len());
        let mut segs: Vec<String> = Vec::new();
        let mut i: usize = skip;
        while i < own.len()
            invariant
                skip <= i <= own.len(),
                segs@.len() == i - skip,
                forall|k: int| 0 <= k < i - skip ==> segs@[k]@ == own@[skip + k]@,
            decreases own.len() - i,
        {
            segs.push(own[i].clone());
            i += 1;
        }
        assert(texts(segs@) =~= texts(own@).skip(skip as int));
        Ok(Components::assemble(self.is_windows(), String::new(), String::new(), segs))
    }

    /// This path with its last segment replaced.
    pub fn with_name(&self, name: &str) -> (res: Result<Components, PathError>)
        ensures
            res is Err <==> !self@.has_name() || has_sep(name@, self@.windows),
            res matches Err(e) ==> e == PathError::ValueError,
            res matches Ok(p) ==> p@ == renamed_model(self@, name@),
    {
        let own = self.segs_ref();
        let n: usize = own.len();
        assert(texts(own@).len() == own@.len());
        if self.name().is_none() || contains_sep(name, self.is_windows()) {
            return Err(PathError::ValueError);
        }
        let mut segs = first_strings(own, n - 1);
        let ghost before = texts(segs@);
        segs.push(String::from_str(name));
        assert(texts(segs@) =~= before.push(name@));
        assert(self@.segs.take(n - 1) =~= self@.segs.drop_last());
        Ok(
            Components::assemble(
                self.is_windows(),
                String::from_str(self.drive_text()),
                String::from_str(self.root_text()),
                segs,
            ),
        )
    }

    /// This path with the stem of its name replaced; the suffix stays.
    pub fn with_stem(&self, stem: &str) -> (res: Result<Components, PathError>)
        ensures
            res is Err <==> !self@.has_name() || has_sep(
                stem@ + suffix_of(self@.name()),
                self@.windows,
            ),
            res matches Err(e) ==> e == PathError::ValueError,
            res matches Ok(p) ==> p@ == renamed_model(self@, stem@ + suffix_of(self@.name())),
    {
        let mut name = String::from_str(stem);
        match self.suffix() {
            Some(suffix) => {
                name.append(suffix);
            },
            None => {
                assert(stem@ + suffix_of(self@.name()) =~= stem@);
            },
        }
        self.with_name(name.as_str())
    }

    /// This path with the suffix of its name replaced, or removed where
    /// `suffix` is empty.
    pub fn with_suffix(&self, suffix: &str) -> (res: Result<Components, PathError>)
        ensures
            res is Err <==> !suffix_ok(suffix@, self@.windows) || !self@.has_name() || has_sep(
                stem_of(self@.name()),
                self@.windows,
            ),
            res matches Err(e) ==> e == PathError::ValueError,
            res matches Ok(p) ==> p@ == renamed_model(self@, stem_of(self@.name()) + suffix@),
    {
        if contains_sep(suffix, self.is_windows()) {
            return Err(PathError::ValueError);
        }
        if suffix.unicode_len() > 0 && suffix.get_char(0) != '.' {
            return Err(PathError::ValueError);
        }
        proof {
            last_dot_bound(self@.name());
        }
        match self.stem() {
            Some(stem) => {
                let mut name = String::from_str(stem);
                name.append(suffix);
                proof {
                    has_sep_concat(stem@, suffix@, self@.windows);
                }
                self.with_name(name.as_str())
            },
            None => Err(PathError::ValueError),
        }
    }
}

} // verus!
