use crate::error::PathError;
use crate::model::{
    drive_len, drive_of, has_nul, has_unc, opt_text, parents_of, parse_model, present, render,
    rendered, slice_texts, stem_of, suffix_of, suffixes_of, texts, PathModel,
};
use crate::text::{
    contains_nul, drive_letter_here, join_strings, scan_run, sep_here, sep_string, split_segments,
    suffix_at,
};
use vstd::prelude::*;
use vstd::string::*;
use vstd::utf8::encode_utf8;

verus! {

/// A parsed path: its text and what the text decomposes to. The value never
/// changes; every transformation gives a new one.
#[derive(Debug)]
pub struct Components {
    windows: bool,
    raw: String,
    drive: String,
    root: String,
    anchor: String,
    segs: Vec<String>,
    parents: Vec<String>,
}

impl View for Components {
    type V = PathModel;

    closed spec fn view(&self) -> PathModel {
        PathModel {
            windows: self.windows,
            raw: self.raw@,
            drive: self.drive@,
            root: self.root@,
            segs: texts(self.segs@),
        }
    }
}

/// A copy of a list of strings.
pub fn clone_strings(v: &Vec<String>) -> (res: Vec<String>)
    ensures
        texts(res@) == texts(v@),
{
    let mut out: Vec<String> = Vec::new();
    let mut i: usize = 0;
    while i < v.len()
        invariant
            i <= v.len(),
            out@.len() == i,
            forall|k: int| 0 <= k < i ==> out@[k]@ == v@[k]@,
        decreases v.len() - i,
    {
        out.push(v[i].clone());
        i += 1;
    }
    assert(texts(out@) =~= texts(v@));
    out
}

/// Copies of the first `keep` strings.
pub fn first_strings(v: &Vec<String>, keep: usize) -> (res: Vec<String>)
    requires
        keep <= v@.len(),
    ensures
        texts(res@) == texts(v@).take(keep as int),
{
    let mut out: Vec<String> = Vec::new();
    let mut i: usize = 0;
    while i < keep
        invariant
            i <= keep <= v@.len(),
            out@.len() == i,
            forall|k: int| 0 <= k < i ==> out@[k]@ == v@[k]@,
        decreases keep - i,
    {
        out.push(v[i].clone());
        i += 1;
    }
    assert(texts(out@) =~= texts(v@).take(keep as int));
    out
}

/// Texts of the ancestors of the path with this anchor and these segments,
/// nearest first.
fn ancestor_texts(windows: bool, drive: &str, root: &str, segs: &Vec<String>) -> (res: Vec<
    String,
>)
    ensures
        texts(res@) == parents_of(windows, drive@, root@, texts(segs@)),
{
    let anchor = String::from_str(drive).concat(root);
    let n: usize = segs.len();
    let mut out: Vec<String> = Vec::new();
    let mut k: usize = 0;
    while k < n
        invariant
            n == segs@.len(),
            k <= n,
            out@.len() == k,
            anchor@ == drive@ + root@,
            forall|j: int|
                0 <= j < k ==> out@[j]@ == render(
                    windows,
                    drive@,
                    root@,
                    texts(segs@).take(n - 1 - j),
                ),
        decreases n - k,
    {
        let head = first_strings(segs, n - 1 - k);
        out.push(anchor.clone().concat(join_strings(&head, windows).as_str()));
        k += 1;
    }
    assert(texts(out@) =~= parents_of(windows, drive@, root@, texts(segs@)));
    out
}

/// The drive that the text starts with, and how many characters it takes.
fn parse_drive(raw: &str, windows: bool) -> (res: (String, usize))
    ensures
        res.0@ == drive_of(raw@, windows),
        res.1 == drive_len(raw@, windows),
        res.1 <= raw@.len(),
{
    let n: usize = raw.unicode_len();
    if !windows {
        let d = String::new();
        assert(d@ =~= raw@.take(0));
        return (d, 0);
    }
    if n >= 2 && sep_here(raw.get_char(0), true) && sep_here(raw.get_char(1), true) {
        let server_end = scan_run(raw, 2, true);
        if server_end > 2 && server_end < n {
            let share_end = scan_run(raw, server_end + 1, true);
            if share_end > server_end + 1 {
                proof {
                    reveal_strlit("\\\\");
                    reveal_strlit("\\");
                }
                let mut d = String::from_str("\\\\");
                d.append(raw.substring_char(2, server_end));
                d.append("\\");
                d.append(raw.substring_char(server_end + 1, share_end));
                assert(has_unc(raw@));
                assert(d@ =~= drive_of(raw@, windows));
                return (d, share_end);
            }
        }
        assert(!has_unc(raw@));
    }
    if n >= 2 && drive_letter_here(raw.get_char(0)) && raw.get_char(1) == ':' {
        return (String::from_str(raw.substring_char(0, 2)), 2);
    }
    let d = String::new();
    assert(d@ =~= raw@.take(0));
    (d, 0)
}

impl Clone for Components {
    fn clone(&self) -> (res: Self)
        ensures
            res@ == self@,
    {
        proof {
            use_type_invariant(self);
        }
        Components {
            windows: self.windows,
            raw: self.raw.clone(),
            drive: self.drive.clone(),
            root: self.root.clone(),
            anchor: self.anchor.clone(),
            segs: clone_strings(&self.segs),
            parents: clone_strings(&self.parents),
        }
    }
}

impl Components {
    /// The stored anchor is drive and root together, and the stored
    /// ancestors are the normal texts of the path cut segment by segment.
    #[verifier::type_invariant]
    spec fn derived(self) -> bool {
        &&& self.anchor@ == self.drive@ + self.root@
        &&& texts(self.parents@) == self@.parents()
    }

    /// Parses `raw` under the POSIX grammar, or the Windows one. Any text
    /// without a NUL character is a path.
    pub fn parse(raw: &str, windows: bool) -> (res: Result<Components, PathError>)
        ensures
            res is Err <==> has_nul(raw@),
            res matches Err(e) ==> e == PathError::InvalidPath,
            res matches Ok(p) ==> p@ == parse_model(windows, raw@),
            res matches Ok(p) ==> p@.raw == raw@,
    {
        if contains_nul(raw) {
            return Err(PathError::InvalidPath);
        }
        Ok(Components::decompose(raw, windows))
    }

    /// Decomposes `raw` by the grammar's rules, whatever characters it holds.
    pub(crate) fn decompose(raw: &str, windows: bool) -> (res: Components)
        ensures
            res@ == parse_model(windows, raw@),
    {
        let n: usize = raw.unicode_len();
        let (drive, taken) = parse_drive(raw, windows);
        let root = if taken < n && sep_here(raw.get_char(taken), windows) {
            sep_string(windows)
        } else {
            String::new()
        };
        let segs = split_segments(raw, taken, windows);
        let anchor = drive.clone().concat(root.as_str());
        let parents = ancestor_texts(windows, drive.as_str(), root.as_str(), &segs);
        Components { windows, raw: String::from_str(raw), drive, root, anchor, segs, parents }
    }

    /// The path made of the given components, with their normal text.
    pub fn assemble(windows: bool, drive: String, root: String, segs: Vec<String>) -> (res:
        Components)
        ensures
            res@ == rendered(windows, drive@, root@, texts(segs@)),
    {
        let anchor = drive.clone().concat(root.as_str());
        let raw = anchor.clone().concat(join_strings(&segs, windows).as_str());
        let parents = ancestor_texts(windows, drive.as_str(), root.as_str(), &segs);
        Components { windows, raw, drive, root, anchor, segs, parents }
    }

    /// The path with the given text and the given components, whether or
    /// not the text parses to them.
    pub(crate) fn with_text(
        windows: bool,
        raw: String,
        drive: String,
        root: String,
        segs: Vec<String>,
    ) -> (res: Components)
        ensures
            res@ == (PathModel { windows, raw: raw@, drive: drive@, root: root@, segs: texts(segs@) }),
    {
        let anchor = drive.clone().concat(root.as_str());
        let parents = ancestor_texts(windows, drive.as_str(), root.as_str(), &segs);
        Components { windows, raw, drive, root, anchor, segs, parents }
    }

    /// The drive's text, empty where there is none.
    pub(crate) fn drive_text(&self) -> (res: &str)
        ensures
            res@ == self@.drive,
    {
        self.drive.as_str()
    }

    /// The root's text, empty where there is none.
    pub(crate) fn root_text(&self) -> (res: &str)
        ensures
            res@ == self@.root,
    {
        self.root.as_str()
    }

    /// The segments after the anchor.
    pub(crate) fn segs_ref(&self) -> (res: &Vec<String>)
        ensures
            texts(res@) == self@.segs,
    {
        &self.segs
    }

    /// Whether the Windows grammar rules this path.
    pub fn is_windows(&self) -> (res: bool)
        ensures
            res == self@.windows,
    {
        self.windows
    }

    /// The text of the path, as it was given or rendered.
    pub fn to_str(&self) -> (res: &str)
        ensures
            res@ == self@.raw,
    {
        self.raw.as_str()
    }

    /// The text of the path in UTF-8.
    pub fn bytes(&self) -> (res: Vec<u8>)
        ensures
            res@ == encode_utf8(self@.raw),
    {
        self.raw.as_str().as_bytes_vec()
    }

    pub fn drive(&self) -> (res: Option<&str>)
        ensures
            opt_text(res) == present(self@.drive),
    {
        if self.drive.as_str().unicode_len() > 0 {
            Some(self.drive.as_str())
        } else {
            None
        }
    }

    pub fn root(&self) -> (res: Option<&str>)
        ensures
            opt_text(res) == present(self@.root),
    {
        if self.root.as_str().unicode_len() > 0 {
            Some(self.root.as_str())
        } else {
            None
        }
    }

    /// Drive and root together.
    pub fn anchor(&self) -> (res: Option<&str>)
        ensures
            opt_text(res) == present(self@.anchor()),
    {
        proof {
            use_type_invariant(self);
        }
        if self.anchor.as_str().unicode_len() > 0 {
            Some(self.anchor.as_str())
        } else {
            None
        }
    }

    /// The anchor, where there is one, then each segment.
    pub fn parts(&self) -> (res: Vec<&str>)
        ensures
            slice_texts(res@) == self@.parts(),
    {
        proof {
            use_type_invariant(self);
        }
        let mut out: Vec<&str> = Vec::new();
        if self.anchor.as_str().unicode_len() > 0 {
            out.push(self.anchor.as_str());
        }
        let ghost lead = slice_texts(out@);
        let mut i: usize = 0;
        while i < self.segs.len()
            invariant
                i <= self.segs.len(),
                out@.len() == lead.len() + i,
                lead.len() <= 1,
                forall|k: int| 0 <= k < lead.len() ==> out@[k]@ == lead[k],
                forall|k: int| 0 <= k < i ==> out@[lead.len() + k]@ == self.segs@[k]@,
            decreases self.segs.len() - i,
        {
            out.push(self.segs[i].as_str());
            i += 1;
        }
        assert(slice_texts(out@) =~= lead + texts(self.segs@));
        assert(lead =~= if self@.has_anchor() {
            seq![self@.anchor()]
        } else {
            Seq::empty()
        });
        assert(Seq::<Seq<char>>::empty() + texts(self.segs@) =~= texts(self.segs@));
        out
    }

    /// The last segment; none for the bare anchor, the empty path, and an
    /// empty last segment.
    pub fn name(&self) -> (res: Option<&str>)
        ensures
            opt_text(res) == present(self@.name()),
    {
        let n: usize = self.segs.len();
        if n > 0 && self.segs[n - 1].as_str().unicode_len() > 0 {
            Some(self.segs[n - 1].as_str())
        } else {
            None
        }
    }

    /// The last extension of the name, with its dot.
    pub fn suffix(&self) -> (res: Option<&str>)
        ensures
            opt_text(res) == present(suffix_of(self@.name())),
    {
        match self.name() {
            Some(name) => {
                let at: usize = suffix_at(name);
                let n: usize = name.unicode_len();
                if at < n {
                    Some(name.substring_char(at, n))
                } else {
                    None
                }
            },
            None => None,
        }
    }

    /// The name without its last extension; none where there is no name.
    pub fn stem(&self) -> (res: Option<&str>)
        ensures
            opt_text(res) == present(stem_of(self@.name())),
    {
        match self.name() {
            Some(name) => Some(name.substring_char(0, suffix_at(name))),
            None => None,
        }
    }

    /// Every extension of the name, left to right.
    pub fn suffixes(&self) -> (res: Vec<&str>)
        ensures
            slice_texts(res@) == suffixes_of(self@.name()),
    {
        match self.name() {
            Some(name) => suffixes_in(name),
            None => {
                let out: Vec<&str> = Vec::new();
                assert(slice_texts(out@) =~= suffixes_of(self@.name()));
                out
            },
        }
    }

    /// Texts of the ancestors, nearest first, down to the bare anchor.
    pub fn parents(&self) -> (res: Vec<&str>)
        ensures
            slice_texts(res@) == self@.parents(),
    {
        proof {
            use_type_invariant(self);
        }
        let mut out: Vec<&str> = Vec::new();
        let mut k: usize = 0;
        while k < self.parents.len()
            invariant
                k <= self.parents.len(),
                out@.len() == k,
                forall|j: int| 0 <= j < k ==> out@[j]@ == self.parents@[j]@,
            decreases self.parents.len() - k,
        {
            out.push(self.parents[k].as_str());
            k += 1;
        }
        assert(slice_texts(out@) =~= texts(self.parents@));
        out
    }

    /// Text of the nearest ancestor; none where the path has no name or
    /// that text is empty.
    pub fn parent(&self) -> (res: Option<&str>)
        ensures
            opt_text(res) == present(self@.parent()),
    {
        proof {
            use_type_invariant(self);
        }
        assert(texts(self.parents@).len() == self.parents@.len());
        if self.name().is_none() {
            return None;
        }
        assert(texts(self.parents@)[0] == self.parents@[0]@);
        if self.parents[0].as_str().unicode_len() > 0 {
            Some(self.parents[0].as_str())
        } else {
            None
        }
    }
}

/// Every extension of `name`, left to right.
pub fn suffixes_in(name: &str) -> (res: Vec<&str>)
    ensures
        slice_texts(res@) == suffixes_of(name@),
    decreases name@.len(),
{
    let n: usize = name.unicode_len();
    let at: usize = suffix_at(name);
    if at < n {
        let mut out = suffixes_in(name.substring_char(0, at));
        let ghost before = slice_texts(out@);
        out.push(name.substring_char(at, n));
        assert(slice_texts(out@) =~= before.push(name@.skip(at as int)));
        out
    } else {
        let out: Vec<&str> = Vec::new();
        assert(slice_texts(out@) =~= Seq::empty());
        out
    }
}

} // verus!
