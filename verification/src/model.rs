use vstd::prelude::*;

verus! {

/// Whether `c` separates segments: `/` always, `\` under the Windows grammar.
pub open spec fn is_sep(c: char, windows: bool) -> bool {
    c == '/' || (windows && c == '\\')
}

/// The separator that rendered text uses.
pub open spec fn sep_char(windows: bool) -> char {
    if windows {
        '\\'
    } else {
        '/'
    }
}

/// Whether any character of `s` is a separator.
pub open spec fn has_sep(s: Seq<char>, windows: bool) -> bool {
    exists|i: int| 0 <= i < s.len() && is_sep(#[trigger] s[i], windows)
}

/// Whether `s` holds the NUL character.
pub open spec fn has_nul(s: Seq<char>) -> bool {
    s.contains('\0')
}

/// Length of the longest prefix of `s` that holds no separator.
pub open spec fn run_len(s: Seq<char>, windows: bool) -> nat
    decreases s.len(),
{
    if s.len() == 0 || is_sep(s[0], windows) {
        0
    } else {
        1 + run_len(s.skip(1), windows)
    }
}

/// The text `.`, which names the current directory and is dropped.
pub open spec fn is_dot(seg: Seq<char>) -> bool {
    seg.len() == 1 && seg[0] == '.'
}

/// A finished token as a list: nothing for an empty token or `.`.
pub open spec fn kept(seg: Seq<char>) -> Seq<Seq<char>> {
    if seg.len() == 0 || is_dot(seg) {
        Seq::empty()
    } else {
        seq![seg]
    }
}

/// Segments of `s` when `cur` is the token read so far.
pub open spec fn split_from(s: Seq<char>, cur: Seq<char>, windows: bool) -> Seq<Seq<char>>
    decreases s.len(),
{
    if s.len() == 0 {
        kept(cur)
    } else if is_sep(s[0], windows) {
        kept(cur) + split_from(s.skip(1), Seq::empty(), windows)
    } else {
        split_from(s.skip(1), cur.push(s[0]), windows)
    }
}

/// The segments of `s`: maximal separator-free runs, in order, without the
/// empty ones and without `.`; `..` stays.
pub open spec fn segments(s: Seq<char>, windows: bool) -> Seq<Seq<char>> {
    split_from(s, Seq::empty(), windows)
}

pub open spec fn is_drive_letter(c: char) -> bool {
    ('a' <= c && c <= 'z') || ('A' <= c && c <= 'Z')
}

/// Length of the server name of a text that starts with two separators.
pub open spec fn unc_server_len(s: Seq<char>) -> nat {
    run_len(s.skip(2), true)
}

/// Length of the share name that follows the server name and one separator.
pub open spec fn unc_share_len(s: Seq<char>) -> nat {
    run_len(s.skip(3 + unc_server_len(s) as int), true)
}

/// Two separators, a server name, one separator, a share name.
pub open spec fn has_unc(s: Seq<char>) -> bool {
    &&& s.len() >= 2
    &&& is_sep(s[0], true)
    &&& is_sep(s[1], true)
    &&& unc_server_len(s) > 0
    &&& 2 + unc_server_len(s) < s.len()
    &&& unc_share_len(s) > 0
}

/// Whether `s` starts with a letter and a colon.
pub open spec fn has_drive_letter(s: Seq<char>) -> bool {
    s.len() >= 2 && is_drive_letter(s[0]) && s[1] == ':'
}

/// How many characters of `s` the drive takes.
pub open spec fn drive_len(s: Seq<char>, windows: bool) -> nat {
    if !windows {
        0
    } else if has_unc(s) {
        3 + unc_server_len(s) + unc_share_len(s)
    } else if has_drive_letter(s) {
        2
    } else {
        0
    }
}

/// The drive of `s`, empty where there is none. A share is written with `\`.
pub open spec fn drive_of(s: Seq<char>, windows: bool) -> Seq<char> {
    if windows && has_unc(s) {
        let a = unc_server_len(s) as int;
        let b = unc_share_len(s) as int;
        seq!['\\', '\\'] + s.subrange(2, 2 + a) + seq!['\\'] + s.subrange(3 + a, 3 + a + b)
    } else {
        s.take(drive_len(s, windows) as int)
    }
}

/// Whether a separator follows the drive.
pub open spec fn has_root(s: Seq<char>, windows: bool) -> bool {
    drive_len(s, windows) < s.len() && is_sep(s[drive_len(s, windows) as int], windows)
}

/// The root of `s`: the grammar's separator, or empty where there is none.
pub open spec fn root_of(s: Seq<char>, windows: bool) -> Seq<char> {
    if has_root(s, windows) {
        seq![sep_char(windows)]
    } else {
        Seq::empty()
    }
}

/// `segs` written one after another with `sep` between neighbours.
pub open spec fn join_segs(segs: Seq<Seq<char>>, sep: char) -> Seq<char>
    decreases segs.len(),
{
    if segs.len() == 0 {
        Seq::empty()
    } else if segs.len() == 1 {
        segs[0]
    } else {
        join_segs(segs.drop_last(), sep) + seq![sep] + segs.last()
    }
}

/// The normal text of a path: drive, root, then the segments joined.
pub open spec fn render(windows: bool, drive: Seq<char>, root: Seq<char>, segs: Seq<Seq<char>>) -> Seq<
    char,
> {
    drive + root + join_segs(segs, sep_char(windows))
}

/// Index of the last `.` of `s`, or -1.
pub open spec fn last_dot(s: Seq<char>) -> int
    decreases s.len(),
{
    if s.len() == 0 {
        -1
    } else if s.last() == '.' {
        s.len() - 1
    } else {
        last_dot(s.drop_last())
    }
}

/// Where the suffix of `name` starts; `name.len()` where it has none. A dot
/// in first place starts no suffix.
pub open spec fn suffix_start(name: Seq<char>) -> int {
    if last_dot(name) > 0 {
        last_dot(name)
    } else {
        name.len() as int
    }
}

/// `name` without its suffix.
pub open spec fn stem_of(name: Seq<char>) -> Seq<char> {
    name.take(suffix_start(name))
}

/// The suffix of `name` with its dot; empty where it has none.
pub open spec fn suffix_of(name: Seq<char>) -> Seq<char> {
    name.skip(suffix_start(name))
}

/// Every suffix of `name`, left to right: those of the stem, then the last.
pub open spec fn suffixes_of(name: Seq<char>) -> Seq<Seq<char>>
    decreases name.len(),
{
    if 0 < last_dot(name) < name.len() {
        suffixes_of(name.take(last_dot(name))).push(name.skip(last_dot(name)))
    } else {
        Seq::empty()
    }
}

/// Lower case of an ASCII capital under Windows; any other character itself.
pub open spec fn fold(c: char, windows: bool) -> char {
    if windows && 'A' <= c && c <= 'Z' {
        ((c as u8) + 32) as char
    } else {
        c
    }
}

/// Equality of two texts as the grammar compares them.
pub open spec fn same_text(a: Seq<char>, b: Seq<char>, windows: bool) -> bool {
    &&& a.len() == b.len()
    &&& forall|i: int| 0 <= i < a.len() ==> fold(#[trigger] a[i], windows) == fold(b[i], windows)
}

/// Whether `parts` starts with `prefix`, part by part.
pub open spec fn starts_with_parts(
    parts: Seq<Seq<char>>,
    prefix: Seq<Seq<char>>,
    windows: bool,
) -> bool {
    &&& prefix.len() <= parts.len()
    &&& forall|i: int| 0 <= i < prefix.len() ==> same_text(#[trigger] parts[i], prefix[i], windows)
}

/// Normal texts of the ancestors of a path, nearest first: the path cut by
/// one segment, by two, and so on down to the bare anchor.
pub open spec fn parents_of(
    windows: bool,
    drive: Seq<char>,
    root: Seq<char>,
    segs: Seq<Seq<char>>,
) -> Seq<Seq<char>> {
    Seq::new(segs.len(), |k: int| render(windows, drive, root, segs.take(segs.len() - 1 - k)))
}

/// What a path is: its grammar, its text, and what the text decomposes to.
/// An empty `drive` or `root` stands for an absent one.
pub struct PathModel {
    pub windows: bool,
    pub raw: Seq<char>,
    pub drive: Seq<char>,
    pub root: Seq<char>,
    pub segs: Seq<Seq<char>>,
}

impl PathModel {
    pub open spec fn anchor(self) -> Seq<char> {
        self.drive + self.root
    }

    pub open spec fn has_anchor(self) -> bool {
        self.anchor().len() > 0
    }

    /// The anchor, where there is one, then the segments.
    pub open spec fn parts(self) -> Seq<Seq<char>> {
        if self.has_anchor() {
            seq![self.anchor()] + self.segs
        } else {
            self.segs
        }
    }

    /// The last segment; empty where there is none.
    pub open spec fn name(self) -> Seq<char> {
        if self.segs.len() > 0 {
            self.segs.last()
        } else {
            Seq::empty()
        }
    }

    /// Whether the path has a name: a last segment that is not empty.
    pub open spec fn has_name(self) -> bool {
        self.name().len() > 0
    }

    /// How many parts the anchor takes: one or none.
    pub open spec fn anchor_parts(self) -> nat {
        if self.has_anchor() {
            1
        } else {
            0
        }
    }

    /// Text of the nearest ancestor; empty where the path has no name.
    pub open spec fn parent(self) -> Seq<char> {
        if self.has_name() {
            self.parent_text(0)
        } else {
            Seq::empty()
        }
    }

    /// Anchored, and under Windows a root does not stand without a drive.
    pub open spec fn is_absolute(self) -> bool {
        self.has_anchor() && (self.windows && self.root.len() > 0 ==> self.drive.len() > 0)
    }

    pub open spec fn is_relative_to(self, other: PathModel) -> bool {
        starts_with_parts(self.parts(), other.parts(), self.windows)
    }

    /// The same components as `self`, whatever the text.
    pub open spec fn same_components(self, other: PathModel) -> bool {
        &&& self.windows == other.windows
        &&& self.drive == other.drive
        &&& self.root == other.root
        &&& self.segs == other.segs
    }

    /// Text of the `k`-th ancestor, the nearest being the 0th.
    pub open spec fn parent_text(self, k: int) -> Seq<char> {
        render(self.windows, self.drive, self.root, self.segs.take(self.segs.len() - 1 - k))
    }

    /// Texts of all ancestors, nearest first, down to the bare anchor.
    pub open spec fn parents(self) -> Seq<Seq<char>> {
        parents_of(self.windows, self.drive, self.root, self.segs)
    }
}

/// The path made of these components, with their normal text.
pub open spec fn rendered(
    windows: bool,
    drive: Seq<char>,
    root: Seq<char>,
    segs: Seq<Seq<char>>,
) -> PathModel {
    PathModel { windows, raw: render(windows, drive, root, segs), drive, root, segs }
}

/// What `raw` parses to under the chosen grammar.
pub open spec fn parse_model(windows: bool, raw: Seq<char>) -> PathModel {
    PathModel {
        windows,
        raw,
        drive: drive_of(raw, windows),
        root: root_of(raw, windows),
        segs: segments(raw.skip(drive_len(raw, windows) as int), windows),
    }
}

/// `q` where it is absolute; else `p` with the segments of `q` appended.
pub open spec fn join_model(p: PathModel, q: PathModel) -> PathModel {
    if q.is_absolute() {
        q
    } else {
        rendered(p.windows, p.drive, p.root, p.segs + q.segs)
    }
}

/// How many segments of `p` the parts of `q` cover, where they begin the
/// parts of `p`: all parts of `q` but the one that is the anchor of `p`.
pub open spec fn covered_segments(p: PathModel, q: PathModel) -> int {
    if q.parts().len() > p.anchor_parts() {
        q.parts().len() - p.anchor_parts()
    } else {
        0
    }
}

/// The segments of `p` behind those that `q` covers, as a path without an
/// anchor. The anchor of `p` is never among them, whether `q` covers it or
/// has no parts at all.
pub open spec fn relative_model(p: PathModel, q: PathModel) -> PathModel {
    rendered(p.windows, Seq::empty(), Seq::empty(), p.segs.skip(covered_segments(p, q)))
}

/// `p` with its last segment replaced by `name`.
pub open spec fn renamed_model(p: PathModel, name: Seq<char>) -> PathModel {
    rendered(p.windows, p.drive, p.root, p.segs.drop_last().push(name))
}

/// Whether `suffix` may replace a suffix: empty, or a dot first, and no
/// separator.
pub open spec fn suffix_ok(suffix: Seq<char>, windows: bool) -> bool {
    (suffix.len() == 0 || suffix[0] == '.') && !has_sep(suffix, windows)
}

/// The texts that a list of strings holds.
pub open spec fn texts(v: Seq<String>) -> Seq<Seq<char>> {
    Seq::new(v.len(), |i: int| v[i]@)
}

/// The texts that a list of string slices holds.
pub open spec fn slice_texts(v: Seq<&str>) -> Seq<Seq<char>> {
    Seq::new(v.len(), |i: int| v[i]@)
}

/// An absent component for the empty text.
pub open spec fn present(s: Seq<char>) -> Option<Seq<char>> {
    if s.len() > 0 {
        Some(s)
    } else {
        None
    }
}

/// The text of an optional string slice.
pub open spec fn opt_text(o: Option<&str>) -> Option<Seq<char>> {
    match o {
        Some(s) => Some(s@),
        None => None,
    }
}

} // verus!
