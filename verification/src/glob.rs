use crate::components::Components;
use crate::model::{fold, is_sep, parse_model, slice_texts, PathModel};
use crate::text::{fold_char, sep_here};
use vstd::prelude::*;
use vstd::string::*;

verus! {

/// Index of the first `]` of `p` at or behind `from`; `p.len()` where there
/// is none.
pub open spec fn find_close(p: Seq<char>, from: int) -> int
    decreases p.len() - from,
{
    if from >= p.len() {
        p.len() as int
    } else if p[from] == ']' {
        from
    } else {
        find_close(p, from + 1)
    }
}

/// Whether the class that `p` opens with is negated by `!`.
pub open spec fn class_negated(p: Seq<char>) -> bool {
    p.len() > 1 && p[1] == '!'
}

/// Where the members of the class start.
pub open spec fn class_body_start(p: Seq<char>) -> int {
    if class_negated(p) {
        2
    } else {
        1
    }
}

/// Where the class that `p` opens with closes; `p.len()` where it does not.
/// A `]` in first place is a member and closes nothing.
pub open spec fn class_close(p: Seq<char>) -> int {
    let b = class_body_start(p);
    if b < p.len() && p[b] == ']' {
        find_close(p, b + 1)
    } else {
        find_close(p, b)
    }
}

/// Whether `c` is among the members `body`: single characters, and ranges
/// written `a-z`.
pub open spec fn in_class(body: Seq<char>, c: char, windows: bool) -> bool
    decreases body.len(),
{
    if body.len() == 0 {
        false
    } else if body.len() >= 3 && body[1] == '-' {
        (fold(body[0], windows) <= fold(c, windows) && fold(c, windows) <= fold(body[2], windows))
            || in_class(body.skip(3), c, windows)
    } else {
        fold(body[0], windows) == fold(c, windows) || in_class(body.skip(1), c, windows)
    }
}

/// Whether the class that `p` opens with takes `c`.
pub open spec fn class_accepts(p: Seq<char>, c: char, windows: bool) -> bool {
    class_negated(p) != in_class(p.subrange(class_body_start(p), class_close(p)), c, windows)
}

/// Whether the whole of `s` matches the pattern `p`: `*` takes any run of
/// characters that are no separators, `?` one such character, a closed
/// `[...]` one character of the class, and any other character itself, as
/// the grammar compares characters. A `[` that nothing closes is literal.
pub open spec fn glob_match(p: Seq<char>, s: Seq<char>, windows: bool) -> bool
    decreases p.len(), s.len(),
{
    if p.len() == 0 {
        s.len() == 0
    } else if p[0] == '*' {
        glob_match(p.skip(1), s, windows) || (s.len() > 0 && !is_sep(s[0], windows) && glob_match(
            p,
            s.skip(1),
            windows,
        ))
    } else if s.len() == 0 {
        false
    } else if p[0] == '?' {
        !is_sep(s[0], windows) && glob_match(p.skip(1), s.skip(1), windows)
    } else if p[0] == '[' && 0 < class_close(p) < p.len() {
        class_accepts(p, s[0], windows) && glob_match(
            p.skip(class_close(p) + 1),
            s.skip(1),
            windows,
        )
    } else {
        fold(p[0], windows) == fold(s[0], windows) && glob_match(p.skip(1), s.skip(1), windows)
    }
}

/// Whether the last parts of `p` match the parts of the pattern one by one;
/// an anchored pattern must cover all parts of `p`.
pub open spec fn match_model(p: PathModel, pat: PathModel) -> bool {
    let pp = pat.parts();
    let sp = p.parts();
    &&& pp.len() <= sp.len()
    &&& pat.has_anchor() ==> pp.len() == sp.len()
    &&& forall|i: int|
        0 <= i < pp.len() ==> glob_match(#[trigger] pp[i], sp[sp.len() - pp.len() + i], p.windows)
}

/// The closing bracket is never in front of where the search starts.
pub proof fn find_close_bound(p: Seq<char>, from: int)
    requires
        0 <= from,
    ensures
        from <= find_close(p, from) || find_close(p, from) == p.len(),
        find_close(p, from) <= p.len() || find_close(p, from) == from,
    decreases p.len() - from,
{
    if from < p.len() && p[from] != ']' {
        find_close_bound(p, from + 1);
    }
}

fn find_close_at(p: &str, from: usize) -> (res: usize)
    requires
        from <= p@.len(),
    ensures
        res == find_close(p@, from as int),
        from <= res <= p@.len(),
{
    let n: usize = p.unicode_len();
    let mut j: usize = from;
    while j < n
        invariant
            n == p@.len(),
            from <= j <= n,
            find_close(p@, from as int) == find_close(p@, j as int),
        decreases n - j,
    {
        if p.get_char(j) == ']' {
            return j;
        }
        j += 1;
    }
    j
}

fn class_close_at(p: &str) -> (res: usize)
    requires
        p@.len() >= 1,
    ensures
        res == class_close(p@),
        1 <= res <= p@.len(),
{
    let n: usize = p.unicode_len();
    let b: usize = if n > 1 && p.get_char(1) == '!' {
        2
    } else {
        1
    };
    if b < n && p.get_char(b) == ']' {
        find_close_at(p, b + 1)
    } else {
        find_close_at(p, b)
    }
}

fn in_class_here(body: &str, c: char, windows: bool) -> (res: bool)
    ensures
        res == in_class(body@, c, windows),
    decreases body@.len(),
{
    let n: usize = body.unicode_len();
    if n == 0 {
        return false;
    }
    let fc = fold_char(c, windows);
    if n >= 3 && body.get_char(1) == '-' {
        assert(body@.subrange(3, n as int) =~= body@.skip(3));
        (fold_char(body.get_char(0), windows) <= fc && fc <= fold_char(body.get_char(2), windows))
            || in_class_here(body.substring_char(3, n), c, windows)
    } else {
        assert(body@.subrange(1, n as int) =~= body@.skip(1));
        fold_char(body.get_char(0), windows) == fc || in_class_here(
            body.substring_char(1, n),
            c,
            windows,
        )
    }
}

/// Whether the whole of `s` matches the pattern `p`.
pub fn glob_matches(p: &str, s: &str, windows: bool) -> (res: bool)
    ensures
        res == glob_match(p@, s@, windows),
    decreases p@.len(), s@.len(),
{
    let pn: usize = p.unicode_len();
    let sn: usize = s.unicode_len();
    if pn == 0 {
        return sn == 0;
    }
    let pc = p.get_char(0);
    proof {
        assert(p@.subrange(1, pn as int) =~= p@.skip(1));
        if sn > 0 {
            assert(s@.subrange(1, sn as int) =~= s@.skip(1));
        }
    }
    if pc == '*' {
        if glob_matches(p.substring_char(1, pn), s, windows) {
            return true;
        }
        return sn > 0 && !sep_here(s.get_char(0), windows) && glob_matches(
            p,
            s.substring_char(1, sn),
            windows,
        );
    }
    if sn == 0 {
        return false;
    }
    let sc = s.get_char(0);
    if pc == '?' {
        return !sep_here(sc, windows) && glob_matches(
            p.substring_char(1, pn),
            s.substring_char(1, sn),
            windows,
        );
    }
    if pc == '[' {
        let close: usize = class_close_at(p);
        if close < pn {
            let negated = pn > 1 && p.get_char(1) == '!';
            let b: usize = if negated {
                2
            } else {
                1
            };
            proof {
                find_close_bound(p@, b as int);
                find_close_bound(p@, b + 1);
                assert(p@.subrange(close + 1, pn as int) =~= p@.skip(close + 1));
            }
            let inside = in_class_here(p.substring_char(b, close), sc, windows);
            return (negated != inside) && glob_matches(
                p.substring_char(close + 1, pn),
                s.substring_char(1, sn),
                windows,
            );
        }
    }
    fold_char(pc, windows) == fold_char(sc, windows) && glob_matches(
        p.substring_char(1, pn),
        s.substring_char(1, sn),
        windows,
    )
}

impl Components {
    /// Whether the path matches the pattern. The pattern is split as a path
    /// is, and its parts are held against the last parts of the path; an
    /// anchored pattern must cover the whole path. A pattern without parts
    /// matches every path.
    pub fn match_expr(&self, pattern: &str) -> (res: bool)
        ensures
            res == match_model(self@, parse_model(self@.windows, pattern@)),
    {
        let windows = self.is_windows();
        let pat = Components::decompose(pattern, windows);
        let pp = pat.parts();
        let sp = self.parts();
        assert(slice_texts(pp@).len() == pp@.len());
        assert(slice_texts(sp@).len() == sp@.len());
        if pp.len() > sp.len() {
            return false;
        }
        if pat.anchor().is_some() && pp.len() != sp.len() {
            return false;
        }
        let shift: usize = sp.len() - pp.len();
        let mut i: usize = 0;
        while i < pp.len()
            invariant
                i <= pp.len(),
                shift + pp.len() == sp.len(),
                windows == self@.windows,
                pat@ == parse_model(windows, pattern@),
                slice_texts(pp@) == pat@.parts(),
                slice_texts(sp@) == self@.parts(),
                forall|k: int|
                    0 <= k < i ==> glob_match(
                        #[trigger] pat@.parts()[k],
                        self@.parts()[shift + k],
                        windows,
                    ),
            decreases pp.len() - i,
        {
            assert(slice_texts(pp@)[i as int] == pp@[i as int]@);
            assert(slice_texts(sp@)[shift + i] == sp@[shift + i]@);
            if !glob_matches(pp[i], sp[shift + i], windows) {
                assert(!glob_match(
                    pat@.parts()[i as int],
                    self@.parts()[self@.parts().len() - pat@.parts().len() + i],
                    windows,
                ));
                return false;
            }
            i += 1;
        }
        true
    }
}

} // verus!
