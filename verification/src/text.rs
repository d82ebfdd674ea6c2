use crate::model::{
    fold, has_nul, has_sep, is_drive_letter, is_sep, join_segs, kept, last_dot, run_len, same_text,
    segments, sep_char, split_from, suffix_start, texts,
};
use vstd::prelude::*;
use vstd::string::*;

verus! {

/// Whether `c` separates segments under the chosen grammar.
pub fn sep_here(c: char, windows: bool) -> (res: bool)
    ensures
        res == is_sep(c, windows),
{
    c == '/' || (windows && c == '\\')
}

/// Whether the text holds a separator.
pub fn contains_sep(s: &str, windows: bool) -> (res: bool)
    ensures
        res == has_sep(s@, windows),
{
    let n: usize = s.unicode_len();
    let mut i: usize = 0;
    while i < n
        invariant
            n == s@.len(),
            i <= n,
            forall|k: int| 0 <= k < i ==> !is_sep(#[trigger] s@[k], windows),
        decreases n - i,
    {
        if sep_here(s.get_char(i), windows) {
            return true;
        }
        i += 1;
    }
    false
}

/// Whether the text holds the NUL character.
pub fn contains_nul(s: &str) -> (res: bool)
    ensures
        res == has_nul(s@),
{
    let n: usize = s.unicode_len();
    let mut i: usize = 0;
    while i < n
        invariant
            n == s@.len(),
            i <= n,
            forall|k: int| 0 <= k < i ==> s@[k] != '\0',
        decreases n - i,
    {
        if s.get_char(i) == '\0' {
            return true;
        }
        i += 1;
    }
    false
}

/// The grammar's separator as a string.
pub fn sep_string(windows: bool) -> (res: String)
    ensures
        res@ == seq![sep_char(windows)],
{
    proof {
        reveal_strlit("\\");
        reveal_strlit("/");
    }
    let res = if windows {
        String::from_str("\\")
    } else {
        String::from_str("/")
    };
    assert(res@ =~= seq![sep_char(windows)]);
    res
}

/// Whether `c` is an ASCII letter.
pub fn drive_letter_here(c: char) -> (res: bool)
    ensures
        res == is_drive_letter(c),
{
    ('a' <= c && c <= 'z') || ('A' <= c && c <= 'Z')
}

/// The character as the grammar compares it.
pub fn fold_char(c: char, windows: bool) -> (res: char)
    ensures
        res == fold(c, windows),
{
    if windows && 'A' <= c && c <= 'Z' {
        ((c as u8) + 32) as char
    } else {
        c
    }
}

/// Whether two texts are equal as the grammar compares them.
pub fn same_str(a: &str, b: &str, windows: bool) -> (res: bool)
    ensures
        res == same_text(a@, b@, windows),
{
    let n: usize = a.unicode_len();
    if b.unicode_len() != n {
        return false;
    }
    let mut i: usize = 0;
    while i < n
        invariant
            n == a@.len(),
            n == b@.len(),
            i <= n,
            forall|k: int| 0 <= k < i ==> fold(#[trigger] a@[k], windows) == fold(b@[k], windows),
        decreases n - i,
    {
        if fold_char(a.get_char(i), windows) != fold_char(b.get_char(i), windows) {
            return false;
        }
        i += 1;
    }
    true
}

/// Where the separator-free run that starts at `from` ends.
pub fn scan_run(s: &str, from: usize, windows: bool) -> (end: usize)
    requires
        from <= s@.len(),
    ensures
        from <= end <= s@.len(),
        end - from == run_len(s@.skip(from as int), windows),
{
    let n: usize = s.unicode_len();
    let mut j: usize = from;
    while j < n
        invariant
            n == s@.len(),
            from <= j <= n,
            run_len(s@.skip(from as int), windows) == (j - from) + run_len(
                s@.skip(j as int),
                windows,
            ),
        decreases n - j,
    {
        proof {
            assert(s@.skip(j as int)[0] == s@[j as int]);
            assert(s@.skip(j as int).skip(1) =~= s@.skip(j + 1));
        }
        if sep_here(s.get_char(j), windows) {
            return j;
        }
        j += 1;
    }
    j
}

/// Appends the token `s[a..b]` unless it is empty or `.`.
fn push_kept(out: &mut Vec<String>, s: &str, a: usize, b: usize)
    requires
        a <= b <= s@.len(),
    ensures
        texts(final(out)@) == texts(old(out)@) + kept(s@.subrange(a as int, b as int)),
{
    if b > a && !(b - a == 1 && s.get_char(a) == '.') {
        out.push(String::from_str(s.substring_char(a, b)));
        assert(texts(out@) =~= texts(old(out)@) + seq![s@.subrange(a as int, b as int)]);
    } else {
        assert(texts(out@) =~= texts(old(out)@) + kept(s@.subrange(a as int, b as int)));
    }
}

/// The segments of the text from `from` on.
pub fn split_segments(s: &str, from: usize, windows: bool) -> (res: Vec<String>)
    requires
        from <= s@.len(),
    ensures
        texts(res@) == segments(s@.skip(from as int), windows),
{
    let n: usize = s.unicode_len();
    let mut out: Vec<String> = Vec::new();
    let mut start: usize = from;
    let mut i: usize = from;
    assert(texts(out@) =~= Seq::empty());
    assert(s@.subrange(from as int, from as int) =~= Seq::empty());
    assert(texts(out@) + segments(s@.skip(from as int), windows) =~= segments(
        s@.skip(from as int),
        windows,
    ));
    while i < n
        invariant
            n == s@.len(),
            from <= start <= i <= n,
            segments(s@.skip(from as int), windows) == texts(out@) + split_from(
                s@.skip(i as int),
                s@.subrange(start as int, i as int),
                windows,
            ),
        decreases n - i,
    {
        proof {
            assert(s@.skip(i as int)[0] == s@[i as int]);
            assert(s@.skip(i as int).skip(1) =~= s@.skip(i + 1));
        }
        if sep_here(s.get_char(i), windows) {
            let ghost before = texts(out@);
            let ghost rest = split_from(s@.skip(i + 1), Seq::empty(), windows);
            push_kept(&mut out, s, start, i);
            proof {
                let tok = kept(s@.subrange(start as int, i as int));
                assert((before + tok) + rest =~= before + (tok + rest));
                assert(s@.subrange(i + 1, i + 1) =~= Seq::empty());
            }
            start = i + 1;
        } else {
            proof {
                assert(s@.subrange(start as int, i as int).push(s@[i as int]) =~= s@.subrange(
                    start as int,
                    i + 1,
                ));
            }
        }
        i += 1;
    }
    push_kept(&mut out, s, start, n);
    out
}

/// Where the suffix of `name` starts.
pub fn suffix_at(name: &str) -> (res: usize)
    ensures
        res == suffix_start(name@),
        res <= name@.len(),
{
    let n: usize = name.unicode_len();
    let mut i: usize = n;
    assert(name@.take(n as int) =~= name@);
    while i > 0
        invariant
            n == name@.len(),
            i <= n,
            last_dot(name@) == last_dot(name@.take(i as int)),
        decreases i,
    {
        proof {
            assert(name@.take(i as int).last() == name@[i - 1]);
            assert(name@.take(i as int).drop_last() =~= name@.take(i - 1));
        }
        if name.get_char(i - 1) == '.' {
            if i - 1 > 0 {
                return i - 1;
            } else {
                return n;
            }
        }
        i -= 1;
    }
    n
}

/// The strings written one after another with the separator between.
pub fn join_strings(segs: &Vec<String>, windows: bool) -> (res: String)
    ensures
        res@ == join_segs(texts(segs@), sep_char(windows)),
{
    let mut out = String::new();
    let sep = sep_string(windows);
    let mut i: usize = 0;
    assert(texts(segs@).take(0) =~= Seq::empty());
    while i < segs.len()
        invariant
            i <= segs.len(),
            sep@ == seq![sep_char(windows)],
            out@ == join_segs(texts(segs@).take(i as int), sep_char(windows)),
        decreases segs.len() - i,
    {
        proof {
            let t = texts(segs@).take(i + 1);
            assert(t.drop_last() =~= texts(segs@).take(i as int));
            assert(t.last() == segs@[i as int]@);
        }
        if i > 0 {
            out.append(sep.as_str());
        }
        out.append(segs[i].as_str());
        proof {
            if i == 0 {
                assert(out@ =~= segs@[0]@);
            }
        }
        i += 1;
    }
    assert(texts(segs@).take(segs.len() as int) =~= texts(segs@));
    out
}

} // verus!
