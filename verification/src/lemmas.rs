use crate::laws::{all_clean, is_clean, is_share};
use crate::model::{
    drive_len, drive_of, has_sep, has_unc, is_sep, join_segs, kept, last_dot, run_len, segments,
    split_from, unc_server_len, unc_share_len,
};
use vstd::prelude::*;

verus! {

/// A concatenation holds a separator exactly where one of the two does.
pub proof fn has_sep_concat(a: Seq<char>, b: Seq<char>, windows: bool)
    ensures
        has_sep(a + b, windows) <==> has_sep(a, windows) || has_sep(b, windows),
{
    if has_sep(a, windows) {
        let i = choose|i: int| 0 <= i < a.len() && is_sep(#[trigger] a[i], windows);
        assert((a + b)[i] == a[i]);
    }
    if has_sep(b, windows) {
        let i = choose|i: int| 0 <= i < b.len() && is_sep(#[trigger] b[i], windows);
        assert((a + b)[a.len() + i] == b[i]);
    }
    if has_sep(a + b, windows) {
        let i = choose|i: int| 0 <= i < (a + b).len() && is_sep(#[trigger] (a + b)[i], windows);
        if i < a.len() {
            assert(a[i] == (a + b)[i]);
        } else {
            assert(b[i - a.len()] == (a + b)[i]);
        }
    }
}

/// The last dot, where there is one, lies inside the text.
pub proof fn last_dot_bound(s: Seq<char>)
    ensures
        -1 <= last_dot(s) < s.len(),
        last_dot(s) >= 0 ==> s[last_dot(s)] == '.',
    decreases s.len(),
{
    if s.len() > 0 && s.last() != '.' {
        last_dot_bound(s.drop_last());
    }
}

/// Splitting leaves clean segments only.
pub proof fn split_gives_clean(s: Seq<char>, cur: Seq<char>, windows: bool)
    requires
        !has_sep(cur, windows),
    ensures
        all_clean(split_from(s, cur, windows), windows),
    decreases s.len(),
{
    if s.len() == 0 {
    } else if is_sep(s[0], windows) {
        split_gives_clean(s.skip(1), Seq::empty(), windows);
    } else {
        let next = cur.push(s[0]);
        assert forall|i: int| 0 <= i < next.len() implies !is_sep(#[trigger] next[i], windows) by {
            if i < cur.len() {
                assert(next[i] == cur[i]);
            }
        }
        split_gives_clean(s.skip(1), next, windows);
    }
}

/// A text without a separator adds itself to the token that is being read.
pub proof fn split_without_sep(t: Seq<char>, cur: Seq<char>, windows: bool)
    requires
        !has_sep(t, windows),
    ensures
        split_from(t, cur, windows) == kept(cur + t),
    decreases t.len(),
{
    if t.len() == 0 {
        assert(cur + t =~= cur);
    } else {
        assert(!is_sep(t[0], windows));
        assert forall|i: int| 0 <= i < t.skip(1).len() implies !is_sep(
            #[trigger] t.skip(1)[i],
            windows,
        ) by {
            assert(t.skip(1)[i] == t[i + 1]);
        }
        split_without_sep(t.skip(1), cur.push(t[0]), windows);
        assert(cur.push(t[0]) + t.skip(1) =~= cur + t);
    }
}

/// A separator and a separator-free text behind any text add that text as
/// one more token.
pub proof fn split_with_tail(x: Seq<char>, sep: char, t: Seq<char>, cur: Seq<char>, windows: bool)
    requires
        is_sep(sep, windows),
        !has_sep(t, windows),
    ensures
        split_from(x + seq![sep] + t, cur, windows) == split_from(x, cur, windows) + kept(t),
    decreases x.len(),
{
    let whole = x + seq![sep] + t;
    if x.len() == 0 {
        assert(whole[0] == sep);
        assert(whole.skip(1) =~= t);
        split_without_sep(t, Seq::empty(), windows);
        assert(Seq::<char>::empty() + t =~= t);
    } else {
        assert(whole[0] == x[0]);
        assert(whole.skip(1) =~= x.skip(1) + seq![sep] + t);
        if is_sep(x[0], windows) {
            split_with_tail(x.skip(1), sep, t, Seq::empty(), windows);
            assert(kept(cur) + (split_from(x.skip(1), Seq::empty(), windows) + kept(t)) =~= (kept(cur)
                + split_from(x.skip(1), Seq::empty(), windows)) + kept(t));
        } else {
            split_with_tail(x.skip(1), sep, t, cur.push(x[0]), windows);
        }
    }
}

/// Clean segments, joined by a separator and split again, are themselves.
pub proof fn split_undoes_join(segs: Seq<Seq<char>>, sep: char, windows: bool)
    requires
        is_sep(sep, windows),
        all_clean(segs, windows),
    ensures
        segments(join_segs(segs, sep), windows) == segs,
    decreases segs.len(),
{
    if segs.len() == 0 {
        assert(segments(join_segs(segs, sep), windows) =~= segs);
    } else if segs.len() == 1 {
        split_without_sep(segs[0], Seq::empty(), windows);
        assert(Seq::<char>::empty() + segs[0] =~= segs[0]);
        assert(seq![segs[0]] =~= segs);
    } else {
        let init = segs.drop_last();
        assert forall|i: int| 0 <= i < init.len() implies is_clean(#[trigger] init[i], windows) by {
            assert(init[i] == segs[i]);
        }
        split_undoes_join(init, sep, windows);
        split_with_tail(join_segs(init, sep), sep, segs.last(), Seq::empty(), windows);
        assert(init + seq![segs.last()] =~= segs);
    }
}

/// Joined clean segments start with a character that is no separator.
pub proof fn join_starts_clean(segs: Seq<Seq<char>>, sep: char, windows: bool)
    requires
        segs.len() > 0,
        all_clean(segs, windows),
    ensures
        join_segs(segs, sep).len() > 0,
        !is_sep(join_segs(segs, sep)[0], windows),
    decreases segs.len(),
{
    if segs.len() == 1 {
        assert(is_clean(segs[0], windows));
    } else {
        let init = segs.drop_last();
        assert forall|i: int| 0 <= i < init.len() implies is_clean(#[trigger] init[i], windows) by {
            assert(init[i] == segs[i]);
        }
        join_starts_clean(init, sep, windows);
        assert(join_segs(segs, sep)[0] == join_segs(init, sep)[0]);
    }
}

/// Joined segments start with the first of them, and a separator or the
/// end follows it.
pub proof fn join_starts_with_first(segs: Seq<Seq<char>>, sep: char)
    requires
        segs.len() > 0,
    ensures
        join_segs(segs, sep).len() >= segs[0].len(),
        join_segs(segs, sep).take(segs[0].len() as int) == segs[0],
        join_segs(segs, sep).len() > segs[0].len() ==> join_segs(segs, sep)[segs[0].len() as int]
            == sep,
    decreases segs.len(),
{
    let first = segs[0];
    if segs.len() == 1 {
        assert(first.take(first.len() as int) =~= first);
    } else {
        let init = segs.drop_last();
        join_starts_with_first(init, sep);
        assert(init[0] == first);
        let whole = join_segs(segs, sep);
        assert(whole.take(first.len() as int) =~= join_segs(init, sep).take(first.len() as int));
        if join_segs(init, sep).len() > first.len() {
            assert(whole[first.len() as int] == join_segs(init, sep)[first.len() as int]);
        }
    }
}

/// A separator-free run lies inside the text, holds no separator, and ends
/// at a separator or at the end.
pub proof fn run_len_props(x: Seq<char>, windows: bool)
    ensures
        run_len(x, windows) <= x.len(),
        forall|i: int| 0 <= i < run_len(x, windows) ==> !is_sep(#[trigger] x[i], windows),
        run_len(x, windows) < x.len() ==> is_sep(x[run_len(x, windows) as int], windows),
    decreases x.len(),
{
    if x.len() > 0 && !is_sep(x[0], windows) {
        run_len_props(x.skip(1), windows);
        assert forall|i: int| 0 <= i < run_len(x, windows) implies !is_sep(
            #[trigger] x[i],
            windows,
        ) by {
            if i > 0 {
                assert(x[i] == x.skip(1)[i - 1]);
            }
        }
        if run_len(x, windows) < x.len() {
            assert(x[run_len(x, windows) as int] == x.skip(1)[run_len(x.skip(1), windows) as int]);
        }
    }
}

/// A run is as long as the separator-free start of the text.
pub proof fn run_len_is(x: Seq<char>, n: int, windows: bool)
    requires
        0 <= n <= x.len(),
        forall|i: int| 0 <= i < n ==> !is_sep(#[trigger] x[i], windows),
        n == x.len() || is_sep(x[n], windows),
    ensures
        run_len(x, windows) == n,
    decreases n,
{
    if n > 0 {
        assert(!is_sep(x[0], windows));
        assert forall|i: int| 0 <= i < n - 1 implies !is_sep(
            #[trigger] x.skip(1)[i],
            windows,
        ) by {
            assert(x.skip(1)[i] == x[i + 1]);
        }
        if n < x.len() {
            assert(x.skip(1)[n - 1] == x[n]);
        }
        run_len_is(x.skip(1), n - 1, windows);
    }
}

/// A text that continues a share with nothing or with a separator reads as
/// the same share.
pub proof fn share_reads_back(drive: Seq<char>, rest: Seq<char>)
    requires
        is_share(drive),
        rest.len() == 0 || is_sep(rest[0], true),
    ensures
        has_unc(drive + rest),
        drive_len(drive + rest, true) == drive.len(),
        drive_of(drive + rest, true) == drive,
{
    let text = drive + rest;
    let a = unc_server_len(drive) as int;
    let b = unc_share_len(drive) as int;
    run_len_props(drive.skip(2), true);
    run_len_props(drive.skip(3 + a), true);
    assert(drive_of(drive, true).len() == 3 + a + b);
    assert(text[0] == drive[0] && text[1] == drive[1]);
    assert forall|i: int| 0 <= i < a implies !is_sep(#[trigger] text.skip(2)[i], true) by {
        assert(text.skip(2)[i] == drive.skip(2)[i]);
    }
    assert(text.skip(2)[a] == drive.skip(2)[a]);
    run_len_is(text.skip(2), a, true);
    assert forall|i: int| 0 <= i < b implies !is_sep(#[trigger] text.skip(3 + a)[i], true) by {
        assert(text.skip(3 + a)[i] == drive.skip(3 + a)[i]);
    }
    if rest.len() > 0 {
        assert(text.skip(3 + a)[b] == rest[0]);
    }
    run_len_is(text.skip(3 + a), b, true);
    assert(text.subrange(2, 2 + a) =~= drive.subrange(2, 2 + a));
    assert(text.subrange(3 + a, 3 + a + b) =~= drive.subrange(3 + a, 3 + a + b));
}

/// The drive that a text with a share parses to is a share in its normal
/// text, and a separator or nothing follows it in the text.
pub proof fn parsed_share_is_share(s: Seq<char>)
    requires
        has_unc(s),
    ensures
        is_share(drive_of(s, true)),
        drive_len(s, true) <= s.len(),
        drive_len(s, true) < s.len() ==> is_sep(s[drive_len(s, true) as int], true),
{
    let a = unc_server_len(s) as int;
    let b = unc_share_len(s) as int;
    let d = drive_of(s, true);
    run_len_props(s.skip(2), true);
    run_len_props(s.skip(3 + a), true);
    assert(d.len() == 3 + a + b);
    assert(d[0] == '\\' && d[1] == '\\');
    assert forall|i: int| 0 <= i < a implies !is_sep(#[trigger] d.skip(2)[i], true) by {
        assert(d.skip(2)[i] == s.skip(2)[i]);
    }
    assert(d.skip(2)[a] == '\\');
    run_len_is(d.skip(2), a, true);
    assert forall|i: int| 0 <= i < b implies !is_sep(#[trigger] d.skip(3 + a)[i], true) by {
        assert(d.skip(3 + a)[i] == s.skip(3 + a)[i]);
    }
    run_len_is(d.skip(3 + a), b, true);
    assert(has_unc(d));
    assert(d.subrange(2, 2 + a) =~= s.subrange(2, 2 + a));
    assert(d.subrange(3 + a, 3 + a + b) =~= s.subrange(3 + a, 3 + a + b));
    assert(drive_of(d, true) =~= d);
    if 3 + a + b < s.len() {
        assert(s[3 + a + b] == s.skip(3 + a)[b]);
    }
}

} // verus!
