use crate::lemmas::{
    has_sep_concat, join_starts_clean, join_starts_with_first, last_dot_bound,
    parsed_share_is_share, share_reads_back, split_gives_clean, split_undoes_join,
};
use crate::model::{
    covered_segments, drive_len, drive_of, has_drive_letter, has_sep, has_unc, is_dot, join_model,
    join_segs, kept, last_dot, parse_model, relative_model, renamed_model, render, rendered,
    same_text, segments, sep_char, starts_with_parts, stem_of, suffix_of, suffix_ok, suffixes_of,
    PathModel,
};
use crate::reserved::base_of;
use vstd::prelude::*;

verus! {

/// Parsing keeps the text: the parsed path has exactly the text it was
/// parsed from.
pub proof fn parse_keeps_text(windows: bool, s: Seq<char>)
    ensures
        parse_model(windows, s).raw == s,
{
}

/// Joining a path that is not absolute onto `p` keeps the parts of `p` in
/// front: the joined path is relative to `p`, and its first parts are those
/// of `p`.
pub proof fn join_keeps_left_parts(p: PathModel, q: PathModel)
    requires
        !q.is_absolute(),
    ensures
        join_model(p, q).is_relative_to(p),
        join_model(p, q).parts().take(p.parts().len() as int) == p.parts(),
        join_model(p, q).parts() == p.parts() + q.segs,
{
    let j = join_model(p, q);
    assert(j.parts() =~= p.parts() + q.segs);
    assert(j.parts().take(p.parts().len() as int) =~= p.parts());
    assert forall|i: int| 0 <= i < p.parts().len() implies same_text(
        #[trigger] j.parts()[i],
        p.parts()[i],
        j.windows,
    ) by {
        assert(j.parts()[i] == p.parts()[i]);
    }
    assert(starts_with_parts(j.parts(), p.parts(), j.windows));
}

/// Taking a joined path relative to its left operand and joining the result
/// back gives the joined path again, where the right operand is not absolute.
pub proof fn relative_to_undoes_join(p: PathModel, q: PathModel)
    requires
        !q.is_absolute(),
    ensures
        join_model(p, q).is_relative_to(p),
        relative_model(join_model(p, q), p).segs == q.segs,
        join_model(p, relative_model(join_model(p, q), p)) == join_model(p, q),
{
    join_keeps_left_parts(p, q);
    let j = join_model(p, q);
    let r = relative_model(j, p);
    assert(j.anchor_parts() == p.anchor_parts());
    assert(covered_segments(j, p) == p.segs.len());
    assert(j.segs.skip(p.segs.len() as int) =~= q.segs);
    assert(r.anchor() =~= Seq::<char>::empty());
    assert(!r.is_absolute());
}

/// A name is its stem followed by its suffix.
pub proof fn stem_then_suffix(name: Seq<char>)
    ensures
        stem_of(name) + suffix_of(name) == name,
{
    last_dot_bound(name);
    assert(stem_of(name) + suffix_of(name) =~= name);
}

/// The suffix of a name is the last of its suffixes, and a name without a
/// suffix has none.
pub proof fn suffix_is_last_of_suffixes(name: Seq<char>)
    ensures
        suffix_of(name).len() > 0 <==> suffixes_of(name).len() > 0,
        suffix_of(name).len() > 0 ==> suffixes_of(name).last() == suffix_of(name),
{
    last_dot_bound(name);
}

/// The texts written one after another.
pub open spec fn concat_all(texts: Seq<Seq<char>>) -> Seq<char>
    decreases texts.len(),
{
    if texts.len() == 0 {
        Seq::empty()
    } else {
        concat_all(texts.drop_last()) + texts.last()
    }
}

/// A name is what is left of it without any suffix, followed by all its
/// suffixes in order.
pub proof fn base_then_suffixes(name: Seq<char>)
    ensures
        base_of(name) + concat_all(suffixes_of(name)) == name,
    decreases name.len(),
{
    last_dot_bound(name);
    if 0 < last_dot(name) < name.len() {
        let stem = name.take(last_dot(name));
        let all = suffixes_of(name);
        base_then_suffixes(stem);
        assert(all.drop_last() =~= suffixes_of(stem));
        assert(base_of(stem) + (concat_all(suffixes_of(stem)) + all.last()) =~= (base_of(stem)
            + concat_all(suffixes_of(stem))) + all.last());
        assert(stem + name.skip(last_dot(name)) =~= name);
    } else {
        assert(base_of(name) + concat_all(suffixes_of(name)) =~= name);
    }
}

/// Replacing the suffix by the current suffix, or the stem by the current
/// stem, leaves every component as it was: the result is the path in its
/// normal text.
pub proof fn current_suffix_changes_nothing(p: PathModel)
    requires
        p.has_name(),
    ensures
        renamed_model(p, stem_of(p.name()) + suffix_of(p.name())) == rendered(
            p.windows,
            p.drive,
            p.root,
            p.segs,
        ),
        renamed_model(p, stem_of(p.name()) + suffix_of(p.name())).same_components(p),
{
    stem_then_suffix(p.name());
    assert(p.segs.drop_last().push(p.name()) =~= p.segs);
}

/// Once a name was replaced, replacing the suffix by the current suffix, or
/// the stem by the current stem, gives the very same path, text included.
pub proof fn reapplied_suffix_is_idempotent(p: PathModel, name: Seq<char>)
    requires
        p.has_name(),
        name.len() > 0,
    ensures
        ({
            let q = renamed_model(p, name);
            renamed_model(q, stem_of(q.name()) + suffix_of(q.name())) == q
        }),
{
    let q = renamed_model(p, name);
    current_suffix_changes_nothing(q);
}

/// A name without a separator can take its own suffix and its own stem
/// again: neither replacement is refused.
pub proof fn current_suffix_is_accepted(name: Seq<char>, windows: bool)
    requires
        !has_sep(name, windows),
    ensures
        suffix_ok(suffix_of(name), windows),
        !has_sep(stem_of(name), windows),
        !has_sep(stem_of(name) + suffix_of(name), windows),
{
    last_dot_bound(name);
    stem_then_suffix(name);
    has_sep_concat(stem_of(name), suffix_of(name), windows);
}

/// A segment as parsing leaves it: not empty, not `.`, without a separator.
pub open spec fn is_clean(seg: Seq<char>, windows: bool) -> bool {
    seg.len() > 0 && !is_dot(seg) && !has_sep(seg, windows)
}

/// Whether every segment is as parsing leaves it.
pub open spec fn all_clean(segs: Seq<Seq<char>>, windows: bool) -> bool {
    forall|i: int| 0 <= i < segs.len() ==> is_clean(#[trigger] segs[i], windows)
}

/// A drive that is a letter and a colon.
pub open spec fn is_letter_drive(drive: Seq<char>) -> bool {
    drive.len() == 2 && has_drive_letter(drive)
}

/// A drive that is a share in its normal text: it reads as a share, and as
/// nothing but itself.
pub open spec fn is_share(drive: Seq<char>) -> bool {
    has_unc(drive) && drive_of(drive, true) == drive
}

/// Whether these components are such as a text can name: clean segments, a
/// root that is the grammar's separator, a drive only under Windows, a
/// letter and a colon or a share, no segment directly behind a share, and
/// no first segment that would read as a drive.
pub open spec fn is_nameable(
    windows: bool,
    drive: Seq<char>,
    root: Seq<char>,
    segs: Seq<Seq<char>>,
) -> bool {
    &&& all_clean(segs, windows)
    &&& root.len() == 0 || root == seq![sep_char(windows)]
    &&& drive.len() == 0 || (windows && (is_letter_drive(drive) || is_share(drive)))
    &&& windows && is_share(drive) && root.len() == 0 ==> segs.len() == 0
    &&& windows && drive.len() == 0 && root.len() == 0 && segs.len() > 0 ==> !has_drive_letter(
        segs[0],
    )
}

/// The normal text of nameable components parses back to them.
pub proof fn normal_text_parses_back(
    windows: bool,
    drive: Seq<char>,
    root: Seq<char>,
    segs: Seq<Seq<char>>,
)
    requires
        is_nameable(windows, drive, root, segs),
    ensures
        parse_model(windows, render(windows, drive, root, segs)) == rendered(
            windows,
            drive,
            root,
            segs,
        ),
{
    let sep = sep_char(windows);
    let joined = join_segs(segs, sep);
    let text = render(windows, drive, root, segs);
    let q = parse_model(windows, text);
    split_undoes_join(segs, sep, windows);
    if segs.len() > 0 {
        join_starts_clean(segs, sep, windows);
        join_starts_with_first(segs, sep);
        assert(is_clean(segs[0], windows));
        assert(joined[0] == joined.take(segs[0].len() as int)[0]);
    } else {
        assert(joined =~= Seq::<char>::empty());
    }
    assert(text =~= drive + (root + joined));
    assert(text.len() == drive.len() + root.len() + joined.len());
    if drive.len() > 0 && is_share(drive) {
        if root.len() > 0 {
            assert((root + joined)[0] == sep);
        }
        share_reads_back(drive, root + joined);
    } else if drive.len() > 0 {
        assert(text[0] == drive[0] && text[1] == drive[1]);
        assert(!has_unc(text));
        assert(has_drive_letter(text));
        assert(text.take(2) =~= drive);
        assert(text.skip(2) =~= root + joined);
    } else {
        assert(text =~= root + joined);
        assert(text.skip(0) =~= text);
        if root.len() > 0 {
            assert(text[0] == sep);
            if text.len() >= 2 {
                assert(text[1] == joined[0]);
            }
        } else if segs.len() > 0 {
            assert(text[0] == joined[0]);
            if windows && has_drive_letter(text) {
                if segs[0].len() >= 2 {
                    assert(joined.take(segs[0].len() as int)[1] == joined[1]);
                    assert(has_drive_letter(segs[0]));
                } else {
                    assert(joined[1] == sep);
                }
            }
        }
        assert(!(windows && has_unc(text)));
        assert(!(windows && has_drive_letter(text)));
        assert(text.take(0) =~= drive);
    }
    let rest = root + joined;
    assert(text.skip(drive_len(text, windows) as int) =~= rest);
    if root.len() > 0 {
        assert(rest[0] == sep);
        assert(rest.skip(1) =~= joined);
        assert(kept(Seq::<char>::empty()) + segments(joined, windows) =~= segments(
            joined,
            windows,
        ));
        assert(text[drive.len() as int] == sep);
    } else {
        assert(rest =~= joined);
        if segs.len() > 0 {
            assert(text[drive.len() as int] == joined[0]);
        }
    }
    assert(q.root =~= root);
    assert(q.drive =~= drive);
}

/// What a text parses to is nameable, unless under Windows it has no anchor
/// and its first segment reads as a drive.
pub proof fn parsed_is_nameable(windows: bool, s: Seq<char>)
    requires
        ({
            let p = parse_model(windows, s);
            windows && !p.has_anchor() && p.segs.len() > 0 ==> !has_drive_letter(p.segs[0])
        }),
    ensures
        ({
            let p = parse_model(windows, s);
            is_nameable(windows, p.drive, p.root, p.segs)
        }),
{
    let p = parse_model(windows, s);
    if windows && has_unc(s) {
        parsed_share_is_share(s);
        if drive_len(s, windows) == s.len() {
            assert(s.skip(s.len() as int) =~= Seq::<char>::empty());
        }
    } else if p.drive.len() > 0 {
        assert(p.drive[0] == s[0] && p.drive[1] == s[1]);
        assert(!has_unc(p.drive));
    }
    split_gives_clean(s.skip(drive_len(s, windows) as int), Seq::empty(), windows);
}

/// The normal text of a parsed path names the same path: drive, root and
/// the segments joined by the grammar's separator parse back to the same
/// components.
pub proof fn parsed_normal_text_parses_back(windows: bool, s: Seq<char>)
    requires
        ({
            let p = parse_model(windows, s);
            windows && !p.has_anchor() && p.segs.len() > 0 ==> !has_drive_letter(p.segs[0])
        }),
    ensures
        ({
            let p = parse_model(windows, s);
            parse_model(windows, render(windows, p.drive, p.root, p.segs)).same_components(p)
        }),
{
    let p = parse_model(windows, s);
    parsed_is_nameable(windows, s);
    normal_text_parses_back(windows, p.drive, p.root, p.segs);
}

/// Each ancestor of a nameable path is a path with fewer parts: the text of
/// the `k`-th ancestor parses to the path cut by `k + 1` segments, down to
/// the bare anchor or the empty path.
pub proof fn ancestors_lose_one_part_each(p: PathModel, k: int)
    requires
        is_nameable(p.windows, p.drive, p.root, p.segs),
        0 <= k < p.segs.len(),
    ensures
        ({
            let a = parse_model(p.windows, p.parent_text(k));
            &&& a.drive == p.drive
            &&& a.root == p.root
            &&& a.segs == p.segs.take(p.segs.len() - 1 - k)
            &&& a.parts().len() == p.parts().len() - 1 - k
        }),
{
    let cut = p.segs.take(p.segs.len() - 1 - k);
    assert forall|i: int| 0 <= i < cut.len() implies is_clean(#[trigger] cut[i], p.windows) by {
        assert(cut[i] == p.segs[i]);
    }
    if cut.len() > 0 {
        assert(cut[0] == p.segs[0]);
    }
    normal_text_parses_back(p.windows, p.drive, p.root, cut);
}

/// The nearest ancestor of a parsed path with one more segment joined onto
/// it is that path: its text parses back to the parts of the path.
pub proof fn parent_of_join_is_left(windows: bool, s: Seq<char>, t: Seq<char>)
    requires
        ({
            let p = parse_model(windows, s);
            windows && !p.has_anchor() && p.segs.len() > 0 ==> !has_drive_letter(p.segs[0])
        }),
        !parse_model(windows, t).is_absolute(),
        parse_model(windows, t).segs.len() == 1,
    ensures
        ({
            let p = parse_model(windows, s);
            let j = join_model(p, parse_model(windows, t));
            &&& j.has_name()
            &&& parse_model(windows, j.parent()).parts() == p.parts()
        }),
{
    let p = parse_model(windows, s);
    let q = parse_model(windows, t);
    let j = join_model(p, q);
    split_gives_clean(t.skip(drive_len(t, windows) as int), Seq::empty(), windows);
    assert(is_clean(q.segs[0], windows));
    assert(j.segs.last() == q.segs[0]);
    assert(j.segs.take(j.segs.len() - 1) =~= p.segs);
    parsed_is_nameable(windows, s);
    normal_text_parses_back(windows, p.drive, p.root, p.segs);
}

} // verus!
