use crate::components::Components;
use crate::error::PathError;
use crate::model::{slice_texts, PathModel};
use vstd::prelude::*;
use vstd::string::*;
use vstd::utf8::encode_utf8;

verus! {

/// The characters that a URI path keeps as they are: ASCII letters and
/// digits, and `-`, `_`, `.`, `~`, `:`.
pub open spec fn is_uri_safe(c: char) -> bool {
    ||| ('a' <= c && c <= 'z')
    ||| ('A' <= c && c <= 'Z')
    ||| ('0' <= c && c <= '9')
    ||| c == '-'
    ||| c == '_'
    ||| c == '.'
    ||| c == '~'
    ||| c == ':'
}

/// The sixteen hexadecimal digits, capitals for ten to fifteen.
pub open spec fn hex_digits() -> Seq<char> {
    seq!['0', '1', '2', '3', '4', '5', '6', '7', '8', '9', 'A', 'B', 'C', 'D', 'E', 'F']
}

/// `%` and the two hexadecimal digits of the byte.
pub open spec fn pct_byte(b: u8) -> Seq<char> {
    seq!['%', hex_digits()[b as int / 16], hex_digits()[b as int % 16]]
}

/// Each byte as `%` and two digits.
pub open spec fn pct_bytes(bs: Seq<u8>) -> Seq<char>
    decreases bs.len(),
{
    if bs.len() == 0 {
        Seq::empty()
    } else {
        pct_bytes(bs.drop_last()) + pct_byte(bs.last())
    }
}

/// A safe character itself; any other as the escaped bytes of its UTF-8
/// form.
pub open spec fn pct_char(c: char) -> Seq<char> {
    if is_uri_safe(c) {
        seq![c]
    } else {
        pct_bytes(encode_utf8(seq![c]))
    }
}

/// The text with each character escaped as a URI path needs it.
pub open spec fn pct_text(s: Seq<char>) -> Seq<char>
    decreases s.len(),
{
    if s.len() == 0 {
        Seq::empty()
    } else {
        pct_text(s.drop_last()) + pct_char(s.last())
    }
}

/// Each part escaped, with `/` in front of it.
pub open spec fn uri_tail(parts: Seq<Seq<char>>) -> Seq<char>
    decreases parts.len(),
{
    if parts.len() == 0 {
        Seq::empty()
    } else {
        uri_tail(parts.drop_last()) + seq!['/'] + pct_text(parts.last())
    }
}

/// The drive, where there is one, then the segments.
pub open spec fn uri_parts(p: PathModel) -> Seq<Seq<char>> {
    if p.drive.len() > 0 {
        seq![p.drive] + p.segs
    } else {
        p.segs
    }
}

/// The `file` URI of a path: the scheme, then the escaped drive and
/// segments, each behind a `/`; a lone `/` where there are none.
pub open spec fn uri_of(p: PathModel) -> Seq<char> {
    seq!['f', 'i', 'l', 'e', ':', '/', '/'] + (if uri_parts(p).len() == 0 {
        seq!['/']
    } else {
        uri_tail(uri_parts(p))
    })
}

fn uri_safe_here(c: char) -> (res: bool)
    ensures
        res == is_uri_safe(c),
{
    ('a' <= c && c <= 'z') || ('A' <= c && c <= 'Z') || ('0' <= c && c <= '9') || c == '-' || c
        == '_' || c == '.' || c == '~' || c == ':'
}

/// Appends `%` and the two digits of the byte.
fn push_pct_byte(out: &mut String, b: u8)
    ensures
        final(out)@ == old(out)@ + pct_byte(b),
{
    let digits = "0123456789ABCDEF";
    proof {
        reveal_strlit("0123456789ABCDEF");
        reveal_strlit("%");
    }
    assert(digits@ =~= hex_digits());
    let hi: usize = (b / 16) as usize;
    let lo: usize = (b % 16) as usize;
    out.append("%");
    out.append(digits.substring_char(hi, hi + 1));
    out.append(digits.substring_char(lo, lo + 1));
    assert(out@ =~= old(out)@ + pct_byte(b));
}

/// Appends the escaped form of the character at `i`.
fn push_pct_char(out: &mut String, s: &str, i: usize)
    requires
        i < s@.len(),
    ensures
        final(out)@ == old(out)@ + pct_char(s@[i as int]),
{
    let n: usize = s.unicode_len();
    let one = s.substring_char(i, i + 1);
    assert(one@ =~= seq![s@[i as int]]);
    if uri_safe_here(s.get_char(i)) {
        out.append(one);
    } else {
        let bytes = one.as_bytes_vec();
        let mut k: usize = 0;
        assert(bytes@.take(0) =~= Seq::<u8>::empty());
        assert(out@ + Seq::<char>::empty() =~= out@);
        while k < bytes.len()
            invariant
                k <= bytes.len(),
                out@ == old(out)@ + pct_bytes(bytes@.take(k as int)),
            decreases bytes.len() - k,
        {
            push_pct_byte(out, bytes[k]);
            proof {
                let t = bytes@.take(k + 1);
                assert(t.drop_last() =~= bytes@.take(k as int));
                assert(t.last() == bytes@[k as int]);
                assert(out@ =~= old(out)@ + pct_bytes(t));
            }
            k += 1;
        }
        assert(bytes@.take(bytes.len() as int) =~= bytes@);
    }
}

/// Appends the escaped form of the text.
fn push_pct_text(out: &mut String, s: &str)
    ensures
        final(out)@ == old(out)@ + pct_text(s@),
{
    let n: usize = s.unicode_len();
    let mut i: usize = 0;
    assert(s@.take(0) =~= Seq::<char>::empty());
    assert(out@ + Seq::<char>::empty() =~= out@);
    while i < n
        invariant
            n == s@.len(),
            i <= n,
            out@ == old(out)@ + pct_text(s@.take(i as int)),
        decreases n - i,
    {
        push_pct_char(out, s, i);
        proof {
            let t = s@.take(i + 1);
            assert(t.drop_last() =~= s@.take(i as int));
            assert(t.last() == s@[i as int]);
            assert(out@ =~= old(out)@ + pct_text(t));
        }
        i += 1;
    }
    assert(s@.take(n as int) =~= s@);
}

impl Components {
    /// The path as a `file` URI. Only an absolute path has one.
    pub fn as_uri(&self) -> (res: Result<String, PathError>)
        ensures
            res is Err <==> !self@.is_absolute(),
            res matches Err(e) ==> e == PathError::ValueError,
            res matches Ok(s) ==> s@ == uri_of(self@),
    {
        if !self.is_absolute() {
            return Err(PathError::ValueError);
        }
        proof {
            reveal_strlit("file://");
            reveal_strlit("/");
        }
        let mut out = String::from_str("file://");
        let ghost head = out@;
        assert(head =~= seq!['f', 'i', 'l', 'e', ':', '/', '/']);
        let mut parts: Vec<&str> = Vec::new();
        if self.drive_text().unicode_len() > 0 {
            parts.push(self.drive_text());
        }
        let ghost lead = slice_texts(parts@);
        let segs = self.segs_ref();
        let mut j: usize = 0;
        while j < segs.len()
            invariant
                j <= segs.len(),
                parts@.len() == lead.len() + j,
                forall|k: int| 0 <= k < lead.len() ==> parts@[k]@ == lead[k],
                forall|k: int| 0 <= k < j ==> parts@[lead.len() + k]@ == segs@[k]@,
            decreases segs.len() - j,
        {
            parts.push(segs[j].as_str());
            j += 1;
        }
        assert(slice_texts(parts@) =~= lead + self@.segs);
        assert(lead + self@.segs =~= uri_parts(self@));
        if parts.len() == 0 {
            out.append("/");
            assert(out@ =~= uri_of(self@));
            return Ok(out);
        }
        let mut i: usize = 0;
        assert(slice_texts(parts@).take(0) =~= Seq::<Seq<char>>::empty());
        assert(head + Seq::<char>::empty() =~= head);
        while i < parts.len()
            invariant
                i <= parts.len(),
                out@ == head + uri_tail(slice_texts(parts@).take(i as int)),
            decreases parts.len() - i,
        {
            let ghost before = uri_tail(slice_texts(parts@).take(i as int));
            out.append("/");
            push_pct_text(&mut out, parts[i]);
            proof {
                reveal_strlit("/");
                let t = slice_texts(parts@).take(i + 1);
                assert(out@ =~= head + (before + seq!['/'] + pct_text(parts@[i as int]@)));
                assert(t.drop_last() =~= slice_texts(parts@).take(i as int));
                assert(t.last() == parts@[i as int]@);
                assert(out@ =~= head + uri_tail(t));
            }
            i += 1;
        }
        assert(slice_texts(parts@).take(parts.len() as int) =~= slice_texts(parts@));
        Ok(out)
    }
}

} // verus!
