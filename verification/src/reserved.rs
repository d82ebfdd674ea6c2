use crate::components::Components;
use crate::lemmas::last_dot_bound;
use crate::model::{fold, last_dot};
use crate::text::{fold_char, suffix_at};
use vstd::prelude::*;
use vstd::string::*;

verus! {

/// `name` without any of its suffixes.
pub open spec fn base_of(name: Seq<char>) -> Seq<char>
    decreases name.len(),
{
    if 0 < last_dot(name) < name.len() {
        base_of(name.take(last_dot(name)))
    } else {
        name
    }
}

/// Whether the first three characters of `s` are `a`, `b`, `c`, capitals
/// counted as small letters.
pub open spec fn starts_with_three(s: Seq<char>, a: char, b: char, c: char) -> bool {
    s.len() >= 3 && fold(s[0], true) == a && fold(s[1], true) == b && fold(s[2], true) == c
}

/// Whether `s` is the name of a device: `CON`, `PRN`, `AUX`, `NUL`, or `COM`
/// or `LPT` with one digit from 1 to 9, in any case.
pub open spec fn is_device_name(s: Seq<char>) -> bool {
    ||| s.len() == 3 && (starts_with_three(s, 'c', 'o', 'n') || starts_with_three(
        s,
        'p',
        'r',
        'n',
    ) || starts_with_three(s, 'a', 'u', 'x') || starts_with_three(s, 'n', 'u', 'l'))
    ||| s.len() == 4 && (starts_with_three(s, 'c', 'o', 'm') || starts_with_three(
        s,
        'l',
        'p',
        't',
    )) && '1' <= s[3] && s[3] <= '9'
}

/// The name without any of its suffixes.
pub fn base_name(name: &str) -> (res: &str)
    ensures
        res@ == base_of(name@),
{
    let mut cur: &str = name;
    loop
        invariant
            base_of(cur@) == base_of(name@),
        decreases cur@.len(),
    {
        let at: usize = suffix_at(cur);
        proof {
            last_dot_bound(cur@);
        }
        if at >= cur.unicode_len() {
            return cur;
        }
        cur = cur.substring_char(0, at);
    }
}

/// Whether the text is the name of a device.
pub fn device_name_here(s: &str) -> (res: bool)
    ensures
        res == is_device_name(s@),
{
    let n: usize = s.unicode_len();
    if n != 3 && n != 4 {
        return false;
    }
    let a = fold_char(s.get_char(0), true);
    let b = fold_char(s.get_char(1), true);
    let c = fold_char(s.get_char(2), true);
    if n == 3 {
        (a == 'c' && b == 'o' && c == 'n') || (a == 'p' && b == 'r' && c == 'n') || (a == 'a' && b
            == 'u' && c == 'x') || (a == 'n' && b == 'u' && c == 'l')
    } else {
        let d = s.get_char(3);
        ((a == 'c' && b == 'o' && c == 'm') || (a == 'l' && b == 'p' && c == 't')) && '1' <= d && d
            <= '9'
    }
}

impl Components {
    /// Whether the name, without its suffixes, is a device name that Windows
    /// reserves. No name is reserved under the POSIX grammar.
    pub fn is_reserved(&self) -> (res: bool)
        ensures
            res == (self@.windows && self@.has_name() && is_device_name(base_of(self@.name()))),
    {
        if !self.is_windows() {
            return false;
        }
        match self.name() {
            Some(name) => device_name_here(base_name(name)),
            None => false,
        }
    }
}

} // verus!
