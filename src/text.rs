//! Character-level helpers shared by the two grammars.

use vstd::prelude::*;

verus! {

pub open spec fn is_ascii_letter(c: char) -> bool {
    (97 <= c as u32 && c as u32 <= 122) || (65 <= c as u32 && c as u32 <= 90)
}

/// `a` and `b` are the same character, ASCII letters compared without case.
pub open spec fn same_letter(a: char, b: char) -> bool {
    a == b || (is_ascii_letter(a) && is_ascii_letter(b) && (a as u32 + 32 == b as u32
        || b as u32 + 32 == a as u32))
}

/// The text `w` stands at position `i` of `s`, ASCII letters compared without
/// case.
pub open spec fn word_at(s: Seq<char>, i: int, w: Seq<char>) -> bool {
    0 <= i && i + w.len() <= s.len() && forall|k: int|
        0 <= k < w.len() ==> same_letter(s[i + k], #[trigger] w[k])
}

/// The text `w` stands at position `i` of `s`, character for character.
pub open spec fn exact_at(s: Seq<char>, i: int, w: Seq<char>) -> bool {
    0 <= i && i + w.len() <= s.len() && s.subrange(i, i + w.len()) == w
}

pub fn same_letter_exec(a: char, b: char) -> (r: bool)
    ensures
        r == same_letter(a, b),
{
    let x = a as u32;
    let y = b as u32;
    let lx = (97 <= x && x <= 122) || (65 <= x && x <= 90);
    let ly = (97 <= y && y <= 122) || (65 <= y && y <= 90);
    a == b || (lx && ly && (x + 32 == y || y + 32 == x))
}

/// Whether `w` stands at position `i` of `s`, ASCII letters compared without
/// case.
pub fn word_at_exec(s: &Vec<char>, i: usize, w: &str) -> (r: bool)
    requires
        i <= s@.len(),
    ensures
        r == word_at(s@, i as int, w@),
{
    let n = w.unicode_len();
    let m = s.len();
    if n > m - i {
        return false;
    }
    let mut k: usize = 0;
    while k < n
        invariant
            k <= n,
            n == w@.len(),
            i + n <= s@.len(),
            m == s@.len(),
            forall|t: int| 0 <= t < k ==> same_letter(s@[i + t], #[trigger] w@[t]),
        decreases n - k,
    {
        if !same_letter_exec(s[i + k], w.get_char(k)) {
            return false;
        }
        k = k + 1;
    }
    true
}

/// Whether `w` stands at position `i` of `s`, character for character.
pub fn exact_at_exec(s: &Vec<char>, i: usize, w: &str) -> (r: bool)
    requires
        i <= s@.len(),
    ensures
        r == exact_at(s@, i as int, w@),
{
    let n = w.unicode_len();
    let m = s.len();
    if n > m - i {
        return false;
    }
    let mut k: usize = 0;
    while k < n
        invariant
            k <= n,
            n == w@.len(),
            i + n <= s@.len(),
            m == s@.len(),
            forall|t: int| 0 <= t < k ==> s@[i + t] == #[trigger] w@[t],
        decreases n - k,
    {
        if s[i + k] != w.get_char(k) {
            assert(s@.subrange(i as int, i + n)[k as int] != w@[k as int]);
            return false;
        }
        k = k + 1;
    }
    assert(s@.subrange(i as int, i + n) =~= w@);
    true
}

/// The characters of `text`, one by one.
pub fn chars_of(text: &str) -> (r: Vec<char>)
    ensures
        r@ == text@,
{
    let n = text.unicode_len();
    let mut r: Vec<char> = Vec::new();
    let mut i: usize = 0;
    while i < n
        invariant
            i <= n,
            n == text@.len(),
            r@ == text@.subrange(0, i as int),
        decreases n - i,
    {
        r.push(text.get_char(i));
        i = i + 1;
        assert(r@ =~= text@.subrange(0, i as int));
    }
    assert(r@ =~= text@);
    r
}

} // verus!
