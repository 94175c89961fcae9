//! Character-level helpers on strings: prefix tests, substring search,
//! ASCII case folding, and string building. All path classification in this
//! crate is stated over these spec functions.

use vstd::prelude::*;

verus! {

/// `String::push` appends one character at the end of the string.
pub assume_specification[ String::push ](s: &mut String, c: char)
    ensures
        final(s)@ == old(s)@.push(c),
;

/// `pre` is a prefix of `s`.
pub open spec fn is_prefix(pre: Seq<char>, s: Seq<char>) -> bool {
    pre.len() <= s.len() && s.subrange(0, pre.len() as int) == pre
}

/// `c` separates path components.
pub open spec fn is_sep(c: char) -> bool {
    c == '\\' || c == '/'
}

/// `pre` is a prefix of `s` that ends on a component boundary: either the
/// whole of `s`, or the next character of `s` is a path separator.
pub open spec fn is_path_prefix(pre: Seq<char>, s: Seq<char>) -> bool {
    is_prefix(pre, s) && (s.len() == pre.len() || is_sep(s[pre.len() as int]))
}

/// `needle` occurs in `hay` starting at index `i`.
pub open spec fn occurs_at(hay: Seq<char>, needle: Seq<char>, i: int) -> bool {
    0 <= i && i + needle.len() <= hay.len() && hay.subrange(i, i + needle.len()) == needle
}

/// `needle` occurs somewhere in `hay`.
pub open spec fn contains_seq(hay: Seq<char>, needle: Seq<char>) -> bool {
    exists|i: int| occurs_at(hay, needle, i)
}

/// ASCII lowercase of one character; characters outside `A`..`Z` are kept.
pub open spec fn lower_char(c: char) -> char {
    if 65 <= c as u32 && c as u32 <= 90 {
        ((c as u32 + 32) as u8) as char
    } else {
        c
    }
}

/// ASCII lowercase of a character sequence.
pub open spec fn lower_seq(s: Seq<char>) -> Seq<char> {
    s.map_values(|c: char| lower_char(c))
}

/// Whether `s` starts with the prefix `pre`, character for character.
pub fn starts_with_str(s: &str, pre: &str) -> (r: bool)
    ensures
        r == is_prefix(pre@, s@),
{
    let n = pre.unicode_len();
    if n > s.unicode_len() {
        return false;
    }
    let mut i: usize = 0;
    while i < n
        invariant
            0 <= i <= n,
            n == pre@.len(),
            n <= s@.len(),
            forall|j: int| 0 <= j < i ==> s@[j] == pre@[j],
        decreases n - i,
    {
        if s.get_char(i) != pre.get_char(i) {
            assert(s@.subrange(0, n as int)[i as int] != pre@[i as int]);
            return false;
        }
        i = i + 1;
    }
    assert(s@.subrange(0, n as int) =~= pre@);
    true
}

/// Whether `s` starts with `pre` and the match ends on a component boundary.
pub fn path_starts_with(s: &str, pre: &str) -> (r: bool)
    ensures
        r == is_path_prefix(pre@, s@),
{
    if !starts_with_str(s, pre) {
        return false;
    }
    let n = pre.unicode_len();
    if s.unicode_len() == n {
        return true;
    }
    let c = s.get_char(n);
    c == '\\' || c == '/'
}

/// Whether `needle` occurs somewhere in `hay`.
pub fn contains_str(hay: &str, needle: &str) -> (r: bool)
    ensures
        r == contains_seq(hay@, needle@),
{
    let n = needle.unicode_len();
    let m = hay.unicode_len();
    if n > m {
        assert(forall|i: int| !occurs_at(hay@, needle@, i));
        return false;
    }
    let mut start: usize = 0;
    while start <= m - n
        invariant
            n == needle@.len(),
            m == hay@.len(),
            n <= m,
            0 <= start <= m - n + 1,
            forall|i: int| 0 <= i < start ==> !occurs_at(hay@, needle@, i),
        decreases m - n - start + 1,
    {
        let mut k: usize = 0;
        let mut all_eq = true;
        while k < n
            invariant
                0 <= k <= n,
                n == needle@.len(),
                m == hay@.len(),
                0 <= start <= m - n,
                all_eq <==> (forall|j: int| 0 <= j < k ==> hay@[start + j] == needle@[j]),
            decreases n - k,
        {
            if hay.get_char(start + k) != needle.get_char(k) {
                all_eq = false;
                assert(hay@[start + k as int] != needle@[k as int]);
                k = n;
            } else {
                k = k + 1;
            }
        }
        if all_eq {
            assert(hay@.subrange(start as int, start as int + n as int) =~= needle@);
            assert(occurs_at(hay@, needle@, start as int));
            return true;
        }
        assert(!occurs_at(hay@, needle@, start as int)) by {
            if occurs_at(hay@, needle@, start as int) {
                assert(forall|j: int|
                    0 <= j < n ==> hay@.subrange(start as int, start as int + n as int)[j]
                        == needle@[j]);
                assert(forall|j: int| 0 <= j < n ==> hay@[start + j] == needle@[j]);
            }
        }
        start = start + 1;
    }
    assert(forall|i: int| i > m - n ==> !occurs_at(hay@, needle@, i));
    false
}

/// Whether two string slices hold the same characters.
pub fn str_eq(a: &str, b: &str) -> (r: bool)
    ensures
        r == (a@ == b@),
{
    if a.unicode_len() != b.unicode_len() {
        return false;
    }
    let r = starts_with_str(a, b);
    assert(a@.subrange(0, b@.len() as int) =~= a@);
    r
}

/// ASCII lowercase of one character.
pub fn to_lower_char(c: char) -> (r: char)
    ensures
        r == lower_char(c),
{
    let u = c as u32;
    if 65 <= u && u <= 90 {
        ((u + 32) as u8) as char
    } else {
        c
    }
}

/// ASCII lowercase of a string.
pub fn to_lower_str(s: &str) -> (r: String)
    ensures
        r@ == lower_seq(s@),
{
    let n = s.unicode_len();
    let mut out = String::new();
    let mut i: usize = 0;
    while i < n
        invariant
            0 <= i <= n,
            n == s@.len(),
            out@ == lower_seq(s@.subrange(0, i as int)),
        decreases n - i,
    {
        let c = to_lower_char(s.get_char(i));
        out.push(c);
        assert(lower_seq(s@.subrange(0, i + 1 as int)) =~= lower_seq(
            s@.subrange(0, i as int),
        ).push(lower_char(s@[i as int])));
        i = i + 1;
    }
    assert(s@.subrange(0, n as int) =~= s@);
    out
}

} // verus!
