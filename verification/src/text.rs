//! Verified text utilities: decimal rendering of integers, whitespace
//! trimming, and substring search.  All contracts are stated over the
//! `Seq<char>` views of strings.

use vstd::prelude::*;
use vstd::string::StringExecFns;
use vstd::string::StrSliceExecFns;

verus! {

/// The character for a single decimal digit.
pub open spec fn digit_char(d: nat) -> char {
    if d == 0 {
        '0'
    } else if d == 1 {
        '1'
    } else if d == 2 {
        '2'
    } else if d == 3 {
        '3'
    } else if d == 4 {
        '4'
    } else if d == 5 {
        '5'
    } else if d == 6 {
        '6'
    } else if d == 7 {
        '7'
    } else if d == 8 {
        '8'
    } else {
        '9'
    }
}

/// The decimal digits of `n`, most significant first, with no leading zeros
/// (a single `'0'` for zero).
pub open spec fn dec_spec(n: nat) -> Seq<char>
    decreases n,
{
    if n < 10 {
        seq![digit_char(n)]
    } else {
        dec_spec(n / 10).push(digit_char(n % 10))
    }
}

/// A one-character string for the digit `d`.
fn digit_str(d: u32) -> (r: &'static str)
    requires
        d < 10,
    ensures
        r@ == seq![digit_char(d as nat)],
{
    proof {
        reveal_strlit("0");
        reveal_strlit("1");
        reveal_strlit("2");
        reveal_strlit("3");
        reveal_strlit("4");
        reveal_strlit("5");
        reveal_strlit("6");
        reveal_strlit("7");
        reveal_strlit("8");
        reveal_strlit("9");
    }
    let r: &'static str = match d {
        0 => "0",
        1 => "1",
        2 => "2",
        3 => "3",
        4 => "4",
        5 => "5",
        6 => "6",
        7 => "7",
        8 => "8",
        _ => "9",
    };
    proof {
        assert(r@ =~= seq![digit_char(d as nat)]);
    }
    r
}

/// Renders `n` in decimal.
pub fn u32_to_dec(n: u32) -> (r: String)
    ensures
        r@ == dec_spec(n as nat),
    decreases n,
{
    if n < 10 {
        String::from_str(digit_str(n))
    } else {
        let mut r = u32_to_dec(n / 10);
        r.append(digit_str(n % 10));
        proof {
            assert(r@ =~= dec_spec(n as nat));
        }
        r
    }
}

/// Renders `n` in decimal.
pub fn u16_to_dec(n: u16) -> (r: String)
    ensures
        r@ == dec_spec(n as nat),
{
    u32_to_dec(n as u32)
}

/// Whitespace as recognised by the trimming functions: the characters with
/// the Unicode White_Space property, as `char::is_whitespace` reports it.
pub open spec fn is_space_char(c: char) -> bool {
    c == ' ' || c == '\t' || c == '\n' || c == '\r' || c == '\u{b}' || c == '\u{c}'
        || c == '\u{85}' || c == '\u{a0}' || c == '\u{1680}' || c == '\u{2000}' || c == '\u{2001}'
        || c == '\u{2002}' || c == '\u{2003}' || c == '\u{2004}' || c == '\u{2005}'
        || c == '\u{2006}' || c == '\u{2007}' || c == '\u{2008}' || c == '\u{2009}'
        || c == '\u{200a}' || c == '\u{2028}' || c == '\u{2029}' || c == '\u{202f}'
        || c == '\u{205f}' || c == '\u{3000}'
}

/// `s` with leading whitespace removed.
pub open spec fn trim_start_spec(s: Seq<char>) -> Seq<char>
    decreases s.len(),
{
    if s.len() == 0 {
        s
    } else if is_space_char(s[0]) {
        trim_start_spec(s.drop_first())
    } else {
        s
    }
}

/// `s` with trailing whitespace removed.
pub open spec fn trim_end_spec(s: Seq<char>) -> Seq<char>
    decreases s.len(),
{
    if s.len() == 0 {
        s
    } else if is_space_char(s.last()) {
        trim_end_spec(s.drop_last())
    } else {
        s
    }
}

/// `s` with whitespace removed from both ends.
pub open spec fn trim_spec(s: Seq<char>) -> Seq<char> {
    trim_end_spec(trim_start_spec(s))
}

/// When the first `a` characters of `s` are whitespace and the one at `a`
/// (if any) is not, trimming the start keeps exactly the suffix from `a`.
proof fn lemma_trim_start_at(s: Seq<char>, a: int)
    requires
        0 <= a <= s.len(),
        forall|j: int| 0 <= j < a ==> is_space_char(s[j]),
        a < s.len() ==> !is_space_char(s[a]),
    ensures
        trim_start_spec(s) == s.subrange(a, s.len() as int),
    decreases a,
{
    if a == 0 {
        if s.len() == 0 {
            assert(trim_start_spec(s) =~= s.subrange(0, s.len() as int));
        } else {
            assert(trim_start_spec(s) =~= s.subrange(0, s.len() as int));
        }
    } else {
        assert(is_space_char(s[0]));
        let t = s.drop_first();
        assert(forall|j: int| 0 <= j < a - 1 ==> is_space_char(t[j]));
        lemma_trim_start_at(t, a - 1);
        assert(t.subrange(a - 1, t.len() as int) =~= s.subrange(a, s.len() as int));
    }
}

/// When the characters of `s` from `b` on are whitespace and the one just
/// before `b` (if any) is not, trimming the end keeps exactly the prefix up
/// to `b`.
proof fn lemma_trim_end_at(s: Seq<char>, b: int)
    requires
        0 <= b <= s.len(),
        forall|j: int| b <= j < s.len() ==> is_space_char(s[j]),
        b > 0 ==> !is_space_char(s[b - 1]),
    ensures
        trim_end_spec(s) == s.subrange(0, b),
    decreases s.len() - b,
{
    if b == s.len() {
        if s.len() == 0 {
            assert(trim_end_spec(s) =~= s.subrange(0, b));
        } else {
            assert(trim_end_spec(s) =~= s.subrange(0, b));
        }
    } else {
        assert(is_space_char(s.last()));
        let t = s.drop_last();
        assert(forall|j: int| b <= j < t.len() ==> is_space_char(t[j]));
        lemma_trim_end_at(t, b);
        assert(t.subrange(0, b) =~= s.subrange(0, b));
    }
}

/// Removes whitespace from both ends of `s`.
pub fn trim(s: &str) -> (r: &str)
    ensures
        r@ == trim_spec(s@),
{
    let len = s.unicode_len();
    let mut a: usize = 0;
    while a < len && is_space(s.get_char(a))
        invariant
            0 <= a <= len,
            len == s@.len(),
            forall|j: int| 0 <= j < a ==> is_space_char(s@[j]),
        decreases len - a,
    {
        a = a + 1;
    }
    proof {
        lemma_trim_start_at(s@, a as int);
    }
    if a == len {
        // all whitespace: the trimmed string is empty
        let r = s.substring_char(a, len);
        proof {
            assert(trim_start_spec(s@) =~= Seq::<char>::empty());
            assert(trim_spec(s@) =~= r@);
        }
        r
    } else {
        let mut b: usize = len;
        while b > a && is_space(s.get_char(b - 1))
            invariant
                a <= b <= len,
                len == s@.len(),
                forall|j: int| b <= j < len ==> is_space_char(s@[j]),
            decreases b,
        {
            b = b - 1;
        }
        // s[a] is not whitespace, so b cannot have passed a
        proof {
            assert(!is_space_char(s@[a as int]));
            assert(b > a);
        }
        let r = s.substring_char(a, b);
        proof {
            let t = s@.subrange(a as int, s@.len() as int);
            assert(forall|j: int| (b - a) <= j < t.len() ==> is_space_char(t[j]));
            assert(!is_space_char(t[b - a - 1]));
            lemma_trim_end_at(t, b - a);
            assert(t.subrange(0, b - a) =~= s@.subrange(a as int, b as int));
        }
        r
    }
}

/// Whether `c` is counted as whitespace.
pub fn is_space(c: char) -> (r: bool)
    ensures
        r == is_space_char(c),
{
    c == ' ' || c == '\t' || c == '\n' || c == '\r' || c == '\u{b}' || c == '\u{c}'
        || c == '\u{85}' || c == '\u{a0}' || c == '\u{1680}' || c == '\u{2000}' || c == '\u{2001}'
        || c == '\u{2002}' || c == '\u{2003}' || c == '\u{2004}' || c == '\u{2005}'
        || c == '\u{2006}' || c == '\u{2007}' || c == '\u{2008}' || c == '\u{2009}'
        || c == '\u{200a}' || c == '\u{2028}' || c == '\u{2029}' || c == '\u{202f}'
        || c == '\u{205f}' || c == '\u{3000}'
}

/// `n` occurs in `h` starting at position `i`.
pub open spec fn matches_at(h: Seq<char>, n: Seq<char>, i: int) -> bool {
    0 <= i && i + n.len() <= h.len() && h.subrange(i, i + n.len()) == n
}

/// `n` occurs somewhere in `h`.
pub open spec fn contains_spec(h: Seq<char>, n: Seq<char>) -> bool {
    exists|i: int| matches_at(h, n, i)
}

/// Whether `needle` occurs as a contiguous substring of `hay`.
pub fn str_contains(hay: &str, needle: &str) -> (r: bool)
    ensures
        r == contains_spec(hay@, needle@),
{
    let hl = hay.unicode_len();
    let nl = needle.unicode_len();
    if nl > hl {
        proof {
            assert(forall|i: int| !matches_at(hay@, needle@, i));
        }
        return false;
    }
    let mut i: usize = 0;
    while i <= hl - nl
        invariant
            0 <= i <= hl - nl + 1,
            nl <= hl,
            hl == hay@.len(),
            nl == needle@.len(),
            forall|j: int| 0 <= j < i ==> !matches_at(hay@, needle@, j),
        decreases hl - nl + 1 - i,
    {
        let mut k: usize = 0;
        let mut all_equal: bool = true;
        while k < nl
            invariant
                0 <= k <= nl,
                0 <= i <= hl - nl,
                hl == hay@.len(),
                nl == needle@.len(),
                all_equal <==> (forall|m: int| 0 <= m < k ==> hay@[i + m] == needle@[m]),
            decreases nl - k,
        {
            if hay.get_char(i + k) != needle.get_char(k) {
                all_equal = false;
                proof {
                    assert(!(forall|m: int| 0 <= m < k + 1 ==> hay@[i + m] == needle@[m]));
                }
                k = nl;
            } else {
                k = k + 1;
            }
        }
        if all_equal {
            proof {
                assert(hay@.subrange(i as int, i + needle@.len()) =~= needle@);
                assert(matches_at(hay@, needle@, i as int));
            }
            return true;
        }
        proof {
            if matches_at(hay@, needle@, i as int) {
                assert forall|m: int| 0 <= m < nl implies hay@[i + m] == needle@[m] by {
                    assert(hay@.subrange(i as int, i + nl as int)[m] == hay@[i + m]);
                }
                assert(false);
            }
        }
        i = i + 1;
    }
    proof {
        assert(forall|j: int| matches_at(hay@, needle@, j) ==> 0 <= j <= hl - nl);
    }
    false
}

} // verus!

