//! Small verified string helpers shared across the crate: exact decimal
//! rendering of integers, ASCII lowercasing, and substring search.

use vstd::prelude::*;

verus! {

/// The decimal digit character for `d` in 0..=9.
pub open spec fn digit_char(d: nat) -> char {
    if d == 0 {
        '0'
    } else if d == 1 {
        '1'
    } else if d == 2 {
        '2'
    } else if d == 3 {
        '3'
    } else if d == 4 {
        '4'
    } else if d == 5 {
        '5'
    } else if d == 6 {
        '6'
    } else if d == 7 {
        '7'
    } else if d == 8 {
        '8'
    } else {
        '9'
    }
}

/// The decimal rendering of `n`, most significant digit first, no sign and
/// no leading zeros (a single `'0'` for zero).
pub open spec fn spec_dec(n: nat) -> Seq<char>
    decreases n,
{
    if n < 10 {
        seq![digit_char(n)]
    } else {
        spec_dec(n / 10) + seq![digit_char(n % 10)]
    }
}

fn digit_literal(d: u64) -> (r: &'static str)
    requires
        d < 10,
    ensures
        r@ == seq![digit_char(d as nat)],
{
    proof {
        reveal_strlit("0");
        reveal_strlit("1");
        reveal_strlit("2");
        reveal_strlit("3");
        reveal_strlit("4");
        reveal_strlit("5");
        reveal_strlit("6");
        reveal_strlit("7");
        reveal_strlit("8");
        reveal_strlit("9");
    }
    if d == 0 {
        "0"
    } else if d == 1 {
        "1"
    } else if d == 2 {
        "2"
    } else if d == 3 {
        "3"
    } else if d == 4 {
        "4"
    } else if d == 5 {
        "5"
    } else if d == 6 {
        "6"
    } else if d == 7 {
        "7"
    } else if d == 8 {
        "8"
    } else {
        "9"
    }
}

/// Renders `n` in decimal, exactly as [`spec_dec`] describes.
pub fn u64_to_string(n: u64) -> (r: String)
    ensures
        r@ == spec_dec(n as nat),
    decreases n,
{
    if n < 10 {
        digit_literal(n).to_owned()
    } else {
        let mut prefix = u64_to_string(n / 10);
        prefix.append(digit_literal(n % 10));
        prefix
    }
}

/// The decimal rendering of `n` padded with leading zeros to at least two
/// digits.
pub open spec fn spec_pad2(n: nat) -> Seq<char> {
    if n < 10 {
        "0"@ + spec_dec(n)
    } else {
        spec_dec(n)
    }
}

/// Renders `n` as at least two decimal digits.
pub fn pad2(n: u64) -> (r: String)
    ensures
        r@ == spec_pad2(n as nat),
{
    if n < 10 {
        let mut s = "0".to_owned();
        s.append(u64_to_string(n).as_str());
        s
    } else {
        u64_to_string(n)
    }
}

/// The decimal rendering of `n` padded with leading zeros to at least
/// three digits.
pub open spec fn spec_pad3(n: nat) -> Seq<char> {
    if n < 10 {
        "00"@ + spec_dec(n)
    } else if n < 100 {
        "0"@ + spec_dec(n)
    } else {
        spec_dec(n)
    }
}

/// Renders `n` as at least three decimal digits.
pub fn pad3(n: u64) -> (r: String)
    ensures
        r@ == spec_pad3(n as nat),
{
    if n < 10 {
        let mut s = "00".to_owned();
        s.append(u64_to_string(n).as_str());
        s
    } else if n < 100 {
        let mut s = "0".to_owned();
        s.append(u64_to_string(n).as_str());
        s
    } else {
        u64_to_string(n)
    }
}

/// ASCII lowercasing of one character; everything outside `'A'..='Z'` is
/// left as it is.
pub open spec fn spec_lower_char(c: char) -> char {
    if 'A' <= c && c <= 'Z' {
        (((c as u8) + 32) as u8) as char
    } else {
        c
    }
}

/// Character-wise ASCII lowercasing.
pub open spec fn spec_lower(s: Seq<char>) -> Seq<char> {
    s.map_values(|c: char| spec_lower_char(c))
}

fn lower_char(c: char) -> (r: char)
    ensures
        r == spec_lower_char(c),
{
    if 'A' <= c && c <= 'Z' {
        (((c as u8) + 32) as u8) as char
    } else {
        c
    }
}

/// Collects the ASCII-lowercased characters of `s`.
pub fn lower_chars(s: &str) -> (r: Vec<char>)
    ensures
        r@ == spec_lower(s@),
{
    let len = s.unicode_len();
    let mut v: Vec<char> = Vec::new();
    let mut i: usize = 0;
    while i < len
        invariant
            len == s@.len(),
            i <= len,
            v@ == spec_lower(s@).take(i as int),
        decreases len - i,
    {
        v.push(lower_char(s.get_char(i)));
        i = i + 1;
        proof {
            assert(v@ =~= spec_lower(s@).take(i as int));
        }
    }
    proof {
        assert(v@ =~= spec_lower(s@));
    }
    v
}

/// The position of the first occurrence of `c`, or the length when there
/// is none.
pub open spec fn spec_index_of(s: Seq<char>, c: char) -> int
    decreases s.len(),
{
    if s.len() == 0 {
        0
    } else if s[0] == c {
        0
    } else {
        1 + spec_index_of(s.drop_first(), c)
    }
}

/// Pins [`spec_index_of`] to a witnessed first occurrence.
pub proof fn lemma_index_of_at(s: Seq<char>, c: char, i: int)
    requires
        0 <= i <= s.len(),
        forall|j: int| 0 <= j < i ==> s[j] != c,
        i == s.len() || s[i] == c,
    ensures
        spec_index_of(s, c) == i,
    decreases i,
{
    if s.len() > 0 && i > 0 {
        lemma_index_of_at(s.drop_first(), c, i - 1);
    }
}

/// Finds the first occurrence of `c`, or the length when there is none.
#[verifier::loop_isolation(false)]
pub fn index_of(s: &str, c: char) -> (r: usize)
    ensures
        r == spec_index_of(s@, c),
        r <= s@.len(),
        r == s@.len() || s@[r as int] == c,
        forall|j: int| 0 <= j < r ==> s@[j] != c,
{
    let len = s.unicode_len();
    let mut i: usize = 0;
    while i < len && s.get_char(i) != c
        invariant
            i <= len,
            forall|j: int| 0 <= j < i ==> s@[j] != c,
        decreases len - i,
    {
        i = i + 1;
    }
    proof {
        lemma_index_of_at(s@, c, i as int);
    }
    i
}

/// How many times `c` occurs.
pub open spec fn spec_count_char(s: Seq<char>, c: char) -> int
    decreases s.len(),
{
    if s.len() == 0 {
        0
    } else {
        spec_count_char(s.drop_last(), c) + if s.last() == c {
            1int
        } else {
            0int
        }
    }
}

/// Counts the occurrences of `c`.
#[verifier::loop_isolation(false)]
pub fn count_char(s: &str, c: char) -> (r: usize)
    ensures
        r == spec_count_char(s@, c),
        r <= s@.len(),
{
    let len = s.unicode_len();
    let mut n: usize = 0;
    let mut i: usize = 0;
    proof {
        assert(s@.take(0) =~= Seq::<char>::empty());
    }
    while i < len
        invariant
            i <= len,
            n <= i,
            n == spec_count_char(s@.take(i as int), c),
        decreases len - i,
    {
        proof {
            assert(s@.take(i as int + 1).drop_last() =~= s@.take(i as int));
            assert(s@.take(i as int + 1).last() == s@[i as int]);
        }
        if s.get_char(i) == c {
            n = n + 1;
        }
        i = i + 1;
    }
    proof {
        assert(s@.take(len as int) =~= s@);
    }
    n
}

/// `needle` occurs in `haystack` starting at position `i`.
pub open spec fn spec_match_at(haystack: Seq<char>, needle: Seq<char>, i: int) -> bool {
    0 <= i && i + needle.len() <= haystack.len() && forall|j: int|
        0 <= j < needle.len() ==> haystack[i + j] == needle[j]
}

/// `needle` occurs somewhere in `haystack` (anywhere, including the empty
/// needle at position 0).
pub open spec fn spec_contains(haystack: Seq<char>, needle: Seq<char>) -> bool {
    exists|i: int| spec_match_at(haystack, needle, i)
}

/// Substring search over a character vector.
pub fn contains_chars(haystack: &Vec<char>, needle: &str) -> (r: bool)
    ensures
        r == spec_contains(haystack@, needle@),
{
    let n = needle.unicode_len();
    let h = haystack.len();
    if n > h {
        proof {
            assert forall|i: int| !spec_match_at(haystack@, needle@, i) by {}
        }
        return false;
    }
    let mut i: usize = 0;
    while i <= h - n
        invariant
            n == needle@.len(),
            h == haystack@.len(),
            n <= h,
            i <= h - n + 1,
            forall|k: int| 0 <= k < i ==> !spec_match_at(haystack@, needle@, k),
        decreases h - n - i + 1,
    {
        let mut j: usize = 0;
        let mut hit = true;
        while j < n
            invariant
                n == needle@.len(),
                h == haystack@.len(),
                n <= h,
                i <= h - n,
                j <= n,
                hit ==> forall|l: int| 0 <= l < j ==> haystack@[i + l] == needle@[l],
                !hit ==> !spec_match_at(haystack@, needle@, i as int),
            decreases n - j,
        {
            if haystack[i + j] != needle.get_char(j) {
                proof {
                    assert(haystack@[i + j] != needle@[j as int]);
                    assert(!spec_match_at(haystack@, needle@, i as int));
                }
                hit = false;
                j = n;
            } else {
                proof {
                    assert(haystack@[i + j] == needle@[j as int]);
                }
                j = j + 1;
            }
        }
        if hit {
            proof {
                assert(spec_match_at(haystack@, needle@, i as int));
            }
            return true;
        }
        i = i + 1;
    }
    proof {
        assert forall|k: int| !spec_match_at(haystack@, needle@, k) by {
            if 0 <= k && k + needle@.len() <= haystack@.len() {
                assert(k < i);
            }
        }
    }
    false
}

} // verus!
