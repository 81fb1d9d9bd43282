//! Small verified string utilities: equality, substring search, character
//! extraction and decimal formatting.  Everything is specified over the
//! `Seq<char>` view of `str` and `String`.

use vstd::prelude::*;

verus! {

/// Compare two string slices character by character.
pub fn str_eq(a: &str, b: &str) -> (r: bool)
    ensures
        r == (a@ == b@),
{
    let alen = a.unicode_len();
    let blen = b.unicode_len();
    if alen != blen {
        proof {
            assert(a@ != b@) by {
                if a@ == b@ {
                    assert(a@.len() == b@.len());
                }
            }
        }
        return false;
    }
    let mut i: usize = 0;
    while i < alen
        invariant
            0 <= i <= alen,
            alen == a@.len(),
            alen == b@.len(),
            forall|k: int| 0 <= k < i ==> a@[k] == b@[k],
        decreases alen - i,
    {
        if a.get_char(i) != b.get_char(i) {
            proof {
                assert(a@ != b@) by {
                    if a@ == b@ {
                        assert(a@[i as int] == b@[i as int]);
                    }
                }
            }
            return false;
        }
        i += 1;
    }
    proof {
        assert(a@ =~= b@);
    }
    true
}

/// Copy the characters of a string slice into a vector.
pub fn to_chars(s: &str) -> (v: Vec<char>)
    ensures
        v@ == s@,
{
    let len = s.unicode_len();
    let mut v: Vec<char> = Vec::new();
    let mut i: usize = 0;
    while i < len
        invariant
            0 <= i <= len,
            len == s@.len(),
            v@ == s@.take(i as int),
        decreases len - i,
    {
        let c = s.get_char(i);
        v.push(c);
        proof {
            assert(v@ =~= s@.take(i + 1 as int));
        }
        i += 1;
    }
    proof {
        assert(s@.take(len as int) =~= s@);
    }
    v
}

/// `n` occurs in `h` starting at position `i`.
pub open spec fn matches_at(h: Seq<char>, n: Seq<char>, i: int) -> bool {
    0 <= i && i + n.len() <= h.len() && h.subrange(i, i + n.len()) == n
}

/// `n` occurs somewhere in `h` as a contiguous substring.
pub open spec fn spec_contains(h: Seq<char>, n: Seq<char>) -> bool {
    exists|i: int| matches_at(h, n, i)
}

/// Whether `n` occurs in `h` at position `i`, by character comparison.
fn matches_at_exec(h: &Vec<char>, n: &Vec<char>, i: usize) -> (r: bool)
    requires
        i + n@.len() <= h@.len(),
    ensures
        r == matches_at(h@, n@, i as int),
{
    let hlen = h.len();
    let mut k: usize = 0;
    while k < n.len()
        invariant
            0 <= k <= n@.len(),
            i + n@.len() <= h@.len(),
            hlen == h@.len(),
            forall|j: int| 0 <= j < k ==> h@[i + j] == n@[j],
        decreases n@.len() - k,
    {
        if h[i + k] != n[k] {
            proof {
                assert(!matches_at(h@, n@, i as int)) by {
                    if matches_at(h@, n@, i as int) {
                        assert(h@.subrange(i as int, i + n@.len())[k as int] == n@[k as int]);
                    }
                }
            }
            return false;
        }
        k += 1;
    }
    proof {
        assert(h@.subrange(i as int, i + n@.len()) =~= n@);
    }
    true
}

/// Substring search over character vectors.
pub fn contains_chars(h: &Vec<char>, n: &Vec<char>) -> (r: bool)
    ensures
        r == spec_contains(h@, n@),
{
    if n.len() == 0 {
        proof {
            assert(h@.subrange(0, 0) =~= n@);
            assert(matches_at(h@, n@, 0));
        }
        return true;
    }
    if n.len() > h.len() {
        proof {
            assert(!spec_contains(h@, n@)) by {
                if spec_contains(h@, n@) {
                    let i = choose|i: int| matches_at(h@, n@, i);
                }
            }
        }
        return false;
    }
    let bound = h.len() - n.len();
    let mut i: usize = 0;
    while i <= bound
        invariant
            0 <= i <= bound + 1,
            bound == h@.len() - n@.len(),
            bound < usize::MAX,
            0 < n@.len() <= h@.len(),
            forall|j: int| 0 <= j < i ==> !matches_at(h@, n@, j),
        decreases bound + 1 - i,
    {
        if matches_at_exec(h, n, i) {
            return true;
        }
        i += 1;
    }
    proof {
        assert(!spec_contains(h@, n@)) by {
            if spec_contains(h@, n@) {
                let j = choose|j: int| matches_at(h@, n@, j);
                assert(!matches_at(h@, n@, j));
            }
        }
    }
    false
}

/// Substring search over string slices.
pub fn contains_str(h: &str, n: &str) -> (r: bool)
    ensures
        r == spec_contains(h@, n@),
{
    let hc = to_chars(h);
    let nc = to_chars(n);
    contains_chars(&hc, &nc)
}

/// Position of the first occurrence of `pat` in `s` at or after `i`.
pub open spec fn first_match_from(s: Seq<char>, pat: Seq<char>, i: int) -> Option<int>
    decreases s.len() + 1 - i,
{
    if i < 0 || i + pat.len() > s.len() {
        None
    } else if s.subrange(i, i + pat.len()) == pat {
        Some(i)
    } else {
        first_match_from(s, pat, i + 1)
    }
}

/// Position of the last occurrence of `pat` in `s` at or before `i`.
pub open spec fn last_match_from(s: Seq<char>, pat: Seq<char>, i: int) -> Option<int>
    decreases i + 1,
{
    if i < 0 || i + pat.len() > s.len() {
        None
    } else if s.subrange(i, i + pat.len()) == pat {
        Some(i)
    } else {
        last_match_from(s, pat, i - 1)
    }
}

/// Find the first occurrence of a non-empty pattern.
pub fn find_sub(h: &Vec<char>, n: &Vec<char>) -> (r: Option<usize>)
    requires
        n@.len() > 0,
    ensures
        match r {
            Some(i) => first_match_from(h@, n@, 0) == Some(i as int) && i + n@.len()
                <= h@.len(),
            None => first_match_from(h@, n@, 0) is None,
        },
{
    if n.len() > h.len() {
        return None;
    }
    let bound = h.len() - n.len();
    let mut i: usize = 0;
    while i <= bound
        invariant
            0 <= i <= bound + 1,
            bound == h@.len() - n@.len(),
            bound < usize::MAX,
            0 < n@.len() <= h@.len(),
            first_match_from(h@, n@, 0) == first_match_from(h@, n@, i as int),
        decreases bound + 1 - i,
    {
        if matches_at_exec(h, n, i) {
            return Some(i);
        }
        i += 1;
    }
    None
}

/// Find the last occurrence of a non-empty pattern.
pub fn rfind_sub(h: &Vec<char>, n: &Vec<char>) -> (r: Option<usize>)
    requires
        n@.len() > 0,
    ensures
        match r {
            Some(i) => last_match_from(h@, n@, h@.len() - n@.len()) == Some(i as int) && i
                + n@.len() <= h@.len(),
            None => last_match_from(h@, n@, h@.len() - n@.len()) is None,
        },
{
    if n.len() > h.len() {
        return None;
    }
    let bound = h.len() - n.len();
    let mut i: usize = bound + 1;
    while i > 0
        invariant
            0 <= i <= bound + 1,
            bound == h@.len() - n@.len(),
            bound < usize::MAX,
            0 < n@.len() <= h@.len(),
            last_match_from(h@, n@, bound as int) == last_match_from(h@, n@, i - 1),
        decreases i,
    {
        if matches_at_exec(h, n, i - 1) {
            return Some(i - 1);
        }
        i -= 1;
    }
    proof {
        assert(last_match_from(h@, n@, -1) is None);
    }
    None
}

/// The character for a single decimal digit.
pub open spec fn digit_char(d: nat) -> char {
    if d == 0 {
        '0'
    } else if d == 1 {
        '1'
    } else if d == 2 {
        '2'
    } else if d == 3 {
        '3'
    } else if d == 4 {
        '4'
    } else if d == 5 {
        '5'
    } else if d == 6 {
        '6'
    } else if d == 7 {
        '7'
    } else if d == 8 {
        '8'
    } else {
        '9'
    }
}

/// The decimal rendering of a natural number, most significant digit
/// first.
pub open spec fn spec_digits(n: nat) -> Seq<char>
    decreases n,
{
    if n < 10 {
        seq![digit_char(n)]
    } else {
        spec_digits(n / 10).push(digit_char(n % 10))
    }
}

fn digit_str(d: u64) -> (s: &'static str)
    requires
        d < 10,
    ensures
        s@ == seq![digit_char(d as nat)],
{
    proof {
        reveal_strlit("0");
        reveal_strlit("1");
        reveal_strlit("2");
        reveal_strlit("3");
        reveal_strlit("4");
        reveal_strlit("5");
        reveal_strlit("6");
        reveal_strlit("7");
        reveal_strlit("8");
        reveal_strlit("9");
    }
    let s = match d {
        0 => "0",
        1 => "1",
        2 => "2",
        3 => "3",
        4 => "4",
        5 => "5",
        6 => "6",
        7 => "7",
        8 => "8",
        _ => "9",
    };
    proof {
        assert(s@ =~= seq![digit_char(d as nat)]);
    }
    s
}

/// Render an unsigned number in decimal.
pub fn fmt_u64(n: u64) -> (s: String)
    ensures
        s@ == spec_digits(n as nat),
    decreases n,
{
    if n < 10 {
        String::from_str(digit_str(n))
    } else {
        let prefix = fmt_u64(n / 10);
        let s = prefix.concat(digit_str(n % 10));
        s
    }
}

/// Render a signed number in decimal, with a leading minus sign when
/// negative.
pub open spec fn spec_digits_i64(n: int) -> Seq<char> {
    if n < 0 {
        seq!['-'] + spec_digits((-n) as nat)
    } else {
        spec_digits(n as nat)
    }
}

pub fn fmt_i64(n: i64) -> (s: String)
    ensures
        s@ == spec_digits_i64(n as int),
{
    if n < 0 {
        proof {
            reveal_strlit("-");
        }
        // i64::MIN has no negation in i64; render via u64 magnitude.
        let mag: u64 = if n == i64::MIN {
            9223372036854775808u64
        } else {
            (-n) as u64
        };
        let s = String::from_str("-").concat(fmt_u64(mag).as_str());
        proof {
            assert(s@ =~= spec_digits_i64(n as int));
        }
        s
    } else {
        fmt_u64(n as u64)
    }
}

} // verus!
