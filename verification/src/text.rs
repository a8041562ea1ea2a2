//! Character-level helpers shared by the URL, plist and message code:
//! Unicode whitespace trimming, substring search and decimal rendering.

use vstd::prelude::*;

verus! {

/// The Unicode `White_Space` property, which is what `str::trim` strips.
pub open spec fn is_white_space(c: char) -> bool {
    let u = c as u32;
    ||| 0x09 <= u <= 0x0d
    ||| u == 0x20
    ||| u == 0x85
    ||| u == 0xa0
    ||| u == 0x1680
    ||| 0x2000 <= u <= 0x200a
    ||| u == 0x2028
    ||| u == 0x2029
    ||| u == 0x202f
    ||| u == 0x205f
    ||| u == 0x3000
}

/// Index of the first non-whitespace character at or after `i` (or the length).
pub open spec fn lead_end(s: Seq<char>, i: nat) -> nat
    decreases s.len() - i,
{
    if i < s.len() && is_white_space(s[i as int]) {
        lead_end(s, i + 1)
    } else {
        i
    }
}

/// Index just past the last non-whitespace character at or before `j`,
/// never going below `lo`.
pub open spec fn trail_end(s: Seq<char>, lo: nat, j: nat) -> nat
    decreases j,
{
    if j > lo && j <= s.len() && is_white_space(s[j - 1]) {
        trail_end(s, lo, (j - 1) as nat)
    } else {
        j
    }
}

/// `s` with leading and trailing whitespace removed.
pub open spec fn trim_view(s: Seq<char>) -> Seq<char> {
    let lo = lead_end(s, 0);
    s.subrange(lo as int, trail_end(s, lo, s.len()) as int)
}

/// Whether `pat` occurs in `s` starting at index `i`.
pub open spec fn occurs_at(s: Seq<char>, pat: Seq<char>, i: int) -> bool {
    0 <= i && i + pat.len() <= s.len() && s.subrange(i, i + pat.len()) == pat
}

/// The first index at or after `i` where `pat` occurs in `s`.
pub open spec fn find_from(s: Seq<char>, pat: Seq<char>, i: nat) -> Option<nat>
    decreases s.len() + 1 - i,
{
    if i + pat.len() > s.len() {
        None
    } else if occurs_at(s, pat, i as int) {
        Some(i)
    } else {
        find_from(s, pat, i + 1)
    }
}

/// The first index where `pat` occurs in `s`.
pub open spec fn find_first(s: Seq<char>, pat: Seq<char>) -> Option<nat> {
    find_from(s, pat, 0)
}

/// What a successful search from `i` tells: the pattern occurs at the index
/// found, and at no earlier index from `i` on.
pub proof fn lemma_find_from(s: Seq<char>, pat: Seq<char>, i: nat)
    ensures
        match find_from(s, pat, i) {
            Some(k) => i <= k && occurs_at(s, pat, k as int) && k + pat.len() <= s.len()
                && forall|j: int| i <= j < k ==> !#[trigger] occurs_at(s, pat, j),
            None => forall|j: int| i <= j ==> !#[trigger] occurs_at(s, pat, j),
        },
    decreases s.len() + 1 - i,
{
    if i + pat.len() > s.len() {
    } else if occurs_at(s, pat, i as int) {
    } else {
        lemma_find_from(s, pat, i + 1);
    }
}

/// `str::split_once`: the text before and after the first occurrence of `pat`.
pub open spec fn split_once_view(s: Seq<char>, pat: Seq<char>) -> Option<(Seq<char>, Seq<char>)> {
    match find_first(s, pat) {
        Some(i) => Some((s.take(i as int), s.skip((i + pat.len()) as int))),
        None => None,
    }
}

/// `str::split_once`: the text before and after the first occurrence of `pat`.
pub fn split_once<'a>(s: &'a str, pat: &str) -> (res: Option<(&'a str, &'a str)>)
    ensures
        match res {
            Some((before, after)) => split_once_view(s@, pat@) == Some((before@, after@)),
            None => split_once_view(s@, pat@) is None,
        },
{
    let cs = chars_of(s);
    let ps = chars_of(pat);
    match find(&cs, &ps) {
        Some(i) => {
            proof {
                lemma_find_from(s@, pat@, 0);
            }
            let m = ps.len();
            let n = cs.len();
            let before = s.substring_char(0, i);
            let after = s.substring_char(i + m, n);
            assert(before@ =~= s@.take(i as int));
            assert(after@ =~= s@.skip((i + pat@.len()) as int));
            Some((before, after))
        },
        None => None,
    }
}

/// The character of a decimal digit.
pub open spec fn digit_char(d: nat) -> char {
    if d == 0 { '0' }
    else if d == 1 { '1' }
    else if d == 2 { '2' }
    else if d == 3 { '3' }
    else if d == 4 { '4' }
    else if d == 5 { '5' }
    else if d == 6 { '6' }
    else if d == 7 { '7' }
    else if d == 8 { '8' }
    else { '9' }
}

/// The decimal rendering of `n`, without sign or leading zeros.
pub open spec fn decimal(n: nat) -> Seq<char>
    decreases n,
{
    if n < 10 {
        seq![digit_char(n)]
    } else {
        decimal(n / 10).push(digit_char(n % 10))
    }
}

/// `char::is_whitespace`.
pub fn char_is_white_space(c: char) -> (res: bool)
    ensures
        res == is_white_space(c),
{
    let u = c as u32;
    (0x09 <= u && u <= 0x0d) || u == 0x20 || u == 0x85 || u == 0xa0 || u == 0x1680 || (0x2000
        <= u && u <= 0x200a) || u == 0x2028 || u == 0x2029 || u == 0x202f || u == 0x205f || u
        == 0x3000
}

/// The characters of `s`, one per element.
pub fn chars_of(s: &str) -> (res: Vec<char>)
    ensures
        res@ == s@,
{
    let n = s.unicode_len();
    let mut res: Vec<char> = Vec::new();
    let mut i: usize = 0;
    while i < n
        invariant
            n == s@.len(),
            i <= n,
            res@ == s@.take(i as int),
        decreases n - i,
    {
        res.push(s.get_char(i));
        i = i + 1;
        assert(res@ =~= s@.take(i as int));
    }
    assert(res@ =~= s@);
    res
}

/// Whether two strings hold the same characters (`str == str`).
pub fn str_equal(a: &str, b: &str) -> (res: bool)
    ensures
        res == (a@ == b@),
{
    let n = a.unicode_len();
    if n != b.unicode_len() {
        return false;
    }
    let mut i: usize = 0;
    while i < n
        invariant
            n == a@.len(),
            n == b@.len(),
            i <= n,
            forall|k: int| 0 <= k < i ==> a@[k] == b@[k],
        decreases n - i,
    {
        if a.get_char(i) != b.get_char(i) {
            return false;
        }
        i = i + 1;
    }
    assert(a@ =~= b@);
    true
}

/// `str::trim`: `s` without leading and trailing Unicode whitespace.
pub fn trim(s: &str) -> (res: &str)
    ensures
        res@ == trim_view(s@),
{
    let cs = chars_of(s);
    let n = cs.len();
    let mut lo: usize = 0;
    while lo < n && char_is_white_space(cs[lo])
        invariant
            n == cs@.len(),
            cs@ == s@,
            lo <= n,
            lead_end(s@, 0) == lead_end(s@, lo as nat),
        decreases n - lo,
    {
        lo = lo + 1;
    }
    let mut hi: usize = n;
    while hi > lo && char_is_white_space(cs[hi - 1])
        invariant
            n == cs@.len(),
            cs@ == s@,
            lo <= hi <= n,
            lead_end(s@, 0) == lo,
            trail_end(s@, lo as nat, n as nat) == trail_end(s@, lo as nat, hi as nat),
        decreases hi,
    {
        hi = hi - 1;
    }
    s.substring_char(lo, hi)
}

/// First index at which `pat` occurs in `s`, searching character by character.
pub fn find(s: &Vec<char>, pat: &Vec<char>) -> (res: Option<usize>)
    ensures
        match res {
            Some(i) => find_first(s@, pat@) == Some(i as nat),
            None => find_first(s@, pat@) is None,
        },
{
    let n = s.len();
    let m = pat.len();
    if m > n {
        return None;
    }
    if m == 0 {
        assert(s@.subrange(0, 0) =~= pat@);
        return Some(0);
    }
    let mut i: usize = 0;
    while i <= n - m
        invariant
            n == s@.len(),
            m == pat@.len(),
            0 < m <= n,
            i <= n - m + 1,
            find_first(s@, pat@) == find_from(s@, pat@, i as nat),
        decreases n - i,
    {
        let mut j: usize = 0;
        let mut matched = true;
        while j < m
            invariant
                n == s@.len(),
                m == pat@.len(),
                i + m <= n,
                j <= m,
                matched ==> forall|k: int| 0 <= k < j ==> s@[i + k] == pat@[k],
                !matched ==> !occurs_at(s@, pat@, i as int),
            decreases m - j,
        {
            if s[i + j] != pat[j] {
                matched = false;
                assert(s@.subrange(i as int, i + m)[j as int] != pat@[j as int]);
            }
            j = j + 1;
        }
        if matched {
            assert(s@.subrange(i as int, i + m) =~= pat@);
            return Some(i);
        }
        i = i + 1;
    }
    None
}

/// The decimal digit `d` as a one-character string.
fn digit_str(d: u64) -> (res: &'static str)
    requires
        d < 10,
    ensures
        res@ == seq![digit_char(d as nat)],
{
    if d == 0 {
        proof { reveal_strlit("0"); }
        "0"
    } else if d == 1 {
        proof { reveal_strlit("1"); }
        "1"
    } else if d == 2 {
        proof { reveal_strlit("2"); }
        "2"
    } else if d == 3 {
        proof { reveal_strlit("3"); }
        "3"
    } else if d == 4 {
        proof { reveal_strlit("4"); }
        "4"
    } else if d == 5 {
        proof { reveal_strlit("5"); }
        "5"
    } else if d == 6 {
        proof { reveal_strlit("6"); }
        "6"
    } else if d == 7 {
        proof { reveal_strlit("7"); }
        "7"
    } else if d == 8 {
        proof { reveal_strlit("8"); }
        "8"
    } else {
        proof { reveal_strlit("9"); }
        "9"
    }
}

/// The decimal rendering of `n` (what `n.to_string()` gives).
pub fn decimal_string(n: u64) -> (res: String)
    ensures
        res@ == decimal(n as nat),
{
    // Digits, least significant first.
    let mut digits: Vec<u64> = Vec::new();
    let mut rest: u64 = n;
    proof {
        lemma_decimal_split(rest as nat);
        reveal_with_fuel(rev_digits, 2);
        assert(rev_digits(seq![(rest % 10) as u64]) =~= seq![digit_char(rest as nat % 10)] + rev_digits(seq![]));
    }
    digits.push(rest % 10);
    rest = rest / 10;
    while rest > 0
        invariant
            forall|k: int| 0 <= k < digits@.len() ==> digits@[k] < 10,
            decimal(n as nat) == (if rest == 0 {
                seq![]
            } else {
                decimal(rest as nat)
            }) + rev_digits(digits@),
        decreases rest,
    {
        proof {
            lemma_decimal_split(rest as nat);
            let d = (rest % 10) as u64;
            assert(digits@.push(d).drop_last() =~= digits@);
            assert(rev_digits(digits@.push(d)) =~= seq![digit_char(d as nat)] + rev_digits(digits@));
        }
        digits.push(rest % 10);
        rest = rest / 10;
    }
    let mut res = String::new();
    let mut k: usize = digits.len();
    assert(digits@.take(k as int) =~= digits@);
    while k > 0
        invariant
            k <= digits@.len(),
            forall|i: int| 0 <= i < digits@.len() ==> digits@[i] < 10,
            res@ + rev_digits(digits@.take(k as int)) == rev_digits(digits@),
        decreases k,
    {
        k = k - 1;
        let s = digit_str(digits[k]);
        proof {
            assert(digits@.take(k + 1).drop_last() =~= digits@.take(k as int));
            assert(digits@.take(k + 1).last() == digits@[k as int]);
        }
        let ghost before = res@;
        res.append(s);
        assert(res@ + rev_digits(digits@.take(k as int)) =~= before + rev_digits(digits@.take(k + 1)));
    }
    assert(rev_digits(digits@.take(0)) =~= Seq::<char>::empty());
    assert(res@ =~= rev_digits(digits@));
    res
}

/// The characters of `digits`, most significant (last) first.
pub open spec fn rev_digits(digits: Seq<u64>) -> Seq<char>
    decreases digits.len(),
{
    if digits.len() == 0 {
        seq![]
    } else {
        seq![digit_char(digits.last() as nat)] + rev_digits(digits.drop_last())
    }
}

/// The last digit of `n` follows the rendering of the rest.
proof fn lemma_decimal_split(n: nat)
    ensures
        decimal(n) == (if n / 10 == 0 { seq![] } else { decimal(n / 10) }) + seq![digit_char(n % 10)],
{
    if n < 10 {
        assert(decimal(n) =~= seq![] + seq![digit_char(n % 10)]);
    } else {
        assert(decimal(n) =~= decimal(n / 10) + seq![digit_char(n % 10)]);
    }
}

} // verus!
