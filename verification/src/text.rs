//! Character-level helpers shared by the style keywords and the REST client:
//! ASCII case folding, substring search, prefixes and decimal rendering.

use vstd::prelude::*;
use vstd::string::*;

verus! {

/// The code of `c` after ASCII lowercasing: `A`..=`Z` map to `a`..=`z`,
/// every other character keeps its code.
pub open spec fn fold_char(c: char) -> u32 {
    if 'A' <= c && c <= 'Z' {
        (c as u32 + 32) as u32
    } else {
        c as u32
    }
}

/// The ASCII-case-folded codes of `s`.
pub open spec fn fold(s: Seq<char>) -> Seq<u32> {
    s.map_values(|c: char| fold_char(c))
}

/// `a` and `b` are equal when ASCII letters are compared without regard to case.
pub open spec fn eq_ignore_ascii_case(a: Seq<char>, b: Seq<char>) -> bool {
    fold(a) == fold(b)
}

/// `pat` occurs in `s` starting at index `i`.
pub open spec fn matches_at(s: Seq<char>, pat: Seq<char>, i: int) -> bool {
    0 <= i && i + pat.len() <= s.len() && s.subrange(i, i + pat.len()) == pat
}

/// The first index at or after `i` at which `pat` occurs in `s`.
pub open spec fn find_from(s: Seq<char>, pat: Seq<char>, i: int) -> Option<int>
    decreases s.len() + 1 - i,
{
    if i < 0 || i + pat.len() > s.len() {
        None
    } else if matches_at(s, pat, i) {
        Some(i)
    } else {
        find_from(s, pat, i + 1)
    }
}

/// A position found by `find_from` is an occurrence at or after the start.
pub proof fn lemma_find_from_matches(s: Seq<char>, pat: Seq<char>, i: int)
    ensures
        find_from(s, pat, i) matches Some(k) ==> i <= k && matches_at(s, pat, k),
    decreases s.len() + 1 - i,
{
    if !(i < 0 || i + pat.len() > s.len()) && !matches_at(s, pat, i) {
        lemma_find_from_matches(s, pat, i + 1);
    }
}

/// The first index at which `pat` occurs in `s`.
pub open spec fn spec_find(s: Seq<char>, pat: Seq<char>) -> Option<int> {
    find_from(s, pat, 0)
}

/// `pat` occurs somewhere in `s`.
pub open spec fn spec_contains(s: Seq<char>, pat: Seq<char>) -> bool {
    spec_find(s, pat) is Some
}

/// `s` begins with `pat`.
pub open spec fn spec_starts_with(s: Seq<char>, pat: Seq<char>) -> bool {
    matches_at(s, pat, 0)
}

/// The part of `s` before the first occurrence of `c` (all of `s` when `c` does not occur).
pub open spec fn before_first(s: Seq<char>, c: char) -> Seq<char>
    decreases s.len(),
{
    if s.len() == 0 {
        s
    } else if s[0] == c {
        Seq::empty()
    } else {
        seq![s[0]] + before_first(s.drop_first(), c)
    }
}

/// The decimal digit for `d < 10`.
pub open spec fn digit_char(d: nat) -> char {
    if d == 0 {
        '0'
    } else if d == 1 {
        '1'
    } else if d == 2 {
        '2'
    } else if d == 3 {
        '3'
    } else if d == 4 {
        '4'
    } else if d == 5 {
        '5'
    } else if d == 6 {
        '6'
    } else if d == 7 {
        '7'
    } else if d == 8 {
        '8'
    } else {
        '9'
    }
}

/// The decimal rendering of `n`, without sign or leading zeros.
pub open spec fn decimal(n: nat) -> Seq<char>
    decreases n,
{
    if n < 10 {
        seq![digit_char(n)]
    } else {
        decimal(n / 10) + seq![digit_char(n % 10)]
    }
}

/// The characters of `s`, one per element.
pub fn chars_of(s: &str) -> (r: Vec<char>)
    ensures
        r@ == s@,
{
    let mut out: Vec<char> = Vec::new();
    for c in it: s.chars()
        invariant
            out@ == it.seq().take(it.index() as int),
    {
        out.push(c);
    }
    out
}

/// The code of `c` after ASCII lowercasing.
pub fn fold_char_exec(c: char) -> (r: u32)
    ensures
        r == fold_char(c),
{
    if 'A' <= c && c <= 'Z' {
        (c as u32) + 32
    } else {
        c as u32
    }
}

/// Compares two character sequences, ignoring the case of ASCII letters.
pub fn chars_eq_ignore_ascii_case(a: &Vec<char>, b: &Vec<char>) -> (r: bool)
    ensures
        r == eq_ignore_ascii_case(a@, b@),
{
    if a.len() != b.len() {
        assert(fold(a@).len() != fold(b@).len());
        return false;
    }
    let n = a.len();
    let mut i: usize = 0;
    while i < n
        invariant
            n == a.len(),
            n == b.len(),
            i <= n,
            forall|k: int| 0 <= k < i ==> fold_char(a@[k]) == fold_char(b@[k]),
        decreases n - i,
    {
        if fold_char_exec(a[i]) != fold_char_exec(b[i]) {
            assert(fold(a@)[i as int] != fold(b@)[i as int]);
            return false;
        }
        i = i + 1;
    }
    assert(fold(a@) =~= fold(b@));
    true
}

/// Whether `pat` occurs in `s` at index `i`.
pub fn chars_match_at(s: &Vec<char>, pat: &Vec<char>, i: usize) -> (r: bool)
    ensures
        r == matches_at(s@, pat@, i as int),
{
    if i > s.len() || pat.len() > s.len() - i {
        return false;
    }
    let mut j: usize = 0;
    while j < pat.len()
        invariant
            i + pat.len() <= s.len(),
            j <= pat.len(),
            forall|k: int| 0 <= k < j ==> s@[i + k] == pat@[k],
        decreases pat.len() - j,
    {
        if s[i + j] != pat[j] {
            assert(s@.subrange(i as int, i + pat.len())[j as int] != pat@[j as int]);
            return false;
        }
        j = j + 1;
    }
    assert(s@.subrange(i as int, i + pat.len()) =~= pat@);
    true
}

/// The first index at which `pat` occurs in `s`.
pub fn chars_find(s: &Vec<char>, pat: &Vec<char>) -> (r: Option<usize>)
    ensures
        match r {
            Some(i) => spec_find(s@, pat@) == Some(i as int) && i + pat@.len() <= s@.len(),
            None => spec_find(s@, pat@) is None,
        },
{
    proof {
        lemma_find_from_matches(s@, pat@, 0);
    }
    if pat.len() > s.len() {
        return None;
    }
    if pat.len() == 0 {
        assert(s@.subrange(0, 0) =~= pat@);
        return Some(0);
    }
    let last = s.len() - pat.len();
    let mut i: usize = 0;
    while i <= last
        invariant
            last + pat.len() == s.len(),
            pat.len() >= 1,
            i <= last + 1,
            find_from(s@, pat@, 0) == find_from(s@, pat@, i as int),
        decreases last + 1 - i,
    {
        if chars_match_at(s, pat, i) {
            return Some(i);
        }
        i = i + 1;
    }
    None
}

/// The first index at which `pat` occurs in `s`.
pub fn str_find(s: &str, pat: &str) -> (r: Option<usize>)
    ensures
        match r {
            Some(i) => spec_find(s@, pat@) == Some(i as int),
            None => spec_find(s@, pat@) is None,
        },
{
    let sc = chars_of(s);
    let pc = chars_of(pat);
    chars_find(&sc, &pc)
}

/// Whether `pat` occurs in `s`.
pub fn str_contains(s: &str, pat: &str) -> (r: bool)
    ensures
        r == spec_contains(s@, pat@),
{
    str_find(s, pat).is_some()
}

/// Whether `s` begins with `pat`.
pub fn str_starts_with(s: &str, pat: &str) -> (r: bool)
    ensures
        r == spec_starts_with(s@, pat@),
{
    let sc = chars_of(s);
    let pc = chars_of(pat);
    chars_match_at(&sc, &pc, 0)
}

/// The part of `s` before the first `c`; all of `s` when `c` does not occur.
pub fn str_before_first(s: &str, c: char) -> (r: String)
    ensures
        r@ == before_first(s@, c),
{
    let sc = chars_of(s);
    let n = sc.len();
    let mut i: usize = 0;
    while i < n && sc[i] != c
        invariant
            n == s@.len(),
            sc@ == s@,
            i <= n,
            forall|k: int| 0 <= k < i ==> s@[k] != c,
        decreases n - i,
    {
        i = i + 1;
    }
    proof {
        lemma_before_first_prefix(s@, c, i as int);
    }
    let head = s.substring_char(0, i);
    head.to_owned()
}

/// When no `c` occurs before index `i`, and `i` is either the end of `s` or an
/// occurrence of `c`, the part before the first `c` is `s[0..i]`.
pub proof fn lemma_before_first_prefix(s: Seq<char>, c: char, i: int)
    requires
        0 <= i <= s.len(),
        forall|k: int| 0 <= k < i ==> s[k] != c,
        i < s.len() ==> s[i] == c,
    ensures
        before_first(s, c) == s.subrange(0, i),
    decreases s.len(),
{
    if s.len() == 0 {
        assert(s.subrange(0, i) =~= s);
    } else if i == 0 {
        assert(s.subrange(0, i) =~= Seq::<char>::empty());
    } else {
        let t = s.drop_first();
        assert forall|k: int| 0 <= k < i - 1 implies t[k] != c by {
            assert(t[k] == s[k + 1]);
        }
        lemma_before_first_prefix(t, c, i - 1);
        assert(s.subrange(0, i) =~= seq![s[0]] + t.subrange(0, i - 1));
    }
}

/// The single-character string for the decimal digit `d`.
fn digit_str(d: u64) -> (r: &'static str)
    requires
        d < 10,
    ensures
        r@ == seq![digit_char(d as nat)],
{
    proof {
        reveal_strlit("0");
        reveal_strlit("1");
        reveal_strlit("2");
        reveal_strlit("3");
        reveal_strlit("4");
        reveal_strlit("5");
        reveal_strlit("6");
        reveal_strlit("7");
        reveal_strlit("8");
        reveal_strlit("9");
    }
    let r = if d == 0 {
        "0"
    } else if d == 1 {
        "1"
    } else if d == 2 {
        "2"
    } else if d == 3 {
        "3"
    } else if d == 4 {
        "4"
    } else if d == 5 {
        "5"
    } else if d == 6 {
        "6"
    } else if d == 7 {
        "7"
    } else if d == 8 {
        "8"
    } else {
        "9"
    };
    assert(r@ =~= seq![digit_char(d as nat)]);
    r
}

/// The decimal rendering of `n`.
pub fn decimal_string(n: u64) -> (r: String)
    ensures
        r@ == decimal(n as nat),
    decreases n,
{
    if n < 10 {
        String::from_str(digit_str(n))
    } else {
        let mut head = decimal_string(n / 10);
        head.append(digit_str(n % 10));
        head
    }
}

/// `a` followed by `b`.
pub fn concat2(a: &str, b: &str) -> (r: String)
    ensures
        r@ == a@ + b@,
{
    let mut out = String::from_str(a);
    out.append(b);
    out
}

/// `a`, `b` and `c` in order.
pub fn concat3(a: &str, b: &str, c: &str) -> (r: String)
    ensures
        r@ == a@ + b@ + c@,
{
    let mut out = String::from_str(a);
    out.append(b);
    out.append(c);
    out
}

/// The number that a string of decimal digits denotes, read left to right.
pub open spec fn decimal_value(s: Seq<char>) -> int
    decreases s.len(),
{
    if s.len() == 0 {
        0
    } else {
        decimal_value(s.drop_last()) * 10 + (s.last() as int - '0' as int)
    }
}

/// Two texts are equal ignoring ASCII case exactly when they have the same
/// length and, at every position, the same character once ASCII letters are
/// lowercased; nothing else is asked of them.
pub proof fn lemma_eq_ignore_ascii_case_pointwise(a: Seq<char>, b: Seq<char>)
    ensures
        eq_ignore_ascii_case(a, b) <==> (a.len() == b.len() && forall|i: int|
            0 <= i < a.len() ==> #[trigger] fold_char(a[i]) == fold_char(b[i])),
{
    if a.len() == b.len() && forall|i: int| 0 <= i < a.len() ==> #[trigger] fold_char(a[i])
        == fold_char(b[i]) {
        assert(fold(a) =~= fold(b));
    }
    if eq_ignore_ascii_case(a, b) {
        assert(fold(a).len() == a.len() && fold(b).len() == b.len());
        assert forall|i: int| 0 <= i < a.len() implies #[trigger] fold_char(a[i]) == fold_char(
            b[i],
        ) by {
            assert(fold(a)[i] == fold_char(a[i]));
            assert(fold(b)[i] == fold_char(b[i]));
        }
    }
}

/// Lowercasing ASCII letters: an uppercase ASCII letter and its lowercase
/// counterpart fold alike; every other character folds to its own code.
pub proof fn lemma_fold_char_cases(c: char)
    ensures
        'A' <= c <= 'Z' ==> fold_char(c) == c as u32 + ('a' as u32 - 'A' as u32),
        !('A' <= c <= 'Z') ==> fold_char(c) == c as u32,
{
}

/// `decimal(n)` is the base-10 numeral of `n`: it is made only of the digits
/// `0`..=`9`, it has no leading zero unless it is `0` itself, and reading it
/// back digit by digit gives `n`.
pub proof fn lemma_decimal_is_numeral(n: nat)
    ensures
        decimal_value(decimal(n)) == n,
        decimal(n).len() >= 1,
        forall|i: int| 0 <= i < decimal(n).len() ==> '0' <= #[trigger] decimal(n)[i] <= '9',
        decimal(n).len() > 1 ==> decimal(n)[0] != '0',
    decreases n,
{
    if n >= 10 {
        let q = n / 10;
        let r = n % 10;
        lemma_decimal_is_numeral(q);
        let d = decimal(n);
        assert(d.drop_last() =~= decimal(q));
        assert(d.last() == digit_char(r));
        assert(digit_char(r) as int - '0' as int == r);
        assert(q * 10 + r == n);
        assert forall|i: int| 0 <= i < d.len() implies '0' <= #[trigger] d[i] <= '9' by {
            if i < d.len() - 1 {
                assert(d[i] == decimal(q)[i]);
            }
        }
        assert(d[0] == decimal(q)[0]);
        assert(q >= 1);
        if q < 10 {
            assert(decimal(q) == seq![digit_char(q)]);
            assert(decimal(q)[0] == digit_char(q));
        } else {
            lemma_decimal_is_numeral(q / 10);
            assert(decimal(q).len() == decimal(q / 10).len() + 1);
        }
        assert(decimal_value(d) == decimal_value(d.drop_last()) * 10 + (d.last() as int - '0' as int));
    } else {
        let d = decimal(n);
        assert(d == seq![digit_char(n)]);
        assert(d.drop_last() =~= Seq::<char>::empty());
        assert(decimal_value(Seq::<char>::empty()) == 0);
        assert(digit_char(n) as int - '0' as int == n);
        assert(decimal_value(d) == decimal_value(d.drop_last()) * 10 + (d.last() as int - '0' as int));
    }
}

/// `pat` occurs at some position of `s` exactly when a first occurrence is
/// found, and the first occurrence is at or before every occurrence.
pub proof fn lemma_contains_iff_occurs(s: Seq<char>, pat: Seq<char>)
    ensures
        spec_contains(s, pat) <==> exists|i: int| matches_at(s, pat, i),
        forall|i: int| #[trigger] matches_at(s, pat, i) ==> (spec_find(s, pat) matches Some(k) && k
            <= i),
{
    lemma_find_from_matches(s, pat, 0);
    assert forall|i: int| #[trigger] matches_at(s, pat, i) implies (spec_find(s, pat) matches Some(
        k,
    ) && k <= i) by {
        lemma_find_from_reaches(s, pat, 0, i);
    }
}

/// Searching from `j` finds an occurrence at or before an occurrence at `i >= j`.
proof fn lemma_find_from_reaches(s: Seq<char>, pat: Seq<char>, j: int, i: int)
    requires
        0 <= j <= i,
        matches_at(s, pat, i),
    ensures
        (find_from(s, pat, j) matches Some(k) && k <= i),
    decreases i - j,
{
    if !matches_at(s, pat, j) {
        lemma_find_from_reaches(s, pat, j + 1, i);
    }
}

/// The part before the first `c` is the whole text when `c` does not occur,
/// and is `a` for a text `a`, `c`, `b` where `a` holds no `c`.
pub proof fn lemma_before_first_cases(a: Seq<char>, c: char, b: Seq<char>)
    ensures
        (forall|i: int| 0 <= i < a.len() ==> a[i] != c) ==> before_first(a, c) == a,
        (forall|i: int| 0 <= i < a.len() ==> a[i] != c) ==> before_first(a + seq![c] + b, c) == a,
{
    if forall|i: int| 0 <= i < a.len() ==> a[i] != c {
        lemma_before_first_prefix(a, c, a.len() as int);
        assert(a.subrange(0, a.len() as int) =~= a);
        let s = a + seq![c] + b;
        assert forall|k: int| 0 <= k < a.len() implies s[k] != c by {
            assert(s[k] == a[k]);
        }
        assert(s[a.len() as int] == c);
        lemma_before_first_prefix(s, c, a.len() as int);
        assert(s.subrange(0, a.len() as int) =~= a);
    }
}

/// When `pat` occurs at `i` and at no earlier position, `i` is the first
/// occurrence; when it occurs nowhere, none is found.
pub proof fn lemma_find_first(s: Seq<char>, pat: Seq<char>, i: int)
    ensures
        matches_at(s, pat, i) && (forall|k: int| 0 <= k < i ==> !#[trigger] matches_at(s, pat, k))
            ==> spec_find(s, pat) == Some(i),
        (forall|k: int| !#[trigger] matches_at(s, pat, k)) ==> spec_find(s, pat) is None,
{
    lemma_find_from_matches(s, pat, 0);
    if matches_at(s, pat, i) && (forall|k: int| 0 <= k < i ==> !#[trigger] matches_at(s, pat, k)) {
        lemma_find_from_reaches(s, pat, 0, i);
    }
}

} // verus!
