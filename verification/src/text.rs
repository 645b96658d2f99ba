//! Character-level text utilities shared by the URI and request parsers:
//! whitespace trimming, ASCII lower-casing, splitting on a separator, and
//! decimal parsing, each with a mathematical model over `Seq<char>`.

use vstd::prelude::*;
use vstd::string::StrSliceExecFns;

verus! {

// ---------------------------------------------------------------------------
// Whitespace and trimming
// ---------------------------------------------------------------------------

/// The characters stripped from the ends of a token: ASCII whitespace.
pub open spec fn is_space(c: char) -> bool {
    c == ' ' || c == '\t' || c == '\n' || c == '\r' || c == '\u{c}'
}

/// `s` with every leading whitespace character removed.
pub open spec fn trim_front(s: Seq<char>) -> Seq<char>
    decreases s.len(),
{
    if s.len() > 0 && is_space(s[0]) {
        trim_front(s.subrange(1, s.len() as int))
    } else {
        s
    }
}

/// `s` with every trailing whitespace character removed.
pub open spec fn trim_back(s: Seq<char>) -> Seq<char>
    decreases s.len(),
{
    if s.len() > 0 && is_space(s[s.len() - 1]) {
        trim_back(s.subrange(0, s.len() - 1))
    } else {
        s
    }
}

/// `s` with whitespace removed from both ends.
pub open spec fn trim(s: Seq<char>) -> Seq<char> {
    trim_back(trim_front(s))
}

/// If the first `a` characters are whitespace and the character at `a` (if
/// any) is not, then trimming the front keeps exactly the suffix from `a`.
pub proof fn lemma_trim_front_exact(s: Seq<char>, a: int)
    requires
        0 <= a <= s.len(),
        forall|j: int| 0 <= j < a ==> is_space(s[j]),
        a < s.len() ==> !is_space(s[a]),
    ensures
        trim_front(s) == s.subrange(a, s.len() as int),
    decreases a,
{
    if a == 0 {
        assert(s.subrange(0, s.len() as int) =~= s);
    } else {
        let s1 = s.subrange(1, s.len() as int);
        lemma_trim_front_exact(s1, a - 1);
        assert(s1.subrange(a - 1, s1.len() as int) =~= s.subrange(a, s.len() as int));
    }
}

/// If the characters from `b` on are whitespace and the character at `b - 1`
/// (if any) is not, then trimming the back keeps exactly the prefix up to `b`.
pub proof fn lemma_trim_back_exact(s: Seq<char>, b: int)
    requires
        0 <= b <= s.len(),
        forall|j: int| b <= j < s.len() ==> is_space(s[j]),
        b > 0 ==> !is_space(s[b - 1]),
    ensures
        trim_back(s) == s.subrange(0, b),
    decreases s.len() - b,
{
    if b == s.len() {
        assert(s.subrange(0, s.len() as int) =~= s);
    } else {
        let s1 = s.subrange(0, s.len() - 1);
        lemma_trim_back_exact(s1, b);
        assert(s1.subrange(0, b) =~= s.subrange(0, b));
    }
}

/// A sequence without whitespace at either end is its own trimmed form.
pub proof fn lemma_trim_id(s: Seq<char>)
    requires
        s.len() > 0 ==> !is_space(s[0]) && !is_space(s[s.len() - 1]),
    ensures
        trim(s) == s,
{
    lemma_trim_front_exact(s, 0);
    assert(s.subrange(0, s.len() as int) =~= s);
    lemma_trim_back_exact(s, s.len() as int);
}

// ---------------------------------------------------------------------------
// ASCII lower-casing
// ---------------------------------------------------------------------------

/// Maps an ASCII upper-case letter to its lower-case form; every other
/// character is unchanged.
pub open spec fn lower_char(c: char) -> char {
    if c == 'A' { 'a' }
    else if c == 'B' { 'b' }
    else if c == 'C' { 'c' }
    else if c == 'D' { 'd' }
    else if c == 'E' { 'e' }
    else if c == 'F' { 'f' }
    else if c == 'G' { 'g' }
    else if c == 'H' { 'h' }
    else if c == 'I' { 'i' }
    else if c == 'J' { 'j' }
    else if c == 'K' { 'k' }
    else if c == 'L' { 'l' }
    else if c == 'M' { 'm' }
    else if c == 'N' { 'n' }
    else if c == 'O' { 'o' }
    else if c == 'P' { 'p' }
    else if c == 'Q' { 'q' }
    else if c == 'R' { 'r' }
    else if c == 'S' { 's' }
    else if c == 'T' { 't' }
    else if c == 'U' { 'u' }
    else if c == 'V' { 'v' }
    else if c == 'W' { 'w' }
    else if c == 'X' { 'x' }
    else if c == 'Y' { 'y' }
    else if c == 'Z' { 'z' }
    else { c }
}

/// Character-wise ASCII lower-casing of a sequence.
pub open spec fn lower(s: Seq<char>) -> Seq<char> {
    s.map_values(|c: char| lower_char(c))
}

/// Lower-casing never makes a character whitespace, nor the reverse.
pub proof fn lemma_lower_char_space(c: char)
    ensures
        is_space(lower_char(c)) == is_space(c),
{
}

// ---------------------------------------------------------------------------
// Executable helpers over `Vec<char>`
// ---------------------------------------------------------------------------

/// Relies on `String::push`: appends the given character at the end of the
/// string.
#[verifier::external_body]
fn push_char(s: &mut String, c: char)
    ensures
        final(s)@ == old(s)@.push(c),
{
    s.push(c);
}

/// The characters of `s`, as a vector.
pub fn to_chars(s: &str) -> (r: Vec<char>)
    ensures
        r@ == s@,
{
    let n = s.unicode_len();
    let mut r: Vec<char> = Vec::new();
    let mut i: usize = 0;
    while i < n
        invariant
            n == s@.len(),
            i <= n,
            r@ == s@.subrange(0, i as int),
        decreases n - i,
    {
        let c = s.get_char(i);
        r.push(c);
        i = i + 1;
        assert(r@ =~= s@.subrange(0, i as int));
    }
    assert(s@.subrange(0, n as int) =~= s@);
    r
}

/// An owned string holding exactly the characters of `v`.
pub fn string_of(v: &Vec<char>) -> (r: String)
    ensures
        r@ == v@,
{
    let mut r = String::new();
    let mut i: usize = 0;
    while i < v.len()
        invariant
            i <= v@.len(),
            r@ == v@.subrange(0, i as int),
        decreases v@.len() - i,
    {
        push_char(&mut r, v[i]);
        i = i + 1;
        assert(r@ =~= v@.subrange(0, i as int));
    }
    assert(v@.subrange(0, v@.len() as int) =~= v@);
    r
}

/// A one-character vector.
pub fn single(c: char) -> (r: Vec<char>)
    ensures
        r@ == seq![c],
{
    let mut r: Vec<char> = Vec::new();
    r.push(c);
    assert(r@ =~= seq![c]);
    r
}

/// A two-character vector.
pub fn pair(c0: char, c1: char) -> (r: Vec<char>)
    ensures
        r@ == seq![c0, c1],
{
    let mut r: Vec<char> = Vec::new();
    r.push(c0);
    r.push(c1);
    assert(r@ =~= seq![c0, c1]);
    r
}

/// The characters of `s` from `from` (inclusive) to `to` (exclusive).
pub fn subvec(s: &Vec<char>, from: usize, to: usize) -> (r: Vec<char>)
    requires
        from <= to <= s@.len(),
    ensures
        r@ == s@.subrange(from as int, to as int),
{
    let mut r: Vec<char> = Vec::new();
    let mut i: usize = from;
    while i < to
        invariant
            from <= i <= to <= s@.len(),
            r@ == s@.subrange(from as int, i as int),
        decreases to - i,
    {
        r.push(s[i]);
        i = i + 1;
        assert(r@ =~= s@.subrange(from as int, i as int));
    }
    r
}

/// Whether two character vectors hold the same characters.
pub fn chars_eq(a: &Vec<char>, b: &Vec<char>) -> (r: bool)
    ensures
        r == (a@ == b@),
{
    if a.len() != b.len() {
        return false;
    }
    let mut i: usize = 0;
    while i < a.len()
        invariant
            i <= a@.len(),
            a@.len() == b@.len(),
            forall|j: int| 0 <= j < i ==> a@[j] == b@[j],
        decreases a@.len() - i,
    {
        if a[i] != b[i] {
            return false;
        }
        i = i + 1;
    }
    assert(a@ =~= b@);
    true
}

/// Whether `c` counts as whitespace for trimming.
pub fn space_char(c: char) -> (r: bool)
    ensures
        r == is_space(c),
{
    c == ' ' || c == '\t' || c == '\n' || c == '\r' || c == '\u{c}'
}

/// The ASCII lower-case form of `c`.
pub fn to_lower_char(c: char) -> (r: char)
    ensures
        r == lower_char(c),
{
    if c == 'A' { 'a' }
    else if c == 'B' { 'b' }
    else if c == 'C' { 'c' }
    else if c == 'D' { 'd' }
    else if c == 'E' { 'e' }
    else if c == 'F' { 'f' }
    else if c == 'G' { 'g' }
    else if c == 'H' { 'h' }
    else if c == 'I' { 'i' }
    else if c == 'J' { 'j' }
    else if c == 'K' { 'k' }
    else if c == 'L' { 'l' }
    else if c == 'M' { 'm' }
    else if c == 'N' { 'n' }
    else if c == 'O' { 'o' }
    else if c == 'P' { 'p' }
    else if c == 'Q' { 'q' }
    else if c == 'R' { 'r' }
    else if c == 'S' { 's' }
    else if c == 'T' { 't' }
    else if c == 'U' { 'u' }
    else if c == 'V' { 'v' }
    else if c == 'W' { 'w' }
    else if c == 'X' { 'x' }
    else if c == 'Y' { 'y' }
    else if c == 'Z' { 'z' }
    else { c }
}

/// The ASCII lower-case form of `v`.
pub fn lower_chars(v: &Vec<char>) -> (r: Vec<char>)
    ensures
        r@ == lower(v@),
{
    let mut r: Vec<char> = Vec::new();
    let mut i: usize = 0;
    while i < v.len()
        invariant
            i <= v@.len(),
            r@.len() == i,
            forall|j: int| 0 <= j < i ==> r@[j] == lower_char(v@[j]),
        decreases v@.len() - i,
    {
        r.push(to_lower_char(v[i]));
        i = i + 1;
    }
    assert(r@ =~= lower(v@));
    r
}

/// The characters of `v` with whitespace removed from both ends.
pub fn trim_chars(v: &Vec<char>) -> (r: Vec<char>)
    ensures
        r@ == trim(v@),
{
    let mut a: usize = 0;
    while a < v.len() && space_char(v[a])
        invariant
            a <= v@.len(),
            forall|j: int| 0 <= j < a ==> is_space(v@[j]),
        decreases v@.len() - a,
    {
        a = a + 1;
    }
    let mut b: usize = v.len();
    while b > a && space_char(v[b - 1])
        invariant
            a <= b <= v@.len(),
            forall|j: int| b <= j < v@.len() ==> is_space(v@[j]),
        decreases b,
    {
        b = b - 1;
    }
    proof {
        lemma_trim_front_exact(v@, a as int);
        let t = v@.subrange(a as int, v@.len() as int);
        lemma_trim_back_exact(t, b - a);
        assert(t.subrange(0, b - a) =~= v@.subrange(a as int, b as int));
    }
    subvec(v, a, b)
}

// ---------------------------------------------------------------------------
// Splitting on a separator
// ---------------------------------------------------------------------------

/// Whether the separator `sep` occurs in `s` starting at position `i`.
pub open spec fn match_at(s: Seq<char>, sep: Seq<char>, i: int) -> bool {
    0 <= i && i + sep.len() <= s.len() && s.subrange(i, i + sep.len() as int) == sep
}

/// The first position `j >= i` where `sep` occurs in `s`, or `s.len()` if
/// there is none.
pub open spec fn find_sep(s: Seq<char>, sep: Seq<char>, i: int) -> int
    decreases s.len() - i,
    when 0 <= i && sep.len() >= 1
{
    if i + sep.len() > s.len() {
        s.len() as int
    } else if match_at(s, sep, i) {
        i
    } else {
        find_sep(s, sep, i + 1)
    }
}

/// `find_sep` finds the first occurrence: nothing matches before it, and it
/// matches unless it is `s.len()`, in which case nothing matches at all.
pub proof fn lemma_find_sep(s: Seq<char>, sep: Seq<char>, i: int)
    requires
        0 <= i <= s.len(),
        sep.len() >= 1,
    ensures
        i <= find_sep(s, sep, i) <= s.len(),
        find_sep(s, sep, i) < s.len() ==> match_at(s, sep, find_sep(s, sep, i)),
        forall|j: int| i <= j < find_sep(s, sep, i) ==> !match_at(s, sep, j),
        find_sep(s, sep, i) == s.len() ==> forall|j: int| i <= j ==> !match_at(s, sep, j),
    decreases s.len() - i,
{
    if i + sep.len() > s.len() {
        assert(forall|j: int| i <= j ==> !match_at(s, sep, j));
    } else if match_at(s, sep, i) {
    } else {
        lemma_find_sep(s, sep, i + 1);
    }
}

/// If nothing matches before `k` and `sep` occurs at `k`, the search from
/// `i` stops exactly at `k`.
pub proof fn lemma_find_sep_at(s: Seq<char>, sep: Seq<char>, i: int, k: int)
    requires
        0 <= i <= k,
        sep.len() >= 1,
        forall|j: int| i <= j < k ==> !match_at(s, sep, j),
        match_at(s, sep, k),
    ensures
        find_sep(s, sep, i) == k,
    decreases k - i,
{
    if i < k {
        lemma_find_sep_at(s, sep, i + 1, k);
    }
}

/// If `sep` occurs nowhere at or after `i`, the search returns `s.len()`.
pub proof fn lemma_find_sep_none(s: Seq<char>, sep: Seq<char>, i: int)
    requires
        0 <= i <= s.len(),
        sep.len() >= 1,
        forall|j: int| i <= j ==> !match_at(s, sep, j),
    ensures
        find_sep(s, sep, i) == s.len(),
    decreases s.len() - i,
{
    if i + sep.len() <= s.len() {
        lemma_find_sep_none(s, sep, i + 1);
    }
}

/// The pieces of `s` between the non-overlapping occurrences of `sep`,
/// scanned from the left; always at least one piece, and the separator
/// itself appears in none of them.
pub open spec fn split_by(s: Seq<char>, sep: Seq<char>) -> Seq<Seq<char>>
    decreases s.len(),
    when sep.len() >= 1
    via split_by_decreases
{
    let j = find_sep(s, sep, 0);
    if j == s.len() {
        seq![s]
    } else {
        seq![s.subrange(0, j)] + split_by(s.subrange(j + sep.len(), s.len() as int), sep)
    }
}

#[via_fn]
proof fn split_by_decreases(s: Seq<char>, sep: Seq<char>) {
    if sep.len() >= 1 {
        lemma_find_sep(s, sep, 0);
    }
}

/// If `sep` occurs nowhere in `s`, the split is the single piece `s`.
pub proof fn lemma_split_by_whole(s: Seq<char>, sep: Seq<char>)
    requires
        sep.len() >= 1,
        forall|j: int| 0 <= j ==> !match_at(s, sep, j),
    ensures
        split_by(s, sep) == seq![s],
{
    lemma_find_sep_none(s, sep, 0);
}

/// An occurrence of `sep` in the suffix of `s` from `start` is an occurrence
/// in `s`, shifted.
pub proof fn lemma_match_at_shift(s: Seq<char>, sep: Seq<char>, start: int, k: int)
    requires
        0 <= start <= s.len(),
        0 <= k,
    ensures
        match_at(s.subrange(start, s.len() as int), sep, k) == match_at(s, sep, start + k),
{
    let t = s.subrange(start, s.len() as int);
    if k + sep.len() <= t.len() {
        assert(t.subrange(k, k + sep.len() as int) =~= s.subrange(
            start + k,
            start + k + sep.len() as int,
        ));
    }
}

/// Whether `sep` occurs in `s` at position `i`.
#[verifier::loop_isolation(false)]
pub fn is_match_at(s: &Vec<char>, sep: &Vec<char>, i: usize) -> (r: bool)
    requires
        i <= s@.len(),
        sep@.len() >= 1,
    ensures
        r == match_at(s@, sep@, i as int),
{
    if s.len() - i < sep.len() {
        return false;
    }
    let mut k: usize = 0;
    while k < sep.len()
        invariant
            i + sep@.len() <= s@.len(),
            k <= sep@.len(),
            forall|j: int| 0 <= j < k ==> s@[i + j] == sep@[j],
        decreases sep@.len() - k,
    {
        if s[i + k] != sep[k] {
            assert(s@.subrange(i as int, i + sep@.len() as int)[k as int] != sep@[k as int]);
            return false;
        }
        k = k + 1;
    }
    assert(s@.subrange(i as int, i + sep@.len() as int) =~= sep@);
    true
}

/// The pieces of `s` between the occurrences of `sep`, in order.
#[verifier::loop_isolation(false)]
pub fn split_on(s: &Vec<char>, sep: &Vec<char>) -> (r: Vec<Vec<char>>)
    requires
        sep@.len() >= 1,
    ensures
        r.deep_view() == split_by(s@, sep@),
        r@.len() >= 1,
{
    let ghost whole = split_by(s@, sep@);
    let mut r: Vec<Vec<char>> = Vec::new();
    proof {
        assert(s@.subrange(0, s@.len() as int) =~= s@);
        assert(r.deep_view() + split_by(s@, sep@) =~~= split_by(s@, sep@));
    }
    let mut start: usize = 0;
    let mut i: usize = 0;
    while s.len() - i >= sep.len()
        invariant
            sep@.len() >= 1,
            start <= i <= s@.len(),
            whole == split_by(s@, sep@),
            whole == r.deep_view() + split_by(s@.subrange(start as int, s@.len() as int), sep@),
            forall|j: int| start <= j < i ==> !match_at(s@, sep@, j),
        decreases s@.len() - i,
    {
        if is_match_at(s, sep, i) {
            let piece = subvec(s, start, i);
            proof {
                let t = s@.subrange(start as int, s@.len() as int);
                assert forall|j: int| 0 <= j < i - start implies !match_at(t, sep@, j) by {
                    lemma_match_at_shift(s@, sep@, start as int, j);
                }
                lemma_match_at_shift(s@, sep@, start as int, i - start);
                lemma_find_sep_at(t, sep@, 0, i - start);
                assert(t.subrange(0, i - start) =~= s@.subrange(start as int, i as int));
                assert(t.subrange(i - start + sep@.len() as int, t.len() as int) =~= s@.subrange(
                    i + sep@.len() as int,
                    s@.len() as int,
                ));
            }
            let ghost old_r = r.deep_view();
            r.push(piece);
            proof {
                assert(r.deep_view() =~~= old_r + seq![s@.subrange(start as int, i as int)]);
            }
            start = i + sep.len();
            i = start;
        } else {
            i = i + 1;
        }
    }
    proof {
        let t = s@.subrange(start as int, s@.len() as int);
        assert forall|j: int| 0 <= j implies !match_at(t, sep@, j) by {
            lemma_match_at_shift(s@, sep@, start as int, j);
            if start + j < i {
            } else {
            }
        }
        lemma_split_by_whole(t, sep@);
    }
    let ghost old_r = r.deep_view();
    let last = subvec(s, start, s.len());
    r.push(last);
    proof {
        assert(r.deep_view() =~~= old_r + seq![s@.subrange(start as int, s@.len() as int)]);
        assert(r.deep_view() =~~= whole);
    }
    r
}

// ---------------------------------------------------------------------------
// Decimal numbers
// ---------------------------------------------------------------------------

/// Whether `c` is a decimal digit.
pub open spec fn is_digit(c: char) -> bool {
    c == '0' || c == '1' || c == '2' || c == '3' || c == '4' || c == '5' || c == '6' || c == '7'
        || c == '8' || c == '9'
}

/// The numeric value of a decimal digit; zero for any other character.
pub open spec fn digit_val(c: char) -> nat {
    if c == '1' { 1 }
    else if c == '2' { 2 }
    else if c == '3' { 3 }
    else if c == '4' { 4 }
    else if c == '5' { 5 }
    else if c == '6' { 6 }
    else if c == '7' { 7 }
    else if c == '8' { 8 }
    else if c == '9' { 9 }
    else { 0 }
}

/// Whether every character of `s` is a decimal digit.
pub open spec fn all_digits(s: Seq<char>) -> bool {
    forall|j: int| 0 <= j < s.len() ==> is_digit(s[j])
}

/// The value of `s` read as a decimal numeral.
pub open spec fn dec_value(s: Seq<char>) -> nat
    decreases s.len(),
{
    if s.len() == 0 {
        0
    } else {
        dec_value(s.subrange(0, s.len() - 1)) * 10 + digit_val(s[s.len() - 1])
    }
}

/// Whether `s` is a decimal numeral whose value fits in `usize`.
pub open spec fn dec_parses(s: Seq<char>) -> bool {
    s.len() > 0 && all_digits(s) && dec_value(s) <= usize::MAX
}

/// The value of a prefix never exceeds the value of the whole numeral.
pub proof fn lemma_dec_value_prefix(s: Seq<char>, i: int)
    requires
        0 <= i <= s.len(),
    ensures
        dec_value(s.subrange(0, i)) <= dec_value(s),
    decreases s.len() - i,
{
    if i == s.len() {
        assert(s.subrange(0, i) =~= s);
    } else {
        lemma_dec_value_prefix(s, i + 1);
        let p = s.subrange(0, i + 1);
        assert(p.subrange(0, p.len() - 1) =~= s.subrange(0, i));
        assert(dec_value(p) == dec_value(s.subrange(0, i)) * 10 + digit_val(s[i]));
    }
}

/// The numeric value of a digit.
fn digit_of(c: char) -> (r: Option<usize>)
    ensures
        r is Some <==> is_digit(c),
        r is Some ==> r->0 == digit_val(c),
{
    if c == '0' { Some(0) }
    else if c == '1' { Some(1) }
    else if c == '2' { Some(2) }
    else if c == '3' { Some(3) }
    else if c == '4' { Some(4) }
    else if c == '5' { Some(5) }
    else if c == '6' { Some(6) }
    else if c == '7' { Some(7) }
    else if c == '8' { Some(8) }
    else if c == '9' { Some(9) }
    else { None }
}

/// Reads `v` as a decimal numeral: `Some` exactly when `v` is non-empty,
/// all digits, and its value fits in `usize`.
pub fn parse_dec(v: &Vec<char>) -> (r: Option<usize>)
    ensures
        r is Some <==> dec_parses(v@),
        r is Some ==> r->0 == dec_value(v@),
{
    if v.len() == 0 {
        return None;
    }
    let mut value: usize = 0;
    let mut i: usize = 0;
    while i < v.len()
        invariant
            i <= v@.len(),
            v@.len() > 0,
            forall|j: int| 0 <= j < i ==> is_digit(v@[j]),
            value == dec_value(v@.subrange(0, i as int)),
        decreases v@.len() - i,
    {
        let ghost prefix = v@.subrange(0, i as int);
        match digit_of(v[i]) {
            None => {
                return None;
            },
            Some(d) => {
                proof {
                    let p1 = v@.subrange(0, i + 1);
                    assert(p1.subrange(0, p1.len() - 1) =~= prefix);
                    assert(dec_value(p1) == dec_value(prefix) * 10 + digit_val(v@[i as int]));
                }
                match value.checked_mul(10) {
                    None => {
                        proof {
                            if all_digits(v@) {
                                lemma_dec_value_prefix(v@, i + 1);
                            }
                        }
                        return None;
                    },
                    Some(v10) => {
                        match v10.checked_add(d) {
                            None => {
                                proof {
                                    if all_digits(v@) {
                                        lemma_dec_value_prefix(v@, i + 1);
                                    }
                                }
                                return None;
                            },
                            Some(next) => {
                                value = next;
                            },
                        }
                    },
                }
            },
        }
        i = i + 1;
    }
    proof {
        assert(v@.subrange(0, v@.len() as int) =~= v@);
    }
    Some(value)
}

} // verus!
