//! Character-level text helpers: conversions between `str`/`String` and
//! character vectors, substring search, trimming, decimal numbers and joins.
use vstd::prelude::*;

verus! {

// ---------------------------------------------------------------------------
// Conversions
// ---------------------------------------------------------------------------

/// `String::push`: appends one character.
#[verifier::external_body]
fn push_char(s: &mut String, c: char)
    ensures
        final(s)@ == old(s)@.push(c),
{
    s.push(c)
}

/// The characters of `s`, in order.
pub fn chars_of(s: &str) -> (v: Vec<char>)
    ensures
        v@ == s@,
{
    let n = s.unicode_len();
    let mut v: Vec<char> = Vec::new();
    let mut i: usize = 0;
    while i < n
        invariant
            n == s@.len(),
            i <= n,
            v@ == s@.subrange(0, i as int),
        decreases n - i,
    {
        let c = s.get_char(i);
        v.push(c);
        i = i + 1;
        assert(v@ =~= s@.subrange(0, i as int));
    }
    assert(v@ =~= s@);
    v
}

/// A `String` holding exactly the characters of `v`.
pub fn string_of(v: &Vec<char>) -> (s: String)
    ensures
        s@ == v@,
{
    let mut s = String::new();
    let mut i: usize = 0;
    while i < v.len()
        invariant
            i <= v.len(),
            s@ == v@.subrange(0, i as int),
        decreases v.len() - i,
    {
        push_char(&mut s, v[i]);
        i = i + 1;
        assert(s@ =~= v@.subrange(0, i as int));
    }
    assert(s@ =~= v@);
    s
}

/// Appends all characters of `tail` to `v`.
pub fn extend_chars(v: &mut Vec<char>, tail: &Vec<char>)
    ensures
        final(v)@ == old(v)@ + tail@,
{
    let ghost start = v@;
    let mut i: usize = 0;
    while i < tail.len()
        invariant
            i <= tail.len(),
            v@ == start + tail@.subrange(0, i as int),
        decreases tail.len() - i,
    {
        v.push(tail[i]);
        i = i + 1;
        assert(v@ =~= start + tail@.subrange(0, i as int));
    }
    assert(tail@.subrange(0, tail@.len() as int) =~= tail@);
}

/// Appends the characters of a string slice to `v`.
pub fn extend_str(v: &mut Vec<char>, tail: &str)
    ensures
        final(v)@ == old(v)@ + tail@,
{
    let t = chars_of(tail);
    extend_chars(v, &t);
}

/// The views of a sequence of strings.
pub open spec fn strings_view(v: Seq<String>) -> Seq<Seq<char>> {
    v.map_values(|s: String| s@)
}

// ---------------------------------------------------------------------------
// Whitespace and trimming
// ---------------------------------------------------------------------------

/// The Unicode `White_Space` property, which `char::is_whitespace` tests.
pub open spec fn is_white_space(c: char) -> bool {
    let u = c as u32;
    ||| 0x9 <= u <= 0xd
    ||| u == 0x20
    ||| u == 0x85
    ||| u == 0xa0
    ||| u == 0x1680
    ||| 0x2000 <= u <= 0x200a
    ||| u == 0x2028
    ||| u == 0x2029
    ||| u == 0x202f
    ||| u == 0x205f
    ||| u == 0x3000
}

pub fn is_whitespace(c: char) -> (b: bool)
    ensures
        b == is_white_space(c),
{
    let u = c as u32;
    (0x9 <= u && u <= 0xd) || u == 0x20 || u == 0x85 || u == 0xa0 || u == 0x1680 || (0x2000 <= u
        && u <= 0x200a) || u == 0x2028 || u == 0x2029 || u == 0x202f || u == 0x205f || u == 0x3000
}

/// `s` without its leading whitespace.
pub open spec fn trim_start(s: Seq<char>) -> Seq<char>
    decreases s.len(),
{
    if s.len() > 0 && is_white_space(s[0]) {
        trim_start(s.drop_first())
    } else {
        s
    }
}

/// `s` without its trailing whitespace.
pub open spec fn trim_end(s: Seq<char>) -> Seq<char>
    decreases s.len(),
{
    if s.len() > 0 && is_white_space(s.last()) {
        trim_end(s.drop_last())
    } else {
        s
    }
}

/// `s` without leading and trailing whitespace, as `str::trim` gives it.
pub open spec fn trim(s: Seq<char>) -> Seq<char> {
    trim_end(trim_start(s))
}

proof fn lemma_trim_start_at(s: Seq<char>, k: int, i: int)
    requires
        0 <= k <= i <= s.len(),
        forall|j: int| k <= j < i ==> is_white_space(#[trigger] s[j]),
        i == s.len() || !is_white_space(s[i]),
    ensures
        trim_start(s.subrange(k, s.len() as int)) == s.subrange(i, s.len() as int),
    decreases i - k,
{
    let t = s.subrange(k, s.len() as int);
    if k < i {
        assert(t.drop_first() =~= s.subrange(k + 1, s.len() as int));
        lemma_trim_start_at(s, k + 1, i);
    } else {
        if t.len() > 0 {
            assert(t[0] == s[i]);
        }
    }
}

proof fn lemma_trim_end_at(s: Seq<char>, k: int, j: int)
    requires
        0 <= j <= k <= s.len(),
        forall|m: int| j <= m < k ==> is_white_space(#[trigger] s[m]),
        j == 0 || !is_white_space(s[j - 1]),
    ensures
        trim_end(s.subrange(0, k)) == s.subrange(0, j),
    decreases k - j,
{
    let t = s.subrange(0, k);
    if j < k {
        assert(t.drop_last() =~= s.subrange(0, k - 1));
        assert(t.last() == s[k - 1]);
        lemma_trim_end_at(s, k - 1, j);
    } else {
        if t.len() > 0 {
            assert(t.last() == s[j - 1]);
        }
    }
}

proof fn lemma_trim_start_shape(s: Seq<char>)
    ensures
        trim_start(s).len() > 0 ==> !is_white_space(trim_start(s)[0]),
    decreases s.len(),
{
    if s.len() > 0 && is_white_space(s[0]) {
        lemma_trim_start_shape(s.drop_first());
    }
}

proof fn lemma_trim_end_shape(s: Seq<char>)
    ensures
        trim_end(s).len() <= s.len(),
        trim_end(s) == s.subrange(0, trim_end(s).len() as int),
        trim_end(s).len() > 0 ==> !is_white_space(trim_end(s).last()),
    decreases s.len(),
{
    if s.len() > 0 && is_white_space(s.last()) {
        lemma_trim_end_shape(s.drop_last());
        let t = trim_end(s.drop_last());
        assert(s.drop_last().subrange(0, t.len() as int) =~= s.subrange(0, t.len() as int));
    } else {
        assert(s.subrange(0, s.len() as int) =~= s);
    }
}

/// Trimming twice is trimming once: what `str::trim` gives has no
/// surrounding whitespace.
pub proof fn lemma_trim_idempotent(s: Seq<char>)
    ensures
        trim(trim(s)) == trim(s),
{
    let y = trim_start(s);
    let t = trim_end(y);
    lemma_trim_start_shape(s);
    lemma_trim_end_shape(y);
    if t.len() > 0 {
        assert(t[0] == y[0]);
        assert(trim_start(t) == t);
        assert(trim_end(t) == t);
    } else {
        assert(trim_start(t) == t);
        assert(trim_end(t) == t);
    }
}

/// `str::trim` on a character vector.
pub fn trim_chars(s: &Vec<char>) -> (r: Vec<char>)
    ensures
        r@ == trim(s@),
{
    let n = s.len();
    let mut a: usize = 0;
    while a < n && is_whitespace(s[a])
        invariant
            n == s@.len(),
            a <= n,
            forall|j: int| 0 <= j < a ==> is_white_space(#[trigger] s@[j]),
        decreases n - a,
    {
        a = a + 1;
    }
    let mut b: usize = n;
    while b > a && is_whitespace(s[b - 1])
        invariant
            n == s@.len(),
            a <= b <= n,
            forall|j: int| b <= j < n ==> is_white_space(#[trigger] s@[j]),
        decreases b - a,
    {
        b = b - 1;
    }
    let mut r: Vec<char> = Vec::new();
    let mut i: usize = a;
    while i < b
        invariant
            a <= i <= b <= n,
            n == s@.len(),
            r@ == s@.subrange(a as int, i as int),
        decreases b - i,
    {
        r.push(s[i]);
        i = i + 1;
        assert(r@ =~= s@.subrange(a as int, i as int));
    }
    proof {
        lemma_trim_start_at(s@, 0, a as int);
        assert(s@.subrange(0, n as int) =~= s@);
        let u = s@.subrange(a as int, n as int);
        assert forall|m: int| b - a <= m < u.len() implies is_white_space(#[trigger] u[m]) by {
            assert(u[m] == s@[a + m]);
        }
        if b > a {
            assert(u[b - a - 1] == s@[b as int - 1]);
        }
        lemma_trim_end_at(u, u.len() as int, b - a);
        assert(u.subrange(0, u.len() as int) =~= u);
        assert(u.subrange(0, b - a) =~= s@.subrange(a as int, b as int));
    }
    r
}

/// `str::trim` on a string slice, as a character vector.
pub fn trim_str(s: &str) -> (r: Vec<char>)
    ensures
        r@ == trim(s@),
{
    let v = chars_of(s);
    trim_chars(&v)
}

/// Whether `str::trim` leaves nothing: every character is whitespace.
pub open spec fn is_blank(s: Seq<char>) -> bool {
    trim(s).len() == 0
}

// ---------------------------------------------------------------------------
// Substring search
// ---------------------------------------------------------------------------

/// `pat` occurs in `s` starting at index `i`.
pub open spec fn occurs_at(s: Seq<char>, pat: Seq<char>, i: int) -> bool {
    0 <= i && i + pat.len() <= s.len() && s.subrange(i, i + pat.len()) == pat
}

/// The first index at or after `k` where `pat` occurs in `s`.
pub open spec fn find_from(s: Seq<char>, pat: Seq<char>, k: int) -> Option<int>
    decreases s.len() + 1 - k,
{
    if k < 0 || k + pat.len() > s.len() {
        None
    } else if occurs_at(s, pat, k) {
        Some(k)
    } else {
        find_from(s, pat, k + 1)
    }
}

/// The first index where `pat` occurs in `s`, as `str::find` gives it.
pub open spec fn find(s: Seq<char>, pat: Seq<char>) -> Option<int> {
    find_from(s, pat, 0)
}

/// `str::contains`.
pub open spec fn contains(s: Seq<char>, pat: Seq<char>) -> bool {
    find(s, pat) is Some
}

proof fn lemma_find_from_occurs(s: Seq<char>, pat: Seq<char>, k: int)
    requires
        k >= 0,
    ensures
        find_from(s, pat, k) matches Some(i) ==> k <= i && occurs_at(s, pat, i) && forall|j: int|
            k <= j < i ==> !occurs_at(s, pat, j),
        find_from(s, pat, k) is None ==> forall|j: int| k <= j ==> !occurs_at(s, pat, j),
    decreases s.len() + 1 - k,
{
    if k + pat.len() > s.len() {
    } else if occurs_at(s, pat, k) {
    } else {
        lemma_find_from_occurs(s, pat, k + 1);
    }
}

/// The first occurrence of `pat` in `s`, and nothing before it.
pub proof fn lemma_find(s: Seq<char>, pat: Seq<char>)
    ensures
        find(s, pat) matches Some(i) ==> occurs_at(s, pat, i) && forall|j: int|
            0 <= j < i ==> !occurs_at(s, pat, j),
        find(s, pat) is None ==> forall|j: int| !occurs_at(s, pat, j),
{
    lemma_find_from_occurs(s, pat, 0);
}

fn occurs_at_exec(s: &Vec<char>, pat: &Vec<char>, i: usize) -> (b: bool)
    requires
        i + pat.len() <= s.len(),
    ensures
        b == occurs_at(s@, pat@, i as int),
{
    let mut j: usize = 0;
    while j < pat.len()
        invariant
            i + pat.len() <= s.len(),
            j <= pat@.len(),
            forall|m: int| 0 <= m < j ==> s@[i + m] == pat@[m],
        decreases pat@.len() - j,
    {
        if s[i + j] != pat[j] {
            assert(s@.subrange(i as int, i + pat@.len())[j as int] != pat@[j as int]);
            return false;
        }
        j = j + 1;
    }
    assert(s@.subrange(i as int, i + pat@.len()) =~= pat@);
    true
}

/// `str::find` on character vectors: the first index where `pat` occurs.
pub fn find_chars(s: &Vec<char>, pat: &Vec<char>) -> (r: Option<usize>)
    ensures
        r matches Some(i) ==> find(s@, pat@) == Some(i as int),
        r is None ==> find(s@, pat@) is None,
{
    if pat.len() > s.len() {
        return None;
    }
    let last = s.len() - pat.len();
    let mut k: usize = 0;
    loop
        invariant
            last + pat.len() == s.len(),
            k <= last,
            find(s@, pat@) == find_from(s@, pat@, k as int),
        decreases last - k,
    {
        if occurs_at_exec(s, pat, k) {
            return Some(k);
        }
        if k == last {
            return None;
        }
        k = k + 1;
    }
}

/// `str::contains` on character vectors.
pub fn contains_chars(s: &Vec<char>, pat: &Vec<char>) -> (b: bool)
    ensures
        b == contains(s@, pat@),
{
    find_chars(s, pat).is_some()
}

/// `str::contains` with a string-slice pattern.
pub fn contains_str(s: &Vec<char>, pat: &str) -> (b: bool)
    ensures
        b == contains(s@, pat@),
{
    let p = chars_of(pat);
    contains_chars(s, &p)
}

/// `str::find` with a string-slice pattern.
pub fn find_str(s: &Vec<char>, pat: &str) -> (r: Option<usize>)
    ensures
        r matches Some(i) ==> find(s@, pat@) == Some(i as int),
        r is None ==> find(s@, pat@) is None,
{
    let p = chars_of(pat);
    find_chars(s, &p)
}

/// Whether `v` holds exactly the characters of `s`.
pub fn chars_eq_str(v: &Vec<char>, s: &str) -> (b: bool)
    ensures
        b == (v@ == s@),
{
    let t = chars_of(s);
    if v.len() != t.len() {
        assert(v@.len() != t@.len());
        return false;
    }
    let mut i: usize = 0;
    while i < v.len()
        invariant
            v@.len() == t@.len(),
            t@ == s@,
            i <= v@.len(),
            forall|k: int| 0 <= k < i ==> v@[k] == t@[k],
        decreases v@.len() - i,
    {
        if v[i] != t[i] {
            assert(v@[i as int] != t@[i as int]);
            return false;
        }
        i = i + 1;
    }
    assert(v@ =~= t@);
    true
}

/// The characters of `s` from index `start` on.
pub fn suffix_from(s: &Vec<char>, start: usize) -> (r: Vec<char>)
    requires
        start <= s@.len(),
    ensures
        r@ == s@.subrange(start as int, s@.len() as int),
{
    slice_chars(s, start, s.len())
}

/// The characters of `s` in `[start, end)`.
pub fn slice_chars(s: &Vec<char>, start: usize, end: usize) -> (r: Vec<char>)
    requires
        start <= end <= s@.len(),
    ensures
        r@ == s@.subrange(start as int, end as int),
{
    let mut r: Vec<char> = Vec::new();
    let mut i: usize = start;
    while i < end
        invariant
            start <= i <= end <= s@.len(),
            r@ == s@.subrange(start as int, i as int),
        decreases end - i,
    {
        r.push(s[i]);
        i = i + 1;
        assert(r@ =~= s@.subrange(start as int, i as int));
    }
    r
}

// ---------------------------------------------------------------------------
// Decimal numbers
// ---------------------------------------------------------------------------

/// The ASCII digit for `d` (which is below ten).
pub open spec fn digit_char(d: nat) -> char {
    if d == 0 {
        '0'
    } else if d == 1 {
        '1'
    } else if d == 2 {
        '2'
    } else if d == 3 {
        '3'
    } else if d == 4 {
        '4'
    } else if d == 5 {
        '5'
    } else if d == 6 {
        '6'
    } else if d == 7 {
        '7'
    } else if d == 8 {
        '8'
    } else {
        '9'
    }
}

/// The decimal representation of `n`, without leading zeros.
pub open spec fn decimal(n: nat) -> Seq<char>
    decreases n,
{
    if n < 10 {
        seq![digit_char(n)]
    } else {
        decimal(n / 10).push(digit_char(n % 10))
    }
}

fn digit_exec(d: u64) -> (c: char)
    requires
        d < 10,
    ensures
        c == digit_char(d as nat),
{
    if d == 0 {
        '0'
    } else if d == 1 {
        '1'
    } else if d == 2 {
        '2'
    } else if d == 3 {
        '3'
    } else if d == 4 {
        '4'
    } else if d == 5 {
        '5'
    } else if d == 6 {
        '6'
    } else if d == 7 {
        '7'
    } else if d == 8 {
        '8'
    } else {
        '9'
    }
}

/// The decimal digits of `n`, as `Display` prints an unsigned integer.
pub fn decimal_chars(n: u64) -> (r: Vec<char>)
    ensures
        r@ == decimal(n as nat),
    decreases n,
{
    if n < 10 {
        let mut r: Vec<char> = Vec::new();
        r.push(digit_exec(n));
        assert(r@ =~= seq![digit_char(n as nat)]);
        r
    } else {
        let mut r = decimal_chars(n / 10);
        r.push(digit_exec(n % 10));
        r
    }
}

/// An ASCII decimal digit.
pub open spec fn is_digit(c: char) -> bool {
    0x30 <= (c as u32) <= 0x39
}

/// The value of a digit character.
pub open spec fn digit_value(c: char) -> nat {
    ((c as u32) - 0x30) as nat
}

/// The number that a run of decimal digits denotes.
pub open spec fn digits_value(s: Seq<char>) -> nat
    decreases s.len(),
{
    if s.len() == 0 {
        0
    } else {
        digits_value(s.drop_last()) * 10 + digit_value(s.last())
    }
}

/// `s` is a non-empty run of ASCII digits.
pub open spec fn all_digits(s: Seq<char>) -> bool {
    s.len() > 0 && forall|i: int| 0 <= i < s.len() ==> is_digit(#[trigger] s[i])
}

/// What `str::parse` gives for an unsigned integer type whose maximum is
/// `max`, on text without a sign: the value when `s` is a non-empty run of
/// digits that fits, and nothing otherwise.
pub open spec fn parse_digits(s: Seq<char>, max: nat) -> Option<nat> {
    if all_digits(s) && digits_value(s) <= max {
        Some(digits_value(s))
    } else {
        None
    }
}

/// What `u64::from_str` gives: one optional `+`, then the digits.
pub open spec fn parse_u64_text(s: Seq<char>) -> Option<nat> {
    if s.len() > 0 && s[0] == '+' {
        parse_digits(s.drop_first(), u64::MAX as nat)
    } else {
        parse_digits(s, u64::MAX as nat)
    }
}

proof fn lemma_digits_value_monotone(s: Seq<char>, k: int, m: int)
    requires
        0 <= k <= m <= s.len(),
    ensures
        digits_value(s.subrange(0, k)) <= digits_value(s.subrange(0, m)),
    decreases m - k,
{
    if k < m {
        lemma_digits_value_monotone(s, k, m - 1);
        assert(s.subrange(0, m).drop_last() =~= s.subrange(0, m - 1));
    }
}

/// Parses the digits of `s` in `[start, s.len())` as an unsigned number no
/// larger than `max`.
pub fn parse_digits_chars(s: &Vec<char>, start: usize, max: u64) -> (r: Option<u64>)
    requires
        start <= s@.len(),
    ensures
        r matches Some(v) ==> parse_digits(s@.subrange(start as int, s@.len() as int), max as nat)
            == Some(v as nat),
        r is None ==> parse_digits(s@.subrange(start as int, s@.len() as int), max as nat) is None,
{
    let ghost t = s@.subrange(start as int, s@.len() as int);
    if start == s.len() {
        return None;
    }
    let mut value: u64 = 0;
    let mut i: usize = start;
    while i < s.len()
        invariant
            start <= i <= s@.len(),
            t == s@.subrange(start as int, s@.len() as int),
            value as nat == digits_value(t.subrange(0, i - start)),
            value <= max,
            t.len() > 0,
            forall|j: int| 0 <= j < i - start ==> is_digit(#[trigger] t[j]),
        decreases s@.len() - i,
    {
        let c = s[i];
        #[verifier::truncate]
        let u = c as u32;
        proof {
            assert(t[i - start] == c);
            assert(t.subrange(0, i - start + 1).drop_last() =~= t.subrange(0, i - start));
        }
        if u < 0x30 || u > 0x39 {
            assert(!is_digit(t[i - start]));
            return None;
        }
        let d = (u - 0x30) as u64;
        if value > max / 10 || (value == max / 10 && d > max % 10) {
            proof {
                assert(digits_value(t.subrange(0, i - start + 1)) == value * 10 + d);
                assert(value * 10 + d > max) by (nonlinear_arith)
                    requires
                        value > max / 10 || (value == max / 10 && d > max % 10),
                        max == (max / 10) * 10 + max % 10,
                ;
                lemma_digits_value_monotone(t, i - start + 1, t.len() as int);
                assert(t.subrange(0, t.len() as int) =~= t);
            }
            return None;
        }
        proof {
            assert(value * 10 + d <= max) by (nonlinear_arith)
                requires
                    value <= max / 10,
                    value < max / 10 || d <= max % 10,
                    max == (max / 10) * 10 + max % 10,
                    d < 10,
            ;
        }
        value = value * 10 + d;
        i = i + 1;
    }
    proof {
        assert(t.subrange(0, t.len() as int) =~= t);
    }
    Some(value)
}

/// `u64::from_str` on a character vector.
pub fn parse_u64_chars(s: &Vec<char>) -> (r: Option<u64>)
    ensures
        r matches Some(v) ==> parse_u64_text(s@) == Some(v as nat),
        r is None ==> parse_u64_text(s@) is None,
{
    if s.len() > 0 && s[0] == '+' {
        assert(s@.subrange(1, s@.len() as int) =~= s@.drop_first());
        parse_digits_chars(s, 1, u64::MAX)
    } else {
        assert(s@.subrange(0, s@.len() as int) =~= s@);
        parse_digits_chars(s, 0, u64::MAX)
    }
}

/// The leading run of ASCII digits of `s`, as `take_while(is_ascii_digit)`
/// collects it.
pub open spec fn leading_digits(s: Seq<char>) -> Seq<char>
    decreases s.len(),
{
    if s.len() > 0 && is_digit(s[0]) {
        seq![s[0]] + leading_digits(s.drop_first())
    } else {
        Seq::empty()
    }
}

proof fn lemma_leading_digits_at(s: Seq<char>, k: int, i: int)
    requires
        0 <= k <= i <= s.len(),
        forall|j: int| k <= j < i ==> is_digit(#[trigger] s[j]),
        i == s.len() || !is_digit(s[i]),
    ensures
        leading_digits(s.subrange(k, s.len() as int)) == s.subrange(k, i),
    decreases i - k,
{
    let t = s.subrange(k, s.len() as int);
    if k < i {
        assert(t.drop_first() =~= s.subrange(k + 1, s.len() as int));
        lemma_leading_digits_at(s, k + 1, i);
        assert(seq![t[0]] + s.subrange(k + 1, i) =~= s.subrange(k, i));
    } else {
        if t.len() > 0 {
            assert(t[0] == s[i]);
        }
        assert(s.subrange(k, i) =~= Seq::<char>::empty());
    }
}

/// The leading digits of `s` from index `start` on.
pub fn leading_digits_from(s: &Vec<char>, start: usize) -> (r: Vec<char>)
    requires
        start <= s@.len(),
    ensures
        r@ == leading_digits(s@.subrange(start as int, s@.len() as int)),
{
    let mut i: usize = start;
    while i < s.len() && (s[i] as u32) >= 0x30 && (s[i] as u32) <= 0x39
        invariant
            start <= i <= s@.len(),
            forall|j: int| start <= j < i ==> is_digit(#[trigger] s@[j]),
        decreases s@.len() - i,
    {
        i = i + 1;
    }
    proof {
        lemma_leading_digits_at(s@, start as int, i as int);
    }
    slice_chars(s, start, i)
}

// ---------------------------------------------------------------------------
// Joining
// ---------------------------------------------------------------------------

/// The items of `list` separated by `sep`, as `[String]::join` gives them.
pub open spec fn join(list: Seq<Seq<char>>, sep: Seq<char>) -> Seq<char>
    decreases list.len(),
{
    if list.len() == 0 {
        Seq::empty()
    } else if list.len() == 1 {
        list[0]
    } else {
        join(list.drop_last(), sep) + sep + list.last()
    }
}

/// `[String]::join`.
pub fn join_strings(list: &Vec<String>, sep: &str) -> (r: Vec<char>)
    ensures
        r@ == join(strings_view(list@), sep@),
{
    let ghost items = strings_view(list@);
    let mut r: Vec<char> = Vec::new();
    let mut i: usize = 0;
    while i < list.len()
        invariant
            i <= list@.len(),
            items == strings_view(list@),
            r@ == join(items.subrange(0, i as int), sep@),
        decreases list@.len() - i,
    {
        proof {
            assert(items.subrange(0, i + 1).drop_last() =~= items.subrange(0, i as int));
        }
        if i > 0 {
            extend_str(&mut r, sep);
        }
        extend_str(&mut r, list[i].as_str());
        proof {
            if i == 0 {
                assert(r@ =~= items.subrange(0, 1)[0]);
            }
        }
        i = i + 1;
    }
    proof {
        assert(items.subrange(0, list@.len() as int) =~= items);
    }
    r
}

/// Concatenation of several character runs.
pub open spec fn concat(parts: Seq<Seq<char>>) -> Seq<char>
    decreases parts.len(),
{
    if parts.len() == 0 {
        Seq::empty()
    } else {
        concat(parts.drop_last()) + parts.last()
    }
}

} // verus!

verus! {

proof fn lemma_digit_char_roundtrip(d: nat)
    requires
        d < 10,
    ensures
        is_digit(digit_char(d)),
        digit_value(digit_char(d)) == d,
        !is_white_space(digit_char(d)),
        digit_char(d) != '+',
{
}

proof fn lemma_decimal_digits(n: nat)
    ensures
        all_digits(decimal(n)),
        digits_value(decimal(n)) == n,
        forall|i: int| 0 <= i < decimal(n).len() ==> !is_white_space(#[trigger] decimal(n)[i]),
        decimal(n)[0] != '+',
    decreases n,
{
    if n < 10 {
        lemma_digit_char_roundtrip(n);
        assert(decimal(n).drop_last() =~= Seq::<char>::empty());
        assert(digits_value(decimal(n)) == digits_value(Seq::<char>::empty()) * 10 + digit_value(
            decimal(n).last(),
        ));
    } else {
        lemma_decimal_digits(n / 10);
        assert((n / 10) * 10 + n % 10 == n) by (nonlinear_arith);
        lemma_digit_char_roundtrip(n % 10);
        let s = decimal(n);
        assert(s.drop_last() =~= decimal(n / 10));
        assert(s.last() == digit_char(n % 10));
        assert(digits_value(s) == digits_value(decimal(n / 10)) * 10 + digit_value(s.last()));
        assert forall|i: int| 0 <= i < s.len() implies is_digit(#[trigger] s[i]) && !is_white_space(
            s[i],
        ) by {
            if i < s.len() - 1 {
                assert(s[i] == decimal(n / 10)[i]);
            }
        }
        assert(s[0] == decimal(n / 10)[0]);
    }
}

/// A number written in decimal reads back as itself, even through the
/// trimming the setup form applies.
pub proof fn lemma_decimal_parses_back(n: u64)
    ensures
        trim(decimal(n as nat)) == decimal(n as nat),
        parse_u64_text(trim(decimal(n as nat))) == Some(n as nat),
{
    let s = decimal(n as nat);
    lemma_decimal_digits(n as nat);
    assert(s.len() > 0);
    assert(!is_white_space(s[0]));
    assert(!is_white_space(s.last()));
    assert(trim_start(s) == s);
    assert(trim_end(s) == s);
}

} // verus!
