//! Character-level text operations on which the iCalendar, vCard and
//! WebDAV code is built: searching, trimming, line splitting, removal of a
//! pattern, and decimal numbers.  Strings are modelled by their `Seq<char>`
//! views; the executable code works on `Vec<char>` copies.
use vstd::prelude::*;
use vstd::string::*;

verus! {

broadcast use vstd::string::group_string_axioms;

// ---------------------------------------------------------------------------
// Conversions between strings and character vectors
// ---------------------------------------------------------------------------

/// The characters of a string slice, in order.
pub fn chars_of(s: &str) -> (v: Vec<char>)
    ensures
        v@ == s@,
{
    let mut v: Vec<char> = Vec::new();
    for c in iter: s.chars()
        invariant
            v@ == iter.seq().take(iter.index() as int),
    {
        v.push(c);
    }
    v
}

/// Appends one character to a string (`String::push`).
#[verifier::external_body]
pub(crate) fn push_char(s: &mut String, c: char)
    ensures
        final(s)@ == old(s)@.push(c),
{
    s.push(c);
}

/// The string made of the characters `v[from..to]`.
pub fn string_of(v: &Vec<char>, from: usize, to: usize) -> (s: String)
    requires
        from <= to <= v@.len(),
    ensures
        s@ == v@.subrange(from as int, to as int),
{
    let mut s = String::new();
    let mut i = from;
    while i < to
        invariant
            from <= i <= to <= v@.len(),
            s@ == v@.subrange(from as int, i as int),
        decreases to - i,
    {
        push_char(&mut s, v[i]);
        assert(v@.subrange(from as int, i + 1) =~= v@.subrange(from as int, i as int).push(v@[i as int]));
        i = i + 1;
    }
    s
}

/// A string holding the text of a literal.
pub fn lit(s: &str) -> (r: String)
    ensures
        r@ == s@,
{
    String::from_str(s)
}

/// Whether two strings hold the same characters.
pub fn same_text(a: &str, b: &str) -> (r: bool)
    ensures
        r == (a@ == b@),
{
    let x = String::from_str(a);
    let y = String::from_str(b);
    x == y
}

/// The concatenation of two strings.
pub fn concat2(a: &str, b: &str) -> (r: String)
    ensures
        r@ == a@ + b@,
{
    let mut r = String::from_str(a);
    r.append(b);
    r
}

/// The concatenation of three strings.
pub fn concat3(a: &str, b: &str, c: &str) -> (r: String)
    ensures
        r@ == a@ + b@ + c@,
{
    let mut r = String::from_str(a);
    r.append(b);
    r.append(c);
    r
}

// ---------------------------------------------------------------------------
// White space and trimming (`char::is_whitespace`, `str::trim`)
// ---------------------------------------------------------------------------

/// The characters with the Unicode property White_Space, which is what
/// `char::is_whitespace` tests.
pub open spec fn is_white_space(c: char) -> bool {
    ||| ('\u{9}' <= c && c <= '\u{d}')
    ||| c == ' '
    ||| c == '\u{85}'
    ||| c == '\u{a0}'
    ||| c == '\u{1680}'
    ||| ('\u{2000}' <= c && c <= '\u{200a}')
    ||| c == '\u{2028}'
    ||| c == '\u{2029}'
    ||| c == '\u{202f}'
    ||| c == '\u{205f}'
    ||| c == '\u{3000}'
}

/// Whether a character has the Unicode `White_Space` property.
pub fn char_is_whitespace(c: char) -> (b: bool)
    ensures
        b == is_white_space(c),
{
    ('\u{9}' <= c && c <= '\u{d}') || c == ' ' || c == '\u{85}' || c == '\u{a0}' || c
        == '\u{1680}' || ('\u{2000}' <= c && c <= '\u{200a}') || c == '\u{2028}' || c
        == '\u{2029}' || c == '\u{202f}' || c == '\u{205f}' || c == '\u{3000}'
}

/// `s` without its leading white space.
pub open spec fn trim_start(s: Seq<char>) -> Seq<char>
    decreases s.len(),
{
    if s.len() > 0 && is_white_space(s[0]) {
        trim_start(s.drop_first())
    } else {
        s
    }
}

/// `s` without its trailing white space.
pub open spec fn trim_end(s: Seq<char>) -> Seq<char>
    decreases s.len(),
{
    if s.len() > 0 && is_white_space(s.last()) {
        trim_end(s.drop_last())
    } else {
        s
    }
}

/// `str::trim`: `s` without leading and trailing white space.
pub open spec fn trim(s: Seq<char>) -> Seq<char> {
    trim_end(trim_start(s))
}

/// The bounds of `trim(v[lo..hi])` inside `v`.
pub fn trim_bounds(v: &Vec<char>, lo: usize, hi: usize) -> (r: (usize, usize))
    requires
        lo <= hi <= v@.len(),
    ensures
        lo <= r.0 <= r.1 <= hi,
        v@.subrange(r.0 as int, r.1 as int) == trim(v@.subrange(lo as int, hi as int)),
{
    let mut a = lo;
    while a < hi && char_is_whitespace(v[a])
        invariant
            lo <= a <= hi <= v@.len(),
            trim_start(v@.subrange(lo as int, hi as int)) == trim_start(
                v@.subrange(a as int, hi as int),
            ),
        decreases hi - a,
    {
        assert(v@.subrange(a as int, hi as int).drop_first() =~= v@.subrange(a + 1, hi as int));
        a = a + 1;
    }
    let mut b = hi;
    while b > a && char_is_whitespace(v[b - 1])
        invariant
            lo <= a <= b <= hi <= v@.len(),
            trim_end(v@.subrange(a as int, hi as int)) == trim_end(v@.subrange(a as int, b as int)),
        decreases b - a,
    {
        assert(v@.subrange(a as int, b as int).drop_last() =~= v@.subrange(a as int, b - 1));
        b = b - 1;
    }
    (a, b)
}

/// `str::trim`, on a whole string.
pub fn trim_str(s: &str) -> (r: String)
    ensures
        r@ == trim(s@),
{
    let v = chars_of(s);
    let (a, b) = trim_bounds(&v, 0, v.len());
    assert(v@.subrange(0, v@.len() as int) =~= v@);
    string_of(&v, a, b)
}

/// `s` without its trailing `c` characters (`str::trim_end_matches`).
pub open spec fn trim_end_char(s: Seq<char>, c: char) -> Seq<char>
    decreases s.len(),
{
    if s.len() > 0 && s.last() == c {
        trim_end_char(s.drop_last(), c)
    } else {
        s
    }
}

/// The number of characters of `v[0..n]` left once trailing `c`s are off.
pub fn trim_end_char_len(v: &Vec<char>, c: char) -> (n: usize)
    ensures
        n <= v@.len(),
        v@.take(n as int) == trim_end_char(v@, c),
{
    let mut n = v.len();
    assert(v@.take(n as int) =~= v@);
    while n > 0 && v[n - 1] == c
        invariant
            n <= v@.len(),
            trim_end_char(v@, c) == trim_end_char(v@.take(n as int), c),
        decreases n,
    {
        assert(v@.take(n as int).drop_last() =~= v@.take(n - 1));
        n = n - 1;
    }
    n
}

/// `str::trim_end_matches(c)` for a character `c`.
pub fn trim_end_char_str(s: &str, c: char) -> (r: String)
    ensures
        r@ == trim_end_char(s@, c),
{
    let v = chars_of(s);
    let n = trim_end_char_len(&v, c);
    let r = string_of(&v, 0, n);
    assert(v@.subrange(0, n as int) =~= v@.take(n as int));
    r
}

// ---------------------------------------------------------------------------
// Searching (`str::find`, `str::contains`)
// ---------------------------------------------------------------------------

/// Whether `pat` occurs in `s` at position `i`.
pub open spec fn occurs_at(s: Seq<char>, pat: Seq<char>, i: int) -> bool {
    0 <= i && i + pat.len() <= s.len() && s.subrange(i, i + pat.len()) == pat
}

/// The first position at or after `i` where `pat` occurs in `s`.
pub open spec fn find_from(s: Seq<char>, pat: Seq<char>, i: nat) -> Option<nat>
    decreases s.len() + 1 - i,
{
    if i + pat.len() > s.len() {
        None
    } else if s.subrange(i as int, (i + pat.len()) as int) == pat {
        Some(i)
    } else {
        find_from(s, pat, i + 1)
    }
}

/// `str::find`: the first position where `pat` occurs in `s`.
pub open spec fn find(s: Seq<char>, pat: Seq<char>) -> Option<nat> {
    find_from(s, pat, 0)
}

/// Whether `pat` occurs at position `i` of `v`.
pub fn occurs_at_exec(v: &Vec<char>, pat: &Vec<char>, i: usize) -> (r: bool)
    requires
        i + pat@.len() <= v@.len(),
    ensures
        r == (v@.subrange(i as int, i + pat@.len()) == pat@),
{
    let mut k: usize = 0;
    while k < pat.len()
        invariant
            i + pat@.len() <= v.len(),
            k <= pat@.len(),
            forall|j: int| 0 <= j < k ==> v@[i + j] == pat@[j],
        decreases pat@.len() - k,
    {
        if v[i + k] != pat[k] {
            assert(v@.subrange(i as int, i + pat@.len())[k as int] != pat@[k as int]);
            return false;
        }
        k = k + 1;
    }
    assert(v@.subrange(i as int, i + pat@.len()) =~= pat@);
    true
}

/// The first position at or after `from` where `pat` occurs in `v`.
pub fn find_from_exec(v: &Vec<char>, pat: &Vec<char>, from: usize) -> (r: Option<usize>)
    ensures
        r matches Some(i) ==> find_from(v@, pat@, from as nat) == Some(i as nat) && from <= i
            && i + pat@.len() <= v.len(),
        r is None ==> find_from(v@, pat@, from as nat) is None,
{
    let mut i = from;
    if from > v.len() {
        return None;
    }
    if pat.len() == 0 {
        assert(v@.subrange(from as int, from as int) =~= pat@);
        return Some(from);
    }
    while pat.len() <= v.len() - i
        invariant
            from <= i <= v@.len(),
            pat@.len() > 0,
            find_from(v@, pat@, from as nat) == find_from(v@, pat@, i as nat),
        decreases v@.len() - i,
    {
        if occurs_at_exec(v, pat, i) {
            return Some(i);
        }
        i = i + 1;
    }
    None
}

/// The first position at or after `i` where the character `c` occurs, or
/// the length of `s` where it does not.
pub open spec fn next_char_at(s: Seq<char>, c: char, i: nat) -> nat
    decreases s.len() - i,
{
    if i >= s.len() {
        s.len()
    } else if s[i as int] == c {
        i
    } else {
        next_char_at(s, c, i + 1)
    }
}

/// The next position of `c` from `i` lies between `i` and the end of the
/// text, holds `c` where it is before the end, and no `c` comes between.
pub proof fn lemma_next_char_at_bounds(s: Seq<char>, c: char, i: nat)
    requires
        i <= s.len(),
    ensures
        i <= next_char_at(s, c, i) <= s.len(),
        next_char_at(s, c, i) < s.len() ==> s[next_char_at(s, c, i) as int] == c,
        forall|j: int| i <= j < next_char_at(s, c, i) ==> s[j] != c,
    decreases s.len() - i,
{
    if i < s.len() && s[i as int] != c {
        lemma_next_char_at_bounds(s, c, i + 1);
    }
}

/// The first position at or after `from` holding `c`, or `hi` where there
/// is none before `hi`.
pub fn next_char_exec(v: &Vec<char>, c: char, from: usize) -> (r: usize)
    requires
        from <= v@.len(),
    ensures
        r == next_char_at(v@, c, from as nat),
{
    let mut i = from;
    while i < v.len() && v[i] != c
        invariant
            from <= i <= v@.len(),
            next_char_at(v@, c, from as nat) == next_char_at(v@, c, i as nat),
        decreases v@.len() - i,
    {
        i = i + 1;
    }
    i
}

/// `str::contains` with a character pattern.
pub open spec fn has_char(s: Seq<char>, c: char) -> bool {
    exists|i: int| 0 <= i < s.len() && s[i] == c
}

// ---------------------------------------------------------------------------
// Removal of every occurrence of a pattern (`str::replace(pat, "")`)
// ---------------------------------------------------------------------------

/// `s[i..]` with the non-overlapping occurrences of `pat`, found from left to
/// right, taken out.
pub open spec fn remove_from(s: Seq<char>, pat: Seq<char>, i: nat) -> Seq<char>
    decreases s.len() - i,
{
    if i >= s.len() {
        Seq::empty()
    } else if pat.len() == 0 {
        s.subrange(i as int, s.len() as int)
    } else if i + pat.len() <= s.len() && s.subrange(i as int, (i + pat.len()) as int) == pat {
        remove_from(s, pat, i + pat.len())
    } else {
        seq![s[i as int]] + remove_from(s, pat, i + 1)
    }
}

/// `str::replace(pat, "")`.
pub open spec fn remove_all(s: Seq<char>, pat: Seq<char>) -> Seq<char> {
    remove_from(s, pat, 0)
}

/// `v` with every occurrence of `pat` removed, left to right (see
/// `remove_all`).
pub fn remove_all_exec(v: &Vec<char>, pat: &Vec<char>) -> (r: Vec<char>)
    requires
        pat@.len() > 0,
    ensures
        r@ == remove_all(v@, pat@),
{
    let mut out: Vec<char> = Vec::new();
    let mut i: usize = 0;
    while i < v.len()
        invariant
            pat@.len() > 0,
            i <= v@.len(),
            out@ + remove_from(v@, pat@, i as nat) == remove_all(v@, pat@),
        decreases v@.len() - i,
    {
        if pat.len() <= v.len() - i && occurs_at_exec(v, pat, i) {
            i = i + pat.len();
        } else {
            let ghost before = out@;
            out.push(v[i]);
            assert(before + remove_from(v@, pat@, i as nat) =~= out@ + remove_from(
                v@,
                pat@,
                (i + 1) as nat,
            ));
            i = i + 1;
        }
    }
    assert(out@ + remove_from(v@, pat@, i as nat) =~= out@);
    out
}

// ---------------------------------------------------------------------------
// Lines (`str::lines`)
// ---------------------------------------------------------------------------

/// `s` without one trailing carriage return.
pub open spec fn strip_cr(s: Seq<char>) -> Seq<char> {
    if s.len() > 0 && s.last() == '\r' {
        s.drop_last()
    } else {
        s
    }
}

/// The lines of `s[i..]`, as `str::lines` yields them: pieces ended by a
/// line feed, without it and without one carriage return before it; a last
/// piece without a line feed is kept as it is, and an empty one is dropped.
pub open spec fn lines_from(s: Seq<char>, i: nat) -> Seq<Seq<char>>
    decreases s.len() - i,
{
    if i >= s.len() {
        Seq::empty()
    } else {
        let j = next_char_at(s, '\n', i);
        proof {
            lemma_next_char_at_bounds(s, '\n', i);
        }
        if j < s.len() {
            seq![strip_cr(s.subrange(i as int, j as int))] + lines_from(s, j + 1)
        } else {
            seq![s.subrange(i as int, s.len() as int)]
        }
    }
}

/// `str::lines`.
pub open spec fn str_lines(s: Seq<char>) -> Seq<Seq<char>> {
    lines_from(s, 0)
}

// ---------------------------------------------------------------------------
// Upper case (`str::to_uppercase`)
// ---------------------------------------------------------------------------

/// What `str::to_uppercase` returns for a string: its characters mapped by
/// the Unicode uppercase mapping.
pub uninterp spec fn unicode_upper(s: Seq<char>) -> Seq<char>;

/// Whether every character of `s` is ASCII.
pub open spec fn is_ascii_text(s: Seq<char>) -> bool {
    forall|j: int| 0 <= j < s.len() ==> (#[trigger] s[j] as u32) < 128
}

/// The ASCII upper case of a character: `a` to `z` become `A` to `Z`, any
/// other character stays.
pub open spec fn ascii_upper_char(c: char) -> char {
    if 'a' <= c && c <= 'z' {
        ((c as u32) - 32) as char
    } else {
        c
    }
}

/// The ASCII upper case of a text, character by character.
pub open spec fn ascii_upper(s: Seq<char>) -> Seq<char> {
    s.map_values(|c: char| ascii_upper_char(c))
}

/// What `str::to_uppercase` gives: for an ASCII text its ASCII upper case
/// (the Unicode mapping of an ASCII letter is its ASCII capital, and every
/// other ASCII character maps to itself), else `unicode_upper`.
pub open spec fn upper_of(s: Seq<char>) -> Seq<char> {
    if is_ascii_text(s) {
        ascii_upper(s)
    } else {
        unicode_upper(s)
    }
}

/// `str::to_uppercase`.  Its result is a function of the text alone, named
/// `unicode_upper`; of an ASCII text it is claimed to be the ASCII upper
/// case, which is what the Unicode case mapping gives for ASCII characters.
#[verifier::external_body]
pub(crate) fn to_uppercase(s: &str) -> (r: String)
    ensures
        r@ == unicode_upper(s@),
        is_ascii_text(s@) ==> r@ == ascii_upper(s@),
{
    s.to_uppercase()
}

// ---------------------------------------------------------------------------
// Decimal numbers (`u8`/`u32` `FromStr` and `ToString`)
// ---------------------------------------------------------------------------

/// Whether a character is an ASCII decimal digit.
pub open spec fn is_digit(c: char) -> bool {
    '0' <= c && c <= '9'
}

/// The value of an ASCII decimal digit.
pub open spec fn digit_value(c: char) -> nat {
    (c as u32 - '0' as u32) as nat
}

/// The value of a sequence of decimal digits.
pub open spec fn digits_value(s: Seq<char>) -> nat
    decreases s.len(),
{
    if s.len() == 0 {
        0
    } else {
        digits_value(s.drop_last()) * 10 + digit_value(s.last())
    }
}

/// The digits of an integer's `FromStr` text: an optional leading `+`, then
/// the rest.
pub open spec fn unsigned_digits(s: Seq<char>) -> Seq<char> {
    if s.len() > 0 && s[0] == '+' {
        s.drop_first()
    } else {
        s
    }
}

/// What `str::parse` gives for an unsigned integer type whose largest value
/// is `max`: the value when the text is an optional `+` followed by at least
/// one decimal digit and the value is at most `max`, and nothing otherwise.
pub open spec fn parse_unsigned(s: Seq<char>, max: nat) -> Option<nat> {
    let d = unsigned_digits(s);
    if d.len() > 0 && (forall|i: int| 0 <= i < d.len() ==> is_digit(#[trigger] d[i]))
        && digits_value(d) <= max {
        Some(digits_value(d))
    } else {
        None
    }
}

proof fn lemma_digits_value_prefix(d: Seq<char>, k: int)
    requires
        0 <= k < d.len(),
    ensures
        digits_value(d.take(k + 1)) == digits_value(d.take(k)) * 10 + digit_value(d[k]),
{
    assert(d.take(k + 1).drop_last() =~= d.take(k));
}

proof fn lemma_digits_value_grows(d: Seq<char>, k: int)
    requires
        0 <= k <= d.len(),
        forall|i: int| 0 <= i < d.len() ==> is_digit(#[trigger] d[i]),
    ensures
        digits_value(d.take(k)) <= digits_value(d),
    decreases d.len() - k,
{
    if k < d.len() {
        lemma_digits_value_grows(d, k + 1);
        lemma_digits_value_prefix(d, k);
        assert(digits_value(d.take(k)) <= digits_value(d.take(k + 1))) by (nonlinear_arith)
            requires
                digits_value(d.take(k + 1)) == digits_value(d.take(k)) * 10 + digit_value(d[k]),
        ;
    } else {
        assert(d.take(k) =~= d);
    }
}

/// `str::parse::<u32>`, returning `None` where it returns an error.
pub fn parse_u32(s: &str) -> (r: Option<u32>)
    ensures
        r matches Some(n) ==> parse_unsigned(s@, u32::MAX as nat) == Some(n as nat),
        r is None ==> parse_unsigned(s@, u32::MAX as nat) is None,
{
    let v = chars_of(s);
    let mut i: usize = 0;
    if v.len() > 0 && v[0] == '+' {
        i = 1;
    }
    let ghost d = unsigned_digits(s@);
    assert(d =~= v@.skip(i as int));
    if i >= v.len() {
        return None;
    }
    let mut acc: u64 = 0;
    let mut k = i;
    while k < v.len()
        invariant
            i <= k <= v@.len(),
            v@ == s@,
            d == unsigned_digits(s@),
            d == v@.skip(i as int),
            acc as nat == digits_value(d.take(k - i)),
            acc <= u32::MAX,
            forall|j: int| 0 <= j < k - i ==> is_digit(#[trigger] d[j]),
        decreases v@.len() - k,
    {
        let c = v[k];
        if !('0' <= c && c <= '9') {
            assert(!is_digit(d[k - i]));
            return None;
        }
        proof {
            lemma_digits_value_prefix(d, k - i);
        }
        let dv = (c as u32 - '0' as u32) as u64;
        acc = acc * 10 + dv;
        assert(d.take(k - i + 1) =~= d.take((k + 1 - i) as int));
        if acc > u32::MAX as u64 {
            proof {
                if forall|j: int| 0 <= j < d.len() ==> is_digit(#[trigger] d[j]) {
                    lemma_digits_value_grows(d, k + 1 - i);
                }
            }
            return None;
        }
        k = k + 1;
    }
    assert(d.take(d.len() as int) =~= d);
    Some(acc as u32)
}

/// The character of a decimal digit.
pub open spec fn digit_char(d: nat) -> char {
    if d == 0 {
        '0'
    } else if d == 1 {
        '1'
    } else if d == 2 {
        '2'
    } else if d == 3 {
        '3'
    } else if d == 4 {
        '4'
    } else if d == 5 {
        '5'
    } else if d == 6 {
        '6'
    } else if d == 7 {
        '7'
    } else if d == 8 {
        '8'
    } else {
        '9'
    }
}

/// The decimal text of `n`, without leading zeros, as `ToString` writes it.
pub open spec fn decimal(n: nat) -> Seq<char>
    decreases n,
{
    if n < 10 {
        seq![digit_char(n)]
    } else {
        decimal(n / 10) + seq![digit_char(n % 10)]
    }
}

fn digit_char_exec(d: u32) -> (c: char)
    requires
        d < 10,
    ensures
        c == digit_char(d as nat),
{
    if d == 0 {
        '0'
    } else if d == 1 {
        '1'
    } else if d == 2 {
        '2'
    } else if d == 3 {
        '3'
    } else if d == 4 {
        '4'
    } else if d == 5 {
        '5'
    } else if d == 6 {
        '6'
    } else if d == 7 {
        '7'
    } else if d == 8 {
        '8'
    } else {
        '9'
    }
}

/// `u32::to_string`.
pub fn decimal_string(n: u32) -> (s: String)
    ensures
        s@ == decimal(n as nat),
    decreases n,
{
    if n < 10 {
        let mut s = String::new();
        push_char(&mut s, digit_char_exec(n));
        assert(s@ =~= decimal(n as nat));
        s
    } else {
        let mut s = decimal_string(n / 10);
        push_char(&mut s, digit_char_exec(n % 10));
        s
    }
}

} // verus!
