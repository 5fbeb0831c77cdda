//! Character-level string helpers shared by the rest of the library.
//!
//! Strings are reasoned about through their `Seq<char>` view. A handful of
//! std character functions are wrapped here, each with what its
//! documentation states; everything else is verified code.
use vstd::prelude::*;

verus! {

/// ASCII letters and digits.
pub open spec fn is_ascii_alnum(c: char) -> bool {
    ('a' <= c && c <= 'z') || ('A' <= c && c <= 'Z') || ('0' <= c && c <= '9')
}

/// ASCII whitespace as classified by Unicode `White_Space` (tab, LF, VT, FF, CR, space).
pub open spec fn is_ascii_white(c: char) -> bool {
    c == ' ' || c == '\t' || c == '\n' || c == '\x0B' || c == '\x0C' || c == '\r'
}

/// Whether a character outside ASCII is alphabetic or numeric in Unicode.
pub uninterp spec fn unicode_alnum(c: char) -> bool;

/// Whether a character outside ASCII has the Unicode `White_Space` property.
pub uninterp spec fn unicode_white(c: char) -> bool;

/// The Unicode lowercase mapping of a character outside ASCII.
pub uninterp spec fn unicode_lower(c: char) -> Seq<char>;

/// The Unicode lowercase form of a whole string.
pub uninterp spec fn unicode_str_lower(s: Seq<char>) -> Seq<char>;

pub open spec fn is_ascii_char(c: char) -> bool {
    (c as u32) < 128
}

/// `char::is_alphanumeric`, exact on ASCII.
pub open spec fn alnum(c: char) -> bool {
    if is_ascii_char(c) { is_ascii_alnum(c) } else { unicode_alnum(c) }
}

/// `char::is_whitespace`, exact on ASCII.
pub open spec fn white(c: char) -> bool {
    if is_ascii_char(c) { is_ascii_white(c) } else { unicode_white(c) }
}

pub open spec fn ascii_lower(c: char) -> char {
    if 'A' <= c && c <= 'Z' { ((c as u32) + 32) as char } else { c }
}

/// `char::to_lowercase`, exact on ASCII.
pub open spec fn char_lower(c: char) -> Seq<char> {
    if is_ascii_char(c) { seq![ascii_lower(c)] } else { unicode_lower(c) }
}

/// `char::is_alphanumeric`. ASCII letters and digits are alphanumeric and no
/// other ASCII character is (Unicode `Alphabetic` / `Numeric`).
#[verifier::external_body]
pub(crate) fn char_is_alphanumeric(c: char) -> (res: bool)
    ensures
        res == (if is_ascii_char(c) { is_ascii_alnum(c) } else { unicode_alnum(c) }),
{
    c.is_alphanumeric()
}

/// `char::is_whitespace`. On ASCII the Unicode `White_Space` characters are
/// tab, line feed, vertical tab, form feed, carriage return and space.
#[verifier::external_body]
pub(crate) fn char_is_whitespace(c: char) -> (res: bool)
    ensures
        res == (if is_ascii_char(c) { is_ascii_white(c) } else { unicode_white(c) }),
{
    c.is_whitespace()
}

/// `char::to_lowercase`, collected. ASCII upper-case letters map to their
/// lower-case letter, other ASCII characters to themselves.
#[verifier::external_body]
pub(crate) fn char_to_lowercase(c: char) -> (res: Vec<char>)
    ensures
        res@ == (if is_ascii_char(c) { seq![ascii_lower(c)] } else { unicode_lower(c) }),
{
    c.to_lowercase().collect()
}

/// `str::to_lowercase`; its result is named, as Unicode lowering is
/// context-dependent (final sigma) beyond single characters. A string of
/// ASCII characters maps `A`-`Z` to `a`-`z` and keeps every other character.
#[verifier::external_body]
pub(crate) fn str_to_lowercase(s: &str) -> (res: String)
    ensures
        res@ == unicode_str_lower(s@),
        (forall|i: int| 0 <= i < s@.len() ==> is_ascii_char(#[trigger] s@[i])) ==> res@
            == s@.map_values(|c: char| ascii_lower(c)),
{
    s.to_lowercase()
}

/// `String::push`: appends one character.
#[verifier::external_body]
pub(crate) fn string_push(s: &mut String, c: char)
    ensures
        final(s)@ == old(s)@.push(c),
{
    s.push(c)
}

/// The characters of a string slice.
pub fn str_chars(s: &str) -> (v: Vec<char>)
    ensures
        v@ == s@,
{
    let n = s.unicode_len();
    let mut v: Vec<char> = Vec::new();
    let mut i: usize = 0;
    while i < n
        invariant
            n == s@.len(),
            i <= n,
            v@ == s@.take(i as int),
        decreases n - i,
    {
        let c = s.get_char(i);
        v.push(c);
        assert(s@.take(i + 1) =~= s@.take(i as int).push(c));
        i += 1;
    }
    assert(s@.take(n as int) =~= s@);
    v
}

/// A string holding exactly the given characters.
pub fn chars_string(v: &Vec<char>) -> (s: String)
    ensures
        s@ == v@,
{
    let mut s = String::new();
    let mut i: usize = 0;
    while i < v.len()
        invariant
            i <= v.len(),
            s@ == v@.take(i as int),
        decreases v.len() - i,
    {
        string_push(&mut s, v[i]);
        assert(v@.take(i + 1) =~= v@.take(i as int).push(v@[i as int]));
        i += 1;
    }
    assert(v@.take(v.len() as int) =~= v@);
    s
}

/// Appends a string slice to a string.
pub fn push_str(s: &mut String, t: &str)
    ensures
        final(s)@ == old(s)@ + t@,
{
    s.append(t);
}

/// Appends characters to a string.
pub fn push_chars(s: &mut String, t: &Vec<char>)
    ensures
        final(s)@ == old(s)@ + t@,
{
    let ghost s0 = s@;
    let mut i: usize = 0;
    while i < t.len()
        invariant
            i <= t.len(),
            s@ == s0 + t@.take(i as int),
        decreases t.len() - i,
    {
        string_push(s, t[i]);
        assert(t@.take(i + 1) =~= t@.take(i as int).push(t@[i as int]));
        i += 1;
    }
    assert(t@.take(t.len() as int) =~= t@);
}

/// A fresh string holding the characters of a slice.
pub fn owned(t: &str) -> (s: String)
    ensures
        s@ == t@,
{
    t.to_owned()
}

/// Concatenation of two string slices.
pub fn concat(a: &str, b: &str) -> (s: String)
    ensures
        s@ == a@ + b@,
{
    let mut s = owned(a);
    push_str(&mut s, b);
    s
}

/// Character-wise equality of two strings.
pub fn chars_eq(a: &Vec<char>, b: &Vec<char>) -> (res: bool)
    ensures
        res == (a@ == b@),
{
    if a.len() != b.len() {
        return false;
    }
    let mut i: usize = 0;
    while i < a.len()
        invariant
            a.len() == b.len(),
            i <= a.len(),
            forall|k: int| 0 <= k < i ==> a@[k] == b@[k],
        decreases a.len() - i,
    {
        if a[i] != b[i] {
            return false;
        }
        i += 1;
    }
    assert(a@ =~= b@);
    true
}

/// Equality of two string slices.
pub fn str_eq(a: &str, b: &str) -> (res: bool)
    ensures
        res == (a@ == b@),
{
    let av = str_chars(a);
    let bv = str_chars(b);
    chars_eq(&av, &bv)
}

/// `p` occurs at position `i` of `s`.
pub open spec fn occurs_at(s: Seq<char>, p: Seq<char>, i: int) -> bool {
    0 <= i && i + p.len() <= s.len() && s.subrange(i, i + p.len()) == p
}

/// `p` occurs somewhere in `s`.
pub open spec fn contains_seq(s: Seq<char>, p: Seq<char>) -> bool {
    exists|i: int| occurs_at(s, p, i)
}

/// Whether `p` occurs at position `i` of `s`.
pub fn matches_at(s: &Vec<char>, p: &Vec<char>, i: usize) -> (res: bool)
    ensures
        res == occurs_at(s@, p@, i as int),
{
    if i > s.len() || p.len() > s.len() - i {
        return false;
    }
    let mut k: usize = 0;
    while k < p.len()
        invariant
            i + p.len() <= s.len(),
            k <= p.len(),
            forall|j: int| 0 <= j < k ==> s@[i + j] == p@[j],
        decreases p.len() - k,
    {
        if s[i + k] != p[k] {
            assert(s@.subrange(i as int, i + p.len())[k as int] != p@[k as int]);
            return false;
        }
        k += 1;
    }
    assert(s@.subrange(i as int, i + p.len()) =~= p@);
    true
}

/// Substring search (`str::contains` with a string pattern).
pub fn contains_chars(s: &Vec<char>, p: &Vec<char>) -> (res: bool)
    ensures
        res == contains_seq(s@, p@),
{
    if p.len() > s.len() {
        assert(!contains_seq(s@, p@));
        return false;
    }
    let last = s.len() - p.len();
    let mut i: usize = 0;
    while i < last
        invariant
            p.len() <= s.len(),
            last == s.len() - p.len(),
            i <= last,
            forall|j: int| 0 <= j < i ==> !occurs_at(s@, p@, j),
        decreases last - i,
    {
        if matches_at(s, p, i) {
            return true;
        }
        i += 1;
    }
    if matches_at(s, p, last) {
        return true;
    }
    assert forall|j: int| !occurs_at(s@, p@, j) by {
        if 0 <= j && j + p@.len() <= s@.len() && j >= i {
            assert(j == last);
        }
    }
    false
}

/// `str::contains` with a string pattern.
pub fn str_contains(s: &str, p: &str) -> (res: bool)
    ensures
        res == contains_seq(s@, p@),
{
    let sv = str_chars(s);
    let pv = str_chars(p);
    contains_chars(&sv, &pv)
}

/// `s` starts with `p`.
pub open spec fn starts_with(s: Seq<char>, p: Seq<char>) -> bool {
    p.len() <= s.len() && s.take(p.len() as int) == p
}

/// `s` ends with `p`.
pub open spec fn ends_with(s: Seq<char>, p: Seq<char>) -> bool {
    p.len() <= s.len() && s.skip(s.len() - p.len()) == p
}

/// Whether `s` starts with `p`.
pub fn chars_starts_with(s: &Vec<char>, p: &Vec<char>) -> (res: bool)
    ensures
        res == starts_with(s@, p@),
{
    let r = matches_at(s, p, 0);
    assert(r ==> s@.take(p@.len() as int) =~= s@.subrange(0, p@.len() as int));
    assert(starts_with(s@, p@) ==> s@.subrange(0, p@.len() as int) =~= s@.take(p@.len() as int));
    r
}

/// Whether `s` ends with `p`.
pub fn chars_ends_with(s: &Vec<char>, p: &Vec<char>) -> (res: bool)
    ensures
        res == ends_with(s@, p@),
{
    if p.len() > s.len() {
        return false;
    }
    let r = matches_at(s, p, s.len() - p.len());
    assert(s@.skip(s@.len() - p@.len()) =~= s@.subrange(s@.len() - p@.len(), s@.len() as int));
    r
}

pub open spec fn is_digit(c: char) -> bool {
    '0' <= c && c <= '9'
}

/// The value of a string of decimal digits.
pub open spec fn digits_value(s: Seq<char>) -> nat
    decreases s.len(),
{
    if s.len() == 0 {
        0
    } else {
        digits_value(s.drop_last()) * 10 + ((s.last() as u32) - ('0' as u32)) as nat
    }
}

/// The digits of an unsigned decimal literal: an optional `+`, then digits.
pub open spec fn unsigned_digits(s: Seq<char>) -> Seq<char> {
    if s.len() > 0 && s[0] == '+' {
        s.drop_first()
    } else {
        s
    }
}

/// The value `s` denotes as an unsigned decimal literal, when it is one.
pub open spec fn decimal_value(s: Seq<char>) -> Option<nat> {
    let d = unsigned_digits(s);
    if d.len() > 0 && forall|i: int| 0 <= i < d.len() ==> is_digit(#[trigger] d[i]) {
        Some(digits_value(d))
    } else {
        None
    }
}

/// `u64::from_str`: an optional `+` followed by one or more ASCII digits whose
/// value fits in a `u64`; anything else (a sign alone, whitespace,
/// underscores, overflow) is an error.
#[verifier::external_body]
pub(crate) fn parse_u64(s: &str) -> (res: Option<u64>)
    ensures
        res == (match decimal_value(s@) {
            Some(n) => if n <= u64::MAX { Some(n as u64) } else { None },
            None => None,
        }),
{
    s.parse::<u64>().ok()
}

/// `usize::from_str`, with the same grammar as `parse_u64`.
#[verifier::external_body]
pub(crate) fn parse_usize(s: &str) -> (res: Option<usize>)
    ensures
        res == (match decimal_value(s@) {
            Some(n) => if n <= usize::MAX { Some(n as usize) } else { None },
            None => None,
        }),
{
    s.parse::<usize>().ok()
}

/// The decimal digit for `d < 10`.
pub open spec fn digit_char(d: nat) -> char {
    ((d + 48) as u32) as char
}

/// The decimal rendering of a natural number.
pub open spec fn decimal_text(n: nat) -> Seq<char>
    decreases n,
{
    if n < 10 {
        seq![digit_char(n)]
    } else {
        decimal_text(n / 10).push(digit_char(n % 10))
    }
}

/// The decimal rendering of `n` is a non-empty run of digits that reads back
/// as `n`.
pub proof fn lemma_decimal_text_value(n: nat)
    ensures
        decimal_text(n).len() > 0,
        forall|i: int| 0 <= i < decimal_text(n).len() ==> is_digit(#[trigger] decimal_text(n)[i]),
        digits_value(decimal_text(n)) == n,
        decimal_value(decimal_text(n)) == Some(n),
    decreases n,
{
    let s = decimal_text(n);
    if n < 10 {
        assert(s.drop_last() =~= Seq::<char>::empty());
        assert((digit_char(n) as u32) == n + 48);
        assert(s.last() == digit_char(n));
        assert(digits_value(s.drop_last()) == 0);
        assert(digits_value(s) == n);
        assert(is_digit(s[0]));
    } else {
        lemma_decimal_text_value(n / 10);
        let q = decimal_text(n / 10);
        assert(s.drop_last() =~= q);
        assert((digit_char(n % 10) as u32) == n % 10 + 48);
        assert forall|i: int| 0 <= i < s.len() implies is_digit(#[trigger] s[i]) by {
            if i < q.len() {
                assert(s[i] == q[i]);
            }
        }
        assert(n == (n / 10) * 10 + n % 10);
        assert(s.last() == digit_char(n % 10));
        assert(digits_value(s) == digits_value(q) * 10 + n % 10);
    }
    assert(unsigned_digits(s) == s);
}

/// The decimal rendering of `n` (`{}` formatting of an unsigned integer).
pub fn u64_text(n: u64) -> (s: String)
    ensures
        s@ == decimal_text(n as nat),
{
    // digits, least significant first
    let mut rev: Vec<char> = Vec::new();
    let mut m = n;
    let ghost mut tail: Seq<char> = Seq::empty();
    loop
        invariant_except_break
            decimal_text(n as nat) == decimal_text(m as nat) + tail,
        invariant
            rev@.len() == tail.len(),
            forall|i: int| 0 <= i < tail.len() ==> rev@[i] == tail[tail.len() - 1 - i],
        ensures
            decimal_text(n as nat) == tail,
        decreases m,
    {
        let d = (m % 10) as u32;
        let c = char_from_digit(d);
        let ghost old_tail = tail;
        rev.push(c);
        proof {
            tail = seq![c] + tail;
        }
        if m < 10 {
            assert(decimal_text(m as nat) =~= seq![c]);
            break;
        }
        assert(decimal_text(m as nat) == decimal_text((m / 10) as nat).push(c));
        assert(decimal_text((m / 10) as nat).push(c) + old_tail =~= decimal_text((m / 10) as nat) + tail);
        m = m / 10;
    }
    let mut out = String::new();
    let mut k = rev.len();
    while k > 0
        invariant
            k <= rev@.len(),
            rev@.len() == tail.len(),
            forall|i: int| 0 <= i < tail.len() ==> rev@[i] == tail[tail.len() - 1 - i],
            out@ == tail.take(tail.len() - k),
        decreases k,
    {
        k -= 1;
        string_push(&mut out, rev[k]);
        assert(tail.take(tail.len() - k) =~= tail.take(tail.len() - k - 1).push(rev@[k as int]));
    }
    assert(tail.take(tail.len() as int) =~= tail);
    out
}

/// The digit character for `d < 10`.
fn char_from_digit(d: u32) -> (c: char)
    requires
        d < 10,
    ensures
        c == digit_char(d as nat),
{
    if d == 0 { '0' }
    else if d == 1 { '1' }
    else if d == 2 { '2' }
    else if d == 3 { '3' }
    else if d == 4 { '4' }
    else if d == 5 { '5' }
    else if d == 6 { '6' }
    else if d == 7 { '7' }
    else if d == 8 { '8' }
    else { '9' }
}

/// The first position at or after `start` where `p` occurs in `s`.
pub open spec fn find_from(s: Seq<char>, p: Seq<char>, start: int) -> Option<int>
    decreases s.len() + 1 - start,
{
    if start < 0 || start + p.len() > s.len() {
        None
    } else if occurs_at(s, p, start) {
        Some(start)
    } else {
        find_from(s, p, start + 1)
    }
}

pub proof fn lemma_find_from(s: Seq<char>, p: Seq<char>, start: int)
    requires
        0 <= start,
    ensures
        find_from(s, p, start) matches Some(i) ==> start <= i && occurs_at(s, p, i) && forall|
            j: int,
        | start <= j < i ==> !occurs_at(s, p, j),
        find_from(s, p, start) is None ==> forall|j: int| start <= j ==> !occurs_at(s, p, j),
    decreases s.len() + 1 - start,
{
    if start + p.len() <= s.len() && !occurs_at(s, p, start) {
        lemma_find_from(s, p, start + 1);
    }
}

/// `find_from` finds the first occurrence at or after `start`.
pub proof fn lemma_find_from_first(s: Seq<char>, p: Seq<char>, start: int, i: int)
    requires
        0 <= start <= i,
        occurs_at(s, p, i),
        forall|j: int| start <= j < i ==> !occurs_at(s, p, j),
    ensures
        find_from(s, p, start) == Some(i),
    decreases i - start,
{
    if start < i {
        lemma_find_from_first(s, p, start + 1, i);
    }
}

/// `find_from` finds nothing when `p` occurs nowhere at or after `start`.
pub proof fn lemma_find_from_none(s: Seq<char>, p: Seq<char>, start: int)
    requires
        0 <= start,
        forall|j: int| start <= j ==> !occurs_at(s, p, j),
    ensures
        find_from(s, p, start) is None,
    decreases s.len() + 1 - start,
{
    if start + p.len() <= s.len() {
        lemma_find_from_none(s, p, start + 1);
    }
}

/// The first position at or after `start` where `p` occurs in `s`.
pub fn find_chars(s: &Vec<char>, p: &Vec<char>, start: usize) -> (res: Option<usize>)
    ensures
        res matches Some(i) ==> find_from(s@, p@, start as int) == Some(i as int),
        res is None ==> find_from(s@, p@, start as int) is None,
{
    let mut i = start;
    while i <= s.len() && p.len() <= s.len() - i
        invariant
            start <= i,
            find_from(s@, p@, start as int) == find_from(s@, p@, i as int),
        decreases s.len() + 1 - i,
    {
        if matches_at(s, p, i) {
            return Some(i);
        }
        if i == s.len() {
            assert(s@.subrange(i as int, i as int) =~= p@);
        }
        i += 1;
    }
    None
}

/// `s` with leading whitespace removed.
pub open spec fn trim_start(s: Seq<char>) -> Seq<char>
    decreases s.len(),
{
    if s.len() > 0 && white(s[0]) {
        trim_start(s.drop_first())
    } else {
        s
    }
}

/// `s` with trailing whitespace removed.
pub open spec fn trim_end(s: Seq<char>) -> Seq<char>
    decreases s.len(),
{
    if s.len() > 0 && white(s.last()) {
        trim_end(s.drop_last())
    } else {
        s
    }
}

/// `str::trim`: leading and trailing whitespace removed.
pub open spec fn trim(s: Seq<char>) -> Seq<char> {
    trim_end(trim_start(s))
}

/// The characters of `v` from `a` up to `b`.
pub fn slice_chars(v: &Vec<char>, a: usize, b: usize) -> (r: Vec<char>)
    requires
        a <= b <= v.len(),
    ensures
        r@ == v@.subrange(a as int, b as int),
{
    let mut r: Vec<char> = Vec::new();
    let mut i = a;
    while i < b
        invariant
            a <= i <= b <= v.len(),
            r@ == v@.subrange(a as int, i as int),
        decreases b - i,
    {
        r.push(v[i]);
        assert(v@.subrange(a as int, i + 1) =~= v@.subrange(a as int, i as int).push(v@[i as int]));
        i += 1;
    }
    r
}

/// Characters with leading and trailing whitespace removed.
pub fn trim_chars(v: &Vec<char>) -> (r: Vec<char>)
    ensures
        r@ == trim(v@),
{
    let mut a: usize = 0;
    assert(v@.skip(0) =~= v@);
    while a < v.len() && char_is_whitespace(v[a])
        invariant
            a <= v.len(),
            trim_start(v@) == trim_start(v@.skip(a as int)),
        decreases v.len() - a,
    {
        assert(v@.skip(a as int).drop_first() =~= v@.skip(a + 1));
        a += 1;
    }
    assert(trim_start(v@.skip(a as int)) == v@.skip(a as int));
    let mut b: usize = v.len();
    while b > a && char_is_whitespace(v[b - 1])
        invariant
            a <= b <= v.len(),
            trim(v@) == trim_end(v@.subrange(a as int, b as int)),
        decreases b - a,
    {
        assert(v@.subrange(a as int, b as int).drop_last() =~= v@.subrange(a as int, b - 1));
        b -= 1;
    }
    assert(v@.skip(a as int) =~= v@.subrange(a as int, v.len() as int));
    slice_chars(v, a, b)
}

/// `str::trim`.
pub fn str_trim(s: &str) -> (r: Vec<char>)
    ensures
        r@ == trim(s@),
{
    let v = str_chars(s);
    trim_chars(&v)
}

/// Joins a path component onto a base path with `/`: an absolute component
/// replaces the base, an empty base or one ending in `/` needs no separator.
pub open spec fn path_join(base: Seq<char>, part: Seq<char>) -> Seq<char> {
    if part.len() > 0 && part[0] == '/' {
        part
    } else if base.len() == 0 || base.last() == '/' {
        base + part
    } else {
        base + seq!['/'] + part
    }
}

/// The path `base/part`.
pub fn join_path(base: &str, part: &str) -> (r: String)
    ensures
        r@ == path_join(base@, part@),
{
    let pv = str_chars(part);
    if pv.len() > 0 && pv[0] == '/' {
        return owned(part);
    }
    let bv = str_chars(base);
    let mut r = owned(base);
    if bv.len() > 0 && bv[bv.len() - 1] != '/' {
        string_push(&mut r, '/');
    }
    push_str(&mut r, part);
    r
}

/// The views of a list of strings.
pub open spec fn views(v: Seq<String>) -> Seq<Seq<char>> {
    v.map_values(|x: String| x@)
}

/// `parts` joined with `sep` between consecutive parts (`[T]::join`).
pub open spec fn joined(parts: Seq<Seq<char>>, sep: Seq<char>) -> Seq<char>
    decreases parts.len(),
{
    if parts.len() == 0 {
        Seq::empty()
    } else if parts.len() == 1 {
        parts[0]
    } else {
        joined(parts.drop_last(), sep) + sep + parts.last()
    }
}

/// The strings of `parts` joined with `sep`.
pub fn join_strings(parts: &Vec<String>, sep: &str) -> (r: String)
    ensures
        r@ == joined(views(parts@), sep@),
{
    let mut r = String::new();
    let mut i: usize = 0;
    while i < parts.len()
        invariant
            i <= parts.len(),
            r@ == joined(views(parts@).take(i as int), sep@),
        decreases parts.len() - i,
    {
        let ghost pre = views(parts@).take(i as int);
        if i > 0 {
            push_str(&mut r, sep);
        }
        push_str(&mut r, parts[i].as_str());
        assert(views(parts@).take(i + 1).drop_last() =~= pre);
        if i == 0 {
            assert(r@ =~= views(parts@).take(1)[0]);
        }
        i += 1;
    }
    assert(views(parts@).take(parts.len() as int) =~= views(parts@));
    r
}

/// `str::eq_ignore_ascii_case`: equal once ASCII letters are lowered.
pub open spec fn ascii_ci_eq(a: Seq<char>, b: Seq<char>) -> bool {
    a.len() == b.len() && forall|i: int| 0 <= i < a.len() ==> ascii_lower(#[trigger] a[i]) == ascii_lower(b[i])
}

/// Whether `a` and `b` are equal ignoring ASCII case.
pub fn eq_ignore_ascii_case(a: &str, b: &str) -> (res: bool)
    ensures
        res == ascii_ci_eq(a@, b@),
{
    let av = str_chars(a);
    let bv = str_chars(b);
    if av.len() != bv.len() {
        return false;
    }
    let mut i: usize = 0;
    while i < av.len()
        invariant
            av@ == a@,
            bv@ == b@,
            av.len() == bv.len(),
            i <= av.len(),
            forall|k: int| 0 <= k < i ==> ascii_lower(#[trigger] av@[k]) == ascii_lower(bv@[k]),
        decreases av.len() - i,
    {
        let x = av[i];
        let y = bv[i];
        let lx = if 'A' <= x && x <= 'Z' { ((x as u32) + 32) } else { x as u32 };
        let ly = if 'A' <= y && y <= 'Z' { ((y as u32) + 32) } else { y as u32 };
        if lx != ly {
            assert(ascii_lower(x) as u32 == lx);
            assert(ascii_lower(y) as u32 == ly);
            return false;
        }
        assert(ascii_lower(x) as u32 == lx);
        assert(ascii_lower(y) as u32 == ly);
        i += 1;
    }
    true
}

proof fn lemma_trim_start_stable(s: Seq<char>)
    ensures
        trim_start(s).len() > 0 ==> !white(trim_start(s)[0]),
        trim_start(trim_start(s)) == trim_start(s),
    decreases s.len(),
{
    if s.len() > 0 && white(s[0]) {
        lemma_trim_start_stable(s.drop_first());
    }
}

proof fn lemma_trim_end_stable(s: Seq<char>)
    ensures
        trim_end(trim_end(s)) == trim_end(s),
        trim_end(s) == s.take(trim_end(s).len() as int),
        trim_end(s).len() <= s.len(),
    decreases s.len(),
{
    if s.len() > 0 && white(s.last()) {
        lemma_trim_end_stable(s.drop_last());
        assert(s.drop_last().take(trim_end(s).len() as int) =~= s.take(trim_end(s).len() as int));
    } else {
        assert(s.take(s.len() as int) =~= s);
    }
}

/// Trimming twice trims no more than trimming once.
pub proof fn lemma_trim_idempotent(s: Seq<char>)
    ensures
        trim(trim(s)) == trim(s),
{
    let a = trim_start(s);
    lemma_trim_start_stable(s);
    lemma_trim_end_stable(a);
    let b = trim_end(a);
    // `b` is a prefix of `a`, whose first character (if any) is not white.
    if b.len() > 0 {
        assert(b[0] == a[0]);
    }
    assert(trim_start(b) == b);
}

// ==========================================
// Ordering strings
// ==========================================

/// `a < b` in the order of `str` (code point by code point, a proper prefix
/// first).
pub open spec fn str_lt(a: Seq<char>, b: Seq<char>) -> bool
    decreases a.len(),
{
    if b.len() == 0 {
        false
    } else if a.len() == 0 {
        true
    } else if a[0] != b[0] {
        a[0] < b[0]
    } else {
        str_lt(a.drop_first(), b.drop_first())
    }
}

pub proof fn lemma_str_lt_irreflexive(a: Seq<char>)
    ensures
        !str_lt(a, a),
    decreases a.len(),
{
    if a.len() > 0 {
        lemma_str_lt_irreflexive(a.drop_first());
    }
}

pub proof fn lemma_str_lt_transitive(a: Seq<char>, b: Seq<char>, c: Seq<char>)
    requires
        str_lt(a, b),
        str_lt(b, c),
    ensures
        str_lt(a, c),
    decreases a.len(),
{
    if a.len() > 0 && b.len() > 0 && c.len() > 0 && a[0] == b[0] && b[0] == c[0] {
        lemma_str_lt_transitive(a.drop_first(), b.drop_first(), c.drop_first());
    }
}

pub proof fn lemma_str_lt_total(a: Seq<char>, b: Seq<char>)
    ensures
        a != b ==> str_lt(a, b) || str_lt(b, a),
        str_lt(a, b) ==> !str_lt(b, a),
    decreases a.len(),
{
    if a.len() > 0 && b.len() > 0 {
        if a[0] == b[0] {
            lemma_str_lt_total(a.drop_first(), b.drop_first());
            if a.drop_first() == b.drop_first() {
                assert(a =~= seq![a[0]] + a.drop_first());
                assert(b =~= seq![b[0]] + b.drop_first());
            }
        }
    } else if a.len() == 0 && b.len() == 0 {
        assert(a =~= b);
    }
}

/// Whether `a` orders before `b`.
pub fn str_less(a: &str, b: &str) -> (res: bool)
    ensures
        res == str_lt(a@, b@),
{
    let av = str_chars(a);
    let bv = str_chars(b);
    let mut i: usize = 0;
    assert(a@.skip(0) =~= a@);
    assert(b@.skip(0) =~= b@);
    while i < av.len() && i < bv.len() && av[i] == bv[i]
        invariant
            av@ == a@,
            bv@ == b@,
            i <= av.len(),
            i <= bv.len(),
            str_lt(a@, b@) == str_lt(a@.skip(i as int), b@.skip(i as int)),
        decreases av.len() - i,
    {
        assert(a@.skip(i as int).drop_first() =~= a@.skip(i + 1));
        assert(b@.skip(i as int).drop_first() =~= b@.skip(i + 1));
        i += 1;
    }
    if i == bv.len() {
        assert(b@.skip(i as int).len() == 0);
        false
    } else if i == av.len() {
        assert(a@.skip(i as int).len() == 0);
        true
    } else {
        assert(a@.skip(i as int)[0] == av@[i as int]);
        assert(b@.skip(i as int)[0] == bv@[i as int]);
        av[i] < bv[i]
    }
}

/// Ascending without repeats.
pub open spec fn strictly_sorted(v: Seq<Seq<char>>) -> bool {
    forall|i: int, j: int| 0 <= i < j < v.len() ==> str_lt(v[i], v[j])
}

/// The distinct strings of `v` in ascending order (the sorted keys of a map
/// holding them).
pub fn sorted_unique(v: &Vec<String>) -> (out: Vec<String>)
    ensures
        strictly_sorted(views(out@)),
        forall|x: Seq<char>| views(out@).contains(x) <==> views(v@).contains(x),
{
    let mut out: Vec<String> = Vec::new();
    let mut i: usize = 0;
    while i < v.len()
        invariant
            i <= v.len(),
            strictly_sorted(views(out@)),
            forall|x: Seq<char>| views(out@).contains(x) <==> views(v@).take(i as int).contains(x),
        decreases v.len() - i,
    {
        let x = &v[i];
        let mut p: usize = 0;
        while p < out.len() && str_less(out[p].as_str(), x.as_str())
            invariant
                p <= out.len(),
                forall|k: int| 0 <= k < p ==> str_lt(#[trigger] out@[k]@, x@),
            decreases out.len() - p,
        {
            p += 1;
        }
        let ghost o = views(out@);
        assert(forall|z: Seq<char>| #[trigger] o.contains(z) <==> views(v@).take(i as int).contains(z));
        let present = p < out.len() && str_eq(out[p].as_str(), x.as_str());
        if !present {
            proof {
                if p < out.len() {
                    lemma_str_lt_total(out@[p as int]@, x@);
                }
            }
            out.insert(p, x.clone());
            proof {
                assert(views(out@) =~= o.insert(p as int, x@));
                assert forall|a: int, b: int| 0 <= a < b < views(out@).len() implies str_lt(
                    views(out@)[a],
                    views(out@)[b],
                ) by {
                    if a < p && b == p {
                    } else if a < p && b > p {
                        assert(str_lt(o[a], o[b - 1]));
                    } else if a == p && b > p {
                        if b - 1 > p {
                            lemma_str_lt_transitive(x@, o[p as int], o[b - 1]);
                        }
                    } else if a > p {
                        assert(str_lt(o[a - 1], o[b - 1]));
                    } else {
                        assert(str_lt(o[a], o[b]));
                    }
                }
            }
        }
        proof {
            let t0 = views(v@).take(i as int);
            let t1 = views(v@).take(i + 1);
            assert(t1 =~= t0.push(x@));
            let n = views(out@);
            if present {
                assert(n == o);
                assert(o[p as int] == x@);
            } else {
                assert(n =~= o.insert(p as int, x@));
                assert(n[p as int] == x@);
            }
            assert forall|y: Seq<char>| n.contains(y) implies t1.contains(y) by {
                if y == x@ {
                    assert(t1[i as int] == y);
                } else {
                    let j = choose|j: int| 0 <= j < n.len() && #[trigger] n[j] == y;
                    if present {
                        assert(o[j] == y);
                    } else if j < p {
                        assert(o[j] == y);
                    } else {
                        assert(j != p);
                        assert(o[j - 1] == y);
                    }
                    assert(o.contains(y));
                    assert(t0.contains(y));
                    let q = choose|q: int| 0 <= q < t0.len() && #[trigger] t0[q] == y;
                    assert(t1[q] == y);
                }
            }
            assert forall|y: Seq<char>| t1.contains(y) implies n.contains(y) by {
                if y == x@ {
                    assert(n[p as int] == y);
                } else {
                    let q = choose|q: int| 0 <= q < t1.len() && #[trigger] t1[q] == y;
                    assert(t0[q] == y);
                    assert(o.contains(y));
                    let j = choose|j: int| 0 <= j < o.len() && #[trigger] o[j] == y;
                    if present {
                        assert(n[j] == y);
                    } else if j < p {
                        assert(n[j] == y);
                    } else {
                        assert(n[j + 1] == y);
                    }
                }
            }
        }
        i += 1;
    }
    assert(views(v@).take(v.len() as int) =~= views(v@));
    out
}

/// Whether `x` is one of the strings of `v`.
pub fn strings_contain(v: &Vec<String>, x: &str) -> (res: bool)
    ensures
        res == views(v@).contains(x@),
{
    let mut k: usize = 0;
    while k < v.len()
        invariant
            k <= v.len(),
            forall|j: int| 0 <= j < k ==> v@[j]@ != x@,
        decreases v.len() - k,
    {
        if str_eq(v[k].as_str(), x) {
            assert(views(v@)[k as int] == x@);
            return true;
        }
        k += 1;
    }
    false
}

/// Number of occurrences of `c` in `s`.
pub open spec fn count_char(s: Seq<char>, c: char) -> nat
    decreases s.len(),
{
    if s.len() == 0 {
        0
    } else {
        count_char(s.drop_last(), c) + if s.last() == c { 1nat } else { 0nat }
    }
}

/// Number of bytes UTF-8 takes for a character.
pub open spec fn utf8_width(c: char) -> nat {
    let u = c as u32;
    if u < 0x80 {
        1
    } else if u < 0x800 {
        2
    } else if u < 0x10000 {
        3
    } else {
        4
    }
}

/// Number of bytes of the UTF-8 encoding of a string.
pub open spec fn utf8_len(s: Seq<char>) -> nat
    decreases s.len(),
{
    if s.len() == 0 {
        0
    } else {
        utf8_len(s.drop_last()) + utf8_width(s.last())
    }
}

/// `str::len`: the length in bytes of the string's UTF-8 encoding.
#[verifier::external_body]
pub(crate) fn str_byte_len(s: &str) -> (n: usize)
    ensures
        n == utf8_len(s@),
{
    s.len()
}

} // verus!
