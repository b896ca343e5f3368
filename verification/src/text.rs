//! Character-level helpers shared by the query, preview and command-line code.
//!
//! Text is reasoned about as a `Seq<char>`, which is what the view of a
//! `String` or `&str` is.
use vstd::prelude::*;

verus! {

broadcast use vstd::string::group_string_axioms;

/// The Unicode `White_Space` property, which is what `char::is_whitespace`
/// and `str::trim` use.
pub open spec fn is_white_space(c: char) -> bool {
    let u = c as u32;
    ||| 0x9 <= u <= 0xD
    ||| u == 0x20
    ||| u == 0x85
    ||| u == 0xA0
    ||| u == 0x1680
    ||| 0x2000 <= u <= 0x200A
    ||| u == 0x2028
    ||| u == 0x2029
    ||| u == 0x202F
    ||| u == 0x205F
    ||| u == 0x3000
}

/// The Unicode general category `Cc`, which is what `char::is_control` tests.
pub open spec fn is_control(c: char) -> bool {
    let u = c as u32;
    u <= 0x1F || 0x7F <= u <= 0x9F
}

pub fn char_is_white_space(c: char) -> (r: bool)
    ensures
        r == is_white_space(c),
{
    let u = c as u32;
    (0x9 <= u && u <= 0xD) || u == 0x20 || u == 0x85 || u == 0xA0 || u == 0x1680 || (0x2000 <= u
        && u <= 0x200A) || u == 0x2028 || u == 0x2029 || u == 0x202F || u == 0x205F || u == 0x3000
}

pub fn char_is_control(c: char) -> (r: bool)
    ensures
        r == is_control(c),
{
    let u = c as u32;
    u <= 0x1F || (0x7F <= u && u <= 0x9F)
}

/// Number of leading white-space characters of `s`.
pub open spec fn leading_ws(s: Seq<char>) -> nat
    decreases s.len(),
{
    if s.len() > 0 && is_white_space(s[0]) {
        1 + leading_ws(s.drop_first())
    } else {
        0
    }
}

/// `s` without its trailing white space.
pub open spec fn trim_end(s: Seq<char>) -> Seq<char>
    decreases s.len(),
{
    if s.len() > 0 && is_white_space(s.last()) {
        trim_end(s.drop_last())
    } else {
        s
    }
}

/// `s` without its leading white space.
pub open spec fn trim_start(s: Seq<char>) -> Seq<char> {
    s.skip(leading_ws(s) as int)
}

/// `s` without leading and trailing white space, as `str::trim` returns it.
pub open spec fn trim(s: Seq<char>) -> Seq<char> {
    trim_end(trim_start(s))
}

/// Every character of `s` is white space.
pub open spec fn all_white_space(s: Seq<char>) -> bool {
    forall|i: int| 0 <= i < s.len() ==> is_white_space(#[trigger] s[i])
}

proof fn lemma_leading_ws_bound(s: Seq<char>)
    ensures
        leading_ws(s) <= s.len(),
        forall|i: int| 0 <= i < leading_ws(s) ==> is_white_space(#[trigger] s[i]),
        leading_ws(s) < s.len() ==> !is_white_space(s[leading_ws(s) as int]),
    decreases s.len(),
{
    if s.len() > 0 && is_white_space(s[0]) {
        lemma_leading_ws_bound(s.drop_first());
        assert forall|i: int| 0 <= i < leading_ws(s) implies is_white_space(#[trigger] s[i]) by {
            if i > 0 {
                assert(s[i] == s.drop_first()[i - 1]);
            }
        }
    }
}

proof fn lemma_leading_ws_from(s: Seq<char>, k: int)
    requires
        0 <= k <= s.len(),
        forall|i: int| 0 <= i < k ==> is_white_space(#[trigger] s[i]),
        k == s.len() || !is_white_space(s[k]),
    ensures
        leading_ws(s) == k,
    decreases s.len(),
{
    if k > 0 {
        assert(is_white_space(s[0]));
        let t = s.drop_first();
        assert forall|i: int| 0 <= i < k - 1 implies is_white_space(#[trigger] t[i]) by {
            assert(t[i] == s[i + 1]);
        }
        if k < s.len() {
            assert(t[k - 1] == s[k]);
        }
        lemma_leading_ws_from(t, k - 1);
    } else if s.len() > 0 {
        assert(!is_white_space(s[0]));
    }
}

proof fn lemma_trim_end_from(s: Seq<char>, k: int)
    requires
        0 <= k <= s.len(),
        forall|i: int| k <= i < s.len() ==> is_white_space(#[trigger] s[i]),
        k == 0 || !is_white_space(s[k - 1]),
    ensures
        trim_end(s) == s.take(k),
    decreases s.len(),
{
    if k < s.len() {
        assert(is_white_space(s.last()));
        let t = s.drop_last();
        assert forall|i: int| k <= i < t.len() implies is_white_space(#[trigger] t[i]) by {
            assert(t[i] == s[i]);
        }
        if k > 0 {
            assert(t[k - 1] == s[k - 1]);
        }
        lemma_trim_end_from(t, k);
        assert(t.take(k) =~= s.take(k));
    } else {
        assert(s.take(k) =~= s);
        if s.len() > 0 {
            assert(!is_white_space(s.last()));
        }
    }
}

/// Appends one character to a `String` (`String::push`).
#[verifier::external_body]
pub(crate) fn push_char(s: &mut String, c: char)
    ensures
        final(s)@ == old(s)@.push(c),
{
    s.push(c);
}

/// A `String` holding exactly the characters `v[from..to]`.
pub fn string_from_range(v: &Vec<char>, from: usize, to: usize) -> (s: String)
    requires
        from <= to <= v@.len(),
    ensures
        s@ == v@.subrange(from as int, to as int),
{
    let mut s = String::new();
    let mut i = from;
    while i < to
        invariant
            from <= i <= to <= v@.len(),
            s@ == v@.subrange(from as int, i as int),
        decreases to - i,
    {
        push_char(&mut s, v[i]);
        assert(v@.subrange(from as int, i + 1) =~= v@.subrange(from as int, i as int).push(v@[i as int]));
        i = i + 1;
    }
    s
}

/// A `String` holding exactly the characters of `v`.
pub fn string_from_chars(v: &Vec<char>) -> (s: String)
    ensures
        s@ == v@,
{
    let s = string_from_range(v, 0, v.len());
    assert(v@.subrange(0, v@.len() as int) =~= v@);
    s
}

/// The characters of `s`, in order.
pub fn chars_of(s: &str) -> (v: Vec<char>)
    ensures
        v@ == s@,
{
    let mut v: Vec<char> = Vec::new();
    for c in it: s.chars()
        invariant
            v@ == it.seq().take(it.index() as int),
            it.seq() == s@,
    {
        v.push(c);
    }
    v
}

/// `s` with leading and trailing white space removed (`str::trim`).
pub fn trim_chars(v: &Vec<char>) -> (r: String)
    ensures
        r@ == trim(v@),
{
    let n = v.len();
    let mut start: usize = 0;
    while start < n && char_is_white_space(v[start])
        invariant
            start <= n == v@.len(),
            forall|i: int| 0 <= i < start ==> is_white_space(#[trigger] v@[i]),
        decreases n - start,
    {
        start = start + 1;
    }
    proof {
        lemma_leading_ws_from(v@, start as int);
    }
    let mut end: usize = n;
    while end > start && char_is_white_space(v[end - 1])
        invariant
            start <= end <= n == v@.len(),
            forall|i: int| end <= i < n ==> is_white_space(#[trigger] v@[i]),
        decreases end,
    {
        end = end - 1;
    }
    proof {
        let t = v@.skip(start as int);
        let k = end - start;
        assert forall|i: int| k <= i < t.len() implies is_white_space(#[trigger] t[i]) by {
            assert(t[i] == v@[i + start]);
        }
        if k > 0 {
            assert(t[k - 1] == v@[end - 1]);
        }
        lemma_trim_end_from(t, k as int);
        assert(t.take(k as int) =~= v@.subrange(start as int, end as int));
    }
    string_from_range(v, start, end)
}

/// Lower-case form of a string, as `str::to_lowercase` computes it from the
/// Unicode lowercase mappings.
pub uninterp spec fn unicode_lowercase(s: Seq<char>) -> Seq<char>;

/// `s` with the ASCII letters `A` to `Z` turned into `a` to `z` and every
/// other character kept.
pub open spec fn ascii_lowercase(s: Seq<char>) -> Seq<char> {
    Seq::new(s.len(), |i: int| ascii_lower(s[i]) as char)
}

/// `str::to_lowercase`. Its result depends on the characters of `s` alone;
/// each character becomes one or more characters, so the result is never
/// shorter than `s` and is empty only for the empty string; on ASCII text
/// only `A` to `Z` change, into `a` to `z`. The Unicode case mappings of other
/// characters are not written out here.
#[verifier::external_body]
pub(crate) fn to_lowercase(s: &str) -> (r: String)
    ensures
        r@ == unicode_lowercase(s@),
        r@.len() >= s@.len(),
        s@.len() == 0 ==> r@.len() == 0,
        all_ascii(s@) ==> r@ == ascii_lowercase(s@),
{
    s.to_lowercase()
}

/// Code point of `c` with ASCII upper-case letters mapped to lower case.
pub open spec fn ascii_lower(c: char) -> u32 {
    let u = c as u32;
    if 65 <= u <= 90 {
        (u + 32) as u32
    } else {
        u
    }
}

/// Every character is ASCII.
pub open spec fn all_ascii(s: Seq<char>) -> bool {
    forall|i: int| 0 <= i < s.len() ==> (#[trigger] s[i] as u32) < 128
}

/// `a` and `b` are equal when ASCII letters are compared without case.
pub open spec fn eq_ignore_ascii_case(a: Seq<char>, b: Seq<char>) -> bool {
    &&& a.len() == b.len()
    &&& forall|i: int| 0 <= i < a.len() ==> ascii_lower(#[trigger] a[i]) == ascii_lower(b[i])
}

/// `needle` occurs in `haystack` at position `i`.
pub open spec fn occurs_at(haystack: Seq<char>, needle: Seq<char>, i: int) -> bool {
    0 <= i && i + needle.len() <= haystack.len() && haystack.subrange(i, i + needle.len())
        == needle
}

/// `needle` is a substring of `haystack`.
pub open spec fn contains_seq(haystack: Seq<char>, needle: Seq<char>) -> bool {
    exists|i: int| occurs_at(haystack, needle, i)
}

/// Some window of `haystack` equals `needle` ignoring ASCII case.
pub open spec fn contains_ignore_ascii_case(haystack: Seq<char>, needle: Seq<char>) -> bool {
    exists|i: int|
        0 <= i && i + needle.len() <= haystack.len() && #[trigger] eq_ignore_ascii_case(
            haystack.subrange(i, i + needle.len()),
            needle,
        )
}

fn char_ascii_lower(c: char) -> (r: u32)
    ensures
        r == ascii_lower(c),
{
    let u = c as u32;
    if 65 <= u && u <= 90 {
        u + 32
    } else {
        u
    }
}

pub fn is_ascii_chars(v: &Vec<char>) -> (r: bool)
    ensures
        r == all_ascii(v@),
{
    let mut i: usize = 0;
    while i < v.len()
        invariant
            i <= v@.len(),
            forall|j: int| 0 <= j < i ==> (#[trigger] v@[j] as u32) < 128,
        decreases v.len() - i,
    {
        if (v[i] as u32) >= 128 {
            return false;
        }
        i = i + 1;
    }
    true
}

fn window_matches_ignore_ascii_case(h: &Vec<char>, n: &Vec<char>, start: usize) -> (r: bool)
    requires
        start + n@.len() <= h@.len(),
    ensures
        r == eq_ignore_ascii_case(h@.subrange(start as int, start + n@.len()), n@),
{
    let ghost w = h@.subrange(start as int, start + n@.len());
    let mut j: usize = 0;
    while j < n.len()
        invariant
            start + n.len() <= h.len(),
            j <= n@.len(),
            w == h@.subrange(start as int, start + n@.len()),
            forall|k: int| 0 <= k < j ==> ascii_lower(#[trigger] w[k]) == ascii_lower(n@[k]),
        decreases n.len() - j,
    {
        assert(w[j as int] == h@[start + j]);
        if char_ascii_lower(h[start + j]) != char_ascii_lower(n[j]) {
            return false;
        }
        j = j + 1;
    }
    true
}

fn window_equals(h: &Vec<char>, n: &Vec<char>, start: usize) -> (r: bool)
    requires
        start + n@.len() <= h@.len(),
    ensures
        r == (h@.subrange(start as int, start + n@.len()) == n@),
{
    let ghost w = h@.subrange(start as int, start + n@.len());
    let mut j: usize = 0;
    while j < n.len()
        invariant
            start + n.len() <= h.len(),
            j <= n@.len(),
            w == h@.subrange(start as int, start + n@.len()),
            forall|k: int| 0 <= k < j ==> #[trigger] w[k] == n@[k],
        decreases n.len() - j,
    {
        assert(w[j as int] == h@[start + j]);
        if h[start + j] != n[j] {
            return false;
        }
        j = j + 1;
    }
    assert(w =~= n@);
    true
}

/// Whether `a` and `b` hold the same characters.
pub fn same_chars(a: &Vec<char>, b: &Vec<char>) -> (r: bool)
    ensures
        r == (a@ == b@),
{
    if a.len() != b.len() {
        return false;
    }
    let r = window_equals(a, b, 0);
    assert(a@.subrange(0, b@.len() as int) =~= a@);
    r
}

/// Whether some window of `h` equals `n` ignoring ASCII case
/// (`windows(..).any(eq_ignore_ascii_case)`).
pub fn contains_ignoring_ascii_case(h: &Vec<char>, n: &Vec<char>) -> (r: bool)
    requires
        n@.len() > 0,
    ensures
        r == contains_ignore_ascii_case(h@, n@),
{
    if n.len() > h.len() {
        return false;
    }
    let last = h.len() - n.len();
    let mut i: usize = 0;
    loop
        invariant
            last + n@.len() == h@.len(),
            i <= last,
            forall|k: int|
                0 <= k < i ==> !#[trigger] eq_ignore_ascii_case(
                    h@.subrange(k, k + n@.len()),
                    n@,
                ),
        decreases last - i,
    {
        if window_matches_ignore_ascii_case(h, n, i) {
            return true;
        }
        if i == last {
            return false;
        }
        i = i + 1;
    }
}

/// Whether `n` is a substring of `h` (`str::contains` with a string pattern).
pub fn contains_chars(h: &Vec<char>, n: &Vec<char>) -> (r: bool)
    ensures
        r == contains_seq(h@, n@),
{
    if n.len() > h.len() {
        return false;
    }
    let last = h.len() - n.len();
    let mut i: usize = 0;
    loop
        invariant
            last + n@.len() == h@.len(),
            i <= last,
            forall|k: int| 0 <= k < i ==> !#[trigger] occurs_at(h@, n@, k),
        decreases last - i,
    {
        if window_equals(h, n, i) {
            assert(occurs_at(h@, n@, i as int));
            return true;
        }
        if i == last {
            assert forall|k: int| !occurs_at(h@, n@, k) by {
                if 0 <= k && k + n@.len() <= h@.len() {
                    assert(k <= i);
                }
            }
            return false;
        }
        i = i + 1;
    }
}

/// Whether two strings hold the same characters.
pub fn str_equal(a: &str, b: &str) -> (equal: bool)
    ensures
        equal == (a@ == b@),
{
    let x = chars_of(a);
    let y = chars_of(b);
    same_chars(&x, &y)
}

/// Whether two strings are equal when ASCII letters are compared without case.
pub fn str_eq_ignore_ascii_case(a: &str, b: &str) -> (equal: bool)
    ensures
        equal == eq_ignore_ascii_case(a@, b@),
{
    let x = chars_of(a);
    let y = chars_of(b);
    if x.len() != y.len() {
        return false;
    }
    let r = window_matches_ignore_ascii_case(&x, &y, 0);
    assert(x@.subrange(0, y@.len() as int) =~= x@);
    r
}

/// Whether `haystack` contains the non-empty `needle` when ASCII letters
/// are compared without case.
pub fn str_contains_ignore_ascii_case(haystack: &str, needle: &str) -> (found: bool)
    requires
        needle@.len() > 0,
    ensures
        found == contains_ignore_ascii_case(haystack@, needle@),
{
    let h = chars_of(haystack);
    let n = chars_of(needle);
    contains_ignoring_ascii_case(&h, &n)
}

/// The decimal digit for `d`.
pub open spec fn digit_char(d: int) -> char {
    if d == 0 {
        '0'
    } else if d == 1 {
        '1'
    } else if d == 2 {
        '2'
    } else if d == 3 {
        '3'
    } else if d == 4 {
        '4'
    } else if d == 5 {
        '5'
    } else if d == 6 {
        '6'
    } else if d == 7 {
        '7'
    } else if d == 8 {
        '8'
    } else {
        '9'
    }
}

/// The decimal digits of `n`, most significant first, without leading zeros.
pub open spec fn digits_of(n: nat) -> Seq<char>
    decreases n,
{
    if n < 10 {
        seq![digit_char(n as int)]
    } else {
        digits_of(n / 10).push(digit_char((n % 10) as int))
    }
}

/// `value` written in decimal, with a leading minus sign when negative.
pub open spec fn decimal(value: int) -> Seq<char> {
    if value < 0 {
        seq!['-'] + digits_of((-value) as nat)
    } else {
        digits_of(value as nat)
    }
}

fn digit(d: u64) -> (c: char)
    requires
        d < 10,
    ensures
        c == digit_char(d as int),
{
    match d {
        0 => '0',
        1 => '1',
        2 => '2',
        3 => '3',
        4 => '4',
        5 => '5',
        6 => '6',
        7 => '7',
        8 => '8',
        _ => '9',
    }
}

fn push_digits(s: &mut String, n: u64)
    ensures
        final(s)@ == old(s)@ + digits_of(n as nat),
    decreases n,
{
    if n < 10 {
        push_char(s, digit(n));
        assert(old(s)@.push(digit_char(n as int)) =~= old(s)@ + seq![digit_char(n as int)]);
    } else {
        push_digits(s, n / 10);
        push_char(s, digit(n % 10));
        assert(old(s)@ + digits_of((n / 10) as nat).push(digit_char((n % 10) as int)) =~= old(
            s,
        )@ + digits_of((n / 10) as nat) + seq![digit_char((n % 10) as int)]);
    }
}

/// Appends `value` in decimal.
pub fn push_decimal(s: &mut String, value: i64)
    ensures
        final(s)@ == old(s)@ + decimal(value as int),
{
    if value < 0 {
        push_char(s, '-');
        let magnitude: u64 = if value == i64::MIN {
            9223372036854775808u64
        } else {
            (-value) as u64
        };
        push_digits(s, magnitude);
        assert(old(s)@.push('-') + digits_of(magnitude as nat) =~= old(s)@ + (seq!['-']
            + digits_of(magnitude as nat)));
    } else {
        push_digits(s, value as u64);
    }
}

/// Where the line starting at `i` ends: the next newline, or the end.
pub open spec fn line_end(s: Seq<char>, i: int) -> int
    decreases s.len() - i,
{
    if i >= s.len() || i < 0 {
        s.len() as int
    } else if s[i] == '\n' {
        i
    } else {
        line_end(s, i + 1)
    }
}

pub proof fn lemma_line_end(s: Seq<char>, i: int)
    requires
        0 <= i <= s.len(),
    ensures
        i <= line_end(s, i) <= s.len(),
        line_end(s, i) < s.len() ==> s[line_end(s, i)] == '\n',
        forall|k: int| i <= k < line_end(s, i) ==> s[k] != '\n',
    decreases s.len() - i,
{
    if i < s.len() && s[i] != '\n' {
        lemma_line_end(s, i + 1);
    }
}

pub fn line_end_exec(chars: &Vec<char>, start: usize) -> (end: usize)
    requires
        start <= chars@.len(),
    ensures
        end == line_end(chars@, start as int),
{
    let mut i = start;
    while i < chars.len() && chars[i] != '\n'
        invariant
            start <= i <= chars@.len(),
            line_end(chars@, start as int) == line_end(chars@, i as int),
        decreases chars.len() - i,
    {
        i = i + 1;
    }
    i
}

/// The lines of `s` as `str::lines` yields them, split at each newline; a
/// final newline ends the last line rather than starting an empty one. (A
/// carriage return before a newline is kept here; every use trims it.)
pub open spec fn text_lines(s: Seq<char>) -> Seq<Seq<char>>
    decreases s.len(),
{
    if s.len() == 0 {
        seq![]
    } else {
        let e = line_end(s, 0);
        proof {
            lemma_line_end(s, 0);
        }
        if e >= s.len() {
            seq![s]
        } else {
            seq![s.subrange(0, e)] + text_lines(s.skip(e + 1))
        }
    }
}

pub proof fn lemma_line_end_shift(s: Seq<char>, start: int, i: int)
    requires
        0 <= start <= s.len(),
        0 <= i <= s.len() - start,
    ensures
        line_end(s.skip(start), i) + start == line_end(s, start + i),
    decreases s.len() - start - i,
{
    let t = s.skip(start);
    if i < t.len() {
        assert(t[i] == s[start + i]);
        if t[i] != '\n' {
            lemma_line_end_shift(s, start, i + 1);
        }
    }
}

/// `trim_end` of `s` keeps exactly its first `k` characters when those end in
/// a character that is not white space and the rest is white space.
/// Lower-casing ASCII text twice is lower-casing it once, and keeps it ASCII.
pub proof fn lemma_ascii_lowercase_idempotent(s: Seq<char>)
    requires
        all_ascii(s),
    ensures
        all_ascii(ascii_lowercase(s)),
        ascii_lowercase(ascii_lowercase(s)) == ascii_lowercase(s),
{
    let l = ascii_lowercase(s);
    assert forall|i: int| 0 <= i < l.len() implies (#[trigger] l[i] as u32) < 128 by {
        assert((s[i] as u32) < 128);
    }
    assert(ascii_lowercase(l) =~= l);
}

/// On ASCII text, comparing without ASCII case against a needle that is
/// already lower case is searching the lower-cased text for it.
pub proof fn law_ascii_search_agrees_with_lowercasing(haystack: Seq<char>, needle: Seq<char>)
    requires
        all_ascii(haystack),
        all_ascii(needle),
        ascii_lowercase(needle) == needle,
    ensures
        contains_ignore_ascii_case(haystack, needle) == contains_seq(ascii_lowercase(haystack), needle),
{
    let l = ascii_lowercase(haystack);
    let n = needle.len();
    assert forall|i: int| 0 <= i && i + n <= haystack.len() implies #[trigger] eq_ignore_ascii_case(
        haystack.subrange(i, i + n),
        needle,
    ) == occurs_at(l, needle, i) by {
        let w = haystack.subrange(i, i + n);
        if eq_ignore_ascii_case(w, needle) {
            assert forall|k: int| 0 <= k < n implies l.subrange(i, i + n)[k] == needle[k] by {
                assert(w[k] == haystack[i + k]);
                assert(ascii_lower(w[k]) == ascii_lower(needle[k]));
                assert(needle[k] == ascii_lowercase(needle)[k]);
                assert((needle[k] as u32) < 128 && (haystack[i + k] as u32) < 128);
            }
            assert(l.subrange(i, i + n) =~= needle);
        }
        if occurs_at(l, needle, i) {
            assert forall|k: int| 0 <= k < n implies ascii_lower(#[trigger] w[k]) == ascii_lower(
                needle[k],
            ) by {
                assert(w[k] == haystack[i + k]);
                assert(l.subrange(i, i + n)[k] == l[i + k]);
                assert(needle[k] == ascii_lowercase(needle)[k]);
                assert((needle[k] as u32) < 128 && (haystack[i + k] as u32) < 128);
            }
        }
    }
    if contains_seq(l, needle) {
        let i = choose|i: int| occurs_at(l, needle, i);
        assert(eq_ignore_ascii_case(haystack.subrange(i, i + n), needle));
    }
}

proof fn lemma_trim_end_shape(s: Seq<char>)
    ensures
        trim_end(s).len() <= s.len(),
        trim_end(s) == s.take(trim_end(s).len() as int),
        trim_end(s).len() > 0 ==> !is_white_space(trim_end(s).last()),
    decreases s.len(),
{
    if s.len() > 0 && is_white_space(s.last()) {
        let t = s.drop_last();
        lemma_trim_end_shape(t);
        assert(t.take(trim_end(t).len() as int) =~= s.take(trim_end(t).len() as int));
    } else {
        assert(s.take(s.len() as int) =~= s);
    }
}

/// Trimming twice is trimming once.
pub proof fn lemma_trim_idempotent(s: Seq<char>)
    ensures
        trim(trim(s)) == trim(s),
{
    let u = trim_start(s);
    lemma_leading_ws_bound(s);
    let t = trim(s);
    lemma_trim_end_shape(u);
    if t.len() > 0 {
        assert(u.len() > 0);
        assert(u[0] == s[leading_ws(s) as int]);
        assert(t[0] == u[0]);
    }
    lemma_leading_ws_from(t, 0);
    assert(trim_start(t) =~= t);
    lemma_trim_end_from(t, t.len() as int);
    assert(t.take(t.len() as int) =~= t);
}

pub proof fn lemma_trim_end_at(s: Seq<char>, k: int)
    requires
        0 <= k <= s.len(),
        forall|i: int| k <= i < s.len() ==> is_white_space(#[trigger] s[i]),
        k == 0 || !is_white_space(s[k - 1]),
    ensures
        trim_end(s) == s.take(k),
{
    lemma_trim_end_from(s, k);
}

} // verus!
