//! Text helpers: whitespace trimming, UTF-8 length, decimal rendering.

use vstd::prelude::*;

verus! {

/// Appends one character to a string.
///
/// Calls `String::push`, which std documents as appending the given `char`
/// to the end of the string.
#[verifier::external_body]
pub(crate) fn push_char(s: &mut String, c: char)
    ensures
        final(s)@ == old(s)@.push(c),
{
    s.push(c);
}

/// The Unicode `White_Space` characters (what `char::is_whitespace` accepts).
pub open spec fn is_white_space(c: char) -> bool {
    ||| ('\u{9}' <= c && c <= '\u{D}')
    ||| c == ' '
    ||| c == '\u{85}'
    ||| c == '\u{A0}'
    ||| c == '\u{1680}'
    ||| ('\u{2000}' <= c && c <= '\u{200A}')
    ||| c == '\u{2028}'
    ||| c == '\u{2029}'
    ||| c == '\u{202F}'
    ||| c == '\u{205F}'
    ||| c == '\u{3000}'
}

/// Whether a character is Unicode white space.
pub fn white_space(c: char) -> (b: bool)
    ensures
        b == is_white_space(c),
{
    ('\u{9}' <= c && c <= '\u{D}') || c == ' ' || c == '\u{85}' || c == '\u{A0}'
        || c == '\u{1680}' || ('\u{2000}' <= c && c <= '\u{200A}') || c == '\u{2028}'
        || c == '\u{2029}' || c == '\u{202F}' || c == '\u{205F}' || c == '\u{3000}'
}

/// Text with leading white space removed.
pub open spec fn trim_start(s: Seq<char>) -> Seq<char>
    decreases s.len(),
{
    if s.len() > 0 && is_white_space(s[0]) {
        trim_start(s.drop_first())
    } else {
        s
    }
}

/// Text with trailing white space removed.
pub open spec fn trim_end(s: Seq<char>) -> Seq<char>
    decreases s.len(),
{
    if s.len() > 0 && is_white_space(s.last()) {
        trim_end(s.drop_last())
    } else {
        s
    }
}

/// Text with leading and trailing white space removed (`str::trim`).
pub open spec fn trim_spec(s: Seq<char>) -> Seq<char> {
    trim_end(trim_start(s))
}

/// Number of bytes that UTF-8 uses for a character (`char::len_utf8`).
pub open spec fn char_width(c: char) -> nat {
    if (c as u32) < 0x80 {
        1
    } else if (c as u32) < 0x800 {
        2
    } else if (c as u32) < 0x10000 {
        3
    } else {
        4
    }
}

/// Length in bytes of the UTF-8 encoding of a text (what `str::len` returns).
pub open spec fn byte_len(s: Seq<char>) -> nat
    decreases s.len(),
{
    if s.len() == 0 {
        0
    } else {
        byte_len(s.drop_last()) + char_width(s.last())
    }
}

proof fn lemma_trim_start_skip(s: Seq<char>, i: int)
    requires
        0 <= i <= s.len(),
        forall|j: int| 0 <= j < i ==> is_white_space(#[trigger] s[j]),
    ensures
        trim_start(s) == trim_start(s.subrange(i, s.len() as int)),
    decreases i,
{
    if i > 0 {
        assert(is_white_space(s[0]));
        let t = s.drop_first();
        assert forall|j: int| 0 <= j < i - 1 implies is_white_space(#[trigger] t[j]) by {
            assert(t[j] == s[j + 1]);
        }
        lemma_trim_start_skip(t, i - 1);
        assert(t.subrange(i - 1, t.len() as int) =~= s.subrange(i, s.len() as int));
    } else {
        assert(s.subrange(0, s.len() as int) =~= s);
    }
}

proof fn lemma_trim_end_skip(s: Seq<char>, e: int)
    requires
        0 <= e <= s.len(),
        forall|j: int| e <= j < s.len() ==> is_white_space(#[trigger] s[j]),
    ensures
        trim_end(s) == trim_end(s.subrange(0, e)),
    decreases s.len() - e,
{
    if e < s.len() {
        assert(is_white_space(s.last()));
        let t = s.drop_last();
        assert forall|j: int| e <= j < t.len() implies is_white_space(#[trigger] t[j]) by {
            assert(t[j] == s[j]);
        }
        lemma_trim_end_skip(t, e);
        assert(t.subrange(0, e) =~= s.subrange(0, e));
    } else {
        assert(s.subrange(0, e) =~= s);
    }
}

/// Removes leading and trailing white space.
pub fn trim(s: &str) -> (r: String)
    ensures
        r@ == trim_spec(s@),
{
    let n = s.unicode_len();
    let mut start: usize = 0;
    while start < n && white_space(s.get_char(start))
        invariant
            n == s@.len(),
            start <= n,
            forall|j: int| 0 <= j < start ==> is_white_space(#[trigger] s@[j]),
        decreases n - start,
    {
        start = start + 1;
    }
    proof {
        lemma_trim_start_skip(s@, start as int);
    }
    let ghost rest = s@.subrange(start as int, n as int);
    assert(start == n || !is_white_space(rest[0]));
    assert(trim_start(rest) == rest);
    let mut end: usize = n;
    while end > start && white_space(s.get_char(end - 1))
        invariant
            n == s@.len(),
            start <= end <= n,
            forall|j: int| end <= j < n ==> is_white_space(#[trigger] s@[j]),
        decreases end,
    {
        end = end - 1;
    }
    proof {
        let k = (end - start) as int;
        assert forall|j: int| k <= j < rest.len() implies is_white_space(#[trigger] rest[j]) by {
            assert(rest[j] == s@[j + start]);
        }
        lemma_trim_end_skip(rest, k);
        let core = rest.subrange(0, k);
        assert(core =~= s@.subrange(start as int, end as int));
        if core.len() > 0 {
            assert(core.last() == s@[end - 1]);
        }
        assert(trim_end(core) == core);
    }
    s.substring_char(start, end).to_owned()
}

/// Length in bytes of a string's UTF-8 encoding.
pub fn utf8_len(s: &String) -> (n: u128)
    ensures
        n == byte_len(s@),
{
    let t = s.as_str();
    let len = t.unicode_len();
    let mut i: usize = 0;
    let mut n: u128 = 0;
    while i < len
        invariant
            len == t@.len(),
            t@ == s@,
            i <= len,
            n == byte_len(t@.subrange(0, i as int)),
            n <= 4 * i,
        decreases len - i,
    {
        let c = t.get_char(i);
        let w: u128 = if (c as u32) < 0x80 {
            1
        } else if (c as u32) < 0x800 {
            2
        } else if (c as u32) < 0x10000 {
            3
        } else {
            4
        };
        proof {
            assert(t@.subrange(0, i + 1).drop_last() =~= t@.subrange(0, i as int));
        }
        n = n + w;
        i = i + 1;
    }
    assert(t@.subrange(0, len as int) =~= t@);
    n
}

/// The decimal digit character for `d < 10`.
pub open spec fn digit_char(d: nat) -> char {
    if d == 0 { '0' }
    else if d == 1 { '1' }
    else if d == 2 { '2' }
    else if d == 3 { '3' }
    else if d == 4 { '4' }
    else if d == 5 { '5' }
    else if d == 6 { '6' }
    else if d == 7 { '7' }
    else if d == 8 { '8' }
    else { '9' }
}

/// Decimal rendering of a natural number, without leading zeros.
pub open spec fn decimal(n: nat) -> Seq<char>
    decreases n,
{
    if n < 10 {
        seq![digit_char(n)]
    } else {
        decimal(n / 10).push(digit_char(n % 10))
    }
}

fn digit(d: usize) -> (c: char)
    requires
        d < 10,
    ensures
        c == digit_char(d as nat),
{
    if d == 0 { '0' }
    else if d == 1 { '1' }
    else if d == 2 { '2' }
    else if d == 3 { '3' }
    else if d == 4 { '4' }
    else if d == 5 { '5' }
    else if d == 6 { '6' }
    else if d == 7 { '7' }
    else if d == 8 { '8' }
    else { '9' }
}

/// Appends the decimal rendering of `n`.
pub fn push_decimal(s: &mut String, n: u128)
    ensures
        final(s)@ == old(s)@ + decimal(n as nat),
    decreases n,
{
    if n >= 10 {
        push_decimal(s, n / 10);
        push_char(s, digit((n % 10) as usize));
        assert(old(s)@ + decimal(n as nat) =~= old(s)@ + decimal((n / 10) as nat) + seq![digit_char((n % 10) as nat)]);
    } else {
        push_char(s, digit(n as usize));
        assert(decimal(n as nat) =~= seq![digit_char(n as nat)]);
    }
}

/// Decimal rendering of an integer, with a leading `-` when negative.
pub open spec fn signed_decimal(i: int) -> Seq<char> {
    if i < 0 {
        seq!['-'] + decimal((-i) as nat)
    } else {
        decimal(i as nat)
    }
}

/// Appends the decimal rendering of a signed number.
pub fn push_signed_decimal(s: &mut String, i: i64)
    ensures
        final(s)@ == old(s)@ + signed_decimal(i as int),
{
    if i < 0 {
        push_char(s, '-');
        let magnitude: i128 = -(i as i128);
        push_decimal(s, magnitude as u128);
        assert(old(s)@ + signed_decimal(i as int) =~= old(s)@.push('-') + decimal((-i) as nat));
    } else {
        push_decimal(s, i as u128);
    }
}

/// Appends a string slice.
pub fn push_str(s: &mut String, t: &str)
    ensures
        final(s)@ == old(s)@ + t@,
{
    s.append(t);
}

} // verus!

verus! {

/// A copy of an optional string.
pub fn copy_opt_text(o: &Option<String>) -> (r: Option<String>)
    ensures
        r is Some == o is Some,
        r is Some ==> r->0@ == o->0@,
{
    match o {
        Some(s) => Some(s.clone()),
        None => None,
    }
}

/// A copy of a list of strings.
pub fn copy_texts(v: &Vec<String>) -> (r: Vec<String>)
    ensures
        r@.len() == v@.len(),
        forall|i: int| 0 <= i < v@.len() ==> #[trigger] r@[i]@ == v@[i]@,
{
    let mut r: Vec<String> = Vec::new();
    let mut i: usize = 0;
    while i < v.len()
        invariant
            i <= v@.len(),
            r@.len() == i,
            forall|j: int| 0 <= j < i ==> #[trigger] r@[j]@ == v@[j]@,
        decreases v@.len() - i,
    {
        r.push(v[i].clone());
        i = i + 1;
    }
    r
}

/// A string holding the given text.
pub fn text_of(s: &str) -> (r: String)
    ensures
        r@ == s@,
{
    s.to_owned()
}

} // verus!

verus! {

/// Whether `needle` occurs in `hay` starting at `i`.
pub open spec fn occurs_at(hay: Seq<char>, needle: Seq<char>, i: int) -> bool {
    0 <= i && i + needle.len() <= hay.len() && hay.subrange(i, i + needle.len()) == needle
}

/// Whether `needle` occurs in `hay` (`str::contains`).
pub open spec fn contains_text(hay: Seq<char>, needle: Seq<char>) -> bool {
    exists|i: int| occurs_at(hay, needle, i)
}

/// Whether `needle` occurs in `hay`.
pub fn text_contains(hay: &str, needle: &str) -> (b: bool)
    ensures
        b == contains_text(hay@, needle@),
{
    let n = hay.unicode_len();
    let m = needle.unicode_len();
    if m > n {
        assert forall|i: int| !occurs_at(hay@, needle@, i) by {}
        return false;
    }
    let mut i: usize = 0;
    while i <= n - m
        invariant
            n == hay@.len(),
            m == needle@.len(),
            m <= n,
            i <= n - m + 1,
            forall|k: int| 0 <= k < i ==> !occurs_at(hay@, needle@, k),
        decreases n - m + 1 - i,
    {
        let mut j: usize = 0;
        let mut same = true;
        while j < m
            invariant
                n == hay@.len(),
                m == needle@.len(),
                i + m <= n,
                j <= m,
                same ==> forall|k: int| 0 <= k < j ==> hay@[i + k] == needle@[k],
                !same ==> exists|k: int| 0 <= k < m && hay@[i + k] != needle@[k],
            decreases m - j,
        {
            if same && hay.get_char(i + j) != needle.get_char(j) {
                same = false;
            }
            j = j + 1;
        }
        if same {
            assert(hay@.subrange(i as int, i + m) =~= needle@);
            assert(occurs_at(hay@, needle@, i as int));
            return true;
        }
        proof {
            let k = choose|k: int| 0 <= k < m && hay@[i + k] != needle@[k];
            assert(hay@.subrange(i as int, i + m)[k] != needle@[k]);
        }
        i = i + 1;
    }
    assert forall|k: int| !occurs_at(hay@, needle@, k) by {
        if 0 <= k && k + m <= n {
            assert(k < i);
        }
    }
    false
}

/// Whether a character is an ASCII digit.
pub open spec fn is_digit(c: char) -> bool {
    '0' <= c && c <= '9'
}

/// The value of a run of ASCII digits.
pub open spec fn digits_value(t: Seq<char>) -> nat
    decreases t.len(),
{
    if t.len() == 0 {
        0
    } else {
        digits_value(t.drop_last()) * 10 + ((t.last() as u32) - ('0' as u32)) as nat
    }
}

/// A token without its leading `+`, if it has one.
pub open spec fn unsigned_part(t: Seq<char>) -> Seq<char> {
    if t.len() > 0 && t[0] == '+' { t.drop_first() } else { t }
}

/// Whether every character is an ASCII digit.
pub open spec fn all_digits(d: Seq<char>) -> bool {
    forall|i: int| 0 <= i < d.len() ==> is_digit(#[trigger] d[i])
}

/// What `str::parse::<u64>` gives for a token: an optional `+` followed by
/// one or more ASCII digits whose value fits in 64 bits.
pub open spec fn parse_u64_spec(t: Seq<char>) -> Option<u64> {
    let d = unsigned_part(t);
    if d.len() > 0 && all_digits(d) && digits_value(d) <= u64::MAX {
        Some(digits_value(d) as u64)
    } else {
        None
    }
}

/// Where the token starting at `i` ends (the next white space, or the end).
pub open spec fn token_end(s: Seq<char>, i: int) -> int
    decreases s.len() - i,
{
    if i < 0 || i >= s.len() {
        s.len() as int
    } else if is_white_space(s[i]) {
        i
    } else {
        token_end(s, i + 1)
    }
}

/// The first white-space separated token at or after `i` that parses as a
/// `u64`.
pub open spec fn first_number_from(s: Seq<char>, i: int) -> Option<u64>
    decreases s.len() - i, 1int,
{
    if i < 0 || i >= s.len() {
        None
    } else if is_white_space(s[i]) {
        first_number_from(s, i + 1)
    } else {
        proof { lemma_token_end_bounds(s, i); }
        match parse_u64_spec(s.subrange(i, token_end(s, i))) {
            Some(v) => Some(v),
            None => first_number_from(s, token_end(s, i)),
        }
    }
}

pub proof fn lemma_token_end_bounds(s: Seq<char>, i: int)
    requires
        0 <= i < s.len(),
        !is_white_space(s[i]),
    ensures
        i < token_end(s, i) <= s.len(),
    decreases s.len() - i,
{
    if i + 1 < s.len() && !is_white_space(s[i + 1]) {
        lemma_token_end_bounds(s, i + 1);
    } else {
        assert(token_end(s, i + 1) == i + 1);
    }
}

proof fn lemma_token_end_scan(s: Seq<char>, i: int, j: int)
    requires
        0 <= i <= j <= s.len(),
        forall|k: int| i <= k < j ==> !is_white_space(#[trigger] s[k]),
        j == s.len() || is_white_space(s[j]),
    ensures
        token_end(s, i) == j,
    decreases j - i,
{
    if i < j {
        lemma_token_end_scan(s, i + 1, j);
    }
}

/// Parses a token as `str::parse::<u64>` does.
pub fn parse_u64(t: &str) -> (r: Option<u64>)
    ensures
        r == parse_u64_spec(t@),
{
    let n = t.unicode_len();
    let mut start: usize = 0;
    if n > 0 && t.get_char(0) == '+' {
        start = 1;
    }
    let ghost d = unsigned_part(t@);
    assert(d =~= t@.subrange(start as int, n as int));
    if start >= n {
        return None;
    }
    let mut i: usize = start;
    while i < n
        invariant
            n == t@.len(),
            start <= i <= n,
            d == t@.subrange(start as int, n as int),
            d == unsigned_part(t@),
            forall|k: int| start <= k < i ==> is_digit(#[trigger] t@[k]),
        decreases n - i,
    {
        let c = t.get_char(i);
        if !('0' <= c && c <= '9') {
            assert(!is_digit(d[i - start]));
            assert(!all_digits(d));
            return None;
        }
        i = i + 1;
    }
    assert(forall|k: int| 0 <= k < d.len() ==> is_digit(#[trigger] d[k])) by {
        assert forall|k: int| 0 <= k < d.len() implies is_digit(#[trigger] d[k]) by {
            assert(d[k] == t@[k + start]);
        }
    }
    let mut v: u64 = 0;
    i = start;
    while i < n
        invariant
            n == t@.len(),
            start <= i <= n,
            d == t@.subrange(start as int, n as int),
            d == unsigned_part(t@),
            forall|k: int| 0 <= k < d.len() ==> is_digit(#[trigger] d[k]),
            v == digits_value(t@.subrange(start as int, i as int)),
        decreases n - i,
    {
        let c = t.get_char(i);
        assert(c == d[i - start]);
        let dv: u64 = ((c as u32) - ('0' as u32)) as u64;
        proof {
            assert(t@.subrange(start as int, i + 1).drop_last() =~= t@.subrange(start as int, i as int));
        }
        if v > (u64::MAX - dv) / 10 {
            proof {
                assert(digits_value(t@.subrange(start as int, i + 1)) > u64::MAX) by (nonlinear_arith)
                    requires
                        v > (u64::MAX - dv) / 10,
                        digits_value(t@.subrange(start as int, i + 1)) == v * 10 + dv,
                        dv <= 9;
                lemma_digits_value_prefix_bound(d, (i + 1 - start) as int);
                assert(d.subrange(0, (i + 1 - start) as int) =~= t@.subrange(start as int, i + 1));
                assert(digits_value(d) > u64::MAX);
            }
            return None;
        }
        assert(v * 10 + dv <= u64::MAX) by (nonlinear_arith)
            requires
                v <= (u64::MAX - dv) / 10,
                dv <= 9;
        v = v * 10 + dv;
        i = i + 1;
    }
    assert(t@.subrange(start as int, n as int) =~= d);
    Some(v)
}

/// A digit run is worth at least any of its prefixes.
proof fn lemma_digits_value_prefix_bound(d: Seq<char>, k: int)
    requires
        0 <= k <= d.len(),
        forall|i: int| 0 <= i < d.len() ==> is_digit(#[trigger] d[i]),
    ensures
        digits_value(d) >= digits_value(d.subrange(0, k)),
    decreases d.len() - k,
{
    if k < d.len() {
        lemma_digits_value_prefix_bound(d, k + 1);
        assert(d.subrange(0, k + 1).drop_last() =~= d.subrange(0, k));
        let x = digits_value(d.subrange(0, k));
        assert(digits_value(d.subrange(0, k + 1)) >= x) by (nonlinear_arith)
            requires
                digits_value(d.subrange(0, k + 1)) >= x * 10;
    } else {
        assert(d.subrange(0, k) =~= d);
    }
}

/// The first white-space separated token of `s` that parses as a `u64`.
pub fn first_number(s: &str) -> (r: Option<u64>)
    ensures
        r == first_number_from(s@, 0),
{
    let n = s.unicode_len();
    let mut i: usize = 0;
    while i < n
        invariant
            n == s@.len(),
            i <= n,
            first_number_from(s@, 0) == first_number_from(s@, i as int),
        decreases n - i,
    {
        if white_space(s.get_char(i)) {
            i = i + 1;
        } else {
            let mut j: usize = i + 1;
            while j < n && !white_space(s.get_char(j))
                invariant
                    n == s@.len(),
                    i < j <= n,
                    forall|k: int| i <= k < j ==> !is_white_space(#[trigger] s@[k]),
                decreases n - j,
            {
                j = j + 1;
            }
            proof { lemma_token_end_scan(s@, i as int, j as int); }
            let tok = s.substring_char(i, j);
            match parse_u64(tok) {
                Some(v) => return Some(v),
                None => {},
            }
            i = j;
        }
    }
    None
}

/// Where the line starting at `i` ends: the next `\n`, or the end.
pub open spec fn newline_from(s: Seq<char>, i: int) -> int
    decreases s.len() - i,
{
    if i < 0 || i >= s.len() {
        s.len() as int
    } else if s[i] == '\n' {
        i
    } else {
        newline_from(s, i + 1)
    }
}

/// A line without the `\r` of a `\r\n` ending.
pub open spec fn strip_cr(l: Seq<char>) -> Seq<char> {
    if l.len() > 0 && l.last() == '\r' {
        l.drop_last()
    } else {
        l
    }
}

/// The lines of `s` from position `i`, as `str::lines` splits them: at
/// `\n` or `\r\n`; a last line without ending counts when not empty.
pub open spec fn lines_from(s: Seq<char>, i: int) -> Seq<Seq<char>>
    decreases s.len() - i,
{
    if i < 0 || i >= s.len() {
        Seq::empty()
    } else {
        let j = newline_from(s, i);
        if j >= s.len() {
            seq![s.subrange(i, s.len() as int)]
        } else {
            proof { lemma_newline_bounds(s, i); }
            seq![strip_cr(s.subrange(i, j))] + lines_from(s, j + 1)
        }
    }
}

/// The line end is at or after the start and at most the end.
pub proof fn lemma_newline_bounds(s: Seq<char>, i: int)
    requires
        0 <= i <= s.len(),
    ensures
        i <= newline_from(s, i) <= s.len(),
        forall|k: int| i <= k < newline_from(s, i) ==> s[k] != '\n',
        newline_from(s, i) < s.len() ==> s[newline_from(s, i)] == '\n',
    decreases s.len() - i,
{
    if i < s.len() && s[i] != '\n' {
        lemma_newline_bounds(s, i + 1);
    }
}

/// Splits text into lines as `str::lines` does.
pub fn text_lines(text: &str) -> (r: Vec<String>)
    ensures
        r@.map_values(|l: String| l@) == lines_from(text@, 0),
{
    let n = text.unicode_len();
    let mut r: Vec<String> = Vec::new();
    let mut i: usize = 0;
    let ghost s = text@;
    while i < n
        invariant
            n == s.len(),
            s == text@,
            i <= n,
            r@.map_values(|l: String| l@) + lines_from(s, i as int) == lines_from(s, 0),
        decreases n - i,
    {
        let mut j: usize = i;
        while j < n && text.get_char(j) != '\n'
            invariant
                i <= j <= n,
                n == s.len(),
                s == text@,
                forall|k: int| i <= k < j ==> s[k] != '\n',
            decreases n - j,
        {
            j = j + 1;
        }
        proof {
            lemma_newline_scan(s, i as int, j as int);
        }
        let ghost before = r@;
        if j >= n {
            let line = text.substring_char(i, n);
            r.push(text_of(line));
            proof {
                assert(r@.map_values(|l: String| l@) =~= before.map_values(|l: String| l@).push(s.subrange(i as int, n as int)));
                assert(lines_from(s, n as int) =~= Seq::<Seq<char>>::empty());
                assert(r@.map_values(|l: String| l@) + lines_from(s, n as int) =~= before.map_values(|l: String| l@) + lines_from(s, i as int));
            }
            i = n;
        } else {
            let end = if j > i && text.get_char(j - 1) == '\r' { j - 1 } else { j };
            let line = text.substring_char(i, end);
            r.push(text_of(line));
            proof {
                assert(s.subrange(i as int, end as int) =~= strip_cr(s.subrange(i as int, j as int)));
                assert(r@.map_values(|l: String| l@) =~= before.map_values(|l: String| l@).push(strip_cr(s.subrange(i as int, j as int))));
                assert(r@.map_values(|l: String| l@) + lines_from(s, j + 1) =~= before.map_values(|l: String| l@) + lines_from(s, i as int));
            }
            i = j + 1;
        }
    }
    proof {
        assert(lines_from(s, i as int) =~= Seq::<Seq<char>>::empty());
        assert(r@.map_values(|l: String| l@) + Seq::<Seq<char>>::empty() =~= r@.map_values(|l: String| l@));
    }
    r
}

proof fn lemma_newline_scan(s: Seq<char>, i: int, j: int)
    requires
        0 <= i <= j <= s.len(),
        forall|k: int| i <= k < j ==> s[k] != '\n',
        j == s.len() || s[j] == '\n',
    ensures
        newline_from(s, i) == j,
    decreases j - i,
{
    if i < j {
        lemma_newline_scan(s, i + 1, j);
    }
}

} // verus!
