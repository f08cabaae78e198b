//! Decimal and hexadecimal rendering of integers into strings, with the
//! spec functions that say which characters come out.

use vstd::prelude::*;

verus! {

/// The character of the decimal digit `d` (0..=9).
pub open spec fn digit_char(d: int) -> char {
    ((48 + d) as u32) as char
}

/// The decimal digits of `n`, most significant first, without leading zeros.
pub open spec fn decimal(n: nat) -> Seq<char>
    decreases n,
{
    if n < 10 {
        seq![digit_char(n as int)]
    } else {
        decimal(n / 10).push(digit_char((n % 10) as int))
    }
}

/// `k` zero characters.
pub open spec fn zeros(k: nat) -> Seq<char> {
    Seq::new(k, |i: int| '0')
}

/// `s` padded on the left with zeros to at least `width` characters.
pub open spec fn pad_zeros(s: Seq<char>, width: nat) -> Seq<char> {
    if s.len() >= width {
        s
    } else {
        zeros((width - s.len()) as nat) + s
    }
}

/// The decimal text of `v` with a leading `-` when negative, zero-padded
/// after the sign so that the whole text has at least `width` characters.
pub open spec fn signed_padded(v: int, width: nat) -> Seq<char> {
    if v < 0 {
        seq!['-'] + pad_zeros(decimal((-v) as nat), if width >= 1 { (width - 1) as nat } else { 0 })
    } else {
        pad_zeros(decimal(v as nat), width)
    }
}

/// The decimal text of `v`, with a leading `-` when negative.
pub open spec fn signed_decimal(v: int) -> Seq<char> {
    signed_padded(v, 0)
}

/// The lowercase hexadecimal digit for `d` (0..=15).
pub open spec fn hex_digit_char(d: int) -> char {
    if d < 10 {
        digit_char(d)
    } else {
        ((87 + d) as u32) as char
    }
}

/// The lowest `k` hexadecimal digits of `n`, most significant first.
pub open spec fn hex_digits(n: nat, k: nat) -> Seq<char>
    decreases k,
{
    if k == 0 {
        Seq::empty()
    } else {
        hex_digits(n / 16, (k - 1) as nat).push(hex_digit_char((n % 16) as int))
    }
}

/// Appends one character to a string (`String::push`).
#[verifier::external_body]
pub(crate) fn push_char(s: &mut String, c: char)
    ensures
        final(s)@ == old(s)@.push(c),
{
    s.push(c)
}

/// The character of a decimal digit.
pub fn digit(d: u64) -> (c: char)
    requires
        d < 10,
    ensures
        c == digit_char(d as int),
{
    let b: u8 = 48u8 + (d as u8);
    b as char
}

/// The character of a lowercase hexadecimal digit.
pub fn hex_digit(d: u64) -> (c: char)
    requires
        d < 16,
    ensures
        c == hex_digit_char(d as int),
{
    if d < 10 {
        digit(d)
    } else {
        let b: u8 = 87u8 + (d as u8);
        b as char
    }
}

/// Appends the decimal digits of `n`.
pub fn push_decimal(s: &mut String, n: u64)
    ensures
        final(s)@ == old(s)@ + decimal(n as nat),
    decreases n,
{
    if n >= 10 {
        push_decimal(s, n / 10);
        push_char(s, digit(n % 10));
        proof {
            assert(decimal(n as nat) == decimal((n / 10) as nat).push(digit_char((n % 10) as int)));
        }
    } else {
        push_char(s, digit(n));
    }
}

/// Appends the decimal digits of a wide number `n`.
pub fn push_decimal_wide(s: &mut String, n: u128)
    ensures
        final(s)@ == old(s)@ + decimal(n as nat),
    decreases n,
{
    if n >= 10 {
        push_decimal_wide(s, n / 10);
        push_char(s, digit((n % 10) as u64));
        proof {
            assert(decimal(n as nat) == decimal((n / 10) as nat).push(digit_char((n % 10) as int)));
        }
    } else {
        push_char(s, digit(n as u64));
    }
}

/// The decimal text of `n`.
pub fn decimal_string(n: u64) -> (r: String)
    ensures
        r@ == decimal(n as nat),
{
    let mut s = String::new();
    push_decimal(&mut s, n);
    s
}

/// Appends `k` zero characters.
pub fn push_zeros(s: &mut String, k: usize)
    ensures
        final(s)@ == old(s)@ + zeros(k as nat),
{
    let mut i: usize = 0;
    while i < k
        invariant
            i <= k,
            s@ == old(s)@ + zeros(i as nat),
        decreases k - i,
    {
        push_char(s, '0');
        i = i + 1;
        assert(s@ =~= old(s)@ + zeros(i as nat));
    }
}

/// Appends the decimal digits of `n`, zero-padded on the left to `width`.
pub fn push_zero_padded(s: &mut String, n: u64, width: usize)
    ensures
        final(s)@ == old(s)@ + pad_zeros(decimal(n as nat), width as nat),
{
    let d = decimal_string(n);
    let len = d.as_str().unicode_len();
    if len < width {
        push_zeros(s, width - len);
    }
    s.append(d.as_str());
    assert(s@ =~= old(s)@ + pad_zeros(decimal(n as nat), width as nat));
}

/// Appends the decimal digits of a wide number `n`, zero-padded on the
/// left to `width`.
pub fn push_zero_padded_wide(s: &mut String, n: u128, width: usize)
    ensures
        final(s)@ == old(s)@ + pad_zeros(decimal(n as nat), width as nat),
{
    let mut d = String::new();
    push_decimal_wide(&mut d, n);
    assert(d@ =~= decimal(n as nat));
    let len = d.as_str().unicode_len();
    if len < width {
        push_zeros(s, width - len);
    }
    s.append(d.as_str());
    assert(s@ =~= old(s)@ + pad_zeros(decimal(n as nat), width as nat));
}

/// Appends the decimal text of `v` (sign first), zero-padded to `width`.
pub fn push_signed_padded(s: &mut String, v: i64, width: usize)
    ensures
        final(s)@ == old(s)@ + signed_padded(v as int, width as nat),
{
    if v < 0 {
        let m: u64 = ((-(v + 1)) as u64) + 1;
        push_char(s, '-');
        let w: usize = if width >= 1 { width - 1 } else { 0 };
        push_zero_padded(s, m, w);
        assert(s@ =~= old(s)@ + signed_padded(v as int, width as nat));
    } else {
        push_zero_padded(s, v as u64, width);
    }
}

/// Appends the lowest `k` hexadecimal digits of `n` (lowercase).
pub fn push_hex_digits(s: &mut String, n: u64, k: u64)
    ensures
        final(s)@ == old(s)@ + hex_digits(n as nat, k as nat),
    decreases k,
{
    if k > 0 {
        push_hex_digits(s, n / 16, k - 1);
        push_char(s, hex_digit(n % 16));
        assert(s@ =~= old(s)@ + hex_digits(n as nat, k as nat));
    } else {
        assert(s@ =~= old(s)@ + hex_digits(n as nat, k as nat));
    }
}

/// ASCII lowercase of one character; other characters are unchanged.
pub open spec fn ascii_lower(c: char) -> char {
    if 'A' <= c && c <= 'Z' {
        ((c as u32) + 32) as char
    } else {
        c
    }
}

/// ASCII uppercase of one character; other characters are unchanged.
pub open spec fn ascii_upper(c: char) -> char {
    if 'a' <= c && c <= 'z' {
        ((c as u32) - 32) as char
    } else {
        c
    }
}

/// Every character of the text is ASCII.
pub open spec fn is_ascii_text(s: Seq<char>) -> bool {
    forall|i: int| 0 <= i < s.len() ==> (#[trigger] s[i] as u32) < 128
}

/// The text with every character lowered by `ascii_lower`.
pub open spec fn ascii_lowercase(s: Seq<char>) -> Seq<char> {
    Seq::new(s.len(), |i: int| ascii_lower(s[i]))
}

/// The text with every character raised by `ascii_upper`.
pub open spec fn ascii_uppercase(s: Seq<char>) -> Seq<char> {
    Seq::new(s.len(), |i: int| ascii_upper(s[i]))
}

/// Equality of two texts up to ASCII case (`str::eq_ignore_ascii_case`).
pub open spec fn eq_ignore_ascii_case(a: Seq<char>, b: Seq<char>) -> bool {
    &&& a.len() == b.len()
    &&& forall|i: int| 0 <= i < a.len() ==> #[trigger] ascii_lower(a[i]) == ascii_lower(b[i])
}

/// ASCII lowercase of one character, computed.
pub fn to_ascii_lower(c: char) -> (r: char)
    ensures
        r == ascii_lower(c),
{
    if 'A' <= c && c <= 'Z' {
        let b: u8 = (c as u8) + 32;
        b as char
    } else {
        c
    }
}

/// Whether two texts are equal up to ASCII case.
pub fn equals_ignore_ascii_case(a: &str, b: &str) -> (r: bool)
    ensures
        r == eq_ignore_ascii_case(a@, b@),
{
    let n = a.unicode_len();
    if n != b.unicode_len() {
        return false;
    }
    let mut i: usize = 0;
    while i < n
        invariant
            n == a@.len(),
            n == b@.len(),
            i <= n,
            forall|j: int| 0 <= j < i ==> #[trigger] ascii_lower(a@[j]) == ascii_lower(b@[j]),
        decreases n - i,
    {
        if to_ascii_lower(a.get_char(i)) != to_ascii_lower(b.get_char(i)) {
            return false;
        }
        i = i + 1;
    }
    true
}

/// Whether two texts are equal.
pub fn str_equals(a: &str, b: &str) -> (r: bool)
    ensures
        r == (a@ == b@),
{
    let n = a.unicode_len();
    if n != b.unicode_len() {
        return false;
    }
    let mut i: usize = 0;
    while i < n
        invariant
            n == a@.len(),
            n == b@.len(),
            i <= n,
            forall|j: int| 0 <= j < i ==> a@[j] == b@[j],
        decreases n - i,
    {
        if a.get_char(i) != b.get_char(i) {
            return false;
        }
        i = i + 1;
    }
    assert(a@ =~= b@);
    true
}

/// Whether `needle` occurs in `hay` as a run of consecutive characters.
pub open spec fn occurs_in(needle: Seq<char>, hay: Seq<char>) -> bool {
    exists|i: int| 0 <= i && i + needle.len() <= hay.len() && #[trigger] hay.subrange(i, i + needle.len()) == needle
}

/// Whether `needle` occurs in `hay` starting at character `i`.
fn occurs_at(hay: &str, needle: &str, i: usize) -> (r: bool)
    requires
        i + needle@.len() <= hay@.len(),
    ensures
        r == (hay@.subrange(i as int, i + needle@.len()) == needle@),
{
    let n = hay.unicode_len();
    let m = needle.unicode_len();
    let mut k: usize = 0;
    while k < m
        invariant
            n == hay@.len(),
            m == needle@.len(),
            i + m <= n,
            k <= m,
            forall|t: int| 0 <= t < k ==> hay@[i + t] == needle@[t],
        decreases m - k,
    {
        if hay.get_char(i + k) != needle.get_char(k) {
            assert(hay@.subrange(i as int, i + m)[k as int] != needle@[k as int]);
            return false;
        }
        k = k + 1;
    }
    assert(hay@.subrange(i as int, i + m) =~= needle@);
    true
}

/// Whether `hay` contains `needle` (`str::contains` with a string
/// pattern).
pub fn str_contains(hay: &str, needle: &str) -> (r: bool)
    ensures
        r == occurs_in(needle@, hay@),
{
    let n = hay.unicode_len();
    let m = needle.unicode_len();
    if m > n {
        return false;
    }
    let last = n - m;
    let mut i: usize = 0;
    while i < last
        invariant
            n == hay@.len(),
            m == needle@.len(),
            last == n - m,
            i <= last,
            forall|j: int| 0 <= j < i ==> #[trigger] hay@.subrange(j, j + m) != needle@,
        decreases last - i,
    {
        if occurs_at(hay, needle, i) {
            return true;
        }
        i = i + 1;
    }
    occurs_at(hay, needle, last)
}

/// Unicode White_Space (`char::is_whitespace`): tab, line feed, vertical
/// tab, form feed, carriage return, space, next line, no-break space,
/// ogham space mark, the spaces U+2000 to U+200A, line and paragraph
/// separators, narrow no-break space, medium mathematical space and
/// ideographic space.
pub open spec fn is_white_space(c: char) -> bool {
    ||| ('\u{9}' <= c && c <= '\u{d}')
    ||| c == ' '
    ||| c == '\u{85}'
    ||| c == '\u{a0}'
    ||| c == '\u{1680}'
    ||| ('\u{2000}' <= c && c <= '\u{200a}')
    ||| c == '\u{2028}'
    ||| c == '\u{2029}'
    ||| c == '\u{202f}'
    ||| c == '\u{205f}'
    ||| c == '\u{3000}'
}

/// Whether a character is Unicode White_Space, computed.
pub fn is_white_space_char(c: char) -> (r: bool)
    ensures
        r == is_white_space(c),
{
    ('\u{9}' <= c && c <= '\u{d}') || c == ' ' || c == '\u{85}' || c == '\u{a0}' || c == '\u{1680}'
        || ('\u{2000}' <= c && c <= '\u{200a}') || c == '\u{2028}' || c == '\u{2029}' || c == '\u{202f}'
        || c == '\u{205f}' || c == '\u{3000}'
}

/// The characters of a text.
pub fn chars_of(s: &str) -> (r: Vec<char>)
    ensures
        r@ == s@,
{
    let n = s.unicode_len();
    let mut r: Vec<char> = Vec::with_capacity(n);
    let mut i: usize = 0;
    while i < n
        invariant
            n == s@.len(),
            i <= n,
            r@ == s@.take(i as int),
        decreases n - i,
    {
        r.push(s.get_char(i));
        assert(r@ =~= s@.take(i as int + 1));
        i = i + 1;
    }
    assert(r@ =~= s@);
    r
}

/// The text made of some characters.
pub fn text_of(cs: &Vec<char>) -> (r: String)
    ensures
        r@ == cs@,
{
    let mut r = String::new();
    let mut i: usize = 0;
    while i < cs.len()
        invariant
            i <= cs@.len(),
            r@ == cs@.take(i as int),
        decreases cs@.len() - i,
    {
        push_char(&mut r, cs[i]);
        assert(r@ =~= cs@.take(i as int + 1));
        i = i + 1;
    }
    assert(r@ =~= cs@);
    r
}

/// The text without its leading white space.
pub open spec fn trim_front(s: Seq<char>) -> Seq<char>
    decreases s.len(),
{
    if s.len() > 0 && is_white_space(s[0]) {
        trim_front(s.drop_first())
    } else {
        s
    }
}

/// The text without its trailing white space.
pub open spec fn trim_back(s: Seq<char>) -> Seq<char>
    decreases s.len(),
{
    if s.len() > 0 && is_white_space(s.last()) {
        trim_back(s.drop_last())
    } else {
        s
    }
}

/// The text without leading and trailing white space (`str::trim`).
pub open spec fn trimmed(s: Seq<char>) -> Seq<char> {
    trim_back(trim_front(s))
}

proof fn lemma_trim_front(s: Seq<char>, k: int)
    requires
        0 <= k <= s.len(),
        forall|j: int| 0 <= j < k ==> is_white_space(#[trigger] s[j]),
        k < s.len() ==> !is_white_space(s[k]),
    ensures
        trim_front(s) == s.subrange(k, s.len() as int),
    decreases k,
{
    if k > 0 {
        assert(is_white_space(s[0]));
        let t = s.drop_first();
        assert forall|j: int| 0 <= j < k - 1 implies is_white_space(#[trigger] t[j]) by {
            assert(t[j] == s[j + 1]);
        }
        lemma_trim_front(t, k - 1);
        assert(t.subrange(k - 1, t.len() as int) =~= s.subrange(k, s.len() as int));
    } else {
        assert(s.subrange(0, s.len() as int) =~= s);
    }
}

proof fn lemma_trim_back(s: Seq<char>, e: int)
    requires
        0 <= e <= s.len(),
        forall|j: int| e <= j < s.len() ==> is_white_space(#[trigger] s[j]),
        e > 0 ==> !is_white_space(s[e - 1]),
    ensures
        trim_back(s) == s.subrange(0, e),
    decreases s.len() - e,
{
    if e < s.len() {
        assert(is_white_space(s[s.len() - 1]));
        let t = s.drop_last();
        assert forall|j: int| e <= j < t.len() implies is_white_space(#[trigger] t[j]) by {
            assert(t[j] == s[j]);
        }
        lemma_trim_back(t, e);
        assert(t.subrange(0, e) =~= s.subrange(0, e));
    } else {
        assert(s.subrange(0, e) =~= s);
    }
}

/// The characters without leading and trailing white space.
pub fn trim_chars(s: &Vec<char>) -> (r: Vec<char>)
    ensures
        r@ == trimmed(s@),
{
    let n = s.len();
    let mut start: usize = 0;
    while start < n && is_white_space_char(s[start])
        invariant
            n == s@.len(),
            start <= n,
            forall|j: int| 0 <= j < start ==> is_white_space(#[trigger] s@[j]),
        decreases n - start,
    {
        start = start + 1;
    }
    proof { lemma_trim_front(s@, start as int); }
    let mut end: usize = n;
    while end > start && is_white_space_char(s[end - 1])
        invariant
            n == s@.len(),
            start <= end <= n,
            forall|j: int| end <= j < n ==> is_white_space(#[trigger] s@[j]),
        decreases end - start,
    {
        end = end - 1;
    }
    proof {
        let t = s@.subrange(start as int, n as int);
        assert forall|j: int| end - start <= j < t.len() implies is_white_space(#[trigger] t[j]) by {
            assert(t[j] == s@[start + j]);
        }
        lemma_trim_back(t, end - start);
        assert(t.subrange(0, end - start) =~= s@.subrange(start as int, end as int));
    }
    let mut r: Vec<char> = Vec::new();
    let mut i: usize = start;
    while i < end
        invariant
            n == s@.len(),
            start <= i <= end <= n,
            r@ == s@.subrange(start as int, i as int),
        decreases end - i,
    {
        r.push(s[i]);
        assert(r@ =~= s@.subrange(start as int, i as int + 1));
        i = i + 1;
    }
    r
}

/// Whether `s` starts with `p`.
pub open spec fn has_prefix(s: Seq<char>, p: Seq<char>) -> bool {
    p.len() <= s.len() && s.subrange(0, p.len() as int) == p
}

/// Whether the characters start with `p` (`str::starts_with`).
pub fn starts_with_text(s: &Vec<char>, p: &str) -> (r: bool)
    ensures
        r == has_prefix(s@, p@),
{
    let m = p.unicode_len();
    if m > s.len() {
        return false;
    }
    let mut k: usize = 0;
    while k < m
        invariant
            m == p@.len(),
            m <= s@.len(),
            k <= m,
            forall|t: int| 0 <= t < k ==> s@[t] == p@[t],
        decreases m - k,
    {
        if s[k] != p.get_char(k) {
            assert(s@.subrange(0, m as int)[k as int] != p@[k as int]);
            return false;
        }
        k = k + 1;
    }
    assert(s@.subrange(0, m as int) =~= p@);
    true
}

/// The runs of consecutive non-white-space characters of a text, in order
/// (`str::split_whitespace`).
pub open spec fn words(s: Seq<char>) -> Seq<Seq<char>>
    decreases s.len(),
{
    if s.len() == 0 {
        Seq::empty()
    } else {
        let w = words(s.drop_last());
        let c = s.last();
        if is_white_space(c) {
            w
        } else if s.len() >= 2 && !is_white_space(s[s.len() - 2]) {
            w.update(w.len() - 1, w.last().push(c))
        } else {
            w.push(seq![c])
        }
    }
}

/// A text that ends in a non-white-space character has a last word.
proof fn lemma_words_nonempty(s: Seq<char>)
    requires
        s.len() > 0,
        !is_white_space(s.last()),
    ensures
        words(s).len() >= 1,
    decreases s.len(),
{
    if s.len() >= 2 && !is_white_space(s[s.len() - 2]) {
        lemma_words_nonempty(s.drop_last());
    }
}

/// The views of a list of character lists.
pub open spec fn char_lists_view(v: Seq<Vec<char>>) -> Seq<Seq<char>> {
    Seq::new(v.len(), |i: int| v[i]@)
}

/// The words of a line of characters.
pub fn split_words(s: &Vec<char>) -> (r: Vec<Vec<char>>)
    ensures
        char_lists_view(r@) == words(s@),
{
    let mut out: Vec<Vec<char>> = Vec::new();
    let mut i: usize = 0;
    while i < s.len()
        invariant
            i <= s@.len(),
            char_lists_view(out@) == words(s@.take(i as int)),
        decreases s@.len() - i,
    {
        let c = s[i];
        let ghost before = char_lists_view(out@);
        proof {
            assert(s@.take(i as int + 1).drop_last() =~= s@.take(i as int));
            assert(s@.take(i as int + 1).last() == c);
        }
        if is_white_space_char(c) {
        } else if i >= 1 && !is_white_space_char(s[i - 1]) {
            proof {
                assert(s@.take(i as int).last() == s@[i - 1]);
                lemma_words_nonempty(s@.take(i as int));
                assert(s@.take(i as int + 1)[i - 1] == s@[i - 1]);
            }
            let mut last = out.pop().unwrap();
            last.push(c);
            out.push(last);
            assert(char_lists_view(out@) =~= before.update(before.len() - 1, before.last().push(c)));
        } else {
            let mut w: Vec<char> = Vec::new();
            w.push(c);
            out.push(w);
            proof {
                if i >= 1 {
                    assert(s@.take(i as int + 1)[i - 1] == s@[i - 1]);
                }
            }
            assert(char_lists_view(out@) =~= before.push(seq![c]));
        }
        i = i + 1;
    }
    assert(s@.take(i as int) =~= s@);
    out
}

/// The Unicode uppercase mapping of a text, as `str::to_uppercase`
/// computes it.
pub uninterp spec fn unicode_uppercase(s: Seq<char>) -> Seq<char>;

/// `str::to_uppercase`: the Unicode uppercase of `s`. The contract names
/// the result; of the Unicode case tables it restates only the ASCII part
/// (an ASCII text is raised letter by letter, `a`–`z` to `A`–`Z`).
#[verifier::external_body]
pub(crate) fn to_uppercase(s: &str) -> (r: String)
    ensures
        r@ == unicode_uppercase(s@),
        is_ascii_text(s@) ==> r@ == ascii_uppercase(s@),
{
    s.to_uppercase()
}

/// A decimal digit.
pub open spec fn is_digit(c: char) -> bool {
    '0' <= c && c <= '9'
}

/// Every character is a decimal digit.
pub open spec fn all_digits(s: Seq<char>) -> bool {
    forall|i: int| 0 <= i < s.len() ==> #[trigger] is_digit(s[i])
}

/// The text without a leading `+`.
pub open spec fn without_plus(s: Seq<char>) -> Seq<char> {
    if s.len() > 0 && s[0] == '+' {
        s.drop_first()
    } else {
        s
    }
}

/// The value of a run of decimal digits.
pub open spec fn digits_value(d: Seq<char>) -> nat
    decreases d.len(),
{
    if d.len() == 0 {
        0
    } else {
        digits_value(d.drop_last()) * 10 + ((d.last() as int - 48) as nat)
    }
}

/// A text that `usize::from_str` reads: an optional `+` followed by one or
/// more decimal digits.
pub open spec fn is_unsigned_decimal_text(s: Seq<char>) -> bool {
    let d = without_plus(s);
    d.len() > 0 && all_digits(d)
}

/// The message that `usize::from_str` gives for a text it refuses (the
/// `Display` of its `ParseIntError`).
pub uninterp spec fn usize_parse_error_text(s: Seq<char>) -> Seq<char>;

/// `usize::from_str` (`str::parse::<usize>`): reads an optional `+` and
/// decimal digits whose value fits in a `usize`, as its documentation says;
/// the error message is named, not restated.
#[verifier::external_body]
pub(crate) fn parse_usize(s: &str) -> (r: Result<usize, String>)
    ensures
        r is Ok <==> (is_unsigned_decimal_text(s@) && digits_value(without_plus(s@)) <= usize::MAX),
        r matches Ok(v) ==> v == digits_value(without_plus(s@)),
        r matches Err(m) ==> m@ == usize_parse_error_text(s@),
{
    s.parse::<usize>().map_err(|e| e.to_string())
}

/// The Unicode lowercase mapping of a text, as `str::to_lowercase`
/// computes it.
pub uninterp spec fn unicode_lowercase(s: Seq<char>) -> Seq<char>;

/// `str::to_lowercase`: the Unicode lowercase of `s`. The contract names
/// the result; of the Unicode case tables it restates only the ASCII part
/// (an ASCII text is lowered letter by letter, `A`–`Z` to `a`–`z`).
#[verifier::external_body]
pub(crate) fn to_lowercase(s: &str) -> (r: String)
    ensures
        r@ == unicode_lowercase(s@),
        is_ascii_text(s@) ==> r@ == ascii_lowercase(s@),
{
    s.to_lowercase()
}

} // verus!
