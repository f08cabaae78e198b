//! LUTs (look-up tables) and the `.cube` text format.
//!
//! A `.cube` file holds a `LUT_1D_SIZE` or `LUT_3D_SIZE` line, keyword
//! lines that are passed over (`TITLE`, the input and output ranges, the
//! domain), comment lines starting with `#`, and lines of values. Reading
//! one happens in two steps around the conversion of value texts to `f32`
//! (floating-point work that the caller does): `scan_cube` reads the lines
//! and collects the value texts with their line numbers, and
//! `lut_from_scan` builds the table from the converted values. Table
//! values are the bits of `f32` values.

use vstd::prelude::*;
use crate::text::{
    char_lists_view, chars_of, decimal, digits_value, has_prefix, is_unsigned_decimal_text, parse_usize,
    push_decimal, split_words, starts_with_text, text_of, to_uppercase, trim_chars, trimmed, unicode_uppercase,
    usize_parse_error_text, without_plus, words,
};

verus! {

/// A 1D LUT: a per-channel mapping.
#[derive(Debug, Clone)]
pub struct Lut1D {
    pub size: usize,
    /// `table[channel][index]`: the output value (0.0 to 1.0) as the bits
    /// of an `f32`; channel 0 is red, 1 green, 2 blue.
    pub table: [Vec<u32>; 3],
}

/// A 3D LUT: a mapping of (R, G, B) tuples.
#[derive(Debug, Clone)]
pub struct Lut3D {
    pub size: usize,
    /// `size³ × 3` output values, as the bits of `f32` values, indexed by
    /// `((r * size + g) * size + b) * 3 + channel`.
    pub table: Vec<u32>,
}

/// Either a 1D or a 3D LUT.
#[derive(Debug, Clone)]
pub enum Lut {
    Lut1D(Lut1D),
    Lut3D(Lut3D),
}

/// A LUT as the contracts see it.
pub enum LutView {
    One { size: usize, red: Seq<u32>, green: Seq<u32>, blue: Seq<u32> },
    Three { size: usize, table: Seq<u32> },
}

impl Lut {
    /// The LUT as the contracts see it.
    pub open spec fn view_of(self) -> LutView {
        match self {
            Lut::Lut1D(l) => LutView::One {
                size: l.size,
                red: l.table@[0]@,
                green: l.table@[1]@,
                blue: l.table@[2]@,
            },
            Lut::Lut3D(l) => LutView::Three { size: l.size, table: l.table@ },
        }
    }
}

/// The pieces of a text between line feeds, the last one possibly empty.
/// A `\r` before a line feed stays on its piece; trimming removes it.
pub open spec fn line_pieces(s: Seq<char>) -> Seq<Seq<char>>
    decreases s.len(),
{
    if s.len() == 0 {
        seq![Seq::empty()]
    } else {
        let p = line_pieces(s.drop_last());
        if s.last() == '\n' {
            p.push(Seq::empty())
        } else {
            p.update(p.len() - 1, p.last().push(s.last()))
        }
    }
}

proof fn lemma_line_pieces_nonempty(s: Seq<char>)
    ensures
        line_pieces(s).len() >= 1,
        line_pieces(s).len() <= s.len() + 1,
    decreases s.len(),
{
    if s.len() > 0 {
        lemma_line_pieces_nonempty(s.drop_last());
    }
}

/// Keyword lines that a reader passes over: the title, the input and
/// output ranges and the domain.
pub open spec fn is_ignored_keyword(upper: Seq<char>) -> bool {
    ||| has_prefix(upper, "TITLE"@)
    ||| has_prefix(upper, "LUT_1D_INPUT"@)
    ||| has_prefix(upper, "LUT_1D_OUTPUT"@)
    ||| has_prefix(upper, "LUT_3D_INPUT"@)
    ||| has_prefix(upper, "LUT_3D_OUTPUT"@)
    ||| has_prefix(upper, "DOMAIN_MIN"@)
    ||| has_prefix(upper, "DOMAIN_MAX"@)
}

/// The header keyword lines of the `.cube` format — `TITLE`,
/// `LUT_1D_INPUT`, `LUT_1D_OUTPUT`, `LUT_3D_INPUT`, `LUT_3D_OUTPUT`,
/// `DOMAIN_MIN` and `DOMAIN_MAX`, in any case and with any surrounding
/// white space — are passed over: reading such a line leaves the scan as it
/// was.
pub proof fn lemma_header_keywords_skipped(st: ScanView, raw: Seq<char>, number: int)
    requires
        ({
            let upper = unicode_uppercase(trimmed(raw));
            ||| has_prefix(upper, "TITLE"@)
            ||| has_prefix(upper, "LUT_1D_INPUT"@)
            ||| has_prefix(upper, "LUT_1D_OUTPUT"@)
            ||| has_prefix(upper, "LUT_3D_INPUT"@)
            ||| has_prefix(upper, "LUT_3D_OUTPUT"@)
            ||| has_prefix(upper, "DOMAIN_MIN"@)
            ||| has_prefix(upper, "DOMAIN_MAX"@)
        }),
    ensures
        scan_line(st, raw, number) == st,
{
}

/// A value text of a `.cube` file, with the number of its line.
#[derive(Debug, Clone)]
pub struct CubeToken {
    pub text: String,
    pub line: usize,
}

/// What reading the lines of a `.cube` text found: the sizes, the value
/// texts before the first error, and that error.
#[derive(Debug)]
pub struct CubeScan {
    pub size_1d: Option<usize>,
    pub size_3d: Option<usize>,
    pub tokens: Vec<CubeToken>,
    pub error: Option<String>,
}

/// A scan as the contracts see it.
pub struct ScanView {
    pub size_1d: Option<usize>,
    pub size_3d: Option<usize>,
    pub tokens: Seq<(Seq<char>, int)>,
    pub error: Option<Seq<char>>,
}

impl CubeScan {
    /// The scan as the contracts see it.
    pub open spec fn view_of(self) -> ScanView {
        ScanView {
            size_1d: self.size_1d,
            size_3d: self.size_3d,
            tokens: Seq::new(self.tokens@.len(), |i: int| (self.tokens@[i].text@, self.tokens@[i].line as int)),
            error: match self.error {
                Some(e) => Some(e@),
                None => None,
            },
        }
    }
}

/// The message of a size that does not read as a `usize`.
pub open spec fn size_error(keyword: Seq<char>, number: int, e: Seq<char>) -> Seq<char> {
    keyword + " parse error at line "@ + decimal(number as nat) + ": "@ + e
}

/// The words of a line, each with the line's number.
pub open spec fn numbered(ws: Seq<Seq<char>>, number: int) -> Seq<(Seq<char>, int)> {
    Seq::new(ws.len(), |i: int| (ws[i], number))
}

/// The scan after line `number` (raw, untrimmed): lines after an error,
/// blank lines and comments change nothing; keyword lines are passed over;
/// a size line sets its size or, when the size does not read as a
/// `usize`, the error; any other line adds its words as value texts.
pub open spec fn scan_line(st: ScanView, raw: Seq<char>, number: int) -> ScanView {
    let line = trimmed(raw);
    let upper = unicode_uppercase(line);
    let rest = trimmed(upper.skip(12));
    let size_ok = is_unsigned_decimal_text(rest) && digits_value(without_plus(rest)) <= usize::MAX;
    if st.error is Some || line.len() == 0 || line[0] == '#' || is_ignored_keyword(upper) {
        st
    } else if has_prefix(upper, "LUT_1D_SIZE "@) {
        if size_ok {
            ScanView { size_1d: Some(digits_value(without_plus(rest)) as usize), ..st }
        } else {
            ScanView { error: Some(size_error("LUT_1D_SIZE"@, number, usize_parse_error_text(rest))), ..st }
        }
    } else if has_prefix(upper, "LUT_3D_SIZE "@) {
        if size_ok {
            ScanView { size_3d: Some(digits_value(without_plus(rest)) as usize), ..st }
        } else {
            ScanView { error: Some(size_error("LUT_3D_SIZE"@, number, usize_parse_error_text(rest))), ..st }
        }
    } else {
        ScanView { tokens: st.tokens + numbered(words(line), number), ..st }
    }
}

/// The scan of some lines, numbered from 1.
pub open spec fn scan_lines(lines: Seq<Seq<char>>) -> ScanView
    decreases lines.len(),
{
    if lines.len() == 0 {
        ScanView { size_1d: None, size_3d: None, tokens: Seq::empty(), error: None }
    } else {
        scan_line(scan_lines(lines.drop_last()), lines.last(), lines.len() as int)
    }
}

/// The scan of a `.cube` text.
pub open spec fn cube_scan(content: Seq<char>) -> ScanView {
    scan_lines(line_pieces(content))
}

/// The characters of `s` from position `k` on.
fn chars_from(s: &Vec<char>, k: usize) -> (r: Vec<char>)
    requires
        k <= s@.len(),
    ensures
        r@ == s@.skip(k as int),
{
    let mut r: Vec<char> = Vec::new();
    let mut i: usize = k;
    while i < s.len()
        invariant
            k <= i <= s@.len(),
            r@ == s@.subrange(k as int, i as int),
        decreases s@.len() - i,
    {
        r.push(s[i]);
        assert(r@ =~= s@.subrange(k as int, i as int + 1));
        i = i + 1;
    }
    assert(r@ =~= s@.skip(k as int));
    r
}

/// The size read from the rest of a size line, or the error message.
fn read_size(upper: &Vec<char>, keyword: &str, number: usize) -> (r: Result<usize, String>)
    requires
        upper@.len() >= 12,
    ensures
        ({
            let rest = trimmed(upper@.skip(12));
            &&& (is_unsigned_decimal_text(rest) && digits_value(without_plus(rest)) <= usize::MAX) ==> (r matches Ok(v)
                && v == digits_value(without_plus(rest)))
            &&& !(is_unsigned_decimal_text(rest) && digits_value(without_plus(rest)) <= usize::MAX) ==> (r matches Err(m)
                && m@ == size_error(keyword@, number as int, usize_parse_error_text(rest)))
        }),
{
    let rest = trim_chars(&chars_from(upper, 12));
    let rest_text = text_of(&rest);
    match parse_usize(rest_text.as_str()) {
        Ok(v) => Ok(v),
        Err(e) => {
            let mut m = String::from_str(keyword);
            m.append(" parse error at line ");
            push_decimal(&mut m, number as u64);
            m.append(": ");
            m.append(e.as_str());
            Err(m)
        },
    }
}

/// Reads one line into the scan.
fn scan_one(st: &mut CubeScan, raw: &Vec<char>, number: usize)
    ensures
        final(st).view_of() == scan_line(old(st).view_of(), raw@, number as int),
{
    if st.error.is_some() {
        return;
    }
    let line = trim_chars(raw);
    if line.len() == 0 || line[0] == '#' {
        return;
    }
    let upper_text = to_uppercase(text_of(&line).as_str());
    let upper = chars_of(upper_text.as_str());
    if starts_with_text(&upper, "TITLE") || starts_with_text(&upper, "LUT_1D_INPUT")
        || starts_with_text(&upper, "LUT_1D_OUTPUT") || starts_with_text(&upper, "LUT_3D_INPUT")
        || starts_with_text(&upper, "LUT_3D_OUTPUT") || starts_with_text(&upper, "DOMAIN_MIN")
        || starts_with_text(&upper, "DOMAIN_MAX") {
        return;
    }
    proof {
        reveal_strlit("LUT_1D_SIZE ");
        reveal_strlit("LUT_3D_SIZE ");
    }
    if starts_with_text(&upper, "LUT_1D_SIZE ") {
        match read_size(&upper, "LUT_1D_SIZE", number) {
            Ok(v) => st.size_1d = Some(v),
            Err(m) => st.error = Some(m),
        }
        return;
    }
    if starts_with_text(&upper, "LUT_3D_SIZE ") {
        match read_size(&upper, "LUT_3D_SIZE", number) {
            Ok(v) => st.size_3d = Some(v),
            Err(m) => st.error = Some(m),
        }
        return;
    }
    let ws = split_words(&line);
    let ghost before = st.view_of().tokens;
    let mut i: usize = 0;
    while i < ws.len()
        invariant
            st.size_1d == old(st).size_1d,
            st.size_3d == old(st).size_3d,
            st.error == old(st).error,
            before == old(st).view_of().tokens,
            i <= ws@.len(),
            st.view_of().tokens == before + numbered(char_lists_view(ws@), number as int).take(i as int),
        decreases ws@.len() - i,
    {
        let ghost prev = st.view_of().tokens;
        st.tokens.push(CubeToken { text: text_of(&ws[i]), line: number });
        assert(st.view_of().tokens =~= prev.push((ws@[i as int]@, number as int)));
        assert(numbered(char_lists_view(ws@), number as int).take(i as int + 1)
            =~= numbered(char_lists_view(ws@), number as int).take(i as int).push((ws@[i as int]@, number as int)));
        i = i + 1;
    }
    assert(numbered(char_lists_view(ws@), number as int).take(i as int) =~= numbered(words(line@), number as int));
}

/// Reads the lines of a `.cube` text: the sizes it declares, its value
/// texts with their line numbers, and the first error, after which lines
/// are not read.
pub fn scan_cube(content: &str) -> (r: CubeScan)
    requires
        content@.len() < usize::MAX,
    ensures
        r.view_of() == cube_scan(content@),
{
    let cs = chars_of(content);
    let mut st = CubeScan { size_1d: None, size_3d: None, tokens: Vec::new(), error: None };
    let mut line: Vec<char> = Vec::new();
    let mut number: usize = 1;
    let mut i: usize = 0;
    proof {
        assert(cs@.take(0) =~= Seq::<char>::empty());
        assert(line_pieces(Seq::<char>::empty()).drop_last() =~= Seq::<Seq<char>>::empty());
        assert(st.view_of().tokens =~= Seq::<(Seq<char>, int)>::empty());
    }
    while i < cs.len()
        invariant
            cs@ == content@,
            cs@.len() < usize::MAX,
            i <= cs@.len(),
            line_pieces(cs@.take(i as int)).len() == number,
            number <= i + 1,
            line@ == line_pieces(cs@.take(i as int)).last(),
            st.view_of() == scan_lines(line_pieces(cs@.take(i as int)).drop_last()),
        decreases cs@.len() - i,
    {
        let c = cs[i];
        let ghost pieces = line_pieces(cs@.take(i as int));
        proof {
            assert(cs@.take(i as int + 1).drop_last() =~= cs@.take(i as int));
            assert(cs@.take(i as int + 1).last() == c);
            lemma_line_pieces_nonempty(cs@.take(i as int));
        }
        if c == '\n' {
            scan_one(&mut st, &line, number);
            proof {
                let next = pieces.push(Seq::<char>::empty());
                assert(next.drop_last() =~= pieces);
                assert(pieces.drop_last().push(pieces.last()) =~= pieces);
                assert(scan_lines(pieces) == scan_line(scan_lines(pieces.drop_last()), pieces.last(), pieces.len() as int));
            }
            line = Vec::new();
            number = number + 1;
        } else {
            line.push(c);
            proof {
                let next = pieces.update(pieces.len() - 1, pieces.last().push(c));
                assert(next.drop_last() =~= pieces.drop_last());
            }
        }
        i = i + 1;
    }
    scan_one(&mut st, &line, number);
    proof {
        let pieces = line_pieces(cs@.take(i as int));
        lemma_line_pieces_nonempty(cs@.take(i as int));
        assert(cs@.take(i as int) =~= content@);
        assert(pieces.drop_last().push(pieces.last()) =~= pieces);
    }
    st
}

/// The first value text that does not read as an `f32`, if any: its
/// position among the texts.
pub open spec fn first_bad_value(parsed: Seq<Result<u32, Seq<char>>>) -> int
    decreases parsed.len(),
{
    if parsed.len() == 0 {
        0
    } else if first_bad_value(parsed.drop_last()) < parsed.len() - 1 {
        first_bad_value(parsed.drop_last())
    } else if parsed.last() is Err {
        parsed.len() - 1
    } else {
        parsed.len() as int
    }
}

/// The LUT of some values for the declared sizes: the 3D size takes
/// precedence; too few values is an error; values beyond the table are
/// dropped; a 1D table's values come in red, green, blue triples.
pub open spec fn lut_from_sizes(size_1d: Option<usize>, size_3d: Option<usize>, values: Seq<u32>) -> Result<LutView, Seq<char>> {
    match size_3d {
        Some(n) => {
            let expected = n * n * n * 3;
            if values.len() < expected {
                Err("3D LUT expected "@ + decimal(expected as nat) + " values, got "@ + decimal(values.len()))
            } else {
                Ok(LutView::Three { size: n, table: values.take(expected) })
            }
        },
        None => match size_1d {
            Some(n) => {
                let expected = n * 3;
                if values.len() < expected {
                    Err("1D LUT expected "@ + decimal(expected as nat) + " values, got "@ + decimal(values.len()))
                } else {
                    Ok(LutView::One {
                        size: n,
                        red: Seq::new(n as nat, |i: int| values[3 * i]),
                        green: Seq::new(n as nat, |i: int| values[3 * i + 1]),
                        blue: Seq::new(n as nat, |i: int| values[3 * i + 2]),
                    })
                }
            },
            None => Err("No LUT_1D_SIZE or LUT_3D_SIZE found in .cube file"@),
        },
    }
}

/// Whether building a LUT of these sizes computes a table size that
/// overflows a `usize`.
pub open spec fn table_size_overflows(size_1d: Option<usize>, size_3d: Option<usize>) -> bool {
    match size_3d {
        Some(n) => n * n * n * 3 > usize::MAX,
        None => match size_1d {
            Some(n) => n * 3 > usize::MAX,
            None => false,
        },
    }
}

/// The views of the converted value texts.
pub open spec fn parsed_view(parsed: Seq<Result<u32, String>>) -> Seq<Result<u32, Seq<char>>> {
    Seq::new(parsed.len(), |i: int| match parsed[i] {
        Ok(b) => Ok(b),
        Err(e) => Err(e@),
    })
}

/// The values of converted value texts that all converted.
pub open spec fn parsed_values(parsed: Seq<Result<u32, Seq<char>>>) -> Seq<u32> {
    Seq::new(parsed.len(), |i: int| match parsed[i] {
        Ok(b) => b,
        Err(_) => 0,
    })
}

/// The message of a value text that does not read as an `f32`.
pub open spec fn value_error(number: int, e: Seq<char>) -> Seq<char> {
    "value parse error at line "@ + decimal(number as nat) + ": "@ + e
}

/// The outcome of reading a `.cube` text whose value texts converted as
/// `parsed` (in order): the first value text that did not convert, else
/// the scan's error, else the LUT of the values.
pub open spec fn cube_outcome(scan: ScanView, parsed: Seq<Result<u32, Seq<char>>>) -> Result<LutView, Seq<char>> {
    let k = first_bad_value(parsed);
    if k < parsed.len() {
        Err(value_error(scan.tokens[k].1, match parsed[k] {
            Err(e) => e,
            Ok(_) => Seq::empty(),
        }))
    } else if let Some(e) = scan.error {
        Err(e)
    } else {
        lut_from_sizes(scan.size_1d, scan.size_3d, parsed_values(parsed))
    }
}

proof fn lemma_first_bad_value(parsed: Seq<Result<u32, Seq<char>>>, k: int)
    requires
        0 <= k <= parsed.len(),
        forall|j: int| 0 <= j < k ==> #[trigger] parsed[j] is Ok,
        k < parsed.len() ==> parsed[k] is Err,
    ensures
        first_bad_value(parsed) == k,
    decreases parsed.len(),
{
    if parsed.len() > 0 {
        let d = parsed.drop_last();
        if k < parsed.len() {
            if k < d.len() {
                lemma_first_bad_value(d, k);
            } else {
                lemma_first_bad_value(d, d.len() as int);
            }
        } else {
            lemma_first_bad_value(d, d.len() as int);
        }
    }
}

/// Builds the LUT of a scanned `.cube` text from its value texts converted
/// to `f32` bits (or to the conversion's error message), in token order.
/// `None` when the table size overflows a `usize`.
pub fn lut_from_scan(scan: &CubeScan, parsed: Vec<Result<u32, String>>) -> (r: Option<Result<Lut, String>>)
    requires
        parsed@.len() == scan.tokens@.len(),
    ensures
        ({
            let outcome_reached = first_bad_value(parsed_view(parsed@)) == parsed@.len() && scan.error is None;
            &&& r is None <==> (outcome_reached && table_size_overflows(scan.size_1d, scan.size_3d))
            &&& r matches Some(Ok(l)) ==> (cube_outcome(scan.view_of(), parsed_view(parsed@)) matches Ok(v)
                && v == l.view_of())
            &&& r matches Some(Err(m)) ==> (cube_outcome(scan.view_of(), parsed_view(parsed@)) matches Err(e)
                && e == m@)
        }),
{
    let ghost pv = parsed_view(parsed@);
    let mut values: Vec<u32> = Vec::new();
    let mut i: usize = 0;
    while i < parsed.len()
        invariant
            pv == parsed_view(parsed@),
            parsed@.len() == scan.tokens@.len(),
            i <= parsed@.len(),
            forall|j: int| 0 <= j < i ==> #[trigger] pv[j] is Ok,
            values@ == parsed_values(pv).take(i as int),
        decreases parsed@.len() - i,
    {
        match &parsed[i] {
            Ok(b) => {
                values.push(*b);
                assert(values@ =~= parsed_values(pv).take(i as int + 1));
            },
            Err(e) => {
                proof { lemma_first_bad_value(pv, i as int); }
                let mut m = String::from_str("value parse error at line ");
                push_decimal(&mut m, scan.tokens[i].line as u64);
                m.append(": ");
                m.append(e.as_str());
                return Some(Err(m));
            },
        }
        i = i + 1;
    }
    proof {
        lemma_first_bad_value(pv, i as int);
        assert(values@ =~= parsed_values(pv));
    }
    match &scan.error {
        Some(e) => {
            return Some(Err(String::from_str(e.as_str())));
        },
        None => {},
    }
    match scan.size_3d {
        Some(n) => {
            let nn = n.checked_mul(n);
            if nn.is_none() {
                assert(n * n * n * 3 > usize::MAX) by (nonlinear_arith)
                    requires n * n > usize::MAX;
                return None;
            }
            let nnn = nn.unwrap().checked_mul(n);
            if nnn.is_none() {
                return None;
            }
            let expected_opt = nnn.unwrap().checked_mul(3);
            if expected_opt.is_none() {
                return None;
            }
            let expected = expected_opt.unwrap();
            if values.len() < expected {
                let mut m = String::from_str("3D LUT expected ");
                push_decimal(&mut m, expected as u64);
                m.append(" values, got ");
                push_decimal(&mut m, values.len() as u64);
                return Some(Err(m));
            }
            values.truncate(expected);
            return Some(Ok(Lut::Lut3D(Lut3D { size: n, table: values })));
        },
        None => {},
    }
    match scan.size_1d {
        Some(n) => {
            let expected_opt = n.checked_mul(3);
            if expected_opt.is_none() {
                return None;
            }
            let expected = expected_opt.unwrap();
            if values.len() < expected {
                let mut m = String::from_str("1D LUT expected ");
                push_decimal(&mut m, expected as u64);
                m.append(" values, got ");
                push_decimal(&mut m, values.len() as u64);
                return Some(Err(m));
            }
            let mut red: Vec<u32> = Vec::with_capacity(n);
            let mut green: Vec<u32> = Vec::with_capacity(n);
            let mut blue: Vec<u32> = Vec::with_capacity(n);
            let mut k: usize = 0;
            while k < n
                invariant
                    k <= n,
                    n * 3 <= values@.len(),
                    values@.len() <= usize::MAX,
                    red@ == Seq::new(k as nat, |j: int| values@[3 * j]),
                    green@ == Seq::new(k as nat, |j: int| values@[3 * j + 1]),
                    blue@ == Seq::new(k as nat, |j: int| values@[3 * j + 2]),
                decreases n - k,
            {
                red.push(values[k * 3]);
                green.push(values[k * 3 + 1]);
                blue.push(values[k * 3 + 2]);
                assert(red@ =~= Seq::new(k as nat + 1, |j: int| values@[3 * j]));
                assert(green@ =~= Seq::new(k as nat + 1, |j: int| values@[3 * j + 1]));
                assert(blue@ =~= Seq::new(k as nat + 1, |j: int| values@[3 * j + 2]));
                k = k + 1;
            }
            return Some(Ok(Lut::Lut1D(Lut1D { size: n, table: [red, green, blue] })));
        },
        None => {},
    }
    Some(Err(String::from_str("No LUT_1D_SIZE or LUT_3D_SIZE found in .cube file")))
}

} // verus!
