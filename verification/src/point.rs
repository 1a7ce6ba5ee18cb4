//! A two-dimensional coordinate and its text parser.
//!
//! A coordinate is entered as `"<int>, <int>"`: the text is split on the
//! first comma, whitespace (space, tab, newline, carriage return, form
//! feed) around each field is trimmed, and each field must be a
//! non-empty string of decimal digits whose value fits in `usize`.
//! Extra fields after a second comma are ignored; a missing field is an
//! empty string and fails to parse.

use vstd::prelude::*;

verus! {

/// A single coordinate in two-dimensional space, as entered by a player.
/// Validity against the board's bounds is checked by the board, not here.
#[derive(Debug, PartialEq, Eq, Structural)]
pub struct Point {
    pub x: usize,
    pub y: usize,
}

/// The coordinate text was malformed: a field was empty, held a
/// non-digit, or named a value too large for `usize`.
#[derive(Copy, Clone, Debug, PartialEq, Eq, Structural)]
pub struct ParseError;

/// The whitespace characters trimmed from a field.
pub open spec fn spec_is_space(c: char) -> bool {
    c == ' ' || c == '\t' || c == '\n' || c == '\r' || c == '\u{000C}'
}

/// Whether `c` is a decimal digit.
pub open spec fn spec_is_digit(c: char) -> bool {
    48 <= c as u32 <= 57
}

/// The numeric value of a decimal digit.
pub open spec fn spec_digit_val(c: char) -> int {
    c as u32 - 48
}

/// Whether every character of `s` is a decimal digit.
pub open spec fn spec_all_digits(s: Seq<char>) -> bool {
    forall|i: int| 0 <= i < s.len() ==> spec_is_digit(#[trigger] s[i])
}

/// The value of `s` read as a decimal numeral.
pub open spec fn spec_dec_value(s: Seq<char>) -> int
    decreases s.len(),
{
    if s.len() == 0 {
        0
    } else {
        spec_dec_value(s.drop_last()) * 10 + spec_digit_val(s.last())
    }
}

/// `s` with its leading whitespace removed.
pub open spec fn spec_trim_front(s: Seq<char>) -> Seq<char>
    decreases s.len(),
{
    if s.len() > 0 && spec_is_space(s[0]) {
        spec_trim_front(s.subrange(1, s.len() as int))
    } else {
        s
    }
}

/// `s` with its trailing whitespace removed.
pub open spec fn spec_trim_back(s: Seq<char>) -> Seq<char>
    decreases s.len(),
{
    if s.len() > 0 && spec_is_space(s.last()) {
        spec_trim_back(s.drop_last())
    } else {
        s
    }
}

/// `s` with whitespace removed from both ends.
pub open spec fn spec_trim(s: Seq<char>) -> Seq<char> {
    spec_trim_back(spec_trim_front(s))
}

/// The position of the first comma in `s`, or `s.len()` if there is none.
pub open spec fn spec_comma_pos(s: Seq<char>) -> int
    decreases s.len(),
{
    if s.len() == 0 {
        0
    } else if s[0] == ',' {
        0
    } else {
        1 + spec_comma_pos(s.subrange(1, s.len() as int))
    }
}

/// The first comma-separated field of `s`.
pub open spec fn spec_x_field(s: Seq<char>) -> Seq<char> {
    s.take(spec_comma_pos(s))
}

/// The second comma-separated field of `s`: empty when `s` has no comma,
/// and cut short at a second comma.
pub open spec fn spec_y_field(s: Seq<char>) -> Seq<char> {
    if spec_comma_pos(s) == s.len() {
        Seq::empty()
    } else {
        {
            let rest = s.skip(spec_comma_pos(s) + 1);
            rest.take(spec_comma_pos(rest))
        }
    }
}

/// Whether a raw field parses: trimmed, it is a non-empty digit string
/// whose value fits in `usize`.
pub open spec fn spec_valid_token(f: Seq<char>) -> bool {
    let t = spec_trim(f);
    t.len() > 0 && spec_all_digits(t) && spec_dec_value(t) <= usize::MAX
}

/// Whether the whole coordinate text parses: both fields are valid.
pub open spec fn spec_parse_ok(s: Seq<char>) -> bool {
    spec_valid_token(spec_x_field(s)) && spec_valid_token(spec_y_field(s))
}

/// The x value the text names, when it parses.
pub open spec fn spec_parsed_x(s: Seq<char>) -> int {
    spec_dec_value(spec_trim(spec_x_field(s)))
}

/// The y value the text names, when it parses.
pub open spec fn spec_parsed_y(s: Seq<char>) -> int {
    spec_dec_value(spec_trim(spec_y_field(s)))
}

/// A scan that saw no comma before `i`, and a comma or the end at `i`,
/// has found the first comma position.
proof fn lemma_comma_pos_scan(s: Seq<char>, i: int)
    requires
        0 <= i <= s.len(),
        forall|k: int| 0 <= k < i ==> s[k] != ',',
        i == s.len() || s[i] == ',',
    ensures
        spec_comma_pos(s) == i,
    decreases i,
{
    if i == 0 {
    } else {
        let rest = s.subrange(1, s.len() as int);
        lemma_comma_pos_scan(rest, i - 1);
    }
}

/// A scan that saw only whitespace before `i`, and a non-space or the end
/// at `i`, has found where the leading whitespace ends.
proof fn lemma_trim_front_scan(s: Seq<char>, i: int)
    requires
        0 <= i <= s.len(),
        forall|k: int| 0 <= k < i ==> spec_is_space(#[trigger] s[k]),
        i == s.len() || !spec_is_space(s[i]),
    ensures
        spec_trim_front(s) == s.subrange(i, s.len() as int),
    decreases i,
{
    if i == 0 {
        assert(spec_trim_front(s) =~= s.subrange(0, s.len() as int));
    } else {
        let rest = s.subrange(1, s.len() as int);
        lemma_trim_front_scan(rest, i - 1);
        assert(rest.subrange(i - 1, rest.len() as int) =~= s.subrange(i, s.len() as int));
    }
}

/// A scan that saw only whitespace from `j` to the end, and a non-space
/// or the start at `j`, has found where the trailing whitespace begins.
proof fn lemma_trim_back_scan(s: Seq<char>, j: int)
    requires
        0 <= j <= s.len(),
        forall|k: int| j <= k < s.len() ==> spec_is_space(#[trigger] s[k]),
        j == 0 || !spec_is_space(s[j - 1]),
    ensures
        spec_trim_back(s) == s.take(j),
    decreases s.len(),
{
    if j == s.len() {
        if s.len() > 0 {
            assert(s.take(j) =~= s);
        } else {
            assert(s.take(0) =~= s);
        }
    } else {
        let shorter = s.drop_last();
        lemma_trim_back_scan(shorter, j);
        assert(shorter.take(j) =~= s.take(j));
    }
}

/// The value of a digit string is non-negative.
proof fn lemma_dec_value_nonneg(s: Seq<char>)
    requires
        spec_all_digits(s),
    ensures
        spec_dec_value(s) >= 0,
    decreases s.len(),
{
    if s.len() > 0 {
        assert(spec_all_digits(s.drop_last()));
        lemma_dec_value_nonneg(s.drop_last());
    }
}

/// The value of a digit string is at least the value of any prefix.
proof fn lemma_dec_value_prefix_le(s: Seq<char>, i: int)
    requires
        spec_all_digits(s),
        0 <= i <= s.len(),
    ensures
        spec_dec_value(s.take(i)) <= spec_dec_value(s),
    decreases s.len() - i,
{
    if i == s.len() {
        assert(s.take(i) =~= s);
    } else {
        let shorter = s.take(i + 1);
        assert(shorter.drop_last() =~= s.take(i));
        assert(spec_all_digits(s.take(i)));
        lemma_dec_value_nonneg(s.take(i));
        assert(spec_dec_value(shorter) == spec_dec_value(s.take(i)) * 10 + spec_digit_val(
            s[i],
        ));
        lemma_dec_value_prefix_le(s, i + 1);
    }
}

/// A decimal digit is neither trimmable whitespace nor the separator.
proof fn lemma_digit_not_space_or_comma(c: char)
    requires
        spec_is_digit(c),
    ensures
        !spec_is_space(c),
        c != ',',
{
    assert(' ' as u32 == 32);
    assert('\t' as u32 == 9);
    assert('\n' as u32 == 10);
    assert('\r' as u32 == 13);
    assert('\u{000C}' as u32 == 12);
    assert(',' as u32 == 44);
}

/// Trimmable whitespace is never the separator.
proof fn lemma_space_not_comma(c: char)
    requires
        spec_is_space(c),
    ensures
        c != ',',
{
}

/// A field of whitespace, then digits, then whitespace trims to exactly
/// the digits.
proof fn lemma_trim_spaced_digits(ws_a: Seq<char>, d: Seq<char>, ws_b: Seq<char>)
    requires
        forall|k: int| 0 <= k < ws_a.len() ==> spec_is_space(#[trigger] ws_a[k]),
        forall|k: int| 0 <= k < ws_b.len() ==> spec_is_space(#[trigger] ws_b[k]),
        d.len() > 0,
        spec_all_digits(d),
    ensures
        spec_trim(ws_a + d + ws_b) == d,
{
    let f = ws_a + d + ws_b;
    assert forall|k: int| 0 <= k < ws_a.len() implies spec_is_space(#[trigger] f[k]) by {
        assert(f[k] == ws_a[k]);
    }
    assert(f[ws_a.len() as int] == d[0]);
    lemma_digit_not_space_or_comma(d[0]);
    lemma_trim_front_scan(f, ws_a.len() as int);
    let front = f.subrange(ws_a.len() as int, f.len() as int);
    assert(front =~= d + ws_b);
    assert forall|k: int| d.len() <= k < front.len() implies spec_is_space(
        #[trigger] front[k],
    ) by {
        assert(front[k] == ws_b[k - d.len()]);
    }
    assert(front[d.len() - 1] == d[d.len() - 1]);
    lemma_digit_not_space_or_comma(d[d.len() - 1]);
    lemma_trim_back_scan(front, d.len() as int);
    assert(front.take(d.len() as int) =~= d);
}

/// Every text of the form `"<int>, <int>"` parses, whitespace around
/// each integer and all, and yields exactly the two named values.
/// The comma may be surrounded by any whitespace, each field must hold
/// at least one digit, and each value must fit in `usize`.
pub proof fn lemma_plain_coordinate_parses(
    ws1: Seq<char>,
    dx: Seq<char>,
    ws2: Seq<char>,
    ws3: Seq<char>,
    dy: Seq<char>,
    ws4: Seq<char>,
)
    requires
        forall|k: int| 0 <= k < ws1.len() ==> spec_is_space(#[trigger] ws1[k]),
        forall|k: int| 0 <= k < ws2.len() ==> spec_is_space(#[trigger] ws2[k]),
        forall|k: int| 0 <= k < ws3.len() ==> spec_is_space(#[trigger] ws3[k]),
        forall|k: int| 0 <= k < ws4.len() ==> spec_is_space(#[trigger] ws4[k]),
        dx.len() > 0,
        spec_all_digits(dx),
        spec_dec_value(dx) <= usize::MAX,
        dy.len() > 0,
        spec_all_digits(dy),
        spec_dec_value(dy) <= usize::MAX,
    ensures
        ({
            let s = ws1 + dx + ws2 + seq![','] + ws3 + dy + ws4;
            spec_parse_ok(s) && spec_parsed_x(s) == spec_dec_value(dx) && spec_parsed_y(s)
                == spec_dec_value(dy)
        }),
{
    let s = ws1 + dx + ws2 + seq![','] + ws3 + dy + ws4;
    let p = (ws1.len() + dx.len() + ws2.len()) as int;
    assert forall|k: int| 0 <= k < p implies s[k] != ',' by {
        if k < ws1.len() {
            assert(s[k] == ws1[k]);
            lemma_space_not_comma(ws1[k]);
        } else if k < ws1.len() + dx.len() {
            assert(s[k] == dx[k - ws1.len()]);
            lemma_digit_not_space_or_comma(dx[k - ws1.len()]);
        } else {
            assert(s[k] == ws2[k - ws1.len() - dx.len()]);
            lemma_space_not_comma(ws2[k - ws1.len() - dx.len()]);
        }
    }
    assert(s[p] == ',');
    lemma_comma_pos_scan(s, p);
    assert(spec_x_field(s) =~= ws1 + dx + ws2);
    lemma_trim_spaced_digits(ws1, dx, ws2);
    let rest = s.skip(p + 1);
    assert(rest =~= ws3 + dy + ws4);
    assert forall|k: int| 0 <= k < rest.len() implies rest[k] != ',' by {
        if k < ws3.len() {
            assert(rest[k] == ws3[k]);
            lemma_space_not_comma(ws3[k]);
        } else if k < ws3.len() + dy.len() {
            assert(rest[k] == dy[k - ws3.len()]);
            lemma_digit_not_space_or_comma(dy[k - ws3.len()]);
        } else {
            assert(rest[k] == ws4[k - ws3.len() - dy.len()]);
            lemma_space_not_comma(ws4[k - ws3.len() - dy.len()]);
        }
    }
    lemma_comma_pos_scan(rest, rest.len() as int);
    assert(spec_y_field(s) =~= rest);
    lemma_trim_spaced_digits(ws3, dy, ws4);
}

/// A text with no comma at all, the empty text included, has an empty
/// second field and does not parse.
pub proof fn lemma_missing_separator_fails(s: Seq<char>)
    requires
        spec_comma_pos(s) == s.len(),
    ensures
        spec_y_field(s).len() == 0,
        !spec_parse_ok(s),
{
    assert(spec_trim(Seq::<char>::empty()).len() == 0);
}

/// A text whose first or second field trims to nothing does not parse:
/// a missing field is never read as a coordinate.
pub proof fn lemma_blank_field_fails(s: Seq<char>)
    requires
        spec_trim(spec_x_field(s)).len() == 0 || spec_trim(spec_y_field(s)).len() == 0,
    ensures
        !spec_parse_ok(s),
{
}

/// Whether `c` is whitespace that field trimming removes.
fn is_space_char(c: char) -> (r: bool)
    ensures
        r == spec_is_space(c),
{
    c == ' ' || c == '\t' || c == '\n' || c == '\r' || c == '\u{000C}'
}

/// The characters of `s`, in order, as a vector.
pub(crate) fn chars_of(s: &str) -> (v: Vec<char>)
    ensures
        v@ == s@,
{
    let n = s.unicode_len();
    let mut v: Vec<char> = Vec::new();
    let mut i: usize = 0;
    while i < n
        invariant
            i <= n,
            n == s@.len(),
            v@ =~= s@.take(i as int),
        decreases n - i,
    {
        v.push(s.get_char(i));
        i += 1;
        assert(v@ =~= s@.take(i as int));
    }
    assert(v@ =~= s@);
    v
}

/// Narrows `v[start..end]` to the bounds that trimming whitespace from
/// both ends leaves.
pub(crate) fn trim_bounds(v: &Vec<char>, start: usize, end: usize) -> (r: (usize, usize))
    requires
        start <= end <= v@.len(),
    ensures
        ({
            let (lo, hi) = r;
            start <= lo <= hi <= end && spec_trim(v@.subrange(start as int, end as int))
                == v@.subrange(lo as int, hi as int)
        }),
{
    let ghost f = v@.subrange(start as int, end as int);
    let mut lo = start;
    let mut hi = end;
    while lo < hi && is_space_char(v[lo])
        invariant
            start <= lo <= hi,
            hi == end <= v@.len(),
            forall|k: int| start <= k < lo ==> spec_is_space(#[trigger] v@[k]),
        decreases hi - lo,
    {
        lo += 1;
    }
    proof {
        assert(forall|k: int| 0 <= k < lo - start ==> spec_is_space(#[trigger] f[k]));
        lemma_trim_front_scan(f, lo - start);
        assert(f.subrange(lo - start, f.len() as int) =~= v@.subrange(lo as int, end as int));
    }
    while hi > lo && is_space_char(v[hi - 1])
        invariant
            start <= lo <= hi <= end <= v@.len(),
            spec_trim_front(f) == v@.subrange(lo as int, end as int),
            forall|k: int| hi <= k < end ==> spec_is_space(#[trigger] v@[k]),
        decreases hi,
    {
        hi -= 1;
    }
    let ghost front = v@.subrange(lo as int, end as int);
    proof {
        assert(forall|k: int|
            hi - lo <= k < front.len() ==> spec_is_space(#[trigger] front[k]));
        lemma_trim_back_scan(front, hi - lo);
        assert(front.take(hi - lo) =~= v@.subrange(lo as int, hi as int));
    }
    (lo, hi)
}

/// Parses the field `v[start..end]`: trims whitespace, then reads a
/// non-empty digit string as a `usize`, reporting failure exactly when
/// the trimmed field is empty, holds a non-digit, or overflows.
fn parse_field(v: &Vec<char>, start: usize, end: usize) -> (r: Result<usize, ParseError>)
    requires
        start <= end <= v@.len(),
    ensures
        r matches Ok(val) ==> spec_valid_token(v@.subrange(start as int, end as int)) && val
            == spec_dec_value(spec_trim(v@.subrange(start as int, end as int))),
        r is Err <==> !spec_valid_token(v@.subrange(start as int, end as int)),
{
    let ghost f = v@.subrange(start as int, end as int);
    let (lo, hi) = trim_bounds(v, start, end);
    let ghost t = v@.subrange(lo as int, hi as int);
    if lo == hi {
        proof {
            assert(t.len() == 0);
        }
        return Err(ParseError);
    }
    let mut acc: usize = 0;
    let mut i = lo;
    while i < hi
        invariant
            start <= lo <= i <= hi <= end <= v@.len(),
            f == v@.subrange(start as int, end as int),
            t == v@.subrange(lo as int, hi as int),
            spec_trim(f) == t,
            spec_all_digits(t.take(i - lo)),
            acc == spec_dec_value(t.take(i - lo)),
        decreases hi - i,
    {
        let c = v[i];
        let u = c as u32;
        if u < 48 || u > 57 {
            proof {
                assert(!spec_is_digit(t[i - lo]));
                assert(!spec_all_digits(t));
            }
            return Err(ParseError);
        }
        let d = (u - 48) as usize;
        proof {
            assert(spec_is_digit(t[i - lo]));
            assert(t.take(i - lo + 1).drop_last() =~= t.take(i - lo));
            assert(spec_dec_value(t.take(i - lo + 1)) == acc * 10 + d);
            assert(spec_all_digits(t.take(i - lo + 1)));
        }
        let next = match acc.checked_mul(10) {
            Some(m) => m.checked_add(d),
            None => None,
        };
        match next {
            Some(nv) => {
                acc = nv;
            },
            None => {
                proof {
                    if spec_all_digits(t) {
                        lemma_dec_value_prefix_le(t, i - lo + 1);
                        assert(spec_dec_value(t) > usize::MAX);
                    }
                }
                return Err(ParseError);
            },
        }
        i += 1;
    }
    proof {
        assert(t.take(hi - lo) =~= t);
        assert(spec_all_digits(t));
        assert(acc == spec_dec_value(t));
    }
    Ok(acc)
}

impl Point {
    /// Parses `"<x>, <y>"` into a point: the text is split at its first
    /// comma, each side is trimmed of whitespace and read as a decimal
    /// `usize`; anything after a second comma is ignored. Fails exactly
    /// when either field, trimmed, is not a non-empty digit string whose
    /// value fits in `usize`.
    pub fn from_str(s: &str) -> (r: Result<Point, ParseError>)
        ensures
            r matches Ok(p) ==> spec_valid_token(spec_x_field(s@)) && spec_valid_token(
                spec_y_field(s@),
            ) && p.x == spec_dec_value(spec_trim(spec_x_field(s@))) && p.y == spec_dec_value(
                spec_trim(spec_y_field(s@)),
            ),
            r is Err <==> !(spec_valid_token(spec_x_field(s@)) && spec_valid_token(
                spec_y_field(s@),
            )),
    {
        let v = chars_of(s);
        let n = v.len();
        let mut c1: usize = 0;
        while c1 < n && v[c1] != ','
            invariant
                c1 <= n == v@.len(),
            v@ == s@,
                forall|k: int| 0 <= k < c1 ==> v@[k] != ',',
            decreases n - c1,
        {
            c1 += 1;
        }
        proof {
            lemma_comma_pos_scan(s@, c1 as int);
            assert(spec_x_field(s@) =~= v@.subrange(0, c1 as int));
        }
        let x = match parse_field(&v, 0, c1) {
            Ok(x) => x,
            Err(e) => {
                return Err(e);
            },
        };
        let y_lo: usize;
        let y_hi: usize;
        if c1 == n {
            y_lo = n;
            y_hi = n;
            proof {
                assert(spec_y_field(s@) =~= v@.subrange(n as int, n as int));
            }
        } else {
            y_lo = c1 + 1;
            let mut c2 = c1 + 1;
            while c2 < n && v[c2] != ','
                invariant
                    c1 + 1 <= c2 <= n == v@.len(),
                    v@ == s@,
                    forall|k: int| c1 + 1 <= k < c2 ==> v@[k] != ',',
                decreases n - c2,
            {
                c2 += 1;
            }
            y_hi = c2;
            proof {
                let rest = s@.skip(c1 + 1);
                assert(forall|k: int| 0 <= k < c2 - (c1 + 1) ==> rest[k] != ',');
                lemma_comma_pos_scan(rest, c2 - (c1 + 1));
                assert(spec_y_field(s@) =~= v@.subrange(y_lo as int, y_hi as int));
            }
        }
        let y = match parse_field(&v, y_lo, y_hi) {
            Ok(y) => y,
            Err(e) => {
                return Err(e);
            },
        };
        Ok(Point { x, y })
    }
}

} // verus!
