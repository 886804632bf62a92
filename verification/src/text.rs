//! Text-level building blocks of the pipeline: whitespace trimming,
//! recognition of numeric cell text, and decimal formatting of counts.

use vstd::prelude::*;
use vstd::string::StrSliceExecFns;
use vstd::string::StringExecFns;

verus! {

// ---------------------------------------------------------------------------
// Whitespace and trimming
// ---------------------------------------------------------------------------

/// The Unicode `White_Space` code points, the characters that trimming removes.
pub open spec fn is_ws_char(c: char) -> bool {
    let u = c as u32;
    u == 0x09 || u == 0x0A || u == 0x0B || u == 0x0C || u == 0x0D || u == 0x20 || u == 0x85
        || u == 0xA0 || u == 0x1680 || (0x2000 <= u && u <= 0x200A) || u == 0x2028 || u == 0x2029
        || u == 0x202F || u == 0x205F || u == 0x3000
}

fn is_ws(c: char) -> (r: bool)
    ensures
        r == is_ws_char(c),
{
    let u = c as u32;
    u == 0x09 || u == 0x0A || u == 0x0B || u == 0x0C || u == 0x0D || u == 0x20 || u == 0x85
        || u == 0xA0 || u == 0x1680 || (0x2000 <= u && u <= 0x200A) || u == 0x2028 || u == 0x2029
        || u == 0x202F || u == 0x205F || u == 0x3000
}

/// First index at or after `i` that does not hold whitespace.
pub open spec fn ws_prefix_end(s: Seq<char>, i: int) -> int
    recommends
        0 <= i <= s.len(),
    decreases s.len() - i,
{
    if i < 0 || i >= s.len() {
        s.len() as int
    } else if !is_ws_char(s[i]) {
        i
    } else {
        ws_prefix_end(s, i + 1)
    }
}

/// Start of the whitespace run that ends at index `j` (exclusive).
pub open spec fn ws_suffix_start(s: Seq<char>, j: int) -> int
    recommends
        0 <= j <= s.len(),
    decreases j,
{
    if j <= 0 {
        0
    } else if !is_ws_char(s[j - 1]) {
        j
    } else {
        ws_suffix_start(s, j - 1)
    }
}

/// The text with leading and trailing whitespace removed, as `str::trim`
/// leaves it.
pub open spec fn trim_spec(s: Seq<char>) -> Seq<char> {
    let a = ws_prefix_end(s, 0);
    if a == s.len() {
        Seq::empty()
    } else {
        s.subrange(a, ws_suffix_start(s, s.len() as int))
    }
}

proof fn lemma_ws_prefix_end_at(s: Seq<char>, i: int, a: int)
    requires
        0 <= i <= a <= s.len(),
        forall|k: int| i <= k < a ==> is_ws_char(s[k]),
        a == s.len() || !is_ws_char(s[a]),
    ensures
        ws_prefix_end(s, i) == a,
    decreases a - i,
{
    if i < a {
        lemma_ws_prefix_end_at(s, i + 1, a);
    }
}

proof fn lemma_ws_suffix_start_at(s: Seq<char>, j: int, b: int)
    requires
        0 <= b <= j <= s.len(),
        forall|k: int| b <= k < j ==> is_ws_char(s[k]),
        b == 0 || !is_ws_char(s[b - 1]),
    ensures
        ws_suffix_start(s, j) == b,
    decreases j - b,
{
    if b < j {
        lemma_ws_suffix_start_at(s, j - 1, b);
    }
}

/// Remove leading and trailing whitespace, as the pipeline does before it
/// looks at any cell or header value.
pub fn trim(s: &str) -> (r: String)
    ensures
        r@ == trim_spec(s@),
{
    let n = s.unicode_len();
    let mut a: usize = 0;
    while a < n && is_ws(s.get_char(a))
        invariant
            0 <= a <= n,
            n == s@.len(),
            forall|k: int| 0 <= k < a ==> is_ws_char(s@[k]),
        decreases n - a,
    {
        a = a + 1;
    }
    proof {
        lemma_ws_prefix_end_at(s@, 0, a as int);
    }
    if a == n {
        let r = String::new();
        proof {
            assert(r@ =~= trim_spec(s@));
        }
        return r;
    }
    let mut b: usize = n;
    while b > a && is_ws(s.get_char(b - 1))
        invariant
            a <= b <= n,
            n == s@.len(),
            a < n,
            !is_ws_char(s@[a as int]),
            forall|k: int| b <= k < n ==> is_ws_char(s@[k]),
        decreases b,
    {
        b = b - 1;
    }
    proof {
        assert(b > a) by {
            if b == a {
                assert(is_ws_char(s@[a as int]));
            }
        }
        lemma_ws_suffix_start_at(s@, n as int, b as int);
    }
    let r = s.substring_char(a, b).to_owned();
    proof {
        assert(r@ =~= trim_spec(s@));
    }
    r
}

// ---------------------------------------------------------------------------
// Numeric cell text
// ---------------------------------------------------------------------------
//
// A trimmed cell counts as numeric exactly when `str::parse::<f64>` would
// accept it.  That parse succeeds exactly on the documented grammar
//
//     Float  ::= Sign? ( 'inf' | 'infinity' | 'nan' | Number )
//     Number ::= Count '.'? Count? Exp? | '.' Count Exp?
//     Exp    ::= ('e' | 'E') Sign? Count
//     Sign   ::= '+' | '-'
//     Count  ::= Digit+
//
// with the special words matched case-insensitively; overflow yields an
// infinity rather than a failure.  The spec below states that grammar and the
// executable recognizer is proved against it.

pub open spec fn is_digit_char(c: char) -> bool {
    0x30 <= c as u32 && c as u32 <= 0x39
}

fn is_digit(c: char) -> (r: bool)
    ensures
        r == is_digit_char(c),
{
    let u = c as u32;
    0x30 <= u && u <= 0x39
}

/// First index at or after `i` that does not hold a decimal digit.
pub open spec fn digits_end(s: Seq<char>, i: int) -> int
    recommends
        0 <= i <= s.len(),
    decreases s.len() - i,
{
    if i < 0 || i >= s.len() {
        s.len() as int
    } else if !is_digit_char(s[i]) {
        i
    } else {
        digits_end(s, i + 1)
    }
}

pub open spec fn sign_start(s: Seq<char>) -> int {
    if s.len() >= 1 && (s[0] == '+' || s[0] == '-') {
        1
    } else {
        0
    }
}

pub open spec fn char_ci(c: char, lo: char, up: char) -> bool {
    c == lo || c == up
}

pub open spec fn is_inf_from(s: Seq<char>, i: int) -> bool {
    s.len() - i == 3 && char_ci(s[i], 'i', 'I') && char_ci(s[i + 1], 'n', 'N') && char_ci(
        s[i + 2],
        'f',
        'F',
    )
}

pub open spec fn is_infinity_from(s: Seq<char>, i: int) -> bool {
    s.len() - i == 8 && char_ci(s[i], 'i', 'I') && char_ci(s[i + 1], 'n', 'N') && char_ci(
        s[i + 2],
        'f',
        'F',
    ) && char_ci(s[i + 3], 'i', 'I') && char_ci(s[i + 4], 'n', 'N') && char_ci(s[i + 5], 'i', 'I')
        && char_ci(s[i + 6], 't', 'T') && char_ci(s[i + 7], 'y', 'Y')
}

pub open spec fn is_nan_from(s: Seq<char>, i: int) -> bool {
    s.len() - i == 3 && char_ci(s[i], 'n', 'N') && char_ci(s[i + 1], 'a', 'A') && char_ci(
        s[i + 2],
        'n',
        'N',
    )
}

/// An exponent part (`e` or `E`, an optional sign, one or more digits)
/// standing at index `i` and reaching the end of the text.
pub open spec fn is_exp_from(s: Seq<char>, i: int) -> bool {
    &&& i < s.len()
    &&& (s[i] == 'e' || s[i] == 'E')
    &&& {
        let j = if i + 1 < s.len() && (s[i + 1] == '+' || s[i + 1] == '-') {
            i + 2
        } else {
            i + 1
        };
        j < s.len() && digits_end(s, j) == s.len()
    }
}

/// A number (mantissa with optional exponent) standing at index `i` and
/// reaching the end of the text.
pub open spec fn is_number_from(s: Seq<char>, i: int) -> bool
    recommends
        0 <= i <= s.len(),
{
    let p1 = digits_end(s, i);
    let has_dot = p1 < s.len() && s[p1] == '.';
    let p2 = if has_dot {
        p1 + 1
    } else {
        p1
    };
    let p3 = digits_end(s, p2);
    &&& (p1 > i || (has_dot && p3 > p2))
    &&& (p3 == s.len() || is_exp_from(s, p3))
}

/// Whether the text parses as a 64-bit floating-point number, the test that
/// decides which cells feed a column's aggregate.
pub open spec fn is_numeric_text(s: Seq<char>) -> bool {
    let i = sign_start(s);
    is_inf_from(s, i) || is_infinity_from(s, i) || is_nan_from(s, i) || is_number_from(s, i)
}

fn scan_digits(s: &str, n: usize, i: usize) -> (r: usize)
    requires
        i <= n,
        n == s@.len(),
    ensures
        r == digits_end(s@, i as int),
        i <= r <= n,
{
    let mut j = i;
    while j < n && is_digit(s.get_char(j))
        invariant
            i <= j <= n,
            n == s@.len(),
            digits_end(s@, i as int) == digits_end(s@, j as int),
        decreases n - j,
    {
        j = j + 1;
    }
    j
}

/// Whether `str::parse::<f64>` would accept this text.
pub fn is_numeric(s: &str) -> (r: bool)
    ensures
        r == is_numeric_text(s@),
{
    let n = s.unicode_len();
    let start: usize = if n >= 1 {
        let c = s.get_char(0);
        if c == '+' || c == '-' {
            1
        } else {
            0
        }
    } else {
        0
    };
    if n - start == 3 {
        let c0 = s.get_char(start);
        let c1 = s.get_char(start + 1);
        let c2 = s.get_char(start + 2);
        if (c0 == 'i' || c0 == 'I') && (c1 == 'n' || c1 == 'N') && (c2 == 'f' || c2 == 'F') {
            return true;
        }
        if (c0 == 'n' || c0 == 'N') && (c1 == 'a' || c1 == 'A') && (c2 == 'n' || c2 == 'N') {
            return true;
        }
    }
    if n - start == 8 {
        let c0 = s.get_char(start);
        let c1 = s.get_char(start + 1);
        let c2 = s.get_char(start + 2);
        let c3 = s.get_char(start + 3);
        let c4 = s.get_char(start + 4);
        let c5 = s.get_char(start + 5);
        let c6 = s.get_char(start + 6);
        let c7 = s.get_char(start + 7);
        if (c0 == 'i' || c0 == 'I') && (c1 == 'n' || c1 == 'N') && (c2 == 'f' || c2 == 'F') && (c3
            == 'i' || c3 == 'I') && (c4 == 'n' || c4 == 'N') && (c5 == 'i' || c5 == 'I') && (c6
            == 't' || c6 == 'T') && (c7 == 'y' || c7 == 'Y') {
            return true;
        }
    }
    let p1 = scan_digits(s, n, start);
    let has_dot = p1 < n && s.get_char(p1) == '.';
    let p2 = if has_dot {
        p1 + 1
    } else {
        p1
    };
    let p3 = scan_digits(s, n, p2);
    if !(p1 > start || (has_dot && p3 > p2)) {
        return false;
    }
    if p3 == n {
        return true;
    }
    let ce = s.get_char(p3);
    if !(ce == 'e' || ce == 'E') {
        return false;
    }
    let j: usize = if p3 + 1 < n {
        let cs = s.get_char(p3 + 1);
        if cs == '+' || cs == '-' {
            p3 + 2
        } else {
            p3 + 1
        }
    } else {
        p3 + 1
    };
    if j >= n {
        return false;
    }
    let pe = scan_digits(s, n, j);
    pe == n
}

// ---------------------------------------------------------------------------
// Decimal formatting of counts
// ---------------------------------------------------------------------------

pub open spec fn digit_char(d: int) -> char
    recommends
        0 <= d <= 9,
{
    if d == 0 {
        '0'
    } else if d == 1 {
        '1'
    } else if d == 2 {
        '2'
    } else if d == 3 {
        '3'
    } else if d == 4 {
        '4'
    } else if d == 5 {
        '5'
    } else if d == 6 {
        '6'
    } else if d == 7 {
        '7'
    } else if d == 8 {
        '8'
    } else {
        '9'
    }
}

/// The plain decimal rendering of a non-negative integer, no sign and no
/// decimal point, as a count is answered.
pub open spec fn dec_digits(n: int) -> Seq<char>
    recommends
        n >= 0,
    decreases n,
{
    if n < 10 {
        seq![digit_char(n)]
    } else {
        dec_digits(n / 10).push(digit_char(n % 10))
    }
}

fn append_digit(out: &mut String, d: usize)
    requires
        d <= 9,
    ensures
        final(out)@ == old(out)@.push(digit_char(d as int)),
{
    if d == 0 {
        out.append("0");
        proof {
            reveal_strlit("0");
            assert(out@ =~= old(out)@.push('0'));
        }
    } else if d == 1 {
        out.append("1");
        proof {
            reveal_strlit("1");
            assert(out@ =~= old(out)@.push('1'));
        }
    } else if d == 2 {
        out.append("2");
        proof {
            reveal_strlit("2");
            assert(out@ =~= old(out)@.push('2'));
        }
    } else if d == 3 {
        out.append("3");
        proof {
            reveal_strlit("3");
            assert(out@ =~= old(out)@.push('3'));
        }
    } else if d == 4 {
        out.append("4");
        proof {
            reveal_strlit("4");
            assert(out@ =~= old(out)@.push('4'));
        }
    } else if d == 5 {
        out.append("5");
        proof {
            reveal_strlit("5");
            assert(out@ =~= old(out)@.push('5'));
        }
    } else if d == 6 {
        out.append("6");
        proof {
            reveal_strlit("6");
            assert(out@ =~= old(out)@.push('6'));
        }
    } else if d == 7 {
        out.append("7");
        proof {
            reveal_strlit("7");
            assert(out@ =~= old(out)@.push('7'));
        }
    } else if d == 8 {
        out.append("8");
        proof {
            reveal_strlit("8");
            assert(out@ =~= old(out)@.push('8'));
        }
    } else {
        out.append("9");
        proof {
            reveal_strlit("9");
            assert(out@ =~= old(out)@.push('9'));
        }
    }
}

/// Render a count in plain decimal.
pub fn format_count(n: usize) -> (r: String)
    ensures
        r@ == dec_digits(n as int),
    decreases n,
{
    if n < 10 {
        let mut s = String::new();
        append_digit(&mut s, n);
        proof {
            assert(s@ =~= seq![digit_char(n as int)]);
        }
        s
    } else {
        let mut s = format_count(n / 10);
        append_digit(&mut s, n % 10);
        s
    }
}

} // verus!
