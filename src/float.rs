use vstd::prelude::*;
use vstd::string::StringExecFns;
use rustc_apfloat::ieee::Double;
use rustc_apfloat::Float;
use crate::report::{int_text, int_to_text};

verus! {

/// The binary64 sum of two numbers given by their bits (round to nearest,
/// ties to even).
pub uninterp spec fn ieee_sum(a: u64, b: u64) -> u64;

/// The binary64 difference `a - b`.
pub uninterp spec fn ieee_difference(a: u64, b: u64) -> u64;

/// The binary64 product.
pub uninterp spec fn ieee_product(a: u64, b: u64) -> u64;

/// The binary64 quotient `a / b`.
pub uninterp spec fn ieee_quotient(a: u64, b: u64) -> u64;

/// The scientific decimal text (`d.dddE+x`) of a binary64 number with at
/// most `precision` significant digits.
pub uninterp spec fn ieee_text(a: u64, precision: usize) -> Seq<char>;

/// The binary64 number a decimal text denotes, if it is one.
pub uninterp spec fn ieee_parse(s: Seq<char>) -> Option<u64>;

/// Relies on rustc_apfloat's `Add` for `ieee::Double`: IEEE-754 addition.
#[verifier::external_body]
pub fn float_add(a: u64, b: u64) -> (r: u64)
    ensures
        r == ieee_sum(a, b),
{
    (Double::from_bits(a as u128) + Double::from_bits(b as u128)).value.to_bits() as u64
}

/// Relies on rustc_apfloat's `Sub` for `ieee::Double`: IEEE-754 subtraction.
#[verifier::external_body]
pub fn float_sub(a: u64, b: u64) -> (r: u64)
    ensures
        r == ieee_difference(a, b),
{
    (Double::from_bits(a as u128) - Double::from_bits(b as u128)).value.to_bits() as u64
}

/// Relies on rustc_apfloat's `Mul` for `ieee::Double`: IEEE-754
/// multiplication.
#[verifier::external_body]
pub fn float_mul(a: u64, b: u64) -> (r: u64)
    ensures
        r == ieee_product(a, b),
{
    (Double::from_bits(a as u128) * Double::from_bits(b as u128)).value.to_bits() as u64
}

/// Relies on rustc_apfloat's `Div` for `ieee::Double`: IEEE-754 division.
#[verifier::external_body]
pub fn float_div(a: u64, b: u64) -> (r: u64)
    ensures
        r == ieee_quotient(a, b),
{
    (Double::from_bits(a as u128) / Double::from_bits(b as u128)).value.to_bits() as u64
}

/// Relies on rustc_apfloat's `Display` for `ieee::Double` with width 0 and a
/// precision: scientific decimal text with at most that many significant
/// digits (a precision of 0 would panic).
#[verifier::external_body]
fn float_text(a: u64, precision: usize) -> (r: String)
    requires
        1 <= precision <= MAX_DIGITS,
    ensures
        r@ == ieee_text(a, precision),
{
    format!("{:1$.2$}", Double::from_bits(a as u128), 0, precision)
}

/// Relies on rustc_apfloat's `FromStr` for `ieee::Double`: the number a
/// decimal text denotes, rounded to nearest.
#[verifier::external_body]
fn float_parse(s: &str) -> (r: Option<u64>)
    ensures
        r == ieee_parse(s@),
{
    s.parse::<Double>().ok().map(|d| d.to_bits() as u64)
}

/// The most significant digits a binary64 number needs to be read back.
pub const MAX_DIGITS: usize = 17;

/// The text with the fewest significant digits, from `p` on, that reads back
/// as `a` (the full seventeen when none does).
pub open spec fn shortest_from(a: u64, p: usize) -> Seq<char>
    decreases MAX_DIGITS - p,
{
    if p >= MAX_DIGITS {
        ieee_text(a, MAX_DIGITS)
    } else if ieee_parse(ieee_text(a, p)) == Some(a) {
        ieee_text(a, p)
    } else {
        shortest_from(a, (p + 1) as usize)
    }
}

/// The position of the first exponent mark at or after `i`, or the length.
pub open spec fn exponent_from(t: Seq<char>, i: int) -> int
    decreases t.len() - i,
{
    if i < 0 || i >= t.len() {
        t.len() as int
    } else if t[i] == 'E' {
        i
    } else {
        exponent_from(t, i + 1)
    }
}

/// The value of a decimal digit.
pub open spec fn digit_value(c: char) -> Option<int> {
    if c == '0' {
        Some(0)
    } else if c == '1' {
        Some(1)
    } else if c == '2' {
        Some(2)
    } else if c == '3' {
        Some(3)
    } else if c == '4' {
        Some(4)
    } else if c == '5' {
        Some(5)
    } else if c == '6' {
        Some(6)
    } else if c == '7' {
        Some(7)
    } else if c == '8' {
        Some(8)
    } else if c == '9' {
        Some(9)
    } else {
        None
    }
}

fn digit_of(c: char) -> (r: Option<i64>)
    ensures
        r matches Some(v) ==> digit_value(c) == Some(v as int),
        r is None ==> digit_value(c) is None,
{
    if c == '0' {
        Some(0)
    } else if c == '1' {
        Some(1)
    } else if c == '2' {
        Some(2)
    } else if c == '3' {
        Some(3)
    } else if c == '4' {
        Some(4)
    } else if c == '5' {
        Some(5)
    } else if c == '6' {
        Some(6)
    } else if c == '7' {
        Some(7)
    } else if c == '8' {
        Some(8)
    } else if c == '9' {
        Some(9)
    } else {
        None
    }
}

/// Every character is a decimal digit.
pub open spec fn all_digits(s: Seq<char>) -> bool {
    forall|i: int| 0 <= i < s.len() ==> (#[trigger] digit_value(s[i])) is Some
}

/// The number a string of decimal digits denotes.
pub open spec fn decimal_value(s: Seq<char>) -> int
    decreases s.len(),
{
    if s.len() == 0 {
        0
    } else {
        decimal_value(s.drop_last()) * 10 + match digit_value(s.last()) {
            Some(d) => d,
            None => 0,
        }
    }
}

/// The text after a leading minus sign.
pub open spec fn unsigned_part(t: Seq<char>) -> Seq<char> {
    if t.len() > 0 && t[0] == '-' {
        t.subrange(1, t.len() as int)
    } else {
        t
    }
}

/// A scientific text `d.dddE+x` (or `E-x`) with a sign mark and one to four
/// exponent digits.
pub open spec fn is_scientific(t: Seq<char>) -> bool {
    let b = unsigned_part(t);
    let e = exponent_from(b, 0);
    &&& 3 <= e
    &&& e + 3 <= b.len() <= e + 6
    &&& b[1] == '.'
    &&& (b[e + 1] == '+' || b[e + 1] == '-')
    &&& all_digits(b.subrange(e + 2, b.len() as int))
}

/// The significant digits of a scientific text: the leading digit and the
/// fraction, without a lone `0` fraction.
pub open spec fn sci_digits(t: Seq<char>) -> Seq<char> {
    let b = unsigned_part(t);
    let e = exponent_from(b, 0);
    let frac = b.subrange(2, e);
    if frac == "0"@ {
        b.subrange(0, 1)
    } else {
        b.subrange(0, 1) + frac
    }
}

/// The power of ten of the leading digit of a scientific text.
pub open spec fn sci_exponent(t: Seq<char>) -> int {
    let b = unsigned_part(t);
    let e = exponent_from(b, 0);
    let v = decimal_value(b.subrange(e + 2, b.len() as int));
    if b[e + 1] == '-' {
        -v
    } else {
        v
    }
}

/// `n` zero digits.
pub open spec fn zeros(n: nat) -> Seq<char> {
    Seq::new(n, |_i: int| '0')
}

/// Significant digits `ds` with leading power `x`, laid out as Rust's debug
/// form: plain decimal with a point for 1e-4 <= |x| < 1e16, else `d.ddde-x`;
/// a single digit gets `.0` there too (`1.0e16`), so that a point always
/// shows.
pub open spec fn debug_layout(ds: Seq<char>, x: int) -> Seq<char> {
    if ds == "0"@ {
        "0.0"@
    } else if -4 <= x < 0 {
        "0."@ + zeros((-x - 1) as nat) + ds
    } else if 0 <= x < 16 {
        if ds.len() <= x + 1 {
            ds + zeros((x + 1 - ds.len()) as nat) + ".0"@
        } else {
            ds.subrange(0, x + 1) + "."@ + ds.subrange(x + 1, ds.len() as int)
        }
    } else if ds.len() == 1 {
        ds + ".0e"@ + int_text(x)
    } else {
        ds.subrange(0, 1) + "."@ + ds.subrange(1, ds.len() as int) + "e"@ + int_text(x)
    }
}

/// A scientific text from the float printer in Rust's debug form: `NaN`,
/// `inf`, `-inf`, or the sign and the laid-out digits; other text is kept.
pub open spec fn debug_text(t: Seq<char>) -> Seq<char> {
    if t == "+Inf"@ {
        "inf"@
    } else if t == "-Inf"@ {
        "-inf"@
    } else if !is_scientific(t) {
        t
    } else if t[0] == '-' {
        "-"@ + debug_layout(sci_digits(t), sci_exponent(t))
    } else {
        debug_layout(sci_digits(t), sci_exponent(t))
    }
}

/// A float as reports show it: the shortest digits that read back, in Rust's
/// debug form.
pub open spec fn float_text_spec(a: u64) -> Seq<char> {
    debug_text(shortest_from(a, 1))
}

fn zeros_text(n: usize) -> (r: String)
    ensures
        r@ == zeros(n as nat),
{
    let mut r = String::new();
    let mut i: usize = 0;
    while i < n
        invariant
            i <= n,
            r@ == zeros(i as nat),
        decreases n - i,
    {
        r.append("0");
        proof {
            reveal_strlit("0");
        }
        i = i + 1;
        assert(r@ =~= zeros(i as nat));
    }
    r
}

fn piece(t: &str, from: usize, to: usize) -> (r: String)
    requires
        from <= to <= t@.len(),
    ensures
        r@ == t@.subrange(from as int, to as int),
{
    String::from_str(t.substring_char(from, to))
}

/// Lays out significant digits with leading power `x` as Rust's debug form.
pub fn layout_digits(ds: &str, x: i64) -> (r: String)
    requires
        -10_000 <= x <= 10_000,
        ds@.len() >= 1,
    ensures
        r@ == debug_layout(ds@, x as int),
{
    let n = ds.unicode_len();
    let zero = String::from_str("0");
    let dss = String::from_str(ds);
    if dss == zero {
        return String::from_str("0.0");
    }
    if -4 <= x && x < 0 {
        let mut r = String::from_str("0.");
        let z = zeros_text((-x - 1) as usize);
        r.append(z.as_str());
        r.append(ds);
        r
    } else if 0 <= x && x < 16 {
        let xu = x as usize;
        if n <= xu + 1 {
            let mut r = String::from_str(ds);
            let z = zeros_text(xu + 1 - n);
            r.append(z.as_str());
            r.append(".0");
            r
        } else {
            let mut r = piece(ds, 0, xu + 1);
            r.append(".");
            let rest = piece(ds, xu + 1, n);
            r.append(rest.as_str());
            r
        }
    } else {
        let mut r = piece(ds, 0, 1);
        if n > 1 {
            r.append(".");
            let rest = piece(ds, 1, n);
            r.append(rest.as_str());
            r.append("e");
        } else {
            assert(ds@.subrange(0, 1) =~= ds@);
            r.append(".0e");
        }
        let e = int_to_text(x);
        r.append(e.as_str());
        r
    }
}

/// Turns the float printer's scientific text into Rust's debug form.
pub fn debug_float_text(t: String) -> (r: String)
    ensures
        r@ == debug_text(t@),
{
    let pinf = String::from_str("+Inf");
    let minf = String::from_str("-Inf");
    if t == pinf {
        return String::from_str("inf");
    }
    if t == minf {
        return String::from_str("-inf");
    }
    proof {
        assert(t@ != "+Inf"@);
        assert(t@ != "-Inf"@);
    }
    let n = t.unicode_len();
    let neg = n > 0 && t.get_char(0) == '-';
    let b: String = if neg {
        piece(t.as_str(), 1, n)
    } else {
        String::from_str(t.as_str())
    };
    assert(b@ == unsigned_part(t@));
    let bn = b.unicode_len();
    let mut e: usize = 0;
    while e < bn && b.get_char(e) != 'E'
        invariant
            bn == b@.len(),
            e <= bn,
            exponent_from(b@, 0) == exponent_from(b@, e as int),
        decreases bn - e,
    {
        e = e + 1;
    }
    assert(e as int == exponent_from(b@, 0));
    if !(3 <= e && e <= bn && bn - e >= 3 && bn - e <= 6) {
        return t;
    }
    if b.get_char(1) != '.' {
        return t;
    }
    let sign = b.get_char(e + 1);
    if !(sign == '+' || sign == '-') {
        return t;
    }
    let ghost ex = b@.subrange(e + 2, bn as int);
    let mut v: i64 = 0;
    let mut i: usize = e + 2;
    while i < bn
        invariant
            bn == b@.len(),
            e + 2 <= i <= bn,
            bn <= e + 6,
            ex == b@.subrange(e + 2, bn as int),
            b@ == unsigned_part(t@),
            t@ != "+Inf"@,
            t@ != "-Inf"@,
            neg == (t@.len() > 0 && t@[0] == '-'),
            e as int == exponent_from(b@, 0),
            3 <= e,
            e + 3 <= bn,
            b@[1] == '.',
            b@[e + 1] == sign,
            sign == '+' || sign == '-',
            all_digits(b@.subrange(e + 2, i as int)),
            v as int == decimal_value(b@.subrange(e + 2, i as int)),
            0 <= v < 10_000,
            i < e + 6 ==> v < 1_000,
            i < e + 5 ==> v < 100,
            i < e + 4 ==> v < 10,
        decreases bn - i,
    {
        let c = b.get_char(i);
        match digit_of(c) {
            Some(d) => {
                let ghost pre = b@.subrange(e + 2, i as int);
                assert(b@.subrange(e + 2, i + 1).drop_last() =~= pre);
                v = v * 10 + d;
                i = i + 1;
                assert forall|j: int| 0 <= j < b@.subrange(e + 2, i as int).len() implies (#[trigger] digit_value(b@.subrange(e + 2, i as int)[j])) is Some by {
                    if j < pre.len() {
                        assert(b@.subrange(e + 2, i as int)[j] == pre[j]);
                    }
                }
            },
            None => {
                assert(ex[i - (e + 2)] == c);
                assert(digit_value(ex[i - (e + 2)]) is None);
                assert(!all_digits(ex));
                assert(!is_scientific(t@));
                return t;
            },
        }
    }
    let x: i64 = if sign == '-' {
        -v
    } else {
        v
    };
    assert(x as int == sci_exponent(t@));
    let frac = piece(b.as_str(), 2, e);
    let zero = String::from_str("0");
    let mut ds = piece(b.as_str(), 0, 1);
    if frac != zero {
        ds.append(frac.as_str());
    }
    assert(ds@ == sci_digits(t@));
    let body = layout_digits(ds.as_str(), x);
    if neg {
        let mut r = String::from_str("-");
        r.append(body.as_str());
        r
    } else {
        body
    }
}

/// Renders a float as reports show it.
pub fn render_float(a: u64) -> (r: String)
    ensures
        r@ == float_text_spec(a),
{
    let mut p: usize = 1;
    let mut t = float_text(a, p);
    let mut done = false;
    while !done && p < MAX_DIGITS
        invariant
            1 <= p <= MAX_DIGITS,
            t@ == ieee_text(a, p),
            shortest_from(a, 1) == shortest_from(a, p),
            done ==> t@ == shortest_from(a, 1),
        decreases MAX_DIGITS - p + if done {
            0int
        } else {
            1int
        },
    {
        if float_parse(t.as_str()) == Some(a) {
            done = true;
        } else {
            p = p + 1;
            t = float_text(a, p);
        }
    }
    assert(t@ == shortest_from(a, 1));
    debug_float_text(t)
}

} // verus!
