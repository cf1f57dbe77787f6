//! A byte-level parser for the JSON subset spoken by the sidecar's metrics
//! endpoint.
//!
//! Decimal numbers are read into an exact integer form — a digit string with
//! a power-of-ten scale — and converted to tenths of a unit with truncation
//! toward zero, so no floating point is involved anywhere.

use vstd::prelude::*;

use vstd::arithmetic::div_mod::lemma_basic_div;
use vstd::arithmetic::mul::lemma_mul_inequality;

verus! {

/// JSON insignificant whitespace: space, tab, line feed, carriage return.
pub open spec fn is_ws(b: u8) -> bool {
    b == 32 || b == 9 || b == 10 || b == 13
}

/// An ASCII decimal digit.
pub open spec fn is_digit(b: u8) -> bool {
    48 <= b <= 57
}

/// The first position at or after `i` holding no whitespace.
pub open spec fn spec_skip_ws(s: Seq<u8>, i: int) -> int
    decreases s.len() - i,
    when 0 <= i <= s.len()
{
    if i < s.len() && is_ws(s[i]) {
        spec_skip_ws(s, i + 1)
    } else {
        i
    }
}

pub proof fn lemma_skip_ws_bounds(s: Seq<u8>, i: int)
    requires
        0 <= i <= s.len(),
    ensures
        i <= spec_skip_ws(s, i) <= s.len(),
    decreases s.len() - i,
{
    if i < s.len() && is_ws(s[i]) {
        lemma_skip_ws_bounds(s, i + 1);
    }
}

/// Advances past insignificant whitespace.
pub fn skip_ws(s: &[u8], i: usize) -> (j: usize)
    requires
        i <= s@.len(),
    ensures
        j == spec_skip_ws(s@, i as int),
        i <= j <= s@.len(),
{
    let mut j = i;
    while j < s.len() && (s[j] == 32 || s[j] == 9 || s[j] == 10 || s[j] == 13)
        invariant
            i <= j <= s@.len(),
            spec_skip_ws(s@, i as int) == spec_skip_ws(s@, j as int),
        decreases s@.len() - j,
    {
        j += 1;
    }
    j
}

/// The first position at or after `i` holding no decimal digit.
pub open spec fn spec_scan_digits(s: Seq<u8>, i: int) -> int
    decreases s.len() - i,
    when 0 <= i <= s.len()
{
    if i < s.len() && is_digit(s[i]) {
        spec_scan_digits(s, i + 1)
    } else {
        i
    }
}

pub proof fn lemma_scan_digits_bounds(s: Seq<u8>, i: int)
    requires
        0 <= i <= s.len(),
    ensures
        i <= spec_scan_digits(s, i) <= s.len(),
        forall|k: int| i <= k < spec_scan_digits(s, i) ==> is_digit(s[k]),
    decreases s.len() - i,
{
    if i < s.len() && is_digit(s[i]) {
        lemma_scan_digits_bounds(s, i + 1);
    }
}

/// Advances past decimal digits.
pub fn scan_digits(s: &[u8], i: usize) -> (j: usize)
    requires
        i <= s@.len(),
    ensures
        j == spec_scan_digits(s@, i as int),
        i <= j <= s@.len(),
{
    let mut j = i;
    while j < s.len() && 48 <= s[j] && s[j] <= 57
        invariant
            i <= j <= s@.len(),
            spec_scan_digits(s@, i as int) == spec_scan_digits(s@, j as int),
        decreases s@.len() - j,
    {
        j += 1;
    }
    j
}

/// The literal occurs in `s` at position `i`.
pub open spec fn spec_match_lit(s: Seq<u8>, i: int, lit: Seq<u8>) -> bool {
    &&& 0 <= i
    &&& i + lit.len() <= s.len()
    &&& s.subrange(i, i + lit.len()) == lit
}

/// The value of a digit string, most significant digit first.
pub open spec fn digits_val(ds: Seq<u8>) -> int
    decreases ds.len(),
{
    if ds.len() == 0 {
        0
    } else {
        digits_val(ds.drop_last()) * 10 + (ds.last() - 48)
    }
}

pub proof fn lemma_digits_val_nonneg(ds: Seq<u8>)
    requires
        forall|k: int| 0 <= k < ds.len() ==> is_digit(ds[k]),
    ensures
        digits_val(ds) >= 0,
    decreases ds.len(),
{
    if ds.len() > 0 {
        lemma_digits_val_nonneg(ds.drop_last());
    }
}

/// A digit string's value only grows as digits are appended.
pub proof fn lemma_digits_val_prefix(ds: Seq<u8>, k: int)
    requires
        forall|j: int| 0 <= j < ds.len() ==> is_digit(ds[j]),
        0 <= k <= ds.len(),
    ensures
        digits_val(ds.take(k)) <= digits_val(ds),
    decreases ds.len() - k,
{
    if k < ds.len() {
        lemma_digits_val_prefix(ds, k + 1);
        assert(ds.take(k + 1).drop_last() =~= ds.take(k));
        assert(ds.take(k + 1).last() == ds[k]);
        lemma_digits_val_nonneg(ds.take(k));
    } else {
        assert(ds.take(k) =~= ds);
    }
}

/// Exponents are capped here: any larger exponent behaves the same in the
/// fixed-point conversion (overflow or zero), so the cap is invisible.
pub const EXP_CAP: i64 = 1_000_000_000_000_000;

/// The capped value of an exponent digit string.
pub open spec fn spec_exp_capped(ds: Seq<u8>) -> int {
    if digits_val(ds) > EXP_CAP {
        EXP_CAP as int
    } else {
        digits_val(ds)
    }
}

/// One parsed JSON number: `value = (-1)^neg * digits * 10^scale`, with
/// `integral` recording that it was written without a fraction or exponent.
pub struct JsonNumber {
    /// The sign.
    pub neg: bool,
    /// The ASCII digits of the integer and fraction parts, in order.
    pub digits: Vec<u8>,
    /// The power of ten the digit string is scaled by.
    pub scale: i64,
    /// Written as a plain integer, with no fraction dot and no exponent.
    pub integral: bool,
}

/// Parses a JSON number at `i`: an optional minus, an integer part without
/// a leading zero, an optional fraction, an optional capped exponent.
/// The result is the sign, the digit string, the scale, whether the number
/// was written as a plain integer, and the position after the number.
pub open spec fn spec_parse_number(s: Seq<u8>, i: int) -> Option<(bool, Seq<u8>, int, bool, int)> {
    let neg = i < s.len() && s[i] == 45;
    let ip = if neg { i + 1 } else { i };
    let int_end = spec_scan_digits(s, ip);
    if !(0 <= ip < s.len() && is_digit(s[ip])) {
        None
    } else if s[ip] == 48 && int_end != ip + 1 {
        None
    } else {
        let has_frac = int_end < s.len() && s[int_end] == 46;
        let fs = int_end + 1;
        let fe = spec_scan_digits(s, fs);
        if has_frac && fe == fs {
            None
        } else {
            let frac_end = if has_frac { fe } else { int_end };
            let frac_len: int = if has_frac { fe - fs } else { 0 };
            let digits = s.subrange(ip, int_end) + if has_frac {
                s.subrange(fs, fe)
            } else {
                Seq::empty()
            };
            let has_exp = frac_end < s.len() && (s[frac_end] == 101 || s[frac_end] == 69);
            if !has_exp {
                Some((neg, digits, -frac_len, !has_frac, frac_end))
            } else {
                let es0 = frac_end + 1;
                let eneg = es0 < s.len() && s[es0] == 45;
                let epos = es0 < s.len() && s[es0] == 43;
                let es = if eneg || epos { es0 + 1 } else { es0 };
                let ee = spec_scan_digits(s, es);
                if ee == es {
                    None
                } else {
                    let ev = spec_exp_capped(s.subrange(es, ee));
                    let scale = (if eneg { -ev } else { ev }) - frac_len;
                    Some((neg, digits, scale, false, ee))
                }
            }
        }
    }
}

pub proof fn lemma_parse_number_advances(s: Seq<u8>, i: int)
    requires
        0 <= i <= s.len(),
    ensures
        spec_parse_number(s, i) matches Some((neg, ds, sc, intg, end)) ==> i < end <= s.len(),
        spec_parse_number(s, i) matches Some((neg, ds, sc, intg, end)) ==> forall|k: int|
            0 <= k < ds.len() ==> is_digit(ds[k]),
{
    let neg = i < s.len() && s[i] == 45;
    let ip: int = if neg { i + 1 } else { i };
    if ip <= s.len() {
        lemma_scan_digits_bounds(s, ip);
        let int_end = spec_scan_digits(s, ip);
        if int_end + 1 <= s.len() {
            lemma_scan_digits_bounds(s, int_end + 1);
        }
        let has_frac = int_end < s.len() && s[int_end] == 46;
        let fe = spec_scan_digits(s, int_end + 1);
        let frac_end: int = if has_frac { fe } else { int_end };
        if 0 <= frac_end + 1 <= s.len() {
            lemma_scan_digits_bounds(s, frac_end + 1);
            if frac_end + 2 <= s.len() {
                lemma_scan_digits_bounds(s, frac_end + 2);
            }
        }
    }
}

/// Copies `s[from..to]` onto the end of `out`.
fn push_range(out: &mut Vec<u8>, s: &[u8], from: usize, to: usize)
    requires
        from <= to <= s@.len(),
    ensures
        final(out)@ == old(out)@ + s@.subrange(from as int, to as int),
{
    let mut k = from;
    while k < to
        invariant
            from <= k <= to <= s@.len(),
            out@ == old(out)@ + s@.subrange(from as int, k as int),
        decreases to - k,
    {
        out.push(s[k]);
        assert(out@ =~= old(out)@ + s@.subrange(from as int, k + 1));
        k += 1;
    }
}

/// Reads the capped value of the exponent digits `s[from..to]`.
fn read_exp_capped(s: &[u8], from: usize, to: usize) -> (r: u64)
    requires
        from <= to <= s@.len(),
        forall|k: int| from <= k < to ==> is_digit(s@[k]),
    ensures
        r == spec_exp_capped(s@.subrange(from as int, to as int)),
        r <= EXP_CAP as u64,
{
    let ghost full = s@.subrange(from as int, to as int);
    let mut e: u64 = 0;
    let mut k = from;
    while k < to
        invariant
            from <= k <= to <= s@.len(),
            forall|j: int| from <= j < to ==> is_digit(s@[j]),
            e == spec_exp_capped(s@.subrange(from as int, k as int)),
            e <= EXP_CAP,
        decreases to - k,
    {
        let ghost prefix = s@.subrange(from as int, k as int);
        let ghost next = s@.subrange(from as int, k + 1);
        proof {
            assert(next.drop_last() =~= prefix);
            assert(next.last() == s@[k as int]);
            lemma_digits_val_nonneg(prefix);
        }
        let d = s[k];
        let grown: u64 = e * 10 + ((d - 48) as u64);
        if grown > (EXP_CAP as u64) {
            e = EXP_CAP as u64;
        } else {
            e = grown;
        }
        proof {
            if digits_val(prefix) > EXP_CAP {
                assert(digits_val(next) > EXP_CAP) by {
                    lemma_mul_inequality(EXP_CAP as int, digits_val(prefix), 10);
                };
            }
        }
        k += 1;
    }
    assert(s@.subrange(from as int, to as int) =~= full);
    e
}

/// Parses a JSON number starting at `i`.
pub fn parse_number(s: &[u8], i: usize) -> (r: Option<(JsonNumber, usize)>)
    requires
        i <= s@.len(),
        s@.len() <= 0x10_0000,
    ensures
        match spec_parse_number(s@, i as int) {
            Some((neg, ds, sc, intg, end)) => r matches Some((n, j)) && n.neg == neg && n.digits@
                == ds && n.scale == sc && n.integral == intg && j == end,
            None => r is None,
        },
        r matches Some((n, j)) ==> -0x100_0000_0000_0000 <= n.scale <= 0x100_0000_0000_0000,
{
    proof {
        lemma_parse_number_advances(s@, i as int);
    }
    let neg = i < s.len() && s[i] == 45;
    let ip = if neg { i + 1 } else { i };
    if !(ip < s.len() && 48 <= s[ip] && s[ip] <= 57) {
        return None;
    }
    let int_end = scan_digits(s, ip);
    if s[ip] == 48 && int_end != ip + 1 {
        return None;
    }
    let has_frac = int_end < s.len() && s[int_end] == 46;
    let fs = int_end + 1;
    let fe = if has_frac { scan_digits(s, fs) } else { fs };
    if has_frac && fe == fs {
        return None;
    }
    let frac_end = if has_frac { fe } else { int_end };
    let frac_len: usize = if has_frac { fe - fs } else { 0 };

    let mut digits: Vec<u8> = Vec::new();
    push_range(&mut digits, s, ip, int_end);
    if has_frac {
        push_range(&mut digits, s, fs, fe);
    }

    let has_exp = frac_end < s.len() && (s[frac_end] == 101 || s[frac_end] == 69);
    if !has_exp {
        let n = JsonNumber { neg, digits, scale: 0i64 - (frac_len as i64), integral: !has_frac };
        return Some((n, frac_end));
    }
    let es0 = frac_end + 1;
    let eneg = es0 < s.len() && s[es0] == 45;
    let epos = es0 < s.len() && s[es0] == 43;
    let es = if eneg || epos { es0 + 1 } else { es0 };
    if es > s.len() {
        assert(spec_scan_digits(s@, es as int) == es);
        return None;
    }
    let ee = scan_digits(s, es);
    if ee == es {
        return None;
    }
    proof {
        lemma_scan_digits_bounds(s@, es as int);
    }
    let ev = read_exp_capped(s, es, ee);
    let scale: i64 = (if eneg { -(ev as i64) } else { ev as i64 }) - (frac_len as i64);
    let n = JsonNumber { neg, digits, scale, integral: false };
    Some((n, ee))
}

/// Powers of ten.
pub open spec fn pow10(e: nat) -> int
    decreases e,
{
    if e == 0 {
        1
    } else {
        10 * pow10((e - 1) as nat)
    }
}

pub proof fn lemma_pow10_pos(e: nat)
    ensures
        pow10(e) >= 1,
    decreases e,
{
    if e > 0 {
        lemma_pow10_pos((e - 1) as nat);
    }
}

pub proof fn lemma_pow10_increases(a: nat, b: nat)
    requires
        a <= b,
    ensures
        pow10(a) <= pow10(b),
    decreases b,
{
    if a < b {
        lemma_pow10_increases(a, (b - 1) as nat);
        lemma_pow10_pos((b - 1) as nat);
    }
}

/// Computes a power of ten exactly.
fn pow10_u128(e: u32) -> (r: u128)
    requires
        e <= 38,
    ensures
        r == pow10(e as nat),
{
    let mut r: u128 = 1;
    let mut k: u32 = 0;
    while k < e
        invariant
            k <= e <= 38,
            r == pow10(k as nat),
        decreases e - k,
    {
        proof {
            assert(pow10(38) == 0x4b3b4ca85a86c47a098a224000000000) by {
                reveal_with_fuel(pow10, 40);
            };
            lemma_pow10_increases((k + 1) as nat, 38nat);
            assert(pow10((k + 1) as nat) == 10 * pow10(k as nat));
        }
        r = r * 10;
        k += 1;
    }
    r
}

/// Reads the value of a digit string; absent when it exceeds `u128::MAX`.
pub fn digits_to_u128(digits: &Vec<u8>) -> (r: Option<u128>)
    requires
        forall|k: int| 0 <= k < digits@.len() ==> is_digit(digits@[k]),
    ensures
        match r {
            Some(v) => v == digits_val(digits@),
            None => digits_val(digits@) > u128::MAX,
        },
{
    let mut acc: u128 = 0;
    let mut k: usize = 0;
    while k < digits.len()
        invariant
            k <= digits@.len(),
            forall|j: int| 0 <= j < digits@.len() ==> is_digit(digits@[j]),
            acc == digits_val(digits@.take(k as int)),
        decreases digits@.len() - k,
    {
        let ghost prefix = digits@.take(k as int);
        let ghost next = digits@.take(k + 1);
        proof {
            assert(next.drop_last() =~= prefix);
            assert(next.last() == digits@[k as int]);
            lemma_digits_val_nonneg(prefix);
        }
        let d = digits[k];
        let grown = match acc.checked_mul(10) {
            Some(g) => g,
            None => {
                proof {
                    lemma_digits_val_prefix(digits@, k + 1);
                }
                return None;
            },
        };
        let acc2 = match grown.checked_add((d - 48) as u128) {
            Some(a) => a,
            None => {
                proof {
                    lemma_digits_val_prefix(digits@, k + 1);
                }
                return None;
            },
        };
        acc = acc2;
        k += 1;
    }
    assert(digits@.take(digits@.len() as int) =~= digits@);
    Some(acc)
}

/// The number's value in tenths of a unit, truncated toward zero; absent
/// when the digit string exceeds `u128::MAX` or the result does not fit a
/// signed 64-bit value.
pub open spec fn spec_num_to_deci(neg: bool, digits: Seq<u8>, scale: int) -> Option<i64> {
    let d = digits_val(digits);
    if d > u128::MAX {
        None
    } else {
        let e = scale + 1;
        let mag = if e >= 0 {
            d * pow10(e as nat)
        } else {
            d / pow10((-e) as nat)
        };
        if mag <= i64::MAX {
            Some((if neg { -mag } else { mag }) as i64)
        } else {
            None
        }
    }
}

/// Converts a parsed number to tenths of a unit, truncating toward zero.
#[verifier::rlimit(60)]
pub fn num_to_deci(n: &JsonNumber) -> (r: Option<i64>)
    requires
        forall|k: int| 0 <= k < n.digits@.len() ==> is_digit(n.digits@[k]),
        -0x100_0000_0000_0000 <= n.scale <= 0x100_0000_0000_0000,
    ensures
        r == spec_num_to_deci(n.neg, n.digits@, n.scale as int),
{
    proof {
        lemma_digits_val_nonneg(n.digits@);
    }
    let d = match digits_to_u128(&n.digits) {
        Some(d) => d,
        None => {
            return None;
        },
    };
    let ghost e_spec = n.scale + 1;
    if d == 0 {
        proof {
            if e_spec >= 0 {
                assert(0int * pow10(e_spec as nat) == 0);
            } else {
                lemma_pow10_pos((-e_spec) as nat);
                lemma_basic_div(0int, pow10((-e_spec) as nat));
            }
        }
        return Some(0);
    }
    let e: i64 = n.scale + 1;
    if e >= 0 {
        if e >= 19 {
            proof {
                lemma_pow10_increases(19nat, e as nat);
                lemma_pow10_pos(e as nat);
                lemma_mul_inequality(1int, d as int, pow10(e as nat));
                assert(pow10(19) == 10_000_000_000_000_000_000) by {
                    reveal_with_fuel(pow10, 21);
                };
                assert(d * pow10(e as nat) >= 1 * pow10(e as nat));
            }
            return None;
        }
        let p = pow10_u128(e as u32);
        let mag = match d.checked_mul(p) {
            Some(m) => m,
            None => {
                return None;
            },
        };
        if mag > (i64::MAX as u128) {
            None
        } else {
            Some(if n.neg { -(mag as i64) } else { mag as i64 })
        }
    } else {
        let k: i64 = -e;
        if k >= 39 {
            proof {
                lemma_pow10_increases(39nat, k as nat);
                assert(pow10(39) == 0x2f050fe938943acc45f65568000000000) by {
                    reveal_with_fuel(pow10, 41);
                };
                lemma_basic_div(d as int, pow10(k as nat));
            }
            return Some(0);
        }
        let p = pow10_u128(k as u32);
        proof {
            lemma_pow10_pos(k as nat);
        }
        let mag = d / p;
        if mag > (i64::MAX as u128) {
            None
        } else {
            Some(if n.neg { -(mag as i64) } else { mag as i64 })
        }
    }
}

/// The byte a string escape character stands for: quote, backslash, slash,
/// backspace, form feed, line feed, carriage return, tab. Unicode escapes
/// are not accepted here; a body using one is treated as malformed.
pub open spec fn spec_unescape(c: u8) -> Option<u8> {
    if c == 34 {
        Some(34u8)
    } else if c == 92 {
        Some(92u8)
    } else if c == 47 {
        Some(47u8)
    } else if c == 98 {
        Some(8u8)
    } else if c == 102 {
        Some(12u8)
    } else if c == 110 {
        Some(10u8)
    } else if c == 114 {
        Some(13u8)
    } else if c == 116 {
        Some(9u8)
    } else {
        None
    }
}

/// The content and end position of a string body starting just after the
/// opening quote: bytes up to the closing quote, with escapes decoded and
/// raw control bytes rejected.
pub open spec fn spec_string_body(s: Seq<u8>, i: int) -> Option<(Seq<u8>, int)>
    decreases s.len() - i,
    when 0 <= i <= s.len()
{
    if i >= s.len() {
        None
    } else if s[i] == 34 {
        Some((Seq::empty(), i + 1))
    } else if s[i] == 92 {
        if i + 1 < s.len() {
            match spec_unescape(s[i + 1]) {
                Some(u) => match spec_string_body(s, i + 2) {
                    Some((t, e)) => Some((seq![u] + t, e)),
                    None => None,
                },
                None => None,
            }
        } else {
            None
        }
    } else if s[i] < 32 {
        None
    } else {
        match spec_string_body(s, i + 1) {
            Some((t, e)) => Some((seq![s[i]] + t, e)),
            None => None,
        }
    }
}

pub proof fn lemma_string_body_advances(s: Seq<u8>, i: int)
    requires
        0 <= i <= s.len(),
    ensures
        spec_string_body(s, i) matches Some((t, e)) ==> i < e <= s.len(),
    decreases s.len() - i,
{
    if i < s.len() {
        if s[i] == 92 {
            if i + 2 <= s.len() {
                lemma_string_body_advances(s, i + 2);
            }
        } else if s[i] != 34 {
            lemma_string_body_advances(s, i + 1);
        }
    }
}

/// A whole string at `i`: the opening quote, the body, the closing quote.
pub open spec fn spec_parse_string(s: Seq<u8>, i: int) -> Option<(Seq<u8>, int)> {
    if 0 <= i < s.len() && s[i] == 34 {
        spec_string_body(s, i + 1)
    } else {
        None
    }
}

pub proof fn lemma_parse_string_advances(s: Seq<u8>, i: int)
    requires
        0 <= i <= s.len(),
    ensures
        spec_parse_string(s, i) matches Some((t, e)) ==> i < e <= s.len(),
{
    if 0 <= i < s.len() && s[i] == 34 {
        lemma_string_body_advances(s, i + 1);
    }
}

/// Decodes one escape character.
fn unescape_byte(c: u8) -> (r: Option<u8>)
    ensures
        r == spec_unescape(c),
{
    if c == 34 {
        Some(34)
    } else if c == 92 {
        Some(92)
    } else if c == 47 {
        Some(47)
    } else if c == 98 {
        Some(8)
    } else if c == 102 {
        Some(12)
    } else if c == 110 {
        Some(10)
    } else if c == 114 {
        Some(13)
    } else if c == 116 {
        Some(9)
    } else {
        None
    }
}

/// Parses a whole string at `i` and returns its decoded content and the
/// position after the closing quote.
pub fn parse_string(s: &[u8], i: usize) -> (r: Option<(Vec<u8>, usize)>)
    requires
        i <= s@.len(),
    ensures
        match spec_parse_string(s@, i as int) {
            Some((t, e)) => r matches Some((v, j)) && v@ == t && j == e,
            None => r is None,
        },
{
    if !(i < s.len() && s[i] == 34) {
        return None;
    }
    let mut out: Vec<u8> = Vec::new();
    let mut j = i + 1;
    loop
        invariant
            i + 1 <= j <= s@.len(),
            i < s@.len() && s@[i as int] == 34,
            spec_string_body(s@, i + 1) == match spec_string_body(s@, j as int) {
                Some((t, e)) => Some((out@ + t, e)),
                None => None::<(Seq<u8>, int)>,
            },
        decreases s@.len() - j,
    {
        if j >= s.len() {
            return None;
        }
        let c = s[j];
        if c == 34 {
            assert(spec_string_body(s@, j as int) == Some((Seq::<u8>::empty(), j + 1)));
            assert(out@ + Seq::<u8>::empty() =~= out@);
            return Some((out, j + 1));
        } else if c == 92 {
            if j + 1 >= s.len() {
                return None;
            }
            let u = match unescape_byte(s[j + 1]) {
                Some(u) => u,
                None => {
                    return None;
                },
            };
            let ghost prev = out@;
            out.push(u);
            proof {
                match spec_string_body(s@, j + 2) {
                    Some((t, e)) => {
                        assert(spec_string_body(s@, j as int) == Some((seq![u] + t, e)));
                        assert(prev + (seq![u] + t) =~= (prev + seq![u]) + t);
                    },
                    None => {
                        assert(spec_string_body(s@, j as int) is None);
                    },
                }
            }
            j += 2;
        } else if c < 32 {
            return None;
        } else {
            let ghost prev = out@;
            out.push(c);
            proof {
                match spec_string_body(s@, j + 1) {
                    Some((t, e)) => {
                        assert(spec_string_body(s@, j as int) == Some((seq![c] + t, e)));
                        assert(prev + (seq![c] + t) =~= (prev + seq![c]) + t);
                    },
                    None => {
                        assert(spec_string_body(s@, j as int) is None);
                    },
                }
            }
            j += 1;
        }
    }
}

/// The end position of the string body, without its content.
pub open spec fn spec_string_body_end(s: Seq<u8>, i: int) -> Option<int> {
    match spec_string_body(s, i) {
        Some((t, e)) => Some(e),
        None => None,
    }
}

/// Advances past a whole string at `i` without keeping its content.
fn skip_string(s: &[u8], i: usize) -> (r: Option<usize>)
    requires
        i <= s@.len(),
    ensures
        match spec_parse_string(s@, i as int) {
            Some((t, e)) => r == Some(e as usize),
            None => r is None,
        },
{
    if !(i < s.len() && s[i] == 34) {
        return None;
    }
    let mut j = i + 1;
    loop
        invariant
            i + 1 <= j <= s@.len(),
            i < s@.len() && s@[i as int] == 34,
            spec_string_body_end(s@, i + 1) == spec_string_body_end(s@, j as int),
        decreases s@.len() - j,
    {
        if j >= s.len() {
            return None;
        }
        let c = s[j];
        if c == 34 {
            return Some(j + 1);
        } else if c == 92 {
            if j + 1 >= s.len() {
                return None;
            }
            if unescape_byte(s[j + 1]).is_none() {
                return None;
            }
            j += 2;
        } else if c < 32 {
            return None;
        } else {
            j += 1;
        }
    }
}

/// A byte that ends an unquoted scalar token: comma, closing brace or
/// bracket, or whitespace.
pub open spec fn is_scalar_end(b: u8) -> bool {
    b == 44 || b == 125 || b == 93 || is_ws(b)
}

/// The first position at or after `i` ending an unquoted scalar token.
pub open spec fn spec_scan_scalar(s: Seq<u8>, i: int) -> int
    decreases s.len() - i,
    when 0 <= i <= s.len()
{
    if i < s.len() && !is_scalar_end(s[i]) {
        spec_scan_scalar(s, i + 1)
    } else {
        i
    }
}

pub proof fn lemma_scan_scalar_bounds(s: Seq<u8>, i: int)
    requires
        0 <= i <= s.len(),
    ensures
        i <= spec_scan_scalar(s, i) <= s.len(),
    decreases s.len() - i,
{
    if i < s.len() && !is_scalar_end(s[i]) {
        lemma_scan_scalar_bounds(s, i + 1);
    }
}

/// Advances past an unquoted scalar token.
fn scan_scalar(s: &[u8], i: usize) -> (j: usize)
    requires
        i <= s@.len(),
    ensures
        j == spec_scan_scalar(s@, i as int),
        i <= j <= s@.len(),
{
    let mut j = i;
    while j < s.len() && !(s[j] == 44 || s[j] == 125 || s[j] == 93 || s[j] == 32 || s[j] == 9
        || s[j] == 10 || s[j] == 13)
        invariant
            i <= j <= s@.len(),
            spec_scan_scalar(s@, i as int) == spec_scan_scalar(s@, j as int),
        decreases s@.len() - j,
    {
        j += 1;
    }
    j
}

/// The position after the end of a bracketed run that is already `depth`
/// levels deep: strings are honored, brackets of either kind are counted,
/// everything else is passed over.
pub open spec fn spec_skip_composite(s: Seq<u8>, i: int, depth: int) -> Option<int>
    decreases s.len() - i,
    when 0 <= i <= s.len() && depth >= 1
    via spec_skip_composite_decreases
{
    if i >= s.len() {
        None
    } else if s[i] == 34 {
        match spec_string_body(s, i + 1) {
            Some((t, e)) => spec_skip_composite(s, e, depth),
            None => None,
        }
    } else if s[i] == 123 || s[i] == 91 {
        spec_skip_composite(s, i + 1, depth + 1)
    } else if s[i] == 125 || s[i] == 93 {
        if depth == 1 {
            Some(i + 1)
        } else {
            spec_skip_composite(s, i + 1, depth - 1)
        }
    } else {
        spec_skip_composite(s, i + 1, depth)
    }
}

#[via_fn]
proof fn spec_skip_composite_decreases(s: Seq<u8>, i: int, depth: int) {
    if 0 <= i <= s.len() && depth >= 1 && i < s.len() && s[i] == 34 {
        lemma_string_body_advances(s, i + 1);
    }
}

pub proof fn lemma_skip_composite_advances(s: Seq<u8>, i: int, depth: int)
    requires
        0 <= i <= s.len(),
        depth >= 1,
    ensures
        spec_skip_composite(s, i, depth) matches Some(e) ==> i < e <= s.len(),
    decreases s.len() - i,
{
    if i < s.len() {
        if s[i] == 34 {
            lemma_string_body_advances(s, i + 1);
            if let Some((t, e)) = spec_string_body(s, i + 1) {
                lemma_skip_composite_advances(s, e, depth);
            }
        } else if s[i] == 123 || s[i] == 91 {
            lemma_skip_composite_advances(s, i + 1, depth + 1);
        } else if s[i] == 125 || s[i] == 93 {
            if depth > 1 {
                lemma_skip_composite_advances(s, i + 1, depth - 1);
            }
        } else {
            lemma_skip_composite_advances(s, i + 1, depth);
        }
    }
}

/// The position after one whole value at `i`, which is passed over without
/// being interpreted: a string is decoded, brackets are balanced, any other
/// run of bytes counts as one scalar token.
pub open spec fn spec_skip_value(s: Seq<u8>, i: int) -> Option<int> {
    if !(0 <= i < s.len()) {
        None
    } else if s[i] == 34 {
        spec_string_body_end(s, i + 1)
    } else if s[i] == 123 || s[i] == 91 {
        spec_skip_composite(s, i + 1, 1)
    } else {
        let j = spec_scan_scalar(s, i);
        if j > i {
            Some(j)
        } else {
            None
        }
    }
}

pub proof fn lemma_skip_value_advances(s: Seq<u8>, i: int)
    requires
        0 <= i <= s.len(),
    ensures
        spec_skip_value(s, i) matches Some(e) ==> i < e <= s.len(),
{
    if 0 <= i < s.len() {
        lemma_string_body_advances(s, i + 1);
        lemma_skip_composite_advances(s, i + 1, 1);
        lemma_scan_scalar_bounds(s, i);
    }
}

/// Passes over one whole value at `i` and returns the position after it.
pub fn skip_value(s: &[u8], i: usize) -> (r: Option<usize>)
    requires
        i <= s@.len(),
        s@.len() <= 0x10_0000,
    ensures
        match spec_skip_value(s@, i as int) {
            Some(e) => r == Some(e as usize),
            None => r is None,
        },
{
    if i >= s.len() {
        return None;
    }
    let c = s[i];
    if c == 34 {
        return skip_string(s, i);
    }
    if c == 123 || c == 91 {
        let mut j = i + 1;
        let mut depth: usize = 1;
        loop
            invariant
                i + 1 <= j <= s@.len(),
                1 <= depth <= j,
                s@.len() <= 0x10_0000,
                i < s@.len() && (s@[i as int] == 123 || s@[i as int] == 91),
                spec_skip_composite(s@, i + 1, 1) == spec_skip_composite(
                    s@,
                    j as int,
                    depth as int,
                ),
            decreases s@.len() - j,
        {
            if j >= s.len() {
                return None;
            }
            let c2 = s[j];
            if c2 == 34 {
                let e = match skip_string(s, j) {
                    Some(e) => e,
                    None => {
                        return None;
                    },
                };
                proof {
                    lemma_string_body_advances(s@, j + 1);
                }
                j = e;
            } else if c2 == 123 || c2 == 91 {
                depth += 1;
                j += 1;
            } else if c2 == 125 || c2 == 93 {
                if depth == 1 {
                    return Some(j + 1);
                }
                depth -= 1;
                j += 1;
            } else {
                j += 1;
            }
        }
    }
    let j = scan_scalar(s, i);
    if j > i {
        Some(j)
    } else {
        None
    }
}

/// The number's value as an unsigned 64-bit integer: present exactly when it
/// was written as a plain integer (no fraction, no exponent), is not a
/// negative value other than zero, and fits.
pub open spec fn spec_num_to_u64(neg: bool, digits: Seq<u8>, integral: bool) -> Option<u64> {
    let d = digits_val(digits);
    if integral && (!neg || d == 0) && d <= u64::MAX {
        Some(d as u64)
    } else {
        None
    }
}

/// Converts a parsed number to an unsigned 64-bit integer.
pub fn num_to_u64(n: &JsonNumber) -> (r: Option<u64>)
    requires
        forall|k: int| 0 <= k < n.digits@.len() ==> is_digit(n.digits@[k]),
    ensures
        r == spec_num_to_u64(n.neg, n.digits@, n.integral),
{
    if !n.integral {
        return None;
    }
    let d = match digits_to_u128(&n.digits) {
        Some(d) => d,
        None => {
            return None;
        },
    };
    if n.neg && d != 0 {
        return None;
    }
    if d > (u64::MAX as u128) {
        return None;
    }
    Some(d as u64)
}

} // verus!
