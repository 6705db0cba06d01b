//! Numeric operands: a decimal number with an optional unit suffix.

use vstd::prelude::*;

use super::SCALE;

verus! {

/// Whether a character is an ASCII decimal digit.
pub open spec fn is_digit(c: char) -> bool {
    '0' <= c && c <= '9'
}

/// The value of a decimal digit.
pub open spec fn digit_value(c: char) -> int {
    c as int - '0' as int
}

/// The value of a run of decimal digits.
pub open spec fn digits_value(s: Seq<char>) -> int
    decreases s.len(),
{
    if s.len() == 0 {
        0
    } else {
        digits_value(s.drop_last()) * 10 + digit_value(s.last())
    }
}

/// The number of leading decimal digits of `s` from position `i` on.
pub open spec fn digit_run(s: Seq<char>, i: int) -> int
    decreases s.len() - i,
{
    if i < 0 || i >= s.len() || !is_digit(s[i]) {
        0
    } else {
        1 + digit_run(s, i + 1)
    }
}

/// Ten to a power.
pub open spec fn pow10(k: nat) -> int
    decreases k,
{
    if k == 0 {
        1
    } else {
        10 * pow10((k - 1) as nat)
    }
}

/// The most integer digits a number may have.
pub const MAX_INT_DIGITS: usize = 18;

/// The most fraction digits a number may have: its precision is a millionth.
pub const MAX_FRAC_DIGITS: usize = 6;

/// A number split into sign, integer digits, fraction digits and the rest.
pub struct NumberParts {
    pub negative: bool,
    pub int_digits: Seq<char>,
    pub frac_digits: Seq<char>,
    pub has_point: bool,
    pub suffix: Seq<char>,
}

/// Splits an operand into its number and its unit suffix.
pub open spec fn number_parts(s: Seq<char>) -> NumberParts {
    let negative = s.len() > 0 && s[0] == '-';
    let start: int = if negative { 1 } else { 0 };
    let k = digit_run(s, start);
    let int_end = start + k;
    let has_point = int_end < s.len() && s[int_end] == '.';
    let frac_start = if has_point { int_end + 1 } else { int_end };
    let f = if has_point { digit_run(s, frac_start) } else { 0 };
    NumberParts {
        negative,
        int_digits: s.subrange(start, int_end),
        frac_digits: s.subrange(frac_start, frac_start + f),
        has_point,
        suffix: s.subrange(frac_start + f, s.len() as int),
    }
}

/// Whether the number part of an operand is well formed: some integer digit,
/// a fraction only after a point with at least one digit, and no more digits
/// than fit.
pub open spec fn number_well_formed(p: NumberParts) -> bool {
    &&& 0 < p.int_digits.len() <= MAX_INT_DIGITS
    &&& p.has_point ==> 0 < p.frac_digits.len()
    &&& p.frac_digits.len() <= MAX_FRAC_DIGITS
}

/// The number in millionths, before its unit is applied.
pub open spec fn number_millionths(p: NumberParts) -> int {
    let magnitude = digits_value(p.int_digits) * SCALE + digits_value(p.frac_digits) * pow10(
        (MAX_FRAC_DIGITS - p.frac_digits.len()) as nat,
    );
    if p.negative {
        -magnitude
    } else {
        magnitude
    }
}

proof fn lemma_digits_value_bound(s: Seq<char>)
    requires
        forall|i: int| 0 <= i < s.len() ==> is_digit(#[trigger] s[i]),
    ensures
        0 <= digits_value(s) < pow10(s.len()),
    decreases s.len(),
{
    if s.len() > 0 {
        lemma_digits_value_bound(s.drop_last());
    }
}

proof fn lemma_digit_run(s: Seq<char>, i: int)
    requires
        0 <= i <= s.len(),
    ensures
        0 <= digit_run(s, i) <= s.len() - i,
        forall|j: int| i <= j < i + digit_run(s, i) ==> is_digit(#[trigger] s[j]),
        i + digit_run(s, i) < s.len() ==> !is_digit(s[i + digit_run(s, i)]),
    decreases s.len() - i,
{
    if i < s.len() && is_digit(s[i]) {
        lemma_digit_run(s, i + 1);
    }
}

/// The number of leading digits of `s` from `start` on.
fn count_digits(s: &Vec<char>, start: usize) -> (k: usize)
    requires
        start <= s.len(),
    ensures
        k == digit_run(s@, start as int),
{
    proof {
        lemma_digit_run(s@, start as int);
    }
    let mut i = start;
    while i < s.len() && '0' <= s[i] && s[i] <= '9'
        invariant
            start <= i <= start + digit_run(s@, start as int),
            0 <= digit_run(s@, start as int) <= s.len() - start,
            start + digit_run(s@, start as int) < s.len() ==> !is_digit(
                s@[start + digit_run(s@, start as int)],
            ),
            forall|j: int| start <= j < start + digit_run(s@, start as int) ==> is_digit(#[trigger] s@[j]),
        decreases s.len() - i,
    {
        i += 1;
    }
    i - start
}

/// The value of the digits `s[start..end]`.
fn value_of_digits(s: &Vec<char>, start: usize, end: usize) -> (v: i128)
    requires
        start <= end <= s.len(),
        end - start <= MAX_INT_DIGITS,
        forall|j: int| start <= j < end ==> is_digit(#[trigger] s@[j]),
    ensures
        v == digits_value(s@.subrange(start as int, end as int)),
        0 <= v < pow10((end - start) as nat),
{
    let mut i = start;
    let mut value: i128 = 0;
    proof {
        lemma_pow10_mono((end - start) as nat, MAX_INT_DIGITS as nat);
        reveal_with_fuel(pow10, 19);
    }
    while i < end
        invariant
            start <= i <= end <= s.len(),
            end - start <= MAX_INT_DIGITS,
            forall|j: int| start <= j < end ==> is_digit(#[trigger] s@[j]),
            value == digits_value(s@.subrange(start as int, i as int)),
            0 <= value < pow10((i - start) as nat),
            pow10((end - start) as nat) <= 1_000_000_000_000_000_000,
        decreases end - i,
    {
        proof {
            assert(s@.subrange(start as int, i + 1).drop_last() == s@.subrange(start as int, i as int));
            lemma_pow10_mono((i - start + 1) as nat, (end - start) as nat);
            assert(is_digit(s@[i as int]));
        }
        value = value * 10 + (s[i] as u32 - '0' as u32) as i128;
        i += 1;
    }
    value
}

proof fn lemma_pow10_mono(a: nat, b: nat)
    requires
        a <= b,
    ensures
        0 < pow10(a) <= pow10(b),
    decreases b,
{
    if a < b {
        lemma_pow10_mono(a, (b - 1) as nat);
    } else if b > 0 {
        lemma_pow10_mono((a - 1) as nat, (b - 1) as nat);
    }
}

/// Whether `c` is `lower`, or its ASCII uppercase form.
pub open spec fn char_eq_ignore_case(c: char, lower: char) -> bool {
    c == lower || ('A' <= c && c <= 'Z' && c as int + 32 == lower as int)
}

/// Whether `s` spells the lowercase word `lower`, ignoring ASCII case.
pub open spec fn eq_ignore_case(s: Seq<char>, lower: Seq<char>) -> bool {
    s.len() == lower.len() && forall|i: int| 0 <= i < s.len() ==> char_eq_ignore_case(s[i], lower[i])
}

/// Whether `s[start..]` spells the lowercase word `lower`, ignoring ASCII case.
pub fn suffix_eq_ignore_case(s: &Vec<char>, start: usize, lower: &str) -> (r: bool)
    requires
        start <= s.len(),
    ensures
        r == eq_ignore_case(s@.subrange(start as int, s.len() as int), lower@),
{
    let n = lower.unicode_len();
    if s.len() - start != n {
        return false;
    }
    let mut i: usize = 0;
    while i < n
        invariant
            n == lower@.len(),
            s.len() - start == n,
            start <= s.len(),
            i <= n,
            forall|j: int| 0 <= j < i ==> char_eq_ignore_case(s@[start + j], lower@[j]),
        decreases n - i,
    {
        let c = s[start + i];
        let l = lower.get_char(i);
        if !(c == l || ('A' <= c && c <= 'Z' && c as u32 + 32 == l as u32)) {
            return false;
        }
        i += 1;
    }
    true
}

/// The units an operand may carry.
#[derive(Debug, Clone, Copy, PartialEq, Eq, Structural)]
pub enum UnitKind {
    /// A byte count or rate: `b`, `kb` .. `tb`, `kib` .. `tib`.
    Bytes,
    /// A percentage: an optional `%`.
    Percent,
    /// A bare number.
    Plain,
    /// A duration: `s`, `m`, `h` or `d`; seconds when none is given.
    Duration,
}

/// What one unit of the suffix is worth in the attribute's base unit.
pub open spec fn unit_factor(kind: UnitKind, u: Seq<char>) -> Option<int> {
    if u.len() == 0 {
        Some(1int)
    } else {
        match kind {
            UnitKind::Bytes => if eq_ignore_case(u, "b"@) {
                Some(1)
            } else if eq_ignore_case(u, "kb"@) {
                Some(1000)
            } else if eq_ignore_case(u, "mb"@) {
                Some(1000_000)
            } else if eq_ignore_case(u, "gb"@) {
                Some(1000_000_000)
            } else if eq_ignore_case(u, "tb"@) {
                Some(1000_000_000_000)
            } else if eq_ignore_case(u, "kib"@) {
                Some(1024)
            } else if eq_ignore_case(u, "mib"@) {
                Some(1_048_576int)
            } else if eq_ignore_case(u, "gib"@) {
                Some(1_073_741_824int)
            } else if eq_ignore_case(u, "tib"@) {
                Some(1_099_511_627_776int)
            } else {
                None
            },
            UnitKind::Percent => if u == "%"@ {
                Some(1)
            } else {
                None
            },
            UnitKind::Plain => None,
            UnitKind::Duration => if eq_ignore_case(u, "s"@) {
                Some(1)
            } else if eq_ignore_case(u, "m"@) {
                Some(60)
            } else if eq_ignore_case(u, "h"@) {
                Some(3600)
            } else if eq_ignore_case(u, "d"@) {
                Some(86400)
            } else {
                None
            },
        }
    }
}

fn unit_factor_of(kind: UnitKind, s: &Vec<char>, start: usize) -> (r: Option<i128>)
    requires
        start <= s.len(),
    ensures
        r matches Some(f) ==> unit_factor(kind, s@.subrange(start as int, s.len() as int)) == Some(f as int),
        r is None ==> unit_factor(kind, s@.subrange(start as int, s.len() as int)) is None,
        r matches Some(f) ==> 1 <= f <= 1024 * 1024 * 1024 * 1024,
{
    if start == s.len() {
        return Some(1);
    }
    match kind {
        UnitKind::Bytes => if suffix_eq_ignore_case(s, start, "b") {
            Some(1)
        } else if suffix_eq_ignore_case(s, start, "kb") {
            Some(1000)
        } else if suffix_eq_ignore_case(s, start, "mb") {
            Some(1000_000)
        } else if suffix_eq_ignore_case(s, start, "gb") {
            Some(1000_000_000)
        } else if suffix_eq_ignore_case(s, start, "tb") {
            Some(1000_000_000_000)
        } else if suffix_eq_ignore_case(s, start, "kib") {
            Some(1024)
        } else if suffix_eq_ignore_case(s, start, "mib") {
            Some(1024 * 1024)
        } else if suffix_eq_ignore_case(s, start, "gib") {
            Some(1024 * 1024 * 1024)
        } else if suffix_eq_ignore_case(s, start, "tib") {
            Some(1024 * 1024 * 1024 * 1024)
        } else {
            None
        },
        UnitKind::Percent => {
            if s.len() - start == 1 && s[start] == '%' {
                proof {
                    reveal_strlit("%");
                    assert(s@.subrange(start as int, s.len() as int) =~= "%"@);
                }
                Some(1)
            } else {
                proof {
                    reveal_strlit("%");
                    let u = s@.subrange(start as int, s.len() as int);
                    assert(u.len() != 1 || u[0] != '%');
                }
                None
            }
        },
        UnitKind::Plain => None,
        UnitKind::Duration => if suffix_eq_ignore_case(s, start, "s") {
            Some(1)
        } else if suffix_eq_ignore_case(s, start, "m") {
            Some(60)
        } else if suffix_eq_ignore_case(s, start, "h") {
            Some(3600)
        } else if suffix_eq_ignore_case(s, start, "d") {
            Some(86400)
        } else {
            None
        },
    }
}

/// The value of an operand in millionths of its base unit, if it is a
/// well-formed number followed by a unit of the given kind.
pub open spec fn operand_value(s: Seq<char>, kind: UnitKind) -> Option<int> {
    let p = number_parts(s);
    if number_well_formed(p) && unit_factor(kind, p.suffix) is Some {
        Some(number_millionths(p) * unit_factor(kind, p.suffix)->0)
    } else {
        None
    }
}

/// Reads a numeric operand: a decimal number, at most eighteen integer and
/// six fraction digits, optionally negative, then a unit of the given kind.
pub fn parse_operand(s: &Vec<char>, kind: UnitKind) -> (r: Option<i128>)
    ensures
        r is None <==> operand_value(s@, kind) is None,
        r matches Some(v) ==> operand_value(s@, kind) == Some(v as int),
{
    let ghost p = number_parts(s@);
    let negative = s.len() > 0 && s[0] == '-';
    let start: usize = if negative { 1 } else { 0 };
    let k = count_digits(s, start);
    proof {
        lemma_digit_run(s@, start as int);
    }
    let int_end = start + k;
    if k == 0 || k > MAX_INT_DIGITS {
        return None;
    }
    let has_point = int_end < s.len() && s[int_end] == '.';
    let frac_start = if has_point { int_end + 1 } else { int_end };
    let f = if has_point { count_digits(s, frac_start) } else { 0 };
    proof {
        lemma_digit_run(s@, frac_start as int);
    }
    if has_point && f == 0 {
        return None;
    }
    if f > MAX_FRAC_DIGITS {
        return None;
    }
    let int_value = value_of_digits(s, start, int_end);
    let frac_value = value_of_digits(s, frac_start, frac_start + f);
    let factor = match unit_factor_of(kind, s, frac_start + f) {
        Some(factor) => factor,
        None => {
            return None;
        },
    };
    proof {
        assert(p.int_digits == s@.subrange(start as int, int_end as int));
        assert(p.frac_digits == s@.subrange(frac_start as int, (frac_start + f) as int));
        lemma_pow10_mono(k as nat, MAX_INT_DIGITS as nat);
    }
    Some(fixed_value(int_value, frac_value, f, negative, factor))
}

/// Combines the parts of a number: `int.frac` with `frac_len` fraction
/// digits, negated when asked, times `factor`, in millionths.
fn fixed_value(int_value: i128, frac_value: i128, frac_len: usize, negative: bool, factor: i128) -> (r: i128)
    requires
        0 <= int_value < pow10(MAX_INT_DIGITS as nat),
        frac_len <= MAX_FRAC_DIGITS,
        0 <= frac_value < pow10(frac_len as nat),
        1 <= factor <= 1_099_511_627_776,
    ensures
        r == (if negative {
            -(int_value * SCALE + frac_value * pow10((MAX_FRAC_DIGITS - frac_len) as nat))
        } else {
            int_value * SCALE + frac_value * pow10((MAX_FRAC_DIGITS - frac_len) as nat)
        }) * factor,
{
    let f = frac_len;
    let mut pad: i128 = 1;
    let mut i: usize = f;
    while i < MAX_FRAC_DIGITS
        invariant
            f <= i <= MAX_FRAC_DIGITS,
            pad == pow10((i - f) as nat),
            1 <= pad <= 1_000_000,
        decreases MAX_FRAC_DIGITS - i,
    {
        proof {
            lemma_pow10_mono((i - f) as nat, 5);
            reveal_with_fuel(pow10, 6);
        }
        pad = pad * 10;
        i += 1;
    }
    proof {
        lemma_pow10_mono(f as nat, 6);
        reveal_with_fuel(pow10, 19);
        assert(frac_value * pad <= 1_000_000 * 1_000_000) by (nonlinear_arith)
            requires frac_value < 1_000_000, 1 <= pad <= 1_000_000, 0 <= frac_value;
        assert(int_value * SCALE <= 1_000_000_000_000_000_000 * 1_000_000) by (nonlinear_arith)
            requires 0 <= int_value < 1_000_000_000_000_000_000;
    }
    let magnitude = int_value * SCALE + frac_value * pad;
    let signed = if negative { -magnitude } else { magnitude };
    proof {
        let m: int = 2_000_000_000_000_000_000_000_000;
        assert(signed * factor <= m * 1_099_511_627_776) by (nonlinear_arith)
            requires -m <= signed <= m, 1 <= factor <= 1_099_511_627_776;
        assert(signed * factor >= -m * 1_099_511_627_776) by (nonlinear_arith)
            requires -m <= signed <= m, 1 <= factor <= 1_099_511_627_776;
    }
    signed * factor
}

} // verus!
