//! Exact decimal numbers for the filter DSL.
//!
//! A numeric literal or tag value is held as `mantissa / 10^scale`, up to
//! eighteen digits.  Comparisons are exact, by cross-multiplication.

use vstd::prelude::*;

verus! {

/// Ten to the `e`.
pub open spec fn pow10(e: nat) -> int
    decreases e,
{
    if e == 0 {
        1
    } else {
        10 * pow10((e - 1) as nat)
    }
}

pub proof fn lemma_pow10_pos(e: nat)
    ensures
        pow10(e) >= 1,
    decreases e,
{
    if e > 0 {
        lemma_pow10_pos((e - 1) as nat);
    }
}

pub proof fn lemma_pow10_mono(a: nat, b: nat)
    requires
        a <= b,
    ensures
        pow10(a) <= pow10(b),
    decreases b,
{
    if a < b {
        lemma_pow10_mono(a, (b - 1) as nat);
        lemma_pow10_pos((b - 1) as nat);
    }
}

pub proof fn lemma_pow10_18()
    ensures
        pow10(18) == 1000000000000000000,
{
    assert(pow10(0) == 1);
    assert(pow10(1) == 10);
    assert(pow10(2) == 100);
    assert(pow10(3) == 1000);
    assert(pow10(4) == 10000);
    assert(pow10(5) == 100000);
    assert(pow10(6) == 1000000);
    assert(pow10(7) == 10000000);
    assert(pow10(8) == 100000000);
    assert(pow10(9) == 1000000000);
    assert(pow10(10) == 10000000000);
    assert(pow10(11) == 100000000000);
    assert(pow10(12) == 1000000000000);
    assert(pow10(13) == 10000000000000);
    assert(pow10(14) == 100000000000000);
    assert(pow10(15) == 1000000000000000);
    assert(pow10(16) == 10000000000000000);
    assert(pow10(17) == 100000000000000000);
    assert(pow10(18) == 1000000000000000000);
}

/// A decimal number: `mantissa / 10^scale`.
#[derive(Clone, Copy, Debug, PartialEq, Eq, Structural)]
pub struct Decimal {
    mantissa: i64,
    scale: u32,
}

impl Decimal {
    pub closed spec fn spec_mantissa(&self) -> i64 {
        self.mantissa
    }

    pub closed spec fn spec_scale(&self) -> nat {
        self.scale as nat
    }

    /// The scale never exceeds eighteen: every `Decimal` satisfies this by
    /// construction.
    #[verifier::type_invariant]
    pub closed spec fn wf(&self) -> bool {
        self.scale <= 18
    }

    /// The rational this decimal denotes, scaled by `10^other_scale`: the
    /// number `n` with `self == n / 10^(self.scale + other_scale)`.
    pub open spec fn scaled(&self, other_scale: nat) -> int {
        self.spec_mantissa() * pow10(other_scale)
    }

    /// A decimal from a mantissa and a scale of at most eighteen.
    pub fn new(mantissa: i64, scale: u32) -> (r: Decimal)
        requires
            scale <= 18,
        ensures
            r.wf(),
            r.spec_mantissa() == mantissa,
            r.spec_scale() == scale,
    {
        Decimal { mantissa, scale }
    }

    /// A whole number.
    pub fn from_int(mantissa: i64) -> (r: Decimal)
        ensures
            r.wf(),
            r.spec_mantissa() == mantissa,
            r.spec_scale() == 0,
    {
        Decimal { mantissa, scale: 0 }
    }
}

/// `a == b` as rationals.
pub open spec fn spec_dec_eq(a: Decimal, b: Decimal) -> bool {
    a.scaled(b.spec_scale()) == b.scaled(a.spec_scale())
}

/// `a < b` as rationals.
pub open spec fn spec_dec_lt(a: Decimal, b: Decimal) -> bool {
    a.scaled(b.spec_scale()) < b.scaled(a.spec_scale())
}

fn pow10_i128(e: u32) -> (r: i128)
    requires
        e <= 18,
    ensures
        r == pow10(e as nat),
        1 <= r <= 1000000000000000000,
{
    let mut r: i128 = 1;
    let mut i: u32 = 0;
    proof {
        lemma_pow10_mono(0, e as nat);
        lemma_pow10_mono(e as nat, 18);
        lemma_pow10_18();
    }
    while i < e
        invariant
            i <= e <= 18,
            r == pow10(i as nat),
            r >= 1,
            r <= pow10(e as nat),
            pow10(e as nat) <= 1000000000000000000,
        decreases e - i,
    {
        proof {
            lemma_pow10_mono((i + 1) as nat, e as nat);
            lemma_pow10_pos(i as nat);
        }
        r = r * 10;
        i = i + 1;
    }
    r
}

/// The two cross products that order `a` and `b` as rationals.
fn cross_products(a: &Decimal, b: &Decimal) -> (r: (i128, i128))
    ensures
        r.0 == a.scaled(b.spec_scale()),
        r.1 == b.scaled(a.spec_scale()),
{
    proof {
        use_type_invariant(a);
        use_type_invariant(b);
    }
    let pa = pow10_i128(b.scale);
    let pb = pow10_i128(a.scale);
    proof {
        let m = a.mantissa as int;
        let p = pa as int;
        assert(m * p <= 9223372036854775807 * 1000000000000000000 && m * p
            >= -9223372036854775808 * 1000000000000000000) by (nonlinear_arith)
            requires
                -9223372036854775808 <= m <= 9223372036854775807,
                1 <= p <= 1000000000000000000,
        ;
        let m2 = b.mantissa as int;
        let p2 = pb as int;
        assert(m2 * p2 <= 9223372036854775807 * 1000000000000000000 && m2 * p2
            >= -9223372036854775808 * 1000000000000000000) by (nonlinear_arith)
            requires
                -9223372036854775808 <= m2 <= 9223372036854775807,
                1 <= p2 <= 1000000000000000000,
        ;
    }
    ((a.mantissa as i128) * pa, (b.mantissa as i128) * pb)
}

/// Whether `a == b` as rationals.
pub fn dec_eq(a: &Decimal, b: &Decimal) -> (r: bool)
    ensures
        r == spec_dec_eq(*a, *b),
{
    let (x, y) = cross_products(a, b);
    x == y
}

/// Whether `a < b` as rationals.
pub fn dec_lt(a: &Decimal, b: &Decimal) -> (r: bool)
    ensures
        r == spec_dec_lt(*a, *b),
{
    let (x, y) = cross_products(a, b);
    x < y
}


/// The canonical decimal text of `m / 10^f`: the sign, the integer part,
/// and for a positive scale a point and exactly `f` fractional digits.
pub open spec fn spec_dec_string(m: int, f: nat) -> Seq<char> {
    let a = if m < 0 { (-m) as nat } else { m as nat };
    if f == 0 {
        crate::strnum::spec_dec_i64(m)
    } else {
        (if m < 0 {
            seq!['-']
        } else {
            Seq::<char>::empty()
        }) + crate::strnum::spec_dec(a / (pow10(f) as nat)) + seq!['.']
            + crate::strnum::spec_pad_dec(a, f)
    }
}

fn pow10_u64(e: u32) -> (r: u64)
    requires
        e <= 18,
    ensures
        r as int == pow10(e as nat),
        r >= 1,
{
    let mut r: u64 = 1;
    let mut i: u32 = 0;
    proof {
        lemma_pow10_mono(0, e as nat);
        lemma_pow10_mono(e as nat, 18);
        lemma_pow10_18();
    }
    while i < e
        invariant
            i <= e <= 18,
            r == pow10(i as nat),
            r >= 1,
            r <= pow10(e as nat),
            pow10(e as nat) <= 1000000000000000000,
        decreases e - i,
    {
        proof {
            lemma_pow10_mono((i + 1) as nat, e as nat);
            lemma_pow10_pos(i as nat);
        }
        r = r * 10;
        i = i + 1;
    }
    r
}

impl Decimal {
    /// The canonical decimal text of this number.
    pub fn to_dec_string(&self) -> (r: String)
        ensures
            r@ == spec_dec_string(self.spec_mantissa() as int, self.spec_scale()),
    {
        proof {
            use_type_invariant(self);
        }
        if self.scale == 0 {
            crate::strnum::i64_to_dec(self.mantissa)
        } else {
            let m = self.mantissa;
            let mut out = String::new();
            if m < 0 {
                crate::strnum::push_char(&mut out, '-');
            }
            let a: u64 = if m < 0 {
                if m == i64::MIN {
                    9223372036854775808u64
                } else {
                    (-m) as u64
                }
            } else {
                m as u64
            };
            let p = pow10_u64(self.scale);
            crate::strnum::push_dec_digits(&mut out, a / p);
            crate::strnum::push_char(&mut out, '.');
            crate::strnum::push_pad_digits(&mut out, a, self.scale);
            proof {
                assert(out@ =~= spec_dec_string(self.spec_mantissa() as int, self.spec_scale()));
            }
            out
        }
    }
}


impl Decimal {
    /// The mantissa.
    pub fn mantissa_value(&self) -> (r: i64)
        ensures
            r == self.spec_mantissa(),
    {
        self.mantissa
    }

    /// The scale; at most eighteen.
    pub fn scale_value(&self) -> (r: u32)
        ensures
            r == self.spec_scale(),
            r <= 18,
    {
        proof {
            use_type_invariant(self);
        }
        self.scale
    }
}

/// Ten to the `e` as an `i64`.
pub fn pow10_i64(e: u32) -> (r: i64)
    requires
        e <= 18,
    ensures
        r as int == pow10(e as nat),
        r >= 1,
{
    let mut r: i64 = 1;
    let mut i: u32 = 0;
    proof {
        lemma_pow10_mono(0, e as nat);
        lemma_pow10_mono(e as nat, 18);
        lemma_pow10_18();
    }
    while i < e
        invariant
            i <= e <= 18,
            r == pow10(i as nat),
            r >= 1,
            r <= pow10(e as nat),
            pow10(e as nat) <= 1000000000000000000,
        decreases e - i,
    {
        proof {
            lemma_pow10_mono((i + 1) as nat, e as nat);
            lemma_pow10_pos(i as nat);
        }
        r = r * 10;
        i = i + 1;
    }
    r
}

// ---------------------------------------------------------------------------
// Parsing
// ---------------------------------------------------------------------------

/// Whether `c` is an ASCII decimal digit.
pub open spec fn spec_is_digit(c: char) -> bool {
    '0' <= c && c <= '9'
}

/// The value of a digit character.
pub open spec fn spec_digit_val(c: char) -> int {
    c as int - '0' as int
}

/// Scan the unsigned body of a decimal literal: digits with at most one
/// point, at least one digit, at most eighteen digits, and an optional
/// exponent part.  `m` and `digits` carry the digits read so far, `frac`
/// how many of them follow the point.
pub open spec fn spec_dec_scan(s: Seq<char>, m: int, digits: nat, frac: Option<nat>) -> Option<
    (int, nat),
>
    decreases s.len(), 2int,
{
    if s.len() == 0 {
        if digits == 0 {
            None
        } else {
            Some(
                (
                    m,
                    match frac {
                        Some(f) => f,
                        None => 0,
                    },
                ),
            )
        }
    } else {
        let c = s[0];
        if spec_is_digit(c) {
            if digits >= 18 {
                None
            } else {
                spec_dec_scan(
                    s.drop_first(),
                    m * 10 + spec_digit_val(c),
                    digits + 1,
                    match frac {
                        Some(f) => Some(f + 1nat),
                        None => None,
                    },
                )
            }
        } else if c == '.' {
            match frac {
                Some(_) => None,
                None => spec_dec_scan(s.drop_first(), m, digits, Some(0)),
            }
        } else if c == 'e' || c == 'E' {
            if digits == 0 {
                None
            } else {
                spec_exp_sign(
                    s.drop_first(),
                    m,
                    match frac {
                        Some(f) => f,
                        None => 0,
                    },
                )
            }
        } else {
            None
        }
    }
}

/// The optional sign of an exponent part.
pub open spec fn spec_exp_sign(s: Seq<char>, m: int, f: nat) -> Option<(int, nat)>
    decreases s.len(), 1int,
{
    if s.len() > 0 && (s[0] == '+' || s[0] == '-') {
        spec_exp_digits(s.drop_first(), m, f, s[0] == '-', 0, 0)
    } else {
        spec_exp_digits(s, m, f, false, 0, 0)
    }
}

/// The digits of an exponent part: at least one, at most four.
pub open spec fn spec_exp_digits(
    s: Seq<char>,
    m: int,
    f: nat,
    neg: bool,
    exp: nat,
    count: nat,
) -> Option<(int, nat)>
    decreases s.len(), 0int,
{
    if s.len() == 0 {
        if count == 0 {
            None
        } else {
            spec_apply_exp(
                m,
                f,
                if neg {
                    -(exp as int)
                } else {
                    exp as int
                },
            )
        }
    } else if spec_is_digit(s[0]) {
        if count >= 4 {
            None
        } else {
            spec_exp_digits(
                s.drop_first(),
                m,
                f,
                neg,
                (exp * 10 + spec_digit_val(s[0])) as nat,
                count + 1,
            )
        }
    } else {
        None
    }
}

/// Shift a scanned mantissa by an exponent: the scale shrinks by `e`, a
/// surplus multiplies into the mantissa.  Values outside the eighteen-digit
/// model are rejected.
pub open spec fn spec_apply_exp(m: int, f: nat, e: int) -> Option<(int, nat)> {
    if m == 0 {
        Some((0int, 0nat))
    } else {
        let fi = f - e;
        if fi >= 0 {
            if fi <= 18 {
                Some((m, fi as nat))
            } else {
                None
            }
        } else {
            let shift = (-fi) as nat;
            if shift <= 18 && m * pow10(shift) <= 9223372036854775807 {
                Some((m * pow10(shift), 0nat))
            } else {
                None
            }
        }
    }
}

/// The `(mantissa, scale)` a whole character span denotes as a decimal
/// literal — sign, digits, an optional point and an optional exponent — or
/// `None` if it is not a literal the eighteen-digit model can hold.
pub open spec fn spec_decimal_of(s: Seq<char>) -> Option<(int, nat)> {
    if s.len() > 0 && s[0] == '-' {
        match spec_dec_scan(s.drop_first(), 0, 0, None) {
            Some((m, f)) => Some((-m, f)),
            None => None,
        }
    } else if s.len() > 0 && s[0] == '+' {
        spec_dec_scan(s.drop_first(), 0, 0, None)
    } else {
        spec_dec_scan(s, 0, 0, None)
    }
}

/// Whether a parsed decimal carries exactly the given value.
pub open spec fn decimal_value_matches(r: Option<Decimal>, v: Option<(int, nat)>) -> bool {
    match v {
        Some((m, f)) => r matches Some(d) && d.wf() && d.spec_mantissa() == m && d.spec_scale()
            == f,
        None => r is None,
    }
}

/// Whether a parsed decimal agrees with the span's denotation.
pub open spec fn decimal_matches(r: Option<Decimal>, s: Seq<char>) -> bool {
    decimal_value_matches(r, spec_decimal_of(s))
}

fn exec_is_digit(c: char) -> (r: bool)
    ensures
        r == spec_is_digit(c),
{
    '0' <= c && c <= '9'
}

#[verifier::loop_isolation(false)]
fn scan_exponent(s: &[char], from: usize, m: i64, f: u32) -> (r: Option<(i64, u32)>)
    requires
        from <= s@.len(),
        0 <= m,
        f <= 18,
    ensures
        match spec_exp_sign(s@.skip(from as int), m as int, f as nat) {
            Some((mm, ff)) => r matches Some(p) && p.0 == mm && p.1 == ff && ff <= 18 && mm >= 0,
            None => r is None,
        },
{
    let n = s.len();
    let mut i: usize = from;
    let mut neg = false;
    if i < n && (s[i] == '+' || s[i] == '-') {
        neg = s[i] == '-';
        i = i + 1;
        proof {
            assert(s@.skip(from as int)[0] == s@[from as int]);
            assert(s@.skip(from as int).drop_first() =~= s@.skip(from as int + 1));
        }
    }
    let ghost body = s@.skip(i as int);
    let mut exp: u32 = 0;
    let mut count: u32 = 0;
    while i < n
        invariant
            body.len() <= s@.len(),
            i <= n,
            count <= 4,
            exp < pow10(count as nat),
            count == 0 ==> exp == 0,
            spec_exp_sign(s@.skip(from as int), m as int, f as nat) == spec_exp_digits(
                s@.skip(i as int),
                m as int,
                f as nat,
                neg,
                exp as nat,
                count as nat,
            ),
        decreases n - i,
    {
        let c = s[i];
        proof {
            assert(s@.skip(i as int)[0] == s@[i as int]);
            assert(s@.skip(i as int).drop_first() =~= s@.skip(i as int + 1));
        }
        if !exec_is_digit(c) {
            return None;
        }
        if count >= 4 {
            return None;
        }
        let d = (c as u32) - 48;
        proof {
            assert(d == spec_digit_val(c));
            assert(pow10(0) == 1);
            assert(pow10(1) == 10);
            assert(pow10(2) == 100);
            assert(pow10(3) == 1000);
            assert(pow10(4) == 10000);
        }
        exp = exp * 10 + d;
        count = count + 1;
        i = i + 1;
    }
    proof {
        assert(s@.skip(n as int) =~= Seq::<char>::empty());
    }
    if count == 0 {
        return None;
    }
    // Apply the exponent to the scanned mantissa and scale.
    proof {
        assert(pow10(0) == 1);
        assert(pow10(1) == 10);
        assert(pow10(2) == 100);
        assert(pow10(3) == 1000);
        assert(pow10(4) == 10000);
        lemma_pow10_mono(count as nat, 4);
        assert(exp <= 9999);
    }
    if m == 0 {
        return Some((0, 0));
    }
    let e_signed: i64 = if neg {
        -(exp as i64)
    } else {
        exp as i64
    };
    let fi: i64 = (f as i64) - e_signed;
    if fi >= 0 {
        if fi <= 18 {
            Some((m, fi as u32))
        } else {
            None
        }
    } else {
        let shift: i64 = -fi;
        if shift > 18 {
            return None;
        }
        let p = pow10_i64(shift as u32);
        proof {
            lemma_pow10_mono(shift as nat, 18);
            lemma_pow10_18();
            let mi = m as int;
            let pi = p as int;
            assert(0 <= mi * pi <= 9223372036854775807i128 * 1000000000000000000i128)
                by (nonlinear_arith)
                requires
                    0 <= mi <= 9223372036854775807,
                    1 <= pi <= 1000000000000000000,
            ;
        }
        let prod: i128 = (m as i128) * (p as i128);
        if prod > 9223372036854775807i128 {
            None
        } else {
            Some((prod as i64, 0))
        }
    }
}

#[verifier::loop_isolation(false)]
fn scan_body(s: &[char], from: usize) -> (r: Option<(i64, u32)>)
    requires
        from <= s@.len(),
    ensures
        match spec_dec_scan(s@.skip(from as int), 0, 0, None) {
            Some((m, f)) => r matches Some(p) && p.0 == m && p.1 == f && f <= 18 && m >= 0,
            None => r is None,
        },
{
    let mut i: usize = from;
    let n = s.len();
    let mut m: i64 = 0;
    let mut digits: u32 = 0;
    let mut frac: Option<u32> = None;
    let ghost whole = s@.skip(from as int);
    while i < n
        invariant
            whole == s@.skip(from as int),
            from <= i <= n,
            n == s@.len(),
            m >= 0,
            digits <= 18,
            m < pow10(digits as nat),
            match frac {
                Some(f) => f <= digits,
                None => true,
            },
            spec_dec_scan(whole, 0, 0, None) == spec_dec_scan(
                s@.skip(i as int),
                m as int,
                digits as nat,
                match frac {
                    Some(f) => Some(f as nat),
                    None => None,
                },
            ),
        decreases n - i,
    {
        let c = s[i];
        proof {
            assert(s@.skip(i as int)[0] == s@[i as int]);
            assert(s@.skip(i as int).drop_first() =~= s@.skip(i as int + 1));
        }
        if exec_is_digit(c) {
            if digits >= 18 {
                proof {
                    assert(s@.skip(i as int).len() > 0);
                    assert(spec_is_digit(s@.skip(i as int)[0]));
                    assert(spec_dec_scan(
                        s@.skip(i as int),
                        m as int,
                        digits as nat,
                        match frac {
                            Some(f) => Some(f as nat),
                            None => None,
                        },
                    ) is None);
                }
                return None;
            }
            let d = (c as u32) - 48;
            proof {
                lemma_pow10_mono(digits as nat + 1, 18);
                lemma_pow10_18();
                assert(d == spec_digit_val(c));
                assert(10 * (m as int) + d < 10 * pow10(digits as nat));
            }
            m = m * 10 + (d as i64);
            digits = digits + 1;
            frac = match frac {
                Some(f) => Some(f + 1),
                None => None,
            };
        } else if c == '.' {
            match frac {
                Some(_) => {
                    return None;
                },
                None => {
                    frac = Some(0);
                },
            }
        } else if c == 'e' || c == 'E' {
            if digits == 0 {
                return None;
            }
            let fr0: u32 = match frac {
                Some(f) => f,
                None => 0,
            };
            proof {
                lemma_pow10_mono(digits as nat, 18);
                lemma_pow10_18();
            }
            return scan_exponent(s, i + 1, m, fr0);
        } else {
            proof {
                assert(s@.skip(i as int).len() > 0);
                assert(!spec_is_digit(s@.skip(i as int)[0]) && s@.skip(i as int)[0] != '.'
                    && s@.skip(i as int)[0] != 'e' && s@.skip(i as int)[0] != 'E');
                assert(spec_dec_scan(
                    s@.skip(i as int),
                    m as int,
                    digits as nat,
                    match frac {
                        Some(f) => Some(f as nat),
                        None => None,
                    },
                ) is None);
            }
            return None;
        }
        i = i + 1;
    }
    proof {
        assert(s@.skip(n as int) =~= Seq::<char>::empty());
    }
    if digits == 0 {
        return None;
    }
    match frac {
        Some(f) => Some((m, f)),
        None => Some((m, 0)),
    }
}

/// Parse a whole character span as a decimal literal: an optional sign,
/// digits with one optional point, an optional exponent.  Values outside
/// the eighteen-digit model — more significant digits, a scale over
/// eighteen, exponents of five or more digits, non-finite forms — parse to
/// nothing, where IEEE arithmetic would round or saturate.
pub fn parse_decimal(s: &[char]) -> (r: Option<Decimal>)
    ensures
        decimal_matches(r, s@),
{
    if s.len() > 0 && (s[0] == '-' || s[0] == '+') {
        proof {
            assert(s@.skip(1) =~= s@.drop_first());
        }
        let negate = s[0] == '-';
        match scan_body(s, 1) {
            Some((m, f)) => {
                if negate {
                    Some(Decimal::new(-m, f))
                } else {
                    Some(Decimal::new(m, f))
                }
            },
            None => None,
        }
    } else {
        proof {
            assert(s@.skip(0) =~= s@);
        }
        match scan_body(s, 0) {
            Some((m, f)) => Some(Decimal::new(m, f)),
            None => None,
        }
    }
}

} // verus!
