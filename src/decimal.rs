use vstd::prelude::*;
use vstd::string::*;
use vstd::arithmetic::div_mod::lemma_fundamental_div_mod;
use crate::digits::{
    all_digits, digits_value, is_digit, lemma_nat_digits, lemma_padded_digits,
    lemma_zeros_value, nat_digits, padded_digits, pow10, push_nat, push_padded, zeros,
};

verus! {

/// A whole part above this many wholes is out of range whatever follows it.
const WHOLE_LIMIT: u64 = 10_000_000_000_000;

/// How many units make one whole: a `Decimal` keeps six fractional digits.
pub const UNITS_PER_WHOLE: i64 = 1_000_000;

/// The number of fractional digits that a `Decimal` keeps.
pub const FRACTION_DIGITS: u32 = 6;

/// A signed fixed-point number: `units` millionths.
///
/// Every `i64` is a valid value, so the type carries no invariant.
#[derive(Clone, Copy, PartialEq, Eq, Structural, Debug)]
pub struct Decimal {
    pub units: i64,
}

impl View for Decimal {
    type V = int;

    open spec fn view(&self) -> int {
        self.units as int
    }
}

/// Why a text is not a `Decimal`.
#[derive(Clone, Copy, PartialEq, Eq, Structural, Debug)]
pub enum ParseError {
    /// The text is not a decimal number.
    Malformed,
    /// The text is a decimal number too large in magnitude to hold.
    OutOfRange,
}

/// The index of the first `.` in `s`, or its length when there is none.
pub open spec fn dot_index(s: Seq<char>) -> nat
    decreases s.len(),
{
    if s.len() == 0 {
        0
    } else if s[0] == '.' {
        0
    } else {
        1 + dot_index(s.drop_first())
    }
}

/// The fractional digits `f` cut or zero-padded to exactly six digits.
pub open spec fn padded_fraction(f: Seq<char>) -> Seq<char> {
    if f.len() >= FRACTION_DIGITS {
        f.take(FRACTION_DIGITS as int)
    } else {
        f + zeros((FRACTION_DIGITS - f.len()) as nat)
    }
}

/// The units that the fractional digits `f` stand for; digits past the sixth are cut off.
pub open spec fn fraction_units(f: Seq<char>) -> nat {
    digits_value(padded_fraction(f))
}

/// The magnitude, in units, of an unsigned decimal text: digits, optionally
/// followed by `.` and more digits, with at least one digit in all.
pub open spec fn unsigned_units(body: Seq<char>) -> Option<nat> {
    let d = dot_index(body);
    let whole = body.take(d as int);
    let frac = if d < body.len() {
        body.skip(d + 1int)
    } else {
        Seq::empty()
    };
    if all_digits(whole) && all_digits(frac) && whole.len() + frac.len() > 0 {
        Some(digits_value(whole) * (UNITS_PER_WHOLE as nat) + fraction_units(frac))
    } else {
        None
    }
}

/// The length of the sign that `s` starts with: one for `-` or `+`, else zero.
pub open spec fn sign_len(s: Seq<char>) -> nat {
    if s.len() > 0 && (s[0] == '-' || s[0] == '+') {
        1
    } else {
        0
    }
}

/// The value, in units, that a decimal text writes: an optional sign, then an
/// unsigned decimal. `None` when the text is no decimal number.
pub open spec fn decimal_units(s: Seq<char>) -> Option<int> {
    match unsigned_units(s.skip(sign_len(s) as int)) {
        Some(m) => Some(
            if s.len() > 0 && s[0] == '-' {
                -m
            } else {
                m as int
            },
        ),
        None => None,
    }
}

/// What reading the text `s` as a `Decimal` gives.
pub open spec fn parsed(s: Seq<char>) -> Result<Decimal, ParseError> {
    match decimal_units(s) {
        None => Err(ParseError::Malformed),
        Some(v) => if i64::MIN <= v <= i64::MAX {
            Ok(Decimal { units: v as i64 })
        } else {
            Err(ParseError::OutOfRange)
        },
    }
}

/// Drops trailing zero digits of the `width`-digit number `f`: the shorter
/// number and its width.
pub open spec fn trimmed(f: nat, width: nat) -> (nat, nat)
    decreases width,
{
    if width > 0 && f % 10 == 0 {
        trimmed(f / 10, (width - 1) as nat)
    } else {
        (f, width)
    }
}

/// The shortest text of a magnitude in units: the whole part, then `.` and
/// the fractional digits without trailing zeros when there are any.
pub open spec fn unsigned_text(m: nat) -> Seq<char> {
    let q = m / (UNITS_PER_WHOLE as nat);
    let r = m % (UNITS_PER_WHOLE as nat);
    if r == 0 {
        nat_digits(q)
    } else {
        let t = trimmed(r, FRACTION_DIGITS as nat);
        nat_digits(q) + seq!['.'] + padded_digits(t.0, t.1)
    }
}

/// The shortest text of a value in units, with `-` before a negative one.
pub open spec fn text_of(v: int) -> Seq<char> {
    if v < 0 {
        seq!['-'] + unsigned_text((-v) as nat)
    } else {
        unsigned_text(v as nat)
    }
}

/// The magnitude `m` (in units) rounded to `places` fractional digits,
/// counted in steps of `10^-places`: to the nearest step, and on a tie to
/// the even one.
pub open spec fn rounded_steps(m: nat, places: nat) -> nat {
    let scale = pow10((FRACTION_DIGITS - places) as nat);
    let q = m / scale;
    let r = m % scale;
    if 2 * r > scale || (2 * r == scale && q % 2 == 1) {
        q + 1
    } else {
        q
    }
}

/// The text of a value with exactly `places` fractional digits, rounded to
/// the nearest and on a tie to even, with `-` before a negative value:
/// `5` with one place is `5.0`, `25` with two is `25.00`, `2.5` with none
/// is `2`.
pub open spec fn fixed_text(v: int, places: nat) -> Seq<char> {
    let m: nat = if v < 0 {
        (-v) as nat
    } else {
        v as nat
    };
    let n = rounded_steps(m, places);
    let p = pow10(places);
    let digits = if places == 0 {
        nat_digits(n)
    } else {
        nat_digits(n / p) + seq!['.'] + padded_digits(n % p, places)
    };
    if v < 0 {
        seq!['-'] + digits
    } else {
        digits
    }
}

proof fn lemma_dot_index(s: Seq<char>, i: int)
    requires
        0 <= i <= s.len(),
        forall|j: int| 0 <= j < i ==> s[j] != '.',
        i == s.len() || s[i] == '.',
    ensures
        dot_index(s) == i,
    decreases i,
{
    if i > 0 {
        lemma_dot_index(s.drop_first(), i - 1);
    }
}

proof fn lemma_trimmed(f: nat, width: nat)
    requires
        0 < f < pow10(width),
    ensures
        1 <= trimmed(f, width).1 <= width,
        trimmed(f, width).0 < pow10(trimmed(f, width).1),
        trimmed(f, width).0 * pow10((width - trimmed(f, width).1) as nat) == f,
    decreases width,
{
    if width > 0 && f % 10 == 0 {
        lemma_trimmed(f / 10, (width - 1) as nat);
        let t = trimmed(f / 10, (width - 1) as nat);
        let k = (width - 1 - t.1) as nat;
        assert(trimmed(f, width) == t);
        assert(pow10((width - t.1) as nat) == 10 * pow10(k));
        assert(t.0 * pow10(k) == f / 10);
        assert(f == 10 * (f / 10));
        assert(t.0 * (10 * pow10(k)) == 10 * (t.0 * pow10(k))) by (nonlinear_arith);
    } else {
        assert(trimmed(f, width) == (f, width));
        assert(pow10(0) == 1);
        assert(f * pow10(0) == f);
    }
}

proof fn lemma_pow10_six()
    ensures
        pow10(0) == 1,
        pow10(1) == 10,
        pow10(2) == 100,
        pow10(3) == 1000,
        pow10(4) == 10000,
        pow10(5) == 100000,
        pow10(6) == 1_000_000,
{
    assert(pow10(0) == 1);
    assert(pow10(1) == 10);
    assert(pow10(2) == 100);
    assert(pow10(3) == 1000);
    assert(pow10(4) == 10000);
    assert(pow10(5) == 100000);
}

/// The value written by a shortest text is read back from it unchanged.
pub proof fn lemma_text_round_trip(v: int)
    ensures
        decimal_units(text_of(v)) == Some(v),
{
    let m: nat = if v < 0 {
        (-v) as nat
    } else {
        v as nat
    };
    let q = m / (UNITS_PER_WHOLE as nat);
    let r = m % (UNITS_PER_WHOLE as nat);
    let u = unsigned_text(m);
    lemma_nat_digits(q);
    let w = nat_digits(q);
    assert forall|j: int| 0 <= j < w.len() implies u[j] != '.' by {
        assert(is_digit(w[j]));
        assert(u[j] == w[j]);
    }
    assert(u.take(w.len() as int) =~= w);
    lemma_pow10_six();
    lemma_fundamental_div_mod(m as int, 1_000_000);
    assert(m == q * 1_000_000 + r);
    if r == 0 {
        lemma_dot_index(u, w.len() as int);
        assert(u =~= w);
        assert(fraction_units(Seq::empty()) == 0) by {
            lemma_zeros_value(Seq::<char>::empty(), 6);
            assert(Seq::<char>::empty() + zeros(6) =~= padded_fraction(Seq::empty()));
        }
    } else {
        lemma_trimmed(r, 6);
        let t = trimmed(r, 6);
        lemma_padded_digits(t.0, t.1);
        let f = padded_digits(t.0, t.1);
        assert(u[w.len() as int] == '.');
        lemma_dot_index(u, w.len() as int);
        assert(u.skip(w.len() + 1int) =~= f);
        assert(padded_fraction(f) =~= f + zeros((6 - t.1) as nat));
        lemma_zeros_value(f, (6 - t.1) as nat);
        assert(fraction_units(f) == r);
        assert(u.take(w.len() as int) =~= w);
    }
    assert(unsigned_units(u) == Some(m));
    let s = text_of(v);
    if v < 0 {
        assert(s[0] == '-');
        assert(sign_len(s) == 1);
        assert(s.skip(1) =~= u);
    } else {
        assert(s =~= u);
        assert(u[0] == w[0] && is_digit(w[0]));
        assert(sign_len(s) == 0);
        assert(s.skip(0) =~= u);
    }
}

/// Ten to the power `k`, for `k` up to six.
fn ten_to(k: u32) -> (r: u64)
    requires
        k <= FRACTION_DIGITS,
    ensures
        r == pow10(k as nat),
        1 <= r <= 1_000_000,
{
    let mut r: u64 = 1;
    let mut i: u32 = 0;
    while i < k
        invariant
            i <= k <= FRACTION_DIGITS,
            r == pow10(i as nat),
            1 <= r <= pow10(i as nat),
            r <= 1_000_000,
        decreases k - i,
    {
        proof {
            lemma_pow10_six();
            assert(i == 0 || i == 1 || i == 2 || i == 3 || i == 4 || i == 5);
        }
        r = r * 10;
        i = i + 1;
    }
    r
}

impl Decimal {
    /// The value that is `units` millionths.
    pub fn from_units(units: i64) -> (r: Decimal)
        ensures
            r@ == units,
    {
        Decimal { units }
    }

    /// The whole number `n`.
    pub fn from_int(n: i32) -> (r: Decimal)
        ensures
            r@ == n * UNITS_PER_WHOLE,
    {
        Decimal { units: n as i64 * UNITS_PER_WHOLE }
    }

    /// Reads a decimal text: an optional `-` or `+`, then digits, optionally
    /// followed by `.` and more digits, with at least one digit in all.
    /// Fractional digits past the sixth are cut off. Exponents, infinities
    /// and NaN are no decimal numbers here.
    pub fn parse(s: &str) -> (r: Result<Decimal, ParseError>)
        ensures
            r == parsed(s@),
    {
        let n = s.unicode_len();
        let mut start: usize = 0;
        let mut negative = false;
        if n > 0 {
            let c = s.get_char(0);
            if c == '-' {
                negative = true;
                start = 1;
            } else if c == '+' {
                start = 1;
            }
        }
        let ghost body = s@.skip(start as int);
        assert(start == sign_len(s@));
        assert(negative == (s@.len() > 0 && s@[0] == '-'));

        // The whole part runs up to the first `.`.
        let mut d: usize = start;
        while d < n && s.get_char(d) != '.'
            invariant
                n == s@.len(),
                start <= d <= n,
                forall|j: int| start <= j < d ==> s@[j] != '.',
            decreases n - d,
        {
            d = d + 1;
        }
        let ghost dot = (d - start) as int;
        proof {
            assert forall|j: int| 0 <= j < dot implies body[j] != '.' by {
                assert(body[j] == s@[start + j]);
            }
            lemma_dot_index(body, dot);
        }
        let ghost whole_text = s@.subrange(start as int, d as int);
        assert(body.take(dot) =~= whole_text);

        let mut whole: u64 = 0;
        let mut overflow = false;
        let mut k: usize = start;
        while k < d
            invariant
                n == s@.len(),
                start <= k <= d <= n,
                whole_text == s@.subrange(start as int, d as int),
                body == s@.skip(sign_len(s@) as int),
                dot_index(body) == dot,
                body.take(dot) == whole_text,
                all_digits(s@.subrange(start as int, k as int)),
                overflow ==> digits_value(s@.subrange(start as int, k as int)) > WHOLE_LIMIT,
                !overflow ==> whole == digits_value(s@.subrange(start as int, k as int)) && whole
                    <= WHOLE_LIMIT,
            decreases d - k,
        {
            let c = s.get_char(k);
            if c < '0' || c > '9' {
                proof {
                    assert(!is_digit(whole_text[k - start]));
                    assert(!all_digits(whole_text));
                }
                return Err(ParseError::Malformed);
            }
            let ghost prefix = s@.subrange(start as int, k + 1);
            assert(prefix.drop_last() =~= s@.subrange(start as int, k as int));
            assert(prefix.last() == c);
            let dv = (c as u32 - '0' as u32) as u64;
            if !overflow {
                let t = whole * 10 + dv;
                if t > WHOLE_LIMIT {
                    overflow = true;
                } else {
                    whole = t;
                }
            }
            k = k + 1;
        }
        assert(s@.subrange(start as int, d as int) == whole_text);

        // The fractional part follows the `.`, if there is one.
        let frac_start: usize = if d < n {
            d + 1
        } else {
            n
        };
        let ghost frac_text = s@.subrange(frac_start as int, n as int);
        proof {
            if d < n {
                assert(body.skip(dot + 1) =~= frac_text);
            } else {
                assert(frac_text =~= Seq::<char>::empty());
            }
        }
        let mut k: usize = frac_start;
        while k < n
            invariant
                n == s@.len(),
                frac_start <= k <= n,
                frac_text == s@.subrange(frac_start as int, n as int),
                body == s@.skip(sign_len(s@) as int),
                dot_index(body) == dot,
                0 <= dot <= body.len(),
                dot < body.len() ==> body.skip(dot + 1) == frac_text,
                dot == body.len() ==> frac_text == Seq::<char>::empty(),
                forall|j: int| frac_start <= j < k ==> is_digit(s@[j]),
            decreases n - k,
        {
            let c = s.get_char(k);
            if c < '0' || c > '9' {
                proof {
                    assert(!is_digit(frac_text[k - frac_start]));
                    assert(!all_digits(frac_text));
                }
                return Err(ParseError::Malformed);
            }
            k = k + 1;
        }
        assert forall|j: int| 0 <= j < frac_text.len() implies is_digit(#[trigger] frac_text[j]) by {
            assert(frac_text[j] == s@[frac_start + j]);
        }
        if d - start == 0 && n - frac_start == 0 {
            return Err(ParseError::Malformed);
        }

        let ghost padded = padded_fraction(frac_text);
        let mut frac: u64 = 0;
        let mut i: usize = 0;
        while i < 6
            invariant
                n == s@.len(),
                frac_start <= n,
                frac_text == s@.subrange(frac_start as int, n as int),
                padded == padded_fraction(frac_text),
                padded.len() == 6,
                all_digits(frac_text),
                i <= 6,
                frac == digits_value(padded.take(i as int)),
                frac < pow10(i as nat),
            decreases 6 - i,
        {
            let dv: u64 = if i < n - frac_start {
                let c = s.get_char(frac_start + i);
                assert(is_digit(frac_text[i as int]));
                (c as u32 - '0' as u32) as u64
            } else {
                0
            };
            proof {
                assert(padded.take(i + 1).drop_last() =~= padded.take(i as int));
                if i < frac_text.len() {
                    assert(padded[i as int] == frac_text[i as int]);
                } else {
                    assert(padded[i as int] == '0');
                }
                lemma_pow10_six();
                assert(i == 0 || i == 1 || i == 2 || i == 3 || i == 4 || i == 5);
            }
            frac = frac * 10 + dv;
            i = i + 1;
        }
        assert(padded.take(6) =~= padded);

        proof {
            lemma_pow10_six();
        }
        if overflow {
            return Err(ParseError::OutOfRange);
        }
        let m: u64 = whole * 1_000_000 + frac;
        if negative {
            if m <= 9_223_372_036_854_775_808 {
                Ok(Decimal { units: (0 - (m as i128)) as i64 })
            } else {
                Err(ParseError::OutOfRange)
            }
        } else {
            if m <= 9_223_372_036_854_775_807 {
                Ok(Decimal { units: m as i64 })
            } else {
                Err(ParseError::OutOfRange)
            }
        }
    }

    /// The text of the value with exactly `places` fractional digits,
    /// rounded to the nearest and on a tie to even.
    pub fn to_fixed(&self, places: u32) -> (r: String)
        requires
            places <= FRACTION_DIGITS,
        ensures
            r@ == fixed_text(self@, places as nat),
    {
        let scale = ten_to(FRACTION_DIGITS - places);
        let p = ten_to(places);
        let mut s = String::new();
        let m: u64 = if self.units < 0 {
            s.append("-");
            (0 - (self.units as i128)) as u64
        } else {
            self.units as u64
        };
        let q = m / scale;
        let r = m % scale;
        let n: u64 = if 2 * r > scale || (2 * r == scale && q % 2 == 1) {
            q + 1
        } else {
            q
        };
        if places == 0 {
            push_nat(&mut s, n);
        } else {
            push_nat(&mut s, n / p);
            s.append(".");
            push_padded(&mut s, n % p, places);
        }
        proof {
            reveal_strlit("-");
            reveal_strlit(".");
            assert(s@ =~= fixed_text(self@, places as nat));
        }
        s
    }

    /// The shortest decimal text of the value, as in `-12.5` or `3`.
    pub fn to_text(&self) -> (r: String)
        ensures
            r@ == text_of(self@),
    {
        let mut s = String::new();
        let m: u64 = if self.units < 0 {
            s.append("-");
            (0 - (self.units as i128)) as u64
        } else {
            self.units as u64
        };
        let ghost before = s@;
        push_nat(&mut s, m / UNITS_PER_WHOLE as u64);
        let r = m % UNITS_PER_WHOLE as u64;
        if r != 0 {
            s.append(".");
            let mut f: u64 = r;
            let mut w: u32 = FRACTION_DIGITS;
            while w > 0 && f % 10 == 0
                invariant
                    w <= FRACTION_DIGITS,
                    trimmed(f as nat, w as nat) == trimmed(r as nat, FRACTION_DIGITS as nat),
                decreases w,
            {
                f = f / 10;
                w = w - 1;
            }
            push_padded(&mut s, f, w);
        }
        proof {
            reveal_strlit("-");
            reveal_strlit(".");
            assert(s@ =~= text_of(self@));
        }
        s
    }
}

} // verus!
