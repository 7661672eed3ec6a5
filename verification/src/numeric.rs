//! Decimal numbers of up to 128 bits of magnitude: a sign, the digits as
//! one integer and the count of digits behind the decimal point.

use crate::text::{chars_of, digit_char, digit_to_char, digits_of, push_digits, string_of};
use vstd::prelude::*;

verus! {

/// The largest count of fraction digits that a number here can have.
pub const MAX_SCALE: u8 = 38;

/// Ten to the power `n`.
pub open spec fn pow10(n: nat) -> nat
    decreases n,
{
    if n == 0 {
        1
    } else {
        10 * pow10((n - 1) as nat)
    }
}

/// Ten to the power 38, the largest power of ten below two to the 128.
pub proof fn lemma_pow10_38()
    ensures
        pow10(38) == 100_000_000_000_000_000_000_000_000_000_000_000_000nat,
{
    reveal_with_fuel(pow10, 39);
}

/// A larger exponent gives a larger power, and every power is positive.
pub proof fn lemma_pow10_monotonic(a: nat, b: nat)
    requires
        a <= b,
    ensures
        0 < pow10(a) <= pow10(b),
    decreases b,
{
    if a < b {
        lemma_pow10_monotonic(a, (b - 1) as nat);
    } else if a > 0 {
        lemma_pow10_monotonic((a - 1) as nat, (a - 1) as nat);
    }
}

/// Ten to the power `n` as a machine integer.
pub(crate) fn pow10_u128(n: u8) -> (p: u128)
    requires
        n <= MAX_SCALE,
    ensures
        p == pow10(n as nat),
        0 < p <= 100_000_000_000_000_000_000_000_000_000_000_000_000u128,
{
    let mut p: u128 = 1;
    let mut i: u8 = 0;
    proof {
        lemma_pow10_38();
    }
    while i < n
        invariant
            i <= n <= MAX_SCALE,
            p == pow10(i as nat),
            pow10(38) == 100_000_000_000_000_000_000_000_000_000_000_000_000nat,
        decreases n - i,
    {
        proof {
            lemma_pow10_monotonic((i + 1) as nat, 38);
        }
        p = p * 10;
        i += 1;
    }
    proof {
        lemma_pow10_monotonic(n as nat, 38);
    }
    p
}

/// A decimal number: `magnitude` divided by ten to the power `scale`,
/// negated where `negative` is set.
#[derive(Debug, Clone, Copy, PartialEq, Eq, Structural)]
pub struct Numeric {
    pub negative: bool,
    pub magnitude: u128,
    pub scale: u8,
}

/// The digits of `n` in exactly `width` places, zeros in front; the digits
/// beyond `width` places are cut off.
pub open spec fn padded_digits(n: nat, width: nat) -> Seq<char>
    decreases width,
{
    if width == 0 {
        Seq::empty()
    } else {
        padded_digits(n / 10, (width - 1) as nat).push(digit_char((n % 10) as int))
    }
}

/// Appends the digits of `n` in exactly `width` places to `buf`.
pub fn push_padded(buf: &mut Vec<char>, n: u128, width: u8)
    ensures
        final(buf)@ == old(buf)@ + padded_digits(n as nat, width as nat),
    decreases width,
{
    if width > 0 {
        push_padded(buf, n / 10, width - 1);
        buf.push(digit_to_char((n % 10) as u8));
    }
}

impl Numeric {
    /// A number is well formed when its scale is within the limit and zero
    /// carries no sign.
    pub open spec fn wf(self) -> bool {
        self.scale <= MAX_SCALE && (self.magnitude == 0 ==> !self.negative)
    }

    /// The digits of the number as one signed integer, the decimal point
    /// left out.
    pub open spec fn unscaled(self) -> int {
        if self.negative {
            -(self.magnitude as int)
        } else {
            self.magnitude as int
        }
    }

    /// The number `v` divided by ten to the power `scale`.
    pub open spec fn spec_from_int(v: int, scale: u8) -> Numeric {
        Numeric {
            negative: v < 0,
            magnitude: (if v < 0 {
                -v
            } else {
                v
            }) as u128,
            scale,
        }
    }

    /// The whole number `v`.
    pub fn from_i128(v: i128) -> (n: Numeric)
        ensures
            n == Self::spec_from_int(v as int, 0),
            n.wf(),
            n.unscaled() == v,
            n.scale == 0,
    {
        if v < 0 {
            Numeric { negative: true, magnitude: ((-(v + 1)) as u128) + 1, scale: 0 }
        } else {
            Numeric { negative: false, magnitude: v as u128, scale: 0 }
        }
    }

    /// The whole number `v`.
    pub fn from_u128(v: u128) -> (n: Numeric)
        ensures
            n == Self::spec_from_int(v as int, 0),
            n.wf(),
            n.unscaled() == v,
            n.scale == 0,
    {
        Numeric { negative: false, magnitude: v, scale: 0 }
    }

    /// The number `underlying` divided by ten to the power `scale`; `None`
    /// where the scale is beyond the limit.
    pub fn from_scaled(underlying: i64, scale: u8) -> (r: Option<Numeric>)
        ensures
            r is Some <==> scale <= MAX_SCALE,
            r matches Some(n) ==> n == Self::spec_from_int(underlying as int, scale) && n.wf()
                && n.unscaled() == underlying && n.scale == scale,
    {
        if scale > MAX_SCALE {
            return None;
        }
        let whole = Numeric::from_i128(underlying as i128);
        Some(Numeric { negative: whole.negative, magnitude: whole.magnitude, scale })
    }

    /// The number's text: a minus sign where it is negative, the digits
    /// before the decimal point, and, where the scale is not zero, the
    /// point and exactly `scale` digits behind it.
    pub open spec fn spec_text(self) -> Seq<char> {
        let sign = if self.negative {
            seq!['-']
        } else {
            Seq::empty()
        };
        let whole = digits_of(self.magnitude as nat / pow10(self.scale as nat));
        if self.scale == 0 {
            sign + whole
        } else {
            sign + whole + seq!['.'] + padded_digits(
                self.magnitude as nat % pow10(self.scale as nat),
                self.scale as nat,
            )
        }
    }

    /// Appends the number's text to `buf`.
    pub fn push_text(&self, buf: &mut Vec<char>)
        requires
            self.wf(),
        ensures
            final(buf)@ == old(buf)@ + self.spec_text(),
    {
        if self.negative {
            buf.push('-');
        }
        let ghost signed = buf@;
        let p = pow10_u128(self.scale);
        push_digits(buf, self.magnitude / p);
        if self.scale > 0 {
            buf.push('.');
            push_padded(buf, self.magnitude % p, self.scale);
        }
        assert(buf@ == old(buf)@ + self.spec_text());
    }

    /// The number's text.
    pub fn to_text(&self) -> (s: String)
        requires
            self.wf(),
        ensures
            s@ == self.spec_text(),
    {
        let mut buf: Vec<char> = Vec::new();
        self.push_text(&mut buf);
        string_of(&buf)
    }

    /// The digits of the number at another scale, as one signed integer:
    /// zeros are added behind, or zeros are taken away from behind; `None`
    /// where a digit other than zero would be lost.
    pub open spec fn spec_rescale(self, target: u8) -> Option<int> {
        if target >= self.scale {
            Some(self.unscaled() * pow10((target - self.scale) as nat))
        } else if self.magnitude as nat % pow10((self.scale - target) as nat) == 0 {
            Some(
                if self.negative {
                    -((self.magnitude as nat / pow10((self.scale - target) as nat)) as int)
                } else {
                    (self.magnitude as nat / pow10((self.scale - target) as nat)) as int
                },
            )
        } else {
            None
        }
    }

    /// The digits of the number at the scale `target`, as a 64-bit signed
    /// integer; `None` where a digit would be lost or 64 bits do not hold
    /// the result.
    pub fn rescale(&self, target: u8) -> (r: Option<i64>)
        requires
            self.wf(),
            target <= MAX_SCALE,
        ensures
            match r {
                Some(u) => self.spec_rescale(target) == Some(u as int),
                None => match self.spec_rescale(target) {
                    Some(v) => v < i64::MIN || v > i64::MAX,
                    None => true,
                },
            },
    {
        let m: u128;
        if target >= self.scale {
            let p = pow10_u128(target - self.scale);
            assert((-(self.magnitude as int)) * (p as int) == -(self.magnitude * p))
                by (nonlinear_arith);
            match self.magnitude.checked_mul(p) {
                Some(x) => {
                    m = x;
                },
                None => {
                    return None;
                },
            }
            assert(self.spec_rescale(target) == Some(
                if self.negative {
                    -(m as int)
                } else {
                    m as int
                },
            ));
        } else {
            let p = pow10_u128(self.scale - target);
            if self.magnitude % p != 0 {
                return None;
            }
            m = self.magnitude / p;
        }
        if self.negative {
            if m > 9_223_372_036_854_775_808u128 {
                None
            } else if m == 9_223_372_036_854_775_808u128 {
                Some(i64::MIN)
            } else {
                Some(-(m as i64))
            }
        } else {
            if m > 9_223_372_036_854_775_807u128 {
                None
            } else {
                Some(m as i64)
            }
        }
    }
}

/// Whether a character is one of the ten decimal digits.
pub open spec fn is_digit(c: char) -> bool {
    '0' <= c && c <= '9'
}

/// The number that a decimal digit writes.
pub open spec fn digit_value(c: char) -> nat {
    (c as int - '0' as int) as nat
}

/// The number that a row of decimal digits writes.
pub open spec fn digits_value(s: Seq<char>) -> nat
    decreases s.len(),
{
    if s.len() == 0 {
        0
    } else {
        digits_value(s.drop_last()) * 10 + digit_value(s.last())
    }
}

/// Whether `text` from `start` on is a row of digits that ends at `k`,
/// followed by nothing or by a point and one digit or more.
pub open spec fn valid_split(text: Seq<char>, start: int, k: int) -> bool {
    &&& start < k <= text.len()
    &&& forall|i: int| start <= i < k ==> is_digit(#[trigger] text[i])
    &&& (k == text.len() || (text[k] == '.' && k + 1 < text.len() && forall|i: int|
        k < i < text.len() ==> is_digit(#[trigger] text[i])))
}

/// Where the digits of a decimal text start: behind its sign, if it has
/// one.
pub open spec fn sign_len(text: Seq<char>) -> int {
    if text.len() > 0 && (text[0] == '-' || text[0] == '+') {
        1
    } else {
        0
    }
}

/// The digits of a decimal text that splits at `k`, the point left out.
pub open spec fn split_digits(text: Seq<char>, start: int, k: int) -> Seq<char> {
    if k == text.len() {
        text.subrange(start, k)
    } else {
        text.subrange(start, k) + text.subrange(k + 1, text.len() as int)
    }
}

/// The number that a decimal text writes: an optional sign, digits, and
/// optionally a point with digits behind it. `None` where the text has
/// another shape, more than 38 digits behind the point, or a magnitude
/// beyond 128 bits.
pub open spec fn spec_parse(text: Seq<char>) -> Option<Numeric> {
    let start = sign_len(text);
    if exists|k: int| valid_split(text, start, k) {
        let k = choose|k: int| valid_split(text, start, k);
        let mag = digits_value(split_digits(text, start, k));
        let scale = if k == text.len() {
            0
        } else {
            text.len() - k - 1
        };
        if mag <= u128::MAX && scale <= MAX_SCALE {
            Some(
                Numeric {
                    negative: text[0] == '-' && mag != 0,
                    magnitude: mag as u128,
                    scale: scale as u8,
                },
            )
        } else {
            None
        }
    } else {
        None
    }
}

/// A text splits in one way at most.
pub proof fn lemma_split_unique(text: Seq<char>, start: int, a: int, b: int)
    requires
        valid_split(text, start, a),
        valid_split(text, start, b),
    ensures
        a == b,
{
    if a < b {
        assert(is_digit(text[a]));
    } else if b < a {
        assert(is_digit(text[b]));
    }
}

/// More digits behind never write a smaller number.
pub proof fn lemma_digits_value_grows(s: Seq<char>, t: Seq<char>)
    ensures
        digits_value(s) <= digits_value(s + t),
    decreases t.len(),
{
    if t.len() == 0 {
        assert(s + t == s);
    } else {
        lemma_digits_value_grows(s, t.drop_last());
        assert((s + t).drop_last() == s + t.drop_last());
    }
}

/// Whether a character is a decimal digit.
pub fn char_is_digit(c: char) -> (r: bool)
    ensures
        r == is_digit(c),
{
    '0' <= c && c <= '9'
}

/// The number that a decimal digit writes.
pub(crate) fn char_digit_value(c: char) -> (d: u8)
    requires
        is_digit(c),
    ensures
        d == digit_value(c),
        d < 10,
{
    (c as u32 - '0' as u32) as u8
}

/// The number that a row of digits writes, where 128 bits hold it.
pub(crate) fn digits_to_u128(digits: &Vec<char>) -> (r: Option<u128>)
    requires
        forall|i: int| 0 <= i < digits.len() ==> is_digit(#[trigger] digits[i]),
    ensures
        match r {
            Some(v) => v == digits_value(digits@),
            None => digits_value(digits@) > u128::MAX,
        },
{
    let mut acc: u128 = 0;
    let mut i: usize = 0;
    while i < digits.len()
        invariant
            i <= digits.len(),
            acc == digits_value(digits@.take(i as int)),
            forall|j: int| 0 <= j < digits.len() ==> is_digit(#[trigger] digits[j]),
        decreases digits.len() - i,
    {
        let d = char_digit_value(digits[i]);
        proof {
            let next = digits@.take(i + 1);
            assert(next.drop_last() == digits@.take(i as int));
            assert(next.last() == digits@[i as int]);
            assert(digits@ == next + digits@.skip(i + 1));
            lemma_digits_value_grows(next, digits@.skip(i + 1));
        }
        let shifted = match acc.checked_mul(10) {
            Some(x) => x,
            None => {
                return None;
            },
        };
        acc = match shifted.checked_add(d as u128) {
            Some(x) => x,
            None => {
                return None;
            },
        };
        i += 1;
    }
    assert(digits@.take(digits.len() as int) == digits@);
    Some(acc)
}

impl Numeric {
    /// Reads a number from its decimal text.
    pub fn parse(text: &str) -> (r: Option<Numeric>)
        ensures
            r == spec_parse(text@),
            r matches Some(n) ==> n.wf(),
    {
        let chars = chars_of(text);
        let n = chars.len();
        let start: usize = if n > 0 && (chars[0] == '-' || chars[0] == '+') {
            1
        } else {
            0
        };
        let mut digits: Vec<char> = Vec::new();
        let mut k: usize = start;
        while k < n && char_is_digit(chars[k])
            invariant
                start <= k <= n,
                n == chars.len(),
                digits@ == chars@.subrange(start as int, k as int),
                forall|i: int| start <= i < k ==> is_digit(#[trigger] chars[i]),
            decreases n - k,
        {
            digits.push(chars[k]);
            k += 1;
            assert(chars@.subrange(start as int, k as int) == chars@.subrange(
                start as int,
                k - 1,
            ).push(chars@[k - 1]));
        }
        if k == start {
            assert forall|x: int| !valid_split(chars@, start as int, x) by {
                if valid_split(chars@, start as int, x) {
                    assert(is_digit(chars@[start as int]));
                }
            }
            return None;
        }
        if k < n {
            if chars[k] != '.' || k + 1 == n {
                assert forall|x: int| !valid_split(chars@, start as int, x) by {
                    if valid_split(chars@, start as int, x) {
                        if x < k {
                            assert(is_digit(chars@[x]));
                        } else if x > k {
                            assert(is_digit(chars@[k as int]));
                        }
                    }
                }
                return None;
            }
            let mut j: usize = k + 1;
            while j < n
                invariant
                    k < j <= n,
                    n == chars.len(),
                    chars@ == text@,
                    start == sign_len(text@),
                    digits@ == chars@.subrange(start as int, k as int) + chars@.subrange(
                        k + 1,
                        j as int,
                    ),
                    forall|i: int| start <= i < k ==> is_digit(#[trigger] chars[i]),
                    forall|i: int| k < i < j ==> is_digit(#[trigger] chars[i]),
                    chars[k as int] == '.',
                    start < k,
                decreases n - j,
            {
                if !char_is_digit(chars[j]) {
                    assert forall|x: int| !valid_split(chars@, start as int, x) by {
                        if valid_split(chars@, start as int, x) {
                            if x < k {
                                assert(is_digit(chars@[x]));
                            } else if x > k {
                                assert(is_digit(chars@[k as int]));
                            } else {
                                assert(is_digit(chars@[j as int]));
                            }
                        }
                    }
                    return None;
                }
                digits.push(chars[j]);
                j += 1;
                assert(chars@.subrange(k + 1, j as int) == chars@.subrange(k + 1, j - 1).push(
                    chars@[j - 1],
                ));
            }
        }
        assert(valid_split(chars@, start as int, k as int));
        proof {
            let c = choose|x: int| valid_split(chars@, start as int, x);
            lemma_split_unique(chars@, start as int, c, k as int);
            assert(digits@ == split_digits(chars@, start as int, k as int));
        }
        assert forall|i: int| 0 <= i < digits.len() implies is_digit(#[trigger] digits[i]) by {
            if i < k - start {
                assert(digits[i] == chars[start + i]);
            } else {
                assert(digits[i] == chars[i + start + 1]);
            }
        }
        let scale: usize = if k == n {
            0
        } else {
            n - k - 1
        };
        if scale > MAX_SCALE as usize {
            return None;
        }
        let ghost c = choose|x: int| valid_split(text@, sign_len(text@), x);
        assert(c == k);
        assert(split_digits(text@, sign_len(text@), c) == digits@);
        match digits_to_u128(&digits) {
            None => None,
            Some(m) => Some(
                Numeric { negative: chars[0] == '-' && m != 0, magnitude: m, scale: scale as u8 },
            ),
        }
    }
}

/// The character of a decimal digit is a digit and writes it.
pub proof fn lemma_digit_char(d: int)
    requires
        0 <= d < 10,
    ensures
        is_digit(digit_char(d)),
        digit_value(digit_char(d)) == d,
{
}

/// The digits of a number are digits, one at least, and write the number.
pub proof fn lemma_digits_of(n: nat)
    ensures
        digits_of(n).len() >= 1,
        forall|i: int| 0 <= i < digits_of(n).len() ==> is_digit(#[trigger] digits_of(n)[i]),
        digits_value(digits_of(n)) == n,
    decreases n,
{
    lemma_digit_char((n % 10) as int);
    if n < 10 {
        let s = seq![digit_char(n as int)];
        assert(s.drop_last() == Seq::<char>::empty());
        assert(digits_value(s.drop_last()) == 0);
    } else {
        lemma_digits_of(n / 10);
        let s = digits_of(n / 10).push(digit_char((n % 10) as int));
        assert(s.drop_last() == digits_of(n / 10));
    }
}

/// The digits of a number in `width` places are `width` digits and write
/// the number cut to `width` places.
pub proof fn lemma_padded_digits(n: nat, width: nat)
    ensures
        padded_digits(n, width).len() == width,
        forall|i: int|
            0 <= i < padded_digits(n, width).len() ==> is_digit(
                #[trigger] padded_digits(n, width)[i],
            ),
        digits_value(padded_digits(n, width)) == n % pow10(width),
    decreases width,
{
    if width > 0 {
        lemma_digit_char((n % 10) as int);
        lemma_padded_digits(n / 10, (width - 1) as nat);
        let s = padded_digits(n / 10, (width - 1) as nat).push(digit_char((n % 10) as int));
        assert(s.drop_last() == padded_digits(n / 10, (width - 1) as nat));
        lemma_pow10_monotonic(0, (width - 1) as nat);
        vstd::arithmetic::div_mod::lemma_mod_breakdown(
            n as int,
            10,
            pow10((width - 1) as nat) as int,
        );
        assert(pow10(width) == 10 * pow10((width - 1) as nat));
    } else {
        assert(pow10(0) == 1);
    }
}

/// Digits behind digits: the number in front moves up by as many places
/// as digits follow.
pub proof fn lemma_digits_value_concat(a: Seq<char>, b: Seq<char>)
    ensures
        digits_value(a + b) == digits_value(a) * pow10(b.len()) + digits_value(b),
    decreases b.len(),
{
    if b.len() == 0 {
        assert(a + b == a);
        assert(pow10(0) == 1);
    } else {
        lemma_digits_value_concat(a, b.drop_last());
        assert((a + b).drop_last() == a + b.drop_last());
        assert((a + b).last() == b.last());
        assert(pow10(b.len()) == 10 * pow10((b.len() - 1) as nat));
        assert((digits_value(a) * pow10((b.len() - 1) as nat)) * 10 == digits_value(a) * (10
            * pow10((b.len() - 1) as nat))) by (nonlinear_arith);
    }
}

/// A decimal number that is written as text and read again is unchanged.
pub proof fn law_text_then_parse(n: Numeric)
    requires
        n.wf(),
    ensures
        spec_parse(n.spec_text()) == Some(n),
{
    let p = pow10(n.scale as nat);
    lemma_pow10_monotonic(0, n.scale as nat);
    let whole = digits_of(n.magnitude as nat / p);
    let frac = padded_digits(n.magnitude as nat % p, n.scale as nat);
    lemma_digits_of(n.magnitude as nat / p);
    lemma_padded_digits(n.magnitude as nat % p, n.scale as nat);
    let sign: Seq<char> = if n.negative {
        seq!['-']
    } else {
        Seq::empty()
    };
    let t = n.spec_text();
    let start = sign.len() as int;
    let k = start + whole.len();
    assert(is_digit(whole[0]));
    if n.scale == 0 {
        assert(t == sign + whole);
        assert(t[0] == (sign + whole)[0]);
        assert forall|i: int| start <= i < k implies is_digit(#[trigger] t[i]) by {
            assert(t[i] == whole[i - start]);
        }
        assert(t.subrange(start, k) == whole);
        assert(pow10(0) == 1);
        assert(k == t.len());
        assert(p == 1);
        assert(n.magnitude as nat / 1 == n.magnitude);
        assert(digits_value(whole) == n.magnitude);
        assert(split_digits(t, start, k) == whole);
        assert(digits_value(split_digits(t, start, k)) == n.magnitude);
    } else {
        assert(t == sign + whole + seq!['.'] + frac);
        assert(t[0] == (sign + whole)[0]);
        assert forall|i: int| start <= i < k implies is_digit(#[trigger] t[i]) by {
            assert(t[i] == whole[i - start]);
        }
        assert(t[k] == '.');
        assert forall|i: int| k < i < t.len() implies is_digit(#[trigger] t[i]) by {
            assert(t[i] == frac[i - k - 1]);
        }
        assert(t.subrange(start, k) == whole);
        assert(t.subrange(k + 1, t.len() as int) == frac);
        lemma_digits_value_concat(whole, frac);
        vstd::arithmetic::div_mod::lemma_fundamental_div_mod(n.magnitude as int, p as int);
        vstd::arithmetic::div_mod::lemma_mod_bound(n.magnitude as int, p as int);
        vstd::arithmetic::div_mod::lemma_small_mod((n.magnitude as nat % p) as nat, p);
        assert((n.magnitude as nat / p) * p == p * (n.magnitude as nat / p)) by (nonlinear_arith);
        assert(k < t.len());
        assert(split_digits(t, start, k) == whole + frac);
        assert(digits_value(frac) == n.magnitude as nat % p);
        assert(digits_value(whole) == n.magnitude as nat / p);
        assert(frac.len() == n.scale);
        assert(digits_value(split_digits(t, start, k)) == n.magnitude);
    }
    assert(sign_len(t) == start);
    assert(valid_split(t, start, k));
    let c = choose|x: int| valid_split(t, sign_len(t), x);
    lemma_split_unique(t, start, c, k);
}

} // verus!
