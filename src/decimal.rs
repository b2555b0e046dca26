use vstd::prelude::*;
use vstd::string::StringExecFns;
use vstd::arithmetic::div_mod::lemma_div_denominator;

verus! {

/// The character of a decimal digit.
pub open spec fn digit_char(d: nat) -> char {
    if d == 0 {
        '0'
    } else if d == 1 {
        '1'
    } else if d == 2 {
        '2'
    } else if d == 3 {
        '3'
    } else if d == 4 {
        '4'
    } else if d == 5 {
        '5'
    } else if d == 6 {
        '6'
    } else if d == 7 {
        '7'
    } else if d == 8 {
        '8'
    } else {
        '9'
    }
}

/// The decimal digits of `n`, most significant first, without leading zeros
/// (zero itself is the single digit `0`).
pub open spec fn digits_of(n: nat) -> Seq<char>
    decreases n,
{
    if n < 10 {
        seq![digit_char(n)]
    } else {
        digits_of(n / 10).push(digit_char(n % 10))
    }
}

/// The `width` lowest decimal digits of `n`, most significant first, padded
/// with zeros on the left.
pub open spec fn padded_digits(n: nat, width: nat) -> Seq<char>
    decreases width,
{
    if width == 0 {
        Seq::empty()
    } else {
        padded_digits(n / 10, (width - 1) as nat).push(digit_char(n % 10))
    }
}

/// Ten to the power `k`.
pub open spec fn pow10(k: nat) -> nat
    decreases k,
{
    if k == 0 {
        1
    } else {
        10 * pow10((k - 1) as nat)
    }
}

/// A number as an integer mantissa scaled down by a power of ten:
/// `mantissa / 10^scale`.
pub struct DecimalView {
    pub mantissa: int,
    pub scale: nat,
}

impl DecimalView {
    pub open spec fn magnitude(self) -> nat {
        if self.mantissa < 0 {
            (-self.mantissa) as nat
        } else {
            self.mantissa as nat
        }
    }

    /// Canonical form: no fractional digit is a trailing zero.
    pub open spec fn is_normal(self) -> bool {
        self.scale == 0 || self.mantissa % 10 != 0
    }

    /// The fixed-point text of the number: an optional minus sign, the whole
    /// part, and, for a positive scale, a dot followed by exactly `scale`
    /// fractional digits. No exponent, no grouping separators.
    pub open spec fn text(self) -> Seq<char> {
        let sign = if self.mantissa < 0 {
            seq!['-']
        } else {
            Seq::empty()
        };
        let whole = digits_of(self.magnitude() / pow10(self.scale));
        if self.scale == 0 {
            sign + whole
        } else {
            sign + whole + seq!['.'] + padded_digits(self.magnitude(), self.scale)
        }
    }
}

/// A decimal number, the form in which lengths, coordinates and other
/// numeric attribute values are written into a document.
#[derive(Clone, Copy, Debug, PartialEq, Eq)]
pub struct Decimal {
    negative: bool,
    digits: u64,
    scale: u32,
}

impl View for Decimal {
    type V = DecimalView;

    closed spec fn view(&self) -> DecimalView {
        DecimalView {
            mantissa: if self.negative {
                -(self.digits as int)
            } else {
                self.digits as int
            },
            scale: self.scale as nat,
        }
    }
}

proof fn lemma_pow10_positive(k: nat)
    ensures
        pow10(k) > 0,
    decreases k,
{
    if k > 0 {
        lemma_pow10_positive((k - 1) as nat);
    }
}

fn digit_text(d: u64) -> (r: &'static str)
    requires
        d < 10,
    ensures
        r@ == seq![digit_char(d as nat)],
{
    proof {
        reveal_strlit("0");
        reveal_strlit("1");
        reveal_strlit("2");
        reveal_strlit("3");
        reveal_strlit("4");
        reveal_strlit("5");
        reveal_strlit("6");
        reveal_strlit("7");
        reveal_strlit("8");
        reveal_strlit("9");
    }
    if d == 0 {
        "0"
    } else if d == 1 {
        "1"
    } else if d == 2 {
        "2"
    } else if d == 3 {
        "3"
    } else if d == 4 {
        "4"
    } else if d == 5 {
        "5"
    } else if d == 6 {
        "6"
    } else if d == 7 {
        "7"
    } else if d == 8 {
        "8"
    } else {
        "9"
    }
}

fn push_digits(out: &mut String, n: u64)
    ensures
        final(out)@ == old(out)@ + digits_of(n as nat),
    decreases n,
{
    if n >= 10 {
        push_digits(out, n / 10);
    }
    out.append(digit_text(n % 10));
    proof {
        assert(final(out)@ =~= old(out)@ + digits_of(n as nat));
    }
}

fn push_padded_digits(out: &mut String, n: u64, width: u32)
    ensures
        final(out)@ == old(out)@ + padded_digits(n as nat, width as nat),
    decreases width,
{
    if width > 0 {
        push_padded_digits(out, n / 10, width - 1);
        out.append(digit_text(n % 10));
        proof {
            assert(final(out)@ =~= old(out)@ + padded_digits(n as nat, width as nat));
        }
    } else {
        proof {
            assert(final(out)@ =~= old(out)@ + padded_digits(n as nat, width as nat));
        }
    }
}

impl Decimal {
    #[verifier::type_invariant]
    spec fn well_formed(self) -> bool {
        &&& self@.is_normal()
        &&& (self.negative ==> self.digits > 0)
    }

    /// The number `mantissa / 10^scale`, brought to canonical form by
    /// dropping trailing fractional zeros.
    pub fn new(mantissa: i64, scale: u32) -> (r: Decimal)
        ensures
            r@.is_normal(),
            r@.scale <= scale,
            r@.mantissa * pow10((scale - r@.scale) as nat) == mantissa,
            (scale == 0 || mantissa % 10 != 0) ==> r@ == (DecimalView {
                mantissa: mantissa as int,
                scale: scale as nat,
            }),
    {
        let negative = mantissa < 0;
        let mut digits: u64 = if negative {
            (0 - (mantissa as i128)) as u64
        } else {
            mantissa as u64
        };
        let mut s: u32 = scale;
        let ghost sign: int = if negative { -1 } else { 1 };
        let ghost canonical: bool = scale == 0 || mantissa % 10 != 0;
        proof {
            assert(pow10(0) == 1);
            assert(digits == (if negative { -mantissa } else { mantissa as int }));
            assert(sign * digits == mantissa) by (nonlinear_arith)
                requires
                    digits == (if negative { -mantissa } else { mantissa as int }),
                    sign == (if negative { -1int } else { 1int }),
            ;
            assert((mantissa % 10 == 0) == ((-mantissa) % 10 == 0));
            assert(pow10((scale - s) as nat) == 1);
            assert(sign * digits * pow10((scale - s) as nat) == sign * digits * 1);
        }
        while s > 0 && digits % 10 == 0
            invariant
                s <= scale,
                sign * digits * pow10((scale - s) as nat) == mantissa,
                sign == (if negative { -1int } else { 1int }),
                canonical == (scale == 0 || mantissa % 10 != 0),
                (mantissa % 10 == 0) == ((-mantissa) % 10 == 0),
                canonical ==> s == scale && digits == (if negative {
                    -mantissa
                } else {
                    mantissa as int
                }),
            decreases s,
        {
            let ghost before = digits;
            digits = digits / 10;
            s = s - 1;
            proof {
                let k = (scale - s) as nat;
                assert(pow10(k) == 10 * pow10((k - 1) as nat));
                assert(before == 10 * digits);
                assert(sign * digits * pow10(k) == sign * (10 * digits) * pow10((k - 1) as nat))
                    by (nonlinear_arith)
                    requires
                        pow10(k) == 10 * pow10((k - 1) as nat),
                ;
            }
        }
        let negative = negative && digits > 0;
        let r = Decimal { negative, digits, scale: s };
        proof {
            lemma_pow10_positive((scale - s) as nat);
            if mantissa < 0 {
                assert(digits > 0) by (nonlinear_arith)
                    requires
                        sign == -1,
                        sign * digits * pow10((scale - s) as nat) == mantissa,
                        mantissa < 0,
                ;
            }
            assert(r@.mantissa == sign * digits);
        }
        r
    }

    /// Appends the fixed-point text of the number to `out`.
    pub fn write_to(&self, out: &mut String)
        ensures
            final(out)@ == old(out)@ + self@.text(),
    {
        let ghost start = out@;
        proof {
            use_type_invariant(self);
            assert(pow10(0) == 1);
        }
        if self.negative {
            out.append("-");
        }
        let ghost signed = out@;
        proof {
            reveal_strlit("-");
            let sign = if self@.mantissa < 0 {
                seq!['-']
            } else {
                Seq::<char>::empty()
            };
            assert(signed =~= start + sign);
        }
        let mut whole: u64 = self.digits;
        let mut k: u32 = 0;
        while k < self.scale
            invariant
                k <= self.scale,
                whole as nat == (self.digits as nat) / pow10(k as nat),
            decreases self.scale - k,
        {
            proof {
                lemma_pow10_positive(k as nat);
                lemma_div_denominator(self.digits as int, pow10(k as nat) as int, 10);
                assert(pow10((k + 1) as nat) == pow10(k as nat) * 10);
            }
            whole = whole / 10;
            k = k + 1;
        }
        push_digits(out, whole);
        if self.scale > 0 {
            out.append(".");
            push_padded_digits(out, self.digits, self.scale);
            proof {
                reveal_strlit(".");
            }
        }
        proof {
            assert(final(out)@ =~= old(out)@ + self@.text());
        }
    }
}

} // verus!
