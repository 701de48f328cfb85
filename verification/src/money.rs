//! Exact decimal amounts.
//!
//! A [`Money`] value is a decimal number `mantissa / 10^scale` with a 96-bit
//! mantissa and a scale of at most 28, the value set of
//! `rust_decimal::Decimal`. The arithmetic itself is done by `rust_decimal`;
//! this module states what the library relies on.

use vstd::prelude::*;

verus! {

/// Largest magnitude a mantissa can have: `2^96 - 1`.
pub const MAX_MANTISSA: i128 = 0x0000_0000_FFFF_FFFF_FFFF_FFFF_FFFF_FFFFi128;

/// Largest scale (number of fractional digits).
pub const MAX_SCALE: u32 = 28u32;

/// Mathematical content of a decimal: the number `mantissa / 10^scale`,
/// together with its representation.
pub struct Decimal {
    pub mantissa: int,
    pub scale: nat,
}

impl Decimal {
    /// The decimal zero with no fractional digits.
    pub open spec fn zero() -> Decimal {
        Decimal { mantissa: 0, scale: 0 }
    }

    /// The integer `n` as a decimal.
    pub open spec fn whole(n: int) -> Decimal {
        Decimal { mantissa: n, scale: 0 }
    }

    /// Whether the pair can be stored: 96-bit mantissa, scale at most 28.
    pub open spec fn representable(self) -> bool {
        &&& -MAX_MANTISSA <= self.mantissa <= MAX_MANTISSA
        &&& self.scale <= MAX_SCALE
    }
}

/// What `rust_decimal` returns for the checked product of two decimals
/// when the exact product cannot be stored as it stands: a rounded value,
/// or `None` on overflow.
pub uninterp spec fn decimal_product(a: Decimal, b: Decimal) -> Option<Decimal>;

/// What `rust_decimal` returns for the checked sum of two decimals when the
/// operands have different scales or the exact sum cannot be stored as it
/// stands: a rescaled or rounded value, or `None` on overflow.
pub uninterp spec fn decimal_sum(a: Decimal, b: Decimal) -> Option<Decimal>;

/// The product of two decimals where it needs no rounding: a zero operand
/// gives the plain zero, and two non-zero operands give the product of the
/// mantissas at the sum of the scales if that can be stored.
pub open spec fn exact_product(a: Decimal, b: Decimal) -> Option<Decimal> {
    let p = Decimal { mantissa: a.mantissa * b.mantissa, scale: a.scale + b.scale };
    if a.mantissa == 0 || b.mantissa == 0 {
        Some(Decimal::zero())
    } else if p.representable() {
        Some(p)
    } else {
        None
    }
}

/// The sum of two decimals where it needs neither rescaling nor rounding: a
/// zero operand gives the other operand as it is, and two non-zero operands
/// of one scale give the sum of the mantissas at that scale if that can be
/// stored.
pub open spec fn exact_sum(a: Decimal, b: Decimal) -> Option<Decimal> {
    let s = Decimal { mantissa: a.mantissa + b.mantissa, scale: a.scale };
    if a.mantissa == 0 {
        Some(b)
    } else if b.mantissa == 0 {
        Some(a)
    } else if a.scale == b.scale && s.representable() {
        Some(s)
    } else {
        None
    }
}

/// The checked product of two decimals: the exact product where there is
/// one, and otherwise whatever `rust_decimal` computes (a rounded value, or
/// `None` on overflow).
pub open spec fn product(a: Decimal, b: Decimal) -> Option<Decimal> {
    match exact_product(a, b) {
        Some(p) => Some(p),
        None => decimal_product(a, b),
    }
}

/// The checked sum of two decimals: the exact sum where there is one, and
/// otherwise whatever `rust_decimal` computes (a rescaled or rounded value,
/// or `None` on overflow).
pub open spec fn sum(a: Decimal, b: Decimal) -> Option<Decimal> {
    match exact_sum(a, b) {
        Some(s) => Some(s),
        None => decimal_sum(a, b),
    }
}

/// The mathematical content of an optional amount.
pub open spec fn amount_view(r: Option<Money>) -> Option<Decimal> {
    match r {
        Some(m) => Some(m@),
        None => None,
    }
}

/// An exact decimal amount (a price, a subtotal, an order total).
#[derive(Clone, Copy, Debug, PartialEq, Eq, Structural)]
pub struct Money {
    mantissa: i128,
    scale: u32,
}

impl View for Money {
    type V = Decimal;

    closed spec fn view(&self) -> Decimal {
        Decimal { mantissa: self.mantissa as int, scale: self.scale as nat }
    }
}

impl Money {
    #[verifier::type_invariant]
    spec fn well_formed(self) -> bool {
        &&& -MAX_MANTISSA <= self.mantissa <= MAX_MANTISSA
        &&& self.scale <= MAX_SCALE
    }

    /// The amount `mantissa / 10^scale`, if it can be stored.
    pub fn new(mantissa: i128, scale: u32) -> (r: Option<Money>)
        ensures
            r is Some <==> (Decimal { mantissa: mantissa as int, scale: scale as nat }).representable(),
            r is Some ==> r->0@ == (Decimal { mantissa: mantissa as int, scale: scale as nat }),
    {
        if -MAX_MANTISSA <= mantissa && mantissa <= MAX_MANTISSA && scale <= MAX_SCALE {
            Some(Money { mantissa, scale })
        } else {
            None
        }
    }

    /// Zero, with no fractional digits.
    pub fn zero() -> (r: Money)
        ensures
            r@ == Decimal::zero(),
    {
        Money { mantissa: 0, scale: 0 }
    }

    /// The integer numerator of the amount.
    pub fn mantissa(&self) -> (m: i128)
        ensures
            m == self@.mantissa,
            self@.representable(),
    {
        proof {
            use_type_invariant(self);
        }
        self.mantissa
    }

    /// The number of fractional digits of the amount.
    pub fn scale(&self) -> (s: u32)
        ensures
            s == self@.scale,
            self@.representable(),
    {
        proof {
            use_type_invariant(self);
        }
        self.scale
    }

    /// The whole number `n`, with no fractional digits.
    pub fn whole(n: i32) -> (r: Money)
        ensures
            r@ == Decimal::whole(n as int),
    {
        Money { mantissa: n as i128, scale: 0 }
    }
}

/// Trusted: `rust_decimal::Decimal::checked_mul`.
///
/// Both operands are rebuilt as `rust_decimal` values from mantissa and
/// scale, which cannot fail for an amount, then multiplied, and the result
/// is read back as mantissa and scale. The contract claims that a zero
/// operand yields the plain zero and that a product whose mantissa and
/// scale fit is returned exactly. Of every other result it claims only
/// that it depends on the operands alone.
#[verifier::external_body]
pub(crate) fn mul_decimal(a: Money, b: Money) -> (r: Option<Money>)
    ensures
        exact_product(a@, b@) is Some ==> amount_view(r) == exact_product(a@, b@),
        exact_product(a@, b@) is None ==> amount_view(r) == decimal_product(a@, b@),
{
    let x = rust_decimal::Decimal::from_i128_with_scale(a.mantissa, a.scale);
    let y = rust_decimal::Decimal::from_i128_with_scale(b.mantissa, b.scale);
    match x.checked_mul(y) {
        Some(p) => Some(Money { mantissa: p.mantissa(), scale: p.scale() }),
        None => None,
    }
}

/// Trusted: `rust_decimal::Decimal::checked_add`.
///
/// Both operands are rebuilt as `rust_decimal` values from mantissa and
/// scale, which cannot fail for an amount, then added, and the result is
/// read back as mantissa and scale. The contract claims that a zero
/// operand yields the other operand as it is and that two non-zero
/// operands of one scale whose sum fits are added exactly. Of every other
/// result, sums across different scales among them, it claims only that
/// it depends on the operands alone.
#[verifier::external_body]
pub(crate) fn add_decimal(a: Money, b: Money) -> (r: Option<Money>)
    ensures
        exact_sum(a@, b@) is Some ==> amount_view(r) == exact_sum(a@, b@),
        exact_sum(a@, b@) is None ==> amount_view(r) == decimal_sum(a@, b@),
{
    let x = rust_decimal::Decimal::from_i128_with_scale(a.mantissa, a.scale);
    let y = rust_decimal::Decimal::from_i128_with_scale(b.mantissa, b.scale);
    match x.checked_add(y) {
        Some(p) => Some(Money { mantissa: p.mantissa(), scale: p.scale() }),
        None => None,
    }
}

} // verus!
