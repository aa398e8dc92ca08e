use vstd::prelude::*;

use crate::ordering::{rank_precedes, Ranked};

verus! {

/// Largest number of fractional digits. This stands for the largest scale of
/// `fixed_decimal::FixedDecimal`; it is written down here, not read from there, and has to follow
/// it.
pub const MAX_DECIMAL_SCALE: u32 = 38;

/// Why a decimal could not be produced.
#[derive(Clone, Copy, Debug, PartialEq, Eq, Structural)]
pub enum DecimalError {
    /// The scale exceeds the largest number of fractional digits.
    ScaleOutOfRange,
    /// The exact result has no representation.
    Unrepresentable,
    /// Division by zero.
    DivisionByZero,
    /// The text is not the canonical text of a decimal.
    InvalidText,
    /// The value lies outside the domain of the quantity it stands for.
    OutOfDomain,
}

/// Ten to the power of `exponent`.
pub open spec fn pow10(exponent: nat) -> int
    decreases exponent,
{
    if exponent == 0 {
        1
    } else {
        10 * pow10((exponent - 1) as nat)
    }
}

pub open spec fn fits_i128(value: int) -> bool {
    i128::MIN <= value <= i128::MAX
}

/// An integer without its sign.
pub open spec fn magnitude(value: int) -> int {
    if value < 0 {
        -value
    } else {
        value
    }
}

/// The integer that stands for one, in the smallest unit that a decimal can hold.
pub open spec fn unit() -> int {
    pow10(MAX_DECIMAL_SCALE as nat)
}

/// An exact decimal, `mantissa / 10^scale`, held without trailing fractional zeros.
#[derive(Clone, Copy, Debug, PartialEq, Eq, Structural)]
pub struct FixedDecimal {
    mantissa: i128,
    scale: u32,
}

/// The digits and the scale that are left of a number once its trailing fractional zeros are
/// dropped.
pub open spec fn dropped_zeros(digits: int, scale: nat) -> (int, nat)
    decreases scale,
{
    if scale > 0 && digits % 10 == 0 {
        dropped_zeros(digits / 10, (scale - 1) as nat)
    } else {
        (digits, scale)
    }
}

/// The decimal that counts a number of units of `10^-38`.
pub closed spec fn decimal_of_units(units: int) -> FixedDecimal {
    let parts = dropped_zeros(units, MAX_DECIMAL_SCALE as nat);
    FixedDecimal { mantissa: parts.0 as i128, scale: parts.1 as u32 }
}

impl FixedDecimal {
    /// The exact sum, where it is a decimal.
    pub open spec fn plus(self, other: Self) -> Option<Self> {
        if self.sum_fits(other) {
            Some(decimal_of_units(self.units() + other.units()))
        } else {
            None
        }
    }

    /// The exact difference, where it is a decimal.
    pub open spec fn minus(self, other: Self) -> Option<Self> {
        if self.difference_fits(other) {
            Some(decimal_of_units(self.units() - other.units()))
        } else {
            None
        }
    }

    /// The exact product, where it is a decimal.
    pub open spec fn times(self, other: Self) -> Option<Self> {
        if self.product_fits(other) {
            Some(decimal_of_units(self.units() * other.units() / unit()))
        } else {
            None
        }
    }

    /// The exact quotient, where the division terminates within range.
    pub open spec fn over(self, divisor: Self) -> Option<Self> {
        if divisor.units() != 0 && exists|steps: nat| self.divides_after(divisor, steps) {
            Some(decimal_of_units(self.units() * unit() / divisor.units()))
        } else {
            None
        }
    }

    /// The same size with the other sign, where it is a decimal.
    pub open spec fn negated(self) -> Option<Self> {
        if self.negation_fits() {
            Some(decimal_of_units(-self.units()))
        } else {
            None
        }
    }

    #[verifier::type_invariant]
    spec fn canonical(self) -> bool {
        self.scale <= MAX_DECIMAL_SCALE && (self.scale > 0 ==> self.mantissa as int % 10 != 0)
    }

    /// The digits of the decimal as one signed integer.
    pub closed spec fn digits(self) -> int {
        self.mantissa as int
    }

    /// The number of fractional digits.
    pub closed spec fn places(self) -> nat {
        self.scale as nat
    }

    /// No more fractional digits than are allowed, and no trailing zero among them.
    pub open spec fn is_canonical(self) -> bool {
        self.places() <= MAX_DECIMAL_SCALE && (self.places() > 0 ==> self.digits() % 10 != 0)
    }

    /// The value, counted in units of `10^-38`.
    pub open spec fn units(self) -> int {
        self.digits() * pow10((MAX_DECIMAL_SCALE - self.places()) as nat)
    }

    /// The value is a whole number.
    pub open spec fn is_whole(self) -> bool {
        self.places() == 0
    }

    /// Both operands and their sum are within range at the larger scale of the two.
    pub open spec fn sum_fits(self, other: Self) -> bool {
        let scale = if self.places() < other.places() {
            other.places()
        } else {
            self.places()
        };
        let left = self.digits() * pow10((scale - self.places()) as nat);
        let right = other.digits() * pow10((scale - other.places()) as nat);
        fits_i128(left) && fits_i128(right) && fits_i128(left + right)
    }

    /// Both operands and their difference are within range at the larger scale of the two.
    pub open spec fn difference_fits(self, other: Self) -> bool {
        let scale = if self.places() < other.places() {
            other.places()
        } else {
            self.places()
        };
        let left = self.digits() * pow10((scale - self.places()) as nat);
        let right = other.digits() * pow10((scale - other.places()) as nat);
        fits_i128(left) && fits_i128(right) && fits_i128(left - right)
    }

    /// The product of the digits is within range and needs no more fractional digits than
    /// there are.
    pub open spec fn product_fits(self, other: Self) -> bool {
        let digits = self.digits() * other.digits();
        let scale = self.places() + other.places();
        fits_i128(digits) && (scale > MAX_DECIMAL_SCALE ==> digits % pow10(
            (scale - MAX_DECIMAL_SCALE) as nat,
        ) == 0)
    }

    /// The negated digits are within range.
    pub open spec fn negation_fits(self) -> bool {
        self.digits() != i128::MIN
    }

    /// `mantissa / 10^scale`.
    pub fn new(mantissa: i128, scale: u32) -> (result: Result<Self, DecimalError>)
        ensures
            result is Ok <==> scale <= MAX_DECIMAL_SCALE,
            result is Err ==> result->Err_0 == DecimalError::ScaleOutOfRange,
            result is Ok ==> result->Ok_0.units() == mantissa * pow10(
                (MAX_DECIMAL_SCALE - scale) as nat,
            ),
            result is Ok && scale == 0 ==> result->Ok_0.is_whole() && result->Ok_0.digits()
                == mantissa,
    {
        if scale > MAX_DECIMAL_SCALE {
            return Err(DecimalError::ScaleOutOfRange);
        }
        Ok(Self::trimmed(mantissa, scale))
    }

    /// `mantissa / 10^scale` without its trailing fractional zeros.
    fn trimmed(mantissa: i128, scale: u32) -> (result: Self)
        requires
            scale <= MAX_DECIMAL_SCALE,
        ensures
            result.units() == mantissa * pow10((MAX_DECIMAL_SCALE - scale) as nat),
            scale == 0 ==> result.is_whole() && result.digits() == mantissa,
    {
        let mut digits: i128 = mantissa;
        let mut places: u32 = scale;
        while places > 0 && digits % 10 == 0
            invariant
                places <= scale <= MAX_DECIMAL_SCALE,
                scale == 0 ==> digits == mantissa,
                digits * pow10((MAX_DECIMAL_SCALE - places) as nat) == mantissa * pow10(
                    (MAX_DECIMAL_SCALE - scale) as nat,
                ),
            decreases places,
        {
            let ghost before = digits;
            digits = digits / 10;
            places -= 1;
            proof {
                let p = pow10((MAX_DECIMAL_SCALE - places - 1) as nat);
                assert(pow10((MAX_DECIMAL_SCALE - places) as nat) == 10 * p);
                assert(digits * (10 * p) == before * p) by (nonlinear_arith)
                    requires
                        digits * 10 == before,
                ;
            }
        }
        FixedDecimal { mantissa: digits, scale: places }
    }

    pub fn zero() -> (result: Self)
        ensures
            result.units() == 0,
            result.is_whole(),
            result.digits() == 0,
            result == decimal_of_units(0),
    {
        let zero = FixedDecimal { mantissa: 0, scale: 0 };
        proof {
            lemma_decimal_of_own_units(zero);
        }
        zero
    }

    /// A whole number.
    pub fn whole(value: i64) -> (result: Self)
        ensures
            result.units() == value * unit(),
            result.is_whole(),
            result.digits() == value,
            result == decimal_of_units(value * unit()),
    {
        let whole = FixedDecimal { mantissa: value as i128, scale: 0 };
        proof {
            lemma_decimal_of_own_units(whole);
        }
        whole
    }

    pub fn mantissa(&self) -> (mantissa: i128)
        ensures
            mantissa == self.digits(),
    {
        self.mantissa
    }

    pub fn scale(&self) -> (scale: u32)
        ensures
            scale == self.places(),
            scale <= MAX_DECIMAL_SCALE,
    {
        proof {
            use_type_invariant(self);
        }
        self.scale
    }

    /// The digits of a decimal that is not negative.
    pub fn whole_magnitude(&self) -> (size: u128)
        requires
            self.units() >= 0,
        ensures
            size == self.digits(),
            size > 0 <==> self.units() > 0,
    {
        proof {
            use_type_invariant(self);
            lemma_units_sign(*self);
        }
        self.mantissa as u128
    }

    pub fn is_zero(&self) -> (answer: bool)
        ensures
            answer == (self.units() == 0),
    {
        proof {
            use_type_invariant(self);
            lemma_units_sign(*self);
        }
        self.mantissa == 0
    }

    pub fn is_positive(&self) -> (answer: bool)
        ensures
            answer == (self.units() > 0),
    {
        proof {
            use_type_invariant(self);
            lemma_units_sign(*self);
        }
        self.mantissa > 0
    }

    pub fn is_negative(&self) -> (answer: bool)
        ensures
            answer == (self.units() < 0),
    {
        proof {
            use_type_invariant(self);
            lemma_units_sign(*self);
        }
        self.mantissa < 0
    }

    pub fn checked_neg(self) -> (result: Result<Self, DecimalError>)
        ensures
            result is Err ==> result->Err_0 == DecimalError::Unrepresentable,
            result is Ok ==> result->Ok_0.units() == -self.units(),
            result.ok() == self.negated(),
    {
        proof {
            use_type_invariant(&self);
        }
        if self.mantissa == i128::MIN {
            return Err(DecimalError::Unrepresentable);
        }
        proof {
            let p = pow10((MAX_DECIMAL_SCALE - self.scale) as nat);
            assert(-(self.mantissa as int) * p == -(self.mantissa * p)) by (nonlinear_arith);
        }
        proof {
            assert(-(self.mantissa as int) % 10 == 0 <==> self.mantissa as int % 10 == 0);
        }
        let negated = FixedDecimal { mantissa: -self.mantissa, scale: self.scale };
        proof {
            lemma_decimal_of_own_units(negated);
        }
        Ok(negated)
    }

    /// The digits at a scale that is at least the decimal's own.
    fn digits_at(self, scale: u32) -> (digits: Option<i128>)
        requires
            self.places() <= scale <= MAX_DECIMAL_SCALE,
        ensures
            digits is Some <==> fits_i128(self.digits() * pow10((scale - self.places()) as nat)),
            digits is Some ==> digits->Some_0 == self.digits() * pow10(
                (scale - self.places()) as nat,
            ),
            digits is Some ==> digits->Some_0 * pow10((MAX_DECIMAL_SCALE - scale) as nat)
                == self.units(),
    {
        let factor: i128 = power_of_ten(scale - self.scale);
        proof {
            lemma_pow10_add((scale - self.scale) as nat, (MAX_DECIMAL_SCALE - scale) as nat);
            let p = pow10((MAX_DECIMAL_SCALE - scale) as nat);
            assert((self.mantissa * factor) * p == self.mantissa * (factor * p))
                by (nonlinear_arith);
        }
        self.mantissa.checked_mul(factor)
    }

    pub fn checked_add(self, other: Self) -> (result: Result<Self, DecimalError>)
        ensures
            result is Err ==> result->Err_0 == DecimalError::Unrepresentable,
            result is Ok ==> result->Ok_0.units() == self.units() + other.units(),
            result.ok() == self.plus(other),
    {
        proof {
            use_type_invariant(&self);
            use_type_invariant(&other);
        }
        let scale: u32 = if self.scale < other.scale {
            other.scale
        } else {
            self.scale
        };
        match (self.digits_at(scale), other.digits_at(scale)) {
            (Some(left), Some(right)) => match left.checked_add(right) {
                Some(sum) => {
                    proof {
                        let p = pow10((MAX_DECIMAL_SCALE - scale) as nat);
                        assert((left + right) * p == left * p + right * p) by (nonlinear_arith);
                    }
                    let total = Self::trimmed(sum, scale);
                    proof {
                        use_type_invariant(&total);
                        lemma_decimal_of_own_units(total);
                    }
                    Ok(total)
                },
                None => Err(DecimalError::Unrepresentable),
            },
            _ => Err(DecimalError::Unrepresentable),
        }
    }

    pub fn checked_sub(self, other: Self) -> (result: Result<Self, DecimalError>)
        ensures
            result is Err ==> result->Err_0 == DecimalError::Unrepresentable,
            result is Ok ==> result->Ok_0.units() == self.units() - other.units(),
            result.ok() == self.minus(other),
    {
        proof {
            use_type_invariant(&self);
            use_type_invariant(&other);
        }
        let scale: u32 = if self.scale < other.scale {
            other.scale
        } else {
            self.scale
        };
        match (self.digits_at(scale), other.digits_at(scale)) {
            (Some(left), Some(right)) => match left.checked_sub(right) {
                Some(difference) => {
                    proof {
                        let p = pow10((MAX_DECIMAL_SCALE - scale) as nat);
                        assert((left - right) * p == left * p - right * p) by (nonlinear_arith);
                    }
                    let rest = Self::trimmed(difference, scale);
                    proof {
                        use_type_invariant(&rest);
                        lemma_decimal_of_own_units(rest);
                    }
                    Ok(rest)
                },
                None => Err(DecimalError::Unrepresentable),
            },
            _ => Err(DecimalError::Unrepresentable),
        }
    }

    pub fn checked_mul(self, other: Self) -> (result: Result<Self, DecimalError>)
        ensures
            result is Err ==> result->Err_0 == DecimalError::Unrepresentable,
            result is Ok ==> result->Ok_0.units() * unit() == self.units() * other.units(),
            result.ok() == self.times(other),
    {
        proof {
            use_type_invariant(&self);
            use_type_invariant(&other);
        }
        match self.mantissa.checked_mul(other.mantissa) {
            Some(product) => {
                let mut digits: i128 = product;
                let mut places: u32 = self.scale + other.scale;
                let ghost excess = places - MAX_DECIMAL_SCALE;
                while places > MAX_DECIMAL_SCALE
                    invariant
                        places <= self.scale + other.scale,
                        self.scale + other.scale > MAX_DECIMAL_SCALE ==> places
                            >= MAX_DECIMAL_SCALE,
                        digits * pow10((self.scale + other.scale - places) as nat) == product,
                        product == self.mantissa * other.mantissa,
                        self.canonical(),
                        other.canonical(),
                    decreases places,
                {
                    if digits % 10 != 0 {
                        proof {
                            let stripped = (self.scale + other.scale - places) as nat;
                            let rest = (places - MAX_DECIMAL_SCALE) as nat;
                            lemma_pow10_add(stripped, rest);
                            lemma_pow10_positive(stripped);
                            lemma_pow10_positive((rest - 1) as nat);
                            if product as int % pow10((stripped + rest) as nat) == 0 {
                                let whole = product as int / pow10((stripped + rest) as nat);
                                let p = pow10(stripped);
                                let q = pow10((rest - 1) as nat);
                                lemma_pow10_positive(stripped + rest);
                                assert(product == whole * (p * (10 * q))) by {
                                    vstd::arithmetic::div_mod::lemma_fundamental_div_mod(
                                        product as int,
                                        pow10((stripped + rest) as nat),
                                    );
                                    assert(pow10((stripped + rest) as nat) * whole == whole * pow10(
                                        (stripped + rest) as nat,
                                    )) by (nonlinear_arith);
                                }
                                assert(digits == whole * q * 10) by (nonlinear_arith)
                                    requires
                                        digits * p == whole * (p * (10 * q)),
                                        p > 0,
                                ;
                                assert(false);
                            }
                        }
                        return Err(DecimalError::Unrepresentable);
                    }
                    let ghost before = digits;
                    digits = digits / 10;
                    places -= 1;
                    proof {
                        let stripped = (self.scale + other.scale - places) as nat;
                        let p = pow10((stripped - 1) as nat);
                        assert(pow10(stripped) == 10 * p);
                        assert(digits * (10 * p) == before * p) by (nonlinear_arith)
                            requires
                                digits * 10 == before,
                        ;
                    }
                }
                proof {
                    let stripped = (self.scale + other.scale - places) as nat;
                    if excess > 0 {
                        lemma_pow10_positive(stripped);
                        assert(product as int % pow10(stripped) == 0) by {
                            vstd::arithmetic::div_mod::lemma_mod_multiples_basic(
                                digits as int,
                                pow10(stripped),
                            );
                        }
                    }
                    lemma_product_units(self, other, digits as int, places as nat);
                }
                let scaled = Self::trimmed(digits, places);
                proof {
                    use_type_invariant(&scaled);
                    lemma_decimal_of_own_units(scaled);
                    lemma_unit_value();
                    lemma_quotient_is_exact(
                        scaled.units(),
                        unit(),
                        self.units() * other.units(),
                    );
                }
                Ok(scaled)
            },
            None => Err(DecimalError::Unrepresentable),
        }
    }

    /// Appending `steps` zeros to the dividend's digits, within range, makes the division come
    /// out even, and the quotient is a decimal.
    pub open spec fn divides_after(self, divisor: Self, steps: nat) -> bool {
        let dividend = magnitude(self.digits()) * pow10(steps);
        let quotient = dividend / magnitude(divisor.digits());
        &&& dividend <= i128::MAX
        &&& dividend % magnitude(divisor.digits()) == 0
        &&& if steps + self.places() >= divisor.places() {
            steps + self.places() - divisor.places() <= MAX_DECIMAL_SCALE
        } else {
            quotient * pow10((divisor.places() - self.places() - steps) as nat) <= i128::MAX
        }
    }

    /// The exact quotient, where the division terminates within range.
    pub fn checked_div_exact(self, divisor: Self) -> (result: Result<Self, DecimalError>)
        ensures
            result is Ok <==> divisor.units() != 0 && exists|steps: nat|
                self.divides_after(divisor, steps),
            result is Err ==> result->Err_0 == if divisor.units() == 0 {
                DecimalError::DivisionByZero
            } else {
                DecimalError::Unrepresentable
            },
            result is Ok ==> result->Ok_0.units() * divisor.units() == self.units() * unit(),
            result.ok() == self.over(divisor),
    {
        proof {
            use_type_invariant(&self);
            use_type_invariant(&divisor);
            lemma_units_sign(divisor);
        }
        if divisor.mantissa == 0 {
            return Err(DecimalError::DivisionByZero);
        }
        let limit: u128 = i128::MAX as u128;
        let numerator: u128 = self.magnitude();
        let denominator: u128 = divisor.magnitude();
        let mut dividend: u128 = numerator;
        let mut steps: u32 = 0;
        if dividend > limit {
            proof {
                assert forall|k: nat| !self.divides_after(divisor, k) by {
                    lemma_pow10_monotone(0, k);
                    assert(numerator <= numerator * pow10(k)) by (nonlinear_arith)
                        requires
                            pow10(k) >= 1,
                            numerator >= 0,
                    ;
                }
            }
            return Err(DecimalError::Unrepresentable);
        }
        while dividend % denominator != 0
            invariant
                limit == i128::MAX,
                denominator > 0,
                divisor.units() != 0,
                steps <= 38,
                denominator == magnitude(divisor.digits()),
                numerator == magnitude(self.digits()),
                dividend <= limit,
                dividend == numerator * pow10(steps as nat),
                forall|k: nat| k < steps ==> (#[trigger] (numerator * pow10(k))) % (denominator as int)
                    != 0,
            decreases limit - dividend,
        {
            if dividend > limit / 10 {
                proof {
                    assert forall|k: nat| !self.divides_after(divisor, k) by {
                        if k < steps {
                            assert((numerator * pow10(k)) % (denominator as int) != 0);
                        } else if k > steps {
                            lemma_pow10_monotone((steps + 1) as nat, k);
                            assert(numerator * pow10(k) >= 10 * dividend) by (nonlinear_arith)
                                requires
                                    pow10(k) >= 10 * pow10(steps as nat),
                                    dividend == numerator * pow10(steps as nat),
                                    numerator >= 0,
                            ;
                        }
                    }
                }
                return Err(DecimalError::Unrepresentable);
            }
            proof {
                assert(dividend > 0) by {
                    if dividend == 0 {
                        assert(0int % (denominator as int) == 0) by (nonlinear_arith)
                            requires
                                denominator > 0,
                        ;
                    }
                }
                assert(numerator * (10 * pow10(steps as nat)) == 10 * (numerator * pow10(
                    steps as nat,
                ))) by (nonlinear_arith);
                assert(steps < 38) by {
                    if steps >= 38 {
                        lemma_unit_value();
                        assert(steps == 38);
                        assert(numerator >= 1) by (nonlinear_arith)
                            requires
                                dividend == numerator * pow10(steps as nat),
                                dividend > 0,
                                numerator >= 0,
                        ;
                        assert(dividend >= pow10(38)) by (nonlinear_arith)
                            requires
                                dividend == numerator * pow10(38),
                                numerator >= 1,
                                pow10(38) > 0,
                        ;
                    }
                }
            }
            dividend = dividend * 10;
            steps += 1;
        }
        let quotient: u128 = dividend / denominator;
        proof {
            lemma_divided(dividend as int, denominator as int);
            assert forall|k: nat| self.divides_after(divisor, k) implies k >= steps by {
                if k < steps {
                    assert((numerator * pow10(k)) % (denominator as int) != 0);
                }
            }
        }
        let negative: bool = (self.mantissa < 0) != (divisor.mantissa < 0);
        if steps + self.scale >= divisor.scale {
            let scale: u32 = steps + self.scale - divisor.scale;
            if scale > MAX_DECIMAL_SCALE {
                return Err(DecimalError::Unrepresentable);
            }
            let digits: i128 = if negative {
                -(quotient as i128)
            } else {
                quotient as i128
            };
            proof {
                assert(self.divides_after(divisor, steps as nat));
                lemma_quotient_units(
                    self,
                    divisor,
                    steps as nat,
                    quotient as int,
                    digits as int,
                    scale as nat,
                    0,
                );
            }
            let whole = Self::trimmed(digits, scale);
            proof {
                use_type_invariant(&whole);
                lemma_decimal_of_own_units(whole);
                lemma_quotient_is_exact(whole.units(), divisor.units(), self.units() * unit());
            }
            return Ok(whole);
        }
        let missing: u32 = divisor.scale - self.scale - steps;
        let factor: u128 = power_of_ten(missing) as u128;
        let scaled: u128 = match quotient.checked_mul(factor) {
            Some(scaled) if scaled <= limit => scaled,
            _ => {
                proof {
                    assert forall|k: nat| !self.divides_after(divisor, k) by {
                        if self.divides_after(divisor, k) {
                            lemma_longer_division(
                                numerator as int,
                                denominator as int,
                                steps as nat,
                                k,
                                (divisor.scale - self.scale) as nat,
                            );
                        }
                    }
                }
                return Err(DecimalError::Unrepresentable);
            },
        };
        let digits: i128 = if negative {
            -(scaled as i128)
        } else {
            scaled as i128
        };
        proof {
            assert(self.divides_after(divisor, steps as nat));
            lemma_quotient_units(
                self,
                divisor,
                steps as nat,
                quotient as int,
                digits as int,
                0,
                missing as nat,
            );
        }
        let whole = Self::trimmed(digits, 0);
        proof {
            use_type_invariant(&whole);
            lemma_decimal_of_own_units(whole);
            lemma_quotient_is_exact(whole.units(), divisor.units(), self.units() * unit());
        }
        Ok(whole)
    }

    /// The digits without their sign.
    fn magnitude(&self) -> (size: u128)
        ensures
            size == magnitude(self.digits()),
    {
        if self.mantissa >= 0 {
            self.mantissa as u128
        } else {
            (-(self.mantissa + 1)) as u128 + 1
        }
    }

    /// Whether the value is strictly less than the other.
    pub fn less_than(&self, other: &Self) -> (answer: bool)
        ensures
            answer == (self.units() < other.units()),
    {
        proof {
            use_type_invariant(self);
            use_type_invariant(other);
            lemma_units_sign(*self);
            lemma_units_sign(*other);
        }
        if self.mantissa < 0 {
            if other.mantissa >= 0 {
                return true;
            }
            let (own_whole, own_rest) = self.magnitude_parts();
            let (other_whole, other_rest) = other.magnitude_parts();
            proof {
                lemma_parts_order(
                    own_whole as int,
                    own_rest as int,
                    other_whole as int,
                    other_rest as int,
                );
                lemma_parts_order(
                    other_whole as int,
                    other_rest as int,
                    own_whole as int,
                    own_rest as int,
                );
            }
            return other_whole < own_whole || (other_whole == own_whole && other_rest < own_rest);
        }
        if other.mantissa < 0 {
            return false;
        }
        let (own_whole, own_rest) = self.magnitude_parts();
        let (other_whole, other_rest) = other.magnitude_parts();
        proof {
            lemma_parts_order(
                own_whole as int,
                own_rest as int,
                other_whole as int,
                other_rest as int,
            );
        }
        own_whole < other_whole || (own_whole == other_whole && own_rest < other_rest)
    }

    /// Whether the two values are equal.
    pub fn equals(&self, other: &Self) -> (answer: bool)
        ensures
            answer == (self.units() == other.units()),
    {
        !self.less_than(other) && !other.less_than(self)
    }

    /// Whole part of the magnitude, and the rest counted in units of `10^-38`.
    fn magnitude_parts(&self) -> (parts: (u128, u128))
        ensures
            0 <= parts.1 < unit(),
            parts.0 * unit() + parts.1 == if self.digits() < 0 {
                -self.units()
            } else {
                self.units()
            },
    {
        proof {
            use_type_invariant(self);
        }
        let magnitude: u128 = self.magnitude();
        let divisor: u128 = power_of_ten(self.scale) as u128;
        let factor: u128 = power_of_ten(MAX_DECIMAL_SCALE - self.scale) as u128;
        proof {
            lemma_pow10_positive(self.scale as nat);
            lemma_pow10_positive((MAX_DECIMAL_SCALE - self.scale) as nat);
        }
        let whole: u128 = magnitude / divisor;
        let rest: u128 = magnitude % divisor;
        proof {
            lemma_pow10_add(self.scale as nat, (MAX_DECIMAL_SCALE - self.scale) as nat);
            lemma_pow10_bound(MAX_DECIMAL_SCALE as nat);
            assert(rest * factor < divisor * factor) by (nonlinear_arith)
                requires
                    rest < divisor,
                    factor > 0,
            ;
            assert(rest * factor >= 0) by (nonlinear_arith)
                requires
                    rest >= 0,
                    factor > 0,
            ;
            vstd::arithmetic::div_mod::lemma_fundamental_div_mod(magnitude as int, divisor as int);
            assert(whole * (divisor * factor) + rest * factor == magnitude * factor)
                by (nonlinear_arith)
                requires
                    magnitude == divisor * whole + rest,
            ;
            if self.mantissa < 0 {
                assert(magnitude * factor == -(self.mantissa * factor)) by (nonlinear_arith)
                    requires
                        magnitude == -(self.mantissa as int),
                ;
            }
        }
        (whole, rest * factor)
    }
}

/// Ten to the power of `exponent`.
fn power_of_ten(exponent: u32) -> (power: i128)
    requires
        exponent <= MAX_DECIMAL_SCALE,
    ensures
        power == pow10(exponent as nat),
        power > 0,
{
    let mut power: i128 = 1;
    let mut done: u32 = 0;
    while done < exponent
        invariant
            done <= exponent <= MAX_DECIMAL_SCALE,
            power == pow10(done as nat),
            power > 0,
        decreases exponent - done,
    {
        proof {
            lemma_pow10_bound((done + 1) as nat);
        }
        power = power * 10;
        done += 1;
    }
    power
}

pub proof fn lemma_pow10_positive(exponent: nat)
    ensures
        pow10(exponent) > 0,
    decreases exponent,
{
    if exponent > 0 {
        lemma_pow10_positive((exponent - 1) as nat);
    }
}

pub proof fn lemma_pow10_add(a: nat, b: nat)
    ensures
        pow10(a + b) == pow10(a) * pow10(b),
    decreases a,
{
    if a > 0 {
        lemma_pow10_add((a - 1) as nat, b);
        let p = pow10((a - 1) as nat);
        let q = pow10(b);
        assert(10 * (p * q) == (10 * p) * q) by (nonlinear_arith);
        assert((a - 1) as nat + b == (a + b - 1) as nat);
    }
}

proof fn lemma_unit_value()
    ensures
        pow10(38) == 100_000_000_000_000_000_000_000_000_000_000_000_000,
{
    assert(pow10(19) == 10_000_000_000_000_000_000) by {
        reveal_with_fuel(pow10, 20);
    }
    lemma_pow10_add(19, 19);
}

proof fn lemma_pow10_bound(exponent: nat)
    requires
        exponent <= MAX_DECIMAL_SCALE,
    ensures
        0 < pow10(exponent) <= 100_000_000_000_000_000_000_000_000_000_000_000_000,
{
    lemma_pow10_add(exponent, (MAX_DECIMAL_SCALE - exponent) as nat);
    lemma_pow10_positive(exponent);
    lemma_pow10_positive((MAX_DECIMAL_SCALE - exponent) as nat);
    lemma_unit_value();
    let p = pow10(exponent);
    let q = pow10((MAX_DECIMAL_SCALE - exponent) as nat);
    assert(p <= p * q) by (nonlinear_arith)
        requires
            p > 0,
            q > 0,
    ;
}

proof fn lemma_pow10_monotone(a: nat, b: nat)
    requires
        a <= b,
    ensures
        1 <= pow10(a) <= pow10(b),
    decreases b,
{
    lemma_pow10_positive(a);
    if a < b {
        lemma_pow10_monotone(a, (b - 1) as nat);
    }
}

proof fn lemma_divided(dividend: int, divisor: int)
    requires
        dividend >= 0,
        divisor > 0,
        dividend % divisor == 0,
    ensures
        (dividend / divisor) * divisor == dividend,
        0 <= dividend / divisor <= dividend,
{
    vstd::arithmetic::div_mod::lemma_fundamental_div_mod(dividend, divisor);
    let q = dividend / divisor;
    assert(divisor * q == q * divisor) by (nonlinear_arith);
    assert(q >= 0 && q <= dividend) by (nonlinear_arith)
        requires
            q * divisor == dividend,
            divisor > 0,
            dividend >= 0,
    ;
}

/// Appending more zeros than the division needs does not bring the quotient into range.
proof fn lemma_longer_division(n: int, d: int, shorter: nat, longer: nat, missing: nat)
    requires
        n >= 0,
        d > 0,
        shorter <= longer,
        shorter < missing,
        (n * pow10(shorter)) % d == 0,
        (n * pow10(longer)) % d == 0,
        n * pow10(longer) <= i128::MAX,
        longer < missing ==> ((n * pow10(longer)) / d) * pow10((missing - longer) as nat)
            <= i128::MAX,
    ensures
        ((n * pow10(shorter)) / d) * pow10((missing - shorter) as nat) <= i128::MAX,
{
    let q = (n * pow10(shorter)) / d;
    let r = (n * pow10(longer)) / d;
    let step = pow10((longer - shorter) as nat);
    lemma_pow10_positive(shorter);
    lemma_pow10_positive(longer);
    assert(n * pow10(shorter) >= 0 && n * pow10(longer) >= 0) by (nonlinear_arith)
        requires
            n >= 0,
            pow10(shorter) > 0,
            pow10(longer) > 0,
    ;
    lemma_divided(n * pow10(shorter), d);
    lemma_divided(n * pow10(longer), d);
    lemma_pow10_add(shorter, (longer - shorter) as nat);
    assert(shorter + (longer - shorter) as nat == longer);
    assert(r == q * step) by (nonlinear_arith)
        requires
            q * d == n * pow10(shorter),
            r * d == n * pow10(longer),
            pow10(longer) == pow10(shorter) * step,
            d > 0,
    ;
    if longer < missing {
        lemma_pow10_add((longer - shorter) as nat, (missing - longer) as nat);
        assert((longer - shorter) as nat + (missing - longer) as nat == (missing - shorter) as nat);
        assert((q * step) * pow10((missing - longer) as nat) == q * (step * pow10(
            (missing - longer) as nat,
        ))) by (nonlinear_arith);
    } else {
        lemma_pow10_monotone((missing - shorter) as nat, (longer - shorter) as nat);
        let small = pow10((missing - shorter) as nat);
        assert(q * small <= q * step) by (nonlinear_arith)
            requires
                q >= 0,
                small <= step,
        ;
    }
}

proof fn lemma_quotient_units(
    a: FixedDecimal,
    b: FixedDecimal,
    steps: nat,
    quotient: int,
    digits: int,
    scale: nat,
    missing: nat,
)
    requires
        a.places() <= MAX_DECIMAL_SCALE,
        b.places() <= MAX_DECIMAL_SCALE,
        scale <= MAX_DECIMAL_SCALE,
        b.digits() != 0,
        quotient * magnitude(b.digits()) == magnitude(a.digits()) * pow10(steps),
        scale - missing == steps + a.places() - b.places(),
        scale == 0 || missing == 0,
        digits == if (a.digits() < 0) != (b.digits() < 0) {
            -(quotient * pow10(missing))
        } else {
            quotient * pow10(missing)
        },
    ensures
        (digits * pow10((MAX_DECIMAL_SCALE - scale) as nat)) * b.units() == a.units() * unit(),
{
    let pa = pow10((MAX_DECIMAL_SCALE - a.places()) as nat);
    let pb = pow10((MAX_DECIMAL_SCALE - b.places()) as nat);
    let ps = pow10((MAX_DECIMAL_SCALE - scale) as nat);
    let pm = pow10(missing);
    let pk = pow10(steps);
    let m = a.digits();
    let n = b.digits();
    lemma_pow10_add(missing, (MAX_DECIMAL_SCALE - scale) as nat);
    lemma_pow10_add(
        (missing + (MAX_DECIMAL_SCALE - scale)) as nat,
        (MAX_DECIMAL_SCALE - b.places()) as nat,
    );
    lemma_pow10_add(steps, (missing + (MAX_DECIMAL_SCALE - scale)) as nat);
    lemma_pow10_add(
        (steps + missing + (MAX_DECIMAL_SCALE - scale)) as nat,
        (MAX_DECIMAL_SCALE - b.places()) as nat,
    );
    lemma_pow10_add((MAX_DECIMAL_SCALE - a.places()) as nat, MAX_DECIMAL_SCALE as nat);
    let total = (steps + missing + (MAX_DECIMAL_SCALE - scale) + (MAX_DECIMAL_SCALE
        - b.places())) as nat;
    assert(total == ((MAX_DECIMAL_SCALE - a.places()) as nat + MAX_DECIMAL_SCALE as nat) as nat);
    assert(missing + (MAX_DECIMAL_SCALE - scale) as nat == (missing + (MAX_DECIMAL_SCALE
        - scale)) as nat);
    assert(steps + (missing + (MAX_DECIMAL_SCALE - scale)) as nat == (steps + missing + (
    MAX_DECIMAL_SCALE - scale)) as nat);
    assert((steps + missing + (MAX_DECIMAL_SCALE - scale)) as nat + (MAX_DECIMAL_SCALE
        - b.places()) as nat == total);
    assert((pk * (pm * ps)) * pb == pa * unit());
    let sign: int = if (m < 0) != (n < 0) {
        -1
    } else {
        1
    };
    assert(digits == sign * (quotient * pm)) by (nonlinear_arith)
        requires
            digits == (if sign == -1 {
                -(quotient * pm)
            } else {
                quotient * pm
            }),
            sign == 1 || sign == -1,
    ;
    assert(sign * (quotient * n) == m * pk) by (nonlinear_arith)
        requires
            quotient * magnitude(n) == magnitude(m) * pk,
            sign == (if (m < 0) != (n < 0) {
                -1int
            } else {
                1int
            }),
    ;
    let w = pm * ps;
    let s = sign * quotient;
    assert(digits * ps == s * w) by (nonlinear_arith)
        requires
            digits == sign * (quotient * pm),
            w == pm * ps,
            s == sign * quotient,
    ;
    assert(sign * (quotient * n) == s * n) by (nonlinear_arith)
        requires
            s == sign * quotient,
    ;
    assert((s * w) * (n * pb) == (s * n) * (w * pb)) by (nonlinear_arith);
    assert((m * pk) * ((pm * ps) * pb) == m * ((pk * (pm * ps)) * pb)) by (nonlinear_arith);
    assert(m * (pa * unit()) == (m * pa) * unit()) by (nonlinear_arith);
}

proof fn lemma_quotient_is_exact(quotient: int, divisor: int, dividend: int)
    requires
        divisor != 0,
        quotient * divisor == dividend,
    ensures
        dividend / divisor == quotient,
{
    if divisor > 0 {
        vstd::arithmetic::div_mod::lemma_div_multiples_vanish(quotient, divisor);
        assert(divisor * quotient == quotient * divisor) by (nonlinear_arith);
    } else {
        assert(dividend / divisor == quotient) by (nonlinear_arith)
            requires
                divisor < 0,
                quotient * divisor == dividend,
        ;
    }
}

/// A canonical decimal is the decimal of its own units.
proof fn lemma_decimal_of_own_units(value: FixedDecimal)
    requires
        value.canonical(),
    ensures
        decimal_of_units(value.units()) == value,
{
    lemma_zeros_dropped(
        value.mantissa as int,
        value.scale as nat,
        (MAX_DECIMAL_SCALE - value.scale) as nat,
    );
}

proof fn lemma_zeros_dropped(digits: int, scale: nat, zeros: nat)
    requires
        scale > 0 ==> digits % 10 != 0,
    ensures
        dropped_zeros(digits * pow10(zeros), scale + zeros) == (digits, scale),
    decreases zeros,
{
    if zeros > 0 {
        let p = pow10((zeros - 1) as nat);
        assert(digits * (10 * p) == 10 * (digits * p)) by (nonlinear_arith);
        lemma_zeros_dropped(digits, scale, (zeros - 1) as nat);
        assert((scale + zeros - 1) as nat == scale + (zeros - 1) as nat);
    } else {
        assert(digits * 1 == digits);
    }
}

/// The decimal of a number of units that some digits and scale denote counts that many units.
proof fn lemma_units_of_decimal(digits: int, scale: nat)
    requires
        fits_i128(digits),
        scale <= MAX_DECIMAL_SCALE,
    ensures
        decimal_of_units(digits * pow10((MAX_DECIMAL_SCALE - scale) as nat)).units() == digits
            * pow10((MAX_DECIMAL_SCALE - scale) as nat),
{
    let units = digits * pow10((MAX_DECIMAL_SCALE - scale) as nat);
    lemma_dropped_from(digits, scale, (MAX_DECIMAL_SCALE - scale) as nat);
    lemma_dropped_keeps(digits, scale);
    let parts = dropped_zeros(units, MAX_DECIMAL_SCALE as nat);
    assert(scale + (MAX_DECIMAL_SCALE - scale) as nat == MAX_DECIMAL_SCALE as nat);
    assert(parts == dropped_zeros(digits, scale));
    assert(parts.0 * pow10((scale - parts.1) as nat) == digits);
    lemma_pow10_positive((scale - parts.1) as nat);
    assert(fits_i128(parts.0)) by (nonlinear_arith)
        requires
            parts.0 * pow10((scale - parts.1) as nat) == digits,
            pow10((scale - parts.1) as nat) >= 1,
            fits_i128(digits),
    ;
    lemma_pow10_add((scale - parts.1) as nat, (MAX_DECIMAL_SCALE - scale) as nat);
    let q = pow10((scale - parts.1) as nat);
    let r = pow10((MAX_DECIMAL_SCALE - scale) as nat);
    assert(parts.0 * (q * r) == (parts.0 * q) * r) by (nonlinear_arith);
    assert((scale - parts.1) as nat + (MAX_DECIMAL_SCALE - scale) as nat == (MAX_DECIMAL_SCALE
        - parts.1) as nat);
}

/// Zeros behind the digits are dropped first.
proof fn lemma_dropped_from(digits: int, scale: nat, zeros: nat)
    ensures
        dropped_zeros(digits * pow10(zeros), scale + zeros) == dropped_zeros(digits, scale),
    decreases zeros,
{
    if zeros > 0 {
        let p = pow10((zeros - 1) as nat);
        assert(digits * (10 * p) == 10 * (digits * p)) by (nonlinear_arith);
        lemma_dropped_from(digits, scale, (zeros - 1) as nat);
        assert((scale + zeros - 1) as nat == scale + (zeros - 1) as nat);
    } else {
        assert(digits * 1 == digits);
    }
}

proof fn lemma_dropped_keeps(digits: int, scale: nat)
    ensures
        dropped_zeros(digits, scale).1 <= scale,
        dropped_zeros(digits, scale).0 * pow10((scale - dropped_zeros(digits, scale).1) as nat)
            == digits,
    decreases scale,
{
    if scale > 0 && digits % 10 == 0 {
        let rest = digits / 10;
        lemma_dropped_keeps(rest, (scale - 1) as nat);
        let parts = dropped_zeros(digits, scale);
        let p = pow10((scale - 1 - parts.1) as nat);
        assert(pow10((scale - parts.1) as nat) == 10 * p);
        assert(parts.0 * (10 * p) == 10 * (parts.0 * p)) by (nonlinear_arith);
    } else {
        assert(digits * 1 == digits);
    }
}

/// A sum counts the units of its terms.
pub proof fn lemma_plus_units(a: FixedDecimal, b: FixedDecimal)
    requires
        a.places() <= MAX_DECIMAL_SCALE,
        b.places() <= MAX_DECIMAL_SCALE,
        a.plus(b) is Some,
    ensures
        a.plus(b)->Some_0.units() == a.units() + b.units(),
{
    let scale = if a.places() < b.places() {
        b.places()
    } else {
        a.places()
    };
    let left = a.digits() * pow10((scale - a.places()) as nat);
    let right = b.digits() * pow10((scale - b.places()) as nat);
    lemma_scaled_units(a, scale);
    lemma_scaled_units(b, scale);
    lemma_units_of_decimal(left + right, scale);
    let p = pow10((MAX_DECIMAL_SCALE - scale) as nat);
    assert((left + right) * p == left * p + right * p) by (nonlinear_arith);
}

/// A difference counts the units of its terms.
pub proof fn lemma_minus_units(a: FixedDecimal, b: FixedDecimal)
    requires
        a.places() <= MAX_DECIMAL_SCALE,
        b.places() <= MAX_DECIMAL_SCALE,
        a.minus(b) is Some,
    ensures
        a.minus(b)->Some_0.units() == a.units() - b.units(),
{
    let scale = if a.places() < b.places() {
        b.places()
    } else {
        a.places()
    };
    let left = a.digits() * pow10((scale - a.places()) as nat);
    let right = b.digits() * pow10((scale - b.places()) as nat);
    lemma_scaled_units(a, scale);
    lemma_scaled_units(b, scale);
    lemma_units_of_decimal(left - right, scale);
    let p = pow10((MAX_DECIMAL_SCALE - scale) as nat);
    assert((left - right) * p == left * p - right * p) by (nonlinear_arith);
}

/// A decimal of units has no more fractional digits than there are.
/// The decimal with given digits and a given number of places.
pub closed spec fn decimal_of_parts(digits: int, places: nat) -> FixedDecimal {
    FixedDecimal { mantissa: digits as i128, scale: places as u32 }
}

/// A decimal is made of its digits and its places.
pub proof fn lemma_decimal_of_own_parts(value: FixedDecimal)
    ensures
        decimal_of_parts(value.digits(), value.places()) == value,
{
}

pub proof fn lemma_zero_units()
    ensures
        decimal_of_units(0).units() == 0,
        decimal_of_units(0).places() <= MAX_DECIMAL_SCALE,
{
    lemma_decimal_of_own_units(FixedDecimal { mantissa: 0, scale: 0 });
}

/// A decimal has at most the greatest scale.
pub proof fn lemma_decimal_of_units_places(units: int)
    ensures
        decimal_of_units(units).places() <= MAX_DECIMAL_SCALE,
{
    lemma_dropped_keeps(units, MAX_DECIMAL_SCALE as nat);
}

/// A product counts the units of its factors, over the units of one.
pub proof fn lemma_times_units(a: FixedDecimal, b: FixedDecimal)
    requires
        a.places() <= MAX_DECIMAL_SCALE,
        b.places() <= MAX_DECIMAL_SCALE,
        a.times(b) is Some,
    ensures
        a.times(b)->Some_0.units() * unit() == a.units() * b.units(),
{
    let digits = a.digits() * b.digits();
    let scale = a.places() + b.places();
    lemma_unit_value();
    if scale <= MAX_DECIMAL_SCALE {
        assert(digits * pow10(0) == digits);
        lemma_product_units(a, b, digits, scale);
        lemma_units_of_decimal(digits, scale);
        lemma_quotient_is_exact(
            digits * pow10((MAX_DECIMAL_SCALE - scale) as nat),
            unit(),
            a.units() * b.units(),
        );
    } else {
        let excess = (scale - MAX_DECIMAL_SCALE) as nat;
        let rest = digits / pow10(excess);
        lemma_pow10_positive(excess);
        vstd::arithmetic::div_mod::lemma_fundamental_div_mod(digits, pow10(excess));
        assert(rest * pow10(excess) == digits) by (nonlinear_arith)
            requires
                digits == pow10(excess) * rest,
        ;
        assert(fits_i128(rest)) by (nonlinear_arith)
            requires
                rest * pow10(excess) == digits,
                pow10(excess) >= 1,
                fits_i128(digits),
        ;
        lemma_product_units(a, b, rest, MAX_DECIMAL_SCALE as nat);
        lemma_units_of_decimal(rest, MAX_DECIMAL_SCALE as nat);
        lemma_quotient_is_exact(rest * pow10(0), unit(), a.units() * b.units());
    }
}

proof fn lemma_scaled_units(value: FixedDecimal, scale: nat)
    requires
        value.places() <= scale <= MAX_DECIMAL_SCALE,
    ensures
        value.digits() * pow10((scale - value.places()) as nat) * pow10(
            (MAX_DECIMAL_SCALE - scale) as nat,
        ) == value.units(),
{
    lemma_pow10_add((scale - value.places()) as nat, (MAX_DECIMAL_SCALE - scale) as nat);
    let a = pow10((scale - value.places()) as nat);
    let b = pow10((MAX_DECIMAL_SCALE - scale) as nat);
    let m = value.digits();
    assert(m * (a * b) == (m * a) * b) by (nonlinear_arith);
    assert((scale - value.places()) as nat + (MAX_DECIMAL_SCALE - scale) as nat == (
    MAX_DECIMAL_SCALE - value.places()) as nat);
}

proof fn lemma_units_sign(value: FixedDecimal)
    requires
        value.places() <= MAX_DECIMAL_SCALE,
    ensures
        value.units() < 0 <==> value.digits() < 0,
        value.units() > 0 <==> value.digits() > 0,
{
    let p = pow10((MAX_DECIMAL_SCALE - value.places()) as nat);
    let m = value.digits();
    lemma_pow10_positive((MAX_DECIMAL_SCALE - value.places()) as nat);
    assert(m * p < 0 <==> m < 0) by (nonlinear_arith)
        requires
            p > 0,
    ;
    assert(m * p > 0 <==> m > 0) by (nonlinear_arith)
        requires
            p > 0,
    ;
}

proof fn lemma_parts_order(a: int, x: int, b: int, y: int)
    requires
        0 <= x < unit(),
        0 <= y < unit(),
    ensures
        a * unit() + x < b * unit() + y <==> (a < b || (a == b && x < y)),
{
    let u = unit();
    if a < b {
        assert(a * u + u <= b * u) by (nonlinear_arith)
            requires
                a + 1 <= b,
                u > 0,
        ;
    } else if b < a {
        assert(b * u + u <= a * u) by (nonlinear_arith)
            requires
                b + 1 <= a,
                u > 0,
        ;
    }
}

proof fn lemma_product_units(a: FixedDecimal, b: FixedDecimal, digits: int, places: nat)
    requires
        a.places() <= MAX_DECIMAL_SCALE,
        b.places() <= MAX_DECIMAL_SCALE,
        places <= MAX_DECIMAL_SCALE,
        places <= a.places() + b.places(),
        digits * pow10((a.places() + b.places() - places) as nat) == a.digits() * b.digits(),
    ensures
        (digits * pow10((MAX_DECIMAL_SCALE - places) as nat)) * unit() == a.units() * b.units(),
{
    let pa = pow10((MAX_DECIMAL_SCALE - a.places()) as nat);
    let pb = pow10((MAX_DECIMAL_SCALE - b.places()) as nat);
    let stripped = pow10((a.places() + b.places() - places) as nat);
    let head = pow10((MAX_DECIMAL_SCALE - places) as nat);
    let m = a.digits();
    let n = b.digits();
    lemma_pow10_add(
        (MAX_DECIMAL_SCALE - a.places()) as nat,
        (MAX_DECIMAL_SCALE - b.places()) as nat,
    );
    lemma_pow10_add(
        (2 * MAX_DECIMAL_SCALE - a.places() - b.places()) as nat,
        (a.places() + b.places() - places) as nat,
    );
    lemma_pow10_add((MAX_DECIMAL_SCALE - places) as nat, MAX_DECIMAL_SCALE as nat);
    assert((MAX_DECIMAL_SCALE - places) as nat + MAX_DECIMAL_SCALE as nat == (2 * MAX_DECIMAL_SCALE
        - a.places() - b.places()) as nat + (a.places() + b.places() - places) as nat);
    assert(head * unit() == (pa * pb) * stripped);
    assert((digits * head) * unit() == (m * pa) * (n * pb)) by (nonlinear_arith)
        requires
            head * unit() == (pa * pb) * stripped,
            digits * stripped == m * n,
    ;
}

/// The value of a run of ASCII digits.
pub open spec fn digit_value(digits: Seq<u8>) -> nat
    decreases digits.len(),
{
    if digits.len() == 0 {
        0
    } else {
        (10 * digit_value(digits.drop_last()) + (digits.last() - 48)) as nat
    }
}

pub open spec fn all_digits(bytes: Seq<u8>) -> bool {
    forall|i: int| 0 <= i < bytes.len() ==> 48 <= #[trigger] bytes[i] <= 57
}

/// The ASCII digits of a natural number, without leading zeros.
pub open spec fn digits_ascii(value: nat) -> Seq<u8>
    decreases value,
{
    if value < 10 {
        seq![(48 + value) as u8]
    } else {
        digits_ascii(value / 10).push((48 + value % 10) as u8)
    }
}

/// The last `width` ASCII digits of a natural number.
pub open spec fn padded_ascii(value: nat, width: nat) -> Seq<u8>
    decreases width,
{
    if width == 0 {
        Seq::empty()
    } else {
        padded_ascii(value / 10, (width - 1) as nat).push((48 + value % 10) as u8)
    }
}

/// Appends the ASCII digits of an integer.
pub(crate) fn put_digits(buffer: &mut Vec<u8>, value: u128)
    ensures
        final(buffer)@ == old(buffer)@ + digits_ascii(value as nat),
    decreases value,
{
    if value >= 10 {
        put_digits(buffer, value / 10);
    }
    buffer.push((48 + value % 10) as u8);
    proof {
        assert(buffer@ =~= old(buffer)@ + digits_ascii(value as nat));
    }
}

fn put_padded(buffer: &mut Vec<u8>, value: u128, width: u32)
    ensures
        final(buffer)@ == old(buffer)@ + padded_ascii(value as nat, width as nat),
    decreases width,
{
    if width > 0 {
        put_padded(buffer, value / 10, width - 1);
        buffer.push((48 + value % 10) as u8);
    }
    proof {
        assert(buffer@ =~= old(buffer)@ + padded_ascii(value as nat, width as nat));
    }
}

/// The part of a text behind its minus sign, if it has one.
pub open spec fn unsigned_text(text: Seq<u8>) -> Seq<u8> {
    if text.len() > 0 && text[0] == 45 {
        text.skip(1)
    } else {
        text
    }
}

/// `point` splits `body` into its whole digits and, behind a point, its fractional digits.
pub open spec fn splits_at(body: Seq<u8>, point: int) -> bool {
    &&& 0 < point <= body.len()
    &&& all_digits(body.take(point))
    &&& point > 1 ==> body[0] != 48
    &&& point < body.len() ==> {
        &&& body[point] == 46
        &&& all_digits(body.skip(point + 1))
        &&& point + 1 < body.len() <= point + 1 + MAX_DECIMAL_SCALE
        &&& body.last() != 48
    }
}

/// The fractional digits of a body that `point` splits.
pub open spec fn fraction_of(body: Seq<u8>, point: int) -> Seq<u8> {
    if point < body.len() {
        body.skip(point + 1)
    } else {
        Seq::empty()
    }
}

/// The text denotes a decimal: an optional minus sign, whole digits without a leading zero, and
/// optionally a point and fractional digits without a trailing zero; never minus zero.
pub open spec fn denotes_at(text: Seq<u8>, point: int) -> bool {
    let body = unsigned_text(text);
    let number = digit_value(body.take(point) + fraction_of(body, point));
    &&& splits_at(body, point)
    &&& number <= i128::MAX
    &&& body != text ==> number > 0
}

/// The decimal that a canonical text stands for.
pub open spec fn decimal_of_text(text: Seq<u8>) -> FixedDecimal {
    let point = choose|point: int| denotes_at(text, point);
    let body = unsigned_text(text);
    let number = digit_value(body.take(point) + fraction_of(body, point));
    decimal_of_parts(
        if body == text {
            number as int
        } else {
            -number
        },
        fraction_of(body, point).len(),
    )
}

impl FixedDecimal {
    /// The canonical text.
    pub open spec fn ascii(self) -> Seq<u8> {
        let size = magnitude(self.digits());
        let sign: Seq<u8> = if self.digits() < 0 {
            seq![45u8]
        } else {
            Seq::empty()
        };
        let whole = digits_ascii((size / pow10(self.places())) as nat);
        let fraction: Seq<u8> = if self.places() > 0 {
            seq![46u8] + padded_ascii((size % pow10(self.places())) as nat, self.places())
        } else {
            Seq::empty()
        };
        sign + whole + fraction
    }

    /// The canonical text, as ASCII bytes.
    pub fn to_ascii(&self) -> (text: Vec<u8>)
        ensures
            text@ == self.ascii(),
            self.is_canonical(),
    {
        proof {
            use_type_invariant(self);
        }
        let mut text: Vec<u8> = Vec::new();
        let size: u128 = self.magnitude();
        let divisor: u128 = power_of_ten(self.scale) as u128;
        if self.mantissa < 0 {
            text.push(45);
        }
        proof {
            let sign: Seq<u8> = if self.digits() < 0 {
                seq![45u8]
            } else {
                Seq::empty()
            };
            assert(text@ =~= sign);
        }
        put_digits(&mut text, size / divisor);
        let ghost head = text@;
        if self.scale > 0 {
            text.push(46);
            put_padded(&mut text, size % divisor, self.scale);
        }
        proof {
            assert(text@ =~= self.ascii());
        }
        text
    }

    /// Reads a canonical text.
    #[verifier::spinoff_prover]
    #[verifier::rlimit(40)]
    pub fn parse_canonical(text: &[u8]) -> (result: Result<Self, DecimalError>)
        ensures
            result is Ok <==> exists|point: int| denotes_at(text@, point),
            result is Err ==> result->Err_0 == DecimalError::InvalidText,
            forall|point: int| #[trigger]
                denotes_at(text@, point) ==> {
                    let body = unsigned_text(text@);
                    let number = digit_value(body.take(point) + fraction_of(body, point));
                    &&& result is Ok
                    &&& result->Ok_0.places() == fraction_of(body, point).len()
                    &&& result->Ok_0.digits() == if body == text@ {
                        number as int
                    } else {
                        -number
                    }
                },
    {
        let negative: bool = text.len() > 0 && text[0] == 45;
        let start: usize = if negative {
            1
        } else {
            0
        };
        let ghost body = unsigned_text(text@);
        proof {
            assert(body =~= text@.skip(start as int));
            assert(negative ==> body.len() != text@.len());
            assert(!negative ==> body == text@);
        }
        let mut number: u128 = 0;
        let mut at: usize = start;
        let mut point: usize = text.len();
        let ghost mut seen: Seq<u8> = Seq::empty();
        while at < text.len()
            invariant
                start <= at <= text.len(),
                start == if text.len() > 0 && text[0] == 45 {
                    1int
                } else {
                    0
                },
                body == unsigned_text(text@),
                body == text@.skip(start as int),
                point <= text.len(),
                point < text.len() ==> start <= point < at && text@[point as int] == 46,
                all_digits(seen),
                seen == seen_digits(text@, start as int, point as int, at as int),
                number == digit_value(seen),
                number <= i128::MAX,
            decreases text.len() - at,
        {
            let byte: u8 = text[at];
            if byte == 46 && point == text.len() {
                point = at;
                proof {
                    lemma_seen_point(text@, start as int, at as int);
                }
            } else if 48 <= byte && byte <= 57 {
                let digit: u128 = (byte - 48) as u128;
                let ghost longer = seen.push(byte);
                proof {
                    lemma_seen_digit(text@, start as int, point as int, at as int);
                    assert(longer.drop_last() =~= seen);
                    assert(all_digits(longer)) by {
                        assert forall|i: int| 0 <= i < longer.len() implies 48
                            <= #[trigger] longer[i] <= 57 by {
                            if i < seen.len() {
                                assert(longer[i] == seen[i]);
                            }
                        }
                    }
                }
                if number > (i128::MAX as u128 - digit) / 10 {
                    proof {
                        assert(digit_value(longer) > i128::MAX);
                        lemma_text_too_large(text@, start as int, point as int, at + 1, longer);
                    }
                    return Err(DecimalError::InvalidText);
                }
                number = number * 10 + digit;
                proof {
                    seen = longer;
                }
            } else {
                proof {
                    lemma_text_has_stray_byte(text@, start as int, point as int, at as int);
                }
                return Err(DecimalError::InvalidText);
            }
            at += 1;
        }
        let whole: usize = point - start;
        let fraction: usize = if point < text.len() {
            text.len() - point - 1
        } else {
            0
        };
        proof {
            assert(seen =~= body.take(whole as int) + fraction_of(body, whole as int));
            assert forall|p: int| denotes_at(text@, p) implies p == whole by {
                if whole == body.len() {
                    assert forall|k: int| 0 <= k < body.len() implies body[k] != 46 by {
                        assert(seen[k] == body[k]);
                    }
                }
                lemma_split_unique(body, p, whole as int, body.len() as int);
            }
            if 0 < whole {
                assert(all_digits(body.take(whole as int))) by {
                    assert forall|i: int| 0 <= i < whole implies 48 <= #[trigger] body.take(
                        whole as int,
                    )[i] <= 57 by {
                        assert(seen[i] == body.take(whole as int)[i]);
                    }
                }
                assert(all_digits(fraction_of(body, whole as int))) by {
                    let f = fraction_of(body, whole as int);
                    assert forall|i: int| 0 <= i < f.len() implies 48 <= #[trigger] f[i] <= 57 by {
                        assert(seen[whole + i] == f[i]);
                    }
                }
            }
            assert(fraction == fraction_of(body, whole as int).len());
        }
        if whole == 0 || (whole > 1 && text[start] == 48) || (point < text.len() && (fraction == 0
            || fraction > MAX_DECIMAL_SCALE as usize || text[text.len() - 1] == 48)) || (negative
            && number == 0) {
            return Err(DecimalError::InvalidText);
        }
        let digits: i128 = if negative {
            -(number as i128)
        } else {
            number as i128
        };
        proof {
            assert(denotes_at(text@, whole as int));
            if fraction > 0 {
                assert(seen.last() == body.last());
                assert(number as int % 10 == (seen.last() - 48));
                assert(digits as int % 10 != 0);
            }
        }
        Ok(FixedDecimal { mantissa: digits, scale: fraction as u32 })
    }
}

/// The digits of a text from `start` up to `end`, without the point.
spec fn seen_digits(text: Seq<u8>, start: int, point: int, end: int) -> Seq<u8> {
    if point < text.len() {
        text.subrange(start, point) + text.subrange(point + 1, end)
    } else {
        text.subrange(start, end)
    }
}

proof fn lemma_seen_digit(text: Seq<u8>, start: int, point: int, at: int)
    requires
        0 <= start <= at < text.len(),
        point == text.len() || start <= point < at,
    ensures
        seen_digits(text, start, point, at + 1) == seen_digits(text, start, point, at).push(
            text[at],
        ),
{
    assert(seen_digits(text, start, point, at + 1) =~= seen_digits(text, start, point, at).push(
        text[at],
    ));
}

proof fn lemma_seen_point(text: Seq<u8>, start: int, at: int)
    requires
        0 <= start <= at < text.len(),
    ensures
        seen_digits(text, start, at, at + 1) == seen_digits(text, start, text.len() as int, at),
{
    assert(seen_digits(text, start, at, at + 1) =~= seen_digits(
        text,
        start,
        text.len() as int,
        at,
    ));
}

proof fn lemma_text_too_large(text: Seq<u8>, start: int, point: int, end: int, seen: Seq<u8>)
    requires
        start == if text.len() > 0 && text[0] == 45 {
            1int
        } else {
            0
        },
        start < end <= text.len(),
        point == text.len() || (start <= point < end && text[point] == 46),
        all_digits(seen),
        seen == seen_digits(text, start, point, end),
        digit_value(seen) > i128::MAX,
    ensures
        forall|p: int| !denotes_at(text, p),
{
    let body = unsigned_text(text);
    assert(body =~= text.skip(start));
    assert forall|p: int| !denotes_at(text, p) by {
        if denotes_at(text, p) {
            if point == text.len() {
                assert forall|k: int| 0 <= k < end - start implies body[k] != 46 by {
                    assert(seen[k] == body[k]);
                }
            }
            lemma_split_unique(body, p, point - start, end - start);
            let all = body.take(p) + fraction_of(body, p);
            assert(all_digits(all)) by {
                assert forall|i: int| 0 <= i < all.len() implies 48 <= #[trigger] all[i] <= 57 by {
                    if i < p {
                        assert(all[i] == body.take(p)[i]);
                    } else {
                        assert(all[i] == body.skip(p + 1)[i - p]);
                    }
                }
            }
            lemma_digit_value_prefix(all, seen.len() as int);
            assert(all.take(seen.len() as int) =~= seen);
        }
    }
}

proof fn lemma_text_has_stray_byte(text: Seq<u8>, start: int, point: int, at: int)
    requires
        start == if text.len() > 0 && text[0] == 45 {
            1int
        } else {
            0
        },
        start <= at < text.len(),
        point == text.len() || (start <= point < at && text[point] == 46),
        !(48 <= text[at] <= 57),
        text[at] == 46 ==> point < text.len(),
    ensures
        forall|p: int| !denotes_at(text, p),
{
    let body = unsigned_text(text);
    assert(body =~= text.skip(start));
    assert forall|p: int| !denotes_at(text, p) by {
        if denotes_at(text, p) {
            let k = at - start;
            assert(body[k] == text[at]);
            if k < p {
                assert(body.take(p)[k] == text[at]);
            } else if k > p {
                assert(body.skip(p + 1)[k - p - 1] == text[at]);
            } else {
                let q = point - start;
                assert(body[q] == 46);
                assert(body.take(p)[q] == 46);
            }
        }
    }
}

/// Only the first point of a text can split it.
proof fn lemma_split_unique(body: Seq<u8>, split: int, point: int, seen: int)
    requires
        splits_at(body, split),
        0 <= seen <= body.len(),
        0 <= point <= body.len(),
        point < body.len() ==> body[point] == 46,
        point == body.len() ==> forall|k: int| 0 <= k < seen ==> body[k] != 46,
    ensures
        point < body.len() ==> split == point,
        point == body.len() ==> split >= seen,
{
    if point < body.len() {
        if split > point {
            assert(body.take(split)[point] == 46);
        } else if split < point {
            assert(body.skip(split + 1)[point - split - 1] == 46);
        }
    } else if split < seen {
        assert(body[split] == 46);
    }
}

proof fn lemma_digit_value_prefix(digits: Seq<u8>, length: int)
    requires
        0 <= length <= digits.len(),
        all_digits(digits),
    ensures
        digit_value(digits.take(length)) <= digit_value(digits),
    decreases digits.len() - length,
{
    if length < digits.len() {
        let shorter = digits.drop_last();
        assert(shorter.take(length) =~= digits.take(length));
        assert(48 <= digits[digits.len() - 1]);
        lemma_digit_value_prefix(shorter, length);
    } else {
        assert(digits.take(length) =~= digits);
    }
}

impl Ranked for FixedDecimal {
    open spec fn rank(&self) -> Seq<int> {
        seq![self.units()]
    }

    fn precedes(&self, other: &Self) -> (before: bool) {
        proof {
            reveal_with_fuel(rank_precedes, 2);
        }
        self.less_than(other)
    }
}

/// A strictly positive price.
#[derive(Clone, Copy, Debug, PartialEq, Eq, Structural)]
pub struct Price {
    value: FixedDecimal,
}

impl Price {
    #[verifier::type_invariant]
    spec fn positive(self) -> bool {
        self.value.units() > 0
    }

    pub closed spec fn amount(self) -> FixedDecimal {
        self.value
    }

    /// The price of an amount.
    pub closed spec fn of_amount(value: FixedDecimal) -> Price {
        Price { value }
    }

    pub open spec fn units(self) -> int {
        self.amount().units()
    }

    pub fn new(value: FixedDecimal) -> (result: Result<Self, DecimalError>)
        ensures
            result is Ok <==> value.units() > 0,
            result is Ok ==> result->Ok_0.amount() == value,
            result is Ok ==> result->Ok_0 == Price::of_amount(value),
            result is Err ==> result->Err_0 == DecimalError::OutOfDomain,
    {
        if value.is_positive() {
            Ok(Price { value })
        } else {
            Err(DecimalError::OutOfDomain)
        }
    }

    pub fn value(&self) -> (value: FixedDecimal)
        ensures
            value == self.amount(),
            value.units() > 0,
    {
        proof {
            use_type_invariant(self);
        }
        self.value
    }
}

impl Price {
    /// The higher of two prices.
    pub open spec fn higher(self, other: Self) -> Self {
        if self.units() < other.units() {
            other
        } else {
            self
        }
    }

    /// The lower of two prices.
    pub open spec fn lower(self, other: Self) -> Self {
        if other.units() < self.units() {
            other
        } else {
            self
        }
    }

    /// Whether the price is strictly below the other.
    pub fn is_below(&self, other: &Self) -> (answer: bool)
        ensures
            answer == (self.units() < other.units()),
    {
        self.value.less_than(&other.value)
    }

    pub fn max_of(self, other: Self) -> (price: Self)
        ensures
            price == self.higher(other),
    {
        if self.is_below(&other) {
            other
        } else {
            self
        }
    }

    pub fn min_of(self, other: Self) -> (price: Self)
        ensures
            price == self.lower(other),
    {
        if other.is_below(&self) {
            other
        } else {
            self
        }
    }
}

/// A quantity that is never negative.
#[derive(Clone, Copy, Debug, PartialEq, Eq, Structural)]
pub struct Quantity {
    value: FixedDecimal,
}

impl Quantity {
    #[verifier::type_invariant]
    spec fn not_negative(self) -> bool {
        self.value.units() >= 0
    }

    pub closed spec fn amount(self) -> FixedDecimal {
        self.value
    }

    /// The quantity of an amount.
    pub closed spec fn of_amount(value: FixedDecimal) -> Quantity {
        Quantity { value }
    }

    pub open spec fn units(self) -> int {
        self.amount().units()
    }

    pub fn new(value: FixedDecimal) -> (result: Result<Self, DecimalError>)
        ensures
            result is Ok <==> value.units() >= 0,
            result is Ok ==> result->Ok_0.amount() == value,
            result is Ok ==> result->Ok_0 == Quantity::of_amount(value),
            result is Err ==> result->Err_0 == DecimalError::OutOfDomain,
    {
        if value.is_negative() {
            Err(DecimalError::OutOfDomain)
        } else {
            Ok(Quantity { value })
        }
    }

    pub fn value(&self) -> (value: FixedDecimal)
        ensures
            value == self.amount(),
            value.units() >= 0,
    {
        proof {
            use_type_invariant(self);
        }
        self.value
    }
}

/// Reads a canonical text, if it is one.
pub fn parse_decimal(text: &[u8]) -> (value: Option<FixedDecimal>)
    ensures
        value is Some <==> exists|point: int| denotes_at(text@, point),
        value is Some ==> value->Some_0 == decimal_of_text(text@),
{
    match FixedDecimal::parse_canonical(text) {
        Err(_) => None,
        Ok(value) => {
            proof {
                let point = choose|point: int| denotes_at(text@, point);
                assert(denotes_at(text@, point));
                lemma_decimal_of_own_parts(value);
            }
            Some(value)
        },
    }
}

proof fn lemma_digits_shape(value: nat)
    ensures
        all_digits(digits_ascii(value)),
        digits_ascii(value).len() > 0,
        digits_ascii(value).len() > 1 ==> digits_ascii(value)[0] != 48,
        digit_value(digits_ascii(value)) == value,
        value > 0 ==> digits_ascii(value)[0] != 48,
    decreases value,
{
    let text = digits_ascii(value);
    if value >= 10 {
        lemma_digits_shape(value / 10);
        assert(text.drop_last() =~= digits_ascii(value / 10));
        assert(text[0] == digits_ascii(value / 10)[0]);
        assert(value == 10 * (value / 10) + value % 10);
    } else {
        assert(text.drop_last() =~= Seq::empty());
        assert(text.last() == (48 + value) as u8);
        reveal_with_fuel(digit_value, 2);
    }
}

proof fn lemma_padded_shape(value: nat, width: nat)
    requires
        value < pow10(width),
    ensures
        all_digits(padded_ascii(value, width)),
        padded_ascii(value, width).len() == width,
        digit_value(padded_ascii(value, width)) == value,
    decreases width,
{
    let text = padded_ascii(value, width);
    if width > 0 {
        assert(pow10(width) == 10 * pow10((width - 1) as nat));
        lemma_padded_shape(value / 10, (width - 1) as nat);
        assert(text.drop_last() =~= padded_ascii(value / 10, (width - 1) as nat));
        assert(value == 10 * (value / 10) + value % 10);
    }
}

proof fn lemma_digit_value_concat(left: Seq<u8>, right: Seq<u8>)
    requires
        all_digits(left),
        all_digits(right),
    ensures
        digit_value(left + right) == digit_value(left) * pow10(right.len()) + digit_value(right),
    decreases right.len(),
{
    if right.len() == 0 {
        assert(left + right =~= left);
    } else {
        let shorter = right.drop_last();
        assert((left + right).drop_last() =~= left + shorter);
        assert((left + right).last() == right.last());
        assert(all_digits(shorter));
        lemma_digit_value_concat(left, shorter);
        let value = digit_value(left) as int;
        let power = pow10(shorter.len());
        assert(pow10(right.len()) == 10 * power);
        assert(10 * (value * power) == value * (10 * power)) by (nonlinear_arith);
    }
}

/// A decimal reads back from its own text. The most negative number of digits is left out: its
/// size alone is not a number of digits.
pub proof fn lemma_decimal_text_reads_back(value: FixedDecimal)
    requires
        value.is_canonical(),
        value.digits() > i128::MIN,
    ensures
        exists|point: int| denotes_at(value.ascii(), point),
        decimal_of_text(value.ascii()) == value,
{
    let size = magnitude(value.digits());
    let places = value.places();
    let power = pow10(places);
    lemma_pow10_positive(places);
    let whole = digits_ascii((size / power) as nat);
    let text = value.ascii();
    let body = unsigned_text(text);
    let fraction: Seq<u8> = if places > 0 {
        seq![46u8] + padded_ascii((size % power) as nat, places)
    } else {
        Seq::empty()
    };
    assert(size / power >= 0 && 0 <= size % power < power) by (nonlinear_arith)
        requires
            size >= 0,
            power > 0,
    ;
    lemma_digits_shape((size / power) as nat);
    lemma_padded_shape((size % power) as nat, places);
    let tail = padded_ascii((size % power) as nat, places);
    assert(48 <= whole[0] <= 57);
    assert(body =~= whole + fraction) by {
        if value.digits() < 0 {
            assert(text =~= seq![45u8] + (whole + fraction));
            assert(text.skip(1) =~= whole + fraction);
        } else {
            assert(text =~= whole + fraction);
        }
    }
    let point = whole.len() as int;
    assert(body.take(point) =~= whole);
    if places > 0 {
        assert(body.skip(point + 1) =~= tail);
        assert(body.last() == tail.last());
        assert(tail.last() == (48 + (size % power) % 10) as u8);
        lemma_last_digit(value.digits(), places);
    } else {
        assert(tail =~= Seq::empty());
    }
    assert(fraction_of(body, point) =~= tail);
    lemma_digit_value_concat(whole, tail);
    assert(digit_value(whole + tail) == size) by {
        vstd::arithmetic::div_mod::lemma_fundamental_div_mod(size, power);
        assert(power * (size / power) == (size / power) * power) by (nonlinear_arith);
    }
    assert(splits_at(body, point));
    assert(body == text <==> value.digits() >= 0) by {
        if value.digits() < 0 {
            assert(body.len() == text.len() - 1);
        }
    }
    assert(denotes_at(text, point));
    let other = choose|point: int| denotes_at(text, point);
    lemma_point_is_unique(body, point, other);
    lemma_decimal_of_own_parts(value);
}

proof fn lemma_last_digit(digits: int, places: nat)
    requires
        places > 0,
        digits % 10 != 0,
    ensures
        (magnitude(digits) % pow10(places)) % 10 != 0,
{
    let size = magnitude(digits);
    let power = pow10((places - 1) as nat);
    lemma_pow10_positive((places - 1) as nat);
    assert(pow10(places) == 10 * power);
    vstd::arithmetic::div_mod::lemma_mod_mod(size, 10, power);
}

/// The point of a decimal text is where its first digits end.
proof fn lemma_point_is_unique(body: Seq<u8>, a: int, b: int)
    requires
        splits_at(body, a),
        splits_at(body, b),
    ensures
        a == b,
{
    if a < b {
        assert(body[a] == 46);
        assert(body.take(b)[a] == 46);
    } else if b < a {
        assert(body[b] == 46);
        assert(body.take(a)[b] == 46);
    }
}

impl FixedDecimal {
    /// No more fractional digits than are allowed.
    pub open spec fn in_scale(self) -> bool {
        self.places() <= MAX_DECIMAL_SCALE
    }

    /// At most so many fractional digits, and less than a power of ten in size.
    pub open spec fn within(self, places: nat, power: nat) -> bool {
        &&& self.places() <= places <= MAX_DECIMAL_SCALE
        &&& magnitude(self.units()) < pow10(MAX_DECIMAL_SCALE as nat + power)
    }
}

impl Price {
    /// What holds of every price.
    pub open spec fn is_valid(self) -> bool {
        self.amount().in_scale() && self.units() > 0
    }
}

impl Quantity {
    /// What holds of every quantity.
    pub open spec fn is_valid(self) -> bool {
        self.amount().in_scale() && self.units() >= 0
    }
}

/// Sums, differences, products and negations are exact: they count the units that their operands
/// call for, and are decimals themselves.
pub proof fn lemma_exact_arithmetic(a: FixedDecimal, b: FixedDecimal)
    requires
        a.in_scale(),
        b.in_scale(),
    ensures
        a.plus(b) is Some ==> a.plus(b)->Some_0.units() == a.units() + b.units()
            && a.plus(b)->Some_0.in_scale(),
        a.minus(b) is Some ==> a.minus(b)->Some_0.units() == a.units() - b.units()
            && a.minus(b)->Some_0.in_scale(),
        a.times(b) is Some ==> a.times(b)->Some_0.units() * unit() == a.units() * b.units()
            && a.times(b)->Some_0.in_scale(),
        a.negated() is Some ==> a.negated()->Some_0.units() == -a.units()
            && a.negated()->Some_0.in_scale(),
        unit() > 0,
{
    lemma_pow10_positive(MAX_DECIMAL_SCALE as nat);
    if a.plus(b) is Some {
        lemma_plus_units(a, b);
        lemma_decimal_of_units_places(a.units() + b.units());
    }
    if a.minus(b) is Some {
        lemma_minus_units(a, b);
        lemma_decimal_of_units_places(a.units() - b.units());
    }
    if a.times(b) is Some {
        lemma_times_units(a, b);
        lemma_decimal_of_units_places(a.units() * b.units() / unit());
    }
    if a.negated() is Some {
        let p = pow10((MAX_DECIMAL_SCALE - a.places()) as nat);
        lemma_units_of_decimal(-a.digits(), a.places());
        assert(-a.digits() * p == -(a.digits() * p)) by (nonlinear_arith);
        lemma_decimal_of_units_places(-a.units());
    }
}

/// Whole numbers within range are decimals of their own units.
pub proof fn lemma_whole_units(value: int)
    requires
        fits_i128(value),
    ensures
        decimal_of_units(value * unit()).units() == value * unit(),
        decimal_of_units(value * unit()).in_scale(),
        decimal_of_units(value * unit()).places() == 0,
        unit() > 0,
{
    lemma_pow10_positive(MAX_DECIMAL_SCALE as nat);
    lemma_units_of_decimal(value, 0);
    lemma_decimal_of_units_places(value * unit());
    lemma_few_places(value, 0);
}

/// A product with a whole number counts the units as many times.
pub proof fn lemma_times_whole(a: FixedDecimal, whole: int)
    requires
        a.in_scale(),
        fits_i128(whole),
        a.times(decimal_of_units(whole * unit())) is Some,
    ensures
        a.times(decimal_of_units(whole * unit()))->Some_0.units() == a.units() * whole,
        a.times(decimal_of_units(whole * unit()))->Some_0.in_scale(),
{
    let factor = decimal_of_units(whole * unit());
    lemma_whole_units(whole);
    lemma_exact_arithmetic(a, factor);
    let product = a.times(factor)->Some_0.units();
    assert(product == a.units() * whole) by (nonlinear_arith)
        requires
            product * unit() == a.units() * (whole * unit()),
            unit() > 0,
    ;
}

/// A quotient times its divisor is the dividend.
pub proof fn lemma_over_units(a: FixedDecimal, b: FixedDecimal)
    requires
        a.in_scale(),
        b.in_scale(),
        a.over(b) is Some,
    ensures
        a.over(b)->Some_0.units() * b.units() == a.units() * unit(),
        a.over(b)->Some_0.in_scale(),
{
    let steps = choose|steps: nat| a.divides_after(b, steps);
    let size = magnitude(b.digits());
    let dividend = magnitude(a.digits()) * pow10(steps);
    let quotient = dividend / size;
    lemma_units_sign(b);
    lemma_pow10_positive(steps);
    vstd::arithmetic::div_mod::lemma_fundamental_div_mod(dividend, size);
    assert(quotient * size == dividend) by (nonlinear_arith)
        requires
            dividend == size * quotient,
    ;
    let places = steps + a.places() - b.places();
    let scale: nat = if places >= 0 {
        places as nat
    } else {
        0
    };
    let missing: nat = if places >= 0 {
        0
    } else {
        (-places) as nat
    };
    let size_of_digits = quotient * pow10(missing);
    let digits = if (a.digits() < 0) != (b.digits() < 0) {
        -size_of_digits
    } else {
        size_of_digits
    };
    assert(pow10(0) == 1);
    lemma_quotient_units(a, b, steps, quotient, digits, scale, missing);
    assert(0 <= quotient <= dividend) by (nonlinear_arith)
        requires
            quotient * size == dividend,
            size >= 1,
            dividend >= 0,
    ;
    lemma_pow10_positive(missing);
    assert(size_of_digits >= 0) by (nonlinear_arith)
        requires
            size_of_digits == quotient * pow10(missing),
            quotient >= 0,
            pow10(missing) > 0,
    ;
    if places >= 0 {
        assert(quotient * 1 == quotient);
    } else {
        assert(missing == (b.places() - a.places() - steps) as nat);
    }
    assert(fits_i128(digits));
    lemma_units_of_decimal(digits, scale);
    let units = digits * pow10((MAX_DECIMAL_SCALE - scale) as nat);
    lemma_quotient_is_exact(units, b.units(), a.units() * unit());
    lemma_decimal_of_units_places(units);
}

/// A multiple of a power of ten has as many fractional digits fewer.
proof fn lemma_few_places(digits: int, places: nat)
    requires
        places <= MAX_DECIMAL_SCALE,
    ensures
        decimal_of_units(digits * pow10((MAX_DECIMAL_SCALE - places) as nat)).places() <= places,
{
    let zeros = (MAX_DECIMAL_SCALE - places) as nat;
    lemma_dropped_from(digits, places, zeros);
    lemma_dropped_keeps(digits, places);
    assert(places + zeros == MAX_DECIMAL_SCALE as nat);
}

/// The digits of a decimal at a scale that it fits in, and how large they are.
proof fn lemma_digits_within(value: FixedDecimal, scale: nat, places: nat, power: nat)
    requires
        value.within(places, power),
        value.places() <= scale <= places,
    ensures
        ({
            let digits = value.digits() * pow10((scale - value.places()) as nat);
            &&& magnitude(digits) < pow10(scale + power)
            &&& digits * pow10((MAX_DECIMAL_SCALE - scale) as nat) == value.units()
        }),
{
    let digits = value.digits() * pow10((scale - value.places()) as nat);
    let p = pow10((MAX_DECIMAL_SCALE - scale) as nat);
    lemma_scaled_units(value, scale);
    lemma_pow10_positive((MAX_DECIMAL_SCALE - scale) as nat);
    lemma_pow10_add(scale + power, (MAX_DECIMAL_SCALE - scale) as nat);
    assert(scale + power + (MAX_DECIMAL_SCALE - scale) as nat == MAX_DECIMAL_SCALE as nat + power);
    let bound = pow10(scale + power);
    assert(magnitude(digits) < bound) by (nonlinear_arith)
        requires
            digits * p == value.units(),
            magnitude(value.units()) < bound * p,
            p > 0,
    ;
}

proof fn lemma_power_fits(exponent: nat)
    requires
        exponent <= 38,
    ensures
        pow10(exponent) <= i128::MAX,
        pow10(exponent) > 0,
{
    lemma_pow10_positive(exponent);
    lemma_pow10_monotone(exponent, 38);
    assert(pow10(38) == 100_000_000_000_000_000_000_000_000_000_000_000_000) by {
        reveal_with_fuel(pow10, 39);
    }
}

/// Decimals of moderate size and scale can always be added, subtracted and negated.
pub proof fn lemma_moderate_sums_exist(
    a: FixedDecimal,
    b: FixedDecimal,
    places: nat,
    power: nat,
)
    requires
        a.within(places, power),
        b.within(places, power),
        places + power < 38,
    ensures
        a.plus(b) is Some && a.plus(b)->Some_0.within(places, power + 1),
        a.minus(b) is Some && a.minus(b)->Some_0.within(places, power + 1),
        a.negated() is Some && a.negated()->Some_0.within(places, power),
{
    let scale = if a.places() < b.places() {
        b.places()
    } else {
        a.places()
    };
    lemma_digits_within(a, scale, places, power);
    lemma_digits_within(b, scale, places, power);
    lemma_digits_within(a, a.places(), places, power);
    assert(a.digits() * pow10(0) == a.digits());
    let left = a.digits() * pow10((scale - a.places()) as nat);
    let right = b.digits() * pow10((scale - b.places()) as nat);
    lemma_power_fits(scale + power + 1);
    lemma_power_fits(scale + power);
    lemma_pow10_monotone(a.places() + power, scale + power);
    assert(pow10(scale + power + 1) == 10 * pow10(scale + power));
    assert(a.sum_fits(b) && a.difference_fits(b));
    assert(a.negation_fits());
    lemma_exact_arithmetic(a, b);
    assert(pow10(MAX_DECIMAL_SCALE as nat + power + 1) == 10 * pow10(
        MAX_DECIMAL_SCALE as nat + power,
    ));
    let p = pow10((MAX_DECIMAL_SCALE - scale) as nat);
    assert((left + right) * p == a.units() + b.units()) by (nonlinear_arith)
        requires
            left * p == a.units(),
            right * p == b.units(),
    ;
    assert((left - right) * p == a.units() - b.units()) by (nonlinear_arith)
        requires
            left * p == a.units(),
            right * p == b.units(),
    ;
    lemma_few_places(left + right, scale);
    lemma_few_places(left - right, scale);
    let q = pow10((MAX_DECIMAL_SCALE - a.places()) as nat);
    assert(-a.digits() * q == -(a.digits() * q)) by (nonlinear_arith);
    lemma_few_places(-a.digits(), a.places());
}

/// Decimals of moderate size and scale can always be multiplied.
pub proof fn lemma_moderate_products_exist(
    a: FixedDecimal,
    b: FixedDecimal,
    a_places: nat,
    a_power: nat,
    b_places: nat,
    b_power: nat,
)
    requires
        a.within(a_places, a_power),
        b.within(b_places, b_power),
        a_places + a_power + b_places + b_power <= 38,
    ensures
        a.times(b) is Some,
        a.times(b)->Some_0.within(a_places + b_places, a_power + b_power),
{
    lemma_digits_within(a, a.places(), a_places, a_power);
    lemma_digits_within(b, b.places(), b_places, b_power);
    assert(a.digits() * pow10(0) == a.digits());
    assert(b.digits() * pow10(0) == b.digits());
    let x = pow10(a.places() + a_power);
    let y = pow10(b.places() + b_power);
    let digits = a.digits() * b.digits();
    lemma_pow10_positive(a.places() + a_power);
    lemma_pow10_positive(b.places() + b_power);
    lemma_pow10_add(a.places() + a_power, b.places() + b_power);
    lemma_power_fits(a.places() + a_power + b.places() + b_power);
    assert(a.places() + a_power + (b.places() + b_power) == a.places() + a_power + b.places()
        + b_power);
    assert(magnitude(digits) < x * y) by (nonlinear_arith)
        requires
            magnitude(a.digits()) < x,
            magnitude(b.digits()) < y,
            digits == a.digits() * b.digits(),
    ;
    assert(a.product_fits(b));
    lemma_exact_arithmetic(a, b);
    let product = a.times(b)->Some_0;
    let scale = a.places() + b.places();
    assert(digits * pow10(0) == digits);
    lemma_product_units(a, b, digits, scale);
    lemma_few_places(digits, scale);
    let u = unit();
    let p = pow10((MAX_DECIMAL_SCALE - scale) as nat);
    lemma_quotient_is_exact(digits * p, u, a.units() * b.units());
    lemma_pow10_add(MAX_DECIMAL_SCALE as nat + a_power, MAX_DECIMAL_SCALE as nat + b_power);
    lemma_pow10_add(MAX_DECIMAL_SCALE as nat, MAX_DECIMAL_SCALE as nat + a_power + b_power);
    assert(MAX_DECIMAL_SCALE as nat + a_power + (MAX_DECIMAL_SCALE as nat + b_power)
        == MAX_DECIMAL_SCALE as nat + (MAX_DECIMAL_SCALE as nat + a_power + b_power));
    assert(MAX_DECIMAL_SCALE as nat + (a_power + b_power) == MAX_DECIMAL_SCALE as nat + a_power
        + b_power);
    let m = magnitude(a.units());
    let n = magnitude(b.units());
    let bound = pow10(MAX_DECIMAL_SCALE as nat + a_power + b_power);
    let f = pow10(MAX_DECIMAL_SCALE as nat + a_power);
    let g = pow10(MAX_DECIMAL_SCALE as nat + b_power);
    assert(magnitude(a.units() * b.units()) < u * bound) by (nonlinear_arith)
        requires
            m == magnitude(a.units()),
            n == magnitude(b.units()),
            m < f,
            n < g,
            f * g == u * bound,
    ;
    assert(magnitude(product.units()) < bound) by (nonlinear_arith)
        requires
            product.units() * u == a.units() * b.units(),
            magnitude(a.units() * b.units()) < u * bound,
            u > 0,
    ;
}

/// Zero is as small as can be.
pub proof fn lemma_nothing_is_within(places: nat, power: nat)
    requires
        places <= MAX_DECIMAL_SCALE,
    ensures
        decimal_of_units(0).within(places, power),
{
    lemma_zero_units();
    lemma_pow10_positive(MAX_DECIMAL_SCALE as nat + power);
    lemma_few_places(0, 0);
}

/// What is within a bound is within the next one.
pub proof fn lemma_wider(value: FixedDecimal, places: nat, power: nat)
    requires
        value.within(places, power),
    ensures
        value.within(places, power + 1),
        value.within(places, power + 2),
        value.within(places, power + 3),
{
    lemma_pow10_monotone(MAX_DECIMAL_SCALE as nat + power, MAX_DECIMAL_SCALE as nat + power + 1);
    lemma_pow10_monotone(MAX_DECIMAL_SCALE as nat + power, MAX_DECIMAL_SCALE as nat + power + 2);
    lemma_pow10_monotone(MAX_DECIMAL_SCALE as nat + power, MAX_DECIMAL_SCALE as nat + power + 3);
}

/// A decimal without trailing zeros is the only one that counts its units.
pub proof fn lemma_units_identify(a: FixedDecimal, b: FixedDecimal)
    requires
        a.is_canonical(),
        b.is_canonical(),
        a.units() == b.units(),
    ensures
        a == b,
{
    lemma_decimal_of_own_units(a);
    lemma_decimal_of_own_units(b);
}

/// The quantity of an amount has that amount.
pub proof fn lemma_quantity_of_amount(value: FixedDecimal)
    ensures
        Quantity::of_amount(value).amount() == value,
{
}

/// The price of an amount has that amount.
pub proof fn lemma_price_of_amount(value: FixedDecimal)
    ensures
        Price::of_amount(value).amount() == value,
{
}

} // verus!
