//! The criteria by which two elements count as equal.

use crate::report::{append_decimal_u64, decimal};
use crate::ulp::{Ulp, UlpComparisonResult};
use std::cmp::Ordering;
use std::fmt::Display;
use std::ops::Sub;
use vstd::prelude::*;
use vstd::std_specs::cmp::{PartialEqSpec, PartialOrdSpec};
use vstd::std_specs::ops::SubSpec;
use vstd::string::*;

verus! {

/// A criterion that accepts or rejects a pair of elements.
///
/// The verdict on a pair is a function of the comparator and the pair alone,
/// [`outcome`](ElementwiseComparator::outcome): asking twice gives the same
/// answer.
pub trait ElementwiseComparator<T> {
    /// What the comparator reports of a pair it rejects.
    type Error;

    /// The pairs the comparator can be asked about. Left open, as the
    /// verdict and the description are, by a comparator that does not say
    /// what they are.
    open spec fn comparable(&self, x: T, y: T) -> bool {
        arbitrary()
    }

    /// The verdict on a pair.
    open spec fn outcome(&self, x: T, y: T) -> Result<(), Self::Error> {
        arbitrary()
    }

    /// The texts the comparator may describe itself with.
    open spec fn describes(&self, text: Seq<char>) -> bool {
        arbitrary()
    }

    /// Compares two elements, and says what is wrong where they do not match.
    fn compare(&self, x: &T, y: &T) -> (r: Result<(), Self::Error>)
        requires
            self.comparable(*x, *y),
        ensures
            r == self.outcome(*x, *y),
    ;

    /// A description of the criterion, for reports.
    fn description(&self) -> (text: String)
        ensures
            self.describes(text@),
    ;
}

/// Accepts a pair when `==` does.
#[derive(Copy, Clone, Debug, PartialEq)]
pub struct ExactElementwiseComparator;

/// The two elements are not equal; there is nothing more to say.
#[derive(Copy, Clone, Debug, PartialEq, Eq)]
pub struct ExactError;

impl<T: PartialEq> ElementwiseComparator<T> for ExactElementwiseComparator {
    type Error = ExactError;

    /// Any pair, for a type whose `==` is the one its specification gives.
    open spec fn comparable(&self, x: T, y: T) -> bool {
        T::obeys_eq_spec()
    }

    open spec fn outcome(&self, x: T, y: T) -> Result<(), ExactError> {
        if x.eq_spec(&y) {
            Ok(())
        } else {
            Err(ExactError)
        }
    }

    open spec fn describes(&self, text: Seq<char>) -> bool {
        text == "exact equality x == y."@
    }

    fn compare(&self, x: &T, y: &T) -> (r: Result<(), ExactError>) {
        if *x == *y {
            Ok(())
        } else {
            Err(ExactError)
        }
    }

    fn description(&self) -> (text: String) {
        String::from_str("exact equality x == y.")
    }
}

/// The exact comparator accepts a value paired with itself, where `==` does.
pub proof fn exact_accepts_equal_values<T: PartialEq>(x: T)
    requires
        x.eq_spec(&x),
    ensures
        ExactElementwiseComparator.outcome(x, x) is Ok,
{
}

/// The verdict of the exact comparator does not depend on the order of the
/// two values, where `==` does not.
pub proof fn exact_is_symmetric<T: PartialEq>(x: T, y: T)
    requires
        x.eq_spec(&y) == y.eq_spec(&x),
    ensures
        ExactElementwiseComparator.outcome(x, y) == ExactElementwiseComparator.outcome(y, x),
{
}

/// How far apart two values are that the comparator rejected.
#[derive(Copy, Clone, Debug, PartialEq)]
pub struct AbsoluteError<T>(pub T);

/// Accepts a pair whose distance is at most the tolerance.
#[derive(Copy, Clone, Debug, PartialEq)]
pub struct AbsoluteElementwiseComparator<T> {
    /// The largest distance accepted.
    pub tol: T,
}

/// Whether `x` is greater than `y`.
pub open spec fn is_greater<T: PartialOrd>(x: T, y: T) -> bool {
    x.partial_cmp_spec(&y) == Some(Ordering::Greater)
}

/// Whether `x` is less than or equal to `y`.
pub open spec fn is_at_most<T: PartialOrd>(x: T, y: T) -> bool {
    x.partial_cmp_spec(&y) matches Some(Ordering::Less | Ordering::Equal)
}

/// Whether `-` on `T` is the one its specification gives.
pub open spec fn subtraction_is_specified<T: Sub<Output = T>>() -> bool {
    <T as SubSpec>::obeys_sub_spec()
}

/// The distance of two values: the greater less the smaller, so that no
/// negative number is needed on the way.
pub open spec fn distance<T: PartialOrd + Sub<Output = T>>(x: T, y: T) -> T {
    if is_greater(x, y) {
        x.sub_spec(y)
    } else {
        y.sub_spec(x)
    }
}

/// Whether the greater of two values less the smaller can be computed.
pub open spec fn has_distance<T: PartialOrd + Sub<Output = T>>(x: T, y: T) -> bool {
    if is_greater(x, y) {
        x.sub_req(y)
    } else {
        y.sub_req(x)
    }
}

/// The words in which the absolute comparator describes itself, given
/// those in which its tolerance is displayed.
pub open spec fn absolute_description(tolerance: Seq<char>) -> Seq<char> {
    "absolute difference, |x - y| <= "@ + tolerance + "."@
}

impl<T> ElementwiseComparator<T> for AbsoluteElementwiseComparator<T> where
    T: Copy + PartialOrd + Sub<Output = T> + Display,
 {
    type Error = AbsoluteError<T>;

    /// The pairs whose distance can be computed, for a type whose `==`, `<`
    /// and `-` are the ones their specifications give, and under a tolerance
    /// that is not negative: not less than itself less itself.
    open spec fn comparable(&self, x: T, y: T) -> bool {
        &&& T::obeys_eq_spec()
        &&& T::obeys_partial_cmp_spec()
        &&& subtraction_is_specified::<T>()
        &&& self.tol.sub_req(self.tol)
        &&& is_at_most(self.tol.sub_spec(self.tol), self.tol)
        &&& !x.eq_spec(&y) ==> has_distance(x, y)
    }

    open spec fn outcome(&self, x: T, y: T) -> Result<(), AbsoluteError<T>> {
        if x.eq_spec(&y) || is_at_most(distance(x, y), self.tol) {
            Ok(())
        } else {
            Err(AbsoluteError(distance(x, y)))
        }
    }

    open spec fn describes(&self, text: Seq<char>) -> bool {
        exists|shown: String| #[trigger]
            to_string_from_display_ensures(&self.tol, shown) && text == absolute_description(
                shown@,
            )
    }

    fn compare(&self, x: &T, y: &T) -> (r: Result<(), AbsoluteError<T>>) {
        if *x == *y {
            Ok(())
        } else {
            let distance = if *x > *y {
                *x - *y
            } else {
                *y - *x
            };
            if distance <= self.tol {
                Ok(())
            } else {
                Err(AbsoluteError(distance))
            }
        }
    }

    fn description(&self) -> (text: String) {
        let shown = self.tol.to_string();
        let mut text = String::from_str("absolute difference, |x - y| <= ");
        text.append(shown.as_str());
        text.append(".");
        text
    }
}

/// Accepts a pair whose distance in units in the last place is at most the
/// tolerance.
#[derive(Copy, Clone, Debug, PartialEq)]
pub struct UlpElementwiseComparator {
    /// The largest distance accepted, in units in the last place.
    pub tol: u64,
}

/// What the comparison in units in the last place gave for a pair that the
/// comparator rejected.
#[derive(Copy, Clone, Debug, PartialEq)]
pub struct UlpError(pub UlpComparisonResult);

/// The verdict under the tolerance `tol` on a pair whose comparison in units
/// in the last place gave `diff`: accepted where the two are equal or at
/// most `tol` apart, rejected where they are further apart, of different
/// signs, or not numbers.
pub open spec fn ulp_verdict(tol: u64, diff: UlpComparisonResult) -> Result<(), UlpError> {
    match diff {
        UlpComparisonResult::ExactMatch => Ok(()),
        UlpComparisonResult::Difference(steps) => if steps <= tol {
            Ok(())
        } else {
            Err(UlpError(diff))
        },
        _ => Err(UlpError(diff)),
    }
}

/// The words in which the comparator in units in the last place describes
/// itself, given its tolerance in decimal.
pub open spec fn ulp_description(tolerance: Seq<char>) -> Seq<char> {
    "ULP difference less than or equal to "@ + tolerance
        + ". See documentation for details."@
}

impl UlpElementwiseComparator {
    /// The verdict on a pair whose comparison in units in the last place
    /// gave `diff`.
    pub fn judge(&self, diff: UlpComparisonResult) -> (r: Result<(), UlpError>)
        ensures
            r == ulp_verdict(self.tol, diff),
    {
        match diff {
            UlpComparisonResult::ExactMatch => Ok(()),
            UlpComparisonResult::Difference(steps) => {
                if steps <= self.tol {
                    Ok(())
                } else {
                    Err(UlpError(diff))
                }
            },
            _ => Err(UlpError(diff)),
        }
    }
}

impl<T: Ulp> ElementwiseComparator<T> for UlpElementwiseComparator {
    type Error = UlpError;

    open spec fn comparable(&self, x: T, y: T) -> bool {
        true
    }

    open spec fn outcome(&self, x: T, y: T) -> Result<(), UlpError> {
        ulp_verdict(self.tol, T::ulp_difference(x, y))
    }

    open spec fn describes(&self, text: Seq<char>) -> bool {
        text == ulp_description(decimal(self.tol as nat))
    }

    fn compare(&self, x: &T, y: &T) -> (r: Result<(), UlpError>) {
        self.judge(T::ulp_diff(x, y))
    }

    fn description(&self) -> (text: String) {
        let mut text = String::from_str("ULP difference less than or equal to ");
        append_decimal_u64(&mut text, self.tol);
        text.append(". See documentation for details.");
        text
    }
}

/// Accepts a pair that the absolute comparator accepts under a small
/// tolerance, and else a pair that is close in units in the last place.
///
/// Near zero the representable numbers lie so close that a distance in
/// units in the last place says little: there the absolute tolerance
/// decides. Far from zero the distance in units in the last place is the
/// measure that follows the size of the numbers.
#[derive(Copy, Clone, Debug, PartialEq)]
pub struct FloatElementwiseComparator<T> {
    abs: AbsoluteElementwiseComparator<T>,
    ulp: UlpElementwiseComparator,
}

/// The largest distance in units in the last place that the float
/// comparator accepts unless told otherwise.
pub const DEFAULT_MAX_ULP: u64 = 4;

/// The words in which the float comparator describes itself, given those in
/// which its absolute tolerance is displayed and its tolerance in units in
/// the last place in decimal.
pub open spec fn float_description(epsilon: Seq<char>, max_ulp: Seq<char>) -> Seq<char> {
    "Epsilon-sized absolute comparison, followed by an ULP-based comparison.\nPlease see the documentation for details.\nEpsilon:       "@
        + epsilon + "\nULP tolerance: "@ + max_ulp
}

impl<T> FloatElementwiseComparator<T> {
    /// The absolute tolerance.
    pub closed spec fn epsilon(&self) -> T {
        self.abs.tol
    }

    /// The tolerance in units in the last place.
    pub closed spec fn max_ulp(&self) -> u64 {
        self.ulp.tol
    }

    /// The comparator with the absolute tolerance `eps` that accepts
    /// `max_ulp` units in the last place.
    pub fn with_tolerances(eps: T, max_ulp: u64) -> (comparator: Self)
        ensures
            comparator.epsilon() == eps,
            comparator.max_ulp() == max_ulp,
    {
        FloatElementwiseComparator {
            abs: AbsoluteElementwiseComparator { tol: eps },
            ulp: UlpElementwiseComparator { tol: max_ulp },
        }
    }

    /// The absolute tolerance.
    pub fn absolute_tolerance(&self) -> (eps: &T)
        ensures
            *eps == self.epsilon(),
    {
        &self.abs.tol
    }

    /// The tolerance in units in the last place.
    pub fn ulp_tolerance(&self) -> (max_ulp: u64)
        ensures
            max_ulp == self.max_ulp(),
    {
        self.ulp.tol
    }

    /// This comparator with the absolute tolerance `eps`.
    pub fn eps(self, eps: T) -> (comparator: Self)
        ensures
            comparator.epsilon() == eps,
            comparator.max_ulp() == self.max_ulp(),
    {
        FloatElementwiseComparator { abs: AbsoluteElementwiseComparator { tol: eps }, ulp: self.ulp }
    }

    /// This comparator with the tolerance of `max_ulp` units in the last place.
    pub fn ulp(self, max_ulp: u64) -> (comparator: Self)
        ensures
            comparator.epsilon() == self.epsilon(),
            comparator.max_ulp() == max_ulp,
    {
        FloatElementwiseComparator { abs: self.abs, ulp: UlpElementwiseComparator { tol: max_ulp } }
    }
}

impl<T> ElementwiseComparator<T> for FloatElementwiseComparator<T> where
    T: Copy + PartialOrd + Sub<Output = T> + Display + Ulp,
 {
    type Error = UlpError;

    /// The pairs that the absolute comparator under the absolute tolerance
    /// can be asked about.
    open spec fn comparable(&self, x: T, y: T) -> bool {
        (AbsoluteElementwiseComparator { tol: self.epsilon() }).comparable(x, y)
    }

    open spec fn outcome(&self, x: T, y: T) -> Result<(), UlpError> {
        if (AbsoluteElementwiseComparator { tol: self.epsilon() }).outcome(x, y) is Ok {
            Ok(())
        } else {
            ulp_verdict(self.max_ulp(), T::ulp_difference(x, y))
        }
    }

    open spec fn describes(&self, text: Seq<char>) -> bool {
        exists|epsilon: String| #[trigger]
            to_string_from_display_ensures(&self.epsilon(), epsilon) && text == float_description(
                epsilon@,
                decimal(self.max_ulp() as nat),
            )
    }

    fn compare(&self, x: &T, y: &T) -> (r: Result<(), UlpError>) {
        if self.abs.compare(x, y).is_err() {
            self.ulp.compare(x, y)
        } else {
            Ok(())
        }
    }

    fn description(&self) -> (text: String) {
        let epsilon = self.abs.tol.to_string();
        let mut text = String::from_str(
            "Epsilon-sized absolute comparison, followed by an ULP-based comparison.\nPlease see the documentation for details.\nEpsilon:       ",
        );
        text.append(epsilon.as_str());
        text.append("\nULP tolerance: ");
        append_decimal_u64(&mut text, self.ulp.tol);
        proof {
            assert(text@ =~= float_description(epsilon@, decimal(self.max_ulp() as nat)));
            assert(to_string_from_display_ensures(&self.epsilon(), epsilon));
        }
        text
    }
}

/// The verdict of the comparator in units in the last place does not
/// depend on the order of the two values, where their distance does not.
pub proof fn ulp_comparator_is_symmetric<T: Ulp>(comparator: UlpElementwiseComparator, x: T, y: T)
    requires
        T::ulp_difference(x, y) == T::ulp_difference(y, x),
    ensures
        comparator.outcome(x, y) == comparator.outcome(y, x),
{
}

/// The verdict of the float comparator does not depend on the order of the
/// two values, where neither the verdict of the absolute comparator nor the
/// distance in units in the last place does.
pub proof fn float_comparator_is_symmetric<T>(comparator: FloatElementwiseComparator<T>, x: T, y: T) where
    T: Copy + PartialOrd + Sub<Output = T> + Display + Ulp,

    requires
        (AbsoluteElementwiseComparator { tol: comparator.epsilon() }).outcome(x, y) is Ok
            == (AbsoluteElementwiseComparator { tol: comparator.epsilon() }).outcome(y, x) is Ok,
        T::ulp_difference(x, y) == T::ulp_difference(y, x),
    ensures
        comparator.outcome(x, y) == comparator.outcome(y, x),
{
}

} // verus!
