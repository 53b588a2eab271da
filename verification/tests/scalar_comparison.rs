use matrixcompare::comparators::{
    AbsoluteElementwiseComparator, AbsoluteError, ElementwiseComparator,
    ExactElementwiseComparator, ExactError, FloatElementwiseComparator, UlpElementwiseComparator,
    UlpError, DEFAULT_MAX_ULP,
};
use matrixcompare::ulp::{ulp_diff_binary64, Ulp, UlpComparisonResult};
use matrixcompare::{compare_scalars, ScalarComparisonFailure};
use std::fmt;
use std::ops::Sub;

/// A 64-bit float that knows its distance in units in the last place.
#[derive(Debug, Copy, Clone, PartialEq, PartialOrd)]
struct F(f64);

impl Sub for F {
    type Output = F;
    fn sub(self, other: F) -> F {
        F(self.0 - other.0)
    }
}

impl fmt::Display for F {
    fn fmt(&self, f: &mut fmt::Formatter) -> fmt::Result {
        fmt::Display::fmt(&self.0, f)
    }
}

impl Ulp for F {
    fn ulp_diff(a: &Self, b: &Self) -> UlpComparisonResult {
        ulp_diff_binary64(a.0.to_bits(), b.0.to_bits())
    }
}

/// Four times the machine epsilon, the absolute tolerance of the float
/// comparator unless told otherwise.
fn float_comparator() -> FloatElementwiseComparator<F> {
    FloatElementwiseComparator::with_tolerances(F(4.0 * f64::EPSILON), DEFAULT_MAX_ULP)
}

#[test]
fn scalar_comparison_reports_correct_mismatch() {
    let comp = ExactElementwiseComparator;

    {
        let x = 0.2;
        let y = 0.3;

        let expected_err = ScalarComparisonFailure {
            left: 0.2,
            right: 0.3,
            error: ExactError,
            comparator_description: ElementwiseComparator::<f64>::description(&comp),
        };

        assert_eq!(compare_scalars(&x, &y, comp).unwrap_err(), expected_err);
    }
}

#[test]
fn scalar_comparison_reports_the_distance() {
    let comp = AbsoluteElementwiseComparator { tol: 2u32 };
    assert_eq!(compare_scalars(&10, &12, comp), Ok(()));
    assert_eq!(
        compare_scalars(&10, &13, comp),
        Err(ScalarComparisonFailure {
            left: 10,
            right: 13,
            error: AbsoluteError(3),
            comparator_description: String::from("absolute difference, |x - y| <= 2."),
        })
    );
}

#[test]
pub fn scalar_eq_default_compare_self_for_integer() {
    let x = 2;
    assert_eq!(compare_scalars(&x, &x, ExactElementwiseComparator), Ok(()));
}

#[test]
pub fn scalar_eq_default_compare_self_for_floating_point() {
    let x = 2.0;
    assert_eq!(compare_scalars(&x, &x, ExactElementwiseComparator), Ok(()));
}

#[test]
#[should_panic]
pub fn scalar_eq_default_mismatched_elements() {
    let x = 3;
    let y = 4;
    compare_scalars(&x, &y, ExactElementwiseComparator).unwrap();
}

#[test]
pub fn scalar_eq_exact_compare_self_for_integer() {
    let x = 2;
    assert_eq!(compare_scalars(&x, &x, ExactElementwiseComparator), Ok(()));
}

#[test]
pub fn scalar_eq_exact_compare_self_for_floating_point() {
    let x = 2.0;
    assert_eq!(compare_scalars(&x, &x, ExactElementwiseComparator), Ok(()));
}

#[test]
#[should_panic]
pub fn scalar_eq_exact_mismatched_elements() {
    let x = 3;
    let y = 4;
    compare_scalars(&x, &y, ExactElementwiseComparator).unwrap();
}

#[test]
pub fn scalar_eq_abs_compare_self_for_integer() {
    let x = 2;
    assert_eq!(compare_scalars(&x, &x, AbsoluteElementwiseComparator { tol: 1 }), Ok(()));
}

#[test]
pub fn scalar_eq_abs_compare_self_for_floating_point() {
    let x = 2.0;
    assert_eq!(compare_scalars(&x, &x, AbsoluteElementwiseComparator { tol: 1e-8 }), Ok(()));
}

#[test]
#[should_panic]
pub fn scalar_eq_abs_mismatched_elements() {
    let x = 3.0;
    let y = 4.0;
    compare_scalars(&x, &y, AbsoluteElementwiseComparator { tol: 1e-8 }).unwrap();
}

#[test]
pub fn scalar_eq_ulp_compare_self() {
    let x = F(2.0);
    assert_eq!(compare_scalars(&x, &x, UlpElementwiseComparator { tol: 1 }), Ok(()));
}

#[test]
#[should_panic]
pub fn scalar_eq_ulp_mismatched_elements() {
    let x = F(3.0);
    let y = F(4.0);
    compare_scalars(&x, &y, UlpElementwiseComparator { tol: 4 }).unwrap();
}

#[test]
pub fn scalar_eq_float_compare_self() {
    let x = F(2.0);
    assert_eq!(compare_scalars(&x, &x, UlpElementwiseComparator { tol: 1 }), Ok(()));
}

#[test]
#[should_panic]
pub fn scalar_eq_float_mismatched_elements() {
    let x = F(3.0);
    let y = F(4.0);
    compare_scalars(&x, &y, float_comparator()).unwrap();
}

#[test]
pub fn scalar_eq_float_compare_self_with_eps() {
    let x = F(2.0);
    assert_eq!(compare_scalars(&x, &x, float_comparator().eps(F(1e-6))), Ok(()));
}

#[test]
pub fn scalar_eq_float_compare_self_with_ulp() {
    let x = F(2.0);
    assert_eq!(compare_scalars(&x, &x, float_comparator().ulp(12)), Ok(()));
}

#[test]
pub fn scalar_eq_float_compare_self_with_eps_and_ulp() {
    let x = F(2.0);
    assert_eq!(compare_scalars(&x, &x, float_comparator().eps(F(1e-6)).ulp(12)), Ok(()));
    assert_eq!(compare_scalars(&x, &x, float_comparator().ulp(12).eps(F(1e-6))), Ok(()));
}

#[test]
pub fn scalar_eq_pass_by_ref() {
    let x = F(0.0);

    // Make sure that we are able to call the comparison with every comparator.
    assert_eq!(compare_scalars(&x, &x, ExactElementwiseComparator), Ok(()));
    assert_eq!(compare_scalars(&x, &x, AbsoluteElementwiseComparator { tol: F(0.0) }), Ok(()));
    assert_eq!(compare_scalars(&x, &x, UlpElementwiseComparator { tol: 0 }), Ok(()));
    assert_eq!(compare_scalars(&x, &x, float_comparator()), Ok(()));
    assert_eq!(compare_scalars(&x, &x, float_comparator().eps(F(0.0)).ulp(0)), Ok(()));
    assert_eq!(
        compare_scalars(&F(1.0), &F(-1.0), float_comparator()).unwrap_err().error,
        UlpError(UlpComparisonResult::IncompatibleSigns)
    );
}
