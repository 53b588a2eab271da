//! The failures in words, for the reader of a failed test.
//!
//! Numbers of rows, columns and mismatches are written in decimal. The
//! elements of the matrices are written as their type displays them. A
//! report of mismatched elements shows at most [`MAX_MISMATCH_REPORTS`] of
//! them and says how many it left out.

use crate::comparators::{AbsoluteError, ExactError, UlpError};
use crate::comparison_failure::{
    DimensionMismatch, ElementsMismatch, Entry, MatrixComparisonFailure,
    MatrixElementComparisonFailure,
};
use crate::scalar_comparison::ScalarComparisonFailure;
use crate::ulp::UlpComparisonResult;
use std::fmt::Display;
use vstd::prelude::*;
use vstd::string::*;

verus! {

/// The number of mismatches that a report shows at most.
pub const MAX_MISMATCH_REPORTS: usize = 12;

/// The digit `d` as text.
pub open spec fn digit_text(d: int) -> Seq<char> {
    if d == 0 {
        "0"@
    } else if d == 1 {
        "1"@
    } else if d == 2 {
        "2"@
    } else if d == 3 {
        "3"@
    } else if d == 4 {
        "4"@
    } else if d == 5 {
        "5"@
    } else if d == 6 {
        "6"@
    } else if d == 7 {
        "7"@
    } else if d == 8 {
        "8"@
    } else {
        "9"@
    }
}

/// The number `n` in decimal.
pub open spec fn decimal(n: nat) -> Seq<char>
    decreases n,
{
    if n < 10 {
        digit_text(n as int)
    } else {
        decimal(n / 10) + digit_text((n % 10) as int)
    }
}

fn digit_str(d: usize) -> (text: &'static str)
    requires
        d < 10,
    ensures
        text@ == digit_text(d as int),
{
    if d == 0 {
        "0"
    } else if d == 1 {
        "1"
    } else if d == 2 {
        "2"
    } else if d == 3 {
        "3"
    } else if d == 4 {
        "4"
    } else if d == 5 {
        "5"
    } else if d == 6 {
        "6"
    } else if d == 7 {
        "7"
    } else if d == 8 {
        "8"
    } else {
        "9"
    }
}

/// Writes `n` in decimal at the end of `text`.
pub fn append_decimal(text: &mut String, n: usize)
    ensures
        final(text)@ == old(text)@ + decimal(n as nat),
    decreases n,
{
    if n >= 10 {
        append_decimal(text, n / 10);
    }
    text.append(digit_str(n % 10));
    proof {
        if n >= 10 {
            assert(final(text)@ =~= old(text)@ + (decimal((n / 10) as nat) + digit_text(
                (n % 10) as int,
            )));
        }
    }
}

/// Whether `text` is what `value` is displayed as.
pub open spec fn is_displayed_as<T: Display>(value: T, text: Seq<char>) -> bool {
    exists|shown: String| #[trigger] to_string_from_display_ensures(&value, shown) && shown@ == text
}

/// What a comparator reports of a rejected pair, in words.
pub trait ErrorText {
    /// Whether `text` says what this error says. Left open by an error
    /// that does not say what its words are.
    open spec fn is_text(&self, text: Seq<char>) -> bool {
        arbitrary()
    }

    /// The error in words: nothing where there is nothing to add.
    fn to_text(&self) -> (text: String)
        ensures
            self.is_text(text@),
    ;
}

impl ErrorText for ExactError {
    open spec fn is_text(&self, text: Seq<char>) -> bool {
        text == Seq::<char>::empty()
    }

    fn to_text(&self) -> (text: String) {
        String::new()
    }
}

/// The words for a distance that is displayed as `distance`.
pub open spec fn absolute_error_text(distance: Seq<char>) -> Seq<char> {
    "Absolute error: "@ + distance + "."@
}

impl<T: Display> ErrorText for AbsoluteError<T> {
    open spec fn is_text(&self, text: Seq<char>) -> bool {
        exists|distance: Seq<char>| #[trigger]
            is_displayed_as(self.0, distance) && text == absolute_error_text(distance)
    }

    fn to_text(&self) -> (text: String) {
        let shown = self.0.to_string();
        let mut text = String::from_str("Absolute error: ");
        text.append(shown.as_str());
        text.append(".");
        proof {
            assert(is_displayed_as(self.0, shown@));
        }
        text
    }
}

/// The words for what a comparison in units in the last place gave.
pub open spec fn ulp_error_text(diff: UlpComparisonResult) -> Seq<char> {
    match diff {
        UlpComparisonResult::Difference(steps) => "Difference: "@ + decimal(steps as nat)
            + " ULP."@,
        UlpComparisonResult::IncompatibleSigns => "Numbers have incompatible signs."@,
        _ => Seq::<char>::empty(),
    }
}

/// Writes `n` in decimal at the end of `text`.
pub fn append_decimal_u64(text: &mut String, n: u64)
    ensures
        final(text)@ == old(text)@ + decimal(n as nat),
    decreases n,
{
    if n >= 10 {
        append_decimal_u64(text, n / 10);
    }
    let digit: u64 = n % 10;
    text.append(digit_str(digit as usize));
    proof {
        if n >= 10 {
            assert(final(text)@ =~= old(text)@ + (decimal((n / 10) as nat) + digit_text(
                (n % 10) as int,
            )));
        }
    }
}

impl ErrorText for UlpError {
    open spec fn is_text(&self, text: Seq<char>) -> bool {
        text == ulp_error_text(self.0)
    }

    fn to_text(&self) -> (text: String) {
        match self.0 {
            UlpComparisonResult::Difference(steps) => {
                let mut text = String::from_str("Difference: ");
                append_decimal_u64(&mut text, steps);
                text.append(" ULP.");
                text
            },
            UlpComparisonResult::IncompatibleSigns => String::from_str(
                "Numbers have incompatible signs.",
            ),
            _ => String::new(),
        }
    }
}

/// A sparse entry in words: its side, and its row and column.
pub open spec fn entry_text(entry: Entry) -> Seq<char> {
    match entry {
        Entry::Left(coord) => "Left("@ + decimal(coord.0 as nat) + ", "@ + decimal(coord.1 as nat)
            + ")"@,
        Entry::Right(coord) => "Right("@ + decimal(coord.0 as nat) + ", "@ + decimal(
            coord.1 as nat,
        ) + ")"@,
    }
}

impl Entry {
    /// The entry in words.
    pub fn to_text(&self) -> (text: String)
        ensures
            text@ == entry_text(*self),
    {
        let (mut text, coord) = match self {
            Entry::Left(coord) => (String::from_str("Left("), *coord),
            Entry::Right(coord) => (String::from_str("Right("), *coord),
        };
        append_decimal(&mut text, coord.0);
        text.append(", ");
        append_decimal(&mut text, coord.1);
        text.append(")");
        text
    }
}

/// Two shapes that do not match, in words.
pub open spec fn dimension_mismatch_text(mismatch: DimensionMismatch) -> Seq<char> {
    "Dimensions of matrices X (left) and Y (right) do not match.\n dim(X) = "@ + decimal(
        mismatch.dim_left.0 as nat,
    ) + " x "@ + decimal(mismatch.dim_left.1 as nat) + "\n dim(Y) = "@ + decimal(
        mismatch.dim_right.0 as nat,
    ) + " x "@ + decimal(mismatch.dim_right.1 as nat)
}

impl DimensionMismatch {
    /// The two shapes in words.
    pub fn to_text(&self) -> (text: String)
        ensures
            text@ == dimension_mismatch_text(*self),
    {
        let mut text = String::from_str(
            "Dimensions of matrices X (left) and Y (right) do not match.\n dim(X) = ",
        );
        append_decimal(&mut text, self.dim_left.0);
        text.append(" x ");
        append_decimal(&mut text, self.dim_left.1);
        text.append("\n dim(Y) = ");
        append_decimal(&mut text, self.dim_right.0);
        text.append(" x ");
        append_decimal(&mut text, self.dim_right.1);
        text
    }
}

/// A mismatch at `(row, col)` in words, given those for the two elements
/// and for the error. An error without words adds nothing.
pub open spec fn element_text(
    row: usize,
    col: usize,
    left: Seq<char>,
    right: Seq<char>,
    error: Seq<char>,
) -> Seq<char> {
    let pair = "("@ + decimal(row as nat) + ", "@ + decimal(col as nat) + "): x = "@ + left
        + ", y = "@ + right + "."@;
    if error.len() == 0 {
        pair
    } else {
        pair + " "@ + error
    }
}

/// Whether `text` is the mismatch in words.
pub open spec fn is_element_text<T: Display, E: ErrorText>(
    failure: MatrixElementComparisonFailure<T, E>,
    text: Seq<char>,
) -> bool {
    exists|left: Seq<char>, right: Seq<char>, error: Seq<char>|
        {
            &&& is_displayed_as(failure.left, left)
            &&& is_displayed_as(failure.right, right)
            &&& failure.error.is_text(error)
            &&& #[trigger] element_text(failure.row, failure.col, left, right, error) == text
        }
}

impl<T: Display, E: ErrorText> MatrixElementComparisonFailure<T, E> {
    /// The mismatch in words.
    pub fn to_text(&self) -> (text: String)
        ensures
            is_element_text(*self, text@),
    {
        let left = self.left.to_string();
        let right = self.right.to_string();
        let error = self.error.to_text();
        let mut text = String::from_str("(");
        append_decimal(&mut text, self.row);
        text.append(", ");
        append_decimal(&mut text, self.col);
        text.append("): x = ");
        text.append(left.as_str());
        text.append(", y = ");
        text.append(right.as_str());
        text.append(".");
        if !error.as_str().is_empty() {
            text.append(" ");
            text.append(error.as_str());
        }
        proof {
            assert(is_displayed_as(self.left, left@));
            assert(is_displayed_as(self.right, right@));
            assert(element_text(self.row, self.col, left@, right@, error@) == text@);
        }
        text
    }
}

/// The lines of a list of mismatches: each after a blank, and ended.
pub open spec fn listing(lines: Seq<Seq<char>>) -> Seq<char>
    decreases lines.len(),
{
    if lines.len() == 0 {
        Seq::<char>::empty()
    } else {
        listing(lines.drop_last()) + " "@ + lines.last() + "\n"@
    }
}

/// How many of `total` mismatches a report shows.
pub open spec fn shown_count(total: nat) -> nat {
    if total > MAX_MISMATCH_REPORTS {
        MAX_MISMATCH_REPORTS as nat
    } else {
        total
    }
}

/// The line that says how many of `total` mismatches are not shown;
/// nothing where all are.
pub open spec fn overflow_text(total: nat) -> Seq<char> {
    if total > MAX_MISMATCH_REPORTS {
        " ... ("@ + decimal((total - MAX_MISMATCH_REPORTS) as nat)
            + " mismatching elements not shown)\n"@
    } else {
        Seq::<char>::empty()
    }
}

/// The report of `total` mismatches of which `lines` are shown, under a
/// comparator that describes itself as `description`.
pub open spec fn mismatch_report(
    total: nat,
    lines: Seq<Seq<char>>,
    description: Seq<char>,
) -> Seq<char> {
    "Matrices X (left) and Y (right) have "@ + decimal(total)
        + " mismatched element pairs.\nThe mismatched elements are listed below, in the format\n(row, col): x = X[[row, col]], y = Y[[row, col]].\n\n"@
        + listing(lines) + overflow_text(total) + "\nComparison criterion: "@ + description
}

/// Whether `lines` are the first mismatches of `mismatches` in words, as
/// many as a report shows.
pub open spec fn are_shown_lines<T: Display, E: ErrorText>(
    mismatches: Seq<MatrixElementComparisonFailure<T, E>>,
    lines: Seq<Seq<char>>,
) -> bool {
    &&& lines.len() == shown_count(mismatches.len())
    &&& forall|k: int| 0 <= k < lines.len() ==> is_element_text(mismatches[k], #[trigger] lines[k])
}

/// Whether `text` is the report of the mismatches.
pub open spec fn is_mismatch_report<T: Display, E: ErrorText>(
    mismatches: Seq<MatrixElementComparisonFailure<T, E>>,
    description: Seq<char>,
    text: Seq<char>,
) -> bool {
    exists|lines: Seq<Seq<char>>|
        are_shown_lines(mismatches, lines) && text == #[trigger] mismatch_report(
            mismatches.len(),
            lines,
            description,
        )
}

impl<T: Display, E: ErrorText> ElementsMismatch<T, E> {
    /// The report of the mismatches: how many there are, the first of them
    /// one to a line, how many are not shown, and the comparator.
    pub fn to_text(&self) -> (text: String)
        ensures
            is_mismatch_report(self.mismatches@, self.comparator_description@, text@),
    {
        let total: usize = self.mismatches.len();
        let shown: usize = if total > MAX_MISMATCH_REPORTS {
            MAX_MISMATCH_REPORTS
        } else {
            total
        };
        let mut text = String::from_str("Matrices X (left) and Y (right) have ");
        append_decimal(&mut text, total);
        text.append(
            " mismatched element pairs.\nThe mismatched elements are listed below, in the format\n(row, col): x = X[[row, col]], y = Y[[row, col]].\n\n",
        );
        let ghost head = text@;
        let ghost mut lines: Seq<Seq<char>> = Seq::empty();
        let mut k: usize = 0;
        while k < shown
            invariant
                k <= shown <= total,
                total == self.mismatches@.len(),
                lines.len() == k,
                forall|e: int|
                    0 <= e < k ==> is_element_text(self.mismatches@[e], #[trigger] lines[e]),
                text@ == head + listing(lines),
            decreases shown - k,
        {
            let line = self.mismatches[k].to_text();
            text.append(" ");
            text.append(line.as_str());
            text.append("\n");
            proof {
                let longer = lines.push(line@);
                assert(longer.drop_last() =~= lines);
                assert(text@ =~= head + listing(longer));
                lines = longer;
            }
            k += 1;
        }
        if total > MAX_MISMATCH_REPORTS {
            text.append(" ... (");
            append_decimal(&mut text, total - MAX_MISMATCH_REPORTS);
            text.append(" mismatching elements not shown)\n");
        }
        text.append("\nComparison criterion: ");
        text.append(self.comparator_description.as_str());
        proof {
            assert(text@ =~= mismatch_report(total as nat, lines, self.comparator_description@));
            assert(are_shown_lines(self.mismatches@, lines));
        }
        text
    }
}

/// Whether `text` is the failure in words.
pub open spec fn is_failure_text<T: Display, E: ErrorText>(
    failure: MatrixComparisonFailure<T, E>,
    text: Seq<char>,
) -> bool {
    match failure {
        MatrixComparisonFailure::MismatchedDimensions(mismatch) => text == dimension_mismatch_text(
            mismatch,
        ),
        MatrixComparisonFailure::MismatchedElements(elements) => is_mismatch_report(
            elements.mismatches@,
            elements.comparator_description@,
            text,
        ),
        MatrixComparisonFailure::SparseEntryOutOfBounds(entry) => text
            == "At least one sparse entry is out of bounds. Example: "@ + entry_text(entry) + "."@,
        MatrixComparisonFailure::DuplicateSparseEntry(entry) => text
            == "At least one duplicate sparse entry detected. Example: "@ + entry_text(entry)
            + "."@,
    }
}

impl<T: Display, E: ErrorText> MatrixComparisonFailure<T, E> {
    /// The failure in words.
    pub fn to_text(&self) -> (text: String)
        ensures
            is_failure_text(*self, text@),
    {
        match self {
            MatrixComparisonFailure::MismatchedDimensions(mismatch) => mismatch.to_text(),
            MatrixComparisonFailure::MismatchedElements(elements) => elements.to_text(),
            MatrixComparisonFailure::SparseEntryOutOfBounds(entry) => {
                let shown = entry.to_text();
                let mut text = String::from_str(
                    "At least one sparse entry is out of bounds. Example: ",
                );
                text.append(shown.as_str());
                text.append(".");
                text
            },
            MatrixComparisonFailure::DuplicateSparseEntry(entry) => {
                let shown = entry.to_text();
                let mut text = String::from_str(
                    "At least one duplicate sparse entry detected. Example: ",
                );
                text.append(shown.as_str());
                text.append(".");
                text
            },
        }
    }
}

/// The failure of a comparison of scalars in words, given those for the two
/// values and for the error.
pub open spec fn scalar_failure_text(
    left: Seq<char>,
    right: Seq<char>,
    error: Seq<char>,
    description: Seq<char>,
) -> Seq<char> {
    "Scalars x and y do not compare equal.\n\nx = "@ + left + ", y = "@ + right + ". "@ + error
        + "\n\nComparison criterion: "@ + description + "\n"@
}

/// Whether `text` is the failure in words.
pub open spec fn is_scalar_failure_text<T: Display, E: ErrorText>(
    failure: ScalarComparisonFailure<T, E>,
    text: Seq<char>,
) -> bool {
    exists|left: Seq<char>, right: Seq<char>, error: Seq<char>|
        {
            &&& is_displayed_as(failure.left, left)
            &&& is_displayed_as(failure.right, right)
            &&& failure.error.is_text(error)
            &&& #[trigger] scalar_failure_text(
                left,
                right,
                error,
                failure.comparator_description@,
            ) == text
        }
}

impl<T: Display, E: ErrorText> ScalarComparisonFailure<T, E> {
    /// The failure in words.
    pub fn to_text(&self) -> (text: String)
        ensures
            is_scalar_failure_text(*self, text@),
    {
        let left = self.left.to_string();
        let right = self.right.to_string();
        let error = self.error.to_text();
        let mut text = String::from_str("Scalars x and y do not compare equal.\n\nx = ");
        text.append(left.as_str());
        text.append(", y = ");
        text.append(right.as_str());
        text.append(". ");
        text.append(error.as_str());
        text.append("\n\nComparison criterion: ");
        text.append(self.comparator_description.as_str());
        text.append("\n");
        proof {
            assert(is_displayed_as(self.left, left@));
            assert(is_displayed_as(self.right, right@));
            assert(scalar_failure_text(left@, right@, error@, self.comparator_description@)
                == text@);
        }
        text
    }
}

} // verus!
