//! The values a failed comparison returns, and the transform that swaps the
//! roles of the two operands inside them.

use vstd::prelude::*;

verus! {

/// A `(row, col)` position in a matrix.
pub type Coordinate = (usize, usize);

/// One position at which the comparator rejected the pair of elements.
#[derive(Debug, Copy, Clone, PartialEq)]
pub struct MatrixElementComparisonFailure<T, E> {
    pub left: T,
    pub right: T,
    pub error: E,
    pub row: usize,
    pub col: usize,
}

impl<T, E> MatrixElementComparisonFailure<T, E> {
    /// The same failure seen from the other side: `left` and `right` trade places.
    pub open spec fn reversed(self) -> Self {
        MatrixElementComparisonFailure {
            left: self.right,
            right: self.left,
            error: self.error,
            row: self.row,
            col: self.col,
        }
    }

    /// The position of the failure.
    pub open spec fn coordinate(self) -> Coordinate {
        (self.row, self.col)
    }

    pub fn reverse(self) -> (r: Self)
        ensures
            r == self.reversed(),
    {
        MatrixElementComparisonFailure {
            left: self.right,
            right: self.left,
            error: self.error,
            row: self.row,
            col: self.col,
        }
    }
}

/// The shapes of two matrices that cannot be compared elementwise.
#[derive(Debug, Copy, Clone, PartialEq, Eq)]
pub struct DimensionMismatch {
    pub dim_left: (usize, usize),
    pub dim_right: (usize, usize),
}

impl DimensionMismatch {
    pub open spec fn reversed(self) -> Self {
        DimensionMismatch { dim_left: self.dim_right, dim_right: self.dim_left }
    }

    pub fn reverse(self) -> (r: Self)
        ensures
            r == self.reversed(),
    {
        DimensionMismatch { dim_left: self.dim_right, dim_right: self.dim_left }
    }
}

/// A sparse entry, tagged with the operand it was found in.
#[derive(Copy, Clone, Debug, PartialEq, Eq)]
pub enum Entry {
    Left(Coordinate),
    Right(Coordinate),
}

impl Entry {
    pub open spec fn reversed(self) -> Self {
        match self {
            Entry::Left(coord) => Entry::Right(coord),
            Entry::Right(coord) => Entry::Left(coord),
        }
    }

    /// The position of the entry, whichever side it is on.
    pub open spec fn coordinate(self) -> Coordinate {
        match self {
            Entry::Left(coord) => coord,
            Entry::Right(coord) => coord,
        }
    }

    pub fn reverse(&self) -> (r: Self)
        ensures
            r == self.reversed(),
    {
        match self {
            Entry::Left(coord) => Entry::Right(*coord),
            Entry::Right(coord) => Entry::Left(*coord),
        }
    }
}

/// All the positions at which two matrices of equal shape differ.
#[derive(Debug, Clone, PartialEq)]
pub struct ElementsMismatch<T, E> {
    pub comparator_description: String,
    pub mismatches: Vec<MatrixElementComparisonFailure<T, E>>,
}

/// What an [`ElementsMismatch`] holds, as mathematical values.
pub struct ElementsMismatchView<T, E> {
    pub comparator_description: Seq<char>,
    pub mismatches: Seq<MatrixElementComparisonFailure<T, E>>,
}

impl<T, E> ElementsMismatchView<T, E> {
    pub open spec fn reversed(self) -> Self {
        ElementsMismatchView {
            comparator_description: self.comparator_description,
            mismatches: Seq::new(self.mismatches.len(), |k: int| self.mismatches[k].reversed()),
        }
    }
}

impl<T, E> View for ElementsMismatch<T, E> {
    type V = ElementsMismatchView<T, E>;

    open spec fn view(&self) -> ElementsMismatchView<T, E> {
        ElementsMismatchView {
            comparator_description: self.comparator_description@,
            mismatches: self.mismatches@,
        }
    }
}

/// Moves the failures of `source` into a new vector, last one first, each
/// with its two sides swapped when `flip` is set.
fn drain_backwards<T, E>(
    source: Vec<MatrixElementComparisonFailure<T, E>>,
    flip: bool,
) -> (r: Vec<MatrixElementComparisonFailure<T, E>>)
    ensures
        r@.len() == source@.len(),
        forall|k: int|
            0 <= k < r@.len() ==> #[trigger] r@[k] == if flip {
                source@[source@.len() - 1 - k].reversed()
            } else {
                source@[source@.len() - 1 - k]
            },
{
    let ghost whole = source@;
    let mut rest = source;
    let mut out: Vec<MatrixElementComparisonFailure<T, E>> = Vec::new();
    while rest.len() > 0
        invariant
            rest@.len() + out@.len() == whole.len(),
            forall|k: int| 0 <= k < rest@.len() ==> #[trigger] rest@[k] == whole[k],
            forall|k: int|
                0 <= k < out@.len() ==> #[trigger] out@[k] == if flip {
                    whole[whole.len() - 1 - k].reversed()
                } else {
                    whole[whole.len() - 1 - k]
                },
        decreases rest@.len(),
    {
        let item = rest.pop().unwrap();
        if flip {
            out.push(item.reverse());
        } else {
            out.push(item);
        }
    }
    out
}

impl<T, E> ElementsMismatch<T, E> {
    pub fn reverse(self) -> (r: Self)
        ensures
            r@ == self@.reversed(),
    {
        let ghost before = self@;
        let backwards = drain_backwards(self.mismatches, true);
        let mismatches = drain_backwards(backwards, false);
        let r = ElementsMismatch { comparator_description: self.comparator_description, mismatches };
        assert(r@.mismatches =~= before.reversed().mismatches);
        r
    }
}

/// Why two matrices did not compare equal.
#[derive(Debug, Clone, PartialEq)]
pub enum MatrixComparisonFailure<T, E> {
    MismatchedDimensions(DimensionMismatch),
    MismatchedElements(ElementsMismatch<T, E>),
    SparseEntryOutOfBounds(Entry),
    DuplicateSparseEntry(Entry),
}

/// What a [`MatrixComparisonFailure`] holds, as mathematical values.
pub enum MatrixComparisonFailureView<T, E> {
    MismatchedDimensions(DimensionMismatch),
    MismatchedElements(ElementsMismatchView<T, E>),
    SparseEntryOutOfBounds(Entry),
    DuplicateSparseEntry(Entry),
}

impl<T, E> MatrixComparisonFailureView<T, E> {
    /// The failure with the roles of the two operands interchanged; the kind
    /// of failure stays what it was.
    pub open spec fn reversed(self) -> Self {
        match self {
            MatrixComparisonFailureView::MismatchedDimensions(dim) =>
                MatrixComparisonFailureView::MismatchedDimensions(dim.reversed()),
            MatrixComparisonFailureView::MismatchedElements(elements) =>
                MatrixComparisonFailureView::MismatchedElements(elements.reversed()),
            MatrixComparisonFailureView::SparseEntryOutOfBounds(entry) =>
                MatrixComparisonFailureView::SparseEntryOutOfBounds(entry.reversed()),
            MatrixComparisonFailureView::DuplicateSparseEntry(entry) =>
                MatrixComparisonFailureView::DuplicateSparseEntry(entry.reversed()),
        }
    }
}

impl<T, E> View for MatrixComparisonFailure<T, E> {
    type V = MatrixComparisonFailureView<T, E>;

    open spec fn view(&self) -> MatrixComparisonFailureView<T, E> {
        match self {
            MatrixComparisonFailure::MismatchedDimensions(dim) =>
                MatrixComparisonFailureView::MismatchedDimensions(*dim),
            MatrixComparisonFailure::MismatchedElements(elements) =>
                MatrixComparisonFailureView::MismatchedElements(elements@),
            MatrixComparisonFailure::SparseEntryOutOfBounds(entry) =>
                MatrixComparisonFailureView::SparseEntryOutOfBounds(*entry),
            MatrixComparisonFailure::DuplicateSparseEntry(entry) =>
                MatrixComparisonFailureView::DuplicateSparseEntry(*entry),
        }
    }
}

impl<T, E> MatrixComparisonFailure<T, E> {
    /// Interchanges the roles of the left and the right operand.
    pub fn reverse(self) -> (r: Self)
        ensures
            r@ == self@.reversed(),
    {
        match self {
            MatrixComparisonFailure::MismatchedDimensions(dim) =>
                MatrixComparisonFailure::MismatchedDimensions(dim.reverse()),
            MatrixComparisonFailure::MismatchedElements(elements) =>
                MatrixComparisonFailure::MismatchedElements(elements.reverse()),
            MatrixComparisonFailure::SparseEntryOutOfBounds(entry) =>
                MatrixComparisonFailure::SparseEntryOutOfBounds(entry.reverse()),
            MatrixComparisonFailure::DuplicateSparseEntry(entry) =>
                MatrixComparisonFailure::DuplicateSparseEntry(entry.reverse()),
        }
    }
}

/// The outcome of a comparison, as mathematical values.
pub open spec fn result_view<T, E>(result: Result<(), MatrixComparisonFailure<T, E>>) -> Result<
    (),
    MatrixComparisonFailureView<T, E>,
> {
    match result {
        Ok(()) => Ok(()),
        Err(failure) => Err(failure@),
    }
}

/// A comparison outcome with the roles of the two operands interchanged.
pub open spec fn reversed_result<T, E>(
    result: Result<(), MatrixComparisonFailureView<T, E>>,
) -> Result<(), MatrixComparisonFailureView<T, E>> {
    match result {
        Ok(()) => Ok(()),
        Err(failure) => Err(failure.reversed()),
    }
}

/// Swapping the operands twice gives back the failure one started from.
pub proof fn reverse_is_an_involution<T, E>(failure: MatrixComparisonFailureView<T, E>)
    ensures
        failure.reversed().reversed() == failure,
{
    match failure {
        MatrixComparisonFailureView::MismatchedElements(elements) => {
            assert(elements.reversed().reversed().mismatches =~= elements.mismatches);
        },
        _ => {},
    }
}

} // verus!
