//! The element type of a matrix and the mathematical model of its arithmetic.
//!
//! The kernels are generic in the element type and ask of it only the
//! operations of [`Scalar`]. What a kernel returns is stated over an
//! [`Arithmetic`]: the mathematical functions that those operations compute.
//! A kernel's contract then holds for every `Arithmetic` that describes the
//! element type, so it says in which order and on which entries the
//! operations are applied, and nothing about the operations themselves.

use vstd::prelude::*;

verus! {

/// The operations that the kernels apply to matrix entries.
pub trait Scalar: Copy {
    /// The value that every sum starts from.
    fn zero() -> Self;

    /// The sum of `self` and `rhs`.
    fn plus(self, rhs: Self) -> Self;

    /// The product of `self` and `rhs`.
    fn times(self, rhs: Self) -> Self;

    /// Four multiply-accumulate steps side by side: in each lane, the sum of
    /// the accumulator and of the product of the two operands.
    fn fused_lanes(acc: [Self; 4], x: [Self; 4], y: [Self; 4]) -> [Self; 4];
}

/// Addition, multiplication and zero as mathematical functions.
#[verifier::reject_recursive_types(T)]
pub struct Arithmetic<T> {
    pub zero: T,
    pub add: spec_fn(T, T) -> T,
    pub mul: spec_fn(T, T) -> T,
}

impl<T> Arithmetic<T> {
    /// The result of `count` multiply-accumulate steps that start from `init`
    /// and visit the places `start`, `start + stride`, `start + 2 * stride`
    /// and so on of `x` and `y`, in that order: each step adds the product of
    /// the two entries at its place to what the steps before it gave.
    pub open spec fn accumulate(
        self,
        x: Seq<T>,
        y: Seq<T>,
        init: T,
        start: int,
        stride: int,
        count: nat,
    ) -> T
        decreases count,
    {
        if count == 0 {
            init
        } else {
            let at = start + stride * (count - 1);
            (self.add)(
                self.accumulate(x, y, init, start, stride, (count - 1) as nat),
                (self.mul)(x[at], y[at]),
            )
        }
    }

    /// The dot product summed strictly in sequence:
    /// `(((zero + x0 * y0) + x1 * y1) + ...)`.
    pub open spec fn dot_sequential(self, x: Seq<T>, y: Seq<T>) -> T {
        self.accumulate(x, y, self.zero, 0, 1, x.len())
    }

    /// What lane `lane` holds after the grouped part of a four-lane dot
    /// product: the sequential sum of the products at the places `lane`,
    /// `lane + 4`, `lane + 8`, ... below `4 * (x.len() / 4)`.
    pub open spec fn lane_sum(self, x: Seq<T>, y: Seq<T>, lane: int) -> T {
        self.accumulate(x, y, self.zero, lane, 4, x.len() / 4)
    }

    /// The four lane sums combined left to right.
    pub open spec fn horizontal_sum(self, x: Seq<T>, y: Seq<T>) -> T {
        (self.add)(
            (self.add)(
                (self.add)(self.lane_sum(x, y, 0), self.lane_sum(x, y, 1)),
                self.lane_sum(x, y, 2),
            ),
            self.lane_sum(x, y, 3),
        )
    }

    /// The dot product summed in four lanes: the head of length
    /// `4 * (x.len() / 4)` goes into four lane sums, the lane sums are
    /// combined left to right, and the remaining `x.len() % 4` products are
    /// added to that in sequence.
    pub open spec fn dot_lanes(self, x: Seq<T>, y: Seq<T>) -> T {
        let head = 4 * (x.len() as int / 4);
        self.accumulate(x, y, self.horizontal_sum(x, y), head, 1, (x.len() - head) as nat)
    }
}

impl<T: Scalar> Arithmetic<T> {
    /// The functions of this model are what the operations of `T` compute:
    /// whatever an operation returns is the model's value on its arguments.
    pub open spec fn describes_scalar(self) -> bool {
        &&& forall|z: T| #[trigger] call_ensures(T::zero, (), z) ==> z == self.zero
        &&& forall|x: T, y: T, r: T| #[trigger]
            call_ensures(T::plus, (x, y), r) ==> r == (self.add)(x, y)
        &&& forall|x: T, y: T, r: T| #[trigger]
            call_ensures(T::times, (x, y), r) ==> r == (self.mul)(x, y)
        &&& forall|acc: [T; 4], x: [T; 4], y: [T; 4], r: [T; 4]| #[trigger]
            call_ensures(T::fused_lanes, (acc, x, y), r) ==> forall|lane: int|
                0 <= lane < 4 ==> #[trigger] r[lane] == (self.add)(
                    acc[lane],
                    (self.mul)(x[lane], y[lane]),
                )
    }
}

} // verus!
