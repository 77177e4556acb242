//! Laws of the products that hold where the entries' arithmetic has the
//! algebraic properties they name.
//!
//! Floating-point arithmetic has none of these properties exactly, so for it
//! the laws describe what the strategies would return without rounding; for
//! exact arithmetic they hold as stated.

use crate::matrix::{column, is_matrix, width};
use crate::scalar::Arithmetic;
use vstd::prelude::*;

verus! {

/// The `k` by `k` matrix with `one` on the diagonal and `zero` elsewhere.
pub open spec fn identity<T>(k: nat, zero: T, one: T) -> Seq<Seq<T>> {
    Seq::new(
        k,
        |i: int|
            Seq::new(
                k,
                |j: int|
                    if i == j {
                        one
                    } else {
                        zero
                    },
            ),
    )
}

impl<T> Arithmetic<T> {
    /// Adding zero on either side changes nothing.
    pub open spec fn zero_is_neutral(self) -> bool {
        &&& forall|x: T| #[trigger] (self.add)(x, self.zero) == x
        &&& forall|x: T| #[trigger] (self.add)(self.zero, x) == x
    }

    /// Multiplying by zero on either side gives zero.
    pub open spec fn zero_annihilates(self) -> bool {
        &&& forall|x: T| #[trigger] (self.mul)(x, self.zero) == self.zero
        &&& forall|x: T| #[trigger] (self.mul)(self.zero, x) == self.zero
    }

    /// Multiplying by `one` on either side changes nothing.
    pub open spec fn is_unit(self, one: T) -> bool {
        &&& forall|x: T| #[trigger] (self.mul)(x, one) == x
        &&& forall|x: T| #[trigger] (self.mul)(one, x) == x
    }

    /// Sums may be regrouped.
    pub open spec fn add_is_associative(self) -> bool {
        forall|x: T, y: T, z: T| #[trigger]
            (self.add)((self.add)(x, y), z) == (self.add)(x, (self.add)(y, z))
    }

    /// Sums may be reordered.
    pub open spec fn add_is_commutative(self) -> bool {
        forall|x: T, y: T| #[trigger] (self.add)(x, y) == (self.add)(y, x)
    }
}

/// Where at most one of the products that an accumulation visits differs
/// from zero, the accumulation returns what it started from, with that one
/// product added if it is visited. `hit` is the step at which the product is
/// visited; a `hit` outside `0..count` stands for no step.
proof fn lemma_accumulate_single<T>(
    ar: Arithmetic<T>,
    x: Seq<T>,
    y: Seq<T>,
    init: T,
    start: int,
    stride: int,
    count: nat,
    hit: int,
)
    requires
        ar.zero_is_neutral(),
        forall|q: int|
            0 <= q < count && q != hit ==> (ar.mul)(
                #[trigger] x[start + stride * q],
                y[start + stride * q],
            ) == ar.zero,
    ensures
        ar.accumulate(x, y, init, start, stride, count) == if 0 <= hit < count {
            (ar.add)(init, (ar.mul)(x[start + stride * hit], y[start + stride * hit]))
        } else {
            init
        },
    decreases count,
{
    if count > 0 {
        lemma_accumulate_single(ar, x, y, init, start, stride, (count - 1) as nat, hit);
        let at = start + stride * (count - 1);
        if hit != count - 1 {
            assert((ar.mul)(x[at], y[at]) == ar.zero);
        }
    }
}

/// Where every product of two rows but the one at place `j` is zero, both
/// the sequential and the four-lane dot product of the rows are the product
/// at place `j`.
pub proof fn lemma_dot_of_single_product<T>(ar: Arithmetic<T>, x: Seq<T>, y: Seq<T>, j: int)
    requires
        ar.zero_is_neutral(),
        0 <= j < x.len(),
        forall|t: int| 0 <= t < x.len() && t != j ==> (ar.mul)(#[trigger] x[t], y[t]) == ar.zero,
    ensures
        ar.dot_sequential(x, y) == (ar.mul)(x[j], y[j]),
        ar.dot_lanes(x, y) == (ar.mul)(x[j], y[j]),
{
    let len = x.len() as int;
    let groups = len / 4;
    let head = 4 * groups;
    let p = (ar.mul)(x[j], y[j]);
    lemma_accumulate_single(ar, x, y, ar.zero, 0, 1, x.len(), j);
    assert(ar.dot_sequential(x, y) == p);
    let lane_hit = |lane: int|
        if j < head && j % 4 == lane {
            j / 4
        } else {
            -1
        };
    assert forall|lane: int| 0 <= lane < 4 implies #[trigger] ar.lane_sum(x, y, lane) == if j
        < head && j % 4 == lane {
        p
    } else {
        ar.zero
    } by {
        assert forall|q: int| 0 <= q < groups && q != lane_hit(lane) implies (ar.mul)(
            #[trigger] x[lane + 4 * q],
            y[lane + 4 * q],
        ) == ar.zero by {
            assert(lane + 4 * q != j);
        }
        lemma_accumulate_single(ar, x, y, ar.zero, lane, 4, groups as nat, lane_hit(lane));
    }
    assert(ar.lane_sum(x, y, 0) == if j < head && j % 4 == 0 { p } else { ar.zero });
    assert(ar.lane_sum(x, y, 1) == if j < head && j % 4 == 1 { p } else { ar.zero });
    assert(ar.lane_sum(x, y, 2) == if j < head && j % 4 == 2 { p } else { ar.zero });
    assert(ar.lane_sum(x, y, 3) == if j < head && j % 4 == 3 { p } else { ar.zero });
    let h = ar.horizontal_sum(x, y);
    assert(h == if j < head { p } else { ar.zero });
    let tail_hit = if j >= head { j - head } else { -1 };
    assert forall|q: int| 0 <= q < len - head && q != tail_hit implies (ar.mul)(
        #[trigger] x[head + 1 * q],
        y[head + 1 * q],
    ) == ar.zero by {
        assert(head + 1 * q != j);
    }
    lemma_accumulate_single(ar, x, y, h, head, 1, (len - head) as nat, tail_hit);
}

/// Multiplying by the identity on the right gives the matrix back, with the
/// sequential and with the four-lane product.
pub proof fn lemma_identity_on_the_right<T>(
    ar: Arithmetic<T>,
    one: T,
    a: Seq<Seq<T>>,
    n: nat,
    k: nat,
)
    requires
        ar.zero_is_neutral(),
        ar.zero_annihilates(),
        ar.is_unit(one),
        is_matrix(a, n, k),
    ensures
        ar.product(a, identity(k, ar.zero, one)) == a,
        ar.product_lanes(a, identity(k, ar.zero, one)) == a,
{
    let id = identity(k, ar.zero, one);
    assert(width(id) == k);
    assert forall|i: int, j: int| 0 <= i < n && 0 <= j < k implies ar.dot_sequential(
        #[trigger] a[i],
        #[trigger] column(id, j),
    ) == a[i][j] && ar.dot_lanes(a[i], column(id, j)) == a[i][j] by {
        {
            let x = a[i];
            let y = column(id, j);
            assert forall|t: int| 0 <= t < x.len() && t != j implies (ar.mul)(
                #[trigger] x[t],
                y[t],
            ) == ar.zero by {
                assert(y[t] == ar.zero);
            }
            assert(y[j] == one);
            lemma_dot_of_single_product(ar, x, y, j);
        }
    }
    assert forall|i: int| 0 <= i < n implies #[trigger] ar.product(a, id)[i] =~= a[i] by {}
    assert forall|i: int| 0 <= i < n implies #[trigger] ar.product_lanes(a, id)[i] =~= a[i] by {}
    assert(ar.product(a, id) =~= a);
    assert(ar.product_lanes(a, id) =~= a);
}

/// Multiplying by the identity on the left gives the matrix back, with the
/// sequential and with the four-lane product.
pub proof fn lemma_identity_on_the_left<T>(
    ar: Arithmetic<T>,
    one: T,
    b: Seq<Seq<T>>,
    k: nat,
    m: nat,
)
    requires
        ar.zero_is_neutral(),
        ar.zero_annihilates(),
        ar.is_unit(one),
        is_matrix(b, k, m),
    ensures
        ar.product(identity(k, ar.zero, one), b) == b,
        ar.product_lanes(identity(k, ar.zero, one), b) == b,
{
    let id = identity(k, ar.zero, one);
    assert forall|i: int, j: int| 0 <= i < k && 0 <= j < m implies ar.dot_sequential(
        #[trigger] id[i],
        #[trigger] column(b, j),
    ) == b[i][j] && ar.dot_lanes(id[i], column(b, j)) == b[i][j] by {
        {
            let x = id[i];
            let y = column(b, j);
            assert forall|t: int| 0 <= t < x.len() && t != i implies (ar.mul)(
                #[trigger] x[t],
                y[t],
            ) == ar.zero by {
                assert(x[t] == ar.zero);
            }
            assert(x[i] == one);
            assert(y[i] == b[i][j]);
            lemma_dot_of_single_product(ar, x, y, i);
        }
    }
    assert forall|i: int| 0 <= i < k implies #[trigger] ar.product(id, b)[i] =~= b[i] by {
        assert(width(b) == m);
    }
    assert forall|i: int| 0 <= i < k implies #[trigger] ar.product_lanes(id, b)[i] =~= b[i] by {
        assert(width(b) == m);
    }
    assert(ar.product(id, b) =~= b);
    assert(ar.product_lanes(id, b) =~= b);
}

/// In a sum of three, the last two may change places.
proof fn lemma_swap<T>(ar: Arithmetic<T>, a: T, b: T, c: T)
    requires
        ar.add_is_associative(),
        ar.add_is_commutative(),
    ensures
        (ar.add)((ar.add)(a, b), c) == (ar.add)((ar.add)(a, c), b),
{
    assert((ar.add)((ar.add)(a, b), c) == (ar.add)(a, (ar.add)(b, c)));
    assert((ar.add)(b, c) == (ar.add)(c, b));
    assert((ar.add)((ar.add)(a, c), b) == (ar.add)(a, (ar.add)(c, b)));
}

/// Adding one term to each of four lanes and then combining the lanes gives
/// what combining the lanes first and then adding the four terms gives.
proof fn lemma_regroup<T>(ar: Arithmetic<T>, l: Seq<T>, p: Seq<T>)
    requires
        ar.add_is_associative(),
        ar.add_is_commutative(),
        l.len() == 4,
        p.len() == 4,
    ensures
        (ar.add)(
            (ar.add)(
                (ar.add)((ar.add)(l[0], p[0]), (ar.add)(l[1], p[1])),
                (ar.add)(l[2], p[2]),
            ),
            (ar.add)(l[3], p[3]),
        ) == (ar.add)(
            (ar.add)(
                (ar.add)(
                    (ar.add)((ar.add)((ar.add)((ar.add)(l[0], l[1]), l[2]), l[3]), p[0]),
                    p[1],
                ),
                p[2],
            ),
            p[3],
        ),
{
    let f = ar.add;
    let a1 = f(l[0], l[1]);
    let a2 = f(a1, l[2]);
    let a3 = f(a2, l[3]);
    // the first two lanes
    let s1 = f(f(l[0], p[0]), f(l[1], p[1]));
    assert(s1 == f(f(f(l[0], p[0]), l[1]), p[1]));
    lemma_swap(ar, l[0], p[0], l[1]);
    assert(s1 == f(f(a1, p[0]), p[1]));
    // the third lane
    let s2 = f(s1, f(l[2], p[2]));
    assert(s2 == f(f(s1, l[2]), p[2]));
    lemma_swap(ar, f(a1, p[0]), p[1], l[2]);
    lemma_swap(ar, a1, p[0], l[2]);
    assert(f(s1, l[2]) == f(f(a2, p[0]), p[1]));
    // the fourth lane
    let s3 = f(s2, f(l[3], p[3]));
    assert(s3 == f(f(s2, l[3]), p[3]));
    lemma_swap(ar, f(f(a2, p[0]), p[1]), p[2], l[3]);
    lemma_swap(ar, f(a2, p[0]), p[1], l[3]);
    lemma_swap(ar, a2, p[0], l[3]);
    assert(f(s2, l[3]) == f(f(f(a3, p[0]), p[1]), p[2]));
}

/// A sequential accumulation may be cut in two: the second part starts from
/// what the first part gave.
proof fn lemma_accumulate_split<T>(
    ar: Arithmetic<T>,
    x: Seq<T>,
    y: Seq<T>,
    init: T,
    first: nat,
    second: nat,
)
    ensures
        ar.accumulate(x, y, init, 0, 1, first + second) == ar.accumulate(
            x,
            y,
            ar.accumulate(x, y, init, 0, 1, first),
            first as int,
            1,
            second,
        ),
    decreases second,
{
    if second > 0 {
        lemma_accumulate_split(ar, x, y, init, first, (second - 1) as nat);
        assert((first + second - 1) as nat == first + (second - 1) as nat);
    }
}

/// After `groups` groups of four, the four lane accumulators add up to what
/// the sequential accumulation holds after `4 * groups` steps.
proof fn lemma_lanes_add_up<T>(ar: Arithmetic<T>, x: Seq<T>, y: Seq<T>, groups: nat)
    requires
        ar.zero_is_neutral(),
        ar.add_is_associative(),
        ar.add_is_commutative(),
    ensures
        (ar.add)(
            (ar.add)(
                (ar.add)(
                    ar.accumulate(x, y, ar.zero, 0, 4, groups),
                    ar.accumulate(x, y, ar.zero, 1, 4, groups),
                ),
                ar.accumulate(x, y, ar.zero, 2, 4, groups),
            ),
            ar.accumulate(x, y, ar.zero, 3, 4, groups),
        ) == ar.accumulate(x, y, ar.zero, 0, 1, 4 * groups),
    decreases groups,
{
    if groups > 0 {
        let before = (groups - 1) as nat;
        lemma_lanes_add_up(ar, x, y, before);
        let base = 4 * before;
        let l = Seq::new(4, |lane: int| ar.accumulate(x, y, ar.zero, lane, 4, before));
        let p = Seq::new(4, |lane: int| (ar.mul)(x[base + lane], y[base + lane]));
        lemma_regroup(ar, l, p);
        assert forall|lane: int| 0 <= lane < 4 implies ar.accumulate(
            x,
            y,
            ar.zero,
            lane,
            4,
            groups,
        ) == (ar.add)(#[trigger] l[lane], p[lane]) by {
            assert(lane + 4 * (groups - 1) == base + lane);
        }
        let s0 = ar.accumulate(x, y, ar.zero, 0, 1, base as nat);
        let s1 = ar.accumulate(x, y, ar.zero, 0, 1, (base + 1) as nat);
        let s2 = ar.accumulate(x, y, ar.zero, 0, 1, (base + 2) as nat);
        let s3 = ar.accumulate(x, y, ar.zero, 0, 1, (base + 3) as nat);
        let s4 = ar.accumulate(x, y, ar.zero, 0, 1, (base + 4) as nat);
        assert(s1 == (ar.add)(s0, p[0])) by {
            assert(0 + 1 * (base + 1 - 1) == base + 0);
        }
        assert(s2 == (ar.add)(s1, p[1])) by {
            assert(0 + 1 * (base + 2 - 1) == base + 1);
        }
        assert(s3 == (ar.add)(s2, p[2])) by {
            assert(0 + 1 * (base + 3 - 1) == base + 2);
        }
        assert(s4 == (ar.add)(s3, p[3])) by {
            assert(0 + 1 * (base + 4 - 1) == base + 3);
        }
        assert(base + 4 == 4 * groups);
    }
}

/// Where sums may be regrouped and reordered and zero is neutral, the
/// four-lane dot product is the sequential dot product.
pub proof fn lemma_dot_lanes_is_sequential<T>(ar: Arithmetic<T>, x: Seq<T>, y: Seq<T>)
    requires
        ar.zero_is_neutral(),
        ar.add_is_associative(),
        ar.add_is_commutative(),
    ensures
        ar.dot_lanes(x, y) == ar.dot_sequential(x, y),
{
    let len = x.len();
    let groups = len / 4;
    let head = 4 * groups;
    lemma_lanes_add_up(ar, x, y, groups);
    lemma_accumulate_split(ar, x, y, ar.zero, head, (len - head) as nat);
    assert(head + (len - head) as nat == len);
}

/// Where sums may be regrouped and reordered and zero is neutral, the
/// four-lane product is the sequential product.
pub proof fn lemma_product_lanes_is_product<T>(ar: Arithmetic<T>, a: Seq<Seq<T>>, b: Seq<Seq<T>>)
    requires
        ar.zero_is_neutral(),
        ar.add_is_associative(),
        ar.add_is_commutative(),
    ensures
        ar.product_lanes(a, b) == ar.product(a, b),
{
    assert forall|i: int| 0 <= i < a.len() implies #[trigger] ar.product_lanes(a, b)[i]
        =~= ar.product(a, b)[i] by {
        assert forall|j: int| 0 <= j < width(b) implies ar.dot_lanes(a[i], column(b, j))
            == ar.dot_sequential(a[i], column(b, j)) by {
            lemma_dot_lanes_is_sequential(ar, a[i], column(b, j));
        }
    }
    assert(ar.product_lanes(a, b) =~= ar.product(a, b));
}

} // verus!
