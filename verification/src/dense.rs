//! Dense arrays of binary64 values in one, two and four dimensions.
//!
//! The arrays are those of the `ndarray` crate. Verus does not look inside
//! them: what an array holds is named by a specification function, and the
//! few calls that reach into `ndarray` state their effect on those names.

use crate::binary64::{cap, capped, exceeds, greater, is_nan, nan};
use vstd::prelude::*;

verus! {

/// An axis length, or 1 where the axis is empty.
pub open spec fn nonzero(n: nat) -> nat {
    if n == 0 {
        1
    } else {
        n
    }
}

/// Whether the element at `i` is the largest of `s`: none exceeds it, and it
/// exceeds all before it.
pub open spec fn is_largest(s: Seq<u64>, i: int) -> bool {
    &&& 0 <= i < s.len()
    &&& forall|j: int| 0 <= j < s.len() ==> !greater(#[trigger] s[j], s[i])
    &&& forall|j: int| 0 <= j < i ==> greater(s[i], #[trigger] s[j])
}

/// Whether `s` holds what is not a number.
pub open spec fn holds_nan(s: Seq<u64>) -> bool {
    exists|j: int| 0 <= j < s.len() && nan(#[trigger] s[j])
}

/// A one-dimensional array, held in an `ndarray::Array1`.
#[verifier::external_body]
pub struct Array1D {
    inner: ndarray::Array1<u64>,
}

/// The elements of a one-dimensional array, in order.
pub uninterp spec fn array1_items(a: Array1D) -> Seq<u64>;

/// A two-dimensional array, held in an `ndarray::Array2`: rows of equal length.
#[verifier::external_body]
pub struct Array2D {
    inner: ndarray::Array2<u64>,
}

/// The numbers of rows and of columns of a two-dimensional array.
pub uninterp spec fn array2_shape(a: Array2D) -> (nat, nat);

/// The elements of a two-dimensional array, by row and column.
pub uninterp spec fn array2_items(a: Array2D) -> Map<(int, int), u64>;

/// A four-dimensional array, held in an `ndarray::Array4`.
#[verifier::external_body]
pub struct Array4D {
    inner: ndarray::Array4<u64>,
}

/// The lengths of the four axes of a four-dimensional array.
pub uninterp spec fn array4_shape(a: Array4D) -> (nat, nat, nat, nat);

/// The elements of a four-dimensional array, by their four indices.
pub uninterp spec fn array4_items(a: Array4D) -> Map<(int, int, int, int), u64>;

impl View for Array1D {
    type V = Seq<u64>;

    open spec fn view(&self) -> Seq<u64> {
        array1_items(*self)
    }
}

/// `ndarray::Array1::from_vec`: the array holds the vector's elements in their order.
#[verifier::external_body]
fn array1_from_vec(values: Vec<u64>) -> (a: Array1D)
    ensures
        array1_items(a) == values@,
{
    Array1D { inner: ndarray::Array1::from_vec(values) }
}

/// `ndarray::ArrayBase::len`: the number of elements.
#[verifier::external_body]
fn array1_len(a: &Array1D) -> (n: usize)
    ensures
        n == array1_items(*a).len(),
{
    a.inner.len()
}

/// Indexing a one-dimensional `ndarray` array, which panics out of bounds: the element at `i`.
#[verifier::external_body]
pub(crate) fn array1_index(a: &Array1D, i: usize) -> (x: u64)
    requires
        i < array1_items(*a).len(),
    ensures
        x == array1_items(*a)[i as int],
{
    a.inner[i]
}

/// `Clone` of an `ndarray` array: the copy holds the same elements.
#[verifier::external_body]
fn array1_clone(a: &Array1D) -> (copy: Array1D)
    ensures
        array1_items(copy) == array1_items(*a),
{
    Array1D { inner: a.inner.clone() }
}

/// `ndarray::ArrayBase::from_shape_vec` with a shape of two lengths: fails
/// unless the product of the lengths that are not zero fits in `isize` and the
/// vector has one element for each index; else the array has that shape and
/// holds the vector's elements row by row.
#[verifier::external_body]
fn array2_from_shape_vec(rows: usize, cols: usize, values: Vec<u64>) -> (a: Option<Array2D>)
    ensures
        a.is_some() == (nonzero(rows as nat) * nonzero(cols as nat) <= isize::MAX && rows * cols
            == values@.len()),
        a is Some ==> array2_shape(a->0) == (rows as nat, cols as nat),
        a is Some ==> forall|s: int, i: int|
            0 <= s < rows && 0 <= i < cols ==> #[trigger] array2_items(a->0)[(s, i)]
                == values@[s * cols + i],
{
    ndarray::Array2::from_shape_vec((rows, cols), values).ok().map(|inner| Array2D { inner })
}

/// `ndarray::ArrayBase::dim` on two dimensions: the numbers of rows and of columns.
#[verifier::external_body]
fn array2_dim(a: &Array2D) -> (d: (usize, usize))
    ensures
        d.0 == array2_shape(*a).0,
        d.1 == array2_shape(*a).1,
{
    a.inner.dim()
}

/// Indexing a two-dimensional `ndarray` array, which panics out of bounds:
/// the element in row `s` and column `i`.
#[verifier::external_body]
fn array2_index(a: &Array2D, s: usize, i: usize) -> (x: u64)
    requires
        s < array2_shape(*a).0,
        i < array2_shape(*a).1,
    ensures
        x == array2_items(*a)[(s as int, i as int)],
{
    a.inner[[s, i]]
}

/// `ndarray::ArrayBase::index_axis_mut` along axis 1, which panics out of
/// bounds, and `fill` on the view it gives: column `i` holds `value` in every
/// row, and nothing else changes.
#[verifier::external_body]
pub(crate) fn array2_fill_column(a: &mut Array2D, i: usize, value: u64)
    requires
        i < array2_shape(*old(a)).1,
    ensures
        array2_shape(*final(a)) == array2_shape(*old(a)),
        forall|s: int, j: int|
            0 <= s < array2_shape(*old(a)).0 && 0 <= j < array2_shape(*old(a)).1
                ==> #[trigger] array2_items(*final(a))[(s, j)] == if j == i {
                value
            } else {
                array2_items(*old(a))[(s, j)]
            },
{
    a.inner.index_axis_mut(ndarray::Axis(1), i).fill(value);
}

/// `ndarray::ArrayBase::map_inplace` with a closure that caps the element:
/// every element is brought down to `cutoff` where it exceeds it.
#[verifier::external_body]
pub(crate) fn array2_cap(a: &mut Array2D, cutoff: u64)
    ensures
        array2_shape(*final(a)) == array2_shape(*old(a)),
        forall|s: int, i: int|
            0 <= s < array2_shape(*old(a)).0 && 0 <= i < array2_shape(*old(a)).1
                ==> #[trigger] array2_items(*final(a))[(s, i)] == capped(
                array2_items(*old(a))[(s, i)],
                cutoff,
            ),
{
    a.inner.map_inplace(|x| *x = cap(*x, cutoff));
}

/// `Clone` of an `ndarray` array: the copy has the same shape and holds the same elements.
#[verifier::external_body]
fn array2_clone(a: &Array2D) -> (copy: Array2D)
    ensures
        array2_shape(copy) == array2_shape(*a),
        forall|s: int, i: int|
            0 <= s < array2_shape(*a).0 && 0 <= i < array2_shape(*a).1
                ==> #[trigger] array2_items(copy)[(s, i)] == array2_items(*a)[(s, i)],
{
    Array2D { inner: a.inner.clone() }
}

/// `ndarray::ArrayBase::from_shape_vec` with a shape of four lengths: fails
/// unless the product of the lengths that are not zero fits in `isize` and the
/// vector has one element for each index; else the array has that shape and
/// holds the vector's elements with the last index running fastest.
#[verifier::external_body]
fn array4_from_shape_vec(shape: (usize, usize, usize, usize), values: Vec<u64>) -> (a: Option<
    Array4D,
>)
    ensures
        a.is_some() == (nonzero(shape.0 as nat) * nonzero(shape.1 as nat) * nonzero(
            shape.2 as nat,
        ) * nonzero(shape.3 as nat) <= isize::MAX && shape.0 * shape.1 * shape.2 * shape.3
            == values@.len()),
        a is Some ==> array4_shape(a->0) == (
            shape.0 as nat,
            shape.1 as nat,
            shape.2 as nat,
            shape.3 as nat,
        ),
        a is Some ==> forall|s: int, x: int, y: int, z: int|
            0 <= s < shape.0 && 0 <= x < shape.1 && 0 <= y < shape.2 && 0 <= z < shape.3
                ==> #[trigger] array4_items(a->0)[(s, x, y, z)] == values@[((s * shape.1 + x)
                * shape.2 + y) * shape.3 + z],
{
    ndarray::Array4::from_shape_vec(shape, values).ok().map(|inner| Array4D { inner })
}

/// `ndarray::ArrayBase::dim` on four dimensions: the lengths of the four axes.
#[verifier::external_body]
fn array4_dim(a: &Array4D) -> (d: (usize, usize, usize, usize))
    ensures
        d.0 == array4_shape(*a).0,
        d.1 == array4_shape(*a).1,
        d.2 == array4_shape(*a).2,
        d.3 == array4_shape(*a).3,
{
    a.inner.dim()
}

/// Indexing a four-dimensional `ndarray` array, which panics out of bounds:
/// the element at the four indices.
#[verifier::external_body]
fn array4_index(a: &Array4D, s: usize, x: usize, y: usize, z: usize) -> (v: u64)
    requires
        s < array4_shape(*a).0,
        x < array4_shape(*a).1,
        y < array4_shape(*a).2,
        z < array4_shape(*a).3,
    ensures
        v == array4_items(*a)[(s as int, x as int, y as int, z as int)],
{
    a.inner[[s, x, y, z]]
}

/// `ndarray::ArrayBase::map_inplace` with a closure that caps the element:
/// every element is brought down to `cutoff` where it exceeds it.
#[verifier::external_body]
pub(crate) fn array4_cap(a: &mut Array4D, cutoff: u64)
    ensures
        array4_shape(*final(a)) == array4_shape(*old(a)),
        forall|s: int, x: int, y: int, z: int|
            0 <= s < array4_shape(*old(a)).0 && 0 <= x < array4_shape(*old(a)).1 && 0 <= y
                < array4_shape(*old(a)).2 && 0 <= z < array4_shape(*old(a)).3
                ==> #[trigger] array4_items(*final(a))[(s, x, y, z)] == capped(
                array4_items(*old(a))[(s, x, y, z)],
                cutoff,
            ),
{
    a.inner.map_inplace(|v| *v = cap(*v, cutoff));
}

/// `Clone` of an `ndarray` array: the copy has the same shape and holds the same elements.
#[verifier::external_body]
fn array4_clone(a: &Array4D) -> (copy: Array4D)
    ensures
        array4_shape(copy) == array4_shape(*a),
        forall|s: int, x: int, y: int, z: int|
            0 <= s < array4_shape(*a).0 && 0 <= x < array4_shape(*a).1 && 0 <= y < array4_shape(
                *a,
            ).2 && 0 <= z < array4_shape(*a).3 ==> #[trigger] array4_items(copy)[(s, x, y, z)]
                == array4_items(*a)[(s, x, y, z)],
{
    Array4D { inner: a.inner.clone() }
}

impl Clone for Array1D {
    fn clone(&self) -> (a: Array1D)
        ensures
            a@ == self@,
    {
        array1_clone(self)
    }
}

impl Clone for Array2D {
    fn clone(&self) -> (a: Array2D)
        ensures
            a.same(*self),
    {
        array2_clone(self)
    }
}

impl Clone for Array4D {
    fn clone(&self) -> (a: Array4D)
        ensures
            a.same(*self),
    {
        array4_clone(self)
    }
}

impl Array1D {
    /// An array of the elements of `values`, in their order.
    pub fn from_vec(values: Vec<u64>) -> (a: Array1D)
        ensures
            a@ == values@,
    {
        array1_from_vec(values)
    }

    /// The number of elements.
    pub fn len(&self) -> (n: usize)
        ensures
            n == self@.len(),
    {
        array1_len(self)
    }

    /// The element at `i`, if there is one.
    pub fn get(&self, i: usize) -> (x: Option<u64>)
        ensures
            x == if i < self@.len() { Some(self@[i as int]) } else { None },
    {
        if i < array1_len(self) {
            Some(array1_index(self, i))
        } else {
            None
        }
    }

    /// The largest element: one that none exceeds, and the first of them.
    /// There is none where the array is empty or holds what is not a number.
    pub fn max(&self) -> (largest: Option<u64>)
        ensures
            largest is None <==> self@.len() == 0 || holds_nan(self@),
            largest is Some ==> exists|i: int| is_largest(self@, i) && self@[i] == largest->0,
    {
        let n: usize = array1_len(self);
        if n == 0 {
            return None;
        }
        let mut best: u64 = array1_index(self, 0);
        if is_nan(best) {
            return None;
        }
        let ghost mut at: int = 0;
        let mut i: usize = 1;
        while i < n
            invariant
                1 <= i <= n,
                n == self@.len(),
                0 <= at < i,
                best == self@[at],
                forall|j: int| 0 <= j < i ==> !nan(#[trigger] self@[j]),
                forall|j: int| 0 <= j < i ==> !greater(#[trigger] self@[j], best),
                forall|j: int| 0 <= j < at ==> greater(best, #[trigger] self@[j]),
            decreases n - i,
        {
            let next: u64 = array1_index(self, i);
            if is_nan(next) {
                return None;
            }
            if exceeds(next, best) {
                best = next;
                proof {
                    at = i as int;
                }
            }
            i = i + 1;
        }
        assert(is_largest(self@, at));
        Some(best)
    }
}

impl Array2D {
    /// The number of rows.
    pub open spec fn rows(&self) -> nat {
        array2_shape(*self).0
    }

    /// The number of columns.
    pub open spec fn cols(&self) -> nat {
        array2_shape(*self).1
    }

    /// The element in row `s` and column `i`.
    #[verifier::inline]
    pub open spec fn at(&self, s: int, i: int) -> u64 {
        array2_items(*self)[(s, i)]
    }

    /// Whether the two arrays have the same shape and hold the same elements.
    pub open spec fn same(&self, other: Array2D) -> bool {
        &&& self.rows() == other.rows()
        &&& self.cols() == other.cols()
        &&& forall|s: int, i: int|
            0 <= s < self.rows() && 0 <= i < self.cols() ==> #[trigger] self.at(s, i) == other.at(
                s,
                i,
            )
    }

    /// Whether the shape can be had: the product of the lengths that are not
    /// zero fits in `isize`.
    pub open spec fn shape_fits(rows: nat, cols: nat) -> bool {
        nonzero(rows) * nonzero(cols) <= isize::MAX
    }

    /// An array of `rows` rows and `cols` columns that holds `values` row by
    /// row, where the shape can be had and `values` has one element for each
    /// index.
    pub fn from_shape_vec(rows: usize, cols: usize, values: Vec<u64>) -> (a: Option<Array2D>)
        ensures
            a is Some <==> Self::shape_fits(rows as nat, cols as nat) && rows * cols
                == values@.len(),
            a is Some ==> a->0.rows() == rows && a->0.cols() == cols,
            a is Some ==> forall|s: int, i: int|
                0 <= s < rows && 0 <= i < cols ==> #[trigger] a->0.at(s, i) == values@[s * cols
                    + i],
    {
        array2_from_shape_vec(rows, cols, values)
    }

    /// The number of rows.
    pub fn nrows(&self) -> (n: usize)
        ensures
            n == self.rows(),
    {
        array2_dim(self).0
    }

    /// The number of columns.
    pub fn ncols(&self) -> (n: usize)
        ensures
            n == self.cols(),
    {
        array2_dim(self).1
    }

    /// The element in row `s` and column `i`, if there is one.
    pub fn get(&self, s: usize, i: usize) -> (x: Option<u64>)
        ensures
            x == if s < self.rows() && i < self.cols() {
                Some(self.at(s as int, i as int))
            } else {
                None
            },
    {
        let shape = array2_dim(self);
        if s < shape.0 && i < shape.1 {
            Some(array2_index(self, s, i))
        } else {
            None
        }
    }
}

impl Array4D {
    /// The lengths of the four axes.
    pub open spec fn shape(&self) -> (nat, nat, nat, nat) {
        array4_shape(*self)
    }

    /// The element at the four indices.
    #[verifier::inline]
    pub open spec fn at(&self, s: int, x: int, y: int, z: int) -> u64 {
        array4_items(*self)[(s, x, y, z)]
    }

    /// Whether the four indices lie within the array.
    pub open spec fn holds(&self, s: int, x: int, y: int, z: int) -> bool {
        0 <= s < self.shape().0 && 0 <= x < self.shape().1 && 0 <= y < self.shape().2 && 0 <= z
            < self.shape().3
    }

    /// Whether the two arrays have the same shape and hold the same elements.
    pub open spec fn same(&self, other: Array4D) -> bool {
        &&& self.shape() == other.shape()
        &&& forall|s: int, x: int, y: int, z: int|
            self.holds(s, x, y, z) ==> #[trigger] self.at(s, x, y, z) == other.at(s, x, y, z)
    }

    /// Whether the shape can be had: the product of the lengths that are not
    /// zero fits in `isize`.
    pub open spec fn shape_fits(shape: (nat, nat, nat, nat)) -> bool {
        nonzero(shape.0) * nonzero(shape.1) * nonzero(shape.2) * nonzero(shape.3) <= isize::MAX
    }

    /// An array of the given shape that holds `values` with the last index
    /// running fastest, where the shape can be had and `values` has one
    /// element for each index.
    pub fn from_shape_vec(shape: (usize, usize, usize, usize), values: Vec<u64>) -> (a: Option<
        Array4D,
    >)
        ensures
            a is Some <==> Self::shape_fits(
                (shape.0 as nat, shape.1 as nat, shape.2 as nat, shape.3 as nat),
            ) && shape.0 * shape.1 * shape.2 * shape.3 == values@.len(),
            a is Some ==> a->0.shape() == (
                shape.0 as nat,
                shape.1 as nat,
                shape.2 as nat,
                shape.3 as nat,
            ),
            a is Some ==> forall|s: int, x: int, y: int, z: int|
                0 <= s < shape.0 && 0 <= x < shape.1 && 0 <= y < shape.2 && 0 <= z < shape.3
                    ==> #[trigger] a->0.at(s, x, y, z) == values@[((s * shape.1 + x) * shape.2
                    + y) * shape.3 + z],
    {
        array4_from_shape_vec(shape, values)
    }

    /// The lengths of the four axes.
    pub fn dim(&self) -> (shape: (usize, usize, usize, usize))
        ensures
            self.shape() == (shape.0 as nat, shape.1 as nat, shape.2 as nat, shape.3 as nat),
    {
        array4_dim(self)
    }

    /// The element at the four indices, if there is one.
    pub fn get(&self, s: usize, x: usize, y: usize, z: usize) -> (v: Option<u64>)
        ensures
            v == if self.holds(s as int, x as int, y as int, z as int) {
                Some(self.at(s as int, x as int, y as int, z as int))
            } else {
                None
            },
    {
        let shape = array4_dim(self);
        if s < shape.0 && x < shape.1 && y < shape.2 && z < shape.3 {
            Some(array4_index(self, s, x, y, z))
        } else {
            None
        }
    }
}

} // verus!
