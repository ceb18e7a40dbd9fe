//! A dense rectangular matrix of IEEE-754 binary64 values, stored as a
//! sequence of columns (entry `(i, j)` lives in column `i`, row `j`) and
//! carried as 64-bit patterns.  The width is the number of columns, the
//! height the common column length; a matrix with no columns reports
//! height zero.

use vstd::prelude::*;

use crate::bits::{add_bits, is_nan_bits, mul_bits, spec_add, spec_mul, spec_sub, sub_bits};

verus! {

/// Number of columns.
pub open spec fn spec_width(m: Seq<Seq<u64>>) -> nat {
    m.len()
}

/// Common column length; a matrix with no columns has height zero.
pub open spec fn spec_height(m: Seq<Seq<u64>>) -> nat {
    if m.len() == 0 {
        0
    } else {
        m[0].len()
    }
}

/// Every column has the common length.
pub open spec fn rectangular(m: Seq<Seq<u64>>) -> bool {
    forall|i: int| 0 <= i < m.len() ==> (#[trigger] m[i]).len() == spec_height(m)
}

/// `w` columns of `h` zero entries (positive zero has bit pattern 0).
pub open spec fn spec_new(w: nat, h: nat) -> Seq<Seq<u64>> {
    Seq::new(w, |i: int| Seq::new(h, |j: int| 0u64))
}

/// The entry in column `i`, row `j`, if both indices are in bounds.
pub open spec fn spec_get(m: Seq<Seq<u64>>, i: int, j: int) -> Option<u64> {
    if 0 <= i < m.len() && 0 <= j < m[i].len() {
        Some(m[i][j])
    } else {
        None
    }
}

/// `m` with the entry in column `i`, row `j` replaced by `v`.
pub open spec fn spec_set(m: Seq<Seq<u64>>, i: int, j: int, v: u64) -> Seq<Seq<u64>> {
    m.update(i, m[i].update(j, v))
}

/// Row `j` of `m`, read across the columns.
pub open spec fn spec_row(m: Seq<Seq<u64>>, j: int) -> Seq<u64> {
    Seq::new(m.len(), |i: int| m[i][j])
}

/// The columns of the transpose are the rows of `m`.
pub open spec fn spec_transpose(m: Seq<Seq<u64>>) -> Seq<Seq<u64>> {
    Seq::new(spec_height(m), |j: int| spec_row(m, j))
}

/// The view of a `Matrix`: its columns, outermost first.
#[derive(Debug, Clone)]
pub struct Matrix {
    cols: Vec<Vec<u64>>,
}

impl View for Matrix {
    type V = Seq<Seq<u64>>;

    closed spec fn view(&self) -> Seq<Seq<u64>> {
        Seq::new(self.cols@.len(), |i: int| self.cols@[i]@)
    }
}

impl Matrix {
    /// The structural invariant: the stored columns form a rectangle.
    pub open spec fn wf(&self) -> bool {
        rectangular(self@)
    }

    /// A `width` by `height` matrix with every entry zero.
    pub fn new(width: usize, height: usize) -> (r: Matrix)
        ensures
            r.wf(),
            r@ == spec_new(width as nat, height as nat),
    {
        let mut cols: Vec<Vec<u64>> = Vec::new();
        let mut i: usize = 0;
        while i < width
            invariant
                i <= width,
                cols@.len() == i,
                forall|k: int| 0 <= k < i ==> (#[trigger] cols@[k])@.len() == height,
                forall|k: int, t: int|
                    0 <= k < i && 0 <= t < height ==> cols@[k]@[t] == 0u64,
            decreases width - i,
        {
            let mut col: Vec<u64> = Vec::new();
            let mut j: usize = 0;
            while j < height
                invariant
                    j <= height,
                    col@.len() == j,
                    forall|t: int| 0 <= t < j ==> col@[t] == 0u64,
                decreases height - j,
            {
                col.push(0u64);
                j = j + 1;
            }
            cols.push(col);
            i = i + 1;
        }
        let r = Matrix { cols };
        proof {
            assert(r@ =~~= spec_new(width as nat, height as nat));
        }
        r
    }

    /// Takes ownership of a sequence of columns, after checking that it is
    /// nonempty and rectangular; anything else is rejected.
    pub fn from_vec(val: Vec<Vec<u64>>) -> (r: Option<Matrix>)
        ensures
            match r {
                Some(m) => {
                    &&& m.wf()
                    &&& m@ == vecs_view(val@)
                    &&& val@.len() > 0
                    &&& rectangular(vecs_view(val@))
                },
                None => val@.len() == 0 || !rectangular(vecs_view(val@)),
            },
    {
        if val.len() == 0 {
            return None;
        }
        let h = val[0].len();
        let mut i: usize = 1;
        while i < val.len()
            invariant
                1 <= i <= val@.len(),
                h == val@[0]@.len(),
                forall|k: int| 0 <= k < i ==> (#[trigger] val@[k])@.len() == h,
            decreases val@.len() - i,
        {
            if val[i].len() != h {
                proof {
                    assert(vecs_view(val@)[i as int].len() != spec_height(vecs_view(val@)));
                }
                return None;
            }
            i = i + 1;
        }
        let m = Matrix { cols: val };
        proof {
            assert(m@ =~~= vecs_view(val@));
        }
        Some(m)
    }

    /// `(width, height)`: the number of columns, and the common column
    /// length (zero when there are no columns).
    pub fn size(&self) -> (r: (usize, usize))
        ensures
            r.0 == spec_width(self@),
            r.1 == spec_height(self@),
    {
        let w = self.cols.len();
        let h: usize = if w == 0 {
            0
        } else {
            self.cols[0].len()
        };
        (w, h)
    }

    /// The entry in column `i`, row `j`, or nothing when either index is
    /// out of bounds.
    pub fn get(&self, i: usize, j: usize) -> (r: Option<u64>)
        ensures
            r == spec_get(self@, i as int, j as int),
    {
        if i < self.cols.len() {
            if j < self.cols[i].len() {
                return Some(self.cols[i][j]);
            }
        }
        None
    }

    /// Overwrites the entry in column `i`, row `j` in place; an index out
    /// of bounds is reported and leaves the matrix unchanged.
    pub fn set(&mut self, i: usize, j: usize, val: u64) -> (r: Option<()>)
        ensures
            i < old(self)@.len() && j < old(self)@[i as int].len() ==> {
                &&& r == Some(())
                &&& final(self)@ == spec_set(old(self)@, i as int, j as int, val)
            },
            !(i < old(self)@.len() && j < old(self)@[i as int].len()) ==> {
                &&& r == None::<()>
                &&& final(self)@ == old(self)@
            },
            old(self).wf() ==> final(self).wf(),
    {
        if i < self.cols.len() {
            if j < self.cols[i].len() {
                self.cols[i][j] = val;
                proof {
                    assert(self@ =~~= spec_set(old(self)@, i as int, j as int, val));
                }
                return Some(());
            }
        }
        proof {
            assert(self@ =~~= old(self)@);
        }
        None
    }

    /// A new matrix with width and height swapped whose column `j`, row
    /// `i` holds this matrix's column `i`, row `j` entry.  A matrix of
    /// empty columns transposes to the empty matrix.
    pub fn transpose(&self) -> (r: Matrix)
        requires
            self.wf(),
        ensures
            r.wf(),
            r@ == spec_transpose(self@),
    {
        let w = self.cols.len();
        let h: usize = if w == 0 {
            0
        } else {
            self.cols[0].len()
        };
        let mut out: Vec<Vec<u64>> = Vec::new();
        let mut j: usize = 0;
        while j < h
            invariant
                j <= h,
                self.wf(),
                w == spec_width(self@),
                h == spec_height(self@),
                out@.len() == j,
                forall|t: int| 0 <= t < j ==> (#[trigger] out@[t])@.len() == w,
                forall|t: int, s: int|
                    0 <= t < j && 0 <= s < w ==> out@[t]@[s] == self@[s][t],
            decreases h - j,
        {
            let mut row: Vec<u64> = Vec::new();
            let mut i: usize = 0;
            while i < w
                invariant
                    i <= w,
                    j < h,
                    self.wf(),
                    w == spec_width(self@),
                    h == spec_height(self@),
                    row@.len() == i,
                    forall|s: int| 0 <= s < i ==> row@[s] == self@[s][j as int],
                decreases w - i,
            {
                proof {
                    assert(self.cols@.len() == self@.len());
                    assert(self.cols@[i as int]@ == self@[i as int]);
                }
                row.push(self.cols[i][j]);
                i = i + 1;
            }
            out.push(row);
            j = j + 1;
        }
        let r = Matrix { cols: out };
        proof {
            assert(r@ =~~= spec_transpose(self@));
        }
        r
    }

    /// The entrywise sum of two matrices of exactly equal shape; a shape
    /// mismatch is rejected.  Unless two corresponding entries are both
    /// NaN, the operands can be swapped without changing the result.
    pub fn add_with(&self, other: &Matrix) -> (r: Option<Matrix>)
        requires
            self.wf(),
            other.wf(),
        ensures
            match r {
                Some(m) => {
                    &&& spec_width(self@) == spec_width(other@)
                    &&& spec_height(self@) == spec_height(other@)
                    &&& m.wf()
                    &&& m@ == spec_add_mat(self@, other@)
                    &&& no_nan_pair(self@, other@) ==> m@ == spec_add_mat(other@, self@)
                },
                None => !(spec_width(self@) == spec_width(other@) && spec_height(self@)
                    == spec_height(other@)),
            },
    {
        let (sw, sh) = self.size();
        let (ow, oh) = other.size();
        if sw != ow || sh != oh {
            return None;
        }
        let mut cols: Vec<Vec<u64>> = Vec::new();
        let mut i: usize = 0;
        while i < sw
            invariant
                i <= sw,
                self.wf(),
                other.wf(),
                sw == spec_width(self@),
                sw == spec_width(other@),
                sh == spec_height(self@),
                sh == spec_height(other@),
                cols@.len() == i,
                forall|k: int| 0 <= k < i ==> (#[trigger] cols@[k])@.len() == sh,
                forall|k: int, t: int|
                    0 <= k < i && 0 <= t < sh ==> cols@[k]@[t] == spec_add(
                        self@[k][t],
                        other@[k][t],
                    ),
                forall|k: int, t: int|
                    0 <= k < i && 0 <= t < sh && !(is_nan_bits(#[trigger] self@[k][t])
                        && is_nan_bits(other@[k][t])) ==> cols@[k]@[t] == spec_add(
                        other@[k][t],
                        self@[k][t],
                    ),
            decreases sw - i,
        {
            let mut col: Vec<u64> = Vec::new();
            let mut j: usize = 0;
            while j < sh
                invariant
                    j <= sh,
                    i < sw,
                    self.wf(),
                    other.wf(),
                    sw == spec_width(self@),
                    sw == spec_width(other@),
                    sh == spec_height(self@),
                    sh == spec_height(other@),
                    col@.len() == j,
                    forall|t: int|
                        0 <= t < j ==> col@[t] == spec_add(self@[i as int][t], other@[i as int][t]),
                    forall|t: int|
                        0 <= t < j && !(is_nan_bits(self@[i as int][t]) && is_nan_bits(
                            other@[i as int][t],
                        )) ==> #[trigger] col@[t] == spec_add(other@[i as int][t], self@[i as int][t]),
                decreases sh - j,
            {
                proof {
                    assert(self.cols@.len() == self@.len());
                    assert(self.cols@[i as int]@ == self@[i as int]);
                    assert(other.cols@.len() == other@.len());
                    assert(other.cols@[i as int]@ == other@[i as int]);
                }
                let v = add_bits(self.cols[i][j], other.cols[i][j]);
                col.push(v);
                j = j + 1;
            }
            cols.push(col);
            i = i + 1;
        }
        let m = Matrix { cols };
        proof {
            assert(m@ =~~= spec_add_mat(self@, other@));
            if no_nan_pair(self@, other@) {
                assert(m@ =~~= spec_add_mat(other@, self@));
            }
        }
        Some(m)
    }

    /// The matrix product with this matrix on the left: rejected unless
    /// this matrix's column count equals the other's row count.  Column
    /// `i`, row `j` of the result is the inner product of the right
    /// operand's column `i` with this matrix's row `j`.
    pub fn mul_with(&self, other: &Matrix) -> (r: Option<Matrix>)
        requires
            self.wf(),
            other.wf(),
        ensures
            match r {
                Some(m) => {
                    &&& spec_width(self@) == spec_height(other@)
                    &&& m.wf()
                    &&& m@ == spec_mul_mat(self@, other@)
                },
                None => spec_width(self@) != spec_height(other@),
            },
    {
        let (sw, sh) = self.size();
        let (ow, oh) = other.size();
        if sw != oh {
            return None;
        }
        let mut cols: Vec<Vec<u64>> = Vec::new();
        let mut i: usize = 0;
        while i < ow
            invariant
                i <= ow,
                self.wf(),
                other.wf(),
                sw == spec_width(self@),
                sh == spec_height(self@),
                ow == spec_width(other@),
                oh == spec_height(other@),
                sw == oh,
                cols@.len() == i,
                forall|k: int| 0 <= k < i ==> (#[trigger] cols@[k])@.len() == sh,
                forall|k: int, t: int|
                    0 <= k < i && 0 <= t < sh ==> cols@[k]@[t] == spec_dot(
                        other@[k],
                        spec_row(self@, t),
                    ),
            decreases ow - i,
        {
            let mut col: Vec<u64> = Vec::new();
            let mut j: usize = 0;
            while j < sh
                invariant
                    j <= sh,
                    i < ow,
                    self.wf(),
                    other.wf(),
                    sw == spec_width(self@),
                    sh == spec_height(self@),
                    ow == spec_width(other@),
                    oh == spec_height(other@),
                    sw == oh,
                    col@.len() == j,
                    forall|t: int|
                        0 <= t < j ==> #[trigger] col@[t] == spec_dot(
                            other@[i as int],
                            spec_row(self@, t),
                        ),
                decreases sh - j,
            {
                proof {
                    assert(self.cols@.len() == self@.len());
                    assert(self.cols@[0]@ == self@[0]);
                    assert(other.cols@.len() == other@.len());
                    assert(other.cols@[i as int]@ == other@[i as int]);
                }
                let mut acc: u64 = mul_bits(other.cols[i][0], self.cols[0][j]);
                proof {
                    lemma_spec_dot_step(other@[i as int], spec_row(self@, j as int), 0);
                    assert(spec_row(self@, j as int)[0] == self@[0][j as int]);
                }
                let mut k: usize = 1;
                while k < sw
                    invariant
                        1 <= k <= sw,
                        i < ow,
                        j < sh,
                        self.wf(),
                        other.wf(),
                        sw == spec_width(self@),
                        sh == spec_height(self@),
                        ow == spec_width(other@),
                        oh == spec_height(other@),
                        sw == oh,
                        acc == spec_dot(
                            other@[i as int].take(k as int),
                            spec_row(self@, j as int).take(k as int),
                        ),
                    decreases sw - k,
                {
                    proof {
                        assert(self.cols@.len() == self@.len());
                        assert(self.cols@[k as int]@ == self@[k as int]);
                        assert(other.cols@.len() == other@.len());
                        assert(other.cols@[i as int]@ == other@[i as int]);
                    }
                    let p = mul_bits(other.cols[i][k], self.cols[k][j]);
                    acc = add_bits(acc, p);
                    proof {
                        lemma_spec_dot_step(other@[i as int], spec_row(self@, j as int), k as int);
                        assert(spec_row(self@, j as int)[k as int] == self@[k as int][j as int]);
                    }
                    k = k + 1;
                }
                proof {
                    assert(other@[i as int].take(sw as int) =~= other@[i as int]);
                    assert(spec_row(self@, j as int).take(sw as int) =~= spec_row(self@, j as int));
                }
                col.push(acc);
                j = j + 1;
            }
            cols.push(col);
            i = i + 1;
        }
        let m = Matrix { cols };
        proof {
            assert(m@ =~~= spec_mul_mat(self@, other@));
        }
        Some(m)
    }

    /// The inner product of two vectors of one row each and equal width:
    /// the products of corresponding entries, summed across the columns.
    /// Anything else is rejected — in particular, a matrix of height one
    /// has at least one column, and no value stands for a reduction over
    /// none.
    pub fn dot_with(&self, other: &Matrix) -> (r: Option<u64>)
        requires
            self.wf(),
            other.wf(),
        ensures
            match r {
                Some(v) => {
                    &&& spec_width(self@) == spec_width(other@)
                    &&& spec_height(self@) == 1
                    &&& spec_height(other@) == 1
                    &&& spec_width(self@) > 0
                    &&& v == spec_dot(spec_row(self@, 0), spec_row(other@, 0))
                },
                None => !(spec_width(self@) == spec_width(other@) && spec_height(self@) == 1
                    && spec_height(other@) == 1),
            },
    {
        let (sw, sh) = self.size();
        let (ow, oh) = other.size();
        if sw != ow || sh != oh || sh != 1 {
            return None;
        }
        proof {
            assert(self.cols@.len() == self@.len());
            assert(self.cols@[0]@ == self@[0]);
            assert(other.cols@.len() == other@.len());
            assert(other.cols@[0]@ == other@[0]);
        }
        let mut acc: u64 = mul_bits(self.cols[0][0], other.cols[0][0]);
        proof {
            lemma_spec_dot_step(spec_row(self@, 0), spec_row(other@, 0), 0);
        }
        let mut k: usize = 1;
        while k < sw
            invariant
                1 <= k <= sw,
                self.wf(),
                other.wf(),
                sw == spec_width(self@),
                sw == spec_width(other@),
                1 == spec_height(self@),
                1 == spec_height(other@),
                acc == spec_dot(spec_row(self@, 0).take(k as int), spec_row(other@, 0).take(k as int)),
            decreases sw - k,
        {
            proof {
                assert(self.cols@.len() == self@.len());
                assert(self.cols@[k as int]@ == self@[k as int]);
                assert(other.cols@.len() == other@.len());
                assert(other.cols@[k as int]@ == other@[k as int]);
            }
            let p = mul_bits(self.cols[k][0], other.cols[k][0]);
            acc = add_bits(acc, p);
            proof {
                lemma_spec_dot_step(spec_row(self@, 0), spec_row(other@, 0), k as int);
            }
            k = k + 1;
        }
        proof {
            assert(spec_row(self@, 0).take(sw as int) =~= spec_row(self@, 0));
            assert(spec_row(other@, 0).take(sw as int) =~= spec_row(other@, 0));
        }
        Some(acc)
    }

    /// The cross product of two vectors of exactly three columns and one
    /// row, by the component formula; any other shape is rejected.
    pub fn cross_with(&self, other: &Matrix) -> (r: Option<Matrix>)
        requires
            self.wf(),
            other.wf(),
        ensures
            match r {
                Some(m) => {
                    &&& spec_width(self@) == 3
                    &&& spec_height(self@) == 1
                    &&& spec_width(other@) == 3
                    &&& spec_height(other@) == 1
                    &&& m.wf()
                    &&& m@ == spec_cross(self@, other@)
                },
                None => !(spec_width(self@) == 3 && spec_height(self@) == 1 && spec_width(other@)
                    == 3 && spec_height(other@) == 1),
            },
    {
        let (sw, sh) = self.size();
        let (ow, oh) = other.size();
        if sw != 3 || sh != 1 || ow != 3 || oh != 1 {
            return None;
        }
        proof {
            assert(self.cols@.len() == self@.len());
            assert(self.cols@[0]@ == self@[0]);
            assert(self.cols@[1]@ == self@[1]);
            assert(self.cols@[2]@ == self@[2]);
            assert(other.cols@.len() == other@.len());
            assert(other.cols@[0]@ == other@[0]);
            assert(other.cols@[1]@ == other@[1]);
            assert(other.cols@[2]@ == other@[2]);
        }
        let a0 = self.cols[0][0];
        let a1 = self.cols[1][0];
        let a2 = self.cols[2][0];
        let b0 = other.cols[0][0];
        let b1 = other.cols[1][0];
        let b2 = other.cols[2][0];
        let c0 = sub_bits(mul_bits(a1, b2), mul_bits(a2, b1));
        let c1 = sub_bits(mul_bits(a2, b0), mul_bits(a0, b2));
        let c2 = sub_bits(mul_bits(a0, b1), mul_bits(a1, b0));
        let mut cols: Vec<Vec<u64>> = Vec::new();
        let mut col0: Vec<u64> = Vec::new();
        col0.push(c0);
        cols.push(col0);
        let mut col1: Vec<u64> = Vec::new();
        col1.push(c1);
        cols.push(col1);
        let mut col2: Vec<u64> = Vec::new();
        col2.push(c2);
        cols.push(col2);
        let m = Matrix { cols };
        proof {
            assert(m@ =~~= spec_cross(self@, other@));
        }
        Some(m)
    }
}

/// The inner product of two sequences of equal positive length: the
/// pairwise products `a[k] * b[k]`, summed left to right.
pub open spec fn spec_dot(a: Seq<u64>, b: Seq<u64>) -> u64
    recommends
        a.len() == b.len(),
        a.len() > 0,
    decreases a.len(),
{
    if a.len() == 0 {
        0u64
    } else if a.len() == 1 {
        spec_mul(a[0], b[0])
    } else {
        spec_add(spec_dot(a.drop_last(), b.drop_last()), spec_mul(a.last(), b.last()))
    }
}

/// Unrolls `spec_dot` over one more pair of entries, from the left.
pub proof fn lemma_spec_dot_step(a: Seq<u64>, b: Seq<u64>, k: int)
    requires
        0 <= k,
        k + 1 <= a.len(),
        k + 1 <= b.len(),
    ensures
        k == 0 ==> spec_dot(a.take(1), b.take(1)) == spec_mul(a[0], b[0]),
        k > 0 ==> spec_dot(a.take(k + 1), b.take(k + 1)) == spec_add(
            spec_dot(a.take(k), b.take(k)),
            spec_mul(a[k], b[k]),
        ),
{
    let ta = a.take(k + 1);
    let tb = b.take(k + 1);
    assert(ta.len() == k + 1);
    assert(tb.len() == k + 1);
    if k == 0 {
        assert(ta[0] == a[0]);
        assert(tb[0] == b[0]);
    } else {
        assert(ta.drop_last() =~= a.take(k));
        assert(tb.drop_last() =~= b.take(k));
        assert(ta.last() == a[k]);
        assert(tb.last() == b[k]);
    }
}

/// The matrix product, `a` on the left: column `i`, row `j` of the result
/// is the inner product of `b`'s column `i` with `a`'s row `j`.
pub open spec fn spec_mul_mat(a: Seq<Seq<u64>>, b: Seq<Seq<u64>>) -> Seq<Seq<u64>> {
    Seq::new(b.len(), |i: int| Seq::new(spec_height(a), |j: int| spec_dot(b[i], spec_row(a, j))))
}

/// The cross product of two vectors of three columns and one row, by the
/// component formula.
pub open spec fn spec_cross(a: Seq<Seq<u64>>, b: Seq<Seq<u64>>) -> Seq<Seq<u64>>
    recommends
        spec_width(a) == 3,
        spec_height(a) == 1,
        spec_width(b) == 3,
        spec_height(b) == 1,
{
    seq![
        seq![spec_sub(spec_mul(a[1][0], b[2][0]), spec_mul(a[2][0], b[1][0]))],
        seq![spec_sub(spec_mul(a[2][0], b[0][0]), spec_mul(a[0][0], b[2][0]))],
        seq![spec_sub(spec_mul(a[0][0], b[1][0]), spec_mul(a[1][0], b[0][0]))],
    ]
}

/// Entrywise sums of two matrices of equal shape, left operand first.
pub open spec fn spec_add_mat(a: Seq<Seq<u64>>, b: Seq<Seq<u64>>) -> Seq<Seq<u64>> {
    Seq::new(a.len(), |i: int| Seq::new(a[i].len(), |j: int| spec_add(a[i][j], b[i][j])))
}

/// No position holds a NaN in both matrices at once: swapping the
/// operands of an entrywise sum then changes nothing.
pub open spec fn no_nan_pair(a: Seq<Seq<u64>>, b: Seq<Seq<u64>>) -> bool {
    forall|i: int, j: int|
        0 <= i < a.len() && 0 <= j < a[i].len() ==> !(is_nan_bits(#[trigger] a[i][j])
            && is_nan_bits(b[i][j]))
}

/// The views of a vector of columns.
pub open spec fn vecs_view(v: Seq<Vec<u64>>) -> Seq<Seq<u64>> {
    Seq::new(v.len(), |i: int| v[i]@)
}

/// A freshly built `width` by `height` matrix reports exactly that size,
/// and every entry is zero.  A width of zero forces a height of zero:
/// with no columns there is nowhere to store a column length.
pub proof fn lemma_new_size(w: nat, h: nat)
    requires
        w == 0 ==> h == 0,
    ensures
        spec_width(spec_new(w, h)) == w,
        spec_height(spec_new(w, h)) == h,
        rectangular(spec_new(w, h)),
        forall|i: int, j: int|
            0 <= i < w && 0 <= j < h ==> #[trigger] spec_new(w, h)[i][j] == 0u64,
{
    if w > 0 {
        assert(spec_new(w, h)[0].len() == h);
    }
    assert forall|i: int| 0 <= i < w implies (#[trigger] spec_new(w, h)[i]).len() == spec_height(
        spec_new(w, h),
    ) by {
        assert(spec_new(w, h)[i].len() == h);
    }
}

/// Construction from rectangular data keeps it as given: reading any
/// in-bounds position of the stored columns yields the supplied entry.
/// With `from_vec`'s contract (the accepted matrix's view is its input)
/// and `get`'s (it returns `spec_get`), this is the round trip.
pub proof fn lemma_from_vec_round_trip(data: Seq<Seq<u64>>, i: int, j: int)
    requires
        data.len() > 0,
        rectangular(data),
        0 <= i < data.len(),
        0 <= j < spec_height(data),
    ensures
        spec_get(data, i, j) == Some(data[i][j]),
{
    assert(data[i].len() == spec_height(data));
}

/// Writing an in-bounds entry and reading it back yields the written
/// value, and no other position changes.
pub proof fn lemma_set_get(m: Seq<Seq<u64>>, i: int, j: int, v: u64)
    requires
        0 <= i < m.len(),
        0 <= j < m[i].len(),
    ensures
        spec_get(spec_set(m, i, j, v), i, j) == Some(v),
        forall|i2: int, j2: int|
            !(i2 == i && j2 == j) ==> spec_get(spec_set(m, i, j, v), i2, j2) == spec_get(
                m,
                i2,
                j2,
            ),
{
    let s = spec_set(m, i, j, v);
    assert forall|i2: int, j2: int| !(i2 == i && j2 == j) implies spec_get(s, i2, j2) == spec_get(
        m,
        i2,
        j2,
    ) by {
        if 0 <= i2 < m.len() {
            if i2 == i {
                assert(s[i2] == m[i].update(j, v));
                assert(s[i2].len() == m[i2].len());
                if 0 <= j2 < m[i2].len() {
                    assert(s[i2][j2] == m[i2][j2]);
                }
            } else {
                assert(s[i2] == m[i2]);
            }
        }
    }
}

/// Transposing twice gives back every entry; when the height is positive
/// (or the matrix is empty) the double transpose is the matrix itself.
/// A nonempty matrix of empty columns transposes to the empty matrix, so
/// only its shape, never an entry, is lost.
pub proof fn lemma_transpose_involutive(m: Seq<Seq<u64>>)
    requires
        rectangular(m),
    ensures
        forall|i: int, j: int|
            0 <= i < m.len() && 0 <= j < m[i].len() ==> #[trigger] spec_transpose(
                spec_transpose(m),
            )[i][j] == m[i][j],
        spec_height(m) > 0 ==> spec_transpose(spec_transpose(m)) == m,
        spec_width(m) == 0 ==> spec_transpose(spec_transpose(m)) == m,
{
    let t = spec_transpose(m);
    let tt = spec_transpose(t);
    if m.len() == 0 {
        assert(t.len() == 0);
        assert(tt =~~= m);
    } else if spec_height(m) > 0 {
        assert(t.len() == spec_height(m));
        assert(t[0].len() == m.len());
        assert(spec_height(t) == m.len());
        assert forall|i: int| 0 <= i < m.len() implies #[trigger] tt[i] =~= m[i] by {
            assert(m[i].len() == spec_height(m));
            assert(tt[i].len() == t.len());
            assert forall|j: int| 0 <= j < m[i].len() implies #[trigger] tt[i][j] == m[i][j] by {
                assert(t[j][i] == m[i][j]);
            }
        }
        assert(tt =~~= m);
    } else {
        assert(t.len() == 0);
        assert(tt.len() == 0);
    }
}

} // verus!
