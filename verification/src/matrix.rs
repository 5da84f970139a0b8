use vstd::prelude::*;
use crate::scalar::Scalar;

verus! {

/// What a matrix is: its rows, each `cols` long.
pub struct MatrixView<S> {
    pub rows: Seq<Seq<S>>,
    pub cols: nat,
}

impl<S> MatrixView<S> {
    /// Every row has `cols` entries.
    pub open spec fn well_formed(self) -> bool {
        forall|i: int| 0 <= i < self.rows.len() ==> (#[trigger] self.rows[i]).len() == self.cols
    }

    pub open spec fn has_shape(self, rows: nat, cols: nat) -> bool {
        self.well_formed() && self.rows.len() == rows && self.cols == cols
    }
}

/// The sum of the products of the entries of `row` with those of `v`, taken
/// from the first entry to the last, starting at zero.
pub open spec fn dot<S: Scalar>(row: Seq<S>, v: Seq<S>) -> S
    decreases row.len(),
{
    if row.len() == 0 {
        S::spec_zero()
    } else {
        dot(row.drop_last(), v).spec_plus(row.last().spec_times(v[row.len() - 1]))
    }
}

/// The product of a matrix with a column vector.
pub open spec fn product<S: Scalar>(m: MatrixView<S>, v: Seq<S>) -> Seq<S> {
    Seq::new(m.rows.len(), |i: int| dot(m.rows[i], v))
}

/// The entry-wise sum of two vectors of one length.
pub open spec fn vector_sum<S: Scalar>(x: Seq<S>, y: Seq<S>) -> Seq<S> {
    Seq::new(x.len(), |i: int| x[i].spec_plus(y[i]))
}

/// A matrix of `rows` by `cols` zeros.
pub open spec fn zero_matrix<S: Scalar>(rows: nat, cols: nat) -> MatrixView<S> {
    MatrixView { rows: Seq::new(rows, |i: int| Seq::new(cols, |j: int| S::spec_zero())), cols }
}

/// A dense matrix. Either dimension may be zero.
#[derive(Debug, PartialEq)]
pub struct Matrix<S: Scalar> {
    rows: Vec<Vec<S>>,
    cols: usize,
}

impl<S: Scalar> View for Matrix<S> {
    type V = MatrixView<S>;

    closed spec fn view(&self) -> MatrixView<S> {
        MatrixView { rows: Seq::new(self.rows@.len(), |i: int| self.rows@[i]@), cols: self.cols as nat }
    }
}

/// A copy of a vector.
pub fn copy_vector<T: Copy>(v: &Vec<T>) -> (r: Vec<T>)
    ensures
        r@ == v@,
{
    let mut out: Vec<T> = Vec::new();
    let mut i: usize = 0;
    while i < v.len()
        invariant
            i <= v.len(),
            out@ == v@.take(i as int),
        decreases v.len() - i,
    {
        out.push(v[i]);
        i += 1;
        assert(out@ =~= v@.take(i as int));
    }
    assert(v@.take(v.len() as int) =~= v@);
    out
}

impl<S: Scalar> Clone for Matrix<S> {
    fn clone(&self) -> (r: Self)
        ensures
            r@ == self@,
    {
        proof {
            use_type_invariant(self);
        }
        let mut out: Vec<Vec<S>> = Vec::new();
        let mut i: usize = 0;
        while i < self.rows.len()
            invariant
                i <= self.rows@.len(),
                out@.len() == i,
                forall|k: int| 0 <= k < self.rows@.len() ==> (#[trigger] self.rows@[k])@.len() == self.cols,
                forall|k: int| 0 <= k < i ==> (#[trigger] out@[k])@ == self.rows@[k]@,
            decreases self.rows.len() - i,
        {
            out.push(copy_vector(&self.rows[i]));
            i += 1;
        }
        let m = Matrix { rows: out, cols: self.cols };
        assert(m@.rows =~= self@.rows);
        m
    }
}

/// Computes `dot(row, v)`.
pub fn dot_product<S: Scalar>(row: &Vec<S>, v: &Vec<S>) -> (r: S)
    requires
        row@.len() == v@.len(),
    ensures
        r == dot(row@, v@),
{
    let mut acc = S::zero();
    let mut i: usize = 0;
    while i < row.len()
        invariant
            i <= row.len(),
            row@.len() == v@.len(),
            acc == dot(row@.take(i as int), v@),
        decreases row.len() - i,
    {
        assert(row@.take(i + 1).drop_last() =~= row@.take(i as int));
        acc = acc.plus(row[i].times(v[i]));
        i += 1;
    }
    assert(row@.take(row.len() as int) =~= row@);
    acc
}

/// Computes `vector_sum(x, y)`.
pub fn add_vectors<S: Scalar>(x: &Vec<S>, y: &Vec<S>) -> (r: Vec<S>)
    requires
        x@.len() == y@.len(),
    ensures
        r@ == vector_sum(x@, y@),
{
    let mut out: Vec<S> = Vec::new();
    let mut i: usize = 0;
    while i < x.len()
        invariant
            i <= x.len(),
            x@.len() == y@.len(),
            out@ == vector_sum(x@, y@).take(i as int),
        decreases x.len() - i,
    {
        out.push(x[i].plus(y[i]));
        i += 1;
        assert(out@ =~= vector_sum(x@, y@).take(i as int));
    }
    assert(vector_sum(x@, y@).take(x.len() as int) =~= vector_sum(x@, y@));
    out
}

impl<S: Scalar> Matrix<S> {
    #[verifier::type_invariant]
    spec fn rows_match(self) -> bool {
        forall|i: int| 0 <= i < self.rows@.len() ==> (#[trigger] self.rows@[i])@.len() == self.cols
    }

    /// The matrix of the given rows, if each of them has `cols` entries.
    pub fn from_rows(rows: Vec<Vec<S>>, cols: usize) -> (r: Option<Self>)
        ensures
            r is Some <==> forall|i: int| 0 <= i < rows@.len() ==> (#[trigger] rows@[i])@.len() == cols,
            r matches Some(m) ==> m@.well_formed() && m@.cols == cols && m@.rows == Seq::new(
                rows@.len(),
                |i: int| rows@[i]@,
            ),
    {
        let mut i: usize = 0;
        while i < rows.len()
            invariant
                i <= rows.len(),
                forall|k: int| 0 <= k < i ==> (#[trigger] rows@[k])@.len() == cols,
            decreases rows.len() - i,
        {
            if rows[i].len() != cols {
                return None;
            }
            i += 1;
        }
        Some(Matrix { rows, cols })
    }

    /// The matrix of `rows` by `cols` zeros.
    pub fn zeros(rows: usize, cols: usize) -> (r: Self)
        ensures
            r@ == zero_matrix::<S>(rows as nat, cols as nat),
            r@.well_formed(),
    {
        let mut out: Vec<Vec<S>> = Vec::new();
        let mut i: usize = 0;
        while i < rows
            invariant
                i <= rows,
                out@.len() == i,
                forall|k: int| 0 <= k < i ==> (#[trigger] out@[k])@ == Seq::new(cols as nat, |j: int| S::spec_zero()),
            decreases rows - i,
        {
            let mut row: Vec<S> = Vec::new();
            let mut j: usize = 0;
            while j < cols
                invariant
                    j <= cols,
                    row@ == Seq::new(j as nat, |k: int| S::spec_zero()),
                decreases cols - j,
            {
                row.push(S::zero());
                j += 1;
                assert(row@ =~= Seq::new(j as nat, |k: int| S::spec_zero()));
            }
            out.push(row);
            i += 1;
        }
        let m = Matrix { rows: out, cols };
        assert(m@.rows =~= zero_matrix::<S>(rows as nat, cols as nat).rows);
        m
    }

    pub fn nrows(&self) -> (r: usize)
        ensures
            r == self@.rows.len(),
    {
        self.rows.len()
    }

    pub fn ncols(&self) -> (r: usize)
        ensures
            r == self@.cols,
    {
        self.cols
    }

    /// The entry in row `i` and column `j`.
    pub fn get(&self, i: usize, j: usize) -> (r: S)
        requires
            i < self@.rows.len(),
            j < self@.cols,
        ensures
            r == self@.rows[i as int][j as int],
    {
        proof {
            use_type_invariant(self);
        }
        self.rows[i][j]
    }

    /// Row `i`.
    pub fn row(&self, i: usize) -> (r: &Vec<S>)
        requires
            i < self@.rows.len(),
        ensures
            r@ == self@.rows[i as int],
            r@.len() == self@.cols,
    {
        proof {
            use_type_invariant(self);
        }
        &self.rows[i]
    }

    /// The product of the matrix with a column vector.
    pub fn times_vector(&self, v: &Vec<S>) -> (r: Vec<S>)
        requires
            v@.len() == self@.cols,
        ensures
            r@ == product(self@, v@),
    {
        proof {
            use_type_invariant(self);
        }
        let mut out: Vec<S> = Vec::new();
        let mut i: usize = 0;
        while i < self.rows.len()
            invariant
                i <= self.rows@.len(),
                v@.len() == self.cols,
                forall|k: int| 0 <= k < self.rows@.len() ==> (#[trigger] self.rows@[k])@.len() == self.cols,
                out@ == product(self@, v@).take(i as int),
            decreases self.rows.len() - i,
        {
            out.push(dot_product(&self.rows[i], v));
            i += 1;
            assert(out@ =~= product(self@, v@).take(i as int));
        }
        assert(product(self@, v@).take(self.rows@.len() as int) =~= product(self@, v@));
        out
    }
}

} // verus!
