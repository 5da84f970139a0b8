use vstd::prelude::*;
use crate::matrix::{add_vectors, product, vector_sum, Matrix, MatrixView};
use crate::scalar::Scalar;

verus! {

/// What a state-space model is: the four matrices of
///
/// ```text
/// x(k+1) = a * x(k) + b * u(k)
/// y(k)   = c * x(k) + d * u(k)
/// ```
pub struct StateSpaceView<S> {
    pub a: MatrixView<S>,
    pub b: MatrixView<S>,
    pub c: MatrixView<S>,
    pub d: MatrixView<S>,
}

impl<S: Scalar> StateSpaceView<S> {
    pub open spec fn state_size(self) -> nat {
        self.a.rows.len()
    }

    pub open spec fn input_size(self) -> nat {
        self.b.cols
    }

    pub open spec fn output_size(self) -> nat {
        self.c.rows.len()
    }

    /// The dimensions of the four matrices fit together.
    pub open spec fn well_formed(self) -> bool {
        &&& self.a.has_shape(self.state_size(), self.state_size())
        &&& self.b.has_shape(self.state_size(), self.input_size())
        &&& self.c.has_shape(self.output_size(), self.state_size())
        &&& self.d.has_shape(self.output_size(), self.input_size())
    }

    /// Some entry of `d` is not zero: the input reaches the output within one step.
    pub open spec fn has_feedthrough(self) -> bool {
        exists|i: int, j: int|
            0 <= i < self.d.rows.len() && 0 <= j < self.d.rows[i].len() && !(
            #[trigger] self.d.rows[i][j]).spec_is_zero()
    }

    /// `b * input + a * state`.
    pub open spec fn next_state(self, input: Seq<S>, state: Seq<S>) -> Seq<S> {
        vector_sum(product(self.b, input), product(self.a, state))
    }

    /// `c * state`.
    pub open spec fn output(self, state: Seq<S>) -> Seq<S> {
        product(self.c, state)
    }

    /// `c * state + d * input`.
    pub open spec fn output_with_feedthrough(self, input: Seq<S>, state: Seq<S>) -> Seq<S> {
        vector_sum(product(self.c, state), product(self.d, input))
    }
}

/// A discrete-time state-space model with any number of inputs and outputs.
#[derive(Debug, PartialEq)]
pub struct DiscreteStateSpaceModel<S: Scalar> {
    a: Matrix<S>,
    b: Matrix<S>,
    c: Matrix<S>,
    d: Matrix<S>,
}

impl<S: Scalar> View for DiscreteStateSpaceModel<S> {
    type V = StateSpaceView<S>;

    closed spec fn view(&self) -> StateSpaceView<S> {
        StateSpaceView { a: self.a@, b: self.b@, c: self.c@, d: self.d@ }
    }
}

impl<S: Scalar> Clone for DiscreteStateSpaceModel<S> {
    fn clone(&self) -> (r: Self)
        ensures
            r@ == self@,
    {
        proof {
            use_type_invariant(self);
        }
        DiscreteStateSpaceModel { a: self.a.clone(), b: self.b.clone(), c: self.c.clone(), d: self.d.clone() }
    }
}

impl<S: Scalar> DiscreteStateSpaceModel<S> {
    #[verifier::type_invariant]
    spec fn shapes_fit(self) -> bool {
        self@.well_formed()
    }

    /// The model of the four matrices, whose dimensions must fit together:
    /// `a` is square, `b` has as many rows and `c` as many columns as `a`, and
    /// `d` has the rows of `c` and the columns of `b`.
    pub fn new(a: Matrix<S>, b: Matrix<S>, c: Matrix<S>, d: Matrix<S>) -> (r: Self)
        requires
            (StateSpaceView { a: a@, b: b@, c: c@, d: d@ }).well_formed(),
        ensures
            r@ == (StateSpaceView { a: a@, b: b@, c: c@, d: d@ }),
            r@.well_formed(),
    {
        DiscreteStateSpaceModel { a, b, c, d }
    }

    pub fn state_size(&self) -> (r: usize)
        ensures
            r == self@.state_size(),
            self@.well_formed(),
    {
        proof {
            use_type_invariant(self);
        }
        self.a.nrows()
    }

    pub fn input_size(&self) -> (r: usize)
        ensures
            r == self@.input_size(),
            self@.well_formed(),
    {
        proof {
            use_type_invariant(self);
        }
        self.b.ncols()
    }

    pub fn output_size(&self) -> (r: usize)
        ensures
            r == self@.output_size(),
            self@.well_formed(),
    {
        proof {
            use_type_invariant(self);
        }
        self.c.nrows()
    }

    pub fn a(&self) -> (r: &Matrix<S>)
        ensures
            r@ == self@.a,
            self@.well_formed(),
    {
        proof {
            use_type_invariant(self);
        }
        &self.a
    }

    pub fn b(&self) -> (r: &Matrix<S>)
        ensures
            r@ == self@.b,
            self@.well_formed(),
    {
        proof {
            use_type_invariant(self);
        }
        &self.b
    }

    pub fn c(&self) -> (r: &Matrix<S>)
        ensures
            r@ == self@.c,
            self@.well_formed(),
    {
        proof {
            use_type_invariant(self);
        }
        &self.c
    }

    pub fn d(&self) -> (r: &Matrix<S>)
        ensures
            r@ == self@.d,
            self@.well_formed(),
    {
        proof {
            use_type_invariant(self);
        }
        &self.d
    }

    /// Replaces the state by the one that follows it under `input`.
    pub fn update_state(&self, input: &Vec<S>, state: &mut Vec<S>)
        requires
            input@.len() == self@.input_size(),
            old(state)@.len() == self@.state_size(),
        ensures
            final(state)@ == self@.next_state(input@, old(state)@),
            final(state)@.len() == self@.state_size(),
    {
        proof {
            use_type_invariant(self);
        }
        let from_input = self.b.times_vector(input);
        let from_state = self.a.times_vector(state);
        *state = add_vectors(&from_input, &from_state);
    }

    /// Writes the output that belongs to `state`, for a model whose input does
    /// not reach the output within the step.
    pub fn calculate_output(&self, state: &Vec<S>, output: &mut Vec<S>)
        requires
            state@.len() == self@.state_size(),
            old(output)@.len() == self@.output_size(),
        ensures
            final(output)@ == self@.output(state@),
            final(output)@.len() == self@.output_size(),
    {
        proof {
            use_type_invariant(self);
        }
        *output = self.c.times_vector(state);
    }

    /// Writes the output that belongs to `state` and `input`.
    pub fn calculate_output_with_feedthrough(&self, input: &Vec<S>, state: &Vec<S>, output: &mut Vec<S>)
        requires
            input@.len() == self@.input_size(),
            state@.len() == self@.state_size(),
            old(output)@.len() == self@.output_size(),
        ensures
            final(output)@ == self@.output_with_feedthrough(input@, state@),
            final(output)@.len() == self@.output_size(),
    {
        proof {
            use_type_invariant(self);
        }
        let from_state = self.c.times_vector(state);
        let from_input = self.d.times_vector(input);
        *output = add_vectors(&from_state, &from_input);
    }

    /// Whether the input reaches the output within one step.
    pub fn has_feedthrough(&self) -> (r: bool)
        ensures
            r == self@.has_feedthrough(),
    {
        proof {
            use_type_invariant(self);
        }
        let rows = self.d.nrows();
        let cols = self.d.ncols();
        let mut i: usize = 0;
        while i < rows
            invariant
                i <= rows,
                rows == self.d@.rows.len(),
                cols == self.d@.cols,
                self.d@.well_formed(),
                self@.d == self.d@,
                forall|p: int, q: int|
                    0 <= p < i && 0 <= q < self.d@.rows[p].len() ==> (#[trigger] self.d@.rows[p][q]).spec_is_zero(),
            decreases rows - i,
        {
            let mut j: usize = 0;
            while j < cols
                invariant
                    i < rows,
                    j <= cols,
                    rows == self.d@.rows.len(),
                    cols == self.d@.cols,
                    self.d@.well_formed(),
                    self@.d == self.d@,
                    forall|p: int, q: int|
                        0 <= p < i && 0 <= q < self.d@.rows[p].len() ==> (#[trigger] self.d@.rows[p][q]).spec_is_zero(),
                    forall|q: int| 0 <= q < j ==> (#[trigger] self.d@.rows[i as int][q]).spec_is_zero(),
                decreases cols - j,
            {
                if !self.d.get(i, j).is_zero() {
                    return true;
                }
                j += 1;
            }
            i += 1;
        }
        false
    }
}

} // verus!
