use vstd::prelude::*;
use crate::matrix::{Matrix, MatrixView};
use crate::scalar::Scalar;
use crate::state_space::{DiscreteStateSpaceModel, StateSpaceView};

verus! {

/// What a transfer function is: the coefficients of its numerator and of its
/// denominator, where entry `i` belongs to `z^-i`.
pub struct TransferFunctionView<S> {
    pub num: Seq<S>,
    pub den: Seq<S>,
}

/// `v` followed by as many zeros as it lacks to the length `n`.
pub open spec fn padded<S: Scalar>(v: Seq<S>, n: nat) -> Seq<S> {
    Seq::new(
        if n > v.len() {
            n
        } else {
            v.len()
        },
        |i: int|
            if i < v.len() {
                v[i]
            } else {
                S::spec_zero()
            },
    )
}

/// The transfer function of two coefficient lists: none where one of them is
/// empty, else both brought to the length of the longer one.
pub open spec fn construct<S: Scalar>(num: Seq<S>, den: Seq<S>) -> Option<TransferFunctionView<S>> {
    if num.len() == 0 || den.len() == 0 {
        None
    } else {
        Some(TransferFunctionView { num: padded(num, den.len()), den: padded(den, num.len()) })
    }
}

impl<S: Scalar> TransferFunctionView<S> {
    /// Both lists have one length, which is not zero.
    pub open spec fn well_formed(self) -> bool {
        self.num.len() == self.den.len() && self.num.len() > 0
    }

    /// The number of states of the realization.
    pub open spec fn order(self) -> nat {
        (self.den.len() - 1) as nat
    }

    /// Entry `(i, j)` of the state matrix: the first row holds `-den[j+1] / den[0]`,
    /// below it the diagonal shifted down by one holds ones.
    pub open spec fn a_entry(self, i: int, j: int) -> S {
        if i == 0 {
            self.den[j + 1].spec_negated().spec_over(self.den[0])
        } else if j == i - 1 {
            S::spec_one()
        } else {
            S::spec_zero()
        }
    }

    /// Entry `i` of the input column: one on top, zeros below.
    pub open spec fn b_entry(self, i: int) -> S {
        if i == 0 {
            S::spec_one()
        } else {
            S::spec_zero()
        }
    }

    /// Entry `j` of the output row: `num[j+1] / den[0] - den[j+1] * num[0] / den[0]^2`,
    /// calculated as `((-den[j+1] / den[0]) * num[0]) / den[0] + num[j+1] / den[0]`.
    pub open spec fn c_entry(self, j: int) -> S {
        self.den[j + 1].spec_negated().spec_over(self.den[0]).spec_times(self.num[0]).spec_over(
            self.den[0],
        ).spec_plus(self.num[j + 1].spec_over(self.den[0]))
    }

    /// The direct gain `num[0] / den[0]`.
    pub open spec fn gain(self) -> S {
        self.num[0].spec_over(self.den[0])
    }

    /// The state-space model in controllable canonical form.
    pub open spec fn canonical_form(self) -> StateSpaceView<S> {
        let n = self.order();
        StateSpaceView {
            a: MatrixView { rows: Seq::new(n, |i: int| Seq::new(n, |j: int| self.a_entry(i, j))), cols: n },
            b: MatrixView { rows: Seq::new(n, |i: int| seq![self.b_entry(i)]), cols: 1 },
            c: MatrixView { rows: seq![Seq::new(n, |j: int| self.c_entry(j))], cols: n },
            d: MatrixView { rows: seq![seq![self.gain()]], cols: 1 },
        }
    }

    /// The realization of the transfer function: none where the leading
    /// coefficient of the denominator is zero.
    pub open spec fn realization(self) -> Option<StateSpaceView<S>> {
        if self.den[0].spec_is_zero() {
            None
        } else {
            Some(self.canonical_form())
        }
    }
}

/// A discrete-time transfer function with one input and one output.
#[derive(Debug, PartialEq)]
pub struct DiscreteTransferFunction<S: Scalar> {
    num: Vec<S>,
    den: Vec<S>,
}

impl<S: Scalar> View for DiscreteTransferFunction<S> {
    type V = TransferFunctionView<S>;

    closed spec fn view(&self) -> TransferFunctionView<S> {
        TransferFunctionView { num: self.num@, den: self.den@ }
    }
}

impl<S: Scalar> Clone for DiscreteTransferFunction<S> {
    fn clone(&self) -> (r: Self)
        ensures
            r@ == self@,
    {
        proof {
            use_type_invariant(self);
        }
        DiscreteTransferFunction {
            num: crate::matrix::copy_vector(&self.num),
            den: crate::matrix::copy_vector(&self.den),
        }
    }
}

fn pad<S: Scalar>(v: Vec<S>, n: usize) -> (r: Vec<S>)
    ensures
        r@ == padded(v@, n as nat),
{
    let mut out = v;
    while out.len() < n
        invariant
            out@.len() >= v@.len(),
            out@.len() <= n || out@.len() == v@.len(),
            forall|i: int| 0 <= i < out@.len() ==> out@[i] == padded(v@, n as nat)[i],
        decreases n - out.len(),
    {
        out.push(S::zero());
    }
    assert(out@ =~= padded(v@, n as nat));
    out
}

impl<S: Scalar> DiscreteTransferFunction<S> {
    #[verifier::type_invariant]
    spec fn lengths_agree(self) -> bool {
        self@.well_formed()
    }

    /// The transfer function `num / den`. Neither list may be empty; the
    /// shorter one is filled up with zeros for the higher powers of `z^-1`.
    pub fn new(num: Vec<S>, den: Vec<S>) -> (r: Option<Self>)
        ensures
            match r {
                Some(tf) => construct(num@, den@) == Some(tf@) && tf@.well_formed(),
                None => construct(num@, den@) is None,
            },
    {
        if num.len() == 0 || den.len() == 0 {
            return None;
        }
        let num_len = num.len();
        let den_len = den.len();
        let num = pad(num, den_len);
        let den = pad(den, num_len);
        Some(DiscreteTransferFunction { num, den })
    }

    /// The coefficients of the numerator.
    pub fn num(&self) -> (r: &Vec<S>)
        ensures
            r@ == self@.num,
            self@.well_formed(),
    {
        proof {
            use_type_invariant(self);
        }
        &self.num
    }

    /// The coefficients of the denominator.
    pub fn den(&self) -> (r: &Vec<S>)
        ensures
            r@ == self@.den,
            self@.well_formed(),
    {
        proof {
            use_type_invariant(self);
        }
        &self.den
    }

    /// The state-space model in controllable canonical form, which exists
    /// where the leading coefficient of the denominator is not zero.
    pub fn convert_to_state_space(&self) -> (r: Option<DiscreteStateSpaceModel<S>>)
        ensures
            match r {
                Some(ss) => self@.realization() == Some(ss@) && ss@.well_formed(),
                None => self@.realization() is None,
            },
    {
        proof {
            use_type_invariant(self);
        }
        let d0 = self.den[0];
        if d0.is_zero() {
            return None;
        }
        let order = self.den.len() - 1;
        let n0 = self.num[0];
        let ghost tf = self@;

        let mut a_rows: Vec<Vec<S>> = Vec::new();
        let mut b_rows: Vec<Vec<S>> = Vec::new();
        let mut c_row: Vec<S> = Vec::new();
        let mut i: usize = 0;
        while i < order
            invariant
                i <= order,
                order == tf.order(),
                tf == self@,
                tf.well_formed(),
                d0 == tf.den[0],
                n0 == tf.num[0],
                self.den@ == tf.den,
                self.num@ == tf.num,
                a_rows@.len() == i,
                b_rows@.len() == i,
                c_row@.len() == i,
                forall|k: int| 0 <= k < i ==> (#[trigger] a_rows@[k])@ == Seq::new(order as nat, |j: int| tf.a_entry(k, j)),
                forall|k: int| 0 <= k < i ==> (#[trigger] b_rows@[k])@ == seq![tf.b_entry(k)],
                forall|k: int| 0 <= k < i ==> (#[trigger] c_row@[k]) == tf.c_entry(k),
            decreases order - i,
        {
            let mut row: Vec<S> = Vec::new();
            let mut j: usize = 0;
            while j < order
                invariant
                    i < order,
                    j <= order,
                    order == tf.order(),
                    tf.well_formed(),
                    d0 == tf.den[0],
                    self.den@ == tf.den,
                    row@.len() == j,
                    forall|k: int| 0 <= k < j ==> (#[trigger] row@[k]) == tf.a_entry(i as int, k),
                decreases order - j,
            {
                let entry = if i == 0 {
                    self.den[j + 1].negated().over(d0)
                } else if j == i - 1 {
                    S::one()
                } else {
                    S::zero()
                };
                row.push(entry);
                j += 1;
            }
            assert(row@ =~= Seq::new(order as nat, |j: int| tf.a_entry(i as int, j)));
            a_rows.push(row);

            let mut b_row: Vec<S> = Vec::new();
            b_row.push(
                if i == 0 {
                    S::one()
                } else {
                    S::zero()
                },
            );
            assert(b_row@ =~= seq![tf.b_entry(i as int)]);
            b_rows.push(b_row);

            let di = self.den[i + 1];
            let ni = self.num[i + 1];
            c_row.push(di.negated().over(d0).times(n0).over(d0).plus(ni.over(d0)));
            i += 1;
        }
        assert(c_row@ =~= Seq::new(order as nat, |j: int| tf.c_entry(j)));
        let mut c_rows: Vec<Vec<S>> = Vec::new();
        c_rows.push(c_row);
        let mut d_row: Vec<S> = Vec::new();
        d_row.push(n0.over(d0));
        let mut d_rows: Vec<Vec<S>> = Vec::new();
        d_rows.push(d_row);

        let a = Matrix::from_rows(a_rows, order).unwrap();
        let b = Matrix::from_rows(b_rows, 1).unwrap();
        let c = Matrix::from_rows(c_rows, order).unwrap();
        let d = Matrix::from_rows(d_rows, 1).unwrap();
        proof {
            let form = tf.canonical_form();
            assert(a@.rows =~= form.a.rows);
            assert(b@.rows =~= form.b.rows);
            assert(c@.rows =~= form.c.rows);
            assert(d@.rows =~= form.d.rows);
            assert(d@.rows[0] =~= form.d.rows[0]);
        }
        Some(DiscreteStateSpaceModel::new(a, b, c, d))
    }
}

/// A transfer function of two single coefficients `c` and `d`, where `d` is
/// not zero, is realized without a state, as the gain `c / d`.
pub proof fn lemma_gain_realization<S: Scalar>(c: S, d: S)
    requires
        !d.spec_is_zero(),
    ensures
        construct(seq![c], seq![d]) is Some,
        construct(seq![c], seq![d]).unwrap().realization() is Some,
        construct(seq![c], seq![d]).unwrap().realization().unwrap().state_size() == 0,
        construct(seq![c], seq![d]).unwrap().realization().unwrap().d.rows == seq![seq![c.spec_over(d)]],
{
    let tf = construct(seq![c], seq![d]).unwrap();
    assert(tf.num =~= seq![c]);
    assert(tf.den =~= seq![d]);
}

} // verus!
