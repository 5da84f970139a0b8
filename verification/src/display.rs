use vstd::prelude::*;
use vstd::string::{StrSliceExecFns, StringExecFns};
use crate::dynamic_system::{BlockView, SystemBlock};
use crate::matrix::{Matrix, MatrixView};
use crate::scalar::Scalar;
use crate::state_space::{DiscreteStateSpaceModel, StateSpaceView};
use crate::text::{append_digits, append_repeated, digits, repeated, trim_end, trim_end_matches};
use crate::transfer_function::{DiscreteTransferFunction, TransferFunctionView};

verus! {

/// A number as it is shown: three digits after the point, without the zeros
/// at the end and without a point that nothing follows.
pub open spec fn nice_text<S: Scalar>(x: S) -> Seq<char> {
    trim_end(trim_end(x.spec_to_fixed()@, '0'), '.')
}

/// Shows a number in a short form.
#[derive(Clone, Copy, Debug, PartialEq)]
pub struct NiceFloat<S: Scalar>(pub S);

impl<S: Scalar> NiceFloat<S> {
    pub fn to_string(&self) -> (r: String)
        ensures
            r@ == nice_text(self.0),
    {
        let fixed = self.0.to_fixed();
        let without_zeros = trim_end_matches(fixed.as_str(), '0');
        trim_end_matches(without_zeros.as_str(), '.')
    }
}

/// Whether one of the first `k` coefficients is not zero.
pub open spec fn written_before<S: Scalar>(coeffs: Seq<S>, k: int) -> bool
    decreases k,
{
    k > 0 && (written_before(coeffs, k - 1) || !coeffs[k - 1].spec_is_zero())
}

/// The term of the coefficient `c` of `z^-i`, where `c` is not zero.
///
/// Where a term stands before it, the term begins with ` + ` or, for a
/// negative number, with ` - `, and shows the size of the number after it;
/// else it shows the number with its sign. The power of `z` follows the
/// number after one blank and is left out where `i` is zero. Before a power of
/// `z` the number one is left out: the term is then `z^-i`, after ` + ` where
/// a term stands before it.
pub open spec fn term_text<S: Scalar>(c: S, i: nat, written: bool) -> Seq<char> {
    if c.spec_is_one() && i != 0 {
        if written {
            " + "@ + "z^-"@ + digits(i)
        } else {
            "z^-"@ + digits(i)
        }
    } else {
        let number = if !written {
            nice_text(c)
        } else if c.spec_is_negative() {
            " - "@ + nice_text(c.spec_magnitude())
        } else {
            " + "@ + nice_text(c.spec_magnitude())
        };
        let power = if i > 0 {
            " z^-"@ + digits(i)
        } else {
            Seq::empty()
        };
        number + power
    }
}

/// The terms of the first `k` coefficients that are not zero.
pub open spec fn terms_text<S: Scalar>(coeffs: Seq<S>, k: int) -> Seq<char>
    decreases k,
{
    if k <= 0 {
        Seq::empty()
    } else if coeffs[k - 1].spec_is_zero() {
        terms_text(coeffs, k - 1)
    } else {
        terms_text(coeffs, k - 1) + term_text(coeffs[k - 1], (k - 1) as nat, written_before(coeffs, k - 1))
    }
}

/// A polynomial in `z^-1`: its terms, or `0` where every coefficient is zero.
pub open spec fn polynomial_text<S: Scalar>(coeffs: Seq<S>) -> Seq<char> {
    if written_before(coeffs, coeffs.len() as int) {
        terms_text(coeffs, coeffs.len() as int)
    } else {
        "0"@
    }
}

/// Whether the first `k` coefficients are those of the constant one.
pub open spec fn is_one_up_to<S: Scalar>(coeffs: Seq<S>, k: int) -> bool
    decreases k,
{
    if k <= 0 {
        false
    } else if k == 1 {
        coeffs[0].spec_is_one()
    } else {
        is_one_up_to(coeffs, k - 1) && coeffs[k - 1].spec_is_zero()
    }
}

/// `line` moved to the middle of `width` columns, with a line break after it.
pub open spec fn centered(line: Seq<char>, width: nat) -> Seq<char> {
    repeated(' ', ((width - line.len()) / 2) as nat) + line + "\n"@
}

/// A transfer function as it is shown: the numerator, and, unless the
/// denominator is the constant one, a bar as wide as the wider of the two and
/// the denominator below it.
pub open spec fn transfer_function_text<S: Scalar>(tf: TransferFunctionView<S>) -> Seq<char> {
    let num = polynomial_text(tf.num);
    let den = polynomial_text(tf.den);
    if is_one_up_to(tf.den, tf.den.len() as int) {
        centered(num, num.len())
    } else {
        let width = if num.len() >= den.len() {
            num.len()
        } else {
            den.len()
        };
        centered(num, width) + repeated('-', width) + "\n"@ + centered(den, width)
    }
}

/// The first `k` numbers of a list, with `, ` between them.
pub open spec fn listed<S: Scalar>(v: Seq<S>, k: int) -> Seq<char>
    decreases k,
{
    if k <= 0 {
        Seq::empty()
    } else if k == 1 {
        v[0].spec_to_text()@
    } else {
        listed(v, k - 1) + ", "@ + v[k - 1].spec_to_text()@
    }
}

/// A vector as it is shown: `[1, 2.5, -3]`.
pub open spec fn vector_text<S: Scalar>(v: Seq<S>) -> Seq<char> {
    "["@ + listed(v, v.len() as int) + "]"@
}

/// The first `k` rows of a matrix, each on a line of its own.
pub open spec fn rows_text<S: Scalar>(rows: Seq<Seq<S>>, k: int) -> Seq<char>
    decreases k,
{
    if k <= 0 {
        Seq::empty()
    } else if k == 1 {
        vector_text(rows[0])
    } else {
        rows_text(rows, k - 1) + ",\n "@ + vector_text(rows[k - 1])
    }
}

/// A matrix as it is shown: its rows between brackets, or `[[]]` where it has
/// no entry.
pub open spec fn matrix_text<S: Scalar>(m: MatrixView<S>) -> Seq<char> {
    if m.rows.len() == 0 || m.cols == 0 {
        "[[]]"@
    } else {
        "["@ + rows_text(m.rows, m.rows.len() as int) + "]"@
    }
}

/// A state-space model as it is shown.
pub open spec fn state_space_text<S: Scalar>(ss: StateSpaceView<S>) -> Seq<char> {
    "A: "@ + matrix_text(ss.a) + " B: "@ + matrix_text(ss.b) + " C: "@ + matrix_text(ss.c) + " D: "@
        + matrix_text(ss.d) + " "@
}

/// A block as it is shown.
pub open spec fn block_text<S: Scalar>(block: BlockView<S>) -> Seq<char> {
    match block {
        BlockView::StateSpace(ss) => state_space_text(ss),
        BlockView::TransferFunction(tf) => transfer_function_text(tf),
        BlockView::Difference => "\u{2212}"@,
    }
}

fn write_polynomial<S: Scalar>(coeffs: &Vec<S>) -> (r: String)
    ensures
        r@ == polynomial_text(coeffs@),
{
    let mut out = String::new();
    let mut written = false;
    let mut i: usize = 0;
    while i < coeffs.len()
        invariant
            i <= coeffs@.len(),
            written == written_before(coeffs@, i as int),
            out@ == terms_text(coeffs@, i as int),
            !written ==> out@.len() == 0,
        decreases coeffs.len() - i,
    {
        let el = coeffs[i];
        if !el.is_zero() {
            let ghost before = out@;
            if el.is_one() && i > 0 {
                if written {
                    out.append(" + ");
                }
                out.append("z^-");
                append_digits(&mut out, i as u64);
            } else {
                if written {
                    if el.is_negative() {
                        out.append(" - ");
                    } else {
                        out.append(" + ");
                    }
                    out.append(NiceFloat(el.magnitude()).to_string().as_str());
                } else {
                    out.append(NiceFloat(el).to_string().as_str());
                }
                if i > 0 {
                    out.append(" z^-");
                    append_digits(&mut out, i as u64);
                }
            }
            assert(out@ =~= before + term_text(el, i as nat, written));
            written = true;
        }
        i += 1;
    }
    if !written {
        out.append("0");
        assert(out@ =~= "0"@);
    }
    out
}

fn is_constant_one<S: Scalar>(coeffs: &Vec<S>) -> (r: bool)
    requires
        coeffs@.len() > 0,
    ensures
        r == is_one_up_to(coeffs@, coeffs@.len() as int),
{
    if !coeffs[0].is_one() {
        proof {
            lemma_not_one(coeffs@, coeffs@.len() as int);
        }
        return false;
    }
    let mut i: usize = 1;
    while i < coeffs.len()
        invariant
            1 <= i <= coeffs@.len(),
            is_one_up_to(coeffs@, i as int),
        decreases coeffs.len() - i,
    {
        if !coeffs[i].is_zero() {
            proof {
                lemma_stays_false(coeffs@, i as int + 1, coeffs@.len() as int);
            }
            return false;
        }
        i += 1;
    }
    true
}

proof fn lemma_not_one<S: Scalar>(coeffs: Seq<S>, k: int)
    requires
        k >= 1,
        !coeffs[0].spec_is_one(),
    ensures
        !is_one_up_to(coeffs, k),
    decreases k,
{
    if k > 1 {
        lemma_not_one(coeffs, k - 1);
    }
}

proof fn lemma_stays_false<S: Scalar>(coeffs: Seq<S>, i: int, k: int)
    requires
        1 <= i <= k,
        !is_one_up_to(coeffs, i),
    ensures
        !is_one_up_to(coeffs, k),
    decreases k - i,
{
    if i < k {
        lemma_stays_false(coeffs, i, k - 1);
    }
}

fn append_centered(out: &mut String, line: &String, width: usize)
    requires
        width >= line@.len(),
    ensures
        final(out)@ == old(out)@ + centered(line@, width as nat),
{
    proof {
        reveal_strlit(" ");
    }
    let len = line.as_str().unicode_len();
    append_repeated(out, " ", (width - len) / 2);
    out.append(line.as_str());
    out.append("\n");
    assert(out@ =~= old(out)@ + centered(line@, width as nat));
}

impl<S: Scalar> DiscreteTransferFunction<S> {
    /// The transfer function as a fraction of two polynomials in `z^-1`, on
    /// up to three lines.
    pub fn to_string(&self) -> (r: String)
        ensures
            r@ == transfer_function_text(self@),
    {
        let num = write_polynomial(self.num());
        let den = write_polynomial(self.den());
        let num_len = num.as_str().unicode_len();
        let den_len = den.as_str().unicode_len();
        let mut out = String::new();
        if is_constant_one(self.den()) {
            append_centered(&mut out, &num, num_len);
        } else {
            proof {
                reveal_strlit("-");
            }
            let width = if num_len >= den_len {
                num_len
            } else {
                den_len
            };
            append_centered(&mut out, &num, width);
            append_repeated(&mut out, "-", width);
            out.append("\n");
            append_centered(&mut out, &den, width);
        }
        assert(out@ =~= transfer_function_text(self@));
        out
    }
}

/// Writes a vector as `[1, 2.5, -3]`.
pub fn write_vector<S: Scalar>(v: &Vec<S>) -> (r: String)
    ensures
        r@ == vector_text(v@),
{
    let mut out = String::from_str("[");
    let mut i: usize = 0;
    while i < v.len()
        invariant
            i <= v@.len(),
            out@ == "["@ + listed(v@, i as int),
        decreases v.len() - i,
    {
        if i > 0 {
            out.append(", ");
        }
        out.append(v[i].to_text().as_str());
        i += 1;
        assert(out@ =~= "["@ + listed(v@, i as int));
    }
    out.append("]");
    out
}

impl<S: Scalar> Matrix<S> {
    /// The matrix with its rows between brackets.
    pub fn to_string(&self) -> (r: String)
        ensures
            r@ == matrix_text(self@),
    {
        if self.nrows() == 0 || self.ncols() == 0 {
            return String::from_str("[[]]");
        }
        let mut out = String::from_str("[");
        let mut i: usize = 0;
        while i < self.nrows()
            invariant
                i <= self@.rows.len(),
                out@ == "["@ + rows_text(self@.rows, i as int),
            decreases self@.rows.len() - i,
        {
            if i > 0 {
                out.append(",\n ");
            }
            out.append(write_vector(self.row(i)).as_str());
            i += 1;
            assert(out@ =~= "["@ + rows_text(self@.rows, i as int));
        }
        out.append("]");
        out
    }
}

impl<S: Scalar> DiscreteStateSpaceModel<S> {
    /// The four matrices, named.
    pub fn to_string(&self) -> (r: String)
        ensures
            r@ == state_space_text(self@),
    {
        let mut out = String::from_str("A: ");
        out.append(self.a().to_string().as_str());
        out.append(" B: ");
        out.append(self.b().to_string().as_str());
        out.append(" C: ");
        out.append(self.c().to_string().as_str());
        out.append(" D: ");
        out.append(self.d().to_string().as_str());
        out.append(" ");
        out
    }
}

impl<S: Scalar> SystemBlock<S> {
    /// What the block is: its model, or a minus sign for a difference.
    pub fn to_string(&self) -> (r: String)
        ensures
            r@ == block_text(self@),
    {
        match self {
            SystemBlock::StateSpace(ss) => ss.to_string(),
            SystemBlock::TransferFunction(tf) => tf.to_string(),
            SystemBlock::Difference => String::from_str("\u{2212}"),
        }
    }
}

} // verus!
