use vstd::prelude::*;

verus! {

/// Orders of an ARX model, in which the output at time `t` depends on the
/// `na` outputs before it and on the `nb` inputs from time `t - nk` back.
#[derive(Copy, Clone, Debug, PartialEq, Eq)]
pub struct ArxModelStructure {
    pub na: usize,
    pub nb: usize,
    pub nk: usize,
}

/// An ARX model: the coefficients of the past outputs and of the past inputs,
/// and the delay of the input.
#[derive(Clone, Debug, PartialEq)]
pub struct ArxModel<T> {
    pub a: Vec<T>,
    pub b: Vec<T>,
    pub nk: usize,
}

impl ArxModelStructure {
    pub open spec fn spec_num_params(self) -> int {
        self.na + self.nb
    }

    pub open spec fn spec_maximum_delay(self) -> int {
        if self.nb > 0 && self.nb + self.nk - 1 > self.na {
            self.nb + self.nk - 1
        } else {
            self.na as int
        }
    }

    /// The samples that the output at time `t` is explained by: the outputs
    /// at `t - 1`, .., `t - na`, then the inputs at `t - nk`, .., `t - nk - nb + 1`.
    pub open spec fn regressors<T>(self, y: Seq<T>, u: Seq<T>, t: int) -> Seq<T> {
        Seq::new(
            (self.na + self.nb) as nat,
            |i: int|
                if i < self.na {
                    y[t - i - 1]
                } else {
                    u[t - (i - self.na) - self.nk]
                },
        )
    }

    /// The samples at time `t` can be taken from signals of length `len`.
    pub open spec fn covers(self, len: int, t: int) -> bool {
        &&& self.spec_maximum_delay() <= t <= len
        &&& self.nb > 0 && self.nk == 0 ==> t < len
    }

    /// Number of coefficients of the model.
    pub fn num_params(&self) -> (n: usize)
        requires
            self.spec_num_params() <= usize::MAX,
        ensures
            n == self.spec_num_params(),
    {
        self.na + self.nb
    }

    /// How far back from the current sample a regressor reaches.
    pub fn maximum_delay(&self) -> (d: usize)
        requires
            self.spec_maximum_delay() <= usize::MAX,
        ensures
            d == self.spec_maximum_delay(),
    {
        if self.nb > 0 {
            let reach: usize = self.nb - 1 + self.nk;
            if reach > self.na {
                reach
            } else {
                self.na
            }
        } else {
            self.na
        }
    }

    /// The regressors at time `t` from the outputs `y` and the inputs `u`.
    pub fn build_regressor_set<T: Copy>(&self, y: &Vec<T>, u: &Vec<T>, t: usize) -> (r: Vec<T>)
        requires
            y@.len() == u@.len(),
            self.covers(y@.len() as int, t as int),
            self.spec_num_params() <= usize::MAX,
        ensures
            r@ == self.regressors(y@, u@, t as int),
    {
        let mut res: Vec<T> = Vec::new();
        let mut i: usize = 0;
        while i < self.na
            invariant
                i <= self.na,
                y@.len() == u@.len(),
                self.covers(y@.len() as int, t as int),
                res@.len() == i,
                forall|k: int| 0 <= k < i ==> #[trigger] res@[k] == y@[t - k - 1],
            decreases self.na - i,
        {
            res.push(y[t - i - 1]);
            i += 1;
        }
        let mut i: usize = 0;
        while i < self.nb
            invariant
                i <= self.nb,
                y@.len() == u@.len(),
                self.covers(y@.len() as int, t as int),
                self.spec_num_params() <= usize::MAX,
                res@.len() == self.na + i,
                forall|k: int| 0 <= k < self.na ==> #[trigger] res@[k] == y@[t - k - 1],
                forall|k: int| self.na <= k < self.na + i ==> #[trigger] res@[k] == u@[t - (k - self.na) - self.nk],
            decreases self.nb - i,
        {
            res.push(u[t - i - self.nk]);
            i += 1;
        }
        assert(res@ =~= self.regressors(y@, u@, t as int));
        res
    }

    /// The regressors of every time from the maximum delay on, one row for
    /// each.
    pub fn regressor_matrix<T: Copy>(&self, y: &Vec<T>, u: &Vec<T>) -> (r: Vec<Vec<T>>)
        requires
            y@.len() == u@.len(),
            self.spec_maximum_delay() <= y@.len(),
            self.spec_num_params() <= usize::MAX,
        ensures
            r@.len() == y@.len() - self.spec_maximum_delay(),
            forall|i: int|
                0 <= i < r@.len() ==> (#[trigger] r@[i])@ == self.regressors(
                    y@,
                    u@,
                    i + self.spec_maximum_delay(),
                ),
    {
        let total = y.len();
        let delay = self.maximum_delay();
        let num_samples = total - delay;
        let mut rows: Vec<Vec<T>> = Vec::new();
        let mut i: usize = 0;
        while i < num_samples
            invariant
                i <= num_samples,
                num_samples == total - delay,
                total == y@.len(),
                y@.len() == u@.len(),
                delay == self.spec_maximum_delay(),
                self.spec_num_params() <= usize::MAX,
                rows@.len() == i,
                forall|k: int| 0 <= k < i ==> (#[trigger] rows@[k])@ == self.regressors(y@, u@, k + delay),
            decreases num_samples - i,
        {
            rows.push(self.build_regressor_set(y, u, i + delay));
            i += 1;
        }
        rows
    }

    /// The model whose coefficients are the entries of `theta`: those of the
    /// outputs first.
    pub fn to_model<T: Copy>(&self, theta: &Vec<T>) -> (r: ArxModel<T>)
        requires
            theta@.len() == self.spec_num_params(),
        ensures
            r.a@ == theta@.subrange(0, self.na as int),
            r.b@ == theta@.subrange(self.na as int, self.na + self.nb),
            r.nk == self.nk,
    {
        let total = theta.len();
        let mut a: Vec<T> = Vec::new();
        let mut b: Vec<T> = Vec::new();
        let mut i: usize = 0;
        while i < self.na
            invariant
                i <= self.na,
                total == self.na + self.nb,
                theta@.len() == total,
                a@ == theta@.subrange(0, i as int),
            decreases self.na - i,
        {
            a.push(theta[i]);
            i += 1;
            assert(a@ =~= theta@.subrange(0, i as int));
        }
        let mut i: usize = 0;
        while i < self.nb
            invariant
                i <= self.nb,
                total == self.na + self.nb,
                theta@.len() == total,
                b@ == theta@.subrange(self.na as int, self.na + i),
            decreases self.nb - i,
        {
            b.push(theta[i + self.na]);
            i += 1;
            assert(b@ =~= theta@.subrange(self.na as int, self.na + i));
        }
        ArxModel { a, b, nk: self.nk }
    }
}

} // verus!
