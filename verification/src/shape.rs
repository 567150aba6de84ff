//! Array shapes: ordered dimension sizes and their element counts.

use vstd::prelude::*;

verus! {

/// The product of the dimension sizes in `dims`; the empty product is 1.
pub open spec fn product(dims: Seq<nat>) -> nat
    decreases dims.len(),
{
    if dims.len() == 0 {
        1
    } else {
        product(dims.drop_last()) * dims.last()
    }
}

/// A shape with a zero dimension holds no elements.
pub proof fn lemma_product_zero(dims: Seq<nat>, k: int)
    requires
        0 <= k < dims.len(),
        dims[k] == 0,
    ensures
        product(dims) == 0,
    decreases dims.len(),
{
    if k < dims.len() - 1 {
        lemma_product_zero(dims.drop_last(), k);
        assert(product(dims.drop_last()) * dims.last() == 0) by (nonlinear_arith)
            requires
                product(dims.drop_last()) == 0,
        ;
    } else {
        assert(product(dims.drop_last()) * dims.last() == 0) by (nonlinear_arith)
            requires
                dims.last() == 0,
        ;
    }
}

/// Without a zero dimension, the element count of a leading part of a
/// shape never exceeds that of the whole.
pub proof fn lemma_product_prefix(dims: Seq<nat>, n: int)
    requires
        0 <= n <= dims.len(),
        forall|k: int| 0 <= k < dims.len() ==> dims[k] > 0,
    ensures
        product(dims.take(n)) <= product(dims),
    decreases dims.len() - n,
{
    if n == dims.len() {
        assert(dims.take(n) =~= dims);
    } else {
        lemma_product_prefix(dims, n + 1);
        assert(dims.take(n + 1).drop_last() =~= dims.take(n));
        assert(product(dims.take(n)) <= product(dims.take(n)) * dims[n]) by (nonlinear_arith)
            requires
                dims[n] > 0,
        ;
    }
}

/// An ordered sequence of dimension sizes. Rank 0 is a scalar, rank 1 a
/// vector, rank 2 a matrix.
#[derive(Debug, PartialEq)]
pub struct ArrayShape {
    pub dimensions: Vec<usize>,
}

impl View for ArrayShape {
    type V = Seq<nat>;

    open spec fn view(&self) -> Seq<nat> {
        Seq::new(self.dimensions@.len(), |i: int| self.dimensions@[i] as nat)
    }
}

impl Clone for ArrayShape {
    fn clone(&self) -> (s: Self)
        ensures
            s@ == self@,
            s.dimensions@ == self.dimensions@,
    {
        let dimensions = self.dimensions.clone();
        assert(dimensions@ =~= self.dimensions@);
        let s = ArrayShape { dimensions };
        assert(s@ =~= self@);
        s
    }
}

impl ArrayShape {
    /// The number of elements that an array of this shape holds.
    pub open spec fn spec_total(&self) -> nat {
        product(self@)
    }

    /// The shape of a single value.
    pub fn scalar() -> (s: Self)
        ensures
            s@ == Seq::<nat>::empty(),
    {
        let s = ArrayShape { dimensions: Vec::new() };
        assert(s@ =~= Seq::<nat>::empty());
        s
    }

    /// The shape of a list of `len` values.
    pub fn vector(len: usize) -> (s: Self)
        ensures
            s@ == seq![len as nat],
    {
        let mut dimensions: Vec<usize> = Vec::new();
        dimensions.push(len);
        let s = ArrayShape { dimensions };
        assert(s@ =~= seq![len as nat]);
        s
    }

    /// The shape of a table of `rows` rows and `cols` columns.
    pub fn matrix(rows: usize, cols: usize) -> (s: Self)
        ensures
            s@ == seq![rows as nat, cols as nat],
    {
        let mut dimensions: Vec<usize> = Vec::new();
        dimensions.push(rows);
        dimensions.push(cols);
        let s = ArrayShape { dimensions };
        assert(s@ =~= seq![rows as nat, cols as nat]);
        s
    }

    /// The number of dimensions.
    pub fn rank(&self) -> (r: usize)
        ensures
            r == self@.len(),
    {
        self.dimensions.len()
    }

    /// Whether two shapes have the same dimension sizes in the same order.
    pub fn same_as(&self, other: &ArrayShape) -> (b: bool)
        ensures
            b == (self@ == other@),
    {
        if self.dimensions.len() != other.dimensions.len() {
            assert(self@.len() != other@.len());
            return false;
        }
        let mut i: usize = 0;
        while i < self.dimensions.len()
            invariant
                i <= self.dimensions.len(),
                self.dimensions.len() == other.dimensions.len(),
                forall|k: int| 0 <= k < i ==> self@[k] == other@[k],
            decreases self.dimensions.len() - i,
        {
            if self.dimensions[i] != other.dimensions[i] {
                assert(self@[i as int] != other@[i as int]);
                return false;
            }
            i = i + 1;
        }
        assert(self@ =~= other@);
        true
    }

    /// The number of elements, or `None` when that number is too large
    /// for a `usize`.
    pub fn checked_total_elements(&self) -> (r: Option<usize>)
        ensures
            r is Some <==> self.spec_total() <= usize::MAX,
            r matches Some(n) ==> n == self.spec_total(),
    {
        let n = self.dimensions.len();
        let mut k: usize = 0;
        while k < n
            invariant
                k <= n,
                n == self.dimensions.len(),
                forall|j: int| 0 <= j < k ==> self@[j] > 0,
            decreases n - k,
        {
            if self.dimensions[k] == 0 {
                proof {
                    lemma_product_zero(self@, k as int);
                }
                return Some(0);
            }
            k = k + 1;
        }
        let mut total: usize = 1;
        let mut i: usize = 0;
        assert(self@.take(0) =~= Seq::<nat>::empty());
        while i < n
            invariant
                i <= n,
                n == self.dimensions.len(),
                forall|j: int| 0 <= j < n ==> self@[j] > 0,
                total == product(self@.take(i as int)),
            decreases n - i,
        {
            let d = self.dimensions[i];
            proof {
                assert(self@.take(i + 1).drop_last() =~= self@.take(i as int));
                assert(self@.take(i + 1).last() == d as nat);
                lemma_product_prefix(self@, i + 1);
            }
            match total.checked_mul(d) {
                Some(next) => {
                    total = next;
                },
                None => {
                    return None;
                },
            }
            i = i + 1;
        }
        assert(self@.take(n as int) =~= self@);
        Some(total)
    }

    /// The number of elements that an array of this shape holds: the
    /// product of the dimension sizes, 1 for a scalar.
    pub fn total_elements(&self) -> (n: usize)
        requires
            self.spec_total() <= usize::MAX,
        ensures
            n == self.spec_total(),
    {
        match self.checked_total_elements() {
            Some(n) => n,
            None => 0,
        }
    }

    /// Whether arrays of the two shapes hold the same number of elements.
    pub fn is_compatible_with(&self, other: &ArrayShape) -> (b: bool)
        requires
            self.spec_total() <= usize::MAX,
            other.spec_total() <= usize::MAX,
        ensures
            b == (self.spec_total() == other.spec_total()),
    {
        self.total_elements() == other.total_elements()
    }
}

} // verus!
