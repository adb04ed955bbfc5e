//! A dense multi-dimensional array with row-major layout.
//!
//! A [`Tensor`] owns a flat element buffer, a shape (the size of each
//! dimension), and a derived table of offsets (strides): `offsets[i]` is the
//! number of flat positions to advance to move one step along dimension `i`.
//! Elements are 32-bit values; callers that store floating-point data keep
//! each element as its bit pattern (the all-zero pattern standing for zero).

use vstd::prelude::*;

verus! {

/// Product of the dimensions `s[i..]`; the empty product is 1.
pub open spec fn suffix_prod(s: Seq<u32>, i: int) -> int
    decreases s.len() - i,
{
    if i < 0 || i >= s.len() {
        1
    } else {
        s[i] * suffix_prod(s, i + 1)
    }
}

/// Number of elements a shape calls for: the product of all its dimensions.
pub open spec fn shape_product(s: Seq<u32>) -> int {
    suffix_prod(s, 0)
}

/// Flat position where the sub-block selected by the first `k` components of
/// a multi-index begins: the sum of `idx[i] * off[i]` over `i < k`.
pub open spec fn flat_start(idx: Seq<u32>, off: Seq<usize>, k: int) -> int
    decreases k,
{
    if k <= 0 {
        0
    } else {
        flat_start(idx, off, k - 1) + idx[k - 1] * off[k - 1]
    }
}

/// Dropping the first `k` dimensions of a shape leaves its suffix products
/// unchanged, up to re-indexing.
proof fn lemma_suffix_prod_shift(s: Seq<u32>, k: int, i: int)
    requires
        0 <= k <= s.len(),
        0 <= i,
    ensures
        suffix_prod(s.skip(k), i) == suffix_prod(s, k + i),
    decreases s.len() - k - i,
{
    if k + i < s.len() {
        lemma_suffix_prod_shift(s, k, i + 1);
    }
}

/// Every row-major stride of the shape is representable as a `usize`.
/// A stride is the product of a proper suffix of the dimensions; with a zero
/// dimension on the left, the suffix to its right can exceed what the machine
/// can index, and such a shape is rejected at construction.
pub open spec fn strides_fit(s: Seq<u32>) -> bool {
    forall|i: int| 1 <= i <= s.len() ==> suffix_prod(s, i) <= usize::MAX
}

fn copy_vals(v: &Vec<u32>) -> (r: Vec<u32>)
    ensures
        r@ == v@,
{
    let mut r: Vec<u32> = Vec::new();
    let mut i: usize = 0;
    while i < v.len()
        invariant
            i <= v@.len(),
            r@.len() == i,
            forall|j: int| 0 <= j < i ==> r@[j] == v@[j],
        decreases v@.len() - i,
    {
        r.push(v[i]);
        i += 1;
    }
    proof {
        assert(r@ =~= v@);
    }
    r
}

#[derive(Debug)]
pub struct Tensor {
    data: Vec<u32>,
    shape: Vec<u32>,
    offsets: Vec<usize>,
}

#[derive(Debug, PartialEq, Eq, Structural)]
pub enum TensorError {
    WrongShapeError,
    OutOfBoundsError,
}

impl Tensor {
    pub closed spec fn spec_data(self) -> Seq<u32> {
        self.data@
    }

    pub closed spec fn spec_shape(self) -> Seq<u32> {
        self.shape@
    }

    pub closed spec fn spec_offsets(self) -> Seq<usize> {
        self.offsets@
    }

    /// Invariant of every live tensor: the buffer holds exactly one element
    /// per point of the shape, and the offsets table is the row-major stride
    /// of each dimension (`[1]` for a rank-0 shape, so that a full index of
    /// an empty prefix still addresses one element).
    pub open spec fn wf(self) -> bool {
        &&& self.spec_data().len() == shape_product(self.spec_shape())
        &&& self.spec_offsets().len() == (if self.spec_shape().len() == 0 { 1int } else {
            self.spec_shape().len() as int
        })
        &&& forall|i: int|
            0 <= i < self.spec_offsets().len() ==> self.spec_offsets()[i] == suffix_prod(
                self.spec_shape(),
                i + 1,
            )
    }

    /// Builds a tensor of the given shape whose every element is the
    /// all-zero value (the bit pattern of floating-point zero).
    ///
    /// Succeeds exactly when the element count called for by the shape can be
    /// allocated and indexed on this machine, that is when the product of the
    /// dimensions and every row-major stride fit a `usize`; otherwise
    /// `WrongShapeError` comes back.
    pub fn zeros(dim: &Vec<u32>) -> (r: Result<Tensor, TensorError>)
        ensures
            match r {
                Ok(t) => {
                    &&& t.wf()
                    &&& t.spec_shape() == dim@
                    &&& t.spec_data().len() == shape_product(dim@)
                    &&& forall|j: int| 0 <= j < t.spec_data().len() ==> t.spec_data()[j] == 0u32
                    &&& shape_product(dim@) <= usize::MAX
                    &&& strides_fit(dim@)
                },
                Err(e) => {
                    &&& e == TensorError::WrongShapeError
                    &&& (shape_product(dim@) > usize::MAX || !strides_fit(dim@))
                },
            },
    {
        let n = dim.len();
        // The element count is the product of the dimensions. A zero
        // dimension annuls whatever came before it, so an overflowed partial
        // product is only remembered until the next zero.
        let mut acc: usize = 1;
        let mut overflow: bool = false;
        let mut i: usize = n;
        while i > 0
            invariant
                i <= n,
                n == dim@.len(),
                !overflow ==> acc == suffix_prod(dim@, i as int),
                overflow ==> suffix_prod(dim@, i as int) > usize::MAX,
            decreases i,
        {
            i -= 1;
            let d = dim[i];
            let ghost tail = suffix_prod(dim@, i as int + 1);
            proof {
                assert(suffix_prod(dim@, i as int) == d * tail);
            }
            if d == 0 {
                acc = 0;
                overflow = false;
                proof {
                    assert(d * tail == 0) by (nonlinear_arith)
                        requires
                            d == 0,
                    ;
                }
            } else if !overflow {
                let prev = acc;
                match acc.checked_mul(d as usize) {
                    Some(v) => {
                        acc = v;
                        proof {
                            assert(v == d * tail) by (nonlinear_arith)
                                requires
                                    v == prev * d,
                                    prev == tail,
                            ;
                        }
                    }
                    None => {
                        overflow = true;
                        proof {
                            assert(d * tail > usize::MAX) by (nonlinear_arith)
                                requires
                                    prev * d > usize::MAX,
                                    prev == tail,
                            ;
                        }
                    }
                }
            } else {
                proof {
                    assert(d * tail > usize::MAX) by (nonlinear_arith)
                        requires
                            d >= 1,
                            tail > usize::MAX,
                            usize::MAX >= 0,
                    ;
                }
            }
        }
        if overflow {
            return Err(TensorError::WrongShapeError);
        }
        let mut data: Vec<u32> = Vec::new();
        let mut j: usize = 0;
        while j < acc
            invariant
                j <= acc,
                data@.len() == j,
                forall|q: int| 0 <= q < j ==> data@[q] == 0u32,
            decreases acc - j,
        {
            data.push(0u32);
            j += 1;
        }
        Tensor::new(&data, dim)
    }

    /// Builds a validated tensor from a flat buffer and a shape.
    ///
    /// Succeeds exactly when the buffer length equals the product of the
    /// dimensions and every row-major stride of the shape fits the machine's
    /// index width; otherwise nothing is built and `WrongShapeError` comes
    /// back. On success the tensor holds copies of the buffer and the shape,
    /// and its offsets table is freshly derived from the shape.
    pub fn new(data: &Vec<u32>, shape: &Vec<u32>) -> (r: Result<Tensor, TensorError>)
        ensures
            match r {
                Ok(t) => {
                    &&& t.wf()
                    &&& t.spec_data() == data@
                    &&& t.spec_shape() == shape@
                    &&& data@.len() == shape_product(shape@)
                    &&& strides_fit(shape@)
                },
                Err(e) => {
                    &&& e == TensorError::WrongShapeError
                    &&& (data@.len() != shape_product(shape@) || !strides_fit(shape@))
                },
            },
    {
        let n = shape.len();
        let dl = data.len();
        // Walk the dimensions from innermost to outermost, recording the
        // stride of each; the final accumulator is the full element count.
        let mut rev: Vec<usize> = Vec::new();
        let mut acc: usize = 1;
        let mut i: usize = n;
        while i > 0
            invariant
                i <= n,
                n == shape@.len(),
                dl == data@.len(),
                acc == suffix_prod(shape@, i as int),
                rev@.len() == n - i,
                forall|j: int| 0 <= j < rev@.len() ==> rev@[j] == suffix_prod(shape@, n - j),
            decreases i,
        {
            i -= 1;
            rev.push(acc);
            let d = shape[i];
            let ghost tail = suffix_prod(shape@, i as int + 1);
            let prev = acc;
            proof {
                assert(suffix_prod(shape@, i as int) == d * tail);
            }
            match acc.checked_mul(d as usize) {
                Some(v) => {
                    acc = v;
                    proof {
                        assert(v == d * tail) by (nonlinear_arith)
                            requires
                                v == prev * d,
                                prev == tail,
                        ;
                    }
                }
                None => {
                    proof {
                        assert(d * tail > usize::MAX) by (nonlinear_arith)
                            requires
                                prev * d > usize::MAX,
                                prev == tail,
                        ;
                        assert(suffix_prod(shape@, i as int) > usize::MAX);
                        if i >= 1 {
                            assert(!strides_fit(shape@));
                        }
                    }
                    return Err(TensorError::WrongShapeError);
                }
            }
        }
        if acc != dl {
            return Err(TensorError::WrongShapeError);
        }
        proof {
            assert forall|q: int| 1 <= q <= shape@.len() implies suffix_prod(shape@, q)
                <= usize::MAX by {
                assert(rev@[n - q] == suffix_prod(shape@, q));
            }
        }
        let mut offsets: Vec<usize> = Vec::new();
        if n == 0 {
            offsets.push(1);
        } else {
            let mut j: usize = n;
            while j > 0
                invariant
                    j <= n,
                    n == shape@.len(),
                    rev@.len() == n,
                    forall|q: int| 0 <= q < rev@.len() ==> rev@[q] == suffix_prod(shape@, n - q),
                    offsets@.len() == n - j,
                    forall|q: int|
                        0 <= q < offsets@.len() ==> offsets@[q] == suffix_prod(shape@, q + 1),
                decreases j,
            {
                j -= 1;
                offsets.push(rev[j]);
            }
        }
        Ok(Tensor { data: copy_vals(data), shape: copy_vals(shape), offsets })
    }

    /// Selects the sub-tensor that the given partial or full multi-index
    /// names, as a freshly owned tensor (no aliasing of this buffer).
    ///
    /// The index fixes the leading dimensions, one component each; the
    /// result keeps the trailing dimensions, and a full index yields a
    /// single-element tensor of shape `[1]`. An empty index fixes nothing
    /// and yields a copy of the whole tensor. An index with more components
    /// than this tensor has dimensions fails with `WrongShapeError`; a
    /// component not below its dimension's size fails with
    /// `OutOfBoundsError`.
    pub fn at(&self, idx_arr: &Vec<u32>) -> (r: Result<Tensor, TensorError>)
        requires
            self.wf(),
        ensures
            match r {
                Ok(t) => {
                    &&& idx_arr@.len() <= self.spec_shape().len()
                    &&& (forall|i: int|
                        0 <= i < idx_arr@.len() ==> idx_arr@[i] < self.spec_shape()[i])
                    &&& t.wf()
                    &&& if idx_arr@.len() == 0 {
                        t.spec_data() == self.spec_data() && t.spec_shape() == self.spec_shape()
                    } else {
                        let start = flat_start(
                            idx_arr@,
                            self.spec_offsets(),
                            idx_arr@.len() as int,
                        );
                        let block = suffix_prod(self.spec_shape(), idx_arr@.len() as int);
                        &&& t.spec_data() == self.spec_data().subrange(start, start + block)
                        &&& t.spec_shape() == (if idx_arr@.len() == self.spec_shape().len() {
                            seq![1u32]
                        } else {
                            self.spec_shape().skip(idx_arr@.len() as int)
                        })
                    }
                },
                Err(TensorError::WrongShapeError) => idx_arr@.len() > self.spec_shape().len(),
                Err(TensorError::OutOfBoundsError) => {
                    &&& idx_arr@.len() <= self.spec_shape().len()
                    &&& (exists|i: int|
                        0 <= i < idx_arr@.len() && idx_arr@[i] >= self.spec_shape()[i])
                },
            },
    {
        let k = idx_arr.len();
        let n = self.shape.len();
        if k > n {
            return Err(TensorError::WrongShapeError);
        }
        proof {
            assert forall|q: int| 1 <= q <= self.spec_shape().len() implies suffix_prod(
                self.spec_shape(),
                q,
            ) <= usize::MAX by {
                assert(self.spec_offsets()[q - 1] == suffix_prod(self.spec_shape(), q));
            }
        }
        if k == 0 {
            // Zero fixed dimensions: a no-op slice, the whole tensor copied.
            return Tensor::new(&self.data, &self.shape);
        }
        let mut i: usize = 0;
        while i < k
            invariant
                i <= k,
                k == idx_arr@.len(),
                k <= n,
                n == self.spec_shape().len(),
                forall|j: int| 0 <= j < i ==> idx_arr@[j] < self.spec_shape()[j],
            decreases k - i,
        {
            if idx_arr[i] >= self.shape[i] {
                return Err(TensorError::OutOfBoundsError);
            }
            i += 1;
        }
        let dl = self.data.len();
        let mut start: usize = 0;
        let mut i: usize = 0;
        while i < k
            invariant
                i <= k,
                1 <= k <= n,
                k == idx_arr@.len(),
                n == self.spec_shape().len(),
                self.wf(),
                dl == self.spec_data().len(),
                forall|j: int| 0 <= j < k ==> idx_arr@[j] < self.spec_shape()[j],
                start == flat_start(idx_arr@, self.spec_offsets(), i as int),
                start + suffix_prod(self.spec_shape(), i as int) <= shape_product(
                    self.spec_shape(),
                ),
            decreases k - i,
        {
            let ghost sh = self.spec_shape();
            let ghost tail = suffix_prod(sh, i as int + 1);
            let off_i = self.offsets[i];
            proof {
                assert(off_i == tail);
                assert(suffix_prod(sh, i as int) == sh[i as int] * tail);
                assert(idx_arr@[i as int] * tail + tail <= sh[i as int] * tail)
                    by (nonlinear_arith)
                    requires
                        idx_arr@[i as int] < sh[i as int],
                        tail >= 0,
                ;
            }
            let step = (idx_arr[i] as usize) * off_i;
            start = start + step;
            i += 1;
        }
        let end = start + self.offsets[k - 1];
        let mut out: Vec<u32> = Vec::new();
        let mut j: usize = start;
        while j < end
            invariant
                start <= j <= end,
                end <= self.spec_data().len(),
                out@.len() == j - start,
                forall|q: int| 0 <= q < out@.len() ==> out@[q] == self.spec_data()[start + q],
            decreases end - j,
        {
            out.push(self.data[j]);
            j += 1;
        }
        proof {
            assert(out@ =~= self.spec_data().subrange(start as int, end as int));
        }
        let mut new_shape: Vec<u32> = Vec::new();
        if k == n {
            new_shape.push(1);
            proof {
                assert(new_shape@ =~= seq![1u32]);
                assert(suffix_prod(new_shape@, 1) == 1);
                assert(shape_product(new_shape@) == 1);
                assert(suffix_prod(self.spec_shape(), k as int) == 1);
            }
        } else {
            let mut j: usize = k;
            while j < n
                invariant
                    k <= j <= n,
                    n == self.spec_shape().len(),
                    new_shape@.len() == j - k,
                    forall|q: int|
                        0 <= q < new_shape@.len() ==> new_shape@[q] == self.spec_shape()[k + q],
                decreases n - j,
            {
                new_shape.push(self.shape[j]);
                j += 1;
            }
            proof {
                assert(new_shape@ =~= self.spec_shape().skip(k as int));
                lemma_suffix_prod_shift(self.spec_shape(), k as int, 0);
                assert forall|q: int| 1 <= q <= new_shape@.len() implies suffix_prod(
                    new_shape@,
                    q,
                ) <= usize::MAX by {
                    lemma_suffix_prod_shift(self.spec_shape(), k as int, q);
                    assert(self.spec_offsets()[k + q - 1] == suffix_prod(
                        self.spec_shape(),
                        k + q,
                    ));
                }
            }
        }
        Tensor::new(&out, &new_shape)
    }

    /// The flat element buffer, in row-major order.
    pub fn data(&self) -> (r: &Vec<u32>)
        ensures
            r@ == self.spec_data(),
    {
        &self.data
    }

    /// The size of each dimension.
    pub fn shape(&self) -> (r: &Vec<u32>)
        ensures
            r@ == self.spec_shape(),
    {
        &self.shape
    }

    /// The row-major stride of each dimension.
    pub fn offsets(&self) -> (r: &Vec<usize>)
        ensures
            r@ == self.spec_offsets(),
    {
        &self.offsets
    }

}

/// A well-formed tensor's own buffer and shape always satisfy `new`'s
/// success condition: the buffer length equals the product of the dimensions
/// and every row-major stride fits the machine's index width. By `new`'s
/// contract, `new(t.data(), t.shape())` therefore succeeds for every live
/// tensor `t` -- in particular for one that `at` produced.
pub proof fn lemma_wf_new_succeeds(t: Tensor)
    requires
        t.wf(),
    ensures
        t.spec_data().len() == shape_product(t.spec_shape()),
        strides_fit(t.spec_shape()),
{
    assert forall|q: int| 1 <= q <= t.spec_shape().len() implies suffix_prod(t.spec_shape(), q)
        <= usize::MAX by {
        assert(t.spec_offsets()[q - 1] == suffix_prod(t.spec_shape(), q));
    }
}

/// Reconstruction law: rebuilding a tensor from a slice's own buffer and
/// shape reproduces the slice exactly. Two well-formed tensors that agree on
/// buffer and shape agree on their offsets as well, the offsets being derived
/// from the shape alone; together with `lemma_wf_new_succeeds` and `new`'s
/// contract, the tensor that `new(s.data(), s.shape())` returns is identical
/// to `s` in every field.
pub proof fn lemma_reconstruct_identical(s: Tensor, t: Tensor)
    requires
        s.wf(),
        t.wf(),
        t.spec_data() == s.spec_data(),
        t.spec_shape() == s.spec_shape(),
    ensures
        t.spec_offsets() == s.spec_offsets(),
{
    assert(t.spec_offsets() =~= s.spec_offsets());
}

} // verus!
