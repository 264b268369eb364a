//! The dense row-major 2D container and its algebra.

use vstd::prelude::*;

verus! {

/// A dense, row-major 2D container of scalar values: the cell at
/// `(row, col)` sits at flat index `row * width + col`.
#[derive(Debug, Clone, PartialEq)]
pub struct Tensor<T> {
    pub data: Vec<T>,
    pub width: usize,
    pub height: usize,
}

/// The scalar arithmetic a caller supplies: addition, subtraction,
/// multiplication, and the additive identity. Every tensor operation that
/// combines cells states its result in terms of these closures.
pub struct Ops<T, A, S, M> {
    pub add_fn: A,
    pub sub_fn: S,
    pub mul_fn: M,
    pub zero: T,
}

impl<T: Copy, A: Fn(T, T) -> T, S: Fn(T, T) -> T, M: Fn(T, T) -> T> Ops<T, A, S, M> {
    /// The closures accept every pair of scalars.
    pub open spec fn total(self) -> bool {
        &&& forall|x: T, y: T| #[trigger] call_requires(self.add_fn, (x, y))
        &&& forall|x: T, y: T| #[trigger] call_requires(self.sub_fn, (x, y))
        &&& forall|x: T, y: T| #[trigger] call_requires(self.mul_fn, (x, y))
    }
}

impl<T: Copy> Tensor<T> {
    /// The shape invariant: the flat buffer holds exactly `width * height`
    /// cells, and that many cells fit in a `usize`.
    pub open spec fn wf(self) -> bool {
        &&& self.data@.len() == self.width * self.height
        &&& self.width * self.height <= usize::MAX
    }

    /// The cell at `(row, col)`: row-major layout.
    pub open spec fn cell(self, row: int, col: int) -> T {
        self.data@[row * self.width + col]
    }

    pub open spec fn in_bounds(self, row: int, col: int) -> bool {
        0 <= row < self.height && 0 <= col < self.width
    }

    /// Row `row` as a sequence of `width` cells.
    pub open spec fn row_seq(self, row: int) -> Seq<T> {
        self.data@.subrange(row * self.width, row * self.width + self.width)
    }

    /// Column `col` as a sequence of `height` cells.
    pub open spec fn col_seq(self, col: int) -> Seq<T> {
        Seq::new(self.height as nat, |k: int| self.cell(k, col))
    }
}

/// Two tensors agree in shape.
pub open spec fn same_shape<T>(a: Tensor<T>, b: Tensor<T>) -> bool {
    a.width == b.width && a.height == b.height
}

/// Two tensors agree in shape and cell for cell.
pub open spec fn same_cells<T>(a: Tensor<T>, b: Tensor<T>) -> bool {
    same_shape(a, b) && a.data@ == b.data@
}

/// `r` applies `f` to `a` cell for cell: same shape, and each result cell
/// is an output `f` admits on the matching cell of `a`.
pub open spec fn map_ok<T: Copy, F: Fn(T) -> T>(f: F, a: Tensor<T>, r: Tensor<T>) -> bool {
    &&& a.wf()
    &&& r.wf()
    &&& same_shape(r, a)
    &&& forall|i: int| 0 <= i < a.data@.len()
        ==> call_ensures(f, (a.data@[i],), #[trigger] r.data@[i])
}

/// `r` combines `a` and `b` cell for cell through `f`.
pub open spec fn zip_ok<T: Copy, F: Fn(T, T) -> T>(
    f: F, a: Tensor<T>, b: Tensor<T>, r: Tensor<T>,
) -> bool {
    &&& a.wf()
    &&& b.wf()
    &&& r.wf()
    &&& same_shape(a, b)
    &&& same_shape(r, a)
    &&& forall|i: int| 0 <= i < a.data@.len()
        ==> call_ensures(f, (a.data@[i], b.data@[i]), #[trigger] r.data@[i])
}

/// `r` multiplies every cell of `a` by the scalar `factor` through `f`,
/// the factor standing first.
pub open spec fn scale_ok<T: Copy, F: Fn(T, T) -> T>(
    f: F, factor: T, a: Tensor<T>, r: Tensor<T>,
) -> bool {
    &&& a.wf()
    &&& r.wf()
    &&& same_shape(r, a)
    &&& forall|i: int| 0 <= i < a.data@.len()
        ==> call_ensures(f, (factor, a.data@[i]), #[trigger] r.data@[i])
}

/// `b` is the transpose of `a`: shape swapped, and cell `(i, j)` of `b`
/// equals cell `(j, i)` of `a`.
pub open spec fn is_transpose<T: Copy>(a: Tensor<T>, b: Tensor<T>) -> bool {
    &&& a.wf()
    &&& b.wf()
    &&& b.width == a.height
    &&& b.height == a.width
    &&& forall|i: int, j: int| b.in_bounds(i, j) ==> #[trigger] b.cell(i, j) == a.cell(j, i)
}

/// `total` is a left-to-right sum of `items` through `add_fn`, starting
/// from `acc`.
pub open spec fn sum_ok<T, A: Fn(T, T) -> T>(add_fn: A, acc: T, items: Seq<T>, total: T) -> bool
    decreases items.len(),
{
    if items.len() == 0 {
        total == acc
    } else {
        exists|mid: T|
            #[trigger] call_ensures(add_fn, (acc, items[0]), mid)
            && sum_ok(add_fn, mid, items.subrange(1, items.len() as int), total)
    }
}

/// Extending a summation chain by one more item.
pub proof fn lemma_sum_push<T, A: Fn(T, T) -> T>(
    add_fn: A, acc: T, items: Seq<T>, total: T, next: T, new_total: T,
)
    requires
        sum_ok(add_fn, acc, items, total),
        call_ensures(add_fn, (total, next), new_total),
    ensures
        sum_ok(add_fn, acc, items.push(next), new_total),
    decreases items.len(),
{
    let pushed = items.push(next);
    if items.len() == 0 {
        assert(pushed.subrange(1, pushed.len() as int) =~= Seq::<T>::empty());
        assert(sum_ok(add_fn, new_total, pushed.subrange(1, pushed.len() as int),
            new_total));
        assert(call_ensures(add_fn, (acc, pushed[0]), new_total));
    } else {
        let rest = items.subrange(1, items.len() as int);
        let mid = choose|m: T|
            #[trigger] call_ensures(add_fn, (acc, items[0]), m)
            && sum_ok(add_fn, m, rest, total);
        lemma_sum_push(add_fn, mid, rest, total, next, new_total);
        assert(rest.push(next) =~= pushed.subrange(1, pushed.len() as int));
        assert(sum_ok(add_fn, mid, pushed.subrange(1, pushed.len() as int),
            new_total));
        assert(call_ensures(add_fn, (acc, pushed[0]), mid));
    }
}

/// Summing items that are all `z` changes nothing, whenever `add_fn`
/// treats `z` as an identity on the right.
pub proof fn lemma_sum_of_identity<T, A: Fn(T, T) -> T>(
    add_fn: A, z: T, acc: T, items: Seq<T>, total: T,
)
    requires
        sum_ok(add_fn, acc, items, total),
        forall|i: int| 0 <= i < items.len() ==> items[i] == z,
        forall|x: T, y: T| call_ensures(add_fn, (x, z), y) ==> y == x,
    ensures
        total == acc,
    decreases items.len(),
{
    if items.len() > 0 {
        let rest = items.subrange(1, items.len() as int);
        let mid = choose|m: T|
            #[trigger] call_ensures(add_fn, (acc, items[0]), m)
            && sum_ok(add_fn, m, rest, total);
        assert(mid == acc);
        lemma_sum_of_identity(add_fn, z, mid, rest, total);
    }
}

/// `prods` holds the pairwise products of `u` and `v`, and `result` sums
/// them up from the additive identity.
pub open spec fn dot_witness<T: Copy, A: Fn(T, T) -> T, S: Fn(T, T) -> T, M: Fn(T, T) -> T>(
    ops: Ops<T, A, S, M>, u: Seq<T>, v: Seq<T>, prods: Seq<T>, result: T,
) -> bool {
    &&& prods.len() == u.len()
    &&& forall|k: int| 0 <= k < u.len()
        ==> call_ensures(ops.mul_fn, (u[k], v[k]), #[trigger] prods[k])
    &&& sum_ok(ops.add_fn, ops.zero, prods, result)
}

/// `result` is the dot product of `u` and `v` under the supplied arithmetic.
pub open spec fn dot_ok<T: Copy, A: Fn(T, T) -> T, S: Fn(T, T) -> T, M: Fn(T, T) -> T>(
    ops: Ops<T, A, S, M>, u: Seq<T>, v: Seq<T>, result: T,
) -> bool {
    exists|prods: Seq<T>| dot_witness(ops, u, v, prods, result)
}

/// `r` is the matrix product of `a` (m x k) and `b` (k x n): shape m x n,
/// and cell `(i, j)` is the dot product of row `i` of `a` with column `j`
/// of `b`.
pub open spec fn matmul_ok<T: Copy, A: Fn(T, T) -> T, S: Fn(T, T) -> T, M: Fn(T, T) -> T>(
    ops: Ops<T, A, S, M>, a: Tensor<T>, b: Tensor<T>, r: Tensor<T>,
) -> bool {
    &&& a.wf()
    &&& b.wf()
    &&& r.wf()
    &&& a.width == b.height
    &&& r.width == b.width
    &&& r.height == a.height
    &&& forall|i: int, j: int| r.in_bounds(i, j)
        ==> dot_ok(ops, a.row_seq(i), b.col_seq(j), #[trigger] r.cell(i, j))
}

/// `r` is the single row of columnwise sums of `m`: cell `(0, j)` sums
/// column `j` of `m` from the additive identity.
pub open spec fn col_sums_ok<T: Copy, A: Fn(T, T) -> T, S: Fn(T, T) -> T, M: Fn(T, T) -> T>(
    ops: Ops<T, A, S, M>, m: Tensor<T>, r: Tensor<T>,
) -> bool {
    &&& m.wf()
    &&& r.wf()
    &&& r.height == 1
    &&& r.width == m.width
    &&& forall|j: int| 0 <= j < m.width
        ==> sum_ok(ops.add_fn, ops.zero, m.col_seq(j), #[trigger] r.cell(0, j))
}

/// `r` adds the single-row tensor `row` to every row of `m` through `f`:
/// the broadcast of a bias across a batch.
pub open spec fn broadcast_add_ok<T: Copy, F: Fn(T, T) -> T>(
    f: F, m: Tensor<T>, row: Tensor<T>, r: Tensor<T>,
) -> bool {
    &&& m.wf()
    &&& row.wf()
    &&& r.wf()
    &&& row.height == 1
    &&& row.width == m.width
    &&& same_shape(r, m)
    &&& forall|i: int, j: int| m.in_bounds(i, j)
        ==> call_ensures(f, (m.cell(i, j), row.cell(0, j)), #[trigger] r.cell(i, j))
}

/// Transposing twice gives back the original tensor, shape and cell for
/// cell.
pub proof fn lemma_transpose_involution<T: Copy>(a: Tensor<T>, b: Tensor<T>, c: Tensor<T>)
    requires
        is_transpose(a, b),
        is_transpose(b, c),
    ensures
        same_cells(c, a),
{
    let w = a.width as int;
    assert forall|idx: int| 0 <= idx < c.data@.len()
        implies c.data@[idx] == a.data@[idx] by {
        assert(w > 0) by (nonlinear_arith)
            requires 0 <= idx < a.width * a.height, w == a.width,
        ;
        let i = idx / w;
        let j = idx % w;
        assert(idx == (idx / w) * w + (idx % w) && 0 <= idx % w < w
            && 0 <= idx / w) by (nonlinear_arith)
            requires w > 0, idx >= 0,
        ;
        assert(i < a.height) by (nonlinear_arith)
            requires idx < a.width * a.height, idx == i * (a.width as int) + j,
                0 <= j < a.width, w == a.width, 0 <= i,
        ;
        assert(c.cell(i, j) == b.cell(j, i));
        assert(b.cell(j, i) == a.cell(i, j));
    }
    assert(c.data@ =~= a.data@);
}

/// Adding `b` and then subtracting it again gives back `a`, cell for cell,
/// whenever the supplied subtraction exactly inverts the supplied addition.
pub proof fn lemma_add_sub_round_trip<T: Copy, A: Fn(T, T) -> T, S: Fn(T, T) -> T>(
    add_fn: A, sub_fn: S, a: Tensor<T>, b: Tensor<T>, s: Tensor<T>, r: Tensor<T>,
)
    requires
        zip_ok(add_fn, a, b, s),
        zip_ok(sub_fn, s, b, r),
        forall|x: T, y: T, sm: T, d: T|
            call_ensures(add_fn, (x, y), sm) && call_ensures(sub_fn, (sm, y), d)
                ==> d == x,
    ensures
        same_cells(r, a),
{
    assert forall|idx: int| 0 <= idx < r.data@.len()
        implies r.data@[idx] == a.data@[idx] by {
        assert(call_ensures(add_fn, (a.data@[idx], b.data@[idx]), s.data@[idx]));
        assert(call_ensures(sub_fn, (s.data@[idx], b.data@[idx]), r.data@[idx]));
    }
    assert(r.data@ =~= a.data@);
}

/// Elementwise addition is symmetric in its operands whenever the supplied
/// closure is: any result of `a + b` is also a result of `b + a`.
pub proof fn lemma_zip_commutes<T: Copy, A: Fn(T, T) -> T>(
    add_fn: A, a: Tensor<T>, b: Tensor<T>, r: Tensor<T>,
)
    requires
        zip_ok(add_fn, a, b, r),
        forall|x: T, y: T, z: T| call_ensures(add_fn, (x, y), z)
            ==> call_ensures(add_fn, (y, x), z),
    ensures
        zip_ok(add_fn, b, a, r),
{
}

/// Scaling by the multiplicative identity changes no cell, whenever the
/// supplied closure treats `one` as an identity.
pub proof fn lemma_scale_identity<T: Copy, M: Fn(T, T) -> T>(
    mul_fn: M, one: T, a: Tensor<T>, r: Tensor<T>,
)
    requires
        scale_ok(mul_fn, one, a, r),
        forall|x: T, y: T| call_ensures(mul_fn, (one, x), y) ==> y == x,
    ensures
        same_cells(r, a),
{
    assert(r.data@ =~= a.data@);
}

/// Scaling by the zero scalar yields the zero tensor of the same shape,
/// whenever the supplied closure annihilates on `zero`.
pub proof fn lemma_scale_zero<T: Copy, M: Fn(T, T) -> T>(
    mul_fn: M, zero: T, a: Tensor<T>, r: Tensor<T>,
)
    requires
        scale_ok(mul_fn, zero, a, r),
        forall|x: T, y: T| call_ensures(mul_fn, (zero, x), y) ==> y == zero,
    ensures
        same_shape(r, a),
        forall|i: int| 0 <= i < r.data@.len() ==> r.data@[i] == zero,
{
}

/// In a `w`-wide row-major layout, the cells of the first `r` full rows
/// come before cell `(r, j)`, which itself lies inside the first `h` rows.
proof fn lemma_row_major_bounds(i: int, j: int, r: int, w: int, h: int)
    requires
        0 <= j < w,
        0 <= i <= r,
        r < h,
    ensures
        i * w + j < (r + 1) * w,
        r * w + j < h * w,
        i * w + j >= 0,
{
    assert(i * w + j < (r + 1) * w && r * w + j < h * w && i * w + j >= 0)
        by (nonlinear_arith)
        requires
            0 <= j < w,
            0 <= i <= r,
            r < h,
    ;
}

impl<T: Copy> Tensor<T> {
    /// A `width` x `height` tensor with every cell set to `value`
    /// (for a numeric scalar, pass the number zero).
    pub fn zero(width: usize, height: usize, value: T) -> (r: Tensor<T>)
        requires
            width * height <= usize::MAX,
        ensures
            r.wf(),
            r.width == width,
            r.height == height,
            forall|i: int| 0 <= i < r.data@.len() ==> r.data@[i] == value,
    {
        let size: usize = width * height;
        let mut data: Vec<T> = Vec::new();
        let mut i: usize = 0;
        while i < size
            invariant
                i <= size,
                data@.len() == i,
                forall|k: int| 0 <= k < i ==> data@[k] == value,
            decreases size - i,
        {
            data.push(value);
            i += 1;
        }
        Tensor { data, width, height }
    }

    /// A `width` x `height` tensor whose cell `(row, col)` is produced by
    /// the generator, invoked once per cell in row-major order.
    pub fn fill<F: Fn(usize, usize) -> T>(width: usize, height: usize, values: F) -> (r: Tensor<T>)
        requires
            width * height <= usize::MAX,
            forall|i: usize, j: usize| i < height && j < width
                ==> #[trigger] call_requires(values, (i, j)),
        ensures
            r.wf(),
            r.width == width,
            r.height == height,
            forall|i: int, j: int| 0 <= i < height && 0 <= j < width
                ==> call_ensures(values, (i as usize, j as usize), #[trigger] r.cell(i, j)),
    {
        let mut data: Vec<T> = Vec::new();
        let mut row: usize = 0;
        while row < height
            invariant
                row <= height,
                width * height <= usize::MAX,
                data@.len() == row * width,
                forall|i: usize, j: usize| i < height && j < width
                    ==> #[trigger] call_requires(values, (i, j)),
                forall|i: int, j: int| 0 <= i < row && 0 <= j < width
                    ==> call_ensures(values, (i as usize, j as usize),
                        #[trigger] data@[i * width + j]),
            decreases height - row,
        {
            let mut col: usize = 0;
            while col < width
                invariant
                    col <= width,
                    row < height,
                    width * height <= usize::MAX,
                    data@.len() == row * width + col,
                    forall|i: usize, j: usize| i < height && j < width
                        ==> #[trigger] call_requires(values, (i, j)),
                    forall|i: int, j: int| 0 <= i < row && 0 <= j < width
                        ==> call_ensures(values, (i as usize, j as usize),
                            #[trigger] data@[i * width + j]),
                    forall|j: int| 0 <= j < col
                        ==> call_ensures(values, (row, j as usize),
                            #[trigger] data@[row * width + j]),
                decreases width - col,
            {
                let v = values(row, col);
                data.push(v);
                proof {
                    assert forall|i: int, j: int| 0 <= i < row && 0 <= j < width
                        implies call_ensures(values, (i as usize, j as usize),
                            #[trigger] data@[i * width + j]) by {
                        lemma_row_major_bounds(i, j, row as int - 1,
                            width as int, height as int);
                    }
                }
                col += 1;
            }
            proof {
                assert((row + 1) * width == row * width + width) by (nonlinear_arith);
            }
            row += 1;
        }
        proof {
            assert(height * width == width * height) by (nonlinear_arith);
        }
        Tensor { data, width, height }
    }

    /// The width/height-swapped tensor: cell `(i, j)` of the result equals
    /// cell `(j, i)` of the source.
    pub fn transposed(&self) -> (r: Tensor<T>)
        requires
            self.wf(),
        ensures
            is_transpose(*self, r),
    {
        let mut data: Vec<T> = Vec::new();
        let new_width: usize = self.height;
        let new_height: usize = self.width;
        let mut row: usize = 0;
        while row < new_height
            invariant
                row <= new_height,
                new_width == self.height,
                new_height == self.width,
                self.wf(),
                data@.len() == row * new_width,
                forall|i: int, j: int| 0 <= i < row && 0 <= j < new_width
                    ==> #[trigger] data@[i * new_width + j] == self.cell(j, i),
            decreases new_height - row,
        {
            let mut col: usize = 0;
            while col < new_width
                invariant
                    col <= new_width,
                    row < new_height,
                    new_width == self.height,
                    new_height == self.width,
                    self.wf(),
                    data@.len() == row * new_width + col,
                    forall|i: int, j: int| 0 <= i < row && 0 <= j < new_width
                        ==> #[trigger] data@[i * new_width + j] == self.cell(j, i),
                    forall|j: int| 0 <= j < col
                        ==> #[trigger] data@[row * new_width + j] == self.cell(j, row as int),
                decreases new_width - col,
            {
                let v = self.at(col, row);
                data.push(v);
                proof {
                    assert forall|i: int, j: int| 0 <= i < row && 0 <= j < new_width
                        implies #[trigger] data@[i * new_width + j] == self.cell(j, i) by {
                        lemma_row_major_bounds(i, j, row as int - 1,
                            new_width as int, new_height as int);
                    }
                }
                col += 1;
            }
            proof {
                assert((row + 1) * new_width == row * new_width + new_width)
                    by (nonlinear_arith);
            }
            row += 1;
        }
        proof {
            assert(new_height * new_width == new_width * new_height) by (nonlinear_arith);
            assert(self.width * self.height == self.height * self.width) by (nonlinear_arith);
        }
        Tensor { data, width: new_width, height: new_height }
    }

    /// The flat index of in-bounds cell `(row, column)`: `row * width + column`.
    pub fn get_ix(&self, row: usize, column: usize) -> (ix: usize)
        requires
            self.wf(),
            row < self.height,
            column < self.width,
        ensures
            ix == row * self.width + column,
            ix < self.data@.len(),
    {
        proof {
            lemma_row_major_bounds(row as int, column as int, row as int,
                self.width as int, self.height as int);
            assert(self.height * self.width == self.width * self.height) by (nonlinear_arith);
        }
        row * self.width + column
    }

    /// Indexed read; the caller must stay in bounds.
    pub fn at(&self, row: usize, column: usize) -> (v: T)
        requires
            self.wf(),
            row < self.height,
            column < self.width,
        ensures
            v == self.cell(row as int, column as int),
    {
        let ix = self.get_ix(row, column);
        self.data[ix]
    }

    /// Indexed write; the caller must stay in bounds.
    pub fn set(&mut self, row: usize, column: usize, value: T)
        requires
            old(self).wf(),
            row < old(self).height,
            column < old(self).width,
        ensures
            final(self).wf(),
            final(self).width == old(self).width,
            final(self).height == old(self).height,
            final(self).data@ == old(self).data@.update(
                row * old(self).width + column, value),
    {
        let ix = self.get_ix(row, column);
        self.data[ix] = value;
    }

    /// The queryable boundary check: `None` when `(row, column)` is out of
    /// bounds, otherwise the cell's value.
    pub fn get(&self, row: usize, column: usize) -> (r: Option<T>)
        requires
            self.wf(),
        ensures
            self.in_bounds(row as int, column as int)
                ==> r == Some(self.cell(row as int, column as int)),
            !self.in_bounds(row as int, column as int) ==> r is None,
    {
        if row >= self.height || column >= self.width {
            None
        } else {
            Some(self.at(row, column))
        }
    }

    /// The shape, as `(width, height)`.
    pub fn dimensions(&self) -> (d: (usize, usize))
        ensures
            d == (self.width, self.height),
    {
        (self.width, self.height)
    }

    /// Every coordinate `(row, col)` of the tensor, in row-major order.
    pub fn cells(&self) -> (r: Vec<(usize, usize)>)
        requires
            self.wf(),
        ensures
            r@.len() == self.width * self.height,
            forall|i: int, j: int| 0 <= i < self.height && 0 <= j < self.width
                ==> #[trigger] r@[i * self.width + j] == (i as usize, j as usize),
    {
        let mut out: Vec<(usize, usize)> = Vec::new();
        let mut row: usize = 0;
        while row < self.height
            invariant
                row <= self.height,
                self.wf(),
                out@.len() == row * self.width,
                forall|i: int, j: int| 0 <= i < row && 0 <= j < self.width
                    ==> #[trigger] out@[i * self.width + j] == (i as usize, j as usize),
            decreases self.height - row,
        {
            let mut col: usize = 0;
            while col < self.width
                invariant
                    col <= self.width,
                    row < self.height,
                    self.wf(),
                    out@.len() == row * self.width + col,
                    forall|i: int, j: int| 0 <= i < row && 0 <= j < self.width
                        ==> #[trigger] out@[i * self.width + j] == (i as usize, j as usize),
                    forall|j: int| 0 <= j < col
                        ==> #[trigger] out@[row * self.width + j] == (row, j as usize),
                decreases self.width - col,
            {
                out.push((row, col));
                proof {
                    assert forall|i: int, j: int| 0 <= i < row && 0 <= j < self.width
                        implies #[trigger] out@[i * self.width + j]
                            == (i as usize, j as usize) by {
                        lemma_row_major_bounds(i, j, row as int - 1,
                            self.width as int, self.height as int);
                    }
                }
                col += 1;
            }
            proof {
                assert((row + 1) * self.width == row * self.width + self.width)
                    by (nonlinear_arith);
            }
            row += 1;
        }
        proof {
            assert(self.height * self.width == self.width * self.height)
                by (nonlinear_arith);
        }
        out
    }

    /// Every coordinate paired with its cell's value, in row-major order.
    pub fn iter(&self) -> (r: Vec<((usize, usize), T)>)
        requires
            self.wf(),
        ensures
            r@.len() == self.width * self.height,
            forall|i: int, j: int| 0 <= i < self.height && 0 <= j < self.width
                ==> #[trigger] r@[i * self.width + j]
                    == ((i as usize, j as usize), self.cell(i, j)),
    {
        let mut out: Vec<((usize, usize), T)> = Vec::new();
        let mut row: usize = 0;
        while row < self.height
            invariant
                row <= self.height,
                self.wf(),
                out@.len() == row * self.width,
                forall|i: int, j: int| 0 <= i < row && 0 <= j < self.width
                    ==> #[trigger] out@[i * self.width + j]
                        == ((i as usize, j as usize), self.cell(i, j)),
            decreases self.height - row,
        {
            let mut col: usize = 0;
            while col < self.width
                invariant
                    col <= self.width,
                    row < self.height,
                    self.wf(),
                    out@.len() == row * self.width + col,
                    forall|i: int, j: int| 0 <= i < row && 0 <= j < self.width
                        ==> #[trigger] out@[i * self.width + j]
                            == ((i as usize, j as usize), self.cell(i, j)),
                    forall|j: int| 0 <= j < col
                        ==> #[trigger] out@[row * self.width + j]
                            == ((row, j as usize), self.cell(row as int, j)),
                decreases self.width - col,
            {
                let v = self.at(row, col);
                out.push(((row, col), v));
                proof {
                    assert forall|i: int, j: int| 0 <= i < row && 0 <= j < self.width
                        implies #[trigger] out@[i * self.width + j]
                            == ((i as usize, j as usize), self.cell(i, j)) by {
                        lemma_row_major_bounds(i, j, row as int - 1,
                            self.width as int, self.height as int);
                    }
                }
                col += 1;
            }
            proof {
                assert((row + 1) * self.width == row * self.width + self.width)
                    by (nonlinear_arith);
            }
            row += 1;
        }
        proof {
            assert(self.height * self.width == self.width * self.height)
                by (nonlinear_arith);
        }
        out
    }

    /// Each row as its own vector of `width` cells, in row order.
    pub fn rows(&self) -> (r: Vec<Vec<T>>)
        requires
            self.wf(),
        ensures
            r@.len() == self.height,
            forall|i: int| 0 <= i < self.height ==> #[trigger] r@[i]@ == self.row_seq(i),
    {
        let mut out: Vec<Vec<T>> = Vec::new();
        let mut row: usize = 0;
        while row < self.height
            invariant
                row <= self.height,
                self.wf(),
                out@.len() == row,
                forall|i: int| 0 <= i < row ==> #[trigger] out@[i]@ == self.row_seq(i),
            decreases self.height - row,
        {
            let mut current: Vec<T> = Vec::new();
            let mut col: usize = 0;
            while col < self.width
                invariant
                    col <= self.width,
                    row < self.height,
                    self.wf(),
                    current@.len() == col,
                    forall|j: int| 0 <= j < col
                        ==> #[trigger] current@[j] == self.cell(row as int, j),
                decreases self.width - col,
            {
                let v = self.at(row, col);
                current.push(v);
                col += 1;
            }
            proof {
                assert(0 <= row * self.width
                    && row * self.width + self.width <= self.height * self.width)
                    by (nonlinear_arith)
                    requires 0 <= row < self.height,
                ;
                assert(self.height * self.width == self.width * self.height)
                    by (nonlinear_arith);
                assert(current@ =~= self.row_seq(row as int));
            }
            out.push(current);
            row += 1;
        }
        out
    }

    /// A single-column tensor: height is the item count, width is 1.
    pub fn column(items: Vec<T>) -> (r: Tensor<T>)
        ensures
            r.wf(),
            r.width == 1,
            r.height == items@.len(),
            r.data@ == items@,
    {
        let height: usize = items.len();
        Tensor { data: items, width: 1, height }
    }

    /// Applies `map` elementwise, preserving the shape.
    pub fn mapped<F: Fn(T) -> T>(&self, map: F) -> (r: Tensor<T>)
        requires
            self.wf(),
            forall|x: T| #[trigger] call_requires(map, (x,)),
        ensures
            map_ok(map, *self, r),
    {
        let mut data: Vec<T> = Vec::new();
        let mut i: usize = 0;
        let n: usize = self.data.len();
        while i < n
            invariant
                i <= n,
                n == self.data@.len(),
                data@.len() == i,
                forall|x: T| #[trigger] call_requires(map, (x,)),
                forall|k: int| 0 <= k < i
                    ==> call_ensures(map, (self.data@[k],), #[trigger] data@[k]),
            decreases n - i,
        {
            data.push(map(self.data[i]));
            i += 1;
        }
        Tensor { data, width: self.width, height: self.height }
    }

    /// Combines two same-shaped tensors cell for cell through `combine`:
    /// elementwise addition, subtraction and the Hadamard product are all
    /// this operation with the fitting closure.
    pub fn zipped<F: Fn(T, T) -> T>(&self, other: &Tensor<T>, combine: F) -> (r: Tensor<T>)
        requires
            self.wf(),
            other.wf(),
            same_shape(*self, *other),
            forall|x: T, y: T| #[trigger] call_requires(combine, (x, y)),
        ensures
            zip_ok(combine, *self, *other, r),
    {
        let mut data: Vec<T> = Vec::new();
        let mut i: usize = 0;
        let n: usize = self.data.len();
        while i < n
            invariant
                i <= n,
                n == self.data@.len(),
                n == other.data@.len(),
                data@.len() == i,
                forall|x: T, y: T| #[trigger] call_requires(combine, (x, y)),
                forall|k: int| 0 <= k < i
                    ==> call_ensures(combine, (self.data@[k], other.data@[k]),
                        #[trigger] data@[k]),
            decreases n - i,
        {
            data.push(combine(self.data[i], other.data[i]));
            i += 1;
        }
        Tensor { data, width: self.width, height: self.height }
    }

    /// Multiplies every cell by the scalar `factor` through `scale`.
    pub fn scaled<F: Fn(T, T) -> T>(&self, factor: T, scale: F) -> (r: Tensor<T>)
        requires
            self.wf(),
            forall|x: T, y: T| #[trigger] call_requires(scale, (x, y)),
        ensures
            scale_ok(scale, factor, *self, r),
    {
        let mut data: Vec<T> = Vec::new();
        let mut i: usize = 0;
        let n: usize = self.data.len();
        while i < n
            invariant
                i <= n,
                n == self.data@.len(),
                data@.len() == i,
                forall|x: T, y: T| #[trigger] call_requires(scale, (x, y)),
                forall|k: int| 0 <= k < i
                    ==> call_ensures(scale, (factor, self.data@[k]), #[trigger] data@[k]),
            decreases n - i,
        {
            data.push(scale(factor, self.data[i]));
            i += 1;
        }
        Tensor { data, width: self.width, height: self.height }
    }

    /// The standard matrix product: valid only when `self.width` equals
    /// `other.height`; cell `(i, j)` of the result is the dot product of
    /// row `i` of `self` and column `j` of `other`.
    pub fn matmul<A: Fn(T, T) -> T, S: Fn(T, T) -> T, M: Fn(T, T) -> T>(
        &self, other: &Tensor<T>, ops: &Ops<T, A, S, M>,
    ) -> (r: Tensor<T>)
        requires
            self.wf(),
            other.wf(),
            self.width == other.height,
            ops.total(),
            other.width * self.height <= usize::MAX,
        ensures
            matmul_ok(*ops, *self, *other, r),
    {
        let ow: usize = other.width;
        let ih: usize = self.height;
        let mut data: Vec<T> = Vec::new();
        let mut i: usize = 0;
        while i < ih
            invariant
                i <= ih,
                ih == self.height,
                ow == other.width,
                self.wf(),
                other.wf(),
                self.width == other.height,
                ops.total(),
                ow * ih <= usize::MAX,
                data@.len() == i * ow,
                forall|i2: int, j2: int| 0 <= i2 < i && 0 <= j2 < ow
                    ==> dot_ok(*ops, self.row_seq(i2), other.col_seq(j2),
                        #[trigger] data@[i2 * ow + j2]),
            decreases ih - i,
        {
            proof {
                assert(0 <= i * self.width
                    && i * self.width + self.width <= self.height * self.width)
                    by (nonlinear_arith)
                    requires 0 <= i < self.height,
                ;
                assert(self.height * self.width == self.width * self.height)
                    by (nonlinear_arith);
            }
            let mut j: usize = 0;
            while j < ow
                invariant
                    j <= ow,
                    i < ih,
                    ih == self.height,
                    ow == other.width,
                    self.wf(),
                    other.wf(),
                    self.width == other.height,
                    ops.total(),
                    ow * ih <= usize::MAX,
                    0 <= i * self.width,
                    i * self.width + self.width <= self.data@.len(),
                    data@.len() == i * ow + j,
                    forall|i2: int, j2: int| 0 <= i2 < i && 0 <= j2 < ow
                        ==> dot_ok(*ops, self.row_seq(i2), other.col_seq(j2),
                            #[trigger] data@[i2 * ow + j2]),
                    forall|j2: int| 0 <= j2 < j
                        ==> dot_ok(*ops, self.row_seq(i as int), other.col_seq(j2),
                            #[trigger] data@[i * ow + j2]),
                decreases ow - j,
            {
                let mut acc: T = ops.zero;
                let ghost mut prods: Seq<T> = Seq::empty();
                let mut k: usize = 0;
                while k < self.width
                    invariant
                        k <= self.width,
                        i < ih,
                        j < ow,
                        ih == self.height,
                        ow == other.width,
                        self.wf(),
                        other.wf(),
                        self.width == other.height,
                        ops.total(),
                        0 <= i * self.width,
                        i * self.width + self.width <= self.data@.len(),
                        prods.len() == k,
                        forall|t: int| 0 <= t < k
                            ==> call_ensures(ops.mul_fn,
                                (self.row_seq(i as int)[t], other.col_seq(j as int)[t]),
                                #[trigger] prods[t]),
                        sum_ok(ops.add_fn, ops.zero, prods, acc),
                    decreases self.width - k,
                {
                    let a_val = self.at(i, k);
                    let b_val = other.at(k, j);
                    proof {
                        assert(self.row_seq(i as int)[k as int]
                            == self.cell(i as int, k as int));
                        assert(other.col_seq(j as int)[k as int]
                            == other.cell(k as int, j as int));
                    }
                    let p = (ops.mul_fn)(a_val, b_val);
                    let next_acc = (ops.add_fn)(acc, p);
                    proof {
                        lemma_sum_push(ops.add_fn, ops.zero, prods, acc, p, next_acc);
                        prods = prods.push(p);
                    }
                    acc = next_acc;
                    k += 1;
                }
                proof {
                    assert(self.row_seq(i as int).len() == self.width);
                    assert(dot_witness(*ops, self.row_seq(i as int),
                        other.col_seq(j as int), prods, acc));
                    assert(dot_ok(*ops, self.row_seq(i as int),
                        other.col_seq(j as int), acc));
                }
                data.push(acc);
                proof {
                    assert forall|i2: int, j2: int| 0 <= i2 < i && 0 <= j2 < ow
                        implies dot_ok(*ops, self.row_seq(i2), other.col_seq(j2),
                            #[trigger] data@[i2 * ow + j2]) by {
                        lemma_row_major_bounds(i2, j2, i as int - 1, ow as int, ih as int);
                    }
                }
                j += 1;
            }
            proof {
                assert((i + 1) * ow == i * ow + ow) by (nonlinear_arith);
            }
            i += 1;
        }
        proof {
            assert(ih * ow == ow * ih) by (nonlinear_arith);
        }
        Tensor { data, width: ow, height: ih }
    }

    /// The single row of columnwise sums: cell `(0, j)` sums column `j`
    /// across the batch dimension, from the additive identity.
    pub fn column_sums<A: Fn(T, T) -> T, S: Fn(T, T) -> T, M: Fn(T, T) -> T>(
        &self, ops: &Ops<T, A, S, M>,
    ) -> (r: Tensor<T>)
        requires
            self.wf(),
            ops.total(),
        ensures
            col_sums_ok(*ops, *self, r),
    {
        let mut data: Vec<T> = Vec::new();
        let mut j: usize = 0;
        while j < self.width
            invariant
                j <= self.width,
                self.wf(),
                ops.total(),
                data@.len() == j,
                forall|j2: int| 0 <= j2 < j
                    ==> sum_ok(ops.add_fn, ops.zero, self.col_seq(j2),
                        #[trigger] data@[j2]),
            decreases self.width - j,
        {
            let mut acc: T = ops.zero;
            let mut k: usize = 0;
            while k < self.height
                invariant
                    k <= self.height,
                    j < self.width,
                    self.wf(),
                    ops.total(),
                    sum_ok(ops.add_fn, ops.zero,
                        self.col_seq(j as int).subrange(0, k as int), acc),
                decreases self.height - k,
            {
                let v = self.at(k, j);
                let next_acc = (ops.add_fn)(acc, v);
                proof {
                    let prefix = self.col_seq(j as int).subrange(0, k as int);
                    lemma_sum_push(ops.add_fn, ops.zero, prefix, acc, v, next_acc);
                    assert(prefix.push(v)
                        =~= self.col_seq(j as int).subrange(0, k as int + 1));
                }
                acc = next_acc;
                k += 1;
            }
            proof {
                assert(self.col_seq(j as int).subrange(0, self.height as int)
                    =~= self.col_seq(j as int));
            }
            data.push(acc);
            j += 1;
        }
        proof {
            assert(self.width * 1 == self.width) by (nonlinear_arith);
        }
        Tensor { data, width: self.width, height: 1 }
    }

    /// Adds the single-row tensor `row` to every row of `self`, cell for
    /// cell through the supplied addition: broadcasting a bias across the
    /// batch dimension.
    pub fn row_broadcast_add<A: Fn(T, T) -> T, S: Fn(T, T) -> T, M: Fn(T, T) -> T>(
        &self, row: &Tensor<T>, ops: &Ops<T, A, S, M>,
    ) -> (r: Tensor<T>)
        requires
            self.wf(),
            row.wf(),
            row.height == 1,
            row.width == self.width,
            ops.total(),
        ensures
            broadcast_add_ok(ops.add_fn, *self, *row, r),
    {
        let mut data: Vec<T> = Vec::new();
        let mut i: usize = 0;
        while i < self.height
            invariant
                i <= self.height,
                self.wf(),
                row.wf(),
                row.height == 1,
                row.width == self.width,
                ops.total(),
                data@.len() == i * self.width,
                forall|i2: int, j2: int| 0 <= i2 < i && 0 <= j2 < self.width
                    ==> call_ensures(ops.add_fn,
                        (self.cell(i2, j2), row.cell(0, j2)),
                        #[trigger] data@[i2 * self.width + j2]),
            decreases self.height - i,
        {
            let mut j: usize = 0;
            while j < self.width
                invariant
                    j <= self.width,
                    i < self.height,
                    self.wf(),
                    row.wf(),
                    row.height == 1,
                    row.width == self.width,
                    ops.total(),
                    data@.len() == i * self.width + j,
                    forall|i2: int, j2: int| 0 <= i2 < i && 0 <= j2 < self.width
                        ==> call_ensures(ops.add_fn,
                            (self.cell(i2, j2), row.cell(0, j2)),
                            #[trigger] data@[i2 * self.width + j2]),
                    forall|j2: int| 0 <= j2 < j
                        ==> call_ensures(ops.add_fn,
                            (self.cell(i as int, j2), row.cell(0, j2)),
                            #[trigger] data@[i * self.width + j2]),
                decreases self.width - j,
            {
                let a_val = self.at(i, j);
                let b_val = row.at(0, j);
                let v = (ops.add_fn)(a_val, b_val);
                data.push(v);
                proof {
                    assert forall|i2: int, j2: int| 0 <= i2 < i && 0 <= j2 < self.width
                        implies call_ensures(ops.add_fn,
                            (self.cell(i2, j2), row.cell(0, j2)),
                            #[trigger] data@[i2 * self.width + j2]) by {
                        lemma_row_major_bounds(i2, j2, i as int - 1,
                            self.width as int, self.height as int);
                    }
                }
                j += 1;
            }
            proof {
                assert((i + 1) * self.width == i * self.width + self.width)
                    by (nonlinear_arith);
            }
            i += 1;
        }
        proof {
            assert(self.height * self.width == self.width * self.height)
                by (nonlinear_arith);
        }
        Tensor { data, width: self.width, height: self.height }
    }

    /// An exact copy, cell for cell.
    pub fn duplicate(&self) -> (r: Tensor<T>)
        requires
            self.wf(),
        ensures
            r.wf(),
            same_cells(r, *self),
    {
        let mut data: Vec<T> = Vec::new();
        let mut i: usize = 0;
        let n: usize = self.data.len();
        while i < n
            invariant
                i <= n,
                n == self.data@.len(),
                data@.len() == i,
                forall|k: int| 0 <= k < i ==> data@[k] == self.data@[k],
            decreases n - i,
        {
            data.push(self.data[i]);
            i += 1;
        }
        proof {
            assert(data@ =~= self.data@);
        }
        Tensor { data, width: self.width, height: self.height }
    }
}

} // verus!
