use vstd::prelude::*;
use crate::error::HeatError;

verus! {

/// The mathematical model of a dense field: its shape and its cells in
/// row-major order.
pub ghost struct Field<T> {
    pub rows: nat,
    pub cols: nat,
    pub cells: Seq<T>,
}

impl<T> Field<T> {
    /// The cell sequence holds exactly `rows * cols` values.
    pub open spec fn wf(self) -> bool {
        self.cells.len() == self.rows * self.cols
    }

    /// `(i, j)` names a cell of the field.
    pub open spec fn has(self, i: int, j: int) -> bool {
        0 <= i < self.rows && 0 <= j < self.cols
    }

    /// `(i, j)` names a cell with all four neighbours inside the field.
    pub open spec fn interior(self, i: int, j: int) -> bool {
        0 < i < self.rows - 1 && 0 < j < self.cols - 1
    }

    /// `(i, j)` names a cell of the first or last row or column.
    pub open spec fn boundary(self, i: int, j: int) -> bool {
        self.has(i, j) && !self.interior(i, j)
    }

    /// The value of cell `(i, j)`.
    pub open spec fn at(self, i: int, j: int) -> T {
        self.cells[i * self.cols + j]
    }

    /// Both fields have the same number of rows and of columns.
    pub open spec fn same_shape(self, other: Field<T>) -> bool {
        self.rows == other.rows && self.cols == other.cols
    }

    /// The field with cell `(i, j)` replaced by `value`.
    pub open spec fn put(self, i: int, j: int, value: T) -> Field<T> {
        Field { rows: self.rows, cols: self.cols, cells: self.cells.update(i * self.cols + j, value) }
    }
}

/// The row-major position of a cell lies within the cell sequence.
pub proof fn lemma_position_bound(rows: int, cols: int, i: int, j: int)
    requires
        0 <= i < rows,
        0 <= j < cols,
    ensures
        0 <= i * cols <= i * cols + j < rows * cols,
{
    assert(0 <= i * cols && (i + 1) * cols <= rows * cols && (i + 1) * cols == i * cols + cols)
        by (nonlinear_arith)
        requires
            0 <= i < rows,
            0 < cols,
    ;
}

/// Distinct cells have distinct row-major positions.
pub proof fn lemma_position_injective(cols: int, i: int, j: int, a: int, b: int)
    requires
        0 <= j < cols,
        0 <= b < cols,
        i * cols + j == a * cols + b,
    ensures
        i == a,
        j == b,
{
    assert(i == a) by (nonlinear_arith)
        requires
            0 <= j < cols,
            0 <= b < cols,
            i * cols + j == a * cols + b,
    ;
}

/// Every position of the cell sequence is the row-major position of a cell.
pub proof fn lemma_position_cell(rows: int, cols: int, k: int)
    requires
        0 <= k < rows * cols,
        0 <= rows,
        0 <= cols,
    ensures
        0 <= k / cols < rows,
        0 <= k % cols < cols,
        (k / cols) * cols + k % cols == k,
{
    assert(cols > 0 && k < cols * rows) by (nonlinear_arith)
        requires
            0 <= k < rows * cols,
            0 <= cols,
    ;
    vstd::arithmetic::div_mod::lemma_fundamental_div_mod(k, cols);
    vstd::arithmetic::div_mod::lemma_multiply_divide_lt(k, cols, rows);
    vstd::arithmetic::div_mod::lemma_div_pos_is_pos(k, cols);
    vstd::arithmetic::div_mod::lemma_mod_bound(k, cols);
    assert(cols * (k / cols) == (k / cols) * cols) by (nonlinear_arith);
}

impl<T> Field<T> {
    /// Two well-formed fields of one shape that agree on every cell are equal.
    pub proof fn lemma_equal_by_cells(self, other: Field<T>)
        requires
            self.wf(),
            other.wf(),
            self.same_shape(other),
            forall|i: int, j: int| self.has(i, j) ==> #[trigger] self.at(i, j) == other.at(i, j),
        ensures
            self == other,
    {
        assert forall|k: int| 0 <= k < self.cells.len() implies self.cells[k] == other.cells[k] by {
            lemma_position_cell(self.rows as int, self.cols as int, k);
            let i = k / (self.cols as int);
            let j = k % (self.cols as int);
            assert(self.has(i, j));
            assert(self.at(i, j) == other.at(i, j));
        }
        assert(self.cells =~= other.cells);
    }

    /// Replacing one cell changes that cell and no other.
    pub proof fn lemma_put_at(self, i: int, j: int, value: T, a: int, b: int)
        requires
            self.wf(),
            self.has(i, j),
            self.has(a, b),
        ensures
            self.put(i, j, value).wf(),
            self.put(i, j, value).at(a, b) == if a == i && b == j {
                value
            } else {
                self.at(a, b)
            },
    {
        lemma_position_bound(self.rows as int, self.cols as int, i, j);
        lemma_position_bound(self.rows as int, self.cols as int, a, b);
        if i * self.cols + j == a * self.cols + b {
            lemma_position_injective(self.cols as int, i, j, a, b);
        }
    }
}

/// A dense two-dimensional array stored row by row.
#[derive(Debug, PartialEq)]
pub struct Grid<T> {
    rows: usize,
    cols: usize,
    cells: Vec<T>,
}

impl<T> View for Grid<T> {
    type V = Field<T>;

    closed spec fn view(&self) -> Field<T> {
        Field { rows: self.rows as nat, cols: self.cols as nat, cells: self.cells@ }
    }
}

impl<T> Grid<T> {
    /// Builds a grid of the given shape from its cells in row-major order.
    /// The cell count must be the product of the two extents.
    pub fn from_vec(rows: usize, cols: usize, cells: Vec<T>) -> (r: Result<Grid<T>, HeatError>)
        ensures
            r is Ok <==> cells@.len() == rows * cols,
            r is Err ==> r == Err::<Grid<T>, HeatError>(HeatError::ShapeReconstruction),
            r is Ok ==> r.unwrap()@ == (Field { rows: rows as nat, cols: cols as nat, cells: cells@ })
                && r.unwrap()@.wf(),
    {
        assert(cells.len() == cells@.len());
        match rows.checked_mul(cols) {
            Some(count) => {
                if count == cells.len() {
                    Ok(Grid { rows, cols, cells })
                } else {
                    Err(HeatError::ShapeReconstruction)
                }
            },
            None => Err(HeatError::ShapeReconstruction),
        }
    }

    /// Both extents of a grid are machine-sized.
    pub proof fn lemma_extents_fit(&self)
        ensures
            self@.rows <= usize::MAX,
            self@.cols <= usize::MAX,
    {
    }

    /// The number of rows.
    pub fn rows(&self) -> (r: usize)
        ensures
            r == self@.rows,
    {
        self.rows
    }

    /// The number of columns.
    pub fn cols(&self) -> (r: usize)
        ensures
            r == self@.cols,
    {
        self.cols
    }

    /// The cells in row-major order.
    pub fn cells(&self) -> (r: &Vec<T>)
        ensures
            r@ == self@.cells,
    {
        &self.cells
    }

    /// Gives up the grid for its cells in row-major order.
    pub fn into_cells(self) -> (r: Vec<T>)
        ensures
            r@ == self@.cells,
    {
        self.cells
    }

    /// Whether `(i, j)` is a cell with all four neighbours inside the grid.
    pub fn is_interior(&self, i: usize, j: usize) -> (r: bool)
        ensures
            r == self@.interior(i as int, j as int),
    {
        0 < i && i < self.rows && i + 1 < self.rows && 0 < j && j < self.cols && j + 1 < self.cols
    }

    /// Whether `(i, j)` is a cell of the first or last row or column.
    pub fn is_boundary(&self, i: usize, j: usize) -> (r: bool)
        ensures
            r == self@.boundary(i as int, j as int),
    {
        i < self.rows && j < self.cols && !self.is_interior(i, j)
    }

    /// A reference to cell `(i, j)`.
    pub fn get(&self, i: usize, j: usize) -> (r: &T)
        requires
            self@.wf(),
            self@.has(i as int, j as int),
        ensures
            *r == self@.at(i as int, j as int),
    {
        proof {
            assert(self.cells.len() == self.cells@.len());
            lemma_position_bound(self.rows as int, self.cols as int, i as int, j as int);
        }
        &self.cells[i * self.cols + j]
    }

    /// Replaces cell `(i, j)` and leaves every other cell as it was.
    pub fn set(&mut self, i: usize, j: usize, value: T)
        requires
            old(self)@.wf(),
            old(self)@.has(i as int, j as int),
        ensures
            final(self)@ == old(self)@.put(i as int, j as int, value),
            final(self)@.wf(),
            final(self)@.same_shape(old(self)@),
            forall|a: int, b: int| #![trigger final(self)@.at(a, b)]
                old(self)@.has(a, b) ==> final(self)@.at(a, b) == if a == i && b == j {
                    value
                } else {
                    old(self)@.at(a, b)
                },
    {
        let ghost before = self@;
        proof {
            assert(self.cells.len() == self.cells@.len());
            lemma_position_bound(self.rows as int, self.cols as int, i as int, j as int);
        }
        let k: usize = i * self.cols + j;
        self.cells.set(k, value);
        proof {
            assert forall|a: int, b: int| before.has(a, b) implies #[trigger] self@.at(a, b) == if a
                == i && b == j {
                value
            } else {
                before.at(a, b)
            } by {
                before.lemma_put_at(i as int, j as int, value, a, b);
            }
        }
    }
}

impl<T: Copy> Grid<T> {
    /// A new grid with the same shape and the same cells.
    pub fn duplicate(&self) -> (r: Grid<T>)
        ensures
            r@ == self@,
    {
        let mut cells: Vec<T> = Vec::with_capacity(self.cells.len());
        let mut k: usize = 0;
        while k < self.cells.len()
            invariant
                k <= self.cells@.len(),
                cells@ == self.cells@.subrange(0, k as int),
            decreases self.cells@.len() - k,
        {
            cells.push(self.cells[k]);
            k += 1;
            assert(cells@ =~= self.cells@.subrange(0, k as int));
        }
        assert(cells@ =~= self.cells@);
        Grid { rows: self.rows, cols: self.cols, cells }
    }
}

} // verus!
