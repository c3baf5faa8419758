//! A table of fixed shape that is filled row by row and keeps a cursor on
//! one of its cells.
//!
//! [ a , b , c , d ]
//! [ e , f , g , h ]
//! [ i , j         ]
//!
//! Only the last row that holds anything may end in empty cells.

use crate::grid::Grid;
use vstd::prelude::*;

verus! {

/// The cell of a table that is currently selected.
#[derive(Debug, Eq, PartialEq, Clone, Copy, Structural)]
pub struct TableState {
    pub row: usize,
    pub column: usize,
}

impl TableState {
    /// The state that selects the first cell.
    pub fn new() -> (state: TableState)
        ensures
            state.row == 0,
            state.column == 0,
    {
        TableState { row: 0, column: 0 }
    }

    /// The state that selects the cell at `row`, `column`.
    pub fn new_with(row: usize, column: usize) -> (state: TableState)
        ensures
            state.row == row,
            state.column == column,
    {
        TableState { row, column }
    }
}

/// Why an operation on a table was refused.
#[derive(Debug, Eq, PartialEq, Clone, Copy, Structural)]
pub enum TableError {
    /// More items were given than the table has cells.
    Capacity,
    /// The coordinates name no cell of the table.
    OutOfBounds,
    /// No cell of the selected row holds an item.
    EmptyRow,
    /// No cell of the selected column holds an item.
    NoOccupiedRow,
}

/// The items of `cells` that are present, in order.
pub open spec fn occupied_values<T>(cells: Seq<Option<T>>) -> Seq<T>
    decreases cells.len(),
{
    if cells.len() == 0 {
        Seq::empty()
    } else {
        let rest = occupied_values(cells.drop_last());
        match cells.last() {
            Some(item) => rest.push(item),
            None => rest,
        }
    }
}

/// The cells of `rows` rows of `cols` cells each, one row after the other.
pub open spec fn row_major<T>(items: Seq<Vec<Option<T>>>, rows: nat, cols: nat) -> Seq<Option<T>> {
    Seq::new(rows * cols, |i: int| items[i / (cols as int)]@[i % (cols as int)])
}

/// A table of `rows` by `cols` cells, filled from the first cell on, with a
/// cursor.
#[derive(Debug, Eq, PartialEq, Clone)]
pub struct StatefulTable<T> {
    pub state: TableState,
    pub items: Vec<Vec<Option<T>>>,
    pub rows: usize,
    pub cols: usize,
}

impl<T> View for StatefulTable<T> {
    type V = Grid<T>;

    open spec fn view(&self) -> Grid<T> {
        Grid {
            rows: self.rows as nat,
            cols: self.cols as nat,
            items: occupied_values(row_major(self.items@, self.rows as nat, self.cols as nat)),
            row: self.state.row as nat,
            column: self.state.column as nat,
        }
    }
}

/// Row-major indices and coordinates name the same cells.
pub proof fn lemma_index_of_cell(rows: int, cols: int, row: int, column: int)
    requires
        0 <= row < rows,
        0 <= column < cols,
    ensures
        0 <= row * cols + column < rows * cols,
        (row * cols + column) / cols == row,
        (row * cols + column) % cols == column,
{
    vstd::arithmetic::div_mod::lemma_fundamental_div_mod_converse(row * cols + column, cols, row, column);
    assert(row * cols + column < rows * cols) by (nonlinear_arith)
        requires
            0 <= row < rows,
            0 <= column < cols,
    ;
    assert(0 <= row * cols) by (nonlinear_arith)
        requires
            0 <= row,
            0 < cols,
    ;
}

/// Every row-major index below `rows * cols` names a cell of the table.
pub proof fn lemma_cell_of_index(rows: int, cols: int, i: int)
    requires
        0 < cols,
        0 <= i < rows * cols,
    ensures
        0 <= i / cols < rows,
        0 <= i % cols < cols,
        (i / cols) * cols + i % cols == i,
{
    vstd::arithmetic::div_mod::lemma_fundamental_div_mod(i, cols);
    vstd::arithmetic::div_mod::lemma_mod_bound(i, cols);
    let q = i / cols;
    let r = i % cols;
    assert(cols * q == q * cols) by (nonlinear_arith);
    assert(0 <= q < rows) by (nonlinear_arith)
        requires
            0 < cols,
            0 <= r < cols,
            0 <= q * cols + r < rows * cols,
    ;
}

/// A row-major index at or behind `rows * cols` names a row outside the table.
pub proof fn lemma_index_outside(rows: int, cols: int, i: int)
    requires
        0 < cols,
        0 <= rows,
        rows * cols <= i,
    ensures
        rows <= i / cols,
{
    vstd::arithmetic::div_mod::lemma_fundamental_div_mod(i, cols);
    vstd::arithmetic::div_mod::lemma_mod_bound(i, cols);
    let q = i / cols;
    let r = i % cols;
    assert(cols * q == q * cols) by (nonlinear_arith);
    assert(rows <= q) by (nonlinear_arith)
        requires
            0 < cols,
            0 <= r < cols,
            rows * cols <= q * cols + r,
    ;
}

/// Cells that hold `items` from the first cell on, and nothing behind them,
/// have exactly `items` as their occupied values.
pub proof fn lemma_occupied_values_of_packed<T>(cells: Seq<Option<T>>, items: Seq<T>)
    requires
        items.len() <= cells.len(),
        forall|i: int| 0 <= i < items.len() ==> cells[i] == Some(items[i]),
        forall|i: int| items.len() <= i < cells.len() ==> cells[i] is None,
    ensures
        occupied_values(cells) == items,
    decreases cells.len(),
{
    if cells.len() > 0 {
        if items.len() == cells.len() {
            lemma_occupied_values_of_packed(cells.drop_last(), items.drop_last());
        } else {
            lemma_occupied_values_of_packed(cells.drop_last(), items);
        }
    }
}

impl<T> StatefulTable<T> {
    /// The table has `rows` rows of `cols` cells each.
    pub open spec fn shaped(&self) -> bool {
        &&& self.items@.len() == self.rows
        &&& forall|r: int| 0 <= r < self.rows ==> (#[trigger] self.items@[r])@.len() == self.cols
    }

    /// The table is well formed: its shape is not degenerate and its cell
    /// count fits the machine, the cursor is on a cell, and the items fill
    /// the cells from the first one on, with no gap.
    pub open spec fn wf(&self) -> bool {
        &&& self.shaped()
        &&& self@.wf()
        &&& self.rows * self.cols <= usize::MAX
        &&& forall|r: int, c: int|
            0 <= r < self.rows && 0 <= c < self.cols ==> (#[trigger] self.items@[r]@[c]) == self@.cell(r, c)
    }

    /// A table whose cells hold `items` from the first cell on, and nothing
    /// behind them, is the table of those items.
    pub proof fn lemma_view_of_packed(&self, items: Seq<T>)
        requires
            self.shaped(),
            0 < self.cols,
            items.len() <= self.rows * self.cols,
            forall|r: int, c: int|
                0 <= r < self.rows && 0 <= c < self.cols ==> (#[trigger] self.items@[r]@[c]) == (if r * self.cols
                    + c < items.len() {
                    Some(items[r * self.cols + c])
                } else {
                    None
                }),
        ensures
            self@.items == items,
    {
        let cells = row_major(self.items@, self.rows as nat, self.cols as nat);
        assert forall|i: int| 0 <= i < cells.len() implies #[trigger] cells[i] == (if i < items.len() {
            Some(items[i])
        } else {
            None
        }) by {
            lemma_cell_of_index(self.rows as int, self.cols as int, i);
        }
        lemma_occupied_values_of_packed(cells, items);
    }

    /// Whether the table is well formed, found out by looking at it.
    pub fn is_wf(&self) -> (ok: bool)
        ensures
            ok == self.wf(),
    {
        if self.rows == 0 || self.cols == 0 || self.rows.checked_mul(self.cols).is_none() {
            return false;
        }
        if self.state.row >= self.rows || self.state.column >= self.cols || self.items.len() != self.rows {
            return false;
        }
        let mut r: usize = 0;
        while r < self.rows
            invariant
                r <= self.rows,
                self.items@.len() == self.rows,
                forall|i: int| 0 <= i < r ==> (#[trigger] self.items@[i])@.len() == self.cols,
            decreases self.rows - r,
        {
            if self.items[r].len() != self.cols {
                return false;
            }
            r += 1;
        }
        let ghost cells = row_major(self.items@, self.rows as nat, self.cols as nat);
        let mut n: usize = 0;
        let mut r: usize = 0;
        while r < self.rows
            invariant
                self.shaped(),
                0 < self.cols,
                self.rows * self.cols <= usize::MAX,
                cells == row_major(self.items@, self.rows as nat, self.cols as nat),
                r <= self.rows,
                n <= r * self.cols,
                forall|i: int| 0 <= i < n ==> (#[trigger] cells[i]) is Some,
                forall|i: int| n <= i < r * self.cols ==> (#[trigger] cells[i]) is None,
            decreases self.rows - r,
        {
            let mut c: usize = 0;
            while c < self.cols
                invariant
                    self.shaped(),
                    0 < self.cols,
                    self.rows * self.cols <= usize::MAX,
                    cells == row_major(self.items@, self.rows as nat, self.cols as nat),
                    r < self.rows,
                    c <= self.cols,
                    n <= r * self.cols + c,
                    forall|i: int| 0 <= i < n ==> (#[trigger] cells[i]) is Some,
                    forall|i: int| n <= i < r * self.cols + c ==> (#[trigger] cells[i]) is None,
                decreases self.cols - c,
            {
                proof {
                    lemma_index_of_cell(self.rows as int, self.cols as int, r as int, c as int);
                }
                if self.items[r][c].is_some() {
                    if n < r * self.cols + c {
                        proof {
                            if self.wf() {
                                lemma_cell_of_index(self.rows as int, self.cols as int, n as int);
                                let row = n as int / self.cols as int;
                                let column = n as int % self.cols as int;
                                assert(cells[n as int] == self.items@[row]@[column]);
                            }
                        }
                        return false;
                    }
                    n += 1;
                }
                c += 1;
            }
            proof {
                assert((r + 1) * self.cols == r * self.cols + self.cols) by (nonlinear_arith);
            }
            r += 1;
        }
        proof {
            let items = Seq::new(n as nat, |i: int| cells[i]->0);
            lemma_occupied_values_of_packed(cells, items);
            assert forall|r: int, c: int| 0 <= r < self.rows && 0 <= c < self.cols implies (
            #[trigger] self.items@[r]@[c]) == self@.cell(r, c) by {
                lemma_index_of_cell(self.rows as int, self.cols as int, r, c);
                assert(cells[r * self.cols + c] == self.items@[r]@[c]);
            }
        }
        true
    }

    /// The number of rows.
    pub fn rows(&self) -> (n: usize)
        ensures
            n == self.rows,
    {
        self.rows
    }

    /// The number of columns.
    pub fn cols(&self) -> (n: usize)
        ensures
            n == self.cols,
    {
        self.cols
    }

    /// The number of cells, occupied or not.
    pub fn full_len(&self) -> (n: usize)
        requires
            self.wf(),
        ensures
            n == self@.rows * self@.cols,
    {
        self.rows * self.cols
    }

    /// The empty table of `rows` by `cols` cells, cursor on the first cell.
    pub fn new(rows: usize, cols: usize) -> (table: Self)
        requires
            0 < rows,
            0 < cols,
            rows * cols <= usize::MAX,
        ensures
            table.wf(),
            table@ == Grid::<T>::empty(rows as nat, cols as nat),
    {
        let mut items: Vec<Vec<Option<T>>> = Vec::new();
        let mut r: usize = 0;
        while r < rows
            invariant
                r <= rows,
                items@.len() == r,
                forall|i: int| 0 <= i < r ==> (#[trigger] items@[i])@.len() == cols,
                forall|i: int, j: int| 0 <= i < r && 0 <= j < cols ==> (#[trigger] items@[i]@[j]) is None,
            decreases rows - r,
        {
            let mut row: Vec<Option<T>> = Vec::new();
            let mut c: usize = 0;
            while c < cols
                invariant
                    c <= cols,
                    row@.len() == c,
                    forall|j: int| 0 <= j < c ==> (#[trigger] row@[j]) is None,
                decreases cols - c,
            {
                row.push(None);
                c += 1;
            }
            items.push(row);
            r += 1;
        }
        let table = StatefulTable { state: TableState::new(), items, rows, cols };
        proof {
            table.lemma_view_of_packed(Seq::empty());
        }
        table
    }
}

impl<T> StatefulTable<T> {
    /// Fills the empty cells of a new table with `v`, from the first cell on.
    pub fn with_items(rows: usize, cols: usize, v: Vec<T>) -> (result: Result<Self, TableError>)
        requires
            0 < rows,
            0 < cols,
            rows * cols <= usize::MAX,
        ensures
            result is Err <==> v@.len() > rows * cols,
            result matches Err(e) ==> e == TableError::Capacity,
            result matches Ok(table) ==> table.wf() && table@ == Grid::filled(rows as nat, cols as nat, v@),
            result matches Ok(table) ==> table@.items == v@,
    {
        let mut rest = v;
        if rest.len() > rows * cols {
            return Err(TableError::Capacity);
        }
        let mut table: Self = Self::new(rows, cols);
        while rest.len() > 0
            invariant
                0 < cols,
                rows * cols <= usize::MAX,
                v@.len() <= rows * cols,
                table.shaped(),
                table.rows == rows,
                table.cols == cols,
                table.state.row == 0,
                table.state.column == 0,
                rest@.len() <= v@.len(),
                rest@ == v@.take(rest@.len() as int),
                forall|r: int, c: int|
                    0 <= r < rows && 0 <= c < cols ==> (#[trigger] table.items@[r]@[c]) == (if rest@.len() <= r
                        * cols + c < v@.len() {
                        Some(v@[r * cols + c])
                    } else {
                        None
                    }),
            decreases rest@.len(),
        {
            let item = rest.pop().unwrap();
            let idx: usize = rest.len();
            let r: usize = idx / cols;
            let c: usize = idx % cols;
            proof {
                lemma_cell_of_index(rows as int, cols as int, idx as int);
            }
            table.items[r][c] = Some(item);
            proof {
                assert forall|i: int, j: int| 0 <= i < rows && 0 <= j < cols implies (#[trigger] table.items@[i]@[j])
                    == (if rest@.len() <= i * cols + j < v@.len() {
                    Some(v@[i * cols + j])
                } else {
                    None
                }) by {
                    lemma_index_of_cell(rows as int, cols as int, i, j);
                }
            }
        }
        proof {
            table.lemma_view_of_packed(v@);
        }
        Ok(table)
    }

    /// Moves the cursor to `row`, `column`, if that is a cell of the table.
    pub fn select(&mut self, row: usize, column: usize) -> (result: Result<(), TableError>)
        requires
            old(self).wf(),
        ensures
            final(self).wf(),
            result is Err <==> row >= old(self)@.rows || column >= old(self)@.cols,
            result matches Err(e) ==> e == TableError::OutOfBounds && final(self)@ == old(self)@,
            result is Ok ==> final(self)@ == old(self)@.select(row as nat, column as nat),
    {
        if row >= self.rows || column >= self.cols {
            return Err(TableError::OutOfBounds);
        }
        self.state = TableState { row, column };
        Ok(())
    }

    /// The item under the cursor, if the cell holds one.
    pub fn get_selected(&self) -> (out: Option<&T>)
        requires
            self.wf(),
        ensures
            out is Some <==> self@.selected() is Some,
            out matches Some(item) ==> self@.selected() == Some(*item),
    {
        self.items[self.state.row][self.state.column].as_ref()
    }

    /// The item at `row`, `column`; `None` where the table has no such cell
    /// as well as where the cell is empty.
    pub fn get(&self, row: usize, column: usize) -> (out: Option<&T>)
        requires
            self.wf(),
        ensures
            out is Some <==> self@.cell(row as int, column as int) is Some,
            out matches Some(item) ==> self@.cell(row as int, column as int) == Some(*item),
    {
        if row >= self.rows || column >= self.cols {
            None
        } else {
            self.items[row][column].as_ref()
        }
    }

    /// The item at `row`, `column`, to be changed in place.
    pub fn get_mut(&mut self, row: usize, column: usize) -> (out: Option<&mut T>)
        requires
            old(self).wf(),
        ensures
            final(self).wf(),
            out is Some <==> old(self)@.cell(row as int, column as int) is Some,
            out matches Some(item) ==> old(self)@.cell(row as int, column as int) == Some(*item) && final(self)@
                == old(self)@.with_item(old(self)@.index_of(row as int, column as int), *final(item)),
            out is None ==> final(self)@ == old(self)@,
    {
        if row >= self.rows || column >= self.cols {
            None
        } else {
            let out = self.items[row][column].as_mut();
            proof {
                let after = after_borrow(*self);
                let items = if out is Some {
                    old(self)@.items.update(old(self)@.index_of(row as int, column as int), *final(out->0))
                } else {
                    old(self)@.items
                };
                assert forall|r: int, c: int| 0 <= r < after.rows && 0 <= c < after.cols implies (
                #[trigger] after.items@[r]@[c]) == (if r * after.cols + c < items.len() {
                    Some(items[r * after.cols + c])
                } else {
                    None
                }) by {
                    lemma_index_of_cell(after.rows as int, after.cols as int, r, c);
                    lemma_index_of_cell(after.rows as int, after.cols as int, row as int, column as int);
                }
                after.lemma_view_of_packed(items);
            }
            out
        }
    }
}

impl<T> StatefulTable<T> {
    /// The item under the cursor, to be changed in place.
    pub fn get_selected_mut(&mut self) -> (out: Option<&mut T>)
        requires
            old(self).wf(),
        ensures
            final(self).wf(),
            out is Some <==> old(self)@.selected() is Some,
            out matches Some(item) ==> old(self)@.selected() == Some(*item) && final(self)@ == old(self)@.with_item(
                old(self)@.selected_index(),
                *final(item),
            ),
            out is None ==> final(self)@ == old(self)@,
    {
        let row: usize = self.state.row;
        let column: usize = self.state.column;
        self.get_mut(row, column)
    }

    /// The item with row-major index `idx`, if the table holds that many.
    pub fn get_by_idx(&self, idx: usize) -> (out: Option<&T>)
        requires
            self.wf(),
        ensures
            out is Some <==> idx < self@.items.len(),
            out matches Some(item) ==> *item == self@.items[idx as int],
    {
        let row: usize = idx / self.cols;
        let column: usize = idx % self.cols;
        proof {
            if idx < self.rows * self.cols {
                lemma_cell_of_index(self.rows as int, self.cols as int, idx as int);
            } else {
                lemma_index_outside(self.rows as int, self.cols as int, idx as int);
            }
        }
        self.get(row, column)
    }

    /// The item with row-major index `idx`, to be changed in place.
    pub fn get_by_idx_mut(&mut self, idx: usize) -> (out: Option<&mut T>)
        requires
            old(self).wf(),
        ensures
            final(self).wf(),
            out is Some <==> idx < old(self)@.items.len(),
            out matches Some(item) ==> *item == old(self)@.items[idx as int] && final(self)@ == old(self)@.with_item(
                idx as int,
                *final(item),
            ),
            out is None ==> final(self)@ == old(self)@,
    {
        let row: usize = idx / self.cols;
        let column: usize = idx % self.cols;
        proof {
            if idx < self.rows * self.cols {
                lemma_cell_of_index(self.rows as int, self.cols as int, idx as int);
            } else {
                lemma_index_outside(self.rows as int, self.cols as int, idx as int);
            }
        }
        self.get_mut(row, column)
    }

    /// The number of cells that hold an item.
    pub fn len(&self) -> (n: usize)
        requires
            self.wf(),
        ensures
            n == self@.items.len(),
    {
        let mut n: usize = 0;
        let mut r: usize = 0;
        while r < self.rows
            invariant
                self.wf(),
                r <= self.rows,
                n == if r * self.cols <= self@.items.len() { r * self.cols } else { self@.items.len() as int },
            decreases self.rows - r,
        {
            let mut c: usize = 0;
            while c < self.cols
                invariant
                    self.wf(),
                    r < self.rows,
                    c <= self.cols,
                    n == if r * self.cols + c <= self@.items.len() { r * self.cols + c } else {
                        self@.items.len() as int
                    },
                decreases self.cols - c,
            {
                proof {
                    lemma_index_of_cell(self.rows as int, self.cols as int, r as int, c as int);
                }
                if self.items[r][c].is_some() {
                    n += 1;
                }
                c += 1;
            }
            proof {
                assert((r + 1) * self.cols == r * self.cols + self.cols) by (nonlinear_arith);
            }
            r += 1;
        }
        n
    }

    /// Moves the cursor one row down, from the last row back to the first,
    /// whether or not the cell it reaches holds an item.
    pub fn next_row(&mut self)
        requires
            old(self).wf(),
        ensures
            final(self).wf(),
            final(self)@ == old(self)@.next_row(),
    {
        if self.state.row == self.rows - 1 {
            self.state.row = 0;
        } else {
            self.state.row += 1;
        }
    }

    /// Moves the cursor one row up, from the first row back to the last,
    /// whether or not the cell it reaches holds an item.
    pub fn prev_row(&mut self)
        requires
            old(self).wf(),
        ensures
            final(self).wf(),
            final(self)@ == old(self)@.prev_row(),
    {
        if self.state.row == 0 {
            self.state.row = self.rows - 1;
        } else {
            self.state.row -= 1;
        }
    }

    /// Moves the cursor one column right, from the last column back to the
    /// first, whether or not the cell it reaches holds an item.
    pub fn next_col(&mut self)
        requires
            old(self).wf(),
        ensures
            final(self).wf(),
            final(self)@ == old(self)@.next_col(),
    {
        if self.state.column == self.cols - 1 {
            self.state.column = 0;
        } else {
            self.state.column += 1;
        }
    }

    /// Moves the cursor one column left, from the first column back to the
    /// last, whether or not the cell it reaches holds an item.
    pub fn prev_col(&mut self)
        requires
            old(self).wf(),
        ensures
            final(self).wf(),
            final(self)@ == old(self)@.prev_col(),
    {
        if self.state.column == 0 {
            self.state.column = self.cols - 1;
        } else {
            self.state.column -= 1;
        }
    }
}

impl<T> StatefulTable<T> {
    /// Moves the cursor down, going on from the last row to the first, until
    /// it is on a cell that holds an item. After one full turn without such
    /// a cell the cursor is back where it was, and the move is refused.
    pub fn next_row_checked(&mut self) -> (result: Result<(), TableError>)
        requires
            old(self).wf(),
        ensures
            final(self).wf(),
            final(self)@ == old(self)@.next_row_checked(),
            result is Ok <==> old(self)@.column_occupied(old(self)@.column as int),
            result is Ok ==> final(self)@.selected() is Some,
            result matches Err(e) ==> e == TableError::NoOccupiedRow,
    {
        let mut steps: usize = 0;
        while steps < self.rows
            invariant
                self.wf(),
                old(self)@.wf(),
                self@.rows == old(self)@.rows,
                steps <= self.rows,
                self@ == old(self)@.next_rows(steps as nat),
                forall|j: nat| 1 <= j <= steps ==> (#[trigger] old(self)@.next_rows(j)).selected() is None,
            decreases self.rows - steps,
        {
            self.next_row();
            steps += 1;
            if self.get_selected().is_some() {
                proof {
                    let column = self@.column as int;
                    self@.lemma_occupied_earlier(self@.row as int, column, 0, column);
                    old(self)@.lemma_next_rows(steps as nat);
                    old(self)@.lemma_next_row_checked();
                    let k = choose|k: nat|
                        1 <= k <= old(self)@.rows && old(self)@.next_row_checked() == old(self)@.next_rows(k)
                            && forall|j: nat|
                            1 <= j < k ==> (#[trigger] old(self)@.next_rows(j)).selected() is None;
                    assert(k == steps);
                }
                return Ok(());
            }
        }
        proof {
            old(self)@.lemma_next_row_cycle();
            if old(self)@.column_occupied(old(self)@.column as int) {
                old(self)@.lemma_next_row_checked();
            }
        }
        Err(TableError::NoOccupiedRow)
    }

    /// Moves the cursor up, going on from the first row to the last, until
    /// it is on a cell that holds an item. After one full turn without such
    /// a cell the cursor is back where it was, and the move is refused.
    pub fn prev_row_checked(&mut self) -> (result: Result<(), TableError>)
        requires
            old(self).wf(),
        ensures
            final(self).wf(),
            final(self)@ == old(self)@.prev_row_checked(),
            result is Ok <==> old(self)@.column_occupied(old(self)@.column as int),
            result is Ok ==> final(self)@.selected() is Some,
            result matches Err(e) ==> e == TableError::NoOccupiedRow,
    {
        let mut steps: usize = 0;
        while steps < self.rows
            invariant
                self.wf(),
                old(self)@.wf(),
                self@.rows == old(self)@.rows,
                steps <= self.rows,
                self@ == old(self)@.prev_rows(steps as nat),
                forall|j: nat| 1 <= j <= steps ==> (#[trigger] old(self)@.prev_rows(j)).selected() is None,
            decreases self.rows - steps,
        {
            self.prev_row();
            steps += 1;
            if self.get_selected().is_some() {
                proof {
                    let column = self@.column as int;
                    self@.lemma_occupied_earlier(self@.row as int, column, 0, column);
                    old(self)@.lemma_prev_rows(steps as nat);
                    old(self)@.lemma_prev_row_checked();
                    let k = choose|k: nat|
                        1 <= k <= old(self)@.rows && old(self)@.prev_row_checked() == old(self)@.prev_rows(k)
                            && forall|j: nat|
                            1 <= j < k ==> (#[trigger] old(self)@.prev_rows(j)).selected() is None;
                    assert(k == steps);
                }
                return Ok(());
            }
        }
        proof {
            old(self)@.lemma_prev_row_cycle();
            if old(self)@.column_occupied(old(self)@.column as int) {
                old(self)@.lemma_prev_row_checked();
            }
        }
        Err(TableError::NoOccupiedRow)
    }

    /// Moves the cursor one column right, from the last column back to the
    /// first; from an empty cell it goes on to the first column.
    pub fn next_col_checked(&mut self)
        requires
            old(self).wf(),
        ensures
            final(self).wf(),
            final(self)@ == old(self)@.next_col_checked(),
            old(self)@.row_occupied(old(self)@.row as int) ==> final(self)@.selected() is Some,
    {
        self.next_col();
        if self.get_selected().is_none() {
            self.state.column = 0;
        }
    }

    /// Moves the cursor one column left, from the first column back to the
    /// last, and from there back to the nearest cell that holds an item.
    /// In a row that holds nothing the second part is refused.
    pub fn prev_col_checked(&mut self) -> (result: Result<(), TableError>)
        requires
            old(self).wf(),
        ensures
            final(self).wf(),
            final(self)@ == old(self)@.prev_col_checked(),
            result is Ok <==> old(self)@.row_occupied(old(self)@.row as int),
            result is Ok ==> final(self)@.selected() is Some,
            result matches Err(e) ==> e == TableError::EmptyRow,
    {
        self.prev_col();
        self.carriage_return()
    }

    /// Whether some cell of `row` holds an item.
    fn row_has_item(&self, row: usize) -> (found: bool)
        requires
            self.wf(),
            row < self.rows,
        ensures
            found == self@.row_occupied(row as int),
    {
        let mut c: usize = 0;
        while c < self.cols
            invariant
                self.wf(),
                row < self.rows,
                c <= self.cols,
                forall|j: int| 0 <= j < c ==> !self@.occupied(row as int, j),
            decreases self.cols - c,
        {
            if self.items[row][c].is_some() {
                proof {
                    self@.lemma_occupied_earlier(row as int, c as int, row as int, 0);
                }
                return true;
            }
            c += 1;
        }
        false
    }

    /// Moves the cursor left from an empty cell, going on from the first
    /// column to the last, until it is on a cell that holds an item. On such
    /// a cell it stays.
    ///
    /// [ a ,  b ,  c ]        [ a ,  b ,  c ]
    /// [ d ,  e , [ ]]   =>   [ d , [e],    ]
    ///
    /// In a row that holds nothing the move is refused.
    pub fn carriage_return(&mut self) -> (result: Result<(), TableError>)
        requires
            old(self).wf(),
        ensures
            final(self).wf(),
            final(self)@ == old(self)@.carriage_return(),
            result is Ok <==> old(self)@.row_occupied(old(self)@.row as int),
            result is Ok ==> final(self)@.selected() is Some,
            result matches Err(e) ==> e == TableError::EmptyRow,
    {
        if !self.row_has_item(self.state.row) {
            return Err(TableError::EmptyRow);
        }
        proof {
            old(self)@.lemma_carriage_return();
        }
        let ghost k = choose|k: nat|
            k < old(self)@.cols && old(self)@.carriage_return() == old(self)@.prev_cols(k) && forall|j: nat|
                j < k ==> (#[trigger] old(self)@.prev_cols(j)).selected() is None;
        let mut steps: usize = 0;
        while self.get_selected().is_none()
            invariant
                self.wf(),
                steps <= k,
                k < old(self)@.cols,
                old(self)@.carriage_return() == old(self)@.prev_cols(k),
                old(self)@.carriage_return().selected() is Some,
                forall|j: nat| j < k ==> (#[trigger] old(self)@.prev_cols(j)).selected() is None,
                self@ == old(self)@.prev_cols(steps as nat),
            decreases k - steps,
        {
            self.prev_col();
            steps += 1;
        }
        Ok(())
    }
}

impl<T: Copy> StatefulTable<T> {
    /// The items of the table in row-major order, the empty cells left out.
    pub fn as_vec(&self) -> (v: Vec<T>)
        requires
            self.wf(),
        ensures
            v@ == self@.items,
            v@.len() == self@.items.len(),
    {
        let mut v: Vec<T> = Vec::new();
        let mut r: usize = 0;
        while r < self.rows
            invariant
                self.wf(),
                r <= self.rows,
                v@ == if r * self.cols <= self@.items.len() { self@.items.take(r * self.cols) } else {
                    self@.items
                },
            decreases self.rows - r,
        {
            let mut c: usize = 0;
            while c < self.cols
                invariant
                    self.wf(),
                    r < self.rows,
                    c <= self.cols,
                    v@ == if r * self.cols + c <= self@.items.len() { self@.items.take(r * self.cols + c) } else {
                        self@.items
                    },
                decreases self.cols - c,
            {
                proof {
                    lemma_index_of_cell(self.rows as int, self.cols as int, r as int, c as int);
                }
                if let Some(item) = self.items[r][c] {
                    v.push(item);
                }
                c += 1;
            }
            proof {
                assert((r + 1) * self.cols == r * self.cols + self.cols) by (nonlinear_arith);
            }
            r += 1;
        }
        v
    }
}

} // verus!
