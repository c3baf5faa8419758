//! The mathematical model of a table: what it holds, where its cursor is,
//! and where each move takes the cursor.

use vstd::prelude::*;

verus! {

/// A move of the cursor of a table.
pub enum Move {
    /// To the cell at `row`, `column`, if the table has such a cell.
    Select { row: nat, column: nat },
    /// One row down.
    NextRow,
    /// One row up.
    PrevRow,
    /// One column right.
    NextCol,
    /// One column left.
    PrevCol,
    /// Down to the next occupied cell.
    NextRowChecked,
    /// Up to the next occupied cell.
    PrevRowChecked,
    /// One column right, or to the first column from an empty cell.
    NextColChecked,
    /// One column left, and on to the nearest occupied cell.
    PrevColChecked,
    /// Left from an empty cell to the nearest occupied cell.
    CarriageReturn,
}

/// What a table is, mathematically: its shape, the items it holds in
/// row-major order, and the position of its cursor.
///
/// The item with index `i` sits in row `i / cols`, column `i % cols`; the
/// cells behind the last item are empty.
pub struct Grid<T> {
    pub rows: nat,
    pub cols: nat,
    pub items: Seq<T>,
    pub row: nat,
    pub column: nat,
}

impl<T> Grid<T> {
    /// The shape is not degenerate, the items fit, and the cursor is on a cell.
    pub open spec fn wf(self) -> bool {
        &&& 0 < self.rows
        &&& 0 < self.cols
        &&& self.items.len() <= self.rows * self.cols
        &&& self.row < self.rows
        &&& self.column < self.cols
    }

    /// The row-major index of the cell at `row`, `column`.
    pub open spec fn index_of(self, row: int, column: int) -> int {
        row * self.cols + column
    }

    /// Whether `row`, `column` names a cell that holds an item.
    pub open spec fn occupied(self, row: int, column: int) -> bool {
        &&& 0 <= row < self.rows
        &&& 0 <= column < self.cols
        &&& self.index_of(row, column) < self.items.len()
    }

    /// What the cell at `row`, `column` holds; `None` outside the table too.
    pub open spec fn cell(self, row: int, column: int) -> Option<T> {
        if self.occupied(row, column) {
            Some(self.items[self.index_of(row, column)])
        } else {
            None
        }
    }

    /// The row-major index of the cell under the cursor.
    pub open spec fn selected_index(self) -> int {
        self.index_of(self.row as int, self.column as int)
    }

    /// What the cell under the cursor holds.
    pub open spec fn selected(self) -> Option<T> {
        self.cell(self.row as int, self.column as int)
    }

    /// The same table with the item of index `i` replaced by `item`.
    pub open spec fn with_item(self, i: int, item: T) -> Grid<T> {
        Grid { items: self.items.update(i, item), ..self }
    }

    /// The same table with `f` applied to every item.
    pub open spec fn map_items<U>(self, f: spec_fn(T) -> U) -> Grid<U> {
        Grid {
            rows: self.rows,
            cols: self.cols,
            items: self.items.map_values(f),
            row: self.row,
            column: self.column,
        }
    }

    /// The same table with the item under the cursor replaced by `item`.
    /// On an empty cell, the table as it is.
    pub open spec fn with_selected(self, item: T) -> Grid<T> {
        if self.selected() is Some {
            self.with_item(self.selected_index(), item)
        } else {
            self
        }
    }

    /// The same table with the cursor at `row`, `column`.
    pub open spec fn select(self, row: nat, column: nat) -> Grid<T> {
        Grid { row, column, ..self }
    }

    /// The cursor one row further down, from the last row back to the first.
    pub open spec fn next_row(self) -> Grid<T> {
        Grid { row: if self.row + 1 >= self.rows { 0 } else { self.row + 1 }, ..self }
    }

    /// The cursor one row further up, from the first row back to the last.
    pub open spec fn prev_row(self) -> Grid<T> {
        Grid { row: if self.row == 0 { (self.rows - 1) as nat } else { (self.row - 1) as nat }, ..self }
    }

    /// The cursor one column further right, from the last column back to the first.
    pub open spec fn next_col(self) -> Grid<T> {
        Grid { column: if self.column + 1 >= self.cols { 0 } else { self.column + 1 }, ..self }
    }

    /// The cursor one column further left, from the first column back to the last.
    pub open spec fn prev_col(self) -> Grid<T> {
        Grid { column: if self.column == 0 { (self.cols - 1) as nat } else { (self.column - 1) as nat }, ..self }
    }

    /// The cursor after `n` moves down.
    pub open spec fn next_rows(self, n: nat) -> Grid<T>
        decreases n,
    {
        if n == 0 {
            self
        } else {
            self.next_rows((n - 1) as nat).next_row()
        }
    }

    /// The cursor after `n` moves up.
    pub open spec fn prev_rows(self, n: nat) -> Grid<T>
        decreases n,
    {
        if n == 0 {
            self
        } else {
            self.prev_rows((n - 1) as nat).prev_row()
        }
    }

    /// The cursor after `n` moves right.
    pub open spec fn next_cols(self, n: nat) -> Grid<T>
        decreases n,
    {
        if n == 0 {
            self
        } else {
            self.next_cols((n - 1) as nat).next_col()
        }
    }

    /// The cursor after `n` moves left.
    pub open spec fn prev_cols(self, n: nat) -> Grid<T>
        decreases n,
    {
        if n == 0 {
            self
        } else {
            self.prev_cols((n - 1) as nat).prev_col()
        }
    }

    /// Whether some cell of `row` holds an item. The cells fill from the
    /// left, so the first one does if any does.
    pub open spec fn row_occupied(self, row: int) -> bool {
        self.occupied(row, 0)
    }

    /// Whether some cell of `column` holds an item. The rows fill from the
    /// top, so the first one does if any does.
    pub open spec fn column_occupied(self, column: int) -> bool {
        self.occupied(0, column)
    }

    /// The last row whose cell in `column` holds an item, where the column
    /// holds one at all.
    pub open spec fn last_row(self, column: int) -> int {
        (self.items.len() - 1 - column) / (self.cols as int)
    }

    /// The last column of `row` that holds an item, where `row` is the last
    /// row that holds one.
    pub open spec fn last_column(self, row: int) -> int {
        self.items.len() - 1 - row * self.cols
    }

    /// The cursor on the next occupied cell further down in its column,
    /// going on from the last row to the first. Where the column holds
    /// nothing, the cursor stays.
    pub open spec fn next_row_checked(self) -> Grid<T> {
        if !self.column_occupied(self.column as int) {
            self
        } else if self.occupied(self.row as int + 1, self.column as int) {
            Grid { row: self.row + 1, ..self }
        } else {
            Grid { row: 0, ..self }
        }
    }

    /// The cursor on the next occupied cell further up in its column, going
    /// on from the first row to the last. Where the column holds nothing,
    /// the cursor stays.
    pub open spec fn prev_row_checked(self) -> Grid<T> {
        if !self.column_occupied(self.column as int) {
            self
        } else if self.occupied(self.row as int - 1, self.column as int) {
            Grid { row: (self.row - 1) as nat, ..self }
        } else {
            Grid { row: self.last_row(self.column as int) as nat, ..self }
        }
    }

    /// The cursor one column further right if that cell holds an item, and
    /// else on the first column.
    pub open spec fn next_col_checked(self) -> Grid<T> {
        if self.next_col().selected() is Some {
            self.next_col()
        } else {
            Grid { column: 0, ..self }
        }
    }

    /// The cursor moved left from an empty cell to the nearest occupied cell
    /// of its row. On an occupied cell, and in a row that holds nothing, the
    /// cursor stays.
    pub open spec fn carriage_return(self) -> Grid<T> {
        if !self.row_occupied(self.row as int) || self.selected() is Some {
            self
        } else {
            Grid { column: self.last_column(self.row as int) as nat, ..self }
        }
    }

    /// The cursor one column further left, and from there back to the
    /// nearest occupied cell of the row.
    pub open spec fn prev_col_checked(self) -> Grid<T> {
        self.prev_col().carriage_return()
    }

    /// The table after the move `m`.
    pub open spec fn moved(self, m: Move) -> Grid<T> {
        match m {
            Move::Select { row, column } => if row < self.rows && column < self.cols {
                self.select(row, column)
            } else {
                self
            },
            Move::NextRow => self.next_row(),
            Move::PrevRow => self.prev_row(),
            Move::NextCol => self.next_col(),
            Move::PrevCol => self.prev_col(),
            Move::NextRowChecked => self.next_row_checked(),
            Move::PrevRowChecked => self.prev_row_checked(),
            Move::NextColChecked => self.next_col_checked(),
            Move::PrevColChecked => self.prev_col_checked(),
            Move::CarriageReturn => self.carriage_return(),
        }
    }

    /// The table after the moves `moves`, one after the other.
    pub open spec fn moved_all(self, moves: Seq<Move>) -> Grid<T>
        decreases moves.len(),
    {
        if moves.len() == 0 {
            self
        } else {
            self.moved_all(moves.drop_last()).moved(moves.last())
        }
    }

    /// The empty table of the given shape, cursor on the first cell.
    pub open spec fn empty(rows: nat, cols: nat) -> Grid<T> {
        Grid { rows, cols, items: Seq::empty(), row: 0, column: 0 }
    }

    /// The table of the given shape filled with `items`, cursor on the first cell.
    pub open spec fn filled(rows: nat, cols: nat, items: Seq<T>) -> Grid<T> {
        Grid { rows, cols, items, row: 0, column: 0 }
    }

    /// The row that `n` moves down reach, for `n` up to the number of rows.
    pub open spec fn row_below(self, n: int) -> int {
        if self.row + n >= self.rows {
            self.row + n - self.rows
        } else {
            self.row + n
        }
    }

    /// The row that `n` moves up reach, for `n` up to the number of rows.
    pub open spec fn row_above(self, n: int) -> int {
        if self.row - n < 0 {
            self.row - n + self.rows
        } else {
            self.row - n
        }
    }

    /// The column that `n` moves right reach, for `n` up to the number of columns.
    pub open spec fn column_right(self, n: int) -> int {
        if self.column + n >= self.cols {
            self.column + n - self.cols
        } else {
            self.column + n
        }
    }

    /// The column that `n` moves left reach, for `n` up to the number of columns.
    pub open spec fn column_left(self, n: int) -> int {
        if self.column - n < 0 {
            self.column - n + self.cols
        } else {
            self.column - n
        }
    }

    /// Up to one full turn, `n` moves down add `n` to the row and take the
    /// number of rows off where the sum reaches it.
    pub proof fn lemma_next_rows(self, n: nat)
        requires
            self.wf(),
            n <= self.rows,
        ensures
            self.next_rows(n) == (Grid { row: self.row_below(n as int) as nat, ..self }),
        decreases n,
    {
        if n > 0 {
            self.lemma_next_rows((n - 1) as nat);
        }
    }

    /// Up to one full turn, `n` moves up take `n` off the row and add the
    /// number of rows where the difference falls below zero.
    pub proof fn lemma_prev_rows(self, n: nat)
        requires
            self.wf(),
            n <= self.rows,
        ensures
            self.prev_rows(n) == (Grid { row: self.row_above(n as int) as nat, ..self }),
        decreases n,
    {
        if n > 0 {
            self.lemma_prev_rows((n - 1) as nat);
        }
    }

    /// Up to one full turn, `n` moves right add `n` to the column and take
    /// the number of columns off where the sum reaches it.
    pub proof fn lemma_next_cols(self, n: nat)
        requires
            self.wf(),
            n <= self.cols,
        ensures
            self.next_cols(n) == (Grid { column: self.column_right(n as int) as nat, ..self }),
        decreases n,
    {
        if n > 0 {
            self.lemma_next_cols((n - 1) as nat);
        }
    }

    /// Up to one full turn, `n` moves left take `n` off the column and add
    /// the number of columns where the difference falls below zero.
    pub proof fn lemma_prev_cols(self, n: nat)
        requires
            self.wf(),
            n <= self.cols,
        ensures
            self.prev_cols(n) == (Grid { column: self.column_left(n as int) as nat, ..self }),
        decreases n,
    {
        if n > 0 {
            self.lemma_prev_cols((n - 1) as nat);
        }
    }

    /// As many moves down as the table has rows bring the cursor back to
    /// where it was.
    pub proof fn lemma_next_row_cycle(self)
        requires
            self.wf(),
        ensures
            self.next_rows(self.rows) == self,
    {
        self.lemma_next_rows(self.rows);
    }

    /// As many moves up as the table has rows bring the cursor back to where
    /// it was.
    pub proof fn lemma_prev_row_cycle(self)
        requires
            self.wf(),
        ensures
            self.prev_rows(self.rows) == self,
    {
        self.lemma_prev_rows(self.rows);
    }

    /// As many moves right as the table has columns bring the cursor back to
    /// where it was.
    pub proof fn lemma_next_col_cycle(self)
        requires
            self.wf(),
        ensures
            self.next_cols(self.cols) == self,
    {
        self.lemma_next_cols(self.cols);
    }

    /// As many moves left as the table has columns bring the cursor back to
    /// where it was.
    pub proof fn lemma_prev_col_cycle(self)
        requires
            self.wf(),
        ensures
            self.prev_cols(self.cols) == self,
    {
        self.lemma_prev_cols(self.cols);
    }

    /// A move up undoes a move down, and a move down undoes a move up.
    pub proof fn lemma_row_moves_inverse(self)
        requires
            self.wf(),
        ensures
            self.next_row().prev_row() == self,
            self.prev_row().next_row() == self,
    {
    }

    /// A move left undoes a move right, and a move right undoes a move left.
    pub proof fn lemma_col_moves_inverse(self)
        requires
            self.wf(),
        ensures
            self.next_col().prev_col() == self,
            self.prev_col().next_col() == self,
    {
    }

    /// A cell that comes before an occupied cell, in its column or in its
    /// row, is occupied.
    pub proof fn lemma_occupied_earlier(self, row: int, column: int, r: int, c: int)
        requires
            self.occupied(row, column),
            0 <= r <= row,
            0 <= c < self.cols,
            r < row || c <= column,
        ensures
            self.occupied(r, c),
    {
        let cols = self.cols as int;
        if r < row {
            assert(r * cols + c < row * cols) by (nonlinear_arith)
                requires
                    0 <= r < row,
                    0 <= c < cols,
            ;
        }
    }

    /// The occupied cells are the cells of the items, one for one: the cell
    /// of item `i` is occupied, every occupied cell is the cell of an item,
    /// and no two cells have the same index. So the table holds as many
    /// items as it has occupied cells.
    pub proof fn lemma_occupied_cells_are_items(self)
        requires
            self.wf(),
        ensures
            forall|i: int|
                0 <= i < self.items.len() ==> self.occupied(i / (self.cols as int), i % (self.cols as int))
                    && #[trigger] self.cell(i / (self.cols as int), i % (self.cols as int)) == Some(
                    self.items[i],
                ),
            forall|r: int, c: int| #[trigger]
                self.occupied(r, c) ==> 0 <= self.index_of(r, c) < self.items.len() && self.index_of(r, c) / (
                self.cols as int) == r && self.index_of(r, c) % (self.cols as int) == c,
    {
        let cols = self.cols as int;
        let rows = self.rows as int;
        assert forall|i: int| 0 <= i < self.items.len() implies self.occupied(i / cols, i % cols)
            && #[trigger] self.cell(i / cols, i % cols) == Some(self.items[i]) by {
            vstd::arithmetic::div_mod::lemma_fundamental_div_mod(i, cols);
            vstd::arithmetic::div_mod::lemma_mod_bound(i, cols);
            let q = i / cols;
            let r = i % cols;
            assert(0 <= q < rows) by (nonlinear_arith)
                requires
                    0 < cols,
                    0 <= r < cols,
                    0 <= q * cols + r < rows * cols,
            ;
        }
        assert forall|r: int, c: int| #[trigger] self.occupied(r, c) implies 0 <= self.index_of(r, c)
            < self.items.len() && self.index_of(r, c) / cols == r && self.index_of(r, c) % cols == c by {
            vstd::arithmetic::div_mod::lemma_fundamental_div_mod_converse(r * cols + c, cols, r, c);
            assert(0 <= r * cols) by (nonlinear_arith)
                requires
                    0 <= r,
                    0 < cols,
            ;
        }
    }

    /// A row holds an item exactly if its first cell does.
    pub proof fn lemma_row_occupied(self, row: int)
        ensures
            self.row_occupied(row) <==> exists|c: int| self.occupied(row, c),
    {
        if exists|c: int| self.occupied(row, c) {
            let c = choose|c: int| self.occupied(row, c);
            self.lemma_occupied_earlier(row, c, row, 0);
        }
    }

    /// A column holds an item exactly if its first cell does.
    pub proof fn lemma_column_occupied(self, column: int)
        ensures
            self.column_occupied(column) <==> exists|r: int| self.occupied(r, column),
    {
        if exists|r: int| self.occupied(r, column) {
            let r = choose|r: int| self.occupied(r, column);
            self.lemma_occupied_earlier(r, column, 0, column);
        }
    }

    /// In a column that holds an item, `last_row` is the last row whose cell
    /// holds one.
    pub proof fn lemma_last_row(self, column: int)
        requires
            self.wf(),
            self.column_occupied(column),
        ensures
            self.occupied(self.last_row(column), column),
            forall|r: int| self.last_row(column) < r ==> !self.occupied(r, column),
    {
        let cols = self.cols as int;
        let rows = self.rows as int;
        let x = self.items.len() - 1 - column;
        let last = x / cols;
        vstd::arithmetic::div_mod::lemma_fundamental_div_mod(x, cols);
        vstd::arithmetic::div_mod::lemma_mod_bound(x, cols);
        let rem = x % cols;
        assert(0 <= last < rows) by (nonlinear_arith)
            requires
                0 < cols,
                0 <= rem < cols,
                0 <= column,
                0 <= last * cols + rem,
                last * cols + rem + column < rows * cols,
        ;
        assert forall|r: int| last < r implies !self.occupied(r, column) by {
            assert(r * cols >= last * cols + cols) by (nonlinear_arith)
                requires
                    last < r,
                    0 < cols,
            ;
        }
    }

    /// Where the cursor's column holds an item, the checked move down puts
    /// the cursor on an occupied cell: the first one that moves down reach.
    pub proof fn lemma_next_row_checked(self)
        requires
            self.wf(),
            self.column_occupied(self.column as int),
        ensures
            self.next_row_checked().wf(),
            self.next_row_checked().selected() is Some,
            exists|k: nat|
                1 <= k <= self.rows && self.next_row_checked() == self.next_rows(k) && forall|j: nat|
                    1 <= j < k ==> (#[trigger] self.next_rows(j)).selected() is None,
    {
        let column = self.column as int;
        if self.occupied(self.row as int + 1, column) {
            self.lemma_next_rows(1);
        } else {
            let k = (self.rows - self.row) as nat;
            self.lemma_next_rows(k);
            assert forall|j: nat| 1 <= j < k implies (#[trigger] self.next_rows(j)).selected() is None by {
                self.lemma_next_rows(j);
                let r = self.row as int + j as int;
                if self.occupied(r, column) {
                    self.lemma_occupied_earlier(r, column, self.row as int + 1, column);
                }
            }
        }
    }

    /// Where the cursor's column holds an item, the checked move up puts the
    /// cursor on an occupied cell: the first one that moves up reach.
    pub proof fn lemma_prev_row_checked(self)
        requires
            self.wf(),
            self.column_occupied(self.column as int),
        ensures
            self.prev_row_checked().wf(),
            self.prev_row_checked().selected() is Some,
            exists|k: nat|
                1 <= k <= self.rows && self.prev_row_checked() == self.prev_rows(k) && forall|j: nat|
                    1 <= j < k ==> (#[trigger] self.prev_rows(j)).selected() is None,
    {
        let column = self.column as int;
        self.lemma_last_row(column);
        let last = self.last_row(column);
        if self.occupied(self.row as int - 1, column) {
            self.lemma_prev_rows(1);
        } else {
            let k = (if last < self.row {
                self.row - last
            } else {
                self.row + self.rows - last
            }) as nat;
            if self.row >= 1 && last >= self.row - 1 {
                self.lemma_occupied_earlier(last, column, self.row as int - 1, column);
            }
            self.lemma_prev_rows(k);
            assert forall|j: nat| 1 <= j < k implies (#[trigger] self.prev_rows(j)).selected() is None by {
                self.lemma_prev_rows(j);
                assert(!self.occupied(self.row_above(j as int), column));
            }
        }
    }

    /// Where the cursor's row holds an item, the checked move right puts the
    /// cursor on an occupied cell.
    pub proof fn lemma_next_col_checked(self)
        requires
            self.wf(),
            self.row_occupied(self.row as int),
        ensures
            self.next_col_checked().wf(),
            self.next_col_checked().selected() is Some,
    {
    }

    /// Where the cursor's row holds an item, the carriage return leaves the
    /// cursor on an occupied cell: the first one that moves left reach,
    /// counting the cell it starts on.
    pub proof fn lemma_carriage_return(self)
        requires
            self.wf(),
            self.row_occupied(self.row as int),
        ensures
            self.carriage_return().wf(),
            self.carriage_return().selected() is Some,
            exists|k: nat|
                k < self.cols && self.carriage_return() == self.prev_cols(k) && forall|j: nat|
                    j < k ==> (#[trigger] self.prev_cols(j)).selected() is None,
    {
        if self.selected() is Some {
            assert(self.carriage_return() == self.prev_cols(0));
        } else {
            let last = self.last_column(self.row as int);
            let k = (self.column - last) as nat;
            self.lemma_prev_cols(k);
            assert forall|j: nat| j < k implies (#[trigger] self.prev_cols(j)).selected() is None by {
                self.lemma_prev_cols(j);
            }
        }
    }

    /// Where the cursor's row holds an item, the checked move left puts the
    /// cursor on an occupied cell.
    pub proof fn lemma_prev_col_checked(self)
        requires
            self.wf(),
            self.row_occupied(self.row as int),
        ensures
            self.prev_col_checked().wf(),
            self.prev_col_checked().selected() is Some,
    {
        self.prev_col().lemma_carriage_return();
    }

    /// Applying `f` to every item changes neither the shape nor the cursor
    /// nor which cells are occupied, so it changes no move.
    pub proof fn lemma_map_items<U>(self, f: spec_fn(T) -> U)
        ensures
            self.map_items(f).wf() == self.wf(),
            forall|r: int, c: int| #[trigger] self.map_items(f).occupied(r, c) == self.occupied(r, c),
            self.map_items(f).selected() == (match self.selected() {
                Some(item) => Some(f(item)),
                None => None,
            }),
            self.map_items(f).next_row() == self.next_row().map_items(f),
            self.map_items(f).prev_row() == self.prev_row().map_items(f),
            self.map_items(f).next_col() == self.next_col().map_items(f),
            self.map_items(f).prev_col() == self.prev_col().map_items(f),
            self.map_items(f).next_row_checked() == self.next_row_checked().map_items(f),
            self.map_items(f).prev_row_checked() == self.prev_row_checked().map_items(f),
            self.map_items(f).next_col_checked() == self.next_col_checked().map_items(f),
            self.map_items(f).carriage_return() == self.carriage_return().map_items(f),
            self.map_items(f).prev_col_checked() == self.prev_col_checked().map_items(f),
    {
    }

    /// Replacing the item under the cursor by itself changes nothing.
    pub proof fn lemma_with_selected_same(self)
        ensures
            self.selected() matches Some(item) ==> self.with_selected(item) == self,
    {
        if self.selected() is Some {
            assert(self.items.update(self.selected_index(), self.selected()->0) =~= self.items);
        }
    }

    /// Replacing an item and then applying `f` to every item is applying `f`
    /// and then replacing the item by what `f` makes of it.
    pub proof fn lemma_map_with_item<U>(self, f: spec_fn(T) -> U, i: int, item: T)
        requires
            0 <= i < self.items.len(),
        ensures
            self.with_item(i, item).map_items(f) == self.map_items(f).with_item(i, f(item)),
    {
        assert(self.items.update(i, item).map_values(f) =~= self.items.map_values(f).update(i, f(item)));
    }

    /// A move changes nothing but the cursor, and leaves it on a cell.
    pub proof fn lemma_move_keeps_items(self, m: Move)
        requires
            self.wf(),
        ensures
            self.moved(m).wf(),
            self.moved(m).items == self.items,
            self.moved(m).rows == self.rows,
            self.moved(m).cols == self.cols,
    {
        if self.column_occupied(self.column as int) {
            self.lemma_next_row_checked();
            self.lemma_prev_row_checked();
        }
        if self.row_occupied(self.row as int) {
            self.lemma_carriage_return();
        }
        if self.prev_col().row_occupied(self.row as int) {
            self.prev_col().lemma_carriage_return();
        }
    }

    /// No run of moves, however long, changes what the table holds: the
    /// items are the same, in the same order, and so is the shape.
    pub proof fn lemma_moves_keep_items(self, moves: Seq<Move>)
        requires
            self.wf(),
        ensures
            self.moved_all(moves).wf(),
            self.moved_all(moves).items == self.items,
            self.moved_all(moves).rows == self.rows,
            self.moved_all(moves).cols == self.cols,
        decreases moves.len(),
    {
        if moves.len() > 0 {
            self.lemma_moves_keep_items(moves.drop_last());
            self.moved_all(moves.drop_last()).lemma_move_keeps_items(moves.last());
        }
    }

    /// A table filled with `items` holds exactly `items`, in their order,
    /// after any run of moves.
    pub proof fn lemma_filled_keeps_items(rows: nat, cols: nat, items: Seq<T>, moves: Seq<Move>)
        requires
            0 < rows,
            0 < cols,
            items.len() <= rows * cols,
        ensures
            Grid::filled(rows, cols, items).moved_all(moves).items == items,
    {
        Grid::filled(rows, cols, items).lemma_moves_keep_items(moves);
    }
}

} // verus!
