//! The wrapping icon grid: how many columns fit, and where each entry goes.

use vstd::prelude::*;

verus! {

/// The number of columns that fit into `available_width` when every column is
/// `cell_width` wide: the whole number of cells that fit, and one column when
/// not even one cell fits.
pub open spec fn column_capacity(available_width: nat, cell_width: nat) -> nat
    recommends
        cell_width > 0,
{
    if available_width / cell_width >= 1 {
        available_width / cell_width
    } else {
        1
    }
}

/// The number of rows that `count` entries fill at `capacity` entries per row.
pub open spec fn row_count(count: nat, capacity: nat) -> nat
    recommends
        capacity > 0,
{
    if count % capacity == 0 {
        count / capacity
    } else {
        count / capacity + 1
    }
}

/// The rows are as many as the entries need and no more: every entry stands
/// in one of them, and the last entry stands in the last row.
pub proof fn lemma_rows_hold_entries(count: nat, capacity: nat, index: nat)
    requires
        capacity > 0,
        index < count,
    ensures
        index / capacity < row_count(count, capacity),
        (count - 1) / (capacity as int) == row_count(count, capacity) - 1,
{
    let rows = count / capacity;
    let rest = count % capacity;
    assert(rows * capacity + rest == count && 0 <= rest < capacity) by (nonlinear_arith)
        requires
            capacity > 0,
            rows == count / capacity,
            rest == count % capacity,
    ;
    assert(index / capacity <= (count - 1) / (capacity as int)) by (nonlinear_arith)
        requires
            capacity > 0,
            index <= count - 1,
    ;
    if rest == 0 {
        assert((count - 1) / (capacity as int) == rows - 1) by (nonlinear_arith)
            requires
                capacity > 0,
                rows * capacity == count,
                count > 0,
        ;
    } else {
        assert((count - 1) / (capacity as int) == rows) by (nonlinear_arith)
            requires
                capacity > 0,
                rows * capacity + rest == count,
                0 < rest < capacity,
        ;
    }
}

/// Row and column of one entry, both counted from zero.
#[derive(Clone, Copy, Debug, PartialEq, Eq, Structural)]
pub struct GridPosition {
    pub row: usize,
    pub column: usize,
}

/// The fixed measures of the grid. Positions are derived from them and from
/// the width that is available at the moment; nothing is remembered between
/// two calls.
#[derive(Clone, Copy, Debug)]
pub struct GridLayout {
    cell_width: u32,
    row_height: u32,
    spacing: u32,
}

impl GridLayout {
    /// A layout is well formed when its cells have a width.
    pub closed spec fn wf(&self) -> bool {
        self.cell_width > 0
    }

    /// The width of a cell.
    pub closed spec fn spec_cell_width(&self) -> nat {
        self.cell_width as nat
    }

    /// The height of a row.
    pub closed spec fn spec_row_height(&self) -> nat {
        self.row_height as nat
    }

    /// The distance between two cells, across and down.
    pub closed spec fn spec_spacing(&self) -> nat {
        self.spacing as nat
    }

    /// The number of columns of this layout in `available_width`.
    pub open spec fn capacity(&self, available_width: nat) -> nat {
        column_capacity(available_width, self.spec_cell_width())
    }

    /// The row of entry `index` in `available_width`, counted from zero.
    pub open spec fn row_of(&self, index: nat, available_width: nat) -> nat {
        index / self.capacity(available_width)
    }

    /// The column of entry `index` in `available_width`, counted from zero.
    pub open spec fn column_of(&self, index: nat, available_width: nat) -> nat {
        index % self.capacity(available_width)
    }

    /// A layout with the given measures, or `None` when cells would have no
    /// width.
    pub fn new(cell_width: u32, row_height: u32, spacing: u32) -> (layout: Option<GridLayout>)
        ensures
            layout is Some <==> cell_width > 0,
            layout matches Some(l) ==> l.wf() && l.spec_cell_width() == cell_width
                && l.spec_row_height() == row_height && l.spec_spacing() == spacing,
    {
        if cell_width == 0 {
            None
        } else {
            Some(GridLayout { cell_width, row_height, spacing })
        }
    }

    /// The layout of the icon grid: cells 35 wide, rows 30 high, 20 apart.
    pub fn standard() -> (layout: GridLayout)
        ensures
            layout.wf(),
            layout.spec_cell_width() == 35,
            layout.spec_row_height() == 30,
            layout.spec_spacing() == 20,
    {
        GridLayout { cell_width: 35, row_height: 30, spacing: 20 }
    }

    /// The number of columns in `available_width`; never zero.
    pub fn column_capacity(&self, available_width: u32) -> (capacity: usize)
        requires
            self.wf(),
        ensures
            capacity == self.capacity(available_width as nat),
            capacity >= 1,
    {
        let fit: u32 = available_width / self.cell_width;
        if fit >= 1 {
            fit as usize
        } else {
            1
        }
    }

    /// Where entry `index` goes in `available_width`: rows are filled from
    /// the left, one after the other.
    pub fn position(&self, index: usize, available_width: u32) -> (at: GridPosition)
        requires
            self.wf(),
        ensures
            at.row == self.row_of(index as nat, available_width as nat),
            at.column == self.column_of(index as nat, available_width as nat),
            at.column < self.capacity(available_width as nat),
            at.row * self.capacity(available_width as nat) + at.column == index,
    {
        let capacity: usize = self.column_capacity(available_width);
        assert((index / capacity) * capacity + index % capacity == index) by (nonlinear_arith)
            requires
                capacity > 0,
        ;
        GridPosition { row: index / capacity, column: index % capacity }
    }

    /// Where each of `count` entries goes in `available_width`, in the order
    /// of the entries. No entries give no position.
    pub fn positions(&self, count: usize, available_width: u32) -> (all: Vec<GridPosition>)
        requires
            self.wf(),
        ensures
            all.len() == count,
            forall|i: int|
                0 <= i < count ==> (#[trigger] all[i]).row == self.row_of(
                    i as nat,
                    available_width as nat,
                ) && all[i].column == self.column_of(i as nat, available_width as nat),
    {
        let mut all: Vec<GridPosition> = Vec::new();
        let mut index: usize = 0;
        while index < count
            invariant
                self.wf(),
                index <= count,
                all.len() == index,
                forall|i: int|
                    0 <= i < index ==> (#[trigger] all[i]).row == self.row_of(
                        i as nat,
                        available_width as nat,
                    ) && all[i].column == self.column_of(i as nat, available_width as nat),
            decreases count - index,
        {
            all.push(self.position(index, available_width));
            index += 1;
        }
        all
    }

    /// Whether entry `index` begins a row after the first one, so that the
    /// row before it is to be closed.
    pub fn begins_later_row(&self, index: usize, available_width: u32) -> (begins: bool)
        requires
            self.wf(),
        ensures
            begins == (index > 0 && self.column_of(index as nat, available_width as nat) == 0),
    {
        index > 0 && self.position(index, available_width).column == 0
    }

    /// The number of rows that `count` entries take up in `available_width`;
    /// no entries take up no row.
    pub fn row_count(&self, count: usize, available_width: u32) -> (rows: usize)
        requires
            self.wf(),
        ensures
            rows == row_count(count as nat, self.capacity(available_width as nat)),
            count == 0 <==> rows == 0,
    {
        let capacity: usize = self.column_capacity(available_width);
        let full: usize = count / capacity;
        assert(full * capacity + count % capacity == count && full * capacity >= full && (full
            == 0 <==> full * capacity == 0)) by (nonlinear_arith)
            requires
                capacity > 0,
                full == count / capacity,
        ;
        if count % capacity == 0 {
            full
        } else {
            full + 1
        }
    }

    /// The width of a cell.
    pub fn cell_width(&self) -> (width: u32)
        ensures
            width == self.spec_cell_width(),
    {
        self.cell_width
    }

    /// The height of a row.
    pub fn row_height(&self) -> (height: u32)
        ensures
            height == self.spec_row_height(),
    {
        self.row_height
    }

    /// The distance between two cells, across and down.
    pub fn spacing(&self) -> (spacing: u32)
        ensures
            spacing == self.spec_spacing(),
    {
        self.spacing
    }
}

} // verus!
