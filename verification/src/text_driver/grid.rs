//! Painting and moving the cells of the grid.

use vstd::prelude::*;
use crate::display::Region;
use crate::text::ScreenChar;
use crate::text_driver::view::{lemma_index_in_grid, lemma_index_injective, region_has};

verus! {

/// Sets the cells of the rows from `first_row` up to `end_row` to `cell`,
/// and marks them.
pub(super) fn paint_rows(
    cells: &mut Vec<ScreenChar>,
    dirty: &mut Vec<bool>,
    width: usize,
    first_row: usize,
    end_row: usize,
    cell: ScreenChar,
)
    requires
        first_row <= end_row,
        old(cells)@.len() == old(dirty)@.len(),
        end_row * width <= old(cells)@.len(),
    ensures
        final(cells)@.len() == old(cells)@.len(),
        final(dirty)@.len() == old(dirty)@.len(),
        forall|i: int|
            0 <= i < old(cells)@.len() ==> #[trigger] final(cells)@[i] == if first_row * width <= i
                < end_row * width {
                cell
            } else {
                old(cells)@[i]
            },
        forall|i: int|
            0 <= i < old(dirty)@.len() ==> #[trigger] final(dirty)@[i] == (first_row * width <= i
                < end_row * width || old(dirty)@[i]),
{
    let len: usize = cells.len();
    assert(first_row * width <= end_row * width) by (nonlinear_arith)
        requires
            first_row <= end_row,
    ;
    let mut row: usize = first_row;
    while row < end_row
        invariant
            first_row <= row <= end_row,
            first_row * width <= end_row * width <= len,
            cells@.len() == len,
            dirty@.len() == len,
            old(cells)@.len() == len,
            old(dirty)@.len() == len,
            first_row * width <= row * width <= end_row * width,
            forall|i: int|
                0 <= i < len ==> #[trigger] cells@[i] == if first_row * width <= i < row * width {
                    cell
                } else {
                    old(cells)@[i]
                },
            forall|i: int|
                0 <= i < len ==> #[trigger] dirty@[i] == (first_row * width <= i < row * width
                    || old(dirty)@[i]),
        decreases end_row - row,
    {
        assert(row * width + width <= end_row * width && (row + 1) * width == row * width + width)
            by (nonlinear_arith)
            requires
                row < end_row,
        ;
        let start: usize = row * width;
        let mut col: usize = 0;
        while col < width
            invariant
                col <= width,
                start == row * width,
                first_row * width <= start,
                start + width <= len,
                cells@.len() == len,
                dirty@.len() == len,
                old(cells)@.len() == len,
                old(dirty)@.len() == len,
                forall|i: int|
                    0 <= i < len ==> #[trigger] cells@[i] == if first_row * width <= i < start
                        + col {
                        cell
                    } else {
                        old(cells)@[i]
                    },
                forall|i: int|
                    0 <= i < len ==> #[trigger] dirty@[i] == (first_row * width <= i < start + col
                        || old(dirty)@[i]),
            decreases width - col,
        {
            let index = row * width + col;
            cells.set(index, cell);
            dirty.set(index, true);
            col = col + 1;
        }
        row = row + 1;
    }
}

/// Sets the cells of `region` to `cell`, and marks them.
pub(super) fn paint_region(
    cells: &mut Vec<ScreenChar>,
    dirty: &mut Vec<bool>,
    width: usize,
    height: usize,
    region: Region,
    cell: ScreenChar,
)
    requires
        old(cells)@.len() == width * height,
        old(dirty)@.len() == width * height,
        region.position.x + region.size.width <= width,
        region.position.y + region.size.height <= height,
    ensures
        final(cells)@.len() == old(cells)@.len(),
        final(dirty)@.len() == old(dirty)@.len(),
        forall|row: int, col: int|
            0 <= row < height && 0 <= col < width ==> #[trigger] final(cells)@[row * width + col]
                == if region_has(region, row, col) {
                cell
            } else {
                old(cells)@[row * width + col]
            },
        forall|row: int, col: int|
            0 <= row < height && 0 <= col < width ==> #[trigger] final(dirty)@[row * width + col]
                == (region_has(region, row, col) || old(dirty)@[row * width + col]),
{
    let len: usize = cells.len();
    let end_row: usize = region.position.y + region.size.height;
    let end_col: usize = region.position.x + region.size.width;
    let mut row: usize = region.position.y;
    while row < end_row
        invariant
            region.position.y <= row <= end_row,
            end_row == region.position.y + region.size.height,
            end_col == region.position.x + region.size.width,
            end_row <= height,
            end_col <= width,
            len == width * height,
            cells@.len() == len,
            dirty@.len() == len,
            old(cells)@.len() == len,
            old(dirty)@.len() == len,
            forall|r: int, c: int|
                0 <= r < height && 0 <= c < width ==> #[trigger] cells@[r * width + c]
                    == if region_has(region, r, c) && r < row {
                    cell
                } else {
                    old(cells)@[r * width + c]
                },
            forall|r: int, c: int|
                0 <= r < height && 0 <= c < width ==> #[trigger] dirty@[r * width + c] == ((
                region_has(region, r, c) && r < row) || old(dirty)@[r * width + c]),
        decreases end_row - row,
    {
        let mut col: usize = region.position.x;
        while col < end_col
            invariant
                region.position.x <= col <= end_col,
                region.position.y <= row < end_row,
                end_row == region.position.y + region.size.height,
                end_col == region.position.x + region.size.width,
                end_row <= height,
                end_col <= width,
                len == width * height,
                cells@.len() == len,
                dirty@.len() == len,
                old(cells)@.len() == len,
                old(dirty)@.len() == len,
                forall|r: int, c: int|
                    0 <= r < height && 0 <= c < width ==> #[trigger] cells@[r * width + c]
                        == if region_has(region, r, c) && (r < row || (r == row && c < col)) {
                        cell
                    } else {
                        old(cells)@[r * width + c]
                    },
                forall|r: int, c: int|
                    0 <= r < height && 0 <= c < width ==> #[trigger] dirty@[r * width + c] == ((
                    region_has(region, r, c) && (r < row || (r == row && c < col))) || old(
                        dirty,
                    )@[r * width + c]),
            decreases end_col - col,
        {
            proof {
                lemma_index_in_grid(row as int, col as int, width as int, height as int);
            }
            let index = row * width + col;
            let ghost before_cells = cells@;
            let ghost before_dirty = dirty@;
            cells.set(index, cell);
            dirty.set(index, true);
            proof {
                assert forall|r: int, c: int| 0 <= r < height && 0 <= c < width implies #[trigger] cells@[r
                    * width + c] == if region_has(region, r, c) && (r < row || (r == row && c < col
                    + 1)) {
                    cell
                } else {
                    old(cells)@[r * width + c]
                } by {
                    lemma_index_in_grid(r, c, width as int, height as int);
                    if r * width + c == index {
                        lemma_index_injective(r, c, row as int, col as int, width as int);
                    } else {
                        assert(cells@[r * width + c] == before_cells[r * width + c]);
                    }
                }
                assert forall|r: int, c: int| 0 <= r < height && 0 <= c < width implies #[trigger] dirty@[r
                    * width + c] == ((region_has(region, r, c) && (r < row || (r == row && c < col
                    + 1))) || old(dirty)@[r * width + c]) by {
                    lemma_index_in_grid(r, c, width as int, height as int);
                    if r * width + c == index {
                        lemma_index_injective(r, c, row as int, col as int, width as int);
                    } else {
                        assert(dirty@[r * width + c] == before_dirty[r * width + c]);
                    }
                }
            }
            col = col + 1;
        }
        row = row + 1;
    }
}

/// Moves the cells up by `lines` rows, and marks the cells that get
/// another. The last `lines` rows stay as they are.
pub(super) fn shift_rows_up(
    cells: &mut Vec<ScreenChar>,
    dirty: &mut Vec<bool>,
    width: usize,
    height: usize,
    lines: usize,
)
    requires
        old(cells)@.len() == width * height,
        old(dirty)@.len() == width * height,
        0 < lines < height,
    ensures
        final(cells)@.len() == old(cells)@.len(),
        final(dirty)@.len() == old(dirty)@.len(),
        forall|i: int|
            0 <= i < old(cells)@.len() ==> #[trigger] final(cells)@[i] == if i + lines * width
                < old(cells)@.len() {
                old(cells)@[i + lines * width]
            } else {
                old(cells)@[i]
            },
        forall|i: int|
            0 <= i < old(dirty)@.len() ==> #[trigger] final(dirty)@[i] == (i + lines * width < old(
                dirty,
            )@.len() || old(dirty)@[i]),
{
    let len: usize = cells.len();
    assert((height - lines) * width + lines * width == width * height && 0 <= lines * width && 0
        <= (height - lines) * width) by (nonlinear_arith)
        requires
            0 < lines < height,
            0 <= width,
    ;
    let shift: usize = lines * width;
    let rows: usize = height - lines;
    let mut row: usize = 0;
    assert(0 * width == 0);
    while row < rows
        invariant
            row <= rows,
            0 < lines < height,
            rows == height - lines,
            shift == lines * width,
            rows * width + shift == len,
            0 <= row * width <= rows * width,
            cells@.len() == len,
            dirty@.len() == len,
            old(cells)@.len() == len,
            old(dirty)@.len() == len,
            forall|i: int|
                0 <= i < len ==> #[trigger] cells@[i] == if i < row * width {
                    old(cells)@[i + shift]
                } else {
                    old(cells)@[i]
                },
            forall|i: int|
                0 <= i < len ==> #[trigger] dirty@[i] == (i < row * width || old(dirty)@[i]),
        decreases rows - row,
    {
        assert(row * width + width <= rows * width && (row + 1) * width == row * width + width
            && 0 <= row * width) by (nonlinear_arith)
            requires
                0 <= row < rows,
                0 <= width,
        ;
        assert((row + lines) * width == row * width + lines * width) by (nonlinear_arith);
        let start: usize = row * width;
        let mut col: usize = 0;
        while col < width
            invariant
                col <= width,
                start == row * width,
                (row + lines) * width == start + shift,
                start + width + shift <= len,
                shift == lines * width,
                0 < lines,
                row + lines < height,
                cells@.len() == len,
                dirty@.len() == len,
                old(cells)@.len() == len,
                old(dirty)@.len() == len,
                forall|i: int|
                    0 <= i < len ==> #[trigger] cells@[i] == if i < start + col {
                        old(cells)@[i + shift]
                    } else {
                        old(cells)@[i]
                    },
                forall|i: int|
                    0 <= i < len ==> #[trigger] dirty@[i] == (i < start + col || old(dirty)@[i]),
            decreases width - col,
        {
            assert(shift >= width) by (nonlinear_arith)
                requires
                    shift == lines * width,
                    lines >= 1,
                    width >= 0,
            ;
            let from_index = (row + lines) * width + col;
            let to_index = row * width + col;
            let moved = cells[from_index];
            cells.set(to_index, moved);
            dirty.set(to_index, true);
            col = col + 1;
        }
        row = row + 1;
    }
}

/// Moves the cells down by `lines` rows, and marks the cells that get
/// another. The first `lines` rows stay as they are.
pub(super) fn shift_rows_down(
    cells: &mut Vec<ScreenChar>,
    dirty: &mut Vec<bool>,
    width: usize,
    height: usize,
    lines: usize,
)
    requires
        old(cells)@.len() == width * height,
        old(dirty)@.len() == width * height,
        0 < lines < height,
    ensures
        final(cells)@.len() == old(cells)@.len(),
        final(dirty)@.len() == old(dirty)@.len(),
        forall|i: int|
            0 <= i < old(cells)@.len() ==> #[trigger] final(cells)@[i] == if i >= lines * width {
                old(cells)@[i - lines * width]
            } else {
                old(cells)@[i]
            },
        forall|i: int|
            0 <= i < old(dirty)@.len() ==> #[trigger] final(dirty)@[i] == (i >= lines * width
                || old(dirty)@[i]),
{
    let len: usize = cells.len();
    assert((height - lines) * width + lines * width == width * height && 0 <= lines * width
        && height * width == width * height) by (nonlinear_arith)
        requires
            0 < lines < height,
            0 <= width,
    ;
    let shift: usize = lines * width;
    let mut row: usize = height;
    while row > lines
        invariant
            0 < lines <= row <= height,
            shift == lines * width,
            height * width == len,
            shift <= row * width <= len,
            cells@.len() == len,
            dirty@.len() == len,
            old(cells)@.len() == len,
            old(dirty)@.len() == len,
            forall|i: int|
                0 <= i < len ==> #[trigger] cells@[i] == if i >= row * width {
                    old(cells)@[i - shift]
                } else {
                    old(cells)@[i]
                },
            forall|i: int|
                0 <= i < len ==> #[trigger] dirty@[i] == (i >= row * width || old(dirty)@[i]),
        decreases row,
    {
        row = row - 1;
        assert(row * width + width == (row + 1) * width && (row - lines) * width + lines * width
            == row * width && 0 <= (row - lines) * width && lines * width <= row * width)
            by (nonlinear_arith)
            requires
                lines <= row,
                0 <= width,
        ;
        let start: usize = row * width;
        let mut col: usize = 0;
        while col < width
            invariant
                col <= width,
                start == row * width,
                (row - lines) * width == start - shift,
                shift <= start,
                start + width <= len,
                0 < lines <= row,
                shift == lines * width,
                cells@.len() == len,
                dirty@.len() == len,
                old(cells)@.len() == len,
                old(dirty)@.len() == len,
                forall|i: int|
                    0 <= i < len ==> #[trigger] cells@[i] == if i >= start + width || (start <= i
                        < start + col) {
                        old(cells)@[i - shift]
                    } else {
                        old(cells)@[i]
                    },
                forall|i: int|
                    0 <= i < len ==> #[trigger] dirty@[i] == (i >= start + width || (start <= i
                        < start + col) || old(dirty)@[i]),
            decreases width - col,
        {
            assert(shift >= width) by (nonlinear_arith)
                requires
                    shift == lines * width,
                    lines >= 1,
                    width >= 0,
            ;
            let from_index = (row - lines) * width + col;
            let to_index = row * width + col;
            let moved = cells[from_index];
            cells.set(to_index, moved);
            dirty.set(to_index, true);
            col = col + 1;
        }
    }
}

} // verus!
