//! What a text screen holds, as plain values, and what its operations
//! make of it.

use vstd::prelude::*;
use crate::display::{Position, Region, Size};
use crate::text::{CharacterAttributes, ColorCode, ScreenChar, ScrollDirection, TextColor};
use crate::text_driver::regions::{
    adjacent, before_in_scan, bounds_attained, newly_visited, Bounds,
};
use crate::text_driver::runs::{end_row, take_cell, RunState, TextRun};

verus! {

/// What a text screen holds, as plain values.
pub struct TextDisplayView {
    /// The cells, row after row.
    pub cells: Seq<ScreenChar>,
    /// For every cell, whether it has changed since it was last drawn.
    pub dirty: Seq<bool>,
    /// Where the next character goes.
    pub cursor: Position,
    /// The colour of the characters to come.
    pub text_color: TextColor,
    /// The colour behind the characters to come.
    pub background_color: TextColor,
    /// Whether the characters to come are underlined.
    pub underline: bool,
    /// Whether the characters to come are struck through.
    pub strikethrough: bool,
    /// Whether the cursor is shown in inverted colours.
    pub blink: bool,
    /// The number of cells in a row.
    pub width: usize,
    /// The number of rows.
    pub height: usize,
    /// The size of a cell on the screen, once a font is set.
    pub font_size: Option<Size>,
}

/// The cell that an emptied screen is made of: a space, black on black.
pub open spec fn blank_cell() -> ScreenChar {
    ScreenChar::spec_new(
        ' ',
        ColorCode::spec_new(TextColor::Black, TextColor::Black),
        CharacterAttributes::spec_new(false, false),
    )
}

impl TextDisplayView {
    /// The grid has a cell and a mark for every place.
    pub open spec fn wf(self) -> bool {
        &&& self.cells.len() == self.width * self.height
        &&& self.dirty.len() == self.width * self.height
    }

    /// The place in the grid of the cell in row `row` and column `col`.
    pub open spec fn index(self, row: int, col: int) -> int {
        row * self.width + col
    }

    /// Whether row `row` and column `col` name a cell of the grid.
    pub open spec fn in_grid(self, row: int, col: int) -> bool {
        0 <= row < self.height && 0 <= col < self.width
    }

    /// The cell that shows `character` in the look of the characters to come.
    pub open spec fn styled(self, character: char) -> ScreenChar {
        ScreenChar::spec_new(
            character,
            ColorCode::spec_new(self.text_color, self.background_color),
            CharacterAttributes::spec_new(self.underline, self.strikethrough),
        )
    }

    /// The cell that a cleared place holds: a space on the background
    /// colour of the characters to come.
    pub open spec fn cleared_cell(self) -> ScreenChar {
        ScreenChar::spec_new(
            ' ',
            ColorCode::spec_new(self.background_color, self.background_color),
            CharacterAttributes::spec_new(false, false),
        )
    }

    /// Whether `region` lies within the grid.
    pub open spec fn holds_region(self, region: Region) -> bool {
        &&& region.position.x + region.size.width <= self.width
        &&& region.position.y + region.size.height <= self.height
    }

    /// The screen with the cursor at `position`.
    pub open spec fn with_cursor(self, position: Position) -> Self {
        TextDisplayView { cursor: position, ..self }
    }

    /// The screen with `cell` at place `index`, marked as changed.
    pub open spec fn with_cell(self, index: int, cell: ScreenChar) -> Self {
        TextDisplayView {
            cells: self.cells.update(index, cell),
            dirty: self.dirty.update(index, true),
            ..self
        }
    }

    /// The screen with every cell moved up by `lines` rows. The rows that
    /// come in at the bottom are cleared, the cursor moves up with the
    /// cells, and, unless `lines` is zero, every cell is marked.
    pub open spec fn scrolled_up(self, lines: int) -> Self {
        TextDisplayView {
            cells: Seq::new(
                self.cells.len(),
                |i: int|
                    if i + lines * self.width < self.cells.len() {
                        self.cells[i + lines * self.width]
                    } else {
                        self.cleared_cell()
                    },
            ),
            dirty: if lines > 0 {
                Seq::new(self.dirty.len(), |i: int| true)
            } else {
                self.dirty
            },
            cursor: Position { x: self.cursor.x, y: (self.cursor.y - lines) as usize },
            ..self
        }
    }

    /// The screen with every cell moved down by `lines` rows. The rows
    /// that come in at the top are cleared, the cursor stays, and every
    /// cell is marked.
    pub open spec fn scrolled_down(self, lines: int) -> Self {
        TextDisplayView {
            cells: Seq::new(
                self.cells.len(),
                |i: int|
                    if i >= lines * self.width {
                        self.cells[i - lines * self.width]
                    } else {
                        self.cleared_cell()
                    },
            ),
            dirty: Seq::new(self.dirty.len(), |i: int| true),
            ..self
        }
    }

    /// The screen after a scroll by `lines` rows: as it was for no row,
    /// emptied for as many rows as it has or more, and else moved.
    pub open spec fn scrolled(self, lines: int, direction: ScrollDirection) -> Self {
        if lines == 0 {
            self
        } else if lines >= self.height {
            self.emptied()
        } else {
            match direction {
                ScrollDirection::Up => self.scrolled_up(lines),
                ScrollDirection::Down => self.scrolled_down(lines),
            }
        }
    }

    /// The rows by which the cursor stands below the last row of the grid.
    pub open spec fn rows_below(self) -> int {
        if self.cursor.y >= self.height {
            self.cursor.y - (self.height - 1)
        } else {
            0
        }
    }

    /// How many times the screen scrolls up by a row before a character
    /// finds its cell: once for every row that the cursor stands below
    /// the grid, and once more if it stands past the end of the last row.
    pub open spec fn write_scrolls(self) -> int {
        if self.cursor.x >= self.width && self.cursor.y - self.rows_below() == self.height - 1 {
            self.rows_below() + 1
        } else {
            self.rows_below()
        }
    }

    /// The cell that a character is written to: the cell of the cursor,
    /// or the first cell of the next row if the cursor stands past the
    /// end of its row; in the last row if the cursor stands below the
    /// grid.
    pub open spec fn write_place(self) -> Position {
        let row = self.cursor.y - self.rows_below();
        if self.cursor.x < self.width {
            Position { x: self.cursor.x, y: row as usize }
        } else if row < self.height - 1 {
            Position { x: 0, y: (row + 1) as usize }
        } else {
            Position { x: 0, y: (self.height - 1) as usize }
        }
    }

    /// The screen after `cell` is written at the cursor: the screen
    /// scrolls as often as it takes, the cell is put in its place and
    /// marked, and the cursor stands behind it. A grid of one row is
    /// emptied in place of a scroll, and the cell then put at its start.
    pub open spec fn written(self, cell: ScreenChar) -> Self {
        if self.height == 1 {
            if self.cursor.x < self.width && self.cursor.y == 0 {
                self.with_cell(self.cursor.x as int, cell).with_cursor(
                    Position { x: (self.cursor.x + 1) as usize, y: 0 },
                )
            } else {
                self.emptied().with_cell(0, cell).with_cursor(Position { x: 1, y: 0 })
            }
        } else {
            let place = self.write_place();
            self.scrolled_up(self.write_scrolls()).with_cell(
                self.index(place.y as int, place.x as int),
                cell,
            ).with_cursor(Position { x: (place.x + 1) as usize, y: place.y })
        }
    }

    /// The screen after `character` is written: a line feed takes the
    /// cursor to the start of the next row, a carriage return to the start
    /// of its row, a tabulator four columns on, and any other character is
    /// written at the cursor in the look of the characters to come.
    pub open spec fn after_char(self, character: char) -> Self {
        if character == '\n' {
            self.with_cursor(Position { x: 0, y: (self.cursor.y + 1) as usize })
        } else if character == '\r' {
            self.with_cursor(Position { x: 0, y: self.cursor.y })
        } else if character == '\t' {
            self.with_cursor(Position { x: (self.cursor.x + 4) as usize, y: self.cursor.y })
        } else {
            self.written(self.styled(character))
        }
    }

    /// The screen after the characters of `text` are written one after
    /// another.
    pub open spec fn after_string(self, text: Seq<char>) -> Self
        decreases text.len(),
    {
        if text.len() == 0 {
            self
        } else {
            self.after_string(text.drop_last()).after_char(text.last())
        }
    }

    /// Whether row `row` and column `col` name a cell of the grid that is
    /// marked as changed.
    pub open spec fn marked(self, row: int, col: int) -> bool {
        self.in_grid(row, col) && self.dirty[self.index(row, col)]
    }

    /// Whether `path` is a walk over marked cells, each next to the one
    /// before it.
    pub open spec fn is_path(self, path: Seq<(int, int)>) -> bool {
        &&& path.len() > 0
        &&& forall|i: int| 0 <= i < path.len() ==> self.marked((#[trigger] path[i]).0, path[i].1)
        &&& forall|i: int|
            0 <= i < path.len() - 1 ==> adjacent(
                (#[trigger] path[i]).0,
                path[i].1,
                path[i + 1].0,
                path[i + 1].1,
            )
    }

    /// Whether the two cells are marked and joined by a walk over marked
    /// cells.
    #[verifier::opaque]
    pub open spec fn connected(self, row1: int, col1: int, row2: int, col2: int) -> bool {
        exists|path: Seq<(int, int)>|
            #[trigger] self.is_path(path) && path[0] == (row1, col1) && path.last() == (
                row2,
                col2,
            )
    }

    /// Whether `visited` holds, with every cell it holds, the marked cells
    /// next to it.
    pub open spec fn closed(self, visited: Seq<bool>) -> bool {
        forall|row: int, col: int, row2: int, col2: int|
            self.in_grid(row, col) && visited[self.index(row, col)] && #[trigger] adjacent(
                row,
                col,
                row2,
                col2,
            ) && self.marked(row2, col2) ==> visited[self.index(row2, col2)]
    }

    /// Whether `after` holds the marked cells next to every cell that it
    /// holds and `before` does not.
    pub open spec fn closed_over(self, before: Seq<bool>, after: Seq<bool>) -> bool {
        forall|row: int, col: int, row2: int, col2: int|
            self.in_grid(row, col) && after[self.index(row, col)] && !before[self.index(row, col)]
                && #[trigger] adjacent(row, col, row2, col2) && self.marked(row2, col2)
                ==> after[self.index(row2, col2)]
    }

    /// What a visit that starts at the cell in row `row` and column `col`
    /// leaves behind: every cell that was visited stays so; the cells that
    /// are added are marked, joined to the start, and within the bounds,
    /// which are widened no further than to cells that are added; with
    /// every cell that is added the marked cells next to it are visited;
    /// and the start is visited if it is marked. Where the start is not
    /// marked, or was visited, nothing changes.
    #[verifier::opaque]
    pub open spec fn visit_result(
        self,
        row: int,
        col: int,
        before: Seq<bool>,
        after: Seq<bool>,
        bounds_before: Bounds,
        bounds_after: Bounds,
    ) -> bool {
        &&& after.len() == before.len()
        &&& forall|i: int| 0 <= i < before.len() && before[i] ==> #[trigger] after[i]
        &&& bounds_before.within(bounds_after)
        &&& bounds_attained(
            bounds_before,
            bounds_after,
            before,
            after,
            self.width as int,
            self.height as int,
        )
        &&& forall|r: int, c: int|
            self.in_grid(r, c) && #[trigger] newly_visited(before, after, self.width as int, r, c)
                ==> self.dirty[self.index(r, c)] && bounds_after.has(r, c) && self.connected(
                row,
                col,
                r,
                c,
            )
        &&& self.closed_over(before, after)
        &&& self.dirty[self.index(row, col)] ==> after[self.index(row, col)]
        &&& !self.dirty[self.index(row, col)] || before[self.index(row, col)] ==> after == before
            && bounds_after == bounds_before
    }

    /// What a visit of a neighbour leaves behind, and nothing where there
    /// is no such neighbour in the grid.
    pub open spec fn step_result(
        self,
        present: bool,
        row: int,
        col: int,
        before: Seq<bool>,
        after: Seq<bool>,
        bounds_before: Bounds,
        bounds_after: Bounds,
    ) -> bool {
        if present {
            self.visit_result(row, col, before, after, bounds_before, bounds_after)
        } else {
            after == before && bounds_after == bounds_before
        }
    }

    /// The steps of a visit that starts at a marked cell that was not
    /// visited: the cell is visited and the bounds widened to hold it, and
    /// then the neighbours to the left, to the right, above and below are
    /// visited in turn.
    pub open spec fn visit_steps(
        self,
        row: int,
        col: int,
        visited: Seq<Seq<bool>>,
        bounds: Seq<Bounds>,
    ) -> bool {
        &&& self.wf()
        &&& self.in_grid(row, col)
        &&& visited.len() == 6
        &&& bounds.len() == 6
        &&& visited[0].len() == self.cells.len()
        &&& self.dirty[self.index(row, col)]
        &&& !visited[0][self.index(row, col)]
        &&& visited[1] == visited[0].update(self.index(row, col), true)
        &&& bounds[0].within(bounds[1])
        &&& bounds[1].has(row, col)
        &&& (bounds[1].min_x == bounds[0].min_x || bounds[1].min_x == col)
        &&& (bounds[1].max_x == bounds[0].max_x || bounds[1].max_x == col)
        &&& (bounds[1].min_y == bounds[0].min_y || bounds[1].min_y == row)
        &&& (bounds[1].max_y == bounds[0].max_y || bounds[1].max_y == row)
        &&& self.step_result(col > 0, row, col - 1, visited[1], visited[2], bounds[1], bounds[2])
        &&& self.step_result(
            col < self.width - 1,
            row,
            col + 1,
            visited[2],
            visited[3],
            bounds[2],
            bounds[3],
        )
        &&& self.step_result(row > 0, row - 1, col, visited[3], visited[4], bounds[3], bounds[4])
        &&& self.step_result(
            row < self.height - 1,
            row + 1,
            col,
            visited[4],
            visited[5],
            bounds[4],
            bounds[5],
        )
    }

    /// Whether `region` is the smallest rectangle that holds the marked
    /// cells that are joined to the cell in row `row` and column `col`.
    pub open spec fn is_hull(self, region: Region, row: int, col: int) -> bool {
        &&& self.holds_region(region)
        &&& forall|r: int, c: int| #[trigger] self.connected(row, col, r, c) ==> region_has(region, r, c)
        &&& exists|r: int, c: int| #[trigger] self.connected(row, col, r, c) && c == region.position.x
        &&& exists|r: int, c: int|
            #[trigger] self.connected(row, col, r, c) && c == region.position.x + region.size.width
                - 1
        &&& exists|r: int, c: int| #[trigger] self.connected(row, col, r, c) && r == region.position.y
        &&& exists|r: int, c: int|
            #[trigger] self.connected(row, col, r, c) && r == region.position.y
                + region.size.height - 1
    }

    /// Whether the cell in row `row` and column `col` is marked, and the
    /// first, going through the grid row by row, of the marked cells that
    /// it is joined to.
    pub open spec fn is_leader(self, row: int, col: int) -> bool {
        &&& self.connected(row, col, row, col)
        &&& forall|r: int, c: int|
            #[trigger] self.marked(r, c) && before_in_scan(r, c, row, col) ==> !self.connected(
                r,
                c,
                row,
                col,
            )
    }

    /// Whether `regions` are the rectangles of the marked cells, with
    /// `leaders` the first cell of each: every group of marked cells that
    /// are joined to each other has its smallest rectangle, and the
    /// rectangles stand in the order of the first cells of their groups,
    /// the grid gone through row by row.
    pub open spec fn dirty_regions(self, leaders: Seq<(int, int)>, regions: Seq<Region>) -> bool {
        &&& leaders.len() == regions.len()
        &&& forall|k: int|
            0 <= k < leaders.len() ==> self.is_leader((#[trigger] leaders[k]).0, leaders[k].1)
        &&& forall|k: int|
            0 <= k < leaders.len() ==> self.is_hull(#[trigger] regions[k], leaders[k].0, leaders[k].1)
        &&& forall|j: int, k: int|
            0 <= j < k < leaders.len() ==> before_in_scan(
                (#[trigger] leaders[j]).0,
                leaders[j].1,
                (#[trigger] leaders[k]).0,
                leaders[k].1,
            )
        &&& forall|r: int, c: int| #[trigger]
            self.marked(r, c) ==> exists|k: int|
                0 <= k < leaders.len() && self.connected(
                    (#[trigger] leaders[k]).0,
                    leaders[k].1,
                    r,
                    c,
                )
    }

    /// Whether `regions` are the rectangles of the marked cells.
    pub open spec fn is_dirty_regions(self, regions: Seq<Region>) -> bool {
        exists|leaders: Seq<(int, int)>| #[trigger] self.dirty_regions(leaders, regions)
    }

    /// Where the making of the rectangles stands when the grid is gone
    /// through up to row `y` and column `x`: `leaders` and `regions` are
    /// the first cells and the rectangles of the groups that were met, and
    /// `visited` holds the cells of these groups, among them every marked
    /// cell that was gone past.
    pub open spec fn scan_state(
        self,
        visited: Seq<bool>,
        leaders: Seq<(int, int)>,
        regions: Seq<Region>,
        y: int,
        x: int,
    ) -> bool {
        &&& self.wf()
        &&& visited.len() == self.cells.len()
        &&& leaders.len() == regions.len()
        &&& forall|k: int|
            0 <= k < leaders.len() ==> self.is_leader((#[trigger] leaders[k]).0, leaders[k].1)
                && before_in_scan(leaders[k].0, leaders[k].1, y, x)
        &&& forall|k: int|
            0 <= k < leaders.len() ==> self.is_hull(#[trigger] regions[k], leaders[k].0, leaders[k].1)
        &&& forall|j: int, k: int|
            0 <= j < k < leaders.len() ==> before_in_scan(
                (#[trigger] leaders[j]).0,
                leaders[j].1,
                (#[trigger] leaders[k]).0,
                leaders[k].1,
            )
        &&& self.closed(visited)
        &&& forall|r: int, c: int|
            self.in_grid(r, c) && #[trigger] visited[self.index(r, c)] ==> exists|k: int|
                0 <= k < leaders.len() && self.connected(
                    (#[trigger] leaders[k]).0,
                    leaders[k].1,
                    r,
                    c,
                )
        &&& forall|r: int, c: int| #[trigger]
            self.marked(r, c) && before_in_scan(r, c, y, x) ==> visited[self.index(r, c)]
    }

    /// The gathering of runs in row `y` after the cells from column `from`
    /// up to column `x` are taken in, `emitted` being complete before.
    pub open spec fn row_scan(self, emitted: Seq<TextRun>, y: int, from: int, x: int) -> RunState
        decreases x - from,
    {
        if x <= from {
            RunState { emitted, current: None }
        } else {
            take_cell(
                self.row_scan(emitted, y, from, x - 1),
                self.cells[self.index(y, x - 1)],
                x - 1,
                y,
            )
        }
    }

    /// The runs after the rows of `region` up to row `y` are gone through,
    /// `emitted` being complete before. No run goes over the end of a row.
    pub open spec fn region_scan(self, emitted: Seq<TextRun>, region: Region, y: int) -> Seq<
        TextRun,
    >
        decreases y - region.position.y,
    {
        if y <= region.position.y {
            emitted
        } else {
            end_row(
                self.row_scan(
                    self.region_scan(emitted, region, y - 1),
                    y - 1,
                    region.position.x as int,
                    region.position.x + region.size.width,
                ),
            )
        }
    }

    /// The runs of text in `regions`, region after region, each row by row.
    pub open spec fn runs_in(self, regions: Seq<Region>) -> Seq<TextRun>
        decreases regions.len(),
    {
        if regions.len() == 0 {
            Seq::empty()
        } else {
            self.region_scan(
                self.runs_in(regions.drop_last()),
                regions.last(),
                regions.last().position.y + regions.last().size.height,
            )
        }
    }

    /// The screen with every cell showing `cell`, and marked.
    pub open spec fn filled(self, cell: ScreenChar) -> Self {
        TextDisplayView {
            cells: Seq::new(self.cells.len(), |i: int| cell),
            dirty: Seq::new(self.dirty.len(), |i: int| true),
            ..self
        }
    }

    /// Whether `after` is the screen with the cells of `region` showing
    /// `cell`, and marked, and every other cell and mark as before.
    pub open spec fn region_filled(self, region: Region, cell: ScreenChar, after: Self) -> bool {
        &&& after == (TextDisplayView { cells: after.cells, dirty: after.dirty, ..self })
        &&& after.cells.len() == self.cells.len()
        &&& after.dirty.len() == self.dirty.len()
        &&& forall|row: int, col: int|
            self.in_grid(row, col) ==> after.cells[#[trigger] self.index(row, col)] == if region_has(
                region,
                row,
                col,
            ) {
                cell
            } else {
                self.cells[self.index(row, col)]
            }
        &&& forall|row: int, col: int|
            self.in_grid(row, col) ==> after.dirty[#[trigger] self.index(row, col)] == (region_has(
                region,
                row,
                col,
            ) || self.dirty[self.index(row, col)])
    }

    /// The screen with every cell blank and the cursor at the top left.
    /// The marks stay as they are.
    pub open spec fn emptied(self) -> Self {
        TextDisplayView {
            cells: Seq::new(self.cells.len(), |i: int| blank_cell()),
            cursor: Position { x: 0, y: 0 },
            ..self
        }
    }
}

/// Whether the cell in row `row` and column `col` lies in `region`.
pub open spec fn region_has(region: Region, row: int, col: int) -> bool {
    &&& region.position.y <= row < region.position.y + region.size.height
    &&& region.position.x <= col < region.position.x + region.size.width
}

/// Scrolling up by some rows and then by some more is scrolling up by
/// all of them at once.
pub proof fn lemma_scrolled_up_twice(view: TextDisplayView, first: int, second: int)
    requires
        view.wf(),
        0 <= first,
        0 <= second,
        first + second <= view.cursor.y,
    ensures
        view.scrolled_up(first).scrolled_up(second) == view.scrolled_up(first + second),
        view.scrolled_up(0) == view,
        view.scrolled_up(first).wf(),
{
    let once = view.scrolled_up(first);
    let twice = once.scrolled_up(second);
    let both = view.scrolled_up(first + second);
    assert((first + second) * view.width == first * view.width + second * view.width
        && first * view.width >= 0 && second * view.width >= 0) by (nonlinear_arith)
        requires
            0 <= first,
            0 <= second,
            0 <= view.width,
    ;
    assert(twice.cells =~= both.cells);
    assert(twice.dirty =~= both.dirty);
    assert(view.scrolled_up(0).cells =~= view.cells);
}

/// A character is always written to a cell of the grid.
pub proof fn lemma_write_place_in_grid(view: TextDisplayView)
    requires
        view.wf(),
        view.width > 0,
        view.height > 0,
    ensures
        view.in_grid(view.write_place().y as int, view.write_place().x as int),
        0 <= view.index(view.write_place().y as int, view.write_place().x as int)
            < view.cells.len(),
        view.write_scrolls() <= view.cursor.y || view.height == 1,
{
    lemma_index_in_grid(
        view.write_place().y as int,
        view.write_place().x as int,
        view.width as int,
        view.height as int,
    );
}

/// A place of the grid is below the number of its cells.
pub proof fn lemma_index_in_grid(row: int, col: int, width: int, height: int)
    requires
        0 <= row < height,
        0 <= col < width,
    ensures
        0 <= row * width + col < width * height,
        row * width + col + (width - col) <= width * height,
{
    assert(row * width + width <= width * height) by (nonlinear_arith)
        requires
            0 <= row < height,
            0 < width,
    ;
    assert(0 <= row * width) by (nonlinear_arith)
        requires
            0 <= row,
            0 < width,
    ;
}

/// Two cells of the grid at the same place are the same cell.
pub proof fn lemma_index_injective(row1: int, col1: int, row2: int, col2: int, width: int)
    requires
        0 <= col1 < width,
        0 <= col2 < width,
        0 <= row1,
        0 <= row2,
        row1 * width + col1 == row2 * width + col2,
    ensures
        row1 == row2,
        col1 == col2,
{
    vstd::arithmetic::div_mod::lemma_fundamental_div_mod_converse(
        row1 * width + col1,
        width,
        row1,
        col1,
    );
    vstd::arithmetic::div_mod::lemma_fundamental_div_mod_converse(
        row2 * width + col2,
        width,
        row2,
        col2,
    );
}

} // verus!
