//! The text screen: a grid of cells with a cursor, and a mark on every
//! cell that has changed since it was last drawn.
//!
//! The grid is held row after row. The driver writes characters at the
//! cursor, wraps at the end of a row, scrolls when the grid is full, and
//! hands out what has changed as runs of text of one look.

pub mod grid;
pub mod regions;
pub mod runs;
pub mod view;

pub use regions::Bounds;
pub use runs::{RunState, TextRun};
pub use view::TextDisplayView;

use vstd::prelude::*;
use crate::decimal::push_char;
use crate::display::{Position, Region, Size};
use crate::text::{
    CharacterAttributes, ColorCode, ScreenChar, ScrollDirection, TextColor, TextSegment,
};
use crate::text_driver::grid::{paint_region, paint_rows, shift_rows_down, shift_rows_up};
use crate::text_driver::regions::{
    lemma_dirty_regions_in_grid, lemma_new_hull, lemma_scan_done, lemma_scan_next_row,
    lemma_scan_skip, lemma_scan_start, lemma_scan_visit, lemma_unvisited_monotonic,
    lemma_unvisited_visit, lemma_visit_grows, lemma_visit_nothing, lemma_visit_steps, unvisited,
};
use crate::text_driver::runs::{run_of, runs_of};
use crate::text_driver::view::{
    blank_cell, lemma_index_in_grid, lemma_scrolled_up_twice, lemma_write_place_in_grid,
};

verus! {

/// The text screen.
pub struct TextDisplayDriver {
    text_buffer: Vec<ScreenChar>,
    text_cursor: Position,
    dirty_buffer: Vec<bool>,
    font_size: Option<Size>,
    text_color: TextColor,
    background_color: TextColor,
    underline: bool,
    strikethrough: bool,
    blink: bool,
    buffer_width: usize,
    buffer_height: usize,
}

impl View for TextDisplayDriver {
    type V = TextDisplayView;

    closed spec fn view(&self) -> TextDisplayView {
        TextDisplayView {
            cells: self.text_buffer@,
            dirty: self.dirty_buffer@,
            cursor: self.text_cursor,
            text_color: self.text_color,
            background_color: self.background_color,
            underline: self.underline,
            strikethrough: self.strikethrough,
            blink: self.blink,
            width: self.buffer_width,
            height: self.buffer_height,
            font_size: self.font_size,
        }
    }
}

impl TextDisplayDriver {
    /// A screen without a grid: white on black, the cursor at the top left.
    pub fn new() -> (driver: Self)
        ensures
            driver@ == (TextDisplayView {
                cells: Seq::empty(),
                dirty: Seq::empty(),
                cursor: Position { x: 0, y: 0 },
                text_color: TextColor::White,
                background_color: TextColor::Black,
                underline: false,
                strikethrough: false,
                blink: false,
                width: 0,
                height: 0,
                font_size: None,
            }),
            driver@.wf(),
    {
        Self {
            text_buffer: Vec::new(),
            text_cursor: Position::new(0, 0),
            dirty_buffer: Vec::new(),
            font_size: None,
            text_color: TextColor::White,
            background_color: TextColor::Black,
            underline: false,
            strikethrough: false,
            blink: false,
            buffer_width: 0,
            buffer_height: 0,
        }
    }

    /// Gives the screen a grid of `buffer_size`, every cell blank and none
    /// marked, and the size of a cell of its font. The cursor and the look
    /// of the characters to come stay.
    pub fn init(&mut self, buffer_size: Size, font_size: Size)
        requires
            buffer_size.width * buffer_size.height <= usize::MAX,
        ensures
            final(self)@.wf(),
            final(self)@ == (TextDisplayView {
                cells: Seq::new(
                    (buffer_size.width * buffer_size.height) as nat,
                    |i: int| blank_cell(),
                ),
                dirty: Seq::new((buffer_size.width * buffer_size.height) as nat, |i: int| false),
                width: buffer_size.width,
                height: buffer_size.height,
                font_size: Some(font_size),
                ..old(self)@
            }),
    {
        self.buffer_width = buffer_size.width;
        self.buffer_height = buffer_size.height;
        let cells: usize = self.buffer_width * self.buffer_height;
        let blank = ScreenChar::new(
            ' ',
            ColorCode::new(TextColor::Black, TextColor::Black),
            CharacterAttributes::new(false, false),
        );
        let mut text_buffer: Vec<ScreenChar> = Vec::new();
        let mut dirty_buffer: Vec<bool> = Vec::new();
        let mut i: usize = 0;
        while i < cells
            invariant
                i <= cells,
                blank == blank_cell(),
                text_buffer@ == Seq::new(i as nat, |k: int| blank_cell()),
                dirty_buffer@ == Seq::new(i as nat, |k: int| false),
            decreases cells - i,
        {
            text_buffer.push(blank);
            dirty_buffer.push(false);
            i = i + 1;
            assert(text_buffer@ =~= Seq::new(i as nat, |k: int| blank_cell()));
            assert(dirty_buffer@ =~= Seq::new(i as nat, |k: int| false));
        }
        self.text_buffer = text_buffer;
        self.dirty_buffer = dirty_buffer;
        self.font_size = Some(font_size);
    }

    /// Sets the text color for incoming text.
    pub fn set_text_color(&mut self, color: TextColor)
        ensures
            final(self)@ == (TextDisplayView { text_color: color, ..old(self)@ }),
    {
        self.text_color = color;
    }

    /// Sets the background color for incoming text.
    pub fn set_background_color(&mut self, color: TextColor)
        ensures
            final(self)@ == (TextDisplayView { background_color: color, ..old(self)@ }),
    {
        self.background_color = color;
    }

    /// Sets the underline attribute for incoming text.
    pub fn set_underline(&mut self, underline: bool)
        ensures
            final(self)@ == (TextDisplayView { underline, ..old(self)@ }),
    {
        self.underline = underline;
    }

    /// Sets the strikethrough attribute for incoming text.
    pub fn set_strikethrough(&mut self, strikethrough: bool)
        ensures
            final(self)@ == (TextDisplayView { strikethrough, ..old(self)@ }),
    {
        self.strikethrough = strikethrough;
    }

    /// Moves the cursor to a specific position.
    pub fn move_cursor(&mut self, position: Position)
        ensures
            final(self)@ == old(self)@.with_cursor(position),
    {
        self.text_cursor = position;
    }

    /// Retrieves the current cursor position.
    pub fn get_cursor_position(&self) -> (position: Position)
        ensures
            position == self@.cursor,
    {
        self.text_cursor
    }

    /// Moves the cursor to the next line.
    pub fn new_line(&mut self)
        requires
            old(self)@.cursor.y < usize::MAX,
        ensures
            final(self)@ == old(self)@.with_cursor(
                Position { x: 0, y: (old(self)@.cursor.y + 1) as usize },
            ),
    {
        self.move_cursor(Position::new(0, self.text_cursor.y + 1));
    }

    /// Toggles the blink attribute for the text cursor.
    pub fn blink(&mut self)
        ensures
            final(self)@ == (TextDisplayView { blink: !old(self)@.blink, ..old(self)@ }),
    {
        self.blink = !self.blink;
    }

    /// Whether the cursor is shown in inverted colours.
    pub fn is_blinking(&self) -> (blink: bool)
        ensures
            blink == self@.blink,
    {
        self.blink
    }

    /// The size of the grid.
    pub fn buffer_size(&self) -> (size: Size)
        ensures
            size == (Size { width: self@.width, height: self@.height }),
    {
        Size::new(self.buffer_width, self.buffer_height)
    }

    /// The cell at place `index` of the grid, rows counted through.
    pub fn cell(&self, index: usize) -> (cell: ScreenChar)
        requires
            index < self@.cells.len(),
        ensures
            cell == self@.cells[index as int],
    {
        self.text_buffer[index]
    }

    /// Whether the cell at place `index` of the grid is marked as changed.
    pub fn is_dirty(&self, index: usize) -> (dirty: bool)
        requires
            index < self@.dirty.len(),
        ensures
            dirty == self@.dirty[index as int],
    {
        self.dirty_buffer[index]
    }

    /// Validates a specific position in the text buffer.
    ///
    /// Returns a tuple with two booleans, the first one indicating if the x position is valid
    /// and the second one indicating if the y position is valid.
    pub fn validate_position(&self, position: Position) -> (valid: (bool, bool))
        ensures
            valid == (position.x < self@.width, position.y < self@.height),
    {
        (position.x < self.buffer_width, position.y < self.buffer_height)
    }

    /// Validates a specific region in the text buffer: its corner has to
    /// lie in the grid, and its far end strictly before the last column
    /// and the last row.
    pub fn validate_region(&self, region: Region) -> (valid: bool)
        requires
            region.position.x + region.size.width <= usize::MAX,
            region.position.y + region.size.height <= usize::MAX,
        ensures
            valid == (region.position.x + region.size.width < self@.width && region.position.y
                + region.size.height < self@.height),
    {
        let (x_valid, y_valid) = self.validate_position(region.position);

        let end_x = region.position.x + region.size.width;
        let end_y = region.position.y + region.size.height;

        let x_valid_end = end_x < self.buffer_width;
        let y_valid_end = end_y < self.buffer_height;

        x_valid && y_valid && x_valid_end && y_valid_end
    }

    /// Puts `character` into the cell at `position` and marks it.
    pub fn write_at(&mut self, character: ScreenChar, position: Position)
        requires
            old(self)@.wf(),
            old(self)@.index(position.y as int, position.x as int) < old(self)@.cells.len(),
        ensures
            final(self)@ == old(self)@.with_cell(
                old(self)@.index(position.y as int, position.x as int),
                character,
            ),
            final(self)@.wf(),
    {
        let len: usize = self.text_buffer.len();
        assert(position.y * self.buffer_width >= 0) by (nonlinear_arith);
        let index = position.y * self.buffer_width + position.x;
        self.text_buffer.set(index, character);
        self.dirty_buffer.set(index, true);
    }

    /// Clears a specific cell in the text buffer: puts a space on the
    /// background colour there, and marks the cell.
    pub fn clear_cell(&mut self, row: usize, col: usize)
        requires
            old(self)@.wf(),
            old(self)@.index(row as int, col as int) < old(self)@.cells.len(),
        ensures
            final(self)@ == old(self)@.with_cell(
                old(self)@.index(row as int, col as int),
                old(self)@.cleared_cell(),
            ),
            final(self)@.wf(),
    {
        let len: usize = self.text_buffer.len();
        assert(row * self.buffer_width >= 0) by (nonlinear_arith);
        let index = row * self.buffer_width + col;
        self.text_buffer.set(
            index,
            ScreenChar::new(
                ' ',
                ColorCode::new(self.background_color, self.background_color),
                CharacterAttributes::new(false, false),
            ),
        );
        self.dirty_buffer.set(index, true);
    }

    /// Clears the entire text buffer: every cell is blank, and the cursor
    /// at the top left. No cell is marked for it.
    pub fn clear_buffer(&mut self)
        ensures
            final(self)@ == old(self)@.emptied(),
    {
        let blank = ScreenChar::new(
            ' ',
            ColorCode::new(TextColor::Black, TextColor::Black),
            CharacterAttributes::new(false, false),
        );
        let len: usize = self.text_buffer.len();
        let mut i: usize = 0;
        while i < len
            invariant
                i <= len,
                len == self.text_buffer@.len(),
                len == old(self).text_buffer@.len(),
                blank == blank_cell(),
                forall|k: int| 0 <= k < i ==> self.text_buffer@[k] == blank_cell(),
                self.dirty_buffer == old(self).dirty_buffer,
                self.text_cursor == old(self).text_cursor,
                self.text_color == old(self).text_color,
                self.background_color == old(self).background_color,
                self.underline == old(self).underline,
                self.strikethrough == old(self).strikethrough,
                self.blink == old(self).blink,
                self.buffer_width == old(self).buffer_width,
                self.buffer_height == old(self).buffer_height,
                self.font_size == old(self).font_size,
            decreases len - i,
        {
            self.text_buffer.set(i, blank);
            i = i + 1;
        }
        self.move_cursor(Position::new(0, 0));
        assert(self.text_buffer@ =~= old(self)@.emptied().cells);
    }

    /// Writes `character` at the cursor: wraps to the next row where the
    /// cursor stands past the end of its row, scrolls up where it stands
    /// below the grid, puts the cell in its place and the cursor behind it.
    pub fn write(&mut self, character: ScreenChar)
        requires
            old(self)@.wf(),
            old(self)@.width > 0,
            old(self)@.height > 0,
        ensures
            final(self)@ == old(self)@.written(character),
            final(self)@.wf(),
            final(self)@.cursor.y < final(self)@.height,
            final(self)@.cursor.x <= final(self)@.width,
            final(self)@.width == old(self)@.width,
            final(self)@.height == old(self)@.height,
    {
        let mut new_position = self.text_cursor;
        let ghost start = self@;
        let ghost mut scrolls: int = 0;
        let ghost mut emptied: bool = false;
        proof {
            lemma_scrolled_up_twice(start, 0, 0);
        }
        while !(new_position.x < self.buffer_width && new_position.y < self.buffer_height)
            invariant
                start == old(self)@,
                start.wf(),
                start.width > 0,
                start.height > 0,
                self@.wf(),
                self@.width == start.width,
                self@.height == start.height,
                emptied ==> start.height == 1 && self@ == start.emptied() && new_position == (
                Position { x: 0, y: 0 }) && !(start.cursor.x < start.width && start.cursor.y == 0),
                !emptied ==> {
                    &&& 0 <= scrolls <= start.cursor.y
                    &&& self@ == start.scrolled_up(scrolls)
                    &&& start.height == 1 ==> scrolls == 0
                    &&& {
                        ||| (scrolls <= start.rows_below() && new_position == self@.cursor)
                        ||| (scrolls == start.rows_below() && start.cursor.x >= start.width
                            && self@.cursor.y < start.height && new_position == (Position {
                            x: 0,
                            y: (self@.cursor.y + 1) as usize,
                        }))
                        ||| (scrolls == start.rows_below() + 1 && start.cursor.x >= start.width
                            && start.cursor.y - start.rows_below() == start.height - 1
                            && self@.cursor.y == start.height - 2 && (new_position == self@.cursor
                            || new_position == (Position { x: 0, y: (start.height - 1) as usize })))
                    }
                },
            decreases
                    self@.cursor.y,
                    (if new_position.x >= self@.width && new_position.y < self@.height {
                        2int
                    } else if new_position.y >= self@.height {
                        1int
                    } else {
                        0int
                    }),
        {
            if new_position.y < self.buffer_height {
                new_position.x = 0;
                new_position.y = new_position.y + 1;
            } else {
                let ghost before = self@;
                self.scroll(1, ScrollDirection::Up);
                new_position = self.text_cursor;
                proof {
                    if start.height == 1 {
                        emptied = true;
                    } else {
                        lemma_scrolled_up_twice(start, scrolls, 1);
                        scrolls = scrolls + 1;
                    }
                }
            }
        }
        proof {
            lemma_write_place_in_grid(start);
            lemma_index_in_grid(
                new_position.y as int,
                new_position.x as int,
                self.buffer_width as int,
                self.buffer_height as int,
            );
        }
        self.write_at(character, new_position);
        new_position.x = new_position.x + 1;
        self.move_cursor(new_position);
    }

    /// Writes a character to the text buffer.
    pub fn write_char(&mut self, character: char)
        requires
            old(self)@.wf(),
            old(self)@.width > 0,
            old(self)@.height > 0,
            character == '\n' ==> old(self)@.cursor.y < usize::MAX,
            character == '\t' ==> old(self)@.cursor.x + 4 <= usize::MAX,
        ensures
            final(self)@ == old(self)@.after_char(character),
            final(self)@.wf(),
            final(self)@.width == old(self)@.width,
            final(self)@.height == old(self)@.height,
            final(self)@.cursor.x <= vstd::math::max(
                old(self)@.cursor.x + 4,
                old(self)@.width as int,
            ),
            final(self)@.cursor.y <= old(self)@.cursor.y + 1,
    {
        match character {
            '\n' => self.new_line(),
            '\r' => self.move_cursor(Position::new(0, self.text_cursor.y)),
            '\t' => self.move_cursor(Position::new(self.text_cursor.x + 4, self.text_cursor.y)),
            _ => {
                self.write(
                    ScreenChar::new(
                        character,
                        ColorCode::new(self.text_color, self.background_color),
                        CharacterAttributes::new(self.underline, self.strikethrough),
                    ),
                )
            },
        }
    }

    /// Writes a string to the text buffer.
    pub fn write_string(&mut self, text: &str)
        requires
            old(self)@.wf(),
            old(self)@.width > 0,
            old(self)@.height > 0,
            vstd::math::max(old(self)@.cursor.x as int, old(self)@.width as int) + 4 * text@.len()
                <= usize::MAX,
            old(self)@.cursor.y + text@.len() <= usize::MAX,
        ensures
            final(self)@ == old(self)@.after_string(text@),
            final(self)@.wf(),
            final(self)@.width == old(self)@.width,
            final(self)@.height == old(self)@.height,
            final(self)@.cursor.y <= old(self)@.cursor.y + text@.len(),
    {
        let len: usize = text.unicode_len();
        let mut i: usize = 0;
        assert(text@.subrange(0, 0) =~= Seq::<char>::empty());
        while i < len
            invariant
                i <= len,
                len == text@.len(),
                self@.wf(),
                self@.width == old(self)@.width,
                self@.height == old(self)@.height,
                self@.width > 0,
                self@.height > 0,
                self@ == old(self)@.after_string(text@.subrange(0, i as int)),
                self@.cursor.x <= vstd::math::max(
                    old(self)@.cursor.x as int,
                    old(self)@.width as int,
                ) + 4 * i,
                self@.cursor.y <= old(self)@.cursor.y + i,
                vstd::math::max(old(self)@.cursor.x as int, old(self)@.width as int) + 4 * len
                    <= usize::MAX,
                old(self)@.cursor.y + len <= usize::MAX,
            decreases len - i,
        {
            let character = text.get_char(i);
            assert(text@.subrange(0, i as int + 1).drop_last() =~= text@.subrange(0, i as int));
            self.write_char(character);
            i = i + 1;
        }
        assert(text@.subrange(0, i as int) =~= text@);
    }

    /// Writes a string to the text buffer and moves the cursor to the next line.
    pub fn write_line(&mut self, text: &str)
        requires
            old(self)@.wf(),
            old(self)@.width > 0,
            old(self)@.height > 0,
            vstd::math::max(old(self)@.cursor.x as int, old(self)@.width as int) + 4 * text@.len()
                <= usize::MAX,
            old(self)@.cursor.y + text@.len() < usize::MAX,
        ensures
            final(self)@ == old(self)@.after_string(text@).after_char('\n'),
            final(self)@.wf(),
    {
        self.write_string(text);
        self.new_line();
    }

    /// Fills the entire text buffer with a specific character, in the look
    /// of the characters to come, and marks every cell.
    pub fn fill(&mut self, character: char)
        requires
            old(self)@.wf(),
        ensures
            final(self)@ == old(self)@.filled(old(self)@.styled(character)),
            final(self)@.wf(),
    {
        let screen_char = ScreenChar::new(
            character,
            ColorCode::new(self.text_color, self.background_color),
            CharacterAttributes::new(self.underline, self.strikethrough),
        );
        assert(self.buffer_height * self.buffer_width == self.buffer_width * self.buffer_height)
            by (nonlinear_arith);
        paint_rows(
            &mut self.text_buffer,
            &mut self.dirty_buffer,
            self.buffer_width,
            0,
            self.buffer_height,
            screen_char,
        );
        assert(self.text_buffer@ =~= old(self)@.filled(old(self)@.styled(character)).cells);
        assert(self.dirty_buffer@ =~= old(self)@.filled(old(self)@.styled(character)).dirty);
    }

    /// Fills a specific region in the text buffer with a specific
    /// character, in the look of the characters to come, and marks its
    /// cells. The region has to lie within the grid.
    pub fn fill_region(&mut self, region: Region, character: char)
        requires
            old(self)@.wf(),
            old(self)@.holds_region(region),
        ensures
            old(self)@.region_filled(region, old(self)@.styled(character), final(self)@),
            final(self)@.wf(),
    {
        let screen_char = ScreenChar::new(
            character,
            ColorCode::new(self.text_color, self.background_color),
            CharacterAttributes::new(self.underline, self.strikethrough),
        );
        paint_region(
            &mut self.text_buffer,
            &mut self.dirty_buffer,
            self.buffer_width,
            self.buffer_height,
            region,
            screen_char,
        );
    }

    /// Scrolls the text buffer by a specific amount of lines in a specific
    /// direction. Rows that come in are cleared. A scroll by as many rows
    /// as the grid has, or more, empties the screen. Scrolling up takes the
    /// cursor along, which must not be above row `lines` then.
    pub fn scroll(&mut self, lines: usize, direction: ScrollDirection)
        requires
            old(self)@.wf(),
            direction == ScrollDirection::Up && 0 < lines < old(self)@.height ==> lines <= old(
                self,
            )@.cursor.y,
        ensures
            final(self)@ == old(self)@.scrolled(lines as int, direction),
            final(self)@.wf(),
    {
        if lines == 0 {
            return ;
        }
        if lines >= self.buffer_height {
            self.clear_buffer();
            return ;
        }
        let cleared = ScreenChar::new(
            ' ',
            ColorCode::new(self.background_color, self.background_color),
            CharacterAttributes::new(false, false),
        );
        assert((self.buffer_height - lines) * self.buffer_width + lines * self.buffer_width
            == self.buffer_width * self.buffer_height && self.buffer_height * self.buffer_width
            == self.buffer_width * self.buffer_height && 0 * self.buffer_width == 0)
            by (nonlinear_arith);
        match direction {
            ScrollDirection::Up => {
                shift_rows_up(
                    &mut self.text_buffer,
                    &mut self.dirty_buffer,
                    self.buffer_width,
                    self.buffer_height,
                    lines,
                );
                paint_rows(
                    &mut self.text_buffer,
                    &mut self.dirty_buffer,
                    self.buffer_width,
                    self.buffer_height - lines,
                    self.buffer_height,
                    cleared,
                );
                self.move_cursor(Position::new(self.text_cursor.x, self.text_cursor.y - lines));
                assert(self.text_buffer@ =~= old(self)@.scrolled_up(lines as int).cells);
                assert(self.dirty_buffer@ =~= old(self)@.scrolled_up(lines as int).dirty);
            },
            ScrollDirection::Down => {
                shift_rows_down(
                    &mut self.text_buffer,
                    &mut self.dirty_buffer,
                    self.buffer_width,
                    self.buffer_height,
                    lines,
                );
                paint_rows(
                    &mut self.text_buffer,
                    &mut self.dirty_buffer,
                    self.buffer_width,
                    0,
                    lines,
                    cleared,
                );
                assert(self.text_buffer@ =~= old(self)@.scrolled_down(lines as int).cells);
                assert(self.dirty_buffer@ =~= old(self)@.scrolled_down(lines as int).dirty);
            },
        }
    }

    /// Visits the cell in row `y` and column `x` if it is marked and not
    /// visited, widens `bounds` to hold it, and goes on with its four
    /// neighbours. Visited in the end are the cells that are joined to the
    /// cell by a walk over marked cells that were not visited before.
    fn dfs(&self, x: usize, y: usize, visited: &mut Vec<bool>, bounds: &mut Bounds)
        requires
            self@.wf(),
            self@.in_grid(y as int, x as int),
            old(visited)@.len() == self@.cells.len(),
        ensures
            self@.visit_result(
                y as int,
                x as int,
                old(visited)@,
                final(visited)@,
                *old(bounds),
                *final(bounds),
            ),
        decreases unvisited(old(visited)@),
    {
        proof {
            lemma_index_in_grid(
                y as int,
                x as int,
                self.buffer_width as int,
                self.buffer_height as int,
            );
        }
        let len: usize = self.text_buffer.len();
        let index = y * self.buffer_width + x;
        if x >= self.buffer_width || y >= self.buffer_height || visited[index]
            || !self.dirty_buffer[index] {
            proof {
                lemma_visit_nothing(self@, y as int, x as int, visited@, *bounds);
            }
            return ;
        }
        visited.set(index, true);
        bounds.min_x = if bounds.min_x < x {
            bounds.min_x
        } else {
            x
        };
        bounds.max_x = if bounds.max_x > x {
            bounds.max_x
        } else {
            x
        };
        bounds.min_y = if bounds.min_y < y {
            bounds.min_y
        } else {
            y
        };
        bounds.max_y = if bounds.max_y > y {
            bounds.max_y
        } else {
            y
        };
        let ghost visited0 = old(visited)@;
        let ghost visited1 = visited@;
        let ghost bounds0 = *old(bounds);
        let ghost bounds1 = *bounds;
        proof {
            lemma_unvisited_visit(visited0, index as int);
        }

        if x > 0 {
            self.dfs(x - 1, y, visited, bounds);
        }
        let ghost visited2 = visited@;
        let ghost bounds2 = *bounds;
        proof {
            if x > 0 {
                lemma_visit_grows(self@, y as int, x - 1, visited1, visited2, bounds1, bounds2);
            }
            lemma_unvisited_monotonic(visited1, visited2);
        }
        if x < self.buffer_width - 1 {
            self.dfs(x + 1, y, visited, bounds);
        }
        let ghost visited3 = visited@;
        let ghost bounds3 = *bounds;
        proof {
            if x < self.buffer_width - 1 {
                lemma_visit_grows(self@, y as int, x + 1, visited2, visited3, bounds2, bounds3);
            }
            lemma_unvisited_monotonic(visited2, visited3);
        }
        if y > 0 {
            self.dfs(x, y - 1, visited, bounds);
        }
        let ghost visited4 = visited@;
        let ghost bounds4 = *bounds;
        proof {
            if y > 0 {
                lemma_visit_grows(self@, y - 1, x as int, visited3, visited4, bounds3, bounds4);
            }
            lemma_unvisited_monotonic(visited3, visited4);
        }
        if y < self.buffer_height - 1 {
            self.dfs(x, y + 1, visited, bounds);
        }
        proof {
            let all_visited = seq![visited0, visited1, visited2, visited3, visited4, visited@];
            let all_bounds = seq![bounds0, bounds1, bounds2, bounds3, bounds4, *bounds];
            lemma_visit_steps(self@, y as int, x as int, all_visited, all_bounds);
        }
    }

    /// The rectangles of the marked cells. The grid is gone through row by
    /// row; a marked cell that no rectangle was made for yet starts one,
    /// which is the smallest that holds every marked cell that is reached
    /// from it over marked cells next to each other.
    pub fn get_dirty_regions(&self) -> (regions: Vec<Region>)
        requires
            self@.wf(),
        ensures
            self@.is_dirty_regions(regions@),
    {
        let mut regions: Vec<Region> = Vec::new();
        let cells: usize = self.text_buffer.len();
        let mut visited: Vec<bool> = Vec::new();
        let mut i: usize = 0;
        while i < cells
            invariant
                i <= cells,
                visited@.len() == i,
                forall|k: int| 0 <= k < i ==> !visited@[k],
            decreases cells - i,
        {
            visited.push(false);
            i = i + 1;
        }
        let ghost mut leaders: Seq<(int, int)> = Seq::empty();
        proof {
            lemma_scan_start(self@, visited@);
        }

        let mut y: usize = 0;
        while y < self.buffer_height
            invariant
                y <= self.buffer_height,
                cells == self@.cells.len(),
                self@.scan_state(visited@, leaders, regions@, y as int, 0),
            decreases self.buffer_height - y,
        {
            let mut x: usize = 0;
            while x < self.buffer_width
                invariant
                    x <= self.buffer_width,
                    y < self.buffer_height,
                    cells == self@.cells.len(),
                    self@.scan_state(visited@, leaders, regions@, y as int, x as int),
                decreases self.buffer_width - x,
            {
                proof {
                    lemma_index_in_grid(
                        y as int,
                        x as int,
                        self@.width as int,
                        self@.height as int,
                    );
                }
                let index = y * self.buffer_width + x;
                if self.dirty_buffer[index] && !visited[index] {
                    let mut bounds = Bounds { min_x: x, max_x: x, min_y: y, max_y: y };
                    let ghost before = visited@;
                    self.dfs(x, y, &mut visited, &mut bounds);
                    proof {
                        lemma_visit_grows(
                            self@,
                            y as int,
                            x as int,
                            before,
                            visited@,
                            Bounds { min_x: x, max_x: x, min_y: y, max_y: y },
                            bounds,
                        );
                        lemma_new_hull(self@, before, visited@, bounds, y as int, x as int);
                        lemma_scan_visit(
                            self@,
                            before,
                            visited@,
                            bounds,
                            leaders,
                            regions@,
                            y as int,
                            x as int,
                        );
                        leaders = leaders.push((y as int, x as int));
                    }
                    let region = Region::new(
                        Position::new(bounds.min_x, bounds.min_y),
                        Size::new(bounds.max_x - bounds.min_x + 1, bounds.max_y - bounds.min_y + 1),
                    );
                    regions.push(region);
                } else {
                    proof {
                        lemma_scan_skip(self@, visited@, leaders, regions@, y as int, x as int);
                    }
                }
                x = x + 1;
            }
            proof {
                lemma_scan_next_row(self@, visited@, leaders, regions@, y as int);
            }
            y = y + 1;
        }
        proof {
            lemma_scan_done(self@, visited@, leaders, regions@);
        }
        regions
    }

    /// The runs of text in `regions`, which have to lie within the grid:
    /// region after region, each row by row, a run for every stretch of a
    /// row that is taken for one look.
    pub fn text_segments_in(&self, regions: &Vec<Region>) -> (segments: Vec<TextSegment>)
        requires
            self@.wf(),
            forall|k: int| 0 <= k < regions@.len() ==> self@.holds_region(#[trigger] regions@[k]),
        ensures
            runs_of(segments@) == self@.runs_in(regions@),
    {
        let mut segments: Vec<TextSegment> = Vec::new();
        let cells: usize = self.text_buffer.len();
        let mut k: usize = 0;
        assert(regions@.subrange(0, 0) =~= Seq::<Region>::empty());
        assert(runs_of(segments@) =~= Seq::<TextRun>::empty());
        while k < regions.len()
            invariant
                k <= regions.len(),
                self@.wf(),
                cells == self@.cells.len(),
                forall|j: int|
                    0 <= j < regions@.len() ==> self@.holds_region(#[trigger] regions@[j]),
                runs_of(segments@) == self@.runs_in(regions@.subrange(0, k as int)),
            decreases regions.len() - k,
        {
            let region = regions[k];
            assert(self@.holds_region(regions@[k as int]));
            let start_x = region.position.x;
            let start_y = region.position.y;
            let end_x = start_x + region.size.width;
            let end_y = start_y + region.size.height;
            let ghost before = runs_of(segments@);

            let mut current_text = String::new();
            let mut current_position = Position::new(start_x, start_y);
            let mut current_text_color = self.text_color;
            let mut current_background_color = self.background_color;
            let mut current_underline = false;
            let mut current_strikethrough = false;

            let mut y: usize = start_y;
            while y < end_y
                invariant
                    start_y <= y <= end_y,
                    start_x == region.position.x,
                    start_y == region.position.y,
                    end_x == start_x + region.size.width,
                    end_y == start_y + region.size.height,
                    end_x <= self@.width,
                    end_y <= self@.height,
                    self@.wf(),
                    cells == self@.cells.len(),
                    current_text@.len() == 0,
                    runs_of(segments@) == self@.region_scan(before, region, y as int),
                decreases end_y - y,
            {
                let ghost row_start = runs_of(segments@);
                let mut x: usize = start_x;
                while x < end_x
                    invariant
                        start_x <= x <= end_x,
                        y < end_y,
                        end_x <= self@.width,
                        end_y <= self@.height,
                        self@.wf(),
                        cells == self@.cells.len(),
                        self@.row_scan(row_start, y as int, start_x as int, x as int).emitted
                            == runs_of(segments@),
                        current_text@.len() == 0 <==> self@.row_scan(
                            row_start,
                            y as int,
                            start_x as int,
                            x as int,
                        ).current.is_none(),
                        current_text@.len() > 0 ==> self@.row_scan(
                            row_start,
                            y as int,
                            start_x as int,
                            x as int,
                        ).current == Some(
                            TextRun {
                                text: current_text@,
                                position: current_position,
                                text_color: current_text_color,
                                background_color: current_background_color,
                                underline: current_underline,
                                strikethrough: current_strikethrough,
                            },
                        ),
                    decreases end_x - x,
                {
                    proof {
                        lemma_index_in_grid(
                            y as int,
                            x as int,
                            self@.width as int,
                            self@.height as int,
                        );
                    }
                    let index = y * self.buffer_width + x;
                    let screen_char = self.text_buffer[index];
                    let char_color = screen_char.color();
                    let char_attributes = screen_char.attributes();
                    let ghost segments_before = segments@;

                    if current_text.as_str().is_empty() {
                        current_text_color = char_color.foreground();
                        current_background_color = char_color.background();
                        current_underline = char_attributes.underline();
                        current_strikethrough = char_attributes.strikethrough();
                        push_char(&mut current_text, screen_char.character());
                        current_position = Position::new(x, y);
                        assert(current_text@ =~= seq![screen_char.shown()]);
                    } else if (current_text_color != char_color.foreground()
                        || current_background_color != char_color.background() || current_underline
                        != char_attributes.underline() || current_strikethrough
                        != char_attributes.strikethrough()) && (current_text_color
                        == TextColor::Black && current_background_color == TextColor::Black) {
                        segments.push(
                            TextSegment::new(
                                current_text,
                                current_position,
                                current_text_color,
                                current_background_color,
                                current_underline,
                                current_strikethrough,
                            ),
                        );
                        assert(runs_of(segments@) =~= runs_of(segments_before).push(
                            run_of(segments@[segments@.len() - 1]),
                        ));
                        current_text = String::new();
                        push_char(&mut current_text, screen_char.character());
                        current_position = Position::new(x, y);
                        current_text_color = char_color.foreground();
                        current_background_color = char_color.background();
                        current_underline = char_attributes.underline();
                        current_strikethrough = char_attributes.strikethrough();
                        assert(current_text@ =~= seq![screen_char.shown()]);
                    } else {
                        push_char(&mut current_text, screen_char.character());
                    }
                    x = x + 1;
                }
                if !current_text.as_str().is_empty() {
                    let ghost segments_before = segments@;
                    segments.push(
                        TextSegment::new(
                            current_text,
                            current_position,
                            current_text_color,
                            current_background_color,
                            current_underline,
                            current_strikethrough,
                        ),
                    );
                    assert(runs_of(segments@) =~= runs_of(segments_before).push(
                        run_of(segments@[segments@.len() - 1]),
                    ));
                    current_text = String::new();
                }
                y = y + 1;
            }
            assert(regions@.subrange(0, k as int + 1).drop_last() =~= regions@.subrange(
                0,
                k as int,
            ));
            k = k + 1;
        }
        assert(regions@.subrange(0, k as int) =~= regions@);
        segments
    }

    /// The runs of text that have changed: the runs of text in the
    /// rectangles that hold the marked cells.
    pub fn get_text_segments(&self) -> (segments: Vec<TextSegment>)
        requires
            self@.wf(),
        ensures
            exists|regions: Seq<Region>|
                self@.is_dirty_regions(regions) && runs_of(segments@) == #[trigger] self@.runs_in(
                    regions,
                ),
    {
        let dirty_regions = self.get_dirty_regions();
        proof {
            lemma_dirty_regions_in_grid(self@, dirty_regions@);
        }
        self.text_segments_in(&dirty_regions)
    }

    /// Initializes the whole text buffer to be redrawn on the next draw call.
    pub fn init_redraw(&mut self)
        ensures
            final(self)@ == (TextDisplayView {
                dirty: Seq::new(old(self)@.dirty.len(), |i: int| true),
                ..old(self)@
            }),
    {
        let len: usize = self.dirty_buffer.len();
        let mut i: usize = 0;
        while i < len
            invariant
                i <= len,
                len == self.dirty_buffer@.len(),
                len == old(self).dirty_buffer@.len(),
                forall|k: int| 0 <= k < i ==> self.dirty_buffer@[k],
                self.text_buffer == old(self).text_buffer,
                self.text_cursor == old(self).text_cursor,
                self.text_color == old(self).text_color,
                self.background_color == old(self).background_color,
                self.underline == old(self).underline,
                self.strikethrough == old(self).strikethrough,
                self.blink == old(self).blink,
                self.buffer_width == old(self).buffer_width,
                self.buffer_height == old(self).buffer_height,
                self.font_size == old(self).font_size,
            decreases len - i,
        {
            self.dirty_buffer.set(i, true);
            i = i + 1;
        }
        assert(self.dirty_buffer@ =~= Seq::new(old(self)@.dirty.len(), |i: int| true));
    }

    /// Where on the screen the cell at `text_position` starts: its place
    /// times the size of a cell. The top left where no font is set.
    pub fn map_position(&self, text_position: Position) -> (screen_position: Position)
        requires
            self@.font_size.is_some() ==> text_position.x * self@.font_size.unwrap().width
                <= usize::MAX && text_position.y * self@.font_size.unwrap().height <= usize::MAX,
        ensures
            screen_position == match self@.font_size {
                Some(font_size) => Position {
                    x: (text_position.x * font_size.width) as usize,
                    y: (text_position.y * font_size.height) as usize,
                },
                None => Position { x: 0, y: 0 },
            },
    {
        if let Some(font_size) = self.font_size {
            let screen_x = text_position.x * font_size.width;
            let screen_y = text_position.y * font_size.height;
            return Position::new(screen_x, screen_y);
        }
        Position::new(0, 0)
    }
}

} // verus!
