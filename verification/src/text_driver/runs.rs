//! The gathering of cells into runs of text of one look.

use vstd::prelude::*;
use crate::display::Position;
use crate::text::{ScreenChar, TextColor, TextSegment};

verus! {

/// A run of text of one look at one place of the grid, as plain values.
pub struct TextRun {
    pub text: Seq<char>,
    pub position: Position,
    pub text_color: TextColor,
    pub background_color: TextColor,
    pub underline: bool,
    pub strikethrough: bool,
}

/// Where the gathering of runs stands: the runs that are complete, and the
/// run that is being gathered, if any.
pub struct RunState {
    pub emitted: Seq<TextRun>,
    pub current: Option<TextRun>,
}

/// The run that a segment stands for.
pub open spec fn run_of(segment: TextSegment) -> TextRun {
    TextRun {
        text: segment.text@,
        position: segment.text_position,
        text_color: segment.text_color,
        background_color: segment.background_color,
        underline: segment.underline,
        strikethrough: segment.strikethrough,
    }
}

/// The runs that a list of segments stands for.
pub open spec fn runs_of(segments: Seq<TextSegment>) -> Seq<TextRun> {
    Seq::new(segments.len(), |i: int| run_of(segments[i]))
}

/// The run that starts with `cell` in row `y` and column `x`: it has the
/// look of the cell.
pub open spec fn run_from(cell: ScreenChar, x: int, y: int) -> TextRun {
    TextRun {
        text: seq![cell.shown()],
        position: Position { x: x as usize, y: y as usize },
        text_color: cell.text_color(),
        background_color: cell.background_color(),
        underline: cell.underlined(),
        strikethrough: cell.struck_through(),
    }
}

/// Whether `cell` has the look of `run`.
pub open spec fn same_look(run: TextRun, cell: ScreenChar) -> bool {
    &&& run.text_color == cell.text_color()
    &&& run.background_color == cell.background_color()
    &&& run.underline == cell.underlined()
    &&& run.strikethrough == cell.struck_through()
}

/// The gathering after `cell` in row `y` and column `x` is taken in. The
/// first cell starts a run. A later cell ends the run and starts another
/// where it looks different and the run is black on black; else it joins
/// the run, whatever it looks like.
pub open spec fn take_cell(state: RunState, cell: ScreenChar, x: int, y: int) -> RunState {
    match state.current {
        None => RunState { emitted: state.emitted, current: Some(run_from(cell, x, y)) },
        Some(run) => if !same_look(run, cell) && run.text_color == TextColor::Black
            && run.background_color == TextColor::Black {
            RunState { emitted: state.emitted.push(run), current: Some(run_from(cell, x, y)) }
        } else {
            RunState {
                emitted: state.emitted,
                current: Some(TextRun { text: run.text.push(cell.shown()), ..run }),
            }
        },
    }
}

/// The runs at the end of a row: the run that is being gathered is
/// complete.
pub open spec fn end_row(state: RunState) -> Seq<TextRun> {
    match state.current {
        None => state.emitted,
        Some(run) => state.emitted.push(run),
    }
}

} // verus!
