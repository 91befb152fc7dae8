//! The groups of marked cells that are joined to each other, and the
//! flood fill that finds them.

use vstd::prelude::*;
use crate::display::{Position, Region, Size};
use crate::text_driver::view::{
    lemma_index_in_grid, lemma_index_injective, region_has, TextDisplayView,
};

verus! {

/// Whether the first cell comes before the second when the grid is gone
/// through row by row.
pub open spec fn before_in_scan(row1: int, col1: int, row2: int, col2: int) -> bool {
    row1 < row2 || (row1 == row2 && col1 < col2)
}

/// Whether two cells are next to each other in a row or in a column.
pub open spec fn adjacent(row1: int, col1: int, row2: int, col2: int) -> bool {
    ||| (row1 == row2 && (col1 == col2 + 1 || col2 == col1 + 1))
    ||| (col1 == col2 && (row1 == row2 + 1 || row2 == row1 + 1))
}

/// A marked cell is joined to itself.
pub proof fn lemma_connected_self(view: TextDisplayView, row: int, col: int)
    requires
        view.marked(row, col),
    ensures
        view.connected(row, col, row, col),
{
    reveal(TextDisplayView::connected);
    let path = seq![(row, col)];
    assert(view.is_path(path));
    assert(path[0] == (row, col) && path.last() == (row, col));
}

/// A marked cell is joined to whatever the cell next to it is joined to.
pub proof fn lemma_connected_step(
    view: TextDisplayView,
    row: int,
    col: int,
    next_row: int,
    next_col: int,
    to_row: int,
    to_col: int,
)
    requires
        view.marked(row, col),
        adjacent(row, col, next_row, next_col),
        view.connected(next_row, next_col, to_row, to_col),
    ensures
        view.connected(row, col, to_row, to_col),
{
    reveal(TextDisplayView::connected);
    let rest = choose|path: Seq<(int, int)>|
        #[trigger] view.is_path(path) && path[0] == (next_row, next_col) && path.last() == (
            to_row,
            to_col,
        );
    let path = seq![(row, col)] + rest;
    assert forall|i: int| 0 <= i < path.len() implies view.marked(
        (#[trigger] path[i]).0,
        path[i].1,
    ) by {
        if i > 0 {
            assert(path[i] == rest[i - 1]);
        }
    }
    assert forall|i: int| 0 <= i < path.len() - 1 implies adjacent(
        (#[trigger] path[i]).0,
        path[i].1,
        path[i + 1].0,
        path[i + 1].1,
    ) by {
        assert(path[i + 1] == rest[i]);
        if i > 0 {
            assert(path[i] == rest[i - 1]);
        }
    }
    assert(view.is_path(path));
    assert(path[0] == (row, col) && path.last() == (to_row, to_col));
}

/// A walk that starts in a closed set of cells stays in it.
pub proof fn lemma_path_stays(
    view: TextDisplayView,
    visited: Seq<bool>,
    path: Seq<(int, int)>,
    i: int,
)
    requires
        view.closed(visited),
        view.is_path(path),
        visited[view.index(path[0].0, path[0].1)],
        0 <= i < path.len(),
    ensures
        visited[view.index(path[i].0, path[i].1)],
    decreases i,
{
    if i > 0 {
        lemma_path_stays(view, visited, path, i - 1);
        assert(view.marked(path[i - 1].0, path[i - 1].1));
        assert(view.marked(path[i].0, path[i].1));
        assert(adjacent(path[i - 1].0, path[i - 1].1, path[i].0, path[i].1));
    }
}

/// A closed set of cells holds every cell that is joined to one of its
/// cells.
pub proof fn lemma_closed_holds_connected(
    view: TextDisplayView,
    visited: Seq<bool>,
    row: int,
    col: int,
    to_row: int,
    to_col: int,
)
    requires
        view.closed(visited),
        visited[view.index(row, col)],
        view.connected(row, col, to_row, to_col),
    ensures
        visited[view.index(to_row, to_col)],
{
    reveal(TextDisplayView::connected);
    let path = choose|path: Seq<(int, int)>|
        #[trigger] view.is_path(path) && path[0] == (row, col) && path.last() == (to_row, to_col);
    lemma_path_stays(view, visited, path, path.len() - 1);
}

/// Where a walk starts at a cell that a visit has added to a closed set,
/// every cell of the walk was added by the visit.
pub proof fn lemma_path_is_new(
    view: TextDisplayView,
    before: Seq<bool>,
    after: Seq<bool>,
    path: Seq<(int, int)>,
    i: int,
)
    requires
        view.closed(before),
        view.closed_over(before, after),
        view.is_path(path),
        after[view.index(path[0].0, path[0].1)],
        !before[view.index(path[0].0, path[0].1)],
        0 <= i < path.len(),
    ensures
        after[view.index(path[i].0, path[i].1)],
        !before[view.index(path[i].0, path[i].1)],
    decreases i,
{
    if i > 0 {
        lemma_path_is_new(view, before, after, path, i - 1);
        assert(view.marked(path[i - 1].0, path[i - 1].1));
        assert(view.marked(path[i].0, path[i].1));
        assert(adjacent(path[i - 1].0, path[i - 1].1, path[i].0, path[i].1));
        assert(adjacent(path[i].0, path[i].1, path[i - 1].0, path[i - 1].1));
    }
}

/// In one step of a visit, what is visited stays visited.
pub proof fn lemma_visit_step_grows(
    view: TextDisplayView,
    row: int,
    col: int,
    visited: Seq<Seq<bool>>,
    bounds: Seq<Bounds>,
    k: int,
)
    requires
        view.visit_steps(row, col, visited, bounds),
        0 <= k < 5,
    ensures
        visited[k].len() == visited[0].len(),
        visited[k + 1].len() == visited[0].len(),
        forall|i: int| 0 <= i < visited[0].len() && visited[k][i] ==> #[trigger] visited[k + 1][i],
        bounds[k].within(bounds[k + 1]),
{
    reveal(TextDisplayView::visit_result);
    lemma_index_in_grid(row, col, view.width as int, view.height as int);
    assert(visited[1].len() == visited[0].len());
    assert(visited[2].len() == visited[1].len());
    assert(visited[3].len() == visited[2].len());
    assert(visited[4].len() == visited[3].len());
    assert(visited[5].len() == visited[4].len());
}

/// In the steps of a visit, what is visited stays visited.
pub proof fn lemma_visit_steps_grow(
    view: TextDisplayView,
    row: int,
    col: int,
    visited: Seq<Seq<bool>>,
    bounds: Seq<Bounds>,
    j: int,
    k: int,
)
    requires
        view.visit_steps(row, col, visited, bounds),
        0 <= j <= k <= 5,
    ensures
        visited[j].len() == visited[0].len(),
        visited[k].len() == visited[0].len(),
        forall|i: int| 0 <= i < visited[0].len() && visited[j][i] ==> #[trigger] visited[k][i],
        bounds[j].within(bounds[k]),
{
    lemma_visit_step_grows(view, row, col, visited, bounds, 0);
    lemma_visit_step_grows(view, row, col, visited, bounds, 1);
    lemma_visit_step_grows(view, row, col, visited, bounds, 2);
    lemma_visit_step_grows(view, row, col, visited, bounds, 3);
    lemma_visit_step_grows(view, row, col, visited, bounds, 4);
    assert forall|i: int| 0 <= i < visited[0].len() && visited[j][i] implies #[trigger] visited[k][i] by {
        if j <= 0 && 0 < k {
            assert(visited[0][i] ==> visited[1][i]);
        }
        if j <= 1 && 1 < k {
            assert(visited[1][i] ==> visited[2][i]);
        }
        if j <= 2 && 2 < k {
            assert(visited[2][i] ==> visited[3][i]);
        }
        if j <= 3 && 3 < k {
            assert(visited[3][i] ==> visited[4][i]);
        }
        if j <= 4 && 4 < k {
            assert(visited[4][i] ==> visited[5][i]);
        }
    }
}

/// After the first step of a visit, the start is the one cell that was
/// added.
pub proof fn lemma_visit_first_step(
    view: TextDisplayView,
    row: int,
    col: int,
    visited: Seq<Seq<bool>>,
    bounds: Seq<Bounds>,
    r: int,
    c: int,
)
    requires
        view.visit_steps(row, col, visited, bounds),
        view.in_grid(r, c),
    ensures
        visited[1][view.index(r, c)] && !visited[0][view.index(r, c)] <==> r == row && c == col,
        0 <= view.index(r, c) < visited[0].len(),
{
    lemma_index_in_grid(r, c, view.width as int, view.height as int);
    lemma_index_in_grid(row, col, view.width as int, view.height as int);
    if view.index(r, c) == view.index(row, col) {
        lemma_index_injective(r, c, row, col, view.width as int);
    }
}

/// The step of a visit in which a cell was added.
pub open spec fn step_of(visited: Seq<Seq<bool>>, index: int) -> int {
    if visited[1][index] {
        0
    } else if visited[2][index] {
        1
    } else if visited[3][index] {
        2
    } else if visited[4][index] {
        3
    } else {
        4
    }
}

/// A cell that a visit adds is marked, within the bounds, and joined to
/// the start.
pub proof fn lemma_visit_steps_join(
    view: TextDisplayView,
    row: int,
    col: int,
    visited: Seq<Seq<bool>>,
    bounds: Seq<Bounds>,
    r: int,
    c: int,
)
    requires
        view.visit_steps(row, col, visited, bounds),
        view.in_grid(r, c),
        newly_visited(visited[0], visited[5], view.width as int, r, c),
    ensures
        view.dirty[view.index(r, c)],
        bounds[5].has(r, c),
        view.connected(row, col, r, c),
{
    reveal(TextDisplayView::visit_result);
    let width = view.width as int;
    lemma_visit_first_step(view, row, col, visited, bounds, r, c);
    lemma_visit_steps_grow(view, row, col, visited, bounds, 0, 5);
    lemma_visit_steps_grow(view, row, col, visited, bounds, 1, 5);
    lemma_visit_steps_grow(view, row, col, visited, bounds, 2, 5);
    lemma_visit_steps_grow(view, row, col, visited, bounds, 3, 5);
    lemma_visit_steps_grow(view, row, col, visited, bounds, 4, 5);
    lemma_connected_self(view, row, col);
    let index = view.index(r, c);
    let step = step_of(visited, index);
    if step == 0 {
    } else if step == 1 {
        assert(newly_visited(visited[1], visited[2], width, r, c));
        lemma_connected_step(view, row, col, row, col - 1, r, c);
    } else if step == 2 {
        assert(newly_visited(visited[2], visited[3], width, r, c));
        lemma_connected_step(view, row, col, row, col + 1, r, c);
    } else if step == 3 {
        assert(newly_visited(visited[3], visited[4], width, r, c));
        lemma_connected_step(view, row, col, row - 1, col, r, c);
    } else {
        assert(newly_visited(visited[4], visited[5], width, r, c));
        lemma_connected_step(view, row, col, row + 1, col, r, c);
    }
}

/// With a cell that a visit adds, the marked cells next to it are visited.
pub proof fn lemma_visit_steps_close(
    view: TextDisplayView,
    row: int,
    col: int,
    visited: Seq<Seq<bool>>,
    bounds: Seq<Bounds>,
    r: int,
    c: int,
    r2: int,
    c2: int,
)
    requires
        view.visit_steps(row, col, visited, bounds),
        view.in_grid(r, c),
        visited[5][view.index(r, c)],
        !visited[0][view.index(r, c)],
        adjacent(r, c, r2, c2),
        view.marked(r2, c2),
    ensures
        visited[5][view.index(r2, c2)],
{
    reveal(TextDisplayView::visit_result);
    let width = view.width as int;
    lemma_visit_first_step(view, row, col, visited, bounds, r, c);
    lemma_visit_first_step(view, row, col, visited, bounds, r2, c2);
    lemma_visit_steps_grow(view, row, col, visited, bounds, 2, 5);
    lemma_visit_steps_grow(view, row, col, visited, bounds, 3, 5);
    lemma_visit_steps_grow(view, row, col, visited, bounds, 4, 5);
    let from = view.index(r, c);
    let to = view.index(r2, c2);
    let step = step_of(visited, from);
    if step == 0 {
        assert(r == row && c == col);
        if c2 == col - 1 {
            assert(visited[2][to]);
        } else if c2 == col + 1 {
            assert(visited[3][to]);
        } else if r2 == row - 1 {
            assert(visited[4][to]);
        } else {
            assert(r2 == row + 1);
            assert(visited[5][to]);
        }
    } else if step == 1 {
        assert(view.closed_over(visited[1], visited[2]));
        assert(visited[2][to]);
    } else if step == 2 {
        assert(view.closed_over(visited[2], visited[3]));
        assert(visited[3][to]);
    } else if step == 3 {
        assert(view.closed_over(visited[3], visited[4]));
        assert(visited[4][to]);
    } else {
        assert(view.closed_over(visited[4], visited[5]));
        assert(visited[5][to]);
    }
}

/// The bounds after the steps of a visit are widened no further than to
/// cells that the visit adds.
pub proof fn lemma_visit_steps_bounds(
    view: TextDisplayView,
    row: int,
    col: int,
    visited: Seq<Seq<bool>>,
    bounds: Seq<Bounds>,
)
    requires
        view.visit_steps(row, col, visited, bounds),
    ensures
        bounds_attained(
            bounds[0],
            bounds[5],
            visited[0],
            visited[5],
            view.width as int,
            view.height as int,
        ),
{
    reveal(TextDisplayView::visit_result);
    let width = view.width as int;
    let height = view.height as int;
    lemma_visit_first_step(view, row, col, visited, bounds, row, col);
    assert(newly_visited(visited[0], visited[1], width, row, col));
    assert(bounds_attained(bounds[0], bounds[1], visited[0], visited[1], width, height));
    lemma_visit_steps_grow(view, row, col, visited, bounds, 0, 1);
    lemma_visit_steps_grow(view, row, col, visited, bounds, 0, 2);
    lemma_visit_steps_grow(view, row, col, visited, bounds, 0, 3);
    lemma_visit_steps_grow(view, row, col, visited, bounds, 0, 4);
    lemma_visit_steps_grow(view, row, col, visited, bounds, 1, 2);
    lemma_visit_steps_grow(view, row, col, visited, bounds, 2, 3);
    lemma_visit_steps_grow(view, row, col, visited, bounds, 3, 4);
    lemma_visit_steps_grow(view, row, col, visited, bounds, 4, 5);
    assert(bounds_attained(bounds[1], bounds[2], visited[1], visited[2], width, height));
    lemma_bounds_attained_chain(
        bounds[0],
        bounds[1],
        bounds[2],
        visited[0],
        visited[1],
        visited[2],
        width,
        height,
    );
    assert(bounds_attained(bounds[2], bounds[3], visited[2], visited[3], width, height));
    lemma_bounds_attained_chain(
        bounds[0],
        bounds[2],
        bounds[3],
        visited[0],
        visited[2],
        visited[3],
        width,
        height,
    );
    assert(bounds_attained(bounds[3], bounds[4], visited[3], visited[4], width, height));
    lemma_bounds_attained_chain(
        bounds[0],
        bounds[3],
        bounds[4],
        visited[0],
        visited[3],
        visited[4],
        width,
        height,
    );
    assert(bounds_attained(bounds[4], bounds[5], visited[4], visited[5], width, height));
    lemma_bounds_attained_chain(
        bounds[0],
        bounds[4],
        bounds[5],
        visited[0],
        visited[4],
        visited[5],
        width,
        height,
    );
}

/// The steps of a visit leave behind what a visit leaves behind.
pub proof fn lemma_visit_steps(
    view: TextDisplayView,
    row: int,
    col: int,
    visited: Seq<Seq<bool>>,
    bounds: Seq<Bounds>,
)
    requires
        view.visit_steps(row, col, visited, bounds),
    ensures
        view.visit_result(row, col, visited[0], visited[5], bounds[0], bounds[5]),
{
    reveal(TextDisplayView::visit_result);
    lemma_visit_steps_grow(view, row, col, visited, bounds, 0, 5);
    lemma_visit_steps_grow(view, row, col, visited, bounds, 1, 5);
    lemma_visit_steps_bounds(view, row, col, visited, bounds);
    lemma_index_in_grid(row, col, view.width as int, view.height as int);
    assert forall|r: int, c: int|
        view.in_grid(r, c) && #[trigger] newly_visited(
            visited[0],
            visited[5],
            view.width as int,
            r,
            c,
        ) implies view.dirty[view.index(r, c)] && bounds[5].has(r, c) && view.connected(
        row,
        col,
        r,
        c,
    ) by {
        lemma_visit_steps_join(view, row, col, visited, bounds, r, c);
    }
    assert forall|r: int, c: int, r2: int, c2: int|
        view.in_grid(r, c) && visited[5][view.index(r, c)] && !visited[0][view.index(r, c)]
            && #[trigger] adjacent(r, c, r2, c2) && view.marked(
            r2,
            c2,
        ) implies visited[5][view.index(r2, c2)] by {
        lemma_visit_steps_close(view, row, col, visited, bounds, r, c, r2, c2);
    }
}

/// Every cell that is joined to a cell that a visit has added to a closed
/// set was added by the visit.
pub proof fn lemma_component_is_new(
    view: TextDisplayView,
    before: Seq<bool>,
    after: Seq<bool>,
    row: int,
    col: int,
    to_row: int,
    to_col: int,
)
    requires
        view.closed(before),
        view.closed_over(before, after),
        after[view.index(row, col)],
        !before[view.index(row, col)],
        view.connected(row, col, to_row, to_col),
    ensures
        after[view.index(to_row, to_col)],
        !before[view.index(to_row, to_col)],
        view.marked(to_row, to_col),
{
    reveal(TextDisplayView::connected);
    let path = choose|path: Seq<(int, int)>|
        #[trigger] view.is_path(path) && path[0] == (row, col) && path.last() == (to_row, to_col);
    lemma_path_is_new(view, before, after, path, path.len() - 1);
    assert(view.marked(path[path.len() - 1].0, path[path.len() - 1].1));
}

/// A cell that is gone past without a visit leaves the making of the
/// rectangles where it stands.
pub proof fn lemma_scan_skip(
    view: TextDisplayView,
    visited: Seq<bool>,
    leaders: Seq<(int, int)>,
    regions: Seq<Region>,
    y: int,
    x: int,
)
    requires
        view.scan_state(visited, leaders, regions, y, x),
        view.in_grid(y, x),
        !view.dirty[view.index(y, x)] || visited[view.index(y, x)],
    ensures
        view.scan_state(visited, leaders, regions, y, x + 1),
{
    assert forall|r: int, c: int| #[trigger]
        view.marked(r, c) && before_in_scan(r, c, y, x + 1) implies visited[view.index(r, c)] by {
        if !(r == y && c == x) {
            assert(before_in_scan(r, c, y, x));
        }
    }
}

/// The end of a row is the start of the next.
pub proof fn lemma_scan_next_row(
    view: TextDisplayView,
    visited: Seq<bool>,
    leaders: Seq<(int, int)>,
    regions: Seq<Region>,
    y: int,
)
    requires
        view.scan_state(visited, leaders, regions, y, view.width as int),
    ensures
        view.scan_state(visited, leaders, regions, y + 1, 0),
{
    assert forall|r: int, c: int| #[trigger]
        view.marked(r, c) && before_in_scan(r, c, y + 1, 0) implies visited[view.index(r, c)] by {
        assert(before_in_scan(r, c, y, view.width as int));
    }
}

/// When the grid is gone through, the rectangles are made.
pub proof fn lemma_scan_done(
    view: TextDisplayView,
    visited: Seq<bool>,
    leaders: Seq<(int, int)>,
    regions: Seq<Region>,
)
    requires
        view.scan_state(visited, leaders, regions, view.height as int, 0),
    ensures
        view.dirty_regions(leaders, regions),
        view.is_dirty_regions(regions),
{
    assert forall|r: int, c: int| #[trigger] view.marked(r, c) implies exists|k: int|
        0 <= k < leaders.len() && view.connected((#[trigger] leaders[k]).0, leaders[k].1, r, c) by {
        assert(before_in_scan(r, c, view.height as int, 0));
        assert(visited[view.index(r, c)]);
    }
}

/// Before any cell is gone past, nothing is made.
pub proof fn lemma_scan_start(view: TextDisplayView, visited: Seq<bool>)
    requires
        view.wf(),
        visited.len() == view.cells.len(),
        forall|i: int| 0 <= i < visited.len() ==> !visited[i],
    ensures
        view.scan_state(visited, Seq::empty(), Seq::empty(), 0, 0),
{
    assert forall|r: int, c: int, r2: int, c2: int|
        view.in_grid(r, c) && visited[view.index(r, c)] && #[trigger] adjacent(r, c, r2, c2)
            && view.marked(r2, c2) implies visited[view.index(r2, c2)] by {
        lemma_index_in_grid(r, c, view.width as int, view.height as int);
    }
    assert forall|r: int, c: int|
        view.in_grid(r, c) && #[trigger] visited[view.index(r, c)] implies exists|k: int|
        0 <= k < 0 && view.connected(
            (#[trigger] Seq::<(int, int)>::empty()[k]).0,
            Seq::<(int, int)>::empty()[k].1,
            r,
            c,
        ) by {
        lemma_index_in_grid(r, c, view.width as int, view.height as int);
    }
}

/// A marked cell that is not visited when it is gone past is the first of
/// the marked cells that it is joined to.
pub proof fn lemma_new_leader(
    view: TextDisplayView,
    visited: Seq<bool>,
    leaders: Seq<(int, int)>,
    regions: Seq<Region>,
    y: int,
    x: int,
)
    requires
        view.scan_state(visited, leaders, regions, y, x),
        view.marked(y, x),
        !visited[view.index(y, x)],
    ensures
        view.is_leader(y, x),
{
    lemma_connected_self(view, y, x);
    assert forall|r: int, c: int| #[trigger]
        view.marked(r, c) && before_in_scan(r, c, y, x) implies !view.connected(r, c, y, x) by {
        if view.connected(r, c, y, x) {
            lemma_closed_holds_connected(view, visited, r, c, y, x);
        }
    }
}

/// The bounds that a visit from a fresh cell leaves behind are the
/// smallest rectangle of the marked cells that are joined to the cell.
pub proof fn lemma_new_hull(
    view: TextDisplayView,
    before: Seq<bool>,
    after: Seq<bool>,
    bounds: Bounds,
    y: int,
    x: int,
)
    requires
        view.wf(),
        before.len() == view.cells.len(),
        view.closed(before),
        view.marked(y, x),
        !before[view.index(y, x)],
        view.visit_result(
            y,
            x,
            before,
            after,
            Bounds { min_x: x as usize, max_x: x as usize, min_y: y as usize, max_y: y as usize },
            bounds,
        ),
    ensures
        view.is_hull(bounds.region(), y, x),
        bounds.min_x <= bounds.max_x < view.width,
        bounds.min_y <= bounds.max_y < view.height,
{
    reveal(TextDisplayView::visit_result);
    let width = view.width as int;
    let region = bounds.region();
    lemma_index_in_grid(y, x, width, view.height as int);
    lemma_connected_self(view, y, x);
    assert(newly_visited(before, after, width, y, x));
    assert(bounds.has(y, x));
    assert forall|r: int, c: int| #[trigger] view.connected(y, x, r, c) implies region_has(
        region,
        r,
        c,
    ) by {
        lemma_component_is_new(view, before, after, y, x, r, c);
        assert(newly_visited(before, after, width, r, c));
    }
    assert(exists|r: int, c: int| #[trigger] view.connected(y, x, r, c) && c == bounds.min_x) by {
        if bounds.min_x == x {
            assert(view.connected(y, x, y, x));
        } else {
            let (r, c) = choose|r: int, c: int|
                0 <= r < view.height && 0 <= c < width && #[trigger] newly_visited(
                    before,
                    after,
                    width,
                    r,
                    c,
                ) && c == bounds.min_x;
            assert(view.connected(y, x, r, c));
        }
    }
    assert(exists|r: int, c: int| #[trigger] view.connected(y, x, r, c) && c == bounds.max_x) by {
        if bounds.max_x == x {
            assert(view.connected(y, x, y, x));
        } else {
            let (r, c) = choose|r: int, c: int|
                0 <= r < view.height && 0 <= c < width && #[trigger] newly_visited(
                    before,
                    after,
                    width,
                    r,
                    c,
                ) && c == bounds.max_x;
            assert(view.connected(y, x, r, c));
        }
    }
    assert(exists|r: int, c: int| #[trigger] view.connected(y, x, r, c) && r == bounds.min_y) by {
        if bounds.min_y == y {
            assert(view.connected(y, x, y, x));
        } else {
            let (r, c) = choose|r: int, c: int|
                0 <= r < view.height && 0 <= c < width && #[trigger] newly_visited(
                    before,
                    after,
                    width,
                    r,
                    c,
                ) && r == bounds.min_y;
            assert(view.connected(y, x, r, c));
        }
    }
    assert(exists|r: int, c: int| #[trigger] view.connected(y, x, r, c) && r == bounds.max_y) by {
        if bounds.max_y == y {
            assert(view.connected(y, x, y, x));
        } else {
            let (r, c) = choose|r: int, c: int|
                0 <= r < view.height && 0 <= c < width && #[trigger] newly_visited(
                    before,
                    after,
                    width,
                    r,
                    c,
                ) && r == bounds.max_y;
            assert(view.connected(y, x, r, c));
        }
    }
}

/// A visit from a marked cell that was not visited makes the next
/// rectangle.
pub proof fn lemma_scan_visit(
    view: TextDisplayView,
    before: Seq<bool>,
    after: Seq<bool>,
    bounds: Bounds,
    leaders: Seq<(int, int)>,
    regions: Seq<Region>,
    y: int,
    x: int,
)
    requires
        view.scan_state(before, leaders, regions, y, x),
        view.marked(y, x),
        !before[view.index(y, x)],
        view.visit_result(
            y,
            x,
            before,
            after,
            Bounds { min_x: x as usize, max_x: x as usize, min_y: y as usize, max_y: y as usize },
            bounds,
        ),
    ensures
        view.scan_state(after, leaders.push((y, x)), regions.push(bounds.region()), y, x + 1),
{
    reveal(TextDisplayView::visit_result);
    let width = view.width as int;
    let new_leaders = leaders.push((y, x));
    let new_regions = regions.push(bounds.region());
    lemma_new_leader(view, before, leaders, regions, y, x);
    lemma_new_hull(view, before, after, bounds, y, x);
    assert forall|k: int| 0 <= k < new_leaders.len() implies view.is_leader(
        (#[trigger] new_leaders[k]).0,
        new_leaders[k].1,
    ) && before_in_scan(new_leaders[k].0, new_leaders[k].1, y, x + 1) by {
        if k < leaders.len() {
            assert(new_leaders[k] == leaders[k]);
            assert(before_in_scan(leaders[k].0, leaders[k].1, y, x));
        }
    }
    assert forall|k: int| 0 <= k < new_leaders.len() implies view.is_hull(
        #[trigger] new_regions[k],
        new_leaders[k].0,
        new_leaders[k].1,
    ) by {
        if k < leaders.len() {
            assert(new_leaders[k] == leaders[k]);
            assert(new_regions[k] == regions[k]);
        }
    }
    assert forall|j: int, k: int| 0 <= j < k < new_leaders.len() implies before_in_scan(
        (#[trigger] new_leaders[j]).0,
        new_leaders[j].1,
        (#[trigger] new_leaders[k]).0,
        new_leaders[k].1,
    ) by {
        assert(new_leaders[j] == leaders[j]);
        if k < leaders.len() {
            assert(new_leaders[k] == leaders[k]);
        } else {
            assert(before_in_scan(leaders[j].0, leaders[j].1, y, x));
        }
    }
    assert forall|r: int, c: int, r2: int, c2: int|
        view.in_grid(r, c) && after[view.index(r, c)] && #[trigger] adjacent(r, c, r2, c2)
            && view.marked(r2, c2) implies after[view.index(r2, c2)] by {
        lemma_index_in_grid(r, c, width, view.height as int);
        lemma_index_in_grid(r2, c2, width, view.height as int);
        if before[view.index(r, c)] {
            assert(before[view.index(r2, c2)]);
        }
    }
    assert forall|r: int, c: int|
        view.in_grid(r, c) && #[trigger] after[view.index(r, c)] implies exists|k: int|
        0 <= k < new_leaders.len() && view.connected(
            (#[trigger] new_leaders[k]).0,
            new_leaders[k].1,
            r,
            c,
        ) by {
        lemma_index_in_grid(r, c, width, view.height as int);
        if before[view.index(r, c)] {
            let k = choose|k: int|
                0 <= k < leaders.len() && view.connected(
                    (#[trigger] leaders[k]).0,
                    leaders[k].1,
                    r,
                    c,
                );
            assert(new_leaders[k] == leaders[k]);
        } else {
            assert(newly_visited(before, after, width, r, c));
            let k = leaders.len() as int;
            assert(new_leaders[k] == (y, x));
            assert(view.connected(new_leaders[k].0, new_leaders[k].1, r, c));
        }
    }
    assert forall|r: int, c: int| #[trigger]
        view.marked(r, c) && before_in_scan(r, c, y, x + 1) implies after[view.index(r, c)] by {
        lemma_index_in_grid(r, c, width, view.height as int);
        if !(r == y && c == x) {
            assert(before_in_scan(r, c, y, x));
            assert(before[view.index(r, c)]);
        }
    }
}

/// A visit leaves visited what was visited.
pub proof fn lemma_visit_grows(
    view: TextDisplayView,
    row: int,
    col: int,
    before: Seq<bool>,
    after: Seq<bool>,
    bounds_before: Bounds,
    bounds_after: Bounds,
)
    requires
        view.visit_result(row, col, before, after, bounds_before, bounds_after),
    ensures
        after.len() == before.len(),
        forall|i: int| 0 <= i < before.len() && before[i] ==> #[trigger] after[i],
{
    reveal(TextDisplayView::visit_result);
}

/// A visit that starts at a cell that is not marked, or was visited,
/// changes nothing.
pub proof fn lemma_visit_nothing(
    view: TextDisplayView,
    row: int,
    col: int,
    visited: Seq<bool>,
    bounds: Bounds,
)
    requires
        !view.dirty[view.index(row, col)] || visited[view.index(row, col)],
    ensures
        view.visit_result(row, col, visited, visited, bounds, bounds),
{
    reveal(TextDisplayView::visit_result);
}

/// Cells that are joined are marked.
pub proof fn lemma_connected_marked(
    view: TextDisplayView,
    row: int,
    col: int,
    to_row: int,
    to_col: int,
)
    requires
        view.connected(row, col, to_row, to_col),
    ensures
        view.marked(row, col),
        view.marked(to_row, to_col),
{
    reveal(TextDisplayView::connected);
    let path = choose|path: Seq<(int, int)>|
        #[trigger] view.is_path(path) && path[0] == (row, col) && path.last() == (to_row, to_col);
    assert(view.marked(path[0].0, path[0].1));
    assert(view.marked(path[path.len() - 1].0, path[path.len() - 1].1));
}

/// Being joined goes both ways.
pub proof fn lemma_connected_symmetric(
    view: TextDisplayView,
    row: int,
    col: int,
    to_row: int,
    to_col: int,
)
    requires
        view.connected(row, col, to_row, to_col),
    ensures
        view.connected(to_row, to_col, row, col),
{
    reveal(TextDisplayView::connected);
    let path = choose|path: Seq<(int, int)>|
        #[trigger] view.is_path(path) && path[0] == (row, col) && path.last() == (to_row, to_col);
    let back = path.reverse();
    assert forall|i: int| 0 <= i < back.len() implies view.marked(
        (#[trigger] back[i]).0,
        back[i].1,
    ) by {
        assert(back[i] == path[path.len() - 1 - i]);
    }
    assert forall|i: int| 0 <= i < back.len() - 1 implies adjacent(
        (#[trigger] back[i]).0,
        back[i].1,
        back[i + 1].0,
        back[i + 1].1,
    ) by {
        assert(back[i] == path[path.len() - 1 - i]);
        assert(back[i + 1] == path[path.len() - 2 - i]);
        let j = path.len() - 2 - i;
        assert(adjacent(path[j].0, path[j].1, path[j + 1].0, path[j + 1].1));
    }
    assert(view.is_path(back));
    assert(back[0] == (to_row, to_col) && back.last() == (row, col));
}

/// Two first cells that are joined to each other are one cell.
pub proof fn lemma_joined_leaders_equal(
    view: TextDisplayView,
    row1: int,
    col1: int,
    row2: int,
    col2: int,
)
    requires
        view.is_leader(row1, col1),
        view.is_leader(row2, col2),
        view.connected(row1, col1, row2, col2),
    ensures
        row1 == row2,
        col1 == col2,
{
    lemma_connected_symmetric(view, row1, col1, row2, col2);
    lemma_connected_marked(view, row1, col1, row2, col2);
}

/// Every first cell of one list of first cells and rectangles is a first
/// cell of any other.
pub proof fn lemma_leader_in_both(
    view: TextDisplayView,
    leaders: Seq<(int, int)>,
    regions: Seq<Region>,
    others: Seq<(int, int)>,
    other_regions: Seq<Region>,
    k: int,
) -> (j: int)
    requires
        view.dirty_regions(leaders, regions),
        view.dirty_regions(others, other_regions),
        0 <= k < leaders.len(),
    ensures
        0 <= j < others.len(),
        others[j] == leaders[k],
{
    assert(view.is_leader(leaders[k].0, leaders[k].1));
    lemma_connected_marked(view, leaders[k].0, leaders[k].1, leaders[k].0, leaders[k].1);
    let j = choose|j: int|
        0 <= j < others.len() && view.connected(
            (#[trigger] others[j]).0,
            others[j].1,
            leaders[k].0,
            leaders[k].1,
        );
    assert(view.is_leader(others[j].0, others[j].1));
    lemma_joined_leaders_equal(view, others[j].0, others[j].1, leaders[k].0, leaders[k].1);
    j
}

/// Two lists of first cells of the same screen agree up to any place that
/// the first has.
pub proof fn lemma_leaders_agree(
    view: TextDisplayView,
    leaders: Seq<(int, int)>,
    regions: Seq<Region>,
    others: Seq<(int, int)>,
    other_regions: Seq<Region>,
    k: int,
)
    requires
        view.dirty_regions(leaders, regions),
        view.dirty_regions(others, other_regions),
        0 <= k < leaders.len(),
    ensures
        k < others.len(),
        others[k] == leaders[k],
    decreases k,
{
    let j = lemma_leader_in_both(view, leaders, regions, others, other_regions, k);
    if j < k {
        lemma_leaders_agree(view, leaders, regions, others, other_regions, j);
        assert(before_in_scan(leaders[j].0, leaders[j].1, leaders[k].0, leaders[k].1));
        assert(false);
    }
    if j > k {
        let back = lemma_leader_in_both(view, others, other_regions, leaders, regions, k);
        assert(before_in_scan(others[k].0, others[k].1, others[j].0, others[j].1));
        if back < k {
            lemma_leaders_agree(view, leaders, regions, others, other_regions, back);
            assert(false);
        }
        if back > k {
            assert(before_in_scan(leaders[k].0, leaders[k].1, leaders[back].0, leaders[back].1));
        }
        assert(false);
    }
}

/// A group of marked cells has one smallest rectangle.
pub proof fn lemma_hull_unique(
    view: TextDisplayView,
    region: Region,
    other: Region,
    row: int,
    col: int,
)
    requires
        view.is_hull(region, row, col),
        view.is_hull(other, row, col),
    ensures
        region == other,
{
    let (r1, c1) = choose|r: int, c: int| #[trigger]
        view.connected(row, col, r, c) && c == region.position.x;
    let (r2, c2) = choose|r: int, c: int| #[trigger]
        view.connected(row, col, r, c) && c == other.position.x;
    assert(region_has(other, r1, c1) && region_has(region, r2, c2));
    let (r3, c3) = choose|r: int, c: int| #[trigger]
        view.connected(row, col, r, c) && c == region.position.x + region.size.width - 1;
    let (r4, c4) = choose|r: int, c: int| #[trigger]
        view.connected(row, col, r, c) && c == other.position.x + other.size.width - 1;
    assert(region_has(other, r3, c3) && region_has(region, r4, c4));
    let (r5, c5) = choose|r: int, c: int| #[trigger]
        view.connected(row, col, r, c) && r == region.position.y;
    let (r6, c6) = choose|r: int, c: int| #[trigger]
        view.connected(row, col, r, c) && r == other.position.y;
    assert(region_has(other, r5, c5) && region_has(region, r6, c6));
    let (r7, c7) = choose|r: int, c: int| #[trigger]
        view.connected(row, col, r, c) && r == region.position.y + region.size.height - 1;
    let (r8, c8) = choose|r: int, c: int| #[trigger]
        view.connected(row, col, r, c) && r == other.position.y + other.size.height - 1;
    assert(region_has(other, r7, c7) && region_has(region, r8, c8));
}

/// The marked cells of a screen have one list of rectangles.
pub proof fn lemma_dirty_regions_unique(
    view: TextDisplayView,
    regions: Seq<Region>,
    other_regions: Seq<Region>,
)
    requires
        view.is_dirty_regions(regions),
        view.is_dirty_regions(other_regions),
    ensures
        regions == other_regions,
{
    let leaders = choose|leaders: Seq<(int, int)>| #[trigger] view.dirty_regions(leaders, regions);
    let others = choose|leaders: Seq<(int, int)>| #[trigger]
        view.dirty_regions(leaders, other_regions);
    if leaders.len() > 0 {
        lemma_leaders_agree(view, leaders, regions, others, other_regions, leaders.len() - 1);
    }
    if others.len() > 0 {
        lemma_leaders_agree(view, others, other_regions, leaders, regions, others.len() - 1);
    }
    assert(regions.len() == other_regions.len());
    assert forall|k: int| 0 <= k < regions.len() implies regions[k] == other_regions[k] by {
        lemma_leaders_agree(view, leaders, regions, others, other_regions, k);
        assert(view.is_hull(regions[k], leaders[k].0, leaders[k].1));
        assert(view.is_hull(other_regions[k], others[k].0, others[k].1));
        lemma_hull_unique(view, regions[k], other_regions[k], leaders[k].0, leaders[k].1);
    }
    assert(regions =~= other_regions);
}

/// The rectangles of the marked cells lie within the grid.
pub proof fn lemma_dirty_regions_in_grid(view: TextDisplayView, regions: Seq<Region>)
    requires
        view.is_dirty_regions(regions),
    ensures
        forall|k: int| 0 <= k < regions.len() ==> view.holds_region(#[trigger] regions[k]),
{
    let leaders = choose|leaders: Seq<(int, int)>| #[trigger] view.dirty_regions(leaders, regions);
    assert forall|k: int| 0 <= k < regions.len() implies view.holds_region(
        #[trigger] regions[k],
    ) by {
        assert(view.is_hull(regions[k], leaders[k].0, leaders[k].1));
    }
}

/// The smallest and greatest column and row of a set of cells.
#[derive(Debug, Clone, Copy, PartialEq, Eq, Structural)]
pub struct Bounds {
    pub min_x: usize,
    pub max_x: usize,
    pub min_y: usize,
    pub max_y: usize,
}

impl Bounds {
    /// Whether the cell in row `row` and column `col` lies within.
    pub open spec fn has(self, row: int, col: int) -> bool {
        self.min_x <= col <= self.max_x && self.min_y <= row <= self.max_y
    }

    /// Whether `other` reaches at least as far each way.
    pub open spec fn within(self, other: Bounds) -> bool {
        &&& other.min_x <= self.min_x
        &&& self.max_x <= other.max_x
        &&& other.min_y <= self.min_y
        &&& self.max_y <= other.max_y
    }

    /// The rectangle of the bounds.
    pub open spec fn region(self) -> Region {
        Region {
            position: Position { x: self.min_x, y: self.min_y },
            size: Size {
                width: (self.max_x - self.min_x + 1) as usize,
                height: (self.max_y - self.min_y + 1) as usize,
            },
        }
    }
}

/// How many cells are not visited.
pub open spec fn unvisited(visited: Seq<bool>) -> nat
    decreases visited.len(),
{
    if visited.len() == 0 {
        0
    } else {
        unvisited(visited.drop_last()) + if visited.last() {
            0nat
        } else {
            1nat
        }
    }
}

/// Visiting a cell that was not visited leaves one cell less to visit.
pub proof fn lemma_unvisited_visit(visited: Seq<bool>, index: int)
    requires
        0 <= index < visited.len(),
        !visited[index],
    ensures
        unvisited(visited.update(index, true)) + 1 == unvisited(visited),
    decreases visited.len(),
{
    let after = visited.update(index, true);
    if index == visited.len() - 1 {
        assert(after.drop_last() =~= visited.drop_last());
    } else {
        lemma_unvisited_visit(visited.drop_last(), index);
        assert(after.drop_last() =~= visited.drop_last().update(index, true));
    }
}

/// Where every visited cell stays visited, no more cells are left to visit
/// than before.
pub proof fn lemma_unvisited_monotonic(before: Seq<bool>, after: Seq<bool>)
    requires
        before.len() == after.len(),
        forall|i: int| 0 <= i < before.len() && before[i] ==> after[i],
    ensures
        unvisited(after) <= unvisited(before),
    decreases before.len(),
{
    if before.len() > 0 {
        lemma_unvisited_monotonic(before.drop_last(), after.drop_last());
    }
}

/// Whether the cell in row `row` and column `col` was visited between
/// `before` and `after`.
pub open spec fn newly_visited(
    before: Seq<bool>,
    after: Seq<bool>,
    width: int,
    row: int,
    col: int,
) -> bool {
    after[row * width + col] && !before[row * width + col]
}

/// Whether every bound of `after` is a bound of `before` or the column or
/// row of a cell of the grid that was visited between `visited_before` and
/// `visited_after`.
pub open spec fn bounds_attained(
    before: Bounds,
    after: Bounds,
    visited_before: Seq<bool>,
    visited_after: Seq<bool>,
    width: int,
    height: int,
) -> bool {
    &&& after.min_x == before.min_x || exists|row: int, col: int|
        0 <= row < height && 0 <= col < width && #[trigger] newly_visited(
            visited_before,
            visited_after,
            width,
            row,
            col,
        ) && col == after.min_x
    &&& after.max_x == before.max_x || exists|row: int, col: int|
        0 <= row < height && 0 <= col < width && #[trigger] newly_visited(
            visited_before,
            visited_after,
            width,
            row,
            col,
        ) && col == after.max_x
    &&& after.min_y == before.min_y || exists|row: int, col: int|
        0 <= row < height && 0 <= col < width && #[trigger] newly_visited(
            visited_before,
            visited_after,
            width,
            row,
            col,
        ) && row == after.min_y
    &&& after.max_y == before.max_y || exists|row: int, col: int|
        0 <= row < height && 0 <= col < width && #[trigger] newly_visited(
            visited_before,
            visited_after,
            width,
            row,
            col,
        ) && row == after.max_y
}

/// Bounds that are attained step by step are attained over all the steps.
pub proof fn lemma_bounds_attained_chain(
    first: Bounds,
    second: Bounds,
    third: Bounds,
    visited_first: Seq<bool>,
    visited_second: Seq<bool>,
    visited_third: Seq<bool>,
    width: int,
    height: int,
)
    requires
        visited_first.len() == visited_second.len(),
        visited_second.len() == visited_third.len(),
        visited_first.len() == width * height,
        forall|i: int| 0 <= i < visited_first.len() && visited_first[i] ==> visited_second[i],
        forall|i: int| 0 <= i < visited_first.len() && visited_second[i] ==> visited_third[i],
        bounds_attained(first, second, visited_first, visited_second, width, height),
        bounds_attained(second, third, visited_second, visited_third, width, height),
    ensures
        bounds_attained(first, third, visited_first, visited_third, width, height),
{
    assert forall|row: int, col: int|
        0 <= row < height && 0 <= col < width && #[trigger] newly_visited(
            visited_first,
            visited_second,
            width,
            row,
            col,
        ) implies newly_visited(visited_first, visited_third, width, row, col) by {
        lemma_index_in_grid(row, col, width, height);
    }
    assert forall|row: int, col: int|
        0 <= row < height && 0 <= col < width && #[trigger] newly_visited(
            visited_second,
            visited_third,
            width,
            row,
            col,
        ) implies newly_visited(visited_first, visited_third, width, row, col) by {
        lemma_index_in_grid(row, col, width, height);
    }
}

} // verus!
