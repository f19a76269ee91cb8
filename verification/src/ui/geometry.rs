//! Geometry of the PaperPad window: the three-by-three button grid, the Exit
//! bar below it and the status bar at the bottom.
use crate::screen::PhysicalPoint;
use vstd::prelude::*;

verus! {

/// Default window extent.
pub const WINDOW_WIDTH: u16 = 1272;

pub const WINDOW_HEIGHT: u16 = 1696;

pub const GRID_COLUMNS: u16 = 3;

pub const GRID_ROWS: u16 = 3;

/// Margin on each side of a cell; rows are twice this apart.
pub const CELL_MARGIN: u16 = 20;

/// Space above the first grid row.
pub const GRID_TOP_INSET: u16 = 60;

/// Space between the last grid row and the Exit bar.
pub const EXIT_BAR_GAP: u16 = 8;

pub const EXIT_BAR_HEIGHT: u16 = 72;

/// Space kept free at the bottom of the window.
pub const STATUS_BAR_HEIGHT: u16 = 40;

pub const LABEL_TEXT_Y_OFFSET: u16 = 5;

/// The id of the Exit bar, after the nine grid buttons.
pub const EXIT_BUTTON_ID: u8 = 10;

/// A point in window coordinates.
pub type Point = PhysicalPoint;

/// Half-open axis-aligned rectangle in physical window coordinates.
#[derive(Clone, Copy, Debug, PartialEq, Eq, Structural)]
pub struct LogicalRect {
    pub x: u16,
    pub y: u16,
    pub width: u16,
    pub height: u16,
}

/// Whether `rect` holds `point`.
pub open spec fn holds_point(rect: LogicalRect, point: PhysicalPoint) -> bool {
    &&& rect.x <= point.x < rect.x + rect.width
    &&& rect.y <= point.y < rect.y + rect.height
}

impl LogicalRect {
    pub fn contains_physical(self, point: PhysicalPoint) -> (inside: bool)
        ensures
            inside == holds_point(self, point),
    {
        let point_x = point.x as i32;
        let point_y = point.y as i32;
        let left = self.x as i32;
        let top = self.y as i32;
        let right = left + self.width as i32;
        let bottom = top + self.height as i32;
        point_x >= left && point_x < right && point_y >= top && point_y < bottom
    }
}

/// A rectangle to draw, in signed X11 coordinates.
#[derive(Clone, Copy, Debug, PartialEq, Eq, Structural)]
pub struct LayoutRect {
    pub x: i16,
    pub y: i16,
    pub width: u16,
    pub height: u16,
}

/// Text to draw at a baseline origin.
#[derive(Clone, Copy, Debug, PartialEq, Eq)]
pub struct TextPlacement {
    pub x: i16,
    pub y: i16,
    pub text: &'static [u8],
}

/// A value as a signed X11 coordinate, capped at the largest one.
pub open spec fn logical_coordinate_spec(value: u32) -> i16 {
    if value <= 32767 {
        value as i16
    } else {
        32767
    }
}

pub fn logical_coordinate(value: u32) -> (coordinate: i16)
    ensures
        coordinate == logical_coordinate_spec(value),
{
    if value <= 32767 {
        value as i16
    } else {
        32767
    }
}

/// Vertical space the grid cannot use: the top inset, the two row gaps, the
/// Exit bar with its gap and the status bar.
pub open spec fn vertical_overhead() -> nat {
    (GRID_TOP_INSET + (GRID_ROWS - 1) * (CELL_MARGIN * 2) + EXIT_BAR_GAP + EXIT_BAR_HEIGHT
        + STATUS_BAR_HEIGHT) as nat
}

/// The side of the square grid buttons of a `width` by `height` window: a
/// third of the width less both margins, or a third of the height left after
/// the fixed overhead, whichever is smaller; `None` when that is zero.
pub open spec fn grid_side(width: u16, height: u16) -> Option<u16> {
    let by_width = if width / GRID_COLUMNS >= CELL_MARGIN * 2 {
        (width / GRID_COLUMNS - CELL_MARGIN * 2) as nat
    } else {
        0
    };
    let by_height = if height >= vertical_overhead() {
        ((height - vertical_overhead()) / (GRID_ROWS as int)) as nat
    } else {
        0
    };
    let side = if by_width <= by_height {
        by_width
    } else {
        by_height
    };
    if side > 0 {
        Some(side as u16)
    } else {
        None
    }
}

/// The extent the grid spans and the side of its buttons.
pub fn grid_dimensions(width: u16, height: u16) -> (dimensions: Option<(u16, u16)>)
    ensures
        dimensions == (match grid_side(width, height) {
            Some(side) => Some((width, side)),
            None => None,
        }),
{
    let by_width: u16 = if width / GRID_COLUMNS >= CELL_MARGIN * 2 {
        width / GRID_COLUMNS - CELL_MARGIN * 2
    } else {
        0
    };
    let overhead: u16 = GRID_TOP_INSET + (GRID_ROWS - 1) * (CELL_MARGIN * 2) + EXIT_BAR_GAP
        + EXIT_BAR_HEIGHT + STATUS_BAR_HEIGHT;
    let by_height: u16 = if height >= overhead {
        (height - overhead) / GRID_ROWS
    } else {
        0
    };
    let side = if by_width <= by_height {
        by_width
    } else {
        by_height
    };
    if side > 0 {
        Some((width, side))
    } else {
        None
    }
}

/// One grid button and the rectangle it answers to.
#[derive(Clone, Copy, Debug, PartialEq, Eq, Structural)]
pub struct GridButton {
    pub id: u8,
    pub bounds: LogicalRect,
}

/// Cell `index` (row-major, 0-based) of a grid of side `side` in a window
/// `width` wide: columns spread evenly between the side margins, rows a row
/// gap apart below the top inset.
pub open spec fn grid_cell(width: u16, side: u16, index: int) -> LogicalRect {
    let row = index / 3;
    let column = index % 3;
    LogicalRect {
        x: (CELL_MARGIN + (width - CELL_MARGIN * 2 - side) * column / 2) as u16,
        y: (GRID_TOP_INSET + row * (side + CELL_MARGIN * 2)) as u16,
        width: side,
        height: side,
    }
}

/// `buttons` is the grid of a `width` by `height` window: empty when no
/// button fits, else buttons 1 to 9 in row-major order.
pub open spec fn is_window_grid(buttons: Seq<GridButton>, width: u16, height: u16) -> bool {
    match grid_side(width, height) {
        None => buttons.len() == 0,
        Some(side) => {
            &&& buttons.len() == 9
            &&& forall|index: int|
                0 <= index < 9 ==> #[trigger] buttons[index] == (GridButton {
                    id: (index + 1) as u8,
                    bounds: grid_cell(width, side, index),
                })
        },
    }
}

proof fn lemma_side_bounds(width: u16, height: u16)
    requires
        grid_side(width, height) is Some,
    ensures
        ({
            let side = grid_side(width, height)->0;
            &&& 3 * (side + 40) <= width
            &&& GRID_TOP_INSET + 3 * side + 80 + EXIT_BAR_GAP + EXIT_BAR_HEIGHT + STATUS_BAR_HEIGHT
                <= height
        }),
{
}

/// Whether `rect` covers the point `x`, `y`.
pub open spec fn covers(rect: LogicalRect, x: int, y: int) -> bool {
    rect.x <= x < rect.x + rect.width && rect.y <= y < rect.y + rect.height
}

/// `value * factor` for a factor of at most two, and its half.
proof fn lemma_double_at_most(value: int, factor: int)
    requires
        0 <= factor <= 2,
        value >= 0,
    ensures
        value * factor / 2 == (if factor == 0 {
            0
        } else if factor == 1 {
            value / 2
        } else {
            value
        }),
        value * factor == (if factor == 0 {
            0
        } else if factor == 1 {
            value
        } else {
            2 * value
        }),
{
    if factor == 0 {
        assert(value * factor == 0) by (nonlinear_arith)
            requires
                factor == 0,
        ;
    } else if factor == 1 {
        assert(value * factor == value) by (nonlinear_arith)
            requires
                factor == 1,
        ;
    } else {
        assert(value * factor == 2 * value) by (nonlinear_arith)
            requires
                factor == 2,
        ;
    }
}

/// Every grid button lies inside the window, above the Exit bar and the
/// status bar, and no two buttons overlap.
pub proof fn lemma_grid_inside_and_disjoint(width: u16, height: u16, buttons: Seq<GridButton>)
    requires
        is_window_grid(buttons, width, height),
    ensures
        forall|index: int|
            0 <= index < buttons.len() ==> {
                let bounds = #[trigger] buttons[index].bounds;
                &&& bounds.x + bounds.width <= width
                &&& bounds.y + bounds.height + EXIT_BAR_GAP + EXIT_BAR_HEIGHT + STATUS_BAR_HEIGHT
                    <= height
            },
        forall|first: int, second: int, x: int, y: int|
            0 <= first < buttons.len() && 0 <= second < buttons.len() && first != second
                ==> !(#[trigger] covers(buttons[first].bounds, x, y) && #[trigger] covers(
                buttons[second].bounds,
                x,
                y,
            )),
{
    if let Some(side) = grid_side(width, height) {
        lemma_side_bounds(width, height);
        let spread = width - CELL_MARGIN * 2 - side;
        assert forall|index: int| 0 <= index < buttons.len() implies {
            let bounds = #[trigger] buttons[index].bounds;
            &&& bounds.x + bounds.width <= width
            &&& bounds.y + bounds.height + EXIT_BAR_GAP + EXIT_BAR_HEIGHT + STATUS_BAR_HEIGHT
                <= height
        } by {
            lemma_double_at_most(spread, index % 3);
            lemma_double_at_most(side + 40, index / 3);
        }
        assert forall|first: int, second: int, x: int, y: int|
            0 <= first < buttons.len() && 0 <= second < buttons.len() && first != second implies !(
        #[trigger] covers(buttons[first].bounds, x, y) && #[trigger] covers(
            buttons[second].bounds,
            x,
            y,
        )) by {
            assert(spread >= 2 * side + 80);
            lemma_double_at_most(spread, first % 3);
            lemma_double_at_most(spread, second % 3);
            lemma_double_at_most(side + 40, first / 3);
            lemma_double_at_most(side + 40, second / 3);
            let a = buttons[first].bounds;
            let b = buttons[second].bounds;
            let column_offset = |c: int|
                if c == 0 {
                    0
                } else if c == 1 {
                    spread / 2
                } else {
                    spread
                };
            let row_offset = |r: int|
                if r == 0 {
                    0
                } else if r == 1 {
                    side + 40
                } else {
                    2 * (side + 40)
                };
            assert(a.x == 20 + column_offset(first % 3));
            assert(b.x == 20 + column_offset(second % 3));
            assert(a.y == 60 + row_offset(first / 3));
            assert(b.y == 60 + row_offset(second / 3));
            assert(a.width == side && b.width == side && a.height == side && b.height == side);
        }
    }
}

/// The buttons of the grid of a `width` by `height` window.
pub fn button_grid(width: u16, height: u16) -> (buttons: Vec<GridButton>)
    ensures
        is_window_grid(buttons@, width, height),
{
    let mut buttons: Vec<GridButton> = Vec::new();
    let side = match grid_dimensions(width, height) {
        Some((_, side)) => side,
        None => return buttons,
    };
    proof {
        lemma_side_bounds(width, height);
    }
    let spread: u32 = (width - CELL_MARGIN * 2 - side) as u32;
    let mut index: u8 = 0;
    while index < 9
        invariant
            index <= 9,
            grid_side(width, height) == Some(side),
            spread == width - CELL_MARGIN * 2 - side,
            3 * (side + 40) <= width,
            GRID_TOP_INSET + 3 * side + 200 <= height,
            buttons@.len() == index,
            forall|j: int|
                0 <= j < index ==> #[trigger] buttons@[j] == (GridButton {
                    id: (j + 1) as u8,
                    bounds: grid_cell(width, side, j),
                }),
        decreases 9 - index,
    {
        let row = (index / 3) as u32;
        let column = (index % 3) as u32;
        assert(spread * column / 2 <= spread) by (nonlinear_arith)
            requires
                column <= 2,
        ;
        assert(row * (side + 40) <= 2 * (side + 40)) by (nonlinear_arith)
            requires
                row <= 2,
        ;
        let x = CELL_MARGIN as u32 + spread * column / 2;
        let y = GRID_TOP_INSET as u32 + row * (side as u32 + CELL_MARGIN as u32 * 2);
        buttons.push(
            GridButton {
                id: index + 1,
                bounds: LogicalRect { x: x as u16, y: y as u16, width: side, height: side },
            },
        );
        index = index + 1;
    }
    buttons
}

} // verus!
