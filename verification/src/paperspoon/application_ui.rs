//! Network- and renderer-independent model of the host-owned application UI:
//! a title, a three-by-three grid of square buttons and a status bar, laid
//! out in remote-viewport coordinates.
use crate::text::chars_to_string;
use vstd::prelude::*;

verus! {

pub const GRID_COLUMNS: u16 = 3;

pub const GRID_ROWS: u16 = 3;

pub const CELL_MARGIN: u16 = 20;

pub const GRID_TOP_INSET: u16 = 60;

pub const STATUS_BAR_HEIGHT: u16 = 40;

pub const STATUS_TEXT_BOTTOM_MARGIN: u16 = 10;

pub const TITLE_X: u16 = CELL_MARGIN;

pub const TITLE_BASELINE: u16 = 40;

pub const LABEL_TEXT_X_OFFSET: u16 = 3;

pub const LABEL_TEXT_Y_OFFSET: u16 = 5;

/// Application title retained for visual equivalence with PaperPad.
pub const TITLE_TEXT: &'static str = "Core X11 button grid: tap 1-9";

/// Half-open rectangle in remote-viewport coordinates.
#[derive(Clone, Copy, Debug, PartialEq, Eq, Structural)]
pub struct Rect {
    pub x: u16,
    pub y: u16,
    pub width: u16,
    pub height: u16,
}

/// Whether `rect` holds the point `x`, `y`.
pub open spec fn rect_contains(rect: Rect, x: u16, y: u16) -> bool {
    rect.x <= x && rect.y <= y && x < rect.x + rect.width && y < rect.y + rect.height
}

impl Rect {
    pub fn contains(self, x: u16, y: u16) -> (inside: bool)
        ensures
            inside == rect_contains(self, x, y),
    {
        let x = x as u32;
        let y = y as u32;
        x >= self.x as u32 && y >= self.y as u32 && x < self.x as u32 + self.width as u32 && y
            < self.y as u32 + self.height as u32
    }
}

/// Text and its baseline origin in remote-viewport coordinates.
#[derive(Clone, Copy, Debug, PartialEq, Eq)]
pub struct TextRun<'a> {
    pub x: u16,
    pub baseline_y: u16,
    pub text: &'a str,
}

/// One host-owned application button. Exit is not one of them.
#[derive(Clone, Copy, Debug, PartialEq, Eq)]
pub struct ButtonLayout {
    pub id: u8,
    pub bounds: Rect,
    pub label: TextRun<'static>,
}

/// Complete host application layout for one remote viewport.
#[derive(Debug, PartialEq, Eq)]
pub struct ApplicationLayout<'a> {
    pub width: u16,
    pub height: u16,
    pub title: TextRun<'static>,
    pub buttons: Vec<ButtonLayout>,
    pub status_region: Rect,
    pub status: Option<TextRun<'a>>,
}

/// The smaller of two values.
pub open spec fn min_nat(a: nat, b: nat) -> nat {
    if a <= b {
        a
    } else {
        b
    }
}

/// `a - b`, or zero.
pub open spec fn saturating_sub_nat(a: nat, b: nat) -> nat {
    if a >= b {
        (a - b) as nat
    } else {
        0
    }
}

/// Vertical space the grid cannot use: the top inset, the two row gaps and
/// the status bar.
pub open spec fn fixed_vertical_overhead() -> nat {
    (GRID_TOP_INSET + (GRID_ROWS - 1) * (CELL_MARGIN * 2) + STATUS_BAR_HEIGHT) as nat
}

/// The side of the square grid buttons: a third of the width less both
/// margins, or a third of the height left after the fixed overhead, whichever
/// is smaller; `None` when that is zero.
pub open spec fn cell_side_spec(width: u16, height: u16) -> Option<u16> {
    if width == 0 || height == 0 {
        None
    } else {
        let side = min_nat(
            saturating_sub_nat((width / GRID_COLUMNS) as nat, (CELL_MARGIN * 2) as nat),
            saturating_sub_nat(height as nat, fixed_vertical_overhead()) / (GRID_ROWS as nat),
        );
        if side > 0 {
            Some(side as u16)
        } else {
            None
        }
    }
}

/// The label text of button `index` (0-based).
pub open spec fn button_label(index: int) -> Seq<char> {
    seq![((49 + index) as u32) as char]
}

/// Button `index` (row-major, 0-based) of a grid with square side `side` in
/// a viewport `width` wide: columns spread evenly between the side margins,
/// rows a row gap apart below the top inset.
pub open spec fn button_spec(width: u16, side: u16, index: int) -> (u8, Rect, u16, u16) {
    let row = index / 3;
    let column = index % 3;
    let inner_width = width - CELL_MARGIN * 2;
    let x = CELL_MARGIN + (inner_width - side) * column / ((GRID_COLUMNS - 1) as int);
    let y = GRID_TOP_INSET + row * (side + CELL_MARGIN * 2);
    let center_x = x + side / 2;
    let center_y = y + side / 2;
    (
        (index + 1) as u8,
        Rect { x: x as u16, y: y as u16, width: side, height: side },
        (if center_x >= LABEL_TEXT_X_OFFSET {
            center_x - LABEL_TEXT_X_OFFSET
        } else {
            0
        }) as u16,
        (center_y + LABEL_TEXT_Y_OFFSET) as u16,
    )
}

/// `button` is button `index` of the grid.
pub open spec fn is_grid_button(button: ButtonLayout, width: u16, side: u16, index: int) -> bool {
    let (id, bounds, label_x, label_y) = button_spec(width, side, index);
    &&& button.id == id
    &&& button.bounds == bounds
    &&& button.label.x == label_x
    &&& button.label.baseline_y == label_y
    &&& button.label.text@ == button_label(index)
}

/// The buttons of a `width` by `height` viewport: none when no button fits,
/// otherwise the nine grid buttons in row-major order.
pub open spec fn is_button_grid(buttons: Seq<ButtonLayout>, width: u16, height: u16) -> bool {
    match cell_side_spec(width, height) {
        None => buttons.len() == 0,
        Some(side) => buttons.len() == 9 && forall|index: int|
            0 <= index < 9 ==> is_grid_button(#[trigger] buttons[index], width, side, index),
    }
}

/// The side of the grid's square buttons, if any fits.
pub fn grid_cell_side(width: u16, height: u16) -> (side: Option<u16>)
    ensures
        side == cell_side_spec(width, height),
{
    if width == 0 || height == 0 {
        return None;
    }
    let row_gap = CELL_MARGIN * 2;
    let fixed_vertical_overhead = GRID_TOP_INSET + (GRID_ROWS - 1) * row_gap + STATUS_BAR_HEIGHT;
    let by_width = (width / GRID_COLUMNS).saturating_sub(CELL_MARGIN * 2);
    let by_height = height.saturating_sub(fixed_vertical_overhead) / GRID_ROWS;
    let side = if by_width <= by_height {
        by_width
    } else {
        by_height
    };
    if side > 0 {
        Some(side)
    } else {
        None
    }
}

/// The label of button `index`.
fn label_text(index: u16) -> (text: &'static str)
    requires
        index < 9,
    ensures
        text@ == button_label(index as int),
{
    proof {
        reveal_strlit("1");
        reveal_strlit("2");
        reveal_strlit("3");
        reveal_strlit("4");
        reveal_strlit("5");
        reveal_strlit("6");
        reveal_strlit("7");
        reveal_strlit("8");
        reveal_strlit("9");
    }
    match index {
        0 => "1",
        1 => "2",
        2 => "3",
        3 => "4",
        4 => "5",
        5 => "6",
        6 => "7",
        7 => "8",
        _ => "9",
    }
}

/// The grid of a side that fits: its dimensions stay inside `u16`.
proof fn lemma_grid_fits(width: u16, height: u16, side: u16)
    requires
        cell_side_spec(width, height) == Some(side),
    ensures
        side > 0,
        3 * (side as int) + 120 <= width,
        3 * (side as int) + 180 <= height,
{
}

/// The application buttons of a `width` by `height` viewport.
pub fn button_grid(width: u16, height: u16) -> (buttons: Vec<ButtonLayout>)
    ensures
        is_button_grid(buttons@, width, height),
{
    let side = match grid_cell_side(width, height) {
        Some(side) => side,
        None => return Vec::new(),
    };
    proof {
        lemma_grid_fits(width, height, side);
    }
    let row_gap = CELL_MARGIN * 2;
    let inner_width = width - CELL_MARGIN * 2;
    let mut buttons: Vec<ButtonLayout> = Vec::new();
    let mut index: u16 = 0;
    while index < 9
        invariant
            index <= 9,
            cell_side_spec(width, height) == Some(side),
            side > 0,
            3 * (side as int) + 120 <= width,
            3 * (side as int) + 180 <= height,
            row_gap == 40,
            inner_width == width - 40,
            buttons@.len() == index,
            forall|i: int| 0 <= i < index ==> is_grid_button(#[trigger] buttons@[i], width, side, i),
        decreases 9 - index,
    {
        let row = index / GRID_COLUMNS;
        let column = index % GRID_COLUMNS;
        proof {
            assert((inner_width - side) * (column as int) <= (inner_width - side) * 2)
                by (nonlinear_arith)
                requires
                    column <= 2,
                    inner_width >= side,
            ;
            assert((row as int) * (side + 40) <= 2 * (side + 40)) by (nonlinear_arith)
                requires
                    row <= 2,
            ;
        }
        let x = CELL_MARGIN as u32 + (inner_width - side) as u32 * column as u32 / (GRID_COLUMNS
            - 1) as u32;
        let y = GRID_TOP_INSET + row * (side + row_gap);
        let center_x = x + side as u32 / 2;
        let center_y = y as u32 + side as u32 / 2;
        let button = ButtonLayout {
            id: index as u8 + 1,
            bounds: Rect { x: x as u16, y, width: side, height: side },
            label: TextRun {
                x: center_x.saturating_sub(LABEL_TEXT_X_OFFSET as u32) as u16,
                baseline_y: (center_y + LABEL_TEXT_Y_OFFSET as u32) as u16,
                text: label_text(index),
            },
        };
        buttons.push(button);
        index = index + 1;
    }
    buttons
}

/// Host-owned application state, independent from transport and rendering.
#[derive(Debug, PartialEq, Eq)]
pub struct ApplicationUi {
    status: Option<String>,
}

/// The text of the optional status.
pub open spec fn status_text(status: Option<String>) -> Option<Seq<char>> {
    match status {
        Some(text) => Some(text@),
        None => None,
    }
}

/// The title of a `width` by `height` viewport.
pub open spec fn title_spec(width: u16, height: u16) -> (u16, u16) {
    (
        min_nat(TITLE_X as nat, (width - 1) as nat) as u16,
        min_nat(TITLE_BASELINE as nat, (height - 1) as nat) as u16,
    )
}

/// The status region: the bottom `min(40, height)` rows.
pub open spec fn status_region_spec(width: u16, height: u16) -> Rect {
    let status_height = min_nat(STATUS_BAR_HEIGHT as nat, height as nat);
    Rect { x: 0, y: (height - status_height) as u16, width, height: status_height as u16 }
}

/// The origin of the status text.
pub open spec fn status_origin_spec(width: u16, height: u16) -> (u16, u16) {
    (
        min_nat(CELL_MARGIN as nat, (width - 1) as nat) as u16,
        min_nat(
            saturating_sub_nat(height as nat, STATUS_TEXT_BOTTOM_MARGIN as nat),
            (height - 1) as nat,
        ) as u16,
    )
}

impl Default for ApplicationUi {
    fn default() -> (ui: Self)
        ensures
            ui.spec_status() is None,
    {
        ApplicationUi { status: None }
    }
}

impl ApplicationUi {
    pub closed spec fn spec_status(&self) -> Option<Seq<char>> {
        status_text(self.status)
    }

    /// Replace the remote status text shown in subsequent layouts.
    pub fn set_status(&mut self, status: &str)
        ensures
            final(self).spec_status() == Some(status@),
    {
        let chars = crate::text::str_to_chars(status);
        self.status = Some(chars_to_string(chars.as_slice()));
    }

    /// Remove remote status text from subsequent layouts.
    pub fn clear_status(&mut self)
        ensures
            final(self).spec_status() is None,
    {
        self.status = None;
    }

    /// Compute a deterministic layout for a nonzero remote viewport.
    pub fn layout(&self, width: u16, height: u16) -> (layout: Option<ApplicationLayout<'_>>)
        ensures
            match layout {
                None => width == 0 || height == 0,
                Some(layout) => {
                    &&& width != 0 && height != 0
                    &&& layout.width == width && layout.height == height
                    &&& (layout.title.x, layout.title.baseline_y) == title_spec(width, height)
                    &&& layout.title.text@ == TITLE_TEXT@
                    &&& is_button_grid(layout.buttons@, width, height)
                    &&& layout.status_region == status_region_spec(width, height)
                    &&& match (layout.status, self.spec_status()) {
                        (Some(run), Some(text)) => run.text@ == text && (run.x, run.baseline_y)
                            == status_origin_spec(width, height),
                        (None, None) => true,
                        _ => false,
                    }
                },
            },
    {
        if width == 0 || height == 0 {
            return None;
        }
        let status_height = if STATUS_BAR_HEIGHT <= height {
            STATUS_BAR_HEIGHT
        } else {
            height
        };
        let status_region = Rect { x: 0, y: height - status_height, width, height: status_height };
        let margin_x = if CELL_MARGIN <= width - 1 {
            CELL_MARGIN
        } else {
            width - 1
        };
        let status = match &self.status {
            Some(text) => {
                let raised = height.saturating_sub(STATUS_TEXT_BOTTOM_MARGIN);
                Some(
                    TextRun {
                        x: margin_x,
                        baseline_y: if raised <= height - 1 {
                            raised
                        } else {
                            height - 1
                        },
                        text: text.as_str(),
                    },
                )
            },
            None => None,
        };
        let title_x = if TITLE_X <= width - 1 {
            TITLE_X
        } else {
            width - 1
        };
        let title_y = if TITLE_BASELINE <= height - 1 {
            TITLE_BASELINE
        } else {
            height - 1
        };
        Some(
            ApplicationLayout {
                width,
                height,
                title: TextRun { x: title_x, baseline_y: title_y, text: TITLE_TEXT },
                buttons: button_grid(width, height),
                status_region,
                status,
            },
        )
    }
}

/// `value * factor` for a factor of at most two, and its half.
proof fn lemma_small_multiple(value: int, factor: int)
    requires
        0 <= factor <= 2,
        value >= 0,
    ensures
        value * factor / 2 == (if factor == 0 {
            0
        } else if factor == 1 {
            value / 2
        } else {
            value
        }),
        value * factor == (if factor == 0 {
            0
        } else if factor == 1 {
            value
        } else {
            2 * value
        }),
{
    if factor == 0 {
        assert(value * factor == 0) by (nonlinear_arith)
            requires
                factor == 0,
        ;
    } else if factor == 1 {
        assert(value * factor == value) by (nonlinear_arith)
            requires
                factor == 1,
        ;
    } else {
        assert(value * factor == 2 * value) by (nonlinear_arith)
            requires
                factor == 2,
        ;
    }
}

/// Every button lies inside the viewport, above the status region, and no
/// two buttons overlap.
pub proof fn lemma_buttons_inside_viewport(width: u16, height: u16, buttons: Seq<ButtonLayout>)
    requires
        is_button_grid(buttons, width, height),
    ensures
        forall|index: int|
            0 <= index < buttons.len() ==> {
                let bounds = #[trigger] buttons[index].bounds;
                &&& bounds.x + bounds.width <= width
                &&& bounds.y + bounds.height <= status_region_spec(width, height).y
            },
        forall|first: int, second: int, x: u16, y: u16|
            0 <= first < buttons.len() && 0 <= second < buttons.len() && first != second
                ==> !(#[trigger] rect_contains(buttons[first].bounds, x, y) && #[trigger] rect_contains(
                buttons[second].bounds,
                x,
                y,
            )),
{
    if let Some(side) = cell_side_spec(width, height) {
        lemma_grid_fits(width, height, side);
        let inner = width - 40;
        assert forall|index: int| 0 <= index < buttons.len() implies {
            let bounds = #[trigger] buttons[index].bounds;
            &&& bounds.x + bounds.width <= width
            &&& bounds.y + bounds.height <= status_region_spec(width, height).y
        } by {
            assert(is_grid_button(buttons[index], width, side, index));
            let column = index % 3;
            let row = index / 3;
            assert((inner - side) * column / 2 <= inner - side) by (nonlinear_arith)
                requires
                    0 <= column <= 2,
                    inner >= side,
            ;
            assert(row * (side + 40) <= 2 * (side + 40)) by (nonlinear_arith)
                requires
                    0 <= row <= 2,
            ;
        }
        assert forall|first: int, second: int, x: u16, y: u16|
            0 <= first < buttons.len() && 0 <= second < buttons.len() && first != second implies !(
        #[trigger] rect_contains(buttons[first].bounds, x, y) && #[trigger] rect_contains(
            buttons[second].bounds,
            x,
            y,
        )) by {
            assert(is_grid_button(buttons[first], width, side, first));
            assert(is_grid_button(buttons[second], width, side, second));
            let spread = inner - side;
            assert(spread >= 2 * side + 80);
            let c1 = first % 3;
            let c2 = second % 3;
            let r1 = first / 3;
            let r2 = second / 3;
            let x1 = if c1 == 0 {
                0
            } else if c1 == 1 {
                spread / 2
            } else {
                spread
            };
            let x2 = if c2 == 0 {
                0
            } else if c2 == 1 {
                spread / 2
            } else {
                spread
            };
            lemma_small_multiple(spread, c1);
            lemma_small_multiple(spread, c2);
            let y1 = if r1 == 0 {
                0
            } else if r1 == 1 {
                side + 40
            } else {
                2 * (side + 40)
            };
            let y2 = if r2 == 0 {
                0
            } else if r2 == 1 {
                side + 40
            } else {
                2 * (side + 40)
            };
            lemma_small_multiple(side + CELL_MARGIN * 2, first / 3);
            lemma_small_multiple(side + CELL_MARGIN * 2, second / 3);
            assert(buttons[first].bounds.x == 20 + x1);
            assert(buttons[second].bounds.x == 20 + x2);
            assert(buttons[first].bounds.y == 60 + y1);
            assert(buttons[second].bounds.y == 60 + y2);
        }
    }
}

} // verus!
