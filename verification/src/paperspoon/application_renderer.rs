//! Composition of the host application layout into a remote Mono1 frame.
//!
//! The frame has the viewport's extent, white everywhere but the one-pixel
//! black outlines of the application buttons. Text runs (the title, the
//! button labels and the status) are not drawn: this crate has no font to
//! draw them with.
use crate::framebuffer::{pixel_is_black, stride_of, Mono1Frame, Mono1FrameError, Mono1Pixel};
use crate::paperspoon::application_ui::{
    button_spec, cell_side_spec, is_button_grid, is_grid_button, ApplicationUi, ButtonLayout,
};
use crate::paperspoon::mono_renderer::{on_outline, MonoCanvas};
use vstd::prelude::*;

verus! {

/// Whether `(x, y)` is on the outline of one of the first `count` buttons of
/// a grid with square side `side` in a viewport `width` wide.
pub open spec fn on_button_outline(width: u16, side: u16, x: u16, y: u16, count: nat) -> bool
    decreases count,
{
    if count == 0 {
        false
    } else {
        let bounds = button_spec(width, side, count - 1).1;
        on_button_outline(width, side, x, y, (count - 1) as nat) || on_outline(
            x,
            y,
            bounds.x,
            bounds.y,
            bounds.width,
            bounds.height,
        )
    }
}

/// Whether the application frame of a `width` by `height` viewport is black
/// at `(x, y)`: exactly on the outline of an application button.
pub open spec fn application_pixel_black(width: u16, height: u16, x: u16, y: u16) -> bool {
    match cell_side_spec(width, height) {
        Some(side) => on_button_outline(width, side, x, y, 9),
        None => false,
    }
}

/// Render the application viewport: `ZeroDimension` for an empty viewport,
/// otherwise a frame of the viewport's extent whose black pixels are exactly
/// those on the outlines of the layout's buttons.
pub fn render_application(ui: &ApplicationUi, width: u16, height: u16) -> (result: Result<
    Mono1Frame,
    Mono1FrameError,
>)
    ensures
        width == 0 || height == 0 ==> result == Err::<Mono1Frame, Mono1FrameError>(
            Mono1FrameError::ZeroDimension { width, height },
        ),
        width != 0 && height != 0 ==> (result matches Ok(frame) && frame.spec_width() == width
            && frame.spec_height() == height && frame.spec_pixels().len() == stride_of(width)
            * (height as nat) && forall|x: u16, y: u16|
            x < width && y < height ==> #[trigger] pixel_is_black(
                frame.spec_pixels(),
                stride_of(width),
                x,
                y,
            ) == application_pixel_black(width, height, x, y)),
        width != 0 && height != 0 ==> (result matches Ok(frame) && forall|
            buttons: Seq<ButtonLayout>,
            i: int,
            x: u16,
            y: u16,
        |
            #![trigger is_button_grid(buttons, width, height), on_outline(x, y, buttons[i].bounds.x, buttons[i].bounds.y, buttons[i].bounds.width, buttons[i].bounds.height)]
            is_button_grid(buttons, width, height) && 0 <= i < buttons.len() && x < width && y
                < height && on_outline(
                x,
                y,
                buttons[i].bounds.x,
                buttons[i].bounds.y,
                buttons[i].bounds.width,
                buttons[i].bounds.height,
            ) ==> pixel_is_black(frame.spec_pixels(), stride_of(width), x, y)),
{
    let layout = match ui.layout(width, height) {
        Some(layout) => layout,
        None => return Err(Mono1FrameError::ZeroDimension { width, height }),
    };
    proof {
        assert(stride_of(width) <= 8192);
        assert(stride_of(width) * (height as nat) <= 8192 * 65535) by (nonlinear_arith)
            requires
                stride_of(width) <= 8192,
                height <= 65535,
        ;
    }
    let mut canvas = match MonoCanvas::new(width, height) {
        Ok(canvas) => canvas,
        Err(error) => return Err(error),
    };
    let buttons = &layout.buttons;
    let ghost side = cell_side_spec(width, height);
    let mut index: usize = 0;
    while index < buttons.len()
        invariant
            is_button_grid(buttons@, width, height),
            side == cell_side_spec(width, height),
            index <= buttons@.len(),
            canvas.well_formed(),
            canvas.spec_width() == width,
            canvas.spec_height() == height,
            side is Some ==> buttons@.len() == 9,
            forall|x: u16, y: u16|
                x < width && y < height ==> #[trigger] canvas.is_black(x, y) == (side is Some
                    && on_button_outline(width, side->0, x, y, index as nat)),
        decreases buttons@.len() - index,
    {
        assert(side is Some);
        assert(is_grid_button(buttons@[index as int], width, side->0, index as int));
        let bounds = buttons[index].bounds;
        canvas.outline_rect(bounds.x, bounds.y, bounds.width, bounds.height, Mono1Pixel::Black);
        index = index + 1;
    }
    proof {
        if side is None {
            assert(buttons@.len() == 0);
        }
    }
    proof {
        canvas.lemma_valid();
        assert(canvas.spec_pixels().len() == stride_of(width) * (height as nat));
        assert forall|x: u16, y: u16| x < width && y < height implies #[trigger] pixel_is_black(
            canvas.spec_pixels(),
            stride_of(width),
            x,
            y,
        ) == application_pixel_black(width, height, x, y) by {
            assert(canvas.is_black(x, y) == application_pixel_black(width, height, x, y));
        }
    }
    let frame = canvas.into_frame();
    proof {
        assert forall|buttons: Seq<ButtonLayout>, i: int, x: u16, y: u16|
            #![trigger is_button_grid(buttons, width, height), on_outline(x, y, buttons[i].bounds.x, buttons[i].bounds.y, buttons[i].bounds.width, buttons[i].bounds.height)]
            is_button_grid(buttons, width, height) && 0 <= i < buttons.len() && x < width && y
                < height && on_outline(
                x,
                y,
                buttons[i].bounds.x,
                buttons[i].bounds.y,
                buttons[i].bounds.width,
                buttons[i].bounds.height,
            ) implies application_pixel_black(width, height, x, y) by {
            lemma_rendered_outlines_are_the_layout_buttons(buttons, width, height, x, y);
            assert(buttons[i] == buttons[i]);
        }
    }
    frame
}

/// A pixel is on the outline of one of the first `count` grid buttons
/// exactly when some grid button below `count` has it on its outline.
proof fn lemma_on_button_outline(width: u16, side: u16, x: u16, y: u16, count: nat)
    ensures
        on_button_outline(width, side, x, y, count) <==> exists|i: int|
            0 <= i < count && #[trigger] on_outline(
                x,
                y,
                button_spec(width, side, i).1.x,
                button_spec(width, side, i).1.y,
                button_spec(width, side, i).1.width,
                button_spec(width, side, i).1.height,
            ),
    decreases count,
{
    if count > 0 {
        lemma_on_button_outline(width, side, x, y, (count - 1) as nat);
        let last = (count - 1) as int;
        if on_button_outline(width, side, x, y, count) {
            if !on_button_outline(width, side, x, y, (count - 1) as nat) {
                assert(on_outline(
                    x,
                    y,
                    button_spec(width, side, last).1.x,
                    button_spec(width, side, last).1.y,
                    button_spec(width, side, last).1.width,
                    button_spec(width, side, last).1.height,
                ));
            }
        } else {
            assert forall|i: int| 0 <= i < count implies !#[trigger] on_outline(
                x,
                y,
                button_spec(width, side, i).1.x,
                button_spec(width, side, i).1.y,
                button_spec(width, side, i).1.width,
                button_spec(width, side, i).1.height,
            ) by {
                if i < last {
                    assert(!on_button_outline(width, side, x, y, (count - 1) as nat));
                }
            }
        }
    }
}

/// The rendered application frame shows the layout's buttons: a pixel is
/// black exactly when it lies on the outline of one of the buttons that the
/// layout of the viewport has, every one of them included.
pub proof fn lemma_rendered_outlines_are_the_layout_buttons(
    buttons: Seq<ButtonLayout>,
    width: u16,
    height: u16,
    x: u16,
    y: u16,
)
    requires
        is_button_grid(buttons, width, height),
    ensures
        application_pixel_black(width, height, x, y) <==> exists|i: int|
            0 <= i < buttons.len() && on_outline(
                x,
                y,
                (#[trigger] buttons[i]).bounds.x,
                buttons[i].bounds.y,
                buttons[i].bounds.width,
                buttons[i].bounds.height,
            ),
        forall|i: int|
            0 <= i < buttons.len() && on_outline(
                x,
                y,
                (#[trigger] buttons[i]).bounds.x,
                buttons[i].bounds.y,
                buttons[i].bounds.width,
                buttons[i].bounds.height,
            ) ==> application_pixel_black(width, height, x, y),
{
    match cell_side_spec(width, height) {
        None => {},
        Some(side) => {
            lemma_on_button_outline(width, side, x, y, 9);
            assert forall|i: int| 0 <= i < buttons.len() implies buttons[i].bounds == button_spec(
                width,
                side,
                i,
            ).1 by {
                assert(is_grid_button(buttons[i], width, side, i));
            }
            if application_pixel_black(width, height, x, y) {
                let i = choose|i: int|
                    0 <= i < 9 && #[trigger] on_outline(
                        x,
                        y,
                        button_spec(width, side, i).1.x,
                        button_spec(width, side, i).1.y,
                        button_spec(width, side, i).1.width,
                        button_spec(width, side, i).1.height,
                    );
                assert(buttons[i].bounds == button_spec(width, side, i).1);
            }
            assert forall|i: int|
                0 <= i < buttons.len() && on_outline(
                    x,
                    y,
                    (#[trigger] buttons[i]).bounds.x,
                    buttons[i].bounds.y,
                    buttons[i].bounds.width,
                    buttons[i].bounds.height,
                ) implies application_pixel_black(width, height, x, y) by {
                assert(buttons[i].bounds == button_spec(width, side, i).1);
                assert(on_outline(
                    x,
                    y,
                    button_spec(width, side, i).1.x,
                    button_spec(width, side, i).1.y,
                    button_spec(width, side, i).1.width,
                    button_spec(width, side, i).1.height,
                ));
            }
        },
    }
}

} // verus!
