//! The metrics of the window, in points.
//!
//! Every row of the sidebar has one of these heights, so that the place of a row, and with it the
//! place of a popup that belongs to the row, can be computed exactly.

use vstd::prelude::*;

use crate::scalar::ONE_BITS;
use crate::scalar::ZERO_BITS;

verus! {

/// The initial width of the window. Its height follows from the page's proportions.
pub const INITIAL_WIDTH: u32 = 900;

/// The width of the sidebar.
pub const SIDEBAR_WIDTH: u32 = 282;

/// The space between the sidebar's edge and its rows.
pub const SIDEBAR_PADDING: u32 = 16;

/// The space between two rows of the sidebar.
pub const ROW_SPACING: u32 = 16;

/// The height of a label.
pub const LABEL_HEIGHT: u32 = 18;

/// The height of a slider.
pub const SLIDER_HEIGHT: u32 = 18;

/// The bits of the lowest opacity that a slider gives.
pub const OPACITY_MIN_BITS: u32 = ZERO_BITS;

/// The bits of the highest opacity that a slider gives.
pub const OPACITY_MAX_BITS: u32 = ONE_BITS;

/// The bits of 0.01, by which a slider of opacities moves.
pub const OPACITY_STEP_BITS: u32 = 0x3c23_d70a;

/// The height of a colour swatch with its label.
pub const SWATCH_ROW_HEIGHT: u32 = 20;

/// The space between two swatches.
pub const SWATCH_SPACING: u32 = 16;

/// The space between a swatch and its label.
pub const SWATCH_LABEL_SPACING: u32 = 8;

/// The width of a swatch's patch of colour.
pub const SWATCH_PATCH_WIDTH: u32 = 28;

/// The height of a swatch's patch of colour.
pub const SWATCH_PATCH_HEIGHT: u32 = 18;

/// How far below the sidebar's top the swatch of the text colour is.
pub const TEXT_SWATCH_TOP: u32 = SIDEBAR_PADDING + 2 * (LABEL_HEIGHT + ROW_SPACING + SLIDER_HEIGHT
    + ROW_SPACING);

/// How far below the sidebar's top the swatch of the backdrop colour is.
pub const BACKDROP_SWATCH_TOP: u32 = TEXT_SWATCH_TOP + SWATCH_ROW_HEIGHT + ROW_SPACING;

/// How far left of the sidebar's right edge a popup starts, so that it overlaps the sidebar.
pub const POPUP_SIDEBAR_OVERLAP: u32 = 24;

/// The width of the parts of a colour picker.
pub const PICKER_WIDTH: u32 = 220;

/// The height of a picker's square of saturations and values.
pub const PICKER_SQUARE_HEIGHT: u32 = 160;

/// The height of a picker's strip of hues.
pub const PICKER_STRIP_HEIGHT: u32 = 24;

/// The space between the parts of a picker.
pub const PICKER_SPACING: u32 = 8;

/// The space between a picker's edge and its parts.
pub const PICKER_PADDING: u32 = 12;

/// The metrics fit each other: the two swatches stand below two labels and two sliders, each with
/// its space; the sidebar leaves room for the page in the first window; and a picker is wider
/// than the part of it that overlaps the sidebar.
pub proof fn law_metrics_add_up()
    ensures
        INITIAL_WIDTH == 900,
        SIDEBAR_WIDTH == 282,
        SIDEBAR_PADDING == 16,
        ROW_SPACING == 16,
        LABEL_HEIGHT == 18,
        SLIDER_HEIGHT == 18,
        SWATCH_ROW_HEIGHT == 20,
        SWATCH_SPACING == ROW_SPACING,
        TEXT_SWATCH_TOP == 16 + (18 + 16) + (18 + 16) + (18 + 16) + (18 + 16),
        BACKDROP_SWATCH_TOP - TEXT_SWATCH_TOP == 20 + 16,
        POPUP_SIDEBAR_OVERLAP == 24,
        SIDEBAR_WIDTH < INITIAL_WIDTH,
        POPUP_SIDEBAR_OVERLAP < PICKER_WIDTH + 2 * PICKER_PADDING,
{
}

} // verus!
