//! The viewer together with the picture of the page that it shows.
//!
//! The viewer only says when the page has to be drawn. Here the drawing is done as it says, for
//! any way of rounding sizes to pixels, any PDF engine and any way of turning a colour into ink,
//! and what is then always on show is proved.

use vstd::prelude::*;

use crate::color::Color;
use crate::pixels::recolored;
use crate::pixels::Ink;
use crate::scalar::Scalar;
use crate::viewer::at_least_one;
use crate::viewer::is_last_said;
use crate::viewer::law_scale_and_window_are_the_last_reported;
use crate::viewer::law_size_is_the_last_reported;
use crate::viewer::scale_in;
use crate::viewer::size_in;
use crate::viewer::Message;
use crate::viewer::PdfViewer;
use crate::viewer::Redraw;
use crate::viewer::Size;

verus! {

/// What the drawing is done with.
pub ghost struct Studio {
    /// A size in points and a number of pixels a point, as rounded numbers of pixels.
    pub round: spec_fn(Size, Scalar) -> (u32, u32),
    /// The page that the engine draws for a box of pixels.
    pub engine: spec_fn(u32, u32) -> Seq<u8>,
    pub ink: spec_fn(Color) -> Ink,
}

/// A viewer and the picture that it shows.
pub ghost struct Shown<W> {
    pub viewer: PdfViewer<W>,
    pub picture: Seq<u8>,
}

impl Studio {
    /// The window's size in pixels, of which each side has one at least.
    pub open spec fn pixels<W>(self, viewer: PdfViewer<W>) -> (u32, u32) {
        let rounded = (self.round)(viewer.logical_size, viewer.scale_factor);
        (at_least_one(rounded.0), at_least_one(rounded.1))
    }

    /// The picture for the box that the viewer has drawn for last, in the viewer's text colour.
    pub open spec fn picture_of<W>(self, viewer: PdfViewer<W>) -> Seq<u8> {
        recolored(
            (self.engine)(viewer.last_rendered_physical.0, viewer.last_rendered_physical.1),
            (self.ink)(viewer.text_color),
        )
    }
}

impl<W> Shown<W> {
    /// What is shown after the page was drawn as the viewer asks.
    pub open spec fn drawn(self, studio: Studio, redraw: Redraw) -> Shown<W> {
        let rounded = (studio.round)(self.viewer.logical_size, self.viewer.scale_factor);
        match self.viewer.target(redraw, rounded.0, rounded.1) {
            None => self,
            Some(target) => {
                let viewer = PdfViewer { last_rendered_physical: target, ..self.viewer };
                Shown { viewer, picture: studio.picture_of(viewer) }
            },
        }
    }

    /// What is shown after the viewer was told a message at the time `now`, and the page was
    /// drawn as that asks.
    pub open spec fn told(self, studio: Studio, message: Message<W>, now: u128) -> Shown<W> {
        (Shown { viewer: self.viewer.updated(message, now), ..self }).drawn(
            studio,
            self.viewer.redraw_after(message, now),
        )
    }

    /// What is shown after a row of messages, each with the time at which it is handled.
    pub open spec fn after(self, studio: Studio, messages: Seq<(Message<W>, u128)>) -> Shown<W>
        decreases messages.len(),
    {
        if messages.len() == 0 {
            self
        } else {
            self.after(studio, messages.drop_last()).told(
                studio,
                messages.last().0,
                messages.last().1,
            )
        }
    }
}

/// What a viewer shows that has drawn nothing before its first drawing.
pub open spec fn first_shown<W>(studio: Studio, viewer: PdfViewer<W>) -> Shown<W> {
    (Shown { viewer, picture: Seq::empty() }).drawn(studio, Redraw::Fit)
}

/// Whether the page was drawn for the window's size in pixels, or a resize is pending.
pub open spec fn is_drawn_or_pending<W>(studio: Studio, viewer: PdfViewer<W>) -> bool {
    viewer.last_rendered_physical == studio.pixels(viewer) || viewer.pending_resize_at is Some
}

/// The picture is always the one for the box that the viewer has drawn for last, in the current
/// text colour, whatever the viewer has been told since it started.
pub proof fn law_picture_has_the_current_color<W>(
    studio: Studio,
    viewer: PdfViewer<W>,
    messages: Seq<(Message<W>, u128)>,
)
    requires
        viewer.last_rendered_physical == (0u32, 0u32),
    ensures
        ({
            let shown = first_shown(studio, viewer).after(studio, messages);
            shown.picture == studio.picture_of(shown.viewer)
        }),
    decreases messages.len(),
{
    if messages.len() > 0 {
        law_picture_has_the_current_color(studio, viewer, messages.drop_last());
    }
}

/// A page that was drawn for another size than the window has always comes with a resize that is
/// pending: whatever the viewer has been told since it started, the page either fits the window
/// or will be drawn anew.
pub proof fn law_stale_page_has_a_pending_resize<W>(
    studio: Studio,
    viewer: PdfViewer<W>,
    messages: Seq<(Message<W>, u128)>,
)
    requires
        viewer.last_rendered_physical == (0u32, 0u32),
    ensures
        is_drawn_or_pending(studio, first_shown(studio, viewer).after(studio, messages).viewer),
    decreases messages.len(),
{
    if messages.len() > 0 {
        law_stale_page_has_a_pending_resize(studio, viewer, messages.drop_last());
    }
}

/// Drawing changes nothing of the viewer but the size it has drawn for last. So what holds of the
/// rest of its state after a row of messages holds with the drawing done, too.
pub proof fn law_drawing_changes_only_the_last_size<W>(
    studio: Studio,
    shown: Shown<W>,
    messages: Seq<(Message<W>, u128)>,
)
    ensures
        ({
            let viewer = shown.after(studio, messages).viewer;
            viewer == (PdfViewer {
                last_rendered_physical: viewer.last_rendered_physical,
                ..shown.viewer.after(messages)
            })
        }),
    decreases messages.len(),
{
    if messages.len() > 0 {
        law_drawing_changes_only_the_last_size(studio, shown, messages.drop_last());
    }
}

/// The page fits the window: whatever the viewer has been told since it started, once no resize
/// is pending the page has been drawn for the size last reported, width and height, at the scale
/// last reported, rounded to pixels, with one pixel at least on each side.
pub proof fn law_settled_page_fits_the_window<W>(
    studio: Studio,
    viewer: PdfViewer<W>,
    messages: Seq<(Message<W>, u128)>,
)
    requires
        viewer.last_rendered_physical == (0u32, 0u32),
    ensures
        ({
            let now = first_shown(studio, viewer).after(studio, messages).viewer;
            let rounded = (studio.round)(now.logical_size, now.scale_factor);
            let drawn = now.last_rendered_physical;
            &&& is_last_said(
                messages,
                |m: Message<W>| size_in(m),
                viewer.logical_size,
                now.logical_size,
            )
            &&& is_last_said(
                messages,
                |m: Message<W>| scale_in(m),
                viewer.scale_factor,
                now.scale_factor,
            )
            &&& now.pending_resize_at is None ==> {
                &&& drawn.0 == rounded.0 || (rounded.0 == 0 && drawn.0 == 1)
                &&& drawn.1 == rounded.1 || (rounded.1 == 0 && drawn.1 == 1)
                &&& drawn.0 >= 1
                &&& drawn.1 >= 1
            }
        }),
{
    let shown = first_shown(studio, viewer);
    law_stale_page_has_a_pending_resize(studio, viewer, messages);
    law_drawing_changes_only_the_last_size(studio, shown, messages);
    law_size_is_the_last_reported(shown.viewer, messages);
    law_scale_and_window_are_the_last_reported(shown.viewer, messages);
}

} // verus!
