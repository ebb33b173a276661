//! The viewer's state, and how it changes.
//!
//! The viewer draws nothing itself. A message changes its state and yields what has to be done
//! about it: drawing the page anew, or bringing the native blur into line with the window.

use vstd::prelude::*;

use crate::color::Color;
use crate::color::ColorField;
use crate::color::OpacityField;
use crate::layout::OPACITY_MAX_BITS;
use crate::layout::OPACITY_MIN_BITS;
use crate::pixels::recolor;
use crate::pixels::recolored;
use crate::pixels::Ink;
use crate::scalar::lemma_magnitude_order;
use crate::scalar::Scalar;
use crate::scalar::ONE_BITS;
use crate::scalar::ZERO_BITS;
use crate::vibrancy::are_regions;
use crate::vibrancy::regions_for;
use crate::vibrancy::VibrancyRegion;

verus! {

/// How long the window has to be left alone after a resize before the page is drawn anew, in
/// nanoseconds.
pub const RESIZE_SETTLE: u128 = 120_000_000;

/// How often the viewer looks whether a resize has settled, in milliseconds.
pub const TICK_INTERVAL: u64 = 50;

/// A size in points.
#[derive(Clone, Copy, Debug, PartialEq, Eq, Structural)]
pub struct Size {
    pub width: Scalar,
    pub height: Scalar,
}

/// What happened to a window.
#[derive(Clone, Copy, Debug, PartialEq, Eq, Structural)]
pub enum WindowEvent {
    Opened(Size),
    Resized(Size),
    /// The window's number of pixels a point has changed.
    Rescaled(Scalar),
    Other,
}

/// What the viewer is told. `W` identifies a window.
#[derive(Clone, Debug)]
pub enum Message<W> {
    WindowEvent(W, WindowEvent),
    Tick,
    BackgroundOpacityChanged(Scalar),
    SidebarOpacityChanged(Scalar),
    TextColorChanged(Color),
    BackdropColorChanged(Color),
    /// The swatch of this colour was pressed.
    TogglePicker(ColorField),
    ClosePicker,
}

/// How the page has to be drawn anew.
#[derive(Clone, Copy, Debug, PartialEq, Eq, Structural)]
pub enum Redraw {
    /// Not at all.
    Keep,
    /// To fit the window, unless it was drawn for that size last.
    Fit,
    /// To fit a box of this many pixels, whatever it was drawn for last.
    Within(u32, u32),
}

/// What has to be done about a message: first the drawing, then the blur behind the window.
#[derive(Debug)]
pub struct Effects<W> {
    pub redraw: Redraw,
    pub vibrancy: Option<(W, Vec<VibrancyRegion>)>,
}

/// The viewer's state.
#[derive(Debug)]
pub struct PdfViewer<W> {
    pub title: String,
    /// The window, once it is open.
    pub window_id: Option<W>,
    /// The window's number of pixels a point.
    pub scale_factor: Scalar,
    pub logical_size: Size,
    /// The box, in pixels, that the page was last drawn for.
    pub last_rendered_physical: (u32, u32),
    /// When the window was last resized, unless the page was drawn since.
    pub pending_resize_at: Option<u128>,
    /// How opaque the backdrop behind the page is, from 0 to 1.
    pub background_opacity: Scalar,
    /// How opaque the backdrop behind the sidebar is, from 0 to 1.
    pub sidebar_opacity: Scalar,
    pub text_color: Color,
    pub backdrop_color: Color,
    /// The colour whose picker is open.
    pub open_picker: Option<ColorField>,
}

/// The picker that is open after the swatch of `field` was pressed.
pub open spec fn toggled(open: Option<ColorField>, field: ColorField) -> Option<ColorField> {
    if open == Some(field) {
        None
    } else {
        Some(field)
    }
}

/// A number of pixels, of which there is always one.
pub open spec fn at_least_one(pixels: u32) -> u32 {
    if pixels == 0 {
        1
    } else {
        pixels
    }
}

/// Whether the message says that the window's size in pixels may have changed and that the page
/// is to be drawn anew once that has settled.
pub open spec fn is_resize<W>(message: Message<W>) -> bool {
    message matches Message::WindowEvent(_, event) && (event is Resized || event is Rescaled)
}

/// The window whose blur a message brings into line, and the size that the window has then.
pub open spec fn synced_by<W>(message: Message<W>) -> Option<(W, Size)> {
    match message {
        Message::WindowEvent(id, WindowEvent::Opened(size)) => Some((id, size)),
        Message::WindowEvent(id, WindowEvent::Resized(size)) => Some((id, size)),
        _ => None,
    }
}

/// A size in pixels, rounded, of which each side has one pixel at least.
pub fn pixel_size(width: u32, height: u32) -> (size: (u32, u32))
    ensures
        size == (at_least_one(width), at_least_one(height)),
{
    (if width == 0 { 1 } else { width }, if height == 0 { 1 } else { height })
}

impl ColorField {
    /// The message that this colour has been changed.
    pub fn changed<W>(self, color: Color) -> (message: Message<W>)
        ensures
            message == self.change::<W>(color),
    {
        match self {
            ColorField::Text => Message::TextColorChanged(color),
            ColorField::Backdrop => Message::BackdropColorChanged(color),
        }
    }

    /// The message that this colour has been changed.
    pub open spec fn change<W>(self, color: Color) -> Message<W> {
        match self {
            ColorField::Text => Message::TextColorChanged(color),
            ColorField::Backdrop => Message::BackdropColorChanged(color),
        }
    }
}

impl OpacityField {
    /// The message that this opacity has been changed.
    pub fn changed<W>(self, opacity: Scalar) -> (message: Message<W>)
        ensures
            message == self.change::<W>(opacity),
    {
        match self {
            OpacityField::Background => Message::BackgroundOpacityChanged(opacity),
            OpacityField::Sidebar => Message::SidebarOpacityChanged(opacity),
        }
    }

    /// The message that this opacity has been changed.
    pub open spec fn change<W>(self, opacity: Scalar) -> Message<W> {
        match self {
            OpacityField::Background => Message::BackgroundOpacityChanged(opacity),
            OpacityField::Sidebar => Message::SidebarOpacityChanged(opacity),
        }
    }
}

impl<W> PdfViewer<W> {
    /// Whether a resize is pending that has settled by `now`.
    pub open spec fn has_settled(self, now: u128) -> bool {
        self.pending_resize_at matches Some(at) && now - at >= RESIZE_SETTLE
    }

    /// The state after a message that is handled at the time `now`.
    pub open spec fn updated(self, message: Message<W>, now: u128) -> PdfViewer<W> {
        match message {
            Message::WindowEvent(id, WindowEvent::Opened(size)) => PdfViewer {
                window_id: Some(id),
                logical_size: size,
                ..self
            },
            Message::WindowEvent(_, WindowEvent::Resized(size)) => PdfViewer {
                logical_size: size,
                pending_resize_at: Some(now),
                ..self
            },
            Message::WindowEvent(_, WindowEvent::Rescaled(factor)) => PdfViewer {
                scale_factor: factor,
                pending_resize_at: Some(now),
                ..self
            },
            Message::WindowEvent(_, WindowEvent::Other) => self,
            Message::Tick => PdfViewer {
                pending_resize_at: if self.has_settled(now) {
                    None
                } else {
                    self.pending_resize_at
                },
                ..self
            },
            Message::BackgroundOpacityChanged(opacity) => PdfViewer {
                background_opacity: opacity,
                ..self
            },
            Message::SidebarOpacityChanged(opacity) => PdfViewer {
                sidebar_opacity: opacity,
                ..self
            },
            Message::TextColorChanged(color) => PdfViewer { text_color: color, ..self },
            Message::BackdropColorChanged(color) => PdfViewer { backdrop_color: color, ..self },
            Message::TogglePicker(field) => PdfViewer {
                open_picker: toggled(self.open_picker, field),
                ..self
            },
            Message::ClosePicker => PdfViewer { open_picker: None, ..self },
        }
    }

    /// How the page has to be drawn anew after a message that is handled at the time `now`.
    pub open spec fn redraw_after(self, message: Message<W>, now: u128) -> Redraw {
        match message {
            Message::WindowEvent(_, WindowEvent::Opened(_)) => Redraw::Fit,
            Message::Tick => if self.has_settled(now) {
                Redraw::Fit
            } else {
                Redraw::Keep
            },
            Message::TextColorChanged(_) => Redraw::Within(
                self.last_rendered_physical.0,
                self.last_rendered_physical.1,
            ),
            _ => Redraw::Keep,
        }
    }

    /// The box, in pixels, that the page has to be drawn for in a window whose rounded size in
    /// pixels is `width` by `height`, unless it was drawn for that box last.
    pub open spec fn missing_render(self, width: u32, height: u32) -> Option<(u32, u32)> {
        let target = (at_least_one(width), at_least_one(height));
        if target == self.last_rendered_physical {
            None
        } else {
            Some(target)
        }
    }

    /// The box, in pixels, that the page has to be drawn for, if it has to be drawn at all, in a
    /// window whose rounded size in pixels is `width` by `height`.
    pub open spec fn target(self, redraw: Redraw, width: u32, height: u32) -> Option<(u32, u32)> {
        match redraw {
            Redraw::Keep => None,
            Redraw::Fit => self.missing_render(width, height),
            Redraw::Within(w, h) => Some((w, h)),
        }
    }

    /// The state after a row of messages, each with the time at which it is handled.
    pub open spec fn after(self, messages: Seq<(Message<W>, u128)>) -> PdfViewer<W>
        decreases messages.len(),
    {
        if messages.len() == 0 {
            self
        } else {
            self.after(messages.drop_last()).updated(messages.last().0, messages.last().1)
        }
    }

    /// A viewer with the given title, for a window of the given size in which nothing was drawn
    /// yet, and what has to be drawn first.
    pub fn boot(title: String, initial_size: Size) -> (booted: (PdfViewer<W>, Redraw))
        ensures
            ({
                let viewer = booted.0;
                &&& viewer.title@ == title@
                &&& viewer.window_id is None
                &&& viewer.scale_factor.bits == ONE_BITS
                &&& viewer.logical_size == initial_size
                &&& viewer.last_rendered_physical == (0u32, 0u32)
                &&& viewer.pending_resize_at is None
                &&& viewer.background_opacity.bits == ZERO_BITS
                &&& viewer.sidebar_opacity.bits == ZERO_BITS
                &&& viewer.text_color.r.bits == ZERO_BITS
                &&& viewer.text_color.g.bits == ZERO_BITS
                &&& viewer.text_color.b.bits == ZERO_BITS
                &&& viewer.text_color.a.bits == ONE_BITS
                &&& viewer.backdrop_color.r.bits == ONE_BITS
                &&& viewer.backdrop_color.g.bits == ONE_BITS
                &&& viewer.backdrop_color.b.bits == ONE_BITS
                &&& viewer.backdrop_color.a.bits == ONE_BITS
                &&& viewer.open_picker is None
                &&& booted.1 == Redraw::Fit
            }),
    {
        let viewer: PdfViewer<W> = PdfViewer {
            title,
            window_id: None,
            scale_factor: Scalar { bits: ONE_BITS },
            logical_size: initial_size,
            last_rendered_physical: (0, 0),
            pending_resize_at: None,
            background_opacity: Scalar { bits: ZERO_BITS },
            sidebar_opacity: Scalar { bits: ZERO_BITS },
            text_color: Color::black(),
            backdrop_color: Color::white(),
            open_picker: None,
        };
        (viewer, Redraw::Fit)
    }

    /// The window's title.
    pub fn title(&self) -> (title: String)
        ensures
            title@ == self.title@,
    {
        self.title.clone()
    }

    /// The box, in pixels, that the page has to be drawn for in a window whose rounded size in
    /// pixels is `width` by `height`. There is none if the page was drawn for that box last:
    /// drawing is expensive.
    pub fn render_full(&self, width: u32, height: u32) -> (target: Option<(u32, u32)>)
        ensures
            target == self.missing_render(width, height),
    {
        let (target_width, target_height) = pixel_size(width, height);
        if target_width == self.last_rendered_physical.0 && target_height
            == self.last_rendered_physical.1 {
            None
        } else {
            Some((target_width, target_height))
        }
    }

    /// The box, in pixels, that the page has to be drawn for, if it has to be drawn at all, in a
    /// window whose rounded size in pixels is `width` by `height`.
    pub fn draw_target(&self, redraw: Redraw, width: u32, height: u32) -> (target: Option<
        (u32, u32),
    >)
        ensures
            target == self.target(redraw, width, height),
    {
        match redraw {
            Redraw::Keep => None,
            Redraw::Fit => self.render_full(width, height),
            Redraw::Within(w, h) => Some((w, h)),
        }
    }

    /// Finishes a page that was drawn for a box of `width` by `height` pixels: its content gets
    /// the colour `ink`, and the viewer remembers the box.
    pub fn rasterize(&mut self, width: u32, height: u32, pixels: Vec<u8>, ink: Ink) -> (finished:
        Vec<u8>)
        ensures
            finished@ == recolored(pixels@, ink),
            *final(self) == (PdfViewer { last_rendered_physical: (width, height), ..*old(self) }),
    {
        let mut finished: Vec<u8> = pixels;
        recolor(&mut finished, ink);
        self.last_rendered_physical = (width, height);
        finished
    }

    /// The regions of the window that want a material of their own.
    pub fn vibrancy_regions(&self) -> (regions: Vec<VibrancyRegion>)
        ensures
            are_regions(regions@, self.logical_size.width),
    {
        regions_for(self.logical_size.width)
    }
}

impl<W: Copy> PdfViewer<W> {
    /// Handles a message at the time `now`, in nanoseconds of a clock that never goes back.
    pub fn update(&mut self, message: Message<W>, now: u128) -> (effects: Effects<W>)
        ensures
            *final(self) == old(self).updated(message, now),
            effects.redraw == old(self).redraw_after(message, now),
            match message {
                Message::WindowEvent(id, WindowEvent::Opened(size)) => {
                    &&& effects.vibrancy matches Some((window, regions))
                    &&& window == id
                    &&& are_regions(regions@, size.width)
                },
                Message::WindowEvent(id, WindowEvent::Resized(size)) => {
                    &&& effects.vibrancy matches Some((window, regions))
                    &&& window == id
                    &&& are_regions(regions@, size.width)
                },
                _ => effects.vibrancy is None,
            },
            match synced_by(message) {
                Some((id, size)) => {
                    &&& effects.vibrancy matches Some((window, regions))
                    &&& window == id
                    &&& are_regions(regions@, size.width)
                },
                None => effects.vibrancy is None,
            },
    {
        let mut redraw: Redraw = Redraw::Keep;
        let mut vibrancy: Option<(W, Vec<VibrancyRegion>)> = None;
        match message {
            Message::WindowEvent(id, event) => match event {
                WindowEvent::Opened(size) => {
                    self.window_id = Some(id);
                    self.logical_size = size;
                    redraw = Redraw::Fit;
                    vibrancy = Some((id, self.vibrancy_regions()));
                },
                WindowEvent::Resized(size) => {
                    self.logical_size = size;
                    self.pending_resize_at = Some(now);
                    vibrancy = Some((id, self.vibrancy_regions()));
                },
                WindowEvent::Rescaled(factor) => {
                    self.scale_factor = factor;
                    self.pending_resize_at = Some(now);
                },
                WindowEvent::Other => {},
            },
            Message::Tick => {
                if let Some(at) = self.pending_resize_at {
                    if now >= at && now - at >= RESIZE_SETTLE {
                        self.pending_resize_at = None;
                        redraw = Redraw::Fit;
                    }
                }
            },
            Message::BackgroundOpacityChanged(opacity) => {
                self.background_opacity = opacity;
            },
            Message::SidebarOpacityChanged(opacity) => {
                self.sidebar_opacity = opacity;
            },
            Message::TextColorChanged(color) => {
                self.text_color = color;
                let (width, height) = self.last_rendered_physical;
                redraw = Redraw::Within(width, height);
            },
            Message::BackdropColorChanged(color) => {
                self.backdrop_color = color;
            },
            Message::TogglePicker(field) => {
                let is_open: bool = match self.open_picker {
                    Some(open) => open == field,
                    None => false,
                };
                self.open_picker = if is_open { None } else { Some(field) };
            },
            Message::ClosePicker => {
                self.open_picker = None;
            },
        }
        Effects { redraw, vibrancy }
    }
}

/// Whether the messages are handled one after the other.
pub open spec fn is_in_order<W>(messages: Seq<(Message<W>, u128)>) -> bool {
    forall|i: int, j: int| 0 <= i <= j < messages.len() ==> messages[i].1 <= messages[j].1
}

/// Whether the message `i` reports a resize.
pub open spec fn is_resize_at<W>(messages: Seq<(Message<W>, u128)>, i: int) -> bool {
    0 <= i < messages.len() && is_resize(messages[i].0)
}

/// Where no message reports a resize, neither does the last one, nor any before it.
proof fn lemma_no_resize<W>(messages: Seq<(Message<W>, u128)>)
    requires
        messages.len() > 0,
        forall|i: int| !#[trigger] is_resize_at(messages, i),
    ensures
        !is_resize(messages.last().0),
        forall|i: int| !#[trigger] is_resize_at(messages.drop_last(), i),
{
    assert(!is_resize_at(messages, messages.len() - 1));
    assert forall|i: int| !#[trigger] is_resize_at(messages.drop_last(), i) by {
        if is_resize_at(messages.drop_last(), i) {
            assert(is_resize_at(messages, i));
        }
    }
}

/// The resize that is pending is the last one of all.
proof fn lemma_last_resize_is_pending<W>(viewer: PdfViewer<W>, messages: Seq<(Message<W>, u128)>)
    requires
        viewer.pending_resize_at is None,
        is_in_order(messages),
    ensures
        viewer.after(messages).pending_resize_at matches Some(at) ==> {
            &&& exists|i: int| #[trigger] is_resize_at(messages, i) && messages[i].1 == at
            &&& forall|i: int| #[trigger] is_resize_at(messages, i) ==> messages[i].1 <= at
        },
    decreases messages.len(),
{
    if messages.len() > 0 {
        let earlier = messages.drop_last();
        let n = messages.len() - 1;
        lemma_last_resize_is_pending(viewer, earlier);
        assert forall|i: int| #[trigger] is_resize_at(messages, i) && i < n implies is_resize_at(
            earlier,
            i,
        ) by {}
        if is_resize(messages.last().0) {
            assert(is_resize_at(messages, n));
        } else if viewer.after(messages).pending_resize_at is Some {
            let at = viewer.after(earlier).pending_resize_at->0;
            let i = choose|i: int| #[trigger] is_resize_at(earlier, i) && earlier[i].1 == at;
            assert(is_resize_at(messages, i) && messages[i].1 == at);
        }
    }
}

/// A tick has the page drawn only when the window was resized, and has been left alone for
/// `RESIZE_SETTLE` since each resize.
pub proof fn law_drawing_waits_for_the_resize_to_settle<W>(
    viewer: PdfViewer<W>,
    messages: Seq<(Message<W>, u128)>,
    now: u128,
)
    requires
        viewer.pending_resize_at is None,
        is_in_order(messages),
        viewer.after(messages).redraw_after(Message::Tick, now) != Redraw::Keep,
    ensures
        exists|i: int| #[trigger] is_resize_at(messages, i),
        forall|i: int| #[trigger]
            is_resize_at(messages, i) ==> now - messages[i].1 >= RESIZE_SETTLE,
{
    lemma_last_resize_is_pending(viewer, messages);
}

/// A resize is never forgotten: whatever else the viewer is told, the first tick that comes when
/// the resize has settled has the page drawn, and the resize is then no longer pending.
pub proof fn law_settled_resize_is_drawn<W>(
    viewer: PdfViewer<W>,
    at: u128,
    messages: Seq<(Message<W>, u128)>,
    now: u128,
)
    requires
        viewer.pending_resize_at == Some(at),
        forall|i: int| !#[trigger] is_resize_at(messages, i),
        forall|i: int|
            0 <= i < messages.len() && (#[trigger] messages[i]).0 is Tick ==> messages[i].1 - at
                < RESIZE_SETTLE,
        now - at >= RESIZE_SETTLE,
    ensures
        viewer.after(messages).pending_resize_at == Some(at),
        viewer.after(messages).redraw_after(Message::Tick, now) == Redraw::Fit,
        viewer.after(messages).updated(Message::Tick, now).pending_resize_at is None,
    decreases messages.len(),
{
    if messages.len() > 0 {
        let earlier = messages.drop_last();
        lemma_no_resize(messages);
        assert forall|i: int| 0 <= i < earlier.len() && (#[trigger] earlier[i]).0 is Tick implies
            earlier[i].1 - at < RESIZE_SETTLE by {
            assert(messages[i] == earlier[i]);
        }
        law_settled_resize_is_drawn(viewer, at, earlier, now);
        assert(messages[messages.len() - 1] == messages.last());
    }
}

/// Without a resize no tick has the page drawn.
pub proof fn law_ticks_alone_draw_nothing<W>(
    viewer: PdfViewer<W>,
    messages: Seq<(Message<W>, u128)>,
    now: u128,
)
    requires
        viewer.pending_resize_at is None,
        forall|i: int| !#[trigger] is_resize_at(messages, i),
    ensures
        viewer.after(messages).pending_resize_at is None,
        viewer.after(messages).redraw_after(Message::Tick, now) == Redraw::Keep,
    decreases messages.len(),
{
    if messages.len() > 0 {
        let earlier = messages.drop_last();
        lemma_no_resize(messages);
        law_ticks_alone_draw_nothing(viewer, earlier, now);
    }
}

/// No message changes the title, or what the page was last drawn for: only drawing does.
pub proof fn law_messages_draw_nothing_themselves<W>(
    viewer: PdfViewer<W>,
    messages: Seq<(Message<W>, u128)>,
)
    ensures
        viewer.after(messages).title == viewer.title,
        viewer.after(messages).last_rendered_physical == viewer.last_rendered_physical,
    decreases messages.len(),
{
    if messages.len() > 0 {
        law_messages_draw_nothing_themselves(viewer, messages.drop_last());
    }
}

/// A page that was drawn for a box is not drawn again for the same window, and is drawn for a
/// window of any other size. Where nothing was drawn yet, the page is always drawn.
pub proof fn law_page_is_drawn_once_for_a_size<W>(viewer: PdfViewer<W>, width: u32, height: u32)
    ensures
        viewer.missing_render(width, height) matches Some((w, h)) ==> {
            let drawn = PdfViewer { last_rendered_physical: (w, h), ..viewer };
            &&& w >= 1
            &&& h >= 1
            &&& drawn.missing_render(width, height) is None
            &&& forall|other_width: u32, other_height: u32|
                at_least_one(other_width) != w || at_least_one(other_height) != h
                    ==> #[trigger] drawn.missing_render(other_width, other_height) is Some
        },
        viewer.last_rendered_physical == (0u32, 0u32) ==> viewer.missing_render(
            width,
            height,
        ) is Some,
{
}

/// Pressing a swatch opens its picker in place of any other; pressing it again closes it. After
/// two presses the picker is as it was if no other was open.
pub proof fn law_pressing_a_swatch_twice<W>(
    viewer: PdfViewer<W>,
    field: ColorField,
    first: u128,
    second: u128,
)
    ensures
        ({
            let press = Message::<W>::TogglePicker(field);
            let once = viewer.updated(press, first);
            let twice = once.updated(press, second);
            &&& viewer.open_picker == Some(field) ==> once.open_picker is None && twice == viewer
            &&& viewer.open_picker != Some(field) ==> once.open_picker == Some(field)
                && twice.open_picker is None
            &&& viewer.open_picker is None ==> twice == viewer
        }),
{
}

/// Whether a number is one that a slider of opacities can give: from the lowest to the highest.
pub open spec fn is_opacity(value: Scalar) -> bool {
    &&& !value.is_nan()
    &&& !value.below(Scalar { bits: OPACITY_MIN_BITS })
    &&& !(Scalar { bits: OPACITY_MAX_BITS }).below(value)
}

/// Whether a message that changes an opacity changes it to one that a slider can give.
pub open spec fn keeps_opacity<W>(message: Message<W>) -> bool {
    match message {
        Message::BackgroundOpacityChanged(opacity) => is_opacity(opacity),
        Message::SidebarOpacityChanged(opacity) => is_opacity(opacity),
        _ => true,
    }
}

/// Opacities start at the lowest that the sliders give and stay within the sliders' range, as
/// long as the sliders report nothing else.
pub proof fn law_opacities_stay_in_range<W>(
    viewer: PdfViewer<W>,
    messages: Seq<(Message<W>, u128)>,
)
    requires
        viewer.background_opacity.bits == OPACITY_MIN_BITS || is_opacity(
            viewer.background_opacity,
        ),
        viewer.sidebar_opacity.bits == OPACITY_MIN_BITS || is_opacity(viewer.sidebar_opacity),
        forall|i: int| 0 <= i < messages.len() ==> keeps_opacity((#[trigger] messages[i]).0),
    ensures
        is_opacity(viewer.after(messages).background_opacity),
        is_opacity(viewer.after(messages).sidebar_opacity),
    decreases messages.len(),
{
    if messages.len() > 0 {
        let earlier = messages.drop_last();
        assert forall|i: int| 0 <= i < earlier.len() implies keeps_opacity(
            (#[trigger] earlier[i]).0,
        ) by {
            assert(messages[i] == earlier[i]);
        }
        law_opacities_stay_in_range(viewer, earlier);
        assert(keeps_opacity(messages[messages.len() - 1].0));
    } else {
        lemma_magnitude_order(OPACITY_MIN_BITS as nat, OPACITY_MAX_BITS as nat);
    }
}

/// The size that a message says the window has.
pub open spec fn size_in<W>(message: Message<W>) -> Option<Size> {
    match message {
        Message::WindowEvent(_, WindowEvent::Opened(size)) => Some(size),
        Message::WindowEvent(_, WindowEvent::Resized(size)) => Some(size),
        _ => None,
    }
}

/// The number of pixels a point that a message says the window has.
pub open spec fn scale_in<W>(message: Message<W>) -> Option<Scalar> {
    match message {
        Message::WindowEvent(_, WindowEvent::Rescaled(factor)) => Some(factor),
        _ => None,
    }
}

/// The window that a message says has been opened.
pub open spec fn window_in<W>(message: Message<W>) -> Option<Option<W>> {
    match message {
        Message::WindowEvent(id, WindowEvent::Opened(_)) => Some(Some(id)),
        _ => None,
    }
}

/// The opacity to which a message changes that of `field`.
pub open spec fn opacity_in<W>(message: Message<W>, field: OpacityField) -> Option<Scalar> {
    match (message, field) {
        (Message::BackgroundOpacityChanged(opacity), OpacityField::Background) => Some(opacity),
        (Message::SidebarOpacityChanged(opacity), OpacityField::Sidebar) => Some(opacity),
        _ => None,
    }
}

/// The colour to which a message changes that of `field`.
pub open spec fn color_in<W>(message: Message<W>, field: ColorField) -> Option<Color> {
    match (message, field) {
        (Message::TextColorChanged(color), ColorField::Text) => Some(color),
        (Message::BackdropColorChanged(color), ColorField::Backdrop) => Some(color),
        _ => None,
    }
}

/// Whether `held` is what the last message said that said anything, or `first` where none did.
pub open spec fn is_last_said<W, T>(
    messages: Seq<(Message<W>, u128)>,
    said: spec_fn(Message<W>) -> Option<T>,
    first: T,
    held: T,
) -> bool {
    &&& forall|i: int|
        #![trigger messages[i]]
        0 <= i < messages.len() && said(messages[i].0) is Some && (forall|j: int|
            #![trigger messages[j]]
            i < j < messages.len() ==> said(messages[j].0) is None) ==> held == said(
            messages[i].0,
        )->0
    &&& (forall|i: int|
        #![trigger messages[i]]
        0 <= i < messages.len() ==> said(messages[i].0) is None) ==> held == first
}

proof fn lemma_last_said<W, T>(
    viewer: PdfViewer<W>,
    messages: Seq<(Message<W>, u128)>,
    said: spec_fn(Message<W>) -> Option<T>,
    held: spec_fn(PdfViewer<W>) -> T,
)
    requires
        forall|v: PdfViewer<W>, m: Message<W>, now: u128|
            held(#[trigger] v.updated(m, now)) == match said(m) {
                Some(value) => value,
                None => held(v),
            },
    ensures
        is_last_said(messages, said, held(viewer), held(viewer.after(messages))),
    decreases messages.len(),
{
    if messages.len() > 0 {
        let earlier = messages.drop_last();
        let n = messages.len() - 1;
        lemma_last_said(viewer, earlier, said, held);
        assert(messages[n] == messages.last());
        let now_held = held(viewer.after(messages));
        assert forall|i: int|
            #![trigger messages[i]]
            0 <= i < messages.len() && said(messages[i].0) is Some && (forall|j: int|
                #![trigger messages[j]]
                i < j < messages.len() ==> said(messages[j].0) is None) implies now_held == said(
            messages[i].0,
        )->0 by {
            if i < n {
                assert(said(messages[n].0) is None);
                assert(earlier[i] == messages[i]);
                assert forall|j: int|
                    #![trigger earlier[j]]
                    i < j < earlier.len() implies said(earlier[j].0) is None by {
                    assert(earlier[j] == messages[j]);
                }
            }
        }
        if forall|i: int|
            #![trigger messages[i]]
            0 <= i < messages.len() ==> said(messages[i].0) is None {
            assert(said(messages[n].0) is None);
            assert forall|j: int|
                #![trigger earlier[j]]
                0 <= j < earlier.len() implies said(earlier[j].0) is None by {
                assert(earlier[j] == messages[j]);
            }
        }
    }
}

/// After any row of messages the viewer goes by the size, width and height, that the last message
/// reported that reported one, opening or resizing, whatever was pending; by the initial size
/// where none did.
pub proof fn law_size_is_the_last_reported<W>(
    viewer: PdfViewer<W>,
    messages: Seq<(Message<W>, u128)>,
)
    ensures
        is_last_said(
            messages,
            |m: Message<W>| size_in(m),
            viewer.logical_size,
            viewer.after(messages).logical_size,
        ),
{
    lemma_last_said(
        viewer,
        messages,
        |m: Message<W>| size_in(m),
        |v: PdfViewer<W>| v.logical_size,
    );
}

/// After any row of messages the viewer goes by the number of pixels a point that was reported
/// last, and by the window that was opened last.
pub proof fn law_scale_and_window_are_the_last_reported<W>(
    viewer: PdfViewer<W>,
    messages: Seq<(Message<W>, u128)>,
)
    ensures
        is_last_said(
            messages,
            |m: Message<W>| scale_in(m),
            viewer.scale_factor,
            viewer.after(messages).scale_factor,
        ),
        is_last_said(
            messages,
            |m: Message<W>| window_in(m),
            viewer.window_id,
            viewer.after(messages).window_id,
        ),
{
    lemma_last_said(
        viewer,
        messages,
        |m: Message<W>| scale_in(m),
        |v: PdfViewer<W>| v.scale_factor,
    );
    lemma_last_said(
        viewer,
        messages,
        |m: Message<W>| window_in(m),
        |v: PdfViewer<W>| v.window_id,
    );
}

/// After any row of messages each opacity and each colour is the one that it was changed to last;
/// changing one changes no other.
pub proof fn law_settings_are_the_last_chosen<W>(
    viewer: PdfViewer<W>,
    messages: Seq<(Message<W>, u128)>,
)
    ensures
        is_last_said(
            messages,
            |m: Message<W>| opacity_in(m, OpacityField::Background),
            viewer.background_opacity,
            viewer.after(messages).background_opacity,
        ),
        is_last_said(
            messages,
            |m: Message<W>| opacity_in(m, OpacityField::Sidebar),
            viewer.sidebar_opacity,
            viewer.after(messages).sidebar_opacity,
        ),
        is_last_said(
            messages,
            |m: Message<W>| color_in(m, ColorField::Text),
            viewer.text_color,
            viewer.after(messages).text_color,
        ),
        is_last_said(
            messages,
            |m: Message<W>| color_in(m, ColorField::Backdrop),
            viewer.backdrop_color,
            viewer.after(messages).backdrop_color,
        ),
{
    lemma_last_said(
        viewer,
        messages,
        |m: Message<W>| opacity_in(m, OpacityField::Background),
        |v: PdfViewer<W>| v.background_opacity,
    );
    lemma_last_said(
        viewer,
        messages,
        |m: Message<W>| opacity_in(m, OpacityField::Sidebar),
        |v: PdfViewer<W>| v.sidebar_opacity,
    );
    lemma_last_said(
        viewer,
        messages,
        |m: Message<W>| color_in(m, ColorField::Text),
        |v: PdfViewer<W>| v.text_color,
    );
    lemma_last_said(
        viewer,
        messages,
        |m: Message<W>| color_in(m, ColorField::Backdrop),
        |v: PdfViewer<W>| v.backdrop_color,
    );
}

/// What a field's control reports is a change of that field to just that value, and of no other
/// field.
pub proof fn law_controls_report_their_own_field<W>(
    opacity_field: OpacityField,
    color_field: ColorField,
    opacity: Scalar,
    color: Color,
)
    ensures
        forall|f: OpacityField| #[trigger]
            opacity_in(opacity_field.change::<W>(opacity), f) == if f == opacity_field {
                Some(opacity)
            } else {
                None
            },
        forall|f: ColorField| #[trigger]
            color_in(color_field.change::<W>(color), f) == if f == color_field {
                Some(color)
            } else {
                None
            },
        forall|f: ColorField| #[trigger]
            color_in(opacity_field.change::<W>(opacity), f) is None,
        forall|f: OpacityField| #[trigger]
            opacity_in(color_field.change::<W>(color), f) is None,
{
}

/// Only pressing a swatch and closing move the picker; everything else, picking a colour
/// included, leaves it as it is.
pub proof fn law_picker_is_moved_by_presses_alone<W>(
    viewer: PdfViewer<W>,
    message: Message<W>,
    now: u128,
)
    ensures
        message is ClosePicker ==> viewer.updated(message, now).open_picker is None,
        message matches Message::TogglePicker(field) ==> (viewer.updated(message, now).open_picker
            == Some(field) <==> viewer.open_picker != Some(field)) && (viewer.open_picker == Some(
            field,
        ) ==> viewer.updated(message, now).open_picker is None),
        !(message is ClosePicker) && !(message is TogglePicker) ==> viewer.updated(
            message,
            now,
        ).open_picker == viewer.open_picker,
{
}

/// A resize or a change of scale is pending from the time it is handled; a tick takes it away when
/// 120 ms have passed since; and no other message touches it.
pub proof fn law_resize_is_pending_until_it_settles<W>(
    viewer: PdfViewer<W>,
    message: Message<W>,
    now: u128,
)
    ensures
        message matches Message::WindowEvent(_, event) ==> {
            &&& event is Resized || event is Rescaled ==> viewer.updated(
                message,
                now,
            ).pending_resize_at == Some(now)
            &&& event is Opened || event is Other ==> viewer.updated(message, now).pending_resize_at
                == viewer.pending_resize_at
        },
        message is Tick ==> viewer.updated(message, now).pending_resize_at
            == match viewer.pending_resize_at {
            Some(at) => if now >= at + 120_000_000 {
                None
            } else {
                Some(at)
            },
            None => None,
        },
        !(message is WindowEvent) && !(message is Tick) ==> viewer.updated(
            message,
            now,
        ).pending_resize_at == viewer.pending_resize_at,
{
}

/// The page is drawn to fit when the window opens and when a tick finds a resize settled; it is
/// drawn in the same box when the text colour changes; and nothing else has it drawn, since
/// drawing is expensive.
pub proof fn law_what_has_the_page_drawn<W>(viewer: PdfViewer<W>, message: Message<W>, now: u128)
    ensures
        viewer.redraw_after(message, now) == Redraw::Fit <==> (message matches Message::WindowEvent(
            _,
            event,
        ) && event is Opened) || (message is Tick && (viewer.pending_resize_at matches Some(at)
            && now >= at + 120_000_000)),
        message is TextColorChanged ==> viewer.redraw_after(message, now) == Redraw::Within(
            viewer.last_rendered_physical.0,
            viewer.last_rendered_physical.1,
        ),
        viewer.redraw_after(message, now) is Within ==> message is TextColorChanged,
{
}

/// A window with pixels on both sides has the page drawn for just that many, unless it was drawn
/// for them last; a side without pixels counts as one. What has to be drawn in a box is drawn in
/// that box.
pub proof fn law_page_is_drawn_for_the_windows_pixels<W>(
    viewer: PdfViewer<W>,
    width: u32,
    height: u32,
)
    ensures
        width > 0 && height > 0 && viewer.last_rendered_physical != (width, height)
            ==> viewer.missing_render(width, height) == Some((width, height)),
        width > 0 && height > 0 && viewer.last_rendered_physical == (width, height)
            ==> viewer.missing_render(width, height) is None,
        viewer.missing_render(0, height) == viewer.missing_render(1, height),
        viewer.missing_render(width, 0) == viewer.missing_render(width, 1),
        viewer.target(Redraw::Keep, width, height) is None,
        viewer.target(Redraw::Fit, width, height) == viewer.missing_render(width, height),
        forall|w: u32, h: u32| #[trigger]
            viewer.target(Redraw::Within(w, h), width, height) == Some((w, h)),
{
}

/// A size in pixels keeps every side that has any, and gives one to a side without.
pub proof fn law_sides_have_a_pixel(pixels: u32)
    ensures
        at_least_one(pixels) >= 1,
        pixels >= 1 ==> at_least_one(pixels) == pixels,
        at_least_one(0) == 1,
{
}

/// Opening a window and resizing it bring the blur of just that window into line with its new
/// width, and nothing else does.
pub proof fn law_opening_and_resizing_sync_the_blur<W>(message: Message<W>, id: W, size: Size)
    ensures
        synced_by(message) == Some((id, size)) <==> message == Message::WindowEvent(
            id,
            WindowEvent::Opened(size),
        ) || message == Message::WindowEvent(id, WindowEvent::Resized(size)),
        size_in(message) is None ==> synced_by(message) is None,
{
}

/// The viewer looks twenty times a second, and at least twice before a resize can have settled.
pub proof fn law_ticks_are_finer_than_settling()
    ensures
        20 * TICK_INTERVAL == 1000,
        2 * TICK_INTERVAL * 1_000_000 <= RESIZE_SETTLE,
        RESIZE_SETTLE == 120 * 1_000_000,
{
}

} // verus!
