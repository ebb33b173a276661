//! What the viewer shows: a description of the window, for whoever draws it.

use vstd::prelude::*;

use crate::color::Color;
use crate::color::ColorField;
use crate::color::OpacityField;
use crate::layout::BACKDROP_SWATCH_TOP;
use crate::layout::LABEL_HEIGHT;
use crate::layout::OPACITY_MAX_BITS;
use crate::layout::OPACITY_MIN_BITS;
use crate::layout::OPACITY_STEP_BITS;
use crate::layout::PICKER_PADDING;
use crate::layout::PICKER_SPACING;
use crate::layout::PICKER_SQUARE_HEIGHT;
use crate::layout::PICKER_STRIP_HEIGHT;
use crate::layout::PICKER_WIDTH;
use crate::layout::POPUP_SIDEBAR_OVERLAP;
use crate::layout::ROW_SPACING;
use crate::layout::SIDEBAR_PADDING;
use crate::layout::SIDEBAR_WIDTH;
use crate::layout::SLIDER_HEIGHT;
use crate::layout::SWATCH_LABEL_SPACING;
use crate::layout::SWATCH_PATCH_HEIGHT;
use crate::layout::SWATCH_PATCH_WIDTH;
use crate::layout::SWATCH_ROW_HEIGHT;
use crate::layout::SWATCH_SPACING;
use crate::layout::TEXT_SWATCH_TOP;
use crate::scalar::Scalar;
use crate::vibrancy::are_regions;
use crate::vibrancy::law_sidebar_edge_is_the_sidebar_width;
use crate::vibrancy::point_units;
use crate::vibrancy::VibrancyRegion;
use crate::viewer::Message;
use crate::viewer::PdfViewer;

verus! {

/// A solid colour behind something, faded by an opacity.
#[derive(Clone, Copy, Debug, PartialEq, Eq, Structural)]
pub struct Backdrop {
    pub color: Color,
    pub opacity: Scalar,
}

/// How something in the window answers to the mouse above it. What answers in either way keeps the
/// mouse from what lies below.
#[derive(Clone, Copy, Debug, PartialEq, Eq, Structural)]
pub enum Interaction {
    /// It shows no sign.
    Idle,
    /// It can be pressed.
    Pointer,
}

/// A label with a patch of colour beside it. Pressing it toggles the colour's picker.
#[derive(Clone, Copy, Debug)]
pub struct Swatch {
    pub label: &'static str,
    pub color: Color,
    pub field: ColorField,
    /// The height of the row.
    pub height: u32,
    /// The space between the label and the patch.
    pub spacing: u32,
    pub patch_width: u32,
    pub patch_height: u32,
    /// How all of the row answers to the mouse.
    pub interaction: Interaction,
}

/// A row of the sidebar.
#[derive(Debug)]
pub enum SidebarRow {
    Label { text: &'static str, height: u32 },
    /// A slider from `min` to `max` that moves by `step`.
    Slider {
        field: OpacityField,
        value: Scalar,
        min: Scalar,
        max: Scalar,
        step: Scalar,
        height: u32,
    },
    /// Swatches one below the other.
    Swatches { swatches: Vec<Swatch>, spacing: u32 },
}

/// The sidebar: rows one below the other.
#[derive(Debug)]
pub struct Sidebar {
    pub rows: Vec<SidebarRow>,
    pub width: u32,
    pub padding: u32,
    pub spacing: u32,
    pub backdrop: Backdrop,
}

/// Which colours a part of a picker offers.
#[derive(Clone, Copy, Debug, PartialEq, Eq, Structural)]
pub enum Spectrum {
    SaturationValue,
    HueHorizontal,
}

/// A part of a colour picker.
#[derive(Clone, Copy, Debug, PartialEq, Eq, Structural)]
pub struct PickerPart {
    pub spectrum: Spectrum,
    pub width: u32,
    pub height: u32,
}

/// A card with a colour picker: a square above a strip, both of which edit the same colour.
#[derive(Clone, Copy, Debug, PartialEq, Eq, Structural)]
pub struct PickerCard {
    pub color: Color,
    pub field: ColorField,
    pub square: PickerPart,
    pub strip: PickerPart,
    pub spacing: u32,
    pub padding: u32,
    /// How all of the card answers to the mouse, its parts and what is between them.
    pub interaction: Interaction,
}

/// A picker card, `left` points from the window's left edge and `top` points from its top.
#[derive(Clone, Copy, Debug, PartialEq, Eq, Structural)]
pub struct Popup {
    pub card: PickerCard,
    pub left: u32,
    pub top: u32,
}

/// One of the layers that lie upon each other in the window.
#[derive(Clone, Copy, Debug, PartialEq, Eq, Structural)]
pub enum Layer {
    /// All of the window. Pressing it where nothing above reacts closes the picker.
    Closer,
    /// The sidebar, and the page beside it.
    Content,
    Popup(Popup),
}

/// The window.
#[derive(Debug)]
pub struct Scene {
    /// Behind the page and around it.
    pub page: Backdrop,
    pub sidebar: Sidebar,
    /// The lowest layer first.
    pub layers: Vec<Layer>,
}

impl Swatch {
    /// Whether this is the swatch of a colour.
    pub open spec fn shows(self, label: Seq<char>, color: Color, field: ColorField) -> bool {
        &&& self.label@ == label
        &&& self.color == color
        &&& self.field == field
        &&& self.height == SWATCH_ROW_HEIGHT
        &&& self.spacing == SWATCH_LABEL_SPACING
        &&& self.patch_width == SWATCH_PATCH_WIDTH
        &&& self.patch_height == SWATCH_PATCH_HEIGHT
        &&& self.interaction == Interaction::Pointer
    }

    /// The message that the swatch was pressed.
    pub fn pressed<W>(&self) -> (message: Message<W>)
        ensures
            message == Message::<W>::TogglePicker(self.field),
    {
        Message::TogglePicker(self.field)
    }
}

impl Layer {
    /// The message that the layer itself was pressed, where it has one. What lies in the content
    /// and in the popup sends messages of its own.
    pub fn pressed<W>(&self) -> (message: Option<Message<W>>)
        ensures
            message == match *self {
                Layer::Closer => Some(Message::<W>::ClosePicker),
                Layer::Content => None,
                Layer::Popup(_) => None,
            },
    {
        match self {
            Layer::Closer => Some(Message::ClosePicker),
            Layer::Content => None,
            Layer::Popup(_) => None,
        }
    }

    /// How the layer answers to the mouse at some place, given whether the popup's card is there
    /// and how what the content has there answers.
    pub open spec fn claim(self, on_card: bool, content: Option<Interaction>) -> Option<
        Interaction,
    > {
        match self {
            Layer::Closer => None,
            Layer::Content => content,
            Layer::Popup(popup) => if on_card {
                Some(popup.card.interaction)
            } else {
                None
            },
        }
    }
}

impl SidebarRow {
    /// Whether this is a label that reads `text`.
    pub open spec fn is_label(self, label: Seq<char>) -> bool {
        self matches SidebarRow::Label { text, height } && text@ == label && height == LABEL_HEIGHT
    }

    /// The height of the row.
    pub open spec fn height(self) -> int {
        match self {
            SidebarRow::Label { text, height } => height as int,
            SidebarRow::Slider { field, value, min, max, step, height } => height as int,
            SidebarRow::Swatches { swatches, spacing } => if swatches@.len() == 0 {
                0
            } else {
                swatch_offset(swatches@, spacing as int, swatches@.len() as int) - spacing
            },
        }
    }
}

/// How far below the first swatch the swatch `index` is.
pub open spec fn swatch_offset(swatches: Seq<Swatch>, spacing: int, index: int) -> int
    decreases index,
{
    if index <= 0 {
        0
    } else {
        swatch_offset(swatches, spacing, index - 1) + swatches[index - 1].height + spacing
    }
}

impl Sidebar {
    /// How far below the sidebar's top the row `index` is.
    pub open spec fn row_top(self, index: int) -> int
        decreases index,
    {
        if index <= 0 {
            self.padding as int
        } else {
            self.row_top(index - 1) + self.rows@[index - 1].height() + self.spacing
        }
    }

    /// Whether the swatch of `field` is in the sidebar, `top` points below its top, and shows
    /// `color`.
    pub open spec fn has_swatch_at(self, field: ColorField, color: Color, top: int) -> bool {
        exists|row: int, index: int| #[trigger] self.is_swatch_at(row, index, field, color, top)
    }

    /// Whether the swatch `index` of the row `row` is that of `field`, `top` points below the
    /// sidebar's top, and shows `color`.
    pub open spec fn is_swatch_at(
        self,
        row: int,
        index: int,
        field: ColorField,
        color: Color,
        top: int,
    ) -> bool {
        &&& 0 <= row < self.rows@.len()
        &&& self.rows@[row] matches SidebarRow::Swatches { swatches, spacing }
        &&& 0 <= index < swatches@.len()
        &&& swatches@[index].field == field
        &&& swatches@[index].color == color
        &&& top == self.row_top(row) + swatch_offset(swatches@, spacing as int, index)
    }

    /// Whether this is the sidebar of a viewer.
    pub open spec fn is_of<W>(self, viewer: PdfViewer<W>) -> bool {
        &&& self.width == SIDEBAR_WIDTH
        &&& self.padding == SIDEBAR_PADDING
        &&& self.spacing == ROW_SPACING
        &&& self.backdrop.color == viewer.backdrop_color
        &&& self.backdrop.opacity == viewer.sidebar_opacity
        &&& self.rows@.len() == 5
        &&& self.rows@[0].is_label("Background opacity"@)
        &&& self.rows@[1] == slider_of(OpacityField::Background, viewer.background_opacity)
        &&& self.rows@[2].is_label("Sidebar opacity"@)
        &&& self.rows@[3] == slider_of(OpacityField::Sidebar, viewer.sidebar_opacity)
        &&& self.rows@[4] matches SidebarRow::Swatches { swatches, spacing }
        &&& spacing == SWATCH_SPACING
        &&& swatches@.len() == 2
        &&& swatches@[0].shows("Text color"@, viewer.text_color, ColorField::Text)
        &&& swatches@[1].shows("Backdrop color"@, viewer.backdrop_color, ColorField::Backdrop)
    }
}

/// The slider of an opacity, which ranges from 0 to 1.
pub open spec fn slider_of(field: OpacityField, value: Scalar) -> SidebarRow {
    SidebarRow::Slider {
        field,
        value,
        min: Scalar { bits: OPACITY_MIN_BITS },
        max: Scalar { bits: OPACITY_MAX_BITS },
        step: Scalar { bits: OPACITY_STEP_BITS },
        height: SLIDER_HEIGHT,
    }
}

/// A colour's picker card.
pub open spec fn card_of(color: Color, field: ColorField) -> PickerCard {
    PickerCard {
        color,
        field,
        square: PickerPart {
            spectrum: Spectrum::SaturationValue,
            width: PICKER_WIDTH,
            height: PICKER_SQUARE_HEIGHT,
        },
        strip: PickerPart {
            spectrum: Spectrum::HueHorizontal,
            width: PICKER_WIDTH,
            height: PICKER_STRIP_HEIGHT,
        },
        spacing: PICKER_SPACING,
        padding: PICKER_PADDING,
        interaction: Interaction::Idle,
    }
}

/// The popup of a viewer whose picker is open for `field`.
pub open spec fn popup_of<W>(viewer: PdfViewer<W>, field: ColorField) -> Popup {
    Popup {
        card: match field {
            ColorField::Text => card_of(viewer.text_color, field),
            ColorField::Backdrop => card_of(viewer.backdrop_color, field),
        },
        left: (SIDEBAR_WIDTH - POPUP_SIDEBAR_OVERLAP) as u32,
        top: match field {
            ColorField::Text => TEXT_SWATCH_TOP,
            ColorField::Backdrop => BACKDROP_SWATCH_TOP,
        },
    }
}

impl Scene {
    /// Whether this is what a viewer shows. The closer lies below the content, and the popup
    /// above it, so that the popup and the sidebar get their presses first; both are there only
    /// while a picker is open.
    pub open spec fn is_of<W>(self, viewer: PdfViewer<W>) -> bool {
        &&& self.page.color == viewer.backdrop_color
        &&& self.page.opacity == viewer.background_opacity
        &&& self.sidebar.is_of(viewer)
        &&& self.layers@ == match viewer.open_picker {
            None => seq![Layer::Content],
            Some(field) => seq![
                Layer::Closer,
                Layer::Content,
                Layer::Popup(popup_of(viewer, field)),
            ],
        }
    }
}

/// The slider of an opacity.
pub fn opacity_slider(field: OpacityField, value: Scalar) -> (row: SidebarRow)
    ensures
        row == slider_of(field, value),
{
    SidebarRow::Slider {
        field,
        value,
        min: Scalar { bits: OPACITY_MIN_BITS },
        max: Scalar { bits: OPACITY_MAX_BITS },
        step: Scalar { bits: OPACITY_STEP_BITS },
        height: SLIDER_HEIGHT,
    }
}

/// The swatch of a colour.
pub fn color_swatch(label: &'static str, color: Color, field: ColorField) -> (swatch: Swatch)
    ensures
        swatch.shows(label@, color, field),
{
    Swatch {
        label,
        color,
        field,
        height: SWATCH_ROW_HEIGHT,
        spacing: SWATCH_LABEL_SPACING,
        patch_width: SWATCH_PATCH_WIDTH,
        patch_height: SWATCH_PATCH_HEIGHT,
        interaction: Interaction::Pointer,
    }
}

/// A colour's picker card.
pub fn color_picker_popup(color: Color, field: ColorField) -> (card: PickerCard)
    ensures
        card == card_of(color, field),
{
    PickerCard {
        color,
        field,
        square: PickerPart {
            spectrum: Spectrum::SaturationValue,
            width: PICKER_WIDTH,
            height: PICKER_SQUARE_HEIGHT,
        },
        strip: PickerPart {
            spectrum: Spectrum::HueHorizontal,
            width: PICKER_WIDTH,
            height: PICKER_STRIP_HEIGHT,
        },
        spacing: PICKER_SPACING,
        padding: PICKER_PADDING,
        interaction: Interaction::Idle,
    }
}

impl<W> PdfViewer<W> {
    /// The sidebar.
    fn sidebar(&self) -> (sidebar: Sidebar)
        ensures
            sidebar.is_of(*self),
    {
        let mut swatches: Vec<Swatch> = Vec::new();
        swatches.push(color_swatch("Text color", self.text_color, ColorField::Text));
        swatches.push(color_swatch("Backdrop color", self.backdrop_color, ColorField::Backdrop));
        let mut rows: Vec<SidebarRow> = Vec::new();
        rows.push(SidebarRow::Label { text: "Background opacity", height: LABEL_HEIGHT });
        rows.push(opacity_slider(OpacityField::Background, self.background_opacity));
        rows.push(SidebarRow::Label { text: "Sidebar opacity", height: LABEL_HEIGHT });
        rows.push(opacity_slider(OpacityField::Sidebar, self.sidebar_opacity));
        rows.push(SidebarRow::Swatches { swatches, spacing: SWATCH_SPACING });
        Sidebar {
            rows,
            width: SIDEBAR_WIDTH,
            padding: SIDEBAR_PADDING,
            spacing: ROW_SPACING,
            backdrop: Backdrop { color: self.backdrop_color, opacity: self.sidebar_opacity },
        }
    }

    /// What the viewer shows.
    pub fn view(&self) -> (scene: Scene)
        ensures
            scene.is_of(*self),
    {
        let mut layers: Vec<Layer> = Vec::new();
        match self.open_picker {
            None => {
                layers.push(Layer::Content);
                assert(layers@ =~= seq![Layer::Content]);
            },
            Some(field) => {
                let (color, top): (Color, u32) = match field {
                    ColorField::Text => (self.text_color, TEXT_SWATCH_TOP),
                    ColorField::Backdrop => (self.backdrop_color, BACKDROP_SWATCH_TOP),
                };
                layers.push(Layer::Closer);
                layers.push(Layer::Content);
                layers.push(
                    Layer::Popup(
                        Popup {
                            card: color_picker_popup(color, field),
                            left: SIDEBAR_WIDTH - POPUP_SIDEBAR_OVERLAP,
                            top,
                        },
                    ),
                );
                assert(layers@ =~= seq![
                    Layer::Closer,
                    Layer::Content,
                    Layer::Popup(popup_of(*self, field)),
                ]);
            },
        }
        Scene {
            page: Backdrop { color: self.backdrop_color, opacity: self.background_opacity },
            sidebar: self.sidebar(),
            layers,
        }
    }
}

/// A popup is exactly level with the swatch that opened it, wherever the rows above put that
/// swatch, and shows the colour that the swatch shows.
pub proof fn law_popup_lines_up_with_its_swatch<W>(
    scene: Scene,
    viewer: PdfViewer<W>,
    field: ColorField,
)
    requires
        scene.is_of(viewer),
        viewer.open_picker == Some(field),
    ensures
        scene.layers@.last() == Layer::Popup(popup_of(viewer, field)),
        scene.sidebar.has_swatch_at(
            field,
            popup_of(viewer, field).card.color,
            popup_of(viewer, field).top as int,
        ),
{
    let sidebar = scene.sidebar;
    reveal_with_fuel(Sidebar::row_top, 6);
    reveal_with_fuel(swatch_offset, 2);
    assert(sidebar.row_top(4) == TEXT_SWATCH_TOP);
    let popup = popup_of(viewer, field);
    match field {
        ColorField::Text => {
            assert(sidebar.is_swatch_at(4, 0, field, popup.card.color, popup.top as int));
        },
        ColorField::Backdrop => {
            assert(sidebar.is_swatch_at(4, 1, field, popup.card.color, popup.top as int));
        },
    }
}

/// A popup starts within the sidebar and ends beyond it. Both parts of its picker are equally wide.
pub proof fn law_popup_overlaps_the_sidebar<W>(viewer: PdfViewer<W>, field: ColorField)
    ensures
        ({
            let popup = popup_of(viewer, field);
            &&& popup.left < SIDEBAR_WIDTH
            &&& popup.left + popup.card.square.width + 2 * popup.card.padding > SIDEBAR_WIDTH
            &&& popup.left == SIDEBAR_WIDTH - POPUP_SIDEBAR_OVERLAP
            &&& popup.card.square.width == popup.card.strip.width
        }),
{
}

/// The picker that is open edits the colour that it shows: when it reports a colour, the picker
/// stays open on the same colour's field and shows the colour reported.
pub proof fn law_picker_edits_what_it_shows<W>(
    viewer: PdfViewer<W>,
    field: ColorField,
    color: Color,
    now: u128,
)
    requires
        viewer.open_picker == Some(field),
    ensures
        ({
            let after = viewer.updated(field.change::<W>(color), now);
            &&& after.open_picker == Some(field)
            &&& popup_of(after, field).card.color == color
            &&& popup_of(after, field).top == popup_of(viewer, field).top
        }),
{
}

/// A press gets to the closer exactly where neither the popup's card nor anything in the content
/// answers to the mouse. So a press on the card, or on a swatch, never closes the picker by way
/// of the closer, and a press outside closes it.
pub proof fn law_closer_gets_only_unclaimed_presses<W>(
    scene: Scene,
    viewer: PdfViewer<W>,
    on_card: bool,
    content: Option<Interaction>,
)
    requires
        scene.is_of(viewer),
        viewer.open_picker is Some,
    ensures
        scene.layers@[0] == Layer::Closer,
        (forall|i: int|
            0 < i < scene.layers@.len() ==> (#[trigger] scene.layers@[i]).claim(
                on_card,
                content,
            ) is None) <==> !on_card && content is None,
{
    assert(scene.layers@[1].claim(on_card, content) == content);
    assert(scene.layers@[2].claim(on_card, content) is Some <==> on_card);
}

/// The native strip behind the sidebar is exactly as wide as the sidebar that is drawn, in every
/// window that is not narrower than the sidebar.
pub proof fn law_strip_is_as_wide_as_the_sidebar<W>(
    scene: Scene,
    viewer: PdfViewer<W>,
    regions: Seq<VibrancyRegion>,
    height: int,
)
    requires
        scene.is_of(viewer),
        are_regions(regions, viewer.logical_size.width),
        viewer.logical_size.width.is_finite(),
        viewer.logical_size.width.units() >= SIDEBAR_WIDTH * point_units(),
    ensures
        regions[0].width.measure(viewer.logical_size.width.units(), height, point_units())
            == scene.sidebar.width * point_units(),
{
    law_sidebar_edge_is_the_sidebar_width();
}

/// Pressing below the popup and the content closes the picker, and with it the closer goes.
pub proof fn law_closing_takes_the_closer_away<W>(
    scene: Scene,
    viewer: PdfViewer<W>,
    now: u128,
)
    requires
        scene.is_of(viewer.updated(Message::ClosePicker, now)),
    ensures
        scene.layers@ == seq![Layer::Content],
{
}

/// Each slider stands at the viewer's current opacity of its field, ranges from 0 to 1 and moves
/// by 0.01, below the label that names it.
pub proof fn law_sliders_show_the_current_opacities<W>(scene: Scene, viewer: PdfViewer<W>)
    requires
        scene.is_of(viewer),
    ensures
        ({
            let rows = scene.sidebar.rows@;
            &&& rows.len() == 5
            &&& rows[0] matches SidebarRow::Label { text, height }
            &&& text@ == "Background opacity"@
            &&& height == 18
            &&& rows[1] matches SidebarRow::Slider { field, value, min, max, step, height }
            &&& field is Background
            &&& value == viewer.background_opacity
            &&& (min.bits, max.bits, step.bits) == (0u32, 0x3f80_0000u32, 0x3c23_d70au32)
            &&& height == 18
        }),
        ({
            let rows = scene.sidebar.rows@;
            &&& rows[2] matches SidebarRow::Label { text, height }
            &&& text@ == "Sidebar opacity"@
            &&& height == 18
            &&& rows[3] matches SidebarRow::Slider { field, value, min, max, step, height }
            &&& field is Sidebar
            &&& value == viewer.sidebar_opacity
            &&& (min.bits, max.bits, step.bits) == (0u32, 0x3f80_0000u32, 0x3c23_d70au32)
            &&& height == 18
        }),
{
}

/// The value at which a row's slider stands, if it is that of `field`.
pub open spec fn slider_value(row: SidebarRow, field: OpacityField) -> Option<Scalar> {
    match row {
        SidebarRow::Slider { field: f, value, min, max, step, height } => if f == field {
            Some(value)
        } else {
            None
        },
        _ => None,
    }
}

/// A slider stays where it is moved to: after its field's change to any opacity it shows just
/// that opacity, and the other slider shows what it showed before.
pub proof fn law_sliders_stay_where_they_are_moved<W>(
    before: Scene,
    after: Scene,
    viewer: PdfViewer<W>,
    field: OpacityField,
    opacity: Scalar,
    now: u128,
)
    requires
        before.is_of(viewer),
        after.is_of(viewer.updated(field.change::<W>(opacity), now)),
    ensures
        ({
            let moved: int = if field is Background {
                1
            } else {
                3
            };
            let other_field = if field is Background {
                OpacityField::Sidebar
            } else {
                OpacityField::Background
            };
            &&& slider_value(after.sidebar.rows@[moved], field) == Some(opacity)
            &&& slider_value(after.sidebar.rows@[4 - moved], other_field) is Some
            &&& slider_value(after.sidebar.rows@[4 - moved], other_field) == slider_value(
                before.sidebar.rows@[4 - moved],
                other_field,
            )
        }),
{
}

/// The swatches, text above backdrop, show the viewer's current colours beside their labels and
/// answer to the mouse all over; each reports its own field.
pub proof fn law_swatches_show_the_current_colors<W>(scene: Scene, viewer: PdfViewer<W>)
    requires
        scene.is_of(viewer),
    ensures
        ({
            &&& scene.sidebar.rows@[4] matches SidebarRow::Swatches { swatches, spacing }
            &&& spacing == 16
            &&& swatches@.len() == 2
            &&& swatches@[0].label@ == "Text color"@
            &&& swatches@[0].field is Text
            &&& swatches@[0].color == viewer.text_color
            &&& swatches@[1].label@ == "Backdrop color"@
            &&& swatches@[1].field is Backdrop
            &&& swatches@[1].color == viewer.backdrop_color
            &&& forall|i: int|
                0 <= i < 2 ==> {
                    &&& (#[trigger] swatches@[i]).height == 20
                    &&& swatches@[i].spacing == 8
                    &&& swatches@[i].patch_width == 28
                    &&& swatches@[i].patch_height == 18
                    &&& swatches@[i].interaction is Pointer
                }
        }),
{
}

/// Behind the page and behind the sidebar is the backdrop colour, each faded by its own opacity;
/// the sidebar has the width and the spacing of the layout.
pub proof fn law_backdrops_have_the_current_color<W>(scene: Scene, viewer: PdfViewer<W>)
    requires
        scene.is_of(viewer),
    ensures
        scene.page.color == viewer.backdrop_color,
        scene.page.opacity == viewer.background_opacity,
        scene.sidebar.backdrop.color == viewer.backdrop_color,
        scene.sidebar.backdrop.opacity == viewer.sidebar_opacity,
        scene.sidebar.width == 282,
        scene.sidebar.padding == 16,
        scene.sidebar.spacing == 16,
{
}

/// While no picker is open there is the content alone. While one is, the closer lies below the
/// content and above it a popup, which edits the field that is open, shows that field's current
/// colour in a square above a strip of hues, and answers to the mouse all over.
pub proof fn law_popup_shows_the_open_field<W>(scene: Scene, viewer: PdfViewer<W>)
    requires
        scene.is_of(viewer),
    ensures
        viewer.open_picker is None ==> scene.layers@.len() == 1 && scene.layers@[0] is Content,
        viewer.open_picker matches Some(field) ==> {
            &&& scene.layers@.len() == 3
            &&& scene.layers@[0] is Closer
            &&& scene.layers@[1] is Content
            &&& scene.layers@[2] matches Layer::Popup(popup)
            &&& popup.card.field == field
            &&& field is Text ==> popup.card.color == viewer.text_color && popup.top == 152
            &&& field is Backdrop ==> popup.card.color == viewer.backdrop_color && popup.top == 188
            &&& popup.left == 282 - 24
            &&& popup.card.interaction is Idle
            &&& popup.card.square.spectrum is SaturationValue
            &&& popup.card.square.width == 220
            &&& popup.card.square.height == 160
            &&& popup.card.strip.spectrum is HueHorizontal
            &&& popup.card.strip.width == 220
            &&& popup.card.strip.height == 24
            &&& popup.card.spacing == 8
            &&& popup.card.padding == 12
        },
{
}

/// A picked colour shows at once and everywhere it is used: in its field's swatch and popup, and,
/// for the backdrop, behind page and sidebar; the other swatch shows what it showed before.
pub proof fn law_picked_color_shows_everywhere<W>(
    scene: Scene,
    viewer: PdfViewer<W>,
    field: ColorField,
    color: Color,
    now: u128,
)
    requires
        scene.is_of(viewer.updated(field.change::<W>(color), now)),
    ensures
        ({
            &&& scene.sidebar.rows@[4] matches SidebarRow::Swatches { swatches, spacing }
            &&& field is Text ==> swatches@[0].color == color && swatches@[1].color
                == viewer.backdrop_color && scene.page.color == viewer.backdrop_color
                && scene.sidebar.backdrop.color == viewer.backdrop_color
            &&& field is Backdrop ==> swatches@[1].color == color && swatches@[0].color
                == viewer.text_color && scene.page.color == color && scene.sidebar.backdrop.color
                == color
        }),
        viewer.open_picker == Some(field) ==> (scene.layers@[2] matches Layer::Popup(popup)
            && popup.card.color == color && popup.card.field == field),
{
}

} // verus!
