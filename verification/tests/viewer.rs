use pdf_viewer::color::Color;
use pdf_viewer::color::ColorField;
use pdf_viewer::color::OpacityField;
use pdf_viewer::layout::BACKDROP_SWATCH_TOP;
use pdf_viewer::layout::TEXT_SWATCH_TOP;
use pdf_viewer::pixels::Ink;
use pdf_viewer::scalar::Scalar;
use pdf_viewer::vibrancy::Extent;
use pdf_viewer::view::Interaction;
use pdf_viewer::view::Layer;
use pdf_viewer::view::Popup;
use pdf_viewer::view::SidebarRow;
use pdf_viewer::view::Spectrum;
use pdf_viewer::viewer::pixel_size;
use pdf_viewer::viewer::Message;
use pdf_viewer::viewer::PdfViewer;
use pdf_viewer::viewer::Redraw;
use pdf_viewer::viewer::Size;
use pdf_viewer::viewer::WindowEvent;

const MS: u128 = 1_000_000;

fn scalar(x: f32) -> Scalar {
    Scalar { bits: x.to_bits() }
}

fn size(width: f32, height: f32) -> Size {
    Size { width: scalar(width), height: scalar(height) }
}

fn color(r: f32, g: f32, b: f32) -> Color {
    Color { r: scalar(r), g: scalar(g), b: scalar(b), a: scalar(1.0) }
}

fn booted() -> PdfViewer<u8> {
    PdfViewer::boot("paper.pdf".to_string(), size(900.0, 1200.0)).0
}

fn popup(viewer: &PdfViewer<u8>) -> Popup {
    let layers = viewer.view().layers;
    assert_eq!(layers.len(), 3);
    assert_eq!(layers[0], Layer::Closer);
    assert_eq!(layers[1], Layer::Content);
    match layers[2] {
        Layer::Popup(popup) => popup,
        other => panic!("no popup: {:?}", other),
    }
}

#[test]
fn viewer_boots_transparent_and_black_on_white() {
    let (viewer, redraw): (PdfViewer<u8>, Redraw) =
        PdfViewer::boot("paper.pdf".to_string(), size(900.0, 1200.0));
    assert_eq!(redraw, Redraw::Fit);
    assert_eq!(viewer.title(), "paper.pdf");
    assert_eq!(viewer.window_id, None);
    assert_eq!(viewer.scale_factor, scalar(1.0));
    assert_eq!(viewer.logical_size, size(900.0, 1200.0));
    assert_eq!(viewer.last_rendered_physical, (0, 0));
    assert_eq!(viewer.pending_resize_at, None);
    assert_eq!(viewer.background_opacity, scalar(0.0));
    assert_eq!(viewer.sidebar_opacity, scalar(0.0));
    assert_eq!(viewer.text_color, color(0.0, 0.0, 0.0));
    assert_eq!(viewer.backdrop_color, color(1.0, 1.0, 1.0));
    assert_eq!(viewer.open_picker, None);
}

#[test]
fn opening_draws_and_syncs() {
    let mut viewer = booted();
    let effects =
        viewer.update(Message::WindowEvent(7, WindowEvent::Opened(size(200.0, 300.0))), 5);
    assert_eq!(effects.redraw, Redraw::Fit);
    let (window, regions) = effects.vibrancy.unwrap();
    assert_eq!(window, 7);
    assert_eq!(regions.len(), 2);
    assert_eq!(regions[0].width, Extent::WindowWidth);
    assert_eq!(regions[1].width, Extent::Nothing);
    assert_eq!(viewer.window_id, Some(7));
    assert_eq!(viewer.logical_size, size(200.0, 300.0));
    assert_eq!(viewer.pending_resize_at, None);
}

#[test]
fn resize_is_drawn_once_settled() {
    let mut viewer = booted();
    let effects =
        viewer.update(Message::WindowEvent(7, WindowEvent::Resized(size(500.0, 300.0))), 100 * MS);
    assert_eq!(effects.redraw, Redraw::Keep);
    assert_eq!(effects.vibrancy.unwrap().1[1].width, Extent::BesideSidebar);
    assert_eq!(viewer.logical_size, size(500.0, 300.0));
    assert_eq!(viewer.window_id, None);
    assert_eq!(viewer.update(Message::Tick, 150 * MS).redraw, Redraw::Keep);
    viewer.update(Message::WindowEvent(7, WindowEvent::Resized(size(501.0, 300.0))), 200 * MS);
    assert_eq!(viewer.update(Message::Tick, 220 * MS).redraw, Redraw::Keep);
    assert_eq!(viewer.update(Message::Tick, 320 * MS - 1).redraw, Redraw::Keep);
    assert_eq!(viewer.pending_resize_at, Some(200 * MS));
    assert_eq!(viewer.update(Message::Tick, 320 * MS).redraw, Redraw::Fit);
    assert_eq!(viewer.pending_resize_at, None);
    assert_eq!(viewer.update(Message::Tick, 999 * MS).redraw, Redraw::Keep);
}

#[test]
fn clock_that_goes_back_settles_nothing() {
    let mut viewer = booted();
    viewer.update(Message::WindowEvent(7, WindowEvent::Rescaled(scalar(2.0))), 500 * MS);
    assert_eq!(viewer.update(Message::Tick, 0).redraw, Redraw::Keep);
}

#[test]
fn rescaling_waits_and_syncs_nothing() {
    let mut viewer = booted();
    let effects = viewer.update(Message::WindowEvent(7, WindowEvent::Rescaled(scalar(2.0))), 10);
    assert_eq!(effects.redraw, Redraw::Keep);
    assert!(effects.vibrancy.is_none());
    assert_eq!(viewer.scale_factor, scalar(2.0));
    assert_eq!(viewer.pending_resize_at, Some(10));
    assert_eq!(viewer.update(Message::Tick, 10 + 120 * MS).redraw, Redraw::Fit);
}

#[test]
fn other_window_events_change_nothing() {
    let mut viewer = booted();
    let effects = viewer.update(Message::WindowEvent(7, WindowEvent::Other), 10);
    assert_eq!(effects.redraw, Redraw::Keep);
    assert!(effects.vibrancy.is_none());
    assert_eq!(viewer.window_id, None);
    assert_eq!(viewer.pending_resize_at, None);
}

#[test]
fn page_is_drawn_once_for_a_size() {
    let mut viewer = booted();
    assert_eq!(viewer.render_full(900, 1200), Some((900, 1200)));
    let pixels = viewer.rasterize(
        900,
        1200,
        vec![1, 2, 3, 4, 5, 6, 7, 0],
        Ink { red: 9, green: 8, blue: 7 },
    );
    assert_eq!(pixels, vec![9, 8, 7, 4, 5, 6, 7, 0]);
    assert_eq!(viewer.last_rendered_physical, (900, 1200));
    assert_eq!(viewer.render_full(900, 1200), None);
    assert_eq!(viewer.render_full(900, 1201), Some((900, 1201)));
    assert_eq!(viewer.draw_target(Redraw::Keep, 1, 1), None);
    assert_eq!(viewer.draw_target(Redraw::Fit, 900, 1200), None);
    assert_eq!(viewer.draw_target(Redraw::Fit, 1, 0), Some((1, 1)));
    assert_eq!(viewer.draw_target(Redraw::Within(900, 1200), 5, 5), Some((900, 1200)));
}

#[test]
fn no_side_is_without_pixels() {
    assert_eq!(booted().render_full(0, 0), Some((1, 1)));
    assert_eq!(pixel_size(0, 7), (1, 7));
    assert_eq!(pixel_size(u32::MAX, 0), (u32::MAX, 1));
}

#[test]
fn text_color_redraws_at_the_same_size() {
    let mut viewer = booted();
    viewer.rasterize(40, 50, Vec::new(), Ink { red: 0, green: 0, blue: 0 });
    let effects = viewer.update(Message::TextColorChanged(color(1.0, 0.0, 0.0)), 0);
    assert_eq!(effects.redraw, Redraw::Within(40, 50));
    assert!(effects.vibrancy.is_none());
    assert_eq!(viewer.text_color, color(1.0, 0.0, 0.0));
    assert_eq!(viewer.backdrop_color, color(1.0, 1.0, 1.0));
}

#[test]
fn other_settings_redraw_nothing() {
    let mut viewer = booted();
    let backdrop = viewer.update(Message::BackdropColorChanged(color(0.0, 1.0, 0.0)), 0);
    assert_eq!(backdrop.redraw, Redraw::Keep);
    let background = viewer.update(OpacityField::Background.changed(scalar(0.25)), 0);
    assert_eq!(background.redraw, Redraw::Keep);
    let sidebar = viewer.update(OpacityField::Sidebar.changed(scalar(0.75)), 0);
    assert_eq!(sidebar.redraw, Redraw::Keep);
    assert_eq!(viewer.backdrop_color, color(0.0, 1.0, 0.0));
    assert_eq!(viewer.text_color, color(0.0, 0.0, 0.0));
    assert_eq!(viewer.background_opacity, scalar(0.25));
    assert_eq!(viewer.sidebar_opacity, scalar(0.75));
    let scene = viewer.view();
    assert_eq!(scene.page.color, color(0.0, 1.0, 0.0));
    assert_eq!(scene.page.opacity, scalar(0.25));
    assert_eq!(scene.sidebar.backdrop.color, color(0.0, 1.0, 0.0));
    assert_eq!(scene.sidebar.backdrop.opacity, scalar(0.75));
}

#[test]
fn swatches_toggle_their_pickers() {
    let mut viewer = booted();
    viewer.update(Message::TogglePicker(ColorField::Text), 0);
    assert_eq!(viewer.open_picker, Some(ColorField::Text));
    viewer.update(Message::TogglePicker(ColorField::Backdrop), 0);
    assert_eq!(viewer.open_picker, Some(ColorField::Backdrop));
    viewer.update(Message::TogglePicker(ColorField::Backdrop), 0);
    assert_eq!(viewer.open_picker, None);
    viewer.update(Message::TogglePicker(ColorField::Text), 0);
    viewer.update(Message::ClosePicker, 0);
    assert_eq!(viewer.open_picker, None);
    assert_eq!(viewer.view().layers, vec![Layer::Content]);
    assert!(Layer::Content.pressed::<u8>().is_none());
}

#[test]
fn popup_lines_up_with_its_swatch() {
    let mut viewer = booted();
    let scene = viewer.view();
    assert_eq!(scene.sidebar.width, 282);
    assert_eq!(scene.sidebar.rows.len(), 5);
    let mut top = scene.sidebar.padding;
    let mut tops = Vec::new();
    for row in &scene.sidebar.rows {
        match row {
            SidebarRow::Label { height, .. } | SidebarRow::Slider { height, .. } => {
                top += height + scene.sidebar.spacing;
            }
            SidebarRow::Swatches { swatches, spacing } => {
                for swatch in swatches {
                    tops.push((swatch.field, top));
                    assert!(matches!(
                        swatch.pressed::<u8>(),
                        Message::TogglePicker(field) if field == swatch.field
                    ));
                    top += swatch.height + spacing;
                }
            }
        }
    }
    assert_eq!(tops, vec![(ColorField::Text, 152), (ColorField::Backdrop, 188)]);
    assert_eq!((TEXT_SWATCH_TOP, BACKDROP_SWATCH_TOP), (152, 188));
    for (field, top) in tops {
        viewer.update(Message::TogglePicker(field), 0);
        let popup = popup(&viewer);
        assert_eq!(popup.card.field, field);
        assert_eq!(popup.top, top);
        assert_eq!(popup.left, 258);
    }
}

#[test]
fn sidebar_reads_as_it_should() {
    let rows = booted().view().sidebar.rows;
    assert!(matches!(rows[0], SidebarRow::Label { text: "Background opacity", height: 18 }));
    for (index, expected) in [(1, OpacityField::Background), (3, OpacityField::Sidebar)] {
        match rows[index] {
            SidebarRow::Slider { field, value, min, max, step, height } => {
                assert_eq!(field, expected);
                assert_eq!(value, scalar(0.0));
                assert_eq!((min, max), (scalar(0.0), scalar(1.0)));
                assert_eq!(step, scalar(0.01));
                assert_eq!(height, 18);
            }
            ref other => panic!("no slider: {:?}", other),
        }
    }
    assert!(matches!(rows[2], SidebarRow::Label { text: "Sidebar opacity", height: 18 }));
    match &rows[4] {
        SidebarRow::Swatches { swatches, spacing } => {
            assert_eq!(*spacing, 16);
            assert_eq!(swatches[0].label, "Text color");
            assert_eq!(swatches[0].color, color(0.0, 0.0, 0.0));
            assert_eq!(swatches[1].label, "Backdrop color");
            assert_eq!(swatches[1].color, color(1.0, 1.0, 1.0));
            assert_eq!((swatches[1].patch_width, swatches[1].patch_height), (28, 18));
            assert_eq!((swatches[1].height, swatches[1].spacing), (20, 8));
            assert_eq!(swatches[0].interaction, Interaction::Pointer);
            assert_eq!(swatches[1].interaction, Interaction::Pointer);
        }
        other => panic!("no swatches: {:?}", other),
    }
}

#[test]
fn picker_edits_what_it_shows() {
    let mut viewer = booted();
    for field in [ColorField::Text, ColorField::Backdrop] {
        viewer.update(Message::TogglePicker(field), 0);
        let picked = color(0.5, 0.25, 0.125);
        viewer.update(field.changed(picked), 0);
        let card = popup(&viewer).card;
        assert_eq!(card.color, picked);
        assert_eq!(card.square.spectrum, Spectrum::SaturationValue);
        assert_eq!((card.square.width, card.square.height), (220, 160));
        assert_eq!(card.strip.spectrum, Spectrum::HueHorizontal);
        assert_eq!((card.strip.width, card.strip.height), (220, 24));
        assert_eq!((card.spacing, card.padding), (8, 12));
    }
    assert_eq!(viewer.text_color, viewer.backdrop_color);
}

#[test]
fn card_keeps_presses_from_the_closer() {
    let mut viewer = booted();
    viewer.update(Message::TogglePicker(ColorField::Backdrop), 0);
    let layers = viewer.view().layers;
    assert!(matches!(layers[0].pressed::<u8>(), Some(Message::ClosePicker)));
    assert!(layers[1].pressed::<u8>().is_none());
    assert!(layers[2].pressed::<u8>().is_none());
    assert_eq!(popup(&viewer).card.interaction, Interaction::Idle);
}

#[test]
fn opacities_stay_in_range() {
    let mut viewer = booted();
    for x in [0.0, 0.01, 0.5, 1.0] {
        viewer.update(OpacityField::Background.changed(scalar(x)), 0);
        viewer.update(OpacityField::Sidebar.changed(scalar(1.0 - x)), 0);
        for opacity in [viewer.background_opacity, viewer.sidebar_opacity] {
            assert!(!opacity.less_than(scalar(0.0)));
            assert!(!scalar(1.0).less_than(opacity));
        }
    }
}
