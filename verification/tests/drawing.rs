use pdf_viewer::color::Color;
use pdf_viewer::color::ColorField;
use pdf_viewer::pixels::Ink;
use pdf_viewer::scalar::Scalar;
use pdf_viewer::viewer::pixel_size;
use pdf_viewer::viewer::Message;
use pdf_viewer::viewer::PdfViewer;
use pdf_viewer::viewer::Redraw;
use pdf_viewer::viewer::Size;
use pdf_viewer::viewer::WindowEvent;

const MS: u128 = 1_000_000;

fn scalar(x: f32) -> Scalar {
    Scalar { bits: x.to_bits() }
}

fn size(width: f32, height: f32) -> Size {
    Size { width: scalar(width), height: scalar(height) }
}

fn color(red: f32) -> Color {
    Color { r: scalar(red), g: scalar(0.0), b: scalar(0.0), a: scalar(1.0) }
}

fn number(value: Scalar) -> f32 {
    f32::from_bits(value.bits)
}

fn ink(color: Color) -> Ink {
    let channel = |value: Scalar| (number(value) * 255.0).round() as u8;
    Ink { red: channel(color.r), green: channel(color.g), blue: channel(color.b) }
}

/// An engine whose page for a box is one pixel with the box's width as alpha.
fn engine(width: u32, _height: u32) -> Vec<u8> {
    vec![1, 2, 3, width as u8]
}

fn rounded(viewer: &PdfViewer<u8>) -> (u32, u32) {
    let scale = number(viewer.scale_factor);
    let side = |points: Scalar| (number(points) * scale).round() as u32;
    (side(viewer.logical_size.width), side(viewer.logical_size.height))
}

fn draw(viewer: &mut PdfViewer<u8>, picture: &mut Vec<u8>, redraw: Redraw) {
    let (width, height) = rounded(viewer);
    if let Some((width, height)) = viewer.draw_target(redraw, width, height) {
        let ink = ink(viewer.text_color);
        *picture = viewer.rasterize(width, height, engine(width, height), ink);
    }
}

#[test]
fn picture_is_current_or_a_resize_is_pending() {
    let (mut viewer, redraw) = PdfViewer::boot("t".to_string(), size(90.0, 120.0));
    let mut picture = Vec::new();
    draw(&mut viewer, &mut picture, redraw);
    assert_eq!(picture, vec![0, 0, 0, 90]);
    let messages = vec![
        (Message::WindowEvent(1, WindowEvent::Opened(size(80.0, 100.0))), 0),
        (Message::TextColorChanged(color(1.0)), 1),
        (Message::WindowEvent(1, WindowEvent::Resized(size(70.0, 100.0))), 10 * MS),
        (Message::TextColorChanged(color(0.5)), 11 * MS),
        (Message::Tick, 50 * MS),
        (Message::WindowEvent(1, WindowEvent::Rescaled(scalar(2.0))), 60 * MS),
        (Message::WindowEvent(1, WindowEvent::Opened(size(30.0, 100.0))), 61 * MS),
        (Message::Tick, 180 * MS),
        (Message::TogglePicker(ColorField::Text), 190 * MS),
        (Message::BackdropColorChanged(color(0.25)), 200 * MS),
        (Message::WindowEvent(1, WindowEvent::Resized(size(0.0, 0.0))), 300 * MS),
        (Message::Tick, 420 * MS),
        (Message::Tick, 500 * MS),
    ];
    for (message, now) in messages {
        let effects = viewer.update(message, now);
        draw(&mut viewer, &mut picture, effects.redraw);
        let (width, height) = viewer.last_rendered_physical;
        let ink = ink(viewer.text_color);
        assert_eq!(picture, vec![ink.red, ink.green, ink.blue, engine(width, height)[3]]);
        let (w, h) = rounded(&viewer);
        assert!((width, height) == pixel_size(w, h) || viewer.pending_resize_at.is_some());
    }
    assert_eq!(viewer.last_rendered_physical, (1, 1));
    assert_eq!(picture, vec![128, 0, 0, 1]);
}
