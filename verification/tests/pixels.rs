use pdf_viewer::pixels::recolor;
use pdf_viewer::pixels::render_options;
use pdf_viewer::pixels::Ink;
use pdf_viewer::pixels::RenderOptions;
use pdf_viewer::scalar::Scalar;

const INK: Ink = Ink { red: 10, green: 20, blue: 30 };

fn recolored(bytes: &[u8], ink: Ink) -> Vec<u8> {
    let mut pixels = bytes.to_vec();
    recolor(&mut pixels, ink);
    pixels
}

#[test]
fn painted_pixels_get_the_ink_and_keep_alpha() {
    assert_eq!(
        recolored(&[1, 2, 3, 255, 4, 5, 6, 1], INK),
        vec![10, 20, 30, 255, 10, 20, 30, 1]
    );
}

#[test]
fn transparent_pixels_stay() {
    assert_eq!(recolored(&[1, 2, 3, 0, 4, 5, 6, 7], INK), vec![1, 2, 3, 0, 10, 20, 30, 7]);
}

#[test]
fn bytes_beyond_the_last_pixel_stay() {
    assert_eq!(recolored(&[1, 2, 3, 4, 5, 6, 7], INK), vec![10, 20, 30, 4, 5, 6, 7]);
    assert_eq!(recolored(&[1, 2, 3], INK), vec![1, 2, 3]);
    assert_eq!(recolored(&[], INK), Vec::<u8>::new());
}

#[test]
fn last_ink_wins() {
    let bytes = [9, 8, 7, 6, 5, 4, 3, 0];
    let other = Ink { red: 1, green: 2, blue: 3 };
    assert_eq!(recolored(&recolored(&bytes, other), INK), recolored(&bytes, INK));
}

#[test]
fn pages_are_drawn_on_nothing_with_plain_smoothing() {
    let scale = Scalar { bits: 1.5f32.to_bits() };
    assert_eq!(
        render_options(900, 1200, scale),
        RenderOptions {
            width: 900,
            height: 1200,
            scale,
            transparent_background: true,
            annotations: true,
            subpixel_text: false,
        }
    );
    assert_eq!(render_options(u32::MAX, 1, scale).width, u32::MAX as i32);
}
