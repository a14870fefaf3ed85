use stray::render_state::RenderState;
use stray::scene::{Drawable, Sprite, Transform2D};
use stray::SCALE;

/// A 2x1 binary PPM image: red pixel, then green pixel.
fn ppm_2x1() -> Vec<u8> {
    let mut bytes = b"P6\n2 1\n255\n".to_vec();
    bytes.extend_from_slice(&[255, 0, 0, 0, 255, 0]);
    bytes
}

#[test]
fn sprite_new_decodes_rgba_pixels() {
    let s = Sprite::new(1, &ppm_2x1(), 0).unwrap();
    assert_eq!(s.width, 2);
    assert_eq!(s.height, 1);
    // The decoder expands each RGB pixel to RGBA with full alpha; the
    // stored bytes are not the encoded input.
    assert_eq!(s.rgba, vec![255, 0, 0, 255, 0, 255, 0, 255]);
    assert_eq!(s.id, 1);
    assert_eq!(s.layer, 0);
}

#[test]
fn sprite_new_rejects_undecodable_bytes() {
    assert!(Sprite::new(1, &[1, 2, 3, 4], 0).is_none());
    assert!(Sprite::new(1, &[], 0).is_none());
}

#[test]
fn decoded_sprite_spans_its_scaled_quad() {
    let sprite = Sprite::new(9, &ppm_2x1(), 0).unwrap();
    let mut rs = RenderState::empty();
    let d = Drawable::Sprite(sprite);
    let t = Transform2D::zero();
    rs.sync(&d, &t, 600, 600);
    let o = rs.get_at(0);
    assert_eq!(o.vertices.len(), 6);
    // Half extents are the image dimensions at unit scale: 2 and 1 pixels,
    // normalized against half of 600.
    let px = 2 * 2 * SCALE / 600;
    let py = 2 * SCALE / 600;
    assert_eq!(o.vertices[0].px, -px);
    assert_eq!(o.vertices[0].py, -py);
    assert_eq!(o.vertices[5].px, px);
    assert_eq!(o.vertices[5].py, py);
    // Texture coordinates span the whole image.
    assert_eq!(o.vertices[0].tx, 0);
    assert_eq!(o.vertices[0].ty, SCALE);
    assert_eq!(o.vertices[5].tx, SCALE);
    assert_eq!(o.vertices[5].ty, 0);
}
