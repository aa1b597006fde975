use colortool::pixel::{fill_bytes, fill_pixels, Pixel, HALF_ONE, PIXEL_BYTES};

#[test]
fn an_opaque_color_has_full_alpha() {
    assert_eq!(Pixel::new_opaque(1, 2, 3), Pixel { r: 1, g: 2, b: 3, a: 0x3c00 });
    assert_eq!(HALF_ONE, half::f16::from_f32(1.0).to_bits());
}

#[test]
fn a_pixel_has_the_size_of_four_halves() {
    assert_eq!(PIXEL_BYTES as usize, std::mem::size_of::<rgb::Rgba<half::f16>>());
}

#[test]
fn bytes_repeat() {
    let mut buffer = vec![0; 7];
    fill_bytes(&mut buffer, &[1, 2, 3]);
    assert_eq!(buffer, vec![1, 2, 3, 1, 2, 3, 1]);
}

#[test]
fn pixels_are_stored_as_the_machine_stores_them() {
    let color = rgb::Rgba::new(
        half::f16::from_f32(1.0),
        half::f16::from_f32(0.25),
        half::f16::from_f32(-2.0),
        half::f16::from_f32(0.5),
    );
    let mut expected = vec![0_u16; 12];
    bytemuck::cast_slice_mut(&mut expected).fill(color);
    let mut buffer = vec![0; 24];
    let pixel = Pixel {
        r: color.r.to_bits(),
        g: color.g.to_bits(),
        b: color.b.to_bits(),
        a: color.a.to_bits(),
    };
    fill_pixels(&mut buffer, pixel);
    assert_eq!(buffer, bytemuck::cast_slice::<u16, u8>(&expected));
}

#[test]
fn an_empty_buffer_stays_empty() {
    let mut buffer: Vec<u8> = vec![];
    fill_pixels(&mut buffer, Pixel::new_opaque(1, 2, 3));
    assert!(buffer.is_empty());
}
