use espy::pixel::{decode_frame, decode_pixel, pixbuf_channels, pixbuf_frame, Rgba};

#[test]
fn decode_pixel_splits_bgra_bytes() {
    let c = decode_pixel(0x80_11_22_33);
    assert_eq!(c, Rgba { r: 0x11, g: 0x22, b: 0x33, a: 0x80 });
}

#[test]
fn decode_pixel_ignores_bits_above_32() {
    let c = decode_pixel(0xdead_beef_0000_00ff);
    assert_eq!(c, Rgba { r: 0, g: 0, b: 0xff, a: 0 });
    assert_eq!(decode_pixel(0xffff_ffff_ffff_ffff), Rgba { r: 0xff, g: 0xff, b: 0xff, a: 0xff });
}

#[test]
fn decode_pixel_of_zero_is_black() {
    assert_eq!(decode_pixel(0), Rgba { r: 0, g: 0, b: 0, a: 0 });
}

#[test]
fn decode_recomposes_low_word() {
    for p in [0u64, 1, 0x1234_5678, 0xffff_ffff, 0x1_0000_0001, u64::MAX, 0x00ab_cdef] {
        let c = decode_pixel(p);
        let back = (c.a as u64) << 24 | (c.r as u64) << 16 | (c.g as u64) << 8 | c.b as u64;
        assert_eq!(back, p & 0xffff_ffff);
    }
}

#[test]
fn decode_same_low_word_same_channels() {
    assert_eq!(decode_pixel(0x7_1234_5678), decode_pixel(0x1234_5678));
    assert_ne!(decode_pixel(0x1234_5678), decode_pixel(0x1234_5679));
}

#[test]
fn pixbuf_channels_keep_only_low_byte_in_red() {
    let c = pixbuf_channels(0x80_11_22_33);
    assert_eq!(c, Rgba { r: 0x33, g: 0, b: 0, a: 0 });
    assert_eq!(pixbuf_channels(u64::MAX), Rgba { r: 0xff, g: 0, b: 0, a: 0 });
}

#[test]
fn decode_frame_keeps_order() {
    let pixels = vec![0x00ff_0000u64, 0x0000_ff00, 0x0000_00ff];
    let out = decode_frame(&pixels);
    assert_eq!(
        out,
        vec![
            Rgba { r: 0xff, g: 0, b: 0, a: 0 },
            Rgba { r: 0, g: 0xff, b: 0, a: 0 },
            Rgba { r: 0, g: 0, b: 0xff, a: 0 },
        ]
    );
    assert!(decode_frame(&Vec::new()).is_empty());
}

#[test]
fn pixbuf_frame_keeps_order() {
    let pixels = vec![0x0102_0304u64, 0x0a0b_0c0d];
    let out = pixbuf_frame(&pixels);
    assert_eq!(out, vec![Rgba { r: 4, g: 0, b: 0, a: 0 }, Rgba { r: 0x0d, g: 0, b: 0, a: 0 }]);
}
