use ridgeback::sixel::{
    base64_decode, decode_iterm2_image, hls_to_rgb, ImageLayer, SixelDecoder, SixelImage,
};

/// Cells spanned by `pixels` at `cell` pixels per cell, rounded up, as the
/// application computes it before placing an image.
fn cells(pixels: u32, cell: f32) -> usize {
    (pixels as f32 / cell).ceil() as usize
}

#[test]
fn test_basic_sixel_decode() {
    let mut decoder = SixelDecoder::new();
    decoder.feed_bytes(b"#1");
    decoder.feed_bytes(b"~");
    let image = decoder.finish().unwrap();
    assert_eq!(image.width, 1);
    assert_eq!(image.height, 6);
    for row in 0..6 {
        let offset = (row * 4) as usize;
        assert_eq!(image.pixels[offset + 3], 255, "pixel at row {} should be opaque", row);
    }
}

#[test]
fn test_sixel_repeat() {
    let mut decoder = SixelDecoder::new();
    decoder.feed_bytes(b"#0!5~");
    let image = decoder.finish().unwrap();
    assert_eq!(image.width, 5);
    assert_eq!(image.height, 6);
}

#[test]
fn test_sixel_newline() {
    let mut decoder = SixelDecoder::new();
    decoder.feed_bytes(b"#0~-~");
    let image = decoder.finish().unwrap();
    assert_eq!(image.width, 1);
    assert_eq!(image.height, 12);
}

#[test]
fn test_sixel_color_definition() {
    let mut decoder = SixelDecoder::new();
    decoder.feed_bytes(b"#0;2;100;0;0~");
    let image = decoder.finish().unwrap();
    let offset = 0;
    assert_eq!(image.pixels[offset], 255);
    assert_eq!(image.pixels[offset + 1], 0);
    assert_eq!(image.pixels[offset + 2], 0);
}

#[test]
fn test_hls_to_rgb() {
    let (r, g, b) = hls_to_rgb(0, 50, 100);
    assert_eq!(r, 255);
    assert_eq!(g, 0);
    assert_eq!(b, 0);

    let (r, g, b) = hls_to_rgb(0, 50, 0);
    assert_eq!(r, 128);
    assert_eq!(g, 128);
    assert_eq!(b, 128);
}

#[test]
fn test_image_layer() {
    let mut layer = ImageLayer::new();
    let image = SixelImage {
        pixels: vec![255; 4 * 80 * 24],
        width: 80,
        height: 24,
    };
    let (cols, rows) = (cells(image.width, 8.0), cells(image.height, 16.0));
    let id = layer.place_image_cells(image, 5, 0, cols, rows);
    assert!(id > 0);
    assert_eq!(layer.count(), 1);

    let visible = layer.visible_images(0, 10);
    assert_eq!(visible.len(), 1);

    layer.scroll_up(3);
    assert_eq!(layer.get_image(id).unwrap().start_row, 2);
}

#[test]
fn test_base64_decode() {
    let decoded = base64_decode("SGVsbG8=").unwrap();
    assert_eq!(decoded, b"Hello");
}

#[test]
fn sixel_low_bit_is_top_pixel() {
    let mut decoder = SixelDecoder::new();
    // '@' sets only the top bit of the column (bit 0 is the top pixel).
    decoder.feed_bytes(b"#9@");
    let image = decoder.finish().unwrap();
    assert_eq!((image.width, image.height), (1, 6));
    assert_eq!(&image.pixels[0..4], &[255, 0, 0, 255]);
    for row in 1..6 {
        assert_eq!(image.pixels[row * 4 + 3], 0);
    }
}

#[test]
fn sixel_raster_attributes_fix_the_size() {
    let mut decoder = SixelDecoder::new();
    decoder.feed_bytes(b"\"1;1;4;2#1~");
    let image = decoder.finish().unwrap();
    // The band is six pixels tall, so the declared height grows to fit it.
    assert_eq!((image.width, image.height), (4, 6));
    assert_eq!(image.pixels.len(), 4 * 6 * 4);
    assert_eq!(&image.pixels[0..4], &[128, 0, 0, 255]);
    assert_eq!(&image.pixels[4..8], &[0, 0, 0, 0]);
}

#[test]
fn sixel_raster_attributes_out_of_range_are_ignored() {
    let mut decoder = SixelDecoder::new();
    decoder.feed_bytes(b"\"1;1;5000;2~");
    let image = decoder.finish().unwrap();
    assert_eq!((image.width, image.height), (1, 6));
}

#[test]
fn sixel_carriage_return_overdraws() {
    let mut decoder = SixelDecoder::new();
    decoder.feed_bytes(b"#1~~$#2@");
    let image = decoder.finish().unwrap();
    assert_eq!((image.width, image.height), (2, 6));
    assert_eq!(&image.pixels[0..4], &[0, 128, 0, 255]);
    assert_eq!(&image.pixels[4..8], &[128, 0, 0, 255]);
}

#[test]
fn sixel_hls_color_definition() {
    let mut decoder = SixelDecoder::new();
    decoder.feed_bytes(b"#3;1;120;50;100~");
    let image = decoder.finish().unwrap();
    assert_eq!(&image.pixels[0..4], &[0, 255, 0, 255]);
}

#[test]
fn sixel_color_past_palette_is_padded() {
    let mut decoder = SixelDecoder::new();
    decoder.feed_bytes(b"#300;2;0;0;100~");
    let image = decoder.finish().unwrap();
    assert_eq!(&image.pixels[0..4], &[0, 0, 255, 255]);
}

#[test]
fn sixel_unknown_color_draws_white() {
    let mut decoder = SixelDecoder::new();
    decoder.feed_bytes(b"#999~");
    let image = decoder.finish().unwrap();
    assert_eq!(&image.pixels[0..4], &[255, 255, 255, 255]);
}

#[test]
fn sixel_default_palette_cube_and_grays() {
    let mut decoder = SixelDecoder::new();
    // Entry 16 + 36*5 + 6*0 + 1 = 197 is (255, 0, 95); entry 232 is gray 8.
    decoder.feed_bytes(b"#197~#232~");
    let image = decoder.finish().unwrap();
    assert_eq!(&image.pixels[0..4], &[255, 0, 95, 255]);
    assert_eq!(&image.pixels[4..8], &[8, 8, 8, 255]);
}

#[test]
fn sixel_nothing_drawn_gives_no_image() {
    let mut decoder = SixelDecoder::new();
    decoder.feed_bytes(b"#1$-");
    assert!(decoder.finish().is_none());
}

#[test]
fn sixel_reset_discards_the_image() {
    let mut decoder = SixelDecoder::default();
    decoder.feed_bytes(b"#1~~");
    decoder.reset();
    assert!(decoder.finish().is_none());
}

#[test]
fn sixel_can_feed_ordinary_bytes() {
    let mut decoder = SixelDecoder::new();
    assert!(decoder.can_feed(b'#'));
    decoder.feed(b'#');
    assert!(decoder.can_feed(b'1'));
    decoder.feed(b'1');
    assert!(decoder.can_feed(b'~'));
    decoder.feed(b'~');
    // A repeat that would run the cursor past `u32::MAX` is refused.
    decoder.feed_bytes(b"!4294967295");
    assert!(!decoder.can_feed(b'~'));
    assert!(decoder.can_feed(b'$'));
}

#[test]
fn hls_to_rgb_exact_values() {
    assert_eq!(hls_to_rgb(120, 50, 100), (0, 255, 0));
    assert_eq!(hls_to_rgb(240, 50, 100), (0, 0, 255));
    assert_eq!(hls_to_rgb(0, 100, 0), (255, 255, 255));
    assert_eq!(hls_to_rgb(0, 0, 100), (0, 0, 0));
    assert_eq!(hls_to_rgb(420, 50, 100), (255, 255, 0));
}

#[test]
fn base64_skips_whitespace_and_rejects_bad_input() {
    assert_eq!(base64_decode("SGVs\n bG8=").unwrap(), b"Hello");
    assert_eq!(base64_decode("TWFu").unwrap(), b"Man");
    assert!(base64_decode("SG*s").is_none());
    assert_eq!(base64_decode("").unwrap(), b"");
}

#[test]
fn iterm2_images_are_not_decoded() {
    assert!(decode_iterm2_image("inline=1:SGVsbG8=").is_none());
    assert!(decode_iterm2_image("inline=0:SGVsbG8=").is_none());
    assert!(decode_iterm2_image("no colon").is_none());
}

#[test]
fn image_layer_gc_and_clear() {
    let mut layer = ImageLayer::default();
    let image = SixelImage { pixels: vec![0; 4], width: 1, height: 1 };
    let first = layer.place_image_cells(image.clone(), 0, 0, 1, 2);
    let second = layer.place_image_cells(image, 10, 0, 1, 2);
    assert_eq!((first, second), (1, 2));
    layer.gc(5);
    assert_eq!(layer.count(), 1);
    assert!(layer.get_image(first).is_none());
    assert_eq!(layer.get_image(second).unwrap().start_row, 10);
    assert_eq!(layer.visible_images(0, 9).len(), 0);
    assert_eq!(layer.visible_images(0, 10).len(), 1);
    layer.scroll_up(20);
    assert_eq!(layer.get_image(second).unwrap().start_row, 0);
    layer.clear();
    assert_eq!(layer.count(), 0);
}

#[test]
fn feed_bytes_concatenation_matches_parts() {
    let a: &[u8] = b"\"1;1;4;6#2;2;100;0;0#2!3~";
    let b: &[u8] = b"-#1~$~";
    let mut whole = SixelDecoder::new();
    whole.feed_bytes(&[a, b].concat());
    let mut parts = SixelDecoder::new();
    parts.feed_bytes(a);
    parts.feed_bytes(b);
    let x = whole.finish().unwrap();
    let y = parts.finish().unwrap();
    assert_eq!((x.width, x.height), (y.width, y.height));
    assert_eq!(x.pixels, y.pixels);

    let mut one = SixelDecoder::new();
    one.feed_bytes(b"~");
    let mut single = SixelDecoder::new();
    single.feed(b'~');
    assert_eq!(one.finish().unwrap().pixels, single.finish().unwrap().pixels);
}
