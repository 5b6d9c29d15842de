use ridgeback::palette::{
    ansi_index_to_color, hex_to_rgb, indexed_color_to_rgb, parse_hex_color, parse_param_color,
    rgb_to_hex,
};

#[test]
fn view_palette() {
    assert_eq!(indexed_color_to_rgb(0), (0x45, 0x47, 0x5a));
    assert_eq!(indexed_color_to_rgb(9), indexed_color_to_rgb(1));
    assert_eq!(indexed_color_to_rgb(15), (0xa6, 0xad, 0xc8));
    assert_eq!(indexed_color_to_rgb(16), (0, 0, 0));
    assert_eq!(indexed_color_to_rgb(196), (255, 0, 0));
    assert_eq!(indexed_color_to_rgb(231), (255, 255, 255));
    assert_eq!(indexed_color_to_rgb(232), (8, 8, 8));
    assert_eq!(indexed_color_to_rgb(255), (238, 238, 238));
}

#[test]
fn xterm_palette() {
    assert_eq!(ansi_index_to_color(1), (0xcd, 0, 0));
    assert_eq!(ansi_index_to_color(12), (0x5c, 0x5c, 0xff));
    assert_eq!(ansi_index_to_color(16), (0, 0, 0));
    assert_eq!(ansi_index_to_color(21), (0, 0, 255));
    assert_eq!(ansi_index_to_color(22), (0, 95, 0));
    assert_eq!(ansi_index_to_color(196), (255, 0, 0));
    assert_eq!(ansi_index_to_color(244), (128, 128, 128));
}

#[test]
fn hex_colors() {
    assert_eq!(parse_hex_color(" #1e1E2e "), Some((0x1e, 0x1e, 0x2e)));
    assert_eq!(parse_hex_color("#12345"), None);
    assert_eq!(parse_hex_color("1e1e2e"), None);
    assert_eq!(parse_hex_color("#gg0000"), None);
    assert_eq!(parse_hex_color("#+f0000"), Some((15, 0, 0)));
    assert_eq!(parse_param_color(Some("##ff8800"), 1, 2, 3), (255, 136, 0));
    assert_eq!(parse_param_color(Some("#zz8800"), 1, 2, 3), (1, 136, 0));
    assert_eq!(parse_param_color(Some("#fff"), 1, 2, 3), (1, 2, 3));
    assert_eq!(parse_param_color(None, 1, 2, 3), (1, 2, 3));
    assert_eq!(hex_to_rgb("#0a0b0c"), [10, 11, 12]);
    assert_eq!(hex_to_rgb("0a0b0c"), [10, 11, 12]);
    assert_eq!(hex_to_rgb("#xyz"), [255, 255, 255]);
    assert_eq!(rgb_to_hex(255, 0, 171), "#ff00ab");
    assert_eq!(rgb_to_hex(1, 2, 3), "#010203");
}

#[test]
fn parse_hex_color_multibyte_is_none() {
    assert_eq!(parse_hex_color("#aé123"), None);
    assert_eq!(parse_hex_color("#é12345"), None);
}
