use ridgeback::wsl::{decode_wsl_output, parse_wsl_list};

#[test]
fn wsl_listing_is_parsed() {
    let text = "  NAME            STATE           VERSION\r\n* Ubuntu          Running         2\r\n  Debian          Stopped         1\r\n\r\n  Alpine\r\n";
    let distros = parse_wsl_list(text);
    assert_eq!(distros.len(), 3);
    assert_eq!(distros[0].name, "Ubuntu");
    assert!(distros[0].is_default);
    assert_eq!(distros[0].version, 2);
    assert_eq!(distros[1].name, "Debian");
    assert!(!distros[1].is_default);
    assert_eq!(distros[1].version, 1);
    assert_eq!(distros[2].name, "Alpine");
    assert_eq!(distros[2].version, 2);
}

#[test]
fn wsl_versions_that_do_not_parse_default_to_two() {
    let text = "NAME STATE VERSION\nArch Running 300\nFedora Running +1\n**Kali Stopped x\n";
    let distros = parse_wsl_list(text);
    assert_eq!(distros.len(), 3);
    assert_eq!(distros[0].version, 2);
    assert_eq!(distros[1].version, 1);
    assert_eq!(distros[2].name, "Kali");
    assert!(distros[2].is_default);
    assert_eq!(distros[2].version, 2);
}

#[test]
fn wsl_header_only_or_empty() {
    assert!(parse_wsl_list("").is_empty());
    assert!(parse_wsl_list("NAME STATE VERSION").is_empty());
    assert!(parse_wsl_list("NAME\n*\n   \n").is_empty());
}

#[test]
fn decode_wsl_output_bom_and_utf8() {
    assert_eq!(decode_wsl_output(&[0xFF, 0xFE, b'H', 0, b'i', 0]), "Hi");
    assert_eq!(decode_wsl_output(&[0xFF, 0xFE, b'H', 0, b'i']), "H");
    assert_eq!(decode_wsl_output(&[0xFF, 0xFE, 0xE9, 0x00]), "é");
    assert_eq!(decode_wsl_output(b"Ubuntu"), "Ubuntu");
    assert_eq!(decode_wsl_output(&[b'a', 0xFF, b'b']), "a\u{FFFD}b");
}

#[test]
fn decode_wsl_output_surrogates() {
    assert_eq!(decode_wsl_output(&[0xFF, 0xFE, 0x3D, 0xD8, 0x00, 0xDE]), "\u{1F600}");
    assert_eq!(decode_wsl_output(&[0xFF, 0xFE, 0x00, 0xD8, b'a', 0]), "\u{FFFD}a");
    assert_eq!(decode_wsl_output(&[0xFF, 0xFE, 0x00, 0xDC]), "\u{FFFD}");
}
