use cpu_affinity_tool::url_file::{decode_url_file, url_from_text, url_scheme};

fn url_of_bytes(bytes: &[u8]) -> Result<String, String> {
    let content = decode_url_file(bytes).ok_or("Failed to decode .url file using UTF-8 or ANSI")?;
    url_from_text(&content)
}

#[test]
fn test_parse_url_file_decodes_utf8() {
    let bytes = "[InternetShortcut]\nURL=https://example.com/path\n".as_bytes();
    let url = url_of_bytes(bytes).unwrap();
    assert_eq!(url, "https://example.com/path");
}

#[test]
fn test_parse_url_file_decodes_utf16le_bom() {
    let mut bytes = vec![0xFF, 0xFE];
    for unit in "[InternetShortcut]\nURL=https://example.com/bom\n".encode_utf16() {
        bytes.extend_from_slice(&unit.to_le_bytes());
    }
    let url = url_of_bytes(&bytes).unwrap();
    assert_eq!(url, "https://example.com/bom");
}

#[test]
fn url_file_decodes_utf16be_bom() {
    let mut bytes = vec![0xFE, 0xFF];
    for unit in "[InternetShortcut]\r\nURL= steam://run/42 \r\n".encode_utf16() {
        bytes.extend_from_slice(&unit.to_be_bytes());
    }
    let text = decode_url_file(&bytes).unwrap();
    assert_eq!(text, "[InternetShortcut]\r\nURL= steam://run/42 \r\n");
    assert_eq!(url_from_text(&text).unwrap(), "steam://run/42");
}

#[test]
fn url_file_utf16_replaces_unpaired_surrogate() {
    let bytes = vec![0xFF, 0xFE, 0x41, 0x00, 0x00, 0xD8, 0x42, 0x00, 0x7F];
    assert_eq!(decode_url_file(&bytes).unwrap(), "A\u{FFFD}B");
}

#[test]
fn url_file_invalid_utf8_is_not_decoded() {
    assert_eq!(decode_url_file(&[0x55, 0xC3, 0x28]), None);
}

#[test]
fn url_file_first_url_line_wins() {
    let text = "URLX=no\nURL=first\nURL=second";
    assert_eq!(url_from_text(text).unwrap(), "first");
}

#[test]
fn url_file_without_url_line_is_refused() {
    assert_eq!(url_from_text("[InternetShortcut]\nIconFile=x\n"), Err("URL= not found".to_string()));
    assert_eq!(url_from_text(""), Err("URL= not found".to_string()));
}

#[test]
fn url_scheme_takes_text_before_first_colon() {
    assert_eq!(url_scheme("steam://rungameid/1").unwrap(), "steam");
    assert_eq!(url_scheme("mailto:a:b").unwrap(), "mailto");
    assert_eq!(url_scheme("nocolon").unwrap(), "nocolon");
}

#[test]
fn url_scheme_empty_is_refused() {
    assert_eq!(url_scheme(":x"), Err("Invalid URL (no scheme): :x".to_string()));
    assert_eq!(url_scheme(""), Err("Invalid URL (no scheme): ".to_string()));
}
