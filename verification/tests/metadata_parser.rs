use dab_radio::services::metadata_parser::{get_simulated_dls, DlsParser, SlsParser};

#[test]
fn test_dls_parser_complete_label() {
    let mut parser = DlsParser::new();

    // Simulate a single-segment DLS with 'last' flag set
    let data = vec![
        0b1010_0000, // toggle=1, first=0, last=1
        b'H', b'e', b'l', b'l', b'o',
    ];

    let result = parser.process_segment(&data);
    assert!(result.is_some());
    assert_eq!(result.unwrap(), "Hello");
}

#[test]
fn dls_same_toggle_repeat_is_the_same_label() {
    let mut parser = DlsParser::new();
    let data = [0xA0, b'H', b'e', b'l', b'l', b'o'];
    assert_eq!(parser.process_segment(&data), Some("Hello".to_string()));
    assert_eq!(parser.process_segment(&data), None);
    assert_eq!(parser.current_label(), "Hello");
}

#[test]
fn dls_segments_assemble_and_repeat_is_quiet() {
    let mut parser = DlsParser::new();
    assert_eq!(parser.process_segment(&[0b1100_0000, b'N', b'o', b'w', b' ']), None);
    assert_eq!(
        parser.process_segment(&[0b1010_0000, b'P', b'l', b'a', b'y', b'i', b'n', b'g']),
        Some("Now Playing".to_string())
    );
    assert_eq!(parser.current_label(), "Now Playing");
    // same toggle, the same label sent again: not reported again
    assert_eq!(parser.process_segment(&[0b1100_0000, b'N', b'o', b'w', b' ']), None);
    assert_eq!(parser.process_segment(&[0b1010_0000, b'P', b'l', b'a', b'y', b'i', b'n', b'g']), None);
    assert_eq!(parser.current_label(), "Now Playing");
    // toggle flips: a new label
    assert_eq!(
        parser.process_segment(&[0b0010_0000, b'N', b'o', b'w', b' ', b'P', b'l', b'a', b'y', b'i', b'n', b'g', b'!']),
        Some("Now Playing!".to_string())
    );
    // toggle flips again but the text is the same: not reported
    assert_eq!(
        parser.process_segment(&[0b1010_0000, b'N', b'o', b'w', b' ', b'P', b'l', b'a', b'y', b'i', b'n', b'g', b'!']),
        None
    );
    // too short segments are ignored
    assert_eq!(parser.process_segment(&[0b1010_0000]), None);
    // whitespace-only labels are not reported
    let mut p2 = DlsParser::new();
    assert_eq!(p2.process_segment(&[0b1010_0000, b' ', b' ']), None);
    assert_eq!(p2.current_label(), "");
}

#[test]
fn test_simulated_dls() {
    let dls = get_simulated_dls(0x1001);
    assert!(dls.contains("triple j"));
}

#[test]
fn simulated_dls_texts() {
    assert_eq!(get_simulated_dls(0x7001), "triple j - Playing the hottest music");
    assert_eq!(get_simulated_dls(0x4002), "Double J - Music for grown-ups");
    assert_eq!(get_simulated_dls(0x400A), "Talk radio - News, sport, and opinion");
    assert_eq!(get_simulated_dls(0x1006), "triple j Unearthed - Discovering new Australian music");
    assert_eq!(get_simulated_dls(0x9999), "DAB+ Digital Radio");
}

fn header_segment(transport: u16, size: u32, b8: u8, b9: u8, body: &[u8]) -> Vec<u8> {
    let mut seg = vec![0, 0, (transport >> 8) as u8, transport as u8];
    seg.push((size >> 20) as u8);
    seg.push((size >> 12) as u8);
    seg.push((size >> 4) as u8);
    seg.push(((size & 0xF) << 4) as u8);
    seg.push(b8);
    seg.push(b9);
    seg.push(0);
    seg.push(0);
    seg.extend_from_slice(body);
    seg
}

#[test]
fn sls_image_in_one_header_segment() {
    let mut parser = SlsParser::new();
    // content type 2 (image), sub type 1 (JPEG), 4 byte body
    let seg = header_segment(7, 4, 2 << 1, 1, &[1, 2, 3, 4, 5]);
    let (ct, data) = parser.process_segment(&seg).unwrap();
    assert_eq!(ct, "image/jpeg");
    assert_eq!(data, vec![1, 2, 3, 4]);
}

#[test]
fn sls_image_over_several_segments() {
    let mut parser = SlsParser::new();
    let seg0 = header_segment(9, 5, 2 << 1, 3, &[10, 11]);
    assert_eq!(parser.process_segment(&seg0), None);
    assert_eq!(parser.process_segment(&[0, 1, 0, 9, 12, 13]), None);
    let (ct, data) = parser.process_segment(&[0, 2, 0, 9, 14, 15]).unwrap();
    assert_eq!(ct, "image/png");
    assert_eq!(data, vec![10, 11, 12, 13, 14]);
    // a new transport id starts over
    assert_eq!(parser.process_segment(&[0, 1, 0, 10, 1, 2, 3]), None);
}

#[test]
fn sls_content_types() {
    let mut parser = SlsParser::new();
    let (ct, _) = parser.process_segment(&header_segment(1, 1, 2 << 1, 0, &[0])).unwrap();
    assert_eq!(ct, "image/gif");
    let (ct, _) = parser.process_segment(&header_segment(2, 1, 2 << 1, 2, &[0])).unwrap();
    assert_eq!(ct, "image/bmp");
    let (ct, _) = parser.process_segment(&header_segment(3, 1, (2 << 1) | 1, 44, &[0])).unwrap();
    assert_eq!(ct, "image/unknown-300");
    let (ct, _) = parser.process_segment(&header_segment(4, 1, 2 << 1, 7, &[0])).unwrap();
    assert_eq!(ct, "image/unknown-7");
    let (ct, _) = parser.process_segment(&header_segment(5, 1, 5 << 1, 0, &[0])).unwrap();
    assert_eq!(ct, "application/octet-stream");
    // short segments are ignored
    assert_eq!(parser.process_segment(&[0, 0, 0]), None);
}
