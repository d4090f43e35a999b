use pcapng_parse::block::HexData;
use pcapng_parse::render::make_ascii;

fn rows(dump: &str) -> Vec<&str> {
    dump.lines().collect()
}

#[test]
fn empty_region_has_no_rows() {
    assert_eq!(HexData(Vec::new()).hex_dump(), "");
}

#[test]
fn thirty_three_bytes_make_two_rows() {
    let data: Vec<u8> = (0..33u8).map(|i| b'a' + (i % 26)).collect();
    let dump = HexData(data).hex_dump();
    let lines = rows(&dump);
    assert_eq!(lines.len(), 2);
    let second = lines[1];
    let (hex, ascii) = second.split_at(96);
    let cells: Vec<&str> = hex.split_whitespace().collect();
    assert_eq!(cells.len(), 32);
    assert_eq!(cells[0], "67");
    assert!(cells[1..].iter().all(|c| *c == ".."));
    assert_eq!(ascii, " |g|");
    let first = lines[0];
    assert!(first.starts_with("61 62 63 "));
    assert!(first.ends_with(" |abcdefghijklmnopqrstuvwxyzabcdef|"));
}

#[test]
fn single_row_layout() {
    let dump = HexData(vec![0x00, 0x0A, 0x0D, 0x41, 0xFF]).hex_dump();
    let mut expected = String::from("00 0A 0D 41 FF ");
    for _ in 0..27 {
        expected.push_str(".. ");
    }
    expected.push_str(" |\u{2400}\u{240A}\u{240D}A\u{FFFD}|\n");
    assert_eq!(dump, expected);
}

#[test]
fn full_row_has_no_placeholder() {
    let dump = HexData(vec![0x20; 32]).hex_dump();
    assert!(!dump.contains(".."));
    assert_eq!(rows(&dump).len(), 1);
    assert!(dump.ends_with(&format!(" |{}|\n", " ".repeat(32))));
}

#[test]
fn every_byte_renders_deterministically() {
    for b in 0..=255u8 {
        let first = HexData(vec![b]).hex_dump();
        let second = HexData(vec![b]).hex_dump();
        assert_eq!(first, second);
        assert!(first.starts_with(&format!("{:02X} ", b)));
        let column: Vec<char> = first[96..].chars().collect();
        // a space, a bar, one glyph, a bar and the line end
        assert_eq!(column.len(), 5);
        assert_eq!(column[2], make_ascii(b as char));
    }
}

#[test]
fn glyph_mapping() {
    assert_eq!(make_ascii('a'), 'a');
    assert_eq!(make_ascii('Z'), 'Z');
    assert_eq!(make_ascii('7'), '7');
    for c in ":;@/\\|?!+*.,-_'\"=(){}[]&>< ".chars() {
        assert_eq!(make_ascii(c), c);
    }
    assert_eq!(make_ascii('\n'), '\u{240A}');
    assert_eq!(make_ascii('\r'), '\u{240D}');
    assert_eq!(make_ascii('\0'), '\u{2400}');
    assert_eq!(make_ascii('#'), '\u{FFFD}');
    assert_eq!(make_ascii('\t'), '\u{FFFD}');
    assert_eq!(make_ascii('\u{7F}'), '\u{FFFD}');
}
