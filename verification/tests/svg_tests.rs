use oelimg_rs::error::ImageError;
use oelimg_rs::svg::{is_svg_bytes, validate_svg_content};

#[test]
fn test_detect_svg_simple() {
    let svg = b"<svg xmlns=\"http://www.w3.org/2000/svg\" width=\"100\" height=\"200\"></svg>";
    assert!(is_svg_bytes(svg));
}

#[test]
fn test_detect_svg_with_xml_declaration() {
    let svg = b"<?xml version=\"1.0\"?>\n<svg xmlns=\"http://www.w3.org/2000/svg\"></svg>";
    assert!(is_svg_bytes(svg));
}

#[test]
fn test_not_svg() {
    let not_svg = b"\x89PNG\r\n\x1a\n";
    assert!(!is_svg_bytes(not_svg));
}

#[test]
fn sniff_accepts_svg_openings() {
    assert!(is_svg_bytes(b"<svg xmlns=\"http://www.w3.org/2000/svg\" width=\"100\" height=\"200\"></svg>"));
    assert!(is_svg_bytes(b"   \n\t<SVG width='1'></SVG>"));
    assert!(is_svg_bytes(b"<!DOCTYPE svg PUBLIC \"x\"><svg></svg>"));
    assert!(is_svg_bytes("\u{3000}< s v g >   </svg>".as_bytes()));
    assert!(is_svg_bytes("\u{a0}<svg>\u{2028}</svg>".as_bytes()));
}

#[test]
fn sniff_rejects_other_content() {
    assert!(!is_svg_bytes(b"<svg/>"));
    assert!(!is_svg_bytes(b"<html><body></body></html>"));
    assert!(!is_svg_bytes(b"<?xml version='1.0'?><note></note>"));
    assert!(!is_svg_bytes(b"hello <svg></svg>"));
    assert!(!is_svg_bytes(b"<svg \xff\xfe></svg>"));
    assert!(!is_svg_bytes("\u{e9}<svg></svg>".as_bytes()));
}

#[test]
fn sniff_reads_only_first_kilobyte() {
    let mut late = b"<?xml version='1.0'?>".to_vec();
    late.extend(std::iter::repeat(b'a').take(1100));
    late.extend_from_slice(b"<svg></svg>");
    assert!(!is_svg_bytes(&late));

    let mut early = b"<?xml version='1.0'?><svg>".to_vec();
    early.extend(std::iter::repeat(b'a').take(1100));
    assert!(is_svg_bytes(&early));

    // A character cut at byte 1024 makes the sniffed prefix invalid UTF-8.
    let mut cut = b"<svg>".to_vec();
    cut.extend(std::iter::repeat(b'a').take(1018));
    cut.extend_from_slice("\u{e9}".as_bytes());
    assert_eq!(cut.len(), 1025);
    assert!(!is_svg_bytes(&cut));
}

#[test]
fn validation_reports_each_failure() {
    assert_eq!(validate_svg_content(b"<svg width='2'></svg>"), Ok(()));
    assert_eq!(validate_svg_content(b"not an svg at all"), Err(ImageError::NotSvg));
    let mut bad_tail = b"<svg width='2'></svg>".to_vec();
    bad_tail.extend(std::iter::repeat(b' ').take(1100));
    bad_tail.push(0xff);
    assert_eq!(validate_svg_content(&bad_tail), Err(ImageError::InvalidUtf8));
    assert_eq!(validate_svg_content(b"<s vg width='2'></svg>"), Err(ImageError::MissingSvgElement));
    assert_eq!(validate_svg_content(b"<SVG width='2'></SVG>"), Err(ImageError::NoOpeningSvgTag));
}
