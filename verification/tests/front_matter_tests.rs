//! Tests of front-matter metadata reading: the required and optional
//! keys, the alias spellings, and each error.

use mdman::front_matter::MetadataError;
use mdman::front_matter::build_title_line;
use mdman::front_matter::parse_front_matter;

#[test]
fn test_parse_front_matter_full() {
    let t = parse_front_matter(
        "name: mdman\nsection: 5\ndate: 2025-05-24\nleft-footer: mdman Format\ncenter-footer: File Formats\n",
    )
    .unwrap();
    assert_eq!(t.name, "mdman");
    assert_eq!(t.section, 5);
    assert_eq!(t.date.as_deref(), Some("2025-05-24"));
    assert_eq!(t.left_footer.as_deref(), Some("mdman Format"));
    assert_eq!(t.center_footer.as_deref(), Some("File Formats"));
}

#[test]
fn test_parse_front_matter_underscore_spellings() {
    let t = parse_front_matter(
        "name: tool\nsection: 1\nleft_footer: Left\ncenter_footer: Center\n",
    )
    .unwrap();
    assert_eq!(t.left_footer.as_deref(), Some("Left"));
    assert_eq!(t.center_footer.as_deref(), Some("Center"));
}

#[test]
fn test_parse_front_matter_alias_precedence() {
    let t = parse_front_matter(
        "name: tool\nsection: 1\nleft_footer: Underscore\nleft-footer: Hyphen\n",
    )
    .unwrap();
    assert_eq!(t.left_footer.as_deref(), Some("Underscore"));
}

#[test]
fn test_parse_front_matter_optional_fields_absent() {
    let t = parse_front_matter("name: tool\nsection: 1\n").unwrap();
    assert_eq!(t.date, None);
    assert_eq!(t.left_footer, None);
    assert_eq!(t.center_footer, None);
}

#[test]
fn test_parse_front_matter_missing_name() {
    let e = parse_front_matter("section: 1\n").unwrap_err();
    assert_eq!(e, MetadataError::MissingName);
}

#[test]
fn test_parse_front_matter_name_of_wrong_type() {
    let e = parse_front_matter("name: [a, b]\nsection: 1\n").unwrap_err();
    assert_eq!(e, MetadataError::MissingName);
}

#[test]
fn test_parse_front_matter_missing_section() {
    let e = parse_front_matter("name: tool\n").unwrap_err();
    assert_eq!(e, MetadataError::MissingSection);
}

#[test]
fn test_parse_front_matter_section_of_wrong_type() {
    let e = parse_front_matter("name: tool\nsection: one\n").unwrap_err();
    assert_eq!(e, MetadataError::MissingSection);
}

#[test]
fn test_parse_front_matter_section_out_of_range() {
    let e = parse_front_matter("name: tool\nsection: 300\n").unwrap_err();
    assert_eq!(e, MetadataError::SectionOutOfRange);
}

#[test]
fn test_parse_front_matter_unparsable() {
    let e = parse_front_matter("name: [unclosed\n").unwrap_err();
    assert_eq!(e, MetadataError::Unparsable);
}

#[test]
fn test_build_title_line_ok() {
    let t = build_title_line(
        Some("tool".to_string()),
        Some(3),
        None,
        Some("LF".to_string()),
        None,
    )
    .unwrap();
    assert_eq!(t.name, "tool");
    assert_eq!(t.section, 3);
    assert_eq!(t.date, None);
    assert_eq!(t.left_footer.as_deref(), Some("LF"));
    assert_eq!(t.center_footer, None);
}

#[test]
fn test_build_title_line_errors() {
    assert_eq!(
        build_title_line(None, Some(1), None, None, None).unwrap_err(),
        MetadataError::MissingName
    );
    assert_eq!(
        build_title_line(Some("t".to_string()), None, None, None, None).unwrap_err(),
        MetadataError::MissingSection
    );
    assert_eq!(
        build_title_line(Some("t".to_string()), Some(256), None, None, None).unwrap_err(),
        MetadataError::SectionOutOfRange
    );
}
