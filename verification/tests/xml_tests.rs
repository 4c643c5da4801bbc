use appscreener_pattern_sync::xml::{
    hex_encode, normalize_xml, validate_xml_fragment, xml_sha256, XmlError,
};

#[test]
fn accepts_dataflow_fragment_with_two_roots() {
    let xml = r#"
<condition>
    <callExpr/>
</condition>
<taintFlowChain>
    <taintFlow/>
</taintFlowChain>
"#;

    validate_xml_fragment(xml).unwrap();
}

#[test]
fn rejects_unclosed_element() {
    let xml = "<condition><callExpr></condition>";

    assert!(validate_xml_fragment(xml).is_err());
}

#[test]
fn normalizes_bom_and_line_endings() {
    let xml = "\u{feff}<condition/>\r\n";

    assert_eq!(normalize_xml(xml), "<condition/>");
}

#[test]
fn hash_ignores_outer_whitespace_and_crlf() {
    assert_eq!(
        xml_sha256("<condition/>\r\n"),
        xml_sha256("  <condition/>\n")
    );
}

#[test]
fn normalization_keeps_inner_lone_carriage_returns() {
    assert_eq!(normalize_xml("a\r\r\nb\rc"), "a\r\nb\rc");
    assert_eq!(normalize_xml("\t x \n"), "x");
    assert_eq!(normalize_xml(" \u{feff}x"), "\u{feff}x");
}

#[test]
fn hash_is_lower_hex_sha256_of_normalized_text() {
    assert_eq!(
        xml_sha256("\u{feff}  <condition/>\r\n"),
        "22601df42df47234d08699fde08bcaaa965cdd0a5502d44722171c3dd1300230"
    );
}

#[test]
fn rejects_doctype_declaration() {
    let result = validate_xml_fragment("<!DOCTYPE x><condition/>");
    match result {
        Err(error) => {
            assert!(matches!(error, XmlError::DocType));
            assert_eq!(error.message(), "DOCTYPE declarations are not allowed");
        }
        Ok(()) => panic!("DOCTYPE must be rejected"),
    }
}

#[test]
fn rejects_xml_declaration() {
    let result = validate_xml_fragment("<?xml version=\"1.0\"?><condition/>");
    match result {
        Err(error) => {
            assert!(matches!(error, XmlError::Declaration));
            assert_eq!(
                error.message(),
                "XML declaration is not allowed in a pattern fragment"
            );
        }
        Ok(()) => panic!("an XML declaration must be rejected"),
    }
}

#[test]
fn malformed_fragment_reports_the_reader_message() {
    match validate_xml_fragment("<a></b>") {
        Err(XmlError::Malformed(message)) => assert!(!message.is_empty()),
        other => panic!("unexpected result: {other:?}"),
    }
}

#[test]
fn hex_encoding_is_two_lower_case_digits_per_byte() {
    assert_eq!(hex_encode(&vec![0x00, 0x0f, 0xa5, 0xff]), "000fa5ff");
    assert_eq!(hex_encode(&Vec::new()), "");
}
