use nuzon::edi::{EdiError, EdiParser, ParserConfig};

const SAMPLE_EDIFACT: &str =
    "UNB+UNOA:1+SenderID+RecipientID+230516:1345+123456++1234'UNH+1+ORDERS:D:01B:UN'...";

#[test]
fn test_full_parse() {
    let config = ParserConfig {
        allowed_versions: vec!["01B".into()],
        ..Default::default()
    };

    let mut parser = EdiParser::new(SAMPLE_EDIFACT, config).unwrap();
    let interchange = parser.parse_interchange().unwrap();

    assert_eq!(interchange.unb.sender_identification, "SenderID");
    assert_eq!(interchange.messages.len(), 1);
}

#[test]
fn unb_fields_are_split_correctly() {
    let mut parser = EdiParser::new(SAMPLE_EDIFACT, ParserConfig::default()).unwrap();
    let interchange = parser.parse_interchange().unwrap();
    let unb = &interchange.unb;
    assert_eq!(unb.syntax_identifier, "UNOA");
    assert_eq!(unb.syntax_version, "1");
    assert_eq!(unb.recipient_identification, "RecipientID");
    assert_eq!(unb.preparation_time, "230516:1345");
    assert_eq!(unb.control_reference, "123456");
    assert_eq!(unb.application_reference, "1234");
}

#[test]
fn message_header_components() {
    let mut parser = EdiParser::new(SAMPLE_EDIFACT, ParserConfig::default()).unwrap();
    let interchange = parser.parse_interchange().unwrap();
    let unh = &interchange.messages[0].unh;
    assert_eq!(unh.message_reference_number, "1");
    assert_eq!(unh.message_identifier, "ORDERS");
    assert_eq!(unh.message_version, "D");
    assert_eq!(unh.message_release, "01B");
    assert_eq!(unh.controlling_agency, "UN");
}

#[test]
fn complete_interchange_with_trailers() {
    let input = "UNB+UNOA:1+S+R+230516:1345+42'UNH+7+ORDERS:D:01B:UN'BGM+220+PO1'\
UNT+3+7'UNZ+1+42'";
    let mut parser = EdiParser::new(input, ParserConfig::default()).unwrap();
    let interchange = parser.parse_interchange().unwrap();
    assert_eq!(interchange.messages.len(), 1);
    let msg = &interchange.messages[0];
    assert_eq!(msg.segments.len(), 1);
    assert_eq!(msg.segments[0].tag, "BGM");
    assert_eq!(msg.segments[0].elements[0].components[0], "220");
    assert_eq!(msg.unt.segment_count, 3);
    assert_eq!(msg.unt.message_reference_number, "7");
    assert_eq!(interchange.unz.interchange_control_count, 1);
    assert_eq!(interchange.unz.interchange_control_reference, "42");
}

#[test]
fn una_advice_overrides_delimiters() {
    // UNA defines: component ';', data ',', decimal '.', escape '?',
    // reserved ' ', terminator '|'.
    let input = "UNA;,.? |UNB,UNOA;1,Sender,Recipient,230516;1345,99|";
    let mut parser = EdiParser::new(input, ParserConfig::default()).unwrap();
    let interchange = parser.parse_interchange().unwrap();
    assert_eq!(interchange.unb.sender_identification, "Sender");
    assert_eq!(interchange.unb.syntax_version, "1");
}

#[test]
fn truncated_una_is_rejected() {
    let outcome = EdiParser::new("UNA;,", ParserConfig::default());
    assert!(matches!(outcome, Err(EdiError::InvalidServiceStringAdvice)));
}

#[test]
fn escape_character_makes_separator_literal() {
    let input = "UNB+UNOA:1+A?+B+R+T+17'";
    let mut parser = EdiParser::new(input, ParserConfig::default()).unwrap();
    let interchange = parser.parse_interchange().unwrap();
    assert_eq!(interchange.unb.sender_identification, "A+B");
}

#[test]
fn strict_mode_requires_trailers() {
    let config = ParserConfig {
        strict_mode: true,
        ..Default::default()
    };
    let input = "UNB+UNOA:1+S+R+230516:1345+42'UNH+1+ORDERS:D:01B:UN'";
    let mut parser = EdiParser::new(input, config).unwrap();
    let err = parser.parse_interchange().unwrap_err();
    assert!(matches!(err, EdiError::MandatoryElementMissing));

    let strict = ParserConfig {
        strict_mode: true,
        ..Default::default()
    };
    let mut parser = EdiParser::new(SAMPLE_EDIFACT, strict).unwrap();
    let err = parser.parse_interchange().unwrap_err();
    assert!(matches!(err, EdiError::SyntaxError { .. }));
}

#[test]
fn unsupported_version_is_rejected() {
    let config = ParserConfig {
        allowed_versions: vec!["02B".into()],
        ..Default::default()
    };
    let mut parser = EdiParser::new(SAMPLE_EDIFACT, config).unwrap();
    let err = parser.parse_interchange().unwrap_err();
    assert!(matches!(err, EdiError::UnsupportedVersion(v) if v == "01B"));
}

#[test]
fn mismatched_control_reference_fails_validation() {
    let input = "UNB+UNOA:1+S+R+230516:1345+42'UNH+7+ORDERS:D:01B:UN'UNT+2+7'UNZ+1+43'";
    let mut parser = EdiParser::new(input, ParserConfig::default()).unwrap();
    let err = parser.parse_interchange().unwrap_err();
    assert!(matches!(err, EdiError::ValidationError(_)));
}

#[test]
fn mismatched_message_count_fails_validation() {
    let input = "UNB+UNOA:1+S+R+230516:1345+42'UNH+7+ORDERS:D:01B:UN'UNT+2+7'UNZ+2+42'";
    let mut parser = EdiParser::new(input, ParserConfig::default()).unwrap();
    let err = parser.parse_interchange().unwrap_err();
    assert!(matches!(err, EdiError::ValidationError(_)));
}

#[test]
fn missing_unb_is_a_syntax_error() {
    let mut parser = EdiParser::new("UNH+1+ORDERS:D:01B:UN'", ParserConfig::default()).unwrap();
    let err = parser.parse_interchange().unwrap_err();
    assert!(matches!(err, EdiError::SyntaxError { .. }));
}

#[test]
fn overlong_element_is_a_syntax_error() {
    let config = ParserConfig {
        max_segment_length: 4,
        ..Default::default()
    };
    let mut parser = EdiParser::new("UNB+UNOA:1+TooLongSender+R+T+17'", config).unwrap();
    let err = parser.parse_interchange().unwrap_err();
    assert!(matches!(err, EdiError::SyntaxError { .. }));
}
