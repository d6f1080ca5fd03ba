use cage::chunker::jsonm_scan::{CharType, JsonmProcessor};

#[test]
fn test_character_classification() {
    let processor = JsonmProcessor::new();

    assert_eq!(processor.classify_character('{'), CharType::Structure);
    assert_eq!(processor.classify_character('a'), CharType::Alphanumeric);
    assert_eq!(processor.classify_character('5'), CharType::Numeric);
    assert_eq!(processor.classify_character(' '), CharType::Whitespace);
}
