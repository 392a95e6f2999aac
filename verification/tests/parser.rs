use classgen::language::canonical_languages;
use classgen::parser::{check_if_brackets_align, Parser};
use classgen::tokenizer::tokenize;
use classgen::types::classify_type;
use classgen::{Access, ArrayType, FieldType, Language, MError};

fn parse_ok(text: &str) -> Vec<classgen::Class> {
    let tokens = tokenize(text);
    check_if_brackets_align(&tokens).expect("brackets must balance");
    let mut parser = Parser::new();
    parser.parse(&tokens).expect("schema must parse");
    parser.get_objects()
}

fn parse_err(text: &str) -> MError {
    let tokens = tokenize(text);
    let mut parser = Parser::new();
    let err = parser.parse(&tokens).expect_err("schema must be rejected");
    assert!(parser.get_objects().is_empty());
    err
}

#[test]
fn point_class_in_java() {
    let classes = parse_ok("[ java ] Point { x: int, y: int }");
    assert_eq!(classes.len(), 1);
    let point = &classes[0];
    assert_eq!(point.get_name(), "Point");
    assert_eq!(point.languages, vec![Language::JAVA]);
    assert_eq!(point.fields.len(), 2);
    assert_eq!(point.fields[0].get_name(), "x");
    assert_eq!(point.fields[0].get_field_type(), FieldType::INTEGER);
    assert_eq!(point.fields[1].get_name(), "y");
    assert_eq!(point.fields[1].get_field_type(), FieldType::INTEGER);
    assert!(matches!(point.get_access(), Access::UNDEFINED));
}

#[test]
fn languages_are_deduplicated_and_canonically_ordered() {
    let classes = parse_ok("[ rs, rs, c ] Node { value: String }");
    assert_eq!(classes.len(), 1);
    assert_eq!(classes[0].languages, vec![Language::C, Language::RUST]);
}

#[test]
fn list_type_token_with_trailing_comma() {
    let classes = parse_ok("[ rs ] A { xs: List<int>, n: int }");
    let a = &classes[0];
    assert_eq!(a.fields.len(), 2);
    assert_eq!(a.fields[0].get_field_type(), FieldType::LIST(ArrayType::INTEGER));
    assert_eq!(a.fields[1].get_field_type(), FieldType::INTEGER);
}

#[test]
fn two_classes_in_declaration_order() {
    let classes = parse_ok("[ java ] A { x: int } [ c ] B { y: double }");
    assert_eq!(classes.len(), 2);
    assert_eq!(classes[0].get_name(), "A");
    assert_eq!(classes[1].get_name(), "B");
}

#[test]
fn parsing_twice_yields_equal_collections() {
    let text = "[ rs, c ] Node { value: String, children: List<Node> }";
    let first = parse_ok(text);
    let second = parse_ok(text);
    assert_eq!(first, second);
}

#[test]
fn scalar_and_custom_type_classification() {
    assert_eq!(classify_type("String"), FieldType::STRING);
    assert_eq!(classify_type("int"), FieldType::INTEGER);
    assert_eq!(classify_type("bool"), FieldType::BOOL);
    assert_eq!(classify_type("double"), FieldType::DOUBLE);
    assert_eq!(classify_type("char"), FieldType::CHAR);
    assert_eq!(classify_type("Widget"), FieldType::CUSTOM("Widget".to_string()));
}

#[test]
fn bracketed_type_classification() {
    assert_eq!(classify_type("grid[double]"), FieldType::ARRAY(ArrayType::DOUBLE));
    assert_eq!(
        classify_type("names[Str]"),
        FieldType::ARRAY(ArrayType::CUSTOM("Str".to_string()))
    );
    assert_eq!(classify_type("List<int>"), FieldType::LIST(ArrayType::INTEGER));
    assert_eq!(
        classify_type("Vec<Node>"),
        FieldType::LIST(ArrayType::CUSTOM("Node".to_string()))
    );
}

#[test]
fn array_detection_comes_before_list_detection() {
    assert_eq!(classify_type("both[int]<char>"), FieldType::ARRAY(ArrayType::INTEGER));
}

#[test]
fn unknown_language_tag_is_rejected() {
    let err = parse_err("[ py ] A { x: int }");
    match err {
        MError::ParseError(msg) => assert!(msg.contains("Unknown language token found")),
        other => panic!("unexpected error kind: {:?}", other),
    }
}

#[test]
fn empty_language_list_is_rejected() {
    let err = parse_err("[ ] A { x: int }");
    match err {
        MError::ParseError(msg) => {
            assert_eq!(msg, "Expected at least one language tag between `[` and `]`")
        },
        other => panic!("unexpected error kind: {:?}", other),
    }
}

#[test]
fn incomplete_language_list_yields_no_classes() {
    let classes = parse_ok("[ rs");
    assert!(classes.is_empty());
}

#[test]
fn missing_opening_bracket_is_rejected() {
    let err = parse_err("Point { x: int }");
    match err {
        MError::ParseError(msg) => {
            assert_eq!(msg, "Expected object to start with `[` but found Point")
        },
        other => panic!("unexpected error kind: {:?}", other),
    }
}

#[test]
fn token_without_colon_is_no_field_name() {
    let err = parse_err("[ java ] A { 5 }");
    match err {
        MError::ParseError(msg) => {
            assert_eq!(msg, "Unknown token found. Expected field but found '5'")
        },
        other => panic!("unexpected error kind: {:?}", other),
    }
}

#[test]
fn brace_cannot_stand_as_field_type() {
    let err = parse_err("[ java ] A { x: {");
    match err {
        MError::ParseError(msg) => assert_eq!(msg, "Cannot have `{` as a field type."),
        other => panic!("unexpected error kind: {:?}", other),
    }
}

#[test]
fn second_type_without_field_name_is_rejected() {
    let err = parse_err("[ java ] A { x: int int }");
    match err {
        MError::ParseError(msg) => {
            assert_eq!(msg, "Error getting the value of the current field")
        },
        other => panic!("unexpected error kind: {:?}", other),
    }
}

#[test]
fn extra_closing_brace_is_rejected_by_the_validator() {
    let tokens = tokenize("[ java ] A { x: int } }");
    let err = check_if_brackets_align(&tokens).expect_err("imbalance must be reported");
    match err {
        MError::ParseError(msg) => assert_eq!(msg, "File contains an extra `}`"),
        other => panic!("unexpected error kind: {:?}", other),
    }
}

#[test]
fn unmatched_opening_brace_is_rejected_by_the_validator() {
    let tokens = tokenize("[ java ] A { x: int");
    let err = check_if_brackets_align(&tokens).expect_err("imbalance must be reported");
    match err {
        MError::ParseError(msg) => assert_eq!(msg, "File contains an unmatched `{`"),
        other => panic!("unexpected error kind: {:?}", other),
    }
}

#[test]
fn balanced_braces_pass_the_validator() {
    let tokens = tokenize("{ } { { } }");
    assert!(check_if_brackets_align(&tokens).is_ok());
    let empty: Vec<String> = Vec::new();
    assert!(check_if_brackets_align(&empty).is_ok());
}

#[test]
fn canonical_languages_sorts_and_deduplicates() {
    let langs = vec![Language::RUST, Language::TYPESCRIPT, Language::RUST, Language::JAVA];
    assert_eq!(
        canonical_languages(&langs),
        vec![Language::JAVA, Language::TYPESCRIPT, Language::RUST]
    );
    let empty: Vec<Language> = Vec::new();
    assert!(canonical_languages(&empty).is_empty());
}

#[test]
fn reset_current_field_clears_the_pending_name() {
    let mut parser = Parser::new();
    parser.current_field_name = Some("x".to_string());
    parser.reset_current_field();
    assert!(parser.current_field_name.is_none());
}
