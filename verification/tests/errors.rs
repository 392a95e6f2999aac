use classgen::ensure_input_is_text_file;
use classgen::MError;

#[test]
fn report_text_of_each_error_kind() {
    assert_eq!(
        MError::GenError("g".to_string()).report(),
        "Error type: General error\nError message: g"
    );
    assert_eq!(
        MError::ParseError("p".to_string()).report(),
        "Error type: Parsing error\nError message: p"
    );
    assert_eq!(
        MError::UserEnvError("u".to_string()).report(),
        "Error type: Environment error\nError message: u"
    );
    assert_eq!(
        MError::DeparseError("d".to_string()).report(),
        "Error type: Deparsing error\nError message: d"
    );
    assert_eq!(
        MError::ClassError("c".to_string()).report(),
        "Error type: Class error\nError message: c"
    );
}

#[test]
fn text_file_names_are_recognized() {
    assert!(ensure_input_is_text_file("schema.txt"));
    assert!(ensure_input_is_text_file(".txt"));
    assert!(!ensure_input_is_text_file("schema.json"));
    assert!(!ensure_input_is_text_file("schema.txt.bak"));
}
