use classgen::pipeline::generate_outputs;
use classgen::MError;

#[test]
fn whole_pipeline_on_a_two_language_schema() {
    let files = generate_outputs("[ rs, c ] Node { value: String, children: List<Node> }")
        .expect("schema must be accepted");
    assert_eq!(files.len(), 2);
    assert_eq!(files[0].name, "Node.c");
    assert!(files[0].content.contains("char* value;"));
    assert!(files[0].content.contains("Node* children;"));
    assert_eq!(files[1].name, "Node.rs");
    assert!(files[1].content.contains("value: String,"));
    assert!(files[1].content.contains("children: Vec<Node>,"));
}

#[test]
fn pipeline_runs_are_deterministic() {
    let text = "[ java, cpp ] Pair { left: double, right: double }";
    let first = generate_outputs(text).expect("schema must be accepted");
    let second = generate_outputs(text).expect("schema must be accepted");
    assert_eq!(first, second);
}

#[test]
fn unbalanced_braces_stop_the_pipeline() {
    let err = generate_outputs("[ java ] A { x: int } }").expect_err("extra brace");
    match err {
        MError::ParseError(msg) => assert_eq!(msg, "File contains an extra `}`"),
        other => panic!("unexpected error kind: {:?}", other),
    }
}

#[test]
fn syntax_errors_stop_the_pipeline() {
    let err = generate_outputs("[ py ] A { x: int }").expect_err("unknown tag");
    match err {
        MError::ParseError(msg) => assert!(msg.contains("Unknown language token found")),
        other => panic!("unexpected error kind: {:?}", other),
    }
}

#[test]
fn empty_text_yields_no_outputs() {
    let files = generate_outputs("").expect("empty schema is accepted");
    assert!(files.is_empty());
}
