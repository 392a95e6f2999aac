use classgen::tokenizer::{join_with_spaces, tokenize};

#[test]
fn splits_on_spaces_tabs_and_newlines() {
    let toks = tokenize("[java] A {\n\tx: int\n}");
    assert_eq!(toks, vec!["[java]", "A", "{", "x:", "int", "}"]);
}

#[test]
fn drops_empty_pieces() {
    let toks = tokenize("  a \t\t b \n\n c  ");
    assert_eq!(toks, vec!["a", "b", "c"]);
}

#[test]
fn empty_text_gives_no_tokens() {
    let toks = tokenize("");
    assert!(toks.is_empty());
    let toks = tokenize(" \t\n ");
    assert!(toks.is_empty());
}

#[test]
fn single_token_without_delimiters() {
    let toks = tokenize("hello");
    assert_eq!(toks, vec!["hello"]);
}

#[test]
fn tokenization_is_idempotent_after_rejoining() {
    let toks = tokenize("a  b\nc\td");
    let joined = join_with_spaces(&toks);
    assert_eq!(joined, "a b c d");
    assert_eq!(tokenize(&joined), toks);
}

#[test]
fn join_of_no_tokens_is_empty() {
    let toks: Vec<String> = Vec::new();
    assert_eq!(join_with_spaces(&toks), "");
}
