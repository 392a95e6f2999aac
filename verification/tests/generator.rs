use classgen::deparser::{
    construct_c_structs, construct_cpp_class, construct_java_class, construct_rust_structs,
    construct_ts_class, DeParser,
};
use classgen::parser::{check_if_brackets_align, Parser};
use classgen::tokenizer::tokenize;
use classgen::{Access, Class, Field, FieldType, Language};

fn parse_ok(text: &str) -> Vec<Class> {
    let tokens = tokenize(text);
    check_if_brackets_align(&tokens).expect("brackets must balance");
    let mut parser = Parser::new();
    parser.parse(&tokens).expect("schema must parse");
    parser.get_objects()
}

#[test]
fn java_point_declaration() {
    let classes = parse_ok("[ java ] Point { x: int, y: int }");
    let out = construct_java_class(&classes[0]);
    assert_eq!(out, "class Point { \n\tint x; \n\tint y; \n} \n \n");
    let x_at = out.find("int x;").expect("x line present");
    let y_at = out.find("int y;").expect("y line present");
    assert!(x_at < y_at);
}

#[test]
fn node_in_rust_and_c() {
    let classes = parse_ok("[ rs, c ] Node { value: String, children: List<Node> }");
    let deparser = DeParser::new(classes);
    let outputs = deparser.construct();
    assert_eq!(outputs.len(), 2);
    assert_eq!(outputs[0].name, "Node.c");
    assert_eq!(outputs[1].name, "Node.rs");
    let c_out = &outputs[0].content;
    assert!(c_out.contains("typedef struct Node {"));
    assert!(c_out.contains("char* value;"));
    assert!(c_out.contains("Node* children;"));
    assert!(c_out.contains("} Node;"));
    let rust_out = &outputs[1].content;
    assert!(rust_out.contains("struct Node {"));
    assert!(rust_out.contains("value: String,"));
    assert!(rust_out.contains("children: Vec<Node>,"));
}

#[test]
fn generation_is_deterministic() {
    let classes = parse_ok("[ java, ts, c, cpp, rs ] P { a: bool, b: nums<Str> }");
    let deparser = DeParser::new(classes);
    let first = deparser.construct();
    let second = deparser.construct();
    assert_eq!(first, second);
    assert_eq!(first.len(), 5);
    assert_eq!(first[0].name, "P.java");
    assert_eq!(first[1].name, "P.ts");
    assert_eq!(first[2].name, "P.c");
    assert_eq!(first[3].name, "P.cpp");
    assert_eq!(first[4].name, "P.rs");
}

#[test]
fn field_access_keywords_in_java_and_rust() {
    let mut class = Class::new("Conf".to_string(), &[Language::JAVA], Access::UNDEFINED);
    class.add_field(Field::new("a".to_string(), FieldType::STRING, Access::PUBLIC));
    class.add_field(Field::new("b".to_string(), FieldType::BOOL, Access::PRIVATE));
    class.add_field(Field::new("c".to_string(), FieldType::INTEGER, Access::UNDEFINED));
    assert_eq!(
        class.get_java_fields(),
        "\tpublic String a; \n\tprivate boolean b; \n\tint c; \n"
    );
    assert_eq!(class.get_rust_fields(), "\n\tpub a: String,\n\tb: bool,\n\tc: i32,\n");
}

#[test]
fn typescript_member_lines() {
    let mut class = Class::new("W".to_string(), &[Language::TYPESCRIPT], Access::UNDEFINED);
    class.add_field(Field::new("title".to_string(), FieldType::STRING, Access::UNDEFINED));
    class.add_field(
        Field::new(
            "tags".to_string(),
            FieldType::LIST(classgen::ArrayType::STRING),
            Access::UNDEFINED,
        ),
    );
    assert_eq!(class.get_ts_fields(), "\ttitle: string; \n\ttags: Array<string>; \n");
    assert_eq!(construct_ts_class(&class), "class W { \n\ttitle: string; \n\ttags: Array<string>; \n} \n \n");
}

#[test]
fn c_custom_types_carry_the_struct_keyword() {
    let mut class = Class::new("N".to_string(), &[Language::C], Access::UNDEFINED);
    class.add_field(Field::new("next".to_string(), FieldType::CUSTOM("N".to_string()), Access::UNDEFINED));
    assert_eq!(class.get_c_fields(), "\tstruct N next; \n");
    assert_eq!(construct_c_structs(&class), "typedef struct N { \n\tstruct N next; \n} N;\n \n");
}

#[test]
fn cpp_members_sit_under_one_public_block() {
    let mut class = Class::new("V".to_string(), &[Language::CPP], Access::UNDEFINED);
    class.add_field(Field::new("xs".to_string(), FieldType::LIST(classgen::ArrayType::INTEGER), Access::PRIVATE));
    let out = construct_cpp_class(&class);
    assert_eq!(out, "class V {\n \tpublic: \n \t \tvector<int> xs;\n\t\t\n}; \n \n");
    assert!(!out.contains("private"));
}

#[test]
fn rust_struct_declaration_is_pub_only_for_public_classes() {
    let mut public_class = Class::new("P".to_string(), &[Language::RUST], Access::PUBLIC);
    public_class.add_field(Field::new("n".to_string(), FieldType::DOUBLE, Access::UNDEFINED));
    let out = construct_rust_structs(&public_class);
    assert_eq!(out, "pub struct P { \n\tn: f32,\n}\n \n ");

    let private_class = Class::new("Q".to_string(), &[Language::RUST], Access::PRIVATE);
    assert_eq!(construct_rust_structs(&private_class), "struct Q { \n}\n \n ");
}

#[test]
fn classes_with_empty_language_lists_generate_nothing() {
    let class = Class::new("Zero".to_string(), &[], Access::UNDEFINED);
    let deparser = DeParser::new(vec![class]);
    assert!(deparser.construct().is_empty());
}

#[test]
fn array_types_render_with_target_language_names() {
    let mut class = Class::new("B".to_string(), &[Language::JAVA], Access::UNDEFINED);
    class.add_field(Field::new(
        "flags".to_string(),
        FieldType::ARRAY(classgen::ArrayType::BOOL),
        Access::UNDEFINED,
    ));
    class.add_field(Field::new(
        "counts".to_string(),
        FieldType::ARRAY(classgen::ArrayType::INTEGER),
        Access::UNDEFINED,
    ));
    assert_eq!(class.get_java_fields(), "\tboolean[] flags; \n\tint[] counts; \n");
    assert_eq!(
        class.get_ts_fields(),
        "\tflags: boolean[]; \n\tcounts: number[]; \n"
    );
}

#[test]
fn typescript_string_arrays_use_typescript_names() {
    let mut class = Class::new("S".to_string(), &[Language::TYPESCRIPT], Access::UNDEFINED);
    class.add_field(Field::new(
        "names".to_string(),
        FieldType::ARRAY(classgen::ArrayType::STRING),
        Access::UNDEFINED,
    ));
    class.add_field(Field::new(
        "initials".to_string(),
        FieldType::ARRAY(classgen::ArrayType::CHAR),
        Access::UNDEFINED,
    ));
    assert_eq!(
        class.get_ts_fields(),
        "\tnames: string[]; \n\tinitials: string[]; \n"
    );
}

#[test]
fn cpp_string_arrays_carry_the_pointer_star() {
    let mut class = Class::new("T".to_string(), &[Language::CPP], Access::UNDEFINED);
    class.add_field(Field::new(
        "names".to_string(),
        FieldType::ARRAY(classgen::ArrayType::STRING),
        Access::UNDEFINED,
    ));
    assert_eq!(class.get_cpp_fields(), "\n \tpublic: \n \t \tstring* names;\n\t\t\n");
}

#[test]
fn rust_double_arrays_and_lists_render_f32() {
    let mut class = Class::new("D".to_string(), &[Language::RUST], Access::UNDEFINED);
    class.add_field(Field::new(
        "samples".to_string(),
        FieldType::ARRAY(classgen::ArrayType::DOUBLE),
        Access::UNDEFINED,
    ));
    class.add_field(Field::new(
        "series".to_string(),
        FieldType::LIST(classgen::ArrayType::DOUBLE),
        Access::UNDEFINED,
    ));
    assert_eq!(
        class.get_rust_fields(),
        "\n\tsamples: [f32],\n\tseries: Vec<f32>,\n"
    );
}
