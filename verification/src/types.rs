//! Access levels and the closed field-type model, together with the textual
//! classification of a raw field-type token into that model.

use vstd::prelude::*;

use crate::strutil::{find_char, lemma_spec_find, spec_find, str_eq};

verus! {

/// Access level of a class or of a field.
#[allow(non_camel_case_types)]
#[derive(Clone, Copy, Debug, PartialEq, Eq, Structural)]
pub enum Access {
    PRIVATE,
    PUBLIC,
    UNDEFINED,
}

/// Element type inside a one-level array or list wrapper.
#[allow(non_camel_case_types)]
#[derive(Clone, Debug, PartialEq, Eq)]
pub enum ArrayType {
    INTEGER,
    STRING,
    BOOL,
    CHAR,
    DOUBLE,
    CUSTOM(String),
}

/// The type of a field: a scalar, a custom nominal type, or one level of
/// array or list wrapping around an element type.
#[allow(non_camel_case_types)]
#[derive(Clone, Debug, PartialEq, Eq)]
pub enum FieldType {
    INTEGER,
    STRING,
    BOOL,
    ARRAY(ArrayType),
    CHAR,
    DOUBLE,
    CUSTOM(String),
    LIST(ArrayType),
    UNDEFINED,
}

/// Mathematical view of `ArrayType`.
#[allow(non_camel_case_types)]
pub enum ArrayTypeV {
    INTEGER,
    STRING,
    BOOL,
    CHAR,
    DOUBLE,
    CUSTOM(Seq<char>),
}

/// Mathematical view of `FieldType`.
#[allow(non_camel_case_types)]
pub enum FieldTypeV {
    INTEGER,
    STRING,
    BOOL,
    ARRAY(ArrayTypeV),
    CHAR,
    DOUBLE,
    CUSTOM(Seq<char>),
    LIST(ArrayTypeV),
    UNDEFINED,
}

impl View for ArrayType {
    type V = ArrayTypeV;

    open spec fn view(&self) -> ArrayTypeV {
        match self {
            ArrayType::INTEGER => ArrayTypeV::INTEGER,
            ArrayType::STRING => ArrayTypeV::STRING,
            ArrayType::BOOL => ArrayTypeV::BOOL,
            ArrayType::CHAR => ArrayTypeV::CHAR,
            ArrayType::DOUBLE => ArrayTypeV::DOUBLE,
            ArrayType::CUSTOM(name) => ArrayTypeV::CUSTOM(name@),
        }
    }
}

impl View for FieldType {
    type V = FieldTypeV;

    open spec fn view(&self) -> FieldTypeV {
        match self {
            FieldType::INTEGER => FieldTypeV::INTEGER,
            FieldType::STRING => FieldTypeV::STRING,
            FieldType::BOOL => FieldTypeV::BOOL,
            FieldType::ARRAY(elem) => FieldTypeV::ARRAY(elem@),
            FieldType::CHAR => FieldTypeV::CHAR,
            FieldType::DOUBLE => FieldTypeV::DOUBLE,
            FieldType::CUSTOM(name) => FieldTypeV::CUSTOM(name@),
            FieldType::LIST(elem) => FieldTypeV::LIST(elem@),
            FieldType::UNDEFINED => FieldTypeV::UNDEFINED,
        }
    }
}

/// A structural copy of `t` with an equal view (the derived `Clone` carries
/// no specification usable in proofs).
pub fn duplicate_array_type(t: &ArrayType) -> (r: ArrayType)
    ensures
        r@ == t@,
{
    match t {
        ArrayType::INTEGER => ArrayType::INTEGER,
        ArrayType::STRING => ArrayType::STRING,
        ArrayType::BOOL => ArrayType::BOOL,
        ArrayType::CHAR => ArrayType::CHAR,
        ArrayType::DOUBLE => ArrayType::DOUBLE,
        ArrayType::CUSTOM(name) => ArrayType::CUSTOM(name.clone()),
    }
}

/// A structural copy of `t` with an equal view.
pub fn duplicate_field_type(t: &FieldType) -> (r: FieldType)
    ensures
        r@ == t@,
{
    match t {
        FieldType::INTEGER => FieldType::INTEGER,
        FieldType::STRING => FieldType::STRING,
        FieldType::BOOL => FieldType::BOOL,
        FieldType::ARRAY(elem) => FieldType::ARRAY(duplicate_array_type(elem)),
        FieldType::CHAR => FieldType::CHAR,
        FieldType::DOUBLE => FieldType::DOUBLE,
        FieldType::CUSTOM(name) => FieldType::CUSTOM(name.clone()),
        FieldType::LIST(elem) => FieldType::LIST(duplicate_array_type(elem)),
        FieldType::UNDEFINED => FieldType::UNDEFINED,
    }
}

/// Classification of the text strictly between a pair of brackets.
pub open spec fn spec_classify_elem(s: Seq<char>) -> ArrayTypeV {
    if s == "String"@ {
        ArrayTypeV::STRING
    } else if s == "int"@ {
        ArrayTypeV::INTEGER
    } else if s == "char"@ {
        ArrayTypeV::CHAR
    } else if s == "bool"@ {
        ArrayTypeV::BOOL
    } else if s == "double"@ {
        ArrayTypeV::DOUBLE
    } else {
        ArrayTypeV::CUSTOM(s)
    }
}

/// The text strictly between the first `open` and the first `close` in `s`,
/// when the first `open` comes before the first `close`.
pub open spec fn spec_bracket_elem(s: Seq<char>, open: char, close: char) -> Option<Seq<char>> {
    let oi = spec_find(s, open);
    let ci = spec_find(s, close);
    if oi is Some && ci is Some && oi->0 < ci->0 {
        Some(s.subrange(oi->0 + 1, ci->0))
    } else {
        None
    }
}

/// Classification of a comma-stripped field-type token. Exact scalar names
/// come first; then one level of array brackets, then one level of list
/// brackets; every other token names a custom type verbatim.
pub open spec fn spec_classify(s: Seq<char>) -> FieldTypeV {
    if s == "String"@ {
        FieldTypeV::STRING
    } else if s == "int"@ {
        FieldTypeV::INTEGER
    } else if s == "bool"@ {
        FieldTypeV::BOOL
    } else if s == "double"@ {
        FieldTypeV::DOUBLE
    } else if s == "char"@ {
        FieldTypeV::CHAR
    } else if spec_bracket_elem(s, '[', ']') is Some {
        FieldTypeV::ARRAY(spec_classify_elem(spec_bracket_elem(s, '[', ']')->0))
    } else if spec_bracket_elem(s, '<', '>') is Some {
        FieldTypeV::LIST(spec_classify_elem(spec_bracket_elem(s, '<', '>')->0))
    } else {
        FieldTypeV::CUSTOM(s)
    }
}

fn classify_elem(s: &str) -> (t: ArrayType)
    ensures
        t@ == spec_classify_elem(s@),
{
    if str_eq(s, "String") {
        ArrayType::STRING
    } else if str_eq(s, "int") {
        ArrayType::INTEGER
    } else if str_eq(s, "char") {
        ArrayType::CHAR
    } else if str_eq(s, "bool") {
        ArrayType::BOOL
    } else if str_eq(s, "double") {
        ArrayType::DOUBLE
    } else {
        ArrayType::CUSTOM(s.to_owned())
    }
}

/// The text strictly between the first `open` and the first `close`, when
/// the first `open` comes before the first `close`.
fn bracket_elem(s: &str, open: char, close: char) -> (r: Option<String>)
    ensures
        match r {
            Some(e) => spec_bracket_elem(s@, open, close) == Some(e@),
            None => spec_bracket_elem(s@, open, close) is None,
        },
{
    let oi = find_char(s, open);
    let ci = find_char(s, close);
    match (oi, ci) {
        (Some(i), Some(j)) => {
            if i < j {
                proof {
                    lemma_spec_find(s@, close);
                }
                let e = s.substring_char(i + 1, j);
                Some(e.to_owned())
            } else {
                None
            }
        },
        _ => None,
    }
}

/// Classify a comma-stripped field-type token into the closed type model.
pub fn classify_type(token: &str) -> (t: FieldType)
    ensures
        t@ == spec_classify(token@),
{
    if str_eq(token, "String") {
        FieldType::STRING
    } else if str_eq(token, "int") {
        FieldType::INTEGER
    } else if str_eq(token, "bool") {
        FieldType::BOOL
    } else if str_eq(token, "double") {
        FieldType::DOUBLE
    } else if str_eq(token, "char") {
        FieldType::CHAR
    } else {
        let arr = bracket_elem(token, '[', ']');
        match arr {
            Some(e) => FieldType::ARRAY(classify_elem(e.as_str())),
            None => {
                let lst = bracket_elem(token, '<', '>');
                match lst {
                    Some(e) => FieldType::LIST(classify_elem(e.as_str())),
                    None => FieldType::CUSTOM(token.to_owned()),
                }
            },
        }
    }
}

} // verus!
