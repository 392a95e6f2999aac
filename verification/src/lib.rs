//! A small code generator: a whitespace-delimited schema language describing
//! classes and their fields is tokenized, validated, parsed by a finite state
//! machine into a class/field model, and rendered into per-language source
//! declarations (Java, TypeScript, C, C++, Rust).

pub mod class;
pub mod deparser;
pub mod errors;
pub mod fields;
pub mod language;
pub mod parser;
pub mod pipeline;
pub mod strutil;
pub mod tokenizer;
pub mod types;
pub mod util;

pub use class::Class;
pub use deparser::{DeParser, GenFile};
pub use errors::MError;
pub use parser::{check_if_brackets_align, Parser};
pub use pipeline::generate_outputs;
pub use tokenizer::{join_with_spaces, tokenize};
pub use fields::Field;
pub use language::Language;
pub use types::{Access, ArrayType, FieldType};

use vstd::prelude::*;

verus! {

/// Whether a schema file name carries the `.txt` extension the program
/// accepts. The name must hold at least the four extension characters.
pub fn ensure_input_is_text_file(file: &str) -> (r: bool)
    requires
        file@.len() >= 4,
    ensures
        r == (file@.subrange(file@.len() - 4, file@.len() as int) == ".txt"@),
{
    let n = file.unicode_len();
    let ext = file.substring_char(n - 4, n);
    crate::strutil::str_eq(ext, ".txt")
}

} // verus!
