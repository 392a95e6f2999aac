//! The whole pipeline in one call: text is tokenized, the brackets are
//! validated, the tokens are parsed, and every (class, language) pair is
//! rendered. No output is produced unless the whole schema is accepted.

use vstd::prelude::*;

use crate::deparser::{gen_outputs, DeParser, GenFile};
use crate::errors::{MError, MErrorV};
use crate::parser::{
    bracket_error, brackets_balanced, check_if_brackets_align, spec_parse, Parser,
};
use crate::tokenizer::{spec_tokenize, tokenize};

verus! {

/// Run schema text through the pipeline and return one output per
/// (class, language) pair, or the first error: the bracket validator's
/// report on unbalanced braces, else the parser's report on the first
/// offending token.
pub fn generate_outputs(text: &str) -> (r: Result<Vec<GenFile>, MError>)
    ensures
        match r {
            Ok(files) => {
                &&& brackets_balanced(spec_tokenize(text@))
                &&& spec_parse(spec_tokenize(text@)) matches Ok(classes) && files.deep_view()
                    == gen_outputs(classes)
            },
            Err(e) => {
                ||| (!brackets_balanced(spec_tokenize(text@)) && e@ == bracket_error(
                    spec_tokenize(text@),
                ))
                ||| (brackets_balanced(spec_tokenize(text@)) && spec_parse(spec_tokenize(text@))
                    == Err::<Seq<crate::class::ClassV>, MErrorV>(e@))
            },
        },
{
    let tokens = tokenize(text);
    let token_slice = tokens.as_slice();
    proof {
        assert(token_slice.deep_view() =~= spec_tokenize(text@));
    }
    match check_if_brackets_align(token_slice) {
        Ok(()) => (),
        Err(e) => {
            return Err(e);
        },
    }
    let mut parser = Parser::new();
    match parser.parse(token_slice) {
        Ok(()) => (),
        Err(e) => {
            return Err(e);
        },
    }
    let deparser = DeParser::new(parser.get_objects());
    let files = deparser.construct();
    Ok(files)
}

} // verus!
