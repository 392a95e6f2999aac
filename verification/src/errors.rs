//! The typed errors the pipeline surfaces to its caller, and their
//! presentation text.

use vstd::prelude::*;

verus! {

/// The error kinds of the pipeline. Parsing and bracket validation report
/// `ParseError`; the remaining kinds belong to the surrounding layers.
#[derive(Clone, Debug, PartialEq, Eq)]
pub enum MError {
    ParseError(String),
    UserEnvError(String),
    GenError(String),
    ClassError(String),
    DeparseError(String),
}

/// Mathematical view of `MError`.
pub enum MErrorV {
    ParseError(Seq<char>),
    UserEnvError(Seq<char>),
    GenError(Seq<char>),
    ClassError(Seq<char>),
    DeparseError(Seq<char>),
}

impl View for MError {
    type V = MErrorV;

    open spec fn view(&self) -> MErrorV {
        match self {
            MError::ParseError(s) => MErrorV::ParseError(s@),
            MError::UserEnvError(s) => MErrorV::UserEnvError(s@),
            MError::GenError(s) => MErrorV::GenError(s@),
            MError::ClassError(s) => MErrorV::ClassError(s@),
            MError::DeparseError(s) => MErrorV::DeparseError(s@),
        }
    }
}

/// The presentation text of an error: its kind and its message.
pub open spec fn report_text(e: MErrorV) -> Seq<char> {
    match e {
        MErrorV::GenError(s) => "Error type: General error\nError message: "@ + s,
        MErrorV::ParseError(s) => "Error type: Parsing error\nError message: "@ + s,
        MErrorV::UserEnvError(s) => "Error type: Environment error\nError message: "@ + s,
        MErrorV::DeparseError(s) => "Error type: Deparsing error\nError message: "@ + s,
        MErrorV::ClassError(s) => "Error type: Class error\nError message: "@ + s,
    }
}

impl MError {
    /// Render the report text for this error; presentation (color, exit)
    /// belongs to the caller.
    pub fn report(&self) -> (r: String)
        ensures
            r@ == report_text(self@),
    {
        match self {
            MError::GenError(s) => {
                let mut m = String::from_str("Error type: General error\nError message: ");
                m.append(s.as_str());
                m
            },
            MError::ParseError(s) => {
                let mut m = String::from_str("Error type: Parsing error\nError message: ");
                m.append(s.as_str());
                m
            },
            MError::UserEnvError(s) => {
                let mut m = String::from_str("Error type: Environment error\nError message: ");
                m.append(s.as_str());
                m
            },
            MError::DeparseError(s) => {
                let mut m = String::from_str("Error type: Deparsing error\nError message: ");
                m.append(s.as_str());
                m
            },
            MError::ClassError(s) => {
                let mut m = String::from_str("Error type: Class error\nError message: ");
                m.append(s.as_str());
                m
            },
        }
    }
}

} // verus!
