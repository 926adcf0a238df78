//! The failures of a generation run.

use vstd::prelude::*;
use vstd::string::*;
use crate::tree::{ParseError, ParseFailure};

verus! {

/// `minijinja::Error`, carried as an opaque value.
#[verifier::external_type_specification]
#[verifier::external_body]
pub struct ExTemplateError(minijinja::Error);

/// `std::io::Error`, carried as an opaque value.
#[verifier::external_type_specification]
#[verifier::external_body]
pub struct ExIoError(std::io::Error);

/// A failure to render.
#[derive(Debug)]
pub enum RenderError {
    /// The template engine rejected a template or its context.
    Template(minijinja::Error),
    /// A module is nested deeper than an indent level can count.
    NestingTooDeep,
}

/// The mathematical content of a render failure.
pub enum RenderFailure {
    Template,
    NestingTooDeep,
}

impl View for RenderError {
    type V = RenderFailure;

    open spec fn view(&self) -> RenderFailure {
        match self {
            RenderError::Template(_) => RenderFailure::Template,
            RenderError::NestingTooDeep => RenderFailure::NestingTooDeep,
        }
    }
}

/// A failure of a generation run.
#[derive(Debug)]
pub enum IdlError {
    /// The grammar rejected a source, or a parse tree did not have the shape
    /// of its production.
    ParserError(ParseError),
    /// No text could be had for the source of this name.
    FileNotFound(String),
    /// The generated code could not be rendered.
    RenderError(RenderError),
    /// The generated code could not be written.
    WriteError(std::io::Error),
}

/// The mathematical content of a failure.
pub enum IdlFailure {
    ParserError(ParseFailure),
    FileNotFound(Seq<char>),
    RenderError(RenderFailure),
    WriteError,
}

impl View for IdlError {
    type V = IdlFailure;

    open spec fn view(&self) -> IdlFailure {
        match self {
            IdlError::ParserError(error) => IdlFailure::ParserError(error@),
            IdlError::FileNotFound(name) => IdlFailure::FileNotFound(name@),
            IdlError::RenderError(error) => IdlFailure::RenderError(error@),
            IdlError::WriteError(_) => IdlFailure::WriteError,
        }
    }
}

/// The sentence that describes a failure.
pub open spec fn failure_text(failure: IdlFailure) -> Seq<char> {
    match failure {
        IdlFailure::ParserError(_) => "Failed to parse IDL files"@,
        IdlFailure::FileNotFound(name) => "Could not find requested idl_file: "@ + name,
        IdlFailure::RenderError(_) => "Failed to render generated code."@,
        IdlFailure::WriteError => "Failed to write generated code."@,
    }
}

impl IdlError {
    /// The sentence that describes this failure.
    pub fn to_string(&self) -> (sentence: String)
        ensures
            sentence@ == failure_text(self@),
    {
        match self {
            IdlError::ParserError(_) => "Failed to parse IDL files".to_owned(),
            IdlError::FileNotFound(name) => {
                let mut sentence = "Could not find requested idl_file: ".to_owned();
                sentence.append(name.as_str());
                sentence
            },
            IdlError::RenderError(_) => "Failed to render generated code.".to_owned(),
            IdlError::WriteError(_) => "Failed to write generated code.".to_owned(),
        }
    }
}

} // verus!
