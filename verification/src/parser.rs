//! The grammar: the one call into the parser, and the parse tree it gives as
//! a tree of this library.

use vstd::prelude::*;
use vstd::string::*;
use omg_idl_grammar::{IdlParser, Rule};
use pest::error::InputLocation;
use pest::iterators::Pair;
use pest::Parser;
use crate::tree::{ParseError, ParseErrorKind, ParseNode};

verus! {

/// `pest::error::Error`, carried as an opaque value.
#[verifier::external_type_specification]
#[verifier::external_body]
#[verifier::reject_recursive_types(R)]
pub struct ExGrammarError<R>(pest::error::Error<R>);

/// `pest::iterators::Pair`, carried as an opaque value.
#[verifier::external_type_specification]
#[verifier::external_body]
#[verifier::reject_recursive_types(R)]
pub struct ExPair<'i, R>(Pair<'i, R>);

/// `omg_idl_grammar::Rule`, carried as an opaque value.
#[verifier::external_type_specification]
#[verifier::external_body]
pub struct ExRule(Rule);

/// A pair of the parser as a node: the name of its rule as `Debug` prints it,
/// `Pair::as_str`, the start of `Pair::as_span`, and the pairs of
/// `Pair::into_inner` in order, each converted in the same way.
#[verifier::external_body]
fn node_of_pair(pair: Pair<'_, Rule>) -> ParseNode {
    ParseNode {
        rule: format!("{:?}", pair.as_rule()),
        text: pair.as_str().to_owned(),
        pos: pair.as_span().start(),
        children: pair.into_inner().map(node_of_pair).collect(),
    }
}

/// `IdlParser::parse` under the rule `specification`: the pairs it gives, as
/// nodes, or its error. Nothing is promised of the outcome: whether a text is
/// accepted depends also on the parser's call limit and on the stack that is
/// left when it is called.
#[verifier::external_body]
fn parse_specification(text: &str) -> Result<Vec<ParseNode>, pest::error::Error<Rule>> {
    IdlParser::parse(Rule::specification, text).map(|pairs| pairs.map(node_of_pair).collect())
}

/// The byte offset in `Error::location` and the text that `Display` gives for
/// a parser's error.
#[verifier::external_body]
fn rejection_parts(error: &pest::error::Error<Rule>) -> (usize, String) {
    let pos = match error.location {
        InputLocation::Pos(pos) => pos,
        InputLocation::Span((start, _)) => start,
    };
    (pos, error.to_string())
}

/// Parses a source text into its parse trees. A text that the parser does
/// not accept is a failure of the kind `Rejected`.
pub fn parse_idl(text: &str) -> (result: Result<Vec<ParseNode>, ParseError>)
    ensures
        result matches Err(error) ==> error.kind == ParseErrorKind::Rejected,
{
    match parse_specification(text) {
        Ok(nodes) => Ok(nodes),
        Err(error) => {
            let parts = rejection_parts(&error);
            Err(ParseError { kind: ParseErrorKind::Rejected, pos: parts.0, detail: parts.1 })
        },
    }
}

} // verus!
