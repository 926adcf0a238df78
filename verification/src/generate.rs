//! A generation run: from the parse trees of a source to the text of the
//! generated code.

use vstd::prelude::*;
use vstd::string::*;
use crate::config::Configuration;
use crate::context::Context;
use crate::error::{IdlError, IdlFailure};
use crate::inclusion::{resolve_all, resolves_all, IdlLoader, MAX_INCLUDE_DEPTH};
use crate::module::{empty_module, ModuleView};
use crate::parser::parse_idl;
use crate::render::module_text;
use crate::template::{TemplateSet, TemplateSetView};
use crate::text::texts;
use crate::tree::{trees_of, ParseError, ParseErrorKind, ParseFailure, ParseNode, ParseTree};
use crate::walk::{apply_ops, lemma_apply_ops_concat, walk, walk_each};
use crate::walker::lemma_apply_none;

verus! {

/// The module table of a source: what the walk of its parse trees, each
/// under the root scope and whether it ends well or not, enters into an empty
/// table.
pub open spec fn table_of(trees: Seq<ParseTree>) -> ModuleView {
    apply_ops(empty_module(None), walk_each(trees, 0, trees.len(), Seq::empty()))
}

/// The generated code of a source: its module table rendered from the root at
/// level 0.
pub open spec fn generated(trees: Seq<ParseTree>, templates: TemplateSetView) -> Result<
    Seq<char>,
    IdlFailure,
> {
    match module_text(table_of(trees), 0, templates) {
        Ok(text) => Ok(text),
        Err(failure) => Err(IdlFailure::RenderError(failure)),
    }
}

/// The view of what a generation run returned.
pub open spec fn generation_outcome(result: Result<String, IdlError>) -> Result<
    Seq<char>,
    IdlFailure,
> {
    match result {
        Ok(text) => Ok(text@),
        Err(error) => Err(error@),
    }
}

/// Walks the parse trees of a source and returns the state with the module
/// table they fill.
pub fn analyze<'i>(config: &'i Configuration, nodes: &Vec<ParseNode>) -> (context: Context<'i>)
    ensures
        context.config == config,
        context.root_module@ == table_of(trees_of(nodes@)),
{
    let mut context = Context::new(config);
    let mut scope: Vec<String> = Vec::new();
    let ghost trees = trees_of(nodes@);
    let ghost root = Seq::<Seq<char>>::empty();
    proof {
        lemma_apply_none(context.root_module@);
        assert(texts(scope@) =~= root);
    }
    let mut i: usize = 0;
    while i < nodes.len()
        invariant
            0 <= i <= nodes.len(),
            trees == trees_of(nodes@),
            root == Seq::<Seq<char>>::empty(),
            texts(scope@) == root,
            context.config == config,
            context.root_module@ == apply_ops(
                empty_module(None),
                walk_each(trees, 0, i as nat, root),
            ),
        decreases nodes.len() - i,
    {
        let ghost before = walk_each(trees, 0, i as nat, root);
        let ghost step = walk(trees[i as int], root).ops;
        proof {
            lemma_apply_ops_concat(empty_module(None), before, step);
        }
        let _ = context.process(&mut scope, &nodes[i]);
        i = i + 1;
    }
    context
}

/// Generates the code of a source from its parse trees, include directives
/// resolved.
pub fn generate_from_trees(config: &Configuration, templates: &TemplateSet, nodes: &Vec<ParseNode>) -> (result:
    Result<String, IdlError>)
    ensures
        generation_outcome(result) == generated(trees_of(nodes@), templates@),
{
    let context = analyze(config, nodes);
    match context.root_module.render(templates, 0) {
        Ok(text) => Ok(text),
        Err(error) => Err(IdlError::RenderError(error)),
    }
}

/// The view of what the parser returned.
pub open spec fn parsed_view(parsed: Result<Vec<ParseNode>, ParseError>) -> Result<
    Seq<ParseTree>,
    ParseFailure,
> {
    match parsed {
        Ok(nodes) => Ok(trees_of(nodes@)),
        Err(error) => Err(error@),
    }
}

/// Whether `result` is what a generation run returns, given what the parser
/// made of the root source.
///
/// Where the parser failed, the run fails with the parser's failure. Of parse
/// trees the run returns the code of the trees, their include directives
/// resolved to the greatest depth allowed.
pub open spec fn generation_of_parsed(
    parsed: Result<Seq<ParseTree>, ParseFailure>,
    templates: TemplateSetView,
    result: Result<String, IdlError>,
) -> bool {
    match parsed {
        Err(failure) => generation_outcome(result) == Err::<Seq<char>, IdlFailure>(
            IdlFailure::ParserError(failure),
        ),
        Ok(trees) => exists|resolved: Seq<ParseTree>|
            resolves_all(resolved, trees, MAX_INCLUDE_DEPTH as nat) && generation_outcome(result)
                == #[trigger] generated(resolved, templates),
    }
}

/// Whether `result` is what a generation run returns for some answer of the
/// parser to the root source: parse trees, or a failure of the kind
/// `Rejected`.
pub open spec fn generation_of_source(
    templates: TemplateSetView,
    result: Result<String, IdlError>,
) -> bool {
    exists|parsed: Result<Seq<ParseTree>, ParseFailure>|
        {
            &&& #[trigger] generation_of_parsed(parsed, templates, result)
            &&& parsed matches Err(failure) ==> failure.kind == ParseErrorKind::Rejected
        }
}

/// Generates the code of a root source from what the parser made of it;
/// `loader` finds the sources that it includes.
pub fn generate_from_parsed<L: IdlLoader>(
    loader: &L,
    config: &Configuration,
    templates: &TemplateSet,
    parsed: Result<Vec<ParseNode>, ParseError>,
) -> (result: Result<String, IdlError>)
    ensures
        generation_of_parsed(parsed_view(parsed), templates@, result),
{
    match parsed {
        Ok(nodes) => {
            let resolved = resolve_all(loader, &nodes, MAX_INCLUDE_DEPTH);
            let result = generate_from_trees(config, templates, &resolved);
            assert(generation_outcome(result) == generated(trees_of(resolved@), templates@));
            result
        },
        Err(error) => Err(IdlError::ParserError(error)),
    }
}

/// Generates the code of a source from its text; `loader` finds the sources
/// that it includes.
///
/// The text is handed to the parser as it is, and the run returns what the
/// parser's answer makes of it.
pub fn generate_from_source<L: IdlLoader>(
    loader: &L,
    config: &Configuration,
    templates: &TemplateSet,
    source: &str,
) -> (result: Result<String, IdlError>)
    ensures
        generation_of_source(templates@, result),
{
    let parsed = parse_idl(source);
    let ghost answer = parsed_view(parsed);
    let result = generate_from_parsed(loader, config, templates, parsed);
    assert(generation_of_parsed(answer, templates@, result));
    result
}

/// The text that a loader returned, or nothing where it failed.
pub open spec fn loaded_text(loaded: Result<String, std::io::Error>) -> Option<Seq<char>> {
    match loaded {
        Ok(source) => Some(source@),
        Err(_) => None,
    }
}

/// Whether `result` is what a generation run returns for a root source of the
/// name `idl_file`, given what the loader made of that name.
///
/// Where the loader failed, the run fails: the source of that name was not
/// found. Of a text the run returns what some answer of the parser makes of
/// it.
pub open spec fn generation_from(
    loaded: Option<Seq<char>>,
    idl_file: Seq<char>,
    templates: TemplateSetView,
    result: Result<String, IdlError>,
) -> bool {
    match loaded {
        None => generation_outcome(result) == Err::<Seq<char>, IdlFailure>(
            IdlFailure::FileNotFound(idl_file),
        ),
        Some(_) => generation_of_source(templates, result),
    }
}

/// Generates the code of the root source that `loaded` holds, or reports that
/// the source of the configured name was not found.
pub fn generate_from_loaded<L: IdlLoader>(
    loader: &L,
    config: &Configuration,
    templates: &TemplateSet,
    loaded: Result<String, std::io::Error>,
) -> (result: Result<String, IdlError>)
    ensures
        generation_from(loaded_text(loaded), config@.idl_file, templates@, result),
{
    match loaded {
        Ok(source) => generate_from_source(loader, config, templates, source.as_str()),
        Err(_) => Err(IdlError::FileNotFound(config.idl_file().to_owned())),
    }
}

/// Generates the code of the configured root source, which `loader` finds
/// along with the sources that it includes.
///
/// The loader is asked for the source of the configured name, and the run
/// returns what that answer makes of it: the failure that the source was not
/// found, the failure of the parser, or the code of the resolved parse trees.
/// A generation never fails to write: the text is handed back to the caller.
pub fn generate_with_loader<L: IdlLoader>(
    loader: &L,
    config: &Configuration,
    templates: &TemplateSet,
) -> (result: Result<String, IdlError>)
    ensures
        exists|loaded: Option<Seq<char>>| #[trigger]
            generation_from(loaded, config@.idl_file, templates@, result),
        match result {
            Ok(_) => true,
            Err(IdlError::ParserError(error)) => error.kind == ParseErrorKind::Rejected,
            Err(IdlError::FileNotFound(name)) => name@ == config@.idl_file,
            Err(IdlError::RenderError(_)) => true,
            Err(IdlError::WriteError(_)) => false,
        },
{
    let loaded = loader.load(config.idl_file());
    let ghost answer = loaded_text(loaded);
    let result = generate_from_loaded(loader, config, templates, loaded);
    assert(generation_from(answer, config@.idl_file, templates@, result));
    result
}

} // verus!
