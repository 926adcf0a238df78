//! Include directives: the loader that finds a source by name, and the pass
//! that brings the sources in before the tree is walked.
//!
//! After the pass an include directive holds, behind the name of the source,
//! what the loader and the grammar made of it: the parse trees of the source,
//! themselves resolved, or the reason why there are none.

use vstd::prelude::*;
use vstd::string::*;
use crate::parser::parse_idl;
use crate::tree::{lemma_children, trees_of, ParseError, ParseNode, ParseTree, Production};

verus! {

/// Finds the text of a source by the name under which it is asked for.
pub trait IdlLoader {
    /// The text of the source called `filename`.
    fn load(&self, filename: &str) -> Result<String, std::io::Error>;
}

/// How deep includes may nest. A source asked for at a greater depth is taken
/// as not found, so that sources which include each other in a circle end.
pub const MAX_INCLUDE_DEPTH: usize = 32;

/// The mark that stands behind the name of a source that was not found.
pub open spec fn not_found_tree(pos: usize) -> ParseTree {
    ParseTree { rule: "include_not_found"@, text: Seq::empty(), pos, children: Seq::empty() }
}

/// The mark that stands behind the name of a source that the parser did not
/// accept: it carries the offset and the sentence of the parser's failure.
pub open spec fn rejected_tree(pos: usize, detail: Seq<char>) -> ParseTree {
    ParseTree { rule: "include_rejected"@, text: detail, pos, children: Seq::empty() }
}

/// What stands behind the name of a source that was found and parsed: the
/// resolved parse trees of the source, at the offset of the directive.
pub open spec fn included_tree(pos: usize, children: Seq<ParseTree>) -> ParseTree {
    ParseTree { rule: "included_specification"@, text: Seq::empty(), pos, children }
}

/// Whether `brought` is the mark of a source that the parser did not accept.
pub open spec fn is_rejected(brought: ParseTree) -> bool {
    brought == rejected_tree(brought.pos, brought.text)
}

/// Whether `brought` holds, for an include directive at `pos`, the parse
/// trees of a source with their own include directives resolved at `depth`.
pub open spec fn is_included(brought: ParseTree, pos: usize, depth: nat) -> bool
    decreases brought, 2nat,
{
    &&& brought == included_tree(pos, brought.children)
    &&& exists|trees: Seq<ParseTree>|
        #[trigger] trees.len() == brought.children.len() && resolves_first(
            brought.children,
            trees,
            brought.children.len(),
            depth,
        )
}

/// Whether `brought` may stand behind the name of a source in an include
/// directive at `pos` that was resolved at `depth`.
///
/// At depth 0 no source is asked for: the source counts as not found. At a
/// greater depth the source was not found, or the parser did not accept it,
/// or its parse trees stand there, resolved one level less deep.
pub open spec fn is_brought_in(brought: ParseTree, pos: usize, depth: nat) -> bool
    decreases brought, 3nat,
{
    if depth == 0 {
        brought == not_found_tree(pos)
    } else {
        ||| brought == not_found_tree(pos)
        ||| is_rejected(brought)
        ||| is_included(brought, pos, (depth - 1) as nat)
    }
}

/// Whether `resolved` is `tree` with its include directives resolved at
/// `depth`: the same tree, but that every include directive which names a
/// source holds that name and, behind it, what was brought in.
pub open spec fn resolves(resolved: ParseTree, tree: ParseTree, depth: nat) -> bool
    decreases resolved, 4nat,
{
    &&& resolved.rule == tree.rule
    &&& resolved.text == tree.text
    &&& resolved.pos == tree.pos
    &&& if tree.kind() == Production::IncludeDirective && tree.children.len() >= 1 {
        &&& resolved.children.len() == 2
        &&& resolved.children[0] == tree.children[0]
        &&& is_brought_in(resolved.children[1], tree.pos, depth)
    } else {
        resolves_all(resolved.children, tree.children, depth)
    }
}

/// Whether each of the first `count` of `resolved` is the tree at its place
/// in `trees` with its include directives resolved at `depth`.
pub open spec fn resolves_first(
    resolved: Seq<ParseTree>,
    trees: Seq<ParseTree>,
    count: nat,
    depth: nat,
) -> bool
    decreases resolved, count,
{
    if count == 0 || count > resolved.len() || count > trees.len() {
        true
    } else {
        &&& resolves_first(resolved, trees, (count - 1) as nat, depth)
        &&& resolves(resolved[count - 1], trees[count - 1], depth)
    }
}

/// Whether each of `resolved` is the tree at its place in `trees` with its
/// include directives resolved at `depth`.
pub open spec fn resolves_all(resolved: Seq<ParseTree>, trees: Seq<ParseTree>, depth: nat) -> bool
    decreases resolved, resolved.len() + 1,
{
    &&& resolved.len() == trees.len()
    &&& resolves_first(resolved, trees, resolved.len(), depth)
}

/// The mark that stands behind the name of a source that was not found.
fn not_found_mark(pos: usize) -> (mark: ParseNode)
    ensures
        mark@ == not_found_tree(pos),
{
    let mark = ParseNode::new("include_not_found", "", pos, Vec::new());
    proof {
        reveal_strlit("");
        assert(mark@.text =~= Seq::<char>::empty());
        assert(mark@.children =~= Seq::<ParseTree>::empty());
    }
    mark
}

/// Resolves each of `nodes` at the given depth.
pub fn resolve_all<L: IdlLoader>(loader: &L, nodes: &Vec<ParseNode>, depth: usize) -> (resolved:
    Vec<ParseNode>)
    ensures
        resolves_all(trees_of(resolved@), trees_of(nodes@), depth as nat),
    decreases depth, 1nat,
{
    let mut resolved: Vec<ParseNode> = Vec::new();
    let mut i: usize = 0;
    while i < nodes.len()
        invariant
            0 <= i <= nodes.len(),
            resolved@.len() == i,
            resolves_first(trees_of(resolved@), trees_of(nodes@), i as nat, depth as nat),
        decreases nodes.len() - i,
    {
        let ghost before = trees_of(resolved@);
        let next = resolve_includes(loader, &nodes[i], depth);
        resolved.push(next);
        proof {
            assert(trees_of(resolved@) =~= before.push(next@));
            lemma_resolves_push(before, next@, trees_of(nodes@), i as nat, depth as nat);
        }
        i = i + 1;
    }
    resolved
}

/// What stands behind the name of a source in an include directive at `pos`,
/// given what the parser made of the text of the source: the mark of the
/// parser's failure, with its offset and its sentence, or the parse trees,
/// their own include directives resolved at `depth`.
pub fn bring_in_parsed<L: IdlLoader>(
    loader: &L,
    parsed: Result<Vec<ParseNode>, ParseError>,
    depth: usize,
    pos: usize,
) -> (brought: ParseNode)
    ensures
        match parsed {
            Err(error) => brought@ == rejected_tree(error.pos, error.detail@),
            Ok(nodes) => {
                &&& brought@ == included_tree(pos, brought@.children)
                &&& resolves_all(brought@.children, trees_of(nodes@), depth as nat)
            },
        },
    decreases depth, 2nat,
{
    match parsed {
        Ok(nodes) => {
            let children = resolve_all(loader, &nodes, depth);
            let brought = ParseNode::new("included_specification", "", pos, children);
            proof {
                reveal_strlit("");
                assert(brought@.text =~= Seq::<char>::empty());
            }
            brought
        },
        Err(error) => {
            let brought = ParseNode::new(
                "include_rejected",
                error.detail.as_str(),
                error.pos,
                Vec::new(),
            );
            assert(brought@.children =~= Seq::<ParseTree>::empty());
            brought
        },
    }
}

/// What stands behind the name of a source in an include directive at `pos`,
/// given what the loader made of that name: the mark that the source was not
/// found where the loader failed; else what the parser's answer to the text
/// gives, which is the mark of its failure or the parse trees of the text,
/// their own include directives resolved at `depth`.
pub fn bring_in<L: IdlLoader>(
    loader: &L,
    loaded: Result<String, std::io::Error>,
    depth: usize,
    pos: usize,
) -> (brought: ParseNode)
    ensures
        match loaded {
            Err(_) => brought@ == not_found_tree(pos),
            Ok(_) => is_rejected(brought@) || is_included(brought@, pos, depth as nat),
        },
    decreases depth, 3nat,
{
    let source = match loaded {
        Ok(source) => source,
        Err(_) => {
            return not_found_mark(pos);
        },
    };
    let parsed = parse_idl(source.as_str());
    let ghost answer = parsed;
    let brought = bring_in_parsed(loader, parsed, depth, pos);
    proof {
        if answer is Ok {
            let trees = trees_of(answer->Ok_0@);
            assert(trees.len() == brought@.children.len());
        }
    }
    brought
}

/// Resolves the include directives of a tree.
///
/// An include directive that names a source keeps that name as its first
/// child and gets a second: what `loader` and the parser made of the source.
/// The loader is asked for the lexeme of that name as it stands. At depth 0
/// no source is asked for, and each counts as not found; the sources of a
/// source that was brought in are resolved one level less deep.
pub fn resolve_includes<L: IdlLoader>(loader: &L, node: &ParseNode, depth: usize) -> (resolved:
    ParseNode)
    ensures
        resolves(resolved@, node@, depth as nat),
    decreases depth, 0nat, node@,
{
    proof {
        lemma_children(*node);
    }
    if matches!(node.kind(), Production::IncludeDirective) && node.children.len() >= 1 {
        let name = &node.children[0];
        proof {
            lemma_children(*name);
        }
        let brought = if depth == 0 {
            not_found_mark(node.pos)
        } else {
            let loaded = loader.load(name.text.as_str());
            bring_in(loader, loaded, depth - 1, node.pos)
        };
        let children = vec![name.clone(), brought];
        let resolved = ParseNode {
            rule: node.rule.clone(),
            text: node.text.clone(),
            pos: node.pos,
            children,
        };
        proof {
            lemma_children(resolved);
        }
        resolved
    } else {
        let mut children: Vec<ParseNode> = Vec::new();
        let mut i: usize = 0;
        while i < node.children.len()
            invariant
                0 <= i <= node.children.len(),
                children@.len() == i,
                node@.children == trees_of(node.children@),
                resolves_first(trees_of(children@), node@.children, i as nat, depth as nat),
            decreases node.children.len() - i,
        {
            assert(node@.children[i as int] == node.children@[i as int]@);
            let ghost before = trees_of(children@);
            let next = resolve_includes(loader, &node.children[i], depth);
            children.push(next);
            proof {
                assert(trees_of(children@) =~= before.push(next@));
                lemma_resolves_push(before, next@, node@.children, i as nat, depth as nat);
            }
            i = i + 1;
        }
        let resolved = ParseNode {
            rule: node.rule.clone(),
            text: node.text.clone(),
            pos: node.pos,
            children,
        };
        proof {
            lemma_children(resolved);
            assert(resolves_all(resolved@.children, node@.children, depth as nat));
        }
        resolved
    }
}

/// One more resolved tree at the end keeps what held of those before it.
proof fn lemma_resolves_push(
    resolved: Seq<ParseTree>,
    next: ParseTree,
    trees: Seq<ParseTree>,
    count: nat,
    depth: nat,
)
    requires
        count == resolved.len(),
        count < trees.len(),
        resolves_first(resolved, trees, count, depth),
        resolves(next, trees[count as int], depth),
    ensures
        resolves_first(resolved.push(next), trees, count + 1, depth),
{
    lemma_resolves_prefix(resolved, next, trees, count, depth);
}

/// What held of the first trees holds of them in a longer sequence.
proof fn lemma_resolves_prefix(
    resolved: Seq<ParseTree>,
    next: ParseTree,
    trees: Seq<ParseTree>,
    count: nat,
    depth: nat,
)
    requires
        count <= resolved.len(),
        count <= trees.len(),
        resolves_first(resolved, trees, count, depth),
    ensures
        resolves_first(resolved.push(next), trees, count, depth),
    decreases count,
{
    if count > 0 {
        lemma_resolves_prefix(resolved, next, trees, (count - 1) as nat, depth);
        assert(resolved.push(next)[count - 1] == resolved[count - 1]);
    }
}

} // verus!
