//! What a walk over a parse tree does to the module table: the entries it
//! makes, in order, and the failure it ends with.
//!
//! The entries that a tree makes do not depend on what the table holds, so a
//! walk is stated as a sequence of entries, and the table after it as that
//! sequence applied to the table before.

use vstd::prelude::*;
use crate::error::IdlFailure;
use crate::lower::{
    lower_const_expr, lower_declarator, lower_identifier, lower_identifiers, lower_struct_members,
    lower_switch_body, lower_switch_type_spec, lower_type_spec,
};
use crate::module::{add_const, add_type, ensure_module, ModuleView};
use crate::tree::{malformed, ParseErrorKind, ParseFailure, ParseTree, Production};
use crate::types::{ConstDclView, TypeDclView, TypeSpecView};

verus! {

/// One entry into the module table.
pub enum TableOp {
    /// The module at this path is to exist.
    EnsureModule(Seq<Seq<char>>),
    /// A type is declared under a key in the module at a path.
    AddType(Seq<Seq<char>>, Seq<char>, TypeDclView),
    /// A constant is declared under a key in the module at a path.
    AddConst(Seq<Seq<char>>, Seq<char>, ConstDclView),
}

/// The table after one entry.
pub open spec fn apply_op(table: ModuleView, op: TableOp) -> ModuleView {
    match op {
        TableOp::EnsureModule(path) => ensure_module(table, path),
        TableOp::AddType(path, key, dcl) => add_type(table, path, key, dcl),
        TableOp::AddConst(path, key, dcl) => add_const(table, path, key, dcl),
    }
}

/// The table after a sequence of entries, first to last.
pub open spec fn apply_ops(table: ModuleView, ops: Seq<TableOp>) -> ModuleView
    decreases ops.len(),
{
    if ops.len() == 0 {
        table
    } else {
        apply_op(apply_ops(table, ops.drop_last()), ops.last())
    }
}

/// What a walk does: the entries it makes and how it ends.
pub struct Walk {
    pub ops: Seq<TableOp>,
    pub result: Result<(), IdlFailure>,
}

/// A walk that makes no entry and ends well.
pub open spec fn idle() -> Walk {
    Walk { ops: Seq::empty(), result: Ok(()) }
}

/// A walk that makes no entry and fails on the shape of a node.
pub open spec fn shape_failure(kind: ParseErrorKind, pos: usize) -> Walk {
    Walk { ops: Seq::empty(), result: Err(IdlFailure::ParserError(malformed(kind, pos))) }
}

/// A walk that makes no entry and ends with the given failure of a reader.
pub open spec fn reader_failure(failure: ParseFailure) -> Walk {
    Walk { ops: Seq::empty(), result: Err(IdlFailure::ParserError(failure)) }
}

/// A walk that makes one entry and ends well.
pub open spec fn entry(op: TableOp) -> Walk {
    Walk { ops: seq![op], result: Ok(()) }
}

/// The walk of one declarator of a type declaration: the declared name
/// becomes a type of the scope.
pub open spec fn walk_declarator(node: ParseTree, scope: Seq<Seq<char>>, type_spec: TypeSpecView) -> Walk {
    match lower_declarator(node, type_spec, true, false) {
        Err(failure) => reader_failure(failure),
        Ok(declared) => entry(
            TableOp::AddType(
                scope,
                declared.id,
                TypeDclView::TypeDcl(declared.id, declared.type_spec),
            ),
        ),
    }
}

/// The entries of the first `count` declarators; one that fails makes none.
pub open spec fn walk_declarators(
    items: Seq<ParseTree>,
    count: nat,
    scope: Seq<Seq<char>>,
    type_spec: TypeSpecView,
) -> Seq<TableOp>
    decreases count,
{
    if count == 0 || count > items.len() {
        Seq::empty()
    } else {
        walk_declarators(items, (count - 1) as nat, scope, type_spec) + walk_declarator(
            items[count - 1],
            scope,
            type_spec,
        ).ops
    }
}

/// The walk of a structure definition.
pub open spec fn walk_struct(node: ParseTree, scope: Seq<Seq<char>>) -> Walk {
    if node.children.len() == 0 {
        shape_failure(ParseErrorKind::MissingName, node.pos)
    } else {
        let id = node.children[0].text;
        match lower_struct_members(node.children.skip(1), (node.children.len() - 1) as nat) {
            Err(failure) => reader_failure(failure),
            Ok(members) => entry(TableOp::AddType(scope, id, TypeDclView::StructDcl(id, members))),
        }
    }
}

/// The walk of a union definition.
pub open spec fn walk_union(node: ParseTree, scope: Seq<Seq<char>>) -> Walk {
    if node.children.len() == 0 {
        shape_failure(ParseErrorKind::MissingName, node.pos)
    } else {
        match lower_identifier(node.children[0]) {
            Err(failure) => reader_failure(failure),
            Ok(id) => if node.children.len() == 1 {
                shape_failure(ParseErrorKind::MissingUnionPart, node.pos)
            } else {
                match lower_switch_type_spec(node.children[1]) {
                    Err(failure) => reader_failure(failure),
                    Ok(discriminator) => if node.children.len() == 2 {
                        shape_failure(ParseErrorKind::MissingUnionPart, node.pos)
                    } else {
                        match lower_switch_body(node.children[2]) {
                            Err(failure) => reader_failure(failure),
                            Ok(cases) => entry(
                                TableOp::AddType(
                                    scope,
                                    id,
                                    TypeDclView::UnionDcl(id, discriminator, cases),
                                ),
                            ),
                        }
                    },
                }
            },
        }
    }
}

/// The walk of a type declaration: one type for each declarator that reads
/// well.
pub open spec fn walk_typedef(node: ParseTree, scope: Seq<Seq<char>>) -> Walk {
    if node.children.len() == 0 {
        shape_failure(ParseErrorKind::MissingTypeDeclarator, node.pos)
    } else {
        match lower_type_spec(node.children[0]) {
            Err(failure) => reader_failure(failure),
            Ok(type_spec) => if node.children.len() == 1 {
                shape_failure(ParseErrorKind::MissingTypeDeclarator, node.pos)
            } else {
                Walk {
                    ops: walk_declarators(
                        node.children[1].children,
                        node.children[1].children.len(),
                        scope,
                        type_spec,
                    ),
                    result: Ok(()),
                }
            },
        }
    }
}

/// The walk of an enumeration.
pub open spec fn walk_enum(node: ParseTree, scope: Seq<Seq<char>>) -> Walk {
    if node.children.len() == 0 {
        shape_failure(ParseErrorKind::MissingName, node.pos)
    } else {
        let id = node.children[0].text;
        match lower_identifiers(node.children.skip(1), (node.children.len() - 1) as nat) {
            Err(failure) => reader_failure(failure),
            Ok(enumerators) => entry(
                TableOp::AddType(scope, id, TypeDclView::EnumDcl(id, enumerators)),
            ),
        }
    }
}

/// The walk of a constant declaration.
pub open spec fn walk_const(node: ParseTree, scope: Seq<Seq<char>>) -> Walk {
    if node.children.len() == 0 {
        shape_failure(ParseErrorKind::MissingConstPart, node.pos)
    } else {
        match lower_type_spec(node.children[0]) {
            Err(failure) => reader_failure(failure),
            Ok(typedcl) => if node.children.len() == 1 {
                shape_failure(ParseErrorKind::MissingConstPart, node.pos)
            } else {
                match lower_identifier(node.children[1]) {
                    Err(failure) => reader_failure(failure),
                    Ok(id) => if node.children.len() == 2 {
                        shape_failure(ParseErrorKind::MissingConstPart, node.pos)
                    } else {
                        match lower_const_expr(node.children[2]) {
                            Err(failure) => reader_failure(failure),
                            Ok(value) => entry(
                                TableOp::AddConst(scope, id, ConstDclView { id, typedcl, value }),
                            ),
                        }
                    },
                }
            },
        }
    }
}

/// The walk of a node under a scope.
///
/// A module opens its scope and walks its body in it; a structure, union,
/// enumeration, type declaration or constant enters what it declares; an
/// include directive walks what it brought in, under the scope it stands in;
/// any other node walks its children. Inside a module and below any other
/// node a child that fails is passed over; what an include brought in is
/// walked up to its first failure.
pub open spec fn walk(node: ParseTree, scope: Seq<Seq<char>>) -> Walk
    decreases node, 0nat,
{
    match node.kind() {
        Production::ModuleDcl => if node.children.len() == 0 {
            shape_failure(ParseErrorKind::MissingName, node.pos)
        } else {
            let inner = scope.push(node.children[0].text);
            Walk {
                ops: seq![TableOp::EnsureModule(inner)] + walk_each(
                    node.children,
                    1,
                    node.children.len(),
                    inner,
                ),
                result: Ok(()),
            }
        },
        Production::StructDef => walk_struct(node, scope),
        Production::UnionDef => walk_union(node, scope),
        Production::TypeDeclarator => walk_typedef(node, scope),
        Production::EnumDcl => walk_enum(node, scope),
        Production::ConstDcl => walk_const(node, scope),
        Production::IncludeDirective => if node.children.len() == 0 {
            idle()
        } else if node.children.len() == 1 {
            Walk { ops: Seq::empty(), result: Err(IdlFailure::FileNotFound(node.children[0].text)) }
        } else {
            let brought = node.children[1];
            match brought.kind() {
                Production::IncludedSpecification => walk_until(
                    brought.children,
                    brought.children.len(),
                    scope,
                ),
                Production::IncludeRejected => reader_failure(
                    ParseFailure {
                        kind: ParseErrorKind::Rejected,
                        pos: brought.pos,
                        detail: brought.text,
                    },
                ),
                _ => Walk {
                    ops: Seq::empty(),
                    result: Err(IdlFailure::FileNotFound(node.children[0].text)),
                },
            }
        },
        _ => Walk { ops: walk_each(node.children, 0, node.children.len(), scope), result: Ok(()) },
    }
}

/// The entries of the items from `from` up to `to`, each walked under
/// `scope`, whether it ends well or not.
pub open spec fn walk_each(items: Seq<ParseTree>, from: nat, to: nat, scope: Seq<Seq<char>>) -> Seq<
    TableOp,
>
    decreases items, to,
{
    if to <= from || to > items.len() {
        Seq::empty()
    } else {
        walk_each(items, from, (to - 1) as nat, scope) + walk(items[to - 1], scope).ops
    }
}

/// The walk of the first `count` items under `scope`, up to the first that
/// fails.
pub open spec fn walk_until(items: Seq<ParseTree>, count: nat, scope: Seq<Seq<char>>) -> Walk
    decreases items, count,
{
    if count == 0 || count > items.len() {
        idle()
    } else {
        let before = walk_until(items, (count - 1) as nat, scope);
        match before.result {
            Err(_) => before,
            Ok(_) => {
                let next = walk(items[count - 1], scope);
                Walk { ops: before.ops + next.ops, result: next.result }
            },
        }
    }
}

/// Entries applied in two runs are the entries of both applied in one.
pub proof fn lemma_apply_ops_concat(table: ModuleView, first: Seq<TableOp>, second: Seq<TableOp>)
    ensures
        apply_ops(apply_ops(table, first), second) == apply_ops(table, first + second),
    decreases second.len(),
{
    if second.len() == 0 {
        assert(first + second =~= first);
    } else {
        lemma_apply_ops_concat(table, first, second.drop_last());
        assert((first + second).drop_last() =~= first + second.drop_last());
        assert((first + second).last() == second.last());
    }
}

/// One entry applied is the sequence of that entry applied.
pub proof fn lemma_apply_one(table: ModuleView, op: TableOp)
    ensures
        apply_ops(table, seq![op]) == apply_op(table, op),
        apply_ops(table, Seq::<TableOp>::empty()) == table,
{
    assert(seq![op].drop_last() =~= Seq::<TableOp>::empty());
    reveal_with_fuel(apply_ops, 2);
}

} // verus!
