//! Laws of the library: statements that hold of every table, tree, type and
//! expression, proved from the definitions that the functions are held to.

use vstd::prelude::*;
use crate::error::IdlError;
use crate::generate::{generated, generation_outcome, table_of};
use crate::expr::{expr_text, ValueExprView};
use crate::lower::{lower_const_expr, lower_type_spec};
use crate::module::{empty_module, has_key, key_index, lemma_key_index, module_at, ModuleView};
use crate::render::{
    body_text, consts_text, imports_text, inner_level, module_context, module_text, modules_text,
    rendered, types_text,
};
use crate::table_laws::{
    has_module, lemma_entries_keep_names, lemma_entries_settle, lemma_module_at_named,
    lemma_named_each, lemma_settled_are_idle, settled, well_named,
};
use crate::walk::{apply_ops, lemma_apply_ops_concat, walk, walk_each, TableOp};
use crate::template::{template_output, TemplateSetView};
use crate::text::repeated;
use crate::tree::{ParseFailure, ParseTree, Production};
use crate::types::{dim_piece, dim_pieces, type_text, TypeSpecView};

verus! {

/// A bounded string renders as an unbounded one, whatever its bound and its
/// width.
pub proof fn lemma_string_bound_is_dropped(bound: ValueExprView)
    ensures
        type_text(TypeSpecView::StringType(Some(bound))) == type_text(
            TypeSpecView::StringType(None),
        ),
        type_text(TypeSpecView::WideStringType(Some(bound))) == type_text(
            TypeSpecView::WideStringType(None),
        ),
{
}

/// A bounded sequence lowers to what the unbounded sequence of the same
/// element lowers to, provided that its bound reads as a constant expression;
/// where the element reads well and the bound does not, the failure of the
/// bound is the failure of the sequence.
pub proof fn lemma_sequence_bound_is_dropped(bounded: ParseTree, unbounded: ParseTree)
    requires
        bounded.kind() == Production::SequenceType,
        unbounded.kind() == Production::SequenceType,
        bounded.children.len() >= 2,
        unbounded.children.len() == 1,
        unbounded.children[0] == bounded.children[0],
    ensures
        lower_const_expr(bounded.children[1]) is Ok ==> lower_type_spec(bounded)
            == lower_type_spec(unbounded),
        lower_const_expr(bounded.children[1]) is Err && lower_type_spec(bounded.children[0]) is Ok
            ==> lower_type_spec(bounded) == Err::<TypeSpecView, ParseFailure>(
            lower_const_expr(bounded.children[1])->Err_0,
        ),
{
}

/// An array over one more dimension is the array over the dimensions before
/// it, inside `[` and `;`, the new dimension and `]`. An array over no
/// dimension is its element.
pub proof fn lemma_array_nests(element: TypeSpecView, dims: Seq<ValueExprView>, dim: ValueExprView)
    ensures
        type_text(TypeSpecView::ArrayType(Box::new(element), Seq::empty())) == type_text(element),
        type_text(TypeSpecView::ArrayType(Box::new(element), dims.push(dim))) == "["@ + type_text(
            TypeSpecView::ArrayType(Box::new(element), dims),
        ) + ";"@ + expr_text(dim) + "]"@,
{
    let none = Seq::<ValueExprView>::empty();
    assert(dim_pieces(none) =~= Seq::<Seq<char>>::empty());
    assert(type_text(TypeSpecView::ArrayType(Box::new(element), none)) =~= type_text(element));
    let more = dims.push(dim);
    lemma_repeated_front("["@, dims.len());
    assert(dim_pieces(more).drop_last() =~= dim_pieces(dims));
    assert(dim_pieces(more).last() == dim_piece(more, dims.len() as int));
    assert(type_text(TypeSpecView::ArrayType(Box::new(element), more)) =~= "["@ + type_text(
        TypeSpecView::ArrayType(Box::new(element), dims),
    ) + ";"@ + expr_text(dim) + "]"@);
}

/// An array with the dimension list `[a, b, c]` renders as `[[[T;a];b];c]`.
pub proof fn lemma_array_of_three(
    element: TypeSpecView,
    a: ValueExprView,
    b: ValueExprView,
    c: ValueExprView,
)
    ensures
        type_text(TypeSpecView::ArrayType(Box::new(element), seq![a, b, c])) == "[[["@ + type_text(
            element,
        ) + ";"@ + expr_text(a) + "];"@ + expr_text(b) + "];"@ + expr_text(c) + "]"@,
{
    let none = Seq::<ValueExprView>::empty();
    lemma_array_nests(element, none, a);
    lemma_array_nests(element, none.push(a), b);
    lemma_array_nests(element, none.push(a).push(b), c);
    assert(none.push(a).push(b).push(c) =~= seq![a, b, c]);
    reveal_strlit("[[[");
    reveal_strlit("[");
    reveal_strlit("];");
    reveal_strlit("]");
    reveal_strlit(";");
    assert("[[["@ =~= "["@ + "["@ + "["@);
    assert("];"@ =~= "]"@ + ";"@);
    assert(type_text(TypeSpecView::ArrayType(Box::new(element), seq![a, b, c])) =~= "[[["@
        + type_text(element) + ";"@ + expr_text(a) + "];"@ + expr_text(b) + "];"@ + expr_text(c)
        + "]"@);
}

/// One more copy of a unit may be counted at the front as well as at the end.
proof fn lemma_repeated_front(unit: Seq<char>, count: nat)
    ensures
        repeated(unit, count + 1) == unit + repeated(unit, count),
    decreases count,
{
    if count == 0 {
        assert(repeated(unit, 1) =~= unit + repeated(unit, 0));
    } else {
        lemma_repeated_front(unit, (count - 1) as nat);
        assert(repeated(unit, count + 1) =~= unit + repeated(unit, count));
    }
}

/// A named module that holds nothing renders as the `module` template gives
/// it for a body of just the two standard imports, one level deeper than the
/// module.
pub proof fn lemma_empty_module_text(id: Seq<char>, level: nat, templates: TemplateSetView)
    requires
        level + 1 <= usize::MAX,
    ensures
        module_text(empty_module(Some(id)), level, templates) == rendered(
            template_output(
                templates.module_template,
                module_context(id, imports_text(level + 1), level),
            ),
        ),
{
    let module = empty_module(Some(id));
    let none = Seq::<char>::empty();
    assert(body_text(module, level, none, none, none) =~= imports_text(level + 1));
}

/// The level at which the module at `path` below `table` is rendered when
/// `table` is rendered at `level`: one deeper for each named module on the
/// way.
pub open spec fn level_at(table: ModuleView, level: nat, path: Seq<Seq<char>>) -> nat {
    if path.len() == 0 {
        level
    } else {
        (inner_level(table, level) + path.len() - 1) as nat
    }
}

/// Where the first sub-modules render, each of them renders.
proof fn lemma_modules_render_each(
    modules: Seq<(Seq<char>, ModuleView)>,
    count: nat,
    level: nat,
    templates: TemplateSetView,
    index: int,
)
    requires
        0 <= index < count <= modules.len(),
        modules_text(modules, count, level, templates) is Ok,
    ensures
        module_text(modules[index].1, level, templates) is Ok,
    decreases count,
{
    if index < count - 1 {
        lemma_modules_render_each(modules, (count - 1) as nat, level, templates, index);
    }
}

/// Declarations are rendered as deep as they are scoped. Where a table with
/// its names in order renders at a level, the module at a path that stands in
/// it renders too, one level deeper for each named module on the way, and
/// what it declares renders one level deeper than itself. So in the code of a
/// table rendered from the root at level 0, a declaration of the scope
/// `[m1, .., mk]` is rendered at level `k`, inside the module `mk` at level
/// `k - 1`, inside `mk-1`, and so on up to `m1` at level 0.
pub proof fn lemma_rendered_as_deep_as_scoped(
    table: ModuleView,
    level: nat,
    path: Seq<Seq<char>>,
    templates: TemplateSetView,
)
    requires
        well_named(table),
        has_module(table, path),
        module_text(table, level, templates) is Ok,
    ensures
        module_text(module_at(table, path), level_at(table, level, path), templates) is Ok,
        ({
            let module = module_at(table, path);
            let inner = inner_level(module, level_at(table, level, path));
            &&& types_text(module.types, module.types.len(), inner, templates) is Ok
            &&& consts_text(module.constants, module.constants.len(), inner, templates) is Ok
        }),
        table.id is None && level == 0 ==> inner_level(
            module_at(table, path),
            level_at(table, level, path),
        ) == path.len(),
    decreases path.len(),
{
    if path.len() > 0 {
        lemma_key_index(table.modules, path[0]);
        let i = key_index(table.modules, path[0]);
        let inner = inner_level(table, level);
        let child = table.modules[i].1;
        let rest = path.drop_first();
        lemma_modules_render_each(table.modules, table.modules.len(), inner, templates, i);
        lemma_named_each(table.modules, table.modules.len(), i);
        lemma_rendered_as_deep_as_scoped(child, inner, rest, templates);
        lemma_module_at_named(table, path);
    }
}

/// Entries leave the root without a name.
pub proof fn lemma_root_stays_unnamed(ops: Seq<TableOp>)
    ensures
        apply_ops(empty_module(None), ops).id is None,
    decreases ops.len(),
{
    if ops.len() > 0 {
        lemma_root_stays_unnamed(ops.drop_last());
    }
}

/// In the table that a sequence of entries makes of the empty root, every
/// declaration entered at the scope `[m1, .., mk]` stands in the
/// module reached through `m1`, .., `mk`, each inside the one before; and
/// where the table renders from the root at level 0, that declaration is
/// rendered at level `k`: inside exactly `k` modules, `mk` at level `k - 1`
/// down to `m1` at level 0.
pub proof fn lemma_declared_in_scope(ops: Seq<TableOp>, index: int, templates: TemplateSetView)
    requires
        0 <= index < ops.len(),
    ensures
        ({
            let table = apply_ops(empty_module(None), ops);
            let rendered = module_text(table, 0, templates) is Ok;
            match ops[index] {
                TableOp::AddType(path, key, _) => {
                    let module = module_at(table, path);
                    &&& has_module(table, path)
                    &&& has_key(module.types, key)
                    &&& rendered ==> types_text(
                        module.types,
                        module.types.len(),
                        path.len(),
                        templates,
                    ) is Ok
                },
                TableOp::AddConst(path, key, _) => {
                    let module = module_at(table, path);
                    &&& has_module(table, path)
                    &&& has_key(module.constants, key)
                    &&& rendered ==> consts_text(
                        module.constants,
                        module.constants.len(),
                        path.len(),
                        templates,
                    ) is Ok
                },
                TableOp::EnsureModule(path) => {
                    &&& has_module(table, path)
                    &&& rendered && path.len() > 0 ==> module_text(
                        module_at(table, path),
                        (path.len() - 1) as nat,
                        templates,
                    ) is Ok
                },
            }
        }),
{
    let table = apply_ops(empty_module(None), ops);
    lemma_entries_settle(empty_module(None), ops, index);
    lemma_entries_keep_names(ops);
    lemma_root_stays_unnamed(ops);
    let path = match ops[index] {
        TableOp::AddType(path, _, _) => path,
        TableOp::AddConst(path, _, _) => path,
        TableOp::EnsureModule(path) => path,
    };
    if module_text(table, 0, templates) is Ok {
        lemma_rendered_as_deep_as_scoped(table, 0, path, templates);
    }
}

/// Generation is reproducible: the generated code is a function of the parse
/// trees and the templates, so that two runs which are handed the same trees
/// and the same templates return the same text, or fail alike.
pub proof fn lemma_generation_is_reproducible(
    trees: Seq<ParseTree>,
    templates: TemplateSetView,
    first: Result<String, IdlError>,
    second: Result<String, IdlError>,
)
    requires
        generation_outcome(first) == generated(trees, templates),
        generation_outcome(second) == generated(trees, templates),
    ensures
        generation_outcome(first) == generation_outcome(second),
        first is Ok ==> second is Ok && first->Ok_0@ == second->Ok_0@,
{
}

/// The entries of trees walked one by one are not changed by a tree more at
/// the end.
proof fn lemma_walk_each_prefix(
    trees: Seq<ParseTree>,
    more: ParseTree,
    count: nat,
    scope: Seq<Seq<char>>,
)
    requires
        count <= trees.len(),
    ensures
        walk_each(trees.push(more), 0, count, scope) == walk_each(trees, 0, count, scope),
    decreases count,
{
    if count > 0 {
        lemma_walk_each_prefix(trees, more, (count - 1) as nat, scope);
        assert(trees.push(more)[count - 1] == trees[count - 1]);
    }
}

/// The entries of one of the trees are a run of the entries of all of them:
/// the entry at `offset + k` of the whole is the entry at `k` of the tree.
proof fn lemma_walk_each_holds(
    trees: Seq<ParseTree>,
    count: nat,
    index: int,
    scope: Seq<Seq<char>>,
) -> (offset: int)
    requires
        0 <= index < count <= trees.len(),
    ensures
        0 <= offset,
        offset + walk(trees[index], scope).ops.len() <= walk_each(trees, 0, count, scope).len(),
        forall|k: int|
            0 <= k < walk(trees[index], scope).ops.len() ==> walk_each(trees, 0, count, scope)[
                offset + k] == #[trigger] walk(trees[index], scope).ops[k],
    decreases count,
{
    let before = walk_each(trees, 0, (count - 1) as nat, scope);
    if index == count - 1 {
        before.len() as int
    } else {
        lemma_walk_each_holds(trees, (count - 1) as nat, index, scope)
    }
}

/// A source included twice counts once. Where a tree stands among the trees
/// of a source, the same tree once more at the end enters nothing into the
/// module table, so that the generated code is the same with and without it.
pub proof fn lemma_tree_again_generates_nothing(
    trees: Seq<ParseTree>,
    index: int,
    templates: TemplateSetView,
)
    requires
        0 <= index < trees.len(),
    ensures
        table_of(trees.push(trees[index])) == table_of(trees),
        generated(trees.push(trees[index]), templates) == generated(trees, templates),
{
    let scope = Seq::<Seq<char>>::empty();
    let again = trees[index];
    let all = walk_each(trees, 0, trees.len(), scope);
    let entries = walk(again, scope).ops;
    let table = table_of(trees);
    lemma_walk_each_prefix(trees, again, trees.len(), scope);
    assert(trees.push(again)[trees.len() as int] == again);
    assert(walk_each(trees.push(again), 0, (trees.len() + 1) as nat, scope) == all + entries);
    let offset = lemma_walk_each_holds(trees, trees.len(), index, scope);
    assert forall|k: int| 0 <= k < entries.len() implies settled(table, #[trigger] entries[k]) by {
        lemma_entries_settle(empty_module(None), all, offset + k);
    }
    lemma_settled_are_idle(table, entries);
    lemma_apply_ops_concat(empty_module(None), all, entries);
}

} // verus!
