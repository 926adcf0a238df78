//! Laws of the walk: where the entries of a nested declaration land, and that
//! a source brought in once more counts once.

use vstd::prelude::*;
use crate::generate::{generated, generation_of_parsed, generation_outcome, table_of};
use crate::inclusion::{
    included_tree, not_found_tree, rejected_tree, resolves, resolves_all, resolves_first,
    MAX_INCLUDE_DEPTH,
};
use crate::error::{IdlError, IdlFailure};
use crate::laws::{
    lemma_declared_in_scope, lemma_rendered_as_deep_as_scoped, lemma_root_stays_unnamed,
};
use crate::lower::lower_type_spec;
use crate::module::{empty_module, has_key, module_at, ModuleView};
use crate::render::{consts_text, module_text, types_text};
use crate::table_laws::{
    has_module, lemma_entries_keep_names, lemma_entries_settle, lemma_settled_are_idle, settled,
};
use crate::template::TemplateSetView;
use crate::tree::{lemma_inclusion_marks, ParseErrorKind, ParseFailure, ParseTree, Production};
use crate::types::TypeSpecView;
use crate::walk::{
    apply_ops, lemma_apply_ops_concat, walk, walk_declarators, walk_each, walk_until, TableOp, Walk,
};

verus! {

/// The scope of an entry: the path of the module that it is made in.
pub open spec fn entry_scope(op: TableOp) -> Seq<Seq<char>> {
    match op {
        TableOp::EnsureModule(path) => path,
        TableOp::AddType(path, _, _) => path,
        TableOp::AddConst(path, _, _) => path,
    }
}

/// Whether a production declares something: a structure, a union, an
/// enumeration, types or a constant.
pub open spec fn is_declaration(kind: Production) -> bool {
    kind == Production::StructDef || kind == Production::UnionDef || kind == Production::EnumDcl
        || kind == Production::TypeDeclarator || kind == Production::ConstDcl
}

/// A node that a walk arrives at, and the scope under which it walks it.
pub struct Arrival {
    pub node: ParseTree,
    pub scope: Seq<Seq<char>>,
}

/// The node and the scope at which a walk arrives from `tree` under `scope`
/// by stepping, at each node, to the child at the next of `steps`. A step
/// into the body of a module opens the scope of that module; a step below
/// any node that the walk passes through keeps the scope. There is no step
/// into a declaration, into an include directive, or to the name of a module.
pub open spec fn reached(tree: ParseTree, scope: Seq<Seq<char>>, steps: Seq<int>) -> Option<
    Arrival,
>
    decreases steps.len(),
{
    if steps.len() == 0 {
        Some(Arrival { node: tree, scope })
    } else if is_declaration(tree.kind()) || tree.kind() == Production::IncludeDirective {
        None
    } else if tree.kind() == Production::ModuleDcl {
        if 1 <= steps[0] < tree.children.len() {
            reached(
                tree.children[steps[0]],
                scope.push(tree.children[0].text),
                steps.drop_first(),
            )
        } else {
            None
        }
    } else if 0 <= steps[0] < tree.children.len() {
        reached(tree.children[steps[0]], scope, steps.drop_first())
    } else {
        None
    }
}

/// The names of the modules whose bodies are entered on the way from `tree`
/// along `steps`, outermost first.
pub open spec fn modules_entered(tree: ParseTree, steps: Seq<int>) -> Seq<Seq<char>>
    decreases steps.len(),
{
    if steps.len() == 0 || !(0 <= steps[0] < tree.children.len()) {
        Seq::empty()
    } else if tree.kind() == Production::ModuleDcl {
        seq![tree.children[0].text] + modules_entered(tree.children[steps[0]], steps.drop_first())
    } else {
        modules_entered(tree.children[steps[0]], steps.drop_first())
    }
}

/// The entries of one of the items are a run of the entries of all of them:
/// the entry at `offset + k` of the whole is the entry at `k` of the item.
pub proof fn lemma_walk_each_run(
    items: Seq<ParseTree>,
    from: nat,
    to: nat,
    index: int,
    scope: Seq<Seq<char>>,
) -> (offset: int)
    requires
        from <= index < to <= items.len(),
    ensures
        0 <= offset,
        offset + walk(items[index], scope).ops.len() <= walk_each(items, from, to, scope).len(),
        forall|k: int|
            0 <= k < walk(items[index], scope).ops.len() ==> walk_each(items, from, to, scope)[
                offset + k] == #[trigger] walk(items[index], scope).ops[k],
    decreases to,
{
    let before = walk_each(items, from, (to - 1) as nat, scope);
    if index == to - 1 {
        before.len() as int
    } else {
        lemma_walk_each_run(items, from, (to - 1) as nat, index, scope)
    }
}

/// The walk of a module with a name: the module is entered, then its body
/// is walked in its scope.
proof fn lemma_walk_of_module(tree: ParseTree, scope: Seq<Seq<char>>)
    requires
        tree.kind() == Production::ModuleDcl,
        tree.children.len() >= 1,
    ensures
        walk(tree, scope).ops == seq![TableOp::EnsureModule(scope.push(tree.children[0].text))]
            + walk_each(
            tree.children,
            1,
            tree.children.len(),
            scope.push(tree.children[0].text),
        ),
{
}

/// The walk of a node that is passed through: its children are walked.
proof fn lemma_walk_of_other(tree: ParseTree, scope: Seq<Seq<char>>)
    requires
        !is_declaration(tree.kind()),
        tree.kind() != Production::ModuleDcl,
        tree.kind() != Production::IncludeDirective,
    ensures
        walk(tree, scope).ops == walk_each(tree.children, 0, tree.children.len(), scope),
{
}

/// The entries of a node that a walk arrives at are a run of the entries of
/// the walk, and the scope at which it arrives is the scope of the walk with
/// the names of the modules entered on the way.
pub proof fn lemma_reached_run(tree: ParseTree, scope: Seq<Seq<char>>, steps: Seq<int>) -> (offset:
    int)
    requires
        reached(tree, scope, steps) is Some,
    ensures
        reached(tree, scope, steps)->Some_0.scope == scope + modules_entered(tree, steps),
        0 <= offset,
        ({
            let inner = reached(tree, scope, steps)->Some_0;
            let entries = walk(inner.node, inner.scope).ops;
            &&& offset + entries.len() <= walk(tree, scope).ops.len()
            &&& forall|k: int|
                0 <= k < entries.len() ==> walk(tree, scope).ops[offset + k] == #[trigger] entries[k]
        }),
    decreases steps.len(),
{
    if steps.len() == 0 {
        assert(scope + modules_entered(tree, steps) =~= scope);
        0
    } else {
        let step = steps[0];
        let rest = steps.drop_first();
        let child = tree.children[step];
        let below_scope = if tree.kind() == Production::ModuleDcl {
            scope.push(tree.children[0].text)
        } else {
            scope
        };
        let arrival = reached(child, below_scope, rest)->Some_0;
        assert(reached(tree, scope, steps) == reached(child, below_scope, rest));
        let entries = walk(arrival.node, arrival.scope).ops;
        let middle = walk(child, below_scope).ops;
        let below = lemma_reached_run(child, below_scope, rest);
        if tree.kind() == Production::ModuleDcl {
            lemma_walk_of_module(tree, scope);
            let body = walk_each(tree.children, 1, tree.children.len(), below_scope);
            let run = lemma_walk_each_run(tree.children, 1, tree.children.len(), step, below_scope);
            assert(below_scope + modules_entered(child, rest) =~= scope + modules_entered(
                tree,
                steps,
            ));
            assert forall|k: int| 0 <= k < entries.len() implies walk(tree, scope).ops[1 + run
                + below + k] == #[trigger] entries[k] by {
                assert(middle[below + k] == entries[k]);
                assert(body[run + (below + k)] == middle[below + k]);
            }
            1 + run + below
        } else {
            lemma_walk_of_other(tree, scope);
            let body = walk_each(tree.children, 0, tree.children.len(), scope);
            let run = lemma_walk_each_run(tree.children, 0, tree.children.len(), step, scope);
            assert forall|k: int| 0 <= k < entries.len() implies walk(tree, scope).ops[run + below
                + k] == #[trigger] entries[k] by {
                assert(middle[below + k] == entries[k]);
                assert(body[run + (below + k)] == middle[below + k]);
            }
            run + below
        }
    }
}

/// Every entry of the declarators of a type declaration is made at the scope
/// under which they are walked.
proof fn lemma_declarators_at_scope(
    items: Seq<ParseTree>,
    count: nat,
    scope: Seq<Seq<char>>,
    type_spec: TypeSpecView,
    k: int,
)
    requires
        0 <= k < walk_declarators(items, count, scope, type_spec).len(),
    ensures
        entry_scope(walk_declarators(items, count, scope, type_spec)[k]) == scope,
        walk_declarators(items, count, scope, type_spec)[k] is AddType,
    decreases count,
{
    if !(count == 0 || count > items.len()) {
        let before = walk_declarators(items, (count - 1) as nat, scope, type_spec);
        if k < before.len() {
            lemma_declarators_at_scope(items, (count - 1) as nat, scope, type_spec, k);
        }
    }
}

/// A declaration enters what it declares at the scope under which it is
/// walked, and nowhere else: every entry of the walk of a structure, a union,
/// an enumeration, a type declaration or a constant is made at that scope. A
/// constant enters a constant, the others enter types.
pub proof fn lemma_declaration_at_scope(tree: ParseTree, scope: Seq<Seq<char>>, k: int)
    requires
        is_declaration(tree.kind()),
        0 <= k < walk(tree, scope).ops.len(),
    ensures
        entry_scope(walk(tree, scope).ops[k]) == scope,
        tree.kind() == Production::ConstDcl ==> walk(tree, scope).ops[k] is AddConst,
        tree.kind() != Production::ConstDcl ==> walk(tree, scope).ops[k] is AddType,
{
    if tree.kind() == Production::TypeDeclarator {
        if tree.children.len() >= 2 {
            let declarators = tree.children[1].children;
            match lower_type_spec(tree.children[0]) {
                Ok(type_spec) => {
                    lemma_declarators_at_scope(
                        declarators,
                        declarators.len(),
                        scope,
                        type_spec,
                        k,
                    );
                },
                Err(_) => {},
            }
        }
    }
}

/// A declaration nested in modules lands at the path of those modules.
///
/// Where the walk of `tree` from the root scope into an empty table arrives,
/// through the bodies of the modules `m1`, .., `mk`, at a declaration, every
/// entry of that declaration stands in the table in the module reached
/// through `m1`, .., `mk`, under its key among the types (for a constant, the
/// constants) of that module; and where the table renders from the root at
/// level 0, the types and constants of that module render at level `k`.
pub proof fn lemma_nested_declaration_lands(
    tree: ParseTree,
    steps: Seq<int>,
    k: int,
    templates: TemplateSetView,
)
    requires
        reached(tree, Seq::empty(), steps) is Some,
        is_declaration(reached(tree, Seq::empty(), steps)->Some_0.node.kind()),
        0 <= k < walk(
            reached(tree, Seq::empty(), steps)->Some_0.node,
            reached(tree, Seq::empty(), steps)->Some_0.scope,
        ).ops.len(),
    ensures
        ({
            let root = Seq::<Seq<char>>::empty();
            let declaration = reached(tree, root, steps)->Some_0.node;
            let path = modules_entered(tree, steps);
            let entry = walk(declaration, path).ops[k];
            let table = apply_ops(empty_module(None), walk(tree, root).ops);
            let module = module_at(table, path);
            let rendered = module_text(table, 0, templates) is Ok;
            &&& reached(tree, root, steps)->Some_0.scope == path
            &&& has_module(table, path)
            &&& match entry {
                TableOp::AddType(at, key, _) => at == path && has_key(module.types, key),
                TableOp::AddConst(at, key, _) => at == path && has_key(module.constants, key),
                TableOp::EnsureModule(_) => false,
            }
            &&& rendered ==> types_text(module.types, module.types.len(), path.len(), templates)
                is Ok
            &&& rendered ==> consts_text(
                module.constants,
                module.constants.len(),
                path.len(),
                templates,
            ) is Ok
        }),
{
    let root = Seq::<Seq<char>>::empty();
    let declaration = reached(tree, root, steps)->Some_0.node;
    let path = modules_entered(tree, steps);
    let offset = lemma_reached_run(tree, root, steps);
    assert(root + path =~= path);
    lemma_declaration_at_scope(declaration, path, k);
    let ops = walk(tree, root).ops;
    assert(ops[offset + k] == walk(declaration, path).ops[k]);
    lemma_declared_in_scope(ops, offset + k, templates);
    let table = apply_ops(empty_module(None), ops);
    if module_text(table, 0, templates) is Ok {
        lemma_entries_keep_names(ops);
        lemma_root_stays_unnamed(ops);
        lemma_rendered_as_deep_as_scoped(table, 0, path, templates);
    }
}

/// What the walk makes of an include directive that was resolved: the
/// failure that the source was not found, with its name; the failure of the
/// parser, with its offset and its sentence; or the walk of the parse trees
/// that were brought in, under the scope of the directive, up to the first
/// that fails.
pub proof fn lemma_walk_of_resolved(tree: ParseTree, scope: Seq<Seq<char>>)
    requires
        tree.kind() == Production::IncludeDirective,
        tree.children.len() >= 2,
    ensures
        tree.children[1] == not_found_tree(tree.children[1].pos) ==> walk(tree, scope) == (Walk {
            ops: Seq::empty(),
            result: Err(IdlFailure::FileNotFound(tree.children[0].text)),
        }),
        tree.children[1] == rejected_tree(tree.children[1].pos, tree.children[1].text) ==> walk(
            tree,
            scope,
        ) == (Walk {
            ops: Seq::empty(),
            result: Err(
                IdlFailure::ParserError(
                    ParseFailure {
                        kind: ParseErrorKind::Rejected,
                        pos: tree.children[1].pos,
                        detail: tree.children[1].text,
                    },
                ),
            ),
        }),
        tree.children[1] == included_tree(tree.children[1].pos, tree.children[1].children)
            ==> walk(tree, scope) == walk_until(
            tree.children[1].children,
            tree.children[1].children.len(),
            scope,
        ),
{
    lemma_inclusion_marks();
}

/// Two include directives that hold the same parse trees enter the same under
/// the same scope, wherever they stand.
pub proof fn lemma_same_source_same_entries(
    first: ParseTree,
    again: ParseTree,
    scope: Seq<Seq<char>>,
)
    requires
        first.kind() == Production::IncludeDirective,
        again.kind() == Production::IncludeDirective,
        first.children.len() >= 2,
        again.children.len() >= 2,
        first.children[1] == included_tree(first.children[1].pos, first.children[1].children),
        again.children[1] == included_tree(again.children[1].pos, again.children[1].children),
        first.children[1].children == again.children[1].children,
    ensures
        walk(first, scope).ops == walk(again, scope).ops,
        walk(first, scope).result == walk(again, scope).result,
{
    lemma_walk_of_resolved(first, scope);
    lemma_walk_of_resolved(again, scope);
}

/// A node that the walk passes through, with one child, enters what its child
/// enters.
pub proof fn lemma_walk_of_wrapper(tree: ParseTree, scope: Seq<Seq<char>>)
    requires
        !is_declaration(tree.kind()),
        tree.kind() != Production::ModuleDcl,
        tree.kind() != Production::IncludeDirective,
        tree.children.len() == 1,
    ensures
        walk(tree, scope).ops == walk(tree.children[0], scope).ops,
{
    lemma_walk_of_other(tree, scope);
    reveal_with_fuel(walk_each, 2);
    assert(walk_each(tree.children, 0, 1, scope) =~= walk(tree.children[0], scope).ops);
}

/// The entries of items walked one by one are those of the first of them
/// followed by those of the rest.
proof fn lemma_walk_each_split(
    items: Seq<ParseTree>,
    from: nat,
    mid: nat,
    to: nat,
    scope: Seq<Seq<char>>,
)
    requires
        from <= mid <= to <= items.len(),
    ensures
        walk_each(items, from, to, scope) == walk_each(items, from, mid, scope) + walk_each(
            items,
            mid,
            to,
            scope,
        ),
    decreases to,
{
    if mid == to {
        assert(walk_each(items, from, to, scope) =~= walk_each(items, from, mid, scope)
            + walk_each(items, mid, to, scope));
    } else {
        lemma_walk_each_split(items, from, mid, (to - 1) as nat, scope);
        assert(walk_each(items, from, to, scope) =~= walk_each(items, from, mid, scope)
            + walk_each(items, mid, to, scope));
    }
}

/// Items that agree from `from` up to `to` enter the same there.
proof fn lemma_walk_each_agree(
    items: Seq<ParseTree>,
    others: Seq<ParseTree>,
    from: nat,
    to: nat,
    scope: Seq<Seq<char>>,
)
    requires
        to <= items.len(),
        to <= others.len(),
        forall|i: int| from <= i < to ==> items[i] == others[i],
    ensures
        walk_each(items, from, to, scope) == walk_each(others, from, to, scope),
    decreases to,
{
    if from < to {
        lemma_walk_each_agree(items, others, from, (to - 1) as nat, scope);
    }
}

/// Behind an item that was taken out, the items enter what they entered one
/// place further on.
proof fn lemma_walk_each_shift(
    items: Seq<ParseTree>,
    taken: int,
    to: nat,
    scope: Seq<Seq<char>>,
)
    requires
        0 <= taken < to <= items.len(),
    ensures
        walk_each(items.remove(taken), taken as nat, (to - 1) as nat, scope) == walk_each(
            items,
            (taken + 1) as nat,
            to,
            scope,
        ),
    decreases to,
{
    if taken + 1 < to {
        lemma_walk_each_shift(items, taken, (to - 1) as nat, scope);
        assert(items.remove(taken)[to - 2] == items[to - 1]);
    }
}

/// A source brought in once more counts once. Among the items that a walk
/// takes one by one under a scope, whether each ends well or not, an item
/// that enters what an item before it enters may be taken out: the table is
/// the same with and without it, whatever stands between the two and behind
/// them.
pub proof fn lemma_repeated_item_is_idle(
    table: ModuleView,
    items: Seq<ParseTree>,
    from: nat,
    to: nat,
    first: int,
    again: int,
    scope: Seq<Seq<char>>,
)
    requires
        from <= first < again < to <= items.len(),
        walk(items[first], scope).ops == walk(items[again], scope).ops,
    ensures
        apply_ops(table, walk_each(items, from, to, scope)) == apply_ops(
            table,
            walk_each(items.remove(again), from, (to - 1) as nat, scope),
        ),
{
    let before = walk_each(items, from, again as nat, scope);
    let entries = walk(items[again], scope).ops;
    let behind = walk_each(items, (again + 1) as nat, to, scope);
    let without = items.remove(again);
    lemma_walk_each_split(items, from, (again + 1) as nat, to, scope);
    assert(walk_each(items, from, (again + 1) as nat, scope) == before + entries);
    lemma_walk_each_split(without, from, again as nat, (to - 1) as nat, scope);
    lemma_walk_each_agree(items, without, from, again as nat, scope);
    lemma_walk_each_shift(items, again, to, scope);
    let offset = lemma_walk_each_run(items, from, again as nat, first, scope);
    let held = apply_ops(table, before);
    assert forall|k: int| 0 <= k < entries.len() implies settled(held, #[trigger] entries[k]) by {
        assert(before[offset + k] == walk(items[first], scope).ops[k]);
        lemma_entries_settle(table, before, offset + k);
    }
    lemma_settled_are_idle(held, entries);
    lemma_apply_ops_concat(table, before, entries);
    lemma_apply_ops_concat(table, before + entries, behind);
    lemma_apply_ops_concat(table, before, behind);
}

/// A source brought in once more generates nothing more. Where a root tree
/// that the walk passes through holds, among its children, one that enters
/// what a child before it enters, the generated code is the same with and
/// without that child.
pub proof fn lemma_repeated_child_generates_nothing(
    tree: ParseTree,
    first: int,
    again: int,
    templates: TemplateSetView,
)
    requires
        !is_declaration(tree.kind()),
        tree.kind() != Production::ModuleDcl,
        tree.kind() != Production::IncludeDirective,
        0 <= first < again < tree.children.len(),
        walk(tree.children[first], Seq::empty()).ops == walk(
            tree.children[again],
            Seq::empty(),
        ).ops,
    ensures
        ({
            let without = ParseTree { children: tree.children.remove(again), ..tree };
            &&& table_of(seq![tree]) == table_of(seq![without])
            &&& generated(seq![tree], templates) == generated(seq![without], templates)
        }),
{
    let root = Seq::<Seq<char>>::empty();
    let without = ParseTree { children: tree.children.remove(again), ..tree };
    lemma_walk_of_other(tree, root);
    lemma_walk_of_other(without, root);
    lemma_repeated_item_is_idle(
        empty_module(None),
        tree.children,
        0,
        tree.children.len(),
        first,
        again,
        root,
    );
    reveal_with_fuel(walk_each, 2);
    assert(walk_each(seq![tree], 0, 1, root) =~= walk(tree, root).ops);
    assert(walk_each(seq![without], 0, 1, root) =~= walk(without, root).ops);
}

/// Whether no node of `tree` is an include directive that names a source.
pub open spec fn has_no_include(tree: ParseTree) -> bool
    decreases tree,
{
    &&& !(tree.kind() == Production::IncludeDirective && tree.children.len() >= 1)
    &&& have_no_include(tree.children, tree.children.len())
}

/// Whether none of the first `count` of `trees` holds an include directive
/// that names a source.
pub open spec fn have_no_include(trees: Seq<ParseTree>, count: nat) -> bool
    decreases trees, count,
{
    if count == 0 || count > trees.len() {
        true
    } else {
        &&& have_no_include(trees, (count - 1) as nat)
        &&& has_no_include(trees[count - 1])
    }
}

/// A tree without include directive is resolved to itself, at every depth and
/// whatever the loader would find.
pub proof fn lemma_resolved_unchanged(resolved: ParseTree, tree: ParseTree, depth: nat)
    requires
        resolves(resolved, tree, depth),
        has_no_include(tree),
    ensures
        resolved == tree,
    decreases resolved, 1nat,
{
    lemma_first_unchanged(resolved.children, tree.children, tree.children.len(), depth);
    assert(resolved.children =~= tree.children);
}

/// The first trees, where they hold no include directive, are resolved to
/// themselves.
proof fn lemma_first_unchanged(
    resolved: Seq<ParseTree>,
    trees: Seq<ParseTree>,
    count: nat,
    depth: nat,
)
    requires
        count <= resolved.len(),
        count <= trees.len(),
        resolves_first(resolved, trees, count, depth),
        have_no_include(trees, count),
    ensures
        forall|i: int| 0 <= i < count ==> resolved[i] == trees[i],
    decreases resolved, count,
{
    if count > 0 {
        lemma_first_unchanged(resolved, trees, (count - 1) as nat, depth);
        lemma_resolved_unchanged(resolved[count - 1], trees[count - 1], depth);
    }
}

/// Of a source without include directive the generated code is a function of
/// its parse trees and the templates: whatever the loader would find, a run
/// that was handed these trees returns the code of these trees, or fails as
/// their rendering fails.
pub proof fn lemma_generation_without_include(
    trees: Seq<ParseTree>,
    templates: TemplateSetView,
    result: Result<String, IdlError>,
)
    requires
        have_no_include(trees, trees.len()),
        generation_of_parsed(Ok(trees), templates, result),
    ensures
        generation_outcome(result) == generated(trees, templates),
{
    let resolved = choose|resolved: Seq<ParseTree>|
        resolves_all(resolved, trees, MAX_INCLUDE_DEPTH as nat) && generation_outcome(result)
            == #[trigger] generated(resolved, templates);
    lemma_first_unchanged(resolved, trees, trees.len(), MAX_INCLUDE_DEPTH as nat);
    assert(resolved =~= trees);
}

} // verus!
