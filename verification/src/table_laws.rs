//! Laws of the module table: where an entry lands, that the first
//! declaration wins, and that entries made once more change nothing.

use vstd::prelude::*;
use crate::module::{
    add_const, add_type, empty_module, has_key, insert_if_absent, key_index, lemma_insert_if_absent,
    lemma_key_index, module_at, with_module_at, ModuleView,
};
use crate::tree::ParseTree;
use crate::types::{ConstDclView, TypeDclView};
use crate::walk::{apply_op, apply_ops, lemma_apply_ops_concat, walk, TableOp};

verus! {

/// Whether every module along `path` stands in the table, each under its name
/// among the sub-modules of the one before.
pub open spec fn has_module(table: ModuleView, path: Seq<Seq<char>>) -> bool
    decreases path.len(),
{
    if path.len() == 0 {
        true
    } else {
        &&& has_key(table.modules, path[0])
        &&& has_module(table.modules[key_index(table.modules, path[0])].1, path.drop_first())
    }
}

/// Whether `after` has a type under every key under which `before` has one,
/// and a constant likewise.
pub open spec fn keeps_keys(before: ModuleView, after: ModuleView) -> bool {
    &&& forall|key: Seq<char>| #[trigger]
        has_key(before.types, key) ==> has_key(after.types, key)
    &&& forall|key: Seq<char>| #[trigger]
        has_key(before.constants, key) ==> has_key(after.constants, key)
}

/// A value put in the place of an entry's value leaves every key where it
/// was.
proof fn lemma_update_keeps_keys<V>(
    entries: Seq<(Seq<char>, V)>,
    place: int,
    value: V,
    key: Seq<char>,
)
    requires
        0 <= place < entries.len(),
    ensures
        key_index(entries.update(place, (entries[place].0, value)), key) == key_index(
            entries,
            key,
        ),
    decreases entries.len(),
{
    let updated = entries.update(place, (entries[place].0, value));
    assert(updated[0].0 == entries[0].0);
    if entries[0].0 != key {
        if place == 0 {
            assert(updated.drop_first() =~= entries.drop_first());
        } else {
            assert(updated.drop_first() =~= entries.drop_first().update(
                place - 1,
                (entries.drop_first()[place - 1].0, value),
            ));
            lemma_update_keeps_keys(entries.drop_first(), place - 1, value, key);
        }
    }
}

/// An entry added at the end leaves the keys that were taken where they were.
proof fn lemma_push_keeps_keys<V>(entries: Seq<(Seq<char>, V)>, added: (Seq<char>, V), key: Seq<char>)
    requires
        has_key(entries, key),
    ensures
        key_index(entries.push(added), key) == key_index(entries, key),
    decreases entries.len(),
{
    lemma_key_index(entries, key);
    let pushed = entries.push(added);
    assert(pushed[0] == entries[0]);
    if entries[0].0 != key {
        assert(pushed.drop_first() =~= entries.drop_first().push(added));
        lemma_push_keeps_keys(entries.drop_first(), added, key);
    }
}

/// `insert_if_absent` leaves the keys that were taken where they were.
proof fn lemma_insert_keeps_keys<V>(
    entries: Seq<(Seq<char>, V)>,
    added: Seq<char>,
    value: V,
    key: Seq<char>,
)
    requires
        has_key(entries, key),
    ensures
        has_key(insert_if_absent(entries, added, value), key),
        key_index(insert_if_absent(entries, added, value), key) == key_index(entries, key),
        insert_if_absent(entries, added, value)[key_index(entries, key)] == entries[key_index(
            entries,
            key,
        )],
{
    lemma_key_index(entries, key);
    if !has_key(entries, added) {
        lemma_push_keeps_keys(entries, (added, value), key);
    }
}

/// The module put at a path is the module found there.
pub proof fn lemma_module_at_put(table: ModuleView, path: Seq<Seq<char>>, leaf: ModuleView)
    ensures
        module_at(with_module_at(table, path, leaf), path) == leaf,
        has_module(with_module_at(table, path, leaf), path),
    decreases path.len(),
{
    if path.len() > 0 {
        let fresh = empty_module(Some(path[0]));
        let entries = insert_if_absent(table.modules, path[0], fresh);
        lemma_insert_if_absent(table.modules, path[0], fresh);
        lemma_key_index(entries, path[0]);
        let i = key_index(entries, path[0]);
        let child = with_module_at(entries[i].1, path.drop_first(), leaf);
        let updated = entries.update(i, (entries[i].0, child));
        lemma_update_keeps_keys(entries, i, child, path[0]);
        lemma_module_at_put(entries[i].1, path.drop_first(), leaf);
        assert(insert_if_absent(updated, path[0], fresh) == updated);
    }
}

/// Of two modules put at a path one after the other, the second stands.
pub proof fn lemma_put_twice(
    table: ModuleView,
    path: Seq<Seq<char>>,
    first: ModuleView,
    second: ModuleView,
)
    ensures
        with_module_at(with_module_at(table, path, first), path, second) == with_module_at(
            table,
            path,
            second,
        ),
    decreases path.len(),
{
    if path.len() > 0 {
        let fresh = empty_module(Some(path[0]));
        let entries = insert_if_absent(table.modules, path[0], fresh);
        lemma_insert_if_absent(table.modules, path[0], fresh);
        lemma_key_index(entries, path[0]);
        let i = key_index(entries, path[0]);
        let child = with_module_at(entries[i].1, path.drop_first(), first);
        let updated = entries.update(i, (entries[i].0, child));
        lemma_update_keeps_keys(entries, i, child, path[0]);
        lemma_put_twice(entries[i].1, path.drop_first(), first, second);
        assert(insert_if_absent(updated, path[0], fresh) == updated);
        assert(updated.update(
            i,
            (updated[i].0, with_module_at(updated[i].1, path.drop_first(), second)),
        ) =~= entries.update(
            i,
            (entries[i].0, with_module_at(entries[i].1, path.drop_first(), second)),
        ));
    }
}

/// A module put where it stands already leaves the table as it is.
pub proof fn lemma_put_same(table: ModuleView, path: Seq<Seq<char>>)
    requires
        has_module(table, path),
    ensures
        with_module_at(table, path, module_at(table, path)) == table,
    decreases path.len(),
{
    if path.len() > 0 {
        let fresh = empty_module(Some(path[0]));
        lemma_key_index(table.modules, path[0]);
        let i = key_index(table.modules, path[0]);
        lemma_put_same(table.modules[i].1, path.drop_first());
        assert(table.modules.update(i, (table.modules[i].0, table.modules[i].1))
            =~= table.modules);
    }
}

/// The first declaration wins: a type declared under a key that is taken in
/// its scope changes nothing, so of two declarations under one key in one
/// scope the table holds the first.
pub proof fn lemma_first_type_wins(
    table: ModuleView,
    path: Seq<Seq<char>>,
    key: Seq<char>,
    first: TypeDclView,
    second: TypeDclView,
)
    ensures
        add_type(add_type(table, path, key, first), path, key, second) == add_type(
            table,
            path,
            key,
            first,
        ),
{
    let leaf = module_at(table, path);
    let entered = ModuleView { types: insert_if_absent(leaf.types, key, first), ..leaf };
    lemma_module_at_put(table, path, entered);
    lemma_insert_if_absent(leaf.types, key, first);
    lemma_put_twice(table, path, entered, entered);
}

/// The first declaration wins: a constant declared under a key that is taken
/// in its scope changes nothing.
pub proof fn lemma_first_const_wins(
    table: ModuleView,
    path: Seq<Seq<char>>,
    key: Seq<char>,
    first: ConstDclView,
    second: ConstDclView,
)
    ensures
        add_const(add_const(table, path, key, first), path, key, second) == add_const(
            table,
            path,
            key,
            first,
        ),
{
    let leaf = module_at(table, path);
    let entered = ModuleView { constants: insert_if_absent(leaf.constants, key, first), ..leaf };
    lemma_module_at_put(table, path, entered);
    lemma_insert_if_absent(leaf.constants, key, first);
    lemma_put_twice(table, path, entered, entered);
}

/// A declaration lands in its scope: after a type is declared under `key` at
/// the scope `path`, every module of the path stands in the table under its
/// name, one inside the other, and the last of them has a type under `key`;
/// where the key was free, that type is the one declared.
pub proof fn lemma_type_lands_in_scope(
    table: ModuleView,
    path: Seq<Seq<char>>,
    key: Seq<char>,
    dcl: TypeDclView,
)
    ensures
        has_module(add_type(table, path, key, dcl), path),
        has_key(module_at(add_type(table, path, key, dcl), path).types, key),
        !has_key(module_at(table, path).types, key) ==> ({
            let types = module_at(add_type(table, path, key, dcl), path).types;
            types[key_index(types, key)] == (key, dcl)
        }),
{
    let leaf = module_at(table, path);
    let entered = ModuleView { types: insert_if_absent(leaf.types, key, dcl), ..leaf };
    lemma_module_at_put(table, path, entered);
    lemma_insert_if_absent(leaf.types, key, dcl);
    lemma_key_index(leaf.types, key);
}

/// A declaration lands in its scope: the same of a constant.
pub proof fn lemma_const_lands_in_scope(
    table: ModuleView,
    path: Seq<Seq<char>>,
    key: Seq<char>,
    dcl: ConstDclView,
)
    ensures
        has_module(add_const(table, path, key, dcl), path),
        has_key(module_at(add_const(table, path, key, dcl), path).constants, key),
        !has_key(module_at(table, path).constants, key) ==> ({
            let constants = module_at(add_const(table, path, key, dcl), path).constants;
            constants[key_index(constants, key)] == (key, dcl)
        }),
{
    let leaf = module_at(table, path);
    let entered = ModuleView { constants: insert_if_absent(leaf.constants, key, dcl), ..leaf };
    lemma_module_at_put(table, path, entered);
    lemma_insert_if_absent(leaf.constants, key, dcl);
    lemma_key_index(leaf.constants, key);
}

/// Whether an entry has nothing left to do in a table: its path stands, and
/// the key that it declares is taken there.
pub open spec fn settled(table: ModuleView, op: TableOp) -> bool {
    match op {
        TableOp::EnsureModule(path) => has_module(table, path),
        TableOp::AddType(path, key, _) => has_module(table, path) && has_key(
            module_at(table, path).types,
            key,
        ),
        TableOp::AddConst(path, key, _) => has_module(table, path) && has_key(
            module_at(table, path).constants,
            key,
        ),
    }
}

/// A path that stands in a table stands in every table with the same
/// sub-modules, and leads to the same module unless it is empty.
proof fn lemma_same_modules(before: ModuleView, after: ModuleView, path: Seq<Seq<char>>)
    requires
        after.modules == before.modules,
        has_module(before, path),
    ensures
        has_module(after, path),
        path.len() > 0 ==> module_at(after, path) == module_at(before, path),
{
    if path.len() > 0 {
        lemma_key_index(before.modules, path[0]);
    }
}

/// A module put at a path in place of one with the same sub-modules and no
/// key more leaves every path that stood standing, and every key taken at its
/// end taken.
proof fn lemma_put_preserves(
    table: ModuleView,
    at: Seq<Seq<char>>,
    leaf: ModuleView,
    path: Seq<Seq<char>>,
)
    requires
        leaf.modules == module_at(table, at).modules,
        keeps_keys(module_at(table, at), leaf),
        has_module(table, path),
    ensures
        has_module(with_module_at(table, at, leaf), path),
        keeps_keys(module_at(table, path), module_at(with_module_at(table, at, leaf), path)),
    decreases path.len(),
{
    let after = with_module_at(table, at, leaf);
    if at.len() == 0 {
        lemma_same_modules(table, leaf, path);
    } else if path.len() == 0 {
    } else {
        let fresh = empty_module(Some(at[0]));
        let entries = insert_if_absent(table.modules, at[0], fresh);
        lemma_insert_if_absent(table.modules, at[0], fresh);
        lemma_key_index(entries, at[0]);
        let i = key_index(entries, at[0]);
        let child = with_module_at(entries[i].1, at.drop_first(), leaf);
        lemma_key_index(table.modules, path[0]);
        let j = key_index(table.modules, path[0]);
        lemma_insert_keeps_keys(table.modules, at[0], fresh, path[0]);
        lemma_update_keeps_keys(entries, i, child, path[0]);
        assert(key_index(after.modules, path[0]) == j);
        if j == i {
            lemma_put_preserves(entries[i].1, at.drop_first(), leaf, path.drop_first());
        }
        assert(insert_if_absent(
            after.modules,
            path[0],
            empty_module(Some(path[0])),
        ) == after.modules);
    }
}

/// An entry that is made has nothing left to do.
pub proof fn lemma_entry_settles(table: ModuleView, op: TableOp)
    ensures
        settled(apply_op(table, op), op),
{
    match op {
        TableOp::EnsureModule(path) => {
            lemma_module_at_put(table, path, module_at(table, path));
        },
        TableOp::AddType(path, key, dcl) => {
            lemma_type_lands_in_scope(table, path, key, dcl);
        },
        TableOp::AddConst(path, key, dcl) => {
            lemma_const_lands_in_scope(table, path, key, dcl);
        },
    }
}

/// An entry that has nothing left to do changes nothing.
pub proof fn lemma_settled_is_idle(table: ModuleView, op: TableOp)
    requires
        settled(table, op),
    ensures
        apply_op(table, op) == table,
{
    match op {
        TableOp::EnsureModule(path) => {
            lemma_put_same(table, path);
        },
        TableOp::AddType(path, key, dcl) => {
            lemma_put_same(table, path);
        },
        TableOp::AddConst(path, key, dcl) => {
            lemma_put_same(table, path);
        },
    }
}

/// The module that an entry puts in the place of the one at its path: the
/// same sub-modules, and no key less.
proof fn lemma_entry_grows(table: ModuleView, op: TableOp) -> (result: (Seq<Seq<char>>, ModuleView))
    ensures
        apply_op(table, op) == with_module_at(table, result.0, result.1),
        result.1.modules == module_at(table, result.0).modules,
        keeps_keys(module_at(table, result.0), result.1),
{
    match op {
        TableOp::EnsureModule(path) => (path, module_at(table, path)),
        TableOp::AddType(path, key, dcl) => {
            let leaf = module_at(table, path);
            let entered = ModuleView { types: insert_if_absent(leaf.types, key, dcl), ..leaf };
            assert forall|other: Seq<char>| #[trigger] has_key(leaf.types, other) implies has_key(
                entered.types,
                other,
            ) by {
                lemma_insert_keeps_keys(leaf.types, key, dcl, other);
            }
            (path, entered)
        },
        TableOp::AddConst(path, key, dcl) => {
            let leaf = module_at(table, path);
            let entered = ModuleView {
                constants: insert_if_absent(leaf.constants, key, dcl),
                ..leaf
            };
            assert forall|other: Seq<char>| #[trigger]
                has_key(leaf.constants, other) implies has_key(entered.constants, other) by {
                lemma_insert_keeps_keys(leaf.constants, key, dcl, other);
            }
            (path, entered)
        },
    }
}

/// An entry that has nothing left to do has nothing left to do after any
/// other entry.
pub proof fn lemma_settled_stays(table: ModuleView, op: TableOp, other: TableOp)
    requires
        settled(table, op),
    ensures
        settled(apply_op(table, other), op),
{
    let put = lemma_entry_grows(table, other);
    match op {
        TableOp::EnsureModule(path) => {
            lemma_put_preserves(table, put.0, put.1, path);
        },
        TableOp::AddType(path, key, _) => {
            lemma_put_preserves(table, put.0, put.1, path);
        },
        TableOp::AddConst(path, key, _) => {
            lemma_put_preserves(table, put.0, put.1, path);
        },
    }
}

/// An entry that has nothing left to do has nothing left to do after any
/// sequence of entries.
pub proof fn lemma_settled_stays_through(table: ModuleView, op: TableOp, ops: Seq<TableOp>)
    requires
        settled(table, op),
    ensures
        settled(apply_ops(table, ops), op),
    decreases ops.len(),
{
    if ops.len() > 0 {
        lemma_settled_stays_through(table, op, ops.drop_last());
        lemma_settled_stays(apply_ops(table, ops.drop_last()), op, ops.last());
    }
}

/// After a sequence of entries each of them has nothing left to do.
pub proof fn lemma_entries_settle(table: ModuleView, ops: Seq<TableOp>, index: int)
    requires
        0 <= index < ops.len(),
    ensures
        settled(apply_ops(table, ops), ops[index]),
    decreases ops.len(),
{
    let before = apply_ops(table, ops.drop_last());
    if index == ops.len() - 1 {
        lemma_entry_settles(before, ops.last());
    } else {
        lemma_entries_settle(table, ops.drop_last(), index);
        lemma_settled_stays(before, ops[index], ops.last());
    }
}

/// Entries that have nothing left to do change nothing.
pub proof fn lemma_settled_are_idle(table: ModuleView, ops: Seq<TableOp>)
    requires
        forall|i: int| 0 <= i < ops.len() ==> settled(table, #[trigger] ops[i]),
    ensures
        apply_ops(table, ops) == table,
    decreases ops.len(),
{
    if ops.len() > 0 {
        assert forall|i: int| 0 <= i < ops.drop_last().len() implies settled(
            table,
            #[trigger] ops.drop_last()[i],
        ) by {
            assert(ops.drop_last()[i] == ops[i]);
        }
        lemma_settled_are_idle(table, ops.drop_last());
        lemma_settled_is_idle(table, ops.last());
    }
}

/// Entries made once more change nothing, whatever was entered in between.
pub proof fn lemma_entries_made_again(table: ModuleView, entries: Seq<TableOp>, between: Seq<TableOp>)
    ensures
        apply_ops(apply_ops(apply_ops(table, entries), between), entries) == apply_ops(
            apply_ops(table, entries),
            between,
        ),
{
    let once = apply_ops(table, entries);
    let later = apply_ops(once, between);
    assert forall|i: int| 0 <= i < entries.len() implies settled(later, #[trigger] entries[i]) by {
        lemma_entries_settle(table, entries, i);
        lemma_settled_stays_through(once, entries[i], between);
    }
    lemma_settled_are_idle(later, entries);
}

/// Including a source once more changes nothing: the walk of a tree under a
/// scope, made again under that scope after anything else was entered, leaves
/// the table as it was. What an include directive brought in is such a tree,
/// so a source included twice counts once, where it was first included.
pub proof fn lemma_walk_again(
    table: ModuleView,
    tree: ParseTree,
    scope: Seq<Seq<char>>,
    between: Seq<TableOp>,
)
    ensures
        apply_ops(apply_ops(apply_ops(table, walk(tree, scope).ops), between), walk(tree, scope).ops)
            == apply_ops(apply_ops(table, walk(tree, scope).ops), between),
        apply_ops(table, walk(tree, scope).ops + between + walk(tree, scope).ops) == apply_ops(
            table,
            walk(tree, scope).ops + between,
        ),
{
    let entries = walk(tree, scope).ops;
    lemma_entries_made_again(table, entries, between);
    lemma_apply_ops_concat(table, entries, between);
    lemma_apply_ops_concat(table, entries + between, entries);
}

/// Whether each of the first `count` sub-modules bears the name under which
/// it stands, and so do the sub-modules below it.
pub open spec fn named_first(modules: Seq<(Seq<char>, ModuleView)>, count: nat) -> bool
    decreases modules, count,
{
    if count == 0 || count > modules.len() {
        true
    } else {
        &&& named_first(modules, (count - 1) as nat)
        &&& modules[count - 1].1.id == Some(modules[count - 1].0)
        &&& well_named(modules[count - 1].1)
    }
}

/// Whether every module below `table` bears the name under which it stands
/// among the sub-modules of its parent.
pub open spec fn well_named(table: ModuleView) -> bool
    decreases table,
{
    named_first(table.modules, table.modules.len())
}

/// What holds of the first sub-modules holds of each of them.
pub proof fn lemma_named_each(modules: Seq<(Seq<char>, ModuleView)>, count: nat, index: int)
    requires
        named_first(modules, count),
        0 <= index < count <= modules.len(),
    ensures
        modules[index].1.id == Some(modules[index].0),
        well_named(modules[index].1),
    decreases count,
{
    if index < count - 1 {
        lemma_named_each(modules, (count - 1) as nat, index);
    }
}

/// What holds of each sub-module holds of the first of them.
proof fn lemma_named_all(modules: Seq<(Seq<char>, ModuleView)>, count: nat)
    requires
        count <= modules.len(),
        forall|i: int|
            0 <= i < count ==> (#[trigger] modules[i]).1.id == Some(modules[i].0) && well_named(
                modules[i].1,
            ),
    ensures
        named_first(modules, count),
    decreases count,
{
    if count > 0 {
        lemma_named_all(modules, (count - 1) as nat);
    }
}

/// A module put at a path keeps the names in order, provided that it bears
/// the name of the path's end and that the names below it are in order.
proof fn lemma_put_keeps_names(table: ModuleView, path: Seq<Seq<char>>, leaf: ModuleView)
    requires
        well_named(table),
        well_named(leaf),
        path.len() > 0 ==> leaf.id == Some(path.last()),
    ensures
        well_named(with_module_at(table, path, leaf)),
    decreases path.len(),
{
    if path.len() > 0 {
        let fresh = empty_module(Some(path[0]));
        let entries = insert_if_absent(table.modules, path[0], fresh);
        lemma_insert_if_absent(table.modules, path[0], fresh);
        lemma_key_index(entries, path[0]);
        let i = key_index(entries, path[0]);
        let rest = path.drop_first();
        let child = with_module_at(entries[i].1, rest, leaf);
        assert forall|k: int| 0 <= k < entries.len() implies (#[trigger] entries[k]).1.id == Some(
            entries[k].0,
        ) && well_named(entries[k].1) by {
            if k < table.modules.len() {
                lemma_named_each(table.modules, table.modules.len(), k);
            }
        }
        if rest.len() > 0 {
            assert(rest.last() == path.last());
        }
        lemma_put_keeps_names(entries[i].1, rest, leaf);
        lemma_module_id(entries[i].1, rest, leaf);
        let updated = entries.update(i, (entries[i].0, child));
        assert forall|k: int| 0 <= k < updated.len() implies (#[trigger] updated[k]).1.id == Some(
            updated[k].0,
        ) && well_named(updated[k].1) by {
            if k != i {
                assert(updated[k] == entries[k]);
            }
        }
        lemma_named_all(updated, updated.len());
    }
}

/// A module put at a path that is not empty leaves the name of the module
/// above it as it was.
proof fn lemma_module_id(table: ModuleView, path: Seq<Seq<char>>, leaf: ModuleView)
    ensures
        path.len() > 0 ==> with_module_at(table, path, leaf).id == table.id,
        path.len() == 0 ==> with_module_at(table, path, leaf) == leaf,
{
}

/// The module at a path bears the name of the path's end, and the names below
/// it are in order, where the names of the table are.
pub proof fn lemma_module_at_named(table: ModuleView, path: Seq<Seq<char>>)
    requires
        well_named(table),
    ensures
        well_named(module_at(table, path)),
        path.len() > 0 ==> module_at(table, path).id == Some(path.last()),
    decreases path.len(),
{
    if path.len() > 0 {
        let fresh = empty_module(Some(path[0]));
        let entries = insert_if_absent(table.modules, path[0], fresh);
        lemma_insert_if_absent(table.modules, path[0], fresh);
        lemma_key_index(entries, path[0]);
        let i = key_index(entries, path[0]);
        let rest = path.drop_first();
        if i < table.modules.len() {
            lemma_named_each(table.modules, table.modules.len(), i);
        }
        if rest.len() > 0 {
            assert(rest.last() == path.last());
        }
        lemma_module_at_named(entries[i].1, rest);
    }
}

/// An entry keeps the names in order.
pub proof fn lemma_entry_keeps_names(table: ModuleView, op: TableOp)
    requires
        well_named(table),
    ensures
        well_named(apply_op(table, op)),
{
    match op {
        TableOp::EnsureModule(path) => {
            lemma_module_at_named(table, path);
            lemma_put_keeps_names(table, path, module_at(table, path));
        },
        TableOp::AddType(path, key, dcl) => {
            let leaf = module_at(table, path);
            lemma_module_at_named(table, path);
            lemma_put_keeps_names(
                table,
                path,
                ModuleView { types: insert_if_absent(leaf.types, key, dcl), ..leaf },
            );
        },
        TableOp::AddConst(path, key, dcl) => {
            let leaf = module_at(table, path);
            lemma_module_at_named(table, path);
            lemma_put_keeps_names(
                table,
                path,
                ModuleView { constants: insert_if_absent(leaf.constants, key, dcl), ..leaf },
            );
        },
    }
}

/// Every table that entries make of the empty root has its names in order:
/// each module bears the name under which its parent holds it.
pub proof fn lemma_entries_keep_names(ops: Seq<TableOp>)
    ensures
        well_named(apply_ops(empty_module(None), ops)),
    decreases ops.len(),
{
    if ops.len() > 0 {
        lemma_entries_keep_names(ops.drop_last());
        lemma_entry_keeps_names(apply_ops(empty_module(None), ops.drop_last()), ops.last());
    }
}

} // verus!
