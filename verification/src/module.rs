//! The module table: a tree of modules, each with its sub-modules, types and
//! constants in the order in which they were first declared.
//!
//! The three dictionaries of a module are insertion-ordered maps of the
//! `linked_hash_map` crate. What such a map holds is named here as a sequence
//! of keys and values, oldest first, and each call into the crate states its
//! effect over that sequence.

use vstd::prelude::*;
use vstd::string::*;
use linked_hash_map::LinkedHashMap;
use crate::text::{opt_text, texts};
use crate::types::{ConstDclView, IdlConstDcl, IdlTypeDcl, TypeDclView};

verus! {

/// `linked_hash_map::LinkedHashMap`, carried as an opaque value.
#[verifier::external_type_specification]
#[verifier::external_body]
#[verifier::reject_recursive_types(K)]
#[verifier::reject_recursive_types(V)]
#[verifier::reject_recursive_types(S)]
pub struct ExLinkedHashMap<K, V, S>(LinkedHashMap<K, V, S>);

/// The entries of a map of type declarations, oldest first.
pub uninterp spec fn type_entries(map: LinkedHashMap<String, IdlTypeDcl>) -> Seq<
    (Seq<char>, TypeDclView),
>;

/// The entries of a map of constant declarations, oldest first.
pub uninterp spec fn const_entries(map: LinkedHashMap<String, IdlConstDcl>) -> Seq<
    (Seq<char>, ConstDclView),
>;

/// The sub-modules of a module by name, in the order of their first mention.
///
/// A `LinkedHashMap<String, IdlModule>` kept behind a field of its own: a
/// module holds modules, and the map type admits no such nesting in a field
/// that the verifier reads.
#[verifier::external_body]
#[derive(Debug)]
pub struct ModuleMap {
    inner: LinkedHashMap<String, IdlModule>,
}

/// The entries of a map of sub-modules, oldest first.
pub uninterp spec fn module_entries(map: ModuleMap) -> Seq<(Seq<char>, ModuleView)>;

/// A module: the root, which has no name, or a named module below it.
#[derive(Debug)]
pub struct IdlModule {
    pub id: Option<String>,
    pub uses: Vec<String>,
    pub modules: ModuleMap,
    pub types: LinkedHashMap<String, IdlTypeDcl>,
    pub constants: LinkedHashMap<String, IdlConstDcl>,
}

/// The mathematical content of a module.
pub struct ModuleView {
    pub id: Option<Seq<char>>,
    pub uses: Seq<Seq<char>>,
    pub modules: Seq<(Seq<char>, ModuleView)>,
    pub types: Seq<(Seq<char>, TypeDclView)>,
    pub constants: Seq<(Seq<char>, ConstDclView)>,
}

impl View for IdlModule {
    type V = ModuleView;

    open spec fn view(&self) -> ModuleView {
        ModuleView {
            id: opt_text(self.id),
            uses: texts(self.uses@),
            modules: module_entries(self.modules),
            types: type_entries(self.types),
            constants: const_entries(self.constants),
        }
    }
}

/// The position of the first entry under `key`; the length of `entries` if
/// there is none.
pub open spec fn key_index<V>(entries: Seq<(Seq<char>, V)>, key: Seq<char>) -> int
    decreases entries.len(),
{
    if entries.len() == 0 {
        0
    } else if entries[0].0 == key {
        0
    } else {
        1 + key_index(entries.drop_first(), key)
    }
}

/// Whether some entry stands under `key`.
pub open spec fn has_key<V>(entries: Seq<(Seq<char>, V)>, key: Seq<char>) -> bool {
    key_index(entries, key) < entries.len()
}

/// The first declaration wins: `entries` unchanged where `key` is taken, and
/// with the new entry at the end where it is not.
pub open spec fn insert_if_absent<V>(entries: Seq<(Seq<char>, V)>, key: Seq<char>, value: V) -> Seq<
    (Seq<char>, V),
> {
    if has_key(entries, key) {
        entries
    } else {
        entries.push((key, value))
    }
}

/// A module with the given name and nothing in it.
pub open spec fn empty_module(id: Option<Seq<char>>) -> ModuleView {
    ModuleView {
        id,
        uses: Seq::empty(),
        modules: Seq::empty(),
        types: Seq::empty(),
        constants: Seq::empty(),
    }
}

/// `key_index` is a position of `entries` or its length, and an entry found
/// stands under the key.
pub proof fn lemma_key_index<V>(entries: Seq<(Seq<char>, V)>, key: Seq<char>)
    ensures
        0 <= key_index(entries, key) <= entries.len(),
        has_key(entries, key) ==> entries[key_index(entries, key)].0 == key,
        forall|i: int| 0 <= i < key_index(entries, key) ==> (#[trigger] entries[i]).0 != key,
    decreases entries.len(),
{
    if entries.len() > 0 && entries[0].0 != key {
        let rest = entries.drop_first();
        lemma_key_index(rest, key);
        assert forall|i: int| 0 <= i < key_index(entries, key) implies (#[trigger] entries[i]).0
            != key by {
            if i > 0 {
                assert(entries[i] == rest[i - 1]);
            }
        }
    }
}

/// After `insert_if_absent` the key is taken, at the place where it was or at
/// the end.
pub proof fn lemma_insert_if_absent<V>(entries: Seq<(Seq<char>, V)>, key: Seq<char>, value: V)
    ensures
        has_key(insert_if_absent(entries, key, value), key),
        key_index(insert_if_absent(entries, key, value), key) == key_index(entries, key),
        insert_if_absent(insert_if_absent(entries, key, value), key, value) == insert_if_absent(
            entries,
            key,
            value,
        ),
    decreases entries.len(),
{
    lemma_key_index(entries, key);
    if !has_key(entries, key) {
        lemma_key_index_push(entries, key, value);
    }
}

/// Where `key` is not taken, an entry pushed under it is found at the end.
proof fn lemma_key_index_push<V>(entries: Seq<(Seq<char>, V)>, key: Seq<char>, value: V)
    requires
        !has_key(entries, key),
    ensures
        key_index(entries.push((key, value)), key) == entries.len(),
    decreases entries.len(),
{
    lemma_key_index(entries, key);
    let pushed = entries.push((key, value));
    if entries.len() > 0 {
        assert(pushed[0] == entries[0]);
        assert(pushed.drop_first() =~= entries.drop_first().push((key, value)));
        lemma_key_index(entries.drop_first(), key);
        lemma_key_index_push(entries.drop_first(), key, value);
    } else {
        assert(pushed[0].0 == key);
    }
}

/// `LinkedHashMap::new`: a map with no entry.
#[verifier::external_body]
fn new_type_map() -> (map: LinkedHashMap<String, IdlTypeDcl>)
    ensures
        type_entries(map) == Seq::<(Seq<char>, TypeDclView)>::empty(),
{
    LinkedHashMap::new()
}

/// `LinkedHashMap::new`: a map with no entry.
#[verifier::external_body]
fn new_const_map() -> (map: LinkedHashMap<String, IdlConstDcl>)
    ensures
        const_entries(map) == Seq::<(Seq<char>, ConstDclView)>::empty(),
{
    LinkedHashMap::new()
}

/// `LinkedHashMap::entry` followed by `Entry::or_insert`: an occupied entry
/// keeps its value and its place, a vacant one takes the value at the end.
#[verifier::external_body]
fn insert_type_if_absent(map: &mut LinkedHashMap<String, IdlTypeDcl>, key: String, dcl: IdlTypeDcl)
    ensures
        type_entries(*final(map)) == insert_if_absent(type_entries(*old(map)), key@, dcl@),
{
    map.entry(key).or_insert(dcl);
}

/// `LinkedHashMap::entry` followed by `Entry::or_insert`: an occupied entry
/// keeps its value and its place, a vacant one takes the value at the end.
#[verifier::external_body]
fn insert_const_if_absent(
    map: &mut LinkedHashMap<String, IdlConstDcl>,
    key: String,
    dcl: IdlConstDcl,
)
    ensures
        const_entries(*final(map)) == insert_if_absent(const_entries(*old(map)), key@, dcl@),
{
    map.entry(key).or_insert(dcl);
}

/// `LinkedHashMap::values`: the values in insertion order.
#[verifier::external_body]
fn type_values(map: &LinkedHashMap<String, IdlTypeDcl>) -> (values: Vec<&IdlTypeDcl>)
    ensures
        values@.len() == type_entries(*map).len(),
        forall|i: int|
            0 <= i < values@.len() ==> (#[trigger] values@[i])@ == type_entries(*map)[i].1,
{
    map.values().collect()
}

/// `LinkedHashMap::values`: the values in insertion order.
#[verifier::external_body]
fn const_values(map: &LinkedHashMap<String, IdlConstDcl>) -> (values: Vec<&IdlConstDcl>)
    ensures
        values@.len() == const_entries(*map).len(),
        forall|i: int|
            0 <= i < values@.len() ==> (#[trigger] values@[i])@ == const_entries(*map)[i].1,
{
    map.values().collect()
}

impl ModuleMap {
    /// `LinkedHashMap::new`: a map with no entry.
    #[verifier::external_body]
    fn new() -> (map: ModuleMap)
        ensures
            module_entries(map) == Seq::<(Seq<char>, ModuleView)>::empty(),
    {
        ModuleMap { inner: LinkedHashMap::new() }
    }

    /// `LinkedHashMap::entry` followed by `Entry::or_insert`: the module under
    /// `key`, which is `fresh` at the end of the map where the key was vacant.
    /// What the caller then does to that module is what the map holds in its
    /// place.
    #[verifier::external_body]
    fn entry_or_insert(&mut self, key: String, fresh: IdlModule) -> (child: &mut IdlModule)
        ensures
            ({
                let entries = insert_if_absent(module_entries(*old(self)), key@, fresh@);
                let i = key_index(entries, key@);
                &&& child@ == entries[i].1
                &&& module_entries(*final(self)) == entries.update(
                    i,
                    (entries[i].0, final(child)@),
                )
            }),
    {
        self.inner.entry(key).or_insert(fresh)
    }

    /// `LinkedHashMap::values`: the modules in insertion order.
    #[verifier::external_body]
    fn values(&self) -> (values: Vec<&IdlModule>)
        ensures
            values@.len() == module_entries(*self).len(),
            forall|i: int|
                0 <= i < values@.len() ==> (#[trigger] values@[i])@ == module_entries(*self)[i].1,
    {
        self.inner.values().collect()
    }
}

/// The module reached from `module` along `path`, each missing module on the
/// way being taken as a new empty one.
pub open spec fn module_at(module: ModuleView, path: Seq<Seq<char>>) -> ModuleView
    decreases path.len(),
{
    if path.len() == 0 {
        module
    } else {
        let entries = insert_if_absent(module.modules, path[0], empty_module(Some(path[0])));
        module_at(entries[key_index(entries, path[0])].1, path.drop_first())
    }
}

/// `module` with every module along `path` in place, created empty at the end
/// of its parent's sub-modules where it was missing, and with `leaf` in the
/// place of the last one.
pub open spec fn with_module_at(module: ModuleView, path: Seq<Seq<char>>, leaf: ModuleView) -> ModuleView
    decreases path.len(),
{
    if path.len() == 0 {
        leaf
    } else {
        let entries = insert_if_absent(module.modules, path[0], empty_module(Some(path[0])));
        let i = key_index(entries, path[0]);
        ModuleView {
            modules: entries.update(
                i,
                (entries[i].0, with_module_at(entries[i].1, path.drop_first(), leaf)),
            ),
            ..module
        }
    }
}

/// `module` with every module along `path` in place.
pub open spec fn ensure_module(module: ModuleView, path: Seq<Seq<char>>) -> ModuleView {
    with_module_at(module, path, module_at(module, path))
}

/// `module` with the type declaration entered under `key` in the module at
/// `path`, unless that module has a type under `key` already.
pub open spec fn add_type(
    module: ModuleView,
    path: Seq<Seq<char>>,
    key: Seq<char>,
    dcl: TypeDclView,
) -> ModuleView {
    let leaf = module_at(module, path);
    with_module_at(
        module,
        path,
        ModuleView { types: insert_if_absent(leaf.types, key, dcl), ..leaf },
    )
}

/// `module` with the constant entered under `key` in the module at `path`,
/// unless that module has a constant under `key` already.
pub open spec fn add_const(
    module: ModuleView,
    path: Seq<Seq<char>>,
    key: Seq<char>,
    dcl: ConstDclView,
) -> ModuleView {
    let leaf = module_at(module, path);
    with_module_at(
        module,
        path,
        ModuleView { constants: insert_if_absent(leaf.constants, key, dcl), ..leaf },
    )
}

impl IdlModule {
    /// A module with nothing in it.
    pub fn new(id: Option<String>) -> (module: IdlModule)
        ensures
            module@ == empty_module(opt_text(id)),
    {
        let module = IdlModule {
            id,
            uses: Vec::new(),
            modules: ModuleMap::new(),
            types: new_type_map(),
            constants: new_const_map(),
        };
        assert(texts(module.uses@) =~= Seq::<Seq<char>>::empty());
        module
    }

    /// The module at `scope[from..]` below this one; the modules on the way
    /// that were missing are created.
    fn descend(&mut self, scope: &Vec<String>, from: usize) -> (leaf: &mut IdlModule)
        requires
            from <= scope.len(),
        ensures
            leaf@ == module_at(old(self)@, texts(scope@).skip(from as int)),
            final(self)@ == with_module_at(
                old(self)@,
                texts(scope@).skip(from as int),
                final(leaf)@,
            ),
        decreases scope.len() - from,
    {
        if from == scope.len() {
            self
        } else {
            let ghost path = texts(scope@).skip(from as int);
            let key = scope[from].clone();
            let fresh = IdlModule::new(Some(scope[from].clone()));
            proof {
                assert(path[0] == scope@[from as int]@);
                assert(path.drop_first() =~= texts(scope@).skip(from as int + 1));
                lemma_key_index(insert_if_absent(module_entries(self.modules), key@, fresh@), key@);
                lemma_insert_if_absent(module_entries(self.modules), key@, fresh@);
            }
            let child = self.modules.entry_or_insert(key, fresh);
            child.descend(scope, from + 1)
        }
    }

    /// The module at `scope` below this one; the modules on the way that were
    /// missing are created, each empty and at the end of its parent's
    /// sub-modules. What the caller does to the module returned is done to
    /// the module in its place.
    pub fn lookup_or_create(&mut self, scope: &Vec<String>) -> (leaf: &mut IdlModule)
        ensures
            leaf@ == module_at(old(self)@, texts(scope@)),
            final(self)@ == with_module_at(old(self)@, texts(scope@), final(leaf)@),
    {
        assert(texts(scope@).skip(0) =~= texts(scope@));
        self.descend(scope, 0)
    }

    /// The sub-modules in the order of their first mention.
    pub fn submodules(&self) -> (children: Vec<&IdlModule>)
        ensures
            children@.len() == self@.modules.len(),
            forall|i: int|
                0 <= i < children@.len() ==> (#[trigger] children@[i])@ == self@.modules[i].1,
    {
        self.modules.values()
    }

    /// The type declarations in the order of their first declaration.
    pub fn type_dcls(&self) -> (dcls: Vec<&IdlTypeDcl>)
        ensures
            dcls@.len() == self@.types.len(),
            forall|i: int| 0 <= i < dcls@.len() ==> (#[trigger] dcls@[i])@ == self@.types[i].1,
    {
        type_values(&self.types)
    }

    /// The constant declarations in the order of their first declaration.
    pub fn const_dcls(&self) -> (dcls: Vec<&IdlConstDcl>)
        ensures
            dcls@.len() == self@.constants.len(),
            forall|i: int| 0 <= i < dcls@.len() ==> (#[trigger] dcls@[i])@ == self@.constants[i].1,
    {
        const_values(&self.constants)
    }

    /// Enters a type declaration in the module at `scope`, unless that module
    /// has a type under `key` already.
    pub fn add_type(&mut self, scope: &Vec<String>, key: String, dcl: IdlTypeDcl)
        ensures
            final(self)@ == add_type(old(self)@, texts(scope@), key@, dcl@),
    {
        let leaf = self.lookup_or_create(scope);
        insert_type_if_absent(&mut leaf.types, key, dcl);
    }

    /// Enters a constant in the module at `scope`, unless that module has a
    /// constant under `key` already.
    pub fn add_const(&mut self, scope: &Vec<String>, key: String, dcl: IdlConstDcl)
        ensures
            final(self)@ == add_const(old(self)@, texts(scope@), key@, dcl@),
    {
        let leaf = self.lookup_or_create(scope);
        insert_const_if_absent(&mut leaf.constants, key, dcl);
    }
}

impl Default for IdlModule {
    fn default() -> (module: IdlModule)
        ensures
            module@ == empty_module(None),
    {
        IdlModule::new(None)
    }
}

} // verus!
