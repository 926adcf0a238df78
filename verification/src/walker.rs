//! The walk over a parse tree that fills the module table.

use vstd::prelude::*;
use vstd::string::*;
use crate::context::Context;
use crate::error::{IdlError, IdlFailure};
use crate::module::ModuleView;
use crate::text::texts;
use crate::tree::{
    lemma_children, malformed, trees_of, ParseError, ParseErrorKind, ParseNode, ParseTree,
    Production,
};
use crate::types::{IdlConstDcl, IdlTypeDcl, IdlTypeDclKind, IdlTypeSpec};
use crate::walk::{
    apply_ops, lemma_apply_one, lemma_apply_ops_concat, walk, walk_const, walk_declarator,
    walk_declarators, walk_each, walk_enum, walk_struct, walk_typedef, walk_union, walk_until,
    TableOp,
};

verus! {

/// The view of how a walk ended.
pub open spec fn outcome(result: Result<(), IdlError>) -> Result<(), IdlFailure> {
    match result {
        Ok(_) => Ok(()),
        Err(error) => Err(error@),
    }
}

/// The failure of a walk over a node whose shape is wrong.
fn shape_error(kind: ParseErrorKind, pos: usize) -> (result: Result<(), IdlError>)
    ensures
        outcome(result) == Err::<(), IdlFailure>(IdlFailure::ParserError(malformed(kind, pos))),
{
    Err(IdlError::ParserError(ParseError::malformed(kind, pos)))
}

impl<'i> Context<'i> {
    /// Enters the type that a declarator of a type declaration declares.
    pub fn process_declarator(&mut self, scope: &Vec<String>, node: &ParseNode, type_spec: &IdlTypeSpec) -> (result:
        Result<(), IdlError>)
        ensures
            final(self).root_module@ == apply_ops(
                old(self).root_module@,
                walk_declarator(node@, texts(scope@), type_spec@).ops,
            ),
            outcome(result) == walk_declarator(node@, texts(scope@), type_spec@).result,
            final(self).config == old(self).config,
    {
        proof {
            lemma_apply_none(self.root_module@);
        }
        match self.read_declarator(node, type_spec, true, false) {
            Ok(declared) => {
                let key = declared.0.clone();
                let type_dcl = IdlTypeDcl(IdlTypeDclKind::TypeDcl(declared.0, declared.1));
                proof {
                    lemma_apply_one(
                        self.root_module@,
                        TableOp::AddType(texts(scope@), key@, type_dcl@),
                    );
                }
                self.add_type_dcl(scope, key, type_dcl);
                Ok(())
            },
            Err(error) => Err(IdlError::ParserError(error)),
        }
    }

    /// Enters the structure that a structure definition declares.
    fn process_struct(&mut self, scope: &Vec<String>, node: &ParseNode) -> (result: Result<
        (),
        IdlError,
    >)
        ensures
            final(self).root_module@ == apply_ops(
                old(self).root_module@,
                walk_struct(node@, texts(scope@)).ops,
            ),
            outcome(result) == walk_struct(node@, texts(scope@)).result,
            final(self).config == old(self).config,
    {
        proof {
            lemma_children(*node);
            lemma_apply_none(self.root_module@);
        }
        if node.children.len() == 0 {
            return shape_error(ParseErrorKind::MissingName, node.pos);
        }
        proof {
            lemma_children(node.children[0]);
        }
        let id = node.children[0].text.clone();
        let key = id.clone();
        match self.read_struct_members(&node.children, 1) {
            Ok(members) => {
                let type_dcl = IdlTypeDcl(IdlTypeDclKind::StructDcl(id, members));
                proof {
                    lemma_apply_one(
                        self.root_module@,
                        TableOp::AddType(texts(scope@), key@, type_dcl@),
                    );
                }
                self.add_type_dcl(scope, key, type_dcl);
                Ok(())
            },
            Err(error) => Err(IdlError::ParserError(error)),
        }
    }

    /// Enters the union that a union definition declares.
    fn process_union(&mut self, scope: &Vec<String>, node: &ParseNode) -> (result: Result<
        (),
        IdlError,
    >)
        ensures
            final(self).root_module@ == apply_ops(
                old(self).root_module@,
                walk_union(node@, texts(scope@)).ops,
            ),
            outcome(result) == walk_union(node@, texts(scope@)).result,
            final(self).config == old(self).config,
    {
        proof {
            lemma_children(*node);
            lemma_apply_none(self.root_module@);
        }
        if node.children.len() == 0 {
            return shape_error(ParseErrorKind::MissingName, node.pos);
        }
        let id = match self.read_identifier(&node.children[0]) {
            Ok(id) => id,
            Err(error) => {
                return Err(IdlError::ParserError(error));
            },
        };
        if node.children.len() == 1 {
            return shape_error(ParseErrorKind::MissingUnionPart, node.pos);
        }
        let discriminator = match self.read_switch_type_spec(&node.children[1]) {
            Ok(type_spec) => type_spec,
            Err(error) => {
                return Err(IdlError::ParserError(error));
            },
        };
        if node.children.len() == 2 {
            return shape_error(ParseErrorKind::MissingUnionPart, node.pos);
        }
        match self.read_switch_body(&node.children[2]) {
            Ok(cases) => {
                let key = id.clone();
                let type_dcl = IdlTypeDcl(IdlTypeDclKind::UnionDcl(id, discriminator, cases));
                proof {
                    lemma_apply_one(
                        self.root_module@,
                        TableOp::AddType(texts(scope@), key@, type_dcl@),
                    );
                }
                self.add_type_dcl(scope, key, type_dcl);
                Ok(())
            },
            Err(error) => Err(IdlError::ParserError(error)),
        }
    }

    /// Enters the types that a type declaration declares.
    fn process_typedef(&mut self, scope: &Vec<String>, node: &ParseNode) -> (result: Result<
        (),
        IdlError,
    >)
        ensures
            final(self).root_module@ == apply_ops(
                old(self).root_module@,
                walk_typedef(node@, texts(scope@)).ops,
            ),
            outcome(result) == walk_typedef(node@, texts(scope@)).result,
            final(self).config == old(self).config,
    {
        proof {
            lemma_children(*node);
            lemma_apply_none(self.root_module@);
        }
        if node.children.len() == 0 {
            return shape_error(ParseErrorKind::MissingTypeDeclarator, node.pos);
        }
        let type_spec = match self.read_type_spec(&node.children[0]) {
            Ok(type_spec) => type_spec,
            Err(error) => {
                return Err(IdlError::ParserError(error));
            },
        };
        if node.children.len() == 1 {
            return shape_error(ParseErrorKind::MissingTypeDeclarator, node.pos);
        }
        let declarators = &node.children[1];
        proof {
            lemma_children(*declarators);
        }
        let ghost items = declarators@.children;
        let ghost path = texts(scope@);
        let ghost declared = type_spec@;
        let mut i: usize = 0;
        while i < declarators.children.len()
            invariant
                0 <= i <= declarators.children.len(),
                items == declarators@.children,
                items == trees_of(declarators.children@),
                path == texts(scope@),
                declared == type_spec@,
                self.config == old(self).config,
                self.root_module@ == apply_ops(
                    old(self).root_module@,
                    walk_declarators(items, i as nat, path, declared),
                ),
            decreases declarators.children.len() - i,
        {
            let ghost before = walk_declarators(items, i as nat, path, declared);
            let ghost step = walk_declarator(items[i as int], path, declared).ops;
            proof {
                lemma_apply_ops_concat(old(self).root_module@, before, step);
            }
            let _ = self.process_declarator(scope, &declarators.children[i], &type_spec);
            i = i + 1;
        }
        Ok(())
    }

    /// Enters the enumeration that an enumeration declares.
    fn process_enum(&mut self, scope: &Vec<String>, node: &ParseNode) -> (result: Result<
        (),
        IdlError,
    >)
        ensures
            final(self).root_module@ == apply_ops(
                old(self).root_module@,
                walk_enum(node@, texts(scope@)).ops,
            ),
            outcome(result) == walk_enum(node@, texts(scope@)).result,
            final(self).config == old(self).config,
    {
        proof {
            lemma_children(*node);
            lemma_apply_none(self.root_module@);
        }
        if node.children.len() == 0 {
            return shape_error(ParseErrorKind::MissingName, node.pos);
        }
        proof {
            lemma_children(node.children[0]);
        }
        let id = node.children[0].text.clone();
        let key = id.clone();
        match self.read_identifiers_from(&node.children, 1) {
            Ok(enumerators) => {
                let type_dcl = IdlTypeDcl(IdlTypeDclKind::EnumDcl(id, enumerators));
                proof {
                    lemma_apply_one(
                        self.root_module@,
                        TableOp::AddType(texts(scope@), key@, type_dcl@),
                    );
                }
                self.add_type_dcl(scope, key, type_dcl);
                Ok(())
            },
            Err(error) => Err(IdlError::ParserError(error)),
        }
    }

    /// Enters the constant that a constant declaration declares.
    fn process_const(&mut self, scope: &Vec<String>, node: &ParseNode) -> (result: Result<
        (),
        IdlError,
    >)
        ensures
            final(self).root_module@ == apply_ops(
                old(self).root_module@,
                walk_const(node@, texts(scope@)).ops,
            ),
            outcome(result) == walk_const(node@, texts(scope@)).result,
            final(self).config == old(self).config,
    {
        proof {
            lemma_children(*node);
            lemma_apply_none(self.root_module@);
        }
        if node.children.len() == 0 {
            return shape_error(ParseErrorKind::MissingConstPart, node.pos);
        }
        let typedcl = match self.read_type_spec(&node.children[0]) {
            Ok(type_spec) => type_spec,
            Err(error) => {
                return Err(IdlError::ParserError(error));
            },
        };
        if node.children.len() == 1 {
            return shape_error(ParseErrorKind::MissingConstPart, node.pos);
        }
        let id = match self.read_identifier(&node.children[1]) {
            Ok(id) => id,
            Err(error) => {
                return Err(IdlError::ParserError(error));
            },
        };
        if node.children.len() == 2 {
            return shape_error(ParseErrorKind::MissingConstPart, node.pos);
        }
        match self.read_const_expr(&node.children[2]) {
            Ok(value) => {
                let key = id.clone();
                let const_dcl = IdlConstDcl { id, typedcl, value };
                proof {
                    lemma_apply_one(
                        self.root_module@,
                        TableOp::AddConst(texts(scope@), key@, const_dcl@),
                    );
                }
                self.add_const_dcl(scope, key, const_dcl);
                Ok(())
            },
            Err(error) => Err(IdlError::ParserError(error)),
        }
    }
}

impl<'i> Context<'i> {
    /// Walks the children `from..` of `node` under `scope`, passing over those
    /// that fail.
    fn process_each(&mut self, scope: &mut Vec<String>, node: &ParseNode, from: usize)
        requires
            from <= node@.children.len(),
        ensures
            final(self).root_module@ == apply_ops(
                old(self).root_module@,
                walk_each(
                    node@.children,
                    from as nat,
                    node@.children.len(),
                    texts(old(scope)@),
                ),
            ),
            texts(final(scope)@) == texts(old(scope)@),
            final(self).config == old(self).config,
        decreases node@, 0nat,
    {
        proof {
            lemma_children(*node);
            lemma_apply_none(self.root_module@);
        }
        let ghost items = node@.children;
        let ghost path = texts(scope@);
        let mut i: usize = from;
        while i < node.children.len()
            invariant
                from <= i <= node.children.len(),
                items == node@.children,
                items == trees_of(node.children@),
                path == texts(scope@),
                path == texts(old(scope)@),
                self.config == old(self).config,
                self.root_module@ == apply_ops(
                    old(self).root_module@,
                    walk_each(items, from as nat, i as nat, path),
                ),
            decreases node.children.len() - i,
        {
            let ghost before = walk_each(items, from as nat, i as nat, path);
            let ghost step = walk(items[i as int], path).ops;
            proof {
                lemma_apply_ops_concat(old(self).root_module@, before, step);
            }
            let _ = self.process(scope, &node.children[i]);
            i = i + 1;
        }
    }

    /// Walks what an include directive brought in, up to the first failure.
    fn process_included(&mut self, scope: &mut Vec<String>, brought: &ParseNode) -> (result: Result<
        (),
        IdlError,
    >)
        ensures
            final(self).root_module@ == apply_ops(
                old(self).root_module@,
                walk_until(brought@.children, brought@.children.len(), texts(old(scope)@)).ops,
            ),
            outcome(result) == walk_until(
                brought@.children,
                brought@.children.len(),
                texts(old(scope)@),
            ).result,
            texts(final(scope)@) == texts(old(scope)@),
            final(self).config == old(self).config,
        decreases brought@, 0nat,
    {
        proof {
            lemma_children(*brought);
            lemma_apply_none(self.root_module@);
        }
        let ghost items = brought@.children;
        let ghost path = texts(scope@);
        let mut i: usize = 0;
        while i < brought.children.len()
            invariant
                0 <= i <= brought.children.len(),
                items == brought@.children,
                items == trees_of(brought.children@),
                path == texts(scope@),
                path == texts(old(scope)@),
                self.config == old(self).config,
                walk_until(items, i as nat, path).result == Ok::<(), IdlFailure>(()),
                self.root_module@ == apply_ops(
                    old(self).root_module@,
                    walk_until(items, i as nat, path).ops,
                ),
            decreases brought.children.len() - i,
        {
            let ghost before = walk_until(items, i as nat, path).ops;
            let ghost step = walk(items[i as int], path).ops;
            proof {
                lemma_apply_ops_concat(old(self).root_module@, before, step);
            }
            match self.process(scope, &brought.children[i]) {
                Ok(_) => {},
                Err(error) => {
                    proof {
                        lemma_walk_until_failure(items, (i + 1) as nat, items.len(), path);
                    }
                    return Err(error);
                },
            }
            i = i + 1;
        }
        Ok(())
    }

    /// Walks a parse tree under `scope` and enters what it declares into the
    /// module table.
    pub fn process(&mut self, scope: &mut Vec<String>, node: &ParseNode) -> (result: Result<
        (),
        IdlError,
    >)
        ensures
            final(self).root_module@ == apply_ops(
                old(self).root_module@,
                walk(node@, texts(old(scope)@)).ops,
            ),
            outcome(result) == walk(node@, texts(old(scope)@)).result,
            texts(final(scope)@) == texts(old(scope)@),
            final(self).config == old(self).config,
        decreases node@, 1nat,
    {
        proof {
            lemma_children(*node);
            lemma_apply_none(self.root_module@);
        }
        match node.kind() {
            Production::ModuleDcl => {
                if node.children.len() == 0 {
                    return shape_error(ParseErrorKind::MissingName, node.pos);
                }
                proof {
                    lemma_children(node.children[0]);
                }
                let ghost outer = texts(scope@);
                let ghost inner = outer.push(node@.children[0].text);
                scope.push(node.children[0].text.clone());
                assert(texts(scope@) =~= inner);
                {
                    let _ = self.lookup_module(scope);
                }
                proof {
                    lemma_apply_one(old(self).root_module@, TableOp::EnsureModule(inner));
                    lemma_apply_ops_concat(
                        old(self).root_module@,
                        seq![TableOp::EnsureModule(inner)],
                        walk_each(node@.children, 1, node@.children.len(), inner),
                    );
                }
                self.process_each(scope, node, 1);
                let ghost filled = scope@;
                assert(texts(filled).len() == inner.len());
                let _ = scope.pop();
                assert(texts(scope@) =~= texts(filled).drop_last());
                assert(inner.drop_last() =~= outer);
                Ok(())
            },
            Production::StructDef => self.process_struct(scope, node),
            Production::UnionDef => self.process_union(scope, node),
            Production::TypeDeclarator => self.process_typedef(scope, node),
            Production::EnumDcl => self.process_enum(scope, node),
            Production::ConstDcl => self.process_const(scope, node),
            Production::IncludeDirective => {
                if node.children.len() == 0 {
                    return Ok(());
                }
                proof {
                    lemma_children(node.children[0]);
                }
                if node.children.len() == 1 {
                    return Err(IdlError::FileNotFound(node.children[0].text.clone()));
                }
                let brought = &node.children[1];
                proof {
                    lemma_children(*brought);
                }
                match brought.kind() {
                    Production::IncludedSpecification => self.process_included(scope, brought),
                    Production::IncludeRejected => Err(
                        IdlError::ParserError(
                            ParseError {
                                kind: ParseErrorKind::Rejected,
                                pos: brought.pos,
                                detail: brought.text.clone(),
                            },
                        ),
                    ),
                    _ => Err(IdlError::FileNotFound(node.children[0].text.clone())),
                }
            },
            _ => {
                self.process_each(scope, node, 0);
                Ok(())
            },
        }
    }
}

/// No entry applied leaves the table as it is.
pub proof fn lemma_apply_none(table: ModuleView)
    ensures
        apply_ops(table, Seq::<TableOp>::empty()) == table,
{
}

/// A failure met among the first items ends the walk of the whole.
proof fn lemma_walk_until_failure(
    items: Seq<ParseTree>,
    count: nat,
    total: nat,
    scope: Seq<Seq<char>>,
)
    requires
        count <= total <= items.len(),
        walk_until(items, count, scope).result is Err,
    ensures
        walk_until(items, total, scope) == walk_until(items, count, scope),
    decreases total,
{
    if count < total {
        lemma_walk_until_failure(items, count, (total - 1) as nat, scope);
    }
}

} // verus!
