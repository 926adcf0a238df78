//! The analyzer's state, the module table it fills, and the functions that
//! read the productions of a parse tree.

use vstd::prelude::*;
use vstd::string::*;
use crate::config::Configuration;
use crate::expr::{expr_views, BinaryOp, IdlScopedName, IdlValueExpr, UnaryOp, ValueExprView};
use crate::lower::{
    binary_operator, collect_first, dim_blame, float_parts, last_element_spec,
    lemma_last_element_spec, lower_bound, lower_const_expr, lower_declarator, lower_dim, lower_dims,
    lower_identifier, lower_identifiers, lower_member_declarator, lower_member_declarators,
    lower_scoped_name, lower_struct_member, lower_struct_members, lower_switch_body,
    lower_switch_case, lower_switch_cases, lower_switch_element_declarator,
    lower_switch_element_spec, lower_switch_label, lower_switch_labels, lower_switch_type_spec,
    lower_type_spec, to_uppercase, unary_operator, Declared, FloatParts,
};
use crate::module::{add_const, add_type, empty_module, module_at, with_module_at, IdlModule};
use crate::text::{has_leading_colons, opt_text, str_eq, texts};
use crate::tree::{
    lemma_children, malformed, trees_of, ParseError, ParseErrorKind, ParseFailure, ParseNode,
    ParseTree, Production,
};
use crate::types::{
    bound_view, case_views, label_views, member_views, IdlConstDcl, IdlStructMember, IdlSwitchCase,
    IdlSwitchElement, IdlSwitchLabel, IdlTypeDcl, IdlTypeSpec, StructMemberView, SwitchCaseView,
    SwitchLabelView, TypeSpecView,
};

verus! {

/// The state of an analysis: the settings of the run and the root of the
/// module table.
#[derive(Debug)]
pub struct Context<'i> {
    pub config: &'i Configuration,
    pub root_module: IdlModule,
}

/// The view of what a reader returned.
pub open spec fn lowered<T: View>(result: Result<T, ParseError>) -> Result<T::V, ParseFailure> {
    match result {
        Ok(value) => Ok(value@),
        Err(error) => Err(error@),
    }
}

/// The view of the identifiers that a reader returned.
pub open spec fn lowered_texts(result: Result<Vec<String>, ParseError>) -> Result<
    Seq<Seq<char>>,
    ParseFailure,
> {
    match result {
        Ok(items) => Ok(texts(items@)),
        Err(error) => Err(error@),
    }
}

/// The view of the expressions that a reader returned.
pub open spec fn lowered_exprs(result: Result<Vec<IdlValueExpr>, ParseError>) -> Result<
    Seq<ValueExprView>,
    ParseFailure,
> {
    match result {
        Ok(items) => Ok(expr_views(items@)),
        Err(error) => Err(error@),
    }
}

/// The view of the members that a reader returned.
pub open spec fn lowered_members(result: Result<Vec<IdlStructMember>, ParseError>) -> Result<
    Seq<StructMemberView>,
    ParseFailure,
> {
    match result {
        Ok(items) => Ok(member_views(items@)),
        Err(error) => Err(error@),
    }
}

/// The view of the labels that a reader returned.
pub open spec fn lowered_labels(result: Result<Vec<IdlSwitchLabel>, ParseError>) -> Result<
    Seq<SwitchLabelView>,
    ParseFailure,
> {
    match result {
        Ok(items) => Ok(label_views(items@)),
        Err(error) => Err(error@),
    }
}

/// The view of the cases that a reader returned.
pub open spec fn lowered_cases(result: Result<Vec<IdlSwitchCase>, ParseError>) -> Result<
    Seq<SwitchCaseView>,
    ParseFailure,
> {
    match result {
        Ok(items) => Ok(case_views(items@)),
        Err(error) => Err(error@),
    }
}

/// The view of the name and type that a reader returned.
pub open spec fn lowered_declared(result: Result<(String, IdlTypeSpec), ParseError>) -> Result<
    Declared,
    ParseFailure,
> {
    match result {
        Ok(pair) => Ok(Declared { id: pair.0@, type_spec: pair.1@ }),
        Err(error) => Err(error@),
    }
}

/// A failure met among the first items is the failure of the whole.
pub proof fn lemma_collect_failure<T>(
    items: Seq<ParseTree>,
    count: nat,
    total: nat,
    lower: spec_fn(ParseTree) -> Result<T, ParseFailure>,
)
    requires
        count <= total <= items.len(),
        collect_first(items, count, lower) is Err,
    ensures
        collect_first(items, total, lower) == collect_first(items, count, lower),
    decreases total,
{
    if count < total {
        lemma_collect_failure(items, count, (total - 1) as nat, lower);
    }
}

impl<'i> Context<'i> {
    /// A fresh state: the given settings and an empty root module.
    pub fn new(config: &'i Configuration) -> (context: Context<'i>)
        ensures
            context.config == config,
            context.root_module@ == empty_module(None),
    {
        Context { config, root_module: IdlModule::new(None) }
    }

    /// The module at `scope`; the modules on the way that were missing are
    /// created.
    pub fn lookup_module(&mut self, scope: &Vec<String>) -> (leaf: &mut IdlModule)
        ensures
            leaf@ == module_at(old(self).root_module@, texts(scope@)),
            final(self).root_module@ == with_module_at(
                old(self).root_module@,
                texts(scope@),
                final(leaf)@,
            ),
            final(self).config == old(self).config,
    {
        self.root_module.lookup_or_create(scope)
    }

    /// Enters a type declaration in the module at `scope`; the first
    /// declaration under a key wins.
    pub fn add_type_dcl(&mut self, scope: &Vec<String>, key: String, type_dcl: IdlTypeDcl)
        ensures
            final(self).root_module@ == add_type(
                old(self).root_module@,
                texts(scope@),
                key@,
                type_dcl@,
            ),
            final(self).config == old(self).config,
    {
        self.root_module.add_type(scope, key, type_dcl);
    }

    /// Enters a constant in the module at `scope`; the first declaration
    /// under a key wins.
    pub fn add_const_dcl(&mut self, scope: &Vec<String>, key: String, const_dcl: IdlConstDcl)
        ensures
            final(self).root_module@ == add_const(
                old(self).root_module@,
                texts(scope@),
                key@,
                const_dcl@,
            ),
            final(self).config == old(self).config,
    {
        self.root_module.add_const(scope, key, const_dcl);
    }

    /// Reads an identifier or enumerator.
    pub fn read_identifier(&self, node: &ParseNode) -> (result: Result<String, ParseError>)
        ensures
            lowered(result) == lower_identifier(node@),
    {
        proof {
            lemma_children(*node);
        }
        match node.kind() {
            Production::Identifier | Production::Enumerator => Ok(node.text.clone()),
            _ => Err(ParseError::malformed(ParseErrorKind::NotAnIdentifier, node.pos)),
        }
    }

    /// Reads each of `items[from..]` as an identifier.
    pub fn read_identifiers_from(&self, items: &Vec<ParseNode>, from: usize) -> (result: Result<
        Vec<String>,
        ParseError,
    >)
        requires
            from <= items.len(),
        ensures
            lowered_texts(result) == lower_identifiers(
                trees_of(items@).skip(from as int),
                (items@.len() - from) as nat,
            ),
    {
        let ghost trees = trees_of(items@).skip(from as int);
        let mut out: Vec<String> = Vec::new();
        let mut i: usize = from;
        assert(texts(out@) =~= Seq::<Seq<char>>::empty());
        while i < items.len()
            invariant
                from <= i <= items.len(),
                trees == trees_of(items@).skip(from as int),
                lower_identifiers(trees, (i - from) as nat) == Ok::<Seq<Seq<char>>, ParseFailure>(
                    texts(out@),
                ),
            decreases items.len() - i,
        {
            let ghost before = texts(out@);
            assert(trees[i - from] == items@[i as int]@);
            match self.read_identifier(&items[i]) {
                Ok(id) => {
                    out.push(id);
                    assert(texts(out@) =~= before.push(id@));
                },
                Err(error) => {
                    proof {
                        lemma_collect_failure(
                            trees,
                            (i - from + 1) as nat,
                            trees.len(),
                            |item: ParseTree| lower_identifier(item),
                        );
                    }
                    return Err(error);
                },
            }
            i = i + 1;
        }
        Ok(out)
    }

    /// Reads a scoped name.
    pub fn read_scoped_name(&self, node: &ParseNode) -> (result: Result<IdlScopedName, ParseError>)
        ensures
            lowered(result) == lower_scoped_name(node@),
    {
        proof {
            lemma_children(*node);
        }
        let absolute = has_leading_colons(node.text.as_str());
        assert(trees_of(node.children@).skip(0) =~= trees_of(node.children@));
        match self.read_identifiers_from(&node.children, 0) {
            Ok(components) => Ok(IdlScopedName(components, absolute)),
            Err(error) => Err(error),
        }
    }
}

/// The infix operator that a production stands for.
fn binary_op_of(kind: Production) -> (op: Option<BinaryOp>)
    ensures
        op == binary_operator(kind),
{
    match kind {
        Production::AndExpr => Some(BinaryOp::And),
        Production::OrExpr => Some(BinaryOp::Or),
        Production::XorExpr => Some(BinaryOp::Xor),
        Production::LshiftExpr => Some(BinaryOp::LShift),
        Production::RshiftExpr => Some(BinaryOp::RShift),
        Production::AddExpr => Some(BinaryOp::Add),
        Production::SubExpr => Some(BinaryOp::Sub),
        Production::MulExpr => Some(BinaryOp::Mul),
        Production::DivExpr => Some(BinaryOp::Div),
        Production::ModExpr => Some(BinaryOp::Mod),
        _ => None,
    }
}

/// The prefix operator that a lexeme stands for.
fn unary_op_of(lexeme: &str) -> (op: Option<UnaryOp>)
    ensures
        op == unary_operator(lexeme@),
{
    if str_eq(lexeme, "-") {
        Some(UnaryOp::Neg)
    } else if str_eq(lexeme, "+") {
        Some(UnaryOp::Pos)
    } else if str_eq(lexeme, "~") {
        Some(UnaryOp::Inverse)
    } else {
        None
    }
}

impl<'i> Context<'i> {
    /// Reads the parts of a floating-point literal.
    fn read_float_literal(&self, node: &ParseNode) -> (result: Result<IdlValueExpr, ParseError>)
        ensures
            lowered(result) == (match float_parts(node@.children, node@.children.len()) {
                Err(failure) => Err(failure),
                Ok(parts) => Ok(
                    ValueExprView::FloatLiteral(
                        parts.integral,
                        parts.fraction,
                        parts.exponent,
                        parts.suffix,
                    ),
                ),
            }),
    {
        proof {
            lemma_children(*node);
        }
        let ghost trees = node@.children;
        let mut integral: Option<String> = None;
        let mut fraction: Option<String> = None;
        let mut exponent: Option<String> = None;
        let mut suffix: Option<String> = None;
        let mut i: usize = 0;
        while i < node.children.len()
            invariant
                0 <= i <= node.children.len(),
                trees == node@.children,
                trees == trees_of(node.children@),
                float_parts(trees, i as nat) == Ok::<FloatParts, ParseFailure>(
                    FloatParts {
                        integral: opt_text(integral),
                        fraction: opt_text(fraction),
                        exponent: opt_text(exponent),
                        suffix: opt_text(suffix),
                    },
                ),
            decreases node.children.len() - i,
        {
            let part = &node.children[i];
            proof {
                lemma_children(*part);
            }
            match part.kind() {
                Production::IntegralPart => {
                    integral = Some(part.text.clone());
                },
                Production::FractionalPart => {
                    fraction = Some(part.text.clone());
                },
                Production::Exponent => {
                    exponent = Some(part.text.clone());
                },
                Production::FloatSuffix => {
                    suffix = Some(part.text.clone());
                },
                _ => {
                    proof {
                        lemma_float_failure(trees, (i + 1) as nat, trees.len());
                    }
                    return Err(ParseError::malformed(ParseErrorKind::UnknownFloatPart, part.pos));
                },
            }
            i = i + 1;
        }
        Ok(IdlValueExpr::FloatLiteral(integral, fraction, exponent, suffix))
    }

    /// Reads a constant expression.
    pub fn read_const_expr(&self, node: &ParseNode) -> (result: Result<IdlValueExpr, ParseError>)
        ensures
            lowered(result) == lower_const_expr(node@),
        decreases node@,
    {
        proof {
            lemma_children(*node);
        }
        let kind = node.kind();
        let count = node.children.len();
        match kind {
            Production::ConstExpr => {
                if count >= 2 {
                    let left = match self.read_const_expr(&node.children[0]) {
                        Ok(expr) => expr,
                        Err(error) => {
                            return Err(error);
                        },
                    };
                    let right = match self.read_const_expr(&node.children[1]) {
                        Ok(expr) => expr,
                        Err(error) => {
                            return Err(error);
                        },
                    };
                    Ok(IdlValueExpr::Expr(Box::new(left), Box::new(right)))
                } else if count == 1 {
                    self.read_const_expr(&node.children[0])
                } else {
                    Err(ParseError::malformed(ParseErrorKind::EmptyConstExpr, node.pos))
                }
            },
            Production::UnaryExpr => {
                if count >= 2 {
                    let operator = &node.children[0];
                    let operand = &node.children[1];
                    proof {
                        lemma_children(*operator);
                        lemma_children(*operand);
                    }
                    let expr = match self.read_const_expr(operand) {
                        Ok(expr) => expr,
                        Err(error) => {
                            return Err(error);
                        },
                    };
                    match unary_op_of(operator.text.as_str()) {
                        Some(op) => Ok(IdlValueExpr::UnaryOp(op, Box::new(expr))),
                        None => Err(
                            ParseError::malformed(
                                ParseErrorKind::UnknownUnaryOperator,
                                operand.pos,
                            ),
                        ),
                    }
                } else if count == 1 {
                    self.read_const_expr(&node.children[0])
                } else {
                    Err(ParseError::malformed(ParseErrorKind::EmptyUnaryExpr, node.pos))
                }
            },
            Production::PrimaryExpr => {
                if count == 0 {
                    Err(ParseError::malformed(ParseErrorKind::UnknownPrimaryExpr, node.pos))
                } else {
                    let inner = &node.children[0];
                    match inner.kind() {
                        Production::ScopedName => match self.read_scoped_name(inner) {
                            Ok(name) => Ok(IdlValueExpr::ScopedName(name)),
                            Err(error) => Err(error),
                        },
                        Production::Literal => self.read_const_expr(inner),
                        Production::ConstExpr => match self.read_const_expr(inner) {
                            Ok(expr) => Ok(IdlValueExpr::Brace(Box::new(expr))),
                            Err(error) => Err(error),
                        },
                        _ => Err(
                            ParseError::malformed(ParseErrorKind::UnknownPrimaryExpr, node.pos),
                        ),
                    }
                }
            },
            Production::DecimalIntegerLiteral => Ok(IdlValueExpr::DecLiteral(node.text.clone())),
            Production::OctalIntegerLiteral => Ok(IdlValueExpr::OctLiteral(node.text.clone())),
            Production::HexIntegerLiteral => Ok(IdlValueExpr::HexLiteral(node.text.clone())),
            Production::FloatingPtLiteral => self.read_float_literal(node),
            Production::BooleanLiteral => {
                let upper = to_uppercase(node.text.as_str());
                Ok(IdlValueExpr::BooleanLiteral(str_eq(upper.as_str(), "TRUE")))
            },
            Production::CharacterLiteral => Ok(IdlValueExpr::CharLiteral(node.text.clone())),
            Production::WideCharacterLiteral => Ok(
                IdlValueExpr::WideCharLiteral(node.text.clone()),
            ),
            Production::StringLiteral => Ok(IdlValueExpr::StringLiteral(node.text.clone())),
            Production::WideStringLiteral => Ok(
                IdlValueExpr::WideStringLiteral(node.text.clone()),
            ),
            _ => match binary_op_of(kind) {
                Some(op) => {
                    if count == 0 {
                        Err(ParseError::malformed(ParseErrorKind::MissingOperand, node.pos))
                    } else {
                        match self.read_const_expr(&node.children[0]) {
                            Ok(expr) => Ok(IdlValueExpr::BinaryOp(op, Box::new(expr))),
                            Err(error) => Err(error),
                        }
                    }
                },
                None => {
                    if count == 0 {
                        Err(ParseError::malformed(ParseErrorKind::UnknownConstExpr, node.pos))
                    } else {
                        self.read_const_expr(&node.children[0])
                    }
                },
            },
        }
    }
}

/// A failure met among the first parts is the failure of the whole literal.
proof fn lemma_float_failure(children: Seq<ParseTree>, count: nat, total: nat)
    requires
        count <= total <= children.len(),
        float_parts(children, count) is Err,
    ensures
        float_parts(children, total) == float_parts(children, count),
    decreases total,
{
    if count < total {
        lemma_float_failure(children, count, (total - 1) as nat);
    }
}

impl<'i> Context<'i> {
    /// Reads the bound of a string type.
    fn read_bound(&self, node: &ParseNode) -> (result: Result<
        Option<Box<IdlValueExpr>>,
        ParseError,
    >)
        ensures
            match result {
                Ok(bound) => lower_bound(node@) == Ok::<Option<ValueExprView>, ParseFailure>(
                    bound_view(bound),
                ),
                Err(error) => lower_bound(node@) == Err::<Option<ValueExprView>, ParseFailure>(
                    error@,
                ),
            },
    {
        proof {
            lemma_children(*node);
        }
        if node.children.len() == 0 {
            Ok(None)
        } else {
            match self.read_const_expr(&node.children[0]) {
                Ok(expr) => Ok(Some(Box::new(expr))),
                Err(error) => Err(error),
            }
        }
    }

    /// Reads a type specifier.
    pub fn read_type_spec(&self, node: &ParseNode) -> (result: Result<IdlTypeSpec, ParseError>)
        ensures
            lowered(result) == lower_type_spec(node@),
        decreases node@,
    {
        proof {
            lemma_children(*node);
        }
        match node.kind() {
            Production::Float => Ok(IdlTypeSpec::F32Type),
            Production::Double => Ok(IdlTypeSpec::F64Type),
            Production::LongDouble => Ok(IdlTypeSpec::F128Type),
            Production::UnsignedShortInt => Ok(IdlTypeSpec::U16Type),
            Production::UnsignedLonglongInt => Ok(IdlTypeSpec::U64Type),
            Production::UnsignedLongInt => Ok(IdlTypeSpec::U32Type),
            Production::SignedShortInt => Ok(IdlTypeSpec::I16Type),
            Production::SignedLonglongInt => Ok(IdlTypeSpec::I64Type),
            Production::SignedLongInt => Ok(IdlTypeSpec::I32Type),
            Production::CharType => Ok(IdlTypeSpec::CharType),
            Production::WideCharType => Ok(IdlTypeSpec::WideCharType),
            Production::BooleanType => Ok(IdlTypeSpec::BooleanType),
            Production::OctetType => Ok(IdlTypeSpec::OctetType),
            Production::StringType => match self.read_bound(node) {
                Ok(bound) => Ok(IdlTypeSpec::StringType(bound)),
                Err(error) => Err(error),
            },
            Production::WideStringType => match self.read_bound(node) {
                Ok(bound) => Ok(IdlTypeSpec::WideStringType(bound)),
                Err(error) => Err(error),
            },
            Production::SequenceType => {
                if node.children.len() == 0 {
                    Err(ParseError::malformed(ParseErrorKind::MissingSequenceElement, node.pos))
                } else {
                    let element = match self.read_type_spec(&node.children[0]) {
                        Ok(element) => element,
                        Err(error) => {
                            return Err(error);
                        },
                    };
                    if node.children.len() == 1 {
                        Ok(IdlTypeSpec::SequenceType(Box::new(element)))
                    } else {
                        match self.read_const_expr(&node.children[1]) {
                            Ok(_) => Ok(IdlTypeSpec::SequenceType(Box::new(element))),
                            Err(error) => Err(error),
                        }
                    }
                }
            },
            Production::ScopedName => match self.read_scoped_name(node) {
                Ok(name) => Ok(IdlTypeSpec::ScopedName(name)),
                Err(error) => Err(error),
            },
            _ => {
                if node.children.len() == 0 {
                    Err(ParseError::malformed(ParseErrorKind::UnknownTypeSpec, node.pos))
                } else {
                    self.read_type_spec(&node.children[0])
                }
            },
        }
    }

    /// Reads the dimensions of an array declarator.
    fn read_dims(&self, declarator: &ParseNode, at_item: bool) -> (result: Result<
        Vec<IdlValueExpr>,
        ParseError,
    >)
        requires
            declarator@.children.len() >= 1,
        ensures
            lowered_exprs(result) == lower_dims(
                declarator@,
                (declarator@.children.len() - 1) as nat,
                at_item,
            ),
    {
        proof {
            lemma_children(*declarator);
        }
        let ghost tree = declarator@;
        let mut out: Vec<IdlValueExpr> = Vec::new();
        let mut i: usize = 1;
        assert(expr_views(out@) =~= Seq::<ValueExprView>::empty());
        while i < declarator.children.len()
            invariant
                1 <= i <= declarator.children.len(),
                tree == declarator@,
                tree.children == trees_of(declarator.children@),
                lower_dims(tree, (i - 1) as nat, at_item) == Ok::<Seq<ValueExprView>, ParseFailure>(
                    expr_views(out@),
                ),
            decreases declarator.children.len() - i,
        {
            let item = &declarator.children[i];
            proof {
                lemma_children(*item);
                assert(tree.children.skip(1)[i - 1] == item@);
            }
            let ghost before = expr_views(out@);
            let blame = if at_item {
                item.pos
            } else {
                declarator.pos
            };
            let dim = if item.children.len() == 0 {
                Err(ParseError::malformed(ParseErrorKind::MissingArraySize, blame))
            } else {
                self.read_const_expr(&item.children[0])
            };
            match dim {
                Ok(expr) => {
                    out.push(expr);
                    assert(expr_views(out@) =~= before.push(expr@));
                },
                Err(error) => {
                    proof {
                        lemma_collect_failure(
                            tree.children.skip(1),
                            i as nat,
                            (tree.children.len() - 1) as nat,
                            |item: ParseTree|
                                lower_dim(
                                    item,
                                    dim_blame(item, tree, at_item),
                                ),
                        );
                    }
                    return Err(error);
                },
            }
            i = i + 1;
        }
        Ok(out)
    }

    /// Reads what a declarator declares for `type_spec`.
    pub(crate) fn read_declarator(
        &self,
        node: &ParseNode,
        type_spec: &IdlTypeSpec,
        name_first: bool,
        at_item: bool,
    ) -> (result: Result<(String, IdlTypeSpec), ParseError>)
        ensures
            lowered_declared(result) == lower_declarator(node@, type_spec@, name_first, at_item),
    {
        proof {
            lemma_children(*node);
        }
        if node.children.len() == 0 {
            return Err(ParseError::malformed(ParseErrorKind::MissingDeclarator, node.pos));
        }
        let declarator = &node.children[0];
        proof {
            lemma_children(*declarator);
        }
        match declarator.kind() {
            Production::SimpleDeclarator => {
                if declarator.children.len() == 0 {
                    Err(
                        ParseError::malformed(
                            ParseErrorKind::MissingDeclaratorName,
                            declarator.pos,
                        ),
                    )
                } else {
                    match self.read_identifier(&declarator.children[0]) {
                        Ok(id) => Ok((id, type_spec.clone())),
                        Err(error) => Err(error),
                    }
                }
            },
            Production::ArrayDeclarator => {
                if declarator.children.len() == 0 {
                    Err(
                        ParseError::malformed(
                            ParseErrorKind::MissingDeclaratorName,
                            declarator.pos,
                        ),
                    )
                } else if name_first {
                    let id = match self.read_identifier(&declarator.children[0]) {
                        Ok(id) => id,
                        Err(error) => {
                            return Err(error);
                        },
                    };
                    match self.read_dims(declarator, at_item) {
                        Ok(dims) => Ok(
                            (id, IdlTypeSpec::ArrayType(Box::new(type_spec.clone()), dims)),
                        ),
                        Err(error) => Err(error),
                    }
                } else {
                    let dims = match self.read_dims(declarator, at_item) {
                        Ok(dims) => dims,
                        Err(error) => {
                            return Err(error);
                        },
                    };
                    match self.read_identifier(&declarator.children[0]) {
                        Ok(id) => Ok(
                            (id, IdlTypeSpec::ArrayType(Box::new(type_spec.clone()), dims)),
                        ),
                        Err(error) => Err(error),
                    }
                }
            },
            _ => Err(ParseError::malformed(ParseErrorKind::UnknownDeclarator, declarator.pos)),
        }
    }

    /// Reads the structure member that a declarator declares for `type_spec`.
    pub fn read_struct_member_declarator(&self, node: &ParseNode, type_spec: &IdlTypeSpec) -> (result:
        Result<IdlStructMember, ParseError>)
        ensures
            lowered(result) == lower_member_declarator(node@, type_spec@),
    {
        match self.read_declarator(node, type_spec, false, false) {
            Ok(declared) => Ok(IdlStructMember { id: declared.0, type_spec: declared.1 }),
            Err(error) => Err(error),
        }
    }

    /// Reads the members that a `member` node declares.
    pub fn read_struct_member(&self, node: &ParseNode) -> (result: Result<
        Vec<IdlStructMember>,
        ParseError,
    >)
        ensures
            lowered_members(result) == lower_struct_member(node@),
    {
        proof {
            lemma_children(*node);
        }
        if node.children.len() == 0 {
            return Err(ParseError::malformed(ParseErrorKind::MissingMemberType, node.pos));
        }
        let type_spec = match self.read_type_spec(&node.children[0]) {
            Ok(type_spec) => type_spec,
            Err(error) => {
                return Err(error);
            },
        };
        if node.children.len() == 1 {
            return Err(ParseError::malformed(ParseErrorKind::MissingDeclarators, node.pos));
        }
        let declarators = &node.children[1];
        proof {
            lemma_children(*declarators);
        }
        let ghost tree = declarators@;
        let ghost declared = type_spec@;
        let mut out: Vec<IdlStructMember> = Vec::new();
        let mut i: usize = 0;
        assert(member_views(out@) =~= Seq::<StructMemberView>::empty());
        while i < declarators.children.len()
            invariant
                0 <= i <= declarators.children.len(),
                tree == declarators@,
                tree.children == trees_of(declarators.children@),
                declared == type_spec@,
                node@.children.len() >= 2,
                node@.children[1] == tree,
                lower_type_spec(node@.children[0]) == Ok::<TypeSpecView, ParseFailure>(declared),
                lower_member_declarators(tree, i as nat, declared) == Ok::<
                    Seq<StructMemberView>,
                    ParseFailure,
                >(member_views(out@)),
            decreases declarators.children.len() - i,
        {
            let ghost before = member_views(out@);
            match self.read_struct_member_declarator(&declarators.children[i], &type_spec) {
                Ok(member) => {
                    out.push(member);
                    assert(member_views(out@) =~= before.push(member@));
                },
                Err(error) => {
                    proof {
                        lemma_collect_failure(
                            tree.children,
                            (i + 1) as nat,
                            tree.children.len(),
                            |item: ParseTree| lower_member_declarator(item, declared),
                        );
                    }
                    return Err(error);
                },
            }
            i = i + 1;
        }
        Ok(out)
    }

    /// Reads the members of the nodes `items[from..]`, in order.
    pub fn read_struct_members(&self, items: &Vec<ParseNode>, from: usize) -> (result: Result<
        Vec<IdlStructMember>,
        ParseError,
    >)
        requires
            from <= items.len(),
        ensures
            lowered_members(result) == lower_struct_members(
                trees_of(items@).skip(from as int),
                (items@.len() - from) as nat,
            ),
    {
        let ghost trees = trees_of(items@).skip(from as int);
        let mut out: Vec<IdlStructMember> = Vec::new();
        let mut i: usize = from;
        assert(member_views(out@) =~= Seq::<StructMemberView>::empty());
        while i < items.len()
            invariant
                from <= i <= items.len(),
                trees == trees_of(items@).skip(from as int),
                lower_struct_members(trees, (i - from) as nat) == Ok::<
                    Seq<StructMemberView>,
                    ParseFailure,
                >(member_views(out@)),
            decreases items.len() - i,
        {
            let ghost before = member_views(out@);
            assert(trees[i - from] == items@[i as int]@);
            match self.read_struct_member(&items[i]) {
                Ok(members) => {
                    let ghost added = member_views(members@);
                    let mut members = members;
                    out.append(&mut members);
                    assert(member_views(out@) =~= before + added);
                },
                Err(error) => {
                    proof {
                        lemma_members_failure(trees, (i - from + 1) as nat, trees.len());
                    }
                    return Err(error);
                },
            }
            i = i + 1;
        }
        Ok(out)
    }
}

/// A failure met among the first members is the failure of the whole.
proof fn lemma_members_failure(items: Seq<ParseTree>, count: nat, total: nat)
    requires
        count <= total <= items.len(),
        lower_struct_members(items, count) is Err,
    ensures
        lower_struct_members(items, total) == lower_struct_members(items, count),
    decreases total,
{
    if count < total {
        lemma_members_failure(items, count, (total - 1) as nat);
    }
}

impl<'i> Context<'i> {
    /// Reads the field that the declarator of a union case declares for
    /// `type_spec`.
    pub fn read_switch_element_declarator(&self, node: &ParseNode, type_spec: &IdlTypeSpec) -> (result:
        Result<IdlSwitchElement, ParseError>)
        ensures
            lowered(result) == lower_switch_element_declarator(node@, type_spec@),
    {
        match self.read_declarator(node, type_spec, true, true) {
            Ok(declared) => Ok(IdlSwitchElement { id: declared.0, type_spec: declared.1 }),
            Err(error) => Err(error),
        }
    }

    /// Reads the field of a union case.
    pub fn read_switch_element_spec(&self, node: &ParseNode) -> (result: Result<
        IdlSwitchElement,
        ParseError,
    >)
        ensures
            lowered(result) == lower_switch_element_spec(node@),
    {
        proof {
            lemma_children(*node);
        }
        if node.children.len() == 0 {
            return Err(ParseError::malformed(ParseErrorKind::MissingElementType, node.pos));
        }
        let type_spec = match self.read_type_spec(&node.children[0]) {
            Ok(type_spec) => type_spec,
            Err(error) => {
                return Err(error);
            },
        };
        if node.children.len() == 1 {
            Err(ParseError::malformed(ParseErrorKind::MissingDeclarator, node.pos))
        } else {
            self.read_switch_element_declarator(&node.children[1], &type_spec)
        }
    }

    /// Reads the discriminator type of a union.
    pub fn read_switch_type_spec(&self, node: &ParseNode) -> (result: Result<
        IdlTypeSpec,
        ParseError,
    >)
        ensures
            lowered(result) == lower_switch_type_spec(node@),
    {
        proof {
            lemma_children(*node);
        }
        if node.children.len() == 0 {
            Err(ParseError::malformed(ParseErrorKind::MissingSwitchType, node.pos))
        } else {
            self.read_type_spec(&node.children[0])
        }
    }

    /// Reads a case label.
    pub fn read_switch_label(&self, node: &ParseNode) -> (result: Result<
        IdlSwitchLabel,
        ParseError,
    >)
        ensures
            lowered(result) == lower_switch_label(node@),
    {
        proof {
            lemma_children(*node);
        }
        if node.children.len() == 0 {
            Ok(IdlSwitchLabel::Default)
        } else {
            match self.read_const_expr(&node.children[0]) {
                Ok(expr) => Ok(IdlSwitchLabel::Label(expr)),
                Err(error) => Err(error),
            }
        }
    }

    /// Reads the labels among the children of a case.
    fn read_switch_labels(&self, node: &ParseNode) -> (result: Result<
        Vec<IdlSwitchLabel>,
        ParseError,
    >)
        ensures
            lowered_labels(result) == lower_switch_labels(node@.children, node@.children.len()),
    {
        proof {
            lemma_children(*node);
        }
        let ghost trees = node@.children;
        let mut out: Vec<IdlSwitchLabel> = Vec::new();
        let mut i: usize = 0;
        assert(label_views(out@) =~= Seq::<SwitchLabelView>::empty());
        while i < node.children.len()
            invariant
                0 <= i <= node.children.len(),
                trees == node@.children,
                trees == trees_of(node.children@),
                lower_switch_labels(trees, i as nat) == Ok::<Seq<SwitchLabelView>, ParseFailure>(
                    label_views(out@),
                ),
            decreases node.children.len() - i,
        {
            let item = &node.children[i];
            let ghost before = label_views(out@);
            if matches!(item.kind(), Production::CaseLabel) {
                match self.read_switch_label(item) {
                    Ok(label) => {
                        out.push(label);
                        assert(label_views(out@) =~= before.push(label@));
                    },
                    Err(error) => {
                        proof {
                            lemma_labels_failure(trees, (i + 1) as nat, trees.len());
                        }
                        return Err(error);
                    },
                }
            }
            i = i + 1;
        }
        Ok(out)
    }

    /// Reads a union case.
    pub fn read_switch_case(&self, node: &ParseNode) -> (result: Result<
        IdlSwitchCase,
        ParseError,
    >)
        ensures
            lowered(result) == lower_switch_case(node@),
    {
        proof {
            lemma_children(*node);
        }
        let ghost trees = node@.children;
        let mut last: Option<usize> = None;
        let mut i: usize = 0;
        while i < node.children.len()
            invariant
                0 <= i <= node.children.len(),
                trees == node@.children,
                trees == trees_of(node.children@),
                match last {
                    Some(found) => last_element_spec(trees, i as nat) == found,
                    None => last_element_spec(trees, i as nat) == -1,
                },
            decreases node.children.len() - i,
        {
            if matches!(node.children[i].kind(), Production::ElementSpec) {
                last = Some(i);
            }
            i = i + 1;
        }
        proof {
            lemma_last_element_spec(trees, trees.len());
        }
        let found = match last {
            Some(found) => found,
            None => {
                return Err(ParseError::malformed(ParseErrorKind::MissingElementSpec, node.pos));
            },
        };
        let labels = match self.read_switch_labels(node) {
            Ok(labels) => labels,
            Err(error) => {
                return Err(error);
            },
        };
        match self.read_switch_element_spec(&node.children[found]) {
            Ok(elem_spec) => Ok(IdlSwitchCase { labels, elem_spec }),
            Err(error) => Err(error),
        }
    }

    /// Reads the cases of a union body.
    pub fn read_switch_body(&self, node: &ParseNode) -> (result: Result<
        Vec<IdlSwitchCase>,
        ParseError,
    >)
        ensures
            lowered_cases(result) == lower_switch_body(node@),
    {
        proof {
            lemma_children(*node);
        }
        let ghost tree = node@;
        let mut out: Vec<IdlSwitchCase> = Vec::new();
        let mut i: usize = 0;
        assert(case_views(out@) =~= Seq::<SwitchCaseView>::empty());
        while i < node.children.len()
            invariant
                0 <= i <= node.children.len(),
                tree == node@,
                tree.children == trees_of(node.children@),
                lower_switch_cases(tree, i as nat) == Ok::<Seq<SwitchCaseView>, ParseFailure>(
                    case_views(out@),
                ),
            decreases node.children.len() - i,
        {
            let ghost before = case_views(out@);
            match self.read_switch_case(&node.children[i]) {
                Ok(case) => {
                    out.push(case);
                    assert(case_views(out@) =~= before.push(case@));
                },
                Err(error) => {
                    proof {
                        lemma_collect_failure(
                            tree.children,
                            (i + 1) as nat,
                            tree.children.len(),
                            |item: ParseTree| lower_switch_case(item),
                        );
                    }
                    return Err(error);
                },
            }
            i = i + 1;
        }
        Ok(out)
    }
}

/// A failure met among the first labels is the failure of the whole.
proof fn lemma_labels_failure(items: Seq<ParseTree>, count: nat, total: nat)
    requires
        count <= total <= items.len(),
        lower_switch_labels(items, count) is Err,
    ensures
        lower_switch_labels(items, total) == lower_switch_labels(items, count),
    decreases total,
{
    if count < total {
        lemma_labels_failure(items, count, (total - 1) as nat);
    }
}

} // verus!
