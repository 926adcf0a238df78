//! What the productions of a parse tree mean: the constant expression, type
//! specifier, member or union case that a node stands for, or the failure met
//! in reading it.
//!
//! Each function here is a statement over parse trees; the functions that
//! compute these values are held to them.

use vstd::prelude::*;
use crate::expr::{BinaryOp, ScopedNameView, UnaryOp, ValueExprView};
use crate::text::starts_with_colons;
use crate::tree::{malformed, ParseErrorKind, ParseFailure, ParseTree, Production};
use crate::types::{
    StructMemberView, SwitchCaseView, SwitchElementView, SwitchLabelView, TypeSpecView,
};

verus! {

/// The upper-case form of a text, as `str::to_uppercase` gives it.
pub uninterp spec fn uppercase_of(text: Seq<char>) -> Seq<char>;

/// `str::to_uppercase`: the upper-case form of `text`.
#[verifier::external_body]
pub(crate) fn to_uppercase(text: &str) -> (upper: String)
    ensures
        upper@ == uppercase_of(text@),
{
    text.to_uppercase()
}

/// The first `count` items lowered one by one, or the first failure met.
pub open spec fn collect_first<T>(
    items: Seq<ParseTree>,
    count: nat,
    lower: spec_fn(ParseTree) -> Result<T, ParseFailure>,
) -> Result<Seq<T>, ParseFailure>
    decreases count,
{
    if count == 0 || count > items.len() {
        Ok(Seq::empty())
    } else {
        match collect_first(items, (count - 1) as nat, lower) {
            Err(failure) => Err(failure),
            Ok(done) => match lower(items[count - 1]) {
                Err(failure) => Err(failure),
                Ok(item) => Ok(done.push(item)),
            },
        }
    }
}

/// The lexeme of an identifier or enumerator node.
pub open spec fn lower_identifier(node: ParseTree) -> Result<Seq<char>, ParseFailure> {
    match node.kind() {
        Production::Identifier | Production::Enumerator => Ok(node.text),
        _ => Err(malformed(ParseErrorKind::NotAnIdentifier, node.pos)),
    }
}

/// The first `count` of `items` read as identifiers.
pub open spec fn lower_identifiers(items: Seq<ParseTree>, count: nat) -> Result<
    Seq<Seq<char>>,
    ParseFailure,
> {
    collect_first(items, count, |item: ParseTree| lower_identifier(item))
}

/// The scoped name that a node stands for: its children as identifiers, and
/// absolute where its lexeme starts with `::`.
pub open spec fn lower_scoped_name(node: ParseTree) -> Result<ScopedNameView, ParseFailure> {
    match lower_identifiers(node.children, node.children.len()) {
        Ok(components) => Ok(
            ScopedNameView { components, absolute: starts_with_colons(node.text) },
        ),
        Err(failure) => Err(failure),
    }
}

/// The infix operator that a production stands for.
pub open spec fn binary_operator(kind: Production) -> Option<BinaryOp> {
    match kind {
        Production::AndExpr => Some(BinaryOp::And),
        Production::OrExpr => Some(BinaryOp::Or),
        Production::XorExpr => Some(BinaryOp::Xor),
        Production::LshiftExpr => Some(BinaryOp::LShift),
        Production::RshiftExpr => Some(BinaryOp::RShift),
        Production::AddExpr => Some(BinaryOp::Add),
        Production::SubExpr => Some(BinaryOp::Sub),
        Production::MulExpr => Some(BinaryOp::Mul),
        Production::DivExpr => Some(BinaryOp::Div),
        Production::ModExpr => Some(BinaryOp::Mod),
        _ => None,
    }
}

/// The prefix operator that a lexeme stands for.
pub open spec fn unary_operator(lexeme: Seq<char>) -> Option<UnaryOp> {
    if lexeme == "-"@ {
        Some(UnaryOp::Neg)
    } else if lexeme == "+"@ {
        Some(UnaryOp::Pos)
    } else if lexeme == "~"@ {
        Some(UnaryOp::Inverse)
    } else {
        None
    }
}

/// The four parts of a floating-point literal, each present or not.
pub struct FloatParts {
    pub integral: Option<Seq<char>>,
    pub fraction: Option<Seq<char>>,
    pub exponent: Option<Seq<char>>,
    pub suffix: Option<Seq<char>>,
}

/// The parts that the first `count` children of a floating-point literal
/// give, a later part of a kind replacing an earlier one; a child of another
/// kind is a failure.
pub open spec fn float_parts(children: Seq<ParseTree>, count: nat) -> Result<
    FloatParts,
    ParseFailure,
>
    decreases count,
{
    if count == 0 || count > children.len() {
        Ok(FloatParts { integral: None, fraction: None, exponent: None, suffix: None })
    } else {
        match float_parts(children, (count - 1) as nat) {
            Err(failure) => Err(failure),
            Ok(parts) => {
                let part = children[count - 1];
                match part.kind() {
                    Production::IntegralPart => Ok(
                        FloatParts { integral: Some(part.text), ..parts },
                    ),
                    Production::FractionalPart => Ok(
                        FloatParts { fraction: Some(part.text), ..parts },
                    ),
                    Production::Exponent => Ok(FloatParts { exponent: Some(part.text), ..parts }),
                    Production::FloatSuffix => Ok(FloatParts { suffix: Some(part.text), ..parts }),
                    _ => Err(malformed(ParseErrorKind::UnknownFloatPart, part.pos)),
                }
            },
        }
    }
}

/// The constant expression that a node stands for.
///
/// A `const_expr` of two children is the pair of both, of one child that
/// child; a `unary_expr` is its operand, under its operator where it has one;
/// a `primary_expr` is a scoped name, a literal or a parenthesised expression;
/// an operator production is the operator with its right operand; a literal is
/// its lexeme, a boolean literal being true where its upper-case form is
/// `TRUE`; any other node stands for what its first child stands for.
pub open spec fn lower_const_expr(node: ParseTree) -> Result<ValueExprView, ParseFailure>
    decreases node,
{
    match node.kind() {
        Production::ConstExpr => if node.children.len() >= 2 {
            match lower_const_expr(node.children[0]) {
                Err(failure) => Err(failure),
                Ok(left) => match lower_const_expr(node.children[1]) {
                    Err(failure) => Err(failure),
                    Ok(right) => Ok(ValueExprView::Expr(Box::new(left), Box::new(right))),
                },
            }
        } else if node.children.len() == 1 {
            lower_const_expr(node.children[0])
        } else {
            Err(malformed(ParseErrorKind::EmptyConstExpr, node.pos))
        },
        Production::UnaryExpr => if node.children.len() >= 2 {
            match lower_const_expr(node.children[1]) {
                Err(failure) => Err(failure),
                Ok(operand) => match unary_operator(node.children[0].text) {
                    Some(op) => Ok(ValueExprView::UnaryOp(op, Box::new(operand))),
                    None => Err(
                        malformed(ParseErrorKind::UnknownUnaryOperator, node.children[1].pos),
                    ),
                },
            }
        } else if node.children.len() == 1 {
            lower_const_expr(node.children[0])
        } else {
            Err(malformed(ParseErrorKind::EmptyUnaryExpr, node.pos))
        },
        Production::PrimaryExpr => if node.children.len() == 0 {
            Err(malformed(ParseErrorKind::UnknownPrimaryExpr, node.pos))
        } else {
            match node.children[0].kind() {
                Production::ScopedName => match lower_scoped_name(node.children[0]) {
                    Err(failure) => Err(failure),
                    Ok(name) => Ok(ValueExprView::ScopedName(name)),
                },
                Production::Literal => lower_const_expr(node.children[0]),
                Production::ConstExpr => match lower_const_expr(node.children[0]) {
                    Err(failure) => Err(failure),
                    Ok(inner) => Ok(ValueExprView::Brace(Box::new(inner))),
                },
                _ => Err(malformed(ParseErrorKind::UnknownPrimaryExpr, node.pos)),
            }
        },
        Production::DecimalIntegerLiteral => Ok(ValueExprView::DecLiteral(node.text)),
        Production::OctalIntegerLiteral => Ok(ValueExprView::OctLiteral(node.text)),
        Production::HexIntegerLiteral => Ok(ValueExprView::HexLiteral(node.text)),
        Production::FloatingPtLiteral => match float_parts(node.children, node.children.len()) {
            Err(failure) => Err(failure),
            Ok(parts) => Ok(
                ValueExprView::FloatLiteral(
                    parts.integral,
                    parts.fraction,
                    parts.exponent,
                    parts.suffix,
                ),
            ),
        },
        Production::BooleanLiteral => Ok(
            ValueExprView::BooleanLiteral(uppercase_of(node.text) == "TRUE"@),
        ),
        Production::CharacterLiteral => Ok(ValueExprView::CharLiteral(node.text)),
        Production::WideCharacterLiteral => Ok(ValueExprView::WideCharLiteral(node.text)),
        Production::StringLiteral => Ok(ValueExprView::StringLiteral(node.text)),
        Production::WideStringLiteral => Ok(ValueExprView::WideStringLiteral(node.text)),
        kind => match binary_operator(kind) {
            Some(op) => if node.children.len() == 0 {
                Err(malformed(ParseErrorKind::MissingOperand, node.pos))
            } else {
                match lower_const_expr(node.children[0]) {
                    Err(failure) => Err(failure),
                    Ok(right) => Ok(ValueExprView::BinaryOp(op, Box::new(right))),
                }
            },
            None => if node.children.len() == 0 {
                Err(malformed(ParseErrorKind::UnknownConstExpr, node.pos))
            } else {
                lower_const_expr(node.children[0])
            },
        },
    }
}

/// The bound of a string type: the expression of its first child, if it has
/// one.
pub open spec fn lower_bound(node: ParseTree) -> Result<Option<ValueExprView>, ParseFailure> {
    if node.children.len() == 0 {
        Ok(None)
    } else {
        match lower_const_expr(node.children[0]) {
            Err(failure) => Err(failure),
            Ok(bound) => Ok(Some(bound)),
        }
    }
}

/// The type specifier that a node stands for.
///
/// A primitive production is its type; a string of either width carries its
/// bound where it has one; a sequence is a sequence of its element, its bound
/// being read and then dropped; a scoped name is itself; any other node stands
/// for what its first child stands for.
pub open spec fn lower_type_spec(node: ParseTree) -> Result<TypeSpecView, ParseFailure>
    decreases node,
{
    match node.kind() {
        Production::Float => Ok(TypeSpecView::F32Type),
        Production::Double => Ok(TypeSpecView::F64Type),
        Production::LongDouble => Ok(TypeSpecView::F128Type),
        Production::UnsignedShortInt => Ok(TypeSpecView::U16Type),
        Production::UnsignedLonglongInt => Ok(TypeSpecView::U64Type),
        Production::UnsignedLongInt => Ok(TypeSpecView::U32Type),
        Production::SignedShortInt => Ok(TypeSpecView::I16Type),
        Production::SignedLonglongInt => Ok(TypeSpecView::I64Type),
        Production::SignedLongInt => Ok(TypeSpecView::I32Type),
        Production::CharType => Ok(TypeSpecView::CharType),
        Production::WideCharType => Ok(TypeSpecView::WideCharType),
        Production::BooleanType => Ok(TypeSpecView::BooleanType),
        Production::OctetType => Ok(TypeSpecView::OctetType),
        Production::StringType => match lower_bound(node) {
            Err(failure) => Err(failure),
            Ok(bound) => Ok(TypeSpecView::StringType(bound)),
        },
        Production::WideStringType => match lower_bound(node) {
            Err(failure) => Err(failure),
            Ok(bound) => Ok(TypeSpecView::WideStringType(bound)),
        },
        Production::SequenceType => if node.children.len() == 0 {
            Err(malformed(ParseErrorKind::MissingSequenceElement, node.pos))
        } else {
            match lower_type_spec(node.children[0]) {
                Err(failure) => Err(failure),
                Ok(element) => if node.children.len() == 1 {
                    Ok(TypeSpecView::SequenceType(Box::new(element)))
                } else {
                    match lower_const_expr(node.children[1]) {
                        Err(failure) => Err(failure),
                        Ok(_) => Ok(TypeSpecView::SequenceType(Box::new(element))),
                    }
                },
            }
        },
        Production::ScopedName => match lower_scoped_name(node) {
            Err(failure) => Err(failure),
            Ok(name) => Ok(TypeSpecView::ScopedName(name)),
        },
        _ => if node.children.len() == 0 {
            Err(malformed(ParseErrorKind::UnknownTypeSpec, node.pos))
        } else {
            lower_type_spec(node.children[0])
        },
    }
}

/// The dimension that a `fixed_array_size` node stands for: the expression of
/// its first child. A node without child is a failure, reported at `blame`.
pub open spec fn lower_dim(node: ParseTree, blame: usize) -> Result<ValueExprView, ParseFailure> {
    if node.children.len() == 0 {
        Err(malformed(ParseErrorKind::MissingArraySize, blame))
    } else {
        lower_const_expr(node.children[0])
    }
}

/// Where a dimension without expression is reported: at the dimension itself,
/// or at the declarator that holds it.
pub open spec fn dim_blame(item: ParseTree, declarator: ParseTree, at_item: bool) -> usize {
    if at_item {
        item.pos
    } else {
        declarator.pos
    }
}

/// The first `count` dimensions of an array declarator: its children after
/// the identifier.
pub open spec fn lower_dims(declarator: ParseTree, count: nat, at_item: bool) -> Result<
    Seq<ValueExprView>,
    ParseFailure,
> {
    collect_first(
        declarator.children.skip(1),
        count,
        |item: ParseTree| lower_dim(item, dim_blame(item, declarator, at_item)),
    )
}

/// A declared name and the type it is declared with.
pub struct Declared {
    pub id: Seq<char>,
    pub type_spec: TypeSpecView,
}

/// What a declarator declares for the type `type_spec`: the identifier of a
/// simple declarator with that type, or the identifier of an array declarator
/// with an array of that type over its dimensions.
///
/// `name_first` says whether a bad identifier is reported before a bad
/// dimension; `at_item` says where a dimension without expression is reported.
pub open spec fn lower_declarator(
    node: ParseTree,
    type_spec: TypeSpecView,
    name_first: bool,
    at_item: bool,
) -> Result<Declared, ParseFailure> {
    if node.children.len() == 0 {
        Err(malformed(ParseErrorKind::MissingDeclarator, node.pos))
    } else {
        let declarator = node.children[0];
        match declarator.kind() {
            Production::SimpleDeclarator => if declarator.children.len() == 0 {
                Err(malformed(ParseErrorKind::MissingDeclaratorName, declarator.pos))
            } else {
                match lower_identifier(declarator.children[0]) {
                    Err(failure) => Err(failure),
                    Ok(id) => Ok(Declared { id, type_spec }),
                }
            },
            Production::ArrayDeclarator => if declarator.children.len() == 0 {
                Err(malformed(ParseErrorKind::MissingDeclaratorName, declarator.pos))
            } else {
                let id = lower_identifier(declarator.children[0]);
                let dims = lower_dims(
                    declarator,
                    (declarator.children.len() - 1) as nat,
                    at_item,
                );
                match (id, dims) {
                    (Ok(id), Ok(dims)) => Ok(
                        Declared { id, type_spec: TypeSpecView::ArrayType(Box::new(type_spec), dims) },
                    ),
                    (Err(failure), Ok(_)) => Err(failure),
                    (Ok(_), Err(failure)) => Err(failure),
                    (Err(name_failure), Err(dim_failure)) => if name_first {
                        Err(name_failure)
                    } else {
                        Err(dim_failure)
                    },
                }
            },
            _ => Err(malformed(ParseErrorKind::UnknownDeclarator, declarator.pos)),
        }
    }
}

/// The structure member that a declarator declares for `type_spec`.
pub open spec fn lower_member_declarator(node: ParseTree, type_spec: TypeSpecView) -> Result<
    StructMemberView,
    ParseFailure,
> {
    match lower_declarator(node, type_spec, false, false) {
        Err(failure) => Err(failure),
        Ok(declared) => Ok(StructMemberView { id: declared.id, type_spec: declared.type_spec }),
    }
}

/// The first `count` declarators of a member, each for `type_spec`.
pub open spec fn lower_member_declarators(
    declarators: ParseTree,
    count: nat,
    type_spec: TypeSpecView,
) -> Result<Seq<StructMemberView>, ParseFailure> {
    collect_first(
        declarators.children,
        count,
        |item: ParseTree| lower_member_declarator(item, type_spec),
    )
}

/// The members that a `member` node declares: one for each of its
/// declarators, all of the type of its first child.
pub open spec fn lower_struct_member(node: ParseTree) -> Result<Seq<StructMemberView>, ParseFailure> {
    if node.children.len() == 0 {
        Err(malformed(ParseErrorKind::MissingMemberType, node.pos))
    } else {
        match lower_type_spec(node.children[0]) {
            Err(failure) => Err(failure),
            Ok(type_spec) => if node.children.len() == 1 {
                Err(malformed(ParseErrorKind::MissingDeclarators, node.pos))
            } else {
                lower_member_declarators(
                    node.children[1],
                    node.children[1].children.len(),
                    type_spec,
                )
            },
        }
    }
}

/// The members of the first `count` of `items`, in order, or the first
/// failure met.
pub open spec fn lower_struct_members(items: Seq<ParseTree>, count: nat) -> Result<
    Seq<StructMemberView>,
    ParseFailure,
>
    decreases count,
{
    if count == 0 || count > items.len() {
        Ok(Seq::empty())
    } else {
        match lower_struct_members(items, (count - 1) as nat) {
            Err(failure) => Err(failure),
            Ok(done) => match lower_struct_member(items[count - 1]) {
                Err(failure) => Err(failure),
                Ok(members) => Ok(done + members),
            },
        }
    }
}

/// The field that the declarator of a union case declares for `type_spec`.
pub open spec fn lower_switch_element_declarator(node: ParseTree, type_spec: TypeSpecView) -> Result<
    SwitchElementView,
    ParseFailure,
> {
    match lower_declarator(node, type_spec, true, true) {
        Err(failure) => Err(failure),
        Ok(declared) => Ok(SwitchElementView { id: declared.id, type_spec: declared.type_spec }),
    }
}

/// The field of a union case: the declarator of the second child, for the
/// type of the first.
pub open spec fn lower_switch_element_spec(node: ParseTree) -> Result<
    SwitchElementView,
    ParseFailure,
> {
    if node.children.len() == 0 {
        Err(malformed(ParseErrorKind::MissingElementType, node.pos))
    } else {
        match lower_type_spec(node.children[0]) {
            Err(failure) => Err(failure),
            Ok(type_spec) => if node.children.len() == 1 {
                Err(malformed(ParseErrorKind::MissingDeclarator, node.pos))
            } else {
                lower_switch_element_declarator(node.children[1], type_spec)
            },
        }
    }
}

/// The discriminator type of a union: the type of the first child.
pub open spec fn lower_switch_type_spec(node: ParseTree) -> Result<TypeSpecView, ParseFailure> {
    if node.children.len() == 0 {
        Err(malformed(ParseErrorKind::MissingSwitchType, node.pos))
    } else {
        lower_type_spec(node.children[0])
    }
}

/// The label that a `case_label` node stands for: the expression of its first
/// child, or `default` where it has none.
pub open spec fn lower_switch_label(node: ParseTree) -> Result<SwitchLabelView, ParseFailure> {
    if node.children.len() == 0 {
        Ok(SwitchLabelView::Default)
    } else {
        match lower_const_expr(node.children[0]) {
            Err(failure) => Err(failure),
            Ok(expr) => Ok(SwitchLabelView::Label(expr)),
        }
    }
}

/// The labels among the first `count` of `items`, in order, or the first
/// failure met in reading one.
pub open spec fn lower_switch_labels(items: Seq<ParseTree>, count: nat) -> Result<
    Seq<SwitchLabelView>,
    ParseFailure,
>
    decreases count,
{
    if count == 0 || count > items.len() {
        Ok(Seq::empty())
    } else {
        match lower_switch_labels(items, (count - 1) as nat) {
            Err(failure) => Err(failure),
            Ok(done) => if items[count - 1].kind() == Production::CaseLabel {
                match lower_switch_label(items[count - 1]) {
                    Err(failure) => Err(failure),
                    Ok(label) => Ok(done.push(label)),
                }
            } else {
                Ok(done)
            },
        }
    }
}

/// The position of the last `element_spec` among the first `count` of
/// `items`, or -1 where there is none.
pub open spec fn last_element_spec(items: Seq<ParseTree>, count: nat) -> int
    decreases count,
{
    if count == 0 || count > items.len() {
        -1
    } else if items[count - 1].kind() == Production::ElementSpec {
        count - 1
    } else {
        last_element_spec(items, (count - 1) as nat)
    }
}

/// The union case that a `case` node stands for: its labels in order and the
/// field of its last `element_spec`. A case without `element_spec` is a
/// failure; a bad label is reported before a bad field.
pub open spec fn lower_switch_case(node: ParseTree) -> Result<SwitchCaseView, ParseFailure> {
    let last = last_element_spec(node.children, node.children.len());
    if last < 0 {
        Err(malformed(ParseErrorKind::MissingElementSpec, node.pos))
    } else {
        match lower_switch_labels(node.children, node.children.len()) {
            Err(failure) => Err(failure),
            Ok(labels) => match lower_switch_element_spec(node.children[last]) {
                Err(failure) => Err(failure),
                Ok(elem_spec) => Ok(SwitchCaseView { labels, elem_spec }),
            },
        }
    }
}

/// The first `count` cases of a union body.
pub open spec fn lower_switch_cases(node: ParseTree, count: nat) -> Result<
    Seq<SwitchCaseView>,
    ParseFailure,
> {
    collect_first(node.children, count, |item: ParseTree| lower_switch_case(item))
}

/// The cases of a union body: one for each child.
pub open spec fn lower_switch_body(node: ParseTree) -> Result<Seq<SwitchCaseView>, ParseFailure> {
    lower_switch_cases(node, node.children.len())
}

/// `last_element_spec` is -1 or the position of an `element_spec` below
/// `count`.
pub proof fn lemma_last_element_spec(items: Seq<ParseTree>, count: nat)
    requires
        count <= items.len(),
    ensures
        -1 <= last_element_spec(items, count) < count,
        last_element_spec(items, count) >= 0 ==> items[last_element_spec(items, count)].kind()
            == Production::ElementSpec,
    decreases count,
{
    if count > 0 && items[count - 1].kind() != Production::ElementSpec {
        lemma_last_element_spec(items, (count - 1) as nat);
    }
}

} // verus!
