//! Scoped names and constant expressions: the data, their views and their
//! rendering as target source text.

use vstd::prelude::*;
use vstd::string::*;
use crate::text::{clone_strings, flatten, lemma_flatten_take, opt_text, text_or_empty, texts};

verus! {

/// A prefix operator of a constant expression.
#[derive(Clone, Copy, Debug, PartialEq, Eq, Structural)]
pub enum UnaryOp {
    Neg,
    Pos,
    Inverse,
}

/// An infix operator of a constant expression.
#[derive(Clone, Copy, Debug, PartialEq, Eq, Structural)]
pub enum BinaryOp {
    Add,
    Sub,
    Mul,
    Div,
    Mod,
    LShift,
    RShift,
    Or,
    Xor,
    And,
}

/// The lexeme of a prefix operator.
pub open spec fn unary_op_text(op: UnaryOp) -> Seq<char> {
    match op {
        UnaryOp::Neg => "-"@,
        UnaryOp::Pos => "+"@,
        UnaryOp::Inverse => "~"@,
    }
}

/// The lexeme of an infix operator.
pub open spec fn binary_op_text(op: BinaryOp) -> Seq<char> {
    match op {
        BinaryOp::Add => "+"@,
        BinaryOp::Sub => "-"@,
        BinaryOp::Mul => "*"@,
        BinaryOp::Div => "/"@,
        BinaryOp::Mod => "%"@,
        BinaryOp::LShift => "<<"@,
        BinaryOp::RShift => ">>"@,
        BinaryOp::Or => "|"@,
        BinaryOp::Xor => "^"@,
        BinaryOp::And => "&"@,
    }
}

impl UnaryOp {
    /// The operator as it is written in source text.
    pub fn to_str(&self) -> (lexeme: &'static str)
        ensures
            lexeme@ == unary_op_text(*self),
    {
        match self {
            UnaryOp::Neg => "-",
            UnaryOp::Pos => "+",
            UnaryOp::Inverse => "~",
        }
    }
}

impl BinaryOp {
    /// The operator as it is written in source text.
    pub fn to_str(&self) -> (lexeme: &'static str)
        ensures
            lexeme@ == binary_op_text(*self),
    {
        match self {
            BinaryOp::Add => "+",
            BinaryOp::Sub => "-",
            BinaryOp::Mul => "*",
            BinaryOp::Div => "/",
            BinaryOp::Mod => "%",
            BinaryOp::LShift => "<<",
            BinaryOp::RShift => ">>",
            BinaryOp::Or => "|",
            BinaryOp::Xor => "^",
            BinaryOp::And => "&",
        }
    }
}

/// A `::`-separated path of identifiers; the flag records a leading `::`.
#[derive(Debug, PartialEq, Eq)]
pub struct IdlScopedName(pub Vec<String>, pub bool);

/// The mathematical content of a scoped name.
pub struct ScopedNameView {
    pub components: Seq<Seq<char>>,
    pub absolute: bool,
}

impl View for IdlScopedName {
    type V = ScopedNameView;

    open spec fn view(&self) -> ScopedNameView {
        ScopedNameView { components: texts(self.0@), absolute: self.1 }
    }
}

/// What the component at `index` contributes to the rendered name: the first
/// component bare, or behind `crate::` in an absolute name; every later one
/// behind `::`.
pub open spec fn name_piece(name: ScopedNameView, index: int) -> Seq<char> {
    if index == 0 {
        if name.absolute {
            "crate::"@ + name.components[index]
        } else {
            name.components[index]
        }
    } else {
        "::"@ + name.components[index]
    }
}

/// The rendered pieces of a scoped name, one per component.
pub open spec fn name_pieces(name: ScopedNameView) -> Seq<Seq<char>> {
    Seq::new(name.components.len(), |i: int| name_piece(name, i))
}

/// A scoped name as target source text.
pub open spec fn scoped_name_text(name: ScopedNameView) -> Seq<char> {
    flatten(name_pieces(name))
}

impl IdlScopedName {
    /// Appends the rendered name to `out`.
    pub fn write_to(&self, out: &mut String)
        ensures
            final(out)@ == old(out)@ + scoped_name_text(self@),
    {
        let ghost pieces = name_pieces(self@);
        let mut i: usize = 0;
        assert(pieces.take(0) =~= Seq::<Seq<char>>::empty());
        while i < self.0.len()
            invariant
                0 <= i <= self.0.len(),
                pieces == name_pieces(self@),
                pieces.len() == self.0.len(),
                out@ == old(out)@ + flatten(pieces.take(i as int)),
            decreases self.0.len() - i,
        {
            let ghost before = out@;
            if i == 0 {
                if self.1 {
                    out.append("crate::");
                }
            } else {
                out.append("::");
            }
            out.append(self.0[i].as_str());
            proof {
                assert(out@ =~= before + pieces[i as int]);
                lemma_flatten_take(pieces, i as int);
            }
            i = i + 1;
            assert(out@ =~= old(out)@ + flatten(pieces.take(i as int)));
        }
        assert(pieces.take(i as int) =~= pieces);
    }

    /// The name as target source text.
    pub fn to_string(&self) -> (rendered: String)
        ensures
            rendered@ == scoped_name_text(self@),
    {
        let mut out = String::new();
        self.write_to(&mut out);
        assert(out@ =~= scoped_name_text(self@));
        out
    }
}

impl Clone for IdlScopedName {
    fn clone(&self) -> (copy: Self)
        ensures
            copy@ == self@,
    {
        IdlScopedName(clone_strings(&self.0), self.1)
    }
}

/// A constant expression as the parser presented it.
///
/// A `BinaryOp` holds an operator and its right operand only: the left operand
/// is the first half of the `Expr` that holds it.
#[derive(Debug, PartialEq, Eq)]
pub enum IdlValueExpr {
    /// Stands where a value is missing; renders as nothing.
    Missing,
    DecLiteral(String),
    HexLiteral(String),
    OctLiteral(String),
    CharLiteral(String),
    WideCharLiteral(String),
    StringLiteral(String),
    WideStringLiteral(String),
    BooleanLiteral(bool),
    FloatLiteral(Option<String>, Option<String>, Option<String>, Option<String>),
    UnaryOp(UnaryOp, Box<IdlValueExpr>),
    BinaryOp(BinaryOp, Box<IdlValueExpr>),
    Expr(Box<IdlValueExpr>, Box<IdlValueExpr>),
    Brace(Box<IdlValueExpr>),
    ScopedName(IdlScopedName),
}

/// The mathematical content of a constant expression.
pub enum ValueExprView {
    Missing,
    DecLiteral(Seq<char>),
    HexLiteral(Seq<char>),
    OctLiteral(Seq<char>),
    CharLiteral(Seq<char>),
    WideCharLiteral(Seq<char>),
    StringLiteral(Seq<char>),
    WideStringLiteral(Seq<char>),
    BooleanLiteral(bool),
    FloatLiteral(Option<Seq<char>>, Option<Seq<char>>, Option<Seq<char>>, Option<Seq<char>>),
    UnaryOp(UnaryOp, Box<ValueExprView>),
    BinaryOp(BinaryOp, Box<ValueExprView>),
    Expr(Box<ValueExprView>, Box<ValueExprView>),
    Brace(Box<ValueExprView>),
    ScopedName(ScopedNameView),
}

/// The view of a constant expression, node by node.
pub open spec fn expr_view(expr: IdlValueExpr) -> ValueExprView
    decreases expr,
{
    match expr {
        IdlValueExpr::Missing => ValueExprView::Missing,
        IdlValueExpr::DecLiteral(s) => ValueExprView::DecLiteral(s@),
        IdlValueExpr::HexLiteral(s) => ValueExprView::HexLiteral(s@),
        IdlValueExpr::OctLiteral(s) => ValueExprView::OctLiteral(s@),
        IdlValueExpr::CharLiteral(s) => ValueExprView::CharLiteral(s@),
        IdlValueExpr::WideCharLiteral(s) => ValueExprView::WideCharLiteral(s@),
        IdlValueExpr::StringLiteral(s) => ValueExprView::StringLiteral(s@),
        IdlValueExpr::WideStringLiteral(s) => ValueExprView::WideStringLiteral(s@),
        IdlValueExpr::BooleanLiteral(b) => ValueExprView::BooleanLiteral(b),
        IdlValueExpr::FloatLiteral(i, f, e, s) => ValueExprView::FloatLiteral(
            opt_text(i),
            opt_text(f),
            opt_text(e),
            opt_text(s),
        ),
        IdlValueExpr::UnaryOp(op, operand) => ValueExprView::UnaryOp(
            op,
            Box::new(expr_view(*operand)),
        ),
        IdlValueExpr::BinaryOp(op, right) => ValueExprView::BinaryOp(
            op,
            Box::new(expr_view(*right)),
        ),
        IdlValueExpr::Expr(left, right) => ValueExprView::Expr(
            Box::new(expr_view(*left)),
            Box::new(expr_view(*right)),
        ),
        IdlValueExpr::Brace(inner) => ValueExprView::Brace(Box::new(expr_view(*inner))),
        IdlValueExpr::ScopedName(name) => ValueExprView::ScopedName(name@),
    }
}

impl View for IdlValueExpr {
    type V = ValueExprView;

    open spec fn view(&self) -> ValueExprView {
        expr_view(*self)
    }
}

/// The views of a sequence of constant expressions.
pub open spec fn expr_views(exprs: Seq<IdlValueExpr>) -> Seq<ValueExprView> {
    Seq::new(exprs.len(), |i: int| exprs[i]@)
}

/// A boolean as target source text.
pub open spec fn bool_text(value: bool) -> Seq<char> {
    if value {
        "true"@
    } else {
        "false"@
    }
}

/// A constant expression as target source text: the operands and operators in
/// source order with nothing between them, a parenthesised expression inside
/// `(` and `)`, a floating-point literal as its integral part, `.`, its
/// fraction, `e`, its exponent and its suffix (a missing part adds nothing).
pub open spec fn expr_text(expr: ValueExprView) -> Seq<char>
    decreases expr,
{
    match expr {
        ValueExprView::Missing => Seq::empty(),
        ValueExprView::DecLiteral(s) => s,
        ValueExprView::HexLiteral(s) => s,
        ValueExprView::OctLiteral(s) => s,
        ValueExprView::CharLiteral(s) => s,
        ValueExprView::WideCharLiteral(s) => s,
        ValueExprView::StringLiteral(s) => s,
        ValueExprView::WideStringLiteral(s) => s,
        ValueExprView::BooleanLiteral(b) => bool_text(b),
        ValueExprView::FloatLiteral(i, f, e, s) => text_or_empty(i) + "."@ + text_or_empty(f)
            + "e"@ + text_or_empty(e) + text_or_empty(s),
        ValueExprView::UnaryOp(op, operand) => unary_op_text(op) + expr_text(*operand),
        ValueExprView::BinaryOp(op, right) => binary_op_text(op) + expr_text(*right),
        ValueExprView::Expr(left, right) => expr_text(*left) + expr_text(*right),
        ValueExprView::Brace(inner) => "("@ + expr_text(*inner) + ")"@,
        ValueExprView::ScopedName(name) => scoped_name_text(name),
    }
}

/// Appends an optional lexeme to `out`.
fn push_optional(out: &mut String, part: &Option<String>)
    ensures
        final(out)@ == old(out)@ + text_or_empty(opt_text(*part)),
{
    match part {
        Some(s) => {
            out.append(s.as_str());
        },
        None => {
            assert(out@ =~= old(out)@ + Seq::<char>::empty());
        },
    }
}

/// Copies an optional lexeme.
fn clone_optional(part: &Option<String>) -> (copy: Option<String>)
    ensures
        opt_text(copy) == opt_text(*part),
{
    match part {
        Some(s) => Some(s.clone()),
        None => None,
    }
}

impl IdlValueExpr {
    /// Appends the rendered expression to `out`.
    pub fn write_to(&self, out: &mut String)
        ensures
            final(out)@ == old(out)@ + expr_text(self@),
        decreases self,
    {
        match self {
            IdlValueExpr::Missing => {
                assert(out@ =~= old(out)@ + expr_text(self@));
            },
            IdlValueExpr::DecLiteral(s) => out.append(s.as_str()),
            IdlValueExpr::HexLiteral(s) => out.append(s.as_str()),
            IdlValueExpr::OctLiteral(s) => out.append(s.as_str()),
            IdlValueExpr::CharLiteral(s) => out.append(s.as_str()),
            IdlValueExpr::WideCharLiteral(s) => out.append(s.as_str()),
            IdlValueExpr::StringLiteral(s) => out.append(s.as_str()),
            IdlValueExpr::WideStringLiteral(s) => out.append(s.as_str()),
            IdlValueExpr::BooleanLiteral(b) => {
                if *b {
                    out.append("true");
                } else {
                    out.append("false");
                }
            },
            IdlValueExpr::FloatLiteral(i, f, e, s) => {
                push_optional(out, i);
                out.append(".");
                push_optional(out, f);
                out.append("e");
                push_optional(out, e);
                push_optional(out, s);
                assert(out@ =~= old(out)@ + expr_text(self@));
            },
            IdlValueExpr::UnaryOp(op, operand) => {
                out.append(op.to_str());
                operand.write_to(out);
                assert(out@ =~= old(out)@ + expr_text(self@));
            },
            IdlValueExpr::BinaryOp(op, right) => {
                out.append(op.to_str());
                right.write_to(out);
                assert(out@ =~= old(out)@ + expr_text(self@));
            },
            IdlValueExpr::Expr(left, right) => {
                left.write_to(out);
                right.write_to(out);
                assert(out@ =~= old(out)@ + expr_text(self@));
            },
            IdlValueExpr::Brace(inner) => {
                out.append("(");
                inner.write_to(out);
                out.append(")");
                assert(out@ =~= old(out)@ + expr_text(self@));
            },
            IdlValueExpr::ScopedName(name) => name.write_to(out),
        }
    }

    /// The expression as target source text.
    pub fn to_string(&self) -> (rendered: String)
        ensures
            rendered@ == expr_text(self@),
    {
        let mut out = String::new();
        self.write_to(&mut out);
        assert(out@ =~= expr_text(self@));
        out
    }
}

impl Clone for IdlValueExpr {
    fn clone(&self) -> (copy: Self)
        ensures
            copy@ == self@,
        decreases self,
    {
        match self {
            IdlValueExpr::Missing => IdlValueExpr::Missing,
            IdlValueExpr::DecLiteral(s) => IdlValueExpr::DecLiteral(s.clone()),
            IdlValueExpr::HexLiteral(s) => IdlValueExpr::HexLiteral(s.clone()),
            IdlValueExpr::OctLiteral(s) => IdlValueExpr::OctLiteral(s.clone()),
            IdlValueExpr::CharLiteral(s) => IdlValueExpr::CharLiteral(s.clone()),
            IdlValueExpr::WideCharLiteral(s) => IdlValueExpr::WideCharLiteral(s.clone()),
            IdlValueExpr::StringLiteral(s) => IdlValueExpr::StringLiteral(s.clone()),
            IdlValueExpr::WideStringLiteral(s) => IdlValueExpr::WideStringLiteral(s.clone()),
            IdlValueExpr::BooleanLiteral(b) => IdlValueExpr::BooleanLiteral(*b),
            IdlValueExpr::FloatLiteral(i, f, e, s) => IdlValueExpr::FloatLiteral(
                clone_optional(i),
                clone_optional(f),
                clone_optional(e),
                clone_optional(s),
            ),
            IdlValueExpr::UnaryOp(op, operand) => {
                let inner: &IdlValueExpr = operand;
                IdlValueExpr::UnaryOp(*op, Box::new(inner.clone()))
            },
            IdlValueExpr::BinaryOp(op, right) => {
                let inner: &IdlValueExpr = right;
                IdlValueExpr::BinaryOp(*op, Box::new(inner.clone()))
            },
            IdlValueExpr::Expr(left, right) => {
                let a: &IdlValueExpr = left;
                let b: &IdlValueExpr = right;
                IdlValueExpr::Expr(Box::new(a.clone()), Box::new(b.clone()))
            },
            IdlValueExpr::Brace(inner) => {
                let a: &IdlValueExpr = inner;
                IdlValueExpr::Brace(Box::new(a.clone()))
            },
            IdlValueExpr::ScopedName(name) => IdlValueExpr::ScopedName(name.clone()),
        }
    }
}

impl Default for IdlValueExpr {
    fn default() -> (empty: Self)
        ensures
            empty@ == ValueExprView::Missing,
    {
        IdlValueExpr::Missing
    }
}

/// Copies a vector of constant expressions.
pub fn clone_exprs(items: &Vec<IdlValueExpr>) -> (copy: Vec<IdlValueExpr>)
    ensures
        expr_views(copy@) == expr_views(items@),
{
    let mut copy: Vec<IdlValueExpr> = Vec::new();
    let mut i: usize = 0;
    while i < items.len()
        invariant
            0 <= i <= items.len(),
            copy@.len() == i,
            forall|k: int| 0 <= k < i ==> copy@[k]@ == items@[k]@,
        decreases items.len() - i,
    {
        copy.push(items[i].clone());
        i = i + 1;
    }
    assert(expr_views(copy@) =~= expr_views(items@));
    copy
}

} // verus!
