//! Type specifiers and the declarations built from them: the data, their views
//! and the rendering of a type specifier as target source text.

use vstd::prelude::*;
use vstd::string::*;
use crate::expr::{
    clone_exprs, expr_text, expr_view, expr_views, scoped_name_text, IdlScopedName, IdlValueExpr,
    ScopedNameView, ValueExprView,
};
use crate::text::{flatten, lemma_flatten_take, push_repeated, repeated, texts};

verus! {

/// A type specifier.
#[derive(Debug, PartialEq, Eq)]
pub enum IdlTypeSpec {
    /// Stands where a type is missing; renders as nothing.
    Missing,
    ArrayType(Box<IdlTypeSpec>, Vec<IdlValueExpr>),
    SequenceType(Box<IdlTypeSpec>),
    StringType(Option<Box<IdlValueExpr>>),
    WideStringType(Option<Box<IdlValueExpr>>),
    F32Type,
    F64Type,
    F128Type,
    I16Type,
    I32Type,
    I64Type,
    U16Type,
    U32Type,
    U64Type,
    CharType,
    WideCharType,
    BooleanType,
    OctetType,
    ScopedName(IdlScopedName),
}

/// The mathematical content of a type specifier.
pub enum TypeSpecView {
    Missing,
    ArrayType(Box<TypeSpecView>, Seq<ValueExprView>),
    SequenceType(Box<TypeSpecView>),
    StringType(Option<ValueExprView>),
    WideStringType(Option<ValueExprView>),
    F32Type,
    F64Type,
    F128Type,
    I16Type,
    I32Type,
    I64Type,
    U16Type,
    U32Type,
    U64Type,
    CharType,
    WideCharType,
    BooleanType,
    OctetType,
    ScopedName(ScopedNameView),
}

/// The view of an optional bound.
pub open spec fn bound_view(bound: Option<Box<IdlValueExpr>>) -> Option<ValueExprView> {
    match bound {
        Some(expr) => Some(expr_view(*expr)),
        None => None,
    }
}

/// The view of a type specifier, node by node.
pub open spec fn type_view(spec: IdlTypeSpec) -> TypeSpecView
    decreases spec,
{
    match spec {
        IdlTypeSpec::Missing => TypeSpecView::Missing,
        IdlTypeSpec::ArrayType(element, dims) => TypeSpecView::ArrayType(
            Box::new(type_view(*element)),
            expr_views(dims@),
        ),
        IdlTypeSpec::SequenceType(element) => TypeSpecView::SequenceType(
            Box::new(type_view(*element)),
        ),
        IdlTypeSpec::StringType(bound) => TypeSpecView::StringType(bound_view(bound)),
        IdlTypeSpec::WideStringType(bound) => TypeSpecView::WideStringType(bound_view(bound)),
        IdlTypeSpec::F32Type => TypeSpecView::F32Type,
        IdlTypeSpec::F64Type => TypeSpecView::F64Type,
        IdlTypeSpec::F128Type => TypeSpecView::F128Type,
        IdlTypeSpec::I16Type => TypeSpecView::I16Type,
        IdlTypeSpec::I32Type => TypeSpecView::I32Type,
        IdlTypeSpec::I64Type => TypeSpecView::I64Type,
        IdlTypeSpec::U16Type => TypeSpecView::U16Type,
        IdlTypeSpec::U32Type => TypeSpecView::U32Type,
        IdlTypeSpec::U64Type => TypeSpecView::U64Type,
        IdlTypeSpec::CharType => TypeSpecView::CharType,
        IdlTypeSpec::WideCharType => TypeSpecView::WideCharType,
        IdlTypeSpec::BooleanType => TypeSpecView::BooleanType,
        IdlTypeSpec::OctetType => TypeSpecView::OctetType,
        IdlTypeSpec::ScopedName(name) => TypeSpecView::ScopedName(name@),
    }
}

impl View for IdlTypeSpec {
    type V = TypeSpecView;

    open spec fn view(&self) -> TypeSpecView {
        type_view(*self)
    }
}

/// What the dimension at `index` adds behind the element type: `;`, the
/// dimension and `]`.
pub open spec fn dim_piece(dims: Seq<ValueExprView>, index: int) -> Seq<char> {
    ";"@ + expr_text(dims[index]) + "]"@
}

/// The closing pieces of an array type, one per dimension.
pub open spec fn dim_pieces(dims: Seq<ValueExprView>) -> Seq<Seq<char>> {
    Seq::new(dims.len(), |i: int| dim_piece(dims, i))
}

/// A type specifier as target source text.
///
/// A primitive is its fixed token; a string of either width is `String`,
/// bounded or not; a sequence is `Vec<..>` around its element; an array opens
/// one `[` per dimension before its element and closes each dimension, first
/// to last, with `;`, the dimension and `]`.
pub open spec fn type_text(spec: TypeSpecView) -> Seq<char>
    decreases spec,
{
    match spec {
        TypeSpecView::Missing => Seq::empty(),
        TypeSpecView::ArrayType(element, dims) => repeated("["@, dims.len()) + type_text(*element)
            + flatten(dim_pieces(dims)),
        TypeSpecView::SequenceType(element) => "Vec<"@ + type_text(*element) + ">"@,
        TypeSpecView::StringType(_) => "String"@,
        TypeSpecView::WideStringType(_) => "String"@,
        TypeSpecView::F32Type => "f32"@,
        TypeSpecView::F64Type => "f64"@,
        TypeSpecView::F128Type => "f128"@,
        TypeSpecView::I16Type => "i16"@,
        TypeSpecView::I32Type => "i32"@,
        TypeSpecView::I64Type => "i64"@,
        TypeSpecView::U16Type => "u16"@,
        TypeSpecView::U32Type => "u32"@,
        TypeSpecView::U64Type => "u64"@,
        TypeSpecView::CharType => "char"@,
        TypeSpecView::WideCharType => "char"@,
        TypeSpecView::BooleanType => "bool"@,
        TypeSpecView::OctetType => "u8"@,
        TypeSpecView::ScopedName(name) => scoped_name_text(name),
    }
}

/// Appends the closing pieces of an array type to `out`.
fn write_dims(dims: &Vec<IdlValueExpr>, out: &mut String)
    ensures
        final(out)@ == old(out)@ + flatten(dim_pieces(expr_views(dims@))),
{
    let ghost pieces = dim_pieces(expr_views(dims@));
    let mut i: usize = 0;
    assert(pieces.take(0) =~= Seq::<Seq<char>>::empty());
    while i < dims.len()
        invariant
            0 <= i <= dims.len(),
            pieces == dim_pieces(expr_views(dims@)),
            pieces.len() == dims.len(),
            out@ == old(out)@ + flatten(pieces.take(i as int)),
        decreases dims.len() - i,
    {
        let ghost before = out@;
        out.append(";");
        dims[i].write_to(out);
        out.append("]");
        proof {
            assert(out@ =~= before + pieces[i as int]);
            lemma_flatten_take(pieces, i as int);
        }
        i = i + 1;
        assert(out@ =~= old(out)@ + flatten(pieces.take(i as int)));
    }
    assert(pieces.take(i as int) =~= pieces);
}

impl IdlTypeSpec {
    /// Appends the rendered type to `out`.
    pub fn write_to(&self, out: &mut String)
        ensures
            final(out)@ == old(out)@ + type_text(self@),
        decreases self,
    {
        match self {
            IdlTypeSpec::Missing => {
                assert(out@ =~= old(out)@ + type_text(self@));
            },
            IdlTypeSpec::ArrayType(element, dims) => {
                push_repeated(out, "[", dims.len());
                element.write_to(out);
                write_dims(dims, out);
                assert(out@ =~= old(out)@ + type_text(self@));
            },
            IdlTypeSpec::SequenceType(element) => {
                out.append("Vec<");
                element.write_to(out);
                out.append(">");
                assert(out@ =~= old(out)@ + type_text(self@));
            },
            IdlTypeSpec::StringType(_) => out.append("String"),
            IdlTypeSpec::WideStringType(_) => out.append("String"),
            IdlTypeSpec::F32Type => out.append("f32"),
            IdlTypeSpec::F64Type => out.append("f64"),
            IdlTypeSpec::F128Type => out.append("f128"),
            IdlTypeSpec::I16Type => out.append("i16"),
            IdlTypeSpec::I32Type => out.append("i32"),
            IdlTypeSpec::I64Type => out.append("i64"),
            IdlTypeSpec::U16Type => out.append("u16"),
            IdlTypeSpec::U32Type => out.append("u32"),
            IdlTypeSpec::U64Type => out.append("u64"),
            IdlTypeSpec::CharType => out.append("char"),
            IdlTypeSpec::WideCharType => out.append("char"),
            IdlTypeSpec::BooleanType => out.append("bool"),
            IdlTypeSpec::OctetType => out.append("u8"),
            IdlTypeSpec::ScopedName(name) => name.write_to(out),
        }
    }

    /// The type as target source text.
    pub fn to_string(&self) -> (rendered: String)
        ensures
            rendered@ == type_text(self@),
    {
        let mut out = String::new();
        self.write_to(&mut out);
        assert(out@ =~= type_text(self@));
        out
    }
}

/// Copies an optional bound.
fn clone_bound(bound: &Option<Box<IdlValueExpr>>) -> (copy: Option<Box<IdlValueExpr>>)
    ensures
        bound_view(copy) == bound_view(*bound),
{
    match bound {
        Some(expr) => {
            let inner: &IdlValueExpr = expr;
            Some(Box::new(inner.clone()))
        },
        None => None,
    }
}

impl Clone for IdlTypeSpec {
    fn clone(&self) -> (copy: Self)
        ensures
            copy@ == self@,
        decreases self,
    {
        match self {
            IdlTypeSpec::Missing => IdlTypeSpec::Missing,
            IdlTypeSpec::ArrayType(element, dims) => {
                let inner: &IdlTypeSpec = element;
                IdlTypeSpec::ArrayType(Box::new(inner.clone()), clone_exprs(dims))
            },
            IdlTypeSpec::SequenceType(element) => {
                let inner: &IdlTypeSpec = element;
                IdlTypeSpec::SequenceType(Box::new(inner.clone()))
            },
            IdlTypeSpec::StringType(bound) => IdlTypeSpec::StringType(clone_bound(bound)),
            IdlTypeSpec::WideStringType(bound) => IdlTypeSpec::WideStringType(clone_bound(bound)),
            IdlTypeSpec::F32Type => IdlTypeSpec::F32Type,
            IdlTypeSpec::F64Type => IdlTypeSpec::F64Type,
            IdlTypeSpec::F128Type => IdlTypeSpec::F128Type,
            IdlTypeSpec::I16Type => IdlTypeSpec::I16Type,
            IdlTypeSpec::I32Type => IdlTypeSpec::I32Type,
            IdlTypeSpec::I64Type => IdlTypeSpec::I64Type,
            IdlTypeSpec::U16Type => IdlTypeSpec::U16Type,
            IdlTypeSpec::U32Type => IdlTypeSpec::U32Type,
            IdlTypeSpec::U64Type => IdlTypeSpec::U64Type,
            IdlTypeSpec::CharType => IdlTypeSpec::CharType,
            IdlTypeSpec::WideCharType => IdlTypeSpec::WideCharType,
            IdlTypeSpec::BooleanType => IdlTypeSpec::BooleanType,
            IdlTypeSpec::OctetType => IdlTypeSpec::OctetType,
            IdlTypeSpec::ScopedName(name) => IdlTypeSpec::ScopedName(name.clone()),
        }
    }
}

impl Default for IdlTypeSpec {
    fn default() -> (empty: Self)
        ensures
            empty@ == TypeSpecView::Missing,
    {
        IdlTypeSpec::Missing
    }
}

/// One member of a structure.
#[derive(Clone, Debug, PartialEq, Eq)]
pub struct IdlStructMember {
    pub id: String,
    pub type_spec: IdlTypeSpec,
}

/// The mathematical content of a structure member.
pub struct StructMemberView {
    pub id: Seq<char>,
    pub type_spec: TypeSpecView,
}

impl View for IdlStructMember {
    type V = StructMemberView;

    open spec fn view(&self) -> StructMemberView {
        StructMemberView { id: self.id@, type_spec: self.type_spec@ }
    }
}

/// The single field of a union case.
#[derive(Clone, Debug, PartialEq, Eq)]
pub struct IdlSwitchElement {
    pub id: String,
    pub type_spec: IdlTypeSpec,
}

/// The mathematical content of a union case's field.
pub struct SwitchElementView {
    pub id: Seq<char>,
    pub type_spec: TypeSpecView,
}

impl View for IdlSwitchElement {
    type V = SwitchElementView;

    open spec fn view(&self) -> SwitchElementView {
        SwitchElementView { id: self.id@, type_spec: self.type_spec@ }
    }
}

/// A label of a union case.
#[derive(Clone, Debug, PartialEq, Eq)]
pub enum IdlSwitchLabel {
    Label(IdlValueExpr),
    Default,
}

/// The mathematical content of a case label.
pub enum SwitchLabelView {
    Label(ValueExprView),
    Default,
}

impl View for IdlSwitchLabel {
    type V = SwitchLabelView;

    open spec fn view(&self) -> SwitchLabelView {
        match *self {
            IdlSwitchLabel::Label(expr) => SwitchLabelView::Label(expr@),
            IdlSwitchLabel::Default => SwitchLabelView::Default,
        }
    }
}

/// A union case: its labels, in source order, and its field.
#[derive(Clone, Debug, PartialEq, Eq)]
pub struct IdlSwitchCase {
    pub labels: Vec<IdlSwitchLabel>,
    pub elem_spec: IdlSwitchElement,
}

/// The mathematical content of a union case.
pub struct SwitchCaseView {
    pub labels: Seq<SwitchLabelView>,
    pub elem_spec: SwitchElementView,
}

/// The views of a sequence of case labels.
pub open spec fn label_views(labels: Seq<IdlSwitchLabel>) -> Seq<SwitchLabelView> {
    Seq::new(labels.len(), |i: int| labels[i]@)
}

impl View for IdlSwitchCase {
    type V = SwitchCaseView;

    open spec fn view(&self) -> SwitchCaseView {
        SwitchCaseView { labels: label_views(self.labels@), elem_spec: self.elem_spec@ }
    }
}

/// The views of a sequence of structure members.
pub open spec fn member_views(members: Seq<IdlStructMember>) -> Seq<StructMemberView> {
    Seq::new(members.len(), |i: int| members[i]@)
}

/// The views of a sequence of union cases.
pub open spec fn case_views(cases: Seq<IdlSwitchCase>) -> Seq<SwitchCaseView> {
    Seq::new(cases.len(), |i: int| cases[i]@)
}

/// The kinds of type declaration.
#[derive(Clone, Debug, PartialEq, Eq)]
pub enum IdlTypeDclKind {
    /// Stands where a declaration is missing; renders as nothing.
    Missing,
    TypeDcl(String, IdlTypeSpec),
    StructDcl(String, Vec<IdlStructMember>),
    UnionDcl(String, IdlTypeSpec, Vec<IdlSwitchCase>),
    EnumDcl(String, Vec<String>),
}

/// The mathematical content of a type declaration.
pub enum TypeDclView {
    Missing,
    TypeDcl(Seq<char>, TypeSpecView),
    StructDcl(Seq<char>, Seq<StructMemberView>),
    UnionDcl(Seq<char>, TypeSpecView, Seq<SwitchCaseView>),
    EnumDcl(Seq<char>, Seq<Seq<char>>),
}

impl View for IdlTypeDclKind {
    type V = TypeDclView;

    open spec fn view(&self) -> TypeDclView {
        match *self {
            IdlTypeDclKind::Missing => TypeDclView::Missing,
            IdlTypeDclKind::TypeDcl(id, spec) => TypeDclView::TypeDcl(id@, spec@),
            IdlTypeDclKind::StructDcl(id, members) => TypeDclView::StructDcl(
                id@,
                member_views(members@),
            ),
            IdlTypeDclKind::UnionDcl(id, discriminator, cases) => TypeDclView::UnionDcl(
                id@,
                discriminator@,
                case_views(cases@),
            ),
            IdlTypeDclKind::EnumDcl(id, enumerators) => TypeDclView::EnumDcl(
                id@,
                texts(enumerators@),
            ),
        }
    }
}

impl Default for IdlTypeDclKind {
    fn default() -> (empty: Self)
        ensures
            empty@ == TypeDclView::Missing,
    {
        IdlTypeDclKind::Missing
    }
}

/// A type declaration.
#[derive(Clone, Debug, PartialEq, Eq)]
pub struct IdlTypeDcl(pub IdlTypeDclKind);

impl View for IdlTypeDcl {
    type V = TypeDclView;

    open spec fn view(&self) -> TypeDclView {
        self.0@
    }
}

impl Default for IdlTypeDcl {
    fn default() -> (empty: Self)
        ensures
            empty@ == TypeDclView::Missing,
    {
        IdlTypeDcl(IdlTypeDclKind::Missing)
    }
}

/// A constant declaration.
#[derive(Clone, Debug, PartialEq, Eq)]
pub struct IdlConstDcl {
    pub id: String,
    pub typedcl: IdlTypeSpec,
    pub value: IdlValueExpr,
}

/// The mathematical content of a constant declaration.
pub struct ConstDclView {
    pub id: Seq<char>,
    pub typedcl: TypeSpecView,
    pub value: ValueExprView,
}

impl View for IdlConstDcl {
    type V = ConstDclView;

    open spec fn view(&self) -> ConstDclView {
        ConstDclView { id: self.id@, typedcl: self.typedcl@, value: self.value@ }
    }
}

impl Default for IdlConstDcl {
    fn default() -> (empty: Self)
        ensures
            empty@ == (ConstDclView {
                id: Seq::empty(),
                typedcl: TypeSpecView::Missing,
                value: ValueExprView::Missing,
            }),
    {
        IdlConstDcl { id: String::new(), typedcl: IdlTypeSpec::Missing, value: IdlValueExpr::Missing }
    }
}

} // verus!
