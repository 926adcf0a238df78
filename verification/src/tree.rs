//! The parse tree that the lowering consumes, the productions it tells apart
//! and the failures it reports.

use vstd::prelude::*;
use vstd::string::*;
use crate::text::str_eq;

verus! {

/// The productions that the lowering tells apart. Every other production is
/// `Other`: it is passed through to its children.
///
/// `IncludedSpecification`, `IncludeNotFound` and `IncludeRejected` are no
/// productions of the grammar: they stand for what an include directive
/// brought in once it has been resolved.
#[derive(Clone, Copy, Debug, PartialEq, Eq, Structural)]
pub enum Production {
    Float,
    Double,
    LongDouble,
    UnsignedShortInt,
    UnsignedLonglongInt,
    UnsignedLongInt,
    SignedShortInt,
    SignedLonglongInt,
    SignedLongInt,
    CharType,
    WideCharType,
    BooleanType,
    OctetType,
    StringType,
    WideStringType,
    SequenceType,
    ScopedName,
    SimpleDeclarator,
    ArrayDeclarator,
    Identifier,
    Enumerator,
    IntegralPart,
    FractionalPart,
    Exponent,
    FloatSuffix,
    ConstExpr,
    UnaryExpr,
    PrimaryExpr,
    Literal,
    AndExpr,
    OrExpr,
    XorExpr,
    LshiftExpr,
    RshiftExpr,
    AddExpr,
    SubExpr,
    MulExpr,
    DivExpr,
    ModExpr,
    DecimalIntegerLiteral,
    OctalIntegerLiteral,
    HexIntegerLiteral,
    FloatingPtLiteral,
    BooleanLiteral,
    CharacterLiteral,
    WideCharacterLiteral,
    StringLiteral,
    WideStringLiteral,
    CaseLabel,
    ElementSpec,
    ModuleDcl,
    StructDef,
    UnionDef,
    TypeDeclarator,
    EnumDcl,
    ConstDcl,
    IncludeDirective,
    IncludedSpecification,
    IncludeNotFound,
    IncludeRejected,
    Other,
}

/// The production that a name stands for.
#[verifier::opaque]
pub open spec fn production_of(name: Seq<char>) -> Production {
    if name == "included_specification"@ {
        Production::IncludedSpecification
    } else if name == "include_not_found"@ {
        Production::IncludeNotFound
    } else if name == "include_rejected"@ {
        Production::IncludeRejected
    } else if name == "float"@ {
        Production::Float
    } else if name == "double"@ {
        Production::Double
    } else if name == "long_double"@ {
        Production::LongDouble
    } else if name == "unsigned_short_int"@ {
        Production::UnsignedShortInt
    } else if name == "unsigned_longlong_int"@ {
        Production::UnsignedLonglongInt
    } else if name == "unsigned_long_int"@ {
        Production::UnsignedLongInt
    } else if name == "signed_short_int"@ {
        Production::SignedShortInt
    } else if name == "signed_longlong_int"@ {
        Production::SignedLonglongInt
    } else if name == "signed_long_int"@ {
        Production::SignedLongInt
    } else if name == "char_type"@ {
        Production::CharType
    } else if name == "wide_char_type"@ {
        Production::WideCharType
    } else if name == "boolean_type"@ {
        Production::BooleanType
    } else if name == "octet_type"@ {
        Production::OctetType
    } else if name == "string_type"@ {
        Production::StringType
    } else if name == "wide_string_type"@ {
        Production::WideStringType
    } else if name == "sequence_type"@ {
        Production::SequenceType
    } else if name == "scoped_name"@ {
        Production::ScopedName
    } else if name == "simple_declarator"@ {
        Production::SimpleDeclarator
    } else if name == "array_declarator"@ {
        Production::ArrayDeclarator
    } else if name == "identifier"@ {
        Production::Identifier
    } else if name == "enumerator"@ {
        Production::Enumerator
    } else if name == "integral_part"@ {
        Production::IntegralPart
    } else if name == "fractional_part"@ {
        Production::FractionalPart
    } else if name == "exponent"@ {
        Production::Exponent
    } else if name == "float_suffix"@ {
        Production::FloatSuffix
    } else if name == "const_expr"@ {
        Production::ConstExpr
    } else if name == "unary_expr"@ {
        Production::UnaryExpr
    } else if name == "primary_expr"@ {
        Production::PrimaryExpr
    } else if name == "literal"@ {
        Production::Literal
    } else if name == "and_expr"@ {
        Production::AndExpr
    } else if name == "or_expr"@ {
        Production::OrExpr
    } else if name == "xor_expr"@ {
        Production::XorExpr
    } else if name == "lshift_expr"@ {
        Production::LshiftExpr
    } else if name == "rshift_expr"@ {
        Production::RshiftExpr
    } else if name == "add_expr"@ {
        Production::AddExpr
    } else if name == "sub_expr"@ {
        Production::SubExpr
    } else if name == "mul_expr"@ {
        Production::MulExpr
    } else if name == "div_expr"@ {
        Production::DivExpr
    } else if name == "mod_expr"@ {
        Production::ModExpr
    } else if name == "decimal_integer_literal"@ {
        Production::DecimalIntegerLiteral
    } else if name == "octal_integer_literal"@ {
        Production::OctalIntegerLiteral
    } else if name == "hex_integer_literal"@ {
        Production::HexIntegerLiteral
    } else if name == "floating_pt_literal"@ {
        Production::FloatingPtLiteral
    } else if name == "boolean_literal"@ {
        Production::BooleanLiteral
    } else if name == "character_literal"@ {
        Production::CharacterLiteral
    } else if name == "wide_character_literal"@ {
        Production::WideCharacterLiteral
    } else if name == "string_literal"@ {
        Production::StringLiteral
    } else if name == "wide_string_literal"@ {
        Production::WideStringLiteral
    } else if name == "case_label"@ {
        Production::CaseLabel
    } else if name == "element_spec"@ {
        Production::ElementSpec
    } else if name == "module_dcl"@ {
        Production::ModuleDcl
    } else if name == "struct_def"@ {
        Production::StructDef
    } else if name == "union_def"@ {
        Production::UnionDef
    } else if name == "type_declarator"@ {
        Production::TypeDeclarator
    } else if name == "enum_dcl"@ {
        Production::EnumDcl
    } else if name == "const_dcl"@ {
        Production::ConstDcl
    } else if name == "include_directive"@ {
        Production::IncludeDirective
    } else {
        Production::Other
    }
}

impl Production {
    /// Tells the production that `name` stands for.
    pub fn from_name(name: &str) -> (production: Production)
        ensures
            production == production_of(name@),
    {
        reveal(production_of);
        if str_eq(name, "included_specification") {
            Production::IncludedSpecification
        } else if str_eq(name, "include_not_found") {
            Production::IncludeNotFound
        } else if str_eq(name, "include_rejected") {
            Production::IncludeRejected
        } else if str_eq(name, "float") {
            Production::Float
        } else if str_eq(name, "double") {
            Production::Double
        } else if str_eq(name, "long_double") {
            Production::LongDouble
        } else if str_eq(name, "unsigned_short_int") {
            Production::UnsignedShortInt
        } else if str_eq(name, "unsigned_longlong_int") {
            Production::UnsignedLonglongInt
        } else if str_eq(name, "unsigned_long_int") {
            Production::UnsignedLongInt
        } else if str_eq(name, "signed_short_int") {
            Production::SignedShortInt
        } else if str_eq(name, "signed_longlong_int") {
            Production::SignedLonglongInt
        } else if str_eq(name, "signed_long_int") {
            Production::SignedLongInt
        } else if str_eq(name, "char_type") {
            Production::CharType
        } else if str_eq(name, "wide_char_type") {
            Production::WideCharType
        } else if str_eq(name, "boolean_type") {
            Production::BooleanType
        } else if str_eq(name, "octet_type") {
            Production::OctetType
        } else if str_eq(name, "string_type") {
            Production::StringType
        } else if str_eq(name, "wide_string_type") {
            Production::WideStringType
        } else if str_eq(name, "sequence_type") {
            Production::SequenceType
        } else if str_eq(name, "scoped_name") {
            Production::ScopedName
        } else if str_eq(name, "simple_declarator") {
            Production::SimpleDeclarator
        } else if str_eq(name, "array_declarator") {
            Production::ArrayDeclarator
        } else if str_eq(name, "identifier") {
            Production::Identifier
        } else if str_eq(name, "enumerator") {
            Production::Enumerator
        } else if str_eq(name, "integral_part") {
            Production::IntegralPart
        } else if str_eq(name, "fractional_part") {
            Production::FractionalPart
        } else if str_eq(name, "exponent") {
            Production::Exponent
        } else if str_eq(name, "float_suffix") {
            Production::FloatSuffix
        } else if str_eq(name, "const_expr") {
            Production::ConstExpr
        } else if str_eq(name, "unary_expr") {
            Production::UnaryExpr
        } else if str_eq(name, "primary_expr") {
            Production::PrimaryExpr
        } else if str_eq(name, "literal") {
            Production::Literal
        } else if str_eq(name, "and_expr") {
            Production::AndExpr
        } else if str_eq(name, "or_expr") {
            Production::OrExpr
        } else if str_eq(name, "xor_expr") {
            Production::XorExpr
        } else if str_eq(name, "lshift_expr") {
            Production::LshiftExpr
        } else if str_eq(name, "rshift_expr") {
            Production::RshiftExpr
        } else if str_eq(name, "add_expr") {
            Production::AddExpr
        } else if str_eq(name, "sub_expr") {
            Production::SubExpr
        } else if str_eq(name, "mul_expr") {
            Production::MulExpr
        } else if str_eq(name, "div_expr") {
            Production::DivExpr
        } else if str_eq(name, "mod_expr") {
            Production::ModExpr
        } else if str_eq(name, "decimal_integer_literal") {
            Production::DecimalIntegerLiteral
        } else if str_eq(name, "octal_integer_literal") {
            Production::OctalIntegerLiteral
        } else if str_eq(name, "hex_integer_literal") {
            Production::HexIntegerLiteral
        } else if str_eq(name, "floating_pt_literal") {
            Production::FloatingPtLiteral
        } else if str_eq(name, "boolean_literal") {
            Production::BooleanLiteral
        } else if str_eq(name, "character_literal") {
            Production::CharacterLiteral
        } else if str_eq(name, "wide_character_literal") {
            Production::WideCharacterLiteral
        } else if str_eq(name, "string_literal") {
            Production::StringLiteral
        } else if str_eq(name, "wide_string_literal") {
            Production::WideStringLiteral
        } else if str_eq(name, "case_label") {
            Production::CaseLabel
        } else if str_eq(name, "element_spec") {
            Production::ElementSpec
        } else if str_eq(name, "module_dcl") {
            Production::ModuleDcl
        } else if str_eq(name, "struct_def") {
            Production::StructDef
        } else if str_eq(name, "union_def") {
            Production::UnionDef
        } else if str_eq(name, "type_declarator") {
            Production::TypeDeclarator
        } else if str_eq(name, "enum_dcl") {
            Production::EnumDcl
        } else if str_eq(name, "const_dcl") {
            Production::ConstDcl
        } else if str_eq(name, "include_directive") {
            Production::IncludeDirective
        } else {
            Production::Other
        }
    }
}

/// What was wrong with a parse tree or a source text.
#[derive(Clone, Copy, Debug, PartialEq, Eq, Structural)]
pub enum ParseErrorKind {
    MissingSequenceElement,
    UnknownTypeSpec,
    MissingDeclarator,
    MissingDeclaratorName,
    MissingArraySize,
    UnknownDeclarator,
    MissingMemberType,
    MissingDeclarators,
    NotAnIdentifier,
    MissingOperand,
    EmptyConstExpr,
    UnknownUnaryOperator,
    EmptyUnaryExpr,
    UnknownPrimaryExpr,
    UnknownFloatPart,
    UnknownConstExpr,
    MissingElementType,
    MissingSwitchType,
    MissingElementSpec,
    MissingName,
    MissingUnionPart,
    MissingTypeDeclarator,
    MissingConstPart,
    Rejected,
}

/// The sentence that describes a kind of failure.
pub open spec fn kind_text(kind: ParseErrorKind) -> Seq<char> {
    match kind {
        ParseErrorKind::MissingSequenceElement => "a sequence type names no element type"@,
        ParseErrorKind::UnknownTypeSpec => "no type specifier was found"@,
        ParseErrorKind::MissingDeclarator => "a declarator is missing"@,
        ParseErrorKind::MissingDeclaratorName => "a declarator names no identifier"@,
        ParseErrorKind::MissingArraySize => "an array dimension holds no expression"@,
        ParseErrorKind::UnknownDeclarator => "a declarator is neither simple nor an array"@,
        ParseErrorKind::MissingMemberType => "a member names no type"@,
        ParseErrorKind::MissingDeclarators => "a member declares nothing"@,
        ParseErrorKind::NotAnIdentifier => "an identifier was expected"@,
        ParseErrorKind::MissingOperand => "an operator has no operand"@,
        ParseErrorKind::EmptyConstExpr => "a constant expression is empty"@,
        ParseErrorKind::UnknownUnaryOperator => "a unary operator is none of - + ~"@,
        ParseErrorKind::EmptyUnaryExpr => "a unary expression is empty"@,
        ParseErrorKind::UnknownPrimaryExpr => "a primary expression is no scoped name, literal or parenthesised expression"@,
        ParseErrorKind::UnknownFloatPart => "a floating-point literal holds an unknown part"@,
        ParseErrorKind::UnknownConstExpr => "no constant expression was found"@,
        ParseErrorKind::MissingElementType => "a union element names no type"@,
        ParseErrorKind::MissingSwitchType => "a union names no discriminator type"@,
        ParseErrorKind::MissingElementSpec => "a union case holds no element"@,
        ParseErrorKind::MissingName => "a declaration names no identifier"@,
        ParseErrorKind::MissingUnionPart => "a union lacks its discriminator or its body"@,
        ParseErrorKind::MissingTypeDeclarator => "a type declaration lacks its type or its declarators"@,
        ParseErrorKind::MissingConstPart => "a constant lacks its type, its name or its value"@,
        ParseErrorKind::Rejected => "the source text does not follow the grammar"@,
    }
}

impl ParseErrorKind {
    /// The sentence that describes this kind of failure.
    pub fn message(&self) -> (sentence: &'static str)
        ensures
            sentence@ == kind_text(*self),
    {
        match self {
            ParseErrorKind::MissingSequenceElement => "a sequence type names no element type",
            ParseErrorKind::UnknownTypeSpec => "no type specifier was found",
            ParseErrorKind::MissingDeclarator => "a declarator is missing",
            ParseErrorKind::MissingDeclaratorName => "a declarator names no identifier",
            ParseErrorKind::MissingArraySize => "an array dimension holds no expression",
            ParseErrorKind::UnknownDeclarator => "a declarator is neither simple nor an array",
            ParseErrorKind::MissingMemberType => "a member names no type",
            ParseErrorKind::MissingDeclarators => "a member declares nothing",
            ParseErrorKind::NotAnIdentifier => "an identifier was expected",
            ParseErrorKind::MissingOperand => "an operator has no operand",
            ParseErrorKind::EmptyConstExpr => "a constant expression is empty",
            ParseErrorKind::UnknownUnaryOperator => "a unary operator is none of - + ~",
            ParseErrorKind::EmptyUnaryExpr => "a unary expression is empty",
            ParseErrorKind::UnknownPrimaryExpr => "a primary expression is no scoped name, literal or parenthesised expression",
            ParseErrorKind::UnknownFloatPart => "a floating-point literal holds an unknown part",
            ParseErrorKind::UnknownConstExpr => "no constant expression was found",
            ParseErrorKind::MissingElementType => "a union element names no type",
            ParseErrorKind::MissingSwitchType => "a union names no discriminator type",
            ParseErrorKind::MissingElementSpec => "a union case holds no element",
            ParseErrorKind::MissingName => "a declaration names no identifier",
            ParseErrorKind::MissingUnionPart => "a union lacks its discriminator or its body",
            ParseErrorKind::MissingTypeDeclarator => "a type declaration lacks its type or its declarators",
            ParseErrorKind::MissingConstPart => "a constant lacks its type, its name or its value",
            ParseErrorKind::Rejected => "the source text does not follow the grammar",
        }
    }
}

/// A failure to read a source text or a parse tree: its kind, the byte offset
/// of the node at which it was met, and a sentence for the reader.
#[derive(Clone, Debug, PartialEq, Eq)]
pub struct ParseError {
    pub kind: ParseErrorKind,
    pub pos: usize,
    pub detail: String,
}

/// The mathematical content of a parse failure.
pub struct ParseFailure {
    pub kind: ParseErrorKind,
    pub pos: usize,
    pub detail: Seq<char>,
}

impl View for ParseError {
    type V = ParseFailure;

    open spec fn view(&self) -> ParseFailure {
        ParseFailure { kind: self.kind, pos: self.pos, detail: self.detail@ }
    }
}

/// The failure of the given kind at the given offset, with the sentence of its
/// kind.
pub open spec fn malformed(kind: ParseErrorKind, pos: usize) -> ParseFailure {
    ParseFailure { kind, pos, detail: kind_text(kind) }
}

impl ParseError {
    /// The failure of the given kind at the given offset.
    pub fn malformed(kind: ParseErrorKind, pos: usize) -> (error: ParseError)
        ensures
            error@ == malformed(kind, pos),
    {
        ParseError { kind, pos, detail: kind.message().to_owned() }
    }

    /// The sentence of this failure.
    pub fn to_string(&self) -> (rendered: String)
        ensures
            rendered@ == self.detail@,
    {
        self.detail.clone()
    }
}

/// A node of a parse tree: the name of its production, its lexeme, the byte
/// offset at which it starts and its children in source order.
#[derive(Debug, PartialEq, Eq)]
pub struct ParseNode {
    pub rule: String,
    pub text: String,
    pub pos: usize,
    pub children: Vec<ParseNode>,
}

/// The mathematical content of a parse tree.
pub struct ParseTree {
    pub rule: Seq<char>,
    pub text: Seq<char>,
    pub pos: usize,
    pub children: Seq<ParseTree>,
}

/// The view of a parse tree, node by node.
pub open spec fn tree_of(node: ParseNode) -> ParseTree
    decreases node,
{
    ParseTree {
        rule: node.rule@,
        text: node.text@,
        pos: node.pos,
        children: Seq::new(
            node.children@.len(),
            |i: int|
                if 0 <= i < node.children@.len() {
                    tree_of(node.children@[i])
                } else {
                    arbitrary()
                },
        ),
    }
}

impl View for ParseNode {
    type V = ParseTree;

    open spec fn view(&self) -> ParseTree {
        tree_of(*self)
    }
}

/// The views of a sequence of parse trees.
pub open spec fn trees_of(nodes: Seq<ParseNode>) -> Seq<ParseTree> {
    Seq::new(nodes.len(), |i: int| nodes[i]@)
}

impl ParseTree {
    /// The production of this node.
    pub open spec fn kind(self) -> Production {
        production_of(self.rule)
    }

    /// The child at `index`, if there is one.
    pub open spec fn child(self, index: int) -> Option<ParseTree> {
        if 0 <= index < self.children.len() {
            Some(self.children[index])
        } else {
            None
        }
    }
}

/// The children of a node's view are the views of its children.
pub proof fn lemma_children(node: ParseNode)
    ensures
        node@.children == trees_of(node.children@),
        node@.rule == node.rule@,
        node@.text == node.text@,
        node@.pos == node.pos,
{
    assert(node@.children =~= trees_of(node.children@));
}

impl Clone for ParseNode {
    fn clone(&self) -> (copy: Self)
        ensures
            copy@ == self@,
        decreases self,
    {
        let mut children: Vec<ParseNode> = Vec::new();
        let mut i: usize = 0;
        while i < self.children.len()
            invariant
                0 <= i <= self.children.len(),
                children@.len() == i,
                forall|k: int| 0 <= k < i ==> children@[k]@ == self.children@[k]@,
            decreases self.children.len() - i,
        {
            children.push(self.children[i].clone());
            i = i + 1;
        }
        let copy = ParseNode {
            rule: self.rule.clone(),
            text: self.text.clone(),
            pos: self.pos,
            children,
        };
        proof {
            lemma_children(copy);
            lemma_children(*self);
            assert(trees_of(copy.children@) =~= trees_of(self.children@));
        }
        copy
    }
}

impl ParseNode {
    /// A node of the production called `rule`.
    pub fn new(rule: &str, text: &str, pos: usize, children: Vec<ParseNode>) -> (node: ParseNode)
        ensures
            node@ == (ParseTree {
                rule: rule@,
                text: text@,
                pos,
                children: trees_of(children@),
            }),
    {
        let node = ParseNode { rule: rule.to_owned(), text: text.to_owned(), pos, children };
        proof {
            lemma_children(node);
        }
        node
    }

    /// The production of this node.
    pub fn kind(&self) -> (production: Production)
        ensures
            production == self@.kind(),
    {
        Production::from_name(self.rule.as_str())
    }

    /// The child at `index`, if there is one.
    pub fn child(&self, index: usize) -> (found: Option<&ParseNode>)
        ensures
            match found {
                Some(node) => self@.child(index as int) == Some(node@),
                None => self@.child(index as int) is None,
            },
    {
        proof {
            lemma_children(*self);
        }
        if index < self.children.len() {
            Some(&self.children[index])
        } else {
            None
        }
    }
}

/// The three marks of a resolved include directive are told apart by their
/// names.
pub proof fn lemma_inclusion_marks()
    ensures
        production_of("included_specification"@) == Production::IncludedSpecification,
        production_of("include_not_found"@) == Production::IncludeNotFound,
        production_of("include_rejected"@) == Production::IncludeRejected,
{
    reveal(production_of);
    reveal_strlit("included_specification");
    reveal_strlit("include_not_found");
    reveal_strlit("include_rejected");
    assert("included_specification"@.len() == 22);
    assert("include_not_found"@.len() == 17);
    assert("include_rejected"@.len() == 16);
}

} // verus!
