//! What the generators are given: a struct declaration, its generic
//! parameters, its fields and their attributes, as plain values.

use vstd::prelude::*;
use crate::tokens::{Span, TokenTree};

verus! {

/// A literal in an attribute.
#[derive(Debug, PartialEq, Eq)]
pub enum Lit {
    /// A string literal, by the text it stands for.
    Str { value: String, span: Span },
    /// Any other literal.
    Other { span: Span },
}

/// What an attribute holds after its path.
#[derive(Debug, PartialEq, Eq)]
pub enum Payload {
    /// Nothing: a bare path, as `debug`.
    Bare,
    /// A literal, as in `debug = "..."`.
    Value(Lit),
    /// A list of nested attributes, as in `builder(each = "...")`.
    List(Vec<Attribute>),
    /// Anything that is none of these.
    Other,
}

/// An attribute on a field or on the struct, or one nested in a list.
#[derive(Debug, PartialEq, Eq)]
pub struct Attribute {
    /// The path at its head; a path of one name is that name.
    pub path: String,
    /// Where the attribute's content stands.
    pub span: Span,
    pub payload: Payload,
}

/// An argument between the angle brackets of a path segment.
#[derive(Debug, PartialEq, Eq)]
pub struct Arg {
    /// Whether the argument is a type, and not a lifetime, a constant or a
    /// binding.
    pub is_type: bool,
    /// What was written: the type itself, or for another argument its
    /// tokens with the types that stand inside it.
    pub syntax: Ty,
}

/// One name of a path, with the arguments in its angle brackets.
#[derive(Debug, PartialEq, Eq)]
pub struct Segment {
    pub name: String,
    pub args: Vec<Arg>,
}

/// The forms of a type that is not described by its segments.
#[derive(Clone, Copy, Debug, PartialEq, Eq, Structural)]
pub enum Form {
    Array,
    BareFn,
    Group,
    ImplTrait,
    Infer,
    Macro,
    Never,
    Paren,
    Ptr,
    Reference,
    Slice,
    TraitObject,
    Tuple,
    Verbatim,
    /// A path whose segments are not all plain: one with a qualifier, as
    /// `<T as Trait>::Item`, or with arguments in parentheses.
    Path,
    /// An argument that is no type, or a form without a name.
    Undocumented,
}

/// A type as it was written.
#[derive(Debug, PartialEq, Eq)]
pub enum Ty {
    /// A path of names with arguments in angle brackets, as `Vec<T>` or
    /// `std::marker::PhantomData<T>`.
    Path { tokens: Vec<TokenTree>, segments: Vec<Segment> },
    /// Any other form, with the types written directly inside it.
    Other { form: Form, tokens: Vec<TokenTree>, inner: Vec<Ty> },
}

/// A named field of a struct.
#[derive(Debug, PartialEq, Eq)]
pub struct Field {
    pub name: String,
    pub span: Span,
    pub ty: Ty,
    pub attrs: Vec<Attribute>,
}

/// The kind of a generic parameter.
#[derive(Clone, Copy, Debug, PartialEq, Eq, Structural)]
pub enum ParamKind {
    Type,
    Lifetime,
    Const,
}

/// A generic parameter of the struct. Its default and its attributes are
/// not described: an implementation is written without them.
#[derive(Debug, PartialEq, Eq)]
pub struct GenericParam {
    pub kind: ParamKind,
    /// The parameter's name; a lifetime's name stands without its quote.
    pub name: String,
    pub span: Span,
    /// The bounds it was declared with; for a constant, its type alone.
    pub bounds: Vec<Vec<TokenTree>>,
}

/// What kind of item a derive was put on.
#[derive(Debug, PartialEq, Eq)]
pub enum Data {
    /// A struct with named fields.
    Named(Vec<Field>),
    /// A tuple struct.
    Tuple,
    /// A unit struct.
    Unit,
    Enum,
    Union,
}

/// The item a derive was put on.
#[derive(Debug, PartialEq, Eq)]
pub struct DeriveInput {
    pub name: String,
    pub span: Span,
    pub attrs: Vec<Attribute>,
    pub params: Vec<GenericParam>,
    /// The predicates of its `where` clause.
    pub predicates: Vec<Vec<TokenTree>>,
    pub data: Data,
}

/// An error for the compiler to report at a place in the input.
#[derive(Debug, PartialEq, Eq)]
pub struct Diagnostic {
    pub span: Span,
    pub message: String,
}

/// An error as a place and a message.
pub struct DiagnosticV {
    pub span: Span,
    pub message: Seq<char>,
}

impl View for Diagnostic {
    type V = DiagnosticV;

    open spec fn view(&self) -> DiagnosticV {
        DiagnosticV { span: self.span, message: self.message@ }
    }
}

impl Ty {
    /// The tokens the type was written with.
    pub open spec fn tokens(self) -> Vec<TokenTree> {
        match self {
            Ty::Path { tokens, .. } => tokens,
            Ty::Other { tokens, .. } => tokens,
        }
    }

    /// The tokens the type was written with.
    pub fn tokens_ref(&self) -> (r: &Vec<TokenTree>)
        ensures
            *r == self.tokens(),
    {
        match self {
            Ty::Path { tokens, .. } => tokens,
            Ty::Other { tokens, .. } => tokens,
        }
    }
}

} // verus!
