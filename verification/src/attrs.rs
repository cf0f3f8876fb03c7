//! Reading the helper attributes `builder(each = "...")`, `debug = "..."`
//! and `debug(bound = "...")`.

use vstd::prelude::*;
use crate::model::{Attribute, Diagnostic, Lit, Payload};
use crate::shape::name_is;
use crate::tokens::Span;

verus! {

/// The attributes with the given path, in the order they were written.
pub open spec fn named(attrs: Seq<Attribute>, name: Seq<char>) -> Seq<Attribute> {
    attrs.filter(|a: Attribute| a.path@ == name)
}

/// How many attributes carry a path, and where the first two stand.
#[derive(Clone, Copy, Debug, PartialEq, Eq, Structural)]
pub enum Found {
    Absent,
    Once(usize),
    Repeated(usize, usize),
}

/// What `find_named` answers for given attributes and a path.
pub open spec fn found_matches(attrs: Seq<Attribute>, name: Seq<char>, r: Found) -> bool {
    let hits = named(attrs, name);
    match r {
        Found::Absent => hits.len() == 0,
        Found::Once(i) => hits.len() == 1 && 0 <= i < attrs.len() && attrs[i as int] == hits[0],
        Found::Repeated(i, j) => {
            &&& hits.len() >= 2
            &&& 0 <= i < j < attrs.len()
            &&& attrs[i as int] == hits[0]
            &&& attrs[j as int] == hits[1]
        },
    }
}

/// Adding one attribute to a run adds it to the named ones if its path is
/// the name, and changes nothing otherwise.
pub proof fn lemma_named_push(attrs: Seq<Attribute>, a: Attribute, name: Seq<char>)
    ensures
        named(attrs.push(a), name) == if a.path@ == name {
            named(attrs, name).push(a)
        } else {
            named(attrs, name)
        },
{
    reveal(Seq::filter);
    assert(attrs.push(a).drop_last() =~= attrs);
}

/// Looks for the attributes with the given path.
pub fn find_named(attrs: &Vec<Attribute>, name: &str) -> (r: Found)
    ensures
        found_matches(attrs@, name@, r),
{
    let mut r = Found::Absent;
    let mut i: usize = 0;
    proof {
        reveal(Seq::filter);
        assert(attrs@.take(0) =~= Seq::<Attribute>::empty());
    }
    while i < attrs.len()
        invariant
            i <= attrs.len(),
            found_matches(attrs@.take(i as int), name@, r),
        decreases attrs.len() - i,
    {
        proof {
            lemma_named_push(attrs@.take(i as int), attrs@[i as int], name@);
            assert(attrs@.take(i as int).push(attrs@[i as int]) =~= attrs@.take(i + 1));
        }
        if name_is(&attrs[i].path, name) {
            r = match r {
                Found::Absent => Found::Once(i),
                Found::Once(first) => Found::Repeated(first, i),
                Found::Repeated(first, second) => Found::Repeated(first, second),
            };
        }
        i += 1;
    }
    proof {
        assert(attrs@.take(attrs.len() as int) =~= attrs@);
    }
    r
}

/// A string that an attribute gives.
#[derive(Debug, PartialEq, Eq)]
pub struct Text {
    pub value: String,
    /// Where the string was written.
    pub span: Span,
    /// Where the attribute stands that holds it.
    pub attr: Span,
}

/// The mathematical value of a `Text`.
pub struct TextV {
    pub value: Seq<char>,
    pub span: Span,
    pub attr: Span,
}

impl View for Text {
    type V = TextV;

    open spec fn view(&self) -> TextV {
        TextV { value: self.value@, span: self.span, attr: self.attr }
    }
}

/// In what way a helper attribute is not what it should be.
#[derive(Clone, Copy, Debug, PartialEq, Eq, Structural)]
pub enum Deviation {
    /// It has another shape, or another key.
    Form,
    /// Its literal is no string.
    NotString,
    /// It was written more than once.
    Repeated,
}

/// A helper attribute that cannot be used, by the place where it stands.
#[derive(Clone, Copy, Debug, PartialEq, Eq, Structural)]
pub struct Fault {
    pub span: Span,
    pub kind: Deviation,
}

/// What a single attribute of the form `head = "..."` gives.
pub open spec fn value_form(a: Attribute) -> Result<(Seq<char>, Span), Deviation> {
    match a.payload {
        Payload::Value(Lit::Str { value, span }) => Ok((value@, span)),
        Payload::Value(Lit::Other { .. }) => Err(Deviation::NotString),
        _ => Err(Deviation::Form),
    }
}

/// What a single attribute of the form `head(key = "...")` gives: its list
/// must hold one nested attribute, whose path is the key.
pub open spec fn keyed_form(a: Attribute, key: Seq<char>) -> Result<(Seq<char>, Span), Deviation> {
    match a.payload {
        Payload::List(nested) => {
            if nested@.len() == 1 && nested@[0].path@ == key {
                value_form(nested@[0])
            } else {
                Err(Deviation::Form)
            }
        },
        _ => Err(Deviation::Form),
    }
}

/// What the attributes give under a path that may be used once: nothing
/// where none carries it, a fault at the second where several do, and else
/// what the form of the single one gives, with a fault at it where it
/// deviates.
pub open spec fn single(
    hits: Seq<Attribute>,
    form: spec_fn(Attribute) -> Result<(Seq<char>, Span), Deviation>,
) -> Result<Option<TextV>, Fault> {
    if hits.len() == 0 {
        Ok(None)
    } else if hits.len() >= 2 {
        Err(Fault { span: hits[1].span, kind: Deviation::Repeated })
    } else {
        match form(hits[0]) {
            Ok((value, span)) => Ok(Some(TextV { value, span, attr: hits[0].span })),
            Err(kind) => Err(Fault { span: hits[0].span, kind }),
        }
    }
}

/// What `head = "..."` gives among the attributes.
pub open spec fn value_spec(attrs: Seq<Attribute>, head: Seq<char>) -> Result<
    Option<TextV>,
    Fault,
> {
    single(named(attrs, head), |a: Attribute| value_form(a))
}

/// What `head(key = "...")` gives among the attributes.
pub open spec fn keyed_spec(attrs: Seq<Attribute>, head: Seq<char>, key: Seq<char>) -> Result<
    Option<TextV>,
    Fault,
> {
    single(named(attrs, head), |a: Attribute| keyed_form(a, key))
}

/// Whether what was read is what the attributes give.
pub open spec fn text_matches(
    want: Result<Option<TextV>, Fault>,
    r: Result<Option<Text>, Fault>,
) -> bool {
    match want {
        Ok(None) => r == Ok::<Option<Text>, Fault>(None),
        Ok(Some(v)) => r matches Ok(Some(text)) && text@ == v,
        Err(fault) => r == Err::<Option<Text>, Fault>(fault),
    }
}

fn read_value(a: &Attribute, attr: Span) -> (r: Result<Text, Deviation>)
    ensures
        match value_form(*a) {
            Ok((value, span)) => r matches Ok(text) && text@ == (TextV { value, span, attr }),
            Err(kind) => r == Err::<Text, Deviation>(kind),
        },
{
    match &a.payload {
        Payload::Value(Lit::Str { value, span }) => Ok(
            Text { value: value.clone(), span: *span, attr },
        ),
        Payload::Value(Lit::Other { .. }) => Err(Deviation::NotString),
        _ => Err(Deviation::Form),
    }
}

fn read_keyed(a: &Attribute, key: &str) -> (r: Result<Text, Deviation>)
    ensures
        match keyed_form(*a, key@) {
            Ok((value, span)) => r matches Ok(text) && text@ == (TextV {
                value,
                span,
                attr: a.span,
            }),
            Err(kind) => r == Err::<Text, Deviation>(kind),
        },
{
    match &a.payload {
        Payload::List(nested) => {
            if nested.len() == 1 && name_is(&nested[0].path, key) {
                read_value(&nested[0], a.span)
            } else {
                Err(Deviation::Form)
            }
        },
        _ => Err(Deviation::Form),
    }
}

/// Reads the attribute `head = "..."`, which may be given once.
pub fn value_of(attrs: &Vec<Attribute>, head: &str) -> (r: Result<Option<Text>, Fault>)
    ensures
        text_matches(value_spec(attrs@, head@), r),
{
    match find_named(attrs, head) {
        Found::Absent => Ok(None),
        Found::Repeated(_, j) => Err(Fault { span: attrs[j].span, kind: Deviation::Repeated }),
        Found::Once(i) => match read_value(&attrs[i], attrs[i].span) {
            Ok(text) => Ok(Some(text)),
            Err(kind) => Err(Fault { span: attrs[i].span, kind }),
        },
    }
}

/// Reads the attribute `head(key = "...")`, which may be given once.
pub fn keyed_value_of(attrs: &Vec<Attribute>, head: &str, key: &str) -> (r: Result<
    Option<Text>,
    Fault,
>)
    ensures
        text_matches(keyed_spec(attrs@, head@, key@), r),
{
    match find_named(attrs, head) {
        Found::Absent => Ok(None),
        Found::Repeated(_, j) => Err(Fault { span: attrs[j].span, kind: Deviation::Repeated }),
        Found::Once(i) => match read_keyed(&attrs[i], key) {
            Ok(text) => Ok(Some(text)),
            Err(kind) => Err(Fault { span: attrs[i].span, kind }),
        },
    }
}

/// A diagnostic with the given message at the given place.
pub fn diagnostic(span: Span, message: &str) -> (r: Diagnostic)
    ensures
        r.span == span,
        r.message@ == message@,
{
    Diagnostic { span, message: message.to_owned() }
}

} // verus!
