//! The debug derive: an implementation of `Debug` that prints a struct as
//! `Name { field: value, .. }`, with a format of its own for a field that
//! asks for one, and bounds on the generic parameters that need them.

use vstd::prelude::*;
use vstd::string::StringExecFns;
use crate::attrs::{
    diagnostic, keyed_spec, keyed_value_of, value_of, value_spec, Deviation, Text, TextV,
};
use crate::bounds::{
    bounded, distinct, distinct_paths, fields_projections, inferred, lemma_streams_view_push,
    needs_bound,
};
use crate::model::{
    Data, DeriveInput, Diagnostic, DiagnosticV, Field, GenericParam, ParamKind,
};
use crate::tokens::{
    copy_stream, flat, group, joined, lemma_flat_push, lemma_separated_push, mark, separated,
    std2, stream_view, streams_view, word, Delimiter, Span, Stream, Tok, TokenTree,
};

verus! {

/// How a field is printed.
#[derive(Debug, PartialEq, Eq)]
pub struct Entry {
    pub name: String,
    pub span: Span,
    /// The format that the field asks for, and where it was written.
    pub format: Option<(String, Span)>,
}

/// The mathematical value of an `Entry`.
pub struct EntryV {
    pub name: Seq<char>,
    pub span: Span,
    pub format: Option<(Seq<char>, Span)>,
}

impl View for Entry {
    type V = EntryV;

    open spec fn view(&self) -> EntryV {
        EntryV {
            name: self.name@,
            span: self.span,
            format: match self.format {
                Some((format, span)) => Some((format@, span)),
                None => None,
            },
        }
    }
}

/// The message for a `debug` attribute on a field that deviates.
pub open spec fn field_message(kind: Deviation, field: Seq<char>) -> Seq<char> {
    match kind {
        Deviation::Form => "expected #[debug = \"...\"]"@,
        Deviation::NotString => "expected string literal"@,
        Deviation::Repeated => "multiple 'debug' attributes for "@ + field,
    }
}

/// The message for an item that is no struct with named fields.
pub open spec fn shape_message() -> Seq<char> {
    "\"#[derive(CustomDebug)]\" only implemented for structs with named fields"@
}

/// How a field is printed: by its own `Debug` unless a single attribute
/// `debug = "..."` gives a format; a `debug` attribute of another form, or a
/// second one, is an error.
pub open spec fn entry_of(f: Field) -> Result<EntryV, DiagnosticV> {
    match value_spec(f.attrs@, "debug"@) {
        Ok(None) => Ok(EntryV { name: f.name@, span: f.span, format: None }),
        Ok(Some(text)) => Ok(
            EntryV { name: f.name@, span: f.span, format: Some((text.value, text.span)) },
        ),
        Err(fault) => Err(
            DiagnosticV { span: fault.span, message: field_message(fault.kind, f.name@) },
        ),
    }
}

/// The entries of the fields in order, or the diagnostic of the first field
/// that has one.
pub open spec fn entries_of(fields: Seq<Field>) -> Result<Seq<EntryV>, DiagnosticV>
    decreases fields.len(),
{
    if fields.len() == 0 {
        Ok(Seq::empty())
    } else {
        match entries_of(fields.drop_last()) {
            Err(d) => Err(d),
            Ok(entries) => match entry_of(fields.last()) {
                Err(d) => Err(d),
                Ok(e) => Ok(entries.push(e)),
            },
        }
    }
}

/// The values of several entries, in order.
pub open spec fn entries_view(entries: Seq<Entry>) -> Seq<EntryV> {
    Seq::new(entries.len(), |i: int| entries[i]@)
}

/// Reads how a field is to be printed.
pub fn entry(f: &Field) -> (r: Result<Entry, Diagnostic>)
    ensures
        match entry_of(*f) {
            Ok(v) => r matches Ok(e) && e@ == v,
            Err(v) => r matches Err(d) && d@ == v,
        },
{
    match value_of(&f.attrs, "debug") {
        Ok(None) => Ok(Entry { name: f.name.clone(), span: f.span, format: None }),
        Ok(Some(text)) => Ok(
            Entry { name: f.name.clone(), span: f.span, format: Some((text.value, text.span)) },
        ),
        Err(fault) => match fault.kind {
            Deviation::Form => Err(diagnostic(fault.span, "expected #[debug = \"...\"]")),
            Deviation::NotString => Err(diagnostic(fault.span, "expected string literal")),
            Deviation::Repeated => {
                let mut message = String::from_str("multiple 'debug' attributes for ");
                message.append(f.name.as_str());
                Err(Diagnostic { span: fault.span, message })
            },
        },
    }
}

/// A diagnostic among the first fields is the diagnostic of all of them.
pub proof fn lemma_error_stays(fields: Seq<Field>, n: int)
    requires
        0 <= n <= fields.len(),
        entries_of(fields.take(n)) is Err,
    ensures
        entries_of(fields) == entries_of(fields.take(n)),
    decreases fields.len() - n,
{
    if n < fields.len() {
        assert(fields.take(n + 1).drop_last() =~= fields.take(n));
        lemma_error_stays(fields, n + 1);
    } else {
        assert(fields.take(n) =~= fields);
    }
}

/// Reads how the fields are to be printed and stops at the first that
/// cannot be read.
pub fn entries(fields: &Vec<Field>) -> (r: Result<Vec<Entry>, Diagnostic>)
    ensures
        match entries_of(fields@) {
            Ok(v) => r matches Ok(e) && entries_view(e@) == v,
            Err(v) => r matches Err(d) && d@ == v,
        },
{
    let mut out: Vec<Entry> = Vec::new();
    let mut i: usize = 0;
    proof {
        assert(fields@.take(0) =~= Seq::<Field>::empty());
        assert(entries_view(out@) =~= Seq::<EntryV>::empty());
    }
    while i < fields.len()
        invariant
            i <= fields.len(),
            entries_of(fields@.take(i as int)) == Ok::<Seq<EntryV>, DiagnosticV>(
                entries_view(out@),
            ),
        decreases fields.len() - i,
    {
        proof {
            assert(fields@.take(i + 1).drop_last() =~= fields@.take(i as int));
        }
        match entry(&fields[i]) {
            Err(d) => {
                proof {
                    lemma_error_stays(fields@, i + 1);
                }
                return Err(d);
            },
            Ok(e) => {
                assert(entries_view(out@.push(e)) =~= entries_view(out@).push(e@));
                out.push(e);
            },
        }
        i += 1;
    }
    proof {
        assert(fields@.take(fields.len() as int) =~= fields@);
    }
    Ok(out)
}

/// The trait that is implemented, and that parameters are bound by.
pub open spec fn debug_trait() -> Seq<Tok> {
    std2("fmt"@, "Debug"@)
}

/// A parameter's name as a token, at the parameter's own place.
pub open spec fn param_token(p: GenericParam) -> Tok {
    Tok::Ident { name: p.name@, span: p.span }
}

/// A parameter where the struct's type is named: its name, a lifetime's
/// after its quote.
pub open spec fn param_use(p: GenericParam) -> Seq<Tok> {
    match p.kind {
        ParamKind::Lifetime => seq![joined('\''), param_token(p)],
        _ => seq![param_token(p)],
    }
}

/// The bounds of a parameter in the implementation: those it was declared
/// with, and after them the trait where it gets the bound.
pub open spec fn all_bounds(p: GenericParam, bound: bool) -> Seq<Seq<Tok>> {
    if bound {
        streams_view(p.bounds@).push(debug_trait())
    } else {
        streams_view(p.bounds@)
    }
}

/// A parameter where the implementation declares it: a constant with its
/// type, any other with its bounds behind a colon, if it has any.
pub open spec fn param_decl(p: GenericParam, bound: bool) -> Seq<Tok> {
    match p.kind {
        ParamKind::Const => seq![word("const"@), param_token(p), mark(':')] + flat(
            streams_view(p.bounds@),
        ),
        _ => param_use(p) + if all_bounds(p, bound).len() == 0 {
            Seq::empty()
        } else {
            seq![mark(':')] + separated(all_bounds(p, bound), '+')
        },
    }
}

/// Runs between angle brackets with commas between them; nothing where
/// there is no run.
pub open spec fn angled(parts: Seq<Seq<Tok>>) -> Seq<Tok> {
    if parts.len() == 0 {
        Seq::empty()
    } else {
        seq![mark('<')] + separated(parts, ',') + seq![mark('>')]
    }
}

/// Whether the parameter with the given index is marked: a parameter
/// without a flag is not.
pub open spec fn marked(flags: Seq<bool>, i: int) -> bool {
    0 <= i < flags.len() && flags[i]
}

/// The parameters as the implementation declares them, in the order they
/// were declared in and without their attributes; those that `flags` marks
/// get the bound.
pub open spec fn impl_generics(params: Seq<GenericParam>, flags: Seq<bool>) -> Seq<Tok> {
    angled(Seq::new(params.len(), |i: int| param_decl(params[i], marked(flags, i))))
}

/// The parameters as the struct's type is named with them, in the order
/// they were declared in.
pub open spec fn type_generics(params: Seq<GenericParam>) -> Seq<Tok> {
    angled(Seq::new(params.len(), |i: int| param_use(params[i])))
}

/// The `where` clause with the given predicates; nothing where there is
/// none.
pub open spec fn where_clause(predicates: Seq<Seq<Tok>>) -> Seq<Tok> {
    if predicates.len() == 0 {
        Seq::empty()
    } else {
        seq![word("where"@)] + separated(predicates, ',')
    }
}

fn param_ident(p: &GenericParam) -> (r: TokenTree)
    ensures
        r@ == param_token(*p),
{
    TokenTree::Ident { name: p.name.clone(), span: p.span }
}

fn emit_param_use(p: &GenericParam) -> (r: Stream)
    ensures
        r@ == param_use(*p),
{
    let mut out = Stream::new();
    match p.kind {
        ParamKind::Lifetime => {
            out.joined('\'');
        },
        _ => {},
    }
    out.push(param_ident(p));
    assert(out@ =~= param_use(*p));
    out
}

/// Writes a parameter as the implementation declares it.
pub fn emit_param_decl(p: &GenericParam, bound: bool) -> (r: Stream)
    ensures
        r@ == param_decl(*p, bound),
{
    match p.kind {
        ParamKind::Const => {
            let mut out = Stream::new();
            out.word("const");
            out.push(param_ident(p));
            out.mark(':');
            let ghost head = out@;
            let ghost all = streams_view(p.bounds@);
            let mut i: usize = 0;
            proof {
                assert(all.take(0) =~= Seq::<Seq<Tok>>::empty());
                assert(head + flat(all.take(0)) =~= head);
            }
            while i < p.bounds.len()
                invariant
                    i <= p.bounds.len(),
                    all == streams_view(p.bounds@),
                    out@ == head + flat(all.take(i as int)),
                decreases p.bounds.len() - i,
            {
                proof {
                    assert(all.take(i + 1) =~= all.take(i as int).push(
                        stream_view(p.bounds@[i as int]@),
                    ));
                    lemma_flat_push(all.take(i as int), stream_view(p.bounds@[i as int]@));
                }
                out.copy(&p.bounds[i]);
                assert(out@ =~= head + flat(all.take(i + 1)));
                i += 1;
            }
            proof {
                assert(all.take(p.bounds.len() as int) =~= all);
                assert(head =~= seq![word("const"@), param_token(*p), mark(':')]);
            }
            out
        },
        _ => {
            let mut out = emit_param_use(p);
            if bound {
                let mut more = Stream::new();
                more.std2("fmt", "Debug");
                assert(more@ =~= debug_trait());
                out.mark(':');
                out.separated(&p.bounds, '+');
                proof {
                    lemma_separated_push(streams_view(p.bounds@), debug_trait(), '+');
                }
                if p.bounds.len() > 0 {
                    out.mark('+');
                }
                out.extend(more);
                assert(out@ =~= param_decl(*p, bound));
            } else if p.bounds.len() > 0 {
                out.mark(':');
                out.separated(&p.bounds, '+');
                assert(out@ =~= param_decl(*p, bound));
            } else {
                assert(out@ =~= param_decl(*p, bound));
            }
            out
        },
    }
}

/// Writes runs between angle brackets, with commas between them.
pub fn emit_angled(parts: &Vec<Vec<TokenTree>>) -> (r: Stream)
    ensures
        r@ == angled(streams_view(parts@)),
{
    let mut out = Stream::new();
    if parts.len() > 0 {
        out.mark('<');
        out.separated(parts, ',');
        out.mark('>');
        assert(out@ =~= angled(streams_view(parts@)));
    }
    out
}

/// Writes the `where` clause with the given predicates.
pub fn emit_where(predicates: &Vec<Vec<TokenTree>>) -> (r: Stream)
    ensures
        r@ == where_clause(streams_view(predicates@)),
{
    let mut out = Stream::new();
    if predicates.len() > 0 {
        out.word("where");
        out.separated(predicates, ',');
        assert(out@ =~= where_clause(streams_view(predicates@)));
    }
    out
}

/// Writes the parameters as the implementation declares them, with the
/// bound added to those that `flags` marks. They are written in the order
/// they were declared in, which the compiler holds to lifetimes first, and
/// without defaults; attributes on a parameter are not carried over.
pub fn add_debug_trait_bounds(params: &Vec<GenericParam>, flags: &Vec<bool>) -> (r: Stream)
    ensures
        r@ == impl_generics(params@, flags@),
{
    let mut parts: Vec<Vec<TokenTree>> = Vec::new();
    let mut i: usize = 0;
    while i < params.len()
        invariant
            i <= params.len(),
            parts@.len() == i,
            forall|k: int|
                0 <= k < i ==> stream_view(#[trigger] parts@[k]@) == param_decl(
                    params@[k],
                    marked(flags@, k),
                ),
        decreases params.len() - i,
    {
        let flag = i < flags.len() && flags[i];
        let part = emit_param_decl(&params[i], flag);
        parts.push(part.trees);
        i += 1;
    }
    assert(streams_view(parts@) =~= Seq::new(
        params@.len(),
        |i: int| param_decl(params@[i], marked(flags@, i)),
    ));
    emit_angled(&parts)
}

/// Writes the parameters as the struct's type is named with them, in the
/// order they were declared in.
pub fn emit_type_generics(params: &Vec<GenericParam>) -> (r: Stream)
    ensures
        r@ == type_generics(params@),
{
    let mut parts: Vec<Vec<TokenTree>> = Vec::new();
    let mut i: usize = 0;
    while i < params.len()
        invariant
            i <= params.len(),
            parts@.len() == i,
            forall|k: int| 0 <= k < i ==> stream_view(#[trigger] parts@[k]@) == param_use(params@[k]),
        decreases params.len() - i,
    {
        let part = emit_param_use(&params[i]);
        parts.push(part.trees);
        i += 1;
    }
    assert(streams_view(parts@) =~= Seq::new(params@.len(), |i: int| param_use(params@[i])));
    emit_angled(&parts)
}

/// A field's name as a token, at the field's own place.
pub open spec fn field_token(e: EntryV) -> Tok {
    Tok::Ident { name: e.name, span: e.span }
}

/// What is printed for a field: the field itself, or with a format
/// `::std::format_args!(format, self.field)`.
pub open spec fn shown(e: EntryV) -> Seq<Tok> {
    match e.format {
        None => seq![word("self"@), mark('.'), field_token(e)],
        Some((format, span)) => seq![
            joined(':'),
            mark(':'),
            word("std"@),
            joined(':'),
            mark(':'),
            word("format_args"@),
            mark('!'),
            group(
                Delimiter::Parenthesis,
                seq![
                    Tok::Str { value: format, span },
                    mark(','),
                    word("self"@),
                    mark('.'),
                    field_token(e),
                ],
            ),
        ],
    }
}

/// The call that prints a field: `.field("name", &value)`.
pub open spec fn link(e: EntryV) -> Seq<Tok> {
    seq![
        mark('.'),
        word("field"@),
        group(
            Delimiter::Parenthesis,
            seq![Tok::Str { value: e.name, span: Span::CallSite }, mark(','), mark('&')] + shown(e),
        ),
    ]
}

/// The calls that print the fields, in the order of the fields.
pub open spec fn links(entries: Seq<EntryV>) -> Seq<Tok> {
    flat(Seq::new(entries.len(), |i: int| link(entries[i])))
}

/// The body of `fmt`: a `debug_struct` under the struct's name, a call for
/// every field, and `finish`.
pub open spec fn fmt_body(name: Seq<char>, entries: Seq<EntryV>) -> Seq<Tok> {
    seq![
        word("f"@),
        mark('.'),
        word("debug_struct"@),
        group(Delimiter::Parenthesis, seq![Tok::Str { value: name, span: Span::CallSite }]),
    ] + links(entries) + seq![
        mark('.'),
        word("finish"@),
        group(Delimiter::Parenthesis, Seq::empty()),
    ]
}

/// The method `fmt` of the implementation.
pub open spec fn fmt_fn(name: Seq<char>, entries: Seq<EntryV>) -> Seq<Tok> {
    seq![
        word("fn"@),
        word("fmt"@),
        group(
            Delimiter::Parenthesis,
            seq![
                mark('&'),
                word("self"@),
                mark(','),
                word("f"@),
                mark(':'),
                mark('&'),
                word("mut"@),
            ] + std2("fmt"@, "Formatter"@) + seq![mark('<'), joined('\''), word("_"@), mark('>')],
        ),
        joined('-'),
        mark('>'),
    ] + std2("fmt"@, "Result"@) + seq![group(Delimiter::Brace, fmt_body(name, entries))]
}

/// The implementation of `Debug` for a struct with the given name and
/// parameters: the parameters that `flags` marks get the bound, and the
/// `where` clause holds the given predicates.
pub open spec fn expansion(
    name: Seq<char>,
    span: Span,
    params: Seq<GenericParam>,
    flags: Seq<bool>,
    predicates: Seq<Seq<Tok>>,
    entries: Seq<EntryV>,
) -> Seq<Tok> {
    seq![word("impl"@)] + impl_generics(params, flags) + debug_trait() + seq![
        word("for"@),
        Tok::Ident { name, span },
    ] + type_generics(params) + where_clause(predicates) + seq![
        group(Delimiter::Brace, fmt_fn(name, entries)),
    ]
}

fn emit_shown(e: &Entry) -> (r: Stream)
    ensures
        r@ == shown(e@),
{
    let field = TokenTree::Ident { name: e.name.clone(), span: e.span };
    let mut out = Stream::new();
    match &e.format {
        None => {
            out.word("self");
            out.mark('.');
            out.push(field);
            assert(out@ =~= shown(e@));
        },
        Some((format, span)) => {
            let mut args = Stream::new();
            args.text(format.as_str(), *span);
            args.mark(',');
            args.word("self");
            args.mark('.');
            args.push(field);
            assert(args@ =~= seq![
                Tok::Str { value: format@, span: *span },
                mark(','),
                word("self"@),
                mark('.'),
                field_token(e@),
            ]);
            out.joined(':');
            out.mark(':');
            out.word("std");
            out.joined(':');
            out.mark(':');
            out.word("format_args");
            out.mark('!');
            out.group(Delimiter::Parenthesis, args);
            assert(out@ =~= shown(e@));
        },
    }
    out
}

/// Writes the call that prints a field.
pub fn emit_link(e: &Entry) -> (r: Stream)
    ensures
        r@ == link(e@),
{
    let mut args = Stream::new();
    args.text(e.name.as_str(), Span::CallSite);
    args.mark(',');
    args.mark('&');
    args.extend(emit_shown(e));
    assert(args@ =~= seq![Tok::Str { value: e@.name, span: Span::CallSite }, mark(','), mark('&')]
        + shown(e@));
    let mut out = Stream::new();
    out.mark('.');
    out.word("field");
    out.group(Delimiter::Parenthesis, args);
    assert(out@ =~= link(e@));
    out
}

/// Writes the method `fmt`.
pub fn emit_fmt(name: &str, entries: &Vec<Entry>) -> (r: Stream)
    ensures
        r@ == fmt_fn(name@, entries_view(entries@)),
{
    let ghost ev = entries_view(entries@);
    let mut subject = Stream::new();
    subject.text(name, Span::CallSite);
    assert(subject@ =~= seq![Tok::Str { value: name@, span: Span::CallSite }]);
    let mut body = Stream::new();
    body.word("f");
    body.mark('.');
    body.word("debug_struct");
    body.group(Delimiter::Parenthesis, subject);
    let ghost head = body@;
    let ghost parts = Seq::new(ev.len(), |i: int| link(ev[i]));
    let mut i: usize = 0;
    proof {
        assert(parts.take(0) =~= Seq::<Seq<Tok>>::empty());
        assert(head + flat(parts.take(0)) =~= head);
    }
    while i < entries.len()
        invariant
            i <= entries.len(),
            ev == entries_view(entries@),
            parts == Seq::new(ev.len(), |i: int| link(ev[i])),
            body@ == head + flat(parts.take(i as int)),
        decreases entries.len() - i,
    {
        proof {
            assert(parts.take(i + 1) =~= parts.take(i as int).push(link(entries@[i as int]@)));
            lemma_flat_push(parts.take(i as int), link(entries@[i as int]@));
        }
        body.extend(emit_link(&entries[i]));
        assert(body@ =~= head + flat(parts.take(i + 1)));
        i += 1;
    }
    proof {
        assert(parts.take(entries.len() as int) =~= parts);
    }
    body.mark('.');
    body.word("finish");
    body.group(Delimiter::Parenthesis, Stream::new());
    assert(body@ =~= fmt_body(name@, ev));
    let mut params = Stream::new();
    params.mark('&');
    params.word("self");
    params.mark(',');
    params.word("f");
    params.mark(':');
    params.mark('&');
    params.word("mut");
    params.std2("fmt", "Formatter");
    params.mark('<');
    params.joined('\'');
    params.word("_");
    params.mark('>');
    assert(params@ =~= seq![
        mark('&'),
        word("self"@),
        mark(','),
        word("f"@),
        mark(':'),
        mark('&'),
        word("mut"@),
    ] + std2("fmt"@, "Formatter"@) + seq![mark('<'), joined('\''), word("_"@), mark('>')]);
    let mut out = Stream::new();
    out.word("fn");
    out.word("fmt");
    out.group(Delimiter::Parenthesis, params);
    out.joined('-');
    out.mark('>');
    out.std2("fmt", "Result");
    out.group(Delimiter::Brace, body);
    assert(out@ =~= fmt_fn(name@, ev));
    out
}

/// Writes the implementation of `Debug`.
pub fn expand(
    name: &str,
    span: Span,
    params: &Vec<GenericParam>,
    flags: &Vec<bool>,
    predicates: &Vec<Vec<TokenTree>>,
    entries: &Vec<Entry>,
) -> (r: Vec<TokenTree>)
    ensures
        stream_view(r@) == expansion(
            name@,
            span,
            params@,
            flags@,
            streams_view(predicates@),
            entries_view(entries@),
        ),
{
    let mut out = Stream::new();
    out.word("impl");
    out.extend(add_debug_trait_bounds(params, flags));
    out.std2("fmt", "Debug");
    out.word("for");
    out.ident(name, span);
    out.extend(emit_type_generics(params));
    out.extend(emit_where(predicates));
    out.group(Delimiter::Brace, emit_fmt(name, entries));
    assert(out@ =~= expansion(
        name@,
        span,
        params@,
        flags@,
        streams_view(predicates@),
        entries_view(entries@),
    ));
    out.trees
}

/// The message for a `debug` attribute on the struct that deviates.
pub open spec fn container_message(kind: Deviation) -> Seq<char> {
    match kind {
        Deviation::NotString => "expected string literal"@,
        _ => "expected #[debug(bound = \"...\")]"@,
    }
}

/// The predicate that bounds a path: `path: ::std::fmt::Debug`.
pub open spec fn predicate(path: Seq<Tok>) -> Seq<Tok> {
    path + seq![mark(':')] + debug_trait()
}

/// Which parameters get the bound: with `debug(bound = "...")` on the
/// struct none, and else the type parameters that a field's type uses.
pub open spec fn flags_of(
    params: Seq<GenericParam>,
    fields: Seq<Field>,
    bound: Option<TextV>,
) -> Seq<bool> {
    Seq::new(params.len(), |i: int| bound is None && needs_bound(params[i], fields))
}

/// The predicates of the implementation: those of the struct's own `where`
/// clause, and after them the text that `debug(bound = "...")` gives, in
/// place of what is inferred; without that attribute, one predicate for
/// each associated type of a type parameter that a field's type names.
pub open spec fn predicates_of(
    params: Seq<GenericParam>,
    own: Seq<Seq<Tok>>,
    fields: Seq<Field>,
    bound: Option<TextV>,
) -> Seq<Seq<Tok>> {
    own + match bound {
        Some(text) => seq![seq![Tok::Verbatim { source: text.value, span: text.span }]],
        None => {
            let paths = distinct(fields_projections(params, fields));
            Seq::new(paths.len(), |i: int| predicate(paths[i]))
        },
    }
}

/// What the derive makes of an item: a diagnostic at the item unless it is
/// a struct with named fields; a diagnostic for a `debug` attribute on the
/// struct that is not `debug(bound = "...")`; the diagnostic of the first
/// field that has one; and else the implementation.
pub open spec fn derived(input: DeriveInput) -> Result<Seq<Tok>, DiagnosticV> {
    match input.data {
        Data::Named(fields) => match keyed_spec(input.attrs@, "debug"@, "bound"@) {
            Err(fault) => Err(
                DiagnosticV { span: fault.span, message: container_message(fault.kind) },
            ),
            Ok(bound) => match entries_of(fields@) {
                Err(d) => Err(d),
                Ok(entries) => Ok(
                    expansion(
                        input.name@,
                        input.span,
                        input.params@,
                        flags_of(input.params@, fields@, bound),
                        predicates_of(
                            input.params@,
                            streams_view(input.predicates@),
                            fields@,
                            bound,
                        ),
                        entries,
                    ),
                ),
            },
        },
        _ => Err(DiagnosticV { span: input.span, message: shape_message() }),
    }
}

/// Decides which parameters get the bound.
pub fn flags(params: &Vec<GenericParam>, fields: &Vec<Field>, bound: &Option<Text>) -> (r: Vec<
    bool,
>)
    ensures
        r@ == flags_of(
            params@,
            fields@,
            match *bound {
                Some(text) => Some(text@),
                None => None,
            },
        ),
{
    let mut out = bounded(params, fields);
    if bound.is_some() {
        let mut i: usize = 0;
        while i < out.len()
            invariant
                i <= out.len(),
                out@.len() == params@.len(),
                forall|k: int| 0 <= k < i ==> !out@[k],
            decreases out.len() - i,
        {
            out.set(i, false);
            i += 1;
        }
    }
    assert(out@ =~= flags_of(
        params@,
        fields@,
        match *bound {
            Some(text) => Some(text@),
            None => None,
        },
    ));
    out
}

/// Collects the predicates of the implementation.
pub fn predicates(
    params: &Vec<GenericParam>,
    own: &Vec<Vec<TokenTree>>,
    fields: &Vec<Field>,
    bound: &Option<Text>,
) -> (r: Vec<Vec<TokenTree>>)
    ensures
        streams_view(r@) == predicates_of(
            params@,
            streams_view(own@),
            fields@,
            match *bound {
                Some(text) => Some(text@),
                None => None,
            },
        ),
{
    let mut out: Vec<Vec<TokenTree>> = Vec::new();
    let mut i: usize = 0;
    while i < own.len()
        invariant
            i <= own.len(),
            out@.len() == i,
            forall|k: int| 0 <= k < i ==> stream_view(#[trigger] out@[k]@) == stream_view(own@[k]@),
        decreases own.len() - i,
    {
        out.push(copy_stream(&own[i]));
        i += 1;
    }
    assert(streams_view(out@) =~= streams_view(own@));
    match bound {
        Some(text) => {
            let mut given = Stream::new();
            given.push(TokenTree::Verbatim { source: text.value.clone(), span: text.span });
            out.push(given.trees);
            assert(streams_view(out@) =~= streams_view(own@) + seq![
                seq![Tok::Verbatim { source: text.value@, span: text.span }],
            ]);
        },
        None => {
            let paths = distinct_paths(&inferred(params, fields));
            let ghost pv = distinct(fields_projections(params@, fields@));
            let mut k: usize = 0;
            while k < paths.len()
                invariant
                    k <= paths.len(),
                    pv == streams_view(paths@),
                    streams_view(out@) == streams_view(own@) + Seq::new(
                        k as nat,
                        |i: int| predicate(pv[i]),
                    ),
                decreases paths.len() - k,
            {
                let mut one = Stream::new();
                one.copy(&paths[k]);
                one.mark(':');
                one.std2("fmt", "Debug");
                assert(one@ =~= predicate(pv[k as int]));
                proof {
                    lemma_streams_view_push(out@, one.trees);
                }
                out.push(one.trees);
                assert(streams_view(out@) =~= streams_view(own@) + Seq::new(
                    (k + 1) as nat,
                    |i: int| predicate(pv[i]),
                ));
                k += 1;
            }
        },
    }
    out
}

/// Derives the implementation of `Debug` for an item: the tokens to add,
/// or the error to report.
pub fn derive(input: &DeriveInput) -> (r: Result<Vec<TokenTree>, Diagnostic>)
    ensures
        match derived(*input) {
            Ok(tokens) => r matches Ok(v) && stream_view(v@) == tokens,
            Err(d) => r matches Err(e) && e@ == d,
        },
{
    let fields = match &input.data {
        Data::Named(fields) => fields,
        _ => {
            return Err(
                diagnostic(
                    input.span,
                    "\"#[derive(CustomDebug)]\" only implemented for structs with named fields",
                ),
            );
        },
    };
    let bound = match keyed_value_of(&input.attrs, "debug", "bound") {
        Ok(bound) => bound,
        Err(fault) => {
            return match fault.kind {
                Deviation::NotString => Err(diagnostic(fault.span, "expected string literal")),
                _ => Err(diagnostic(fault.span, "expected #[debug(bound = \"...\")]")),
            };
        },
    };
    let entries = match entries(fields) {
        Ok(entries) => entries,
        Err(d) => {
            return Err(d);
        },
    };
    let flags = flags(&input.params, fields, &bound);
    let predicates = predicates(&input.params, &input.predicates, fields, &bound);
    Ok(expand(input.name.as_str(), input.span, &input.params, &flags, &predicates, &entries))
}

} // verus!
