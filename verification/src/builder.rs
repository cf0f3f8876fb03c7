//! The builder derive: for a struct `Name`, a companion `NameBuilder` with
//! one setter per field and a `build` that fails on a missing field.

use vstd::prelude::*;
use vstd::string::StringExecFns;
use crate::attrs::{diagnostic, keyed_spec, keyed_value_of};
use crate::model::{Data, DeriveInput, Diagnostic, DiagnosticV, Field};
use crate::shape::{classify, shape_of, Shape};
use crate::syntax::can_name_method;
use crate::tokens::{
    copy_stream, copy_tree, flat, group, joined, lemma_flat_push, mark, std2, std3, stream_view,
    word, Delimiter, Span, Stream, Tok, TokenTree,
};

verus! {

/// How the builder treats a field.
#[derive(Clone, Copy, Debug, PartialEq, Eq, Structural)]
pub enum Rule {
    /// Kept as an option of the field's type; `build` fails while unset.
    Required,
    /// An `Option<T>` field: kept as it is, set with a `T`, never missing.
    Optional,
    /// A `Vec<T>` field with `each`: kept as it is, filled one `T` at a time.
    Repeated,
}

/// What the builder does for one field.
#[derive(Debug, PartialEq, Eq)]
pub struct FieldPlan {
    pub name: String,
    pub span: Span,
    pub rule: Rule,
    /// The field's type as declared.
    pub ty: Vec<TokenTree>,
    /// What a setter takes for one value: `T` for `Option<T>` and for
    /// `Vec<T>` with `each`, and else the declared type.
    pub item: Vec<TokenTree>,
    /// The name of the setter that adds one item; the field's own name
    /// unless the field is repeated.
    pub each: String,
    pub each_span: Span,
    /// Whether a setter under the field's name takes the whole value.
    pub whole: bool,
}

/// The mathematical value of a `FieldPlan`.
pub struct FieldPlanV {
    pub name: Seq<char>,
    pub span: Span,
    pub rule: Rule,
    pub ty: Seq<Tok>,
    pub item: Seq<Tok>,
    pub each: Seq<char>,
    pub each_span: Span,
    pub whole: bool,
}

impl View for FieldPlan {
    type V = FieldPlanV;

    open spec fn view(&self) -> FieldPlanV {
        FieldPlanV {
            name: self.name@,
            span: self.span,
            rule: self.rule,
            ty: stream_view(self.ty@),
            item: stream_view(self.item@),
            each: self.each@,
            each_span: self.each_span,
            whole: self.whole,
        }
    }
}

/// The message for a `builder` attribute of another form than
/// `builder(each = "...")`.
pub open spec fn form_message() -> Seq<char> {
    "expected `builder(each = \"...\")`"@
}

/// The message for `each` on a field that is no `Vec`.
pub open spec fn vec_message() -> Seq<char> {
    "expected 'Vec' as the type of a field with `each`"@
}

/// The message for an item that is no struct with named fields.
pub open spec fn shape_message() -> Seq<char> {
    "\"#[derive(Builder)]\" only implemented for structs with named fields"@
}

/// The plan for a field, given whether the name under `each` can name a
/// method. The `builder` attribute decides first: it must have the form
/// `builder(each = "...")` with a usable name, and the field must then be a
/// `Vec<T>`. Without it, an `Option<T>` field is optional and any other
/// field is required.
pub open spec fn field_plan(f: Field, each_usable: bool) -> Result<FieldPlanV, DiagnosticV> {
    match keyed_spec(f.attrs@, "builder"@, "each"@) {
        Err(fault) => Err(DiagnosticV { span: fault.span, message: form_message() }),
        Ok(Some(each)) => {
            if !each_usable {
                Err(DiagnosticV { span: each.attr, message: form_message() })
            } else {
                match shape_of(&f.ty) {
                    Shape::Vector(item) => Ok(
                        FieldPlanV {
                            name: f.name@,
                            span: f.span,
                            rule: Rule::Repeated,
                            ty: stream_view(f.ty.tokens()@),
                            item: stream_view(item.tokens()@),
                            each: each.value,
                            each_span: each.span,
                            whole: each.value != f.name@,
                        },
                    ),
                    _ => Err(DiagnosticV { span: each.attr, message: vec_message() }),
                }
            }
        },
        Ok(None) => match shape_of(&f.ty) {
            Shape::Optional(item) => Ok(
                FieldPlanV {
                    name: f.name@,
                    span: f.span,
                    rule: Rule::Optional,
                    ty: stream_view(f.ty.tokens()@),
                    item: stream_view(item.tokens()@),
                    each: f.name@,
                    each_span: f.span,
                    whole: true,
                },
            ),
            _ => Ok(
                FieldPlanV {
                    name: f.name@,
                    span: f.span,
                    rule: Rule::Required,
                    ty: stream_view(f.ty.tokens()@),
                    item: stream_view(f.ty.tokens()@),
                    each: f.name@,
                    each_span: f.span,
                    whole: true,
                },
            ),
        },
    }
}

/// Whether a result is the plan, or the diagnostic, that a field calls for.
pub open spec fn plan_matches(
    want: Result<FieldPlanV, DiagnosticV>,
    r: Result<FieldPlan, Diagnostic>,
) -> bool {
    match want {
        Ok(v) => r matches Ok(p) && p@ == v,
        Err(v) => r matches Err(d) && d@ == v,
    }
}

/// Plans one field; `each_usable` says whether the name under `each`, if
/// there is one, can name a method.
pub fn plan_field(f: &Field, each_usable: bool) -> (r: Result<FieldPlan, Diagnostic>)
    ensures
        plan_matches(field_plan(*f, each_usable), r),
{
    let each = match keyed_value_of(&f.attrs, "builder", "each") {
        Err(fault) => {
            return Err(diagnostic(fault.span, "expected `builder(each = \"...\")`"));
        },
        Ok(each) => each,
    };
    let shape = classify(&f.ty);
    match each {
        Some(each) => {
            if !each_usable {
                return Err(diagnostic(each.attr, "expected `builder(each = \"...\")`"));
            }
            match shape {
                Shape::Vector(item) => {
                    let whole = each.value != f.name;
                    Ok(
                        FieldPlan {
                            name: f.name.clone(),
                            span: f.span,
                            rule: Rule::Repeated,
                            ty: copy_stream(f.ty.tokens_ref()),
                            item: copy_stream(item.tokens_ref()),
                            each: each.value,
                            each_span: each.span,
                            whole,
                        },
                    )
                },
                _ => Err(diagnostic(each.attr, "expected 'Vec' as the type of a field with `each`")),
            }
        },
        None => match shape {
            Shape::Optional(item) => Ok(
                FieldPlan {
                    name: f.name.clone(),
                    span: f.span,
                    rule: Rule::Optional,
                    ty: copy_stream(f.ty.tokens_ref()),
                    item: copy_stream(item.tokens_ref()),
                    each: f.name.clone(),
                    each_span: f.span,
                    whole: true,
                },
            ),
            _ => Ok(
                FieldPlan {
                    name: f.name.clone(),
                    span: f.span,
                    rule: Rule::Required,
                    ty: copy_stream(f.ty.tokens_ref()),
                    item: copy_stream(f.ty.tokens_ref()),
                    each: f.name.clone(),
                    each_span: f.span,
                    whole: true,
                },
            ),
        },
    }
}

/// The field's name as a token, at the field's own place.
pub open spec fn field_token(p: FieldPlanV) -> Tok {
    Tok::Ident { name: p.name, span: p.span }
}

/// The name under `each` as a token, at the place where it was written.
pub open spec fn each_token(p: FieldPlanV) -> Tok {
    Tok::Ident { name: p.each, span: p.each_span }
}

/// The type a builder keeps a field in: a repeated field as declared, any
/// other as `::std::option::Option` of what its setter takes.
pub open spec fn storage(p: FieldPlanV) -> Seq<Tok> {
    match p.rule {
        Rule::Repeated => p.ty,
        _ => std2("option"@, "Option"@) + seq![mark('<')] + p.item + seq![mark('>')],
    }
}

/// The builder's field for a field: `name: storage,`.
pub open spec fn declaration(p: FieldPlanV) -> Seq<Tok> {
    seq![field_token(p), mark(':')] + storage(p) + seq![mark(',')]
}

/// A setter: `pub fn name(&mut self, name: ty) -> &mut Self { body self }`.
pub open spec fn setter(name: Tok, ty: Seq<Tok>, body: Seq<Tok>) -> Seq<Tok> {
    seq![
        word("pub"@),
        word("fn"@),
        name,
        group(
            Delimiter::Parenthesis,
            seq![mark('&'), word("mut"@), word("self"@), mark(','), name, mark(':')] + ty,
        ),
        joined('-'),
        mark('>'),
        mark('&'),
        word("mut"@),
        word("Self"@),
        group(Delimiter::Brace, body + seq![word("self"@)]),
    ]
}

/// The statement `self.field = ::std::option::Option::Some(value);`.
pub open spec fn store(field: Tok, value: Tok) -> Seq<Tok> {
    seq![word("self"@), mark('.'), field, mark('=')] + std3("option"@, "Option"@, "Some"@) + seq![
        group(Delimiter::Parenthesis, seq![value]),
        mark(';'),
    ]
}

/// The statement `self.field.method(value);`.
pub open spec fn call(field: Tok, method: Seq<char>, value: Tok) -> Seq<Tok> {
    seq![
        word("self"@),
        mark('.'),
        field,
        mark('.'),
        word(method),
        group(Delimiter::Parenthesis, seq![value]),
        mark(';'),
    ]
}

/// The setters of a field. A repeated field has one under the name from
/// `each`, which pushes one item, and, unless that is the field's own name,
/// one under the field's name, which extends by a whole vector. Any other
/// field has one under its name, which stores the value.
pub open spec fn setters(p: FieldPlanV) -> Seq<Tok> {
    match p.rule {
        Rule::Repeated => setter(each_token(p), p.item, call(field_token(p), "push"@, each_token(p)))
            + if p.whole {
            setter(field_token(p), p.ty, call(field_token(p), "extend"@, field_token(p)))
        } else {
            Seq::empty()
        },
        _ => setter(field_token(p), p.item, store(field_token(p), field_token(p))),
    }
}

/// What `build` reports for a required field that was never set.
pub open spec fn missing_message(name: Seq<char>) -> Seq<char> {
    "'"@ + name + "' field has not been set"@
}

/// The arms of the `match` that takes a required field out of the builder.
pub open spec fn required_arms(name: Seq<char>) -> Seq<Tok> {
    std3("option"@, "Option"@, "Some"@) + seq![
        group(Delimiter::Parenthesis, seq![word("ref"@), word("value"@)]),
        joined('='),
        mark('>'),
        word("value"@),
        mark('.'),
        word("clone"@),
        group(Delimiter::Parenthesis, Seq::empty()),
        mark(','),
    ] + std3("option"@, "Option"@, "None"@) + seq![joined('='), mark('>'), word("return"@)] + std3(
        "result"@,
        "Result"@,
        "Err"@,
    ) + seq![
        group(
            Delimiter::Parenthesis,
            std3("convert"@, "From"@, "from"@) + seq![
                group(
                    Delimiter::Parenthesis,
                    seq![Tok::Str { value: missing_message(name), span: Span::CallSite }],
                ),
            ],
        ),
        mark(','),
    ]
}

/// The statement of `build` that takes a field out of the builder: for a
/// required field a `match` that clones the value or returns the error,
/// for any other field a clone of what the builder holds.
pub open spec fn finish(p: FieldPlanV) -> Seq<Tok> {
    match p.rule {
        Rule::Required => seq![
            word("let"@),
            field_token(p),
            mark('='),
            word("match"@),
            word("self"@),
            mark('.'),
            field_token(p),
            group(Delimiter::Brace, required_arms(p.name)),
            mark(';'),
        ],
        _ => seq![
            word("let"@),
            field_token(p),
            mark('='),
            word("self"@),
            mark('.'),
            field_token(p),
            mark('.'),
            word("clone"@),
            group(Delimiter::Parenthesis, Seq::empty()),
            mark(';'),
        ],
    }
}

/// A field in the struct literal that `build` returns: `name,`.
pub open spec fn shorthand(p: FieldPlanV) -> Seq<Tok> {
    seq![field_token(p), mark(',')]
}

fn field_ident(p: &FieldPlan) -> (r: TokenTree)
    ensures
        r@ == field_token(p@),
{
    TokenTree::Ident { name: p.name.clone(), span: p.span }
}

fn each_ident(p: &FieldPlan) -> (r: TokenTree)
    ensures
        r@ == each_token(p@),
{
    TokenTree::Ident { name: p.each.clone(), span: p.each_span }
}

/// Writes the builder's field for a field.
pub fn emit_declaration(p: &FieldPlan) -> (r: Stream)
    ensures
        r@ == declaration(p@),
{
    let mut out = Stream::new();
    out.push(field_ident(p));
    out.mark(':');
    match p.rule {
        Rule::Repeated => {
            out.copy(&p.ty);
        },
        _ => {
            out.std2("option", "Option");
            out.mark('<');
            out.copy(&p.item);
            out.mark('>');
        },
    }
    out.mark(',');
    assert(out@ =~= declaration(p@));
    out
}

fn emit_setter(name: &TokenTree, ty: &Vec<TokenTree>, body: Stream) -> (r: Stream)
    ensures
        r@ == setter(name@, stream_view(ty@), body@),
{
    let mut params = Stream::new();
    params.mark('&');
    params.word("mut");
    params.word("self");
    params.mark(',');
    params.push(copy_tree(name));
    params.mark(':');
    params.copy(ty);
    let mut block = body;
    block.word("self");
    assert(block@ =~= body@ + seq![word("self"@)]);
    assert(params@ =~= seq![
        mark('&'),
        word("mut"@),
        word("self"@),
        mark(','),
        name@,
        mark(':'),
    ] + stream_view(ty@));
    let mut out = Stream::new();
    out.word("pub");
    out.word("fn");
    out.push(copy_tree(name));
    out.group(Delimiter::Parenthesis, params);
    out.joined('-');
    out.mark('>');
    out.mark('&');
    out.word("mut");
    out.word("Self");
    out.group(Delimiter::Brace, block);
    assert(out@ =~= setter(name@, stream_view(ty@), body@));
    out
}

fn emit_store(field: TokenTree, value: TokenTree) -> (r: Stream)
    ensures
        r@ == store(field@, value@),
{
    let mut arg = Stream::new();
    arg.push(value);
    let mut out = Stream::new();
    out.word("self");
    out.mark('.');
    out.push(field);
    out.mark('=');
    out.std3("option", "Option", "Some");
    out.group(Delimiter::Parenthesis, arg);
    out.mark(';');
    assert(arg@ =~= seq![value@]);
    assert(out@ =~= store(field@, value@));
    out
}

fn emit_call(field: TokenTree, method: &str, value: TokenTree) -> (r: Stream)
    ensures
        r@ == call(field@, method@, value@),
{
    let mut arg = Stream::new();
    arg.push(value);
    let mut out = Stream::new();
    out.word("self");
    out.mark('.');
    out.push(field);
    out.mark('.');
    out.word(method);
    out.group(Delimiter::Parenthesis, arg);
    out.mark(';');
    assert(arg@ =~= seq![value@]);
    assert(out@ =~= call(field@, method@, value@));
    out
}

/// Writes the setters of a field.
pub fn emit_setters(p: &FieldPlan) -> (r: Stream)
    ensures
        r@ == setters(p@),
{
    match p.rule {
        Rule::Repeated => {
            let body = emit_call(field_ident(p), "push", each_ident(p));
            let mut out = emit_setter(&each_ident(p), &p.item, body);
            if p.whole {
                let body = emit_call(field_ident(p), "extend", field_ident(p));
                out.extend(emit_setter(&field_ident(p), &p.ty, body));
            }
            assert(out@ =~= setters(p@));
            out
        },
        _ => {
            let body = emit_store(field_ident(p), field_ident(p));
            emit_setter(&field_ident(p), &p.item, body)
        },
    }
}

/// The text that `build` reports for a required field that was never set.
pub fn missing(name: &str) -> (r: String)
    ensures
        r@ == missing_message(name@),
{
    let mut out = String::from_str("'");
    out.append(name);
    out.append("' field has not been set");
    out
}

fn emit_required_arms(name: &str) -> (r: Stream)
    ensures
        r@ == required_arms(name@),
{
    let mut binding = Stream::new();
    binding.word("ref");
    binding.word("value");
    let mut message = Stream::new();
    message.text(missing(name).as_str(), Span::CallSite);
    let mut error = Stream::new();
    error.std3("convert", "From", "from");
    error.group(Delimiter::Parenthesis, message);
    let mut out = Stream::new();
    out.std3("option", "Option", "Some");
    out.group(Delimiter::Parenthesis, binding);
    out.joined('=');
    out.mark('>');
    out.word("value");
    out.mark('.');
    out.word("clone");
    out.group(Delimiter::Parenthesis, Stream::new());
    out.mark(',');
    out.std3("option", "Option", "None");
    out.joined('=');
    out.mark('>');
    out.word("return");
    out.std3("result", "Result", "Err");
    out.group(Delimiter::Parenthesis, error);
    out.mark(',');
    assert(binding@ =~= seq![word("ref"@), word("value"@)]);
    assert(message@ =~= seq![Tok::Str { value: missing_message(name@), span: Span::CallSite }]);
    assert(error@ =~= std3("convert"@, "From"@, "from"@) + seq![
        group(Delimiter::Parenthesis, message@),
    ]);
    assert(out@ =~= required_arms(name@));
    out
}

/// Writes the statement of `build` that takes a field out of the builder.
pub fn emit_finish(p: &FieldPlan) -> (r: Stream)
    ensures
        r@ == finish(p@),
{
    let mut out = Stream::new();
    out.word("let");
    out.push(field_ident(p));
    out.mark('=');
    match p.rule {
        Rule::Required => {
            out.word("match");
            out.word("self");
            out.mark('.');
            out.push(field_ident(p));
            out.group(Delimiter::Brace, emit_required_arms(p.name.as_str()));
        },
        _ => {
            out.word("self");
            out.mark('.');
            out.push(field_ident(p));
            out.mark('.');
            out.word("clone");
            out.group(Delimiter::Parenthesis, Stream::new());
        },
    }
    out.mark(';');
    assert(out@ =~= finish(p@));
    out
}

/// The values of several plans, in order.
pub open spec fn plans_view(plans: Seq<FieldPlan>) -> Seq<FieldPlanV> {
    Seq::new(plans.len(), |i: int| plans[i]@)
}

/// What each plan contributes, one after the other in the order of the
/// fields.
pub open spec fn per_field(plans: Seq<FieldPlanV>, part: spec_fn(FieldPlanV) -> Seq<Tok>) -> Seq<
    Tok,
> {
    flat(Seq::new(plans.len(), |i: int| part(plans[i])))
}

/// What one more plan adds to the contributions of those before it.
pub proof fn lemma_per_field_push(
    plans: Seq<FieldPlanV>,
    p: FieldPlanV,
    part: spec_fn(FieldPlanV) -> Seq<Tok>,
)
    ensures
        per_field(plans.push(p), part) == per_field(plans, part) + part(p),
{
    let before = Seq::new(plans.len(), |i: int| part(plans[i]));
    let after = Seq::new(plans.push(p).len(), |i: int| part(plans.push(p)[i]));
    assert(after =~= before.push(part(p)));
    lemma_flat_push(before, part(p));
}

/// The name of the builder of a struct: the struct's name and `Builder`.
pub open spec fn builder_name(name: Seq<char>) -> Seq<char> {
    name + "Builder"@
}

/// The builder's type: `#[derive(Default)] pub struct NameBuilder { .. }`
/// with one field for each field of the struct.
pub open spec fn builder_struct(name: Seq<char>, plans: Seq<FieldPlanV>) -> Seq<Tok> {
    seq![
        mark('#'),
        group(
            Delimiter::Bracket,
            seq![word("derive"@), group(Delimiter::Parenthesis, seq![word("Default"@)])],
        ),
        word("pub"@),
        word("struct"@),
        word(builder_name(name)),
        group(Delimiter::Brace, per_field(plans, |p: FieldPlanV| declaration(p))),
    ]
}

/// The builder's `build`: it takes every field out of the builder in the
/// order of the fields and returns the struct, boxed errors on the way.
pub open spec fn build_fn(target: Tok, plans: Seq<FieldPlanV>) -> Seq<Tok> {
    seq![
        word("pub"@),
        word("fn"@),
        word("build"@),
        group(Delimiter::Parenthesis, seq![mark('&'), word("self"@)]),
        joined('-'),
        mark('>'),
    ] + std2("result"@, "Result"@) + seq![mark('<'), target, mark(',')] + std2("boxed"@, "Box"@)
        + seq![mark('<'), word("dyn"@)] + std2("error"@, "Error"@) + seq![
        mark('>'),
        mark('>'),
        group(
            Delimiter::Brace,
            per_field(plans, |p: FieldPlanV| finish(p)) + std3("result"@, "Result"@, "Ok"@) + seq![
                group(
                    Delimiter::Parenthesis,
                    seq![
                        target,
                        group(Delimiter::Brace, per_field(plans, |p: FieldPlanV| shorthand(p))),
                    ],
                ),
            ],
        ),
    ]
}

/// The builder's methods: the setters of every field, then `build`.
pub open spec fn builder_impl(name: Seq<char>, target: Tok, plans: Seq<FieldPlanV>) -> Seq<Tok> {
    seq![
        word("impl"@),
        word(builder_name(name)),
        group(
            Delimiter::Brace,
            per_field(plans, |p: FieldPlanV| setters(p)) + build_fn(target, plans),
        ),
    ]
}

/// The struct's `builder()`, which returns the builder's default value.
pub open spec fn entry_impl(name: Seq<char>, target: Tok) -> Seq<Tok> {
    seq![
        word("impl"@),
        target,
        group(
            Delimiter::Brace,
            seq![
                word("pub"@),
                word("fn"@),
                word("builder"@),
                group(Delimiter::Parenthesis, Seq::empty()),
                joined('-'),
                mark('>'),
                word(builder_name(name)),
                group(
                    Delimiter::Brace,
                    seq![
                        word(builder_name(name)),
                        joined(':'),
                        mark(':'),
                        word("default"@),
                        group(Delimiter::Parenthesis, Seq::empty()),
                    ],
                ),
            ],
        ),
    ]
}

/// Everything the derive adds for a struct with the given name, written
/// at the given place, and the given plans for its fields. The builder's
/// name is new and stands at the call site; the struct's name keeps its
/// place.
pub open spec fn expansion(name: Seq<char>, span: Span, plans: Seq<FieldPlanV>) -> Seq<Tok> {
    let target = Tok::Ident { name, span };
    builder_struct(name, plans) + builder_impl(name, target, plans) + entry_impl(name, target)
}

/// The name of the builder of a struct.
pub fn builder_name_of(name: &str) -> (r: String)
    ensures
        r@ == builder_name(name@),
{
    let mut out = String::from_str(name);
    out.append("Builder");
    out
}

fn emit_build_fn(target: &TokenTree, finishes: Stream, shorthands: Stream) -> (r: Stream)
    ensures
        r@ == seq![
            word("pub"@),
            word("fn"@),
            word("build"@),
            group(Delimiter::Parenthesis, seq![mark('&'), word("self"@)]),
            joined('-'),
            mark('>'),
        ] + std2("result"@, "Result"@) + seq![mark('<'), target@, mark(',')] + std2(
            "boxed"@,
            "Box"@,
        ) + seq![mark('<'), word("dyn"@)] + std2("error"@, "Error"@) + seq![
            mark('>'),
            mark('>'),
            group(
                Delimiter::Brace,
                finishes@ + std3("result"@, "Result"@, "Ok"@) + seq![
                    group(
                        Delimiter::Parenthesis,
                        seq![target@, group(Delimiter::Brace, shorthands@)],
                    ),
                ],
            ),
        ],
{
    let mut receiver = Stream::new();
    receiver.mark('&');
    receiver.word("self");
    assert(receiver@ =~= seq![mark('&'), word("self"@)]);
    let mut literal = Stream::new();
    literal.push(copy_tree(target));
    literal.group(Delimiter::Brace, shorthands);
    assert(literal@ =~= seq![target@, group(Delimiter::Brace, shorthands@)]);
    let mut body = finishes;
    body.std3("result", "Result", "Ok");
    body.group(Delimiter::Parenthesis, literal);
    assert(body@ =~= finishes@ + std3("result"@, "Result"@, "Ok"@) + seq![
        group(Delimiter::Parenthesis, literal@),
    ]);
    let mut out = Stream::new();
    out.word("pub");
    out.word("fn");
    out.word("build");
    out.group(Delimiter::Parenthesis, receiver);
    out.joined('-');
    out.mark('>');
    let ghost head = out@;
    assert(head =~= seq![
        word("pub"@),
        word("fn"@),
        word("build"@),
        group(Delimiter::Parenthesis, seq![mark('&'), word("self"@)]),
        joined('-'),
        mark('>'),
    ]);
    out.std2("result", "Result");
    out.mark('<');
    out.push(copy_tree(target));
    out.mark(',');
    out.std2("boxed", "Box");
    out.mark('<');
    out.word("dyn");
    out.std2("error", "Error");
    out.mark('>');
    out.mark('>');
    out.group(Delimiter::Brace, body);
    assert(out@ =~= head + std2("result"@, "Result"@) + seq![mark('<'), target@, mark(',')] + std2(
        "boxed"@,
        "Box"@,
    ) + seq![mark('<'), word("dyn"@)] + std2("error"@, "Error"@) + seq![
        mark('>'),
        mark('>'),
        group(Delimiter::Brace, body@),
    ]);
    out
}

fn emit_entry(name: &str, target: &TokenTree) -> (r: Stream)
    ensures
        r@ == entry_impl(name@, target@),
{
    let builder = builder_name_of(name);
    let mut body = Stream::new();
    body.word(builder.as_str());
    body.joined(':');
    body.mark(':');
    body.word("default");
    body.group(Delimiter::Parenthesis, Stream::new());
    assert(body@ =~= seq![
        word(builder_name(name@)),
        joined(':'),
        mark(':'),
        word("default"@),
        group(Delimiter::Parenthesis, Seq::empty()),
    ]);
    let mut item = Stream::new();
    item.word("pub");
    item.word("fn");
    item.word("builder");
    item.group(Delimiter::Parenthesis, Stream::new());
    item.joined('-');
    item.mark('>');
    item.word(builder.as_str());
    item.group(Delimiter::Brace, body);
    assert(item@ =~= seq![
        word("pub"@),
        word("fn"@),
        word("builder"@),
        group(Delimiter::Parenthesis, Seq::empty()),
        joined('-'),
        mark('>'),
        word(builder_name(name@)),
        group(Delimiter::Brace, body@),
    ]);
    let mut out = Stream::new();
    out.word("impl");
    out.push(copy_tree(target));
    out.group(Delimiter::Brace, item);
    assert(out@ =~= entry_impl(name@, target@));
    out
}

/// Writes everything the derive adds for a struct, from the plans for its
/// fields.
pub fn expand(name: &str, span: Span, plans: &Vec<FieldPlan>) -> (r: Vec<TokenTree>)
    ensures
        stream_view(r@) == expansion(name@, span, plans_view(plans@)),
{
    let ghost pv = plans_view(plans@);
    let target = TokenTree::Ident { name: name.to_owned(), span };
    let builder = builder_name_of(name);
    let mut declarations = Stream::new();
    let mut methods = Stream::new();
    let mut finishes = Stream::new();
    let mut shorthands = Stream::new();
    let mut i: usize = 0;
    proof {
        assert(pv.take(0) =~= Seq::<FieldPlanV>::empty());
        assert(per_field(pv.take(0), |p: FieldPlanV| declaration(p)) =~= Seq::<Tok>::empty());
        assert(per_field(pv.take(0), |p: FieldPlanV| setters(p)) =~= Seq::<Tok>::empty());
        assert(per_field(pv.take(0), |p: FieldPlanV| finish(p)) =~= Seq::<Tok>::empty());
        assert(per_field(pv.take(0), |p: FieldPlanV| shorthand(p)) =~= Seq::<Tok>::empty());
    }
    while i < plans.len()
        invariant
            i <= plans.len(),
            pv == plans_view(plans@),
            declarations@ == per_field(pv.take(i as int), |p: FieldPlanV| declaration(p)),
            methods@ == per_field(pv.take(i as int), |p: FieldPlanV| setters(p)),
            finishes@ == per_field(pv.take(i as int), |p: FieldPlanV| finish(p)),
            shorthands@ == per_field(pv.take(i as int), |p: FieldPlanV| shorthand(p)),
        decreases plans.len() - i,
    {
        let p = &plans[i];
        proof {
            assert(pv.take(i + 1) =~= pv.take(i as int).push(p@));
            lemma_per_field_push(pv.take(i as int), p@, |p: FieldPlanV| declaration(p));
            lemma_per_field_push(pv.take(i as int), p@, |p: FieldPlanV| setters(p));
            lemma_per_field_push(pv.take(i as int), p@, |p: FieldPlanV| finish(p));
            lemma_per_field_push(pv.take(i as int), p@, |p: FieldPlanV| shorthand(p));
        }
        declarations.extend(emit_declaration(p));
        methods.extend(emit_setters(p));
        finishes.extend(emit_finish(p));
        shorthands.push(field_ident(p));
        shorthands.mark(',');
        assert(shorthands@ =~= per_field(pv.take(i as int), |p: FieldPlanV| shorthand(p))
            + shorthand(p@));
        i += 1;
    }
    proof {
        assert(pv.take(plans.len() as int) =~= pv);
    }
    let mut derive = Stream::new();
    derive.word("Default");
    assert(derive@ =~= seq![word("Default"@)]);
    let mut attribute = Stream::new();
    attribute.word("derive");
    attribute.group(Delimiter::Parenthesis, derive);
    assert(attribute@ =~= seq![
        word("derive"@),
        group(Delimiter::Parenthesis, seq![word("Default"@)]),
    ]);
    let mut out = Stream::new();
    out.mark('#');
    out.group(Delimiter::Bracket, attribute);
    out.word("pub");
    out.word("struct");
    out.word(builder.as_str());
    out.group(Delimiter::Brace, declarations);
    assert(out@ =~= builder_struct(name@, pv));
    methods.extend(emit_build_fn(&target, finishes, shorthands));
    assert(methods@ =~= per_field(pv, |p: FieldPlanV| setters(p)) + build_fn(target@, pv));
    out.word("impl");
    out.word(builder.as_str());
    out.group(Delimiter::Brace, methods);
    assert(out@ =~= builder_struct(name@, pv) + builder_impl(name@, target@, pv));
    out.extend(emit_entry(name, &target));
    out.trees
}

/// Whether the name under `each` of the field with the given index was
/// found to name a method: a field without an answer has none that does.
pub open spec fn usable_at(usable: Seq<bool>, i: int) -> bool {
    0 <= i < usable.len() && usable[i]
}

/// Whether a field gives a name under `each`.
pub open spec fn has_each(f: Field) -> bool {
    keyed_spec(f.attrs@, "builder"@, "each"@) matches Ok(Some(_))
}

/// The plans for the fields in order, or the diagnostic of the first field
/// that has one, given for each field whether the name under `each` can
/// name a method.
pub open spec fn field_plans(fields: Seq<Field>, usable: Seq<bool>) -> Result<
    Seq<FieldPlanV>,
    DiagnosticV,
>
    decreases fields.len(),
{
    if fields.len() == 0 {
        Ok(Seq::empty())
    } else {
        match field_plans(fields.drop_last(), usable) {
            Err(d) => Err(d),
            Ok(plans) => match field_plan(fields.last(), usable_at(usable, fields.len() - 1)) {
                Err(d) => Err(d),
                Ok(p) => Ok(plans.push(p)),
            },
        }
    }
}

/// What the derive makes of an item, given for each field whether the name
/// under `each` can name a method: the expansion for a struct with named
/// fields whose fields can all be planned, the first field's diagnostic
/// where one cannot, and a diagnostic at the item for anything else.
pub open spec fn derived(input: DeriveInput, usable: Seq<bool>) -> Result<Seq<Tok>, DiagnosticV> {
    match input.data {
        Data::Named(fields) => match field_plans(fields@, usable) {
            Ok(plans) => Ok(expansion(input.name@, input.span, plans)),
            Err(d) => Err(d),
        },
        _ => Err(DiagnosticV { span: input.span, message: shape_message() }),
    }
}

/// Whether plans, or a diagnostic, are those of the fields under the
/// given answers.
pub open spec fn planned_as(
    fields: Seq<Field>,
    usable: Seq<bool>,
    r: Result<Vec<FieldPlan>, Diagnostic>,
) -> bool {
    match field_plans(fields, usable) {
        Ok(plans) => r matches Ok(v) && plans_view(v@) == plans,
        Err(d) => r matches Err(e) && e@ == d,
    }
}

/// Whether tokens, or a diagnostic, are what the derive makes of an item
/// under the given answers.
pub open spec fn derived_as(
    input: DeriveInput,
    usable: Seq<bool>,
    r: Result<Vec<TokenTree>, Diagnostic>,
) -> bool {
    match derived(input, usable) {
        Ok(tokens) => r matches Ok(v) && stream_view(v@) == tokens,
        Err(d) => r matches Err(e) && e@ == d,
    }
}

/// Whether an item has no field that gives a name under `each`.
pub open spec fn each_free(input: DeriveInput) -> bool {
    input.data matches Data::Named(fields) ==> forall|i: int|
        0 <= i < fields@.len() ==> !has_each(#[trigger] fields@[i])
}

/// A diagnostic among the first fields is the diagnostic of all of them.
pub proof fn lemma_error_stays(fields: Seq<Field>, usable: Seq<bool>, n: int)
    requires
        0 <= n <= fields.len(),
        field_plans(fields.take(n), usable) is Err,
    ensures
        field_plans(fields, usable) == field_plans(fields.take(n), usable),
    decreases fields.len() - n,
{
    if n < fields.len() {
        assert(fields.take(n + 1).drop_last() =~= fields.take(n));
        lemma_error_stays(fields, usable, n + 1);
    } else {
        assert(fields.take(n) =~= fields);
    }
}

/// The answers matter only for the fields that give a name under `each`.
pub proof fn lemma_answers_for_each_only(fields: Seq<Field>, a: Seq<bool>, b: Seq<bool>)
    requires
        forall|i: int|
            0 <= i < fields.len() && has_each(#[trigger] fields[i]) ==> usable_at(a, i)
                == usable_at(b, i),
    ensures
        field_plans(fields, a) == field_plans(fields, b),
    decreases fields.len(),
{
    if fields.len() > 0 {
        let fewer = fields.drop_last();
        assert forall|i: int| 0 <= i < fewer.len() && has_each(#[trigger] fewer[i]) implies usable_at(
            a,
            i,
        ) == usable_at(b, i) by {
            assert(fewer[i] == fields[i]);
        }
        lemma_answers_for_each_only(fewer, a, b);
        assert(fields.last() == fields[fields.len() - 1]);
    }
}

/// Plans the fields of a struct in order and stops at the first that
/// cannot be planned; `usable` says for each field whether the name under
/// `each` can name a method.
pub fn plan_with(fields: &Vec<Field>, usable: &Vec<bool>) -> (r: Result<
    Vec<FieldPlan>,
    Diagnostic,
>)
    ensures
        planned_as(fields@, usable@, r),
{
    let mut plans: Vec<FieldPlan> = Vec::new();
    let mut i: usize = 0;
    proof {
        assert(fields@.take(0) =~= Seq::<Field>::empty());
        assert(plans_view(plans@) =~= Seq::<FieldPlanV>::empty());
    }
    while i < fields.len()
        invariant
            i <= fields.len(),
            field_plans(fields@.take(i as int), usable@) == Ok::<Seq<FieldPlanV>, DiagnosticV>(
                plans_view(plans@),
            ),
        decreases fields.len() - i,
    {
        let f = &fields[i];
        let answer = i < usable.len() && usable[i];
        proof {
            assert(fields@.take(i + 1).drop_last() =~= fields@.take(i as int));
            assert(fields@.take(i + 1).last() == *f);
        }
        match plan_field(f, answer) {
            Err(d) => {
                proof {
                    lemma_error_stays(fields@, usable@, i + 1);
                }
                return Err(d);
            },
            Ok(p) => {
                assert(plans_view(plans@.push(p)) =~= plans_view(plans@).push(p@));
                plans.push(p);
            },
        }
        i += 1;
    }
    proof {
        assert(fields@.take(fields.len() as int) =~= fields@);
    }
    Ok(plans)
}

/// Asks for each field whether the name that it gives under `each` can
/// name a method; a field that gives none is answered with yes.
pub fn usable_names(fields: &Vec<Field>) -> (r: Vec<bool>)
    ensures
        r@.len() == fields@.len(),
        forall|i: int| 0 <= i < fields@.len() && !has_each(fields@[i]) ==> #[trigger] r@[i],
{
    let mut out: Vec<bool> = Vec::new();
    let mut i: usize = 0;
    while i < fields.len()
        invariant
            i <= fields.len(),
            out@.len() == i,
            forall|k: int| 0 <= k < i && !has_each(fields@[k]) ==> #[trigger] out@[k],
        decreases fields.len() - i,
    {
        let answer = match keyed_value_of(&fields[i].attrs, "builder", "each") {
            Ok(Some(each)) => can_name_method(each.value.as_str()),
            _ => true,
        };
        out.push(answer);
        i += 1;
    }
    out
}

/// Plans the fields of a struct. The parser is asked whether the names
/// under `each` can name methods, and the plans are those under its
/// answers; where no field gives such a name, nothing hangs on them.
pub fn plan(fields: &Vec<Field>) -> (r: Result<Vec<FieldPlan>, Diagnostic>)
    ensures
        exists|usable: Seq<bool>| #[trigger] planned_as(fields@, usable, r),
        (forall|i: int| 0 <= i < fields@.len() ==> !has_each(#[trigger] fields@[i]))
            ==> planned_as(fields@, Seq::empty(), r),
{
    let usable = usable_names(fields);
    let r = plan_with(fields, &usable);
    proof {
        assert(planned_as(fields@, usable@, r));
        if forall|i: int| 0 <= i < fields@.len() ==> !has_each(#[trigger] fields@[i]) {
            lemma_answers_for_each_only(fields@, usable@, Seq::empty());
        }
    }
    r
}

/// Derives the builder for an item, given for each field whether the name
/// under `each` can name a method: the tokens to add, or the error to
/// report.
pub fn derive_with(input: &DeriveInput, usable: &Vec<bool>) -> (r: Result<
    Vec<TokenTree>,
    Diagnostic,
>)
    ensures
        derived_as(*input, usable@, r),
{
    match &input.data {
        Data::Named(fields) => match plan_with(fields, usable) {
            Ok(plans) => Ok(expand(input.name.as_str(), input.span, &plans)),
            Err(d) => Err(d),
        },
        _ => Err(
            diagnostic(
                input.span,
                "\"#[derive(Builder)]\" only implemented for structs with named fields",
            ),
        ),
    }
}

/// Derives the builder for an item: the tokens to add, or the error to
/// report. The parser is asked whether the names under `each` can name
/// methods, and the result is the one under its answers; where no field
/// gives such a name, nothing hangs on them.
pub fn derive(input: &DeriveInput) -> (r: Result<Vec<TokenTree>, Diagnostic>)
    ensures
        exists|usable: Seq<bool>| #[trigger] derived_as(*input, usable, r),
        each_free(*input) ==> derived_as(*input, Seq::empty(), r),
{
    let usable = match &input.data {
        Data::Named(fields) => usable_names(fields),
        _ => Vec::new(),
    };
    let r = derive_with(input, &usable);
    proof {
        assert(derived_as(*input, usable@, r));
        if each_free(*input) && input.data is Named {
            lemma_answers_for_each_only(input.data->Named_0@, usable@, Seq::empty());
        }
    }
    r
}

} // verus!
