//! The parts of the generators on descriptions written by hand.

use macro_kit::attrs::{find_named, keyed_value_of, value_of, Deviation, Fault, Found, Text};
use macro_kit::bounds::{
    bounded, collect, distinct_paths, inferred, mentions, names_type_param, used_by_fields,
};
use macro_kit::builder::{
    builder_name_of, emit_declaration, emit_finish, emit_setters, missing, plan_field, FieldPlan,
    Rule,
};
use macro_kit::debug::{add_debug_trait_bounds, emit_link, emit_param_decl, emit_where, entry, Entry};
use macro_kit::number::{read_number, write_number};
use macro_kit::model::{
    Arg, Attribute, Field, Form, GenericParam, Lit, ParamKind, Payload, Segment, Ty,
};
use macro_kit::seq::{expand, substitute_stream, substitute_tree, Range, SeqData};
use macro_kit::shape::{
    classify, is_phantom_path, name_is, phantom_generic_argument, type_type_as_str, Shape,
};
use macro_kit::behaviour::{print, Builder, Built, Slot};
use macro_kit::syntax::{can_name_method, is_reserved};
use macro_kit::tokens::{
    copy_stream, copy_tree, same_stream, same_tree, Delimiter, Span, Stream, TokenTree,
};

fn at(n: u64) -> Span {
    Span::Source(n)
}

fn ident(name: &str, n: u64) -> TokenTree {
    TokenTree::Ident { name: name.to_string(), span: at(n) }
}

fn word(name: &str) -> TokenTree {
    TokenTree::Ident { name: name.to_string(), span: Span::CallSite }
}

fn mark(ch: char) -> TokenTree {
    TokenTree::Punct { ch, joint: false, span: Span::CallSite }
}

fn joined(ch: char) -> TokenTree {
    TokenTree::Punct { ch, joint: true, span: Span::CallSite }
}

fn group(delimiter: Delimiter, stream: Vec<TokenTree>) -> TokenTree {
    TokenTree::Group { delimiter, stream, span: Span::CallSite }
}

fn std2(a: &str, b: &str) -> Vec<TokenTree> {
    vec![
        joined(':'),
        mark(':'),
        word("std"),
        joined(':'),
        mark(':'),
        word(a),
        joined(':'),
        mark(':'),
        word(b),
    ]
}

fn std3(a: &str, b: &str, c: &str) -> Vec<TokenTree> {
    let mut out = std2(a, b);
    out.extend([joined(':'), mark(':'), word(c)]);
    out
}

/// A path type whose tokens are its names alone: enough where the tokens
/// are only carried along.
fn path(names: &[&str], args: Vec<Arg>, n: u64) -> Ty {
    let mut segments: Vec<Segment> =
        names.iter().map(|name| Segment { name: name.to_string(), args: Vec::new() }).collect();
    let last = segments.len() - 1;
    segments[last].args = args;
    Ty::Path { tokens: names.iter().map(|name| ident(name, n)).collect(), segments }
}

fn plain(name: &str, n: u64) -> Ty {
    path(&[name], Vec::new(), n)
}

fn type_arg(ty: Ty) -> Arg {
    Arg { is_type: true, syntax: ty }
}

fn lifetime_arg(name: &str, n: u64) -> Arg {
    Arg {
        is_type: false,
        syntax: Ty::Other {
            form: Form::Undocumented,
            tokens: vec![
                TokenTree::Punct { ch: '\'', joint: true, span: at(n) },
                ident(name, n),
            ],
            inner: Vec::new(),
        },
    }
}

fn other(form: Form, inner: Vec<Ty>, n: u64) -> Ty {
    Ty::Other { form, tokens: vec![ident("other", n)], inner }
}

fn bare(path: &str, n: u64) -> Attribute {
    Attribute { path: path.to_string(), span: at(n), payload: Payload::Bare }
}

fn string(value: &str, n: u64) -> Lit {
    Lit::Str { value: value.to_string(), span: at(n) }
}

fn name_value(path: &str, lit: Lit, n: u64) -> Attribute {
    Attribute { path: path.to_string(), span: at(n), payload: Payload::Value(lit) }
}

fn list(path: &str, nested: Vec<Attribute>, n: u64) -> Attribute {
    Attribute { path: path.to_string(), span: at(n), payload: Payload::List(nested) }
}

fn field(name: &str, ty: Ty, attrs: Vec<Attribute>, n: u64) -> Field {
    Field { name: name.to_string(), span: at(n), ty, attrs }
}

fn type_param(name: &str, n: u64) -> GenericParam {
    GenericParam { kind: ParamKind::Type, name: name.to_string(), span: at(n), bounds: Vec::new() }
}

#[test]
fn names_compare_by_their_text() {
    assert!(name_is(&"Option".to_string(), "Option"));
    assert!(!name_is(&"Option".to_string(), "option"));
    assert!(!name_is(&"Option".to_string(), "Optional"));
    assert!(name_is(&String::new(), ""));
}

#[test]
fn wrappers_are_known_by_their_last_segment() {
    let inner = plain("String", 1);
    let ty = path(&["Option"], vec![type_arg(plain("String", 1))], 2);
    assert_eq!(classify(&ty), Shape::Optional(&inner));
    let ty = path(&["std", "option", "Option"], vec![type_arg(plain("String", 1))], 2);
    assert_eq!(classify(&ty), Shape::Optional(&inner));
    let ty = path(&["anything", "Vec"], vec![type_arg(plain("String", 1))], 2);
    assert_eq!(classify(&ty), Shape::Vector(&inner));
    let ty = path(&["Vec"], vec![type_arg(plain("String", 1))], 2);
    assert_eq!(classify(&ty), Shape::Vector(&inner));
    let ty = path(&["Option", "Inner"], vec![type_arg(plain("String", 1))], 2);
    assert_eq!(classify(&ty), Shape::Plain);
}

#[test]
fn wrappers_take_a_single_type() {
    assert_eq!(classify(&plain("Option", 1)), Shape::Plain);
    assert_eq!(classify(&plain("Vec", 1)), Shape::Plain);
    let two = path(&["Vec"], vec![type_arg(plain("A", 1)), type_arg(plain("B", 1))], 2);
    assert_eq!(classify(&two), Shape::Plain);
    let lifetime = path(&["Option"], vec![lifetime_arg("a", 1)], 2);
    assert_eq!(classify(&lifetime), Shape::Plain);
    let mixed = path(&["Option"], vec![lifetime_arg("a", 1), type_arg(plain("B", 1))], 2);
    assert_eq!(classify(&mixed), Shape::Plain);
    assert_eq!(classify(&other(Form::Tuple, vec![plain("Option", 1)], 2)), Shape::Plain);
    assert_eq!(classify(&Ty::Path { tokens: Vec::new(), segments: Vec::new() }), Shape::Plain);
}

#[test]
fn phantom_data_is_known_by_the_end_of_its_path() {
    let inner = type_arg(plain("T", 1));
    for names in [
        &["PhantomData"][..],
        &["marker", "PhantomData"][..],
        &["std", "marker", "PhantomData"][..],
    ] {
        let ty = path(names, vec![type_arg(plain("T", 1))], 2);
        assert_eq!(classify(&ty), Shape::Phantom(&inner), "{:?}", names);
        assert_eq!(phantom_generic_argument(&ty), Some(&inner));
        let two = path(names, vec![type_arg(plain("T", 1)), type_arg(plain("U", 1))], 2);
        assert_eq!(phantom_generic_argument(&two), Some(&inner));
        let first = lifetime_arg("a", 1);
        let mixed = path(names, vec![lifetime_arg("a", 1), type_arg(plain("U", 1))], 2);
        assert_eq!(phantom_generic_argument(&mixed), Some(&first));
        assert_eq!(classify(&mixed), Shape::Phantom(&first));
    }
    for names in [
        &["Phantom"][..],
        &["core", "marker", "PhantomData"][..],
        &["std", "PhantomData"][..],
        &["a", "std", "marker", "PhantomData"][..],
        &["PhantomData", "marker"][..],
        &["std", "marker"][..],
    ] {
        let ty = path(names, vec![type_arg(plain("T", 1))], 2);
        assert_eq!(classify(&ty), Shape::Plain, "{:?}", names);
        assert_eq!(phantom_generic_argument(&ty), None);
    }
    assert_eq!(phantom_generic_argument(&plain("PhantomData", 1)), None);
    let segments = |names: &[&str]| -> Vec<Segment> {
        names.iter().map(|n| Segment { name: n.to_string(), args: Vec::new() }).collect()
    };
    assert!(is_phantom_path(&segments(&["PhantomData"])));
    assert!(is_phantom_path(&segments(&["std", "marker", "PhantomData"])));
    assert!(!is_phantom_path(&segments(&[])));
    assert!(!is_phantom_path(&segments(&["std"])));
}

#[test]
fn forms_have_names() {
    assert_eq!(type_type_as_str(&plain("u8", 1)), "path");
    let names = [
        (Form::Array, "array"),
        (Form::BareFn, "bare_fn"),
        (Form::Group, "group"),
        (Form::ImplTrait, "impl_trait"),
        (Form::Infer, "infer"),
        (Form::Macro, "macro"),
        (Form::Never, "never"),
        (Form::Paren, "paren"),
        (Form::Ptr, "ptr"),
        (Form::Reference, "reference"),
        (Form::Slice, "slice"),
        (Form::TraitObject, "trait_object"),
        (Form::Tuple, "tuple"),
        (Form::Verbatim, "verbatim"),
        (Form::Path, "path"),
        (Form::Undocumented, "undocumented"),
    ];
    for (form, name) in names {
        assert_eq!(type_type_as_str(&other(form, Vec::new(), 1)), name);
    }
}

#[test]
fn attributes_are_found_by_their_path() {
    let attrs = vec![bare("doc", 1), bare("debug", 2), bare("other", 3), bare("debug", 4), bare("debug", 5)];
    assert_eq!(find_named(&attrs, "doc"), Found::Once(0));
    assert_eq!(find_named(&attrs, "other"), Found::Once(2));
    assert_eq!(find_named(&attrs, "debug"), Found::Repeated(1, 3));
    assert_eq!(find_named(&attrs, "builder"), Found::Absent);
    assert_eq!(find_named(&Vec::new(), "debug"), Found::Absent);
}

#[test]
fn a_value_is_read_from_a_single_attribute() {
    let attrs = vec![bare("doc", 1), name_value("debug", string("{:x}", 2), 3)];
    assert_eq!(
        value_of(&attrs, "debug"),
        Ok(Some(Text { value: "{:x}".to_string(), span: at(2), attr: at(3) }))
    );
    assert_eq!(value_of(&attrs, "other"), Ok(None));
    assert_eq!(value_of(&attrs, "doc"), Err(Fault { span: at(1), kind: Deviation::Form }));
    let attrs = vec![name_value("debug", Lit::Other { span: at(1) }, 2)];
    assert_eq!(value_of(&attrs, "debug"), Err(Fault { span: at(2), kind: Deviation::NotString }));
    let attrs = vec![list("debug", vec![bare("x", 1)], 2)];
    assert_eq!(value_of(&attrs, "debug"), Err(Fault { span: at(2), kind: Deviation::Form }));
    let attrs = vec![
        Attribute { path: "debug".to_string(), span: at(1), payload: Payload::Other },
    ];
    assert_eq!(value_of(&attrs, "debug"), Err(Fault { span: at(1), kind: Deviation::Form }));
    let attrs = vec![bare("debug", 1), name_value("debug", string("a", 2), 3)];
    assert_eq!(value_of(&attrs, "debug"), Err(Fault { span: at(3), kind: Deviation::Repeated }));
}

#[test]
fn a_keyed_value_is_read_from_a_single_list() {
    let each = |lit: Lit| list("builder", vec![name_value("each", lit, 2)], 3);
    assert_eq!(
        keyed_value_of(&vec![each(string("arg", 1))], "builder", "each"),
        Ok(Some(Text { value: "arg".to_string(), span: at(1), attr: at(3) }))
    );
    assert_eq!(keyed_value_of(&vec![each(string("arg", 1))], "debug", "each"), Ok(None));
    assert_eq!(
        keyed_value_of(&vec![each(string("arg", 1))], "builder", "bound"),
        Err(Fault { span: at(3), kind: Deviation::Form })
    );
    assert_eq!(
        keyed_value_of(&vec![each(Lit::Other { span: at(1) })], "builder", "each"),
        Err(Fault { span: at(3), kind: Deviation::NotString })
    );
    assert_eq!(
        keyed_value_of(&vec![list("builder", Vec::new(), 1)], "builder", "each"),
        Err(Fault { span: at(1), kind: Deviation::Form })
    );
    let two = list(
        "builder",
        vec![name_value("each", string("a", 1), 2), name_value("each", string("b", 3), 4)],
        5,
    );
    assert_eq!(
        keyed_value_of(&vec![two], "builder", "each"),
        Err(Fault { span: at(5), kind: Deviation::Form })
    );
    assert_eq!(
        keyed_value_of(&vec![list("builder", vec![bare("each", 1)], 2)], "builder", "each"),
        Err(Fault { span: at(2), kind: Deviation::Form })
    );
    assert_eq!(
        keyed_value_of(&vec![name_value("builder", string("a", 1), 2)], "builder", "each"),
        Err(Fault { span: at(2), kind: Deviation::Form })
    );
    assert_eq!(
        keyed_value_of(&vec![each(string("a", 1)), bare("x", 7), each(string("b", 1))], "builder", "each"),
        Err(Fault { span: at(3), kind: Deviation::Repeated })
    );
}

#[test]
fn a_field_is_planned_by_its_attribute_and_type() {
    let f = field("name", plain("String", 1), Vec::new(), 2);
    let p = plan_field(&f, true).unwrap();
    assert_eq!(
        p,
        FieldPlan {
            name: "name".to_string(),
            span: at(2),
            rule: Rule::Required,
            ty: vec![ident("String", 1)],
            item: vec![ident("String", 1)],
            each: "name".to_string(),
            each_span: at(2),
            whole: true,
        }
    );
    let f = field("dir", path(&["Option"], vec![type_arg(plain("String", 3))], 1), Vec::new(), 2);
    let p = plan_field(&f, false).unwrap();
    assert_eq!(p.rule, Rule::Optional);
    assert_eq!(p.ty, vec![ident("Option", 1)]);
    assert_eq!(p.item, vec![ident("String", 3)]);
    let each = |name: &str| list("builder", vec![name_value("each", string(name, 4), 5)], 6);
    let f = field("args", path(&["Vec"], vec![type_arg(plain("String", 3))], 1), vec![each("arg")], 2);
    let p = plan_field(&f, true).unwrap();
    assert_eq!(
        p,
        FieldPlan {
            name: "args".to_string(),
            span: at(2),
            rule: Rule::Repeated,
            ty: vec![ident("Vec", 1)],
            item: vec![ident("String", 3)],
            each: "arg".to_string(),
            each_span: at(4),
            whole: true,
        }
    );
    let f = field("args", path(&["Vec"], vec![type_arg(plain("String", 3))], 1), vec![each("args")], 2);
    assert!(!plan_field(&f, true).unwrap().whole);
    let d = plan_field(&f, false).unwrap_err();
    assert_eq!(d.message, "expected `builder(each = \"...\")`");
    assert_eq!(d.span, at(6));
}

#[test]
fn each_comes_before_option() {
    let each = list("builder", vec![name_value("each", string("x", 4), 5)], 6);
    let f = field("f", path(&["Option"], vec![type_arg(plain("String", 3))], 1), vec![each], 2);
    let d = plan_field(&f, true).unwrap_err();
    assert_eq!(d.message, "expected 'Vec' as the type of a field with `each`");
    assert_eq!(d.span, at(6));
    let f = field("f", path(&["Vec"], vec![type_arg(plain("u8", 3))], 1), Vec::new(), 2);
    assert_eq!(plan_field(&f, true).unwrap().rule, Rule::Required);
}

#[test]
fn the_messages_name_the_field() {
    assert_eq!(missing("exe"), "'exe' field has not been set");
    assert_eq!(missing(""), "'' field has not been set");
    assert_eq!(builder_name_of("Command"), "CommandBuilder");
}

fn required_plan() -> FieldPlan {
    FieldPlan {
        name: "exe".to_string(),
        span: at(1),
        rule: Rule::Required,
        ty: vec![ident("String", 2)],
        item: vec![ident("String", 2)],
        each: "exe".to_string(),
        each_span: at(1),
        whole: true,
    }
}

fn repeated_plan(each: &str, whole: bool) -> FieldPlan {
    FieldPlan {
        name: "args".to_string(),
        span: at(1),
        rule: Rule::Repeated,
        ty: vec![ident("Vec", 2), mark('<'), ident("u8", 3), mark('>')],
        item: vec![ident("u8", 3)],
        each: each.to_string(),
        each_span: at(4),
        whole,
    }
}

#[test]
fn a_required_field_is_kept_as_an_option() {
    let mut expected = vec![ident("exe", 1), mark(':')];
    expected.extend(std2("option", "Option"));
    expected.extend([mark('<'), ident("String", 2), mark('>'), mark(',')]);
    assert_eq!(emit_declaration(&required_plan()).trees, expected);
    assert_eq!(
        emit_declaration(&repeated_plan("arg", true)).trees,
        vec![
            ident("args", 1),
            mark(':'),
            ident("Vec", 2),
            mark('<'),
            ident("u8", 3),
            mark('>'),
            mark(','),
        ]
    );
}

fn setter(name: TokenTree, ty: Vec<TokenTree>, mut body: Vec<TokenTree>) -> Vec<TokenTree> {
    let mut params = vec![mark('&'), word("mut"), word("self"), mark(','), copy_tree(&name), mark(':')];
    params.extend(ty);
    body.push(word("self"));
    vec![
        word("pub"),
        word("fn"),
        name,
        group(Delimiter::Parenthesis, params),
        joined('-'),
        mark('>'),
        mark('&'),
        word("mut"),
        word("Self"),
        group(Delimiter::Brace, body),
    ]
}

#[test]
fn a_required_field_has_a_setter_that_stores() {
    let mut body = vec![word("self"), mark('.'), ident("exe", 1), mark('=')];
    body.extend(std3("option", "Option", "Some"));
    body.extend([group(Delimiter::Parenthesis, vec![ident("exe", 1)]), mark(';')]);
    assert_eq!(
        emit_setters(&required_plan()).trees,
        setter(ident("exe", 1), vec![ident("String", 2)], body)
    );
}

#[test]
fn a_repeated_field_has_a_setter_that_pushes() {
    let call = |method: &str, value: TokenTree| {
        vec![
            word("self"),
            mark('.'),
            ident("args", 1),
            mark('.'),
            word(method),
            group(Delimiter::Parenthesis, vec![value]),
            mark(';'),
        ]
    };
    let one = setter(ident("arg", 4), vec![ident("u8", 3)], call("push", ident("arg", 4)));
    let mut both = setter(ident("arg", 4), vec![ident("u8", 3)], call("push", ident("arg", 4)));
    both.extend(setter(
        ident("args", 1),
        vec![ident("Vec", 2), mark('<'), ident("u8", 3), mark('>')],
        call("extend", ident("args", 1)),
    ));
    assert_eq!(emit_setters(&repeated_plan("arg", true)).trees, both);
    assert_eq!(emit_setters(&repeated_plan("arg", false)).trees, one);
}

#[test]
fn build_takes_each_field_out() {
    assert_eq!(
        emit_finish(&repeated_plan("arg", true)).trees,
        vec![
            word("let"),
            ident("args", 1),
            mark('='),
            word("self"),
            mark('.'),
            ident("args", 1),
            mark('.'),
            word("clone"),
            group(Delimiter::Parenthesis, Vec::new()),
            mark(';'),
        ]
    );
    let mut arms = std3("option", "Option", "Some");
    arms.extend([
        group(Delimiter::Parenthesis, vec![word("ref"), word("value")]),
        joined('='),
        mark('>'),
        word("value"),
        mark('.'),
        word("clone"),
        group(Delimiter::Parenthesis, Vec::new()),
        mark(','),
    ]);
    arms.extend(std3("option", "Option", "None"));
    arms.extend([joined('='), mark('>'), word("return")]);
    arms.extend(std3("result", "Result", "Err"));
    let mut error = std3("convert", "From", "from");
    error.push(group(
        Delimiter::Parenthesis,
        vec![TokenTree::Str {
            value: "'exe' field has not been set".to_string(),
            span: Span::CallSite,
        }],
    ));
    arms.extend([group(Delimiter::Parenthesis, error), mark(',')]);
    assert_eq!(
        emit_finish(&required_plan()).trees,
        vec![
            word("let"),
            ident("exe", 1),
            mark('='),
            word("match"),
            word("self"),
            mark('.'),
            ident("exe", 1),
            group(Delimiter::Brace, arms),
            mark(';'),
        ]
    );
}

#[test]
fn a_parameter_is_used_where_its_name_begins_a_path() {
    assert!(mentions(&plain("T", 1), "T"));
    assert!(!mentions(&plain("T", 1), "U"));
    assert!(!mentions(&plain("u8", 1), "T"));
    let nested = path(
        &["Vec"],
        vec![type_arg(path(&["Option"], vec![type_arg(plain("T", 1))], 1))],
        1,
    );
    assert!(mentions(&nested, "T"));
    assert!(!mentions(&nested, "U"));
    assert!(mentions(&path(&["T", "A", "B"], Vec::new(), 1), "T"));
    assert!(!mentions(&path(&["a", "T"], Vec::new(), 1), "T"));
    assert!(mentions(&other(Form::Reference, vec![plain("T", 1)], 1), "T"));
    assert!(mentions(
        &other(Form::Tuple, vec![plain("u8", 1), other(Form::Slice, vec![plain("T", 1)], 1)], 1),
        "T"
    ));
    assert!(!mentions(&other(Form::BareFn, Vec::new(), 1), "T"));
    let binding = Arg {
        is_type: false,
        syntax: Ty::Other { form: Form::Undocumented, tokens: Vec::new(), inner: vec![plain("T", 1)] },
    };
    assert!(mentions(&path(&["Box"], vec![lifetime_arg("a", 1), binding], 1), "T"));
}

#[test]
fn a_parameter_inside_phantom_data_is_not_used() {
    let phantom = path(&["PhantomData"], vec![type_arg(plain("T", 1))], 1);
    assert!(!mentions(&phantom, "T"));
    let full = path(&["std", "marker", "PhantomData"], vec![type_arg(plain("T", 1))], 1);
    assert!(!mentions(&full, "T"));
    let boxed = path(
        &["Box"],
        vec![type_arg(path(&["PhantomData"], vec![type_arg(plain("T", 1))], 1))],
        1,
    );
    assert!(!mentions(&boxed, "T"));
    let both = other(
        Form::Tuple,
        vec![path(&["PhantomData"], vec![type_arg(plain("T", 1))], 1), plain("T", 2)],
        1,
    );
    assert!(mentions(&both, "T"));
}

#[test]
fn an_associated_type_is_no_use_of_the_parameter() {
    let params = vec![type_param("T", 1)];
    let assoc = path(&["T", "Assoc"], Vec::new(), 7);
    assert!(!mentions(&assoc, "T"));
    let mut found = Vec::new();
    collect(&params, &assoc, &mut found);
    assert_eq!(found, vec![vec![ident("T", 7), ident("Assoc", 7)]]);
    let mut found = vec![vec![word("before")]];
    let nested = path(
        &["Vec"],
        vec![
            type_arg(path(&["T", "A"], Vec::new(), 2)),
            type_arg(path(&["U", "B"], Vec::new(), 3)),
            type_arg(path(&["PhantomData"], vec![type_arg(path(&["T", "C"], Vec::new(), 4))], 5)),
            type_arg(other(Form::Reference, vec![path(&["T", "D"], Vec::new(), 6)], 8)),
        ],
        1,
    );
    collect(&params, &nested, &mut found);
    assert_eq!(
        found,
        vec![
            vec![word("before")],
            vec![ident("T", 2), ident("A", 2)],
            vec![ident("T", 6), ident("D", 6)],
        ]
    );
    let lifetime = GenericParam {
        kind: ParamKind::Lifetime,
        name: "T".to_string(),
        span: at(1),
        bounds: Vec::new(),
    };
    let mut found = Vec::new();
    collect(&vec![lifetime], &assoc, &mut found);
    assert!(found.is_empty());
}

#[test]
fn parameters_are_told_apart_by_kind_and_name() {
    let params = vec![
        GenericParam { kind: ParamKind::Lifetime, name: "a".to_string(), span: at(1), bounds: Vec::new() },
        type_param("T", 2),
        GenericParam { kind: ParamKind::Const, name: "N".to_string(), span: at(3), bounds: Vec::new() },
    ];
    assert!(names_type_param(&params, &"T".to_string()));
    assert!(!names_type_param(&params, &"a".to_string()));
    assert!(!names_type_param(&params, &"N".to_string()));
    assert!(!names_type_param(&params, &"U".to_string()));
    let fields = vec![
        field("x", plain("a", 1), Vec::new(), 1),
        field("y", plain("N", 1), Vec::new(), 1),
        field("z", path(&["Vec"], vec![type_arg(plain("T", 1))], 1), Vec::new(), 1),
    ];
    assert!(used_by_fields(&fields, "T"));
    assert!(!used_by_fields(&fields, "U"));
    assert!(!used_by_fields(&Vec::new(), "T"));
    assert_eq!(bounded(&params, &fields), vec![false, true, false]);
    assert_eq!(bounded(&params, &Vec::new()), vec![false, false, false]);
}

#[test]
fn predicates_are_found_once() {
    let params = vec![type_param("T", 1)];
    let fields = vec![
        field("a", path(&["T", "A"], Vec::new(), 1), Vec::new(), 1),
        field("b", path(&["T", "B"], Vec::new(), 2), Vec::new(), 1),
        field("c", path(&["T", "A"], Vec::new(), 3), Vec::new(), 1),
    ];
    let all = inferred(&params, &fields);
    assert_eq!(all.len(), 3);
    assert_eq!(
        distinct_paths(&all),
        vec![vec![ident("T", 1), ident("A", 1)], vec![ident("T", 2), ident("B", 2)]]
    );
    assert!(distinct_paths(&Vec::new()).is_empty());
}

#[test]
fn tokens_compare_without_their_places() {
    assert!(same_tree(&ident("a", 1), &ident("a", 2)));
    assert!(!same_tree(&ident("a", 1), &ident("b", 1)));
    assert!(!same_tree(&mark(':'), &joined(':')));
    assert!(!same_tree(&mark(':'), &mark(';')));
    let text = |s: &str| TokenTree::Literal { text: s.to_string(), span: at(1) };
    let value = |s: &str| TokenTree::Str { value: s.to_string(), span: at(2) };
    assert!(same_tree(&text("1"), &text("1")));
    assert!(!same_tree(&text("1"), &text("2")));
    assert!(!same_tree(&text("a"), &value("a")));
    assert!(!same_tree(&text("a"), &ident("a", 1)));
    assert!(same_tree(&value("a"), &value("a")));
    let a = group(Delimiter::Brace, vec![ident("x", 1), group(Delimiter::Bracket, vec![text("1")])]);
    let b = TokenTree::Group {
        delimiter: Delimiter::Brace,
        stream: vec![ident("x", 5), group(Delimiter::Bracket, vec![text("1")])],
        span: at(9),
    };
    let c = group(Delimiter::Brace, vec![ident("x", 1), group(Delimiter::Bracket, vec![text("2")])]);
    let d = group(Delimiter::Parenthesis, vec![ident("x", 1), group(Delimiter::Bracket, vec![text("1")])]);
    assert!(same_tree(&a, &b));
    assert!(!same_tree(&a, &c));
    assert!(!same_tree(&a, &d));
    assert!(same_stream(&vec![ident("a", 1), mark('.')], &vec![ident("a", 2), mark('.')]));
    assert!(!same_stream(&vec![ident("a", 1)], &vec![ident("a", 1), mark('.')]));
    assert!(same_stream(&Vec::new(), &Vec::new()));
}

#[test]
fn tokens_are_copied_whole() {
    let tree = TokenTree::Group {
        delimiter: Delimiter::Bracket,
        stream: vec![
            ident("a", 1),
            TokenTree::Punct { ch: '+', joint: true, span: at(2) },
            TokenTree::Literal { text: "1u8".to_string(), span: at(3) },
            TokenTree::Str { value: "s".to_string(), span: at(4) },
            TokenTree::Verbatim { source: "T: X".to_string(), span: at(5) },
            group(Delimiter::Invisible, vec![word("deep")]),
        ],
        span: at(6),
    };
    assert_eq!(copy_tree(&tree), tree);
    let stream = vec![copy_tree(&tree), word("after")];
    assert_eq!(copy_stream(&stream), stream);
}

#[test]
fn a_stream_is_written_piece_by_piece() {
    let mut inner = Stream::new();
    inner.text("lit", at(1));
    let mut out = Stream::new();
    assert!(out.trees.is_empty());
    out.word("impl");
    out.ident("Name", at(2));
    out.joined(':');
    out.mark(':');
    out.group(Delimiter::Parenthesis, inner);
    out.std2("fmt", "Debug");
    out.std3("option", "Option", "None");
    out.copy(&vec![ident("x", 3)]);
    let mut more = Stream::new();
    more.mark(';');
    out.extend(more);
    out.separated(&vec![vec![word("a")], vec![word("b"), word("c")], Vec::new()], '+');
    let mut expected = vec![
        word("impl"),
        ident("Name", 2),
        joined(':'),
        mark(':'),
        group(
            Delimiter::Parenthesis,
            vec![TokenTree::Str { value: "lit".to_string(), span: at(1) }],
        ),
    ];
    expected.extend(std2("fmt", "Debug"));
    expected.extend(std3("option", "Option", "None"));
    expected.extend([ident("x", 3), mark(';'), word("a"), mark('+'), word("b"), word("c"), mark('+')]);
    assert_eq!(out.trees, expected);
}

#[test]
fn numbers_are_read_in_decimal() {
    assert_eq!(read_number("0"), Some(0));
    assert_eq!(read_number("7"), Some(7));
    assert_eq!(read_number("0042"), Some(42));
    assert_eq!(read_number("1234567890"), Some(1234567890));
    assert_eq!(read_number("18446744073709551615"), Some(u64::MAX));
    assert_eq!(read_number("18446744073709551616"), None);
    assert_eq!(read_number("99999999999999999999"), None);
    assert_eq!(read_number("184467440737095516150"), None);
    for text in ["", " 1", "1 ", "+1", "-1", "1.0", "٣", "one", "1e3", "1f32", "1u", "1u7", "u8"] {
        assert_eq!(read_number(text), None, "{:?}", text);
    }
}

#[test]
fn numbers_are_read_in_every_form() {
    let cases = [
        ("1_000", 1000),
        ("1__", 1),
        ("0_0", 0),
        ("0x10", 16),
        ("0xff", 255),
        ("0xFF", 255),
        ("0xAbCdEf", 0xabcdef),
        ("0x_1_f_", 31),
        ("0o17", 15),
        ("0o_7", 7),
        ("0b1010", 10),
        ("0b_1", 1),
        ("1u8", 1),
        ("1i8", 1),
        ("12u16", 12),
        ("12i16", 12),
        ("12u32", 12),
        ("12i32", 12),
        ("12u64", 12),
        ("12i64", 12),
        ("12u128", 12),
        ("12i128", 12),
        ("12usize", 12),
        ("12isize", 12),
        ("1_u8", 1),
        ("0x1fu8", 31),
        ("0b1u8", 1),
        ("0x1f32", 0x1f32),
        ("0u8", 0),
        ("0xffff_ffff_ffff_ffff", u64::MAX),
        ("0o1777777777777777777777", u64::MAX),
        ("0b1111111111111111111111111111111111111111111111111111111111111111", u64::MAX),
    ];
    for (text, value) in cases {
        assert_eq!(read_number(text), Some(value), "{:?}", text);
    }
    for text in [
        "_1", "_", "0x", "0o", "0b", "0x_", "0b2", "0b12", "0o8", "0xg", "0X10", "0B1", "0O7",
        "0xu8", "0x1usize2", "1u8u8", "1 u8", "0x1_0000_0000_0000_0000",
        "0o2000000000000000000000", "0b10000000000000000000000000000000000000000000000000000000000000000",
        "0x-1", "x10", "0x1.0", "1foo", "1_f", "0b1f32",
    ] {
        assert_eq!(read_number(text), None, "{:?}", text);
    }
}

#[test]
fn numbers_are_written_in_decimal() {
    assert_eq!(write_number(0), "0");
    assert_eq!(write_number(9), "9");
    assert_eq!(write_number(10), "10");
    assert_eq!(write_number(1234567890), "1234567890");
    assert_eq!(write_number(u64::MAX), "18446744073709551615");
    for n in [0u64, 1, 99, 100, 101, 65535, u64::MAX - 1, u64::MAX] {
        assert_eq!(read_number(&write_number(n)), Some(n));
        assert_eq!(write_number(n), n.to_string());
    }
}

#[test]
fn the_variable_gives_way_to_the_number() {
    let number = |n: &str, place: u64| TokenTree::Literal { text: n.to_string(), span: at(place) };
    assert_eq!(substitute_tree(&ident("N", 3), "N", 12), number("12", 3));
    assert_eq!(substitute_tree(&ident("M", 3), "N", 12), ident("M", 3));
    assert_eq!(substitute_tree(&mark('+'), "N", 12), mark('+'));
    let text = TokenTree::Str { value: "N".to_string(), span: at(1) };
    assert_eq!(substitute_tree(&text, "N", 12), TokenTree::Str { value: "N".to_string(), span: at(1) });
    let verbatim = TokenTree::Verbatim { source: "N".to_string(), span: at(1) };
    assert_eq!(
        substitute_tree(&verbatim, "N", 12),
        TokenTree::Verbatim { source: "N".to_string(), span: at(1) }
    );
    let template = vec![
        ident("f", 1),
        TokenTree::Group {
            delimiter: Delimiter::Parenthesis,
            stream: vec![ident("N", 2), mark(','), group(Delimiter::Bracket, vec![ident("N", 3)])],
            span: at(4),
        },
    ];
    assert_eq!(
        substitute_stream(&template, "N", 0),
        vec![
            ident("f", 1),
            TokenTree::Group {
                delimiter: Delimiter::Parenthesis,
                stream: vec![number("0", 2), mark(','), group(Delimiter::Bracket, vec![number("0", 3)])],
                span: at(4),
            },
        ]
    );
    let data = |start: u64, end: u64, inclusive: bool| SeqData {
        ident: "N".to_string(),
        span: at(1),
        range: Range { start, end, inclusive },
        token_stream: vec![ident("N", 2), mark(';')],
    };
    assert_eq!(
        expand(&data(3, 5, false)),
        vec![number("3", 2), mark(';'), number("4", 2), mark(';')]
    );
    assert_eq!(
        expand(&data(3, 4, true)),
        vec![number("3", 2), mark(';'), number("4", 2), mark(';')]
    );
    assert!(expand(&data(4, 4, false)).is_empty());
    assert!(expand(&data(5, 4, true)).is_empty());
    assert_eq!(expand(&data(u64::MAX, u64::MAX, true)).len(), 2);
}

#[test]
fn a_field_is_printed_by_its_own_debug_or_a_format() {
    let default = entry(&field("name", plain("u8", 1), vec![bare("doc", 2)], 3)).unwrap();
    assert_eq!(default, Entry { name: "name".to_string(), span: at(3), format: None });
    let formatted =
        entry(&field("mask", plain("u8", 1), vec![name_value("debug", string("{:b}", 2), 4)], 3))
            .unwrap();
    assert_eq!(
        formatted,
        Entry { name: "mask".to_string(), span: at(3), format: Some(("{:b}".to_string(), at(2))) }
    );
    assert_eq!(
        emit_link(&default).trees,
        vec![
            mark('.'),
            word("field"),
            group(
                Delimiter::Parenthesis,
                vec![
                    TokenTree::Str { value: "name".to_string(), span: Span::CallSite },
                    mark(','),
                    mark('&'),
                    word("self"),
                    mark('.'),
                    ident("name", 3),
                ],
            ),
        ]
    );
    assert_eq!(
        emit_link(&formatted).trees,
        vec![
            mark('.'),
            word("field"),
            group(
                Delimiter::Parenthesis,
                vec![
                    TokenTree::Str { value: "mask".to_string(), span: Span::CallSite },
                    mark(','),
                    mark('&'),
                    joined(':'),
                    mark(':'),
                    word("std"),
                    joined(':'),
                    mark(':'),
                    word("format_args"),
                    mark('!'),
                    group(
                        Delimiter::Parenthesis,
                        vec![
                            TokenTree::Str { value: "{:b}".to_string(), span: at(2) },
                            mark(','),
                            word("self"),
                            mark('.'),
                            ident("mask", 3),
                        ],
                    ),
                ],
            ),
        ]
    );
}

#[test]
fn parameters_are_declared_with_their_bounds() {
    let t = GenericParam {
        kind: ParamKind::Type,
        name: "T".to_string(),
        span: at(1),
        bounds: vec![vec![word("Clone")], vec![word("Send")]],
    };
    let mut bound = vec![ident("T", 1), mark(':'), word("Clone"), mark('+'), word("Send"), mark('+')];
    bound.extend(std2("fmt", "Debug"));
    assert_eq!(emit_param_decl(&t, true).trees, bound);
    assert_eq!(
        emit_param_decl(&t, false).trees,
        vec![ident("T", 1), mark(':'), word("Clone"), mark('+'), word("Send")]
    );
    let u = type_param("U", 2);
    let mut bound = vec![ident("U", 2), mark(':')];
    bound.extend(std2("fmt", "Debug"));
    assert_eq!(emit_param_decl(&u, true).trees, bound);
    assert_eq!(emit_param_decl(&u, false).trees, vec![ident("U", 2)]);
    let a = GenericParam {
        kind: ParamKind::Lifetime,
        name: "a".to_string(),
        span: at(3),
        bounds: vec![vec![joined('\''), word("b")]],
    };
    assert_eq!(
        emit_param_decl(&a, false).trees,
        vec![joined('\''), ident("a", 3), mark(':'), joined('\''), word("b")]
    );
    let n = GenericParam {
        kind: ParamKind::Const,
        name: "N".to_string(),
        span: at(4),
        bounds: vec![vec![word("usize")]],
    };
    assert_eq!(
        emit_param_decl(&n, false).trees,
        vec![word("const"), ident("N", 4), mark(':'), word("usize")]
    );
    assert!(add_debug_trait_bounds(&Vec::new(), &Vec::new()).trees.is_empty());
    assert!(add_debug_trait_bounds(&Vec::new(), &vec![true]).trees.is_empty());
    let mut unmarked = vec![mark('<'), ident("U", 2), mark('>')];
    assert_eq!(add_debug_trait_bounds(&vec![type_param("U", 2)], &Vec::new()).trees, unmarked);
    unmarked.clear();
    let mut all = vec![mark('<'), joined('\''), ident("a", 3), mark(':'), joined('\''), word("b"), mark(',')];
    all.extend([ident("U", 2), mark(':')]);
    all.extend(std2("fmt", "Debug"));
    all.extend([mark(','), word("const"), ident("N", 4), mark(':'), word("usize"), mark('>')]);
    assert_eq!(add_debug_trait_bounds(&vec![a, u, n], &vec![false, true, false]).trees, all);
    assert!(emit_where(&Vec::new()).trees.is_empty());
    assert_eq!(
        emit_where(&vec![vec![word("a")], vec![word("b")]]).trees,
        vec![word("where"), word("a"), mark(','), word("b")]
    );
}

#[test]
fn a_method_is_named_by_an_identifier() {
    for name in ["arg", "Arg", "_x", "x1", "r#type", "r#fn", "ünïcode"] {
        assert!(can_name_method(name), "{:?}", name);
    }
    for name in [
        "", " ", "_", "1x", "a b", "a.b", "a::b", "a,", "fn", "type", "self", "Self", "a()",
        "(a)", "[a]", "{a}", "(", "((((((((", "a(", "\"a\"", "'a", "a;", "r#self",
    ] {
        assert!(!can_name_method(name), "{:?}", name);
    }
    let deep = "(".repeat(100_000) + "a";
    assert!(!can_name_method(&deep));
    for name in ["arg ", " arg", "\targ", "arg\n", "/* c */arg", "arg// c", "#!\nx", "arg /**/"] {
        assert!(!can_name_method(name), "{:?}", name);
    }
}

#[test]
fn keywords_are_kept_from_variables() {
    let kept = [
        "_", "abstract", "as", "become", "box", "break", "const", "continue", "crate", "do",
        "else", "enum", "extern", "false", "final", "fn", "for", "if", "impl", "in", "let", "loop",
        "macro", "match", "mod", "move", "mut", "override", "priv", "pub", "ref", "return", "Self",
        "self", "static", "struct", "super", "trait", "true", "type", "typeof", "unsafe", "unsized",
        "use", "virtual", "where", "while", "yield",
    ];
    for word in kept {
        assert!(is_reserved(&word.to_string()), "{}", word);
        assert_eq!(
            is_reserved(&word.to_string()),
            syn::parse_str::<syn::Ident>(word).is_err(),
            "{}",
            word
        );
    }
    for word in ["N", "i", "__", "_x", "r#fn", "Fn", "IN", "async", "await", "dyn", "try", "union", ""] {
        assert!(!is_reserved(&word.to_string()), "{}", word);
    }
}

#[test]
fn a_builder_starts_with_nothing_set() {
    let plans = vec![required_plan(), repeated_plan("arg", true)];
    let builder: Builder<u8> = Builder::new(&plans);
    assert_eq!(builder.slots.len(), 2);
    assert!(matches!(builder.slots[0], Slot::Single(None)));
    assert!(matches!(&builder.slots[1], Slot::Many(items) if items.is_empty()));
    match builder.build(&plans) {
        Err(message) => assert_eq!(message, "'exe' field has not been set"),
        Ok(_) => panic!("built from nothing"),
    }
    let none: Vec<FieldPlan> = Vec::new();
    let builder: Builder<u8> = Builder::new(&none);
    assert!(builder.build(&none).unwrap().is_empty());
}

#[test]
fn a_builder_keeps_what_it_is_given_last() {
    let plans = vec![required_plan(), repeated_plan("arg", true)];
    let mut builder: Builder<u8> = Builder::new(&plans);
    builder.store(0, 1);
    builder.store(0, 2);
    builder.extend(1, vec![7, 8]);
    builder.push(1, 9);
    builder.extend(1, Vec::new());
    let built = builder.build(&plans).unwrap();
    assert!(matches!(built[0], Built::Plain(2)));
    assert!(matches!(&built[1], Built::List(items) if *items == vec![7, 8, 9]));
}

#[test]
fn the_first_missing_field_is_reported() {
    let mut second = required_plan();
    second.name = "dir".to_string();
    let plans = vec![required_plan(), second];
    let builder: Builder<u8> = Builder::new(&plans);
    assert_eq!(builder.build(&plans).err(), Some("'exe' field has not been set".to_string()));
    let mut builder: Builder<u8> = Builder::new(&plans);
    builder.store(0, 1);
    assert_eq!(builder.build(&plans).err(), Some("'dir' field has not been set".to_string()));
    let mut builder: Builder<u8> = Builder::new(&plans);
    builder.store(1, 1);
    assert_eq!(builder.build(&plans).err(), Some("'exe' field has not been set".to_string()));
}

#[test]
fn a_struct_is_printed_with_its_fields() {
    let pair = |a: &str, b: &str| (a.to_string(), b.to_string());
    assert_eq!(print("Unit", &Vec::new()), "Unit");
    assert_eq!(print("One", &vec![pair("a", "1")]), "One { a: 1 }");
    assert_eq!(
        print("Three", &vec![pair("a", "1"), pair("b", "\"two\""), pair("c", "[3]")]),
        "Three { a: 1, b: \"two\", c: [3] }"
    );
}
