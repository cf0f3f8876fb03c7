//! Telling the wrapper types apart by the way a field's type is written.

use vstd::prelude::*;
use crate::model::{Arg, Form, Segment, Ty};

verus! {

/// What a field's type is, as far as the generators care.
#[derive(Debug, PartialEq, Eq)]
pub enum Shape<'a> {
    /// `Option<T>`, with `T`.
    Optional(&'a Ty),
    /// `Vec<T>`, with `T`.
    Vector(&'a Ty),
    /// `PhantomData<..>`, with the first of its arguments.
    Phantom(&'a Arg),
    /// Anything else.
    Plain,
}

/// The names of a path's segments, in order.
pub open spec fn segment_names(segments: Seq<Segment>) -> Seq<Seq<char>> {
    Seq::new(segments.len(), |i: int| segments[i].name@)
}

/// The path that `PhantomData` is known under in full.
pub open spec fn phantom_full_path() -> Seq<Seq<char>> {
    seq!["std"@, "marker"@, "PhantomData"@]
}

/// Whether the names are the end of `std::marker::PhantomData`: the last
/// name alone, the last two, or all three.
pub open spec fn names_phantom(names: Seq<Seq<char>>) -> bool {
    1 <= names.len() <= 3 && names == phantom_full_path().subrange(3 - names.len(), 3)
}

/// The one argument of a segment, where it has exactly one and that is a type.
pub open spec fn lone_type_arg(seg: Segment) -> Option<Ty> {
    if seg.args@.len() == 1 && seg.args@[0].is_type {
        Some(seg.args@[0].syntax)
    } else {
        None
    }
}

/// The shape of a type. A wrapper is known by the name of the path's last
/// segment. `Option` and `Vec` must carry a single type argument, and
/// whatever stands before them is not looked at; `PhantomData` must carry
/// at least one argument, and may only be preceded by the rest of its full
/// path.
pub open spec fn shape_of<'a>(ty: &'a Ty) -> Shape<'a> {
    match ty {
        Ty::Path { segments, .. } => {
            if segments@.len() == 0 {
                Shape::Plain
            } else {
                let last = segments@.last();
                if last.name@ == "Option"@ && lone_type_arg(last) is Some {
                    Shape::Optional(&last.args@[0].syntax)
                } else if last.name@ == "Vec"@ && lone_type_arg(last) is Some {
                    Shape::Vector(&last.args@[0].syntax)
                } else if names_phantom(segment_names(segments@)) && last.args@.len() >= 1 {
                    Shape::Phantom(&last.args@[0])
                } else {
                    Shape::Plain
                }
            }
        },
        Ty::Other { .. } => Shape::Plain,
    }
}

/// Whether a name is the given text.
pub fn name_is(name: &String, text: &str) -> (r: bool)
    ensures
        r == (name@ == text@),
{
    let other: String = text.to_owned();
    *name == other
}

/// Whether the path made of these segments is the end of
/// `std::marker::PhantomData`.
pub fn is_phantom_path(segments: &Vec<Segment>) -> (r: bool)
    ensures
        r == names_phantom(segment_names(segments@)),
{
    let n = segments.len();
    let ghost names = segment_names(segments@);
    let ghost full = phantom_full_path();
    let ghost tail = full.subrange(3 - names.len(), 3);
    assert(full.len() == 3 && full[0] == "std"@ && full[1] == "marker"@ && full[2]
        == "PhantomData"@);
    if n == 1 {
        let r = name_is(&segments[0].name, "PhantomData");
        assert(tail.len() == 1 && tail[0] == full[2]);
        assert(names[0] == segments[0].name@);
        assert(r == (names =~= tail));
        r
    } else if n == 2 {
        let r = name_is(&segments[0].name, "marker") && name_is(&segments[1].name, "PhantomData");
        assert(tail.len() == 2 && tail[0] == full[1] && tail[1] == full[2]);
        assert(names[0] == segments[0].name@ && names[1] == segments[1].name@);
        assert(r == (names =~= tail));
        r
    } else if n == 3 {
        let r = name_is(&segments[0].name, "std") && name_is(&segments[1].name, "marker")
            && name_is(&segments[2].name, "PhantomData");
        assert(tail.len() == 3 && tail[0] == full[0] && tail[1] == full[1] && tail[2] == full[2]);
        assert(names[0] == segments[0].name@ && names[1] == segments[1].name@ && names[2]
            == segments[2].name@);
        assert(r == (names =~= tail));
        r
    } else {
        false
    }
}

/// Classifies a type as `Option<T>`, `Vec<T>`, `PhantomData<T>` or plain.
pub fn classify<'a>(ty: &'a Ty) -> (r: Shape<'a>)
    ensures
        r == shape_of(ty),
{
    match ty {
        Ty::Path { segments, .. } => {
            if segments.len() == 0 {
                return Shape::Plain;
            }
            let last = &segments[segments.len() - 1];
            let lone = last.args.len() == 1 && last.args[0].is_type;
            if lone && name_is(&last.name, "Option") {
                Shape::Optional(&last.args[0].syntax)
            } else if lone && name_is(&last.name, "Vec") {
                Shape::Vector(&last.args[0].syntax)
            } else if last.args.len() >= 1 && is_phantom_path(segments) {
                Shape::Phantom(&last.args[0])
            } else {
                Shape::Plain
            }
        },
        Ty::Other { .. } => Shape::Plain,
    }
}

/// The first argument of `PhantomData<..>`, where a type is a path that
/// ends `std::marker::PhantomData` and has an argument.
pub open spec fn phantom_argument<'a>(ty: &'a Ty) -> Option<&'a Arg> {
    match shape_of(ty) {
        Shape::Phantom(inner) => Some(inner),
        _ => None,
    }
}

/// Finds the first argument of `PhantomData<..>`, where a type is that.
pub fn phantom_generic_argument<'a>(ty: &'a Ty) -> (r: Option<&'a Arg>)
    ensures
        r == phantom_argument(ty),
{
    match classify(ty) {
        Shape::Phantom(inner) => Some(inner),
        _ => None,
    }
}

/// The name of a type's form.
pub open spec fn form_name(ty: Ty) -> Seq<char> {
    match ty {
        Ty::Path { .. } => "path"@,
        Ty::Other { form, .. } => match form {
            Form::Path => "path"@,
            Form::Array => "array"@,
            Form::BareFn => "bare_fn"@,
            Form::Group => "group"@,
            Form::ImplTrait => "impl_trait"@,
            Form::Infer => "infer"@,
            Form::Macro => "macro"@,
            Form::Never => "never"@,
            Form::Paren => "paren"@,
            Form::Ptr => "ptr"@,
            Form::Reference => "reference"@,
            Form::Slice => "slice"@,
            Form::TraitObject => "trait_object"@,
            Form::Tuple => "tuple"@,
            Form::Verbatim => "verbatim"@,
            Form::Undocumented => "undocumented"@,
        },
    }
}

/// Names the form of a type.
pub fn type_type_as_str(ty: &Ty) -> (r: &'static str)
    ensures
        r@ == form_name(*ty),
{
    match ty {
        Ty::Path { .. } => "path",
        Ty::Other { form, .. } => match form {
            Form::Path => "path",
            Form::Array => "array",
            Form::BareFn => "bare_fn",
            Form::Group => "group",
            Form::ImplTrait => "impl_trait",
            Form::Infer => "infer",
            Form::Macro => "macro",
            Form::Never => "never",
            Form::Paren => "paren",
            Form::Ptr => "ptr",
            Form::Reference => "reference",
            Form::Slice => "slice",
            Form::TraitObject => "trait_object",
            Form::Tuple => "tuple",
            Form::Verbatim => "verbatim",
            Form::Undocumented => "undocumented",
        },
    }
}

} // verus!
