//! Which generic parameters a field's type needs a bound on: the walk over
//! the type as it was written.

use vstd::prelude::*;
use crate::model::{Arg, Field, GenericParam, ParamKind, Segment, Ty};
use crate::shape::{is_phantom_path, name_is, names_phantom, segment_names};
use crate::tokens::{
    copy_stream, same_stream, same_text, stream_view, streams_view, Tok, TokenTree,
};

verus! {

/// Whether a name is the name of one of the type parameters.
pub open spec fn is_type_param(params: Seq<GenericParam>, name: Seq<char>) -> bool {
    exists|i: int|
        0 <= i < params.len() && params[i].kind == ParamKind::Type && #[trigger] params[i].name@
            == name
}

/// Whether a path stands for an associated type of a type parameter: it has
/// exactly two segments, and the first is a type parameter.
pub open spec fn is_projection(params: Seq<GenericParam>, segments: Seq<Segment>) -> bool {
    segments.len() == 2 && is_type_param(params, segments[0].name@)
}

/// Whether a path begins with the given name and has one segment or more
/// than two.
pub open spec fn heads(segments: Seq<Segment>, name: Seq<char>) -> bool {
    segments.len() >= 1 && segments.len() != 2 && segments[0].name@ == name
}

/// Whether a type parameter is used by a type: whether its name begins a
/// path that is not the path of an associated type, anywhere in the type
/// but inside `PhantomData`.
pub open spec fn uses(ty: Ty, name: Seq<char>) -> bool
    decreases ty,
{
    match ty {
        Ty::Path { segments, .. } => !names_phantom(segment_names(segments@)) && (heads(
            segments@,
            name,
        ) || segments_use(segments@, name)),
        Ty::Other { inner, .. } => any_uses(inner@, name),
    }
}

/// Whether an argument of one of the segments uses the parameter.
pub open spec fn segments_use(segments: Seq<Segment>, name: Seq<char>) -> bool
    decreases segments,
{
    if segments.len() == 0 {
        false
    } else {
        segments_use(segments.drop_last(), name) || args_use(segments.last().args@, name)
    }
}

/// Whether one of the arguments uses the parameter.
pub open spec fn args_use(args: Seq<Arg>, name: Seq<char>) -> bool
    decreases args,
{
    if args.len() == 0 {
        false
    } else {
        args_use(args.drop_last(), name) || uses(args.last().syntax, name)
    }
}

/// Whether one of the types uses the parameter.
pub open spec fn any_uses(types: Seq<Ty>, name: Seq<char>) -> bool
    decreases types,
{
    if types.len() == 0 {
        false
    } else {
        any_uses(types.drop_last(), name) || uses(types.last(), name)
    }
}

/// The paths of associated types of type parameters in a type, as they
/// were written and in the order they were written in, the outer before
/// those in its arguments; nothing inside `PhantomData` counts.
pub open spec fn projections(params: Seq<GenericParam>, ty: Ty) -> Seq<Seq<Tok>>
    decreases ty,
{
    match ty {
        Ty::Path { tokens, segments } => if names_phantom(segment_names(segments@)) {
            Seq::empty()
        } else {
            (if is_projection(params, segments@) {
                seq![stream_view(tokens@)]
            } else {
                Seq::empty()
            }) + segments_projections(params, segments@)
        },
        Ty::Other { inner, .. } => all_projections(params, inner@),
    }
}

/// The projections in the arguments of the segments.
pub open spec fn segments_projections(params: Seq<GenericParam>, segments: Seq<Segment>) -> Seq<
    Seq<Tok>,
>
    decreases segments,
{
    if segments.len() == 0 {
        Seq::empty()
    } else {
        segments_projections(params, segments.drop_last()) + args_projections(
            params,
            segments.last().args@,
        )
    }
}

/// The projections in the arguments.
pub open spec fn args_projections(params: Seq<GenericParam>, args: Seq<Arg>) -> Seq<Seq<Tok>>
    decreases args,
{
    if args.len() == 0 {
        Seq::empty()
    } else {
        args_projections(params, args.drop_last()) + projections(params, args.last().syntax)
    }
}

/// The projections in the types.
pub open spec fn all_projections(params: Seq<GenericParam>, types: Seq<Ty>) -> Seq<Seq<Tok>>
    decreases types,
{
    if types.len() == 0 {
        Seq::empty()
    } else {
        all_projections(params, types.drop_last()) + projections(params, types.last())
    }
}

/// Whether a name is the name of one of the type parameters.
pub fn names_type_param(params: &Vec<GenericParam>, name: &String) -> (r: bool)
    ensures
        r == is_type_param(params@, name@),
{
    let mut i: usize = 0;
    while i < params.len()
        invariant
            i <= params.len(),
            forall|k: int|
                0 <= k < i ==> !(params@[k].kind == ParamKind::Type && #[trigger] params@[k].name@
                    == name@),
        decreases params.len() - i,
    {
        let is_type = match params[i].kind {
            ParamKind::Type => true,
            _ => false,
        };
        if is_type && params[i].name == *name {
            return true;
        }
        i += 1;
    }
    false
}

/// Whether a type uses a type parameter.
#[verifier::loop_isolation(false)]
pub fn mentions(ty: &Ty, name: &str) -> (r: bool)
    ensures
        r == uses(*ty, name@),
    decreases ty,
{
    match ty {
        Ty::Path { segments, .. } => {
            if is_phantom_path(segments) {
                return false;
            }
            if segments.len() >= 1 && segments.len() != 2 && name_is(&segments[0].name, name) {
                return true;
            }
            let mut i: usize = 0;
            assert(segments@.take(0) =~= Seq::<Segment>::empty());
            while i < segments.len()
                invariant
                    i <= segments.len(),
                    !segments_use(segments@.take(i as int), name@),
                decreases segments.len() - i,
            {
                let args = &segments[i].args;
                let mut j: usize = 0;
                assert(args@.take(0) =~= Seq::<Arg>::empty());
                while j < args.len()
                    invariant
                        j <= args.len(),
                        i < segments.len(),
                        args == &segments[i as int].args,
                        !segments_use(segments@.take(i as int), name@),
                        !args_use(args@.take(j as int), name@),
                    decreases args.len() - j,
                {
                    assert(args@.take(j + 1).drop_last() =~= args@.take(j as int));
                    if mentions(&args[j].syntax, name) {
                        proof {
                            lemma_args_use_grows(args@, j + 1, name@);
                            assert(segments@.take(i + 1).drop_last() =~= segments@.take(i as int));
                            lemma_segments_use_grows(segments@, i + 1, name@);
                        }
                        return true;
                    }
                    j += 1;
                }
                assert(args@.take(args.len() as int) =~= args@);
                assert(segments@.take(i + 1).drop_last() =~= segments@.take(i as int));
                i += 1;
            }
            assert(segments@.take(segments.len() as int) =~= segments@);
            false
        },
        Ty::Other { inner, .. } => {
            let mut k: usize = 0;
            assert(inner@.take(0) =~= Seq::<Ty>::empty());
            while k < inner.len()
                invariant
                    k <= inner.len(),
                    !any_uses(inner@.take(k as int), name@),
                decreases inner.len() - k,
            {
                assert(inner@.take(k + 1).drop_last() =~= inner@.take(k as int));
                if mentions(&inner[k], name) {
                    proof {
                        lemma_any_uses_grows(inner@, k + 1, name@);
                    }
                    return true;
                }
                k += 1;
            }
            assert(inner@.take(inner.len() as int) =~= inner@);
            false
        },
    }
}

/// A use among the first arguments is a use among all of them.
pub proof fn lemma_args_use_grows(args: Seq<Arg>, n: int, name: Seq<char>)
    requires
        0 <= n <= args.len(),
        args_use(args.take(n), name),
    ensures
        args_use(args, name),
    decreases args.len() - n,
{
    if n < args.len() {
        assert(args.take(n + 1).drop_last() =~= args.take(n));
        lemma_args_use_grows(args, n + 1, name);
    } else {
        assert(args.take(n) =~= args);
    }
}

/// A use among the first segments is a use among all of them.
pub proof fn lemma_segments_use_grows(segments: Seq<Segment>, n: int, name: Seq<char>)
    requires
        0 <= n <= segments.len(),
        segments_use(segments.take(n), name),
    ensures
        segments_use(segments, name),
    decreases segments.len() - n,
{
    if n < segments.len() {
        assert(segments.take(n + 1).drop_last() =~= segments.take(n));
        lemma_segments_use_grows(segments, n + 1, name);
    } else {
        assert(segments.take(n) =~= segments);
    }
}

/// A use among the first types is a use among all of them.
pub proof fn lemma_any_uses_grows(types: Seq<Ty>, n: int, name: Seq<char>)
    requires
        0 <= n <= types.len(),
        any_uses(types.take(n), name),
    ensures
        any_uses(types, name),
    decreases types.len() - n,
{
    if n < types.len() {
        assert(types.take(n + 1).drop_last() =~= types.take(n));
        lemma_any_uses_grows(types, n + 1, name);
    } else {
        assert(types.take(n) =~= types);
    }
}

/// The values of several runs with one more run at their end.
pub proof fn lemma_streams_view_push(a: Seq<Vec<TokenTree>>, t: Vec<TokenTree>)
    ensures
        streams_view(a.push(t)) == streams_view(a).push(stream_view(t@)),
{
    assert(streams_view(a.push(t)) =~= streams_view(a).push(stream_view(t@)));
}

/// Adds the projections in a type to those found so far.
#[verifier::loop_isolation(false)]
pub fn collect(params: &Vec<GenericParam>, ty: &Ty, found: &mut Vec<Vec<TokenTree>>)
    ensures
        streams_view(final(found)@) == streams_view(old(found)@) + projections(params@, *ty),
    decreases ty,
{
    let ghost before = streams_view(found@);
    match ty {
        Ty::Path { tokens, segments } => {
            if is_phantom_path(segments) {
                assert(before + Seq::<Seq<Tok>>::empty() =~= before);
                return ;
            }
            if segments.len() == 2 && names_type_param(params, &segments[0].name) {
                proof {
                    lemma_streams_view_push(found@, *tokens);
                }
                found.push(copy_stream(tokens));
            }
            let ghost own = if is_projection(params@, segments@) {
                seq![stream_view(tokens@)]
            } else {
                Seq::empty()
            };
            assert(streams_view(found@) =~= before + own);
            let mut i: usize = 0;
            assert(segments@.take(0) =~= Seq::<Segment>::empty());
            assert(before + own + Seq::<Seq<Tok>>::empty() =~= before + own);
            while i < segments.len()
                invariant
                    i <= segments.len(),
                    streams_view(found@) == before + own + segments_projections(
                        params@,
                        segments@.take(i as int),
                    ),
                decreases segments.len() - i,
            {
                let args = &segments[i].args;
                let ghost start = streams_view(found@);
                let mut j: usize = 0;
                assert(args@.take(0) =~= Seq::<Arg>::empty());
                assert(start + Seq::<Seq<Tok>>::empty() =~= start);
                while j < args.len()
                    invariant
                        j <= args.len(),
                        i < segments.len(),
                        args == &segments[i as int].args,
                        streams_view(found@) == start + args_projections(
                            params@,
                            args@.take(j as int),
                        ),
                    decreases args.len() - j,
                {
                    assert(args@.take(j + 1).drop_last() =~= args@.take(j as int));
                    collect(params, &args[j].syntax, found);
                    assert(streams_view(found@) =~= start + args_projections(
                        params@,
                        args@.take(j + 1),
                    ));
                    j += 1;
                }
                assert(args@.take(args.len() as int) =~= args@);
                assert(segments@.take(i + 1).drop_last() =~= segments@.take(i as int));
                assert(streams_view(found@) =~= before + own + segments_projections(
                    params@,
                    segments@.take(i + 1),
                ));
                i += 1;
            }
            assert(segments@.take(segments.len() as int) =~= segments@);
            assert(streams_view(found@) =~= before + projections(params@, *ty));
        },
        Ty::Other { inner, .. } => {
            let mut k: usize = 0;
            assert(inner@.take(0) =~= Seq::<Ty>::empty());
            assert(before + Seq::<Seq<Tok>>::empty() =~= before);
            while k < inner.len()
                invariant
                    k <= inner.len(),
                    streams_view(found@) == before + all_projections(params@, inner@.take(k as int)),
                decreases inner.len() - k,
            {
                assert(inner@.take(k + 1).drop_last() =~= inner@.take(k as int));
                collect(params, &inner[k], found);
                assert(streams_view(found@) =~= before + all_projections(
                    params@,
                    inner@.take(k + 1),
                ));
                k += 1;
            }
            assert(inner@.take(inner.len() as int) =~= inner@);
        },
    }
}

/// Whether the type of one of the fields uses the parameter.
pub open spec fn fields_use(fields: Seq<Field>, name: Seq<char>) -> bool
    decreases fields.len(),
{
    if fields.len() == 0 {
        false
    } else {
        fields_use(fields.drop_last(), name) || uses(fields.last().ty, name)
    }
}

/// The projections in the types of the fields, in the order of the fields.
pub open spec fn fields_projections(params: Seq<GenericParam>, fields: Seq<Field>) -> Seq<Seq<Tok>>
    decreases fields.len(),
{
    if fields.len() == 0 {
        Seq::empty()
    } else {
        fields_projections(params, fields.drop_last()) + projections(params, fields.last().ty)
    }
}

/// Whether a parameter gets the bound: it is a type parameter, and the type
/// of some field uses it.
pub open spec fn needs_bound(p: GenericParam, fields: Seq<Field>) -> bool {
    p.kind == ParamKind::Type && fields_use(fields, p.name@)
}

/// A use among the first fields is a use among all of them.
pub proof fn lemma_fields_use_grows(fields: Seq<Field>, n: int, name: Seq<char>)
    requires
        0 <= n <= fields.len(),
        fields_use(fields.take(n), name),
    ensures
        fields_use(fields, name),
    decreases fields.len() - n,
{
    if n < fields.len() {
        assert(fields.take(n + 1).drop_last() =~= fields.take(n));
        lemma_fields_use_grows(fields, n + 1, name);
    } else {
        assert(fields.take(n) =~= fields);
    }
}

/// Whether the type of one of the fields uses a type parameter.
pub fn used_by_fields(fields: &Vec<Field>, name: &str) -> (r: bool)
    ensures
        r == fields_use(fields@, name@),
{
    let mut i: usize = 0;
    assert(fields@.take(0) =~= Seq::<Field>::empty());
    while i < fields.len()
        invariant
            i <= fields.len(),
            !fields_use(fields@.take(i as int), name@),
        decreases fields.len() - i,
    {
        assert(fields@.take(i + 1).drop_last() =~= fields@.take(i as int));
        if mentions(&fields[i].ty, name) {
            proof {
                lemma_fields_use_grows(fields@, i + 1, name@);
            }
            return true;
        }
        i += 1;
    }
    assert(fields@.take(fields.len() as int) =~= fields@);
    false
}

/// Says of each parameter whether it gets the bound.
pub fn bounded(params: &Vec<GenericParam>, fields: &Vec<Field>) -> (r: Vec<bool>)
    ensures
        r@.len() == params@.len(),
        forall|i: int| 0 <= i < params@.len() ==> r@[i] == needs_bound(params@[i], fields@),
{
    let mut out: Vec<bool> = Vec::new();
    let mut i: usize = 0;
    while i < params.len()
        invariant
            i <= params.len(),
            out@.len() == i,
            forall|k: int| 0 <= k < i ==> out@[k] == needs_bound(params@[k], fields@),
        decreases params.len() - i,
    {
        let is_type = match params[i].kind {
            ParamKind::Type => true,
            _ => false,
        };
        let needs = is_type && used_by_fields(fields, params[i].name.as_str());
        out.push(needs);
        i += 1;
    }
    out
}

/// Finds the projections in the types of the fields.
pub fn inferred(params: &Vec<GenericParam>, fields: &Vec<Field>) -> (r: Vec<Vec<TokenTree>>)
    ensures
        streams_view(r@) == fields_projections(params@, fields@),
{
    let mut found: Vec<Vec<TokenTree>> = Vec::new();
    let mut i: usize = 0;
    assert(fields@.take(0) =~= Seq::<Field>::empty());
    assert(streams_view(found@) =~= Seq::<Seq<Tok>>::empty());
    while i < fields.len()
        invariant
            i <= fields.len(),
            streams_view(found@) == fields_projections(params@, fields@.take(i as int)),
        decreases fields.len() - i,
    {
        assert(fields@.take(i + 1).drop_last() =~= fields@.take(i as int));
        collect(params, &fields[i].ty, &mut found);
        i += 1;
    }
    assert(fields@.take(fields.len() as int) =~= fields@);
    found
}

/// Whether a type is a path that ends `std::marker::PhantomData`.
pub open spec fn is_phantom(ty: Ty) -> bool {
    ty matches Ty::Path { segments, .. } && names_phantom(segment_names(segments@))
}

/// Parameters that the fields name only inside `PhantomData` get no
/// bound, and no predicate is made for what stands there.
pub proof fn law_phantom_needs_no_bound(params: Seq<GenericParam>, fields: Seq<Field>, p: int)
    requires
        0 <= p < params.len(),
        forall|i: int| 0 <= i < fields.len() ==> is_phantom(#[trigger] fields[i].ty),
    ensures
        !needs_bound(params[p], fields),
        fields_projections(params, fields) == Seq::<Seq<Tok>>::empty(),
    decreases fields.len(),
{
    if fields.len() > 0 {
        let fewer = fields.drop_last();
        assert forall|i: int| 0 <= i < fewer.len() implies is_phantom(#[trigger] fewer[i].ty) by {
            assert(fewer[i] == fields[i]);
        }
        law_phantom_needs_no_bound(params, fewer, p);
        assert(is_phantom(fields[fields.len() - 1].ty));
        assert(fields_projections(params, fields) =~= Seq::<Seq<Tok>>::empty());
    }
}

/// Whether a type is the associated type of a type parameter, written as
/// the parameter's name and the type's name.
pub open spec fn is_associated(params: Seq<GenericParam>, ty: Ty) -> bool {
    &&& ty matches Ty::Path { segments, .. }
    &&& is_projection(params, segments@)
    &&& !names_phantom(segment_names(segments@))
    &&& segments@[0].args@.len() == 0
    &&& segments@[1].args@.len() == 0
}

/// An associated type of a type parameter gets a predicate for the path
/// as it was written, and the parameter itself is not used by it.
pub proof fn law_associated_type_bounds_the_path(
    params: Seq<GenericParam>,
    ty: Ty,
    name: Seq<char>,
)
    requires
        is_associated(params, ty),
    ensures
        !uses(ty, name),
        projections(params, ty) == seq![stream_view(ty.tokens()@)],
{
    let segments = ty->Path_segments@;
    let one = segments.drop_last();
    let none = one.drop_last();
    assert(none.len() == 0);
    assert(one.last() == segments[0]);
    assert(segments.last() == segments[1]);
    assert(!args_use(segments[0].args@, name));
    assert(!args_use(segments[1].args@, name));
    assert(!segments_use(none, name));
    assert(!segments_use(one, name));
    assert(!segments_use(segments, name));
    assert(args_projections(params, segments[0].args@) =~= Seq::<Seq<Tok>>::empty());
    assert(args_projections(params, segments[1].args@) =~= Seq::<Seq<Tok>>::empty());
    assert(segments_projections(params, none) =~= Seq::<Seq<Tok>>::empty());
    assert(segments_projections(params, one) =~= Seq::<Seq<Tok>>::empty());
    assert(segments_projections(params, segments) =~= Seq::<Seq<Tok>>::empty());
    assert(projections(params, ty) =~= seq![stream_view(ty.tokens()@)]);
}

/// Whether a run is, but for the places, one of the first `n` of the runs.
pub open spec fn seen(paths: Seq<Seq<Tok>>, n: int, path: Seq<Tok>) -> bool {
    exists|i: int| 0 <= i < n && i < paths.len() && same_text(#[trigger] paths[i], path)
}

/// The runs without those that, but for the places, came before: each
/// where it stands first.
pub open spec fn distinct(paths: Seq<Seq<Tok>>) -> Seq<Seq<Tok>>
    decreases paths.len(),
{
    if paths.len() == 0 {
        Seq::empty()
    } else if seen(paths, paths.len() - 1, paths.last()) {
        distinct(paths.drop_last())
    } else {
        distinct(paths.drop_last()).push(paths.last())
    }
}

/// Leaves out the runs that, but for the places, came before.
pub fn distinct_paths(paths: &Vec<Vec<TokenTree>>) -> (r: Vec<Vec<TokenTree>>)
    ensures
        streams_view(r@) == distinct(streams_view(paths@)),
{
    let ghost all = streams_view(paths@);
    let mut out: Vec<Vec<TokenTree>> = Vec::new();
    let mut i: usize = 0;
    proof {
        assert(all.take(0) =~= Seq::<Seq<Tok>>::empty());
        assert(streams_view(out@) =~= Seq::<Seq<Tok>>::empty());
    }
    while i < paths.len()
        invariant
            i <= paths.len(),
            all == streams_view(paths@),
            streams_view(out@) == distinct(all.take(i as int)),
        decreases paths.len() - i,
    {
        let mut found = false;
        let mut j: usize = 0;
        while j < i && !found
            invariant
                j <= i,
                i < paths.len(),
                all == streams_view(paths@),
                found ==> seen(all, i as int, all[i as int]),
                !found ==> !seen(all, j as int, all[i as int]),
            decreases i - j,
        {
            if same_stream(&paths[j], &paths[i]) {
                assert(same_text(all[j as int], all[i as int]));
                found = true;
            }
            j += 1;
        }
        proof {
            let prefix = all.take(i + 1);
            assert(prefix.drop_last() =~= all.take(i as int));
            assert(prefix.last() == all[i as int]);
            if seen(all, i as int, all[i as int]) {
                let k = choose|k: int|
                    0 <= k < i && k < all.len() && same_text(#[trigger] all[k], all[i as int]);
                assert(prefix[k] == all[k]);
                assert(seen(prefix, prefix.len() - 1, prefix.last()));
            }
            if seen(prefix, prefix.len() - 1, prefix.last()) {
                let k = choose|k: int|
                    0 <= k < prefix.len() - 1 && k < prefix.len() && same_text(
                        #[trigger] prefix[k],
                        prefix.last(),
                    );
                assert(prefix[k] == all[k]);
                assert(seen(all, i as int, all[i as int]));
            }
        }
        if !found {
            proof {
                lemma_streams_view_push(out@, paths@[i as int]);
            }
            let kept = copy_stream(&paths[i]);
            proof {
                lemma_streams_view_push(out@, kept);
            }
            out.push(kept);
        }
        i += 1;
    }
    proof {
        assert(all.take(paths.len() as int) =~= all);
    }
    out
}

} // verus!
