//! Classification of type expressions.
//!
//! Every decision looks only at the last path segment's identifier;
//! the full path prefix is kept for rendering but never consulted.

use crate::text::chars_eq_str;
use crate::types::{
    args_view, lemma_args_view, lemma_segs_view, segs_view, type_view, ArgView, ArgsView,
    GenericArg, PathArgs, PathSegment, SegView, TypeExpr, TypeView,
};
use vstd::prelude::*;

verus! {

/// The path is a single plain identifier equal to `name`.
pub open spec fn spec_path_is_ident(segs: Seq<SegView>, name: Seq<char>) -> bool {
    segs.len() == 1 && segs[0].ident == name && segs[0].args is Plain
}

/// The path's last segment is named `name`.
pub open spec fn spec_path_ends_with(segs: Seq<SegView>, name: Seq<char>) -> bool {
    segs.len() > 0 && segs.last().ident == name
}

/// The name of an unsigned integer primitive.
pub open spec fn spec_unsigned_name(s: Seq<char>) -> bool {
    s == "u8"@ || s == "u16"@ || s == "u32"@ || s == "u64"@ || s == "u128"@ || s == "usize"@
}

/// The name of a signed integer primitive.
pub open spec fn spec_signed_name(s: Seq<char>) -> bool {
    s == "i8"@ || s == "i16"@ || s == "i32"@ || s == "i64"@ || s == "i128"@ || s == "isize"@
}

/// The name of a floating point primitive.
pub open spec fn spec_float_name(s: Seq<char>) -> bool {
    s == "f32"@ || s == "f64"@
}

/// The name of a non-zero signed integer type.
pub open spec fn spec_nonzero_signed_name(s: Seq<char>) -> bool {
    s == "NonZeroIsize"@ || s == "NonZeroI8"@ || s == "NonZeroI16"@ || s == "NonZeroI32"@
        || s == "NonZeroI64"@ || s == "NonZeroI128"@
}

/// The name of a non-zero unsigned integer type.
pub open spec fn spec_nonzero_unsigned_name(s: Seq<char>) -> bool {
    s == "NonZeroUsize"@ || s == "NonZeroU8"@ || s == "NonZeroU16"@ || s == "NonZeroU32"@
        || s == "NonZeroU64"@ || s == "NonZeroU128"@
}

/// The name of a container constructed with `K::new(value)`.
pub open spec fn spec_container_name(s: Seq<char>) -> bool {
    s == "Box"@ || s == "Cell"@ || s == "RefCell"@ || s == "Arc"@ || s == "Rc"@ || s == "Mutex"@
}

/// The name of a collection that can be empty or built from an iterator.
pub open spec fn spec_collection_name(s: Seq<char>) -> bool {
    s == "BinaryHeap"@ || s == "BTreeSet"@ || s == "HashSet"@ || s == "LinkedList"@
        || s == "VecDeque"@
}

/// The path is a single plain unsigned integer name.
pub open spec fn spec_path_is_unsigned(segs: Seq<SegView>) -> bool {
    segs.len() == 1 && segs[0].args is Plain && spec_unsigned_name(segs[0].ident)
}

/// The path is a single plain signed integer name.
pub open spec fn spec_path_is_signed(segs: Seq<SegView>) -> bool {
    segs.len() == 1 && segs[0].args is Plain && spec_signed_name(segs[0].ident)
}

/// The path is a single plain floating point name.
pub open spec fn spec_path_is_float(segs: Seq<SegView>) -> bool {
    segs.len() == 1 && segs[0].args is Plain && spec_float_name(segs[0].ident)
}

/// The last segment names a non-zero signed integer type.
pub open spec fn spec_path_is_nonzero_signed(segs: Seq<SegView>) -> bool {
    segs.len() > 0 && spec_nonzero_signed_name(segs.last().ident)
}

/// The last segment names a non-zero unsigned integer type.
pub open spec fn spec_path_is_nonzero_unsigned(segs: Seq<SegView>) -> bool {
    segs.len() > 0 && spec_nonzero_unsigned_name(segs.last().ident)
}

/// If the path ends in `name`, its first generic argument, provided
/// that argument is a type.
pub open spec fn spec_first_type_arg(segs: Seq<SegView>, name: Seq<char>) -> Option<TypeView> {
    if segs.len() > 0 && segs.last().ident == name {
        match segs.last().args {
            ArgsView::Angle(args) => if args.len() > 0 {
                match args[0] {
                    ArgView::TypeArg(b) => Some(*b),
                    _ => None,
                }
            } else {
                None
            },
            ArgsView::Plain => None,
        }
    } else {
        None
    }
}

/// The last segment's single type argument, if its argument list is
/// angle-bracketed and holds exactly one argument, which is a type.
pub open spec fn spec_single_type_arg(segs: Seq<SegView>) -> Option<(Seq<char>, TypeView)> {
    if segs.len() > 0 {
        match segs.last().args {
            ArgsView::Angle(args) => if args.len() == 1 {
                match args[0] {
                    ArgView::TypeArg(b) => Some((segs.last().ident, *b)),
                    _ => None,
                }
            } else {
                None
            },
            ArgsView::Plain => None,
        }
    } else {
        None
    }
}

/// A known container with exactly one type argument.
pub open spec fn spec_known_container(segs: Seq<SegView>) -> Option<(Seq<char>, TypeView)> {
    if segs.len() > 0 && spec_container_name(segs.last().ident) {
        spec_single_type_arg(segs)
    } else {
        None
    }
}

/// A known collection with exactly one type argument.
pub open spec fn spec_known_collection(segs: Seq<SegView>) -> Option<(Seq<char>, TypeView)> {
    if segs.len() > 0 && spec_collection_name(segs.last().ident) {
        spec_single_type_arg(segs)
    } else {
        None
    }
}

/// How many of the arguments are type arguments.
pub open spec fn spec_type_arg_count(args: Seq<ArgView>) -> nat
    decreases args,
{
    if args.len() == 0 {
        0
    } else {
        spec_type_arg_count(args.drop_last()) + if args.last() is TypeArg {
            1nat
        } else {
            0nat
        }
    }
}

/// The first type argument among the arguments.
pub open spec fn spec_first_type_arg_in(args: Seq<ArgView>) -> Option<TypeView>
    decreases args,
{
    if args.len() == 0 {
        None
    } else {
        match spec_first_type_arg_in(args.drop_last()) {
            Some(t) => Some(t),
            None => match args.last() {
                ArgView::TypeArg(b) => Some(*b),
                _ => None,
            },
        }
    }
}

/// The first type argument is structurally inside the argument list.
pub proof fn lemma_first_type_arg_in_smaller(args: Seq<ArgView>)
    requires
        spec_first_type_arg_in(args) is Some,
    ensures
        decreases_to!(args => spec_first_type_arg_in(args).unwrap()),
    decreases args,
{
    let r = spec_first_type_arg_in(args).unwrap();
    if spec_first_type_arg_in(args.drop_last()) is Some {
        lemma_first_type_arg_in_smaller(args.drop_last());
        assert(args.drop_last() == args.subrange(0, args.len() - 1));
        assert(decreases_to!(args => args.drop_last()));
    } else {
        let l = args.last();
        assert(decreases_to!(args => l));
        assert(l matches ArgView::TypeArg(b) && *b == r);
        assert(l->TypeArg_0 == Box::new(r));
        assert(decreases_to!(l => l->TypeArg_0));
    }
}

/// There is a first type argument exactly when the count is positive.
pub proof fn lemma_count_first_pub(args: Seq<ArgView>)
    ensures
        spec_first_type_arg_in(args) is Some <==> spec_type_arg_count(args) > 0,
    decreases args,
{
    if args.len() > 0 {
        lemma_count_first_pub(args.drop_last());
    }
}

/// The last segment's identifier and its only type argument, ignoring
/// lifetime and other arguments.
pub open spec fn spec_maybe_collection_or_container(segs: Seq<SegView>) -> Option<
    (Seq<char>, TypeView),
> {
    if segs.len() > 0 {
        match segs.last().args {
            ArgsView::Angle(args) => if spec_type_arg_count(args) == 1 {
                Some((segs.last().ident, spec_first_type_arg_in(args).unwrap()))
            } else {
                None
            },
            ArgsView::Plain => None,
        }
    } else {
        None
    }
}

fn is_unsigned_name(id: &Vec<char>) -> (r: bool)
    ensures
        r == spec_unsigned_name(id@),
{
    chars_eq_str(id, "u8") || chars_eq_str(id, "u16") || chars_eq_str(id, "u32") || chars_eq_str(
        id,
        "u64",
    ) || chars_eq_str(id, "u128") || chars_eq_str(id, "usize")
}

fn is_signed_name(id: &Vec<char>) -> (r: bool)
    ensures
        r == spec_signed_name(id@),
{
    chars_eq_str(id, "i8") || chars_eq_str(id, "i16") || chars_eq_str(id, "i32") || chars_eq_str(
        id,
        "i64",
    ) || chars_eq_str(id, "i128") || chars_eq_str(id, "isize")
}

fn is_float_name(id: &Vec<char>) -> (r: bool)
    ensures
        r == spec_float_name(id@),
{
    chars_eq_str(id, "f32") || chars_eq_str(id, "f64")
}

fn is_nonzero_signed_name(id: &Vec<char>) -> (r: bool)
    ensures
        r == spec_nonzero_signed_name(id@),
{
    chars_eq_str(id, "NonZeroIsize") || chars_eq_str(id, "NonZeroI8") || chars_eq_str(
        id,
        "NonZeroI16",
    ) || chars_eq_str(id, "NonZeroI32") || chars_eq_str(id, "NonZeroI64") || chars_eq_str(
        id,
        "NonZeroI128",
    )
}

fn is_nonzero_unsigned_name(id: &Vec<char>) -> (r: bool)
    ensures
        r == spec_nonzero_unsigned_name(id@),
{
    chars_eq_str(id, "NonZeroUsize") || chars_eq_str(id, "NonZeroU8") || chars_eq_str(
        id,
        "NonZeroU16",
    ) || chars_eq_str(id, "NonZeroU32") || chars_eq_str(id, "NonZeroU64") || chars_eq_str(
        id,
        "NonZeroU128",
    )
}

fn is_container_name(id: &Vec<char>) -> (r: bool)
    ensures
        r == spec_container_name(id@),
{
    chars_eq_str(id, "Box") || chars_eq_str(id, "Cell") || chars_eq_str(id, "RefCell")
        || chars_eq_str(id, "Arc") || chars_eq_str(id, "Rc") || chars_eq_str(id, "Mutex")
}

fn is_collection_name(id: &Vec<char>) -> (r: bool)
    ensures
        r == spec_collection_name(id@),
{
    chars_eq_str(id, "BinaryHeap") || chars_eq_str(id, "BTreeSet") || chars_eq_str(id, "HashSet")
        || chars_eq_str(id, "LinkedList") || chars_eq_str(id, "VecDeque")
}

/// The path is exactly one plain segment with the given name.
pub fn path_is_single_ident(path: &Vec<PathSegment>, name: &str) -> (r: bool)
    ensures
        r == spec_path_is_ident(segs_view(path@), name@),
{
    proof {
        lemma_segs_view(path@);
    }
    if path.len() != 1 {
        return false;
    }
    let seg = &path[0];
    match &seg.args {
        PathArgs::Plain => chars_eq_str(&seg.ident, name),
        PathArgs::Angle(_) => false,
    }
}

/// True if the path's last segment is named `ident`.
pub fn path_ends_with(path: &Vec<PathSegment>, ident: &str) -> (r: bool)
    ensures
        r == spec_path_ends_with(segs_view(path@), ident@),
{
    proof {
        lemma_segs_view(path@);
    }
    if path.len() == 0 {
        return false;
    }
    chars_eq_str(&path[path.len() - 1].ident, ident)
}

/// True if the path is a bare floating point primitive name.
pub fn path_is_float(path: &Vec<PathSegment>) -> (r: bool)
    ensures
        r == spec_path_is_float(segs_view(path@)),
{
    proof {
        lemma_segs_view(path@);
    }
    if path.len() != 1 {
        return false;
    }
    let seg = &path[0];
    match &seg.args {
        PathArgs::Plain => is_float_name(&seg.ident),
        PathArgs::Angle(_) => false,
    }
}

/// True if the path is a bare unsigned integer primitive name.
pub fn path_is_unsigned(path: &Vec<PathSegment>) -> (r: bool)
    ensures
        r == spec_path_is_unsigned(segs_view(path@)),
{
    proof {
        lemma_segs_view(path@);
    }
    if path.len() != 1 {
        return false;
    }
    let seg = &path[0];
    match &seg.args {
        PathArgs::Plain => is_unsigned_name(&seg.ident),
        PathArgs::Angle(_) => false,
    }
}

/// True if the path is a bare signed integer primitive name.
pub fn path_is_signed(path: &Vec<PathSegment>) -> (r: bool)
    ensures
        r == spec_path_is_signed(segs_view(path@)),
{
    proof {
        lemma_segs_view(path@);
    }
    if path.len() != 1 {
        return false;
    }
    let seg = &path[0];
    match &seg.args {
        PathArgs::Plain => is_signed_name(&seg.ident),
        PathArgs::Angle(_) => false,
    }
}

/// True if the path's last segment is a non-zero signed integer type.
pub fn path_is_nonzero_signed(path: &Vec<PathSegment>) -> (r: bool)
    ensures
        r == spec_path_is_nonzero_signed(segs_view(path@)),
{
    proof {
        lemma_segs_view(path@);
    }
    if path.len() == 0 {
        return false;
    }
    is_nonzero_signed_name(&path[path.len() - 1].ident)
}

/// True if the path's last segment is a non-zero unsigned integer type.
pub fn path_is_nonzero_unsigned(path: &Vec<PathSegment>) -> (r: bool)
    ensures
        r == spec_path_is_nonzero_unsigned(segs_view(path@)),
{
    proof {
        lemma_segs_view(path@);
    }
    if path.len() == 0 {
        return false;
    }
    is_nonzero_unsigned_name(&path[path.len() - 1].ident)
}

/// If this is a path ending in `expected`, return the first type argument.
pub fn match_first_type_arg<'p>(path: &'p Vec<PathSegment>, expected: &str) -> (r: Option<
    &'p TypeExpr,
>)
    ensures
        r is Some <==> spec_first_type_arg(segs_view(path@), expected@) is Some,
        r matches Some(inner) ==> spec_first_type_arg(segs_view(path@), expected@) == Some(
            type_view(*inner),
        ),
        r matches Some(inner) ==> decreases_to!(TypeView::Path(segs_view(path@)) => type_view(
            *inner,
        )),
{
    proof {
        lemma_segs_view(path@);
    }
    if path.len() == 0 {
        return None;
    }
    let last = &path[path.len() - 1];
    if !chars_eq_str(&last.ident, expected) {
        return None;
    }
    match &last.args {
        PathArgs::Plain => None,
        PathArgs::Angle(args) => {
            proof {
                lemma_args_view(args@);
            }
            if args.len() == 0 {
                return None;
            }
            match &args[0] {
                GenericArg::TypeArg(t) => {
                    proof {
                        let segs = segs_view(path@);
                        let sv = segs.last();
                        let av = args_view(args@);
                        assert(decreases_to!(segs => sv));
                        assert(decreases_to!(sv => av));
                        assert(decreases_to!(av => av[0]));
                        assert(decreases_to!(av[0] => type_view(**t)));
                        let p = TypeView::Path(segs);
                        assert(p->Path_0 == segs);
                        assert(decreases_to!(p => p->Path_0));
                    }
                    Some(&**t)
                },
                _ => None,
            }
        },
    }
}

fn single_type_arg<'p>(path: &'p Vec<PathSegment>) -> (r: Option<(&'p Vec<char>, &'p TypeExpr)>)
    requires
        path@.len() > 0,
    ensures
        r is Some <==> spec_single_type_arg(segs_view(path@)) is Some,
        r matches Some((name, inner)) ==> spec_single_type_arg(segs_view(path@)) == Some(
            (name@, type_view(*inner)),
        ),
        r matches Some((name, inner)) ==> decreases_to!(TypeView::Path(segs_view(path@))
            => type_view(*inner)),
{
    proof {
        lemma_segs_view(path@);
    }
    let last = &path[path.len() - 1];
    match &last.args {
        PathArgs::Plain => None,
        PathArgs::Angle(args) => {
            proof {
                lemma_args_view(args@);
            }
            if args.len() != 1 {
                return None;
            }
            match &args[0] {
                GenericArg::TypeArg(t) => {
                    proof {
                        let segs = segs_view(path@);
                        let sv = segs.last();
                        let av = args_view(args@);
                        assert(decreases_to!(segs => sv));
                        assert(decreases_to!(sv => av));
                        assert(decreases_to!(av => av[0]));
                        assert(decreases_to!(av[0] => type_view(**t)));
                        let p = TypeView::Path(segs);
                        assert(p->Path_0 == segs);
                        assert(decreases_to!(p => p->Path_0));
                    }
                    Some((&last.ident, &**t))
                },
                _ => None,
            }
        },
    }
}

/// A container like `Box`, `Arc` or `Mutex` with one type argument,
/// constructible with `K::new(inner_value)`. Returns the short name
/// and the inner type.
pub fn known_container<'p>(path: &'p Vec<PathSegment>) -> (r: Option<(&'p Vec<char>, &'p TypeExpr)>)
    ensures
        r is Some <==> spec_known_container(segs_view(path@)) is Some,
        r matches Some((name, inner)) ==> spec_known_container(segs_view(path@)) == Some(
            (name@, type_view(*inner)),
        ),
        r matches Some((name, inner)) ==> decreases_to!(TypeView::Path(segs_view(path@))
            => type_view(*inner)),
{
    proof {
        lemma_segs_view(path@);
    }
    if path.len() == 0 {
        return None;
    }
    if !is_container_name(&path[path.len() - 1].ident) {
        return None;
    }
    single_type_arg(path)
}

/// A known simple collection that can be empty or constructed from an
/// iterator, with one type argument.
pub fn known_collection<'p>(path: &'p Vec<PathSegment>) -> (r: Option<
    (&'p Vec<char>, &'p TypeExpr),
>)
    ensures
        r is Some <==> spec_known_collection(segs_view(path@)) is Some,
        r matches Some((name, inner)) ==> spec_known_collection(segs_view(path@)) == Some(
            (name@, type_view(*inner)),
        ),
        r matches Some((name, inner)) ==> decreases_to!(TypeView::Path(segs_view(path@))
            => type_view(*inner)),
{
    proof {
        lemma_segs_view(path@);
    }
    if path.len() == 0 {
        return None;
    }
    if !is_collection_name(&path[path.len() - 1].ident) {
        return None;
    }
    single_type_arg(path)
}

/// A path whose last segment has exactly one type argument among its
/// generic arguments, which might be a container or collection we do
/// not otherwise know (for example `Cow<'static, str>`).
pub fn maybe_collection_or_container<'p>(path: &'p Vec<PathSegment>) -> (r: Option<
    (&'p Vec<char>, &'p TypeExpr),
>)
    ensures
        r is Some <==> spec_maybe_collection_or_container(segs_view(path@)) is Some,
        r matches Some((name, inner)) ==> spec_maybe_collection_or_container(segs_view(path@))
            == Some((name@, type_view(*inner))),
        r matches Some((name, inner)) ==> decreases_to!(TypeView::Path(segs_view(path@))
            => type_view(*inner)),
{
    proof {
        lemma_segs_view(path@);
    }
    if path.len() == 0 {
        return None;
    }
    let last = &path[path.len() - 1];
    let ghost segs = segs_view(path@);
    match &last.args {
        PathArgs::Plain => None,
        PathArgs::Angle(args) => {
            proof {
                lemma_args_view(args@);
            }
            let ghost av = args_view(args@);
            let n = args.len();
            let mut count: usize = 0;
            let mut found: Option<&'p TypeExpr> = None;
            let mut j: usize = 0;
            while j < n
                invariant
                    j <= n,
                    n == args.len(),
                    av == args_view(args@),
                    av.len() == n,
                    forall|k: int| 0 <= k < n ==> av[k] == crate::types::arg_view(args@[k]),
                    count <= j,
                    count == spec_type_arg_count(av.take(j as int)),
                    found is Some <==> spec_first_type_arg_in(av.take(j as int)) is Some,
                    found matches Some(f) ==> spec_first_type_arg_in(av.take(j as int)) == Some(
                        type_view(*f),
                    ),
                    found matches Some(f) ==> decreases_to!(TypeView::Path(segs) => type_view(*f)),
                    segs == segs_view(path@),
                    path@.len() > 0,
                    *last == path@[path@.len() - 1],
                    last.args matches PathArgs::Angle(a) && a@ == args@,
                decreases n - j,
            {
                proof {
                    assert(av.take(j + 1).drop_last() =~= av.take(j as int));
                    assert(av.take(j + 1).last() == av[j as int]);
                }
                match &args[j] {
                    GenericArg::TypeArg(t) => {
                        count += 1;
                        if found.is_none() {
                            proof {
                                lemma_segs_view(path@);
                                lemma_args_view(args@);
                                let sv = segs.last();
                                assert(sv == crate::types::seg_view(path@[path@.len() - 1]));
                                assert(sv.args == ArgsView::Angle(av));
                                assert(decreases_to!(segs => sv));
                                assert(decreases_to!(sv => sv.args));
                                assert(sv.args->Angle_0 == av);
                                assert(decreases_to!(sv.args => av));
                                assert(decreases_to!(av => av[j as int]));
                                assert(av[j as int] == crate::types::arg_view(args@[j as int]));
                                let avj = av[j as int];
                                assert(avj == ArgView::TypeArg(Box::new(type_view(**t))));
                                assert(avj->TypeArg_0 == Box::new(type_view(**t)));
                                assert(decreases_to!(avj => avj->TypeArg_0));
                                assert(decreases_to!(av[j as int] => type_view(**t)));
                                let p = TypeView::Path(segs);
                                assert(p->Path_0 == segs);
                                assert(decreases_to!(p => p->Path_0));
                            }
                            found = Some(&**t);
                        }
                    },
                    _ => (),
                }
                j += 1;
            }
            proof {
                assert(av.take(n as int) =~= av);
                lemma_count_first_pub(av);
            }
            if count == 1 {
                match found {
                    Some(inner) => Some((&last.ident, inner)),
                    None => None,
                }
            } else {
                None
            }
        },
    }
}

/// If this looks like `Result<T, E>` (with `Result` possibly behind a
/// module path), return `T`.
pub fn result_ok_type<'p>(path: &'p Vec<PathSegment>) -> (r: Option<&'p TypeExpr>)
    ensures
        r is Some <==> spec_first_type_arg(segs_view(path@), "Result"@) is Some,
        r matches Some(inner) ==> spec_first_type_arg(segs_view(path@), "Result"@) == Some(
            type_view(*inner),
        ),
        r matches Some(inner) ==> decreases_to!(TypeView::Path(segs_view(path@)) => type_view(
            *inner,
        )),
{
    match_first_type_arg(path, "Result")
}

} // verus!
