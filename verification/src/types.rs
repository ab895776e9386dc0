//! Model of type expressions, and their classification.
//!
//! Only the shape that the synthesizer consults is kept: path
//! segments with their generic arguments, references, arrays, tuples
//! and the never type. Anything else is carried as raw tokens.

use crate::text::{chars_to_string, push_chars, str_to_chars};
use crate::token::{
    append_tokens, clone_chars, clone_tokens, lemma_tokens_view, pretty_chars, spec_pretty,
    tokens_view, Delim, TokView, Token,
};
use vstd::prelude::*;

verus! {

/// One generic argument of a path segment.
pub enum GenericArg {
    /// A type argument.
    TypeArg(Box<TypeExpr>),
    /// A lifetime argument, stored without the leading quote.
    LifetimeArg(Vec<char>),
    /// Any other argument (a const expression, a binding), as tokens.
    OtherArg(Vec<Token>),
}

/// The arguments of a path segment.
pub enum PathArgs {
    /// No argument list.
    Plain,
    /// An angle-bracketed argument list.
    Angle(Vec<GenericArg>),
}

/// One segment of a type path.
pub struct PathSegment {
    /// The segment's identifier.
    pub ident: Vec<char>,
    /// The segment's arguments.
    pub args: PathArgs,
}

/// A type expression as the synthesizer sees it.
pub enum TypeExpr {
    /// A path such as `std::vec::Vec<String>`.
    Path(Vec<PathSegment>),
    /// A reference `&T` or `&mut T`.
    Ref { mutable: bool, inner: Box<TypeExpr> },
    /// An array `[T; N]`, with the length kept as tokens.
    Array { elem: Box<TypeExpr>, len: Vec<Token> },
    /// A tuple; only the empty tuple `()` gets a replacement.
    Tuple(Vec<TypeExpr>),
    /// The never type `!`.
    Never,
    /// Anything else, carried as raw tokens.
    Other(Vec<Token>),
}

/// A function's declared return type.
pub enum ReturnType {
    /// No return type was written; the function returns unit.
    Implicit,
    /// An explicit `-> T`.
    Typed(TypeExpr),
}

/// Model of a [`GenericArg`].
pub enum ArgView {
    TypeArg(Box<TypeView>),
    LifetimeArg(Seq<char>),
    OtherArg(Seq<TokView>),
}

/// Model of [`PathArgs`].
pub enum ArgsView {
    Plain,
    Angle(Seq<ArgView>),
}

/// Model of a [`PathSegment`].
pub struct SegView {
    pub ident: Seq<char>,
    pub args: ArgsView,
}

/// Model of a [`TypeExpr`].
pub enum TypeView {
    Path(Seq<SegView>),
    Ref { mutable: bool, inner: Box<TypeView> },
    Array { elem: Box<TypeView>, len: Seq<TokView> },
    Tuple(Seq<TypeView>),
    Never,
    Other(Seq<TokView>),
}

/// Model of a [`ReturnType`].
pub enum ReturnTypeView {
    Implicit,
    Typed(TypeView),
}

/// Model of a [`GenericArg`].
pub open spec fn arg_view(a: GenericArg) -> ArgView
    decreases a,
{
    match a {
        GenericArg::TypeArg(t) => ArgView::TypeArg(Box::new(type_view(*t))),
        GenericArg::LifetimeArg(s) => ArgView::LifetimeArg(s@),
        GenericArg::OtherArg(ts) => ArgView::OtherArg(tokens_view(ts@)),
    }
}

/// Model of [`PathArgs`].
pub open spec fn pathargs_view(a: PathArgs) -> ArgsView
    decreases a,
{
    match a {
        PathArgs::Plain => ArgsView::Plain,
        PathArgs::Angle(args) => ArgsView::Angle(args_view(args@)),
    }
}

/// Model of a [`PathSegment`].
pub open spec fn seg_view(s: PathSegment) -> SegView
    decreases s,
{
    SegView { ident: s.ident@, args: pathargs_view(s.args) }
}

/// Model of a [`TypeExpr`].
pub open spec fn type_view(t: TypeExpr) -> TypeView
    decreases t,
{
    match t {
        TypeExpr::Path(segs) => TypeView::Path(segs_view(segs@)),
        TypeExpr::Ref { mutable, inner } => TypeView::Ref {
            mutable: mutable,
            inner: Box::new(type_view(*inner)),
        },
        TypeExpr::Array { elem, len } => TypeView::Array {
            elem: Box::new(type_view(*elem)),
            len: tokens_view(len@),
        },
        TypeExpr::Tuple(elems) => TypeView::Tuple(types_view(elems@)),
        TypeExpr::Never => TypeView::Never,
        TypeExpr::Other(ts) => TypeView::Other(tokens_view(ts@)),
    }
}

impl View for GenericArg {
    type V = ArgView;

    open spec fn view(&self) -> ArgView {
        arg_view(*self)
    }
}

impl View for PathArgs {
    type V = ArgsView;

    open spec fn view(&self) -> ArgsView {
        pathargs_view(*self)
    }
}

impl View for PathSegment {
    type V = SegView;

    open spec fn view(&self) -> SegView {
        seg_view(*self)
    }
}

impl View for TypeExpr {
    type V = TypeView;

    open spec fn view(&self) -> TypeView {
        type_view(*self)
    }
}

impl View for ReturnType {
    type V = ReturnTypeView;

    open spec fn view(&self) -> ReturnTypeView {
        match self {
            ReturnType::Implicit => ReturnTypeView::Implicit,
            ReturnType::Typed(t) => ReturnTypeView::Typed(type_view(*t)),
        }
    }
}

/// The models of a sequence of generic arguments.
pub open spec fn args_view(args: Seq<GenericArg>) -> Seq<ArgView>
    decreases args,
{
    if args.len() == 0 {
        Seq::empty()
    } else {
        args_view(args.drop_last()).push(arg_view(args.last()))
    }
}

/// The models of a sequence of path segments.
pub open spec fn segs_view(segs: Seq<PathSegment>) -> Seq<SegView>
    decreases segs,
{
    if segs.len() == 0 {
        Seq::empty()
    } else {
        segs_view(segs.drop_last()).push(seg_view(segs.last()))
    }
}

/// The models of a sequence of type expressions.
pub open spec fn types_view(ts: Seq<TypeExpr>) -> Seq<TypeView>
    decreases ts,
{
    if ts.len() == 0 {
        Seq::empty()
    } else {
        types_view(ts.drop_last()).push(type_view(ts.last()))
    }
}

/// `args_view` maps the sequence index by index.
pub broadcast proof fn lemma_args_view(args: Seq<GenericArg>)
    ensures
        (#[trigger] args_view(args)).len() == args.len(),
        forall|i: int| 0 <= i < args.len() ==> args_view(args)[i] == arg_view(args[i]),
    decreases args,
{
    if args.len() > 0 {
        lemma_args_view(args.drop_last());
        assert forall|i: int| 0 <= i < args.len() implies args_view(args)[i] == arg_view(args[i]) by {
            if i < args.len() - 1 {
                assert(args_view(args)[i] == args_view(args.drop_last())[i]);
                assert(args.drop_last()[i] == args[i]);
            }
        }
    }
}

/// `segs_view` maps the sequence index by index.
pub broadcast proof fn lemma_segs_view(segs: Seq<PathSegment>)
    ensures
        (#[trigger] segs_view(segs)).len() == segs.len(),
        forall|i: int| 0 <= i < segs.len() ==> segs_view(segs)[i] == seg_view(segs[i]),
    decreases segs,
{
    if segs.len() > 0 {
        lemma_segs_view(segs.drop_last());
        assert forall|i: int| 0 <= i < segs.len() implies segs_view(segs)[i] == seg_view(segs[i]) by {
            if i < segs.len() - 1 {
                assert(segs_view(segs)[i] == segs_view(segs.drop_last())[i]);
                assert(segs.drop_last()[i] == segs[i]);
            }
        }
    }
}

/// `types_view` maps the sequence index by index.
pub broadcast proof fn lemma_types_view(ts: Seq<TypeExpr>)
    ensures
        (#[trigger] types_view(ts)).len() == ts.len(),
        forall|i: int| 0 <= i < ts.len() ==> types_view(ts)[i] == type_view(ts[i]),
    decreases ts,
{
    if ts.len() > 0 {
        lemma_types_view(ts.drop_last());
        assert forall|i: int| 0 <= i < ts.len() implies types_view(ts)[i] == type_view(ts[i]) by {
            if i < ts.len() - 1 {
                assert(types_view(ts)[i] == types_view(ts.drop_last())[i]);
                assert(ts.drop_last()[i] == ts[i]);
            }
        }
    }
}


/// Tokens of a generic argument.
pub open spec fn spec_arg_tokens(a: ArgView) -> Seq<TokView>
    decreases a,
{
    match a {
        ArgView::TypeArg(t) => spec_type_tokens(*t),
        ArgView::LifetimeArg(n) => seq![TokView::Punct('\''), TokView::Ident(n)],
        ArgView::OtherArg(ts) => ts,
    }
}

/// Tokens of an argument list, joined with commas.
pub open spec fn spec_args_tokens(args: Seq<ArgView>) -> Seq<TokView>
    decreases args,
{
    if args.len() == 0 {
        Seq::empty()
    } else if args.len() == 1 {
        spec_arg_tokens(args[0])
    } else {
        spec_args_tokens(args.drop_last()) + seq![TokView::Punct(',')] + spec_arg_tokens(
            args.last(),
        )
    }
}

/// Tokens of one path segment.
pub open spec fn spec_seg_tokens(s: SegView) -> Seq<TokView>
    decreases s,
{
    seq![TokView::Ident(s.ident)] + match s.args {
        ArgsView::Plain => Seq::empty(),
        ArgsView::Angle(args) => seq![TokView::Punct('<')] + spec_args_tokens(args) + seq![
            TokView::Punct('>'),
        ],
    }
}

/// Tokens of a path, segments joined with `::`.
pub open spec fn spec_segs_tokens(segs: Seq<SegView>) -> Seq<TokView>
    decreases segs,
{
    if segs.len() == 0 {
        Seq::empty()
    } else if segs.len() == 1 {
        spec_seg_tokens(segs[0])
    } else {
        spec_segs_tokens(segs.drop_last()) + seq![TokView::Punct(':'), TokView::Punct(':')]
            + spec_seg_tokens(segs.last())
    }
}

/// Tokens of tuple elements, joined with commas.
pub open spec fn spec_tuple_tokens(elems: Seq<TypeView>) -> Seq<TokView>
    decreases elems,
{
    if elems.len() == 0 {
        Seq::empty()
    } else if elems.len() == 1 {
        spec_type_tokens(elems[0])
    } else {
        spec_tuple_tokens(elems.drop_last()) + seq![TokView::Punct(',')] + spec_type_tokens(
            elems.last(),
        )
    }
}

/// The token rendering of a type expression.
pub open spec fn spec_type_tokens(t: TypeView) -> Seq<TokView>
    decreases t,
{
    match t {
        TypeView::Path(segs) => spec_segs_tokens(segs),
        TypeView::Ref { mutable, inner } => seq![TokView::Punct('&')] + (if mutable {
            seq![TokView::Ident("mut"@)]
        } else {
            Seq::empty()
        }) + spec_type_tokens(*inner),
        TypeView::Array { elem, len } => seq![
            TokView::Group(
                Delim::Bracket,
                spec_type_tokens(*elem) + seq![TokView::Punct(';')] + len,
            ),
        ],
        TypeView::Tuple(elems) => seq![TokView::Group(Delim::Paren, spec_tuple_tokens(elems))],
        TypeView::Never => seq![TokView::Punct('!')],
        TypeView::Other(ts) => ts,
    }
}

/// The rendered text of a declared return type: empty when implicit,
/// `-> ` followed by the pretty-printed type otherwise.
pub open spec fn spec_return_type_string(rt: ReturnTypeView) -> Seq<char> {
    match rt {
        ReturnTypeView::Implicit => Seq::empty(),
        ReturnTypeView::Typed(t) => seq!['-', '>', ' '] + spec_pretty(spec_type_tokens(t)),
    }
}


fn arg_to_tokens(a: &GenericArg) -> (r: Vec<Token>)
    ensures
        tokens_view(r@) == spec_arg_tokens(arg_view(*a)),
    decreases arg_view(*a),
{
    match a {
        GenericArg::TypeArg(t) => {
            proof {
                let av = arg_view(*a);
                assert(av->TypeArg_0 == Box::new(type_view(**t)));
                assert(decreases_to!(av => av->TypeArg_0));
            }
            type_to_tokens(&**t)
        },
        GenericArg::LifetimeArg(n) => {
            let mut v: Vec<Token> = Vec::new();
            v.push(Token::Punct('\''));
            v.push(Token::Ident(clone_chars(n)));
            proof {
                lemma_tokens_view(v@);
                assert(tokens_view(v@) =~= spec_arg_tokens(arg_view(*a)));
            }
            v
        },
        GenericArg::OtherArg(ts) => clone_tokens(ts),
    }
}

fn args_to_tokens(args: &Vec<GenericArg>) -> (r: Vec<Token>)
    ensures
        tokens_view(r@) == spec_args_tokens(args_view(args@)),
    decreases args_view(args@),
{
    let ghost av = args_view(args@);
    let n = args.len();
    let mut out: Vec<Token> = Vec::new();
    let mut j: usize = 0;
    while j < n
        invariant
            j <= n,
            n == args.len(),
            av == args_view(args@),
            tokens_view(out@) == spec_args_tokens(av.take(j as int)),
        decreases n - j,
    {
        proof {
            lemma_args_view(args@);
            assert(av.take(j as int + 1).drop_last() =~= av.take(j as int));
            assert(decreases_to!(av => av[j as int]));
        }
        if j > 0 {
            let ghost out0 = out@;
            out.push(Token::Punct(','));
            proof {
                assert(out@.drop_last() =~= out0);
                lemma_tokens_view(out@);
                lemma_tokens_view(out0);
                assert(tokens_view(out@) =~= tokens_view(out0) + seq![TokView::Punct(',')]);
            }
        }
        let at = arg_to_tokens(&args[j]);
        append_tokens(&mut out, &at);
        proof {
            if j > 0 {
                assert(tokens_view(out@) =~= spec_args_tokens(av.take(j as int)) + seq![
                    TokView::Punct(','),
                ] + spec_arg_tokens(av[j as int]));
            }
        }
        j += 1;
    }
    proof {
        lemma_args_view(args@);
        assert(av.take(n as int) =~= av);
    }
    out
}

fn seg_to_tokens(s: &PathSegment) -> (r: Vec<Token>)
    ensures
        tokens_view(r@) == spec_seg_tokens(seg_view(*s)),
    decreases seg_view(*s),
{
    let mut v: Vec<Token> = Vec::new();
    v.push(Token::Ident(clone_chars(&s.ident)));
    proof {
        lemma_tokens_view(v@);
        assert(tokens_view(v@) =~= seq![TokView::Ident(s.ident@)]);
    }
    match &s.args {
        PathArgs::Plain => {
            proof {
                assert(tokens_view(v@) =~= spec_seg_tokens(seg_view(*s)));
            }
        },
        PathArgs::Angle(args) => {
            proof {
                let sv = seg_view(*s);
                assert(decreases_to!(sv => sv.args));
                assert(sv.args->Angle_0 == args_view(args@));
                assert(decreases_to!(sv.args => sv.args->Angle_0));
            }
            let ghost v0 = v@;
            v.push(Token::Punct('<'));
            proof {
                assert(v@.drop_last() =~= v0);
                lemma_tokens_view(v@);
                lemma_tokens_view(v0);
                assert(tokens_view(v@) =~= tokens_view(v0) + seq![TokView::Punct('<')]);
            }
            let at = args_to_tokens(args);
            append_tokens(&mut v, &at);
            let ghost v1 = v@;
            v.push(Token::Punct('>'));
            proof {
                assert(v@.drop_last() =~= v1);
                lemma_tokens_view(v@);
                lemma_tokens_view(v1);
                assert(tokens_view(v@) =~= tokens_view(v1) + seq![TokView::Punct('>')]);
                assert(tokens_view(v@) =~= spec_seg_tokens(seg_view(*s)));
            }
        },
    }
    v
}

fn segs_to_tokens(path: &Vec<PathSegment>) -> (r: Vec<Token>)
    ensures
        tokens_view(r@) == spec_segs_tokens(segs_view(path@)),
    decreases segs_view(path@),
{
    let ghost sv = segs_view(path@);
    let n = path.len();
    let mut out: Vec<Token> = Vec::new();
    let mut j: usize = 0;
    while j < n
        invariant
            j <= n,
            n == path.len(),
            sv == segs_view(path@),
            tokens_view(out@) == spec_segs_tokens(sv.take(j as int)),
        decreases n - j,
    {
        proof {
            lemma_segs_view(path@);
            assert(sv.take(j as int + 1).drop_last() =~= sv.take(j as int));
            assert(decreases_to!(sv => sv[j as int]));
        }
        if j > 0 {
            let ghost out0 = out@;
            out.push(Token::Punct(':'));
            out.push(Token::Punct(':'));
            proof {
                assert(out@.drop_last().drop_last() =~= out0);
                lemma_tokens_view(out@);
                lemma_tokens_view(out0);
                assert(tokens_view(out@) =~= tokens_view(out0) + seq![
                    TokView::Punct(':'),
                    TokView::Punct(':'),
                ]);
            }
        }
        let st = seg_to_tokens(&path[j]);
        append_tokens(&mut out, &st);
        proof {
            if j > 0 {
                assert(tokens_view(out@) =~= spec_segs_tokens(sv.take(j as int)) + seq![
                    TokView::Punct(':'),
                    TokView::Punct(':'),
                ] + spec_seg_tokens(sv[j as int]));
            }
        }
        j += 1;
    }
    proof {
        lemma_segs_view(path@);
        assert(sv.take(n as int) =~= sv);
    }
    out
}

/// Render a type expression as tokens.
pub fn type_to_tokens(t: &TypeExpr) -> (r: Vec<Token>)
    ensures
        tokens_view(r@) == spec_type_tokens(type_view(*t)),
    decreases type_view(*t),
{
    let ghost tv = type_view(*t);
    match t {
        TypeExpr::Path(path) => {
            proof {
                assert(tv->Path_0 == segs_view(path@));
                assert(decreases_to!(tv => tv->Path_0));
            }
            segs_to_tokens(path)
        },
        TypeExpr::Ref { mutable, inner } => {
            proof {
                assert(tv->Ref_inner == Box::new(type_view(**inner)));
                assert(decreases_to!(tv => tv->Ref_inner));
            }
            let mut v: Vec<Token> = Vec::new();
            v.push(Token::Punct('&'));
            if *mutable {
                v.push(Token::Ident(str_to_chars("mut")));
            }
            proof {
                lemma_tokens_view(v@);
                if *mutable {
                    assert(tokens_view(v@) =~= seq![TokView::Punct('&')] + seq![
                        TokView::Ident("mut"@),
                    ]);
                } else {
                    assert(tokens_view(v@) =~= seq![TokView::Punct('&')]
                        + Seq::<TokView>::empty());
                }
            }
            let it = type_to_tokens(&**inner);
            append_tokens(&mut v, &it);
            v
        },
        TypeExpr::Array { elem, len } => {
            proof {
                assert(tv->Array_elem == Box::new(type_view(**elem)));
                assert(decreases_to!(tv => tv->Array_elem));
            }
            let mut content = type_to_tokens(&**elem);
            let ghost c0 = content@;
            content.push(Token::Punct(';'));
            proof {
                assert(content@.drop_last() =~= c0);
                lemma_tokens_view(content@);
                lemma_tokens_view(c0);
                assert(tokens_view(content@) =~= tokens_view(c0) + seq![TokView::Punct(';')]);
            }
            append_tokens(&mut content, len);
            let mut v: Vec<Token> = Vec::new();
            v.push(Token::Group(Delim::Bracket, content));
            proof {
                lemma_tokens_view(v@);
                assert(tokens_view(v@) =~= spec_type_tokens(tv));
            }
            v
        },
        TypeExpr::Tuple(elems) => {
            let ghost ev = types_view(elems@);
            let n = elems.len();
            let mut content: Vec<Token> = Vec::new();
            let mut j: usize = 0;
            while j < n
                invariant
                    j <= n,
                    n == elems.len(),
                    ev == types_view(elems@),
                    tv == type_view(*t),
                    tv == TypeView::Tuple(ev),
                    tokens_view(content@) == spec_tuple_tokens(ev.take(j as int)),
                decreases n - j,
            {
                proof {
                    lemma_types_view(elems@);
                    assert(ev.take(j as int + 1).drop_last() =~= ev.take(j as int));
                    assert(decreases_to!(ev => ev[j as int]));
                    assert(tv->Tuple_0 == ev);
                    assert(decreases_to!(tv => tv->Tuple_0));
                }
                if j > 0 {
                    let ghost c0 = content@;
                    content.push(Token::Punct(','));
                    proof {
                        assert(content@.drop_last() =~= c0);
                        lemma_tokens_view(content@);
                        lemma_tokens_view(c0);
                        assert(tokens_view(content@) =~= tokens_view(c0) + seq![
                            TokView::Punct(','),
                        ]);
                    }
                }
                let et = type_to_tokens(&elems[j]);
                append_tokens(&mut content, &et);
                proof {
                    if j > 0 {
                        assert(tokens_view(content@) =~= spec_tuple_tokens(ev.take(j as int))
                            + seq![TokView::Punct(',')] + spec_type_tokens(ev[j as int]));
                    }
                }
                j += 1;
            }
            proof {
                lemma_types_view(elems@);
                assert(ev.take(n as int) =~= ev);
            }
            let mut v: Vec<Token> = Vec::new();
            v.push(Token::Group(Delim::Paren, content));
            proof {
                lemma_tokens_view(v@);
                assert(tokens_view(v@) =~= spec_type_tokens(tv));
            }
            v
        },
        TypeExpr::Never => {
            let mut v: Vec<Token> = Vec::new();
            v.push(Token::Punct('!'));
            proof {
                lemma_tokens_view(v@);
                assert(tokens_view(v@) =~= spec_type_tokens(tv));
            }
            v
        },
        TypeExpr::Other(ts) => clone_tokens(ts),
    }
}

/// Render a declared return type, arrow included, as source text.
pub fn return_type_to_string(return_type: &ReturnType) -> (r: String)
    ensures
        r@ == spec_return_type_string(return_type@),
{
    match return_type {
        ReturnType::Implicit => {
            let v: Vec<char> = Vec::new();
            chars_to_string(&v)
        },
        ReturnType::Typed(t) => {
            let toks = type_to_tokens(t);
            let p = pretty_chars(&toks);
            let mut cs: Vec<char> = Vec::new();
            cs.push('-');
            cs.push('>');
            cs.push(' ');
            push_chars(&mut cs, &p);
            proof {
                assert(cs@ =~= seq!['-', '>', ' '] + spec_pretty(spec_type_tokens(type_view(*t))));
            }
            chars_to_string(&cs)
        },
    }
}

} // verus!
