//! Synthesis of replacement expressions from a return type.
//!
//! Given a function's declared return type and the configured error
//! expressions, produce an ordered list of token sequences, each a
//! plausible but wrong value of that type. The dispatch on the type's
//! classification, and the order of the results, are the heart of the
//! library; [`spec_type_replacements`] states the whole table.

use crate::classify::{
    known_collection, known_container, match_first_type_arg, maybe_collection_or_container,
    path_ends_with, path_is_float, path_is_nonzero_signed, path_is_nonzero_unsigned,
    path_is_signed, path_is_single_ident, path_is_unsigned, result_ok_type, spec_first_type_arg,
    spec_known_collection, spec_known_container, spec_maybe_collection_or_container,
    spec_path_ends_with, spec_path_is_float, spec_path_is_ident, spec_path_is_nonzero_signed,
    spec_path_is_nonzero_unsigned, spec_path_is_signed, spec_path_is_unsigned,
};
use crate::text::str_to_chars;
use crate::token::{
    append_tokens, clone_chars, clone_tokens, lemma_toklists_view, lemma_tokens_view,
    toklists_view, tokens_view, Delim, TokView, Token,
};
use crate::types::{segs_view, type_view, ReturnType, ReturnTypeView, TypeExpr, TypeView};
use vstd::prelude::*;

verus! {

/// `a::b(args)`.
pub open spec fn spec_call_path2(a: Seq<char>, b: Seq<char>, args: Seq<TokView>) -> Seq<TokView> {
    seq![
        TokView::Ident(a),
        TokView::Punct(':'),
        TokView::Punct(':'),
        TokView::Ident(b),
        TokView::Group(Delim::Paren, args),
    ]
}

/// `name(inner)`.
pub open spec fn spec_wrap_call(name: Seq<char>, inner: Seq<TokView>) -> Seq<TokView> {
    seq![TokView::Ident(name), TokView::Group(Delim::Paren, inner)]
}

/// `k::from_iter([inner])`.
pub open spec fn spec_from_iter_call(k: Seq<char>, inner: Seq<TokView>) -> Seq<TokView> {
    spec_call_path2(k, "from_iter"@, seq![TokView::Group(Delim::Bracket, inner)])
}

/// `vec![inner]`.
pub open spec fn spec_vec_bang(inner: Seq<TokView>) -> Seq<TokView> {
    seq![TokView::Ident("vec"@), TokView::Punct('!'), TokView::Group(Delim::Bracket, inner)]
}

/// `Box::leak(Box::new(inner))`.
pub open spec fn spec_box_leak(inner: Seq<TokView>) -> Seq<TokView> {
    spec_call_path2("Box"@, "leak"@, spec_call_path2("Box"@, "new"@, inner))
}

/// `&inner`.
pub open spec fn spec_amp(inner: Seq<TokView>) -> Seq<TokView> {
    seq![TokView::Punct('&')] + inner
}

/// `[inner; len]`.
pub open spec fn spec_array_of(inner: Seq<TokView>, len: Seq<TokView>) -> Seq<TokView> {
    seq![TokView::Group(Delim::Bracket, inner + seq![TokView::Punct(';')] + len)]
}

/// A bare identifier token.
pub open spec fn spec_ident_toks(s: Seq<char>) -> Seq<TokView> {
    seq![TokView::Ident(s)]
}

/// A bare literal token.
pub open spec fn spec_lit_toks(s: Seq<char>) -> Seq<TokView> {
    seq![TokView::Lit(s)]
}

/// A negated literal token.
pub open spec fn spec_neg_lit_toks(s: Seq<char>) -> Seq<TokView> {
    seq![TokView::Punct('-'), TokView::Lit(s)]
}

/// `String::new()`, `"xyzzy".into()`.
pub open spec fn spec_string_reps() -> Seq<Seq<TokView>> {
    seq![
        spec_call_path2("String"@, "new"@, Seq::empty()),
        seq![
            TokView::Lit("\"xyzzy\""@),
            TokView::Punct('.'),
            TokView::Ident("into"@),
            TokView::Group(Delim::Paren, Seq::empty()),
        ],
    ]
}

/// `""`, `"xyzzy"`.
pub open spec fn spec_str_reps() -> Seq<Seq<TokView>> {
    seq![spec_lit_toks("\"\""@), spec_lit_toks("\"xyzzy\""@)]
}

/// `()`.
pub open spec fn spec_unit_toks() -> Seq<TokView> {
    seq![TokView::Group(Delim::Paren, Seq::empty())]
}

/// `Ok(Default::default())`.
pub open spec fn spec_ok_default_toks() -> Seq<TokView> {
    spec_wrap_call("Ok"@, spec_call_path2("Default"@, "default"@, Seq::empty()))
}

/// `Default::default()`.
pub open spec fn spec_default_toks() -> Seq<TokView> {
    spec_call_path2("Default"@, "default"@, Seq::empty())
}

/// `HttpResponse::Ok().finish()`.
pub open spec fn spec_http_response_toks() -> Seq<TokView> {
    spec_call_path2("HttpResponse"@, "Ok"@, Seq::empty()) + seq![
        TokView::Punct('.'),
        TokView::Ident("finish"@),
        TokView::Group(Delim::Paren, Seq::empty()),
    ]
}

/// Each replacement wrapped as `name(rep)`.
pub open spec fn spec_wrap_each(name: Seq<char>, reps: Seq<Seq<TokView>>) -> Seq<Seq<TokView>>
    decreases reps,
{
    if reps.len() == 0 {
        Seq::empty()
    } else {
        spec_wrap_each(name, reps.drop_last()).push(spec_wrap_call(name, reps.last()))
    }
}

/// Each replacement wrapped as `&rep`.
pub open spec fn spec_amp_each(reps: Seq<Seq<TokView>>) -> Seq<Seq<TokView>>
    decreases reps,
{
    if reps.len() == 0 {
        Seq::empty()
    } else {
        spec_amp_each(reps.drop_last()).push(spec_amp(reps.last()))
    }
}

/// Each replacement wrapped as `Box::leak(Box::new(rep))`.
pub open spec fn spec_leak_each(reps: Seq<Seq<TokView>>) -> Seq<Seq<TokView>>
    decreases reps,
{
    if reps.len() == 0 {
        Seq::empty()
    } else {
        spec_leak_each(reps.drop_last()).push(spec_box_leak(reps.last()))
    }
}

/// Each replacement wrapped as `[rep; len]`.
pub open spec fn spec_array_each(reps: Seq<Seq<TokView>>, len: Seq<TokView>) -> Seq<Seq<TokView>>
    decreases reps,
{
    if reps.len() == 0 {
        Seq::empty()
    } else {
        spec_array_each(reps.drop_last(), len).push(spec_array_of(reps.last(), len))
    }
}

/// Each replacement wrapped as `vec![rep]`.
pub open spec fn spec_vec_each(reps: Seq<Seq<TokView>>) -> Seq<Seq<TokView>>
    decreases reps,
{
    if reps.len() == 0 {
        Seq::empty()
    } else {
        spec_vec_each(reps.drop_last()).push(spec_vec_bang(reps.last()))
    }
}

/// Each replacement wrapped as `k::new(rep)`.
pub open spec fn spec_new_each(k: Seq<char>, reps: Seq<Seq<TokView>>) -> Seq<Seq<TokView>>
    decreases reps,
{
    if reps.len() == 0 {
        Seq::empty()
    } else {
        spec_new_each(k, reps.drop_last()).push(spec_call_path2(k, "new"@, reps.last()))
    }
}

/// Each replacement wrapped as `k::from_iter([rep])`.
pub open spec fn spec_from_iter_each(k: Seq<char>, reps: Seq<Seq<TokView>>) -> Seq<Seq<TokView>>
    decreases reps,
{
    if reps.len() == 0 {
        Seq::empty()
    } else {
        spec_from_iter_each(k, reps.drop_last()).push(spec_from_iter_call(k, reps.last()))
    }
}

/// Each replacement in the three speculative forms
/// `k::from_iter([rep])`, `k::new(rep)`, `k::from(rep)`, in that order.
pub open spec fn spec_triple_each(k: Seq<char>, reps: Seq<Seq<TokView>>) -> Seq<Seq<TokView>>
    decreases reps,
{
    if reps.len() == 0 {
        Seq::empty()
    } else {
        spec_triple_each(k, reps.drop_last()) + seq![
            spec_from_iter_call(k, reps.last()),
            spec_call_path2(k, "new"@, reps.last()),
            spec_call_path2(k, "from"@, reps.last()),
        ]
    }
}

/// The replacement table: the ordered list of replacement token
/// sequences for a type, given the configured error expressions.
pub open spec fn spec_type_replacements(t: TypeView, errs: Seq<Seq<TokView>>) -> Seq<Seq<TokView>>
    decreases t,
    via spec_type_replacements_dec
{
    match t {
        TypeView::Path(segs) => {
            if spec_path_is_ident(segs, "bool"@) {
                seq![spec_ident_toks("true"@), spec_ident_toks("false"@)]
            } else if spec_path_is_ident(segs, "String"@) {
                spec_string_reps()
            } else if spec_path_is_ident(segs, "str"@) {
                spec_str_reps()
            } else if spec_path_is_unsigned(segs) {
                seq![spec_lit_toks("0"@), spec_lit_toks("1"@)]
            } else if spec_path_is_signed(segs) {
                seq![spec_lit_toks("0"@), spec_lit_toks("1"@), spec_neg_lit_toks("1"@)]
            } else if spec_path_is_nonzero_signed(segs) {
                seq![spec_lit_toks("1"@), spec_neg_lit_toks("1"@)]
            } else if spec_path_is_nonzero_unsigned(segs) {
                seq![spec_lit_toks("1"@)]
            } else if spec_path_is_float(segs) {
                seq![spec_lit_toks("0.0"@), spec_lit_toks("1.0"@), spec_neg_lit_toks("1.0"@)]
            } else if spec_path_ends_with(segs, "Result"@) {
                (match spec_first_type_arg(segs, "Result"@) {
                    Some(ok) => spec_wrap_each("Ok"@, spec_type_replacements(ok, errs)),
                    None => seq![spec_ok_default_toks()],
                }) + spec_wrap_each("Err"@, errs)
            } else if spec_path_ends_with(segs, "HttpResponse"@) {
                seq![spec_http_response_toks()]
            } else if spec_first_type_arg(segs, "Option"@) is Some {
                let some_type = spec_first_type_arg(segs, "Option"@).unwrap();
                seq![spec_ident_toks("None"@)] + spec_wrap_each(
                    "Some"@,
                    spec_type_replacements(some_type, errs),
                )
            } else if spec_first_type_arg(segs, "Vec"@) is Some {
                let elem_type = spec_first_type_arg(segs, "Vec"@).unwrap();
                seq![spec_vec_bang(Seq::empty())] + spec_vec_each(
                    spec_type_replacements(elem_type, errs),
                )
            } else if spec_known_container(segs) is Some {
                let (k, inner) = spec_known_container(segs).unwrap();
                spec_new_each(k, spec_type_replacements(inner, errs))
            } else if spec_known_collection(segs) is Some {
                let (k, inner) = spec_known_collection(segs).unwrap();
                seq![spec_call_path2(k, "new"@, Seq::empty())] + spec_from_iter_each(
                    k,
                    spec_type_replacements(inner, errs),
                )
            } else if spec_maybe_collection_or_container(segs) is Some {
                let (k, inner) = spec_maybe_collection_or_container(segs).unwrap();
                seq![spec_call_path2(k, "new"@, Seq::empty())] + spec_triple_each(
                    k,
                    spec_type_replacements(inner, errs),
                )
            } else {
                seq![spec_default_toks()]
            }
        },
        TypeView::Ref { mutable, inner } => {
            if !mutable && ((*inner) matches TypeView::Path(ip) && spec_path_is_ident(ip, "str"@)) {
                spec_str_reps()
            } else if !mutable {
                spec_amp_each(spec_type_replacements(*inner, errs))
            } else {
                spec_leak_each(spec_type_replacements(*inner, errs))
            }
        },
        TypeView::Array { elem, len } => spec_array_each(spec_type_replacements(*elem, errs), len),
        TypeView::Tuple(elems) => if elems.len() == 0 {
            seq![spec_unit_toks()]
        } else {
            seq![spec_default_toks()]
        },
        TypeView::Never => Seq::empty(),
        TypeView::Other(_) => seq![spec_default_toks()],
    }
}

#[via_fn]
proof fn spec_type_replacements_dec(t: TypeView, errs: Seq<Seq<TokView>>) {
    match t {
        TypeView::Path(segs) => {
            if spec_maybe_collection_or_container(segs) is Some {
                let sv = segs.last();
                let av = sv.args->Angle_0;
                crate::classify::lemma_count_first_pub(av);
                crate::classify::lemma_first_type_arg_in_smaller(av);
                assert(decreases_to!(segs => sv));
                assert(decreases_to!(sv => sv.args));
                assert(decreases_to!(sv.args => av));
                let p = TypeView::Path(segs);
                assert(p->Path_0 == segs);
                assert(decreases_to!(p => p->Path_0));
            }
        },
        _ => (),
    }
}

fn tl_ident(s: &str) -> (r: Vec<Token>)
    ensures
        tokens_view(r@) == spec_ident_toks(s@),
{
    let mut v: Vec<Token> = Vec::new();
    v.push(Token::Ident(str_to_chars(s)));
    proof {
        lemma_tokens_view(v@);
        assert(tokens_view(v@) =~= spec_ident_toks(s@));
    }
    v
}

fn tl_lit(s: &str) -> (r: Vec<Token>)
    ensures
        tokens_view(r@) == spec_lit_toks(s@),
{
    let mut v: Vec<Token> = Vec::new();
    v.push(Token::Lit(str_to_chars(s)));
    proof {
        lemma_tokens_view(v@);
        assert(tokens_view(v@) =~= spec_lit_toks(s@));
    }
    v
}

fn tl_neg_lit(s: &str) -> (r: Vec<Token>)
    ensures
        tokens_view(r@) == spec_neg_lit_toks(s@),
{
    let mut v: Vec<Token> = Vec::new();
    v.push(Token::Punct('-'));
    v.push(Token::Lit(str_to_chars(s)));
    proof {
        lemma_tokens_view(v@);
        assert(tokens_view(v@) =~= spec_neg_lit_toks(s@));
    }
    v
}

fn tl_call_chars(a: &Vec<char>, b: &str, args: Vec<Token>) -> (r: Vec<Token>)
    ensures
        tokens_view(r@) == spec_call_path2(a@, b@, tokens_view(args@)),
{
    let mut v: Vec<Token> = Vec::new();
    v.push(Token::Ident(clone_chars(a)));
    v.push(Token::Punct(':'));
    v.push(Token::Punct(':'));
    v.push(Token::Ident(str_to_chars(b)));
    v.push(Token::Group(Delim::Paren, args));
    proof {
        lemma_tokens_view(v@);
        assert(tokens_view(v@) =~= spec_call_path2(a@, b@, tokens_view(args@)));
    }
    v
}

fn tl_call(a: &str, b: &str, args: Vec<Token>) -> (r: Vec<Token>)
    ensures
        tokens_view(r@) == spec_call_path2(a@, b@, tokens_view(args@)),
{
    let ac = str_to_chars(a);
    tl_call_chars(&ac, b, args)
}

fn tl_wrap_call(name: &str, inner: Vec<Token>) -> (r: Vec<Token>)
    ensures
        tokens_view(r@) == spec_wrap_call(name@, tokens_view(inner@)),
{
    let mut v: Vec<Token> = Vec::new();
    v.push(Token::Ident(str_to_chars(name)));
    v.push(Token::Group(Delim::Paren, inner));
    proof {
        lemma_tokens_view(v@);
        assert(tokens_view(v@) =~= spec_wrap_call(name@, tokens_view(v@[1]->Group_1@)));
    }
    v
}

fn tl_from_iter_call(k: &Vec<char>, inner: Vec<Token>) -> (r: Vec<Token>)
    ensures
        tokens_view(r@) == spec_from_iter_call(k@, tokens_view(inner@)),
{
    let mut bracket: Vec<Token> = Vec::new();
    bracket.push(Token::Group(Delim::Bracket, inner));
    proof {
        lemma_tokens_view(bracket@);
        assert(tokens_view(bracket@) =~= seq![
            TokView::Group(Delim::Bracket, tokens_view(bracket@[0]->Group_1@)),
        ]);
    }
    tl_call_chars(k, "from_iter", bracket)
}

fn tl_vec_bang(inner: Vec<Token>) -> (r: Vec<Token>)
    ensures
        tokens_view(r@) == spec_vec_bang(tokens_view(inner@)),
{
    let mut v: Vec<Token> = Vec::new();
    v.push(Token::Ident(str_to_chars("vec")));
    v.push(Token::Punct('!'));
    v.push(Token::Group(Delim::Bracket, inner));
    proof {
        lemma_tokens_view(v@);
        assert(tokens_view(v@) =~= spec_vec_bang(tokens_view(v@[2]->Group_1@)));
    }
    v
}

fn tl_box_leak(inner: Vec<Token>) -> (r: Vec<Token>)
    ensures
        tokens_view(r@) == spec_box_leak(tokens_view(inner@)),
{
    let new_call = tl_call("Box", "new", inner);
    tl_call("Box", "leak", new_call)
}

fn tl_amp(inner: Vec<Token>) -> (r: Vec<Token>)
    ensures
        tokens_view(r@) == spec_amp(tokens_view(inner@)),
{
    let ghost iseq = inner@;
    let mut v = inner;
    v.insert(0, Token::Punct('&'));
    proof {
        lemma_tokens_view(v@);
        lemma_tokens_view(iseq);
        assert(tokens_view(v@) =~= spec_amp(tokens_view(iseq)));
    }
    v
}

fn tl_unit() -> (r: Vec<Token>)
    ensures
        tokens_view(r@) == spec_unit_toks(),
{
    let mut v: Vec<Token> = Vec::new();
    v.push(Token::Group(Delim::Paren, Vec::new()));
    proof {
        lemma_tokens_view(v@);
        assert(v@[0]->Group_1@ =~= Seq::<Token>::empty());
        assert(tokens_view(v@) =~= spec_unit_toks());
    }
    v
}

fn tl_array_of(inner: Vec<Token>, len: &Vec<Token>) -> (r: Vec<Token>)
    ensures
        tokens_view(r@) == spec_array_of(tokens_view(inner@), tokens_view(len@)),
{
    let ghost iseq = inner@;
    let mut content = inner;
    content.push(Token::Punct(';'));
    proof {
        lemma_tokens_view(content@);
        lemma_tokens_view(iseq);
        assert(tokens_view(content@) =~= tokens_view(iseq) + seq![TokView::Punct(';')]);
    }
    append_tokens(&mut content, len);
    let mut v: Vec<Token> = Vec::new();
    v.push(Token::Group(Delim::Bracket, content));
    proof {
        lemma_tokens_view(v@);
        assert(tokens_view(iseq) + seq![TokView::Punct(';')] + tokens_view(len@) =~= tokens_view(
            iseq,
        ) + (seq![TokView::Punct(';')] + tokens_view(len@)));
        assert(tokens_view(v@) =~= spec_array_of(tokens_view(iseq), tokens_view(len@)));
    }
    v
}

fn tl_ok_default() -> (r: Vec<Token>)
    ensures
        tokens_view(r@) == spec_ok_default_toks(),
{
    let d = tl_call("Default", "default", Vec::new());
    proof {
        assert(tokens_view(Seq::<Token>::empty()) =~= Seq::<TokView>::empty());
    }
    tl_wrap_call("Ok", d)
}

fn tl_default() -> (r: Vec<Token>)
    ensures
        tokens_view(r@) == spec_default_toks(),
{
    let r = tl_call("Default", "default", Vec::new());
    proof {
        assert(tokens_view(Seq::<Token>::empty()) =~= Seq::<TokView>::empty());
    }
    r
}

fn tl_http_response() -> (r: Vec<Token>)
    ensures
        tokens_view(r@) == spec_http_response_toks(),
{
    let mut v = tl_call("HttpResponse", "Ok", Vec::new());
    let ghost head = v@;
    v.push(Token::Punct('.'));
    v.push(Token::Ident(str_to_chars("finish")));
    v.push(Token::Group(Delim::Paren, Vec::new()));
    proof {
        assert(tokens_view(Seq::<Token>::empty()) =~= Seq::<TokView>::empty());
        lemma_tokens_view(v@);
        lemma_tokens_view(head);
        assert(v@[v@.len() - 1]->Group_1@ =~= Seq::<Token>::empty());
        assert(tokens_view(v@) =~= spec_http_response_toks());
    }
    v
}

fn tl_str_reps() -> (r: Vec<Vec<Token>>)
    ensures
        toklists_view(r@) == spec_str_reps(),
{
    let mut v: Vec<Vec<Token>> = Vec::new();
    v.push(tl_lit("\"\""));
    v.push(tl_lit("\"xyzzy\""));
    proof {
        lemma_toklists_view(v@);
        assert(toklists_view(v@) =~= spec_str_reps());
    }
    v
}

fn tl_string_reps() -> (r: Vec<Vec<Token>>)
    ensures
        toklists_view(r@) == spec_string_reps(),
{
    let mut v: Vec<Vec<Token>> = Vec::new();
    proof {
        assert(tokens_view(Seq::<Token>::empty()) =~= Seq::<TokView>::empty());
    }
    v.push(tl_call("String", "new", Vec::new()));
    let mut into: Vec<Token> = Vec::new();
    into.push(Token::Lit(str_to_chars("\"xyzzy\"")));
    into.push(Token::Punct('.'));
    into.push(Token::Ident(str_to_chars("into")));
    into.push(Token::Group(Delim::Paren, Vec::new()));
    proof {
        lemma_tokens_view(into@);
        assert(into@[3]->Group_1@ =~= Seq::<Token>::empty());
        assert(tokens_view(into@) =~= spec_string_reps()[1]);
    }
    v.push(into);
    proof {
        lemma_toklists_view(v@);
        assert(toklists_view(v@) =~= spec_string_reps());
    }
    v
}

fn wrap_list(name: &str, reps: &Vec<Vec<Token>>) -> (r: Vec<Vec<Token>>)
    ensures
        toklists_view(r@) == spec_wrap_each(name@, toklists_view(reps@)),
{
    let ghost rv = toklists_view(reps@);
    let n = reps.len();
    let mut out: Vec<Vec<Token>> = Vec::new();
    let mut i: usize = 0;
    while i < n
        invariant
            i <= n,
            n == reps.len(),
            rv == toklists_view(reps@),
            toklists_view(out@) == spec_wrap_each(name@, rv.take(i as int)),
        decreases n - i,
    {
        proof {
            lemma_toklists_view(reps@);
            assert(rv.take(i as int + 1).drop_last() =~= rv.take(i as int));
        }
        let ghost out0 = out@;
        let w = tl_wrap_call(name, clone_tokens(&reps[i]));
        out.push(w);
        proof {
            assert(out@.drop_last() =~= out0);
        }
        i += 1;
    }
    proof {
        lemma_toklists_view(reps@);
        assert(rv.take(n as int) =~= rv);
    }
    out
}

fn amp_list(reps: &Vec<Vec<Token>>) -> (r: Vec<Vec<Token>>)
    ensures
        toklists_view(r@) == spec_amp_each(toklists_view(reps@)),
{
    let ghost rv = toklists_view(reps@);
    let n = reps.len();
    let mut out: Vec<Vec<Token>> = Vec::new();
    let mut i: usize = 0;
    while i < n
        invariant
            i <= n,
            n == reps.len(),
            rv == toklists_view(reps@),
            toklists_view(out@) == spec_amp_each(rv.take(i as int)),
        decreases n - i,
    {
        proof {
            lemma_toklists_view(reps@);
            assert(rv.take(i as int + 1).drop_last() =~= rv.take(i as int));
        }
        let ghost out0 = out@;
        let w = tl_amp(clone_tokens(&reps[i]));
        out.push(w);
        proof {
            assert(out@.drop_last() =~= out0);
        }
        i += 1;
    }
    proof {
        lemma_toklists_view(reps@);
        assert(rv.take(n as int) =~= rv);
    }
    out
}

fn leak_list(reps: &Vec<Vec<Token>>) -> (r: Vec<Vec<Token>>)
    ensures
        toklists_view(r@) == spec_leak_each(toklists_view(reps@)),
{
    let ghost rv = toklists_view(reps@);
    let n = reps.len();
    let mut out: Vec<Vec<Token>> = Vec::new();
    let mut i: usize = 0;
    while i < n
        invariant
            i <= n,
            n == reps.len(),
            rv == toklists_view(reps@),
            toklists_view(out@) == spec_leak_each(rv.take(i as int)),
        decreases n - i,
    {
        proof {
            lemma_toklists_view(reps@);
            assert(rv.take(i as int + 1).drop_last() =~= rv.take(i as int));
        }
        let ghost out0 = out@;
        let w = tl_box_leak(clone_tokens(&reps[i]));
        out.push(w);
        proof {
            assert(out@.drop_last() =~= out0);
        }
        i += 1;
    }
    proof {
        lemma_toklists_view(reps@);
        assert(rv.take(n as int) =~= rv);
    }
    out
}

fn vec_list(reps: &Vec<Vec<Token>>) -> (r: Vec<Vec<Token>>)
    ensures
        toklists_view(r@) == spec_vec_each(toklists_view(reps@)),
{
    let ghost rv = toklists_view(reps@);
    let n = reps.len();
    let mut out: Vec<Vec<Token>> = Vec::new();
    let mut i: usize = 0;
    while i < n
        invariant
            i <= n,
            n == reps.len(),
            rv == toklists_view(reps@),
            toklists_view(out@) == spec_vec_each(rv.take(i as int)),
        decreases n - i,
    {
        proof {
            lemma_toklists_view(reps@);
            assert(rv.take(i as int + 1).drop_last() =~= rv.take(i as int));
        }
        let ghost out0 = out@;
        let w = tl_vec_bang(clone_tokens(&reps[i]));
        out.push(w);
        proof {
            assert(out@.drop_last() =~= out0);
        }
        i += 1;
    }
    proof {
        lemma_toklists_view(reps@);
        assert(rv.take(n as int) =~= rv);
    }
    out
}

fn array_list(reps: &Vec<Vec<Token>>, len: &Vec<Token>) -> (r: Vec<Vec<Token>>)
    ensures
        toklists_view(r@) == spec_array_each(toklists_view(reps@), tokens_view(len@)),
{
    let ghost rv = toklists_view(reps@);
    let n = reps.len();
    let mut out: Vec<Vec<Token>> = Vec::new();
    let mut i: usize = 0;
    while i < n
        invariant
            i <= n,
            n == reps.len(),
            rv == toklists_view(reps@),
            toklists_view(out@) == spec_array_each(rv.take(i as int), tokens_view(len@)),
        decreases n - i,
    {
        proof {
            lemma_toklists_view(reps@);
            assert(rv.take(i as int + 1).drop_last() =~= rv.take(i as int));
        }
        let ghost out0 = out@;
        let w = tl_array_of(clone_tokens(&reps[i]), len);
        out.push(w);
        proof {
            assert(out@.drop_last() =~= out0);
        }
        i += 1;
    }
    proof {
        lemma_toklists_view(reps@);
        assert(rv.take(n as int) =~= rv);
    }
    out
}

fn new_list(k: &Vec<char>, reps: &Vec<Vec<Token>>) -> (r: Vec<Vec<Token>>)
    ensures
        toklists_view(r@) == spec_new_each(k@, toklists_view(reps@)),
{
    let ghost rv = toklists_view(reps@);
    let n = reps.len();
    let mut out: Vec<Vec<Token>> = Vec::new();
    let mut i: usize = 0;
    while i < n
        invariant
            i <= n,
            n == reps.len(),
            rv == toklists_view(reps@),
            toklists_view(out@) == spec_new_each(k@, rv.take(i as int)),
        decreases n - i,
    {
        proof {
            lemma_toklists_view(reps@);
            assert(rv.take(i as int + 1).drop_last() =~= rv.take(i as int));
        }
        let ghost out0 = out@;
        let w = tl_call_chars(k, "new", clone_tokens(&reps[i]));
        out.push(w);
        proof {
            assert(out@.drop_last() =~= out0);
        }
        i += 1;
    }
    proof {
        lemma_toklists_view(reps@);
        assert(rv.take(n as int) =~= rv);
    }
    out
}

fn from_iter_list(k: &Vec<char>, reps: &Vec<Vec<Token>>) -> (r: Vec<Vec<Token>>)
    ensures
        toklists_view(r@) == spec_from_iter_each(k@, toklists_view(reps@)),
{
    let ghost rv = toklists_view(reps@);
    let n = reps.len();
    let mut out: Vec<Vec<Token>> = Vec::new();
    let mut i: usize = 0;
    while i < n
        invariant
            i <= n,
            n == reps.len(),
            rv == toklists_view(reps@),
            toklists_view(out@) == spec_from_iter_each(k@, rv.take(i as int)),
        decreases n - i,
    {
        proof {
            lemma_toklists_view(reps@);
            assert(rv.take(i as int + 1).drop_last() =~= rv.take(i as int));
        }
        let ghost out0 = out@;
        let w = tl_from_iter_call(k, clone_tokens(&reps[i]));
        out.push(w);
        proof {
            assert(out@.drop_last() =~= out0);
        }
        i += 1;
    }
    proof {
        lemma_toklists_view(reps@);
        assert(rv.take(n as int) =~= rv);
    }
    out
}

fn triple_list(k: &Vec<char>, reps: &Vec<Vec<Token>>) -> (r: Vec<Vec<Token>>)
    ensures
        toklists_view(r@) == spec_triple_each(k@, toklists_view(reps@)),
{
    let ghost rv = toklists_view(reps@);
    let n = reps.len();
    let mut out: Vec<Vec<Token>> = Vec::new();
    let mut i: usize = 0;
    while i < n
        invariant
            i <= n,
            n == reps.len(),
            rv == toklists_view(reps@),
            toklists_view(out@) == spec_triple_each(k@, rv.take(i as int)),
        decreases n - i,
    {
        proof {
            lemma_toklists_view(reps@);
            assert(rv.take(i as int + 1).drop_last() =~= rv.take(i as int));
        }
        let ghost out0 = out@;
        let w1 = tl_from_iter_call(k, clone_tokens(&reps[i]));
        let w2 = tl_call_chars(k, "new", clone_tokens(&reps[i]));
        let w3 = tl_call_chars(k, "from", clone_tokens(&reps[i]));
        out.push(w1);
        out.push(w2);
        out.push(w3);
        proof {
            assert(out@.drop_last().drop_last().drop_last() =~= out0);
            lemma_toklists_view(out@);
            lemma_toklists_view(out0);
            assert(toklists_view(out@) =~= spec_triple_each(k@, rv.take(i as int)) + seq![
                spec_from_iter_call(k@, rv[i as int]),
                spec_call_path2(k@, "new"@, rv[i as int]),
                spec_call_path2(k@, "from"@, rv[i as int]),
            ]);
        }
        i += 1;
    }
    proof {
        lemma_toklists_view(reps@);
        assert(rv.take(n as int) =~= rv);
    }
    out
}

fn append_lists(a: &mut Vec<Vec<Token>>, b: &Vec<Vec<Token>>)
    ensures
        toklists_view(final(a)@) == toklists_view(old(a)@) + toklists_view(b@),
{
    let n = b.len();
    let mut j: usize = 0;
    while j < n
        invariant
            j <= n,
            n == b.len(),
            a@.len() == old(a)@.len() + j,
            forall|k: int| 0 <= k < old(a)@.len() ==> tokens_view(a@[k]@) == tokens_view(
                old(a)@[k]@,
            ),
            forall|k: int| 0 <= k < j ==> tokens_view(a@[old(a)@.len() + k]@) == tokens_view(
                b@[k]@,
            ),
        decreases n - j,
    {
        a.push(clone_tokens(&b[j]));
        j += 1;
    }
    proof {
        lemma_toklists_view(a@);
        lemma_toklists_view(old(a)@);
        lemma_toklists_view(b@);
        assert(toklists_view(a@) =~= toklists_view(old(a)@) + toklists_view(b@));
    }
}

/// The replacements for a declared return type: `()` when the type is
/// implicit, the table otherwise.
pub open spec fn spec_return_type_replacements(rt: ReturnTypeView, errs: Seq<Seq<TokView>>) -> Seq<
    Seq<TokView>,
> {
    match rt {
        ReturnTypeView::Implicit => seq![spec_unit_toks()],
        ReturnTypeView::Typed(t) => spec_type_replacements(t, errs),
    }
}

/// Produce the ordered replacement list for a type: exactly the table
/// of [`spec_type_replacements`].
pub fn type_replacements(type_: &TypeExpr, error_exprs: &Vec<Vec<Token>>) -> (reps: Vec<
    Vec<Token>,
>)
    ensures
        toklists_view(reps@) == spec_type_replacements(
            type_view(*type_),
            toklists_view(error_exprs@),
        ),
    decreases type_view(*type_),
{
    let ghost tv = type_view(*type_);
    let ghost errs = toklists_view(error_exprs@);
    match type_ {
        TypeExpr::Path(path) => {
            let ghost segs = segs_view(path@);
            if path_is_single_ident(path, "bool") {
                let mut v: Vec<Vec<Token>> = Vec::new();
                v.push(tl_ident("true"));
                v.push(tl_ident("false"));
                proof {
                    lemma_toklists_view(v@);
                    assert(toklists_view(v@) =~= spec_type_replacements(tv, errs));
                }
                v
            } else if path_is_single_ident(path, "String") {
                tl_string_reps()
            } else if path_is_single_ident(path, "str") {
                tl_str_reps()
            } else if path_is_unsigned(path) {
                let mut v: Vec<Vec<Token>> = Vec::new();
                v.push(tl_lit("0"));
                v.push(tl_lit("1"));
                proof {
                    lemma_toklists_view(v@);
                    assert(toklists_view(v@) =~= spec_type_replacements(tv, errs));
                }
                v
            } else if path_is_signed(path) {
                let mut v: Vec<Vec<Token>> = Vec::new();
                v.push(tl_lit("0"));
                v.push(tl_lit("1"));
                v.push(tl_neg_lit("1"));
                proof {
                    lemma_toklists_view(v@);
                    assert(toklists_view(v@) =~= spec_type_replacements(tv, errs));
                }
                v
            } else if path_is_nonzero_signed(path) {
                let mut v: Vec<Vec<Token>> = Vec::new();
                v.push(tl_lit("1"));
                v.push(tl_neg_lit("1"));
                proof {
                    lemma_toklists_view(v@);
                    assert(toklists_view(v@) =~= spec_type_replacements(tv, errs));
                }
                v
            } else if path_is_nonzero_unsigned(path) {
                let mut v: Vec<Vec<Token>> = Vec::new();
                v.push(tl_lit("1"));
                proof {
                    lemma_toklists_view(v@);
                    assert(toklists_view(v@) =~= spec_type_replacements(tv, errs));
                }
                v
            } else if path_is_float(path) {
                let mut v: Vec<Vec<Token>> = Vec::new();
                v.push(tl_lit("0.0"));
                v.push(tl_lit("1.0"));
                v.push(tl_neg_lit("1.0"));
                proof {
                    lemma_toklists_view(v@);
                    assert(toklists_view(v@) =~= spec_type_replacements(tv, errs));
                }
                v
            } else if path_ends_with(path, "Result") {
                let mut head: Vec<Vec<Token>> = match result_ok_type(path) {
                    Some(ok_type) => {
                        proof {
                            assert(decreases_to!(tv => type_view(*ok_type)));
                        }
                        let ir = type_replacements(ok_type, error_exprs);
                        wrap_list("Ok", &ir)
                    },
                    None => {
                        let mut v: Vec<Vec<Token>> = Vec::new();
                        v.push(tl_ok_default());
                        proof {
                            lemma_toklists_view(v@);
                            assert(toklists_view(v@) =~= seq![spec_ok_default_toks()]);
                        }
                        v
                    },
                };
                let errw = wrap_list("Err", error_exprs);
                append_lists(&mut head, &errw);
                head
            } else if path_ends_with(path, "HttpResponse") {
                let mut v: Vec<Vec<Token>> = Vec::new();
                v.push(tl_http_response());
                proof {
                    lemma_toklists_view(v@);
                    assert(toklists_view(v@) =~= spec_type_replacements(tv, errs));
                }
                v
            } else {
                match match_first_type_arg(path, "Option") {
                    Some(some_type) => {
                        proof {
                            assert(decreases_to!(tv => type_view(*some_type)));
                        }
                        let ir = type_replacements(some_type, error_exprs);
                        let mut v: Vec<Vec<Token>> = Vec::new();
                        v.push(tl_ident("None"));
                        proof {
                            lemma_toklists_view(v@);
                            assert(toklists_view(v@) =~= seq![spec_ident_toks("None"@)]);
                        }
                        let wrapped = wrap_list("Some", &ir);
                        append_lists(&mut v, &wrapped);
                        v
                    },
                    None => match match_first_type_arg(path, "Vec") {
                        Some(elem_type) => {
                            proof {
                                assert(decreases_to!(tv => type_view(*elem_type)));
                            }
                            let ir = type_replacements(elem_type, error_exprs);
                            let mut v: Vec<Vec<Token>> = Vec::new();
                            let empty_vec = tl_vec_bang(Vec::new());
                            proof {
                                assert(tokens_view(Seq::<Token>::empty())
                                    =~= Seq::<TokView>::empty());
                            }
                            v.push(empty_vec);
                            proof {
                                lemma_toklists_view(v@);
                                assert(toklists_view(v@) =~= seq![spec_vec_bang(Seq::empty())]);
                            }
                            let wrapped = vec_list(&ir);
                            append_lists(&mut v, &wrapped);
                            v
                        },
                        None => match known_container(path) {
                            Some((name, inner)) => {
                                proof {
                                    assert(decreases_to!(tv => type_view(*inner)));
                                }
                                let ir = type_replacements(inner, error_exprs);
                                new_list(name, &ir)
                            },
                            None => match known_collection(path) {
                                Some((name, inner)) => {
                                    proof {
                                        assert(decreases_to!(tv => type_view(*inner)));
                                    }
                                    let ir = type_replacements(inner, error_exprs);
                                    let mut v: Vec<Vec<Token>> = Vec::new();
                                    proof {
                                        assert(tokens_view(Seq::<Token>::empty())
                                            =~= Seq::<TokView>::empty());
                                    }
                                    v.push(tl_call_chars(name, "new", Vec::new()));
                                    proof {
                                        lemma_toklists_view(v@);
                                        assert(toklists_view(v@) =~= seq![
                                            spec_call_path2(name@, "new"@, Seq::empty()),
                                        ]);
                                    }
                                    let wrapped = from_iter_list(name, &ir);
                                    append_lists(&mut v, &wrapped);
                                    v
                                },
                                None => match maybe_collection_or_container(path) {
                                    Some((name, inner)) => {
                                        proof {
                                            assert(decreases_to!(tv => type_view(*inner)));
                                        }
                                        let ir = type_replacements(inner, error_exprs);
                                        let mut v: Vec<Vec<Token>> = Vec::new();
                                        proof {
                                            assert(tokens_view(Seq::<Token>::empty())
                                                =~= Seq::<TokView>::empty());
                                        }
                                        v.push(tl_call_chars(name, "new", Vec::new()));
                                        proof {
                                            lemma_toklists_view(v@);
                                            assert(toklists_view(v@) =~= seq![
                                                spec_call_path2(name@, "new"@, Seq::empty()),
                                            ]);
                                        }
                                        let wrapped = triple_list(name, &ir);
                                        append_lists(&mut v, &wrapped);
                                        v
                                    },
                                    None => {
                                        let mut v: Vec<Vec<Token>> = Vec::new();
                                        v.push(tl_default());
                                        proof {
                                            lemma_toklists_view(v@);
                                            assert(toklists_view(v@) =~= spec_type_replacements(
                                                tv,
                                                errs,
                                            ));
                                        }
                                        v
                                    },
                                },
                            },
                        },
                    },
                }
            }
        },
        TypeExpr::Ref { mutable, inner } => {
            proof {
                let bi = Box::new(type_view(**inner));
                let tvr = TypeView::Ref { mutable: *mutable, inner: bi };
                assert(tv == tvr);
                assert(tvr->Ref_inner == bi);
                assert(decreases_to!(tvr => tvr->Ref_inner));
            }
            if !*mutable {
                let is_str = match &**inner {
                    TypeExpr::Path(ip) => path_is_single_ident(ip, "str"),
                    _ => false,
                };
                if is_str {
                    tl_str_reps()
                } else {
                    let ir = type_replacements(&**inner, error_exprs);
                    amp_list(&ir)
                }
            } else {
                let ir = type_replacements(&**inner, error_exprs);
                leak_list(&ir)
            }
        },
        TypeExpr::Array { elem, len } => {
            proof {
                let be = Box::new(type_view(**elem));
                let tva = TypeView::Array { elem: be, len: tokens_view(len@) };
                assert(tv == tva);
                assert(tva->Array_elem == be);
                assert(decreases_to!(tva => tva->Array_elem));
            }
            let ir = type_replacements(&**elem, error_exprs);
            array_list(&ir, len)
        },
        TypeExpr::Tuple(elems) => {
            proof {
                crate::types::lemma_types_view(elems@);
            }
            if elems.len() == 0 {
                let mut v: Vec<Vec<Token>> = Vec::new();
                v.push(tl_unit());
                proof {
                    lemma_toklists_view(v@);
                    assert(toklists_view(v@) =~= spec_type_replacements(tv, errs));
                }
                v
            } else {
                let mut v: Vec<Vec<Token>> = Vec::new();
                v.push(tl_default());
                proof {
                    lemma_toklists_view(v@);
                    assert(toklists_view(v@) =~= spec_type_replacements(tv, errs));
                }
                v
            }
        },
        TypeExpr::Never => {
            let v: Vec<Vec<Token>> = Vec::new();
            proof {
                assert(toklists_view(v@) =~= Seq::<Seq<TokView>>::empty());
            }
            v
        },
        TypeExpr::Other(_) => {
            let mut v: Vec<Vec<Token>> = Vec::new();
            v.push(tl_default());
            proof {
                lemma_toklists_view(v@);
                assert(toklists_view(v@) =~= spec_type_replacements(tv, errs));
            }
            v
        },
    }
}

/// Replacements for a function's declared return type: the single
/// replacement `()` when no return type is written, the table
/// otherwise.
pub fn return_type_replacements(return_type: &ReturnType, error_exprs: &Vec<Vec<Token>>) -> (reps:
    Vec<Vec<Token>>)
    ensures
        toklists_view(reps@) == spec_return_type_replacements(
            return_type@,
            toklists_view(error_exprs@),
        ),
{
    match return_type {
        ReturnType::Implicit => {
            let mut v: Vec<Vec<Token>> = Vec::new();
            v.push(tl_unit());
            proof {
                lemma_toklists_view(v@);
                assert(toklists_view(v@) =~= seq![spec_unit_toks()]);
            }
            v
        },
        ReturnType::Typed(t) => type_replacements(t, error_exprs),
    }
}

} // verus!
