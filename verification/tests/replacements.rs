//! The replacement synthesizer and the token pretty-printer, on the
//! concrete scenarios the library is specified by.

use mutants_core::replace::{return_type_replacements, type_replacements};
use mutants_core::token::{tokens_to_pretty_string, Delim, Token};
use mutants_core::types::{GenericArg, PathArgs, PathSegment, ReturnType, TypeExpr};

fn cs(s: &str) -> Vec<char> {
    s.chars().collect()
}

fn seg(name: &str) -> PathSegment {
    PathSegment { ident: cs(name), args: PathArgs::Plain }
}

fn seg_args(name: &str, args: Vec<GenericArg>) -> PathSegment {
    PathSegment { ident: cs(name), args: PathArgs::Angle(args) }
}

fn targ(t: TypeExpr) -> GenericArg {
    GenericArg::TypeArg(Box::new(t))
}

fn ty_ident(name: &str) -> TypeExpr {
    TypeExpr::Path(vec![seg(name)])
}

fn unit_ty() -> TypeExpr {
    TypeExpr::Tuple(vec![])
}

fn replace(return_type: &ReturnType, error_exprs: &Vec<Vec<Token>>) -> Vec<String> {
    return_type_replacements(return_type, error_exprs)
        .iter()
        .map(|ts| tokens_to_pretty_string(ts))
        .collect::<Vec<_>>()
}

fn no_errs() -> Vec<Vec<Token>> {
    Vec::new()
}

#[test]
fn path_is_result() {
    let path = vec![seg_args("Result", vec![targ(unit_ty()), targ(unit_ty())])];
    assert!(mutants_core::classify::result_ok_type(&path).is_some());
}

#[test]
fn pretty_format() {
    let tokens = vec![
        Token::Punct('<'),
        Token::Ident(cs("impl")),
        Token::Ident(cs("Iterator")),
        Token::Ident(cs("for")),
        Token::Ident(cs("MergeTrees")),
        Token::Punct('<'),
        Token::Ident(cs("AE")),
        Token::Punct(','),
        Token::Ident(cs("BE")),
        Token::Punct(','),
        Token::Ident(cs("AIT")),
        Token::Punct(','),
        Token::Ident(cs("BIT")),
        Token::Punct('>'),
        Token::Punct('>'),
        Token::Punct(':'),
        Token::Punct(':'),
        Token::Ident(cs("next")),
        Token::Punct('-'),
        Token::Punct('>'),
        Token::Ident(cs("Option")),
        Token::Punct('<'),
        Token::Ident(cs("Self")),
        Token::Punct(':'),
        Token::Punct(':'),
        Token::Ident(cs("Item")),
        Token::Punct('>'),
    ];
    assert_eq!(
        tokens_to_pretty_string(&tokens),
        "<impl Iterator for MergeTrees<AE, BE, AIT, BIT>>::next -> Option<Self::Item>"
    );
    let lex = vec![
        Token::Ident(cs("Lex")),
        Token::Punct('<'),
        Token::Punct('\''),
        Token::Ident(cs("buf")),
        Token::Punct('>'),
        Token::Punct(':'),
        Token::Punct(':'),
        Token::Ident(cs("take")),
    ];
    assert_eq!(tokens_to_pretty_string(&lex), "Lex<'buf>::take");
}

#[test]
fn recurse_into_result_bool() {
    let return_type = ReturnType::Typed(TypeExpr::Path(vec![
        seg("std"),
        seg("result"),
        seg_args("Result", vec![targ(ty_ident("bool"))]),
    ]));
    assert_eq!(replace(&return_type, &no_errs()), &["Ok(true)", "Ok(false)"]);
}

#[test]
fn recurse_into_result_result_bool() {
    let return_type = ReturnType::Typed(TypeExpr::Path(vec![
        seg("std"),
        seg("result"),
        seg_args(
            "Result",
            vec![targ(TypeExpr::Path(vec![seg_args(
                "Result",
                vec![targ(ty_ident("bool"))],
            )]))],
        ),
    ]));
    let error_expr = vec![
        Token::Ident(cs("anyhow")),
        Token::Punct('!'),
        Token::Group(Delim::Paren, vec![Token::Lit(cs("\"mutated\""))]),
    ];
    assert_eq!(
        replace(&return_type, &vec![error_expr]),
        &[
            "Ok(Ok(true))",
            "Ok(Ok(false))",
            "Ok(Err(anyhow!(\"mutated\")))",
            "Err(anyhow!(\"mutated\"))"
        ]
    );
}

#[test]
fn u16_replacements() {
    assert_eq!(replace(&ReturnType::Typed(ty_ident("u16")), &no_errs()), &["0", "1"]);
}

#[test]
fn isize_replacements() {
    assert_eq!(replace(&ReturnType::Typed(ty_ident("isize")), &no_errs()), &["0", "1", "-1"]);
}

#[test]
fn nonzero_integer_replacements() {
    let nzisize = ReturnType::Typed(TypeExpr::Path(vec![
        seg("std"),
        seg("num"),
        seg("NonZeroIsize"),
    ]));
    assert_eq!(replace(&nzisize, &no_errs()), &["1", "-1"]);

    let nzusize = ReturnType::Typed(TypeExpr::Path(vec![
        seg("std"),
        seg("num"),
        seg("NonZeroUsize"),
    ]));
    assert_eq!(replace(&nzusize, &no_errs()), &["1"]);

    let nzu32 = ReturnType::Typed(TypeExpr::Path(vec![seg("std"), seg("num"), seg("NonZeroU32")]));
    assert_eq!(replace(&nzu32, &no_errs()), &["1"]);
}

#[test]
fn unit_replacement() {
    assert_eq!(replace(&ReturnType::Typed(unit_ty()), &no_errs()), &["()"]);
}

#[test]
fn result_unit_replacement() {
    let with_error = ReturnType::Typed(TypeExpr::Path(vec![seg_args(
        "Result",
        vec![targ(unit_ty()), targ(ty_ident("Error"))],
    )]));
    assert_eq!(replace(&with_error, &no_errs()), &["Ok(())"]);

    let bare = ReturnType::Typed(TypeExpr::Path(vec![seg_args("Result", vec![targ(unit_ty())])]));
    assert_eq!(replace(&bare, &no_errs()), &["Ok(())"]);
}

#[test]
fn http_response_replacement() {
    assert_eq!(
        replace(&ReturnType::Typed(ty_ident("HttpResponse")), &no_errs()),
        &["HttpResponse::Ok().finish()"]
    );
}

#[test]
fn option_usize_replacement() {
    let return_type = ReturnType::Typed(TypeExpr::Path(vec![seg_args(
        "Option",
        vec![targ(ty_ident("usize"))],
    )]));
    assert_eq!(replace(&return_type, &no_errs()), &["None", "Some(0)", "Some(1)"]);
}

#[test]
fn box_usize_replacement() {
    let return_type = ReturnType::Typed(TypeExpr::Path(vec![seg_args(
        "Box",
        vec![targ(ty_ident("usize"))],
    )]));
    assert_eq!(replace(&return_type, &no_errs()), &["Box::new(0)", "Box::new(1)"]);
}

#[test]
fn box_unrecognized_type_replacement() {
    let return_type = ReturnType::Typed(TypeExpr::Path(vec![seg_args(
        "Box",
        vec![targ(ty_ident("MyObject"))],
    )]));
    assert_eq!(replace(&return_type, &no_errs()), &["Box::new(Default::default())"]);
}

#[test]
fn vec_string_replacement() {
    let return_type = ReturnType::Typed(TypeExpr::Path(vec![
        seg("std"),
        seg("vec"),
        seg_args("Vec", vec![targ(ty_ident("String"))]),
    ]));
    assert_eq!(
        replace(&return_type, &no_errs()),
        &["vec![]", "vec![String::new()]", "vec![\"xyzzy\".into()]"]
    );
}

#[test]
fn float_replacement() {
    assert_eq!(replace(&ReturnType::Typed(ty_ident("f32")), &no_errs()), &["0.0", "1.0", "-1.0"]);
}

#[test]
fn ref_replacement_recurses() {
    let return_type = ReturnType::Typed(TypeExpr::Ref {
        mutable: false,
        inner: Box::new(ty_ident("bool")),
    });
    assert_eq!(replace(&return_type, &no_errs()), &["&true", "&false"]);
}

#[test]
fn array_replacement() {
    let return_type = ReturnType::Typed(TypeExpr::Array {
        elem: Box::new(ty_ident("u8")),
        len: vec![Token::Lit(cs("256"))],
    });
    assert_eq!(replace(&return_type, &no_errs()), &["[0; 256]", "[1; 256]"]);
}

#[test]
fn arc_replacement() {
    // Also checks that the last segment matches, even behind an
    // atypical path prefix.
    let return_type = ReturnType::Typed(TypeExpr::Path(vec![
        seg("alloc"),
        seg("sync"),
        seg_args("Arc", vec![targ(ty_ident("String"))]),
    ]));
    assert_eq!(
        replace(&return_type, &no_errs()),
        &["Arc::new(String::new())", "Arc::new(\"xyzzy\".into())"]
    );
}

#[test]
fn rc_replacement() {
    let return_type = ReturnType::Typed(TypeExpr::Path(vec![
        seg("alloc"),
        seg("sync"),
        seg_args("Rc", vec![targ(ty_ident("String"))]),
    ]));
    assert_eq!(
        replace(&return_type, &no_errs()),
        &["Rc::new(String::new())", "Rc::new(\"xyzzy\".into())"]
    );
}

#[test]
fn btreeset_replacement() {
    let return_type = ReturnType::Typed(TypeExpr::Path(vec![
        seg("std"),
        seg("collections"),
        seg_args("BTreeSet", vec![targ(ty_ident("String"))]),
    ]));
    assert_eq!(
        replace(&return_type, &no_errs()),
        &[
            "BTreeSet::new()",
            "BTreeSet::from_iter([String::new()])",
            "BTreeSet::from_iter([\"xyzzy\".into()])"
        ]
    );
}

#[test]
fn cow_replacement() {
    let return_type = ReturnType::Typed(TypeExpr::Path(vec![seg_args(
        "Cow",
        vec![GenericArg::LifetimeArg(cs("static")), targ(ty_ident("str"))],
    )]));
    assert_eq!(
        replace(&return_type, &no_errs()),
        &[
            "Cow::new()",
            "Cow::from_iter([\"\"])",
            "Cow::new(\"\")",
            "Cow::from(\"\")",
            "Cow::from_iter([\"xyzzy\"])",
            "Cow::new(\"xyzzy\")",
            "Cow::from(\"xyzzy\")",
        ]
    );
}

#[test]
fn never_type_yields_nothing() {
    assert_eq!(replace(&ReturnType::Typed(TypeExpr::Never), &no_errs()), &[] as &[&str]);
}

#[test]
fn implicit_return_yields_unit() {
    assert_eq!(replace(&ReturnType::Implicit, &no_errs()), &["()"]);
}

#[test]
fn mut_ref_replacement_leaks() {
    let return_type = ReturnType::Typed(TypeExpr::Ref {
        mutable: true,
        inner: Box::new(ty_ident("u8")),
    });
    assert_eq!(
        replace(&return_type, &no_errs()),
        &["Box::leak(Box::new(0))", "Box::leak(Box::new(1))"]
    );
}

#[test]
fn ref_str_replacement_is_str() {
    let return_type = ReturnType::Typed(TypeExpr::Ref {
        mutable: false,
        inner: Box::new(ty_ident("str")),
    });
    assert_eq!(replace(&return_type, &no_errs()), &["\"\"", "\"xyzzy\""]);
}

#[test]
fn unknown_path_gets_default() {
    assert_eq!(
        replace(&ReturnType::Typed(ty_ident("Widget")), &no_errs()),
        &["Default::default()"]
    );
}

#[test]
fn bare_result_gets_err_per_error_expr() {
    let return_type = ReturnType::Typed(TypeExpr::Path(vec![seg("Result")]));
    let error_expr = vec![Token::Ident(cs("e"))];
    assert_eq!(
        replace(&return_type, &vec![error_expr]),
        &["Ok(Default::default())", "Err(e)"]
    );
}

#[test]
fn type_replacements_matches_entry_point() {
    let t = ty_ident("bool");
    let direct: Vec<String> = type_replacements(&t, &no_errs())
        .iter()
        .map(|ts| tokens_to_pretty_string(ts))
        .collect();
    assert_eq!(direct, &["true", "false"]);
}
