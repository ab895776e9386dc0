//! The discovery visitor, module resolution and the tree walker.

use mutants_core::ast::{Block, FileAst, FnItem, FnSig, ImplBlock, Item, ModItem, Span};
use mutants_core::attrs::Attr;
use mutants_core::resolve::{find_mod_source, SourceTree, TreeFile};
use mutants_core::source::SourceFile;
use mutants_core::types::{PathArgs, PathSegment, ReturnType, TypeExpr};
use mutants_core::walk::{walk_tree, Discovered, Options, WalkError};

fn cs(s: &str) -> Vec<char> {
    s.chars().collect()
}

fn ty_ident(name: &str) -> TypeExpr {
    TypeExpr::Path(vec![PathSegment { ident: cs(name), args: PathArgs::Plain }])
}

fn span() -> Span {
    Span { start_line: 1, start_col: 0, end_line: 3, end_col: 1 }
}

fn plain_fn(name: &str, output: ReturnType) -> FnItem {
    FnItem {
        attrs: vec![],
        sig: FnSig { is_unsafe: false, ident: cs(name), output },
        body: Block { empty: false, span: span() },
        nested: vec![],
    }
}

fn no_options() -> Options {
    Options {
        examine_globset: None,
        exclude_globset: None,
        examine_names: None,
        exclude_names: None,
        error_exprs: vec![],
        interrupt: false,
    }
}

fn lib_and_child_tree() -> SourceTree {
    let lib = FileAst {
        items: vec![
            Item::Fn(plain_fn("f", ReturnType::Typed(ty_ident("bool")))),
            Item::Mod(ModItem { attrs: vec![], name: cs("child"), content: None }),
        ],
    };
    let child = FileAst {
        items: vec![Item::Fn(plain_fn("g", ReturnType::Typed(ty_ident("u8"))))],
    };
    SourceTree {
        files: vec![
            TreeFile { path: cs("src/lib.rs"), code: String::from("lib text"), ast: Some(lib) },
            TreeFile {
                path: cs("src/child.rs"),
                code: String::from("child text"),
                ast: Some(child),
            },
        ],
    }
}

fn entry() -> Vec<SourceFile> {
    vec![SourceFile::new("src/lib.rs", "demo", "lib text")]
}

fn mutant_replacements(d: &Discovered) -> Vec<String> {
    d.mutants.iter().map(|m| m.replacement.clone()).collect()
}

#[test]
fn walks_entry_and_discovered_module() {
    let tree = lib_and_child_tree();
    let d = walk_tree(entry(), &tree, &no_options()).unwrap();
    assert_eq!(mutant_replacements(&d), &["true", "false", "0", "1"]);
    assert_eq!(d.mutants[0].function_name, "f");
    assert_eq!(d.mutants[0].return_type, "-> bool");
    assert_eq!(d.mutants[2].function_name, "g");
    assert_eq!(d.files.len(), 2);
    assert_eq!(d.files[0].tree_relative_path, cs("src/lib.rs"));
    assert_eq!(d.files[1].tree_relative_path, cs("src/child.rs"));
    assert_eq!(d.files[1].package, cs("demo"));
}

#[test]
fn excluded_file_still_discovers_modules() {
    let tree = lib_and_child_tree();
    let mut options = no_options();
    options.exclude_globset = Some(vec![cs("lib")]);
    let d = walk_tree(entry(), &tree, &options).unwrap();
    // lib.rs is dropped from the output but its `mod child;` is still
    // followed.
    assert_eq!(mutant_replacements(&d), &["0", "1"]);
    assert_eq!(d.files.len(), 1);
    assert_eq!(d.files[0].tree_relative_path, cs("src/child.rs"));
}

#[test]
fn examine_names_keeps_only_matching_mutants() {
    let tree = lib_and_child_tree();
    let mut options = no_options();
    options.examine_names = Some(vec![cs("with true")]);
    let d = walk_tree(entry(), &tree, &options).unwrap();
    assert_eq!(mutant_replacements(&d), &["true"]);
    assert_eq!(d.files.len(), 2);
}

#[test]
fn exclude_names_drops_matching_mutants() {
    let tree = lib_and_child_tree();
    let mut options = no_options();
    options.exclude_names = Some(vec![cs("with true"), cs("with 0")]);
    let d = walk_tree(entry(), &tree, &options).unwrap();
    assert_eq!(mutant_replacements(&d), &["false", "1"]);
}

#[test]
fn interruption_stops_the_walk() {
    let tree = lib_and_child_tree();
    let mut options = no_options();
    options.interrupt = true;
    match walk_tree(entry(), &tree, &options) {
        Err(WalkError::Interrupted) => (),
        _ => panic!("expected interruption"),
    }
}

#[test]
fn missing_file_is_a_parse_error() {
    let tree = SourceTree { files: vec![] };
    match walk_tree(entry(), &tree, &no_options()) {
        Err(WalkError::FileParseError(p)) => assert_eq!(p, cs("src/lib.rs")),
        _ => panic!("expected a parse error"),
    }
}

#[test]
fn unparseable_file_is_a_parse_error() {
    let tree = SourceTree {
        files: vec![TreeFile { path: cs("src/lib.rs"), code: String::new(), ast: None }],
    };
    match walk_tree(entry(), &tree, &no_options()) {
        Err(WalkError::FileParseError(p)) => assert_eq!(p, cs("src/lib.rs")),
        _ => panic!("expected a parse error"),
    }
}

fn single_file_tree(items: Vec<Item>) -> SourceTree {
    SourceTree {
        files: vec![TreeFile {
            path: cs("src/lib.rs"),
            code: String::from("lib text"),
            ast: Some(FileAst { items }),
        }],
    }
}

#[test]
fn unsafe_fn_is_skipped() {
    let mut f = plain_fn("f", ReturnType::Typed(ty_ident("bool")));
    f.sig.is_unsafe = true;
    let tree = single_file_tree(vec![Item::Fn(f)]);
    let d = walk_tree(entry(), &tree, &no_options()).unwrap();
    assert!(d.mutants.is_empty());
    assert_eq!(d.files.len(), 1);
}

#[test]
fn empty_fn_is_skipped() {
    let mut f = plain_fn("f", ReturnType::Typed(ty_ident("bool")));
    f.body.empty = true;
    let tree = single_file_tree(vec![Item::Fn(f)]);
    let d = walk_tree(entry(), &tree, &no_options()).unwrap();
    assert!(d.mutants.is_empty());
}

#[test]
fn test_attribute_skips_fn() {
    let mut f = plain_fn("f", ReturnType::Typed(ty_ident("bool")));
    f.attrs.push(Attr { path: vec![cs("test")], nested: None });
    let tree = single_file_tree(vec![Item::Fn(f)]);
    let d = walk_tree(entry(), &tree, &no_options()).unwrap();
    assert!(d.mutants.is_empty());
}

#[test]
fn cfg_test_attribute_skips_fn() {
    let mut f = plain_fn("f", ReturnType::Typed(ty_ident("bool")));
    f.attrs.push(Attr { path: vec![cs("cfg")], nested: Some(vec![vec![cs("test")]]) });
    let tree = single_file_tree(vec![Item::Fn(f)]);
    let d = walk_tree(entry(), &tree, &no_options()).unwrap();
    assert!(d.mutants.is_empty());
}

#[test]
fn mutants_skip_attribute_skips_fn() {
    let mut f = plain_fn("f", ReturnType::Typed(ty_ident("bool")));
    f.attrs.push(Attr { path: vec![cs("mutants"), cs("skip")], nested: None });
    let tree = single_file_tree(vec![Item::Fn(f)]);
    let d = walk_tree(entry(), &tree, &no_options()).unwrap();
    assert!(d.mutants.is_empty());
}

#[test]
fn cfg_attr_mutants_skip_skips_fn() {
    let mut f = plain_fn("f", ReturnType::Typed(ty_ident("bool")));
    f.attrs.push(Attr {
        path: vec![cs("cfg_attr")],
        nested: Some(vec![vec![cs("test")], vec![cs("mutants"), cs("skip")]]),
    });
    let tree = single_file_tree(vec![Item::Fn(f)]);
    let d = walk_tree(entry(), &tree, &no_options()).unwrap();
    assert!(d.mutants.is_empty());
}

#[test]
fn malformed_attribute_meta_is_not_a_skip() {
    let mut f = plain_fn("f", ReturnType::Typed(ty_ident("bool")));
    f.attrs.push(Attr { path: vec![cs("cfg")], nested: None });
    let tree = single_file_tree(vec![Item::Fn(f)]);
    let d = walk_tree(entry(), &tree, &no_options()).unwrap();
    assert_eq!(d.mutants.len(), 2);
}

#[test]
fn impl_method_named_new_is_skipped() {
    let imp = ImplBlock {
        attrs: vec![],
        self_ty: ty_ident("Foo"),
        trait_name: None,
        items: vec![
            Item::Fn(plain_fn("new", ReturnType::Typed(ty_ident("bool")))),
            Item::Fn(plain_fn("get", ReturnType::Typed(ty_ident("u8")))),
        ],
    };
    let tree = single_file_tree(vec![Item::Impl(imp)]);
    let d = walk_tree(entry(), &tree, &no_options()).unwrap();
    assert_eq!(mutant_replacements(&d), &["0", "1"]);
    assert_eq!(d.mutants[0].function_name, "Foo::get");
}

#[test]
fn trait_impl_namespace_names_the_trait() {
    let imp = ImplBlock {
        attrs: vec![],
        self_ty: ty_ident("Point"),
        trait_name: Some(cs("Order")),
        items: vec![Item::Fn(plain_fn("cmp", ReturnType::Typed(ty_ident("bool"))))],
    };
    let tree = single_file_tree(vec![Item::Impl(imp)]);
    let d = walk_tree(entry(), &tree, &no_options()).unwrap();
    assert_eq!(d.mutants[0].function_name, "<impl Order for Point>::cmp");
}

#[test]
fn default_trait_impl_is_skipped() {
    let imp = ImplBlock {
        attrs: vec![],
        self_ty: ty_ident("Point"),
        trait_name: Some(cs("Default")),
        items: vec![Item::Fn(plain_fn("default", ReturnType::Typed(ty_ident("bool"))))],
    };
    let tree = single_file_tree(vec![Item::Impl(imp)]);
    let d = walk_tree(entry(), &tree, &no_options()).unwrap();
    assert!(d.mutants.is_empty());
}

#[test]
fn excluded_mod_prunes_its_subtree() {
    let m = ModItem {
        attrs: vec![Attr { path: vec![cs("cfg")], nested: Some(vec![vec![cs("test")]]) }],
        name: cs("inner"),
        content: Some(vec![Item::Fn(plain_fn("f", ReturnType::Typed(ty_ident("bool"))))]),
    };
    let tree = single_file_tree(vec![Item::Mod(m)]);
    let d = walk_tree(entry(), &tree, &no_options()).unwrap();
    assert!(d.mutants.is_empty());
}

#[test]
fn inline_mod_extends_the_namespace() {
    let m = ModItem {
        attrs: vec![],
        name: cs("inner"),
        content: Some(vec![Item::Fn(plain_fn("f", ReturnType::Typed(ty_ident("bool"))))]),
    };
    let tree = single_file_tree(vec![Item::Mod(m)]);
    let d = walk_tree(entry(), &tree, &no_options()).unwrap();
    assert_eq!(d.mutants[0].function_name, "inner::f");
}

#[test]
fn mutant_name_is_stable() {
    let tree = lib_and_child_tree();
    let d = walk_tree(entry(), &tree, &no_options()).unwrap();
    assert_eq!(d.mutants[0].name(), "src/lib.rs: replace f -> bool with true");
}

#[test]
fn find_mod_source_prefers_sibling_file() {
    let tree = lib_and_child_tree();
    let parent = SourceFile::new("src/lib.rs", "demo", "");
    let found = find_mod_source(&tree, &parent, &cs("child")).unwrap();
    assert_eq!(found, cs("src/child.rs"));
}

#[test]
fn find_mod_source_falls_back_to_mod_rs() {
    let tree = SourceTree {
        files: vec![TreeFile {
            path: cs("src/child/mod.rs"),
            code: String::new(),
            ast: None,
        }],
    };
    let parent = SourceFile::new("src/lib.rs", "demo", "");
    let found = find_mod_source(&tree, &parent, &cs("child")).unwrap();
    assert_eq!(found, cs("src/child/mod.rs"));
}

#[test]
fn find_mod_source_under_non_root_file() {
    // A parent not named mod.rs, lib.rs or main.rs searches beneath a
    // directory named after itself.
    let tree = SourceTree {
        files: vec![TreeFile { path: cs("src/top/leaf.rs"), code: String::new(), ast: None }],
    };
    let parent = SourceFile::new("src/top.rs", "demo", "");
    let found = find_mod_source(&tree, &parent, &cs("leaf")).unwrap();
    assert_eq!(found, cs("src/top/leaf.rs"));
}

#[test]
fn find_mod_source_missing_is_none() {
    let tree = lib_and_child_tree();
    let parent = SourceFile::new("src/lib.rs", "demo", "");
    assert!(find_mod_source(&tree, &parent, &cs("absent")).is_none());
}
