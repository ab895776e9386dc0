//! The discovery visitor: walk one parsed file and collect mutants.
//!
//! The visitor keeps a namespace stack, joined with `::` to name each
//! mutant, applies the attribute and signature filters, and records
//! the names of `mod name;` items for the walker to resolve later.

use crate::ast::{item_view, items_view, lemma_items_view, FnView, ImplView, Item, ItemView, Span};
use crate::attrs::{attrs_excluded, lemma_strs_view, spec_attrs_excluded, strs_view};
use crate::replace::{return_type_replacements, spec_return_type_replacements};
use crate::source::{
    clone_source_file, join_namespace, mutants_view, spec_join_namespace, Genre, Mutant,
    MutantView, SourceFile, SourceFileView,
};
use crate::text::{chars_eq_str, chars_to_string, push_chars, str_to_chars};
use crate::token::{
    clone_chars, lemma_toklists_view, pretty_chars, spec_pretty, toklists_view,
    tokens_to_pretty_string, TokView, Token,
};
use crate::types::{
    return_type_to_string, spec_return_type_string, spec_type_tokens, type_to_tokens, ReturnType,
    ReturnTypeView,
};
use vstd::prelude::*;

verus! {

/// The mutants made for one function: one per replacement, in order.
pub open spec fn spec_mutants_of(
    reps: Seq<Seq<TokView>>,
    name: Seq<char>,
    rt: Seq<char>,
    file: SourceFileView,
    span: Span,
) -> Seq<MutantView>
    decreases reps,
{
    if reps.len() == 0 {
        Seq::empty()
    } else {
        spec_mutants_of(reps.drop_last(), name, rt, file, span).push(
            MutantView {
                source_file: file,
                function_name: name,
                return_type: rt,
                replacement: spec_pretty(reps.last()),
                span: span,
                genre: Genre::FnValue,
            },
        )
    }
}

/// The mutants made for a function with the given return type, at the
/// given namespace, in the given file.
pub open spec fn spec_fn_mutants(
    output: ReturnTypeView,
    span: Span,
    ns: Seq<Seq<char>>,
    file: SourceFileView,
    errs: Seq<Seq<TokView>>,
) -> Seq<MutantView> {
    spec_mutants_of(
        spec_return_type_replacements(output, errs),
        spec_join_namespace(ns),
        spec_return_type_string(output),
        file,
        span,
    )
}

/// A function is skipped when its signature is unsafe, an attribute
/// excludes it, its body is empty, or it is an impl method named `new`.
pub open spec fn spec_fn_excluded(f: FnView, in_impl: bool) -> bool {
    f.sig.is_unsafe || spec_attrs_excluded(f.attrs) || f.body.empty || (in_impl && f.sig.ident
        == "new"@)
}

/// The namespace entry for an impl block: the pretty-printed self
/// type, or `<impl Trait for Type>` when the block implements a trait.
pub open spec fn spec_impl_name(b: ImplView) -> Seq<char> {
    let self_name = spec_pretty(spec_type_tokens(b.self_ty));
    match b.trait_name {
        Some(tn) => "<impl "@ + tn + " for "@ + self_name + seq!['>'],
        None => self_name,
    }
}

/// An impl block is skipped when an attribute excludes it or it
/// implements a trait whose last segment is `Default`.
pub open spec fn spec_impl_excluded(b: ImplView) -> bool {
    spec_attrs_excluded(b.attrs) || (b.trait_name matches Some(tn) && tn == "Default"@)
}

/// What visiting one item adds: mutants, and names of external modules.
pub open spec fn spec_visit_item(
    item: ItemView,
    ns: Seq<Seq<char>>,
    file: SourceFileView,
    errs: Seq<Seq<TokView>>,
    in_impl: bool,
) -> (Seq<MutantView>, Seq<Seq<char>>)
    decreases item,
{
    match item {
        ItemView::Fn(f) => {
            if spec_fn_excluded(f, in_impl) {
                (Seq::empty(), Seq::empty())
            } else {
                let ns2 = ns.push(f.sig.ident);
                let sub = spec_visit_items(f.nested, ns2, file, errs, false);
                (spec_fn_mutants(f.sig.output, f.body.span, ns2, file, errs) + sub.0, sub.1)
            }
        },
        ItemView::Impl(b) => {
            if spec_impl_excluded(b) {
                (Seq::empty(), Seq::empty())
            } else {
                spec_visit_items(b.items, ns.push(spec_impl_name(b)), file, errs, true)
            }
        },
        ItemView::Mod(m) => {
            if spec_attrs_excluded(m.attrs) {
                (Seq::empty(), Seq::empty())
            } else {
                match m.content {
                    None => (Seq::empty(), seq![m.name]),
                    Some(items) => spec_visit_items(items, ns.push(m.name), file, errs, false),
                }
            }
        },
    }
}

/// What visiting a list of items adds, in order.
pub open spec fn spec_visit_items(
    items: Seq<ItemView>,
    ns: Seq<Seq<char>>,
    file: SourceFileView,
    errs: Seq<Seq<TokView>>,
    in_impl: bool,
) -> (Seq<MutantView>, Seq<Seq<char>>)
    decreases items,
{
    if items.len() == 0 {
        (Seq::empty(), Seq::empty())
    } else {
        let a = spec_visit_items(items.drop_last(), ns, file, errs, in_impl);
        let b = spec_visit_item(items.last(), ns, file, errs, in_impl);
        (a.0 + b.0, a.1 + b.1)
    }
}

/// A function excluded by the filters yields nothing: no mutants and
/// no module discoveries, whatever its body holds.
pub proof fn lemma_skipped_fn_yields_nothing(
    f: FnView,
    ns: Seq<Seq<char>>,
    file: SourceFileView,
    errs: Seq<Seq<TokView>>,
    in_impl: bool,
)
    requires
        spec_fn_excluded(f, in_impl),
    ensures
        spec_visit_item(ItemView::Fn(f), ns, file, errs, in_impl) == (
            Seq::<MutantView>::empty(),
            Seq::<Seq<char>>::empty(),
        ),
{
}

/// An attribute-excluded impl or module prunes its whole subtree.
pub proof fn lemma_excluded_subtree_yields_nothing(
    item: ItemView,
    ns: Seq<Seq<char>>,
    file: SourceFileView,
    errs: Seq<Seq<TokView>>,
    in_impl: bool,
)
    requires
        item matches ItemView::Impl(b) ==> spec_impl_excluded(b),
        item matches ItemView::Mod(m) ==> spec_attrs_excluded(m.attrs),
        item matches ItemView::Fn(f) ==> spec_fn_excluded(f, in_impl),
    ensures
        spec_visit_item(item, ns, file, errs, in_impl) == (
            Seq::<MutantView>::empty(),
            Seq::<Seq<char>>::empty(),
        ),
{
}

/// Visitor that recursively traverses a file's items, accumulating
/// mutation opportunities and the external modules it references.
pub struct DiscoveryVisitor {
    /// All the mutants generated so far.
    pub mutants: Vec<Mutant>,
    /// The file being visited.
    pub source_file: SourceFile,
    /// The stack of namespaces we are currently inside.
    pub namespace_stack: Vec<Vec<char>>,
    /// The names from `mod foo;` items to be resolved later.
    pub external_mods: Vec<Vec<char>>,
    /// Parsed error expressions, as token sequences.
    pub error_exprs: Vec<Vec<Token>>,
}

impl DiscoveryVisitor {
    /// Collect the mutants for one function at the current namespace.
    fn collect_fn_mutants(&mut self, output: &ReturnType, span: Span)
        ensures
            mutants_view(final(self).mutants@) == mutants_view(old(self).mutants@)
                + spec_fn_mutants(
                output@,
                span,
                strs_view(old(self).namespace_stack@),
                old(self).source_file@,
                toklists_view(old(self).error_exprs@),
            ),
            final(self).namespace_stack == old(self).namespace_stack,
            final(self).external_mods == old(self).external_mods,
            final(self).source_file == old(self).source_file,
            final(self).error_exprs == old(self).error_exprs,
    {
        let name_chars = join_namespace(&self.namespace_stack);
        let full_name = chars_to_string(&name_chars);
        let rt_str = return_type_to_string(output);
        let reps = return_type_replacements(output, &self.error_exprs);
        let ghost rv = toklists_view(reps@);
        let ghost m0 = mutants_view(old(self).mutants@);
        let n = reps.len();
        let mut i: usize = 0;
        while i < n
            invariant
                i <= n,
                n == reps.len(),
                rv == toklists_view(reps@),
                full_name@ == spec_join_namespace(strs_view(old(self).namespace_stack@)),
                rt_str@ == spec_return_type_string(output@),
                m0 == mutants_view(old(self).mutants@),
                mutants_view(self.mutants@) == m0 + spec_mutants_of(
                    rv.take(i as int),
                    full_name@,
                    rt_str@,
                    old(self).source_file@,
                    span,
                ),
                self.namespace_stack == old(self).namespace_stack,
                self.external_mods == old(self).external_mods,
                self.source_file == old(self).source_file,
                self.error_exprs == old(self).error_exprs,
            decreases n - i,
        {
            proof {
                lemma_toklists_view(reps@);
                assert(rv.take(i as int + 1).drop_last() =~= rv.take(i as int));
            }
            let ghost ms0 = self.mutants@;
            let m = Mutant {
                source_file: clone_source_file(&self.source_file),
                function_name: full_name.clone(),
                return_type: rt_str.clone(),
                replacement: tokens_to_pretty_string(&reps[i]),
                span: span,
                genre: Genre::FnValue,
            };
            self.mutants.push(m);
            proof {
                assert(self.mutants@.drop_last() =~= ms0);
            }
            i += 1;
        }
        proof {
            lemma_toklists_view(reps@);
            assert(rv.take(n as int) =~= rv);
        }
    }

    /// Visit a list of items, with `in_impl` saying whether they are
    /// the items of an impl block.
    pub fn visit_items(&mut self, items: &Vec<Item>, in_impl: bool)
        ensures
            mutants_view(final(self).mutants@) == mutants_view(old(self).mutants@)
                + spec_visit_items(
                items_view(items@),
                strs_view(old(self).namespace_stack@),
                old(self).source_file@,
                toklists_view(old(self).error_exprs@),
                in_impl,
            ).0,
            strs_view(final(self).external_mods@) == strs_view(old(self).external_mods@)
                + spec_visit_items(
                items_view(items@),
                strs_view(old(self).namespace_stack@),
                old(self).source_file@,
                toklists_view(old(self).error_exprs@),
                in_impl,
            ).1,
            strs_view(final(self).namespace_stack@) == strs_view(old(self).namespace_stack@),
            final(self).source_file == old(self).source_file,
            final(self).error_exprs == old(self).error_exprs,
        decreases items_view(items@),
    {
        let ghost itv = items_view(items@);
        let ghost ns0 = strs_view(old(self).namespace_stack@);
        let ghost file0 = old(self).source_file@;
        let ghost errs0 = toklists_view(old(self).error_exprs@);
        let n = items.len();
        let mut j: usize = 0;
        while j < n
            invariant
                j <= n,
                n == items.len(),
                itv == items_view(items@),
                ns0 == strs_view(old(self).namespace_stack@),
                file0 == old(self).source_file@,
                errs0 == toklists_view(old(self).error_exprs@),
                strs_view(self.namespace_stack@) == ns0,
                self.source_file == old(self).source_file,
                self.error_exprs == old(self).error_exprs,
                mutants_view(self.mutants@) == mutants_view(old(self).mutants@) + spec_visit_items(
                    itv.take(j as int),
                    ns0,
                    file0,
                    errs0,
                    in_impl,
                ).0,
                strs_view(self.external_mods@) == strs_view(old(self).external_mods@)
                    + spec_visit_items(itv.take(j as int), ns0, file0, errs0, in_impl).1,
            decreases n - j,
        {
            proof {
                lemma_items_view(items@);
                assert(itv.take(j as int + 1).drop_last() =~= itv.take(j as int));
                assert(itv.take(j as int + 1).last() == itv[j as int]);
                assert(decreases_to!(itv => itv[j as int]));
            }
            let ghost pre_m = mutants_view(self.mutants@);
            let ghost pre_e = strs_view(self.external_mods@);
            match &items[j] {
                Item::Fn(f) => {
                    let ghost fv = item_view(items@[j as int])->Fn_0;
                    let skip = crate::ast::fn_sig_excluded(&f.sig) || attrs_excluded(&f.attrs) || (
                    in_impl && chars_eq_str(&f.sig.ident, "new")) || crate::ast::block_is_empty(
                        &f.body,
                    );
                    proof {
                        assert(skip == spec_fn_excluded(fv, in_impl));
                    }
                    if !skip {
                        let ghost stack_before = self.namespace_stack@;
                        self.namespace_stack.push(clone_chars(&f.sig.ident));
                        proof {
                            assert(self.namespace_stack@.drop_last() =~= stack_before);
                            assert(strs_view(self.namespace_stack@) == strs_view(
                                stack_before,
                            ).push(f.sig.ident@));
                        }
                        self.collect_fn_mutants(&f.sig.output, f.body.span);
                        proof {
                            let iv = itv[j as int];
                            assert(iv->Fn_0 == fv);
                            assert(decreases_to!(iv => iv->Fn_0));
                            assert(decreases_to!(fv => fv.nested));
                        }
                        self.visit_items(&f.nested, false);
                        let ghost s1 = self.namespace_stack@;
                        proof {
                            lemma_strs_view(s1);
                        }
                        let popped = self.namespace_stack.pop();
                        proof {
                            assert(self.namespace_stack@ =~= s1.drop_last());
                            assert(strs_view(s1) == strs_view(s1.drop_last()).push(s1.last()@));
                            assert(strs_view(s1) == ns0.push(f.sig.ident@));
                            crate::text::lemma_push_cancel(
                                strs_view(s1.drop_last()),
                                ns0,
                                s1.last()@,
                                f.sig.ident@,
                            );
                            assert(strs_view(self.namespace_stack@) =~= ns0);
                            let take1 = itv.take(j as int + 1);
                            let ns2 = ns0.push(f.sig.ident@);
                            assert(fv.sig == crate::ast::sig_view(f.sig));
                            assert(fv.nested == items_view(f.nested@));
                            assert(!spec_fn_excluded(fv, in_impl));
                            assert(spec_visit_item(itv[j as int], ns0, file0, errs0, in_impl).0
                                == spec_fn_mutants(f.sig.output@, f.body.span, ns2, file0, errs0)
                                + spec_visit_items(items_view(f.nested@), ns2, file0, errs0,
                                false).0);
                            assert(spec_visit_item(itv[j as int], ns0, file0, errs0, in_impl).1
                                == spec_visit_items(items_view(f.nested@), ns2, file0, errs0,
                                false).1);
                            assert(spec_visit_items(take1, ns0, file0, errs0, in_impl).0
                                == spec_visit_items(itv.take(j as int), ns0, file0, errs0,
                                in_impl).0 + spec_visit_item(itv[j as int], ns0, file0, errs0,
                                in_impl).0);
                            assert(mutants_view(self.mutants@) =~= mutants_view(
                                old(self).mutants@,
                            ) + spec_visit_items(itv.take(j as int + 1), ns0, file0, errs0,
                                in_impl).0);
                            assert(strs_view(self.external_mods@) =~= strs_view(
                                old(self).external_mods@,
                            ) + spec_visit_items(itv.take(j as int + 1), ns0, file0, errs0,
                                in_impl).1);
                        }
                    } else {
                        proof {
                            assert(spec_visit_item(itv[j as int], ns0, file0, errs0, in_impl)
                                == (Seq::<MutantView>::empty(), Seq::<Seq<char>>::empty()));
                            assert(spec_visit_items(itv.take(j as int + 1), ns0, file0, errs0,
                                in_impl).0 == spec_visit_items(itv.take(j as int), ns0, file0,
                                errs0, in_impl).0 + spec_visit_item(itv[j as int], ns0, file0,
                                errs0, in_impl).0);
                            assert(spec_visit_items(itv.take(j as int + 1), ns0, file0, errs0,
                                in_impl).1 == spec_visit_items(itv.take(j as int), ns0, file0,
                                errs0, in_impl).1 + spec_visit_item(itv[j as int], ns0, file0,
                                errs0, in_impl).1);
                            assert(mutants_view(self.mutants@) =~= mutants_view(
                                old(self).mutants@,
                            ) + spec_visit_items(itv.take(j as int + 1), ns0, file0, errs0,
                                in_impl).0);
                            assert(strs_view(self.external_mods@) =~= strs_view(
                                old(self).external_mods@,
                            ) + spec_visit_items(itv.take(j as int + 1), ns0, file0, errs0,
                                in_impl).1);
                        }
                    }
                },
                Item::Impl(b) => {
                    let ghost bv = item_view(items@[j as int])->Impl_0;
                    let excluded = attrs_excluded(&b.attrs);
                    let skip_default = match &b.trait_name {
                        Some(tn) => chars_eq_str(tn, "Default"),
                        None => false,
                    };
                    if !excluded && !skip_default {
                        let st = type_to_tokens(&b.self_ty);
                        let self_name = pretty_chars(&st);
                        let name: Vec<char> = match &b.trait_name {
                            Some(tn) => {
                                let mut v = str_to_chars("<impl ");
                                push_chars(&mut v, tn);
                                let for_word = str_to_chars(" for ");
                                push_chars(&mut v, &for_word);
                                push_chars(&mut v, &self_name);
                                v.push('>');
                                proof {
                                    assert(v@ =~= spec_impl_name(bv));
                                }
                                v
                            },
                            None => self_name,
                        };
                        proof {
                            assert(name@ == spec_impl_name(bv));
                        }
                        let ghost stack_before = self.namespace_stack@;
                        self.namespace_stack.push(name);
                        proof {
                            assert(self.namespace_stack@.drop_last() =~= stack_before);
                            assert(strs_view(self.namespace_stack@) == strs_view(
                                stack_before,
                            ).push(spec_impl_name(bv)));
                            let iv = itv[j as int];
                            assert(iv->Impl_0 == bv);
                            assert(decreases_to!(iv => iv->Impl_0));
                            assert(decreases_to!(bv => bv.items));
                        }
                        self.visit_items(&b.items, true);
                        let ghost s1 = self.namespace_stack@;
                        proof {
                            lemma_strs_view(s1);
                        }
                        let popped = self.namespace_stack.pop();
                        proof {
                            assert(self.namespace_stack@ =~= s1.drop_last());
                            assert(strs_view(s1) == strs_view(s1.drop_last()).push(s1.last()@));
                            assert(strs_view(s1) == ns0.push(spec_impl_name(bv)));
                            crate::text::lemma_push_cancel(
                                strs_view(s1.drop_last()),
                                ns0,
                                s1.last()@,
                                spec_impl_name(bv),
                            );
                            assert(strs_view(self.namespace_stack@) =~= ns0);
                            let ns2 = ns0.push(spec_impl_name(bv));
                            assert(bv.items == items_view(b.items@));
                            assert(!spec_impl_excluded(bv));
                            assert(spec_visit_item(itv[j as int], ns0, file0, errs0, in_impl)
                                == spec_visit_items(items_view(b.items@), ns2, file0, errs0,
                                true));
                            assert(spec_visit_items(itv.take(j as int + 1), ns0, file0, errs0,
                                in_impl).0 == spec_visit_items(itv.take(j as int), ns0, file0,
                                errs0, in_impl).0 + spec_visit_item(itv[j as int], ns0, file0,
                                errs0, in_impl).0);
                            assert(spec_visit_items(itv.take(j as int + 1), ns0, file0, errs0,
                                in_impl).1 == spec_visit_items(itv.take(j as int), ns0, file0,
                                errs0, in_impl).1 + spec_visit_item(itv[j as int], ns0, file0,
                                errs0, in_impl).1);
                            assert(mutants_view(self.mutants@) =~= mutants_view(
                                old(self).mutants@,
                            ) + spec_visit_items(itv.take(j as int + 1), ns0, file0, errs0,
                                in_impl).0);
                            assert(strs_view(self.external_mods@) =~= strs_view(
                                old(self).external_mods@,
                            ) + spec_visit_items(itv.take(j as int + 1), ns0, file0, errs0,
                                in_impl).1);
                        }
                    } else {
                        proof {
                            assert(spec_impl_excluded(bv));
                            assert(spec_visit_item(itv[j as int], ns0, file0, errs0, in_impl)
                                == (Seq::<MutantView>::empty(), Seq::<Seq<char>>::empty()));
                            assert(spec_visit_items(itv.take(j as int + 1), ns0, file0, errs0,
                                in_impl).0 == spec_visit_items(itv.take(j as int), ns0, file0,
                                errs0, in_impl).0 + spec_visit_item(itv[j as int], ns0, file0,
                                errs0, in_impl).0);
                            assert(spec_visit_items(itv.take(j as int + 1), ns0, file0, errs0,
                                in_impl).1 == spec_visit_items(itv.take(j as int), ns0, file0,
                                errs0, in_impl).1 + spec_visit_item(itv[j as int], ns0, file0,
                                errs0, in_impl).1);
                            assert(mutants_view(self.mutants@) =~= mutants_view(
                                old(self).mutants@,
                            ) + spec_visit_items(itv.take(j as int + 1), ns0, file0, errs0,
                                in_impl).0);
                            assert(strs_view(self.external_mods@) =~= strs_view(
                                old(self).external_mods@,
                            ) + spec_visit_items(itv.take(j as int + 1), ns0, file0, errs0,
                                in_impl).1);
                        }
                    }
                },
                Item::Mod(m) => {
                    let ghost mv = item_view(items@[j as int])->Mod_0;
                    if !attrs_excluded(&m.attrs) {
                        match &m.content {
                            None => {
                                let ghost mods_before = self.external_mods@;
                                self.external_mods.push(clone_chars(&m.name));
                                proof {
                                    assert(self.external_mods@.drop_last() =~= mods_before);
                                    assert(strs_view(self.external_mods@) == strs_view(
                                        mods_before,
                                    ).push(m.name@));
                                    assert(mv.name == m.name@);
                                    assert(!spec_attrs_excluded(mv.attrs));
                                    assert(mv.content is None);
                                    assert(spec_visit_item(itv[j as int], ns0, file0, errs0,
                                        in_impl) == (
                                        Seq::<MutantView>::empty(),
                                        seq![m.name@],
                                    ));
                                    assert(spec_visit_items(itv.take(j as int + 1), ns0, file0,
                                        errs0, in_impl).1 == spec_visit_items(
                                        itv.take(j as int),
                                        ns0,
                                        file0,
                                        errs0,
                                        in_impl,
                                    ).1 + seq![m.name@]);
                                    assert(mutants_view(self.mutants@) =~= mutants_view(
                                        old(self).mutants@,
                                    ) + spec_visit_items(itv.take(j as int + 1), ns0, file0,
                                        errs0, in_impl).0);
                                    assert(strs_view(self.external_mods@) =~= strs_view(
                                        old(self).external_mods@,
                                    ) + spec_visit_items(itv.take(j as int + 1), ns0, file0,
                                        errs0, in_impl).1);
                                }
                            },
                            Some(content) => {
                                let ghost stack_before = self.namespace_stack@;
                                self.namespace_stack.push(clone_chars(&m.name));
                                proof {
                                    assert(self.namespace_stack@.drop_last() =~= stack_before);
                                    assert(strs_view(self.namespace_stack@) == strs_view(
                                        stack_before,
                                    ).push(m.name@));
                                    let iv = itv[j as int];
                                    assert(iv->Mod_0 == mv);
                                    assert(decreases_to!(iv => iv->Mod_0));
                                    assert(mv.content matches Some(cv) && cv == items_view(
                                        content@,
                                    ));
                                    assert(decreases_to!(mv => mv.content));
                                    assert(decreases_to!(mv.content => items_view(content@)));
                                }
                                self.visit_items(content, false);
                                let ghost s1 = self.namespace_stack@;
                                proof {
                                    lemma_strs_view(s1);
                                }
                                let popped = self.namespace_stack.pop();
                                proof {
                                    assert(self.namespace_stack@ =~= s1.drop_last());
                                    assert(strs_view(s1) == strs_view(s1.drop_last()).push(
                                        s1.last()@,
                                    ));
                                    assert(strs_view(s1) == ns0.push(m.name@));
                                    crate::text::lemma_push_cancel(
                                        strs_view(s1.drop_last()),
                                        ns0,
                                        s1.last()@,
                                        m.name@,
                                    );
                                    assert(strs_view(self.namespace_stack@) =~= ns0);
                                    let ns2 = ns0.push(m.name@);
                                    assert(mv.name == m.name@);
                                    assert(!spec_attrs_excluded(mv.attrs));
                                    assert(spec_visit_item(itv[j as int], ns0, file0, errs0,
                                        in_impl) == spec_visit_items(
                                        items_view(content@),
                                        ns2,
                                        file0,
                                        errs0,
                                        false,
                                    ));
                                    assert(spec_visit_items(itv.take(j as int + 1), ns0, file0,
                                        errs0, in_impl).0 == spec_visit_items(
                                        itv.take(j as int),
                                        ns0,
                                        file0,
                                        errs0,
                                        in_impl,
                                    ).0 + spec_visit_item(itv[j as int], ns0, file0, errs0,
                                        in_impl).0);
                                    assert(mutants_view(self.mutants@) =~= mutants_view(
                                        old(self).mutants@,
                                    ) + spec_visit_items(itv.take(j as int + 1), ns0, file0,
                                        errs0, in_impl).0);
                                    assert(strs_view(self.external_mods@) =~= strs_view(
                                        old(self).external_mods@,
                                    ) + spec_visit_items(itv.take(j as int + 1), ns0, file0,
                                        errs0, in_impl).1);
                                }
                            },
                        }
                    } else {
                        proof {
                            assert(spec_attrs_excluded(mv.attrs));
                            assert(spec_visit_item(itv[j as int], ns0, file0, errs0, in_impl)
                                == (Seq::<MutantView>::empty(), Seq::<Seq<char>>::empty()));
                            assert(spec_visit_items(itv.take(j as int + 1), ns0, file0, errs0,
                                in_impl).0 == spec_visit_items(itv.take(j as int), ns0, file0,
                                errs0, in_impl).0 + spec_visit_item(itv[j as int], ns0, file0,
                                errs0, in_impl).0);
                            assert(spec_visit_items(itv.take(j as int + 1), ns0, file0, errs0,
                                in_impl).1 == spec_visit_items(itv.take(j as int), ns0, file0,
                                errs0, in_impl).1 + spec_visit_item(itv[j as int], ns0, file0,
                                errs0, in_impl).1);
                            assert(mutants_view(self.mutants@) =~= mutants_view(
                                old(self).mutants@,
                            ) + spec_visit_items(itv.take(j as int + 1), ns0, file0, errs0,
                                in_impl).0);
                            assert(strs_view(self.external_mods@) =~= strs_view(
                                old(self).external_mods@,
                            ) + spec_visit_items(itv.take(j as int + 1), ns0, file0, errs0,
                                in_impl).1);
                        }
                    }
                },
            }
            j += 1;
        }
        proof {
            lemma_items_view(items@);
            assert(itv.take(n as int) =~= itv);
        }
    }
}

} // verus!
