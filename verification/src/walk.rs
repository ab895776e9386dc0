//! The tree walker: drive a breadth-first queue over source files.
//!
//! Starting from the entry files, each file is looked up in the tree,
//! its mutants are collected, its `mod` references are resolved and
//! enqueued, and the path and name filters decide what reaches the
//! output. Files excluded by the path filters still contribute their
//! module discoveries, so traversal is never cut short by filtering.
//!
//! The whole walk is described by [`spec_walk`], a step-indexed
//! mirror: a result is returned exactly when the mirror, given enough
//! fuel, produces the same value.

use crate::ast::{items_view, FileAst, ItemView};
use crate::attrs::strs_view;
use crate::resolve::{find_mod_source, spec_find_mod_source, SourceTree, TreeFile};
use crate::source::{
    clone_source_file, lemma_mutants_view, lemma_sourcefiles_view, mutants_view,
    sourcefiles_view, spec_mutant_name, Mutant, MutantView, SourceFile, SourceFileView,
};
use crate::text::chars_eq;
use crate::token::{clone_chars, clone_toklists, toklists_view, TokView, Token};
use crate::visit::{spec_visit_items, DiscoveryVisitor};
use vstd::prelude::*;

verus! {

/// Mutants and files discovered in a source tree.
///
/// Files are listed separately so that files that produced no mutants
/// are still represented.
pub struct Discovered {
    pub mutants: Vec<Mutant>,
    pub files: Vec<SourceFile>,
}

/// Why a walk stopped without a result.
#[derive(Debug)]
pub enum WalkError {
    /// A visited file is missing from the tree or failed to parse.
    FileParseError(Vec<char>),
    /// The cooperative interruption flag was observed.
    Interrupted,
}

/// Model of a [`WalkError`].
pub enum WalkErrorView {
    FileParseError(Seq<char>),
    Interrupted,
}

impl View for WalkError {
    type V = WalkErrorView;

    open spec fn view(&self) -> WalkErrorView {
        match self {
            WalkError::FileParseError(p) => WalkErrorView::FileParseError(p@),
            WalkError::Interrupted => WalkErrorView::Interrupted,
        }
    }
}

/// Options consumed by the walker.
///
/// The four filters hold literal patterns; a pattern matches a path
/// or a mutant identifier when it occurs in it as a substring, the
/// unanchored-literal core of pattern matching. Error expressions
/// arrive pre-parsed, as token sequences.
pub struct Options {
    /// Only paths matching one of these patterns are examined.
    pub examine_globset: Option<Vec<Vec<char>>>,
    /// Paths matching one of these patterns are excluded.
    pub exclude_globset: Option<Vec<Vec<char>>>,
    /// Only mutants whose identifier matches one of these patterns
    /// are kept; an empty list keeps everything.
    pub examine_names: Option<Vec<Vec<char>>>,
    /// Mutants whose identifier matches one of these patterns are
    /// dropped; an empty list drops nothing.
    pub exclude_names: Option<Vec<Vec<char>>>,
    /// Pre-parsed error expressions used to build `Err(...)` mutants.
    pub error_exprs: Vec<Vec<Token>>,
    /// The cooperative interruption flag.
    pub interrupt: bool,
}

/// Model of [`Options`].
pub struct OptionsView {
    pub examine_globset: Option<Seq<Seq<char>>>,
    pub exclude_globset: Option<Seq<Seq<char>>>,
    pub examine_names: Option<Seq<Seq<char>>>,
    pub exclude_names: Option<Seq<Seq<char>>>,
    pub error_exprs: Seq<Seq<TokView>>,
    pub interrupt: bool,
}

impl View for Options {
    type V = OptionsView;

    open spec fn view(&self) -> OptionsView {
        OptionsView {
            examine_globset: match self.examine_globset {
                Some(ps) => Some(strs_view(ps@)),
                None => None,
            },
            exclude_globset: match self.exclude_globset {
                Some(ps) => Some(strs_view(ps@)),
                None => None,
            },
            examine_names: match self.examine_names {
                Some(ps) => Some(strs_view(ps@)),
                None => None,
            },
            exclude_names: match self.exclude_names {
                Some(ps) => Some(strs_view(ps@)),
                None => None,
            },
            error_exprs: toklists_view(self.error_exprs@),
            interrupt: self.interrupt,
        }
    }
}

/// `needle` occurs in `hay`.
pub open spec fn spec_contains(hay: Seq<char>, needle: Seq<char>) -> bool {
    exists|k: int|
        0 <= k && k + needle.len() <= hay.len() && #[trigger] hay.subrange(k, k + needle.len())
            == needle
}

/// Some pattern of the list occurs in `s`.
pub open spec fn spec_any_match(pats: Seq<Seq<char>>, s: Seq<char>) -> bool {
    exists|i: int| 0 <= i < pats.len() && spec_contains(s, pats[i])
}

/// A file passes the two path filters.
pub open spec fn spec_file_survives(path: Seq<char>, ov: OptionsView) -> bool {
    (match ov.examine_globset {
        Some(ps) => spec_any_match(ps, path),
        None => true,
    }) && (match ov.exclude_globset {
        Some(ps) => !spec_any_match(ps, path),
        None => true,
    })
}

/// A mutant passes the two name filters.
pub open spec fn spec_name_kept(m: MutantView, ov: OptionsView) -> bool {
    (match ov.examine_names {
        Some(ps) => ps.len() == 0 || spec_any_match(ps, spec_mutant_name(m)),
        None => true,
    }) && (match ov.exclude_names {
        Some(ps) => ps.len() == 0 || !spec_any_match(ps, spec_mutant_name(m)),
        None => true,
    })
}

/// The mutants that pass the name filters, in order.
pub open spec fn spec_name_filtered(ms: Seq<MutantView>, ov: OptionsView) -> Seq<MutantView>
    decreases ms,
{
    if ms.len() == 0 {
        Seq::empty()
    } else {
        spec_name_filtered(ms.drop_last(), ov) + if spec_name_kept(ms.last(), ov) {
            seq![ms.last()]
        } else {
            Seq::empty()
        }
    }
}

/// The first tree file at the path, if any.
pub open spec fn spec_tree_find(files: Seq<TreeFile>, path: Seq<char>) -> Option<TreeFile>
    decreases files,
{
    if files.len() == 0 {
        None
    } else if files[0].path@ == path {
        Some(files[0])
    } else {
        spec_tree_find(files.drop_first(), path)
    }
}

/// The resolutions of the module names, in order, unresolvable names
/// dropped.
pub open spec fn spec_resolve_mods(
    mods: Seq<Seq<char>>,
    parent_path: Seq<char>,
    files: Seq<TreeFile>,
) -> Seq<Seq<char>>
    decreases mods,
{
    if mods.len() == 0 {
        Seq::empty()
    } else {
        spec_resolve_mods(mods.drop_last(), parent_path, files) + (match spec_find_mod_source(
            files,
            parent_path,
            mods.last(),
        ) {
            Some(p) => seq![p],
            None => Seq::<Seq<char>>::empty(),
        })
    }
}

/// The index of the first tree file at the path, or `-1`.
pub open spec fn spec_tree_idx(files: Seq<TreeFile>, path: Seq<char>) -> int
    decreases files,
{
    if files.len() == 0 {
        -1
    } else if files[0].path@ == path {
        0
    } else {
        let r = spec_tree_idx(files.drop_first(), path);
        if r < 0 {
            -1
        } else {
            r + 1
        }
    }
}

/// The source file record for a newly discovered path: it inherits
/// the parent's package and takes its code from the tree.
pub open spec fn spec_new_file(
    path: Seq<char>,
    package: Seq<char>,
    files: Seq<TreeFile>,
) -> SourceFileView {
    SourceFileView {
        tree_relative_path: path,
        package: package,
        code: match spec_tree_find(files, path) {
            Some(tf) => tf.code@,
            None => Seq::empty(),
        },
    }
}

/// Enqueue the resolved paths left to right, skipping any whose tree
/// entry was already enqueued once before: the deduplication that
/// keeps the walk finite. Returns the enqueued file records and the
/// updated marks.
pub open spec fn spec_enqueue(
    resolved: Seq<Seq<char>>,
    package: Seq<char>,
    files: Seq<TreeFile>,
    marked: Seq<bool>,
) -> (Seq<SourceFileView>, Seq<bool>)
    decreases resolved,
{
    if resolved.len() == 0 {
        (Seq::empty(), marked)
    } else {
        let front = spec_enqueue(resolved.drop_last(), package, files, marked);
        let idx = spec_tree_idx(files, resolved.last());
        if idx < 0 || front.1[idx] {
            front
        } else {
            (
                front.0.push(spec_new_file(resolved.last(), package, files)),
                front.1.update(idx, true),
            )
        }
    }
}

/// What one file contributes: its surviving mutants, itself when it
/// passes the path filters, and the files its `mod` items discover.
pub open spec fn spec_head_step(
    file: SourceFileView,
    file_items: Seq<ItemView>,
    files: Seq<TreeFile>,
    ov: OptionsView,
    marked: Seq<bool>,
) -> (Seq<MutantView>, Seq<SourceFileView>, Seq<SourceFileView>, Seq<bool>) {
    let visited = spec_visit_items(file_items, Seq::empty(), file, ov.error_exprs, false);
    let resolved = spec_resolve_mods(visited.1, file.tree_relative_path, files);
    let enq = spec_enqueue(resolved, file.package, files, marked);
    if spec_file_survives(file.tree_relative_path, ov) {
        (spec_name_filtered(visited.0, ov), seq![file], enq.0, enq.1)
    } else {
        (Seq::empty(), Seq::empty(), enq.0, enq.1)
    }
}

/// The step-indexed mirror of the walk: `None` when the fuel does not
/// cover the number of files processed, the walk's result otherwise.
/// `marked` records which tree entries were already enqueued.
pub open spec fn spec_walk(
    queue: Seq<SourceFileView>,
    files: Seq<TreeFile>,
    ov: OptionsView,
    marked: Seq<bool>,
    fuel: nat,
) -> Option<Result<(Seq<MutantView>, Seq<SourceFileView>), WalkErrorView>>
    decreases fuel,
{
    if queue.len() == 0 {
        Some(Ok((Seq::empty(), Seq::empty())))
    } else if ov.interrupt {
        Some(Err(WalkErrorView::Interrupted))
    } else if fuel == 0 {
        None
    } else {
        let head = queue[0];
        match spec_tree_find(files, head.tree_relative_path) {
            None => Some(Err(WalkErrorView::FileParseError(head.tree_relative_path))),
            Some(tf) => match tf.ast {
                None => Some(Err(WalkErrorView::FileParseError(head.tree_relative_path))),
                Some(fast) => {
                    let step = spec_head_step(head, items_view(fast.items@), files, ov, marked);
                    match spec_walk(
                        queue.drop_first() + step.2,
                        files,
                        ov,
                        step.3,
                        (fuel - 1) as nat,
                    ) {
                        None => None,
                        Some(Err(e)) => Some(Err(e)),
                        Some(Ok(rest)) => Some(Ok((step.0 + rest.0, step.1 + rest.1))),
                    }
                },
            },
        }
    }
}

/// More fuel never changes a result that the mirror already gives.
pub proof fn lemma_spec_walk_fuel(
    queue: Seq<SourceFileView>,
    files: Seq<TreeFile>,
    ov: OptionsView,
    marked: Seq<bool>,
    fuel1: nat,
    fuel2: nat,
)
    requires
        fuel1 <= fuel2,
        spec_walk(queue, files, ov, marked, fuel1) is Some,
    ensures
        spec_walk(queue, files, ov, marked, fuel2) == spec_walk(queue, files, ov, marked, fuel1),
    decreases fuel1,
{
    if queue.len() == 0 || ov.interrupt {
    } else {
        let head = queue[0];
        match spec_tree_find(files, head.tree_relative_path) {
            None => {},
            Some(tf) => match tf.ast {
                None => {},
                Some(fast) => {
                    let step = spec_head_step(head, items_view(fast.items@), files, ov, marked);
                    if spec_walk(
                        queue.drop_first() + step.2,
                        files,
                        ov,
                        step.3,
                        (fuel1 - 1) as nat,
                    ) is Some {
                        lemma_spec_walk_fuel(
                            queue.drop_first() + step.2,
                            files,
                            ov,
                            step.3,
                            (fuel1 - 1) as nat,
                            (fuel2 - 1) as nat,
                        );
                    }
                },
            },
        }
    }
}

/// The initial marks: nothing enqueued yet.
pub open spec fn spec_unmarked(n: nat) -> Seq<bool> {
    Seq::new(n, |i: int| false)
}

/// How many marks are set.
pub open spec fn spec_count_trues(s: Seq<bool>) -> int
    decreases s,
{
    if s.len() == 0 {
        0
    } else {
        spec_count_trues(s.drop_last()) + if s.last() {
            1int
        } else {
            0int
        }
    }
}

/// The count of marks is bounded by the length.
pub proof fn lemma_count_trues_le(s: Seq<bool>)
    ensures
        0 <= spec_count_trues(s) <= s.len(),
    decreases s,
{
    if s.len() > 0 {
        lemma_count_trues_le(s.drop_last());
    }
}

/// Setting an unset mark raises the count by one.
pub proof fn lemma_count_trues_update(s: Seq<bool>, i: int)
    requires
        0 <= i < s.len(),
        !s[i],
    ensures
        spec_count_trues(s.update(i, true)) == spec_count_trues(s) + 1,
    decreases s,
{
    if i == s.len() - 1 {
        assert(s.update(i, true).drop_last() =~= s.drop_last());
    } else {
        assert(s.update(i, true).drop_last() =~= s.drop_last().update(i, true));
        lemma_count_trues_update(s.drop_last(), i);
    }
}

/// Enqueueing marks each new file, so the queue growth is bounded by
/// the marks it sets.
pub proof fn lemma_enqueue_counts(
    resolved: Seq<Seq<char>>,
    package: Seq<char>,
    files: Seq<TreeFile>,
    marked: Seq<bool>,
)
    requires
        marked.len() == files.len(),
    ensures
        spec_enqueue(resolved, package, files, marked).1.len() == marked.len(),
        spec_count_trues(spec_enqueue(resolved, package, files, marked).1) == spec_count_trues(
            marked,
        ) + spec_enqueue(resolved, package, files, marked).0.len(),
    decreases resolved,
{
    if resolved.len() > 0 {
        lemma_enqueue_counts(resolved.drop_last(), package, files, marked);
        let front = spec_enqueue(resolved.drop_last(), package, files, marked);
        let idx = spec_tree_idx(files, resolved.last());
        if idx < 0 || front.1[idx] {
        } else {
            assert(0 <= idx < files.len()) by {
                lemma_tree_idx_bounds(files, resolved.last());
            }
            lemma_count_trues_update(front.1, idx);
        }
    }
}

/// A non-negative tree index is in range.
pub proof fn lemma_tree_idx_bounds(files: Seq<TreeFile>, path: Seq<char>)
    ensures
        spec_tree_idx(files, path) < files.len(),
        spec_tree_idx(files, path) >= -1,
    decreases files,
{
    if files.len() > 0 && files[0].path@ != path {
        lemma_tree_idx_bounds(files.drop_first(), path);
    }
}

/// `spec_tree_find` and `spec_tree_idx` agree.
pub proof fn lemma_tree_find_idx(files: Seq<TreeFile>, path: Seq<char>)
    ensures
        spec_tree_idx(files, path) >= 0 ==> spec_tree_find(files, path) == Some(
            files[spec_tree_idx(files, path)],
        ) && files[spec_tree_idx(files, path)].path@ == path,
        spec_tree_idx(files, path) == -1 ==> spec_tree_find(files, path) is None,
    decreases files,
{
    lemma_tree_idx_bounds(files, path);
    if files.len() > 0 && files[0].path@ != path {
        lemma_tree_find_idx(files.drop_first(), path);
    }
}

/// The index where the scan stopped is the tree index.
proof fn lemma_tree_idx_at(files: Seq<TreeFile>, path: Seq<char>, i: int)
    requires
        0 <= i < files.len(),
        forall|k: int| 0 <= k < i ==> files[k].path@ != path,
        files[i].path@ == path,
    ensures
        spec_tree_idx(files, path) == i,
    decreases files,
{
    if i > 0 {
        assert(forall|k: int| 0 <= k < i - 1 ==> files.drop_first()[k].path@ != path);
        assert(files.drop_first()[i - 1].path@ == path);
        lemma_tree_idx_at(files.drop_first(), path, i - 1);
    }
}

/// A full scan without a match means the path is absent.
proof fn lemma_tree_idx_none(files: Seq<TreeFile>, path: Seq<char>)
    requires
        forall|k: int| 0 <= k < files.len() ==> files[k].path@ != path,
    ensures
        spec_tree_idx(files, path) == -1,
    decreases files,
{
    if files.len() > 0 {
        assert(forall|k: int|
            0 <= k < files.drop_first().len() ==> files.drop_first()[k].path@ != path);
        lemma_tree_idx_none(files.drop_first(), path);
    }
}

/// Find the index of the first tree file at `path`.
fn find_idx(tree: &SourceTree, path: &Vec<char>) -> (r: Option<usize>)
    ensures
        r matches Some(i) ==> spec_tree_idx(tree.files@, path@) == i && i < tree.files@.len(),
        r is None ==> spec_tree_idx(tree.files@, path@) == -1,
{
    let n = tree.files.len();
    let mut i: usize = 0;
    while i < n
        invariant
            i <= n,
            n == tree.files.len(),
            forall|k: int| 0 <= k < i ==> tree.files@[k].path@ != path@,
        decreases n - i,
    {
        if chars_eq(&tree.files[i].path, path) {
            proof {
                lemma_tree_idx_at(tree.files@, path@, i as int);
            }
            return Some(i);
        }
        i += 1;
    }
    proof {
        lemma_tree_idx_none(tree.files@, path@);
    }
    None
}

fn match_at(hay: &Vec<char>, needle: &Vec<char>, at: usize) -> (r: bool)
    requires
        at + needle@.len() <= hay@.len(),
    ensures
        r == (hay@.subrange(at as int, at + needle@.len()) == needle@),
{
    let nl = needle.len();
    let mut t: usize = 0;
    while t < nl
        invariant
            t <= nl,
            nl == needle.len(),
            at + nl <= hay.len(),
            forall|k: int| 0 <= k < t ==> hay@[at + k] == needle@[k],
        decreases nl - t,
    {
        if hay[at + t] != needle[t] {
            proof {
                assert(hay@.subrange(at as int, at + needle@.len())[t as int] != needle@[t as int]);
            }
            return false;
        }
        t += 1;
    }
    proof {
        assert(hay@.subrange(at as int, at + needle@.len()) =~= needle@);
    }
    true
}

/// True if `needle` occurs in `hay`.
pub fn chars_contains(hay: &Vec<char>, needle: &Vec<char>) -> (r: bool)
    ensures
        r == spec_contains(hay@, needle@),
{
    let hl = hay.len();
    let nl = needle.len();
    if nl > hl {
        return false;
    }
    if nl == 0 {
        proof {
            assert(hay@.subrange(0, 0 + needle@.len() as int) =~= needle@);
            assert(spec_contains(hay@, needle@));
        }
        return true;
    }
    let mut k: usize = 0;
    while k <= hl - nl
        invariant
            0 < nl <= hl,
            hl == hay.len(),
            nl == needle.len(),
            k <= hl - nl + 1,
            forall|k2: int|
                0 <= k2 < k ==> #[trigger] hay@.subrange(k2, k2 + needle@.len()) != needle@,
        decreases hl - nl + 1 - k,
    {
        if match_at(hay, needle, k) {
            return true;
        }
        k += 1;
    }
    proof {
        assert forall|k2: int|
            0 <= k2 && k2 + needle@.len() <= hay@.len() implies #[trigger] hay@.subrange(
            k2,
            k2 + needle@.len(),
        ) != needle@ by {
            assert(k2 < k);
        }
    }
    false
}

fn any_match(pats: &Vec<Vec<char>>, s: &Vec<char>) -> (r: bool)
    ensures
        r == spec_any_match(strs_view(pats@), s@),
{
    proof {
        crate::attrs::lemma_strs_view(pats@);
    }
    let n = pats.len();
    let mut i: usize = 0;
    while i < n
        invariant
            i <= n,
            n == pats.len(),
            forall|k: int| 0 <= k < i ==> !spec_contains(s@, strs_view(pats@)[k]),
        decreases n - i,
    {
        proof {
            crate::attrs::lemma_strs_view(pats@);
        }
        if chars_contains(s, &pats[i]) {
            proof {
                assert(spec_contains(s@, strs_view(pats@)[i as int]));
            }
            return true;
        }
        i += 1;
    }
    false
}

fn file_survives(path: &Vec<char>, options: &Options) -> (r: bool)
    ensures
        r == spec_file_survives(path@, options@),
{
    let pass_examine = match &options.examine_globset {
        Some(ps) => any_match(ps, path),
        None => true,
    };
    let pass_exclude = match &options.exclude_globset {
        Some(ps) => !any_match(ps, path),
        None => true,
    };
    pass_examine && pass_exclude
}

fn name_kept(m: &Mutant, options: &Options) -> (r: bool)
    ensures
        r == spec_name_kept(m@, options@),
{
    let name = m.name();
    let name_chars = crate::text::str_to_chars(name.as_str());
    let pass_examine = match &options.examine_names {
        Some(ps) => ps.len() == 0 || any_match(ps, &name_chars),
        None => true,
    };
    let pass_exclude = match &options.exclude_names {
        Some(ps) => ps.len() == 0 || !any_match(ps, &name_chars),
        None => true,
    };
    proof {
        if options@.examine_names matches Some(psv) {
            crate::attrs::lemma_strs_view(options.examine_names->0@);
        }
        if options@.exclude_names matches Some(psv) {
            crate::attrs::lemma_strs_view(options.exclude_names->0@);
        }
    }
    pass_examine && pass_exclude
}

/// The result of walking one file: the mutants generated in it, and
/// more files, from `mod` statements, to look into.
pub struct FileDiscoveries {
    pub mutants: Vec<Mutant>,
    pub more_files: Vec<Vec<char>>,
}

/// Find all possible mutants in one parsed source file, and the
/// resolved paths of the modules it references.
pub fn walk_file(
    tree: &SourceTree,
    source_file: &SourceFile,
    ast: &FileAst,
    error_exprs: &Vec<Vec<Token>>,
) -> (r: FileDiscoveries)
    ensures
        mutants_view(r.mutants@) == spec_visit_items(
            items_view(ast.items@),
            Seq::empty(),
            source_file@,
            toklists_view(error_exprs@),
            false,
        ).0,
        strs_view(r.more_files@) == spec_resolve_mods(
            spec_visit_items(
                items_view(ast.items@),
                Seq::empty(),
                source_file@,
                toklists_view(error_exprs@),
                false,
            ).1,
            source_file@.tree_relative_path,
            tree.files@,
        ),
{
    let mut visitor = DiscoveryVisitor {
        mutants: Vec::new(),
        source_file: clone_source_file(source_file),
        namespace_stack: Vec::new(),
        external_mods: Vec::new(),
        error_exprs: clone_toklists(error_exprs),
    };
    proof {
        assert(strs_view(visitor.namespace_stack@) =~= Seq::<Seq<char>>::empty());
        assert(mutants_view(visitor.mutants@) =~= Seq::<MutantView>::empty());
        assert(strs_view(visitor.external_mods@) =~= Seq::<Seq<char>>::empty());
    }
    visitor.visit_items(&ast.items, false);
    let ghost mods_v = strs_view(visitor.external_mods@);
    let ghost visited = spec_visit_items(
        items_view(ast.items@),
        Seq::empty(),
        source_file@,
        toklists_view(error_exprs@),
        false,
    );
    proof {
        assert(Seq::<MutantView>::empty() + visited.0 =~= visited.0);
        assert(Seq::<Seq<char>>::empty() + visited.1 =~= visited.1);
    }
    let n = visitor.external_mods.len();
    let mut more: Vec<Vec<char>> = Vec::new();
    let mut i: usize = 0;
    while i < n
        invariant
            i <= n,
            n == visitor.external_mods@.len(),
            mods_v == strs_view(visitor.external_mods@),
            strs_view(more@) == spec_resolve_mods(
                mods_v.take(i as int),
                source_file@.tree_relative_path,
                tree.files@,
            ),
        decreases n - i,
    {
        proof {
            crate::attrs::lemma_strs_view(visitor.external_mods@);
            assert(mods_v.take(i as int + 1).drop_last() =~= mods_v.take(i as int));
            assert(mods_v.take(i as int + 1).last() == mods_v[i as int]);
        }
        let ghost more0 = more@;
        match find_mod_source(tree, source_file, &visitor.external_mods[i]) {
            Some(p) => {
                more.push(p);
                proof {
                    assert(more@.drop_last() =~= more0);
                    assert(strs_view(more@) =~= strs_view(more0).push(more@.last()@));
                    assert(strs_view(more@) =~= spec_resolve_mods(
                        mods_v.take(i as int + 1),
                        source_file@.tree_relative_path,
                        tree.files@,
                    ));
                }
            },
            None => {
                proof {
                    assert(strs_view(more@) =~= spec_resolve_mods(
                        mods_v.take(i as int + 1),
                        source_file@.tree_relative_path,
                        tree.files@,
                    ));
                }
            },
        }
        i += 1;
    }
    proof {
        crate::attrs::lemma_strs_view(visitor.external_mods@);
        assert(mods_v.take(n as int) =~= mods_v);
    }
    FileDiscoveries { mutants: visitor.mutants, more_files: more }
}

/// Discover all mutants and all source files.
///
/// The walk starts from the entry files and follows `mod` references
/// breadth first; each tree file is enqueued at most once. The list
/// of returned files includes those with no mutants. The result is
/// exactly what the mirror [`spec_walk`] gives, for some fuel; by
/// [`lemma_spec_walk_fuel`], any larger fuel gives the same value.
#[verifier::rlimit(50)]
pub fn walk_tree(entries: Vec<SourceFile>, tree: &SourceTree, options: &Options) -> (r: Result<
    Discovered,
    WalkError,
>)
    ensures
        r matches Ok(d) ==> exists|fuel: nat|
            #[trigger] spec_walk(
                sourcefiles_view(entries@),
                tree.files@,
                options@,
                spec_unmarked(tree.files@.len()),
                fuel,
            ) == Some(
                Ok::<_, WalkErrorView>((mutants_view(d.mutants@), sourcefiles_view(d.files@))),
            ),
        r matches Err(e) ==> exists|fuel: nat|
            #[trigger] spec_walk(
                sourcefiles_view(entries@),
                tree.files@,
                options@,
                spec_unmarked(tree.files@.len()),
                fuel,
            ) == Some(Err::<(Seq<MutantView>, Seq<SourceFileView>), _>(e@)),
{
    let ghost e0 = sourcefiles_view(entries@);
    let ghost tf = tree.files@;
    let ghost ov = options@;
    let ghost marked0 = spec_unmarked(tree.files@.len());
    let elen = entries.len();
    let tlen = tree.files.len();
    let mut queue = entries;
    let mut marked: Vec<bool> = Vec::new();
    let mut mi: usize = 0;
    while mi < tlen
        invariant
            mi <= tlen,
            tlen == tree.files@.len(),
            marked@.len() == mi,
            forall|k: int| 0 <= k < mi ==> marked@[k] == false,
        decreases tlen - mi,
    {
        marked.push(false);
        mi += 1;
    }
    proof {
        assert(marked@ =~= marked0);
        lemma_count_trues_zero(marked@);
        lemma_sourcefiles_view(queue@);
        assert(sourcefiles_view(queue@).subrange(0, queue@.len() as int) =~= e0);
    }
    let mut count_marked: usize = 0;
    let mut out_mutants: Vec<Mutant> = Vec::new();
    let mut out_files: Vec<SourceFile> = Vec::new();
    let mut qi: usize = 0;
    while qi < queue.len()
        invariant
            qi <= queue@.len(),
            tf == tree.files@,
            ov == options@,
            tlen == tf.len(),
            e0 == sourcefiles_view(entries@),
            marked0 == spec_unmarked(tree.files@.len()),
            elen <= queue@.len(),
            marked@.len() == tf.len(),
            count_marked == spec_count_trues(marked@),
            queue@.len() == elen + spec_count_trues(marked@),
            count_marked <= tlen,
            forall|fuel: nat|
                spec_walk(e0, tf, ov, marked0, (qi + fuel) as nat) == (match #[trigger] spec_walk(
                    sourcefiles_view(queue@).subrange(qi as int, queue@.len() as int),
                    tf,
                    ov,
                    marked@,
                    fuel,
                ) {
                    None => None,
                    Some(Err(e)) => Some(Err(e)),
                    Some(Ok(p)) => Some(
                        Ok(
                            (
                                mutants_view(out_mutants@) + p.0,
                                sourcefiles_view(out_files@) + p.1,
                            ),
                        ),
                    ),
                }),
        decreases elen + tlen - qi,
    {
        proof {
            lemma_sourcefiles_view(queue@);
            lemma_count_trues_le(marked@);
        }
        let ghost rem = sourcefiles_view(queue@).subrange(qi as int, queue@.len() as int);
        if options.interrupt {
            proof {
                assert(rem.len() > 0);
                assert(spec_walk(rem, tf, ov, marked@, 1nat) == Some(
                    Err::<(Seq<MutantView>, Seq<SourceFileView>), _>(WalkErrorView::Interrupted),
                ));
                assert(spec_walk(e0, tf, ov, marked0, (qi + 1nat) as nat) == Some(
                    Err::<(Seq<MutantView>, Seq<SourceFileView>), _>(WalkErrorView::Interrupted),
                ));
            }
            return Err(WalkError::Interrupted);
        }
        let cur = clone_source_file(&queue[qi]);
        proof {
            assert(rem[0] == queue@[qi as int]@);
            assert(cur@ == rem[0]);
        }
        let found = find_idx(tree, &cur.tree_relative_path);
        proof {
            lemma_tree_find_idx(tf, cur@.tree_relative_path);
        }
        match found {
            None => {
                proof {
                    assert(spec_walk(rem, tf, ov, marked@, 1nat) == Some(
                        Err::<(Seq<MutantView>, Seq<SourceFileView>), _>(
                            WalkErrorView::FileParseError(cur@.tree_relative_path),
                        ),
                    ));
                    assert(spec_walk(e0, tf, ov, marked0, (qi + 1nat) as nat) == Some(
                        Err::<(Seq<MutantView>, Seq<SourceFileView>), _>(
                            WalkErrorView::FileParseError(cur@.tree_relative_path),
                        ),
                    ));
                }
                return Err(WalkError::FileParseError(cur.tree_relative_path));
            },
            Some(ti) => {
                match &tree.files[ti].ast {
                    None => {
                        proof {
                            assert(spec_tree_find(tf, cur@.tree_relative_path) == Some(
                                tf[ti as int],
                            ));
                            assert(spec_walk(rem, tf, ov, marked@, 1nat) == Some(
                                Err::<(Seq<MutantView>, Seq<SourceFileView>), _>(
                                    WalkErrorView::FileParseError(cur@.tree_relative_path),
                                ),
                            ));
                            assert(spec_walk(e0, tf, ov, marked0, (qi + 1nat) as nat) == Some(
                                Err::<(Seq<MutantView>, Seq<SourceFileView>), _>(
                                    WalkErrorView::FileParseError(cur@.tree_relative_path),
                                ),
                            ));
                        }
                        return Err(WalkError::FileParseError(cur.tree_relative_path));
                    },
                    Some(fast) => {
                        let ghost step = spec_head_step(
                            cur@,
                            items_view(fast.items@),
                            tf,
                            ov,
                            marked@,
                        );
                        let fd = walk_file(tree, &cur, fast, &options.error_exprs);
                        let ghost resolved = strs_view(fd.more_files@);
                        let ghost marked_in = marked@;
                        let ghost queue_in = queue@;
                        // Enqueue the discovered files, skipping tree
                        // entries enqueued before.
                        let en = fd.more_files.len();
                        let mut ei: usize = 0;
                        while ei < en
                            invariant
                                ei <= en,
                                en == fd.more_files@.len(),
                                resolved == strs_view(fd.more_files@),
                                tf == tree.files@,
                                tlen == tf.len(),
                                marked@.len() == tf.len(),
                                marked_in.len() == tf.len(),
                                count_marked == spec_count_trues(marked@),
                                queue@.len() == queue_in.len() + spec_enqueue(
                                    resolved.take(ei as int),
                                    cur@.package,
                                    tf,
                                    marked_in,
                                ).0.len(),
                                count_marked <= tlen,
                                spec_count_trues(marked@) - spec_count_trues(marked_in)
                                    == spec_enqueue(
                                    resolved.take(ei as int),
                                    cur@.package,
                                    tf,
                                    marked_in,
                                ).0.len(),
                                marked@ == spec_enqueue(
                                    resolved.take(ei as int),
                                    cur@.package,
                                    tf,
                                    marked_in,
                                ).1,
                                sourcefiles_view(queue@) =~= sourcefiles_view(queue_in)
                                    + spec_enqueue(
                                    resolved.take(ei as int),
                                    cur@.package,
                                    tf,
                                    marked_in,
                                ).0,
                                queue_in.len() == elen + spec_count_trues(marked_in),
                            decreases en - ei,
                        {
                            proof {
                                crate::attrs::lemma_strs_view(fd.more_files@);
                                assert(resolved.take(ei as int + 1).drop_last() =~= resolved.take(
                                    ei as int,
                                ));
                                assert(resolved.take(ei as int + 1).last() == resolved[ei as int]);
                                lemma_enqueue_counts(
                                    resolved.take(ei as int),
                                    cur@.package,
                                    tf,
                                    marked_in,
                                );
                                lemma_enqueue_counts(
                                    resolved.take(ei as int + 1),
                                    cur@.package,
                                    tf,
                                    marked_in,
                                );
                            }
                            let p = &fd.more_files[ei];
                            match find_idx(tree, p) {
                                None => {
                                    proof {
                                        lemma_tree_find_idx(tf, p@);
                                    }
                                },
                                Some(pi) => {
                                    proof {
                                        lemma_tree_find_idx(tf, p@);
                                    }
                                    if !marked[pi] {
                                        proof {
                                            lemma_count_trues_update(marked@, pi as int);
                                            lemma_count_trues_le(marked@.update(pi as int, true));
                                        }
                                        marked.set(pi, true);
                                        count_marked += 1;
                                        let ghost qseq0 = queue@;
                                        queue.push(
                                            SourceFile {
                                                tree_relative_path: clone_chars(p),
                                                package: clone_chars(&cur.package),
                                                code: tree.files[pi].code.clone(),
                                            },
                                        );
                                        proof {
                                            assert(queue@.drop_last() =~= qseq0);
                                            assert(sourcefiles_view(queue@) == sourcefiles_view(
                                                qseq0,
                                            ).push(queue@.last()@));
                                            assert(queue@.last()@ == spec_new_file(
                                                p@,
                                                cur@.package,
                                                tf,
                                            ));
                                        }
                                    }
                                },
                            }
                            proof {
                                crate::attrs::lemma_strs_view(fd.more_files@);
                                let front = spec_enqueue(
                                    resolved.take(ei as int),
                                    cur@.package,
                                    tf,
                                    marked_in,
                                );
                                let stepq = spec_enqueue(
                                    resolved.take(ei as int + 1),
                                    cur@.package,
                                    tf,
                                    marked_in,
                                );
                                let idx = spec_tree_idx(tf, resolved[ei as int]);
                                assert(resolved.take(ei as int + 1).drop_last() =~= resolved.take(
                                    ei as int,
                                ));
                                assert(resolved.take(ei as int + 1).last() == resolved[ei as int]);
                                if idx < 0 || front.1[idx] {
                                    assert(stepq == front);
                                } else {
                                    assert(stepq == (
                                        front.0.push(
                                            spec_new_file(
                                                resolved[ei as int],
                                                cur@.package,
                                                tf,
                                            ),
                                        ),
                                        front.1.update(idx, true),
                                    ));
                                }
                                assert(marked@ == stepq.1);
                                assert(sourcefiles_view(queue@) =~= sourcefiles_view(queue_in)
                                    + stepq.0);
                            }
                            ei += 1;
                        }
                        proof {
                            crate::attrs::lemma_strs_view(fd.more_files@);
                            assert(resolved.take(en as int) =~= resolved);
                        }
                        // Path filters decide whether this file and
                        // its mutants reach the output.
                        let survives = file_survives(&cur.tree_relative_path, options);
                        let ghost pre_out_m = mutants_view(out_mutants@);
                        let ghost pre_out_f = sourcefiles_view(out_files@);
                        if survives {
                            let ghost mv_all = mutants_view(fd.mutants@);
                            let mn = fd.mutants.len();
                            let mut mj: usize = 0;
                            while mj < mn
                                invariant
                                    mj <= mn,
                                    mn == fd.mutants@.len(),
                                    ov == options@,
                                    mv_all == mutants_view(fd.mutants@),
                                    mutants_view(out_mutants@) == pre_out_m + spec_name_filtered(
                                        mv_all.take(mj as int),
                                        ov,
                                    ),
                                decreases mn - mj,
                            {
                                proof {
                                    lemma_mutants_view(fd.mutants@);
                                    assert(mv_all.take(mj as int + 1).drop_last() =~= mv_all.take(
                                        mj as int,
                                    ));
                                    assert(mv_all.take(mj as int + 1).last() == mv_all[mj as int]);
                                }
                                let ghost om0 = out_mutants@;
                                if name_kept(&fd.mutants[mj], options) {
                                    out_mutants.push(crate::source::clone_mutant(&fd.mutants[mj]));
                                    proof {
                                        assert(out_mutants@.drop_last() =~= om0);
                                        assert(mutants_view(out_mutants@) =~= mutants_view(
                                            om0,
                                        ).push(mv_all[mj as int]));
                                        assert(mutants_view(out_mutants@) =~= pre_out_m
                                            + spec_name_filtered(
                                            mv_all.take(mj as int + 1),
                                            ov,
                                        ));
                                    }
                                } else {
                                    proof {
                                        assert(mutants_view(out_mutants@) =~= pre_out_m
                                            + spec_name_filtered(
                                            mv_all.take(mj as int + 1),
                                            ov,
                                        ));
                                    }
                                }
                                mj += 1;
                            }
                            proof {
                                lemma_mutants_view(fd.mutants@);
                                assert(mv_all.take(mn as int) =~= mv_all);
                            }
                            let ghost of0 = out_files@;
                            out_files.push(clone_source_file(&cur));
                            proof {
                                assert(out_files@.drop_last() =~= of0);
                                assert(sourcefiles_view(out_files@) =~= pre_out_f.push(cur@));
                            }
                        }
                        // One mirror step has been taken.
                        proof {
                            lemma_sourcefiles_view(queue@);
                            let newrem = sourcefiles_view(queue@).subrange(
                                qi as int + 1,
                                queue@.len() as int,
                            );
                            assert(newrem =~= rem.drop_first() + step.2);
                            assert(marked@ == step.3);
                            if survives {
                                assert(mutants_view(out_mutants@) =~= pre_out_m + step.0);
                                assert(sourcefiles_view(out_files@) =~= pre_out_f + step.1);
                            } else {
                                assert(mutants_view(out_mutants@) =~= pre_out_m + step.0);
                                assert(sourcefiles_view(out_files@) =~= pre_out_f + step.1);
                            }
                            assert forall|fuel: nat|
                                spec_walk(e0, tf, ov, marked0, ((qi + 1) + fuel) as nat)
                                    == (match #[trigger] spec_walk(newrem, tf, ov, marked@, fuel) {
                                    None => None,
                                    Some(Err(e)) => Some(Err(e)),
                                    Some(Ok(p)) => Some(
                                        Ok(
                                            (
                                                mutants_view(out_mutants@) + p.0,
                                                sourcefiles_view(out_files@) + p.1,
                                            ),
                                        ),
                                    ),
                                }) by {
                                assert(spec_walk(rem, tf, ov, marked_in, (fuel + 1) as nat)
                                    == (match spec_walk(newrem, tf, ov, marked@, fuel) {
                                    None => None,
                                    Some(Err(e)) => Some(Err(e)),
                                    Some(Ok(p)) => Some(Ok((step.0 + p.0, step.1 + p.1))),
                                }));
                                match spec_walk(newrem, tf, ov, marked@, fuel) {
                                    None => {},
                                    Some(Err(e)) => {},
                                    Some(Ok(p)) => {
                                        assert(mutants_view(out_mutants@) + p.0 =~= pre_out_m + (
                                        step.0 + p.0));
                                        assert(sourcefiles_view(out_files@) + p.1 =~= pre_out_f + (
                                        step.1 + p.1));
                                    },
                                }
                            }
                        }
                    },
                }
            },
        }
        qi += 1;
    }
    proof {
        lemma_sourcefiles_view(queue@);
        let rem = sourcefiles_view(queue@).subrange(qi as int, queue@.len() as int);
        assert(rem =~= Seq::<SourceFileView>::empty());
        assert(spec_walk(rem, tf, ov, marked@, 0nat) == Some(
            Ok::<_, WalkErrorView>((Seq::<MutantView>::empty(), Seq::<SourceFileView>::empty())),
        ));
        assert(mutants_view(out_mutants@) + Seq::<MutantView>::empty() =~= mutants_view(
            out_mutants@,
        ));
        assert(sourcefiles_view(out_files@) + Seq::<SourceFileView>::empty() =~= sourcefiles_view(
            out_files@,
        ));
        assert(spec_walk(e0, tf, ov, marked0, (qi + 0nat) as nat) == Some(
            Ok::<_, WalkErrorView>((mutants_view(out_mutants@), sourcefiles_view(out_files@))),
        ));
    }
    Ok(Discovered { mutants: out_mutants, files: out_files })
}


/// Every mutant made for one function carries the file it was made in.
proof fn lemma_mutants_of_file(
    reps: Seq<Seq<TokView>>,
    name: Seq<char>,
    rt: Seq<char>,
    file: SourceFileView,
    span: crate::ast::Span,
)
    ensures
        forall|i: int|
            0 <= i < crate::visit::spec_mutants_of(reps, name, rt, file, span).len()
                ==> #[trigger] crate::visit::spec_mutants_of(reps, name, rt, file, span)[i]
                .source_file == file,
    decreases reps,
{
    if reps.len() > 0 {
        lemma_mutants_of_file(reps.drop_last(), name, rt, file, span);
    }
}

/// Every mutant the visitor emits carries the visited file.
proof fn lemma_visit_items_file(
    items: Seq<ItemView>,
    ns: Seq<Seq<char>>,
    file: SourceFileView,
    errs: Seq<Seq<TokView>>,
    in_impl: bool,
)
    ensures
        forall|i: int|
            0 <= i < spec_visit_items(items, ns, file, errs, in_impl).0.len()
                ==> #[trigger] spec_visit_items(items, ns, file, errs, in_impl).0[i].source_file
                == file,
    decreases items,
{
    if items.len() > 0 {
        lemma_visit_items_file(items.drop_last(), ns, file, errs, in_impl);
        lemma_visit_item_file(items.last(), ns, file, errs, in_impl);
    }
}

/// Every mutant one item yields carries the visited file.
proof fn lemma_visit_item_file(
    item: ItemView,
    ns: Seq<Seq<char>>,
    file: SourceFileView,
    errs: Seq<Seq<TokView>>,
    in_impl: bool,
)
    ensures
        forall|i: int|
            0 <= i < crate::visit::spec_visit_item(item, ns, file, errs, in_impl).0.len()
                ==> #[trigger] crate::visit::spec_visit_item(item, ns, file, errs, in_impl).0[i]
                .source_file == file,
    decreases item,
{
    match item {
        ItemView::Fn(f) => {
            if !crate::visit::spec_fn_excluded(f, in_impl) {
                let ns2 = ns.push(f.sig.ident);
                lemma_mutants_of_file(
                    crate::replace::spec_return_type_replacements(f.sig.output, errs),
                    crate::source::spec_join_namespace(ns2),
                    crate::types::spec_return_type_string(f.sig.output),
                    file,
                    f.body.span,
                );
                lemma_visit_items_file(f.nested, ns2, file, errs, false);
            }
        },
        ItemView::Impl(b) => {
            if !crate::visit::spec_impl_excluded(b) {
                lemma_visit_items_file(
                    b.items,
                    ns.push(crate::visit::spec_impl_name(b)),
                    file,
                    errs,
                    true,
                );
            }
        },
        ItemView::Mod(m) => {
            if !crate::attrs::spec_attrs_excluded(m.attrs) {
                match m.content {
                    None => {},
                    Some(inner) => {
                        lemma_visit_items_file(inner, ns.push(m.name), file, errs, false);
                    },
                }
            }
        },
    }
}

/// Name filtering keeps only mutants of the list, so it keeps their file.
proof fn lemma_name_filtered_file(ms: Seq<MutantView>, ov: OptionsView, file: SourceFileView)
    requires
        forall|i: int| 0 <= i < ms.len() ==> #[trigger] ms[i].source_file == file,
    ensures
        forall|i: int|
            0 <= i < spec_name_filtered(ms, ov).len() ==> #[trigger] spec_name_filtered(ms, ov)[i]
                .source_file == file,
    decreases ms,
{
    if ms.len() > 0 {
        lemma_name_filtered_file(ms.drop_last(), ov, file);
    }
}

/// Soundness of a finished walk: every file of the output passed the
/// path filters and is a parsed file of the tree, and every mutant's
/// file is one of the output files.
pub proof fn lemma_walk_output(
    queue: Seq<SourceFileView>,
    files: Seq<TreeFile>,
    ov: OptionsView,
    marked: Seq<bool>,
    fuel: nat,
    ms: Seq<MutantView>,
    fs: Seq<SourceFileView>,
)
    requires
        spec_walk(queue, files, ov, marked, fuel) == Some(Ok::<_, WalkErrorView>((ms, fs))),
    ensures
        forall|i: int|
            0 <= i < fs.len() ==> spec_file_survives(#[trigger] fs[i].tree_relative_path, ov)
                && (spec_tree_find(files, fs[i].tree_relative_path) matches Some(tf) && tf.ast
                is Some),
        forall|i: int| 0 <= i < ms.len() ==> fs.contains(#[trigger] ms[i].source_file),
    decreases fuel,
{
    if queue.len() == 0 || ov.interrupt {
    } else {
        let head = queue[0];
        match spec_tree_find(files, head.tree_relative_path) {
            None => {},
            Some(tf) => match tf.ast {
                None => {},
                Some(fast) => {
                    let step = spec_head_step(head, items_view(fast.items@), files, ov, marked);
                    let rest = spec_walk(
                        queue.drop_first() + step.2,
                        files,
                        ov,
                        step.3,
                        (fuel - 1) as nat,
                    );
                    match rest {
                        Some(Ok(p)) => {
                            lemma_walk_output(
                                queue.drop_first() + step.2,
                                files,
                                ov,
                                step.3,
                                (fuel - 1) as nat,
                                p.0,
                                p.1,
                            );
                            let visited = spec_visit_items(
                                items_view(fast.items@),
                                Seq::empty(),
                                head,
                                ov.error_exprs,
                                false,
                            );
                            lemma_visit_items_file(
                                items_view(fast.items@),
                                Seq::empty(),
                                head,
                                ov.error_exprs,
                                false,
                            );
                            lemma_name_filtered_file(visited.0, ov, head);
                            assert(ms == step.0 + p.0);
                            assert(fs == step.1 + p.1);
                            assert forall|i: int|
                                0 <= i < fs.len() implies spec_file_survives(
                                #[trigger] fs[i].tree_relative_path,
                                ov,
                            ) && (spec_tree_find(files, fs[i].tree_relative_path) matches Some(
                                tf2,
                            ) && tf2.ast is Some) by {
                                if i < step.1.len() {
                                    assert(fs[i] == head);
                                } else {
                                    assert(fs[i] == p.1[i - step.1.len()]);
                                    assert(spec_file_survives(
                                        p.1[i - step.1.len()].tree_relative_path,
                                        ov,
                                    ));
                                }
                            }
                            assert forall|i: int|
                                0 <= i < ms.len() implies fs.contains(
                                #[trigger] ms[i].source_file,
                            ) by {
                                if i < step.0.len() {
                                    assert(step.0[i].source_file == head);
                                    assert(fs[0] == head);
                                    assert(ms[i].source_file == fs[0]);
                                } else {
                                    assert(ms[i] == p.0[i - step.0.len()]);
                                    assert(p.1.contains(p.0[i - step.0.len()].source_file));
                                    let w = choose|j: int|
                                        0 <= j < p.1.len() && p.1[j] == p.0[i - step.0.len()]
                                            .source_file;
                                    assert(fs[w + step.1.len()] == p.1[w]);
                                    assert(ms[i].source_file == fs[w + step.1.len()]);
                                }
                            }
                        },
                        _ => {},
                    }
                },
            },
        }
    }
}

/// An all-false mark sequence has no marks.
proof fn lemma_count_trues_zero(s: Seq<bool>)
    requires
        forall|k: int| 0 <= k < s.len() ==> s[k] == false,
    ensures
        spec_count_trues(s) == 0,
    decreases s,
{
    if s.len() > 0 {
        lemma_count_trues_zero(s.drop_last());
    }
}

} // verus!
