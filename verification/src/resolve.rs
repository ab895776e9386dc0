//! Resolution of `mod name;` references to files on disk.
//!
//! Paths are tree-relative, with `/` as the separator. The tree under
//! examination is handed in as a value, so existence is membership.

use crate::ast::FileAst;
use crate::source::SourceFile;
use crate::text::push_chars;
use crate::token::clone_chars;
use vstd::prelude::*;

verus! {

/// One file of the tree under examination.
pub struct TreeFile {
    /// The file's tree-relative path.
    pub path: Vec<char>,
    /// The file's source text.
    pub code: String,
    /// The parsed file, or `None` when it does not parse.
    pub ast: Option<FileAst>,
}

/// The tree of source files handed to the walker.
pub struct SourceTree {
    pub files: Vec<TreeFile>,
}

/// The paths present in the tree.
pub open spec fn tree_paths(files: Seq<TreeFile>) -> Seq<Seq<char>>
    decreases files,
{
    if files.len() == 0 {
        Seq::empty()
    } else {
        tree_paths(files.drop_last()).push(files.last().path@)
    }
}

/// `tree_paths` maps the sequence index by index.
pub broadcast proof fn lemma_tree_paths(files: Seq<TreeFile>)
    ensures
        (#[trigger] tree_paths(files)).len() == files.len(),
        forall|i: int| 0 <= i < files.len() ==> tree_paths(files)[i] == files[i].path@,
    decreases files,
{
    if files.len() > 0 {
        lemma_tree_paths(files.drop_last());
        assert forall|i: int| 0 <= i < files.len() implies tree_paths(files)[i]
            == files[i].path@ by {
            if i < files.len() - 1 {
                assert(tree_paths(files)[i] == tree_paths(files.drop_last())[i]);
                assert(files.drop_last()[i] == files[i]);
            }
        }
    }
}

/// A path is in the tree.
pub open spec fn spec_tree_has(files: Seq<TreeFile>, path: Seq<char>) -> bool {
    exists|i: int| 0 <= i < files.len() && files[i].path@ == path
}

/// The path's last component equals `name`.
pub open spec fn spec_ends_with_component(p: Seq<char>, name: Seq<char>) -> bool {
    p == name || (p.len() > name.len() && p[p.len() - name.len() - 1] == '/' && p.subrange(
        p.len() - name.len(),
        p.len() as int,
    ) == name)
}

/// The position just after the last `/`, or zero when there is none.
pub open spec fn spec_file_name_start(p: Seq<char>) -> int {
    if exists|i: int| 0 <= i < p.len() && p[i] == '/' {
        (choose|i: int|
            0 <= i < p.len() && p[i] == '/' && forall|k: int| i < k < p.len() ==> p[k] != '/') + 1
    } else {
        0
    }
}

/// The directory part of a path: everything before the last `/`,
/// empty when there is none.
pub open spec fn spec_parent_dir(p: Seq<char>) -> Seq<char> {
    if spec_file_name_start(p) == 0 {
        Seq::empty()
    } else {
        p.subrange(0, spec_file_name_start(p) - 1)
    }
}

/// The path with its extension stripped: the file name is cut at its
/// last `.`, provided that dot is not the name's first character.
pub open spec fn spec_strip_extension(p: Seq<char>) -> Seq<char> {
    let start = spec_file_name_start(p);
    if exists|i: int| start < i < p.len() && p[i] == '.' {
        p.subrange(
            0,
            choose|i: int|
                start < i < p.len() && p[i] == '.' && (forall|k: int|
                    i < k < p.len() ==> p[k] != '.'),
        )
    } else {
        p
    }
}

/// Join a directory and a file name with `/`; an empty directory
/// contributes no separator.
pub open spec fn spec_join_path(dir: Seq<char>, name: Seq<char>) -> Seq<char> {
    if dir.len() == 0 {
        name
    } else {
        dir + seq!['/'] + name
    }
}

/// The directory in which a parent file's submodules live.
pub open spec fn spec_mod_search_dir(parent_path: Seq<char>) -> Seq<char> {
    if spec_ends_with_component(parent_path, "mod.rs"@) || spec_ends_with_component(
        parent_path,
        "lib.rs"@,
    ) || spec_ends_with_component(parent_path, "main.rs"@) {
        spec_parent_dir(parent_path)
    } else {
        spec_strip_extension(parent_path)
    }
}

/// The two candidate paths for a module, in probe order.
pub open spec fn spec_mod_candidates(parent_path: Seq<char>, mod_name: Seq<char>) -> (
    Seq<char>,
    Seq<char>,
) {
    let dir = spec_mod_search_dir(parent_path);
    (
        spec_join_path(dir, mod_name + ".rs"@),
        spec_join_path(dir, mod_name + "/mod.rs"@),
    )
}

/// Where a `mod name;` in the parent file resolves, if anywhere: the
/// first of the two candidate paths that the tree holds.
pub open spec fn spec_find_mod_source(
    files: Seq<TreeFile>,
    parent_path: Seq<char>,
    mod_name: Seq<char>,
) -> Option<Seq<char>> {
    let (c1, c2) = spec_mod_candidates(parent_path, mod_name);
    if spec_tree_has(files, c1) {
        Some(c1)
    } else if spec_tree_has(files, c2) {
        Some(c2)
    } else {
        None
    }
}

/// Find the position just after the last `/`.
fn file_name_start(p: &Vec<char>) -> (r: usize)
    ensures
        r == spec_file_name_start(p@),
        r <= p@.len(),
{
    let n = p.len();
    let mut i: usize = n;
    while i > 0
        invariant
            i <= n,
            n == p.len(),
            forall|k: int| i <= k < n ==> p@[k] != '/',
        decreases i,
    {
        i -= 1;
        if p[i] == '/' {
            proof {
                assert(0 <= i < p@.len() && p@[i as int] == '/');
                assert(spec_file_name_start(p@) == i + 1) by {
                    let w = choose|w: int|
                        0 <= w < p@.len() && p@[w] == '/' && forall|k: int|
                            w < k < p@.len() ==> p@[k] != '/';
                    if w < i {
                        assert(p@[i as int] == '/');
                    }
                    if w > i {
                        assert(p@[w] != '/');
                    }
                }
            }
            return i + 1;
        }
    }
    proof {
        assert(forall|k: int| 0 <= k < p@.len() ==> p@[k] != '/');
    }
    0
}

/// Strip the file name's extension, if it has one.
fn strip_extension(p: &Vec<char>) -> (r: Vec<char>)
    ensures
        r@ == spec_strip_extension(p@),
{
    let start = file_name_start(p);
    let n = p.len();
    let mut i: usize = n;
    while i > start
        invariant
            start <= i <= n,
            n == p.len(),
            start == spec_file_name_start(p@),
            start <= n,
            forall|k: int| i <= k < n && k > start ==> p@[k] != '.',
        decreases i,
    {
        i -= 1;
        if i > start && p[i] == '.' {
            let mut out: Vec<char> = Vec::new();
            let mut j: usize = 0;
            while j < i
                invariant
                    j <= i,
                    i < n == p.len(),
                    out@ == p@.subrange(0, j as int),
                decreases i - j,
            {
                out.push(p[j]);
                proof {
                    assert(out@ =~= p@.subrange(0, j + 1));
                }
                j += 1;
            }
            proof {
                let s = spec_file_name_start(p@);
                assert(s < i < p@.len() && p@[i as int] == '.');
                let w = choose|w: int|
                    s < w < p@.len() && p@[w] == '.' && (forall|k: int|
                        w < k < p@.len() ==> p@[k] != '.');
                assert(w == i) by {
                    if w > i {
                        assert(p@[w] != '.');
                    }
                    if w < i {
                        assert(p@[i as int] != '.');
                    }
                }
                assert(out@ == spec_strip_extension(p@));
            }
            return out;
        }
    }
    proof {
        assert(forall|k: int| spec_file_name_start(p@) < k < p@.len() ==> p@[k] != '.');
    }
    clone_chars(p)
}

/// True if the path's last component is `name`.
fn ends_with_component(p: &Vec<char>, name: &str) -> (r: bool)
    ensures
        r == spec_ends_with_component(p@, name@),
{
    let nm = crate::text::str_to_chars(name);
    let pl = p.len();
    let nl = nm.len();
    if pl == nl {
        let eq = crate::text::chars_eq(p, &nm);
        proof {
            if eq {
                assert(p@ =~= nm@);
            }
        }
        eq
    } else if pl > nl {
        if p[pl - nl - 1] != '/' {
            return false;
        }
        let mut k: usize = 0;
        while k < nl
            invariant
                k <= nl,
                nl == nm.len(),
                pl == p.len(),
                pl > nl,
                nm@ == name@,
                p@[pl - nl - 1] == '/',
                forall|t: int| 0 <= t < k ==> p@[pl - nl + t] == nm@[t],
            decreases nl - k,
        {
            if p[pl - nl + k] != nm[k] {
                proof {
                    assert(p@.subrange(pl - nl, pl as int)[k as int] != name@[k as int]);
                }
                return false;
            }
            k += 1;
        }
        proof {
            assert(p@.subrange(pl - nl, pl as int) =~= name@);
        }
        true
    } else {
        false
    }
}

/// Append `suffix` to a copy of `base`.
fn chars_concat_str(base: &Vec<char>, suffix: &str) -> (r: Vec<char>)
    ensures
        r@ == base@ + suffix@,
{
    let mut out = clone_chars(base);
    let sfx = crate::text::str_to_chars(suffix);
    push_chars(&mut out, &sfx);
    out
}

/// Join a directory and a file name with `/`.
fn join_path(dir: &Vec<char>, name: &Vec<char>) -> (r: Vec<char>)
    ensures
        r@ == spec_join_path(dir@, name@),
{
    if dir.len() == 0 {
        let r = clone_chars(name);
        proof {
            assert(r@ =~= spec_join_path(dir@, name@));
        }
        r
    } else {
        let mut out = clone_chars(dir);
        out.push('/');
        push_chars(&mut out, name);
        proof {
            assert(out@ =~= dir@ + seq!['/'] + name@);
        }
        out
    }
}

impl SourceTree {
    /// True if the tree holds a file at `path`.
    pub fn has_path(&self, path: &Vec<char>) -> (r: bool)
        ensures
            r == spec_tree_has(self.files@, path@),
    {
        let n = self.files.len();
        let mut i: usize = 0;
        while i < n
            invariant
                i <= n,
                n == self.files.len(),
                forall|k: int| 0 <= k < i ==> self.files@[k].path@ != path@,
            decreases n - i,
        {
            if crate::text::chars_eq(&self.files[i].path, path) {
                proof {
                    assert(self.files@[i as int].path@ == path@);
                }
                return true;
            }
            i += 1;
        }
        false
    }
}

/// Find the file referenced by a `mod` statement in the parent file.
///
/// Both the parent and the child can use either file layout: a file
/// named like the module, or a `mod.rs` under a directory named like
/// it. When neither candidate is in the tree the reference does not
/// resolve, which is not an error.
pub fn find_mod_source(tree: &SourceTree, parent: &SourceFile, mod_name: &Vec<char>) -> (r: Option<
    Vec<char>,
>)
    ensures
        r matches Some(p) ==> spec_find_mod_source(
            tree.files@,
            parent@.tree_relative_path,
            mod_name@,
        ) == Some(p@),
        r is None ==> spec_find_mod_source(tree.files@, parent@.tree_relative_path, mod_name@)
            is None,
{
    let parent_path = &parent.tree_relative_path;
    let dir: Vec<char> = if ends_with_component(parent_path, "mod.rs") || ends_with_component(
        parent_path,
        "lib.rs",
    ) || ends_with_component(parent_path, "main.rs") {
        let start = file_name_start(parent_path);
        let mut out: Vec<char> = Vec::new();
        let upto = if start == 0 {
            0
        } else {
            start - 1
        };
        let mut j: usize = 0;
        while j < upto
            invariant
                j <= upto,
                upto < parent_path@.len() || upto == 0,
                upto <= parent_path@.len(),
                out@ == parent_path@.subrange(0, j as int),
            decreases upto - j,
        {
            out.push(parent_path[j]);
            proof {
                assert(out@ =~= parent_path@.subrange(0, j + 1));
            }
            j += 1;
        }
        proof {
            assert(out@ =~= spec_parent_dir(parent_path@));
        }
        out
    } else {
        strip_extension(parent_path)
    };
    let c1 = {
        let tail = chars_concat_str(mod_name, ".rs");
        join_path(&dir, &tail)
    };
    if tree.has_path(&c1) {
        return Some(c1);
    }
    let c2 = {
        let tail = chars_concat_str(mod_name, "/mod.rs");
        join_path(&dir, &tail)
    };
    if tree.has_path(&c2) {
        return Some(c2);
    }
    None
}

} // verus!
