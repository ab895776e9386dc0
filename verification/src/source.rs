//! Source files, mutants, and their stable text renderings.

use crate::ast::Span;
use crate::text::{chars_to_string, push_chars, str_to_chars};
use crate::token::clone_chars;
use vstd::prelude::*;

verus! {

/// One source file of the tree under examination.
pub struct SourceFile {
    /// The file's path, relative to the tree root.
    pub tree_relative_path: Vec<char>,
    /// The identifier of the package the file belongs to.
    pub package: Vec<char>,
    /// The file's full source text.
    pub code: String,
}

/// Model of a [`SourceFile`].
pub struct SourceFileView {
    pub tree_relative_path: Seq<char>,
    pub package: Seq<char>,
    pub code: Seq<char>,
}

impl View for SourceFile {
    type V = SourceFileView;

    open spec fn view(&self) -> SourceFileView {
        SourceFileView {
            tree_relative_path: self.tree_relative_path@,
            package: self.package@,
            code: self.code@,
        }
    }
}

impl SourceFile {
    /// Build a source file record from plain text parts.
    pub fn new(path: &str, package: &str, code: &str) -> (r: SourceFile)
        ensures
            r@.tree_relative_path == path@,
            r@.package == package@,
            r@.code == code@,
    {
        SourceFile {
            tree_relative_path: str_to_chars(path),
            package: str_to_chars(package),
            code: code.to_owned(),
        }
    }
}

/// Copy a source file record.
pub fn clone_source_file(sf: &SourceFile) -> (r: SourceFile)
    ensures
        r@ == sf@,
{
    SourceFile {
        tree_relative_path: clone_chars(&sf.tree_relative_path),
        package: clone_chars(&sf.package),
        code: sf.code.clone(),
    }
}

/// The kind of mutation a mutant applies.
#[derive(Clone, Copy, PartialEq, Eq, Structural, Debug)]
pub enum Genre {
    /// Replacement of a function body by a synthesized value.
    FnValue,
}

/// One candidate mutant: a replacement for one function's body.
pub struct Mutant {
    /// The file the mutant lives in.
    pub source_file: SourceFile,
    /// The dotted namespace path of the mutated function.
    pub function_name: String,
    /// The rendered return type, arrow included; empty for unit.
    pub return_type: String,
    /// The rendered replacement expression.
    pub replacement: String,
    /// The function body the replacement overwrites.
    pub span: Span,
    /// The mutant's kind.
    pub genre: Genre,
}

/// Model of a [`Mutant`].
pub struct MutantView {
    pub source_file: SourceFileView,
    pub function_name: Seq<char>,
    pub return_type: Seq<char>,
    pub replacement: Seq<char>,
    pub span: Span,
    pub genre: Genre,
}

impl View for Mutant {
    type V = MutantView;

    open spec fn view(&self) -> MutantView {
        MutantView {
            source_file: self.source_file@,
            function_name: self.function_name@,
            return_type: self.return_type@,
            replacement: self.replacement@,
            span: self.span,
            genre: self.genre,
        }
    }
}

/// The models of a sequence of mutants.
pub open spec fn mutants_view(ms: Seq<Mutant>) -> Seq<MutantView>
    decreases ms,
{
    if ms.len() == 0 {
        Seq::empty()
    } else {
        mutants_view(ms.drop_last()).push(ms.last()@)
    }
}

/// `mutants_view` maps the sequence index by index.
pub broadcast proof fn lemma_mutants_view(ms: Seq<Mutant>)
    ensures
        (#[trigger] mutants_view(ms)).len() == ms.len(),
        forall|i: int| 0 <= i < ms.len() ==> mutants_view(ms)[i] == ms[i]@,
    decreases ms,
{
    if ms.len() > 0 {
        lemma_mutants_view(ms.drop_last());
        assert forall|i: int| 0 <= i < ms.len() implies mutants_view(ms)[i] == ms[i]@ by {
            if i < ms.len() - 1 {
                assert(mutants_view(ms)[i] == mutants_view(ms.drop_last())[i]);
                assert(ms.drop_last()[i] == ms[i]);
            }
        }
    }
}

/// The models of a sequence of source files.
pub open spec fn sourcefiles_view(fs: Seq<SourceFile>) -> Seq<SourceFileView>
    decreases fs,
{
    if fs.len() == 0 {
        Seq::empty()
    } else {
        sourcefiles_view(fs.drop_last()).push(fs.last()@)
    }
}

/// `sourcefiles_view` maps the sequence index by index.
pub broadcast proof fn lemma_sourcefiles_view(fs: Seq<SourceFile>)
    ensures
        (#[trigger] sourcefiles_view(fs)).len() == fs.len(),
        forall|i: int| 0 <= i < fs.len() ==> sourcefiles_view(fs)[i] == fs[i]@,
    decreases fs,
{
    if fs.len() > 0 {
        lemma_sourcefiles_view(fs.drop_last());
        assert forall|i: int| 0 <= i < fs.len() implies sourcefiles_view(fs)[i] == fs[i]@ by {
            if i < fs.len() - 1 {
                assert(sourcefiles_view(fs)[i] == sourcefiles_view(fs.drop_last())[i]);
                assert(fs.drop_last()[i] == fs[i]);
            }
        }
    }
}

/// The names on the namespace stack joined with `::`.
pub open spec fn spec_join_namespace(ns: Seq<Seq<char>>) -> Seq<char>
    decreases ns,
{
    if ns.len() == 0 {
        Seq::empty()
    } else if ns.len() == 1 {
        ns[0]
    } else {
        spec_join_namespace(ns.drop_last()) + seq![':', ':'] + ns.last()
    }
}

/// Join the names on the namespace stack with `::`.
pub fn join_namespace(ns: &Vec<Vec<char>>) -> (r: Vec<char>)
    ensures
        r@ == spec_join_namespace(crate::attrs::strs_view(ns@)),
{
    let ghost nv = crate::attrs::strs_view(ns@);
    let n = ns.len();
    let mut out: Vec<char> = Vec::new();
    let mut j: usize = 0;
    while j < n
        invariant
            j <= n,
            n == ns.len(),
            nv == crate::attrs::strs_view(ns@),
            out@ == spec_join_namespace(nv.take(j as int)),
        decreases n - j,
    {
        proof {
            crate::attrs::lemma_strs_view(ns@);
            assert(nv.take(j as int + 1).drop_last() =~= nv.take(j as int));
        }
        if j > 0 {
            out.push(':');
            out.push(':');
        }
        push_chars(&mut out, &ns[j]);
        proof {
            if j > 0 {
                assert(out@ =~= spec_join_namespace(nv.take(j as int)) + seq![':', ':']
                    + nv[j as int]);
            } else {
                assert(out@ =~= nv[0]);
            }
        }
        j += 1;
    }
    proof {
        crate::attrs::lemma_strs_view(ns@);
        assert(nv.take(n as int) =~= nv);
    }
    out
}

/// The stable identifier of a mutant, as matched by name filters:
/// the file path, the function, its return type and the replacement.
pub open spec fn spec_mutant_name(m: MutantView) -> Seq<char> {
    m.source_file.tree_relative_path + seq![':', ' '] + "replace "@ + m.function_name + (
    if m.return_type.len() == 0 {
        Seq::<char>::empty()
    } else {
        seq![' '] + m.return_type
    }) + " with "@ + m.replacement
}

impl Mutant {
    /// Render the mutant's stable identifier.
    pub fn name(&self) -> (r: String)
        ensures
            r@ == spec_mutant_name(self@),
    {
        let mut out: Vec<char> = Vec::new();
        push_chars(&mut out, &self.source_file.tree_relative_path);
        out.push(':');
        out.push(' ');
        let replace_word = str_to_chars("replace ");
        push_chars(&mut out, &replace_word);
        let fname = str_to_chars(self.function_name.as_str());
        push_chars(&mut out, &fname);
        let rt = str_to_chars(self.return_type.as_str());
        if rt.len() > 0 {
            out.push(' ');
            push_chars(&mut out, &rt);
        }
        let with_word = str_to_chars(" with ");
        push_chars(&mut out, &with_word);
        let rep = str_to_chars(self.replacement.as_str());
        push_chars(&mut out, &rep);
        proof {
            assert(out@ =~= spec_mutant_name(self@));
        }
        chars_to_string(&out)
    }
}

/// Copy a mutant record.
pub fn clone_mutant(m: &Mutant) -> (r: Mutant)
    ensures
        r@ == m@,
{
    Mutant {
        source_file: clone_source_file(&m.source_file),
        function_name: m.function_name.clone(),
        return_type: m.return_type.clone(),
        replacement: m.replacement.clone(),
        span: m.span,
        genre: m.genre,
    }
}

} // verus!
