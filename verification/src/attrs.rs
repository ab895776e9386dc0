//! Attributes, and the filters that exclude items from mutation.
//!
//! An attribute is kept as its path segments plus, when its meta
//! could be parsed as a list, the paths of the nested meta items.
//! Malformed meta is treated as "not recognized", never as a skip.

use crate::text::chars_eq_str;
use vstd::prelude::*;

verus! {

/// One attribute on an item.
pub struct Attr {
    /// The attribute's path segments (`cfg_attr` is one segment,
    /// `mutants::skip` is two).
    pub path: Vec<Vec<char>>,
    /// The paths of the nested meta items, or `None` when the meta
    /// is not in conventional list form.
    pub nested: Option<Vec<Vec<Vec<char>>>>,
}

/// Model of an [`Attr`].
pub struct AttrView {
    pub path: Seq<Seq<char>>,
    pub nested: Option<Seq<Seq<Seq<char>>>>,
}

/// The models of a sequence of character vectors.
pub open spec fn strs_view(ss: Seq<Vec<char>>) -> Seq<Seq<char>>
    decreases ss,
{
    if ss.len() == 0 {
        Seq::empty()
    } else {
        strs_view(ss.drop_last()).push(ss.last()@)
    }
}

/// `strs_view` maps the sequence index by index.
pub broadcast proof fn lemma_strs_view(ss: Seq<Vec<char>>)
    ensures
        (#[trigger] strs_view(ss)).len() == ss.len(),
        forall|i: int| 0 <= i < ss.len() ==> strs_view(ss)[i] == ss[i]@,
    decreases ss,
{
    if ss.len() > 0 {
        lemma_strs_view(ss.drop_last());
        assert forall|i: int| 0 <= i < ss.len() implies strs_view(ss)[i] == ss[i]@ by {
            if i < ss.len() - 1 {
                assert(strs_view(ss)[i] == strs_view(ss.drop_last())[i]);
                assert(ss.drop_last()[i] == ss[i]);
            }
        }
    }
}

/// The models of a sequence of paths.
pub open spec fn paths_view(ps: Seq<Vec<Vec<char>>>) -> Seq<Seq<Seq<char>>>
    decreases ps,
{
    if ps.len() == 0 {
        Seq::empty()
    } else {
        paths_view(ps.drop_last()).push(strs_view(ps.last()@))
    }
}

/// `paths_view` maps the sequence index by index.
pub broadcast proof fn lemma_paths_view(ps: Seq<Vec<Vec<char>>>)
    ensures
        (#[trigger] paths_view(ps)).len() == ps.len(),
        forall|i: int| 0 <= i < ps.len() ==> paths_view(ps)[i] == strs_view(ps[i]@),
    decreases ps,
{
    if ps.len() > 0 {
        lemma_paths_view(ps.drop_last());
        assert forall|i: int| 0 <= i < ps.len() implies paths_view(ps)[i] == strs_view(ps[i]@) by {
            if i < ps.len() - 1 {
                assert(paths_view(ps)[i] == paths_view(ps.drop_last())[i]);
                assert(ps.drop_last()[i] == ps[i]);
            }
        }
    }
}

impl View for Attr {
    type V = AttrView;

    open spec fn view(&self) -> AttrView {
        AttrView {
            path: strs_view(self.path@),
            nested: match self.nested {
                Some(ps) => Some(paths_view(ps@)),
                None => None,
            },
        }
    }
}

/// The models of a sequence of attributes.
pub open spec fn attrs_view(attrs: Seq<Attr>) -> Seq<AttrView>
    decreases attrs,
{
    if attrs.len() == 0 {
        Seq::empty()
    } else {
        attrs_view(attrs.drop_last()).push(attrs.last()@)
    }
}

/// `attrs_view` maps the sequence index by index.
pub broadcast proof fn lemma_attrs_view(attrs: Seq<Attr>)
    ensures
        (#[trigger] attrs_view(attrs)).len() == attrs.len(),
        forall|i: int| 0 <= i < attrs.len() ==> attrs_view(attrs)[i] == attrs[i]@,
    decreases attrs,
{
    if attrs.len() > 0 {
        lemma_attrs_view(attrs.drop_last());
        assert forall|i: int| 0 <= i < attrs.len() implies attrs_view(attrs)[i] == attrs[i]@ by {
            if i < attrs.len() - 1 {
                assert(attrs_view(attrs)[i] == attrs_view(attrs.drop_last())[i]);
                assert(attrs.drop_last()[i] == attrs[i]);
            }
        }
    }
}

/// The path is exactly the single segment `test`.
pub open spec fn spec_path_is_test(p: Seq<Seq<char>>) -> bool {
    p.len() == 1 && p[0] == "test"@
}

/// The path is exactly `mutants::skip`.
pub open spec fn spec_path_is_mutants_skip(p: Seq<Seq<char>>) -> bool {
    p.len() == 2 && p[0] == "mutants"@ && p[1] == "skip"@
}

/// The attribute looks like `#[cfg(...)]` with an identifier `test`
/// somewhere among the nested meta items.
pub open spec fn spec_attr_is_cfg_test(a: AttrView) -> bool {
    &&& a.path.len() == 1
    &&& a.path[0] == "cfg"@
    &&& match a.nested {
        Some(metas) => exists|i: int| 0 <= i < metas.len() && metas[i] == seq!["test"@],
        None => false,
    }
}

/// The attribute is `#[test]`.
pub open spec fn spec_attr_is_test(a: AttrView) -> bool {
    spec_path_is_test(a.path)
}

/// The attribute is `#[mutants::skip]`, or `#[cfg_attr(...)]` with
/// `mutants::skip` among the nested meta items.
pub open spec fn spec_attr_is_mutants_skip(a: AttrView) -> bool {
    ||| spec_path_is_mutants_skip(a.path)
    ||| {
        &&& a.path.len() == 1
        &&& a.path[0] == "cfg_attr"@
        &&& match a.nested {
            Some(metas) => exists|i: int|
                0 <= i < metas.len() && spec_path_is_mutants_skip(metas[i]),
            None => false,
        }
    }
}

/// Some attribute of the item asks that it be skipped.
pub open spec fn spec_attrs_excluded(attrs: Seq<AttrView>) -> bool {
    exists|i: int|
        0 <= i < attrs.len() && (spec_attr_is_cfg_test(attrs[i]) || spec_attr_is_test(attrs[i])
            || spec_attr_is_mutants_skip(attrs[i]))
}

/// True if the path's segments are exactly `idents`.
pub fn path_is(p: &Vec<Vec<char>>, idents: &Vec<Vec<char>>) -> (r: bool)
    ensures
        r == (strs_view(p@) == strs_view(idents@)),
{
    proof {
        lemma_strs_view(p@);
        lemma_strs_view(idents@);
    }
    if p.len() != idents.len() {
        proof {
            assert(strs_view(p@).len() != strs_view(idents@).len());
        }
        return false;
    }
    let n = p.len();
    let mut i: usize = 0;
    while i < n
        invariant
            i <= n,
            n == p.len() == idents.len(),
            forall|k: int| 0 <= k < i ==> p@[k]@ == idents@[k]@,
        decreases n - i,
    {
        proof {
            lemma_strs_view(p@);
            lemma_strs_view(idents@);
        }
        if !crate::text::chars_eq(&p[i], &idents[i]) {
            proof {
                assert(strs_view(p@)[i as int] != strs_view(idents@)[i as int]);
            }
            return false;
        }
        i += 1;
    }
    proof {
        assert(strs_view(p@) =~= strs_view(idents@));
    }
    true
}

fn path_matches_one(p: &Vec<Vec<char>>, name: &str) -> (r: bool)
    ensures
        r == (strs_view(p@).len() == 1 && strs_view(p@)[0] == name@),
{
    proof {
        lemma_strs_view(p@);
    }
    p.len() == 1 && chars_eq_str(&p[0], name)
}

fn path_matches_two(p: &Vec<Vec<char>>, a: &str, b: &str) -> (r: bool)
    ensures
        r == (strs_view(p@).len() == 2 && strs_view(p@)[0] == a@ && strs_view(p@)[1] == b@),
{
    proof {
        lemma_strs_view(p@);
    }
    p.len() == 2 && chars_eq_str(&p[0], a) && chars_eq_str(&p[1], b)
}

/// True if the attribute looks like `#[cfg(test)]`, or has `test`
/// anywhere among its nested meta items.
pub fn attr_is_cfg_test(attr: &Attr) -> (r: bool)
    ensures
        r == spec_attr_is_cfg_test(attr@),
{
    if !path_matches_one(&attr.path, "cfg") {
        return false;
    }
    match &attr.nested {
        None => false,
        Some(metas) => {
            proof {
                lemma_paths_view(metas@);
            }
            let ghost mv = paths_view(metas@);
            let n = metas.len();
            let mut i: usize = 0;
            while i < n
                invariant
                    i <= n,
                    n == metas.len(),
                    mv == paths_view(metas@),
                    strs_view(attr.path@).len() == 1,
                    strs_view(attr.path@)[0] == "cfg"@,
                    attr@.nested == Some(mv),
                    forall|k: int| 0 <= k < i ==> mv[k] != seq!["test"@],
                decreases n - i,
            {
                proof {
                    lemma_paths_view(metas@);
                }
                if path_matches_one(&metas[i], "test") {
                    proof {
                        assert(mv[i as int] =~= seq!["test"@]);
                        assert(0 <= i < mv.len());
                        assert(exists|j: int| 0 <= j < mv.len() && mv[j] == seq!["test"@]) by {
                            assert(mv[i as int] == seq!["test"@]);
                        }
                        assert(attr@.path.len() == 1);
                        assert(attr@.path[0] == "cfg"@);
                        assert(attr@.nested == Some(mv));
                        assert(attr@.nested matches Some(m2) && m2 == mv);
                        assert(spec_attr_is_cfg_test(attr@));
                    }
                    return true;
                }
                proof {
                    lemma_strs_view(metas@[i as int]@);
                    assert(mv[i as int] != seq!["test"@]);
                }
                i += 1;
            }
            false
        },
    }
}

/// True if the attribute is `#[test]`.
pub fn attr_is_test(attr: &Attr) -> (r: bool)
    ensures
        r == spec_attr_is_test(attr@),
{
    path_matches_one(&attr.path, "test")
}

/// True if the attribute is `#[mutants::skip]` or carries
/// `mutants::skip` inside `#[cfg_attr(...)]`.
pub fn attr_is_mutants_skip(attr: &Attr) -> (r: bool)
    ensures
        r == spec_attr_is_mutants_skip(attr@),
{
    if path_matches_two(&attr.path, "mutants", "skip") {
        return true;
    }
    if !path_matches_one(&attr.path, "cfg_attr") {
        return false;
    }
    match &attr.nested {
        None => false,
        Some(metas) => {
            proof {
                lemma_paths_view(metas@);
            }
            let ghost mv = paths_view(metas@);
            let n = metas.len();
            let mut i: usize = 0;
            while i < n
                invariant
                    i <= n,
                    n == metas.len(),
                    mv == paths_view(metas@),
                    strs_view(attr.path@).len() == 1,
                    strs_view(attr.path@)[0] == "cfg_attr"@,
                    attr@.nested == Some(mv),
                    forall|k: int| 0 <= k < i ==> !spec_path_is_mutants_skip(mv[k]),
                decreases n - i,
            {
                proof {
                    lemma_paths_view(metas@);
                }
                if path_matches_two(&metas[i], "mutants", "skip") {
                    proof {
                        assert(0 <= i < mv.len());
                        assert(exists|j: int| 0 <= j < mv.len() && spec_path_is_mutants_skip(mv[j]))
                            by {
                            assert(spec_path_is_mutants_skip(mv[i as int]));
                        }
                        assert(attr@.path.len() == 1);
                        assert(attr@.path[0] == "cfg_attr"@);
                        assert(attr@.nested matches Some(m2) && m2 == mv);
                        assert(spec_attr_is_mutants_skip(attr@));
                    }
                    return true;
                }
                i += 1;
            }
            false
        },
    }
}

/// True if some attribute says to skip this item and everything in it.
pub fn attrs_excluded(attrs: &Vec<Attr>) -> (r: bool)
    ensures
        r == spec_attrs_excluded(attrs_view(attrs@)),
{
    proof {
        lemma_attrs_view(attrs@);
    }
    let ghost av = attrs_view(attrs@);
    let n = attrs.len();
    let mut i: usize = 0;
    while i < n
        invariant
            i <= n,
            n == attrs.len(),
            av == attrs_view(attrs@),
            forall|k: int|
                0 <= k < i ==> !(spec_attr_is_cfg_test(av[k]) || spec_attr_is_test(av[k])
                    || spec_attr_is_mutants_skip(av[k])),
        decreases n - i,
    {
        proof {
            lemma_attrs_view(attrs@);
        }
        if attr_is_cfg_test(&attrs[i]) || attr_is_test(&attrs[i]) || attr_is_mutants_skip(
            &attrs[i],
        ) {
            proof {
                assert(av[i as int] == attrs@[i as int]@);
                assert(spec_attrs_excluded(av));
            }
            return true;
        }
        i += 1;
    }
    false
}

} // verus!
