//! Token sequences and their rendering as source text.
//!
//! The renderer follows common style for the language rather than the
//! naive one-space-between-everything layout: no spaces around `<`,
//! `>`, `::` or `.`, a single space after `->`, `,` and `;` when more
//! tokens follow, and never a trailing space.

use crate::text::{chars_to_string, push_chars};
use vstd::prelude::*;

verus! {

/// Delimiter of a token group.
#[derive(Clone, Copy, PartialEq, Eq, Structural, Debug)]
pub enum Delim {
    /// `{` ... `}`
    Brace,
    /// `[` ... `]`
    Bracket,
    /// `(` ... `)`
    Paren,
    /// No visible delimiter.
    Bare,
}

/// One token of synthesized source text.
pub enum Token {
    /// An identifier or keyword, stored as its characters.
    Ident(Vec<char>),
    /// A literal, stored verbatim (string literals keep their quotes).
    Lit(Vec<char>),
    /// A single punctuation character.
    Punct(char),
    /// A delimited group of tokens.
    Group(Delim, Vec<Token>),
}

/// Mathematical model of a [`Token`].
pub enum TokView {
    Ident(Seq<char>),
    Lit(Seq<char>),
    Punct(char),
    Group(Delim, Seq<TokView>),
}

impl View for Token {
    type V = TokView;

    open spec fn view(&self) -> TokView
        decreases self,
    {
        match self {
            Token::Ident(s) => TokView::Ident(s@),
            Token::Lit(s) => TokView::Lit(s@),
            Token::Punct(c) => TokView::Punct(*c),
            Token::Group(d, ts) => TokView::Group(*d, tokens_view(ts@)),
        }
    }
}

/// The models of a sequence of tokens, element by element.
pub open spec fn tokens_view(ts: Seq<Token>) -> Seq<TokView>
    decreases ts,
{
    if ts.len() == 0 {
        Seq::empty()
    } else {
        tokens_view(ts.drop_last()).push(ts.last()@)
    }
}

/// `tokens_view` maps the sequence index by index.
pub broadcast proof fn lemma_tokens_view(ts: Seq<Token>)
    ensures
        (#[trigger] tokens_view(ts)).len() == ts.len(),
        forall|i: int| 0 <= i < ts.len() ==> tokens_view(ts)[i] == ts[i]@,
    decreases ts,
{
    if ts.len() > 0 {
        lemma_tokens_view(ts.drop_last());
        assert(tokens_view(ts) == tokens_view(ts.drop_last()).push(ts.last()@));
        assert forall|i: int| 0 <= i < ts.len() implies tokens_view(ts)[i] == ts[i]@ by {
            if i < ts.len() - 1 {
                assert(tokens_view(ts)[i] == tokens_view(ts.drop_last())[i]);
                assert(ts.drop_last()[i] == ts[i]);
            }
        }
    }
}

impl DeepView for Token {
    type V = TokView;

    open spec fn deep_view(&self) -> TokView {
        self.view()
    }
}

/// The models of a sequence of token lists.
pub open spec fn toklists_view(vs: Seq<Vec<Token>>) -> Seq<Seq<TokView>>
    decreases vs,
{
    if vs.len() == 0 {
        Seq::empty()
    } else {
        toklists_view(vs.drop_last()).push(tokens_view(vs.last()@))
    }
}

/// `toklists_view` maps the sequence index by index.
pub broadcast proof fn lemma_toklists_view(vs: Seq<Vec<Token>>)
    ensures
        (#[trigger] toklists_view(vs)).len() == vs.len(),
        forall|i: int| 0 <= i < vs.len() ==> toklists_view(vs)[i] == tokens_view(vs[i]@),
    decreases vs,
{
    if vs.len() > 0 {
        lemma_toklists_view(vs.drop_last());
        assert forall|i: int| 0 <= i < vs.len() implies toklists_view(vs)[i] == tokens_view(
            vs[i]@,
        ) by {
            if i < vs.len() - 1 {
                assert(toklists_view(vs)[i] == toklists_view(vs.drop_last())[i]);
                assert(vs.drop_last()[i] == vs[i]);
            }
        }
    }
}

/// Copy a character vector.
pub fn clone_chars(v: &Vec<char>) -> (r: Vec<char>)
    ensures
        r@ == v@,
{
    let r = v.clone();
    proof {
        assert forall|i: int| 0 <= i < v@.len() implies r@[i] == v@[i] by {
            assert(vstd::pervasive::cloned::<char>(v@[i], r@[i]));
        }
        assert(r@ =~= v@);
    }
    r
}

/// Copy a token.
pub fn clone_token(t: &Token) -> (r: Token)
    ensures
        r@ == t@,
    decreases t,
{
    match t {
        Token::Ident(s) => Token::Ident(clone_chars(s)),
        Token::Lit(s) => Token::Lit(clone_chars(s)),
        Token::Punct(c) => Token::Punct(*c),
        Token::Group(d, ts) => Token::Group(*d, clone_tokens(ts)),
    }
}

/// Copy a token list.
pub fn clone_tokens(ts: &Vec<Token>) -> (r: Vec<Token>)
    ensures
        tokens_view(r@) == tokens_view(ts@),
        r@.len() == ts@.len(),
    decreases ts,
{
    let n = ts.len();
    let mut r: Vec<Token> = Vec::new();
    let mut i: usize = 0;
    while i < n
        invariant
            i <= n,
            n == ts.len(),
            r@.len() == i,
            forall|k: int| 0 <= k < i ==> r@[k]@ == ts@[k]@,
        decreases n - i,
    {
        proof {
            assert(decreases_to!(ts@ => ts@[i as int]));
        }
        r.push(clone_token(&ts[i]));
        i += 1;
    }
    proof {
        lemma_tokens_view(r@);
        lemma_tokens_view(ts@);
        assert(tokens_view(r@) =~= tokens_view(ts@));
    }
    r
}

/// Append a copy of the tokens of `b` to `a`.
pub fn append_tokens(a: &mut Vec<Token>, b: &Vec<Token>)
    ensures
        tokens_view(final(a)@) == tokens_view(old(a)@) + tokens_view(b@),
{
    let n = b.len();
    let mut j: usize = 0;
    while j < n
        invariant
            j <= n,
            n == b.len(),
            a@.len() == old(a)@.len() + j,
            forall|k: int| 0 <= k < old(a)@.len() ==> a@[k]@ == old(a)@[k]@,
            forall|k: int| 0 <= k < j ==> a@[old(a)@.len() + k]@ == b@[k]@,
        decreases n - j,
    {
        a.push(clone_token(&b[j]));
        j += 1;
    }
    proof {
        lemma_tokens_view(a@);
        lemma_tokens_view(old(a)@);
        lemma_tokens_view(b@);
        assert(tokens_view(a@) =~= tokens_view(old(a)@) + tokens_view(b@));
    }
}

/// Copy a list of token lists.
pub fn clone_toklists(vs: &Vec<Vec<Token>>) -> (r: Vec<Vec<Token>>)
    ensures
        toklists_view(r@) == toklists_view(vs@),
{
    let n = vs.len();
    let mut r: Vec<Vec<Token>> = Vec::new();
    let mut i: usize = 0;
    while i < n
        invariant
            i <= n,
            n == vs.len(),
            r@.len() == i,
            forall|k: int| 0 <= k < i ==> tokens_view(r@[k]@) == tokens_view(vs@[k]@),
        decreases n - i,
    {
        r.push(clone_tokens(&vs[i]));
        i += 1;
    }
    proof {
        lemma_toklists_view(r@);
        lemma_toklists_view(vs@);
        assert(toklists_view(r@) =~= toklists_view(vs@));
    }
    r
}

/// The characters that open a delimited group.
pub open spec fn open_chars(d: Delim) -> Seq<char> {
    match d {
        Delim::Brace => seq!['{'],
        Delim::Bracket => seq!['['],
        Delim::Paren => seq!['('],
        Delim::Bare => Seq::empty(),
    }
}

/// The characters that close a delimited group.
pub open spec fn close_chars(d: Delim) -> Seq<char> {
    match d {
        Delim::Brace => seq!['}'],
        Delim::Bracket => seq![']'],
        Delim::Paren => seq![')'],
        Delim::Bare => Seq::empty(),
    }
}

/// Punctuation after which no space follows an identifier or literal.
pub open spec fn spec_tight_punct(c: char) -> bool {
    c == ',' || c == ';' || c == '<' || c == '>' || c == ':' || c == '.' || c == '!'
}

/// True if the rendered text so far ends with `->`.
pub open spec fn ends_arrow(acc: Seq<char>) -> bool {
    acc.len() >= 2 && acc[acc.len() - 2] == '-' && acc[acc.len() - 1] == '>'
}

/// The separator that follows an identifier or literal, given the next token.
pub open spec fn sep_after_text(next: TokView) -> Seq<char> {
    match next {
        TokView::Ident(_) => seq![' '],
        TokView::Lit(_) => seq![' '],
        TokView::Punct(c) => if spec_tight_punct(c) {
            Seq::empty()
        } else {
            seq![' ']
        },
        TokView::Group(_, _) => Seq::empty(),
    }
}

/// Rendering of the token sequence `ts` appended to the text `acc`.
///
/// Group contents are rendered into a fresh buffer, so the spacing
/// decisions inside a group do not see the text before it.
pub open spec fn spec_pretty_from(ts: Seq<TokView>, acc: Seq<char>) -> Seq<char>
    decreases ts,
{
    if ts.len() == 0 {
        acc
    } else {
        let rest = ts.drop_first();
        match ts[0] {
            TokView::Ident(s) => spec_pretty_from(
                rest,
                acc + s + if ts.len() > 1 {
                    sep_after_text(ts[1])
                } else {
                    Seq::empty()
                },
            ),
            TokView::Lit(s) => spec_pretty_from(
                rest,
                acc + s + if ts.len() > 1 {
                    sep_after_text(ts[1])
                } else {
                    Seq::empty()
                },
            ),
            TokView::Punct(c) => {
                let pushed = acc.push(c);
                spec_pretty_from(
                    rest,
                    if ts.len() > 1 && (ends_arrow(pushed) || c == ',' || c == ';') {
                        pushed.push(' ')
                    } else {
                        pushed
                    },
                )
            },
            TokView::Group(d, inner) => spec_pretty_from(
                rest,
                acc + open_chars(d) + spec_pretty_from(inner, Seq::empty()) + close_chars(d),
            ),
        }
    }
}

/// Rendering of a token sequence from an empty buffer.
pub open spec fn spec_pretty(ts: Seq<TokView>) -> Seq<char> {
    spec_pretty_from(ts, Seq::empty())
}

fn push_open(buf: &mut Vec<char>, d: Delim)
    ensures
        final(buf)@ == old(buf)@ + open_chars(d),
{
    match d {
        Delim::Brace => buf.push('{'),
        Delim::Bracket => buf.push('['),
        Delim::Paren => buf.push('('),
        Delim::Bare => (),
    }
    proof {
        assert(final(buf)@ =~= old(buf)@ + open_chars(d));
    }
}

fn push_close(buf: &mut Vec<char>, d: Delim)
    ensures
        final(buf)@ == old(buf)@ + close_chars(d),
{
    match d {
        Delim::Brace => buf.push('}'),
        Delim::Bracket => buf.push(']'),
        Delim::Paren => buf.push(')'),
        Delim::Bare => (),
    }
    proof {
        assert(final(buf)@ =~= old(buf)@ + close_chars(d));
    }
}

fn push_sep_after_text(buf: &mut Vec<char>, next: &Token)
    ensures
        final(buf)@ == old(buf)@ + sep_after_text(next@),
{
    match next {
        Token::Ident(_) => buf.push(' '),
        Token::Lit(_) => buf.push(' '),
        Token::Punct(c) => {
            let tight = *c == ',' || *c == ';' || *c == '<' || *c == '>' || *c == ':' || *c == '.'
                || *c == '!';
            if !tight {
                buf.push(' ');
            }
        },
        Token::Group(_, _) => (),
    }
    proof {
        assert(final(buf)@ =~= old(buf)@ + sep_after_text(next@));
    }
}

/// Render a token sequence as characters.
pub fn pretty_chars(ts: &Vec<Token>) -> (r: Vec<char>)
    ensures
        r@ == spec_pretty(tokens_view(ts@)),
    decreases ts,
{
    broadcast use lemma_tokens_view;

    let ghost full: Seq<TokView> = tokens_view(ts@);
    let mut buf: Vec<char> = Vec::new();
    let n = ts.len();
    proof {
        lemma_tokens_view(ts@);
        assert(full.subrange(0, n as int) =~= full);
    }
    let mut i: usize = 0;
    while i < n
        invariant
            i <= n,
            n == ts.len(),
            full == tokens_view(ts@),
            spec_pretty(full) == spec_pretty_from(full.subrange(i as int, n as int), buf@),
        decreases n - i,
    {
        let ghost rem = full.subrange(i as int, n as int);
        let ghost acc = buf@;
        proof {
            lemma_tokens_view(ts@);
            assert(rem[0] == ts@[i as int]@);
            assert(rem.drop_first() =~= full.subrange(i + 1, n as int));
        }
        match &ts[i] {
            Token::Ident(s) => {
                push_chars(&mut buf, s);
                if i + 1 < n {
                    push_sep_after_text(&mut buf, &ts[i + 1]);
                    proof {
                        assert(rem[1] == ts@[i + 1]@);
                        assert(buf@ =~= acc + s@ + sep_after_text(rem[1]));
                    }
                } else {
                    proof {
                        assert(buf@ =~= acc + s@ + Seq::<char>::empty());
                    }
                }
            },
            Token::Lit(s) => {
                push_chars(&mut buf, s);
                if i + 1 < n {
                    push_sep_after_text(&mut buf, &ts[i + 1]);
                    proof {
                        assert(rem[1] == ts@[i + 1]@);
                        assert(buf@ =~= acc + s@ + sep_after_text(rem[1]));
                    }
                } else {
                    proof {
                        assert(buf@ =~= acc + s@ + Seq::<char>::empty());
                    }
                }
            },
            Token::Punct(c) => {
                buf.push(*c);
                if i + 1 < n {
                    let l = buf.len();
                    let arrow = l >= 2 && buf[l - 2] == '-' && buf[l - 1] == '>';
                    proof {
                        assert(arrow == ends_arrow(acc.push(rem[0]->Punct_0)));
                    }
                    if arrow || *c == ',' || *c == ';' {
                        buf.push(' ');
                    }
                }
            },
            Token::Group(d, inner) => {
                proof {
                    assert(decreases_to!(ts@ => ts@[i as int]));
                    assert(decreases_to!(ts@[i as int] => *inner));
                }
                push_open(&mut buf, *d);
                let sub = pretty_chars(inner);
                push_chars(&mut buf, &sub);
                push_close(&mut buf, *d);
                proof {
                    assert(buf@ =~= acc + open_chars(*d) + spec_pretty(tokens_view(inner@))
                        + close_chars(*d));
                }
            },
        }
        i += 1;
    }
    proof {
        assert(full.subrange(n as int, n as int) =~= Seq::<TokView>::empty());
    }
    buf
}

/// A token as the synthesizer produces them: identifier and literal
/// texts are non-empty and do not end with a space, no punctuation
/// token is itself a space, and a bare group is never empty.
pub open spec fn wf_tok(t: TokView) -> bool
    decreases t,
{
    match t {
        TokView::Ident(s) => s.len() > 0 && s.last() != ' ',
        TokView::Lit(s) => s.len() > 0 && s.last() != ' ',
        TokView::Punct(c) => c != ' ',
        TokView::Group(d, inner) => wf_toks(inner) && (d is Bare ==> inner.len() > 0),
    }
}

/// All tokens of the sequence are well formed.
pub open spec fn wf_toks(ts: Seq<TokView>) -> bool
    decreases ts,
{
    ts.len() == 0 || (wf_toks(ts.drop_last()) && wf_tok(ts.last()))
}

proof fn lemma_wf_toks_split(ts: Seq<TokView>)
    requires
        wf_toks(ts),
        ts.len() > 0,
    ensures
        wf_tok(ts[0]),
        wf_toks(ts.drop_first()),
    decreases ts,
{
    if ts.len() == 1 {
        assert(ts.last() == ts[0]);
        assert(ts.drop_first() =~= Seq::<TokView>::empty());
    } else {
        lemma_wf_toks_split(ts.drop_last());
        assert(ts.drop_last()[0] == ts[0]);
        assert(ts.drop_first().drop_last() =~= ts.drop_last().drop_first());
        assert(ts.drop_first().last() == ts.last());
        assert(wf_toks(ts.drop_first().drop_last()) && wf_tok(ts.drop_first().last()));
    }
}

/// The rendering of a well-formed token sequence never ends with a
/// space, and a non-empty sequence always adds text.
pub proof fn lemma_pretty_no_trailing_space(ts: Seq<TokView>, acc: Seq<char>)
    requires
        wf_toks(ts),
    ensures
        ts.len() == 0 ==> spec_pretty_from(ts, acc) == acc,
        ts.len() > 0 ==> spec_pretty_from(ts, acc).len() > acc.len(),
        ts.len() > 0 ==> spec_pretty_from(ts, acc).last() != ' ',
    decreases ts,
{
    if ts.len() > 0 {
        lemma_wf_toks_split(ts);
        let rest = ts.drop_first();
        match ts[0] {
            TokView::Ident(s) => {
                let acc2 = acc + s + if ts.len() > 1 {
                    sep_after_text(ts[1])
                } else {
                    Seq::empty()
                };
                lemma_pretty_no_trailing_space(rest, acc2);
                if rest.len() == 0 {
                    assert(acc2.last() == s.last());
                }
            },
            TokView::Lit(s) => {
                let acc2 = acc + s + if ts.len() > 1 {
                    sep_after_text(ts[1])
                } else {
                    Seq::empty()
                };
                lemma_pretty_no_trailing_space(rest, acc2);
                if rest.len() == 0 {
                    assert(acc2.last() == s.last());
                }
            },
            TokView::Punct(c) => {
                let pushed = acc.push(c);
                let acc2 = if ts.len() > 1 && (ends_arrow(pushed) || c == ',' || c == ';') {
                    pushed.push(' ')
                } else {
                    pushed
                };
                lemma_pretty_no_trailing_space(rest, acc2);
                if rest.len() == 0 {
                    assert(acc2.last() == c);
                }
            },
            TokView::Group(d, inner) => {
                lemma_pretty_no_trailing_space(inner, Seq::empty());
                let acc2 = acc + open_chars(d) + spec_pretty_from(inner, Seq::empty())
                    + close_chars(d);
                lemma_pretty_no_trailing_space(rest, acc2);
                if d is Bare {
                    assert(acc2.last() == spec_pretty_from(inner, Seq::empty()).last());
                }
                if rest.len() == 0 {
                    assert(acc2.last() != ' ');
                }
            },
        }
    }
}

/// Render a token sequence as a string, in common source style.
pub fn tokens_to_pretty_string(ts: &Vec<Token>) -> (r: String)
    ensures
        r@ == spec_pretty(tokens_view(ts@)),
{
    let chars = pretty_chars(ts);
    chars_to_string(&chars)
}

} // verus!
