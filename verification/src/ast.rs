//! The shape of a parsed source file, as the discovery visitor reads it.
//!
//! Only what the visitor consults is kept: functions with their
//! signatures, bodies and nested items, impl blocks, and modules.

use crate::attrs::{attrs_view, Attr, AttrView};
use crate::types::{type_view, ReturnType, ReturnTypeView, TypeExpr, TypeView};
use vstd::prelude::*;

verus! {

/// A line/column range locating a function body in its file.
#[derive(Clone, Copy, PartialEq, Eq, Structural, Debug)]
pub struct Span {
    pub start_line: usize,
    pub start_col: usize,
    pub end_line: usize,
    pub end_col: usize,
}

/// A function body: whether it has any statements, and where it is.
#[derive(Clone, Copy, PartialEq, Eq, Structural, Debug)]
pub struct Block {
    /// True if the body holds no statements.
    pub empty: bool,
    /// The region inside the body's outermost braces.
    pub span: Span,
}

/// A function signature.
pub struct FnSig {
    /// The function carries an `unsafe` qualifier.
    pub is_unsafe: bool,
    /// The function's name.
    pub ident: Vec<char>,
    /// The declared return type.
    pub output: ReturnType,
}

/// A function item, possibly with items nested in its body.
pub struct FnItem {
    pub attrs: Vec<Attr>,
    pub sig: FnSig,
    pub body: Block,
    pub nested: Vec<Item>,
}

/// An `impl` block, inherent or for a trait.
pub struct ImplBlock {
    pub attrs: Vec<Attr>,
    /// The type the block implements on.
    pub self_ty: TypeExpr,
    /// The last segment of the trait path, when the block implements
    /// a trait.
    pub trait_name: Option<Vec<char>>,
    pub items: Vec<Item>,
}

/// A module, inline or referring to an external file.
pub struct ModItem {
    pub attrs: Vec<Attr>,
    /// The module's name, raw-identifier prefix removed.
    pub name: Vec<char>,
    /// The inline body, or `None` for `mod name;`.
    pub content: Option<Vec<Item>>,
}

/// One item the visitor descends into.
pub enum Item {
    Fn(FnItem),
    Impl(ImplBlock),
    Mod(ModItem),
}

/// A parsed source file.
pub struct FileAst {
    pub items: Vec<Item>,
}

/// Model of a [`FnSig`].
pub struct SigView {
    pub is_unsafe: bool,
    pub ident: Seq<char>,
    pub output: ReturnTypeView,
}

/// Model of a [`FnItem`].
pub struct FnView {
    pub attrs: Seq<AttrView>,
    pub sig: SigView,
    pub body: Block,
    pub nested: Seq<ItemView>,
}

/// Model of an [`ImplBlock`].
pub struct ImplView {
    pub attrs: Seq<AttrView>,
    pub self_ty: TypeView,
    pub trait_name: Option<Seq<char>>,
    pub items: Seq<ItemView>,
}

/// Model of a [`ModItem`].
pub struct ModView {
    pub attrs: Seq<AttrView>,
    pub name: Seq<char>,
    pub content: Option<Seq<ItemView>>,
}

/// Model of an [`Item`].
pub enum ItemView {
    Fn(FnView),
    Impl(ImplView),
    Mod(ModView),
}

/// Model of a [`FileAst`].
pub struct FileView {
    pub items: Seq<ItemView>,
}

/// Model of a [`FnSig`].
pub open spec fn sig_view(s: FnSig) -> SigView {
    SigView { is_unsafe: s.is_unsafe, ident: s.ident@, output: s.output@ }
}

/// Model of an [`Item`].
pub open spec fn item_view(i: Item) -> ItemView
    decreases i,
{
    match i {
        Item::Fn(f) => ItemView::Fn(
            FnView {
                attrs: attrs_view(f.attrs@),
                sig: sig_view(f.sig),
                body: f.body,
                nested: items_view(f.nested@),
            },
        ),
        Item::Impl(b) => ItemView::Impl(
            ImplView {
                attrs: attrs_view(b.attrs@),
                self_ty: type_view(b.self_ty),
                trait_name: match b.trait_name {
                    Some(n) => Some(n@),
                    None => None,
                },
                items: items_view(b.items@),
            },
        ),
        Item::Mod(m) => ItemView::Mod(
            ModView {
                attrs: attrs_view(m.attrs@),
                name: m.name@,
                content: match m.content {
                    Some(c) => Some(items_view(c@)),
                    None => None,
                },
            },
        ),
    }
}

/// The models of a sequence of items.
pub open spec fn items_view(items: Seq<Item>) -> Seq<ItemView>
    decreases items,
{
    if items.len() == 0 {
        Seq::empty()
    } else {
        items_view(items.drop_last()).push(item_view(items.last()))
    }
}

/// `items_view` maps the sequence index by index.
pub broadcast proof fn lemma_items_view(items: Seq<Item>)
    ensures
        (#[trigger] items_view(items)).len() == items.len(),
        forall|i: int| 0 <= i < items.len() ==> items_view(items)[i] == item_view(items[i]),
    decreases items,
{
    if items.len() > 0 {
        lemma_items_view(items.drop_last());
        assert forall|i: int| 0 <= i < items.len() implies items_view(items)[i] == item_view(
            items[i],
        ) by {
            if i < items.len() - 1 {
                assert(items_view(items)[i] == items_view(items.drop_last())[i]);
                assert(items.drop_last()[i] == items[i]);
            }
        }
    }
}

impl View for FileAst {
    type V = FileView;

    open spec fn view(&self) -> FileView {
        FileView { items: items_view(self.items@) }
    }
}

/// True if the signature alone excludes the function from mutation.
pub fn fn_sig_excluded(sig: &FnSig) -> (r: bool)
    ensures
        r == sig.is_unsafe,
{
    sig.is_unsafe
}

/// True if the block (the contents of a function) is empty.
pub fn block_is_empty(block: &Block) -> (r: bool)
    ensures
        r == block.empty,
{
    block.empty
}

} // verus!
