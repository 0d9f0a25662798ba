//! The structured form of an annotated enum declaration.

use vstd::prelude::*;

verus! {

/// The texts of a list of strings, in order.
pub open spec fn texts(items: Seq<String>) -> Seq<Seq<char>> {
    items.map_values(|s: String| s@)
}

/// A unit variant: its identifier and the markers attached to it, in source order.
///
/// A marker is the text of one attribute, most often a conditional-inclusion
/// guard. Markers are opaque: they are carried along and never interpreted.
#[derive(Debug, Clone, PartialEq, Eq)]
pub struct Variant {
    pub name: String,
    pub markers: Vec<String>,
}

/// The mathematical value of a [`Variant`].
pub struct VariantView {
    pub name: Seq<char>,
    pub markers: Seq<Seq<char>>,
}

impl View for Variant {
    type V = VariantView;

    open spec fn view(&self) -> VariantView {
        VariantView { name: self.name@, markers: texts(self.markers@) }
    }
}

/// The values of a list of variants, in order.
pub open spec fn variant_views(variants: Seq<Variant>) -> Seq<VariantView> {
    variants.map_values(|v: Variant| v@)
}

/// An enum declaration: its identifier, its variants in declaration order, and
/// the text of the whole declaration as it is to be emitted again.
#[derive(Debug, Clone, PartialEq, Eq)]
pub struct EnumDecl {
    pub name: String,
    pub variants: Vec<Variant>,
    pub source: String,
}

/// The mathematical value of an [`EnumDecl`].
pub struct EnumDeclView {
    pub name: Seq<char>,
    pub variants: Seq<VariantView>,
    pub source: Seq<char>,
}

impl View for EnumDecl {
    type V = EnumDeclView;

    open spec fn view(&self) -> EnumDeclView {
        EnumDeclView {
            name: self.name@,
            variants: variant_views(self.variants@),
            source: self.source@,
        }
    }
}

/// Copies a list of strings.
pub fn clone_texts(items: &Vec<String>) -> (copy: Vec<String>)
    ensures
        texts(copy@) == texts(items@),
{
    let mut copy: Vec<String> = Vec::new();
    let mut i: usize = 0;
    while i < items.len()
        invariant
            i <= items.len(),
            copy.len() == i,
            forall|k: int| 0 <= k < i ==> copy[k]@ == items[k]@,
        decreases items.len() - i,
    {
        copy.push(items[i].clone());
        i += 1;
    }
    assert(texts(copy@) =~= texts(items@));
    copy
}

} // verus!
