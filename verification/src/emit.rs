//! The two emitters: from a declaration to the generated conversions, as
//! structured match arms.

use vstd::prelude::*;
use crate::decl::{clone_texts, texts, EnumDecl, EnumDeclView, Variant, VariantView, variant_views};

verus! {

/// One arm of a generated `match`.
///
/// It pairs an enum variant with a constant of the `libc` namespace, under the
/// markers of the variant it was made from. In the forward conversion the
/// variant is the pattern and the constant the value; in the reverse
/// conversion the constant is the pattern and the variant the value.
#[derive(Debug, Clone, PartialEq, Eq)]
pub struct MatchArm {
    pub markers: Vec<String>,
    pub variant: String,
    pub constant: String,
}

/// The mathematical value of a [`MatchArm`].
pub struct MatchArmView {
    pub markers: Seq<Seq<char>>,
    pub variant: Seq<char>,
    pub constant: Seq<char>,
}

impl View for MatchArm {
    type V = MatchArmView;

    open spec fn view(&self) -> MatchArmView {
        MatchArmView {
            markers: texts(self.markers@),
            variant: self.variant@,
            constant: self.constant@,
        }
    }
}

/// The values of a list of arms, in order.
pub open spec fn arm_views(arms: Seq<MatchArm>) -> Seq<MatchArmView> {
    arms.map_values(|a: MatchArm| a@)
}

/// The mathematical value of a generated conversion, forward or reverse: the
/// representation type, the enum's identifier and the arms in order.
pub struct ConversionView {
    pub repr: Seq<char>,
    pub enum_name: Seq<char>,
    pub arms: Seq<MatchArmView>,
}

/// The generated conversion from a variant to its representation value.
///
/// Its `match` has the arms and nothing else: no fallback.
#[derive(Debug, Clone, PartialEq, Eq)]
pub struct ForwardConversion {
    pub repr: String,
    pub enum_name: String,
    pub arms: Vec<MatchArm>,
}

impl View for ForwardConversion {
    type V = ConversionView;

    open spec fn view(&self) -> ConversionView {
        ConversionView { repr: self.repr@, enum_name: self.enum_name@, arms: arm_views(self.arms@) }
    }
}

/// The generated fallible conversion from a representation value to a variant.
///
/// Its `match` has the arms, then a catch-all arm that reports failure.
#[derive(Debug, Clone, PartialEq, Eq)]
pub struct ReverseConversion {
    pub repr: String,
    pub enum_name: String,
    pub arms: Vec<MatchArm>,
}

impl View for ReverseConversion {
    type V = ConversionView;

    open spec fn view(&self) -> ConversionView {
        ConversionView { repr: self.repr@, enum_name: self.enum_name@, arms: arm_views(self.arms@) }
    }
}

/// The arm made from a variant: the variant's own markers, and the constant
/// that bears the variant's own identifier.
pub open spec fn arm_of(variant: VariantView) -> MatchArmView {
    MatchArmView { markers: variant.markers, variant: variant.name, constant: variant.name }
}

/// One arm per variant, in declaration order.
pub open spec fn arms_of(variants: Seq<VariantView>) -> Seq<MatchArmView> {
    variants.map_values(|v: VariantView| arm_of(v))
}

/// The conversion, forward or reverse, that a declaration gives rise to.
pub open spec fn conversion_of(repr: Seq<char>, decl: EnumDeclView) -> ConversionView {
    ConversionView { repr: repr, enum_name: decl.name, arms: arms_of(decl.variants) }
}

/// Builds the arm of one variant.
pub fn variant_arm(variant: &Variant) -> (arm: MatchArm)
    ensures
        arm@ == arm_of(variant@),
{
    MatchArm {
        markers: clone_texts(&variant.markers),
        variant: variant.name.clone(),
        constant: variant.name.clone(),
    }
}

/// Builds one arm per variant, in declaration order.
pub fn variant_arms(variants: &Vec<Variant>) -> (arms: Vec<MatchArm>)
    ensures
        arm_views(arms@) == arms_of(variant_views(variants@)),
{
    let mut arms: Vec<MatchArm> = Vec::new();
    let mut i: usize = 0;
    while i < variants.len()
        invariant
            i <= variants.len(),
            arms.len() == i,
            forall|k: int| 0 <= k < i ==> arms[k]@ == arm_of(variants[k]@),
        decreases variants.len() - i,
    {
        arms.push(variant_arm(&variants[i]));
        i += 1;
    }
    assert(arm_views(arms@) =~= arms_of(variant_views(variants@)));
    arms
}

/// Emits the forward conversion of a declaration: for each variant in
/// declaration order, an arm from the variant to the same-named constant,
/// under the variant's markers.
pub fn emit_forward(repr: &str, decl: &EnumDecl) -> (forward: ForwardConversion)
    ensures
        forward@ == conversion_of(repr@, decl@),
{
    ForwardConversion {
        repr: repr.to_owned(),
        enum_name: decl.name.clone(),
        arms: variant_arms(&decl.variants),
    }
}

/// Emits the reverse conversion of a declaration: for each variant in
/// declaration order, an arm from the same-named constant to the variant,
/// under the variant's markers.
pub fn emit_reverse(repr: &str, decl: &EnumDecl) -> (reverse: ReverseConversion)
    ensures
        reverse@ == conversion_of(repr@, decl@),
{
    ReverseConversion {
        repr: repr.to_owned(),
        enum_name: decl.name.clone(),
        arms: variant_arms(&decl.variants),
    }
}

} // verus!
