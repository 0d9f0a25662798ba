//! The assembler: the declaration and the two conversions as one output unit.

use vstd::prelude::*;
use vstd::string::*;
use crate::decl::{EnumDecl, EnumDeclView};
use crate::emit::{conversion_of, ConversionView, ForwardConversion, ReverseConversion};
use crate::render::{forward_text, reverse_text};

verus! {

/// What one expansion emits: the declaration as it came in, then the forward
/// conversion, then the reverse conversion.
#[derive(Debug, Clone, PartialEq, Eq)]
pub struct OutputUnit {
    pub declaration: String,
    pub forward: ForwardConversion,
    pub reverse: ReverseConversion,
}

/// The mathematical value of an [`OutputUnit`].
pub struct OutputUnitView {
    pub declaration: Seq<char>,
    pub forward: ConversionView,
    pub reverse: ConversionView,
}

impl View for OutputUnit {
    type V = OutputUnitView;

    open spec fn view(&self) -> OutputUnitView {
        OutputUnitView {
            declaration: self.declaration@,
            forward: self.forward@,
            reverse: self.reverse@,
        }
    }
}

/// The output unit of a declaration under a representation type.
pub open spec fn expansion(repr: Seq<char>, decl: EnumDeclView) -> OutputUnitView {
    OutputUnitView {
        declaration: decl.source,
        forward: conversion_of(repr, decl),
        reverse: conversion_of(repr, decl),
    }
}

/// The text of an output unit: the declaration, a line break, the forward
/// conversion and the reverse conversion, in this order.
pub open spec fn output_text(unit: OutputUnitView) -> Seq<char> {
    unit.declaration + "\n"@ + forward_text(unit.forward) + reverse_text(unit.reverse)
}

/// Puts the declaration and the two conversions together, in the fixed order.
/// The declaration's text is taken as it is.
pub fn assemble(
    decl: &EnumDecl,
    forward: ForwardConversion,
    reverse: ReverseConversion,
) -> (unit: OutputUnit)
    ensures
        unit@.declaration == decl@.source,
        unit@.forward == forward@,
        unit@.reverse == reverse@,
{
    OutputUnit { declaration: decl.source.clone(), forward, reverse }
}

impl OutputUnit {
    /// Writes the unit as source text.
    ///
    /// The text begins with the declaration, unchanged: nothing is added to
    /// it and nothing is taken from it.
    pub fn render(&self) -> (text: String)
        ensures
            text@ == output_text(self@),
            text@.len() >= self@.declaration.len(),
            text@.subrange(0, self@.declaration.len() as int) == self@.declaration,
    {
        let forward = self.forward.render();
        let reverse = self.reverse.render();
        let mut text = self.declaration.clone();
        text.append("\n");
        text.append(forward.as_str());
        text.append(reverse.as_str());
        text
    }
}

} // verus!
