//! Generates the two conversions between the unit variants of an enum and the
//! same-named constants of the `libc` namespace.
//!
//! Given a representation type and an enum declaration, [`libc_enum`] emits
//! the declaration unchanged, an `Into` impl that maps each variant to the
//! constant of its own name, and a `TryFrom` impl that maps each such constant
//! back to its variant and reports failure for every other value.

use vstd::prelude::*;
use crate::decl::EnumDecl;
use crate::emit::{emit_forward, emit_reverse};
use crate::output::{assemble, expansion, OutputUnit};
use crate::syntax::{parse_enum, parse_repr_type, parsed_enum, parsed_type_path, ExpandError};

pub mod decl;
pub mod emit;
pub mod eval;
pub mod laws;
pub mod output;
pub mod render;
pub mod syntax;

verus! {

/// Expands a parsed declaration under a representation type.
pub fn expand(repr: &str, decl: &EnumDecl) -> (unit: OutputUnit)
    ensures
        unit@ == expansion(repr@, decl@),
{
    let forward = emit_forward(repr, decl);
    let reverse = emit_reverse(repr, decl);
    assemble(decl, forward, reverse)
}

/// Expands an annotated enum: `args` is the text of the attribute's argument,
/// `input` the text of the annotated item.
///
/// The argument is read first. Where it is not one type path the expansion
/// fails with [`ExpandError::MalformedArgument`]; where it is, and the item is
/// not an enum, with [`ExpandError::MalformedEnum`]. Otherwise the expansion
/// succeeds with the output unit of the parsed declaration.
pub fn libc_enum(args: &str, input: &str) -> (r: Result<OutputUnit, ExpandError>)
    ensures
        match r {
            Ok(unit) => {
                &&& parsed_type_path(args@) is Some
                &&& parsed_enum(input@) is Some
                &&& unit@ == expansion(parsed_type_path(args@)->0, parsed_enum(input@)->0)
            },
            Err(ExpandError::MalformedArgument(_)) => parsed_type_path(args@) is None,
            Err(ExpandError::MalformedEnum(_)) => {
                &&& parsed_type_path(args@) is Some
                &&& parsed_enum(input@) is None
            },
        },
{
    let repr = match parse_repr_type(args) {
        Ok(repr) => repr,
        Err(e) => {
            return Err(e);
        },
    };
    let decl = match parse_enum(input) {
        Ok(decl) => decl,
        Err(e) => {
            return Err(e);
        },
    };
    Ok(expand(repr.as_str(), &decl))
}

} // verus!
