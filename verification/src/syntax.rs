//! The two parsers: of the attribute's argument and of the annotated item.
//!
//! Rust syntax is parsed by `syn`. What it returns is taken over into plain
//! values here; the rest of the crate never sees a syntax tree.

use vstd::prelude::*;
use crate::decl::{EnumDecl, EnumDeclView, Variant};

verus! {

/// The error with which `syn` rejects a text.
#[verifier::external_type_specification]
#[verifier::external_body]
pub struct ExSyntaxError(syn::Error);

/// Why an expansion was given up. Both reasons are fatal: nothing is emitted.
#[derive(Debug)]
pub enum ExpandError {
    /// The attribute's argument is not exactly one type path.
    MalformedArgument(syn::Error),
    /// The annotated item is not an enum.
    MalformedEnum(syn::Error),
}

/// What `syn` makes of a text read as a type path: the path written out again
/// token by token, or `None` where the text is not exactly one type path.
pub uninterp spec fn parsed_type_path(args: Seq<char>) -> Option<Seq<char>>;

/// What `syn` makes of a text read as an enum item: the enum's identifier,
/// each variant's identifier with its attributes written out again, and the
/// whole item written out again; or `None` where the text is not an enum item.
pub uninterp spec fn parsed_enum(input: Seq<char>) -> Option<EnumDeclView>;

/// Calls `syn::parse_str::<syn::TypePath>` and writes the path out with
/// `quote::ToTokens::to_token_stream` and the token stream's `to_string`.
///
/// `proc_macro2::fallback::force` is called first, so that tokens are lexed
/// and written by `proc-macro2` itself whether or not a compiler hosts the
/// call. The contract claims no more than that the outcome is the one named
/// [`parsed_type_path`]: the same text always gives the same outcome.
#[verifier::external_body]
fn syn_type_path(args: &str) -> (r: Result<String, syn::Error>)
    ensures
        match r {
            Ok(text) => parsed_type_path(args@) == Some(text@),
            Err(_) => parsed_type_path(args@) is None,
        },
{
    proc_macro2::fallback::force();
    let path = syn::parse_str::<syn::TypePath>(args)?;
    Ok(quote::ToTokens::to_token_stream(&path).to_string())
}

/// Calls `syn::parse_str::<syn::ItemEnum>` and takes over the item's `ident`,
/// each variant's `ident` and `attrs`, and the item as a whole. Identifiers
/// are written with their `to_string`; attributes and the item with
/// `quote::ToTokens::to_token_stream` and the token stream's `to_string`.
///
/// `proc_macro2::fallback::force` is called first, so that tokens are lexed
/// and written by `proc-macro2` itself whether or not a compiler hosts the
/// call. The contract claims no more than that the outcome is the one named
/// [`parsed_enum`]: the same text always gives the same outcome.
#[verifier::external_body]
fn syn_item_enum(input: &str) -> (r: Result<EnumDecl, syn::Error>)
    ensures
        match r {
            Ok(decl) => parsed_enum(input@) == Some(decl@),
            Err(_) => parsed_enum(input@) is None,
        },
{
    proc_macro2::fallback::force();
    let item = syn::parse_str::<syn::ItemEnum>(input)?;
    let variants = item.variants.iter().map(|v| Variant {
        name: v.ident.to_string(),
        markers: v.attrs.iter().map(|a| quote::ToTokens::to_token_stream(a).to_string()).collect(),
    }).collect();
    Ok(EnumDecl {
        name: item.ident.to_string(),
        variants,
        source: quote::ToTokens::to_token_stream(&item).to_string(),
    })
}

/// Reads the attribute's argument as the representation type.
///
/// Succeeds exactly when the argument is one type path, and then returns the
/// path as it is to be written in the generated code.
pub fn parse_repr_type(args: &str) -> (r: Result<String, ExpandError>)
    ensures
        match r {
            Ok(repr) => parsed_type_path(args@) == Some(repr@),
            Err(e) => e is MalformedArgument && parsed_type_path(args@) is None,
        },
{
    match syn_type_path(args) {
        Ok(repr) => Ok(repr),
        Err(e) => Err(ExpandError::MalformedArgument(e)),
    }
}

/// Reads the annotated item as an enum declaration.
///
/// Succeeds exactly when the item is an enum, and then returns its identifier,
/// its variants in declaration order, each with its markers, and the text of
/// the declaration.
pub fn parse_enum(input: &str) -> (r: Result<EnumDecl, ExpandError>)
    ensures
        match r {
            Ok(decl) => parsed_enum(input@) == Some(decl@),
            Err(e) => e is MalformedEnum && parsed_enum(input@) is None,
        },
{
    match syn_item_enum(input) {
        Ok(decl) => Ok(decl),
        Err(e) => Err(ExpandError::MalformedEnum(e)),
    }
}

} // verus!
