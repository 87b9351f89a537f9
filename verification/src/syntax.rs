//! Readers of source text, for callers that hold a declaration as text and
//! not as syntax: the bound as an integer literal and the trait declaration
//! as an item, both through `syn`. What they give is what
//! `tuple_to_typestack` takes.
//!
//! How `syn` splits a text into tokens depends on where it runs: inside a
//! macro the compiler splits it, elsewhere `syn` does so itself, and the two
//! do not agree on every text. So nothing here says which texts are read as
//! what. And `syn` descends as deep as a text nests, so the readers take
//! short texts only: a limit of their own, which the expansion does not have.

use crate::decimal::is_digits;
use crate::decl::{Member, TraitDecl};
use crate::error::GenerateError;
use crate::limit::{token_bound, within_limit, MAX_TOKENS};
use vstd::prelude::*;

verus! {

/// Whether `s` is a run of decimal digits, or a minus sign followed by one.
pub open spec fn is_signed_digits(s: Seq<char>) -> bool {
    is_digits(s) || (s.len() > 0 && s[0] == '-' && is_digits(s.drop_first()))
}

/// Parses `text` with `syn::parse_str::<syn::LitInt>` and hands out the
/// literal's `base10_digits`, or `None` where `syn` reports an error. Not
/// proved: that these digits are decimal digits, after a minus sign where the
/// literal is negated. Texts of more than `MAX_TOKENS` tokens are kept from
/// `syn`, which descends as deep as the text's brackets nest.
#[verifier::external_body]
fn literal_digits(text: &str) -> (r: Option<String>)
    requires
        token_bound(text@) <= MAX_TOKENS,
    ensures
        r matches Some(digits) ==> is_signed_digits(digits@),
{
    match syn::parse_str::<syn::LitInt>(text) {
        Ok(literal) => Some(literal.base10_digits().to_string()),
        Err(_) => None,
    }
}

/// Parses `text` with `syn::parse_str::<syn::ItemTrait>` and hands out the
/// trait's identifier and, for each item, whether it is a
/// `syn::TraitItem::Type` and under which identifier; `None` where `syn`
/// reports an error. Nothing is claimed of the outcome. Texts of more than
/// `MAX_TOKENS` tokens are kept from `syn`, which descends as deep as the
/// text's types, expressions and brackets nest.
#[verifier::external_body]
fn trait_declaration(text: &str) -> (r: Option<TraitDecl>)
    requires
        token_bound(text@) <= MAX_TOKENS,
{
    match syn::parse_str::<syn::ItemTrait>(text) {
        Ok(item) => Some(TraitDecl {
            name: item.ident.to_string(),
            members: item.items.iter().map(|member| match member {
                syn::TraitItem::Type(ty) => Member::AssociatedType { name: ty.ident.to_string() },
                _ => Member::Other,
            }).collect(),
        }),
        Err(_) => None,
    }
}

/// Reads an integer literal from its source text and gives its value in
/// decimal digits, which `bound_from_digits` takes. The text is handed to
/// `syn` as it stands, unless it holds more than `MAX_TOKENS` tokens: then it
/// is not read, and that alone gives `TextTooLong`. What `syn` does not take
/// for an integer literal gives `InvalidBound`. Digits that come back are
/// decimal digits, after a minus sign at most.
pub fn read_literal(literal: &str) -> (r: Result<String, GenerateError>)
    ensures
        r matches Err(GenerateError::TextTooLong) <==> token_bound(literal@) > MAX_TOKENS,
        r matches Err(e) ==> e == GenerateError::TextTooLong || e == GenerateError::InvalidBound,
        r matches Ok(digits) ==> is_signed_digits(digits@),
{
    if !within_limit(literal) {
        return Err(GenerateError::TextTooLong);
    }
    match literal_digits(literal) {
        Some(digits) => Ok(digits),
        None => Err(GenerateError::InvalidBound),
    }
}

/// Reads a trait declaration from its source text. The text is handed to
/// `syn` as it stands, unless it holds more than `MAX_TOKENS` tokens: then it
/// is not read, and that alone gives `TextTooLong`. What `syn` does not take
/// for a trait declaration gives `MalformedTrait`.
pub fn read_trait(item: &str) -> (r: Result<TraitDecl, GenerateError>)
    ensures
        r matches Err(GenerateError::TextTooLong) <==> token_bound(item@) > MAX_TOKENS,
        r matches Err(e) ==> e == GenerateError::TextTooLong || e == GenerateError::MalformedTrait,
{
    if !within_limit(item) {
        return Err(GenerateError::TextTooLong);
    }
    match trait_declaration(item) {
        Some(decl) => Ok(decl),
        None => Err(GenerateError::MalformedTrait),
    }
}

} // verus!
