//! Blanket implementations of a trait for tuples, each binding the trait's
//! associated type to the right-nested pair encoding of the tuple's elements.
//!
//! For the bound `2` and
//!
//! ```text
//! pub trait SomeTrait { type Assoc; }
//! ```
//!
//! the expansion is the declaration itself, followed by
//!
//! ```text
//! impl SomeTrait for () { type Assoc = (); }
//! impl<T0> SomeTrait for (T0,) { type Assoc = (T0, ()); }
//! impl<T0, T1> SomeTrait for (T0, T1) { type Assoc = (T0, (T1, ())); }
//! ```

pub mod decimal;
pub mod decl;
pub mod error;
pub mod generate;
pub mod laws;
pub mod limit;
pub mod render;
pub mod stack;
pub mod syntax;

use crate::decimal::{bound_from_digits, bound_of_digits};
use crate::decl::{lemma_associated_type_cases, TraitDecl, TraitView};
use crate::error::GenerateError;
use crate::generate::{generate, generation};
use crate::laws::lemma_text_extension;
use crate::render::{fragment_text, render_fragment};
use vstd::prelude::*;

verus! {

/// The text that the digits of a bound, a declaration and the declaration's
/// own text expand to. The bound is looked at first, then the declaration's
/// associated type; each can refuse, and a refusal leaves no text.
pub open spec fn expansion(digits: Seq<char>, decl: TraitView, item: Seq<char>) -> Result<
    Seq<char>,
    GenerateError,
> {
    match bound_of_digits(digits) {
        Err(e) => Err(e),
        Ok(bound) => match generation(decl, bound as nat) {
            Err(e) => Err(e),
            Ok(fragment) => Ok(fragment_text(item, fragment.implementations)),
        },
    }
}

/// The text in a result, as a mathematical value.
pub open spec fn text_of(r: Result<String, GenerateError>) -> Result<Seq<char>, GenerateError> {
    match r {
        Ok(text) => Ok(text@),
        Err(e) => Err(e),
    }
}

/// Expands a trait declaration for a bound. `attr` holds the bound in decimal
/// digits, `declaration` is the trait, and `item` is the declaration's own
/// source text. The result is `item` as it stands, followed by one
/// implementation of the trait for each tuple type of up to as many elements
/// as the bound says, the empty tuple included. Each implementation binds the
/// trait's associated type to the stack of the tuple's elements, first
/// element outermost.
///
/// Digits that are no number, a negative number among them, give
/// `InvalidBound`, whatever the declaration. With a bound, a trait with
/// exactly one associated type is always expanded, however many other
/// members it has; one without gives `MissingAssociatedType`, one with
/// several `AmbiguousAssociatedType`.
pub fn tuple_to_typestack(attr: &str, declaration: TraitDecl, item: &str) -> (r: Result<
    String,
    GenerateError,
>)
    ensures
        text_of(r) == expansion(attr@, declaration@, item@),
        bound_of_digits(attr@) is Ok && (exists|i: int| declaration@.sole_associated_type_at(i))
            ==> r is Ok,
        r matches Ok(text) ==> item@.is_prefix_of(text@),
{
    proof {
        lemma_associated_type_cases(declaration@);
    }
    let bound = match bound_from_digits(attr) {
        Ok(bound) => bound,
        Err(e) => {
            return Err(e);
        },
    };
    match generate(declaration, bound) {
        Ok(fragment) => {
            proof {
                lemma_text_extension(item@, fragment@.implementations, 0);
                assert(fragment@.implementations.subrange(0, 0) =~= Seq::empty());
            }
            Ok(render_fragment(item, &fragment.implementations))
        },
        Err(e) => Err(e),
    }
}

} // verus!
