//! The generator: from a trait declaration and a bound to the declaration
//! followed by one implementation per tuple arity, from zero up to the bound.

use crate::decl::{lemma_associated_type_cases, TraitDecl, TraitView};
use crate::error::GenerateError;
use crate::stack::{fresh_placeholders, placeholders, stack_of, Placeholder, TypeStack};
use vstd::prelude::*;

verus! {

/// One generated implementation: `impl<generics> Trait for (target) { type
/// Binding = stack; }`.
#[derive(Debug, PartialEq, Eq)]
pub struct ImplBlock {
    /// The trait that is implemented.
    pub trait_name: String,
    /// The generic parameters of the implementation, in index order.
    pub generics: Vec<Placeholder>,
    /// The elements of the tuple type that the implementation is for.
    pub target: Vec<Placeholder>,
    /// The name of the associated type that the implementation binds.
    pub binding_name: String,
    /// The stack that the associated type is bound to.
    pub binding: TypeStack,
}

/// An implementation as a mathematical value.
pub struct ImplView {
    /// The trait that is implemented.
    pub trait_name: Seq<char>,
    /// The generic parameters, in index order.
    pub generics: Seq<Placeholder>,
    /// The elements of the tuple type.
    pub target: Seq<Placeholder>,
    /// The name of the associated type.
    pub binding_name: Seq<char>,
    /// The stack that the associated type is bound to.
    pub binding: TypeStack,
}

impl View for ImplBlock {
    type V = ImplView;

    open spec fn view(&self) -> ImplView {
        ImplView {
            trait_name: self.trait_name@,
            generics: self.generics@,
            target: self.target@,
            binding_name: self.binding_name@,
            binding: self.binding,
        }
    }
}

/// What is emitted: the declaration as it came in, then the implementations
/// in ascending order of arity.
#[derive(Debug, PartialEq, Eq)]
pub struct Fragment {
    /// The trait declaration, unchanged.
    pub declaration: TraitDecl,
    /// The generated implementations; the one at `k` is for tuples of `k`
    /// elements.
    pub implementations: Vec<ImplBlock>,
}

/// A fragment as a mathematical value.
pub struct FragmentView {
    /// The trait declaration.
    pub declaration: TraitView,
    /// The implementations, in ascending order of arity.
    pub implementations: Seq<ImplView>,
}

impl View for Fragment {
    type V = FragmentView;

    open spec fn view(&self) -> FragmentView {
        FragmentView {
            declaration: self.declaration@,
            implementations: self.implementations@.map_values(|b: ImplBlock| b@),
        }
    }
}

/// The implementation for tuples of `arity` elements: the same placeholders,
/// in the same order, as generic parameters and as tuple elements, and their
/// stack as the binding.
pub open spec fn implementation(
    trait_name: Seq<char>,
    binding_name: Seq<char>,
    arity: nat,
) -> ImplView {
    ImplView {
        trait_name,
        generics: placeholders(arity),
        target: placeholders(arity),
        binding_name,
        binding: stack_of(placeholders(arity)),
    }
}

/// The implementations for every arity from zero up to and including `bound`.
/// The empty tuple is part of the range, so there are `bound + 1` of them.
pub open spec fn implementations(
    trait_name: Seq<char>,
    binding_name: Seq<char>,
    bound: nat,
) -> Seq<ImplView> {
    Seq::new(bound + 1, |k: int| implementation(trait_name, binding_name, k as nat))
}

/// What generation yields for a declaration and a bound: the refusal that the
/// search for the associated type gives, or else the declaration with its
/// implementations.
pub open spec fn generation(decl: TraitView, bound: nat) -> Result<FragmentView, GenerateError> {
    match decl.associated_type() {
        Ok(binding_name) => Ok(
            FragmentView {
                declaration: decl,
                implementations: implementations(decl.name, binding_name, bound),
            },
        ),
        Err(e) => Err(e),
    }
}

impl ImplBlock {
    /// Builds the implementation of `trait_name` for tuples of `arity`
    /// elements, binding `binding_name`.
    pub fn for_arity(trait_name: &String, binding_name: &String, arity: usize) -> (r: ImplBlock)
        ensures
            r@ == implementation(trait_name@, binding_name@, arity as nat),
    {
        let generics = fresh_placeholders(arity);
        let target = fresh_placeholders(arity);
        let binding = TypeStack::encode(&target);
        ImplBlock {
            trait_name: trait_name.clone(),
            generics,
            target,
            binding_name: binding_name.clone(),
            binding,
        }
    }

    /// The number of elements of the tuple type that is implemented.
    pub fn arity(&self) -> (r: usize)
        ensures
            r == self@.target.len(),
    {
        self.target.len()
    }
}

/// Generates the implementations of `decl` for every tuple arity from zero up
/// to and including `bound`. The shape of the declaration is checked before
/// anything is built: a refusal comes with no fragment at all.
pub fn generate(decl: TraitDecl, bound: usize) -> (r: Result<Fragment, GenerateError>)
    ensures
        match generation(decl@, bound as nat) {
            Ok(fragment) => r matches Ok(emitted) && emitted@ == fragment,
            Err(e) => r matches Err(refusal) && refusal == e,
        },
        decl@.has_no_associated_type() ==> r matches Err(GenerateError::MissingAssociatedType),
        decl@.has_several_associated_types() ==> r matches Err(
            GenerateError::AmbiguousAssociatedType,
        ),
        (exists|i: int| decl@.sole_associated_type_at(i)) ==> (r matches Ok(emitted)
            && emitted.declaration == decl && emitted@.implementations.len() == bound + 1),
{
    proof {
        lemma_associated_type_cases(decl@);
    }
    let mut blocks: Vec<ImplBlock> = Vec::new();
    match decl.associated_type() {
        Err(e) => {
            return Err(e);
        },
        Ok(binding_name) => {
            let ghost expected = implementations(decl.name@, binding_name@, bound as nat);
            let mut arity: usize = 0;
            loop
                invariant_except_break
                    0 <= arity <= bound,
                    blocks@.len() == arity,
                    forall|k: int| 0 <= k < arity ==> (#[trigger] blocks@[k])@ == expected[k],
                invariant
                    expected == implementations(decl.name@, binding_name@, bound as nat),
                ensures
                    blocks@.len() == bound + 1,
                    forall|k: int| 0 <= k <= bound ==> (#[trigger] blocks@[k])@ == expected[k],
                decreases bound - arity,
            {
                blocks.push(ImplBlock::for_arity(&decl.name, binding_name, arity));
                if arity == bound {
                    break ;
                }
                arity = arity + 1;
            }
            assert(blocks@.map_values(|b: ImplBlock| b@) =~= expected);
        },
    }
    Ok(Fragment { declaration: decl, implementations: blocks })
}

} // verus!
