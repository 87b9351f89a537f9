//! What holds of every expansion.

use crate::decimal::{bound_of_digits, digit_value, digits_value, is_digits};
use crate::decl::{lemma_associated_type_cases, TraitView};
use crate::error::GenerateError;
use crate::expansion;
use crate::generate::{generation, implementation, implementations, FragmentView, ImplView};
use crate::render::{fragment_text, impl_text};
use crate::stack::{
    below, elements_of, lemma_below_encoding, lemma_unfold_encoding, placeholders, Placeholder,
    TypeStack,
};
use crate::syntax::is_signed_digits;
use vstd::prelude::*;

verus! {

/// A trait with exactly one associated type is never refused: the fragment
/// holds the declaration unchanged and one implementation for each arity from
/// zero to the bound, `bound + 1` in all, the one at `k` for tuples of `k`
/// elements.
pub proof fn lemma_one_block_per_arity(decl: TraitView, at: int, bound: nat)
    requires
        decl.sole_associated_type_at(at),
    ensures
        generation(decl, bound) is Ok,
        generation(decl, bound)->Ok_0.declaration == decl,
        generation(decl, bound)->Ok_0.implementations.len() == bound + 1,
        forall|k: int|
            0 <= k <= bound ==> (#[trigger] generation(decl, bound)->Ok_0.implementations[k])
                == implementation(decl.name, decl.members[at]->0, k as nat),
{
    lemma_associated_type_cases(decl);
}

/// The implementation for arity `k` has exactly `k` placeholders. Each stands
/// once among the generic parameters and once among the tuple's elements, at
/// the place that its index names, so the two lists agree place by place.
pub proof fn lemma_placeholders_match(trait_name: Seq<char>, binding_name: Seq<char>, k: nat)
    requires
        k <= usize::MAX,
    ensures
        implementation(trait_name, binding_name, k).generics.len() == k,
        implementation(trait_name, binding_name, k).target.len() == k,
        forall|i: int|
            0 <= i < k ==> (#[trigger] implementation(trait_name, binding_name, k).generics[i])
                == implementation(trait_name, binding_name, k).target[i],
        forall|i: int|
            0 <= i < k ==> (#[trigger] implementation(
                trait_name,
                binding_name,
                k,
            ).generics[i]).index == i,
        forall|i: int, j: int|
            0 <= i < k && 0 <= j < k && i != j ==> implementation(
                trait_name,
                binding_name,
                k,
            ).generics[i] != implementation(trait_name, binding_name, k).generics[j],
{
}

/// The binding for arity `k` unfolds to the placeholders `T0 .. T(k-1)` in
/// index order. Element `i` is the head at depth `i`: the first element is
/// the outermost head, and below the last element lies the sentinel alone.
pub proof fn lemma_binding_unfolds(trait_name: Seq<char>, binding_name: Seq<char>, k: nat)
    requires
        k <= usize::MAX,
    ensures
        elements_of(implementation(trait_name, binding_name, k).binding) == placeholders(k),
        forall|i: nat|
            i < k ==> #[trigger] below(implementation(trait_name, binding_name, k).binding, i)
                == TypeStack::Pair(
                Placeholder { index: i as usize },
                Box::new(below(implementation(trait_name, binding_name, k).binding, i + 1)),
            ),
        below(implementation(trait_name, binding_name, k).binding, k) == TypeStack::Unit,
{
    let all = placeholders(k);
    let binding = implementation(trait_name, binding_name, k).binding;
    lemma_unfold_encoding(all);
    lemma_below_encoding(all, k);
    assert(all.subrange(k as int, k as int).len() == 0);
    assert forall|i: nat| i < k implies #[trigger] below(binding, i) == TypeStack::Pair(
        Placeholder { index: i as usize },
        Box::new(below(binding, i + 1)),
    ) by {
        lemma_below_encoding(all, i);
        lemma_below_encoding(all, i + 1);
        let tail = all.subrange(i as int, k as int);
        assert(tail.first() == all[i as int]);
        assert(tail.drop_first() =~= all.subrange(i as int + 1, k as int));
    }
}

/// A larger bound only adds implementations: what is generated for `smaller`
/// is the beginning of what is generated for `larger`.
pub proof fn lemma_monotonic_extension(decl: TraitView, smaller: nat, larger: nat)
    requires
        smaller < larger,
    ensures
        generation(decl, smaller) is Ok <==> generation(decl, larger) is Ok,
        generation(decl, smaller) is Err ==> generation(decl, smaller)->Err_0 == generation(
            decl,
            larger,
        )->Err_0,
        generation(decl, smaller) is Ok ==> generation(decl, larger)->Ok_0.implementations.subrange(
            0,
            smaller as int + 1,
        ) == generation(decl, smaller)->Ok_0.implementations,
{
    if generation(decl, smaller) is Ok {
        let name = decl.associated_type()->Ok_0;
        assert(implementations(decl.name, name, larger).subrange(0, smaller as int + 1)
            =~= implementations(decl.name, name, smaller));
    }
}

/// The text for a larger bound begins with the text for a smaller one: what
/// is written for the first `n` implementations is the beginning of what is
/// written for all of them.
pub proof fn lemma_text_extension(declaration: Seq<char>, blocks: Seq<ImplView>, n: int)
    requires
        0 <= n <= blocks.len(),
    ensures
        fragment_text(declaration, blocks.subrange(0, n)).is_prefix_of(
            fragment_text(declaration, blocks),
        ),
    decreases blocks.len() - n,
{
    if n == blocks.len() {
        assert(blocks.subrange(0, n) =~= blocks);
    } else {
        let shorter = blocks.drop_last();
        lemma_text_extension(declaration, shorter, n);
        assert(shorter.subrange(0, n) =~= blocks.subrange(0, n));
        let head = fragment_text(declaration, blocks.subrange(0, n));
        let mid = fragment_text(declaration, shorter);
        let all = fragment_text(declaration, blocks);
        assert(all == mid + "\n"@ + impl_text(blocks.last()));
        assert(head.is_prefix_of(mid));
        assert(mid.is_prefix_of(all)) by {
            assert(all.subrange(0, mid.len() as int) =~= mid);
        }
        assert(head.is_prefix_of(all)) by {
            assert(all.subrange(0, head.len() as int) =~= head);
        }
    }
}

/// A trait without an associated type is refused, whatever the bound.
pub proof fn lemma_missing_associated_type(decl: TraitView, bound: nat)
    requires
        decl.has_no_associated_type(),
    ensures
        generation(decl, bound) == Err::<FragmentView, GenerateError>(
            GenerateError::MissingAssociatedType,
        ),
{
}

/// Digits among which a character is no digit give no bound.
pub proof fn lemma_non_numeric_bound(digits: Seq<char>, at: int)
    requires
        0 <= at < digits.len(),
        digit_value(digits[at]) is None,
    ensures
        bound_of_digits(digits) == Err::<usize, GenerateError>(GenerateError::InvalidBound),
{
}

/// Digits that begin with a minus sign give no bound: no negative number is
/// one.
pub proof fn lemma_negative_bound(digits: Seq<char>)
    requires
        digits.len() > 0,
        digits[0] == '-',
    ensures
        bound_of_digits(digits) == Err::<usize, GenerateError>(GenerateError::InvalidBound),
{
    assert(digit_value(digits[0]) is None);
}

/// Signed digits give a bound exactly where they carry no minus sign and
/// their value fits `usize`; the bound is then that value.
pub proof fn lemma_bound_of_signed_digits(digits: Seq<char>)
    requires
        is_signed_digits(digits),
    ensures
        bound_of_digits(digits) is Ok <==> digits[0] != '-' && digits_value(digits)
            <= usize::MAX,
        digits[0] == '-' ==> bound_of_digits(digits) == Err::<usize, GenerateError>(
            GenerateError::InvalidBound,
        ),
{
    if digits[0] == '-' {
        assert(digit_value(digits[0]) is None);
    } else {
        assert(is_digits(digits));
    }
}

/// Digits that give no bound refuse the expansion, whatever the declaration
/// and its text. With a bound, the expansion is refused exactly where the
/// generation is, and otherwise it is the text of what was generated.
pub proof fn lemma_refusal_emits_nothing(digits: Seq<char>, decl: TraitView, item: Seq<char>)
    ensures
        bound_of_digits(digits) is Err ==> expansion(digits, decl, item) == Err::<
            Seq<char>,
            GenerateError,
        >(GenerateError::InvalidBound),
        bound_of_digits(digits) matches Ok(bound) ==> (expansion(digits, decl, item) is Ok
            <==> generation(decl, bound as nat) is Ok),
        expansion(digits, decl, item) matches Err(e) ==> e == GenerateError::InvalidBound || e
            == GenerateError::MissingAssociatedType || e
            == GenerateError::AmbiguousAssociatedType,
{
}

/// With a bound, a trait with exactly one associated type is always
/// expanded: to its own text, then `bound + 1` implementations.
pub proof fn lemma_expansion_never_fails(digits: Seq<char>, decl: TraitView, at: int, item: Seq<char>)
    requires
        bound_of_digits(digits) is Ok,
        decl.sole_associated_type_at(at),
    ensures
        expansion(digits, decl, item) == Ok::<Seq<char>, GenerateError>(
            fragment_text(
                item,
                implementations(
                    decl.name,
                    decl.members[at]->0,
                    bound_of_digits(digits)->Ok_0 as nat,
                ),
            ),
        ),
{
    lemma_associated_type_cases(decl);
}

} // verus!
