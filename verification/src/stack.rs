//! Placeholders and the type-level stack that encodes a tuple's elements.

use vstd::prelude::*;

verus! {

/// A generic type placeholder, one per tuple slot. Two placeholders are the
/// same when their indices are.
#[derive(Clone, Copy, Debug, PartialEq, Eq, Structural)]
pub struct Placeholder {
    /// The slot of the tuple that the placeholder stands for.
    pub index: usize,
}

/// A type-level stack: empty, or a head paired with the stack of the rest.
#[derive(Debug, PartialEq, Eq)]
pub enum TypeStack {
    /// The empty stack, the sentinel that ends every chain.
    Unit,
    /// A head element and the stack below it.
    Pair(Placeholder, Box<TypeStack>),
}

/// The placeholders of a tuple of `arity` elements, in index order.
pub open spec fn placeholders(arity: nat) -> Seq<Placeholder> {
    Seq::new(arity, |i: int| Placeholder { index: i as usize })
}

/// The stack that encodes `elements`: the first element is the outermost
/// head, the last one sits next to the sentinel.
pub open spec fn stack_of(elements: Seq<Placeholder>) -> TypeStack
    decreases elements.len(),
{
    if elements.len() == 0 {
        TypeStack::Unit
    } else {
        TypeStack::Pair(elements.first(), Box::new(stack_of(elements.drop_first())))
    }
}

/// The elements of a stack, outermost first.
pub open spec fn elements_of(stack: TypeStack) -> Seq<Placeholder>
    decreases stack,
{
    match stack {
        TypeStack::Unit => Seq::empty(),
        TypeStack::Pair(head, rest) => seq![head] + elements_of(*rest),
    }
}

/// What is left of `stack` below its `depth` outermost heads.
pub open spec fn below(stack: TypeStack, depth: nat) -> TypeStack
    decreases depth,
{
    if depth == 0 {
        stack
    } else {
        match stack {
            TypeStack::Unit => TypeStack::Unit,
            TypeStack::Pair(_, rest) => below(*rest, (depth - 1) as nat),
        }
    }
}

/// Below the first `depth` heads of an encoding lies the encoding of the
/// elements from `depth` on.
pub proof fn lemma_below_encoding(elements: Seq<Placeholder>, depth: nat)
    requires
        depth <= elements.len(),
    ensures
        below(stack_of(elements), depth) == stack_of(
            elements.subrange(depth as int, elements.len() as int),
        ),
    decreases depth,
{
    if depth == 0 {
        assert(elements.subrange(0, elements.len() as int) =~= elements);
    } else {
        let rest = elements.drop_first();
        lemma_below_encoding(rest, (depth - 1) as nat);
        assert(rest.subrange(depth - 1, rest.len() as int) =~= elements.subrange(
            depth as int,
            elements.len() as int,
        ));
    }
}

/// Unfolding the encoding of a sequence gives the sequence back.
pub proof fn lemma_unfold_encoding(elements: Seq<Placeholder>)
    ensures
        elements_of(stack_of(elements)) == elements,
    decreases elements.len(),
{
    if elements.len() > 0 {
        lemma_unfold_encoding(elements.drop_first());
        assert(seq![elements.first()] + elements.drop_first() =~= elements);
    }
}

/// Encoding the elements of a stack gives the stack back.
pub proof fn lemma_encode_unfolding(stack: TypeStack)
    ensures
        stack_of(elements_of(stack)) == stack,
    decreases stack,
{
    match stack {
        TypeStack::Unit => {},
        TypeStack::Pair(head, rest) => {
            lemma_encode_unfolding(*rest);
            let s = seq![head] + elements_of(*rest);
            assert(s.first() == head);
            assert(s.drop_first() =~= elements_of(*rest));
        },
    }
}

/// The placeholders `T0 .. T(arity-1)`, in index order.
pub fn fresh_placeholders(arity: usize) -> (r: Vec<Placeholder>)
    ensures
        r@ == placeholders(arity as nat),
{
    let mut out: Vec<Placeholder> = Vec::new();
    let mut i: usize = 0;
    while i < arity
        invariant
            0 <= i <= arity,
            out@ == placeholders(i as nat),
        decreases arity - i,
    {
        out.push(Placeholder { index: i });
        i = i + 1;
        assert(out@ =~= placeholders(i as nat));
    }
    out
}

impl TypeStack {
    /// Folds `elements` from the last to the first, wrapping the stack built
    /// so far in a new outer pair at each step.
    pub fn encode(elements: &Vec<Placeholder>) -> (r: TypeStack)
        ensures
            r == stack_of(elements@),
    {
        let mut stack = TypeStack::Unit;
        let mut i: usize = elements.len();
        proof {
            assert(elements@.subrange(i as int, elements@.len() as int) =~= Seq::empty());
        }
        while i > 0
            invariant
                0 <= i <= elements@.len(),
                stack == stack_of(elements@.subrange(i as int, elements@.len() as int)),
            decreases i,
        {
            i = i - 1;
            proof {
                let tail = elements@.subrange(i as int, elements@.len() as int);
                assert(tail.first() == elements@[i as int]);
                assert(tail.drop_first() =~= elements@.subrange(
                    i + 1,
                    elements@.len() as int,
                ));
            }
            stack = TypeStack::Pair(elements[i], Box::new(stack));
        }
        proof {
            assert(elements@.subrange(0, elements@.len() as int) =~= elements@);
        }
        stack
    }

    /// The elements of the stack, outermost first.
    pub fn unfold(&self) -> (r: Vec<Placeholder>)
        ensures
            r@ == elements_of(*self),
    {
        let mut out: Vec<Placeholder> = Vec::new();
        let mut rest = self;
        loop
            invariant
                out@ + elements_of(*rest) == elements_of(*self),
            ensures
                out@ == elements_of(*self),
            decreases rest,
        {
            match rest {
                TypeStack::Unit => {
                    assert(out@ + Seq::<Placeholder>::empty() =~= out@);
                    break ;
                },
                TypeStack::Pair(head, below) => {
                    let ghost before = out@;
                    out.push(*head);
                    assert(out@ + elements_of(**below) =~= before + elements_of(*rest));
                    rest = &**below;
                },
            }
        }
        out
    }
}

} // verus!
