//! The emitted text: placeholders by name, implementations as source text.

use crate::decimal::{decimal, lemma_decimal_injective, push_decimal};
use crate::generate::{ImplBlock, ImplView};
use crate::stack::{Placeholder, TypeStack};
use vstd::prelude::*;
use vstd::string::*;

verus! {

/// The name of a placeholder: `T` and its index in decimal notation.
pub open spec fn placeholder_name(p: Placeholder) -> Seq<char> {
    "T"@ + decimal(p.index as nat)
}

/// The names of `ps`, separated by a comma and a space.
pub open spec fn list_text(ps: Seq<Placeholder>) -> Seq<char>
    decreases ps.len(),
{
    if ps.len() == 0 {
        Seq::empty()
    } else if ps.len() == 1 {
        placeholder_name(ps[0])
    } else {
        list_text(ps.drop_last()) + ", "@ + placeholder_name(ps.last())
    }
}

/// The generic parameter list of an implementation. An implementation
/// without parameters has no list at all.
pub open spec fn generics_text(ps: Seq<Placeholder>) -> Seq<char> {
    if ps.len() == 0 {
        Seq::empty()
    } else {
        "<"@ + list_text(ps) + ">"@
    }
}

/// The tuple type with elements `ps`. A tuple of one element takes a
/// trailing comma, which tells it from a parenthesized type.
pub open spec fn tuple_text(ps: Seq<Placeholder>) -> Seq<char> {
    if ps.len() == 1 {
        "("@ + list_text(ps) + ",)"@
    } else {
        "("@ + list_text(ps) + ")"@
    }
}

/// A stack as a type: `()` for the empty stack, and the pair of the head and
/// the rest otherwise.
pub open spec fn stack_text(stack: TypeStack) -> Seq<char>
    decreases stack,
{
    match stack {
        TypeStack::Unit => "()"@,
        TypeStack::Pair(head, rest) => "("@ + placeholder_name(head) + ", "@ + stack_text(*rest)
            + ")"@,
    }
}

/// An implementation as source text, on one line.
pub open spec fn impl_text(block: ImplView) -> Seq<char> {
    "impl"@ + generics_text(block.generics) + " "@ + block.trait_name + " for "@ + tuple_text(
        block.target,
    ) + " { type "@ + block.binding_name + " = "@ + stack_text(block.binding) + "; }"@
}

/// The declaration's own text, then each implementation on a line of its own.
pub open spec fn fragment_text(declaration: Seq<char>, blocks: Seq<ImplView>) -> Seq<char>
    decreases blocks.len(),
{
    if blocks.len() == 0 {
        declaration
    } else {
        fragment_text(declaration, blocks.drop_last()) + "\n"@ + impl_text(blocks.last())
    }
}

/// Placeholders with the same name are the same placeholder: within one
/// implementation no name is used twice.
pub proof fn lemma_placeholder_names_distinct(p: Placeholder, q: Placeholder)
    requires
        placeholder_name(p) == placeholder_name(q),
    ensures
        p == q,
{
    let a = decimal(p.index as nat);
    let b = decimal(q.index as nat);
    let t = "T"@;
    assert((t + a).subrange(t.len() as int, (t + a).len() as int) =~= a);
    assert((t + b).subrange(t.len() as int, (t + b).len() as int) =~= b);
    lemma_decimal_injective(p.index as nat, q.index as nat);
}

/// Appends the name of `p` to `out`.
pub fn push_placeholder(out: &mut String, p: Placeholder)
    ensures
        final(out)@ == old(out)@ + placeholder_name(p),
{
    out.append("T");
    push_decimal(out, p.index);
    assert(out@ =~= old(out)@ + placeholder_name(p));
}

/// Appends the names of `ps`, separated by a comma and a space.
pub fn push_list(out: &mut String, ps: &Vec<Placeholder>)
    ensures
        final(out)@ == old(out)@ + list_text(ps@),
{
    let mut i: usize = 0;
    assert(ps@.subrange(0, 0) =~= Seq::empty());
    assert(out@ =~= old(out)@ + list_text(ps@.subrange(0, 0)));
    while i < ps.len()
        invariant
            0 <= i <= ps@.len(),
            out@ == old(out)@ + list_text(ps@.subrange(0, i as int)),
        decreases ps@.len() - i,
    {
        let ghost before = ps@.subrange(0, i as int);
        let ghost after = ps@.subrange(0, i + 1);
        proof {
            assert(after.drop_last() =~= before);
            assert(after.last() == ps@[i as int]);
        }
        if i > 0 {
            out.append(", ");
        }
        push_placeholder(out, ps[i]);
        proof {
            if i == 0 {
                assert(list_text(before) =~= Seq::empty());
                assert(after[0] == ps@[0]);
            }
            assert(out@ =~= old(out)@ + list_text(after));
        }
        i = i + 1;
    }
    assert(ps@.subrange(0, i as int) =~= ps@);
}

/// Appends `stack` as a type.
pub fn push_stack(out: &mut String, stack: &TypeStack)
    ensures
        final(out)@ == old(out)@ + stack_text(*stack),
    decreases *stack,
{
    match stack {
        TypeStack::Unit => {
            out.append("()");
        },
        TypeStack::Pair(head, rest) => {
            out.append("(");
            push_placeholder(out, *head);
            out.append(", ");
            push_stack(out, rest);
            out.append(")");
            assert(out@ =~= old(out)@ + stack_text(*stack));
        },
    }
}

impl ImplBlock {
    /// Appends the implementation as source text.
    pub fn push_text(&self, out: &mut String)
        ensures
            final(out)@ == old(out)@ + impl_text(self@),
    {
        out.append("impl");
        if self.generics.len() > 0 {
            out.append("<");
            push_list(out, &self.generics);
            out.append(">");
        }
        assert(out@ =~= old(out)@ + "impl"@ + generics_text(self@.generics));
        out.append(" ");
        out.append(self.trait_name.as_str());
        out.append(" for ");
        out.append("(");
        push_list(out, &self.target);
        if self.target.len() == 1 {
            out.append(",)");
        } else {
            out.append(")");
        }
        assert(out@ =~= old(out)@ + "impl"@ + generics_text(self@.generics) + " "@
            + self@.trait_name + " for "@ + tuple_text(self@.target));
        out.append(" { type ");
        out.append(self.binding_name.as_str());
        out.append(" = ");
        push_stack(out, &self.binding);
        out.append("; }");
        assert(out@ =~= old(out)@ + impl_text(self@));
    }

    /// The implementation as source text.
    pub fn render(&self) -> (r: String)
        ensures
            r@ == impl_text(self@),
    {
        let mut out = String::new();
        self.push_text(&mut out);
        assert(out@ =~= impl_text(self@));
        out
    }
}

/// The text of a whole expansion: `declaration` as it stands, then the
/// implementations, each on a line of its own.
pub fn render_fragment(declaration: &str, blocks: &Vec<ImplBlock>) -> (r: String)
    ensures
        r@ == fragment_text(declaration@, blocks@.map_values(|b: ImplBlock| b@)),
{
    let ghost views = blocks@.map_values(|b: ImplBlock| b@);
    let mut out = String::new();
    out.append(declaration);
    assert(out@ =~= declaration@);
    let mut i: usize = 0;
    assert(views.subrange(0, 0) =~= Seq::empty());
    while i < blocks.len()
        invariant
            0 <= i <= blocks@.len(),
            views == blocks@.map_values(|b: ImplBlock| b@),
            out@ == fragment_text(declaration@, views.subrange(0, i as int)),
        decreases blocks@.len() - i,
    {
        let ghost before = views.subrange(0, i as int);
        let ghost after = views.subrange(0, i + 1);
        proof {
            assert(after.drop_last() =~= before);
            assert(after.last() == blocks@[i as int]@);
        }
        out.append("\n");
        blocks[i].push_text(&mut out);
        i = i + 1;
    }
    assert(views.subrange(0, i as int) =~= views);
    out
}

} // verus!
