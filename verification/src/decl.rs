//! Trait declarations as the generator reads them: a name and an ordered list
//! of members, of which one declares the associated type.

use crate::error::GenerateError;
use vstd::prelude::*;

verus! {

/// One member of a trait declaration.
#[derive(Debug, PartialEq, Eq)]
pub enum Member {
    /// The declaration of an associated type, by its name. Bounds and a
    /// default play no part.
    AssociatedType {
        /// The name of the associated type.
        name: String,
    },
    /// Any other member: a method, a constant, a macro invocation.
    Other,
}

/// A trait declaration.
#[derive(Debug, PartialEq, Eq)]
pub struct TraitDecl {
    /// The trait's name.
    pub name: String,
    /// The members, in source order.
    pub members: Vec<Member>,
}

impl Clone for Member {
    fn clone(&self) -> (r: Member)
        ensures
            r@ == self@,
    {
        match self {
            Member::AssociatedType { name } => Member::AssociatedType { name: name.clone() },
            Member::Other => Member::Other,
        }
    }
}

impl Clone for TraitDecl {
    fn clone(&self) -> (r: TraitDecl)
        ensures
            r@ == self@,
    {
        let mut members: Vec<Member> = Vec::new();
        let mut i: usize = 0;
        while i < self.members.len()
            invariant
                0 <= i <= self.members@.len(),
                members@.len() == i,
                forall|j: int| 0 <= j < i ==> (#[trigger] members@[j])@ == self.members@[j]@,
            decreases self.members@.len() - i,
        {
            members.push(self.members[i].clone());
            i = i + 1;
        }
        let r = TraitDecl { name: self.name.clone(), members };
        assert(r@.members =~= self@.members);
        r
    }
}

/// A trait declaration as a mathematical value. A member is the name of the
/// associated type that it declares, or `None` where it declares none.
pub struct TraitView {
    /// The trait's name.
    pub name: Seq<char>,
    /// The members, in source order.
    pub members: Seq<Option<Seq<char>>>,
}

impl View for Member {
    type V = Option<Seq<char>>;

    open spec fn view(&self) -> Option<Seq<char>> {
        match self {
            Member::AssociatedType { name } => Some(name@),
            Member::Other => None,
        }
    }
}

impl View for TraitDecl {
    type V = TraitView;

    open spec fn view(&self) -> TraitView {
        TraitView { name: self.name@, members: self.members@.map_values(|m: Member| m@) }
    }
}

impl TraitView {
    /// Whether the member at `i` declares an associated type.
    pub open spec fn declares_type_at(self, i: int) -> bool {
        0 <= i < self.members.len() && self.members[i] is Some
    }

    /// Whether no member declares an associated type.
    pub open spec fn has_no_associated_type(self) -> bool {
        forall|i: int| !self.declares_type_at(i)
    }

    /// Whether the member at `i` declares the trait's only associated type.
    pub open spec fn sole_associated_type_at(self, i: int) -> bool {
        &&& self.declares_type_at(i)
        &&& forall|j: int| self.declares_type_at(j) ==> j == i
    }

    /// Whether two different members each declare an associated type.
    pub open spec fn has_several_associated_types(self) -> bool {
        exists|i: int, j: int| i != j && self.declares_type_at(i) && self.declares_type_at(j)
    }

    /// The position of the member that declares the associated type, where
    /// exactly one does.
    pub open spec fn associated_index(self) -> int {
        choose|i: int| self.declares_type_at(i)
    }

    /// What looking for the associated type yields: its name where exactly
    /// one member declares one, and a refusal otherwise.
    pub open spec fn associated_type(self) -> Result<Seq<char>, GenerateError> {
        if self.has_no_associated_type() {
            Err(GenerateError::MissingAssociatedType)
        } else if self.has_several_associated_types() {
            Err(GenerateError::AmbiguousAssociatedType)
        } else {
            Ok(self.members[self.associated_index()]->0)
        }
    }
}

/// A trait has no associated type, exactly one, or several, and never two of
/// these at once. Where it has exactly one, `associated_index` is its place.
pub proof fn lemma_associated_type_cases(decl: TraitView)
    ensures
        decl.has_no_associated_type() ==> !decl.has_several_associated_types(),
        !decl.has_no_associated_type() && !decl.has_several_associated_types()
            <==> decl.sole_associated_type_at(decl.associated_index()),
        forall|i: int| #[trigger]
            decl.sole_associated_type_at(i) ==> i == decl.associated_index()
                && !decl.has_no_associated_type() && !decl.has_several_associated_types(),
{
    if !decl.has_no_associated_type() {
        assert(decl.declares_type_at(decl.associated_index()));
    }
    assert forall|i: int| #[trigger] decl.sole_associated_type_at(i) implies i
        == decl.associated_index() && !decl.has_no_associated_type()
        && !decl.has_several_associated_types() by {
        assert(decl.declares_type_at(i));
        assert(decl.declares_type_at(decl.associated_index()));
    }
}

impl TraitDecl {
    /// Finds the name of the associated type. A trait without one is refused,
    /// and so is a trait with more than one: picking the first of several
    /// would hide a mistake in the declaration.
    pub fn associated_type(&self) -> (r: Result<&String, GenerateError>)
        ensures
            match self@.associated_type() {
                Ok(name) => r matches Ok(found) && found@ == name,
                Err(e) => r == Err::<&String, GenerateError>(e),
            },
    {
        let ghost decl = self@;
        let ghost mut at: int = 0;
        let mut found: Option<&String> = None;
        let mut i: usize = 0;
        while i < self.members.len()
            invariant
                0 <= i <= self.members@.len(),
                decl == self@,
                match found {
                    Some(name) => 0 <= at < i && decl.members[at] == Some(name@) && forall|j: int|
                        0 <= j < i && decl.declares_type_at(j) ==> j == at,
                    None => forall|j: int| 0 <= j < i ==> !decl.declares_type_at(j),
                },
            decreases self.members@.len() - i,
        {
            match &self.members[i] {
                Member::AssociatedType { name } => {
                    assert(decl.declares_type_at(i as int));
                    if found.is_some() {
                        proof {
                            assert(decl.declares_type_at(at));
                            assert(decl.has_several_associated_types());
                            assert(!decl.has_no_associated_type());
                        }
                        return Err(GenerateError::AmbiguousAssociatedType);
                    }
                    found = Some(name);
                    proof {
                        at = i as int;
                    }
                },
                Member::Other => {
                    assert(!decl.declares_type_at(i as int));
                },
            }
            i = i + 1;
        }
        match found {
            Some(name) => {
                proof {
                    assert(decl.sole_associated_type_at(at));
                    lemma_associated_type_cases(decl);
                }
                Ok(name)
            },
            None => Err(GenerateError::MissingAssociatedType),
        }
    }
}

} // verus!
