use typestack::decl::{Member, TraitDecl};
use typestack::error::GenerateError;
use typestack::generate::{generate, ImplBlock};
use typestack::stack::{fresh_placeholders, Placeholder, TypeStack};

fn t(index: usize) -> Placeholder {
    Placeholder { index }
}

fn pair(head: usize, rest: TypeStack) -> TypeStack {
    TypeStack::Pair(t(head), Box::new(rest))
}

fn associated(name: &str) -> Member {
    Member::AssociatedType { name: name.to_string() }
}

fn foo() -> TraitDecl {
    TraitDecl { name: "Foo".to_string(), members: vec![associated("Out")] }
}

#[test]
fn foo_with_bound_two_gives_three_blocks() {
    let fragment = generate(foo(), 2).unwrap();
    assert_eq!(fragment.declaration, foo());
    assert_eq!(fragment.implementations.len(), 3);

    let unit = &fragment.implementations[0];
    assert_eq!(unit.trait_name, "Foo");
    assert_eq!(unit.binding_name, "Out");
    assert_eq!(unit.generics, vec![]);
    assert_eq!(unit.target, vec![]);
    assert_eq!(unit.binding, TypeStack::Unit);

    let one = &fragment.implementations[1];
    assert_eq!(one.generics, vec![t(0)]);
    assert_eq!(one.target, vec![t(0)]);
    assert_eq!(one.binding, pair(0, TypeStack::Unit));

    let two = &fragment.implementations[2];
    assert_eq!(two.trait_name, "Foo");
    assert_eq!(two.binding_name, "Out");
    assert_eq!(two.generics, vec![t(0), t(1)]);
    assert_eq!(two.target, vec![t(0), t(1)]);
    assert_eq!(two.binding, pair(0, pair(1, TypeStack::Unit)));
}

#[test]
fn bound_zero_gives_the_empty_tuple_alone() {
    let fragment = generate(foo(), 0).unwrap();
    assert_eq!(fragment.implementations.len(), 1);
    assert_eq!(fragment.implementations[0].arity(), 0);
    assert_eq!(fragment.implementations[0].binding, TypeStack::Unit);
}

#[test]
fn every_bound_gives_one_block_more_than_the_bound() {
    for bound in 0..20usize {
        let fragment = generate(foo(), bound).unwrap();
        assert_eq!(fragment.implementations.len(), bound + 1);
        for (k, block) in fragment.implementations.iter().enumerate() {
            assert_eq!(block.arity(), k);
        }
    }
}

#[test]
fn generics_and_tuple_hold_the_same_placeholders_in_index_order() {
    let fragment = generate(foo(), 12).unwrap();
    for (k, block) in fragment.implementations.iter().enumerate() {
        assert_eq!(block.generics.len(), k);
        assert_eq!(block.generics, block.target);
        for (i, p) in block.generics.iter().enumerate() {
            assert_eq!(p.index, i);
        }
    }
}

#[test]
fn the_first_element_is_the_outermost_head() {
    let block = ImplBlock::for_arity(&"Foo".to_string(), &"Out".to_string(), 4);
    assert_eq!(
        block.binding,
        pair(0, pair(1, pair(2, pair(3, TypeStack::Unit))))
    );
    assert_eq!(block.binding.unfold(), vec![t(0), t(1), t(2), t(3)]);
}

#[test]
fn unfolding_an_encoding_gives_the_elements_back() {
    for arity in 0..16usize {
        let elements = fresh_placeholders(arity);
        assert_eq!(TypeStack::encode(&elements).unfold(), elements);
    }
    let mixed = vec![t(7), t(3), t(3), t(0)];
    assert_eq!(
        TypeStack::encode(&mixed),
        pair(7, pair(3, pair(3, pair(0, TypeStack::Unit))))
    );
    assert_eq!(TypeStack::encode(&mixed).unfold(), mixed);
}

#[test]
fn a_larger_bound_extends_the_smaller_output() {
    let small = generate(foo(), 3).unwrap();
    let large = generate(foo(), 7).unwrap();
    assert_eq!(large.implementations.len(), 8);
    assert_eq!(&large.implementations[..4], &small.implementations[..]);
}

#[test]
fn generation_is_deterministic() {
    assert_eq!(generate(foo(), 5), generate(foo(), 5));
}

#[test]
fn a_trait_without_associated_type_is_refused() {
    let empty = TraitDecl { name: "Foo".to_string(), members: vec![] };
    assert_eq!(generate(empty, 2), Err(GenerateError::MissingAssociatedType));
    let methods = TraitDecl { name: "Foo".to_string(), members: vec![Member::Other, Member::Other] };
    assert_eq!(generate(methods, 0), Err(GenerateError::MissingAssociatedType));
}

#[test]
fn a_trait_with_two_associated_types_is_refused() {
    let decl = TraitDecl {
        name: "Foo".to_string(),
        members: vec![associated("A"), Member::Other, associated("B")],
    };
    assert_eq!(decl.associated_type(), Err(GenerateError::AmbiguousAssociatedType));
    assert_eq!(generate(decl, 2), Err(GenerateError::AmbiguousAssociatedType));
}

#[test]
fn the_associated_type_is_found_among_other_members() {
    let decl = TraitDecl {
        name: "Shape".to_string(),
        members: vec![Member::Other, associated("Area"), Member::Other],
    };
    assert_eq!(decl.associated_type(), Ok(&"Area".to_string()));
    let fragment = generate(decl, 1).unwrap();
    assert_eq!(fragment.implementations[1].trait_name, "Shape");
    assert_eq!(fragment.implementations[1].binding_name, "Area");
}
