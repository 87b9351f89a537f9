use typestack::decimal::{bound_from_digits, digit_of, push_decimal};
use typestack::decl::{Member, TraitDecl};
use typestack::error::GenerateError;
use typestack::generate::{generate, ImplBlock};
use typestack::render::{push_list, push_placeholder, push_stack, render_fragment};
use typestack::stack::{fresh_placeholders, Placeholder, TypeStack};
use typestack::syntax::{read_literal, read_trait};
use typestack::tuple_to_typestack;

fn decimal(n: usize) -> String {
    let mut out = String::new();
    push_decimal(&mut out, n);
    out
}

/// Reads both texts and expands what was read, the bound first.
fn expand_text(attr: &str, item: &str) -> Result<String, GenerateError> {
    let digits = read_literal(attr)?;
    bound_from_digits(&digits)?;
    let declaration = read_trait(item)?;
    tuple_to_typestack(&digits, declaration, item)
}

fn foo() -> TraitDecl {
    TraitDecl {
        name: "Foo".to_string(),
        members: vec![Member::AssociatedType { name: "Out".to_string() }],
    }
}

fn block(arity: usize) -> String {
    ImplBlock::for_arity(&"SomeTrait".to_string(), &"Assoc".to_string(), arity).render()
}

#[test]
fn decimal_notation_of_given_numbers() {
    assert_eq!(decimal(0), "0");
    assert_eq!(decimal(7), "7");
    assert_eq!(decimal(10), "10");
    assert_eq!(decimal(109), "109");
    assert_eq!(decimal(12345), "12345");
    assert_eq!(decimal(usize::MAX), usize::MAX.to_string());
}

#[test]
fn decimal_notation_is_appended() {
    let mut out = "T".to_string();
    push_decimal(&mut out, 42);
    assert_eq!(out, "T42");
}

#[test]
fn digits_are_read_back() {
    assert_eq!(digit_of('0'), Some(0));
    assert_eq!(digit_of('9'), Some(9));
    assert_eq!(digit_of('a'), None);
    assert_eq!(digit_of('-'), None);
    assert_eq!(bound_from_digits("0"), Ok(0));
    assert_eq!(bound_from_digits("2"), Ok(2));
    assert_eq!(bound_from_digits("007"), Ok(7));
    assert_eq!(bound_from_digits("12345"), Ok(12345));
    for n in [0usize, 1, 9, 10, 99, 100, 65535, 4_000_000] {
        assert_eq!(bound_from_digits(&decimal(n)), Ok(n));
    }
}

#[test]
fn the_largest_bound_is_read_and_the_next_number_is_not() {
    let max = usize::MAX.to_string();
    assert_eq!(bound_from_digits(&max), Ok(usize::MAX));
    let beyond = (usize::MAX as u128 + 1).to_string();
    assert_eq!(bound_from_digits(&beyond), Err(GenerateError::InvalidBound));
    assert_eq!(
        bound_from_digits("340282366920938463463374607431768211456"),
        Err(GenerateError::InvalidBound)
    );
}

#[test]
fn digits_that_are_no_number_are_refused() {
    for text in ["", "-1", "-0", "+1", "1.5", "abc", "1a", " 1", "1 ", "٣"] {
        assert_eq!(bound_from_digits(text), Err(GenerateError::InvalidBound), "{:?}", text);
    }
}

#[test]
fn a_literal_is_read_as_the_language_writes_integers() {
    for (text, digits, bound) in [
        ("2", "2", 2usize),
        ("0", "0", 0),
        (" 12 ", "12", 12),
        ("0x10", "16", 16),
        ("0b101", "5", 5),
        ("0o17", "15", 15),
        ("1_000", "1000", 1000),
        ("3usize", "3", 3),
        ("007", "7", 7),
    ] {
        assert_eq!(read_literal(text), Ok(digits.to_string()), "{:?}", text);
        assert_eq!(bound_from_digits(&read_literal(text).unwrap()), Ok(bound));
    }
}

#[test]
fn a_negated_literal_keeps_its_sign_and_gives_no_bound() {
    assert_eq!(read_literal("-1"), Ok("-1".to_string()));
    assert_eq!(read_literal("-0"), Ok("-0".to_string()));
    assert_eq!(read_literal("-0x10"), Ok("-16".to_string()));
    assert_eq!(bound_from_digits("-1"), Err(GenerateError::InvalidBound));
    assert_eq!(expand_text("-1", "trait Foo { type Out; }"), Err(GenerateError::InvalidBound));
}

#[test]
fn what_is_no_integer_literal_is_refused() {
    for text in ["", "abc", "1.5", "2.0", "\"2\"", "true", "1 2", "1,", "(1)", "1e3", "'1'", "- 1 2"] {
        assert_eq!(read_literal(text), Err(GenerateError::InvalidBound), "{:?}", text);
    }
    let huge = read_literal("340282366920938463463374607431768211456").unwrap();
    assert_eq!(huge, "340282366920938463463374607431768211456");
    assert_eq!(bound_from_digits(&huge), Err(GenerateError::InvalidBound));
}

#[test]
fn a_trait_is_read_member_by_member() {
    let decl = read_trait(
        "pub trait Shape: Sized { const SIDES: usize; type Area: Copy; fn area(&self) -> Self::Area; }",
    )
    .unwrap();
    assert_eq!(
        decl,
        TraitDecl {
            name: "Shape".to_string(),
            members: vec![
                Member::Other,
                Member::AssociatedType { name: "Area".to_string() },
                Member::Other,
            ],
        }
    );
    let bare = read_trait("trait Marker {}").unwrap();
    assert_eq!(bare, TraitDecl { name: "Marker".to_string(), members: vec![] });
}

#[test]
fn text_that_is_no_trait_is_refused() {
    for text in ["", "struct Foo;", "trait", "trait Foo { type Out; } struct Bar;", "fn f() {}", "trait Foo { type Out; "] {
        assert_eq!(read_trait(text), Err(GenerateError::MalformedTrait), "{:?}", text);
    }
}

#[test]
fn placeholders_are_named_by_their_index() {
    let mut out = String::new();
    push_placeholder(&mut out, Placeholder { index: 0 });
    out.push(' ');
    push_placeholder(&mut out, Placeholder { index: 10 });
    assert_eq!(out, "T0 T10");
}

#[test]
fn placeholder_names_are_pairwise_distinct() {
    let mut names: Vec<String> = Vec::new();
    for p in fresh_placeholders(200) {
        let mut name = String::new();
        push_placeholder(&mut name, p);
        assert!(!names.contains(&name));
        names.push(name);
    }
    assert_eq!(names[0], "T0");
    assert_eq!(names[199], "T199");
}

#[test]
fn lists_are_separated_by_comma_and_space() {
    let mut out = String::new();
    push_list(&mut out, &fresh_placeholders(0));
    assert_eq!(out, "");
    push_list(&mut out, &fresh_placeholders(1));
    assert_eq!(out, "T0");
    let mut out = "<".to_string();
    push_list(&mut out, &fresh_placeholders(3));
    assert_eq!(out, "<T0, T1, T2");
}

#[test]
fn stacks_are_written_as_nested_pairs() {
    let mut out = String::new();
    push_stack(&mut out, &TypeStack::Unit);
    assert_eq!(out, "()");
    let mut out = String::new();
    push_stack(&mut out, &TypeStack::encode(&fresh_placeholders(3)));
    assert_eq!(out, "(T0, (T1, (T2, ())))");
}

#[test]
fn implementations_as_text() {
    assert_eq!(block(0), "impl SomeTrait for () { type Assoc = (); }");
    assert_eq!(block(1), "impl<T0> SomeTrait for (T0,) { type Assoc = (T0, ()); }");
    assert_eq!(
        block(2),
        "impl<T0, T1> SomeTrait for (T0, T1) { type Assoc = (T0, (T1, ())); }"
    );
    assert_eq!(
        block(3),
        "impl<T0, T1, T2> SomeTrait for (T0, T1, T2) { type Assoc = (T0, (T1, (T2, ()))); }"
    );
}

#[test]
fn a_fragment_is_the_declaration_and_one_line_per_block() {
    let decl = TraitDecl {
        name: "Foo".to_string(),
        members: vec![Member::AssociatedType { name: "Out".to_string() }],
    };
    let fragment = generate(decl, 1).unwrap();
    assert_eq!(
        render_fragment("trait Foo { type Out; }", &fragment.implementations),
        "trait Foo { type Out; }\nimpl Foo for () { type Out = (); }\nimpl<T0> Foo for (T0,) { type Out = (T0, ()); }"
    );
    assert_eq!(render_fragment("anything", &Vec::new()), "anything");
}

#[test]
fn foo_with_bound_two_expands_to_three_blocks() {
    let text = expand_text("2", "trait Foo { type Out; }").unwrap();
    assert_eq!(
        text,
        "trait Foo { type Out; }\n\
         impl Foo for () { type Out = (); }\n\
         impl<T0> Foo for (T0,) { type Out = (T0, ()); }\n\
         impl<T0, T1> Foo for (T0, T1) { type Out = (T0, (T1, ())); }"
    );
}

#[test]
fn the_declaration_is_kept_as_it_stands() {
    let item = "/// Shapes.\npub   trait Shape {\n    type Area ;\n    fn area(&self) -> Self::Area;\n}";
    let text = expand_text("0", item).unwrap();
    assert!(text.starts_with(item));
    assert_eq!(&text[item.len()..], "\nimpl Shape for () { type Area = (); }");
}

#[test]
fn expansion_refuses_a_bad_bound_first() {
    for digits in ["-1", "two", "", "1.5", "99999999999999999999999999999999999999999"] {
        assert_eq!(
            tuple_to_typestack(digits, foo(), "X"),
            Err(GenerateError::InvalidBound),
            "{:?}",
            digits
        );
        let none = TraitDecl { name: "Foo".to_string(), members: vec![] };
        assert_eq!(tuple_to_typestack(digits, none, "X"), Err(GenerateError::InvalidBound));
    }
    assert_eq!(expand_text("x", "struct Foo;"), Err(GenerateError::InvalidBound));
    assert_eq!(expand_text("x", "trait Foo {}"), Err(GenerateError::InvalidBound));
}

#[test]
fn expansion_of_what_is_no_trait_is_refused() {
    assert_eq!(expand_text("2", "struct Foo;"), Err(GenerateError::MalformedTrait));
}

#[test]
fn expansion_refuses_a_trait_without_associated_type() {
    let decl = TraitDecl { name: "Foo".to_string(), members: vec![Member::Other] };
    assert_eq!(
        tuple_to_typestack("2", decl, "X"),
        Err(GenerateError::MissingAssociatedType)
    );
    assert_eq!(
        expand_text("2", "trait Foo { fn f(&self); }"),
        Err(GenerateError::MissingAssociatedType)
    );
}

#[test]
fn expansion_refuses_a_trait_with_two_associated_types() {
    let decl = TraitDecl {
        name: "Foo".to_string(),
        members: vec![
            Member::AssociatedType { name: "A".to_string() },
            Member::AssociatedType { name: "B".to_string() },
        ],
    };
    assert_eq!(
        tuple_to_typestack("2", decl, "X"),
        Err(GenerateError::AmbiguousAssociatedType)
    );
    assert_eq!(
        expand_text("2", "trait Foo { type A; type B; }"),
        Err(GenerateError::AmbiguousAssociatedType)
    );
}

#[test]
fn expansion_takes_what_was_read() {
    assert_eq!(
        tuple_to_typestack("0", foo(), "X"),
        Ok("X\nimpl Foo for () { type Out = (); }".to_string())
    );
    assert_eq!(
        tuple_to_typestack("1", foo(), ""),
        Ok("\nimpl Foo for () { type Out = (); }\nimpl<T0> Foo for (T0,) { type Out = (T0, ()); }"
            .to_string())
    );
    assert_eq!(
        tuple_to_typestack("007", foo(), "X").unwrap().lines().count(),
        9
    );
}

#[test]
fn a_trait_of_fifty_methods_is_expanded() {
    let mut members = vec![Member::Other; 25];
    members.push(Member::AssociatedType { name: "Out".to_string() });
    members.extend(vec![Member::Other; 25]);
    let decl = TraitDecl { name: "Wide".to_string(), members };
    for bound in [0usize, 1, 5, 12] {
        let text = tuple_to_typestack(&bound.to_string(), decl.clone(), "X").unwrap();
        assert_eq!(text.lines().count(), bound + 2);
        assert_eq!(
            text.lines().nth(1),
            Some("impl Wide for () { type Out = (); }")
        );
    }
}

#[test]
fn a_trait_of_fifty_methods_is_expanded_from_its_syntax() {
    let mut item = "pub trait Wide {\n    type Out;\n".to_string();
    for k in 0..50 {
        item.push_str(&format!("    /// Method {}.\n    fn f{}(&self) -> Self::Out;\n", k, k));
    }
    item.push('}');
    let syntax = syn::parse_str::<syn::ItemTrait>(&item).unwrap();
    let decl = TraitDecl {
        name: syntax.ident.to_string(),
        members: syntax
            .items
            .iter()
            .map(|member| match member {
                syn::TraitItem::Type(ty) => Member::AssociatedType { name: ty.ident.to_string() },
                _ => Member::Other,
            })
            .collect(),
    };
    assert_eq!(decl.members.len(), 51);
    for bound in 0..8usize {
        let text = tuple_to_typestack(&bound.to_string(), decl.clone(), &item).unwrap();
        assert!(text.starts_with(&item));
        let blocks: Vec<&str> = text[item.len()..].lines().skip(1).collect();
        assert_eq!(blocks.len(), bound + 1);
        assert_eq!(blocks[0], "impl Wide for () { type Out = (); }");
        let file = syn::parse_str::<syn::File>(&text).unwrap();
        assert_eq!(file.items.len(), bound + 2);
    }
}

#[test]
fn a_larger_bound_extends_the_smaller_text() {
    let item = "trait Foo { type Out; }";
    let small = expand_text("3", item).unwrap();
    let large = expand_text("6", item).unwrap();
    assert!(large.starts_with(&small));
    assert_eq!(small.lines().count(), 5);
    assert_eq!(large.lines().count(), 8);
}

#[test]
fn the_expansion_is_source_text_that_parses() {
    let text = expand_text("12", "pub trait Foo { type Out; }").unwrap();
    let file = syn::parse_str::<syn::File>(&text).unwrap();
    assert_eq!(file.items.len(), 14);
    assert!(matches!(file.items[0], syn::Item::Trait(_)));
    for (k, item) in file.items[1..].iter().enumerate() {
        match item {
            syn::Item::Impl(block) => {
                assert_eq!(block.generics.params.len(), k);
                match &*block.self_ty {
                    syn::Type::Tuple(tuple) => assert_eq!(tuple.elems.len(), k),
                    _ => panic!("block {} is not for a tuple type", k),
                }
                assert_eq!(block.items.len(), 1);
            }
            _ => panic!("item {} is not an implementation", k + 1),
        }
    }
}
