use functor_derive_lib::registry::{lookup, ContainerKind};
use functor_derive_lib::shape::{classify, TypeShape};
use functor_derive_lib::ty::TypeExpr;

fn name(text: &str) -> TypeExpr {
    TypeExpr::named(text)
}

fn generic(text: &str, args: Vec<TypeExpr>) -> TypeExpr {
    TypeExpr::Path { leading: vec![], name: text.to_string(), args }
}

fn verbatim(text: &str, idents: &[&str]) -> TypeExpr {
    TypeExpr::Verbatim { text: text.to_string(), idents: idents.iter().map(|i| i.to_string()).collect() }
}

fn shape_of(ty: &TypeExpr) -> TypeShape {
    classify(ty, &"A".to_string())
}

fn known(kind: ContainerKind, inner: TypeShape) -> TypeShape {
    TypeShape::Known(kind, Box::new(inner))
}

#[test]
fn the_parameter_itself_is_direct() {
    assert_eq!(shape_of(&name("A")), TypeShape::Direct);
}

#[test]
fn another_name_is_opaque() {
    assert_eq!(shape_of(&name("u32")), TypeShape::Opaque);
    assert_eq!(shape_of(&name("B")), TypeShape::Opaque);
    assert_eq!(shape_of(&name("AA")), TypeShape::Opaque);
}

#[test]
fn the_parameter_is_matched_by_the_name_given() {
    assert_eq!(classify(&name("T"), &"T".to_string()), TypeShape::Direct);
    assert_eq!(classify(&name("A"), &"T".to_string()), TypeShape::Opaque);
}

#[test]
fn a_path_that_only_ends_in_the_parameter_is_not_direct() {
    let ty = TypeExpr::Path { leading: vec!["outer".to_string()], name: "A".to_string(), args: vec![] };
    assert_eq!(shape_of(&ty), TypeShape::Opaque);
    assert!(ty.mentions(&"A".to_string()));
}

#[test]
fn the_parameter_with_arguments_is_not_direct() {
    assert_eq!(shape_of(&generic("A", vec![name("u8")])), TypeShape::Opaque);
}

#[test]
fn parentheses_are_transparent() {
    let once = TypeExpr::Paren(Box::new(name("A")));
    assert_eq!(shape_of(&once), TypeShape::Direct);
    let twice = TypeExpr::Paren(Box::new(TypeExpr::Paren(Box::new(generic("Vec", vec![name("A")])))));
    assert_eq!(shape_of(&twice), known(ContainerKind::Vector, TypeShape::Direct));
    assert_eq!(shape_of(&TypeExpr::Paren(Box::new(name("u8")))), TypeShape::Opaque);
}

#[test]
fn a_tuple_keeps_its_arity() {
    let ty = TypeExpr::Tuple(vec![name("A"), name("u8"), generic("Option", vec![name("A")])]);
    assert_eq!(
        shape_of(&ty),
        TypeShape::Tuple(vec![
            TypeShape::Direct,
            TypeShape::Opaque,
            known(ContainerKind::Optional, TypeShape::Direct)
        ])
    );
}

#[test]
fn a_tuple_without_the_parameter_is_still_a_tuple() {
    assert_eq!(shape_of(&TypeExpr::Tuple(vec![])), TypeShape::Tuple(vec![]));
    let ty = TypeExpr::Tuple(vec![name("u8"), name("bool")]);
    let shape = shape_of(&ty);
    assert_eq!(shape, TypeShape::Tuple(vec![TypeShape::Opaque, TypeShape::Opaque]));
    assert!(!shape.touches());
}

#[test]
fn an_array_carries_its_length() {
    let ty = TypeExpr::Array { elem: Box::new(name("A")), len: "3".to_string() };
    assert_eq!(shape_of(&ty), TypeShape::Array(Box::new(TypeShape::Direct), "3".to_string()));
    let sized = TypeExpr::Array { elem: Box::new(name("u8")), len: "N + 1".to_string() };
    assert_eq!(shape_of(&sized), TypeShape::Array(Box::new(TypeShape::Opaque), "N + 1".to_string()));
}

#[test]
fn the_table_knows_its_containers() {
    let rows = [
        ("Option", 1, ContainerKind::Optional, 0),
        ("Box", 1, ContainerKind::Boxed, 0),
        ("Vec", 1, ContainerKind::Vector, 0),
        ("VecDeque", 1, ContainerKind::Deque, 0),
        ("LinkedList", 1, ContainerKind::List, 0),
        ("HashMap", 2, ContainerKind::HashMap, 1),
        ("BTreeMap", 2, ContainerKind::TreeMap, 1),
    ];
    for (text, arity, kind, mapped) in rows {
        assert_eq!(lookup(&text.to_string(), arity), Some((kind, mapped)));
        assert_eq!(lookup(&text.to_string(), arity + 1), None);
        assert_eq!(lookup(&text.to_string(), 0), None);
    }
    assert_eq!(lookup(&"Rc".to_string(), 1), None);
    assert_eq!(lookup(&"option".to_string(), 1), None);
    assert_eq!(lookup(&"PhantomData".to_string(), 1), None);
}

#[test]
fn single_argument_containers_are_known() {
    let cases = [
        ("Option", ContainerKind::Optional),
        ("Box", ContainerKind::Boxed),
        ("Vec", ContainerKind::Vector),
        ("VecDeque", ContainerKind::Deque),
        ("LinkedList", ContainerKind::List),
    ];
    for (text, kind) in cases {
        assert_eq!(shape_of(&generic(text, vec![name("A")])), known(kind, TypeShape::Direct));
        assert_eq!(shape_of(&generic(text, vec![name("u8")])), known(kind, TypeShape::Opaque));
    }
}

#[test]
fn a_container_is_matched_by_its_last_segment() {
    let ty = TypeExpr::Path {
        leading: vec!["std".to_string(), "vec".to_string()],
        name: "Vec".to_string(),
        args: vec![name("A")],
    };
    assert_eq!(shape_of(&ty), known(ContainerKind::Vector, TypeShape::Direct));
}

#[test]
fn a_container_with_another_arity_is_not_known() {
    assert_eq!(shape_of(&generic("Vec", vec![name("A"), name("Global")])), TypeShape::Opaque);
    assert_eq!(shape_of(&generic("HashMap", vec![name("A")])), TypeShape::Opaque);
    assert_eq!(shape_of(&generic("Option", vec![])), TypeShape::Opaque);
}

#[test]
fn a_keyed_container_maps_its_values_only() {
    assert_eq!(
        shape_of(&generic("HashMap", vec![name("u8"), name("A")])),
        known(ContainerKind::HashMap, TypeShape::Direct)
    );
    assert_eq!(
        shape_of(&generic("BTreeMap", vec![name("String"), generic("Vec", vec![name("A")])])),
        known(ContainerKind::TreeMap, known(ContainerKind::Vector, TypeShape::Direct))
    );
}

#[test]
fn a_key_that_mentions_the_parameter_makes_the_container_opaque() {
    assert_eq!(shape_of(&generic("HashMap", vec![name("A"), name("u8")])), TypeShape::Opaque);
    assert_eq!(shape_of(&generic("HashMap", vec![name("A"), name("A")])), TypeShape::Opaque);
    assert_eq!(
        shape_of(&generic("BTreeMap", vec![generic("Vec", vec![name("A")]), name("A")])),
        TypeShape::Opaque
    );
}

#[test]
fn the_marker_over_the_parameter_is_a_marker() {
    assert_eq!(shape_of(&generic("PhantomData", vec![name("A")])), TypeShape::Marker);
    assert_eq!(
        shape_of(&generic("PhantomData", vec![TypeExpr::Paren(Box::new(name("A")))])),
        TypeShape::Marker
    );
}

#[test]
fn the_marker_over_anything_else_is_opaque() {
    assert_eq!(shape_of(&generic("PhantomData", vec![name("u8")])), TypeShape::Opaque);
    assert_eq!(shape_of(&generic("PhantomData", vec![generic("Vec", vec![name("A")])])), TypeShape::Opaque);
    assert_eq!(shape_of(&generic("PhantomData", vec![name("A"), name("A")])), TypeShape::Opaque);
}

#[test]
fn an_unrecognised_occurrence_is_opaque() {
    let reference = verbatim("&'a A", &["a", "A"]);
    assert!(reference.mentions(&"A".to_string()));
    assert_eq!(shape_of(&reference), TypeShape::Opaque);
    let custom = generic("MyList", vec![name("A")]);
    assert!(custom.mentions(&"A".to_string()));
    assert_eq!(shape_of(&custom), TypeShape::Opaque);
    assert_eq!(
        shape_of(&generic("Vec", vec![verbatim("&A", &["A"])])),
        known(ContainerKind::Vector, TypeShape::Opaque)
    );
}

#[test]
fn nested_containers_nest_in_the_shape() {
    let ty = generic(
        "Vec",
        vec![generic("Option", vec![TypeExpr::Tuple(vec![name("A"), generic("Box", vec![name("A")])])])],
    );
    assert_eq!(
        shape_of(&ty),
        known(
            ContainerKind::Vector,
            known(
                ContainerKind::Optional,
                TypeShape::Tuple(vec![TypeShape::Direct, known(ContainerKind::Boxed, TypeShape::Direct)])
            )
        )
    );
}

#[test]
fn the_same_type_always_has_the_same_shape() {
    let ty = generic("HashMap", vec![name("u8"), TypeExpr::Tuple(vec![name("A"), name("bool")])]);
    assert_eq!(shape_of(&ty), shape_of(&ty.duplicate()));
    assert_eq!(ty.duplicate(), ty);
}

#[test]
fn a_shape_touches_where_it_holds_the_parameter_or_a_marker() {
    assert!(TypeShape::Direct.touches());
    assert!(TypeShape::Marker.touches());
    assert!(!TypeShape::Opaque.touches());
    assert!(!TypeShape::Tuple(vec![]).touches());
    assert!(TypeShape::Tuple(vec![TypeShape::Opaque, TypeShape::Marker]).touches());
    assert!(!known(ContainerKind::Vector, TypeShape::Opaque).touches());
    assert!(TypeShape::Array(Box::new(TypeShape::Direct), "2".to_string()).touches());
}

#[test]
fn mentions_looks_through_the_whole_syntax() {
    let a = "A".to_string();
    assert!(name("A").mentions(&a));
    assert!(!name("u8").mentions(&a));
    assert!(generic("Vec", vec![generic("Rc", vec![name("A")])]).mentions(&a));
    assert!(!generic("Vec", vec![generic("Rc", vec![name("u8")])]).mentions(&a));
    assert!(TypeExpr::Tuple(vec![name("u8"), name("A")]).mentions(&a));
    assert!(!TypeExpr::Tuple(vec![]).mentions(&a));
    assert!(TypeExpr::Array { elem: Box::new(name("A")), len: "2".to_string() }.mentions(&a));
    assert!(!TypeExpr::Array { elem: Box::new(name("u8")), len: "A".to_string() }.mentions(&a));
    assert!(verbatim("fn(A) -> u8", &["A", "u8"]).mentions(&a));
    assert!(!verbatim("fn(u8) -> u8", &["u8"]).mentions(&a));
}

#[test]
fn types_render_as_they_are_written() {
    assert_eq!(name("A").render(), "A");
    assert_eq!(generic("Vec", vec![name("A")]).render(), "Vec<A>");
    assert_eq!(generic("HashMap", vec![name("u8"), name("A")]).render(), "HashMap<u8, A>");
    assert_eq!(
        TypeExpr::Path {
            leading: vec!["std".to_string(), "vec".to_string()],
            name: "Vec".to_string(),
            args: vec![name("A")]
        }
        .render(),
        "std::vec::Vec<A>"
    );
    assert_eq!(TypeExpr::Paren(Box::new(name("A"))).render(), "(A)");
    assert_eq!(TypeExpr::Tuple(vec![]).render(), "()");
    assert_eq!(TypeExpr::Tuple(vec![name("A")]).render(), "(A,)");
    assert_eq!(TypeExpr::Tuple(vec![name("A"), name("u8")]).render(), "(A, u8)");
    assert_eq!(TypeExpr::Array { elem: Box::new(name("A")), len: "3".to_string() }.render(), "[A; 3]");
    assert_eq!(verbatim("&'a A", &["a", "A"]).render(), "&'a A");
}
