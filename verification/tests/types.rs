use functor_derive_lib::definition::{Data, Field, Fields, Variant};
use functor_derive_lib::output::{output_data, retype, supports};
use functor_derive_lib::ty::TypeExpr;

fn name(text: &str) -> TypeExpr {
    TypeExpr::named(text)
}

fn generic(text: &str, args: Vec<TypeExpr>) -> TypeExpr {
    TypeExpr::Path { leading: vec![], name: text.to_string(), args }
}

fn verbatim(text: &str, idents: &[&str]) -> TypeExpr {
    TypeExpr::Verbatim { text: text.to_string(), idents: idents.iter().map(|i| i.to_string()).collect() }
}

fn field(text: &str, ty: TypeExpr) -> Field {
    Field { name: text.to_string(), ty }
}

fn a() -> String {
    "A".to_string()
}

#[test]
fn supported_shapes_in_any_nesting_are_supported() {
    let supported = [
        name("A"),
        name("u8"),
        TypeExpr::Paren(Box::new(name("A"))),
        TypeExpr::Tuple(vec![]),
        TypeExpr::Tuple(vec![name("A"), name("u8"), generic("Vec", vec![name("A")])]),
        TypeExpr::Array { elem: Box::new(generic("Option", vec![name("A")])), len: "4".to_string() },
        generic("HashMap", vec![name("String"), generic("BTreeMap", vec![name("u8"), name("A")])]),
        generic("PhantomData", vec![name("A")]),
        generic("PhantomData", vec![name("u8")]),
        generic("Rc", vec![name("u8")]),
        verbatim("&'a str", &["a", "str"]),
        generic("Vec", vec![generic("Vec", vec![generic("Vec", vec![name("A")])])]),
    ];
    for ty in supported {
        assert!(supports(&ty, &a()), "{}", ty.render());
    }
}

#[test]
fn an_occurrence_the_analysis_does_not_reach_is_unsupported() {
    let unsupported = [
        generic("Rc", vec![name("A")]),
        verbatim("&A", &["A"]),
        generic("HashMap", vec![name("A"), name("u8")]),
        generic("HashMap", vec![name("A"), name("A")]),
        generic("PhantomData", vec![generic("Vec", vec![name("A")])]),
        generic("Vec", vec![name("A"), name("A")]),
        generic("A", vec![name("u8")]),
        TypeExpr::Path { leading: vec!["A".to_string()], name: "Item".to_string(), args: vec![] },
        TypeExpr::Path { leading: vec!["A".to_string()], name: "Vec".to_string(), args: vec![name("A")] },
        TypeExpr::Tuple(vec![name("A"), generic("Rc", vec![name("A")])]),
        generic("Vec", vec![verbatim("fn(A)", &["A"])]),
    ];
    for ty in unsupported {
        assert!(!supports(&ty, &a()), "{}", ty.render());
    }
}

#[test]
fn support_is_judged_against_the_parameter_given() {
    let ty = generic("Rc", vec![name("A")]);
    assert!(!supports(&ty, &a()));
    assert!(supports(&ty, &"B".to_string()));
}

#[test]
fn a_supported_type_is_rebuilt_with_the_parameter_replaced_everywhere() {
    let new = name("u64");
    let cases = [
        ("A", name("A"), "u64"),
        ("(A)", TypeExpr::Paren(Box::new(name("A"))), "(u64)"),
        ("(A, A)", TypeExpr::Tuple(vec![name("A"), name("A")]), "(u64, u64)"),
        ("(A,)", TypeExpr::Tuple(vec![name("A")]), "(u64,)"),
        (
            "::std::vec::Vec<A>",
            TypeExpr::Path {
                leading: vec![String::new(), "std".to_string(), "vec".to_string()],
                name: "Vec".to_string(),
                args: vec![name("A")],
            },
            "::std::vec::Vec<u64>",
        ),
        (
            "BTreeMap<&'static str, [A; N]>",
            generic(
                "BTreeMap",
                vec![
                    verbatim("&'static str", &["static", "str"]),
                    TypeExpr::Array { elem: Box::new(name("A")), len: "N".to_string() },
                ],
            ),
            "BTreeMap<&'static str, [u64; N]>",
        ),
    ];
    for (written, ty, expected) in cases {
        assert_eq!(ty.render(), written);
        assert!(supports(&ty, &a()));
        assert_eq!(retype(&ty, &a(), &new).render(), expected);
    }
}

#[test]
fn the_output_of_a_struct_keeps_names_order_and_style() {
    let data = Data::Struct(Fields::Named(vec![
        field("first", generic("Vec", vec![name("A")])),
        field("second", name("bool")),
        field("third", name("A")),
    ]));
    assert_eq!(
        output_data(&data, &a(), &name("String")),
        Data::Struct(Fields::Named(vec![
            field("first", generic("Vec", vec![name("String")])),
            field("second", name("bool")),
            field("third", name("String")),
        ]))
    );
    let positional = Data::Struct(Fields::Positional(vec![name("A"), name("u8")]));
    assert_eq!(
        output_data(&positional, &a(), &name("String")),
        Data::Struct(Fields::Positional(vec![name("String"), name("u8")]))
    );
    assert_eq!(output_data(&Data::Struct(Fields::Unit), &a(), &name("String")), Data::Struct(Fields::Unit));
}

#[test]
fn the_output_of_an_enum_keeps_every_variant() {
    let declared = |a: &str| {
        Data::Enum(vec![
            Variant { name: "One".to_string(), fields: Fields::Positional(vec![name(a)]) },
            Variant { name: "Two".to_string(), fields: Fields::Named(vec![field("flag", name("bool"))]) },
            Variant { name: "Three".to_string(), fields: Fields::Unit },
            Variant {
                name: "Four".to_string(),
                fields: Fields::Named(vec![field("all", generic("Option", vec![name(a)]))]),
            },
        ])
    };
    assert_eq!(output_data(&declared("A"), &a(), &name("i128")), declared("i128"));
    assert_eq!(output_data(&Data::Enum(vec![]), &a(), &name("i128")), Data::Enum(vec![]));
}

#[test]
fn replacing_the_parameter_by_itself_changes_nothing() {
    let ty = generic("HashMap", vec![name("u8"), TypeExpr::Tuple(vec![name("A"), generic("Rc", vec![name("A")])])]);
    assert_eq!(retype(&ty, &a(), &name("A")), ty);
}
