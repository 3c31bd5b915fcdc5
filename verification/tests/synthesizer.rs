use functor_derive_lib::expr::{synthesize, Expr};
use functor_derive_lib::registry::ContainerKind;
use functor_derive_lib::shape::TypeShape;

fn known(kind: ContainerKind, inner: TypeShape) -> TypeShape {
    TypeShape::Known(kind, Box::new(inner))
}

fn slot_field(slot: usize, index: usize) -> Expr {
    Expr::Field(Box::new(Expr::Slot(slot)), index)
}

fn apply(arg: Expr) -> Expr {
    Expr::Apply(Box::new(arg))
}

fn mapped(source: Expr, each: Expr) -> Expr {
    Expr::Mapped(Box::new(source), Box::new(each))
}

#[test]
fn a_direct_occurrence_is_an_application() {
    let made = synthesize(&TypeShape::Direct, Expr::Slot(0));
    assert_eq!(made, apply(Expr::Slot(0)));
    assert_eq!(made.render(false), "__f(__0)");
    assert_eq!(made.render(true), "__f(__0)?");
}

#[test]
fn an_opaque_value_is_passed_through() {
    let made = synthesize(&TypeShape::Opaque, Expr::Slot(3));
    assert_eq!(made, Expr::Slot(3));
    assert_eq!(made.render(false), "__3");
    assert_eq!(made.render(true), "__3");
}

#[test]
fn a_marker_is_built_anew_without_reading_the_value() {
    let made = synthesize(&TypeShape::Marker, Expr::Slot(0));
    assert_eq!(made, Expr::Marker);
    assert_eq!(made.render(false), "::core::marker::PhantomData");
    assert_eq!(made.render(true), "::core::marker::PhantomData");
}

#[test]
fn a_tuple_is_rebuilt_component_by_component() {
    let shape = TypeShape::Tuple(vec![TypeShape::Direct, TypeShape::Opaque, TypeShape::Direct]);
    let made = synthesize(&shape, Expr::Slot(0));
    assert_eq!(
        made,
        Expr::Tuple(vec![apply(slot_field(0, 0)), slot_field(0, 1), apply(slot_field(0, 2))])
    );
    assert_eq!(made.render(false), "(__f(__0.0), __0.1, __f(__0.2))");
    assert_eq!(made.render(true), "(__f(__0.0)?, __0.1, __f(__0.2)?)");
}

#[test]
fn a_tuple_of_one_keeps_its_comma() {
    let made = synthesize(&TypeShape::Tuple(vec![TypeShape::Direct]), Expr::Slot(1));
    assert_eq!(made.render(false), "(__f(__1.0),)");
}

#[test]
fn a_tuple_that_touches_nothing_is_passed_through() {
    let shape = TypeShape::Tuple(vec![TypeShape::Opaque, known(ContainerKind::Vector, TypeShape::Opaque)]);
    assert_eq!(synthesize(&shape, Expr::Slot(2)), Expr::Slot(2));
    assert_eq!(synthesize(&TypeShape::Tuple(vec![]), Expr::Item), Expr::Item);
}

#[test]
fn an_array_is_mapped_element_by_element() {
    let shape = TypeShape::Array(Box::new(TypeShape::Direct), "3".to_string());
    let made = synthesize(&shape, Expr::Slot(0));
    assert_eq!(made, mapped(Expr::Slot(0), apply(Expr::Item)));
    assert_eq!(made.render(false), "::functor_derive::Functor::fmap_ref(__0, &|__v| __f(__v))");
    assert_eq!(
        made.render(true),
        "::functor_derive::Functor::try_fmap_ref(__0, &|__v| ::core::result::Result::<_, __E>::Ok(__f(__v)?))?"
    );
}

#[test]
fn a_container_is_mapped_with_the_expression_of_its_elements() {
    let shape = known(
        ContainerKind::Vector,
        TypeShape::Tuple(vec![known(ContainerKind::Optional, TypeShape::Direct), TypeShape::Opaque]),
    );
    let made = synthesize(&shape, Expr::Slot(1));
    let inner = Expr::Tuple(vec![
        mapped(Expr::Field(Box::new(Expr::Item), 0), apply(Expr::Item)),
        Expr::Field(Box::new(Expr::Item), 1),
    ]);
    assert_eq!(made, mapped(Expr::Slot(1), inner));
    assert_eq!(
        made.render(false),
        "::functor_derive::Functor::fmap_ref(__1, &|__v| \
         (::functor_derive::Functor::fmap_ref(__v.0, &|__v| __f(__v)), __v.1))"
    );
}

#[test]
fn a_container_that_touches_nothing_is_passed_through() {
    let shape = known(ContainerKind::HashMap, TypeShape::Opaque);
    assert_eq!(synthesize(&shape, Expr::Slot(0)), Expr::Slot(0));
}

#[test]
fn positions_are_written_in_decimal() {
    assert_eq!(Expr::Slot(0).render(false), "__0");
    assert_eq!(Expr::Slot(12).render(false), "__12");
    assert_eq!(slot_field(105, 10).render(true), "__105.10");
    assert_eq!(Expr::Item.render(false), "__v");
}

#[test]
fn a_copy_of_an_expression_is_equal_to_it() {
    let first = mapped(Expr::Slot(1), Expr::Tuple(vec![apply(Expr::Item), Expr::Marker]));
    assert_eq!(first.duplicate(), first);
}
