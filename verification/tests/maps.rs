use std::cell::Cell;

use functor_derive_lib::definition::{Data, Definition, Field, Fields, GenericParam, ParamKind, Variant};
use functor_derive_lib::generate::generate_impl;
use functor_derive_lib::interpret::{run, Ending, Subject, Value};
use functor_derive_lib::output::retype;
use functor_derive_lib::ty::TypeExpr;

fn name(text: &str) -> TypeExpr {
    TypeExpr::named(text)
}

fn generic(text: &str, args: Vec<TypeExpr>) -> TypeExpr {
    TypeExpr::Path { leading: vec![], name: text.to_string(), args }
}

fn field(text: &str, ty: TypeExpr) -> Field {
    Field { name: text.to_string(), ty }
}

fn over_a(text: &str, data: Data) -> Definition {
    Definition {
        name: text.to_string(),
        generics: vec![GenericParam {
            kind: ParamKind::Type,
            ident: "A".to_string(),
            bounds: String::new(),
            decl: "A".to_string(),
        }],
        data,
    }
}

fn scalar(x: u64) -> Value {
    Value::Scalar(x)
}

fn scalars(items: &[u64]) -> Value {
    Value::Coll { keys: vec![], items: items.iter().map(|x| Value::Scalar(*x)).collect() }
}

fn done(fields: Vec<Value>) -> Ending {
    Ending::Done(Value::Tuple(fields))
}

fn map_over_a(def: &Definition, x: &Subject, f: &impl Fn(Value) -> Result<Value, Value>) -> Ending {
    let made = generate_impl(def, &"A".to_string(), None).unwrap();
    run(&made.body, x, f)
}

fn add_hundred(v: Value) -> Result<Value, Value> {
    match v {
        Value::Scalar(x) => Ok(Value::Scalar(x + 100)),
        other => Ok(other),
    }
}

fn identity(v: Value) -> Result<Value, Value> {
    Ok(v)
}

/// A struct with every supported shape among its fields.
fn everything() -> (Definition, Subject) {
    let def = over_a(
        "Everything",
        Data::Struct(Fields::Named(vec![
            field("direct", name("A")),
            field("plain", name("u32")),
            field("maybe", generic("Option", vec![name("A")])),
            field("boxed", generic("Box", vec![name("A")])),
            field("many", generic("Vec", vec![name("A")])),
            field("keyed", generic("HashMap", vec![name("u8"), name("A")])),
            field("mixed", TypeExpr::Tuple(vec![name("A"), name("u8"), generic("Vec", vec![name("A")])])),
            field("fixed", TypeExpr::Array { elem: Box::new(name("A")), len: "2".to_string() }),
            field("marker", generic("PhantomData", vec![name("A")])),
            field("grouped", TypeExpr::Paren(Box::new(name("A")))),
            field("nested", generic("Vec", vec![generic("Option", vec![generic("Vec", vec![name("A")])])])),
        ])),
    );
    let x = Subject {
        variant: 0,
        fields: vec![
            scalar(1),
            scalar(2),
            scalars(&[3]),
            scalars(&[4]),
            scalars(&[5, 6]),
            Value::Coll { keys: vec![scalar(70), scalar(80)], items: vec![scalar(7), scalar(8)] },
            Value::Tuple(vec![scalar(9), scalar(10), scalars(&[11])]),
            scalars(&[12, 13]),
            Value::Marker,
            scalar(14),
            Value::Coll {
                keys: vec![],
                items: vec![
                    Value::Coll { keys: vec![], items: vec![scalars(&[15, 16])] },
                    Value::Coll { keys: vec![], items: vec![] },
                ],
            },
        ],
    };
    (def, x)
}

#[test]
fn the_identity_rebuilds_an_equal_value() {
    let (def, x) = everything();
    let fields = x.fields.iter().map(Value::duplicate).collect();
    assert_eq!(map_over_a(&def, &x, &identity), done(fields));
}

#[test]
fn every_occurrence_is_transformed_and_nothing_else() {
    let (def, x) = everything();
    assert_eq!(
        map_over_a(&def, &x, &add_hundred),
        done(vec![
            scalar(101),
            scalar(2),
            scalars(&[103]),
            scalars(&[104]),
            scalars(&[105, 106]),
            Value::Coll { keys: vec![scalar(70), scalar(80)], items: vec![scalar(107), scalar(108)] },
            Value::Tuple(vec![scalar(109), scalar(10), scalars(&[111])]),
            scalars(&[112, 113]),
            Value::Marker,
            scalar(114),
            Value::Coll {
                keys: vec![],
                items: vec![
                    Value::Coll { keys: vec![], items: vec![scalars(&[115, 116])] },
                    Value::Coll { keys: vec![], items: vec![] },
                ],
            },
        ])
    );
}

#[test]
fn the_transformation_is_called_on_the_occurrences_in_order() {
    let (def, x) = everything();
    let seen = std::cell::RefCell::new(Vec::new());
    let record = |v: Value| {
        if let Value::Scalar(n) = &v {
            seen.borrow_mut().push(*n);
        }
        Ok(v)
    };
    map_over_a(&def, &x, &record);
    assert_eq!(*seen.borrow(), vec![1, 3, 4, 5, 6, 7, 8, 9, 11, 12, 13, 14, 15, 16]);
}

#[test]
fn a_widening_map_changes_only_the_field_of_the_parameter() {
    // struct Reading<A> { value: A, unit: u32 }, mapped with `|x| x as u64`
    // from a `u8` that holds 200 and so fits the wider type unchanged.
    let def = over_a(
        "Reading",
        Data::Struct(Fields::Named(vec![field("value", name("A")), field("unit", name("u32"))])),
    );
    let x = Subject { variant: 0, fields: vec![scalar(200), scalar(7)] };
    assert_eq!(map_over_a(&def, &x, &identity), done(vec![scalar(200), scalar(7)]));
    let a = "A".to_string();
    assert_eq!(retype(&name("A"), &a, &name("u64")), name("u64"));
    assert_eq!(retype(&name("u32"), &a, &name("u64")), name("u32"));
    let made = generate_impl(&def, &a, None).unwrap();
    assert_eq!(made.output_type(&"u64".to_string()), "Reading<u64>");
}

fn three_variants() -> Definition {
    over_a(
        "Shape",
        Data::Enum(vec![
            Variant { name: "Held".to_string(), fields: Fields::Positional(vec![name("A")]) },
            Variant { name: "Other".to_string(), fields: Fields::Named(vec![field("flag", name("bool"))]) },
            Variant { name: "Empty".to_string(), fields: Fields::Unit },
        ]),
    )
}

#[test]
fn a_variant_without_fields_is_returned_unchanged() {
    let def = three_variants();
    let x = Subject { variant: 2, fields: vec![] };
    let calls = Cell::new(0);
    let counting = |v: Value| {
        calls.set(calls.get() + 1);
        add_hundred(v)
    };
    assert_eq!(map_over_a(&def, &x, &counting), done(vec![]));
    assert_eq!(calls.get(), 0);
    let failing = |_: Value| Err(scalar(0));
    assert_eq!(map_over_a(&def, &x, &failing), done(vec![]));
}

#[test]
fn each_variant_is_mapped_by_its_own_arm() {
    let def = three_variants();
    let held = Subject { variant: 0, fields: vec![scalar(18)] };
    assert_eq!(map_over_a(&def, &held, &add_hundred), done(vec![scalar(118)]));
    let other = Subject { variant: 1, fields: vec![scalar(1)] };
    assert_eq!(map_over_a(&def, &other, &add_hundred), done(vec![scalar(1)]));
}

#[test]
fn a_field_without_the_parameter_is_the_same_under_any_transformation() {
    let def = over_a(
        "Kept",
        Data::Struct(Fields::Positional(vec![
            generic("Vec", vec![name("u8")]),
            name("A"),
            TypeExpr::Tuple(vec![name("bool"), generic("Option", vec![name("String")])]),
        ])),
    );
    let kept = || scalars(&[1, 2, 3]);
    let pair = || Value::Tuple(vec![scalar(1), scalars(&[9])]);
    let x = Subject { variant: 0, fields: vec![kept(), scalar(5), pair()] };
    let zero = |_: Value| Ok(scalar(0));
    let wrap = |v: Value| Ok(Value::Tuple(vec![v]));
    assert_eq!(map_over_a(&def, &x, &add_hundred), done(vec![kept(), scalar(105), pair()]));
    assert_eq!(map_over_a(&def, &x, &zero), done(vec![kept(), scalar(0), pair()]));
    assert_eq!(map_over_a(&def, &x, &wrap), done(vec![kept(), Value::Tuple(vec![scalar(5)]), pair()]));
}

/// Fails on the call number `nth` (counted from one) with the argument as the
/// error, and counts the calls that were made.
fn failing_on<'a>(nth: usize, calls: &'a Cell<usize>) -> impl Fn(Value) -> Result<Value, Value> + 'a {
    move |v: Value| {
        calls.set(calls.get() + 1);
        if calls.get() == nth {
            Err(v)
        } else {
            add_hundred(v)
        }
    }
}

#[test]
fn a_failure_on_the_second_element_of_an_array_ends_the_map() {
    let def = over_a(
        "Fixed",
        Data::Struct(Fields::Positional(vec![TypeExpr::Array { elem: Box::new(name("A")), len: "4".to_string() }])),
    );
    let x = Subject { variant: 0, fields: vec![scalars(&[1, 2, 3, 4])] };
    let calls = Cell::new(0);
    assert_eq!(map_over_a(&def, &x, &failing_on(2, &calls)), Ending::Failed(scalar(2)));
    assert_eq!(calls.get(), 2);
}

#[test]
fn a_failure_on_the_second_component_of_a_tuple_ends_the_map() {
    let def = over_a(
        "Triple",
        Data::Struct(Fields::Positional(vec![TypeExpr::Tuple(vec![name("A"), name("A"), name("A")])])),
    );
    let x = Subject { variant: 0, fields: vec![Value::Tuple(vec![scalar(1), scalar(2), scalar(3)])] };
    let calls = Cell::new(0);
    assert_eq!(map_over_a(&def, &x, &failing_on(2, &calls)), Ending::Failed(scalar(2)));
    assert_eq!(calls.get(), 2);
}

#[test]
fn a_failure_on_the_second_value_of_a_collection_ends_the_map() {
    for container in ["Vec", "VecDeque", "LinkedList"] {
        let def = over_a("Many", Data::Struct(Fields::Positional(vec![generic(container, vec![name("A")])])));
        let x = Subject { variant: 0, fields: vec![scalars(&[10, 20, 30])] };
        let calls = Cell::new(0);
        assert_eq!(map_over_a(&def, &x, &failing_on(2, &calls)), Ending::Failed(scalar(20)));
        assert_eq!(calls.get(), 2);
    }
}

#[test]
fn a_failure_in_an_earlier_field_leaves_the_later_fields_untried() {
    let (def, x) = everything();
    let calls = Cell::new(0);
    assert_eq!(map_over_a(&def, &x, &failing_on(4, &calls)), Ending::Failed(scalar(5)));
    assert_eq!(calls.get(), 4);
    let calls = Cell::new(0);
    assert_eq!(map_over_a(&def, &x, &failing_on(14, &calls)), Ending::Failed(scalar(16)));
    assert_eq!(calls.get(), 14);
    let calls = Cell::new(0);
    assert!(matches!(map_over_a(&def, &x, &failing_on(15, &calls)), Ending::Done(_)));
    assert_eq!(calls.get(), 14);
}

#[test]
fn a_value_that_does_not_fit_leaves_the_run_stuck() {
    let def = over_a(
        "Pairs",
        Data::Struct(Fields::Positional(vec![
            TypeExpr::Tuple(vec![name("A"), name("A")]),
            generic("Vec", vec![name("A")]),
        ])),
    );
    let fits = Subject { variant: 0, fields: vec![Value::Tuple(vec![scalar(1), scalar(2)]), scalars(&[3])] };
    assert_eq!(
        map_over_a(&def, &fits, &add_hundred),
        done(vec![Value::Tuple(vec![scalar(101), scalar(102)]), scalars(&[103])])
    );
    let short = Subject { variant: 0, fields: vec![Value::Tuple(vec![scalar(1)]), scalars(&[3])] };
    assert_eq!(map_over_a(&def, &short, &add_hundred), Ending::Stuck);
    let flat = Subject { variant: 0, fields: vec![scalar(1), scalars(&[3])] };
    assert_eq!(map_over_a(&def, &flat, &add_hundred), Ending::Stuck);
    let no_list = Subject { variant: 0, fields: vec![Value::Tuple(vec![scalar(1), scalar(2)]), scalar(3)] };
    assert_eq!(map_over_a(&def, &no_list, &add_hundred), Ending::Stuck);
    let too_few = Subject { variant: 0, fields: vec![Value::Tuple(vec![scalar(1), scalar(2)])] };
    assert_eq!(map_over_a(&def, &too_few, &add_hundred), Ending::Stuck);
    let no_such_variant = Subject { variant: 1, fields: vec![] };
    assert_eq!(map_over_a(&def, &no_such_variant, &add_hundred), Ending::Stuck);
}

#[test]
fn an_unsupported_occurrence_is_passed_through() {
    let def = over_a(
        "Shared",
        Data::Struct(Fields::Positional(vec![
            generic("Rc", vec![name("A")]),
            TypeExpr::Verbatim { text: "&'static A".to_string(), idents: vec!["A".to_string()] },
            generic("HashMap", vec![name("A"), name("A")]),
            name("A"),
        ])),
    );
    let keyed = || Value::Coll { keys: vec![scalar(1)], items: vec![scalar(2)] };
    let x = Subject { variant: 0, fields: vec![scalar(1), scalar(2), keyed(), scalar(3)] };
    assert_eq!(map_over_a(&def, &x, &add_hundred), done(vec![scalar(1), scalar(2), keyed(), scalar(103)]));
}

#[test]
fn the_output_type_replaces_the_parameter_in_every_supported_shape() {
    let (def, _) = everything();
    let a = "A".to_string();
    let new = generic("Vec", vec![name("u64")]);
    let types = match &def.data {
        Data::Struct(Fields::Named(members)) => members.iter().map(|m| retype(&m.ty, &a, &new)).collect::<Vec<_>>(),
        _ => unreachable!(),
    };
    let rendered: Vec<String> = types.iter().map(TypeExpr::render).collect();
    assert_eq!(
        rendered,
        vec![
            "Vec<u64>",
            "u32",
            "Option<Vec<u64>>",
            "Box<Vec<u64>>",
            "Vec<Vec<u64>>",
            "HashMap<u8, Vec<u64>>",
            "(Vec<u64>, u8, Vec<Vec<u64>>)",
            "[Vec<u64>; 2]",
            "PhantomData<Vec<u64>>",
            "(Vec<u64>)",
            "Vec<Option<Vec<Vec<u64>>>>",
        ]
    );
}

#[test]
fn the_output_type_keeps_what_the_analysis_does_not_enter() {
    let a = "A".to_string();
    let new = name("u64");
    let kept = [
        generic("Rc", vec![name("A")]),
        generic("HashMap", vec![name("A"), name("A")]),
        generic("PhantomData", vec![generic("Vec", vec![name("A")])]),
        TypeExpr::Verbatim { text: "&A".to_string(), idents: vec!["A".to_string()] },
        generic("Vec", vec![name("A"), name("A")]),
    ];
    for ty in kept {
        assert_eq!(retype(&ty, &a, &new), ty);
    }
}
