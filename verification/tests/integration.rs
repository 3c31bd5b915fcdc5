use functor_derive_lib::definition::{Data, Definition, Field, Fields, GenericParam, ParamKind, Variant};
use functor_derive_lib::generate::generate_impl;
use functor_derive_lib::interpret::{run, Ending, Subject, Value};
use functor_derive_lib::output::output_data;
use functor_derive_lib::ty::TypeExpr;

fn name(text: &str) -> TypeExpr {
    TypeExpr::named(text)
}

fn generic(text: &str, args: Vec<TypeExpr>) -> TypeExpr {
    TypeExpr::Path { leading: vec![], name: text.to_string(), args }
}

fn tuple(elems: Vec<TypeExpr>) -> TypeExpr {
    TypeExpr::Tuple(elems)
}

fn array(elem: TypeExpr, len: &str) -> TypeExpr {
    TypeExpr::Array { elem: Box::new(elem), len: len.to_string() }
}

fn paren(inner: TypeExpr) -> TypeExpr {
    TypeExpr::Paren(Box::new(inner))
}

fn field(text: &str, ty: TypeExpr) -> Field {
    Field { name: text.to_string(), ty }
}

fn variant(text: &str, fields: Fields) -> Variant {
    Variant { name: text.to_string(), fields }
}

/// The definition `text<A>` with the data `data`.
fn over_a(text: &str, data: Data) -> Definition {
    Definition {
        name: text.to_string(),
        generics: vec![GenericParam {
            kind: ParamKind::Type,
            ident: "A".to_string(),
            bounds: String::new(),
            decl: "A".to_string(),
        }],
        data,
    }
}

fn scalar(x: u64) -> Value {
    Value::Scalar(x)
}

fn values(items: Vec<Value>) -> Value {
    Value::Coll { keys: vec![], items }
}

fn scalars(items: Vec<u64>) -> Value {
    values(items.into_iter().map(Value::Scalar).collect())
}

/// `|x| x as u64`: the value is kept, its type widens.
fn widen(x: Value) -> Result<Value, Value> {
    Ok(x)
}

/// Maps `x` with `widen` through the code generated for `def`, checks that the
/// fields come out as they went in, and returns the type of the result: its
/// name applied to the new element type, and what it declares.
fn fmap_widening(def: &Definition, x: Subject) -> (String, Data) {
    let a = "A".to_string();
    let made = generate_impl(def, &a, None).unwrap();
    let same = x.fields.iter().map(Value::duplicate).collect();
    assert_eq!(run(&made.body, &x, &widen), Ending::Done(Value::Tuple(same)));
    (made.output_type(&"u64".to_string()), output_data(&def.data, &a, &name("u64")))
}

/// The type `text<u64>`, which declares `data`.
fn type_id(text: &str, data: Data) -> (String, Data) {
    (format!("{}<u64>", text), data)
}

#[test]
fn struct_simple() {
    let declared = |a: &str| {
        Data::Struct(Fields::Named(vec![field("field_1", name(a)), field("field_2", name("u32"))]))
    };
    let def = over_a("StructSimple", declared("A"));

    let x = Subject { variant: 0, fields: vec![scalar(42), scalar(13)] };

    assert_eq!(fmap_widening(&def, x), type_id("StructSimple", declared("u64")));
}

#[test]
fn struct_option() {
    let declared = |a: &str| {
        Data::Struct(Fields::Named(vec![
            field("field_1", generic("Option", vec![name(a)])),
            field("field_2", generic("Option", vec![name(a)])),
            field("field_3", name("u32")),
        ]))
    };
    let def = over_a("StructOption", declared("A"));

    let x = Subject { variant: 0, fields: vec![scalars(vec![42]), scalars(vec![]), scalar(13)] };

    assert_eq!(fmap_widening(&def, x), type_id("StructOption", declared("u64")));
}

#[test]
fn struct_vec() {
    let declared = |a: &str| {
        Data::Struct(Fields::Named(vec![
            field("field_1", name(a)),
            field("field_2", generic("Vec", vec![name(a)])),
        ]))
    };
    let def = over_a("StructVec", declared("A"));

    let x = Subject { variant: 0, fields: vec![scalar(42), scalars(vec![13, 14, 15])] };

    assert_eq!(fmap_widening(&def, x), type_id("StructVec", declared("u64")));
}

#[test]
fn struct_vecdeque() {
    let declared = |a: &str| {
        Data::Struct(Fields::Named(vec![
            field("field_1", name(a)),
            field("field_2", generic("VecDeque", vec![name(a)])),
        ]))
    };
    let def = over_a("StructVecDeque", declared("A"));

    let x = Subject { variant: 0, fields: vec![scalar(42), scalars(vec![13, 14, 15])] };

    assert_eq!(fmap_widening(&def, x), type_id("StructVecDeque", declared("u64")));
}

#[test]
fn struct_tuple_1() {
    let declared = |a: &str| {
        Data::Struct(Fields::Named(vec![
            field("field_1", tuple(vec![name(a), name("u8"), name(a)])),
            field("field_2", name("u32")),
        ]))
    };
    let def = over_a("StructTuple", declared("A"));

    let x = Subject { variant: 0, fields: vec![Value::Tuple(vec![scalar(3), scalar(5), scalar(8)]), scalar(13)] };

    assert_eq!(fmap_widening(&def, x), type_id("StructTuple", declared("u64")));
}

#[test]
fn struct_tuple_2() {
    let declared = |a: &str| {
        Data::Struct(Fields::Named(vec![
            field("field_1", tuple(vec![generic("Vec", vec![name(a)]), name("u8"), name(a)])),
            field("field_2", name("u32")),
        ]))
    };
    let def = over_a("StructTuple", declared("A"));

    let x = Subject {
        variant: 0,
        fields: vec![Value::Tuple(vec![scalars(vec![3]), scalar(5), scalar(8)]), scalar(13)],
    };

    assert_eq!(fmap_widening(&def, x), type_id("StructTuple", declared("u64")));
}

#[test]
fn struct_phantomdata() {
    let declared = |a: &str| {
        Data::Struct(Fields::Named(vec![
            field("field_1", generic("PhantomData", vec![name(a)])),
            field("field_2", name("u32")),
        ]))
    };
    let def = over_a("StructPhantomData", declared("A"));

    let x = Subject { variant: 0, fields: vec![Value::Marker, scalar(13)] };

    assert_eq!(fmap_widening(&def, x), type_id("StructPhantomData", declared("u64")));
}

#[test]
fn struct_hashmap() {
    let declared = |a: &str| {
        Data::Struct(Fields::Named(vec![
            field("field_1", name(a)),
            field("field_2", generic("HashMap", vec![name("u8"), name(a)])),
        ]))
    };
    let def = over_a("StructHashMap", declared("A"));

    let x = Subject {
        variant: 0,
        fields: vec![scalar(42), Value::Coll { keys: vec![scalar(13)], items: vec![scalar(255)] }],
    };

    assert_eq!(fmap_widening(&def, x), type_id("StructHashMap", declared("u64")));
}

#[test]
fn struct_array_1() {
    let declared = |a: &str| {
        Data::Struct(Fields::Named(vec![field("field_1", array(name(a), "3")), field("field_2", name("u8"))]))
    };
    let def = over_a("StructArray", declared("A"));

    let x = Subject { variant: 0, fields: vec![scalars(vec![1, 2, 3]), scalar(42)] };

    assert_eq!(fmap_widening(&def, x), type_id("StructArray", declared("u64")));
}

#[test]
fn struct_array_2() {
    let declared = |a: &str| {
        Data::Struct(Fields::Named(vec![
            field("field_1", array(tuple(vec![generic("Vec", vec![name(a)]), name("usize")]), "3")),
            field("field_2", name("u8")),
        ]))
    };
    let def = over_a("StructArray", declared("A"));

    let x = Subject {
        variant: 0,
        fields: vec![
            values(vec![
                Value::Tuple(vec![scalars(vec![1]), scalar(1)]),
                Value::Tuple(vec![scalars(vec![2]), scalar(2)]),
                Value::Tuple(vec![scalars(vec![3]), scalar(3)]),
            ]),
            scalar(42),
        ],
    };

    assert_eq!(fmap_widening(&def, x), type_id("StructArray", declared("u64")));
}

#[test]
fn struct_paren_1() {
    let declared = |a: &str| {
        Data::Struct(Fields::Named(vec![field("field_1", paren(name(a))), field("field_2", name("u8"))]))
    };
    let def = over_a("StructArray", declared("A"));

    let x = Subject { variant: 0, fields: vec![scalar(1), scalar(42)] };

    assert_eq!(fmap_widening(&def, x), type_id("StructArray", declared("u64")));
}

#[test]
fn struct_paren_2() {
    let declared = |a: &str| {
        Data::Struct(Fields::Named(vec![
            field("field_1", generic("Vec", vec![paren(name(a))])),
            field("field_2", name("u8")),
        ]))
    };
    let def = over_a("StructArray", declared("A"));

    let x = Subject { variant: 0, fields: vec![scalars(vec![1]), scalar(42)] };

    assert_eq!(fmap_widening(&def, x), type_id("StructArray", declared("u64")));
}

#[test]
fn enum_simple_tuple() {
    let declared = |a: &str| {
        Data::Enum(vec![
            variant("Var1", Fields::Positional(vec![name(a)])),
            variant("Var2", Fields::Positional(vec![name("bool")])),
            variant("Var3", Fields::Unit),
        ])
    };
    let def = over_a("EnumTuple", declared("A"));

    let x = Subject { variant: 0, fields: vec![scalar(18)] };

    assert_eq!(fmap_widening(&def, x), type_id("EnumTuple", declared("u64")));
}

#[test]
fn enum_simple_struct() {
    let declared = |a: &str| {
        Data::Enum(vec![
            variant("Var1", Fields::Named(vec![field("x", name(a))])),
            variant("Var2", Fields::Named(vec![field("y", name("bool"))])),
            variant("Var3", Fields::Unit),
        ])
    };
    let def = over_a("EnumStruct", declared("A"));

    let x = Subject { variant: 0, fields: vec![scalar(18)] };

    assert_eq!(fmap_widening(&def, x), type_id("EnumStruct", declared("u64")));
}

#[test]
fn enum_simple_mixed() {
    let declared = |a: &str| {
        Data::Enum(vec![
            variant("Var1", Fields::Named(vec![field("x", name(a))])),
            variant("Var2", Fields::Positional(vec![name("bool")])),
            variant("Var3", Fields::Unit),
        ])
    };
    let def = over_a("EnumMixed", declared("A"));

    let x = Subject { variant: 0, fields: vec![scalar(18)] };

    assert_eq!(fmap_widening(&def, x), type_id("EnumMixed", declared("u64")));
}
