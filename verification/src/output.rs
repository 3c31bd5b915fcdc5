//! The type of a rebuilt field: the declared type with the parameter replaced
//! wherever the shape analysis reaches it.

use vstd::prelude::*;
use crate::definition::{Data, DataModel, Field, Fields, FieldsModel, Variant, VariantModel};
use crate::registry::{is_marker_name, lookup, lookup_model, marker_name};
use crate::shape::{any_other_mentions, classify, classify_model, others_mention, TypeShape};
use crate::text::texts;
use crate::ty::{contains_text, copy_texts, is_param, mentions, type_views, TypeExpr, TypeModel};

verus! {

/// `ty` with `target` written in place of every type that is the bare
/// parameter `param`.
pub open spec fn subst(ty: TypeModel, param: Seq<char>, target: TypeModel) -> TypeModel
    decreases ty,
{
    match ty {
        TypeModel::Path { leading, name, args } => if is_param(ty, param) {
            target
        } else {
            TypeModel::Path {
                leading,
                name,
                args: Seq::new(
                    args.len(),
                    |i: int|
                        if 0 <= i < args.len() {
                            subst(args[i], param, target)
                        } else {
                            target
                        },
                ),
            }
        },
        TypeModel::Paren(inner) => TypeModel::Paren(Box::new(subst(*inner, param, target))),
        TypeModel::Tuple(elems) => TypeModel::Tuple(
            Seq::new(
                elems.len(),
                |i: int|
                    if 0 <= i < elems.len() {
                        subst(elems[i], param, target)
                    } else {
                        target
                    },
            ),
        ),
        TypeModel::Array { elem, len } => TypeModel::Array { elem: Box::new(subst(*elem, param, target)), len },
        TypeModel::Verbatim { text, idents } => ty,
    }
}

/// The position of the generic argument of `name<args>` that the analysis
/// enters: the mapped argument of a known container whose other arguments do
/// not mention the parameter, or the argument of the marker over the
/// parameter. `None` where the type is kept whole.
pub open spec fn entered(name: Seq<char>, args: Seq<TypeModel>, param: Seq<char>) -> Option<nat> {
    match lookup_model(name, args.len()) {
        Some(entry) => if entry.mapped < args.len() && !others_mention(args, entry.mapped, param) {
            Some(entry.mapped)
        } else {
            None
        },
        None => if name == marker_name() && args.len() == 1 && classify_model(args[0], param) is Direct {
            Some(0nat)
        } else {
            None
        },
    }
}

/// The type of the value that the synthesized expression yields for a field
/// declared with type `ty`, when the transformation yields values of type
/// `target`: the parameter is replaced along the same walk that classifies the
/// type, and what the walk does not enter is kept as written.
pub open spec fn retype_model(ty: TypeModel, param: Seq<char>, target: TypeModel) -> TypeModel
    decreases ty,
{
    match ty {
        TypeModel::Path { leading, name, args } => {
            if is_param(ty, param) {
                target
            } else {
                match entered(name, args, param) {
                    Some(at) => if at < args.len() {
                        TypeModel::Path {
                            leading,
                            name,
                            args: args.update(at as int, retype_model(args[at as int], param, target)),
                        }
                    } else {
                        ty
                    },
                    None => ty,
                }
            }
        },
        TypeModel::Paren(inner) => TypeModel::Paren(Box::new(retype_model(*inner, param, target))),
        TypeModel::Tuple(elems) => TypeModel::Tuple(
            Seq::new(
                elems.len(),
                |i: int|
                    if 0 <= i < elems.len() {
                        retype_model(elems[i], param, target)
                    } else {
                        target
                    },
            ),
        ),
        TypeModel::Array { elem, len } => TypeModel::Array {
            elem: Box::new(retype_model(*elem, param, target)),
            len,
        },
        TypeModel::Verbatim { text, idents } => ty,
    }
}

/// Whether every occurrence of `param` in `ty` stands in a supported shape:
/// directly, or inside tuples, arrays, parentheses, known containers and the
/// marker, in any nesting.
pub open spec fn supported(ty: TypeModel, param: Seq<char>) -> bool
    decreases ty,
{
    match ty {
        TypeModel::Path { leading, name, args } => {
            if is_param(ty, param) {
                true
            } else {
                match entered(name, args, param) {
                    Some(at) => if at < args.len() {
                        name != param && !leading.contains(param) && supported(args[at as int], param)
                    } else {
                        !mentions(ty, param)
                    },
                    None => !mentions(ty, param),
                }
            }
        },
        TypeModel::Paren(inner) => supported(*inner, param),
        TypeModel::Tuple(elems) => forall|i: int| 0 <= i < elems.len() ==> supported(#[trigger] elems[i], param),
        TypeModel::Array { elem, len } => supported(*elem, param),
        TypeModel::Verbatim { text, idents } => !idents.contains(param),
    }
}

/// Replacing a parameter that a type does not mention changes nothing.
pub proof fn lemma_subst_without_mention(ty: TypeModel, param: Seq<char>, target: TypeModel)
    requires
        !mentions(ty, param),
    ensures
        subst(ty, param, target) == ty,
    decreases ty,
{
    match ty {
        TypeModel::Path { leading, name, args } => {
            let out = subst(ty, param, target);
            assert forall|i: int| 0 <= i < args.len() implies out->Path_args[i] == args[i] by {
                assert(!mentions(args[i], param));
                lemma_subst_without_mention(args[i], param, target);
            }
            assert(out->Path_args =~= args);
        },
        TypeModel::Paren(inner) => {
            lemma_subst_without_mention(*inner, param, target);
        },
        TypeModel::Tuple(elems) => {
            let out = subst(ty, param, target);
            assert forall|i: int| 0 <= i < elems.len() implies out->Tuple_0[i] == elems[i] by {
                assert(!mentions(elems[i], param));
                lemma_subst_without_mention(elems[i], param, target);
            }
            assert(out->Tuple_0 =~= elems);
        },
        TypeModel::Array { elem, len } => {
            lemma_subst_without_mention(*elem, param, target);
        },
        TypeModel::Verbatim { text, idents } => {},
    }
}

/// Type-output correctness. Where every occurrence of the parameter stands in a
/// supported shape, the type of the rebuilt field is exactly the declared type
/// with every occurrence of the parameter replaced by the new element type.
pub proof fn law_output_type_is_substitution(ty: TypeModel, param: Seq<char>, target: TypeModel)
    requires
        supported(ty, param),
    ensures
        retype_model(ty, param, target) == subst(ty, param, target),
    decreases ty,
{
    match ty {
        TypeModel::Path { leading, name, args } => {
            if !is_param(ty, param) {
                let out = retype_model(ty, param, target);
                let want = subst(ty, param, target);
                match entered(name, args, param) {
                    Some(at) => {
                        law_output_type_is_substitution(args[at as int], param, target);
                        assert forall|i: int| 0 <= i < args.len() implies out->Path_args[i]
                            == want->Path_args[i] by {
                            if i != at {
                                assert(!mentions(args[i], param));
                                lemma_subst_without_mention(args[i], param, target);
                            }
                        }
                        assert(out->Path_args =~= want->Path_args);
                    },
                    None => {
                        lemma_subst_without_mention(ty, param, target);
                    },
                }
            }
        },
        TypeModel::Paren(inner) => {
            law_output_type_is_substitution(*inner, param, target);
        },
        TypeModel::Tuple(elems) => {
            let out = retype_model(ty, param, target);
            let want = subst(ty, param, target);
            assert forall|i: int| 0 <= i < elems.len() implies out->Tuple_0[i] == want->Tuple_0[i] by {
                law_output_type_is_substitution(elems[i], param, target);
            }
            assert(out->Tuple_0 =~= want->Tuple_0);
        },
        TypeModel::Array { elem, len } => {
            law_output_type_is_substitution(*elem, param, target);
        },
        TypeModel::Verbatim { text, idents } => {},
    }
}

fn enter(name: &String, args: &Vec<TypeExpr>, param: &String) -> (out: Option<usize>)
    ensures
        match entered(name@, type_views(*args), param@) {
            Some(at) => out == Some(at as usize) && at < args.len(),
            None => out is None,
        },
{
    match lookup(name, args.len()) {
        Some((kind, mapped)) => {
            if any_other_mentions(args, mapped, param) {
                None
            } else {
                Some(mapped)
            }
        },
        None => {
            if is_marker_name(name) && args.len() == 1 {
                assert(type_views(*args)[0] == args[0]@);
                match classify(&args[0], param) {
                    TypeShape::Direct => Some(0),
                    _ => None,
                }
            } else {
                None
            }
        },
    }
}

/// Whether every occurrence of `param` in `ty` stands in a supported shape.
/// Where it does not, the field is still rebuilt, but the occurrences that the
/// analysis does not reach are passed through as they are.
pub fn supports(ty: &TypeExpr, param: &String) -> (out: bool)
    ensures
        out == supported(ty@, param@),
    decreases ty,
{
    match ty {
        TypeExpr::Path { leading, name, args } => {
            if ty.is_param(param) {
                return true;
            }
            assert(ty@->Path_args =~= type_views(*args));
            assert(ty@->Path_leading == texts(*leading));
            assert(decreases_to!(*ty => ty->Path_args));
            match enter(name, args, param) {
                Some(at) => !(*name == *param) && !contains_text(leading, param) && supports(&args[at], param),
                None => !ty.mentions(param),
            }
        },
        TypeExpr::Paren(inner) => supports(inner, param),
        TypeExpr::Tuple(elems) => {
            let mut i: usize = 0;
            while i < elems.len()
                invariant
                    i <= elems.len(),
                    ty matches TypeExpr::Tuple(e) && e == *elems,
                    forall|j: int| 0 <= j < i ==> supported(elems[j]@, param@),
                decreases elems.len() - i,
            {
                assert(decreases_to!(*ty => ty->Tuple_0));
                if !supports(&elems[i], param) {
                    assert(ty@->Tuple_0[i as int] == elems[i as int]@);
                    return false;
                }
                i = i + 1;
            }
            assert forall|j: int| 0 <= j < ty@->Tuple_0.len() implies supported(#[trigger] ty@->Tuple_0[j], param@) by {
                assert(ty@->Tuple_0[j] == elems[j]@);
            }
            true
        },
        TypeExpr::Array { elem, len } => supports(elem, param),
        TypeExpr::Verbatim { text, idents } => !contains_text(idents, param),
    }
}

/// The type of the rebuilt value of a field declared with type `ty`, when the
/// transformation yields values of type `target`.
///
/// Where every occurrence of the parameter stands in a supported shape, this
/// is the declared type with `target` written for the parameter everywhere.
pub fn retype(ty: &TypeExpr, param: &String, target: &TypeExpr) -> (out: TypeExpr)
    ensures
        out@ == retype_model(ty@, param@, target@),
        supported(ty@, param@) ==> out@ == subst(ty@, param@, target@),
    decreases ty,
{
    proof {
        if supported(ty@, param@) {
            law_output_type_is_substitution(ty@, param@, target@);
        }
    }
    match ty {
        TypeExpr::Path { leading, name, args } => {
            if ty.is_param(param) {
                return target.duplicate();
            }
            assert(ty@->Path_args =~= type_views(*args));
            assert(decreases_to!(*ty => ty->Path_args));
            match enter(name, args, param) {
                None => ty.duplicate(),
                Some(mapped) => {
                    let ghost inner = retype_model(args[mapped as int]@, param@, target@);
                    let mut rebuilt: Vec<TypeExpr> = Vec::new();
                    let mut i: usize = 0;
                    while i < args.len()
                        invariant
                            i <= args.len(),
                            mapped < args.len(),
                            ty matches TypeExpr::Path { args: a, .. } && a == *args,
                            inner == retype_model(args[mapped as int]@, param@, target@),
                            rebuilt.len() == i,
                            forall|j: int|
                                0 <= j < i ==> rebuilt[j]@ == (if j == mapped {
                                    inner
                                } else {
                                    args[j]@
                                }),
                        decreases args.len() - i,
                    {
                        assert(decreases_to!(*ty => ty->Path_args));
                        if i == mapped {
                            rebuilt.push(retype(&args[i], param, target));
                        } else {
                            rebuilt.push(args[i].duplicate());
                        }
                        i = i + 1;
                    }
                    let out = TypeExpr::Path {
                        leading: copy_texts(leading),
                        name: name.clone(),
                        args: rebuilt,
                    };
                    assert(out@->Path_args =~= type_views(*args).update(mapped as int, inner));
                    out
                },
            }
        },
        TypeExpr::Paren(inner) => TypeExpr::Paren(Box::new(retype(inner, param, target))),
        TypeExpr::Tuple(elems) => {
            let mut rebuilt: Vec<TypeExpr> = Vec::new();
            let mut i: usize = 0;
            while i < elems.len()
                invariant
                    i <= elems.len(),
                    ty matches TypeExpr::Tuple(e) && e == *elems,
                    rebuilt.len() == i,
                    forall|j: int| 0 <= j < i ==> rebuilt[j]@ == retype_model(elems[j]@, param@, target@),
                decreases elems.len() - i,
            {
                assert(decreases_to!(*ty => ty->Tuple_0));
                rebuilt.push(retype(&elems[i], param, target));
                i = i + 1;
            }
            let out = TypeExpr::Tuple(rebuilt);
            assert(out@->Tuple_0 =~= retype_model(ty@, param@, target@)->Tuple_0);
            out
        },
        TypeExpr::Array { elem, len } => TypeExpr::Array {
            elem: Box::new(retype(elem, param, target)),
            len: len.clone(),
        },
        TypeExpr::Verbatim { text, idents } => ty.duplicate(),
    }
}

/// Fields with the type of each rebuilt: names and style are kept.
pub open spec fn retype_fields(fields: FieldsModel, param: Seq<char>, target: TypeModel) -> FieldsModel {
    FieldsModel {
        style: fields.style,
        names: fields.names,
        types: Seq::new(fields.types.len(), |i: int| retype_model(fields.types[i], param, target)),
    }
}

/// The data of the definition that results from the map: every constructor
/// as declared, with the type of each field rebuilt.
pub open spec fn retype_data(data: DataModel, param: Seq<char>, target: TypeModel) -> DataModel {
    match data {
        DataModel::Struct(fields) => DataModel::Struct(retype_fields(fields, param, target)),
        DataModel::Enum(variants) => DataModel::Enum(
            Seq::new(
                variants.len(),
                |k: int|
                    VariantModel {
                        name: variants[k].name,
                        fields: retype_fields(variants[k].fields, param, target),
                    },
            ),
        ),
    }
}

/// Fields with `target` written for the parameter in the type of each.
pub open spec fn subst_fields(fields: FieldsModel, param: Seq<char>, target: TypeModel) -> FieldsModel {
    FieldsModel {
        style: fields.style,
        names: fields.names,
        types: Seq::new(fields.types.len(), |i: int| subst(fields.types[i], param, target)),
    }
}

/// The data of a definition with `target` written for the parameter in the
/// type of every field.
pub open spec fn subst_data(data: DataModel, param: Seq<char>, target: TypeModel) -> DataModel {
    match data {
        DataModel::Struct(fields) => DataModel::Struct(subst_fields(fields, param, target)),
        DataModel::Enum(variants) => DataModel::Enum(
            Seq::new(
                variants.len(),
                |k: int|
                    VariantModel { name: variants[k].name, fields: subst_fields(variants[k].fields, param, target) },
            ),
        ),
    }
}

/// Whether the parameter stands in a supported shape wherever it occurs in
/// the types of these fields.
pub open spec fn fields_supported(fields: FieldsModel, param: Seq<char>) -> bool {
    forall|i: int| 0 <= i < fields.types.len() ==> supported(#[trigger] fields.types[i], param)
}

/// Whether the parameter stands in a supported shape wherever it occurs in
/// the fields of a definition.
pub open spec fn data_supported(data: DataModel, param: Seq<char>) -> bool {
    match data {
        DataModel::Struct(fields) => fields_supported(fields, param),
        DataModel::Enum(variants) => forall|k: int|
            0 <= k < variants.len() ==> fields_supported(#[trigger] variants[k].fields, param),
    }
}

proof fn lemma_fields_output(fields: FieldsModel, param: Seq<char>, target: TypeModel)
    requires
        fields_supported(fields, param),
    ensures
        retype_fields(fields, param, target) == subst_fields(fields, param, target),
{
    assert forall|i: int| 0 <= i < fields.types.len() implies retype_model(fields.types[i], param, target)
        == subst(fields.types[i], param, target) by {
        assert(supported(fields.types[i], param));
        law_output_type_is_substitution(fields.types[i], param, target);
    }
    assert(retype_fields(fields, param, target).types =~= subst_fields(fields, param, target).types);
}

/// Type-output correctness, for whole definitions. Where every occurrence of
/// the parameter in the fields of a definition stands in a supported shape,
/// the definition that results from the map is exactly the definition that
/// was mapped with every occurrence of the parameter replaced by the new
/// element type: the same constructors, the same field names in the same
/// order, and in every field's type the new element type for the parameter.
pub proof fn law_output_data_is_substitution(data: DataModel, param: Seq<char>, target: TypeModel)
    requires
        data_supported(data, param),
    ensures
        retype_data(data, param, target) == subst_data(data, param, target),
{
    match data {
        DataModel::Struct(fields) => {
            lemma_fields_output(fields, param, target);
        },
        DataModel::Enum(variants) => {
            assert forall|k: int| 0 <= k < variants.len() implies retype_fields(variants[k].fields, param, target)
                == subst_fields(variants[k].fields, param, target) by {
                assert(fields_supported(variants[k].fields, param));
                lemma_fields_output(variants[k].fields, param, target);
            }
            assert(retype_data(data, param, target)->Enum_0 =~= subst_data(data, param, target)->Enum_0);
        },
    }
}

fn output_fields(fields: &Fields, param: &String, target: &TypeExpr) -> (out: Fields)
    ensures
        out@ == retype_fields(fields@, param@, target@),
{
    match fields {
        Fields::Named(members) => {
            let mut rebuilt: Vec<Field> = Vec::new();
            let mut i: usize = 0;
            while i < members.len()
                invariant
                    i <= members.len(),
                    rebuilt.len() == i,
                    forall|j: int| 0 <= j < i ==> rebuilt[j].name@ == members[j].name@,
                    forall|j: int| 0 <= j < i ==> rebuilt[j].ty@ == retype_model(members[j].ty@, param@, target@),
                decreases members.len() - i,
            {
                rebuilt.push(Field { name: members[i].name.clone(), ty: retype(&members[i].ty, param, target) });
                i = i + 1;
            }
            let out = Fields::Named(rebuilt);
            assert(out@.names =~= fields@.names);
            assert(out@.types =~= retype_fields(fields@, param@, target@).types);
            out
        },
        Fields::Positional(types) => {
            let mut rebuilt: Vec<TypeExpr> = Vec::new();
            let mut i: usize = 0;
            while i < types.len()
                invariant
                    i <= types.len(),
                    rebuilt.len() == i,
                    forall|j: int| 0 <= j < i ==> rebuilt[j]@ == retype_model(types[j]@, param@, target@),
                decreases types.len() - i,
            {
                rebuilt.push(retype(&types[i], param, target));
                i = i + 1;
            }
            let out = Fields::Positional(rebuilt);
            assert(out@.types =~= retype_fields(fields@, param@, target@).types);
            out
        },
        Fields::Unit => {
            let out = Fields::Unit;
            assert(out@.types =~= retype_fields(fields@, param@, target@).types);
            out
        },
    }
}

/// The data of the definition that results from the map over `param` when
/// the transformation yields values of type `target`: the constructors of
/// `data` with the type of each field rebuilt.
///
/// Where the parameter stands in supported shapes throughout, these are the
/// data of the definition with `target` written for the parameter everywhere.
pub fn output_data(data: &Data, param: &String, target: &TypeExpr) -> (out: Data)
    ensures
        out@ == retype_data(data@, param@, target@),
        data_supported(data@, param@) ==> out@ == subst_data(data@, param@, target@),
{
    proof {
        if data_supported(data@, param@) {
            law_output_data_is_substitution(data@, param@, target@);
        }
    }
    match data {
        Data::Struct(fields) => Data::Struct(output_fields(fields, param, target)),
        Data::Enum(variants) => {
            let mut rebuilt: Vec<Variant> = Vec::new();
            let mut k: usize = 0;
            while k < variants.len()
                invariant
                    k <= variants.len(),
                    rebuilt.len() == k,
                    forall|j: int|
                        0 <= j < k ==> (#[trigger] rebuilt[j])@ == (VariantModel {
                            name: variants[j].name@,
                            fields: retype_fields(variants[j].fields@, param@, target@),
                        }),
                decreases variants.len() - k,
            {
                rebuilt.push(
                    Variant {
                        name: variants[k].name.clone(),
                        fields: output_fields(&variants[k].fields, param, target),
                    },
                );
                k = k + 1;
            }
            let out = Data::Enum(rebuilt);
            assert(out@->Enum_0 =~= retype_data(data@, param@, target@)->Enum_0);
            out
        },
    }
}

} // verus!
