//! The types of reconstruction expressions.
//!
//! A small type system for the expressions that the synthesizer emits: a
//! place has the type it was declared with, the transformation takes the
//! parameter to the new element type, the map of a known container or an
//! array changes the type of what is held and nothing else. Types are
//! compared without regard to redundant parentheses.

use vstd::prelude::*;
use crate::body::arm_model;
use crate::definition::Constructor;
use crate::expr::{synth_model, ExprModel};
use crate::output::{entered, lemma_subst_without_mention, subst, supported};
use crate::registry::{lookup_model, marker_name};
use crate::shape::{classify_model, touches};
use crate::ty::{bare, is_param, mentions, TypeModel};

verus! {

/// `ty` without redundant parentheses, at any depth.
pub open spec fn plain(ty: TypeModel) -> TypeModel
    decreases ty,
{
    match ty {
        TypeModel::Path { leading, name, args } => TypeModel::Path {
            leading,
            name,
            args: Seq::new(
                args.len(),
                |i: int|
                    if 0 <= i < args.len() {
                        plain(args[i])
                    } else {
                        ty
                    },
            ),
        },
        TypeModel::Paren(inner) => plain(*inner),
        TypeModel::Tuple(elems) => TypeModel::Tuple(
            Seq::new(
                elems.len(),
                |i: int|
                    if 0 <= i < elems.len() {
                        plain(elems[i])
                    } else {
                        ty
                    },
            ),
        ),
        TypeModel::Array { elem, len } => TypeModel::Array { elem: Box::new(plain(*elem)), len },
        TypeModel::Verbatim { text, idents } => ty,
    }
}

/// What the types of expressions are judged against: the types of the fields
/// that the arm binds and of the element handed to the innermost element
/// function, all without redundant parentheses; the parameter, which is the
/// type that the transformation takes; and the type that it yields.
pub struct TypeEnv {
    pub slots: Seq<TypeModel>,
    pub item: Option<TypeModel>,
    pub param: Seq<char>,
    pub target: TypeModel,
}

/// The same environment inside an element function whose element has the
/// type `item`.
pub open spec fn within(env: TypeEnv, item: TypeModel) -> TypeEnv {
    TypeEnv { slots: env.slots, item: Some(item), param: env.param, target: env.target }
}

/// The type of a place: a bound field, the element, or a component of a place
/// of tuple type. `None` for every other expression and for a place that does
/// not exist.
pub open spec fn place_type(expr: ExprModel, env: TypeEnv) -> Option<TypeModel>
    decreases expr,
{
    match expr {
        ExprModel::Slot(i) => if i < env.slots.len() {
            Some(env.slots[i as int])
        } else {
            None
        },
        ExprModel::Item => env.item,
        ExprModel::Field(base, i) => match place_type(*base, env) {
            Some(TypeModel::Tuple(elems)) => if i < elems.len() {
                Some(elems[i as int])
            } else {
                None
            },
            _ => None,
        },
        _ => None,
    }
}

/// Whether the expression `expr` has the type `expected`, which is written
/// without redundant parentheses.
///
/// A place has its own type and no other. An application takes a place of the
/// parameter's type to the new element type. A tuple has a tuple type, of the
/// types of its components. The marker has the marker type over anything. The
/// map of an array has the type of an array of the same length, and the map of
/// a known container the type of the same container with the same arguments
/// but for the mapped one; in both, the element expression takes the old
/// element type to the new.
pub open spec fn has_type(expr: ExprModel, expected: TypeModel, env: TypeEnv) -> bool
    decreases expr,
{
    match expr {
        ExprModel::Slot(i) => place_type(expr, env) == Some(expected),
        ExprModel::Item => place_type(expr, env) == Some(expected),
        ExprModel::Field(base, i) => place_type(expr, env) == Some(expected),
        ExprModel::Apply(arg) => place_type(*arg, env) == Some(bare(env.param)) && expected == plain(env.target),
        ExprModel::Tuple(parts) => {
            &&& expected is Tuple
            &&& expected->Tuple_0.len() == parts.len()
            &&& forall|i: int| 0 <= i < parts.len() ==> has_type(#[trigger] parts[i], expected->Tuple_0[i], env)
        },
        ExprModel::Marker => {
            &&& expected is Path
            &&& expected->Path_name == marker_name()
            &&& expected->Path_args.len() == 1
        },
        ExprModel::Mapped(source, each) => match place_type(*source, env) {
            Some(TypeModel::Array { elem, len }) => {
                &&& expected is Array
                &&& expected->Array_len == len
                &&& has_type(*each, *expected->Array_elem, within(env, *elem))
            },
            Some(TypeModel::Path { leading, name, args }) => match lookup_model(name, args.len()) {
                Some(entry) => {
                    &&& entry.mapped < args.len()
                    &&& expected is Path
                    &&& expected->Path_leading == leading
                    &&& expected->Path_name == name
                    &&& expected->Path_args.len() == args.len()
                    &&& forall|j: int|
                        0 <= j < args.len() && j != entry.mapped ==> #[trigger] expected->Path_args[j] == args[j]
                    &&& has_type(
                        *each,
                        expected->Path_args[entry.mapped as int],
                        within(env, args[entry.mapped as int]),
                    )
                },
                None => false,
            },
            _ => false,
        },
    }
}

/// In a supported type whose shape touches nothing the parameter does not
/// occur.
pub proof fn lemma_untouched_supported_is_unmentioned(ty: TypeModel, param: Seq<char>)
    requires
        supported(ty, param),
        !touches(classify_model(ty, param)),
    ensures
        !mentions(ty, param),
    decreases ty,
{
    match ty {
        TypeModel::Path { leading, name, args } => {
            match entered(name, args, param) {
                Some(at) => {
                    lemma_untouched_supported_is_unmentioned(args[at as int], param);
                    assert forall|i: int| 0 <= i < args.len() implies !mentions(#[trigger] args[i], param) by {
                        if i != at {
                            assert(lookup_model(name, args.len()) is Some);
                        }
                    }
                },
                None => {},
            }
        },
        TypeModel::Paren(inner) => {
            lemma_untouched_supported_is_unmentioned(*inner, param);
        },
        TypeModel::Tuple(elems) => {
            let parts = classify_model(ty, param)->Tuple_0;
            assert forall|i: int| 0 <= i < elems.len() implies !mentions(#[trigger] elems[i], param) by {
                assert(!touches(parts[i]));
                lemma_untouched_supported_is_unmentioned(elems[i], param);
            }
        },
        TypeModel::Array { elem, len } => {
            lemma_untouched_supported_is_unmentioned(*elem, param);
        },
        TypeModel::Verbatim { text, idents } => {},
    }
}

/// Type-output correctness, for expressions. Where every occurrence of the
/// parameter in a declared type stands in a supported shape, the expression
/// synthesized for a place of that type has exactly the declared type with
/// the new element type written for every occurrence of the parameter.
pub proof fn law_synthesized_expression_has_the_output_type(ty: TypeModel, operand: ExprModel, env: TypeEnv)
    requires
        supported(ty, env.param),
        place_type(operand, env) == Some(plain(ty)),
    ensures
        has_type(
            synth_model(classify_model(ty, env.param), operand),
            plain(subst(ty, env.param, env.target)),
            env,
        ),
    decreases ty,
{
    let param = env.param;
    let target = env.target;
    let shape = classify_model(ty, param);
    let expected = plain(subst(ty, param, target));
    if !touches(shape) {
        lemma_untouched_supported_is_unmentioned(ty, param);
        lemma_subst_without_mention(ty, param, target);
    } else {
        match ty {
            TypeModel::Path { leading, name, args } => {
                if is_param(ty, param) {
                    assert(plain(ty)->Path_args =~= Seq::empty());
                } else {
                    match entered(name, args, param) {
                        Some(at) => {
                            if lookup_model(name, args.len()) is Some {
                                let each = synth_model(classify_model(args[at as int], param), ExprModel::Item);
                                let inner = within(env, plain(args[at as int]));
                                law_synthesized_expression_has_the_output_type(
                                    args[at as int],
                                    ExprModel::Item,
                                    inner,
                                );
                                assert forall|j: int| 0 <= j < args.len() && j != at implies #[trigger] expected->Path_args[j]
                                    == plain(ty)->Path_args[j] by {
                                    assert(!mentions(args[j], param));
                                    lemma_subst_without_mention(args[j], param, target);
                                }
                                assert(has_type(each, expected->Path_args[at as int], inner));
                            }
                        },
                        None => {},
                    }
                }
            },
            TypeModel::Paren(inner) => {
                law_synthesized_expression_has_the_output_type(*inner, operand, env);
            },
            TypeModel::Tuple(elems) => {
                let built = synth_model(shape, operand)->Tuple_0;
                assert forall|i: int| 0 <= i < built.len() implies has_type(
                    #[trigger] built[i],
                    expected->Tuple_0[i],
                    env,
                ) by {
                    let component = ExprModel::Field(Box::new(operand), i as nat);
                    assert(place_type(component, env) == Some(plain(elems[i])));
                    law_synthesized_expression_has_the_output_type(elems[i], component, env);
                }
            },
            TypeModel::Array { elem, len } => {
                law_synthesized_expression_has_the_output_type(*elem, ExprModel::Item, within(env, plain(*elem)));
            },
            TypeModel::Verbatim { text, idents } => {},
        }
    }
}

/// The environment in which the fields of an arm are typed: each bound name
/// has the declared type of its field.
pub open spec fn arm_env(c: Constructor, param: Seq<char>, target: TypeModel) -> TypeEnv {
    TypeEnv {
        slots: Seq::new(c.fields.types.len(), |i: int| plain(c.fields.types[i])),
        item: None,
        param,
        target,
    }
}

/// Type-output correctness, for constructors. Where the parameter stands in
/// supported shapes throughout the fields of a constructor, every field
/// expression of the generated arm has the type that the field is declared
/// with in the definition applied to the new element type: the arm builds a
/// value of the constructor of that type.
pub proof fn law_arm_builds_the_output_type(c: Constructor, param: Seq<char>, target: TypeModel, i: int)
    requires
        0 <= i < c.fields.types.len(),
        supported(c.fields.types[i], param),
    ensures
        has_type(
            arm_model(c, param).fields[i],
            plain(subst(c.fields.types[i], param, target)),
            arm_env(c, param, target),
        ),
{
    law_synthesized_expression_has_the_output_type(
        c.fields.types[i],
        ExprModel::Slot(i as nat),
        arm_env(c, param, target),
    );
}

} // verus!
