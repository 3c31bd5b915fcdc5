//! The shape analyzer: how, if at all, the target parameter occurs in a
//! declared type.

use vstd::prelude::*;
use crate::registry::{
    entry_views, find, is_marker_name, lookup_model, marker_name, standard, table, ContainerKind, Entry,
};
use crate::ty::{is_param, mentions, type_views, TypeExpr, TypeModel};

verus! {

/// How the target parameter occurs in a type.
#[derive(Debug, PartialEq, Eq)]
pub enum TypeShape {
    /// The type is the parameter itself.
    Direct,
    /// Nothing in the type is transformed: a value of it is passed through.
    Opaque,
    /// A tuple, with the shape of each component.
    Tuple(Vec<TypeShape>),
    /// A fixed-size array, with the shape of its elements and its length as written.
    Array(Box<TypeShape>, String),
    /// A known container, with the shape of the values it holds.
    Known(ContainerKind, Box<TypeShape>),
    /// The marker type over the parameter: no value of the parameter is held.
    Marker,
}

/// The mathematical model of a [`TypeShape`].
pub enum ShapeModel {
    Direct,
    Opaque,
    Tuple(Seq<ShapeModel>),
    Array(Box<ShapeModel>, Seq<char>),
    Known(ContainerKind, Box<ShapeModel>),
    Marker,
}

/// The model of a shape.
pub open spec fn shape_view(shape: TypeShape) -> ShapeModel
    decreases shape,
{
    match shape {
        TypeShape::Direct => ShapeModel::Direct,
        TypeShape::Opaque => ShapeModel::Opaque,
        TypeShape::Tuple(parts) => ShapeModel::Tuple(
            Seq::new(
                parts.len() as nat,
                |i: int|
                    if 0 <= i < parts.len() {
                        shape_view(parts[i])
                    } else {
                        ShapeModel::Opaque
                    },
            ),
        ),
        TypeShape::Array(elem, len) => ShapeModel::Array(Box::new(shape_view(*elem)), len@),
        TypeShape::Known(kind, inner) => ShapeModel::Known(kind, Box::new(shape_view(*inner))),
        TypeShape::Marker => ShapeModel::Marker,
    }
}

impl View for TypeShape {
    type V = ShapeModel;

    open spec fn view(&self) -> ShapeModel {
        shape_view(*self)
    }
}

/// Whether an argument other than the one at `mapped` mentions `param`.
pub open spec fn others_mention(args: Seq<TypeModel>, mapped: nat, param: Seq<char>) -> bool {
    exists|j: int| 0 <= j < args.len() && j != mapped && mentions(#[trigger] args[j], param)
}

/// The shape of `ty` with respect to the parameter `param`.
///
/// Parentheses are transparent. A known container whose other arguments (the
/// keys of a keyed container) mention the parameter is opaque, and so is every
/// type in which the parameter occurs in a way that is not recognised.
pub open spec fn classify_model(ty: TypeModel, param: Seq<char>) -> ShapeModel
    decreases ty,
{
    match ty {
        TypeModel::Path { leading, name, args } => {
            if is_param(ty, param) {
                ShapeModel::Direct
            } else {
                match lookup_model(name, args.len()) {
                    Some(entry) => if entry.mapped < args.len() && !others_mention(args, entry.mapped, param) {
                        ShapeModel::Known(entry.kind, Box::new(classify_model(args[entry.mapped as int], param)))
                    } else {
                        ShapeModel::Opaque
                    },
                    None => if name == marker_name() && args.len() == 1 && classify_model(args[0], param)
                        is Direct {
                        ShapeModel::Marker
                    } else {
                        ShapeModel::Opaque
                    },
                }
            }
        },
        TypeModel::Paren(inner) => classify_model(*inner, param),
        TypeModel::Tuple(elems) => ShapeModel::Tuple(
            Seq::new(
                elems.len(),
                |i: int|
                    if 0 <= i < elems.len() {
                        classify_model(elems[i], param)
                    } else {
                        ShapeModel::Opaque
                    },
            ),
        ),
        TypeModel::Array { elem, len } => ShapeModel::Array(Box::new(classify_model(*elem, param)), len),
        TypeModel::Verbatim { text, idents } => ShapeModel::Opaque,
    }
}

/// Whether a value of this shape is rebuilt: whether the shape holds an
/// occurrence of the parameter or a marker over it.
pub open spec fn touches(shape: ShapeModel) -> bool
    decreases shape,
{
    match shape {
        ShapeModel::Direct => true,
        ShapeModel::Opaque => false,
        ShapeModel::Tuple(parts) => exists|i: int| 0 <= i < parts.len() && touches(#[trigger] parts[i]),
        ShapeModel::Array(elem, len) => touches(*elem),
        ShapeModel::Known(kind, inner) => touches(*inner),
        ShapeModel::Marker => true,
    }
}

/// A type that does not mention the parameter has a shape that touches nothing.
pub proof fn lemma_untouched_without_mention(ty: TypeModel, param: Seq<char>)
    requires
        !mentions(ty, param),
    ensures
        !touches(classify_model(ty, param)),
    decreases ty,
{
    match ty {
        TypeModel::Path { leading, name, args } => {
            match lookup_model(name, args.len()) {
                Some(entry) => {
                    if entry.mapped < args.len() {
                        assert(!mentions(args[entry.mapped as int], param));
                        lemma_untouched_without_mention(args[entry.mapped as int], param);
                    }
                },
                None => {
                    if args.len() == 1 {
                        assert(!mentions(args[0], param));
                        lemma_untouched_without_mention(args[0], param);
                    }
                },
            }
        },
        TypeModel::Paren(inner) => {
            lemma_untouched_without_mention(*inner, param);
        },
        TypeModel::Tuple(elems) => {
            let parts = classify_model(ty, param)->Tuple_0;
            assert forall|i: int| 0 <= i < parts.len() implies !touches(#[trigger] parts[i]) by {
                assert(!mentions(elems[i], param));
                lemma_untouched_without_mention(elems[i], param);
            }
        },
        TypeModel::Array { elem, len } => {
            lemma_untouched_without_mention(*elem, param);
        },
        TypeModel::Verbatim { text, idents } => {},
    }
}

impl TypeShape {
    /// Whether a value of this shape is rebuilt.
    pub fn touches(&self) -> (out: bool)
        ensures
            out == touches(self@),
        decreases self,
    {
        match self {
            TypeShape::Direct => true,
            TypeShape::Opaque => false,
            TypeShape::Tuple(parts) => {
                let mut i: usize = 0;
                while i < parts.len()
                    invariant
                        i <= parts.len(),
                        self matches TypeShape::Tuple(p) && p == *parts,
                        forall|j: int| 0 <= j < i ==> !touches(parts[j]@),
                    decreases parts.len() - i,
                {
                    assert(decreases_to!(*self => self->Tuple_0));
                    if parts[i].touches() {
                        assert(self@->Tuple_0[i as int] == parts[i as int]@);
                        return true;
                    }
                    i = i + 1;
                }
                assert forall|j: int| 0 <= j < self@->Tuple_0.len() implies !touches(
                    #[trigger] self@->Tuple_0[j],
                ) by {
                    assert(self@->Tuple_0[j] == parts[j]@);
                }
                false
            },
            TypeShape::Array(elem, len) => elem.touches(),
            TypeShape::Known(kind, inner) => inner.touches(),
            TypeShape::Marker => true,
        }
    }
}

/// Whether an argument of `args` other than the one at `mapped` mentions `param`.
pub(crate) fn any_other_mentions(args: &Vec<TypeExpr>, mapped: usize, param: &String) -> (out: bool)
    ensures
        out == others_mention(type_views(*args), mapped as nat, param@),
{
    let ghost models = type_views(*args);
    let mut j: usize = 0;
    while j < args.len()
        invariant
            j <= args.len(),
            models == type_views(*args),
            forall|k: int| 0 <= k < j && k != mapped ==> !mentions(models[k], param@),
        decreases args.len() - j,
    {
        if j != mapped && args[j].mentions(param) {
            assert(mentions(models[j as int], param@));
            return true;
        }
        j = j + 1;
    }
    false
}

fn classify_with(ty: &TypeExpr, param: &String, rows: &Vec<Entry>) -> (out: TypeShape)
    requires
        entry_views(*rows) == table(),
    ensures
        out@ == classify_model(ty@, param@),
    decreases ty,
{
    match ty {
        TypeExpr::Path { leading, name, args } => {
            if ty.is_param(param) {
                return TypeShape::Direct;
            }
            assert(ty@->Path_args =~= type_views(*args));
            assert(decreases_to!(*ty => ty->Path_args));
            match find(rows, name, args.len()) {
                Some((kind, mapped)) => {
                    if any_other_mentions(args, mapped, param) {
                        TypeShape::Opaque
                    } else {
                        TypeShape::Known(kind, Box::new(classify_with(&args[mapped], param, rows)))
                    }
                },
                None => {
                    if is_marker_name(name) && args.len() == 1 {
                        match classify_with(&args[0], param, rows) {
                            TypeShape::Direct => TypeShape::Marker,
                            _ => TypeShape::Opaque,
                        }
                    } else {
                        TypeShape::Opaque
                    }
                },
            }
        },
        TypeExpr::Paren(inner) => classify_with(inner, param, rows),
        TypeExpr::Tuple(elems) => {
            let mut parts: Vec<TypeShape> = Vec::new();
            let mut i: usize = 0;
            while i < elems.len()
                invariant
                    i <= elems.len(),
                    ty matches TypeExpr::Tuple(e) && e == *elems,
                    entry_views(*rows) == table(),
                    parts.len() == i,
                    forall|j: int| 0 <= j < i ==> parts[j]@ == classify_model(elems[j]@, param@),
                decreases elems.len() - i,
            {
                assert(decreases_to!(*ty => ty->Tuple_0));
                parts.push(classify_with(&elems[i], param, rows));
                i = i + 1;
            }
            let out = TypeShape::Tuple(parts);
            assert(out@->Tuple_0 =~= classify_model(ty@, param@)->Tuple_0);
            out
        },
        TypeExpr::Array { elem, len } => TypeShape::Array(Box::new(classify_with(elem, param, rows)), len.clone()),
        TypeExpr::Verbatim { text, idents } => TypeShape::Opaque,
    }
}

/// Classifies the declared type `ty` against the parameter `param`.
///
/// Classification is purely syntactic and total: every type has exactly one
/// shape, and the same written type always has the same shape.
pub fn classify(ty: &TypeExpr, param: &String) -> (out: TypeShape)
    ensures
        out@ == classify_model(ty@, param@),
        !mentions(ty@, param@) ==> !touches(out@),
{
    proof {
        if !mentions(ty@, param@) {
            lemma_untouched_without_mention(ty@, param@);
        }
    }
    let rows = standard();
    classify_with(ty, param, &rows)
}

} // verus!
