//! The expression synthesizer: from the shape of a field to the expression
//! that rebuilds the field with the transformation applied at every
//! occurrence of the parameter.

use vstd::prelude::*;
use vstd::string::*;
use crate::meaning::{computes_map, lemma_synthesized_computes_map};
use crate::shape::{touches, ShapeModel, TypeShape};
use crate::text::{decimal, decimal_text, join, joined, texts};

verus! {

/// A reconstruction expression.
///
/// The same expression serves both modes of generation; only its rendering
/// differs (see [`expr_text`]).
#[derive(Debug, PartialEq, Eq)]
pub enum Expr {
    /// The field at this position of the value being rebuilt, as bound by the
    /// pattern of the enclosing arm.
    Slot(usize),
    /// The value handed to the innermost enclosing element function.
    Item,
    /// A component of a tuple, by position.
    Field(Box<Expr>, usize),
    /// The transformation applied to a value.
    Apply(Box<Expr>),
    /// A tuple built from its components, in order.
    Tuple(Vec<Expr>),
    /// The marker value for the new parameter.
    Marker,
    /// The structure-preserving map of a container or array: the second
    /// expression rebuilds one element, which it reaches as [`Expr::Item`].
    Mapped(Box<Expr>, Box<Expr>),
}

/// The mathematical model of an [`Expr`].
pub enum ExprModel {
    Slot(nat),
    Item,
    Field(Box<ExprModel>, nat),
    Apply(Box<ExprModel>),
    Tuple(Seq<ExprModel>),
    Marker,
    Mapped(Box<ExprModel>, Box<ExprModel>),
}

/// The model of an expression.
pub open spec fn expr_view(expr: Expr) -> ExprModel
    decreases expr,
{
    match expr {
        Expr::Slot(i) => ExprModel::Slot(i as nat),
        Expr::Item => ExprModel::Item,
        Expr::Field(base, i) => ExprModel::Field(Box::new(expr_view(*base)), i as nat),
        Expr::Apply(arg) => ExprModel::Apply(Box::new(expr_view(*arg))),
        Expr::Tuple(parts) => ExprModel::Tuple(
            Seq::new(
                parts.len() as nat,
                |i: int|
                    if 0 <= i < parts.len() {
                        expr_view(parts[i])
                    } else {
                        ExprModel::Marker
                    },
            ),
        ),
        Expr::Marker => ExprModel::Marker,
        Expr::Mapped(source, each) => ExprModel::Mapped(Box::new(expr_view(*source)), Box::new(expr_view(*each))),
    }
}

impl View for Expr {
    type V = ExprModel;

    open spec fn view(&self) -> ExprModel {
        expr_view(*self)
    }
}

/// The models of a list of expressions.
pub open spec fn expr_views(items: Vec<Expr>) -> Seq<ExprModel> {
    Seq::new(items.len() as nat, |i: int| items[i]@)
}

/// The expression that rebuilds a value of shape `shape` found at `operand`.
///
/// A shape that touches nothing is passed through as it is. Otherwise the
/// expression mirrors the shape: the transformation is applied where the
/// parameter stands, a tuple is rebuilt component by component in its order,
/// and an array or container is mapped with the expression of its elements.
pub open spec fn synth_model(shape: ShapeModel, operand: ExprModel) -> ExprModel
    decreases shape,
{
    if !touches(shape) {
        operand
    } else {
        match shape {
            ShapeModel::Direct => ExprModel::Apply(Box::new(operand)),
            ShapeModel::Opaque => operand,
            ShapeModel::Tuple(parts) => ExprModel::Tuple(
                Seq::new(
                    parts.len(),
                    |i: int|
                        if 0 <= i < parts.len() {
                            synth_model(parts[i], ExprModel::Field(Box::new(operand), i as nat))
                        } else {
                            ExprModel::Marker
                        },
                ),
            ),
            ShapeModel::Array(elem, len) => ExprModel::Mapped(
                Box::new(operand),
                Box::new(synth_model(*elem, ExprModel::Item)),
            ),
            ShapeModel::Known(kind, inner) => ExprModel::Mapped(
                Box::new(operand),
                Box::new(synth_model(*inner, ExprModel::Item)),
            ),
            ShapeModel::Marker => ExprModel::Marker,
        }
    }
}

/// The texts of the expressions of a list, in order.
pub open spec fn expr_texts(items: Seq<ExprModel>, fallible: bool) -> Seq<Seq<char>>
    decreases items, 0nat,
{
    Seq::new(
        items.len(),
        |i: int|
            if 0 <= i < items.len() {
                expr_text(items[i], fallible)
            } else {
                Seq::empty()
            },
    )
}

/// The source text of an expression.
///
/// In the total mode the transformation `__f` returns the new value. In the
/// fallible mode it returns a `Result`, and every application is followed by
/// `?`, so that the first failure leaves the enclosing function or element
/// function at once.
pub open spec fn expr_text(expr: ExprModel, fallible: bool) -> Seq<char>
    decreases expr, 1nat,
{
    match expr {
        ExprModel::Slot(i) => "__"@ + decimal_text(i),
        ExprModel::Item => "__v"@,
        ExprModel::Field(base, i) => expr_text(*base, fallible) + "."@ + decimal_text(i),
        ExprModel::Apply(arg) => if fallible {
            "__f("@ + expr_text(*arg, fallible) + ")?"@
        } else {
            "__f("@ + expr_text(*arg, fallible) + ")"@
        },
        ExprModel::Tuple(parts) => if parts.len() == 1 {
            "("@ + expr_text(parts[0], fallible) + ",)"@
        } else {
            "("@ + joined(expr_texts(parts, fallible), ", "@) + ")"@
        },
        ExprModel::Marker => "::core::marker::PhantomData"@,
        ExprModel::Mapped(source, each) => if fallible {
            "::functor_derive::Functor::try_fmap_ref("@ + expr_text(*source, fallible)
                + ", &|__v| ::core::result::Result::<_, __E>::Ok("@ + expr_text(*each, fallible) + "))?"@
        } else {
            "::functor_derive::Functor::fmap_ref("@ + expr_text(*source, fallible) + ", &|__v| "@ + expr_text(
                *each,
                fallible,
            ) + ")"@
        },
    }
}

impl Expr {
    /// A deep copy.
    pub fn duplicate(&self) -> (out: Expr)
        ensures
            out@ == self@,
        decreases self,
    {
        match self {
            Expr::Slot(i) => Expr::Slot(*i),
            Expr::Item => Expr::Item,
            Expr::Field(base, i) => Expr::Field(Box::new(base.duplicate()), *i),
            Expr::Apply(arg) => Expr::Apply(Box::new(arg.duplicate())),
            Expr::Tuple(parts) => {
                let mut copies: Vec<Expr> = Vec::new();
                let mut i: usize = 0;
                while i < parts.len()
                    invariant
                        i <= parts.len(),
                        self matches Expr::Tuple(p) && p == *parts,
                        copies.len() == i,
                        forall|j: int| 0 <= j < i ==> copies[j]@ == parts[j]@,
                    decreases parts.len() - i,
                {
                    assert(decreases_to!(*self => self->Tuple_0));
                    copies.push(parts[i].duplicate());
                    i = i + 1;
                }
                let out = Expr::Tuple(copies);
                assert(out@->Tuple_0 =~= self@->Tuple_0);
                out
            },
            Expr::Marker => Expr::Marker,
            Expr::Mapped(source, each) => Expr::Mapped(Box::new(source.duplicate()), Box::new(each.duplicate())),
        }
    }

    /// The source text of this expression, in the total or the fallible mode.
    pub fn render(&self, fallible: bool) -> (out: String)
        ensures
            out@ == expr_text(self@, fallible),
        decreases self,
    {
        match self {
            Expr::Slot(i) => {
                let mut out = String::from_str("__");
                out.append(decimal(*i).as_str());
                out
            },
            Expr::Item => String::from_str("__v"),
            Expr::Field(base, i) => {
                let mut out = base.render(fallible);
                out.append(".");
                out.append(decimal(*i).as_str());
                out
            },
            Expr::Apply(arg) => {
                let mut out = String::from_str("__f(");
                out.append(arg.render(fallible).as_str());
                if fallible {
                    out.append(")?");
                } else {
                    out.append(")");
                }
                out
            },
            Expr::Tuple(parts) => {
                let mut pieces: Vec<String> = Vec::new();
                let mut i: usize = 0;
                while i < parts.len()
                    invariant
                        i <= parts.len(),
                        self matches Expr::Tuple(p) && p == *parts,
                        pieces.len() == i,
                        forall|j: int| 0 <= j < i ==> pieces[j]@ == expr_text(parts[j]@, fallible),
                    decreases parts.len() - i,
                {
                    assert(decreases_to!(*self => self->Tuple_0));
                    pieces.push(parts[i].render(fallible));
                    i = i + 1;
                }
                assert(texts(pieces) =~= expr_texts(self@->Tuple_0, fallible));
                let mut out = String::from_str("(");
                if parts.len() == 1 {
                    out.append(pieces[0].as_str());
                    out.append(",)");
                } else {
                    out.append(join(&pieces, ", ").as_str());
                    out.append(")");
                }
                out
            },
            Expr::Marker => String::from_str("::core::marker::PhantomData"),
            Expr::Mapped(source, each) => {
                if fallible {
                    let mut out = String::from_str("::functor_derive::Functor::try_fmap_ref(");
                    out.append(source.render(fallible).as_str());
                    out.append(", &|__v| ::core::result::Result::<_, __E>::Ok(");
                    out.append(each.render(fallible).as_str());
                    out.append("))?");
                    out
                } else {
                    let mut out = String::from_str("::functor_derive::Functor::fmap_ref(");
                    out.append(source.render(fallible).as_str());
                    out.append(", &|__v| ");
                    out.append(each.render(fallible).as_str());
                    out.append(")");
                    out
                }
            },
        }
    }
}

/// Synthesizes the expression that rebuilds a value of shape `shape` found at
/// `operand`.
///
/// The expression has the form that [`synth_model`] gives, and it computes the
/// map of the shape: evaluated where `operand` yields a value that fits
/// `shape`, it runs as [`transform`](crate::meaning::transform) of that value does.
pub fn synthesize(shape: &TypeShape, operand: Expr) -> (out: Expr)
    ensures
        out@ == synth_model(shape@, operand@),
        computes_map(out@, shape@, operand@),
    decreases shape,
{
    proof {
        lemma_synthesized_computes_map(shape@, operand@);
    }
    if !shape.touches() {
        return operand;
    }
    match shape {
        TypeShape::Direct => Expr::Apply(Box::new(operand)),
        TypeShape::Opaque => operand,
        TypeShape::Tuple(parts) => {
            let mut built: Vec<Expr> = Vec::new();
            let mut i: usize = 0;
            while i < parts.len()
                invariant
                    i <= parts.len(),
                    shape matches TypeShape::Tuple(p) && p == *parts,
                    built.len() == i,
                    forall|j: int|
                        0 <= j < i ==> built[j]@ == synth_model(
                            parts[j]@,
                            ExprModel::Field(Box::new(operand@), j as nat),
                        ),
                decreases parts.len() - i,
            {
                assert(decreases_to!(*shape => shape->Tuple_0));
                let component = Expr::Field(Box::new(operand.duplicate()), i);
                built.push(synthesize(&parts[i], component));
                i = i + 1;
            }
            let out = Expr::Tuple(built);
            assert(out@->Tuple_0 =~= synth_model(shape@, operand@)->Tuple_0);
            out
        },
        TypeShape::Array(elem, len) => Expr::Mapped(Box::new(operand), Box::new(synthesize(elem, Expr::Item))),
        TypeShape::Known(kind, inner) => Expr::Mapped(Box::new(operand), Box::new(synthesize(inner, Expr::Item))),
        TypeShape::Marker => Expr::Marker,
    }
}

} // verus!
