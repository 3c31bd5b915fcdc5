//! What a reconstruction expression computes.
//!
//! Values are modelled structurally: scalars, tuples, collections and the
//! marker. An evaluation yields an outcome together with the list of values
//! that the transformation was called on, in the order of the calls, so that
//! the laws can speak of what is and what is not attempted.
//!
//! The map of a container is taken to be what the `Functor` interface
//! promises of it: it visits the values that the container holds in one fixed
//! order, hands each to the element function, stops at the first failure, and
//! puts the results back where the values were, keys untouched.

use vstd::prelude::*;
use crate::expr::{synth_model, ExprModel};
use crate::shape::{touches, ShapeModel};

verus! {

/// A value as the generated code sees it.
pub enum ValueModel {
    /// A value that is not looked into.
    Scalar(u64),
    /// A tuple with its components in order.
    Tuple(Seq<ValueModel>),
    /// An array or a container: the values it holds, in the order in which its
    /// map visits them, and the keys of a keyed container, which no map touches.
    Coll { keys: Seq<ValueModel>, items: Seq<ValueModel> },
    /// The marker value.
    Marker,
}

/// How an evaluation ends.
pub enum Outcome {
    /// With a value.
    Done(ValueModel),
    /// With the error of the first call of the transformation that failed.
    Failed(ValueModel),
    /// Nowhere: the expression does not fit the value it was given.
    Stuck,
}

/// The result of an evaluation: how it ended, and the arguments of the calls of
/// the transformation that were made, in order.
pub struct Run {
    pub outcome: Outcome,
    pub calls: Seq<ValueModel>,
}

/// What an expression can refer to: the fields bound by the enclosing arm, and
/// the element handed to the innermost element function, if there is one.
pub struct Env {
    pub slots: Seq<ValueModel>,
    pub item: Option<ValueModel>,
}

/// A transformation of values. The total transformations are those that never
/// return `Err`.
pub type Transformation = spec_fn(ValueModel) -> Result<ValueModel, ValueModel>;

/// The run that ends with `v` without calling the transformation.
pub open spec fn done(v: ValueModel) -> Run {
    Run { outcome: Outcome::Done(v), calls: Seq::empty() }
}

/// The run that is stuck without having called the transformation.
pub open spec fn stuck() -> Run {
    Run { outcome: Outcome::Stuck, calls: Seq::empty() }
}

/// One call of the transformation on `v`.
pub open spec fn call(f: Transformation, v: ValueModel) -> Run {
    Run {
        outcome: match f(v) {
            Ok(w) => Outcome::Done(w),
            Err(e) => Outcome::Failed(e),
        },
        calls: seq![v],
    }
}

/// `first`, and after it `second`: if `first` did not end with a value,
/// `second` is never started.
pub open spec fn then(first: Run, second: Run) -> Run {
    match first.outcome {
        Outcome::Done(_) => Run { outcome: second.outcome, calls: first.calls + second.calls },
        _ => first,
    }
}

/// The run `init` of a sequence of evaluations, extended by the run `next` of
/// one more: the values are collected in a tuple, and the first evaluation that
/// does not end with a value ends the sequence.
pub open spec fn then_push(init: Run, next: Run) -> Run {
    match init.outcome {
        Outcome::Done(ValueModel::Tuple(vals)) => Run {
            outcome: match next.outcome {
                Outcome::Done(v) => Outcome::Done(ValueModel::Tuple(vals.push(v))),
                other => other,
            },
            calls: init.calls + next.calls,
        },
        _ => init,
    }
}

/// A finished sequence of element evaluations, put back into the collection
/// with the keys `keys`.
pub open spec fn collect(keys: Seq<ValueModel>, elements: Run) -> Run {
    Run {
        outcome: match elements.outcome {
            Outcome::Done(ValueModel::Tuple(outs)) => Outcome::Done(ValueModel::Coll { keys, items: outs }),
            Outcome::Done(_) => Outcome::Stuck,
            other => other,
        },
        calls: elements.calls,
    }
}

/// The run of the expression `expr` in the environment `env` under the
/// transformation `f`.
pub open spec fn eval(expr: ExprModel, env: Env, f: Transformation) -> Run
    decreases expr, 1nat, 0nat,
{
    match expr {
        ExprModel::Slot(i) => if i < env.slots.len() {
            done(env.slots[i as int])
        } else {
            stuck()
        },
        ExprModel::Item => match env.item {
            Some(v) => done(v),
            None => stuck(),
        },
        ExprModel::Field(base, i) => {
            let r = eval(*base, env, f);
            match r.outcome {
                Outcome::Done(ValueModel::Tuple(vals)) => if i < vals.len() {
                    Run { outcome: Outcome::Done(vals[i as int]), calls: r.calls }
                } else {
                    Run { outcome: Outcome::Stuck, calls: r.calls }
                },
                Outcome::Done(_) => Run { outcome: Outcome::Stuck, calls: r.calls },
                _ => r,
            }
        },
        ExprModel::Apply(arg) => {
            let r = eval(*arg, env, f);
            match r.outcome {
                Outcome::Done(v) => then(r, call(f, v)),
                _ => r,
            }
        },
        ExprModel::Tuple(parts) => eval_all(parts, env, f, parts.len()),
        ExprModel::Marker => done(ValueModel::Marker),
        ExprModel::Mapped(source, each) => {
            let r = eval(*source, env, f);
            match r.outcome {
                Outcome::Done(ValueModel::Coll { keys, items }) => then(
                    r,
                    collect(keys, eval_each(*each, env, items, f, items.len())),
                ),
                Outcome::Done(_) => Run { outcome: Outcome::Stuck, calls: r.calls },
                _ => r,
            }
        },
    }
}

/// The run of the first `n` expressions of `exprs`, from left to right.
pub open spec fn eval_all(exprs: Seq<ExprModel>, env: Env, f: Transformation, n: nat) -> Run
    decreases exprs, 0nat, n,
{
    if n == 0 || n > exprs.len() {
        done(ValueModel::Tuple(Seq::empty()))
    } else {
        then_push(eval_all(exprs, env, f, (n - 1) as nat), eval(exprs[n - 1], env, f))
    }
}

/// The run of the element expression `each` on the first `n` values of
/// `items`, in order.
pub open spec fn eval_each(each: ExprModel, env: Env, items: Seq<ValueModel>, f: Transformation, n: nat) -> Run
    decreases each, 2nat, n,
{
    if n == 0 || n > items.len() {
        done(ValueModel::Tuple(Seq::empty()))
    } else {
        then_push(
            eval_each(each, env, items, f, (n - 1) as nat),
            eval(each, Env { slots: env.slots, item: Some(items[n - 1]) }, f),
        )
    }
}

/// Whether `v` is a value of a type of shape `shape`.
pub open spec fn fits(v: ValueModel, shape: ShapeModel) -> bool
    decreases shape,
{
    match shape {
        ShapeModel::Direct => true,
        ShapeModel::Opaque => true,
        ShapeModel::Tuple(parts) => {
            &&& v is Tuple
            &&& v->Tuple_0.len() == parts.len()
            &&& forall|i: int| 0 <= i < parts.len() ==> fits(#[trigger] v->Tuple_0[i], parts[i])
        },
        ShapeModel::Array(elem, len) => {
            &&& v is Coll
            &&& forall|i: int| 0 <= i < v->items.len() ==> fits(#[trigger] v->items[i], *elem)
        },
        ShapeModel::Known(kind, inner) => {
            &&& v is Coll
            &&& forall|i: int| 0 <= i < v->items.len() ==> fits(#[trigger] v->items[i], *inner)
        },
        ShapeModel::Marker => v is Marker,
    }
}

/// The structure-preserving map itself: what becomes of a value `v` of shape
/// `shape` under the transformation `f`.
///
/// The transformation is called on the occurrences of the parameter, from left
/// to right, and on nothing else; the first failure ends the run.
pub open spec fn transform(shape: ShapeModel, v: ValueModel, f: Transformation) -> Run
    decreases shape, 1nat, 0nat,
{
    if !touches(shape) {
        done(v)
    } else {
        match shape {
            ShapeModel::Direct => call(f, v),
            ShapeModel::Opaque => done(v),
            ShapeModel::Tuple(parts) => match v {
                ValueModel::Tuple(vals) => if vals.len() == parts.len() {
                    transform_all(parts, vals, f, parts.len())
                } else {
                    stuck()
                },
                _ => stuck(),
            },
            ShapeModel::Array(elem, len) => match v {
                ValueModel::Coll { keys, items } => collect(keys, transform_each(*elem, items, f, items.len())),
                _ => stuck(),
            },
            ShapeModel::Known(kind, inner) => match v {
                ValueModel::Coll { keys, items } => collect(keys, transform_each(*inner, items, f, items.len())),
                _ => stuck(),
            },
            ShapeModel::Marker => done(ValueModel::Marker),
        }
    }
}

/// The map of the first `n` components of a tuple, each by its own shape.
pub open spec fn transform_all(parts: Seq<ShapeModel>, vals: Seq<ValueModel>, f: Transformation, n: nat) -> Run
    decreases parts, 0nat, n,
{
    if n == 0 || n > parts.len() || n > vals.len() {
        done(ValueModel::Tuple(Seq::empty()))
    } else {
        then_push(transform_all(parts, vals, f, (n - 1) as nat), transform(parts[n - 1], vals[n - 1], f))
    }
}

/// The map of the first `n` values of a collection, all by the shape `elem`.
pub open spec fn transform_each(elem: ShapeModel, items: Seq<ValueModel>, f: Transformation, n: nat) -> Run
    decreases elem, 2nat, n,
{
    if n == 0 || n > items.len() {
        done(ValueModel::Tuple(Seq::empty()))
    } else {
        then_push(transform_each(elem, items, f, (n - 1) as nat), transform(elem, items[n - 1], f))
    }
}

/// The synthesized expression computes the structure-preserving map: wherever
/// `operand` yields a value `v` that fits `shape`, the expression synthesized
/// for `shape` at `operand` runs exactly as the map of `v` does.
pub proof fn lemma_synthesis_computes_the_map(
    shape: ShapeModel,
    operand: ExprModel,
    env: Env,
    f: Transformation,
    v: ValueModel,
)
    requires
        fits(v, shape),
        eval(operand, env, f) == done(v),
    ensures
        eval(synth_model(shape, operand), env, f) == transform(shape, v, f),
    decreases shape, 1nat, 0nat,
{
    if touches(shape) {
        match shape {
            ShapeModel::Direct => {
                assert(Seq::<ValueModel>::empty() + seq![v] =~= seq![v]);
            },
            ShapeModel::Opaque => {},
            ShapeModel::Tuple(parts) => {
                lemma_synthesis_all(parts, operand, env, f, v->Tuple_0, parts.len());
            },
            ShapeModel::Array(elem, len) => {
                let each = synth_model(*elem, ExprModel::Item);
                let items = v->items;
                lemma_synthesis_each(*elem, env, f, items, items.len());
                let inner = collect(v->keys, eval_each(each, env, items, f, items.len()));
                assert(Seq::<ValueModel>::empty() + inner.calls =~= inner.calls);
            },
            ShapeModel::Known(kind, elem) => {
                let each = synth_model(*elem, ExprModel::Item);
                let items = v->items;
                lemma_synthesis_each(*elem, env, f, items, items.len());
                let inner = collect(v->keys, eval_each(each, env, items, f, items.len()));
                assert(Seq::<ValueModel>::empty() + inner.calls =~= inner.calls);
            },
            ShapeModel::Marker => {},
        }
    }
}

/// The components synthesized for a tuple run as the map of its components.
pub proof fn lemma_synthesis_all(
    parts: Seq<ShapeModel>,
    operand: ExprModel,
    env: Env,
    f: Transformation,
    vals: Seq<ValueModel>,
    n: nat,
)
    requires
        n <= parts.len(),
        vals.len() == parts.len(),
        forall|i: int| 0 <= i < parts.len() ==> fits(#[trigger] vals[i], parts[i]),
        eval(operand, env, f) == done(ValueModel::Tuple(vals)),
    ensures
        touches(ShapeModel::Tuple(parts)) ==> {
            let built = synth_model(ShapeModel::Tuple(parts), operand);
            &&& built is Tuple
            &&& built->Tuple_0.len() == parts.len()
            &&& eval_all(built->Tuple_0, env, f, n) == transform_all(parts, vals, f, n)
        },
    decreases parts, 0nat, n,
{
    if touches(ShapeModel::Tuple(parts)) && n > 0 {
        let exprs = synth_model(ShapeModel::Tuple(parts), operand)->Tuple_0;
        lemma_synthesis_all(parts, operand, env, f, vals, (n - 1) as nat);
        let component = ExprModel::Field(Box::new(operand), (n - 1) as nat);
        assert(exprs[n - 1] == synth_model(parts[n - 1], component));
        assert(eval(component, env, f) == done(vals[n - 1]));
        lemma_synthesis_computes_the_map(parts[n - 1], component, env, f, vals[n - 1]);
    }
}

/// The element expression synthesized for a collection runs, element by
/// element, as the map of the elements.
pub proof fn lemma_synthesis_each(
    elem: ShapeModel,
    env: Env,
    f: Transformation,
    items: Seq<ValueModel>,
    n: nat,
)
    requires
        n <= items.len(),
        forall|i: int| 0 <= i < items.len() ==> fits(#[trigger] items[i], elem),
    ensures
        eval_each(synth_model(elem, ExprModel::Item), env, items, f, n) == transform_each(elem, items, f, n),
    decreases elem, 2nat, n,
{
    if n > 0 {
        lemma_synthesis_each(elem, env, f, items, (n - 1) as nat);
        let inner = Env { slots: env.slots, item: Some(items[n - 1]) };
        lemma_synthesis_computes_the_map(elem, ExprModel::Item, inner, f, items[n - 1]);
    }
}

/// Whether `expr` computes the map of shape `shape` of what stands at
/// `operand`: wherever `operand` yields a value that fits the shape, `expr`
/// runs exactly as the map of that value does, under every transformation.
pub open spec fn computes_map(expr: ExprModel, shape: ShapeModel, operand: ExprModel) -> bool {
    forall|env: Env, f: Transformation, v: ValueModel|
        #![trigger eval(operand, env, f), transform(shape, v, f)]
        fits(v, shape) && eval(operand, env, f) == done(v) ==> eval(expr, env, f) == transform(shape, v, f)
}

/// What is synthesized for a shape computes the map of that shape.
pub proof fn lemma_synthesized_computes_map(shape: ShapeModel, operand: ExprModel)
    ensures
        computes_map(synth_model(shape, operand), shape, operand),
{
    assert forall|env: Env, f: Transformation, v: ValueModel|
        #![trigger eval(operand, env, f), transform(shape, v, f)]
        fits(v, shape) && eval(operand, env, f) == done(v) implies eval(synth_model(shape, operand), env, f)
        == transform(shape, v, f) by {
        lemma_synthesis_computes_the_map(shape, operand, env, f, v);
    }
}

} // verus!
