//! Laws of the structure-preserving map: what it calls the transformation on,
//! where it stops, and what it leaves alone.

use vstd::prelude::*;
use crate::body::{
    body_model, field_shapes, lemma_body_computes_the_map, map_subject, run_body, subject_fits, SubjectModel,
};
use crate::definition::{constructors, Constructor, DataModel};
use crate::expr::{synth_model, ExprModel};
use crate::meaning::{
    done, fits, transform, transform_all, transform_each, Outcome, Run, Transformation, ValueModel,
};
use crate::shape::{classify_model, lemma_untouched_without_mention, touches, ShapeModel};
use crate::ty::{mentions, TypeModel};

verus! {

/// The occurrences of the parameter in a value `v` of shape `shape`, from left
/// to right.
pub open spec fn occurrences(shape: ShapeModel, v: ValueModel) -> Seq<ValueModel>
    decreases shape, 1nat, 0nat,
{
    if !touches(shape) {
        Seq::empty()
    } else {
        match shape {
            ShapeModel::Direct => seq![v],
            ShapeModel::Opaque => Seq::empty(),
            ShapeModel::Tuple(parts) => match v {
                ValueModel::Tuple(vals) => if vals.len() == parts.len() {
                    occurrences_all(parts, vals, parts.len())
                } else {
                    Seq::empty()
                },
                _ => Seq::empty(),
            },
            ShapeModel::Array(elem, len) => match v {
                ValueModel::Coll { keys, items } => occurrences_each(*elem, items, items.len()),
                _ => Seq::empty(),
            },
            ShapeModel::Known(kind, inner) => match v {
                ValueModel::Coll { keys, items } => occurrences_each(*inner, items, items.len()),
                _ => Seq::empty(),
            },
            ShapeModel::Marker => Seq::empty(),
        }
    }
}

/// The occurrences in the first `n` components of a tuple.
pub open spec fn occurrences_all(parts: Seq<ShapeModel>, vals: Seq<ValueModel>, n: nat) -> Seq<ValueModel>
    decreases parts, 0nat, n,
{
    if n == 0 || n > parts.len() || n > vals.len() {
        Seq::empty()
    } else {
        occurrences_all(parts, vals, (n - 1) as nat) + occurrences(parts[n - 1], vals[n - 1])
    }
}

/// The occurrences in the first `n` values of a collection.
pub open spec fn occurrences_each(elem: ShapeModel, items: Seq<ValueModel>, n: nat) -> Seq<ValueModel>
    decreases elem, 2nat, n,
{
    if n == 0 || n > items.len() {
        Seq::empty()
    } else {
        occurrences_each(elem, items, (n - 1) as nat) + occurrences(elem, items[n - 1])
    }
}

/// What was tried: the arguments of the calls made, and the error of the call
/// that failed, if one did.
pub struct Attempt {
    pub calls: Seq<ValueModel>,
    pub failure: Option<ValueModel>,
}

/// What is tried when the transformation is applied to the first `n` of the
/// values `occ` in order, stopping after the first failure.
pub open spec fn attempt(occ: Seq<ValueModel>, f: Transformation, n: nat) -> Attempt
    decreases n,
{
    if n == 0 || n > occ.len() {
        Attempt { calls: Seq::empty(), failure: None }
    } else {
        let before = attempt(occ, f, (n - 1) as nat);
        if before.failure is Some {
            before
        } else {
            Attempt {
                calls: before.calls.push(occ[n - 1]),
                failure: match f(occ[n - 1]) {
                    Ok(_) => None,
                    Err(e) => Some(e),
                },
            }
        }
    }
}

/// What was tried in a run.
pub open spec fn attempt_of(run: Run) -> Attempt {
    Attempt {
        calls: run.calls,
        failure: match run.outcome {
            Outcome::Failed(e) => Some(e),
            _ => None,
        },
    }
}

/// One attempt after another: the second is made only if the first did not
/// fail.
pub open spec fn attempt_then(first: Attempt, second: Attempt) -> Attempt {
    if first.failure is Some {
        first
    } else {
        Attempt { calls: first.calls + second.calls, failure: second.failure }
    }
}

/// The transformation that returns its argument.
pub open spec fn identity() -> Transformation {
    |v: ValueModel| Ok::<ValueModel, ValueModel>(v)
}

proof fn lemma_attempt_prefix(a: Seq<ValueModel>, b: Seq<ValueModel>, f: Transformation, n: nat)
    requires
        n <= a.len(),
    ensures
        attempt(a + b, f, n) == attempt(a, f, n),
    decreases n,
{
    if n > 0 {
        lemma_attempt_prefix(a, b, f, (n - 1) as nat);
    }
}

proof fn lemma_attempt_concat(a: Seq<ValueModel>, b: Seq<ValueModel>, f: Transformation, m: nat)
    requires
        m <= b.len(),
    ensures
        attempt(a + b, f, a.len() + m) == attempt_then(attempt(a, f, a.len()), attempt(b, f, m)),
    decreases m,
{
    if m == 0 {
        lemma_attempt_prefix(a, b, f, a.len());
        assert(attempt(a, f, a.len()).calls + Seq::<ValueModel>::empty() =~= attempt(a, f, a.len()).calls);
    } else {
        lemma_attempt_concat(a, b, f, (m - 1) as nat);
        let first = attempt(a, f, a.len());
        let before = attempt(b, f, (m - 1) as nat);
        assert((a + b)[a.len() + m - 1] == b[m - 1]);
        if first.failure is None && before.failure is None {
            assert((first.calls + before.calls).push(b[m - 1]) =~= first.calls + before.calls.push(b[m - 1]));
        }
    }
}

/// What the map tries on a value is what is tried on the list of the value's
/// occurrences, taken from left to right; and a value that fits its shape never
/// leaves the map stuck.
pub proof fn lemma_map_tries_the_occurrences(shape: ShapeModel, v: ValueModel, f: Transformation)
    requires
        fits(v, shape),
    ensures
        attempt_of(transform(shape, v, f)) == attempt(
            occurrences(shape, v),
            f,
            occurrences(shape, v).len(),
        ),
        !(transform(shape, v, f).outcome is Stuck),
    decreases shape, 1nat, 0nat,
{
    if touches(shape) {
        match shape {
            ShapeModel::Direct => {
                let occ = seq![v];
                assert(attempt(occ, f, 0).failure is None);
                assert(attempt(occ, f, 1).calls =~= seq![v]);
            },
            ShapeModel::Opaque => {},
            ShapeModel::Tuple(parts) => {
                lemma_tries_all(parts, v->Tuple_0, f, parts.len());
            },
            ShapeModel::Array(elem, len) => {
                lemma_tries_each(*elem, v->items, f, v->items.len());
            },
            ShapeModel::Known(kind, inner) => {
                lemma_tries_each(*inner, v->items, f, v->items.len());
            },
            ShapeModel::Marker => {},
        }
    }
}

proof fn lemma_tries_all(parts: Seq<ShapeModel>, vals: Seq<ValueModel>, f: Transformation, n: nat)
    requires
        n <= parts.len(),
        vals.len() == parts.len(),
        forall|i: int| 0 <= i < parts.len() ==> fits(#[trigger] vals[i], parts[i]),
    ensures
        ({
            let r = transform_all(parts, vals, f, n);
            let occ = occurrences_all(parts, vals, n);
            &&& attempt_of(r) == attempt(occ, f, occ.len())
            &&& r.outcome is Failed || (r.outcome matches Outcome::Done(ValueModel::Tuple(outs)) && outs.len()
                == n)
        }),
    decreases parts, 0nat, n,
{
    if n > 0 {
        lemma_tries_all(parts, vals, f, (n - 1) as nat);
        lemma_map_tries_the_occurrences(parts[n - 1], vals[n - 1], f);
        lemma_attempt_concat(
            occurrences_all(parts, vals, (n - 1) as nat),
            occurrences(parts[n - 1], vals[n - 1]),
            f,
            occurrences(parts[n - 1], vals[n - 1]).len(),
        );
    }
}

proof fn lemma_tries_each(elem: ShapeModel, items: Seq<ValueModel>, f: Transformation, n: nat)
    requires
        n <= items.len(),
        forall|i: int| 0 <= i < items.len() ==> fits(#[trigger] items[i], elem),
    ensures
        ({
            let r = transform_each(elem, items, f, n);
            let occ = occurrences_each(elem, items, n);
            &&& attempt_of(r) == attempt(occ, f, occ.len())
            &&& r.outcome is Failed || (r.outcome matches Outcome::Done(ValueModel::Tuple(outs)) && outs.len()
                == n)
        }),
    decreases elem, 2nat, n,
{
    if n > 0 {
        lemma_tries_each(elem, items, f, (n - 1) as nat);
        lemma_map_tries_the_occurrences(elem, items[n - 1], f);
        lemma_attempt_concat(
            occurrences_each(elem, items, (n - 1) as nat),
            occurrences(elem, items[n - 1]),
            f,
            occurrences(elem, items[n - 1]).len(),
        );
    }
}

proof fn lemma_attempt_until_failure(occ: Seq<ValueModel>, f: Transformation, k: int, n: nat)
    requires
        0 <= k < occ.len(),
        n <= occ.len(),
        forall|j: int| 0 <= j < k ==> f(#[trigger] occ[j]) is Ok,
        f(occ[k]) is Err,
    ensures
        n <= k ==> attempt(occ, f, n) == (Attempt { calls: occ.take(n as int), failure: None }),
        n > k ==> attempt(occ, f, n) == (Attempt { calls: occ.take(k + 1), failure: Some(f(occ[k])->Err_0) }),
    decreases n,
{
    if n > 0 {
        lemma_attempt_until_failure(occ, f, k, (n - 1) as nat);
        if n <= k + 1 {
            assert(occ.take(n - 1).push(occ[n - 1]) =~= occ.take(n as int));
        }
    } else {
        assert(occ.take(0) =~= Seq::<ValueModel>::empty());
    }
}

proof fn lemma_attempt_without_failure(occ: Seq<ValueModel>, f: Transformation, n: nat)
    requires
        n <= occ.len(),
        forall|j: int| 0 <= j < occ.len() ==> f(#[trigger] occ[j]) is Ok,
    ensures
        attempt(occ, f, n) == (Attempt { calls: occ.take(n as int), failure: None }),
    decreases n,
{
    if n > 0 {
        lemma_attempt_without_failure(occ, f, (n - 1) as nat);
        assert(occ.take(n - 1).push(occ[n - 1]) =~= occ.take(n as int));
    } else {
        assert(occ.take(0) =~= Seq::<ValueModel>::empty());
    }
}

/// Short circuit. If the transformation fails on the occurrence at position
/// `k` of a value and on none before it, the map of the value fails with that
/// error, and the transformation has been called on the occurrences up to and
/// including that one, in order, and on nothing after it.
pub proof fn law_first_failure_ends_the_map(shape: ShapeModel, v: ValueModel, f: Transformation, k: int)
    requires
        fits(v, shape),
        0 <= k < occurrences(shape, v).len(),
        forall|j: int| 0 <= j < k ==> f(#[trigger] occurrences(shape, v)[j]) is Ok,
        f(occurrences(shape, v)[k]) is Err,
    ensures
        transform(shape, v, f).outcome == Outcome::Failed(f(occurrences(shape, v)[k])->Err_0),
        transform(shape, v, f).calls == occurrences(shape, v).take(k + 1),
{
    let occ = occurrences(shape, v);
    lemma_map_tries_the_occurrences(shape, v, f);
    lemma_attempt_until_failure(occ, f, k, occ.len());
}

/// A transformation that fails on no occurrence of a value is called on every
/// occurrence, once and in order, and the map ends with a value.
pub proof fn law_map_succeeds_where_every_call_does(shape: ShapeModel, v: ValueModel, f: Transformation)
    requires
        fits(v, shape),
        forall|j: int| 0 <= j < occurrences(shape, v).len() ==> f(#[trigger] occurrences(shape, v)[j]) is Ok,
    ensures
        transform(shape, v, f).outcome is Done,
        transform(shape, v, f).calls == occurrences(shape, v),
{
    let occ = occurrences(shape, v);
    lemma_map_tries_the_occurrences(shape, v, f);
    lemma_attempt_without_failure(occ, f, occ.len());
    assert(occ.take(occ.len() as int) =~= occ);
}

/// Identity. Under the transformation that returns its argument, the map of a
/// value that fits its shape is that value.
pub proof fn law_identity_maps_to_itself(shape: ShapeModel, v: ValueModel)
    requires
        fits(v, shape),
    ensures
        transform(shape, v, identity()).outcome == Outcome::Done(v),
    decreases shape, 1nat, 0nat,
{
    if touches(shape) {
        match shape {
            ShapeModel::Direct => {},
            ShapeModel::Opaque => {},
            ShapeModel::Tuple(parts) => {
                let vals = v->Tuple_0;
                lemma_identity_all(parts, vals, parts.len());
                assert(vals.take(parts.len() as int) =~= vals);
            },
            ShapeModel::Array(elem, len) => {
                let items = v->items;
                lemma_identity_each(*elem, items, items.len());
                assert(items.take(items.len() as int) =~= items);
            },
            ShapeModel::Known(kind, inner) => {
                let items = v->items;
                lemma_identity_each(*inner, items, items.len());
                assert(items.take(items.len() as int) =~= items);
            },
            ShapeModel::Marker => {},
        }
    }
}

proof fn lemma_identity_all(parts: Seq<ShapeModel>, vals: Seq<ValueModel>, n: nat)
    requires
        n <= parts.len(),
        vals.len() == parts.len(),
        forall|i: int| 0 <= i < parts.len() ==> fits(#[trigger] vals[i], parts[i]),
    ensures
        transform_all(parts, vals, identity(), n).outcome == Outcome::Done(ValueModel::Tuple(vals.take(n as int))),
    decreases parts, 0nat, n,
{
    if n > 0 {
        lemma_identity_all(parts, vals, (n - 1) as nat);
        law_identity_maps_to_itself(parts[n - 1], vals[n - 1]);
        assert(vals.take(n - 1).push(vals[n - 1]) =~= vals.take(n as int));
    } else {
        assert(vals.take(0) =~= Seq::<ValueModel>::empty());
    }
}

proof fn lemma_identity_each(elem: ShapeModel, items: Seq<ValueModel>, n: nat)
    requires
        n <= items.len(),
        forall|i: int| 0 <= i < items.len() ==> fits(#[trigger] items[i], elem),
    ensures
        transform_each(elem, items, identity(), n).outcome == Outcome::Done(
            ValueModel::Tuple(items.take(n as int)),
        ),
    decreases elem, 2nat, n,
{
    if n > 0 {
        lemma_identity_each(elem, items, (n - 1) as nat);
        law_identity_maps_to_itself(elem, items[n - 1]);
        assert(items.take(n - 1).push(items[n - 1]) =~= items.take(n as int));
    } else {
        assert(items.take(0) =~= Seq::<ValueModel>::empty());
    }
}

/// Pass-through. For a type that does not mention the parameter, the
/// synthesized expression is the operand itself, and the map returns the value
/// it is given without calling the transformation, whatever the transformation
/// and whatever the value.
pub proof fn law_unmentioned_type_passes_through(
    ty: TypeModel,
    param: Seq<char>,
    operand: ExprModel,
    v: ValueModel,
    f: Transformation,
)
    requires
        !mentions(ty, param),
    ensures
        synth_model(classify_model(ty, param), operand) == operand,
        transform(classify_model(ty, param), v, f) == done(v),
{
    lemma_untouched_without_mention(ty, param);
}

/// Whether `w` has the structure of `v` as far as `shape` reaches: the same
/// tuple arities, the same keys and the same number of values in every
/// collection, the marker where the marker stood, and the very same value
/// wherever the shape touches nothing. Only at the occurrences of the
/// parameter may the two differ.
pub open spec fn same_structure(shape: ShapeModel, v: ValueModel, w: ValueModel) -> bool
    decreases shape,
{
    if !touches(shape) {
        w == v
    } else {
        match shape {
            ShapeModel::Direct => true,
            ShapeModel::Opaque => w == v,
            ShapeModel::Tuple(parts) => {
                &&& v is Tuple
                &&& w is Tuple
                &&& v->Tuple_0.len() == parts.len()
                &&& w->Tuple_0.len() == parts.len()
                &&& forall|i: int|
                    0 <= i < parts.len() ==> same_structure(parts[i], v->Tuple_0[i], #[trigger] w->Tuple_0[i])
            },
            ShapeModel::Array(elem, len) => {
                &&& v is Coll
                &&& w is Coll
                &&& w->keys == v->keys
                &&& w->items.len() == v->items.len()
                &&& forall|i: int|
                    0 <= i < v->items.len() ==> same_structure(*elem, v->items[i], #[trigger] w->items[i])
            },
            ShapeModel::Known(kind, inner) => {
                &&& v is Coll
                &&& w is Coll
                &&& w->keys == v->keys
                &&& w->items.len() == v->items.len()
                &&& forall|i: int|
                    0 <= i < v->items.len() ==> same_structure(*inner, v->items[i], #[trigger] w->items[i])
            },
            ShapeModel::Marker => w is Marker,
        }
    }
}

/// What the transformation makes of each of the values `occ`, in order.
pub open spec fn images(occ: Seq<ValueModel>, f: Transformation) -> Seq<ValueModel> {
    Seq::new(occ.len(), |j: int| f(occ[j])->Ok_0)
}

proof fn lemma_done_each_is_done_each(
    elem: ShapeModel,
    items: Seq<ValueModel>,
    f: Transformation,
    n: nat,
    i: int,
)
    requires
        n <= items.len(),
        0 <= i < n,
        transform_each(elem, items, f, n).outcome is Done,
    ensures
        transform_each(elem, items, f, n).outcome matches Outcome::Done(ValueModel::Tuple(outs)) && outs.len() == n
            && transform(elem, items[i], f).outcome == Outcome::Done(outs[i]),
    decreases n,
{
    lemma_each_is_tuple(elem, items, f, (n - 1) as nat);
    lemma_each_is_tuple(elem, items, f, n);
    if i < n - 1 {
        lemma_done_each_is_done_each(elem, items, f, (n - 1) as nat, i);
    }
}

proof fn lemma_each_is_tuple(elem: ShapeModel, items: Seq<ValueModel>, f: Transformation, n: nat)
    requires
        n <= items.len(),
    ensures
        transform_each(elem, items, f, n).outcome matches Outcome::Done(v) ==> v matches ValueModel::Tuple(outs)
            && outs.len() == n,
    decreases n,
{
    if n > 0 {
        lemma_each_is_tuple(elem, items, f, (n - 1) as nat);
    }
}

/// Structure preservation. A map that ends with a value ends with a value of
/// the same structure and the same shape: arities, lengths, keys, order and
/// everything outside the occurrences of the parameter are those of the value
/// that was mapped.
pub proof fn law_map_preserves_structure(shape: ShapeModel, v: ValueModel, f: Transformation)
    requires
        fits(v, shape),
        transform(shape, v, f).outcome is Done,
    ensures
        same_structure(shape, v, transform(shape, v, f).outcome->Done_0),
    decreases shape,
{
    if touches(shape) {
        let w = transform(shape, v, f).outcome->Done_0;
        match shape {
            ShapeModel::Direct => {},
            ShapeModel::Opaque => {},
            ShapeModel::Tuple(parts) => {
                let vals = v->Tuple_0;
                lemma_all_is_tuple(parts, vals, f, parts.len());
                assert forall|i: int| 0 <= i < parts.len() implies same_structure(
                    parts[i],
                    vals[i],
                    #[trigger] w->Tuple_0[i],
                ) by {
                    lemma_done_all_is_done_each(parts, vals, f, parts.len(), i);
                    law_map_preserves_structure(parts[i], vals[i], f);
                }
            },
            ShapeModel::Array(elem, len) => {
                let items = v->items;
                lemma_each_is_tuple(*elem, items, f, items.len());
                assert forall|i: int| 0 <= i < items.len() implies same_structure(
                    *elem,
                    items[i],
                    #[trigger] w->items[i],
                ) by {
                    lemma_done_each_is_done_each(*elem, items, f, items.len(), i);
                    law_map_preserves_structure(*elem, items[i], f);
                }
            },
            ShapeModel::Known(kind, inner) => {
                let items = v->items;
                lemma_each_is_tuple(*inner, items, f, items.len());
                assert forall|i: int| 0 <= i < items.len() implies same_structure(
                    *inner,
                    items[i],
                    #[trigger] w->items[i],
                ) by {
                    lemma_done_each_is_done_each(*inner, items, f, items.len(), i);
                    law_map_preserves_structure(*inner, items[i], f);
                }
            },
            ShapeModel::Marker => {},
        }
    }
}

/// The occurrences are mapped. In the value that a map ends with, the
/// occurrences of the parameter are what the transformation made of the
/// occurrences of the value that was mapped, one for one and in the same
/// order.
pub proof fn law_map_transforms_each_occurrence(shape: ShapeModel, v: ValueModel, f: Transformation)
    requires
        fits(v, shape),
        transform(shape, v, f).outcome is Done,
    ensures
        forall|j: int| 0 <= j < occurrences(shape, v).len() ==> f(#[trigger] occurrences(shape, v)[j]) is Ok,
        occurrences(shape, transform(shape, v, f).outcome->Done_0) == images(occurrences(shape, v), f),
    decreases shape, 1nat, 0nat,
{
    let w = transform(shape, v, f).outcome->Done_0;
    if touches(shape) {
        match shape {
            ShapeModel::Direct => {
                assert(occurrences(shape, w) =~= images(occurrences(shape, v), f));
            },
            ShapeModel::Opaque => {},
            ShapeModel::Tuple(parts) => {
                let vals = v->Tuple_0;
                lemma_all_is_tuple(parts, vals, f, parts.len());
                lemma_occurrences_all_mapped(parts, vals, f, parts.len(), parts.len());
            },
            ShapeModel::Array(elem, len) => {
                let items = v->items;
                lemma_each_is_tuple(*elem, items, f, items.len());
                lemma_occurrences_each_mapped(*elem, items, f, items.len(), items.len());
            },
            ShapeModel::Known(kind, inner) => {
                let items = v->items;
                lemma_each_is_tuple(*inner, items, f, items.len());
                lemma_occurrences_each_mapped(*inner, items, f, items.len(), items.len());
            },
            ShapeModel::Marker => {
                assert(occurrences(shape, w) =~= images(occurrences(shape, v), f));
            },
        }
    } else {
        assert(occurrences(shape, w) =~= images(occurrences(shape, v), f));
    }
}

proof fn lemma_occurrences_all_mapped(
    parts: Seq<ShapeModel>,
    vals: Seq<ValueModel>,
    f: Transformation,
    n: nat,
    m: nat,
)
    requires
        m <= n <= parts.len(),
        vals.len() == parts.len(),
        forall|i: int| 0 <= i < parts.len() ==> fits(#[trigger] vals[i], parts[i]),
        transform_all(parts, vals, f, n).outcome is Done,
    ensures
        ({
            let outs = transform_all(parts, vals, f, n).outcome->Done_0->Tuple_0;
            let before = occurrences_all(parts, vals, m);
            &&& forall|j: int| 0 <= j < before.len() ==> f(#[trigger] before[j]) is Ok
            &&& occurrences_all(parts, outs, m) == images(before, f)
        }),
    decreases parts, 0nat, m,
{
    let outs = transform_all(parts, vals, f, n).outcome->Done_0->Tuple_0;
    lemma_all_is_tuple(parts, vals, f, n);
    if m > 0 {
        lemma_occurrences_all_mapped(parts, vals, f, n, (m - 1) as nat);
        lemma_done_all_is_done_each(parts, vals, f, n, m - 1);
        law_map_transforms_each_occurrence(parts[m - 1], vals[m - 1], f);
        let head = occurrences_all(parts, vals, (m - 1) as nat);
        let last = occurrences(parts[m - 1], vals[m - 1]);
        assert(images(head + last, f) =~= images(head, f) + images(last, f));
    } else {
        assert(occurrences_all(parts, outs, 0) =~= images(occurrences_all(parts, vals, 0), f));
    }
}

proof fn lemma_occurrences_each_mapped(
    elem: ShapeModel,
    items: Seq<ValueModel>,
    f: Transformation,
    n: nat,
    m: nat,
)
    requires
        m <= n <= items.len(),
        forall|i: int| 0 <= i < items.len() ==> fits(#[trigger] items[i], elem),
        transform_each(elem, items, f, n).outcome is Done,
    ensures
        ({
            let outs = transform_each(elem, items, f, n).outcome->Done_0->Tuple_0;
            let before = occurrences_each(elem, items, m);
            &&& forall|j: int| 0 <= j < before.len() ==> f(#[trigger] before[j]) is Ok
            &&& occurrences_each(elem, outs, m) == images(before, f)
        }),
    decreases elem, 2nat, m,
{
    let outs = transform_each(elem, items, f, n).outcome->Done_0->Tuple_0;
    lemma_each_is_tuple(elem, items, f, n);
    if m > 0 {
        lemma_occurrences_each_mapped(elem, items, f, n, (m - 1) as nat);
        lemma_done_each_is_done_each(elem, items, f, n, m - 1);
        law_map_transforms_each_occurrence(elem, items[m - 1], f);
        let head = occurrences_each(elem, items, (m - 1) as nat);
        let last = occurrences(elem, items[m - 1]);
        assert(images(head + last, f) =~= images(head, f) + images(last, f));
    } else {
        assert(occurrences_each(elem, outs, 0) =~= images(occurrences_each(elem, items, 0), f));
    }
}

/// The occurrences of the parameter in a value of a definition with the
/// constructors `cs`: those of its fields, from first to last.
pub open spec fn subject_occurrences(cs: Seq<Constructor>, param: Seq<char>, subject: SubjectModel) -> Seq<
    ValueModel,
> {
    let types = cs[subject.variant as int].fields.types;
    occurrences_all(field_shapes(types, param), subject.fields, types.len())
}

proof fn lemma_done_all_is_done_each(
    parts: Seq<ShapeModel>,
    vals: Seq<ValueModel>,
    f: Transformation,
    n: nat,
    i: int,
)
    requires
        n <= parts.len(),
        n <= vals.len(),
        0 <= i < n,
        transform_all(parts, vals, f, n).outcome is Done,
    ensures
        transform_all(parts, vals, f, n).outcome matches Outcome::Done(ValueModel::Tuple(outs)) && outs.len() == n
            && transform(parts[i], vals[i], f).outcome == Outcome::Done(outs[i]),
    decreases n,
{
    lemma_all_is_tuple(parts, vals, f, (n - 1) as nat);
    lemma_all_is_tuple(parts, vals, f, n);
    if i < n - 1 {
        lemma_done_all_is_done_each(parts, vals, f, (n - 1) as nat, i);
    }
}

proof fn lemma_all_is_tuple(parts: Seq<ShapeModel>, vals: Seq<ValueModel>, f: Transformation, n: nat)
    requires
        n <= parts.len(),
        n <= vals.len(),
    ensures
        transform_all(parts, vals, f, n).outcome matches Outcome::Done(v) ==> v matches ValueModel::Tuple(outs)
            && outs.len() == n,
    decreases n,
{
    if n > 0 {
        lemma_all_is_tuple(parts, vals, f, (n - 1) as nat);
    }
}

/// Identity, for whole values. Under the transformation that returns its
/// argument, the generated body rebuilds a value of the definition with
/// exactly the fields it had.
pub proof fn law_identity_rebuilds_the_value(
    name: Seq<char>,
    data: DataModel,
    param: Seq<char>,
    subject: SubjectModel,
)
    requires
        subject_fits(constructors(name, data), param, subject),
    ensures
        run_body(body_model(name, data, param), subject, identity()).outcome == Outcome::Done(
            ValueModel::Tuple(subject.fields),
        ),
{
    let cs = constructors(name, data);
    let types = cs[subject.variant as int].fields.types;
    lemma_body_computes_the_map(cs, param, subject, identity());
    lemma_identity_all(field_shapes(types, param), subject.fields, types.len());
    assert(subject.fields.take(types.len() as int) =~= subject.fields);
}

/// Variant fidelity. The arm taken for a value is the arm of the value's own
/// constructor: it names that constructor, in its style and with its field
/// names, and it yields as many fields as the value had. What it computes is
/// the map of those fields, each by the shape of its own declared type, and
/// so every field keeps its structure.
pub proof fn law_variant_is_kept(
    name: Seq<char>,
    data: DataModel,
    param: Seq<char>,
    subject: SubjectModel,
    f: Transformation,
)
    requires
        subject_fits(constructors(name, data), param, subject),
    ensures
        ({
            let own = constructors(name, data)[subject.variant as int];
            let arm = body_model(name, data, param)[subject.variant as int];
            let run = run_body(body_model(name, data, param), subject, f);
            &&& arm.path == own.path
            &&& arm.style == own.fields.style
            &&& arm.names == own.fields.names
            &&& run == map_subject(constructors(name, data), param, subject, f)
            &&& run.outcome matches Outcome::Done(v) ==> {
                &&& v is Tuple
                &&& v->Tuple_0.len() == subject.fields.len()
                &&& forall|i: int|
                    0 <= i < subject.fields.len() ==> same_structure(
                        classify_model(own.fields.types[i], param),
                        subject.fields[i],
                        #[trigger] v->Tuple_0[i],
                    )
            }
        }),
{
    let cs = constructors(name, data);
    let types = cs[subject.variant as int].fields.types;
    let shapes = field_shapes(types, param);
    lemma_body_computes_the_map(cs, param, subject, f);
    lemma_all_is_tuple(shapes, subject.fields, f, types.len());
    let run = run_body(body_model(name, data, param), subject, f);
    if run.outcome is Done {
        let outs = run.outcome->Done_0->Tuple_0;
        assert forall|i: int| 0 <= i < subject.fields.len() implies same_structure(
            classify_model(types[i], param),
            subject.fields[i],
            #[trigger] outs[i],
        ) by {
            lemma_done_all_is_done_each(shapes, subject.fields, f, types.len(), i);
            law_map_preserves_structure(shapes[i], subject.fields[i], f);
        }
    }
}

/// Variant fidelity, continued. The run on a value does not depend on the
/// other constructors of the definition: no arm but the value's own is
/// entered.
pub proof fn law_other_variants_are_not_entered(
    name: Seq<char>,
    data: DataModel,
    other_data: DataModel,
    param: Seq<char>,
    subject: SubjectModel,
    f: Transformation,
)
    requires
        subject.variant < constructors(name, data).len(),
        subject.variant < constructors(name, other_data).len(),
        constructors(name, data)[subject.variant as int] == constructors(name, other_data)[subject.variant as int],
    ensures
        run_body(body_model(name, data, param), subject, f) == run_body(
            body_model(name, other_data, param),
            subject,
            f,
        ),
{
}

/// Short circuit, for whole values. If the transformation fails on the
/// occurrence at position `k` of a value of the definition, counted through
/// its fields from first to last, and on none before it, the generated body
/// fails with that error, having called the transformation on the occurrences
/// up to and including that one and on nothing after it.
pub proof fn law_first_failure_ends_the_rebuild(
    name: Seq<char>,
    data: DataModel,
    param: Seq<char>,
    subject: SubjectModel,
    f: Transformation,
    k: int,
)
    requires
        subject_fits(constructors(name, data), param, subject),
        0 <= k < subject_occurrences(constructors(name, data), param, subject).len(),
        forall|j: int|
            0 <= j < k ==> f(#[trigger] subject_occurrences(constructors(name, data), param, subject)[j]) is Ok,
        f(subject_occurrences(constructors(name, data), param, subject)[k]) is Err,
    ensures
        run_body(body_model(name, data, param), subject, f).outcome == Outcome::Failed(
            f(subject_occurrences(constructors(name, data), param, subject)[k])->Err_0,
        ),
        run_body(body_model(name, data, param), subject, f).calls == subject_occurrences(
            constructors(name, data),
            param,
            subject,
        ).take(k + 1),
{
    let cs = constructors(name, data);
    let types = cs[subject.variant as int].fields.types;
    let occ = subject_occurrences(cs, param, subject);
    lemma_body_computes_the_map(cs, param, subject, f);
    lemma_tries_all(field_shapes(types, param), subject.fields, f, types.len());
    lemma_attempt_until_failure(occ, f, k, occ.len());
}

/// A transformation that fails on no occurrence of a value of the definition
/// is called on every occurrence, once and in order, and the generated body
/// ends with the rebuilt value. This is the case of every total
/// transformation.
pub proof fn law_rebuild_succeeds_where_every_call_does(
    name: Seq<char>,
    data: DataModel,
    param: Seq<char>,
    subject: SubjectModel,
    f: Transformation,
)
    requires
        subject_fits(constructors(name, data), param, subject),
        forall|j: int|
            0 <= j < subject_occurrences(constructors(name, data), param, subject).len() ==> f(
                #[trigger] subject_occurrences(constructors(name, data), param, subject)[j],
            ) is Ok,
    ensures
        run_body(body_model(name, data, param), subject, f).outcome is Done,
        run_body(body_model(name, data, param), subject, f).calls == subject_occurrences(
            constructors(name, data),
            param,
            subject,
        ),
{
    let cs = constructors(name, data);
    let types = cs[subject.variant as int].fields.types;
    let occ = subject_occurrences(cs, param, subject);
    lemma_body_computes_the_map(cs, param, subject, f);
    lemma_tries_all(field_shapes(types, param), subject.fields, f, types.len());
    lemma_attempt_without_failure(occ, f, occ.len());
    assert(occ.take(occ.len() as int) =~= occ);
}

/// Pass-through, for whole values. Whatever the transformation, a field whose
/// declared type does not mention the parameter has, in the rebuilt value, the
/// value it had before.
pub proof fn law_unmentioned_field_is_unchanged(
    name: Seq<char>,
    data: DataModel,
    param: Seq<char>,
    subject: SubjectModel,
    f: Transformation,
    i: int,
)
    requires
        subject_fits(constructors(name, data), param, subject),
        0 <= i < subject.fields.len(),
        !mentions(constructors(name, data)[subject.variant as int].fields.types[i], param),
        run_body(body_model(name, data, param), subject, f).outcome is Done,
    ensures
        run_body(body_model(name, data, param), subject, f).outcome matches Outcome::Done(
            ValueModel::Tuple(outs),
        ) && outs.len() == subject.fields.len() && outs[i] == subject.fields[i],
{
    let cs = constructors(name, data);
    let types = cs[subject.variant as int].fields.types;
    lemma_body_computes_the_map(cs, param, subject, f);
    lemma_done_all_is_done_each(field_shapes(types, param), subject.fields, f, types.len(), i);
    lemma_untouched_without_mention(types[i], param);
}

/// A definition in whose fields the parameter occurs nowhere is rebuilt field
/// by field as it is: whatever the transformation, the body ends with the
/// fields the value had and calls the transformation not once.
pub proof fn law_definition_without_occurrence_is_rebuilt_as_it_is(
    name: Seq<char>,
    data: DataModel,
    param: Seq<char>,
    subject: SubjectModel,
    f: Transformation,
)
    requires
        subject_fits(constructors(name, data), param, subject),
        forall|i: int|
            0 <= i < subject.fields.len() ==> !mentions(
                #[trigger] constructors(name, data)[subject.variant as int].fields.types[i],
                param,
            ),
    ensures
        run_body(body_model(name, data, param), subject, f) == done(ValueModel::Tuple(subject.fields)),
{
    let cs = constructors(name, data);
    let types = cs[subject.variant as int].fields.types;
    lemma_body_computes_the_map(cs, param, subject, f);
    lemma_untouched_all(types, param, subject.fields, f, types.len());
    assert(subject.fields.take(types.len() as int) =~= subject.fields);
}

proof fn lemma_untouched_all(
    types: Seq<TypeModel>,
    param: Seq<char>,
    vals: Seq<ValueModel>,
    f: Transformation,
    n: nat,
)
    requires
        n <= types.len(),
        vals.len() == types.len(),
        forall|i: int| 0 <= i < types.len() ==> !mentions(#[trigger] types[i], param),
    ensures
        transform_all(field_shapes(types, param), vals, f, n) == done(ValueModel::Tuple(vals.take(n as int))),
    decreases n,
{
    if n > 0 {
        lemma_untouched_all(types, param, vals, f, (n - 1) as nat);
        assert(!mentions(types[n - 1], param));
        lemma_untouched_without_mention(types[n - 1], param);
        assert(vals.take(n - 1).push(vals[n - 1]) =~= vals.take(n as int));
        let shapes = field_shapes(types, param);
        assert(shapes[n - 1] == classify_model(types[n - 1], param));
        assert(transform(shapes[n - 1], vals[n - 1], f) == done(vals[n - 1]));
        let run = transform_all(shapes, vals, f, n);
        assert(run.calls =~= Seq::<ValueModel>::empty());
        assert(run.outcome == Outcome::Done(ValueModel::Tuple(vals.take(n as int))));
    } else {
        assert(vals.take(0) =~= Seq::<ValueModel>::empty());
    }
}

} // verus!
