//! A reference interpreter for generated bodies: it runs a body on a value
//! under a transformation given as a closure, step by step as the meaning of
//! expressions prescribes.

use vstd::prelude::*;
use crate::body::{run_body, Body, SubjectModel};
use crate::expr::{Expr, ExprModel};
use crate::meaning::{eval, eval_all, eval_each, Env, Outcome, Transformation, ValueModel};

verus! {

/// A value as the generated code sees it.
#[derive(Debug, PartialEq, Eq)]
pub enum Value {
    /// A value that is not looked into.
    Scalar(u64),
    /// A tuple with its components in order.
    Tuple(Vec<Value>),
    /// An array or a container: the values it holds in the order in which its
    /// map visits them, and the keys of a keyed container.
    Coll { keys: Vec<Value>, items: Vec<Value> },
    /// The marker value.
    Marker,
}

/// The model of a value.
pub open spec fn value_view(v: Value) -> ValueModel
    decreases v,
{
    match v {
        Value::Scalar(x) => ValueModel::Scalar(x),
        Value::Tuple(parts) => ValueModel::Tuple(
            Seq::new(
                parts.len() as nat,
                |i: int|
                    if 0 <= i < parts.len() {
                        value_view(parts[i])
                    } else {
                        ValueModel::Marker
                    },
            ),
        ),
        Value::Coll { keys, items } => ValueModel::Coll {
            keys: Seq::new(
                keys.len() as nat,
                |i: int|
                    if 0 <= i < keys.len() {
                        value_view(keys[i])
                    } else {
                        ValueModel::Marker
                    },
            ),
            items: Seq::new(
                items.len() as nat,
                |i: int|
                    if 0 <= i < items.len() {
                        value_view(items[i])
                    } else {
                        ValueModel::Marker
                    },
            ),
        },
        Value::Marker => ValueModel::Marker,
    }
}

impl View for Value {
    type V = ValueModel;

    open spec fn view(&self) -> ValueModel {
        value_view(*self)
    }
}

/// The models of a list of values.
pub open spec fn value_views(items: Vec<Value>) -> Seq<ValueModel> {
    Seq::new(items.len() as nat, |i: int| items[i]@)
}

/// A value of a definition: which constructor built it, by position, and the
/// values of its fields in declaration order.
#[derive(Debug, PartialEq, Eq)]
pub struct Subject {
    pub variant: usize,
    pub fields: Vec<Value>,
}

impl View for Subject {
    type V = SubjectModel;

    open spec fn view(&self) -> SubjectModel {
        SubjectModel { variant: self.variant as nat, fields: value_views(self.fields) }
    }
}

/// How a run ends.
#[derive(Debug, PartialEq, Eq)]
pub enum Ending {
    /// With a value.
    Done(Value),
    /// With the error of the first call of the transformation that failed.
    Failed(Value),
    /// Nowhere: the expression does not fit the value it was given.
    Stuck,
}

impl View for Ending {
    type V = Outcome;

    open spec fn view(&self) -> Outcome {
        match self {
            Ending::Done(v) => Outcome::Done(v@),
            Ending::Failed(e) => Outcome::Failed(e@),
            Ending::Stuck => Outcome::Stuck,
        }
    }
}

/// The model of what a call of a transformation returns.
pub open spec fn returned(r: Result<Value, Value>) -> Result<ValueModel, ValueModel> {
    match r {
        Ok(v) => Ok(v@),
        Err(e) => Err(e@),
    }
}

/// Whether the closure `f` computes the transformation `g`: whatever a call
/// of `f` returns is what `g` gives for the argument.
pub open spec fn implements<F: Fn(Value) -> Result<Value, Value>>(f: F, g: Transformation) -> bool {
    forall|x: Value, y: Result<Value, Value>| #[trigger] f.ensures((x,), y) ==> returned(y) == g(x@)
}

/// The transformation that the closure `f` computes, where it computes one.
pub open spec fn model_of<F: Fn(Value) -> Result<Value, Value>>(f: F) -> Transformation {
    choose|g: Transformation| implements(f, g)
}

proof fn lemma_all_halt_stays(exprs: Seq<ExprModel>, env: Env, g: Transformation, n: nat, m: nat)
    requires
        n <= m <= exprs.len(),
        !(eval_all(exprs, env, g, n).outcome is Done),
    ensures
        eval_all(exprs, env, g, m) == eval_all(exprs, env, g, n),
    decreases m,
{
    if n < m {
        lemma_all_halt_stays(exprs, env, g, n, (m - 1) as nat);
    }
}

proof fn lemma_each_halt_stays(each: ExprModel, env: Env, items: Seq<ValueModel>, g: Transformation, n: nat, m: nat)
    requires
        n <= m <= items.len(),
        !(eval_each(each, env, items, g, n).outcome is Done),
    ensures
        eval_each(each, env, items, g, m) == eval_each(each, env, items, g, n),
    decreases m,
{
    if n < m {
        lemma_each_halt_stays(each, env, items, g, n, (m - 1) as nat);
    }
}

proof fn lemma_same_views(a: Vec<Value>, b: Vec<Value>)
    requires
        value_views(a) == value_views(b),
    ensures
        a.len() == b.len(),
        forall|i: int| 0 <= i < a.len() ==> a[i]@ == b[i]@,
{
    assert(value_views(a).len() == a.len());
    assert(value_views(b).len() == b.len());
    assert forall|i: int| 0 <= i < a.len() implies a[i]@ == b[i]@ by {
        assert(value_views(a)[i] == a[i]@);
        assert(value_views(b)[i] == b[i]@);
    }
}

/// The model of an optional element.
pub open spec fn item_view(item: Option<&Value>) -> Option<ValueModel> {
    match item {
        Some(v) => Some(v@),
        None => None,
    }
}

impl Value {
    /// A deep copy.
    pub fn duplicate(&self) -> (out: Value)
        ensures
            out@ == self@,
        decreases self,
    {
        match self {
            Value::Scalar(x) => Value::Scalar(*x),
            Value::Tuple(parts) => {
                assert(decreases_to!(*self => self->Tuple_0));
                let copies = Value::duplicate_all(parts, Ghost(*self));
                proof {
                    lemma_same_views(copies, *parts);
                }
                let out = Value::Tuple(copies);
                assert(out@->Tuple_0 =~= self@->Tuple_0);
                out
            },
            Value::Coll { keys, items } => {
                assert(decreases_to!(*self => self->keys));
                assert(decreases_to!(*self => self->items));
                let key_copies = Value::duplicate_all(keys, Ghost(*self));
                let item_copies = Value::duplicate_all(items, Ghost(*self));
                proof {
                    lemma_same_views(key_copies, *keys);
                    lemma_same_views(item_copies, *items);
                }
                let out = Value::Coll { keys: key_copies, items: item_copies };
                assert(out@->keys =~= self@->keys);
                assert(out@->items =~= self@->items);
                out
            },
            Value::Marker => Value::Marker,
        }
    }

    fn duplicate_all(items: &Vec<Value>, Ghost(whole): Ghost<Value>) -> (out: Vec<Value>)
        requires
            decreases_to!(whole => *items),
        ensures
            value_views(out) == value_views(*items),
        decreases whole, 0nat,
    {
        let mut out: Vec<Value> = Vec::new();
        let mut i: usize = 0;
        while i < items.len()
            invariant
                i <= items.len(),
                decreases_to!(whole => *items),
                out.len() == i,
                forall|j: int| 0 <= j < i ==> out[j]@ == items[j]@,
            decreases items.len() - i,
        {
            out.push(items[i].duplicate());
            i = i + 1;
        }
        assert(value_views(out) =~= value_views(*items));
        out
    }
}

fn run_expr<F: Fn(Value) -> Result<Value, Value>>(
    expr: &Expr,
    slots: &Vec<Value>,
    item: Option<&Value>,
    f: &F,
    Ghost(g): Ghost<Transformation>,
) -> (out: Ending)
    requires
        forall|x: Value| f.requires((x,)),
    ensures
        implements(*f, g) ==> out@ == eval(expr@, Env { slots: value_views(*slots), item: item_view(item) }, g).outcome,
    decreases expr,
{
    let ghost env = Env { slots: value_views(*slots), item: item_view(item) };
    match expr {
        Expr::Slot(i) => {
            if *i < slots.len() {
                Ending::Done(slots[*i].duplicate())
            } else {
                Ending::Stuck
            }
        },
        Expr::Item => match item {
            Some(v) => Ending::Done(v.duplicate()),
            None => Ending::Stuck,
        },
        Expr::Field(base, i) => match run_expr(base, slots, item, f, Ghost(g)) {
            Ending::Done(Value::Tuple(parts)) => {
                if *i < parts.len() {
                    assert(Value::Tuple(parts)@->Tuple_0[*i as int] == parts[*i as int]@);
                    Ending::Done(parts[*i].duplicate())
                } else {
                    assert(Value::Tuple(parts)@->Tuple_0.len() == parts.len());
                    Ending::Stuck
                }
            },
            Ending::Done(_) => Ending::Stuck,
            other => other,
        },
        Expr::Apply(arg) => match run_expr(arg, slots, item, f, Ghost(g)) {
            Ending::Done(v) => match f(v) {
                Ok(w) => Ending::Done(w),
                Err(e) => Ending::Failed(e),
            },
            other => other,
        },
        Expr::Tuple(parts) => {
            let mut built: Vec<Value> = Vec::new();
            assert(value_views(built) =~= Seq::empty());
            let mut i: usize = 0;
            while i < parts.len()
                invariant
                    i <= parts.len(),
                    forall|x: Value| f.requires((x,)),
                    expr matches Expr::Tuple(p) && p == *parts,
                    env == (Env { slots: value_views(*slots), item: item_view(item) }),
                    built.len() == i,
                    implements(*f, g) ==> eval_all(expr@->Tuple_0, env, g, i as nat).outcome == Outcome::Done(
                        ValueModel::Tuple(value_views(built)),
                    ),
                decreases parts.len() - i,
            {
                assert(decreases_to!(*expr => expr->Tuple_0));
                assert(expr@->Tuple_0[i as int] == parts[i as int]@);
                match run_expr(&parts[i], slots, item, f, Ghost(g)) {
                    Ending::Done(v) => {
                        let ghost before = value_views(built);
                        let ghost added = v@;
                        built.push(v);
                        assert(value_views(built) =~= before.push(added));
                    },
                    other => {
                        proof {
                            if implements(*f, g) {
                                lemma_all_halt_stays(expr@->Tuple_0, env, g, (i + 1) as nat, parts.len() as nat);
                            }
                        }
                        return other;
                    },
                }
                i = i + 1;
            }
            let out = Value::Tuple(built);
            assert(out@->Tuple_0 =~= value_views(built));
            Ending::Done(out)
        },
        Expr::Marker => Ending::Done(Value::Marker),
        Expr::Mapped(source, each) => match run_expr(source, slots, item, f, Ghost(g)) {
            Ending::Done(Value::Coll { keys, items }) => {
                let ghost whole = Value::Coll { keys, items };
                let mut built: Vec<Value> = Vec::new();
                assert(value_views(built) =~= Seq::empty());
                assert(whole@->items =~= value_views(items));
                assert(whole@->keys =~= value_views(keys));
                let mut i: usize = 0;
                while i < items.len()
                    invariant
                        i <= items.len(),
                        forall|x: Value| f.requires((x,)),
                        expr matches Expr::Mapped(s, e) && s == *source && e == *each,
                        whole@ is Coll,
                        whole@->items == value_views(items),
                        implements(*f, g) ==> eval(source@, env, g).outcome == Outcome::Done(whole@),
                        env == (Env { slots: value_views(*slots), item: item_view(item) }),
                        built.len() == i,
                        implements(*f, g) ==> eval_each(each@, env, value_views(items), g, i as nat).outcome
                            == Outcome::Done(ValueModel::Tuple(value_views(built))),
                    decreases items.len() - i,
                {
                    assert(value_views(items)[i as int] == items[i as int]@);
                    match run_expr(each, slots, Some(&items[i]), f, Ghost(g)) {
                        Ending::Done(v) => {
                            let ghost before = value_views(built);
                            let ghost added = v@;
                            built.push(v);
                            assert(value_views(built) =~= before.push(added));
                        },
                        other => {
                            proof {
                                if implements(*f, g) {
                                    lemma_each_halt_stays(
                                        each@,
                                        env,
                                        value_views(items),
                                        g,
                                        (i + 1) as nat,
                                        items.len() as nat,
                                    );
                                }
                            }
                            return other;
                        },
                    }
                    i = i + 1;
                }
                assert(whole@->items =~= value_views(items));
                let out = Value::Coll { keys, items: built };
                assert(out@->keys =~= whole@->keys);
                assert(out@->items =~= value_views(built));
                Ending::Done(out)
            },
            Ending::Done(_) => Ending::Stuck,
            other => other,
        },
    }
}

/// Runs the body `body` on the value `subject` under the transformation `f`.
///
/// The arm of the value's own constructor is taken and its field expressions
/// are evaluated from first to last; `f` is called on each occurrence of the
/// parameter as it is reached, and the first failure ends the run. A run that
/// is done yields the tuple of the new fields.
pub fn run<F: Fn(Value) -> Result<Value, Value>>(body: &Body, subject: &Subject, f: &F) -> (out: Ending)
    requires
        forall|x: Value| f.requires((x,)),
    ensures
        implements(*f, model_of(*f)) ==> out@ == run_body(body@, subject@, model_of(*f)).outcome,
{
    let ghost g = model_of(*f);
    if subject.variant >= body.arms.len() {
        return Ending::Stuck;
    }
    let arm = &body.arms[subject.variant];
    assert(body@[subject.variant as int] == arm@);
    if subject.fields.len() != arm.fields.len() {
        return Ending::Stuck;
    }
    let ghost env = Env { slots: value_views(subject.fields), item: None };
    let mut built: Vec<Value> = Vec::new();
    assert(value_views(built) =~= Seq::empty());
    let mut i: usize = 0;
    while i < arm.fields.len()
        invariant
            i <= arm.fields.len(),
            forall|x: Value| f.requires((x,)),
            env == (Env { slots: value_views(subject.fields), item: None }),
            g == model_of(*f),
            subject.variant < body.arms.len(),
            body@[subject.variant as int] == arm@,
            subject.fields.len() == arm.fields.len(),
            built.len() == i,
            implements(*f, g) ==> eval_all(arm@.fields, env, g, i as nat).outcome == Outcome::Done(
                ValueModel::Tuple(value_views(built)),
            ),
        decreases arm.fields.len() - i,
    {
        assert(arm@.fields[i as int] == arm.fields[i as int]@);
        match run_expr(&arm.fields[i], &subject.fields, None, f, Ghost(g)) {
            Ending::Done(v) => {
                let ghost before = value_views(built);
                let ghost added = v@;
                built.push(v);
                assert(value_views(built) =~= before.push(added));
            },
            other => {
                proof {
                    if implements(*f, g) {
                        lemma_all_halt_stays(arm@.fields, env, g, (i + 1) as nat, arm.fields.len() as nat);
                    }
                }
                return other;
            },
        }
        i = i + 1;
    }
    let out = Value::Tuple(built);
    assert(out@->Tuple_0 =~= value_views(built));
    Ending::Done(out)
}

} // verus!
