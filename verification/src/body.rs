//! The body of the generated map: one arm per constructor of the definition,
//! each taking a value of that constructor apart and building the same
//! constructor from the rebuilt fields.

use vstd::prelude::*;
use vstd::string::*;
use crate::definition::{
    constructors, data_well_formed, fields_well_formed, lemma_data_is_well_formed, Constructor, Data, DataModel,
    FieldStyle, Fields,
};
use crate::expr::{expr_texts, expr_text, expr_views, synth_model, synthesize, Expr, ExprModel};
use crate::meaning::{
    eval_all, fits, lemma_synthesis_computes_the_map, stuck, transform_all, Env, Run, Transformation, ValueModel,
};
use crate::shape::{classify, classify_model, ShapeModel, TypeShape};
use crate::ty::TypeModel;
use crate::text::{decimal, decimal_text, join, joined, texts};

verus! {

/// One arm of the generated `match`: the pattern binds the field at position
/// `i` to the name `__i`, and the constructor at `path` is built again from
/// the expressions in `fields`, in the order and style of the declaration.
#[derive(Debug, PartialEq, Eq)]
pub struct Arm {
    pub path: String,
    pub style: FieldStyle,
    /// The names of the fields where the style is named; empty otherwise.
    pub names: Vec<String>,
    pub fields: Vec<Expr>,
}

/// The mathematical model of an [`Arm`].
pub struct ArmModel {
    pub path: Seq<char>,
    pub style: FieldStyle,
    pub names: Seq<Seq<char>>,
    pub fields: Seq<ExprModel>,
}

impl View for Arm {
    type V = ArmModel;

    open spec fn view(&self) -> ArmModel {
        ArmModel { path: self.path@, style: self.style, names: texts(self.names), fields: expr_views(self.fields) }
    }
}

/// The body of a generated map.
#[derive(Debug, PartialEq, Eq)]
pub struct Body {
    pub arms: Vec<Arm>,
}

impl View for Body {
    type V = Seq<ArmModel>;

    open spec fn view(&self) -> Seq<ArmModel> {
        Seq::new(self.arms.len() as nat, |i: int| self.arms[i]@)
    }
}

/// What the analyzer records of one field: where it stands, how it is named,
/// the shape of its declared type, and the constructor that owns it.
#[derive(Debug, PartialEq, Eq)]
pub struct FieldRecord {
    /// The position of the field among the fields of its constructor.
    pub position: usize,
    /// The name of the field; empty for a positional field.
    pub name: String,
    pub shape: TypeShape,
    /// The path of the owning constructor: the struct, or the enum and variant.
    pub constructor: String,
    /// How the fields of the owning constructor are written.
    pub style: FieldStyle,
}

/// The mathematical model of a [`FieldRecord`].
pub struct FieldRecordModel {
    pub position: nat,
    pub name: Seq<char>,
    pub shape: ShapeModel,
    pub constructor: Seq<char>,
    pub style: FieldStyle,
}

impl View for FieldRecord {
    type V = FieldRecordModel;

    open spec fn view(&self) -> FieldRecordModel {
        FieldRecordModel {
            position: self.position as nat,
            name: self.name@,
            shape: self.shape@,
            constructor: self.constructor@,
            style: self.style,
        }
    }
}

/// The record of the field at position `i` of the constructor `c`.
pub open spec fn record_model(c: Constructor, param: Seq<char>, i: int) -> FieldRecordModel {
    FieldRecordModel {
        position: i as nat,
        name: name_at(c.fields.names, i),
        shape: classify_model(c.fields.types[i], param),
        constructor: c.path,
        style: c.fields.style,
    }
}

/// The shapes of the fields of a constructor with respect to `param`.
pub open spec fn field_shapes(fields: Seq<TypeModel>, param: Seq<char>) -> Seq<ShapeModel> {
    Seq::new(fields.len(), |i: int| classify_model(fields[i], param))
}

/// The arm for one constructor: field `i` is rebuilt by the expression
/// synthesized for its shape at the name bound to it.
pub open spec fn arm_model(c: Constructor, param: Seq<char>) -> ArmModel {
    ArmModel {
        path: c.path,
        style: c.fields.style,
        names: c.fields.names,
        fields: Seq::new(
            c.fields.types.len(),
            |i: int| synth_model(classify_model(c.fields.types[i], param), ExprModel::Slot(i as nat)),
        ),
    }
}

/// The arms for the constructors `cs`, in order.
pub open spec fn arms_model(cs: Seq<Constructor>, param: Seq<char>) -> Seq<ArmModel> {
    Seq::new(cs.len(), |k: int| arm_model(cs[k], param))
}

/// The body of the map over `param` for a definition named `name` with the
/// data `data`: one arm per constructor, in declaration order.
pub open spec fn body_model(name: Seq<char>, data: DataModel, param: Seq<char>) -> Seq<ArmModel> {
    arms_model(constructors(name, data), param)
}

/// Whether an arm is one that a constructor can have: a name for each field
/// where the fields are named and no names otherwise, and no fields at all
/// where the constructor is a unit.
pub open spec fn arm_well_formed(arm: ArmModel) -> bool {
    match arm.style {
        FieldStyle::Named => arm.names.len() == arm.fields.len(),
        FieldStyle::Positional => arm.names.len() == 0,
        FieldStyle::Unit => arm.names.len() == 0 && arm.fields.len() == 0,
    }
}

/// Whether every arm of a body is well formed.
pub open spec fn body_well_formed(arms: Seq<ArmModel>) -> bool {
    forall|k: int| 0 <= k < arms.len() ==> arm_well_formed(#[trigger] arms[k])
}

/// The body generated for a well-formed definition is well formed.
pub proof fn lemma_body_is_well_formed(name: Seq<char>, data: DataModel, param: Seq<char>)
    requires
        data_well_formed(data),
    ensures
        body_well_formed(body_model(name, data, param)),
{
    let cs = constructors(name, data);
    assert forall|k: int| 0 <= k < cs.len() implies arm_well_formed(#[trigger] arms_model(cs, param)[k]) by {
        match data {
            DataModel::Struct(fields) => {},
            DataModel::Enum(variants) => {
                assert(fields_well_formed(variants[k].fields));
            },
        }
    }
}

/// The name at position `i`, or nothing where there is none.
pub open spec fn name_at(names: Seq<Seq<char>>, i: int) -> Seq<char> {
    if 0 <= i < names.len() {
        names[i]
    } else {
        Seq::empty()
    }
}

/// The bindings of a named pattern: `name: __i` for each of `n` fields.
pub open spec fn binding_texts(names: Seq<Seq<char>>, n: nat) -> Seq<Seq<char>> {
    Seq::new(n, |i: int| name_at(names, i) + ": __"@ + decimal_text(i as nat))
}

/// The bindings of a positional pattern: `__i` for each of `n` fields.
pub open spec fn slot_texts(n: nat) -> Seq<Seq<char>> {
    Seq::new(n, |i: int| "__"@ + decimal_text(i as nat))
}

/// The field assignments of a named constructor: `name: expression`.
pub open spec fn assignment_texts(names: Seq<Seq<char>>, fields: Seq<ExprModel>, fallible: bool) -> Seq<Seq<char>> {
    Seq::new(fields.len(), |i: int| name_at(names, i) + ": "@ + expr_text(fields[i], fallible))
}

/// The source text of an arm.
pub open spec fn arm_text(arm: ArmModel, fallible: bool) -> Seq<char> {
    match arm.style {
        FieldStyle::Named => arm.path + " { "@ + joined(binding_texts(arm.names, arm.fields.len()), ", "@)
            + " } => "@ + arm.path + " { "@ + joined(assignment_texts(arm.names, arm.fields, fallible), ", "@)
            + " }"@,
        FieldStyle::Positional => arm.path + "("@ + joined(slot_texts(arm.fields.len()), ", "@) + ") => "@
            + arm.path + "("@ + joined(expr_texts(arm.fields, fallible), ", "@) + ")"@,
        FieldStyle::Unit => arm.path + " => "@ + arm.path,
    }
}

/// The source text of a body: a `match` on the value with one arm per
/// constructor.
pub open spec fn body_text(arms: Seq<ArmModel>, fallible: bool) -> Seq<char> {
    "match self { "@ + joined(Seq::new(arms.len(), |k: int| arm_text(arms[k], fallible)), ", "@) + " }"@
}

/// A value of the definition: which constructor built it, by position, and
/// the values of its fields in declaration order.
pub struct SubjectModel {
    pub variant: nat,
    pub fields: Seq<ValueModel>,
}

/// The run of a body on a value: the arm of the value's own constructor is
/// taken, its pattern binds the fields, and the field expressions are
/// evaluated from first to last. A run that ends with a value ends with the
/// tuple of the new fields; they are the fields of the same constructor.
pub open spec fn run_body(arms: Seq<ArmModel>, subject: SubjectModel, f: Transformation) -> Run {
    if subject.variant < arms.len() && subject.fields.len() == arms[subject.variant as int].fields.len() {
        let arm = arms[subject.variant as int];
        eval_all(arm.fields, Env { slots: subject.fields, item: None }, f, arm.fields.len())
    } else {
        stuck()
    }
}

/// Whether `subject` is a value of the definition with the constructors `cs`,
/// each field fitting the shape of its declared type.
pub open spec fn subject_fits(cs: Seq<Constructor>, param: Seq<char>, subject: SubjectModel) -> bool {
    &&& subject.variant < cs.len()
    &&& subject.fields.len() == cs[subject.variant as int].fields.types.len()
    &&& forall|i: int|
        0 <= i < subject.fields.len() ==> fits(
            #[trigger] subject.fields[i],
            classify_model(cs[subject.variant as int].fields.types[i], param),
        )
}

/// The map of a value of the definition: the map of its fields, each by the
/// shape of its declared type, from first to last.
pub open spec fn map_subject(cs: Seq<Constructor>, param: Seq<char>, subject: SubjectModel, f: Transformation) -> Run {
    let types = cs[subject.variant as int].fields.types;
    transform_all(field_shapes(types, param), subject.fields, f, types.len())
}

proof fn lemma_arm_computes_the_map(
    c: Constructor,
    param: Seq<char>,
    fields: Seq<ValueModel>,
    f: Transformation,
    n: nat,
)
    requires
        n <= c.fields.types.len(),
        fields.len() == c.fields.types.len(),
        forall|i: int| 0 <= i < fields.len() ==> fits(#[trigger] fields[i], classify_model(c.fields.types[i], param)),
    ensures
        eval_all(arm_model(c, param).fields, Env { slots: fields, item: None }, f, n) == transform_all(
            field_shapes(c.fields.types, param),
            fields,
            f,
            n,
        ),
    decreases n,
{
    if n > 0 {
        lemma_arm_computes_the_map(c, param, fields, f, (n - 1) as nat);
        let env = Env { slots: fields, item: None };
        let shape = classify_model(c.fields.types[n - 1], param);
        lemma_synthesis_computes_the_map(shape, ExprModel::Slot((n - 1) as nat), env, f, fields[n - 1]);
    }
}

/// The generated body computes the map of the value it is given: on every
/// value of the definition it runs exactly as the map of the value's fields
/// does.
pub proof fn lemma_body_computes_the_map(
    cs: Seq<Constructor>,
    param: Seq<char>,
    subject: SubjectModel,
    f: Transformation,
)
    requires
        subject_fits(cs, param, subject),
    ensures
        run_body(arms_model(cs, param), subject, f) == map_subject(cs, param, subject, f),
{
    let c = cs[subject.variant as int];
    lemma_arm_computes_the_map(c, param, subject.fields, f, c.fields.types.len());
}

/// Whether `arms` computes the map of the definition with the constructors
/// `cs`: on every value of the definition, under every transformation, it runs
/// exactly as the map of the value's fields does.
pub open spec fn computes_subject_map(arms: Seq<ArmModel>, cs: Seq<Constructor>, param: Seq<char>) -> bool {
    forall|subject: SubjectModel, f: Transformation|
        subject_fits(cs, param, subject) ==> #[trigger] run_body(arms, subject, f) == map_subject(
            cs,
            param,
            subject,
            f,
        )
}

/// The generated body computes the map of its definition.
pub proof fn lemma_generated_body_computes_map(name: Seq<char>, data: DataModel, param: Seq<char>)
    ensures
        computes_subject_map(body_model(name, data, param), constructors(name, data), param),
{
    let cs = constructors(name, data);
    assert forall|subject: SubjectModel, f: Transformation| subject_fits(cs, param, subject) implies #[trigger] run_body(
        body_model(name, data, param),
        subject,
        f,
    ) == map_subject(cs, param, subject, f) by {
        lemma_body_computes_the_map(cs, param, subject, f);
    }
}

impl Arm {
    /// The source text of this arm, in the total or the fallible mode.
    pub fn render(&self, fallible: bool) -> (out: String)
        ensures
            out@ == arm_text(self@, fallible),
    {
        let mut out = self.path.clone();
        match self.style {
            FieldStyle::Named => {
                let mut bindings: Vec<String> = Vec::new();
                let mut assignments: Vec<String> = Vec::new();
                let mut i: usize = 0;
                while i < self.fields.len()
                    invariant
                        i <= self.fields.len(),
                        bindings.len() == i,
                        assignments.len() == i,
                        forall|j: int|
                            0 <= j < i ==> bindings[j]@ == name_at(texts(self.names), j) + ": __"@ + decimal_text(
                                j as nat,
                            ),
                        forall|j: int|
                            0 <= j < i ==> assignments[j]@ == name_at(texts(self.names), j) + ": "@ + expr_text(
                                self.fields[j]@,
                                fallible,
                            ),
                    decreases self.fields.len() - i,
                {
                    let mut binding = String::new();
                    let mut assignment = String::new();
                    if i < self.names.len() {
                        binding.append(self.names[i].as_str());
                        assignment.append(self.names[i].as_str());
                    }
                    binding.append(": __");
                    binding.append(decimal(i).as_str());
                    assignment.append(": ");
                    assignment.append(self.fields[i].render(fallible).as_str());
                    assert(binding@ =~= name_at(texts(self.names), i as int) + ": __"@ + decimal_text(i as nat));
                    assert(assignment@ =~= name_at(texts(self.names), i as int) + ": "@ + expr_text(
                        self.fields[i as int]@,
                        fallible,
                    ));
                    bindings.push(binding);
                    assignments.push(assignment);
                    i = i + 1;
                }
                assert(texts(bindings) =~= binding_texts(self@.names, self@.fields.len()));
                assert(texts(assignments) =~= assignment_texts(self@.names, self@.fields, fallible));
                out.append(" { ");
                out.append(join(&bindings, ", ").as_str());
                out.append(" } => ");
                out.append(self.path.as_str());
                out.append(" { ");
                out.append(join(&assignments, ", ").as_str());
                out.append(" }");
            },
            FieldStyle::Positional => {
                let mut slots: Vec<String> = Vec::new();
                let mut values: Vec<String> = Vec::new();
                let mut i: usize = 0;
                while i < self.fields.len()
                    invariant
                        i <= self.fields.len(),
                        slots.len() == i,
                        values.len() == i,
                        forall|j: int| 0 <= j < i ==> slots[j]@ == "__"@ + decimal_text(j as nat),
                        forall|j: int| 0 <= j < i ==> values[j]@ == expr_text(self.fields[j]@, fallible),
                    decreases self.fields.len() - i,
                {
                    let mut slot = String::from_str("__");
                    slot.append(decimal(i).as_str());
                    slots.push(slot);
                    values.push(self.fields[i].render(fallible));
                    i = i + 1;
                }
                assert(texts(slots) =~= slot_texts(self@.fields.len()));
                assert(texts(values) =~= expr_texts(self@.fields, fallible));
                out.append("(");
                out.append(join(&slots, ", ").as_str());
                out.append(") => ");
                out.append(self.path.as_str());
                out.append("(");
                out.append(join(&values, ", ").as_str());
                out.append(")");
            },
            FieldStyle::Unit => {
                out.append(" => ");
                out.append(self.path.as_str());
            },
        }
        out
    }
}

impl Body {
    /// The source text of this body, in the total or the fallible mode.
    pub fn render(&self, fallible: bool) -> (out: String)
        ensures
            out@ == body_text(self@, fallible),
    {
        let mut parts: Vec<String> = Vec::new();
        let mut k: usize = 0;
        while k < self.arms.len()
            invariant
                k <= self.arms.len(),
                parts.len() == k,
                forall|j: int| 0 <= j < k ==> parts[j]@ == arm_text(self.arms[j]@, fallible),
            decreases self.arms.len() - k,
        {
            parts.push(self.arms[k].render(fallible));
            k = k + 1;
        }
        assert(texts(parts) =~= Seq::new(self@.len(), |k: int| arm_text(self@[k], fallible)));
        let mut out = String::from_str("match self { ");
        out.append(join(&parts, ", ").as_str());
        out.append(" }");
        out
    }
}

/// Records, for each field of one constructor, what the analyzer found.
pub fn analyze_fields(constructor: &String, fields: &Fields, param: &String) -> (out: Vec<FieldRecord>)
    ensures
        out.len() == fields@.types.len(),
        forall|i: int|
            0 <= i < out.len() ==> (#[trigger] out[i])@ == record_model(
                Constructor { path: constructor@, fields: fields@ },
                param@,
                i,
            ),
{
    let names = fields.names();
    let style = fields.style();
    let n = fields.count();
    let mut out: Vec<FieldRecord> = Vec::new();
    let mut i: usize = 0;
    while i < n
        invariant
            i <= n,
            n == fields@.types.len(),
            texts(names) == fields@.names,
            style == fields@.style,
            out.len() == i,
            forall|j: int|
                0 <= j < i ==> (#[trigger] out[j])@ == record_model(
                    Constructor { path: constructor@, fields: fields@ },
                    param@,
                    j,
                ),
        decreases n - i,
    {
        let name = if i < names.len() {
            assert(texts(names)[i as int] == names[i as int]@);
            names[i].clone()
        } else {
            String::new()
        };
        out.push(
            FieldRecord {
                position: i,
                name,
                shape: classify(fields.ty(i), param),
                constructor: constructor.clone(),
                style,
            },
        );
        i = i + 1;
    }
    out
}

/// Synthesizes the expression that rebuilds the field of a record from the
/// name that the arm's pattern binds to it.
pub fn synthesize_field(record: &FieldRecord) -> (out: Expr)
    ensures
        out@ == synth_model(record@.shape, ExprModel::Slot(record@.position)),
{
    synthesize(&record.shape, Expr::Slot(record.position))
}

fn generate_arm(path: String, fields: &Fields, param: &String) -> (out: Arm)
    ensures
        out@ == arm_model(Constructor { path: path@, fields: fields@ }, param@),
{
    let records = analyze_fields(&path, fields, param);
    let mut built: Vec<Expr> = Vec::new();
    let mut i: usize = 0;
    while i < records.len()
        invariant
            i <= records.len(),
            records.len() == fields@.types.len(),
            forall|j: int|
                0 <= j < records.len() ==> (#[trigger] records[j])@ == record_model(
                    Constructor { path: path@, fields: fields@ },
                    param@,
                    j,
                ),
            built.len() == i,
            forall|j: int|
                0 <= j < i ==> built[j]@ == synth_model(
                    classify_model(fields@.types[j], param@),
                    ExprModel::Slot(j as nat),
                ),
        decreases records.len() - i,
    {
        built.push(synthesize_field(&records[i]));
        i = i + 1;
    }
    let out = Arm { path, style: fields.style(), names: fields.names(), fields: built };
    assert(out@.fields =~= arm_model(Constructor { path: path@, fields: fields@ }, param@).fields);
    out
}

/// Generates the body of the map over `param` for the definition named
/// `def_name` with the data `data`.
///
/// The body has one arm per constructor, in declaration order, as
/// [`body_model`] gives them, and it computes the map of the definition.
pub fn generate_fmap_body(data: &Data, def_name: &String, param: &String) -> (out: Body)
    ensures
        out@ == body_model(def_name@, data@, param@),
        body_well_formed(out@),
        computes_subject_map(out@, constructors(def_name@, data@), param@),
{
    proof {
        lemma_data_is_well_formed(*data);
        lemma_body_is_well_formed(def_name@, data@, param@);
        lemma_generated_body_computes_map(def_name@, data@, param@);
    }
    let ghost cs = constructors(def_name@, data@);
    let mut arms: Vec<Arm> = Vec::new();
    match data {
        Data::Struct(fields) => {
            arms.push(generate_arm(def_name.clone(), fields, param));
        },
        Data::Enum(variants) => {
            let mut k: usize = 0;
            while k < variants.len()
                invariant
                    k <= variants.len(),
                    data@ == DataModel::Enum(Seq::new(variants.len() as nat, |i: int| variants[i]@)),
                    cs == constructors(def_name@, data@),
                    arms.len() == k,
                    forall|j: int| 0 <= j < k ==> arms[j]@ == arm_model(cs[j], param@),
                decreases variants.len() - k,
            {
                let mut path = def_name.clone();
                path.append("::");
                path.append(variants[k].name.as_str());
                arms.push(generate_arm(path, &variants[k].fields, param));
                k = k + 1;
            }
        },
    }
    let out = Body { arms };
    assert(out@ =~= arms_model(cs, param@));
    out
}

} // verus!
