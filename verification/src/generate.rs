//! Generation of the implementation for one target parameter: which form it
//! takes, what it is called, and its source text.

use vstd::prelude::*;
use vstd::string::*;
use crate::body::{
    body_model, body_text, body_well_formed, computes_subject_map, generate_fmap_body, lemma_body_is_well_formed,
    ArmModel, Body,
};
use crate::definition::{
    constructors, data_well_formed, lemma_data_is_well_formed, lemma_position_found, position_of, Definition,
    DefinitionModel, GenericParamModel,
};
use crate::text::{join, joined, replaced, texts};

verus! {

/// Why nothing was generated.
#[derive(Debug, PartialEq, Eq)]
pub enum DeriveError {
    /// The named target is not a type parameter of the definition.
    UnknownParameter { param: String, subject: String },
}

/// The mathematical model of a [`DeriveError`].
pub enum DeriveErrorModel {
    UnknownParameter { param: Seq<char>, subject: Seq<char> },
}

impl View for DeriveError {
    type V = DeriveErrorModel;

    open spec fn view(&self) -> DeriveErrorModel {
        match self {
            DeriveError::UnknownParameter { param, subject } => DeriveErrorModel::UnknownParameter {
                param: param@,
                subject: subject@,
            },
        }
    }
}

/// The text of the diagnostic for an error.
pub open spec fn message_text(error: DeriveErrorModel) -> Seq<char> {
    match error {
        DeriveErrorModel::UnknownParameter { param, subject } => "The generic parameter `"@ + param
            + "` could not be found in the definition of `"@ + subject + "`."@,
    }
}

impl DeriveError {
    /// The diagnostic: it names the missing parameter and the definition.
    pub fn message(&self) -> (out: String)
        ensures
            out@ == message_text(self@),
    {
        match self {
            DeriveError::UnknownParameter { param, subject } => {
                let mut out = String::from_str("The generic parameter `");
                out.append(param.as_str());
                out.append("` could not be found in the definition of `");
                out.append(subject.as_str());
                out.append("`.");
                out
            },
        }
    }
}

/// Which parameters to derive a map for: a single one, or several, each with
/// the suffix that sets its operations apart.
#[derive(Debug, PartialEq, Eq)]
pub enum Attribute {
    Single(String),
    Many(Vec<(String, String)>),
}

/// The mathematical model of an [`Attribute`].
pub enum AttributeModel {
    Single(Seq<char>),
    Many(Seq<(Seq<char>, Seq<char>)>),
}

impl View for Attribute {
    type V = AttributeModel;

    open spec fn view(&self) -> AttributeModel {
        match self {
            Attribute::Single(param) => AttributeModel::Single(param@),
            Attribute::Many(pairs) => AttributeModel::Many(
                Seq::new(pairs.len() as nat, |i: int| (pairs[i].0@, pairs[i].1@)),
            ),
        }
    }
}

/// The two forms of generated implementation.
#[derive(Clone, Copy, Debug, PartialEq, Eq)]
pub enum ImplForm {
    /// An implementation of the `Functor` interface.
    Trait,
    /// Four operations of the type's own.
    Inherent,
}

/// The names of the four operations.
#[derive(Debug, PartialEq, Eq)]
pub struct MethodNames {
    pub fmap: String,
    pub fmap_ref: String,
    pub try_fmap: String,
    pub try_fmap_ref: String,
}

/// The mathematical model of [`MethodNames`].
pub struct MethodNamesModel {
    pub fmap: Seq<char>,
    pub fmap_ref: Seq<char>,
    pub try_fmap: Seq<char>,
    pub try_fmap_ref: Seq<char>,
}

impl View for MethodNames {
    type V = MethodNamesModel;

    open spec fn view(&self) -> MethodNamesModel {
        MethodNamesModel {
            fmap: self.fmap@,
            fmap_ref: self.fmap_ref@,
            try_fmap: self.try_fmap@,
            try_fmap_ref: self.try_fmap_ref@,
        }
    }
}

/// The implementation generated for one target parameter.
#[derive(Debug, PartialEq, Eq)]
pub struct Generated {
    pub form: ImplForm,
    /// The name of the definition.
    pub subject: String,
    /// The target parameter.
    pub param: String,
    /// The position of the target among the generic parameters.
    pub position: usize,
    /// The declarations of all generic parameters, as written.
    pub generics: Vec<String>,
    /// The generic arguments of the type that is mapped: each parameter by
    /// its name.
    pub source_args: Vec<String>,
    /// The generic arguments of the type that results: the same, with `__B`
    /// in the place of the target.
    pub target_args: Vec<String>,
    /// The bounds of the target, which the new element type must meet too.
    pub bounds: String,
    pub names: MethodNames,
    pub body: Body,
}

/// The mathematical model of a [`Generated`].
pub struct GeneratedModel {
    pub form: ImplForm,
    pub subject: Seq<char>,
    pub param: Seq<char>,
    pub position: nat,
    pub generics: Seq<Seq<char>>,
    pub source_args: Seq<Seq<char>>,
    pub target_args: Seq<Seq<char>>,
    pub bounds: Seq<char>,
    pub names: MethodNamesModel,
    pub body: Seq<ArmModel>,
}

impl View for Generated {
    type V = GeneratedModel;

    open spec fn view(&self) -> GeneratedModel {
        GeneratedModel {
            form: self.form,
            subject: self.subject@,
            param: self.param@,
            position: self.position as nat,
            generics: texts(self.generics),
            source_args: texts(self.source_args),
            target_args: texts(self.target_args),
            bounds: self.bounds@,
            names: self.names@,
            body: self.body@,
        }
    }
}

/// Whether the parts of an implementation belong together: one argument on
/// each side for every generic parameter, the target among them, and the two
/// argument lists alike but for `__B` in the place of the target.
pub open spec fn generated_well_formed(g: GeneratedModel) -> bool {
    &&& g.position < g.generics.len()
    &&& g.source_args.len() == g.generics.len()
    &&& g.source_args[g.position as int] == g.param
    &&& g.target_args == replaced(g.source_args, g.position, "__B"@)
    &&& g.form is Trait ==> g.bounds.len() == 0
    &&& body_well_formed(g.body)
}

/// What is put behind the names of the operations: nothing, or an underscore
/// and the suffix.
pub open spec fn suffix_text(suffix: Option<Seq<char>>) -> Seq<char> {
    match suffix {
        Some(s) => "_"@ + s,
        None => Seq::empty(),
    }
}

/// The names of the four operations under a suffix.
pub open spec fn method_names(suffix: Option<Seq<char>>) -> MethodNamesModel {
    MethodNamesModel {
        fmap: "fmap"@ + suffix_text(suffix),
        fmap_ref: "fmap_ref"@ + suffix_text(suffix),
        try_fmap: "try_fmap"@ + suffix_text(suffix),
        try_fmap_ref: "try_fmap_ref"@ + suffix_text(suffix),
    }
}

/// The implementation for the type parameter `param` at position `idx` of
/// the generic parameters of `def`.
///
/// All generic parameters are kept as declared. The interface is implemented
/// only where the target has no bounds and no suffix was asked for; otherwise
/// the type gets four operations of its own.
pub open spec fn generated_model(def: DefinitionModel, param: Seq<char>, suffix: Option<Seq<char>>, idx: nat) -> GeneratedModel {
    let idents = Seq::new(def.generics.len(), |i: int| def.generics[i].ident);
    GeneratedModel {
        form: if def.generics[idx as int].bounds.len() == 0 && suffix is None {
            ImplForm::Trait
        } else {
            ImplForm::Inherent
        },
        subject: def.name,
        param,
        position: idx,
        generics: Seq::new(def.generics.len(), |i: int| def.generics[i].decl),
        source_args: idents,
        target_args: replaced(idents, idx, "__B"@),
        bounds: def.generics[idx as int].bounds,
        names: method_names(suffix),
        body: body_model(def.name, def.data, param),
    }
}

/// What generation for one target yields: the implementation where `param`
/// names a type parameter of the definition, and otherwise the error that
/// names the parameter and the definition.
pub open spec fn generate_model(def: DefinitionModel, param: Seq<char>, suffix: Option<Seq<char>>) -> Result<
    GeneratedModel,
    DeriveErrorModel,
> {
    match position_of(def.generics, param) {
        Some(idx) => Ok(generated_model(def, param, suffix, idx)),
        None => Err(DeriveErrorModel::UnknownParameter { param, subject: def.name }),
    }
}

/// The text of a type applied to generic arguments.
pub open spec fn applied_text(name: Seq<char>, args: Seq<Seq<char>>) -> Seq<char> {
    name + "<"@ + joined(args, ", "@) + ">"@
}

/// The text of one operation.
pub open spec fn fn_text(
    head: Seq<char>,
    name: Seq<char>,
    generics: Seq<char>,
    arg: Seq<char>,
    ret: Seq<char>,
    body: Seq<char>,
) -> Seq<char> {
    head + name + "<"@ + generics + ">(self, __f: "@ + arg + ") -> "@ + ret + " { "@ + body + " } "@
}

/// The type of the transformation handed to a total operation.
pub open spec fn total_fn_type(param: Seq<char>) -> Seq<char> {
    "impl Fn("@ + param + ") -> __B"@
}

/// The type of the transformation handed to a fallible operation.
pub open spec fn fallible_fn_type(param: Seq<char>) -> Seq<char> {
    "impl Fn("@ + param + ") -> Result<__B, __E>"@
}

/// The result type of a fallible operation.
pub open spec fn fallible_result(target: Seq<char>) -> Seq<char> {
    "Result<"@ + target + ", __E>"@
}

/// The source text of a generated implementation.
pub open spec fn impl_text(g: GeneratedModel) -> Seq<char> {
    let source = applied_text(g.subject, g.source_args);
    let target = applied_text(g.subject, g.target_args);
    let total = body_text(g.body, false);
    let fallible = "Ok("@ + body_text(g.body, true) + ")"@;
    match g.form {
        ImplForm::Trait => "impl<"@ + joined(g.generics, ", "@) + "> ::functor_derive::Functor<"@ + g.param
            + "> for "@ + source + " { type Target<__B> = "@ + target + "; "@ + fn_text(
            "fn "@,
            "fmap_ref"@,
            "__B"@,
            "&"@ + total_fn_type(g.param),
            target,
            total,
        ) + fn_text(
            "fn "@,
            "try_fmap_ref"@,
            "__B, __E"@,
            "&"@ + fallible_fn_type(g.param),
            fallible_result(target),
            fallible,
        ) + "}"@,
        ImplForm::Inherent => "impl<"@ + joined(g.generics, ", "@) + "> "@ + source + " { "@ + fn_text(
            "pub fn "@,
            g.names.fmap,
            "__B: "@ + g.bounds,
            total_fn_type(g.param),
            target,
            "self."@ + g.names.fmap_ref + "(&__f)"@,
        ) + fn_text(
            "pub fn "@,
            g.names.fmap_ref,
            "__B: "@ + g.bounds,
            "&"@ + total_fn_type(g.param),
            target,
            total,
        ) + fn_text(
            "pub fn "@,
            g.names.try_fmap,
            "__B: "@ + g.bounds + ", __E"@,
            fallible_fn_type(g.param),
            fallible_result(target),
            "self."@ + g.names.try_fmap_ref + "(&__f)"@,
        ) + fn_text(
            "pub fn "@,
            g.names.try_fmap_ref,
            "__B: "@ + g.bounds + ", __E"@,
            "&"@ + fallible_fn_type(g.param),
            fallible_result(target),
            fallible,
        ) + "}"@,
    }
}

fn applied(name: &String, args: &Vec<String>) -> (out: String)
    ensures
        out@ == applied_text(name@, texts(*args)),
{
    let mut out = name.clone();
    out.append("<");
    out.append(join(args, ", ").as_str());
    out.append(">");
    out
}

fn render_fn(head: &str, name: &str, generics: &str, arg: &str, ret: &str, body: &str) -> (out: String)
    ensures
        out@ == fn_text(head@, name@, generics@, arg@, ret@, body@),
{
    let mut out = String::from_str(head);
    out.append(name);
    out.append("<");
    out.append(generics);
    out.append(">(self, __f: ");
    out.append(arg);
    out.append(") -> ");
    out.append(ret);
    out.append(" { ");
    out.append(body);
    out.append(" } ");
    out
}

fn suffixed(base: &str, suffix: Option<&String>) -> (out: String)
    ensures
        out@ == base@ + suffix_text(
            match suffix {
                Some(s) => Some(s@),
                None => None,
            },
        ),
{
    let mut out = String::from_str(base);
    match suffix {
        Some(s) => {
            let mut tail = String::from_str("_");
            tail.append(s.as_str());
            out.append(tail.as_str());
        },
        None => {
            assert(out@ + Seq::<char>::empty() =~= out@);
        },
    }
    out
}

impl Generated {
    /// The source text of this implementation.
    pub fn render(&self) -> (out: String)
        ensures
            out@ == impl_text(self@),
    {
        let source = applied(&self.subject, &self.source_args);
        let target = applied(&self.subject, &self.target_args);
        let total = self.body.render(false);
        let mut fallible = String::from_str("Ok(");
        fallible.append(self.body.render(true).as_str());
        fallible.append(")");
        let mut total_fn = String::from_str("impl Fn(");
        total_fn.append(self.param.as_str());
        total_fn.append(") -> __B");
        let mut fallible_fn = String::from_str("impl Fn(");
        fallible_fn.append(self.param.as_str());
        fallible_fn.append(") -> Result<__B, __E>");
        let mut total_ref = String::from_str("&");
        total_ref.append(total_fn.as_str());
        let mut fallible_ref = String::from_str("&");
        fallible_ref.append(fallible_fn.as_str());
        let mut result = String::from_str("Result<");
        result.append(target.as_str());
        result.append(", __E>");
        let mut out = String::from_str("impl<");
        out.append(join(&self.generics, ", ").as_str());
        match self.form {
            ImplForm::Trait => {
                out.append("> ::functor_derive::Functor<");
                out.append(self.param.as_str());
                out.append("> for ");
                out.append(source.as_str());
                out.append(" { type Target<__B> = ");
                out.append(target.as_str());
                out.append("; ");
                out.append(
                    render_fn("fn ", "fmap_ref", "__B", total_ref.as_str(), target.as_str(), total.as_str()).as_str(),
                );
                out.append(
                    render_fn(
                        "fn ",
                        "try_fmap_ref",
                        "__B, __E",
                        fallible_ref.as_str(),
                        result.as_str(),
                        fallible.as_str(),
                    ).as_str(),
                );
                out.append("}");
            },
            ImplForm::Inherent => {
                let mut bound = String::from_str("__B: ");
                bound.append(self.bounds.as_str());
                let mut bound_and_error = bound.clone();
                bound_and_error.append(", __E");
                let mut forward = String::from_str("self.");
                forward.append(self.names.fmap_ref.as_str());
                forward.append("(&__f)");
                let mut try_forward = String::from_str("self.");
                try_forward.append(self.names.try_fmap_ref.as_str());
                try_forward.append("(&__f)");
                out.append("> ");
                out.append(source.as_str());
                out.append(" { ");
                out.append(
                    render_fn(
                        "pub fn ",
                        self.names.fmap.as_str(),
                        bound.as_str(),
                        total_fn.as_str(),
                        target.as_str(),
                        forward.as_str(),
                    ).as_str(),
                );
                out.append(
                    render_fn(
                        "pub fn ",
                        self.names.fmap_ref.as_str(),
                        bound.as_str(),
                        total_ref.as_str(),
                        target.as_str(),
                        total.as_str(),
                    ).as_str(),
                );
                out.append(
                    render_fn(
                        "pub fn ",
                        self.names.try_fmap.as_str(),
                        bound_and_error.as_str(),
                        fallible_fn.as_str(),
                        result.as_str(),
                        try_forward.as_str(),
                    ).as_str(),
                );
                out.append(
                    render_fn(
                        "pub fn ",
                        self.names.try_fmap_ref.as_str(),
                        bound_and_error.as_str(),
                        fallible_ref.as_str(),
                        result.as_str(),
                        fallible.as_str(),
                    ).as_str(),
                );
                out.append("}");
            },
        }
        out
    }

    /// The text of the type that the map yields when the transformation
    /// yields values of the type written `element`: the definition applied to
    /// its own parameters, with `element` in the place of the target.
    pub fn output_type(&self, element: &String) -> (out: String)
        ensures
            out@ == applied_text(self@.subject, replaced(self@.source_args, self@.position, element@)),
    {
        let mut args: Vec<String> = Vec::new();
        let mut i: usize = 0;
        while i < self.source_args.len()
            invariant
                i <= self.source_args.len(),
                args.len() == i,
                forall|j: int|
                    0 <= j < i ==> args[j]@ == (if j == self.position {
                        element@
                    } else {
                        self.source_args[j]@
                    }),
            decreases self.source_args.len() - i,
        {
            if i == self.position {
                args.push(element.clone());
            } else {
                args.push(self.source_args[i].clone());
            }
            i = i + 1;
        }
        assert(texts(args) =~= replaced(self@.source_args, self@.position, element@));
        applied(&self.subject, &args)
    }
}

/// Generates the implementation of the map over the parameter `functor_param`
/// of the definition `input`, under the suffix `name_suffix` where one is
/// given.
///
/// Fails, with nothing generated, exactly where `functor_param` does not name
/// a type parameter of the definition. What is generated is well formed, and
/// its body computes the map of the definition.
pub fn generate_impl(input: &Definition, functor_param: &String, name_suffix: Option<&String>) -> (out: Result<
    Generated,
    DeriveError,
>)
    ensures
        match generate_model(
            input@,
            functor_param@,
            match name_suffix {
                Some(s) => Some(s@),
                None => None,
            },
        ) {
            Ok(g) => out matches Ok(made) && made@ == g,
            Err(e) => out matches Err(error) && error@ == e,
        },
        out matches Ok(made) ==> generated_well_formed(made@) && computes_subject_map(
            made@.body,
            constructors(input@.name, input@.data),
            functor_param@,
        ),
{
    let ghost suffix = match name_suffix {
        Some(s) => Some(s@),
        None => None,
    };
    let idx = match input.position_of(functor_param) {
        Some(idx) => idx,
        None => {
            return Err(
                DeriveError::UnknownParameter { param: functor_param.clone(), subject: input.name.clone() },
            );
        },
    };
    let mut generics: Vec<String> = Vec::new();
    let mut source_args: Vec<String> = Vec::new();
    let mut target_args: Vec<String> = Vec::new();
    let mut i: usize = 0;
    while i < input.generics.len()
        invariant
            i <= input.generics.len(),
            generics.len() == i,
            source_args.len() == i,
            target_args.len() == i,
            forall|j: int| 0 <= j < i ==> generics[j]@ == input.generics[j].decl@,
            forall|j: int| 0 <= j < i ==> source_args[j]@ == input.generics[j].ident@,
            forall|j: int|
                0 <= j < i ==> target_args[j]@ == (if j == idx {
                    "__B"@
                } else {
                    input.generics[j].ident@
                }),
        decreases input.generics.len() - i,
    {
        let declared = &input.generics[i];
        generics.push(declared.decl.clone());
        source_args.push(declared.ident.clone());
        if i == idx {
            target_args.push(String::from_str("__B"));
        } else {
            target_args.push(declared.ident.clone());
        }
        i = i + 1;
    }
    let target = &input.generics[idx];
    let form = if target.bounds.as_str().is_empty() && name_suffix.is_none() {
        ImplForm::Trait
    } else {
        ImplForm::Inherent
    };
    let names = MethodNames {
        fmap: suffixed("fmap", name_suffix),
        fmap_ref: suffixed("fmap_ref", name_suffix),
        try_fmap: suffixed("try_fmap", name_suffix),
        try_fmap_ref: suffixed("try_fmap_ref", name_suffix),
    };
    let body = generate_fmap_body(&input.data, &input.name, functor_param);
    let made = Generated {
        form,
        subject: input.name.clone(),
        param: functor_param.clone(),
        position: idx,
        generics,
        source_args,
        target_args,
        bounds: target.bounds.clone(),
        names,
        body,
    };
    proof {
        let want = generated_model(input@, functor_param@, suffix, idx as nat);
        assert(input@.generics[idx as int] == target@);
        assert(made@.generics =~= want.generics);
        assert(made@.source_args =~= want.source_args);
        assert(made@.target_args =~= want.target_args);
        lemma_data_is_well_formed(input.data);
        lemma_generated_is_well_formed(input@, functor_param@, suffix);
    }
    Ok(made)
}

/// Whatever is generated is well formed.
pub proof fn lemma_generated_is_well_formed(def: DefinitionModel, param: Seq<char>, suffix: Option<Seq<char>>)
    requires
        data_well_formed(def.data),
    ensures
        generate_model(def, param, suffix) matches Ok(g) ==> generated_well_formed(g),
{
    lemma_position_found(def.generics, param, def.generics.len());
    lemma_body_is_well_formed(def.name, def.data, param);
}

/// Whether no two generic parameters of a list have the same name, as the
/// language demands of every definition.
pub open spec fn distinct_names(generics: Seq<GenericParamModel>) -> bool {
    forall|i: int, j: int|
        0 <= i < generics.len() && 0 <= j < generics.len() && i != j ==> generics[i].ident != generics[j].ident
}

/// The type that results is the type that is mapped with every occurrence of
/// the target among its generic arguments replaced, and nothing else changed:
/// lifetimes, constants and the other type parameters stand where they stood.
pub proof fn law_result_type_replaces_the_target(def: DefinitionModel, param: Seq<char>, suffix: Option<Seq<char>>)
    requires
        distinct_names(def.generics),
        generate_model(def, param, suffix) is Ok,
    ensures
        ({
            let g = generate_model(def, param, suffix)->Ok_0;
            &&& g.target_args.len() == g.source_args.len()
            &&& forall|j: int|
                0 <= j < g.source_args.len() ==> #[trigger] g.target_args[j] == (if g.source_args[j] == param {
                    "__B"@
                } else {
                    g.source_args[j]
                })
        }),
{
    lemma_position_found(def.generics, param, def.generics.len());
}

} // verus!
