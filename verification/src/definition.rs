//! The data type a map is derived for: its name, its generic parameters and
//! the fields of its variants.

use vstd::prelude::*;
use crate::text::texts;
use crate::ty::{type_views, TypeExpr, TypeModel};

verus! {

/// The three kinds of generic parameter.
#[derive(Clone, Copy, Debug, PartialEq, Eq)]
pub enum ParamKind {
    Lifetime,
    Type,
    Const,
}

/// A declared generic parameter.
#[derive(Debug, PartialEq, Eq)]
pub struct GenericParam {
    pub kind: ParamKind,
    /// The parameter as it is named in a type: `'a`, `T`, `N`.
    pub ident: String,
    /// The bounds of the parameter as written after its colon; empty where it
    /// has none.
    pub bounds: String,
    /// The whole declaration as written: `'a: 'b`, `T: Clone`, `const N: usize`.
    pub decl: String,
}

/// The mathematical model of a [`GenericParam`].
pub struct GenericParamModel {
    pub kind: ParamKind,
    pub ident: Seq<char>,
    pub bounds: Seq<char>,
    pub decl: Seq<char>,
}

impl View for GenericParam {
    type V = GenericParamModel;

    open spec fn view(&self) -> GenericParamModel {
        GenericParamModel { kind: self.kind, ident: self.ident@, bounds: self.bounds@, decl: self.decl@ }
    }
}

/// The models of a list of generic parameters.
pub open spec fn param_views(params: Vec<GenericParam>) -> Seq<GenericParamModel> {
    Seq::new(params.len() as nat, |i: int| params[i]@)
}

/// How the fields of a struct or variant are written.
#[derive(Clone, Copy, Debug, PartialEq, Eq)]
pub enum FieldStyle {
    /// `{ name: T, .. }`
    Named,
    /// `(T, ..)`
    Positional,
    /// No fields and no brackets.
    Unit,
}

/// A named field.
#[derive(Debug, PartialEq, Eq)]
pub struct Field {
    pub name: String,
    pub ty: TypeExpr,
}

/// The fields of a struct or of one variant of an enum, in declaration order.
#[derive(Debug, PartialEq, Eq)]
pub enum Fields {
    Named(Vec<Field>),
    Positional(Vec<TypeExpr>),
    Unit,
}

/// The mathematical model of [`Fields`]: the style, the declared types in
/// order, and the names of named fields (empty for the other styles).
pub struct FieldsModel {
    pub style: FieldStyle,
    pub names: Seq<Seq<char>>,
    pub types: Seq<TypeModel>,
}

impl View for Fields {
    type V = FieldsModel;

    open spec fn view(&self) -> FieldsModel {
        match self {
            Fields::Named(members) => FieldsModel {
                style: FieldStyle::Named,
                names: Seq::new(members.len() as nat, |i: int| members[i].name@),
                types: Seq::new(members.len() as nat, |i: int| members[i].ty@),
            },
            Fields::Positional(types) => FieldsModel {
                style: FieldStyle::Positional,
                names: Seq::empty(),
                types: type_views(*types),
            },
            Fields::Unit => FieldsModel { style: FieldStyle::Unit, names: Seq::empty(), types: Seq::empty() },
        }
    }
}

/// One variant of an enum.
#[derive(Debug, PartialEq, Eq)]
pub struct Variant {
    pub name: String,
    pub fields: Fields,
}

/// The mathematical model of a [`Variant`].
pub struct VariantModel {
    pub name: Seq<char>,
    pub fields: FieldsModel,
}

impl View for Variant {
    type V = VariantModel;

    open spec fn view(&self) -> VariantModel {
        VariantModel { name: self.name@, fields: self.fields@ }
    }
}

/// What a definition declares: a struct has one set of fields, an enum has
/// variants.
#[derive(Debug, PartialEq, Eq)]
pub enum Data {
    Struct(Fields),
    Enum(Vec<Variant>),
}

/// The mathematical model of [`Data`].
pub enum DataModel {
    Struct(FieldsModel),
    Enum(Seq<VariantModel>),
}

impl View for Data {
    type V = DataModel;

    open spec fn view(&self) -> DataModel {
        match self {
            Data::Struct(fields) => DataModel::Struct(fields@),
            Data::Enum(variants) => DataModel::Enum(Seq::new(variants.len() as nat, |i: int| variants[i]@)),
        }
    }
}

/// A struct or enum definition.
#[derive(Debug, PartialEq, Eq)]
pub struct Definition {
    pub name: String,
    /// All generic parameters in declaration order: lifetimes, types and
    /// constants.
    pub generics: Vec<GenericParam>,
    pub data: Data,
}

/// The mathematical model of a [`Definition`].
pub struct DefinitionModel {
    pub name: Seq<char>,
    pub generics: Seq<GenericParamModel>,
    pub data: DataModel,
}

impl View for Definition {
    type V = DefinitionModel;

    open spec fn view(&self) -> DefinitionModel {
        DefinitionModel { name: self.name@, generics: param_views(self.generics), data: self.data@ }
    }
}

/// Whether fields are written as their style says: a name for each where
/// they are named and no names otherwise, and no fields where the style is
/// that of a unit.
pub open spec fn fields_well_formed(fields: FieldsModel) -> bool {
    match fields.style {
        FieldStyle::Named => fields.names.len() == fields.types.len(),
        FieldStyle::Positional => fields.names.len() == 0,
        FieldStyle::Unit => fields.names.len() == 0 && fields.types.len() == 0,
    }
}

/// Whether the fields of every constructor are well formed.
pub open spec fn data_well_formed(data: DataModel) -> bool {
    match data {
        DataModel::Struct(fields) => fields_well_formed(fields),
        DataModel::Enum(variants) => forall|k: int|
            0 <= k < variants.len() ==> fields_well_formed(#[trigger] variants[k].fields),
    }
}

/// The data of a definition that can be written down are well formed.
pub proof fn lemma_data_is_well_formed(data: Data)
    ensures
        data_well_formed(data@),
{
}

/// A constructor of the definition: the path that names it and its fields.
pub struct Constructor {
    pub path: Seq<char>,
    pub fields: FieldsModel,
}

/// The constructors of the definition named `name` with the data `data`, in
/// declaration order: the struct itself, or each variant of the enum under the
/// enum's name.
pub open spec fn constructors(name: Seq<char>, data: DataModel) -> Seq<Constructor> {
    match data {
        DataModel::Struct(fields) => seq![Constructor { path: name, fields }],
        DataModel::Enum(variants) => Seq::new(
            variants.len(),
            |i: int| Constructor { path: name + "::"@ + variants[i].name, fields: variants[i].fields },
        ),
    }
}

/// The position of the first type parameter among the first `n` generic
/// parameters that is named `param`.
pub open spec fn position_prefix(generics: Seq<GenericParamModel>, param: Seq<char>, n: nat) -> Option<nat>
    decreases n,
{
    if n == 0 || n > generics.len() {
        None
    } else {
        match position_prefix(generics, param, (n - 1) as nat) {
            Some(i) => Some(i),
            None => if generics[n - 1].kind == ParamKind::Type && generics[n - 1].ident == param {
                Some((n - 1) as nat)
            } else {
                None
            },
        }
    }
}

/// The position of the type parameter named `param` in the generic parameter
/// list, if there is one. Lifetimes and constants are never a target.
pub open spec fn position_of(generics: Seq<GenericParamModel>, param: Seq<char>) -> Option<nat> {
    position_prefix(generics, param, generics.len())
}

/// The name of the first type parameter among the first `n` generic
/// parameters.
pub open spec fn first_type_prefix(generics: Seq<GenericParamModel>, n: nat) -> Option<Seq<char>>
    decreases n,
{
    if n == 0 || n > generics.len() {
        None
    } else {
        match first_type_prefix(generics, (n - 1) as nat) {
            Some(name) => Some(name),
            None => if generics[n - 1].kind == ParamKind::Type {
                Some(generics[n - 1].ident)
            } else {
                None
            },
        }
    }
}

/// A position that is found holds a type parameter of that name, and no
/// earlier position does.
pub proof fn lemma_position_found(generics: Seq<GenericParamModel>, param: Seq<char>, n: nat)
    requires
        n <= generics.len(),
    ensures
        match position_prefix(generics, param, n) {
            Some(i) => {
                &&& i < n
                &&& generics[i as int].kind == ParamKind::Type
                &&& generics[i as int].ident == param
                &&& forall|j: int|
                    0 <= j < i ==> !(generics[j].kind == ParamKind::Type && generics[j].ident == param)
            },
            None => forall|j: int|
                0 <= j < n ==> !(generics[j].kind == ParamKind::Type && generics[j].ident == param),
        },
    decreases n,
{
    if n > 0 {
        lemma_position_found(generics, param, (n - 1) as nat);
    }
}

proof fn lemma_position_stays(generics: Seq<GenericParamModel>, param: Seq<char>, n: nat, m: nat)
    requires
        n <= m <= generics.len(),
        position_prefix(generics, param, n) is Some,
    ensures
        position_prefix(generics, param, m) == position_prefix(generics, param, n),
    decreases m,
{
    if n < m {
        lemma_position_stays(generics, param, n, (m - 1) as nat);
    }
}

proof fn lemma_first_type_stays(generics: Seq<GenericParamModel>, n: nat, m: nat)
    requires
        n <= m <= generics.len(),
        first_type_prefix(generics, n) is Some,
    ensures
        first_type_prefix(generics, m) == first_type_prefix(generics, n),
    decreases m,
{
    if n < m {
        lemma_first_type_stays(generics, n, (m - 1) as nat);
    }
}

impl Fields {
    /// The number of fields.
    pub fn count(&self) -> (out: usize)
        ensures
            out == self@.types.len(),
    {
        match self {
            Fields::Named(members) => members.len(),
            Fields::Positional(types) => types.len(),
            Fields::Unit => 0,
        }
    }

    /// The style in which the fields are written.
    pub fn style(&self) -> (out: FieldStyle)
        ensures
            out == self@.style,
    {
        match self {
            Fields::Named(members) => FieldStyle::Named,
            Fields::Positional(types) => FieldStyle::Positional,
            Fields::Unit => FieldStyle::Unit,
        }
    }

    /// The declared type of the field at position `i`.
    pub(crate) fn ty(&self, i: usize) -> (out: &TypeExpr)
        requires
            i < self@.types.len(),
        ensures
            out@ == self@.types[i as int],
    {
        match self {
            Fields::Named(members) => &members[i].ty,
            Fields::Positional(types) => &types[i],
            Fields::Unit => vstd::pervasive::unreached(),
        }
    }

    /// The names of the fields, where they are named.
    pub fn names(&self) -> (out: Vec<String>)
        ensures
            texts(out) == self@.names,
    {
        let mut out: Vec<String> = Vec::new();
        match self {
            Fields::Named(members) => {
                let mut i: usize = 0;
                while i < members.len()
                    invariant
                        i <= members.len(),
                        out.len() == i,
                        forall|j: int| 0 <= j < i ==> out[j]@ == members[j].name@,
                    decreases members.len() - i,
                {
                    out.push(members[i].name.clone());
                    i = i + 1;
                }
                assert(texts(out) =~= self@.names);
            },
            _ => {
                assert(texts(out) =~= self@.names);
            },
        }
        out
    }
}

impl Definition {
    /// The position of the type parameter named `param` among the generic
    /// parameters.
    pub fn position_of(&self, param: &String) -> (out: Option<usize>)
        ensures
            match position_of(self@.generics, param@) {
                Some(i) => out == Some(i as usize) && i < self.generics.len(),
                None => out is None,
            },
    {
        let ghost generics = self@.generics;
        let mut i: usize = 0;
        while i < self.generics.len()
            invariant
                i <= self.generics.len(),
                generics == self@.generics,
                position_prefix(generics, param@, i as nat) is None,
            decreases self.generics.len() - i,
        {
            let candidate = &self.generics[i];
            assert(generics[i as int] == candidate@);
            let is_type = match candidate.kind {
                ParamKind::Type => true,
                _ => false,
            };
            if is_type && candidate.ident == *param {
                proof {
                    lemma_position_stays(generics, param@, (i + 1) as nat, generics.len());
                }
                return Some(i);
            }
            i = i + 1;
        }
        None
    }

    /// The first declared type parameter: the target of the map where none is
    /// named.
    pub fn first_type_param(&self) -> (out: Option<String>)
        ensures
            match first_type_prefix(self@.generics, self@.generics.len()) {
                Some(name) => out matches Some(found) && found@ == name,
                None => out is None,
            },
    {
        let ghost generics = self@.generics;
        let mut i: usize = 0;
        while i < self.generics.len()
            invariant
                i <= self.generics.len(),
                generics == self@.generics,
                first_type_prefix(generics, i as nat) is None,
            decreases self.generics.len() - i,
        {
            let candidate = &self.generics[i];
            assert(generics[i as int] == candidate@);
            let is_type = match candidate.kind {
                ParamKind::Type => true,
                _ => false,
            };
            if is_type {
                proof {
                    lemma_first_type_stays(generics, (i + 1) as nat, generics.len());
                }
                return Some(candidate.ident.clone());
            }
            i = i + 1;
        }
        None
    }
}

} // verus!
