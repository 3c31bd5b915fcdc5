//! The code-generation engine of a derive that gives a generic data type a
//! structure-preserving map over one of its type parameters.
//!
//! The engine works on syntax alone. A definition ([`definition`]) declares
//! fields with types as they are written ([`ty`]). For every field the engine
//! decides how the parameter occurs in the field's declared type ([`shape`],
//! with the known containers of [`registry`]), synthesizes the expression that
//! rebuilds the field with the transformation applied at every occurrence
//! ([`expr`]), and assembles the expressions into the body of the map
//! ([`body`]) and the body into an implementation ([`generate`]), which
//! [`derive`](crate::derive) renders as source text. The type of what is
//! rebuilt is computed in [`output`].
//!
//! What the expressions compute is defined in [`meaning`] and what types they
//! have in [`typing`]; [`laws`] states what holds of every generated map, and
//! [`interpret`] runs a generated body on a value.

use vstd::prelude::*;
use vstd::string::*;
use crate::definition::{Definition, DefinitionModel};
use crate::generate::{
    generate_impl, generate_model, impl_text, Attribute, AttributeModel, DeriveError, DeriveErrorModel,
};

pub mod body;
pub mod definition;
pub mod expr;
pub mod generate;
pub mod interpret;
pub mod laws;
pub mod meaning;
pub mod output;
pub mod registry;
pub mod shape;
pub mod text;
pub mod ty;
pub mod typing;

verus! {

/// The text generated for the first `n` of the targets `pairs`, each
/// implementation followed by a line break; the first target that is not a
/// type parameter of the definition makes the whole an error.
pub open spec fn derive_many(def: DefinitionModel, pairs: Seq<(Seq<char>, Seq<char>)>, n: nat) -> Result<
    Seq<char>,
    DeriveErrorModel,
>
    decreases n,
{
    if n == 0 || n > pairs.len() {
        Ok(Seq::empty())
    } else {
        match derive_many(def, pairs, (n - 1) as nat) {
            Err(e) => Err(e),
            Ok(text) => match generate_model(def, pairs[n - 1].0, Some(pairs[n - 1].1)) {
                Ok(g) => Ok(text + impl_text(g) + "\n"@),
                Err(e) => Err(e),
            },
        }
    }
}

/// The output of the derive for a definition and the targets asked for.
pub open spec fn derive_model(def: DefinitionModel, attribute: AttributeModel) -> Result<Seq<char>, DeriveErrorModel> {
    match attribute {
        AttributeModel::Single(param) => match generate_model(def, param, None) {
            Ok(g) => Ok(impl_text(g)),
            Err(e) => Err(e),
        },
        AttributeModel::Many(pairs) => derive_many(def, pairs, pairs.len()),
    }
}

/// Generates the source text of the map, or maps, of the definition `input`:
/// one implementation for a single target, and one per target where several
/// are asked for, in their order.
///
/// Where any target is not a type parameter of the definition, the error for
/// the first such target is returned and no text at all.
pub fn derive(input: &Definition, attribute: &Attribute) -> (out: Result<String, DeriveError>)
    ensures
        match derive_model(input@, attribute@) {
            Ok(text) => out matches Ok(made) && made@ == text,
            Err(e) => out matches Err(error) && error@ == e,
        },
{
    match attribute {
        Attribute::Single(functor_param) => {
            match generate_impl(input, functor_param, None) {
                Ok(made) => Ok(made.render()),
                Err(error) => Err(error),
            }
        },
        Attribute::Many(params) => {
            let mut text = String::new();
            let mut i: usize = 0;
            while i < params.len()
                invariant
                    i <= params.len(),
                    attribute@ == AttributeModel::Many(
                        Seq::new(params.len() as nat, |k: int| (params[k].0@, params[k].1@)),
                    ),
                    derive_many(input@, attribute@->Many_0, i as nat) == Ok::<Seq<char>, DeriveErrorModel>(text@),
                decreases params.len() - i,
            {
                match generate_impl(input, &params[i].0, Some(&params[i].1)) {
                    Ok(made) => {
                        text.append(made.render().as_str());
                        text.append("\n");
                    },
                    Err(error) => {
                        proof {
                            lemma_error_stays(input@, attribute@->Many_0, (i + 1) as nat, params.len() as nat);
                        }
                        return Err(error);
                    },
                }
                i = i + 1;
            }
            Ok(text)
        },
    }
}

proof fn lemma_error_stays(def: DefinitionModel, pairs: Seq<(Seq<char>, Seq<char>)>, n: nat, m: nat)
    requires
        n <= m <= pairs.len(),
        derive_many(def, pairs, n) is Err,
    ensures
        derive_many(def, pairs, m) == derive_many(def, pairs, n),
    decreases m,
{
    if n < m {
        lemma_error_stays(def, pairs, n, (m - 1) as nat);
    }
}

} // verus!
