//! Declared field types as syntax trees, and what can be read off them without
//! resolving any name.

use vstd::prelude::*;
use vstd::string::*;
use crate::text::{join, joined, texts};

verus! {

/// A type as it is written in a field declaration.
#[derive(Debug, PartialEq, Eq)]
pub enum TypeExpr {
    /// A plain path with the generic arguments of its last segment:
    /// `leading::segments::name<args>`. A path that begins with `::` has an
    /// empty first leading segment. A generic argument that is not a type (a
    /// lifetime, a constant) is carried as [`TypeExpr::Verbatim`].
    Path { leading: Vec<String>, name: String, args: Vec<TypeExpr> },
    /// A type in redundant parentheses: `(T)`.
    Paren(Box<TypeExpr>),
    /// A tuple type: `(T0, T1, ..)`.
    Tuple(Vec<TypeExpr>),
    /// A fixed-size array `[elem; len]`; the length is kept as written.
    Array { elem: Box<TypeExpr>, len: String },
    /// Any other syntax (a reference, a slice, a function pointer, ..), kept as
    /// written together with the identifiers that occur in it.
    Verbatim { text: String, idents: Vec<String> },
}

/// The mathematical model of a [`TypeExpr`].
pub enum TypeModel {
    Path { leading: Seq<Seq<char>>, name: Seq<char>, args: Seq<TypeModel> },
    Paren(Box<TypeModel>),
    Tuple(Seq<TypeModel>),
    Array { elem: Box<TypeModel>, len: Seq<char> },
    Verbatim { text: Seq<char>, idents: Seq<Seq<char>> },
}

/// The model of a type expression.
pub open spec fn type_view(ty: TypeExpr) -> TypeModel
    decreases ty,
{
    match ty {
        TypeExpr::Path { leading, name, args } => TypeModel::Path {
            leading: texts(leading),
            name: name@,
            args: Seq::new(
                args.len() as nat,
                |i: int|
                    if 0 <= i < args.len() {
                        type_view(args[i])
                    } else {
                        TypeModel::Tuple(Seq::empty())
                    },
            ),
        },
        TypeExpr::Paren(inner) => TypeModel::Paren(Box::new(type_view(*inner))),
        TypeExpr::Tuple(elems) => TypeModel::Tuple(
            Seq::new(
                elems.len() as nat,
                |i: int|
                    if 0 <= i < elems.len() {
                        type_view(elems[i])
                    } else {
                        TypeModel::Tuple(Seq::empty())
                    },
            ),
        ),
        TypeExpr::Array { elem, len } => TypeModel::Array { elem: Box::new(type_view(*elem)), len: len@ },
        TypeExpr::Verbatim { text, idents } => TypeModel::Verbatim { text: text@, idents: texts(idents) },
    }
}

impl View for TypeExpr {
    type V = TypeModel;

    open spec fn view(&self) -> TypeModel {
        type_view(*self)
    }
}

/// The models of a list of type expressions.
pub open spec fn type_views(items: Vec<TypeExpr>) -> Seq<TypeModel> {
    Seq::new(items.len() as nat, |i: int| items[i]@)
}

/// The type that is the bare name `name`.
pub open spec fn bare(name: Seq<char>) -> TypeModel {
    TypeModel::Path { leading: Seq::empty(), name, args: Seq::empty() }
}

/// Whether `ty` is the bare name `param` and nothing else.
pub open spec fn is_param(ty: TypeModel, param: Seq<char>) -> bool {
    ty == bare(param)
}

/// Whether the identifier `param` occurs anywhere in the syntax of `ty`.
pub open spec fn mentions(ty: TypeModel, param: Seq<char>) -> bool
    decreases ty,
{
    match ty {
        TypeModel::Path { leading, name, args } => {
            ||| name == param
            ||| leading.contains(param)
            ||| exists|i: int| 0 <= i < args.len() && mentions(#[trigger] args[i], param)
        },
        TypeModel::Paren(inner) => mentions(*inner, param),
        TypeModel::Tuple(elems) => exists|i: int| 0 <= i < elems.len() && mentions(#[trigger] elems[i], param),
        TypeModel::Array { elem, len } => mentions(*elem, param),
        TypeModel::Verbatim { text, idents } => idents.contains(param),
    }
}

/// The texts of the types of a list, in order.
pub open spec fn type_texts(items: Seq<TypeModel>) -> Seq<Seq<char>>
    decreases items, 0nat,
{
    Seq::new(
        items.len(),
        |i: int|
            if 0 <= i < items.len() {
                type_text(items[i])
            } else {
                Seq::empty()
            },
    )
}

/// The source text of a type.
pub open spec fn type_text(ty: TypeModel) -> Seq<char>
    decreases ty, 1nat,
{
    match ty {
        TypeModel::Path { leading, name, args } => {
            let path = if leading.len() == 0 {
                name
            } else {
                joined(leading, "::"@) + "::"@ + name
            };
            if args.len() == 0 {
                path
            } else {
                path + "<"@ + joined(type_texts(args), ", "@) + ">"@
            }
        },
        TypeModel::Paren(inner) => "("@ + type_text(*inner) + ")"@,
        TypeModel::Tuple(elems) => if elems.len() == 1 {
            "("@ + type_text(elems[0]) + ",)"@
        } else {
            "("@ + joined(type_texts(elems), ", "@) + ")"@
        },
        TypeModel::Array { elem, len } => "["@ + type_text(*elem) + "; "@ + len + "]"@,
        TypeModel::Verbatim { text, idents } => text,
    }
}

/// Whether `needle` is one of `items`.
pub fn contains_text(items: &Vec<String>, needle: &String) -> (found: bool)
    ensures
        found == texts(*items).contains(needle@),
{
    let mut i: usize = 0;
    while i < items.len()
        invariant
            i <= items.len(),
            forall|j: int| 0 <= j < i ==> texts(*items)[j] != needle@,
        decreases items.len() - i,
    {
        if items[i] == *needle {
            assert(texts(*items)[i as int] == needle@);
            return true;
        }
        i = i + 1;
    }
    false
}

/// A copy of a list of strings.
pub fn copy_texts(items: &Vec<String>) -> (out: Vec<String>)
    ensures
        texts(out) == texts(*items),
{
    let mut out: Vec<String> = Vec::new();
    let mut i: usize = 0;
    while i < items.len()
        invariant
            i <= items.len(),
            out.len() == i,
            forall|j: int| 0 <= j < i ==> out[j]@ == items[j]@,
        decreases items.len() - i,
    {
        out.push(items[i].clone());
        i = i + 1;
    }
    assert(texts(out) =~= texts(*items));
    out
}

impl TypeExpr {
    /// The bare name `name` as a type.
    pub fn named(name: &str) -> (out: TypeExpr)
        ensures
            out@ == bare(name@),
    {
        let out = TypeExpr::Path { leading: Vec::new(), name: String::from_str(name), args: Vec::new() };
        assert(out@->Path_leading =~= Seq::empty());
        assert(out@->Path_args =~= Seq::empty());
        out
    }

    /// Whether this type is the bare name `param`.
    pub fn is_param(&self, param: &String) -> (out: bool)
        ensures
            out == is_param(self@, param@),
    {
        match self {
            TypeExpr::Path { leading, name, args } => {
                let out = leading.len() == 0 && args.len() == 0 && *name == *param;
                proof {
                    if out {
                        assert(self@->Path_leading =~= Seq::empty());
                        assert(self@->Path_args =~= Seq::empty());
                    } else {
                        assert(self@->Path_leading.len() == leading.len());
                        assert(self@->Path_args.len() == args.len());
                    }
                }
                out
            },
            _ => false,
        }
    }

    /// A deep copy.
    pub fn duplicate(&self) -> (out: TypeExpr)
        ensures
            out@ == self@,
        decreases self,
    {
        match self {
            TypeExpr::Path { leading, name, args } => {
                let mut copies: Vec<TypeExpr> = Vec::new();
                let mut i: usize = 0;
                while i < args.len()
                    invariant
                        i <= args.len(),
                        self matches TypeExpr::Path { args: a, .. } && a == *args,
                        copies.len() == i,
                        forall|j: int| 0 <= j < i ==> copies[j]@ == args[j]@,
                    decreases args.len() - i,
                {
                    assert(decreases_to!(*self => self->Path_args));
                    copies.push(args[i].duplicate());
                    i = i + 1;
                }
                let out = TypeExpr::Path { leading: copy_texts(leading), name: name.clone(), args: copies };
                assert(out@->Path_args =~= self@->Path_args);
                out
            },
            TypeExpr::Paren(inner) => TypeExpr::Paren(Box::new(inner.duplicate())),
            TypeExpr::Tuple(elems) => {
                let mut copies: Vec<TypeExpr> = Vec::new();
                let mut i: usize = 0;
                while i < elems.len()
                    invariant
                        i <= elems.len(),
                        self matches TypeExpr::Tuple(e) && e == *elems,
                        copies.len() == i,
                        forall|j: int| 0 <= j < i ==> copies[j]@ == elems[j]@,
                    decreases elems.len() - i,
                {
                    assert(decreases_to!(*self => self->Tuple_0));
                    copies.push(elems[i].duplicate());
                    i = i + 1;
                }
                let out = TypeExpr::Tuple(copies);
                assert(out@->Tuple_0 =~= self@->Tuple_0);
                out
            },
            TypeExpr::Array { elem, len } => TypeExpr::Array { elem: Box::new(elem.duplicate()), len: len.clone() },
            TypeExpr::Verbatim { text, idents } => TypeExpr::Verbatim {
                text: text.clone(),
                idents: copy_texts(idents),
            },
        }
    }

    /// Whether the identifier `param` occurs anywhere in this type.
    pub fn mentions(&self, param: &String) -> (out: bool)
        ensures
            out == mentions(self@, param@),
        decreases self,
    {
        match self {
            TypeExpr::Path { leading, name, args } => {
                if *name == *param || contains_text(leading, param) {
                    return true;
                }
                let mut i: usize = 0;
                while i < args.len()
                    invariant
                        i <= args.len(),
                        self matches TypeExpr::Path { args: a, .. } && a == *args,
                        forall|j: int| 0 <= j < i ==> !mentions(args[j]@, param@),
                    decreases args.len() - i,
                {
                    assert(decreases_to!(*self => self->Path_args));
                    if args[i].mentions(param) {
                        assert(self@->Path_args[i as int] == args[i as int]@);
                        return true;
                    }
                    i = i + 1;
                }
                assert forall|j: int| 0 <= j < self@->Path_args.len() implies !mentions(
                    #[trigger] self@->Path_args[j],
                    param@,
                ) by {
                    assert(self@->Path_args[j] == args[j]@);
                }
                false
            },
            TypeExpr::Paren(inner) => inner.mentions(param),
            TypeExpr::Tuple(elems) => {
                let mut i: usize = 0;
                while i < elems.len()
                    invariant
                        i <= elems.len(),
                        self matches TypeExpr::Tuple(e) && e == *elems,
                        forall|j: int| 0 <= j < i ==> !mentions(elems[j]@, param@),
                    decreases elems.len() - i,
                {
                    assert(decreases_to!(*self => self->Tuple_0));
                    if elems[i].mentions(param) {
                        assert(self@->Tuple_0[i as int] == elems[i as int]@);
                        return true;
                    }
                    i = i + 1;
                }
                assert forall|j: int| 0 <= j < self@->Tuple_0.len() implies !mentions(
                    #[trigger] self@->Tuple_0[j],
                    param@,
                ) by {
                    assert(self@->Tuple_0[j] == elems[j]@);
                }
                false
            },
            TypeExpr::Array { elem, len } => elem.mentions(param),
            TypeExpr::Verbatim { text, idents } => contains_text(idents, param),
        }
    }

    /// The source text of this type.
    pub fn render(&self) -> (out: String)
        ensures
            out@ == type_text(self@),
        decreases self,
    {
        match self {
            TypeExpr::Path { leading, name, args } => {
                let mut out = String::new();
                if leading.len() > 0 {
                    out = join(leading, "::");
                    out.append("::");
                }
                out.append(name.as_str());
                assert(self@->Path_leading.len() == leading.len());
                assert(out@ =~= if leading.len() == 0 {
                    name@
                } else {
                    joined(texts(*leading), "::"@) + "::"@ + name@
                });
                if args.len() > 0 {
                    let mut parts: Vec<String> = Vec::new();
                    let mut i: usize = 0;
                    while i < args.len()
                        invariant
                            i <= args.len(),
                            self matches TypeExpr::Path { args: a, .. } && a == *args,
                            parts.len() == i,
                            forall|j: int| 0 <= j < i ==> parts[j]@ == type_text(args[j]@),
                        decreases args.len() - i,
                    {
                        assert(decreases_to!(*self => self->Path_args));
                        parts.push(args[i].render());
                        i = i + 1;
                    }
                    assert(texts(parts) =~= type_texts(self@->Path_args));
                    out.append("<");
                    out.append(join(&parts, ", ").as_str());
                    out.append(">");
                }
                out
            },
            TypeExpr::Paren(inner) => {
                let mut out = String::from_str("(");
                out.append(inner.render().as_str());
                out.append(")");
                out
            },
            TypeExpr::Tuple(elems) => {
                let mut parts: Vec<String> = Vec::new();
                let mut i: usize = 0;
                while i < elems.len()
                    invariant
                        i <= elems.len(),
                        self matches TypeExpr::Tuple(e) && e == *elems,
                        parts.len() == i,
                        forall|j: int| 0 <= j < i ==> parts[j]@ == type_text(elems[j]@),
                    decreases elems.len() - i,
                {
                    assert(decreases_to!(*self => self->Tuple_0));
                    parts.push(elems[i].render());
                    i = i + 1;
                }
                assert(texts(parts) =~= type_texts(self@->Tuple_0));
                let mut out = String::from_str("(");
                if elems.len() == 1 {
                    out.append(parts[0].as_str());
                    out.append(",)");
                } else {
                    out.append(join(&parts, ", ").as_str());
                    out.append(")");
                }
                out
            },
            TypeExpr::Array { elem, len } => {
                let mut out = String::from_str("[");
                out.append(elem.render().as_str());
                out.append("; ");
                out.append(len.as_str());
                out.append("]");
                out
            },
            TypeExpr::Verbatim { text, idents } => text.clone(),
        }
    }
}

} // verus!
