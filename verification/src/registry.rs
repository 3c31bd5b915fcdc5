//! The table of generic containers whose shape is known by name and arity.
//!
//! Matching is by the last path segment and the number of generic arguments
//! only: the engine sees syntax, never resolved types.

use vstd::prelude::*;
use vstd::string::*;

verus! {

/// The containers the engine maps through.
#[derive(Clone, Copy, Debug, PartialEq, Eq)]
pub enum ContainerKind {
    /// `Option<T>`: at most one value.
    Optional,
    /// `Box<T>`: exactly one value.
    Boxed,
    /// `Vec<T>`.
    Vector,
    /// `VecDeque<T>`.
    Deque,
    /// `LinkedList<T>`.
    List,
    /// `HashMap<K, V>`: only the values are mapped.
    HashMap,
    /// `BTreeMap<K, V>`: only the values are mapped.
    TreeMap,
}

/// One row of the table: a container's name, how many generic arguments it
/// takes, and which of them holds the values that are mapped. The other
/// arguments are passed through untouched.
pub struct Entry {
    pub name: String,
    pub arity: usize,
    pub mapped: usize,
    pub kind: ContainerKind,
}

/// The mathematical model of an [`Entry`].
pub struct EntryModel {
    pub name: Seq<char>,
    pub arity: nat,
    pub mapped: nat,
    pub kind: ContainerKind,
}

impl View for Entry {
    type V = EntryModel;

    open spec fn view(&self) -> EntryModel {
        EntryModel { name: self.name@, arity: self.arity as nat, mapped: self.mapped as nat, kind: self.kind }
    }
}

/// The models of a list of entries.
pub open spec fn entry_views(entries: Vec<Entry>) -> Seq<EntryModel> {
    Seq::new(entries.len() as nat, |i: int| entries[i]@)
}

/// The table itself.
pub open spec fn table() -> Seq<EntryModel> {
    seq![
        EntryModel { name: "Option"@, arity: 1, mapped: 0, kind: ContainerKind::Optional },
        EntryModel { name: "Box"@, arity: 1, mapped: 0, kind: ContainerKind::Boxed },
        EntryModel { name: "Vec"@, arity: 1, mapped: 0, kind: ContainerKind::Vector },
        EntryModel { name: "VecDeque"@, arity: 1, mapped: 0, kind: ContainerKind::Deque },
        EntryModel { name: "LinkedList"@, arity: 1, mapped: 0, kind: ContainerKind::List },
        EntryModel { name: "HashMap"@, arity: 2, mapped: 1, kind: ContainerKind::HashMap },
        EntryModel { name: "BTreeMap"@, arity: 2, mapped: 1, kind: ContainerKind::TreeMap },
    ]
}

/// The name of the zero-sized marker type.
pub open spec fn marker_name() -> Seq<char> {
    "PhantomData"@
}

/// Whether a row describes a type written `name<..>` with `arity` arguments.
pub open spec fn entry_matches(entry: EntryModel, name: Seq<char>, arity: nat) -> bool {
    entry.name == name && entry.arity == arity && entry.mapped < arity
}

/// The first row among the first `n` of `rows` that matches.
pub open spec fn find_prefix(rows: Seq<EntryModel>, name: Seq<char>, arity: nat, n: nat) -> Option<EntryModel>
    decreases n,
{
    if n == 0 || n > rows.len() {
        None
    } else {
        match find_prefix(rows, name, arity, (n - 1) as nat) {
            Some(entry) => Some(entry),
            None => if entry_matches(rows[n - 1], name, arity) {
                Some(rows[n - 1])
            } else {
                None
            },
        }
    }
}

/// The row of the table for a type written `name<..>` with `arity` generic
/// arguments, if the table knows it.
pub open spec fn lookup_model(name: Seq<char>, arity: nat) -> Option<EntryModel> {
    find_prefix(table(), name, arity, table().len())
}

fn row(name: &str, arity: usize, mapped: usize, kind: ContainerKind) -> (out: Entry)
    ensures
        out@ == (EntryModel { name: name@, arity: arity as nat, mapped: mapped as nat, kind }),
{
    Entry { name: String::from_str(name), arity, mapped, kind }
}

/// Builds the table.
pub fn standard() -> (out: Vec<Entry>)
    ensures
        entry_views(out) == table(),
{
    let mut out: Vec<Entry> = Vec::new();
    out.push(row("Option", 1, 0, ContainerKind::Optional));
    out.push(row("Box", 1, 0, ContainerKind::Boxed));
    out.push(row("Vec", 1, 0, ContainerKind::Vector));
    out.push(row("VecDeque", 1, 0, ContainerKind::Deque));
    out.push(row("LinkedList", 1, 0, ContainerKind::List));
    out.push(row("HashMap", 2, 1, ContainerKind::HashMap));
    out.push(row("BTreeMap", 2, 1, ContainerKind::TreeMap));
    assert(entry_views(out) =~= table());
    out
}

/// Looks a type up in `rows` by the name of its last path segment and the
/// number of its generic arguments. Returns the container's kind and the
/// position of the argument that is mapped.
pub fn find(rows: &Vec<Entry>, name: &String, arity: usize) -> (out: Option<(ContainerKind, usize)>)
    ensures
        match find_prefix(entry_views(*rows), name@, arity as nat, rows.len() as nat) {
            Some(entry) => out == Some((entry.kind, entry.mapped as usize)) && entry.mapped < arity,
            None => out is None,
        },
{
    let ghost models = entry_views(*rows);
    let mut i: usize = 0;
    while i < rows.len()
        invariant
            i <= rows.len(),
            models == entry_views(*rows),
            find_prefix(models, name@, arity as nat, i as nat) is None,
        decreases rows.len() - i,
    {
        let entry = &rows[i];
        assert(models[i as int] == entry@);
        if entry.name == *name && entry.arity == arity && entry.mapped < arity {
            proof {
                lemma_found_stays(models, name@, arity as nat, (i + 1) as nat, rows.len() as nat);
            }
            return Some((entry.kind, entry.mapped));
        }
        i = i + 1;
    }
    None
}

/// Once a row is found among the first `n`, it is the answer for every longer
/// prefix.
pub proof fn lemma_found_stays(rows: Seq<EntryModel>, name: Seq<char>, arity: nat, n: nat, m: nat)
    requires
        n <= m <= rows.len(),
        find_prefix(rows, name, arity, n) is Some,
    ensures
        find_prefix(rows, name, arity, m) == find_prefix(rows, name, arity, n),
    decreases m,
{
    if n < m {
        lemma_found_stays(rows, name, arity, n, (m - 1) as nat);
    }
}

/// Looks a type up in the table.
pub fn lookup(name: &String, arity: usize) -> (out: Option<(ContainerKind, usize)>)
    ensures
        match lookup_model(name@, arity as nat) {
            Some(entry) => out == Some((entry.kind, entry.mapped as usize)) && entry.mapped < arity,
            None => out is None,
        },
{
    let rows = standard();
    find(&rows, name, arity)
}

/// Whether `name` is the name of the marker type.
pub fn is_marker_name(name: &String) -> (out: bool)
    ensures
        out == (name@ == marker_name()),
{
    *name == String::from_str("PhantomData")
}

} // verus!
