//! The type graph: the items of a compiled code base, keyed by opaque ids, and
//! the table of their module paths.

use std::collections::HashMap;
use vstd::prelude::*;

verus! {

broadcast use vstd::std_specs::hash::group_hash_axioms;

/// A type expression as it stands in a signature or a field declaration.
pub enum TypeExpr {
    /// A path to a named type that takes no generic arguments.
    Named(String),
    /// A path to a named type applied to generic arguments; the name is that of the
    /// path.
    Applied(String),
    /// A type parameter in scope, `Self` among them.
    Param(String),
    /// A primitive of the language, such as `f32`.
    Primitive(String),
    /// A shared or mutable reference.
    Reference { mutable: bool, inner: Box<TypeExpr> },
    /// An associated type reached through a qualified path; the name is that of the
    /// associated type.
    Qualified(String),
    /// Any other form: a tuple, a slice, an array, a function pointer and so on.
    Other,
}

/// One parameter of a method: the name it is declared under, and its type.
pub struct Param {
    pub name: String,
    pub type_: TypeExpr,
}

/// What an item is, with what the generator reads of each kind.
pub enum ItemKind {
    /// A record type. `plain` tells a record with named fields from a tuple or unit record;
    /// `fields` lists its visible fields, `impls` its implementation blocks, both in
    /// declaration order.
    Record { plain: bool, fields: Vec<u64>, impls: Vec<u64> },
    /// A tagged union with its implementation blocks in declaration order.
    TaggedUnion { impls: Vec<u64> },
    /// An implementation block: the interface it implements, if any, the type it is
    /// written for, and its members in declaration order.
    ImplBlock { interface: Option<String>, target: TypeExpr, members: Vec<u64> },
    /// A method or associated function. `generic` is set when it declares generic
    /// parameters of its own.
    Method { inputs: Vec<Param>, output: Option<TypeExpr>, generic: bool },
    /// A field of a record.
    Field { type_: TypeExpr },
    /// An associated type of an implementation block.
    AssocType { default: Option<TypeExpr> },
    /// Anything else.
    Other,
}

/// A node of the type graph.
pub struct Item {
    pub id: u64,
    pub name: Option<String>,
    pub docs: Option<String>,
    pub attrs: Vec<String>,
    pub kind: ItemKind,
}

/// The name of an item as a sequence of characters; empty where it has none.
pub open spec fn item_name(item: Item) -> Seq<char> {
    match item.name {
        Some(n) => n@,
        None => Seq::empty(),
    }
}

/// The documentation of an item; empty where it has none.
pub open spec fn item_docs(item: Item) -> Seq<char> {
    match item.docs {
        Some(d) => d@,
        None => Seq::empty(),
    }
}

/// Whether an item is a record or a tagged union, the two kinds that can be bound.
pub open spec fn is_bindable(item: Item) -> bool {
    item.kind is Record || item.kind is TaggedUnion
}

/// The implementation blocks of a bindable item; empty for any other kind.
pub open spec fn item_impls(item: Item) -> Seq<u64> {
    match item.kind {
        ItemKind::Record { impls, .. } => impls@,
        ItemKind::TaggedUnion { impls } => impls@,
        _ => Seq::empty(),
    }
}

/// The name of a type expression where it has a plain one.
pub open spec fn spec_stringify_type(type_: TypeExpr) -> Option<Seq<char>> {
    match type_ {
        TypeExpr::Named(n) => Some(n@),
        TypeExpr::Applied(n) => Some(n@),
        TypeExpr::Param(n) => Some(n@),
        TypeExpr::Primitive(n) => Some(n@),
        TypeExpr::Qualified(n) => Some(n@),
        _ => None,
    }
}

/// Gives the name of a simple type expression: that of a path, a type parameter, a
/// primitive or an associated type. References and compound forms have none.
pub fn stringify_type(type_: &TypeExpr) -> (r: Option<String>)
    ensures
        match r {
            Some(s) => spec_stringify_type(*type_) == Some(s@),
            None => spec_stringify_type(*type_) is None,
        },
{
    match type_ {
        TypeExpr::Named(n) => Some(n.clone()),
        TypeExpr::Applied(n) => Some(n.clone()),
        TypeExpr::Param(n) => Some(n.clone()),
        TypeExpr::Primitive(n) => Some(n.clone()),
        TypeExpr::Qualified(n) => Some(n.clone()),
        _ => None,
    }
}

/// One type graph. Items and paths are keyed by id; `order` holds the ids of the
/// items in the order in which they were inserted, which is the order in which the
/// graph is searched by name.
pub struct TypeGraph {
    order: Vec<u64>,
    items: HashMap<u64, Item>,
    paths: HashMap<u64, Vec<String>>,
}

impl TypeGraph {
    /// The items of the graph by id.
    pub closed spec fn items(&self) -> Map<u64, Item> {
        self.items@
    }

    /// The ids of the items in insertion order.
    pub closed spec fn order(&self) -> Seq<u64> {
        self.order@
    }

    /// The path table: the module path of an item by id.
    pub closed spec fn paths(&self) -> Map<u64, Vec<String>> {
        self.paths@
    }

    /// Every item is filed under its own id, and `order` lists each id of the graph once.
    pub open spec fn wf(&self) -> bool {
        &&& self.order().no_duplicates()
        &&& forall|id: u64| self.order().contains(id) <==> #[trigger] self.items().contains_key(id)
        &&& forall|id: u64| #[trigger] self.items().contains_key(id) ==> self.items()[id].id == id
    }

    /// A graph without items or paths.
    pub fn new() -> (g: TypeGraph)
        ensures
            g.wf(),
            g.items() == Map::<u64, Item>::empty(),
            g.order() == Seq::<u64>::empty(),
            g.paths() == Map::<u64, Vec<String>>::empty(),
    {
        TypeGraph { order: Vec::new(), items: HashMap::new(), paths: HashMap::new() }
    }

    /// Files an item under its id. An item already filed under that id is replaced
    /// and keeps its place in the order.
    pub fn insert_item(&mut self, item: Item)
        ensures
            final(self).items() == old(self).items().insert(item.id, item),
            final(self).order() == if old(self).items().contains_key(item.id) {
                old(self).order()
            } else {
                old(self).order().push(item.id)
            },
            final(self).paths() == old(self).paths(),
            old(self).wf() ==> final(self).wf(),
    {
        let id = item.id;
        if !self.items.contains_key(&id) {
            self.order.push(id);
        }
        self.items.insert(id, item);
        proof {
            if old(self).wf() {
                assert forall|k: u64|
                    self.order().contains(k) <==> #[trigger] self.items().contains_key(k) by {
                    if old(self).items().contains_key(id) {
                    } else {
                        let o = old(self).order();
                        if o.contains(k) {
                            let j = choose|j: int| 0 <= j < o.len() && o[j] == k;
                            assert(o.push(id)[j] == k);
                        }
                        if k == id {
                            assert(o.push(id)[o.len() as int] == id);
                        }
                    }
                }
            }
        }
    }

    /// Files the module path of the item with the given id, in place of an earlier one.
    pub fn insert_path(&mut self, id: u64, path: Vec<String>)
        ensures
            final(self).paths() == old(self).paths().insert(id, path),
            final(self).items() == old(self).items(),
            final(self).order() == old(self).order(),
            old(self).wf() ==> final(self).wf(),
    {
        self.paths.insert(id, path);
    }

    /// Looks an item up by id.
    pub fn get(&self, id: u64) -> (r: Option<&Item>)
        ensures
            r == if self.items().contains_key(id) {
                Some(&self.items()[id])
            } else {
                None
            },
    {
        self.items.get(&id)
    }

    /// Looks the module path of an item up by id.
    pub fn get_path(&self, id: u64) -> (r: Option<&Vec<String>>)
        ensures
            r == if self.paths().contains_key(id) {
                Some(&self.paths()[id])
            } else {
                None
            },
    {
        self.paths.get(&id)
    }

    /// The number of items.
    pub fn len(&self) -> (n: usize)
        ensures
            n == self.order().len(),
    {
        self.order.len()
    }

    /// The id of the item at a position of the insertion order.
    pub fn id_at(&self, i: usize) -> (id: u64)
        requires
            i < self.order().len(),
        ensures
            id == self.order()[i as int],
    {
        self.order[i]
    }
}

} // verus!
