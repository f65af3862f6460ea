//! Resolution of the configured types: which item of which graph each of them is.

use crate::config::Newtype;
use crate::graph::{is_bindable, Item, ItemKind, TypeGraph};
use crate::wrapper::Target;
use vstd::prelude::*;
use vstd::string::*;

verus! {

/// Whether an item is the type that goes by a name: a record or a tagged union of
/// that name.
pub open spec fn spec_matches(item: Item, name: Seq<char>) -> bool {
    &&& is_bindable(item)
    &&& match item.name {
        Some(n) => n@ == name,
        None => false,
    }
}

/// Whether the item under an id of a graph is the type that goes by a name.
pub open spec fn spec_matches_id(graph: TypeGraph, id: u64, name: Seq<char>) -> bool {
    graph.items().contains_key(id) && spec_matches(graph.items()[id], name)
}

/// The id of the first item of a graph, from position `i` of its order on, that is
/// the type that goes by a name.
pub open spec fn spec_find_in_graph(graph: TypeGraph, name: Seq<char>, i: int) -> Option<u64>
    decreases graph.order().len() - i,
{
    if i < 0 || i >= graph.order().len() {
        None
    } else if spec_matches_id(graph, graph.order()[i], name) {
        Some(graph.order()[i])
    } else {
        spec_find_in_graph(graph, name, i + 1)
    }
}

/// Where the type that goes by a name is found first: the position of the graph
/// among the graphs from position `g` on, and the id of the item in it.
pub open spec fn spec_find(crates: Seq<TypeGraph>, name: Seq<char>, g: int) -> Option<(int, u64)>
    decreases crates.len() - g,
{
    if g < 0 || g >= crates.len() {
        None
    } else {
        match spec_find_in_graph(crates[g], name, 0) {
            Some(id) => Some((g, id)),
            None => spec_find(crates, name, g + 1),
        }
    }
}

/// The names of the configured types that no graph holds, in configuration order.
pub open spec fn spec_missing(crates: Seq<TypeGraph>, types: Seq<Newtype>) -> Seq<Seq<char>>
    decreases types.len(),
{
    if types.len() == 0 {
        Seq::empty()
    } else {
        let rest = spec_missing(crates, types.drop_last());
        if spec_find(crates, types.last().type_@, 0) is None {
            rest.push(types.last().type_@)
        } else {
            rest
        }
    }
}

/// What the generator reads of a configured type that is found in the graphs.
pub open spec fn spec_target(crates: Seq<TypeGraph>, newtype: Newtype) -> Target {
    let (g, id) = spec_find(crates, newtype.type_@, 0)->0;
    Target {
        items: crates[g].items(),
        item: crates[g].items()[id],
        newtype,
        path: crates[g].paths()[crates[g].items()[id].id]@,
    }
}

/// What the generator reads of each configured type, in configuration order.
pub open spec fn spec_targets(crates: Seq<TypeGraph>, types: Seq<Newtype>) -> Seq<Target> {
    Seq::new(types.len(), |k: int| spec_target(crates, types[k]))
}

impl Newtype {
    /// Tells whether an item is the type that this configuration is for.
    pub fn matches_result(&self, item: &Item, _source: &TypeGraph) -> (r: bool)
        ensures
            r == spec_matches(*item, self.type_@),
    {
        let bindable = match &item.kind {
            ItemKind::Record { .. } => true,
            ItemKind::TaggedUnion { .. } => true,
            _ => false,
        };
        match &item.name {
            Some(n) => bindable && n.eq(&self.type_),
            None => false,
        }
    }
}

/// Finds the first item of a graph that is the type of a configuration.
pub fn find_in_graph<'a>(graph: &'a TypeGraph, newtype: &Newtype) -> (r: Option<&'a Item>)
    ensures
        match r {
            Some(item) => match spec_find_in_graph(*graph, newtype.type_@, 0) {
                Some(id) => spec_matches_id(*graph, id, newtype.type_@) && *item
                    == graph.items()[id],
                None => false,
            },
            None => spec_find_in_graph(*graph, newtype.type_@, 0) is None,
        },
{
    let mut i: usize = 0;
    while i < graph.len()
        invariant
            i <= graph.order().len(),
            spec_find_in_graph(*graph, newtype.type_@, 0) == spec_find_in_graph(
                *graph,
                newtype.type_@,
                i as int,
            ),
        decreases graph.order().len() - i,
    {
        let id = graph.id_at(i);
        match graph.get(id) {
            Some(item) => {
                if newtype.matches_result(item, graph) {
                    return Some(item);
                }
            },
            None => {},
        }
        i = i + 1;
    }
    None
}

/// Finds the type of a configuration in the graphs: the first graph that holds it,
/// and the item in that graph.
pub fn find<'a>(crates: &'a Vec<TypeGraph>, newtype: &Newtype) -> (r: Option<
    (&'a TypeGraph, &'a Item),
>)
    ensures
        match r {
            Some((graph, item)) => match spec_find(crates@, newtype.type_@, 0) {
                Some((g, id)) => 0 <= g < crates@.len() && *graph == crates@[g]
                    && spec_matches_id(crates@[g], id, newtype.type_@) && *item
                    == crates@[g].items()[id],
                None => false,
            },
            None => spec_find(crates@, newtype.type_@, 0) is None,
        },
{
    let mut g: usize = 0;
    while g < crates.len()
        invariant
            g <= crates.len(),
            spec_find(crates@, newtype.type_@, 0) == spec_find(crates@, newtype.type_@, g as int),
        decreases crates.len() - g,
    {
        match find_in_graph(&crates[g], newtype) {
            Some(item) => {
                return Some((&crates[g], item));
            },
            None => {},
        }
        g = g + 1;
    }
    None
}

} // verus!
