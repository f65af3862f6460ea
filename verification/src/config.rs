//! The binding configuration: which types are bound, under which names, and what
//! surrounds them in the generated text.

use crate::names::{name_set_contains, name_set_items, OrderedMap};
use indexmap::IndexSet;
use vstd::prelude::*;

verus! {

/// What the command line gives: the type graph documents, the configuration file,
/// and whether excluded methods are written out as comments.
pub struct Args {
    pub json: Vec<String>,
    pub config: String,
    pub print_errors: bool,
}

/// An interface whose methods a type accepts, with the path to import it by.
pub struct TraitMethods {
    pub name: String,
    pub import_path: String,
}

/// The configuration of one bound type.
pub struct Newtype {
    /// The name of the type.
    pub type_: String,
    /// Documentation that takes the place of the type's own.
    pub doc: Option<String>,
    /// The module that declares the type.
    pub source: String,
    /// A path that takes the place of the resolved one; empty where there is none.
    pub import_path: String,
    /// The interfaces whose methods are accepted, in order.
    pub traits: Vec<TraitMethods>,
    /// Blocks of derive flags, written out as they stand.
    pub derive_flags: Vec<String>,
    /// Signatures of further methods, written out as they stand.
    pub lua_methods: Vec<String>,
    /// The features that the binding of this type depends on.
    pub required_features: Vec<String>,
}

/// A wrapped type that is declared by hand elsewhere.
pub struct ManualLuaType {
    pub name: String,
    pub proxy_name: String,
    pub include_global_proxy: bool,
    pub use_dummy_proxy: bool,
    pub dont_process: bool,
}

/// The whole configuration.
pub struct Config {
    /// The name that the generated provider and its globals carry.
    pub api_name: String,
    /// The features that the generated provider depends on.
    pub required_features: Vec<String>,
    /// Imports written at the head of the generated text, line by line.
    pub imports: String,
    /// Further code written behind the bindings, line by line.
    pub other: String,
    /// Members written into the provider, line by line.
    pub lua_api_defaults: String,
    /// The names of the primitive types.
    pub primitives: IndexSet<String>,
    /// The wrapped types declared by hand.
    pub manual_lua_types: Vec<ManualLuaType>,
    /// The bound types as the configuration file lists them.
    pub types_: Vec<Newtype>,
    /// The bound types by name, in the order of the configuration file.
    pub types: OrderedMap<Newtype>,
}

impl Config {
    /// Whether a name is that of a configured primitive.
    pub open spec fn is_primitive(&self, name: Seq<char>) -> bool {
        name_set_items(self.primitives).contains(name)
    }

    /// Whether a name is that of a bound type.
    pub open spec fn is_wrapped(&self, name: Seq<char>) -> bool {
        self.types.spec_index_of(name) is Some
    }

    /// The bound types in the order of the configuration.
    pub open spec fn bound_types(&self) -> Seq<Newtype> {
        self.types.values().take(self.types.spec_len() as int)
    }

    /// Tells whether a name is that of a configured primitive.
    pub fn has_primitive(&self, name: &str) -> (r: bool)
        ensures
            r == self.is_primitive(name@),
    {
        name_set_contains(&self.primitives, name)
    }

    /// Tells whether a name is that of a bound type.
    pub fn has_type(&self, name: &str) -> (r: bool)
        ensures
            r == self.is_wrapped(name@),
    {
        self.types.contains_key(name)
    }
}

/// The table of bound types after one more type was filed in it.
pub open spec fn spec_file_type(keys: Seq<Seq<char>>, values: Seq<Newtype>, t: Newtype) -> (
    Seq<Seq<char>>,
    Seq<Newtype>,
) {
    if keys.contains(t.type_@) {
        (keys, values.update(keys.index_of(t.type_@), t))
    } else {
        (keys.push(t.type_@), values.push(t))
    }
}

/// The table of bound types after a list of types was filed in it, first to last.
pub open spec fn spec_file_types(keys: Seq<Seq<char>>, values: Seq<Newtype>, ts: Seq<Newtype>) -> (
    Seq<Seq<char>>,
    Seq<Newtype>,
)
    decreases ts.len(),
{
    if ts.len() == 0 {
        (keys, values)
    } else {
        let (k, v) = spec_file_types(keys, values, ts.drop_last());
        spec_file_type(k, v, ts.last())
    }
}

impl Config {
    /// Files the types that the configuration lists under their names, first to
    /// last. A name that is listed twice keeps its first place and its last entry.
    pub fn index_types(&mut self)
        requires
            old(self).types.wf(),
        ensures
            final(self).types.wf(),
            (final(self).types.keys(), final(self).types.values()) == spec_file_types(
                old(self).types.keys(),
                old(self).types.values(),
                old(self).types_@,
            ),
            final(self).types_@ == Seq::<Newtype>::empty(),
            final(self).api_name == old(self).api_name,
            final(self).required_features == old(self).required_features,
            final(self).imports == old(self).imports,
            final(self).other == old(self).other,
            final(self).lua_api_defaults == old(self).lua_api_defaults,
            final(self).primitives == old(self).primitives,
            final(self).manual_lua_types == old(self).manual_lua_types,
    {
        let mut listed: Vec<Newtype> = Vec::new();
        std::mem::swap(&mut listed, &mut self.types_);
        let ghost keys = self.types.keys();
        let ghost values = self.types.values();
        for t in it: listed
            invariant
                it.seq() == old(self).types_@,
                self.types.wf(),
                (self.types.keys(), self.types.values()) == spec_file_types(
                    keys,
                    values,
                    it.seq().take(it.index() as int),
                ),
                self.types_@ == Seq::<Newtype>::empty(),
                self.api_name == old(self).api_name,
                self.required_features == old(self).required_features,
                self.imports == old(self).imports,
                self.other == old(self).other,
                self.lua_api_defaults == old(self).lua_api_defaults,
                self.primitives == old(self).primitives,
                self.manual_lua_types == old(self).manual_lua_types,
        {
            proof {
                assert(it.seq().take(it.index() + 1).drop_last() =~= it.seq().take(
                    it.index() as int,
                ));
            }
            let key = t.type_.clone();
            self.types.insert(key, t);
        }
        proof {
            assert(old(self).types_@.take(old(self).types_@.len() as int) =~= old(self).types_@);
        }
    }
}

} // verus!
