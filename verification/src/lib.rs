//! Generates, from the type graphs of a code base and a binding configuration, the
//! text that describes which fields, methods and operators of the configured types
//! are bound to the scripting language.

pub mod arg_validator;
pub mod config;
pub mod cratepath;
pub mod emit;
pub mod error;
pub mod fields;
pub mod generate;
pub mod graph;
pub mod laws;
pub mod methods;
pub mod names;
pub mod operators;
pub mod resolve;
pub mod text;
pub mod wrapper;

pub use arg_validator::{Arg, ArgType, ArgWrapperType};
pub use config::{Args, Config, ManualLuaType, Newtype, TraitMethods};
pub use cratepath::{get_path, last_segment, write_use_items_from_path};
pub use emit::{generate_cfg_feature_attribute, generate_on_feature_attribute};
pub use error::GenerateError;
pub use generate::{generate_api_for_crates, generate_macros};
pub use graph::{stringify_type, Item, ItemKind, Param, TypeExpr, TypeGraph};
pub use names::OrderedMap;
pub use wrapper::{Member, WrappedItem, WRAPPER_PREFIX};
