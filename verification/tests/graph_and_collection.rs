use bevy_api_gen::config::Args;
use bevy_api_gen::wrapper::resolve_impl_blocks;
use bevy_api_gen::{
    GenerateError, Item, ItemKind, Newtype, Param, TypeExpr, TypeGraph, WrappedItem,
    WRAPPER_PREFIX,
};

fn s(x: &str) -> String {
    x.to_string()
}

fn item(id: u64, name: Option<&str>, kind: ItemKind) -> Item {
    Item { id, name: name.map(s), docs: None, attrs: vec![], kind }
}

fn block(id: u64, interface: Option<&str>, members: Vec<u64>) -> Item {
    item(
        id,
        None,
        ItemKind::ImplBlock {
            interface: interface.map(s),
            target: TypeExpr::Named(s("Vec2")),
            members,
        },
    )
}

fn method(id: u64, name: &str) -> Item {
    item(
        id,
        Some(name),
        ItemKind::Method {
            inputs: vec![Param { name: s("self"), type_: TypeExpr::Param(s("Self")) }],
            output: None,
            generic: false,
        },
    )
}

fn newtype(name: &str) -> Newtype {
    Newtype {
        type_: s(name),
        doc: None,
        source: s("bevy_math"),
        import_path: String::new(),
        traits: vec![],
        derive_flags: vec![],
        lua_methods: vec![],
        required_features: vec![],
    }
}

fn args() -> Args {
    Args { json: vec![], config: String::new(), print_errors: false }
}

fn graph() -> TypeGraph {
    let mut g = TypeGraph::new();
    g.insert_item(item(
        1,
        Some("Vec2"),
        ItemKind::Record { plain: true, fields: vec![], impls: vec![20, 21, 22, 23] },
    ));
    g.insert_item(block(20, None, vec![30, 31]));
    g.insert_item(block(21, Some("Clone"), vec![32]));
    g.insert_item(block(22, Some("Add"), vec![33, 99]));
    g.insert_item(block(23, Some("Clone"), vec![34]));
    g.insert_item(method(30, "new"));
    g.insert_item(method(31, "add"));
    g.insert_item(method(32, "clone"));
    g.insert_item(method(33, "add"));
    g.insert_item(method(34, "new"));
    g.insert_path(1, vec![s("bevy_math"), s("vec2"), s("Vec2")]);
    g
}

fn names(members: &[bevy_api_gen::Member]) -> Vec<(u64, u64)> {
    members.iter().map(|m| (m.impl_.id, m.item.id)).collect()
}

#[test]
fn graph_lookup_by_id() {
    let g = graph();
    assert_eq!(g.len(), 10);
    assert_eq!(g.get(30).map(|i| i.id), Some(30));
    assert_eq!(g.get(30).and_then(|i| i.name.clone()), Some(s("new")));
    assert!(g.get(99).is_none());
    assert_eq!(g.id_at(0), 1);
    assert_eq!(g.id_at(9), 34);
}

#[test]
fn graph_insert_replaces_item_in_place() {
    let mut g = graph();
    g.insert_item(method(20, "now_a_method"));
    assert_eq!(g.len(), 10);
    assert_eq!(g.id_at(1), 20);
    assert_eq!(g.get(20).and_then(|i| i.name.clone()), Some(s("now_a_method")));
}

#[test]
fn wrapper_prefix_is_lua() {
    assert_eq!(WRAPPER_PREFIX, "Lua");
}

#[test]
fn impl_blocks_resolve_in_order() {
    let g = graph();
    let blocks = resolve_impl_blocks(&vec![22, 20], &g).ok().unwrap();
    assert_eq!(blocks.iter().map(|b| b.id).collect::<Vec<_>>(), vec![22, 20]);
}

#[test]
fn impl_block_that_is_no_block_is_an_error() {
    let g = graph();
    let r = resolve_impl_blocks(&vec![20, 30, 77], &g);
    assert!(matches!(r, Err(GenerateError::NotAnImplBlock(30))));
}

#[test]
fn impl_block_that_is_missing_is_an_error() {
    let g = graph();
    let r = resolve_impl_blocks(&vec![20, 77, 30], &g);
    assert!(matches!(r, Err(GenerateError::NotAnImplBlock(77))));
}

#[test]
fn collection_keeps_declaration_order() {
    let g = graph();
    let nt = newtype("Vec2");
    let w = WrappedItem::new(g.get(1).unwrap(), &g, &nt).ok().unwrap();
    assert_eq!(w.wrapper_name, "LuaVec2");
    assert_eq!(w.wrapped_type, "Vec2");
    assert_eq!(w.path_components, &vec![s("bevy_math"), s("vec2"), s("Vec2")]);
    assert!(!w.has_global_methods);
    assert_eq!(names(&w.members), vec![(20, 30), (20, 31), (21, 32), (22, 33), (23, 34)]);
}

#[test]
fn collection_groups_members_by_name() {
    let g = graph();
    let nt = newtype("Vec2");
    let w = WrappedItem::new(g.get(1).unwrap(), &g, &nt).ok().unwrap();
    assert_eq!(w.impl_items.len(), 3);
    assert_eq!(w.impl_items.key_at(0), "new");
    assert_eq!(w.impl_items.key_at(1), "add");
    assert_eq!(w.impl_items.key_at(2), "clone");
    assert_eq!(names(w.impl_items.get("new").unwrap()), vec![(20, 30), (23, 34)]);
    assert_eq!(names(w.impl_items.get("add").unwrap()), vec![(20, 31), (22, 33)]);
    assert_eq!(names(w.impl_items.get("clone").unwrap()), vec![(21, 32)]);
    assert!(w.impl_items.get("neg").is_none());
}

#[test]
fn collection_notes_interfaces_once_in_order() {
    let g = graph();
    let nt = newtype("Vec2");
    let w = WrappedItem::new(g.get(1).unwrap(), &g, &nt).ok().unwrap();
    let traits: Vec<&String> = w.implemented_traits.iter().collect();
    assert_eq!(traits, vec!["Clone", "Add"]);
    assert_eq!(w.self_impl.map(|b| b.id), Some(20));
}

#[test]
fn collection_takes_last_inherent_block() {
    let mut g = TypeGraph::new();
    g.insert_item(item(1, Some("T"), ItemKind::TaggedUnion { impls: vec![2, 3, 4] }));
    g.insert_item(block(2, None, vec![]));
    g.insert_item(block(3, None, vec![]));
    g.insert_item(block(4, Some("Debug"), vec![]));
    g.insert_path(1, vec![s("m"), s("T")]);
    let nt = newtype("T");
    let w = WrappedItem::new(g.get(1).unwrap(), &g, &nt).ok().unwrap();
    assert_eq!(w.self_impl.map(|b| b.id), Some(3));
    assert!(w.members.is_empty());
    assert_eq!(w.impl_items.len(), 0);
}

#[test]
fn collection_fails_on_bad_impl_before_missing_path() {
    let mut g = TypeGraph::new();
    g.insert_item(item(
        1,
        Some("T"),
        ItemKind::Record { plain: false, fields: vec![], impls: vec![5] },
    ));
    g.insert_item(method(5, "f"));
    let nt = newtype("T");
    let r = WrappedItem::new(g.get(1).unwrap(), &g, &nt);
    assert!(matches!(r, Err(GenerateError::NotAnImplBlock(5))));
}

#[test]
fn collection_fails_without_path() {
    let mut g = TypeGraph::new();
    g.insert_item(item(
        1,
        Some("T"),
        ItemKind::Record { plain: false, fields: vec![], impls: vec![5] },
    ));
    g.insert_item(block(5, None, vec![]));
    g.insert_path(2, vec![s("m")]);
    let nt = newtype("T");
    let r = WrappedItem::new(g.get(1).unwrap(), &g, &nt);
    assert!(matches!(r, Err(GenerateError::MissingPath(1))));
}

#[test]
fn full_path_joins_segments_or_takes_override() {
    let g = graph();
    let nt = newtype("Vec2");
    let w = WrappedItem::new(g.get(1).unwrap(), &g, &nt).ok().unwrap();
    let mut out = String::new();
    w.write_inline_full_path(&mut out, &args());
    assert_eq!(out, "bevy_math::vec2::Vec2");
    let mut over = newtype("Vec2");
    over.import_path = s("glam::f32::Vec2");
    let w2 = WrappedItem::new(g.get(1).unwrap(), &g, &over).ok().unwrap();
    let mut out2 = String::new();
    w2.write_inline_full_path(&mut out2, &args());
    assert_eq!(out2, "glam::f32::Vec2");
}

#[test]
fn type_docstring_prefers_configuration() {
    let mut g = TypeGraph::new();
    let mut t = item(1, Some("T"), ItemKind::TaggedUnion { impls: vec![] });
    t.docs = Some(s("From the graph.\nSecond line."));
    g.insert_item(t);
    g.insert_path(1, vec![s("m"), s("T")]);
    let nt = newtype("T");
    let w = WrappedItem::new(g.get(1).unwrap(), &g, &nt).ok().unwrap();
    let mut out = String::new();
    w.write_type_docstring(&mut out, &args());
    assert_eq!(out, "/// From the graph.\n/// Second line.\n");
    let mut with_doc = newtype("T");
    with_doc.doc = Some(s("From the configuration."));
    let w2 = WrappedItem::new(g.get(1).unwrap(), &g, &with_doc).ok().unwrap();
    let mut out2 = String::new();
    w2.write_type_docstring(&mut out2, &args());
    assert_eq!(out2, "/// From the configuration.\n");
}

#[test]
fn method_docstring_is_looked_up_by_id() {
    let mut g = graph();
    let mut m = method(40, "documented");
    m.docs = Some(s("One.\nTwo."));
    g.insert_item(m);
    let nt = newtype("Vec2");
    let w = WrappedItem::new(g.get(1).unwrap(), &g, &nt).ok().unwrap();
    let mut out = String::new();
    w.write_method_docstring(40, &mut out, &args());
    assert_eq!(out, "/// One.\n/// Two.\n");
    let mut none = String::new();
    w.write_method_docstring(30, &mut none, &args());
    assert_eq!(none, "");
    w.write_method_docstring(12345, &mut none, &args());
    assert_eq!(none, "");
}

#[test]
fn impl_block_body_closes_each_method() {
    let g = graph();
    let mut nt = newtype("Vec2");
    nt.lua_methods = vec![s("(MetaMethod::ToString) => |_,s,()| Ok(format!(\"{:?}\",s))"), s("x")];
    let w = WrappedItem::new(g.get(1).unwrap(), &g, &nt).ok().unwrap();
    let mut out = String::new();
    w.write_impl_block_body(&mut out, &args());
    assert_eq!(out, "(MetaMethod::ToString) => |_,s,()| Ok(format!(\"{:?}\",s));\nx;\n");
}

#[test]
fn error_messages() {
    assert_eq!(
        GenerateError::MissingTypes(vec![s("A"), s("B")]).to_string(),
        "Some types were not found in the given crates: A, B"
    );
    assert_eq!(GenerateError::NotAnImplBlock(3).to_string(), "Expected impl items here!");
    assert_eq!(GenerateError::MissingPath(3).to_string(), "path not found");
    assert_eq!(GenerateError::NotAnImplBlock(3).offending_id(), Some(3));
    assert_eq!(GenerateError::MissingPath(4).offending_id(), Some(4));
    assert_eq!(GenerateError::MissingTypes(vec![]).offending_id(), None);
    assert_eq!(GenerateError::MissingTypes(vec![s("A")]).missing_types(), Some(&vec![s("A")]));
    assert_eq!(GenerateError::MissingPath(4).missing_types(), None);
}
