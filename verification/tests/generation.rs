use bevy_api_gen::config::{Args, Config};
use bevy_api_gen::names::OrderedMap;
use bevy_api_gen::resolve::{find, find_in_graph};
use bevy_api_gen::{
    generate_api_for_crates, generate_macros, GenerateError, Item, ItemKind, ManualLuaType,
    Newtype, Param, TraitMethods, TypeExpr, TypeGraph,
};
use indexmap::IndexSet;

fn s(x: &str) -> String {
    x.to_string()
}

fn named(n: &str) -> TypeExpr {
    TypeExpr::Named(s(n))
}

fn prim(n: &str) -> TypeExpr {
    TypeExpr::Primitive(s(n))
}

fn self_type() -> TypeExpr {
    TypeExpr::Param(s("Self"))
}

fn item(id: u64, name: Option<&str>, kind: ItemKind) -> Item {
    Item { id, name: name.map(s), docs: None, attrs: vec![], kind }
}

fn method(id: u64, name: &str, inputs: Vec<(&str, TypeExpr)>, output: Option<TypeExpr>) -> Item {
    item(
        id,
        Some(name),
        ItemKind::Method {
            inputs: inputs.into_iter().map(|(n, t)| Param { name: s(n), type_: t }).collect(),
            output,
            generic: false,
        },
    )
}

fn newtype(name: &str) -> Newtype {
    Newtype {
        type_: s(name),
        doc: None,
        source: s("bevy_math"),
        import_path: String::new(),
        traits: vec![],
        derive_flags: vec![],
        lua_methods: vec![],
        required_features: vec![],
    }
}

fn config(primitives: &[&str], types: Vec<Newtype>) -> Config {
    let mut set = IndexSet::new();
    for p in primitives {
        set.insert(s(p));
    }
    Config {
        api_name: s("Bevy"),
        required_features: vec![],
        imports: String::new(),
        other: String::new(),
        lua_api_defaults: String::new(),
        primitives: set,
        manual_lua_types: vec![],
        types_: types,
        types: OrderedMap::new(),
    }
}

fn indexed(primitives: &[&str], types: Vec<Newtype>) -> Config {
    let mut c = config(primitives, types);
    c.index_types();
    c
}

fn args(print_errors: bool) -> Args {
    Args { json: vec![], config: String::new(), print_errors }
}

/// Adds to a graph a tagged union of the given name with one inherent block that
/// holds one method, with or without a receiver.
fn add_type(g: &mut TypeGraph, base: u64, name: &str, with_receiver: bool) {
    let inputs = if with_receiver { vec![("self", self_type())] } else { vec![] };
    g.insert_item(item(base, Some(name), ItemKind::TaggedUnion { impls: vec![base + 1] }));
    g.insert_item(item(
        base + 1,
        None,
        ItemKind::ImplBlock { interface: None, target: named(name), members: vec![base + 2] },
    ));
    g.insert_item(method(base + 2, "get", inputs, Some(prim("f32"))));
    g.insert_path(base, vec![s("bevy_math"), s(name)]);
}

fn block_of(name: &str, with_receiver: bool) -> String {
    let signature = if with_receiver { "get(self:) -> Raw(f32),\n" } else { "get() -> Raw(f32),\n" };
    format!(
        "impl_script_newtype!{{#[languages(on_feature(lua))]\nbevy_math::{} : \nMethods\n({})+ Fields\n()+ BinOps\n()+ UnaryOps\n()lua impl\n{{}}}}",
        name, signature
    )
}

const ADD_INSTANCES: &str = "Globals{fn add_instances<'lua, T: bevy_mod_scripting_lua::tealr::mlu::InstanceCollector<'lua>>(self, instances: &mut T) -> bevy_mod_scripting_lua::tealr::mlu::mlua::Result<()>\n{";
const PROVIDER_BODY: &str = "Provider{type APITarget = Mutex<bevy_mod_scripting_lua::tealr::mlu::mlua::Lua>;\ntype ScriptContext = Mutex<bevy_mod_scripting_lua::tealr::mlu::mlua::Lua>;\ntype DocTarget = LuaDocFragment;\nfn attach_api(&mut self, ctx: &mut Self::APITarget) -> Result<(), ScriptError>{let ctx = ctx.get_mut().expect(\"Unable to acquire lock on Lua context\");\nbevy_mod_scripting_lua::tealr::mlu::set_global_env(";

fn scaffolding(api: &str, gate: &str, instances: &str, docs: &str, defaults: &str, registrations: &str) -> String {
    format!(
        "{gate}#[derive(Default)]\npub(crate) struct {api}Globals;\n{gate}impl bevy_mod_scripting_lua::tealr::mlu::ExportInstances for {api}{add}{instances}Ok(())\n}}}}{gate}pub struct Lua{api}Provider;\n{gate}impl APIProvider for Lua{api}{body}{api}Globals,ctx).map_err(|e| ScriptError::Other(e.to_string()))\n}}fn get_doc_fragment(&self) -> Option<Self::DocTarget>{{Some(LuaDocFragment::new(\"{api}\", |tw|{{tw\n.document_global_instance::<{api}Globals>().expect(\"Something went wrong documenting globals\")\n{docs}}}))\n}}{defaults}fn register_with_app(&self, app: &mut App){{{registrations}}}}}",
        gate = gate,
        api = api,
        add = ADD_INSTANCES,
        instances = instances,
        body = PROVIDER_BODY,
        docs = docs,
        defaults = defaults,
        registrations = registrations
    )
}

fn text(r: Result<String, GenerateError>) -> String {
    match r {
        Ok(t) => t,
        Err(e) => panic!("unexpected failure: {}", e.to_string()),
    }
}

#[test]
fn run_on_nothing_gives_the_bare_provider() {
    let c = indexed(&[], vec![]);
    let out = text(generate_macros(&vec![], &c, &args(false)));
    assert_eq!(
        out,
        format!("#![allow(clippy::all,unused_imports)]\n{}", scaffolding("Bevy", "", "", "", "", ""))
    );
}

#[test]
fn run_on_a_small_type_gives_the_whole_text() {
    let mut g = TypeGraph::new();
    let mut vec2 = item(
        1,
        Some("Vec2"),
        ItemKind::Record { plain: true, fields: vec![10], impls: vec![20] },
    );
    vec2.docs = Some(s("A 2-dimensional vector."));
    g.insert_item(vec2);
    g.insert_item(item(10, Some("x"), ItemKind::Field { type_: prim("f32") }));
    g.insert_item(item(
        20,
        None,
        ItemKind::ImplBlock { interface: None, target: named("Vec2"), members: vec![30] },
    ));
    g.insert_item(method(30, "splat", vec![("v", prim("f32"))], Some(self_type())));
    g.insert_path(1, vec![s("bevy_math"), s("vec2"), s("Vec2")]);
    let mut nt = newtype("Vec2");
    nt.lua_methods = vec![s("(MetaMethod::Len) => |_,_,()| Ok(2)")];
    let c = indexed(&["f32"], vec![nt]);
    let out = text(generate_macros(&vec![g], &c, &args(false)));
    let expected = format!(
        "#![allow(clippy::all,unused_imports)]\nuse bevy::math::vec2::Vec2;\nimpl_script_newtype!{{#[languages(on_feature(lua))]\n/// A 2-dimensional vector.\nbevy_math::vec2::Vec2 : \nMethods\n(splat(Raw(f32)) -> self,\n)+ Fields\n(x: Raw(f32),\n)+ BinOps\n()+ UnaryOps\n()lua impl\n{{(MetaMethod::Len) => |_,_,()| Ok(2);\n}}}}{}",
        scaffolding(
            "Bevy",
            "",
            "instances.add_instance(\"Vec2\", bevy_mod_scripting_lua::tealr::mlu::UserDataProxy::<LuaVec2>::new)?;\n",
            ".process_type::<LuaVec2>()\n.process_type::<bevy_mod_scripting_lua::tealr::mlu::UserDataProxy<LuaVec2>>()\n",
            "",
            "app.register_foreign_lua_type::<Vec2>();\napp.register_foreign_lua_type::<f32>();\n"
        )
    );
    assert_eq!(out, expected);
}

#[test]
fn missing_types_are_reported_together() {
    let mut g = TypeGraph::new();
    add_type(&mut g, 100, "A", true);
    add_type(&mut g, 200, "B", true);
    let c = indexed(&[], vec![newtype("M1"), newtype("A"), newtype("M2"), newtype("B"), newtype("M3")]);
    match generate_macros(&vec![g], &c, &args(false)) {
        Err(GenerateError::MissingTypes(names)) => assert_eq!(names, vec![s("M1"), s("M2"), s("M3")]),
        _ => panic!("expected the missing types"),
    }
}

#[test]
fn one_missing_type_fails_the_run() {
    let mut g = TypeGraph::new();
    add_type(&mut g, 100, "A", true);
    let c = indexed(&[], vec![newtype("A"), newtype("Gone")]);
    match generate_macros(&vec![g], &c, &args(true)) {
        Err(GenerateError::MissingTypes(names)) => assert_eq!(names, vec![s("Gone")]),
        _ => panic!("expected the missing type"),
    }
}

#[test]
fn type_of_another_kind_counts_as_missing() {
    let mut g = TypeGraph::new();
    g.insert_item(method(1, "A", vec![], None));
    g.insert_item(item(2, None, ItemKind::TaggedUnion { impls: vec![] }));
    let c = indexed(&[], vec![newtype("A"), newtype("")]);
    match generate_macros(&vec![g], &c, &args(false)) {
        Err(GenerateError::MissingTypes(names)) => assert_eq!(names, vec![s("A"), s("")]),
        _ => panic!("expected the missing types"),
    }
}

#[test]
fn missing_types_come_before_other_failures() {
    let mut g = TypeGraph::new();
    g.insert_item(item(1, Some("Broken"), ItemKind::TaggedUnion { impls: vec![99] }));
    let c = indexed(&[], vec![newtype("Broken"), newtype("Gone")]);
    assert!(matches!(
        generate_macros(&vec![g], &c, &args(false)),
        Err(GenerateError::MissingTypes(_))
    ));
}

#[test]
fn first_type_that_cannot_be_described_fails_the_run() {
    let mut g = TypeGraph::new();
    add_type(&mut g, 100, "A", true);
    g.insert_item(item(1, Some("NoPath"), ItemKind::TaggedUnion { impls: vec![] }));
    g.insert_item(item(2, Some("BadImpl"), ItemKind::TaggedUnion { impls: vec![100] }));
    g.insert_path(2, vec![s("m"), s("BadImpl")]);
    let c = indexed(&[], vec![newtype("A"), newtype("NoPath"), newtype("BadImpl")]);
    assert!(matches!(
        generate_macros(&vec![g], &c, &args(false)),
        Err(GenerateError::MissingPath(1))
    ));
    let mut g = TypeGraph::new();
    add_type(&mut g, 100, "A", true);
    g.insert_item(item(1, Some("NoPath"), ItemKind::TaggedUnion { impls: vec![] }));
    g.insert_item(item(2, Some("BadImpl"), ItemKind::TaggedUnion { impls: vec![100] }));
    g.insert_path(2, vec![s("m"), s("BadImpl")]);
    let c = indexed(&[], vec![newtype("BadImpl"), newtype("NoPath"), newtype("A")]);
    assert!(matches!(
        generate_macros(&vec![g], &c, &args(false)),
        Err(GenerateError::NotAnImplBlock(100))
    ));
}

#[test]
fn blocks_follow_configuration_order() {
    let orders: [[(u64, &str); 3]; 3] = [
        [(100, "A"), (200, "B"), (300, "C")],
        [(300, "C"), (200, "B"), (100, "A")],
        [(200, "B"), (300, "C"), (100, "A")],
    ];
    let mut outputs = vec![];
    for order in orders {
        let mut g = TypeGraph::new();
        for (base, name) in order {
            add_type(&mut g, base, name, true);
        }
        let c = indexed(&["f32"], vec![newtype("A"), newtype("B"), newtype("C")]);
        outputs.push(text(generate_macros(&vec![g], &c, &args(false))));
    }
    let expected = format!(
        "#![allow(clippy::all,unused_imports)]\nuse bevy::math::A;\nuse bevy::math::B;\nuse bevy::math::C;\n{}{}{}{}",
        block_of("A", true),
        block_of("B", true),
        block_of("C", true),
        scaffolding(
            "Bevy",
            "",
            "",
            ".process_type::<LuaA>()\n.process_type::<LuaB>()\n.process_type::<LuaC>()\n",
            "",
            "app.register_foreign_lua_type::<A>();\napp.register_foreign_lua_type::<B>();\napp.register_foreign_lua_type::<C>();\napp.register_foreign_lua_type::<f32>();\n"
        )
    );
    for out in outputs {
        assert_eq!(out, expected);
    }
}

#[test]
fn blocks_follow_a_changed_configuration_order() {
    let mut g = TypeGraph::new();
    add_type(&mut g, 100, "A", true);
    add_type(&mut g, 200, "B", true);
    add_type(&mut g, 300, "C", true);
    let c = indexed(&["f32"], vec![newtype("C"), newtype("A"), newtype("B")]);
    let out = text(generate_macros(&vec![g], &c, &args(false)));
    let a = out.find("bevy_math::A : ").unwrap();
    let b = out.find("bevy_math::B : ").unwrap();
    let cc = out.find("bevy_math::C : ").unwrap();
    assert!(cc < a && a < b);
}

#[test]
fn type_with_method_without_receiver_gets_a_global_instance() {
    let mut g = TypeGraph::new();
    add_type(&mut g, 100, "OnlyInstance", true);
    g.insert_item(item(200, Some("Mixed"), ItemKind::TaggedUnion { impls: vec![201] }));
    g.insert_item(item(
        201,
        None,
        ItemKind::ImplBlock { interface: None, target: named("Mixed"), members: vec![202, 203] },
    ));
    g.insert_item(method(202, "get", vec![("self", self_type())], Some(prim("f32"))));
    g.insert_item(method(203, "make", vec![("v", prim("f32"))], Some(self_type())));
    g.insert_path(200, vec![s("bevy_math"), s("Mixed")]);
    let c = indexed(&["f32"], vec![newtype("OnlyInstance"), newtype("Mixed")]);
    let out = text(generate_macros(&vec![g], &c, &args(false)));
    assert!(out.contains(
        "instances.add_instance(\"Mixed\", bevy_mod_scripting_lua::tealr::mlu::UserDataProxy::<LuaMixed>::new)?;\n"
    ));
    assert!(!out.contains("instances.add_instance(\"OnlyInstance\""));
    assert!(out.contains(".process_type::<bevy_mod_scripting_lua::tealr::mlu::UserDataProxy<LuaMixed>>()\n"));
    assert!(!out.contains("UserDataProxy<LuaOnlyInstance>"));
    assert!(out.contains(".process_type::<LuaOnlyInstance>()\n"));
}

#[test]
fn excluded_method_without_receiver_gives_no_global_instance() {
    let mut g = TypeGraph::new();
    g.insert_item(item(200, Some("T"), ItemKind::TaggedUnion { impls: vec![201] }));
    g.insert_item(item(
        201,
        None,
        ItemKind::ImplBlock { interface: None, target: named("T"), members: vec![202] },
    ));
    g.insert_item(method(202, "make", vec![("q", named("Quat"))], Some(self_type())));
    g.insert_path(200, vec![s("bevy_math"), s("T")]);
    let c = indexed(&["f32"], vec![newtype("T")]);
    let out = text(generate_macros(&vec![g], &c, &args(true)));
    assert!(!out.contains("instances.add_instance("));
    assert!(out.contains("// make(<invalid: unsupported>) -> self\n"));
}

#[test]
fn comments_appear_only_when_asked_for() {
    let mut g = TypeGraph::new();
    g.insert_item(item(200, Some("T"), ItemKind::TaggedUnion { impls: vec![201] }));
    g.insert_item(item(
        201,
        None,
        ItemKind::ImplBlock { interface: None, target: named("T"), members: vec![202] },
    ));
    g.insert_item(method(202, "bad", vec![("self", self_type()), ("q", named("Quat"))], None));
    g.insert_path(200, vec![s("bevy_math"), s("T")]);
    let c = indexed(&["f32"], vec![newtype("T")]);
    let graphs = vec![g];
    let quiet = text(generate_macros(&graphs, &c, &args(false)));
    let loud = text(generate_macros(&graphs, &c, &args(true)));
    assert!(!quiet.contains("bad"));
    assert!(loud.contains("Methods\n(// Exclusion reason: unsupported argument, not wrapped or primitive: unsupported\n// bad(self:<invalid: unsupported>)\n\n)"));
    for line in loud.lines().filter(|l| l.contains("bad")) {
        assert!(line.starts_with("// ") || line.starts_with("(// "));
    }
}

#[test]
fn same_inputs_give_the_same_text() {
    let mut g = TypeGraph::new();
    add_type(&mut g, 100, "A", false);
    add_type(&mut g, 200, "B", true);
    let c = indexed(&["f32", "bool"], vec![newtype("B"), newtype("A")]);
    let graphs = vec![g];
    let first = text(generate_macros(&graphs, &c, &args(true)));
    let second = text(generate_macros(&graphs, &c, &args(true)));
    assert_eq!(first, second);
    let mut g2 = TypeGraph::new();
    add_type(&mut g2, 100, "A", false);
    add_type(&mut g2, 200, "B", true);
    let c2 = indexed(&["f32", "bool"], vec![newtype("B"), newtype("A")]);
    let third = text(generate_macros(&vec![g2], &c2, &args(true)));
    assert_eq!(first, third);
}

#[test]
fn types_are_found_across_graphs_first_graph_first() {
    let mut g1 = TypeGraph::new();
    add_type(&mut g1, 100, "A", true);
    let mut g2 = TypeGraph::new();
    add_type(&mut g2, 100, "B", false);
    add_type(&mut g2, 200, "A", false);
    let graphs = vec![g1, g2];
    let a = newtype("A");
    let b = newtype("B");
    let (ga, ia) = find(&graphs, &a).unwrap();
    assert_eq!((ga.len(), ia.id), (3, 100));
    let (gb, ib) = find(&graphs, &b).unwrap();
    assert_eq!((gb.len(), ib.id), (6, 100));
    assert!(find(&graphs, &newtype("C")).is_none());
    assert_eq!(find_in_graph(&graphs[1], &a).map(|i| i.id), Some(200));
    let c = indexed(&["f32"], vec![newtype("A"), newtype("B")]);
    let out = text(generate_macros(&graphs, &c, &args(false)));
    assert!(out.contains(&block_of("A", true)));
    assert!(out.contains(&block_of("B", false)));
}

#[test]
fn match_needs_name_and_kind() {
    let g = TypeGraph::new();
    let nt = newtype("A");
    assert!(nt.matches_result(&item(1, Some("A"), ItemKind::TaggedUnion { impls: vec![] }), &g));
    assert!(nt.matches_result(
        &item(1, Some("A"), ItemKind::Record { plain: false, fields: vec![], impls: vec![] }),
        &g
    ));
    assert!(!nt.matches_result(&item(1, Some("B"), ItemKind::TaggedUnion { impls: vec![] }), &g));
    assert!(!nt.matches_result(&item(1, None, ItemKind::TaggedUnion { impls: vec![] }), &g));
    assert!(!nt.matches_result(&item(1, Some("A"), ItemKind::Other), &g));
    assert!(!nt.matches_result(&method(1, "A", vec![], None), &g));
}

#[test]
fn surroundings_come_from_the_configuration() {
    let mut g = TypeGraph::new();
    add_type(&mut g, 100, "A", true);
    add_type(&mut g, 200, "B", false);
    let mut a = newtype("A");
    a.required_features = vec![s("bevy_ui")];
    a.traits = vec![
        TraitMethods { name: s("Add"), import_path: s("std::ops::Add") },
        TraitMethods { name: s("Neg"), import_path: s("std::ops::Neg") },
    ];
    a.import_path = s("glam::A");
    a.doc = Some(s("Two\nlines."));
    a.derive_flags = vec![s("Flag")];
    let mut b = newtype("B");
    b.source = s("glam");
    b.required_features = vec![s("x"), s("y")];
    b.traits = vec![
        TraitMethods { name: s("Neg"), import_path: s("other::Neg") },
        TraitMethods { name: s("Sub"), import_path: s("std::ops::Sub") },
        TraitMethods { name: s("Add"), import_path: s("again::Add") },
    ];
    let mut c = config(&["usize", "f32"], vec![a, b]);
    c.api_name = s("Math");
    c.required_features = vec![s("lua")];
    c.imports = s("use a::b;\nuse c::d;\n");
    c.other = s("struct Other;\r\nimpl Other {}");
    c.lua_api_defaults = s("fn setup(&self) {}\n");
    c.manual_lua_types = vec![
        ManualLuaType {
            name: s("LuaEntity"),
            proxy_name: s("Entity"),
            include_global_proxy: true,
            use_dummy_proxy: true,
            dont_process: false,
        },
        ManualLuaType {
            name: s("LuaWorld"),
            proxy_name: s("world"),
            include_global_proxy: false,
            use_dummy_proxy: false,
            dont_process: false,
        },
        ManualLuaType {
            name: s("LuaHidden"),
            proxy_name: s("Hidden"),
            include_global_proxy: true,
            use_dummy_proxy: false,
            dont_process: true,
        },
    ];
    let out = text(generate_api_for_crates(&vec![g], c, &args(false)));
    let gate = "#[cfg(feature=\"lua\")]\n";
    let expected = format!(
        "#![allow(clippy::all,unused_imports)]\nuse a::b;\nuse c::d;\nuse glam::A;\nuse glam::B;\n#[cfg(feature=\"bevy_ui\")]\nimpl_script_newtype!{{#[languages(on_feature(lua))]\n/// Two\n/// lines.\nglam::A : \nMethods\n(get(self:) -> Raw(f32),\n)+ Fields\n()+ BinOps\n()+ UnaryOps\n()+ Flag\nlua impl\n{{}}}}#[cfg(all(\nfeature=\"x\",\nfeature=\"y\",\n))]\n{}use std::ops::Add;\nuse std::ops::Neg;\nuse std::ops::Sub;\nstruct Other;\nimpl Other {{}}\n{}",
        block_of("B", false),
        scaffolding(
            "Math",
            gate,
            "instances.add_instance(\"B\", bevy_mod_scripting_lua::tealr::mlu::UserDataProxy::<LuaB>::new)?;\ninstances.add_instance(\"Entity\", crate::lua::util::DummyTypeName::<LuaEntity>::new)?;\ninstances.add_instance(\"Hidden\", bevy_mod_scripting_lua::tealr::mlu::UserDataProxy::<LuaHidden>::new)?;\n",
            ".process_type::<LuaA>()\n.process_type::<LuaB>()\n.process_type::<bevy_mod_scripting_lua::tealr::mlu::UserDataProxy<LuaB>>()\n.process_type::<LuaEntity>()\n.process_type::<bevy_mod_scripting_lua::tealr::mlu::UserDataProxy<LuaEntity>>()\n.process_type::<LuaWorld>()\n",
            "fn setup(&self) {}\n",
            "app.register_foreign_lua_type::<A>();\napp.register_foreign_lua_type::<B>();\napp.register_foreign_lua_type::<usize>();\napp.register_foreign_lua_type::<f32>();\n"
        )
    );
    assert_eq!(out, expected);
}

#[test]
fn listed_types_are_filed_before_the_run() {
    let mut g = TypeGraph::new();
    add_type(&mut g, 100, "A", true);
    add_type(&mut g, 200, "B", true);
    let mut later = newtype("A");
    later.doc = Some(s("The later entry."));
    let c = config(&["f32"], vec![newtype("A"), newtype("B"), later]);
    let out = text(generate_api_for_crates(&vec![g], c, &args(false)));
    let a = out.find("/// The later entry.\nbevy_math::A : ").unwrap();
    let b = out.find("bevy_math::B : ").unwrap();
    assert!(a < b);
    assert_eq!(out.matches("bevy_math::A : ").count(), 1);
}

#[test]
fn run_without_filing_sees_no_types() {
    let mut g = TypeGraph::new();
    add_type(&mut g, 100, "A", true);
    let c = config(&["f32"], vec![newtype("A")]);
    let out = text(generate_macros(&vec![g], &c, &args(false)));
    assert!(!out.contains("impl_script_newtype!"));
}
