use bevy_api_gen::config::{Args, Config};
use bevy_api_gen::methods::{accepts_interface, write_method};
use bevy_api_gen::names::OrderedMap;
use bevy_api_gen::{
    Item, ItemKind, Newtype, Param, TraitMethods, TypeExpr, TypeGraph, WrappedItem,
};
use indexmap::IndexSet;

fn s(x: &str) -> String {
    x.to_string()
}

fn named(n: &str) -> TypeExpr {
    TypeExpr::Named(s(n))
}

fn prim(n: &str) -> TypeExpr {
    TypeExpr::Primitive(s(n))
}

fn self_type() -> TypeExpr {
    TypeExpr::Param(s("Self"))
}

fn reference(mutable: bool, inner: TypeExpr) -> TypeExpr {
    TypeExpr::Reference { mutable, inner: Box::new(inner) }
}

fn item(id: u64, name: Option<&str>, kind: ItemKind) -> Item {
    Item { id, name: name.map(s), docs: None, attrs: vec![], kind }
}

fn block(id: u64, interface: Option<&str>, target: TypeExpr, members: Vec<u64>) -> Item {
    item(id, None, ItemKind::ImplBlock { interface: interface.map(s), target, members })
}

fn method(id: u64, name: &str, inputs: Vec<(&str, TypeExpr)>, output: Option<TypeExpr>) -> Item {
    item(
        id,
        Some(name),
        ItemKind::Method {
            inputs: inputs.into_iter().map(|(n, t)| Param { name: s(n), type_: t }).collect(),
            output,
            generic: false,
        },
    )
}

fn field(id: u64, name: &str, type_: TypeExpr) -> Item {
    item(id, Some(name), ItemKind::Field { type_ })
}

fn output_type(id: u64, default: Option<TypeExpr>) -> Item {
    item(id, Some("Output"), ItemKind::AssocType { default })
}

fn newtype(name: &str) -> Newtype {
    Newtype {
        type_: s(name),
        doc: None,
        source: s("bevy_math"),
        import_path: String::new(),
        traits: vec![],
        derive_flags: vec![],
        lua_methods: vec![],
        required_features: vec![],
    }
}

fn config(primitives: &[&str], types: Vec<Newtype>) -> Config {
    let mut set = IndexSet::new();
    for p in primitives {
        set.insert(s(p));
    }
    let mut config = Config {
        api_name: s("Bevy"),
        required_features: vec![],
        imports: String::new(),
        other: String::new(),
        lua_api_defaults: String::new(),
        primitives: set,
        manual_lua_types: vec![],
        types_: types,
        types: OrderedMap::new(),
    };
    config.index_types();
    config
}

fn args(print_errors: bool) -> Args {
    Args { json: vec![], config: String::new(), print_errors }
}

/// A record `Vec2` with one inherent block that holds the given methods, and the
/// given fields.
fn graph_with(methods: Vec<Item>, fields: Vec<Item>, more: Vec<Item>, impls: Vec<u64>) -> TypeGraph {
    let mut g = TypeGraph::new();
    let mut all_impls = vec![100];
    all_impls.extend(impls);
    g.insert_item(item(
        1,
        Some("Vec2"),
        ItemKind::Record {
            plain: true,
            fields: fields.iter().map(|f| f.id).collect(),
            impls: all_impls,
        },
    ));
    g.insert_item(block(100, None, named("Vec2"), methods.iter().map(|m| m.id).collect()));
    for m in methods {
        g.insert_item(m);
    }
    for f in fields {
        g.insert_item(f);
    }
    for m in more {
        g.insert_item(m);
    }
    g.insert_path(1, vec![s("bevy_math"), s("vec2"), s("Vec2")]);
    g
}

fn body_of(g: &TypeGraph, nt: &Newtype, c: &Config, print_errors: bool) -> (String, bool) {
    let mut w = WrappedItem::new(g.get(1).unwrap(), g, nt).ok().unwrap();
    let mut out = String::new();
    w.write_derive_flags_body(c, &mut out, &args(print_errors));
    (out, w.has_global_methods)
}

fn body(methods: Vec<Item>, fields: Vec<Item>, print_errors: bool) -> (String, bool) {
    let g = graph_with(methods, fields, vec![], vec![]);
    let nt = newtype("Vec2");
    let c = config(&["f32", "bool"], vec![newtype("Vec2"), newtype("BVec2")]);
    body_of(&g, &nt, &c, print_errors)
}

fn framed(methods: &str, fields: &str, binops: &str, unary: &str) -> String {
    format!(
        "Methods\n({})+ Fields\n({})+ BinOps\n({})+ UnaryOps\n({})",
        methods, fields, binops, unary
    )
}

#[test]
fn body_of_type_without_members_is_the_bare_frame() {
    let (out, global) = body(vec![], vec![], false);
    assert_eq!(out, "Methods\n()+ Fields\n()+ BinOps\n()+ UnaryOps\n()");
    assert!(!global);
}

#[test]
fn method_with_receiver_and_operand() {
    let m = method(30, "dot", vec![("self", self_type()), ("rhs", named("Vec2"))], Some(prim("f32")));
    let (out, global) = body(vec![m], vec![], false);
    assert_eq!(out, framed("dot(self:Wrapped(Vec2)) -> Raw(f32),\n", "", "", ""));
    assert!(!global);
}

#[test]
fn receiver_is_written_without_wrapper_whatever_its_type() {
    let m = method(30, "own", vec![("self", named("Vec2")), ("k", prim("f32"))], None);
    let n = method(31, "raw", vec![("x", prim("f32")), ("self", prim("f32"))], None);
    let (out, global) = body(vec![m, n], vec![], false);
    assert_eq!(out, framed("own(Vec2:Raw(f32)),\nraw(Raw(f32),f32:),\n", "", "", ""));
    assert!(!global);
}

#[test]
fn method_without_receiver_sets_the_flag() {
    let m = method(30, "new", vec![("x", prim("f32")), ("y", prim("f32"))], Some(self_type()));
    let (out, global) = body(vec![m], vec![], false);
    assert_eq!(out, framed("new(Raw(f32),Raw(f32)) -> self,\n", "", "", ""));
    assert!(global);
}

#[test]
fn method_without_parameters_or_result() {
    let m = method(30, "tick", vec![], None);
    let (out, global) = body(vec![m], vec![], false);
    assert_eq!(out, framed("tick(),\n", "", "", ""));
    assert!(global);
}

#[test]
fn method_with_reference_receiver_and_wrapped_result() {
    let m = method(
        30,
        "cmpeq",
        vec![("self", reference(false, self_type())), ("rhs", reference(true, named("Vec2")))],
        Some(named("BVec2")),
    );
    let (out, _) = body(vec![m], vec![], false);
    assert_eq!(out, framed("cmpeq(&self:Wrapped(&mut Vec2)) -> Wrapped(BVec2),\n", "", "", ""));
}

#[test]
fn method_documentation_is_written_line_by_line() {
    let mut m = method(30, "length", vec![("self", self_type())], Some(prim("f32")));
    m.docs = Some(s("Computes the length.\n\nSee also `dot`."));
    let (out, _) = body(vec![m], vec![], false);
    assert_eq!(
        out,
        framed(
            "/// Computes the length.\n/// \n/// See also `dot`.\nlength(self:) -> Raw(f32),\n",
            "",
            "",
            ""
        )
    );
}

#[test]
fn methods_keep_declaration_order() {
    let a = method(30, "b", vec![("self", self_type())], None);
    let b = method(31, "a", vec![("self", self_type())], None);
    let c = method(32, "b", vec![("self", self_type()), ("x", prim("f32"))], None);
    let (out, _) = body(vec![a, b, c], vec![], false);
    assert_eq!(out, framed("b(self:),\na(self:),\nb(self:Raw(f32)),\n", "", "", ""));
}

#[test]
fn method_with_unsupported_parameter_is_absent_without_comments() {
    let m = method(30, "bad", vec![("self", self_type()), ("q", named("Quat"))], None);
    let (out, global) = body(vec![m], vec![], false);
    assert_eq!(out, framed("", "", "", ""));
    assert!(!global);
}

#[test]
fn method_with_unsupported_parameter_is_a_comment_with_comments() {
    let m = method(30, "bad", vec![("self", self_type()), ("q", named("Quat"))], None);
    let (out, _) = body(vec![m], vec![], true);
    assert_eq!(
        out,
        framed(
            "// Exclusion reason: unsupported argument, not wrapped or primitive: unsupported\n// bad(self:<invalid: unsupported>)\n\n",
            "",
            "",
            ""
        )
    );
}

#[test]
fn excluded_method_without_receiver_does_not_set_the_flag() {
    let m = method(30, "make", vec![("q", named("Quat"))], Some(self_type()));
    let (_, global) = body(vec![m], vec![], true);
    assert!(!global);
}

#[test]
fn excluded_method_lists_every_reason_in_order() {
    let mut m = method(
        30,
        "many",
        vec![("a", TypeExpr::Other), ("b", prim("f32")), ("t", TypeExpr::Param(s("T")))],
        Some(TypeExpr::Applied(s("Vec"))),
    );
    m.kind = match m.kind {
        ItemKind::Method { inputs, output, .. } => ItemKind::Method { inputs, output, generic: true },
        k => k,
    };
    m.docs = Some(s("Does much."));
    let (out, _) = body(vec![m], vec![], true);
    assert_eq!(
        out,
        framed(
            "// Exclusion reason: generic method,unsupported argument, not a simple type: not a simple type,unsupported argument, not wrapped or primitive: T,unsupported return type, not a simple type: generic arguments are not supported\n// /// Does much.\n// many(Raw(f32),<invalid: T>)\n\n",
            "",
            "",
            ""
        )
    );
}

#[test]
fn excluded_method_with_unwrapped_result_shows_it() {
    let m = method(30, "q", vec![("self", self_type())], Some(named("Quat")));
    let (out, _) = body(vec![m], vec![], true);
    assert_eq!(
        out,
        framed(
            "// Exclusion reason: unsupported return type, not wrapped or primitive: unsupported\n// q(self:)<invalid: unsupported>\n\n",
            "",
            "",
            ""
        )
    );
}

#[test]
fn generic_method_is_excluded() {
    let mut m = method(30, "cast", vec![("self", self_type())], Some(prim("f32")));
    m.kind = match m.kind {
        ItemKind::Method { inputs, output, .. } => ItemKind::Method { inputs, output, generic: true },
        k => k,
    };
    let g = graph_with(vec![m], vec![], vec![], vec![]);
    let nt = newtype("Vec2");
    let c = config(&["f32"], vec![newtype("Vec2")]);
    assert_eq!(body_of(&g, &nt, &c, false).0, framed("", "", "", ""));
    assert_eq!(
        body_of(&g, &nt, &c, true).0,
        framed("// Exclusion reason: generic method\n// cast(self:) -> Raw(f32)\n\n", "", "", "")
    );
}

#[test]
fn method_returning_reference_never_appears() {
    let m = method(30, "as_ref", vec![("self", reference(false, self_type()))], Some(reference(false, named("Vec2"))));
    let n = method(31, "x_mut", vec![("self", reference(true, self_type()))], Some(reference(true, prim("f32"))));
    let o = method(32, "unknown", vec![("q", named("Quat"))], Some(reference(false, named("Quat"))));
    let (plain, global) = body(vec![m, n, o], vec![], false);
    assert_eq!(plain, framed("", "", "", ""));
    assert!(!global);
    let m = method(30, "as_ref", vec![("self", reference(false, self_type()))], Some(reference(false, named("Vec2"))));
    let n = method(31, "x_mut", vec![("self", reference(true, self_type()))], Some(reference(true, prim("f32"))));
    let o = method(32, "unknown", vec![("q", named("Quat"))], Some(reference(false, named("Quat"))));
    let (commented, global) = body(vec![m, n, o], vec![], true);
    assert_eq!(commented, framed("", "", "", ""));
    assert!(!global);
}

#[test]
fn method_returning_reference_to_compound_type_is_a_comment() {
    let m = method(30, "parts", vec![("self", self_type())], Some(reference(false, TypeExpr::Other)));
    let (out, _) = body(vec![m], vec![], true);
    assert_eq!(
        out,
        framed(
            "// Exclusion reason: unsupported return type, not a simple type: not a simple type\n// parts(self:)\n\n",
            "",
            "",
            ""
        )
    );
    let m = method(30, "parts", vec![("self", self_type())], Some(reference(false, TypeExpr::Other)));
    assert_eq!(body(vec![m], vec![], false).0, framed("", "", "", ""));
}

#[test]
fn write_method_reports_inclusion_and_receiver() {
    let c = config(&["f32"], vec![newtype("Vec2")]);
    let m = method(30, "len", vec![("self", self_type())], Some(prim("f32")));
    let mut out = String::new();
    assert_eq!(write_method(&m, "Vec2", &c, false, &mut out), (true, true));
    assert_eq!(out, "len(self:) -> Raw(f32),\n");
    let n = method(31, "zero", vec![], Some(self_type()));
    let mut out = String::new();
    assert_eq!(write_method(&n, "Vec2", &c, false, &mut out), (true, false));
    let o = method(32, "bad", vec![("self", self_type()), ("x", named("X"))], None);
    let mut out = String::new();
    assert_eq!(write_method(&o, "Vec2", &c, false, &mut out), (false, true));
    assert_eq!(out, "");
}

#[test]
fn interface_methods_need_an_accepted_interface() {
    let m = method(40, "clone", vec![("self", reference(false, self_type()))], Some(self_type()));
    let d = method(41, "default", vec![], Some(self_type()));
    let more = vec![
        block(200, Some("Clone"), named("Vec2"), vec![40]),
        block(201, Some("Default"), named("Vec2"), vec![41]),
        m,
        d,
    ];
    let g = graph_with(vec![], vec![], more, vec![200, 201]);
    let c = config(&["f32"], vec![newtype("Vec2")]);
    let plain = newtype("Vec2");
    let (out, global) = body_of(&g, &plain, &c, true);
    assert_eq!(out, format!("Clone +\n{}", framed("", "", "", "")));
    assert!(!global);
    let mut accepting = newtype("Vec2");
    accepting.traits = vec![TraitMethods { name: s("Default"), import_path: s("std::default::Default") }];
    let (out, global) = body_of(&g, &accepting, &c, true);
    assert_eq!(out, format!("Clone +\n{}", framed("default() -> self,\n", "", "", "")));
    assert!(global);
    assert!(accepts_interface(&accepting, &s("Default")));
    assert!(!accepts_interface(&accepting, &s("Clone")));
}

#[test]
fn flags_for_clone_and_debug() {
    let more = vec![
        block(200, Some("Debug"), named("Vec2"), vec![]),
        block(201, Some("Clone"), named("Vec2"), vec![]),
    ];
    let g = graph_with(vec![], vec![], more, vec![200, 201]);
    let c = config(&["f32"], vec![newtype("Vec2")]);
    let nt = newtype("Vec2");
    assert_eq!(body_of(&g, &nt, &c, false).0, format!("Clone +\nDebug +\n{}", framed("", "", "", "")));
}

#[test]
fn derive_flags_follow_the_frame() {
    let g = graph_with(vec![], vec![], vec![], vec![]);
    let c = config(&["f32"], vec![newtype("Vec2")]);
    let mut nt = newtype("Vec2");
    nt.derive_flags = vec![s("UnaryOps(\n Minus self -> self\n)"), s("Extra")];
    assert_eq!(
        body_of(&g, &nt, &c, false).0,
        format!("{}+ UnaryOps(\n Minus self -> self\n)\n+ Extra\n", framed("", "", "", ""))
    );
}

#[test]
fn fields_of_plain_record() {
    let mut x = field(10, "x", prim("f32"));
    x.docs = Some(s("The x axis.\nIn units."));
    let y = field(11, "other", named("BVec2"));
    let (out, _) = body(vec![], vec![x, y], false);
    assert_eq!(
        out,
        framed("", "/// The x axis.\n/// In units.\nx: Raw(f32),\nother: Wrapped(BVec2),\n", "", "")
    );
}

#[test]
fn field_of_unsupported_type_is_a_reflected_value() {
    let fields = vec![
        field(10, "q", named("Quat")),
        field(11, "t", TypeExpr::Other),
        field(12, "v", TypeExpr::Applied(s("Vec"))),
        field(13, "g", TypeExpr::Param(s("T"))),
        field(14, "me", self_type()),
        field(15, "r", reference(false, named("Quat"))),
    ];
    let (out, _) = body(vec![], fields, false);
    assert_eq!(
        out,
        framed(
            "",
            "q: Raw(ReflectedValue),\nt: Raw(ReflectedValue),\nv: Raw(ReflectedValue),\ng: Raw(ReflectedValue),\nme: Raw(ReflectedValue),\nr: Raw(ReflectedValue),\n",
            "",
            ""
        )
    );
}

#[test]
fn field_kept_out_of_reflection_is_left_out() {
    let mut hidden = field(10, "hidden", named("Quat"));
    hidden.attrs = vec![s("#[doc(hidden)]"), s("#[reflect(ignore)]")];
    let mut also = field(11, "also", prim("f32"));
    also.attrs = vec![s("#[reflect(ignore)]")];
    let mut near = field(12, "near", prim("f32"));
    near.attrs = vec![s("#[reflect(ignore) ]")];
    let (out, _) = body(vec![], vec![hidden, also, near], false);
    assert_eq!(out, framed("", "near: Raw(f32),\n", "", ""));
}

#[test]
fn field_sharing_name_with_method_is_renamed() {
    let m = method(30, "value", vec![("self", self_type())], Some(prim("f32")));
    let f = field(10, "value", prim("f32"));
    let g = field(11, "other", prim("f32"));
    let (out, _) = body(vec![m], vec![f, g], false);
    assert_eq!(
        out,
        framed(
            "value(self:) -> Raw(f32),\n",
            "#[rename(\"value\")]\n_value: Raw(f32),\nother: Raw(f32),\n",
            "",
            ""
        )
    );
}

#[test]
fn field_sharing_name_with_excluded_method_keeps_its_name() {
    let m = method(30, "value", vec![("self", self_type())], Some(named("Quat")));
    let f = field(10, "value", prim("f32"));
    let (out, _) = body(vec![m], vec![f], false);
    assert_eq!(out, framed("", "value: Raw(f32),\n", "", ""));
}

#[test]
fn fields_that_do_not_resolve_to_fields_are_skipped() {
    let mut g = graph_with(vec![], vec![field(10, "x", prim("f32"))], vec![], vec![]);
    g.insert_item(item(
        1,
        Some("Vec2"),
        ItemKind::Record { plain: true, fields: vec![77, 100, 10], impls: vec![100] },
    ));
    let c = config(&["f32"], vec![newtype("Vec2")]);
    let nt = newtype("Vec2");
    assert_eq!(body_of(&g, &nt, &c, false).0, framed("", "x: Raw(f32),\n", "", ""));
}

#[test]
fn tuple_record_and_tagged_union_have_no_fields() {
    let mut g = graph_with(vec![], vec![field(10, "x", prim("f32"))], vec![], vec![]);
    g.insert_item(item(
        1,
        Some("Vec2"),
        ItemKind::Record { plain: false, fields: vec![10], impls: vec![100] },
    ));
    let c = config(&["f32"], vec![newtype("Vec2")]);
    let nt = newtype("Vec2");
    assert_eq!(body_of(&g, &nt, &c, false).0, framed("", "", "", ""));
    g.insert_item(item(1, Some("Vec2"), ItemKind::TaggedUnion { impls: vec![100] }));
    assert_eq!(body_of(&g, &nt, &c, false).0, framed("", "", "", ""));
}

fn operator_block(
    id: u64,
    interface: &str,
    target: TypeExpr,
    method_id: u64,
    name: &str,
    rhs: Option<TypeExpr>,
    output_id: u64,
    output: Option<Option<TypeExpr>>,
) -> Vec<Item> {
    let mut inputs = vec![("self", self_type())];
    if let Some(r) = rhs {
        inputs.push(("rhs", r));
    }
    let mut items = vec![method(method_id, name, inputs, Some(TypeExpr::Qualified(s("Output"))))];
    let mut members = vec![];
    if let Some(o) = output {
        items.push(output_type(output_id, o));
        members.push(output_id);
    }
    members.push(method_id);
    items.push(block(id, Some(interface), target, members));
    items
}

fn operators(blocks: Vec<Vec<Item>>) -> String {
    let mut more = vec![];
    let mut impls = vec![];
    for b in blocks {
        impls.push(b.last().unwrap().id);
        more.extend(b);
    }
    let g = graph_with(vec![], vec![], more, impls);
    let c = config(&["f32"], vec![newtype("Vec2"), newtype("BVec2")]);
    let nt = newtype("Vec2");
    body_of(&g, &nt, &c, true).0
}

#[test]
fn binary_operator_on_the_type_itself() {
    let add = operator_block(200, "Add", named("Vec2"), 40, "add", Some(named("Vec2")), 41, Some(Some(named("Vec2"))));
    assert_eq!(operators(vec![add]), framed("", "", "self Add Wrapped(Vec2) -> Wrapped(Vec2),\n", ""));
}

#[test]
fn binary_operator_with_primitive_operand_and_reference_block() {
    let mul = operator_block(
        200,
        "Mul",
        reference(false, named("Vec2")),
        40,
        "mul",
        Some(prim("f32")),
        41,
        Some(Some(prim("f32"))),
    );
    assert_eq!(operators(vec![mul]), framed("", "", "self Mul Raw(f32) -> Raw(f32),\n", ""));
}

#[test]
fn binary_operator_of_a_primitive_block() {
    let mul = operator_block(200, "Mul", prim("f32"), 40, "mul", Some(named("Vec2")), 41, Some(Some(named("Vec2"))));
    assert_eq!(operators(vec![mul]), framed("", "", "self Mul Wrapped(Vec2) -> Wrapped(Vec2),\n", ""));
}

#[test]
fn binary_operators_of_unrelated_blocks_are_skipped() {
    let other = operator_block(200, "Add", named("BVec2"), 40, "add", Some(named("Vec2")), 41, Some(Some(named("Vec2"))));
    let unknown = operator_block(201, "Add", named("Quat"), 42, "add", Some(named("Vec2")), 43, Some(Some(named("Vec2"))));
    let compound = operator_block(202, "Add", TypeExpr::Other, 44, "add", Some(named("Vec2")), 45, Some(Some(named("Vec2"))));
    let param = operator_block(203, "Add", TypeExpr::Param(s("T")), 46, "add", Some(named("Vec2")), 47, Some(Some(named("Vec2"))));
    assert_eq!(operators(vec![other, unknown, compound, param]), framed("", "", "", ""));
}

#[test]
fn binary_operator_without_usable_result_is_skipped() {
    let none = operator_block(200, "Add", named("Vec2"), 40, "add", Some(named("Vec2")), 41, None);
    let undeclared = operator_block(201, "Sub", named("Vec2"), 42, "sub", Some(named("Vec2")), 43, Some(None));
    let unknown = operator_block(202, "Div", named("Vec2"), 44, "div", Some(named("Vec2")), 45, Some(Some(named("Quat"))));
    let compound = operator_block(203, "Mul", named("Vec2"), 46, "mul", Some(named("Vec2")), 47, Some(Some(TypeExpr::Other)));
    let own = operator_block(204, "Rem", named("Vec2"), 48, "rem", Some(named("Vec2")), 49, Some(Some(self_type())));
    assert_eq!(operators(vec![none, undeclared, unknown, compound, own]), framed("", "", "", ""));
}

#[test]
fn binary_operator_with_unusable_operand_is_skipped() {
    let unknown = operator_block(200, "Add", named("Vec2"), 40, "add", Some(named("Quat")), 41, Some(Some(named("Vec2"))));
    let compound = operator_block(201, "Sub", named("Vec2"), 42, "sub", Some(TypeExpr::Other), 43, Some(Some(named("Vec2"))));
    assert_eq!(operators(vec![unknown, compound]), framed("", "", "", ""));
}

#[test]
fn binary_operators_come_in_fixed_order() {
    let rem = operator_block(200, "Rem", named("Vec2"), 40, "rem", Some(named("Vec2")), 41, Some(Some(named("Vec2"))));
    let mul = operator_block(201, "Mul", named("Vec2"), 42, "mul", Some(prim("f32")), 43, Some(Some(named("Vec2"))));
    let add = operator_block(202, "Add", named("Vec2"), 44, "add", Some(named("Vec2")), 45, Some(Some(named("Vec2"))));
    let div = operator_block(203, "Div", named("Vec2"), 46, "div", Some(prim("f32")), 47, Some(Some(named("Vec2"))));
    let sub = operator_block(204, "Sub", named("Vec2"), 48, "sub", Some(named("Vec2")), 49, Some(Some(named("Vec2"))));
    let add2 = operator_block(205, "Add", named("Vec2"), 50, "add", Some(prim("f32")), 51, Some(Some(named("Vec2"))));
    assert_eq!(
        operators(vec![rem, mul, add, div, sub, add2]),
        framed(
            "",
            "",
            "self Add Wrapped(Vec2) -> Wrapped(Vec2),\nself Add Raw(f32) -> Wrapped(Vec2),\nself Sub Wrapped(Vec2) -> Wrapped(Vec2),\nself Div Raw(f32) -> Wrapped(Vec2),\nself Mul Raw(f32) -> Wrapped(Vec2),\nself Rem Wrapped(Vec2) -> Wrapped(Vec2),\n",
            ""
        )
    );
}

#[test]
fn binary_operator_takes_first_output_of_its_block() {
    let mut add = operator_block(200, "Add", named("Vec2"), 40, "add", Some(named("Vec2")), 41, Some(Some(prim("f32"))));
    add.insert(0, output_type(39, Some(named("Vec2"))));
    let blk = add.pop().unwrap();
    add.push(block(blk.id, Some("Add"), named("Vec2"), vec![999, 40, 41, 39]));
    assert_eq!(operators(vec![add]), framed("", "", "self Add Wrapped(Vec2) -> Raw(f32),\n", ""));
}

#[test]
fn member_named_like_operator_that_is_no_method_is_skipped() {
    let blk = vec![
        item(40, Some("add"), ItemKind::Other),
        output_type(41, Some(named("Vec2"))),
        block(200, Some("Add"), named("Vec2"), vec![41, 40]),
    ];
    assert_eq!(operators(vec![blk]), framed("", "", "", ""));
}

#[test]
fn unary_operator_is_written_for_every_member_named_neg() {
    let neg = operator_block(200, "Neg", named("Vec2"), 40, "neg", None, 41, Some(Some(named("Vec2"))));
    let odd = vec![
        method(42, "neg", vec![("a", TypeExpr::Other), ("b", TypeExpr::Other)], None),
        block(201, Some("Strange"), named("Quat"), vec![42]),
    ];
    assert_eq!(operators(vec![neg, odd]), framed("", "", "", "Neg self -> self\nNeg self -> self\n"));
}

#[test]
fn whole_body_of_a_small_type() {
    let mut length = method(31, "length", vec![("self", self_type())], Some(prim("f32")));
    length.docs = Some(s("Computes the length."));
    let methods = vec![
        method(30, "new", vec![("x", prim("f32")), ("y", prim("f32"))], Some(self_type())),
        length,
    ];
    let fields = vec![field(10, "x", prim("f32")), field(11, "y", prim("f32"))];
    let clone = vec![
        method(32, "clone", vec![("self", reference(false, self_type()))], Some(self_type())),
        block(21, Some("Clone"), named("Vec2"), vec![32]),
    ];
    let add = operator_block(22, "Add", named("Vec2"), 34, "add", Some(named("Vec2")), 33, Some(Some(named("Vec2"))));
    let mut more = clone;
    more.extend(add);
    let g = graph_with(methods, fields, more, vec![21, 22]);
    let c = config(&["f32"], vec![newtype("Vec2")]);
    let nt = newtype("Vec2");
    let (out, global) = body_of(&g, &nt, &c, false);
    assert_eq!(
        out,
        "Clone +\nMethods\n(new(Raw(f32),Raw(f32)) -> self,\n/// Computes the length.\nlength(self:) -> Raw(f32),\n)+ Fields\n(x: Raw(f32),\ny: Raw(f32),\n)+ BinOps\n(self Add Wrapped(Vec2) -> Wrapped(Vec2),\n)+ UnaryOps\n()"
    );
    assert!(global);
}
