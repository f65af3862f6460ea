//! The generated text around the descriptions of the bound types: feature guards,
//! imports, and the provider that registers everything.

use crate::config::{Args, Config, ManualLuaType, TraitMethods};
use crate::cratepath::{spec_use_item, write_use_items_from_path};
use crate::names::{
    name_set_contains, name_set_get_index, name_set_insert, name_set_items, name_set_len,
    name_set_new,
};
use crate::text::{append_piece, lemma_written, spec_lines, spec_prefixed, write_text_lines};
use crate::wrapper::{Target, WrappedItem};
use indexmap::IndexSet;
use vstd::prelude::*;
use vstd::string::*;

verus! {

/// What opens the declaration of the holder of the global instances.
pub const GLOBALS_HEAD: &'static str = "#[derive(Default)]\npub(crate) struct ";

/// What opens the implementation that registers the global instances.
pub const EXPORT_HEAD: &'static str =
    "impl bevy_mod_scripting_lua::tealr::mlu::ExportInstances for ";

/// What opens the routine that registers the global instances.
pub const ADD_INSTANCES_HEAD: &'static str = "Globals{fn add_instances<'lua, T: \
    bevy_mod_scripting_lua::tealr::mlu::InstanceCollector<'lua>>(self, instances: &mut T) -> \
    bevy_mod_scripting_lua::tealr::mlu::mlua::Result<()>\n{";

/// What closes the routine that registers the global instances.
pub const ADD_INSTANCES_TAIL: &'static str = "Ok(())\n}}";

/// The associated types of the provider, and what opens the routine that attaches
/// the global instances.
pub const ATTACH_HEAD: &'static str = "Provider{\
    type APITarget = Mutex<bevy_mod_scripting_lua::tealr::mlu::mlua::Lua>;\n\
    type ScriptContext = Mutex<bevy_mod_scripting_lua::tealr::mlu::mlua::Lua>;\n\
    type DocTarget = LuaDocFragment;\n\
    fn attach_api(&mut self, ctx: &mut Self::APITarget) -> Result<(), ScriptError>{\
    let ctx = ctx.get_mut().expect(\"Unable to acquire lock on Lua context\");\n\
    bevy_mod_scripting_lua::tealr::mlu::set_global_env(";

/// What closes the routine that attaches the global instances.
pub const ATTACH_TAIL: &'static str =
    "Globals,ctx).map_err(|e| ScriptError::Other(e.to_string()))\n}";

/// What opens the routine that documents the types.
pub const DOC_HEAD: &'static str =
    "fn get_doc_fragment(&self) -> Option<Self::DocTarget>{Some(LuaDocFragment::new(\"";

/// What stands between the name of the provider and the name of its globals in the
/// routine that documents the types.
pub const DOC_GLOBALS_HEAD: &'static str = "\", |tw|{tw\n.document_global_instance::<";

/// What follows the name of the globals in the routine that documents the types.
pub const DOC_GLOBALS_TAIL: &'static str =
    "Globals>().expect(\"Something went wrong documenting globals\")\n";

/// What closes the routine that documents the types.
pub const DOC_TAIL: &'static str = "}))\n}";

/// What opens the routine that registers the foreign types.
pub const REGISTER_HEAD: &'static str = "fn register_with_app(&self, app: &mut App){";

/// What opens the proxy of a type that has a global instance.
pub const PROXY_HEAD: &'static str = "\", bevy_mod_scripting_lua::tealr::mlu::UserDataProxy::<";

/// What opens the stand-in for the proxy of a type that has a global instance.
pub const DUMMY_HEAD: &'static str = "\", crate::lua::util::DummyTypeName::<";

/// What opens the documentation of the proxy of a type.
pub const DOC_PROXY_HEAD: &'static str =
    ".process_type::<bevy_mod_scripting_lua::tealr::mlu::UserDataProxy<";

/// The features of a guard, each on a line of its own.
pub open spec fn spec_feature_list(features: Seq<String>) -> Seq<char>
    decreases features.len(),
{
    if features.len() == 0 {
        Seq::empty()
    } else {
        spec_feature_list(features.drop_last()) + "feature=\""@ + features.last()@ + "\",\n"@
    }
}

/// The guard for a list of features: none for no feature, a plain guard for one,
/// a guard that asks for all of them for more.
pub open spec fn spec_feature_gate(features: Seq<String>) -> Seq<char> {
    if features.len() == 1 {
        "#[cfg(feature=\""@ + features[0]@ + "\")]\n"@
    } else if features.len() == 0 {
        Seq::empty()
    } else {
        "#[cfg(all(\n"@ + spec_feature_list(features) + "))]\n"@
    }
}

/// The marker that ties a description to the scripting language.
pub open spec fn spec_on_feature() -> Seq<char> {
    "#[languages(on_feature(lua))]\n"@
}

/// Appends the guard for a list of features.
pub fn write_feature_gate(features: &Vec<String>, out: &mut String)
    ensures
        final(out)@ == old(out)@ + spec_feature_gate(features@),
{
    if features.len() == 1 {
        out.append("#[cfg(feature=\"");
        out.append(features[0].as_str());
        out.append("\")]\n");
        proof {
            assert(out@ =~= old(out)@ + spec_feature_gate(features@));
        }
    } else if features.len() != 0 {
        out.append("#[cfg(all(\n");
        let mut i: usize = 0;
        proof {
            assert(out@ =~= old(out)@ + "#[cfg(all(\n"@ + Seq::<char>::empty());
        }
        while i < features.len()
            invariant
                i <= features.len(),
                out@ == old(out)@ + "#[cfg(all(\n"@ + spec_feature_list(features@.take(i as int)),
            decreases features.len() - i,
        {
            proof {
                assert(features@.take(i + 1).drop_last() =~= features@.take(i as int));
            }
            out.append("feature=\"");
            out.append(features[i].as_str());
            out.append("\",\n");
            proof {
                assert(out@ =~= old(out)@ + "#[cfg(all(\n"@ + (spec_feature_list(
                    features@.take(i as int),
                ) + "feature=\""@ + features@[i as int]@ + "\",\n"@));
            }
            i = i + 1;
        }
        out.append("))]\n");
        proof {
            assert(features@.take(features.len() as int) =~= features@);
            assert(out@ =~= old(out)@ + spec_feature_gate(features@));
        }
    } else {
        proof {
            assert(old(out)@ + Seq::<char>::empty() =~= old(out)@);
        }
    }
}

/// Appends the guard for the features that the generated provider depends on.
pub fn generate_cfg_feature_attribute(config: &Config, out: &mut String)
    ensures
        final(out)@ == old(out)@ + spec_feature_gate(config.required_features@),
{
    write_feature_gate(&config.required_features, out);
}

/// Appends the marker that ties a description to the scripting language.
pub fn generate_on_feature_attribute(out: &mut String)
    ensures
        final(out)@ == old(out)@ + spec_on_feature(),
{
    out.append("#[languages(on_feature(lua))]\n");
}

/// The description of one bound type: the guard for its features, then inside the
/// invocation the marker, the documentation, the full path, the body, and the
/// methods declared by hand.
#[verifier::opaque]
pub open spec fn spec_type_block(t: Target, config: Config, print_errors: bool) -> Seq<char> {
    spec_feature_gate(t.newtype.required_features@) + "impl_script_newtype!{"@ + spec_on_feature()
        + t.type_docstring() + t.inline_full_path() + " : \n"@ + t.derive_flags_body(
        config,
        print_errors,
    ) + "lua impl\n{"@ + t.impl_block_body() + "}}"@
}

/// Appends the description of one bound type, and notes on it whether a method
/// written out for it takes no receiver.
pub fn write_type_block<'a>(
    w: &mut WrappedItem<'a>,
    config: &Config,
    args: &Args,
    out: &mut String,
)
    requires
        old(w).wf(),
    ensures
        final(out)@ == old(out)@ + spec_type_block(old(w).target(), *config, args.print_errors),
        final(w).has_global_methods == old(w).target().has_global_methods(*config),
        final(w).wf(),
        final(w).target() == old(w).target(),
        final(w).wrapper_name == old(w).wrapper_name,
        final(w).wrapped_type == old(w).wrapped_type,
{
    let ghost start = out@;
    let ghost t = w.target();
    let mut written: Ghost<Seq<char>> = Ghost(Seq::empty());
    proof {
        assert(start + written@ =~= start);
    }
    write_feature_gate(&w.config.required_features, out);
    proof {
        written@ = lemma_written(start, written@, spec_feature_gate(t.newtype.required_features@));
    }
    written = append_piece(out, "impl_script_newtype!{", Ghost(start), written);
    generate_on_feature_attribute(out);
    proof {
        written@ = lemma_written(start, written@, spec_on_feature());
    }
    w.write_type_docstring(out, args);
    proof {
        written@ = lemma_written(start, written@, t.type_docstring());
    }
    w.write_inline_full_path(out, args);
    proof {
        written@ = lemma_written(start, written@, t.inline_full_path());
    }
    written = append_piece(out, " : \n", Ghost(start), written);
    w.write_derive_flags_body(config, out, args);
    proof {
        written@ = lemma_written(start, written@, t.derive_flags_body(*config, args.print_errors));
    }
    written = append_piece(out, "lua impl\n{", Ghost(start), written);
    w.write_impl_block_body(out, args);
    proof {
        written@ = lemma_written(start, written@, t.impl_block_body());
    }
    written = append_piece(out, "}}", Ghost(start), written);
    proof {
        reveal(spec_type_block);
        assert(written@ =~= spec_type_block(t, *config, args.print_errors));
    }
}

/// What the generator reads of each of a sequence of bound types.
pub open spec fn targets_of<'a>(items: Seq<WrappedItem<'a>>) -> Seq<Target> {
    Seq::new(items.len(), |k: int| items[k].target())
}

/// Whether every bound type of a sequence holds what the graph holds for it.
pub open spec fn all_wf<'a>(items: Seq<WrappedItem<'a>>) -> bool {
    forall|k: int| 0 <= k < items.len() ==> (#[trigger] items[k]).wf()
}

/// Whether every bound type of a sequence carries the note on its methods that
/// take no receiver.
pub open spec fn all_noted<'a>(items: Seq<WrappedItem<'a>>, config: Config) -> bool {
    forall|k: int|
        0 <= k < items.len() ==> (#[trigger] items[k]).has_global_methods
            == items[k].target().has_global_methods(config)
}

/// The module path of a type behind its root module.
pub open spec fn spec_path_rest(path: Seq<String>) -> Seq<String> {
    if path.len() > 0 {
        path.skip(1)
    } else {
        path
    }
}

/// The imports of the bound types, one for each in their order.
pub open spec fn spec_use_items(targets: Seq<Target>) -> Seq<char>
    decreases targets.len(),
{
    if targets.len() == 0 {
        Seq::empty()
    } else {
        spec_use_items(targets.drop_last()) + spec_use_item(
            targets.last().newtype.source@,
            spec_path_rest(targets.last().path),
            targets.last().newtype.import_path@,
        )
    }
}

/// Appends the imports of the bound types.
pub fn write_use_items<'a>(items: &Vec<WrappedItem<'a>>, out: &mut String)
    ensures
        final(out)@ == old(out)@ + spec_use_items(targets_of(items@)),
{
    let mut i: usize = 0;
    proof {
        assert(old(out)@ + Seq::<char>::empty() =~= old(out)@);
    }
    while i < items.len()
        invariant
            i <= items.len(),
            out@ == old(out)@ + spec_use_items(targets_of(items@).take(i as int)),
        decreases items.len() - i,
    {
        let w = &items[i];
        proof {
            let v = targets_of(items@);
            assert(v.take(i + 1).drop_last() =~= v.take(i as int));
            assert(v.take(i + 1).last() == w.target());
        }
        let path = w.path_components.as_slice();
        let rest = if path.len() > 0 {
            vstd::slice::slice_subrange(path, 1, path.len())
        } else {
            path
        };
        proof {
            assert(rest@ =~= spec_path_rest(w.target().path));
        }
        let ghost before = out@;
        write_use_items_from_path(w.config.source.as_str(), rest, &w.config.import_path, out);
        proof {
            assert(out@ =~= old(out)@ + (spec_use_items(targets_of(items@).take(i as int))
                + spec_use_item(
                w.target().newtype.source@,
                spec_path_rest(w.target().path),
                w.target().newtype.import_path@,
            )));
        }
        i = i + 1;
    }
    proof {
        assert(targets_of(items@).take(items.len() as int) =~= targets_of(items@));
    }
}

/// The descriptions of the bound types, one after the other in their order.
pub open spec fn spec_type_blocks(targets: Seq<Target>, config: Config, print_errors: bool) -> Seq<
    char,
>
    decreases targets.len(),
{
    if targets.len() == 0 {
        Seq::empty()
    } else {
        spec_type_blocks(targets.drop_last(), config, print_errors) + spec_type_block(
            targets.last(),
            config,
            print_errors,
        )
    }
}

/// Appends the descriptions of the bound types, and notes on each whether a method
/// written out for it takes no receiver.
pub fn write_type_blocks<'a>(
    items: &mut Vec<WrappedItem<'a>>,
    config: &Config,
    args: &Args,
    out: &mut String,
)
    requires
        all_wf(old(items)@),
    ensures
        final(out)@ == old(out)@ + spec_type_blocks(
            targets_of(old(items)@),
            *config,
            args.print_errors,
        ),
        targets_of(final(items)@) == targets_of(old(items)@),
        all_wf(final(items)@),
        all_noted(final(items)@, *config),
{
    let ghost targets = targets_of(items@);
    let mut i: usize = 0;
    proof {
        assert(old(out)@ + Seq::<char>::empty() =~= old(out)@);
    }
    while i < items.len()
        invariant
            i <= items.len(),
            items@.len() == old(items)@.len(),
            targets_of(items@) == targets,
            all_wf(items@),
            forall|k: int|
                0 <= k < i ==> (#[trigger] items@[k]).has_global_methods
                    == targets[k].has_global_methods(*config),
            out@ == old(out)@ + spec_type_blocks(targets.take(i as int), *config, args.print_errors),
        decreases items.len() - i,
    {
        proof {
            assert(targets.take(i + 1).drop_last() =~= targets.take(i as int));
            assert(targets[i as int] == items@[i as int].target());
        }
        let ghost before = items@;
        let ghost text = out@;
        write_type_block(&mut items[i], config, args, out);
        proof {
            assert(items@.len() == before.len());
            assert forall|k: int| 0 <= k < items@.len() implies (#[trigger] items@[k]).target()
                == targets[k] && items@[k].wf() by {
                if k != i {
                    assert(items@[k] == before[k]);
                }
                assert(targets[k] == before[k].target());
            }
            assert(targets_of(items@) =~= targets);
            assert forall|k: int| 0 <= k < i + 1 implies (#[trigger] items@[k]).has_global_methods
                == targets[k].has_global_methods(*config) by {
                if k != i {
                    assert(items@[k] == before[k]);
                }
            }
            assert(out@ =~= old(out)@ + (spec_type_blocks(
                targets.take(i as int),
                *config,
                args.print_errors,
            ) + spec_type_block(targets[i as int], *config, args.print_errors)));
        }
        i = i + 1;
    }
    proof {
        assert(targets.take(items.len() as int) =~= targets);
        assert forall|k: int| 0 <= k < items@.len() implies (#[trigger] items@[k]).has_global_methods
            == items@[k].target().has_global_methods(*config) by {
            assert(targets[k] == items@[k].target());
        }
    }
}

/// The accepted interfaces of the bound types: those of each type in their order,
/// type after type.
pub open spec fn spec_all_traits(targets: Seq<Target>) -> Seq<TraitMethods>
    decreases targets.len(),
{
    if targets.len() == 0 {
        Seq::empty()
    } else {
        spec_all_traits(targets.drop_last()) + targets.last().newtype.traits@
    }
}

/// Whether one of a sequence of interfaces goes by a name.
pub open spec fn spec_names_trait(traits: Seq<TraitMethods>, name: Seq<char>) -> bool {
    exists|j: int| 0 <= j < traits.len() && (#[trigger] traits[j]).name@ == name
}

/// The import of an interface.
pub open spec fn spec_trait_import(t: TraitMethods) -> Seq<char> {
    "use "@ + t.import_path@ + ";\n"@
}

/// The imports of a sequence of interfaces: one for each name, written where the
/// name stands first.
pub open spec fn spec_trait_imports(traits: Seq<TraitMethods>) -> Seq<char>
    decreases traits.len(),
{
    if traits.len() == 0 {
        Seq::empty()
    } else if spec_names_trait(traits.drop_last(), traits.last().name@) {
        spec_trait_imports(traits.drop_last())
    } else {
        spec_trait_imports(traits.drop_last()) + spec_trait_import(traits.last())
    }
}

/// Appends the imports of the interfaces that the bound types accept.
pub fn write_trait_imports<'a>(items: &Vec<WrappedItem<'a>>, out: &mut String)
    ensures
        final(out)@ == old(out)@ + spec_trait_imports(spec_all_traits(targets_of(items@))),
{
    let mut imported = name_set_new();
    let ghost targets = targets_of(items@);
    let mut i: usize = 0;
    proof {
        assert(old(out)@ + Seq::<char>::empty() =~= old(out)@);
    }
    while i < items.len()
        invariant
            i <= items.len(),
            targets == targets_of(items@),
            out@ == old(out)@ + spec_trait_imports(spec_all_traits(targets.take(i as int))),
            forall|n: Seq<char>|
                name_set_items(imported).contains(n) <==> spec_names_trait(
                    spec_all_traits(targets.take(i as int)),
                    n,
                ),
        decreases items.len() - i,
    {
        let traits = &items[i].config.traits;
        let ghost done = spec_all_traits(targets.take(i as int));
        proof {
            assert(targets.take(i + 1).drop_last() =~= targets.take(i as int));
            assert(targets[i as int].newtype.traits@ == traits@);
            assert(done + traits@.take(0) =~= done);
        }
        let mut j: usize = 0;
        while j < traits.len()
            invariant
                j <= traits.len(),
                out@ == old(out)@ + spec_trait_imports(done + traits@.take(j as int)),
                forall|n: Seq<char>|
                    name_set_items(imported).contains(n) <==> spec_names_trait(
                        done + traits@.take(j as int),
                        n,
                    ),
            decreases traits.len() - j,
        {
            let t = &traits[j];
            let ghost seen = done + traits@.take(j as int);
            let ghost next = done + traits@.take(j + 1);
            let ghost held = name_set_items(imported);
            proof {
                assert(next =~= seen.push(*t));
                assert(next.drop_last() =~= seen);
            }
            if !name_set_contains(&imported, t.name.as_str()) {
                out.append("use ");
                out.append(t.import_path.as_str());
                out.append(";\n");
                name_set_insert(&mut imported, t.name.clone());
                proof {
                    assert(out@ =~= old(out)@ + (spec_trait_imports(seen) + spec_trait_import(*t)));
                }
            }
            proof {
                assert forall|n: Seq<char>|
                    name_set_items(imported).contains(n) <==> spec_names_trait(next, n) by {
                    if name_set_items(imported).contains(n) {
                        if held.contains(n) {
                            let k = choose|k: int| 0 <= k < seen.len() && (#[trigger] seen[k]).name@ == n;
                            assert(next[k].name@ == n);
                        } else {
                            let p = choose|p: int|
                                0 <= p < name_set_items(imported).len() && name_set_items(
                                    imported,
                                )[p] == n;
                            assert(n == t.name@);
                            assert(next[seen.len() as int].name@ == n);
                        }
                    }
                    if spec_names_trait(next, n) {
                        let k = choose|k: int| 0 <= k < next.len() && (#[trigger] next[k]).name@ == n;
                        if k < seen.len() {
                            assert(seen[k].name@ == n);
                            assert(held.contains(n));
                            let p = choose|p: int| 0 <= p < held.len() && held[p] == n;
                            assert(name_set_items(imported)[p] == n);
                        } else {
                            assert(n == t.name@);
                            if held.contains(n) {
                            } else {
                                assert(name_set_items(imported)[held.len() as int] == n);
                            }
                        }
                    }
                }
            }
            j = j + 1;
        }
        proof {
            assert(traits@.take(traits.len() as int) =~= traits@);
        }
        i = i + 1;
    }
    proof {
        assert(targets.take(items.len() as int) =~= targets);
    }
}

/// The registration of one global instance: the name that it goes by, and the
/// proxy of the type, or a stand-in for it.
pub open spec fn spec_instance(global_name: Seq<char>, type_: Seq<char>, dummy: bool) -> Seq<char> {
    if dummy {
        "instances.add_instance(\""@ + global_name + DUMMY_HEAD@ + type_ + ">::new)?;\n"@
    } else {
        "instances.add_instance(\""@ + global_name + PROXY_HEAD@ + type_ + ">::new)?;\n"@
    }
}

/// Appends the registration of one global instance.
pub fn write_instance(global_name: &str, type_: &str, dummy: bool, out: &mut String)
    ensures
        final(out)@ == old(out)@ + spec_instance(global_name@, type_@, dummy),
{
    out.append("instances.add_instance(\"");
    out.append(global_name);
    if dummy {
        out.append(DUMMY_HEAD);
    } else {
        out.append(PROXY_HEAD);
    }
    out.append(type_);
    out.append(">::new)?;\n");
    proof {
        assert(out@ =~= old(out)@ + spec_instance(global_name@, type_@, dummy));
    }
}

/// What one bound type adds to the global instances: its registration where a
/// method written out for it takes no receiver, else nothing.
pub open spec fn spec_type_instance(t: Target, config: Config) -> Seq<char> {
    if t.has_global_methods(config) {
        spec_instance(t.newtype.type_@, t.wrapper_name(), false)
    } else {
        Seq::empty()
    }
}

/// The global instances of the bound types, in their order.
pub open spec fn spec_type_instances(targets: Seq<Target>, config: Config) -> Seq<char>
    decreases targets.len(),
{
    if targets.len() == 0 {
        Seq::empty()
    } else {
        spec_type_instances(targets.drop_last(), config) + spec_type_instance(
            targets.last(),
            config,
        )
    }
}

/// The global instances of the types declared by hand that ask for one.
pub open spec fn spec_manual_instances(manual: Seq<ManualLuaType>) -> Seq<char>
    decreases manual.len(),
{
    if manual.len() == 0 {
        Seq::empty()
    } else {
        spec_manual_instances(manual.drop_last()) + if manual.last().include_global_proxy {
            spec_instance(
                manual.last().proxy_name@,
                manual.last().name@,
                manual.last().use_dummy_proxy,
            )
        } else {
            Seq::empty()
        }
    }
}

/// Appends the global instances of the bound types.
pub fn write_type_instances<'a>(items: &Vec<WrappedItem<'a>>, config: &Config, out: &mut String)
    requires
        all_wf(items@),
        all_noted(items@, *config),
    ensures
        final(out)@ == old(out)@ + spec_type_instances(targets_of(items@), *config),
{
    let ghost targets = targets_of(items@);
    let mut i: usize = 0;
    proof {
        assert(old(out)@ + Seq::<char>::empty() =~= old(out)@);
    }
    while i < items.len()
        invariant
            i <= items.len(),
            targets == targets_of(items@),
            all_wf(items@),
            all_noted(items@, *config),
            out@ == old(out)@ + spec_type_instances(targets.take(i as int), *config),
        decreases items.len() - i,
    {
        let w = &items[i];
        proof {
            assert(targets.take(i + 1).drop_last() =~= targets.take(i as int));
            assert(targets[i as int] == w.target());
            assert(items@[i as int].wf());
            assert(items@[i as int].has_global_methods == w.target().has_global_methods(*config));
        }
        let ghost before = out@;
        if w.has_global_methods {
            write_instance(w.wrapped_type.as_str(), w.wrapper_name.as_str(), false, out);
        }
        proof {
            assert(out@ =~= before + spec_type_instance(w.target(), *config));
            assert(out@ =~= old(out)@ + (spec_type_instances(targets.take(i as int), *config)
                + spec_type_instance(w.target(), *config)));
        }
        i = i + 1;
    }
    proof {
        assert(targets.take(items.len() as int) =~= targets);
    }
}

/// Appends the global instances of the types declared by hand.
pub fn write_manual_instances(manual: &Vec<ManualLuaType>, out: &mut String)
    ensures
        final(out)@ == old(out)@ + spec_manual_instances(manual@),
{
    let mut i: usize = 0;
    proof {
        assert(old(out)@ + Seq::<char>::empty() =~= old(out)@);
    }
    while i < manual.len()
        invariant
            i <= manual.len(),
            out@ == old(out)@ + spec_manual_instances(manual@.take(i as int)),
        decreases manual.len() - i,
    {
        let m = &manual[i];
        proof {
            assert(manual@.take(i + 1).drop_last() =~= manual@.take(i as int));
        }
        let ghost before = out@;
        if m.include_global_proxy {
            write_instance(m.proxy_name.as_str(), m.name.as_str(), m.use_dummy_proxy, out);
        }
        proof {
            let entry = if m.include_global_proxy {
                spec_instance(m.proxy_name@, m.name@, m.use_dummy_proxy)
            } else {
                Seq::empty()
            };
            assert(out@ =~= before + entry);
            assert(out@ =~= old(out)@ + (spec_manual_instances(manual@.take(i as int)) + entry));
        }
        i = i + 1;
    }
    proof {
        assert(manual@.take(manual.len() as int) =~= manual@);
    }
}

/// What one type adds to the documentation: the type itself, and its proxy where
/// it has a global instance.
pub open spec fn spec_doc_type(type_: Seq<char>, include_proxy: bool) -> Seq<char> {
    if include_proxy {
        ".process_type::<"@ + type_ + ">()\n"@ + DOC_PROXY_HEAD@ + type_ + ">>()\n"@
    } else {
        ".process_type::<"@ + type_ + ">()\n"@
    }
}

/// Appends what one type adds to the documentation.
pub fn write_doc_type(type_: &str, include_proxy: bool, out: &mut String)
    ensures
        final(out)@ == old(out)@ + spec_doc_type(type_@, include_proxy),
{
    out.append(".process_type::<");
    out.append(type_);
    out.append(">()\n");
    if include_proxy {
        out.append(DOC_PROXY_HEAD);
        out.append(type_);
        out.append(">>()\n");
    }
    proof {
        assert(out@ =~= old(out)@ + spec_doc_type(type_@, include_proxy));
    }
}

/// What the bound types add to the documentation, in their order.
pub open spec fn spec_type_docs(targets: Seq<Target>, config: Config) -> Seq<char>
    decreases targets.len(),
{
    if targets.len() == 0 {
        Seq::empty()
    } else {
        spec_type_docs(targets.drop_last(), config) + spec_doc_type(
            targets.last().wrapper_name(),
            targets.last().has_global_methods(config),
        )
    }
}

/// What the types declared by hand add to the documentation: all of them but
/// those that are not to be processed.
pub open spec fn spec_manual_docs(manual: Seq<ManualLuaType>) -> Seq<char>
    decreases manual.len(),
{
    if manual.len() == 0 {
        Seq::empty()
    } else {
        spec_manual_docs(manual.drop_last()) + if manual.last().dont_process {
            Seq::empty()
        } else {
            spec_doc_type(manual.last().name@, manual.last().include_global_proxy)
        }
    }
}

/// Appends what the bound types add to the documentation.
pub fn write_type_docs<'a>(items: &Vec<WrappedItem<'a>>, config: &Config, out: &mut String)
    requires
        all_wf(items@),
        all_noted(items@, *config),
    ensures
        final(out)@ == old(out)@ + spec_type_docs(targets_of(items@), *config),
{
    let ghost targets = targets_of(items@);
    let mut i: usize = 0;
    proof {
        assert(old(out)@ + Seq::<char>::empty() =~= old(out)@);
    }
    while i < items.len()
        invariant
            i <= items.len(),
            targets == targets_of(items@),
            all_wf(items@),
            all_noted(items@, *config),
            out@ == old(out)@ + spec_type_docs(targets.take(i as int), *config),
        decreases items.len() - i,
    {
        let w = &items[i];
        proof {
            assert(targets.take(i + 1).drop_last() =~= targets.take(i as int));
            assert(targets[i as int] == w.target());
            assert(items@[i as int].wf());
            assert(items@[i as int].has_global_methods == w.target().has_global_methods(*config));
        }
        write_doc_type(w.wrapper_name.as_str(), w.has_global_methods, out);
        proof {
            assert(out@ =~= old(out)@ + (spec_type_docs(targets.take(i as int), *config)
                + spec_doc_type(w.target().wrapper_name(), w.target().has_global_methods(*config))));
        }
        i = i + 1;
    }
    proof {
        assert(targets.take(items.len() as int) =~= targets);
    }
}

/// Appends what the types declared by hand add to the documentation.
pub fn write_manual_docs(manual: &Vec<ManualLuaType>, out: &mut String)
    ensures
        final(out)@ == old(out)@ + spec_manual_docs(manual@),
{
    let mut i: usize = 0;
    proof {
        assert(old(out)@ + Seq::<char>::empty() =~= old(out)@);
    }
    while i < manual.len()
        invariant
            i <= manual.len(),
            out@ == old(out)@ + spec_manual_docs(manual@.take(i as int)),
        decreases manual.len() - i,
    {
        let m = &manual[i];
        proof {
            assert(manual@.take(i + 1).drop_last() =~= manual@.take(i as int));
        }
        let ghost before = out@;
        if !m.dont_process {
            write_doc_type(m.name.as_str(), m.include_global_proxy, out);
        }
        proof {
            let entry = if m.dont_process {
                Seq::empty()
            } else {
                spec_doc_type(m.name@, m.include_global_proxy)
            };
            assert(out@ =~= before + entry);
            assert(out@ =~= old(out)@ + (spec_manual_docs(manual@.take(i as int)) + entry));
        }
        i = i + 1;
    }
    proof {
        assert(manual@.take(manual.len() as int) =~= manual@);
    }
}

/// The registration of one foreign type.
pub open spec fn spec_registration(type_: Seq<char>) -> Seq<char> {
    "app.register_foreign_lua_type::<"@ + type_ + ">();\n"@
}

/// The registrations of the bound types, in their order.
pub open spec fn spec_type_registrations(targets: Seq<Target>) -> Seq<char>
    decreases targets.len(),
{
    if targets.len() == 0 {
        Seq::empty()
    } else {
        spec_type_registrations(targets.drop_last()) + spec_registration(
            targets.last().newtype.type_@,
        )
    }
}

/// The registrations of a sequence of names, in their order.
pub open spec fn spec_name_registrations(names: Seq<Seq<char>>) -> Seq<char>
    decreases names.len(),
{
    if names.len() == 0 {
        Seq::empty()
    } else {
        spec_name_registrations(names.drop_last()) + spec_registration(names.last())
    }
}

/// Appends the registrations of the bound types.
pub fn write_type_registrations<'a>(items: &Vec<WrappedItem<'a>>, out: &mut String)
    requires
        all_wf(items@),
    ensures
        final(out)@ == old(out)@ + spec_type_registrations(targets_of(items@)),
{
    let ghost targets = targets_of(items@);
    let mut i: usize = 0;
    proof {
        assert(old(out)@ + Seq::<char>::empty() =~= old(out)@);
    }
    while i < items.len()
        invariant
            i <= items.len(),
            targets == targets_of(items@),
            all_wf(items@),
            out@ == old(out)@ + spec_type_registrations(targets.take(i as int)),
        decreases items.len() - i,
    {
        let w = &items[i];
        proof {
            assert(targets.take(i + 1).drop_last() =~= targets.take(i as int));
            assert(targets[i as int] == w.target());
            assert(items@[i as int].wf());
        }
        out.append("app.register_foreign_lua_type::<");
        out.append(w.wrapped_type.as_str());
        out.append(">();\n");
        proof {
            assert(out@ =~= old(out)@ + (spec_type_registrations(targets.take(i as int))
                + spec_registration(w.target().newtype.type_@)));
        }
        i = i + 1;
    }
    proof {
        assert(targets.take(items.len() as int) =~= targets);
    }
}

/// Appends the registrations of the configured primitives.
pub fn write_primitive_registrations(primitives: &IndexSet<String>, out: &mut String)
    ensures
        final(out)@ == old(out)@ + spec_name_registrations(name_set_items(*primitives)),
{
    let n = name_set_len(primitives);
    let ghost names = name_set_items(*primitives);
    let mut i: usize = 0;
    proof {
        assert(old(out)@ + Seq::<char>::empty() =~= old(out)@);
    }
    while i < n
        invariant
            i <= n,
            n == names.len(),
            names == name_set_items(*primitives),
            out@ == old(out)@ + spec_name_registrations(names.take(i as int)),
        decreases n - i,
    {
        proof {
            assert(names.take(i + 1).drop_last() =~= names.take(i as int));
        }
        match name_set_get_index(primitives, i) {
            Some(name) => {
                out.append("app.register_foreign_lua_type::<");
                out.append(name.as_str());
                out.append(">();\n");
                proof {
                    assert(out@ =~= old(out)@ + (spec_name_registrations(names.take(i as int))
                        + spec_registration(names[i as int])));
                }
            },
            None => {},
        }
        i = i + 1;
    }
    proof {
        assert(names.take(n as int) =~= names);
    }
}

/// The lines of a free text of the configuration, each closed by a line feed.
pub open spec fn spec_text_block(text: Seq<char>) -> Seq<char> {
    spec_prefixed(Seq::empty(), spec_lines(text))
}

/// Appends the lines of a free text of the configuration.
pub fn write_text_block(text: &str, out: &mut String)
    ensures
        final(out)@ == old(out)@ + spec_text_block(text@),
{
    proof {
        reveal_strlit("");
        assert(""@ =~= Seq::<char>::empty());
    }
    write_text_lines(out, "", text);
}

/// The holder of the global instances: its declaration, and the routine that
/// registers the instances of the bound types and of the types declared by hand.
#[verifier::opaque]
pub open spec fn spec_globals(targets: Seq<Target>, config: Config) -> Seq<char> {
    spec_feature_gate(config.required_features@) + GLOBALS_HEAD@ + config.api_name@
        + "Globals;\n"@ + spec_feature_gate(config.required_features@) + EXPORT_HEAD@
        + config.api_name@ + ADD_INSTANCES_HEAD@ + spec_type_instances(targets, config)
        + spec_manual_instances(config.manual_lua_types@) + ADD_INSTANCES_TAIL@
}

/// Appends the holder of the global instances.
pub fn write_globals<'a>(items: &Vec<WrappedItem<'a>>, config: &Config, out: &mut String)
    requires
        all_wf(items@),
        all_noted(items@, *config),
    ensures
        final(out)@ == old(out)@ + spec_globals(targets_of(items@), *config),
{
    let ghost start = out@;
    let mut written: Ghost<Seq<char>> = Ghost(Seq::empty());
    proof {
        assert(start + written@ =~= start);
    }
    generate_cfg_feature_attribute(config, out);
    proof {
        written@ = lemma_written(start, written@, spec_feature_gate(config.required_features@));
    }
    written = append_piece(out, GLOBALS_HEAD, Ghost(start), written);
    written = append_piece(out, config.api_name.as_str(), Ghost(start), written);
    written = append_piece(out, "Globals;\n", Ghost(start), written);
    generate_cfg_feature_attribute(config, out);
    proof {
        written@ = lemma_written(start, written@, spec_feature_gate(config.required_features@));
    }
    written = append_piece(out, EXPORT_HEAD, Ghost(start), written);
    written = append_piece(out, config.api_name.as_str(), Ghost(start), written);
    written = append_piece(out, ADD_INSTANCES_HEAD, Ghost(start), written);
    write_type_instances(items, config, out);
    proof {
        written@ = lemma_written(start, written@, spec_type_instances(targets_of(items@), *config));
    }
    write_manual_instances(&config.manual_lua_types, out);
    proof {
        written@ = lemma_written(start, written@, spec_manual_instances(config.manual_lua_types@));
    }
    written = append_piece(out, ADD_INSTANCES_TAIL, Ghost(start), written);
    proof {
        reveal(spec_globals);
        assert(written@ =~= spec_globals(targets_of(items@), *config));
    }
}

/// The head of the provider: its declaration, its associated types, and the
/// routine that attaches the global instances.
#[verifier::opaque]
pub open spec fn spec_provider_head(config: Config) -> Seq<char> {
    spec_feature_gate(config.required_features@) + "pub struct Lua"@ + config.api_name@
        + "Provider;\n"@ + spec_feature_gate(config.required_features@)
        + "impl APIProvider for Lua"@ + config.api_name@ + ATTACH_HEAD@ + config.api_name@
        + ATTACH_TAIL@
}

/// Appends the head of the provider.
pub fn write_provider_head(config: &Config, out: &mut String)
    ensures
        final(out)@ == old(out)@ + spec_provider_head(*config),
{
    let ghost start = out@;
    let mut written: Ghost<Seq<char>> = Ghost(Seq::empty());
    proof {
        assert(start + written@ =~= start);
    }
    generate_cfg_feature_attribute(config, out);
    proof {
        written@ = lemma_written(start, written@, spec_feature_gate(config.required_features@));
    }
    written = append_piece(out, "pub struct Lua", Ghost(start), written);
    written = append_piece(out, config.api_name.as_str(), Ghost(start), written);
    written = append_piece(out, "Provider;\n", Ghost(start), written);
    generate_cfg_feature_attribute(config, out);
    proof {
        written@ = lemma_written(start, written@, spec_feature_gate(config.required_features@));
    }
    written = append_piece(out, "impl APIProvider for Lua", Ghost(start), written);
    written = append_piece(out, config.api_name.as_str(), Ghost(start), written);
    written = append_piece(out, ATTACH_HEAD, Ghost(start), written);
    written = append_piece(out, config.api_name.as_str(), Ghost(start), written);
    written = append_piece(out, ATTACH_TAIL, Ghost(start), written);
    proof {
        reveal(spec_provider_head);
        assert(written@ =~= spec_provider_head(*config));
    }
}

/// The routine that documents the global instances, the bound types, and the
/// types declared by hand.
#[verifier::opaque]
pub open spec fn spec_doc_fragment(targets: Seq<Target>, config: Config) -> Seq<char> {
    DOC_HEAD@ + config.api_name@ + DOC_GLOBALS_HEAD@ + config.api_name@ + DOC_GLOBALS_TAIL@
        + spec_type_docs(targets, config) + spec_manual_docs(config.manual_lua_types@) + DOC_TAIL@
}

/// Appends the routine that documents the types.
pub fn write_doc_fragment<'a>(items: &Vec<WrappedItem<'a>>, config: &Config, out: &mut String)
    requires
        all_wf(items@),
        all_noted(items@, *config),
    ensures
        final(out)@ == old(out)@ + spec_doc_fragment(targets_of(items@), *config),
{
    let ghost start = out@;
    let mut written: Ghost<Seq<char>> = Ghost(Seq::empty());
    proof {
        assert(start + written@ =~= start);
    }
    written = append_piece(out, DOC_HEAD, Ghost(start), written);
    written = append_piece(out, config.api_name.as_str(), Ghost(start), written);
    written = append_piece(out, DOC_GLOBALS_HEAD, Ghost(start), written);
    written = append_piece(out, config.api_name.as_str(), Ghost(start), written);
    written = append_piece(out, DOC_GLOBALS_TAIL, Ghost(start), written);
    write_type_docs(items, config, out);
    proof {
        written@ = lemma_written(start, written@, spec_type_docs(targets_of(items@), *config));
    }
    write_manual_docs(&config.manual_lua_types, out);
    proof {
        written@ = lemma_written(start, written@, spec_manual_docs(config.manual_lua_types@));
    }
    written = append_piece(out, DOC_TAIL, Ghost(start), written);
    proof {
        reveal(spec_doc_fragment);
        assert(written@ =~= spec_doc_fragment(targets_of(items@), *config));
    }
}

/// The routine that registers the bound types and the configured primitives as
/// foreign types.
pub open spec fn spec_registration_routine(targets: Seq<Target>, config: Config) -> Seq<char> {
    REGISTER_HEAD@ + spec_type_registrations(targets)
        + spec_name_registrations(name_set_items(config.primitives)) + "}"@
}

/// Appends the routine that registers the foreign types.
pub fn write_registration_routine<'a>(
    items: &Vec<WrappedItem<'a>>,
    config: &Config,
    out: &mut String,
)
    requires
        all_wf(items@),
    ensures
        final(out)@ == old(out)@ + spec_registration_routine(targets_of(items@), *config),
{
    out.append(REGISTER_HEAD);
    write_type_registrations(items, out);
    write_primitive_registrations(&config.primitives, out);
    out.append("}");
    proof {
        assert(out@ =~= old(out)@ + spec_registration_routine(targets_of(items@), *config));
    }
}

/// What follows the descriptions of the bound types: the imports of the accepted
/// interfaces, the further code of the configuration, the holder of the global
/// instances, and the provider with its routines.
#[verifier::opaque]
pub open spec fn spec_scaffolding(targets: Seq<Target>, config: Config) -> Seq<char> {
    spec_trait_imports(spec_all_traits(targets)) + spec_text_block(config.other@) + spec_globals(
        targets,
        config,
    ) + spec_provider_head(config) + spec_doc_fragment(targets, config) + spec_text_block(
        config.lua_api_defaults@,
    ) + spec_registration_routine(targets, config) + "}"@
}

/// Appends what follows the descriptions of the bound types.
pub fn write_scaffolding<'a>(items: &Vec<WrappedItem<'a>>, config: &Config, out: &mut String)
    requires
        all_wf(items@),
        all_noted(items@, *config),
    ensures
        final(out)@ == old(out)@ + spec_scaffolding(targets_of(items@), *config),
{
    let ghost start = out@;
    let mut written: Ghost<Seq<char>> = Ghost(Seq::empty());
    proof {
        assert(start + written@ =~= start);
    }
    write_trait_imports(items, out);
    proof {
        written@ = lemma_written(
            start,
            written@,
            spec_trait_imports(spec_all_traits(targets_of(items@))),
        );
    }
    write_text_block(config.other.as_str(), out);
    proof {
        written@ = lemma_written(start, written@, spec_text_block(config.other@));
    }
    write_globals(items, config, out);
    proof {
        written@ = lemma_written(start, written@, spec_globals(targets_of(items@), *config));
    }
    write_provider_head(config, out);
    proof {
        written@ = lemma_written(start, written@, spec_provider_head(*config));
    }
    write_doc_fragment(items, config, out);
    proof {
        written@ = lemma_written(start, written@, spec_doc_fragment(targets_of(items@), *config));
    }
    write_text_block(config.lua_api_defaults.as_str(), out);
    proof {
        written@ = lemma_written(start, written@, spec_text_block(config.lua_api_defaults@));
    }
    write_registration_routine(items, config, out);
    proof {
        written@ = lemma_written(
            start,
            written@,
            spec_registration_routine(targets_of(items@), *config),
        );
    }
    written = append_piece(out, "}", Ghost(start), written);
    proof {
        reveal(spec_scaffolding);
        assert(written@ =~= spec_scaffolding(targets_of(items@), *config));
    }
}

} // verus!
