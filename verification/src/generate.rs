//! The run: from the type graphs and the configuration to the generated text.

use crate::config::{spec_file_types, Args, Config, Newtype};
use crate::emit::{
    all_wf, spec_scaffolding, spec_text_block, spec_type_blocks, spec_use_items, targets_of,
    write_scaffolding, write_text_block, write_type_blocks, write_use_items,
};
use crate::error::{GenerateError, GenerateErrorView};
use crate::graph::{Item, TypeGraph};
use crate::resolve::{find, spec_find, spec_missing, spec_target, spec_targets};
use crate::text::{append_piece, lemma_written, seq_views};
use crate::wrapper::{spec_target_failure, Target, WrappedItem};
use vstd::prelude::*;
use vstd::string::*;

verus! {

/// The line that opens the generated text.
pub const HEADER: &'static str = "#![allow(clippy::all,unused_imports)]\n";

/// The generated text for a sequence of bound types: the opening line, the imports
/// of the configuration, the imports of the bound types, their descriptions in their
/// order, and what follows them.
#[verifier::opaque]
pub open spec fn spec_output(targets: Seq<Target>, config: Config, print_errors: bool) -> Seq<
    char,
> {
    HEADER@ + spec_text_block(config.imports@) + spec_use_items(targets) + spec_type_blocks(
        targets,
        config,
        print_errors,
    ) + spec_scaffolding(targets, config)
}

/// Why a configured type that is found in the graphs cannot be described.
pub open spec fn spec_type_failure(crates: Seq<TypeGraph>, newtype: Newtype) -> Option<
    GenerateErrorView,
> {
    let (g, id) = spec_find(crates, newtype.type_@, 0)->0;
    spec_target_failure(crates[g].items(), crates[g].paths(), crates[g].items()[id])
}

/// Why the first of the configured types from position `i` on that cannot be
/// described cannot be.
pub open spec fn spec_first_failure(crates: Seq<TypeGraph>, types: Seq<Newtype>, i: int) -> Option<
    GenerateErrorView,
>
    decreases types.len() - i,
{
    if i < 0 || i >= types.len() {
        None
    } else {
        match spec_type_failure(crates, types[i]) {
            Some(e) => Some(e),
            None => spec_first_failure(crates, types, i + 1),
        }
    }
}

/// What a run comes to. Where a configured type is found in no graph, the run
/// fails with the names of all such types. Else it fails where a type cannot be
/// described, with the reason for the first such type. Else it gives the generated
/// text.
pub open spec fn spec_generate(crates: Seq<TypeGraph>, config: Config, print_errors: bool) -> Result<
    Seq<char>,
    GenerateErrorView,
> {
    let types = config.bound_types();
    let missing = spec_missing(crates, types);
    if missing.len() > 0 {
        Err(GenerateErrorView::MissingTypes(missing))
    } else {
        match spec_first_failure(crates, types, 0) {
            Some(e) => Err(e),
            None => Ok(spec_output(spec_targets(crates, types), config, print_errors)),
        }
    }
}

/// The view of the outcome of a run.
pub open spec fn outcome_view(r: Result<String, GenerateError>) -> Result<
    Seq<char>,
    GenerateErrorView,
> {
    match r {
        Ok(text) => Ok(text@),
        Err(e) => Err(e@),
    }
}

/// Whether a graph and an item are where a configured type is found first.
pub open spec fn found_at(
    crates: Seq<TypeGraph>,
    newtype: Newtype,
    graph: TypeGraph,
    item: Item,
) -> bool {
    match spec_find(crates, newtype.type_@, 0) {
        Some((g, id)) => 0 <= g < crates.len() && graph == crates[g] && item
            == crates[g].items()[id],
        None => false,
    }
}

/// Finds every configured type in the graphs. Gives the graph, the item and the
/// configuration of each in configuration order, or the names of the types that no
/// graph holds.
pub fn find_types<'a>(crates: &'a Vec<TypeGraph>, config: &'a Config) -> (r: Result<
    Vec<(&'a TypeGraph, &'a Item, &'a Newtype)>,
    Vec<String>,
>)
    ensures
        match r {
            Ok(found) => {
                &&& spec_missing(crates@, config.bound_types()).len() == 0
                &&& found@.len() == config.bound_types().len()
                &&& forall|k: int|
                    0 <= k < found@.len() ==> *(#[trigger] found@[k]).2 == config.bound_types()[k]
                        && found_at(crates@, *found@[k].2, *found@[k].0, *found@[k].1)
            },
            Err(missing) => missing@.len() > 0 && seq_views(missing@) == spec_missing(
                crates@,
                config.bound_types(),
            ),
        },
{
    let n = config.types.len();
    let ghost types = config.bound_types();
    let mut found: Vec<(&'a TypeGraph, &'a Item, &'a Newtype)> = Vec::new();
    let mut missing: Vec<String> = Vec::new();
    let mut k: usize = 0;
    proof {
        assert(seq_views(missing@) =~= Seq::<Seq<char>>::empty());
    }
    while k < n
        invariant
            k <= n,
            n == types.len(),
            types == config.bound_types(),
            n == config.types.spec_len(),
            seq_views(missing@) == spec_missing(crates@, types.take(k as int)),
            missing@.len() == 0 ==> found@.len() == k,
            missing@.len() == 0 ==> forall|j: int|
                0 <= j < k ==> *(#[trigger] found@[j]).2 == types[j] && found_at(
                    crates@,
                    *found@[j].2,
                    *found@[j].0,
                    *found@[j].1,
                ),
        decreases n - k,
    {
        let newtype = config.types.value_at(k);
        proof {
            assert(types.take(k + 1).drop_last() =~= types.take(k as int));
            assert(types.take(k + 1).last() == *newtype);
        }
        match find(crates, newtype) {
            Some((graph, item)) => {
                found.push((graph, item, newtype));
            },
            None => {
                let name = newtype.type_.clone();
                proof {
                    assert(seq_views(missing@.push(name)) =~= seq_views(missing@).push(name@));
                }
                missing.push(name);
            },
        }
        k = k + 1;
    }
    proof {
        assert(types.take(n as int) =~= types);
    }
    if missing.len() > 0 {
        Err(missing)
    } else {
        Ok(found)
    }
}

/// Collects for every configured type what its graph holds for it. The first type
/// that cannot be described ends the run.
pub fn collect_types<'a>(
    crates: &'a Vec<TypeGraph>,
    config: &'a Config,
    found: &Vec<(&'a TypeGraph, &'a Item, &'a Newtype)>,
) -> (r: Result<Vec<WrappedItem<'a>>, GenerateError>)
    requires
        found@.len() == config.bound_types().len(),
        forall|k: int|
            0 <= k < found@.len() ==> *(#[trigger] found@[k]).2 == config.bound_types()[k]
                && found_at(crates@, *found@[k].2, *found@[k].0, *found@[k].1),
    ensures
        match r {
            Ok(items) => {
                &&& spec_first_failure(crates@, config.bound_types(), 0) is None
                &&& all_wf(items@)
                &&& targets_of(items@) == spec_targets(crates@, config.bound_types())
            },
            Err(e) => spec_first_failure(crates@, config.bound_types(), 0) == Some(e@),
        },
{
    let ghost types = config.bound_types();
    let mut items: Vec<WrappedItem<'a>> = Vec::new();
    let mut k: usize = 0;
    while k < found.len()
        invariant
            k <= found@.len(),
            types == config.bound_types(),
            found@.len() == types.len(),
            forall|j: int|
                0 <= j < found@.len() ==> *(#[trigger] found@[j]).2 == types[j] && found_at(
                    crates@,
                    *found@[j].2,
                    *found@[j].0,
                    *found@[j].1,
                ),
            spec_first_failure(crates@, types, 0) == spec_first_failure(crates@, types, k as int),
            items@.len() == k,
            all_wf(items@),
            forall|j: int| 0 <= j < k ==> (#[trigger] items@[j]).target() == spec_target(crates@, types[j]),
        decreases found@.len() - k,
    {
        let (graph, item, newtype) = found[k];
        proof {
            assert(*found@[k as int].2 == types[k as int]);
            assert(found_at(crates@, *newtype, *graph, *item));
        }
        match WrappedItem::new(item, graph, newtype) {
            Ok(w) => {
                proof {
                    assert(w.target() == spec_target(crates@, types[k as int]));
                }
                let ghost before = items@;
                items.push(w);
                proof {
                    assert forall|j: int| 0 <= j < items@.len() implies (#[trigger] items@[j]).wf() by {
                        if j < k {
                            assert(items@[j] == before[j]);
                        }
                    }
                    assert forall|j: int| 0 <= j < k + 1 implies (#[trigger] items@[j]).target()
                        == spec_target(crates@, types[j]) by {
                        if j < k {
                            assert(items@[j] == before[j]);
                        }
                    }
                }
            },
            Err(e) => {
                return Err(e);
            },
        }
        k = k + 1;
    }
    proof {
        assert(targets_of(items@) =~= spec_targets(crates@, types));
    }
    Ok(items)
}

/// Generates the text that describes the configured types. The run fails where a
/// configured type is found in no graph, with the names of all such types, and
/// where a type cannot be described.
pub fn generate_macros<'a>(crates: &'a Vec<TypeGraph>, config: &'a Config, args: &Args) -> (r:
    Result<String, GenerateError>)
    ensures
        outcome_view(r) == spec_generate(crates@, *config, args.print_errors),
{
    let found = match find_types(crates, config) {
        Ok(found) => found,
        Err(missing) => {
            return Err(GenerateError::MissingTypes(missing));
        },
    };
    let mut items = match collect_types(crates, config, &found) {
        Ok(items) => items,
        Err(e) => {
            return Err(e);
        },
    };
    let ghost targets = targets_of(items@);
    let mut out = String::new();
    let ghost start = out@;
    let mut written: Ghost<Seq<char>> = Ghost(Seq::empty());
    proof {
        assert(start + written@ =~= start);
    }
    written = append_piece(&mut out, HEADER, Ghost(start), written);
    write_text_block(config.imports.as_str(), &mut out);
    proof {
        written@ = lemma_written(start, written@, spec_text_block(config.imports@));
    }
    write_use_items(&items, &mut out);
    proof {
        written@ = lemma_written(start, written@, spec_use_items(targets));
    }
    write_type_blocks(&mut items, config, args, &mut out);
    proof {
        written@ = lemma_written(
            start,
            written@,
            spec_type_blocks(targets, *config, args.print_errors),
        );
    }
    write_scaffolding(&items, config, &mut out);
    proof {
        written@ = lemma_written(start, written@, spec_scaffolding(targets, *config));
        reveal(spec_output);
        assert(written@ =~= spec_output(targets, *config, args.print_errors));
        assert(out@ =~= written@);
    }
    Ok(out)
}

/// The configuration after the types that it lists were filed under their names.
pub open spec fn spec_indexed(config: Config, indexed: Config) -> bool {
    &&& (indexed.types.keys(), indexed.types.values()) == spec_file_types(
        config.types.keys(),
        config.types.values(),
        config.types_@,
    )
    &&& indexed.types_@ == Seq::<Newtype>::empty()
    &&& indexed.api_name == config.api_name
    &&& indexed.required_features == config.required_features
    &&& indexed.imports == config.imports
    &&& indexed.other == config.other
    &&& indexed.lua_api_defaults == config.lua_api_defaults
    &&& indexed.primitives == config.primitives
    &&& indexed.manual_lua_types == config.manual_lua_types
}

/// Files the types that the configuration lists under their names, then generates
/// the text that describes them.
pub fn generate_api_for_crates(crates: &Vec<TypeGraph>, config: Config, args: &Args) -> (r: Result<
    String,
    GenerateError,
>)
    requires
        config.types.wf(),
    ensures
        exists|indexed: Config|
            spec_indexed(config, indexed) && outcome_view(r) == spec_generate(
                crates@,
                indexed,
                args.print_errors,
            ),
{
    let mut indexed = config;
    let ghost given = indexed;
    indexed.index_types();
    let r = generate_macros(crates, &indexed, args);
    proof {
        assert(spec_indexed(given, indexed));
    }
    r
}

} // verus!
