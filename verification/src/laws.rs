//! What holds of every run, proved from the definitions of the generated text.

use crate::arg_validator::{spec_classify, spec_with_config, ArgWrapperType};
use crate::config::{Config, Newtype};
use crate::emit::{
    spec_all_traits, spec_doc_fragment, spec_feature_gate, spec_globals, spec_instance,
    spec_manual_instances, spec_provider_head, spec_registration_routine, spec_scaffolding,
    spec_text_block, spec_trait_imports, spec_type_block, spec_type_blocks, spec_type_instance,
    spec_type_instances, spec_use_items, ADD_INSTANCES_HEAD, ADD_INSTANCES_TAIL, EXPORT_HEAD,
    GLOBALS_HEAD,
};
use crate::error::GenerateErrorView;
use crate::fields::{
    reflected_value, spec_field_entry, spec_field_item_entry, spec_field_name_text,
    spec_field_type_text, spec_fields_text, spec_is_ignored,
};
use crate::generate::{
    spec_first_failure, spec_generate, spec_output, spec_type_failure, HEADER,
};
use crate::graph::{item_docs, item_name, Item, Param, TypeExpr, TypeGraph};
use crate::methods::{
    method_inputs, method_output, spec_excluded_text, spec_has_global_methods, spec_has_receiver,
    spec_is_candidate, spec_is_included, spec_method_entry, spec_method_reasons, spec_method_text,
    spec_params, spec_return_reasons, spec_returns_ref, spec_used_names,
};
use crate::resolve::{
    spec_find, spec_find_in_graph, spec_matches_id, spec_missing, spec_target, spec_targets,
};
use crate::text::{closed_lines, line_start, spec_join, spec_lines, spec_prefixed, strip_cr};
use crate::wrapper::{MemberSpec, Target};
use vstd::prelude::*;

verus! {

/// Whether a configured type is found in no graph.
pub open spec fn is_missing(crates: Seq<TypeGraph>, newtype: Newtype) -> bool {
    spec_find(crates, newtype.type_@, 0) is None
}

/// The names of the missing types are the names of the configured types that no
/// graph holds.
pub proof fn lemma_missing_names(crates: Seq<TypeGraph>, types: Seq<Newtype>, name: Seq<char>)
    ensures
        spec_missing(crates, types).contains(name) <==> exists|k: int|
            0 <= k < types.len() && is_missing(crates, #[trigger] types[k]) && types[k].type_@
                == name,
    decreases types.len(),
{
    if types.len() > 0 {
        let rest = types.drop_last();
        let last = types.last();
        lemma_missing_names(crates, rest, name);
        let before = spec_missing(crates, rest);
        let all = spec_missing(crates, types);
        if all.contains(name) {
            let p = choose|p: int| 0 <= p < all.len() && all[p] == name;
            if p < before.len() {
                assert(before[p] == name);
                assert(before.contains(name));
                let k = choose|k: int|
                    0 <= k < rest.len() && is_missing(crates, #[trigger] rest[k]) && rest[k].type_@
                        == name;
                assert(types[k] == rest[k]);
            } else {
                assert(is_missing(crates, types[types.len() - 1]));
            }
        }
        if exists|k: int|
            0 <= k < types.len() && is_missing(crates, #[trigger] types[k]) && types[k].type_@
                == name {
            let k = choose|k: int|
                0 <= k < types.len() && is_missing(crates, #[trigger] types[k]) && types[k].type_@
                    == name;
            if k < rest.len() {
                assert(rest[k] == types[k]);
                assert(before.contains(name));
                let p = choose|p: int| 0 <= p < before.len() && before[p] == name;
                assert(all[p] == name);
            } else {
                assert(all[all.len() - 1] == name);
            }
        }
    }
}

/// What stands against the description of a type is never that types are missing.
pub proof fn lemma_first_failure_kind(crates: Seq<TypeGraph>, types: Seq<Newtype>, i: int)
    ensures
        !(spec_first_failure(crates, types, i) matches Some(GenerateErrorView::MissingTypes(_))),
    decreases types.len() - i,
{
    if 0 <= i < types.len() {
        lemma_first_failure_kind(crates, types, i + 1);
    }
}

/// A run fails for missing types exactly where a configured type is found in no
/// graph, whatever else is wrong, and the failure names every such type and no
/// other. No text is generated then.
pub proof fn law_missing_types_fail_together(
    crates: Seq<TypeGraph>,
    config: Config,
    print_errors: bool,
)
    ensures
        (exists|k: int|
            0 <= k < config.bound_types().len() && is_missing(
                crates,
                #[trigger] config.bound_types()[k],
            )) <==> spec_generate(crates, config, print_errors) matches Err(
            GenerateErrorView::MissingTypes(_),
        ),
        spec_generate(crates, config, print_errors) matches Err(
            GenerateErrorView::MissingTypes(names),
        ) ==> forall|name: Seq<char>|
            names.contains(name) <==> exists|k: int|
                0 <= k < config.bound_types().len() && is_missing(
                    crates,
                    #[trigger] config.bound_types()[k],
                ) && config.bound_types()[k].type_@ == name,
{
    let types = config.bound_types();
    let missing = spec_missing(crates, types);
    assert forall|name: Seq<char>|
        missing.contains(name) <==> exists|k: int|
            0 <= k < types.len() && is_missing(crates, #[trigger] types[k]) && types[k].type_@
                == name by {
        lemma_missing_names(crates, types, name);
    }
    lemma_first_failure_kind(crates, types, 0);
    if missing.len() > 0 {
        assert(missing.contains(missing[0]));
    }
    if exists|k: int| 0 <= k < types.len() && is_missing(crates, #[trigger] types[k]) {
        let k = choose|k: int| 0 <= k < types.len() && is_missing(crates, #[trigger] types[k]);
        assert(missing.contains(types[k].type_@));
    }
}

/// Whether a line begins at a position of a text.
pub open spec fn starts_line(t: Seq<char>, i: int) -> bool {
    i == 0 || t[i - 1] == '\n'
}

/// Whether a text holds nothing but comments: every line of it is empty or begins
/// with `//`.
pub open spec fn comment_only(t: Seq<char>) -> bool {
    forall|i: int|
        0 <= i < t.len() && #[trigger] starts_line(t, i) ==> t[i] == '\n' || (i + 1 < t.len()
            && t[i] == '/' && t[i + 1] == '/')
}

/// Whether a text holds no line feed.
pub open spec fn no_line_feed(l: Seq<char>) -> bool {
    forall|j: int| 0 <= j < l.len() ==> l[j] != '\n'
}

/// No line feed stands between the start of the open line and the position that
/// it is open at.
pub proof fn lemma_open_line(s: Seq<char>, n: int)
    requires
        0 <= n <= s.len(),
    ensures
        0 <= line_start(s, n) <= n,
        forall|j: int| line_start(s, n) <= j < n ==> s[j] != '\n',
    decreases n,
{
    if n > 0 && s[n - 1] != '\n' {
        lemma_open_line(s, n - 1);
    }
}

/// No closed line holds a line feed.
pub proof fn lemma_closed_lines(s: Seq<char>, n: int)
    requires
        0 <= n <= s.len(),
    ensures
        forall|k: int|
            0 <= k < closed_lines(s, n).len() ==> no_line_feed(#[trigger] closed_lines(s, n)[k]),
    decreases n,
{
    if n > 0 {
        lemma_closed_lines(s, n - 1);
        let before = closed_lines(s, n - 1);
        if s[n - 1] == '\n' {
            lemma_open_line(s, n - 1);
            let raw = s.subrange(line_start(s, n - 1), n - 1);
            assert(no_line_feed(raw));
            assert(no_line_feed(strip_cr(raw)));
            assert forall|k: int| 0 <= k < closed_lines(s, n).len() implies no_line_feed(
                #[trigger] closed_lines(s, n)[k],
            ) by {
                if k < before.len() {
                    assert(closed_lines(s, n)[k] == before[k]);
                } else {
                    assert(closed_lines(s, n)[k] == strip_cr(raw));
                }
            }
        } else {
            assert(closed_lines(s, n) == before);
        }
    }
}

/// No line of a text holds a line feed.
pub proof fn lemma_lines_hold_no_line_feed(s: Seq<char>)
    ensures
        forall|k: int| 0 <= k < spec_lines(s).len() ==> no_line_feed(#[trigger] spec_lines(s)[k]),
{
    let n = s.len() as int;
    lemma_closed_lines(s, n);
    lemma_open_line(s, n);
    if line_start(s, n) < n {
        assert(no_line_feed(s.subrange(line_start(s, n), n)));
    }
}

/// Lines written behind `// ` make a text that holds nothing but comments and
/// ends with a line feed.
pub proof fn lemma_commented_lines(lines: Seq<Seq<char>>)
    requires
        forall|k: int| 0 <= k < lines.len() ==> no_line_feed(#[trigger] lines[k]),
    ensures
        comment_only(spec_prefixed("// "@, lines)),
        spec_prefixed("// "@, lines).len() == 0 || spec_prefixed("// "@, lines).last() == '\n',
    decreases lines.len(),
{
    reveal_strlit("// ");
    if lines.len() > 0 {
        let rest = lines.drop_last();
        let l = lines.last();
        assert forall|k: int| 0 <= k < rest.len() implies no_line_feed(#[trigger] rest[k]) by {
            assert(rest[k] == lines[k]);
        }
        lemma_commented_lines(rest);
        let before = spec_prefixed("// "@, rest);
        let t = spec_prefixed("// "@, lines);
        assert(t == before + "// "@ + l + seq!['\n']);
        assert(no_line_feed(l));
        assert forall|i: int| 0 <= i < t.len() && #[trigger] starts_line(t, i) implies t[i] == '\n'
            || (i + 1 < t.len() && t[i] == '/' && t[i + 1] == '/') by {
            if i < before.len() {
                assert(starts_line(before, i));
                assert(t[i] == before[i]);
                if before[i] != '\n' {
                    assert(t[i + 1] == before[i + 1]);
                }
            } else if i == before.len() {
                assert(t[i] == "// "@[0]);
                assert(t[i + 1] == "// "@[1]);
            } else {
                let j = i - 1 - before.len();
                if j < 3 {
                    assert(t[i - 1] == "// "@[j]);
                } else {
                    assert(t[i - 1] == l[j - 3]);
                }
            }
        }
    }
}

/// A text that holds nothing but comments and ends with a line feed still holds
/// nothing but comments when an empty line follows.
pub proof fn lemma_comment_then_empty_line(t: Seq<char>)
    requires
        comment_only(t),
        t.len() == 0 || t.last() == '\n',
    ensures
        comment_only(t + "\n"@),
{
    reveal_strlit("\n");
    let u = t + "\n"@;
    assert forall|i: int| 0 <= i < u.len() && #[trigger] starts_line(u, i) implies u[i] == '\n'
        || (i + 1 < u.len() && u[i] == '/' && u[i + 1] == '/') by {
        if i < t.len() {
            assert(starts_line(t, i));
            assert(u[i] == t[i]);
            if t[i] != '\n' {
                assert(u[i + 1] == t[i + 1]);
            }
        }
    }
}

/// Whether a parameter cannot be bound: its type cannot be classified, or has no
/// wrapper.
pub open spec fn spec_param_unsupported(p: Param, config: Config) -> bool {
    match spec_classify(p.type_, config) {
        Ok(a) => spec_with_config(a, config) is None,
        Err(_) => true,
    }
}

/// A parameter that cannot be bound leaves a reason against the method.
pub proof fn lemma_unsupported_param_leaves_reason(
    inputs: Seq<Param>,
    n: int,
    i: int,
    config: Config,
)
    requires
        0 <= i < n <= inputs.len(),
        spec_param_unsupported(inputs[i], config),
    ensures
        spec_params(inputs, n, config).reasons.len() > 0,
    decreases n,
{
    if i < n - 1 {
        lemma_unsupported_param_leaves_reason(inputs, n - 1, i, config);
    }
}

/// A method with a parameter that cannot be bound is not written out as a method.
/// Without comments it leaves nothing in the methods of its type; with comments it
/// leaves nothing but comments, unless it returns a reference and so leaves nothing
/// at all.
pub proof fn law_unsupported_parameter_excludes(
    m: MemberSpec,
    newtype: Newtype,
    config: Config,
    i: int,
)
    requires
        spec_is_candidate(m, newtype),
        0 <= i < method_inputs(m.item).len(),
        spec_param_unsupported(method_inputs(m.item)[i], config),
    ensures
        !spec_is_included(m, newtype, config),
        spec_method_entry(m, newtype, config, false) == Seq::<char>::empty(),
        comment_only(spec_method_entry(m, newtype, config, true)),
        !spec_returns_ref(method_output(m.item), config) ==> spec_method_entry(
            m,
            newtype,
            config,
            true,
        ) == spec_excluded_text(m.item, config),
{
    let inputs = method_inputs(m.item);
    lemma_unsupported_param_leaves_reason(inputs, inputs.len() as int, i, config);
    if !spec_returns_ref(method_output(m.item), config) {
        lemma_excluded_text_is_comment(m.item, config);
    }
}

/// What is written for an excluded method holds nothing but comments.
pub proof fn lemma_excluded_text_is_comment(item: Item, config: Config)
    ensures
        comment_only(spec_excluded_text(item, config)),
{
    let text = "Exclusion reason: "@ + spec_join(spec_method_reasons(item, config), ","@) + "\n"@
        + spec_method_text(item, config);
    lemma_lines_hold_no_line_feed(text);
    lemma_commented_lines(spec_lines(text));
    lemma_comment_then_empty_line(spec_prefixed("// "@, spec_lines(text)));
}

/// Whether a type expression is a reference.
pub open spec fn is_reference(output: Option<TypeExpr>) -> bool {
    output matches Some(TypeExpr::Reference { .. })
}

/// A method that returns a reference is never written out as a method, whatever it
/// refers to. Where the reference can be classified, the method leaves nothing in
/// the methods of its type, with comments or without.
pub proof fn law_reference_return_excludes(
    m: MemberSpec,
    newtype: Newtype,
    config: Config,
    print_errors: bool,
)
    requires
        is_reference(method_output(m.item)),
    ensures
        !spec_is_included(m, newtype, config),
        spec_classify(method_output(m.item)->0, config) is Ok ==> spec_method_entry(
            m,
            newtype,
            config,
            print_errors,
        ) == Seq::<char>::empty(),
{
    let t = method_output(m.item)->0;
    match spec_classify(t, config) {
        Ok(a) => {
            assert(a is Ref);
        },
        Err(e) => {
            assert(spec_return_reasons(method_output(m.item), config).len() > 0);
        },
    }
}

/// Whether the type of a field cannot be bound: it cannot be classified, or is
/// passed neither raw nor wrapped.
pub open spec fn spec_field_unsupported(type_: TypeExpr, config: Config) -> bool {
    match spec_classify(type_, config) {
        Ok(a) => match spec_with_config(a, config) {
            Some(ArgWrapperType::Raw) => false,
            Some(ArgWrapperType::Wrapped) => false,
            _ => true,
        },
        Err(_) => true,
    }
}

/// The fields of two runs of ids, one behind the other, are the fields of the
/// first followed by the fields of the second.
pub proof fn lemma_fields_concat(
    items: Map<u64, Item>,
    a: Seq<u64>,
    b: Seq<u64>,
    used: Seq<Seq<char>>,
    config: Config,
)
    ensures
        spec_fields_text(items, a + b, used, config) == spec_fields_text(items, a, used, config)
            + spec_fields_text(items, b, used, config),
    decreases b.len(),
{
    if b.len() == 0 {
        assert(a + b =~= a);
        assert(spec_fields_text(items, a, used, config) + Seq::<char>::empty()
            =~= spec_fields_text(items, a, used, config));
    } else {
        assert((a + b).drop_last() =~= a + b.drop_last());
        lemma_fields_concat(items, a, b.drop_last(), used, config);
        crate::text::lemma_concat_assoc(
            spec_fields_text(items, a, used, config),
            spec_fields_text(items, b.drop_last(), used, config),
            spec_field_item_entry(items, b.last(), used, config),
        );
    }
}

/// A visible field whose type cannot be bound, and which is not kept out of
/// reflection, is written out all the same, as a reflected value: what it adds
/// stands among the fields of its type, between what the fields before it and the
/// fields after it add.
pub proof fn law_unsupported_field_is_reflected(
    items: Map<u64, Item>,
    ids: Seq<u64>,
    k: int,
    used: Seq<Seq<char>>,
    config: Config,
)
    requires
        0 <= k < ids.len(),
        items.contains_key(ids[k]),
        items[ids[k]].kind is Field,
        !spec_is_ignored(items[ids[k]]),
        spec_field_unsupported(items[ids[k]].kind->Field_type_, config),
    ensures
        spec_fields_text(items, ids, used, config) == spec_fields_text(
            items,
            ids.take(k),
            used,
            config,
        ) + (spec_prefixed("/// "@, spec_lines(item_docs(items[ids[k]]))) + spec_field_name_text(
            item_name(items[ids[k]]),
            used,
        ) + ": "@ + reflected_value() + ",\n"@) + spec_fields_text(
            items,
            ids.skip(k + 1),
            used,
            config,
        ),
{
    let one = seq![ids[k]];
    assert(ids =~= ids.take(k) + one + ids.skip(k + 1));
    lemma_fields_concat(items, ids.take(k) + one, ids.skip(k + 1), used, config);
    lemma_fields_concat(items, ids.take(k), one, used, config);
    assert(one.drop_last() =~= Seq::<u64>::empty());
    assert(spec_fields_text(items, Seq::<u64>::empty(), used, config) == Seq::<char>::empty());
    assert(spec_fields_text(items, one, used, config) =~= spec_field_item_entry(
        items,
        ids[k],
        used,
        config,
    ));
}

/// The names of the methods written out are the names of the members that are
/// written out as methods.
pub proof fn lemma_used_names(
    members: Seq<MemberSpec>,
    newtype: Newtype,
    config: Config,
    name: Seq<char>,
)
    ensures
        spec_used_names(members, newtype, config).contains(name) <==> exists|k: int|
            0 <= k < members.len() && spec_is_included(#[trigger] members[k], newtype, config)
                && item_name(members[k].item) == name,
    decreases members.len(),
{
    if members.len() > 0 {
        let rest = members.drop_last();
        lemma_used_names(rest, newtype, config, name);
        let before = spec_used_names(rest, newtype, config);
        let all = spec_used_names(members, newtype, config);
        if all.contains(name) {
            let p = choose|p: int| 0 <= p < all.len() && all[p] == name;
            if p < before.len() {
                assert(before[p] == name);
                assert(before.contains(name));
                let k = choose|k: int|
                    0 <= k < rest.len() && spec_is_included(#[trigger] rest[k], newtype, config)
                        && item_name(rest[k].item) == name;
                assert(members[k] == rest[k]);
            } else {
                assert(spec_is_included(members[members.len() - 1], newtype, config));
            }
        }
        if exists|k: int|
            0 <= k < members.len() && spec_is_included(#[trigger] members[k], newtype, config)
                && item_name(members[k].item) == name {
            let k = choose|k: int|
                0 <= k < members.len() && spec_is_included(#[trigger] members[k], newtype, config)
                    && item_name(members[k].item) == name;
            if k < rest.len() {
                assert(rest[k] == members[k]);
                assert(before.contains(name));
                let p = choose|p: int| 0 <= p < before.len() && before[p] == name;
                assert(all[p] == name);
            } else {
                if before.contains(name) {
                    let p = choose|p: int| 0 <= p < before.len() && before[p] == name;
                    assert(all[p] == name);
                } else {
                    assert(all[all.len() - 1] == name);
                }
            }
        }
    }
}

/// A field that shares its name with a method written out for its type is written
/// under that name behind an underscore, with an annotation that names the field
/// itself. The method is written under the plain name.
pub proof fn law_field_sharing_method_name_is_renamed(
    members: Seq<MemberSpec>,
    newtype: Newtype,
    config: Config,
    k: int,
    field: Item,
    type_: TypeExpr,
    print_errors: bool,
)
    requires
        0 <= k < members.len(),
        spec_is_included(members[k], newtype, config),
        item_name(members[k].item) == item_name(field),
    ensures
        spec_field_entry(field, type_, spec_used_names(members, newtype, config), config)
            == spec_prefixed("/// "@, spec_lines(item_docs(field))) + ("#[rename(\""@ + item_name(
            field,
        ) + "\")]\n"@ + "_"@ + item_name(field)) + ": "@ + spec_field_type_text(type_, config)
            + ",\n"@,
        spec_method_entry(members[k], newtype, config, print_errors) == spec_method_text(
            members[k].item,
            config,
        ) + ",\n"@,
{
    lemma_used_names(members, newtype, config, item_name(field));
}

/// A type is noted as having methods without a receiver exactly where one of its
/// members is written out as a method and takes no receiver.
pub proof fn law_global_methods_flag(members: Seq<MemberSpec>, newtype: Newtype, config: Config)
    ensures
        spec_has_global_methods(members, newtype, config) <==> exists|k: int|
            0 <= k < members.len() && spec_is_included(#[trigger] members[k], newtype, config)
                && !spec_has_receiver(members[k].item, config),
    decreases members.len(),
{
    if members.len() > 0 {
        let rest = members.drop_last();
        law_global_methods_flag(rest, newtype, config);
        if spec_has_global_methods(members, newtype, config) {
            if spec_has_global_methods(rest, newtype, config) {
                let k = choose|k: int|
                    0 <= k < rest.len() && spec_is_included(#[trigger] rest[k], newtype, config)
                        && !spec_has_receiver(rest[k].item, config);
                assert(members[k] == rest[k]);
            } else {
                assert(spec_is_included(members[members.len() - 1], newtype, config));
            }
        }
        if exists|k: int|
            0 <= k < members.len() && spec_is_included(#[trigger] members[k], newtype, config)
                && !spec_has_receiver(members[k].item, config) {
            let k = choose|k: int|
                0 <= k < members.len() && spec_is_included(#[trigger] members[k], newtype, config)
                    && !spec_has_receiver(members[k].item, config);
            if k < rest.len() {
                assert(rest[k] == members[k]);
            }
        }
    }
}

/// A piece between two texts.
pub open spec fn framed(before: Seq<char>, piece: Seq<char>, after: Seq<char>) -> Seq<char> {
    before + piece + after
}

/// Whether a piece stands in a text: the text is the piece between two texts.
pub open spec fn stands_in(piece: Seq<char>, text: Seq<char>) -> bool {
    exists|before: Seq<char>, after: Seq<char>| text == #[trigger] framed(before, piece, after)
}

/// What stands in a piece of a text stands in the text.
pub proof fn lemma_stands_in_piece(inner: Seq<char>, piece: Seq<char>, text: Seq<char>)
    requires
        stands_in(inner, piece),
        stands_in(piece, text),
    ensures
        stands_in(inner, text),
{
    let (a, b) = choose|a: Seq<char>, b: Seq<char>| piece == #[trigger] framed(a, inner, b);
    let (c, d) = choose|c: Seq<char>, d: Seq<char>| text == #[trigger] framed(c, piece, d);
    assert(text =~= framed(c + a, inner, b + d));
}

/// The global instances of the bound types stand in what follows the descriptions.
pub proof fn lemma_instances_stand_in_scaffolding(targets: Seq<Target>, config: Config)
    ensures
        stands_in(spec_type_instances(targets, config), spec_scaffolding(targets, config)),
{
    reveal(spec_globals);
    reveal(spec_scaffolding);
    let gate = spec_feature_gate(config.required_features@);
    let head = gate + GLOBALS_HEAD@ + config.api_name@ + "Globals;\n"@ + gate + EXPORT_HEAD@
        + config.api_name@ + ADD_INSTANCES_HEAD@;
    let tail = spec_manual_instances(config.manual_lua_types@) + ADD_INSTANCES_TAIL@;
    assert(spec_globals(targets, config) =~= framed(
        head,
        spec_type_instances(targets, config),
        tail,
    ));
    let before = spec_trait_imports(spec_all_traits(targets)) + spec_text_block(config.other@);
    let after = spec_provider_head(config) + spec_doc_fragment(targets, config) + spec_text_block(
        config.lua_api_defaults@,
    ) + spec_registration_routine(targets, config) + "}"@;
    assert(spec_scaffolding(targets, config) =~= framed(
        before,
        spec_globals(targets, config),
        after,
    ));
    lemma_stands_in_piece(
        spec_type_instances(targets, config),
        spec_globals(targets, config),
        spec_scaffolding(targets, config),
    );
}

/// The descriptions of the bound types and what follows them stand in the
/// generated text.
pub proof fn lemma_parts_stand_in_output(targets: Seq<Target>, config: Config, print_errors: bool)
    ensures
        stands_in(
            spec_type_blocks(targets, config, print_errors),
            spec_output(targets, config, print_errors),
        ),
        stands_in(spec_scaffolding(targets, config), spec_output(targets, config, print_errors)),
{
    reveal(spec_output);
    let head = HEADER@ + spec_text_block(config.imports@) + spec_use_items(targets);
    let blocks = spec_type_blocks(targets, config, print_errors);
    assert(spec_output(targets, config, print_errors) =~= framed(
        head,
        blocks,
        spec_scaffolding(targets, config),
    ));
    assert(spec_output(targets, config, print_errors) =~= framed(
        head + blocks,
        spec_scaffolding(targets, config),
        Seq::empty(),
    ));
}

/// The global instances of two runs of types, one behind the other, are those of
/// the first followed by those of the second.
pub proof fn lemma_type_instances_concat(a: Seq<Target>, b: Seq<Target>, config: Config)
    ensures
        spec_type_instances(a + b, config) == spec_type_instances(a, config)
            + spec_type_instances(b, config),
    decreases b.len(),
{
    if b.len() == 0 {
        assert(a + b =~= a);
        assert(spec_type_instances(a, config) + Seq::<char>::empty() =~= spec_type_instances(
            a,
            config,
        ));
    } else {
        assert((a + b).drop_last() =~= a + b.drop_last());
        lemma_type_instances_concat(a, b.drop_last(), config);
        crate::text::lemma_concat_assoc(
            spec_type_instances(a, config),
            spec_type_instances(b.drop_last(), config),
            spec_type_instance(b.last(), config),
        );
    }
}

/// A bound type for which a method without a receiver is written out has its
/// global instance registered, between those of the types before it and those of the
/// types after it. A type without such a method adds nothing there. The global
/// instances stand in what follows the descriptions of the types, which stands in
/// the generated text.
pub proof fn law_global_instance_is_registered(
    targets: Seq<Target>,
    config: Config,
    print_errors: bool,
    k: int,
)
    requires
        0 <= k < targets.len(),
    ensures
        spec_type_instances(targets, config) == spec_type_instances(targets.take(k), config) + (
        if targets[k].has_global_methods(config) {
            spec_instance(targets[k].newtype.type_@, targets[k].wrapper_name(), false)
        } else {
            Seq::<char>::empty()
        }) + spec_type_instances(targets.skip(k + 1), config),
        stands_in(spec_type_instances(targets, config), spec_scaffolding(targets, config)),
        stands_in(
            spec_type_instances(targets, config),
            spec_output(targets, config, print_errors),
        ),
{
    lemma_instances_stand_in_scaffolding(targets, config);
    lemma_parts_stand_in_output(targets, config, print_errors);
    lemma_stands_in_piece(
        spec_type_instances(targets, config),
        spec_scaffolding(targets, config),
        spec_output(targets, config, print_errors),
    );
    let one = seq![targets[k]];
    assert(targets =~= targets.take(k) + one + targets.skip(k + 1));
    lemma_type_instances_concat(targets.take(k) + one, targets.skip(k + 1), config);
    lemma_type_instances_concat(targets.take(k), one, config);
    assert(one.drop_last() =~= Seq::<Target>::empty());
    assert(spec_type_instances(Seq::<Target>::empty(), config) == Seq::<char>::empty());
    assert(spec_type_instances(one, config) =~= spec_type_instance(targets[k], config));
}

/// The descriptions of two runs of types, one behind the other, are those of the
/// first followed by those of the second.
pub proof fn lemma_type_blocks_concat(
    a: Seq<Target>,
    b: Seq<Target>,
    config: Config,
    print_errors: bool,
)
    ensures
        spec_type_blocks(a + b, config, print_errors) == spec_type_blocks(a, config, print_errors)
            + spec_type_blocks(b, config, print_errors),
    decreases b.len(),
{
    if b.len() == 0 {
        assert(a + b =~= a);
        assert(spec_type_blocks(a, config, print_errors) + Seq::<char>::empty()
            =~= spec_type_blocks(a, config, print_errors));
    } else {
        assert((a + b).drop_last() =~= a + b.drop_last());
        lemma_type_blocks_concat(a, b.drop_last(), config, print_errors);
        crate::text::lemma_concat_assoc(
            spec_type_blocks(a, config, print_errors),
            spec_type_blocks(b.drop_last(), config, print_errors),
            spec_type_block(b.last(), config, print_errors),
        );
    }
}

/// The descriptions of the bound types stand in the order of the configuration:
/// where a run gives a text, the descriptions stand in it, and the description of
/// each configured type stands behind those of the types configured before it and
/// before those of the types configured after it.
pub proof fn law_blocks_follow_configuration(
    crates: Seq<TypeGraph>,
    config: Config,
    print_errors: bool,
    k: int,
)
    requires
        spec_generate(crates, config, print_errors) is Ok,
        0 <= k < config.bound_types().len(),
    ensures
        spec_generate(crates, config, print_errors) == Ok::<Seq<char>, GenerateErrorView>(
            spec_output(spec_targets(crates, config.bound_types()), config, print_errors),
        ),
        spec_targets(crates, config.bound_types()).len() == config.bound_types().len(),
        spec_targets(crates, config.bound_types())[k].newtype == config.bound_types()[k],
        spec_type_blocks(spec_targets(crates, config.bound_types()), config, print_errors)
            == spec_type_blocks(
            spec_targets(crates, config.bound_types()).take(k),
            config,
            print_errors,
        ) + spec_type_block(
            spec_target(crates, config.bound_types()[k]),
            config,
            print_errors,
        ) + spec_type_blocks(
            spec_targets(crates, config.bound_types()).skip(k + 1),
            config,
            print_errors,
        ),
        stands_in(
            spec_type_blocks(spec_targets(crates, config.bound_types()), config, print_errors),
            spec_output(spec_targets(crates, config.bound_types()), config, print_errors),
        ),
{
    let targets = spec_targets(crates, config.bound_types());
    lemma_parts_stand_in_output(targets, config, print_errors);
    let one = seq![targets[k]];
    assert(targets =~= targets.take(k) + one + targets.skip(k + 1));
    lemma_type_blocks_concat(targets.take(k) + one, targets.skip(k + 1), config, print_errors);
    lemma_type_blocks_concat(targets.take(k), one, config, print_errors);
    assert(one.drop_last() =~= Seq::<Target>::empty());
    assert(spec_type_blocks(Seq::<Target>::empty(), config, print_errors) == Seq::<char>::empty());
    assert(spec_type_blocks(one, config, print_errors) =~= spec_type_block(
        targets[k],
        config,
        print_errors,
    ));
}

/// Whether two graphs hold the same items under the same ids, and the same paths.
pub open spec fn same_content(a: TypeGraph, b: TypeGraph) -> bool {
    &&& a.items() == b.items()
    &&& a.paths() == b.paths()
    &&& forall|id: u64| a.order().contains(id) <==> b.order().contains(id)
}

/// Whether at most one item of a graph is the type that goes by a name.
pub open spec fn unambiguous(graph: TypeGraph, name: Seq<char>) -> bool {
    forall|id1: u64, id2: u64|
        graph.order().contains(id1) && graph.order().contains(id2) && #[trigger] spec_matches_id(
            graph,
            id1,
            name,
        ) && #[trigger] spec_matches_id(graph, id2, name) ==> id1 == id2
}

/// What is found in a graph is listed in it and is the type that goes by the name;
/// nothing is found only where no listed item is that type.
pub proof fn lemma_find_in_graph(graph: TypeGraph, name: Seq<char>, i: int)
    requires
        0 <= i,
    ensures
        match spec_find_in_graph(graph, name, i) {
            Some(id) => graph.order().contains(id) && spec_matches_id(graph, id, name),
            None => forall|p: int|
                i <= p < graph.order().len() ==> !spec_matches_id(
                    graph,
                    #[trigger] graph.order()[p],
                    name,
                ),
        },
    decreases graph.order().len() - i,
{
    if i < graph.order().len() {
        lemma_find_in_graph(graph, name, i + 1);
    }
}

/// Two graphs with the same content give the same answer for a name that at most
/// one of their items goes by, whatever the order in which they list their items.
pub proof fn lemma_find_ignores_order(a: TypeGraph, b: TypeGraph, name: Seq<char>)
    requires
        same_content(a, b),
        unambiguous(a, name),
    ensures
        spec_find_in_graph(a, name, 0) == spec_find_in_graph(b, name, 0),
{
    lemma_find_in_graph(a, name, 0);
    lemma_find_in_graph(b, name, 0);
    match spec_find_in_graph(a, name, 0) {
        Some(id) => {
            assert(b.order().contains(id));
            let p = choose|p: int| 0 <= p < b.order().len() && b.order()[p] == id;
            assert(spec_matches_id(b, b.order()[p], name));
            let found = spec_find_in_graph(b, name, 0)->0;
            assert(a.order().contains(found));
            assert(spec_matches_id(a, found, name));
        },
        None => {
            match spec_find_in_graph(b, name, 0) {
                Some(id) => {
                    assert(a.order().contains(id));
                    let p = choose|p: int| 0 <= p < a.order().len() && a.order()[p] == id;
                    assert(spec_matches_id(a, a.order()[p], name));
                },
                None => {},
            }
        },
    }
}

/// Whether two runs of graphs hold the same content graph by graph, with at most
/// one item in each graph for each configured type.
pub open spec fn same_graphs(c1: Seq<TypeGraph>, c2: Seq<TypeGraph>, types: Seq<Newtype>) -> bool {
    &&& c1.len() == c2.len()
    &&& forall|g: int| 0 <= g < c1.len() ==> same_content(#[trigger] c1[g], c2[g])
    &&& forall|g: int, k: int|
        0 <= g < c1.len() && 0 <= k < types.len() ==> unambiguous(
            #[trigger] c1[g],
            (#[trigger] types[k]).type_@,
        )
}

/// A configured type is found in the same place in both runs of graphs.
pub proof fn lemma_find_same(
    c1: Seq<TypeGraph>,
    c2: Seq<TypeGraph>,
    types: Seq<Newtype>,
    k: int,
    g: int,
)
    requires
        same_graphs(c1, c2, types),
        0 <= k < types.len(),
        0 <= g,
    ensures
        spec_find(c1, types[k].type_@, g) == spec_find(c2, types[k].type_@, g),
        spec_find(c1, types[k].type_@, g) matches Some((at, _)) ==> g <= at < c1.len(),
    decreases c1.len() - g,
{
    if g < c1.len() {
        assert(same_content(c1[g], c2[g]));
        assert(unambiguous(c1[g], types[k].type_@));
        lemma_find_ignores_order(c1[g], c2[g], types[k].type_@);
        lemma_find_same(c1, c2, types, k, g + 1);
    }
}

/// The same types are missing from both runs of graphs.
pub proof fn lemma_missing_same(
    c1: Seq<TypeGraph>,
    c2: Seq<TypeGraph>,
    types: Seq<Newtype>,
    n: int,
)
    requires
        same_graphs(c1, c2, types),
        0 <= n <= types.len(),
    ensures
        spec_missing(c1, types.take(n)) == spec_missing(c2, types.take(n)),
    decreases n,
{
    if n > 0 {
        lemma_missing_same(c1, c2, types, n - 1);
        assert(types.take(n).drop_last() =~= types.take(n - 1));
        assert(types.take(n).last() == types[n - 1]);
        lemma_find_same(c1, c2, types, n - 1, 0);
    }
}

/// The same stands against the description of a found type in both runs of graphs,
/// and the generator reads the same of it.
pub proof fn lemma_target_same(c1: Seq<TypeGraph>, c2: Seq<TypeGraph>, types: Seq<Newtype>, k: int)
    requires
        same_graphs(c1, c2, types),
        0 <= k < types.len(),
        spec_find(c1, types[k].type_@, 0) is Some,
    ensures
        spec_target(c1, types[k]) == spec_target(c2, types[k]),
        spec_type_failure(c1, types[k]) == spec_type_failure(c2, types[k]),
{
    lemma_find_same(c1, c2, types, k, 0);
    let (g, id) = spec_find(c1, types[k].type_@, 0)->0;
    assert(same_content(c1[g], c2[g]));
}

/// The same stands first against a description in both runs of graphs.
pub proof fn lemma_first_failure_same(
    c1: Seq<TypeGraph>,
    c2: Seq<TypeGraph>,
    types: Seq<Newtype>,
    i: int,
)
    requires
        same_graphs(c1, c2, types),
        0 <= i,
        forall|k: int| 0 <= k < types.len() ==> spec_find(c1, (#[trigger] types[k]).type_@, 0) is Some,
    ensures
        spec_first_failure(c1, types, i) == spec_first_failure(c2, types, i),
    decreases types.len() - i,
{
    if i < types.len() {
        lemma_target_same(c1, c2, types, i);
        lemma_first_failure_same(c1, c2, types, i + 1);
    }
}

/// The order in which a graph holds its items does not show in the outcome of a
/// run: graphs with the same content give the same outcome, as long as no graph
/// holds two items for one configured type.
pub proof fn law_item_order_is_immaterial(
    c1: Seq<TypeGraph>,
    c2: Seq<TypeGraph>,
    config: Config,
    print_errors: bool,
)
    requires
        same_graphs(c1, c2, config.bound_types()),
    ensures
        spec_generate(c1, config, print_errors) == spec_generate(c2, config, print_errors),
{
    let types = config.bound_types();
    lemma_missing_same(c1, c2, types, types.len() as int);
    assert(types.take(types.len() as int) =~= types);
    if spec_missing(c1, types).len() == 0 {
        assert forall|k: int| 0 <= k < types.len() implies spec_find(
            c1,
            (#[trigger] types[k]).type_@,
            0,
        ) is Some by {
            lemma_missing_names(c1, types, types[k].type_@);
            if is_missing(c1, types[k]) {
                assert(spec_missing(c1, types).contains(types[k].type_@));
            }
        }
        lemma_first_failure_same(c1, c2, types, 0);
        assert forall|k: int| 0 <= k < types.len() implies spec_target(c1, #[trigger] types[k])
            == spec_target(c2, types[k]) by {
            lemma_target_same(c1, c2, types, k);
        }
        assert(spec_targets(c1, types) =~= spec_targets(c2, types));
    }
}

} // verus!
