//! Selection of methods: which members of a bound type are written out as methods,
//! how their signatures read, and why the others are left out.

use crate::arg_validator::{
    spec_arg_text, spec_classify, spec_type_text, spec_with_config, Arg, ArgType, ArgTypeView,
    ArgWrapperType,
};
use crate::config::{Config, Newtype};
use crate::graph::{item_docs, item_name, Item, ItemKind, Param, TypeExpr};
use crate::text::{join, same, seq_views, spec_join, spec_lines, spec_prefixed, write_text_lines};
use crate::names::{name_set_insert, name_set_items, name_set_new};
use crate::wrapper::{block_interface, members_view, Member, MemberSpec};
use indexmap::IndexSet;
use vstd::prelude::*;
use vstd::string::*;

verus! {

/// Whether a type accepts the methods of an interface.
pub open spec fn spec_accepts_interface(newtype: Newtype, name: Seq<char>) -> bool {
    exists|i: int| 0 <= i < newtype.traits@.len() && (#[trigger] newtype.traits@[i]).name@ == name
}

/// Whether a member is a candidate: a method, declared by the inherent block or by
/// the block of an accepted interface.
pub open spec fn spec_is_candidate(m: MemberSpec, newtype: Newtype) -> bool {
    &&& m.item.kind is Method
    &&& match block_interface(m.block) {
        Some(t) => spec_accepts_interface(newtype, t),
        None => true,
    }
}

/// The reason given for a method that declares generic parameters.
pub open spec fn reason_generic() -> Seq<char> {
    "generic method"@
}

/// The reason given for a parameter that cannot be classified.
pub open spec fn reason_argument_not_simple(message: Seq<char>) -> Seq<char> {
    "unsupported argument, not a simple type: "@ + message
}

/// The reason given for a parameter that has no wrapper.
pub open spec fn reason_argument_unwrapped(a: ArgTypeView) -> Seq<char> {
    "unsupported argument, not wrapped or primitive: "@ + spec_type_text(a)
}

/// The reason given for a return type that cannot be classified.
pub open spec fn reason_return_not_simple(message: Seq<char>) -> Seq<char> {
    "unsupported return type, not a simple type: "@ + message
}

/// The reason given for a return type that has no wrapper.
pub open spec fn reason_return_unwrapped(a: ArgTypeView) -> Seq<char> {
    "unsupported return type, not wrapped or primitive: "@ + spec_type_text(a)
}

/// What stands in a signature in place of an operand that has no wrapper.
pub open spec fn spec_invalid(a: ArgTypeView) -> Seq<char> {
    "<invalid: "@ + spec_type_text(a) + ">"@
}

/// What follows a parameter: a colon behind the receiver, a comma behind any other
/// parameter but the last, nothing behind the last.
pub open spec fn spec_separator(name: Seq<char>, last: bool) -> Seq<char> {
    if name == "self"@ {
        ":"@
    } else if !last {
        ","@
    } else {
        Seq::empty()
    }
}

/// What a run of parameters comes to: their text, the reasons against them, and
/// whether the receiver is among them.
pub ghost struct Signature {
    pub text: Seq<char>,
    pub reasons: Seq<Seq<char>>,
    pub has_receiver: bool,
}

/// A parameter as it is written: the receiver without a wrapper, any other
/// parameter inside the marker of its wrapper.
pub open spec fn spec_param_text(name: Seq<char>, a: ArgTypeView, w: ArgWrapperType) -> Seq<char> {
    if name == "self"@ {
        spec_type_text(a)
    } else {
        spec_arg_text(a, w)
    }
}

/// A signature after one more parameter. A parameter that cannot be classified
/// leaves no text; one without a wrapper leaves a token that shows it; either adds
/// a reason. Any other parameter is written out, followed by its separator; the
/// parameter named `self` is the receiver.
pub open spec fn spec_param_step(
    prev: Signature,
    p: Param,
    last: bool,
    config: Config,
) -> Signature {
    match spec_classify(p.type_, config) {
        Err(m) => Signature {
            text: prev.text,
            reasons: prev.reasons.push(reason_argument_not_simple(m)),
            has_receiver: prev.has_receiver,
        },
        Ok(a) => match spec_with_config(a, config) {
            None => Signature {
                text: prev.text + spec_invalid(a),
                reasons: prev.reasons.push(reason_argument_unwrapped(a)),
                has_receiver: prev.has_receiver,
            },
            Some(w) => Signature {
                text: prev.text + spec_param_text(p.name@, a, w) + spec_separator(p.name@, last),
                reasons: prev.reasons,
                has_receiver: prev.has_receiver || p.name@ == "self"@,
            },
        },
    }
}

/// The signature of the first `n` parameters.
pub open spec fn spec_params(inputs: Seq<Param>, n: int, config: Config) -> Signature
    decreases n,
{
    if n <= 0 {
        Signature { text: Seq::empty(), reasons: Seq::empty(), has_receiver: false }
    } else {
        spec_param_step(
            spec_params(inputs, n - 1, config),
            inputs[n - 1],
            n == inputs.len(),
            config,
        )
    }
}

/// Whether a method returns a reference.
pub open spec fn spec_returns_ref(output: Option<TypeExpr>, config: Config) -> bool {
    match output {
        Some(t) => match spec_classify(t, config) {
            Ok(a) => a is Ref,
            Err(_) => false,
        },
        None => false,
    }
}

/// The text of a return type.
pub open spec fn spec_return_text(output: Option<TypeExpr>, config: Config) -> Seq<char> {
    match output {
        Some(t) => match spec_classify(t, config) {
            Ok(a) => match spec_with_config(a, config) {
                Some(w) => " -> "@ + spec_arg_text(a, w),
                None => spec_invalid(a),
            },
            Err(_) => Seq::empty(),
        },
        None => Seq::empty(),
    }
}

/// The reasons against a return type.
pub open spec fn spec_return_reasons(output: Option<TypeExpr>, config: Config) -> Seq<Seq<char>> {
    match output {
        Some(t) => match spec_classify(t, config) {
            Ok(a) => match spec_with_config(a, config) {
                Some(w) => Seq::empty(),
                None => seq![reason_return_unwrapped(a)],
            },
            Err(m) => seq![reason_return_not_simple(m)],
        },
        None => Seq::empty(),
    }
}

/// The parameters of a method; none for an item that is no method.
pub open spec fn method_inputs(item: Item) -> Seq<Param> {
    match item.kind {
        ItemKind::Method { inputs, .. } => inputs@,
        _ => Seq::empty(),
    }
}

/// The return type that a method declares.
pub open spec fn method_output(item: Item) -> Option<TypeExpr> {
    match item.kind {
        ItemKind::Method { output, .. } => output,
        _ => None,
    }
}

/// Whether a method declares generic parameters of its own.
pub open spec fn method_is_generic(item: Item) -> bool {
    match item.kind {
        ItemKind::Method { generic, .. } => generic,
        _ => false,
    }
}

/// The signature of a method as it is written: its documentation line by line, its
/// name, its parameters in brackets, and its return type.
pub open spec fn spec_method_text(item: Item, config: Config) -> Seq<char> {
    let params = spec_params(method_inputs(item), method_inputs(item).len() as int, config);
    spec_prefixed("/// "@, spec_lines(item_docs(item))) + item_name(item) + "("@ + params.text
        + ")"@ + spec_return_text(method_output(item), config)
}

/// The reasons against a method: that it is generic, then what stands against its
/// parameters in their order, then what stands against its return type.
pub open spec fn spec_method_reasons(item: Item, config: Config) -> Seq<Seq<char>> {
    let params = spec_params(method_inputs(item), method_inputs(item).len() as int, config);
    (if method_is_generic(item) {
        seq![reason_generic()]
    } else {
        Seq::empty()
    }) + params.reasons + spec_return_reasons(method_output(item), config)
}

/// Whether a method takes the receiver.
pub open spec fn spec_has_receiver(item: Item, config: Config) -> bool {
    spec_params(method_inputs(item), method_inputs(item).len() as int, config).has_receiver
}

/// Whether a member is written out as a method: it is a candidate, returns no
/// reference, and nothing stands against it.
pub open spec fn spec_is_included(m: MemberSpec, newtype: Newtype, config: Config) -> bool {
    &&& spec_is_candidate(m, newtype)
    &&& !spec_returns_ref(method_output(m.item), config)
    &&& spec_method_reasons(m.item, config).len() == 0
}

/// An excluded method as a comment: the reasons against it and its signature, each
/// line behind `// `, and an empty line at the end.
pub open spec fn spec_excluded_text(item: Item, config: Config) -> Seq<char> {
    spec_prefixed(
        "// "@,
        spec_lines(
            "Exclusion reason: "@ + spec_join(spec_method_reasons(item, config), ","@) + "\n"@
                + spec_method_text(item, config),
        ),
    ) + "\n"@
}

/// What one member adds to the methods of its type. A member that is no candidate
/// and a method that returns a reference add nothing. A method that something stands
/// against adds nothing either, or a comment where those are asked for. Any other
/// method adds its signature.
pub open spec fn spec_method_entry(
    m: MemberSpec,
    newtype: Newtype,
    config: Config,
    print_errors: bool,
) -> Seq<char> {
    if !spec_is_candidate(m, newtype) || spec_returns_ref(method_output(m.item), config) {
        Seq::empty()
    } else if spec_method_reasons(m.item, config).len() > 0 {
        if print_errors {
            spec_excluded_text(m.item, config)
        } else {
            Seq::empty()
        }
    } else {
        spec_method_text(m.item, config) + ",\n"@
    }
}

/// The methods of a type as they are written: what each member adds, in the order
/// of the members.
pub open spec fn spec_methods_text(
    members: Seq<MemberSpec>,
    newtype: Newtype,
    config: Config,
    print_errors: bool,
) -> Seq<char>
    decreases members.len(),
{
    if members.len() == 0 {
        Seq::empty()
    } else {
        spec_methods_text(members.drop_last(), newtype, config, print_errors) + spec_method_entry(
            members.last(),
            newtype,
            config,
            print_errors,
        )
    }
}

/// Whether one of the members is written out as a method that takes no receiver.
pub open spec fn spec_has_global_methods(
    members: Seq<MemberSpec>,
    newtype: Newtype,
    config: Config,
) -> bool
    decreases members.len(),
{
    if members.len() == 0 {
        false
    } else {
        spec_has_global_methods(members.drop_last(), newtype, config) || (spec_is_included(
            members.last(),
            newtype,
            config,
        ) && !spec_has_receiver(members.last().item, config))
    }
}

/// The names of the members that are written out as methods, each once, in the
/// order of the members.
pub open spec fn spec_used_names(members: Seq<MemberSpec>, newtype: Newtype, config: Config) -> Seq<
    Seq<char>,
>
    decreases members.len(),
{
    if members.len() == 0 {
        Seq::empty()
    } else {
        let rest = spec_used_names(members.drop_last(), newtype, config);
        if spec_is_included(members.last(), newtype, config) && !rest.contains(
            item_name(members.last().item),
        ) {
            rest.push(item_name(members.last().item))
        } else {
            rest
        }
    }
}

/// Tells whether a type accepts the methods of an interface.
pub fn accepts_interface(newtype: &Newtype, name: &String) -> (r: bool)
    ensures
        r == spec_accepts_interface(*newtype, name@),
{
    let mut i: usize = 0;
    while i < newtype.traits.len()
        invariant
            i <= newtype.traits.len(),
            forall|k: int| 0 <= k < i ==> (#[trigger] newtype.traits@[k]).name@ != name@,
        decreases newtype.traits.len() - i,
    {
        if newtype.traits[i].name.eq(name) {
            return true;
        }
        i = i + 1;
    }
    false
}

/// Appends the token that stands for an operand without a wrapper.
fn write_invalid(type_: &ArgType, out: &mut String)
    ensures
        final(out)@ == old(out)@ + spec_invalid(type_@),
{
    out.append("<invalid: ");
    type_.write(out);
    out.append(">");
    assert(out@ =~= old(out)@ + spec_invalid(type_@));
}

/// A fixed text followed by a classified type.
fn text_with_type(head: &str, type_: &ArgType) -> (r: String)
    ensures
        r@ == head@ + spec_type_text(type_@),
{
    let mut r = String::from_str(head);
    type_.write(&mut r);
    r
}

/// A fixed text followed by another.
fn text_with_text(head: &str, tail: &str) -> (r: String)
    ensures
        r@ == head@ + tail@,
{
    let mut r = String::from_str(head);
    r.append(tail);
    r
}

/// Writes the parameters of a method and collects the reasons against them. Tells
/// whether the receiver is among them.
pub fn write_params(
    inputs: &Vec<Param>,
    self_type: &str,
    config: &Config,
    inner: &mut String,
    errors: &mut Vec<String>,
) -> (has_receiver: bool)
    ensures
        final(inner)@ == old(inner)@ + spec_params(inputs@, inputs@.len() as int, *config).text,
        seq_views(final(errors)@) == seq_views(old(errors)@) + spec_params(
            inputs@,
            inputs@.len() as int,
            *config,
        ).reasons,
        has_receiver == spec_params(inputs@, inputs@.len() as int, *config).has_receiver,
{
    let mut has_receiver = false;
    let mut i: usize = 0;
    proof {
        assert(seq_views(errors@) + Seq::<Seq<char>>::empty() =~= seq_views(errors@));
    }
    while i < inputs.len()
        invariant
            i <= inputs.len(),
            inner@ == old(inner)@ + spec_params(inputs@, i as int, *config).text,
            seq_views(errors@) == seq_views(old(errors)@) + spec_params(
                inputs@,
                i as int,
                *config,
            ).reasons,
            has_receiver == spec_params(inputs@, i as int, *config).has_receiver,
        decreases inputs.len() - i,
    {
        let p = &inputs[i];
        let ghost prev = spec_params(inputs@, i as int, *config);
        let ghost before = seq_views(errors@);
        match ArgType::from_type(&p.type_, config) {
            Ok(a) => {
                match ArgWrapperType::with_config(self_type, &a, config) {
                    Some(w) => {
                        if same(p.name.as_str(), "self") {
                            has_receiver = true;
                            a.write(inner);
                            inner.append(":");
                        } else {
                            Arg::new(a, w).write(inner);
                            if i + 1 != inputs.len() {
                                inner.append(",");
                            }
                        }
                        proof {
                            assert(inner@ =~= old(inner)@ + (prev.text + spec_param_text(
                                p.name@,
                                a@,
                                w,
                            ) + spec_separator(p.name@, i + 1 == inputs.len())));
                        }
                    },
                    None => {
                        write_invalid(&a, inner);
                        let reason = text_with_type(
                            "unsupported argument, not wrapped or primitive: ",
                            &a,
                        );
                        proof {
                            assert(seq_views(errors@.push(reason)) =~= before.push(reason@));
                            assert(inner@ =~= old(inner)@ + (prev.text + spec_invalid(a@)));
                        }
                        errors.push(reason);
                    },
                }
            },
            Err(m) => {
                let reason = text_with_text(
                    "unsupported argument, not a simple type: ",
                    m.as_str(),
                );
                proof {
                    assert(seq_views(errors@.push(reason)) =~= before.push(reason@));
                }
                errors.push(reason);
            },
        }
        proof {
            let next = spec_params(inputs@, i + 1, *config);
            assert(next == spec_param_step(prev, inputs@[i as int], i + 1 == inputs.len(), *config));
            assert(seq_views(errors@) =~= seq_views(old(errors)@) + next.reasons);
        }
        i = i + 1;
    }
    has_receiver
}

/// Writes the return type of a method and collects the reasons against it. Tells
/// whether the method returns a reference, in which case nothing is written or
/// collected.
pub fn write_return(
    output: &Option<TypeExpr>,
    self_type: &str,
    config: &Config,
    inner: &mut String,
    errors: &mut Vec<String>,
) -> (returns_ref: bool)
    ensures
        returns_ref == spec_returns_ref(*output, *config),
        !returns_ref ==> final(inner)@ == old(inner)@ + spec_return_text(*output, *config),
        !returns_ref ==> seq_views(final(errors)@) == seq_views(old(errors)@)
            + spec_return_reasons(*output, *config),
        returns_ref ==> final(inner)@ == old(inner)@ && final(errors)@ == old(errors)@,
{
    let ghost before = seq_views(errors@);
    proof {
        assert(before + Seq::<Seq<char>>::empty() =~= before);
        assert(inner@ + Seq::<char>::empty() =~= inner@);
    }
    match output {
        Some(t) => {
            match ArgType::from_type(t, config) {
                Ok(a) => {
                    if a.is_ref() {
                        return true;
                    }
                    match ArgWrapperType::with_config(self_type, &a, config) {
                        Some(w) => {
                            inner.append(" -> ");
                            let arg = Arg::new(a, w);
                            arg.write(inner);
                            proof {
                                assert(inner@ =~= old(inner)@ + (" -> "@ + spec_arg_text(a@, w)));
                            }
                        },
                        None => {
                            write_invalid(&a, inner);
                            let reason = text_with_type(
                                "unsupported return type, not wrapped or primitive: ",
                                &a,
                            );
                            proof {
                                assert(seq_views(errors@.push(reason)) =~= before + seq![reason@]);
                            }
                            errors.push(reason);
                        },
                    }
                },
                Err(m) => {
                    let reason = text_with_text(
                        "unsupported return type, not a simple type: ",
                        m.as_str(),
                    );
                    proof {
                        assert(seq_views(errors@.push(reason)) =~= before + seq![reason@]);
                    }
                    errors.push(reason);
                },
            }
        },
        None => {},
    }
    false
}

/// Appends the documentation of an item, each line behind `/// `.
pub fn write_item_docs(item: &Item, out: &mut String)
    ensures
        final(out)@ == old(out)@ + spec_prefixed("/// "@, spec_lines(item_docs(*item))),
{
    match &item.docs {
        Some(d) => {
            write_text_lines(out, "/// ", d.as_str());
        },
        None => {
            assert(old(out)@ + spec_prefixed("/// "@, spec_lines(Seq::<char>::empty())) =~= old(
                out,
            )@);
        },
    }
}

/// Appends the name of an item.
pub fn write_item_name(item: &Item, out: &mut String)
    ensures
        final(out)@ == old(out)@ + item_name(*item),
{
    match &item.name {
        Some(n) => {
            out.append(n.as_str());
        },
        None => {
            assert(old(out)@ + Seq::<char>::empty() =~= old(out)@);
        },
    }
}

/// Writes what a candidate method adds to the methods of its type. Tells whether
/// the method was written out as one, and whether it takes the receiver.
pub fn write_method(
    item: &Item,
    self_type: &str,
    config: &Config,
    print_errors: bool,
    out: &mut String,
) -> (r: (bool, bool))
    requires
        item.kind is Method,
    ensures
        r.0 == (!spec_returns_ref(method_output(*item), *config) && spec_method_reasons(
            *item,
            *config,
        ).len() == 0),
        r.1 == spec_has_receiver(*item, *config),
        final(out)@ == old(out)@ + if spec_returns_ref(method_output(*item), *config) {
            Seq::<char>::empty()
        } else if spec_method_reasons(*item, *config).len() > 0 {
            if print_errors {
                spec_excluded_text(*item, *config)
            } else {
                Seq::<char>::empty()
            }
        } else {
            spec_method_text(*item, *config) + ",\n"@
        },
{
    proof {
        assert(old(out)@ + Seq::<char>::empty() =~= old(out)@);
    }
    match &item.kind {
        ItemKind::Method { inputs, output, generic } => {
            let mut errors: Vec<String> = Vec::new();
            if *generic {
                errors.push(String::from_str("generic method"));
            }
            let ghost first = seq_views(errors@);
            proof {
                assert(first =~= if *generic {
                    seq![reason_generic()]
                } else {
                    Seq::empty()
                });
            }
            let mut inner = String::new();
            write_item_docs(item, &mut inner);
            write_item_name(item, &mut inner);
            inner.append("(");
            let has_receiver = write_params(inputs, self_type, config, &mut inner, &mut errors);
            inner.append(")");
            let returns_ref = write_return(output, self_type, config, &mut inner, &mut errors);
            if returns_ref {
                return (false, has_receiver);
            }
            proof {
                assert(inner@ =~= spec_method_text(*item, *config));
                assert(seq_views(errors@) =~= spec_method_reasons(*item, *config));
            }
            if errors.len() > 0 {
                if print_errors {
                    let mut text = String::from_str("Exclusion reason: ");
                    let reasons = join(&errors, ",");
                    text.append(reasons.as_str());
                    text.append("\n");
                    text.append(inner.as_str());
                    write_text_lines(out, "// ", text.as_str());
                    out.append("\n");
                    proof {
                        assert(out@ =~= old(out)@ + spec_excluded_text(*item, *config));
                    }
                }
                return (false, has_receiver);
            }
            out.append(inner.as_str());
            out.append(",\n");
            proof {
                assert(out@ =~= old(out)@ + (spec_method_text(*item, *config) + ",\n"@));
            }
            (true, has_receiver)
        },
        _ => (false, false),
    }
}

/// Tells whether a member is a candidate.
pub fn is_candidate<'a>(m: &Member<'a>, newtype: &Newtype) -> (r: bool)
    ensures
        r == spec_is_candidate(m@, *newtype),
{
    match &m.item.kind {
        ItemKind::Method { .. } => match &m.impl_.kind {
            ItemKind::ImplBlock { interface: Some(t), target: _, members: _ } => accepts_interface(
                newtype,
                t,
            ),
            _ => true,
        },
        _ => false,
    }
}

/// Writes the methods of a type. Gives back whether one of them takes no receiver,
/// and the names of those written out.
pub fn write_methods<'a>(
    members: &Vec<Member<'a>>,
    newtype: &Newtype,
    config: &Config,
    print_errors: bool,
    out: &mut String,
) -> (r: (bool, IndexSet<String>))
    ensures
        final(out)@ == old(out)@ + spec_methods_text(
            members_view(members@),
            *newtype,
            *config,
            print_errors,
        ),
        r.0 == spec_has_global_methods(members_view(members@), *newtype, *config),
        name_set_items(r.1) == spec_used_names(members_view(members@), *newtype, *config),
{
    let mut has_global = false;
    let mut used = name_set_new();
    let mut i: usize = 0;
    proof {
        assert(old(out)@ + Seq::<char>::empty() =~= old(out)@);
    }
    while i < members.len()
        invariant
            i <= members.len(),
            out@ == old(out)@ + spec_methods_text(
                members_view(members@).take(i as int),
                *newtype,
                *config,
                print_errors,
            ),
            has_global == spec_has_global_methods(
                members_view(members@).take(i as int),
                *newtype,
                *config,
            ),
            name_set_items(used) == spec_used_names(
                members_view(members@).take(i as int),
                *newtype,
                *config,
            ),
        decreases members.len() - i,
    {
        let m = &members[i];
        proof {
            let v = members_view(members@);
            assert(v.take(i + 1).drop_last() =~= v.take(i as int));
            assert(v.take(i + 1).last() == m@);
        }
        let ghost before = out@;
        if is_candidate(m, newtype) {
            let (included, has_receiver) = write_method(
                m.item,
                newtype.type_.as_str(),
                config,
                print_errors,
                out,
            );
            if included {
                let name = match &m.item.name {
                    Some(n) => n.clone(),
                    None => String::new(),
                };
                name_set_insert(&mut used, name);
                if !has_receiver {
                    has_global = true;
                }
            }
        }
        proof {
            let entry = spec_method_entry(m@, *newtype, *config, print_errors);
            assert(out@ =~= before + entry);
            assert(out@ =~= old(out)@ + (spec_methods_text(
                members_view(members@).take(i as int),
                *newtype,
                *config,
                print_errors,
            ) + entry));
        }
        i = i + 1;
    }
    proof {
        assert(members_view(members@).take(members.len() as int) =~= members_view(members@));
    }
    (has_global, used)
}

} // verus!
