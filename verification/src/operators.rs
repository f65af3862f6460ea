//! Operators: which implementations of the arithmetic interfaces are written out
//! as operators of a bound type.

use crate::arg_validator::{
    spec_arg_text, spec_base_ident, spec_classify, spec_is_self, spec_with_config, Arg, ArgType,
    ArgTypeView, ArgWrapperType,
};
use crate::config::Config;
use crate::graph::{item_name, Item, ItemKind, Param, TypeExpr, TypeGraph};
use crate::methods::method_inputs;
use crate::text::{join, same, seq_views, spec_join};
use crate::wrapper::{block_member_ids, members_view, Member, MemberSpec};
use vstd::prelude::*;
use vstd::string::*;

verus! {

/// The type that an implementation block is written for; no simple type where the
/// item is no block.
pub open spec fn block_target(block: Item) -> TypeExpr {
    match block.kind {
        ItemKind::ImplBlock { target, .. } => target,
        _ => TypeExpr::Other,
    }
}

/// The name that a classified type stands for in a block of the given type: the
/// name of that type where it is the declaring type, else the name at its core.
pub open spec fn spec_resolved_name(a: ArgTypeView, wrapped_type: Seq<char>) -> Option<Seq<char>> {
    if spec_is_self(a) {
        Some(wrapped_type)
    } else {
        spec_base_ident(a)
    }
}

/// Whether operators are taken from a block written for the given type: the block
/// is written for the bound type itself, or for a configured primitive.
pub open spec fn spec_operand_accepted(
    a: ArgTypeView,
    wrapped_type: Seq<char>,
    config: Config,
) -> bool {
    match spec_resolved_name(a, wrapped_type) {
        Some(n) => (n == wrapped_type && config.is_wrapped(n)) || config.is_primitive(n),
        None => false,
    }
}

/// The operands of an operator as they are written, or nothing where one of them
/// cannot be classified or has no wrapper.
pub open spec fn spec_operands(inputs: Seq<Param>, config: Config) -> Option<Seq<Seq<char>>>
    decreases inputs.len(),
{
    if inputs.len() == 0 {
        Some(Seq::empty())
    } else {
        match spec_operands(inputs.drop_last(), config) {
            Some(texts) => match spec_classify(inputs.last().type_, config) {
                Ok(a) => match spec_with_config(a, config) {
                    Some(w) => Some(texts.push(spec_arg_text(a, w))),
                    None => None,
                },
                Err(_) => None,
            },
            None => None,
        }
    }
}

/// Whether an id resolves to the associated type that names the result of an
/// operator.
pub open spec fn spec_is_output(items: Map<u64, Item>, id: u64) -> bool {
    items.contains_key(id) && items[id].kind is AssocType && item_name(items[id]) == "Output"@
}

/// The type that the first associated type named `Output` among the ids from
/// position `i` on declares, if there is such an associated type.
pub open spec fn spec_output_from(items: Map<u64, Item>, ids: Seq<u64>, i: int) -> Option<
    Option<TypeExpr>,
>
    decreases ids.len() - i,
{
    if i < 0 || i >= ids.len() {
        None
    } else if spec_is_output(items, ids[i]) {
        Some(items[ids[i]].kind->AssocType_default)
    } else {
        spec_output_from(items, ids, i + 1)
    }
}

/// The result of an operator as it is written, or nothing where the block declares
/// none, or one that cannot be classified or is not passed raw or wrapped.
pub open spec fn spec_result_text(items: Map<u64, Item>, block: Item, config: Config) -> Option<
    Seq<char>,
> {
    match spec_output_from(items, block_member_ids(block), 0) {
        Some(Some(t)) => match spec_classify(t, config) {
            Ok(a) => match spec_with_config(a, config) {
                Some(ArgWrapperType::Raw) => Some(spec_arg_text(a, ArgWrapperType::Raw)),
                Some(ArgWrapperType::Wrapped) => Some(spec_arg_text(a, ArgWrapperType::Wrapped)),
                _ => None,
            },
            Err(_) => None,
        },
        _ => None,
    }
}

/// What a member that goes by the name of a binary operator adds: its operands
/// around the token of the operator, and the result. It adds nothing where its block
/// is not written for the bound type or a primitive, where it is no method, or where
/// an operand or the result cannot be written.
pub open spec fn spec_binop_entry(
    items: Map<u64, Item>,
    m: MemberSpec,
    token: Seq<char>,
    wrapped_type: Seq<char>,
    config: Config,
) -> Seq<char> {
    match spec_classify(block_target(m.block), config) {
        Ok(target) => if spec_operand_accepted(target, wrapped_type, config) && m.item.kind is Method {
            match (spec_operands(method_inputs(m.item), config), spec_result_text(items, m.block, config)) {
                (Some(operands), Some(result)) => spec_join(operands, " "@ + token + " "@) + " -> "@
                    + result + ",\n"@,
                _ => Seq::empty(),
            }
        } else {
            Seq::empty()
        },
        Err(_) => Seq::empty(),
    }
}

/// What the members that go by the name of one binary operator add, in their order.
pub open spec fn spec_binop_group(
    items: Map<u64, Item>,
    group: Seq<MemberSpec>,
    token: Seq<char>,
    wrapped_type: Seq<char>,
    config: Config,
) -> Seq<char>
    decreases group.len(),
{
    if group.len() == 0 {
        Seq::empty()
    } else {
        spec_binop_group(items, group.drop_last(), token, wrapped_type, config) + spec_binop_entry(
            items,
            group.last(),
            token,
            wrapped_type,
            config,
        )
    }
}

/// What the members that go by the name of the unary operator add: one line each,
/// whatever their signature.
pub open spec fn spec_unary_group(count: nat) -> Seq<char>
    decreases count,
{
    if count == 0 {
        Seq::empty()
    } else {
        spec_unary_group((count - 1) as nat) + "Neg self -> self\n"@
    }
}

/// Tells whether operators are taken from a block written for the given type.
pub fn operand_accepted(target: &ArgType, wrapped_type: &String, config: &Config) -> (r: bool)
    ensures
        r == spec_operand_accepted(target@, wrapped_type@, *config),
{
    let name = if target.is_self() {
        Some(wrapped_type)
    } else {
        target.base_ident()
    };
    match name {
        Some(n) => (n.eq(wrapped_type) && config.has_type(n.as_str())) || config.has_primitive(
            n.as_str(),
        ),
        None => false,
    }
}

/// Writes out the operands of an operator, or nothing where one of them cannot be
/// classified or has no wrapper.
pub fn operands(inputs: &Vec<Param>, self_type: &str, config: &Config) -> (r: Option<Vec<String>>)
    ensures
        match r {
            Some(texts) => spec_operands(inputs@, *config) == Some(seq_views(texts@)),
            None => spec_operands(inputs@, *config) is None,
        },
{
    let mut texts: Vec<String> = Vec::new();
    let mut i: usize = 0;
    proof {
        assert(seq_views(texts@) =~= Seq::<Seq<char>>::empty());
    }
    while i < inputs.len()
        invariant
            i <= inputs.len(),
            spec_operands(inputs@.take(i as int), *config) == Some(seq_views(texts@)),
        decreases inputs.len() - i,
    {
        proof {
            assert(inputs@.take(i + 1).drop_last() =~= inputs@.take(i as int));
        }
        let ghost before = seq_views(texts@);
        match ArgType::from_type(&inputs[i].type_, config) {
            Ok(a) => {
                match ArgWrapperType::with_config(self_type, &a, config) {
                    Some(w) => {
                        let text = Arg::new(a, w).to_string();
                        proof {
                            assert(seq_views(texts@.push(text)) =~= before.push(text@));
                        }
                        texts.push(text);
                    },
                    None => {
                        proof {
                            lemma_operands_fail(inputs@, i as int + 1, *config);
                        }
                        return None;
                    },
                }
            },
            Err(_) => {
                proof {
                    lemma_operands_fail(inputs@, i as int + 1, *config);
                }
                return None;
            },
        }
        i = i + 1;
    }
    proof {
        assert(inputs@.take(inputs.len() as int) =~= inputs@);
    }
    Some(texts)
}

/// Operands that cannot be written stay so when more follow.
pub proof fn lemma_operands_fail(inputs: Seq<Param>, n: int, config: Config)
    requires
        0 <= n <= inputs.len(),
        spec_operands(inputs.take(n), config) is None,
    ensures
        spec_operands(inputs, config) is None,
    decreases inputs.len() - n,
{
    if n < inputs.len() {
        assert(inputs.take(n + 1).drop_last() =~= inputs.take(n));
        lemma_operands_fail(inputs, n + 1, config);
    } else {
        assert(inputs.take(n) =~= inputs);
    }
}

/// Finds the type that the first associated type named `Output` of a block declares.
pub fn find_output<'a>(ids: &Vec<u64>, source: &'a TypeGraph) -> (r: Option<&'a Option<TypeExpr>>)
    ensures
        match r {
            Some(d) => spec_output_from(source.items(), ids@, 0) == Some(*d),
            None => spec_output_from(source.items(), ids@, 0) is None,
        },
{
    let mut i: usize = 0;
    while i < ids.len()
        invariant
            i <= ids.len(),
            spec_output_from(source.items(), ids@, 0) == spec_output_from(
                source.items(),
                ids@,
                i as int,
            ),
        decreases ids.len() - i,
    {
        match source.get(ids[i]) {
            Some(item) => {
                match &item.kind {
                    ItemKind::AssocType { default } => {
                        let is_output = match &item.name {
                            Some(n) => same(n.as_str(), "Output"),
                            None => {
                                proof {
                                    reveal_strlit("Output");
                                    assert("Output"@.len() == 6);
                                }
                                false
                            },
                        };
                        assert(is_output == spec_is_output(source.items(), ids@[i as int]));
                        if is_output {
                            return Some(default);
                        }
                    },
                    _ => {
                        assert(!spec_is_output(source.items(), ids@[i as int]));
                    },
                }
            },
            None => {
                assert(!spec_is_output(source.items(), ids@[i as int]));
            },
        }
        i = i + 1;
    }
    None
}

/// Writes out the result of an operator where the block declares one that can be
/// written.
pub fn result_text(block: &Item, source: &TypeGraph, self_type: &str, config: &Config) -> (r:
    Option<String>)
    ensures
        match r {
            Some(text) => spec_result_text(source.items(), *block, *config) == Some(text@),
            None => spec_result_text(source.items(), *block, *config) is None,
        },
{
    let no_ids: Vec<u64> = Vec::new();
    let ids = match &block.kind {
        ItemKind::ImplBlock { interface: _, target: _, members } => members,
        _ => &no_ids,
    };
    match find_output(ids, source) {
        Some(Some(t)) => {
            match ArgType::from_type(t, config) {
                Ok(a) => {
                    match ArgWrapperType::with_config(self_type, &a, config) {
                        Some(ArgWrapperType::Raw) => Some(
                            Arg::new(a, ArgWrapperType::Raw).to_string(),
                        ),
                        Some(ArgWrapperType::Wrapped) => Some(
                            Arg::new(a, ArgWrapperType::Wrapped).to_string(),
                        ),
                        _ => None,
                    }
                },
                Err(_) => None,
            }
        },
        _ => None,
    }
}

/// Appends what a member that goes by the name of a binary operator adds.
pub fn write_binop_entry<'a>(
    m: &Member<'a>,
    token: &str,
    source: &TypeGraph,
    wrapped_type: &String,
    config: &Config,
    out: &mut String,
)
    ensures
        final(out)@ == old(out)@ + spec_binop_entry(
            source.items(),
            m@,
            token@,
            wrapped_type@,
            *config,
        ),
{
    proof {
        assert(old(out)@ + Seq::<char>::empty() =~= old(out)@);
    }
    let other = TypeExpr::Other;
    let target_expr = match &m.impl_.kind {
        ItemKind::ImplBlock { interface: _, target, members: _ } => target,
        _ => &other,
    };
    let target = match ArgType::from_type(target_expr, config) {
        Ok(t) => t,
        Err(_) => {
            return ;
        },
    };
    if !operand_accepted(&target, wrapped_type, config) {
        return ;
    }
    let inputs = match &m.item.kind {
        ItemKind::Method { inputs, output: _, generic: _ } => inputs,
        _ => {
            return ;
        },
    };
    let texts = match operands(inputs, wrapped_type.as_str(), config) {
        Some(texts) => texts,
        None => {
            return ;
        },
    };
    let result = match result_text(m.impl_, source, wrapped_type.as_str(), config) {
        Some(r) => r,
        None => {
            return ;
        },
    };
    let mut sep = String::from_str(" ");
    sep.append(token);
    sep.append(" ");
    let expr = join(&texts, sep.as_str());
    out.append(expr.as_str());
    out.append(" -> ");
    out.append(result.as_str());
    out.append(",\n");
    proof {
        assert(out@ =~= old(out)@ + (spec_join(seq_views(texts@), " "@ + token@ + " "@) + " -> "@
            + result@ + ",\n"@));
    }
}

/// Appends what the members that go by the name of one binary operator add.
pub fn write_binop_group<'a>(
    group: &Vec<Member<'a>>,
    token: &str,
    source: &TypeGraph,
    wrapped_type: &String,
    config: &Config,
    out: &mut String,
)
    ensures
        final(out)@ == old(out)@ + spec_binop_group(
            source.items(),
            members_view(group@),
            token@,
            wrapped_type@,
            *config,
        ),
{
    let mut i: usize = 0;
    proof {
        assert(old(out)@ + Seq::<char>::empty() =~= old(out)@);
    }
    while i < group.len()
        invariant
            i <= group.len(),
            out@ == old(out)@ + spec_binop_group(
                source.items(),
                members_view(group@).take(i as int),
                token@,
                wrapped_type@,
                *config,
            ),
        decreases group.len() - i,
    {
        proof {
            let v = members_view(group@);
            assert(v.take(i + 1).drop_last() =~= v.take(i as int));
            assert(v.take(i + 1).last() == group@[i as int]@);
        }
        let ghost before = out@;
        write_binop_entry(&group[i], token, source, wrapped_type, config, out);
        proof {
            assert(out@ =~= old(out)@ + (spec_binop_group(
                source.items(),
                members_view(group@).take(i as int),
                token@,
                wrapped_type@,
                *config,
            ) + spec_binop_entry(source.items(), group@[i as int]@, token@, wrapped_type@, *config)));
        }
        i = i + 1;
    }
    proof {
        assert(members_view(group@).take(group.len() as int) =~= members_view(group@));
    }
}

/// Appends one line for each member that goes by the name of the unary operator.
pub fn write_unary_group(count: usize, out: &mut String)
    ensures
        final(out)@ == old(out)@ + spec_unary_group(count as nat),
{
    let mut i: usize = 0;
    proof {
        assert(old(out)@ + Seq::<char>::empty() =~= old(out)@);
    }
    while i < count
        invariant
            i <= count,
            out@ == old(out)@ + spec_unary_group(i as nat),
        decreases count - i,
    {
        out.append("Neg self -> self\n");
        proof {
            assert(out@ =~= old(out)@ + (spec_unary_group(i as nat) + "Neg self -> self\n"@));
        }
        i = i + 1;
    }
}

} // verus!
