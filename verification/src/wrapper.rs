//! A bound type with the members collected for it, and the part of the generated
//! text that describes it.

use crate::config::{Args, Config, Newtype};
use crate::error::{GenerateError, GenerateErrorView};
use crate::graph::{item_docs, item_impls, item_name, Item, ItemKind, TypeGraph};
use crate::fields::{spec_fields_block, write_fields};
use crate::methods::{
    spec_has_global_methods, spec_methods_text, spec_used_names, write_item_docs, write_methods,
};
use crate::operators::{spec_binop_group, spec_unary_group, write_binop_group, write_unary_group};
use crate::names::{
    name_set_contains, name_set_insert, name_set_items, name_set_new, position_of, OrderedMap,
};
use crate::text::{
    append_piece, join, lemma_written, seq_views, spec_join, spec_lines, spec_prefixed,
    write_text_lines,
};
use indexmap::IndexSet;
use vstd::prelude::*;
use vstd::string::*;

verus! {

/// What stands before the name of a bound type in the name of its wrapper.
pub const WRAPPER_PREFIX: &'static str = "Lua";

/// A member of a bound type: the implementation block that declares it, and the
/// member itself.
#[derive(Clone, Copy)]
pub struct Member<'a> {
    pub impl_: &'a Item,
    pub item: &'a Item,
}

/// The mathematical value of a [`Member`].
pub ghost struct MemberSpec {
    pub block: Item,
    pub item: Item,
}

impl<'a> View for Member<'a> {
    type V = MemberSpec;

    open spec fn view(&self) -> MemberSpec {
        MemberSpec { block: *self.impl_, item: *self.item }
    }
}

/// The values of a sequence of members.
pub open spec fn members_view<'a>(v: Seq<Member<'a>>) -> Seq<MemberSpec> {
    Seq::new(v.len(), |i: int| v[i]@)
}

/// The items behind a sequence of references.
pub open spec fn items_view<'a>(v: Seq<&'a Item>) -> Seq<Item> {
    Seq::new(v.len(), |i: int| *v[i])
}

/// The interface that an implementation block implements; none for an inherent
/// block and for an item that is no block.
pub open spec fn block_interface(block: Item) -> Option<Seq<char>> {
    match block.kind {
        ItemKind::ImplBlock { interface: Some(t), .. } => Some(t@),
        _ => None,
    }
}

/// The ids of the members of an implementation block, in declaration order.
pub open spec fn block_member_ids(block: Item) -> Seq<u64> {
    match block.kind {
        ItemKind::ImplBlock { members, .. } => members@,
        _ => Seq::empty(),
    }
}

/// Whether an id resolves to an implementation block.
pub open spec fn impl_ok(items: Map<u64, Item>, id: u64) -> bool {
    items.contains_key(id) && items[id].kind is ImplBlock
}

/// The position of the first implementation id that resolves to no implementation
/// block.
pub open spec fn spec_first_bad_impl(items: Map<u64, Item>, impls: Seq<u64>) -> Option<int> {
    if forall|k: int| 0 <= k < impls.len() ==> impl_ok(items, #[trigger] impls[k]) {
        None
    } else {
        Some(
            choose|k: int|
                0 <= k < impls.len() && !impl_ok(items, #[trigger] impls[k]) && forall|j: int|
                    0 <= j < k ==> impl_ok(items, #[trigger] impls[j]),
        )
    }
}

/// The implementation blocks behind a sequence of ids.
pub open spec fn spec_blocks(items: Map<u64, Item>, impls: Seq<u64>) -> Seq<Item> {
    Seq::new(impls.len(), |k: int| items[impls[k]])
}

/// The members of one block in declaration order. An id that resolves to nothing
/// yields no member.
pub open spec fn spec_block_members(items: Map<u64, Item>, block: Item, ids: Seq<u64>) -> Seq<
    MemberSpec,
>
    decreases ids.len(),
{
    if ids.len() == 0 {
        Seq::empty()
    } else {
        let rest = spec_block_members(items, block, ids.drop_last());
        if items.contains_key(ids.last()) {
            rest.push(MemberSpec { block, item: items[ids.last()] })
        } else {
            rest
        }
    }
}

/// The members of a sequence of blocks: block after block, and within each block in
/// declaration order.
pub open spec fn spec_members(items: Map<u64, Item>, blocks: Seq<Item>) -> Seq<MemberSpec>
    decreases blocks.len(),
{
    if blocks.len() == 0 {
        Seq::empty()
    } else {
        spec_members(items, blocks.drop_last()) + spec_block_members(
            items,
            blocks.last(),
            block_member_ids(blocks.last()),
        )
    }
}

/// The members that go by a name, in the order in which they were collected.
pub open spec fn spec_group(members: Seq<MemberSpec>, name: Seq<char>) -> Seq<MemberSpec>
    decreases members.len(),
{
    if members.len() == 0 {
        Seq::empty()
    } else {
        let rest = spec_group(members.drop_last(), name);
        if item_name(members.last().item) == name {
            rest.push(members.last())
        } else {
            rest
        }
    }
}

/// The names of the interfaces that the blocks implement, each once, in the order
/// of their first block.
pub open spec fn spec_trait_names(blocks: Seq<Item>) -> Seq<Seq<char>>
    decreases blocks.len(),
{
    if blocks.len() == 0 {
        Seq::empty()
    } else {
        let rest = spec_trait_names(blocks.drop_last());
        match block_interface(blocks.last()) {
            Some(t) => if rest.contains(t) {
                rest
            } else {
                rest.push(t)
            },
            None => rest,
        }
    }
}

/// The inherent implementation block: the last block that implements no interface.
pub open spec fn spec_self_impl(blocks: Seq<Item>) -> Option<Item>
    decreases blocks.len(),
{
    if blocks.len() == 0 {
        None
    } else if block_interface(blocks.last()) is None {
        Some(blocks.last())
    } else {
        spec_self_impl(blocks.drop_last())
    }
}

/// Whether a multi-map files every member under its name: each name that a member
/// goes by is a key, once, and the value of a key is the members that go by it.
pub open spec fn groups_match<'a>(
    map: OrderedMap<Vec<Member<'a>>>,
    members: Seq<MemberSpec>,
) -> bool {
    &&& map.wf()
    &&& forall|k: int|
        0 <= k < map.keys().len() ==> members_view(#[trigger] map.values()[k]@) == spec_group(
            members,
            map.keys()[k],
        )
    &&& forall|i: int|
        0 <= i < members.len() ==> map.keys().contains(item_name(#[trigger] members[i].item))
}

/// Resolves the implementation ids of a bound type to their blocks. The first id
/// that resolves to no implementation block ends the run.
pub fn resolve_impl_blocks<'a>(impls: &Vec<u64>, source: &'a TypeGraph) -> (r: Result<
    Vec<&'a Item>,
    GenerateError,
>)
    ensures
        match r {
            Ok(blocks) => spec_first_bad_impl(source.items(), impls@) is None && items_view(
                blocks@,
            ) == spec_blocks(source.items(), impls@),
            Err(e) => match spec_first_bad_impl(source.items(), impls@) {
                Some(k) => 0 <= k < impls@.len() && e@ == GenerateErrorView::NotAnImplBlock(
                    impls@[k],
                ),
                None => false,
            },
        },
{
    let mut blocks: Vec<&'a Item> = Vec::new();
    let mut i: usize = 0;
    while i < impls.len()
        invariant
            i <= impls.len(),
            forall|k: int| 0 <= k < i ==> impl_ok(source.items(), #[trigger] impls@[k]),
            items_view(blocks@) == spec_blocks(source.items(), impls@.take(i as int)),
        decreases impls.len() - i,
    {
        let id = impls[i];
        let ghost before = items_view(blocks@);
        match source.get(id) {
            Some(block) => {
                match &block.kind {
                    ItemKind::ImplBlock { .. } => {
                        blocks.push(block);
                    },
                    _ => {
                        proof {
                            lemma_first_bad_impl(source.items(), impls@, i as int);
                        }
                        return Err(GenerateError::NotAnImplBlock(id));
                    },
                }
            },
            None => {
                proof {
                    lemma_first_bad_impl(source.items(), impls@, i as int);
                }
                return Err(GenerateError::NotAnImplBlock(id));
            },
        }
        proof {
            assert(items_view(blocks@) =~= before.push(source.items()[id]));
            assert(spec_blocks(source.items(), impls@.take(i + 1)) =~= spec_blocks(
                source.items(),
                impls@.take(i as int),
            ).push(source.items()[id]));
        }
        i = i + 1;
    }
    proof {
        assert(impls@.take(impls.len() as int) =~= impls@);
    }
    Ok(blocks)
}

/// The first id that resolves to no implementation block is the one that has only
/// such before it that do.
pub proof fn lemma_first_bad_impl(items: Map<u64, Item>, impls: Seq<u64>, i: int)
    requires
        0 <= i < impls.len(),
        !impl_ok(items, impls[i]),
        forall|k: int| 0 <= k < i ==> impl_ok(items, #[trigger] impls[k]),
    ensures
        spec_first_bad_impl(items, impls) == Some(i),
{
    let k = spec_first_bad_impl(items, impls)->0;
    assert(0 <= k < impls.len() && !impl_ok(items, impls[k]) && forall|j: int|
        0 <= j < k ==> impl_ok(items, #[trigger] impls[j]));
    if k < i {
        assert(impl_ok(items, impls[k]));
    }
    if i < k {
        assert(impl_ok(items, impls[i]));
    }
}

/// No member goes by a name that none of them carries.
pub proof fn lemma_group_of_absent_name(members: Seq<MemberSpec>, name: Seq<char>)
    requires
        forall|i: int| 0 <= i < members.len() ==> item_name(#[trigger] members[i].item) != name,
    ensures
        spec_group(members, name) == Seq::<MemberSpec>::empty(),
    decreases members.len(),
{
    if members.len() > 0 {
        let rest = members.drop_last();
        assert forall|i: int| 0 <= i < rest.len() implies item_name(#[trigger] rest[i].item)
            != name by {
            assert(rest[i] == members[i]);
        }
        lemma_group_of_absent_name(rest, name);
        assert(item_name(members[members.len() - 1].item) != name);
    }
}

/// What a new member does to the members that go by a name.
pub proof fn lemma_group_push(members: Seq<MemberSpec>, m: MemberSpec, name: Seq<char>)
    ensures
        spec_group(members.push(m), name) == if item_name(m.item) == name {
            spec_group(members, name).push(m)
        } else {
            spec_group(members, name)
        },
{
    assert(members.push(m).drop_last() =~= members);
}

/// The name that a member is filed under.
fn member_key(item: &Item) -> (key: String)
    ensures
        key@ == item_name(*item),
{
    match &item.name {
        Some(n) => n.clone(),
        None => String::new(),
    }
}

/// Collects the members of one block: each member id that resolves goes behind the
/// members collected so far, and into the multi-map under its name.
fn collect_block_members<'a>(
    block: &'a Item,
    ids: &Vec<u64>,
    source: &'a TypeGraph,
    members: &mut Vec<Member<'a>>,
    map: &mut OrderedMap<Vec<Member<'a>>>,
)
    requires
        groups_match(*old(map), members_view(old(members)@)),
    ensures
        members_view(final(members)@) == members_view(old(members)@) + spec_block_members(
            source.items(),
            *block,
            ids@,
        ),
        groups_match(*final(map), members_view(final(members)@)),
{
    let mut j: usize = 0;
    while j < ids.len()
        invariant
            j <= ids.len(),
            members_view(members@) == members_view(old(members)@) + spec_block_members(
                source.items(),
                *block,
                ids@.take(j as int),
            ),
            groups_match(*map, members_view(members@)),
        decreases ids.len() - j,
    {
        proof {
            assert(ids@.take(j + 1).drop_last() =~= ids@.take(j as int));
        }
        match source.get(ids[j]) {
            Some(it) => {
                let m = Member { impl_: block, item: it };
                let key = member_key(it);
                let ghost before = members_view(members@);
                let ghost keys = map.keys();
                let ghost values = map.values();
                members.push(m);
                map.push_to(&key, m);
                proof {
                    let after = members_view(members@);
                    assert(after =~= before.push(m@));
                    assert forall|k: int| 0 <= k < map.keys().len() implies members_view(
                        #[trigger] map.values()[k]@,
                    ) == spec_group(after, map.keys()[k]) by {
                        lemma_group_push(before, m@, map.keys()[k]);
                        match position_of(keys, key@) {
                            Some(p) => {
                                if k == p {
                                    assert(members_view(map.values()[k]@) =~= members_view(
                                        values[k]@,
                                    ).push(m@));
                                } else {
                                    assert(map.values()[k] == values[k]);
                                }
                            },
                            None => {
                                if k < keys.len() {
                                    assert(keys.contains(keys[k]));
                                    assert(map.values()[k] == values[k]);
                                } else {
                                    assert forall|i: int| 0 <= i < before.len() implies item_name(
                                        #[trigger] before[i].item,
                                    ) != key@ by {
                                        assert(keys.contains(item_name(before[i].item)));
                                    }
                                    lemma_group_of_absent_name(before, key@);
                                    assert(members_view(map.values()[k]@) =~= seq![m@]);
                                    assert(Seq::<MemberSpec>::empty().push(m@) =~= seq![m@]);
                                }
                            },
                        }
                    }
                    assert forall|i: int| 0 <= i < after.len() implies map.keys().contains(
                        item_name(#[trigger] after[i].item),
                    ) by {
                        if i < before.len() {
                            let n = item_name(before[i].item);
                            assert(keys.contains(n));
                            let p = choose|p: int| 0 <= p < keys.len() && keys[p] == n;
                            assert(map.keys()[p] == n);
                        } else {
                            match position_of(keys, key@) {
                                Some(p) => {
                                    assert(keys.contains(key@));
                                },
                                None => {
                                    assert(map.keys()[keys.len() as int] == key@);
                                },
                            }
                        }
                    }
                    assert(members_view(old(members)@) + spec_block_members(
                        source.items(),
                        *block,
                        ids@.take(j as int),
                    ).push(m@) =~= (members_view(old(members)@) + spec_block_members(
                        source.items(),
                        *block,
                        ids@.take(j as int),
                    )).push(m@));
                }
            },
            None => {},
        }
        j = j + 1;
    }
    proof {
        assert(ids@.take(ids.len() as int) =~= ids@);
    }
}

/// Collects the members of a sequence of blocks, with the interfaces that the
/// blocks implement and the inherent block among them.
fn collect_members<'a>(blocks: &Vec<&'a Item>, source: &'a TypeGraph) -> (r: (
    Vec<Member<'a>>,
    OrderedMap<Vec<Member<'a>>>,
    IndexSet<String>,
    Option<&'a Item>,
))
    ensures
        members_view(r.0@) == spec_members(source.items(), items_view(blocks@)),
        groups_match(r.1, members_view(r.0@)),
        name_set_items(r.2) == spec_trait_names(items_view(blocks@)),
        match r.3 {
            Some(b) => spec_self_impl(items_view(blocks@)) == Some(*b),
            None => spec_self_impl(items_view(blocks@)) is None,
        },
{
    let mut members: Vec<Member<'a>> = Vec::new();
    let mut map: OrderedMap<Vec<Member<'a>>> = OrderedMap::new();
    let mut traits = name_set_new();
    let mut self_impl: Option<&'a Item> = None;
    let mut b: usize = 0;
    proof {
        assert(members_view(members@) =~= Seq::<MemberSpec>::empty());
    }
    while b < blocks.len()
        invariant
            b <= blocks.len(),
            members_view(members@) == spec_members(
                source.items(),
                items_view(blocks@).take(b as int),
            ),
            groups_match(map, members_view(members@)),
            name_set_items(traits) == spec_trait_names(items_view(blocks@).take(b as int)),
            match self_impl {
                Some(s) => spec_self_impl(items_view(blocks@).take(b as int)) == Some(*s),
                None => spec_self_impl(items_view(blocks@).take(b as int)) is None,
            },
        decreases blocks.len() - b,
    {
        let block = blocks[b];
        proof {
            let v = items_view(blocks@);
            assert(v.take(b + 1).drop_last() =~= v.take(b as int));
            assert(v.take(b + 1).last() == *block);
        }
        match &block.kind {
            ItemKind::ImplBlock { interface, target: _, members: ids } => {
                match interface {
                    Some(t) => {
                        name_set_insert(&mut traits, t.clone());
                    },
                    None => {
                        self_impl = Some(block);
                    },
                }
                collect_block_members(block, ids, source, &mut members, &mut map);
            },
            _ => {
                self_impl = Some(block);
                proof {
                    assert(members_view(members@) + Seq::<MemberSpec>::empty() =~= members_view(
                        members@,
                    ));
                }
            },
        }
        b = b + 1;
    }
    proof {
        assert(items_view(blocks@).take(blocks.len() as int) =~= items_view(blocks@));
    }
    (members, map, traits, self_impl)
}

/// What the generator reads of one bound type: the items of the graph that holds
/// it, the item itself, its configuration, and its module path.
pub ghost struct Target {
    pub items: Map<u64, Item>,
    pub item: Item,
    pub newtype: Newtype,
    pub path: Seq<String>,
}

impl Target {
    /// The implementation blocks of the type in declaration order.
    pub open spec fn blocks(self) -> Seq<Item> {
        spec_blocks(self.items, item_impls(self.item))
    }

    /// The members of the type: block after block, and within each block in
    /// declaration order.
    pub open spec fn members(self) -> Seq<MemberSpec> {
        spec_members(self.items, self.blocks())
    }

    /// The interfaces that the type implements.
    pub open spec fn traits(self) -> Seq<Seq<char>> {
        spec_trait_names(self.blocks())
    }

    /// The names of the methods written out for the type.
    pub open spec fn used_names(self, config: Config) -> Seq<Seq<char>> {
        spec_used_names(self.members(), self.newtype, config)
    }

    /// Whether a method written out for the type takes no receiver.
    pub open spec fn has_global_methods(self, config: Config) -> bool {
        spec_has_global_methods(self.members(), self.newtype, config)
    }

    /// The name of the generated wrapper.
    pub open spec fn wrapper_name(self) -> Seq<char> {
        WRAPPER_PREFIX@ + self.newtype.type_@
    }

    /// The full path of the type: the override of the configuration where there is
    /// one, else the segments of its module path with `::` between them.
    pub open spec fn inline_full_path(self) -> Seq<char> {
        if self.newtype.import_path@.len() == 0 {
            spec_join(seq_views(self.path), "::"@)
        } else {
            self.newtype.import_path@
        }
    }

    /// The documentation of the type, each line behind `/// `: that of the
    /// configuration where it gives one, else that of the item.
    pub open spec fn type_docstring(self) -> Seq<char> {
        spec_prefixed(
            "/// "@,
            spec_lines(
                match self.newtype.doc {
                    Some(d) => d@,
                    None => item_docs(self.item),
                },
            ),
        )
    }

    /// The methods declared by hand, each closed by a semicolon on a line of its own.
    pub open spec fn impl_block_body(self) -> Seq<char> {
        spec_suffixed(seq_views(self.newtype.lua_methods@), ";\n"@)
    }

    /// The operators of the type: for each binary operator in turn what the members
    /// that go by its name add.
    pub open spec fn binops_text(self, config: Config) -> Seq<char> {
        let ms = self.members();
        let ty = self.newtype.type_@;
        spec_binop_group(self.items, spec_group(ms, "add"@), "Add"@, ty, config) + spec_binop_group(
            self.items,
            spec_group(ms, "sub"@),
            "Sub"@,
            ty,
            config,
        ) + spec_binop_group(self.items, spec_group(ms, "div"@), "Div"@, ty, config)
            + spec_binop_group(self.items, spec_group(ms, "mul"@), "Mul"@, ty, config)
            + spec_binop_group(self.items, spec_group(ms, "rem"@), "Rem"@, ty, config)
    }

    /// The unary operators of the type: a line for each member that goes by the name
    /// of the negation.
    pub open spec fn unary_ops_text(self) -> Seq<char> {
        spec_unary_group(spec_group(self.members(), "neg"@).len())
    }

    /// The body of the description of the type: the flags for the interfaces
    /// `Clone` and `Debug`, then the methods, the fields, the binary and the unary
    /// operators, each in brackets behind its heading, then the derive flags of the
    /// configuration.
    #[verifier::opaque]
    pub open spec fn derive_flags_body(self, config: Config, print_errors: bool) -> Seq<char> {
        spec_flag_lines(self.traits()) + "Methods\n("@ + spec_methods_text(
            self.members(),
            self.newtype,
            config,
            print_errors,
        ) + ")+ Fields\n("@ + spec_fields_block(
            self.items,
            self.item,
            self.used_names(config),
            config,
        ) + ")+ BinOps\n("@ + self.binops_text(config) + ")+ UnaryOps\n("@ + self.unary_ops_text()
            + ")"@ + spec_derive_flags(self.newtype.derive_flags@)
    }
}

/// Each text followed by the same ending, one after the other.
pub open spec fn spec_suffixed(texts: Seq<Seq<char>>, ending: Seq<char>) -> Seq<char>
    decreases texts.len(),
{
    if texts.len() == 0 {
        Seq::empty()
    } else {
        spec_suffixed(texts.drop_last(), ending) + texts.last() + ending
    }
}

/// The flags written for the interfaces `Clone` and `Debug` where the type
/// implements them.
pub open spec fn spec_flag_lines(traits: Seq<Seq<char>>) -> Seq<char> {
    (if traits.contains("Clone"@) {
        "Clone +\n"@
    } else {
        Seq::empty()
    }) + (if traits.contains("Debug"@) {
        "Debug +\n"@
    } else {
        Seq::empty()
    })
}

/// The derive flags of the configuration: each block behind `+ `, line by line.
pub open spec fn spec_derive_flags(flags: Seq<String>) -> Seq<char>
    decreases flags.len(),
{
    if flags.len() == 0 {
        Seq::empty()
    } else {
        spec_derive_flags(flags.drop_last()) + "+ "@ + spec_prefixed(
            Seq::empty(),
            spec_lines(flags.last()@),
        )
    }
}

/// Why a bound type cannot be described: the first of its implementation ids that
/// resolves to no implementation block, else the lack of a path for the type.
pub open spec fn spec_target_failure(
    items: Map<u64, Item>,
    paths: Map<u64, Vec<String>>,
    item: Item,
) -> Option<GenerateErrorView> {
    match spec_first_bad_impl(items, item_impls(item)) {
        Some(k) => Some(GenerateErrorView::NotAnImplBlock(item_impls(item)[k])),
        None => if paths.contains_key(item.id) {
            None
        } else {
            Some(GenerateErrorView::MissingPath(item.id))
        },
    }
}

/// A bound type with all that was collected for it.
pub struct WrappedItem<'a> {
    /// The name of the generated wrapper: the prefix and the name of the type.
    pub wrapper_name: String,
    /// The name of the type.
    pub wrapped_type: &'a String,
    /// The module path of the type as its graph holds it.
    pub path_components: &'a Vec<String>,
    /// The graph that holds the type.
    pub source: &'a TypeGraph,
    /// The configuration of the type.
    pub config: &'a Newtype,
    /// The type itself.
    pub item: &'a Item,
    /// The members of the type by name; under each name in the order of `members`.
    pub impl_items: OrderedMap<Vec<Member<'a>>>,
    /// The members of the type, block after block in declaration order.
    pub members: Vec<Member<'a>>,
    /// The names of the interfaces that the type implements.
    pub implemented_traits: IndexSet<String>,
    /// The inherent implementation block of the type.
    pub self_impl: Option<&'a Item>,
    /// Whether a selected method of the type takes no receiver. Set when the methods
    /// are written.
    pub has_global_methods: bool,
}

impl<'a> WrappedItem<'a> {
    /// What the generator reads of this type.
    pub open spec fn target(&self) -> Target {
        Target {
            items: self.source.items(),
            item: *self.item,
            newtype: *self.config,
            path: self.path_components@,
        }
    }

    /// What was collected is what the graph holds for the type.
    pub open spec fn wf(&self) -> bool {
        &&& self.wrapper_name@ == WRAPPER_PREFIX@ + self.wrapped_type@
        &&& self.wrapped_type@ == self.config.type_@
        &&& spec_first_bad_impl(self.source.items(), item_impls(*self.item)) is None
        &&& self.source.paths().contains_key(self.item.id)
        &&& *self.path_components == self.source.paths()[self.item.id]
        &&& members_view(self.members@) == self.target().members()
        &&& groups_match(self.impl_items, self.target().members())
        &&& name_set_items(self.implemented_traits) == self.target().traits()
        &&& match self.self_impl {
            Some(b) => spec_self_impl(self.target().blocks()) == Some(*b),
            None => spec_self_impl(self.target().blocks()) is None,
        }
    }

    /// Collects what the graph holds for a bound type. There is no result where an
    /// implementation id of the type resolves to no implementation block, or where the
    /// graph has no path for the type.
    pub fn new(item: &'a Item, source: &'a TypeGraph, config: &'a Newtype) -> (r: Result<
        WrappedItem<'a>,
        GenerateError,
    >)
        ensures
            match r {
                Ok(w) => {
                    &&& spec_target_failure(source.items(), source.paths(), *item) is None
                    &&& w.wf()
                    &&& w.item == item
                    &&& w.source == source
                    &&& w.config == config
                    &&& !w.has_global_methods
                },
                Err(e) => spec_target_failure(source.items(), source.paths(), *item) == Some(e@),
            },
    {
        let no_impls: Vec<u64> = Vec::new();
        let impls = match &item.kind {
            ItemKind::Record { plain: _, fields: _, impls } => impls,
            ItemKind::TaggedUnion { impls } => impls,
            _ => &no_impls,
        };
        let blocks = match resolve_impl_blocks(impls, source) {
            Ok(blocks) => blocks,
            Err(e) => {
                return Err(e);
            },
        };
        let path_components = match source.get_path(item.id) {
            Some(p) => p,
            None => {
                return Err(GenerateError::MissingPath(item.id));
            },
        };
        let (members, impl_items, implemented_traits, self_impl) = collect_members(
            &blocks,
            source,
        );
        let mut wrapper_name = String::from_str(WRAPPER_PREFIX);
        wrapper_name.append(config.type_.as_str());
        Ok(
            WrappedItem {
                wrapper_name,
                wrapped_type: &config.type_,
                path_components,
                source,
                config,
                item,
                impl_items,
                members,
                implemented_traits,
                self_impl,
                has_global_methods: false,
            },
        )
    }
}

impl<'a> WrappedItem<'a> {
    /// Appends the full path of the type.
    pub fn write_inline_full_path(&self, out: &mut String, _args: &Args)
        ensures
            final(out)@ == old(out)@ + self.target().inline_full_path(),
    {
        if self.config.import_path.as_str().is_empty() {
            let path = join(self.path_components, "::");
            out.append(path.as_str());
        } else {
            out.append(self.config.import_path.as_str());
        }
    }

    /// Appends the documentation of the type over as many lines as it has.
    pub fn write_type_docstring(&self, out: &mut String, _args: &Args)
        ensures
            final(out)@ == old(out)@ + self.target().type_docstring(),
    {
        match &self.config.doc {
            Some(d) => {
                write_text_lines(out, "/// ", d.as_str());
            },
            None => {
                write_item_docs(self.item, out);
            },
        }
    }

    /// Appends the documentation of the item with the given id in the graph of the
    /// type, over as many lines as it has; nothing where the graph has no such item.
    pub fn write_method_docstring(&self, id: u64, out: &mut String, _args: &Args)
        ensures
            final(out)@ == old(out)@ + if self.source.items().contains_key(id) {
                spec_prefixed("/// "@, spec_lines(item_docs(self.source.items()[id])))
            } else {
                Seq::<char>::empty()
            },
    {
        match self.source.get(id) {
            Some(item) => {
                write_item_docs(item, out);
            },
            None => {
                assert(old(out)@ + Seq::<char>::empty() =~= old(out)@);
            },
        }
    }

    /// Appends the methods that the configuration declares by hand.
    pub fn write_impl_block_body(&self, out: &mut String, _args: &Args)
        ensures
            final(out)@ == old(out)@ + self.target().impl_block_body(),
    {
        let methods = &self.config.lua_methods;
        let mut i: usize = 0;
        proof {
            assert(old(out)@ + Seq::<char>::empty() =~= old(out)@);
        }
        while i < methods.len()
            invariant
                i <= methods.len(),
                out@ == old(out)@ + spec_suffixed(seq_views(methods@).take(i as int), ";\n"@),
            decreases methods.len() - i,
        {
            proof {
                let v = seq_views(methods@);
                assert(v.take(i + 1).drop_last() =~= v.take(i as int));
                assert(v.take(i + 1).last() == methods@[i as int]@);
            }
            out.append(methods[i].as_str());
            out.append(";\n");
            proof {
                assert(out@ =~= old(out)@ + (spec_suffixed(
                    seq_views(methods@).take(i as int),
                    ";\n"@,
                ) + methods@[i as int]@ + ";\n"@));
            }
            i = i + 1;
        }
        proof {
            assert(seq_views(methods@).take(methods.len() as int) =~= seq_views(methods@));
        }
    }

    /// Appends what the members that go by the name of one binary operator add.
    fn write_operator(&self, name: &str, token: &str, config: &Config, out: &mut String)
        requires
            self.wf(),
        ensures
            final(out)@ == old(out)@ + spec_binop_group(
                self.source.items(),
                spec_group(self.target().members(), name@),
                token@,
                self.config.type_@,
                *config,
            ),
    {
        match self.impl_items.get(name) {
            Some(group) => {
                write_binop_group(group, token, self.source, &self.config.type_, config, out);
            },
            None => {
                proof {
                    self.lemma_no_group(name@);
                    assert(old(out)@ + Seq::<char>::empty() =~= old(out)@);
                }
            },
        }
    }

    /// A name under which the multi-map holds nothing is the name of no member.
    proof fn lemma_no_group(&self, name: Seq<char>)
        requires
            self.wf(),
            self.impl_items.spec_get(name) is None,
        ensures
            spec_group(self.target().members(), name) == Seq::<MemberSpec>::empty(),
    {
        let ms = self.target().members();
        let keys = self.impl_items.keys();
        assert forall|i: int| 0 <= i < ms.len() implies item_name(#[trigger] ms[i].item) != name by {
            assert(keys.contains(item_name(ms[i].item)));
        }
        lemma_group_of_absent_name(ms, name);
    }

    /// Appends the binary operators of the type.
    fn write_binops(&self, config: &Config, out: &mut String)
        requires
            self.wf(),
        ensures
            final(out)@ == old(out)@ + self.target().binops_text(*config),
    {
        self.write_operator("add", "Add", config, out);
        self.write_operator("sub", "Sub", config, out);
        self.write_operator("div", "Div", config, out);
        self.write_operator("mul", "Mul", config, out);
        self.write_operator("rem", "Rem", config, out);
        proof {
            assert(out@ =~= old(out)@ + self.target().binops_text(*config));
        }
    }

    /// Appends the unary operators of the type.
    fn write_unary_ops(&self, out: &mut String)
        requires
            self.wf(),
        ensures
            final(out)@ == old(out)@ + self.target().unary_ops_text(),
    {
        match self.impl_items.get("neg") {
            Some(group) => {
                proof {
                    assert(members_view(group@).len() == group@.len());
                }
                write_unary_group(group.len(), out);
            },
            None => {
                proof {
                    self.lemma_no_group("neg"@);
                    assert(old(out)@ + Seq::<char>::empty() =~= old(out)@);
                }
            },
        }
    }

    /// Appends the flags for the interfaces `Clone` and `Debug`.
    fn write_flag_lines(&self, out: &mut String)
        requires
            self.wf(),
        ensures
            final(out)@ == old(out)@ + spec_flag_lines(self.target().traits()),
    {
        if name_set_contains(&self.implemented_traits, "Clone") {
            out.append("Clone +\n");
        }
        if name_set_contains(&self.implemented_traits, "Debug") {
            out.append("Debug +\n");
        }
        proof {
            assert(out@ =~= old(out)@ + spec_flag_lines(self.target().traits()));
        }
    }

    /// Appends the derive flags of the configuration.
    fn write_derive_flags(&self, out: &mut String)
        ensures
            final(out)@ == old(out)@ + spec_derive_flags(self.config.derive_flags@),
    {
        let flags = &self.config.derive_flags;
        let mut i: usize = 0;
        proof {
            assert(old(out)@ + Seq::<char>::empty() =~= old(out)@);
        }
        while i < flags.len()
            invariant
                i <= flags.len(),
                out@ == old(out)@ + spec_derive_flags(flags@.take(i as int)),
            decreases flags.len() - i,
        {
            proof {
                assert(flags@.take(i + 1).drop_last() =~= flags@.take(i as int));
            }
            out.append("+ ");
            write_text_lines(out, "", flags[i].as_str());
            proof {
                reveal_strlit("");
                assert(""@ =~= Seq::<char>::empty());
                assert(out@ =~= old(out)@ + (spec_derive_flags(flags@.take(i as int)) + "+ "@
                    + spec_prefixed(Seq::empty(), spec_lines(flags@[i as int]@))));
            }
            i = i + 1;
        }
        proof {
            assert(flags@.take(flags.len() as int) =~= flags@);
        }
    }

    /// Appends the body of the description of the type. Tells whether a method
    /// written out for it takes no receiver.
    fn write_body(&self, config: &Config, out: &mut String, args: &Args) -> (has_global: bool)
        requires
            self.wf(),
        ensures
            final(out)@ == old(out)@ + self.target().derive_flags_body(*config, args.print_errors),
            has_global == self.target().has_global_methods(*config),
    {
        let ghost start = out@;
        let ghost t = self.target();
        let mut written: Ghost<Seq<char>> = Ghost(Seq::empty());
        proof {
            assert(start + written@ =~= start);
        }
        self.write_flag_lines(out);
        proof {
            written@ = lemma_written(start, written@, spec_flag_lines(t.traits()));
        }
        written = append_piece(out, "Methods\n(", Ghost(start), written);
        let (has_global, used) =
            write_methods(&self.members, self.config, config, args.print_errors, out);
        proof {
            written@ = lemma_written(
                start,
                written@,
                spec_methods_text(t.members(), t.newtype, *config, args.print_errors),
            );
        }
        written = append_piece(out, ")+ Fields\n(", Ghost(start), written);
        write_fields(self.item, self.source, &used, self.config.type_.as_str(), config, out);
        proof {
            written@ = lemma_written(
                start,
                written@,
                spec_fields_block(t.items, t.item, t.used_names(*config), *config),
            );
        }
        written = append_piece(out, ")+ BinOps\n(", Ghost(start), written);
        self.write_binops(config, out);
        proof {
            written@ = lemma_written(start, written@, t.binops_text(*config));
        }
        written = append_piece(out, ")+ UnaryOps\n(", Ghost(start), written);
        self.write_unary_ops(out);
        proof {
            written@ = lemma_written(start, written@, t.unary_ops_text());
        }
        written = append_piece(out, ")", Ghost(start), written);
        self.write_derive_flags(out);
        proof {
            written@ = lemma_written(start, written@, spec_derive_flags(t.newtype.derive_flags@));
        }
        proof {
            reveal(Target::derive_flags_body);
            assert(written@ =~= t.derive_flags_body(*config, args.print_errors));
        }
        has_global
    }

    /// Appends the body of the description of the type, and notes whether a method
    /// written out for it takes no receiver.
    pub fn write_derive_flags_body(&mut self, config: &Config, out: &mut String, args: &Args)
        requires
            old(self).wf(),
        ensures
            final(out)@ == old(out)@ + old(self).target().derive_flags_body(
                *config,
                args.print_errors,
            ),
            final(self).has_global_methods == old(self).target().has_global_methods(*config),
            final(self).wf(),
            final(self).target() == old(self).target(),
            final(self).wrapper_name == old(self).wrapper_name,
            final(self).wrapped_type == old(self).wrapped_type,
    {
        let has_global = self.write_body(config, out, args);
        self.has_global_methods = has_global;
    }
}

} // verus!
