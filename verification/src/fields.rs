//! Selection of fields: how the visible fields of a plain record are written out.

use crate::arg_validator::{
    spec_arg_text, spec_classify, spec_with_config, Arg, ArgType, ArgWrapperType,
};
use crate::config::Config;
use crate::graph::{item_docs, item_name, Item, ItemKind, TypeExpr, TypeGraph};
use crate::methods::write_item_docs;
use crate::names::{name_set_contains, name_set_items};
use crate::text::{same, spec_lines, spec_prefixed};
use indexmap::IndexSet;
use vstd::prelude::*;
use vstd::string::*;

verus! {

/// The annotation that keeps a field out of reflection.
pub open spec fn ignore_annotation() -> Seq<char> {
    "#[reflect(ignore)]"@
}

/// What is written for the type of a field that cannot be bound by its type: a
/// reflected value.
pub open spec fn reflected_value() -> Seq<char> {
    "Raw(ReflectedValue)"@
}

/// Whether a field carries the annotation that keeps it out of reflection.
pub open spec fn spec_is_ignored(field: Item) -> bool {
    exists|i: int| 0 <= i < field.attrs@.len() && (#[trigger] field.attrs@[i])@ == ignore_annotation()
}

/// The type of a field as it is written: with its wrapper where it has one, as a
/// reflected value where it cannot be classified or has none.
pub open spec fn spec_field_type_text(type_: TypeExpr, config: Config) -> Seq<char> {
    match spec_classify(type_, config) {
        Ok(a) => match spec_with_config(a, config) {
            Some(ArgWrapperType::Raw) => spec_arg_text(a, ArgWrapperType::Raw),
            Some(ArgWrapperType::Wrapped) => spec_arg_text(a, ArgWrapperType::Wrapped),
            _ => reflected_value(),
        },
        Err(_) => reflected_value(),
    }
}

/// The name of a field as it is written. A field that shares its name with a
/// method written out for the type goes by that name behind an underscore, under
/// an annotation that names the field itself.
pub open spec fn spec_field_name_text(name: Seq<char>, used: Seq<Seq<char>>) -> Seq<char> {
    if used.contains(name) {
        "#[rename(\""@ + name + "\")]\n"@ + "_"@ + name
    } else {
        name
    }
}

/// One field as it is written: its documentation line by line, its name, and its
/// type.
pub open spec fn spec_field_entry(
    field: Item,
    type_: TypeExpr,
    used: Seq<Seq<char>>,
    config: Config,
) -> Seq<char> {
    spec_prefixed("/// "@, spec_lines(item_docs(field))) + spec_field_name_text(
        item_name(field),
        used,
    ) + ": "@ + spec_field_type_text(type_, config) + ",\n"@
}

/// What a field id adds to the fields of its type: nothing where it resolves to no
/// field or to one kept out of reflection, else the field as it is written.
pub open spec fn spec_field_item_entry(
    items: Map<u64, Item>,
    id: u64,
    used: Seq<Seq<char>>,
    config: Config,
) -> Seq<char> {
    if items.contains_key(id) {
        match items[id].kind {
            ItemKind::Field { type_ } => if spec_is_ignored(items[id]) {
                Seq::empty()
            } else {
                spec_field_entry(items[id], type_, used, config)
            },
            _ => Seq::empty(),
        }
    } else {
        Seq::empty()
    }
}

/// What a sequence of field ids adds, in their order.
pub open spec fn spec_fields_text(
    items: Map<u64, Item>,
    ids: Seq<u64>,
    used: Seq<Seq<char>>,
    config: Config,
) -> Seq<char>
    decreases ids.len(),
{
    if ids.len() == 0 {
        Seq::empty()
    } else {
        spec_fields_text(items, ids.drop_last(), used, config) + spec_field_item_entry(
            items,
            ids.last(),
            used,
            config,
        )
    }
}

/// The fields of a type as they are written. Only a plain record has any.
pub open spec fn spec_fields_block(
    items: Map<u64, Item>,
    item: Item,
    used: Seq<Seq<char>>,
    config: Config,
) -> Seq<char> {
    match item.kind {
        ItemKind::Record { plain, fields, .. } => if plain {
            spec_fields_text(items, fields@, used, config)
        } else {
            Seq::empty()
        },
        _ => Seq::empty(),
    }
}

/// Tells whether a field carries the annotation that keeps it out of reflection.
pub fn is_ignored(field: &Item) -> (r: bool)
    ensures
        r == spec_is_ignored(*field),
{
    let mut i: usize = 0;
    while i < field.attrs.len()
        invariant
            i <= field.attrs.len(),
            forall|k: int| 0 <= k < i ==> (#[trigger] field.attrs@[k])@ != ignore_annotation(),
        decreases field.attrs.len() - i,
    {
        if same(field.attrs[i].as_str(), "#[reflect(ignore)]") {
            return true;
        }
        i = i + 1;
    }
    false
}

/// Appends the type of a field as it is written.
pub fn write_field_type(type_: &TypeExpr, self_type: &str, config: &Config, out: &mut String)
    ensures
        final(out)@ == old(out)@ + spec_field_type_text(*type_, *config),
{
    match ArgType::from_type(type_, config) {
        Ok(a) => {
            match ArgWrapperType::with_config(self_type, &a, config) {
                Some(ArgWrapperType::Raw) => {
                    Arg::new(a, ArgWrapperType::Raw).write(out);
                },
                Some(ArgWrapperType::Wrapped) => {
                    Arg::new(a, ArgWrapperType::Wrapped).write(out);
                },
                _ => {
                    out.append("Raw(ReflectedValue)");
                },
            }
        },
        Err(_) => {
            out.append("Raw(ReflectedValue)");
        },
    }
}

/// Appends one field as it is written.
pub fn write_field(
    field: &Item,
    type_: &TypeExpr,
    used: &IndexSet<String>,
    self_type: &str,
    config: &Config,
    out: &mut String,
)
    ensures
        final(out)@ == old(out)@ + spec_field_entry(*field, *type_, name_set_items(*used), *config),
{
    write_item_docs(field, out);
    let empty = String::new();
    let name = match &field.name {
        Some(n) => n,
        None => &empty,
    };
    if name_set_contains(used, name.as_str()) {
        out.append("#[rename(\"");
        out.append(name.as_str());
        out.append("\")]\n");
        out.append("_");
    }
    out.append(name.as_str());
    out.append(": ");
    write_field_type(type_, self_type, config, out);
    out.append(",\n");
    proof {
        assert(out@ =~= old(out)@ + spec_field_entry(
            *field,
            *type_,
            name_set_items(*used),
            *config,
        ));
    }
}

/// Appends the fields of a type as they are written.
pub fn write_fields(
    item: &Item,
    source: &TypeGraph,
    used: &IndexSet<String>,
    self_type: &str,
    config: &Config,
    out: &mut String,
)
    ensures
        final(out)@ == old(out)@ + spec_fields_block(
            source.items(),
            *item,
            name_set_items(*used),
            *config,
        ),
{
    proof {
        assert(old(out)@ + Seq::<char>::empty() =~= old(out)@);
    }
    match &item.kind {
        ItemKind::Record { plain, fields, impls: _ } => {
            if *plain {
                let mut i: usize = 0;
                while i < fields.len()
                    invariant
                        i <= fields.len(),
                        out@ == old(out)@ + spec_fields_text(
                            source.items(),
                            fields@.take(i as int),
                            name_set_items(*used),
                            *config,
                        ),
                    decreases fields.len() - i,
                {
                    proof {
                        assert(fields@.take(i + 1).drop_last() =~= fields@.take(i as int));
                    }
                    let ghost before = out@;
                    match source.get(fields[i]) {
                        Some(field) => {
                            match &field.kind {
                                ItemKind::Field { type_ } => {
                                    if !is_ignored(field) {
                                        write_field(field, type_, used, self_type, config, out);
                                    }
                                },
                                _ => {},
                            }
                        },
                        None => {},
                    }
                    proof {
                        let entry = spec_field_item_entry(
                            source.items(),
                            fields@[i as int],
                            name_set_items(*used),
                            *config,
                        );
                        assert(out@ =~= before + entry);
                        assert(out@ =~= old(out)@ + (spec_fields_text(
                            source.items(),
                            fields@.take(i as int),
                            name_set_items(*used),
                            *config,
                        ) + entry));
                    }
                    i = i + 1;
                }
                proof {
                    assert(fields@.take(fields.len() as int) =~= fields@);
                }
            }
        },
        _ => {},
    }
}

} // verus!
