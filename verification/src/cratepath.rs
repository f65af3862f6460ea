//! Module paths: where a bound type lives, and how it is imported.

use crate::graph::TypeGraph;
use vstd::prelude::*;
use vstd::string::*;

verus! {

/// The module path of the item with the given id, as the path table of its graph
/// holds it. There is none where the table has no entry for the id.
pub fn get_path(id: u64, source: &TypeGraph) -> (r: Option<&Vec<String>>)
    ensures
        r == if source.paths().contains_key(id) {
            Some(&source.paths()[id])
        } else {
            None
        },
{
    source.get_path(id)
}

/// The root module as it is imported. A root whose name begins with `bevy` and goes
/// on behind it is reached through the umbrella module `bevy`: the prefix and the
/// character that follows it give way to `bevy::`. Any other root stays as it is.
pub open spec fn spec_import_root(module: Seq<char>) -> Seq<char> {
    if module.len() > 4 && module.take(4) == "bevy"@ {
        "bevy::"@ + module.skip(5)
    } else {
        module
    }
}

/// The segments of a path, each behind a `::`.
pub open spec fn spec_path_tail(parts: Seq<String>) -> Seq<char>
    decreases parts.len(),
{
    if parts.len() == 0 {
        Seq::empty()
    } else {
        spec_path_tail(parts.drop_last()) + "::"@ + parts.last()@
    }
}

/// The import of one bound type: the override where the configuration gives one,
/// else the root module as it is imported, followed by the rest of the path.
pub open spec fn spec_use_item(module: Seq<char>, parts: Seq<String>, import_path: Seq<char>) -> Seq<
    char,
> {
    if import_path.len() > 0 {
        "use "@ + import_path + ";\n"@
    } else {
        "use "@ + spec_import_root(module) + spec_path_tail(parts) + ";\n"@
    }
}

/// Appends the root module as it is imported.
pub fn write_import_root(module_name: &str, out: &mut String)
    ensures
        final(out)@ == old(out)@ + spec_import_root(module_name@),
{
    let n = module_name.unicode_len();
    if n > 4 && crate::text::same(module_name.substring_char(0, 4), "bevy") {
        out.append("bevy::");
        out.append(module_name.substring_char(5, n));
        assert(out@ =~= old(out)@ + spec_import_root(module_name@));
    } else {
        out.append(module_name);
    }
}

/// Appends the import of one bound type.
pub fn write_use_items_from_path(
    module_name: &str,
    path_components: &[String],
    import_path: &String,
    out: &mut String,
)
    ensures
        final(out)@ == old(out)@ + spec_use_item(module_name@, path_components@, import_path@),
{
    out.append("use ");
    if !import_path.as_str().is_empty() {
        out.append(import_path.as_str());
    } else {
        write_import_root(module_name, out);
        let mut i: usize = 0;
        while i < path_components.len()
            invariant
                i <= path_components.len(),
                out@ == old(out)@ + "use "@ + spec_import_root(module_name@) + spec_path_tail(
                    path_components@.take(i as int),
                ),
            decreases path_components.len() - i,
        {
            proof {
                let p = path_components@;
                assert(p.take(i + 1).drop_last() =~= p.take(i as int));
            }
            out.append("::");
            out.append(path_components[i].as_str());
            i = i + 1;
        }
        proof {
            assert(path_components@.take(path_components.len() as int) =~= path_components@);
        }
    }
    out.append(";\n");
    assert(out@ =~= old(out)@ + spec_use_item(module_name@, path_components@, import_path@));
}

/// The position behind the last `::` among the first `n` characters of a path; the
/// start of the path where there is none.
pub open spec fn segment_start(path: Seq<char>, n: int) -> int
    decreases n,
{
    if n < 2 {
        0
    } else if path[n - 2] == ':' && path[n - 1] == ':' {
        n
    } else {
        segment_start(path, n - 1)
    }
}

/// The last segment of a path: what follows its last `::`, or all of it.
pub open spec fn spec_last_segment(path: Seq<char>) -> Seq<char> {
    path.skip(segment_start(path, path.len() as int))
}

/// Gives the last segment of a path, which is the name of what the path leads to.
pub fn last_segment(path: &str) -> (r: String)
    ensures
        r@ == spec_last_segment(path@),
{
    let n = path.unicode_len();
    let mut start: usize = 0;
    let mut i: usize = 0;
    let mut after_colon = false;
    for c in it: path.chars()
        invariant
            it.seq() == path@,
            n == path@.len(),
            i == it.index(),
            start == segment_start(path@, i as int),
            start <= i,
            after_colon == (i > 0 && path@[i - 1] == ':'),
    {
        if c == ':' && after_colon {
            start = i + 1;
        }
        after_colon = c == ':';
        i = i + 1;
    }
    String::from_str(path.substring_char(start, n))
}

} // verus!
