//! The shims of a link. Each import of the module from the foreign environment whose
//! field name is a symbol of the registry takes that snippet out of the registry and
//! gets a shim. A snippet that no import names gets none.

use vstd::prelude::*;
use vstd::string::StringExecFns;
use crate::registry::SymbolMap;
use crate::snippet::{Arg, JsMac, Snippet};
use crate::text::str_eq;
use crate::wasm::{imports_view, Import};

verus! {

/// The namespace from which a module imports its shims.
pub open spec fn env_namespace() -> Seq<char> {
    "env"@
}

/// Whether an import takes a snippet out of the registry `map`.
pub open spec fn hits(import: (Seq<char>, Seq<char>), map: Map<Seq<char>, Snippet>) -> bool {
    import.0 == env_namespace() && map.dom().contains(import.1)
}

/// The snippets that the imports take out of the registry, each with the field name
/// that took it, in the order of the imports. A snippet is taken once: a second
/// import of the same field name finds nothing.
pub open spec fn linked(imports: Seq<(Seq<char>, Seq<char>)>, map: Map<Seq<char>, Snippet>) -> Seq<
    (Seq<char>, Snippet),
>
    decreases imports.len(),
{
    if imports.len() == 0 {
        Seq::empty()
    } else if hits(imports[0], map) {
        seq![(imports[0].1, map[imports[0].1])] + linked(
            imports.drop_first(),
            map.remove(imports[0].1),
        )
    } else {
        linked(imports.drop_first(), map)
    }
}

/// What is left of the registry after the imports have taken their snippets.
pub open spec fn unlinked(imports: Seq<(Seq<char>, Seq<char>)>, map: Map<Seq<char>, Snippet>) -> Map<
    Seq<char>,
    Snippet,
>
    decreases imports.len(),
{
    if imports.len() == 0 {
        map
    } else if hits(imports[0], map) {
        unlinked(imports.drop_first(), map.remove(imports[0].1))
    } else {
        unlinked(imports.drop_first(), map)
    }
}

/// The names of the arguments in order, with a comma and a blank between one and the
/// next.
pub open spec fn arg_names(args: Seq<Arg>) -> Seq<char>
    decreases args.len(),
{
    if args.len() == 0 {
        Seq::empty()
    } else if args.len() == 1 {
        args[0].source_name()
    } else {
        arg_names(args.drop_last()) + ", "@ + args.last().source_name()
    }
}

/// The end of a shim: the body in braces, or empty braces and a line break where the
/// snippet has no body.
pub open spec fn shim_tail(body: Option<Seq<char>>) -> Seq<char> {
    match body {
        Some(text) => "){"@ + text + "}"@,
        None => "){}\n"@,
    }
}

/// The shim of one snippet: a function under the field name, with the snippet's
/// arguments in order and its body.
pub open spec fn shim(field: Seq<char>, s: Snippet) -> Seq<char> {
    field + ":function("@ + arg_names(s.args) + shim_tail(s.body)
}

/// The shims of `entries` in order, with a comma and a line break between one and the
/// next.
pub open spec fn shims_text(entries: Seq<(Seq<char>, Snippet)>) -> Seq<char>
    decreases entries.len(),
{
    if entries.len() == 0 {
        Seq::empty()
    } else if entries.len() == 1 {
        shim(entries[0].0, entries[0].1)
    } else {
        shims_text(entries.drop_last()) + ",\n"@ + shim(entries.last().0, entries.last().1)
    }
}

/// The text of all shims of a link.
pub open spec fn imports_text(
    imports: Seq<(Seq<char>, Seq<char>)>,
    map: Map<Seq<char>, Snippet>,
) -> Seq<char> {
    shims_text(linked(imports, map))
}

/// Appends the shim of `mac` under the name `field`.
pub fn push_shim(out: &mut String, field: &str, mac: &JsMac)
    ensures
        final(out)@ == old(out)@ + shim(field@, mac@),
{
    out.append(field);
    out.append(":function(");
    let ghost head = out@;
    let mut i: usize = 0;
    while i < mac.args.len()
        invariant
            i <= mac.args@.len(),
            mac@.args.len() == mac.args@.len(),
            out@ == head + arg_names(mac@.args.take(i as int)),
        decreases mac.args@.len() - i,
    {
        if i > 0 {
            out.append(", ");
        }
        out.append(mac.args[i].name().as_str());
        proof {
            let done = mac@.args.take(i + 1);
            assert(done.drop_last() =~= mac@.args.take(i as int));
        }
        i += 1;
    }
    assert(mac@.args.take(mac@.args.len() as int) =~= mac@.args);
    match &mac.body {
        Some(body) => {
            out.append("){");
            out.append(body.as_str());
            out.append("}");
        },
        None => {
            out.append("){}\n");
        },
    }
}

/// Writes the shims of a link: one for each import from the foreign environment whose
/// field name is a symbol of the registry. The snippets that got a shim leave the
/// registry; what stays in it was not imported.
pub fn emit_shims(imports: &[Import], symbol_map: &mut SymbolMap) -> (r: String)
    ensures
        r@ == imports_text(imports_view(imports@), old(symbol_map)@),
        final(symbol_map)@ == unlinked(imports_view(imports@), old(symbol_map)@),
{
    let ghost all = imports_view(imports@);
    let ghost start = symbol_map@;
    let ghost mut done: Seq<(Seq<char>, Snippet)> = Seq::empty();
    let mut out = String::new();
    let mut any = false;
    let mut i: usize = 0;
    assert(all.skip(0) =~= all);
    while i < imports.len()
        invariant
            i <= imports@.len(),
            all == imports_view(imports@),
            any == (done.len() > 0),
            out@ == shims_text(done),
            linked(all, start) == done + linked(all.skip(i as int), symbol_map@),
            unlinked(all, start) == unlinked(all.skip(i as int), symbol_map@),
        decreases imports@.len() - i,
    {
        let import = &imports[i];
        let ghost rest = all.skip(i as int);
        let ghost map = symbol_map@;
        assert(rest.drop_first() =~= all.skip(i + 1));
        if str_eq(import.module.as_str(), "env") {
            match symbol_map.remove(import.field.as_str()) {
                Some(mac) => {
                    if any {
                        out.append(",\n");
                    }
                    push_shim(&mut out, import.field.as_str(), &mac);
                    any = true;
                    proof {
                        let entry = (import.field@, mac@);
                        let next = done.push(entry);
                        assert(next.drop_last() =~= done);
                        done = next;
                    }
                },
                None => {
                    assert(symbol_map@ == map);
                },
            }
        }
        i += 1;
    }
    out
}

/// A field name that a shim was written for is the field name of an import from the
/// foreign environment.
pub proof fn lemma_linked_is_imported(
    imports: Seq<(Seq<char>, Seq<char>)>,
    map: Map<Seq<char>, Snippet>,
    k: int,
)
    requires
        0 <= k < linked(imports, map).len(),
    ensures
        imports.contains((env_namespace(), linked(imports, map)[k].0)),
        map.dom().contains(linked(imports, map)[k].0),
        map[linked(imports, map)[k].0] == linked(imports, map)[k].1,
    decreases imports.len(),
{
    let rest = imports.drop_first();
    if hits(imports[0], map) {
        if k > 0 {
            let less = map.remove(imports[0].1);
            lemma_linked_is_imported(rest, less, k - 1);
            let found = choose|n: int|
                0 <= n < rest.len() && rest[n] == (env_namespace(), linked(rest, less)[k - 1].0);
            assert(imports[found + 1] == rest[found]);
        }
    } else {
        lemma_linked_is_imported(rest, map, k);
        let found = choose|n: int|
            0 <= n < rest.len() && rest[n] == (env_namespace(), linked(rest, map)[k].0);
        assert(imports[found + 1] == rest[found]);
    }
}

/// A snippet of the registry whose symbol an import from the foreign environment
/// names gets a shim under that name.
pub proof fn lemma_imported_is_linked(
    imports: Seq<(Seq<char>, Seq<char>)>,
    map: Map<Seq<char>, Snippet>,
    n: int,
)
    requires
        0 <= n < imports.len(),
        hits(imports[n], map),
    ensures
        linked(imports, map).contains((imports[n].1, map[imports[n].1])),
    decreases imports.len(),
{
    let rest = imports.drop_first();
    let wanted = (imports[n].1, map[imports[n].1]);
    if hits(imports[0], map) {
        if imports[0].1 == imports[n].1 {
            assert(linked(imports, map)[0] == wanted);
        } else {
            let less = map.remove(imports[0].1);
            assert(rest[n - 1] == imports[n]);
            lemma_imported_is_linked(rest, less, n - 1);
            let k = choose|k: int| 0 <= k < linked(rest, less).len() && linked(rest, less)[k] == wanted;
            assert(linked(imports, map)[k + 1] == wanted);
        }
    } else {
        assert(rest[n - 1] == imports[n]);
        lemma_imported_is_linked(rest, map, n - 1);
    }
}

/// No snippet gets two shims: the field names of the shims differ from one another.
pub proof fn lemma_linked_once(
    imports: Seq<(Seq<char>, Seq<char>)>,
    map: Map<Seq<char>, Snippet>,
    i: int,
    j: int,
)
    requires
        0 <= i < j < linked(imports, map).len(),
    ensures
        linked(imports, map)[i].0 != linked(imports, map)[j].0,
    decreases imports.len(),
{
    let rest = imports.drop_first();
    if hits(imports[0], map) {
        let less = map.remove(imports[0].1);
        if i == 0 {
            lemma_linked_is_imported(rest, less, j - 1);
        } else {
            lemma_linked_once(rest, less, i - 1, j - 1);
        }
    } else {
        lemma_linked_once(rest, map, i, j);
    }
}

/// A snippet whose symbol no import from the foreign environment names gets no shim,
/// and stays in the registry.
pub proof fn lemma_unused_snippet_gets_no_shim(
    imports: Seq<(Seq<char>, Seq<char>)>,
    map: Map<Seq<char>, Snippet>,
    key: Seq<char>,
)
    requires
        !imports.contains((env_namespace(), key)),
    ensures
        forall|k: int| 0 <= k < linked(imports, map).len() ==> (#[trigger] linked(imports, map)[k]).0
            != key,
        map.dom().contains(key) ==> unlinked(imports, map).dom().contains(key) && unlinked(
            imports,
            map,
        )[key] == map[key],
{
    assert forall|k: int| 0 <= k < linked(imports, map).len() implies (#[trigger] linked(
        imports,
        map,
    )[k]).0 != key by {
        lemma_linked_is_imported(imports, map, k);
    }
    lemma_unlinked_keeps(imports, map, key);
}

/// A snippet whose symbol no import from the foreign environment names stays in the
/// registry.
proof fn lemma_unlinked_keeps(
    imports: Seq<(Seq<char>, Seq<char>)>,
    map: Map<Seq<char>, Snippet>,
    key: Seq<char>,
)
    requires
        !imports.contains((env_namespace(), key)),
    ensures
        map.dom().contains(key) ==> unlinked(imports, map).dom().contains(key) && unlinked(
            imports,
            map,
        )[key] == map[key],
    decreases imports.len(),
{
    if imports.len() > 0 {
        let rest = imports.drop_first();
        if hits(imports[0], map) {
            lemma_unlinked_keeps(rest, map.remove(imports[0].1), key);
        } else {
            lemma_unlinked_keeps(rest, map, key);
        }
    }
}

} // verus!
