//! Merging the manifests of all units of a link into one registry and one prelude.

use vstd::prelude::*;
use vstd::string::StringExecFns;
use crate::registry::{merge_one, merge_snippets, Clash, CollisionError, SymbolMap};
use crate::snippet::{JsMac, Snippet};
use crate::symbol::symbol;

verus! {

/// The model of a manifest.
pub struct Unit {
    pub snippets: Seq<Snippet>,
    pub prelude: Seq<char>,
}

/// What one compiled unit declares: its snippets, in source order, and the code that
/// is to run before the module is loaded.
#[derive(Debug)]
pub struct Manifest {
    pub snippets: Vec<JsMac>,
    pub prelude: String,
}

/// The models of the snippets in `list`, in order.
pub open spec fn snippets_view(list: Seq<JsMac>) -> Seq<Snippet> {
    Seq::new(list.len(), |i: int| list[i]@)
}

impl View for Manifest {
    type V = Unit;

    open spec fn view(&self) -> Unit {
        Unit { snippets: snippets_view(self.snippets@), prelude: self.prelude@ }
    }
}

/// The models of the manifests in `list`, in order.
pub open spec fn units_view(list: Seq<Manifest>) -> Seq<Unit> {
    Seq::new(list.len(), |i: int| list[i]@)
}

/// The registry after the snippets of all `units` are added, unit by unit: the first
/// clash, where there is one.
pub open spec fn merge_units(map: Map<Seq<char>, Snippet>, units: Seq<Unit>) -> Result<
    Map<Seq<char>, Snippet>,
    Clash,
>
    decreases units.len(),
{
    if units.len() == 0 {
        Ok(map)
    } else {
        match merge_snippets(map, units[0].snippets) {
            Ok(next) => merge_units(next, units.drop_first()),
            Err(clash) => Err(clash),
        }
    }
}

/// The registry of a link: that of all `units`, starting from an empty one.
pub open spec fn registry_of(units: Seq<Unit>) -> Result<Map<Seq<char>, Snippet>, Clash> {
    merge_units(Map::empty(), units)
}

/// The preludes of `units` in order, with a line break between one and the next.
pub open spec fn preludes(units: Seq<Unit>) -> Seq<char>
    decreases units.len(),
{
    if units.len() == 0 {
        Seq::empty()
    } else if units.len() == 1 {
        units[0].prelude
    } else {
        preludes(units.drop_last()) + "\n"@ + units.last().prelude
    }
}

/// The merged view of a link: the registry of all snippets and the prelude of all
/// units.
#[derive(Debug)]
pub struct Aggregate {
    pub symbol_map: SymbolMap,
    pub prelude: String,
}

/// Merges the manifests of a link, in the order given. Two different snippets under
/// one symbol end the merge with a collision that names both.
pub fn merge_manifests(manifests: &[Manifest]) -> (r: Result<Aggregate, CollisionError>)
    ensures
        match registry_of(units_view(manifests@)) {
            Ok(map) => r matches Ok(a) && a.symbol_map@ == map && a.prelude@ == preludes(
                units_view(manifests@),
            ),
            Err(clash) => r matches Err(e) && e@ == clash,
        },
{
    let ghost all = units_view(manifests@);
    let mut symbol_map = SymbolMap::new();
    let mut prelude = String::new();
    let mut u: usize = 0;
    assert(all.skip(0) =~= all);
    while u < manifests.len()
        invariant
            u <= manifests@.len(),
            all == units_view(manifests@),
            registry_of(all) == merge_units(symbol_map@, all.skip(u as int)),
            prelude@ == preludes(all.take(u as int)),
        decreases manifests@.len() - u,
    {
        let manifest = &manifests[u];
        let ghost list = all[u as int].snippets;
        let ghost start = symbol_map@;
        assert(all.skip(u as int).drop_first() =~= all.skip(u + 1));
        let mut k: usize = 0;
        assert(list.skip(0) =~= list);
        let ghost whole = match merge_snippets(start, list) {
            Ok(next) => merge_units(next, all.skip(u + 1)),
            Err(clash) => Err(clash),
        };
        while k < manifest.snippets.len()
            invariant
                k <= manifest.snippets@.len(),
                list == snippets_view(manifest.snippets@),
                registry_of(units_view(manifests@)) == whole,
                whole == match merge_snippets(start, list) {
                    Ok(next) => merge_units(next, all.skip(u + 1)),
                    Err(clash) => Err(clash),
                },
                merge_snippets(start, list) == merge_snippets(symbol_map@, list.skip(k as int)),
            decreases manifest.snippets@.len() - k,
        {
            assert(list.skip(k as int).drop_first() =~= list.skip(k + 1));
            match symbol_map.insert(manifest.snippets[k].clone()) {
                Ok(()) => {},
                Err(e) => {
                    return Err(e);
                },
            }
            k += 1;
        }
        if u > 0 {
            prelude.append("\n");
        }
        prelude.append(manifest.prelude.as_str());
        proof {
            let done = all.take(u + 1);
            assert(done.drop_last() =~= all.take(u as int));
        }
        u += 1;
    }
    Ok(Aggregate { symbol_map, prelude })
}

/// A snippet that the registry holds stays in it, unchanged, when more snippets are
/// merged without a clash.
proof fn lemma_merge_keeps(map: Map<Seq<char>, Snippet>, list: Seq<Snippet>, key: Seq<char>)
    requires
        map.dom().contains(key),
        merge_snippets(map, list) is Ok,
    ensures
        merge_snippets(map, list)->Ok_0.dom().contains(key),
        merge_snippets(map, list)->Ok_0[key] == map[key],
    decreases list.len(),
{
    if list.len() > 0 {
        let next = merge_one(map, list[0])->Ok_0;
        lemma_merge_keeps(next, list.drop_first(), key);
    }
}

/// A snippet that differs from the one that the registry holds under its symbol makes
/// the merge fail, wherever in the list it stands.
proof fn lemma_merge_finds_clash(map: Map<Seq<char>, Snippet>, list: Seq<Snippet>, j: int)
    requires
        0 <= j < list.len(),
        map.dom().contains(symbol(list[j])),
        map[symbol(list[j])] != list[j],
    ensures
        merge_snippets(map, list) is Err,
    decreases list.len(),
{
    if j > 0 {
        match merge_one(map, list[0]) {
            Ok(next) => {
                let rest = list.drop_first();
                lemma_merge_finds_clash(next, rest, j - 1);
            },
            Err(_) => {},
        }
    }
}

/// Two different snippets with the same symbol in one list make the merge of that
/// list fail.
proof fn lemma_clash_in_list(map: Map<Seq<char>, Snippet>, list: Seq<Snippet>, i: int, j: int)
    requires
        0 <= i < j < list.len(),
        symbol(list[i]) == symbol(list[j]),
        list[i] != list[j],
    ensures
        merge_snippets(map, list) is Err,
    decreases list.len(),
{
    match merge_one(map, list[0]) {
        Ok(next) => {
            let rest = list.drop_first();
            if i == 0 {
                lemma_merge_finds_clash(next, rest, j - 1);
            } else {
                lemma_clash_in_list(next, rest, i - 1, j - 1);
            }
        },
        Err(_) => {},
    }
}

/// After a merge without a clash, the registry holds each snippet of the list under
/// its symbol.
proof fn lemma_merge_holds(map: Map<Seq<char>, Snippet>, list: Seq<Snippet>, i: int)
    requires
        0 <= i < list.len(),
        merge_snippets(map, list) is Ok,
    ensures
        merge_snippets(map, list)->Ok_0.dom().contains(symbol(list[i])),
        merge_snippets(map, list)->Ok_0[symbol(list[i])] == list[i],
    decreases list.len(),
{
    let next = merge_one(map, list[0])->Ok_0;
    let rest = list.drop_first();
    if i == 0 {
        lemma_merge_keeps(next, rest, symbol(list[0]));
    } else {
        lemma_merge_holds(next, rest, i - 1);
    }
}

/// A snippet that differs from the one that the registry holds under its symbol makes
/// the merge of the units fail, in whichever unit it stands.
proof fn lemma_units_find_clash(map: Map<Seq<char>, Snippet>, units: Seq<Unit>, b: int, j: int)
    requires
        0 <= b < units.len(),
        0 <= j < units[b].snippets.len(),
        map.dom().contains(symbol(units[b].snippets[j])),
        map[symbol(units[b].snippets[j])] != units[b].snippets[j],
    ensures
        merge_units(map, units) is Err,
    decreases units.len(),
{
    if b == 0 {
        lemma_merge_finds_clash(map, units[0].snippets, j);
    } else {
        match merge_snippets(map, units[0].snippets) {
            Ok(next) => {
                let rest = units.drop_first();
                lemma_merge_keeps(map, units[0].snippets, symbol(units[b].snippets[j]));
                lemma_units_find_clash(next, rest, b - 1, j);
            },
            Err(_) => {},
        }
    }
}

/// Whether the place `(a, i)` comes before the place `(b, j)`, where a place is a unit
/// and a position among its snippets.
pub open spec fn comes_before(a: int, i: int, b: int, j: int) -> bool {
    a < b || (a == b && i < j)
}

/// Two different snippets with the same symbol, anywhere among the units of a link,
/// make the merge fail: no registry comes out of it.
pub proof fn lemma_collision_is_fatal(
    map: Map<Seq<char>, Snippet>,
    units: Seq<Unit>,
    a: int,
    i: int,
    b: int,
    j: int,
)
    requires
        0 <= a < units.len(),
        0 <= b < units.len(),
        0 <= i < units[a].snippets.len(),
        0 <= j < units[b].snippets.len(),
        comes_before(a, i, b, j),
        symbol(units[a].snippets[i]) == symbol(units[b].snippets[j]),
        units[a].snippets[i] != units[b].snippets[j],
    ensures
        merge_units(map, units) is Err,
    decreases units.len(),
{
    let rest = units.drop_first();
    match merge_snippets(map, units[0].snippets) {
        Ok(next) => {
            if a == 0 {
                if b == 0 {
                    lemma_clash_in_list(map, units[0].snippets, i, j);
                } else {
                    lemma_merge_holds(map, units[0].snippets, i);
                    lemma_units_find_clash(next, rest, b - 1, j);
                }
            } else {
                lemma_collision_is_fatal(next, rest, a - 1, i, b - 1, j);
            }
        },
        Err(_) => {},
    }
}

/// Whether the snippet `s` stands somewhere among the units.
pub open spec fn among(units: Seq<Unit>, s: Snippet) -> bool {
    exists|a: int, i: int|
        0 <= a < units.len() && 0 <= i < units[a].snippets.len() && (
        #[trigger] units[a].snippets[i]) == s
}

/// Whether every snippet of the registry stands under its own symbol and satisfies
/// `known`.
pub open spec fn all_known(map: Map<Seq<char>, Snippet>, known: spec_fn(Snippet) -> bool) -> bool {
    forall|key: Seq<char>| #[trigger]
        map.dom().contains(key) ==> symbol(map[key]) == key && known(map[key])
}

/// What a merge of a list says of its result, where the registry before and the list
/// hold known snippets only: a registry that comes out holds known snippets only, and
/// a clash that comes out names two different known snippets that have the symbol of
/// the clash.
proof fn lemma_merge_is_sound(
    map: Map<Seq<char>, Snippet>,
    list: Seq<Snippet>,
    known: spec_fn(Snippet) -> bool,
)
    requires
        all_known(map, known),
        forall|i: int| 0 <= i < list.len() ==> known(#[trigger] list[i]),
    ensures
        match merge_snippets(map, list) {
            Ok(merged) => all_known(merged, known),
            Err(clash) => {
                &&& clash.existing != clash.incoming
                &&& symbol(clash.existing) == clash.symbol
                &&& symbol(clash.incoming) == clash.symbol
                &&& known(clash.existing)
                &&& known(clash.incoming)
            },
        },
    decreases list.len(),
{
    if list.len() > 0 {
        match merge_one(map, list[0]) {
            Ok(next) => {
                let rest = list.drop_first();
                assert forall|i: int| 0 <= i < rest.len() implies known(#[trigger] rest[i]) by {
                    assert(rest[i] == list[i + 1]);
                }
                lemma_merge_is_sound(next, rest, known);
            },
            Err(_) => {
                assert(map.dom().contains(symbol(list[0])));
            },
        }
    }
}

/// What a merge of units says of its result, where the registry before and the units
/// hold known snippets only.
proof fn lemma_units_merge_is_sound(
    map: Map<Seq<char>, Snippet>,
    units: Seq<Unit>,
    known: spec_fn(Snippet) -> bool,
)
    requires
        all_known(map, known),
        forall|a: int, i: int|
            0 <= a < units.len() && 0 <= i < units[a].snippets.len() ==> known(
                #[trigger] units[a].snippets[i],
            ),
    ensures
        match merge_units(map, units) {
            Ok(merged) => all_known(merged, known),
            Err(clash) => {
                &&& clash.existing != clash.incoming
                &&& symbol(clash.existing) == clash.symbol
                &&& symbol(clash.incoming) == clash.symbol
                &&& known(clash.existing)
                &&& known(clash.incoming)
            },
        },
    decreases units.len(),
{
    if units.len() > 0 {
        lemma_merge_is_sound(map, units[0].snippets, known);
        match merge_snippets(map, units[0].snippets) {
            Ok(next) => {
                let rest = units.drop_first();
                assert forall|a: int, i: int|
                    0 <= a < rest.len() && 0 <= i < rest[a].snippets.len() implies known(
                    #[trigger] rest[a].snippets[i],
                ) by {
                    assert(rest[a] == units[a + 1]);
                }
                lemma_units_merge_is_sound(next, rest, known);
            },
            Err(_) => {},
        }
    }
}

/// A collision is real: the two snippets that it names stand among the units, differ,
/// and have the symbol that it names.
pub proof fn lemma_collision_names_two_snippets(units: Seq<Unit>)
    ensures
        registry_of(units) matches Err(clash) ==> {
            &&& clash.existing != clash.incoming
            &&& symbol(clash.existing) == clash.symbol
            &&& symbol(clash.incoming) == clash.symbol
            &&& among(units, clash.existing)
            &&& among(units, clash.incoming)
        },
{
    lemma_units_merge_is_sound(Map::empty(), units, |s: Snippet| among(units, s));
}

/// The registry of a link holds the snippets of its units and nothing else: each
/// snippet of a unit stands in it under its symbol, and each snippet in it stands
/// under its symbol and among the units.
pub proof fn lemma_registry_holds_the_units(units: Seq<Unit>)
    ensures
        registry_of(units) matches Ok(map) ==> {
            &&& forall|s: Snippet| #[trigger]
                among(units, s) ==> map.dom().contains(symbol(s)) && map[symbol(s)] == s
            &&& forall|key: Seq<char>| #[trigger]
                map.dom().contains(key) ==> symbol(map[key]) == key && among(units, map[key])
        },
{
    if let Ok(map) = registry_of(units) {
        lemma_units_merge_is_sound(Map::empty(), units, |s: Snippet| among(units, s));
        assert forall|s: Snippet| #[trigger] among(units, s) implies map.dom().contains(symbol(s))
            && map[symbol(s)] == s by {
            let (a, i) = choose|a: int, i: int|
                0 <= a < units.len() && 0 <= i < units[a].snippets.len() && (
                #[trigger] units[a].snippets[i]) == s;
            lemma_units_hold(Map::empty(), units, a, i);
        }
    }
}

/// After a merge of units without a clash, the registry holds each snippet of each
/// unit under its symbol.
proof fn lemma_units_hold(map: Map<Seq<char>, Snippet>, units: Seq<Unit>, a: int, i: int)
    requires
        0 <= a < units.len(),
        0 <= i < units[a].snippets.len(),
        merge_units(map, units) is Ok,
    ensures
        merge_units(map, units)->Ok_0.dom().contains(symbol(units[a].snippets[i])),
        merge_units(map, units)->Ok_0[symbol(units[a].snippets[i])] == units[a].snippets[i],
    decreases units.len(),
{
    let next = merge_snippets(map, units[0].snippets)->Ok_0;
    let rest = units.drop_first();
    if a == 0 {
        lemma_merge_holds(map, units[0].snippets, i);
        lemma_units_keep(next, rest, symbol(units[0].snippets[i]));
    } else {
        assert(rest[a - 1] == units[a]);
        lemma_units_hold(next, rest, a - 1, i);
    }
}

/// A snippet that the registry holds stays in it, unchanged, when units are merged
/// without a clash.
proof fn lemma_units_keep(map: Map<Seq<char>, Snippet>, units: Seq<Unit>, key: Seq<char>)
    requires
        map.dom().contains(key),
        merge_units(map, units) is Ok,
    ensures
        merge_units(map, units)->Ok_0.dom().contains(key),
        merge_units(map, units)->Ok_0[key] == map[key],
    decreases units.len(),
{
    if units.len() > 0 {
        lemma_merge_keeps(map, units[0].snippets, key);
        lemma_units_keep(merge_snippets(map, units[0].snippets)->Ok_0, units.drop_first(), key);
    }
}

/// A snippet that the registry holds already, under its own symbol, changes nothing
/// when it is merged again.
pub proof fn lemma_duplicate_changes_nothing(map: Map<Seq<char>, Snippet>, s: Snippet)
    requires
        map.dom().contains(symbol(s)),
        map[symbol(s)] == s,
    ensures
        merge_one(map, s) == Ok::<Map<Seq<char>, Snippet>, Clash>(map),
{
    assert(map.insert(symbol(s), s) =~= map);
}

} // verus!
