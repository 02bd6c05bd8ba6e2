//! The registry of a link: every snippet of every unit, under its symbol. Two
//! different snippets never share a symbol in it.

use vstd::prelude::*;
use crate::snippet::{JsMac, Snippet};
use crate::symbol::{symbol, symbol_name};
use crate::text::str_eq;

verus! {

/// One snippet of the registry, with the symbol it stands under.
#[derive(Debug)]
struct Entry {
    symbol: String,
    mac: JsMac,
}

/// The map that a list of entries stands for; of two entries under one symbol, the
/// later one counts.
spec fn entries_map(entries: Seq<Entry>) -> Map<Seq<char>, Snippet>
    decreases entries.len(),
{
    if entries.len() == 0 {
        Map::empty()
    } else {
        entries_map(entries.drop_last()).insert(entries.last().symbol@, entries.last().mac@)
    }
}

/// No two entries stand under the same symbol.
spec fn distinct(entries: Seq<Entry>) -> bool {
    forall|i: int, j: int|
        0 <= i < j < entries.len() ==> (#[trigger] entries[i]).symbol@ != (
        #[trigger] entries[j]).symbol@
}

/// A symbol is in the map of a list of entries exactly if an entry stands under it.
proof fn lemma_entries_dom(entries: Seq<Entry>, key: Seq<char>)
    ensures
        entries_map(entries).dom().contains(key) <==> exists|i: int|
            0 <= i < entries.len() && (#[trigger] entries[i]).symbol@ == key,
    decreases entries.len(),
{
    if entries.len() > 0 {
        let front = entries.drop_last();
        lemma_entries_dom(front, key);
        if entries_map(entries).dom().contains(key) && entries.last().symbol@ != key {
            let i = choose|i: int| 0 <= i < front.len() && (#[trigger] front[i]).symbol@ == key;
            assert(entries[i].symbol@ == key);
        }
        if exists|i: int| 0 <= i < entries.len() && (#[trigger] entries[i]).symbol@ == key {
            let i = choose|i: int| 0 <= i < entries.len() && (#[trigger] entries[i]).symbol@ == key;
            if i < entries.len() - 1 {
                assert(front[i].symbol@ == key);
            }
        }
    }
}

/// Where no symbol occurs twice, the map holds each entry's snippet under its symbol.
proof fn lemma_entries_value(entries: Seq<Entry>, i: int)
    requires
        distinct(entries),
        0 <= i < entries.len(),
    ensures
        entries_map(entries).dom().contains(entries[i].symbol@),
        entries_map(entries)[entries[i].symbol@] == entries[i].mac@,
    decreases entries.len(),
{
    let front = entries.drop_last();
    if i < entries.len() - 1 {
        lemma_entries_value(front, i);
    }
}

/// Where no symbol occurs twice, taking an entry out of the list takes its symbol out
/// of the map.
proof fn lemma_entries_remove(entries: Seq<Entry>, i: int)
    requires
        distinct(entries),
        0 <= i < entries.len(),
    ensures
        distinct(entries.remove(i)),
        entries_map(entries.remove(i)) == entries_map(entries).remove(entries[i].symbol@),
    decreases entries.len(),
{
    let rest = entries.remove(i);
    let front = entries.drop_last();
    let key = entries[i].symbol@;
    if i == entries.len() - 1 {
        lemma_entries_dom(front, key);
        if entries_map(front).dom().contains(key) {
            let k = choose|k: int| 0 <= k < front.len() && (#[trigger] front[k]).symbol@ == key;
            assert(entries[k].symbol@ != entries[i].symbol@);
        }
    } else {
        lemma_entries_remove(front, i);
        assert(rest.drop_last() =~= front.remove(i));
    }
}

/// Two different snippets that share a symbol.
pub struct Clash {
    /// The symbol that both snippets have.
    pub symbol: Seq<char>,
    /// The snippet that the registry held under the symbol.
    pub existing: Snippet,
    /// The snippet that was to be added under it.
    pub incoming: Snippet,
}

/// The registry after `s` is added under `key`: a clash where the registry holds
/// another snippet under `key`.
pub open spec fn merge_under(map: Map<Seq<char>, Snippet>, key: Seq<char>, s: Snippet) -> Result<
    Map<Seq<char>, Snippet>,
    Clash,
> {
    if map.dom().contains(key) && map[key] != s {
        Err(Clash { symbol: key, existing: map[key], incoming: s })
    } else {
        Ok(map.insert(key, s))
    }
}

/// The registry after `s` is added under its symbol.
pub open spec fn merge_one(map: Map<Seq<char>, Snippet>, s: Snippet) -> Result<
    Map<Seq<char>, Snippet>,
    Clash,
> {
    merge_under(map, symbol(s), s)
}

/// The registry after the snippets of `list` are added in order: the first clash,
/// where there is one.
pub open spec fn merge_snippets(map: Map<Seq<char>, Snippet>, list: Seq<Snippet>) -> Result<
    Map<Seq<char>, Snippet>,
    Clash,
>
    decreases list.len(),
{
    if list.len() == 0 {
        Ok(map)
    } else {
        match merge_one(map, list[0]) {
            Ok(next) => merge_snippets(next, list.drop_first()),
            Err(clash) => Err(clash),
        }
    }
}

/// Two snippets that could not both stand in the registry: they differ and have the
/// same symbol.
#[derive(Debug)]
pub struct CollisionError {
    /// The symbol that both snippets have.
    pub symbol: String,
    /// The snippet that the registry held under the symbol.
    pub existing: JsMac,
    /// The snippet that was to be added under it.
    pub incoming: JsMac,
}

impl View for CollisionError {
    type V = Clash;

    open spec fn view(&self) -> Clash {
        Clash { symbol: self.symbol@, existing: self.existing@, incoming: self.incoming@ }
    }
}

/// The snippets of a link, each under its symbol. No symbol stands in it twice.
#[derive(Debug)]
pub struct SymbolMap {
    entries: Vec<Entry>,
}

impl View for SymbolMap {
    type V = Map<Seq<char>, Snippet>;

    closed spec fn view(&self) -> Map<Seq<char>, Snippet> {
        entries_map(self.entries@)
    }
}

impl SymbolMap {
    #[verifier::type_invariant]
    spec fn wf(&self) -> bool {
        distinct(self.entries@)
    }

    /// An empty registry.
    pub fn new() -> (r: SymbolMap)
        ensures
            r@ == Map::<Seq<char>, Snippet>::empty(),
    {
        SymbolMap { entries: Vec::new() }
    }

    /// The number of snippets in the registry.
    pub fn len(&self) -> (r: usize)
        ensures
            r == self@.dom().len(),
            self@.dom().finite(),
    {
        proof {
            use_type_invariant(self);
            lemma_entries_len(self.entries@);
        }
        self.entries.len()
    }

    /// Where the entry under `symbol` stands, if there is one.
    fn position(&self, symbol: &str) -> (r: Option<usize>)
        ensures
            r is Some <==> self@.dom().contains(symbol@),
            r matches Some(i) ==> i < self.entries@.len() && self.entries@[i as int].symbol@
                == symbol@ && self@[symbol@] == self.entries@[i as int].mac@,
            r is None ==> forall|j: int|
                0 <= j < self.entries@.len() ==> (#[trigger] self.entries@[j]).symbol@ != symbol@,
    {
        proof {
            use_type_invariant(self);
        }
        let mut i: usize = 0;
        while i < self.entries.len()
            invariant
                i <= self.entries@.len(),
                distinct(self.entries@),
                forall|j: int| 0 <= j < i ==> (#[trigger] self.entries@[j]).symbol@ != symbol@,
            decreases self.entries@.len() - i,
        {
            if str_eq(self.entries[i].symbol.as_str(), symbol) {
                proof {
                    lemma_entries_value(self.entries@, i as int);
                }
                return Some(i);
            }
            i += 1;
        }
        proof {
            lemma_entries_dom(self.entries@, symbol@);
        }
        None
    }

    /// The snippet under `symbol`, if there is one.
    pub fn get(&self, symbol: &str) -> (r: Option<&JsMac>)
        ensures
            r is Some <==> self@.dom().contains(symbol@),
            r matches Some(mac) ==> mac@ == self@[symbol@],
    {
        match self.position(symbol) {
            Some(i) => Some(&self.entries[i].mac),
            None => None,
        }
    }

    /// Takes the snippet under `symbol` out of the registry, if there is one.
    pub fn remove(&mut self, symbol: &str) -> (r: Option<JsMac>)
        ensures
            final(self)@ == old(self)@.remove(symbol@),
            r is Some <==> old(self)@.dom().contains(symbol@),
            r matches Some(mac) ==> mac@ == old(self)@[symbol@],
    {
        proof {
            use_type_invariant(&*self);
        }
        match self.position(symbol) {
            Some(i) => {
                proof {
                    lemma_entries_remove(self.entries@, i as int);
                }
                let mut entries: Vec<Entry> = Vec::new();
                core::mem::swap(&mut self.entries, &mut entries);
                let entry = entries.remove(i);
                self.entries = entries;
                Some(entry.mac)
            },
            None => {
                None
            },
        }
    }

    /// Adds `mac` under `symbol`. Where the registry holds the same snippet under that
    /// symbol already, nothing changes; where it holds another one, the two are
    /// returned as a collision and the registry stays as it was.
    pub fn insert_under(&mut self, symbol: String, mac: JsMac) -> (r: Result<(), CollisionError>)
        ensures
            match merge_under(old(self)@, symbol@, mac@) {
                Ok(map) => r is Ok && final(self)@ == map,
                Err(clash) => r matches Err(e) && e@ == clash && final(self)@ == old(self)@,
            },
    {
        proof {
            use_type_invariant(&*self);
        }
        match self.position(symbol.as_str()) {
            Some(i) => {
                if self.entries[i].mac.same(&mac) {
                    Ok(())
                } else {
                    let existing = self.entries[i].mac.clone();
                    Err(CollisionError { symbol, existing, incoming: mac })
                }
            },
            None => {
                let ghost before = self.entries@;
                let entry = Entry { symbol, mac };
                proof {
                    let after = before.push(entry);
                    assert(after.drop_last() =~= before);
                }
                let mut entries: Vec<Entry> = Vec::new();
                core::mem::swap(&mut self.entries, &mut entries);
                entries.push(entry);
                self.entries = entries;
                Ok(())
            },
        }
    }

    /// Adds `mac` under its own symbol.
    pub fn insert(&mut self, mac: JsMac) -> (r: Result<(), CollisionError>)
        ensures
            match merge_one(old(self)@, mac@) {
                Ok(map) => r is Ok && final(self)@ == map,
                Err(clash) => r matches Err(e) && e@ == clash && final(self)@ == old(self)@,
            },
    {
        let symbol = symbol_name(&mac);
        self.insert_under(symbol, mac)
    }
}

/// Where no symbol occurs twice, the map has as many symbols as the list has entries.
proof fn lemma_entries_len(entries: Seq<Entry>)
    requires
        distinct(entries),
    ensures
        entries_map(entries).dom().finite(),
        entries_map(entries).dom().len() == entries.len(),
    decreases entries.len(),
{
    if entries.len() > 0 {
        let front = entries.drop_last();
        let key = entries.last().symbol@;
        lemma_entries_len(front);
        lemma_entries_dom(front, key);
        if entries_map(front).dom().contains(key) {
            let k = choose|k: int| 0 <= k < front.len() && (#[trigger] front[k]).symbol@ == key;
            assert(entries[k].symbol@ != entries.last().symbol@);
        }
    }
}

} // verus!
