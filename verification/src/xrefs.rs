//! The cross-reference index: for each table, the instructions that refer to it.
use std::collections::BTreeMap;
use vstd::prelude::*;

verus! {

/// For each table address, the addresses of the instructions that refer to it,
/// in the order in which they were recorded. An address may occur twice in a
/// list. Nothing is ever taken out.
#[derive(Debug)]
pub struct XrefIndex {
    sites: BTreeMap<u64, Vec<u64>>,
}

impl View for XrefIndex {
    type V = Map<u64, Seq<u64>>;

    closed spec fn view(&self) -> Map<u64, Seq<u64>> {
        self.sites@.map_values(|list: Vec<u64>| list@)
    }
}

/// The list that `index` holds for `table`; empty if it holds none.
pub open spec fn references(index: Map<u64, Seq<u64>>, table: u64) -> Seq<u64> {
    if index.contains_key(table) {
        index[table]
    } else {
        Seq::empty()
    }
}

impl XrefIndex {
    /// An index without entries.
    pub fn new() -> (index: XrefIndex)
        ensures
            index@ == Map::<u64, Seq<u64>>::empty(),
    {
        let index = XrefIndex { sites: BTreeMap::new() };
        assert(index@ =~= Map::<u64, Seq<u64>>::empty());
        index
    }

    /// The list recorded for `table`. A table for which nothing was recorded
    /// has no list: none is made up.
    pub fn get(&self, table: u64) -> (list: Option<&Vec<u64>>)
        ensures
            match list {
                Some(sites) => self@.contains_key(table) && self@[table] == sites@,
                None => !self@.contains_key(table),
            },
    {
        self.sites.get(&table)
    }

    /// Appends `site` to the list of `table`, which begins a new list if the
    /// index held none for it. The other lists stay as they are.
    pub fn record(&mut self, table: u64, site: u64)
        ensures
            final(self)@ == old(self)@.insert(table, references(old(self)@, table).push(site)),
    {
        let mut list = match self.sites.remove(&table) {
            Some(list) => list,
            None => Vec::new(),
        };
        list.push(site);
        self.sites.insert(table, list);
        assert(self@ =~= old(self)@.insert(table, references(old(self)@, table).push(site)));
    }
}

} // verus!
