//! What a turn's tools touched.

use crate::textset::{ascending, insert_texts};
use vstd::prelude::*;

verus! {

/// The files that a turn read and modified, and the memories that it used. Each
/// is an ascending list, so that a rendered summary is the same every time.
pub struct ToolFootprint {
    pub read: Vec<String>,
    pub modified: Vec<String>,
    pub memories: Vec<String>,
}

impl ToolFootprint {
    pub open spec fn well_formed(&self) -> bool {
        &&& ascending(self.read.deep_view())
        &&& ascending(self.modified.deep_view())
        &&& ascending(self.memories.deep_view())
    }

    pub open spec fn reads(&self) -> Set<Seq<char>> {
        self.read.deep_view().to_set()
    }

    pub open spec fn modifies(&self) -> Set<Seq<char>> {
        self.modified.deep_view().to_set()
    }

    pub open spec fn remembers(&self) -> Set<Seq<char>> {
        self.memories.deep_view().to_set()
    }

    /// A footprint of nothing.
    pub fn new() -> (footprint: ToolFootprint)
        ensures
            footprint.well_formed(),
            footprint.reads() == Set::<Seq<char>>::empty(),
            footprint.modifies() == Set::<Seq<char>>::empty(),
            footprint.remembers() == Set::<Seq<char>>::empty(),
    {
        let footprint = ToolFootprint {
            read: Vec::new(),
            modified: Vec::new(),
            memories: Vec::new(),
        };
        assert(footprint.reads() =~= Set::<Seq<char>>::empty());
        assert(footprint.modifies() =~= Set::<Seq<char>>::empty());
        assert(footprint.remembers() =~= Set::<Seq<char>>::empty());
        footprint
    }

    pub fn is_empty(&self) -> (empty: bool)
        ensures
            empty == (self.reads() == Set::<Seq<char>>::empty() && self.modifies() == Set::<
                Seq<char>,
            >::empty() && self.remembers() == Set::<Seq<char>>::empty()),
    {
        proof {
            lemma_empty(self.read.deep_view());
            lemma_empty(self.modified.deep_view());
            lemma_empty(self.memories.deep_view());
        }
        self.read.len() == 0 && self.modified.len() == 0 && self.memories.len() == 0
    }

    /// Takes in what another footprint holds.
    pub fn merge(&mut self, other: ToolFootprint)
        requires
            old(self).well_formed(),
        ensures
            final(self).well_formed(),
            final(self).reads() == old(self).reads().union(other.reads()),
            final(self).modifies() == old(self).modifies().union(other.modifies()),
            final(self).remembers() == old(self).remembers().union(other.remembers()),
    {
        insert_texts(&mut self.read, &other.read);
        insert_texts(&mut self.modified, &other.modified);
        insert_texts(&mut self.memories, &other.memories);
    }
}

proof fn lemma_empty(s: Seq<Seq<char>>)
    ensures
        (s.to_set() == Set::<Seq<char>>::empty()) == (s.len() == 0),
{
    if s.len() == 0 {
        assert(s.to_set() =~= Set::<Seq<char>>::empty());
    } else {
        assert(s.to_set().contains(s[0]));
    }
}

} // verus!
