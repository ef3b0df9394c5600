//! Chunks and chunk groups, and the arenas that hold them by handle.
use std::collections::HashMap;

use vstd::prelude::*;

use crate::ids::{ChunkGroupUkey, ChunkUkey};
use crate::runtime::RuntimeSpec;

verus! {

broadcast use vstd::std_specs::hash::group_hash_axioms;

/// An output bundling unit, with the runtimes it is built for.
#[derive(Debug)]
pub struct Chunk {
    pub ukey: ChunkUkey,
    pub runtime: RuntimeSpec,
}

/// The chunks of a compilation, by handle.
#[derive(Debug)]
pub struct ChunkByUkey {
    chunks: HashMap<u64, Chunk>,
}

impl View for ChunkByUkey {
    type V = Map<u64, Chunk>;

    closed spec fn view(&self) -> Map<u64, Chunk> {
        self.chunks@
    }
}

impl ChunkByUkey {
    pub fn new() -> (r: Self)
        ensures
            r@ == Map::<u64, Chunk>::empty(),
    {
        ChunkByUkey { chunks: HashMap::new() }
    }

    /// Stores a chunk under its own handle.
    pub fn add(&mut self, chunk: Chunk)
        ensures
            final(self)@ == old(self)@.insert(chunk.ukey.key, chunk),
    {
        let key = chunk.ukey.key;
        self.chunks.insert(key, chunk);
    }

    pub fn get(&self, ukey: &ChunkUkey) -> (r: Option<&Chunk>)
        ensures
            match r {
                Some(c) => self@.contains_key(ukey.key) && *c == self@[ukey.key],
                None => !self@.contains_key(ukey.key),
            },
    {
        self.chunks.get(&ukey.key)
    }

    /// The chunk behind a handle that is known to be present.
    pub fn expect_get(&self, ukey: &ChunkUkey) -> (r: &Chunk)
        requires
            self@.contains_key(ukey.key),
        ensures
            *r == self@[ukey.key],
    {
        match self.chunks.get(&ukey.key) {
            Some(c) => c,
            None => vstd::pervasive::unreached(),
        }
    }
}

/// A collection of chunks produced together.
#[derive(Debug)]
pub struct ChunkGroup {
    pub ukey: ChunkGroupUkey,
    pub chunks: Vec<ChunkUkey>,
}

/// The chunk groups of a compilation, by handle.
#[derive(Debug)]
pub struct ChunkGroupByUkey {
    groups: HashMap<u64, ChunkGroup>,
}

impl View for ChunkGroupByUkey {
    type V = Map<u64, ChunkGroup>;

    closed spec fn view(&self) -> Map<u64, ChunkGroup> {
        self.groups@
    }
}

impl ChunkGroupByUkey {
    pub fn new() -> (r: Self)
        ensures
            r@ == Map::<u64, ChunkGroup>::empty(),
    {
        ChunkGroupByUkey { groups: HashMap::new() }
    }

    /// Stores a chunk group under its own handle.
    pub fn add(&mut self, group: ChunkGroup)
        ensures
            final(self)@ == old(self)@.insert(group.ukey.key, group),
    {
        let key = group.ukey.key;
        self.groups.insert(key, group);
    }

    pub fn get(&self, ukey: &ChunkGroupUkey) -> (r: Option<&ChunkGroup>)
        ensures
            match r {
                Some(g) => self@.contains_key(ukey.key) && *g == self@[ukey.key],
                None => !self@.contains_key(ukey.key),
            },
    {
        self.groups.get(&ukey.key)
    }
}

} // verus!
