//! The compilation state that hooks see, and the argument structs handed to
//! plugin hooks.
use vstd::prelude::*;

use crate::chunk::{Chunk, ChunkByUkey, ChunkGroupByUkey};
use crate::chunk_graph::ChunkGraph;
use crate::ids::{ChunkUkey, ModuleIdentifier};
use crate::module_graph::ModuleGraph;
use crate::runtime::RuntimeGlobals;

verus! {

/// The mutable state of one compilation that hooks read and change.
#[derive(Debug)]
pub struct Compilation {
    pub chunk_by_ukey: ChunkByUkey,
    pub chunk_group_by_ukey: ChunkGroupByUkey,
    pub chunk_graph: ChunkGraph,
    pub module_graph: ModuleGraph,
}

impl Compilation {
    pub fn new() -> (r: Self)
        ensures
            r.chunk_by_ukey@ == Map::<u64, Chunk>::empty(),
            r.chunk_graph.wf(),
            r.module_graph@ == Map::<u64, crate::module_graph::ModuleGraphModule>::empty(),
    {
        Compilation {
            chunk_by_ukey: ChunkByUkey::new(),
            chunk_group_by_ukey: ChunkGroupByUkey::new(),
            chunk_graph: ChunkGraph::new(),
            module_graph: ModuleGraph::new(),
        }
    }
}

#[derive(Debug)]
pub struct ProcessAssetsArgs<'me> {
    pub compilation: &'me mut Compilation,
}

#[derive(Debug, Clone)]
pub struct LoadArgs<'a> {
    pub uri: &'a str,
}

#[derive(Debug)]
pub struct OptimizeChunksArgs<'me> {
    pub compilation: &'me mut Compilation,
}

#[derive(Debug)]
pub struct AdditionalChunkRuntimeRequirementsArgs<'a> {
    pub compilation: &'a mut Compilation,
    pub chunk: &'a ChunkUkey,
    pub runtime_requirements: &'a mut RuntimeGlobals,
}

#[derive(Debug)]
pub struct RuntimeRequirementsInTreeArgs<'a> {
    pub compilation: &'a mut Compilation,
    pub chunk: &'a ChunkUkey,
    pub runtime_requirements: &'a RuntimeGlobals,
    pub runtime_requirements_mut: &'a mut RuntimeGlobals,
}

#[derive(Debug)]
pub struct AdditionalModuleRequirementsArgs<'a> {
    pub compilation: &'a mut Compilation,
    pub module_identifier: &'a ModuleIdentifier,
    pub runtime_requirements: &'a RuntimeGlobals,
    pub runtime_requirements_mut: &'a mut RuntimeGlobals,
}

impl<'me> AdditionalChunkRuntimeRequirementsArgs<'me> {
    /// The chunk the requirements are collected for; it exists by
    /// construction of the arguments.
    pub fn chunk(&self) -> (r: &Chunk)
        requires
            old(self.compilation).chunk_by_ukey@.contains_key(self.chunk.key),
        ensures
            *r == old(self.compilation).chunk_by_ukey@[self.chunk.key],
    {
        self.compilation.chunk_by_ukey.expect_get(self.chunk)
    }
}

} // verus!
