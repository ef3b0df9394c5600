//! Cheap, copyable handles naming modules, chunks, chunk groups and blocks.
use vstd::prelude::*;

verus! {

/// Interned identifier of a module; ordering of identifiers is the order of
/// the interned numbers.
#[derive(Clone, Copy, Debug, PartialEq, Eq, Hash, Structural)]
pub struct ModuleIdentifier {
    pub id: u64,
}

/// Arena handle of a chunk.
#[derive(Clone, Copy, Debug, PartialEq, Eq, Hash, Structural)]
pub struct ChunkUkey {
    pub key: u64,
}

/// Arena handle of a chunk group.
#[derive(Clone, Copy, Debug, PartialEq, Eq, Hash, Structural)]
pub struct ChunkGroupUkey {
    pub key: u64,
}

/// Identifier of an asynchronous (dynamically imported) dependencies block.
#[derive(Clone, Copy, Debug, PartialEq, Eq, Hash, Structural)]
pub struct AsyncDependenciesBlockId {
    pub id: u64,
}

impl ModuleIdentifier {
    pub fn new(id: u64) -> (r: Self)
        ensures
            r.id == id,
    {
        ModuleIdentifier { id }
    }
}

impl ChunkUkey {
    pub fn new(key: u64) -> (r: Self)
        ensures
            r.key == key,
    {
        ChunkUkey { key }
    }
}

impl ChunkGroupUkey {
    pub fn new(key: u64) -> (r: Self)
        ensures
            r.key == key,
    {
        ChunkGroupUkey { key }
    }
}

impl AsyncDependenciesBlockId {
    pub fn new(id: u64) -> (r: Self)
        ensures
            r.id == id,
    {
        AsyncDependenciesBlockId { id }
    }
}

} // verus!
