//! The chunk-graph association registry: which module sits in which chunk,
//! the runtime requirements of each module per runtime, module ids, and the
//! chunk group that each asynchronous block spawns.
use std::collections::HashMap;

use vstd::prelude::*;

use crate::chunk::{Chunk, ChunkByUkey, ChunkGroup, ChunkGroupByUkey};
use crate::hash::{
    connection_hashes, digest_words, hash_inputs_present, hex_string, lemma_sorted_targets,
    module_graph_hash, module_identity_hash, sorted_target_ids, sorted_targets,
};
use crate::ids::{AsyncDependenciesBlockId, ChunkGroupUkey, ChunkUkey, ModuleIdentifier};
use crate::module_graph::ModuleGraph;
use crate::runtime::{RuntimeGlobals, RuntimeSpec, RuntimeSpecMap, RuntimeSpecSet};

verus! {

broadcast use vstd::std_specs::hash::group_hash_axioms;

/// Broken invariants of the caller: a module or a chunk that must have been
/// registered before the operation is missing.
#[derive(Clone, Copy, Debug, PartialEq, Eq, Structural)]
pub enum ChunkGraphError {
    ModuleNotFound(ModuleIdentifier),
    ChunkNotFound(ChunkUkey),
}

/// Requirements after merging `flags` into the entry for exactly
/// `runtime`: a bitwise union with what was stored, or a new entry.
pub open spec fn merge_requirements(
    reqs: Map<Seq<u64>, u64>,
    runtime: Seq<u64>,
    flags: u64,
) -> Map<Seq<u64>, u64> {
    reqs.insert(
        runtime,
        if reqs.contains_key(runtime) {
            reqs[runtime] | flags
        } else {
            flags
        },
    )
}

/// The association record of one module.
#[derive(Clone, Debug)]
pub struct ChunkGraphModule {
    pub id: Option<String>,
    pub entry_in_chunks: Vec<ChunkUkey>,
    pub chunks: Vec<ChunkUkey>,
    pub runtime_requirements: Option<RuntimeSpecMap>,
    pub runtime_in_chunks: Vec<ChunkUkey>,
}

impl ChunkGraphModule {
    pub closed spec fn wf(&self) -> bool {
        &&& self.chunks@.no_duplicates()
        &&& match self.runtime_requirements {
            Some(m) => m.wf(),
            None => true,
        }
    }

    /// The stored requirements, by runtime set (empty when none were added).
    pub closed spec fn requirements(&self) -> Map<Seq<u64>, u64> {
        match self.runtime_requirements {
            Some(m) => m@,
            None => Map::empty(),
        }
    }

    pub closed spec fn id_view(&self) -> Option<Seq<char>> {
        match self.id {
            Some(s) => Some(s@),
            None => None,
        }
    }

    pub fn new() -> (r: Self)
        ensures
            r.wf(),
            r.id.is_none(),
            r.chunks@.len() == 0,
            r.entry_in_chunks@.len() == 0,
            r.runtime_in_chunks@.len() == 0,
            r.runtime_requirements.is_none(),
            r.requirements() == Map::<Seq<u64>, u64>::empty(),
    {
        ChunkGraphModule {
            id: None,
            entry_in_chunks: Vec::new(),
            chunks: Vec::new(),
            runtime_requirements: None,
            runtime_in_chunks: Vec::new(),
        }
    }
}

/// The association record of one chunk: the modules it holds.
#[derive(Clone, Debug)]
pub struct ChunkGraphChunk {
    pub modules: Vec<ModuleIdentifier>,
}

/// The registry. A module or chunk without a record reads as one with an
/// empty record; records come into being on the first write.
#[derive(Debug)]
pub struct ChunkGraph {
    chunk_graph_module_by_module_identifier: HashMap<u64, ChunkGraphModule>,
    chunk_graph_chunk_by_chunk_ukey: HashMap<u64, ChunkGraphChunk>,
    block_to_chunk_group_ukey: HashMap<u64, u64>,
}

fn contains_chunk(v: &Vec<ChunkUkey>, c: ChunkUkey) -> (r: bool)
    ensures
        r == v@.contains(c),
{
    let mut i: usize = 0;
    while i < v.len()
        invariant
            i <= v@.len(),
            forall|k: int| 0 <= k < i ==> v@[k] != c,
        decreases v@.len() - i,
    {
        if v[i] == c {
            return true;
        }
        i = i + 1;
    }
    false
}

fn contains_module(v: &Vec<ModuleIdentifier>, m: ModuleIdentifier) -> (r: bool)
    ensures
        r == v@.contains(m),
{
    let mut i: usize = 0;
    while i < v.len()
        invariant
            i <= v@.len(),
            forall|k: int| 0 <= k < i ==> v@[k] != m,
        decreases v@.len() - i,
    {
        if v[i] == m {
            return true;
        }
        i = i + 1;
    }
    false
}

impl ChunkGraph {
    pub closed spec fn wf(&self) -> bool {
        &&& forall|m: u64| #[trigger]
            self.chunk_graph_module_by_module_identifier@.contains_key(m)
                ==> self.chunk_graph_module_by_module_identifier@[m].wf()
        &&& forall|c: u64| #[trigger]
            self.chunk_graph_chunk_by_chunk_ukey@.contains_key(c)
                ==> self.chunk_graph_chunk_by_chunk_ukey@[c].modules@.no_duplicates()
    }

    /// Whether the module has a record yet.
    pub closed spec fn has_module_record(&self, m: u64) -> bool {
        self.chunk_graph_module_by_module_identifier@.contains_key(m)
    }

    /// The chunks the module belongs to.
    pub closed spec fn module_chunks(&self, m: u64) -> Seq<ChunkUkey> {
        if self.has_module_record(m) {
            self.chunk_graph_module_by_module_identifier@[m].chunks@
        } else {
            Seq::empty()
        }
    }

    /// The module's generated id.
    pub closed spec fn module_id(&self, m: u64) -> Option<Seq<char>> {
        if self.has_module_record(m) {
            self.chunk_graph_module_by_module_identifier@[m].id_view()
        } else {
            None
        }
    }

    /// The module's runtime requirements, by runtime set.
    pub closed spec fn module_requirements(&self, m: u64) -> Map<Seq<u64>, u64> {
        if self.has_module_record(m) {
            self.chunk_graph_module_by_module_identifier@[m].requirements()
        } else {
            Map::empty()
        }
    }

    /// The modules the chunk holds.
    pub closed spec fn chunk_modules(&self, c: u64) -> Seq<ModuleIdentifier> {
        if self.chunk_graph_chunk_by_chunk_ukey@.contains_key(c) {
            self.chunk_graph_chunk_by_chunk_ukey@[c].modules@
        } else {
            Seq::empty()
        }
    }

    /// The chunk group that the block spawns, if connected.
    pub closed spec fn block_group(&self, b: u64) -> Option<u64> {
        if self.block_to_chunk_group_ukey@.contains_key(b) {
            Some(self.block_to_chunk_group_ukey@[b])
        } else {
            None
        }
    }

    /// Every module other than `m` reads as in `before`.
    pub open spec fn other_modules_unchanged(&self, before: &ChunkGraph, m: u64) -> bool {
        &&& forall|x: u64| x != m ==> #[trigger] self.module_chunks(x) == before.module_chunks(x)
        &&& forall|x: u64| x != m ==> #[trigger] self.module_id(x) == before.module_id(x)
        &&& forall|x: u64|
            x != m ==> #[trigger] self.module_requirements(x) == before.module_requirements(x)
    }

    /// Chunk records and block connections read as in `before`.
    pub open spec fn chunks_and_blocks_unchanged(&self, before: &ChunkGraph) -> bool {
        &&& forall|c: u64| #[trigger] self.chunk_modules(c) == before.chunk_modules(c)
        &&& forall|b: u64| #[trigger] self.block_group(b) == before.block_group(b)
    }

    /// The runtime sets of the chunks the module belongs to.
    pub open spec fn module_runtimes(&self, m: u64, chunks: Map<u64, Chunk>) -> Set<Seq<u64>> {
        Set::new(
            |rt: Seq<u64>|
                exists|i: int|
                    0 <= i < self.module_chunks(m).len() && #[trigger] chunks[self.module_chunks(
                        m,
                    )[i].key].runtime@ == rt,
        )
    }

    pub fn new() -> (r: Self)
        ensures
            r.wf(),
            forall|m: u64| !#[trigger] r.has_module_record(m),
            forall|m: u64| #[trigger] r.module_chunks(m) == Seq::<ChunkUkey>::empty(),
            forall|m: u64| #[trigger] r.module_id(m) == None::<Seq<char>>,
            forall|m: u64| #[trigger] r.module_requirements(m) == Map::<Seq<u64>, u64>::empty(),
            forall|c: u64| #[trigger] r.chunk_modules(c) == Seq::<ModuleIdentifier>::empty(),
            forall|b: u64| #[trigger] r.block_group(b) == None::<u64>,
    {
        ChunkGraph {
            chunk_graph_module_by_module_identifier: HashMap::new(),
            chunk_graph_chunk_by_chunk_ukey: HashMap::new(),
            block_to_chunk_group_ukey: HashMap::new(),
        }
    }

    /// A module that was never written reads as an empty record: no chunks,
    /// no id, no runtime requirements.
    pub proof fn lemma_unseen_module_is_empty(&self, m: u64)
        requires
            !self.has_module_record(m),
        ensures
            self.module_chunks(m) == Seq::<ChunkUkey>::empty(),
            self.module_id(m) == None::<Seq<char>>,
            self.module_requirements(m) == Map::<Seq<u64>, u64>::empty(),
    {
    }

    /// Removes the module's record from the table and hands it out (a fresh
    /// empty record if there was none).
    fn take_module_record(&mut self, m: u64) -> (r: ChunkGraphModule)
        requires
            old(self).wf(),
        ensures
            r.wf(),
            r.chunks@ == old(self).module_chunks(m),
            r.id_view() == old(self).module_id(m),
            r.requirements() == old(self).module_requirements(m),
            final(self).chunk_graph_module_by_module_identifier@ == old(
                self,
            ).chunk_graph_module_by_module_identifier@.remove(m),
            final(self).chunk_graph_chunk_by_chunk_ukey == old(self).chunk_graph_chunk_by_chunk_ukey,
            final(self).block_to_chunk_group_ukey == old(self).block_to_chunk_group_ukey,
    {
        match self.chunk_graph_module_by_module_identifier.remove(&m) {
            Some(rec) => rec,
            None => ChunkGraphModule::new(),
        }
    }

    /// Whether the chunk's own module set holds the module.
    pub fn is_module_in_chunk(&self, module_identifier: &ModuleIdentifier, chunk_ukey: ChunkUkey) -> (r:
        bool)
        ensures
            r == self.chunk_modules(chunk_ukey.key).contains(*module_identifier),
    {
        match self.chunk_graph_chunk_by_chunk_ukey.get(&chunk_ukey.key) {
            Some(cgc) => contains_module(&cgc.modules, *module_identifier),
            None => false,
        }
    }

    /// Records that the chunk holds the module, in both directions.
    pub fn connect_chunk_and_module(&mut self, chunk: ChunkUkey, module: ModuleIdentifier)
        requires
            old(self).wf(),
        ensures
            final(self).wf(),
            final(self).module_chunks(module.id) == if old(self).module_chunks(module.id).contains(
                chunk,
            ) {
                old(self).module_chunks(module.id)
            } else {
                old(self).module_chunks(module.id).push(chunk)
            },
            final(self).chunk_modules(chunk.key) == if old(self).chunk_modules(chunk.key).contains(
                module,
            ) {
                old(self).chunk_modules(chunk.key)
            } else {
                old(self).chunk_modules(chunk.key).push(module)
            },
            final(self).module_id(module.id) == old(self).module_id(module.id),
            final(self).module_requirements(module.id) == old(self).module_requirements(module.id),
            final(self).other_modules_unchanged(old(self), module.id),
            forall|c: u64| c != chunk.key ==> #[trigger] final(self).chunk_modules(c) == old(self).chunk_modules(c),
            forall|b: u64| #[trigger] final(self).block_group(b) == old(self).block_group(b),
    {
        let mut rec = self.take_module_record(module.id);
        if !contains_chunk(&rec.chunks, chunk) {
            rec.chunks.push(chunk);
            proof {
                assert forall|a: int, b: int|
                    0 <= a < rec.chunks@.len() && 0 <= b < rec.chunks@.len() && a != b implies rec.chunks@[a]
                    != rec.chunks@[b] by {
                    if a == rec.chunks@.len() - 1 {
                        assert(old(self).module_chunks(module.id)[b] == rec.chunks@[b]);
                    } else if b == rec.chunks@.len() - 1 {
                        assert(old(self).module_chunks(module.id)[a] == rec.chunks@[a]);
                    }
                }
            }
        }
        self.chunk_graph_module_by_module_identifier.insert(module.id, rec);
        let mut cgc = match self.chunk_graph_chunk_by_chunk_ukey.remove(&chunk.key) {
            Some(c) => c,
            None => ChunkGraphChunk { modules: Vec::new() },
        };
        let ghost before = cgc.modules@;
        if !contains_module(&cgc.modules, module) {
            cgc.modules.push(module);
            proof {
                assert forall|a: int, b: int|
                    0 <= a < cgc.modules@.len() && 0 <= b < cgc.modules@.len() && a != b implies cgc.modules@[a]
                    != cgc.modules@[b] by {
                    if a == cgc.modules@.len() - 1 {
                        assert(before[b] == cgc.modules@[b]);
                    } else if b == cgc.modules@.len() - 1 {
                        assert(before[a] == cgc.modules@[a]);
                    }
                }
            }
        }
        self.chunk_graph_chunk_by_chunk_ukey.insert(chunk.key, cgc);
    }

    /// A snapshot of the chunks the module belongs to.
    pub fn get_module_chunks(&self, module_identifier: ModuleIdentifier) -> (r: Vec<ChunkUkey>)
        ensures
            r@ == self.module_chunks(module_identifier.id),
            self.wf() ==> r@.no_duplicates(),
    {
        let mut out: Vec<ChunkUkey> = Vec::new();
        match self.chunk_graph_module_by_module_identifier.get(&module_identifier.id) {
            Some(rec) => {
                let mut i: usize = 0;
                while i < rec.chunks.len()
                    invariant
                        i <= rec.chunks@.len(),
                        out@ == rec.chunks@.take(i as int),
                    decreases rec.chunks@.len() - i,
                {
                    out.push(rec.chunks[i]);
                    proof {
                        assert(rec.chunks@.take(i + 1) =~= rec.chunks@.take(i as int).push(
                            rec.chunks@[i as int],
                        ));
                    }
                    i = i + 1;
                }
                proof {
                    assert(rec.chunks@.take(rec.chunks@.len() as int) =~= rec.chunks@);
                }
            },
            None => {
                proof {
                    assert(out@ =~= Seq::<ChunkUkey>::empty());
                }
            },
        }
        out
    }

    /// How many chunks the module belongs to.
    pub fn get_number_of_module_chunks(&self, module_identifier: ModuleIdentifier) -> (r: usize)
        ensures
            r == self.module_chunks(module_identifier.id).len(),
    {
        match self.chunk_graph_module_by_module_identifier.get(&module_identifier.id) {
            Some(rec) => rec.chunks.len(),
            None => 0,
        }
    }

    /// Merges `runtime_requirements` into the flags stored for exactly
    /// `runtime` (bitwise union), or stores them if there were none.
    pub fn add_module_runtime_requirements(
        &mut self,
        module_identifier: ModuleIdentifier,
        runtime: &RuntimeSpec,
        runtime_requirements: RuntimeGlobals,
    )
        requires
            old(self).wf(),
        ensures
            final(self).wf(),
            final(self).module_requirements(module_identifier.id) == merge_requirements(
                old(self).module_requirements(module_identifier.id),
                runtime@,
                runtime_requirements.bits,
            ),
            final(self).module_chunks(module_identifier.id) == old(self).module_chunks(
                module_identifier.id,
            ),
            final(self).module_id(module_identifier.id) == old(self).module_id(
                module_identifier.id,
            ),
            final(self).other_modules_unchanged(old(self), module_identifier.id),
            final(self).chunks_and_blocks_unchanged(old(self)),
    {
        let mut rec = self.take_module_record(module_identifier.id);
        match rec.runtime_requirements {
            Some(mut map) => {
                match map.get(runtime) {
                    Some(value) => map.set(runtime, value.union(runtime_requirements)),
                    None => map.set(runtime, runtime_requirements),
                }
                rec.runtime_requirements = Some(map);
            },
            None => {
                let mut map = RuntimeSpecMap::new();
                map.set(runtime, runtime_requirements);
                rec.runtime_requirements = Some(map);
            },
        }
        self.chunk_graph_module_by_module_identifier.insert(module_identifier.id, rec);
    }

    /// The flags stored for exactly `runtime`; no subset or superset of it
    /// is consulted.
    pub fn get_module_runtime_requirements(
        &self,
        module_identifier: ModuleIdentifier,
        runtime: &RuntimeSpec,
    ) -> (r: Option<RuntimeGlobals>)
        requires
            self.wf(),
        ensures
            match r {
                Some(g) => self.module_requirements(module_identifier.id).contains_key(runtime@)
                    && g.bits == self.module_requirements(module_identifier.id)[runtime@],
                None => !self.module_requirements(module_identifier.id).contains_key(runtime@),
            },
    {
        match self.chunk_graph_module_by_module_identifier.get(&module_identifier.id) {
            Some(rec) => match &rec.runtime_requirements {
                Some(map) => map.get(runtime),
                None => None,
            },
            None => None,
        }
    }

    /// The union of the runtimes of every chunk the module belongs to.
    pub fn get_module_runtimes(
        &self,
        module_identifier: ModuleIdentifier,
        chunk_by_ukey: &ChunkByUkey,
    ) -> (r: Result<RuntimeSpecSet, ChunkGraphError>)
        ensures
            match r {
                Ok(set) => {
                    &&& set.wf()
                    &&& forall|i: int|
                        0 <= i < self.module_chunks(module_identifier.id).len()
                            ==> chunk_by_ukey@.contains_key(
                            #[trigger] self.module_chunks(module_identifier.id)[i].key,
                        )
                    &&& set@ == self.module_runtimes(module_identifier.id, chunk_by_ukey@)
                },
                Err(ChunkGraphError::ChunkNotFound(c)) => self.module_chunks(
                    module_identifier.id,
                ).contains(c) && !chunk_by_ukey@.contains_key(c.key),
                Err(ChunkGraphError::ModuleNotFound(_)) => false,
            },
    {
        let mut runtimes = RuntimeSpecSet::new();
        let ghost chunks = self.module_chunks(module_identifier.id);
        let ghost table = chunk_by_ukey@;
        match self.chunk_graph_module_by_module_identifier.get(&module_identifier.id) {
            Some(rec) => {
                let mut i: usize = 0;
                while i < rec.chunks.len()
                    invariant
                        i <= rec.chunks@.len(),
                        rec.chunks@ == chunks,
                        chunks == self.module_chunks(module_identifier.id),
                        table == chunk_by_ukey@,
                        runtimes.wf(),
                        forall|k: int| 0 <= k < i ==> table.contains_key(#[trigger] chunks[k].key),
                        runtimes@ == Set::new(
                            |rt: Seq<u64>|
                                exists|k: int|
                                    0 <= k < i && #[trigger] table[chunks[k].key].runtime@ == rt,
                        ),
                    decreases rec.chunks@.len() - i,
                {
                    let c = rec.chunks[i];
                    match chunk_by_ukey.get(&c) {
                        Some(chunk) => {
                            let ghost prev = runtimes@;
                            runtimes.set(chunk.runtime.duplicate());
                            proof {
                                assert(runtimes@ =~= Set::new(
                                    |rt: Seq<u64>|
                                        exists|k: int|
                                            0 <= k < i + 1 && #[trigger] table[chunks[k].key].runtime@
                                                == rt,
                                )) by {
                                    assert(table[chunks[i as int].key].runtime@ == chunk.runtime@);
                                    assert forall|rt: Seq<u64>| prev.contains(rt) implies (exists|k: int|
                                        0 <= k < i + 1 && #[trigger] table[chunks[k].key].runtime@
                                            == rt) by {
                                        let k = choose|k: int|
                                            0 <= k < i && #[trigger] table[chunks[k].key].runtime@ == rt;
                                    }
                                    assert forall|rt: Seq<u64>|
                                        (exists|k: int|
                                            0 <= k < i + 1 && #[trigger] table[chunks[k].key].runtime@
                                                == rt) implies runtimes@.contains(rt) by {
                                        let k = choose|k: int|
                                            0 <= k < i + 1 && #[trigger] table[chunks[k].key].runtime@
                                                == rt;
                                        if k < i {
                                            assert(prev.contains(rt));
                                        }
                                    }
                                }
                            }
                        },
                        None => {
                            proof {
                                assert(chunks[i as int] == c);
                                assert(self.module_chunks(module_identifier.id).contains(c));
                            }
                            return Err(ChunkGraphError::ChunkNotFound(c));
                        },
                    }
                    i = i + 1;
                }
            },
            None => {},
        }
        proof {
            assert(runtimes@ =~= self.module_runtimes(module_identifier.id, chunk_by_ukey@));
        }
        Ok(runtimes)
    }

    /// The module's generated id, if one was set.
    pub fn get_module_id(&self, module_identifier: ModuleIdentifier) -> (r: Option<String>)
        ensures
            match r {
                Some(s) => self.module_id(module_identifier.id) == Some(s@),
                None => self.module_id(module_identifier.id).is_none(),
            },
    {
        match self.chunk_graph_module_by_module_identifier.get(&module_identifier.id) {
            Some(rec) => match &rec.id {
                Some(s) => Some(s.clone()),
                None => None,
            },
            None => None,
        }
    }

    /// Sets the module's generated id.
    pub fn set_module_id(&mut self, module_identifier: ModuleIdentifier, id: String)
        requires
            old(self).wf(),
        ensures
            final(self).wf(),
            final(self).module_id(module_identifier.id) == Some(id@),
            final(self).module_chunks(module_identifier.id) == old(self).module_chunks(
                module_identifier.id,
            ),
            final(self).module_requirements(module_identifier.id) == old(self).module_requirements(
                module_identifier.id,
            ),
            final(self).other_modules_unchanged(old(self), module_identifier.id),
            final(self).chunks_and_blocks_unchanged(old(self)),
    {
        let mut rec = self.take_module_record(module_identifier.id);
        rec.id = Some(id);
        self.chunk_graph_module_by_module_identifier.insert(module_identifier.id, rec);
    }

    /// The chunk group that the block spawns: the block's group handle,
    /// then the group behind it; `None` when either step misses.
    pub fn get_block_chunk_group<'a>(
        &self,
        block: &AsyncDependenciesBlockId,
        chunk_group_by_ukey: &'a ChunkGroupByUkey,
    ) -> (r: Option<&'a ChunkGroup>)
        ensures
            match r {
                Some(g) => {
                    &&& self.block_group(block.id) is Some
                    &&& chunk_group_by_ukey@.contains_key(self.block_group(block.id)->0)
                    &&& *g == chunk_group_by_ukey@[self.block_group(block.id)->0]
                },
                None => match self.block_group(block.id) {
                    Some(k) => !chunk_group_by_ukey@.contains_key(k),
                    None => true,
                },
            },
    {
        match self.block_to_chunk_group_ukey.get(&block.id) {
            Some(ukey) => chunk_group_by_ukey.get(&ChunkGroupUkey { key: *ukey }),
            None => None,
        }
    }

    /// Records that the block spawns the chunk group.
    pub fn connect_block_and_chunk_group(
        &mut self,
        block: AsyncDependenciesBlockId,
        chunk_group: ChunkGroupUkey,
    )
        requires
            old(self).wf(),
        ensures
            final(self).wf(),
            final(self).block_group(block.id) == Some(chunk_group.key),
            forall|b: u64| b != block.id ==> #[trigger] final(self).block_group(b) == old(self).block_group(b),
            forall|c: u64| #[trigger] final(self).chunk_modules(c) == old(self).chunk_modules(c),
            forall|m: u64| #[trigger] final(self).module_chunks(m) == old(self).module_chunks(m),
            forall|m: u64| #[trigger] final(self).module_id(m) == old(self).module_id(m),
            forall|m: u64| #[trigger] final(self).module_requirements(m) == old(self).module_requirements(m),
    {
        self.block_to_chunk_group_ukey.insert(block.id, chunk_group.key);
    }

    /// The module's graph fingerprint: its build hash, its identity
    /// sub-hash (non-strict) and, with connections, the identity sub-hashes
    /// of its connection targets in ascending order (strict as the module
    /// itself is), rendered as sixteen hexadecimal digits. A module or a
    /// target missing from the graph is reported.
    pub fn get_module_graph_hash(
        &self,
        module: &ModuleIdentifier,
        module_graph: &ModuleGraph,
        with_connections: bool,
    ) -> (r: Result<String, ChunkGraphError>)
        ensures
            match r {
                Ok(s) => hash_inputs_present(module_graph@, module.id, with_connections) && s@
                    == module_graph_hash(module_graph@, module.id, with_connections),
                Err(ChunkGraphError::ModuleNotFound(x)) => {
                    &&& !hash_inputs_present(module_graph@, module.id, with_connections)
                    &&& !module_graph@.contains_key(x.id)
                    &&& (x == *module || module_graph@[module.id].outgoing_ids().contains(x.id))
                },
                Err(ChunkGraphError::ChunkNotFound(_)) => false,
            },
    {
        let mgm = match module_graph.module_graph_module_by_identifier(module) {
            Some(m) => m,
            None => {
                return Err(ChunkGraphError::ModuleNotFound(*module));
            },
        };
        let mut words: Vec<u64> = Vec::new();
        words.push(mgm.build_hash);
        words.push(module_identity_hash(module.id, mgm, false));
        let strict = mgm.strict_harmony;
        if with_connections {
            let targets = sorted_target_ids(mgm);
            proof {
                broadcast use vstd::multiset::group_multiset_axioms;
                broadcast use vstd::seq_lib::group_to_multiset_ensures;

                lemma_sorted_targets(*mgm);
                assert forall|t: u64|
                    targets@.contains(t) <==> #[trigger] mgm.outgoing_ids().contains(t) by {
                    assert(targets@.contains(t) <==> targets@.to_multiset().count(t) > 0);
                    assert(mgm.outgoing_ids().contains(t) <==> mgm.outgoing_ids().to_multiset().count(t) > 0);
                }
                assert forall|a: int, b: int| 0 <= a < b < targets@.len() implies targets@[a] <= targets@[b] by {
                    assert((crate::hash::id_leq())(targets@[a], targets@[b]));
                }
            }
            match connection_hashes(module_graph, &targets, strict) {
                Ok((conn, _hashed)) => {
                    let mut conn = conn;
                    proof {
                        assert forall|t: u64| #[trigger]
                            mgm.outgoing_ids().contains(t) implies module_graph@.contains_key(t) by {
                            assert(targets@.contains(t));
                        }
                    }
                    words.append(&mut conn);
                },
                Err(missing) => {
                    proof {
                        assert(mgm.outgoing_ids().contains(missing.id));
                        assert(!hash_inputs_present(module_graph@, module.id, with_connections));
                    }
                    return Err(ChunkGraphError::ModuleNotFound(missing));
                },
            }
        }
        proof {
            assert(words@ =~= crate::hash::graph_hash_words(module_graph@, module.id, with_connections));
        }
        Ok(hex_string(digest_words(&words)))
    }
}

} // verus!
