use rspack_core::{
    AsyncDependenciesBlockId, Chunk, ChunkByUkey, ChunkGraph, ChunkGraphError, ChunkGroup,
    ChunkGroupByUkey, ChunkGroupUkey, ChunkUkey, ModuleIdentifier, RuntimeGlobals, RuntimeSpec,
    RuntimeSpecMap, RuntimeSpecSet,
};

fn m(id: u64) -> ModuleIdentifier {
    ModuleIdentifier::new(id)
}

fn c(key: u64) -> ChunkUkey {
    ChunkUkey::new(key)
}

#[test]
fn merge_twice_equals_union_once() {
    let rt = RuntimeSpec::single(1);
    let f1 = RuntimeGlobals::from_bits(0b0011);
    let f2 = RuntimeGlobals::from_bits(0b0110);

    let mut a = ChunkGraph::new();
    a.add_module_runtime_requirements(m(7), &rt, f1);
    a.add_module_runtime_requirements(m(7), &rt, f2);

    let mut b = ChunkGraph::new();
    b.add_module_runtime_requirements(m(7), &rt, f2);
    b.add_module_runtime_requirements(m(7), &rt, f1);

    let mut once = ChunkGraph::new();
    once.add_module_runtime_requirements(m(7), &rt, f1.union(f2));

    let expected = Some(RuntimeGlobals::from_bits(0b0111));
    assert_eq!(a.get_module_runtime_requirements(m(7), &rt), expected);
    assert_eq!(b.get_module_runtime_requirements(m(7), &rt), expected);
    assert_eq!(once.get_module_runtime_requirements(m(7), &rt), expected);
}

#[test]
fn merge_same_flags_is_idempotent() {
    let rt = RuntimeSpec::single(3);
    let f = RuntimeGlobals::from_bits(0b1000);
    let mut g = ChunkGraph::new();
    g.add_module_runtime_requirements(m(1), &rt, f);
    g.add_module_runtime_requirements(m(1), &rt, f);
    assert_eq!(g.get_module_runtime_requirements(m(1), &rt), Some(f));
}

#[test]
fn unseen_module_has_no_chunks() {
    let g = ChunkGraph::new();
    assert!(g.get_module_chunks(m(42)).is_empty());
    assert_eq!(g.get_number_of_module_chunks(m(42)), 0);
    assert_eq!(g.get_module_id(m(42)), None);
    assert_eq!(g.get_module_runtime_requirements(m(42), &RuntimeSpec::single(1)), None);
}

#[test]
fn lookup_needs_exact_runtime() {
    let main_and_worker = RuntimeSpec::from_names(vec![1, 2]);
    let main_only = RuntimeSpec::single(1);
    let mut g = ChunkGraph::new();
    g.add_module_runtime_requirements(m(5), &main_and_worker, RuntimeGlobals::from_bits(4));
    assert_eq!(g.get_module_runtime_requirements(m(5), &main_only), None);
    assert_eq!(
        g.get_module_runtime_requirements(m(5), &RuntimeSpec::from_names(vec![2, 1, 2])),
        Some(RuntimeGlobals::from_bits(4))
    );
}

#[test]
fn runtimes_kept_per_runtime_set() {
    let r1 = RuntimeSpec::single(1);
    let r2 = RuntimeSpec::single(2);
    let mut g = ChunkGraph::new();
    g.add_module_runtime_requirements(m(5), &r1, RuntimeGlobals::from_bits(1));
    g.add_module_runtime_requirements(m(5), &r2, RuntimeGlobals::from_bits(2));
    assert_eq!(g.get_module_runtime_requirements(m(5), &r1), Some(RuntimeGlobals::from_bits(1)));
    assert_eq!(g.get_module_runtime_requirements(m(5), &r2), Some(RuntimeGlobals::from_bits(2)));
    assert_eq!(g.get_module_runtime_requirements(m(6), &r1), None);
}

#[test]
fn runtime_spec_is_canonical_set() {
    let a = RuntimeSpec::from_names(vec![3, 1, 3, 2]);
    let b = RuntimeSpec::from_names(vec![1, 2, 3]);
    assert!(a.same_as(&b));
    assert!(a.contains_name(2));
    assert!(!a.contains_name(4));
    assert!(!a.same_as(&RuntimeSpec::from_names(vec![1, 2])));
    let empty = RuntimeSpec::from_names(vec![]);
    assert!(empty.same_as(&RuntimeSpec::from_names(vec![])));
    assert!(!empty.contains_name(0));
}

#[test]
fn runtime_spec_map_set_replaces() {
    let mut map = RuntimeSpecMap::new();
    let rt = RuntimeSpec::single(9);
    map.set(&rt, RuntimeGlobals::from_bits(1));
    map.set(&rt, RuntimeGlobals::from_bits(2));
    assert_eq!(map.len(), 1);
    assert_eq!(map.get(&rt), Some(RuntimeGlobals::from_bits(2)));
    map.set(&RuntimeSpec::single(8), RuntimeGlobals::from_bits(3));
    assert_eq!(map.len(), 2);
}

#[test]
fn runtime_spec_set_deduplicates() {
    let mut set = RuntimeSpecSet::new();
    set.set(RuntimeSpec::single(1));
    set.set(RuntimeSpec::from_names(vec![1]));
    set.set(RuntimeSpec::single(2));
    assert_eq!(set.len(), 2);
    assert!(set.contains(&RuntimeSpec::single(2)));
    assert!(!set.contains(&RuntimeSpec::from_names(vec![1, 2])));
}

#[test]
fn runtime_globals_operations() {
    let mut a = RuntimeGlobals::from_bits(0b01);
    a.insert(RuntimeGlobals::from_bits(0b10));
    assert_eq!(a.bits, 0b11);
    assert!(a.contains(RuntimeGlobals::from_bits(0b10)));
    assert!(!RuntimeGlobals::empty().contains(RuntimeGlobals::from_bits(1)));
}

#[test]
fn connect_chunk_and_module_both_directions() {
    let mut g = ChunkGraph::new();
    g.connect_chunk_and_module(c(1), m(10));
    g.connect_chunk_and_module(c(2), m(10));
    g.connect_chunk_and_module(c(1), m(10));
    assert_eq!(g.get_module_chunks(m(10)), vec![c(1), c(2)]);
    assert_eq!(g.get_number_of_module_chunks(m(10)), 2);
    assert!(g.is_module_in_chunk(&m(10), c(1)));
    assert!(g.is_module_in_chunk(&m(10), c(2)));
    assert!(!g.is_module_in_chunk(&m(11), c(1)));
    assert!(!g.is_module_in_chunk(&m(10), c(3)));
}

#[test]
fn module_runtimes_union_of_chunk_runtimes() {
    let mut chunks = ChunkByUkey::new();
    chunks.add(Chunk { ukey: c(1), runtime: RuntimeSpec::single(1) });
    chunks.add(Chunk { ukey: c(2), runtime: RuntimeSpec::from_names(vec![1, 2]) });
    chunks.add(Chunk { ukey: c(3), runtime: RuntimeSpec::single(1) });
    let mut g = ChunkGraph::new();
    g.connect_chunk_and_module(c(1), m(10));
    g.connect_chunk_and_module(c(2), m(10));
    g.connect_chunk_and_module(c(3), m(10));
    let runtimes = g.get_module_runtimes(m(10), &chunks).unwrap();
    assert_eq!(runtimes.len(), 2);
    assert!(runtimes.contains(&RuntimeSpec::single(1)));
    assert!(runtimes.contains(&RuntimeSpec::from_names(vec![2, 1])));
    assert_eq!(g.get_module_runtimes(m(99), &chunks).unwrap().len(), 0);
}

#[test]
fn module_runtimes_reports_missing_chunk() {
    let chunks = ChunkByUkey::new();
    let mut g = ChunkGraph::new();
    g.connect_chunk_and_module(c(4), m(10));
    assert_eq!(
        g.get_module_runtimes(m(10), &chunks).unwrap_err(),
        ChunkGraphError::ChunkNotFound(c(4))
    );
}

#[test]
fn module_id_set_and_get() {
    let mut g = ChunkGraph::new();
    assert_eq!(g.get_module_id(m(3)), None);
    g.set_module_id(m(3), "./src/index.js".to_string());
    assert_eq!(g.get_module_id(m(3)), Some("./src/index.js".to_string()));
    g.set_module_id(m(3), "42".to_string());
    assert_eq!(g.get_module_id(m(3)), Some("42".to_string()));
    assert_eq!(g.get_module_id(m(4)), None);
}

#[test]
fn block_chunk_group_two_step_lookup() {
    let mut groups = ChunkGroupByUkey::new();
    groups.add(ChunkGroup { ukey: ChunkGroupUkey::new(5), chunks: vec![c(1)] });
    let mut g = ChunkGraph::new();
    let block = AsyncDependenciesBlockId::new(100);
    assert!(g.get_block_chunk_group(&block, &groups).is_none());
    g.connect_block_and_chunk_group(block, ChunkGroupUkey::new(5));
    let found = g.get_block_chunk_group(&block, &groups).unwrap();
    assert_eq!(found.ukey, ChunkGroupUkey::new(5));
    assert_eq!(found.chunks, vec![c(1)]);
    let other = AsyncDependenciesBlockId::new(101);
    g.connect_block_and_chunk_group(other, ChunkGroupUkey::new(6));
    assert!(g.get_block_chunk_group(&other, &groups).is_none());
}
