use rspack_core::hash::{connection_hashes, digest_words, hex_string, sorted_target_ids};
use rspack_core::{
    ChunkGraph, ChunkGraphError, ExportsType, ModuleGraph, ModuleGraphModule, ModuleIdentifier,
};

fn m(id: u64) -> ModuleIdentifier {
    ModuleIdentifier::new(id)
}

#[allow(clippy::too_many_arguments)]
fn record(
    build_hash: u64,
    source_types: u64,
    is_async: bool,
    exports_info_hash: u64,
    exports_type_strict: ExportsType,
    exports_type_default: ExportsType,
    strict_harmony: bool,
    outgoing: Vec<u64>,
) -> ModuleGraphModule {
    ModuleGraphModule {
        build_hash,
        source_types,
        is_async,
        exports_info_hash,
        exports_type_strict,
        exports_type_default,
        strict_harmony,
        outgoing: outgoing.into_iter().map(ModuleIdentifier::new).collect(),
    }
}

/// 1 -> {3, 2}, 2 -> 4, 3 -> 4: a diamond on module 4.
fn diamond(root_outgoing: Vec<u64>) -> ModuleGraph {
    let mut g = ModuleGraph::new();
    g.add_module(
        m(1),
        record(11, 1, false, 101, ExportsType::Namespace, ExportsType::Dynamic, true, root_outgoing),
    );
    g.add_module(
        m(2),
        record(22, 1, true, 202, ExportsType::DefaultOnly, ExportsType::Dynamic, false, vec![4]),
    );
    g.add_module(
        m(3),
        record(
            33,
            3,
            false,
            303,
            ExportsType::DefaultWithNamed,
            ExportsType::Namespace,
            false,
            vec![4],
        ),
    );
    g.add_module(
        m(4),
        record(44, 1, false, 404, ExportsType::Namespace, ExportsType::DefaultOnly, true, vec![]),
    );
    g
}

#[test]
fn digest_of_nothing_is_default_hasher_of_nothing() {
    assert_eq!(digest_words(&vec![]), 0xd1fba762150c532c);
    assert_eq!(digest_words(&vec![1, 2, 3]), 10001198531354766753);
}

#[test]
fn hex_string_is_sixteen_lowercase_digits() {
    assert_eq!(hex_string(0xab), "00000000000000ab");
    assert_eq!(hex_string(u64::MAX), "ffffffffffffffff");
    assert_eq!(hex_string(0x0123456789ABCDEF), "0123456789abcdef");
}

#[test]
fn graph_hash_exact_values() {
    let g = diamond(vec![3, 2]);
    let cg = ChunkGraph::new();
    assert_eq!(cg.get_module_graph_hash(&m(1), &g, true).unwrap(), "05d43a16c3560c22");
    assert_eq!(cg.get_module_graph_hash(&m(1), &g, false).unwrap(), "d1904610f40b432c");
    assert_eq!(cg.get_module_graph_hash(&m(4), &g, true).unwrap(), "64aa5858ce346921");
}

#[test]
fn graph_hash_is_deterministic() {
    let g = diamond(vec![3, 2]);
    let cg = ChunkGraph::new();
    let first = cg.get_module_graph_hash(&m(1), &g, true).unwrap();
    let second = cg.get_module_graph_hash(&m(1), &g, true).unwrap();
    assert_eq!(first, second);
    assert_eq!(first.len(), 16);
}

#[test]
fn graph_hash_ignores_connection_insertion_order() {
    let cg = ChunkGraph::new();
    let a = cg.get_module_graph_hash(&m(1), &diamond(vec![3, 2]), true).unwrap();
    let b = cg.get_module_graph_hash(&m(1), &diamond(vec![2, 3]), true).unwrap();
    assert_eq!(a, b);
}

#[test]
fn graph_hash_depends_on_connections() {
    let g = diamond(vec![3, 2]);
    let cg = ChunkGraph::new();
    assert_ne!(
        cg.get_module_graph_hash(&m(1), &g, true).unwrap(),
        cg.get_module_graph_hash(&m(1), &g, false).unwrap()
    );
}

#[test]
fn diamond_hashes_each_target_once() {
    let g = diamond(vec![3, 2]);
    let (words, hashed) = connection_hashes(&g, &vec![2, 3], true).unwrap();
    assert_eq!(words.len(), 2);
    assert_eq!(hashed, vec![2, 3]);
    let (words, hashed) = connection_hashes(&g, &vec![2, 4, 4], true).unwrap();
    assert_eq!(words.len(), 3);
    assert_eq!(words[1], words[2]);
    assert_eq!(hashed, vec![2, 4]);
}

#[test]
fn graph_hash_missing_module_is_reported() {
    let g = diamond(vec![3, 2]);
    let cg = ChunkGraph::new();
    assert_eq!(
        cg.get_module_graph_hash(&m(9), &g, false).unwrap_err(),
        ChunkGraphError::ModuleNotFound(m(9))
    );
}

#[test]
fn graph_hash_missing_target_is_reported() {
    let g = diamond(vec![3, 8, 2]);
    let cg = ChunkGraph::new();
    assert_eq!(
        cg.get_module_graph_hash(&m(1), &g, true).unwrap_err(),
        ChunkGraphError::ModuleNotFound(m(8))
    );
    assert!(cg.get_module_graph_hash(&m(1), &g, false).is_ok());
}

#[test]
fn connection_targets_come_out_sorted() {
    let r = record(0, 0, false, 0, ExportsType::Dynamic, ExportsType::Dynamic, false, vec![9, 2, 5, 2]);
    assert_eq!(sorted_target_ids(&r), vec![2, 2, 5, 9]);
}
