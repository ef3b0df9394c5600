//! Deterministic fingerprints of modules and of their direct connections.
use std::collections::hash_map::DefaultHasher;
use std::hash::Hasher;

use vstd::prelude::*;
use vstd::relations::{sorted_by, total_ordering};
use vstd::std_specs::hash::DefaultHasherAdditionalSpecFns;

use crate::ids::ModuleIdentifier;
use crate::module_graph::{
    exports_type_code, exports_type_code_of, ModuleGraph, ModuleGraphModule,
};
use crate::order::{sort_u64s, sorted_u64, strictly_sorted_u64};

verus! {

/// Ascending order of module identifiers.
pub open spec fn id_leq() -> spec_fn(u64, u64) -> bool {
    |a: u64, b: u64| a <= b
}

/// The eight little-endian bytes of a word.
pub open spec fn le_bytes(x: u64) -> Seq<u8> {
    Seq::new(8, |j: int| (x >> ((8 * j) as u64)) as u8)
}

/// std's default hasher (fixed keys) fed with the words, each as its
/// little-endian bytes, one write per word.
pub open spec fn digest(words: Seq<u64>) -> u64 {
    DefaultHasher::spec_finish(words.map_values(|w: u64| le_bytes(w)))
}

pub open spec fn hex_digits() -> Seq<char> {
    seq!['0', '1', '2', '3', '4', '5', '6', '7', '8', '9', 'a', 'b', 'c', 'd', 'e', 'f']
}

/// Sixteen lowercase hexadecimal digits, most significant first.
pub open spec fn hex16(v: u64) -> Seq<char> {
    Seq::new(16, |i: int| hex_digits()[((v >> ((4 * (15 - i)) as u64)) & 15) as int])
}

/// The words that make up a module's identity sub-hash.
pub open spec fn identity_words(id: u64, m: ModuleGraphModule, strict: bool) -> Seq<u64> {
    seq![
        id,
        m.source_types,
        if m.is_async { 1u64 } else { 0u64 },
        m.exports_info_hash,
        exports_type_code(m.exports_type_for(strict)),
    ]
}

/// A module's identity sub-hash.
pub open spec fn identity_hash(id: u64, m: ModuleGraphModule, strict: bool) -> u64 {
    digest(identity_words(id, m, strict))
}

/// The identity sub-hashes of the connection targets, in the given order.
pub open spec fn connection_words(
    g: Map<u64, ModuleGraphModule>,
    targets: Seq<u64>,
    strict: bool,
) -> Seq<u64> {
    targets.map_values(|t: u64| identity_hash(t, g[t], strict))
}

/// A module's connection targets in ascending order.
pub open spec fn sorted_targets(m: ModuleGraphModule) -> Seq<u64> {
    m.outgoing_ids().sort_by(id_leq())
}

/// Whether the module, and with connections every target, is in the graph.
pub open spec fn hash_inputs_present(
    g: Map<u64, ModuleGraphModule>,
    id: u64,
    with_connections: bool,
) -> bool {
    &&& g.contains_key(id)
    &&& with_connections ==> forall|t: u64| #[trigger]
        g[id].outgoing_ids().contains(t) ==> g.contains_key(t)
}

/// Everything folded into a module's graph fingerprint, in order.
pub open spec fn graph_hash_words(
    g: Map<u64, ModuleGraphModule>,
    id: u64,
    with_connections: bool,
) -> Seq<u64> {
    let m = g[id];
    let base = seq![m.build_hash, identity_hash(id, m, false)];
    if with_connections {
        base + connection_words(g, sorted_targets(m), m.strict_harmony)
    } else {
        base
    }
}

/// A module's graph fingerprint as fixed-width lowercase hexadecimal.
pub open spec fn module_graph_hash(
    g: Map<u64, ModuleGraphModule>,
    id: u64,
    with_connections: bool,
) -> Seq<char> {
    hex16(digest(graph_hash_words(g, id, with_connections)))
}

pub proof fn lemma_id_leq_total()
    ensures
        total_ordering(id_leq()),
{
}

/// The sorted targets are the targets, each as often, in ascending order.
pub proof fn lemma_sorted_targets(m: ModuleGraphModule)
    ensures
        sorted_by(sorted_targets(m), id_leq()),
        sorted_targets(m).to_multiset() == m.outgoing_ids().to_multiset(),
{
    lemma_id_leq_total();
    m.outgoing_ids().lemma_sort_by_ensures(id_leq());
}

pub fn le_bytes_of(x: u64) -> (r: Vec<u8>)
    ensures
        r@ == le_bytes(x),
{
    let mut out: Vec<u8> = Vec::new();
    let mut j: u64 = 0;
    while j < 8
        invariant
            j <= 8,
            out@ == le_bytes(x).take(j as int),
        decreases 8 - j,
    {
        out.push((x >> (8 * j)) as u8);
        proof {
            assert(le_bytes(x).take(j + 1) =~= le_bytes(x).take(j as int).push(
                (x >> (8 * j)) as u8,
            ));
        }
        j = j + 1;
    }
    proof {
        assert(le_bytes(x).take(8) =~= le_bytes(x));
    }
    out
}

/// Hashes the words with std's default hasher.
pub fn digest_words(words: &Vec<u64>) -> (r: u64)
    ensures
        r == digest(words@),
{
    let mut hasher = DefaultHasher::new();
    let mut i: usize = 0;
    while i < words.len()
        invariant
            i <= words@.len(),
            hasher@ == words@.take(i as int).map_values(|w: u64| le_bytes(w)),
        decreases words@.len() - i,
    {
        let bytes = le_bytes_of(words[i]);
        hasher.write(bytes.as_slice());
        proof {
            assert(words@.take(i + 1).map_values(|w: u64| le_bytes(w)) =~= words@.take(
                i as int,
            ).map_values(|w: u64| le_bytes(w)).push(le_bytes(words@[i as int])));
        }
        i = i + 1;
    }
    proof {
        assert(words@.take(words@.len() as int) =~= words@);
    }
    hasher.finish()
}

/// Relies on `format!` with `{:016x}`: sixteen lowercase hexadecimal digits,
/// zero padded, most significant first.
#[verifier::external_body]
fn to_hex16(v: u64) -> (r: String)
    ensures
        r@ == hex16(v),
{
    format!("{:016x}", v)
}

/// Renders a word as sixteen lowercase hexadecimal digits.
pub fn hex_string(v: u64) -> (r: String)
    ensures
        r@ == hex16(v),
{
    to_hex16(v)
}

/// The identity sub-hash of a module record.
pub fn module_identity_hash(id: u64, m: &ModuleGraphModule, strict: bool) -> (r: u64)
    ensures
        r == identity_hash(id, *m, strict),
{
    let mut words: Vec<u64> = Vec::new();
    words.push(id);
    words.push(m.source_types);
    words.push(if m.is_async { 1 } else { 0 });
    words.push(m.exports_info_hash);
    words.push(exports_type_code_of(m.get_exports_type(strict)));
    proof {
        assert(words@ =~= identity_words(id, *m, strict));
    }
    digest_words(&words)
}

/// The identity sub-hashes of ascending connection targets. Equal targets
/// stand next to each other, so each distinct target is hashed once and its
/// hash reused. The second result gets one entry, the target, each time a
/// sub-hash is computed, and at no other time.
pub fn connection_hashes(graph: &ModuleGraph, targets: &Vec<u64>, strict: bool) -> (r: Result<
    (Vec<u64>, Vec<u64>),
    ModuleIdentifier,
>)
    requires
        sorted_u64(targets@),
    ensures
        match r {
            Ok((words, hashed)) => {
                &&& forall|i: int| 0 <= i < targets@.len() ==> graph@.contains_key(#[trigger] targets@[i])
                &&& words@ == connection_words(graph@, targets@, strict)
                &&& hashed@.no_duplicates()
                &&& hashed@.to_set() == targets@.to_set()
            },
            Err(missing) => targets@.contains(missing.id) && !graph@.contains_key(missing.id),
        },
{
    let mut words: Vec<u64> = Vec::new();
    let mut hashed: Vec<u64> = Vec::new();
    let mut last_hash: u64 = 0;
    let mut i: usize = 0;
    while i < targets.len()
        invariant
            i <= targets@.len(),
            sorted_u64(targets@),
            forall|k: int| 0 <= k < i ==> graph@.contains_key(#[trigger] targets@[k]),
            words@ == connection_words(graph@, targets@.take(i as int), strict),
            strictly_sorted_u64(hashed@),
            hashed@.to_set() == targets@.take(i as int).to_set(),
            i > 0 ==> hashed@.len() > 0 && hashed@.last() == targets@[i - 1] && last_hash
                == identity_hash(targets@[i - 1], graph@[targets@[i - 1]], strict),
            i == 0 ==> hashed@.len() == 0,
        decreases targets@.len() - i,
    {
        let t = targets[i];
        let ghost prev = hashed@;
        if hashed.len() == 0 || hashed[hashed.len() - 1] != t {
            match graph.module_graph_module_by_identifier(&ModuleIdentifier { id: t }) {
                Some(m) => {
                    last_hash = module_identity_hash(t, m, strict);
                    hashed.push(t);
                },
                None => {
                    proof {
                        assert(targets@[i as int] == t);
                    }
                    return Err(ModuleIdentifier { id: t });
                },
            }
        }
        words.push(last_hash);
        proof {
            broadcast use vstd::seq_lib::lemma_seq_contains_after_push;

            assert(targets@.take(i + 1) =~= targets@.take(i as int).push(t));
            assert(connection_words(graph@, targets@.take(i + 1), strict) =~= connection_words(
                graph@,
                targets@.take(i as int),
                strict,
            ).push(identity_hash(t, graph@[t], strict)));
            assert forall|y: u64| hashed@.contains(y) <==> targets@.take(i + 1).contains(y) by {
                if hashed@.len() > prev.len() {
                    assert(hashed@ == prev.push(t));
                    if hashed@.contains(y) && y != t {
                        let k = choose|k: int| 0 <= k < hashed@.len() && #[trigger] hashed@[k] == y;
                        assert(prev[k] == y);
                    }
                } else {
                    assert(prev.contains(t)) by {
                        assert(prev[prev.len() - 1] == t);
                    }
                }
                assert(prev.contains(y) <==> targets@.take(i as int).to_set().contains(y));
            }
            assert(hashed@.to_set() =~= targets@.take(i + 1).to_set());
        }
        i = i + 1;
    }
    proof {
        assert(targets@.take(targets@.len() as int) =~= targets@);
        assert(hashed@.no_duplicates()) by {
            assert forall|a: int, b: int|
                0 <= a < hashed@.len() && 0 <= b < hashed@.len() && a != b implies hashed@[a]
                != hashed@[b] by {
                if a < b {
                    assert(hashed@[a] < hashed@[b]);
                } else {
                    assert(hashed@[b] < hashed@[a]);
                }
            }
        }
    }
    Ok((words, hashed))
}

/// A module's connection targets in ascending order.
pub fn sorted_target_ids(m: &ModuleGraphModule) -> (r: Vec<u64>)
    ensures
        r@ == sorted_targets(*m),
{
    let mut ids: Vec<u64> = Vec::new();
    let mut i: usize = 0;
    while i < m.outgoing.len()
        invariant
            i <= m.outgoing@.len(),
            ids@ == m.outgoing_ids().take(i as int),
        decreases m.outgoing@.len() - i,
    {
        ids.push(m.outgoing[i].id);
        proof {
            assert(m.outgoing_ids().take(i + 1) =~= m.outgoing_ids().take(i as int).push(
                m.outgoing@[i as int].id,
            ));
        }
        i = i + 1;
    }
    proof {
        assert(m.outgoing_ids().take(m.outgoing@.len() as int) =~= m.outgoing_ids());
    }
    sort_u64s(&mut ids);
    proof {
        lemma_id_leq_total();
        lemma_sorted_targets(*m);
        assert(sorted_by(ids@, id_leq()));
        vstd::seq_lib::lemma_sorted_unique(ids@, sorted_targets(*m), id_leq());
    }
    ids
}

} // verus!
