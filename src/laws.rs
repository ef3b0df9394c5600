//! Properties that hold across calls of the library's operations.
use vstd::prelude::*;

use crate::chunk_graph::merge_requirements;
use crate::dispatch::{
    dispatch_trace, next_action, trace_from, DispatchAction, DispatchKind, Diagnostic,
    HookOutcome,
};
use crate::hash::{
    connection_words, graph_hash_words, id_leq, identity_hash, identity_words,
    lemma_id_leq_total, lemma_sorted_targets, module_graph_hash, sorted_targets,
};
use crate::module_graph::ModuleGraphModule;

verus! {

/// Merging `f1` and then `f2` into the same runtime stores what merging
/// `f1 | f2` once stores, and the order of the two merges does not matter.
pub proof fn lemma_merge_requirements_commutes(
    reqs: Map<Seq<u64>, u64>,
    runtime: Seq<u64>,
    f1: u64,
    f2: u64,
)
    ensures
        merge_requirements(merge_requirements(reqs, runtime, f1), runtime, f2)
            == merge_requirements(reqs, runtime, f1 | f2),
        merge_requirements(merge_requirements(reqs, runtime, f1), runtime, f2)
            == merge_requirements(merge_requirements(reqs, runtime, f2), runtime, f1),
{
    let a = merge_requirements(merge_requirements(reqs, runtime, f1), runtime, f2);
    let b = merge_requirements(reqs, runtime, f1 | f2);
    let c = merge_requirements(merge_requirements(reqs, runtime, f2), runtime, f1);
    if reqs.contains_key(runtime) {
        let v = reqs[runtime];
        assert((v | f1) | f2 == v | (f1 | f2)) by (bit_vector);
        assert((v | f2) | f1 == v | (f1 | f2)) by (bit_vector);
    } else {
        assert(f1 | f2 == f2 | f1) by (bit_vector);
    }
    assert(a =~= b);
    assert(c =~= b);
}

/// Merging the same flags twice stores what merging them once stores.
pub proof fn lemma_merge_requirements_idempotent(
    reqs: Map<Seq<u64>, u64>,
    runtime: Seq<u64>,
    flags: u64,
)
    ensures
        merge_requirements(merge_requirements(reqs, runtime, flags), runtime, flags)
            == merge_requirements(reqs, runtime, flags),
{
    if reqs.contains_key(runtime) {
        let v = reqs[runtime];
        assert((v | flags) | flags == v | flags) by (bit_vector);
    } else {
        assert(flags | flags == flags) by (bit_vector);
    }
    assert(merge_requirements(merge_requirements(reqs, runtime, flags), runtime, flags)
        =~= merge_requirements(reqs, runtime, flags));
}

/// Lookup is by exact runtime set: merging under `stored` neither creates
/// nor changes the entry of any other runtime set, however much the two
/// overlap.
pub proof fn lemma_requirements_exact_key(
    reqs: Map<Seq<u64>, u64>,
    stored: Seq<u64>,
    queried: Seq<u64>,
    flags: u64,
)
    requires
        stored != queried,
    ensures
        merge_requirements(reqs, stored, flags).contains_key(queried) == reqs.contains_key(
            queried,
        ),
        reqs.contains_key(queried) ==> merge_requirements(reqs, stored, flags)[queried]
            == reqs[queried],
{
}

/// A module's graph fingerprint does not depend on the order in which its
/// outgoing connections were inserted: two records that differ only in
/// that order give the same fingerprint.
pub proof fn lemma_graph_hash_ignores_connection_order(
    g: Map<u64, ModuleGraphModule>,
    id: u64,
    m1: ModuleGraphModule,
    m2: ModuleGraphModule,
    with_connections: bool,
)
    requires
        m1.build_hash == m2.build_hash,
        m1.source_types == m2.source_types,
        m1.is_async == m2.is_async,
        m1.exports_info_hash == m2.exports_info_hash,
        m1.exports_type_strict == m2.exports_type_strict,
        m1.exports_type_default == m2.exports_type_default,
        m1.strict_harmony == m2.strict_harmony,
        m1.outgoing_ids().to_multiset() == m2.outgoing_ids().to_multiset(),
    ensures
        module_graph_hash(g.insert(id, m1), id, with_connections) == module_graph_hash(
            g.insert(id, m2),
            id,
            with_connections,
        ),
{
    let g1 = g.insert(id, m1);
    let g2 = g.insert(id, m2);
    lemma_sorted_targets(m1);
    lemma_sorted_targets(m2);
    lemma_id_leq_total();
    vstd::seq_lib::lemma_sorted_unique(sorted_targets(m1), sorted_targets(m2), id_leq());
    let ts = sorted_targets(m1);
    assert forall|s: bool, t: u64| identity_hash(t, g1[t], s) == identity_hash(t, g2[t], s) by {
        assert(identity_words(t, g1[t], s) =~= identity_words(t, g2[t], s));
    }
    assert(identity_words(id, m1, false) =~= identity_words(id, m2, false));
    assert(connection_words(g1, ts, m1.strict_harmony) =~= connection_words(
        g2,
        ts,
        m2.strict_harmony,
    ));
    assert(graph_hash_words(g1, id, with_connections) =~= graph_hash_words(
        g2,
        id,
        with_connections,
    ));
}

/// The plugins that a dispatch has to pass over stand before `j`.
pub open spec fn passes_on(kind: DispatchKind, o: HookOutcome) -> bool {
    o == HookOutcome::Continue || (kind == DispatchKind::Fold && o == HookOutcome::Applied)
}

proof fn lemma_trace_stops_at(
    kind: DispatchKind,
    total: nat,
    c: nat,
    outcomes: Seq<HookOutcome>,
    j: nat,
)
    requires
        c + j < total <= usize::MAX,
        j < outcomes.len(),
        forall|i: int| 0 <= i < j ==> passes_on(kind, #[trigger] outcomes[i]),
        !passes_on(kind, outcomes[j as int]),
    ensures
        trace_from(kind, total, c, outcomes) == Seq::new(
            j,
            |i: int| DispatchAction::Invoke((c + 1 + i) as usize),
        ).push(next_action(kind, total, c + j, outcomes[j as int])),
    decreases j,
{
    if j == 0 {
        assert(trace_from(kind, total, c, outcomes) =~= Seq::new(
            j,
            |i: int| DispatchAction::Invoke((c + 1 + i) as usize),
        ).push(next_action(kind, total, c + j, outcomes[j as int])));
    } else {
        assert(passes_on(kind, outcomes[0]));
        let rest = outcomes.drop_first();
        assert forall|i: int| 0 <= i < j - 1 implies passes_on(kind, #[trigger] rest[i]) by {
            assert(rest[i] == outcomes[i + 1]);
        }
        lemma_trace_stops_at(kind, total, c + 1, rest, (j - 1) as nat);
        assert(trace_from(kind, total, c, outcomes) =~= Seq::new(
            j,
            |i: int| DispatchAction::Invoke((c + 1 + i) as usize),
        ).push(next_action(kind, total, c + j, outcomes[j as int])));
    }
}

proof fn lemma_trace_runs_to_end(
    kind: DispatchKind,
    total: nat,
    c: nat,
    outcomes: Seq<HookOutcome>,
)
    requires
        c < total <= usize::MAX,
        outcomes.len() == total - c,
        forall|i: int| 0 <= i < outcomes.len() ==> passes_on(kind, #[trigger] outcomes[i]),
    ensures
        trace_from(kind, total, c, outcomes) == Seq::new(
            (total - c - 1) as nat,
            |i: int| DispatchAction::Invoke((c + 1 + i) as usize),
        ).push(DispatchAction::Finished),
    decreases total - c,
{
    if c + 1 < total {
        let rest = outcomes.drop_first();
        assert(passes_on(kind, outcomes[0]));
        assert forall|i: int| 0 <= i < rest.len() implies passes_on(kind, #[trigger] rest[i]) by {
            assert(rest[i] == outcomes[i + 1]);
        }
        lemma_trace_runs_to_end(kind, total, c + 1, rest);
    } else {
        assert(passes_on(kind, outcomes[0]));
    }
    assert(trace_from(kind, total, c, outcomes) =~= Seq::new(
        (total - c - 1) as nat,
        |i: int| DispatchAction::Invoke((c + 1 + i) as usize),
    ).push(DispatchAction::Finished));
}

/// When every plugin of a fold hook succeeds, the plugins are invoked one
/// by one in registration order, each exactly once, and the dispatch then
/// finishes.
pub proof fn lemma_fold_invokes_in_registration_order(total: nat, outcomes: Seq<HookOutcome>)
    requires
        0 < total <= usize::MAX,
        outcomes.len() == total,
        forall|i: int| 0 <= i < total ==> #[trigger] outcomes[i] != HookOutcome::Failed,
    ensures
        dispatch_trace(DispatchKind::Fold, total, outcomes) == Seq::new(
            total,
            |i: int| DispatchAction::Invoke(i as usize),
        ).push(DispatchAction::Finished),
{
    assert forall|i: int| 0 <= i < outcomes.len() implies passes_on(
        DispatchKind::Fold,
        #[trigger] outcomes[i],
    ) by {
        assert(outcomes[i] != HookOutcome::Failed);
    }
    lemma_trace_runs_to_end(DispatchKind::Fold, total, 0, outcomes);
    assert(dispatch_trace(DispatchKind::Fold, total, outcomes) =~= Seq::new(
        total,
        |i: int| DispatchAction::Invoke(i as usize),
    ).push(DispatchAction::Finished));
}

/// In a first-applicable dispatch, when the plugins before `j` return no
/// result and plugin `j` returns one, plugins `0..=j` are invoked in order,
/// the dispatch stops with plugin `j`'s result, and no later plugin runs.
pub proof fn lemma_first_applicable_wins(total: nat, outcomes: Seq<HookOutcome>, j: nat)
    requires
        j < total <= usize::MAX,
        j < outcomes.len(),
        forall|i: int| 0 <= i < j ==> #[trigger] outcomes[i] == HookOutcome::Continue,
        outcomes[j as int] == HookOutcome::Applied,
    ensures
        dispatch_trace(DispatchKind::FirstApplicable, total, outcomes) == Seq::new(
            j + 1,
            |i: int| DispatchAction::Invoke(i as usize),
        ).push(DispatchAction::Applied(j as usize)),
{
    let k = DispatchKind::FirstApplicable;
    assert forall|i: int| 0 <= i < j implies passes_on(k, #[trigger] outcomes[i]) by {
        assert(outcomes[i] == HookOutcome::Continue);
    }
    lemma_trace_stops_at(k, total, 0, outcomes, j);
    assert(dispatch_trace(k, total, outcomes) =~= Seq::new(
        j + 1,
        |i: int| DispatchAction::Invoke(i as usize),
    ).push(DispatchAction::Applied(j as usize)));
}

/// When plugin `j` fails and the plugins before it went on, plugins `0..=j`
/// are invoked in order, the dispatch stops with plugin `j`'s failure, and
/// no later plugin runs.
pub proof fn lemma_first_failure_aborts(
    kind: DispatchKind,
    total: nat,
    outcomes: Seq<HookOutcome>,
    j: nat,
)
    requires
        j < total <= usize::MAX,
        j < outcomes.len(),
        forall|i: int| 0 <= i < j ==> passes_on(kind, #[trigger] outcomes[i]),
        outcomes[j as int] == HookOutcome::Failed,
    ensures
        dispatch_trace(kind, total, outcomes) == Seq::new(
            j + 1,
            |i: int| DispatchAction::Invoke(i as usize),
        ).push(DispatchAction::Failed(j as usize)),
{
    lemma_trace_stops_at(kind, total, 0, outcomes, j);
    assert(dispatch_trace(kind, total, outcomes) =~= Seq::new(
        j + 1,
        |i: int| DispatchAction::Invoke(i as usize),
    ).push(DispatchAction::Failed(j as usize)));
}

/// The buffer contents after appending `appended` in order to `start`.
pub open spec fn after_appends(start: Seq<Diagnostic>, appended: Seq<Diagnostic>) -> Seq<
    Diagnostic,
>
    decreases appended.len(),
{
    if appended.len() == 0 {
        start
    } else {
        after_appends(start, appended.drop_last()).push(appended.last())
    }
}

/// After a drain, appending diagnostics one by one leaves exactly those in
/// the buffer, in append order; that is what the next drain returns, and a
/// drain right after it returns nothing.
pub proof fn lemma_drain_returns_appended(appended: Seq<Diagnostic>)
    ensures
        after_appends(Seq::empty(), appended) == appended,
    decreases appended.len(),
{
    if appended.len() > 0 {
        lemma_drain_returns_appended(appended.drop_last());
        assert(appended.drop_last().push(appended.last()) =~= appended);
    }
}

} // verus!
