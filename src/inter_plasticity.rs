use vstd::prelude::*;
use crate::connection::{net, InterConnection, MIN_FORCE, UNCONNECTED_FORCE, ZERO_FORCE};
use crate::settings::{GuardianSettings, NetworkSettings};
use crate::topology::{shape_ok, total_nodes, wrap_wide, wrapped};
use crate::counter::{
    decode_state, state_of, CounterInterConnection, NodeState, FAILED_VALUE, SEARCHING_VALUE,
    TAKEOVER_VALUE,
};

verus! {

/// Interconnection records and their counters agree in length, fit 32-bit
/// indices, and every committed and pending index addresses a record.
pub open spec fn inter_wf(c: Seq<InterConnection>, k: Seq<CounterInterConnection>) -> bool {
    &&& c.len() == k.len()
    &&& c.len() <= u32::MAX
    &&& forall|j: int|
        0 <= j < c.len() ==> (#[trigger] c[j]).index < c.len() && c[j].pending_index < c.len()
}

pub open spec fn is_takeover(k: CounterInterConnection) -> bool {
    k.0 == TAKEOVER_VALUE
}

pub open spec fn is_failed(k: CounterInterConnection, th: u8) -> bool {
    state_of(k.0, th) == NodeState::Failed
}

/// Every endpoint that attempts a takeover targets one that neither attempts a
/// takeover nor has failed.
pub open spec fn targets_settled(c: Seq<InterConnection>, k: Seq<CounterInterConnection>, th: u8) -> bool {
    forall|j: int|
        0 <= j < c.len() && is_takeover(#[trigger] k[j]) ==> !is_takeover(k[c[j].pending_index as int])
            && !is_failed(k[c[j].pending_index as int], th)
}

/// Every endpoint that attempts a takeover targets one that does not.
pub open spec fn targets_passive(c: Seq<InterConnection>, k: Seq<CounterInterConnection>) -> bool {
    forall|j: int|
        0 <= j < c.len() && is_takeover(#[trigger] k[j]) ==> !is_takeover(k[c[j].pending_index as int])
}

/// Endpoint `j` holds a committed edge to its pending target, and the target points back.
pub open spec fn holds_mutual_edge(c: Seq<InterConnection>, j: int) -> bool {
    &&& c[j].index == c[j].pending_index
    &&& c[c[j].index as int].index == j
}

/// First pass of arbitration at endpoint `i`: an endpoint attempting a takeover
/// whose target also attempts one, or has failed, retreats; otherwise it offers
/// its pending force to the target, where the largest offer stays.
pub open spec fn offer_step(
    c: Seq<InterConnection>,
    k: Seq<CounterInterConnection>,
    th: u8,
    i: int,
) -> (Seq<InterConnection>, Seq<CounterInterConnection>) {
    if is_takeover(k[i]) {
        let t = c[i].pending_index as int;
        if is_takeover(k[t]) || is_failed(k[t], th) {
            (c.update(i, c[i].spec_reset_pending()), k.update(i, CounterInterConnection(FAILED_VALUE)))
        } else {
            let offer = c[i].pending_force_other;
            let kept = if offer > c[t].force_self {
                offer
            } else {
                c[t].force_self
            };
            (c.update(t, InterConnection { force_self: kept, ..c[t] }), k)
        }
    } else {
        (c, k)
    }
}

/// Second pass at endpoint `i`: an attempt whose offer is the one that stayed
/// offers its own index to the target, where the largest stays; a beaten
/// attempt, and a failed endpoint, go back to searching.
pub open spec fn tie_step(
    c: Seq<InterConnection>,
    k: Seq<CounterInterConnection>,
    th: u8,
    i: int,
) -> (Seq<InterConnection>, Seq<CounterInterConnection>) {
    if is_takeover(k[i]) {
        let t = c[i].pending_index as int;
        if c[i].pending_force_other == c[t].force_self {
            let kept = if i > c[t].index {
                i as u32
            } else {
                c[t].index
            };
            (c.update(t, InterConnection { index: kept, ..c[t] }), k)
        } else {
            (c.update(i, c[i].spec_reset_pending()), k.update(i, CounterInterConnection(SEARCHING_VALUE)))
        }
    } else if is_failed(k[i], th) {
        (c.update(i, c[i].spec_reset_pending()), k.update(i, CounterInterConnection(SEARCHING_VALUE)))
    } else {
        (c, k)
    }
}

/// Third pass at endpoint `i`: an attempt whose index is the one that stayed at
/// its target commits, and the target takes the mirrored forces; any other
/// attempt goes back to searching.
pub open spec fn commit_step(
    c: Seq<InterConnection>,
    k: Seq<CounterInterConnection>,
    i: int,
) -> (Seq<InterConnection>, Seq<CounterInterConnection>) {
    if is_takeover(k[i]) {
        let t = c[i].pending_index as int;
        if c[t].index != i {
            (c.update(i, c[i].spec_reset_pending()), k.update(i, CounterInterConnection(SEARCHING_VALUE)))
        } else {
            let c1 = c.update(i, c[i].spec_move_pending_to_main());
            (c1.update(t, c1[t].with_forces(c[i].pending_force_other, c[i].pending_force_self)), k)
        }
    } else {
        (c, k)
    }
}

/// The first pass applied to endpoints `0..n`, in order.
pub open spec fn offer_pass(
    c: Seq<InterConnection>,
    k: Seq<CounterInterConnection>,
    th: u8,
    n: nat,
) -> (Seq<InterConnection>, Seq<CounterInterConnection>)
    decreases n,
{
    if n == 0 {
        (c, k)
    } else {
        let p = offer_pass(c, k, th, (n - 1) as nat);
        offer_step(p.0, p.1, th, n - 1)
    }
}

/// The second pass applied to endpoints `0..n`, in order.
pub open spec fn tie_pass(
    c: Seq<InterConnection>,
    k: Seq<CounterInterConnection>,
    th: u8,
    n: nat,
) -> (Seq<InterConnection>, Seq<CounterInterConnection>)
    decreases n,
{
    if n == 0 {
        (c, k)
    } else {
        let p = tie_pass(c, k, th, (n - 1) as nat);
        tie_step(p.0, p.1, th, n - 1)
    }
}

/// The third pass applied to endpoints `0..n`, in order.
pub open spec fn commit_pass(
    c: Seq<InterConnection>,
    k: Seq<CounterInterConnection>,
    n: nat,
) -> (Seq<InterConnection>, Seq<CounterInterConnection>)
    decreases n,
{
    if n == 0 {
        (c, k)
    } else {
        let p = commit_pass(c, k, (n - 1) as nat);
        commit_step(p.0, p.1, n - 1)
    }
}

/// The whole takeover arbitration over all endpoints.
pub open spec fn arbitration(
    c: Seq<InterConnection>,
    k: Seq<CounterInterConnection>,
    th: u8,
) -> (Seq<InterConnection>, Seq<CounterInterConnection>) {
    let after_offers = offer_pass(c, k, th, c.len());
    let after_ties = tie_pass(after_offers.0, after_offers.1, th, c.len());
    commit_pass(after_ties.0, after_ties.1, c.len())
}

/// Packed forces that the plasticity model gives for one pairing of two nodes.
#[derive(Debug, Clone, Copy, PartialEq, Eq, Structural)]
pub struct ForcePair {
    pub force_self: i8,
    pub force_other: i8,
}

pub open spec fn pair_net(p: ForcePair) -> int {
    net(p.force_self, p.force_other)
}

/// Model results for one endpoint, computed from the state before the strength pass.
#[derive(Debug, Clone)]
pub struct InterEvaluation {
    /// Updated committed forces of the endpoint's edge, self first; used when
    /// the endpoint is the one that updates its pair.
    pub main: ForcePair,
    /// For a searching endpoint, the forces scored for each candidate of its
    /// search area, in order; for a connecting endpoint, one entry: its
    /// updated pending forces.
    pub pending: Vec<ForcePair>,
}

/// The partner of endpoint `i` points back at it.
pub open spec fn is_mutual(c: Seq<InterConnection>, i: int) -> bool {
    c[c[i].index as int].index == i
}

pub open spec fn is_unconnected(r: InterConnection) -> bool {
    r.force_self == UNCONNECTED_FORCE && r.force_other == UNCONNECTED_FORCE
}

/// Committed-edge update at endpoint `i`: a partner that does not point back
/// breaks the edge; of a mutual pair, only the endpoint with the lower index
/// stores the updated forces, on both sides, mirrored.
pub open spec fn main_step(c: Seq<InterConnection>, i: int, m: ForcePair) -> Seq<InterConnection> {
    let o = c[i].index as int;
    if !is_mutual(c, i) {
        c.update(i, c[i].with_forces(UNCONNECTED_FORCE, UNCONNECTED_FORCE))
    } else if o < i {
        c
    } else {
        let c1 = c.update(i, c[i].with_forces(m.force_self, m.force_other));
        c1.update(o, c1[o].with_forces(m.force_other, m.force_self))
    }
}

/// Position of the first candidate with the largest net force among the
/// first `n`, or -1 when there is none.
pub open spec fn best_candidate(p: Seq<ForcePair>, n: nat) -> int
    decreases n,
{
    if n == 0 {
        -1
    } else {
        let b = best_candidate(p, (n - 1) as nat);
        if b < 0 || pair_net(p[n - 1]) > pair_net(p[b]) {
            n - 1
        } else {
            b
        }
    }
}

/// State that the pending search of a counter acts in: a failed counter is
/// cleared first.
pub open spec fn acting_state(k: CounterInterConnection, th: u8) -> NodeState {
    if is_failed(k, th) {
        state_of(SEARCHING_VALUE, th)
    } else {
        state_of(k.0, th)
    }
}

/// Pending-edge update at endpoint `i`, given the candidates `area` and the
/// model results `p`.
///
/// A searching endpoint moves its pending target to the best candidate. Finding
/// the same target again is a local maximum: the counter advances and the
/// candidate's forces become the pending forces, unless the endpoint had failed
/// before this scan, in which case its pending state is reset. A new target
/// starts from zero forces. A connecting endpoint takes its updated pending
/// forces and enters takeover when their net force beats both the target's
/// committed net force and its own; otherwise its counter advances.
pub open spec fn pending_step(
    c: Seq<InterConnection>,
    k: Seq<CounterInterConnection>,
    i: int,
    th: u8,
    area: Seq<usize>,
    p: Seq<ForcePair>,
) -> (Seq<InterConnection>, Seq<CounterInterConnection>) {
    let failed_previous = is_failed(k[i], th);
    let k1 = if failed_previous {
        k.update(i, CounterInterConnection(SEARCHING_VALUE))
    } else {
        k
    };
    let st = state_of(k1[i].0, th);
    if st == NodeState::Searching {
        let b = best_candidate(p, area.len());
        let best: int = if b < 0 {
            0
        } else {
            area[b] as int
        };
        let forces = if b < 0 {
            ForcePair { force_self: MIN_FORCE, force_other: MIN_FORCE }
        } else {
            p[b]
        };
        let previous = c[i].pending_index as int;
        let r = InterConnection { pending_index: best as u32, ..c[i] };
        if failed_previous && best == previous {
            (c.update(i, r.spec_reset_pending()), k1)
        } else if best == previous {
            (
                c.update(i, r.with_pending_forces(forces.force_self, forces.force_other)),
                k1.update(i, CounterInterConnection((k1[i].0 + 1) as u8)),
            )
        } else {
            (c.update(i, r.with_pending_forces(ZERO_FORCE, ZERO_FORCE)), k1)
        }
    } else if st == NodeState::Connecting {
        let f = p[0];
        let c1 = c.update(i, c[i].with_pending_forces(f.force_self, f.force_other));
        let t = c[i].pending_index as int;
        if pair_net(f) > c1[t].net_force() && pair_net(f) > c1[i].net_force() {
            (c1, k1.update(i, CounterInterConnection(TAKEOVER_VALUE)))
        } else {
            (c1, k1.update(i, CounterInterConnection((k1[i].0 + 1) as u8)))
        }
    } else {
        (c, k1)
    }
}

/// Strength update and search at endpoint `i`.
pub open spec fn strength_step(
    c: Seq<InterConnection>,
    k: Seq<CounterInterConnection>,
    i: int,
    th: u8,
    ev: InterEvaluation,
    g: GuardianSettings,
    n: NetworkSettings,
) -> (Seq<InterConnection>, Seq<CounterInterConnection>) {
    let c1 = main_step(c, i, ev.main);
    pending_step(c1, k, i, th, search_area(c1, i, g, n), ev.pending@)
}

/// The strength pass over endpoints `0..m`, in order.
pub open spec fn strength_pass(
    c: Seq<InterConnection>,
    k: Seq<CounterInterConnection>,
    evs: Seq<InterEvaluation>,
    th: u8,
    g: GuardianSettings,
    n: NetworkSettings,
    m: nat,
) -> (Seq<InterConnection>, Seq<CounterInterConnection>)
    decreases m,
{
    if m == 0 {
        (c, k)
    } else {
        let p = strength_pass(c, k, evs, th, g, n, (m - 1) as nat);
        strength_step(p.0, p.1, m - 1, th, evs[m - 1], g, n)
    }
}

/// The model results for endpoint `i` have the shape its pending search needs.
pub open spec fn evaluation_fits(
    c: Seq<InterConnection>,
    k: Seq<CounterInterConnection>,
    i: int,
    th: u8,
    ev: InterEvaluation,
    g: GuardianSettings,
    n: NetworkSettings,
) -> bool {
    &&& acting_state(k[i], th) == NodeState::Searching ==> ev.pending@.len() == search_area(
        c,
        i,
        g,
        n,
    ).len()
    &&& acting_state(k[i], th) == NodeState::Connecting ==> ev.pending@.len() >= 1
}

proof fn lemma_row_in_range(start: int, main: int, a: int, b: nat, g: GuardianSettings, n: NetworkSettings)
    requires
        shape_ok(g, n),
    ensures
        forall|j: int|
            0 <= j < search_row(start, main, a, b, g, n).len() ==> #[trigger] search_row(
                start,
                main,
                a,
                b,
                g,
                n,
            )[j] < total_nodes(g, n),
    decreases b,
{
    if b > 0 {
        lemma_row_in_range(start, main, a, (b - 1) as nat, g, n);
        lemma_candidate_in_range(start, a, b - 1, g, n);
        let p = search_row(start, main, a, (b - 1) as nat, g, n);
        let x = candidate(start, a, b - 1, g, n);
        if x != main {
            assert forall|j: int| 0 <= j < p.push(x as usize).len() implies #[trigger] p.push(
                x as usize,
            )[j] < total_nodes(g, n) by {
                if j < p.len() {
                    assert(p.push(x as usize)[j] == p[j]);
                }
            }
        }
    }
}

proof fn lemma_block_in_range(start: int, main: int, a: nat, g: GuardianSettings, n: NetworkSettings)
    requires
        shape_ok(g, n),
    ensures
        forall|j: int|
            0 <= j < search_block(start, main, a, g, n).len() ==> #[trigger] search_block(
                start,
                main,
                a,
                g,
                n,
            )[j] < total_nodes(g, n),
    decreases a,
{
    if a > 0 {
        lemma_block_in_range(start, main, (a - 1) as nat, g, n);
        lemma_row_in_range(start, main, a - 1, (2 * g.n_interconnected_nodes_search + 1) as nat, g, n);
        let p = search_block(start, main, (a - 1) as nat, g, n);
        let q = search_row(start, main, a - 1, (2 * g.n_interconnected_nodes_search + 1) as nat, g, n);
        assert forall|j: int| 0 <= j < (p + q).len() implies #[trigger] (p + q)[j] < total_nodes(g, n) by {
            if j < p.len() {
                assert((p + q)[j] == p[j]);
            } else {
                assert((p + q)[j] == q[j - p.len()]);
            }
        }
    }
}

proof fn lemma_area_in_range(main: int, pending: int, other: int, g: GuardianSettings, n: NetworkSettings)
    requires
        shape_ok(g, n),
    ensures
        forall|j: int|
            0 <= j < area_around(main, pending, other, g, n).len() ==> #[trigger] area_around(
                main,
                pending,
                other,
                g,
                n,
            )[j] < total_nodes(g, n),
{
    let w = (2 * g.n_interconnected_neuron_search + 1) as nat;
    lemma_block_in_range(pending, main, w, g, n);
    lemma_block_in_range(other, main, w, g, n);
    let p = search_block(pending, main, w, g, n);
    let q = search_block(other, main, w, g, n);
    assert forall|j: int| 0 <= j < (p + q).len() implies #[trigger] (p + q)[j] < total_nodes(g, n) by {
        if j < p.len() {
            assert((p + q)[j] == p[j]);
        } else {
            assert((p + q)[j] == q[j - p.len()]);
        }
    }
}

proof fn lemma_best_candidate(p: Seq<ForcePair>, n: nat)
    ensures
        n == 0 <==> best_candidate(p, n) < 0,
        n > 0 ==> 0 <= best_candidate(p, n) < n,
    decreases n,
{
    if n > 0 {
        lemma_best_candidate(p, (n - 1) as nat);
    }
}

pub(crate) fn find_best(p: &Vec<ForcePair>, len: usize) -> (r: Option<usize>)
    requires
        len <= p@.len(),
    ensures
        r matches Some(b) ==> b == best_candidate(p@, len as nat) && b < len,
        r is None <==> best_candidate(p@, len as nat) < 0,
{
    proof {
        lemma_best_candidate(p@, len as nat);
    }
    let mut best: Option<usize> = None;
    let mut i: usize = 0;
    while i < len
        invariant
            0 <= i <= len,
            len <= p@.len(),
            best matches Some(b) ==> b == best_candidate(p@, i as nat) && b < i,
            best is None <==> best_candidate(p@, i as nat) < 0,
        decreases len - i,
    {
        proof {
            lemma_best_candidate(p@, i as nat);
        }
        match best {
            None => {
                best = Some(i);
            },
            Some(b) => {
                let net_i = p[i].force_self as i16 + p[i].force_other as i16;
                let net_b = p[b].force_self as i16 + p[b].force_other as i16;
                if net_i > net_b {
                    best = Some(i);
                }
            },
        }
        i = i + 1;
    }
    best
}

/// Committed-edge update of endpoint `node` (see `main_step`).
pub fn update_main_connection(conns: &mut Vec<InterConnection>, node: usize, main: ForcePair)
    requires
        node < old(conns)@.len(),
        forall|j: int|
            0 <= j < old(conns)@.len() ==> (#[trigger] old(conns)@[j]).index < old(conns)@.len(),
    ensures
        final(conns)@ == main_step(old(conns)@, node as int, main),
{
    let other = conns[node].index as usize;
    if conns[other].index as usize != node {
        let mut r = conns[node];
        r.reset_main();
        conns.set(node, r);
    } else if other >= node {
        let mut r = conns[node];
        r.store_forces(main.force_self, main.force_other);
        conns.set(node, r);
        let mut q = conns[other];
        q.store_forces(main.force_other, main.force_self);
        conns.set(other, q);
    }
}

/// Pending-edge update of endpoint `node` (see `pending_step`).
pub fn update_pending_connection(
    conns: &mut Vec<InterConnection>,
    counters: &mut Vec<CounterInterConnection>,
    node: usize,
    th: u8,
    area: &Vec<usize>,
    pending: &Vec<ForcePair>,
)
    requires
        inter_wf(old(conns)@, old(counters)@),
        node < old(conns)@.len(),
        forall|j: int| 0 <= j < area@.len() ==> #[trigger] area@[j] < old(conns)@.len(),
        acting_state(old(counters)@[node as int], th) == NodeState::Searching ==> pending@.len()
            == area@.len(),
        acting_state(old(counters)@[node as int], th) == NodeState::Connecting ==> pending@.len() >= 1,
    ensures
        (final(conns)@, final(counters)@) == pending_step(
            old(conns)@,
            old(counters)@,
            node as int,
            th,
            area@,
            pending@,
        ),
        inter_wf(final(conns)@, final(counters)@),
{
    let failed_previous = decode_state(counters[node].0, th) == NodeState::Failed;
    if failed_previous {
        let mut k = counters[node];
        k.reset();
        counters.set(node, k);
    }
    match decode_state(counters[node].0, th) {
        NodeState::Searching => {
            let previous = conns[node].pending_index as usize;
            let (best, forces) = match find_best(pending, area.len()) {
                Some(b) => (area[b], pending[b]),
                None => (0, ForcePair { force_self: MIN_FORCE, force_other: MIN_FORCE }),
            };
            let mut r = conns[node];
            r.store_pending_index(best);
            if failed_previous && best == previous {
                r.reset_pending();
            } else if best == previous {
                let mut k = counters[node];
                k.inc();
                counters.set(node, k);
                r.store_pending_forces(forces.force_self, forces.force_other);
            } else {
                r.store_pending_forces(ZERO_FORCE, ZERO_FORCE);
            }
            conns.set(node, r);
        },
        NodeState::Connecting => {
            let f = pending[0];
            let mut r = conns[node];
            r.store_pending_forces(f.force_self, f.force_other);
            conns.set(node, r);
            let target = conns[node].pending_index as usize;
            let net_force = conns[node].get_net_pending_force();
            let to_beat_other = conns[target].get_net_force();
            let to_beat_self = conns[node].get_net_force();
            let mut k = counters[node];
            if net_force > to_beat_other && net_force > to_beat_self {
                k.saturate();
            } else {
                k.inc();
            }
            counters.set(node, k);
        },
        _ => {},
    }
}

/// What the caller has to evaluate for the pending search of one endpoint.
#[derive(Debug, Clone)]
pub enum PendingWork {
    /// Score every candidate of this search area, in order, with zero seed forces.
    Search(Vec<usize>),
    /// Update the pending forces towards this target.
    Connect(usize),
    /// Nothing to evaluate.
    Idle,
}

/// Tells what the strength pass will need evaluated for endpoint `node`.
pub fn pending_work(
    state: &crate::topology::State,
    g_settings: &GuardianSettings,
    n_settings: &NetworkSettings,
    node: usize,
) -> (r: PendingWork)
    requires
        state.wf(*g_settings, *n_settings),
        node < total_nodes(*g_settings, *n_settings),
    ensures
        ({
            let th = crate::counter::threshold_byte(g_settings.interconnection_max_connection_time);
            let st = acting_state(state.inter_connection_counters@[node as int], th);
            &&& st == NodeState::Searching ==> (r matches PendingWork::Search(v) && v@ == search_area(
                state.inter_connections@,
                node as int,
                *g_settings,
                *n_settings,
            ))
            &&& st == NodeState::Connecting ==> (r matches PendingWork::Connect(t) && t
                == state.inter_connections@[node as int].pending_index)
            &&& st != NodeState::Searching && st != NodeState::Connecting ==> r is Idle
        }),
{
    let th = crate::counter::threshold_from(g_settings.interconnection_max_connection_time);
    let mut value = state.inter_connection_counters[node].0;
    if decode_state(value, th) == NodeState::Failed {
        value = SEARCHING_VALUE;
    }
    match decode_state(value, th) {
        NodeState::Searching => PendingWork::Search(
            get_area_to_search(&state.inter_connections, node, g_settings, n_settings),
        ),
        NodeState::Connecting => PendingWork::Connect(
            state.inter_connections[node].pending_index as usize,
        ),
        _ => PendingWork::Idle,
    }
}

/// Strength update and search over all interconnections, endpoint by endpoint
/// in index order, from model results computed on the state before the pass.
///
/// Afterwards every committed edge either is mutual or carries the
/// unconnected forces; no committed index changes.
pub fn update_connections(
    state: &mut crate::topology::State,
    g_settings: &GuardianSettings,
    n_settings: &NetworkSettings,
    evaluations: &Vec<InterEvaluation>,
)
    requires
        old(state).wf(*g_settings, *n_settings),
        evaluations@.len() == total_nodes(*g_settings, *n_settings),
        forall|i: int|
            0 <= i < evaluations@.len() ==> evaluation_fits(
                old(state).inter_connections@,
                old(state).inter_connection_counters@,
                i,
                crate::counter::threshold_byte(g_settings.interconnection_max_connection_time),
                #[trigger] evaluations@[i],
                *g_settings,
                *n_settings,
            ),
    ensures
        (final(state).inter_connections@, final(state).inter_connection_counters@) == strength_pass(
            old(state).inter_connections@,
            old(state).inter_connection_counters@,
            evaluations@,
            crate::counter::threshold_byte(g_settings.interconnection_max_connection_time),
            *g_settings,
            *n_settings,
            evaluations@.len(),
        ),
        final(state).wf(*g_settings, *n_settings),
        forall|j: int|
            0 <= j < final(state).inter_connections@.len() ==> (#[trigger] final(state).inter_connections@[j]).index
                == old(state).inter_connections@[j].index,
        forall|j: int|
            0 <= j < final(state).inter_connections@.len() ==> is_mutual(
                final(state).inter_connections@,
                j,
            ) || is_unconnected(#[trigger] final(state).inter_connections@[j]),
        final(state).nodes == old(state).nodes,
        final(state).neuron_states == old(state).neuron_states,
        final(state).intra_connections == old(state).intra_connections,
        final(state).intra_connection_counters == old(state).intra_connection_counters,
{
    let th = crate::counter::threshold_from(g_settings.interconnection_max_connection_time);
    let total = state.inter_connections.len();
    let ghost c0 = state.inter_connections@;
    let ghost k0 = state.inter_connection_counters@;
    let ghost s0 = *state;
    let mut i: usize = 0;
    while i < total
        invariant
            total == state.inter_connections@.len(),
            total == evaluations@.len(),
            total == total_nodes(*g_settings, *n_settings),
            total == c0.len(),
            0 <= i <= total,
            s0.wf(*g_settings, *n_settings),
            c0 == s0.inter_connections@,
            k0 == s0.inter_connection_counters@,
            th == crate::counter::threshold_byte(g_settings.interconnection_max_connection_time),
            forall|j: int|
                0 <= j < evaluations@.len() ==> evaluation_fits(
                    c0,
                    k0,
                    j,
                    th,
                    #[trigger] evaluations@[j],
                    *g_settings,
                    *n_settings,
                ),
            (state.inter_connections@, state.inter_connection_counters@) == strength_pass(
                c0,
                k0,
                evaluations@,
                th,
                *g_settings,
                *n_settings,
                i as nat,
            ),
            inter_wf(state.inter_connections@, state.inter_connection_counters@),
            forall|j: int|
                0 <= j < total ==> #[trigger] state.inter_connections@[j].index == c0[j].index,
            forall|j: int|
                i <= j < total ==> #[trigger] state.inter_connections@[j].pending_index
                    == c0[j].pending_index,
            forall|j: int| i <= j < total ==> #[trigger] state.inter_connection_counters@[j] == k0[j],
            forall|j: int|
                0 <= j < i ==> is_mutual(state.inter_connections@, j) || is_unconnected(
                    #[trigger] state.inter_connections@[j],
                ),
            state.nodes == s0.nodes,
            state.neuron_states == s0.neuron_states,
            state.intra_connections == s0.intra_connections,
            state.intra_connection_counters == s0.intra_connection_counters,
        decreases total - i,
    {
        let ghost cb = state.inter_connections@;
        let ghost kb = state.inter_connection_counters@;
        let ev = &evaluations[i];
        update_main_connection(&mut state.inter_connections, i, ev.main);
        let ghost c1 = state.inter_connections@;
        assert(c1.len() == total);
        let area = get_area_to_search(&state.inter_connections, i, g_settings, n_settings);
        proof {
            assert(search_area(c1, i as int, *g_settings, *n_settings) == search_area(
                c0,
                i as int,
                *g_settings,
                *n_settings,
            ));
            lemma_area_in_range(
                c1[i as int].index as int,
                c1[i as int].pending_index as int,
                c1[c1[i as int].pending_index as int].index as int,
                *g_settings,
                *n_settings,
            );
            assert(evaluation_fits(c0, k0, i as int, th, evaluations@[i as int], *g_settings, *n_settings));
        }
        update_pending_connection(
            &mut state.inter_connections,
            &mut state.inter_connection_counters,
            i,
            th,
            &area,
            &ev.pending,
        );
        proof {
            assert((state.inter_connections@, state.inter_connection_counters@) == strength_step(
                cb,
                kb,
                i as int,
                th,
                evaluations@[i as int],
                *g_settings,
                *n_settings,
            ));
        }
        i = i + 1;
    }
}

proof fn lemma_offer_pass(c: Seq<InterConnection>, k: Seq<CounterInterConnection>, th: u8, n: nat)
    requires
        inter_wf(c, k),
        n <= c.len(),
    ensures
        inter_wf(offer_pass(c, k, th, n).0, offer_pass(c, k, th, n).1),
        offer_pass(c, k, th, n).0.len() == c.len(),
        forall|j: int| n <= j < c.len() ==> #[trigger] offer_pass(c, k, th, n).1[j] == k[j],
        forall|j: int|
            0 <= j < c.len() && is_takeover(#[trigger] offer_pass(c, k, th, n).1[j]) ==> is_takeover(k[j]),
        forall|j: int|
            0 <= j < n && is_takeover(#[trigger] offer_pass(c, k, th, n).1[j]) ==> !is_takeover(
                offer_pass(c, k, th, n).1[offer_pass(c, k, th, n).0[j].pending_index as int],
            ) && !is_failed(
                offer_pass(c, k, th, n).1[offer_pass(c, k, th, n).0[j].pending_index as int],
                th,
            ),
    decreases n,
{
    if n > 0 {
        lemma_offer_pass(c, k, th, (n - 1) as nat);
    }
}

proof fn lemma_tie_pass(c: Seq<InterConnection>, k: Seq<CounterInterConnection>, th: u8, n: nat)
    requires
        inter_wf(c, k),
        targets_settled(c, k, th),
        n <= c.len(),
    ensures
        inter_wf(tie_pass(c, k, th, n).0, tie_pass(c, k, th, n).1),
        tie_pass(c, k, th, n).0.len() == c.len(),
        forall|j: int| n <= j < c.len() ==> #[trigger] tie_pass(c, k, th, n).1[j] == k[j],
        forall|j: int|
            0 <= j < c.len() && is_takeover(#[trigger] tie_pass(c, k, th, n).1[j]) ==> is_takeover(k[j])
                && tie_pass(c, k, th, n).0[j].pending_index == c[j].pending_index,
        forall|j: int|
            0 <= j < c.len() && !is_takeover(#[trigger] k[j]) && !is_failed(k[j], th)
                ==> tie_pass(c, k, th, n).1[j] == k[j],
    decreases n,
{
    if n > 0 {
        lemma_tie_pass(c, k, th, (n - 1) as nat);
    }
}

proof fn lemma_commit_pass(c: Seq<InterConnection>, k: Seq<CounterInterConnection>, n: nat)
    requires
        inter_wf(c, k),
        targets_passive(c, k),
        n <= c.len(),
    ensures
        inter_wf(commit_pass(c, k, n).0, commit_pass(c, k, n).1),
        commit_pass(c, k, n).0.len() == c.len(),
        targets_passive(commit_pass(c, k, n).0, commit_pass(c, k, n).1),
        forall|j: int| n <= j < c.len() ==> #[trigger] commit_pass(c, k, n).1[j] == k[j],
        forall|j: int|
            0 <= j < c.len() && is_takeover(#[trigger] commit_pass(c, k, n).1[j]) ==> is_takeover(k[j]),
        forall|j: int|
            n <= j < c.len() ==> #[trigger] commit_pass(c, k, n).0[j].pending_index
                == c[j].pending_index,
        forall|j: int|
            0 <= j < n && is_takeover(#[trigger] commit_pass(c, k, n).1[j]) ==> holds_mutual_edge(
                commit_pass(c, k, n).0,
                j,
            ),
    decreases n,
{
    if n > 0 {
        lemma_commit_pass(c, k, (n - 1) as nat);
    }
}

/// After arbitration every endpoint that still attempts a takeover has
/// committed: it points at its target and the target points back at it.
pub proof fn lemma_arbitration_commits_mutually(
    c: Seq<InterConnection>,
    k: Seq<CounterInterConnection>,
    th: u8,
    j: int,
)
    requires
        inter_wf(c, k),
        0 <= j < c.len(),
        is_takeover(arbitration(c, k, th).1[j]),
    ensures
        holds_mutual_edge(arbitration(c, k, th).0, j),
{
    let after_offers = offer_pass(c, k, th, c.len());
    lemma_offer_pass(c, k, th, c.len());
    let after_ties = tie_pass(after_offers.0, after_offers.1, th, c.len());
    lemma_tie_pass(after_offers.0, after_offers.1, th, c.len());
    assert forall|i: int| 0 <= i < after_ties.0.len() && is_takeover(#[trigger] after_ties.1[i]) implies !is_takeover(
        after_ties.1[after_ties.0[i].pending_index as int],
    ) by {
        let t = after_ties.0[i].pending_index as int;
        assert(is_takeover(after_offers.1[i]));
        assert(!is_takeover(after_offers.1[t]) && !is_failed(after_offers.1[t], th));
    }
    lemma_commit_pass(after_ties.0, after_ties.1, c.len());
}

/// No two distinct endpoints win the same target: after arbitration, two
/// endpoints that still attempt a takeover hold edges to different nodes.
pub proof fn lemma_no_duplicate_winners(
    c: Seq<InterConnection>,
    k: Seq<CounterInterConnection>,
    th: u8,
    a: int,
    b: int,
)
    requires
        inter_wf(c, k),
        0 <= a < c.len(),
        0 <= b < c.len(),
        a != b,
        is_takeover(arbitration(c, k, th).1[a]),
        is_takeover(arbitration(c, k, th).1[b]),
    ensures
        arbitration(c, k, th).0[a].index != arbitration(c, k, th).0[b].index,
{
    lemma_arbitration_commits_mutually(c, k, th, a);
    lemma_arbitration_commits_mutually(c, k, th, b);
}

/// A node is the committed partner of at most one mutual edge: two distinct
/// endpoints whose partners point back at them have different partners.
pub proof fn lemma_single_owner(c: Seq<InterConnection>, a: int, b: int)
    requires
        0 <= a < c.len(),
        0 <= b < c.len(),
        a != b,
        is_mutual(c, a),
        is_mutual(c, b),
    ensures
        c[a].index != c[b].index,
{
}

fn offer_forces(conns: &mut Vec<InterConnection>, counters: &mut Vec<CounterInterConnection>, th: u8)
    requires
        inter_wf(old(conns)@, old(counters)@),
    ensures
        (final(conns)@, final(counters)@) == offer_pass(old(conns)@, old(counters)@, th, old(conns)@.len()),
        inter_wf(final(conns)@, final(counters)@),
        final(conns)@.len() == old(conns)@.len(),
        targets_settled(final(conns)@, final(counters)@, th),
        forall|j: int| 0 <= j < final(counters)@.len() && is_takeover(#[trigger] final(counters)@[j]) ==> is_takeover(old(counters)@[j]),
{
    let n = conns.len();
    let ghost c0 = conns@;
    let ghost k0 = counters@;
    let mut i: usize = 0;
    while i < n
        invariant
            n == conns@.len(),
            0 <= i <= n,
            (conns@, counters@) == offer_pass(c0, k0, th, i as nat),
            inter_wf(conns@, counters@),
            forall|j: int| i <= j < n ==> #[trigger] counters@[j] == k0[j],
            forall|j: int| 0 <= j < n && is_takeover(#[trigger] counters@[j]) ==> is_takeover(k0[j]),
            forall|j: int|
                0 <= j < i && is_takeover(#[trigger] counters@[j]) ==> !is_takeover(
                    counters@[conns@[j].pending_index as int],
                ) && !is_failed(counters@[conns@[j].pending_index as int], th),
        decreases n - i,
    {
        let ghost cb = conns@;
        let ghost kb = counters@;
        if decode_state(counters[i].0, th) == NodeState::AttemptingTakeover {
            let t = conns[i].pending_index as usize;
            match decode_state(counters[t].0, th) {
                NodeState::AttemptingTakeover | NodeState::Failed => {
                    let mut k = counters[i];
                    k.failed();
                    counters.set(i, k);
                    let mut r = conns[i];
                    r.reset_pending();
                    conns.set(i, r);
                },
                _ => {
                    let offer = conns[i].pending_force_other;
                    let mut r = conns[t];
                    r.add_maximum_force_self(offer);
                    conns.set(t, r);
                },
            }
        }
        proof {
            assert((conns@, counters@) == offer_step(cb, kb, th, i as int));
        }
        i = i + 1;
    }
}

fn break_ties(conns: &mut Vec<InterConnection>, counters: &mut Vec<CounterInterConnection>, th: u8)
    requires
        inter_wf(old(conns)@, old(counters)@),
        targets_settled(old(conns)@, old(counters)@, th),
    ensures
        (final(conns)@, final(counters)@) == tie_pass(old(conns)@, old(counters)@, th, old(conns)@.len()),
        inter_wf(final(conns)@, final(counters)@),
        final(conns)@.len() == old(conns)@.len(),
        targets_passive(final(conns)@, final(counters)@),
{
    let n = conns.len();
    let ghost c0 = conns@;
    let ghost k0 = counters@;
    let mut i: usize = 0;
    while i < n
        invariant
            n == conns@.len(),
            0 <= i <= n,
            (conns@, counters@) == tie_pass(c0, k0, th, i as nat),
            inter_wf(conns@, counters@),
            forall|j: int| i <= j < n ==> #[trigger] counters@[j] == k0[j],
            forall|j: int| 0 <= j < n && is_takeover(#[trigger] counters@[j]) ==> is_takeover(k0[j])
                && conns@[j].pending_index == c0[j].pending_index,
            forall|j: int|
                0 <= j < n && !is_takeover(#[trigger] k0[j]) && !is_failed(k0[j], th)
                    ==> counters@[j] == k0[j],
            targets_settled(c0, k0, th),
            c0.len() == n,
            k0.len() == n,
        decreases n - i,
    {
        let ghost cb = conns@;
        let ghost kb = counters@;
        match decode_state(counters[i].0, th) {
            NodeState::AttemptingTakeover => {
                let t = conns[i].pending_index as usize;
                let offered = conns[i].pending_force_other;
                if offered == conns[t].force_self {
                    let mut r = conns[t];
                    r.add_maximum_index(i);
                    conns.set(t, r);
                } else {
                    let mut r = conns[i];
                    r.reset_pending();
                    conns.set(i, r);
                    let mut k = counters[i];
                    k.reset();
                    counters.set(i, k);
                }
            },
            NodeState::Failed => {
                let mut r = conns[i];
                r.reset_pending();
                conns.set(i, r);
                let mut k = counters[i];
                k.reset();
                counters.set(i, k);
            },
            _ => {},
        }
        proof {
            assert((conns@, counters@) == tie_step(cb, kb, th, i as int));
        }
        i = i + 1;
    }
    proof {
        assert forall|j: int|
            0 <= j < conns@.len() && is_takeover(#[trigger] counters@[j]) implies !is_takeover(
                counters@[conns@[j].pending_index as int],
            ) by {
            let t = conns@[j].pending_index as int;
            assert(is_takeover(k0[j]));
            assert(!is_takeover(k0[t]) && !is_failed(k0[t], th));
        }
    }
}

fn commit_winners(conns: &mut Vec<InterConnection>, counters: &mut Vec<CounterInterConnection>)
    requires
        inter_wf(old(conns)@, old(counters)@),
        targets_passive(old(conns)@, old(counters)@),
    ensures
        (final(conns)@, final(counters)@) == commit_pass(old(conns)@, old(counters)@, old(conns)@.len()),
        inter_wf(final(conns)@, final(counters)@),
        final(conns)@.len() == old(conns)@.len(),
        forall|j: int|
            0 <= j < final(conns)@.len() && is_takeover(#[trigger] final(counters)@[j])
                ==> holds_mutual_edge(final(conns)@, j),
{
    let n = conns.len();
    let ghost c0 = conns@;
    let ghost k0 = counters@;
    let mut i: usize = 0;
    while i < n
        invariant
            n == conns@.len(),
            0 <= i <= n,
            (conns@, counters@) == commit_pass(c0, k0, i as nat),
            inter_wf(conns@, counters@),
            targets_passive(conns@, counters@),
            forall|j: int| i <= j < n ==> #[trigger] counters@[j] == k0[j],
            forall|j: int| 0 <= j < n && is_takeover(#[trigger] counters@[j]) ==> is_takeover(k0[j]),
            forall|j: int| i <= j < n ==> #[trigger] conns@[j].pending_index == c0[j].pending_index,
            forall|j: int|
                0 <= j < i && is_takeover(#[trigger] counters@[j]) ==> holds_mutual_edge(conns@, j),
        decreases n - i,
    {
        let ghost cb = conns@;
        let ghost kb = counters@;
        if decode_state(counters[i].0, TAKEOVER_VALUE) == NodeState::AttemptingTakeover {
            let t = conns[i].pending_index as usize;
            if conns[t].index as usize != i {
                let mut r = conns[i];
                r.reset_pending();
                conns.set(i, r);
                let mut k = counters[i];
                k.reset();
                counters.set(i, k);
            } else {
                let (force_self, force_other) = conns[i].get_raw_pending_force_values();
                let mut r = conns[i];
                r.move_pending_to_main();
                conns.set(i, r);
                let mut o = conns[t];
                o.store_forces(force_other, force_self);
                conns.set(t, o);
            }
        }
        proof {
            assert((conns@, counters@) == commit_step(cb, kb, i as int));
        }
        i = i + 1;
    }
}

/// Takeover arbitration over all interconnections: three ordered passes that
/// let at most one of the endpoints that compete for a target take it.
///
/// An endpoint that still attempts a takeover afterwards has committed: it
/// points at its target and the target points back.
pub fn attempt_connection(
    state: &mut crate::topology::State,
    g_settings: &crate::settings::GuardianSettings,
)
    requires
        inter_wf(old(state).inter_connections@, old(state).inter_connection_counters@),
    ensures
        (final(state).inter_connections@, final(state).inter_connection_counters@) == arbitration(
            old(state).inter_connections@,
            old(state).inter_connection_counters@,
            crate::counter::threshold_byte(g_settings.interconnection_max_connection_time),
        ),
        inter_wf(final(state).inter_connections@, final(state).inter_connection_counters@),
        final(state).inter_connections@.len() == old(state).inter_connections@.len(),
        forall|j: int|
            0 <= j < final(state).inter_connections@.len() && is_takeover(
                #[trigger] final(state).inter_connection_counters@[j],
            ) ==> holds_mutual_edge(final(state).inter_connections@, j),
        final(state).nodes == old(state).nodes,
        final(state).neuron_states == old(state).neuron_states,
        final(state).intra_connections == old(state).intra_connections,
        final(state).intra_connection_counters == old(state).intra_connection_counters,
{
    let th = crate::counter::threshold_from(g_settings.interconnection_max_connection_time);
    offer_forces(&mut state.inter_connections, &mut state.inter_connection_counters, th);
    break_ties(&mut state.inter_connections, &mut state.inter_connection_counters, th);
    commit_winners(&mut state.inter_connections, &mut state.inter_connection_counters);
}

/// Global index of the search candidate at neuron offset `a - rn` and node
/// offset `b - rd` from the node `start`, both axes wrapped.
pub open spec fn candidate(start: int, a: int, b: int, g: GuardianSettings, n: NetworkSettings) -> int {
    let npn = g.n_nodes_per_neuron as int;
    wrapped(start / npn, a - g.n_interconnected_neuron_search, n.n_neurons as int) * npn + wrapped(
        start % npn,
        b - g.n_interconnected_nodes_search,
        npn,
    )
}

/// The first `b` node offsets of neuron offset `a`, without the committed partner `main`.
pub open spec fn search_row(
    start: int,
    main: int,
    a: int,
    b: nat,
    g: GuardianSettings,
    n: NetworkSettings,
) -> Seq<usize>
    decreases b,
{
    if b == 0 {
        seq![]
    } else {
        let p = search_row(start, main, a, (b - 1) as nat, g, n);
        let x = candidate(start, a, b - 1, g, n);
        if x == main {
            p
        } else {
            p.push(x as usize)
        }
    }
}

/// The first `a` neuron offsets around `start`, each with all its node offsets.
pub open spec fn search_block(start: int, main: int, a: nat, g: GuardianSettings, n: NetworkSettings) -> Seq<
    usize,
>
    decreases a,
{
    if a == 0 {
        seq![]
    } else {
        search_block(start, main, (a - 1) as nat, g, n) + search_row(
            start,
            main,
            a - 1,
            (2 * g.n_interconnected_nodes_search + 1) as nat,
            g,
            n,
        )
    }
}

/// Candidates around the two start points: the pending target, then the
/// pending target's own committed partner. The committed partner `main` is skipped.
pub open spec fn area_around(main: int, pending: int, other: int, g: GuardianSettings, n: NetworkSettings) -> Seq<
    usize,
> {
    let width = (2 * g.n_interconnected_neuron_search + 1) as nat;
    search_block(pending, main, width, g, n) + search_block(other, main, width, g, n)
}

/// Search area of endpoint `i`.
pub open spec fn search_area(c: Seq<InterConnection>, i: int, g: GuardianSettings, n: NetworkSettings) -> Seq<
    usize,
> {
    area_around(
        c[i].index as int,
        c[i].pending_index as int,
        c[c[i].pending_index as int].index as int,
        g,
        n,
    )
}

proof fn lemma_candidate_in_range(start: int, a: int, b: int, g: GuardianSettings, n: NetworkSettings)
    requires
        shape_ok(g, n),
    ensures
        0 <= candidate(start, a, b, g, n) < total_nodes(g, n),
{
    let npn = g.n_nodes_per_neuron as int;
    let nn = n.n_neurons as int;
    let x = wrapped(start / npn, a - g.n_interconnected_neuron_search, nn);
    let y = wrapped(start % npn, b - g.n_interconnected_nodes_search, npn);
    assert(0 <= x < nn);
    assert(0 <= y < npn);
    assert(0 <= x * npn + y < nn * npn) by (nonlinear_arith)
        requires
            0 <= x < nn,
            0 <= y < npn,
    ;
}

fn add_search_block(
    search: &mut Vec<usize>,
    start: usize,
    main: usize,
    g_settings: &GuardianSettings,
    n_settings: &NetworkSettings,
)
    requires
        shape_ok(*g_settings, *n_settings),
        start < total_nodes(*g_settings, *n_settings),
        old(search)@.len() + 2 * (2 * g_settings.n_interconnected_neuron_search + 1) * (2
            * g_settings.n_interconnected_nodes_search + 1) <= usize::MAX,
    ensures
        final(search)@ == old(search)@ + search_block(
            start as int,
            main as int,
            (2 * g_settings.n_interconnected_neuron_search + 1) as nat,
            *g_settings,
            *n_settings,
        ),
{
    let npn = g_settings.n_nodes_per_neuron;
    let rn = g_settings.n_interconnected_neuron_search;
    let rd = g_settings.n_interconnected_nodes_search;
    let start_neuron = start / npn;
    let start_node = start % npn;
    let neuron_width = 2 * rn + 1;
    let node_width = 2 * rd + 1;
    let ghost s0 = search@;
    let mut a: usize = 0;
    while a < neuron_width
        invariant
            neuron_width == 2 * rn + 1,
            node_width == 2 * rd + 1,
            shape_ok(*g_settings, *n_settings),
            npn == g_settings.n_nodes_per_neuron,
            rn == g_settings.n_interconnected_neuron_search,
            rd == g_settings.n_interconnected_nodes_search,
            start_neuron == (start as int) / (npn as int),
            start_node == (start as int) % (npn as int),
            0 <= a <= 2 * rn + 1,
            search@ == s0 + search_block(start as int, main as int, a as nat, *g_settings, *n_settings),
            search@.len() <= s0.len() + a * (2 * rd + 1),
            s0.len() + 2 * (2 * rn + 1) * (2 * rd + 1) <= usize::MAX,
        decreases 2 * rn + 1 - a,
    {
        let neuron_index = wrap_wide(start_neuron as i128 + a as i128 - rn as i128, n_settings.n_neurons);
        let ghost before_row = search@;
        let mut b: usize = 0;
        while b < node_width
            invariant
                neuron_width == 2 * rn + 1,
                node_width == 2 * rd + 1,
                shape_ok(*g_settings, *n_settings),
                npn == g_settings.n_nodes_per_neuron,
                rn == g_settings.n_interconnected_neuron_search,
                rd == g_settings.n_interconnected_nodes_search,
                start_neuron == (start as int) / (npn as int),
                start_node == (start as int) % (npn as int),
                0 <= a < 2 * rn + 1,
                0 <= b <= 2 * rd + 1,
                neuron_index == wrapped(start_neuron as int, a - rn, n_settings.n_neurons as int),
                neuron_index < n_settings.n_neurons,
                before_row == s0 + search_block(start as int, main as int, a as nat, *g_settings, *n_settings),
                search@ == before_row + search_row(start as int, main as int, a as int, b as nat, *g_settings, *n_settings),
                before_row.len() <= s0.len() + a * (2 * rd + 1),
                search@.len() <= before_row.len() + b,
                s0.len() + 2 * (2 * rn + 1) * (2 * rd + 1) <= usize::MAX,
            decreases 2 * rd + 1 - b,
        {
            let node_index = wrap_wide(start_node as i128 + b as i128 - rd as i128, npn);
            proof {
                lemma_candidate_in_range(start as int, a as int, b as int, *g_settings, *n_settings);
                assert(neuron_index * npn + node_index <= (n_settings.n_neurons - 1) * npn + (npn - 1)) by (nonlinear_arith)
                    requires
                        neuron_index < n_settings.n_neurons,
                        node_index < npn,
                ;
                assert((n_settings.n_neurons - 1) * npn + (npn - 1) < n_settings.n_neurons * npn) by (nonlinear_arith)
                    requires
                        npn > 0,
                ;
                assert(search@.len() + 1 <= usize::MAX) by (nonlinear_arith)
                    requires
                        search@.len() <= before_row.len() + b,
                        before_row.len() <= s0.len() + a * (2 * rd + 1),
                        b < 2 * rd + 1,
                        a < 2 * rn + 1,
                        s0.len() + 2 * (2 * rn + 1) * (2 * rd + 1) <= usize::MAX,
                ;
            }
            let global = neuron_index * npn + node_index;
            if global != main {
                search.push(global);
            }
            proof {
                assert(candidate(start as int, a as int, b as int, *g_settings, *n_settings) == global);
                assert(search@ == before_row + search_row(start as int, main as int, a as int, (b + 1) as nat, *g_settings, *n_settings));
            }
            b = b + 1;
        }
        proof {
            assert(search@ == s0 + search_block(start as int, main as int, (a + 1) as nat, *g_settings, *n_settings));
            assert(search@.len() <= s0.len() + (a + 1) * (2 * rd + 1)) by (nonlinear_arith)
                requires
                    search@.len() <= before_row.len() + (2 * rd + 1),
                    before_row.len() <= s0.len() + a * (2 * rd + 1),
            ;
        }
        a = a + 1;
    }
}

/// Collects the search area of endpoint `node`.
pub fn get_area_to_search(
    inter_connections: &Vec<InterConnection>,
    node: usize,
    g_settings: &GuardianSettings,
    n_settings: &NetworkSettings,
) -> (r: Vec<usize>)
    requires
        shape_ok(*g_settings, *n_settings),
        inter_connections@.len() == total_nodes(*g_settings, *n_settings),
        node < inter_connections@.len(),
        forall|j: int|
            0 <= j < inter_connections@.len() ==> (#[trigger] inter_connections@[j]).index
                < inter_connections@.len() && inter_connections@[j].pending_index
                < inter_connections@.len(),
    ensures
        r@ == search_area(inter_connections@, node as int, *g_settings, *n_settings),
{
    let main = inter_connections[node].index as usize;
    let pending = inter_connections[node].pending_index as usize;
    let other = inter_connections[pending].index as usize;
    let mut search: Vec<usize> = Vec::new();
    proof {
        let rn = g_settings.n_interconnected_neuron_search as int;
        let rd = g_settings.n_interconnected_nodes_search as int;
        assert(2 * (2 * rn + 1) * (2 * rd + 1) * 2 == 4 * (2 * rn + 1) * (2 * rd + 1)) by (nonlinear_arith);
    }
    add_search_block(&mut search, pending, main, g_settings, n_settings);
    proof {
        let wn = 2 * g_settings.n_interconnected_neuron_search + 1;
        let wd = 2 * g_settings.n_interconnected_nodes_search + 1;
        lemma_block_len(pending as int, main as int, wn as nat, *g_settings, *n_settings);
        assert(search@.len() + 2 * wn * wd <= 4 * wn * wd) by (nonlinear_arith)
            requires
                search@.len() <= wn * wd,
        ;
    }
    add_search_block(&mut search, other, main, g_settings, n_settings);
    search
}

proof fn lemma_row_len(start: int, main: int, a: int, b: nat, g: GuardianSettings, n: NetworkSettings)
    ensures
        search_row(start, main, a, b, g, n).len() <= b,
    decreases b,
{
    if b > 0 {
        lemma_row_len(start, main, a, (b - 1) as nat, g, n);
    }
}

proof fn lemma_block_len(start: int, main: int, a: nat, g: GuardianSettings, n: NetworkSettings)
    ensures
        search_block(start, main, a, g, n).len() <= a * (2 * g.n_interconnected_nodes_search + 1),
    decreases a,
{
    if a > 0 {
        lemma_block_len(start, main, (a - 1) as nat, g, n);
        lemma_row_len(start, main, a - 1, (2 * g.n_interconnected_nodes_search + 1) as nat, g, n);
        assert((a - 1) * (2 * g.n_interconnected_nodes_search + 1) + (2 * g.n_interconnected_nodes_search + 1)
            == a * (2 * g.n_interconnected_nodes_search + 1)) by (nonlinear_arith);
    }
}

/// Interconnection plasticity: the strength update and search, then the
/// takeover arbitration.
pub fn update(
    state: &mut crate::topology::State,
    g_settings: &GuardianSettings,
    n_settings: &NetworkSettings,
    evaluations: &Vec<InterEvaluation>,
)
    requires
        old(state).wf(*g_settings, *n_settings),
        evaluations@.len() == total_nodes(*g_settings, *n_settings),
        forall|i: int|
            0 <= i < evaluations@.len() ==> evaluation_fits(
                old(state).inter_connections@,
                old(state).inter_connection_counters@,
                i,
                crate::counter::threshold_byte(g_settings.interconnection_max_connection_time),
                #[trigger] evaluations@[i],
                *g_settings,
                *n_settings,
            ),
    ensures
        ({
            let th = crate::counter::threshold_byte(g_settings.interconnection_max_connection_time);
            let a = strength_pass(
                old(state).inter_connections@,
                old(state).inter_connection_counters@,
                evaluations@,
                th,
                *g_settings,
                *n_settings,
                evaluations@.len(),
            );
            (final(state).inter_connections@, final(state).inter_connection_counters@) == arbitration(
                a.0,
                a.1,
                th,
            )
        }),
        final(state).wf(*g_settings, *n_settings),
        forall|j: int|
            0 <= j < final(state).inter_connections@.len() && is_takeover(
                #[trigger] final(state).inter_connection_counters@[j],
            ) ==> holds_mutual_edge(final(state).inter_connections@, j),
        final(state).nodes == old(state).nodes,
        final(state).neuron_states == old(state).neuron_states,
        final(state).intra_connections == old(state).intra_connections,
        final(state).intra_connection_counters == old(state).intra_connection_counters,
{
    update_connections(state, g_settings, n_settings, evaluations);
    attempt_connection(state, g_settings);
}

/// Tells whether the committed partner of `connection_b` is node `node_a_index`.
pub fn check_is_connected(node_a_index: usize, connection_b: &InterConnection) -> (r: bool)
    ensures
        r == (connection_b.index == node_a_index),
{
    connection_b.get_index() == node_a_index
}

/// Tells whether the model results have the shape the strength pass needs.
pub fn evaluations_fit(
    state: &crate::topology::State,
    g_settings: &GuardianSettings,
    n_settings: &NetworkSettings,
    evaluations: &Vec<InterEvaluation>,
) -> (r: bool)
    requires
        state.wf(*g_settings, *n_settings),
    ensures
        r == (evaluations@.len() == total_nodes(*g_settings, *n_settings) && forall|i: int|
            0 <= i < evaluations@.len() ==> evaluation_fits(
                state.inter_connections@,
                state.inter_connection_counters@,
                i,
                crate::counter::threshold_byte(g_settings.interconnection_max_connection_time),
                #[trigger] evaluations@[i],
                *g_settings,
                *n_settings,
            )),
{
    let total = n_settings.n_neurons * g_settings.n_nodes_per_neuron;
    if evaluations.len() != total {
        return false;
    }
    let th = crate::counter::threshold_from(g_settings.interconnection_max_connection_time);
    let mut i: usize = 0;
    while i < total
        invariant
            state.wf(*g_settings, *n_settings),
            total == total_nodes(*g_settings, *n_settings),
            evaluations@.len() == total,
            th == crate::counter::threshold_byte(g_settings.interconnection_max_connection_time),
            0 <= i <= total,
            forall|j: int|
                0 <= j < i ==> evaluation_fits(
                    state.inter_connections@,
                    state.inter_connection_counters@,
                    j,
                    th,
                    #[trigger] evaluations@[j],
                    *g_settings,
                    *n_settings,
                ),
        decreases total - i,
    {
        let needed = pending_work(state, g_settings, n_settings, i);
        let fits = match needed {
            PendingWork::Search(area) => evaluations[i].pending.len() == area.len(),
            PendingWork::Connect(_) => evaluations[i].pending.len() >= 1,
            PendingWork::Idle => true,
        };
        if !fits {
            return false;
        }
        i = i + 1;
    }
    true
}

} // verus!
