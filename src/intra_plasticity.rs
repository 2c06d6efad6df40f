use vstd::prelude::*;
use crate::connection::{IntraConnection, UNCONNECTED_FORCE};
use crate::counter::{
    decode_state, state_of, CounterIntraConnection, NodeState, SEARCHING_VALUE, TAKEOVER_VALUE,
};
use crate::inter_plasticity::{best_candidate, pair_net, ForcePair, PendingWork};
use crate::settings::{GuardianSettings, NetworkSettings};
use crate::topology::{shape_ok, total_nodes, wrap_wide, wrapped, State};

verus! {

/// Model results for one intraconnection slot, computed from the state before the pass.
#[derive(Debug, Clone)]
pub struct IntraEvaluation {
    /// Updated committed forces of the slot's edge.
    pub main: ForcePair,
    /// For a searching slot, the forces scored for each candidate of its search
    /// area, in order; for a connecting slot, one entry: its updated pending forces.
    pub pending: Vec<ForcePair>,
}

/// One sweep of the local search from `pending`, forwards or backwards,
/// starting at offset `k` with `count` candidates already taken. At most
/// `limit` candidates are taken in all; reaching the limit clears the count.
/// The committed partner `main` is skipped. Returns the candidates and the
/// count left for the next sweep.
pub open spec fn intra_scan(
    pending: int,
    main: int,
    npn: int,
    limit: int,
    reversed: bool,
    k: int,
    count: int,
) -> (Seq<usize>, int)
    decreases npn - k,
{
    if k >= npn || k < 0 {
        (seq![], count)
    } else if count >= limit {
        (seq![], 0)
    } else {
        let idx = wrapped(
            pending,
            if reversed {
                -k
            } else {
                k
            },
            npn,
        );
        if idx == main {
            intra_scan(pending, main, npn, limit, reversed, k + 1, count)
        } else {
            let rest = intra_scan(pending, main, npn, limit, reversed, k + 1, count + 1);
            (seq![idx as usize] + rest.0, rest.1)
        }
    }
}

/// Search area of a slot: a forward sweep from its pending target, then a
/// backward one, inside its own neuron.
pub open spec fn intra_area(main: int, pending: int, g: GuardianSettings) -> Seq<usize> {
    let npn = g.n_nodes_per_neuron as int;
    let limit = g.n_intraconnected_nodes_search as int;
    let forward = intra_scan(pending, main, npn, limit, false, 0, 0);
    let backward = intra_scan(pending, main, npn, limit, true, 0, forward.1);
    forward.0 + backward.0
}

proof fn lemma_scan_bounds(
    pending: int,
    main: int,
    npn: int,
    limit: int,
    reversed: bool,
    k: int,
    count: int,
)
    requires
        npn > 0,
        0 <= count,
    ensures
        ({
            let r = intra_scan(pending, main, npn, limit, reversed, k, count);
            &&& r.0.len() <= if 0 <= k <= npn {
                npn - k
            } else {
                0
            }
            &&& 0 <= r.1 <= count + r.0.len()
            &&& forall|j: int| 0 <= j < r.0.len() ==> #[trigger] r.0[j] < npn
        }),
    decreases npn - k,
{
    if k >= npn || k < 0 {
    } else if count >= limit {
    } else {
        let idx = wrapped(pending, if reversed { -k } else { k }, npn);
        if idx == main {
            lemma_scan_bounds(pending, main, npn, limit, reversed, k + 1, count);
        } else {
            lemma_scan_bounds(pending, main, npn, limit, reversed, k + 1, count + 1);
            let rest = intra_scan(pending, main, npn, limit, reversed, k + 1, count + 1);
            assert forall|j: int| 0 <= j < (seq![idx as usize] + rest.0).len() implies #[trigger] (
            seq![idx as usize] + rest.0)[j] < npn by {
                if j > 0 {
                    assert((seq![idx as usize] + rest.0)[j] == rest.0[j - 1]);
                }
            }
        }
    }
}

fn scan_local(
    search: &mut Vec<usize>,
    pending: usize,
    main: usize,
    npn: usize,
    limit: usize,
    reversed: bool,
    count: usize,
) -> (r: usize)
    requires
        0 < npn <= u16::MAX,
        pending < npn,
        count <= npn,
        old(search)@.len() <= npn,
    ensures
        final(search)@ == old(search)@ + intra_scan(
            pending as int,
            main as int,
            npn as int,
            limit as int,
            reversed,
            0,
            count as int,
        ).0,
        r == intra_scan(pending as int, main as int, npn as int, limit as int, reversed, 0, count as int).1,
        r <= 2 * npn,
{
    let ghost s0 = search@;
    let ghost full = intra_scan(pending as int, main as int, npn as int, limit as int, reversed, 0, count as int);
    proof {
        lemma_scan_bounds(pending as int, main as int, npn as int, limit as int, reversed, 0, count as int);
    }
    let mut n_searched = count;
    let mut k: usize = 0;
    let mut stopped = false;
    while k < npn && !stopped
        invariant
            0 < npn <= u16::MAX,
            pending < npn,
            0 <= k <= npn,
            n_searched <= npn + k,
            search@.len() <= npn + k,
            !stopped ==> search@ + intra_scan(pending as int, main as int, npn as int, limit as int, reversed, k as int, n_searched as int).0
                == s0 + full.0,
            !stopped ==> intra_scan(pending as int, main as int, npn as int, limit as int, reversed, k as int, n_searched as int).1
                == full.1,
            stopped ==> search@ == s0 + full.0 && n_searched == full.1,
        decreases npn - k + if stopped { 0int } else { 1int },
    {
        if n_searched >= limit {
            n_searched = 0;
            stopped = true;
            proof {
                assert(search@ == s0 + full.0);
            }
        } else {
            let offset: i128 = if reversed {
                -(k as i128)
            } else {
                k as i128
            };
            let node_local_index = wrap_wide(pending as i128 + offset, npn);
            if node_local_index != main {
                let ghost before = search@;
                search.push(node_local_index);
                n_searched = n_searched + 1;
                proof {
                    let rest = intra_scan(pending as int, main as int, npn as int, limit as int, reversed, k + 1, n_searched as int);
                    assert(search@ + rest.0 == before + (seq![node_local_index] + rest.0));
                }
            }
            k = k + 1;
        }
    }
    proof {
        if !stopped {
            assert(search@ == s0 + full.0);
        }
    }
    n_searched
}

/// Collects the search area of an intraconnection slot.
pub fn get_area_to_search(connection: &IntraConnection, g_settings: &GuardianSettings) -> (r: Vec<usize>)
    requires
        0 < g_settings.n_nodes_per_neuron <= u16::MAX,
        connection.pending_index < g_settings.n_nodes_per_neuron,
    ensures
        r@ == intra_area(connection.index as int, connection.pending_index as int, *g_settings),
        forall|j: int| 0 <= j < r@.len() ==> #[trigger] r@[j] < g_settings.n_nodes_per_neuron,
{
    let npn = g_settings.n_nodes_per_neuron;
    let limit = g_settings.n_intraconnected_nodes_search;
    let main = connection.index as usize;
    let pending = connection.pending_index as usize;
    let mut search: Vec<usize> = Vec::new();
    let count = scan_local(&mut search, pending, main, npn, limit, false, 0);
    proof {
        lemma_scan_bounds(pending as int, main as int, npn as int, limit as int, false, 0, 0);
    }
    let count = if count > npn {
        npn
    } else {
        count
    };
    let ghost first = search@;
    proof {
        let f = intra_scan(pending as int, main as int, npn as int, limit as int, false, 0, 0);
        assert(f.1 <= npn);
    }
    scan_local(&mut search, pending, main, npn, limit, true, count);
    proof {
        let f = intra_scan(pending as int, main as int, npn as int, limit as int, false, 0, 0);
        lemma_scan_bounds(pending as int, main as int, npn as int, limit as int, true, 0, f.1);
        let b = intra_scan(pending as int, main as int, npn as int, limit as int, true, 0, f.1);
        assert forall|j: int| 0 <= j < search@.len() implies #[trigger] search@[j] < npn by {
            if j < first.len() {
                assert(search@[j] == f.0[j]);
            } else {
                assert(search@[j] == b.0[j - first.len()]);
            }
        }
    }
    search
}

/// Target on the far side of the ring from `index`.
pub open spec fn opposite(index: int, n: int) -> int {
    (index + n / 2) % n
}

/// The node across the ring of `n` local nodes from `index`.
pub fn opposite_index(index: usize, n: usize) -> (r: usize)
    requires
        n > 0,
        index < n,
    ensures
        r == opposite(index as int, n as int),
        r < n,
{
    ((index as u128 + (n / 2) as u128) % (n as u128)) as usize
}

/// Pending-edge update of one slot, given the model results `p`.
///
/// A failed slot first drops its pending forces and clears its counter. A
/// searching slot moves its pending target to the best candidate of its area,
/// or resets its pending state when the area is empty; finding the same target
/// again advances the counter and takes the candidate's forces, unless the slot
/// had failed before, in which case its pending state is reset. A connecting
/// slot takes its updated pending forces and enters takeover when their net
/// force beats its committed net force. A slot in takeover commits its pending
/// edge; a slot still failed resets. Both then search again.
pub open spec fn slot_pending_step(
    r: IntraConnection,
    k: CounterIntraConnection,
    th: u8,
    p: Seq<ForcePair>,
    g: GuardianSettings,
) -> (IntraConnection, CounterIntraConnection) {
    let failed_previous = state_of(k.0, th) == NodeState::Failed;
    let r1 = if failed_previous {
        r.with_pending_forces(UNCONNECTED_FORCE, UNCONNECTED_FORCE)
    } else {
        r
    };
    let k1 = if failed_previous {
        CounterIntraConnection(SEARCHING_VALUE)
    } else {
        k
    };
    let st = state_of(k1.0, th);
    if st == NodeState::Searching {
        let area = intra_area(r1.index as int, r1.pending_index as int, g);
        if area.len() == 0 {
            (r1.spec_reset_pending(), k1)
        } else {
            let b = best_candidate(p, area.len());
            let best = area[b] as int;
            let f = p[b];
            let previous = r1.pending_index as int;
            let r2 = IntraConnection { pending_index: best as u16, ..r1 };
            if failed_previous && best == previous {
                (r2.spec_reset_pending(), k1)
            } else if best == previous {
                (
                    r2.with_pending_forces(f.force_self, f.force_other),
                    CounterIntraConnection((k1.0 + 1) as u8),
                )
            } else {
                (r2, k1)
            }
        }
    } else if st == NodeState::Connecting {
        let f = p[0];
        let r2 = r1.with_pending_forces(f.force_self, f.force_other);
        if pair_net(f) > r2.net_force() {
            (r2, CounterIntraConnection(TAKEOVER_VALUE))
        } else {
            (r2, CounterIntraConnection((k1.0 + 1) as u8))
        }
    } else if st == NodeState::AttemptingTakeover {
        (r1.spec_move_pending_to_main(), CounterIntraConnection(SEARCHING_VALUE))
    } else {
        (r1.spec_reset_pending(), CounterIntraConnection(SEARCHING_VALUE))
    }
}

/// Committed-force update, then pending-edge update, of one slot.
pub open spec fn slot_step(
    r: IntraConnection,
    k: CounterIntraConnection,
    th: u8,
    ev: IntraEvaluation,
    g: GuardianSettings,
) -> (IntraConnection, CounterIntraConnection) {
    slot_pending_step(r.with_forces(ev.main.force_self, ev.main.force_other), k, th, ev.pending@, g)
}

/// State that the pending update of a slot acts in: a failed counter is cleared first.
pub open spec fn intra_acting_state(k: CounterIntraConnection, th: u8) -> NodeState {
    if state_of(k.0, th) == NodeState::Failed {
        state_of(SEARCHING_VALUE, th)
    } else {
        state_of(k.0, th)
    }
}

/// The model results for a slot have the shape its pending update needs.
pub open spec fn intra_evaluation_fits(
    r: IntraConnection,
    k: CounterIntraConnection,
    th: u8,
    ev: IntraEvaluation,
    g: GuardianSettings,
) -> bool {
    &&& intra_acting_state(k, th) == NodeState::Searching ==> ev.pending@.len() == intra_area(
        r.index as int,
        r.pending_index as int,
        g,
    ).len()
    &&& intra_acting_state(k, th) == NodeState::Connecting ==> ev.pending@.len() >= 1
}

/// Committed-force update of one slot.
pub fn update_main_connection(connection: &mut IntraConnection, main: ForcePair)
    ensures
        *final(connection) == old(connection).with_forces(main.force_self, main.force_other),
{
    connection.store_forces(main.force_self, main.force_other);
}

/// Pending-edge update of one slot (see `slot_pending_step`).
pub fn update_pending_connection(
    connection: &mut IntraConnection,
    counter: &mut CounterIntraConnection,
    th: u8,
    pending: &Vec<ForcePair>,
    g_settings: &GuardianSettings,
)
    requires
        0 < g_settings.n_nodes_per_neuron <= u16::MAX,
        old(connection).index < g_settings.n_nodes_per_neuron,
        old(connection).pending_index < g_settings.n_nodes_per_neuron,
        intra_acting_state(*old(counter), th) == NodeState::Searching ==> pending@.len()
            == intra_area(old(connection).index as int, old(connection).pending_index as int, *g_settings).len(),
        intra_acting_state(*old(counter), th) == NodeState::Connecting ==> pending@.len() >= 1,
    ensures
        (*final(connection), *final(counter)) == slot_pending_step(
            *old(connection),
            *old(counter),
            th,
            pending@,
            *g_settings,
        ),
        final(connection).index < g_settings.n_nodes_per_neuron,
        final(connection).pending_index < g_settings.n_nodes_per_neuron,
{
    let failed_previous = decode_state(counter.0, th) == NodeState::Failed;
    if failed_previous {
        connection.reset_pending_forces();
        counter.reset();
    }
    match decode_state(counter.0, th) {
        NodeState::Searching => {
            let search = get_area_to_search(connection, g_settings);
            if search.len() == 0 {
                connection.reset_pending();
                return;
            }
            let b = match crate::inter_plasticity::find_best(pending, search.len()) {
                Some(b) => b,
                None => {
                    return;
                },
            };
            let best = search[b];
            let forces = pending[b];
            let previous = connection.pending_index as usize;
            connection.store_pending_index(best);
            if failed_previous && best == previous {
                connection.reset_pending();
            } else if best == previous {
                counter.inc();
                connection.store_pending_forces(forces.force_self, forces.force_other);
            }
        },
        NodeState::Connecting => {
            let f = pending[0];
            connection.store_pending_forces(f.force_self, f.force_other);
            let net_force = connection.get_net_pending_force();
            let net_force_to_beat = connection.get_net_force();
            if net_force > net_force_to_beat {
                counter.saturate();
            } else {
                counter.inc();
            }
        },
        NodeState::AttemptingTakeover => {
            connection.move_pending_to_main();
            counter.reset();
        },
        NodeState::Failed => {
            connection.reset_pending();
            counter.reset();
        },
    }
}

/// Slot `x` loses its proposal to slot `y`: neither is searching, both propose
/// the same target, and `y` offers the larger net pending force, or the same
/// one from a lower slot.
pub open spec fn loses_to(
    c: Seq<IntraConnection>,
    k: Seq<CounterIntraConnection>,
    th: u8,
    x: int,
    y: int,
) -> bool {
    &&& state_of(k[x].0, th) != NodeState::Searching
    &&& state_of(k[y].0, th) != NodeState::Searching
    &&& c[x].pending_index == c[y].pending_index
    &&& (c[x].net_pending_force() < c[y].net_pending_force() || (c[x].net_pending_force()
        == c[y].net_pending_force() && x > y))
}

/// Slot `x` of the node whose slots are `base..base + width` loses to a sibling.
pub open spec fn is_evicted(
    c: Seq<IntraConnection>,
    k: Seq<CounterIntraConnection>,
    th: u8,
    base: int,
    width: int,
    x: int,
) -> bool {
    exists|y: int| base <= y < base + width && y != x && #[trigger] loses_to(c, k, th, x, y)
}

/// An evicted slot: its pending state is reset and its pending target moved
/// across the ring.
pub open spec fn evict(r: IntraConnection, npn: int) -> IntraConnection {
    IntraConnection {
        pending_index: opposite(r.pending_index as int, npn) as u16,
        pending_force_self: UNCONNECTED_FORCE,
        pending_force_other: UNCONNECTED_FORCE,
        ..r
    }
}

/// Pair `(x, y)` of slots, in either order, comes before pair `(a, b)` in the
/// order `(0, 1), (0, 2), ..., (1, 2), ...`.
pub open spec fn pair_before(x: int, y: int, a: int, b: int) -> bool {
    let lo = if x < y {
        x
    } else {
        y
    };
    let hi = if x < y {
        y
    } else {
        x
    };
    lo < a || (lo == a && hi < b)
}

/// The lower of slots `x` and `y` comes before `a`.
pub open spec fn pair_below(x: int, y: int, a: int) -> bool {
    (if x < y {
        x
    } else {
        y
    }) < a
}

/// Compares every pair of slots of the node whose slots are `base..base + width`
/// and evicts each slot that loses to a sibling.
pub fn resolve_conflicts(
    conns: &mut Vec<IntraConnection>,
    counters: &mut Vec<CounterIntraConnection>,
    base: usize,
    width: usize,
    th: u8,
    npn: usize,
)
    requires
        base + width <= old(conns)@.len(),
        base + width <= usize::MAX,
        old(conns)@.len() == old(counters)@.len(),
        0 < npn <= u16::MAX,
        forall|j: int|
            base <= j < base + width ==> (#[trigger] old(conns)@[j]).pending_index < npn
                && old(conns)@[j].index < npn,
    ensures
        final(conns)@.len() == old(conns)@.len(),
        final(counters)@.len() == old(counters)@.len(),
        forall|j: int|
            0 <= j < old(conns)@.len() && !(base <= j < base + width) ==> #[trigger] final(conns)@[j]
                == old(conns)@[j],
        forall|j: int|
            0 <= j < old(counters)@.len() && !(base <= j < base + width)
                ==> #[trigger] final(counters)@[j] == old(counters)@[j],
        forall|j: int|
            base <= j < base + width ==> #[trigger] final(conns)@[j] == if is_evicted(
                old(conns)@,
                old(counters)@,
                th,
                base as int,
                width as int,
                j,
            ) {
                evict(old(conns)@[j], npn as int)
            } else {
                old(conns)@[j]
            },
        forall|j: int|
            base <= j < base + width ==> #[trigger] final(counters)@[j] == if is_evicted(
                old(conns)@,
                old(counters)@,
                th,
                base as int,
                width as int,
                j,
            ) {
                CounterIntraConnection(SEARCHING_VALUE)
            } else {
                old(counters)@[j]
            },
{
    let ghost c0 = conns@;
    let ghost k0 = counters@;
    let mut occupied: Vec<bool> = Vec::new();
    while occupied.len() < width
        invariant
            occupied@.len() <= width,
            forall|x: int| 0 <= x < occupied@.len() ==> !#[trigger] occupied@[x],
        decreases width - occupied@.len(),
    {
        occupied.push(false);
    }
    let mut a: usize = 0;
    while a < width
        invariant
            conns@ == c0,
            counters@ == k0,
            base + width <= c0.len(),
            base + width <= usize::MAX,
            c0.len() == k0.len(),
            0 <= a <= width,
            occupied@.len() == width,
            forall|x: int|
                0 <= x < width ==> (#[trigger] occupied@[x] <==> exists|y: int|
                    0 <= y < width && y != x && #[trigger] pair_below(x, y, a as int) && loses_to(
                        c0,
                        k0,
                        th,
                        base + x,
                        base + y,
                    )),
        decreases width - a,
    {
        let mut b: usize = a + 1;
        proof {
            assert forall|x: int|
                0 <= x < width implies (#[trigger] occupied@[x] <==> exists|y: int|
                    0 <= y < width && y != x && #[trigger] pair_before(x, y, a as int, b as int)
                        && loses_to(c0, k0, th, base + x, base + y)) by {
                if occupied@[x] {
                    let y = choose|y: int|
                        0 <= y < width && y != x && #[trigger] pair_below(x, y, a as int) && loses_to(
                            c0,
                            k0,
                            th,
                            base + x,
                            base + y,
                        );
                    assert(pair_before(x, y, a as int, b as int));
                }
                if exists|y: int|
                    0 <= y < width && y != x && #[trigger] pair_before(x, y, a as int, b as int)
                        && loses_to(c0, k0, th, base + x, base + y) {
                    let y = choose|y: int|
                        0 <= y < width && y != x && #[trigger] pair_before(x, y, a as int, b as int)
                            && loses_to(c0, k0, th, base + x, base + y);
                    assert(pair_below(x, y, a as int));
                }
            }
        }
        while b < width
            invariant
                conns@ == c0,
                counters@ == k0,
                base + width <= c0.len(),
                base + width <= usize::MAX,
                c0.len() == k0.len(),
                0 <= a < width,
                a + 1 <= b <= width,
                occupied@.len() == width,
                forall|x: int|
                    0 <= x < width ==> (#[trigger] occupied@[x] <==> exists|y: int|
                        0 <= y < width && y != x && #[trigger] pair_before(x, y, a as int, b as int) && loses_to(
                            c0,
                            k0,
                            th,
                            base + x,
                            base + y,
                        )),
            decreases width - b,
        {
            let ghost before = occupied@;
            let ca = conns[base + a];
            let cb = conns[base + b];
            let searching_a = decode_state(counters[base + a].0, th) == NodeState::Searching;
            let searching_b = decode_state(counters[base + b].0, th) == NodeState::Searching;
            if !searching_a && !searching_b && ca.pending_index == cb.pending_index {
                let force_a = ca.get_net_pending_force();
                let force_b = cb.get_net_pending_force();
                if force_a == force_b {
                    occupied.set(b, true);
                } else if force_b > force_a {
                    occupied.set(a, true);
                } else {
                    occupied.set(b, true);
                }
            }
            proof {
                assert forall|x: int|
                    0 <= x < width implies (#[trigger] occupied@[x] <==> exists|y: int|
                        0 <= y < width && y != x && #[trigger] pair_before(x, y, a as int, b + 1) && loses_to(
                            c0,
                            k0,
                            th,
                            base + x,
                            base + y,
                        )) by {
                    if occupied@[x] && !before[x] {
                        let y = if x == a as int { b as int } else { a as int };
                        assert(pair_before(x, y, a as int, b + 1));
                        assert(loses_to(c0, k0, th, base + x, base + y));
                    }
                    if before[x] {
                        let y = choose|y: int|
                            0 <= y < width && y != x && #[trigger] pair_before(x, y, a as int, b as int)
                                && loses_to(c0, k0, th, base + x, base + y);
                        assert(pair_before(x, y, a as int, b + 1));
                    }
                    if exists|y: int|
                        0 <= y < width && y != x && #[trigger] pair_before(x, y, a as int, b + 1) && loses_to(
                            c0,
                            k0,
                            th,
                            base + x,
                            base + y,
                        ) {
                        let y = choose|y: int|
                            0 <= y < width && y != x && #[trigger] pair_before(x, y, a as int, b + 1)
                                && loses_to(c0, k0, th, base + x, base + y);
                        if !pair_before(x, y, a as int, b as int) {
                            assert(occupied@[x]);
                        }
                    }
                }
            }
            b = b + 1;
        }
        proof {
            assert(b == width);
            assert forall|x: int|
                0 <= x < width implies (#[trigger] occupied@[x] <==> exists|y: int|
                    0 <= y < width && y != x && #[trigger] pair_below(x, y, a + 1) && loses_to(
                        c0,
                        k0,
                        th,
                        base + x,
                        base + y,
                    )) by {
                if occupied@[x] {
                    let y = choose|y: int|
                        0 <= y < width && y != x && #[trigger] pair_before(x, y, a as int, b as int)
                            && loses_to(c0, k0, th, base + x, base + y);
                    assert(pair_below(x, y, a + 1));
                }
                if exists|y: int|
                    0 <= y < width && y != x && #[trigger] pair_below(x, y, a + 1) && loses_to(
                        c0,
                        k0,
                        th,
                        base + x,
                        base + y,
                    ) {
                    let y = choose|y: int|
                        0 <= y < width && y != x && #[trigger] pair_below(x, y, a + 1) && loses_to(
                            c0,
                            k0,
                            th,
                            base + x,
                            base + y,
                        );
                    assert(pair_before(x, y, a as int, b as int));
                }
            }
        }
        a = a + 1;
    }
    proof {
        assert forall|x: int| 0 <= x < width implies (#[trigger] occupied@[x] <==> is_evicted(
            c0,
            k0,
            th,
            base as int,
            width as int,
            base + x,
        )) by {
            if occupied@[x] {
                let y = choose|y: int|
                    0 <= y < width && y != x && #[trigger] pair_below(x, y, width as int) && loses_to(
                        c0,
                        k0,
                        th,
                        base + x,
                        base + y,
                    );
                assert(loses_to(c0, k0, th, base + x, base + y));
            }
            if is_evicted(c0, k0, th, base as int, width as int, base + x) {
                let z = choose|z: int|
                    base <= z < base + width && z != base + x && #[trigger] loses_to(
                        c0,
                        k0,
                        th,
                        base + x,
                        z,
                    );
                let y = z - base;
                assert(pair_below(x, y, width as int));
                assert(loses_to(c0, k0, th, base + x, base + y));
            }
        }
    }
    let mut x: usize = 0;
    while x < width
        invariant
            0 <= x <= width,
            base + width <= c0.len(),
            base + width <= usize::MAX,
            c0.len() == k0.len(),
            conns@.len() == c0.len(),
            counters@.len() == k0.len(),
            0 < npn <= u16::MAX,
            occupied@.len() == width,
            forall|j: int|
                base <= j < base + width ==> (#[trigger] c0[j]).pending_index < npn && c0[j].index
                    < npn,
            forall|y: int| 0 <= y < width ==> (#[trigger] occupied@[y] <==> is_evicted(
                c0,
                k0,
                th,
                base as int,
                width as int,
                base + y,
            )),
            forall|j: int|
                0 <= j < c0.len() && !(base <= j < base + x) ==> #[trigger] conns@[j] == c0[j],
            forall|j: int|
                0 <= j < c0.len() && !(base <= j < base + x) ==> #[trigger] counters@[j] == k0[j],
            forall|j: int|
                base <= j < base + x ==> #[trigger] conns@[j] == if is_evicted(
                    c0,
                    k0,
                    th,
                    base as int,
                    width as int,
                    j,
                ) {
                    evict(c0[j], npn as int)
                } else {
                    c0[j]
                },
            forall|j: int|
                base <= j < base + x ==> #[trigger] counters@[j] == if is_evicted(
                    c0,
                    k0,
                    th,
                    base as int,
                    width as int,
                    j,
                ) {
                    CounterIntraConnection(SEARCHING_VALUE)
                } else {
                    k0[j]
                },
        decreases width - x,
    {
        proof {
            assert(occupied@[x as int] <==> is_evicted(c0, k0, th, base as int, width as int, base + x));
        }
        if occupied[x] {
            let mut r = conns[base + x];
            let new_index = opposite_index(r.pending_index as usize, npn);
            r.reset_pending();
            r.store_pending_index(new_index);
            conns.set(base + x, r);
            let mut k = counters[base + x];
            k.reset();
            counters.set(base + x, k);
        }
        x = x + 1;
    }
}

/// Every slot after its own update, before siblings are compared.
pub open spec fn slot_results(
    c: Seq<IntraConnection>,
    k: Seq<CounterIntraConnection>,
    evs: Seq<IntraEvaluation>,
    th: u8,
    g: GuardianSettings,
) -> (Seq<IntraConnection>, Seq<CounterIntraConnection>) {
    (
        Seq::new(c.len(), |x: int| slot_step(c[x], k[x], th, evs[x], g).0),
        Seq::new(c.len(), |x: int| slot_step(c[x], k[x], th, evs[x], g).1),
    )
}

/// Record and counter of slot `x` after the intraconnection pass: its own
/// update, then eviction if it lost its proposal to a sibling of the same node.
pub open spec fn intra_outcome(
    c: Seq<IntraConnection>,
    k: Seq<CounterIntraConnection>,
    evs: Seq<IntraEvaluation>,
    th: u8,
    g: GuardianSettings,
    x: int,
) -> (IntraConnection, CounterIntraConnection) {
    let m = slot_results(c, k, evs, th, g);
    let width = g.n_intraconnections_per_node as int;
    let base = (x / width) * width;
    if is_evicted(m.0, m.1, th, base, width, x) {
        (evict(m.0[x], g.n_nodes_per_neuron as int), CounterIntraConnection(SEARCHING_VALUE))
    } else {
        (m.0[x], m.1[x])
    }
}

proof fn lemma_evicted_local(
    c1: Seq<IntraConnection>,
    k1: Seq<CounterIntraConnection>,
    c2: Seq<IntraConnection>,
    k2: Seq<CounterIntraConnection>,
    th: u8,
    base: int,
    width: int,
    x: int,
)
    requires
        forall|j: int| base <= j < base + width ==> #[trigger] c1[j] == c2[j] && k1[j] == k2[j],
        base <= x < base + width,
    ensures
        is_evicted(c1, k1, th, base, width, x) == is_evicted(c2, k2, th, base, width, x),
{
    if is_evicted(c1, k1, th, base, width, x) {
        let y = choose|y: int| base <= y < base + width && y != x && #[trigger] loses_to(c1, k1, th, x, y);
        assert(c1[y] == c2[y] && c1[x] == c2[x]);
        assert(loses_to(c2, k2, th, x, y));
    }
    if is_evicted(c2, k2, th, base, width, x) {
        let y = choose|y: int| base <= y < base + width && y != x && #[trigger] loses_to(c2, k2, th, x, y);
        assert(c1[y] == c2[y] && c1[x] == c2[x]);
        assert(loses_to(c1, k1, th, x, y));
    }
}

/// Intraconnection plasticity over every node: each slot updates its
/// committed forces and its pending search from model results computed on the
/// state before the pass, then the slots of each node that propose the same
/// target are compared pairwise and every loser is evicted.
pub fn update(
    state: &mut State,
    g_settings: &GuardianSettings,
    n_settings: &NetworkSettings,
    evaluations: &Vec<IntraEvaluation>,
)
    requires
        old(state).wf(*g_settings, *n_settings),
        evaluations@.len() == old(state).intra_connections@.len(),
        forall|x: int|
            0 <= x < evaluations@.len() ==> intra_evaluation_fits(
                old(state).intra_connections@[x],
                old(state).intra_connection_counters@[x],
                crate::counter::threshold_byte(g_settings.intraconnection_max_connection_time),
                #[trigger] evaluations@[x],
                *g_settings,
            ),
    ensures
        final(state).wf(*g_settings, *n_settings),
        final(state).intra_connections@.len() == old(state).intra_connections@.len(),
        forall|x: int|
            0 <= x < final(state).intra_connections@.len() ==> #[trigger] final(state).intra_connections@[x]
                == intra_outcome(
                old(state).intra_connections@,
                old(state).intra_connection_counters@,
                evaluations@,
                crate::counter::threshold_byte(g_settings.intraconnection_max_connection_time),
                *g_settings,
                x,
            ).0,
        forall|x: int|
            0 <= x < final(state).intra_connection_counters@.len() ==> #[trigger] final(
                state).intra_connection_counters@[x] == intra_outcome(
                old(state).intra_connections@,
                old(state).intra_connection_counters@,
                evaluations@,
                crate::counter::threshold_byte(g_settings.intraconnection_max_connection_time),
                *g_settings,
                x,
            ).1,
        final(state).nodes == old(state).nodes,
        final(state).neuron_states == old(state).neuron_states,
        final(state).inter_connections == old(state).inter_connections,
        final(state).inter_connection_counters == old(state).inter_connection_counters,
{
    let th = crate::counter::threshold_from(g_settings.intraconnection_max_connection_time);
    let npn = g_settings.n_nodes_per_neuron;
    let width = g_settings.n_intraconnections_per_node;
    let total = n_settings.n_neurons * npn;
    let ghost s0 = *state;
    let ghost c0 = state.intra_connections@;
    let ghost k0 = state.intra_connection_counters@;
    let ghost m = slot_results(c0, k0, evaluations@, th, *g_settings);
    let mut node: usize = 0;
    while node < total
        invariant
            s0.wf(*g_settings, *n_settings),
            c0 == s0.intra_connections@,
            k0 == s0.intra_connection_counters@,
            m == slot_results(c0, k0, evaluations@, th, *g_settings),
            th == crate::counter::threshold_byte(g_settings.intraconnection_max_connection_time),
            npn == g_settings.n_nodes_per_neuron,
            width == g_settings.n_intraconnections_per_node,
            total == total_nodes(*g_settings, *n_settings),
            evaluations@.len() == c0.len(),
            forall|x: int|
                0 <= x < evaluations@.len() ==> intra_evaluation_fits(
                    c0[x],
                    k0[x],
                    th,
                    #[trigger] evaluations@[x],
                    *g_settings,
                ),
            0 <= node <= total,
            state.intra_connections@.len() == c0.len(),
            state.intra_connection_counters@.len() == c0.len(),
            forall|x: int|
                0 <= x < node * width ==> #[trigger] state.intra_connections@[x] == intra_outcome(
                    c0,
                    k0,
                    evaluations@,
                    th,
                    *g_settings,
                    x,
                ).0,
            forall|x: int|
                0 <= x < node * width ==> #[trigger] state.intra_connection_counters@[x]
                    == intra_outcome(c0, k0, evaluations@, th, *g_settings, x).1,
            forall|x: int| node * width <= x < c0.len() ==> #[trigger] state.intra_connections@[x] == c0[x],
            forall|x: int|
                0 <= x < node * width ==> (#[trigger] state.intra_connections@[x]).index < npn
                    && state.intra_connections@[x].pending_index < npn,
            forall|x: int|
                node * width <= x < c0.len() ==> #[trigger] state.intra_connection_counters@[x] == k0[x],
            state.nodes == s0.nodes,
            state.neuron_states == s0.neuron_states,
            state.inter_connections == s0.inter_connections,
            state.inter_connection_counters == s0.inter_connection_counters,
        decreases total - node,
    {
        proof {
            assert((node + 1) * width <= total * width) by (nonlinear_arith)
                requires
                    node < total,
            ;
            assert(node * width + width == (node + 1) * width) by (nonlinear_arith);
        }
        let base = node * width;
        let mut slot: usize = 0;
        while slot < width
            invariant
                s0.wf(*g_settings, *n_settings),
                c0 == s0.intra_connections@,
                k0 == s0.intra_connection_counters@,
                m == slot_results(c0, k0, evaluations@, th, *g_settings),
                th == crate::counter::threshold_byte(g_settings.intraconnection_max_connection_time),
                npn == g_settings.n_nodes_per_neuron,
                width == g_settings.n_intraconnections_per_node,
                evaluations@.len() == c0.len(),
                forall|x: int|
                    0 <= x < evaluations@.len() ==> intra_evaluation_fits(
                        c0[x],
                        k0[x],
                        th,
                        #[trigger] evaluations@[x],
                        *g_settings,
                    ),
                base == node * width,
                base + width <= c0.len(),
                0 <= slot <= width,
                state.intra_connections@.len() == c0.len(),
                state.intra_connection_counters@.len() == c0.len(),
                forall|x: int|
                    0 <= x < base ==> #[trigger] state.intra_connections@[x] == intra_outcome(
                        c0,
                        k0,
                        evaluations@,
                        th,
                        *g_settings,
                        x,
                    ).0,
                forall|x: int|
                    0 <= x < base ==> #[trigger] state.intra_connection_counters@[x]
                        == intra_outcome(c0, k0, evaluations@, th, *g_settings, x).1,
                forall|x: int| base <= x < base + slot ==> #[trigger] state.intra_connections@[x] == m.0[x],
                forall|x: int|
                    0 <= x < base + slot ==> (#[trigger] state.intra_connections@[x]).index < npn
                        && state.intra_connections@[x].pending_index < npn,
                forall|x: int|
                    base <= x < base + slot ==> #[trigger] state.intra_connection_counters@[x] == m.1[x],
                forall|x: int| base + slot <= x < c0.len() ==> #[trigger] state.intra_connections@[x] == c0[x],
                forall|x: int|
                    base + slot <= x < c0.len() ==> #[trigger] state.intra_connection_counters@[x] == k0[x],
                state.nodes == s0.nodes,
                state.neuron_states == s0.neuron_states,
                state.inter_connections == s0.inter_connections,
                state.inter_connection_counters == s0.inter_connection_counters,
            decreases width - slot,
        {
            let x = base + slot;
            let mut r = state.intra_connections[x];
            let mut k = state.intra_connection_counters[x];
            let ev = &evaluations[x];
            proof {
                assert(intra_evaluation_fits(c0[x as int], k0[x as int], th, evaluations@[x as int], *g_settings));
            }
            update_main_connection(&mut r, ev.main);
            update_pending_connection(&mut r, &mut k, th, &ev.pending, g_settings);
            state.intra_connections.set(x, r);
            state.intra_connection_counters.set(x, k);
            slot = slot + 1;
        }
        let ghost before = state.intra_connections@;
        let ghost before_k = state.intra_connection_counters@;
        resolve_conflicts(
            &mut state.intra_connections,
            &mut state.intra_connection_counters,
            base,
            width,
            th,
            npn,
        );
        proof {
            assert forall|x: int| base <= x < base + width implies #[trigger] state.intra_connections@[x]
                == intra_outcome(c0, k0, evaluations@, th, *g_settings, x).0 by {
                vstd::arithmetic::div_mod::lemma_fundamental_div_mod_converse(x, width as int, node as int, x - base);
                lemma_evicted_local(before, before_k, m.0, m.1, th, base as int, width as int, x);
            }
            assert forall|x: int| base <= x < base + width implies #[trigger] state.intra_connection_counters@[x]
                == intra_outcome(c0, k0, evaluations@, th, *g_settings, x).1 by {
                vstd::arithmetic::div_mod::lemma_fundamental_div_mod_converse(x, width as int, node as int, x - base);
                lemma_evicted_local(before, before_k, m.0, m.1, th, base as int, width as int, x);
            }
            assert(node * width + width == (node + 1) * width) by (nonlinear_arith);
        }
        node = node + 1;
    }
    proof {
        assert(total * width == c0.len());
    }
}

/// Two slots of a node that propose the same target with the same net pending
/// force, while no other sibling beats the lower one: the lower slot keeps its
/// proposal, and the higher one is evicted to the node across the ring.
pub proof fn lemma_tie_eviction(
    c: Seq<IntraConnection>,
    k: Seq<CounterIntraConnection>,
    th: u8,
    base: int,
    width: int,
    x: int,
    y: int,
    npn: int,
)
    requires
        base <= x < y < base + width,
        state_of(k[x].0, th) != NodeState::Searching,
        state_of(k[y].0, th) != NodeState::Searching,
        c[x].pending_index == c[y].pending_index,
        c[x].net_pending_force() == c[y].net_pending_force(),
        forall|z: int| base <= z < base + width && z != x && z != y ==> !#[trigger] loses_to(c, k, th, x, z),
    ensures
        !is_evicted(c, k, th, base, width, x),
        is_evicted(c, k, th, base, width, y),
        evict(c[y], npn).pending_index == opposite(c[x].pending_index as int, npn) as u16,
{
    assert(loses_to(c, k, th, y, x));
    assert(!loses_to(c, k, th, x, y));
}

/// Tells what the intraconnection pass will need evaluated for slot `slot`.
pub fn pending_work(
    state: &State,
    g_settings: &GuardianSettings,
    n_settings: &NetworkSettings,
    slot: usize,
) -> (r: PendingWork)
    requires
        state.wf(*g_settings, *n_settings),
        slot < state.intra_connections@.len(),
    ensures
        ({
            let th = crate::counter::threshold_byte(g_settings.intraconnection_max_connection_time);
            let st = intra_acting_state(state.intra_connection_counters@[slot as int], th);
            let c = state.intra_connections@[slot as int];
            &&& st == NodeState::Searching ==> (r matches PendingWork::Search(v) && v@ == intra_area(
                c.index as int,
                c.pending_index as int,
                *g_settings,
            ))
            &&& st == NodeState::Connecting ==> (r matches PendingWork::Connect(t) && t == c.pending_index)
            &&& st != NodeState::Searching && st != NodeState::Connecting ==> r is Idle
        }),
{
    let th = crate::counter::threshold_from(g_settings.intraconnection_max_connection_time);
    let mut value = state.intra_connection_counters[slot].0;
    if decode_state(value, th) == NodeState::Failed {
        value = SEARCHING_VALUE;
    }
    match decode_state(value, th) {
        NodeState::Searching => PendingWork::Search(
            get_area_to_search(&state.intra_connections[slot], g_settings),
        ),
        NodeState::Connecting => PendingWork::Connect(state.intra_connections[slot].pending_index as usize),
        _ => PendingWork::Idle,
    }
}

/// Tells whether the model results have the shape the intraconnection pass needs.
pub fn evaluations_fit(
    state: &State,
    g_settings: &GuardianSettings,
    n_settings: &NetworkSettings,
    evaluations: &Vec<IntraEvaluation>,
) -> (r: bool)
    requires
        state.wf(*g_settings, *n_settings),
    ensures
        r == (evaluations@.len() == state.intra_connections@.len() && forall|x: int|
            0 <= x < evaluations@.len() ==> intra_evaluation_fits(
                state.intra_connections@[x],
                state.intra_connection_counters@[x],
                crate::counter::threshold_byte(g_settings.intraconnection_max_connection_time),
                #[trigger] evaluations@[x],
                *g_settings,
            )),
{
    if evaluations.len() != state.intra_connections.len() {
        return false;
    }
    let th = crate::counter::threshold_from(g_settings.intraconnection_max_connection_time);
    let mut x: usize = 0;
    while x < evaluations.len()
        invariant
            state.wf(*g_settings, *n_settings),
            evaluations@.len() == state.intra_connections@.len(),
            th == crate::counter::threshold_byte(g_settings.intraconnection_max_connection_time),
            0 <= x <= evaluations@.len(),
            forall|j: int|
                0 <= j < x ==> intra_evaluation_fits(
                    state.intra_connections@[j],
                    state.intra_connection_counters@[j],
                    th,
                    #[trigger] evaluations@[j],
                    *g_settings,
                ),
        decreases evaluations@.len() - x,
    {
        let needed = pending_work(state, g_settings, n_settings, x);
        let fits = match needed {
            PendingWork::Search(area) => evaluations[x].pending.len() == area.len(),
            PendingWork::Connect(_) => evaluations[x].pending.len() >= 1,
            PendingWork::Idle => true,
        };
        if !fits {
            return false;
        }
        x = x + 1;
    }
    true
}

} // verus!
