use vstd::prelude::*;
use crate::connection::{InterConnection, IntraConnection, UNCONNECTED_FORCE};
use crate::inter_plasticity::{is_mutual, is_unconnected};
use crate::settings::{GuardianSettings, NetworkSettings};
use crate::topology::{total_nodes, State};

verus! {

/// Per-byte changes that a state model gives for one computation, in codec
/// steps of 1/255: one vector for the node that computes, one for its partner.
#[derive(Debug, Clone)]
pub struct DeltaPair {
    pub delta_self: Vec<i32>,
    pub delta_other: Vec<i32>,
}

/// Largest element of a non-empty sequence.
pub open spec fn seq_max(s: Seq<i32>) -> int
    decreases s.len(),
{
    if s.len() <= 1 {
        if s.len() == 1 {
            s[0] as int
        } else {
            0
        }
    } else {
        let m = seq_max(s.drop_last());
        if s.last() > m {
            s.last() as int
        } else {
            m
        }
    }
}

/// Smallest element of a non-empty sequence.
pub open spec fn seq_min(s: Seq<i32>) -> int
    decreases s.len(),
{
    if s.len() <= 1 {
        if s.len() == 1 {
            s[0] as int
        } else {
            0
        }
    } else {
        let m = seq_min(s.drop_last());
        if s.last() < m {
            s.last() as int
        } else {
            m
        }
    }
}

/// Envelope of a set of deltas: the most extreme rise plus the most extreme
/// fall, so that a node with many connections follows the strongest opinions
/// instead of their average. No delta at all gives zero.
pub open spec fn envelope_of(s: Seq<i32>) -> int {
    if s.len() == 0 {
        0
    } else {
        seq_max(s) + seq_min(s)
    }
}

/// The envelope bounds: the largest and the smallest delta are deltas of the
/// list, and every delta lies between them.
pub proof fn lemma_extremes(s: Seq<i32>)
    requires
        s.len() > 0,
    ensures
        forall|i: int| 0 <= i < s.len() ==> seq_min(s) <= #[trigger] s[i] <= seq_max(s),
        exists|i: int| 0 <= i < s.len() && #[trigger] s[i] == seq_max(s),
        exists|i: int| 0 <= i < s.len() && #[trigger] s[i] == seq_min(s),
    decreases s.len(),
{
    if s.len() > 1 {
        let p = s.drop_last();
        lemma_extremes(p);
        assert forall|i: int| 0 <= i < s.len() implies seq_min(s) <= #[trigger] s[i] <= seq_max(s) by {
            if i < p.len() {
                assert(s[i] == p[i]);
            }
        }
        let a = choose|i: int| 0 <= i < p.len() && #[trigger] p[i] == seq_max(p);
        let b = choose|i: int| 0 <= i < p.len() && #[trigger] p[i] == seq_min(p);
        assert(s[a] == p[a]);
        assert(s[b] == p[b]);
        assert(s[s.len() - 1] == s.last());
    } else {
        assert(s[0] == seq_max(s));
    }
}

/// Envelope of a list of deltas: its largest plus its smallest element, or
/// zero for an empty list.
pub fn envelope(deltas: &Vec<i32>) -> (r: i64)
    ensures
        r == envelope_of(deltas@),
{
    if deltas.len() == 0 {
        return 0;
    }
    let mut lo = deltas[0];
    let mut hi = deltas[0];
    let mut i: usize = 1;
    while i < deltas.len()
        invariant
            1 <= i <= deltas@.len(),
            lo == seq_min(deltas@.take(i as int)),
            hi == seq_max(deltas@.take(i as int)),
        decreases deltas@.len() - i,
    {
        proof {
            assert(deltas@.take(i + 1).drop_last() == deltas@.take(i as int));
        }
        let v = deltas[i];
        if v < lo {
            lo = v;
        }
        if v > hi {
            hi = v;
        }
        i = i + 1;
    }
    proof {
        assert(deltas@.take(i as int) == deltas@);
        lemma_extremes(deltas@);
    }
    hi as i64 + lo as i64
}

/// A byte moved by `d` codec steps, saturating at both ends.
pub open spec fn shifted(b: u8, d: int) -> u8 {
    if b + d < 0 {
        0
    } else if b + d > 255 {
        255
    } else {
        (b + d) as u8
    }
}

/// Moves a byte by `d` codec steps, saturating at 0 and 255.
pub fn shift_byte(b: u8, d: i64) -> (r: u8)
    ensures
        r == shifted(b, d as int),
{
    let v = b as i128 + d as i128;
    if v < 0 {
        0
    } else if v > 255 {
        255
    } else {
        v as u8
    }
}

proof fn lemma_flat_index(x: int, j: int, w: int, n: int)
    requires
        0 <= x < n,
        0 <= j < w,
    ensures
        0 <= x * w + j < n * w,
        (x * w + j) / w == x,
        (x * w + j) % w == j,
        x * w + w <= n * w,
{
    assert(0 <= x * w + j < n * w) by (nonlinear_arith)
        requires
            0 <= x < n,
            0 <= j < w,
    ;
    assert(x * w + w <= n * w) by (nonlinear_arith)
        requires
            0 <= x < n,
            0 <= j < w,
    ;
    vstd::arithmetic::div_mod::lemma_fundamental_div_mod_converse(x * w + j, w, x, j);
}

/// Delta that node `x` receives in the interconnected-node stage: a node
/// whose mutual partner has the lower index gets the partner's computed
/// `delta_other`; any other node gets its own `delta_self`.
pub open spec fn inter_node_delta(c: Seq<InterConnection>, d: Seq<DeltaPair>, x: int) -> Seq<i32> {
    let o = c[x].index as int;
    if is_mutual(c, x) && o < x {
        d[o].delta_other@
    } else {
        d[x].delta_self@
    }
}

/// The deltas hold one entry per node, each vector `len` long.
pub open spec fn deltas_fit(d: Seq<DeltaPair>, count: int, len: int) -> bool {
    &&& d.len() == count
    &&& forall|x: int|
        0 <= x < count ==> (#[trigger] d[x]).delta_self@.len() == len && d[x].delta_other@.len()
            == len
}

/// Interconnected-node stage: every node moves by the delta of the one
/// computation that covers it (its pair's lower endpoint, or itself), and a
/// committed edge whose partner does not point back is marked unconnected.
pub fn update_interconnected_nodes(
    state: &mut State,
    g_settings: &GuardianSettings,
    n_settings: &NetworkSettings,
    deltas: &Vec<DeltaPair>,
)
    requires
        old(state).wf(*g_settings, *n_settings),
        deltas_fit(deltas@, total_nodes(*g_settings, *n_settings), g_settings.node_size as int),
    ensures
        final(state).wf(*g_settings, *n_settings),
        forall|p: int|
            0 <= p < final(state).nodes@.len() ==> #[trigger] final(state).nodes@[p] == shifted(
                old(state).nodes@[p],
                inter_node_delta(
                    old(state).inter_connections@,
                    deltas@,
                    p / (g_settings.node_size as int),
                )[p % (g_settings.node_size as int)] as int,
            ),
        forall|x: int|
            0 <= x < final(state).inter_connections@.len() ==> #[trigger] final(
                state).inter_connections@[x] == if is_mutual(old(state).inter_connections@, x) {
                old(state).inter_connections@[x]
            } else {
                old(state).inter_connections@[x].with_forces(UNCONNECTED_FORCE, UNCONNECTED_FORCE)
            },
        forall|x: int|
            0 <= x < final(state).inter_connections@.len() ==> is_mutual(
                final(state).inter_connections@,
                x,
            ) || is_unconnected(#[trigger] final(state).inter_connections@[x]),
        final(state).neuron_states == old(state).neuron_states,
        final(state).inter_connection_counters == old(state).inter_connection_counters,
        final(state).intra_connections == old(state).intra_connections,
        final(state).intra_connection_counters == old(state).intra_connection_counters,
{
    let ns = g_settings.node_size;
    let total = n_settings.n_neurons * g_settings.n_nodes_per_neuron;
    let ghost s0 = *state;
    let ghost n0 = state.nodes@;
    let ghost c0 = state.inter_connections@;
    let mut x: usize = 0;
    while x < total
        invariant
            s0.wf(*g_settings, *n_settings),
            n0 == s0.nodes@,
            c0 == s0.inter_connections@,
            ns == g_settings.node_size,
            total == total_nodes(*g_settings, *n_settings),
            deltas_fit(deltas@, total as int, ns as int),
            0 <= x <= total,
            state.nodes@.len() == n0.len(),
            state.inter_connections@.len() == c0.len(),
            forall|p: int|
                0 <= p < x * ns ==> #[trigger] state.nodes@[p] == shifted(
                    n0[p],
                    inter_node_delta(c0, deltas@, p / (ns as int))[p % (ns as int)] as int,
                ),
            forall|p: int| x * ns <= p < n0.len() ==> #[trigger] state.nodes@[p] == n0[p],
            forall|y: int|
                0 <= y < x ==> #[trigger] state.inter_connections@[y] == if is_mutual(c0, y) {
                    c0[y]
                } else {
                    c0[y].with_forces(UNCONNECTED_FORCE, UNCONNECTED_FORCE)
                },
            forall|y: int| x <= y < c0.len() ==> #[trigger] state.inter_connections@[y] == c0[y],
            state.neuron_states == s0.neuron_states,
            state.inter_connection_counters == s0.inter_connection_counters,
            state.intra_connections == s0.intra_connections,
            state.intra_connection_counters == s0.intra_connection_counters,
        decreases total - x,
    {
        let other = state.inter_connections[x].index as usize;
        let mutual = state.inter_connections[other].index as usize == x;
        proof {
            assert(state.inter_connections@[other as int] == c0[other as int] || other < x);
            assert(state.inter_connections@[other as int].index == c0[other as int].index);
        }
        let source: &Vec<i32> = if mutual && other < x {
            &deltas[other].delta_other
        } else {
            &deltas[x].delta_self
        };
        proof {
            assert(source@ == inter_node_delta(c0, deltas@, x as int));
        }
        let ghost cx = state.inter_connections@;
        let mut j: usize = 0;
        while j < ns
            invariant
                state.inter_connections@ == cx,
                state.neuron_states == s0.neuron_states,
                state.inter_connection_counters == s0.inter_connection_counters,
                state.intra_connections == s0.intra_connections,
                state.intra_connection_counters == s0.intra_connection_counters,
                s0.wf(*g_settings, *n_settings),
                n0 == s0.nodes@,
                ns == g_settings.node_size,
                total == total_nodes(*g_settings, *n_settings),
                0 <= x < total,
                0 <= j <= ns,
                source@ == inter_node_delta(c0, deltas@, x as int),
                source@.len() == ns,
                state.nodes@.len() == n0.len(),
                forall|p: int|
                    0 <= p < x * ns + j ==> #[trigger] state.nodes@[p] == shifted(
                        n0[p],
                        inter_node_delta(c0, deltas@, p / (ns as int))[p % (ns as int)] as int,
                    ),
                forall|p: int| x * ns + j <= p < n0.len() ==> #[trigger] state.nodes@[p] == n0[p],
            decreases ns - j,
        {
            proof {
                lemma_flat_index(x as int, j as int, ns as int, total as int);
            }
            let p = x * ns + j;
            let b = shift_byte(state.nodes[p], source[j] as i64);
            state.nodes.set(p, b);
            j = j + 1;
        }
        if !mutual {
            let mut r = state.inter_connections[x];
            r.reset_main();
            state.inter_connections.set(x, r);
        }
        proof {
            assert(x * ns + ns == (x + 1) * ns) by (nonlinear_arith);
        }
        x = x + 1;
    }
    proof {
        assert forall|y: int|
            0 <= y < state.inter_connections@.len() implies is_mutual(state.inter_connections@, y)
            || is_unconnected(#[trigger] state.inter_connections@[y]) by {
            let o = c0[y].index as int;
            assert(state.inter_connections@[o].index == c0[o].index);
        }
    }
}

/// Running extremes of a list of deltas: whether any was seen, the smallest and the largest.
pub open spec fn tracks(s: Seq<i32>, seen: bool, lo: i32, hi: i32) -> bool {
    &&& seen == (s.len() > 0)
    &&& seen ==> lo == seq_min(s) && hi == seq_max(s)
}

fn extend_extremes(seen: bool, lo: i32, hi: i32, v: i32, s: Ghost<Seq<i32>>) -> (r: (bool, i32, i32))
    requires
        tracks(s@, seen, lo, hi),
    ensures
        tracks(s@.push(v), r.0, r.1, r.2),
{
    proof {
        assert(s@.push(v).drop_last() =~= s@);
        assert(s@.push(v).last() == v);
    }
    if !seen {
        (true, v, v)
    } else {
        (true, if v < lo {
            v
        } else {
            lo
        }, if v > hi {
            v
        } else {
            hi
        })
    }
}

fn envelope_value(seen: bool, lo: i32, hi: i32, s: Ghost<Seq<i32>>) -> (r: i64)
    requires
        tracks(s@, seen, lo, hi),
    ensures
        r == envelope_of(s@),
{
    if seen {
        hi as i64 + lo as i64
    } else {
        0
    }
}

/// Changes that the neuron-state model gives for one node, in codec steps:
/// one for its neuron's state, one for the node itself.
#[derive(Debug, Clone)]
pub struct NeuronDelta {
    pub delta_neuron_state: Vec<i32>,
    pub delta_node: Vec<i32>,
}

/// Byte `j` of the neuron-state deltas of the first `a` nodes of neuron `ne`, in order.
pub open spec fn neuron_contributions(d: Seq<NeuronDelta>, ne: int, j: int, npn: int, a: nat) -> Seq<i32>
    decreases a,
{
    if a == 0 {
        seq![]
    } else {
        neuron_contributions(d, ne, j, npn, (a - 1) as nat).push(d[ne * npn + a - 1].delta_neuron_state@[j])
    }
}

/// Neuron-state stage: every node moves by its own node delta, and every
/// byte of a neuron's state moves by the envelope of its nodes' deltas for
/// that byte.
pub fn update_neuron_states(
    state: &mut State,
    g_settings: &GuardianSettings,
    n_settings: &NetworkSettings,
    deltas: &Vec<NeuronDelta>,
)
    requires
        old(state).wf(*g_settings, *n_settings),
        deltas@.len() == total_nodes(*g_settings, *n_settings),
        forall|x: int|
            0 <= x < deltas@.len() ==> (#[trigger] deltas@[x]).delta_neuron_state@.len()
                == g_settings.neuron_state_size && deltas@[x].delta_node@.len() == g_settings.node_size,
    ensures
        final(state).wf(*g_settings, *n_settings),
        forall|p: int|
            0 <= p < final(state).nodes@.len() ==> #[trigger] final(state).nodes@[p] == shifted(
                old(state).nodes@[p],
                deltas@[p / (g_settings.node_size as int)].delta_node@[p % (g_settings.node_size as int)] as int,
            ),
        forall|q: int|
            0 <= q < final(state).neuron_states@.len() ==> #[trigger] final(state).neuron_states@[q]
                == shifted(
                old(state).neuron_states@[q],
                envelope_of(
                    neuron_contributions(
                        deltas@,
                        q / (g_settings.neuron_state_size as int),
                        q % (g_settings.neuron_state_size as int),
                        g_settings.n_nodes_per_neuron as int,
                        g_settings.n_nodes_per_neuron as nat,
                    ),
                ),
            ),
        final(state).inter_connections == old(state).inter_connections,
        final(state).inter_connection_counters == old(state).inter_connection_counters,
        final(state).intra_connections == old(state).intra_connections,
        final(state).intra_connection_counters == old(state).intra_connection_counters,
{
    let ns = g_settings.node_size;
    let ss = g_settings.neuron_state_size;
    let npn = g_settings.n_nodes_per_neuron;
    let n_neurons = n_settings.n_neurons;
    let ghost s0 = *state;
    let ghost n0 = state.nodes@;
    let ghost q0 = state.neuron_states@;
    let n_bytes = state.nodes.len();
    let mut p: usize = 0;
    while p < n_bytes
        invariant
            s0.wf(*g_settings, *n_settings),
            n0 == s0.nodes@,
            ns == g_settings.node_size,
            n_bytes == n0.len(),
            deltas@.len() == total_nodes(*g_settings, *n_settings),
            forall|x: int|
                0 <= x < deltas@.len() ==> (#[trigger] deltas@[x]).delta_neuron_state@.len()
                    == g_settings.neuron_state_size && deltas@[x].delta_node@.len() == g_settings.node_size,
            0 <= p <= n_bytes,
            state.nodes@.len() == n0.len(),
            forall|r: int|
                0 <= r < p ==> #[trigger] state.nodes@[r] == shifted(
                    n0[r],
                    deltas@[r / (ns as int)].delta_node@[r % (ns as int)] as int,
                ),
            forall|r: int| p <= r < n0.len() ==> #[trigger] state.nodes@[r] == n0[r],
            state.neuron_states == s0.neuron_states,
            state.inter_connections == s0.inter_connections,
            state.inter_connection_counters == s0.inter_connection_counters,
            state.intra_connections == s0.intra_connections,
            state.intra_connection_counters == s0.intra_connection_counters,
        decreases n_bytes - p,
    {
        proof {
            assert(ns > 0) by (nonlinear_arith)
                requires
                    p < n_bytes,
                    n_bytes == total_nodes(*g_settings, *n_settings) * ns,
            ;
            vstd::arithmetic::div_mod::lemma_fundamental_div_mod(p as int, ns as int);
            assert((p as int / ns as int) < total_nodes(*g_settings, *n_settings)) by (nonlinear_arith)
                requires
                    p < total_nodes(*g_settings, *n_settings) * ns,
                    ns > 0,
                    p == ns * (p as int / ns as int) + (p as int % ns as int),
                    0 <= p as int % ns as int,
            ;
        }
        let node = p / ns;
        let j = p % ns;
        let b = shift_byte(state.nodes[p], deltas[node].delta_node[j] as i64);
        state.nodes.set(p, b);
        p = p + 1;
    }
    let mut ne: usize = 0;
    while ne < n_neurons
        invariant
            s0.wf(*g_settings, *n_settings),
            q0 == s0.neuron_states@,
            ss == g_settings.neuron_state_size,
            npn == g_settings.n_nodes_per_neuron,
            n_neurons == n_settings.n_neurons,
            deltas@.len() == total_nodes(*g_settings, *n_settings),
            forall|x: int|
                0 <= x < deltas@.len() ==> (#[trigger] deltas@[x]).delta_neuron_state@.len()
                    == g_settings.neuron_state_size && deltas@[x].delta_node@.len() == g_settings.node_size,
            0 <= ne <= n_neurons,
            state.neuron_states@.len() == q0.len(),
            forall|q: int|
                0 <= q < ne * ss ==> #[trigger] state.neuron_states@[q] == shifted(
                    q0[q],
                    envelope_of(
                        neuron_contributions(deltas@, q / (ss as int), q % (ss as int), npn as int, npn as nat),
                    ),
                ),
            forall|q: int| ne * ss <= q < q0.len() ==> #[trigger] state.neuron_states@[q] == q0[q],
            forall|r: int|
                0 <= r < state.nodes@.len() ==> #[trigger] state.nodes@[r] == shifted(
                    s0.nodes@[r],
                    deltas@[r / (g_settings.node_size as int)].delta_node@[r % (g_settings.node_size as int)] as int,
                ),
            state.nodes@.len() == s0.nodes@.len(),
            state.inter_connections == s0.inter_connections,
            state.inter_connection_counters == s0.inter_connection_counters,
            state.intra_connections == s0.intra_connections,
            state.intra_connection_counters == s0.intra_connection_counters,
        decreases n_neurons - ne,
    {
        let ghost nodes_now = state.nodes@;
        let mut j: usize = 0;
        while j < ss
            invariant
                s0.wf(*g_settings, *n_settings),
                q0 == s0.neuron_states@,
                ss == g_settings.neuron_state_size,
                npn == g_settings.n_nodes_per_neuron,
                n_neurons == n_settings.n_neurons,
                deltas@.len() == total_nodes(*g_settings, *n_settings),
                forall|x: int|
                    0 <= x < deltas@.len() ==> (#[trigger] deltas@[x]).delta_neuron_state@.len()
                        == g_settings.neuron_state_size && deltas@[x].delta_node@.len() == g_settings.node_size,
                0 <= ne < n_neurons,
                0 <= j <= ss,
                state.neuron_states@.len() == q0.len(),
                forall|q: int|
                    0 <= q < ne * ss + j ==> #[trigger] state.neuron_states@[q] == shifted(
                        q0[q],
                        envelope_of(
                            neuron_contributions(deltas@, q / (ss as int), q % (ss as int), npn as int, npn as nat),
                        ),
                    ),
                forall|q: int| ne * ss + j <= q < q0.len() ==> #[trigger] state.neuron_states@[q] == q0[q],
                state.nodes@ == nodes_now,
                state.inter_connections == s0.inter_connections,
                state.inter_connection_counters == s0.inter_connection_counters,
                state.intra_connections == s0.intra_connections,
                state.intra_connection_counters == s0.intra_connection_counters,
            decreases ss - j,
        {
            let mut seen = false;
            let mut lo: i32 = 0;
            let mut hi: i32 = 0;
            let mut a: usize = 0;
            proof {
                lemma_flat_index(ne as int, j as int, ss as int, n_neurons as int);
            }
            while a < npn
                invariant
                    s0.wf(*g_settings, *n_settings),
                    npn == g_settings.n_nodes_per_neuron,
                    n_neurons == n_settings.n_neurons,
                    deltas@.len() == total_nodes(*g_settings, *n_settings),
                    forall|x: int|
                        0 <= x < deltas@.len() ==> (#[trigger] deltas@[x]).delta_neuron_state@.len()
                            == g_settings.neuron_state_size && deltas@[x].delta_node@.len() == g_settings.node_size,
                    0 <= ne < n_neurons,
                    0 <= j < ss,
                    ss == g_settings.neuron_state_size,
                    0 <= a <= npn,
                    tracks(neuron_contributions(deltas@, ne as int, j as int, npn as int, a as nat), seen, lo, hi),
                decreases npn - a,
            {
                proof {
                    lemma_flat_index(ne as int, a as int, npn as int, n_neurons as int);
                }
                let v = deltas[ne * npn + a].delta_neuron_state[j];
                let ghost before = neuron_contributions(deltas@, ne as int, j as int, npn as int, a as nat);
                let r = extend_extremes(seen, lo, hi, v, Ghost(before));
                seen = r.0;
                lo = r.1;
                hi = r.2;
                a = a + 1;
            }
            let env = envelope_value(
                seen,
                lo,
                hi,
                Ghost(neuron_contributions(deltas@, ne as int, j as int, npn as int, npn as nat)),
            );
            let q = ne * ss + j;
            let b = shift_byte(state.neuron_states[q], env);
            state.neuron_states.set(q, b);
            j = j + 1;
        }
        proof {
            assert(ne * ss + ss == (ne + 1) * ss) by (nonlinear_arith);
        }
        ne = ne + 1;
    }
    proof {
        assert(n_neurons * ss == q0.len());
    }
}

/// Byte `j` of the deltas that local node `x` of neuron `ne` receives from the
/// first `s` slots of its neuron, in slot order: a slot's `delta_self` goes to
/// the node that owns the slot, its `delta_other` to the node it points at.
pub open spec fn intra_contributions(
    c: Seq<IntraConnection>,
    d: Seq<DeltaPair>,
    ne: int,
    x: int,
    j: int,
    npn: int,
    w: int,
    s: nat,
) -> Seq<i32>
    decreases s,
{
    if s == 0 {
        seq![]
    } else {
        let p = intra_contributions(c, d, ne, x, j, npn, w, (s - 1) as nat);
        let slot = ne * (npn * w) + (s - 1);
        let with_own = if (s - 1) / w == x {
            p.push(d[slot].delta_self@[j])
        } else {
            p
        };
        if c[slot].index == x {
            with_own.push(d[slot].delta_other@[j])
        } else {
            with_own
        }
    }
}

/// Intraconnected-node stage: every byte of a node moves by the envelope of
/// all deltas that the intraconnections of its neuron send it, computed from
/// the state before the stage.
pub fn update_intraconnected_nodes(
    state: &mut State,
    g_settings: &GuardianSettings,
    n_settings: &NetworkSettings,
    deltas: &Vec<DeltaPair>,
)
    requires
        old(state).wf(*g_settings, *n_settings),
        deltas_fit(
            deltas@,
            total_nodes(*g_settings, *n_settings) * g_settings.n_intraconnections_per_node,
            g_settings.node_size as int,
        ),
    ensures
        final(state).wf(*g_settings, *n_settings),
        forall|p: int|
            0 <= p < final(state).nodes@.len() ==> #[trigger] final(state).nodes@[p] == shifted(
                old(state).nodes@[p],
                envelope_of(
                    intra_contributions(
                        old(state).intra_connections@,
                        deltas@,
                        (p / (g_settings.node_size as int)) / (g_settings.n_nodes_per_neuron as int),
                        (p / (g_settings.node_size as int)) % (g_settings.n_nodes_per_neuron as int),
                        p % (g_settings.node_size as int),
                        g_settings.n_nodes_per_neuron as int,
                        g_settings.n_intraconnections_per_node as int,
                        (g_settings.n_nodes_per_neuron * g_settings.n_intraconnections_per_node) as nat,
                    ),
                ),
            ),
        final(state).neuron_states == old(state).neuron_states,
        final(state).inter_connections == old(state).inter_connections,
        final(state).inter_connection_counters == old(state).inter_connection_counters,
        final(state).intra_connections == old(state).intra_connections,
        final(state).intra_connection_counters == old(state).intra_connection_counters,
{
    let ns = g_settings.node_size;
    let npn = g_settings.n_nodes_per_neuron;
    let w = g_settings.n_intraconnections_per_node;
    let n_neurons = n_settings.n_neurons;
    let total = n_neurons * npn;
    let ghost s0 = *state;
    let ghost n0 = state.nodes@;
    let ghost c0 = state.intra_connections@;
    proof {
        assert(n_neurons * (npn * w) == total * w) by (nonlinear_arith)
            requires
                total == n_neurons * npn,
        ;
        assert(npn * w <= n_neurons * (npn * w)) by (nonlinear_arith)
            requires
                n_neurons > 0,
        ;
    }
    let slots_per_neuron = npn * w;
    let mut node: usize = 0;
    while node < total
        invariant
            s0.wf(*g_settings, *n_settings),
            n0 == s0.nodes@,
            c0 == s0.intra_connections@,
            ns == g_settings.node_size,
            npn == g_settings.n_nodes_per_neuron,
            w == g_settings.n_intraconnections_per_node,
            n_neurons == n_settings.n_neurons,
            total == total_nodes(*g_settings, *n_settings),
            slots_per_neuron == npn * w,
            n_neurons * (npn * w) == total * w,
            deltas_fit(deltas@, total * w, ns as int),
            0 <= node <= total,
            state.nodes@.len() == n0.len(),
            forall|p: int|
                0 <= p < node * ns ==> #[trigger] state.nodes@[p] == shifted(
                    n0[p],
                    envelope_of(
                        intra_contributions(
                            c0,
                            deltas@,
                            (p / (ns as int)) / (npn as int),
                            (p / (ns as int)) % (npn as int),
                            p % (ns as int),
                            npn as int,
                            w as int,
                            (npn * w) as nat,
                        ),
                    ),
                ),
            forall|p: int| node * ns <= p < n0.len() ==> #[trigger] state.nodes@[p] == n0[p],
            state.neuron_states == s0.neuron_states,
            state.inter_connections == s0.inter_connections,
            state.inter_connection_counters == s0.inter_connection_counters,
            state.intra_connections == s0.intra_connections,
            state.intra_connection_counters == s0.intra_connection_counters,
        decreases total - node,
    {
        let ne = node / npn;
        let x = node % npn;
        proof {
            vstd::arithmetic::div_mod::lemma_fundamental_div_mod(node as int, npn as int);
            assert(ne < n_neurons) by (nonlinear_arith)
                requires
                    node < n_neurons * npn,
                    node == npn * ne + x,
                    0 <= x,
                    npn > 0,
            ;
        }
        let mut j: usize = 0;
        while j < ns
            invariant
                s0.wf(*g_settings, *n_settings),
                n0 == s0.nodes@,
                c0 == s0.intra_connections@,
                ns == g_settings.node_size,
                npn == g_settings.n_nodes_per_neuron,
                w == g_settings.n_intraconnections_per_node,
                n_neurons == n_settings.n_neurons,
                total == total_nodes(*g_settings, *n_settings),
                slots_per_neuron == npn * w,
                n_neurons * (npn * w) == total * w,
                deltas_fit(deltas@, total * w, ns as int),
                0 <= node < total,
                ne == (node as int) / (npn as int),
                x == (node as int) % (npn as int),
                ne < n_neurons,
                0 <= j <= ns,
                state.nodes@.len() == n0.len(),
                forall|p: int|
                    0 <= p < node * ns + j ==> #[trigger] state.nodes@[p] == shifted(
                        n0[p],
                        envelope_of(
                            intra_contributions(
                                c0,
                                deltas@,
                                (p / (ns as int)) / (npn as int),
                                (p / (ns as int)) % (npn as int),
                                p % (ns as int),
                                npn as int,
                                w as int,
                                (npn * w) as nat,
                            ),
                        ),
                    ),
                forall|p: int| node * ns + j <= p < n0.len() ==> #[trigger] state.nodes@[p] == n0[p],
                state.neuron_states == s0.neuron_states,
                state.inter_connections == s0.inter_connections,
                state.inter_connection_counters == s0.inter_connection_counters,
                state.intra_connections == s0.intra_connections,
                state.intra_connection_counters == s0.intra_connection_counters,
            decreases ns - j,
        {
            let mut seen = false;
            let mut lo: i32 = 0;
            let mut hi: i32 = 0;
            let mut sl: usize = 0;
            while sl < slots_per_neuron
                invariant
                    s0.wf(*g_settings, *n_settings),
                    c0 == s0.intra_connections@,
                    state.intra_connections@ == c0,
                    ns == g_settings.node_size,
                    npn == g_settings.n_nodes_per_neuron,
                    w == g_settings.n_intraconnections_per_node,
                    total == total_nodes(*g_settings, *n_settings),
                    slots_per_neuron == npn * w,
                    n_neurons * (npn * w) == total * w,
                    deltas_fit(deltas@, total * w, ns as int),
                    ne < n_neurons,
                    0 <= j < ns,
                    0 <= sl <= slots_per_neuron,
                    tracks(
                        intra_contributions(c0, deltas@, ne as int, x as int, j as int, npn as int, w as int, sl as nat),
                        seen,
                        lo,
                        hi,
                    ),
                decreases slots_per_neuron - sl,
            {
                proof {
                    lemma_flat_index(ne as int, sl as int, (npn * w) as int, n_neurons as int);
                }
                let slot = ne * slots_per_neuron + sl;
                let ghost before = intra_contributions(c0, deltas@, ne as int, x as int, j as int, npn as int, w as int, sl as nat);
                let ghost mid = if sl / w == x {
                    before.push(deltas@[slot as int].delta_self@[j as int])
                } else {
                    before
                };
                if sl / w == x {
                    let r = extend_extremes(seen, lo, hi, deltas[slot].delta_self[j], Ghost(before));
                    seen = r.0;
                    lo = r.1;
                    hi = r.2;
                }
                if state.intra_connections[slot].index as usize == x {
                    let r = extend_extremes(seen, lo, hi, deltas[slot].delta_other[j], Ghost(mid));
                    seen = r.0;
                    lo = r.1;
                    hi = r.2;
                }
                sl = sl + 1;
            }
            let env = envelope_value(
                seen,
                lo,
                hi,
                Ghost(intra_contributions(c0, deltas@, ne as int, x as int, j as int, npn as int, w as int, (npn * w) as nat)),
            );
            proof {
                lemma_flat_index(node as int, j as int, ns as int, total as int);
            }
            let p = node * ns + j;
            let b = shift_byte(state.nodes[p], env);
            state.nodes.set(p, b);
            j = j + 1;
        }
        proof {
            assert(node * ns + ns == (node + 1) * ns) by (nonlinear_arith);
        }
        node = node + 1;
    }
    proof {
        assert(total * ns == n0.len());
    }
}

/// Tells whether the deltas hold `count` entries whose vectors are `len` long.
pub fn delta_pairs_fit(deltas: &Vec<DeltaPair>, count: usize, len: usize) -> (r: bool)
    ensures
        r == deltas_fit(deltas@, count as int, len as int),
{
    if deltas.len() != count {
        return false;
    }
    let mut x: usize = 0;
    while x < count
        invariant
            deltas@.len() == count,
            0 <= x <= count,
            forall|y: int|
                0 <= y < x ==> (#[trigger] deltas@[y]).delta_self@.len() == len && deltas@[y].delta_other@.len()
                    == len,
        decreases count - x,
    {
        if deltas[x].delta_self.len() != len || deltas[x].delta_other.len() != len {
            return false;
        }
        x = x + 1;
    }
    true
}

/// Tells whether the neuron-state deltas hold one entry per node with vectors
/// of the neuron-state and node sizes.
pub fn neuron_deltas_fit(deltas: &Vec<NeuronDelta>, count: usize, state_len: usize, node_len: usize) -> (r: bool)
    ensures
        r == (deltas@.len() == count && forall|x: int|
            0 <= x < count ==> (#[trigger] deltas@[x]).delta_neuron_state@.len() == state_len
                && deltas@[x].delta_node@.len() == node_len),
{
    if deltas.len() != count {
        return false;
    }
    let mut x: usize = 0;
    while x < count
        invariant
            deltas@.len() == count,
            0 <= x <= count,
            forall|y: int|
                0 <= y < x ==> (#[trigger] deltas@[y]).delta_neuron_state@.len() == state_len
                    && deltas@[y].delta_node@.len() == node_len,
        decreases count - x,
    {
        if deltas[x].delta_neuron_state.len() != state_len || deltas[x].delta_node.len() != node_len {
            return false;
        }
        x = x + 1;
    }
    true
}

} // verus!
