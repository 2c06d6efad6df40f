use vstd::prelude::*;
use crate::connection::{InterConnection, IntraConnection};
use crate::counter::{CounterInterConnection, CounterIntraConnection};
use crate::settings::{GuardianSettings, NetworkSettings};

verus! {

/// All mutable simulation state, in dense arrays addressed by coordinates.
///
/// `nodes` holds `node_size` bytes per node, nodes in global order;
/// `neuron_states` holds `neuron_state_size` bytes per neuron;
/// `inter_connections` and their counters hold one record per node;
/// `intra_connections` and their counters hold `n_intraconnections_per_node`
/// records per node, slots of a node side by side.
#[derive(Debug, Clone, PartialEq, Eq)]
pub struct State {
    pub nodes: Vec<u8>,
    pub neuron_states: Vec<u8>,
    pub inter_connections: Vec<InterConnection>,
    pub intra_connections: Vec<IntraConnection>,
    pub intra_connection_counters: Vec<CounterIntraConnection>,
    pub inter_connection_counters: Vec<CounterInterConnection>,
}

#[verifier::external_type_specification]
#[verifier::external_body]
pub struct ExStdRng(rand::rngs::StdRng);

/// Relies on rand's `Uniform::from(0..bound)` sampled with `Distribution::sample`:
/// the value lies in `0..bound`. The range must not be empty.
#[verifier::external_body]
fn sample_below(rng: &mut rand::rngs::StdRng, bound: usize) -> (r: usize)
    requires
        bound > 0,
    ensures
        r < bound,
{
    rand::distributions::Distribution::sample(&rand::distributions::Uniform::from(0..bound), rng)
}

/// Relies on rand's `Uniform::from(0..=255)` sampled with `Distribution::sample`: any byte.
#[verifier::external_body]
fn sample_byte(rng: &mut rand::rngs::StdRng) -> u8 {
    rand::distributions::Distribution::sample(&rand::distributions::Uniform::from(0u8..=255u8), rng)
}

/// Number of nodes in the whole population.
pub open spec fn total_nodes(g: GuardianSettings, n: NetworkSettings) -> int {
    n.n_neurons * g.n_nodes_per_neuron
}

/// Settings whose arrays can be allocated and addressed: at least one node,
/// global indices that fit 32 bits, local indices that fit 16 bits, array
/// lengths that fit `usize`, search radii that fit 16 bits and search areas
/// whose length fits `usize`.
pub open spec fn shape_ok(g: GuardianSettings, n: NetworkSettings) -> bool {
    &&& n.n_neurons > 0
    &&& g.n_nodes_per_neuron > 0
    &&& g.n_nodes_per_neuron <= u16::MAX
    &&& total_nodes(g, n) <= u32::MAX
    &&& total_nodes(g, n) * g.node_size <= usize::MAX
    &&& n.n_neurons * g.neuron_state_size <= usize::MAX
    &&& total_nodes(g, n) * g.n_intraconnections_per_node <= usize::MAX
    &&& g.n_interconnected_nodes_search <= u16::MAX
    &&& g.n_interconnected_neuron_search <= u16::MAX
    &&& g.n_intraconnected_nodes_search <= u16::MAX
    &&& 4 * (2 * g.n_interconnected_neuron_search + 1) * (2 * g.n_interconnected_nodes_search + 1)
        <= usize::MAX
}

/// Tells whether the settings describe arrays that can be allocated and addressed.
pub fn settings_fit(g_settings: &GuardianSettings, n_settings: &NetworkSettings) -> (r: bool)
    ensures
        r == shape_ok(*g_settings, *n_settings),
{
    proof {
        assert(n_settings.n_neurons * g_settings.n_nodes_per_neuron <= 0xFFFF_FFFF_FFFF_FFFF
            * 0xFFFF_FFFF_FFFF_FFFF) by (nonlinear_arith)
            requires
                n_settings.n_neurons <= 0xFFFF_FFFF_FFFF_FFFF,
                g_settings.n_nodes_per_neuron <= 0xFFFF_FFFF_FFFF_FFFF,
        ;
    }
    let total = n_settings.n_neurons as u128 * g_settings.n_nodes_per_neuron as u128;
    let rn = g_settings.n_interconnected_neuron_search as u128;
    let rd = g_settings.n_interconnected_nodes_search as u128;
    if n_settings.n_neurons == 0 || g_settings.n_nodes_per_neuron == 0 {
        return false;
    }
    if g_settings.n_nodes_per_neuron > 0xFFFF || total > 0xFFFF_FFFF {
        return false;
    }
    if rn > 0xFFFF || rd > 0xFFFF || g_settings.n_intraconnected_nodes_search > 0xFFFF {
        return false;
    }
    proof {
        assert(total * g_settings.node_size <= 0xFFFF_FFFF * 0xFFFF_FFFF_FFFF_FFFF) by (nonlinear_arith)
            requires
                total <= 0xFFFF_FFFF,
                g_settings.node_size <= 0xFFFF_FFFF_FFFF_FFFF,
        ;
        assert(total * g_settings.n_intraconnections_per_node <= 0xFFFF_FFFF * 0xFFFF_FFFF_FFFF_FFFF) by (nonlinear_arith)
            requires
                total <= 0xFFFF_FFFF,
                g_settings.n_intraconnections_per_node <= 0xFFFF_FFFF_FFFF_FFFF,
        ;
        assert(n_settings.n_neurons * g_settings.neuron_state_size <= 0xFFFF_FFFF_FFFF_FFFF * 0xFFFF_FFFF_FFFF_FFFF) by (nonlinear_arith)
            requires
                n_settings.n_neurons <= 0xFFFF_FFFF_FFFF_FFFF,
                g_settings.neuron_state_size <= 0xFFFF_FFFF_FFFF_FFFF,
        ;
        assert(4 * (2 * rn + 1) * (2 * rd + 1) <= 4 * 0x20001 * 0x20001) by (nonlinear_arith)
            requires
                rn <= 0xFFFF,
                rd <= 0xFFFF,
        ;
    }
    let node_bytes = total * g_settings.node_size as u128;
    let intra = total * g_settings.n_intraconnections_per_node as u128;
    let state_bytes = n_settings.n_neurons as u128 * g_settings.neuron_state_size as u128;
    let area = 4 * (2 * rn + 1) * (2 * rd + 1);
    node_bytes <= usize::MAX as u128 && intra <= usize::MAX as u128 && state_bytes <= usize::MAX as u128
        && area <= usize::MAX as u128
}

/// `(local + offset)` wrapped into `0..max`.
pub open spec fn wrapped(local: int, offset: int, max: int) -> int {
    (local + offset) % max
}

/// Moves `offset` steps from `local_index` on a ring of `max_index` places.
pub fn wrap_index(local_index: usize, offset: isize, max_index: usize) -> (r: usize)
    requires
        max_index > 0,
    ensures
        r == wrapped(local_index as int, offset as int, max_index as int),
        r < max_index,
{
    wrap_wide(local_index as i128 + offset as i128, max_index)
}

/// `s` wrapped into `0..max`.
pub(crate) fn wrap_wide(s: i128, max_index: usize) -> (r: usize)
    requires
        max_index > 0,
        -0x1_0000_0000_0000_0000_0000 <= s <= 0x1_0000_0000_0000_0000_0000,
    ensures
        r == (s as int) % (max_index as int),
        r < max_index,
{
    let m = max_index as i128;
    if s >= 0 {
        ((s as u128) % (m as u128)) as usize
    } else {
        let q = ((-s) as u128) % (m as u128);
        proof {
            let d = (-s) / (m as int);
            vstd::arithmetic::div_mod::lemma_fundamental_div_mod(-s as int, m as int);
            if q == 0 {
                assert(s == (-d) * m + 0) by (nonlinear_arith)
                    requires
                        -s == m * d + q,
                        q == 0,
                ;
                vstd::arithmetic::div_mod::lemma_fundamental_div_mod_converse(s as int, m as int, -d, 0);
            } else {
                assert(s == (-d - 1) * m + (m - q)) by (nonlinear_arith)
                    requires
                        -s == m * d + q,
                ;
                vstd::arithmetic::div_mod::lemma_fundamental_div_mod_converse(s as int, m as int, -d - 1, m - q);
            }
        }
        if q == 0 {
            0
        } else {
            (m as u128 - q) as usize
        }
    }
}

/// Splits a global node index into its neuron and its local index.
pub fn node_global_to_local_index(node_global_index: usize, g_settings: &GuardianSettings) -> (r: (
    usize,
    usize,
))
    requires
        g_settings.n_nodes_per_neuron > 0,
    ensures
        r.0 == node_global_index / g_settings.n_nodes_per_neuron,
        r.1 == node_global_index % g_settings.n_nodes_per_neuron,
        r.0 * g_settings.n_nodes_per_neuron + r.1 == node_global_index,
{
    let npn = g_settings.n_nodes_per_neuron;
    let neuron_index = node_global_index / npn;
    proof {
        vstd::arithmetic::div_mod::lemma_fundamental_div_mod(node_global_index as int, npn as int);
        assert(neuron_index * npn == npn * neuron_index) by (nonlinear_arith);
    }
    let node_local_index = node_global_index - neuron_index * npn;
    (neuron_index, node_local_index)
}

/// Joins a neuron and a local index into a global node index.
pub fn node_local_to_global_index(
    neuron_index: usize,
    node_local_index: usize,
    g_settings: &GuardianSettings,
) -> (r: usize)
    requires
        neuron_index * g_settings.n_nodes_per_neuron + node_local_index <= usize::MAX,
    ensures
        r == neuron_index * g_settings.n_nodes_per_neuron + node_local_index,
{
    proof {
        assert(neuron_index * g_settings.n_nodes_per_neuron <= neuron_index
            * g_settings.n_nodes_per_neuron + node_local_index);
    }
    neuron_index * g_settings.n_nodes_per_neuron + node_local_index
}

impl State {
    /// Arrays of the sizes the settings give, with committed and pending
    /// indices in range.
    pub open spec fn wf(&self, g: GuardianSettings, n: NetworkSettings) -> bool {
        &&& shape_ok(g, n)
        &&& self.nodes@.len() == total_nodes(g, n) * g.node_size
        &&& self.neuron_states@.len() == n.n_neurons * g.neuron_state_size
        &&& self.inter_connections@.len() == total_nodes(g, n)
        &&& self.inter_connection_counters@.len() == total_nodes(g, n)
        &&& self.intra_connections@.len() == total_nodes(g, n) * g.n_intraconnections_per_node
        &&& self.intra_connection_counters@.len() == self.intra_connections@.len()
        &&& forall|j: int|
            0 <= j < self.inter_connections@.len() ==> (#[trigger] self.inter_connections@[j]).index
                < total_nodes(g, n) && self.inter_connections@[j].pending_index < total_nodes(g, n)
        &&& forall|j: int|
            0 <= j < self.intra_connections@.len() ==> (#[trigger] self.intra_connections@[j]).index
                < g.n_nodes_per_neuron && self.intra_connections@[j].pending_index
                < g.n_nodes_per_neuron
    }

    /// A fresh population: every node and neuron-state byte is 1, every
    /// connection points at index 0 with zero forces, every counter searches.
    pub fn new(g_settings: &GuardianSettings, n_settings: &NetworkSettings) -> (r: Self)
        requires
            shape_ok(*g_settings, *n_settings),
        ensures
            r.wf(*g_settings, *n_settings),
            forall|j: int| 0 <= j < r.nodes@.len() ==> #[trigger] r.nodes@[j] == 1,
            forall|j: int| 0 <= j < r.neuron_states@.len() ==> #[trigger] r.neuron_states@[j] == 1,
            forall|j: int|
                0 <= j < r.inter_connections@.len() ==> #[trigger] r.inter_connections@[j]
                    == InterConnection::spec_new(),
            forall|j: int|
                0 <= j < r.intra_connections@.len() ==> #[trigger] r.intra_connections@[j]
                    == IntraConnection::spec_new(),
            forall|j: int|
                0 <= j < r.inter_connection_counters@.len() ==> (
                #[trigger] r.inter_connection_counters@[j]).0 == 0,
            forall|j: int|
                0 <= j < r.intra_connection_counters@.len() ==> (
                #[trigger] r.intra_connection_counters@[j]).0 == 0,
    {
        let n_total = n_settings.n_neurons * g_settings.n_nodes_per_neuron;
        let n_node_bytes = n_total * g_settings.node_size;
        let n_state_bytes = n_settings.n_neurons * g_settings.neuron_state_size;
        let n_intra = n_total * g_settings.n_intraconnections_per_node;
        let nodes = fill_bytes(n_node_bytes, 1);
        let neuron_states = fill_bytes(n_state_bytes, 1);
        let mut inter_connections: Vec<InterConnection> = Vec::new();
        let mut inter_connection_counters: Vec<CounterInterConnection> = Vec::new();
        while inter_connections.len() < n_total
            invariant
                inter_connections@.len() == inter_connection_counters@.len(),
                inter_connections@.len() <= n_total,
                forall|j: int|
                    0 <= j < inter_connections@.len() ==> #[trigger] inter_connections@[j]
                        == InterConnection::spec_new(),
                forall|j: int|
                    0 <= j < inter_connection_counters@.len() ==> (
                    #[trigger] inter_connection_counters@[j]).0 == 0,
            decreases n_total - inter_connections@.len(),
        {
            inter_connections.push(InterConnection::new());
            inter_connection_counters.push(CounterInterConnection::new());
        }
        let mut intra_connections: Vec<IntraConnection> = Vec::new();
        let mut intra_connection_counters: Vec<CounterIntraConnection> = Vec::new();
        while intra_connections.len() < n_intra
            invariant
                intra_connections@.len() == intra_connection_counters@.len(),
                intra_connections@.len() <= n_intra,
                forall|j: int|
                    0 <= j < intra_connections@.len() ==> #[trigger] intra_connections@[j]
                        == IntraConnection::spec_new(),
                forall|j: int|
                    0 <= j < intra_connection_counters@.len() ==> (
                    #[trigger] intra_connection_counters@[j]).0 == 0,
            decreases n_intra - intra_connections@.len(),
        {
            intra_connections.push(IntraConnection::new());
            intra_connection_counters.push(CounterIntraConnection::new());
        }
        State {
            nodes,
            neuron_states,
            inter_connections,
            intra_connections,
            intra_connection_counters,
            inter_connection_counters,
        }
    }
}

/// Every force of the record lies in the non-negative half of the range.
pub open spec fn forces_non_negative_inter(c: InterConnection) -> bool {
    c.force_self >= 0 && c.force_other >= 0 && c.pending_force_self >= 0 && c.pending_force_other >= 0
}

/// Every force of the record lies in the non-negative half of the range.
pub open spec fn forces_non_negative_intra(c: IntraConnection) -> bool {
    c.force_self >= 0 && c.force_other >= 0 && c.pending_force_self >= 0 && c.pending_force_other >= 0
}

fn random_bytes(bytes: &mut Vec<u8>, rng: &mut rand::rngs::StdRng)
    ensures
        final(bytes)@.len() == old(bytes)@.len(),
{
    let mut i: usize = 0;
    while i < bytes.len()
        invariant
            bytes@.len() == old(bytes)@.len(),
        decreases bytes@.len() - i,
    {
        let b = sample_byte(rng);
        bytes.set(i, b);
        i = i + 1;
    }
}

/// A packed force drawn from the non-negative half of the range.
fn random_force(rng: &mut rand::rngs::StdRng) -> (r: i8)
    ensures
        r >= 0,
{
    sample_below(rng, 128) as i8
}

impl State {
    /// Fills every node byte, neuron-state byte, connection index and force
    /// with values drawn from `rng`: bytes over their whole range, committed and
    /// pending partners among the valid indices, forces in the non-negative half.
    /// Counters are left as they are.
    pub fn randomize(
        &mut self,
        g_settings: &GuardianSettings,
        n_settings: &NetworkSettings,
        rng: &mut rand::rngs::StdRng,
    )
        requires
            old(self).wf(*g_settings, *n_settings),
        ensures
            final(self).wf(*g_settings, *n_settings),
            final(self).inter_connection_counters == old(self).inter_connection_counters,
            final(self).intra_connection_counters == old(self).intra_connection_counters,
            forall|j: int|
                0 <= j < final(self).inter_connections@.len() ==> forces_non_negative_inter(
                    #[trigger] final(self).inter_connections@[j],
                ),
            forall|j: int|
                0 <= j < final(self).intra_connections@.len() ==> forces_non_negative_intra(
                    #[trigger] final(self).intra_connections@[j],
                ),
    {
        random_bytes(&mut self.nodes, rng);
        random_bytes(&mut self.neuron_states, rng);
        let n_total = n_settings.n_neurons * g_settings.n_nodes_per_neuron;
        let npn = g_settings.n_nodes_per_neuron;
        let ghost s0 = *self;
        let mut i: usize = 0;
        while i < self.inter_connections.len()
            invariant
                s0.wf(*g_settings, *n_settings),
                n_total == total_nodes(*g_settings, *n_settings),
                self.inter_connections@.len() == n_total,
                self.nodes@.len() == s0.nodes@.len(),
                self.neuron_states@.len() == s0.neuron_states@.len(),
                self.intra_connections == s0.intra_connections,
                self.inter_connection_counters == s0.inter_connection_counters,
                self.intra_connection_counters == s0.intra_connection_counters,
                forall|j: int|
                    0 <= j < self.inter_connections@.len() ==> (#[trigger] self.inter_connections@[j]).index
                        < n_total && self.inter_connections@[j].pending_index < n_total,
                forall|j: int| 0 <= j < i ==> forces_non_negative_inter(#[trigger] self.inter_connections@[j]),
            decreases self.inter_connections@.len() - i,
        {
            let mut c = self.inter_connections[i];
            c.store_index(sample_below(rng, n_total));
            c.store_pending_index(sample_below(rng, n_total));
            let force_self = random_force(rng);
            let force_other = random_force(rng);
            c.store_forces(force_self, force_other);
            let pending_force_self = random_force(rng);
            let pending_force_other = random_force(rng);
            c.store_pending_forces(pending_force_self, pending_force_other);
            self.inter_connections.set(i, c);
            i = i + 1;
        }
        let mut i: usize = 0;
        while i < self.intra_connections.len()
            invariant
                s0.wf(*g_settings, *n_settings),
                n_total == total_nodes(*g_settings, *n_settings),
                npn == g_settings.n_nodes_per_neuron,
                self.inter_connections@.len() == n_total,
                self.intra_connections@.len() == s0.intra_connections@.len(),
                self.nodes@.len() == s0.nodes@.len(),
                self.neuron_states@.len() == s0.neuron_states@.len(),
                self.inter_connection_counters == s0.inter_connection_counters,
                self.intra_connection_counters == s0.intra_connection_counters,
                forall|j: int|
                    0 <= j < self.inter_connections@.len() ==> (#[trigger] self.inter_connections@[j]).index
                        < n_total && self.inter_connections@[j].pending_index < n_total,
                forall|j: int|
                    0 <= j < self.inter_connections@.len() ==> forces_non_negative_inter(
                        #[trigger] self.inter_connections@[j],
                    ),
                forall|j: int| 0 <= j < i ==> forces_non_negative_intra(#[trigger] self.intra_connections@[j]),
                forall|j: int|
                    0 <= j < self.intra_connections@.len() ==> (#[trigger] self.intra_connections@[j]).index
                        < npn && self.intra_connections@[j].pending_index < npn,
            decreases self.intra_connections@.len() - i,
        {
            let mut c = self.intra_connections[i];
            c.store_index(sample_below(rng, npn));
            c.store_pending_index(sample_below(rng, npn));
            let force_self = random_force(rng);
            let force_other = random_force(rng);
            c.store_forces(force_self, force_other);
            let pending_force_self = random_force(rng);
            let pending_force_other = random_force(rng);
            c.store_pending_forces(pending_force_self, pending_force_other);
            self.intra_connections.set(i, c);
            i = i + 1;
        }
    }
}

impl State {
    /// Tells whether the arrays have the sizes the settings give and every
    /// index is in range.
    pub fn fits(&self, g_settings: &GuardianSettings, n_settings: &NetworkSettings) -> (r: bool)
        ensures
            r == self.wf(*g_settings, *n_settings),
    {
        if !settings_fit(g_settings, n_settings) {
            return false;
        }
        let total = n_settings.n_neurons * g_settings.n_nodes_per_neuron;
        proof {
            assert(total * g_settings.node_size <= usize::MAX);
        }
        if self.nodes.len() != total * g_settings.node_size
            || self.neuron_states.len() != n_settings.n_neurons * g_settings.neuron_state_size
            || self.inter_connections.len() != total || self.inter_connection_counters.len() != total
            || self.intra_connections.len() != total * g_settings.n_intraconnections_per_node
            || self.intra_connection_counters.len() != self.intra_connections.len() {
            return false;
        }
        let mut i: usize = 0;
        while i < total
            invariant
                total == total_nodes(*g_settings, *n_settings),
                self.inter_connections@.len() == total,
                0 <= i <= total,
                forall|j: int|
                    0 <= j < i ==> (#[trigger] self.inter_connections@[j]).index < total
                        && self.inter_connections@[j].pending_index < total,
            decreases total - i,
        {
            let c = self.inter_connections[i];
            if c.index as usize >= total || c.pending_index as usize >= total {
                return false;
            }
            i = i + 1;
        }
        let npn = g_settings.n_nodes_per_neuron;
        let mut i: usize = 0;
        while i < self.intra_connections.len()
            invariant
                npn == g_settings.n_nodes_per_neuron,
                0 <= i <= self.intra_connections@.len(),
                forall|j: int|
                    0 <= j < i ==> (#[trigger] self.intra_connections@[j]).index < npn
                        && self.intra_connections@[j].pending_index < npn,
            decreases self.intra_connections@.len() - i,
        {
            let c = self.intra_connections[i];
            if c.index as usize >= npn || c.pending_index as usize >= npn {
                return false;
            }
            i = i + 1;
        }
        true
    }
}

fn fill_bytes(len: usize, value: u8) -> (r: Vec<u8>)
    ensures
        r@.len() == len,
        forall|j: int| 0 <= j < len ==> #[trigger] r@[j] == value,
{
    let mut v: Vec<u8> = Vec::new();
    while v.len() < len
        invariant
            v@.len() <= len,
            forall|j: int| 0 <= j < v@.len() ==> #[trigger] v@[j] == value,
        decreases len - v@.len(),
    {
        v.push(value);
    }
    v
}

} // verus!
