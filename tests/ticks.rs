use guardian::counter::NodeState;
use guardian::inter_plasticity::{self, ForcePair, InterEvaluation, PendingWork};
use guardian::intra_plasticity::{self, IntraEvaluation};
use guardian::propagation::{
    update_interconnected_nodes, update_intraconnected_nodes, update_neuron_states, DeltaPair, NeuronDelta,
};
use guardian::settings::{GuardianSettings, NetworkSettings};
use guardian::topology::State;
use rand::SeedableRng;

fn small_settings() -> (GuardianSettings, NetworkSettings) {
    let mut g = GuardianSettings::downlevel_default();
    g.node_size = 4;
    g.neuron_state_size = 4;
    g.n_nodes_per_neuron = 4;
    g.n_intraconnections_per_node = 2;
    g.n_interconnected_nodes_search = 1;
    g.n_interconnected_neuron_search = 1;
    g.n_intraconnected_nodes_search = 1;
    let mut n = NetworkSettings::downlevel_default();
    n.n_neurons = 4;
    (g, n)
}

fn node_bytes<'a>(s: &'a State, g: &GuardianSettings, node: usize) -> &'a [u8] {
    &s.nodes[node * g.node_size..(node + 1) * g.node_size]
}

fn score(a: &[u8], b: &[u8]) -> ForcePair {
    let sa: i32 = a.iter().map(|v| *v as i32).sum();
    let sb: i32 = b.iter().map(|v| *v as i32).sum();
    ForcePair { force_self: ((sa * 7 + sb) % 61 - 30) as i8, force_other: ((sb * 3 + sa) % 53 - 26) as i8 }
}

fn deltas(a: &[u8], b: &[u8]) -> DeltaPair {
    DeltaPair {
        delta_self: a.iter().zip(b).map(|(x, y)| (*x as i32 + *y as i32) % 7 - 3).collect(),
        delta_other: a.iter().zip(b).map(|(x, y)| (*x as i32 * 3 + *y as i32) % 5 - 2).collect(),
    }
}

fn tick(s: &mut State, g: &GuardianSettings, n: &NetworkSettings) {
    let total = n.n_neurons * g.n_nodes_per_neuron;
    let inter: Vec<DeltaPair> = (0..total)
        .map(|x| deltas(node_bytes(s, g, x), node_bytes(s, g, s.inter_connections[x].get_index())))
        .collect();
    update_interconnected_nodes(s, g, n, &inter);
    let intra: Vec<DeltaPair> = (0..s.intra_connections.len())
        .map(|slot| {
            let owner = slot / g.n_intraconnections_per_node;
            let neuron = owner / g.n_nodes_per_neuron;
            let target = neuron * g.n_nodes_per_neuron + s.intra_connections[slot].get_index();
            deltas(node_bytes(s, g, owner), node_bytes(s, g, target))
        })
        .collect();
    update_intraconnected_nodes(s, g, n, &intra);
    let neuron: Vec<NeuronDelta> = (0..total)
        .map(|x| {
            let d = deltas(node_bytes(s, g, x), node_bytes(s, g, x));
            NeuronDelta { delta_neuron_state: d.delta_other, delta_node: d.delta_self }
        })
        .collect();
    update_neuron_states(s, g, n, &neuron);
    let evaluations: Vec<InterEvaluation> = (0..total)
        .map(|x| {
            let own = node_bytes(s, g, x);
            let main = score(own, node_bytes(s, g, s.inter_connections[x].get_index()));
            let pending = match inter_plasticity::pending_work(s, g, n, x) {
                PendingWork::Search(area) => area.iter().map(|c| score(own, node_bytes(s, g, *c))).collect(),
                PendingWork::Connect(t) => vec![score(own, node_bytes(s, g, t))],
                PendingWork::Idle => vec![],
            };
            InterEvaluation { main, pending }
        })
        .collect();
    inter_plasticity::update_connections(s, g, n, &evaluations);
    for x in 0..total {
        let other = s.inter_connections[x].get_index();
        let mutual = s.inter_connections[other].get_index() == x;
        assert!(mutual || s.inter_connections[x].get_raw_force_values() == (-127, -127));
    }
    inter_plasticity::attempt_connection(s, g);
    for x in 0..total {
        if s.inter_connection_counters[x].get_state(g) == NodeState::AttemptingTakeover {
            let t = s.inter_connections[x].get_index();
            assert_eq!(t, s.inter_connections[x].get_pending_index());
            assert_eq!(s.inter_connections[t].get_index(), x);
        }
    }
    let slots: Vec<IntraEvaluation> = (0..s.intra_connections.len())
        .map(|slot| {
            let owner = slot / g.n_intraconnections_per_node;
            let base = (owner / g.n_nodes_per_neuron) * g.n_nodes_per_neuron;
            let own = node_bytes(s, g, owner);
            let main = score(own, node_bytes(s, g, base + s.intra_connections[slot].get_index()));
            let pending = match intra_plasticity::pending_work(s, g, n, slot) {
                PendingWork::Search(area) => area.iter().map(|c| score(own, node_bytes(s, g, base + *c))).collect(),
                PendingWork::Connect(t) => vec![score(own, node_bytes(s, g, base + t))],
                PendingWork::Idle => vec![],
            };
            IntraEvaluation { main, pending }
        })
        .collect();
    intra_plasticity::update(s, g, n, &slots);
}

fn run(seed: u64, ticks: usize) -> State {
    let (g, n) = small_settings();
    let mut rng = rand::rngs::StdRng::seed_from_u64(seed);
    let mut s = State::new(&g, &n);
    s.randomize(&g, &n, &mut rng);
    for _ in 0..ticks {
        tick(&mut s, &g, &n);
    }
    s
}

#[test]
fn fixed_seed_runs_are_byte_identical() {
    let a = run(1, 10);
    let b = run(1, 10);
    assert_eq!(a, b);
    assert_eq!(a.nodes.len(), 4 * 4 * 4);
    assert_eq!(a.neuron_states.len(), 4 * 4);
}

#[test]
fn randomize_draws_indices_in_range() {
    let (g, n) = small_settings();
    let mut rng = rand::rngs::StdRng::seed_from_u64(7);
    let mut s = State::new(&g, &n);
    let fresh = s.clone();
    s.randomize(&g, &n, &mut rng);
    assert_ne!(s, fresh);
    assert!(s.inter_connections.iter().all(|c| c.get_index() < 16 && c.get_pending_index() < 16));
    assert!(s.intra_connections.iter().all(|c| c.get_index() < 4 && c.get_pending_index() < 4));
    assert!(s.inter_connections.iter().any(|c| c.get_index() != 0));
    assert!(s.inter_connections.iter().all(|c| c.get_raw_force_values().0 >= 0));
    let mut rng = rand::rngs::StdRng::seed_from_u64(7);
    let mut t = State::new(&g, &n);
    t.randomize(&g, &n, &mut rng);
    assert_eq!(s, t);
}

#[test]
fn interconnected_pair_moves_both_nodes() {
    let (g, n) = small_settings();
    let mut s = State::new(&g, &n);
    s.inter_connections[0].store_index(5);
    s.inter_connections[5].store_index(0);
    let mut deltas: Vec<DeltaPair> =
        (0..16).map(|_| DeltaPair { delta_self: vec![0; 4], delta_other: vec![0; 4] }).collect();
    deltas[0] = DeltaPair { delta_self: vec![1, 2, 3, 4], delta_other: vec![10, 20, 30, 40] };
    deltas[5] = DeltaPair { delta_self: vec![9, 9, 9, 9], delta_other: vec![9, 9, 9, 9] };
    deltas[3] = DeltaPair { delta_self: vec![-5, 0, 5, 300], delta_other: vec![0, 0, 0, 0] };
    update_interconnected_nodes(&mut s, &g, &n, &deltas);
    assert_eq!(&s.nodes[0..4], &[2, 3, 4, 5]);
    assert_eq!(&s.nodes[20..24], &[11, 21, 31, 41]);
    assert_eq!(&s.nodes[12..16], &[0, 1, 6, 255]);
    assert_eq!(s.inter_connections[3].get_raw_force_values(), (-127, -127));
    assert_eq!(s.inter_connections[0].get_raw_force_values(), (0, 0));
}

#[test]
fn intraconnected_node_takes_the_envelope() {
    let (g, n) = small_settings();
    let mut s = State::new(&g, &n);
    for b in s.nodes.iter_mut() {
        *b = 100;
    }
    for slot in 0..s.intra_connections.len() {
        s.intra_connections[slot].store_index(3);
    }
    let mut deltas: Vec<DeltaPair> =
        (0..32).map(|_| DeltaPair { delta_self: vec![0; 4], delta_other: vec![0; 4] }).collect();
    // node 1 of neuron 0 receives -20, 5 and 30 through its own slots and a sibling's slot
    for slot in 0..8 {
        deltas[slot].delta_other = vec![0; 4];
    }
    s.intra_connections[0].store_index(1);
    deltas[0].delta_other = vec![-20, 0, 0, 0];
    deltas[2].delta_self = vec![5, 0, 0, 0];
    deltas[3].delta_self = vec![30, 0, 0, 0];
    update_intraconnected_nodes(&mut s, &g, &n, &deltas);
    assert_eq!(s.nodes[4], 110);
    assert_eq!(s.nodes[5], 100);
}

#[test]
fn neuron_state_takes_the_envelope_of_its_nodes() {
    let (g, n) = small_settings();
    let mut s = State::new(&g, &n);
    let mut deltas: Vec<NeuronDelta> =
        (0..16).map(|_| NeuronDelta { delta_neuron_state: vec![0; 4], delta_node: vec![0; 4] }).collect();
    deltas[4].delta_neuron_state = vec![-20, 1, 0, 0];
    deltas[5].delta_neuron_state = vec![5, 1, 0, 0];
    deltas[6].delta_neuron_state = vec![30, 1, 0, 0];
    deltas[7].delta_node = vec![3, 0, 0, 0];
    update_neuron_states(&mut s, &g, &n, &deltas);
    assert_eq!(s.neuron_states[4], 11);
    assert_eq!(s.neuron_states[5], 2);
    assert_eq!(s.neuron_states[0], 1);
    assert_eq!(s.nodes[7 * 4], 4);
}

#[test]
fn intra_takeover_commits_and_searches_again() {
    let (g, n) = small_settings();
    let mut s = State::new(&g, &n);
    s.intra_connections[0].store_pending_index(2);
    s.intra_connections[0].store_pending_forces(7, 8);
    s.intra_connection_counters[0].saturate();
    let slots: Vec<IntraEvaluation> = (0..s.intra_connections.len())
        .map(|slot| IntraEvaluation {
            main: ForcePair { force_self: 0, force_other: 0 },
            pending: match intra_plasticity::pending_work(&s, &g, &n, slot) {
                PendingWork::Search(area) => area.iter().map(|_| ForcePair { force_self: 0, force_other: 0 }).collect(),
                PendingWork::Connect(_) => vec![ForcePair { force_self: 0, force_other: 0 }],
                PendingWork::Idle => vec![],
            },
        })
        .collect();
    intra_plasticity::update(&mut s, &g, &n, &slots);
    assert_eq!(s.intra_connections[0].get_index(), 2);
    assert_eq!(s.intra_connections[0].get_raw_force_values(), (7, 8));
    assert_eq!(s.intra_connection_counters[0].get_value(), 0);
}

#[test]
fn intra_search_area_sweeps_both_ways() {
    let (g, _) = small_settings();
    let mut c = guardian::connection::IntraConnection::new();
    c.store_index(0);
    c.store_pending_index(3);
    assert_eq!(intra_plasticity::get_area_to_search(&c, &g), vec![3, 3]);
    let mut wide = g.clone();
    wide.n_intraconnected_nodes_search = 2;
    c.store_index(1);
    c.store_pending_index(2);
    assert_eq!(intra_plasticity::get_area_to_search(&c, &wide), vec![2, 3, 2, 0]);
}
