use guardian::connection::{InterConnection, IntraConnection, UNCONNECTED_FORCE, ZERO_FORCE, code_of_force, force_of_code};
use guardian::counter::{CounterInterConnection, CounterIntraConnection, NodeState, decode_state};
use guardian::inter_plasticity::{attempt_connection, get_area_to_search, update_connections, ForcePair, InterEvaluation};
use guardian::intra_plasticity::{opposite_index, resolve_conflicts};
use guardian::propagation::{envelope, shift_byte};
use guardian::settings::{GuardianSettings, ModelSettings, ModelSettingsError, NetworkSettings};
use guardian::topology::{node_global_to_local_index, node_local_to_global_index, wrap_index, State};

fn one_neuron() -> (GuardianSettings, NetworkSettings) {
    let g = GuardianSettings::downlevel_default();
    let mut n = NetworkSettings::downlevel_default();
    n.n_neurons = 1;
    (g, n)
}

#[test]
fn counter_walks_through_its_states() {
    let g = GuardianSettings::downlevel_default();
    assert_eq!(g.interconnection_max_connection_time, 8);
    let mut c = CounterInterConnection::new();
    assert_eq!(c.get_state(&g), NodeState::Searching);
    for _ in 0..7 {
        c.inc();
    }
    assert_eq!(c.get_value(), 7);
    assert_eq!(c.get_state(&g), NodeState::Connecting);
    c.inc();
    assert_eq!(c.get_state(&g), NodeState::Failed);
    c.saturate();
    assert_eq!(c.get_state(&g), NodeState::AttemptingTakeover);
    c.failed();
    assert_eq!(c.get_state(&g), NodeState::Failed);
    c.reset();
    assert_eq!(c.get_state(&g), NodeState::Searching);
}

#[test]
fn intra_counter_walks_through_its_states() {
    let g = GuardianSettings::downlevel_default();
    let mut c = CounterIntraConnection::new();
    for _ in 0..7 {
        c.inc();
    }
    assert_eq!(c.get_state(&g), NodeState::Connecting);
    c.inc();
    assert_eq!(c.get_state(&g), NodeState::Failed);
    c.reset();
    c.inc();
    c.saturate();
    assert_eq!(c.get_state(&g), NodeState::AttemptingTakeover);
}

#[test]
fn threshold_check_comes_before_exact_codes() {
    assert_eq!(decode_state(0xFE, 8), NodeState::Failed);
    assert_eq!(decode_state(0xFF, 8), NodeState::AttemptingTakeover);
    assert_eq!(decode_state(0x80, 0xFF), NodeState::Connecting);
    assert_eq!(decode_state(0x00, 0), NodeState::Failed);
}

#[test]
fn signed_force_codes_round_trip() {
    for code in 0u8..=255 {
        assert_eq!(code_of_force(force_of_code(code)), code);
    }
    assert_eq!(code_of_force(UNCONNECTED_FORCE), 1);
    assert_eq!(code_of_force(ZERO_FORCE), 128);
}

#[test]
fn wrap_index_wraps_both_ways() {
    assert_eq!(wrap_index(0, -1, 5), 4);
    assert_eq!(wrap_index(3, 4, 5), 2);
    assert_eq!(wrap_index(2, -12, 5), 0);
    assert_eq!(wrap_index(7, 0, 8), 7);
}

#[test]
fn global_and_local_indices_convert() {
    let g = GuardianSettings::downlevel_default();
    assert_eq!(node_global_to_local_index(13, &g), (1, 5));
    assert_eq!(node_local_to_global_index(1, 5, &g), 13);
    assert_eq!(node_global_to_local_index(0, &g), (0, 0));
}

#[test]
fn model_settings_reject_empty_lists() {
    assert_eq!(ModelSettings::new(vec![], vec![1], vec![1]).unwrap_err(), ModelSettingsError::EmptyInputSizes);
    assert_eq!(ModelSettings::new(vec![1], vec![], vec![1]).unwrap_err(), ModelSettingsError::EmptyHiddenSizes);
    assert_eq!(ModelSettings::new(vec![1], vec![2], vec![]).unwrap_err(), ModelSettingsError::EmptyOutputSizes);
    let s = ModelSettings::new(vec![4, 2], vec![8, 10], vec![2, 4]).unwrap();
    assert_eq!(s.input_sizes(), &vec![4, 2]);
    assert_eq!(s.hidden_sizes(), &vec![8, 10]);
    assert_eq!(s.output_sizes(), &vec![2, 4]);
}

#[test]
fn sizes_of_a_downlevel_network() {
    let g = GuardianSettings::downlevel_default();
    let n = NetworkSettings::downlevel_default();
    assert_eq!(g.bytes_per_neuron(), 128 + 32 + 97 + 256);
    assert_eq!(guardian::settings::get_network_size(&g, &n), 513 * 16);
}

#[test]
fn new_state_has_the_configured_shape() {
    let g = GuardianSettings::downlevel_default();
    let n = NetworkSettings::downlevel_default();
    let s = State::new(&g, &n);
    assert_eq!(s.nodes.len(), 16 * 8 * 16);
    assert!(s.nodes.iter().all(|b| *b == 1));
    assert_eq!(s.neuron_states.len(), 16 * 32);
    assert_eq!(s.inter_connections.len(), 128);
    assert_eq!(s.intra_connections.len(), 128 * 4);
    assert_eq!(s.inter_connections[5], InterConnection::new());
    assert_eq!(s.intra_connection_counters[9].get_value(), 0);
}

fn takeover(state: &mut State, node: usize, target: usize, offer: i8) {
    let c = &mut state.inter_connections[node];
    c.store_index(node);
    c.store_pending_index(target);
    c.store_pending_forces(5, offer);
    state.inter_connection_counters[node].saturate();
}

#[test]
fn strongest_offer_takes_the_slot() {
    let (g, n) = one_neuron();
    let mut s = State::new(&g, &n);
    takeover(&mut s, 1, 0, 10);
    takeover(&mut s, 2, 0, 30);
    takeover(&mut s, 3, 0, 20);
    attempt_connection(&mut s, &g);
    assert_eq!(s.inter_connections[2].get_index(), 0);
    assert_eq!(s.inter_connections[0].get_index(), 2);
    assert_eq!(s.inter_connections[0].get_raw_force_values(), (30, 5));
    assert_eq!(s.inter_connections[2].get_raw_force_values(), (5, 30));
    assert_eq!(s.inter_connection_counters[2].get_state(&g), NodeState::AttemptingTakeover);
    for loser in [1usize, 3] {
        assert_eq!(s.inter_connection_counters[loser].get_state(&g), NodeState::Searching);
        assert_eq!(s.inter_connections[loser].get_pending_index(), loser);
        assert_eq!(s.inter_connections[loser].get_raw_pending_force_values(), (UNCONNECTED_FORCE, UNCONNECTED_FORCE));
        assert_eq!(s.inter_connections[loser].get_index(), loser);
    }
}

#[test]
fn target_held_by_a_higher_index_is_not_taken() {
    let (g, n) = one_neuron();
    let mut s = State::new(&g, &n);
    s.inter_connections[0].store_index(7);
    takeover(&mut s, 2, 0, 30);
    attempt_connection(&mut s, &g);
    assert_eq!(s.inter_connections[0].get_index(), 7);
    assert_eq!(s.inter_connections[2].get_index(), 2);
    assert_eq!(s.inter_connection_counters[2].get_state(&g), NodeState::Searching);
}

#[test]
fn equal_offers_go_to_the_highest_index() {
    let (g, n) = one_neuron();
    let mut s = State::new(&g, &n);
    takeover(&mut s, 1, 0, 30);
    takeover(&mut s, 3, 0, 30);
    takeover(&mut s, 2, 0, 12);
    attempt_connection(&mut s, &g);
    assert_eq!(s.inter_connections[0].get_index(), 3);
    assert_eq!(s.inter_connections[3].get_index(), 0);
    assert_eq!(s.inter_connection_counters[1].get_state(&g), NodeState::Searching);
    assert_eq!(s.inter_connection_counters[2].get_state(&g), NodeState::Searching);
    assert_eq!(s.inter_connection_counters[3].get_state(&g), NodeState::AttemptingTakeover);
}

#[test]
fn two_takeovers_at_each_other_both_fail() {
    let (g, n) = one_neuron();
    let mut s = State::new(&g, &n);
    takeover(&mut s, 4, 5, 30);
    takeover(&mut s, 5, 4, 30);
    attempt_connection(&mut s, &g);
    assert_eq!(s.inter_connection_counters[4].get_state(&g), NodeState::Searching);
    assert_eq!(s.inter_connection_counters[5].get_state(&g), NodeState::Searching);
    assert_eq!(s.inter_connections[4].get_index(), 4);
    assert_eq!(s.inter_connections[5].get_index(), 5);
}

#[test]
fn search_area_skips_the_committed_partner() {
    let (mut g, n) = one_neuron();
    g.n_interconnected_nodes_search = 1;
    g.n_interconnected_neuron_search = 0;
    let mut s = State::new(&g, &n);
    s.inter_connections[3].store_index(2);
    s.inter_connections[3].store_pending_index(4);
    s.inter_connections[4].store_index(6);
    let area = get_area_to_search(&s.inter_connections, 3, &g, &n);
    assert_eq!(area, vec![3, 4, 5, 5, 6, 7]);
}

#[test]
fn strength_pass_breaks_one_sided_edges() {
    let (g, n) = one_neuron();
    let mut s = State::new(&g, &n);
    for i in 0..8 {
        s.inter_connections[i].store_index(i);
        s.inter_connections[i].store_pending_index(i);
        s.inter_connection_counters[i].saturate();
    }
    s.inter_connections[1].store_index(2);
    s.inter_connections[2].store_index(1);
    s.inter_connections[3].store_index(2);
    s.inter_connections[3].store_forces(40, 40);
    let evaluations: Vec<InterEvaluation> = (0..8)
        .map(|i| InterEvaluation { main: ForcePair { force_self: i as i8, force_other: 50 }, pending: vec![] })
        .collect();
    update_connections(&mut s, &g, &n, &evaluations);
    assert_eq!(s.inter_connections[3].get_raw_force_values(), (UNCONNECTED_FORCE, UNCONNECTED_FORCE));
    assert_eq!(s.inter_connections[1].get_raw_force_values(), (1, 50));
    assert_eq!(s.inter_connections[2].get_raw_force_values(), (50, 1));
    assert_eq!(s.inter_connections[3].get_index(), 2);
}

#[test]
fn searching_endpoint_moves_to_best_candidate() {
    let (mut g, n) = one_neuron();
    g.n_interconnected_nodes_search = 1;
    g.n_interconnected_neuron_search = 0;
    let mut s = State::new(&g, &n);
    for i in 0..8 {
        s.inter_connections[i].store_index(i);
        s.inter_connections[i].store_pending_index(i);
        s.inter_connection_counters[i].saturate();
    }
    s.inter_connection_counters[3].reset();
    s.inter_connections[3].store_pending_index(4);
    let area = get_area_to_search(&s.inter_connections, 3, &g, &n);
    assert_eq!(area, vec![4, 5, 4, 5]);
    let mut evaluations: Vec<InterEvaluation> = (0..8)
        .map(|_| InterEvaluation { main: ForcePair { force_self: 0, force_other: 0 }, pending: vec![] })
        .collect();
    evaluations[3].pending = vec![
        ForcePair { force_self: 1, force_other: 1 },
        ForcePair { force_self: 9, force_other: 2 },
        ForcePair { force_self: 3, force_other: 3 },
        ForcePair { force_self: 10, force_other: 1 },
    ];
    update_connections(&mut s, &g, &n, &evaluations);
    assert_eq!(s.inter_connections[3].get_pending_index(), 5);
    assert_eq!(s.inter_connections[3].get_raw_pending_force_values(), (ZERO_FORCE, ZERO_FORCE));
    assert_eq!(s.inter_connection_counters[3].get_state(&g), NodeState::Searching);
}

#[test]
fn equal_intra_proposals_keep_the_lower_slot() {
    let mut conns = vec![IntraConnection::new(); 2];
    let mut counters = vec![CounterIntraConnection::new(); 2];
    for i in 0..2 {
        conns[i].store_index(1);
        conns[i].store_pending_index(2);
        conns[i].store_pending_forces(10, 20);
        counters[i].inc();
    }
    resolve_conflicts(&mut conns, &mut counters, 0, 2, 8, 8);
    assert_eq!(conns[0].get_pending_index(), 2);
    assert_eq!(conns[0].get_raw_pending_force_values(), (10, 20));
    assert_eq!(counters[0].get_value(), 1);
    assert_eq!(conns[1].get_pending_index(), 6);
    assert_eq!(conns[1].get_raw_pending_force_values(), (UNCONNECTED_FORCE, UNCONNECTED_FORCE));
    assert_eq!(counters[1].get_value(), 0);
}

#[test]
fn stronger_intra_proposal_wins_from_higher_slot() {
    let mut conns = vec![IntraConnection::new(); 3];
    let mut counters = vec![CounterIntraConnection::new(); 3];
    for i in 0..3 {
        conns[i].store_pending_index(5);
        counters[i].inc();
    }
    conns[0].store_pending_forces(1, 1);
    conns[1].store_pending_forces(1, 2);
    counters[2].reset();
    resolve_conflicts(&mut conns, &mut counters, 0, 3, 8, 8);
    assert_eq!(conns[0].get_pending_index(), 1);
    assert_eq!(conns[1].get_pending_index(), 5);
    assert_eq!(conns[2].get_pending_index(), 5);
}

#[test]
fn opposite_index_crosses_the_ring() {
    assert_eq!(opposite_index(2, 8), 6);
    assert_eq!(opposite_index(7, 8), 3);
    assert_eq!(opposite_index(0, 1), 0);
}

#[test]
fn envelope_is_max_plus_min_not_sum() {
    assert_eq!(envelope(&vec![-20, 5, 30]), 10);
    assert_eq!(envelope(&vec![]), 0);
    assert_eq!(envelope(&vec![7]), 14);
    assert_eq!(envelope(&vec![3, 9]), 12);
}

#[test]
fn shifted_bytes_saturate() {
    assert_eq!(shift_byte(250, 10), 255);
    assert_eq!(shift_byte(3, -5), 0);
    assert_eq!(shift_byte(100, 26), 126);
}

#[test]
fn displaced_partner_is_healed_by_the_next_strength_pass() {
    let (g, n) = one_neuron();
    let mut s = State::new(&g, &n);
    for i in 0..8 {
        s.inter_connections[i].store_index(i);
        s.inter_connections[i].store_pending_index(i);
        s.inter_connection_counters[i].saturate();
    }
    s.inter_connections[0].store_index(1);
    s.inter_connections[1].store_index(0);
    s.inter_connections[0].store_forces(10, 10);
    s.inter_connections[1].store_forces(10, 10);
    s.inter_connection_counters[0].reset();
    s.inter_connection_counters[1].reset();
    s.inter_connections[0].store_pending_index(1);
    s.inter_connections[1].store_pending_index(0);
    for i in 3..8 {
        s.inter_connection_counters[i].reset();
    }
    takeover(&mut s, 2, 1, 40);
    attempt_connection(&mut s, &g);
    assert_eq!(s.inter_connections[1].get_index(), 2);
    assert_eq!(s.inter_connections[2].get_index(), 1);
    assert_eq!(s.inter_connections[0].get_index(), 1);
    assert_eq!(s.inter_connections[0].get_raw_force_values(), (10, 10));
    let evaluations: Vec<InterEvaluation> = (0..8)
        .map(|i| {
            let pending = match guardian::inter_plasticity::pending_work(&s, &g, &n, i) {
                guardian::inter_plasticity::PendingWork::Search(area) => {
                    area.iter().map(|_| ForcePair { force_self: 0, force_other: 0 }).collect()
                }
                guardian::inter_plasticity::PendingWork::Connect(_) => vec![ForcePair { force_self: 0, force_other: 0 }],
                guardian::inter_plasticity::PendingWork::Idle => vec![],
            };
            InterEvaluation { main: ForcePair { force_self: 20, force_other: 21 }, pending }
        })
        .collect();
    assert!(guardian::inter_plasticity::evaluations_fit(&s, &g, &n, &evaluations));
    update_connections(&mut s, &g, &n, &evaluations);
    assert_eq!(s.inter_connections[0].get_raw_force_values(), (UNCONNECTED_FORCE, UNCONNECTED_FORCE));
    assert_eq!(s.inter_connections[1].get_raw_force_values(), (20, 21));
    assert_eq!(s.inter_connections[2].get_raw_force_values(), (21, 20));
}

#[test]
fn shape_checks_accept_and_refuse() {
    let (g, n) = one_neuron();
    let mut s = State::new(&g, &n);
    assert!(guardian::topology::settings_fit(&g, &n));
    assert!(s.fits(&g, &n));
    s.inter_connections[2].store_index(8);
    assert!(!s.fits(&g, &n));
    let mut bad = n;
    bad.n_neurons = 0;
    assert!(!guardian::topology::settings_fit(&g, &bad));
    let ok = vec![guardian::propagation::DeltaPair { delta_self: vec![0; 3], delta_other: vec![0; 3] }; 2];
    assert!(guardian::propagation::delta_pairs_fit(&ok, 2, 3));
    assert!(!guardian::propagation::delta_pairs_fit(&ok, 2, 4));
    assert!(!guardian::propagation::delta_pairs_fit(&ok, 3, 3));
    let s = State::new(&g, &n);
    let short: Vec<InterEvaluation> = vec![];
    assert!(!guardian::inter_plasticity::evaluations_fit(&s, &g, &n, &short));
}

#[test]
fn connection_check_reads_the_committed_partner() {
    let mut c = InterConnection::new();
    c.store_index(4);
    c.store_pending_index(6);
    assert!(guardian::inter_plasticity::check_is_connected(4, &c));
    assert!(!guardian::inter_plasticity::check_is_connected(6, &c));
}

#[test]
fn record_transitions_move_and_reset() {
    let mut c = InterConnection::new();
    c.store_pending_index(3);
    c.store_pending_forces(4, 5);
    c.move_pending_to_main();
    assert_eq!(c.get_index(), 3);
    assert_eq!(c.get_raw_force_values(), (4, 5));
    assert_eq!(c.get_net_force(), 9);
    c.add_maximum_force_self(2);
    assert_eq!(c.get_raw_force_values(), (4, 5));
    c.add_maximum_force_self(7);
    assert_eq!(c.get_raw_force_values(), (7, 5));
    c.add_maximum_index(2);
    assert_eq!(c.get_index(), 3);
    c.reset_main();
    assert_eq!(c.get_raw_force_values(), (UNCONNECTED_FORCE, UNCONNECTED_FORCE));
    c.reset_pending();
    assert_eq!(c.get_pending_index(), 3);
    assert_eq!(c.get_net_pending_force(), -254);
    let mut d = IntraConnection::new();
    d.store_pending_index(2);
    d.store_pending_forces(1, 1);
    d.move_pending_to_main();
    assert_eq!(d.get_index(), 2);
    assert_eq!(d.get_raw_force_values(), (1, 1));
    assert_eq!(d.get_raw_pending_force_values(), (UNCONNECTED_FORCE, UNCONNECTED_FORCE));
}

#[test]
fn largest_indices_fit_their_fields() {
    let mut c = InterConnection::new();
    c.store_index(u32::MAX as usize);
    c.store_pending_index(u32::MAX as usize);
    assert_eq!(c.get_index(), u32::MAX as usize);
    assert_eq!(c.get_pending_index(), u32::MAX as usize);
    let mut d = IntraConnection::new();
    d.store_index(u16::MAX as usize);
    assert_eq!(d.get_index(), u16::MAX as usize);
    assert_eq!(code_of_force(127), 255);
    assert_eq!(code_of_force(-128), 0);
}
