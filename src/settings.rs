use vstd::prelude::*;

verus! {

/// Geometry and timing of every neuron. Any change of a size makes a network
/// incompatible with genomes made for other sizes.
#[derive(Debug, Clone)]
pub struct GuardianSettings {
    pub node_size: usize,
    pub neuron_state_size: usize,
    pub n_nodes_per_neuron: usize,
    pub n_intraconnections_per_node: usize,
    /// Node offsets searched on each side of a start point, across neurons.
    pub n_interconnected_nodes_search: usize,
    /// Neuron offsets searched on each side of a start point.
    pub n_interconnected_neuron_search: usize,
    /// Nodes searched in each direction inside a neuron.
    pub n_intraconnected_nodes_search: usize,
    pub interconnection_max_connection_time: usize,
    pub intraconnection_max_connection_time: usize,
    pub hidden_sizes: Vec<usize>,
}

/// Size of the population and its ports.
#[derive(Debug, Clone, Copy, PartialEq, Eq, Structural)]
pub struct NetworkSettings {
    pub n_neurons: usize,
    pub n_io_ports: usize,
    pub n_network_ports: usize,
    pub neurons_per_network_connection: usize,
}

/// Bytes taken by one interconnection record: two 32-bit indices and four force bytes.
pub const INTER_CONNECTION_BYTES: usize = 12;

/// Bytes taken by one intraconnection record: two 16-bit indices and four force bytes.
pub const INTRA_CONNECTION_BYTES: usize = 8;

/// Number of bytes that one neuron takes in memory, counters included.
pub open spec fn spec_bytes_per_neuron(g: GuardianSettings) -> int {
    g.node_size * g.n_nodes_per_neuron + g.neuron_state_size + (INTER_CONNECTION_BYTES
        * g.n_nodes_per_neuron + 1) + INTRA_CONNECTION_BYTES * (g.n_nodes_per_neuron
        * g.n_intraconnections_per_node)
}

impl Default for NetworkSettings {
    fn default() -> (r: Self)
        ensures
            r.n_neurons == 64,
            r.n_io_ports == 0,
            r.n_network_ports == 0,
            r.neurons_per_network_connection == 16,
    {
        NetworkSettings {
            n_neurons: 64,
            n_io_ports: 0,
            n_network_ports: 0,
            neurons_per_network_connection: 16,
        }
    }
}

impl NetworkSettings {
    /// A small population for constrained machines.
    pub fn downlevel_default() -> (r: Self)
        ensures
            r.n_neurons == 16,
            r.n_io_ports == 0,
            r.n_network_ports == 0,
            r.neurons_per_network_connection == 0,
    {
        NetworkSettings {
            n_neurons: 16,
            n_io_ports: 0,
            n_network_ports: 0,
            neurons_per_network_connection: 0,
        }
    }
}

impl Default for GuardianSettings {
    fn default() -> (r: Self)
        ensures
            r.node_size == 128,
            r.neuron_state_size == 2048,
            r.n_nodes_per_neuron == 16,
            r.n_intraconnections_per_node == 4,
            r.n_interconnected_nodes_search == 4,
            r.n_interconnected_neuron_search == 1,
            r.n_intraconnected_nodes_search == 1,
            r.interconnection_max_connection_time == 8,
            r.intraconnection_max_connection_time == 8,
            r.hidden_sizes@ == seq![64usize, 64usize],
    {
        GuardianSettings {
            node_size: 128,
            neuron_state_size: 2048,
            n_nodes_per_neuron: 16,
            n_intraconnections_per_node: 4,
            n_interconnected_nodes_search: 4,
            n_interconnected_neuron_search: 1,
            n_intraconnected_nodes_search: 1,
            interconnection_max_connection_time: 8,
            intraconnection_max_connection_time: 8,
            hidden_sizes: vec![64, 64],
        }
    }
}

impl GuardianSettings {
    /// Small neurons for constrained machines.
    pub fn downlevel_default() -> (r: Self)
        ensures
            r.node_size == 16,
            r.neuron_state_size == 32,
            r.n_nodes_per_neuron == 8,
            r.n_intraconnections_per_node == 4,
            r.n_interconnected_nodes_search == 4,
            r.n_interconnected_neuron_search == 1,
            r.n_intraconnected_nodes_search == 1,
            r.interconnection_max_connection_time == 8,
            r.intraconnection_max_connection_time == 8,
            r.hidden_sizes@ == seq![64usize, 64usize],
    {
        GuardianSettings {
            node_size: 16,
            neuron_state_size: 32,
            n_nodes_per_neuron: 8,
            n_intraconnections_per_node: 4,
            n_interconnected_nodes_search: 4,
            n_interconnected_neuron_search: 1,
            n_intraconnected_nodes_search: 1,
            interconnection_max_connection_time: 8,
            intraconnection_max_connection_time: 8,
            hidden_sizes: vec![64, 64],
        }
    }

    /// Memory that one neuron takes, in bytes.
    pub fn bytes_per_neuron(&self) -> (r: usize)
        requires
            spec_bytes_per_neuron(*self) <= usize::MAX,
        ensures
            r == spec_bytes_per_neuron(*self),
    {
        let npn = self.n_nodes_per_neuron as u128;
        let nodes = self.node_size as u128 * npn;
        let neuron_state = self.neuron_state_size as u128;
        let inter = INTER_CONNECTION_BYTES as u128 * npn + 1;
        let intra = INTRA_CONNECTION_BYTES as u128 * (npn * self.n_intraconnections_per_node as u128);
        proof {
            assert(nodes + neuron_state + inter + intra == spec_bytes_per_neuron(*self));
        }
        (nodes + neuron_state + inter + intra) as usize
    }
}

/// Memory that a whole population takes, in bytes.
pub fn get_network_size(g_settings: &GuardianSettings, n_settings: &NetworkSettings) -> (r: usize)
    requires
        spec_bytes_per_neuron(*g_settings) * n_settings.n_neurons <= usize::MAX,
        n_settings.n_neurons > 0,
    ensures
        r == spec_bytes_per_neuron(*g_settings) * n_settings.n_neurons,
{
    proof {
        assert(spec_bytes_per_neuron(*g_settings) <= spec_bytes_per_neuron(*g_settings)
            * n_settings.n_neurons) by (nonlinear_arith)
            requires
                n_settings.n_neurons > 0,
                spec_bytes_per_neuron(*g_settings) >= 0,
        ;
    }
    g_settings.bytes_per_neuron() * n_settings.n_neurons
}

/// Why the layer sizes of a model were refused.
#[derive(Debug, Clone, Copy, PartialEq, Eq, Structural)]
pub enum ModelSettingsError {
    EmptyInputSizes,
    EmptyHiddenSizes,
    EmptyOutputSizes,
}

/// Layer sizes of one feed-forward model: one weight block per named input,
/// a stack of hidden layers, one head per named output.
#[derive(Debug, Clone)]
pub struct ModelSettings {
    n_inputs: usize,
    n_hidden: usize,
    n_outputs: usize,
    input_sizes: Vec<usize>,
    pub hidden_sizes: Vec<usize>,
    output_sizes: Vec<usize>,
}

impl ModelSettings {
    pub closed spec fn wf(&self) -> bool {
        &&& self.n_inputs == self.input_sizes@.len() && self.n_inputs > 0
        &&& self.n_hidden == self.hidden_sizes@.len() && self.n_hidden > 0
        &&& self.n_outputs == self.output_sizes@.len() && self.n_outputs > 0
    }

    pub closed spec fn spec_input_sizes(&self) -> Seq<usize> {
        self.input_sizes@
    }

    pub closed spec fn spec_hidden_sizes(&self) -> Seq<usize> {
        self.hidden_sizes@
    }

    pub closed spec fn spec_output_sizes(&self) -> Seq<usize> {
        self.output_sizes@
    }

    /// Checks the three size lists; an empty one is refused, inputs first, then
    /// hidden layers, then outputs.
    pub fn new(input_sizes: Vec<usize>, hidden_sizes: Vec<usize>, output_sizes: Vec<usize>) -> (r:
        Result<Self, ModelSettingsError>)
        ensures
            input_sizes@.len() == 0 ==> r == Err::<Self, _>(ModelSettingsError::EmptyInputSizes),
            input_sizes@.len() > 0 && hidden_sizes@.len() == 0 ==> r == Err::<Self, _>(
                ModelSettingsError::EmptyHiddenSizes,
            ),
            input_sizes@.len() > 0 && hidden_sizes@.len() > 0 && output_sizes@.len() == 0 ==> r
                == Err::<Self, _>(ModelSettingsError::EmptyOutputSizes),
            r.is_ok() <==> (input_sizes@.len() > 0 && hidden_sizes@.len() > 0
                && output_sizes@.len() > 0),
            r matches Ok(s) ==> s.wf() && s.spec_input_sizes() == input_sizes@ && s.spec_hidden_sizes()
                == hidden_sizes@ && s.spec_output_sizes() == output_sizes@,
    {
        if input_sizes.len() == 0 {
            return Err(ModelSettingsError::EmptyInputSizes);
        }
        if hidden_sizes.len() == 0 {
            return Err(ModelSettingsError::EmptyHiddenSizes);
        }
        if output_sizes.len() == 0 {
            return Err(ModelSettingsError::EmptyOutputSizes);
        }
        Ok(
            ModelSettings {
                n_inputs: input_sizes.len(),
                n_hidden: hidden_sizes.len(),
                n_outputs: output_sizes.len(),
                input_sizes,
                hidden_sizes,
                output_sizes,
            },
        )
    }

    pub fn input_sizes(&self) -> (r: &Vec<usize>)
        ensures
            r@ == self.spec_input_sizes(),
    {
        &self.input_sizes
    }

    pub fn hidden_sizes(&self) -> (r: &Vec<usize>)
        ensures
            r@ == self.spec_hidden_sizes(),
    {
        &self.hidden_sizes
    }

    pub fn output_sizes(&self) -> (r: &Vec<usize>)
        ensures
            r@ == self.spec_output_sizes(),
    {
        &self.output_sizes
    }
}

/// Per-core tallies of protocol events.
#[derive(Debug, Clone, Copy, PartialEq, Eq, Structural)]
pub struct Stats {
    pub new_connections: u32,
    pub failed_connections: u32,
    pub reset_pending_index: u32,
}

} // verus!
