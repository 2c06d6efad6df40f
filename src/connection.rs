use vstd::prelude::*;

verus! {

/// Packed force of an endpoint that has no partner: the weakest force but one.
pub const UNCONNECTED_FORCE: i8 = -127;

/// Packed force that stands for a force of zero.
pub const ZERO_FORCE: i8 = 0;

/// Packed force that stands for the lowest real force, -1.
pub const MIN_FORCE: i8 = -128;

/// A packed force is held as a signed byte `f`, standing for the signed codec
/// byte `f + 128`, that is for the real force `(f + 128) / 127.5 - 1`. The map
/// is increasing, so packed forces and their sums order as the real ones do.
pub open spec fn force_code(f: i8) -> int {
    f + 128
}

/// Codec byte of a packed force.
pub fn code_of_force(f: i8) -> (r: u8)
    ensures
        r == force_code(f),
{
    (f as i16 + 128) as u8
}

/// Packed force of a codec byte.
pub fn force_of_code(c: u8) -> (r: i8)
    ensures
        force_code(r) == c,
{
    (c as i16 - 128) as i8
}

/// Net force of a pair of packed forces, in codec steps above the weakest pair.
pub open spec fn net(force_self: i8, force_other: i8) -> int {
    force_self + force_other
}

/// One endpoint of an edge to a node of any neuron: the committed partner and
/// forces, and the partner and forces under negotiation.
#[derive(Debug, Clone, Copy, PartialEq, Eq, Structural)]
pub struct InterConnection {
    pub index: u32,
    pub pending_index: u32,
    pub force_self: i8,
    pub force_other: i8,
    pub pending_force_self: i8,
    pub pending_force_other: i8,
}

/// One endpoint of an edge to a node of the same neuron, addressed by its local index.
#[derive(Debug, Clone, Copy, PartialEq, Eq, Structural)]
pub struct IntraConnection {
    pub index: u16,
    pub pending_index: u16,
    pub force_self: i8,
    pub force_other: i8,
    pub pending_force_self: i8,
    pub pending_force_other: i8,
}

impl InterConnection {
    pub open spec fn spec_new() -> Self {
        InterConnection {
            index: 0,
            pending_index: 0,
            force_self: ZERO_FORCE,
            force_other: ZERO_FORCE,
            pending_force_self: ZERO_FORCE,
            pending_force_other: ZERO_FORCE,
        }
    }

    pub open spec fn net_force(&self) -> int {
        net(self.force_self, self.force_other)
    }

    pub open spec fn net_pending_force(&self) -> int {
        net(self.pending_force_self, self.pending_force_other)
    }

    /// The record with its pending state dropped back onto the committed partner.
    pub open spec fn spec_reset_pending(self) -> Self {
        InterConnection {
            pending_index: self.index,
            pending_force_self: UNCONNECTED_FORCE,
            pending_force_other: UNCONNECTED_FORCE,
            ..self
        }
    }

    /// The record with its pending state made the committed one.
    pub open spec fn spec_move_pending_to_main(self) -> Self {
        InterConnection {
            index: self.pending_index,
            force_self: self.pending_force_self,
            force_other: self.pending_force_other,
            ..self
        }
    }

    /// The record with both committed forces set.
    pub open spec fn with_forces(self, force_self: i8, force_other: i8) -> Self {
        InterConnection { force_self, force_other, ..self }
    }

    /// The record with both pending forces set.
    pub open spec fn with_pending_forces(self, force_self: i8, force_other: i8) -> Self {
        InterConnection { pending_force_self: force_self, pending_force_other: force_other, ..self }
    }

    /// A record that points at node 0, with every force at zero.
    pub fn new() -> (r: Self)
        ensures
            r == Self::spec_new(),
    {
        InterConnection {
            index: 0,
            pending_index: 0,
            force_self: 0,
            force_other: 0,
            pending_force_self: 0,
            pending_force_other: 0,
        }
    }

    pub fn get_index(&self) -> (r: usize)
        ensures
            r == self.index,
    {
        self.index as usize
    }

    pub fn get_pending_index(&self) -> (r: usize)
        ensures
            r == self.pending_index,
    {
        self.pending_index as usize
    }

    pub fn get_raw_force_values(&self) -> (r: (i8, i8))
        ensures
            r == (self.force_self, self.force_other),
    {
        (self.force_self, self.force_other)
    }

    pub fn get_raw_pending_force_values(&self) -> (r: (i8, i8))
        ensures
            r == (self.pending_force_self, self.pending_force_other),
    {
        (self.pending_force_self, self.pending_force_other)
    }

    /// Sum of the two committed packed forces.
    pub fn get_net_force(&self) -> (r: i16)
        ensures
            r == self.net_force(),
    {
        self.force_self as i16 + self.force_other as i16
    }

    /// Sum of the two pending packed forces.
    pub fn get_net_pending_force(&self) -> (r: i16)
        ensures
            r == self.net_pending_force(),
    {
        self.pending_force_self as i16 + self.pending_force_other as i16
    }

    /// An index that does not fit the 32-bit field is a programming error.
    pub fn store_index(&mut self, index: usize)
        requires
            index <= u32::MAX,
        ensures
            *final(self) == (InterConnection { index: index as u32, ..*old(self) }),
    {
        self.index = index as u32;
    }

    pub fn store_pending_index(&mut self, index: usize)
        requires
            index <= u32::MAX,
        ensures
            *final(self) == (InterConnection { pending_index: index as u32, ..*old(self) }),
    {
        self.pending_index = index as u32;
    }

    pub fn store_force_self(&mut self, force_self: i8)
        ensures
            *final(self) == (InterConnection { force_self, ..*old(self) }),
    {
        self.force_self = force_self;
    }

    pub fn store_force_other(&mut self, force_other: i8)
        ensures
            *final(self) == (InterConnection { force_other, ..*old(self) }),
    {
        self.force_other = force_other;
    }

    pub fn store_forces(&mut self, force_self: i8, force_other: i8)
        ensures
            *final(self) == old(self).with_forces(force_self, force_other),
    {
        self.force_self = force_self;
        self.force_other = force_other;
    }

    pub fn store_pending_forces(&mut self, force_self: i8, force_other: i8)
        ensures
            *final(self) == old(self).with_pending_forces(force_self, force_other),
    {
        self.pending_force_self = force_self;
        self.pending_force_other = force_other;
    }

    /// Offers a force to this endpoint: the larger of the two stays.
    pub fn add_maximum_force_self(&mut self, force_self: i8)
        ensures
            *final(self) == (InterConnection {
                force_self: if force_self > old(self).force_self {
                    force_self
                } else {
                    old(self).force_self
                },
                ..*old(self)
            }),
    {
        if force_self > self.force_self {
            self.force_self = force_self;
        }
    }

    /// Offers a partner index to this endpoint: the larger of the two stays.
    pub fn add_maximum_index(&mut self, index: usize)
        requires
            index <= u32::MAX,
        ensures
            *final(self) == (InterConnection {
                index: if index > old(self).index {
                    index as u32
                } else {
                    old(self).index
                },
                ..*old(self)
            }),
    {
        if index as u32 > self.index {
            self.index = index as u32;
        }
    }

    pub fn move_pending_to_main(&mut self)
        ensures
            *final(self) == old(self).spec_move_pending_to_main(),
    {
        self.index = self.pending_index;
        self.force_self = self.pending_force_self;
        self.force_other = self.pending_force_other;
    }

    pub fn reset_pending_forces(&mut self)
        ensures
            *final(self) == old(self).with_pending_forces(UNCONNECTED_FORCE, UNCONNECTED_FORCE),
    {
        self.pending_force_self = UNCONNECTED_FORCE;
        self.pending_force_other = UNCONNECTED_FORCE;
    }

    pub fn reset_pending(&mut self)
        ensures
            *final(self) == old(self).spec_reset_pending(),
    {
        self.pending_index = self.index;
        self.pending_force_self = UNCONNECTED_FORCE;
        self.pending_force_other = UNCONNECTED_FORCE;
    }

    /// Marks the committed edge as broken; the index stays.
    pub fn reset_main(&mut self)
        ensures
            *final(self) == old(self).with_forces(UNCONNECTED_FORCE, UNCONNECTED_FORCE),
    {
        self.force_self = UNCONNECTED_FORCE;
        self.force_other = UNCONNECTED_FORCE;
    }
}

impl IntraConnection {
    pub open spec fn spec_new() -> Self {
        IntraConnection {
            index: 0,
            pending_index: 0,
            force_self: ZERO_FORCE,
            force_other: ZERO_FORCE,
            pending_force_self: ZERO_FORCE,
            pending_force_other: ZERO_FORCE,
        }
    }

    pub open spec fn net_force(&self) -> int {
        net(self.force_self, self.force_other)
    }

    pub open spec fn net_pending_force(&self) -> int {
        net(self.pending_force_self, self.pending_force_other)
    }

    pub open spec fn spec_reset_pending(self) -> Self {
        IntraConnection {
            pending_index: self.index,
            pending_force_self: UNCONNECTED_FORCE,
            pending_force_other: UNCONNECTED_FORCE,
            ..self
        }
    }

    /// The pending state becomes the committed one, and the pending state
    /// then starts over from it.
    pub open spec fn spec_move_pending_to_main(self) -> Self {
        IntraConnection {
            index: self.pending_index,
            pending_index: self.pending_index,
            force_self: self.pending_force_self,
            force_other: self.pending_force_other,
            pending_force_self: UNCONNECTED_FORCE,
            pending_force_other: UNCONNECTED_FORCE,
        }
    }

    pub open spec fn with_forces(self, force_self: i8, force_other: i8) -> Self {
        IntraConnection { force_self, force_other, ..self }
    }

    pub open spec fn with_pending_forces(self, force_self: i8, force_other: i8) -> Self {
        IntraConnection { pending_force_self: force_self, pending_force_other: force_other, ..self }
    }

    /// A record that points at local node 0, with every force at zero.
    pub fn new() -> (r: Self)
        ensures
            r == Self::spec_new(),
    {
        IntraConnection {
            index: 0,
            pending_index: 0,
            force_self: 0,
            force_other: 0,
            pending_force_self: 0,
            pending_force_other: 0,
        }
    }

    pub fn get_index(&self) -> (r: usize)
        ensures
            r == self.index,
    {
        self.index as usize
    }

    pub fn get_pending_index(&self) -> (r: usize)
        ensures
            r == self.pending_index,
    {
        self.pending_index as usize
    }

    pub fn get_raw_pending_force_values(&self) -> (r: (i8, i8))
        ensures
            r == (self.pending_force_self, self.pending_force_other),
    {
        (self.pending_force_self, self.pending_force_other)
    }

    pub fn get_raw_force_values(&self) -> (r: (i8, i8))
        ensures
            r == (self.force_self, self.force_other),
    {
        (self.force_self, self.force_other)
    }

    pub fn get_net_force(&self) -> (r: i16)
        ensures
            r == self.net_force(),
    {
        self.force_self as i16 + self.force_other as i16
    }

    pub fn get_net_pending_force(&self) -> (r: i16)
        ensures
            r == self.net_pending_force(),
    {
        self.pending_force_self as i16 + self.pending_force_other as i16
    }

    /// A local index that does not fit the 16-bit field is a programming error.
    pub fn store_index(&mut self, index: usize)
        requires
            index <= u16::MAX,
        ensures
            *final(self) == (IntraConnection { index: index as u16, ..*old(self) }),
    {
        self.index = index as u16;
    }

    pub fn store_pending_index(&mut self, index: usize)
        requires
            index <= u16::MAX,
        ensures
            *final(self) == (IntraConnection { pending_index: index as u16, ..*old(self) }),
    {
        self.pending_index = index as u16;
    }

    pub fn store_forces(&mut self, force_self: i8, force_other: i8)
        ensures
            *final(self) == old(self).with_forces(force_self, force_other),
    {
        self.force_self = force_self;
        self.force_other = force_other;
    }

    pub fn store_pending_forces(&mut self, force_self: i8, force_other: i8)
        ensures
            *final(self) == old(self).with_pending_forces(force_self, force_other),
    {
        self.pending_force_self = force_self;
        self.pending_force_other = force_other;
    }

    pub fn move_pending_to_main(&mut self)
        ensures
            *final(self) == old(self).spec_move_pending_to_main(),
    {
        self.index = self.pending_index;
        self.force_self = self.pending_force_self;
        self.force_other = self.pending_force_other;
        self.reset_pending();
    }

    pub fn reset_pending(&mut self)
        ensures
            *final(self) == old(self).spec_reset_pending(),
    {
        self.pending_index = self.index;
        self.pending_force_self = UNCONNECTED_FORCE;
        self.pending_force_other = UNCONNECTED_FORCE;
    }

    pub fn reset_pending_forces(&mut self)
        ensures
            *final(self) == old(self).with_pending_forces(UNCONNECTED_FORCE, UNCONNECTED_FORCE),
    {
        self.pending_force_self = UNCONNECTED_FORCE;
        self.pending_force_other = UNCONNECTED_FORCE;
    }
}

} // verus!
