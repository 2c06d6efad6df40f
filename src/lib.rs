//! Topology core of a population of neurons whose nodes form and break
//! bounded-degree connections with each other.
//!
//! Forces and node activations are held in packed byte form. Every decision
//! of the plasticity protocol (who searches where, who may take over a slot,
//! who wins a contested slot, which duplicate proposal is evicted) is made on
//! those packed values and is verified here. The numeric models that score
//! candidates work on real numbers and are evaluated by the caller, which hands
//! their packed results to the functions of this crate.

pub mod settings;
pub mod counter;
pub mod connection;
pub mod topology;
pub mod inter_plasticity;
pub mod intra_plasticity;
pub mod propagation;
pub mod networking;
pub mod gpu;
