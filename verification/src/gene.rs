//! Genes: the encoded connections of a neural controller.

use crate::rng::{rng_advance, rng_below, Rng};
use vstd::prelude::*;

verus! {

/// The fixed point value that stands for `1.0` in weights and activations.
pub const UNIT: i32 = 1000;

/// The number of node ids a gene can name.
pub const NODE_IDS: u64 = 65536;

/// The number of weights a fresh gene can have: `-UNIT ..= UNIT`.
pub const WEIGHT_STEPS: u64 = 2001;

/// The layer a connection starts in.
#[derive(Clone, Copy, Debug, PartialEq, Eq, Structural, Hash)]
pub enum SourceKind {
    Sensor,
    Hidden,
}

/// The layer a connection ends in.
#[derive(Clone, Copy, Debug, PartialEq, Eq, Structural, Hash)]
pub enum SinkKind {
    Hidden,
    Action,
}

/// One encoded connection. The node ids are raw: they are reduced modulo the
/// size of their layer when the gene is decoded, so every gene can be decoded
/// against every shape.
#[derive(Clone, Copy, Debug, PartialEq, Eq, Structural, Hash)]
pub struct Gene {
    pub src_kind: SourceKind,
    pub src: u16,
    pub dst_kind: SinkKind,
    pub dst: u16,
    pub weight: i32,
}

/// The weight drawn when the generator is in `state`.
pub open spec fn random_weight(state: u64) -> i32 {
    (rng_below(state, WEIGHT_STEPS) - UNIT) as i32
}

/// The gene drawn when the generator is in `state`. It takes five draws: the
/// source layer, the source id, the destination layer, the destination id and
/// the weight.
pub open spec fn random_gene(state: u64) -> Gene {
    let s1: u64 = rng_advance(state);
    let s2: u64 = rng_advance(s1);
    let s3: u64 = rng_advance(s2);
    let s4: u64 = rng_advance(s3);
    Gene {
        src_kind: if rng_below(state, 2) == 0 {
            SourceKind::Sensor
        } else {
            SourceKind::Hidden
        },
        src: rng_below(s1, NODE_IDS) as u16,
        dst_kind: if rng_below(s2, 2) == 0 {
            SinkKind::Hidden
        } else {
            SinkKind::Action
        },
        dst: rng_below(s3, NODE_IDS) as u16,
        weight: random_weight(s4),
    }
}

/// The state of the generator after it has drawn one gene.
pub open spec fn after_gene(state: u64) -> u64 {
    rng_advance(rng_advance(rng_advance(rng_advance(rng_advance(state)))))
}

impl Gene {
    /// The gene with its weight drawn anew when the generator is in `state`;
    /// the endpoints stay.
    pub open spec fn mutated_spec(self, state: u64) -> Gene {
        Gene { weight: random_weight(state), ..self }
    }

    /// Draws a weight in `-UNIT ..= UNIT`.
    pub fn random_weight(rng: &mut Rng) -> (weight: i32)
        ensures
            weight == random_weight(old(rng).state),
            -UNIT <= weight <= UNIT,
            final(rng).state == rng_advance(old(rng).state),
    {
        let roll: u64 = rng.below(WEIGHT_STEPS);
        roll as i32 - UNIT
    }

    /// Draws a gene: layers, ids and weight are all random.
    pub fn random(rng: &mut Rng) -> (gene: Gene)
        ensures
            gene == random_gene(old(rng).state),
            -UNIT <= gene.weight <= UNIT,
            final(rng).state == after_gene(old(rng).state),
    {
        let src_roll: u64 = rng.below(2);
        let src: u64 = rng.below(NODE_IDS);
        let dst_roll: u64 = rng.below(2);
        let dst: u64 = rng.below(NODE_IDS);
        let weight: i32 = Gene::random_weight(rng);
        Gene {
            src_kind: if src_roll == 0 {
                SourceKind::Sensor
            } else {
                SourceKind::Hidden
            },
            src: src as u16,
            dst_kind: if dst_roll == 0 {
                SinkKind::Hidden
            } else {
                SinkKind::Action
            },
            dst: dst as u16,
            weight,
        }
    }

    /// The point mutation: the weight is drawn anew, the endpoints stay.
    pub fn mutated(self, rng: &mut Rng) -> (gene: Gene)
        ensures
            gene == self.mutated_spec(old(rng).state),
            gene.src_kind == self.src_kind,
            gene.src == self.src,
            gene.dst_kind == self.dst_kind,
            gene.dst == self.dst,
            -UNIT <= gene.weight <= UNIT,
            final(rng).state == rng_advance(old(rng).state),
    {
        let weight: i32 = Gene::random_weight(rng);
        Gene { weight, ..self }
    }
}

} // verus!
