//! Organisms: a genome with an age and an energy reserve.

use crate::gene::Gene;
use crate::genome::{fresh_genes, replicate_spec, Genome};
use crate::rng::{Rng, PPM};
use vstd::prelude::*;

verus! {

/// The energy that a parent hands to its child.
pub const REPLICATION_COST: i64 = 200;

/// An organism as a mathematical value.
pub struct OrganismView {
    pub genome: Seq<Gene>,
    pub species: usize,
    pub age: usize,
    pub energy: i64,
}

/// A living thing of the simulation. It does not know where it is: the world
/// keeps its position.
#[derive(Clone, Debug, PartialEq, Eq)]
pub struct Organism {
    pub genome: Genome,
    pub species: usize,
    pub age: usize,
    pub energy: i64,
}

impl View for Organism {
    type V = OrganismView;

    open spec fn view(&self) -> OrganismView {
        OrganismView {
            genome: self.genome@,
            species: self.species,
            age: self.age,
            energy: self.energy,
        }
    }
}

impl OrganismView {
    /// The organism with `quantity` more energy.
    pub open spec fn gain(self, quantity: int) -> OrganismView
        recommends
            i64::MIN <= self.energy + quantity <= i64::MAX,
    {
        OrganismView { energy: (self.energy + quantity) as i64, ..self }
    }

    /// The organism one tick older.
    pub open spec fn aged(self) -> OrganismView
        recommends
            self.age < usize::MAX,
    {
        OrganismView { age: (self.age + 1) as usize, ..self }
    }

    /// The child of the organism when the generator is in `state`: a mutated
    /// copy of the genome, the same species, age zero and the energy that the
    /// parent hands over.
    pub open spec fn child(self, mut_p: u32, insert_p: u32, state: u64) -> OrganismView {
        OrganismView {
            genome: replicate_spec(self.genome, mut_p, insert_p, state).0,
            species: self.species,
            age: 0,
            energy: REPLICATION_COST,
        }
    }
}

impl Organism {
    /// A new organism of species 0 and age 0 with `energy` and a random genome
    /// of `genome_len` genes.
    pub fn new(energy: i64, genome_len: usize, rng: &mut Rng) -> (org: Organism)
        ensures
            org@ == (OrganismView {
                genome: fresh_genes(genome_len as nat, old(rng).state).0,
                species: 0,
                age: 0,
                energy,
            }),
            org@.genome.len() == genome_len,
            final(rng).state == fresh_genes(genome_len as nat, old(rng).state).1,
    {
        let genome: Genome = Genome::new(genome_len, rng);
        Organism { genome, species: 0, age: 0, energy }
    }

    /// Splits off a child. The parent pays `REPLICATION_COST`, which becomes
    /// the energy of the child, so the two together have what the parent had.
    /// The child has a mutated copy of the genome, the species of the parent
    /// and age zero. Both probabilities are in parts per million.
    pub fn replicate(&mut self, mut_p: u32, insert_p: u32, rng: &mut Rng) -> (child: Organism)
        requires
            old(self).energy - REPLICATION_COST >= i64::MIN,
        ensures
            final(self)@ == old(self)@.gain(-REPLICATION_COST),
            child@ == old(self)@.child(mut_p, insert_p, old(rng).state),
            final(rng).state == replicate_spec(
                old(self)@.genome,
                mut_p,
                insert_p,
                old(rng).state,
            ).1,
            final(self).energy + child.energy == old(self).energy,
            mut_p == 0 && insert_p == 0 ==> child@.genome == old(self)@.genome,
            insert_p >= PPM ==> child@.genome.len() == 2 * old(self)@.genome.len(),
    {
        self.energy = self.energy - REPLICATION_COST;
        let genome: Genome = self.genome.replicate(mut_p, insert_p, rng);
        Organism { genome, species: self.species, age: 0, energy: REPLICATION_COST }
    }

    /// Adds `quantity` to the energy.
    pub fn add_energy(&mut self, quantity: i64)
        requires
            i64::MIN <= old(self).energy + quantity <= i64::MAX,
        ensures
            final(self)@ == old(self)@.gain(quantity as int),
            final(self).energy == old(self).energy + quantity,
    {
        self.energy = self.energy + quantity;
    }

    /// Takes `quantity` from the energy. The energy may become zero or
    /// negative: that is for the world to act on.
    pub fn sub_energy(&mut self, quantity: i64)
        requires
            i64::MIN <= old(self).energy - quantity <= i64::MAX,
        ensures
            final(self)@ == old(self)@.gain(-quantity),
            final(self).energy == old(self).energy - quantity,
    {
        self.energy = self.energy - quantity;
    }

    /// A copy of the organism.
    pub fn duplicate(&self) -> (copy: Organism)
        ensures
            copy@ == self@,
    {
        Organism {
            genome: self.genome.duplicate(),
            species: self.species,
            age: self.age,
            energy: self.energy,
        }
    }
}

} // verus!
