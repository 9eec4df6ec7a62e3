use alife::gene::UNIT;
use alife::rng::PPM;
use alife::{Gene, Genome, Organism, Rng, SinkKind, SourceKind};

fn sample_genes() -> Vec<Gene> {
    vec![
        Gene { src_kind: SourceKind::Sensor, src: 3, dst_kind: SinkKind::Hidden, dst: 1, weight: 250 },
        Gene { src_kind: SourceKind::Hidden, src: 1, dst_kind: SinkKind::Action, dst: 9, weight: -700 },
        Gene { src_kind: SourceKind::Sensor, src: 17, dst_kind: SinkKind::Action, dst: 0, weight: 1000 },
    ]
}

#[test]
fn random_gene_from_seed_zero() {
    let mut rng = Rng::new(0);
    let first = Gene::random(&mut rng);
    assert_eq!(
        first,
        Gene { src_kind: SourceKind::Hidden, src: 26100, dst_kind: SinkKind::Action, dst: 33260, weight: -921 }
    );
    assert_eq!(rng.state, 1663341875487337577);
    let second = Gene::random(&mut rng);
    assert_eq!(
        second,
        Gene { src_kind: SourceKind::Sensor, src: 13025, dst_kind: SinkKind::Hidden, dst: 35523, weight: 109 }
    );
    assert_eq!(rng.state, 3326683750974675154);
}

#[test]
fn random_weights_stay_in_range() {
    let mut rng = Rng::new(31);
    let mut low = false;
    let mut high = false;
    for _ in 0..5000 {
        let w = Gene::random_weight(&mut rng);
        assert!(-UNIT <= w && w <= UNIT);
        low |= w < -900;
        high |= w > 900;
    }
    assert!(low && high);
}

#[test]
fn mutation_keeps_the_endpoints() {
    let gene = sample_genes()[0];
    let mut rng = Rng::new(0);
    let mutated = gene.mutated(&mut rng);
    // The first draw from seed 0 is 16294208416658607535, which is 223 modulo 2001.
    assert_eq!(mutated.weight, -777);
    assert_eq!(mutated.src_kind, gene.src_kind);
    assert_eq!(mutated.src, gene.src);
    assert_eq!(mutated.dst_kind, gene.dst_kind);
    assert_eq!(mutated.dst, gene.dst);
}

#[test]
fn new_genome_has_the_length_asked_for() {
    let mut rng = Rng::new(7);
    for len in [0usize, 1, 5, 20, 200] {
        assert_eq!(Genome::new(len, &mut rng).len(), len);
    }
}

#[test]
fn new_genome_is_a_run_of_random_genes() {
    let mut rng = Rng::new(0);
    let genome = Genome::new(2, &mut rng);
    let mut again = Rng::new(0);
    let first = Gene::random(&mut again);
    let second = Gene::random(&mut again);
    assert_eq!(genome.genes, vec![first, second]);
    assert_eq!(rng, again);
}

#[test]
fn genome_from_genes_keeps_order() {
    let genome = Genome::from_genes(sample_genes());
    assert_eq!(genome.len(), 3);
    for (i, g) in sample_genes().iter().enumerate() {
        assert_eq!(genome.gene(i), *g);
    }
    assert_eq!(genome.duplicate(), genome);
}

#[test]
fn replicate_without_mutation_copies_the_genome() {
    let parent = Genome::from_genes(sample_genes());
    for seed in 0..50 {
        let mut rng = Rng::new(seed);
        let child = parent.replicate(0, 0, &mut rng);
        assert_eq!(child, parent);
    }
    let mut rng = Rng::new(5);
    let long = Genome::new(300, &mut rng);
    assert_eq!(long.replicate(0, 0, &mut rng), long);
    let empty = Genome::from_genes(Vec::new());
    assert_eq!(empty.replicate(0, 0, &mut rng).len(), 0);
}

#[test]
fn replicate_with_certain_insertion_doubles_the_genome() {
    let parent = Genome::from_genes(sample_genes());
    let mut rng = Rng::new(1);
    let child = parent.replicate(0, PPM, &mut rng);
    assert_eq!(child.len(), 6);
    // Without mutation the copied genes stand at the even places.
    for (i, g) in sample_genes().iter().enumerate() {
        assert_eq!(child.gene(2 * i), *g);
    }
    let mut rng = Rng::new(2);
    let long = Genome::new(123, &mut rng);
    assert_eq!(long.replicate(500_000, PPM, &mut rng).len(), 246);
    let empty = Genome::from_genes(Vec::new());
    assert_eq!(empty.replicate(PPM, PPM, &mut rng).len(), 0);
}

#[test]
fn replicate_with_certain_mutation_redraws_every_weight() {
    let parent = Genome::from_genes(sample_genes());
    let mut rng = Rng::new(0);
    let child = parent.replicate(PPM, 0, &mut rng);
    assert_eq!(child.len(), 3);
    // Per gene: a roll for the mutation, the new weight, a roll for the insertion.
    let mut again = Rng::new(0);
    for (i, g) in sample_genes().iter().enumerate() {
        again.next_u64();
        let weight = Gene::random_weight(&mut again);
        again.next_u64();
        assert_eq!(child.gene(i), Gene { weight, ..*g });
    }
    assert_eq!(rng, again);
}

#[test]
fn replicate_length_stays_between_one_and_two_times() {
    let mut rng = Rng::new(77);
    let parent = Genome::new(100, &mut rng);
    for _ in 0..50 {
        let child = parent.replicate(300_000, 300_000, &mut rng);
        assert!(100 <= child.len() && child.len() <= 200);
    }
}

#[test]
fn replicate_is_decided_by_the_seed() {
    let mut rng = Rng::new(4);
    let parent = Genome::new(40, &mut rng);
    let a = parent.replicate(200_000, 200_000, &mut Rng::new(9));
    let b = parent.replicate(200_000, 200_000, &mut Rng::new(9));
    assert_eq!(a, b);
}

#[test]
fn new_organism_starts_young() {
    let mut rng = Rng::new(3);
    let org = Organism::new(1000, 20, &mut rng);
    assert_eq!(org.species, 0);
    assert_eq!(org.age, 0);
    assert_eq!(org.energy, 1000);
    assert_eq!(org.genome.len(), 20);
    let mut again = Rng::new(3);
    assert_eq!(org.genome, Genome::new(20, &mut again));
}

#[test]
fn organism_energy_is_added_and_taken_without_clamping() {
    let mut rng = Rng::new(3);
    let mut org = Organism::new(1000, 1, &mut rng);
    org.add_energy(250);
    assert_eq!(org.energy, 1250);
    org.sub_energy(1250);
    assert_eq!(org.energy, 0);
    org.sub_energy(10);
    assert_eq!(org.energy, -10);
    org.add_energy(-5);
    assert_eq!(org.energy, -15);
}

#[test]
fn organism_replicate_hands_the_cost_to_the_child() {
    let mut rng = Rng::new(12);
    let mut parent = Organism::new(1000, 10, &mut rng);
    parent.species = 4;
    parent.age = 9;
    let genome = parent.genome.duplicate();
    let child = parent.replicate(0, 0, &mut rng);
    assert_eq!(parent.energy, 800);
    assert_eq!(parent.age, 9);
    assert_eq!(parent.genome, genome);
    assert_eq!(child.energy, 200);
    assert_eq!(child.energy, alife::organism::REPLICATION_COST);
    assert_eq!(child.age, 0);
    assert_eq!(child.species, 4);
    assert_eq!(child.genome, genome);
    assert_eq!(parent.energy + child.energy, 1000);
}

#[test]
fn organism_replicate_with_insertion_doubles_the_child_genome() {
    let mut rng = Rng::new(12);
    let mut parent = Organism::new(1000, 10, &mut rng);
    let child = parent.replicate(0, PPM, &mut rng);
    assert_eq!(child.genome.len(), 20);
    assert_eq!(parent.genome.len(), 10);
}

#[test]
fn organism_duplicate_is_equal() {
    let mut rng = Rng::new(1);
    let org = Organism::new(640, 7, &mut rng);
    assert_eq!(org.duplicate(), org);
}

#[test]
fn mutate_at_redraws_one_weight() {
    let mut genome = Genome::from_genes(sample_genes());
    let mut rng = Rng::new(0);
    genome.mutate_at(1, &mut rng);
    assert_eq!(genome.len(), 3);
    assert_eq!(genome.gene(0), sample_genes()[0]);
    assert_eq!(genome.gene(2), sample_genes()[2]);
    assert_eq!(genome.gene(1), Gene { weight: -777, ..sample_genes()[1] });
    assert_eq!(rng.state, 0x9E37_79B9_7F4A_7C15);
}

#[test]
fn insert_at_puts_a_fresh_gene_in() {
    let fresh = Gene {
        src_kind: SourceKind::Hidden,
        src: 26100,
        dst_kind: SinkKind::Action,
        dst: 33260,
        weight: -921,
    };
    for place in 0..=3 {
        let mut genome = Genome::from_genes(sample_genes());
        genome.insert_at(place, &mut Rng::new(0));
        assert_eq!(genome.len(), 4);
        let mut expected = sample_genes();
        expected.insert(place, fresh);
        assert_eq!(genome.genes, expected);
    }
}
