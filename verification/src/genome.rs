//! Genomes: ordered sequences of genes, and how they are copied.

use crate::gene::{after_gene, random_gene, Gene};
use crate::rng::{rng_advance, rng_chance, Rng, PPM};
use vstd::prelude::*;

verus! {

/// The first `n` genes drawn from a generator that starts in `state`, and the
/// state it is left in.
pub open spec fn fresh_genes(n: nat, state: u64) -> (Seq<Gene>, u64)
    decreases n,
{
    if n == 0 {
        (Seq::empty(), state)
    } else {
        let (genes, s) = fresh_genes((n - 1) as nat, state);
        (genes.push(random_gene(s)), after_gene(s))
    }
}

/// Copies one gene to the end of `child` with the generator in `state`.
///
/// The first roll decides with probability `mut_p` whether the copy is
/// mutated, which takes one more draw. The next roll decides with probability
/// `insert_p` whether a fresh gene is put in after the copy, which takes five
/// more.
pub open spec fn copy_gene(child: Seq<Gene>, state: u64, gene: Gene, mut_p: u32, insert_p: u32) -> (
    Seq<Gene>,
    u64,
) {
    let s1: u64 = rng_advance(state);
    let copy: Gene = if rng_chance(state, mut_p) {
        gene.mutated_spec(s1)
    } else {
        gene
    };
    let s2: u64 = if rng_chance(state, mut_p) {
        rng_advance(s1)
    } else {
        s1
    };
    let s3: u64 = rng_advance(s2);
    if rng_chance(s2, insert_p) {
        (child.push(copy).push(random_gene(s3)), after_gene(s3))
    } else {
        (child.push(copy), s3)
    }
}

/// The copy of the first `n` genes of `genes` made with a generator that starts
/// in `state`, and the state it is left in.
pub open spec fn replicate_upto(genes: Seq<Gene>, n: int, mut_p: u32, insert_p: u32, state: u64) -> (
    Seq<Gene>,
    u64,
)
    decreases n,
{
    if n <= 0 {
        (Seq::empty(), state)
    } else {
        let (child, s) = replicate_upto(genes, n - 1, mut_p, insert_p, state);
        copy_gene(child, s, genes[n - 1], mut_p, insert_p)
    }
}

/// The mutated copy of `genes` made with a generator that starts in `state`,
/// and the state it is left in.
pub open spec fn replicate_spec(genes: Seq<Gene>, mut_p: u32, insert_p: u32, state: u64) -> (
    Seq<Gene>,
    u64,
) {
    replicate_upto(genes, genes.len() as int, mut_p, insert_p, state)
}

/// A copy has at least as many genes as were copied and at most twice as many.
pub proof fn lemma_replicate_length(
    genes: Seq<Gene>,
    n: int,
    mut_p: u32,
    insert_p: u32,
    state: u64,
)
    requires
        0 <= n <= genes.len(),
    ensures
        n <= replicate_upto(genes, n, mut_p, insert_p, state).0.len() <= 2 * n,
    decreases n,
{
    if n > 0 {
        lemma_replicate_length(genes, n - 1, mut_p, insert_p, state);
    }
}

/// With both probabilities zero the copy has the genes of its source, one for
/// one.
pub proof fn lemma_replicate_faithful(genes: Seq<Gene>, n: int, state: u64)
    requires
        0 <= n <= genes.len(),
    ensures
        replicate_upto(genes, n, 0, 0, state).0 == genes.take(n),
    decreases n,
{
    if n > 0 {
        lemma_replicate_faithful(genes, n - 1, state);
        assert(genes.take(n - 1).push(genes[n - 1]) =~= genes.take(n));
    } else {
        assert(genes.take(0) =~= Seq::<Gene>::empty());
    }
}

/// With an insertion probability of one a fresh gene follows every copied
/// gene, so the copy is twice as long.
pub proof fn lemma_replicate_doubles(
    genes: Seq<Gene>,
    n: int,
    mut_p: u32,
    insert_p: u32,
    state: u64,
)
    requires
        0 <= n <= genes.len(),
        insert_p >= PPM,
    ensures
        replicate_upto(genes, n, mut_p, insert_p, state).0.len() == 2 * n,
    decreases n,
{
    if n > 0 {
        lemma_replicate_doubles(genes, n - 1, mut_p, insert_p, state);
    }
}

/// With an insertion probability of zero the copy is as long as its source,
/// and each gene keeps its endpoints.
pub proof fn lemma_replicate_keeps_shape(
    genes: Seq<Gene>,
    n: int,
    mut_p: u32,
    state: u64,
)
    requires
        0 <= n <= genes.len(),
    ensures
        replicate_upto(genes, n, mut_p, 0, state).0.len() == n,
        forall|i: int|
            0 <= i < n ==> {
                let copy = #[trigger] replicate_upto(genes, n, mut_p, 0, state).0[i];
                &&& copy.src_kind == genes[i].src_kind
                &&& copy.src == genes[i].src
                &&& copy.dst_kind == genes[i].dst_kind
                &&& copy.dst == genes[i].dst
            },
    decreases n,
{
    if n > 0 {
        lemma_replicate_keeps_shape(genes, n - 1, mut_p, state);
    }
}

/// An ordered sequence of genes.
#[derive(Clone, Debug, PartialEq, Eq)]
pub struct Genome {
    pub genes: Vec<Gene>,
}

impl View for Genome {
    type V = Seq<Gene>;

    open spec fn view(&self) -> Seq<Gene> {
        self.genes@
    }
}

impl Genome {
    /// A genome of `length` random genes.
    pub fn new(length: usize, rng: &mut Rng) -> (genome: Genome)
        ensures
            genome@ == fresh_genes(length as nat, old(rng).state).0,
            final(rng).state == fresh_genes(length as nat, old(rng).state).1,
            genome@.len() == length,
    {
        let mut genes: Vec<Gene> = Vec::new();
        let mut i: usize = 0;
        while i < length
            invariant
                i <= length,
                genes@.len() == i,
                (genes@, rng.state) == fresh_genes(i as nat, old(rng).state),
            decreases length - i,
        {
            let gene: Gene = Gene::random(rng);
            genes.push(gene);
            i = i + 1;
        }
        Genome { genes }
    }

    /// The genome made of the given genes, in their order.
    pub fn from_genes(genes: Vec<Gene>) -> (genome: Genome)
        ensures
            genome@ == genes@,
    {
        Genome { genes }
    }

    /// The number of genes.
    pub fn len(&self) -> (n: usize)
        ensures
            n == self@.len(),
    {
        self.genes.len()
    }

    /// The gene at place `i`.
    pub fn gene(&self, i: usize) -> (gene: Gene)
        requires
            i < self@.len(),
        ensures
            gene == self@[i as int],
    {
        self.genes[i]
    }

    /// A copy of the genome with the same genes in the same order.
    pub fn duplicate(&self) -> (copy: Genome)
        ensures
            copy@ == self@,
    {
        let mut genes: Vec<Gene> = Vec::new();
        let mut i: usize = 0;
        while i < self.genes.len()
            invariant
                i <= self.genes@.len(),
                genes@ == self.genes@.take(i as int),
            decreases self.genes@.len() - i,
        {
            genes.push(self.genes[i]);
            assert(self.genes@.take(i as int).push(self.genes@[i as int]) =~= self.genes@.take(
                i + 1,
            ));
            i = i + 1;
        }
        assert(self.genes@.take(self.genes@.len() as int) =~= self.genes@);
        Genome { genes }
    }

    /// The point mutation of the gene at place `i`: its weight is drawn anew,
    /// its endpoints and all other genes stay.
    pub fn mutate_at(&mut self, i: usize, rng: &mut Rng)
        requires
            i < old(self)@.len(),
        ensures
            final(self)@ == old(self)@.update(
                i as int,
                old(self)@[i as int].mutated_spec(old(rng).state),
            ),
            final(rng).state == rng_advance(old(rng).state),
    {
        let gene: Gene = self.genes[i].mutated(rng);
        self.genes.set(i, gene);
    }

    /// The insertion of a fresh random gene at place `i`: the genes from there
    /// on move one place up.
    pub fn insert_at(&mut self, i: usize, rng: &mut Rng)
        requires
            i <= old(self)@.len(),
        ensures
            final(self)@ == old(self)@.insert(i as int, random_gene(old(rng).state)),
            final(self)@.len() == old(self)@.len() + 1,
            final(rng).state == after_gene(old(rng).state),
    {
        let gene: Gene = Gene::random(rng);
        self.genes.insert(i, gene);
    }

    /// The child genome: a copy in which each gene is mutated with probability
    /// `mut_p`, and followed by a fresh gene with probability `insert_p`, both
    /// in parts per million.
    pub fn replicate(&self, mut_p: u32, insert_p: u32, rng: &mut Rng) -> (child: Genome)
        ensures
            child@ == replicate_spec(self@, mut_p, insert_p, old(rng).state).0,
            final(rng).state == replicate_spec(self@, mut_p, insert_p, old(rng).state).1,
            self@.len() <= child@.len() <= 2 * self@.len(),
            mut_p == 0 && insert_p == 0 ==> child@ == self@,
            insert_p == 0 ==> child@.len() == self@.len(),
            insert_p >= PPM ==> child@.len() == 2 * self@.len(),
    {
        let mut genes: Vec<Gene> = Vec::new();
        let mut i: usize = 0;
        while i < self.genes.len()
            invariant
                i <= self.genes@.len(),
                (genes@, rng.state) == replicate_upto(
                    self.genes@,
                    i as int,
                    mut_p,
                    insert_p,
                    old(rng).state,
                ),
            decreases self.genes@.len() - i,
        {
            let mut gene: Gene = self.genes[i];
            if rng.chance(mut_p) {
                gene = gene.mutated(rng);
            }
            genes.push(gene);
            if rng.chance(insert_p) {
                let extra: Gene = Gene::random(rng);
                genes.push(extra);
            }
            i = i + 1;
        }
        proof {
            let n: int = self.genes@.len() as int;
            let seed: u64 = old(rng).state;
            lemma_replicate_length(self.genes@, n, mut_p, insert_p, seed);
            if mut_p == 0 && insert_p == 0 {
                lemma_replicate_faithful(self.genes@, n, seed);
                assert(self.genes@.take(n) =~= self.genes@);
            }
            if insert_p == 0 {
                lemma_replicate_keeps_shape(self.genes@, n, mut_p, seed);
            }
            if insert_p >= PPM {
                lemma_replicate_doubles(self.genes@, n, mut_p, insert_p, seed);
            }
        }
        Genome { genes }
    }
}

} // verus!
