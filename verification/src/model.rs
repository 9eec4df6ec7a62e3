//! The world as a mathematical value, and one tick as a function on it.
//!
//! Everything a tick does is written here as a function from world to world.
//! The executable world in `world` is proved to compute exactly these
//! functions.

use crate::action::Action;
use crate::config::{
    Parameters, SimState, INITIAL_ENERGY, INSERTION_PPM, METABOLISM_COST, MUTATION_PPM,
    PELLET_ENERGY, REPLICATION_THRESHOLD,
};
use crate::coord::Coord;
use crate::dir::{Dir, N_DIRS};
use crate::gene::UNIT;
use crate::genome::{fresh_genes, replicate_spec};
use crate::grid::{CellType, GridView};
use crate::ns::NsView;
use crate::organism::{OrganismView, REPLICATION_COST};
use crate::rng::{rng_advance, rng_below};
use vstd::prelude::*;

verus! {

/// The energy of the first `n` organisms together.
pub open spec fn energy_sum(orgs: Seq<OrganismView>, n: int) -> int
    decreases n,
{
    if n <= 0 {
        0
    } else {
        energy_sum(orgs, n - 1) + orgs[n - 1].energy
    }
}

/// Replacing one organism changes the sum by the difference of the energies.
pub proof fn lemma_energy_update(orgs: Seq<OrganismView>, i: int, org: OrganismView, n: int)
    requires
        0 <= i < orgs.len(),
        0 <= n <= orgs.len(),
    ensures
        energy_sum(orgs.update(i, org), n) == energy_sum(orgs, n) + (if i < n {
            org.energy - orgs[i].energy
        } else {
            0
        }),
    decreases n,
{
    if n > 0 {
        lemma_energy_update(orgs, i, org, n - 1);
    }
}

/// An organism put at the end of the table leaves the sums before it as they
/// are.
pub proof fn lemma_energy_push_prefix(orgs: Seq<OrganismView>, org: OrganismView, n: int)
    requires
        0 <= n <= orgs.len(),
    ensures
        energy_sum(orgs.push(org), n) == energy_sum(orgs, n),
    decreases n,
{
    if n > 0 {
        lemma_energy_push_prefix(orgs, org, n - 1);
    }
}

/// An organism put at the end of the table adds its energy to the sum.
pub proof fn lemma_energy_push(orgs: Seq<OrganismView>, org: OrganismView)
    ensures
        energy_sum(orgs.push(org), orgs.len() as int + 1) == energy_sum(orgs, orgs.len() as int)
            + org.energy,
{
    lemma_energy_push_prefix(orgs, org, orgs.len() as int);
}

/// Taking an organism out of the table takes its energy out of the sum.
pub proof fn lemma_energy_remove(orgs: Seq<OrganismView>, i: int, n: int)
    requires
        0 <= i < orgs.len(),
        0 <= n < orgs.len(),
    ensures
        energy_sum(orgs.remove(i), n) == if n <= i {
            energy_sum(orgs, n)
        } else {
            energy_sum(orgs, n + 1) - orgs[i].energy
        },
    decreases n,
{
    if n > 0 {
        lemma_energy_remove(orgs, i, n - 1);
        assert(energy_sum(orgs, n + 1) == energy_sum(orgs, n) + orgs[n].energy);
        assert(energy_sum(orgs, n) == energy_sum(orgs, n - 1) + orgs[n - 1].energy);
        assert(energy_sum(orgs.remove(i), n) == energy_sum(orgs.remove(i), n - 1)
            + orgs.remove(i)[n - 1].energy);
    }
}

/// Where every organism has energy, the sums grow along the table and each
/// organism has at most as much as the whole.
pub proof fn lemma_energy_bounds(orgs: Seq<OrganismView>, m: int, n: int)
    requires
        0 <= m <= n <= orgs.len(),
        forall|i: int| 0 <= i < orgs.len() ==> (#[trigger] orgs[i]).energy > 0,
    ensures
        0 <= energy_sum(orgs, m) <= energy_sum(orgs, n),
        m < n ==> energy_sum(orgs, m) + orgs[m].energy <= energy_sum(orgs, n),
    decreases n,
{
    if n > 0 {
        assert(energy_sum(orgs, n) == energy_sum(orgs, n - 1) + orgs[n - 1].energy);
        assert(orgs[n - 1].energy > 0);
        if m < n {
            lemma_energy_bounds(orgs, m, n - 1);
        } else {
            lemma_energy_bounds(orgs, m - 1, n - 1);
        }
    }
}

/// The first cell that holds `kind` among the cells around `c`, tried in the
/// clockwise order of the directions from the direction at place `start + k`
/// and for `9 - k` directions. The direction `Here` is one of the nine, so the
/// cell `c` itself is tried in its turn.
pub open spec fn first_neighbor(
    grid: GridView,
    c: Coord<usize>,
    kind: CellType,
    start: int,
    k: int,
) -> Option<Coord<usize>>
    decreases 9 - k,
{
    if k < 0 || k >= 9 {
        None
    } else {
        let target = c.step_spec(
            Dir::from_index_spec(start + k).delta_spec(),
            grid.width as int,
            grid.height as int,
        );
        if target is Some && grid.at(target->0) == kind {
            target
        } else {
            first_neighbor(grid, c, kind, start, k + 1)
        }
    }
}

/// Puts up to `due` pellets on cells drawn from `spots` without repetition,
/// with the generator in `state`. Gives the grid and the generator's state
/// afterwards.
pub open spec fn scatter(grid: GridView, spots: Seq<Coord<usize>>, state: u64, due: int) -> (
    GridView,
    u64,
)
    decreases due,
{
    if due <= 0 || spots.len() == 0 {
        (grid, state)
    } else {
        let j: int = rng_below(state, spots.len() as u64) as int;
        scatter(
            grid.put(spots[j], CellType::Consumable),
            spots.update(j, spots.last()).drop_last(),
            rng_advance(state),
            due - 1,
        )
    }
}

/// How many pellets `scatter` puts down: as many as are due and as there are
/// cells for.
pub open spec fn scattered(spots: int, due: int) -> int {
    if due <= 0 {
        0
    } else if due <= spots {
        due
    } else {
        spots
    }
}

/// Whether `spots` lists empty cells of `grid`, none of them twice.
pub open spec fn free_spots(grid: GridView, spots: Seq<Coord<usize>>) -> bool {
    &&& forall|j: int|
        0 <= j < spots.len() ==> grid.within(#[trigger] spots[j]) && grid.at(spots[j])
            == CellType::Empty
    &&& forall|j: int, k: int|
        0 <= j < spots.len() && 0 <= k < spots.len() && j != k ==> #[trigger] spots[j]
            != #[trigger] spots[k]
}

/// How many organisms `populated` puts in: as many as asked for and as there
/// are spots for.
pub open spec fn settlers(spots: int, n: int) -> int {
    if n <= spots {
        n
    } else {
        spots
    }
}

/// A world as a mathematical value. The organisms are kept in the order of
/// their ids; `coords[i]` and `ids[i]` belong to `orgs[i]`.
pub struct WorldView {
    pub params: Parameters,
    pub state: SimState,
    pub grid: GridView,
    pub orgs: Seq<OrganismView>,
    pub coords: Seq<Coord<usize>>,
    pub ids: Seq<u64>,
    pub next_id: u64,
    /// The energy that the world keeps up.
    pub budget: i64,
    /// The state of the random source.
    pub rng: u64,
}

impl WorldView {
    /// The energy of all organisms and all pellets.
    pub open spec fn total_energy(self) -> int {
        energy_sum(self.orgs, self.orgs.len() as int) + self.grid.count(CellType::Consumable)
            * PELLET_ENERGY
    }

    /// The grid and the table of organisms agree.
    ///
    /// Every organism stands on a cell of its own that is tagged `Organism`,
    /// and no other cell is tagged so. Every organism has energy left. The ids
    /// grow along the table. The energy in the world does not exceed the
    /// budget.
    #[verifier::opaque]
    pub open spec fn wf(self) -> bool {
        &&& self.params.valid()
        &&& self.grid.wf()
        &&& self.grid.width == self.params.grid_size
        &&& self.grid.height == self.params.grid_size
        &&& self.coords.len() == self.orgs.len()
        &&& self.ids.len() == self.orgs.len()
        &&& forall|i: int|
            0 <= i < self.coords.len() ==> self.grid.within(#[trigger] self.coords[i])
                && self.grid.at(self.coords[i]) == CellType::Organism
        &&& forall|i: int, j: int|
            0 <= i < j < self.coords.len() ==> #[trigger] self.coords[i]
                != #[trigger] self.coords[j]
        &&& self.grid.count(CellType::Organism) == self.orgs.len()
        &&& forall|i: int| 0 <= i < self.orgs.len() ==> (#[trigger] self.orgs[i]).energy > 0
        &&& forall|i: int, j: int|
            0 <= i < j < self.ids.len() ==> #[trigger] self.ids[i] < #[trigger] self.ids[j]
        &&& forall|i: int| 0 <= i < self.ids.len() ==> #[trigger] self.ids[i] < self.next_id
        &&& self.total_energy() <= self.budget
    }

    /// Whether the step from `c` in direction `d` is barred: it leaves the
    /// grid or leads to an organism.
    pub open spec fn blocked(self, c: Coord<usize>, d: Dir) -> bool {
        match c.step_spec(d.delta_spec(), self.grid.width as int, self.grid.height as int) {
            None => true,
            Some(t) => self.grid.at(t) == CellType::Organism,
        }
    }

    /// Whether the step from `c` in direction `d` leads to a pellet.
    pub open spec fn food(self, c: Coord<usize>, d: Dir) -> bool {
        match c.step_spec(d.delta_spec(), self.grid.width as int, self.grid.height as int) {
            None => false,
            Some(t) => self.grid.at(t) == CellType::Consumable,
        }
    }

    /// The sensor reading `k` of the organism `i`.
    ///
    /// Readings 0 to 7 tell for each compass direction whether the step is
    /// barred, readings 8 to 15 whether it leads to a pellet; reading 16 is
    /// the energy, cut off at `UNIT`; reading 17 is always `UNIT`. All further
    /// readings are zero.
    pub open spec fn reading(self, i: int, k: int) -> i32 {
        let c = self.coords[i];
        if 0 <= k < 8 {
            if self.blocked(c, Dir::from_index_spec(k)) {
                UNIT
            } else {
                0
            }
        } else if 8 <= k < 16 {
            if self.food(c, Dir::from_index_spec(k - 8)) {
                UNIT
            } else {
                0
            }
        } else if k == 16 {
            if self.orgs[i].energy >= UNIT {
                UNIT
            } else if self.orgs[i].energy <= 0 {
                0
            } else {
                self.orgs[i].energy as i32
            }
        } else if k == 17 {
            UNIT
        } else {
            0
        }
    }

    /// The sensor vector of the organism `i`: as many readings as the shape has
    /// sensors.
    pub open spec fn sense(self, i: int) -> Seq<i32> {
        Seq::new(self.params.ns_shape.sensor_count as nat, |k: int| self.reading(i, k))
    }

    /// The action that the organism `i` decides on.
    pub open spec fn decide(self, i: int) -> Action {
        NsView::decode(self.orgs[i].genome, self.params.ns_shape).decide(self.sense(i))
    }

    /// The world after the organism `i` has tried to step in direction `d`.
    ///
    /// Nothing changes where the step leaves the grid or leads to an organism
    /// (to the organism itself for `Here`). Otherwise the organism leaves its
    /// cell empty and takes the other; a pellet there is eaten.
    pub open spec fn moved(self, i: int, d: Dir) -> WorldView {
        match self.coords[i].step_spec(
            d.delta_spec(),
            self.grid.width as int,
            self.grid.height as int,
        ) {
            None => self,
            Some(t) => {
                if self.grid.at(t) == CellType::Organism {
                    self
                } else {
                    WorldView {
                        grid: self.grid.put(self.coords[i], CellType::Empty).put(
                            t,
                            CellType::Organism,
                        ),
                        coords: self.coords.update(i, t),
                        orgs: if self.grid.at(t) == CellType::Consumable {
                            self.orgs.update(i, self.orgs[i].gain(PELLET_ENERGY as int))
                        } else {
                            self.orgs
                        },
                        ..self
                    }
                }
            },
        }
    }

    /// The world after the organism `i` has tried to eat: it takes the pellet
    /// from the first neighbouring cell that has one, in the clockwise order
    /// from north, and stays where it is.
    pub open spec fn fed(self, i: int) -> WorldView {
        match first_neighbor(self.grid, self.coords[i], CellType::Consumable, 0, 0) {
            None => self,
            Some(t) => WorldView {
                grid: self.grid.put(t, CellType::Empty),
                orgs: self.orgs.update(i, self.orgs[i].gain(PELLET_ENERGY as int)),
                ..self
            },
        }
    }

    /// Whether the organism `i` may replicate: it has more energy than the
    /// threshold, the population is below its cap and an id is left.
    pub open spec fn may_replicate(self, i: int) -> bool {
        &&& self.orgs[i].energy > REPLICATION_THRESHOLD
        &&& self.orgs.len() < self.params.n_max_entities
        &&& self.next_id < u64::MAX
    }

    /// The world after the organism `i` has put a child on the cell `t`: the
    /// parent pays the child's energy, the child gets the next id and the last
    /// place of the table, and the random source has made the draws of the
    /// child's genome.
    pub open spec fn born(self, i: int, t: Coord<usize>) -> WorldView {
        WorldView {
            grid: self.grid.put(t, CellType::Organism),
            orgs: self.orgs.update(i, self.orgs[i].gain(-REPLICATION_COST)).push(
                self.orgs[i].child(MUTATION_PPM, INSERTION_PPM, self.rng),
            ),
            coords: self.coords.push(t),
            ids: self.ids.push(self.next_id),
            next_id: (self.next_id + 1) as u64,
            rng: replicate_spec(self.orgs[i].genome, MUTATION_PPM, INSERTION_PPM, self.rng).1,
            ..self
        }
    }

    /// The world after the organism `i` has paid for a child that found no
    /// cell: the energy is gone from the organism and from the world.
    pub open spec fn charged(self, i: int) -> WorldView {
        WorldView { orgs: self.orgs.update(i, self.orgs[i].gain(-REPLICATION_COST)), ..self }
    }

    /// The cell that a child of the organism `i` would go to: a direction is
    /// drawn, and the first empty neighbouring cell in the clockwise order from
    /// there is taken.
    pub open spec fn nursery(self, i: int) -> Option<Coord<usize>> {
        first_neighbor(
            self.grid,
            self.coords[i],
            CellType::Empty,
            rng_below(self.rng, N_DIRS) as int,
            0,
        )
    }

    /// The world after the organism `i` has tried to replicate.
    ///
    /// Where it may not, nothing changes. Otherwise a direction is drawn, and
    /// the child goes to the first empty neighbouring cell in the clockwise
    /// order from there. Where there is none, the attempt fails: no child is
    /// born, but the parent has paid all the same.
    pub open spec fn bred(self, i: int) -> WorldView {
        if !self.may_replicate(i) {
            self
        } else {
            let drawn = WorldView { rng: rng_advance(self.rng), ..self };
            match self.nursery(i) {
                None => drawn.charged(i),
                Some(t) => drawn.born(i, t),
            }
        }
    }

    /// The energy that leaves the world when the organism `i` carries out
    /// `action`: the price of a child where a replication finds no cell for
    /// it, and nothing otherwise.
    pub open spec fn waste(self, i: int, action: Action) -> int {
        if action == Action::Replicate && self.may_replicate(i) && self.nursery(i) is None {
            REPLICATION_COST as int
        } else {
            0
        }
    }

    /// The world after the organism `i` has carried out `action`.
    pub open spec fn apply(self, i: int, action: Action) -> WorldView {
        match action {
            Action::Move(d) => self.moved(i, d),
            Action::Stay => self,
            Action::Eat => self.fed(i),
            Action::Replicate => self.bred(i),
        }
    }

    /// Whether the organism `i` dies at the end of its tick: the upkeep leaves
    /// it no energy, or it has reached the lifespan.
    pub open spec fn dies(self, i: int) -> bool {
        self.orgs[i].energy - METABOLISM_COST <= 0 || self.orgs[i].age
            >= self.params.average_lifespan
    }

    /// The world after the organism `i` has paid its upkeep and grown a tick
    /// older, or has died and left its cell empty.
    pub open spec fn settled(self, i: int) -> WorldView {
        if self.dies(i) {
            WorldView {
                grid: self.grid.put(self.coords[i], CellType::Empty),
                orgs: self.orgs.remove(i),
                coords: self.coords.remove(i),
                ids: self.ids.remove(i),
                ..self
            }
        } else {
            WorldView {
                orgs: self.orgs.update(i, self.orgs[i].gain(-METABOLISM_COST).aged()),
                ..self
            }
        }
    }

    /// The world after the whole tick of the organism `i`: it senses, decides,
    /// acts and settles.
    #[verifier::opaque]
    pub open spec fn ticked(self, i: int) -> WorldView {
        self.apply(i, self.decide(i)).settled(i)
    }

    /// Whether the organism `i` dies in its tick.
    #[verifier::opaque]
    pub open spec fn dies_in_tick(self, i: int) -> bool {
        self.apply(i, self.decide(i)).dies(i)
    }

    /// The world after the ticks of `remaining` organisms, starting with the
    /// organism at place `i` of the table. Children are put at the end of the
    /// table and have their first tick in the next round.
    pub open spec fn run(self, i: int, remaining: nat) -> WorldView
        decreases remaining,
    {
        if remaining == 0 {
            self
        } else {
            let next: int = if self.dies_in_tick(i) {
                i
            } else {
                i + 1
            };
            self.ticked(i).run(next, (remaining - 1) as nat)
        }
    }

    /// The energy that leaves the world in the tick of the organism `i`: what
    /// its action wastes, and then the upkeep where the organism lives on, or
    /// all it has left where it dies.
    pub open spec fn loss(self, i: int) -> int {
        self.waste(i, self.decide(i)) + if self.dies_in_tick(i) {
            self.apply(i, self.decide(i)).orgs[i].energy as int
        } else {
            METABOLISM_COST as int
        }
    }

    /// The energy that leaves the world in the ticks of `remaining`
    /// organisms, starting with the organism at place `i` of the table.
    pub open spec fn spent(self, i: int, remaining: nat) -> int
        decreases remaining,
    {
        if remaining == 0 {
            0
        } else {
            let next: int = if self.dies_in_tick(i) {
                i
            } else {
                i + 1
            };
            self.loss(i) + self.ticked(i).spent(next, (remaining - 1) as nat)
        }
    }

    /// The energy that the actions waste in the ticks of `remaining`
    /// organisms, starting with the organism at place `i` of the table.
    pub open spec fn wasted(self, i: int, remaining: nat) -> int
        decreases remaining,
    {
        if remaining == 0 {
            0
        } else {
            let next: int = if self.dies_in_tick(i) {
                i
            } else {
                i + 1
            };
            self.waste(i, self.decide(i)) + self.ticked(i).wasted(next, (remaining - 1) as nat)
        }
    }

    /// How many organisms die in the ticks of `remaining` organisms, starting
    /// with the organism at place `i` of the table.
    pub open spec fn deaths(self, i: int, remaining: nat) -> nat
        decreases remaining,
    {
        if remaining == 0 {
            0
        } else if self.dies_in_tick(i) {
            1 + self.ticked(i).deaths(i, (remaining - 1) as nat)
        } else {
            self.ticked(i).deaths(i + 1, (remaining - 1) as nat)
        }
    }

    /// How many pellets the world owes: as many as fit into the gap between
    /// the budget and the energy that is there.
    pub open spec fn pellets_due(self) -> int {
        (self.budget - self.total_energy()) / (PELLET_ENERGY as int)
    }

    /// The world after the energy that is missing has been handed back as
    /// pellets on random empty cells, as far as there are empty cells.
    pub open spec fn reconciled(self) -> WorldView {
        let (grid, rng) = scatter(
            self.grid,
            self.grid.coords_of(CellType::Empty),
            self.rng,
            self.pellets_due(),
        );
        WorldView { grid, rng, ..self }
    }

    /// A world without organisms and pellets.
    pub open spec fn blank(params: Parameters, seed: u64) -> WorldView {
        WorldView {
            params,
            state: SimState::initial(),
            grid: GridView::blank(params.grid_size as nat, params.grid_size as nat),
            orgs: Seq::empty(),
            coords: Seq::empty(),
            ids: Seq::empty(),
            next_id: 0,
            budget: 0,
            rng: seed,
        }
    }

    /// Whether `org` can be put on the cell `c`: the cell is an empty cell of
    /// the grid, the organism has energy, an id is left, and the budget can
    /// grow by the organism's energy.
    pub open spec fn admits(self, org: OrganismView, c: Coord<usize>) -> bool {
        &&& self.grid.within(c)
        &&& self.grid.at(c) == CellType::Empty
        &&& org.energy > 0
        &&& self.next_id < u64::MAX
        &&& self.budget + org.energy <= i64::MAX
    }

    /// The world with `org` on the cell `c`. The budget grows by the energy of
    /// the organism.
    pub open spec fn with_organism(self, org: OrganismView, c: Coord<usize>) -> WorldView {
        WorldView {
            grid: self.grid.put(c, CellType::Organism),
            orgs: self.orgs.push(org),
            coords: self.coords.push(c),
            ids: self.ids.push(self.next_id),
            next_id: (self.next_id + 1) as u64,
            budget: (self.budget + org.energy) as i64,
            ..self
        }
    }

    /// Whether a pellet can be put on the cell `c`.
    pub open spec fn admits_pellet(self, c: Coord<usize>) -> bool {
        &&& self.grid.within(c)
        &&& self.grid.at(c) == CellType::Empty
        &&& self.budget + PELLET_ENERGY <= i64::MAX
    }

    /// The world with a pellet on the cell `c`. The budget grows by the energy
    /// of the pellet.
    pub open spec fn with_pellet(self, c: Coord<usize>) -> WorldView {
        WorldView {
            grid: self.grid.put(c, CellType::Consumable),
            budget: (self.budget + PELLET_ENERGY) as i64,
            ..self
        }
    }

    /// The world after up to `n` fresh organisms have been put on cells drawn
    /// from `spots` without repetition. Each takes one draw for its cell and
    /// then the draws of its genome.
    pub open spec fn populated(self, spots: Seq<Coord<usize>>, n: nat) -> WorldView
        decreases n,
    {
        if n == 0 || spots.len() == 0 {
            self
        } else {
            let j: int = rng_below(self.rng, spots.len() as u64) as int;
            let s1: u64 = rng_advance(self.rng);
            let (genome, s2) = fresh_genes(self.params.genome_len as nat, s1);
            let org = OrganismView { genome, species: 0, age: 0, energy: INITIAL_ENERGY };
            (WorldView { rng: s2, ..self }).with_organism(org, spots[j]).populated(
                spots.update(j, spots.last()).drop_last(),
                (n - 1) as nat,
            )
        }
    }

    /// The world at the start of a run: the initial organisms on random
    /// cells, and as much energy again in pellets.
    pub open spec fn genesis(params: Parameters, seed: u64) -> WorldView {
        let empty = WorldView::blank(params, seed);
        let settled = empty.populated(
            empty.grid.coords_of(CellType::Empty),
            params.n_initial_entities as nat,
        );
        (WorldView { budget: (2 * settled.budget) as i64, ..settled }).reconciled()
    }

    /// The world after a reset: built anew from its options and the current
    /// state of its random source. The pause and the speed stay as they are.
    pub open spec fn renewed(self) -> WorldView {
        let fresh = WorldView::genesis(self.params, self.rng);
        WorldView {
            state: SimState { paused: self.state.paused, reset: false, epoch: 0, ..self.state },
            ..fresh
        }
    }

    /// The world after one step. A pending reset rebuilds the world; a paused
    /// world stays as it is; otherwise every organism has its tick, in the
    /// order of the table, and the missing energy comes back as pellets.
    pub open spec fn stepped(self) -> WorldView {
        if self.state.reset {
            self.renewed()
        } else if self.state.paused {
            self
        } else {
            self.run(0, self.orgs.len()).reconciled()
        }
    }
}

} // verus!
