//! The world: the grid, the table of organisms and the random source, and the
//! tick that moves them on.

use crate::action::Action;
use crate::config::{
    Parameters, Pellet, SimState, Speed, INITIAL_ENERGY, INSERTION_PPM, METABOLISM_COST,
    MUTATION_PPM, PELLET_ENERGY, REPLICATION_THRESHOLD,
};
use crate::coord::Coord;
use crate::dir::{sample_direction, Dir};
use crate::gene::UNIT;
use crate::grid::{lemma_coords_of, lemma_count_bound, CellType, Grid};
use crate::laws::{
    lemma_apply, lemma_blank, lemma_born, lemma_budget_raised, lemma_charged,
    lemma_fed,
    lemma_first_neighbor, lemma_genesis, lemma_moved, lemma_populated, lemma_reconciled,
    lemma_room_to_eat, lemma_settled, lemma_spot_taken, lemma_stepped, lemma_ticked,
    lemma_wf_basics, lemma_wf_frame, lemma_wf_resident, lemma_with_organism, lemma_with_pellet,
};
use crate::model::{
    energy_sum, first_neighbor, free_spots, scatter, scattered, settlers, WorldView,
};
use crate::ns::NS;
use crate::organism::{Organism, OrganismView, REPLICATION_COST};
use crate::rng::{rng_advance, rng_below, Rng};
use vstd::prelude::*;

verus! {

/// The organisms of a table as mathematical values.
pub open spec fn org_views(orgs: Seq<Organism>) -> Seq<OrganismView> {
    orgs.map_values(|o: Organism| o@)
}

/// The simulation: everything that a tick reads and writes.
///
/// The organisms stand in a table in the order of their ids. The grid tells
/// of every cell whether it holds an organism, a pellet or nothing.
#[derive(Debug)]
pub struct World {
    params: Parameters,
    state: SimState,
    grid: Grid,
    orgs: Vec<Organism>,
    coords: Vec<Coord<usize>>,
    ids: Vec<u64>,
    next_id: u64,
    budget: i64,
    rng: Rng,
}

impl View for World {
    type V = WorldView;

    closed spec fn view(&self) -> WorldView {
        WorldView {
            params: self.params,
            state: self.state,
            grid: self.grid@,
            orgs: org_views(self.orgs@),
            coords: self.coords@,
            ids: self.ids@,
            next_id: self.next_id,
            budget: self.budget,
            rng: self.rng.state,
        }
    }
}

impl World {
    /// The grid and the table of organisms agree, and the energy in the world
    /// does not exceed the budget.
    pub open spec fn wf(&self) -> bool {
        self@.wf()
    }

    /// A world without organisms and pellets.
    pub fn blank(params: Parameters, seed: u64) -> (world: World)
        requires
            params.valid(),
        ensures
            world.wf(),
            world@ == WorldView::blank(params, seed),
    {
        let grid: Grid = Grid::new(params.grid_size, params.grid_size);
        let world = World {
            params,
            state: SimState::new(),
            grid,
            orgs: Vec::new(),
            coords: Vec::new(),
            ids: Vec::new(),
            next_id: 0,
            budget: 0,
            rng: Rng::new(seed),
        };
        proof {
            lemma_blank(params, seed);
            assert(world@.orgs =~= Seq::<OrganismView>::empty());
            assert(world@.coords =~= Seq::<Coord<usize>>::empty());
            assert(world@.ids =~= Seq::<u64>::empty());
        }
        world
    }

    /// The options that the world was built from.
    pub fn params(&self) -> (params: Parameters)
        ensures
            params == self@.params,
    {
        self.params
    }

    /// The control state.
    pub fn state(&self) -> (state: SimState)
        ensures
            state == self@.state,
    {
        self.state
    }

    /// The epoch counter.
    pub fn epoch(&self) -> (epoch: usize)
        ensures
            epoch == self@.state.epoch,
    {
        self.state.epoch
    }

    /// Whether the world is paused.
    pub fn paused(&self) -> (paused: bool)
        ensures
            paused == self@.state.paused,
    {
        self.state.paused
    }

    /// The number of organisms.
    pub fn population(&self) -> (n: usize)
        ensures
            n == self@.orgs.len(),
    {
        self.orgs.len()
    }

    /// The grid.
    pub fn grid(&self) -> (grid: &Grid)
        ensures
            grid@ == self@.grid,
    {
        &self.grid
    }

    /// The organism at place `i` of the table.
    pub fn organism(&self, i: usize) -> (org: &Organism)
        requires
            i < self@.orgs.len(),
        ensures
            org@ == self@.orgs[i as int],
    {
        &self.orgs[i]
    }

    /// The cell of the organism at place `i` of the table.
    pub fn coord(&self, i: usize) -> (coord: Coord<usize>)
        requires
            self.wf(),
            i < self@.orgs.len(),
        ensures
            coord == self@.coords[i as int],
    {
        proof {
            lemma_wf_basics(self@);
        }
        self.coords[i]
    }

    /// The id of the organism at place `i` of the table.
    pub fn id(&self, i: usize) -> (id: u64)
        requires
            self.wf(),
            i < self@.orgs.len(),
        ensures
            id == self@.ids[i as int],
    {
        proof {
            lemma_wf_basics(self@);
        }
        self.ids[i]
    }

    /// The energy that the world keeps up.
    pub fn budget(&self) -> (budget: i64)
        ensures
            budget == self@.budget,
    {
        self.budget
    }

    /// The state of the random source.
    pub fn rng_state(&self) -> (state: u64)
        ensures
            state == self@.rng,
    {
        self.rng.state
    }

    /// The energy of all organisms together.
    pub fn organism_energy(&self) -> (sum: i64)
        requires
            self.wf(),
        ensures
            sum == energy_sum(self@.orgs, self@.orgs.len() as int),
            0 <= sum <= self@.total_energy(),
    {
        let mut sum: i64 = 0;
        let mut i: usize = 0;
        proof {
            lemma_wf_basics(self@);
        }
        while i < self.orgs.len()
            invariant
                self.wf(),
                i <= self.orgs@.len(),
                sum == energy_sum(self@.orgs, i as int),
                energy_sum(self@.orgs, self@.orgs.len() as int) <= i64::MAX,
            decreases self.orgs@.len() - i,
        {
            proof {
                lemma_wf_resident(self@, i as int);
            }
            sum = sum + self.orgs[i].energy;
            i = i + 1;
        }
        sum
    }

    /// The energy of all organisms and all pellets.
    pub fn total_energy(&self) -> (total: i64)
        requires
            self.wf(),
        ensures
            total == self@.total_energy(),
            0 <= total <= self@.budget,
    {
        proof {
            lemma_wf_basics(self@);
        }
        let sum: i64 = self.organism_energy();
        let pellets: usize = self.grid.count(CellType::Consumable);
        assert(0 <= pellets * PELLET_ENERGY <= i64::MAX && pellets <= i64::MAX) by (nonlinear_arith)
            requires
                0 <= sum,
                sum + pellets * PELLET_ENERGY <= i64::MAX,
                PELLET_ENERGY == 200,
        ;
        sum + (pellets as i64) * PELLET_ENERGY
    }

    /// The pellets on the grid, row by row.
    pub fn pellets(&self) -> (pellets: Vec<Pellet>)
        requires
            self.wf(),
        ensures
            pellets@.len() == self@.grid.count(CellType::Consumable),
            forall|j: int|
                0 <= j < pellets@.len() ==> (#[trigger] pellets@[j]).coord
                    == self@.grid.coords_of(CellType::Consumable)[j] && pellets@[j].energy
                    == PELLET_ENERGY,
    {
        proof {
            lemma_wf_basics(self@);
        }
        let coords: Vec<Coord<usize>> = self.grid.get_cell_coords(CellType::Consumable);
        let mut pellets: Vec<Pellet> = Vec::new();
        let mut j: usize = 0;
        while j < coords.len()
            invariant
                j <= coords@.len(),
                pellets@.len() == j,
                forall|k: int|
                    0 <= k < j ==> (#[trigger] pellets@[k]).coord == coords@[k] && pellets@[k].energy
                        == PELLET_ENERGY,
            decreases coords@.len() - j,
        {
            pellets.push(Pellet { coord: coords[j], energy: PELLET_ENERGY });
            j = j + 1;
        }
        pellets
    }

    /// Flips the pause.
    pub fn toggle_pause(&mut self)
        ensures
            final(self)@ == (WorldView {
                state: SimState { paused: !old(self)@.state.paused, ..old(self)@.state },
                ..old(self)@
            }),
            old(self).wf() ==> final(self).wf(),
    {
        self.state.paused = !self.state.paused;
        proof {
            if old(self).wf() {
                lemma_wf_frame(old(self)@, self@);
            }
        }
    }

    /// Asks for a reset: the next step rebuilds the world.
    pub fn request_reset(&mut self)
        ensures
            final(self)@ == (WorldView {
                state: SimState { reset: true, ..old(self)@.state },
                ..old(self)@
            }),
            old(self).wf() ==> final(self).wf(),
    {
        self.state.reset = true;
        proof {
            if old(self).wf() {
                lemma_wf_frame(old(self)@, self@);
            }
        }
    }

    /// Selects a preset of the tick timer.
    pub fn set_speed(&mut self, speed: Speed)
        ensures
            final(self)@ == (WorldView {
                state: SimState { speed, ..old(self)@.state },
                ..old(self)@
            }),
            old(self).wf() ==> final(self).wf(),
    {
        self.state.speed = speed;
        proof {
            if old(self).wf() {
                lemma_wf_frame(old(self)@, self@);
            }
        }
    }

    /// Moves the epoch counter on by one. A paused world keeps its epoch, and
    /// the counter stops at the largest number.
    pub fn advance_epoch(&mut self)
        ensures
            final(self)@ == (WorldView {
                state: SimState {
                    epoch: if old(self)@.state.paused || old(self)@.state.epoch == usize::MAX {
                        old(self)@.state.epoch
                    } else {
                        (old(self)@.state.epoch + 1) as usize
                    },
                    ..old(self)@.state
                },
                ..old(self)@
            }),
            old(self).wf() ==> final(self).wf(),
    {
        if !self.state.paused && self.state.epoch < usize::MAX {
            self.state.epoch = self.state.epoch + 1;
        }
        proof {
            if old(self).wf() {
                lemma_wf_frame(old(self)@, self@);
            }
        }
    }

    /// Puts `org` on the cell `coord` and gives it the next id, where the
    /// world admits it; the budget grows by the energy of the organism.
    /// Otherwise nothing changes.
    pub fn insert_organism(&mut self, org: Organism, coord: Coord<usize>) -> (id: Option<u64>)
        requires
            old(self).wf(),
        ensures
            final(self).wf(),
            id is Some <==> old(self)@.admits(org@, coord),
            id matches Some(n) ==> n == old(self)@.next_id && final(self)@ == old(self)@.with_organism(org@, coord),
            id is None ==> final(self)@ == old(self)@,
    {
        proof {
            lemma_wf_basics(self@);
        }
        if !self.grid.in_bounds(coord) {
            return None;
        }
        if self.grid.get(coord) != CellType::Empty || org.energy <= 0 || self.next_id == u64::MAX
            || self.budget > i64::MAX - org.energy {
            return None;
        }
        proof {
            lemma_with_organism(self@, org@, coord);
        }
        let id: u64 = self.next_id;
        self.grid.set(coord, CellType::Organism);
        self.budget = self.budget + org.energy;
        self.orgs.push(org);
        self.coords.push(coord);
        self.ids.push(id);
        self.next_id = id + 1;
        proof {
            assert(self@.orgs =~= old(self)@.orgs.push(org@));
            assert(self@ == old(self)@.with_organism(org@, coord));
        }
        Some(id)
    }

    /// Puts a pellet on the cell `coord`, where the world admits it; the
    /// budget grows by the energy of the pellet. Otherwise nothing changes.
    pub fn insert_pellet(&mut self, coord: Coord<usize>) -> (done: bool)
        requires
            old(self).wf(),
        ensures
            final(self).wf(),
            done == old(self)@.admits_pellet(coord),
            done ==> final(self)@ == old(self)@.with_pellet(coord),
            !done ==> final(self)@ == old(self)@,
    {
        proof {
            lemma_wf_basics(self@);
        }
        if !self.grid.in_bounds(coord) {
            return false;
        }
        if self.grid.get(coord) != CellType::Empty || self.budget > i64::MAX - PELLET_ENERGY {
            return false;
        }
        proof {
            lemma_with_pellet(self@, coord);
        }
        self.grid.set(coord, CellType::Consumable);
        self.budget = self.budget + PELLET_ENERGY;
        true
    }

    /// The sensor reading `k` of the organism at place `i` of the table.
    pub fn reading(&self, i: usize, k: usize) -> (value: i32)
        requires
            self.wf(),
            i < self@.orgs.len(),
        ensures
            value == self@.reading(i as int, k as int),
            0 <= value <= UNIT,
    {
        proof {
            lemma_wf_basics(self@);
            lemma_wf_resident(self@, i as int);
        }
        let c: Coord<usize> = self.coords[i];
        if k < 16 {
            let d: Dir = if k < 8 {
                Dir::from_index(k as u64)
            } else {
                Dir::from_index((k - 8) as u64)
            };
            let target: Option<Coord<usize>> = c.step(
                d.delta(),
                self.grid.width(),
                self.grid.height(),
            );
            let hit: bool = match target {
                None => k < 8,
                Some(t) => {
                    let kind: CellType = self.grid.get(t);
                    if k < 8 {
                        kind == CellType::Organism
                    } else {
                        kind == CellType::Consumable
                    }
                },
            };
            if hit {
                UNIT
            } else {
                0
            }
        } else if k == 16 {
            let energy: i64 = self.orgs[i].energy;
            if energy >= UNIT as i64 {
                UNIT
            } else if energy <= 0 {
                0
            } else {
                energy as i32
            }
        } else if k == 17 {
            UNIT
        } else {
            0
        }
    }

    /// The sensor vector of the organism at place `i` of the table.
    pub fn sense(&self, i: usize) -> (sensors: Vec<i32>)
        requires
            self.wf(),
            i < self@.orgs.len(),
        ensures
            sensors@ == self@.sense(i as int),
            sensors@.len() == self@.params.ns_shape.sensor_count,
    {
        let mut sensors: Vec<i32> = Vec::new();
        let mut k: usize = 0;
        while k < self.params.ns_shape.sensor_count
            invariant
                self.wf(),
                i < self@.orgs.len(),
                k <= self.params.ns_shape.sensor_count,
                sensors@.len() == k,
                forall|j: int| 0 <= j < k ==> #[trigger] sensors@[j] == self@.reading(i as int, j),
            decreases self.params.ns_shape.sensor_count - k,
        {
            let value: i32 = self.reading(i, k);
            sensors.push(value);
            k = k + 1;
        }
        assert(sensors@ =~= self@.sense(i as int));
        sensors
    }

    /// The action that the organism at place `i` of the table decides on: its
    /// genome is decoded into a controller, which is run on what the organism
    /// senses.
    pub fn decide(&self, i: usize) -> (action: Action)
        requires
            self.wf(),
            i < self@.orgs.len(),
        ensures
            action == self@.decide(i as int),
    {
        let sensors: Vec<i32> = self.sense(i);
        let ns: NS = NS::decode(&self.orgs[i].genome, self.params.ns_shape);
        ns.decide(&sensors)
    }

    /// The first cell around `c` that holds `kind`, tried in the clockwise
    /// order of all nine directions from the direction at place `start`; the
    /// cell `c` itself is tried in the turn of `Here`.
    pub fn find_neighbor(&self, c: Coord<usize>, kind: CellType, start: u8) -> (found: Option<
        Coord<usize>,
    >)
        requires
            self.wf(),
        ensures
            found == first_neighbor(self@.grid, c, kind, start as int, 0),
            found matches Some(t) ==> self@.grid.within(t) && self@.grid.at(t) == kind,
    {
        proof {
            lemma_wf_basics(self@);
            lemma_first_neighbor(self@.grid, c, kind, start as int, 0);
        }
        let mut k: u8 = 0;
        while k < 9
            invariant
                self.grid.wf(),
                k <= 9,
                first_neighbor(self@.grid, c, kind, start as int, k as int) == first_neighbor(
                    self@.grid,
                    c,
                    kind,
                    start as int,
                    0,
                ),
            decreases 9 - k,
        {
            let d: Dir = Dir::from_index(start as u64 + k as u64);
            let target: Option<Coord<usize>> = c.step(
                d.delta(),
                self.grid.width(),
                self.grid.height(),
            );
            match target {
                Some(t) => {
                    if self.grid.get(t) == kind {
                        return Some(t);
                    }
                },
                None => {},
            }
            k = k + 1;
        }
        None
    }

    /// The organism at place `i` of the table tries to step in direction `d`.
    /// The step fails, and nothing changes, where it leaves the grid or leads
    /// to an organism. Otherwise the organism takes the cell and eats the
    /// pellet that may lie there.
    pub fn move_organism(&mut self, i: usize, d: Dir) -> (went: bool)
        requires
            old(self).wf(),
            i < old(self)@.orgs.len(),
        ensures
            final(self).wf(),
            final(self)@ == old(self)@.moved(i as int, d),
            went <==> final(self)@.coords[i as int] != old(self)@.coords[i as int],
            went ==> old(self)@.coords[i as int].is_step_to(
                d.delta_spec(),
                final(self)@.coords[i as int],
            ),
            final(self)@.total_energy() == old(self)@.total_energy(),
    {
        proof {
            lemma_wf_basics(self@);
            lemma_wf_resident(self@, i as int);
            lemma_moved(self@, i as int, d);
        }
        let c: Coord<usize> = self.coords[i];
        let target: Option<Coord<usize>> = c.step(d.delta(), self.grid.width(), self.grid.height());
        match target {
            None => false,
            Some(t) => {
                let kind: CellType = self.grid.get(t);
                if kind == CellType::Organism {
                    false
                } else {
                    if kind == CellType::Consumable {
                        proof {
                            lemma_room_to_eat(self@, i as int, t);
                        }
                        self.orgs[i].add_energy(PELLET_ENERGY);
                    }
                    self.grid.set(c, CellType::Empty);
                    self.grid.set(t, CellType::Organism);
                    self.coords.set(i, t);
                    proof {
                        if kind == CellType::Consumable {
                            assert(self@.orgs =~= old(self)@.orgs.update(
                                i as int,
                                old(self)@.orgs[i as int].gain(PELLET_ENERGY as int),
                            ));
                        } else {
                            assert(self@.orgs =~= old(self)@.orgs);
                        }
                        assert(self@ == old(self)@.moved(i as int, d));
                    }
                    true
                }
            },
        }
    }

    /// The organism at place `i` of the table tries to eat: it takes the
    /// pellet from the first neighbouring cell that has one, in the clockwise
    /// order from north.
    pub fn feed(&mut self, i: usize) -> (ate: bool)
        requires
            old(self).wf(),
            i < old(self)@.orgs.len(),
        ensures
            final(self).wf(),
            final(self)@ == old(self)@.fed(i as int),
            ate <==> first_neighbor(
                old(self)@.grid,
                old(self)@.coords[i as int],
                CellType::Consumable,
                0,
                0,
            ) is Some,
            ate ==> final(self)@.orgs[i as int].energy == old(self)@.orgs[i as int].energy
                + PELLET_ENERGY,
            final(self)@.total_energy() == old(self)@.total_energy(),
    {
        proof {
            lemma_wf_basics(self@);
            lemma_wf_resident(self@, i as int);
            lemma_fed(self@, i as int);
        }
        let c: Coord<usize> = self.coords[i];
        match self.find_neighbor(c, CellType::Consumable, 0) {
            None => false,
            Some(t) => {
                proof {
                    lemma_room_to_eat(self@, i as int, t);
                }
                self.orgs[i].add_energy(PELLET_ENERGY);
                self.grid.set(t, CellType::Empty);
                proof {
                    assert(self@.orgs =~= old(self)@.orgs.update(
                        i as int,
                        old(self)@.orgs[i as int].gain(PELLET_ENERGY as int),
                    ));
                    assert(self@ == old(self)@.fed(i as int));
                }
                true
            },
        }
    }

    /// The organism at place `i` of the table puts a child on the empty cell
    /// `t`: the parent pays the child's energy, and the child goes to the end
    /// of the table with the next id.
    pub fn place_child(&mut self, i: usize, t: Coord<usize>)
        requires
            old(self).wf(),
            i < old(self)@.orgs.len(),
            old(self)@.grid.within(t),
            old(self)@.grid.at(t) == CellType::Empty,
            old(self)@.orgs[i as int].energy > REPLICATION_COST,
            old(self)@.next_id < u64::MAX,
        ensures
            final(self).wf(),
            final(self)@ == old(self)@.born(i as int, t),
            final(self)@.orgs.len() == old(self)@.orgs.len() + 1,
            final(self)@.total_energy() == old(self)@.total_energy(),
    {
        proof {
            lemma_wf_basics(self@);
            lemma_born(self@, i as int, t);
        }
        let child: Organism = self.orgs[i].replicate(MUTATION_PPM, INSERTION_PPM, &mut self.rng);
        let id: u64 = self.next_id;
        self.grid.set(t, CellType::Organism);
        self.orgs.push(child);
        self.coords.push(t);
        self.ids.push(id);
        self.next_id = id + 1;
        proof {
            let parent = old(self)@.orgs[i as int];
            assert(self@.orgs =~= old(self)@.orgs.update(
                i as int,
                parent.gain(-REPLICATION_COST),
            ).push(parent.child(MUTATION_PPM, INSERTION_PPM, old(self)@.rng)));
        }
    }

    /// The organism at place `i` of the table pays the price of a child
    /// without getting one.
    pub fn charge(&mut self, i: usize)
        requires
            old(self).wf(),
            i < old(self)@.orgs.len(),
            old(self)@.orgs[i as int].energy > REPLICATION_COST,
        ensures
            final(self).wf(),
            final(self)@ == old(self)@.charged(i as int),
            final(self)@.total_energy() == old(self)@.total_energy() - REPLICATION_COST,
    {
        proof {
            lemma_charged(self@, i as int);
        }
        self.orgs[i].sub_energy(REPLICATION_COST);
        proof {
            assert(self@.orgs =~= old(self)@.orgs.update(
                i as int,
                old(self)@.orgs[i as int].gain(-REPLICATION_COST),
            ));
        }
    }

    /// The organism at place `i` of the table looks for a cell for a child,
    /// clockwise from the direction at place `start`. Where an empty
    /// neighbouring cell is found, the child is put there; otherwise the
    /// parent pays without getting a child.
    pub fn nurse(&mut self, i: usize, start: u8) -> (born: bool)
        requires
            old(self).wf(),
            i < old(self)@.orgs.len(),
            old(self)@.orgs[i as int].energy > REPLICATION_COST,
            old(self)@.next_id < u64::MAX,
        ensures
            final(self).wf(),
            born == first_neighbor(
                old(self)@.grid,
                old(self)@.coords[i as int],
                CellType::Empty,
                start as int,
                0,
            ) is Some,
            final(self)@ == (match first_neighbor(
                old(self)@.grid,
                old(self)@.coords[i as int],
                CellType::Empty,
                start as int,
                0,
            ) {
                None => old(self)@.charged(i as int),
                Some(t) => old(self)@.born(i as int, t),
            }),
            born ==> final(self)@.orgs.len() == old(self)@.orgs.len() + 1 && final(self)@.total_energy() == old(self)@.total_energy(),
            !born ==> final(self)@.orgs.len() == old(self)@.orgs.len() && final(self)@.total_energy() == old(self)@.total_energy() - REPLICATION_COST,
    {
        proof {
            lemma_wf_basics(self@);
        }
        let c: Coord<usize> = self.coords[i];
        match self.find_neighbor(c, CellType::Empty, start) {
            None => {
                self.charge(i);
                false
            },
            Some(t) => {
                self.place_child(i, t);
                true
            },
        }
    }

    /// The organism at place `i` of the table tries to replicate. Where it
    /// may and an empty neighbouring cell is found, the child is put there and
    /// at the end of the table, and the parent pays the child's energy. Where
    /// it may but no cell is free, no child is born and the parent pays all
    /// the same: that energy leaves the world. Where it may not, nothing
    /// happens.
    pub fn breed(&mut self, i: usize) -> (born: bool)
        requires
            old(self).wf(),
            i < old(self)@.orgs.len(),
        ensures
            final(self).wf(),
            final(self)@ == old(self)@.bred(i as int),
            born <==> final(self)@.orgs.len() == old(self)@.orgs.len() + 1,
            final(self)@.total_energy() == old(self)@.total_energy() - old(self)@.waste(
                i as int,
                Action::Replicate,
            ),
    {
        proof {
            lemma_wf_basics(self@);
        }
        if self.orgs[i].energy <= REPLICATION_THRESHOLD || self.orgs.len()
            >= self.params.n_max_entities || self.next_id == u64::MAX {
            return false;
        }
        let start: Dir = sample_direction(&mut self.rng);
        proof {
            lemma_wf_frame(old(self)@, self@);
        }
        self.nurse(i, start.index())
    }

    /// The organism at place `i` of the table carries out `action`.
    ///
    /// No energy enters the world, and none leaves it but what a replication
    /// without a free cell wastes. The organism ends where it was or, after a
    /// move, one step in the direction of the move from there.
    pub fn apply_action(&mut self, i: usize, action: Action)
        requires
            old(self).wf(),
            i < old(self)@.orgs.len(),
        ensures
            final(self).wf(),
            final(self)@ == old(self)@.apply(i as int, action),
            final(self)@.total_energy() == old(self)@.total_energy() - old(self)@.waste(
                i as int,
                action,
            ),
            old(self)@.orgs.len() <= final(self)@.orgs.len() <= old(self)@.orgs.len() + 1,
            final(self)@.coords[i as int] == old(self)@.coords[i as int] || (action matches Action::Move(
                d,
            ) && old(self)@.coords[i as int].is_step_to(
                d.delta_spec(),
                final(self)@.coords[i as int],
            )),
    {
        proof {
            lemma_apply(self@, i as int, action);
        }
        match action {
            Action::Move(d) => {
                self.move_organism(i, d);
            },
            Action::Stay => {},
            Action::Eat => {
                self.feed(i);
            },
            Action::Replicate => {
                self.breed(i);
            },
        }
    }

    /// Ends the tick of the organism at place `i` of the table. It dies where
    /// the upkeep leaves it no energy or where it has reached the lifespan:
    /// then it leaves the table and its cell becomes empty. Otherwise it pays
    /// the upkeep and is one tick older.
    pub fn settle(&mut self, i: usize) -> (died: bool)
        requires
            old(self).wf(),
            i < old(self)@.orgs.len(),
        ensures
            final(self).wf(),
            died == old(self)@.dies(i as int),
            final(self)@ == old(self)@.settled(i as int),
            died ==> final(self)@.orgs.len() == old(self)@.orgs.len() - 1 && final(self)@.total_energy() == old(self)@.total_energy() - old(self)@.orgs[i as int].energy,
            !died ==> final(self)@.orgs.len() == old(self)@.orgs.len() && final(self)@.total_energy() == old(self)@.total_energy() - METABOLISM_COST,
    {
        proof {
            lemma_wf_basics(self@);
            lemma_wf_resident(self@, i as int);
            lemma_settled(self@, i as int);
        }
        let died: bool = self.orgs[i].energy - METABOLISM_COST <= 0 || self.orgs[i].age
            >= self.params.average_lifespan;
        if died {
            let c: Coord<usize> = self.coords[i];
            self.grid.set(c, CellType::Empty);
            self.orgs.remove(i);
            self.coords.remove(i);
            self.ids.remove(i);
            proof {
                assert(self@.orgs =~= old(self)@.orgs.remove(i as int));
                assert(self@ == old(self)@.settled(i as int));
            }
        } else {
            self.orgs[i].sub_energy(METABOLISM_COST);
            self.orgs[i].age = self.orgs[i].age + 1;
            proof {
                assert(self@.orgs =~= old(self)@.orgs.update(
                    i as int,
                    old(self)@.orgs[i as int].gain(-METABOLISM_COST).aged(),
                ));
                assert(self@ == old(self)@.settled(i as int));
            }
        }
        died
    }

    /// The whole tick of the organism at place `i` of the table: it senses,
    /// decides, acts and settles. Tells whether the organism died.
    pub fn tick_organism(&mut self, i: usize) -> (died: bool)
        requires
            old(self).wf(),
            i < old(self)@.orgs.len(),
        ensures
            final(self).wf(),
            died == old(self)@.dies_in_tick(i as int),
            final(self)@ == old(self)@.ticked(i as int),
            final(self)@.total_energy() == old(self)@.total_energy() - old(self)@.loss(i as int),
            final(self)@.total_energy() < old(self)@.total_energy(),
            died ==> final(self)@.orgs.len() >= old(self)@.orgs.len() - 1,
            !died ==> final(self)@.orgs.len() >= old(self)@.orgs.len(),
    {
        proof {
            reveal(WorldView::ticked);
            reveal(WorldView::dies_in_tick);
            lemma_ticked(self@, i as int);
        }
        let action: Action = self.decide(i);
        self.apply_action(i, action);
        self.settle(i)
    }

    /// Hands back the energy that is missing as pellets: as many as fit into
    /// the gap between the budget and the energy that is there, each on a
    /// random empty cell, as far as there are empty cells. Tells how many
    /// pellets were put down.
    ///
    /// Afterwards the world holds less than one pellet short of its budget,
    /// or no cell is empty.
    pub fn reconcile(&mut self) -> (placed: usize)
        requires
            old(self).wf(),
        ensures
            final(self).wf(),
            final(self)@ == old(self)@.reconciled(),
            placed == scattered(
                old(self)@.grid.count(CellType::Empty) as int,
                old(self)@.pellets_due(),
            ),
            final(self)@.total_energy() == old(self)@.total_energy() + placed * PELLET_ENERGY,
            final(self)@.total_energy() <= final(self)@.budget,
            final(self)@.budget - final(self)@.total_energy() < PELLET_ENERGY || final(self)@.grid.count(CellType::Empty) == 0,
    {
        proof {
            lemma_wf_basics(self@);
        }
        let total: i64 = self.total_energy();
        let due: i64 = (self.budget - total) / PELLET_ENERGY;
        let mut spots: Vec<Coord<usize>> = self.grid.get_cell_coords(CellType::Empty);
        let mut placed: usize = 0;
        proof {
            lemma_wf_basics(self@);
            lemma_reconciled(self@);
            lemma_coords_of(self@.grid, CellType::Empty);
            lemma_count_bound(
                self@.grid.cells,
                self@.grid.cells.len() as int,
                CellType::Empty,
            );
        }
        let ghost spots0 = spots@;
        while (placed as u64) < due as u64 && spots.len() > 0
            invariant
                self.grid.wf(),
                0 <= due == old(self)@.pellets_due(),
                free_spots(self.grid@, spots@),
                spots@.len() + placed == spots0.len(),
                spots0.len() == old(self)@.grid.count(CellType::Empty),
                spots0.len() <= usize::MAX,
                placed <= due,
                self.params == old(self).params,
                self.state == old(self).state,
                self.orgs == old(self).orgs,
                self.coords == old(self).coords,
                self.ids == old(self).ids,
                self.next_id == old(self).next_id,
                self.budget == old(self).budget,
                scatter(self.grid@, spots@, self.rng.state, due - placed) == scatter(
                    old(self)@.grid,
                    spots0,
                    old(self)@.rng,
                    due as int,
                ),
            decreases spots@.len(),
        {
            proof {
                let j: int = rng_below(self.rng.state, spots@.len() as u64) as int;
                lemma_spot_taken(self.grid@, spots@, j, CellType::Consumable);
            }
            let c: Coord<usize> = take_spot(&mut spots, &mut self.rng);
            self.grid.set(c, CellType::Consumable);
            placed = placed + 1;
        }
        proof {
            assert(scatter(self.grid@, spots@, self.rng.state, due - placed) == (
                self.grid@,
                self.rng.state,
            ));
            assert(self@ == old(self)@.reconciled());
        }
        placed
    }

    /// Puts up to `n` fresh organisms on cells drawn from `spots`, as far as
    /// there are spots. Each has the initial energy and a random genome of the
    /// configured length; the budget grows by their energy.
    pub fn populate(&mut self, spots: &mut Vec<Coord<usize>>, n: usize)
        requires
            old(self).wf(),
            free_spots(old(self)@.grid, old(spots)@),
            old(self)@.next_id + n <= u64::MAX,
            old(self)@.budget + n * INITIAL_ENERGY <= i64::MAX,
        ensures
            final(self).wf(),
            final(self)@ == old(self)@.populated(old(spots)@, n as nat),
            final(self)@.params == old(self)@.params,
            final(self)@.budget == old(self)@.budget + settlers(
                old(spots)@.len() as int,
                n as int,
            ) * INITIAL_ENERGY,
            final(self)@.total_energy() == old(self)@.total_energy() + settlers(
                old(spots)@.len() as int,
                n as int,
            ) * INITIAL_ENERGY,
            free_spots(final(self)@.grid, final(spots)@),
    {
        proof {
            assert(spots@.len() == spots.len());
            lemma_populated(self@, spots@, n as nat);
        }
        let mut k: usize = 0;
        while k < n && spots.len() > 0
            invariant
                self.wf(),
                free_spots(self@.grid, spots@),
                k <= n,
                self@.next_id + (n - k) <= u64::MAX,
                self@.budget + (n - k) * INITIAL_ENERGY <= i64::MAX,
                self@.populated(spots@, (n - k) as nat) == old(self)@.populated(
                    old(spots)@,
                    n as nat,
                ),
            decreases n - k,
        {
            let ghost before = self@;
            let ghost listed = spots@;
            let c: Coord<usize> = take_spot(spots, &mut self.rng);
            let org: Organism = Organism::new(INITIAL_ENERGY, self.params.genome_len, &mut self.rng);
            proof {
                let j: int = rng_below(before.rng, listed.len() as u64) as int;
                lemma_wf_basics(before);
                lemma_spot_taken(before.grid, listed, j, CellType::Organism);
                lemma_wf_frame(before, self@);
                assert((n - k) * INITIAL_ENERGY >= INITIAL_ENERGY) by (nonlinear_arith)
                    requires
                        n - k >= 1,
                        INITIAL_ENERGY == 1000,
                ;
                assert(self@.admits(org@, c));
            }
            self.insert_organism(org, c);
            k = k + 1;
            proof {
                assert((n - k) * INITIAL_ENERGY + INITIAL_ENERGY == (n - (k - 1)) * INITIAL_ENERGY)
                    by (nonlinear_arith);
            }
        }
    }

    /// The world at the start of a run: the initial organisms stand on random
    /// cells, and as much energy as they have lies about in pellets. The
    /// budget is the energy of both.
    pub fn new(params: Parameters, seed: u64) -> (world: World)
        requires
            params.valid(),
        ensures
            world.wf(),
            world@ == WorldView::genesis(params, seed),
            world@.params == params,
            world@.orgs.len() <= params.n_initial_entities,
    {
        let mut world: World = World::blank(params, seed);
        proof {
            lemma_wf_basics(world@);
        }
        let mut spots: Vec<Coord<usize>> = world.grid.get_cell_coords(CellType::Empty);
        proof {
            lemma_genesis(params, seed);
            lemma_coords_of(world@.grid, CellType::Empty);
            lemma_blank(params, seed);
            let n = params.n_initial_entities as int;
            assert(n * INITIAL_ENERGY <= i64::MAX) by (nonlinear_arith)
                requires
                    0 <= n,
                    2 * n * INITIAL_ENERGY <= i64::MAX,
                    INITIAL_ENERGY == 1000,
            ;
        }
        let ghost listed = spots@;
        world.populate(&mut spots, params.n_initial_entities);
        proof {
            let n = params.n_initial_entities as int;
            let k = settlers(listed.len() as int, n);
            assert(0 <= 2 * (k * INITIAL_ENERGY) <= i64::MAX) by (nonlinear_arith)
                requires
                    0 <= k <= n,
                    2 * n * INITIAL_ENERGY <= i64::MAX,
                    INITIAL_ENERGY == 1000,
            ;
        }
        let ghost settled = world@;
        world.budget = world.budget * 2;
        proof {
            lemma_budget_raised(settled, world.budget);
        }
        world.reconcile();
        world
    }

    /// Rebuilds the world from its options, with the current state of the
    /// random source as the seed. The epoch goes back to zero and the request
    /// for the reset is cleared; the pause and the speed stay as they are.
    pub fn reset(&mut self)
        requires
            old(self).wf(),
        ensures
            final(self).wf(),
            final(self)@ == old(self)@.renewed(),
            final(self)@.state.epoch == 0,
            !final(self)@.state.reset,
    {
        proof {
            lemma_wf_basics(self@);
        }
        let mut fresh: World = World::new(self.params, self.rng.state);
        let ghost built = fresh@;
        fresh.state = SimState {
            paused: self.state.paused,
            reset: false,
            epoch: 0,
            speed: self.state.speed,
        };
        proof {
            lemma_wf_frame(built, fresh@);
            assert(fresh@ == old(self)@.renewed());
        }
        *self = fresh;
    }

    /// One step of the simulation.
    ///
    /// A pending reset rebuilds the world instead. A paused world stays as it
    /// is. Otherwise every organism that was there at the start has its tick,
    /// in the order of the table, and then the energy that the organisms used
    /// up comes back as pellets: afterwards the world holds at most its
    /// budget, and less than one pellet short of it unless no cell is empty.
    pub fn step(&mut self)
        requires
            old(self).wf(),
        ensures
            final(self).wf(),
            final(self)@ == old(self)@.stepped(),
            final(self)@.total_energy() <= final(self)@.budget,
            !old(self)@.state.reset ==> final(self)@.budget == old(self)@.budget,
            !old(self)@.state.reset && !old(self)@.state.paused ==> final(self)@.budget - final(self)@.total_energy() < PELLET_ENERGY || final(self)@.grid.count(CellType::Empty) == 0,
    {
        proof {
            lemma_stepped(self@);
        }
        if self.state.reset {
            self.reset();
            return;
        }
        if self.state.paused {
            return;
        }
        let mut remaining: usize = self.orgs.len();
        let mut i: usize = 0;
        while remaining > 0
            invariant
                self.wf(),
                i + remaining <= self@.orgs.len(),
                self@.run(i as int, remaining as nat) == old(self)@.run(
                    0,
                    old(self)@.orgs.len(),
                ),
            decreases remaining,
        {
            let population: usize = self.orgs.len();
            assert(i < population);
            let died: bool = self.tick_organism(i);
            if !died {
                i = i + 1;
            }
            remaining = remaining - 1;
        }
        self.reconcile();
    }
}

/// Draws a cell from a list of spots and takes it off the list: the last entry
/// moves to its place.
pub fn take_spot(spots: &mut Vec<Coord<usize>>, rng: &mut Rng) -> (c: Coord<usize>)
    requires
        old(spots)@.len() > 0,
    ensures
        ({
            let j: int = rng_below(old(rng).state, old(spots)@.len() as u64) as int;
            &&& 0 <= j < old(spots)@.len()
            &&& c == old(spots)@[j]
            &&& final(spots)@ == old(spots)@.update(j, old(spots)@.last()).drop_last()
        }),
        final(rng).state == rng_advance(old(rng).state),
{
    let j: usize = rng.below(spots.len() as u64) as usize;
    spots.swap_remove(j)
}

} // verus!
