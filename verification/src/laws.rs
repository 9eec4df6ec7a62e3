//! What holds of the world: every transition of the model keeps the grid and
//! the table of organisms in agreement, and accounts for every unit of energy.

use crate::action::Action;
use crate::config::{Parameters, INITIAL_ENERGY, METABOLISM_COST, PELLET_ENERGY};
use crate::coord::Coord;
use crate::dir::{Dir, N_DIRS};
use crate::genome::fresh_genes;
use crate::grid::{
    count_upto, lemma_coords_of, lemma_put_at, lemma_put_count, CellType, GridView,
};
use crate::model::{
    energy_sum, first_neighbor, lemma_energy_bounds, lemma_energy_push, lemma_energy_remove,
    lemma_energy_update, scatter, scattered, settlers, free_spots, WorldView,
};
use crate::rng::{rng_advance, rng_below};
use crate::organism::{OrganismView, REPLICATION_COST};
use vstd::prelude::*;

verus! {

/// A neighbour found by `first_neighbor` is a cell of the grid that holds the
/// kind looked for, one step in some direction from the cell in the middle.
pub proof fn lemma_first_neighbor(
    grid: GridView,
    c: Coord<usize>,
    kind: CellType,
    start: int,
    k: int,
)
    requires
        0 <= k,
    ensures
        first_neighbor(grid, c, kind, start, k) matches Some(t) ==> {
            &&& grid.within(t)
            &&& grid.at(t) == kind
            &&& exists|d: Dir| c.is_step_to(d.delta_spec(), t)
        },
    decreases 9 - k,
{
    if k < 9 {
        let d = Dir::from_index_spec(start + k);
        let target = c.step_spec(d.delta_spec(), grid.width as int, grid.height as int);
        if target is Some && grid.at(target->0) == kind {
            assert(c.is_step_to(d.delta_spec(), target->0));
        } else {
            lemma_first_neighbor(grid, c, kind, start, k + 1);
        }
    }
}

/// Writing a cell that no organism stands on leaves every organism's cell as
/// it is.
pub proof fn lemma_put_elsewhere(w: WorldView, c: Coord<usize>, kind: CellType)
    requires
        w.wf(),
        w.grid.within(c),
        w.grid.at(c) != CellType::Organism,
    ensures
        w.grid.put(c, kind).wf(),
        w.grid.put(c, kind).width == w.grid.width,
        w.grid.put(c, kind).height == w.grid.height,
        forall|j: int|
            0 <= j < w.coords.len() ==> #[trigger] w.coords[j] != c && w.grid.put(c, kind).at(
                w.coords[j],
            ) == CellType::Organism,
{
    reveal(WorldView::wf);
    lemma_put_at(w.grid, c, kind, c);
    assert forall|j: int| 0 <= j < w.coords.len() implies #[trigger] w.coords[j] != c
        && w.grid.put(c, kind).at(w.coords[j]) == CellType::Organism by {
        lemma_put_at(w.grid, c, kind, w.coords[j]);
    }
}

/// An organism that the world admits can be put in: the world stays well
/// formed, and its energy and its budget grow by the energy of the organism.
pub proof fn lemma_with_organism(w: WorldView, org: OrganismView, c: Coord<usize>)
    requires
        w.wf(),
        w.admits(org, c),
    ensures
        w.with_organism(org, c).wf(),
        w.with_organism(org, c).total_energy() == w.total_energy() + org.energy,
        w.with_organism(org, c).budget == w.budget + org.energy,
{
    reveal(WorldView::wf);
    let w2 = w.with_organism(org, c);
    lemma_put_elsewhere(w, c, CellType::Organism);
    lemma_put_at(w.grid, c, CellType::Organism, c);
    lemma_put_count(w.grid, c, CellType::Organism, CellType::Organism);
    lemma_put_count(w.grid, c, CellType::Organism, CellType::Consumable);
    lemma_energy_push(w.orgs, org);
    assert forall|i: int| 0 <= i < w2.coords.len() implies w2.grid.within(#[trigger] w2.coords[i])
        && w2.grid.at(w2.coords[i]) == CellType::Organism by {
        if i < w.coords.len() {
            assert(w2.coords[i] == w.coords[i]);
        }
    }
    assert forall|i: int, j: int| 0 <= i < j < w2.coords.len() implies #[trigger] w2.coords[i]
        != #[trigger] w2.coords[j] by {
        assert(w2.coords[i] == w.coords[i]);
        if j < w.coords.len() {
            assert(w2.coords[j] == w.coords[j]);
        }
    }
    assert forall|i: int| 0 <= i < w2.orgs.len() implies (#[trigger] w2.orgs[i]).energy > 0 by {
        if i < w.orgs.len() {
            assert(w2.orgs[i] == w.orgs[i]);
        }
    }
    assert forall|i: int, j: int| 0 <= i < j < w2.ids.len() implies #[trigger] w2.ids[i]
        < #[trigger] w2.ids[j] by {
        assert(w2.ids[i] == w.ids[i]);
        if j < w.ids.len() {
            assert(w2.ids[j] == w.ids[j]);
        }
    }
    assert forall|i: int| 0 <= i < w2.ids.len() implies #[trigger] w2.ids[i] < w2.next_id by {
        if i < w.ids.len() {
            assert(w2.ids[i] == w.ids[i]);
        }
    }
}

/// A pellet that the world admits can be put in: the world stays well formed,
/// and its energy and its budget grow by the energy of the pellet.
pub proof fn lemma_with_pellet(w: WorldView, c: Coord<usize>)
    requires
        w.wf(),
        w.admits_pellet(c),
    ensures
        w.with_pellet(c).wf(),
        w.with_pellet(c).total_energy() == w.total_energy() + PELLET_ENERGY,
        w.with_pellet(c).budget == w.budget + PELLET_ENERGY,
{
    reveal(WorldView::wf);
    lemma_put_elsewhere(w, c, CellType::Consumable);
    lemma_put_count(w.grid, c, CellType::Consumable, CellType::Organism);
    lemma_put_count(w.grid, c, CellType::Consumable, CellType::Consumable);
}

/// While a pellet lies on the grid, an organism can eat one without its
/// energy leaving the range of the budget.
pub proof fn lemma_room_to_eat(w: WorldView, i: int, t: Coord<usize>)
    requires
        w.wf(),
        0 <= i < w.orgs.len(),
        w.grid.within(t),
        w.grid.at(t) == CellType::Consumable,
    ensures
        0 < w.orgs[i].energy,
        w.orgs[i].energy + PELLET_ENERGY <= w.budget,
        w.orgs[i].gain(PELLET_ENERGY as int).energy == w.orgs[i].energy + PELLET_ENERGY,
{
    reveal(WorldView::wf);
    lemma_energy_bounds(w.orgs, i, w.orgs.len() as int);
    lemma_put_count(w.grid, t, CellType::Empty, CellType::Consumable);
    assert(w.grid.count(CellType::Consumable) * PELLET_ENERGY >= PELLET_ENERGY) by (nonlinear_arith)
        requires
            w.grid.count(CellType::Consumable) >= 1,
    ;
}

/// A move keeps the world well formed and its energy as it is, and takes the
/// organism one step in the direction of the move or leaves it where it was.
/// Nobody else moves.
pub proof fn lemma_moved(w: WorldView, i: int, d: Dir)
    requires
        w.wf(),
        0 <= i < w.orgs.len(),
    ensures
        w.moved(i, d).wf(),
        w.moved(i, d).total_energy() == w.total_energy(),
        w.moved(i, d).budget == w.budget,
        w.moved(i, d).orgs.len() == w.orgs.len(),
        w.moved(i, d).coords[i] == w.coords[i] || w.coords[i].is_step_to(
            d.delta_spec(),
            w.moved(i, d).coords[i],
        ),
        forall|j: int|
            0 <= j < w.coords.len() && j != i ==> #[trigger] w.moved(i, d).coords[j]
                == w.coords[j],
{
    reveal(WorldView::wf);
    let w2 = w.moved(i, d);
    let c = w.coords[i];
    let target = c.step_spec(d.delta_spec(), w.grid.width as int, w.grid.height as int);
    if target is Some && w.grid.at(target->0) != CellType::Organism {
        let t = target->0;
        let g1 = w.grid.put(c, CellType::Empty);
        let g2 = g1.put(t, CellType::Organism);
        assert(w.grid.within(c) && w.grid.at(c) == CellType::Organism);
        lemma_put_at(w.grid, c, CellType::Empty, t);
        lemma_put_at(g1, t, CellType::Organism, t);
        lemma_put_count(w.grid, c, CellType::Empty, CellType::Organism);
        lemma_put_count(w.grid, c, CellType::Empty, CellType::Consumable);
        lemma_put_count(g1, t, CellType::Organism, CellType::Organism);
        lemma_put_count(g1, t, CellType::Organism, CellType::Consumable);
        assert forall|j: int| 0 <= j < w2.coords.len() implies w2.grid.within(
            #[trigger] w2.coords[j],
        ) && w2.grid.at(w2.coords[j]) == CellType::Organism by {
            if j != i {
                assert(w2.coords[j] == w.coords[j]);
                if i < j {
                    assert(w.coords[i] != w.coords[j]);
                } else {
                    assert(w.coords[j] != w.coords[i]);
                }
                lemma_put_at(w.grid, c, CellType::Empty, w.coords[j]);
                lemma_put_at(g1, t, CellType::Organism, w.coords[j]);
            }
        }
        assert forall|j: int, k: int| 0 <= j < k < w2.coords.len() implies #[trigger] w2.coords[j]
            != #[trigger] w2.coords[k] by {
            assert(w.coords[j] != w.coords[k]);
            assert(w.grid.at(w.coords[j]) == CellType::Organism);
            assert(w.grid.at(w.coords[k]) == CellType::Organism);
        }
        if w.grid.at(t) == CellType::Consumable {
            lemma_room_to_eat(w, i, t);
            lemma_energy_update(
                w.orgs,
                i,
                w.orgs[i].gain(PELLET_ENERGY as int),
                w.orgs.len() as int,
            );
            assert forall|j: int| 0 <= j < w2.orgs.len() implies (#[trigger] w2.orgs[j]).energy
                > 0 by {
                if j != i {
                    assert(w2.orgs[j] == w.orgs[j]);
                }
            }
            assert(w2.total_energy() == w.total_energy()) by (nonlinear_arith)
                requires
                    w2.total_energy() == energy_sum(w.orgs, w.orgs.len() as int) + PELLET_ENERGY
                        + w2.grid.count(CellType::Consumable) * PELLET_ENERGY,
                    w.total_energy() == energy_sum(w.orgs, w.orgs.len() as int) + w.grid.count(
                        CellType::Consumable,
                    ) * PELLET_ENERGY,
                    w2.grid.count(CellType::Consumable) + 1 == w.grid.count(CellType::Consumable),
            ;
        }
    }
}

/// Eating keeps the world well formed and its energy as it is: what the
/// pellet held the organism now has. Nobody moves.
pub proof fn lemma_fed(w: WorldView, i: int)
    requires
        w.wf(),
        0 <= i < w.orgs.len(),
    ensures
        w.fed(i).wf(),
        w.fed(i).total_energy() == w.total_energy(),
        w.fed(i).budget == w.budget,
        w.fed(i).orgs.len() == w.orgs.len(),
        w.fed(i).coords == w.coords,
{
    reveal(WorldView::wf);
    let w2 = w.fed(i);
    let found = first_neighbor(w.grid, w.coords[i], CellType::Consumable, 0, 0);
    lemma_first_neighbor(w.grid, w.coords[i], CellType::Consumable, 0, 0);
    if found is Some {
        let t = found->0;
        lemma_put_elsewhere(w, t, CellType::Empty);
        lemma_put_count(w.grid, t, CellType::Empty, CellType::Organism);
        lemma_put_count(w.grid, t, CellType::Empty, CellType::Consumable);
        lemma_room_to_eat(w, i, t);
        lemma_energy_update(w.orgs, i, w.orgs[i].gain(PELLET_ENERGY as int), w.orgs.len() as int);
        assert forall|j: int| 0 <= j < w2.orgs.len() implies (#[trigger] w2.orgs[j]).energy
            > 0 by {
            if j != i {
                assert(w2.orgs[j] == w.orgs[j]);
            }
        }
        assert(w2.total_energy() == w.total_energy()) by (nonlinear_arith)
            requires
                w2.total_energy() == energy_sum(w.orgs, w.orgs.len() as int) + PELLET_ENERGY
                    + w2.grid.count(CellType::Consumable) * PELLET_ENERGY,
                w.total_energy() == energy_sum(w.orgs, w.orgs.len() as int) + w.grid.count(
                    CellType::Consumable,
                ) * PELLET_ENERGY,
                w2.grid.count(CellType::Consumable) + 1 == w.grid.count(CellType::Consumable),
        ;
    }
}

/// A birth keeps the world well formed and its energy as it is: what the
/// parent pays the child has. The child is the last of the table and has age
/// zero and the species of its parent. Nobody moves.
pub proof fn lemma_born(w: WorldView, i: int, t: Coord<usize>)
    requires
        w.wf(),
        0 <= i < w.orgs.len(),
        w.grid.within(t),
        w.grid.at(t) == CellType::Empty,
        w.orgs[i].energy > REPLICATION_COST,
        w.next_id < u64::MAX,
    ensures
        w.born(i, t).wf(),
        w.born(i, t).total_energy() == w.total_energy(),
        w.born(i, t).budget == w.budget,
        w.born(i, t).orgs.len() == w.orgs.len() + 1,
        w.born(i, t).orgs[i].energy == w.orgs[i].energy - REPLICATION_COST,
        w.born(i, t).orgs.last().energy == REPLICATION_COST,
        w.born(i, t).orgs.last().age == 0,
        w.born(i, t).orgs.last().species == w.orgs[i].species,
        w.born(i, t).coords.last() == t,
        forall|j: int| 0 <= j < w.coords.len() ==> #[trigger] w.born(i, t).coords[j] == w.coords[j],
{
    reveal(WorldView::wf);
    let w2 = w.born(i, t);
    let parent = w.orgs[i].gain(-REPLICATION_COST);
    let child = w2.orgs.last();
    lemma_put_elsewhere(w, t, CellType::Organism);
    lemma_put_at(w.grid, t, CellType::Organism, t);
    lemma_put_count(w.grid, t, CellType::Organism, CellType::Organism);
    lemma_put_count(w.grid, t, CellType::Organism, CellType::Consumable);
    lemma_energy_update(w.orgs, i, parent, w.orgs.len() as int);
    lemma_energy_push(w.orgs.update(i, parent), child);
    assert(w2.orgs == w.orgs.update(i, parent).push(child));
    assert forall|j: int| 0 <= j < w2.coords.len() implies w2.grid.within(#[trigger] w2.coords[j])
        && w2.grid.at(w2.coords[j]) == CellType::Organism by {
        if j < w.coords.len() {
            assert(w2.coords[j] == w.coords[j]);
        }
    }
    assert forall|j: int, k: int| 0 <= j < k < w2.coords.len() implies #[trigger] w2.coords[j]
        != #[trigger] w2.coords[k] by {
        assert(w2.coords[j] == w.coords[j]);
        if k < w.coords.len() {
            assert(w2.coords[k] == w.coords[k]);
        }
    }
    assert forall|j: int| 0 <= j < w2.orgs.len() implies (#[trigger] w2.orgs[j]).energy > 0 by {
        if j < w.orgs.len() && j != i {
            assert(w2.orgs[j] == w.orgs[j]);
        }
    }
    assert forall|j: int, k: int| 0 <= j < k < w2.ids.len() implies #[trigger] w2.ids[j]
        < #[trigger] w2.ids[k] by {
        assert(w2.ids[j] == w.ids[j]);
        if k < w.ids.len() {
            assert(w2.ids[k] == w.ids[k]);
        }
    }
    assert forall|j: int| 0 <= j < w2.ids.len() implies #[trigger] w2.ids[j] < w2.next_id by {
        if j < w.ids.len() {
            assert(w2.ids[j] == w.ids[j]);
        }
    }
}

/// An organism that pays for a child without getting one keeps the world well
/// formed; what it pays leaves the world.
pub proof fn lemma_charged(w: WorldView, i: int)
    requires
        w.wf(),
        0 <= i < w.orgs.len(),
        w.orgs[i].energy > REPLICATION_COST,
    ensures
        w.charged(i).wf(),
        w.charged(i).total_energy() == w.total_energy() - REPLICATION_COST,
        w.charged(i).orgs[i].energy == w.orgs[i].energy - REPLICATION_COST,
{
    reveal(WorldView::wf);
    let w2 = w.charged(i);
    lemma_energy_update(w.orgs, i, w.orgs[i].gain(-REPLICATION_COST), w.orgs.len() as int);
    assert forall|j: int| 0 <= j < w2.orgs.len() implies (#[trigger] w2.orgs[j]).energy > 0 by {
        if j != i {
            assert(w2.orgs[j] == w.orgs[j]);
        }
    }
}

/// Replication keeps the world well formed. Where a child is born, what the
/// parent pays the child has, so the energy in the world stays as it is; the
/// child is the last of the table, has age zero and stands one step from its
/// parent on a cell that was empty. Where the organism may replicate but no
/// cell is free, the parent pays and the energy leaves the world. Nobody
/// moves.
pub proof fn lemma_bred(w: WorldView, i: int)
    requires
        w.wf(),
        0 <= i < w.orgs.len(),
    ensures
        w.bred(i).wf(),
        w.bred(i).total_energy() == w.total_energy() - w.waste(i, Action::Replicate),
        w.bred(i).budget == w.budget,
        w.bred(i).orgs.len() == w.orgs.len() || w.bred(i).orgs.len() == w.orgs.len() + 1,
        w.bred(i).orgs.len() == w.orgs.len() ==> w.bred(i).orgs[i].energy == w.orgs[i].energy
            - w.waste(i, Action::Replicate),
        w.bred(i).orgs.len() == w.orgs.len() + 1 ==> {
            &&& w.may_replicate(i)
            &&& w.waste(i, Action::Replicate) == 0
            &&& w.bred(i).orgs[i].energy == w.orgs[i].energy - REPLICATION_COST
            &&& w.bred(i).orgs.last().energy == REPLICATION_COST
            &&& w.bred(i).orgs.last().age == 0
            &&& w.bred(i).orgs.last().species == w.orgs[i].species
            &&& w.grid.at(w.bred(i).coords.last()) == CellType::Empty
            &&& exists|d: Dir| w.coords[i].is_step_to(d.delta_spec(), w.bred(i).coords.last())
        },
        forall|j: int| 0 <= j < w.coords.len() ==> #[trigger] w.bred(i).coords[j] == w.coords[j],
{
    if w.may_replicate(i) {
        let start: int = rng_below(w.rng, N_DIRS) as int;
        let drawn = WorldView { rng: rng_advance(w.rng), ..w };
        let found = w.nursery(i);
        lemma_first_neighbor(w.grid, w.coords[i], CellType::Empty, start, 0);
        lemma_wf_frame(w, drawn);
        if found is Some {
            lemma_born(drawn, i, found->0);
            assert(w.bred(i) == drawn.born(i, found->0));
        } else {
            lemma_charged(drawn, i);
            assert(w.bred(i) == drawn.charged(i));
        }
    }
}

/// Whatever an organism does, the world stays well formed, and no energy
/// leaves it but what a replication without a free cell wastes. The table
/// keeps its organisms in their places, with at most one child more at its
/// end; the organism is where it was or, after a move, one step in the
/// direction of the move from there; nobody else moves.
pub proof fn lemma_apply(w: WorldView, i: int, action: Action)
    requires
        w.wf(),
        0 <= i < w.orgs.len(),
    ensures
        w.apply(i, action).wf(),
        w.apply(i, action).total_energy() == w.total_energy() - w.waste(i, action),
        0 <= w.waste(i, action) <= REPLICATION_COST,
        w.apply(i, action).budget == w.budget,
        w.apply(i, action).params == w.params,
        w.apply(i, action).state == w.state,
        w.orgs.len() <= w.apply(i, action).orgs.len() <= w.orgs.len() + 1,
        w.apply(i, action).orgs.len() == w.orgs.len() + 1 ==> action == Action::Replicate,
        w.apply(i, action).coords[i] == w.coords[i] || (action matches Action::Move(d)
            && w.coords[i].is_step_to(d.delta_spec(), w.apply(i, action).coords[i])),
        forall|j: int|
            0 <= j < w.coords.len() && j != i ==> #[trigger] w.apply(i, action).coords[j]
                == w.coords[j],
{
    lemma_wf_basics(w);
    match action {
        Action::Move(d) => {
            assert(w.apply(i, action) == w.moved(i, d));
            lemma_moved(w, i, d);
        },
        Action::Stay => {
            assert(w.apply(i, action) == w);
        },
        Action::Eat => {
            assert(w.apply(i, action) == w.fed(i));
            lemma_fed(w, i);
        },
        Action::Replicate => {
            assert(w.apply(i, action) == w.bred(i));
            lemma_bred(w, i);
            assert(w.bred(i).coords[i] == w.coords[i]);
        },
    }
}

/// Settling keeps the world well formed. An organism that lives on pays the
/// upkeep and nothing else changes; one that dies leaves the table and its
/// cell, and its energy leaves the world.
pub proof fn lemma_settled(w: WorldView, i: int)
    requires
        w.wf(),
        0 <= i < w.orgs.len(),
    ensures
        w.settled(i).wf(),
        w.settled(i).budget == w.budget,
        w.settled(i).params == w.params,
        w.settled(i).state == w.state,
        w.dies(i) ==> w.settled(i).orgs.len() == w.orgs.len() - 1 && w.settled(i).total_energy()
            == w.total_energy() - w.orgs[i].energy && w.settled(i).grid.at(w.coords[i])
            == CellType::Empty,
        !w.dies(i) ==> w.settled(i).orgs.len() == w.orgs.len() && w.settled(i).total_energy()
            == w.total_energy() - METABOLISM_COST && w.settled(i).orgs[i].age == w.orgs[i].age + 1
            && w.settled(i).orgs[i].energy == w.orgs[i].energy - METABOLISM_COST
            && w.settled(i).coords == w.coords && w.settled(i).grid == w.grid,
        w.settled(i).total_energy() < w.total_energy(),
{
    reveal(WorldView::wf);
    let w2 = w.settled(i);
    let c = w.coords[i];
    assert(w.grid.within(c) && w.grid.at(c) == CellType::Organism);
    assert(w.orgs[i].energy > 0);
    if w.dies(i) {
        lemma_put_at(w.grid, c, CellType::Empty, c);
        lemma_put_count(w.grid, c, CellType::Empty, CellType::Organism);
        lemma_put_count(w.grid, c, CellType::Empty, CellType::Consumable);
        let n: int = w.orgs.len() as int;
        lemma_energy_remove(w.orgs, i, n - 1);
        assert(energy_sum(w.orgs, n) == energy_sum(w.orgs, n - 1) + w.orgs[n - 1].energy);
        assert forall|j: int| 0 <= j < w2.coords.len() implies w2.grid.within(
            #[trigger] w2.coords[j],
        ) && w2.grid.at(w2.coords[j]) == CellType::Organism by {
            let k: int = if j < i {
                j
            } else {
                j + 1
            };
            assert(w2.coords[j] == w.coords[k]);
            if k < i {
                assert(w.coords[k] != w.coords[i]);
            } else {
                assert(w.coords[i] != w.coords[k]);
            }
            lemma_put_at(w.grid, c, CellType::Empty, w.coords[k]);
        }
        assert forall|j: int, k: int| 0 <= j < k < w2.coords.len() implies #[trigger] w2.coords[j]
            != #[trigger] w2.coords[k] by {
            let j0: int = if j < i {
                j
            } else {
                j + 1
            };
            let k0: int = if k < i {
                k
            } else {
                k + 1
            };
            assert(w2.coords[j] == w.coords[j0]);
            assert(w2.coords[k] == w.coords[k0]);
            assert(w.coords[j0] != w.coords[k0]);
        }
        assert forall|j: int| 0 <= j < w2.orgs.len() implies (#[trigger] w2.orgs[j]).energy
            > 0 by {
            let k: int = if j < i {
                j
            } else {
                j + 1
            };
            assert(w2.orgs[j] == w.orgs[k]);
        }
        assert forall|j: int, k: int| 0 <= j < k < w2.ids.len() implies #[trigger] w2.ids[j]
            < #[trigger] w2.ids[k] by {
            let j0: int = if j < i {
                j
            } else {
                j + 1
            };
            let k0: int = if k < i {
                k
            } else {
                k + 1
            };
            assert(w2.ids[j] == w.ids[j0]);
            assert(w2.ids[k] == w.ids[k0]);
            assert(w.ids[j0] < w.ids[k0]);
        }
        assert forall|j: int| 0 <= j < w2.ids.len() implies #[trigger] w2.ids[j] < w2.next_id by {
            let k: int = if j < i {
                j
            } else {
                j + 1
            };
            assert(w2.ids[j] == w.ids[k]);
        }
    } else {
        let org = w.orgs[i].gain(-METABOLISM_COST).aged();
        lemma_energy_update(w.orgs, i, org, w.orgs.len() as int);
        assert forall|j: int| 0 <= j < w2.orgs.len() implies (#[trigger] w2.orgs[j]).energy
            > 0 by {
            if j != i {
                assert(w2.orgs[j] == w.orgs[j]);
            }
        }
    }
}

/// The tick of one organism keeps the world well formed and takes energy out
/// of it: what the action wastes, and then the upkeep where the organism
/// lives on, what the organism had left where it dies.
pub proof fn lemma_ticked(w: WorldView, i: int)
    requires
        w.wf(),
        0 <= i < w.orgs.len(),
    ensures
        w.ticked(i).wf(),
        w.ticked(i).budget == w.budget,
        w.ticked(i).params == w.params,
        w.ticked(i).state == w.state,
        w.ticked(i).total_energy() == w.total_energy() - w.loss(i),
        w.loss(i) > 0,
        !w.dies_in_tick(i) ==> w.loss(i) == METABOLISM_COST + w.waste(i, w.decide(i)),
        w.ticked(i).total_energy() < w.total_energy(),
        w.dies_in_tick(i) ==> w.ticked(i).orgs.len() >= w.orgs.len() - 1,
        !w.dies_in_tick(i) ==> w.ticked(i).orgs.len() >= w.orgs.len(),
{
    reveal(WorldView::ticked);
    reveal(WorldView::dies_in_tick);
    let action = w.decide(i);
    lemma_apply(w, i, action);
    lemma_settled(w.apply(i, action), i);
}

/// A round of ticks keeps the world well formed and never adds energy.
pub proof fn lemma_run(w: WorldView, i: int, remaining: nat)
    requires
        w.wf(),
        0 <= i,
        i + remaining <= w.orgs.len(),
    ensures
        w.run(i, remaining).wf(),
        w.run(i, remaining).budget == w.budget,
        w.run(i, remaining).params == w.params,
        w.run(i, remaining).state == w.state,
        w.run(i, remaining).total_energy() <= w.total_energy(),
        remaining > 0 ==> w.run(i, remaining).total_energy() < w.total_energy(),
    decreases remaining,
{
    if remaining > 0 {
        lemma_ticked(w, i);
        let next: int = if w.dies_in_tick(i) {
            i
        } else {
            i + 1
        };
        lemma_run(w.ticked(i), next, (remaining - 1) as nat);
    }
}

/// The account of a round of ticks: the energy in the world goes down by
/// what the organisms of the round lose, and nothing else changes it. What a
/// parent pays goes to its child and what a pellet held goes to its eater, so
/// neither shows. An organism that lives on loses the upkeep; one that dies
/// takes what it had left out of the world. In a round without a death the
/// world thus loses the upkeep once for every organism, and besides only what
/// replications without a free cell have wasted.
pub proof fn lemma_round_energy(w: WorldView, i: int, remaining: nat)
    requires
        w.wf(),
        0 <= i,
        i + remaining <= w.orgs.len(),
    ensures
        w.run(i, remaining).total_energy() == w.total_energy() - w.spent(i, remaining),
        w.spent(i, remaining) >= remaining,
        w.wasted(i, remaining) >= 0,
        w.deaths(i, remaining) == 0 ==> w.spent(i, remaining) == remaining * METABOLISM_COST
            + w.wasted(i, remaining),
        w.run(i, remaining).orgs.len() + w.deaths(i, remaining) >= w.orgs.len(),
    decreases remaining,
{
    if remaining > 0 {
        lemma_ticked(w, i);
        let next: int = if w.dies_in_tick(i) {
            i
        } else {
            i + 1
        };
        lemma_round_energy(w.ticked(i), next, (remaining - 1) as nat);
        assert(remaining * METABOLISM_COST == (remaining - 1) * METABOLISM_COST + METABOLISM_COST)
            by (nonlinear_arith);
    }
}

/// The account of a whole step that runs a round of ticks: the energy in the
/// world afterwards is the energy before, less what the organisms lost in
/// the round, plus one pellet's worth for every pellet that the
/// reconciliation put down.
pub proof fn lemma_step_energy(w: WorldView)
    requires
        w.wf(),
        !w.state.reset,
        !w.state.paused,
    ensures
        ({
            let round = w.run(0, w.orgs.len());
            let placed = scattered(round.grid.count(CellType::Empty) as int, round.pellets_due());
            &&& w.stepped().total_energy() == w.total_energy() - w.spent(0, w.orgs.len()) + placed
                * PELLET_ENERGY
            &&& 0 <= placed * PELLET_ENERGY <= w.budget - round.total_energy()
        }),
{
    lemma_run(w, 0, w.orgs.len());
    lemma_round_energy(w, 0, w.orgs.len());
    let round = w.run(0, w.orgs.len());
    lemma_reconciled(round);
    let placed = scattered(round.grid.count(CellType::Empty) as int, round.pellets_due());
    assert(0 <= placed * PELLET_ENERGY) by (nonlinear_arith)
        requires
            0 <= placed,
            PELLET_ENERGY == 200,
    ;
}

/// When the cell at place `j` of a list of free spots is taken, the list
/// without that place, its last entry moved there, lists free spots of the
/// new grid.
pub proof fn lemma_spot_taken(grid: GridView, spots: Seq<Coord<usize>>, j: int, kind: CellType)
    requires
        grid.wf(),
        free_spots(grid, spots),
        0 <= j < spots.len(),
    ensures
        free_spots(grid.put(spots[j], kind), spots.update(j, spots.last()).drop_last()),
        grid.put(spots[j], kind).wf(),
{
    let g1 = grid.put(spots[j], kind);
    let rest = spots.update(j, spots.last()).drop_last();
    let last: int = spots.len() - 1;
    lemma_put_at(grid, spots[j], kind, spots[j]);
    assert forall|k: int| 0 <= k < rest.len() implies g1.within(#[trigger] rest[k]) && g1.at(
        rest[k],
    ) == CellType::Empty by {
        let k0: int = if k == j {
            last
        } else {
            k
        };
        assert(rest[k] == spots[k0]);
        assert(spots[k0] != spots[j]);
        lemma_put_at(grid, spots[j], kind, spots[k0]);
    }
    assert forall|k: int, m: int|
        0 <= k < rest.len() && 0 <= m < rest.len() && k != m implies #[trigger] rest[k]
        != #[trigger] rest[m] by {
        let k0: int = if k == j {
            last
        } else {
            k
        };
        let m0: int = if m == j {
            last
        } else {
            m
        };
        assert(rest[k] == spots[k0]);
        assert(rest[m] == spots[m0]);
        assert(spots[k0] != spots[m0]);
    }
}

/// Scattering pellets over free spots puts down as many pellets as are due
/// and as there are spots for, each on a cell that was empty, and changes no
/// other cell.
pub proof fn lemma_scatter(grid: GridView, spots: Seq<Coord<usize>>, state: u64, due: int)
    requires
        grid.wf(),
        free_spots(grid, spots),
        spots.len() <= u64::MAX,
    ensures
        ({
            let after = scatter(grid, spots, state, due).0;
            let placed = scattered(spots.len() as int, due);
            &&& after.wf()
            &&& after.width == grid.width
            &&& after.height == grid.height
            &&& after.count(CellType::Consumable) == grid.count(CellType::Consumable) + placed
            &&& after.count(CellType::Organism) == grid.count(CellType::Organism)
            &&& after.count(CellType::Empty) + placed == grid.count(CellType::Empty)
            &&& forall|c: Coord<usize>|
                grid.within(c) ==> #[trigger] after.at(c) == grid.at(c) || (grid.at(c)
                    == CellType::Empty && after.at(c) == CellType::Consumable)
        }),
    decreases due,
{
    if due > 0 && spots.len() > 0 {
        let j: int = rng_below(state, spots.len() as u64) as int;
        let g1 = grid.put(spots[j], CellType::Consumable);
        let rest = spots.update(j, spots.last()).drop_last();
        lemma_spot_taken(grid, spots, j, CellType::Consumable);
        lemma_scatter(g1, rest, rng_advance(state), due - 1);
        lemma_put_count(grid, spots[j], CellType::Consumable, CellType::Consumable);
        lemma_put_count(grid, spots[j], CellType::Consumable, CellType::Organism);
        lemma_put_count(grid, spots[j], CellType::Consumable, CellType::Empty);
        let after = scatter(grid, spots, state, due).0;
        assert(after == scatter(g1, rest, rng_advance(state), due - 1).0);
        assert forall|c: Coord<usize>| grid.within(c) implies #[trigger] after.at(c) == grid.at(c)
            || (grid.at(c) == CellType::Empty && after.at(c) == CellType::Consumable) by {
            lemma_put_at(grid, spots[j], CellType::Consumable, c);
        }
    }
}

/// Reconciliation keeps the world well formed and hands back energy in whole
/// pellets: afterwards less than one pellet is missing from the budget, or
/// no cell is empty.
pub proof fn lemma_reconciled(w: WorldView)
    requires
        w.wf(),
    ensures
        w.reconciled().wf(),
        w.reconciled().budget == w.budget,
        w.reconciled().params == w.params,
        w.reconciled().state == w.state,
        w.reconciled().orgs == w.orgs,
        w.reconciled().coords == w.coords,
        w.reconciled().ids == w.ids,
        0 <= w.pellets_due(),
        w.reconciled().total_energy() == w.total_energy() + scattered(
            w.grid.count(CellType::Empty) as int,
            w.pellets_due(),
        ) * PELLET_ENERGY,
        w.reconciled().total_energy() <= w.budget,
        w.budget - w.reconciled().total_energy() < PELLET_ENERGY || w.reconciled().grid.count(
            CellType::Empty,
        ) == 0,
{
    reveal(WorldView::wf);
    let spots = w.grid.coords_of(CellType::Empty);
    let due = w.pellets_due();
    let w2 = w.reconciled();
    lemma_coords_of(w.grid, CellType::Empty);
    crate::grid::lemma_count_bound(w.grid.cells, w.grid.cells.len() as int, CellType::Empty);
    lemma_scatter(w.grid, spots, w.rng, due);
    let placed = scattered(spots.len() as int, due);
    assert(w2.grid == scatter(w.grid, spots, w.rng, due).0);
    assert forall|i: int| 0 <= i < w2.coords.len() implies w2.grid.within(#[trigger] w2.coords[i])
        && w2.grid.at(w2.coords[i]) == CellType::Organism by {
        assert(w.grid.within(w.coords[i]) && w.grid.at(w.coords[i]) == CellType::Organism);
        assert(w2.grid.at(w.coords[i]) == w.grid.at(w.coords[i]) || (w.grid.at(w.coords[i])
            == CellType::Empty && w2.grid.at(w.coords[i]) == CellType::Consumable));
    }
    assert(w2.total_energy() == w.total_energy() + placed * PELLET_ENERGY) by (nonlinear_arith)
        requires
            w2.total_energy() == energy_sum(w.orgs, w.orgs.len() as int) + w2.grid.count(
                CellType::Consumable,
            ) * PELLET_ENERGY,
            w.total_energy() == energy_sum(w.orgs, w.orgs.len() as int) + w.grid.count(
                CellType::Consumable,
            ) * PELLET_ENERGY,
            w2.grid.count(CellType::Consumable) == w.grid.count(CellType::Consumable) + placed,
    ;
}

/// The blank grid is well formed and holds nothing.
pub proof fn lemma_blank_grid(width: nat, height: nat, n: int, kind: CellType)
    requires
        width * height <= usize::MAX,
        width <= usize::MAX,
        height <= usize::MAX,
        0 <= n <= width * height,
    ensures
        GridView::blank(width, height).wf(),
        count_upto(GridView::blank(width, height).cells, n, kind) == if kind == CellType::Empty {
            n
        } else {
            0
        },
    decreases n,
{
    if n > 0 {
        lemma_blank_grid(width, height, n - 1, kind);
    }
}

/// The blank world is well formed and holds no energy.
pub proof fn lemma_blank(params: Parameters, seed: u64)
    requires
        params.valid(),
    ensures
        WorldView::blank(params, seed).wf(),
        WorldView::blank(params, seed).total_energy() == 0,
{
    reveal(WorldView::wf);
    let size = params.grid_size as nat;
    lemma_blank_grid(size, size, (size * size) as int, CellType::Organism);
    lemma_blank_grid(size, size, (size * size) as int, CellType::Consumable);
}

/// Populating keeps the world well formed. The energy and the budget grow by
/// the energy of the organisms that were put in.
pub proof fn lemma_populated(w: WorldView, spots: Seq<Coord<usize>>, n: nat)
    requires
        w.wf(),
        free_spots(w.grid, spots),
        spots.len() <= u64::MAX,
        w.next_id + n <= u64::MAX,
        w.budget + n * INITIAL_ENERGY <= i64::MAX,
    ensures
        w.populated(spots, n).wf(),
        w.populated(spots, n).params == w.params,
        w.populated(spots, n).state == w.state,
        w.populated(spots, n).orgs.len() == w.orgs.len() + settlers(spots.len() as int, n as int),
        w.populated(spots, n).budget == w.budget + settlers(spots.len() as int, n as int)
            * INITIAL_ENERGY,
        w.populated(spots, n).total_energy() == w.total_energy() + settlers(
            spots.len() as int,
            n as int,
        ) * INITIAL_ENERGY,
    decreases n,
{
    if n > 0 && spots.len() > 0 {
        let j: int = rng_below(w.rng, spots.len() as u64) as int;
        let s1: u64 = rng_advance(w.rng);
        let (genome, s2) = fresh_genes(w.params.genome_len as nat, s1);
        let org = OrganismView { genome, species: 0, age: 0, energy: INITIAL_ENERGY };
        let w0 = WorldView { rng: s2, ..w };
        lemma_wf_basics(w);
        lemma_wf_frame(w, w0);
        let w1 = w0.with_organism(org, spots[j]);
        let rest = spots.update(j, spots.last()).drop_last();
        lemma_with_organism(w0, org, spots[j]);
        lemma_spot_taken(w.grid, spots, j, CellType::Organism);
        lemma_populated(w1, rest, (n - 1) as nat);
        assert(w.populated(spots, n) == w1.populated(rest, (n - 1) as nat));
    }
}

/// The world at the start of a run is well formed.
pub proof fn lemma_genesis(params: Parameters, seed: u64)
    requires
        params.valid(),
    ensures
        WorldView::genesis(params, seed).wf(),
        WorldView::genesis(params, seed).params == params,
        WorldView::genesis(params, seed).orgs.len() <= params.n_initial_entities,
{
    reveal(WorldView::wf);
    let empty = WorldView::blank(params, seed);
    lemma_blank(params, seed);
    let spots = empty.grid.coords_of(CellType::Empty);
    lemma_coords_of(empty.grid, CellType::Empty);
    crate::grid::lemma_count_bound(empty.grid.cells, empty.grid.cells.len() as int, CellType::Empty);
    let n = params.n_initial_entities as nat;
    assert(n * INITIAL_ENERGY <= i64::MAX) by (nonlinear_arith)
        requires
            2 * n * INITIAL_ENERGY <= i64::MAX,
            INITIAL_ENERGY == 1000,
    ;
    lemma_populated(empty, spots, n);
    let settled = empty.populated(spots, n);
    let k = settlers(spots.len() as int, n as int);
    assert(2 * (k * INITIAL_ENERGY) <= i64::MAX) by (nonlinear_arith)
        requires
            0 <= k <= n,
            2 * n * INITIAL_ENERGY <= i64::MAX,
            INITIAL_ENERGY == 1000,
    ;
    let doubled = WorldView { budget: (2 * settled.budget) as i64, ..settled };
    lemma_budget_raised(settled, doubled.budget);
    lemma_reconciled(doubled);
}

/// One step keeps the world well formed. After a step that ran a round of
/// ticks, the energy in the world is at most the budget and less than one
/// pellet short of it, unless no cell is empty: what the organisms used up
/// has come back as pellets.
pub proof fn lemma_stepped(w: WorldView)
    requires
        w.wf(),
    ensures
        w.stepped().wf(),
        w.stepped().params == w.params,
        w.stepped().total_energy() <= w.stepped().budget,
        !w.state.reset ==> w.stepped().budget == w.budget,
        !w.state.reset && !w.state.paused ==> w.budget - w.stepped().total_energy()
            < PELLET_ENERGY || w.stepped().grid.count(CellType::Empty) == 0,
{
    lemma_wf_basics(w);
    if w.state.reset {
        lemma_genesis(w.params, w.rng);
        let fresh = WorldView::genesis(w.params, w.rng);
        lemma_wf_frame(fresh, w.renewed());
        lemma_wf_basics(w.renewed());
    } else if w.state.paused {
    } else {
        lemma_run(w, 0, w.orgs.len());
        lemma_reconciled(w.run(0, w.orgs.len()));
    }
}

/// In a well-formed world no two organisms share a cell, every organism
/// stands on a cell tagged `Organism`, and there are as many such cells as
/// organisms: a cell holds one organism, or one pellet, or nothing.
pub proof fn lemma_occupancy_unique(w: WorldView, i: int, j: int)
    requires
        w.wf(),
        0 <= i < w.orgs.len(),
        0 <= j < w.orgs.len(),
        i != j,
    ensures
        w.coords[i] != w.coords[j],
        w.grid.at(w.coords[i]) == CellType::Organism,
        w.grid.at(w.coords[i]) != CellType::Consumable,
        w.grid.count(CellType::Organism) == w.orgs.len(),
{
    reveal(WorldView::wf);
    if i < j {
        assert(w.coords[i] != w.coords[j]);
    } else {
        assert(w.coords[j] != w.coords[i]);
    }
}

/// The plain facts of a well-formed world: the grid has the configured
/// extent, the three columns of the table are equally long, and the energy is
/// within the budget.
pub proof fn lemma_wf_basics(w: WorldView)
    requires
        w.wf(),
    ensures
        w.params.valid(),
        w.grid.wf(),
        w.grid.width == w.params.grid_size,
        w.grid.height == w.params.grid_size,
        w.coords.len() == w.orgs.len(),
        w.ids.len() == w.orgs.len(),
        w.grid.count(CellType::Organism) == w.orgs.len(),
        0 <= energy_sum(w.orgs, w.orgs.len() as int) <= w.total_energy() <= w.budget,
{
    reveal(WorldView::wf);
    lemma_energy_bounds(w.orgs, 0, w.orgs.len() as int);
    assert(w.grid.count(CellType::Consumable) * PELLET_ENERGY >= 0) by (nonlinear_arith);
}

/// What a well-formed world says of one organism: it stands on a cell of the
/// grid that is tagged `Organism`, it has energy, but no more than the
/// organisms before it and it have together, and its id has been given out.
pub proof fn lemma_wf_resident(w: WorldView, i: int)
    requires
        w.wf(),
        0 <= i < w.orgs.len(),
    ensures
        w.grid.within(w.coords[i]),
        w.grid.at(w.coords[i]) == CellType::Organism,
        0 < w.orgs[i].energy <= w.budget,
        0 <= energy_sum(w.orgs, i),
        energy_sum(w.orgs, i) + w.orgs[i].energy == energy_sum(w.orgs, i + 1),
        energy_sum(w.orgs, i + 1) <= energy_sum(w.orgs, w.orgs.len() as int),
        w.ids[i] < w.next_id,
{
    reveal(WorldView::wf);
    lemma_wf_basics(w);
    lemma_energy_bounds(w.orgs, i, w.orgs.len() as int);
    lemma_energy_bounds(w.orgs, i + 1, w.orgs.len() as int);
}

/// Whether a world is well formed does not depend on its control state or on
/// the state of its random source, and neither does its energy.
pub proof fn lemma_wf_frame(w: WorldView, other: WorldView)
    requires
        w.wf(),
        other == (WorldView { state: other.state, rng: other.rng, ..w }),
    ensures
        other.wf(),
        other.total_energy() == w.total_energy(),
{
    reveal(WorldView::wf);
}

/// A well-formed world stays so when its budget is raised, and its energy
/// stays what it is.
pub proof fn lemma_budget_raised(w: WorldView, budget: i64)
    requires
        w.wf(),
        w.budget <= budget,
    ensures
        (WorldView { budget, ..w }).wf(),
        (WorldView { budget, ..w }).total_energy() == w.total_energy(),
{
    reveal(WorldView::wf);
}

} // verus!
