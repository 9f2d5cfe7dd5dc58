//! The world: a fixed toroidal grid of cells, the merit-proportional
//! scheduler, birth placement, age-based death, and population statistics.

use vstd::prelude::*;
use vstd::pervasive::VecAdditionalExecFns;
use vstd::arithmetic::div_mod::{
    lemma_fundamental_div_mod, lemma_mod_add_multiples_vanish, lemma_mod_bound,
    lemma_mod_equivalence, lemma_small_mod,
};
use crate::execute::execute_instruction;
use crate::organism::{sat_inc_u64, spec_fitness_milli, spec_has_task, Organism, MERIT_CAP};
use crate::rng::{rng_from_entropy, shuffle_coords};
use crate::tasks::{TaskDetector, TaskEnvironment};

verus! {

/// Grid width of the torus.
pub const WORLD_WIDTH: usize = 60;

/// Grid height of the torus.
pub const WORLD_HEIGHT: usize = 60;

/// Cycle budget granted per living organism and tick.
pub const CYCLES_PER_ORGANISM: u64 = 30;

/// Hard safety cap on the cycles one organism may run in one tick.
pub const MAX_CYCLES_PER_ORGANISM: u64 = 500;

/// Number of living organisms in a grid.
pub open spec fn spec_population(g: Seq<Option<Organism>>) -> nat
    decreases g.len(),
{
    if g.len() == 0 {
        0
    } else {
        (if g.last() is Some {
            1nat
        } else {
            0nat
        }) + spec_population(g.drop_last())
    }
}

/// Sum of the merit of all living organisms in a grid.
pub open spec fn spec_total_merit(g: Seq<Option<Organism>>) -> int
    decreases g.len(),
{
    if g.len() == 0 {
        0
    } else {
        (match g.last() {
            Some(o) => o.merit as int,
            None => 0,
        }) + spec_total_merit(g.drop_last())
    }
}

/// Sum of the genome lengths of all living organisms in a grid.
pub open spec fn spec_total_genome_len(g: Seq<Option<Organism>>) -> int
    decreases g.len(),
{
    if g.len() == 0 {
        0
    } else {
        (match g.last() {
            Some(o) => o.genome@.len() as int,
            None => 0,
        }) + spec_total_genome_len(g.drop_last())
    }
}

/// Sum of the fitness (in thousandths) of all living organisms.
pub open spec fn spec_total_fitness_milli(g: Seq<Option<Organism>>) -> int
    decreases g.len(),
{
    if g.len() == 0 {
        0
    } else {
        (match g.last() {
            Some(o) => spec_fitness_milli(o.merit, o.gestation_time),
            None => 0,
        }) + spec_total_fitness_milli(g.drop_last())
    }
}

/// How many living organisms have completed the task with bit index `t`.
pub open spec fn spec_task_count(g: Seq<Option<Organism>>, t: u8) -> nat
    decreases g.len(),
{
    if g.len() == 0 {
        0
    } else {
        (match g.last() {
            Some(o) => if spec_has_task(o.tasks_completed, t) {
                1nat
            } else {
                0nat
            },
            None => 0,
        }) + spec_task_count(g.drop_last(), t)
    }
}

/// Prefixes grow these sums cell by cell.
proof fn lemma_sums_take_step(g: Seq<Option<Organism>>, i: int)
    requires
        0 <= i < g.len(),
    ensures
        spec_population(g.take(i + 1)) == spec_population(g.take(i)) + (if g[i] is Some {
            1nat
        } else {
            0nat
        }),
        spec_total_merit(g.take(i + 1)) == spec_total_merit(g.take(i)) + (match g[i] {
            Some(o) => o.merit as int,
            None => 0,
        }),
        spec_total_genome_len(g.take(i + 1)) == spec_total_genome_len(g.take(i)) + (match g[i] {
            Some(o) => o.genome@.len() as int,
            None => 0,
        }),
        spec_total_fitness_milli(g.take(i + 1)) == spec_total_fitness_milli(g.take(i)) + (match g[i] {
            Some(o) => spec_fitness_milli(o.merit, o.gestation_time),
            None => 0,
        }),
        forall|t: u8|
            spec_task_count(g.take(i + 1), t) == spec_task_count(g.take(i), t) + (match g[i] {
                Some(o) => if spec_has_task(o.tasks_completed, t) {
                    1nat
                } else {
                    0nat
                },
                None => 0nat,
            }),
{
    let pre = g.take(i + 1);
    assert(pre.last() == g[i]);
    assert(pre.drop_last() =~= g.take(i));
}

/// A grid with no organism has population zero, and conversely a grid of
/// well-formed cells with total merit zero is empty.
proof fn lemma_population_merit(g: Seq<Option<Organism>>)
    requires
        forall|i: int| 0 <= i < g.len() ==> ((#[trigger] g[i]) matches Some(o) ==> o.wf()),
    ensures
        spec_total_merit(g) >= spec_population(g),
        spec_population(g) == 0 ==> spec_total_merit(g) == 0,
    decreases g.len(),
{
    if g.len() > 0 {
        assert(g.last() == g[g.len() - 1]);
        assert(forall|i: int|
            0 <= i < g.drop_last().len() ==> ((#[trigger] g.drop_last()[i]) matches Some(o)
                ==> o.wf()));
        lemma_population_merit(g.drop_last());
    }
}

/// Updating one cell changes the population by the occupancy difference
/// at that cell.
proof fn lemma_population_update(g: Seq<Option<Organism>>, i: int, v: Option<Organism>)
    requires
        0 <= i < g.len(),
    ensures
        spec_population(g.update(i, v)) as int == spec_population(g) as int - (if g[i] is Some {
            1int
        } else {
            0int
        }) + (if v is Some {
            1int
        } else {
            0int
        }),
    decreases g.len(),
{
    let g2 = g.update(i, v);
    if i == g.len() - 1 {
        assert(g2.drop_last() =~= g.drop_last());
        assert(g2.last() == v);
        assert(g.last() == g[i]);
    } else {
        assert(g2.drop_last() =~= g.drop_last().update(i, v));
        assert(g2.last() == g.last());
        lemma_population_update(g.drop_last(), i, v);
    }
}

/// A grid with population zero has no occupied cell.
proof fn lemma_population_zero_all_none(g: Seq<Option<Organism>>)
    requires
        spec_population(g) == 0,
    ensures
        forall|i: int| 0 <= i < g.len() ==> (#[trigger] g[i]) is None,
    decreases g.len(),
{
    if g.len() > 0 {
        assert(g.last() == g[g.len() - 1]);
        lemma_population_zero_all_none(g.drop_last());
        assert forall|i: int| 0 <= i < g.len() implies (#[trigger] g[i]) is None by {
            if i < g.len() - 1 {
                assert(g.drop_last()[i] == g[i]);
            }
        }
    }
}

/// The flat grid index addressed by a coordinate pair.
pub open spec fn spec_pos_index(p: (usize, usize)) -> int {
    spec_grid_index(p.0 as int, p.1 as int)
}

/// The age bound every organism alive after a tick satisfies: it passed
/// the age check before running (or was born this tick) and then executed
/// at most the safety cap of cycles.
pub open spec fn spec_age_checked(o: Organism, death_method: u8, age_limit: u64) -> bool {
    if death_method == 1 {
        (o.instruction_count as int) < age_limit + MAX_CYCLES_PER_ORGANISM
    } else if death_method == 2 {
        (o.instruction_count as int) < o.genome@.len() * age_limit + MAX_CYCLES_PER_ORGANISM
    } else {
        true
    }
}

/// Scheduler fairness law: with a total budget `total_cycles` and total
/// merit `total_merit`, the integer share `total_cycles * merit /
/// total_merit` granted to an organism differs from its exact
/// proportional share by less than one whole unit of total merit:
/// `total_merit * share <= total_cycles * merit < total_merit * (share + 1)`.
pub proof fn lemma_scheduler_fairness(total_cycles: int, total_merit: int, merit: int)
    requires
        total_merit >= 1,
        merit >= 0,
        total_cycles >= 0,
    ensures
        ({
            let share = (total_cycles * merit) / total_merit;
            total_merit * share <= total_cycles * merit < total_merit * (share + 1)
        }),
{
    let x = total_cycles * merit;
    vstd::arithmetic::mul::lemma_mul_nonnegative(total_cycles, merit);
    lemma_fundamental_div_mod(x, total_merit);
    lemma_mod_bound(x, total_merit);
    vstd::arithmetic::mul::lemma_mul_is_distributive_add(total_merit, x / total_merit, 1);
}

/// The toroidal world grid and its bookkeeping.
pub struct World {
    /// One slot per cell: the organism living there, if any.
    pub grid: Vec<Option<Organism>>,
    /// One task detector per occupied cell; recreated on every birth.
    pub task_detectors: Vec<Option<TaskDetector>>,
    /// Which tasks are enabled and their reward limits.
    pub task_env: TaskEnvironment,
    /// Per-copy mutation probability, in parts per million.
    pub copy_mutation_rate: u32,
    /// Per-division insertion probability, in parts per million.
    pub insertion_rate: u32,
    /// Per-division deletion probability, in parts per million.
    pub deletion_rate: u32,
    /// Age death: 0 none, 1 fixed limit, 2 limit times genome length.
    pub death_method: u8,
    /// The age limit (or multiplier, under method 2).
    pub age_limit: u64,
    /// Whether births prefer empty neighbor cells.
    pub prefer_empty: bool,
    /// Ticks completed.
    pub total_updates: u64,
    /// Organisms ever injected.
    pub total_organisms: u64,
    /// Births ever placed.
    pub total_births: u64,
    /// Deaths from age, replacement and overwriting injection.
    pub total_deaths: u64,
    /// Number of living organisms, kept current after every change.
    pub population_size: usize,
    /// The world's random number generator.
    pub rng: rand::rngs::SmallRng,
}

impl World {
    /// The grid and detector arrays cover the whole torus, every organism
    /// on the grid is well-formed, and every occupied cell has a detector.
    pub open spec fn grid_wf(self) -> bool {
        &&& self.grid@.len() == WORLD_WIDTH * WORLD_HEIGHT
        &&& self.task_detectors@.len() == WORLD_WIDTH * WORLD_HEIGHT
        &&& forall|i: int|
            0 <= i < self.grid@.len() ==> ((#[trigger] self.grid@[i]) matches Some(o) ==> o.wf())
        &&& forall|i: int|
            0 <= i < self.grid@.len() ==> ((#[trigger] self.grid@[i]) is Some
                ==> self.task_detectors@[i] is Some)
    }

    /// Full invariant: a well-formed grid whose recorded population size
    /// matches the organisms actually present.
    pub open spec fn wf(self) -> bool {
        &&& self.grid_wf()
        &&& self.population_size == spec_population(self.grid@)
    }

    /// An empty world with the default Avida-style configuration: copy
    /// mutation 0.75%, no indels, age death at twenty times the genome
    /// length, births preferring empty cells.
    pub fn new() -> (r: Self)
        ensures
            r.wf(),
            r.population_size == 0,
            forall|i: int| 0 <= i < r.grid@.len() ==> (#[trigger] r.grid@[i]) is None,
            r.copy_mutation_rate == 7500,
            r.insertion_rate == 0,
            r.deletion_rate == 0,
            r.death_method == 2,
            r.age_limit == 20,
            r.prefer_empty == true,
            r.total_updates == 0,
            r.total_organisms == 0,
            r.total_births == 0,
            r.total_deaths == 0,
    {
        let grid_size = WORLD_WIDTH * WORLD_HEIGHT;
        let mut grid: Vec<Option<Organism>> = Vec::new();
        let mut detectors: Vec<Option<TaskDetector>> = Vec::new();
        let mut k: usize = 0;
        while k < grid_size
            invariant
                k <= grid_size,
                grid@.len() == k,
                detectors@.len() == k,
                forall|i: int| 0 <= i < k ==> (#[trigger] grid@[i]) is None,
                forall|i: int| 0 <= i < k ==> (#[trigger] detectors@[i]) is None,
            decreases grid_size - k,
        {
            grid.push(None);
            detectors.push(None);
            k = k + 1;
        }
        proof {
            lemma_population_all_none(grid@);
        }
        World {
            grid,
            task_detectors: detectors,
            task_env: TaskEnvironment::default_logic9(),
            copy_mutation_rate: 7500,
            insertion_rate: 0,
            deletion_rate: 0,
            death_method: 2,
            age_limit: 20,
            prefer_empty: true,
            total_updates: 0,
            total_organisms: 0,
            total_births: 0,
            total_deaths: 0,
            population_size: 0,
            rng: rng_from_entropy(),
        }
    }

    /// Width and height of the torus.
    pub fn dimensions(&self) -> (r: (usize, usize))
        ensures
            r == (WORLD_WIDTH, WORLD_HEIGHT),
    {
        (WORLD_WIDTH, WORLD_HEIGHT)
    }

    /// Wrap signed coordinates onto the torus.
    pub fn wrap_coord(&self, x: isize, y: isize) -> (r: (usize, usize))
        ensures
            r.0 < WORLD_WIDTH && r.1 < WORLD_HEIGHT,
            r.0 as int == (x as int) % (WORLD_WIDTH as int),
            r.1 as int == (y as int) % (WORLD_HEIGHT as int),
    {
        (wrap_dim(x, WORLD_WIDTH), wrap_dim(y, WORLD_HEIGHT))
    }

    /// The flat index of a cell.
    fn grid_index(&self, x: usize, y: usize) -> (r: usize)
        requires
            x < WORLD_WIDTH,
            y < WORLD_HEIGHT,
        ensures
            r == spec_grid_index(x as int, y as int),
            r < WORLD_WIDTH * WORLD_HEIGHT,
    {
        y * WORLD_WIDTH + x
    }

    /// The eight Moore neighbors of a cell, in row-major offset order,
    /// wrapping around the torus.
    pub fn get_neighbors(&self, x: usize, y: usize) -> (r: [(usize, usize); 8])
        requires
            x < WORLD_WIDTH,
            y < WORLD_HEIGHT,
        ensures
            r@.len() == 8,
            forall|k: int| 0 <= k < 8 ==> #[trigger] r@[k] == spec_neighbor(x as int, y as int, k),
            forall|k: int|
                0 <= k < 8 ==> (#[trigger] r@[k]).0 < WORLD_WIDTH && r@[k].1 < WORLD_HEIGHT,
    {
        let xm1 = if x == 0 {
            WORLD_WIDTH - 1
        } else {
            x - 1
        };
        let xp1 = if x == WORLD_WIDTH - 1 {
            0
        } else {
            x + 1
        };
        let ym1 = if y == 0 {
            WORLD_HEIGHT - 1
        } else {
            y - 1
        };
        let yp1 = if y == WORLD_HEIGHT - 1 {
            0
        } else {
            y + 1
        };
        let r = [
            (xm1, ym1),
            (xm1, y),
            (xm1, yp1),
            (x, ym1),
            (x, yp1),
            (xp1, ym1),
            (xp1, y),
            (xp1, yp1),
        ];
        proof {
            lemma_wrap_small(x as int, WORLD_WIDTH as int);
            lemma_wrap_small(y as int, WORLD_HEIGHT as int);
            assert forall|k: int| 0 <= k < 8 implies #[trigger] r@[k] == spec_neighbor(
                x as int,
                y as int,
                k,
            ) by {
                assert(r@[0] == (xm1, ym1));
                assert(r@[1] == (xm1, y));
                assert(r@[2] == (xm1, yp1));
                assert(r@[3] == (x, ym1));
                assert(r@[4] == (x, yp1));
                assert(r@[5] == (xp1, ym1));
                assert(r@[6] == (xp1, y));
                assert(r@[7] == (xp1, yp1));
            }
        }
        r
    }

    /// Place an organism at a position, replacing (and counting the death
    /// of) any occupant; positions off the grid are rejected with no
    /// change. The cell receives a fresh task detector.
    pub fn inject_organism(&mut self, org: Organism, x: usize, y: usize) -> (r: bool)
        requires
            old(self).wf(),
            org.wf(),
        ensures
            final(self).wf(),
            r == (x < WORLD_WIDTH && y < WORLD_HEIGHT),
            !r ==> *final(self) == *old(self),
            r ==> ({
                let idx = spec_grid_index(x as int, y as int);
                &&& final(self).grid@ == old(self).grid@.update(idx, Some(org))
                &&& final(self).task_detectors@[idx] matches Some(det) && det.inputs@
                    == Seq::<i32>::empty()
                &&& final(self).total_organisms == sat_inc_u64(old(self).total_organisms)
                &&& final(self).total_deaths == (if old(self).grid@[idx] is Some {
                    sat_inc_u64(old(self).total_deaths)
                } else {
                    old(self).total_deaths
                })
                &&& final(self).population_size == spec_population(final(self).grid@)
                &&& final(self).total_updates == old(self).total_updates
                &&& final(self).total_births == old(self).total_births
            }),
    {
        if x >= WORLD_WIDTH || y >= WORLD_HEIGHT {
            return false;
        }
        let idx = self.grid_index(x, y);
        if self.grid[idx].is_some() {
            if self.total_deaths != u64::MAX {
                self.total_deaths = self.total_deaths + 1;
            }
        }
        self.grid.set(idx, Some(org));
        self.task_detectors.set(idx, Some(TaskDetector::new()));
        let pop = self.count_population();
        self.population_size = pop;
        if self.total_organisms != u64::MAX {
            self.total_organisms = self.total_organisms + 1;
        }
        true
    }

    /// Inject the canonical ancestor at the center of the world.
    pub fn inject_ancestor(&mut self)
        requires
            old(self).wf(),
        ensures
            final(self).wf(),
            final(self).grid@ == old(self).grid@.update(
                spec_grid_index((WORLD_WIDTH / 2) as int, (WORLD_HEIGHT / 2) as int),
                final(self).grid@[spec_grid_index(
                    (WORLD_WIDTH / 2) as int,
                    (WORLD_HEIGHT / 2) as int,
                )],
            ),
            ({
                let cell = final(self).grid@[spec_grid_index(
                    (WORLD_WIDTH / 2) as int,
                    (WORLD_HEIGHT / 2) as int,
                )];
                cell matches Some(o) && o.genome@ == crate::organism::spec_ancestor_genome()
                    && crate::organism::fresh_organism_state(o)
            }),
            final(self).population_size == spec_population(final(self).grid@),
    {
        let ancestor = Organism::ancestor();
        let placed = self.inject_organism(ancestor, WORLD_WIDTH / 2, WORLD_HEIGHT / 2);
    }

    /// Inject the task-capable ancestor at the center of the world.
    pub fn inject_ancestor_with_tasks(&mut self)
        requires
            old(self).wf(),
        ensures
            final(self).wf(),
            ({
                let cell = final(self).grid@[spec_grid_index(
                    (WORLD_WIDTH / 2) as int,
                    (WORLD_HEIGHT / 2) as int,
                )];
                cell matches Some(o) && o.genome@ == crate::organism::spec_task_ancestor_genome()
                    && crate::organism::fresh_organism_state(o)
            }),
    {
        let ancestor = Organism::ancestor_with_tasks();
        let placed = self.inject_organism(ancestor, WORLD_WIDTH / 2, WORLD_HEIGHT / 2);
    }

    /// Count the living organisms on the grid.
    pub fn count_population(&self) -> (r: usize)
        ensures
            r == spec_population(self.grid@),
    {
        let mut count: usize = 0;
        let mut i: usize = 0;
        proof {
            assert(self.grid@.take(0) =~= Seq::<Option<Organism>>::empty());
        }
        while i < self.grid.len()
            invariant
                i <= self.grid@.len(),
                count == spec_population(self.grid@.take(i as int)),
                count <= i,
            decreases self.grid@.len() - i,
        {
            proof {
                lemma_sums_take_step(self.grid@, i as int);
            }
            if self.grid[i].is_some() {
                count = count + 1;
            }
            i = i + 1;
        }
        proof {
            assert(self.grid@.take(self.grid@.len() as int) =~= self.grid@);
        }
        count
    }

    /// How many living organisms have completed each of the nine tasks.
    pub fn task_statistics(&self) -> (r: [usize; 9])
        requires
            self.grid@.len() <= WORLD_WIDTH * WORLD_HEIGHT,
        ensures
            forall|t: int| 0 <= t < 9 ==> #[trigger] r@[t] == spec_task_count(self.grid@, t as u8),
    {
        let mut counts: Vec<usize> = Vec::new();
        let mut t: usize = 0;
        while t < 9
            invariant
                t <= 9,
                counts@.len() == t,
                forall|j: int| 0 <= j < t ==> #[trigger] counts@[j] == 0,
            decreases 9 - t,
        {
            counts.push(0);
            t = t + 1;
        }
        let mut i: usize = 0;
        proof {
            assert(self.grid@.take(0) =~= Seq::<Option<Organism>>::empty());
        }
        while i < self.grid.len()
            invariant
                i <= self.grid@.len(),
                self.grid@.len() <= WORLD_WIDTH * WORLD_HEIGHT,
                counts@.len() == 9,
                forall|j: int|
                    0 <= j < 9 ==> #[trigger] counts@[j] == spec_task_count(
                        self.grid@.take(i as int),
                        j as u8,
                    ),
                forall|j: int| 0 <= j < 9 ==> #[trigger] counts@[j] <= i,
            decreases self.grid@.len() - i,
        {
            proof {
                lemma_sums_take_step(self.grid@, i as int);
            }
            match &self.grid[i] {
                Some(org) => {
                    let mut t2: usize = 0;
                    let ghost counts_before = counts@;
                    while t2 < 9
                        invariant
                            t2 <= 9,
                            counts@.len() == 9,
                            i < self.grid@.len(),
                            self.grid@.len() <= WORLD_WIDTH * WORLD_HEIGHT,
                            self.grid@[i as int] matches Some(o2) && o2 == org,
                            forall|j: int|
                                0 <= j < t2 ==> #[trigger] counts@[j] == counts_before[j] + (
                                if spec_has_task(org.tasks_completed, j as u8) {
                                    1int
                                } else {
                                    0int
                                }),
                            forall|j: int| t2 <= j < 9 ==> #[trigger] counts@[j] == counts_before[j],
                            forall|j: int| 0 <= j < 9 ==> #[trigger] counts_before[j] <= i,
                        decreases 9 - t2,
                    {
                        if org.has_completed_task(t2 as u8) {
                            let c = counts[t2];
                            counts.set(t2, c + 1);
                        }
                        t2 = t2 + 1;
                    }
                },
                None => {},
            }
            i = i + 1;
        }
        proof {
            assert(self.grid@.take(self.grid@.len() as int) =~= self.grid@);
        }
        let r = [
            counts[0],
            counts[1],
            counts[2],
            counts[3],
            counts[4],
            counts[5],
            counts[6],
            counts[7],
            counts[8],
        ];
        proof {
            assert forall|t3: int| 0 <= t3 < 9 implies #[trigger] r@[t3] == spec_task_count(
                self.grid@,
                t3 as u8,
            ) by {
                assert(r@[0] == counts@[0]);
                assert(r@[1] == counts@[1]);
                assert(r@[2] == counts@[2]);
                assert(r@[3] == counts@[3]);
                assert(r@[4] == counts@[4]);
                assert(r@[5] == counts@[5]);
                assert(r@[6] == counts@[6]);
                assert(r@[7] == counts@[7]);
                assert(r@[8] == counts@[8]);
            }
        }
        r
    }

    /// Average genome length over the living population, in thousandths;
    /// zero for an empty world.
    pub fn average_genome_size(&self) -> (r: u64)
        requires
            self.grid_wf(),
        ensures
            spec_population(self.grid@) == 0 ==> r == 0,
            spec_population(self.grid@) > 0 ==> r as int == 1000 * spec_total_genome_len(
                self.grid@,
            ) / (spec_population(self.grid@) as int),
    {
        let (total, count) = self.sum_genome_and_count();
        if count > 0 {
            (1000 * total) / (count as u64)
        } else {
            0
        }
    }

    /// Average merit over the living population, in thousandths; zero for
    /// an empty world.
    pub fn average_merit(&self) -> (r: u64)
        requires
            self.grid_wf(),
        ensures
            spec_population(self.grid@) == 0 ==> r == 0,
            spec_population(self.grid@) > 0 ==> r as int == 1000 * spec_total_merit(self.grid@) / (
            spec_population(self.grid@) as int),
    {
        let (total, count) = self.sum_merit_and_count();
        if count > 0 {
            (1000 * total) / (count as u64)
        } else {
            0
        }
    }

    /// Average fitness over the living population, in thousandths (each
    /// organism's fitness is merit over gestation time); zero for an
    /// empty world.
    pub fn average_fitness(&self) -> (r: u64)
        requires
            self.grid_wf(),
        ensures
            spec_population(self.grid@) == 0 ==> r == 0,
            spec_population(self.grid@) > 0 ==> r as int == spec_total_fitness_milli(self.grid@)
                / (spec_population(self.grid@) as int),
    {
        let mut total: u64 = 0;
        let mut count: usize = 0;
        let mut i: usize = 0;
        proof {
            assert(self.grid@.take(0) =~= Seq::<Option<Organism>>::empty());
        }
        while i < self.grid.len()
            invariant
                self.grid_wf(),
                i <= self.grid@.len(),
                count == spec_population(self.grid@.take(i as int)),
                count <= i,
                total == spec_total_fitness_milli(self.grid@.take(i as int)),
                total <= 1000000 * (i as int),
            decreases self.grid@.len() - i,
        {
            proof {
                lemma_sums_take_step(self.grid@, i as int);
            }
            match &self.grid[i] {
                Some(org) => {
                    let f = org.fitness();
                    proof {
                        assert(org.merit <= MERIT_CAP);
                        assert(spec_fitness_milli(org.merit, org.gestation_time) <= 1000000);
                        assert(self.grid@.len() <= usize::MAX);
                    }
                    total = total + f;
                    count = count + 1;
                },
                None => {},
            }
            i = i + 1;
        }
        proof {
            assert(self.grid@.take(self.grid@.len() as int) =~= self.grid@);
        }
        if count > 0 {
            total / (count as u64)
        } else {
            0
        }
    }

    /// The organism at a position, if the position is on the grid and the
    /// cell is occupied.
    pub fn get_organism(&self, x: usize, y: usize) -> (r: Option<&Organism>)
        requires
            self.grid_wf(),
        ensures
            r is Some <==> (x < WORLD_WIDTH && y < WORLD_HEIGHT && self.grid@[spec_grid_index(
                x as int,
                y as int,
            )] is Some),
            r matches Some(o) ==> *o == self.grid@[spec_grid_index(x as int, y as int)].unwrap(),
    {
        if x < WORLD_WIDTH && y < WORLD_HEIGHT {
            let idx = self.grid_index(x, y);
            self.grid[idx].as_ref()
        } else {
            None
        }
    }

    /// Empty every cell; the historical totals are kept.
    pub fn clear(&mut self)
        requires
            old(self).grid_wf(),
        ensures
            final(self).wf(),
            final(self).population_size == 0,
            forall|i: int| 0 <= i < final(self).grid@.len() ==> (#[trigger] final(self).grid@[i]) is None,
            final(self).total_updates == old(self).total_updates,
            final(self).total_births == old(self).total_births,
            final(self).total_deaths == old(self).total_deaths,
    {
        let n = self.grid.len();
        let mut i: usize = 0;
        while i < n
            invariant
                n == self.grid@.len(),
                self.task_detectors@.len() == old(self).task_detectors@.len(),
                n == old(self).grid@.len(),
                old(self).grid_wf(),
                i <= n,
                self.grid@.len() == n,
                forall|j: int| 0 <= j < i ==> (#[trigger] self.grid@[j]) is None,
                forall|j: int| 0 <= j < i ==> (#[trigger] self.task_detectors@[j]) is None,
                self.task_detectors@.len() == n,
                self.total_updates == old(self).total_updates,
                self.total_births == old(self).total_births,
                self.total_deaths == old(self).total_deaths,
            decreases n - i,
        {
            self.grid.set(i, None);
            self.task_detectors.set(i, None);
            i = i + 1;
        }
        self.population_size = 0;
        proof {
            lemma_population_all_none(self.grid@);
        }
    }

    /// Choose the cell for a newborn among the eight neighbors of the
    /// parent: the neighbors are shuffled; with `prefer_empty` set an
    /// empty one is taken if any exists, otherwise the first shuffled
    /// neighbor, whoever lives there. Only the RNG state changes.
    fn find_birth_location(&mut self, parent_x: usize, parent_y: usize) -> (r: Option<
        (usize, usize),
    >)
        requires
            old(self).grid_wf(),
            parent_x < WORLD_WIDTH,
            parent_y < WORLD_HEIGHT,
        ensures
            *final(self) == (World { rng: final(self).rng, ..*old(self) }),
            r is Some,
            r matches Some(p) ==> p.0 < WORLD_WIDTH && p.1 < WORLD_HEIGHT,
            r matches Some(p) ==> exists|k: int|
                0 <= k < 8 && p == spec_neighbor(parent_x as int, parent_y as int, k),
            r matches Some(p) ==> ((old(self).prefer_empty && old(self).grid@[spec_grid_index(
                p.0 as int,
                p.1 as int,
            )] is Some) ==> (forall|k: int|
                0 <= k < 8 ==> old(self).grid@[spec_grid_index(
                    #[trigger] spec_neighbor(parent_x as int, parent_y as int, k).0 as int,
                    spec_neighbor(parent_x as int, parent_y as int, k).1 as int,
                )] is Some)),
    {
        let neighbors = self.get_neighbors(parent_x, parent_y);
        let mut nv: Vec<(usize, usize)> = Vec::new();
        let mut k: usize = 0;
        while k < 8
            invariant
                k <= 8,
                nv@.len() == k,
                forall|j: int| 0 <= j < k ==> #[trigger] nv@[j] == neighbors@[j],
                neighbors@.len() == 8,
                forall|j: int|
                    0 <= j < 8 ==> #[trigger] neighbors@[j] == spec_neighbor(
                        parent_x as int,
                        parent_y as int,
                        j,
                    ),
                forall|j: int|
                    0 <= j < 8 ==> (#[trigger] neighbors@[j]).0 < WORLD_WIDTH && neighbors@[j].1
                        < WORLD_HEIGHT,
            decreases 8 - k,
        {
            nv.push(neighbors[k]);
            k = k + 1;
        }
        let ghost unshuffled = nv@;
        shuffle_coords(&mut nv, &mut self.rng);
        proof {
            assert forall|j: int|
                0 <= j < nv@.len() implies ((#[trigger] nv@[j]).0 < WORLD_WIDTH && nv@[j].1
                < WORLD_HEIGHT && exists|k2: int|
                0 <= k2 < 8 && nv@[j] == spec_neighbor(parent_x as int, parent_y as int, k2)) by {
                assert(unshuffled.contains(nv@[j]));
                let k2 = choose|k2: int| 0 <= k2 < unshuffled.len() && unshuffled[k2] == nv@[j];
                assert(nv@[j] == spec_neighbor(parent_x as int, parent_y as int, k2));
            }
            assert forall|k3: int|
                0 <= k3 < 8 implies nv@.contains(
                #[trigger] spec_neighbor(parent_x as int, parent_y as int, k3),
            ) by {
                assert(unshuffled[k3] == spec_neighbor(parent_x as int, parent_y as int, k3));
                assert(unshuffled.contains(spec_neighbor(parent_x as int, parent_y as int, k3)));
            }
        }
        if self.prefer_empty {
            let mut i: usize = 0;
            while i < nv.len()
                invariant
                    self.grid_wf(),
                    *self == (World { rng: self.rng, ..*old(self) }),
                    nv@.len() == 8,
                    i <= 8,
                    forall|j: int|
                        0 <= j < nv@.len() ==> (#[trigger] nv@[j]).0 < WORLD_WIDTH && nv@[j].1
                            < WORLD_HEIGHT,
                    forall|j: int|
                        0 <= j < nv@.len() ==> exists|k2: int|
                            0 <= k2 < 8 && #[trigger] nv@[j] == spec_neighbor(
                                parent_x as int,
                                parent_y as int,
                                k2,
                            ),
                    forall|k3: int|
                        0 <= k3 < 8 ==> nv@.contains(
                            #[trigger] spec_neighbor(parent_x as int, parent_y as int, k3),
                        ),
                    forall|j: int|
                        0 <= j < i ==> self.grid@[spec_grid_index(
                            (#[trigger] nv@[j]).0 as int,
                            nv@[j].1 as int,
                        )] is Some,
                decreases nv@.len() - i,
            {
                let (nx, ny) = nv[i];
                let idx = self.grid_index(nx, ny);
                if self.grid[idx].is_none() {
                    proof {
                        assert(nv@[i as int] == (nx, ny));
                    }
                    return Some((nx, ny));
                }
                i = i + 1;
            }
            // No empty neighbor: every neighbor cell is occupied, and the
            // first shuffled one is overwritten.
            let p = nv[0];
            proof {
                assert forall|k3: int|
                    0 <= k3 < 8 implies self.grid@[spec_grid_index(
                    #[trigger] spec_neighbor(parent_x as int, parent_y as int, k3).0 as int,
                    spec_neighbor(parent_x as int, parent_y as int, k3).1 as int,
                )] is Some by {
                    let nb = spec_neighbor(parent_x as int, parent_y as int, k3);
                    assert(unshuffled[k3] == nb);
                    assert(unshuffled.contains(nb));
                    assert(nv@.contains(nb));
                    let j = choose|j: int| 0 <= j < nv@.len() && nv@[j] == nb;
                    assert(self.grid@[spec_grid_index(nv@[j].0 as int, nv@[j].1 as int)] is Some);
                }
                assert(nv@[0].0 < WORLD_WIDTH && nv@[0].1 < WORLD_HEIGHT);
            }
            Some(p)
        } else {
            let p = nv[0];
            proof {
                assert(nv@[0].0 < WORLD_WIDTH && nv@[0].1 < WORLD_HEIGHT);
            }
            Some(p)
        }
    }

    /// One tick of the scheduler. An empty world (total merit zero) does
    /// nothing. Otherwise every living cell, in an order shuffled per
    /// tick, first faces age-based death, then executes a cycle budget
    /// proportional to its merit out of a total of `CYCLES_PER_ORGANISM`
    /// per living organism (at least one cycle, capped at
    /// `MAX_CYCLES_PER_ORGANISM`); a successful division places the
    /// offspring into a neighbor cell at once. The tick counter and the
    /// population count are brought up to date at the end.
    pub fn update(&mut self)
        requires
            old(self).wf(),
        ensures
            final(self).wf(),
            final(self).grid@.len() == old(self).grid@.len(),
            old(self).population_size == 0 ==> *final(self) == *old(self),
            old(self).population_size > 0 ==> final(self).total_updates == sat_inc_u64(
                old(self).total_updates,
            ),
            final(self).copy_mutation_rate == old(self).copy_mutation_rate,
            final(self).insertion_rate == old(self).insertion_rate,
            final(self).deletion_rate == old(self).deletion_rate,
            final(self).death_method == old(self).death_method,
            final(self).age_limit == old(self).age_limit,
            final(self).prefer_empty == old(self).prefer_empty,
            final(self).total_organisms == old(self).total_organisms,
            final(self).total_births >= old(self).total_births,
            final(self).total_deaths >= old(self).total_deaths,
            (final(self).total_births < u64::MAX && final(self).total_deaths < u64::MAX)
                ==> spec_population(final(self).grid@) as int - spec_population(
                old(self).grid@,
            ) as int == (final(self).total_births - old(self).total_births) - (final(self).total_deaths - old(self).total_deaths),
            (old(self).death_method == 0 && final(self).total_births < u64::MAX && final(self).total_deaths < u64::MAX) ==> final(self).total_deaths - old(self).total_deaths
                <= final(self).total_births - old(self).total_births,
            forall|i: int|
                0 <= i < final(self).grid@.len() ==> ((#[trigger] final(self).grid@[i]) matches
                    Some(o) ==> spec_age_checked(o, old(self).death_method, old(self).age_limit)),
    {
        let (total_merit, _count) = self.sum_merit_and_count();
        if total_merit == 0 {
            proof {
                lemma_population_merit(self.grid@);
                lemma_population_zero_all_none(self.grid@);
            }
            return ;
        }
        let pop = self.population_size;
        proof {
            lemma_population_bound(self.grid@);
        }
        let pop_for_budget: u64 = if pop == 0 {
            1
        } else {
            pop as u64
        };
        let total_cycles: u64 = CYCLES_PER_ORGANISM * pop_for_budget;

        // Collect the coordinates of the living cells, row-major, so that
        // every occupied cell is visited this tick.
        let mut positions: Vec<(usize, usize)> = Vec::new();
        let mut y: usize = 0;
        while y < WORLD_HEIGHT
            invariant
                self.grid_wf(),
                *self == *old(self),
                y <= WORLD_HEIGHT,
                forall|j: int|
                    0 <= j < positions@.len() ==> (#[trigger] positions@[j]).0 < WORLD_WIDTH
                        && positions@[j].1 < WORLD_HEIGHT,
                forall|ci: int|
                    0 <= ci < (y * WORLD_WIDTH) as int && (#[trigger] self.grid@[ci]) is Some
                        ==> exists|k: int|
                        0 <= k < positions@.len() && spec_pos_index(#[trigger] positions@[k])
                            == ci,
            decreases WORLD_HEIGHT - y,
        {
            let mut x: usize = 0;
            while x < WORLD_WIDTH
                invariant
                    self.grid_wf(),
                    *self == *old(self),
                    y < WORLD_HEIGHT,
                    x <= WORLD_WIDTH,
                    forall|j: int|
                        0 <= j < positions@.len() ==> (#[trigger] positions@[j]).0 < WORLD_WIDTH
                            && positions@[j].1 < WORLD_HEIGHT,
                    forall|ci: int|
                        0 <= ci < (y * WORLD_WIDTH + x) as int && (#[trigger] self.grid@[ci])
                            is Some ==> exists|k: int|
                            0 <= k < positions@.len() && spec_pos_index(#[trigger] positions@[k])
                                == ci,
                decreases WORLD_WIDTH - x,
            {
                let idx = self.grid_index(x, y);
                let ghost pv = positions@;
                if self.grid[idx].is_some() {
                    positions.push((x, y));
                    proof {
                        assert(spec_pos_index(positions@[positions@.len() - 1]) == idx as int);
                        assert forall|ci: int|
                            0 <= ci < (y * WORLD_WIDTH + x + 1) as int && (
                            #[trigger] self.grid@[ci]) is Some implies exists|k: int|
                            0 <= k < positions@.len() && spec_pos_index(#[trigger] positions@[k])
                                == ci by {
                            if ci == idx as int {
                                assert(spec_pos_index(positions@[positions@.len() - 1]) == ci);
                            } else {
                                let k0 = choose|k0: int|
                                    0 <= k0 < pv.len() && spec_pos_index(#[trigger] pv[k0]) == ci;
                                assert(positions@[k0] == pv[k0]);
                                assert(spec_pos_index(positions@[k0]) == ci);
                            }
                        }
                    }
                }
                x = x + 1;
            }
            y = y + 1;
        }
        let ghost before_shuffle = positions@;
        shuffle_coords(&mut positions, &mut self.rng);
        proof {
            assert forall|j: int|
                0 <= j < positions@.len() implies ((#[trigger] positions@[j]).0 < WORLD_WIDTH
                && positions@[j].1 < WORLD_HEIGHT) by {
                assert(before_shuffle.contains(positions@[j]));
                let k2 = choose|k2: int|
                    0 <= k2 < before_shuffle.len() && before_shuffle[k2] == positions@[j];
            }
            // The shuffled list still covers every occupied cell.
            assert forall|ci: int|
                0 <= ci < self.grid@.len() && (#[trigger] self.grid@[ci]) is Some implies exists|
                k: int,
            | 0 <= k < positions@.len() && spec_pos_index(#[trigger] positions@[k]) == ci by {
                let k0 = choose|k0: int|
                    0 <= k0 < before_shuffle.len() && spec_pos_index(#[trigger] before_shuffle[k0])
                        == ci;
                assert(before_shuffle.contains(before_shuffle[k0]));
                assert(positions@.contains(before_shuffle[k0]));
                let k1 = choose|k1: int|
                    0 <= k1 < positions@.len() && positions@[k1] == before_shuffle[k0];
                assert(spec_pos_index(positions@[k1]) == ci);
            }
        }

        // Drive each living cell in the shuffled order, keeping an exact
        // account of births, deaths and the population.
        let ghost mut births_d: int = 0;
        let ghost mut deaths_d: int = 0;
        let mut pi: usize = 0;
        while pi < positions.len()
            invariant
                self.grid_wf(),
                self.grid@.len() == old(self).grid@.len(),
                pi <= positions@.len(),
                forall|j: int|
                    0 <= j < positions@.len() ==> (#[trigger] positions@[j]).0 < WORLD_WIDTH
                        && positions@[j].1 < WORLD_HEIGHT,
                1 <= total_merit,
                total_cycles <= 1000000,
                self.copy_mutation_rate == old(self).copy_mutation_rate,
                self.insertion_rate == old(self).insertion_rate,
                self.deletion_rate == old(self).deletion_rate,
                self.death_method == old(self).death_method,
                self.age_limit == old(self).age_limit,
                self.prefer_empty == old(self).prefer_empty,
                self.total_updates == old(self).total_updates,
                self.total_organisms == old(self).total_organisms,
                births_d >= 0,
                deaths_d >= 0,
                self.total_births as int == vstd::math::min(
                    old(self).total_births as int + births_d,
                    u64::MAX as int,
                ),
                self.total_deaths as int == vstd::math::min(
                    old(self).total_deaths as int + deaths_d,
                    u64::MAX as int,
                ),
                spec_population(self.grid@) as int == spec_population(old(self).grid@) as int
                    + births_d - deaths_d,
                old(self).death_method == 0 ==> deaths_d <= births_d,
                forall|ci: int|
                    0 <= ci < self.grid@.len() ==> ((#[trigger] self.grid@[ci]) matches Some(o)
                        ==> (spec_age_checked(o, old(self).death_method, old(self).age_limit)
                        || exists|k: int|
                        pi <= k < positions@.len() && spec_pos_index(#[trigger] positions@[k])
                            == ci)),
            decreases positions@.len() - pi,
        {
            let pos = positions[pi];
            let x = pos.0;
            let y2 = pos.1;
            let idx = self.grid_index(x, y2);

            // Age-based death: checked before the organism runs.
            let death = match &self.grid[idx] {
                Some(org) => {
                    proof {
                        assert(self.grid@[idx as int] matches Some(o) && o.wf());
                    }
                    if self.death_method == 1 {
                        org.instruction_count >= self.age_limit
                    } else if self.death_method == 2 {
                        proof {
                            vstd::arithmetic::mul::lemma_mul_upper_bound(
                                org.genome@.len() as int,
                                0x7fff_ffff,
                                self.age_limit as int,
                                u64::MAX as int,
                            );
                        }
                        (org.instruction_count as u128) >= (org.genome.len() as u128) * (
                        self.age_limit as u128)
                    } else {
                        false
                    }
                },
                None => false,
            };
            if death {
                proof {
                    lemma_population_update(self.grid@, idx as int, None::<Organism>);
                }
                self.grid.set(idx, None);
                if self.total_deaths != u64::MAX {
                    self.total_deaths = self.total_deaths + 1;
                }
                proof {
                    deaths_d = deaths_d + 1;
                }
            } else {
                let merit_opt: Option<u64> = match &self.grid[idx] {
                    Some(org) => Some(org.merit),
                    None => None,
                };
                match merit_opt {
                    None => {},
                    Some(merit) => {
                        proof {
                            assert(self.grid@[idx as int] matches Some(o) && o.wf());
                            vstd::arithmetic::mul::lemma_mul_upper_bound(
                                total_cycles as int,
                                1000000,
                                merit as int,
                                MERIT_CAP as int,
                            );
                        }
                        let numer = total_cycles * merit;
                        let mut cycles = numer / total_merit;
                        proof {
                            // The integer share differs from the exact
                            // merit-proportional share by less than one.
                            lemma_scheduler_fairness(
                                total_cycles as int,
                                total_merit as int,
                                merit as int,
                            );
                        }
                        if cycles < 1 {
                            cycles = 1;
                        }
                        if cycles > MAX_CYCLES_PER_ORGANISM {
                            cycles = MAX_CYCLES_PER_ORGANISM;
                        }
                        // Take the organism and its detector out of the
                        // grid while it runs; it passed the age check.
                        let ghost count0 = self.grid@[idx as int].unwrap().instruction_count
                            as int;
                        let ghost len0 = self.grid@[idx as int].unwrap().genome@.len() as int;
                        proof {
                            lemma_population_update(self.grid@, idx as int, None::<Organism>);
                        }
                        let mut org_slot: Option<Organism> = None;
                        self.grid.set_and_swap(idx, &mut org_slot);
                        let mut det_slot: Option<TaskDetector> = None;
                        self.task_detectors.set_and_swap(idx, &mut det_slot);
                        match (org_slot, det_slot) {
                            (Some(mut org), Some(mut det)) => {
                                let mut parent_alive = true;
                                let mut cyc: u64 = 0;
                                while cyc < cycles && parent_alive
                                    invariant
                                        org.wf(),
                                        self.grid_wf(),
                                        self.grid@.len() == old(self).grid@.len(),
                                        idx < self.grid@.len(),
                                        x < WORLD_WIDTH,
                                        y2 < WORLD_HEIGHT,
                                        cyc <= cycles,
                                        cycles <= MAX_CYCLES_PER_ORGANISM,
                                        parent_alive ==> self.grid@[idx as int] is None,
                                        !parent_alive ==> (self.grid@[idx as int] matches Some(o2)
                                            ==> spec_age_checked(
                                            o2,
                                            old(self).death_method,
                                            old(self).age_limit,
                                        )),
                                        self.copy_mutation_rate == old(self).copy_mutation_rate,
                                        self.insertion_rate == old(self).insertion_rate,
                                        self.deletion_rate == old(self).deletion_rate,
                                        self.death_method == old(self).death_method,
                                        self.age_limit == old(self).age_limit,
                                        self.prefer_empty == old(self).prefer_empty,
                                        self.total_updates == old(self).total_updates,
                                        self.total_organisms == old(self).total_organisms,
                                        births_d >= 0,
                                        deaths_d >= 0,
                                        self.total_births as int == vstd::math::min(
                                            old(self).total_births as int + births_d,
                                            u64::MAX as int,
                                        ),
                                        self.total_deaths as int == vstd::math::min(
                                            old(self).total_deaths as int + deaths_d,
                                            u64::MAX as int,
                                        ),
                                        spec_population(self.grid@) as int == spec_population(
                                            old(self).grid@,
                                        ) as int + births_d - deaths_d - (if parent_alive {
                                            1int
                                        } else {
                                            0int
                                        }),
                                        old(self).death_method == 0 ==> deaths_d <= births_d,
                                        org.instruction_count as int <= count0 + cyc,
                                        org.genome@.len() as int == len0,
                                        old(self).death_method == 1 ==> count0 < old(self).age_limit,
                                        old(self).death_method == 2 ==> count0 < len0 * old(self).age_limit,
                                        forall|ci: int|
                                            0 <= ci < self.grid@.len() ==> ((
                                            #[trigger] self.grid@[ci]) matches Some(o) ==> (
                                            spec_age_checked(
                                                o,
                                                old(self).death_method,
                                                old(self).age_limit,
                                            ) || exists|k: int|
                                                pi <= k < positions@.len() && spec_pos_index(
                                                    #[trigger] positions@[k],
                                                ) == ci)),
                                    decreases cycles - cyc,
                                {
                                    let rate = self.copy_mutation_rate;
                                    let (should_divide, _task) = execute_instruction(
                                        &mut org,
                                        &mut det,
                                        &mut self.rng,
                                        rate,
                                    );
                                    if should_divide {
                                        let ins = self.insertion_rate;
                                        let del = self.deletion_rate;
                                        let offspring_opt = org.divide(&mut self.rng, ins, del);
                                        match offspring_opt {
                                            Some(offspring) => {
                                                match self.find_birth_location(x, y2) {
                                                    Some(birth) => {
                                                        let birth_idx = self.grid_index(
                                                            birth.0,
                                                            birth.1,
                                                        );
                                                        let occupied = self.grid[
                                                            birth_idx
                                                        ].is_some();
                                                        let replacing_parent = birth_idx == idx;
                                                        if occupied || replacing_parent {
                                                            if self.total_deaths != u64::MAX {
                                                                self.total_deaths =
                                                                    self.total_deaths + 1;
                                                            }
                                                        }
                                                        proof {
                                                            lemma_population_update(
                                                                self.grid@,
                                                                birth_idx as int,
                                                                Some(offspring),
                                                            );
                                                            vstd::arithmetic::mul::lemma_mul_nonnegative(
                                                                offspring.genome@.len() as int,
                                                                old(self).age_limit as int,
                                                            );
                                                        }
                                                        self.grid.set(birth_idx, Some(offspring));
                                                        self.task_detectors.set(
                                                            birth_idx,
                                                            Some(TaskDetector::new()),
                                                        );
                                                        if self.total_births != u64::MAX {
                                                            self.total_births = self.total_births
                                                                + 1;
                                                        }
                                                        proof {
                                                            births_d = births_d + 1;
                                                            if occupied || replacing_parent {
                                                                deaths_d = deaths_d + 1;
                                                            }
                                                        }
                                                        if replacing_parent {
                                                            parent_alive = false;
                                                        }
                                                    },
                                                    None => {},
                                                }
                                            },
                                            None => {},
                                        }
                                    }
                                    cyc = cyc + 1;
                                }
                                if parent_alive {
                                    proof {
                                        lemma_population_update(
                                            self.grid@,
                                            idx as int,
                                            Some(org),
                                        );
                                        assert(spec_age_checked(
                                            org,
                                            old(self).death_method,
                                            old(self).age_limit,
                                        ));
                                    }
                                    self.grid.set(idx, Some(org));
                                    self.task_detectors.set(idx, Some(det));
                                }
                            },
                            (Some(org), None) => {
                                // A living cell always carries a detector.
                                proof {
                                    assert(false);
                                }
                                self.grid.set(idx, Some(org));
                            },
                            (None, Some(det)) => {
                                proof {
                                    assert(false);
                                }
                                self.task_detectors.set(idx, Some(det));
                            },
                            (None, None) => {
                                proof {
                                    assert(false);
                                }
                            },
                        }
                    },
                }
            }
            proof {
                // The cell this coordinate addresses is settled now --
                // empty, or holding an age-checked survivor or newborn --
                // so every still-unchecked organism has a later turn.
                assert(spec_pos_index(positions@[pi as int]) == idx as int);
                assert(self.grid@[idx as int] is None || (self.grid@[idx as int] matches Some(o2)
                    && spec_age_checked(o2, old(self).death_method, old(self).age_limit)));
                assert forall|ci: int|
                    0 <= ci < self.grid@.len() && ((#[trigger] self.grid@[ci]) matches Some(o)
                        && !spec_age_checked(o, old(self).death_method, old(self).age_limit))
                        implies exists|k: int|
                    pi + 1 <= k < positions@.len() && spec_pos_index(#[trigger] positions@[k])
                        == ci by {
                    let k0 = choose|k0: int|
                        pi <= k0 < positions@.len() && spec_pos_index(#[trigger] positions@[k0])
                            == ci;
                    if k0 == pi {
                        assert(ci == idx as int);
                        assert(false);
                    }
                }
            }
            pi = pi + 1;
        }

        proof {
            // No coordinate is left, so every survivor passed its check.
            assert forall|ci: int|
                0 <= ci < self.grid@.len() implies ((#[trigger] self.grid@[ci]) matches Some(o)
                ==> spec_age_checked(o, old(self).death_method, old(self).age_limit)) by {
                if self.grid@[ci] is Some {
                    assert(!(exists|k: int|
                        pi <= k < positions@.len() && spec_pos_index(#[trigger] positions@[k])
                            == ci));
                }
            }
        }
        if self.total_updates != u64::MAX {
            self.total_updates = self.total_updates + 1;
        }
        let pop2 = self.count_population();
        self.population_size = pop2;
    }

    /// Sum genome lengths and count organisms in one pass.
    fn sum_genome_and_count(&self) -> (r: (u64, usize))
        requires
            self.grid_wf(),
        ensures
            r.0 == spec_total_genome_len(self.grid@),
            r.1 == spec_population(self.grid@),
            r.0 <= 0x8000_0000u64 * (self.grid@.len() as u64),
    {
        let mut total: u64 = 0;
        let mut count: usize = 0;
        let mut i: usize = 0;
        proof {
            assert(self.grid@.take(0) =~= Seq::<Option<Organism>>::empty());
        }
        while i < self.grid.len()
            invariant
                self.grid_wf(),
                i <= self.grid@.len(),
                count == spec_population(self.grid@.take(i as int)),
                count <= i,
                total == spec_total_genome_len(self.grid@.take(i as int)),
                total <= 0x8000_0000 * (i as int),
            decreases self.grid@.len() - i,
        {
            proof {
                lemma_sums_take_step(self.grid@, i as int);
                assert(self.grid@.len() <= usize::MAX);
            }
            match &self.grid[i] {
                Some(org) => {
                    proof {
                        assert(org.genome@.len() <= crate::cpu::MAX_GENOME_LEN);
                    }
                    total = total + (org.genome.len() as u64);
                    count = count + 1;
                },
                None => {},
            }
            i = i + 1;
        }
        proof {
            assert(self.grid@.take(self.grid@.len() as int) =~= self.grid@);
        }
        (total, count)
    }

    /// Sum merit and count organisms in one pass.
    fn sum_merit_and_count(&self) -> (r: (u64, usize))
        requires
            self.grid_wf(),
        ensures
            r.0 == spec_total_merit(self.grid@),
            r.1 == spec_population(self.grid@),
            r.0 <= MERIT_CAP * (self.grid@.len() as u64),
            r.0 >= r.1,
            r.0 == 0 <==> spec_population(self.grid@) == 0,
    {
        let mut total: u64 = 0;
        let mut count: usize = 0;
        let mut i: usize = 0;
        proof {
            assert(self.grid@.take(0) =~= Seq::<Option<Organism>>::empty());
        }
        while i < self.grid.len()
            invariant
                self.grid_wf(),
                i <= self.grid@.len(),
                count == spec_population(self.grid@.take(i as int)),
                count <= i,
                total == spec_total_merit(self.grid@.take(i as int)),
                total <= MERIT_CAP * (i as int),
                total >= count,
            decreases self.grid@.len() - i,
        {
            proof {
                lemma_sums_take_step(self.grid@, i as int);
                assert(self.grid@.len() <= usize::MAX);
            }
            match &self.grid[i] {
                Some(org) => {
                    proof {
                        assert(org.merit <= MERIT_CAP);
                    }
                    total = total + org.merit;
                    count = count + 1;
                },
                None => {},
            }
            i = i + 1;
        }
        proof {
            assert(self.grid@.take(self.grid@.len() as int) =~= self.grid@);
            lemma_population_merit(self.grid@);
        }
        (total, count)
    }
}

/// The flat index of the cell at `(x, y)`.
pub open spec fn spec_grid_index(x: int, y: int) -> int {
    y * WORLD_WIDTH + x
}

/// A signed coordinate wrapped onto a dimension of the torus.
pub open spec fn spec_wrap(v: int, m: int) -> usize
    recommends
        m >= 1,
{
    (v % m) as usize
}

/// The `k`-th Moore neighbor of a cell, in row-major offset order.
pub open spec fn spec_neighbor(x: int, y: int, k: int) -> (usize, usize)
    recommends
        0 <= k < 8,
{
    let w = WORLD_WIDTH as int;
    let h = WORLD_HEIGHT as int;
    if k == 0 {
        (spec_wrap(x - 1, w), spec_wrap(y - 1, h))
    } else if k == 1 {
        (spec_wrap(x - 1, w), spec_wrap(y, h))
    } else if k == 2 {
        (spec_wrap(x - 1, w), spec_wrap(y + 1, h))
    } else if k == 3 {
        (spec_wrap(x, w), spec_wrap(y - 1, h))
    } else if k == 4 {
        (spec_wrap(x, w), spec_wrap(y + 1, h))
    } else if k == 5 {
        (spec_wrap(x + 1, w), spec_wrap(y - 1, h))
    } else if k == 6 {
        (spec_wrap(x + 1, w), spec_wrap(y, h))
    } else {
        (spec_wrap(x + 1, w), spec_wrap(y + 1, h))
    }
}

/// For an in-range coordinate, its three wraps are computable directly.
proof fn lemma_wrap_small(v: int, m: int)
    requires
        0 <= v < m,
    ensures
        v % m == v,
        (v + 1) % m == if v + 1 == m {
            0int
        } else {
            v + 1
        },
        (v - 1) % m == if v == 0 {
            m - 1
        } else {
            v - 1
        },
{
    lemma_small_mod(v as nat, m as nat);
    if v + 1 == m {
        vstd::arithmetic::div_mod::lemma_mod_self_0(m);
    } else {
        lemma_small_mod((v + 1) as nat, m as nat);
    }
    if v == 0 {
        lemma_mod_add_multiples_vanish(-1, m);
        lemma_small_mod((m - 1) as nat, m as nat);
    } else {
        lemma_small_mod((v - 1) as nat, m as nat);
    }
}

/// A grid never holds more organisms than cells.
proof fn lemma_population_bound(g: Seq<Option<Organism>>)
    ensures
        spec_population(g) <= g.len(),
    decreases g.len(),
{
    if g.len() > 0 {
        lemma_population_bound(g.drop_last());
    }
}

impl Default for World {
    /// An empty world with the default configuration.
    fn default() -> (r: Self)
        ensures
            r.wf(),
            r.population_size == 0,
            r.total_updates == 0,
    {
        World::new()
    }
}

/// A grid of empty cells holds no organisms.
proof fn lemma_population_all_none(g: Seq<Option<Organism>>)
    requires
        forall|i: int| 0 <= i < g.len() ==> (#[trigger] g[i]) is None,
    ensures
        spec_population(g) == 0,
    decreases g.len(),
{
    if g.len() > 0 {
        assert(g.last() == g[g.len() - 1]);
        assert(forall|i: int|
            0 <= i < g.drop_last().len() ==> (#[trigger] g.drop_last()[i]) is None);
        lemma_population_all_none(g.drop_last());
    }
}

/// Wrap one signed coordinate onto a dimension of the torus.
fn wrap_dim(v: isize, m: usize) -> (r: usize)
    requires
        1 <= m <= 0x7fff_ffff,
    ensures
        r < m,
        r as int == (v as int) % (m as int),
{
    let ghost mi = m as int;
    if v >= 0 {
        let r = ((v as u64) % (m as u64)) as usize;
        proof {
            lemma_mod_bound(v as int, mi);
        }
        r
    } else {
        let mag = (-(v as i128)) as u64;
        let md = mag % (m as u64);
        let r: usize = if md == 0 {
            0
        } else {
            (m as u64 - md) as usize
        };
        proof {
            lemma_mod_bound(mag as int, mi);
            lemma_small_mod(md as nat, m as nat);
            lemma_mod_equivalence(mag as int, md as int, mi);
            if md != 0 {
                lemma_mod_add_multiples_vanish(mag as int - md as int, mi);
            }
            lemma_mod_equivalence(r as int, v as int, mi);
            lemma_small_mod(r as nat, m as nat);
        }
        r
    }
}

} // verus!
