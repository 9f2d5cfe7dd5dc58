use avida_rs::instruction::Instruction;
use avida_rs::organism::Organism;
use avida_rs::world::World;

#[test]
fn test_world_creation() {
    let world = World::new();
    assert_eq!(world.dimensions(), (60, 60));
    assert_eq!(world.population_size, 0);
}

#[test]
fn test_inject_ancestor() {
    let mut world = World::new();
    world.inject_ancestor();
    assert_eq!(world.population_size, 1);
}

#[test]
fn test_toroidal_wrapping() {
    let world = World::new();
    let (x, y) = world.wrap_coord(-1, -1);
    assert_eq!(x, 59);
    assert_eq!(y, 59);

    let (x, y) = world.wrap_coord(60, 60);
    assert_eq!(x, 0);
    assert_eq!(y, 0);
}

#[test]
fn test_neighbors() {
    let world = World::new();
    let neighbors = world.get_neighbors(0, 0);
    assert_eq!(neighbors.len(), 8);
}

#[test]
fn test_population_growth_preserves_genomes() {
    // Mutation-free replication: every descendant keeps the ancestor's
    // 50-instruction genome.
    let mut world = World::new();
    world.copy_mutation_rate = 0;
    world.inject_ancestor();

    for _ in 0..200 {
        world.update();
    }

    assert!(world.population_size > 1);
    assert!(world.total_births > 0);

    for cell in &world.grid {
        if let Some(org) = cell {
            assert_eq!(org.genome_size(), 50);
        }
    }
}

#[test]
fn test_extended_population_growth() {
    // Mutation-free replication over a longer run.
    let mut world = World::new();
    world.copy_mutation_rate = 0;
    world.inject_ancestor();

    for _ in 0..600 {
        world.update();
    }

    assert!(world.population_size > 1);
    assert!(world.total_births > 0);

    for cell in &world.grid {
        if let Some(org) = cell {
            assert_eq!(org.genome_size(), 50);
        }
    }
}

#[test]
fn test_world_default() {
    let world = World::default();
    assert_eq!(world.dimensions(), (60, 60));
    assert_eq!(world.population_size, 0);
}

#[test]
fn test_world_new_empty() {
    let world = World::new();
    assert_eq!(world.count_population(), 0);
    assert_eq!(world.total_updates, 0);
    assert_eq!(world.total_births, 0);
    assert_eq!(world.total_deaths, 0);
}

#[test]
fn test_inject_organism() {
    let mut world = World::new();
    let org = Organism::ancestor();
    assert!(world.inject_organism(org, 10, 10));
    assert_eq!(world.population_size, 1);
}

#[test]
fn test_inject_organism_out_of_bounds() {
    let mut world = World::new();
    let org = Organism::ancestor();
    assert!(!world.inject_organism(org, 100, 100));
    assert_eq!(world.population_size, 0);
}

#[test]
fn test_inject_organism_replaces_existing() {
    let mut world = World::new();
    let org1 = Organism::ancestor();
    let org2 = Organism::ancestor();

    world.inject_organism(org1, 10, 10);
    assert_eq!(world.total_deaths, 0);

    world.inject_organism(org2, 10, 10);
    assert_eq!(world.total_deaths, 1);
}

#[test]
fn test_wrap_coord_positive() {
    let world = World::new();
    assert_eq!(world.wrap_coord(0, 0), (0, 0));
    assert_eq!(world.wrap_coord(59, 59), (59, 59));
}

#[test]
fn test_wrap_coord_overflow() {
    let world = World::new();
    assert_eq!(world.wrap_coord(60, 60), (0, 0));
    assert_eq!(world.wrap_coord(61, 62), (1, 2));
    assert_eq!(world.wrap_coord(120, 120), (0, 0));
}

#[test]
fn test_wrap_coord_negative() {
    let world = World::new();
    assert_eq!(world.wrap_coord(-1, -1), (59, 59));
    assert_eq!(world.wrap_coord(-2, -3), (58, 57));
    assert_eq!(world.wrap_coord(-60, -60), (0, 0));
}

#[test]
fn test_get_neighbors_center() {
    let world = World::new();
    let neighbors = world.get_neighbors(30, 30);
    assert_eq!(neighbors.len(), 8);

    // Check that all 8 neighbors are unique
    let mut unique = std::collections::HashSet::new();
    for neighbor in &neighbors {
        unique.insert(neighbor);
    }
    assert_eq!(unique.len(), 8);
}

#[test]
fn test_get_neighbors_corner() {
    let world = World::new();
    let neighbors = world.get_neighbors(0, 0);
    assert_eq!(neighbors.len(), 8);

    // Should wrap around to opposite edges
    assert!(neighbors.contains(&(59, 59)));
    assert!(neighbors.contains(&(1, 0)));
    assert!(neighbors.contains(&(0, 1)));
}

#[test]
fn test_get_organism() {
    let mut world = World::new();
    world.inject_ancestor();

    let center_x = 30;
    let center_y = 30;

    assert!(world.get_organism(center_x, center_y).is_some());
    assert!(world.get_organism(0, 0).is_none());
}

#[test]
fn test_get_organism_out_of_bounds() {
    let world = World::new();
    assert!(world.get_organism(100, 100).is_none());
}

#[test]
fn test_clear_world() {
    let mut world = World::new();
    world.inject_ancestor();
    assert!(world.population_size > 0);

    world.clear();
    assert_eq!(world.population_size, 0);
    assert_eq!(world.count_population(), 0);
}

#[test]
fn test_count_population() {
    let mut world = World::new();
    assert_eq!(world.count_population(), 0);

    world.inject_ancestor();
    assert_eq!(world.count_population(), 1);

    world.inject_organism(Organism::ancestor(), 0, 0);
    assert_eq!(world.count_population(), 2);
}

#[test]
fn test_average_genome_size_empty() {
    let world = World::new();
    assert_eq!(world.average_genome_size(), 0);
}

#[test]
fn test_average_genome_size() {
    let mut world = World::new();
    world.inject_organism(Organism::new(vec![Instruction::NopA; 10]), 0, 0);
    world.inject_organism(Organism::new(vec![Instruction::NopB; 20]), 1, 0);

    // Average of 10 and 20, in thousandths
    assert_eq!(world.average_genome_size(), 15000);
}

#[test]
fn test_average_merit_empty() {
    let world = World::new();
    assert_eq!(world.average_merit(), 0);
}

#[test]
fn test_average_merit() {
    let mut world = World::new();
    let mut org1 = Organism::ancestor();
    org1.merit = 2;
    let mut org2 = Organism::ancestor();
    org2.merit = 4;

    world.inject_organism(org1, 0, 0);
    world.inject_organism(org2, 1, 0);

    // Average of 2 and 4, in thousandths
    assert_eq!(world.average_merit(), 3000);
}

#[test]
fn test_task_statistics_empty() {
    let world = World::new();
    let stats = world.task_statistics();
    for count in &stats {
        assert_eq!(*count, 0);
    }
}

#[test]
fn test_task_statistics() {
    let mut world = World::new();
    let mut org1 = Organism::ancestor();
    org1.complete_task(0); // NOT
    org1.complete_task(2); // AND

    let mut org2 = Organism::ancestor();
    org2.complete_task(0); // NOT
    org2.complete_task(4); // OR

    world.inject_organism(org1, 0, 0);
    world.inject_organism(org2, 1, 0);

    let stats = world.task_statistics();
    assert_eq!(stats[0], 2); // NOT completed by both
    assert_eq!(stats[2], 1); // AND completed by one
    assert_eq!(stats[4], 1); // OR completed by one
    assert_eq!(stats[1], 0); // NAND completed by none
}

#[test]
fn test_update_increments_counter() {
    let mut world = World::new();
    world.inject_ancestor();

    assert_eq!(world.total_updates, 0);
    world.update();
    assert_eq!(world.total_updates, 1);
    world.update();
    assert_eq!(world.total_updates, 2);
}

#[test]
fn test_update_empty_world() {
    let mut world = World::new();
    world.update();
    assert_eq!(world.population_size, 0);
    assert_eq!(world.total_updates, 0); // Should not increment if no organisms
}

#[test]
fn test_mutation_rates() {
    let world = World::new();
    assert_eq!(world.copy_mutation_rate, 7500);
    assert_eq!(world.insertion_rate, 0);
    assert_eq!(world.deletion_rate, 0);
}

#[test]
fn test_world_dimensions_constant() {
    let world = World::new();
    let (width, height) = world.dimensions();
    assert_eq!(width, avida_rs::world::WORLD_WIDTH);
    assert_eq!(height, avida_rs::world::WORLD_HEIGHT);
}

#[test]
fn test_no_births_without_updates() {
    let mut world = World::new();
    world.inject_ancestor();
    assert_eq!(world.total_births, 0);
}

#[test]
fn test_births_occur_after_updates() {
    let mut world = World::new();
    world.inject_ancestor();

    for _ in 0..50 {
        world.update();
    }

    assert!(world.total_births > 0);
}

#[test]
fn test_population_growth_is_exponential_initially() {
    let mut world = World::new();
    world.inject_ancestor();

    let mut pop_history = vec![];
    for _ in 0..100 {
        world.update();
        if world.total_updates % 20 == 0 {
            pop_history.push(world.population_size);
        }
    }

    // Population should generally increase over time
    assert!(pop_history.last().unwrap() > &pop_history[0]);
}

#[test]
fn test_merit_affects_cpu_cycles() {
    let mut world = World::new();
    let mut org1 = Organism::ancestor();
    org1.merit = 1;

    let mut org2 = Organism::ancestor();
    org2.merit = 4; // 4x merit (e.g., completed AND task)

    world.inject_organism(org1, 0, 0);
    world.inject_organism(org2, 1, 0);

    // Organism with higher merit should get more CPU cycles
    // org2 has 4x merit, so should get 4x more cycles and reproduce ~4x faster
    world.update();
    assert!(world.total_updates > 0);
}

#[test]
fn test_average_fitness() {
    let mut world = World::new();
    let mut org1 = Organism::ancestor();
    org1.merit = 2;
    org1.gestation_cycles = 100;

    let mut org2 = Organism::ancestor();
    org2.merit = 4;
    org2.gestation_cycles = 100;

    world.inject_organism(org1, 0, 0);
    world.inject_organism(org2, 1, 0);

    // Average fitness in thousandths = (2000/100 + 4000/100) / 2 = 30
    assert_eq!(world.average_fitness(), 30);
}

#[test]
fn test_merit_selection_pressure() {
    // High-merit organisms should dominate over time
    let mut world = World::new();

    // Inject a low-merit organism
    let mut low_merit = Organism::ancestor();
    low_merit.merit = 1;
    world.inject_organism(low_merit, 0, 0);

    // Inject a high-merit organism
    let mut high_merit = Organism::ancestor();
    high_merit.merit = 4; // High merit from tasks
    world.inject_organism(high_merit, 1, 0);

    // High-merit organism should get 4x more CPU cycles per update
    // This means it reproduces 4x faster (if gestation times are similar)

    // Run simulation - high merit should reproduce more
    for _ in 0..50 {
        world.update();
    }

    // After 50 updates, should have more organisms due to reproduction
    assert!(world.population_size >= 2);
}
