use avida_rs::execute::execute_instruction;
use avida_rs::instruction::Instruction;
use avida_rs::organism::{Organism, RATE_ONE};
use avida_rs::tasks::TaskDetector;
use rand::rngs::SmallRng;
use rand::SeedableRng;

fn rng(seed: u64) -> SmallRng {
    SmallRng::seed_from_u64(seed)
}

#[test]
fn test_ancestor_creation() {
    let ancestor = Organism::ancestor();
    assert_eq!(ancestor.genome.len(), 50);
    assert_eq!(ancestor.merit, 1);
    assert_eq!(ancestor.generation, 0);
}

#[test]
fn test_organism_from_genome() {
    let genome = vec![Instruction::NopA, Instruction::NopB, Instruction::Add];
    let org = Organism::new(genome);
    assert_eq!(org.genome.len(), 3);
    assert_eq!(org.cpu.ip, 0);
}

#[test]
fn test_allocate_child() {
    let mut org = Organism::ancestor();
    org.allocate_child();
    assert!(org.child_genome.is_some());
    assert_eq!(org.child_genome.as_ref().unwrap().len(), 50);
    assert_eq!(org.cpu.registers[0], 50);
    assert_eq!(org.child_copy_progress, 0);
}

#[test]
fn test_task_completion() {
    let mut org = Organism::ancestor();
    assert!(!org.has_completed_task(0));
    org.complete_task(0);
    assert!(org.has_completed_task(0));
    assert!(!org.has_completed_task(1));
}

#[test]
fn test_copy_instruction() {
    let mut r = rng(11);
    let mut org = Organism::ancestor();
    org.allocate_child();
    org.cpu.read_head = 0;
    org.cpu.write_head = 0;

    let copied = org.copy_instruction(&mut r, 0); // No mutations
    assert!(copied.is_some());
    assert_eq!(org.cpu.read_head, 1);
    assert_eq!(org.cpu.write_head, 1);
    assert_eq!(org.child_copy_progress, 1);
}

#[test]
fn test_divide_retains_copied_genome() {
    let mut r = rng(12);
    let mut org = Organism::ancestor();
    let genome_len = org.genome_size();

    org.allocate_child();

    for _ in 0..genome_len {
        let copied = org.copy_instruction(&mut r, 0);
        assert!(
            copied.is_some(),
            "copy_instruction returned None before genome copied"
        );
    }

    assert!(org.child_genome.is_some());
    assert_eq!(org.cpu.write_head, genome_len);

    let offspring = org.divide(&mut r, 0, 0).expect("offspring should be produced");
    assert_eq!(offspring.genome_size(), genome_len);
    assert!(org.child_genome.is_none());
    assert_eq!(org.cpu.write_head, 0);
    assert_eq!(org.child_copy_progress, 0);
}

#[test]
fn test_instruction_driven_reproduction_preserves_genome() {
    let mut r = rng(13);
    let mut org = Organism::ancestor();
    let original_genome = org.genome.clone();
    let genome_len = original_genome.len();
    let mut detector = TaskDetector::new();

    let mut steps = 0;
    let offspring = loop {
        let (should_divide, _) = execute_instruction(&mut org, &mut detector, &mut r, 0);
        steps += 1;

        if should_divide {
            if let Some(off) = org.divide(&mut r, 0, 0) {
                break off;
            }
        }

        assert!(
            steps <= 2000,
            "Ancestor failed to divide within 2000 instructions"
        );
    };

    assert_eq!(offspring.genome_size(), genome_len);
    assert_eq!(offspring.genome, original_genome);
    assert!(org.child_genome.is_none());
    assert_eq!(org.child_copy_progress, 0);
}

#[test]
fn test_organism_new_initializes_correctly() {
    let genome = vec![Instruction::NopA; 10];
    let org = Organism::new(genome);
    assert_eq!(org.genome.len(), 10);
    assert_eq!(org.merit, 1);
    assert_eq!(org.instruction_count, 0);
    assert_eq!(org.generation, 0);
    assert_eq!(org.offspring_count, 0);
    assert_eq!(org.tasks_completed, 0);
    assert!(org.child_genome.is_none());
    assert_eq!(org.child_copy_progress, 0);
    assert_eq!(org.gestation_time, 20); // 10 * 2
}

#[test]
fn test_advance_ip() {
    let mut org = Organism::new(vec![Instruction::NopA; 5]);
    assert_eq!(org.cpu.ip, 0);
    org.advance_ip();
    assert_eq!(org.cpu.ip, 1);
    org.cpu.ip = 4;
    org.advance_ip();
    assert_eq!(org.cpu.ip, 0); // Wraps around
}

#[test]
fn test_current_instruction() {
    let genome = vec![Instruction::NopA, Instruction::NopB, Instruction::Add];
    let mut org = Organism::new(genome);
    assert_eq!(org.current_instruction(), Some(Instruction::NopA));
    org.cpu.ip = 1;
    assert_eq!(org.current_instruction(), Some(Instruction::NopB));
    org.cpu.ip = 2;
    assert_eq!(org.current_instruction(), Some(Instruction::Add));
}

#[test]
fn test_copy_instruction_without_allocation_fails() {
    let mut r = rng(14);
    let mut org = Organism::ancestor();
    let result = org.copy_instruction(&mut r, 0);
    assert!(result.is_none());
}

#[test]
fn test_copy_instruction_advances_heads() {
    let mut r = rng(15);
    let mut org = Organism::ancestor();
    org.allocate_child();
    let initial_rh = org.cpu.read_head;
    let initial_wh = org.cpu.write_head;

    org.copy_instruction(&mut r, 0);

    assert_eq!(org.cpu.read_head, initial_rh + 1);
    assert_eq!(org.cpu.write_head, initial_wh + 1);
}

#[test]
fn test_copy_instruction_updates_progress() {
    let mut r = rng(16);
    let mut org = Organism::ancestor();
    org.allocate_child();

    assert_eq!(org.child_copy_progress, 0);
    org.copy_instruction(&mut r, 0);
    assert_eq!(org.child_copy_progress, 1);
    org.copy_instruction(&mut r, 0);
    assert_eq!(org.child_copy_progress, 2);
}

#[test]
fn test_divide_without_child_fails() {
    let mut r = rng(17);
    let mut org = Organism::ancestor();
    let result = org.divide(&mut r, 0, 0);
    assert!(result.is_none());
}

#[test]
fn test_divide_with_insufficient_copying_fails() {
    let mut r = rng(18);
    let mut org = Organism::ancestor();
    org.allocate_child();

    // Copy less than half
    for _ in 0..20 {
        org.copy_instruction(&mut r, 0);
    }

    let result = org.divide(&mut r, 0, 0);
    assert!(result.is_none());
    // Child should be retained for retry
    assert!(org.child_genome.is_some());
}

#[test]
fn test_divide_resets_parent_state() {
    let mut r = rng(19);
    let mut org = Organism::ancestor();
    org.allocate_child();

    for _ in 0..50 {
        org.copy_instruction(&mut r, 0);
    }

    let offspring_count_before = org.offspring_count;
    let result = org.divide(&mut r, 0, 0);
    assert!(result.is_some());

    assert_eq!(org.offspring_count, offspring_count_before + 1);
    assert_eq!(org.gestation_cycles, 0);
    assert_eq!(org.cpu.ip, 0); // Reset to start
    assert_eq!(org.cpu.read_head, 0);
    assert_eq!(org.cpu.write_head, 0);
    assert_eq!(org.child_copy_progress, 0);
    assert!(org.child_genome.is_none());
}

#[test]
fn test_offspring_generation_increments() {
    let mut r = rng(20);
    let mut org = Organism::ancestor();
    org.allocate_child();

    for _ in 0..50 {
        org.copy_instruction(&mut r, 0);
    }

    let offspring = org.divide(&mut r, 0, 0).unwrap();
    assert_eq!(offspring.generation, org.generation + 1);
}

#[test]
fn test_offspring_starts_with_base_merit() {
    let mut r = rng(21);
    let mut org = Organism::ancestor();
    org.merit = 100; // High merit from tasks
    org.allocate_child();

    for _ in 0..50 {
        org.copy_instruction(&mut r, 0);
    }

    let offspring = org.divide(&mut r, 0, 0).unwrap();
    assert_eq!(offspring.merit, 1); // Reset to base, not inherited
}

#[test]
fn test_task_completion_flags() {
    let mut org = Organism::ancestor();

    for task_idx in 0..9 {
        assert!(!org.has_completed_task(task_idx));
        org.complete_task(task_idx);
        assert!(org.has_completed_task(task_idx));
    }

    // Verify all tasks are marked
    for task_idx in 0..9 {
        assert!(org.has_completed_task(task_idx));
    }
}

#[test]
fn test_task_completion_out_of_range() {
    let mut org = Organism::ancestor();
    org.complete_task(10); // Out of range
    assert!(!org.has_completed_task(10));
}

#[test]
fn test_genome_string_conversion() {
    let genome = vec![Instruction::HAlloc, Instruction::HCopy, Instruction::HDivide];
    let org = Organism::new(genome);
    assert_eq!(org.genome_string(), "rts");
}

#[test]
fn test_genome_size() {
    let org = Organism::new(vec![Instruction::NopA; 25]);
    assert_eq!(org.genome_size(), 25);
}

#[test]
fn test_allocate_child_twice() {
    let mut org = Organism::ancestor();
    org.allocate_child();
    assert!(org.child_genome.is_some());

    // Second allocation should work but change nothing
    org.allocate_child();
    assert!(org.child_genome.is_some());
}

#[test]
fn test_copy_with_mutation() {
    let mut r = rng(22);
    let mut org = Organism::ancestor();
    org.allocate_child();

    let mut mutation_occurred = false;
    for _ in 0..100 {
        let original_inst = org.genome[org.cpu.read_head];
        org.copy_instruction(&mut r, RATE_ONE); // 100% mutation rate

        if org.child_genome.is_some() {
            let copied_inst = org.child_genome.as_ref().unwrap()[org.cpu.write_head - 1];
            if copied_inst != original_inst {
                mutation_occurred = true;
                break;
            }
        }
    }
    assert!(
        mutation_occurred,
        "With 100% mutation rate, at least one mutation should occur"
    );
}

#[test]
fn test_divide_with_insertions() {
    let mut r = rng(23);
    let mut org = Organism::ancestor();
    org.allocate_child();

    for _ in 0..50 {
        org.copy_instruction(&mut r, 0);
    }

    let offspring = org.divide(&mut r, RATE_ONE, 0).unwrap(); // 100% insertion rate
    // A rate of one means exactly one insertion per division:
    // the genome is exactly 1 instruction larger (50 + 1 = 51)
    assert_eq!(offspring.genome_size(), 51);
}

#[test]
fn test_divide_with_deletions() {
    let mut r = rng(24);
    let mut org = Organism::ancestor();
    org.allocate_child();

    for _ in 0..50 {
        org.copy_instruction(&mut r, 0);
    }

    let offspring = org.divide(&mut r, 0, RATE_ONE).unwrap(); // 100% deletion rate
    // A rate of one means exactly one deletion per division:
    // the genome is exactly 1 instruction smaller (50 - 1 = 49)
    assert_eq!(offspring.genome_size(), 49);
}

#[test]
fn test_empty_genome_after_deletions_gets_nop() {
    let mut r = rng(25);
    let mut org = Organism::new(vec![Instruction::NopA; 1]);
    org.allocate_child();

    for _ in 0..1 {
        org.copy_instruction(&mut r, 0);
    }

    let offspring = org.divide(&mut r, 0, RATE_ONE).unwrap(); // 100% deletion rate
    // If genome becomes empty after deletion, NopC should be added
    assert_eq!(offspring.genome_size(), 1);
    assert_eq!(offspring.genome[0], Instruction::NopC);
}

#[test]
fn test_divide_with_both_indels() {
    let mut r = rng(26);
    let mut org = Organism::ancestor();
    org.allocate_child();

    for _ in 0..50 {
        org.copy_instruction(&mut r, 0);
    }

    // With both rates at one, one insertion and one deletion occur.
    // Net change: +1 -1 = 0, so size should be 50
    let offspring = org.divide(&mut r, RATE_ONE, RATE_ONE).unwrap();
    assert_eq!(offspring.genome_size(), 50);
}

#[test]
fn test_divide_with_low_indel_rates() {
    // Test that low rates mean MOST offspring have no mutations
    let mut r = rng(27);
    let mut unchanged_count = 0;
    let trials = 100;

    for _ in 0..trials {
        let mut org = Organism::ancestor();
        org.allocate_child();

        for _ in 0..50 {
            org.copy_instruction(&mut r, 0);
        }

        let offspring = org.divide(&mut r, 50000, 50000).unwrap();
        if offspring.genome_size() == 50 {
            unchanged_count += 1;
        }
    }

    // With 0.05 rates, about 90% should be unchanged (1-0.05-0.05 = 0.9)
    // Allow some variance, expect at least 75% unchanged
    assert!(
        unchanged_count >= 75,
        "Expected most genomes unchanged with 0.05 rates, got {}/100",
        unchanged_count
    );
}

#[test]
fn test_execute_instruction_ages_organism() {
    let mut org = Organism::new(vec![Instruction::NopA]);
    let initial_count = org.instruction_count;

    org.execute_instruction();

    assert_eq!(org.instruction_count, initial_count + 1);
}

#[test]
fn test_organism_clone() {
    let org = Organism::ancestor();
    let cloned = org.clone();

    assert_eq!(org.genome.len(), cloned.genome.len());
    assert_eq!(org.merit, cloned.merit);
    assert_eq!(org.generation, cloned.generation);
}

#[test]
fn test_fitness_calculation() {
    let mut org = Organism::ancestor();
    org.merit = 2;
    org.gestation_time = 100;

    // Fitness in thousandths = merit * 1000 / gestation_time
    assert_eq!(org.fitness(), 20);
}

#[test]
fn test_fitness_with_high_merit() {
    let mut org = Organism::ancestor();
    org.merit = 16; // As if completed XOR task
    org.gestation_time = 100;

    // High merit = high fitness = faster reproduction
    assert_eq!(org.fitness(), 160);
}

#[test]
fn test_fitness_comparison() {
    let mut org1 = Organism::ancestor();
    org1.merit = 2;
    org1.gestation_time = 100;

    let mut org2 = Organism::ancestor();
    org2.merit = 1;
    org2.gestation_time = 100;

    // org1 has higher merit, should have higher fitness
    assert!(org1.fitness() > org2.fitness());
}

#[test]
fn test_gestation_time_update() {
    let mut org = Organism::ancestor();
    org.gestation_cycles = 150;

    org.update_gestation_time();

    assert_eq!(org.gestation_time, 150);
}

#[test]
fn test_fitness_after_task_completion() {
    let mut org = Organism::ancestor();
    org.merit = 1;
    org.gestation_time = 100;
    let fitness_before = org.fitness();

    // Simulate completing NOT task (2x merit bonus)
    org.merit *= 2;
    let fitness_after = org.fitness();

    // Fitness should double with merit
    assert_eq!(fitness_after, fitness_before * 2);
}
