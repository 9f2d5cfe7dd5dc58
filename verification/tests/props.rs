//! Scenario tests for the documented behaviors: faithful replication,
//! population invariants, the codec, the complement cycle, template
//! search, indel sizes and scheduler shares on concrete values.

use avida_rs::cpu::CPU;
use avida_rs::execute::execute_instruction;
use avida_rs::instruction::{genome_to_string, parse_genome, Instruction};
use avida_rs::organism::Organism;
use avida_rs::tasks::TaskDetector;
use avida_rs::world::World;
use rand::rngs::SmallRng;
use rand::SeedableRng;

const ANCESTOR: &str = "rutyabsvacccccccccccccccccccccccccccccccccccccccbc";
const TASK_ANCESTOR: &str = "rutyabsvagqfgqpgqnocccccccccccccccccccccccccccccbc";

#[test]
fn test_codec_roundtrip_full_alphabet() {
    let parsed = parse_genome("abcdefghijklmnopqrstuvwxyz").unwrap();
    let rendered = genome_to_string(&parsed);
    assert_eq!(rendered, "abcdefghijklmnopqrstuvwxyz");
}

#[test]
fn test_ancestor_constructors_match_their_strings() {
    assert_eq!(Organism::ancestor().genome_string(), ANCESTOR);
    assert_eq!(Organism::ancestor_with_tasks().genome_string(), TASK_ANCESTOR);
    assert_eq!(
        Organism::ancestor_avida_ed().genome_string(),
        "wzcagcccccccccccccccccccccccccccccccccccczvfcaxgab"
    );
}

#[test]
fn test_complement_applied_three_times_is_identity() {
    for nop in [Instruction::NopA, Instruction::NopB, Instruction::NopC] {
        let once = nop.complement_nop().unwrap();
        let twice = once.complement_nop().unwrap();
        let thrice = twice.complement_nop().unwrap();
        assert_eq!(thrice, nop);
        assert_ne!(once, nop);
        assert_ne!(twice, nop);
    }
}

#[test]
fn test_search_result_points_at_complement() {
    let cpu = CPU::new();
    // u, template "ab", filler, complement "bc" further along.
    let genome = parse_genome("uabnnnnbcnn").unwrap();
    let (distance, size) = cpu.search_template(&genome, 0).expect("complement exists");
    assert_eq!(size, 2);
    // The `size` instructions starting `distance` positions after the end
    // of the template spell out the complement of the template.
    let len = genome.len();
    let template_last = 2; // position of 'b', the last template nop
    let start = (template_last + distance as usize) % len;
    assert_eq!(genome[start % len], Instruction::NopB);
    assert_eq!(genome[(start + 1) % len], Instruction::NopC);
}

#[test]
fn test_faithful_replication_first_birth() {
    let mut world = World::new();
    world.copy_mutation_rate = 0;
    world.inject_ancestor();

    let mut ticks = 0;
    while world.total_births == 0 {
        world.update();
        ticks += 1;
        assert!(ticks <= 100, "no birth within 100 ticks");
    }

    let mut found_newborn = false;
    for cell in &world.grid {
        if let Some(org) = cell {
            if org.generation == 1 {
                found_newborn = true;
                assert_eq!(org.genome_string(), ANCESTOR);
                assert_eq!(org.merit, 1);
            }
        }
    }
    assert!(found_newborn, "a first-generation organism should be on the grid");
}

#[test]
fn test_population_invariants_hold_over_ticks() {
    let mut world = World::new();
    world.inject_ancestor_with_tasks();

    for _ in 0..60 {
        world.update();
        for cell in &world.grid {
            if let Some(org) = cell {
                let len = org.genome.len();
                assert!(len >= 1);
                assert!(org.cpu.ip < len);
                assert!(org.cpu.read_head < len);
                assert!(org.cpu.flow_head < len);
                if org.child_genome.is_none() {
                    assert!(org.cpu.write_head < len);
                }
                assert!(org.merit >= 1 && org.merit <= 1000);
                assert!(org.tasks_completed < 512);
                assert!(org.cpu.stack1.len() <= 10);
                assert!(org.cpu.stack2.len() <= 10);
            }
        }
    }
}

#[test]
fn test_scheduler_share_is_proportional() {
    // With total merit 5 and a budget of 150, merits 1 and 4 receive 30
    // and 120 cycles: each share is within one merit-unit of exact.
    let total_cycles: u64 = 150;
    let total_merit: u64 = 5;
    for merit in [1u64, 4u64] {
        let share = total_cycles * merit / total_merit;
        assert!(total_merit * share <= total_cycles * merit);
        assert!(total_cycles * merit < total_merit * (share + 1));
    }
    assert_eq!(total_cycles * 1 / total_merit, 30);
    assert_eq!(total_cycles * 4 / total_merit, 120);
}

#[test]
fn test_division_gate_at_half_copied() {
    let mut r = SmallRng::seed_from_u64(41);
    // Parent of odd length 5: the threshold is exactly ceil(5/2) = 3.
    let genome = parse_genome("nnnnn").unwrap();
    let mut org = Organism::new(genome);
    org.allocate_child();
    org.copy_instruction(&mut r, 0);
    org.copy_instruction(&mut r, 0);
    // Progress 2 = ceil(5/2) - 1: division fails and keeps the child.
    assert!(org.divide(&mut r, 0, 0).is_none());
    assert!(org.child_genome.is_some());
    org.copy_instruction(&mut r, 0);
    // Progress 3 = ceil(5/2): division succeeds.
    let off = org.divide(&mut r, 0, 0).expect("division at the threshold succeeds");
    assert_eq!(off.genome_size(), 3);
}

#[test]
fn test_io_with_empty_input_buffer_replaces_bx() {
    let mut r = SmallRng::seed_from_u64(42);
    let mut org = Organism::new(parse_genome("qq").unwrap());
    let mut detector = TaskDetector::new();
    // Drain the three default inputs first.
    org.cpu.input_buffer.clear();
    org.cpu.registers[1] = 7;
    execute_instruction(&mut org, &mut detector, &mut r, 0);
    // The output was recorded and a fresh input landed in BX and in the
    // detector history.
    assert_eq!(org.cpu.output_buffer, vec![7]);
    assert_eq!(detector.inputs.len(), 1);
    assert_eq!(detector.inputs[0], org.cpu.registers[1]);
}

#[test]
fn test_search_with_no_template_places_flow_after_ip() {
    let mut r = SmallRng::seed_from_u64(43);
    // h-search followed by a non-nop: no template, flow lands right after.
    let mut org = Organism::new(parse_genome("unnn").unwrap());
    let mut detector = TaskDetector::new();
    execute_instruction(&mut org, &mut detector, &mut r, 0);
    assert_eq!(org.cpu.flow_head, 1);
    assert_eq!(org.cpu.registers[1], 0);
    assert_eq!(org.cpu.registers[2], 0);
}
