use avida_rs::execute::execute_instruction;
use avida_rs::instruction::Instruction;
use avida_rs::organism::Organism;
use avida_rs::tasks::TaskDetector;
use rand::rngs::SmallRng;
use rand::SeedableRng;

fn rng(seed: u64) -> SmallRng {
    SmallRng::seed_from_u64(seed)
}

#[test]
fn test_nop_execution() {
    let mut r = rng(31);
    let mut org = Organism::new(vec![Instruction::NopA]);
    let mut detector = TaskDetector::new();
    let (divide, _) = execute_instruction(&mut org, &mut detector, &mut r, 0);
    assert!(!divide);
    assert_eq!(org.cpu.ip, 0); // Wrapped around
    assert_eq!(org.instruction_count, 1); // Counter incremented
}

#[test]
fn test_add_instruction() {
    let mut r = rng(32);
    let mut org = Organism::new(vec![Instruction::Add]);
    org.cpu.registers[1] = 10; // BX
    org.cpu.registers[2] = 5; // CX

    let mut detector = TaskDetector::new();
    execute_instruction(&mut org, &mut detector, &mut r, 0);

    assert_eq!(org.cpu.registers[1], 15); // BX = 10 + 5
    assert_eq!(org.instruction_count, 1);
}

#[test]
fn test_inc_instruction() {
    let mut r = rng(33);
    let mut org = Organism::new(vec![Instruction::Inc]);
    org.cpu.registers[1] = 42;

    let mut detector = TaskDetector::new();
    execute_instruction(&mut org, &mut detector, &mut r, 0);

    assert_eq!(org.cpu.registers[1], 43);
    assert_eq!(org.instruction_count, 1);
}

#[test]
fn test_push_pop() {
    let mut r = rng(34);
    let mut org = Organism::new(vec![Instruction::Push, Instruction::Pop]);
    org.cpu.registers[1] = 100;

    let mut detector = TaskDetector::new();

    // Push
    org.cpu.ip = 0;
    execute_instruction(&mut org, &mut detector, &mut r, 0);
    assert_eq!(org.cpu.active_stack_ref().len(), 1);
    assert_eq!(org.instruction_count, 1);

    // Pop
    org.cpu.registers[1] = 0; // Clear BX
    execute_instruction(&mut org, &mut detector, &mut r, 0);
    assert_eq!(org.cpu.registers[1], 100);
    assert_eq!(org.instruction_count, 2);
}

#[test]
fn test_instruction_counter_increments() {
    let mut r = rng(35);
    let mut org = Organism::new(vec![
        Instruction::NopA,
        Instruction::NopB,
        Instruction::NopC,
    ]);
    let mut detector = TaskDetector::new();

    assert_eq!(org.instruction_count, 0);
    execute_instruction(&mut org, &mut detector, &mut r, 0);
    assert_eq!(org.instruction_count, 1);
    execute_instruction(&mut org, &mut detector, &mut r, 0);
    assert_eq!(org.instruction_count, 2);
    execute_instruction(&mut org, &mut detector, &mut r, 0);
    assert_eq!(org.instruction_count, 3);
}

#[test]
fn test_gestation_cycles_increment() {
    let mut r = rng(36);
    let mut org = Organism::new(vec![Instruction::NopA]);
    let mut detector = TaskDetector::new();

    assert_eq!(org.gestation_cycles, 0);
    execute_instruction(&mut org, &mut detector, &mut r, 0);
    assert_eq!(org.gestation_cycles, 1);
}
