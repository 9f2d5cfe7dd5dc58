use avida_rs::tasks::{Task, TaskDetector, TaskEnvironment};

#[test]
fn test_all_task_merit_multipliers() {
    assert_eq!(Task::Not.merit_multiplier(), 2);
    assert_eq!(Task::Nand.merit_multiplier(), 2);
    assert_eq!(Task::And.merit_multiplier(), 4);
    assert_eq!(Task::Orn.merit_multiplier(), 4);
    assert_eq!(Task::Or.merit_multiplier(), 8);
    assert_eq!(Task::Andn.merit_multiplier(), 8);
    assert_eq!(Task::Nor.merit_multiplier(), 16);
    assert_eq!(Task::Xor.merit_multiplier(), 16);
    assert_eq!(Task::Equ.merit_multiplier(), 16);
}

#[test]
fn test_not_task() {
    let mut detector = TaskDetector::new();
    detector.add_input(5);
    detector.add_input(10);

    let output = !10;
    let result = detector.check_output(output);
    assert!(result.is_some());
    let (task, inputs) = result.unwrap();
    assert_eq!(task, Task::Not);
    assert_eq!(inputs.len(), 2);
}

#[test]
fn test_nand_task() {
    let mut detector = TaskDetector::new();
    detector.add_input(0b1100);
    detector.add_input(0b1010);

    let output = !(0b1100 & 0b1010);
    let result = detector.check_output(output);
    assert!(result.is_some());
    let (task, _) = result.unwrap();
    assert_eq!(task, Task::Nand);
}

#[test]
fn test_and_task() {
    let mut detector = TaskDetector::new();
    detector.add_input(0b1100);
    detector.add_input(0b1010);

    let output = 0b1100 & 0b1010; // 0b1000
    let result = detector.check_output(output);
    assert!(result.is_some());
    let (task, _) = result.unwrap();
    assert_eq!(task, Task::And);
}

#[test]
fn test_orn_task() {
    let mut detector = TaskDetector::new();
    detector.add_input(0b1100);
    detector.add_input(0b1010);

    let output = 0b1100 | !0b1010;
    let result = detector.check_output(output);
    assert!(result.is_some());
    let (task, _) = result.unwrap();
    assert_eq!(task, Task::Orn);
}

#[test]
fn test_or_task() {
    let mut detector = TaskDetector::new();
    detector.add_input(0b1100);
    detector.add_input(0b1010);

    let output = 0b1100 | 0b1010;
    let result = detector.check_output(output);
    assert!(result.is_some());
    let (task, _) = result.unwrap();
    assert_eq!(task, Task::Or);
}

#[test]
fn test_andn_task() {
    let mut detector = TaskDetector::new();
    detector.add_input(0b1100);
    detector.add_input(0b1010);

    let output = 0b1100 & !0b1010;
    let result = detector.check_output(output);
    assert!(result.is_some());
    let (task, _) = result.unwrap();
    assert_eq!(task, Task::Andn);
}

#[test]
fn test_nor_task() {
    let mut detector = TaskDetector::new();
    detector.add_input(0b1100);
    detector.add_input(0b1010);

    let output = !(0b1100 | 0b1010);
    let result = detector.check_output(output);
    assert!(result.is_some());
    let (task, _) = result.unwrap();
    assert_eq!(task, Task::Nor);
}

#[test]
fn test_xor_task() {
    let mut detector = TaskDetector::new();
    detector.add_input(0b1100);
    detector.add_input(0b1010);

    let output = 0b1100 ^ 0b1010;
    let result = detector.check_output(output);
    assert!(result.is_some());
    let (task, _) = result.unwrap();
    assert_eq!(task, Task::Xor);
}

#[test]
fn test_equ_task() {
    let mut detector = TaskDetector::new();
    detector.add_input(0b1100);
    detector.add_input(0b1010);

    let output = !(0b1100 ^ 0b1010);
    let result = detector.check_output(output);
    assert!(result.is_some());
    let (task, _) = result.unwrap();
    assert_eq!(task, Task::Equ);
}

#[test]
fn test_insufficient_inputs() {
    let detector = TaskDetector::new();
    let result = detector.check_output(42);
    assert!(result.is_none());

    let mut detector2 = TaskDetector::new();
    detector2.add_input(5);
    let result2 = detector2.check_output(42);
    assert!(result2.is_none());
}

#[test]
fn test_task_detector_new() {
    let detector = TaskDetector::new();
    assert_eq!(detector.inputs.len(), 0);
}

#[test]
fn test_task_detector_add_input() {
    let mut detector = TaskDetector::new();
    detector.add_input(10);
    detector.add_input(20);
    detector.add_input(30);
    assert_eq!(detector.inputs.len(), 3);
}

#[test]
fn test_task_detector_input_buffer_limit() {
    let mut detector = TaskDetector::new();
    for i in 0..100 {
        detector.add_input(i);
    }
    // Should keep last inputs up to buffer size
    assert!(detector.inputs.len() <= 10);
}

#[test]
fn test_wrong_output_no_task() {
    let mut detector = TaskDetector::new();
    detector.add_input(0b1100);
    detector.add_input(0b1010);

    // Output doesn't match any task
    let output = 42;
    let result = detector.check_output(output);
    assert!(result.is_none());
}

#[test]
fn test_task_environment_default() {
    let env = TaskEnvironment::default_logic9();
    // All tasks should be enabled by default
    for i in 0..9 {
        assert!(env.task_enabled[i]);
    }
}

#[test]
fn test_task_environment_task_limits() {
    let mut env = TaskEnvironment::default_logic9();
    env.max_task_count[0] = 5; // NOT task limit

    // Verify limit is set
    assert_eq!(env.max_task_count[0], 5);
}

#[test]
fn test_task_environment_can_disable_task() {
    let mut env = TaskEnvironment::default_logic9();
    env.task_enabled[0] = false; // Disable NOT task

    assert!(!env.task_enabled[0]);
    assert!(env.task_enabled[1]); // Other tasks still enabled
}

#[test]
fn test_multiple_tasks_same_inputs() {
    let mut detector = TaskDetector::new();
    let a = 0b1100;
    let b = 0b1010;
    detector.add_input(a);
    detector.add_input(b);

    // Test that different operations on same inputs detect different tasks
    let and_result = a & b;
    let or_result = a | b;
    let xor_result = a ^ b;

    let task1 = detector.check_output(and_result);
    assert_eq!(task1.unwrap().0, Task::And);

    let task2 = detector.check_output(or_result);
    assert_eq!(task2.unwrap().0, Task::Or);

    let task3 = detector.check_output(xor_result);
    assert_eq!(task3.unwrap().0, Task::Xor);
}

#[test]
fn test_task_with_zero_inputs() {
    let mut detector = TaskDetector::new();
    detector.add_input(0);
    detector.add_input(0);

    let output = 0 & 0;
    let result = detector.check_output(output);
    assert!(result.is_some());
    let (task, _) = result.unwrap();
    assert_eq!(task, Task::And);
}

#[test]
fn test_task_with_negative_inputs() {
    let mut detector = TaskDetector::new();
    detector.add_input(-5);
    detector.add_input(10);

    let output = !10;
    let result = detector.check_output(output);
    assert!(result.is_some());
}
