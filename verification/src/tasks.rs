//! The Logic-9 task environment: the nine rewarded logic functions, the
//! sliding-window task detector, and the per-task reward policy.

use vstd::prelude::*;

verus! {

/// The nine logic functions an organism can be rewarded for computing.
#[derive(Debug, Clone, Copy, PartialEq, Eq, Structural)]
pub enum Task {
    Not,
    Nand,
    And,
    Orn,
    Or,
    Andn,
    Nor,
    Xor,
    Equ,
}

/// The bit position of a task in the `tasks_completed` mask, following the
/// fixed detection order.
pub open spec fn spec_task_index(t: Task) -> u8 {
    match t {
        Task::Not => 0,
        Task::Nand => 1,
        Task::And => 2,
        Task::Orn => 3,
        Task::Or => 4,
        Task::Andn => 5,
        Task::Nor => 6,
        Task::Xor => 7,
        Task::Equ => 8,
    }
}

/// The merit bonus exponent of a task; the multiplier is two to this power.
pub open spec fn spec_bonus_value(t: Task) -> u32 {
    match t {
        Task::Not => 1,
        Task::Nand => 1,
        Task::And => 2,
        Task::Orn => 2,
        Task::Or => 3,
        Task::Andn => 3,
        Task::Nor => 4,
        Task::Xor => 4,
        Task::Equ => 4,
    }
}

/// What a task computes from the two most recent inputs.
pub open spec fn spec_task_output(t: Task, a: i32, b: i32) -> i32 {
    match t {
        Task::Not => !b,
        Task::Nand => !(a & b),
        Task::And => a & b,
        Task::Orn => a | !b,
        Task::Or => a | b,
        Task::Andn => a & !b,
        Task::Nor => !(a | b),
        Task::Xor => a ^ b,
        Task::Equ => !(a ^ b),
    }
}

/// The task detected for an output, given the input history: the first of
/// the nine functions (in fixed order) whose value on the two most recent
/// inputs equals the output; none with fewer than two inputs in history.
pub open spec fn spec_detect(inputs: Seq<i32>, output: i32) -> Option<Task> {
    if inputs.len() < 2 {
        None
    } else {
        let a = inputs[inputs.len() - 2];
        let b = inputs[inputs.len() - 1];
        if output == spec_task_output(Task::Not, a, b) {
            Some(Task::Not)
        } else if output == spec_task_output(Task::Nand, a, b) {
            Some(Task::Nand)
        } else if output == spec_task_output(Task::And, a, b) {
            Some(Task::And)
        } else if output == spec_task_output(Task::Orn, a, b) {
            Some(Task::Orn)
        } else if output == spec_task_output(Task::Or, a, b) {
            Some(Task::Or)
        } else if output == spec_task_output(Task::Andn, a, b) {
            Some(Task::Andn)
        } else if output == spec_task_output(Task::Nor, a, b) {
            Some(Task::Nor)
        } else if output == spec_task_output(Task::Xor, a, b) {
            Some(Task::Xor)
        } else if output == spec_task_output(Task::Equ, a, b) {
            Some(Task::Equ)
        } else {
            None
        }
    }
}

impl Task {
    /// The bit position in the 9-bit mask of credited tasks.
    pub fn index(&self) -> (r: u8)
        ensures
            r == spec_task_index(*self),
            r < 9,
    {
        match self {
            Task::Not => 0,
            Task::Nand => 1,
            Task::And => 2,
            Task::Orn => 3,
            Task::Or => 4,
            Task::Andn => 5,
            Task::Nor => 6,
            Task::Xor => 7,
            Task::Equ => 8,
        }
    }

    /// The merit bonus exponent; the merit multiplier is `2^bonus_value`.
    pub fn bonus_value(&self) -> (r: u32)
        ensures
            r == spec_bonus_value(*self),
            1 <= r <= 4,
    {
        match self {
            Task::Not => 1,
            Task::Nand => 1,
            Task::And => 2,
            Task::Orn => 2,
            Task::Or => 3,
            Task::Andn => 3,
            Task::Nor => 4,
            Task::Xor => 4,
            Task::Equ => 4,
        }
    }

    /// The factor by which a credited task multiplies merit.
    pub fn merit_multiplier(&self) -> (r: u64)
        ensures
            r == spec_merit_multiplier(*self),
            2 <= r <= 16,
    {
        match self {
            Task::Not => 2,
            Task::Nand => 2,
            Task::And => 4,
            Task::Orn => 4,
            Task::Or => 8,
            Task::Andn => 8,
            Task::Nor => 16,
            Task::Xor => 16,
            Task::Equ => 16,
        }
    }

    /// The task's display name.
    pub fn name(&self) -> (r: &'static str)
        ensures
            r@ == spec_task_name(*self),
    {
        proof {
            reveal_strlit("NOT");
            reveal_strlit("NAND");
            reveal_strlit("AND");
            reveal_strlit("ORN");
            reveal_strlit("OR");
            reveal_strlit("ANDN");
            reveal_strlit("NOR");
            reveal_strlit("XOR");
            reveal_strlit("EQU");
        }
        match self {
            Task::Not => "NOT",
            Task::Nand => "NAND",
            Task::And => "AND",
            Task::Orn => "ORN",
            Task::Or => "OR",
            Task::Andn => "ANDN",
            Task::Nor => "NOR",
            Task::Xor => "XOR",
            Task::Equ => "EQU",
        }
    }

    /// All nine tasks, in detection order.
    pub fn all() -> (r: [Task; 9])
        ensures
            r@ == spec_all_tasks(),
    {
        let r = [
            Task::Not,
            Task::Nand,
            Task::And,
            Task::Orn,
            Task::Or,
            Task::Andn,
            Task::Nor,
            Task::Xor,
            Task::Equ,
        ];
        assert(r@ =~= spec_all_tasks());
        r
    }
}

/// The merit multiplier of a task: two to its bonus exponent.
pub open spec fn spec_merit_multiplier(t: Task) -> u64 {
    match t {
        Task::Not => 2,
        Task::Nand => 2,
        Task::And => 4,
        Task::Orn => 4,
        Task::Or => 8,
        Task::Andn => 8,
        Task::Nor => 16,
        Task::Xor => 16,
        Task::Equ => 16,
    }
}

/// The display name of a task.
pub open spec fn spec_task_name(t: Task) -> Seq<char> {
    match t {
        Task::Not => seq!['N', 'O', 'T'],
        Task::Nand => seq!['N', 'A', 'N', 'D'],
        Task::And => seq!['A', 'N', 'D'],
        Task::Orn => seq!['O', 'R', 'N'],
        Task::Or => seq!['O', 'R'],
        Task::Andn => seq!['A', 'N', 'D', 'N'],
        Task::Nor => seq!['N', 'O', 'R'],
        Task::Xor => seq!['X', 'O', 'R'],
        Task::Equ => seq!['E', 'Q', 'U'],
    }
}

/// The nine tasks in detection order.
pub open spec fn spec_all_tasks() -> Seq<Task> {
    seq![
        Task::Not,
        Task::Nand,
        Task::And,
        Task::Orn,
        Task::Or,
        Task::Andn,
        Task::Nor,
        Task::Xor,
        Task::Equ,
    ]
}

/// Law: the merit multiplier of every task is two to its bonus exponent.
pub proof fn lemma_multiplier_is_power_of_bonus(t: Task)
    ensures
        spec_merit_multiplier(t) == (1u64 << spec_bonus_value(t)),
{
    assert(1u64 << 1u32 == 2u64) by (bit_vector);
    assert(1u64 << 2u32 == 4u64) by (bit_vector);
    assert(1u64 << 3u32 == 8u64) by (bit_vector);
    assert(1u64 << 4u32 == 16u64) by (bit_vector);
}

/// An input history after recording one more value: the value is appended
/// and only the three most recent entries are kept.
pub open spec fn spec_record_input(inputs: Seq<i32>, value: i32) -> Seq<i32> {
    let grown = inputs.push(value);
    if grown.len() > 3 {
        grown.drop_first()
    } else {
        grown
    }
}

/// Sliding window of recent inputs, checked against each output.
#[derive(Debug, Clone)]
pub struct TaskDetector {
    /// The most recent inputs, oldest first; at most three are kept.
    pub inputs: Vec<i32>,
}

impl TaskDetector {
    /// A detector with empty input history.
    pub fn new() -> (r: Self)
        ensures
            r.inputs@ == Seq::<i32>::empty(),
    {
        TaskDetector { inputs: Vec::new() }
    }

    /// Record an input, keeping only the three most recent.
    pub fn add_input(&mut self, value: i32)
        ensures
            final(self).inputs@ == spec_record_input(old(self).inputs@, value),
    {
        self.inputs.push(value);
        if self.inputs.len() > 3 {
            self.inputs.remove(0);
        }
        proof {
            let grown = old(self).inputs@.push(value);
            if grown.len() > 3 {
                assert(self.inputs@ =~= grown.drop_first());
            }
        }
    }

    /// Check an output against the nine tasks: the first match in fixed
    /// order wins, together with the two inputs it used; with fewer than
    /// two recorded inputs nothing is detected.
    pub fn check_output(&self, output: i32) -> (r: Option<(Task, Vec<i32>)>)
        ensures
            ({
                match r {
                    None => spec_detect(self.inputs@, output) is None,
                    Some((t, ins)) => {
                        &&& spec_detect(self.inputs@, output) == Some(t)
                        &&& ins@ == seq![
                            self.inputs@[self.inputs@.len() - 2],
                            self.inputs@[self.inputs@.len() - 1],
                        ]
                    },
                }
            }),
    {
        if self.inputs.len() < 2 {
            return None;
        }
        let a = self.inputs[self.inputs.len() - 2];
        let b = self.inputs[self.inputs.len() - 1];
        let task: Option<Task> = if output == !b {
            Some(Task::Not)
        } else if output == !(a & b) {
            Some(Task::Nand)
        } else if output == (a & b) {
            Some(Task::And)
        } else if output == (a | !b) {
            Some(Task::Orn)
        } else if output == (a | b) {
            Some(Task::Or)
        } else if output == (a & !b) {
            Some(Task::Andn)
        } else if output == !(a | b) {
            Some(Task::Nor)
        } else if output == (a ^ b) {
            Some(Task::Xor)
        } else if output == !(a ^ b) {
            Some(Task::Equ)
        } else {
            None
        };
        match task {
            Some(t) => {
                let mut ins: Vec<i32> = Vec::new();
                ins.push(a);
                ins.push(b);
                proof {
                    assert(ins@ =~= seq![
                        self.inputs@[self.inputs@.len() - 2],
                        self.inputs@[self.inputs@.len() - 1],
                    ]);
                }
                Some((t, ins))
            },
            None => None,
        }
    }

    /// Forget all recorded inputs.
    pub fn clear(&mut self)
        ensures
            final(self).inputs@ == Seq::<i32>::empty(),
    {
        self.inputs.clear();
    }
}

/// Which tasks are enabled and how often each may be rewarded.
pub struct TaskEnvironment {
    /// Whether each task (by bit index) is enabled.
    pub task_enabled: [bool; 9],
    /// How many times each task may be rewarded; 0 means unlimited.
    pub max_task_count: [u32; 9],
}

impl TaskEnvironment {
    /// The default Logic-9 environment: every task enabled, each rewarded
    /// at most once per organism.
    pub fn default_logic9() -> (r: Self)
        ensures
            forall|i: int| 0 <= i < 9 ==> r.task_enabled@[i] == true,
            forall|i: int| 0 <= i < 9 ==> r.max_task_count@[i] == 1u32,
    {
        TaskEnvironment { task_enabled: [true; 9], max_task_count: [1; 9] }
    }

    /// Whether a task is enabled and still below its reward limit.
    pub fn can_reward_task(&self, task: Task, current_count: u32) -> (r: bool)
        ensures
            r == ({
                let idx = spec_task_index(task) as int;
                self.task_enabled@[idx] && (self.max_task_count@[idx] == 0 || current_count
                    < self.max_task_count@[idx])
            }),
    {
        let idx = task.index() as usize;
        self.task_enabled[idx] && (self.max_task_count[idx] == 0 || current_count
            < self.max_task_count[idx])
    }
}

} // verus!
