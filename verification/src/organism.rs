//! A digital organism: a circular genome, a virtual CPU, merit and task
//! bookkeeping, and the reproduction protocol (allocate, copy, divide) with
//! its mutation operators.

use vstd::prelude::*;
use vstd::pervasive::VecAdditionalExecFns;
use crate::cpu::{CPU, MAX_GENOME_LEN};
use crate::instruction::{char_of_instruction, genome_to_string, Instruction};
use crate::rng::rng_below;

verus! {

/// Merit never exceeds this ceiling: it suppresses unbounded compounding of
/// task multipliers.
pub const MERIT_CAP: u64 = 1000;

/// Mutation rates are carried in parts per million; this value means
/// probability one.
pub const RATE_ONE: u32 = 1000000;

/// Saturating increment: counters stick at the top of their range instead
/// of wrapping.
pub open spec fn sat_inc_u64(x: u64) -> u64 {
    if x == u64::MAX {
        x
    } else {
        (x + 1) as u64
    }
}

/// Saturating increment for `u32` counters.
pub open spec fn sat_inc_u32(x: u32) -> u32 {
    if x == u32::MAX {
        x
    } else {
        (x + 1) as u32
    }
}

/// Saturating increment for `usize` counters.
pub open spec fn sat_inc_usize(x: usize) -> usize {
    if x == usize::MAX {
        x
    } else {
        (x + 1) as usize
    }
}

/// The opcode at a position of the uniform draw 0..26, in letter order.
pub open spec fn spec_instruction_of_index(k: int) -> Instruction {
    if k == 0 {
        Instruction::NopA
    } else if k == 1 {
        Instruction::NopB
    } else if k == 2 {
        Instruction::NopC
    } else if k == 3 {
        Instruction::IfNEqu
    } else if k == 4 {
        Instruction::IfLess
    } else if k == 5 {
        Instruction::Pop
    } else if k == 6 {
        Instruction::Push
    } else if k == 7 {
        Instruction::SwapStk
    } else if k == 8 {
        Instruction::Swap
    } else if k == 9 {
        Instruction::ShiftR
    } else if k == 10 {
        Instruction::ShiftL
    } else if k == 11 {
        Instruction::Inc
    } else if k == 12 {
        Instruction::Dec
    } else if k == 13 {
        Instruction::Add
    } else if k == 14 {
        Instruction::Sub
    } else if k == 15 {
        Instruction::Nand
    } else if k == 16 {
        Instruction::IO
    } else if k == 17 {
        Instruction::HAlloc
    } else if k == 18 {
        Instruction::HDivide
    } else if k == 19 {
        Instruction::HCopy
    } else if k == 20 {
        Instruction::HSearch
    } else if k == 21 {
        Instruction::MovHead
    } else if k == 22 {
        Instruction::JmpHead
    } else if k == 23 {
        Instruction::GetHead
    } else if k == 24 {
        Instruction::IfLabel
    } else {
        Instruction::SetFlow
    }
}

/// One uniformly drawn opcode, by its position in letter order.
fn instruction_of_index(k: u64) -> (r: Instruction)
    requires
        k < 26,
    ensures
        r == spec_instruction_of_index(k as int),
{
    if k == 0 {
        Instruction::NopA
    } else if k == 1 {
        Instruction::NopB
    } else if k == 2 {
        Instruction::NopC
    } else if k == 3 {
        Instruction::IfNEqu
    } else if k == 4 {
        Instruction::IfLess
    } else if k == 5 {
        Instruction::Pop
    } else if k == 6 {
        Instruction::Push
    } else if k == 7 {
        Instruction::SwapStk
    } else if k == 8 {
        Instruction::Swap
    } else if k == 9 {
        Instruction::ShiftR
    } else if k == 10 {
        Instruction::ShiftL
    } else if k == 11 {
        Instruction::Inc
    } else if k == 12 {
        Instruction::Dec
    } else if k == 13 {
        Instruction::Add
    } else if k == 14 {
        Instruction::Sub
    } else if k == 15 {
        Instruction::Nand
    } else if k == 16 {
        Instruction::IO
    } else if k == 17 {
        Instruction::HAlloc
    } else if k == 18 {
        Instruction::HDivide
    } else if k == 19 {
        Instruction::HCopy
    } else if k == 20 {
        Instruction::HSearch
    } else if k == 21 {
        Instruction::MovHead
    } else if k == 22 {
        Instruction::JmpHead
    } else if k == 23 {
        Instruction::GetHead
    } else if k == 24 {
        Instruction::IfLabel
    } else {
        Instruction::SetFlow
    }
}

/// A self-replicating program with its execution state.
#[derive(Debug, Clone)]
pub struct Organism {
    /// The circular genome.
    pub genome: Vec<Instruction>,
    /// Virtual CPU state.
    pub cpu: CPU,
    /// Merit in whole units: at least 1, at most `MERIT_CAP`; drives the
    /// scheduler's cycle allocation.
    pub merit: u64,
    /// Instructions executed over the whole lifetime.
    pub instruction_count: u64,
    /// Generation number: 0 for injected organisms, parent + 1 for births.
    pub generation: u32,
    /// Number of successful divisions.
    pub offspring_count: u32,
    /// 9-bit mask of tasks credited so far.
    pub tasks_completed: u16,
    /// The child genome under construction, if gestating.
    pub child_genome: Option<Vec<Instruction>>,
    /// Highest write-head offset reached during the current gestation.
    pub child_copy_progress: usize,
    /// Length of the last completed gestation (initially estimated as twice
    /// the genome length); the denominator of fitness.
    pub gestation_time: u64,
    /// Instructions executed since the last successful division.
    pub gestation_cycles: u64,
    /// Position in the world grid, if placed.
    pub position: Option<(usize, usize)>,
}

impl Organism {
    /// Structural invariant: the genome is nonempty and bounded, every head
    /// that addresses the parent genome is in range, an idle organism's
    /// write-head is in range too, a child is always allocated at the
    /// parent's length, merit is in [1, cap], the task mask has only its
    /// nine low bits, and the stacks respect their depth bound.
    pub open spec fn wf(self) -> bool {
        &&& 1 <= self.genome@.len() <= MAX_GENOME_LEN
        &&& self.cpu.ip < self.genome@.len()
        &&& self.cpu.read_head < self.genome@.len()
        &&& self.cpu.flow_head < self.genome@.len()
        &&& (self.child_genome is None ==> self.cpu.write_head < self.genome@.len())
        &&& (self.child_genome matches Some(c) ==> c@.len() == self.genome@.len())
        &&& 1 <= self.merit <= MERIT_CAP
        &&& self.tasks_completed < 512
        &&& self.cpu.stack1@.len() <= crate::cpu::STACK_MAX_DEPTH
        &&& self.cpu.stack2@.len() <= crate::cpu::STACK_MAX_DEPTH
    }

    /// A fresh organism on the given genome: base merit, generation zero,
    /// nothing executed, no child, gestation estimated at twice the genome
    /// length.
    pub fn new(genome: Vec<Instruction>) -> (r: Self)
        requires
            1 <= genome@.len() <= MAX_GENOME_LEN,
        ensures
            r.wf(),
            r.genome == genome,
            r.cpu.is_fresh(),
            r.merit == 1,
            r.instruction_count == 0,
            r.generation == 0,
            r.offspring_count == 0,
            r.tasks_completed == 0,
            r.child_genome is None,
            r.child_copy_progress == 0,
            r.gestation_time == 2 * genome@.len(),
            r.gestation_cycles == 0,
            r.position is None,
    {
        let genome_size = genome.len();
        Organism {
            genome,
            cpu: CPU::new(),
            merit: 1,
            instruction_count: 0,
            generation: 0,
            offspring_count: 0,
            tasks_completed: 0,
            child_genome: None,
            child_copy_progress: 0,
            gestation_time: (genome_size as u64) * 2,
            gestation_cycles: 0,
            position: None,
        }
    }

    /// The instruction under the instruction pointer.
    pub fn current_instruction(&self) -> (r: Option<Instruction>)
        ensures
            r == if self.cpu.ip < self.genome@.len() {
                Some(self.genome@[self.cpu.ip as int])
            } else {
                None::<Instruction>
            },
    {
        if self.cpu.ip < self.genome.len() {
            Some(self.genome[self.cpu.ip])
        } else {
            None
        }
    }

    /// Advance the instruction pointer one step, wrapping at the end.
    pub fn advance_ip(&mut self)
        requires
            1 <= old(self).genome@.len(),
            old(self).cpu.ip < old(self).genome@.len(),
        ensures
            *final(self) == (Organism { cpu: final(self).cpu, ..*old(self) }),
            final(self).cpu == (CPU { ip: final(self).cpu.ip, ..old(self).cpu }),
            final(self).cpu.ip as int == (old(self).cpu.ip + 1) % (old(self).genome@.len() as int),
            final(self).cpu.ip < old(self).genome@.len(),
    {
        let next = self.cpu.advance_head(self.cpu.ip, self.genome.len());
        self.cpu.ip = next;
    }

    /// Execute one bare step without interpreting the opcode: consume a
    /// pending skip, or advance the IP and count the instruction. Never
    /// signals a division by itself.
    pub fn execute_instruction(&mut self) -> (r: bool)
        requires
            1 <= old(self).genome@.len(),
            old(self).cpu.ip < old(self).genome@.len(),
        ensures
            r == false,
            *final(self) == (Organism {
                cpu: final(self).cpu,
                instruction_count: final(self).instruction_count,
                gestation_cycles: final(self).gestation_cycles,
                ..*old(self)
            }),
            final(self).cpu == (CPU { ip: final(self).cpu.ip, skip_next: false, ..old(self).cpu }),
            final(self).cpu.ip as int == (old(self).cpu.ip + 1) % (old(self).genome@.len() as int),
            old(self).cpu.skip_next ==> final(self).instruction_count == old(
                self,
            ).instruction_count && final(self).gestation_cycles == old(self).gestation_cycles,
            !old(self).cpu.skip_next ==> final(self).instruction_count == sat_inc_u64(
                old(self).instruction_count,
            ) && final(self).gestation_cycles == sat_inc_u64(old(self).gestation_cycles),
    {
        if self.cpu.skip_next {
            self.cpu.skip_next = false;
            self.advance_ip();
            return false;
        }
        self.advance_ip();
        if self.instruction_count != u64::MAX {
            self.instruction_count = self.instruction_count + 1;
        }
        if self.gestation_cycles != u64::MAX {
            self.gestation_cycles = self.gestation_cycles + 1;
        }
        false
    }

    /// Allocate the child genome (h-alloc): the parent's length of nop-A,
    /// read- and write-head rewound, label trace cleared, AX set to the
    /// genome length. Re-allocating while a child exists changes nothing.
    pub fn allocate_child(&mut self)
        requires
            1 <= old(self).genome@.len() <= MAX_GENOME_LEN,
        ensures
            old(self).child_genome is Some ==> *final(self) == *old(self),
            old(self).child_genome is None ==> {
                &&& *final(self) == (Organism {
                    cpu: final(self).cpu,
                    child_genome: final(self).child_genome,
                    child_copy_progress: 0,
                    ..*old(self)
                })
                &&& final(self).cpu == (CPU {
                    registers: final(self).cpu.registers,
                    read_head: 0,
                    write_head: 0,
                    last_copied_label: final(self).cpu.last_copied_label,
                    ..old(self).cpu
                })
                &&& final(self).cpu.registers@ == old(self).cpu.registers@.update(
                    0,
                    old(self).genome@.len() as i32,
                )
                &&& final(self).cpu.last_copied_label@ == Seq::<Instruction>::empty()
                &&& final(self).child_genome matches Some(c) && c@ == Seq::new(
                    old(self).genome@.len(),
                    |i: int| Instruction::NopA,
                )
            },
    {
        if self.child_genome.is_some() {
            return ;
        }
        let child_size = self.genome.len();
        let mut child: Vec<Instruction> = Vec::new();
        let mut k: usize = 0;
        while k < child_size
            invariant
                k <= child_size,
                child@.len() == k,
                forall|i: int| 0 <= i < k ==> child@[i] == Instruction::NopA,
            decreases child_size - k,
        {
            child.push(Instruction::NopA);
            k = k + 1;
        }
        proof {
            assert(child@ =~= Seq::new(old(self).genome@.len(), |i: int| Instruction::NopA));
        }
        self.child_genome = Some(child);
        self.cpu.registers[0] = child_size as i32;
        self.cpu.write_head = 0;
        self.cpu.read_head = 0;
        self.cpu.last_copied_label.clear();
        self.child_copy_progress = 0;
    }

    /// Copy one instruction from the read-head to the write-head (h-copy).
    /// The instruction read is replaced by a uniformly drawn opcode with
    /// probability `mutation_rate_ppm` in a million; both heads advance
    /// (the write-head saturating), the label trace records nops and is
    /// cleared by anything else, and copy progress tracks the furthest
    /// write. Without an allocated child, or with the read-head out of
    /// range, nothing changes.
    pub fn copy_instruction(
        &mut self,
        rng: &mut rand::rngs::SmallRng,
        mutation_rate_ppm: u32,
    ) -> (r: Option<Instruction>)
        requires
            1 <= old(self).genome@.len(),
        ensures
            old(self).child_genome is None ==> r is None && *final(self) == *old(self),
            old(self).child_genome is Some && old(self).cpu.read_head >= old(self).genome@.len()
                ==> r is None && *final(self) == *old(self),
            (old(self).child_genome is Some && old(self).cpu.read_head < old(
                self,
            ).genome@.len()) ==> {
                let c = old(self).child_genome.unwrap();
                let rh = old(self).cpu.read_head;
                let wh = old(self).cpu.write_head;
                &&& r is Some
                &&& (mutation_rate_ppm == 0 ==> r == Some(old(self).genome@[rh as int]))
                &&& final(self).child_genome matches Some(c2) && c2@ == (if wh < c@.len() {
                    c@.update(wh as int, r.unwrap())
                } else {
                    c@
                })
                &&& *final(self) == (Organism {
                    cpu: final(self).cpu,
                    child_genome: final(self).child_genome,
                    child_copy_progress: final(self).child_copy_progress,
                    ..*old(self)
                })
                &&& final(self).cpu == (CPU {
                    read_head: final(self).cpu.read_head,
                    write_head: final(self).cpu.write_head,
                    last_copied_label: final(self).cpu.last_copied_label,
                    ..old(self).cpu
                })
                &&& final(self).cpu.read_head as int == (rh + 1) % (old(self).genome@.len() as int)
                &&& final(self).cpu.write_head == sat_inc_usize(wh)
                &&& final(self).child_copy_progress == (if sat_inc_usize(wh) > old(
                    self,
                ).child_copy_progress {
                    sat_inc_usize(wh)
                } else {
                    old(self).child_copy_progress
                })
                &&& (r.unwrap().spec_is_nop() ==> final(self).cpu.last_copied_label@ == old(
                    self,
                ).cpu.last_copied_label@.push(r.unwrap()))
                &&& (!r.unwrap().spec_is_nop() ==> final(self).cpu.last_copied_label@ == Seq::<
                    Instruction,
                >::empty())
            },
    {
        let child_opt = self.child_genome.take();
        match child_opt {
            None => None,
            Some(mut child) => {
                if self.cpu.read_head >= self.genome.len() {
                    self.child_genome = Some(child);
                    return None;
                }
                let inst = self.genome[self.cpu.read_head];
                let draw = rng_below(rng, RATE_ONE as u64);
                let inst_to_write = if (draw as u32) < mutation_rate_ppm {
                    let k = rng_below(rng, 26);
                    instruction_of_index(k)
                } else {
                    inst
                };
                if self.cpu.write_head < child.len() {
                    child.set(self.cpu.write_head, inst_to_write);
                }
                if inst_to_write.is_nop() {
                    self.cpu.last_copied_label.push(inst_to_write);
                } else {
                    self.cpu.last_copied_label.clear();
                }
                let new_rh = self.cpu.advance_head(self.cpu.read_head, self.genome.len());
                self.cpu.read_head = new_rh;
                if self.cpu.write_head != usize::MAX {
                    self.cpu.write_head = self.cpu.write_head + 1;
                }
                if self.cpu.write_head > self.child_copy_progress {
                    self.child_copy_progress = self.cpu.write_head;
                }
                self.child_genome = Some(child);
                Some(inst_to_write)
            },
        }
    }

    /// Attempt division (the scheduler's transition after h-divide). It
    /// fails without a child, or with copy progress short of half the
    /// parent length (rounded up), retaining the child for a later retry.
    /// On success the child is truncated to the copied prefix, at most one
    /// deletion and one insertion are applied (each a Bernoulli draw at
    /// its rate), an empty result gains a single nop-C, the offspring
    /// starts fresh at generation parent + 1 and merit 1, and the parent
    /// rewinds its heads and gestation for the next cycle.
    pub fn divide(
        &mut self,
        rng: &mut rand::rngs::SmallRng,
        insertion_rate_ppm: u32,
        deletion_rate_ppm: u32,
    ) -> (r: Option<Organism>)
        requires
            1 <= old(self).genome@.len() <= MAX_GENOME_LEN,
            old(self).child_genome matches Some(c) ==> c@.len() <= MAX_GENOME_LEN,
        ensures
            old(self).child_genome is None ==> r is None && *final(self) == *old(self),
            (old(self).child_genome is Some && vstd::math::min(
                old(self).child_copy_progress as int,
                old(self).child_genome.unwrap()@.len() as int,
            ) < (old(self).genome@.len() + 1) / 2) ==> r is None && *final(self) == *old(self),
            (old(self).child_genome is Some && vstd::math::min(
                old(self).child_copy_progress as int,
                old(self).child_genome.unwrap()@.len() as int,
            ) >= (old(self).genome@.len() + 1) / 2) ==> ({
                let c = old(self).child_genome.unwrap();
                let base = vstd::math::min(old(self).child_copy_progress as int, c@.len() as int);
                let kept = c@.subrange(0, base);
                &&& r matches Some(off)
                &&& off.wf()
                &&& off.cpu.is_fresh()
                &&& off.merit == 1
                &&& off.instruction_count == 0
                &&& off.generation == sat_inc_u32(old(self).generation)
                &&& off.offspring_count == 0
                &&& off.tasks_completed == 0
                &&& off.child_genome is None
                &&& off.child_copy_progress == 0
                &&& off.gestation_time == 2 * off.genome@.len()
                &&& off.gestation_cycles == 0
                &&& off.position is None
                &&& (insertion_rate_ppm == 0 && deletion_rate_ppm == 0 ==> off.genome@ == kept)
                &&& (insertion_rate_ppm == RATE_ONE && deletion_rate_ppm == 0 && base
                    < MAX_GENOME_LEN ==> off.genome@.len() == base + 1)
                &&& (insertion_rate_ppm == 0 && deletion_rate_ppm == RATE_ONE ==> off.genome@.len()
                    == (if base > 1 {
                    base - 1
                } else {
                    1
                }))
                &&& (insertion_rate_ppm == 0 && deletion_rate_ppm == RATE_ONE && base == 1
                    ==> off.genome@ == seq![Instruction::NopC])
                &&& (insertion_rate_ppm == RATE_ONE && deletion_rate_ppm == RATE_ONE && base
                    < MAX_GENOME_LEN ==> off.genome@.len() == base)
                &&& base - 1 <= off.genome@.len() <= base + 1
                &&& 1 <= off.genome@.len()
                &&& *final(self) == (Organism {
                    cpu: final(self).cpu,
                    child_genome: None,
                    child_copy_progress: 0,
                    offspring_count: sat_inc_u32(old(self).offspring_count),
                    gestation_time: (if old(self).gestation_cycles > 0 {
                        old(self).gestation_cycles
                    } else {
                        old(self).gestation_time
                    }),
                    gestation_cycles: 0,
                    ..*old(self)
                })
                &&& final(self).cpu == (CPU {
                    ip: 0,
                    read_head: 0,
                    write_head: 0,
                    last_copied_label: final(self).cpu.last_copied_label,
                    ..old(self).cpu
                })
                &&& final(self).cpu.last_copied_label@ == Seq::<Instruction>::empty()
            }),
    {
        let child_opt = self.child_genome.take();
        match child_opt {
            None => None,
            Some(mut child) => {
                let parent_size = self.genome.len();
                let progress = if self.child_copy_progress < child.len() {
                    self.child_copy_progress
                } else {
                    child.len()
                };
                let threshold = (parent_size + 1) / 2;
                if progress < threshold {
                    // Not enough copied: keep the child for a later retry.
                    self.child_genome = Some(child);
                    return None;
                }
                child.truncate(progress);
                if child.len() > 0 {
                    let draw_del = rng_below(rng, RATE_ONE as u64);
                    if (draw_del as u32) < deletion_rate_ppm {
                        let pos = rng_below(rng, child.len() as u64) as usize;
                        child.remove(pos);
                    }
                }
                let draw_ins = rng_below(rng, RATE_ONE as u64);
                if (draw_ins as u32) < insertion_rate_ppm && child.len() < MAX_GENOME_LEN {
                    let pos = rng_below(rng, (child.len() as u64) + 1) as usize;
                    let k = rng_below(rng, 26);
                    child.insert(pos, instruction_of_index(k));
                }
                if child.len() == 0 {
                    child.push(Instruction::NopC);
                }
                let mut offspring = Organism::new(child);
                offspring.generation = if self.generation != u32::MAX {
                    self.generation + 1
                } else {
                    self.generation
                };
                self.offspring_count = if self.offspring_count != u32::MAX {
                    self.offspring_count + 1
                } else {
                    self.offspring_count
                };
                if self.gestation_cycles > 0 {
                    self.gestation_time = self.gestation_cycles;
                }
                self.gestation_cycles = 0;
                self.cpu.ip = 0;
                self.cpu.read_head = 0;
                self.cpu.write_head = 0;
                self.cpu.last_copied_label.clear();
                self.child_copy_progress = 0;
                Some(offspring)
            },
        }
    }

    /// Whether the task with the given bit index has been credited.
    pub fn has_completed_task(&self, task_index: u8) -> (r: bool)
        ensures
            r == spec_has_task(self.tasks_completed, task_index),
    {
        if task_index >= 9 {
            return false;
        }
        let m = self.tasks_completed;
        let r = (m & (1u16 << (task_index as u16))) != 0;
        proof {
            let idx = task_index;
            assert(idx < 9 ==> (((m & (1u16 << (idx as u16))) != 0) <==> ((m >> (idx as u16))
                & 1u16 == 1u16))) by (bit_vector);
        }
        r
    }

    /// Credit the task with the given bit index; indices past the nine
    /// tasks change nothing. The mask keeps to its nine low bits.
    pub fn complete_task(&mut self, task_index: u8)
        ensures
            *final(self) == (Organism {
                tasks_completed: final(self).tasks_completed,
                ..*old(self)
            }),
            task_index < 9 ==> final(self).tasks_completed == (old(self).tasks_completed | (1u16
                << (task_index as u16))),
            task_index >= 9 ==> final(self).tasks_completed == old(self).tasks_completed,
            old(self).tasks_completed < 512 ==> final(self).tasks_completed < 512,
            spec_has_task(final(self).tasks_completed, task_index) == (task_index < 9),
            forall|other: u8|
                other != task_index ==> spec_has_task(final(self).tasks_completed, other)
                    == spec_has_task(old(self).tasks_completed, other),
    {
        let m = self.tasks_completed;
        if task_index < 9 {
            self.tasks_completed = m | (1u16 << (task_index as u16));
        }
        proof {
            let idx = task_index;
            assert(idx < 9 && m < 512 ==> ((m | (1u16 << (idx as u16))) < 512)) by (bit_vector);
            assert(idx < 9 ==> (((m | (1u16 << (idx as u16))) >> (idx as u16)) & 1u16 == 1u16))
                by (bit_vector);
            assert forall|other: u8| other != idx implies spec_has_task(
                self.tasks_completed,
                other,
            ) == spec_has_task(m, other) by {
                if idx < 9 && other < 9 {
                    assert(other != idx && idx < 9 && other < 9 ==> (((m | (1u16 << (idx as u16)))
                        >> (other as u16)) & 1u16 == (m >> (other as u16)) & 1u16))
                        by (bit_vector);
                }
            }
        }
    }

    /// The genome rendered as its string of letters.
    pub fn genome_string(&self) -> (r: String)
        ensures
            r@.len() == self.genome@.len(),
            forall|i: int|
                0 <= i < self.genome@.len() ==> r@[i] == char_of_instruction(
                    #[trigger] self.genome@[i],
                ),
    {
        genome_to_string(self.genome.as_slice())
    }

    /// The genome length.
    pub fn genome_size(&self) -> (r: usize)
        ensures
            r == self.genome@.len(),
    {
        self.genome.len()
    }

    /// Fitness in thousandths: merit over the last gestation length, or
    /// merit alone when no gestation has completed yet.
    pub fn fitness(&self) -> (r: u64)
        requires
            self.merit <= MERIT_CAP,
        ensures
            r as int == spec_fitness_milli(self.merit, self.gestation_time),
    {
        if self.gestation_time == 0 {
            self.merit * 1000
        } else {
            (self.merit * 1000) / self.gestation_time
        }
    }

    /// After a successful division, adopt the cycles of the completed
    /// gestation as the expected gestation length.
    pub fn update_gestation_time(&mut self)
        ensures
            *final(self) == (Organism { gestation_time: final(self).gestation_time, ..*old(self) }),
            final(self).gestation_time == (if old(self).gestation_cycles > 0 {
                old(self).gestation_cycles
            } else {
                old(self).gestation_time
            }),
    {
        if self.gestation_cycles > 0 {
            self.gestation_time = self.gestation_cycles;
        }
    }

    /// The canonical self-replicating ancestor, 50 instructions: the core
    /// `rutyabsva` (allocate, search, copy, label-gated divide, loop), a
    /// padding field of nop-C, and the end label `bc`.
    pub fn ancestor() -> (r: Self)
        ensures
            r.wf(),
            r.genome@ == spec_ancestor_genome(),
            r.genome@.len() == 50,
            fresh_organism_state(r),
    {
        let mut g: Vec<Instruction> = Vec::new();
        push_replication_core(&mut g);
        push_nop_c_padding(&mut g, 39);
        g.push(Instruction::NopB);
        g.push(Instruction::NopC);
        proof {
            assert(g@ =~= spec_ancestor_genome());
        }
        Self::new(g)
    }

    /// A task-capable ancestor: the same replication core, then I/O,
    /// stack and arithmetic opcodes (`gqfgqpgqno`) as raw material for
    /// task evolution, nop-C padding, and the end label `bc`.
    pub fn ancestor_with_tasks() -> (r: Self)
        ensures
            r.wf(),
            r.genome@ == spec_task_ancestor_genome(),
            r.genome@.len() == 50,
            fresh_organism_state(r),
    {
        let mut g: Vec<Instruction> = Vec::new();
        push_replication_core(&mut g);
        g.push(Instruction::Push);
        g.push(Instruction::IO);
        g.push(Instruction::Pop);
        g.push(Instruction::Push);
        g.push(Instruction::IO);
        g.push(Instruction::Nand);
        g.push(Instruction::Push);
        g.push(Instruction::IO);
        g.push(Instruction::Add);
        g.push(Instruction::Sub);
        push_nop_c_padding(&mut g, 29);
        g.push(Instruction::NopB);
        g.push(Instruction::NopC);
        proof {
            assert(g@ =~= spec_task_ancestor_genome());
        }
        Self::new(g)
    }

    /// The Avida-ED-style ancestor genome, kept for reference; it does not
    /// self-replicate under this instruction set.
    pub fn ancestor_avida_ed() -> (r: Self)
        ensures
            r.wf(),
            r.genome@ == spec_avida_ed_genome(),
            r.genome@.len() == 50,
            fresh_organism_state(r),
    {
        let mut g: Vec<Instruction> = Vec::new();
        g.push(Instruction::JmpHead);
        g.push(Instruction::SetFlow);
        g.push(Instruction::NopC);
        g.push(Instruction::NopA);
        g.push(Instruction::Push);
        push_nop_c_padding(&mut g, 36);
        g.push(Instruction::SetFlow);
        g.push(Instruction::MovHead);
        g.push(Instruction::Pop);
        g.push(Instruction::NopC);
        g.push(Instruction::NopA);
        g.push(Instruction::GetHead);
        g.push(Instruction::Push);
        g.push(Instruction::NopA);
        g.push(Instruction::NopB);
        proof {
            assert(g@ =~= spec_avida_ed_genome());
        }
        Self::new(g)
    }
}

/// Whether a task bit is set in a completion mask: the index addresses one
/// of the nine tasks and its bit is one.
pub open spec fn spec_has_task(mask: u16, idx: u8) -> bool {
    idx < 9 && ((mask >> (idx as u16)) & 1u16 == 1u16)
}

/// Fitness in thousandths of a merit unit per gestation cycle.
pub open spec fn spec_fitness_milli(merit: u64, gestation_time: u64) -> int {
    if gestation_time == 0 {
        merit * 1000
    } else {
        (merit * 1000) / (gestation_time as int)
    }
}

/// The state every newly constructed organism starts in.
pub open spec fn fresh_organism_state(r: Organism) -> bool {
    &&& r.cpu.is_fresh()
    &&& r.merit == 1
    &&& r.instruction_count == 0
    &&& r.generation == 0
    &&& r.offspring_count == 0
    &&& r.tasks_completed == 0
    &&& r.child_genome is None
    &&& r.child_copy_progress == 0
    &&& r.gestation_time == 2 * r.genome@.len()
    &&& r.gestation_cycles == 0
    &&& r.position is None
}

/// The replication core `rutyabsva`: allocate, search, copy, label test
/// over `ab`, divide, and the loop jump back to the copy.
pub open spec fn spec_ancestor_core() -> Seq<Instruction> {
    seq![
        Instruction::HAlloc,
        Instruction::HSearch,
        Instruction::HCopy,
        Instruction::IfLabel,
        Instruction::NopA,
        Instruction::NopB,
        Instruction::HDivide,
        Instruction::MovHead,
        Instruction::NopA,
    ]
}

/// The default ancestor genome (`rutyabsva`, 39 nop-C, `bc`).
pub open spec fn spec_ancestor_genome() -> Seq<Instruction> {
    spec_ancestor_core() + Seq::new(39, |i: int| Instruction::NopC) + seq![
        Instruction::NopB,
        Instruction::NopC,
    ]
}

/// The task-capable ancestor genome (`rutyabsva`, `gqfgqpgqno`, 29 nop-C,
/// `bc`).
pub open spec fn spec_task_ancestor_genome() -> Seq<Instruction> {
    spec_ancestor_core() + seq![
        Instruction::Push,
        Instruction::IO,
        Instruction::Pop,
        Instruction::Push,
        Instruction::IO,
        Instruction::Nand,
        Instruction::Push,
        Instruction::IO,
        Instruction::Add,
        Instruction::Sub,
    ] + Seq::new(29, |i: int| Instruction::NopC) + seq![Instruction::NopB, Instruction::NopC]
}

/// The Avida-ED-style reference genome (`wzcag`, 36 nop-C, `zvfcaxgab`).
pub open spec fn spec_avida_ed_genome() -> Seq<Instruction> {
    seq![
        Instruction::JmpHead,
        Instruction::SetFlow,
        Instruction::NopC,
        Instruction::NopA,
        Instruction::Push,
    ] + Seq::new(36, |i: int| Instruction::NopC) + seq![
        Instruction::SetFlow,
        Instruction::MovHead,
        Instruction::Pop,
        Instruction::NopC,
        Instruction::NopA,
        Instruction::GetHead,
        Instruction::Push,
        Instruction::NopA,
        Instruction::NopB,
    ]
}

/// Append the replication core `rutyabsva` to a genome under construction.
fn push_replication_core(g: &mut Vec<Instruction>)
    ensures
        final(g)@ == old(g)@ + spec_ancestor_core(),
{
    g.push(Instruction::HAlloc);
    g.push(Instruction::HSearch);
    g.push(Instruction::HCopy);
    g.push(Instruction::IfLabel);
    g.push(Instruction::NopA);
    g.push(Instruction::NopB);
    g.push(Instruction::HDivide);
    g.push(Instruction::MovHead);
    g.push(Instruction::NopA);
    proof {
        assert(g@ =~= old(g)@ + spec_ancestor_core());
    }
}

/// Append `count` nop-C padding instructions to a genome under
/// construction.
fn push_nop_c_padding(g: &mut Vec<Instruction>, count: usize)
    ensures
        final(g)@ == old(g)@ + Seq::new(count as nat, |i: int| Instruction::NopC),
{
    let mut k: usize = 0;
    while k < count
        invariant
            k <= count,
            g@ == old(g)@ + Seq::new(k as nat, |i: int| Instruction::NopC),
        decreases count - k,
    {
        g.push(Instruction::NopC);
        proof {
            assert(g@ =~= old(g)@ + Seq::new((k + 1) as nat, |i: int| Instruction::NopC));
        }
        k = k + 1;
    }
}

} // verus!
