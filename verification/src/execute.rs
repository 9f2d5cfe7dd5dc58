//! The instruction dispatcher: one call executes one instruction of an
//! organism, drives task detection on IO, and reports whether the organism
//! requested a division.

use vstd::prelude::*;
use crate::cpu::{HeadType, CPU};
use crate::instruction::Instruction;
use crate::organism::{sat_inc_u64, spec_has_task, Organism, MERIT_CAP};
use crate::rng::rng_below;
use crate::tasks::{spec_detect, spec_merit_multiplier, spec_task_index, Task, TaskDetector};

verus! {

/// Whether a copied-label trace ends with the (nonempty) complement
/// template.
pub open spec fn spec_label_ends_with(label: Seq<Instruction>, comp: Seq<Instruction>) -> bool {
    &&& comp.len() > 0
    &&& label.len() >= comp.len()
    &&& label.subrange(label.len() - comp.len(), label.len() as int) == comp
}

/// Whether the label trace ends with the complement template.
fn label_ends_with(label: &Vec<Instruction>, comp: &Vec<Instruction>) -> (r: bool)
    ensures
        r == spec_label_ends_with(label@, comp@),
{
    let clen = comp.len();
    if clen == 0 || label.len() < clen {
        return false;
    }
    let llen = label.len();
    let offset = llen - clen;
    let mut i: usize = 0;
    while i < clen
        invariant
            clen == comp@.len(),
            clen > 0,
            llen == label@.len(),
            llen >= clen,
            offset == llen - clen,
            i <= clen,
            forall|j: int| 0 <= j < i ==> label@[offset + j] == #[trigger] comp@[j],
        decreases clen - i,
    {
        if label[offset + i] != comp[i] {
            proof {
                if spec_label_ends_with(label@, comp@) {
                    assert(label@.subrange(
                        label@.len() - comp@.len(),
                        label@.len() as int,
                    )[i as int] == comp@[i as int]);
                }
            }
            return false;
        }
        i = i + 1;
    }
    proof {
        assert(label@.subrange(label@.len() - comp@.len(), label@.len() as int) =~= comp@);
    }
    true
}

/// The element-wise complement of a template of nops.
fn complement_template(t: &Vec<Instruction>) -> (r: Vec<Instruction>)
    requires
        forall|j: int| 0 <= j < t@.len() ==> (#[trigger] t@[j]).spec_is_nop(),
    ensures
        r@ == crate::cpu::spec_complement_seq(t@),
{
    let mut comp: Vec<Instruction> = Vec::new();
    let mut i: usize = 0;
    while i < t.len()
        invariant
            i <= t@.len(),
            comp@.len() == i,
            forall|j: int|
                0 <= j < i ==> #[trigger] comp@[j] == crate::instruction::complement_of(
                    t@[j],
                ).unwrap(),
            forall|j: int| 0 <= j < t@.len() ==> (#[trigger] t@[j]).spec_is_nop(),
        decreases t@.len() - i,
    {
        let c = match t[i].complement_nop() {
            Some(c) => c,
            None => {
                proof {
                    assert(false);
                }
                Instruction::NopA
            },
        };
        comp.push(c);
        i = i + 1;
    }
    proof {
        assert(comp@ =~= crate::cpu::spec_complement_seq(t@));
    }
    comp
}

/// The two's-complement reinterpretation of 32 bits as a signed value.
fn u32_to_i32_bits(x: u32) -> (r: i32)
    ensures
        r as int == if x <= i32::MAX as u32 {
            x as int
        } else {
            x as int - 0x1_0000_0000
        },
{
    if x <= 0x7fff_ffff {
        x as i32
    } else {
        ((x as i64) - 0x1_0000_0000i64) as i32
    }
}


/// Interpret if-n-equ: set the skip flag exactly when BX equals the
/// length of the following template (clipped into a register).
fn exec_if_n_equ(organism: &mut Organism)
    requires
        old(organism).wf(),
        !old(organism).cpu.skip_next,
    ensures
        *final(organism) == (Organism { cpu: final(organism).cpu, ..*old(organism) }),
        final(organism).cpu == (CPU {
            skip_next: final(organism).cpu.skip_next,
            ..old(organism).cpu
        }),
        final(organism).cpu.skip_next == (old(organism).cpu.registers@[1] as int
            == vstd::math::min(
            crate::cpu::spec_read_template(
                old(organism).genome@,
                (old(organism).cpu.ip + 1) % (old(organism).genome@.len() as int),
            ).len() as int,
            i32::MAX as int,
        )),
{
    let genome_len = organism.genome.len();
    let template_start = organism.cpu.advance_head(organism.cpu.ip, genome_len);
    let template = organism.cpu.read_template(&organism.genome, template_start);
    let template_value = i32_of_len(template.len());
    if organism.cpu.registers[1] == template_value {
        organism.cpu.skip_next = true;
    }
}

/// Interpret if-label: consume the following template, then set the skip
/// flag unless the copied-label trace ends with the template's complement.
fn exec_if_label(organism: &mut Organism)
    requires
        old(organism).wf(),
        !old(organism).cpu.skip_next,
    ensures
        *final(organism) == (Organism { cpu: final(organism).cpu, ..*old(organism) }),
        final(organism).cpu == (CPU {
            ip: final(organism).cpu.ip,
            skip_next: final(organism).cpu.skip_next,
            ..old(organism).cpu
        }),
        ({
            let g = old(organism).genome@;
            let len = g.len() as int;
            let tmpl = crate::cpu::spec_read_template(g, (old(organism).cpu.ip + 1) % len);
            &&& final(organism).cpu.ip as int == (old(organism).cpu.ip + tmpl.len()) % len
            &&& final(organism).cpu.ip < g.len()
            &&& final(organism).cpu.skip_next == !spec_label_ends_with(
                old(organism).cpu.last_copied_label@,
                crate::cpu::spec_complement_seq(tmpl),
            )
        }),
{
    let genome_len = organism.genome.len();
    let template_start = organism.cpu.advance_head(organism.cpu.ip, genome_len);
    let template = organism.cpu.read_template(&organism.genome, template_start);
    proof {
        crate::cpu::lemma_read_template_nops(
            organism.genome@,
            template_start as int,
            (organism.genome@.len() + 1) as nat,
        );
    }
    let comp = complement_template(&template);
    let matches_label = label_ends_with(&organism.cpu.last_copied_label, &comp);
    let moved = ((organism.cpu.ip as u64 + template.len() as u64) % (genome_len as u64)) as usize;
    proof {
        vstd::arithmetic::div_mod::lemma_mod_bound(
            (organism.cpu.ip + template@.len()) as int,
            genome_len as int,
        );
    }
    organism.cpu.ip = moved;
    if !matches_label {
        organism.cpu.skip_next = true;
    }
}

/// Interpret IO: output BX, credit a newly detected task at most once per
/// lifetime (multiplying merit, capped), then move the next input -- the
/// front of the input FIFO, or a fresh 32-bit draw -- into BX and record
/// it with the detector.
fn exec_io(
    organism: &mut Organism,
    task_detector: &mut TaskDetector,
    rng: &mut rand::rngs::SmallRng,
) -> (credited: Option<Task>)
    requires
        old(organism).wf(),
    ensures
        *final(organism) == (Organism {
            cpu: final(organism).cpu,
            merit: final(organism).merit,
            tasks_completed: final(organism).tasks_completed,
            ..*old(organism)
        }),
        final(organism).cpu == (CPU {
            registers: final(organism).cpu.registers,
            input_buffer: final(organism).cpu.input_buffer,
            output_buffer: final(organism).cpu.output_buffer,
            ..old(organism).cpu
        }),
        1 <= final(organism).merit <= MERIT_CAP,
        final(organism).merit >= old(organism).merit,
        final(organism).tasks_completed < 512,
        credited is None ==> final(organism).tasks_completed == old(organism).tasks_completed
            && final(organism).merit == old(organism).merit,
        credited matches Some(t) ==> ({
            &&& spec_detect(old(task_detector).inputs@, old(organism).cpu.registers@[1]) == Some(t)
            &&& !spec_has_task(old(organism).tasks_completed, spec_task_index(t))
            &&& spec_has_task(final(organism).tasks_completed, spec_task_index(t))
            &&& final(organism).tasks_completed == (old(organism).tasks_completed | (1u16 << (
            spec_task_index(t) as u16)))
            &&& final(organism).merit as int == vstd::math::min(
                old(organism).merit as int * spec_merit_multiplier(t) as int,
                MERIT_CAP as int,
            )
        }),
        ({
            let bx = final(organism).cpu.registers@[1];
            &&& final(organism).cpu.output_buffer@ =~= old(organism).cpu.output_buffer@.push(
                old(organism).cpu.registers@[1],
            )
            &&& final(organism).cpu.registers@ =~= old(organism).cpu.registers@.update(1, bx)
            &&& (old(organism).cpu.input_buffer@.len() > 0 ==> bx == old(organism).cpu.input_buffer@[0] && final(organism).cpu.input_buffer@ =~= old(organism).cpu.input_buffer@.drop_first())
            &&& (old(organism).cpu.input_buffer@.len() == 0 ==> final(organism).cpu.input_buffer@
                =~= old(organism).cpu.input_buffer@)
            &&& final(task_detector).inputs@ =~= crate::tasks::spec_record_input(
                old(task_detector).inputs@,
                bx,
            )
        }),
{
    let mut credited: Option<Task> = None;
    let output = organism.cpu.registers[1];
    organism.cpu.output_buffer.push(output);
    match task_detector.check_output(output) {
        Some((task, _inputs)) => {
            let idx = task.index();
            if !organism.has_completed_task(idx) {
                organism.complete_task(idx);
                let mult = task.merit_multiplier();
                proof {
                    assert(organism.merit <= MERIT_CAP && mult <= 16);
                }
                let grown = organism.merit * mult;
                proof {
                    vstd::arithmetic::mul::lemma_mul_inequality(
                        1,
                        mult as int,
                        organism.merit as int,
                    );
                }
                organism.merit = if grown > MERIT_CAP {
                    MERIT_CAP
                } else {
                    grown
                };
                credited = Some(task);
            }
        },
        None => {},
    }
    if organism.cpu.input_buffer.len() > 0 {
        let input = organism.cpu.input_buffer.remove(0);
        organism.cpu.set_register(1, input);
        task_detector.add_input(input);
    } else {
        let raw = rng_below(rng, 0x1_0000_0000u64);
        let input = u32_to_i32_bits(raw as u32);
        organism.cpu.set_register(1, input);
        task_detector.add_input(input);
    }
    credited
}

/// Interpret h-search: on a hit BX takes the smallest matching distance,
/// CX the template size, and the flow-head the end of the match; on a
/// miss BX and CX are zeroed and the flow-head lands just after the
/// template.
fn exec_h_search(organism: &mut Organism)
    requires
        old(organism).wf(),
    ensures
        *final(organism) == (Organism { cpu: final(organism).cpu, ..*old(organism) }),
        final(organism).cpu == (CPU {
            registers: final(organism).cpu.registers,
            flow_head: final(organism).cpu.flow_head,
            ..old(organism).cpu
        }),
        final(organism).cpu.flow_head < old(organism).genome@.len(),
        ({
            let g = old(organism).genome@;
            let len = g.len() as int;
            let ip = old(organism).cpu.ip as int;
            let regs = old(organism).cpu.registers@;
            let tmpl = crate::cpu::spec_read_template(g, (ip + 1) % len);
            let found = crate::cpu::spec_search_found(g, ip);
            &&& (!found ==> final(organism).cpu.registers@ =~= regs.update(1, 0i32).update(2, 0i32)
                && final(organism).cpu.flow_head as int == (ip + 1 + tmpl.len()) % len)
            &&& (found ==> ({
                let d = final(organism).cpu.registers@[1] as int;
                &&& 1 <= d < len
                &&& crate::cpu::spec_search_hit(g, ip, tmpl, d)
                &&& (forall|d2: int|
                    1 <= d2 < d ==> !#[trigger] crate::cpu::spec_search_hit(g, ip, tmpl, d2))
                &&& final(organism).cpu.registers@ =~= regs.update(
                    1,
                    final(organism).cpu.registers@[1],
                ).update(2, final(organism).cpu.registers@[2])
                &&& final(organism).cpu.registers@[2] as int == vstd::math::min(
                    tmpl.len() as int,
                    i32::MAX as int,
                )
                &&& final(organism).cpu.flow_head as int == ((ip + tmpl.len() + d) % len
                    + tmpl.len()) % len
            }))
        }),
{
    let genome_len = organism.genome.len();
    let template_start = organism.cpu.advance_head(organism.cpu.ip, genome_len);
    let template = organism.cpu.read_template(&organism.genome, template_start);
    let tlen = template.len();
    match organism.cpu.search_template(&organism.genome, organism.cpu.ip) {
        Some((distance, size)) => {
            organism.cpu.set_register(1, distance);
            let clipped = i32_of_len(size);
            organism.cpu.set_register(2, clipped);
            let target = ((organism.cpu.ip as u64 + tlen as u64 + distance as u64) % (genome_len
                as u64)) as usize;
            let flow = ((target as u64 + size as u64) % (genome_len as u64)) as usize;
            proof {
                vstd::arithmetic::div_mod::lemma_mod_bound((target + size) as int, genome_len as int);
            }
            organism.cpu.flow_head = flow;
        },
        None => {
            organism.cpu.set_register(1, 0);
            organism.cpu.set_register(2, 0);
            let flow = ((organism.cpu.ip as u64 + 1 + tlen as u64) % (genome_len as u64)) as usize;
            proof {
                vstd::arithmetic::div_mod::lemma_mod_bound(
                    (organism.cpu.ip + 1 + tlen) as int,
                    genome_len as int,
                );
            }
            organism.cpu.flow_head = flow;
        },
    }
}

/// Interpret mov-head: move the selected head to the flow-head; the IP
/// targets the position before it, so that the post-instruction advance
/// lands exactly on the flow-head.
fn exec_mov_head(organism: &mut Organism)
    requires
        old(organism).wf(),
    ensures
        *final(organism) == (Organism { cpu: final(organism).cpu, ..*old(organism) }),
        final(organism).cpu == (CPU {
            ip: final(organism).cpu.ip,
            read_head: final(organism).cpu.read_head,
            write_head: final(organism).cpu.write_head,
            ..old(organism).cpu
        }),
        final(organism).cpu.ip < old(organism).genome@.len(),
        final(organism).cpu.read_head < old(organism).genome@.len(),
        ({
            let head = old(organism).cpu.spec_head_choice(old(organism).genome@);
            let len = old(organism).genome@.len() as int;
            let flow = old(organism).cpu.flow_head;
            &&& (head == HeadType::InstructionPointer ==> final(organism).cpu.ip as int == (flow
                + len - 1) % len && (final(organism).cpu.ip + 1) % len == flow)
            &&& (head != HeadType::InstructionPointer ==> final(organism).cpu.ip
                == old(organism).cpu.ip)
            &&& (head == HeadType::ReadHead ==> final(organism).cpu.read_head == flow)
            &&& (head != HeadType::ReadHead ==> final(organism).cpu.read_head == old(organism).cpu.read_head)
            &&& (head == HeadType::WriteHead ==> final(organism).cpu.write_head == flow)
            &&& (head != HeadType::WriteHead ==> final(organism).cpu.write_head == old(organism).cpu.write_head)
        }),
{
    let genome_len = organism.genome.len();
    let head_type = organism.cpu.get_head_from_nop(&organism.genome);
    let flow = organism.cpu.flow_head;
    let target = if matches!(head_type, HeadType::InstructionPointer) {
        let t = ((flow as u64 + genome_len as u64 - 1) % (genome_len as u64)) as usize;
        proof {
            let li = genome_len as int;
            vstd::arithmetic::div_mod::lemma_mod_bound((flow + genome_len - 1) as int, li);
            if genome_len > 1 {
                vstd::arithmetic::div_mod::lemma_add_mod_noop(
                    (flow + genome_len - 1) as int,
                    1int,
                    li,
                );
                vstd::arithmetic::div_mod::lemma_small_mod(1nat, li as nat);
                vstd::arithmetic::div_mod::lemma_mod_add_multiples_vanish(flow as int, li);
                vstd::arithmetic::div_mod::lemma_small_mod(flow as nat, li as nat);
                vstd::arithmetic::div_mod::lemma_small_mod(t as nat, li as nat);
                assert(((t + 1) as int) % li == ((flow + genome_len) as int) % li);
                assert(((flow + genome_len) as int) % li == flow as int);
            } else {
                vstd::arithmetic::div_mod::lemma_mod_bound((t + 1) as int, li);
            }
        }
        t
    } else {
        flow
    };
    organism.cpu.set_head(head_type, target);
}

/// Interpret jmp-head: displace the selected head by CX, modulo the
/// genome length.
fn exec_jmp_head(organism: &mut Organism)
    requires
        old(organism).wf(),
    ensures
        *final(organism) == (Organism { cpu: final(organism).cpu, ..*old(organism) }),
        final(organism).cpu == (CPU {
            ip: final(organism).cpu.ip,
            read_head: final(organism).cpu.read_head,
            write_head: final(organism).cpu.write_head,
            ..old(organism).cpu
        }),
        final(organism).cpu.ip < old(organism).genome@.len(),
        final(organism).cpu.read_head < old(organism).genome@.len(),
        ({
            let head = old(organism).cpu.spec_head_choice(old(organism).genome@);
            let len = old(organism).genome@.len() as int;
            let cx = old(organism).cpu.registers@[2];
            &&& final(organism).cpu.spec_get_head(head) as int == (old(organism).cpu.spec_get_head(head) + cx) % len
            &&& (head != HeadType::InstructionPointer ==> final(organism).cpu.ip == old(organism).cpu.ip)
            &&& (head != HeadType::ReadHead ==> final(organism).cpu.read_head == old(organism).cpu.read_head)
            &&& (head != HeadType::WriteHead ==> final(organism).cpu.write_head == old(organism).cpu.write_head)
        }),
{
    let genome_len = organism.genome.len();
    let offset = organism.cpu.registers[2];
    let head_type = organism.cpu.get_head_from_nop(&organism.genome);
    let current = organism.cpu.get_head(head_type);
    let reduced = current % genome_len;
    proof {
        let li = genome_len as int;
        vstd::arithmetic::div_mod::lemma_mod_bound(current as int, li);
        vstd::arithmetic::div_mod::lemma_add_mod_noop(current as int, offset as int, li);
        vstd::arithmetic::div_mod::lemma_add_mod_noop((current as int) % li, offset as int, li);
        vstd::arithmetic::div_mod::lemma_mod_twice(current as int, li);
    }
    let moved = organism.cpu.move_head(reduced, offset, genome_len);
    organism.cpu.set_head(head_type, moved);
}

/// Execute one instruction of an organism, in five steps: consume a
/// pending skip, or interpret the opcode under the IP (drawing from the
/// RNG for IO inputs and copy mutations, and running task detection on
/// IO), then advance the IP and count the cycle.
///
/// Returns whether the organism requested a division (h-divide with a
/// child allocated), and the task credited by this instruction, if any.
///
/// Well-formedness is preserved; the genome itself, the generation,
/// offspring count, gestation estimate and position never change; exactly
/// one cycle is counted. Merit and the task mask change exactly when a
/// task is credited: the task's bit was clear and is now set, the detector
/// matched it on the organism's output, and merit is multiplied by the
/// task's factor and capped. The child genome is touched only by h-alloc
/// and h-copy, and the detector's history only by IO.
#[verifier::rlimit(100)]
pub fn execute_instruction(
    organism: &mut Organism,
    task_detector: &mut TaskDetector,
    rng: &mut rand::rngs::SmallRng,
    copy_mutation_rate_ppm: u32,
) -> (r: (bool, Option<Task>))
    requires
        old(organism).wf(),
    ensures
        final(organism).wf(),
        final(organism).genome == old(organism).genome,
        final(organism).generation == old(organism).generation,
        final(organism).offspring_count == old(organism).offspring_count,
        final(organism).gestation_time == old(organism).gestation_time,
        final(organism).position == old(organism).position,
        final(organism).instruction_count == sat_inc_u64(old(organism).instruction_count),
        final(organism).gestation_cycles == sat_inc_u64(old(organism).gestation_cycles),
        old(organism).cpu.skip_next ==> ({
            &&& r == (false, None::<Task>)
            &&& *final(organism) == (Organism {
                cpu: final(organism).cpu,
                instruction_count: final(organism).instruction_count,
                gestation_cycles: final(organism).gestation_cycles,
                ..*old(organism)
            })
            &&& final(organism).cpu == (CPU {
                ip: final(organism).cpu.ip,
                skip_next: false,
                ..old(organism).cpu
            })
            &&& final(organism).cpu.ip as int == (old(organism).cpu.ip + 1) % (old(organism).genome@.len() as int)
        }),
        r.0 == (!old(organism).cpu.skip_next && old(organism).genome@[old(organism).cpu.ip as int]
            == Instruction::HDivide && old(organism).child_genome is Some),
        r.1 is None ==> final(organism).tasks_completed == old(organism).tasks_completed && final(organism).merit == old(organism).merit,
        r.1 matches Some(t) ==> ({
            &&& !old(organism).cpu.skip_next
            &&& old(organism).genome@[old(organism).cpu.ip as int] == Instruction::IO
            &&& spec_detect(
                old(task_detector).inputs@,
                old(organism).cpu.registers@[1],
            ) == Some(t)
            &&& !spec_has_task(old(organism).tasks_completed, spec_task_index(t))
            &&& spec_has_task(final(organism).tasks_completed, spec_task_index(t))
            &&& final(organism).tasks_completed == (old(organism).tasks_completed | (1u16 << (
            spec_task_index(t) as u16)))
            &&& final(organism).merit as int == vstd::math::min(
                old(organism).merit as int * spec_merit_multiplier(t) as int,
                MERIT_CAP as int,
            )
        }),
        final(organism).merit >= old(organism).merit,
        (old(organism).cpu.skip_next || old(organism).genome@[old(organism).cpu.ip as int]
            != Instruction::IO) ==> *final(task_detector) == *old(task_detector),
        (old(organism).cpu.skip_next || (old(organism).genome@[old(organism).cpu.ip as int]
            != Instruction::HAlloc && old(organism).genome@[old(organism).cpu.ip as int]
            != Instruction::HCopy)) ==> final(organism).child_genome == old(organism).child_genome,
        final(organism).cpu.skip_next ==> !old(organism).cpu.skip_next && (old(organism).genome@[old(organism).cpu.ip as int] == Instruction::IfNEqu || old(organism).genome@[old(organism).cpu.ip as int] == Instruction::IfLess || old(organism).genome@[old(organism).cpu.ip as int] == Instruction::IfLabel),
        !old(organism).cpu.skip_next ==> ({
            let o = *old(organism);
            let g = o.genome@;
            let len = g.len() as int;
            let ip = o.cpu.ip as int;
            let inst = g[ip];
            let regs = o.cpu.registers@;
            let sel1 = o.cpu.spec_register_choice(g, 1) as int;
            let sel2 = o.cpu.spec_register_choice(g, 2) as int;
            let head = o.cpu.spec_head_choice(g);
            let tmpl = crate::cpu::spec_read_template(g, (ip + 1) % len);
            &&& (inst != Instruction::IfLabel && !(inst == Instruction::MovHead && head
                == HeadType::InstructionPointer) && !(inst == Instruction::JmpHead && head
                == HeadType::InstructionPointer) ==> final(organism).cpu.ip as int == (ip + 1)
                % len)
            &&& (inst == Instruction::IfNEqu ==> final(organism).cpu.skip_next == (regs[1] as int
                == vstd::math::min(tmpl.len() as int, i32::MAX as int)))
            &&& (inst == Instruction::IfLess ==> final(organism).cpu.skip_next == (regs[1]
                >= regs[sel2]))
            &&& (inst == Instruction::IfLabel ==> ({
                &&& final(organism).cpu.skip_next == !spec_label_ends_with(
                    o.cpu.last_copied_label@,
                    crate::cpu::spec_complement_seq(tmpl),
                )
                &&& final(organism).cpu.ip as int == ((ip + tmpl.len()) % len + 1) % len
            }))
            &&& (inst == Instruction::Pop ==> ({
                let stk = o.cpu.spec_active_stack();
                &&& (stk.len() == 0 ==> final(organism).cpu.registers@ =~= regs.update(sel1, 0i32)
                    && final(organism).cpu.spec_active_stack() =~= stk)
                &&& (stk.len() > 0 ==> final(organism).cpu.registers@ =~= regs.update(
                    sel1,
                    stk.last(),
                ) && final(organism).cpu.spec_active_stack() =~= stk.drop_last())
            }))
            &&& (inst == Instruction::Push ==> ({
                let stk = o.cpu.spec_active_stack();
                &&& (stk.len() < crate::cpu::STACK_MAX_DEPTH ==> final(organism).cpu.spec_active_stack() =~= stk.push(regs[sel1]))
                &&& (stk.len() >= crate::cpu::STACK_MAX_DEPTH ==> final(organism).cpu.spec_active_stack() =~= stk)
            }))
            &&& (inst == Instruction::SwapStk ==> final(organism).cpu.active_stack
                == !o.cpu.active_stack)
            &&& (inst == Instruction::Swap ==> final(organism).cpu.registers@ =~= regs.update(
                sel2,
                regs[1],
            ).update(1, regs[sel2]))
            &&& (inst == Instruction::ShiftR ==> final(organism).cpu.registers@ =~= regs.update(
                sel1,
                vstd::wrapping::i32_specs::wrapping_shr(regs[sel1], 1),
            ))
            &&& (inst == Instruction::ShiftL ==> final(organism).cpu.registers@ =~= regs.update(
                sel1,
                vstd::wrapping::i32_specs::wrapping_shl(regs[sel1], 1),
            ))
            &&& (inst == Instruction::Inc ==> final(organism).cpu.registers@ =~= regs.update(
                sel1,
                vstd::wrapping::i32_specs::wrapping_add(regs[sel1], 1),
            ))
            &&& (inst == Instruction::Dec ==> final(organism).cpu.registers@ =~= regs.update(
                sel1,
                vstd::wrapping::i32_specs::wrapping_sub(regs[sel1], 1),
            ))
            &&& (inst == Instruction::Add ==> final(organism).cpu.registers@ =~= regs.update(
                1,
                vstd::wrapping::i32_specs::wrapping_add(regs[1], regs[2]),
            ))
            &&& (inst == Instruction::Sub ==> final(organism).cpu.registers@ =~= regs.update(
                1,
                vstd::wrapping::i32_specs::wrapping_sub(regs[1], regs[2]),
            ))
            &&& (inst == Instruction::Nand ==> final(organism).cpu.registers@ =~= regs.update(
                1,
                !(regs[1] & regs[2]),
            ))
            &&& (inst == Instruction::IO ==> ({
                let bx = final(organism).cpu.registers@[1];
                &&& final(organism).cpu.output_buffer@ =~= o.cpu.output_buffer@.push(regs[1])
                &&& final(organism).cpu.registers@ =~= regs.update(1, bx)
                &&& (o.cpu.input_buffer@.len() > 0 ==> bx == o.cpu.input_buffer@[0] && final(organism).cpu.input_buffer@ =~= o.cpu.input_buffer@.drop_first())
                &&& (o.cpu.input_buffer@.len() == 0 ==> final(organism).cpu.input_buffer@
                    =~= o.cpu.input_buffer@)
                &&& final(task_detector).inputs@ =~= crate::tasks::spec_record_input(
                    old(task_detector).inputs@,
                    bx,
                )
            }))
            &&& (inst == Instruction::HAlloc && o.child_genome is None ==> ({
                &&& final(organism).child_genome matches Some(c) && c@ == Seq::new(
                    g.len(),
                    |i: int| Instruction::NopA,
                )
                &&& final(organism).cpu.registers@ =~= regs.update(0, g.len() as i32)
                &&& final(organism).cpu.read_head == 0
                &&& final(organism).cpu.write_head == 0
                &&& final(organism).cpu.last_copied_label@ =~= Seq::<Instruction>::empty()
                &&& final(organism).child_copy_progress == 0
            }))
            &&& (inst == Instruction::HAlloc && o.child_genome is Some ==> final(organism).child_genome == o.child_genome && final(organism).cpu == (CPU {
                ip: final(organism).cpu.ip,
                ..o.cpu
            }))
            &&& (inst == Instruction::HCopy && o.child_genome is Some ==> ({
                let c = o.child_genome.unwrap();
                let wh = o.cpu.write_head;
                &&& final(organism).child_genome matches Some(c2) && c2@.len() == c@.len()
                &&& (copy_mutation_rate_ppm == 0 ==> final(organism).child_genome.unwrap()@ == (if wh < c@.len() {
                    c@.update(wh as int, g[o.cpu.read_head as int])
                } else {
                    c@
                }))
                &&& final(organism).cpu.read_head as int == (o.cpu.read_head + 1) % len
                &&& final(organism).cpu.write_head == crate::organism::sat_inc_usize(wh)
                &&& final(organism).child_copy_progress == (if crate::organism::sat_inc_usize(wh)
                    > o.child_copy_progress {
                    crate::organism::sat_inc_usize(wh)
                } else {
                    o.child_copy_progress
                })
            }))
            &&& (inst == Instruction::HSearch ==> ({
                let found = crate::cpu::spec_search_found(g, ip);
                &&& (!found ==> final(organism).cpu.registers@ =~= regs.update(1, 0i32).update(
                    2,
                    0i32,
                ) && final(organism).cpu.flow_head as int == (ip + 1 + tmpl.len()) % len)
                &&& (found ==> ({
                    let d = final(organism).cpu.registers@[1] as int;
                    &&& 1 <= d < len
                    &&& crate::cpu::spec_search_hit(g, ip, tmpl, d)
                    &&& (forall|d2: int|
                        1 <= d2 < d ==> !#[trigger] crate::cpu::spec_search_hit(g, ip, tmpl, d2))
                    &&& final(organism).cpu.registers@ =~= regs.update(
                        1,
                        final(organism).cpu.registers@[1],
                    ).update(2, final(organism).cpu.registers@[2])
                    &&& final(organism).cpu.registers@[2] as int == vstd::math::min(
                        tmpl.len() as int,
                        i32::MAX as int,
                    )
                    &&& final(organism).cpu.flow_head as int == ((ip + tmpl.len() + d) % len
                        + tmpl.len()) % len
                }))
            }))
            &&& (inst == Instruction::MovHead ==> ({
                &&& (head == HeadType::InstructionPointer ==> final(organism).cpu.ip
                    == o.cpu.flow_head)
                &&& (head == HeadType::ReadHead ==> final(organism).cpu.read_head
                    == o.cpu.flow_head)
                &&& (head == HeadType::WriteHead ==> final(organism).cpu.write_head
                    == o.cpu.flow_head)
            }))
            &&& (inst == Instruction::JmpHead && head != HeadType::InstructionPointer ==> final(organism).cpu.spec_get_head(head) as int == (o.cpu.spec_get_head(head) + regs[2]) % len)
            &&& (inst == Instruction::GetHead ==> final(organism).cpu.registers@ =~= regs.update(
                2,
                (vstd::math::min(o.cpu.spec_get_head(head) as int, i32::MAX as int)) as i32,
            ))
            &&& (inst == Instruction::SetFlow ==> final(organism).cpu.flow_head as int == (
            regs[2] as int) % len)
            &&& (inst == Instruction::JmpHead && head == HeadType::InstructionPointer ==> final(organism).cpu.ip as int == ((o.cpu.ip + regs[2]) % len + 1) % len)
            // Frame conditions: each opcode touches nothing beyond the
            // fields its clauses above speak of (and the advanced IP).
            &&& (inst == Instruction::NopA || inst == Instruction::NopB || inst
                == Instruction::NopC || inst == Instruction::HDivide ==> final(organism).cpu == (CPU {
                ip: final(organism).cpu.ip,
                ..o.cpu
            }))
            &&& (inst == Instruction::IfNEqu || inst == Instruction::IfLess || inst
                == Instruction::IfLabel ==> final(organism).cpu == (CPU {
                ip: final(organism).cpu.ip,
                skip_next: final(organism).cpu.skip_next,
                ..o.cpu
            }))
            &&& (inst == Instruction::Swap || inst == Instruction::ShiftR || inst
                == Instruction::ShiftL || inst == Instruction::Inc || inst == Instruction::Dec
                || inst == Instruction::Add || inst == Instruction::Sub || inst
                == Instruction::Nand || inst == Instruction::GetHead ==> final(organism).cpu == (CPU {
                ip: final(organism).cpu.ip,
                registers: final(organism).cpu.registers,
                ..o.cpu
            }))
            &&& (inst == Instruction::Pop ==> final(organism).cpu == (CPU {
                ip: final(organism).cpu.ip,
                registers: final(organism).cpu.registers,
                stack1: final(organism).cpu.stack1,
                stack2: final(organism).cpu.stack2,
                ..o.cpu
            }) && final(organism).cpu.spec_inactive_stack() =~= o.cpu.spec_inactive_stack())
            &&& (inst == Instruction::Push ==> final(organism).cpu == (CPU {
                ip: final(organism).cpu.ip,
                stack1: final(organism).cpu.stack1,
                stack2: final(organism).cpu.stack2,
                ..o.cpu
            }) && final(organism).cpu.spec_inactive_stack() =~= o.cpu.spec_inactive_stack())
            &&& (inst == Instruction::SwapStk ==> final(organism).cpu == (CPU {
                ip: final(organism).cpu.ip,
                active_stack: final(organism).cpu.active_stack,
                ..o.cpu
            }))
            &&& (inst == Instruction::IO ==> final(organism).cpu == (CPU {
                ip: final(organism).cpu.ip,
                registers: final(organism).cpu.registers,
                input_buffer: final(organism).cpu.input_buffer,
                output_buffer: final(organism).cpu.output_buffer,
                ..o.cpu
            }))
            &&& (inst == Instruction::HSearch ==> final(organism).cpu == (CPU {
                ip: final(organism).cpu.ip,
                registers: final(organism).cpu.registers,
                flow_head: final(organism).cpu.flow_head,
                ..o.cpu
            }))
            &&& (inst == Instruction::MovHead || inst == Instruction::JmpHead ==> ({
                &&& final(organism).cpu == (CPU {
                    ip: final(organism).cpu.ip,
                    read_head: final(organism).cpu.read_head,
                    write_head: final(organism).cpu.write_head,
                    ..o.cpu
                })
                &&& (head != HeadType::ReadHead ==> final(organism).cpu.read_head
                    == o.cpu.read_head)
                &&& (head != HeadType::WriteHead ==> final(organism).cpu.write_head
                    == o.cpu.write_head)
            }))
            &&& (inst == Instruction::SetFlow ==> final(organism).cpu == (CPU {
                ip: final(organism).cpu.ip,
                flow_head: final(organism).cpu.flow_head,
                ..o.cpu
            }))
            &&& (inst == Instruction::HAlloc ==> final(organism).cpu == (CPU {
                ip: final(organism).cpu.ip,
                registers: final(organism).cpu.registers,
                read_head: final(organism).cpu.read_head,
                write_head: final(organism).cpu.write_head,
                last_copied_label: final(organism).cpu.last_copied_label,
                ..o.cpu
            }))
            &&& (inst == Instruction::HCopy ==> final(organism).cpu == (CPU {
                ip: final(organism).cpu.ip,
                read_head: final(organism).cpu.read_head,
                write_head: final(organism).cpu.write_head,
                last_copied_label: final(organism).cpu.last_copied_label,
                ..o.cpu
            }))
            &&& (inst == Instruction::HCopy && o.child_genome is None ==> final(organism).cpu == (CPU {
                ip: final(organism).cpu.ip,
                ..o.cpu
            }))
            &&& (inst != Instruction::HAlloc && inst != Instruction::HCopy ==> final(organism).child_copy_progress == o.child_copy_progress)
        }),
{
    let mut should_divide = false;
    let mut completed_task: Option<Task> = None;

    if organism.cpu.skip_next {
        organism.cpu.skip_next = false;
        organism.advance_ip();
        count_cycle(organism);
        return (false, None);
    }

    let genome_len = organism.genome.len();
    let inst = organism.genome[organism.cpu.ip];

    match inst {
        Instruction::NopA | Instruction::NopB | Instruction::NopC => {},
        Instruction::IfNEqu => {
            exec_if_n_equ(organism);
        },
        Instruction::IfLess => {
            // Skip the next instruction unless BX is below the selected
            // register (CX by default).
            let reg2 = organism.cpu.get_register_index(&organism.genome, 2);
            let val1 = organism.cpu.registers[1];
            let val2 = organism.cpu.registers[reg2];
            if val1 >= val2 {
                organism.cpu.skip_next = true;
            }
        },
        Instruction::IfLabel => {
            exec_if_label(organism);
        },
        Instruction::Pop => {
            let value = organism.cpu.pop();
            let reg = organism.cpu.get_register_index(&organism.genome, 1);
            organism.cpu.set_register(reg, value);
        },
        Instruction::Push => {
            let reg = organism.cpu.get_register_index(&organism.genome, 1);
            let value = organism.cpu.registers[reg];
            organism.cpu.push(value);
        },
        Instruction::SwapStk => {
            organism.cpu.active_stack = !organism.cpu.active_stack;
        },
        Instruction::Swap => {
            let reg2 = organism.cpu.get_register_index(&organism.genome, 2);
            let v1 = organism.cpu.registers[1];
            let v2 = organism.cpu.registers[reg2];
            organism.cpu.set_register(reg2, v1);
            organism.cpu.set_register(1, v2);
        },
        Instruction::ShiftR => {
            let reg = organism.cpu.get_register_index(&organism.genome, 1);
            let shifted = organism.cpu.registers[reg].wrapping_shr(1);
            organism.cpu.set_register(reg, shifted);
        },
        Instruction::ShiftL => {
            let reg = organism.cpu.get_register_index(&organism.genome, 1);
            let shifted = organism.cpu.registers[reg].wrapping_shl(1);
            organism.cpu.set_register(reg, shifted);
        },
        Instruction::Inc => {
            let reg = organism.cpu.get_register_index(&organism.genome, 1);
            let bumped = organism.cpu.registers[reg].wrapping_add(1);
            organism.cpu.set_register(reg, bumped);
        },
        Instruction::Dec => {
            let reg = organism.cpu.get_register_index(&organism.genome, 1);
            let bumped = organism.cpu.registers[reg].wrapping_sub(1);
            organism.cpu.set_register(reg, bumped);
        },
        Instruction::Add => {
            let result = organism.cpu.registers[1].wrapping_add(organism.cpu.registers[2]);
            organism.cpu.set_register(1, result);
        },
        Instruction::Sub => {
            let result = organism.cpu.registers[1].wrapping_sub(organism.cpu.registers[2]);
            organism.cpu.set_register(1, result);
        },
        Instruction::Nand => {
            let result = !(organism.cpu.registers[1] & organism.cpu.registers[2]);
            organism.cpu.set_register(1, result);
        },
        Instruction::IO => {
            completed_task = exec_io(organism, task_detector, rng);
        },
        Instruction::HAlloc => {
            organism.allocate_child();
        },
        Instruction::HDivide => {
            // Only a signal: the scheduler performs the division itself,
            // gating on copy progress. Without an allocated child this is
            // a fault and a no-op.
            if organism.child_genome.is_some() {
                should_divide = true;
            }
        },
        Instruction::HCopy => {
            let _copied = organism.copy_instruction(rng, copy_mutation_rate_ppm);
        },
        Instruction::HSearch => {
            exec_h_search(organism);
        },
        Instruction::MovHead => {
            exec_mov_head(organism);
        },
        Instruction::JmpHead => {
            exec_jmp_head(organism);
        },
        Instruction::GetHead => {
            let head_type = organism.cpu.get_head_from_nop(&organism.genome);
            let position = organism.cpu.get_head(head_type);
            let clipped = i32_of_len(position);
            organism.cpu.set_register(2, clipped);
        },
        Instruction::SetFlow => {
            // Set the flow-head to CX modulo the genome length.
            let position = organism.cpu.move_head(0, organism.cpu.registers[2], genome_len);
            organism.cpu.flow_head = position;
        },
    }

    organism.advance_ip();
    count_cycle(organism);
    (should_divide, completed_task)
}

/// Count one executed cycle on both lifetime counters, saturating.
fn count_cycle(organism: &mut Organism)
    ensures
        *final(organism) == (Organism {
            instruction_count: final(organism).instruction_count,
            gestation_cycles: final(organism).gestation_cycles,
            ..*old(organism)
        }),
        final(organism).instruction_count == sat_inc_u64(old(organism).instruction_count),
        final(organism).gestation_cycles == sat_inc_u64(old(organism).gestation_cycles),
{
    if organism.instruction_count != u64::MAX {
        organism.instruction_count = organism.instruction_count + 1;
    }
    if organism.gestation_cycles != u64::MAX {
        organism.gestation_cycles = organism.gestation_cycles + 1;
    }
}

/// A length-like value squeezed into an `i32` register, saturating at the
/// register's maximum.
fn i32_of_len(n: usize) -> (r: i32)
    ensures
        r as int == vstd::math::min(n as int, i32::MAX as int),
{
    if n <= 0x7fff_fffe {
        n as i32
    } else {
        0x7fff_ffff
    }
}

} // verus!
