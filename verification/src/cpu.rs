//! The virtual CPU: registers, two bounded stacks, four heads into the
//! circular genome, I/O buffers, the copied-label trace, and the helpers for
//! head arithmetic, template reading and template search.

use vstd::prelude::*;
use vstd::arithmetic::div_mod::{
    lemma_mod_add_multiples_vanish, lemma_mod_bound, lemma_mod_equivalence, lemma_mod_self_0,
    lemma_small_mod,
};
use crate::instruction::{complement_of, Instruction};

verus! {

/// Upper bound on the depth of each of the two data stacks.
pub const STACK_MAX_DEPTH: usize = 10;

/// Upper bound on genome length: head positions must fit in an `i32`
/// register, so genomes longer than `i32::MAX` are never constructed.
pub const MAX_GENOME_LEN: usize = 0x7fff_ffff;

/// Selector for one of the four heads into the genome.
#[derive(Debug, Clone, Copy, PartialEq, Eq, Structural)]
pub enum HeadType {
    InstructionPointer,
    ReadHead,
    WriteHead,
    FlowHead,
}

/// The template read from `pos`, with at most `remaining` more instructions
/// to take: the run of nops from `pos` onward, wrapping circularly.
pub open spec fn spec_read_template_rec(
    g: Seq<Instruction>,
    pos: int,
    remaining: nat,
) -> Seq<Instruction>
    recommends
        g.len() >= 1,
        0 <= pos < g.len(),
    decreases remaining,
{
    if remaining == 0 {
        Seq::<Instruction>::empty()
    } else if 0 <= pos < g.len() && g[pos].spec_is_nop() {
        seq![g[pos]] + spec_read_template_rec(g, (pos + 1) % (g.len() as int), (remaining - 1) as nat)
    } else {
        Seq::<Instruction>::empty()
    }
}

/// The template starting at `start`: nops are read greedily until a non-nop,
/// stopping once the template is longer than the genome.
pub open spec fn spec_read_template(g: Seq<Instruction>, start: int) -> Seq<Instruction> {
    spec_read_template_rec(g, start, (g.len() + 1) as nat)
}

/// Every instruction of a template is a nop.
pub proof fn lemma_read_template_nops(g: Seq<Instruction>, pos: int, remaining: nat)
    requires
        g.len() >= 1,
        0 <= pos < g.len(),
    ensures
        forall|i: int|
            0 <= i < spec_read_template_rec(g, pos, remaining).len()
                ==> (#[trigger] spec_read_template_rec(g, pos, remaining)[i]).spec_is_nop(),
    decreases remaining,
{
    if remaining > 0 && g[pos].spec_is_nop() {
        let next = (pos + 1) % (g.len() as int);
        lemma_mod_bound(pos + 1, g.len() as int);
        lemma_read_template_nops(g, next, (remaining - 1) as nat);
        let t = spec_read_template_rec(g, pos, remaining);
        let rest = spec_read_template_rec(g, next, (remaining - 1) as nat);
        assert forall|i: int| 0 <= i < t.len() implies (#[trigger] t[i]).spec_is_nop() by {
            if i == 0 {
                assert(t[0] == g[pos]);
            } else {
                assert(t[i] == rest[i - 1]);
            }
        }
    }
}

/// The element-wise cyclic complement of a template of nops.
pub open spec fn spec_complement_seq(t: Seq<Instruction>) -> Seq<Instruction> {
    t.map_values(|inst: Instruction| complement_of(inst).unwrap())
}

/// Whether the instructions of `g` starting at `pos` (wrapping circularly)
/// spell out `c`.
pub open spec fn template_matches_at(g: Seq<Instruction>, pos: int, c: Seq<Instruction>) -> bool
    recommends
        g.len() >= 1,
{
    forall|i: int| 0 <= i < c.len() ==> g[(pos + i) % (g.len() as int)] == #[trigger] c[i]
}

/// Whether a template search from the instruction at `start` hits at
/// distance `d`: the complement of `tmpl` appears `d` positions after the
/// end of the template.
pub open spec fn spec_search_hit(g: Seq<Instruction>, start: int, tmpl: Seq<Instruction>, d: int) -> bool
    recommends
        g.len() >= 1,
{
    template_matches_at(g, (start + tmpl.len() + d) % (g.len() as int), spec_complement_seq(tmpl))
}

/// Whether a search from the instruction at `start` can hit at all: the
/// template is nonempty and its complement occurs at some positive
/// distance within one wrap of the genome.
pub open spec fn spec_search_found(g: Seq<Instruction>, start: int) -> bool
    recommends
        g.len() >= 1,
{
    let tmpl = spec_read_template(g, (start + 1) % (g.len() as int));
    tmpl.len() > 0 && exists|d: int|
        1 <= d < g.len() && #[trigger] spec_search_hit(g, start, tmpl, d)
}

/// Virtual CPU state of one organism.
#[derive(Debug, Clone)]
pub struct CPU {
    /// Three 32-bit registers: AX (0), BX (1), CX (2); arithmetic wraps.
    pub registers: [i32; 3],
    /// First data stack, at most `STACK_MAX_DEPTH` deep.
    pub stack1: Vec<i32>,
    /// Second data stack, at most `STACK_MAX_DEPTH` deep.
    pub stack2: Vec<i32>,
    /// Which stack is active (false = stack1, true = stack2).
    pub active_stack: bool,
    /// Instruction pointer: current execution position.
    pub ip: usize,
    /// Read-head: position read from during copying.
    pub read_head: usize,
    /// Write-head: position written to in the child genome.
    pub write_head: usize,
    /// Flow-head: jump target marker.
    pub flow_head: usize,
    /// Input FIFO for the IO instruction.
    pub input_buffer: Vec<i32>,
    /// Everything the organism has output so far.
    pub output_buffer: Vec<i32>,
    /// The nops most recently written to the child, cleared by non-nops.
    pub last_copied_label: Vec<Instruction>,
    /// One-shot flag set by conditionals: skip the next instruction.
    pub skip_next: bool,
}

impl CPU {
    /// The state of a freshly constructed CPU: zero registers, empty
    /// stacks, heads at zero, three zero inputs queued, nothing output.
    pub open spec fn is_fresh(self) -> bool {
        &&& self.registers@ == seq![0i32, 0i32, 0i32]
        &&& self.stack1@ == Seq::<i32>::empty()
        &&& self.stack2@ == Seq::<i32>::empty()
        &&& self.active_stack == false
        &&& self.ip == 0
        &&& self.read_head == 0
        &&& self.write_head == 0
        &&& self.flow_head == 0
        &&& self.input_buffer@ == seq![0i32, 0i32, 0i32]
        &&& self.output_buffer@ == Seq::<i32>::empty()
        &&& self.last_copied_label@ == Seq::<Instruction>::empty()
        &&& self.skip_next == false
    }

    /// The currently active stack, as a sequence.
    pub open spec fn spec_active_stack(self) -> Seq<i32> {
        if self.active_stack {
            self.stack2@
        } else {
            self.stack1@
        }
    }

    /// The currently inactive stack, as a sequence.
    pub open spec fn spec_inactive_stack(self) -> Seq<i32> {
        if self.active_stack {
            self.stack1@
        } else {
            self.stack2@
        }
    }

    /// Everything except the two stacks agrees between `self` and `other`.
    pub open spec fn same_but_stacks(self, other: CPU) -> bool {
        &&& self.registers == other.registers
        &&& self.active_stack == other.active_stack
        &&& self.ip == other.ip
        &&& self.read_head == other.read_head
        &&& self.write_head == other.write_head
        &&& self.flow_head == other.flow_head
        &&& self.input_buffer == other.input_buffer
        &&& self.output_buffer == other.output_buffer
        &&& self.last_copied_label == other.last_copied_label
        &&& self.skip_next == other.skip_next
    }

    /// A fresh CPU: zero registers, empty stacks, all heads at zero, three
    /// zero inputs queued, nothing output yet.
    pub fn new() -> (r: Self)
        ensures
            r.registers@ == seq![0i32, 0i32, 0i32],
            r.stack1@ == Seq::<i32>::empty(),
            r.stack2@ == Seq::<i32>::empty(),
            r.active_stack == false,
            r.ip == 0,
            r.read_head == 0,
            r.write_head == 0,
            r.flow_head == 0,
            r.input_buffer@ == seq![0i32, 0i32, 0i32],
            r.output_buffer@ == Seq::<i32>::empty(),
            r.last_copied_label@ == Seq::<Instruction>::empty(),
            r.skip_next == false,
            r.is_fresh(),
    {
        let mut inputs: Vec<i32> = Vec::new();
        inputs.push(0);
        inputs.push(0);
        inputs.push(0);
        assert(inputs@ =~= seq![0i32, 0i32, 0i32]);
        let r = CPU {
            registers: [0, 0, 0],
            stack1: Vec::new(),
            stack2: Vec::new(),
            active_stack: false,
            ip: 0,
            read_head: 0,
            write_head: 0,
            flow_head: 0,
            input_buffer: inputs,
            output_buffer: Vec::new(),
            last_copied_label: Vec::new(),
            skip_next: false,
        };
        assert(r.registers@ =~= seq![0i32, 0i32, 0i32]);
        r
    }

    /// Shared reference to the active stack.
    pub fn active_stack_ref(&self) -> (r: &Vec<i32>)
        ensures
            r@ == self.spec_active_stack(),
    {
        if self.active_stack {
            &self.stack2
        } else {
            &self.stack1
        }
    }

    /// Push onto the active stack; a full stack drops the value.
    pub fn push(&mut self, value: i32)
        ensures
            final(self).same_but_stacks(*old(self)),
            final(self).spec_inactive_stack() == old(self).spec_inactive_stack(),
            old(self).spec_active_stack().len() < STACK_MAX_DEPTH ==> final(self).spec_active_stack()
                == old(self).spec_active_stack().push(value),
            old(self).spec_active_stack().len() >= STACK_MAX_DEPTH ==> final(self).spec_active_stack()
                == old(self).spec_active_stack(),
    {
        if self.active_stack {
            if self.stack2.len() < STACK_MAX_DEPTH {
                self.stack2.push(value);
            }
        } else {
            if self.stack1.len() < STACK_MAX_DEPTH {
                self.stack1.push(value);
            }
        }
    }

    /// Pop from the active stack; an empty stack yields 0.
    pub fn pop(&mut self) -> (r: i32)
        ensures
            final(self).same_but_stacks(*old(self)),
            final(self).spec_inactive_stack() == old(self).spec_inactive_stack(),
            old(self).spec_active_stack().len() == 0 ==> r == 0 && final(self).spec_active_stack()
                == old(self).spec_active_stack(),
            old(self).spec_active_stack().len() > 0 ==> r == old(self).spec_active_stack().last()
                && final(self).spec_active_stack() == old(self).spec_active_stack().drop_last(),
    {
        let popped: Option<i32> = if self.active_stack {
            self.stack2.pop()
        } else {
            self.stack1.pop()
        };
        match popped {
            Some(v) => v,
            None => 0,
        }
    }

    /// Advance a head one step forward, wrapping at the end of the genome.
    pub fn advance_head(&self, head: usize, genome_size: usize) -> (r: usize)
        requires
            1 <= genome_size,
            head < genome_size,
        ensures
            r < genome_size,
            r as int == (head + 1) % (genome_size as int),
            r == if head + 1 == genome_size {
                0usize
            } else {
                (head + 1) as usize
            },
    {
        proof {
            if head + 1 == genome_size {
                lemma_mod_self_0(genome_size as int);
            } else {
                lemma_small_mod((head + 1) as nat, genome_size as nat);
            }
        }
        (head + 1) % genome_size
    }

    /// Displace a head by a signed offset, wrapping in both directions.
    pub fn move_head(&self, head: usize, offset: i32, genome_size: usize) -> (r: usize)
        requires
            1 <= genome_size <= MAX_GENOME_LEN,
            head < genome_size,
        ensures
            r < genome_size,
            r as int == (head + offset) % (genome_size as int),
    {
        let g = genome_size as u64;
        let ghost gi = genome_size as int;
        // Reduce the offset to an equivalent displacement in [0, genome_size).
        let red: u64 = if offset >= 0 {
            let red = (offset as u64) % g;
            proof {
                lemma_mod_bound(offset as int, gi);
                lemma_small_mod(red as nat, g as nat);
                lemma_mod_equivalence(red as int, offset as int, gi);
            }
            red
        } else {
            let mag = (-(offset as i64)) as u64;
            let m = mag % g;
            let red: u64 = if m == 0 {
                0
            } else {
                g - m
            };
            proof {
                lemma_mod_bound(mag as int, gi);
                lemma_small_mod(m as nat, g as nat);
                lemma_mod_equivalence(mag as int, m as int, gi);
                if m != 0 {
                    lemma_mod_add_multiples_vanish(mag as int - m as int, gi);
                }
                lemma_mod_equivalence(red as int, offset as int, gi);
                lemma_small_mod(red as nat, g as nat);
            }
            red
        };
        proof {
            assert(red < g);
            assert(red as int % gi == offset as int % gi);
            lemma_mod_equivalence(
                head as int + red as int,
                head as int + offset as int,
                gi,
            );
            lemma_mod_equivalence(red as int, offset as int, gi);
            lemma_mod_bound((head + red) as int, gi);
        }
        (head + (red as usize)) % genome_size
    }

    /// Write one register (AX, BX or CX by index).
    pub fn set_register(&mut self, idx: usize, value: i32)
        requires
            idx < 3,
        ensures
            *final(self) == (CPU { registers: final(self).registers, ..*old(self) }),
            final(self).registers@ == old(self).registers@.update(idx as int, value),
    {
        self.registers[idx] = value;
    }

    /// Read the position of the selected head.
    pub fn get_head(&self, head_type: HeadType) -> (r: usize)
        ensures
            r == self.spec_get_head(head_type),
    {
        match head_type {
            HeadType::InstructionPointer => self.ip,
            HeadType::ReadHead => self.read_head,
            HeadType::WriteHead => self.write_head,
            HeadType::FlowHead => self.flow_head,
        }
    }

    /// The position of the selected head.
    pub open spec fn spec_get_head(self, head_type: HeadType) -> usize {
        match head_type {
            HeadType::InstructionPointer => self.ip,
            HeadType::ReadHead => self.read_head,
            HeadType::WriteHead => self.write_head,
            HeadType::FlowHead => self.flow_head,
        }
    }

    /// The CPU after moving the selected head to `position`.
    pub open spec fn spec_set_head(self, head_type: HeadType, position: usize) -> CPU {
        match head_type {
            HeadType::InstructionPointer => CPU { ip: position, ..self },
            HeadType::ReadHead => CPU { read_head: position, ..self },
            HeadType::WriteHead => CPU { write_head: position, ..self },
            HeadType::FlowHead => CPU { flow_head: position, ..self },
        }
    }

    /// Move the selected head to `position`.
    pub fn set_head(&mut self, head_type: HeadType, position: usize)
        ensures
            *final(self) == old(self).spec_set_head(head_type, position),
    {
        match head_type {
            HeadType::InstructionPointer => self.ip = position,
            HeadType::ReadHead => self.read_head = position,
            HeadType::WriteHead => self.write_head = position,
            HeadType::FlowHead => self.flow_head = position,
        }
    }

    /// The register selected by the nop that follows the instruction at the
    /// IP, or `default` when no nop follows.
    pub open spec fn spec_register_choice(
        self,
        genome: Seq<Instruction>,
        default: usize,
    ) -> usize {
        let next = (self.ip + 1) % (genome.len() as int);
        match crate::instruction::spec_nop_register_index(genome[next]) {
            Some(idx) => idx,
            None => default,
        }
    }

    /// Register selection: a nop directly after the current instruction
    /// picks the register; otherwise `default` applies.
    pub fn get_register_index(&self, genome: &Vec<Instruction>, default: usize) -> (r: usize)
        requires
            1 <= genome@.len(),
            self.ip < genome@.len(),
        ensures
            r == self.spec_register_choice(genome@, default),
            r <= 2 || r == default,
    {
        let next_pos = self.advance_head(self.ip, genome.len());
        match genome[next_pos].nop_register_index() {
            Some(idx) => idx,
            None => default,
        }
    }

    /// The head selected by the nop that follows the instruction at the IP:
    /// nop-A the IP, nop-B the read-head, nop-C the write-head; anything
    /// else the IP.
    pub open spec fn spec_head_choice(self, genome: Seq<Instruction>) -> HeadType {
        let next = (self.ip + 1) % (genome.len() as int);
        match genome[next] {
            Instruction::NopA => HeadType::InstructionPointer,
            Instruction::NopB => HeadType::ReadHead,
            Instruction::NopC => HeadType::WriteHead,
            _ => HeadType::InstructionPointer,
        }
    }

    /// Head selection by the following nop, defaulting to the IP.
    pub fn get_head_from_nop(&self, genome: &Vec<Instruction>) -> (r: HeadType)
        requires
            1 <= genome@.len(),
            self.ip < genome@.len(),
        ensures
            r == self.spec_head_choice(genome@),
    {
        let next_pos = self.advance_head(self.ip, genome.len());
        match genome[next_pos] {
            Instruction::NopA => HeadType::InstructionPointer,
            Instruction::NopB => HeadType::ReadHead,
            Instruction::NopC => HeadType::WriteHead,
            _ => HeadType::InstructionPointer,
        }
    }

    /// Read the template (maximal run of nops) starting at `start_pos`,
    /// wrapping circularly; reading stops once the template is longer than
    /// the genome.
    pub fn read_template(&self, genome: &Vec<Instruction>, start_pos: usize) -> (r: Vec<
        Instruction,
    >)
        requires
            1 <= genome@.len() <= MAX_GENOME_LEN,
            start_pos < genome@.len(),
        ensures
            r@ == spec_read_template(genome@, start_pos as int),
            r@.len() <= genome@.len() + 1,
    {
        let len = genome.len();
        let mut template: Vec<Instruction> = Vec::new();
        let mut pos = start_pos;
        let mut remaining: usize = len + 1;
        proof {
            assert(template@ + spec_read_template_rec(genome@, pos as int, remaining as nat)
                =~= spec_read_template(genome@, start_pos as int));
        }
        while remaining > 0 && genome[pos].is_nop()
            invariant
                1 <= genome@.len() <= MAX_GENOME_LEN,
                len == genome@.len(),
                pos < len,
                remaining <= len + 1,
                template@.len() + remaining == len + 1,
                template@ + spec_read_template_rec(genome@, pos as int, remaining as nat)
                    == spec_read_template(genome@, start_pos as int),
            decreases remaining,
        {
            let inst = genome[pos];
            template.push(inst);
            let next = self.advance_head(pos, len);
            proof {
                assert(spec_read_template_rec(genome@, pos as int, remaining as nat) == seq![
                    genome@[pos as int],
                ] + spec_read_template_rec(genome@, next as int, (remaining - 1) as nat));
                assert(template@ + spec_read_template_rec(genome@, next as int, (remaining - 1) as nat)
                    =~= spec_read_template(genome@, start_pos as int));
            }
            pos = next;
            remaining = remaining - 1;
        }
        proof {
            assert(spec_read_template_rec(genome@, pos as int, remaining as nat)
                =~= Seq::<Instruction>::empty());
            assert(template@ =~= spec_read_template(genome@, start_pos as int));
        }
        template
    }

    /// Search the genome for the cyclic complement of the template that
    /// follows the instruction at `start_pos`.
    ///
    /// On a hit the result `(d, k)` means: the `k` instructions starting `d`
    /// positions after the end of the source template (mod genome length)
    /// equal the complement of that template, and no smaller positive `d`
    /// matches. With no template, or no match anywhere, the search fails.
    pub fn search_template(&self, genome: &Vec<Instruction>, start_pos: usize) -> (r: Option<
        (i32, usize),
    >)
        requires
            1 <= genome@.len() <= MAX_GENOME_LEN,
            start_pos < genome@.len(),
        ensures
            r is Some <==> spec_search_found(genome@, start_pos as int),
            ({
                let g = genome@;
                let len = g.len() as int;
                let tmpl = spec_read_template(g, (start_pos + 1) % len);
                match r {
                    None => tmpl.len() == 0 || (forall|d: int|
                        1 <= d < len ==> !#[trigger] spec_search_hit(g, start_pos as int, tmpl, d)),
                    Some((dist, size)) => {
                        &&& tmpl.len() > 0
                        &&& size == tmpl.len()
                        &&& 1 <= dist < len
                        &&& spec_search_hit(g, start_pos as int, tmpl, dist as int)
                        &&& forall|d: int|
                            1 <= d < dist ==> !#[trigger] spec_search_hit(
                                g,
                                start_pos as int,
                                tmpl,
                                d,
                            )
                    },
                }
            }),
    {
        let len = genome.len();
        let template_start = self.advance_head(start_pos, len);
        let template = self.read_template(genome, template_start);
        let ghost tmpl = spec_read_template(genome@, (start_pos + 1) % (len as int));
        proof {
            assert(template@ == tmpl);
        }
        if template.len() == 0 {
            return None;
        }
        proof {
            lemma_read_template_nops(genome@, template_start as int, (len + 1) as nat);
        }
        // Build the complement template.
        let mut comp: Vec<Instruction> = Vec::new();
        let mut i: usize = 0;
        while i < template.len()
            invariant
                i <= template@.len(),
                comp@.len() == i,
                forall|j: int|
                    0 <= j < i ==> #[trigger] comp@[j] == complement_of(template@[j]).unwrap(),
                forall|j: int| 0 <= j < template@.len() ==> (#[trigger] template@[j]).spec_is_nop(),
            decreases template@.len() - i,
        {
            let c = match template[i].complement_nop() {
                Some(c) => c,
                None => {
                    proof {
                        assert(false);
                    }
                    Instruction::NopA
                },
            };
            comp.push(c);
            i = i + 1;
        }
        proof {
            assert(comp@ =~= spec_complement_seq(template@));
        }
        let tlen = template.len();
        // Scan every positive distance once around the genome.
        let mut d: usize = 1;
        while d < len
            invariant
                1 <= genome@.len() <= MAX_GENOME_LEN,
                len == genome@.len(),
                start_pos < len,
                1 <= d,
                tlen == template@.len(),
                1 <= tlen <= len + 1,
                template@ == tmpl,
                tmpl == spec_read_template(genome@, (start_pos + 1) % (genome@.len() as int)),
                comp@ == spec_complement_seq(tmpl),
                forall|dd: int|
                    1 <= dd < d ==> !#[trigger] spec_search_hit(genome@, start_pos as int, tmpl, dd),
            decreases len - d,
        {
            let p = ((start_pos as u64 + tlen as u64 + d as u64) % (len as u64)) as usize;
            proof {
                lemma_mod_bound((start_pos + tlen + d) as int, len as int);
            }
            if Self::template_matches_here(genome, p, &comp) {
                proof {
                    assert(spec_search_hit(genome@, start_pos as int, tmpl, d as int));
                }
                return Some((d as i32, tlen));
            }
            proof {
                assert(!spec_search_hit(genome@, start_pos as int, tmpl, d as int));
            }
            d = d + 1;
        }
        None
    }

    /// Whether the instructions starting at `p` (wrapping) equal `comp`.
    fn template_matches_here(genome: &Vec<Instruction>, p: usize, comp: &Vec<Instruction>) -> (r:
        bool)
        requires
            1 <= genome@.len() <= MAX_GENOME_LEN,
            p < genome@.len(),
            comp@.len() <= genome@.len() + 1,
        ensures
            r == template_matches_at(genome@, p as int, comp@),
    {
        let len = genome.len();
        let mut i: usize = 0;
        while i < comp.len()
            invariant
                len == genome@.len(),
                1 <= len <= MAX_GENOME_LEN,
                p < len,
                i <= comp@.len(),
                comp@.len() <= len + 1,
                forall|j: int|
                    0 <= j < i ==> genome@[(p + j) % (len as int)] == #[trigger] comp@[j],
            decreases comp@.len() - i,
        {
            let idx = ((p as u64 + i as u64) % (len as u64)) as usize;
            proof {
                lemma_mod_bound((p + i) as int, len as int);
            }
            if genome[idx] != comp[i] {
                proof {
                    if template_matches_at(genome@, p as int, comp@) {
                        assert(genome@[(p as int + i as int) % (genome@.len() as int)]
                            == comp@[i as int]);
                    }
                }
                return false;
            }
            i = i + 1;
        }
        true
    }

    /// Reset everything but the input buffer for a fresh gestation:
    /// registers, stacks, heads, output, label trace and skip flag.
    pub fn reset(&mut self)
        ensures
            final(self).registers@ == seq![0i32, 0i32, 0i32],
            final(self).stack1@ == Seq::<i32>::empty(),
            final(self).stack2@ == Seq::<i32>::empty(),
            final(self).active_stack == false,
            final(self).ip == 0,
            final(self).read_head == 0,
            final(self).write_head == 0,
            final(self).flow_head == 0,
            final(self).input_buffer == old(self).input_buffer,
            final(self).output_buffer@ == Seq::<i32>::empty(),
            final(self).last_copied_label@ == Seq::<Instruction>::empty(),
            final(self).skip_next == false,
    {
        self.registers = [0, 0, 0];
        assert(self.registers@ =~= seq![0i32, 0i32, 0i32]);
        self.stack1.clear();
        self.stack2.clear();
        self.active_stack = false;
        self.ip = 0;
        self.read_head = 0;
        self.write_head = 0;
        self.flow_head = 0;
        self.output_buffer.clear();
        self.last_copied_label.clear();
        self.skip_next = false;
    }
}

impl Default for CPU {
    /// Same as `CPU::new`: the fresh state.
    fn default() -> (r: Self)
        ensures
            r.is_fresh(),
    {
        CPU::new()
    }
}

} // verus!
