//! The 26-opcode instruction set: one variant per lowercase letter, with the
//! character codec, the nop predicates and the cyclic nop-complement relation.

use vstd::prelude::*;

verus! {

/// One virtual-CPU opcode. Each variant corresponds to exactly one letter of
/// 'a'..'z'; the three nops double as register selectors and template letters.
#[derive(Debug, Clone, Copy, PartialEq, Eq, Structural, Hash)]
pub enum Instruction {
    NopA,
    NopB,
    NopC,
    IfNEqu,
    IfLess,
    Pop,
    Push,
    SwapStk,
    Swap,
    ShiftR,
    ShiftL,
    Inc,
    Dec,
    Add,
    Sub,
    Nand,
    IO,
    HAlloc,
    HDivide,
    HCopy,
    HSearch,
    MovHead,
    JmpHead,
    GetHead,
    IfLabel,
    SetFlow,
}

/// The letter that encodes an instruction.
pub open spec fn char_of_instruction(inst: Instruction) -> char {
    match inst {
        Instruction::NopA => 'a',
        Instruction::NopB => 'b',
        Instruction::NopC => 'c',
        Instruction::IfNEqu => 'd',
        Instruction::IfLess => 'e',
        Instruction::Pop => 'f',
        Instruction::Push => 'g',
        Instruction::SwapStk => 'h',
        Instruction::Swap => 'i',
        Instruction::ShiftR => 'j',
        Instruction::ShiftL => 'k',
        Instruction::Inc => 'l',
        Instruction::Dec => 'm',
        Instruction::Add => 'n',
        Instruction::Sub => 'o',
        Instruction::Nand => 'p',
        Instruction::IO => 'q',
        Instruction::HAlloc => 'r',
        Instruction::HDivide => 's',
        Instruction::HCopy => 't',
        Instruction::HSearch => 'u',
        Instruction::MovHead => 'v',
        Instruction::JmpHead => 'w',
        Instruction::GetHead => 'x',
        Instruction::IfLabel => 'y',
        Instruction::SetFlow => 'z',
    }
}

/// The instruction encoded by a letter, if any. Uppercase letters decode like
/// their lowercase counterparts; every other character is invalid.
pub open spec fn instruction_of_char(c: char) -> Option<Instruction> {
    match c {
        'a' | 'A' => Some(Instruction::NopA),
        'b' | 'B' => Some(Instruction::NopB),
        'c' | 'C' => Some(Instruction::NopC),
        'd' | 'D' => Some(Instruction::IfNEqu),
        'e' | 'E' => Some(Instruction::IfLess),
        'f' | 'F' => Some(Instruction::Pop),
        'g' | 'G' => Some(Instruction::Push),
        'h' | 'H' => Some(Instruction::SwapStk),
        'i' | 'I' => Some(Instruction::Swap),
        'j' | 'J' => Some(Instruction::ShiftR),
        'k' | 'K' => Some(Instruction::ShiftL),
        'l' | 'L' => Some(Instruction::Inc),
        'm' | 'M' => Some(Instruction::Dec),
        'n' | 'N' => Some(Instruction::Add),
        'o' | 'O' => Some(Instruction::Sub),
        'p' | 'P' => Some(Instruction::Nand),
        'q' | 'Q' => Some(Instruction::IO),
        'r' | 'R' => Some(Instruction::HAlloc),
        's' | 'S' => Some(Instruction::HDivide),
        't' | 'T' => Some(Instruction::HCopy),
        'u' | 'U' => Some(Instruction::HSearch),
        'v' | 'V' => Some(Instruction::MovHead),
        'w' | 'W' => Some(Instruction::JmpHead),
        'x' | 'X' => Some(Instruction::GetHead),
        'y' | 'Y' => Some(Instruction::IfLabel),
        'z' | 'Z' => Some(Instruction::SetFlow),
        _ => None,
    }
}

/// The cyclic complement of a nop (a -> b -> c -> a); None for non-nops.
pub open spec fn complement_of(inst: Instruction) -> Option<Instruction> {
    match inst {
        Instruction::NopA => Some(Instruction::NopB),
        Instruction::NopB => Some(Instruction::NopC),
        Instruction::NopC => Some(Instruction::NopA),
        _ => None,
    }
}

impl Instruction {
    /// Decode a character; uppercase folds to lowercase, anything outside
    /// 'a'..'z' is rejected.
    pub fn from_char(c: char) -> (r: Option<Self>)
        ensures
            r == instruction_of_char(c),
    {
        match c {
            'a' | 'A' => Some(Instruction::NopA),
            'b' | 'B' => Some(Instruction::NopB),
            'c' | 'C' => Some(Instruction::NopC),
            'd' | 'D' => Some(Instruction::IfNEqu),
            'e' | 'E' => Some(Instruction::IfLess),
            'f' | 'F' => Some(Instruction::Pop),
            'g' | 'G' => Some(Instruction::Push),
            'h' | 'H' => Some(Instruction::SwapStk),
            'i' | 'I' => Some(Instruction::Swap),
            'j' | 'J' => Some(Instruction::ShiftR),
            'k' | 'K' => Some(Instruction::ShiftL),
            'l' | 'L' => Some(Instruction::Inc),
            'm' | 'M' => Some(Instruction::Dec),
            'n' | 'N' => Some(Instruction::Add),
            'o' | 'O' => Some(Instruction::Sub),
            'p' | 'P' => Some(Instruction::Nand),
            'q' | 'Q' => Some(Instruction::IO),
            'r' | 'R' => Some(Instruction::HAlloc),
            's' | 'S' => Some(Instruction::HDivide),
            't' | 'T' => Some(Instruction::HCopy),
            'u' | 'U' => Some(Instruction::HSearch),
            'v' | 'V' => Some(Instruction::MovHead),
            'w' | 'W' => Some(Instruction::JmpHead),
            'x' | 'X' => Some(Instruction::GetHead),
            'y' | 'Y' => Some(Instruction::IfLabel),
            'z' | 'Z' => Some(Instruction::SetFlow),
            _ => None,
        }
    }

    /// Encode an instruction as its lowercase letter.
    pub fn to_char(self) -> (r: char)
        ensures
            r == char_of_instruction(self),
    {
        match self {
            Instruction::NopA => 'a',
            Instruction::NopB => 'b',
            Instruction::NopC => 'c',
            Instruction::IfNEqu => 'd',
            Instruction::IfLess => 'e',
            Instruction::Pop => 'f',
            Instruction::Push => 'g',
            Instruction::SwapStk => 'h',
            Instruction::Swap => 'i',
            Instruction::ShiftR => 'j',
            Instruction::ShiftL => 'k',
            Instruction::Inc => 'l',
            Instruction::Dec => 'm',
            Instruction::Add => 'n',
            Instruction::Sub => 'o',
            Instruction::Nand => 'p',
            Instruction::IO => 'q',
            Instruction::HAlloc => 'r',
            Instruction::HDivide => 's',
            Instruction::HCopy => 't',
            Instruction::HSearch => 'u',
            Instruction::MovHead => 'v',
            Instruction::JmpHead => 'w',
            Instruction::GetHead => 'x',
            Instruction::IfLabel => 'y',
            Instruction::SetFlow => 'z',
        }
    }

    /// Whether this instruction is one of the three nops.
    pub open spec fn spec_is_nop(self) -> bool {
        self == Instruction::NopA || self == Instruction::NopB || self == Instruction::NopC
    }

    /// Whether this instruction is one of the three nops.
    #[verifier::when_used_as_spec(spec_is_nop)]
    pub fn is_nop(self) -> (r: bool)
        ensures
            r == self.spec_is_nop(),
    {
        match self {
            Instruction::NopA | Instruction::NopB | Instruction::NopC => true,
            _ => false,
        }
    }

    /// The cyclic complement of a nop (a -> b -> c -> a); None for non-nops.
    pub fn complement_nop(self) -> (r: Option<Self>)
        ensures
            r == complement_of(self),
    {
        match self {
            Instruction::NopA => Some(Instruction::NopB),
            Instruction::NopB => Some(Instruction::NopC),
            Instruction::NopC => Some(Instruction::NopA),
            _ => None,
        }
    }

    /// The register selected by a nop: nop-A is AX (0), nop-B is BX (1),
    /// nop-C is CX (2); None for non-nops.
    pub fn nop_register_index(self) -> (r: Option<usize>)
        ensures
            r == spec_nop_register_index(self),
    {
        match self {
            Instruction::NopA => Some(0usize),
            Instruction::NopB => Some(1usize),
            Instruction::NopC => Some(2usize),
            _ => None,
        }
    }
}

/// The register index selected by a nop, if any.
pub open spec fn spec_nop_register_index(inst: Instruction) -> Option<usize> {
    match inst {
        Instruction::NopA => Some(0usize),
        Instruction::NopB => Some(1usize),
        Instruction::NopC => Some(2usize),
        _ => None,
    }
}

/// Whether every character of a string decodes to an instruction.
pub open spec fn valid_genome_chars(s: Seq<char>) -> bool {
    forall|i: int| 0 <= i < s.len() ==> instruction_of_char(#[trigger] s[i]) is Some
}

/// Codec law: decoding the letter of an instruction gives that instruction
/// back, for all 26 variants.
pub proof fn lemma_char_of_instruction_roundtrip(inst: Instruction)
    ensures
        instruction_of_char(char_of_instruction(inst)) == Some(inst),
{
}

/// Codec law: encoding a decoded character gives the character back, folded
/// to lowercase; on lowercase input it is the character itself.
pub proof fn lemma_instruction_of_char_roundtrip(c: char)
    ensures
        instruction_of_char(c) matches Some(inst) ==> ('a' <= c <= 'z' ==> char_of_instruction(
            inst,
        ) == c),
{
}

/// Complement law: the nop complement is a cycle of order three, so applying
/// it three times is the identity on every nop.
pub proof fn lemma_complement_order_three(inst: Instruction)
    requires
        inst.spec_is_nop(),
    ensures
        complement_of(inst) is Some,
        complement_of(complement_of(inst).unwrap()) is Some,
        complement_of(complement_of(complement_of(inst).unwrap()).unwrap()) == Some(inst),
{
}

/// Codec law: parsing a string of lowercase codec letters and rendering
/// the parsed genome gives the original string back. The hypotheses are
/// exactly what `parse_genome` and `genome_to_string` ensure.
pub proof fn lemma_parse_render_identity(s: Seq<char>, g: Seq<Instruction>, r: Seq<char>)
    requires
        forall|i: int| 0 <= i < s.len() ==> 'a' <= #[trigger] s[i] <= 'z',
        g.len() == s.len(),
        forall|i: int| 0 <= i < s.len() ==> instruction_of_char(s[i]) == Some(#[trigger] g[i]),
        r.len() == g.len(),
        forall|i: int| 0 <= i < g.len() ==> r[i] == char_of_instruction(#[trigger] g[i]),
    ensures
        r =~= s,
{
    assert forall|i: int| 0 <= i < s.len() implies r[i] == s[i] by {
        assert('a' <= s[i] <= 'z');
        assert(instruction_of_char(s[i]) == Some(g[i]));
        assert(r[i] == char_of_instruction(g[i]));
        lemma_instruction_of_char_roundtrip(s[i]);
    }
}

/// The parse error text for one offending character: it names that
/// character between quotes.
pub open spec fn spec_parse_error_message(c: char) -> Seq<char> {
    "Invalid instruction character: '"@ + seq![c] + "'"@
}

/// Relies on String::push: appends exactly the given character.
#[verifier::external_body]
fn push_char(s: &mut String, c: char)
    ensures
        final(s)@ == old(s)@.push(c),
{
    s.push(c);
}

/// Parse a genome string into instructions. Succeeds exactly when every
/// character is a letter of the codec; the error message names the first
/// offending character.
pub fn parse_genome(s: &str) -> (r: Result<Vec<Instruction>, String>)
    ensures
        r is Ok <==> valid_genome_chars(s@),
        r matches Ok(g) ==> {
            &&& g@.len() == s@.len()
            &&& forall|i: int|
                0 <= i < s@.len() ==> instruction_of_char(s@[i]) == Some(#[trigger] g@[i])
        },
        r matches Err(m) ==> exists|j: int|
            {
                &&& 0 <= j < s@.len()
                &&& instruction_of_char(#[trigger] s@[j]) is None
                &&& (forall|k: int| 0 <= k < j ==> instruction_of_char(#[trigger] s@[k]) is Some)
                &&& m@ == spec_parse_error_message(s@[j])
            },
{
    let len = s.unicode_len();
    let mut out: Vec<Instruction> = Vec::new();
    let mut i: usize = 0;
    while i < len
        invariant
            len == s@.len(),
            0 <= i <= len,
            out@.len() == i,
            forall|j: int| 0 <= j < i ==> instruction_of_char(s@[j]) == Some(#[trigger] out@[j]),
        decreases len - i,
    {
        let c = s.get_char(i);
        match Instruction::from_char(c) {
            Some(inst) => {
                out.push(inst);
            },
            None => {
                let mut msg = String::from_str("Invalid instruction character: '");
                push_char(&mut msg, c);
                msg.append("'");
                proof {
                    assert forall|k: int|
                        0 <= k < i implies instruction_of_char(#[trigger] s@[k]) is Some by {
                        assert(instruction_of_char(s@[k]) == Some(out@[k]));
                    }
                    assert(msg@ == spec_parse_error_message(s@[i as int]));
                    assert(instruction_of_char(s@[i as int]) is None);
                }
                return Err(msg);
            },
        }
        i = i + 1;
    }
    assert forall|j: int| 0 <= j < s@.len() implies instruction_of_char(#[trigger] s@[j]) is Some by {
        assert(instruction_of_char(s@[j]) == Some(out@[j]));
    }
    Ok(out)
}

/// Render a genome as its string of letters.
pub fn genome_to_string(genome: &[Instruction]) -> (r: String)
    ensures
        r@.len() == genome@.len(),
        forall|i: int| 0 <= i < genome@.len() ==> r@[i] == char_of_instruction(#[trigger] genome@[i]),
{
    let mut out = String::new();
    let mut i: usize = 0;
    while i < genome.len()
        invariant
            0 <= i <= genome@.len(),
            out@.len() == i,
            forall|j: int| 0 <= j < i ==> out@[j] == char_of_instruction(#[trigger] genome@[j]),
        decreases genome@.len() - i,
    {
        let inst = genome[i];
        push_char(&mut out, inst.to_char());
        i = i + 1;
    }
    out
}

} // verus!
