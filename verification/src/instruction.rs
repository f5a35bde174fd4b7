//! Decoded instructions and the assembler that reads one source line.
//!
//! A line is a mnemonic, followed for most mnemonics by one space and a
//! comma-separated list of operands without whitespace. Operands are base-10
//! literals: registers in `0..=7`, signed immediates in `-64..=63`, the
//! immediate of `lui` in `0..=1023` and the word of `.fill` in
//! `-32768..=32767`. A sign may precede the digits, `-` only where the
//! operand is signed. `decode` says which instruction a line stands for, and
//! `Instruction::new` is proved to compute it.

use crate::text::{
    chars_of, digits_value, find, first_index, parse_decimal, signed_decimal, split, split_bounds,
    unsigned_decimal, within, word_is,
};
use vstd::prelude::*;
use vstd::string::StringExecFns;

verus! {

/// What an instruction does once decoded. `HALT` and `FILL` only arise from the
/// `halt` pseudo-op and the `.fill` directive.
#[derive(Clone, Copy, PartialEq, Eq, Structural, Debug)]
pub enum Opcode {
    ADD,
    ADDI,
    NAND,
    LUI,
    SW,
    LW,
    BEQ,
    JALR,
    HALT,
    FILL,
}

/// Operand layout: three registers, two registers and an immediate, or one
/// register and an immediate.
#[derive(Clone, Copy, PartialEq, Eq, Structural, Debug)]
pub enum Format {
    RRR,
    RRI,
    RI,
}

/// The words that may open a source line.
#[derive(Clone, Copy, PartialEq, Eq, Structural, Debug)]
pub enum Mnemonic {
    Add,
    Addi,
    Nand,
    Lui,
    Sw,
    Lw,
    Beq,
    Jalr,
    Nop,
    Halt,
    Lli,
    Fill,
}

/// The kinds of operand that a mnemonic may take.
#[derive(Clone, Copy, PartialEq, Eq, Structural, Debug)]
pub enum Operand {
    /// A register index, `0..=7`.
    Register,
    /// A signed 7-bit immediate, `-64..=63`.
    Signed,
    /// An unsigned 10-bit immediate, `0..=1023`.
    Upper,
    /// A signed 16-bit word.
    Word,
}

/// A source line that is not an instruction. `line` counts from 1 within the
/// text that was handed to the decoder.
#[derive(Clone, Copy, PartialEq, Eq, Structural, Debug)]
pub struct InvalidSource {
    pub line: usize,
}

/// A decoded instruction together with the text it was decoded from.
#[derive(Debug)]
pub struct Instruction {
    op: Opcode,
    format: Format,
    reg_a: usize,
    reg_b: usize,
    reg_c: usize,
    s_immed: i8,
    u_immed: u16,
    fill_value: i16,
    address: usize,
    text: String,
}

/// The mathematical content of an `Instruction`.
pub ghost struct InstructionView {
    pub op: Opcode,
    pub format: Format,
    pub reg_a: int,
    pub reg_b: int,
    pub reg_c: int,
    pub s_immed: int,
    pub u_immed: int,
    pub fill_value: i16,
    pub address: int,
    pub text: Seq<char>,
}

/// The format under which an opcode is written. The two directives carry the
/// format of a blank record.
pub open spec fn format_of(op: Opcode) -> Format {
    match op {
        Opcode::ADD | Opcode::NAND | Opcode::HALT | Opcode::FILL => Format::RRR,
        Opcode::ADDI | Opcode::SW | Opcode::LW | Opcode::BEQ | Opcode::JALR => Format::RRI,
        Opcode::LUI => Format::RI,
    }
}

impl InstructionView {
    /// `add 0,0,0` at address 0, displayed as `text`: the record that every
    /// decoded instruction starts from.
    pub open spec fn blank(text: Seq<char>) -> InstructionView {
        InstructionView {
            op: Opcode::ADD,
            format: Format::RRR,
            reg_a: 0,
            reg_b: 0,
            reg_c: 0,
            s_immed: 0,
            u_immed: 0,
            fill_value: 0,
            address: 0,
            text,
        }
    }

    /// The same instruction at another address.
    pub open spec fn at(self, address: int) -> InstructionView {
        InstructionView { address, ..self }
    }

    /// Operands are in range, the format is that of the opcode, and every field
    /// that the opcode does not use is zero.
    pub open spec fn wf(self) -> bool {
        &&& 0 <= self.reg_a < 8
        &&& 0 <= self.reg_b < 8
        &&& 0 <= self.reg_c < 8
        &&& -64 <= self.s_immed <= 63
        &&& 0 <= self.u_immed <= 1023
        &&& 0 <= self.address <= usize::MAX
        &&& self.format == format_of(self.op)
        &&& match self.op {
            Opcode::ADD | Opcode::NAND => self.s_immed == 0 && self.u_immed == 0 && self.fill_value
                == 0,
            Opcode::ADDI | Opcode::SW | Opcode::LW | Opcode::BEQ => self.reg_c == 0 && self.u_immed
                == 0 && self.fill_value == 0,
            Opcode::JALR => self.reg_c == 0 && self.s_immed == 0 && self.u_immed == 0
                && self.fill_value == 0,
            Opcode::LUI => self.reg_b == 0 && self.reg_c == 0 && self.s_immed == 0
                && self.fill_value == 0,
            Opcode::HALT => self.reg_a == 0 && self.reg_b == 0 && self.reg_c == 0 && self.s_immed
                == 0 && self.u_immed == 0 && self.fill_value == 0,
            Opcode::FILL => self.reg_a == 0 && self.reg_b == 0 && self.reg_c == 0 && self.s_immed
                == 0 && self.u_immed == 0,
        }
    }
}

/// The bubble that squashes a fetch: `add 0,0,0`.
pub open spec fn bubble() -> InstructionView {
    InstructionView::blank("add 0,0,0"@)
}

/// The mnemonic that `word` spells, if any.
pub open spec fn mnemonic_of(word: Seq<char>) -> Option<Mnemonic> {
    if word == "add"@ {
        Some(Mnemonic::Add)
    } else if word == "addi"@ {
        Some(Mnemonic::Addi)
    } else if word == "nand"@ {
        Some(Mnemonic::Nand)
    } else if word == "lui"@ {
        Some(Mnemonic::Lui)
    } else if word == "sw"@ {
        Some(Mnemonic::Sw)
    } else if word == "lw"@ {
        Some(Mnemonic::Lw)
    } else if word == "beq"@ {
        Some(Mnemonic::Beq)
    } else if word == "jalr"@ {
        Some(Mnemonic::Jalr)
    } else if word == "nop"@ {
        Some(Mnemonic::Nop)
    } else if word == "halt"@ {
        Some(Mnemonic::Halt)
    } else if word == "lli"@ {
        Some(Mnemonic::Lli)
    } else if word == ".fill"@ {
        Some(Mnemonic::Fill)
    } else {
        None
    }
}

/// The operands that each mnemonic takes, in order.
pub open spec fn shape(m: Mnemonic) -> Seq<Operand> {
    match m {
        Mnemonic::Add | Mnemonic::Nand => seq![
            Operand::Register,
            Operand::Register,
            Operand::Register,
        ],
        Mnemonic::Addi | Mnemonic::Sw | Mnemonic::Lw | Mnemonic::Beq => seq![
            Operand::Register,
            Operand::Register,
            Operand::Signed,
        ],
        Mnemonic::Jalr => seq![Operand::Register, Operand::Register],
        Mnemonic::Lui => seq![Operand::Register, Operand::Upper],
        Mnemonic::Lli => seq![Operand::Register, Operand::Signed],
        Mnemonic::Nop | Mnemonic::Halt => seq![],
        Mnemonic::Fill => seq![Operand::Word],
    }
}

/// Whether an operand of this kind is written with a sign.
pub open spec fn is_signed(kind: Operand) -> bool {
    kind == Operand::Signed || kind == Operand::Word
}

/// The least value of an operand of this kind.
pub open spec fn least(kind: Operand) -> int {
    match kind {
        Operand::Register | Operand::Upper => 0,
        Operand::Signed => -64,
        Operand::Word => -32768,
    }
}

/// The greatest value of an operand of this kind.
pub open spec fn greatest(kind: Operand) -> int {
    match kind {
        Operand::Register => 7,
        Operand::Upper => 1023,
        Operand::Signed => 63,
        Operand::Word => 32767,
    }
}

/// The value that `s` writes as an operand of the given kind: a base-10
/// literal within the kind's range.
pub open spec fn operand_value(kind: Operand, s: Seq<char>) -> Option<int> {
    within(
        if is_signed(kind) {
            signed_decimal(s)
        } else {
            unsigned_decimal(s)
        },
        least(kind),
        greatest(kind),
    )
}

/// The values of the operand fields `f` read against `shape`; nothing when
/// their number differs or one of them is not a value of its kind.
pub open spec fn operand_values(f: Seq<Seq<char>>, shape: Seq<Operand>) -> Option<Seq<int>> {
    if f.len() == shape.len() && forall|k: int|
        0 <= k < f.len() ==> (#[trigger] operand_value(shape[k], f[k])) is Some {
        Some(Seq::new(f.len(), |k: int| operand_value(shape[k], f[k])->0))
    } else {
        None
    }
}

/// The first word of a line: everything before its first space.
pub open spec fn mnemonic(line: Seq<char>) -> Seq<char> {
    line.take(first_index(line, ' ') as int)
}

/// The operand fields of a line: what follows its first space, split at
/// commas. A line without a space has no field.
pub open spec fn operands(line: Seq<char>) -> Seq<Seq<char>> {
    let i = first_index(line, ' ') as int;
    if i >= line.len() {
        Seq::empty()
    } else {
        split(line.skip(i + 1), ',')
    }
}

/// The instruction that mnemonic `m` with operand values `v` stands for,
/// written as `line`. `nop` becomes `add 0,0,0` and `lli a,i` becomes
/// `addi a,a,i`.
pub open spec fn assemble(m: Mnemonic, v: Seq<int>, line: Seq<char>) -> InstructionView {
    let blank = InstructionView::blank(line);
    match m {
        Mnemonic::Add => InstructionView { reg_a: v[0], reg_b: v[1], reg_c: v[2], ..blank },
        Mnemonic::Nand => InstructionView {
            op: Opcode::NAND,
            reg_a: v[0],
            reg_b: v[1],
            reg_c: v[2],
            ..blank
        },
        Mnemonic::Addi => InstructionView {
            op: Opcode::ADDI,
            format: Format::RRI,
            reg_a: v[0],
            reg_b: v[1],
            s_immed: v[2],
            ..blank
        },
        Mnemonic::Sw => InstructionView {
            op: Opcode::SW,
            format: Format::RRI,
            reg_a: v[0],
            reg_b: v[1],
            s_immed: v[2],
            ..blank
        },
        Mnemonic::Lw => InstructionView {
            op: Opcode::LW,
            format: Format::RRI,
            reg_a: v[0],
            reg_b: v[1],
            s_immed: v[2],
            ..blank
        },
        Mnemonic::Beq => InstructionView {
            op: Opcode::BEQ,
            format: Format::RRI,
            reg_a: v[0],
            reg_b: v[1],
            s_immed: v[2],
            ..blank
        },
        Mnemonic::Jalr => InstructionView {
            op: Opcode::JALR,
            format: Format::RRI,
            reg_a: v[0],
            reg_b: v[1],
            ..blank
        },
        Mnemonic::Lui => InstructionView {
            op: Opcode::LUI,
            format: Format::RI,
            reg_a: v[0],
            u_immed: v[1],
            ..blank
        },
        Mnemonic::Lli => InstructionView {
            op: Opcode::ADDI,
            format: Format::RRI,
            reg_a: v[0],
            reg_b: v[0],
            s_immed: v[1],
            ..blank
        },
        Mnemonic::Nop => blank,
        Mnemonic::Halt => InstructionView { op: Opcode::HALT, ..blank },
        Mnemonic::Fill => InstructionView { op: Opcode::FILL, fill_value: v[0] as i16, ..blank },
    }
}

/// The instruction that a source line stands for, at address 0; nothing when
/// the line is not in the grammar: an unknown mnemonic, a wrong number of
/// operands, or an operand that is malformed or out of range.
pub open spec fn decode(line: Seq<char>) -> Option<InstructionView> {
    match mnemonic_of(mnemonic(line)) {
        None => None,
        Some(m) => match operand_values(operands(line), shape(m)) {
            None => None,
            Some(v) => Some(assemble(m, v, line)),
        },
    }
}

/// Whether `i` is, up to its address, what its own text decodes to.
pub open spec fn faithful(i: InstructionView) -> bool {
    decode(i.text) == Some(i.at(0))
}

/// Every decoded instruction is well formed, sits at address 0 and keeps the
/// line it was decoded from.
pub proof fn lemma_decode_wf(line: Seq<char>)
    requires
        decode(line) is Some,
    ensures
        decode(line)->0.wf(),
        decode(line)->0.address == 0,
        decode(line)->0.text == line,
{
}

/// Decoding the text that a decoded instruction keeps gives that instruction
/// again.
pub proof fn lemma_decode_round_trip(line: Seq<char>)
    requires
        decode(line) is Some,
    ensures
        decode(decode(line)->0.text) == decode(line),
{
}

/// A decoded instruction stays faithful to its text wherever it is placed.
pub proof fn lemma_decode_round_trip_at(line: Seq<char>, address: int)
    requires
        decode(line) is Some,
    ensures
        faithful(decode(line)->0.at(address)),
{
}

/// The bubble is what its own text decodes to.
pub proof fn lemma_bubble_decodes()
    ensures
        faithful(bubble()),
{
    let line = "add 0,0,0"@;
    reveal_strlit("add 0,0,0");
    reveal_strlit("add");
    assert(first_index(line, ' ') == 3) by {
        reveal_with_fuel(first_index, 4);
    }
    assert(mnemonic(line) =~= "add"@);
    let rest = line.skip(4);
    let zero = seq!['0'];
    assert(split(rest, ',') =~= seq![zero, zero, zero]) by {
        reveal_with_fuel(first_index, 2);
        reveal_with_fuel(split, 3);
        assert(rest.take(1) =~= zero);
        let second = rest.skip(2);
        assert(second.take(1) =~= zero);
        let third = second.skip(2);
        assert(third =~= zero);
    }
    assert(operand_value(Operand::Register, zero) == Some(0int)) by {
        reveal_with_fuel(digits_value, 2);
    }
}

impl View for Instruction {
    type V = InstructionView;

    closed spec fn view(&self) -> InstructionView {
        InstructionView {
            op: self.op,
            format: self.format,
            reg_a: self.reg_a as int,
            reg_b: self.reg_b as int,
            reg_c: self.reg_c as int,
            s_immed: self.s_immed as int,
            u_immed: self.u_immed as int,
            fill_value: self.fill_value,
            address: self.address as int,
            text: self.text@,
        }
    }
}

impl Clone for Instruction {
    fn clone(&self) -> (r: Self)
        ensures
            r@ == self@,
    {
        Instruction {
            op: self.op,
            format: self.format,
            reg_a: self.reg_a,
            reg_b: self.reg_b,
            reg_c: self.reg_c,
            s_immed: self.s_immed,
            u_immed: self.u_immed,
            fill_value: self.fill_value,
            address: self.address,
            text: self.text.clone(),
        }
    }
}

/// Executable form of `mnemonic_of` on `v[from..to]`.
fn read_mnemonic(v: &Vec<char>, from: usize, to: usize) -> (r: Option<Mnemonic>)
    requires
        from <= to <= v.len(),
    ensures
        r == mnemonic_of(v@.subrange(from as int, to as int)),
{
    if word_is(v, from, to, "add") {
        Some(Mnemonic::Add)
    } else if word_is(v, from, to, "addi") {
        Some(Mnemonic::Addi)
    } else if word_is(v, from, to, "nand") {
        Some(Mnemonic::Nand)
    } else if word_is(v, from, to, "lui") {
        Some(Mnemonic::Lui)
    } else if word_is(v, from, to, "sw") {
        Some(Mnemonic::Sw)
    } else if word_is(v, from, to, "lw") {
        Some(Mnemonic::Lw)
    } else if word_is(v, from, to, "beq") {
        Some(Mnemonic::Beq)
    } else if word_is(v, from, to, "jalr") {
        Some(Mnemonic::Jalr)
    } else if word_is(v, from, to, "nop") {
        Some(Mnemonic::Nop)
    } else if word_is(v, from, to, "halt") {
        Some(Mnemonic::Halt)
    } else if word_is(v, from, to, "lli") {
        Some(Mnemonic::Lli)
    } else if word_is(v, from, to, ".fill") {
        Some(Mnemonic::Fill)
    } else {
        None
    }
}

/// Executable form of `shape`.
fn shape_of(m: Mnemonic) -> (r: Vec<Operand>)
    ensures
        r@ == shape(m),
{
    let mut r: Vec<Operand> = Vec::new();
    match m {
        Mnemonic::Add | Mnemonic::Nand => {
            r.push(Operand::Register);
            r.push(Operand::Register);
            r.push(Operand::Register);
        },
        Mnemonic::Addi | Mnemonic::Sw | Mnemonic::Lw | Mnemonic::Beq => {
            r.push(Operand::Register);
            r.push(Operand::Register);
            r.push(Operand::Signed);
        },
        Mnemonic::Jalr => {
            r.push(Operand::Register);
            r.push(Operand::Register);
        },
        Mnemonic::Lui => {
            r.push(Operand::Register);
            r.push(Operand::Upper);
        },
        Mnemonic::Lli => {
            r.push(Operand::Register);
            r.push(Operand::Signed);
        },
        Mnemonic::Nop | Mnemonic::Halt => {},
        Mnemonic::Fill => {
            r.push(Operand::Word);
        },
    }
    r
}

/// Executable form of `operand_value` on `v[from..to]`.
fn read_operand(v: &Vec<char>, from: usize, to: usize, kind: Operand) -> (r: Option<i32>)
    requires
        from <= to <= v.len(),
    ensures
        r matches Some(x) ==> operand_value(kind, v@.subrange(from as int, to as int)) == Some(
            x as int,
        ),
        r is None ==> operand_value(kind, v@.subrange(from as int, to as int)) is None,
{
    match kind {
        Operand::Register => parse_decimal(v, from, to, false, 0, 7),
        Operand::Upper => parse_decimal(v, from, to, false, 0, 1023),
        Operand::Signed => parse_decimal(v, from, to, true, -64, 63),
        Operand::Word => parse_decimal(v, from, to, true, -32768, 32767),
    }
}

/// Executable form of `operand_values`, on the fields of `v` bounded by `f`.
fn read_operands(
    v: &Vec<char>,
    f: &Vec<(usize, usize)>,
    kinds: &Vec<Operand>,
    Ghost(fields): Ghost<Seq<Seq<char>>>,
) -> (r: Option<Vec<i32>>)
    requires
        fields.len() == f@.len(),
        forall|k: int|
            0 <= k < f@.len() ==> {
                &&& (#[trigger] f@[k]).0 <= f@[k].1 <= v.len()
                &&& fields[k] == v@.subrange(f@[k].0 as int, f@[k].1 as int)
            },
    ensures
        r matches Some(x) ==> {
            &&& operand_values(fields, kinds@) is Some
            &&& x@.len() == kinds@.len()
            &&& forall|k: int|
                0 <= k < x@.len() ==> operand_values(fields, kinds@)->0[k] == #[trigger] x@[k]
        },
        r is None ==> operand_values(fields, kinds@) is None,
{
    if f.len() != kinds.len() {
        return None;
    }
    let mut r: Vec<i32> = Vec::new();
    let mut k: usize = 0;
    while k < f.len()
        invariant
            k <= f.len() == kinds.len(),
            r@.len() == k,
            fields.len() == f@.len(),
            forall|j: int|
                0 <= j < f@.len() ==> {
                    &&& (#[trigger] f@[j]).0 <= f@[j].1 <= v.len()
                    &&& fields[j] == v@.subrange(f@[j].0 as int, f@[j].1 as int)
                },
            forall|j: int|
                0 <= j < k ==> (#[trigger] operand_value(kinds@[j], fields[j])) == Some(
                    r@[j] as int,
                ),
        decreases f.len() - k,
    {
        let (from, to) = f[k];
        match read_operand(v, from, to, kinds[k]) {
            Some(x) => {
                r.push(x);
            },
            None => {
                return None;
            },
        }
        k += 1;
    }
    Some(r)
}

/// The end of the mnemonic of `chars` and the bounds of its operand fields.
fn scan(chars: &Vec<char>) -> (r: (usize, Vec<(usize, usize)>))
    ensures
        r.0 <= chars.len(),
        chars@.subrange(0, r.0 as int) == mnemonic(chars@),
        r.1@.len() == operands(chars@).len(),
        forall|k: int|
            0 <= k < r.1@.len() ==> {
                &&& (#[trigger] r.1@[k]).0 <= r.1@[k].1 <= chars.len()
                &&& operands(chars@)[k] == chars@.subrange(r.1@[k].0 as int, r.1@[k].1 as int)
            },
{
    let n = chars.len();
    let sp = find(chars, 0, n, ' ');
    proof {
        assert(chars@.subrange(0, n as int) =~= chars@);
    }
    if sp < n {
        (sp, split_bounds(chars, sp + 1, n, ','))
    } else {
        (sp, Vec::new())
    }
}

impl Instruction {
    /// The instruction that mnemonic `m` with operand values `v` stands for,
    /// keeping `text`.
    fn assembled(m: Mnemonic, v: &Vec<i32>, text: String) -> (r: Instruction)
        requires
            v@.len() == shape(m).len(),
            forall|k: int|
                0 <= k < v@.len() ==> least(shape(m)[k]) <= #[trigger] v@[k] <= greatest(
                    shape(m)[k],
                ),
        ensures
            r@ == assemble(m, v@.map_values(|x: i32| x as int), text@),
    {
        let mut i = Instruction {
            op: Opcode::ADD,
            format: Format::RRR,
            reg_a: 0,
            reg_b: 0,
            reg_c: 0,
            s_immed: 0,
            u_immed: 0,
            fill_value: 0,
            address: 0,
            text,
        };
        match m {
            Mnemonic::Add | Mnemonic::Nand => {
                if let Mnemonic::Nand = m {
                    i.op = Opcode::NAND;
                }
                i.reg_a = v[0] as usize;
                i.reg_b = v[1] as usize;
                i.reg_c = v[2] as usize;
            },
            Mnemonic::Addi | Mnemonic::Sw | Mnemonic::Lw | Mnemonic::Beq => {
                i.op = match m {
                    Mnemonic::Addi => Opcode::ADDI,
                    Mnemonic::Sw => Opcode::SW,
                    Mnemonic::Lw => Opcode::LW,
                    _ => Opcode::BEQ,
                };
                i.format = Format::RRI;
                i.reg_a = v[0] as usize;
                i.reg_b = v[1] as usize;
                i.s_immed = v[2] as i8;
            },
            Mnemonic::Jalr => {
                i.op = Opcode::JALR;
                i.format = Format::RRI;
                i.reg_a = v[0] as usize;
                i.reg_b = v[1] as usize;
            },
            Mnemonic::Lui => {
                i.op = Opcode::LUI;
                i.format = Format::RI;
                i.reg_a = v[0] as usize;
                i.u_immed = v[1] as u16;
            },
            Mnemonic::Lli => {
                i.op = Opcode::ADDI;
                i.format = Format::RRI;
                i.reg_a = v[0] as usize;
                i.reg_b = v[0] as usize;
                i.s_immed = v[1] as i8;
            },
            Mnemonic::Nop => {},
            Mnemonic::Halt => {
                i.op = Opcode::HALT;
            },
            Mnemonic::Fill => {
                i.op = Opcode::FILL;
                i.fill_value = v[0] as i16;
            },
        }
        i
    }

    /// Decodes one source line. The line is taken as it is: no whitespace is
    /// removed from it.
    pub fn new(line: &str) -> (r: Result<Instruction, InvalidSource>)
        ensures
            match r {
                Ok(i) => decode(line@) == Some(i@) && i@.wf() && faithful(i@),
                Err(e) => decode(line@) is None && e.line == 1,
            },
    {
        let chars = chars_of(line);
        let (sp, f) = scan(&chars);
        let m = match read_mnemonic(&chars, 0, sp) {
            Some(m) => m,
            None => {
                return Err(InvalidSource { line: 1 });
            },
        };
        let ghost fields = operands(line@);
        let kinds = shape_of(m);
        let v = match read_operands(&chars, &f, &kinds, Ghost(fields)) {
            Some(v) => v,
            None => {
                return Err(InvalidSource { line: 1 });
            },
        };
        Ok(Self::assembled(m, &v, String::from_str(line)))
    }

    /// The bubble that the pipeline injects after a control transfer.
    pub fn bubble() -> (r: Instruction)
        ensures
            r@ == bubble(),
            r@.wf(),
    {
        Instruction {
            op: Opcode::ADD,
            format: Format::RRR,
            reg_a: 0,
            reg_b: 0,
            reg_c: 0,
            s_immed: 0,
            u_immed: 0,
            fill_value: 0,
            address: 0,
            text: String::from_str("add 0,0,0"),
        }
    }

    /// This instruction, placed at `address`.
    pub fn at(self, address: usize) -> (r: Instruction)
        ensures
            r@ == self@.at(address as int),
            self@.wf() ==> r@.wf(),
    {
        let mut r = self;
        r.address = address;
        r
    }

    /// What the instruction does.
    pub fn op(&self) -> (r: Opcode)
        ensures
            r == self@.op,
    {
        self.op
    }

    /// The operand layout.
    pub fn format(&self) -> (r: Format)
        ensures
            r == self@.format,
    {
        self.format
    }

    /// Register A: the destination, or the first source of `sw` and `beq`.
    pub fn reg_a(&self) -> (r: usize)
        ensures
            r == self@.reg_a,
    {
        self.reg_a
    }

    /// Register B.
    pub fn reg_b(&self) -> (r: usize)
        ensures
            r == self@.reg_b,
    {
        self.reg_b
    }

    /// Register C.
    pub fn reg_c(&self) -> (r: usize)
        ensures
            r == self@.reg_c,
    {
        self.reg_c
    }

    /// The signed 7-bit immediate.
    pub fn s_immed(&self) -> (r: i8)
        ensures
            r == self@.s_immed,
    {
        self.s_immed
    }

    /// The unsigned 10-bit immediate of `lui`.
    pub fn u_immed(&self) -> (r: u16)
        ensures
            r == self@.u_immed,
    {
        self.u_immed
    }

    /// The word that a `.fill` carries.
    pub fn fill_value(&self) -> (r: i16)
        ensures
            r == self@.fill_value,
    {
        self.fill_value
    }

    /// The position of the instruction in its program.
    pub fn address(&self) -> (r: usize)
        ensures
            r == self@.address,
    {
        self.address
    }

    /// The source text this instruction was decoded from.
    pub fn text(&self) -> (r: &str)
        ensures
            r@ == self@.text,
    {
        self.text.as_str()
    }
}

} // verus!
