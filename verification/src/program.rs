//! The program: the decoded source followed by a fixed data region, seen as
//! one word-addressable space that can only be written in its data part.

use crate::instruction::{
    decode, faithful, Instruction, InstructionView, InvalidSource, Opcode,
};
use crate::status::FaultKind;
use crate::text::{chars_of, trim, trim_bounds};
use vstd::prelude::*;
use vstd::string::StrSliceExecFns;

verus! {

/// Number of words in the data region.
pub const DATA_WORDS: usize = 1000;

/// The instructions of a program and its data region.
#[derive(Debug)]
pub struct Program {
    source: Vec<Instruction>,
    data: Vec<i16>,
}

/// The mathematical content of a `Program`.
pub ghost struct ProgramView {
    pub source: Seq<InstructionView>,
    pub data: Seq<i16>,
}

impl ProgramView {
    /// The data region has its fixed size, and every instruction is well formed
    /// and stamped with its own position.
    pub open spec fn wf(self) -> bool {
        &&& self.data.len() == DATA_WORDS
        &&& forall|i: int|
            0 <= i < self.source.len() ==> (#[trigger] self.source[i]).wf() && self.source[i].address
                == i
    }

    /// The word at `addr`: the value of a `.fill` or zero inside the source,
    /// the stored word inside the data region, nothing elsewhere.
    pub open spec fn read(self, addr: int) -> Option<i16> {
        if 0 <= addr < self.source.len() {
            if self.source[addr].op == Opcode::FILL {
                Some(self.source[addr].fill_value)
            } else {
                Some(0i16)
            }
        } else if self.source.len() <= addr < self.source.len() + self.data.len() {
            Some(self.data[addr - self.source.len()])
        } else {
            None
        }
    }

    /// Whether `addr` lies in the source or in the data region.
    pub open spec fn addressable(self, addr: int) -> bool {
        0 <= addr < self.source.len() + self.data.len()
    }

    /// The program after a store of `value` at the addressable `addr`: stores
    /// into the source are dropped.
    pub open spec fn write(self, addr: int, value: i16) -> ProgramView {
        if self.source.len() <= addr < self.source.len() + self.data.len() {
            ProgramView { data: self.data.update(addr - self.source.len(), value), ..self }
        } else {
            self
        }
    }

    /// Every instruction is, up to its address, what its own text decodes to.
    pub open spec fn faithful(self) -> bool {
        forall|i: int| 0 <= i < self.source.len() ==> faithful(#[trigger] self.source[i])
    }

    /// The instruction to fetch at `pc`, if `pc` lies inside the source.
    pub open spec fn fetch(self, pc: int) -> Option<InstructionView> {
        if 0 <= pc < self.source.len() {
            Some(self.source[pc])
        } else {
            None
        }
    }
}

/// The instruction that line `i` of `lines` stands for once trimmed, stamped
/// with address `i`.
pub open spec fn decode_line(lines: Seq<String>, i: int) -> Option<InstructionView> {
    match decode(trim(lines[i]@)) {
        Some(instr) => Some(instr.at(i)),
        None => None,
    }
}

/// The program that `lines` load as, when every line decodes: one instruction
/// per line and a zeroed data region.
pub open spec fn load(lines: Seq<String>) -> ProgramView {
    ProgramView {
        source: Seq::new(lines.len(), |i: int| decode_line(lines, i)->0),
        data: Seq::new(DATA_WORDS as nat, |i: int| 0i16),
    }
}

/// Every instruction of a loaded program decodes again from the text it
/// keeps, to itself up to its address.
pub proof fn lemma_loaded_round_trip(lines: Seq<String>)
    requires
        forall|j: int| 0 <= j < lines.len() ==> decode_line(lines, j) is Some,
    ensures
        load(lines).faithful(),
{
}

impl View for Program {
    type V = ProgramView;

    closed spec fn view(&self) -> ProgramView {
        ProgramView { source: self.source@.map_values(|i: Instruction| i@), data: self.data@ }
    }
}

impl Program {
    /// Loads a program from its source lines. Each line is trimmed of
    /// surrounding whitespace and decoded; a line that does not decode, a
    /// blank one included, fails the load with its number.
    pub fn new(lines: &Vec<String>) -> (r: Result<Program, InvalidSource>)
        ensures
            match r {
                Ok(p) => {
                    &&& forall|i: int| 0 <= i < lines@.len() ==> decode_line(lines@, i) is Some
                    &&& p@ == load(lines@)
                    &&& p@.wf()
                    &&& p@.faithful()
                },
                Err(e) => {
                    &&& 1 <= e.line <= lines@.len()
                    &&& decode_line(lines@, e.line - 1) is None
                    &&& forall|i: int| 0 <= i < e.line - 1 ==> decode_line(lines@, i) is Some
                },
            },
    {
        let mut source: Vec<Instruction> = Vec::new();
        let mut i: usize = 0;
        while i < lines.len()
            invariant
                i <= lines.len(),
                source@.len() == i,
                forall|j: int|
                    #![trigger decode_line(lines@, j)]
                    #![trigger source@[j]]
                    0 <= j < i ==> decode_line(lines@, j) == Some(source@[j]@),
            decreases lines.len() - i,
        {
            let line = lines[i].as_str();
            let chars = chars_of(line);
            let (lo, hi) = trim_bounds(&chars);
            let trimmed = line.substring_char(lo, hi);
            match Instruction::new(trimmed) {
                Ok(instr) => {
                    source.push(instr.at(i));
                },
                Err(_) => {
                    return Err(InvalidSource { line: i + 1 });
                },
            }
            i += 1;
        }
        let mut data: Vec<i16> = Vec::new();
        let mut k: usize = 0;
        while k < DATA_WORDS
            invariant
                k <= DATA_WORDS,
                data@.len() == k,
                forall|j: int| 0 <= j < k ==> data@[j] == 0,
            decreases DATA_WORDS - k,
        {
            data.push(0);
            k += 1;
        }
        let p = Program { source, data };
        proof {
            assert(p@.source =~= load(lines@).source);
            assert(p@.data =~= load(lines@).data);
            assert forall|j: int| 0 <= j < p@.source.len() implies (#[trigger] p@.source[j]).wf()
                && p@.source[j].address == j by {}
        }
        Ok(p)
    }

    /// Number of instructions: the address at which the data region starts.
    pub fn len(&self) -> (n: usize)
        ensures
            n == self@.source.len(),
    {
        self.source.len()
    }

    /// The word at `addr`.
    pub fn read(&self, addr: i16) -> (r: Result<i16, FaultKind>)
        requires
            self@.wf(),
        ensures
            match r {
                Ok(word) => self@.read(addr as int) == Some(word),
                Err(e) => self@.read(addr as int) is None && e == FaultKind::AddressOutOfRange,
            },
    {
        if addr < 0 {
            return Err(FaultKind::AddressOutOfRange);
        }
        let a = addr as usize;
        let n = self.source.len();
        if a < n {
            let instr = &self.source[a];
            if instr.op() == Opcode::FILL {
                Ok(instr.fill_value())
            } else {
                Ok(0)
            }
        } else if a - n < self.data.len() {
            Ok(self.data[a - n])
        } else {
            Err(FaultKind::AddressOutOfRange)
        }
    }

    /// Stores `value` at `addr`. A store into the source changes nothing; a
    /// store outside the address space fails and changes nothing.
    pub fn write(&mut self, addr: i16, value: i16) -> (r: Result<(), FaultKind>)
        requires
            old(self)@.wf(),
        ensures
            final(self)@.wf(),
            final(self)@.source == old(self)@.source,
            addr < old(self)@.source.len() ==> final(self)@ == old(self)@,
            match r {
                Ok(_) => old(self)@.addressable(addr as int) && final(self)@ == old(self)@.write(
                    addr as int,
                    value,
                ),
                Err(e) => !old(self)@.addressable(addr as int) && final(self)@ == old(self)@ && e
                    == FaultKind::AddressOutOfRange,
            },
    {
        if addr < 0 {
            return Err(FaultKind::AddressOutOfRange);
        }
        let a = addr as usize;
        let n = self.source.len();
        if a < n {
            Ok(())
        } else if a - n < self.data.len() {
            self.data.set(a - n, value);
            Ok(())
        } else {
            Err(FaultKind::AddressOutOfRange)
        }
    }

    /// The instruction at `pc`, when `pc` lies inside the source.
    pub fn fetch(&self, pc: i16) -> (r: Option<&Instruction>)
        ensures
            match r {
                Some(instr) => self@.fetch(pc as int) == Some(instr@),
                None => self@.fetch(pc as int) is None,
            },
    {
        if pc < 0 {
            return None;
        }
        let a = pc as usize;
        if a < self.source.len() {
            Some(&self.source[a])
        } else {
            None
        }
    }
}

} // verus!
