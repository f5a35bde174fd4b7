//! The architectural register file: eight 16-bit registers and a program
//! counter. Register 0 always reads as zero.

use vstd::prelude::*;

verus! {

/// Number of general-purpose registers.
pub const REGISTER_COUNT: usize = 8;

/// The register file.
#[derive(Debug)]
pub struct Registers {
    registers: [i16; 8],
    pcreg: i16,
}

/// The mathematical content of `Registers`.
pub ghost struct RegistersView {
    pub regs: Seq<i16>,
    pub pc: i16,
}

/// The value that the integer `x` has as a 16-bit two's-complement word.
pub open spec fn wrap16(x: int) -> i16 {
    let m = x % 0x1_0000;
    if m >= 0x8000 {
        (m - 0x1_0000) as i16
    } else {
        m as i16
    }
}

impl RegistersView {
    /// Eight registers, the first of which holds zero.
    pub open spec fn wf(self) -> bool {
        self.regs.len() == 8 && self.regs[0] == 0
    }

    /// All registers and the program counter at zero.
    pub open spec fn zeroed() -> RegistersView {
        RegistersView { regs: Seq::new(8, |i: int| 0i16), pc: 0 }
    }

    /// The register file after `value` was written to register `index`: a
    /// write to register 0 is discarded.
    pub open spec fn write(self, index: int, value: i16) -> RegistersView {
        if index == 0 {
            self
        } else {
            RegistersView { regs: self.regs.update(index, value), ..self }
        }
    }

    /// The register file with the program counter at `pc`.
    pub open spec fn jump(self, pc: i16) -> RegistersView {
        RegistersView { pc, ..self }
    }
}

impl View for Registers {
    type V = RegistersView;

    closed spec fn view(&self) -> RegistersView {
        RegistersView { regs: self.registers@, pc: self.pcreg }
    }
}

impl Clone for Registers {
    fn clone(&self) -> (r: Self)
        ensures
            r@ == self@,
    {
        Registers { registers: self.registers, pcreg: self.pcreg }
    }
}

impl Registers {
    /// A zeroed register file.
    pub fn new() -> (r: Registers)
        ensures
            r@ == RegistersView::zeroed(),
            r@.wf(),
    {
        let r = Registers { registers: [0i16; 8], pcreg: 0 };
        assert(r@.regs =~= RegistersView::zeroed().regs);
        r
    }

    /// The value of register `index`.
    pub fn get(&self, index: usize) -> (value: i16)
        requires
            index < 8,
        ensures
            value == self@.regs[index as int],
    {
        self.registers[index]
    }

    /// Writes `value` to register `index`; register 0 stays zero.
    pub fn set(&mut self, index: usize, value: i16)
        requires
            index < 8,
            old(self)@.wf(),
        ensures
            final(self)@ == old(self)@.write(index as int, value),
            final(self)@.wf(),
    {
        if index != 0 {
            self.registers[index] = value;
        }
    }

    /// The program counter.
    pub fn pc(&self) -> (value: i16)
        ensures
            value == self@.pc,
    {
        self.pcreg
    }

    /// Moves the program counter to `value`.
    pub fn set_pc(&mut self, value: i16)
        ensures
            final(self)@ == old(self)@.jump(value),
    {
        self.pcreg = value;
    }

    /// The eight registers, in order.
    pub fn values(&self) -> (r: [i16; 8])
        ensures
            r@ == self@.regs,
    {
        self.registers
    }
}

/// The sum of two words, as a word.
pub fn wrapping_sum(a: i16, b: i16) -> (r: i16)
    ensures
        r == wrap16(a + b),
{
    a.wrapping_add(b)
}

} // verus!
