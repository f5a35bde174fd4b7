//! What each instruction does to the registers and the program's data.

use crate::instruction::{Instruction, InstructionView, Opcode};
use crate::program::{Program, ProgramView};
use crate::registers::{wrap16, wrapping_sum, Registers, RegistersView};
use crate::status::{FaultKind, Status};
use vstd::prelude::*;

verus! {

/// The machine state after one instruction's effect, and whether the
/// simulation goes on.
pub ghost struct Effect {
    pub regs: RegistersView,
    pub prog: ProgramView,
    pub status: Status,
}

/// Whether `i` stops the simulation: `halt`, or `jalr 0,0`, which is read as
/// `halt`.
pub open spec fn is_halt(i: InstructionView) -> bool {
    i.op == Opcode::HALT || (i.op == Opcode::JALR && i.reg_a == 0 && i.reg_b == 0)
}

/// The address that a load or store `i` refers to: register B plus the
/// sign-extended immediate.
pub open spec fn effective_address(i: InstructionView, r: RegistersView) -> i16 {
    wrap16(r.regs[i.reg_b] + i.s_immed)
}

/// The word that `lui` loads: the 10-bit immediate shifted left by six bits.
pub open spec fn upper_word(u_immed: int) -> i16 {
    wrap16(u_immed * 64)
}

/// The bitwise complement of the conjunction of two words.
pub open spec fn nand_word(x: i16, y: i16) -> i16 {
    !(x & y)
}

/// The address that follows `i`, as a word.
pub open spec fn next_address(i: InstructionView) -> i16 {
    wrap16(i.address + 1)
}

/// The effect of instruction `i` on registers `r` and program `p`. All
/// arithmetic wraps to 16 bits, writes to register 0 are dropped, and a fault
/// leaves the state as it was. A load into register 0 reads nothing and so
/// cannot fault; `jalr` writes its link before it reads its target.
pub open spec fn execute_spec(i: InstructionView, r: RegistersView, p: ProgramView) -> Effect {
    let same = Effect { regs: r, prog: p, status: Status::Running };
    if is_halt(i) {
        Effect { status: Status::Halted, ..same }
    } else {
        match i.op {
            Opcode::ADD => Effect {
                regs: r.write(i.reg_a, wrap16(r.regs[i.reg_b] + r.regs[i.reg_c])),
                ..same
            },
            Opcode::ADDI => Effect {
                regs: r.write(i.reg_a, wrap16(r.regs[i.reg_b] + i.s_immed)),
                ..same
            },
            Opcode::NAND => Effect {
                regs: r.write(i.reg_a, nand_word(r.regs[i.reg_b], r.regs[i.reg_c])),
                ..same
            },
            Opcode::LUI => Effect { regs: r.write(i.reg_a, upper_word(i.u_immed)), ..same },
            Opcode::SW => {
                let addr = effective_address(i, r);
                if p.addressable(addr as int) {
                    Effect { prog: p.write(addr as int, r.regs[i.reg_a]), ..same }
                } else {
                    Effect { status: Status::Fault(FaultKind::AddressOutOfRange), ..same }
                }
            },
            Opcode::LW => {
                if i.reg_a == 0 {
                    same
                } else {
                    match p.read(effective_address(i, r) as int) {
                        Some(word) => Effect { regs: r.write(i.reg_a, word), ..same },
                        None => Effect {
                            status: Status::Fault(FaultKind::AddressOutOfRange),
                            ..same
                        },
                    }
                }
            },
            Opcode::BEQ => {
                if r.regs[i.reg_a] == r.regs[i.reg_b] {
                    Effect { regs: r.jump(wrap16(i.address + 1 + i.s_immed)), ..same }
                } else {
                    same
                }
            },
            Opcode::JALR => {
                let linked = r.write(i.reg_a, next_address(i));
                Effect { regs: linked.jump(linked.regs[i.reg_b]), ..same }
            },
            Opcode::HALT => Effect { status: Status::Halted, ..same },
            Opcode::FILL => Effect { status: Status::Fault(FaultKind::FatalMisexecution), ..same },
        }
    }
}

/// Whatever the instruction, register 0 stays zero, the source stays as it is
/// and the state stays well formed.
pub proof fn lemma_execute_preserves(i: InstructionView, r: RegistersView, p: ProgramView)
    requires
        i.wf(),
        r.wf(),
        p.wf(),
    ensures
        execute_spec(i, r, p).regs.wf(),
        execute_spec(i, r, p).prog.wf(),
        execute_spec(i, r, p).prog.source == p.source,
        execute_spec(i, r, p).status != Status::Running ==> execute_spec(i, r, p).regs == r
            && execute_spec(i, r, p).prog == p,
        execute_spec(i, r, p).status != Status::Drained,
{
}

/// The word that the integer `x` wraps to.
pub fn word_of(x: i64) -> (r: i16)
    ensures
        r == wrap16(x as int),
{
    let m: i64 = if x >= 0 {
        x % 0x1_0000
    } else {
        0xFFFF - (-(x + 1)) % 0x1_0000
    };
    if m >= 0x8000 {
        (m - 0x1_0000) as i16
    } else {
        m as i16
    }
}

/// Executable form of `is_halt`.
pub fn halts(instr: &Instruction) -> (b: bool)
    ensures
        b == is_halt(instr@),
{
    match instr.op() {
        Opcode::HALT => true,
        Opcode::JALR => instr.reg_a() == 0 && instr.reg_b() == 0,
        _ => false,
    }
}

/// Applies the effect of `instr` to the registers and the program, and says
/// whether the simulation goes on, halts or faults.
pub fn execute(instr: &Instruction, cpuregs: &mut Registers, prog: &mut Program) -> (status:
    Status)
    requires
        instr@.wf(),
        old(cpuregs)@.wf(),
        old(prog)@.wf(),
    ensures
        (Effect { regs: final(cpuregs)@, prog: final(prog)@, status }) == execute_spec(
            instr@,
            old(cpuregs)@,
            old(prog)@,
        ),
        final(cpuregs)@.wf(),
        final(prog)@.wf(),
{
    if halts(instr) {
        return Status::Halted;
    }
    let a = instr.reg_a();
    let b = instr.reg_b();
    let c = instr.reg_c();
    match instr.op() {
        Opcode::ADD => {
            let value = wrapping_sum(cpuregs.get(b), cpuregs.get(c));
            cpuregs.set(a, value);
            Status::Running
        },
        Opcode::ADDI => {
            let value = wrapping_sum(cpuregs.get(b), instr.s_immed() as i16);
            cpuregs.set(a, value);
            Status::Running
        },
        Opcode::NAND => {
            let value = !(cpuregs.get(b) & cpuregs.get(c));
            cpuregs.set(a, value);
            Status::Running
        },
        Opcode::LUI => {
            let value = word_of(instr.u_immed() as i64 * 64);
            cpuregs.set(a, value);
            Status::Running
        },
        Opcode::SW => {
            let addr = wrapping_sum(cpuregs.get(b), instr.s_immed() as i16);
            match prog.write(addr, cpuregs.get(a)) {
                Ok(_) => Status::Running,
                Err(e) => Status::Fault(e),
            }
        },
        Opcode::LW => {
            if a == 0 {
                Status::Running
            } else {
                let addr = wrapping_sum(cpuregs.get(b), instr.s_immed() as i16);
                match prog.read(addr) {
                    Ok(word) => {
                        cpuregs.set(a, word);
                        Status::Running
                    },
                    Err(e) => Status::Fault(e),
                }
            }
        },
        Opcode::BEQ => {
            if cpuregs.get(a) == cpuregs.get(b) {
                let base = (instr.address() % 0x1_0000) as i64;
                let target = word_of(base + 1 + instr.s_immed() as i64);
                cpuregs.set_pc(target);
            }
            Status::Running
        },
        Opcode::JALR => {
            let base = (instr.address() % 0x1_0000) as i64;
            cpuregs.set(a, word_of(base + 1));
            let target = cpuregs.get(b);
            cpuregs.set_pc(target);
            Status::Running
        },
        Opcode::HALT => Status::Halted,
        Opcode::FILL => Status::Fault(FaultKind::FatalMisexecution),
    }
}

} // verus!
