//! The latency table: how many cycles each opcode stays in each pipeline
//! stage. It is the simulator's one tuning surface.

use crate::instruction::Opcode;
use vstd::prelude::*;

verus! {

/// Number of pipeline stages.
pub const STAGE_COUNT: usize = 5;

/// Instruction fetch.
pub const IF: usize = 0;

/// Register read; branches and jumps resolve here.
pub const RR: usize = 1;

/// Execute.
pub const EX: usize = 2;

/// Memory access; stores take effect here.
pub const ME: usize = 3;

/// Write-back; register results and `halt` take effect here.
pub const WB: usize = 4;

/// Required cycles for every opcode in every stage.
#[derive(Clone, Copy, Debug)]
pub struct LatencyTable {
    cells: [u8; 50],
}

/// The row of an opcode in the table.
pub open spec fn row(op: Opcode) -> int {
    match op {
        Opcode::ADD => 0,
        Opcode::ADDI => 1,
        Opcode::NAND => 2,
        Opcode::LUI => 3,
        Opcode::SW => 4,
        Opcode::LW => 5,
        Opcode::BEQ => 6,
        Opcode::JALR => 7,
        Opcode::HALT => 8,
        Opcode::FILL => 9,
    }
}

/// The default latencies: control instructions take one cycle everywhere;
/// all others take two cycles in EX, loads and stores three in ME, and one
/// cycle elsewhere.
pub open spec fn default_latency(op: Opcode, stage: int) -> int {
    match op {
        Opcode::BEQ | Opcode::JALR | Opcode::HALT => 1,
        _ => if stage == EX {
            2
        } else if stage == ME && (op == Opcode::SW || op == Opcode::LW) {
            3
        } else {
            1
        },
    }
}

impl LatencyTable {
    /// Required cycles of `op` in `stage`.
    pub closed spec fn latency(self, op: Opcode, stage: int) -> int {
        self.cells[row(op) * 5 + stage] as int
    }

    /// Every latency is a positive number of cycles.
    pub open spec fn wf(self) -> bool {
        forall|op: Opcode, stage: int|
            0 <= stage < STAGE_COUNT ==> 1 <= #[trigger] self.latency(op, stage) <= u8::MAX
    }

    /// Executable form of `row`.
    fn row_of(op: Opcode) -> (r: usize)
        ensures
            r == row(op),
            r < 10,
    {
        match op {
            Opcode::ADD => 0,
            Opcode::ADDI => 1,
            Opcode::NAND => 2,
            Opcode::LUI => 3,
            Opcode::SW => 4,
            Opcode::LW => 5,
            Opcode::BEQ => 6,
            Opcode::JALR => 7,
            Opcode::HALT => 8,
            Opcode::FILL => 9,
        }
    }

    /// The table of default latencies.
    pub fn new() -> (t: LatencyTable)
        ensures
            t.wf(),
            forall|op: Opcode, stage: int|
                0 <= stage < STAGE_COUNT ==> #[trigger] t.latency(op, stage) == default_latency(
                    op,
                    stage,
                ),
    {
        LatencyTable {
            cells: [
                1, 1, 2, 1, 1,
                1, 1, 2, 1, 1,
                1, 1, 2, 1, 1,
                1, 1, 2, 1, 1,
                1, 1, 2, 3, 1,
                1, 1, 2, 3, 1,
                1, 1, 1, 1, 1,
                1, 1, 1, 1, 1,
                1, 1, 1, 1, 1,
                1, 1, 2, 1, 1,
            ],
        }
    }

    /// Required cycles of `op` in `stage`.
    pub fn get(&self, op: Opcode, stage: usize) -> (cycles: u8)
        requires
            stage < STAGE_COUNT,
        ensures
            cycles == self.latency(op, stage as int),
    {
        self.cells[Self::row_of(op) * 5 + stage]
    }

    /// Sets the required cycles of `op` in `stage`. A stage that does not
    /// exist or a latency of zero is refused and leaves the table as it was.
    pub fn set(&mut self, op: Opcode, stage: usize, cycles: u8) -> (done: bool)
        ensures
            done == (stage < STAGE_COUNT && cycles >= 1),
            done ==> final(self).latency(op, stage as int) == cycles,
            forall|o: Opcode, s: int|
                0 <= s < STAGE_COUNT && !(done && o == op && s == stage) ==> (#[trigger] final(self).latency(
                    o,
                    s,
                )) == old(self).latency(o, s),
            old(self).wf() ==> final(self).wf(),
    {
        if stage < STAGE_COUNT && cycles >= 1 {
            let k = Self::row_of(op) * 5 + stage;
            self.cells[k] = cycles;
            proof {
                assert forall|o: Opcode, s: int|
                    0 <= s < STAGE_COUNT && !(o == op && s == stage) implies #[trigger] self.latency(
                    o,
                    s,
                ) == old(self).latency(o, s) by {}
            }
            true
        } else {
            false
        }
    }
}

} // verus!
