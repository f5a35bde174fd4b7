//! The five-stage in-order pipeline and its cycle-by-cycle transition.
//!
//! A cycle works through the stages from WB back to IF, because an occupant
//! can only move into a slot that has just been freed. In each stage a ready
//! occupant first receives the effect that the stage owes it, once, and then
//! moves on if the next slot is empty. Registers are written and `halt` takes
//! effect in WB, stores take effect in ME, and branches and jumps resolve in
//! RR, where they also replace the fetch in IF by a bubble. The pipeline
//! neither forwards results nor stalls on a register that is still to be
//! written: the latency table alone decides how long an instruction stays in
//! a stage.
//!
//! `PipelineView::tick` is the transition as a function on states, and
//! `Pipeline::cycle` is proved to compute it.

use crate::execute::{execute, execute_spec, halts, is_halt};
use crate::instruction::{bubble, Instruction, InstructionView, Opcode};
use crate::latency::{LatencyTable, EX, IF, ME, RR, STAGE_COUNT, WB};
use crate::program::{Program, ProgramView};
use crate::registers::{wrap16, wrapping_sum, Registers, RegistersView};
use crate::status::Status;
use vstd::prelude::*;

verus! {

/// One pipeline stage slot: its occupant, the cycles the occupant has spent
/// in the stage and the cycles it has to spend there, and whether the effect
/// that the stage owes the occupant has been applied.
#[derive(Debug)]
pub struct Stage {
    instr: Option<Instruction>,
    ce: u8,
    cn: u8,
    retired: bool,
}

/// The mathematical content of a `Stage`.
pub ghost struct StageView {
    pub instr: Option<InstructionView>,
    pub ce: int,
    pub cn: int,
    pub retired: bool,
}

impl StageView {
    /// A slot without an occupant.
    pub open spec fn empty() -> StageView {
        StageView { instr: None, ce: 0, cn: 0, retired: false }
    }

    /// The slot of `stage` as `instr` enters it.
    pub open spec fn entering(instr: InstructionView, stage: int, table: LatencyTable) -> StageView {
        StageView { instr: Some(instr), ce: 0, cn: table.latency(instr.op, stage), retired: false }
    }

    /// An occupied slot whose occupant has spent its required cycles.
    pub open spec fn ready(self) -> bool {
        self.instr is Some && self.ce >= self.cn
    }

    /// An empty slot has its counters at zero; an occupied one holds a well
    /// formed instruction that has not overstayed a positive latency.
    pub open spec fn wf(self) -> bool {
        match self.instr {
            None => self.ce == 0 && self.cn == 0 && !self.retired,
            Some(i) => i.wf() && 0 <= self.ce <= self.cn && 1 <= self.cn <= u8::MAX,
        }
    }

    /// The IF slot after a control transfer: a bubble takes the place and the
    /// counters of the fetch that it squashes, so that the transfer costs one
    /// slot; where nothing had been fetched, the bubble stands ready.
    pub open spec fn squashed(self, table: LatencyTable) -> StageView {
        match self.instr {
            Some(_) => StageView { instr: Some(bubble()), retired: false, ..self },
            None => StageView {
                instr: Some(bubble()),
                ce: table.latency(Opcode::ADD, IF as int),
                cn: table.latency(Opcode::ADD, IF as int),
                retired: false,
            },
        }
    }

    /// The slot at the end of a cycle: an occupant that is not ready yet has
    /// spent one more cycle.
    pub open spec fn counted(self) -> StageView {
        if self.instr is Some && self.ce < self.cn {
            StageView { ce: self.ce + 1, ..self }
        } else {
            self
        }
    }
}

impl View for Stage {
    type V = StageView;

    closed spec fn view(&self) -> StageView {
        StageView {
            instr: match self.instr {
                Some(i) => Some(i@),
                None => None,
            },
            ce: self.ce as int,
            cn: self.cn as int,
            retired: self.retired,
        }
    }
}

impl Clone for Stage {
    fn clone(&self) -> (r: Self)
        ensures
            r@ == self@,
    {
        Stage {
            instr: match &self.instr {
                Some(i) => Some(i.clone()),
                None => None,
            },
            ce: self.ce,
            cn: self.cn,
            retired: self.retired,
        }
    }
}

impl Stage {
    /// An empty slot.
    pub fn new() -> (r: Stage)
        ensures
            r@ == StageView::empty(),
            r@.wf(),
    {
        Stage { instr: None, ce: 0, cn: 0, retired: false }
    }

    /// Puts `instr` into this slot as the occupant of `stage`, with no cycle
    /// spent and the latency that `table` gives its opcode there.
    pub fn set(&mut self, instr: &Instruction, stage: usize, table: &LatencyTable)
        requires
            stage < STAGE_COUNT,
        ensures
            final(self)@ == StageView::entering(instr@, stage as int, *table),
            instr@.wf() && table.wf() ==> final(self)@.wf(),
    {
        self.instr = Some(instr.clone());
        self.ce = 0;
        self.cn = table.get(instr.op(), stage);
        self.retired = false;
    }

    /// Executable form of `StageView::squashed`.
    fn squash(&mut self, table: &LatencyTable)
        ensures
            final(self)@ == old(self)@.squashed(*table),
    {
        if self.instr.is_none() {
            let ready = table.get(Opcode::ADD, IF);
            self.ce = ready;
            self.cn = ready;
        }
        self.instr = Some(Instruction::bubble());
        self.retired = false;
    }

    /// The occupant, if any.
    pub fn occupant(&self) -> (r: Option<&Instruction>)
        ensures
            match r {
                Some(i) => self@.instr == Some(i@),
                None => self@.instr is None,
            },
    {
        self.instr.as_ref()
    }

    /// Cycles that the occupant has spent in the stage.
    pub fn elapsed(&self) -> (r: u8)
        ensures
            r == self@.ce,
    {
        self.ce
    }

    /// Cycles that the occupant has to spend in the stage.
    pub fn required(&self) -> (r: u8)
        ensures
            r == self@.cn,
    {
        self.cn
    }

    /// Whether the effect that the stage owes the occupant has been applied.
    pub fn retired(&self) -> (r: bool)
        ensures
            r == self@.retired,
    {
        self.retired
    }

    /// Whether the slot holds an occupant that has spent its required cycles.
    pub fn is_ready(&self) -> (r: bool)
        ensures
            r == self@.ready(),
    {
        self.instr.is_some() && self.ce >= self.cn
    }
}

/// The stage in which `i` takes effect: control transfers in RR, stores in ME,
/// everything else, a halt included, in WB.
pub open spec fn effect_stage(i: InstructionView) -> int {
    if is_halt(i) {
        WB as int
    } else {
        match i.op {
            Opcode::BEQ | Opcode::JALR => RR as int,
            Opcode::SW => ME as int,
            _ => WB as int,
        }
    }
}

/// The mathematical content of a `Pipeline`: everything that a cycle reads
/// or changes.
pub ghost struct PipelineView {
    pub stages: Seq<StageView>,
    pub regs: RegistersView,
    pub prog: ProgramView,
    pub table: LatencyTable,
    pub cycle: int,
    pub status: Status,
}

impl PipelineView {
    /// Five well-formed stage slots around well-formed registers, program and
    /// latency table.
    pub open spec fn wf(self) -> bool {
        &&& self.stages.len() == STAGE_COUNT
        &&& forall|k: int| 0 <= k < STAGE_COUNT ==> (#[trigger] self.stages[k]).wf()
        &&& self.regs.wf()
        &&& self.prog.wf()
        &&& self.table.wf()
        &&& 0 <= self.cycle <= u64::MAX
    }

    /// The pipeline before its first cycle: empty slots, zeroed registers.
    pub open spec fn initial(prog: ProgramView, table: LatencyTable) -> PipelineView {
        PipelineView {
            stages: Seq::new(STAGE_COUNT as nat, |k: int| StageView::empty()),
            regs: RegistersView::zeroed(),
            prog,
            table,
            cycle: 0,
            status: Status::Running,
        }
    }

    /// This state with `slot` in stage `k`.
    pub open spec fn with_stage(self, k: int, slot: StageView) -> PipelineView {
        PipelineView { stages: self.stages.update(k, slot), ..self }
    }

    /// Applies the effect that stage `k` owes its occupant, once the occupant
    /// is ready and if it has not been applied before. A halt or a fault only
    /// changes the status. A branch or jump in RR also squashes the fetch in
    /// IF, whether or not the branch is taken.
    pub open spec fn fire(self, k: int) -> PipelineView {
        let slot = self.stages[k];
        if slot.ready() && !slot.retired && effect_stage(slot.instr->0) == k {
            let e = execute_spec(slot.instr->0, self.regs, self.prog);
            if e.status != Status::Running {
                PipelineView { status: e.status, ..self }
            } else {
                let fired = PipelineView { regs: e.regs, prog: e.prog, ..self }.with_stage(
                    k,
                    StageView { retired: true, ..slot },
                );
                if k == RR {
                    fired.with_stage(IF as int, self.stages[IF as int].squashed(self.table))
                } else {
                    fired
                }
            }
        } else {
            self
        }
    }

    /// Moves a ready occupant of stage `k` into the next stage when that one
    /// is empty.
    pub open spec fn advance(self, k: int) -> PipelineView {
        let slot = self.stages[k];
        if slot.ready() && self.stages[k + 1].instr is None {
            self.with_stage(k + 1, StageView::entering(slot.instr->0, k + 1, self.table)).with_stage(
                k,
                StageView::empty(),
            )
        } else {
            self
        }
    }

    /// A ready occupant of WB leaves the pipeline.
    pub open spec fn retire(self) -> PipelineView {
        if self.stages[WB as int].ready() {
            self.with_stage(WB as int, StageView::empty())
        } else {
            self
        }
    }

    /// The work of stage `k` within a cycle: the effect, then the move out of
    /// the stage unless the effect ended the simulation.
    pub open spec fn stage_step(self, k: int) -> PipelineView {
        let fired = self.fire(k);
        if fired.status != Status::Running {
            fired
        } else if k == WB {
            fired.retire()
        } else {
            fired.advance(k)
        }
    }

    /// Fetches the instruction at the program counter into an empty IF slot
    /// and moves the program counter on by one.
    pub open spec fn refill(self) -> PipelineView {
        if self.stages[IF as int].instr is None && self.prog.fetch(self.regs.pc as int) is Some {
            PipelineView { regs: self.regs.jump(wrap16(self.regs.pc + 1)), ..self }.with_stage(
                IF as int,
                StageView::entering(
                    self.prog.fetch(self.regs.pc as int)->0,
                    IF as int,
                    self.table,
                ),
            )
        } else {
            self
        }
    }

    /// The end of a cycle: every occupant that is not ready has spent one more
    /// cycle, and the cycle counter moves on; it stays at its greatest value
    /// once it has reached it.
    pub open spec fn count(self) -> PipelineView {
        PipelineView {
            stages: Seq::new(STAGE_COUNT as nat, |k: int| self.stages[k].counted()),
            cycle: if self.cycle < u64::MAX {
                self.cycle + 1
            } else {
                self.cycle
            },
            ..self
        }
    }

    /// Every slot is empty and the program counter lies outside the source.
    pub open spec fn drained(self) -> bool {
        &&& forall|k: int| 0 <= k < STAGE_COUNT ==> (#[trigger] self.stages[k]).instr is None
        &&& self.prog.fetch(self.regs.pc as int) is None
    }

    /// Declares the pipeline drained when nothing is in flight and nothing
    /// can be fetched.
    pub open spec fn settle(self) -> PipelineView {
        if self.drained() {
            PipelineView { status: Status::Drained, ..self }
        } else {
            self
        }
    }

    /// One cycle. A pipeline that has stopped stays as it is. Otherwise the
    /// stages work from WB back to IF; a halt or a fault stops the cycle where
    /// it occurs and leaves the rest of the state for inspection. Then IF is
    /// refilled, the counters move on and the pipeline may be found drained.
    pub open spec fn tick(self) -> PipelineView {
        if self.status != Status::Running {
            self
        } else {
            let wb = self.stage_step(WB as int);
            if wb.status != Status::Running {
                wb
            } else {
                let me = wb.stage_step(ME as int);
                if me.status != Status::Running {
                    me
                } else {
                    let ex = me.stage_step(EX as int);
                    if ex.status != Status::Running {
                        ex
                    } else {
                        let rr = ex.stage_step(RR as int);
                        if rr.status != Status::Running {
                            rr
                        } else {
                            let fetch = rr.stage_step(IF as int);
                            if fetch.status != Status::Running {
                                fetch
                            } else {
                                fetch.refill().count().settle()
                            }
                        }
                    }
                }
            }
        }
    }
}

/// The simulator: five stage slots over the registers and the program.
#[derive(Debug)]
pub struct Pipeline {
    stages: [Stage; 5],
    regs: Registers,
    prog: Program,
    table: LatencyTable,
    cycle_count: u64,
    status: Status,
}

/// What a host displays after a cycle.
#[derive(Debug)]
pub struct Snapshot {
    pub cycle: u64,
    pub stages: Vec<Stage>,
    pub registers: [i16; 8],
    pub pc: i16,
}

impl View for Pipeline {
    type V = PipelineView;

    closed spec fn view(&self) -> PipelineView {
        PipelineView {
            stages: Seq::new(STAGE_COUNT as nat, |k: int| self.stages[k]@),
            regs: self.regs@,
            prog: self.prog@,
            table: self.table,
            cycle: self.cycle_count as int,
            status: self.status,
        }
    }
}

impl Pipeline {
    /// A pipeline about to run `prog` under the latencies of `table`.
    pub fn new(prog: Program, table: LatencyTable) -> (p: Pipeline)
        requires
            prog@.wf(),
            table.wf(),
        ensures
            p@ == PipelineView::initial(prog@, table),
            p@.wf(),
    {
        let p = Pipeline {
            stages: [Stage::new(), Stage::new(), Stage::new(), Stage::new(), Stage::new()],
            regs: Registers::new(),
            prog,
            table,
            cycle_count: 0,
            status: Status::Running,
        };
        assert(p@.stages =~= PipelineView::initial(prog@, table).stages);
        p
    }

    /// Executable form of `effect_stage`.
    fn effect_stage_of(instr: &Instruction) -> (k: usize)
        ensures
            k == effect_stage(instr@),
    {
        if halts(instr) {
            WB
        } else {
            match instr.op() {
                Opcode::BEQ | Opcode::JALR => RR,
                Opcode::SW => ME,
                _ => WB,
            }
        }
    }

    /// Executable form of `PipelineView::fire`.
    fn fire(&mut self, k: usize)
        requires
            k < STAGE_COUNT,
            old(self)@.wf(),
        ensures
            final(self)@ == old(self)@.fire(k as int),
            final(self)@.wf(),
    {
        if !self.stages[k].is_ready() || self.stages[k].retired() {
            return ;
        }
        let instr = match self.stages[k].occupant() {
            Some(i) if Self::effect_stage_of(i) == k => i.clone(),
            _ => {
                return ;
            },
        };
        let status = execute(&instr, &mut self.regs, &mut self.prog);
        if status != Status::Running {
            self.status = status;
            return ;
        }
        self.stages[k].retired = true;
        if k == RR {
            self.stages[IF].squash(&self.table);
        }
        assert(self@.stages =~= old(self)@.fire(k as int).stages);
    }

    /// Executable form of `PipelineView::advance`.
    fn advance(&mut self, k: usize)
        requires
            k < WB,
            old(self)@.wf(),
        ensures
            final(self)@ == old(self)@.advance(k as int),
            final(self)@.wf(),
    {
        if !self.stages[k].is_ready() || self.stages[k + 1].occupant().is_some() {
            return ;
        }
        let mut next = Stage::new();
        match self.stages[k].occupant() {
            Some(i) => {
                next.set(i, k + 1, &self.table);
            },
            None => {},
        }
        self.stages[k + 1] = next;
        self.stages[k] = Stage::new();
        assert(self@.stages =~= old(self)@.advance(k as int).stages);
    }

    /// Executable form of `PipelineView::retire`.
    fn retire(&mut self)
        requires
            old(self)@.wf(),
        ensures
            final(self)@ == old(self)@.retire(),
            final(self)@.wf(),
    {
        if self.stages[WB].is_ready() {
            self.stages[WB] = Stage::new();
            assert(self@.stages =~= old(self)@.retire().stages);
        }
    }

    /// Executable form of `PipelineView::stage_step`.
    fn stage_step(&mut self, k: usize)
        requires
            k < STAGE_COUNT,
            old(self)@.wf(),
        ensures
            final(self)@ == old(self)@.stage_step(k as int),
            final(self)@.wf(),
    {
        self.fire(k);
        if self.status != Status::Running {
            return ;
        }
        if k == WB {
            self.retire();
        } else {
            self.advance(k);
        }
    }

    /// Executable form of `PipelineView::refill`.
    fn refill(&mut self)
        requires
            old(self)@.wf(),
        ensures
            final(self)@ == old(self)@.refill(),
            final(self)@.wf(),
    {
        if self.stages[IF].occupant().is_some() {
            return ;
        }
        let pc = self.regs.pc();
        let mut slot = Stage::new();
        match self.prog.fetch(pc) {
            Some(i) => {
                slot.set(i, IF, &self.table);
            },
            None => {
                return ;
            },
        }
        self.stages[IF] = slot;
        self.regs.set_pc(wrapping_sum(pc, 1));
        assert(self@.stages =~= old(self)@.refill().stages);
    }

    /// Executable form of `PipelineView::count`.
    fn count(&mut self)
        requires
            old(self)@.wf(),
        ensures
            final(self)@ == old(self)@.count(),
            final(self)@.wf(),
    {
        let mut k: usize = 0;
        while k < STAGE_COUNT
            invariant
                k <= STAGE_COUNT,
                self.regs == old(self).regs,
                self.prog == old(self).prog,
                self.table == old(self).table,
                self.cycle_count == old(self).cycle_count,
                self.status == old(self).status,
                self@.wf(),
                old(self)@.wf(),
                forall|j: int|
                    0 <= j < k ==> (#[trigger] self@.stages[j]) == old(self)@.stages[j].counted(),
                forall|j: int|
                    k <= j < STAGE_COUNT ==> (#[trigger] self@.stages[j]) == old(self)@.stages[j],
            decreases STAGE_COUNT - k,
        {
            let ghost before = *self;
            if self.stages[k].occupant().is_some() && self.stages[k].ce < self.stages[k].cn {
                self.stages[k].ce = self.stages[k].ce + 1;
            }
            proof {
                assert(self@.stages[k as int] == before@.stages[k as int].counted());
                assert forall|j: int| 0 <= j < STAGE_COUNT && j != k implies (
                #[trigger] self@.stages[j]) == before@.stages[j] by {}
            }
            k += 1;
        }
        if self.cycle_count < u64::MAX {
            self.cycle_count = self.cycle_count + 1;
        }
        assert(self@.stages =~= old(self)@.count().stages);
    }

    /// Executable form of `PipelineView::settle`.
    fn settle(&mut self)
        requires
            old(self)@.wf(),
        ensures
            final(self)@ == old(self)@.settle(),
            final(self)@.wf(),
    {
        let mut k: usize = 0;
        while k < STAGE_COUNT
            invariant
                k <= STAGE_COUNT,
                *self == *old(self),
                self@.wf(),
                forall|j: int| 0 <= j < k ==> (#[trigger] self@.stages[j]).instr is None,
            decreases STAGE_COUNT - k,
        {
            if self.stages[k].occupant().is_some() {
                assert(self@.stages[k as int].instr is Some);
                return ;
            }
            k += 1;
        }
        if self.prog.fetch(self.regs.pc()).is_none() {
            self.status = Status::Drained;
        }
    }

    /// Runs one cycle and reports the status that it leaves.
    pub fn cycle(&mut self) -> (status: Status)
        requires
            old(self)@.wf(),
        ensures
            final(self)@ == old(self)@.tick(),
            status == final(self)@.status,
            final(self)@.wf(),
    {
        if self.status != Status::Running {
            return self.status;
        }
        self.stage_step(WB);
        if self.status != Status::Running {
            return self.status;
        }
        self.stage_step(ME);
        if self.status != Status::Running {
            return self.status;
        }
        self.stage_step(EX);
        if self.status != Status::Running {
            return self.status;
        }
        self.stage_step(RR);
        if self.status != Status::Running {
            return self.status;
        }
        self.stage_step(IF);
        if self.status != Status::Running {
            return self.status;
        }
        self.refill();
        self.count();
        self.settle();
        self.status
    }

    /// The status that the last cycle left.
    pub fn status(&self) -> (r: Status)
        ensures
            r == self@.status,
    {
        self.status
    }

    /// Number of completed cycles.
    pub fn cycle_count(&self) -> (r: u64)
        ensures
            r == self@.cycle,
    {
        self.cycle_count
    }

    /// The slot of `stage`.
    pub fn stage(&self, stage: usize) -> (r: &Stage)
        requires
            stage < STAGE_COUNT,
        ensures
            r@ == self@.stages[stage as int],
    {
        &self.stages[stage]
    }

    /// The register file.
    pub fn registers(&self) -> (r: &Registers)
        ensures
            r@ == self@.regs,
    {
        &self.regs
    }

    /// The program with its data region.
    pub fn program(&self) -> (r: &Program)
        ensures
            r@ == self@.prog,
    {
        &self.prog
    }

    /// The latency table.
    pub fn table(&self) -> (r: &LatencyTable)
        ensures
            *r == self@.table,
    {
        &self.table
    }

    /// The cycle counter, the five stage slots from IF to WB, the registers
    /// and the program counter.
    pub fn snapshot(&self) -> (r: Snapshot)
        ensures
            r.cycle == self@.cycle,
            r.stages@.len() == STAGE_COUNT,
            forall|k: int| 0 <= k < STAGE_COUNT ==> (#[trigger] r.stages@[k])@ == self@.stages[k],
            r.registers@ == self@.regs.regs,
            r.pc == self@.regs.pc,
    {
        let mut stages: Vec<Stage> = Vec::new();
        let mut k: usize = 0;
        while k < STAGE_COUNT
            invariant
                k <= STAGE_COUNT,
                stages@.len() == k,
                forall|j: int| 0 <= j < k ==> (#[trigger] stages@[j])@ == self@.stages[j],
            decreases STAGE_COUNT - k,
        {
            stages.push(self.stages[k].clone());
            k += 1;
        }
        Snapshot {
            cycle: self.cycle_count,
            stages,
            registers: self.regs.values(),
            pc: self.regs.pc(),
        }
    }
}

} // verus!
