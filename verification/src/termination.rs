//! Programs that run into a `halt` through register arithmetic, loads, stores
//! and forward branches stop within a bounded number of cycles, whatever
//! follows the `halt` in the source.

use crate::execute::{is_halt, lemma_execute_preserves};
use crate::instruction::{InstructionView, Opcode};
use crate::latency::{LatencyTable, STAGE_COUNT};
use crate::pipeline::{PipelineView, StageView};
use crate::program::ProgramView;
use crate::reachable::{
    lemma_advance_wf, lemma_count_wf, lemma_fire_wf, lemma_initial_wf, lemma_refill_wf,
    lemma_stage_step_wf, run,
};
use crate::status::{FaultKind, Status};
use vstd::prelude::*;

verus! {

/// Whether `i` reads or writes memory.
pub open spec fn touches_memory(i: InstructionView) -> bool {
    i.op == Opcode::LW || i.op == Opcode::SW
}

/// Whether `i` lets the program counter move on by itself and does not stop
/// the run by its kind: register arithmetic, a load or a store. Halts,
/// branches, jumps and data words are not plain.
pub open spec fn plain(i: InstructionView) -> bool {
    ||| i.op == Opcode::ADD
    ||| i.op == Opcode::ADDI
    ||| i.op == Opcode::NAND
    ||| i.op == Opcode::LUI
    ||| i.op == Opcode::LW
    ||| i.op == Opcode::SW
}

/// Whether `i` is a branch that can only lead forward and not past address
/// `h`: its target lies between the next address and `h`, and so does the
/// address behind the fetch that it squashes.
pub open spec fn forward(i: InstructionView, h: int) -> bool {
    &&& i.op == Opcode::BEQ
    &&& 0 <= i.s_immed
    &&& i.address + 1 + i.s_immed <= h
    &&& i.address + 2 <= h
}

/// Whether `i` leads on towards address `h`: a plain instruction or a
/// forward branch.
pub open spec fn stepping(i: InstructionView, h: int) -> bool {
    plain(i) || forward(i, h)
}

/// Whether `i` may stand in a program that is said to touch memory or not.
pub open spec fn admitted(i: InstructionView, memory: bool) -> bool {
    memory || !touches_memory(i)
}

/// The program runs into the halt at address `h`: only plain instructions
/// and forward branches stand before it, and the program counter can reach
/// it. What follows the halt is free, but for loads and stores where `memory`
/// is not set.
pub open spec fn runs_into_halt(prog: ProgramView, h: int, memory: bool) -> bool {
    &&& 0 <= h < prog.source.len()
    &&& h < 0x8000
    &&& is_halt(prog.source[h])
    &&& forall|i: int| 0 <= i < h ==> stepping(#[trigger] prog.source[i], h)
    &&& forall|i: int| 0 <= i < prog.source.len() ==> admitted(#[trigger] prog.source[i], memory)
}

/// The ways in which such a run stops: at a halt, or, where the program may
/// touch memory, on an address out of range.
pub open spec fn stopped(status: Status, memory: bool) -> bool {
    status == Status::Halted || (memory && status == Status::Fault(FaultKind::AddressOutOfRange))
}

/// Cycles that a slot may still cost: what is left in this stage and the
/// stages behind it.
pub open spec fn weight(slot: StageView, k: int) -> int {
    if slot.instr is None {
        0
    } else {
        (4 - k) * 256 + (slot.cn - slot.ce) + 1
    }
}

/// The slot holds a halt.
pub open spec fn holds_halt(slot: StageView) -> bool {
    slot.instr matches Some(i) && is_halt(i)
}

/// The stage of the halt that is furthest down the pipeline; -1 when no halt
/// is in flight.
pub open spec fn front(s: PipelineView) -> int {
    if holds_halt(s.stages[4]) {
        4
    } else if holds_halt(s.stages[3]) {
        3
    } else if holds_halt(s.stages[2]) {
        2
    } else if holds_halt(s.stages[1]) {
        1
    } else if holds_halt(s.stages[0]) {
        0
    } else {
        -1
    }
}

/// The weight of slot `k` where it stands at or ahead of the front halt.
pub open spec fn counted_weight(s: PipelineView, k: int) -> int {
    if front(s) <= k {
        weight(s.stages[k], k)
    } else {
        0
    }
}

/// The slot holds a branch that has not resolved yet: one in IF, or one in RR
/// that has not fired.
pub open spec fn holds_open_branch(slot: StageView, k: int) -> bool {
    slot.instr matches Some(i) && i.op == Opcode::BEQ && (k == 0 || (k == 1 && !slot.retired))
}

/// What an open branch in slot `k` may still cost while no halt is in
/// flight: the fetch that it squashes and the instruction that it may make
/// the program counter fetch again.
pub open spec fn credit(s: PipelineView, k: int, h: int) -> int {
    if front(s) < 0 && holds_open_branch(s.stages[k], k) {
        2308 * (h - s.stages[k].instr->0.address)
    } else {
        0
    }
}

/// What the instructions from `pc` to `h` may cost once fetched: a full
/// passage for each, and for each the credit that it needs if it is a
/// branch.
pub open spec fn backlog(pc: int, h: int) -> int {
    1154 * ((h + 1 - pc) * (h - pc)) + 1281 * (h + 1 - pc)
}

/// The backlog shrinks by the cost of the instruction that is fetched.
pub proof fn lemma_backlog_step(pc: int, h: int)
    requires
        pc <= h,
    ensures
        backlog(pc, h) == backlog(pc + 1, h) + 2308 * (h - pc) + 1281,
        backlog(pc + 1, h) >= 0,
{
    assert((h + 1 - pc) * (h - pc) == (h - pc) * (h - pc - 1) + 2 * (h - pc)) by (nonlinear_arith);
    assert((h - pc) * (h - pc - 1) >= 0) by (nonlinear_arith)
        requires
            pc <= h,
    ;
}

/// The backlog is the smaller the further the program counter has come.
pub proof fn lemma_backlog_monotone(p: int, q: int, h: int)
    requires
        p <= q <= h + 1,
    ensures
        0 <= backlog(q, h) <= backlog(p, h),
{
    assert(0 <= (h + 1 - q) * (h - q) <= (h + 1 - p) * (h - p)) by (nonlinear_arith)
        requires
            p <= q <= h + 1,
    ;
}

/// A bound on the cycles left until the halt at `h` takes effect: the work
/// in flight at and ahead of the front halt, or, while no halt is in flight,
/// all work in flight, the credit of the open branches and the backlog of
/// what is still to be fetched.
pub open spec fn potential(s: PipelineView, h: int) -> int {
    counted_weight(s, 0) + counted_weight(s, 1) + counted_weight(s, 2) + counted_weight(s, 3)
        + counted_weight(s, 4) + credit(s, 0, h) + credit(s, 1, h) + if front(s) < 0 {
        backlog(s.regs.pc as int, h)
    } else {
        0
    }
}

/// A slot ahead of the front halt holds an instruction that leads on towards
/// `h`; a halt in the slot has not fired; the occupant is admitted.
pub open spec fn settled(s: PipelineView, k: int, h: int, memory: bool) -> bool {
    let slot = s.stages[k];
    slot.instr matches Some(i) ==> {
        &&& front(s) < k ==> stepping(i, h)
        &&& is_halt(i) ==> !slot.retired
        &&& admitted(i, memory)
    }
}

/// While no halt is in flight, the program counter has not passed `h` and
/// stands right behind an open branch: one address behind a branch in IF,
/// and behind a branch in RR by one address more if IF has been refilled.
pub open spec fn on_track(s: PipelineView, h: int) -> bool {
    &&& 0 <= s.regs.pc <= h
    &&& holds_open_branch(s.stages[0], 0) ==> s.regs.pc == s.stages[0].instr->0.address + 1
    &&& holds_open_branch(s.stages[1], 1) ==> {
        ||| s.regs.pc == s.stages[1].instr->0.address + 1 && s.stages[0].instr is None
        ||| s.regs.pc == s.stages[1].instr->0.address + 2 && s.stages[0].instr is Some
    }
}

/// What every running state satisfies on the way into the halt at `h`.
pub open spec fn steady(s: PipelineView, h: int, memory: bool) -> bool {
    &&& s.wf()
    &&& runs_into_halt(s.prog, h, memory)
    &&& settled(s, 0, h, memory)
    &&& settled(s, 1, h, memory)
    &&& settled(s, 2, h, memory)
    &&& settled(s, 3, h, memory)
    &&& settled(s, 4, h, memory)
    &&& front(s) < 0 ==> on_track(s, h)
    &&& front(s) == 0 ==> !holds_open_branch(s.stages[1], 1)
}

/// The two slots have the same occupant and the same counters.
pub open spec fn same_slot(a: StageView, b: StageView) -> bool {
    a.instr == b.instr && a.ce == b.ce && a.cn == b.cn
}

/// Nothing moved at or ahead of the front halt between the two states; while
/// no halt is in flight, nothing moved at all.
pub open spec fn unmoved(s: PipelineView, t: PipelineView) -> bool {
    &&& front(t) == front(s)
    &&& front(s) <= 0 ==> same_slot(s.stages[0], t.stages[0])
    &&& front(s) <= 1 ==> same_slot(s.stages[1], t.stages[1])
    &&& front(s) <= 2 ==> same_slot(s.stages[2], t.stages[2])
    &&& front(s) <= 3 ==> same_slot(s.stages[3], t.stages[3])
    &&& same_slot(s.stages[4], t.stages[4])
    &&& front(s) < 0 ==> s.regs.pc == t.regs.pc
}

/// The five slots of a well-formed state are well formed, and the potential
/// is not negative.
proof fn lemma_slots_wf(s: PipelineView, h: int, memory: bool)
    requires
        steady(s, h, memory),
    ensures
        s.stages[0].wf(),
        s.stages[1].wf(),
        s.stages[2].wf(),
        s.stages[3].wf(),
        s.stages[4].wf(),
        potential(s, h) >= 0,
{
    if front(s) < 0 {
        lemma_backlog_monotone(s.regs.pc as int, s.regs.pc as int, h);
    }
}

/// In a steady state, the effect of a stage stops the run in an expected
/// way, or resolves a branch and lowers the potential, or moves nothing at
/// or ahead of the front halt.
proof fn lemma_fire_steady(s: PipelineView, k: int, h: int, memory: bool)
    requires
        steady(s, h, memory),
        s.status == Status::Running,
        0 <= k < STAGE_COUNT,
    ensures
        s.fire(k).status == Status::Running || stopped(s.fire(k).status, memory),
        s.fire(k).status == Status::Running ==> {
            &&& steady(s.fire(k), h, memory)
            &&& potential(s.fire(k), h) <= potential(s, h)
            &&& potential(s.fire(k), h) < potential(s, h) || unmoved(s, s.fire(k))
            &&& s.fire(k).stages[k].ready() == s.stages[k].ready()
            &&& s.fire(k).stages[k].instr == s.stages[k].instr
            &&& k < 4 ==> (s.fire(k).stages[k + 1].instr is None) == (s.stages[k + 1].instr is None)
            &&& k == 4 && s.stages[4].ready() ==> !holds_halt(s.stages[4])
        },
{
    lemma_slots_wf(s, h, memory);
    lemma_fire_wf(s, k);
    let slot = s.stages[k];
    let t = s.fire(k);
    if slot.instr is Some {
        lemma_execute_preserves(slot.instr->0, s.regs, s.prog);
    }
    if slot.ready() && !slot.retired && k == 1 && t.status == Status::Running && front(s) < 1
        && slot.instr->0.op == Opcode::BEQ {
        let next = slot.instr->0.address + 1;
        lemma_backlog_step(next, h);
        lemma_backlog_monotone(next, s.regs.pc as int, h);
        lemma_backlog_monotone(next, t.regs.pc as int, h);
    }
}

/// In a steady state, moving the occupant of stage `k` on lowers the
/// potential, or nothing at or ahead of the front halt was there to move.
proof fn lemma_advance_steady(s: PipelineView, k: int, h: int, memory: bool)
    requires
        steady(s, h, memory),
        s.status == Status::Running,
        0 <= k < 4,
    ensures
        ({
            let t = s.advance(k);
            &&& t.status == Status::Running
            &&& steady(t, h, memory)
            &&& potential(t, h) <= potential(s, h)
            &&& potential(t, h) < potential(s, h) || (unmoved(s, t) && (front(s) <= k ==> !(
            s.stages[k].ready() && s.stages[k + 1].instr is None)))
        }),
{
    lemma_slots_wf(s, h, memory);
    lemma_advance_wf(s, k);
}

/// In a steady state, the work of a stage before WB stops the run in an
/// expected way, or lowers the potential, or finds nothing to move at or
/// ahead of the front halt.
proof fn lemma_stage_step_steady(s: PipelineView, k: int, h: int, memory: bool)
    requires
        steady(s, h, memory),
        s.status == Status::Running,
        0 <= k < 4,
    ensures
        ({
            let t = s.stage_step(k);
            &&& t.status == Status::Running || stopped(t.status, memory)
            &&& t.status == Status::Running ==> {
                &&& steady(t, h, memory)
                &&& potential(t, h) <= potential(s, h)
                &&& potential(t, h) < potential(s, h) || (unmoved(s, t) && (front(s) <= k ==> !(
                s.stages[k].ready() && s.stages[k + 1].instr is None)))
            }
        }),
{
    lemma_fire_steady(s, k, h, memory);
    if s.fire(k).status == Status::Running {
        lemma_advance_steady(s.fire(k), k, h, memory);
    }
}

/// In a steady state, a ready occupant that leaves WB lowers the potential.
proof fn lemma_retire_steady(s: PipelineView, h: int, memory: bool)
    requires
        steady(s, h, memory),
        s.status == Status::Running,
        s.stages[4].ready() ==> !holds_halt(s.stages[4]),
    ensures
        ({
            let t = s.retire();
            &&& t.status == Status::Running
            &&& steady(t, h, memory)
            &&& potential(t, h) <= potential(s, h)
            &&& potential(t, h) < potential(s, h) || (unmoved(s, t) && !s.stages[4].ready())
        }),
{
    lemma_slots_wf(s, h, memory);
    lemma_stage_step_wf(s, 4);
}

/// In a steady state, the work of WB stops the run in an expected way, or
/// lowers the potential, or finds WB without a ready occupant.
proof fn lemma_write_back_steady(s: PipelineView, h: int, memory: bool)
    requires
        steady(s, h, memory),
        s.status == Status::Running,
    ensures
        ({
            let t = s.stage_step(4);
            &&& t.status == Status::Running || stopped(t.status, memory)
            &&& t.status == Status::Running ==> {
                &&& steady(t, h, memory)
                &&& potential(t, h) <= potential(s, h)
                &&& potential(t, h) < potential(s, h) || (unmoved(s, t) && !s.stages[4].ready())
            }
        }),
{
    lemma_fire_steady(s, 4, h, memory);
    if s.fire(4).status == Status::Running {
        lemma_retire_steady(s.fire(4), h, memory);
    }
}

/// In a steady state, refilling IF lowers the potential or moves nothing at
/// or ahead of the front halt; while no halt is in flight, IF was occupied
/// when nothing moved.
proof fn lemma_refill_steady(s: PipelineView, h: int, memory: bool)
    requires
        steady(s, h, memory),
        s.status == Status::Running,
    ensures
        ({
            let t = s.refill();
            &&& t.status == Status::Running
            &&& steady(t, h, memory)
            &&& potential(t, h) <= potential(s, h)
            &&& potential(t, h) < potential(s, h) || (unmoved(s, t) && (front(s) < 0
                ==> s.stages[0].instr is Some))
        }),
{
    lemma_slots_wf(s, h, memory);
    lemma_refill_wf(s);
    if front(s) < 0 {
        lemma_backlog_step(s.regs.pc as int, h);
    }
}

/// In a steady state, the end-of-cycle count lowers the potential unless
/// every occupant at or ahead of the front halt was ready.
proof fn lemma_count_steady(s: PipelineView, h: int, memory: bool)
    requires
        steady(s, h, memory),
        s.status == Status::Running,
    ensures
        ({
            let t = s.count();
            &&& t.status == Status::Running
            &&& steady(t, h, memory)
            &&& potential(t, h) <= potential(s, h)
            &&& potential(t, h) < potential(s, h) || {
                &&& front(s) <= 0 && s.stages[0].instr is Some ==> s.stages[0].ready()
                &&& front(s) <= 1 && s.stages[1].instr is Some ==> s.stages[1].ready()
                &&& front(s) <= 2 && s.stages[2].instr is Some ==> s.stages[2].ready()
                &&& front(s) <= 3 && s.stages[3].instr is Some ==> s.stages[3].ready()
                &&& s.stages[4].instr is Some ==> s.stages[4].ready()
            }
        }),
{
    lemma_slots_wf(s, h, memory);
    lemma_count_wf(s);
}

/// A steady state is not drained: a halt is in flight or can be fetched.
proof fn lemma_settle_steady(s: PipelineView, h: int, memory: bool)
    requires
        steady(s, h, memory),
        s.status == Status::Running,
    ensures
        s.settle() == s,
{
}

/// In a steady state, the end of a cycle leaves the run going, and lowers the
/// potential unless, at and ahead of the front halt, every occupant was ready
/// and IF could not be refilled.
proof fn lemma_close_steady(s: PipelineView, h: int, memory: bool)
    requires
        steady(s, h, memory),
        s.status == Status::Running,
    ensures
        ({
            let t = s.refill().count().settle();
            &&& t.status == Status::Running
            &&& steady(t, h, memory)
            &&& potential(t, h) <= potential(s, h)
            &&& potential(t, h) < potential(s, h) || {
                &&& front(s) < 0 ==> s.stages[0].instr is Some
                &&& front(s) <= 0 && s.stages[0].instr is Some ==> s.stages[0].ready()
                &&& front(s) <= 1 && s.stages[1].instr is Some ==> s.stages[1].ready()
                &&& front(s) <= 2 && s.stages[2].instr is Some ==> s.stages[2].ready()
                &&& front(s) <= 3 && s.stages[3].instr is Some ==> s.stages[3].ready()
                &&& s.stages[4].instr is Some ==> s.stages[4].ready()
            }
        }),
{
    lemma_refill_steady(s, h, memory);
    lemma_count_steady(s.refill(), h, memory);
    lemma_settle_steady(s.refill().count(), h, memory);
}

/// A cycle of a steady state either stops the run at a halt (or, where the
/// program may touch memory, on an address fault), or leaves a steady state
/// of lower potential.
pub proof fn lemma_tick_steady(s: PipelineView, h: int, memory: bool)
    requires
        steady(s, h, memory),
        s.status == Status::Running,
    ensures
        s.tick().status == Status::Running || stopped(s.tick().status, memory),
        s.tick().status == Status::Running ==> steady(s.tick(), h, memory) && 0 <= potential(
            s.tick(),
            h,
        ) < potential(s, h),
{
    lemma_write_back_steady(s, h, memory);
    let wb = s.stage_step(4);
    if wb.status == Status::Running {
        lemma_stage_step_steady(wb, 3, h, memory);
        let me = wb.stage_step(3);
        if me.status == Status::Running {
            lemma_stage_step_steady(me, 2, h, memory);
            let ex = me.stage_step(2);
            if ex.status == Status::Running {
                lemma_stage_step_steady(ex, 1, h, memory);
                let rr = ex.stage_step(1);
                if rr.status == Status::Running {
                    lemma_stage_step_steady(rr, 0, h, memory);
                    let fetch = rr.stage_step(0);
                    if fetch.status == Status::Running {
                        lemma_close_steady(fetch, h, memory);
                        lemma_slots_wf(s.tick(), h, memory);
                    }
                }
            }
        }
    }
}

/// From a steady running state the run stops within `potential + 1` cycles.
pub proof fn lemma_steady_stops(s: PipelineView, h: int, memory: bool) -> (n: nat)
    requires
        steady(s, h, memory),
        s.status == Status::Running,
    ensures
        1 <= n <= potential(s, h) + 1,
        stopped(run(s, n).status, memory),
    decreases potential(s, h),
{
    lemma_tick_steady(s, h, memory);
    let t = s.tick();
    if t.status == Status::Running {
        let m = lemma_steady_stops(t, h, memory);
        assert(run(s, m + 1) == run(t, m));
        m + 1
    } else {
        assert(run(s, 1) == run(t, 0));
        1
    }
}

/// A program whose first `h` instructions are register arithmetic, loads,
/// stores and forward branches, followed by a halt at address `h`, reaches
/// `Halted` within a number of cycles that `h` bounds, whatever follows the
/// halt. Where the program loads or stores, the run may instead stop on an
/// address out of range.
pub proof fn lemma_halt_is_reached(prog: ProgramView, table: LatencyTable, h: int, memory: bool)
    -> (n: nat)
    requires
        prog.wf(),
        table.wf(),
        runs_into_halt(prog, h, memory),
    ensures
        1 <= n <= backlog(0, h) + 1,
        stopped(run(PipelineView::initial(prog, table), n).status, memory),
        !memory ==> run(PipelineView::initial(prog, table), n).status == Status::Halted,
{
    lemma_initial_wf(prog, table);
    lemma_steady_stops(PipelineView::initial(prog, table), h, memory)
}

} // verus!
