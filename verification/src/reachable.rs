//! What holds of every state that a run of the pipeline reaches.

use crate::execute::lemma_execute_preserves;
use crate::instruction::{bubble, faithful, lemma_bubble_decodes, InstructionView};
use crate::latency::{LatencyTable, IF, STAGE_COUNT, WB};
use crate::pipeline::{PipelineView, StageView};
use crate::program::ProgramView;
use crate::status::Status;
use vstd::prelude::*;

verus! {

/// The state after `n` cycles from `s`.
pub open spec fn run(s: PipelineView, n: nat) -> PipelineView
    decreases n,
{
    if n == 0 {
        s
    } else {
        run(s.tick(), (n - 1) as nat)
    }
}

/// What a host sees of a state: the cycle counter, the stage slots, the
/// registers and the program counter.
pub ghost struct SnapshotView {
    pub cycle: int,
    pub stages: Seq<StageView>,
    pub registers: Seq<i16>,
    pub pc: i16,
}

/// The snapshot of a state.
pub open spec fn snapshot_of(s: PipelineView) -> SnapshotView {
    SnapshotView { cycle: s.cycle, stages: s.stages, registers: s.regs.regs, pc: s.regs.pc }
}

/// The bubble is a well-formed instruction.
pub proof fn lemma_bubble_wf()
    ensures
        bubble().wf(),
{
}

/// An instruction enters a stage as a well-formed slot.
pub proof fn lemma_entering_wf(i: InstructionView, stage: int, table: LatencyTable)
    requires
        i.wf(),
        table.wf(),
        0 <= stage < STAGE_COUNT,
    ensures
        StageView::entering(i, stage, table).wf(),
{
}

/// Applying a stage's effect keeps the state well formed and the source as it is.
pub proof fn lemma_fire_wf(s: PipelineView, k: int)
    requires
        s.wf(),
        0 <= k < STAGE_COUNT,
    ensures
        s.fire(k).wf(),
        s.fire(k).prog.source == s.prog.source,
        s.fire(k).table == s.table,
{
    let slot = s.stages[k];
    assert(slot.wf());
    if slot.ready() && !slot.retired {
        lemma_execute_preserves(slot.instr->0, s.regs, s.prog);
        lemma_bubble_wf();
    }
    let t = s.fire(k);
    assert forall|j: int| 0 <= j < STAGE_COUNT implies (#[trigger] t.stages[j]).wf() by {
        assert(s.stages[j].wf());
    }
}

/// Moving an occupant on keeps the state well formed.
pub proof fn lemma_advance_wf(s: PipelineView, k: int)
    requires
        s.wf(),
        0 <= k < WB,
    ensures
        s.advance(k).wf(),
{
    let slot = s.stages[k];
    assert(slot.wf());
    if slot.ready() {
        lemma_entering_wf(slot.instr->0, k + 1, s.table);
    }
    let t = s.advance(k);
    assert forall|j: int| 0 <= j < STAGE_COUNT implies (#[trigger] t.stages[j]).wf() by {
        assert(s.stages[j].wf());
    }
}

/// The work of one stage keeps the state well formed and the source as it is.
pub proof fn lemma_stage_step_wf(s: PipelineView, k: int)
    requires
        s.wf(),
        0 <= k < STAGE_COUNT,
    ensures
        s.stage_step(k).wf(),
        s.stage_step(k).prog.source == s.prog.source,
        s.stage_step(k).table == s.table,
{
    lemma_fire_wf(s, k);
    let fired = s.fire(k);
    if fired.status == Status::Running {
        if k == WB {
            let t = fired.retire();
            assert forall|j: int| 0 <= j < STAGE_COUNT implies (#[trigger] t.stages[j]).wf() by {
                assert(fired.stages[j].wf());
            }
        } else {
            lemma_advance_wf(fired, k);
        }
    }
}

/// Refilling IF keeps the state well formed and the program as it is.
pub proof fn lemma_refill_wf(s: PipelineView)
    requires
        s.wf(),
    ensures
        s.refill().wf(),
        s.refill().prog == s.prog,
        s.refill().table == s.table,
{
    let t = s.refill();
    if s.prog.fetch(s.regs.pc as int) is Some {
        lemma_entering_wf(s.prog.fetch(s.regs.pc as int)->0, IF as int, s.table);
    }
    assert forall|j: int| 0 <= j < STAGE_COUNT implies (#[trigger] t.stages[j]).wf() by {
        assert(s.stages[j].wf());
    }
}

/// The end-of-cycle count keeps the state well formed.
pub proof fn lemma_count_wf(s: PipelineView)
    requires
        s.wf(),
    ensures
        s.count().wf(),
        s.count().prog == s.prog,
        s.count().table == s.table,
{
    let t = s.count();
    assert forall|j: int| 0 <= j < STAGE_COUNT implies (#[trigger] t.stages[j]).wf() by {
        assert(s.stages[j].wf());
    }
}

/// The end of a cycle keeps the state well formed and the program as it is.
pub proof fn lemma_close_wf(s: PipelineView)
    requires
        s.wf(),
    ensures
        s.refill().count().settle().wf(),
        s.refill().count().settle().prog == s.prog,
        s.refill().count().settle().table == s.table,
{
    lemma_refill_wf(s);
    lemma_count_wf(s.refill());
}

/// A cycle keeps the state well formed, and leaves the source and the latency
/// table as they are.
pub proof fn lemma_tick_wf(s: PipelineView)
    requires
        s.wf(),
    ensures
        s.tick().wf(),
        s.tick().prog.source == s.prog.source,
        s.tick().table == s.table,
{
    if s.status == Status::Running {
        lemma_stage_step_wf(s, 4);
        let wb = s.stage_step(4);
        if wb.status == Status::Running {
            lemma_stage_step_wf(wb, 3);
            let me = wb.stage_step(3);
            if me.status == Status::Running {
                lemma_stage_step_wf(me, 2);
                let ex = me.stage_step(2);
                if ex.status == Status::Running {
                    lemma_stage_step_wf(ex, 1);
                    let rr = ex.stage_step(1);
                    if rr.status == Status::Running {
                        lemma_stage_step_wf(rr, 0);
                        let fetch = rr.stage_step(0);
                        if fetch.status == Status::Running {
                            lemma_close_wf(fetch);
                        }
                    }
                }
            }
        }
    }
}

/// The program and every instruction in flight are, up to their addresses,
/// what their own texts decode to.
pub open spec fn all_faithful(s: PipelineView) -> bool {
    &&& s.prog.faithful()
    &&& forall|k: int|
        0 <= k < STAGE_COUNT ==> ((#[trigger] s.stages[k]).instr matches Some(i) ==> faithful(i))
}

/// The work of one stage keeps every instruction in flight faithful to its
/// text.
pub proof fn lemma_stage_step_faithful(s: PipelineView, k: int)
    requires
        s.wf(),
        all_faithful(s),
        0 <= k < STAGE_COUNT,
    ensures
        all_faithful(s.stage_step(k)),
{
    lemma_bubble_decodes();
    lemma_fire_wf(s, k);
    let slot = s.stages[k];
    assert(slot.wf());
    if slot.instr is Some {
        lemma_execute_preserves(slot.instr->0, s.regs, s.prog);
    }
    let f = s.fire(k);
    assert forall|j: int| 0 <= j < STAGE_COUNT implies ((#[trigger] f.stages[j]).instr matches Some(
        i,
    ) ==> faithful(i)) by {
        assert(s.stages[j].wf());
    }
    let t = s.stage_step(k);
    assert forall|j: int| 0 <= j < STAGE_COUNT implies ((#[trigger] t.stages[j]).instr matches Some(
        i,
    ) ==> faithful(i)) by {
        assert(f.stages[j].wf());
        assert(f.stages[k].wf());
    }
}

/// The end of a cycle keeps every instruction in flight faithful to its text.
pub proof fn lemma_close_faithful(s: PipelineView)
    requires
        s.wf(),
        all_faithful(s),
    ensures
        all_faithful(s.refill().count().settle()),
{
    let a = s.refill();
    assert forall|j: int| 0 <= j < STAGE_COUNT implies ((#[trigger] a.stages[j]).instr matches Some(
        i,
    ) ==> faithful(i)) by {
        assert(s.stages[j].wf());
    }
    let b = a.count();
    assert forall|j: int| 0 <= j < STAGE_COUNT implies ((#[trigger] b.stages[j]).instr matches Some(
        i,
    ) ==> faithful(i)) by {
        assert(a.stages[j].wf());
    }
}

/// A cycle keeps every instruction in flight faithful to its text.
pub proof fn lemma_tick_faithful(s: PipelineView)
    requires
        s.wf(),
        all_faithful(s),
    ensures
        all_faithful(s.tick()),
{
    if s.status == Status::Running {
        lemma_stage_step_wf(s, 4);
        lemma_stage_step_faithful(s, 4);
        let wb = s.stage_step(4);
        if wb.status == Status::Running {
            lemma_stage_step_wf(wb, 3);
            lemma_stage_step_faithful(wb, 3);
            let me = wb.stage_step(3);
            if me.status == Status::Running {
                lemma_stage_step_wf(me, 2);
                lemma_stage_step_faithful(me, 2);
                let ex = me.stage_step(2);
                if ex.status == Status::Running {
                    lemma_stage_step_wf(ex, 1);
                    lemma_stage_step_faithful(ex, 1);
                    let rr = ex.stage_step(1);
                    if rr.status == Status::Running {
                        lemma_stage_step_wf(rr, 0);
                        lemma_stage_step_faithful(rr, 0);
                        let fetch = rr.stage_step(0);
                        if fetch.status == Status::Running {
                            lemma_close_faithful(fetch);
                        }
                    }
                }
            }
        }
    }
}

/// A pipeline starts out well formed.
pub proof fn lemma_initial_wf(prog: ProgramView, table: LatencyTable)
    requires
        prog.wf(),
        table.wf(),
    ensures
        PipelineView::initial(prog, table).wf(),
{
}

/// Every state of a run is well formed, over the source and the latency table
/// that the run started with.
pub proof fn lemma_run_wf(s: PipelineView, n: nat)
    requires
        s.wf(),
    ensures
        run(s, n).wf(),
        run(s, n).prog.source == s.prog.source,
        run(s, n).table == s.table,
    decreases n,
{
    if n > 0 {
        lemma_tick_wf(s);
        lemma_run_wf(s.tick(), (n - 1) as nat);
    }
}

/// Register 0 holds zero after any number of cycles of any program.
pub proof fn lemma_zero_register(prog: ProgramView, table: LatencyTable, n: nat)
    requires
        prog.wf(),
        table.wf(),
    ensures
        run(PipelineView::initial(prog, table), n).regs.regs[0] == 0,
{
    lemma_initial_wf(prog, table);
    lemma_run_wf(PipelineView::initial(prog, table), n);
}

/// The source of a program stays as it was loaded, whatever the run stores.
pub proof fn lemma_source_fixed(prog: ProgramView, table: LatencyTable, n: nat)
    requires
        prog.wf(),
        table.wf(),
    ensures
        run(PipelineView::initial(prog, table), n).prog.source == prog.source,
{
    lemma_initial_wf(prog, table);
    lemma_run_wf(PipelineView::initial(prog, table), n);
}

/// After any number of cycles, the slots with an occupant are exactly those
/// whose counters satisfy `0 <= ce <= cn` and `cn >= 1`.
pub proof fn lemma_stage_counters(prog: ProgramView, table: LatencyTable, n: nat, k: int)
    requires
        prog.wf(),
        table.wf(),
        0 <= k < STAGE_COUNT,
    ensures
        ({
            let slot = run(PipelineView::initial(prog, table), n).stages[k];
            slot.instr is Some <==> (0 <= slot.ce <= slot.cn && slot.cn >= 1)
        }),
{
    lemma_initial_wf(prog, table);
    lemma_run_wf(PipelineView::initial(prog, table), n);
    assert(run(PipelineView::initial(prog, table), n).stages[k].wf());
}

/// Whatever instruction a run of a loaded program holds in a stage, the
/// bubble included, decoding its text again gives that instruction up to its
/// address.
pub proof fn lemma_round_trip_in_flight(prog: ProgramView, table: LatencyTable, n: nat, k: int)
    requires
        prog.wf(),
        prog.faithful(),
        table.wf(),
        0 <= k < STAGE_COUNT,
    ensures
        run(PipelineView::initial(prog, table), n).stages[k].instr matches Some(i) ==> faithful(i),
{
    let s = PipelineView::initial(prog, table);
    lemma_initial_wf(prog, table);
    lemma_run_faithful(s, n);
    let slot = run(s, n).stages[k];
    assert(slot.instr matches Some(i) ==> faithful(i));
}

/// Every state of a run keeps its instructions faithful to their texts.
pub proof fn lemma_run_faithful(s: PipelineView, n: nat)
    requires
        s.wf(),
        all_faithful(s),
    ensures
        all_faithful(run(s, n)),
    decreases n,
{
    if n > 0 {
        lemma_tick_wf(s);
        lemma_tick_faithful(s);
        lemma_run_faithful(s.tick(), (n - 1) as nat);
    }
}

/// Two runs of the same program under the same latency table show the same
/// snapshot after the same number of cycles.
pub proof fn lemma_deterministic(
    prog: ProgramView,
    table: LatencyTable,
    first: PipelineView,
    second: PipelineView,
    n: nat,
)
    requires
        first == PipelineView::initial(prog, table),
        second == PipelineView::initial(prog, table),
    ensures
        snapshot_of(run(first, n)) == snapshot_of(run(second, n)),
        run(first, n).prog.data == run(second, n).prog.data,
{
}

/// A pipeline that has stopped stays as it is.
pub proof fn lemma_stopped_stays(s: PipelineView, n: nat)
    requires
        s.status != Status::Running,
    ensures
        run(s, n) == s,
    decreases n,
{
    if n > 0 {
        lemma_stopped_stays(s, (n - 1) as nat);
    }
}

} // verus!
