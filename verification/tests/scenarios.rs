use risc16::instruction::InvalidSource;
use risc16::latency::LatencyTable;
use risc16::pipeline::Pipeline;
use risc16::program::Program;
use risc16::status::{FaultKind, Status};

fn lines(text: &[&str]) -> Vec<String> {
    text.iter().map(|l| l.to_string()).collect()
}

/// Cycles within which a program that runs into a halt at address `h` stops.
fn bound(h: u64) -> u64 {
    1154 * (h + 1) * h + 1281 * (h + 1) + 1
}

fn run(text: &[&str], limit: u64) -> (Pipeline, Status, u64) {
    let prog = Program::new(&lines(text)).expect("the program loads");
    let mut p = Pipeline::new(prog, LatencyTable::new());
    let mut n = 0;
    let mut status = Status::Running;
    while status == Status::Running && n < limit {
        status = p.cycle();
        n += 1;
    }
    (p, status, n)
}

#[test]
fn addi_and_add() {
    let (p, status, n) = run(&["addi 1,0,5", "addi 2,0,7", "add 3,1,2", "halt"], 100);
    assert_eq!(status, Status::Halted);
    assert_eq!(p.registers().values(), [0, 5, 7, 12, 0, 0, 0, 0]);
    assert_eq!(p.registers().pc(), 4);
    assert_eq!(n, 12);
    assert_eq!(p.cycle_count(), 11);
}

#[test]
fn nand_realizes_not() {
    let (p, status, _) = run(&["addi 1,0,0", "nand 2,1,1", "halt"], 100);
    assert_eq!(status, Status::Halted);
    assert_eq!(p.registers().get(1), 0);
    assert_eq!(p.registers().get(2), -1);
}

#[test]
fn memory_round_trip() {
    let (p, status, _) =
        run(&["addi 1,0,42", "lui 2,0", "addi 2,2,9", "sw 1,2,0", "lw 3,2,0", "halt"], 100);
    assert_eq!(status, Status::Halted);
    assert_eq!(p.registers().get(3), 42);
    assert_eq!(p.program().read(9), Ok(42));
    assert_eq!(p.program().read(8), Ok(0));
    assert_eq!(p.program().read(10), Ok(0));
}

#[test]
fn memory_round_trip_through_upper_bits() {
    let (p, status, _) =
        run(&["addi 1,0,-7", "lui 2,3", "addi 2,2,5", "sw 1,2,0", "lw 3,2,0", "halt"], 100);
    assert_eq!(status, Status::Halted);
    assert_eq!(p.registers().get(2), 197);
    assert_eq!(p.registers().get(3), -7);
    assert_eq!(p.program().read(197), Ok(-7));
}

#[test]
fn store_into_the_source_is_dropped_in_flight() {
    let (p, status, _) =
        run(&["addi 1,0,42", "lui 2,0", "addi 2,2,5", "sw 1,2,0", "lw 3,2,0", "halt"], 100);
    assert_eq!(status, Status::Halted);
    assert_eq!(p.registers().get(1), 42);
    assert_eq!(p.registers().get(2), 5);
    assert_eq!(p.registers().get(3), 0);
    assert_eq!(p.program().read(5), Ok(0));
    assert_eq!(p.program().fetch(5).unwrap().text(), "halt");
}

#[test]
fn branch_taken() {
    let (p, status, _) = run(
        &["addi 1,0,3", "addi 2,0,3", "beq 1,2,1", "addi 3,0,63", "addi 3,0,7", "halt"],
        100,
    );
    assert_eq!(status, Status::Halted);
    assert_eq!(p.registers().values(), [0, 3, 3, 7, 0, 0, 0, 0]);
}

#[test]
fn immediate_beyond_seven_bits_fails_the_load() {
    let text = ["addi 1,0,3", "addi 2,0,3", "beq 1,2,1", "addi 3,0,99", "addi 3,0,7", "halt"];
    assert_eq!(Program::new(&lines(&text)).err(), Some(InvalidSource { line: 4 }));
}

#[test]
fn jalr_link_and_jump() {
    let (p, status, _) = run(
        &["lui 1,0", "addi 1,1,6", "jalr 2,1", "halt", "halt", "halt", "addi 3,0,1", "halt"],
        200,
    );
    assert_eq!(status, Status::Halted);
    assert_eq!(p.registers().get(2), 3);
    assert_eq!(p.registers().get(3), 1);
    assert_eq!(p.registers().pc(), 8);
}

#[test]
fn fill_read_via_lw() {
    let (p, status, _) = run(&["addi 2,0,3", "lw 1,2,0", "halt", ".fill 1234"], 100);
    assert_eq!(status, Status::Halted);
    assert_eq!(p.registers().get(1), 1234);
    assert_eq!(p.registers().get(2), 3);
}

#[test]
fn executed_fill_faults() {
    let (p, status, _) = run(&["addi 1,0,1", ".fill 7"], 100);
    assert_eq!(status, Status::Fault(FaultKind::FatalMisexecution));
    assert_eq!(p.registers().get(1), 1);
    assert_eq!(p.stage(4).occupant().unwrap().text(), ".fill 7");
}

#[test]
fn load_outside_the_address_space_faults() {
    let (p, status, n) = run(&["addi 1,0,5", "lw 2,0,-1", "addi 3,0,1", "halt"], 100);
    assert_eq!(status, Status::Fault(FaultKind::AddressOutOfRange));
    assert_eq!(p.registers().values(), [0, 5, 0, 0, 0, 0, 0, 0]);
    assert_eq!(p.stage(4).occupant().unwrap().text(), "lw 2,0,-1");
    assert_eq!(p.stage(3).occupant().unwrap().text(), "addi 3,0,1");
    assert_eq!(p.cycle_count(), n - 1);
}

#[test]
fn store_outside_the_address_space_faults() {
    let (p, status, _) = run(&["lui 1,500", "nop", "nop", "nop", "sw 0,1,0", "halt"], 100);
    assert_eq!(status, Status::Fault(FaultKind::AddressOutOfRange));
    assert_eq!(p.registers().get(1), 32000);
    assert_eq!(p.stage(3).occupant().unwrap().text(), "sw 0,1,0");
    assert!(!p.stage(3).retired());
}

#[test]
fn empty_program_drains() {
    let (p, status, n) = run(&[], 100);
    assert_eq!(status, Status::Drained);
    assert_eq!(n, 1);
    assert_eq!(p.cycle_count(), 1);
}

#[test]
fn program_without_halt_drains() {
    let (p, status, n) = run(&["addi 1,0,5", "add 2,1,1"], 100);
    assert_eq!(status, Status::Drained);
    assert_eq!(p.registers().values(), [0, 5, 10, 0, 0, 0, 0, 0]);
    assert_eq!(p.registers().pc(), 2);
    assert_eq!(n, 9);
    assert_eq!(p.cycle_count(), 9);
    for k in 0..5 {
        assert!(p.stage(k).occupant().is_none());
    }
}

#[test]
fn jalr_of_register_zero_halts_at_write_back() {
    let (p, status, n) = run(&["addi 1,0,5", "jalr 0,0", "addi 1,0,9", "addi 2,0,9"], 100);
    assert_eq!(status, Status::Halted);
    assert_eq!(p.registers().values(), [0, 5, 0, 0, 0, 0, 0, 0]);
    assert_eq!(p.stage(4).occupant().unwrap().text(), "jalr 0,0");
    assert_eq!(p.stage(2).occupant().unwrap().text(), "addi 1,0,9");
    assert_eq!(p.stage(1).occupant().unwrap().text(), "addi 2,0,9");
    assert_eq!(n, 8);
}

#[test]
fn backward_branch_loops_until_the_counter_runs_out() {
    let (p, status, _) = run(
        &[
            "addi 1,0,3", "nop", "nop", "nop", "nop",
            "addi 2,2,1", "addi 1,1,-1", "nop", "nop", "nop", "nop",
            "beq 1,0,2", "nop", "beq 0,0,-10", "nop", "halt",
        ],
        1000,
    );
    assert_eq!(status, Status::Halted);
    assert_eq!(p.registers().get(1), 0);
    assert_eq!(p.registers().get(2), 3);
}

#[test]
fn branch_that_falls_through_squashes_the_fetch_behind_it() {
    let (p, status, _) = run(
        &["addi 1,0,1", "nop", "nop", "nop", "nop", "beq 1,0,1", "addi 2,0,5", "addi 3,0,7",
            "halt"],
        100,
    );
    assert_eq!(status, Status::Halted);
    assert_eq!(p.registers().values(), [0, 1, 0, 7, 0, 0, 0, 0]);
}

#[test]
fn register_zero_stays_zero_in_every_cycle() {
    let text = ["addi 0,0,5", "lui 0,7", "nand 0,0,0", "add 0,0,0", "lw 0,0,5", "jalr 0,1",
        "halt"];
    let prog = Program::new(&lines(&text)).unwrap();
    let mut p = Pipeline::new(prog, LatencyTable::new());
    let mut n = 0;
    while p.status() == Status::Running && n < 100 {
        p.cycle();
        assert_eq!(p.registers().get(0), 0);
        n += 1;
    }
    assert_eq!(p.registers().values(), [0; 8]);
}

#[test]
fn straight_line_program_halts_within_the_bound() {
    let text = ["addi 1,0,1", "add 2,1,1", "nand 3,2,2", "lui 4,9", "halt"];
    let mut table = LatencyTable::new();
    for op in [
        risc16::instruction::Opcode::ADD,
        risc16::instruction::Opcode::ADDI,
        risc16::instruction::Opcode::NAND,
        risc16::instruction::Opcode::LUI,
        risc16::instruction::Opcode::HALT,
    ] {
        for stage in 0..5 {
            assert!(table.set(op, stage, 255));
        }
    }
    let prog = Program::new(&lines(&text)).unwrap();
    let mut p = Pipeline::new(prog, table);
    let mut n = 0;
    while p.status() == Status::Running && n < bound(4) {
        p.cycle();
        n += 1;
    }
    assert_eq!(p.status(), Status::Halted);
    assert_eq!(n, 255 * 9 + 1);
    assert_eq!(p.registers().values(), [0, 1, 2, -3, 576, 0, 0, 0]);
}

#[test]
fn halt_is_reached_whatever_follows_it() {
    let text = ["addi 1,0,9", "lui 2,1", "halt", "beq 0,0,-3", "jalr 3,2", ".fill 5", "sw 1,1,0",
        "halt"];
    let mut table = LatencyTable::new();
    assert!(table.set(risc16::instruction::Opcode::HALT, 4, 200));
    assert!(table.set(risc16::instruction::Opcode::BEQ, 1, 3));
    let prog = Program::new(&lines(&text)).unwrap();
    let mut p = Pipeline::new(prog, table);
    let mut n = 0;
    while p.status() == Status::Running && n < bound(2) {
        p.cycle();
        n += 1;
    }
    assert_eq!(p.status(), Status::Halted);
    assert_eq!(p.registers().get(1), 9);
    assert_eq!(p.registers().get(2), 64);
    assert_eq!(p.stage(4).occupant().unwrap().address(), 2);
    assert_eq!(p.program().read(9), Ok(0));
}

#[test]
fn forward_branches_lead_into_the_halt() {
    let text = ["addi 1,0,1", "beq 0,0,0", "nop", "nop", "nop", "beq 1,0,1", "addi 2,0,5",
        "beq 2,0,2", "addi 3,0,7", "addi 4,0,9", "addi 5,0,11", "addi 6,0,13", "halt", "beq 0,0,-13"];
    for latency in [1u8, 2, 7, 255] {
        let mut table = LatencyTable::new();
        for stage in 0..5 {
            assert!(table.set(risc16::instruction::Opcode::BEQ, stage, latency));
            assert!(table.set(risc16::instruction::Opcode::ADD, stage, latency));
        }
        let prog = Program::new(&lines(&text)).unwrap();
        let mut p = Pipeline::new(prog, table);
        let mut n = 0;
        while p.status() == Status::Running && n < bound(12) {
            p.cycle();
            n += 1;
        }
        assert_eq!(p.status(), Status::Halted, "latency {}", latency);
        assert_eq!(p.registers().values(), [0, 1, 0, 0, 0, 11, 13, 0]);
    }
}
