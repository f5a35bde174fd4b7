use risc16::instruction::{InvalidSource, Opcode};
use risc16::program::{Program, DATA_WORDS};
use risc16::registers::{wrapping_sum, Registers};
use risc16::status::FaultKind;

fn lines(text: &[&str]) -> Vec<String> {
    text.iter().map(|l| l.to_string()).collect()
}

fn program(text: &[&str]) -> Program {
    Program::new(&lines(text)).expect("the program loads")
}

#[test]
fn load_stamps_addresses_and_keeps_trimmed_text() {
    let p = program(&["  addi 1,0,5", "add 3,1,2\t", "\u{a0}halt \r"]);
    assert_eq!(p.len(), 3);
    for a in 0..3 {
        assert_eq!(p.fetch(a as i16).unwrap().address(), a);
    }
    assert_eq!(p.fetch(0).unwrap().text(), "addi 1,0,5");
    assert_eq!(p.fetch(1).unwrap().text(), "add 3,1,2");
    assert_eq!(p.fetch(2).unwrap().text(), "halt");
    assert_eq!(p.fetch(2).unwrap().op(), Opcode::HALT);
}

#[test]
fn load_zeroes_the_data_region() {
    let p = program(&["halt"]);
    assert_eq!(DATA_WORDS, 1000);
    for a in 1..=1000 {
        assert_eq!(p.read(a), Ok(0));
    }
    assert_eq!(p.read(1001), Err(FaultKind::AddressOutOfRange));
}

#[test]
fn load_of_nothing_is_an_empty_program() {
    let p = program(&[]);
    assert_eq!(p.len(), 0);
    assert!(p.fetch(0).is_none());
    assert_eq!(p.read(0), Ok(0));
    assert_eq!(p.read(999), Ok(0));
    assert_eq!(p.read(1000), Err(FaultKind::AddressOutOfRange));
}

#[test]
fn load_reports_the_first_offending_line() {
    let e = Program::new(&lines(&["addi 1,0,5", "bogus", "halt", "also bogus"])).err();
    assert_eq!(e, Some(InvalidSource { line: 2 }));
    let e = Program::new(&lines(&["frob"])).err();
    assert_eq!(e, Some(InvalidSource { line: 1 }));
    let e = Program::new(&lines(&["halt", "halt", "addi 1,1,64"])).err();
    assert_eq!(e, Some(InvalidSource { line: 3 }));
}

#[test]
fn load_rejects_blank_lines() {
    assert_eq!(Program::new(&lines(&["halt", ""])).err(), Some(InvalidSource { line: 2 }));
    assert_eq!(Program::new(&lines(&["   ", "halt"])).err(), Some(InvalidSource { line: 1 }));
}

#[test]
fn read_inside_the_source() {
    let p = program(&["addi 1,0,5", ".fill 1234", "halt", ".fill -1"]);
    assert_eq!(p.read(0), Ok(0));
    assert_eq!(p.read(1), Ok(1234));
    assert_eq!(p.read(2), Ok(0));
    assert_eq!(p.read(3), Ok(-1));
    assert_eq!(p.read(4), Ok(0));
}

#[test]
fn read_outside_the_address_space() {
    let p = program(&["halt", "halt"]);
    assert_eq!(p.read(-1), Err(FaultKind::AddressOutOfRange));
    assert_eq!(p.read(i16::MIN), Err(FaultKind::AddressOutOfRange));
    assert_eq!(p.read(1001), Ok(0));
    assert_eq!(p.read(1002), Err(FaultKind::AddressOutOfRange));
    assert_eq!(p.read(i16::MAX), Err(FaultKind::AddressOutOfRange));
}

#[test]
fn write_into_the_data_region() {
    let mut p = program(&["halt", "halt"]);
    assert_eq!(p.write(2, 7), Ok(()));
    assert_eq!(p.write(1001, -9), Ok(()));
    assert_eq!(p.read(2), Ok(7));
    assert_eq!(p.read(1001), Ok(-9));
    assert_eq!(p.read(3), Ok(0));
    assert_eq!(p.write(2, 8), Ok(()));
    assert_eq!(p.read(2), Ok(8));
}

#[test]
fn write_into_the_source_changes_nothing() {
    let mut p = program(&["addi 1,0,5", ".fill 1234", "halt"]);
    for a in 0..3 {
        assert_eq!(p.write(a, 99), Ok(()));
    }
    assert_eq!(p.len(), 3);
    assert_eq!(p.fetch(0).unwrap().text(), "addi 1,0,5");
    assert_eq!(p.fetch(0).unwrap().op(), Opcode::ADDI);
    assert_eq!(p.fetch(0).unwrap().s_immed(), 5);
    assert_eq!(p.fetch(1).unwrap().text(), ".fill 1234");
    assert_eq!(p.fetch(1).unwrap().fill_value(), 1234);
    assert_eq!(p.fetch(2).unwrap().text(), "halt");
    assert_eq!(p.read(0), Ok(0));
    assert_eq!(p.read(1), Ok(1234));
    assert_eq!(p.read(2), Ok(0));
    for a in 3..1003 {
        assert_eq!(p.read(a), Ok(0));
    }
}

#[test]
fn write_outside_the_address_space() {
    let mut p = program(&["halt"]);
    assert_eq!(p.write(-1, 5), Err(FaultKind::AddressOutOfRange));
    assert_eq!(p.write(1001, 5), Err(FaultKind::AddressOutOfRange));
    assert_eq!(p.write(i16::MAX, 5), Err(FaultKind::AddressOutOfRange));
    assert_eq!(p.read(1000), Ok(0));
}

#[test]
fn fetch_outside_the_source() {
    let p = program(&["nop", "halt"]);
    assert!(p.fetch(-1).is_none());
    assert!(p.fetch(2).is_none());
    assert!(p.fetch(i16::MAX).is_none());
    assert_eq!(p.fetch(1).unwrap().text(), "halt");
}

#[test]
fn registers_start_at_zero() {
    let r = Registers::new();
    assert_eq!(r.values(), [0; 8]);
    assert_eq!(r.pc(), 0);
}

#[test]
fn register_zero_discards_writes() {
    let mut r = Registers::new();
    r.set(0, 77);
    assert_eq!(r.get(0), 0);
    r.set(7, -3);
    r.set(1, 12);
    assert_eq!(r.values(), [0, 12, 0, 0, 0, 0, 0, -3]);
    r.set_pc(-5);
    assert_eq!(r.pc(), -5);
    assert_eq!(r.values(), [0, 12, 0, 0, 0, 0, 0, -3]);
    let c = r.clone();
    assert_eq!(c.values(), r.values());
    assert_eq!(c.pc(), -5);
}

#[test]
fn sums_wrap_to_sixteen_bits() {
    assert_eq!(wrapping_sum(1, 2), 3);
    assert_eq!(wrapping_sum(i16::MAX, 1), i16::MIN);
    assert_eq!(wrapping_sum(i16::MIN, -1), i16::MAX);
    assert_eq!(wrapping_sum(i16::MIN, i16::MIN), 0);
    assert_eq!(wrapping_sum(-1, 1), 0);
}
