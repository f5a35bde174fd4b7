use risc16::instruction::{Format, Instruction, InvalidSource, Opcode};

fn decoded(line: &str) -> Instruction {
    Instruction::new(line).expect("the line decodes")
}

fn fields(i: &Instruction) -> (Opcode, Format, usize, usize, usize, i8, u16, i16) {
    (i.op(), i.format(), i.reg_a(), i.reg_b(), i.reg_c(), i.s_immed(), i.u_immed(), i.fill_value())
}

#[test]
fn decodes_add() {
    let i = decoded("add 1,2,3");
    assert_eq!(fields(&i), (Opcode::ADD, Format::RRR, 1, 2, 3, 0, 0, 0));
    assert_eq!(i.address(), 0);
    assert_eq!(i.text(), "add 1,2,3");
}

#[test]
fn decodes_nand() {
    assert_eq!(fields(&decoded("nand 7,0,6")), (Opcode::NAND, Format::RRR, 7, 0, 6, 0, 0, 0));
}

#[test]
fn decodes_addi() {
    assert_eq!(fields(&decoded("addi 1,2,-64")), (Opcode::ADDI, Format::RRI, 1, 2, 0, -64, 0, 0));
    assert_eq!(fields(&decoded("addi 1,2,63")), (Opcode::ADDI, Format::RRI, 1, 2, 0, 63, 0, 0));
}

#[test]
fn decodes_loads_and_stores() {
    assert_eq!(fields(&decoded("lw 3,4,5")), (Opcode::LW, Format::RRI, 3, 4, 0, 5, 0, 0));
    assert_eq!(fields(&decoded("sw 3,4,-5")), (Opcode::SW, Format::RRI, 3, 4, 0, -5, 0, 0));
}

#[test]
fn decodes_beq_and_jalr() {
    assert_eq!(fields(&decoded("beq 1,2,1")), (Opcode::BEQ, Format::RRI, 1, 2, 0, 1, 0, 0));
    assert_eq!(fields(&decoded("jalr 2,1")), (Opcode::JALR, Format::RRI, 2, 1, 0, 0, 0, 0));
}

#[test]
fn decodes_lui() {
    assert_eq!(fields(&decoded("lui 5,1023")), (Opcode::LUI, Format::RI, 5, 0, 0, 0, 1023, 0));
    assert_eq!(fields(&decoded("lui 5,0")), (Opcode::LUI, Format::RI, 5, 0, 0, 0, 0, 0));
}

#[test]
fn nop_is_add_of_zero_registers() {
    let i = decoded("nop");
    assert_eq!(fields(&i), (Opcode::ADD, Format::RRR, 0, 0, 0, 0, 0, 0));
    assert_eq!(i.text(), "nop");
}

#[test]
fn lli_is_addi_on_its_own_register() {
    assert_eq!(fields(&decoded("lli 4,17")), (Opcode::ADDI, Format::RRI, 4, 4, 0, 17, 0, 0));
}

#[test]
fn decodes_halt() {
    assert_eq!(fields(&decoded("halt")), (Opcode::HALT, Format::RRR, 0, 0, 0, 0, 0, 0));
}

#[test]
fn decodes_fill() {
    assert_eq!(fields(&decoded(".fill 1234")), (Opcode::FILL, Format::RRR, 0, 0, 0, 0, 0, 1234));
    assert_eq!(decoded(".fill -32768").fill_value(), -32768);
    assert_eq!(decoded(".fill 32767").fill_value(), 32767);
}

#[test]
fn accepts_signs_and_leading_zeros() {
    assert_eq!(decoded("addi +1,02,+5").s_immed(), 5);
    assert_eq!(decoded("addi 1,2,-0").s_immed(), 0);
    assert_eq!(decoded("addi 1,2,0063").s_immed(), 63);
    assert_eq!(decoded("lui 1,+7").u_immed(), 7);
    assert_eq!(decoded("add 007,0,0").reg_a(), 7);
}

#[test]
fn bubble_is_add_of_zero_registers() {
    let b = Instruction::bubble();
    assert_eq!(fields(&b), (Opcode::ADD, Format::RRR, 0, 0, 0, 0, 0, 0));
    assert_eq!(b.text(), "add 0,0,0");
    assert_eq!(fields(&decoded(b.text())), fields(&b));
}

#[test]
fn at_changes_only_the_address() {
    let i = decoded("beq 1,2,3").at(41);
    assert_eq!(i.address(), 41);
    assert_eq!(fields(&i), (Opcode::BEQ, Format::RRI, 1, 2, 0, 3, 0, 0));
    assert_eq!(i.text(), "beq 1,2,3");
}

fn rejected(line: &str) {
    assert_eq!(Instruction::new(line).err(), Some(InvalidSource { line: 1 }), "{:?}", line);
}

#[test]
fn rejects_unknown_mnemonics() {
    rejected("");
    rejected("sub 1,2,3");
    rejected("ADD 1,2,3");
    rejected("addx 1,2,3");
    rejected("fill 3");
    rejected(" add 1,2,3");
}

#[test]
fn rejects_registers_out_of_range() {
    rejected("add 8,0,0");
    rejected("add 0,8,0");
    rejected("add 0,0,8");
    rejected("add -1,0,0");
    rejected("add -0,0,0");
    rejected("jalr 1,9");
    rejected("lui 8,0");
}

#[test]
fn rejects_immediates_out_of_range() {
    rejected("addi 1,2,64");
    rejected("addi 3,0,99");
    rejected("addi 1,2,-65");
    rejected("lw 1,2,64");
    rejected("sw 1,2,-65");
    rejected("beq 1,2,100");
    rejected("lli 1,64");
    rejected("lui 1,1024");
    rejected("lui 1,-1");
    rejected(".fill 32768");
    rejected(".fill -32769");
    rejected("addi 1,2,99999999999999999999999999");
}

#[test]
fn rejects_wrong_operand_counts() {
    rejected("add");
    rejected("add ");
    rejected("add 1,2");
    rejected("add 1,2,3,4");
    rejected("addi 1,2");
    rejected("jalr 1");
    rejected("jalr 1,2,3");
    rejected("lui 1");
    rejected("lli 1");
    rejected("nop ");
    rejected("nop 1");
    rejected("halt 0");
    rejected(".fill");
    rejected(".fill 1,2");
}

#[test]
fn rejects_malformed_operands() {
    rejected("add 1, 2,3");
    rejected("add 1,2,3 ");
    rejected("add  1,2,3");
    rejected("add 1,,3");
    rejected("add 1,2,");
    rejected("add a,b,c");
    rejected("addi 1,2,+");
    rejected("addi 1,2,-");
    rejected("addi 1,2,--1");
    rejected("addi 1,2,0x10");
    rejected("addi 1,2,1.0");
    rejected("add\t1,2,3");
}

#[test]
fn decoding_the_kept_text_gives_the_instruction_again() {
    for line in [
        "add 1,2,3", "nand 7,0,6", "addi 1,2,-64", "lw 3,4,5", "sw 3,4,-5", "beq 1,2,1",
        "jalr 2,1", "jalr 0,0", "lui 5,1023", "nop", "lli 4,17", "halt", ".fill -7",
        "addi +1,02,+5",
    ] {
        let first = decoded(line).at(12);
        let second = decoded(first.text()).at(12);
        assert_eq!(fields(&first), fields(&second));
        assert_eq!(first.address(), second.address());
        assert_eq!(first.text(), second.text());
        assert_eq!(first.text(), line);
    }
}
