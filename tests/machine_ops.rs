use lc3sim::core_lc3::CoreLC3;
use lc3sim::defs::{RegAddr, IO_PRIORITY, KEYBOARD_INTERRUPT, OS_SUPER_STACK, STACK_REG, SUPERVISOR_SP_INIT};
use lc3sim::instruction::{
    ConditionCodes, IAdd, IAnd, IBranch, IJump, IJumpSubRoutine, ILoad, INot, IStore,
    InstrOffset6, InstrPCOffset11, InstrPCOffset9, InstrRegImm, InstrRegOnly, InstrRegReg,
};
use lc3sim::machine::{StepFailure, LC3, LC3Access};

/// A user-mode machine at PC 0 with the given registers and no flags.
fn machine_with(regs: [u16; 8], pc: u16) -> CoreLC3 {
    let mut processor = CoreLC3::new();
    processor.set_privileged(false);
    processor.set_priority(0);
    processor.clear_flags();
    for (i, value) in regs.iter().enumerate() {
        processor.set_reg(RegAddr::panic_from_u8(i as u8), *value);
    }
    processor.set_pc(pc);
    processor
}

/// Places `word` at 0x3000 and runs it as one step from there.
fn run_at_user_start(processor: &mut CoreLC3, word: u16) {
    processor.set_mem(0x3000, word);
    processor.set_pc(0x3000);
    processor.step().unwrap();
}

#[test]
fn core_instr_add_imm() {
    let mut processor = machine_with([6, 4, 7, 10, 24, 8, 9, 18], 0x0000);
    let test_instr = IAdd::Imm(InstrRegImm {
        dest_reg: RegAddr::panic_from_u8(1),
        src_reg: RegAddr::panic_from_u8(0),
        imm: 5,
    });
    test_instr.execute(&mut processor).unwrap();
    assert_eq!(processor.reg(RegAddr::One), 11)
}

#[test]
fn core_instr_add_reg() {
    let mut processor = machine_with([6, 4, 7, 10, 24, 8, 9, 18], 0x0000);
    let test_instr = IAdd::Reg(InstrRegReg {
        dest_reg: RegAddr::panic_from_u8(1),
        src_reg_1: RegAddr::panic_from_u8(0),
        src_reg_2: RegAddr::panic_from_u8(3),
    });
    test_instr.execute(&mut processor).unwrap();
    assert_eq!(processor.reg(RegAddr::One), 16)
}

#[test]
fn core_instr_and_imm() {
    let mut processor = machine_with([6, 4, 7, 10, 24, 8, 9, 0], 0x0000);
    let test_instr = IAnd::Imm(InstrRegImm {
        dest_reg: RegAddr::panic_from_u8(1),
        src_reg: RegAddr::panic_from_u8(0),
        imm: 0b0000000000000000,
    });
    test_instr.execute(&mut processor).unwrap();
    assert_eq!(processor.reg(RegAddr::One), 0b0000000000000000);
}

#[test]
fn core_instr_and_reg() {
    let mut processor = machine_with([6, 4, 7, 10, 24, 8, 9, 0], 0x0000);
    let test_instr = IAnd::Reg(InstrRegReg {
        dest_reg: RegAddr::panic_from_u8(1),
        src_reg_1: RegAddr::panic_from_u8(0),
        src_reg_2: RegAddr::panic_from_u8(7),
    });
    test_instr.execute(&mut processor).unwrap();
    assert_eq!(processor.reg(RegAddr::One), 0b0000000000000000);
}

#[test]
fn core_instr_not() {
    let mut processor = machine_with(
        [
            0b0000000011111111,
            0b1111111100000000,
            0b0000111100001111,
            0b1111000011110000,
            0b0011001100110011,
            0b1100110011001100,
            0b0101010101010101,
            0b1010101010101010,
        ],
        0x0000,
    );
    let test_instr = INot(InstrRegOnly {
        dest_reg: RegAddr::panic_from_u8(1),
        src_reg: RegAddr::panic_from_u8(0),
    });
    test_instr.execute(&mut processor).unwrap();
    assert_eq!(processor.reg(RegAddr::One), 0b1111111100000000);
}

#[test]
fn core_instr_branch() {
    let mut processor = machine_with([0, 0, 0, 0, 0, 0, 0, 0], 0x0000);
    let cases = [
        (true, false, false),
        (false, true, false),
        (false, false, true),
        (true, true, false),
        (true, false, true),
        (false, true, true),
        (true, true, true),
    ];
    for (positive, zero, negative) in cases {
        // At most one flag can be set; set the first one the branch tests.
        if positive {
            processor.flag_positive();
        } else if zero {
            processor.flag_zero();
        } else {
            processor.flag_negative();
        }
        let test_instr = IBranch {
            cond_codes: ConditionCodes {
                positive,
                zero,
                negative,
            },
            pc_offset: 0x0002,
        };
        test_instr.execute(&mut processor).unwrap();
        assert_eq!(processor.pc(), 0x0002); //branch should've been taken
        processor.set_pc(0x0000); //reset pc for next test
    }
}

#[test]
fn core_instr_jmp() {
    let mut processor = machine_with(
        [0x3000, 0x0000, 0x1000, 0x0200, 0xff00, 0xfe00, 0x3000, 0x7301],
        0x0000,
    );
    for i in 0..8 {
        let test_instr = IJump::Instr(RegAddr::panic_from_u8(i));
        test_instr.execute(&mut processor).unwrap();
        assert_eq!(processor.pc(), processor.reg(RegAddr::panic_from_u8(i)));
    }
    processor.set_reg(RegAddr::Seven, 0x3000);
    let test_instr: IJump = IJump::Ret;
    test_instr.execute(&mut processor).unwrap();
    assert_eq!(processor.pc(), 0x3000);
}

#[test]
fn core_instr_jsr() {
    let mut processor = machine_with([0; 8], 0x3000);

    // JSR
    let test_instr = IJumpSubRoutine::Offset(InstrPCOffset11 { pc_offset: 0x0006 });
    test_instr.execute(&mut processor).unwrap();
    assert_eq!(processor.pc(), 0x3006);
    assert_eq!(processor.reg(RegAddr::Seven), 0x3000);

    processor.set_pc(0x3000);
    processor.set_reg(RegAddr::One, 0x000A);
    processor.set_reg(RegAddr::Seven, 0x0000);

    // JSRR
    let test_instr = IJumpSubRoutine::Reg(RegAddr::One);
    test_instr.execute(&mut processor).unwrap();
    assert_eq!(processor.pc(), 0x000A);
    assert_eq!(processor.reg(RegAddr::Seven), 0x3000);
}

#[test]
fn core_instr_ld() {
    let mut processor = machine_with([0; 8], 0x3000);

    // LD
    let test_instr: ILoad = ILoad::Std(InstrPCOffset9 {
        target_reg: RegAddr::panic_from_u8(0),
        pc_offset: 0x0005,
    });
    processor.set_mem(0x3006, 0xFF14);
    run_at_user_start(&mut processor, test_instr.into());
    assert_eq!(processor.reg(RegAddr::Zero), 0xFF14);

    // LDI
    processor.set_mem(0x3003, 0x3004);
    processor.set_mem(0x3004, 0xFF14);
    let test_instr: ILoad = ILoad::Indirect(InstrPCOffset9 {
        target_reg: RegAddr::panic_from_u8(1),
        pc_offset: 0x0002,
    });
    run_at_user_start(&mut processor, test_instr.into());
    assert_eq!(processor.reg(RegAddr::One), 0xFF14);

    // LDR
    processor.set_mem(0x300A, 0xFF14);
    processor.set_reg(RegAddr::Two, 0x3009);
    let test_instr: ILoad = ILoad::Reg(InstrOffset6 {
        target_reg: RegAddr::panic_from_u8(3),
        base_reg: RegAddr::panic_from_u8(2),
        offset: 0x0001,
    });
    run_at_user_start(&mut processor, test_instr.into());
    assert_eq!(processor.reg(RegAddr::Three), 0xFF14);

    // LEA
    let test_instr: ILoad = ILoad::Addr(InstrPCOffset9 {
        target_reg: RegAddr::panic_from_u8(4),
        pc_offset: 0x000E,
    });
    run_at_user_start(&mut processor, test_instr.into());
    assert_eq!(processor.reg(RegAddr::Four), 0x300F);
}

#[test]
fn core_instr_st() {
    let mut processor = machine_with([0xFF14, 0, 0, 0, 0, 0, 0, 0], 0x3000);

    // ST
    let test_instr: IStore = IStore::Std(InstrPCOffset9 {
        target_reg: RegAddr::panic_from_u8(0),
        pc_offset: 0x0004,
    });
    run_at_user_start(&mut processor, test_instr.into());
    assert_eq!(processor.mem(0x3005), 0xFF14);

    // STI
    processor.set_mem(0x3003, 0x300A);
    let test_instr: IStore = IStore::Indirect(InstrPCOffset9 {
        target_reg: RegAddr::panic_from_u8(0),
        pc_offset: 0x0002,
    });
    run_at_user_start(&mut processor, test_instr.into());
    assert_eq!(processor.mem(0x300A), 0xFF14);

    // STR
    processor.set_reg(RegAddr::One, 0x3003);
    let test_instr: IStore = IStore::Reg(InstrOffset6 {
        target_reg: RegAddr::panic_from_u8(0),
        base_reg: RegAddr::panic_from_u8(1),
        offset: 0x0003,
    });
    run_at_user_start(&mut processor, test_instr.into());
    assert_eq!(processor.mem(0x3006), 0xFF14);
}

#[test]
fn lib_instr_add_imm() {
    let mut processor = machine_with([6, 4, 7, 10, 24, 8, 9, 18], 0x0000);
    let test_instr = IAdd::Imm(InstrRegImm {
        dest_reg: RegAddr::panic_from_u8(1),
        src_reg: RegAddr::panic_from_u8(0),
        imm: 5,
    });
    test_instr.execute(&mut processor).unwrap();
    assert_eq!(processor.reg(RegAddr::One), 11)
}

#[test]
fn lib_instr_add_reg() {
    let mut processor = machine_with([6, 4, 7, 10, 24, 8, 9, 18], 0x0000);
    let test_instr = IAdd::Reg(InstrRegReg {
        dest_reg: RegAddr::panic_from_u8(1),
        src_reg_1: RegAddr::panic_from_u8(0),
        src_reg_2: RegAddr::panic_from_u8(3),
    });
    test_instr.execute(&mut processor).unwrap();
    assert_eq!(processor.reg(RegAddr::One), 16)
}

#[test]
fn lib_instr_and_imm() {
    let mut processor = machine_with([6, 4, 7, 10, 24, 8, 9, 0], 0x0000);
    let test_instr = IAnd::Imm(InstrRegImm {
        dest_reg: RegAddr::panic_from_u8(1),
        src_reg: RegAddr::panic_from_u8(0),
        imm: 0b0000000000000000,
    });
    test_instr.execute(&mut processor).unwrap();
    assert_eq!(processor.reg(RegAddr::One), 0b0000000000000000);
}

#[test]
fn lib_instr_and_reg() {
    let mut processor = machine_with([6, 4, 7, 10, 24, 8, 9, 0], 0x0000);
    let test_instr = IAnd::Reg(InstrRegReg {
        dest_reg: RegAddr::panic_from_u8(1),
        src_reg_1: RegAddr::panic_from_u8(0),
        src_reg_2: RegAddr::panic_from_u8(7),
    });
    test_instr.execute(&mut processor).unwrap();
    assert_eq!(processor.reg(RegAddr::One), 0b0000000000000000);
}

#[test]
fn lib_instr_not() {
    let mut processor = machine_with(
        [
            0b0000000011111111,
            0b1111111100000000,
            0b0000111100001111,
            0b1111000011110000,
            0b0011001100110011,
            0b1100110011001100,
            0b0101010101010101,
            0b1010101010101010,
        ],
        0x0000,
    );
    let test_instr = INot(InstrRegOnly {
        dest_reg: RegAddr::panic_from_u8(1),
        src_reg: RegAddr::panic_from_u8(0),
    });
    test_instr.execute(&mut processor).unwrap();
    assert_eq!(processor.reg(RegAddr::One), 0b1111111100000000);
}

#[test]
fn lib_instr_branch() {
    let mut processor = machine_with([0, 0, 0, 0, 0, 0, 0, 0], 0x0000);
    let cases = [
        (true, false, false),
        (false, true, false),
        (false, false, true),
        (true, true, false),
        (true, false, true),
        (false, true, true),
        (true, true, true),
    ];
    for (positive, zero, negative) in cases {
        // At most one flag can be set; set the first one the branch tests.
        if positive {
            processor.flag_positive();
        } else if zero {
            processor.flag_zero();
        } else {
            processor.flag_negative();
        }
        let test_instr = IBranch {
            cond_codes: ConditionCodes {
                positive,
                zero,
                negative,
            },
            pc_offset: 0x0002,
        };
        test_instr.execute(&mut processor).unwrap();
        assert_eq!(processor.pc(), 0x0002); //branch should've been taken
        processor.set_pc(0x0000); //reset pc for next test
    }
}

#[test]
fn lib_instr_jmp() {
    let mut processor = machine_with(
        [0x3000, 0x0000, 0x1000, 0x0200, 0xff00, 0xfe00, 0x3000, 0x7301],
        0x0000,
    );
    for i in 0..8 {
        let test_instr = IJump::Instr(RegAddr::panic_from_u8(i));
        test_instr.execute(&mut processor).unwrap();
        assert_eq!(processor.pc(), processor.reg(RegAddr::panic_from_u8(i)));
    }
    processor.set_reg(RegAddr::Seven, 0x3000);
    let test_instr: IJump = IJump::Ret;
    test_instr.execute(&mut processor).unwrap();
    assert_eq!(processor.pc(), 0x3000);
}

#[test]
fn lib_instr_jsr() {
    let mut processor = machine_with([0; 8], 0x3000);

    // JSR
    let test_instr = IJumpSubRoutine::Offset(InstrPCOffset11 { pc_offset: 0x0006 });
    test_instr.execute(&mut processor).unwrap();
    assert_eq!(processor.pc(), 0x3006);
    assert_eq!(processor.reg(RegAddr::Seven), 0x3000);

    processor.set_pc(0x3000);
    processor.set_reg(RegAddr::One, 0x000A);
    processor.set_reg(RegAddr::Seven, 0x0000);

    // JSRR
    let test_instr = IJumpSubRoutine::Reg(RegAddr::One);
    test_instr.execute(&mut processor).unwrap();
    assert_eq!(processor.pc(), 0x000A);
    assert_eq!(processor.reg(RegAddr::Seven), 0x3000);
}

#[test]
fn lib_instr_ld() {
    let mut processor = machine_with([0; 8], 0x3000);

    // LD
    let test_instr: ILoad = ILoad::Std(InstrPCOffset9 {
        target_reg: RegAddr::panic_from_u8(0),
        pc_offset: 0x0005,
    });
    processor.set_mem(0x3006, 0xFF14);
    run_at_user_start(&mut processor, test_instr.into());
    assert_eq!(processor.reg(RegAddr::Zero), 0xFF14);

    // LDI
    processor.set_mem(0x3003, 0x3004);
    processor.set_mem(0x3004, 0xFF14);
    let test_instr: ILoad = ILoad::Indirect(InstrPCOffset9 {
        target_reg: RegAddr::panic_from_u8(1),
        pc_offset: 0x0002,
    });
    run_at_user_start(&mut processor, test_instr.into());
    assert_eq!(processor.reg(RegAddr::One), 0xFF14);

    // LDR
    processor.set_mem(0x300A, 0xFF14);
    processor.set_reg(RegAddr::Two, 0x3009);
    let test_instr: ILoad = ILoad::Reg(InstrOffset6 {
        target_reg: RegAddr::panic_from_u8(3),
        base_reg: RegAddr::panic_from_u8(2),
        offset: 0x0001,
    });
    run_at_user_start(&mut processor, test_instr.into());
    assert_eq!(processor.reg(RegAddr::Three), 0xFF14);

    // LEA
    let test_instr: ILoad = ILoad::Addr(InstrPCOffset9 {
        target_reg: RegAddr::panic_from_u8(4),
        pc_offset: 0x000E,
    });
    run_at_user_start(&mut processor, test_instr.into());
    assert_eq!(processor.reg(RegAddr::Four), 0x300F);
}

#[test]
fn lib_instr_st() {
    let mut processor = machine_with([0xFF14, 0, 0, 0, 0, 0, 0, 0], 0x3000);

    // ST
    let test_instr: IStore = IStore::Std(InstrPCOffset9 {
        target_reg: RegAddr::panic_from_u8(0),
        pc_offset: 0x0004,
    });
    run_at_user_start(&mut processor, test_instr.into());
    assert_eq!(processor.mem(0x3005), 0xFF14);

    // STI
    processor.set_mem(0x3003, 0x300A);
    let test_instr: IStore = IStore::Indirect(InstrPCOffset9 {
        target_reg: RegAddr::panic_from_u8(0),
        pc_offset: 0x0002,
    });
    run_at_user_start(&mut processor, test_instr.into());
    assert_eq!(processor.mem(0x300A), 0xFF14);

    // STR
    processor.set_reg(RegAddr::One, 0x3003);
    let test_instr: IStore = IStore::Reg(InstrOffset6 {
        target_reg: RegAddr::panic_from_u8(0),
        base_reg: RegAddr::panic_from_u8(1),
        offset: 0x0003,
    });
    run_at_user_start(&mut processor, test_instr.into());
    assert_eq!(processor.mem(0x3006), 0xFF14);
}

#[test]
fn priority_reg() {
    let mut processor = CoreLC3::new();
    processor.set_priority(3);
    assert_eq!(processor.priority(), 3);
    processor.set_priority(0);
    assert_eq!(processor.priority(), 0);
}

#[test]
fn priority_out_of_range_ignored() {
    let mut processor = CoreLC3::new();
    processor.set_priority(5);
    processor.set_priority(8);
    assert_eq!(processor.priority(), 5);
    processor.set_priority(255);
    assert_eq!(processor.priority(), 5);
}

#[test]
fn privilege_reg() {
    let mut processor = CoreLC3::new();
    processor.set_privileged(true);
    assert!(processor.privileged());
    processor.set_privileged(false);
    assert!(!processor.privileged());
}

#[test]
fn processor_status_reg() {
    let mut processor = CoreLC3::new();
    processor.set_priority(0);
    processor.set_privileged(true);
    processor.clear_flags();
    assert_eq!(processor.processor_status_reg(), 0);
    processor.set_privileged(false);
    assert_eq!(processor.processor_status_reg(), 0x8000);
    processor.flag_negative();
    assert_eq!(processor.processor_status_reg(), 0x8004);
    processor.flag_zero();
    assert_eq!(processor.processor_status_reg(), 0x8002);
    processor.flag_positive();
    assert_eq!(processor.processor_status_reg(), 0x8001);
    processor.set_priority(5);
    assert_eq!(processor.processor_status_reg(), 0x8501);
}

#[test]
fn psr_set() {
    let mut processor = CoreLC3::new();
    processor.set_priority(0);
    processor.set_privileged(true);
    processor.clear_flags();
    assert_eq!(processor.processor_status_reg(), 0x0000);
    processor.set_privileged(false);
    assert_eq!(processor.processor_status_reg(), 0x8000);
    processor.flag_negative();
    assert_eq!(processor.processor_status_reg(), 0x8004);
    processor.flag_zero();
    assert_eq!(processor.processor_status_reg(), 0x8002);
    processor.flag_positive();
    assert_eq!(processor.processor_status_reg(), 0x8001);
    processor.set_priority(5);
    assert_eq!(processor.processor_status_reg(), 0x8501);
}

#[test]
fn psr_recover() {
    let mut processor = CoreLC3::new();
    const PSR_VAL: u16 = 0x8202;
    const PRIORITY: u8 = 2;

    processor.set_priority(PRIORITY);
    processor.set_privileged(false);
    processor.clear_flags();
    processor.flag_zero();
    assert_eq!(processor.processor_status_reg(), PSR_VAL);

    processor.set_processor_status_reg(0);
    assert_eq!(processor.processor_status_reg(), 0x0000);
    assert!(processor.privileged());
    assert_eq!(processor.priority(), 0);
    assert!(!processor.negative_cond());
    assert!(!processor.zero_cond());
    assert!(!processor.positive_cond());

    processor.set_processor_status_reg(PSR_VAL);
    assert_eq!(processor.processor_status_reg(), PSR_VAL);
    assert!(!processor.privileged());
    assert_eq!(processor.priority(), PRIORITY);
    assert!(!processor.negative_cond());
    assert!(processor.zero_cond());
    assert!(!processor.positive_cond());
}

#[test]
fn psr_negative_bit_restores_negative_flag() {
    let mut processor = CoreLC3::new();
    processor.set_processor_status_reg(0x8304);
    assert!(processor.negative_cond());
    assert!(!processor.positive_cond());
    assert_eq!(processor.priority(), 3);
    assert!(!processor.privileged());
}

#[test]
fn psr_round_trip_on_machine() {
    let mut processor = CoreLC3::new();
    processor.set_priority(6);
    processor.set_privileged(false);
    processor.flag_negative();
    let psr = processor.processor_status_reg();
    processor.set_processor_status_reg(psr);
    assert_eq!(processor.priority(), 6);
    assert!(!processor.privileged());
    assert!(processor.negative_cond());
    assert_eq!(processor.processor_status_reg(), psr);
}

#[test]
fn full_jump() {
    const INIT_STACK_REG: u16 = 63;
    assert!(INIT_STACK_REG != (SUPERVISOR_SP_INIT - 2));

    let mut processor = CoreLC3::new();
    processor.set_privileged(false);
    processor.set_reg(STACK_REG, INIT_STACK_REG);

    // Execute the original interrupt
    processor.interrupt(KEYBOARD_INTERRUPT, Some(IO_PRIORITY));
    assert!(processor.privileged());
    assert_eq!(processor.pc(), KEYBOARD_INTERRUPT + 0x0100);
    assert_eq!(processor.reg(STACK_REG), SUPERVISOR_SP_INIT - 2);

    // Execute the return jump
    processor.set_mem(processor.pc(), IJump::InterRet.into());
    processor.step().unwrap();

    assert_eq!(processor.pc(), OS_SUPER_STACK);
    assert_eq!(processor.reg(STACK_REG), INIT_STACK_REG);
    assert!(!processor.privileged());
}

#[test]
fn invalid_return() {
    let mut processor = CoreLC3::new();
    processor.set_privileged(false);

    // Fail this instruction due to insufficient perms
    processor.set_mem(processor.pc(), IJump::InterRet.into());
    assert!(matches!(
        processor.step(),
        Err(StepFailure::InsufficientPerms(_))
    ));
}
