use lc3sim::defs::{LC3Word, RegAddr};
use lc3sim::instruction::{
    InstrOffset6, InstrPCOffset9, IAdd, IAnd, IBranch, IJump, IJumpSubRoutine, ILoad, INot, IStore, InstructionEnum, Trap,
    ADD_OPCODE, AND_OPCODE, BRANCH_OPCODE, GETC, HALT, IN, JMP_OPCODE, JSR_OPCODE, LDI_OPCODE,
    LDR_OPCODE, LD_OPCODE, LEA_OPCODE, NOT_OPCODE, OUT, PUTS, PUTSP, RTI_OPCODE, STI_OPCODE,
    STR_OPCODE, ST_OPCODE, TRAP_OPCODE,
};
use lc3sim::util::shift_to_signed;

/// Bottom opcode bit set: the size of one opcode's range of words.
const TWELVE_SET: u16 = 1 << 12;

const ALL_JUMP_OPCODES: [u8; 2] = [JMP_OPCODE, RTI_OPCODE];
const ALL_LOAD_OPCODES: [u8; 4] = [LD_OPCODE, LDI_OPCODE, LDR_OPCODE, LEA_OPCODE];
const ALL_STORE_OPCODES: [u8; 3] = [ST_OPCODE, STI_OPCODE, STR_OPCODE];

#[test]
fn iadd_reject_invalid_parses() {
    const BITMASK_5: u16 = 1 << 5;
    const BITMASK_4_3: u16 = 0b11 << 3;
    const BASE_OPCODE: u16 = (ADD_OPCODE as u16) << 12;
    let invalid_parses = (BASE_OPCODE..(BASE_OPCODE + TWELVE_SET))
        .filter(|word| (word & BITMASK_5) == 0)
        .filter(|word| (word & BITMASK_4_3) != 0);
    for invalid in invalid_parses {
        assert!(IAdd::parse(invalid).is_none())
    }
}

#[test]
fn iadd_reject_invalid_opcodes() {
    let invalid_opcodes = (0..LC3Word::MAX).filter(|word| (word >> 12) != ADD_OPCODE as u16);
    for invalid in invalid_opcodes {
        assert!(IAdd::parse(invalid).is_none())
    }
}

#[test]
fn iadd_parse_immediates() {
    const BITMASK_5: u16 = 1 << 5;
    const BASE_OPCODE: u16 = (ADD_OPCODE as u16) << 12;
    let base = BASE_OPCODE | BITMASK_5;
    for dr in 0..7 {
        let with_dr = base | (dr << 9);
        for sr in 0..7 {
            let with_sr = with_dr | (sr << 6);
            for imm in 0..0b11111 {
                let full = with_sr | imm;
                if let IAdd::Imm(parsed) = IAdd::parse(full).unwrap() {
                    assert_eq!(parsed.dest_reg as u16, dr);
                    assert_eq!(parsed.src_reg as u16, sr);
                    assert_eq!(parsed.imm, if imm >= 16 { imm | 0xFFE0 } else { imm });
                } else {
                    panic!("Must parse as immediate!")
                }
            }
        }
    }
}

#[test]
fn iadd_parse_reg() {
    const BASE_OPCODE: u16 = (ADD_OPCODE as u16) << 12;
    let base = BASE_OPCODE;
    for dr in 0..7 {
        let with_dr = base | (dr << 9);
        for sr1 in 0..7 {
            let with_sr = with_dr | (sr1 << 6);
            for sr2 in 0..7 {
                let full = with_sr | sr2;
                if let IAdd::Reg(parsed) = IAdd::parse(full).unwrap() {
                    assert_eq!(parsed.dest_reg as u16, dr);
                    assert_eq!(parsed.src_reg_1 as u16, sr1);
                    assert_eq!(parsed.src_reg_2 as u16, sr2);
                } else {
                    panic!("Must parse as register!")
                }
            }
        }
    }
}

#[test]
fn iadd_reconstruct() {
    const BITMASK_5: u16 = 1 << 5;
    const BITMASK_4_3: u16 = 0b11 << 3;
    const BASE_OPCODE: u16 = (ADD_OPCODE as u16) << 12;
    let valid_opcodes = (BASE_OPCODE..(BASE_OPCODE + TWELVE_SET))
        .filter(|word| ((word & BITMASK_5) != 0) || (word & BITMASK_4_3 == 0));
    for valid in valid_opcodes {
        assert_eq!(LC3Word::from(IAdd::parse(valid).unwrap()), valid)
    }
}

#[test]
fn iand_reject_invalid_parses() {
    const BITMASK_5: u16 = 1 << 5;
    const BITMASK_4: u16 = 1 << 5;
    const BITMASK_3: u16 = 1 << 5;
    const BITMASK_4_3: u16 = BITMASK_4 | BITMASK_3;
    const BASE_OPCODE: u16 = (AND_OPCODE as u16) << 12;
    let invalid_parses = (BASE_OPCODE..(BASE_OPCODE + TWELVE_SET))
        .filter(|word| (word & BITMASK_5) == 0)
        .filter(|word| (word & BITMASK_4_3) != 0);
    for invalid in invalid_parses {
        assert!(IAnd::parse(invalid).is_none())
    }
}

#[test]
fn iand_rejects_reserved_bits() {
    // Register form with bits 4-3 set: not a valid encoding.
    for word in [0x5008u16, 0x5010, 0x5018, 0x5E5F] {
        assert!(IAnd::parse(word).is_none());
        assert!(InstructionEnum::parse(word).is_none());
    }
}

#[test]
fn iand_reject_invalid_opcodes() {
    let invalid_opcodes = (0..LC3Word::MAX).filter(|word| (word >> 12) != AND_OPCODE as u16);
    for invalid in invalid_opcodes {
        assert!(IAnd::parse(invalid).is_none())
    }
}

#[test]
fn iand_parse_immediates() {
    const BITMASK_5: u16 = 1 << 5;
    const BASE_OPCODE: u16 = (AND_OPCODE as u16) << 12;
    let base = BASE_OPCODE | BITMASK_5;
    for dr in 0..7 {
        let with_dr = base | (dr << 9);
        for sr in 0..7 {
            let with_sr = with_dr | (sr << 6);
            for imm in 0..0b11111 {
                let full = with_sr | imm;
                if let IAnd::Imm(parsed) = IAnd::parse(full).unwrap() {
                    assert_eq!(parsed.dest_reg as u16, dr);
                    assert_eq!(parsed.src_reg as u16, sr);
                    assert_eq!(parsed.imm, if imm >= 16 { imm | 0xFFE0 } else { imm });
                } else {
                    panic!("Must parse as immediate!")
                }
            }
        }
    }
}

#[test]
fn iand_parse_reg() {
    const BASE_OPCODE: u16 = (AND_OPCODE as u16) << 12;
    let base = BASE_OPCODE;
    for dr in 0..7 {
        let with_dr = base | (dr << 9);
        for sr1 in 0..7 {
            let with_sr = with_dr | (sr1 << 6);
            for sr2 in 0..7 {
                let full = with_sr | sr2;
                if let IAnd::Reg(parsed) = IAnd::parse(full).unwrap() {
                    assert_eq!(parsed.dest_reg as u16, dr);
                    assert_eq!(parsed.src_reg_1 as u16, sr1);
                    assert_eq!(parsed.src_reg_2 as u16, sr2);
                } else {
                    panic!("Must parse as register!")
                }
            }
        }
    }
}

#[test]
fn ibranch_reject_invalid_opcodes() {
    let invalid_opcodes = (0..LC3Word::MAX).filter(|word| (word >> 12) != BRANCH_OPCODE as u16);
    for invalid in invalid_opcodes {
        assert!(IBranch::parse(invalid).is_none())
    }
}

#[test]
fn ibranch_parse() {
    const BITMASK_9: u16 = 1 << 9;
    const BASE_OPCODE: u16 = (BRANCH_OPCODE as u16) << 12;
    for offset in 0..BITMASK_9 {
        let with_offset = BASE_OPCODE | offset;
        for neg in [true, false] {
            for zero in [true, false] {
                for pos in [true, false] {
                    let mut full = with_offset;
                    if neg {
                        full |= 1 << 11
                    }
                    if zero {
                        full |= 1 << 10
                    }
                    if pos {
                        full |= 1 << 9
                    }
                    let IBranch {
                        cond_codes,
                        pc_offset,
                    } = IBranch::parse(full).unwrap();
                    assert_eq!(pc_offset, shift_to_signed::<7>(offset));
                    assert_eq!(cond_codes.negative, neg);
                    assert_eq!(cond_codes.zero, zero);
                    assert_eq!(cond_codes.positive, pos);
                }
            }
        }
    }
}

#[test]
fn ibranch_reconstruct() {
    const BASE_OPCODE: u16 = (BRANCH_OPCODE as u16) << 12;
    let valid_opcodes = BASE_OPCODE..(BASE_OPCODE + TWELVE_SET);
    for valid in valid_opcodes {
        assert_eq!(LC3Word::from(IBranch::parse(valid).unwrap()), valid)
    }
}

#[test]
fn ijump_reject_invalid_opcodes() {
    let invalid_opcodes =
        (0..LC3Word::MAX).filter(|word| !ALL_JUMP_OPCODES.contains(&((word >> 12) as u8)));
    for invalid in invalid_opcodes {
        assert!(IJump::parse(invalid).is_none())
    }
}

#[test]
fn ijump_parse_reg() {
    const BASE_OPCODE: u16 = (JMP_OPCODE as u16) << 12;
    for dr in 0..7 {
        let full = BASE_OPCODE | (dr << 6);
        if let IJump::Instr(parsed) = IJump::parse(full).unwrap() {
            assert_eq!(parsed as u16, dr);
        } else {
            panic!("Must parse as register!")
        }
    }
    let dr = 7;
    let full = BASE_OPCODE | (dr << 6);
    assert_eq!(IJump::parse(full).unwrap(), IJump::Ret);
}

#[test]
fn parse_special() {
    const BASE_OPCODE: u16 = (JMP_OPCODE as u16) << 12;
    let base = BASE_OPCODE | 1;
    for dr in 0..7 {
        let full = base | (dr << 6);
        if let IJump::PrivClear(parsed) = IJump::parse(full).unwrap() {
            assert_eq!(parsed as u16, dr);
        } else {
            panic!("Must parse as privilege clear!")
        }
    }
    let dr = 7;
    let full = BASE_OPCODE | (dr << 6);
    assert_eq!(IJump::parse(full).unwrap(), IJump::Ret);
}

#[test]
fn ijumpsr_reject_invalid_opcodes() {
    let invalid_opcodes = (0..LC3Word::MAX).filter(|word| (word >> 12) != (JSR_OPCODE as LC3Word));
    for invalid in invalid_opcodes {
        assert!(IJumpSubRoutine::parse(invalid).is_none())
    }
}

#[test]
fn ijumpsr_reject_invalid_parses() {
    const BASE_OPCODE: u16 = (JSR_OPCODE as u16) << 12;
    const BITMASK_11: u16 = 1 << 11;
    const BITMASK_11_9: u16 = 0b111 << 9;
    const BITMASK_5_0: u16 = (1 << 6) - 1;
    let invalid_parses = (BASE_OPCODE..(BASE_OPCODE + TWELVE_SET))
        .filter(|word| ((word & BITMASK_11) == 0) && (word & (BITMASK_11_9 | BITMASK_5_0) != 0));
    for invalid in invalid_parses {
        assert!(IJumpSubRoutine::parse(invalid).is_none(),)
    }
}

#[test]
fn ijumpsr_parse_reg() {
    const BASE_OPCODE: u16 = (JSR_OPCODE as u16) << 12;
    for dr in 0..8 {
        let full = BASE_OPCODE | (dr << 6);
        if let IJumpSubRoutine::Reg(parsed) = IJumpSubRoutine::parse(full).unwrap() {
            assert_eq!(parsed as u16, dr);
        } else {
            panic!("Must parse as register!")
        }
    }
}

#[test]
fn parse_offset() {
    const BASE_OPCODE: u16 = (JSR_OPCODE as u16) << 12;
    let base = BASE_OPCODE | (1 << 11);
    for offset in 0..(1 << 11) {
        let full = base | offset;
        if let IJumpSubRoutine::Offset(parsed) = IJumpSubRoutine::parse(full).unwrap() {
            assert_eq!(parsed.pc_offset, shift_to_signed::<5>(offset));
        } else {
            panic!("Must parse as register!")
        }
    }
}

#[test]
fn ijumpsr_reconstruct() {
    const BASE_OPCODE: u16 = (JSR_OPCODE as u16) << 12;
    const BITMASK_11: u16 = 1 << 11;
    const BITMASK_11_9: u16 = 0b111 << 9;
    const BITMASK_5_0: u16 = (1 << 6) - 1;
    let valid_opcodes = (BASE_OPCODE..(BASE_OPCODE + TWELVE_SET))
        .filter(|word| ((word & BITMASK_11) != 0) || (word | (BITMASK_11_9 & BITMASK_5_0) == 0));
    for valid in valid_opcodes {
        assert_eq!(LC3Word::from(IJumpSubRoutine::parse(valid).unwrap()), valid)
    }
}

#[test]
fn iload_reject_invalid_opcodes() {
    let invalid_opcodes =
        (0..LC3Word::MAX).filter(|word| !ALL_LOAD_OPCODES.contains(&((word >> 12) as u8)));
    for invalid in invalid_opcodes {
        assert!(ILoad::parse(invalid).is_none())
    }
}

#[test]
fn iload_reconstruct() {
    let valid_opcodes =
        (0..LC3Word::MAX).filter(|word| ALL_LOAD_OPCODES.contains(&((word >> 12) as u8)));
    for valid in valid_opcodes {
        assert_eq!(LC3Word::from(ILoad::parse(valid).unwrap()), valid)
    }
}

#[test]
fn inot_reject_invalid_parses() {
    const BOTTOM_FIVE: u16 = (1 << 6) - 1;
    const BASE_OPCODE: u16 = (NOT_OPCODE as u16) << 12;
    let invalid_parses = (BASE_OPCODE..(BASE_OPCODE + TWELVE_SET))
        .filter(|word| (word & BOTTOM_FIVE) != BOTTOM_FIVE);
    for invalid in invalid_parses {
        assert!(INot::parse(invalid).is_none())
    }
}

#[test]
fn inot_reject_invalid_opcodes() {
    let invalid_opcodes = (0..LC3Word::MAX).filter(|word| (word >> 12) != NOT_OPCODE as u16);
    for invalid in invalid_opcodes {
        assert!(INot::parse(invalid).is_none())
    }
}

#[test]
fn inot_parse() {
    const BOTTOM_FIVE: u16 = (1 << 6) - 1;
    const BASE_OPCODE: u16 = (NOT_OPCODE as u16) << 12;
    let base = BASE_OPCODE;
    for dr in 0..8 {
        let with_dr = base | (dr << 9);
        for sr in 0..8 {
            let with_sr = with_dr | (sr << 6);
            let full = with_sr | BOTTOM_FIVE;
            let parsed = INot::parse(full).unwrap().0;
            assert_eq!(parsed.dest_reg as u16, dr);
            assert_eq!(parsed.src_reg as u16, sr);
        }
    }
}

#[test]
fn inot_reconstruct() {
    const BOTTOM_FIVE: u16 = (1 << 6) - 1;
    const BASE_OPCODE: u16 = (NOT_OPCODE as u16) << 12;
    let valid_opcodes = (BASE_OPCODE..(BASE_OPCODE + TWELVE_SET))
        .filter(|word| (word & BOTTOM_FIVE) == BOTTOM_FIVE);
    for valid in valid_opcodes {
        assert_eq!(LC3Word::from(INot::parse(valid).unwrap()), valid)
    }
}

#[test]
fn istore_reject_invalid_opcodes() {
    let invalid_opcodes =
        (0..LC3Word::MAX).filter(|word| !ALL_STORE_OPCODES.contains(&((word >> 12) as u8)));
    for invalid in invalid_opcodes {
        assert!(IStore::parse(invalid).is_none())
    }
}

#[test]
fn istore_reconstruct() {
    let valid_opcodes =
        (0..LC3Word::MAX).filter(|word| ALL_STORE_OPCODES.contains(&((word >> 12) as u8)));
    for valid in valid_opcodes {
        assert_eq!(LC3Word::from(IStore::parse(valid).unwrap()), valid)
    }
}

#[test]
fn mod_reconstruct() {
    let all_possible_codes = TWELVE_SET..=LC3Word::MAX;
    for code in all_possible_codes {
        if let Some(parsed) = InstructionEnum::parse(code) {
            assert_eq!(LC3Word::from(parsed), code)
        }
    }
}

const ALL_VECS: [u16; 6] = [GETC, OUT, PUTS, IN, PUTSP, HALT];

#[test]
fn trap_reject_invalid_opcodes() {
    let invalid_opcodes = (0..LC3Word::MAX).filter(|word| (word >> 12) != (TRAP_OPCODE as u16));
    for invalid in invalid_opcodes {
        assert!(Trap::parse(invalid).is_none())
    }
}

#[test]
fn trap_reject_invalid_parses() {
    const BASE_OPCODE: u16 = (TRAP_OPCODE as u16) << 12;
    const FULL_11: u16 = (1 << 12) - 1;
    const BITMASK_11_8: u16 = (FULL_11 >> 8) << 8;
    const BITMASK_7_0: u16 = (1 << 8) - 1;
    let invalid_parses = (BASE_OPCODE..=LC3Word::MAX).filter(|word| {
        ((word & BITMASK_11_8) != 0) || !ALL_VECS.contains(&(word & BITMASK_7_0))
    });
    for invalid in invalid_parses {
        assert!(Trap::parse(invalid).is_none())
    }
}

#[test]
fn trap_parse() {
    const BASE_OPCODE: u16 = (TRAP_OPCODE as u16) << 12;
    assert_eq!(Trap::parse(BASE_OPCODE | GETC).unwrap(), Trap::Getc);
    assert_eq!(Trap::parse(BASE_OPCODE | OUT).unwrap(), Trap::Out);
    assert_eq!(Trap::parse(BASE_OPCODE | PUTS).unwrap(), Trap::PutS);
    assert_eq!(Trap::parse(BASE_OPCODE | IN).unwrap(), Trap::In);
    assert_eq!(Trap::parse(BASE_OPCODE | HALT).unwrap(), Trap::Halt);
}

#[test]
fn trap_reconstruct() {
    const BASE_OPCODE: u16 = (TRAP_OPCODE as u16) << 12;
    let valid_opcodes = ALL_VECS.into_iter().map(|vec| BASE_OPCODE | vec);
    for valid in valid_opcodes {
        assert_eq!(LC3Word::from(Trap::parse(valid).unwrap()), valid)
    }
}

#[test]
fn every_word_round_trips() {
    for word in 0..=LC3Word::MAX {
        if let Some(parsed) = InstructionEnum::parse(word) {
            assert_eq!(parsed.encode(), word);
            assert_eq!(InstructionEnum::parse(parsed.encode()), Some(parsed));
        }
    }
}

#[test]
fn add_with_reserved_bits_never_decodes() {
    for word in 0x1000u16..0x2000 {
        if word & (1 << 5) == 0 && word & (0b11 << 3) != 0 {
            assert!(InstructionEnum::parse(word).is_none());
        }
    }
}

#[test]
fn not_decodes_iff_trailing_ones() {
    for word in 0x9000u16..0xA000 {
        assert_eq!(InstructionEnum::parse(word).is_some(), word & 0x3F == 0x3F);
    }
}

#[test]
fn encode_exact_words() {
    let ld = ILoad::Std(lc3sim::instruction::InstrPCOffset9 {
        target_reg: RegAddr::Two,
        pc_offset: -1,
    });
    assert_eq!(ld.encode(), 0x25FF);
    let jsr = IJumpSubRoutine::Offset(lc3sim::instruction::InstrPCOffset11 { pc_offset: 6 });
    assert_eq!(jsr.encode(), 0x4806);
    assert_eq!(IJump::Ret.encode(), 0xC1C0);
    assert_eq!(IJump::InterRet.encode(), 0x8000);
    assert_eq!(Trap::Halt.encode(), 0xF025);
    let not = INot(lc3sim::instruction::InstrRegOnly {
        dest_reg: RegAddr::One,
        src_reg: RegAddr::Three,
    });
    assert_eq!(not.encode(), 0x92FF);
}

#[test]
fn ijump_reject_invalid_parses() {
    // JMP
    const JMP_BASE: u16 = (JMP_OPCODE as u16) << 12;
    const BITMASK_11_9: u16 = 0b111 << 9;
    const BITMASK_5_1: u16 = ((1 << 5) - 1) << 1;
    let invalid_parses = (JMP_BASE..(JMP_BASE + TWELVE_SET))
        .filter(|word| (word & (BITMASK_11_9 | BITMASK_5_1)) != 0);
    for invalid in invalid_parses {
        assert!(IJump::parse(invalid).is_none())
    }

    // RTI
    const RTI_BASE: u16 = (RTI_OPCODE as u16) << 12;
    const BITMASK_11_0: u16 = (1 << 12) - 1;
    let invalid_parses =
        (RTI_BASE..(RTI_BASE + TWELVE_SET)).filter(|word| (word & BITMASK_11_0) != 0);
    for invalid in invalid_parses {
        assert!(IJump::parse(invalid).is_none())
    }
}

#[test]
fn ijump_reconstruct() {
    // JMP
    const JMP_BASE: u16 = (JMP_OPCODE as u16) << 12;
    const BITMASK_11_9: u16 = 0b111 << 9;
    const BITMASK_5_1: u16 = ((1 << 5) - 1) << 1;
    let valid_opcodes = (JMP_BASE..(JMP_BASE + TWELVE_SET))
        .filter(|word| (word & (BITMASK_11_9 | BITMASK_5_1)) == 0);
    for valid in valid_opcodes {
        assert_eq!(LC3Word::from(IJump::parse(valid).unwrap()), valid)
    }

    // RTI
    const RTI_BASE: u16 = (RTI_OPCODE as u16) << 12;
    assert_eq!(LC3Word::from(IJump::parse(RTI_BASE).unwrap()), RTI_BASE)
}

/// Checks that every PC-offset load or store with opcode `opcode` decodes
/// to the given variant with the sign-extended offset.
fn check_pc9<T>(opcode: u8, pick: fn(T) -> Option<InstrPCOffset9>, parse: fn(u16) -> Option<T>) {
    const BITMASK_NINE: LC3Word = 1 << 9;
    let base_opcode: u16 = (opcode as u16) << 12;
    for dr in 0..8 {
        let with_dr = base_opcode | (dr << 9);
        for imm in 0..BITMASK_NINE {
            let full = with_dr | imm;
            let parsed = pick(parse(full).unwrap()).expect("wrong variant");
            assert_eq!(parsed.target_reg as u16, dr);
            assert_eq!(parsed.pc_offset, shift_to_signed::<7>(imm));
        }
    }
}

/// Checks that every base-register load or store with opcode `opcode`
/// decodes to the given variant.
fn check_off6<T>(opcode: u8, pick: fn(T) -> Option<InstrOffset6>, parse: fn(u16) -> Option<T>) {
    let base_opcode: u16 = (opcode as u16) << 12;
    for dr in 0..8 {
        let with_dr = base_opcode | (dr << 9);
        for sr in 0..8 {
            let with_sr = with_dr | (sr << 6);
            for imm in 0..0b11111 {
                let full = with_sr | imm;
                let parsed = pick(parse(full).unwrap()).expect("wrong variant");
                assert_eq!(parsed.target_reg as u16, dr);
                assert_eq!(parsed.base_reg as u16, sr);
                assert_eq!(parsed.offset, imm as i16);
            }
        }
    }
}

#[test]
fn iload_parse() {
    check_pc9(LD_OPCODE, |i| if let ILoad::Std(x) = i { Some(x) } else { None }, ILoad::parse);
    check_pc9(LDI_OPCODE, |i| if let ILoad::Indirect(x) = i { Some(x) } else { None }, ILoad::parse);
    check_pc9(LEA_OPCODE, |i| if let ILoad::Addr(x) = i { Some(x) } else { None }, ILoad::parse);
    check_off6(LDR_OPCODE, |i| if let ILoad::Reg(x) = i { Some(x) } else { None }, ILoad::parse);
}

#[test]
fn istore_parse() {
    check_pc9(ST_OPCODE, |i| if let IStore::Std(x) = i { Some(x) } else { None }, IStore::parse);
    check_pc9(STI_OPCODE, |i| if let IStore::Indirect(x) = i { Some(x) } else { None }, IStore::parse);
    check_off6(STR_OPCODE, |i| if let IStore::Reg(x) = i { Some(x) } else { None }, IStore::parse);
}

#[test]
fn immediates_are_sign_extended() {
    match IAnd::parse(0x503F).unwrap() {
        IAnd::Imm(x) => assert_eq!(x.imm, 0xFFFF),
        _ => panic!("Must parse as immediate!"),
    }
    match IAdd::parse(0x1270).unwrap() {
        IAdd::Imm(x) => assert_eq!(x.imm, 0xFFF0),
        _ => panic!("Must parse as immediate!"),
    }
    assert_eq!(IBranch::parse(0x0FFF).unwrap().pc_offset, -1);
    assert_eq!(IBranch::parse(0x0100).unwrap().pc_offset, -256);
    assert_eq!(IBranch::parse(0x00FF).unwrap().pc_offset, 255);
    // Encoding masks back to the field.
    assert_eq!(LC3Word::from(IAnd::parse(0x503F).unwrap()), 0x503F);
    assert_eq!(LC3Word::from(IBranch::parse(0x0FFF).unwrap()), 0x0FFF);
}
