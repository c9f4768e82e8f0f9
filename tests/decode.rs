use gba::decode::Instruction;

#[test]
fn test_decode() {
    let cases: [(Instruction, u16); 19] = [
        (Instruction::Shifted, 0x0fb4),
        (Instruction::AddSub, 0x1c0a),
        (Instruction::ImmOp, 0x200a),
        (Instruction::AluOp, 0x4042),
        (Instruction::HiRegBx, 0x466c),
        (Instruction::PcLoad, 0x4d00),
        (Instruction::SingleXferR, 0x5045),
        (Instruction::HwSgnXfer, 0x5fb9),
        (Instruction::SingleXferI, 0x7078),
        (Instruction::HwXferI, 0x80b9),
        (Instruction::SpXfer, 0x9102),
        (Instruction::LoadAddr, 0xa001),
        (Instruction::SpAdd, 0xb082),
        (Instruction::PushPop, 0xb407),
        (Instruction::BlockXfer, 0xc103),
        (Instruction::CondBranch, 0xd1fb),
        (Instruction::Branch, 0xe002),
        (Instruction::LongBranch, 0xf801),
        (Instruction::Undefined, 0xe800),
    ];
    for &(inst, val) in cases.iter() {
        assert_eq!(inst, Instruction::decode(val));
    }
}

#[test]
fn decode_cond_branch_tried_before_software_interrupt() {
    // CondBranch comes first in the order, so its class takes 0xdfxx too.
    assert_eq!(Instruction::decode(0xdf05), Instruction::CondBranch);
    assert_eq!(Instruction::decode(0xde05), Instruction::CondBranch);
}

#[test]
fn decode_priority_overlaps() {
    // Instruction::AddSub's class lies inside Instruction::Shifted's; Instruction::AddSub is tried first.
    assert_eq!(Instruction::decode(0x1800), Instruction::AddSub);
    assert_eq!(Instruction::decode(0x1000), Instruction::Shifted);
    // Instruction::HiRegBx and Instruction::AluOp share the top nibble.
    assert_eq!(Instruction::decode(0x4700), Instruction::HiRegBx);
    assert_eq!(Instruction::decode(0x43ff), Instruction::AluOp);
}

#[test]
fn decode_each_word_matches_its_class() {
    let mut w: u32 = 0;
    while w <= 0xffff {
        let f = Instruction::decode(w as u16);
        let (mask, test) = f.pattern();
        assert_eq!((w as u16) & mask, test);
        let mut i: usize = 0;
        while Instruction::at_rank(i) != f {
            let (m, t) = Instruction::at_rank(i).pattern();
            assert_ne!((w as u16) & m, t);
            i += 1;
        }
        w += 1;
    }
}
