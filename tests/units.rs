use gba::bits::{add_flags, arg_shift, arg_shift0, cond_met, extract, set_flags, sub_flags};
use gba::cpu::{alu_op, count_list, sign_extend, Cpu};
use gba::ram::Ram;
use gba::reg::{RegFile, CPSR, LR, PC, SP, SPSR};

const T_BIT: u32 = 1 << 5;

fn thumb_cpu(words: &[u16], data: &[(u32, u32)], seed: &[(usize, u32)]) -> Cpu {
    let mut mmu = Ram::new(0x1000);
    let mut a: u32 = 0;
    for w in words {
        mmu.set16(a, *w);
        a += 2;
    }
    for &(addr, v) in data {
        mmu.set32(addr, v);
    }
    let mut regs: Vec<(usize, u32)> = vec![(PC, 0), (SP, 0x200)];
    regs.extend_from_slice(seed);
    let mut cpu = Cpu::new(mmu, &regs);
    cpu.set_thumb_mode(true);
    cpu
}

fn step(cpu: &mut Cpu, n: usize) {
    for _ in 0..n {
        assert!(cpu.cycle());
    }
}

#[test]
fn adder_flags() {
    assert_eq!(add_flags(0xffff_ffff, 1, false), (0, false, true));
    assert_eq!(add_flags(0x7fff_ffff, 1, false), (0x8000_0000, true, false));
    assert_eq!(add_flags(2, 3, true), (6, false, false));
    assert_eq!(sub_flags(5, 3), (2, false, true));
    assert_eq!(sub_flags(3, 5), (0xffff_fffe, false, false));
    assert_eq!(sub_flags(0x8000_0000, 1), (0x7fff_ffff, true, true));
    assert_eq!(sub_flags(7, 7), (0, false, true));
}

#[test]
fn flag_update_keeps_other_bits() {
    assert_eq!(set_flags(0x1f, 0x8000_0000, true, false), 0x9000_001f);
    assert_eq!(set_flags(0xf000_003f, 0, false, true), 0x6000_003f);
    assert_eq!(set_flags(0x0000_0020, 5, false, false), 0x0000_0020);
}

#[test]
fn barrel_shifter() {
    assert_eq!(arg_shift(0x8000_0001, 1, 0), (2, true));
    assert_eq!(arg_shift(1, 32, 0), (0, true));
    assert_eq!(arg_shift(1, 33, 0), (0, false));
    assert_eq!(arg_shift(0x8000_0000, 32, 1), (0, true));
    assert_eq!(arg_shift(0x10, 5, 1), (0, true));
    assert_eq!(arg_shift(0x8000_0000, 4, 2), (0xf800_0000, false));
    assert_eq!(arg_shift(0x8000_0000, 40, 2), (0xffff_ffff, true));
    assert_eq!(arg_shift(0x1234_5678, 4, 3), (0x8123_4567, true));
    assert_eq!(arg_shift(0x8000_0000, 32, 3), (0x8000_0000, true));
    assert_eq!(arg_shift0(0x1234, 0, true), (0x1234, true));
    assert_eq!(arg_shift0(0x8000_0000, 1, false), (0, true));
    assert_eq!(arg_shift0(0x8000_0000, 2, false), (0xffff_ffff, true));
}

#[test]
fn condition_codes() {
    let z = 0x4000_0000;
    let n = 0x8000_0000;
    let v = 0x1000_0000;
    assert!(cond_met(0x0, z));
    assert!(!cond_met(0x1, z));
    assert!(cond_met(0xA, n | v));
    assert!(cond_met(0xB, n));
    assert!(!cond_met(0xC, z));
    assert!(cond_met(0xD, z));
    assert!(cond_met(0xE, 0));
    assert!(!cond_met(0xF, 0));
}

#[test]
fn fields_and_sign_extension() {
    assert_eq!(extract(0xb407, 0, 8), 0x07);
    assert_eq!(extract(0xb407, 11, 2), 0x2);
    assert_eq!(sign_extend(0x80, 8), 0xffff_ff80);
    assert_eq!(sign_extend(0x7f, 8), 0x7f);
    assert_eq!(sign_extend(0x800, 12), 0xffff_f800);
}

#[test]
fn alu_operations() {
    assert_eq!(alu_op(0x6, 5, 3, false, true), (2, false, true));
    assert_eq!(alu_op(0x6, 5, 3, false, false), (1, false, true));
    assert_eq!(alu_op(0x5, 0xffff_ffff, 0, false, true), (0, false, true));
    assert_eq!(alu_op(0xD, 0x1_0000, 0x1_0000, true, true), (0, true, false));
    assert_eq!(alu_op(0x9, 0, 1, false, false), (0xffff_ffff, false, false));
    assert_eq!(alu_op(0xE, 0xff, 0x0f, false, false), (0xf0, false, false));
    assert_eq!(alu_op(0xF, 0, 0, false, false), (0xffff_ffff, false, false));
    // A shift by a register whose low byte is zero keeps value and carry.
    assert_eq!(alu_op(0x2, 7, 0x100, false, true), (7, false, true));
    assert_eq!(alu_op(0x7, 1, 1, false, false), (0x8000_0000, false, true));
    assert_eq!(count_list(0b1011), 3);
    assert_eq!(count_list(0), 0);
}

#[test]
fn banked_registers() {
    let mut r = RegFile::new();
    r.set_mode(0, CPSR, 0x1f);
    r.set(SP, 0x100);
    r.set(8, 1);
    r.set(0, 9);
    r.set(CPSR, 0x11);
    assert_eq!(r.get(SP), 0);
    assert_eq!(r.get(8), 0);
    assert_eq!(r.get(0), 9);
    r.set(8, 7);
    r.set(SPSR, 0x1f);
    r.set(CPSR, 0x10);
    assert_eq!(r.get(SP), 0x100);
    assert_eq!(r.get(8), 1);
    assert_eq!(r.get_mode(0x11, 8), 7);
    assert_eq!(r.get_mode(0x11, SPSR), 0x1f);
    assert_eq!(r.get_mode(0x13, SP), 0);
}

#[test]
fn memory_round_trip_and_bounds() {
    let mut m = Ram::new(0x10);
    m.set32(4, 0xdead_beef);
    assert_eq!(m.load32(4), 0xdead_beef);
    assert_eq!(m.load16(4), 0xbeef);
    assert_eq!(m.load8(7), 0xde);
    m.set32(0x100, 5);
    assert_eq!(m.load32(0x100), 0);
    assert_eq!(m.len(), 0x10);
    let d = Ram::new_with_data(4, &[1, 2, 3, 4, 5, 6]);
    assert_eq!(d.load32(0), 0x0403_0201);
    assert_eq!(d.load8(4), 0);
}

#[test]
fn breakpoints_and_state() {
    let mut cpu = thumb_cpu(&[0x2001, 0xe800], &[], &[]);
    cpu.set_breaks(&[0, 0x20]);
    assert!(cpu.at_breakpoint());
    step(&mut cpu, 1);
    assert!(!cpu.at_breakpoint());
    assert_eq!(cpu.cpsr(), 0x1f | T_BIT);
    cpu.set_thumb_mode(false);
    assert_eq!(cpu.cpsr(), 0x1f);
    // This core has no ARM executor: a cycle in ARM state stops.
    assert!(!cpu.cycle());
    assert_eq!(cpu.reg(PC), 2);
}

#[test]
fn seed_applies_in_order() {
    let cpu = Cpu::new(Ram::new(4), &[(0, 1), (0, 2), (CPSR, 0x13), (SP, 5)]);
    assert_eq!(cpu.reg(0), 2);
    assert_eq!(cpu.cpsr(), 0x13);
    assert_eq!(cpu.reg(SP), 5);
}

#[test]
fn undefined_stops_with_pc_advanced() {
    let mut cpu = thumb_cpu(&[0xe800], &[], &[]);
    assert!(!cpu.cycle());
    assert_eq!(cpu.reg(PC), 2);
}

#[test]
fn pc_read_sees_four_ahead() {
    // mov r0, pc
    let mut cpu = thumb_cpu(&[0x4678], &[], &[]);
    step(&mut cpu, 1);
    assert_eq!(cpu.reg(0), 4);
}

#[test]
fn bx_switches_state() {
    // bx r0 with an even target goes to ARM state, word aligned.
    let mut cpu = thumb_cpu(&[0x4700], &[], &[(0, 0x102)]);
    step(&mut cpu, 1);
    assert_eq!(cpu.reg(PC), 0x100);
    assert_eq!(cpu.cpsr() & T_BIT, 0);
    // bx r0 with an odd target stays in Thumb state.
    let mut cpu = thumb_cpu(&[0x4700], &[], &[(0, 0x103)]);
    step(&mut cpu, 1);
    assert_eq!(cpu.reg(PC), 0x102);
    assert_eq!(cpu.cpsr() & T_BIT, T_BIT);
}

#[test]
fn long_branch_with_link() {
    // bl to 8, as two halves at 0 and 2.
    let mut cpu = thumb_cpu(&[0xf000, 0xf802], &[], &[]);
    step(&mut cpu, 1);
    assert_eq!(cpu.reg(LR), 4);
    step(&mut cpu, 1);
    assert_eq!(cpu.reg(PC), 8);
    assert_eq!(cpu.reg(LR), 5);
}

#[test]
fn conditional_branches() {
    // cmp r0,#0; beq +2
    let mut cpu = thumb_cpu(&[0x2800, 0xd001], &[], &[]);
    step(&mut cpu, 2);
    assert_eq!(cpu.reg(PC), 8);
    // cmp r0,#0 with r0 = 1; beq +2 is not taken
    let mut cpu = thumb_cpu(&[0x2800, 0xd001], &[], &[(0, 1)]);
    step(&mut cpu, 2);
    assert_eq!(cpu.reg(PC), 4);
    // bne back by ten bytes from 0x10
    let mut cpu = thumb_cpu(&[0; 8], &[(0x10, 0xd1fb)], &[(PC, 0x10)]);
    step(&mut cpu, 1);
    assert_eq!(cpu.reg(PC), 0x10 + 4 - 10);
    // b from 2 back to 0
    let mut cpu = thumb_cpu(&[0x0000, 0xe7fd], &[], &[(PC, 2)]);
    step(&mut cpu, 1);
    assert_eq!(cpu.reg(PC), 0);
}

#[test]
fn signed_and_halfword_loads() {
    // Bits 11 and 10 select STRH, LDRH, LDSB, LDSH in that order:
    // ldsb r0,[r1,r2]; ldsh r3,[r1,r2]; ldrh r4,[r1,r2]
    let mut cpu = thumb_cpu(&[0x5a88, 0x5e8b, 0x568c], &[(0x100, 0x8081)], &[(1, 0x100), (2, 0)]);
    step(&mut cpu, 3);
    assert_eq!(cpu.reg(0), 0xffff_ff81);
    assert_eq!(cpu.reg(3), 0xffff_8081);
    assert_eq!(cpu.reg(4), 0x8081);
}

#[test]
fn block_store_with_base_in_list() {
    // stmia r0!,{r0,r1}: r0 is lowest, so its old value is stored.
    let mut cpu = thumb_cpu(&[0xc003], &[], &[(0, 0x100), (1, 7)]);
    step(&mut cpu, 1);
    assert_eq!(cpu.mmu().load32(0x100), 0x100);
    assert_eq!(cpu.mmu().load32(0x104), 7);
    assert_eq!(cpu.reg(0), 0x108);
    // stmia r1!,{r0,r1}: r1 is not lowest, so its new value is stored.
    let mut cpu = thumb_cpu(&[0xc103], &[], &[(0, 9), (1, 0x100)]);
    step(&mut cpu, 1);
    assert_eq!(cpu.mmu().load32(0x100), 9);
    assert_eq!(cpu.mmu().load32(0x104), 0x108);
    assert_eq!(cpu.reg(1), 0x108);
}

#[test]
fn block_load_and_empty_list() {
    // ldmia r2!,{r0,r1}
    let mut cpu = thumb_cpu(&[0xca03], &[(0x100, 3), (0x104, 4)], &[(2, 0x100)]);
    step(&mut cpu, 1);
    assert_eq!((cpu.reg(0), cpu.reg(1), cpu.reg(2)), (3, 4, 0x108));
    // stmia r2!,{}: nothing moves and the base stays.
    let mut cpu = thumb_cpu(&[0xc200], &[], &[(2, 0x100)]);
    step(&mut cpu, 1);
    assert_eq!(cpu.reg(2), 0x100);
    assert_eq!(cpu.mmu().load32(0x100), 0);
}

#[test]
fn push_lr_and_pop_pc() {
    // push {r0,lr}; pop {r1,pc}
    let mut cpu = thumb_cpu(&[0xb501, 0xbd02], &[], &[(0, 6), (LR, 0x40)]);
    step(&mut cpu, 1);
    assert_eq!(cpu.reg(SP), 0x1f8);
    assert_eq!(cpu.mmu().load32(0x1f8), 6);
    assert_eq!(cpu.mmu().load32(0x1fc), 0x40);
    step(&mut cpu, 1);
    assert_eq!(cpu.reg(SP), 0x200);
    assert_eq!(cpu.reg(1), 6);
    assert_eq!(cpu.reg(PC), 0x40);
}

#[test]
fn stack_and_address_arithmetic() {
    // sub sp,#8; add r0,pc,#4 (at 2: (4 + 2) & !1, plus 4); add r1,sp,#8; add sp,#8
    let mut cpu = thumb_cpu(&[0xb082, 0xa001, 0xa902, 0xb002], &[], &[]);
    step(&mut cpu, 1);
    assert_eq!(cpu.reg(SP), 0x1f8);
    step(&mut cpu, 1);
    assert_eq!(cpu.reg(0), 10);
    step(&mut cpu, 1);
    assert_eq!(cpu.reg(1), 0x200);
    step(&mut cpu, 1);
    assert_eq!(cpu.reg(SP), 0x200);
}

#[test]
fn compare_sets_flags_only() {
    // cmp r0,r1 (ALU); tst r0,r1
    let mut cpu = thumb_cpu(&[0x4288, 0x4208], &[], &[(0, 3), (1, 5)]);
    step(&mut cpu, 1);
    assert_eq!(cpu.reg(0), 3);
    assert_eq!(cpu.cpsr() >> 28, 0x8);
    step(&mut cpu, 1);
    assert_eq!(cpu.cpsr() >> 28, 0x0);
}

#[test]
fn shift_immediate_zero_means_thirty_two() {
    // lsr r0,r1,#0; asr r2,r1,#0; lsl r3,r1,#0
    let mut cpu = thumb_cpu(&[0x0808, 0x100a, 0x000b], &[], &[(1, 0x8000_0001)]);
    step(&mut cpu, 1);
    assert_eq!(cpu.reg(0), 0);
    assert_eq!(cpu.cpsr() >> 28, 0x6);
    step(&mut cpu, 1);
    assert_eq!(cpu.reg(2), 0xffff_ffff);
    step(&mut cpu, 1);
    assert_eq!(cpu.reg(3), 0x8000_0001);
    assert_eq!(cpu.cpsr() >> 28, 0xa);
}

#[test]
fn byte_and_halfword_stores() {
    // strb r0,[r1,#1]; strh r0,[r1,#2]; str r0,[r1,r2]
    let mut cpu = thumb_cpu(&[0x7048, 0x8048, 0x5088], &[], &[(0, 0x1234_5678), (1, 0x100), (2, 4)]);
    step(&mut cpu, 3);
    assert_eq!(cpu.mmu().load32(0x100), 0x5678_7800);
    assert_eq!(cpu.mmu().load32(0x104), 0x1234_5678);
}

#[test]
fn sp_relative_words_are_aligned() {
    // str r0,[sp,#4]; ldr r1,[sp,#4] with SP one past a word boundary
    let mut cpu = thumb_cpu(&[0x9001, 0x9901], &[], &[(0, 0x1234_5678), (SP, 0x101)]);
    step(&mut cpu, 2);
    assert_eq!(cpu.mmu().load32(0x104), 0x1234_5678);
    assert_eq!(cpu.reg(1), 0x1234_5678);
    assert_eq!(cpu.reg(SP), 0x101);
}

#[test]
fn block_transfers_are_aligned() {
    // stmia r0!,{r1,r2} with r0 = 0x102: words at 0x100 and 0x104, write-back 0x10a
    let mut cpu = thumb_cpu(&[0xc006], &[], &[(0, 0x102), (1, 5), (2, 6)]);
    step(&mut cpu, 1);
    assert_eq!(cpu.mmu().load32(0x100), 5);
    assert_eq!(cpu.mmu().load32(0x104), 6);
    assert_eq!(cpu.reg(0), 0x10a);
    // ldmia r3!,{r4} with r3 = 0x103
    let mut cpu = thumb_cpu(&[0xcb10], &[(0x100, 9)], &[(3, 0x103)]);
    step(&mut cpu, 1);
    assert_eq!(cpu.reg(4), 9);
    assert_eq!(cpu.reg(3), 0x107);
}
