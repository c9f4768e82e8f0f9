use gba::cpu::Cpu;
use gba::ram::Ram;
use gba::reg::{PC, SP};

fn run_program(words: &[u16]) -> Cpu {
    let mut bytes: Vec<u8> = Vec::new();
    for w in words {
        bytes.push(*w as u8);
        bytes.push((*w >> 8) as u8);
    }
    let mmu = Ram::new_with_data(0x1000, &bytes);
    // Start at 0, with a stack pointer, and in Thumb state.
    let mut cpu = Cpu::new(mmu, &[(PC, 0x0u32), (SP, 0x200)]);
    cpu.set_thumb_mode(true);
    assert!(cpu.run(10_000));
    cpu
}

fn check(cpu: &Cpu, checks: &[(u32, u32)]) {
    for &(addr, val) in checks {
        assert_eq!(val, cpu.mmu().load32(addr), "addr: {:#010x}", addr);
    }
}

#[test]
fn emutest_thm0() {
    // mov r0,#10; add r1,r0,#5; sub r2,r1,r0; mov r3,#6; mul r3,r0;
    // mov r4,sp; push {r0-r4}
    let cpu = run_program(&[0x200a, 0x1d41, 0x1a0a, 0x2306, 0x4343, 0x466c, 0xb41f, 0xe800]);
    check(&cpu, &[(0x1ec, 10), (0x1f0, 15), (0x1f4, 5), (0x1f8, 60), (0x1fc, 0x200)]);
}

#[test]
fn emutest_thm1() {
    // ldr r0,[pc,#4]; str r0,[sp]; (stop); pad; .word 0xdeadbeef
    let cpu = run_program(&[0x4801, 0x9000, 0xe800, 0x0000, 0xbeef, 0xdead]);
    check(&cpu, &[(0x200, 0xdeadbeef)]);
}

#[test]
fn emutest_thm2() {
    // mov r0,#0xff; lsl r1,r0,#8; mov r2,#0x80; orr r2,r1; mvn r3,r0;
    // lsr r3,r3,#1; mov r4,sp; stmia r4!,{r1-r3}
    let cpu = run_program(&[0x20ff, 0x0201, 0x2280, 0x430a, 0x43c3, 0x085b, 0x466c, 0xc40e, 0xe800]);
    check(&cpu, &[(0x200, 0xff00), (0x204, 0xff80), (0x208, 0x7fffff80)]);
}

#[test]
fn emutest_thm3() {
    // mov r0,#8; mov r1,sp; push {r0,r1}; b over; (stop); over: pop {r2,r3};
    // mul r2,r2; str r2,[r3]
    let cpu = run_program(&[0x2008, 0x4669, 0xb403, 0xe000, 0xe800, 0xbc0c, 0x4352, 0x601a, 0xe800]);
    check(&cpu, &[(0x1f8, 8), (0x1fc, 0x200), (0x200, 64)]);
}

#[test]
fn emutest_thm4() {
    // mov r0,#4; mov r1,#5; mov r2,sp; str r0,[r2]; str r1,[r2,#4];
    // ldr r3,[r2]; ldr r4,[r2,#4]; str r3,[sp]; str r4,[sp,#4]
    let cpu = run_program(&[
        0x2004, 0x2105, 0x466a, 0x6010, 0x6051, 0x6813, 0x6854, 0x9300, 0x9401, 0xe800,
    ]);
    check(&cpu, &[(0x200, 4), (0x204, 5)]);
    assert_eq!(cpu.reg(3), 4);
    assert_eq!(cpu.reg(4), 5);
}
