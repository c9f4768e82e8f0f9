//! The banked register file: R0..R15, CPSR and the SPSRs, with R8..R14
//! selected by the processor mode in the low five bits of CPSR.
use vstd::prelude::*;

verus! {

/// A register index: 0..=15 are R0..R15, then CPSR and SPSR.
pub type Reg = usize;

/// The stack pointer.
pub const SP: Reg = 13;
/// The link register.
pub const LR: Reg = 14;
/// The program counter.
pub const PC: Reg = 15;
/// The current program status register.
pub const CPSR: Reg = 16;
/// The saved program status register of the current mode.
pub const SPSR: Reg = 17;
/// The number of register indices.
pub const NUM_REGS: usize = 18;

/// User mode.
pub const MODE_USR: u32 = 0x10;
/// Fast interrupt mode.
pub const MODE_FIQ: u32 = 0x11;
/// Interrupt mode.
pub const MODE_IRQ: u32 = 0x12;
/// Supervisor mode.
pub const MODE_SVC: u32 = 0x13;
/// Abort mode.
pub const MODE_ABT: u32 = 0x17;
/// Undefined-instruction mode.
pub const MODE_UND: u32 = 0x1B;
/// System mode; it shares its registers with User mode.
pub const MODE_SYS: u32 = 0x1F;

/// The number of physical register slots.
pub const NUM_SLOTS: usize = 38;

/// The register bank that the mode field of `m` selects: 0 for User and
/// System (and any unassigned encoding), then FIQ, IRQ, Supervisor, Abort
/// and Undefined.
pub open spec fn bank(m: u32) -> int {
    let f = m & 0x1F;
    if f == MODE_FIQ {
        1
    } else if f == MODE_IRQ {
        2
    } else if f == MODE_SVC {
        3
    } else if f == MODE_ABT {
        4
    } else if f == MODE_UND {
        5
    } else {
        0
    }
}

/// The physical slot that register `r` names in mode `m`. R0..R7 and R15
/// have one slot each; FIQ has its own R8..R12; every bank has its own R13,
/// R14 and SPSR.
pub open spec fn slot(m: u32, r: int) -> int {
    let b = bank(m);
    if r < 8 {
        r
    } else if r < 13 {
        if b == 1 {
            r + 5
        } else {
            r
        }
    } else if r < 15 {
        18 + 2 * b + (r - 13)
    } else if r == 15 {
        30
    } else if r == 16 {
        31
    } else {
        32 + b
    }
}

fn bank_of(m: u32) -> (b: usize)
    ensures
        b == bank(m),
{
    let f = m & 0x1F;
    if f == MODE_FIQ {
        1
    } else if f == MODE_IRQ {
        2
    } else if f == MODE_SVC {
        3
    } else if f == MODE_ABT {
        4
    } else if f == MODE_UND {
        5
    } else {
        0
    }
}

fn slot_of(m: u32, r: Reg) -> (s: usize)
    requires
        r < NUM_REGS,
    ensures
        s == slot(m, r as int),
        s < NUM_SLOTS,
{
    let b = bank_of(m);
    if r < 8 {
        r
    } else if r < 13 {
        if b == 1 {
            r + 5
        } else {
            r
        }
    } else if r < 15 {
        18 + 2 * b + (r - 13)
    } else if r == 15 {
        30
    } else if r == 16 {
        31
    } else {
        32 + b
    }
}

/// Two registers of one mode never share a slot.
pub proof fn lemma_slot_injective(m: u32, r1: int, r2: int)
    requires
        0 <= r1 < NUM_REGS,
        0 <= r2 < NUM_REGS,
        r1 != r2,
    ensures
        slot(m, r1) != slot(m, r2),
        0 <= slot(m, r1) < NUM_SLOTS,
{
}

/// R0..R7 and R15 name the same slot in every mode, User and System share
/// all their slots, and FIQ alone has its own R8..R12.
pub proof fn lemma_banking(m1: u32, m2: u32, r: int)
    requires
        0 <= r < NUM_REGS,
    ensures
        r < 8 || r == 15 || r == 16 ==> slot(m1, r) == slot(m2, r),
        slot(MODE_USR, r) == slot(MODE_SYS, r),
        8 <= r < 13 && bank(m1) != 1 && bank(m2) != 1 ==> slot(m1, r) == slot(m2, r),
        8 <= r < 15 && bank(m1) == 1 ==> slot(m1, r) != slot(MODE_USR, r),
{
    assert(MODE_USR & 0x1F == 0x10) by (bit_vector);
    assert(MODE_SYS & 0x1F == 0x1F) by (bit_vector);
}

/// The register file.
pub struct RegFile {
    slots: Vec<u32>,
}

impl RegFile {
    /// The physical slots.
    pub closed spec fn slots(&self) -> Seq<u32> {
        self.slots@
    }

    /// The register file holds all its slots.
    pub open spec fn wf(&self) -> bool {
        self.slots().len() == NUM_SLOTS
    }

    /// The status register.
    pub open spec fn cpsr(&self) -> u32 {
        self.slots()[31]
    }

    /// Register `r` as the mode `m` sees it.
    pub open spec fn banked(&self, m: u32, r: int) -> u32 {
        self.slots()[slot(m, r)]
    }

    /// R0..R15 as the current mode sees them.
    pub open spec fn regs(&self) -> Seq<u32> {
        Seq::new(16, |r: int| self.banked(self.cpsr(), r))
    }

    /// A register file with every slot zero.
    pub fn new() -> (r: RegFile)
        ensures
            r.wf(),
            r.slots() == Seq::new(NUM_SLOTS as nat, |i: int| 0u32),
    {
        let mut v: Vec<u32> = Vec::new();
        let mut i: usize = 0;
        while i < NUM_SLOTS
            invariant
                i <= NUM_SLOTS,
                v@ == Seq::new(i as nat, |j: int| 0u32),
            decreases NUM_SLOTS - i,
        {
            v.push(0);
            i = i + 1;
        }
        assert(v@ =~= Seq::new(NUM_SLOTS as nat, |j: int| 0u32));
        RegFile { slots: v }
    }

    /// Reads register `r` as mode `m` sees it.
    pub fn get_mode(&self, m: u32, r: Reg) -> (v: u32)
        requires
            self.wf(),
            r < NUM_REGS,
        ensures
            v == self.banked(m, r as int),
    {
        self.slots[slot_of(m, r)]
    }

    /// Writes register `r` as mode `m` sees it.
    pub fn set_mode(&mut self, m: u32, r: Reg, v: u32)
        requires
            old(self).wf(),
            r < NUM_REGS,
        ensures
            final(self).wf(),
            final(self).slots() == old(self).slots().update(slot(m, r as int), v),
    {
        let s = slot_of(m, r);
        self.slots.set(s, v);
    }

    /// Reads register `r` in the current mode.
    pub fn get(&self, r: Reg) -> (v: u32)
        requires
            self.wf(),
            r < NUM_REGS,
        ensures
            v == self.banked(self.cpsr(), r as int),
            r < 16 ==> v == self.regs()[r as int],
            r == CPSR ==> v == self.cpsr(),
    {
        let m = self.slots[31];
        self.get_mode(m, r)
    }

    /// Writes register `r` in the current mode. A write of R0..R15 changes
    /// that register alone; a write of CPSR that keeps the mode field keeps
    /// R0..R15.
    pub fn set(&mut self, r: Reg, v: u32)
        requires
            old(self).wf(),
            r < NUM_REGS,
        ensures
            final(self).wf(),
            final(self).slots() == old(self).slots().update(slot(old(self).cpsr(), r as int), v),
            r < 16 ==> final(self).regs() == old(self).regs().update(r as int, v),
            r < 16 ==> final(self).cpsr() == old(self).cpsr(),
            r == CPSR ==> final(self).cpsr() == v,
            r == CPSR && v & 0x1F == old(self).cpsr() & 0x1F ==> final(self).regs() == old(
                self,
            ).regs(),
    {
        let m = self.slots[31];
        self.set_mode(m, r, v);
        proof {
            let m0 = old(self).cpsr();
            if r < 16 {
                assert forall|q: int| 0 <= q < NUM_REGS && q != r implies slot(m0, q) != slot(
                    m0,
                    r as int,
                ) by {
                    lemma_slot_injective(m0, q, r as int);
                }
                assert(self.cpsr() == m0);
                assert(self.regs() =~= old(self).regs().update(r as int, v));
            }
            if r == CPSR && v & 0x1F == m0 & 0x1F {
                assert(bank(v) == bank(m0));
                assert(self.regs() =~= old(self).regs());
            }
        }
    }
}

} // verus!
