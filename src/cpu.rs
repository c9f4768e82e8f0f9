//! The processor: register file, memory and breakpoints, stepped one
//! instruction at a time.
use vstd::prelude::*;
use crate::bits::{
    FLAG_C, FLAG_V, add_flags, arg_shift, arg_shift0, cond_met, extract, flag, lemma_result_flags,
    set_flags, sub_flags, FLAG_T,
};
use crate::decode::Instruction;
use crate::ram::{peek16, peek32, peek8, poke16, poke32, poke8, Ram};
use crate::reg::{bank, slot, Reg, RegFile, CPSR, NUM_REGS, NUM_SLOTS};
use crate::semantics::{
    alu, bit_of, count_from, count_regs, load_list, sext, step_add_sub, step_alu_op,
    step_block_xfer, step_branch, step_cond_branch, step_hi_reg_bx, step_hw_sgn_xfer,
    step_hw_xfer_i, step_imm_op, step_load_addr, step_long_branch, step_pc_load, step_push_pop,
    step_shifted, step_single_xfer_i, step_single_xfer_r, step_sp_add, step_sp_xfer, store_list,
    thumb_step, wadd, wsub, Core,
};

verus! {

/// `a + b` modulo 2^32.
pub fn add32(a: u32, b: u32) -> (r: u32)
    ensures
        r == wadd(a, b as int),
{
    a.wrapping_add(b)
}

/// `a - b` modulo 2^32.
pub fn sub32(a: u32, b: u32) -> (r: u32)
    ensures
        r == wsub(a, b as int),
{
    a.wrapping_sub(b)
}

/// Bit `n` of `w`.
pub fn bit(w: u32, n: u32) -> (r: u32)
    requires
        n < 32,
    ensures
        r == bit_of(w, n),
        r < 2,
{
    let r = (w >> n) & 1;
    assert((w >> n) & 1 < 2) by (bit_vector);
    r
}

/// Widens the low `bits` bits of `v`, read as a two's complement number.
pub fn sign_extend(v: u32, bits: u32) -> (r: u32)
    requires
        1 <= bits < 32,
    ensures
        r == sext(v, bits),
{
    assert(1u32 << bits >= 1) by (bit_vector)
        requires
            bits < 32,
    ;
    if (v >> (bits - 1)) & 1 == 1 {
        v | !((1u32 << bits) - 1)
    } else {
        v
    }
}

/// The status register after an update that keeps its low 28 bits keeps its
/// mode.
proof fn lemma_same_mode(a: u32, b: u32)
    requires
        a & 0x0fff_ffff == b & 0x0fff_ffff,
    ensures
        a & 0x1F == b & 0x1F,
{
    assert(a & 0x0fff_ffff == b & 0x0fff_ffff ==> a & 0x1F == b & 0x1F) by (bit_vector);
}

/// Setting or clearing the T bit keeps the mode.
proof fn lemma_t_keeps_mode(cpsr: u32, t: u32)
    requires
        t < 2,
    ensures
        ((cpsr & !(1u32 << FLAG_T)) | (t << FLAG_T)) & 0x1F == cpsr & 0x1F,
{
    assert(t < 2 ==> ((cpsr & !(1u32 << 5u32)) | (t << 5u32)) & 0x1F == cpsr & 0x1F)
        by (bit_vector);
}

/// An ARM7TDMI core with its memory.
pub struct Cpu {
    reg: RegFile,
    mmu: Ram,
    brk: Vec<u32>,
}

/// The physical register slots after CPSR is set to System mode.
pub open spec fn reset_slots() -> Seq<u32> {
    Seq::new(NUM_SLOTS as nat, |i: int| if i == 31 { 0x1Fu32 } else { 0u32 })
}

/// The physical register slots after each `(register, value)` pair of
/// `seed` is written in order, each in the mode current at its turn.
pub open spec fn seeded(slots: Seq<u32>, seed: Seq<(Reg, u32)>) -> Seq<u32>
    decreases seed.len(),
{
    if seed.len() == 0 {
        slots
    } else {
        let p = seeded(slots, seed.drop_last());
        p.update(slot(p[31], seed.last().0 as int), seed.last().1)
    }
}

/// R0..R15 as the mode in slot 31 sees them.
pub open spec fn visible(slots: Seq<u32>) -> Seq<u32> {
    Seq::new(16, |r: int| slots[slot(slots[31], r)])
}

/// Whether slot `i` is one that mode `m` sees as R0..R15 or CPSR.
pub open spec fn seen(m: u32, i: int) -> bool {
    let b = bank(m);
    i < 8 || i == 30 || i == 31 || (if b == 1 {
        13 <= i < 18
    } else {
        8 <= i < 13
    }) || i == 18 + 2 * b || i == 19 + 2 * b
}

/// `b` keeps the mode of `a`, and every slot of `a` but those that this
/// mode sees as R0..R15 and CPSR: SPSRs and the other modes' banked
/// registers.
pub open spec fn keeps_banks(a: Seq<u32>, b: Seq<u32>) -> bool {
    &&& a.len() == NUM_SLOTS
    &&& b.len() == NUM_SLOTS
    &&& a[31] & 0x1F == b[31] & 0x1F
    &&& forall|i: int| 0 <= i < NUM_SLOTS && !seen(a[31], i) ==> #[trigger] b[i] == a[i]
}

/// Keeping the banks is transitive.
proof fn lemma_keeps_trans(a: Seq<u32>, b: Seq<u32>, c: Seq<u32>)
    requires
        keeps_banks(a, b),
        keeps_banks(b, c),
    ensures
        keeps_banks(a, c),
{
    assert(bank(a[31]) == bank(b[31]));
}

/// One cycle: a Thumb instruction when the T bit is set. This core has no
/// ARM executor, so in ARM state a cycle changes nothing and stops.
pub open spec fn cycle_step(s: Core) -> (Core, bool) {
    if flag(s.cpsr, FLAG_T) {
        thumb_step(s)
    } else {
        (s, false)
    }
}

/// At most `n` cycles from `s`, stopping after the first that says to stop:
/// the state reached and whether such a cycle came.
pub open spec fn run_for(s: Core, n: nat) -> (Core, bool)
    decreases n,
{
    if n == 0 {
        (s, false)
    } else {
        let (s1, go) = cycle_step(s);
        if !go {
            (s1, true)
        } else {
            run_for(s1, (n - 1) as nat)
        }
    }
}

impl Cpu {
    /// The registers, status register and memory.
    pub closed spec fn state(&self) -> Core {
        Core { regs: self.reg.regs(), cpsr: self.reg.cpsr(), mem: self.mmu@ }
    }

    /// All physical register slots, banked ones included.
    pub closed spec fn slots(&self) -> Seq<u32> {
        self.reg.slots()
    }

    /// The breakpoint addresses.
    pub closed spec fn breaks(&self) -> Set<u32> {
        Set::new(|a: u32| self.brk@.contains(a))
    }

    /// The core is well formed.
    pub closed spec fn wf(&self) -> bool {
        self.reg.wf()
    }

    /// A well-formed core has all its slots and shows sixteen registers: the
    /// ones that the mode in CPSR selects.
    pub proof fn lemma_wf_state(&self)
        requires
            self.wf(),
        ensures
            self.slots().len() == NUM_SLOTS,
            self.state().regs.len() == 16,
            self.state().regs == visible(self.slots()),
            self.state().cpsr == self.slots()[31],
    {
        assert(self.state().regs =~= visible(self.slots()));
    }

    /// A core over memory `mmu` in System mode, in ARM state and with clear
    /// flags, to which each `(register, value)` pair of `regs` is then
    /// written in order. It has no breakpoints.
    pub fn new(mmu: Ram, regs: &[(Reg, u32)]) -> (r: Cpu)
        requires
            forall|i: int| 0 <= i < regs@.len() ==> (#[trigger] regs@[i]).0 < NUM_REGS,
        ensures
            r.wf(),
            r.slots() == seeded(reset_slots(), regs@),
            r.state() == (Core {
                regs: visible(seeded(reset_slots(), regs@)),
                cpsr: seeded(reset_slots(), regs@)[31],
                mem: mmu@,
            }),
            r.breaks() == Set::<u32>::empty(),
    {
        let mut cpu = Cpu { reg: RegFile::new(), mmu: mmu, brk: Vec::new() };
        proof {
            assert(cpu.slots().update(31, 0x1F) =~= reset_slots());
        }
        cpu.init(regs);
        proof {
            assert(cpu.breaks() =~= Set::<u32>::empty());
            assert(cpu.state().regs =~= visible(seeded(reset_slots(), regs@)));
        }
        cpu
    }

    fn init(&mut self, regs: &[(Reg, u32)])
        requires
            old(self).wf(),
            forall|i: int| 0 <= i < regs@.len() ==> (#[trigger] regs@[i]).0 < NUM_REGS,
        ensures
            final(self).wf(),
            final(self).slots() == seeded(old(self).slots().update(31, 0x1F), regs@),
            final(self).mmu == old(self).mmu,
            final(self).brk == old(self).brk,
    {
        let ghost start = old(self).slots().update(31, 0x1F);
        self.reg.set_mode(0, CPSR, 0x1F);
        let mut i: usize = 0;
        while i < regs.len()
            invariant
                i <= regs@.len(),
                self.wf(),
                self.slots() == seeded(start, regs@.subrange(0, i as int)),
                self.mmu == old(self).mmu,
                self.brk == old(self).brk,
                forall|j: int| 0 <= j < regs@.len() ==> (#[trigger] regs@[j]).0 < NUM_REGS,
            decreases regs@.len() - i,
        {
            let (r, v) = regs[i];
            self.reg.set(r, v);
            proof {
                let pre = regs@.subrange(0, i as int + 1);
                assert(pre.drop_last() =~= regs@.subrange(0, i as int));
                assert(pre.last() == regs@[i as int]);
            }
            i = i + 1;
        }
        proof {
            assert(regs@.subrange(0, regs@.len() as int) =~= regs@);
        }
    }

    /// Adds each address of `brks` to the breakpoints.
    pub fn set_breaks(&mut self, brks: &[u32])
        requires
            old(self).wf(),
        ensures
            final(self).wf(),
            final(self).state() == old(self).state(),
            final(self).breaks() == old(self).breaks() + brks@.to_set(),
            final(self).slots() == old(self).slots(),
    {
        let mut i: usize = 0;
        while i < brks.len()
            invariant
                i <= brks@.len(),
                self.wf(),
                self.state() == old(self).state(),
                self.breaks() == old(self).breaks() + brks@.subrange(0, i as int).to_set(),
                self.slots() == old(self).slots(),
            decreases brks@.len() - i,
        {
            let ghost before = self.brk@;
            assert(Set::new(|a: u32| before.contains(a)) == self.breaks());
            self.brk.push(brks[i]);
            proof {
                let a = brks@[i as int];
                assert(self.brk@ == before.push(a));
                assert forall|x: u32| self.brk@.contains(x) <==> before.contains(x) || x == a by {
                    if before.contains(x) {
                        let k = choose|k: int| 0 <= k < before.len() && before[k] == x;
                        assert(self.brk@[k] == x);
                    }
                    if x == a {
                        assert(self.brk@[before.len() as int] == x);
                    }
                    if self.brk@.contains(x) {
                        let k = choose|k: int| 0 <= k < self.brk@.len() && self.brk@[k] == x;
                        if k < before.len() {
                            assert(before[k] == x);
                        }
                    }
                }
                let p0 = brks@.subrange(0, i as int);
                let p1 = brks@.subrange(0, i as int + 1);
                assert forall|x: u32| p1.contains(x) <==> p0.contains(x) || x == a by {
                    if p0.contains(x) {
                        let k = choose|k: int| 0 <= k < p0.len() && p0[k] == x;
                        assert(p1[k] == x);
                    }
                    if x == a {
                        assert(p1[i as int] == x);
                    }
                    if p1.contains(x) {
                        let k = choose|k: int| 0 <= k < p1.len() && p1[k] == x;
                        if k < i {
                            assert(p0[k] == x);
                        }
                    }
                }
                assert forall|x: u32| #[trigger] self.breaks().contains(x) == (old(self).breaks()
                    + p1.to_set()).contains(x) by {
                    assert(self.breaks().contains(x) == self.brk@.contains(x));
                    assert(p1.to_set().contains(x) == p1.contains(x));
                    assert(p0.to_set().contains(x) == p0.contains(x));
                    assert(before.contains(x) == (old(self).breaks() + p0.to_set()).contains(x));
                }
                assert(self.breaks() =~= old(self).breaks() + p1.to_set());
            }
            i = i + 1;
        }
        proof {
            assert(brks@.subrange(0, brks@.len() as int) =~= brks@);
        }
    }

    /// Whether the PC is at a breakpoint.
    pub fn at_breakpoint(&self) -> (r: bool)
        requires
            self.wf(),
        ensures
            r == self.breaks().contains(self.state().regs[15]),
    {
        let pc = self.reg.get(15);
        let mut i: usize = 0;
        while i < self.brk.len()
            invariant
                i <= self.brk@.len(),
                pc == self.state().regs[15],
                forall|j: int| 0 <= j < i ==> self.brk@[j] != pc,
            decreases self.brk@.len() - i,
        {
            if self.brk[i] == pc {
                return true;
            }
            i = i + 1;
        }
        false
    }

    /// Sets the T bit to `thumb` and keeps every other bit.
    pub fn set_thumb_mode(&mut self, thumb: bool)
        requires
            old(self).wf(),
        ensures
            final(self).wf(),
            final(self).state() == (Core {
                cpsr: (old(self).state().cpsr & !(1u32 << FLAG_T)) | ((if thumb {
                    1u32
                } else {
                    0u32
                }) << FLAG_T),
                ..old(self).state()
            }),
            flag(final(self).state().cpsr, FLAG_T) == thumb,
            final(self).breaks() == old(self).breaks(),
            keeps_banks(old(self).slots(), final(self).slots()),
    {
        let t: u32 = if thumb { 1 } else { 0 };
        let cpsr = self.reg.get(CPSR);
        let new_cpsr = (cpsr & !(1u32 << FLAG_T)) | (t << FLAG_T);
        proof {
            lemma_t_keeps_mode(cpsr, t);
            assert(t < 2 ==> (((cpsr & !(1u32 << 5u32)) | (t << 5u32)) >> 5u32) & 1 == t)
                by (bit_vector);
        }
        self.reg.set(CPSR, new_cpsr);
    }

    /// Whether the core is in Thumb state.
    pub fn thumb_mode(&self) -> (r: bool)
        requires
            self.wf(),
        ensures
            r == flag(self.state().cpsr, FLAG_T),
    {
        (self.reg.get(CPSR) >> FLAG_T) & 1 == 1
    }

    /// The memory.
    pub fn mmu(&self) -> (r: &Ram)
        ensures
            r@ == self.state().mem,
    {
        &self.mmu
    }

    /// Reads R0..R15 in the current mode.
    pub fn reg(&self, r: Reg) -> (v: u32)
        requires
            self.wf(),
            r < 16,
        ensures
            v == self.state().regs[r as int],
    {
        self.reg.get(r)
    }

    /// Reads the status register.
    pub fn cpsr(&self) -> (v: u32)
        requires
            self.wf(),
        ensures
            v == self.state().cpsr,
    {
        self.reg.get(CPSR)
    }

    fn rd(&self, r: u32) -> (v: u32)
        requires
            self.wf(),
            r < 16,
        ensures
            v == self.state().get(r),
    {
        self.reg.get(r as usize)
    }

    fn wr(&mut self, r: u32, v: u32)
        requires
            old(self).wf(),
            r < 16,
        ensures
            final(self).wf(),
            final(self).state() == old(self).state().put(r, v),
            final(self).brk == old(self).brk,
            keeps_banks(old(self).slots(), final(self).slots()),
    {
        self.reg.set(r as usize, v);
    }

    fn write_flags(&mut self, res: u32, v: bool, c: bool)
        requires
            old(self).wf(),
        ensures
            final(self).wf(),
            final(self).state() == old(self).state().flags(res, v, c),
            final(self).brk == old(self).brk,
            keeps_banks(old(self).slots(), final(self).slots()),
    {
        let cpsr = self.reg.get(CPSR);
        let n = set_flags(cpsr, res, v, c);
        proof {
            lemma_result_flags(cpsr, res, v, c);
            lemma_same_mode(n, cpsr);
        }
        self.reg.set(CPSR, n);
    }

    fn store8(&mut self, addr: u32, v: u8)
        requires
            old(self).wf(),
        ensures
            final(self).wf(),
            final(self).state() == old(self).state().with_mem(poke8(old(self).state().mem, addr, v)),
            final(self).brk == old(self).brk,
            keeps_banks(old(self).slots(), final(self).slots()),
    {
        self.mmu.set8(addr, v);
    }

    fn store16(&mut self, addr: u32, v: u16)
        requires
            old(self).wf(),
        ensures
            final(self).wf(),
            final(self).state() == old(self).state().with_mem(poke16(old(self).state().mem, addr, v)),
            final(self).brk == old(self).brk,
            keeps_banks(old(self).slots(), final(self).slots()),
    {
        self.mmu.set16(addr, v);
    }

    fn store32(&mut self, addr: u32, v: u32)
        requires
            old(self).wf(),
        ensures
            final(self).wf(),
            final(self).state() == old(self).state().with_mem(poke32(old(self).state().mem, addr, v)),
            final(self).brk == old(self).brk,
            keeps_banks(old(self).slots(), final(self).slots()),
    {
        self.mmu.set32(addr, v);
    }

    fn load8(&self, addr: u32) -> (r: u8)
        ensures
            r == peek8(self.state().mem, addr),
    {
        self.mmu.load8(addr)
    }

    fn load16(&self, addr: u32) -> (r: u16)
        ensures
            r == peek16(self.state().mem, addr),
    {
        self.mmu.load16(addr)
    }

    fn load32(&self, addr: u32) -> (r: u32)
        ensures
            r == peek32(self.state().mem, addr),
    {
        self.mmu.load32(addr)
    }
}

/// Computes `alu(op, d, m, v, c)`: the result, V and C of ALU operation
/// `op`.
pub fn alu_op(op: u32, d: u32, m: u32, v: bool, c: bool) -> (r: (u32, bool, bool))
    ensures
        r == alu(op, d, m, v, c),
{
    if op == 0x0 || op == 0x8 {
        (d & m, v, c)
    } else if op == 0x1 {
        (d ^ m, v, c)
    } else if op == 0x2 || op == 0x3 || op == 0x4 || op == 0x7 {
        let amount = m & 0xff;
        if amount == 0 {
            (d, v, c)
        } else {
            let (res, nc) = arg_shift(d, amount, ((op >> 1u32) & 2) | (op & 1));
            (res, v, nc)
        }
    } else if op == 0x5 {
        add_flags(d, m, c)
    } else if op == 0x6 {
        add_flags(d, !m, c)
    } else if op == 0x9 {
        sub_flags(0, m)
    } else if op == 0xA {
        sub_flags(d, m)
    } else if op == 0xB {
        add_flags(d, m, false)
    } else if op == 0xC {
        (d | m, v, c)
    } else if op == 0xD {
        (d.wrapping_mul(m), v, false)
    } else if op == 0xE {
        (d & !m, v, c)
    } else {
        (!m, v, c)
    }
}

/// The number of registers in a register list.
pub fn count_list(list: u32) -> (n: u32)
    ensures
        n == count_regs(list),
        n <= 16,
{
    let mut n: u32 = 0;
    let mut i: u32 = 0;
    while i < 16
        invariant
            i <= 16,
            n <= i,
            n + count_from(list, i as int) == count_from(list, 0),
        decreases 16 - i,
    {
        if (list >> i) & 1 == 1 {
            n = n + 1;
        }
        i = i + 1;
    }
    n
}

impl Cpu {
    fn flag_c(&self) -> (r: bool)
        requires
            self.wf(),
        ensures
            r == flag(self.state().cpsr, FLAG_C),
    {
        (self.reg.get(CPSR) >> FLAG_C) & 1 == 1
    }

    fn flag_v(&self) -> (r: bool)
        requires
            self.wf(),
        ensures
            r == flag(self.state().cpsr, FLAG_V),
    {
        (self.reg.get(CPSR) >> FLAG_V) & 1 == 1
    }

    /// Stores each listed register, in ascending order, at consecutive
    /// words from `addr`.
    fn store_regs(&mut self, list: u32, addr: u32)
        requires
            old(self).wf(),
        ensures
            final(self).wf(),
            final(self).state() == old(self).state().with_mem(
                store_list(old(self).state().mem, old(self).state().regs, list, 0, addr),
            ),
            final(self).brk == old(self).brk,
            keeps_banks(old(self).slots(), final(self).slots()),
    {
        let ghost s0 = self.state();
        let mut i: u32 = 0;
        let mut a = addr;
        while i < 16
            invariant
                i <= 16,
                self.wf(),
                self.state().regs == s0.regs,
                self.state().cpsr == s0.cpsr,
                store_list(self.state().mem, s0.regs, list, i as int, a) == store_list(
                    s0.mem,
                    s0.regs,
                    list,
                    0,
                    addr,
                ),
                self.brk == old(self).brk,
                keeps_banks(old(self).slots(), self.slots()),
            decreases 16 - i,
        {
            if (list >> i) & 1 == 1 {
                let v = self.rd(i);
                let ghost before = self.slots();
                self.store32(a, v);
                proof {
                    lemma_keeps_trans(old(self).slots(), before, self.slots());
                }
                a = add32(a, 4);
            }
            i = i + 1;
        }
    }

    /// Loads each listed register, in ascending order, from consecutive
    /// words from `addr`.
    fn load_regs(&mut self, list: u32, addr: u32)
        requires
            old(self).wf(),
        ensures
            final(self).wf(),
            final(self).state() == (Core {
                regs: load_list(old(self).state().regs, old(self).state().mem, list, 0, addr),
                ..old(self).state()
            }),
            final(self).brk == old(self).brk,
            keeps_banks(old(self).slots(), final(self).slots()),
    {
        let ghost s0 = self.state();
        let mut i: u32 = 0;
        let mut a = addr;
        while i < 16
            invariant
                i <= 16,
                self.wf(),
                self.state().mem == s0.mem,
                self.state().cpsr == s0.cpsr,
                self.state().regs.len() == 16,
                load_list(self.state().regs, s0.mem, list, i as int, a) == load_list(
                    s0.regs,
                    s0.mem,
                    list,
                    0,
                    addr,
                ),
                self.brk == old(self).brk,
                keeps_banks(old(self).slots(), self.slots()),
            decreases 16 - i,
        {
            if (list >> i) & 1 == 1 {
                let v = self.load32(a);
                let ghost before = self.slots();
                self.wr(i, v);
                proof {
                    lemma_keeps_trans(old(self).slots(), before, self.slots());
                }
                a = add32(a, 4);
            }
            i = i + 1;
        }
    }

    fn exec_shifted(&mut self, inst: u32)
        requires
            old(self).wf(),
        ensures
            final(self).wf(),
            final(self).state() == step_shifted(old(self).state(), inst),
            final(self).brk == old(self).brk,
            keeps_banks(old(self).slots(), final(self).slots()),
    {
        let op = extract(inst, 11, 2);
        let shift = extract(inst, 6, 5);
        let rs = extract(inst, 3, 3);
        let rd = extract(inst, 0, 3);
        let c = self.flag_c();
        let v = self.flag_v();
        let val = self.rd(rs);
        let (res, new_c) = if shift == 0 {
            arg_shift0(val, op, c)
        } else {
            arg_shift(val, shift, op)
        };
        self.wr(rd, res);
        self.write_flags(res, v, new_c);
    }

    fn exec_add_sub(&mut self, inst: u32)
        requires
            old(self).wf(),
        ensures
            final(self).wf(),
            final(self).state() == step_add_sub(old(self).state(), inst),
            final(self).brk == old(self).brk,
            keeps_banks(old(self).slots(), final(self).slots()),
    {
        let i = bit(inst, 10);
        let op = bit(inst, 9);
        let rs = extract(inst, 3, 3);
        let rd = extract(inst, 0, 3);
        let rn = extract(inst, 6, 3);
        let val2 = if i == 0 {
            self.rd(rn)
        } else {
            rn
        };
        let val1 = self.rd(rs);
        let (res, new_v, new_c) = if op == 0 {
            add_flags(val1, val2, false)
        } else {
            sub_flags(val1, val2)
        };
        self.wr(rd, res);
        self.write_flags(res, new_v, new_c);
    }

    fn exec_imm_op(&mut self, inst: u32)
        requires
            old(self).wf(),
        ensures
            final(self).wf(),
            final(self).state() == step_imm_op(old(self).state(), inst),
            final(self).brk == old(self).brk,
            keeps_banks(old(self).slots(), final(self).slots()),
    {
        let op = extract(inst, 11, 2);
        let rd = extract(inst, 8, 3);
        let imm = extract(inst, 0, 8);
        let c = self.flag_c();
        let v = self.flag_v();
        let (res, new_v, new_c) = if op == 0 {
            (imm, v, c)
        } else if op == 2 {
            add_flags(self.rd(rd), imm, false)
        } else {
            sub_flags(self.rd(rd), imm)
        };
        if op != 1 {
            self.wr(rd, res);
        }
        self.write_flags(res, new_v, new_c);
    }

    fn exec_alu_op(&mut self, inst: u32)
        requires
            old(self).wf(),
        ensures
            final(self).wf(),
            final(self).state() == step_alu_op(old(self).state(), inst),
            final(self).brk == old(self).brk,
            keeps_banks(old(self).slots(), final(self).slots()),
    {
        let op = extract(inst, 6, 4);
        let rs = extract(inst, 3, 3);
        let rd = extract(inst, 0, 3);
        let c = self.flag_c();
        let v = self.flag_v();
        let (res, new_v, new_c) = alu_op(op, self.rd(rd), self.rd(rs), v, c);
        if !(op == 0x8 || op == 0xA || op == 0xB) {
            self.wr(rd, res);
        }
        self.write_flags(res, new_v, new_c);
    }

    fn exec_hi_reg_bx(&mut self, inst: u32)
        requires
            old(self).wf(),
        ensures
            final(self).wf(),
            final(self).state() == step_hi_reg_bx(old(self).state(), inst),
            final(self).brk == old(self).brk,
            keeps_banks(old(self).slots(), final(self).slots()),
    {
        let op = extract(inst, 8, 2);
        let hd = bit(inst, 7);
        let hs = bit(inst, 6);
        let rs = extract(inst, 3, 3);
        let rd = extract(inst, 0, 3);
        let crs = hs * 8 + rs;
        let crd = hd * 8 + rd;
        let vals = add32(self.rd(crs), if crs == 15 { 2 } else { 0 });
        if op == 0 {
            let d = self.rd(crd);
            self.wr(crd, add32(d, vals));
        } else if op == 1 {
            let (res, new_v, new_c) = sub_flags(self.rd(crd), vals);
            self.write_flags(res, new_v, new_c);
        } else if op == 2 {
            self.wr(crd, vals);
        } else {
            let t = vals & 1;
            assert(vals & 1 < 2) by (bit_vector);
            let pc = if t == 0 {
                vals & !3u32
            } else {
                vals & !1u32
            };
            self.wr(15, pc);
            let cpsr = self.reg.get(CPSR);
            proof {
                lemma_t_keeps_mode(cpsr, t);
            }
            self.reg.set(CPSR, (cpsr & !(1u32 << FLAG_T)) | (t << FLAG_T));
        }
    }

    fn exec_pc_load(&mut self, inst: u32)
        requires
            old(self).wf(),
        ensures
            final(self).wf(),
            final(self).state() == step_pc_load(old(self).state(), inst),
            final(self).brk == old(self).brk,
            keeps_banks(old(self).slots(), final(self).slots()),
    {
        let rd = extract(inst, 8, 3);
        let offset = extract(inst, 0, 8);
        let addr = add32(add32(self.rd(15), 2), offset * 4) & !3u32;
        let val = self.load32(addr);
        self.wr(rd, val);
    }

    fn exec_single_xfer_r(&mut self, inst: u32)
        requires
            old(self).wf(),
        ensures
            final(self).wf(),
            final(self).state() == step_single_xfer_r(old(self).state(), inst),
            final(self).brk == old(self).brk,
            keeps_banks(old(self).slots(), final(self).slots()),
    {
        let l = bit(inst, 11);
        let b = bit(inst, 10);
        let ro = extract(inst, 6, 3);
        let rb = extract(inst, 3, 3);
        let rd = extract(inst, 0, 3);
        let addr = add32(self.rd(rb), self.rd(ro));
        if l == 0 && b == 0 {
            let v = self.rd(rd);
            self.store32(addr & !3u32, v);
        } else if l == 0 {
            let v = self.rd(rd);
            self.store8(addr, v as u8);
        } else if b == 0 {
            let v = self.load32(addr & !3u32);
            self.wr(rd, v);
        } else {
            let v = self.load8(addr) as u32;
            self.wr(rd, v);
        }
    }

    fn exec_hw_sgn_xfer(&mut self, inst: u32)
        requires
            old(self).wf(),
        ensures
            final(self).wf(),
            final(self).state() == step_hw_sgn_xfer(old(self).state(), inst),
            final(self).brk == old(self).brk,
            keeps_banks(old(self).slots(), final(self).slots()),
    {
        let h = bit(inst, 11);
        let sg = bit(inst, 10);
        let ro = extract(inst, 6, 3);
        let rb = extract(inst, 3, 3);
        let rd = extract(inst, 0, 3);
        let addr = add32(self.rd(rb), self.rd(ro));
        if h == 0 && sg == 0 {
            let v = self.rd(rd);
            self.store16(addr & !1u32, v as u16);
        } else if h == 0 {
            let v = self.load16(addr & !1u32) as u32;
            self.wr(rd, v);
        } else if sg == 0 {
            let v = sign_extend(self.load8(addr) as u32, 8);
            self.wr(rd, v);
        } else {
            let v = sign_extend(self.load16(addr & !1u32) as u32, 16);
            self.wr(rd, v);
        }
    }

    fn exec_single_xfer_i(&mut self, inst: u32)
        requires
            old(self).wf(),
        ensures
            final(self).wf(),
            final(self).state() == step_single_xfer_i(old(self).state(), inst),
            final(self).brk == old(self).brk,
            keeps_banks(old(self).slots(), final(self).slots()),
    {
        let l = bit(inst, 11);
        let b = bit(inst, 12);
        let offset = extract(inst, 6, 5);
        let rb = extract(inst, 3, 3);
        let rd = extract(inst, 0, 3);
        let base = self.rd(rb);
        if b == 0 {
            let addr = add32(base, offset * 4) & !3u32;
            if l == 0 {
                let v = self.rd(rd);
                self.store32(addr, v);
            } else {
                let v = self.load32(addr);
                self.wr(rd, v);
            }
        } else {
            let addr = add32(base, offset);
            if l == 0 {
                let v = self.rd(rd);
                self.store8(addr, v as u8);
            } else {
                let v = self.load8(addr) as u32;
                self.wr(rd, v);
            }
        }
    }

    fn exec_hw_xfer_i(&mut self, inst: u32)
        requires
            old(self).wf(),
        ensures
            final(self).wf(),
            final(self).state() == step_hw_xfer_i(old(self).state(), inst),
            final(self).brk == old(self).brk,
            keeps_banks(old(self).slots(), final(self).slots()),
    {
        let l = bit(inst, 11);
        let offset = extract(inst, 6, 5);
        let rb = extract(inst, 3, 3);
        let rd = extract(inst, 0, 3);
        let addr = add32(self.rd(rb), offset * 2) & !1u32;
        if l == 0 {
            let v = self.rd(rd);
            self.store16(addr, v as u16);
        } else {
            let v = self.load16(addr) as u32;
            self.wr(rd, v);
        }
    }

    fn exec_sp_xfer(&mut self, inst: u32)
        requires
            old(self).wf(),
        ensures
            final(self).wf(),
            final(self).state() == step_sp_xfer(old(self).state(), inst),
            final(self).brk == old(self).brk,
            keeps_banks(old(self).slots(), final(self).slots()),
    {
        let l = bit(inst, 11);
        let rd = extract(inst, 8, 3);
        let offset = extract(inst, 0, 8) * 4;
        let addr = add32(self.rd(13), offset) & !3u32;
        if l == 0 {
            let v = self.rd(rd);
            self.store32(addr, v);
        } else {
            let v = self.load32(addr);
            self.wr(rd, v);
        }
    }

    fn exec_load_addr(&mut self, inst: u32)
        requires
            old(self).wf(),
        ensures
            final(self).wf(),
            final(self).state() == step_load_addr(old(self).state(), inst),
            final(self).brk == old(self).brk,
            keeps_banks(old(self).slots(), final(self).slots()),
    {
        let s = bit(inst, 11);
        let rd = extract(inst, 8, 3);
        let imm = extract(inst, 0, 8);
        let base = if s == 0 {
            add32(self.rd(15), 2) & !1u32
        } else {
            self.rd(13)
        };
        self.wr(rd, add32(base, imm * 4));
    }

    fn exec_sp_add(&mut self, inst: u32)
        requires
            old(self).wf(),
        ensures
            final(self).wf(),
            final(self).state() == step_sp_add(old(self).state(), inst),
            final(self).brk == old(self).brk,
            keeps_banks(old(self).slots(), final(self).slots()),
    {
        let s = bit(inst, 7);
        let imm = extract(inst, 0, 7) * 4;
        let sp = self.rd(13);
        self.wr(
            13,
            if s == 0 {
                add32(sp, imm)
            } else {
                sub32(sp, imm)
            },
        );
    }

    fn exec_push_pop(&mut self, inst: u32)
        requires
            old(self).wf(),
        ensures
            final(self).wf(),
            final(self).state() == step_push_pop(old(self).state(), inst),
            final(self).brk == old(self).brk,
            keeps_banks(old(self).slots(), final(self).slots()),
    {
        let l = bit(inst, 11);
        let r = bit(inst, 8);
        let list = extract(inst, 0, 8) | (if r == 1 {
            if l == 0 {
                0x4000u32
            } else {
                0x8000u32
            }
        } else {
            0u32
        });
        let total = count_list(list);
        let base = self.rd(13) & !3u32;
        if l == 0 {
            let post = sub32(base, total * 4);
            self.store_regs(list, post);
            self.wr(13, post);
        } else {
            let post = add32(base, total * 4);
            self.load_regs(list, base);
            self.wr(13, post);
        }
    }

    fn exec_block_xfer(&mut self, inst: u32)
        requires
            old(self).wf(),
        ensures
            final(self).wf(),
            final(self).state() == step_block_xfer(old(self).state(), inst),
            final(self).brk == old(self).brk,
            keeps_banks(old(self).slots(), final(self).slots()),
    {
        let l = bit(inst, 11);
        let rb = extract(inst, 8, 3);
        let list = extract(inst, 0, 8);
        let total = count_list(list);
        let base = self.rd(rb);
        let wb = add32(base, total * 4);
        if l == 0 {
            assert(1u32 << rb >= 1) by (bit_vector)
                requires
                    rb < 8,
            ;
            let lowest = list & ((1u32 << rb) - 1) == 0;
            if lowest {
                self.store_regs(list, base & !3u32);
                self.wr(rb, wb);
            } else {
                self.wr(rb, wb);
                self.store_regs(list, base & !3u32);
            }
        } else {
            self.wr(rb, wb);
            self.load_regs(list, base & !3u32);
        }
    }

    fn exec_cond_branch(&mut self, inst: u32, pc: u32)
        requires
            old(self).wf(),
        ensures
            final(self).wf(),
            final(self).state() == step_cond_branch(old(self).state(), inst, pc),
            final(self).brk == old(self).brk,
            keeps_banks(old(self).slots(), final(self).slots()),
    {
        let cond = extract(inst, 8, 4);
        let offset = sign_extend(extract(inst, 0, 8), 8);
        let cpsr = self.reg.get(CPSR);
        if cond_met(cond, cpsr) {
            self.wr(15, add32(add32(pc, 4), offset << 1u32));
        }
    }

    fn exec_branch(&mut self, inst: u32, pc: u32)
        requires
            old(self).wf(),
        ensures
            final(self).wf(),
            final(self).state() == step_branch(old(self).state(), inst, pc),
            final(self).brk == old(self).brk,
            keeps_banks(old(self).slots(), final(self).slots()),
    {
        let offset = sign_extend(extract(inst, 0, 11) << 1u32, 12);
        self.wr(15, add32(add32(pc, 4), offset));
    }

    fn exec_long_branch(&mut self, inst: u32, pc: u32)
        requires
            old(self).wf(),
        ensures
            final(self).wf(),
            final(self).state() == step_long_branch(old(self).state(), inst, pc),
            final(self).brk == old(self).brk,
            keeps_banks(old(self).slots(), final(self).slots()),
    {
        let h = bit(inst, 11);
        let offset = extract(inst, 0, 11);
        if h == 0 {
            self.wr(14, add32(add32(pc, 4), sign_extend(offset << 12u32, 23)));
        } else {
            let lr = self.rd(14);
            self.wr(15, add32(lr, offset << 1u32));
            self.wr(14, add32(pc, 2) | 1);
        }
    }

    /// Executes the Thumb instruction at the PC and says whether execution
    /// goes on: `false` on an undefined word and on SWI.
    pub fn execute_thumb(&mut self) -> (r: bool)
        requires
            old(self).wf(),
        ensures
            final(self).wf(),
            (final(self).state(), r) == thumb_step(old(self).state()),
            final(self).breaks() == old(self).breaks(),
            keeps_banks(old(self).slots(), final(self).slots()),
    {
        let pc = self.rd(15);
        let inst = self.load16(pc & !1u32) as u32;
        self.wr(15, add32(pc, 2));
        match Instruction::decode(inst as u16) {
            Instruction::Shifted => self.exec_shifted(inst),
            Instruction::AddSub => self.exec_add_sub(inst),
            Instruction::ImmOp => self.exec_imm_op(inst),
            Instruction::AluOp => self.exec_alu_op(inst),
            Instruction::HiRegBx => self.exec_hi_reg_bx(inst),
            Instruction::PcLoad => self.exec_pc_load(inst),
            Instruction::SingleXferR => self.exec_single_xfer_r(inst),
            Instruction::HwSgnXfer => self.exec_hw_sgn_xfer(inst),
            Instruction::SingleXferI => self.exec_single_xfer_i(inst),
            Instruction::HwXferI => self.exec_hw_xfer_i(inst),
            Instruction::SpXfer => self.exec_sp_xfer(inst),
            Instruction::LoadAddr => self.exec_load_addr(inst),
            Instruction::SpAdd => self.exec_sp_add(inst),
            Instruction::PushPop => self.exec_push_pop(inst),
            Instruction::BlockXfer => self.exec_block_xfer(inst),
            Instruction::CondBranch => self.exec_cond_branch(inst, pc),
            Instruction::Branch => self.exec_branch(inst, pc),
            Instruction::LongBranch => self.exec_long_branch(inst, pc),
            Instruction::SoftwareInt => return false,
            Instruction::Undefined => return false,
        }
        true
    }

    /// Executes one instruction and says whether execution goes on. In ARM
    /// state nothing is executed and the answer is `false`.
    pub fn cycle(&mut self) -> (r: bool)
        requires
            old(self).wf(),
        ensures
            final(self).wf(),
            (final(self).state(), r) == cycle_step(old(self).state()),
            final(self).breaks() == old(self).breaks(),
            keeps_banks(old(self).slots(), final(self).slots()),
    {
        if !self.thumb_mode() {
            false
        } else {
            self.execute_thumb()
        }
    }

    /// Runs cycles until one says to stop, or `max_cycles` have run. Returns
    /// whether a cycle said to stop.
    pub fn run(&mut self, max_cycles: u64) -> (stopped: bool)
        requires
            old(self).wf(),
        ensures
            final(self).wf(),
            (final(self).state(), stopped) == run_for(old(self).state(), max_cycles as nat),
            final(self).breaks() == old(self).breaks(),
            keeps_banks(old(self).slots(), final(self).slots()),
    {
        let mut n = max_cycles;
        while n > 0
            invariant
                self.wf(),
                run_for(self.state(), n as nat) == run_for(old(self).state(), max_cycles as nat),
                self.breaks() == old(self).breaks(),
                keeps_banks(old(self).slots(), self.slots()),
            decreases n,
        {
            let ghost before = self.slots();
            let go = self.cycle();
            proof {
                lemma_keeps_trans(old(self).slots(), before, self.slots());
            }
            if !go {
                return true;
            }
            n = n - 1;
        }
        false
    }
}

} // verus!
