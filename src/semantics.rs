//! What one Thumb instruction does to the registers, the status register
//! and memory, stated over mathematical values.
use vstd::prelude::*;
use crate::bits::{
    add_carry, condition, field, flag, result_flags, shift_by, shift_zero, sub_carry, FLAG_C,
    FLAG_T, FLAG_V,
};
use crate::decode::{decoded, Instruction};
use crate::ram::{offset, peek16, peek32, peek8, poke16, poke32, poke8};

verus! {

/// The state that Thumb execution reads and writes: R0..R15 as the current
/// mode sees them, the status register and memory.
pub struct Core {
    pub regs: Seq<u32>,
    pub cpsr: u32,
    pub mem: Seq<u8>,
}

/// `a + b` modulo 2^32.
pub open spec fn wadd(a: u32, b: int) -> u32 {
    ((a + b) % 0x1_0000_0000) as u32
}

/// `a - b` modulo 2^32.
pub open spec fn wsub(a: u32, b: int) -> u32 {
    ((a - b) % 0x1_0000_0000) as u32
}

/// The low `bits` bits of `v` read as a two's complement number, widened to
/// 32 bits.
pub open spec fn sext(v: u32, bits: u32) -> u32 {
    if (v >> ((bits - 1) as u32)) & 1 == 1 {
        v | !((((1u32 << bits) - 1) as u32))
    } else {
        v
    }
}

/// Bit `n` of `w`.
pub open spec fn bit_of(w: u32, n: u32) -> u32 {
    (w >> n) & 1
}

/// The number of registers at index `r` and above in a register list.
pub open spec fn count_from(list: u32, r: int) -> nat
    decreases 16 - r,
{
    if r >= 16 {
        0
    } else {
        (if (list >> (r as u32)) & 1 == 1 {
            1nat
        } else {
            0nat
        }) + count_from(list, r + 1)
    }
}

/// The number of registers in a register list.
pub open spec fn count_regs(list: u32) -> nat {
    count_from(list, 0)
}

/// Memory after storing, from index `r` up, each listed register of `vals`
/// at consecutive words starting at `addr`.
pub open spec fn store_list(mem: Seq<u8>, vals: Seq<u32>, list: u32, r: int, addr: u32) -> Seq<
    u8,
>
    decreases 16 - r,
{
    if r >= 16 {
        mem
    } else if (list >> (r as u32)) & 1 == 1 {
        store_list(poke32(mem, addr, vals[r]), vals, list, r + 1, offset(addr, 4))
    } else {
        store_list(mem, vals, list, r + 1, addr)
    }
}

/// Registers after loading, from index `r` up, each listed register from
/// consecutive words starting at `addr`.
pub open spec fn load_list(regs: Seq<u32>, mem: Seq<u8>, list: u32, r: int, addr: u32) -> Seq<
    u32,
>
    decreases 16 - r,
{
    if r >= 16 {
        regs
    } else if (list >> (r as u32)) & 1 == 1 {
        load_list(regs.update(r, peek32(mem, addr)), mem, list, r + 1, offset(addr, 4))
    } else {
        load_list(regs, mem, list, r + 1, addr)
    }
}

impl Core {
    /// This state with register `r` set to `v`.
    pub open spec fn put(self, r: u32, v: u32) -> Core {
        Core { regs: self.regs.update(r as int, v), ..self }
    }

    /// Register `r`.
    pub open spec fn get(self, r: u32) -> u32 {
        self.regs[r as int]
    }

    /// This state with flags set from a result.
    pub open spec fn flags(self, res: u32, v: bool, c: bool) -> Core {
        Core { cpsr: result_flags(self.cpsr, res, v, c), ..self }
    }

    /// This state with memory `m`.
    pub open spec fn with_mem(self, m: Seq<u8>) -> Core {
        Core { mem: m, ..self }
    }
}

/// Register to register shift by an immediate amount.
pub open spec fn step_shifted(s: Core, inst: u32) -> Core {
    let op = field(inst, 11, 2);
    let shift = field(inst, 6, 5);
    let val = s.get(field(inst, 3, 3));
    let r = if shift == 0 {
        shift_zero(val, op, flag(s.cpsr, FLAG_C))
    } else {
        shift_by(val, shift, op)
    };
    s.put(field(inst, 0, 3), r.0).flags(r.0, flag(s.cpsr, FLAG_V), r.1)
}

/// Add or subtract a register or a 3-bit immediate.
pub open spec fn step_add_sub(s: Core, inst: u32) -> Core {
    let rn = field(inst, 6, 3);
    let val2 = if bit_of(inst, 10) == 0 {
        s.get(rn)
    } else {
        rn
    };
    let val1 = s.get(field(inst, 3, 3));
    let r = if bit_of(inst, 9) == 0 {
        add_carry(val1, val2, false)
    } else {
        sub_carry(val1, val2)
    };
    s.put(field(inst, 0, 3), r.0).flags(r.0, r.1, r.2)
}

/// MOV, CMP, ADD or SUB with an 8-bit immediate.
pub open spec fn step_imm_op(s: Core, inst: u32) -> Core {
    let op = field(inst, 11, 2);
    let rd = field(inst, 8, 3);
    let imm = field(inst, 0, 8);
    let r = if op == 0 {
        (imm, flag(s.cpsr, FLAG_V), flag(s.cpsr, FLAG_C))
    } else if op == 2 {
        add_carry(s.get(rd), imm, false)
    } else {
        sub_carry(s.get(rd), imm)
    };
    let s1 = if op != 1 {
        s.put(rd, r.0)
    } else {
        s
    };
    s1.flags(r.0, r.1, r.2)
}

/// The result, V and C of ALU operation `op` on `d` and `m`, with incoming
/// flags `v` and `c`. ADC adds the carry; SBC adds the complement of `m`
/// and the carry, so that it subtracts the borrow.
pub open spec fn alu(op: u32, d: u32, m: u32, v: bool, c: bool) -> (u32, bool, bool) {
    if op == 0x0 || op == 0x8 {
        (d & m, v, c)
    } else if op == 0x1 {
        (d ^ m, v, c)
    } else if op == 0x2 || op == 0x3 || op == 0x4 || op == 0x7 {
        let amount = m & 0xff;
        if amount == 0 {
            (d, v, c)
        } else {
            let r = shift_by(d, amount, ((op >> 1u32) & 2) | (op & 1));
            (r.0, v, r.1)
        }
    } else if op == 0x5 {
        add_carry(d, m, c)
    } else if op == 0x6 {
        add_carry(d, !m, c)
    } else if op == 0x9 {
        sub_carry(0, m)
    } else if op == 0xA {
        sub_carry(d, m)
    } else if op == 0xB {
        add_carry(d, m, false)
    } else if op == 0xC {
        (d | m, v, c)
    } else if op == 0xD {
        (((d as int * m as int) % 0x1_0000_0000) as u32, v, false)
    } else if op == 0xE {
        (d & !m, v, c)
    } else {
        (!m, v, c)
    }
}

/// One of the sixteen ALU operations on low registers. TST, CMP and CMN
/// only set flags.
pub open spec fn step_alu_op(s: Core, inst: u32) -> Core {
    let op = field(inst, 6, 4);
    let rd = field(inst, 0, 3);
    let r = alu(op, s.get(rd), s.get(field(inst, 3, 3)), flag(s.cpsr, FLAG_V), flag(s.cpsr, FLAG_C));
    let s1 = if op == 0x8 || op == 0xA || op == 0xB {
        s
    } else {
        s.put(rd, r.0)
    };
    s1.flags(r.0, r.1, r.2)
}

/// ADD, CMP or MOV over all sixteen registers, or BX. A read of the PC sees
/// it two bytes further on.
pub open spec fn step_hi_reg_bx(s: Core, inst: u32) -> Core {
    let op = field(inst, 8, 2);
    let crs = bit_of(inst, 6) * 8 + field(inst, 3, 3);
    let crd = bit_of(inst, 7) * 8 + field(inst, 0, 3);
    let vals = wadd(s.get(crs as u32), if crs == 15 { 2 } else { 0 });
    if op == 0 {
        s.put(crd as u32, wadd(s.get(crd as u32), vals as int))
    } else if op == 1 {
        let r = sub_carry(s.get(crd as u32), vals);
        s.flags(r.0, r.1, r.2)
    } else if op == 2 {
        s.put(crd as u32, vals)
    } else {
        let t = vals & 1;
        let pc = if t == 0 {
            vals & !3u32
        } else {
            vals & !1u32
        };
        Core {
            cpsr: (s.cpsr & !(1u32 << FLAG_T)) | (t << FLAG_T),
            ..s.put(15, pc)
        }
    }
}

/// Load a word at a PC-relative, word-aligned address.
pub open spec fn step_pc_load(s: Core, inst: u32) -> Core {
    let addr = wadd(wadd(s.get(15), 2), field(inst, 0, 8) * 4) & !3u32;
    s.put(field(inst, 8, 3), peek32(s.mem, addr))
}

/// Word or byte transfer at a base register plus an offset register.
pub open spec fn step_single_xfer_r(s: Core, inst: u32) -> Core {
    let rd = field(inst, 0, 3);
    let addr = wadd(s.get(field(inst, 3, 3)), s.get(field(inst, 6, 3)) as int);
    let l = bit_of(inst, 11);
    let b = bit_of(inst, 10);
    if l == 0 && b == 0 {
        s.with_mem(poke32(s.mem, addr & !3u32, s.get(rd)))
    } else if l == 0 {
        s.with_mem(poke8(s.mem, addr, s.get(rd) as u8))
    } else if b == 0 {
        s.put(rd, peek32(s.mem, addr & !3u32))
    } else {
        s.put(rd, peek8(s.mem, addr) as u32)
    }
}

/// Halfword and sign-extending transfers at a base register plus an offset
/// register: bits 11 and 10 select, in this order, STRH, LDRH, LDSB and LDSH.
pub open spec fn step_hw_sgn_xfer(s: Core, inst: u32) -> Core {
    let rd = field(inst, 0, 3);
    let addr = wadd(s.get(field(inst, 3, 3)), s.get(field(inst, 6, 3)) as int);
    let h = bit_of(inst, 11);
    let sg = bit_of(inst, 10);
    if h == 0 && sg == 0 {
        s.with_mem(poke16(s.mem, addr & !1u32, s.get(rd) as u16))
    } else if h == 0 {
        s.put(rd, peek16(s.mem, addr & !1u32) as u32)
    } else if sg == 0 {
        s.put(rd, sext(peek8(s.mem, addr) as u32, 8))
    } else {
        s.put(rd, sext(peek16(s.mem, addr & !1u32) as u32, 16))
    }
}

/// Word or byte transfer at a base register plus a scaled 5-bit immediate.
pub open spec fn step_single_xfer_i(s: Core, inst: u32) -> Core {
    let rd = field(inst, 0, 3);
    let base = s.get(field(inst, 3, 3));
    let off = field(inst, 6, 5);
    let l = bit_of(inst, 11);
    if bit_of(inst, 12) == 0 {
        let addr = wadd(base, off * 4) & !3u32;
        if l == 0 {
            s.with_mem(poke32(s.mem, addr, s.get(rd)))
        } else {
            s.put(rd, peek32(s.mem, addr))
        }
    } else {
        let addr = wadd(base, off as int);
        if l == 0 {
            s.with_mem(poke8(s.mem, addr, s.get(rd) as u8))
        } else {
            s.put(rd, peek8(s.mem, addr) as u32)
        }
    }
}

/// Halfword transfer at a base register plus a scaled 5-bit immediate.
pub open spec fn step_hw_xfer_i(s: Core, inst: u32) -> Core {
    let rd = field(inst, 0, 3);
    let addr = wadd(s.get(field(inst, 3, 3)), field(inst, 6, 5) * 2) & !1u32;
    if bit_of(inst, 11) == 0 {
        s.with_mem(poke16(s.mem, addr, s.get(rd) as u16))
    } else {
        s.put(rd, peek16(s.mem, addr) as u32)
    }
}

/// Word transfer at the stack pointer plus a scaled 8-bit immediate,
/// aligned to a word.
pub open spec fn step_sp_xfer(s: Core, inst: u32) -> Core {
    let rd = field(inst, 8, 3);
    let addr = wadd(s.get(13), field(inst, 0, 8) * 4) & !3u32;
    if bit_of(inst, 11) == 0 {
        s.with_mem(poke32(s.mem, addr, s.get(rd)))
    } else {
        s.put(rd, peek32(s.mem, addr))
    }
}

/// An address relative to the PC or the stack pointer.
pub open spec fn step_load_addr(s: Core, inst: u32) -> Core {
    let base = if bit_of(inst, 11) == 0 {
        wadd(s.get(15), 2) & !1u32
    } else {
        s.get(13)
    };
    s.put(field(inst, 8, 3), wadd(base, field(inst, 0, 8) * 4))
}

/// Add a signed, scaled 7-bit immediate to the stack pointer.
pub open spec fn step_sp_add(s: Core, inst: u32) -> Core {
    let imm = field(inst, 0, 7) * 4;
    let sp = s.get(13);
    s.put(13, if bit_of(inst, 7) == 0 {
        wadd(sp, imm as int)
    } else {
        wsub(sp, imm as int)
    })
}

/// The register list of a PUSH or POP, with LR or PC added by the R bit.
pub open spec fn push_pop_list(inst: u32) -> u32 {
    let l = bit_of(inst, 11);
    field(inst, 0, 8) | (if bit_of(inst, 8) == 1 {
        if l == 0 {
            0x4000u32
        } else {
            0x8000u32
        }
    } else {
        0u32
    })
}

/// PUSH or POP: the listed registers go to, or come from, consecutive words
/// in ascending register order; the stack pointer, aligned to a word, moves
/// once by four bytes per register.
pub open spec fn step_push_pop(s: Core, inst: u32) -> Core {
    let list = push_pop_list(inst);
    let total = count_regs(list);
    let base = s.get(13) & !3u32;
    if bit_of(inst, 11) == 0 {
        let post = wsub(base, (total * 4) as int);
        s.with_mem(store_list(s.mem, s.regs, list, 0, post)).put(13, post)
    } else {
        let post = wadd(base, (total * 4) as int);
        Core { regs: load_list(s.regs, s.mem, list, 0, base), ..s }.put(13, post)
    }
}

/// Whether `rb` is the lowest register of `list`.
pub open spec fn lowest_in(list: u32, rb: u32) -> bool {
    list & (((1u32 << rb) - 1) as u32) == 0
}

/// LDMIA or STMIA on a low base register. The words move at consecutive
/// addresses from the base aligned to a word. The base plus four bytes per
/// register is written back before the transfer; a stored base is its old
/// value when it is the lowest register of the list, its new value
/// otherwise. An empty list transfers nothing.
pub open spec fn step_block_xfer(s: Core, inst: u32) -> Core {
    let rb = field(inst, 8, 3);
    let list = field(inst, 0, 8);
    let base = s.get(rb);
    let s1 = s.put(rb, wadd(base, (count_regs(list) * 4) as int));
    if bit_of(inst, 11) == 0 {
        let vals = if lowest_in(list, rb) {
            s.regs
        } else {
            s1.regs
        };
        s1.with_mem(store_list(s.mem, vals, list, 0, base & !3u32))
    } else {
        Core { regs: load_list(s1.regs, s.mem, list, 0, base & !3u32), ..s1 }
    }
}

/// A conditional branch; `pc` is the address of the instruction.
pub open spec fn step_cond_branch(s: Core, inst: u32, pc: u32) -> Core {
    if condition(field(inst, 8, 4), s.cpsr) {
        s.put(15, wadd(wadd(pc, 4), (sext(field(inst, 0, 8), 8) << 1u32) as int))
    } else {
        s
    }
}

/// An unconditional branch; `pc` is the address of the instruction.
pub open spec fn step_branch(s: Core, inst: u32, pc: u32) -> Core {
    s.put(15, wadd(wadd(pc, 4), sext(field(inst, 0, 11) << 1u32, 12) as int))
}

/// One half of a long branch with link; `pc` is the address of the
/// instruction.
pub open spec fn step_long_branch(s: Core, inst: u32, pc: u32) -> Core {
    let off = field(inst, 0, 11);
    if bit_of(inst, 11) == 0 {
        s.put(14, wadd(wadd(pc, 4), sext(off << 12u32, 23) as int))
    } else {
        s.put(15, wadd(s.get(14), (off << 1u32) as int)).put(14, wadd(pc, 2) | 1)
    }
}

/// The word that the PC of `s` points at.
pub open spec fn fetched(s: Core) -> u32 {
    peek16(s.mem, s.get(15) & !1u32) as u32
}

/// One Thumb instruction: the state after it, and whether execution goes on.
/// It stops, with the PC advanced and nothing else changed, on an undefined
/// word and on SWI, which this core does not take.
pub open spec fn thumb_step(s0: Core) -> (Core, bool) {
    let pc = s0.get(15);
    let inst = fetched(s0);
    let s = s0.put(15, wadd(pc, 2));
    match decoded(inst as u16) {
        Instruction::Shifted => (step_shifted(s, inst), true),
        Instruction::AddSub => (step_add_sub(s, inst), true),
        Instruction::ImmOp => (step_imm_op(s, inst), true),
        Instruction::AluOp => (step_alu_op(s, inst), true),
        Instruction::HiRegBx => (step_hi_reg_bx(s, inst), true),
        Instruction::PcLoad => (step_pc_load(s, inst), true),
        Instruction::SingleXferR => (step_single_xfer_r(s, inst), true),
        Instruction::HwSgnXfer => (step_hw_sgn_xfer(s, inst), true),
        Instruction::SingleXferI => (step_single_xfer_i(s, inst), true),
        Instruction::HwXferI => (step_hw_xfer_i(s, inst), true),
        Instruction::SpXfer => (step_sp_xfer(s, inst), true),
        Instruction::LoadAddr => (step_load_addr(s, inst), true),
        Instruction::SpAdd => (step_sp_add(s, inst), true),
        Instruction::PushPop => (step_push_pop(s, inst), true),
        Instruction::BlockXfer => (step_block_xfer(s, inst), true),
        Instruction::CondBranch => (step_cond_branch(s, inst, pc), true),
        Instruction::Branch => (step_branch(s, inst, pc), true),
        Instruction::LongBranch => (step_long_branch(s, inst, pc), true),
        Instruction::SoftwareInt => (s, false),
        Instruction::Undefined => (s, false),
    }
}

/// A high-register MOV whose source is R15 sees the PC two bytes past its
/// already advanced value: the instruction's address plus four.
pub proof fn lemma_pc_read_ahead(s: Core)
    requires
        s.regs.len() == 16,
        decoded(fetched(s) as u16) == Instruction::HiRegBx,
        field(fetched(s), 8, 2) == 2,
        bit_of(fetched(s), 6) == 1,
        field(fetched(s), 3, 3) == 7,
        bit_of(fetched(s), 7) * 8 + field(fetched(s), 0, 3) != 15,
    ensures
        thumb_step(s).0.regs[bit_of(fetched(s), 7) * 8 + field(fetched(s), 0, 3)] == wadd(
            wadd(s.regs[15], 2),
            2,
        ),
{
    let inst = fetched(s);
    assert(bit_of(inst, 7) < 2) by (bit_vector);
    assert(field(inst, 0, 3) < 8) by (bit_vector);
}

} // verus!
