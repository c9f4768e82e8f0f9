//! Bit fields, condition flags, the adder and the barrel shifter.
use vstd::prelude::*;

verus! {

/// Bit position of the negative flag in a status register.
pub const FLAG_N: u32 = 31;
/// Bit position of the zero flag.
pub const FLAG_Z: u32 = 30;
/// Bit position of the carry flag.
pub const FLAG_C: u32 = 29;
/// Bit position of the overflow flag.
pub const FLAG_V: u32 = 28;
/// Bit position of the Thumb-state bit.
pub const FLAG_T: u32 = 5;

/// The two's complement reading of a word.
pub open spec fn signed(a: u32) -> int {
    if a < 0x8000_0000 {
        a as int
    } else {
        a as int - 0x1_0000_0000
    }
}

/// `a + b + carry` as the ARM adder computes it: the 32-bit result, the
/// signed overflow (V) and the unsigned carry out (C).
pub open spec fn add_carry(a: u32, b: u32, carry: bool) -> (u32, bool, bool) {
    let cin: int = if carry { 1 } else { 0 };
    let sum = a as int + b as int + cin;
    let ssum = signed(a) + signed(b) + cin;
    ((sum % 0x1_0000_0000) as u32, ssum < -0x8000_0000 || ssum >= 0x8000_0000, sum >= 0x1_0000_0000)
}

/// `a - b` as the ARM subtractor computes it (`a + !b + 1`): C is set when
/// no borrow occurs.
pub open spec fn sub_carry(a: u32, b: u32) -> (u32, bool, bool) {
    add_carry(a, !b, true)
}

fn signed_exec(a: u32) -> (r: i64)
    ensures
        r == signed(a),
{
    if a < 0x8000_0000 {
        a as i64
    } else {
        a as i64 - 0x1_0000_0000
    }
}

/// Adds with carry in; returns the result, V and C.
pub fn add_flags(a: u32, b: u32, carry: bool) -> (r: (u32, bool, bool))
    ensures
        r == add_carry(a, b, carry),
{
    let cin: u64 = if carry { 1 } else { 0 };
    let sum: u64 = a as u64 + b as u64 + cin;
    let ssum: i64 = signed_exec(a) + signed_exec(b) + cin as i64;
    let res = (sum % 0x1_0000_0000) as u32;
    (res, ssum < -0x8000_0000 || ssum >= 0x8000_0000, sum >= 0x1_0000_0000)
}

/// Subtracts `b` from `a` with no borrow in; returns the result, V and C.
pub fn sub_flags(a: u32, b: u32) -> (r: (u32, bool, bool))
    ensures
        r == sub_carry(a, b),
{
    add_flags(a, !b, true)
}

/// Reads bit `n` of a status register as a flag.
pub open spec fn flag(cpsr: u32, n: u32) -> bool {
    (cpsr >> n) & 1 == 1
}

/// A status register whose N, Z, C and V bits are the given flags and whose
/// other bits are those of `cpsr`.
pub open spec fn with_flags(cpsr: u32, n: bool, z: bool, c: bool, v: bool) -> u32 {
    (cpsr & 0x0fff_ffff) | (if n { 0x8000_0000u32 } else { 0u32 }) | (if z {
        0x4000_0000u32
    } else {
        0u32
    }) | (if c { 0x2000_0000u32 } else { 0u32 }) | (if v { 0x1000_0000u32 } else { 0u32 })
}

/// The flag update after an operation with result `res`: N is its sign bit,
/// Z says whether it is zero, and C and V are the given ones.
pub open spec fn result_flags(cpsr: u32, res: u32, v: bool, c: bool) -> u32 {
    with_flags(cpsr, res >> 31 == 1, res == 0, c, v)
}

/// Computes `result_flags(cpsr, res, v, c)`.
pub fn set_flags(cpsr: u32, res: u32, v: bool, c: bool) -> (r: u32)
    ensures
        r == result_flags(cpsr, res, v, c),
{
    let n: u32 = if res >> 31 == 1 { 0x8000_0000 } else { 0 };
    let z: u32 = if res == 0 { 0x4000_0000 } else { 0 };
    let cf: u32 = if c { 0x2000_0000 } else { 0 };
    let vf: u32 = if v { 0x1000_0000 } else { 0 };
    (cpsr & 0x0fff_ffff) | n | z | cf | vf
}

/// After a flag update, N is bit 31 of the result, Z says whether the result
/// is zero, C and V are the given flags, and the other 28 bits of the status
/// register are unchanged.
pub proof fn lemma_result_flags(cpsr: u32, res: u32, v: bool, c: bool)
    ensures
        flag(result_flags(cpsr, res, v, c), FLAG_N) == (res >> 31 == 1),
        flag(result_flags(cpsr, res, v, c), FLAG_Z) == (res == 0),
        flag(result_flags(cpsr, res, v, c), FLAG_C) == c,
        flag(result_flags(cpsr, res, v, c), FLAG_V) == v,
        result_flags(cpsr, res, v, c) & 0x0fff_ffff == cpsr & 0x0fff_ffff,
{
    let r = result_flags(cpsr, res, v, c);
    let n = res >> 31 == 1;
    let z = res == 0;
    assert(flag(with_flags(cpsr, n, z, c, v), 31) == n) by (bit_vector);
    assert(flag(with_flags(cpsr, n, z, c, v), 30) == z) by (bit_vector);
    assert(flag(with_flags(cpsr, n, z, c, v), 29) == c) by (bit_vector);
    assert(flag(with_flags(cpsr, n, z, c, v), 28) == v) by (bit_vector);
    assert(with_flags(cpsr, n, z, c, v) & 0x0fff_ffff == cpsr & 0x0fff_ffff) by (bit_vector);
}

/// The field of `len` bits of `w` that starts at bit `start`.
pub open spec fn field(w: u32, start: u32, len: u32) -> u32 {
    (w >> start) & (((1u32 << len) - 1) as u32)
}

/// Reads a bit field; `extract(w, start, len) == field(w, start, len)`.
pub fn extract(w: u32, start: u32, len: u32) -> (r: u32)
    requires
        start < 32,
        1 <= len < 32,
    ensures
        r == field(w, start, len),
        r < (1u32 << len),
        len == 1 ==> r < 2,
        len == 2 ==> r < 4,
        len == 3 ==> r < 8,
        len == 4 ==> r < 16,
        len == 5 ==> r < 32,
        len == 7 ==> r < 128,
        len == 8 ==> r < 256,
        len == 11 ==> r < 2048,
{
    let m: u32 = 1u32 << len;
    assert(1u32 << len >= 1) by (bit_vector)
        requires
            len < 32,
    ;
    let r = (w >> start) & (m - 1);
    assert((w >> start) & ((m - 1) as u32) < m) by (bit_vector)
        requires
            m >= 1,
    ;
    assert(len == 1 ==> m == 2) by (bit_vector)
        requires
            m == 1u32 << len,
    ;
    assert(len == 2 ==> m == 4) by (bit_vector)
        requires
            m == 1u32 << len,
    ;
    assert(len == 3 ==> m == 8) by (bit_vector)
        requires
            m == 1u32 << len,
    ;
    assert(len == 4 ==> m == 16) by (bit_vector)
        requires
            m == 1u32 << len,
    ;
    assert(len == 5 ==> m == 32) by (bit_vector)
        requires
            m == 1u32 << len,
    ;
    assert(len == 7 ==> m == 128) by (bit_vector)
        requires
            m == 1u32 << len,
    ;
    assert(len == 8 ==> m == 256) by (bit_vector)
        requires
            m == 1u32 << len,
    ;
    assert(len == 11 ==> m == 2048) by (bit_vector)
        requires
            m == 1u32 << len,
    ;
    r
}

/// Whether a 4-bit condition code holds for the flags of `cpsr`. Code 0xF is
/// reserved and never holds.
pub open spec fn condition(cond: u32, cpsr: u32) -> bool {
    let n = flag(cpsr, FLAG_N);
    let z = flag(cpsr, FLAG_Z);
    let c = flag(cpsr, FLAG_C);
    let v = flag(cpsr, FLAG_V);
    if cond == 0x0 {
        z
    } else if cond == 0x1 {
        !z
    } else if cond == 0x2 {
        c
    } else if cond == 0x3 {
        !c
    } else if cond == 0x4 {
        n
    } else if cond == 0x5 {
        !n
    } else if cond == 0x6 {
        v
    } else if cond == 0x7 {
        !v
    } else if cond == 0x8 {
        c && !z
    } else if cond == 0x9 {
        !c || z
    } else if cond == 0xA {
        n == v
    } else if cond == 0xB {
        n != v
    } else if cond == 0xC {
        !z && n == v
    } else if cond == 0xD {
        z || n != v
    } else {
        cond == 0xE
    }
}

/// Evaluates a condition code against the flags of `cpsr`.
pub fn cond_met(cond: u32, cpsr: u32) -> (r: bool)
    ensures
        r == condition(cond, cpsr),
{
    let n = (cpsr >> 31) & 1 == 1;
    let z = (cpsr >> 30) & 1 == 1;
    let c = (cpsr >> 29) & 1 == 1;
    let v = (cpsr >> 28) & 1 == 1;
    match cond {
        0x0 => z,
        0x1 => !z,
        0x2 => c,
        0x3 => !c,
        0x4 => n,
        0x5 => !n,
        0x6 => v,
        0x7 => !v,
        0x8 => c && !z,
        0x9 => !c || z,
        0xA => n == v,
        0xB => n != v,
        0xC => !z && n == v,
        0xD => z || n != v,
        0xE => true,
        _ => false,
    }
}

/// Logical shift left by `n` (at least 1): the result and the carry out.
pub open spec fn lsl(v: u32, n: u32) -> (u32, bool) {
    if n < 32 {
        (v << n, (v >> ((32 - n) as u32)) & 1 == 1)
    } else if n == 32 {
        (0, v & 1 == 1)
    } else {
        (0, false)
    }
}

/// Logical shift right by `n` (at least 1): the result and the carry out.
pub open spec fn lsr(v: u32, n: u32) -> (u32, bool) {
    if n < 32 {
        (v >> n, (v >> ((n - 1) as u32)) & 1 == 1)
    } else if n == 32 {
        (0, v >> 31 == 1)
    } else {
        (0, false)
    }
}

/// Arithmetic shift right by `n` (at least 1): the result and the carry out.
pub open spec fn asr(v: u32, n: u32) -> (u32, bool) {
    if n < 32 {
        (
            if v >> 31 == 1 {
                (v >> n) | !(0xffff_ffffu32 >> n)
            } else {
                v >> n
            },
            (v >> ((n - 1) as u32)) & 1 == 1,
        )
    } else {
        (if v >> 31 == 1 { 0xffff_ffffu32 } else { 0u32 }, v >> 31 == 1)
    }
}

/// Rotate right by `n` (at least 1): the result and the carry out.
pub open spec fn ror(v: u32, n: u32) -> (u32, bool) {
    let k = n & 31;
    if k == 0 {
        (v, v >> 31 == 1)
    } else {
        ((v >> k) | (v << ((32 - k) as u32)), (v >> ((k - 1) as u32)) & 1 == 1)
    }
}

/// The barrel shifter with a non-zero amount: `op` 0 is LSL, 1 LSR, 2 ASR
/// and 3 ROR.
pub open spec fn shift_by(v: u32, n: u32, op: u32) -> (u32, bool) {
    if op == 0 {
        lsl(v, n)
    } else if op == 1 {
        lsr(v, n)
    } else if op == 2 {
        asr(v, n)
    } else {
        ror(v, n)
    }
}

/// The barrel shifter with an immediate amount of zero: LSL passes the value
/// and keeps the carry; LSR and ASR shift by 32.
pub open spec fn shift_zero(v: u32, op: u32, carry: bool) -> (u32, bool) {
    if op == 0 {
        (v, carry)
    } else if op == 1 {
        lsr(v, 32)
    } else {
        asr(v, 32)
    }
}

/// Shifts `v` by a non-zero amount; returns the result and the carry out.
pub fn arg_shift(v: u32, n: u32, op: u32) -> (r: (u32, bool))
    requires
        n >= 1,
    ensures
        r == shift_by(v, n, op),
{
    if op == 0 {
        if n < 32 {
            (v << n, (v >> (32 - n)) & 1 == 1)
        } else if n == 32 {
            (0, v & 1 == 1)
        } else {
            (0, false)
        }
    } else if op == 1 {
        if n < 32 {
            (v >> n, (v >> (n - 1)) & 1 == 1)
        } else if n == 32 {
            (0, v >> 31 == 1)
        } else {
            (0, false)
        }
    } else if op == 2 {
        if n < 32 {
            let r = if v >> 31 == 1 {
                (v >> n) | !(0xffff_ffffu32 >> n)
            } else {
                v >> n
            };
            (r, (v >> (n - 1)) & 1 == 1)
        } else {
            (if v >> 31 == 1 { 0xffff_ffffu32 } else { 0u32 }, v >> 31 == 1)
        }
    } else {
        let k = n & 31;
        if k == 0 {
            (v, v >> 31 == 1)
        } else {
            assert(k < 32) by (bit_vector)
                requires
                    k == n & 31,
            ;
            ((v >> k) | (v << (32 - k)), (v >> (k - 1)) & 1 == 1)
        }
    }
}

/// Shifts `v` by an immediate amount of zero; returns the result and the
/// carry out.
pub fn arg_shift0(v: u32, op: u32, carry: bool) -> (r: (u32, bool))
    ensures
        r == shift_zero(v, op, carry),
{
    if op == 0 {
        (v, carry)
    } else {
        arg_shift(v, 32, if op == 1 { 1 } else { 2 })
    }
}

} // verus!
