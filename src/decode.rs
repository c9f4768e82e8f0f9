//! Classification of 16-bit Thumb words into instruction forms.
use vstd::prelude::*;

verus! {

/// The shape of a Thumb instruction.
#[derive(Clone, Copy, PartialEq, Eq, Structural, Debug)]
pub enum Instruction {
    Shifted,
    AddSub,
    ImmOp,
    AluOp,
    /// Operations on the full register range, and BX.
    HiRegBx,
    PcLoad,
    SingleXferR,
    HwSgnXfer,
    SingleXferI,
    HwXferI,
    SpXfer,
    LoadAddr,
    SpAdd,
    PushPop,
    BlockXfer,
    CondBranch,
    SoftwareInt,
    Branch,
    LongBranch,
    Undefined,
}

/// The number of forms.
pub const NUM_FORMS: usize = 20;

/// The `(mask, test)` pair of a form: a word is of that form's class when
/// `word & mask == test`. Undefined's class holds every word.
pub open spec fn pattern_of(f: Instruction) -> (u16, u16) {
    match f {
        Instruction::Shifted => (0xe000, 0x0000),
        Instruction::AddSub => (0xf800, 0x1800),
        Instruction::ImmOp => (0xe000, 0x2000),
        Instruction::AluOp => (0xfc00, 0x4000),
        Instruction::HiRegBx => (0xfc00, 0x4400),
        Instruction::PcLoad => (0xf800, 0x4800),
        Instruction::SingleXferR => (0xf200, 0x5000),
        Instruction::HwSgnXfer => (0xf200, 0x5200),
        Instruction::SingleXferI => (0xe000, 0x6000),
        Instruction::HwXferI => (0xf000, 0x8000),
        Instruction::SpXfer => (0xf000, 0x9000),
        Instruction::LoadAddr => (0xf000, 0xa000),
        Instruction::SpAdd => (0xff00, 0xb000),
        Instruction::PushPop => (0xf600, 0xb400),
        Instruction::BlockXfer => (0xf000, 0xc000),
        Instruction::CondBranch => (0xf000, 0xd000),
        Instruction::SoftwareInt => (0xff00, 0xdf00),
        Instruction::Branch => (0xf800, 0xe000),
        Instruction::LongBranch => (0xf000, 0xf000),
        Instruction::Undefined => (0x0000, 0x0000),
    }
}

/// Whether `w` is in the class of form `f`.
pub open spec fn in_class(w: u16, f: Instruction) -> bool {
    w & pattern_of(f).0 == pattern_of(f).1
}

/// The place of a form in the order in which decoding tries the classes.
pub open spec fn rank(f: Instruction) -> int {
    match f {
        Instruction::Branch => 0,
        Instruction::AddSub => 1,
        Instruction::AluOp => 2,
        Instruction::Shifted => 3,
        Instruction::ImmOp => 4,
        Instruction::HiRegBx => 5,
        Instruction::PcLoad => 6,
        Instruction::SingleXferR => 7,
        Instruction::HwSgnXfer => 8,
        Instruction::SingleXferI => 9,
        Instruction::HwXferI => 10,
        Instruction::SpXfer => 11,
        Instruction::LoadAddr => 12,
        Instruction::SpAdd => 13,
        Instruction::PushPop => 14,
        Instruction::BlockXfer => 15,
        Instruction::CondBranch => 16,
        Instruction::SoftwareInt => 17,
        Instruction::LongBranch => 18,
        Instruction::Undefined => 19,
    }
}

/// The form tried at place `i` of the order.
pub open spec fn form_at(i: int) -> Instruction {
    if i == 0 {
        Instruction::Branch
    } else if i == 1 {
        Instruction::AddSub
    } else if i == 2 {
        Instruction::AluOp
    } else if i == 3 {
        Instruction::Shifted
    } else if i == 4 {
        Instruction::ImmOp
    } else if i == 5 {
        Instruction::HiRegBx
    } else if i == 6 {
        Instruction::PcLoad
    } else if i == 7 {
        Instruction::SingleXferR
    } else if i == 8 {
        Instruction::HwSgnXfer
    } else if i == 9 {
        Instruction::SingleXferI
    } else if i == 10 {
        Instruction::HwXferI
    } else if i == 11 {
        Instruction::SpXfer
    } else if i == 12 {
        Instruction::LoadAddr
    } else if i == 13 {
        Instruction::SpAdd
    } else if i == 14 {
        Instruction::PushPop
    } else if i == 15 {
        Instruction::BlockXfer
    } else if i == 16 {
        Instruction::CondBranch
    } else if i == 17 {
        Instruction::SoftwareInt
    } else if i == 18 {
        Instruction::LongBranch
    } else {
        Instruction::Undefined
    }
}

/// The form of `w`: the first class in the order that holds it.
pub open spec fn decoded(w: u16) -> Instruction {
    if in_class(w, Instruction::Branch) {
        Instruction::Branch
    } else if in_class(w, Instruction::AddSub) {
        Instruction::AddSub
    } else if in_class(w, Instruction::AluOp) {
        Instruction::AluOp
    } else if in_class(w, Instruction::Shifted) {
        Instruction::Shifted
    } else if in_class(w, Instruction::ImmOp) {
        Instruction::ImmOp
    } else if in_class(w, Instruction::HiRegBx) {
        Instruction::HiRegBx
    } else if in_class(w, Instruction::PcLoad) {
        Instruction::PcLoad
    } else if in_class(w, Instruction::SingleXferR) {
        Instruction::SingleXferR
    } else if in_class(w, Instruction::HwSgnXfer) {
        Instruction::HwSgnXfer
    } else if in_class(w, Instruction::SingleXferI) {
        Instruction::SingleXferI
    } else if in_class(w, Instruction::HwXferI) {
        Instruction::HwXferI
    } else if in_class(w, Instruction::SpXfer) {
        Instruction::SpXfer
    } else if in_class(w, Instruction::LoadAddr) {
        Instruction::LoadAddr
    } else if in_class(w, Instruction::SpAdd) {
        Instruction::SpAdd
    } else if in_class(w, Instruction::PushPop) {
        Instruction::PushPop
    } else if in_class(w, Instruction::BlockXfer) {
        Instruction::BlockXfer
    } else if in_class(w, Instruction::CondBranch) {
        Instruction::CondBranch
    } else if in_class(w, Instruction::SoftwareInt) {
        Instruction::SoftwareInt
    } else if in_class(w, Instruction::LongBranch) {
        Instruction::LongBranch
    } else {
        Instruction::Undefined
    }
}

/// A word in the class of `f` and in no class tried before it decodes to
/// `f`.
pub proof fn lemma_decode_first_class(w: u16, f: Instruction)
    requires
        in_class(w, f),
        forall|g: Instruction| rank(g) < rank(f) ==> !#[trigger] in_class(w, g),
    ensures
        decoded(w) == f,
{
}

/// Every word decodes to exactly one form: one whose class holds it and
/// such that no class tried before it does.
pub proof fn lemma_decode_total(w: u16)
    ensures
        in_class(w, decoded(w)),
        forall|g: Instruction| rank(g) < rank(decoded(w)) ==> !#[trigger] in_class(w, g),
        forall|f: Instruction|
            in_class(w, f) && (forall|g: Instruction| rank(g) < rank(f) ==> !#[trigger] in_class(w, g))
                ==> f == decoded(w),
{
    assert(w & 0 == 0) by (bit_vector);
    assert forall|f: Instruction|
        in_class(w, f) && (forall|g: Instruction| rank(g) < rank(f) ==> !#[trigger] in_class(w, g))
            implies f == decoded(w) by {
        lemma_decode_first_class(w, f);
    }
}

impl Instruction {
    /// The `(mask, test)` pair of this form.
    pub fn pattern(&self) -> (r: (u16, u16))
        ensures
            r == pattern_of(*self),
    {
        match *self {
            Instruction::Shifted => (0xe000, 0x0000),
            Instruction::AddSub => (0xf800, 0x1800),
            Instruction::ImmOp => (0xe000, 0x2000),
            Instruction::AluOp => (0xfc00, 0x4000),
            Instruction::HiRegBx => (0xfc00, 0x4400),
            Instruction::PcLoad => (0xf800, 0x4800),
            Instruction::SingleXferR => (0xf200, 0x5000),
            Instruction::HwSgnXfer => (0xf200, 0x5200),
            Instruction::SingleXferI => (0xe000, 0x6000),
            Instruction::HwXferI => (0xf000, 0x8000),
            Instruction::SpXfer => (0xf000, 0x9000),
            Instruction::LoadAddr => (0xf000, 0xa000),
            Instruction::SpAdd => (0xff00, 0xb000),
            Instruction::PushPop => (0xf600, 0xb400),
            Instruction::BlockXfer => (0xf000, 0xc000),
            Instruction::CondBranch => (0xf000, 0xd000),
            Instruction::SoftwareInt => (0xff00, 0xdf00),
            Instruction::Branch => (0xf800, 0xe000),
            Instruction::LongBranch => (0xf000, 0xf000),
            Instruction::Undefined => (0x0000, 0x0000),
        }
    }

    /// The form tried at place `i` of the decoding order.
    pub fn at_rank(i: usize) -> (r: Instruction)
        requires
            i < NUM_FORMS,
        ensures
            r == form_at(i as int),
            rank(r) == i,
    {
        match i {
            0 => Instruction::Branch,
            1 => Instruction::AddSub,
            2 => Instruction::AluOp,
            3 => Instruction::Shifted,
            4 => Instruction::ImmOp,
            5 => Instruction::HiRegBx,
            6 => Instruction::PcLoad,
            7 => Instruction::SingleXferR,
            8 => Instruction::HwSgnXfer,
            9 => Instruction::SingleXferI,
            10 => Instruction::HwXferI,
            11 => Instruction::SpXfer,
            12 => Instruction::LoadAddr,
            13 => Instruction::SpAdd,
            14 => Instruction::PushPop,
            15 => Instruction::BlockXfer,
            16 => Instruction::CondBranch,
            17 => Instruction::SoftwareInt,
            18 => Instruction::LongBranch,
            _ => Instruction::Undefined,
        }
    }

    /// Classifies a Thumb word: tries the classes in order and returns the
    /// first that holds it.
    pub fn decode(inst: u16) -> (r: Instruction)
        ensures
            r == decoded(inst),
    {
        let mut i: usize = 0;
        while i < NUM_FORMS
            invariant
                i <= NUM_FORMS,
                forall|g: Instruction| rank(g) < i ==> !#[trigger] in_class(inst, g),
            decreases NUM_FORMS - i,
        {
            let typ = Instruction::at_rank(i);
            let (mask, test) = typ.pattern();
            if inst & mask == test {
                proof {
                    lemma_decode_first_class(inst, typ);
                }
                return typ;
            }
            i = i + 1;
        }
        proof {
            assert(inst & 0 == 0) by (bit_vector);
            assert(in_class(inst, Instruction::Undefined));
        }
        Instruction::Undefined
    }
}

} // verus!
