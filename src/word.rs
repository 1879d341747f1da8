//! Decoding of instruction words.
//!
//! The canonical integer of a word packs, from the least significant bit up,
//! three 16-bit offsets (`off_dst`, `off_op0`, `off_op1`, each biased by 2^15)
//! and 15 flag bits, read in groups.
use crate::felt::{fsub, limb_base, Felt};
use vstd::arithmetic::div_mod::{
    lemma_fundamental_div_mod, lemma_hoist_over_denominator, lemma_mod_multiples_vanish,
};
use vstd::arithmetic::power2::{lemma2_to64, lemma_pow2_adds, lemma_pow2_pos, lemma_pow2_unfold, pow2};
use vstd::bits::{lemma_u64_pow2_no_overflow, lemma_u64_shr_is_div};
use vstd::prelude::*;

verus! {

/// `dst` is addressed from `ap`; the other value of the flag selects `fp`.
pub const DST_AP: u64 = 0;

/// `op0` is addressed from `ap`; the other value of the flag selects `fp`.
pub const OP0_AP: u64 = 0;

/// `op1` is addressed from the value of `op0`.
pub const OP1_DBL: u64 = 0;

/// `op1` is the immediate word after the instruction.
pub const OP1_VAL: u64 = 1;

/// `op1` is addressed from `fp`.
pub const OP1_FP: u64 = 2;

/// `op1` is addressed from `ap`.
pub const OP1_AP: u64 = 4;

/// `res` is `op1`.
pub const RES_ONE: u64 = 0;

/// `res` is `op0 + op1`.
pub const RES_ADD: u64 = 1;

/// `res` is `op0 * op1`.
pub const RES_MUL: u64 = 2;

/// The next `pc` follows the instruction.
pub const PC_SIZ: u64 = 0;

/// Absolute jump to `res`.
pub const PC_ABS: u64 = 1;

/// Relative jump by `res`.
pub const PC_REL: u64 = 2;

/// Relative jump by `op1` unless `dst` is zero.
pub const PC_JNZ: u64 = 4;

/// `ap` is kept (for a call: advanced by two).
pub const AP_Z2: u64 = 0;

/// `ap` is advanced by `res`.
pub const AP_ADD: u64 = 1;

/// `ap` is advanced by one.
pub const AP_ONE: u64 = 2;

/// Jump or increment.
pub const OPC_JMP_INC: u64 = 0;

/// Call.
pub const OPC_CALL: u64 = 1;

/// Return.
pub const OPC_RET: u64 = 2;

/// Assert equal.
pub const OPC_AEQ: u64 = 4;

/// The `width` bits of `v` that start at bit `lo`.
pub open spec fn bits(v: nat, lo: nat, width: nat) -> nat {
    (v / pow2(lo)) % pow2(width)
}

/// A biased 16-bit offset starting at bit `lo`, as a field element.
pub open spec fn offset_of(v: nat, lo: nat) -> nat {
    fsub(bits(v, lo, 16), pow2(15))
}

pub open spec fn off_dst_of(v: nat) -> nat {
    offset_of(v, 0)
}

pub open spec fn off_op0_of(v: nat) -> nat {
    offset_of(v, 16)
}

pub open spec fn off_op1_of(v: nat) -> nat {
    offset_of(v, 32)
}

/// The flag group of `width` bits starting at flag bit `lo`.
pub open spec fn flags_of(v: nat, lo: nat, width: nat) -> nat {
    bits(v, 48 + lo, width)
}

pub open spec fn dst_reg_of(v: nat) -> nat {
    flags_of(v, 0, 1)
}

pub open spec fn op0_reg_of(v: nat) -> nat {
    flags_of(v, 1, 1)
}

pub open spec fn op1_src_of(v: nat) -> nat {
    flags_of(v, 2, 3)
}

pub open spec fn res_log_of(v: nat) -> nat {
    flags_of(v, 5, 2)
}

pub open spec fn pc_up_of(v: nat) -> nat {
    flags_of(v, 7, 3)
}

pub open spec fn ap_up_of(v: nat) -> nat {
    flags_of(v, 10, 2)
}

pub open spec fn opcode_of(v: nat) -> nat {
    flags_of(v, 12, 3)
}

/// Bits below bit 64 depend on the low limb alone.
proof fn lemma_bits_low(v: nat, lo: nat, width: nat)
    requires
        lo + width <= 64,
    ensures
        bits(v, lo, width) == bits(v % limb_base(), lo, width),
{
    let b = limb_base() as int;
    let q = v as int / b;
    let r = v as int % b;
    lemma_fundamental_div_mod(v as int, b);
    lemma2_to64();
    lemma_pow2_pos(lo);
    lemma_pow2_pos(width);
    let rest = (64 - lo - width) as nat;
    lemma_pow2_adds(lo, (64 - lo) as nat);
    lemma_pow2_adds(width, rest);
    let hi = pow2((64 - lo) as nat) as int;
    assert(b == pow2(lo) * hi);
    let p = pow2(lo) as int;
    assert(q * b == (q * hi) * p) by (nonlinear_arith)
        requires
            b == p * hi,
    ;
    lemma_hoist_over_denominator(r, q * hi, pow2(lo));
    assert(v as int / pow2(lo) as int == r / pow2(lo) as int + q * hi);
    let pw = pow2(width) as int;
    let pr = pow2(rest) as int;
    assert(q * hi == pw * (q * pr)) by (nonlinear_arith)
        requires
            hi == pw * pr,
    ;
    lemma_mod_multiples_vanish(q * pow2(rest), r / pow2(lo) as int, pow2(width) as int);
}

/// `bits` of a single machine word.
fn bits_u64(x: u64, lo: u64, width: u64) -> (r: u64)
    requires
        lo < 64,
        width < 64,
    ensures
        r == bits(x as nat, lo as nat, width as nat),
{
    proof {
        lemma_u64_shr_is_div(x, lo);
        lemma_u64_pow2_no_overflow(width as nat);
        lemma2_to64();
    }
    let shifted = x >> lo;
    let mut m: u64 = 1;
    let mut i: u64 = 0;
    while i < width
        invariant
            i <= width,
            width < 64,
            m == pow2(i as nat),
        decreases width - i,
    {
        proof {
            lemma_pow2_unfold((i + 1) as nat);
            lemma_u64_pow2_no_overflow((i + 1) as nat);
        }
        m = m * 2;
        i = i + 1;
    }
    proof {
        lemma_pow2_pos(width as nat);
    }
    shifted % m
}

/// An instruction word.
#[derive(Clone, Copy, PartialEq, Eq, Structural, Debug)]
pub struct CairoWord {
    pub word: Felt,
}

impl View for CairoWord {
    type V = nat;

    open spec fn view(&self) -> nat {
        self.word@
    }
}

impl CairoWord {
    /// Wraps a field element as an instruction word.
    pub fn new(word: Felt) -> (r: CairoWord)
        ensures
            r@ == word@,
    {
        CairoWord { word }
    }

    /// The `width` bits at `lo`, for fields that end below bit 64.
    fn field(&self, lo: u64, width: u64) -> (r: u64)
        requires
            lo + width <= 64,
            lo < 64,
            width < 64,
        ensures
            r == bits(self@, lo as nat, width as nat),
    {
        proof {
            lemma_bits_low(self@, lo as nat, width as nat);
        }
        bits_u64(self.word.low_bits(), lo, width)
    }

    /// The biased offset at `lo`, as a field element.
    fn offset(&self, lo: u64) -> (r: Felt)
        requires
            lo <= 32,
        ensures
            r@ == offset_of(self@, lo as nat),
    {
        proof {
            lemma2_to64();
        }
        let x = self.field(lo, 16);
        Felt::from_u64(x).sub(Felt::from_u64(0x8000))
    }

    /// Offset of the destination.
    pub fn off_dst(&self) -> (r: Felt)
        ensures
            r@ == off_dst_of(self@),
    {
        self.offset(0)
    }

    /// Offset of the first operand.
    pub fn off_op0(&self) -> (r: Felt)
        ensures
            r@ == off_op0_of(self@),
    {
        self.offset(16)
    }

    /// Offset of the second operand.
    pub fn off_op1(&self) -> (r: Felt)
        ensures
            r@ == off_op1_of(self@),
    {
        self.offset(32)
    }

    /// Register of the destination: `DST_AP`, or `fp`.
    pub fn dst_reg(&self) -> (r: u64)
        ensures
            r == dst_reg_of(self@),
    {
        self.field(48, 1)
    }

    /// Register of the first operand: `OP0_AP`, or `fp`.
    pub fn op0_reg(&self) -> (r: u64)
        ensures
            r == op0_reg_of(self@),
    {
        self.field(49, 1)
    }

    /// Source of the second operand: one of the `OP1_` constants when well formed.
    pub fn op1_src(&self) -> (r: u64)
        ensures
            r == op1_src_of(self@),
    {
        self.field(50, 3)
    }

    /// Logic of the result: one of the `RES_` constants when well formed.
    pub fn res_log(&self) -> (r: u64)
        ensures
            r == res_log_of(self@),
    {
        self.field(53, 2)
    }

    /// Update of `pc`: one of the `PC_` constants when well formed.
    pub fn pc_up(&self) -> (r: u64)
        ensures
            r == pc_up_of(self@),
    {
        self.field(55, 3)
    }

    /// Update of `ap`: one of the `AP_` constants when well formed.
    pub fn ap_up(&self) -> (r: u64)
        ensures
            r == ap_up_of(self@),
    {
        self.field(58, 2)
    }

    /// The opcode: one of the `OPC_` constants when well formed.
    pub fn opcode(&self) -> (r: u64)
        ensures
            r == opcode_of(self@),
    {
        self.field(60, 3)
    }
}

} // verus!
