//! Execution of Cairo programs, one instruction at a time.
//!
//! `step_spec` gives the meaning of one instruction over a memory and three
//! registers; `CairoStep` computes it. `run_spec` chains steps until the
//! halting rule fires; `CairoProgram` computes it.
use crate::felt::{fadd, fmul, fsub, modulus, Felt};
use crate::memory::{
    lemma_write_keeps_cells, opt_view, read_spec, write_spec, CairoError, CairoMemory,
};
use vstd::arithmetic::div_mod::{
    lemma_add_mod_noop, lemma_fundamental_div_mod_converse, lemma_small_mod,
};
use crate::word::{
    ap_up_of, dst_reg_of, off_dst_of, off_op0_of, off_op1_of, op0_reg_of, op1_src_of, opcode_of,
    pc_up_of, res_log_of, CairoWord, AP_ADD, AP_ONE, AP_Z2, DST_AP, OP0_AP, OP1_AP, OP1_DBL, OP1_FP,
    OP1_VAL, OPC_AEQ, OPC_CALL, OPC_JMP_INC, OPC_RET, PC_ABS, PC_JNZ, PC_REL, PC_SIZ, RES_ADD,
    RES_MUL, RES_ONE,
};
use vstd::prelude::*;

verus! {

/// Program counter, allocation pointer and frame pointer.
#[derive(Clone, Copy, PartialEq, Eq, Structural, Debug)]
pub struct CairoPointers {
    /// Address of the next instruction.
    pub pc: Felt,
    /// Address of the first free cell.
    pub ap: Felt,
    /// Address of the current frame.
    pub fp: Felt,
}

impl View for CairoPointers {
    type V = (nat, nat, nat);

    open spec fn view(&self) -> (nat, nat, nat) {
        (self.pc@, self.ap@, self.fp@)
    }
}

impl CairoPointers {
    /// The triple `(pc, ap, fp)`.
    pub fn new(pc: Felt, ap: Felt, fp: Felt) -> (r: CairoPointers)
        ensures
            r == (CairoPointers { pc, ap, fp }),
    {
        CairoPointers { pc, ap, fp }
    }
}

/// The values of one step, as the semantics computes them.
pub struct StepVars {
    pub word: nat,
    pub op0_addr: nat,
    pub op0: Option<nat>,
    pub op1_addr: nat,
    pub op1: Option<nat>,
    pub size: nat,
    pub res: Option<nat>,
    pub dst_addr: nat,
    pub dst: Option<nat>,
}

/// The values that one step computes on its way.
#[derive(Clone, Copy, PartialEq, Eq, Structural, Debug)]
pub struct CairoVariables {
    /// Destination
    pub dst: Option<Felt>,
    /// First operand
    pub op0: Option<Felt>,
    /// Second operand
    pub op1: Option<Felt>,
    /// Result
    pub res: Option<Felt>,
    /// Destination address
    pub dst_addr: Felt,
    /// First operand address
    pub op0_addr: Felt,
    /// Second operand address
    pub op1_addr: Felt,
    /// Size of the instruction
    pub size: Felt,
}

impl CairoVariables {
    /// These values, with the instruction word `word`.
    pub open spec fn with_word(&self, word: nat) -> StepVars {
        StepVars {
            word,
            op0_addr: self.op0_addr@,
            op0: opt_view(self.op0),
            op1_addr: self.op1_addr@,
            op1: opt_view(self.op1),
            size: self.size@,
            res: opt_view(self.res),
            dst_addr: self.dst_addr@,
            dst: opt_view(self.dst),
        }
    }

    /// No value computed yet, every address zero.
    pub open spec fn is_fresh(&self) -> bool {
        &&& self.dst is None
        &&& self.op0 is None
        &&& self.op1 is None
        &&& self.res is None
        &&& self.dst_addr@ == 0
        &&& self.op0_addr@ == 0
        &&& self.op1_addr@ == 0
        &&& self.size@ == 0
    }

    /// Values before a step.
    pub fn new() -> (r: CairoVariables)
        ensures
            r.is_fresh(),
    {
        CairoVariables {
            dst: None,
            op0: None,
            op1: None,
            res: None,
            dst_addr: Felt::zero(),
            op0_addr: Felt::zero(),
            op1_addr: Felt::zero(),
            size: Felt::zero(),
        }
    }
}

impl Default for CairoVariables {
    fn default() -> (r: CairoVariables)
        ensures
            r.is_fresh(),
    {
        CairoVariables::new()
    }
}

/// `ap` where the register flag `sel` selects it, else `fp`.
pub open spec fn reg_of(sel: nat, ap: nat, fp: nat) -> nat {
    if sel == 0 {
        ap
    } else {
        fp
    }
}

/// Address of the first operand.
pub open spec fn op0_addr_spec(v: nat, ap: nat, fp: nat) -> nat {
    fadd(reg_of(op0_reg_of(v), ap, fp), off_op0_of(v))
}

/// Address of the destination.
pub open spec fn dst_addr_spec(v: nat, ap: nat, fp: nat) -> nat {
    fadd(reg_of(dst_reg_of(v), ap, fp), off_dst_of(v))
}

/// Width of the instruction: two words with an immediate operand, else one.
pub open spec fn size_of(v: nat) -> nat {
    if op1_src_of(v) == OP1_VAL {
        2
    } else {
        1
    }
}

/// The register value that the second operand's offset applies to, if the
/// source is valid and available.
pub open spec fn op1_base_spec(v: nat, pc: nat, ap: nat, fp: nat, op0: Option<nat>) -> Option<nat> {
    let src = op1_src_of(v);
    if src == OP1_DBL {
        op0
    } else if src == OP1_VAL {
        Some(pc)
    } else if src == OP1_FP {
        Some(fp)
    } else if src == OP1_AP {
        Some(ap)
    } else {
        None
    }
}

/// The result, which may be absent when it is the second operand.
pub open spec fn res_spec(v: nat, op0: Option<nat>, op1: Option<nat>) -> Result<
    Option<nat>,
    CairoError,
> {
    let pc_up = pc_up_of(v);
    let res_log = res_log_of(v);
    if pc_up == PC_JNZ {
        if res_log == RES_ONE && opcode_of(v) == OPC_JMP_INC && ap_up_of(v) == AP_Z2 {
            Ok(Some(0))
        } else {
            Err(CairoError::InvalidInstruction)
        }
    } else if pc_up == PC_SIZ || pc_up == PC_ABS || pc_up == PC_REL {
        if res_log == RES_ONE {
            Ok(op1)
        } else if res_log == RES_ADD || res_log == RES_MUL {
            match (op0, op1) {
                (Some(a), Some(b)) => Ok(
                    Some(
                        if res_log == RES_ADD {
                            fadd(a, b)
                        } else {
                            fmul(a, b)
                        },
                    ),
                ),
                _ => Err(CairoError::InvalidInstruction),
            }
        } else {
            Err(CairoError::InvalidInstruction)
        }
    } else {
        Err(CairoError::InvalidInstruction)
    }
}

/// The values of the step from `(pc, ap, fp)` over memory `m`.
pub open spec fn vars_spec(m: Map<nat, nat>, pc: nat, ap: nat, fp: nat) -> Result<
    StepVars,
    CairoError,
> {
    match read_spec(m, pc) {
        None => Err(CairoError::InvalidInstruction),
        Some(v) => {
            let op0_addr = op0_addr_spec(v, ap, fp);
            let op0 = read_spec(m, op0_addr);
            match op1_base_spec(v, pc, ap, fp, op0) {
                None => Err(CairoError::InvalidInstruction),
                Some(base) => {
                    let op1_addr = fadd(base, off_op1_of(v));
                    let op1 = read_spec(m, op1_addr);
                    match res_spec(v, op0, op1) {
                        Err(e) => Err(e),
                        Ok(res) => {
                            let dst_addr = dst_addr_spec(v, ap, fp);
                            Ok(
                                StepVars {
                                    word: v,
                                    op0_addr,
                                    op0,
                                    op1_addr,
                                    op1,
                                    size: size_of(v),
                                    res,
                                    dst_addr,
                                    dst: read_spec(m, dst_addr),
                                },
                            )
                        },
                    }
                },
            }
        },
    }
}

/// The next program counter.
pub open spec fn next_pc_spec(s: StepVars, pc: nat) -> Result<nat, CairoError> {
    let pc_up = pc_up_of(s.word);
    if pc_up == PC_SIZ {
        Ok(fadd(pc, s.size))
    } else if pc_up == PC_ABS || pc_up == PC_REL {
        match s.res {
            Some(r) => Ok(
                if pc_up == PC_ABS {
                    r
                } else {
                    fadd(pc, r)
                },
            ),
            None => Err(CairoError::InvalidInstruction),
        }
    } else if pc_up == PC_JNZ {
        if s.dst == Some(0nat) {
            Ok(fadd(pc, s.size))
        } else {
            match s.op1 {
                Some(o) => Ok(fadd(pc, o)),
                None => Err(CairoError::InvalidInstruction),
            }
        }
    } else {
        Err(CairoError::InvalidInstruction)
    }
}

/// The next allocation pointer, for every opcode but a call.
pub open spec fn next_ap_spec(s: StepVars, ap: nat) -> Option<nat> {
    let ap_up = ap_up_of(s.word);
    if ap_up == AP_Z2 {
        Some(ap)
    } else if ap_up == AP_ADD {
        match s.res {
            Some(r) => Some(fadd(ap, r)),
            None => None,
        }
    } else if ap_up == AP_ONE {
        Some(fadd(ap, 1))
    } else {
        None
    }
}

/// The memory after the step, with the next allocation and frame pointers.
pub open spec fn next_apfp_spec(m: Map<nat, nat>, s: StepVars, pc: nat, ap: nat, fp: nat) -> Result<
    (Map<nat, nat>, nat, nat),
    CairoError,
> {
    let opcode = opcode_of(s.word);
    if opcode == OPC_CALL {
        match write_spec(m, ap, fp) {
            Err(e) => Err(e),
            Ok(m1) => match write_spec(m1, fadd(ap, 1), fadd(pc, s.size)) {
                Err(e) => Err(e),
                Ok(m2) => if ap_up_of(s.word) == AP_Z2 {
                    Ok((m2, fadd(ap, 2), fadd(ap, 2)))
                } else {
                    Err(CairoError::InvalidInstruction)
                },
            },
        }
    } else if opcode == OPC_JMP_INC || opcode == OPC_RET || opcode == OPC_AEQ {
        match next_ap_spec(s, ap) {
            None => Err(CairoError::InvalidInstruction),
            Some(next_ap) => if opcode == OPC_JMP_INC {
                Ok((m, next_ap, fp))
            } else if opcode == OPC_RET {
                match s.dst {
                    Some(d) => Ok((m, next_ap, d)),
                    None => Err(CairoError::InvalidInstruction),
                }
            } else {
                let written = match s.res {
                    Some(r) => write_spec(m, s.dst_addr, r),
                    None => match s.dst {
                        Some(d) => write_spec(m, s.op1_addr, d),
                        None => Err(CairoError::InvalidInstruction),
                    },
                };
                match written {
                    Ok(m2) => Ok((m2, next_ap, fp)),
                    Err(e) => Err(e),
                }
            },
        }
    } else {
        Err(CairoError::InvalidInstruction)
    }
}

/// One step from `(pc, ap, fp)` over `m`: the memory after it and the next
/// `(pc, ap, fp)`.
pub open spec fn step_spec(m: Map<nat, nat>, pc: nat, ap: nat, fp: nat) -> Result<
    (Map<nat, nat>, nat, nat, nat),
    CairoError,
> {
    match vars_spec(m, pc, ap, fp) {
        Err(e) => Err(e),
        Ok(s) => match next_pc_spec(s, pc) {
            Err(e) => Err(e),
            Ok(next_pc) => match next_apfp_spec(m, s, pc, ap, fp) {
                Err(e) => Err(e),
                Ok((m2, next_ap, next_fp)) => Ok((m2, next_pc, next_ap, next_fp)),
            },
        },
    }
}

/// The pointers held, if any.
pub open spec fn opt_ptrs(o: Option<CairoPointers>) -> Option<(nat, nat, nat)> {
    match o {
        Some(p) => Some(p@),
        None => None,
    }
}

/// One step of execution.
pub struct CairoStep {
    /// Current pointers
    pub curr: CairoPointers,
    /// Next pointers, once the step has run
    pub next: Option<CairoPointers>,
    /// Values computed by the step
    pub vars: CairoVariables,
}

impl CairoStep {
    /// A step from `ptrs` that has not run yet.
    pub fn new(ptrs: CairoPointers) -> (r: CairoStep)
        ensures
            r.curr == ptrs,
            r.next is None,
            r.vars.is_fresh(),
    {
        CairoStep { curr: ptrs, next: None, vars: CairoVariables::new() }
    }

    /// The instruction word at `pc`.
    pub fn instr(&self, mem: &CairoMemory) -> (r: Result<CairoWord, CairoError>)
        requires
            mem.wf(),
        ensures
            match read_spec(mem@, self.curr.pc@) {
                Some(v) => r is Ok && r->Ok_0@ == v,
                None => r == Err::<CairoWord, CairoError>(CairoError::InvalidInstruction),
            },
    {
        match mem.read(self.curr.pc) {
            Some(x) => Ok(CairoWord::new(x)),
            None => Err(CairoError::InvalidInstruction),
        }
    }

    /// Computes the address and value of the first operand.
    pub fn set_op0(&mut self, w: &CairoWord, mem: &CairoMemory)
        requires
            mem.wf(),
        ensures
            final(self).curr == old(self).curr,
            final(self).next == old(self).next,
            final(self).vars == (CairoVariables {
                op0_addr: final(self).vars.op0_addr,
                op0: final(self).vars.op0,
                ..old(self).vars
            }),
            final(self).vars.op0_addr@ == op0_addr_spec(w@, old(self).curr.ap@, old(self).curr.fp@),
            opt_view(final(self).vars.op0) == read_spec(mem@, final(self).vars.op0_addr@),
    {
        let reg = if w.op0_reg() == OP0_AP {
            self.curr.ap
        } else {
            self.curr.fp
        };
        self.vars.op0_addr = reg.add(w.off_op0());
        self.vars.op0 = mem.read(self.vars.op0_addr);
    }

    /// Computes the size of the instruction and the address and value of the
    /// second operand; fails on an invalid source, or when the source is the
    /// first operand and that is absent.
    pub fn set_op1(&mut self, w: &CairoWord, mem: &CairoMemory) -> (r: Result<(), CairoError>)
        requires
            mem.wf(),
        ensures
            final(self).curr == old(self).curr,
            final(self).next == old(self).next,
            match op1_base_spec(
                w@,
                old(self).curr.pc@,
                old(self).curr.ap@,
                old(self).curr.fp@,
                opt_view(old(self).vars.op0),
            ) {
                None => r == Err::<(), CairoError>(CairoError::InvalidInstruction) && *final(self)
                    == *old(self),
                Some(base) => {
                    &&& r is Ok
                    &&& final(self).vars == (CairoVariables {
                        size: final(self).vars.size,
                        op1_addr: final(self).vars.op1_addr,
                        op1: final(self).vars.op1,
                        ..old(self).vars
                    })
                    &&& final(self).vars.size@ == size_of(w@)
                    &&& final(self).vars.op1_addr@ == fadd(base, off_op1_of(w@))
                    &&& opt_view(final(self).vars.op1) == read_spec(
                        mem@,
                        final(self).vars.op1_addr@,
                    )
                },
            },
    {
        let src = w.op1_src();
        let (reg, size) = if src == OP1_DBL {
            match self.vars.op0 {
                Some(x) => (x, Felt::one()),
                None => {
                    return Err(CairoError::InvalidInstruction);
                },
            }
        } else if src == OP1_VAL {
            (self.curr.pc, Felt::from_u64(2))
        } else if src == OP1_FP {
            (self.curr.fp, Felt::one())
        } else if src == OP1_AP {
            (self.curr.ap, Felt::one())
        } else {
            return Err(CairoError::InvalidInstruction);
        };
        self.vars.size = size;
        self.vars.op1_addr = reg.add(w.off_op1());
        self.vars.op1 = mem.read(self.vars.op1_addr);
        Ok(())
    }

    /// Computes the result; fails on an invalid combination of flags, or when
    /// an operand of a sum or product is absent.
    pub fn set_res(&mut self, w: &CairoWord) -> (r: Result<(), CairoError>)
        ensures
            final(self).curr == old(self).curr,
            final(self).next == old(self).next,
            match res_spec(w@, opt_view(old(self).vars.op0), opt_view(old(self).vars.op1)) {
                Ok(res) => {
                    &&& r is Ok
                    &&& final(self).vars == (CairoVariables {
                        res: final(self).vars.res,
                        ..old(self).vars
                    })
                    &&& opt_view(final(self).vars.res) == res
                },
                Err(e) => r == Err::<(), CairoError>(e) && *final(self) == *old(self),
            },
    {
        let pc_up = w.pc_up();
        let res_log = w.res_log();
        if pc_up == PC_JNZ {
            if res_log == RES_ONE && w.opcode() == OPC_JMP_INC && w.ap_up() == AP_Z2 {
                self.vars.res = Some(Felt::zero());
                Ok(())
            } else {
                Err(CairoError::InvalidInstruction)
            }
        } else if pc_up == PC_SIZ || pc_up == PC_ABS || pc_up == PC_REL {
            if res_log == RES_ONE {
                self.vars.res = self.vars.op1;
                Ok(())
            } else if res_log == RES_ADD || res_log == RES_MUL {
                match (self.vars.op0, self.vars.op1) {
                    (Some(a), Some(b)) => {
                        self.vars.res = Some(
                            if res_log == RES_ADD {
                                a.add(b)
                            } else {
                                a.mul(b)
                            },
                        );
                        Ok(())
                    },
                    _ => Err(CairoError::InvalidInstruction),
                }
            } else {
                Err(CairoError::InvalidInstruction)
            }
        } else {
            Err(CairoError::InvalidInstruction)
        }
    }

    /// Computes the address and value of the destination.
    pub fn set_dst(&mut self, w: &CairoWord, mem: &CairoMemory)
        requires
            mem.wf(),
        ensures
            final(self).curr == old(self).curr,
            final(self).next == old(self).next,
            final(self).vars == (CairoVariables {
                dst_addr: final(self).vars.dst_addr,
                dst: final(self).vars.dst,
                ..old(self).vars
            }),
            final(self).vars.dst_addr@ == dst_addr_spec(w@, old(self).curr.ap@, old(self).curr.fp@),
            opt_view(final(self).vars.dst) == read_spec(mem@, final(self).vars.dst_addr@),
    {
        let reg = if w.dst_reg() == DST_AP {
            self.curr.ap
        } else {
            self.curr.fp
        };
        self.vars.dst_addr = reg.add(w.off_dst());
        self.vars.dst = mem.read(self.vars.dst_addr);
    }

    /// Computes the next program counter.
    pub fn next_pc(&self, w: &CairoWord) -> (r: Result<Felt, CairoError>)
        ensures
            match next_pc_spec(self.vars.with_word(w@), self.curr.pc@) {
                Ok(pc) => r is Ok && r->Ok_0@ == pc,
                Err(e) => r == Err::<Felt, CairoError>(e),
            },
    {
        let pc_up = w.pc_up();
        if pc_up == PC_SIZ {
            Ok(self.curr.pc.add(self.vars.size))
        } else if pc_up == PC_ABS || pc_up == PC_REL {
            match self.vars.res {
                Some(r) => Ok(
                    if pc_up == PC_ABS {
                        r
                    } else {
                        self.curr.pc.add(r)
                    },
                ),
                None => Err(CairoError::InvalidInstruction),
            }
        } else if pc_up == PC_JNZ {
            let dst_is_zero = match self.vars.dst {
                Some(d) => d.is_zero(),
                None => false,
            };
            if dst_is_zero {
                Ok(self.curr.pc.add(self.vars.size))
            } else {
                match self.vars.op1 {
                    Some(o) => Ok(self.curr.pc.add(o)),
                    None => Err(CairoError::InvalidInstruction),
                }
            }
        } else {
            Err(CairoError::InvalidInstruction)
        }
    }

    /// Computes the next allocation and frame pointers, with the writes to
    /// memory that a call or an assert-equal makes.
    pub fn next_apfp(&self, w: &CairoWord, mem: &mut CairoMemory) -> (r: Result<
        (Felt, Felt),
        CairoError,
    >)
        requires
            old(mem).wf(),
        ensures
            final(mem).wf(),
            match next_apfp_spec(
                old(mem)@,
                self.vars.with_word(w@),
                self.curr.pc@,
                self.curr.ap@,
                self.curr.fp@,
            ) {
                Ok((m, ap, fp)) => {
                    &&& r is Ok
                    &&& final(mem)@ == m
                    &&& r->Ok_0.0@ == ap
                    &&& r->Ok_0.1@ == fp
                },
                Err(e) => r == Err::<(Felt, Felt), CairoError>(e),
            },
    {
        let opcode = w.opcode();
        let ap = self.curr.ap;
        if opcode == OPC_CALL {
            match mem.write(ap, self.curr.fp) {
                Err(e) => {
                    return Err(e);
                },
                Ok(()) => {},
            }
            match mem.write(ap.add(Felt::one()), self.curr.pc.add(self.vars.size)) {
                Err(e) => {
                    return Err(e);
                },
                Ok(()) => {},
            }
            if w.ap_up() == AP_Z2 {
                let next = ap.add(Felt::from_u64(2));
                Ok((next, next))
            } else {
                Err(CairoError::InvalidInstruction)
            }
        } else if opcode == OPC_JMP_INC || opcode == OPC_RET || opcode == OPC_AEQ {
            let ap_up = w.ap_up();
            let next_ap = if ap_up == AP_Z2 {
                ap
            } else if ap_up == AP_ADD {
                match self.vars.res {
                    Some(r) => ap.add(r),
                    None => {
                        return Err(CairoError::InvalidInstruction);
                    },
                }
            } else if ap_up == AP_ONE {
                ap.add(Felt::one())
            } else {
                return Err(CairoError::InvalidInstruction);
            };
            if opcode == OPC_JMP_INC {
                Ok((next_ap, self.curr.fp))
            } else if opcode == OPC_RET {
                match self.vars.dst {
                    Some(d) => Ok((next_ap, d)),
                    None => Err(CairoError::InvalidInstruction),
                }
            } else {
                // Without a result, the result is the second operand, which is
                // then filled in from the destination.
                let written = match self.vars.res {
                    Some(r) => mem.write(self.vars.dst_addr, r),
                    None => match self.vars.dst {
                        Some(d) => mem.write(self.vars.op1_addr, d),
                        None => Err(CairoError::InvalidInstruction),
                    },
                };
                match written {
                    Ok(()) => Ok((next_ap, self.curr.fp)),
                    Err(e) => Err(e),
                }
            }
        } else {
            Err(CairoError::InvalidInstruction)
        }
    }

    /// Runs the step from the current pointers; on success `next` holds the
    /// next pointers.
    pub fn execute(&mut self, mem: &mut CairoMemory) -> (r: Result<(), CairoError>)
        requires
            old(mem).wf(),
        ensures
            final(mem).wf(),
            final(self).curr == old(self).curr,
            match step_spec(old(mem)@, old(self).curr.pc@, old(self).curr.ap@, old(self).curr.fp@) {
                Ok((m, pc, ap, fp)) => {
                    &&& r is Ok
                    &&& final(mem)@ == m
                    &&& opt_ptrs(final(self).next) == Some((pc, ap, fp))
                    &&& final(self).vars.with_word(read_spec(old(mem)@, old(self).curr.pc@)->Some_0)
                        == vars_spec(
                        old(mem)@,
                        old(self).curr.pc@,
                        old(self).curr.ap@,
                        old(self).curr.fp@,
                    )->Ok_0
                },
                Err(e) => r == Err::<(), CairoError>(e),
            },
    {
        let w = match self.instr(mem) {
            Ok(w) => w,
            Err(e) => {
                return Err(e);
            },
        };
        self.vars = CairoVariables::new();
        self.set_op0(&w, mem);
        match self.set_op1(&w, mem) {
            Ok(()) => {},
            Err(e) => {
                return Err(e);
            },
        }
        match self.set_res(&w) {
            Ok(()) => {},
            Err(e) => {
                return Err(e);
            },
        }
        self.set_dst(&w, mem);
        assert(vars_spec(mem@, self.curr.pc@, self.curr.ap@, self.curr.fp@) == Ok::<
            StepVars,
            CairoError,
        >(self.vars.with_word(w@)));
        let next_pc = match self.next_pc(&w) {
            Ok(pc) => pc,
            Err(e) => {
                return Err(e);
            },
        };
        let (next_ap, next_fp) = match self.next_apfp(&w, mem) {
            Ok(p) => p,
            Err(e) => {
                return Err(e);
            },
        };
        self.next = Some(CairoPointers::new(next_pc, next_ap, next_fp));
        Ok(())
    }
}

/// What a run gives: the memory at its end, the number of steps taken, the
/// last pointers executed (or, where the bound on steps stopped the run, the
/// pointers it would have executed next), and whether the halting rule fired.
pub type RunOutcome = (Map<nat, nat>, nat, (nat, nat, nat), bool);

/// A run from `(pc, ap, fp)` over `m` of at most `fuel` steps.
///
/// The run halts after the first step whose next `pc` is at or above the `ap`
/// that the step started from. This rule is a convention of how programs are
/// laid out: the final return of `main` jumps past the allocated cells.
pub open spec fn run_spec(m: Map<nat, nat>, pc: nat, ap: nat, fp: nat, fuel: nat) -> Result<
    RunOutcome,
    CairoError,
>
    decreases fuel,
{
    if fuel == 0 {
        Ok((m, 0, (pc, ap, fp), false))
    } else {
        match step_spec(m, pc, ap, fp) {
            Err(e) => Err(e),
            Ok((m2, next_pc, next_ap, next_fp)) => if ap <= next_pc {
                Ok((m2, 1, (pc, ap, fp), true))
            } else {
                later(run_spec(m2, next_pc, next_ap, next_fp, (fuel - 1) as nat), 1)
            },
        }
    }
}

/// `r` with `k` more steps counted.
pub open spec fn later(r: Result<RunOutcome, CairoError>, k: nat) -> Result<RunOutcome, CairoError> {
    match r {
        Ok((m, n, fin, halted)) => Ok((m, n + k, fin, halted)),
        Err(e) => Err(e),
    }
}

/// A run of a program.
pub struct CairoProgram {
    /// Number of steps taken
    pub steps: u64,
    /// Initial pointers
    pub ini: CairoPointers,
    /// Final pointers
    pub fin: CairoPointers,
    /// Whether the halting rule ended the run
    pub halted: bool,
}

impl CairoProgram {
    /// Whether this is the outcome `out` of a run from `ini`.
    pub open spec fn reports(&self, ini: (nat, nat, nat), out: RunOutcome) -> bool {
        &&& self.ini@ == ini
        &&& self.steps == out.1
        &&& self.fin@ == out.2
        &&& self.halted == out.3
    }

    /// Runs the program in `mem` from `pc`, with `ap` and `fp` both at `ap`,
    /// for at most `max_steps` steps.
    pub fn with_limit(mem: &mut CairoMemory, pc: u64, ap: u64, max_steps: u64) -> (r: Result<
        CairoProgram,
        CairoError,
    >)
        requires
            old(mem).wf(),
        ensures
            final(mem).wf(),
            match run_spec(old(mem)@, pc as nat, ap as nat, ap as nat, max_steps as nat) {
                Ok(out) => r is Ok && final(mem)@ == out.0 && r->Ok_0.reports(
                    (pc as nat, ap as nat, ap as nat),
                    out,
                ),
                Err(e) => r == Err::<CairoProgram, CairoError>(e),
            },
    {
        let ini = CairoPointers::new(Felt::from_u64(pc), Felt::from_u64(ap), Felt::from_u64(ap));
        let mut prog = CairoProgram { steps: 0, ini, fin: ini, halted: false };
        match prog.execute(mem, max_steps) {
            Ok(()) => Ok(prog),
            Err(e) => Err(e),
        }
    }

    /// Runs the program in `mem` from `pc`, with `ap` and `fp` both at `ap`,
    /// until it halts.
    pub fn new(mem: &mut CairoMemory, pc: u64, ap: u64) -> (r: Result<CairoProgram, CairoError>)
        requires
            old(mem).wf(),
        ensures
            final(mem).wf(),
            match run_spec(old(mem)@, pc as nat, ap as nat, ap as nat, u64::MAX as nat) {
                Ok(out) => r is Ok && final(mem)@ == out.0 && r->Ok_0.reports(
                    (pc as nat, ap as nat, ap as nat),
                    out,
                ),
                Err(e) => r == Err::<CairoProgram, CairoError>(e),
            },
    {
        CairoProgram::with_limit(mem, pc, ap, u64::MAX)
    }

    /// The number of steps taken.
    pub fn get_steps(&self) -> (r: u64)
        ensures
            r == self.steps,
    {
        self.steps
    }

    /// The final pointers.
    pub fn get_final(&self) -> (r: CairoPointers)
        ensures
            r == self.fin,
    {
        self.fin
    }

    /// Runs steps from `ini` until the halting rule fires or `max_steps` steps
    /// were taken.
    fn execute(&mut self, mem: &mut CairoMemory, max_steps: u64) -> (r: Result<(), CairoError>)
        requires
            old(mem).wf(),
        ensures
            final(mem).wf(),
            final(self).ini == old(self).ini,
            match run_spec(
                old(mem)@,
                old(self).ini.pc@,
                old(self).ini.ap@,
                old(self).ini.fp@,
                max_steps as nat,
            ) {
                Ok(out) => r is Ok && final(mem)@ == out.0 && final(self).reports(
                    old(self).ini@,
                    out,
                ),
                Err(e) => r == Err::<(), CairoError>(e),
            },
    {
        let ghost m0 = mem@;
        let mut next = self.ini;
        let mut n: u64 = 0;
        while n < max_steps
            invariant
                mem.wf(),
                n <= max_steps,
                self.ini == old(self).ini,
                m0 == old(mem)@,
                run_spec(m0, self.ini.pc@, self.ini.ap@, self.ini.fp@, max_steps as nat) == later(
                    run_spec(mem@, next.pc@, next.ap@, next.fp@, (max_steps - n) as nat),
                    n as nat,
                ),
            decreases max_steps - n,
        {
            let mut step = CairoStep::new(next);
            let curr = step.curr;
            match step.execute(mem) {
                Ok(()) => {},
                Err(e) => {
                    return Err(e);
                },
            }
            let after = match step.next {
                Some(p) => p,
                None => {
                    return Err(CairoError::InvalidInstruction);
                },
            };
            n = n + 1;
            if curr.ap.le(&after.pc) {
                self.steps = n;
                self.fin = curr;
                self.halted = true;
                return Ok(());
            }
            next = after;
        }
        self.steps = n;
        self.fin = next;
        self.halted = false;
        Ok(())
    }
}

/// A step keeps every cell that was set: it only writes where memory agrees.
pub proof fn lemma_step_keeps_cells(m: Map<nat, nat>, pc: nat, ap: nat, fp: nat)
    requires
        step_spec(m, pc, ap, fp) is Ok,
    ensures
        m.submap_of(step_spec(m, pc, ap, fp)->Ok_0.0),
{
    let s = vars_spec(m, pc, ap, fp)->Ok_0;
    if opcode_of(s.word) == OPC_CALL {
        let m1 = write_spec(m, ap, fp)->Ok_0;
        lemma_write_keeps_cells(m, ap, fp);
        lemma_write_keeps_cells(m1, fadd(ap, 1), fadd(pc, s.size));
    } else if opcode_of(s.word) == OPC_AEQ {
        match s.res {
            Some(r) => lemma_write_keeps_cells(m, s.dst_addr, r),
            None => lemma_write_keeps_cells(m, s.op1_addr, s.dst->Some_0),
        }
    }
}

/// Over a whole run no cell changes value: the memory at the end holds every
/// cell of the memory at the start, unchanged. With `lemma_write_once`, a
/// write of another value to a cell set earlier in the run fails.
pub proof fn lemma_run_keeps_cells(m: Map<nat, nat>, pc: nat, ap: nat, fp: nat, fuel: nat)
    requires
        run_spec(m, pc, ap, fp, fuel) is Ok,
    ensures
        m.submap_of(run_spec(m, pc, ap, fp, fuel)->Ok_0.0),
    decreases fuel,
{
    if fuel > 0 {
        lemma_step_keeps_cells(m, pc, ap, fp);
        let (m2, next_pc, next_ap, next_fp) = step_spec(m, pc, ap, fp)->Ok_0;
        if !(ap <= next_pc) {
            lemma_run_keeps_cells(m2, next_pc, next_ap, next_fp, (fuel - 1) as nat);
            let fin = run_spec(m, pc, ap, fp, fuel)->Ok_0.0;
            assert(fin == run_spec(m2, next_pc, next_ap, next_fp, (fuel - 1) as nat)->Ok_0.0);
            assert forall|a: nat| #[trigger] m.contains_key(a) implies fin.contains_key(a) && fin[a]
                == m[a] by {
                assert(m2.contains_key(a));
            }
        }
    }
}

/// An assert-equal makes its two sides equal in memory: with a result, the
/// destination holds it afterwards; without one, the second operand's cell
/// holds the destination.
pub proof fn lemma_assert_equal(m: Map<nat, nat>, pc: nat, ap: nat, fp: nat)
    requires
        step_spec(m, pc, ap, fp) is Ok,
        opcode_of(vars_spec(m, pc, ap, fp)->Ok_0.word) == OPC_AEQ,
    ensures
        ({
            let s = vars_spec(m, pc, ap, fp)->Ok_0;
            let after = step_spec(m, pc, ap, fp)->Ok_0.0;
            &&& s.res is Some ==> after.contains_key(s.dst_addr) && after[s.dst_addr]
                == s.res->Some_0
            &&& s.res is None ==> s.dst is Some && after.contains_key(s.op1_addr)
                && after[s.op1_addr] == s.dst->Some_0
        }),
{
}

/// The usual return instruction: jump to `[fp - 1]` and restore `fp` from
/// `[fp - 2]`.
pub open spec fn is_ret(v: nat) -> bool {
    &&& opcode_of(v) == OPC_RET
    &&& pc_up_of(v) == PC_ABS
    &&& res_log_of(v) == RES_ONE
    &&& op1_src_of(v) == OP1_FP
    &&& off_op1_of(v) == fsub(0, 1)
    &&& dst_reg_of(v) == 1
    &&& off_dst_of(v) == fsub(0, 2)
}

/// `(a + k) - j` in the field, for `a` reduced.
proof fn lemma_back_from(a: nat, k: nat, j: nat)
    requires
        a < modulus(),
        j <= k,
    ensures
        fadd(fadd(a, k), fsub(0, j)) == fadd(a, (k - j) as nat),
{
    let p = modulus() as int;
    lemma_add_mod_noop((a + k) as int, -j, p);
}

/// A return undoes the matching call. After a call from `(pc, ap, fp)`, a
/// return executed with the frame pointer that the call set, over any later
/// memory that keeps the call's cells, restores `fp` and continues at the
/// instruction after the call.
pub proof fn lemma_return_after_call(
    m: Map<nat, nat>,
    pc: nat,
    ap: nat,
    fp: nat,
    later: Map<nat, nat>,
    ret_pc: nat,
    ret_ap: nat,
)
    requires
        ap < modulus(),
        step_spec(m, pc, ap, fp) is Ok,
        opcode_of(vars_spec(m, pc, ap, fp)->Ok_0.word) == OPC_CALL,
        step_spec(m, pc, ap, fp)->Ok_0.0.submap_of(later),
        read_spec(later, ret_pc) is Some,
        is_ret(read_spec(later, ret_pc)->Some_0),
        step_spec(later, ret_pc, ret_ap, step_spec(m, pc, ap, fp)->Ok_0.3) is Ok,
    ensures
        ({
            let call_fp = step_spec(m, pc, ap, fp)->Ok_0.3;
            let back = step_spec(later, ret_pc, ret_ap, call_fp)->Ok_0;
            &&& back.3 == fp
            &&& back.1 == fadd(pc, size_of(vars_spec(m, pc, ap, fp)->Ok_0.word))
        }),
{
    let s = vars_spec(m, pc, ap, fp)->Ok_0;
    let m1 = write_spec(m, ap, fp)->Ok_0;
    let m2 = step_spec(m, pc, ap, fp)->Ok_0.0;
    let call_fp = step_spec(m, pc, ap, fp)->Ok_0.3;
    assert(call_fp == fadd(ap, 2));
    lemma_small_mod(ap, modulus());
    lemma_back_from(ap, 2, 2);
    lemma_back_from(ap, 2, 1);
    assert(fadd(ap, 0) == ap);
    assert(fadd(ap, 1) != ap) by {
        if ap + 1 < modulus() {
            lemma_small_mod(ap + 1, modulus());
        } else {
            lemma_fundamental_div_mod_converse((ap + 1) as int, modulus() as int, 1, 0);
        }
    }
    lemma_write_keeps_cells(m, ap, fp);
    lemma_write_keeps_cells(m1, fadd(ap, 1), fadd(pc, s.size));
    assert(m2.contains_key(ap) && m2[ap] == fp);
    assert(m2.contains_key(fadd(ap, 1)) && m2[fadd(ap, 1)] == fadd(pc, s.size));
    let r = vars_spec(later, ret_pc, ret_ap, call_fp)->Ok_0;
    assert(r.dst_addr == ap);
    assert(r.op1_addr == fadd(ap, 1));
}

} // verus!
