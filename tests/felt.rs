use cairo_vm::felt::Felt;
use cairo_vm::word::{CairoWord, OP1_AP, OP1_VAL, OPC_AEQ, OPC_RET, PC_ABS, RES_ONE, AP_ONE, AP_Z2};

fn f(n: u64) -> Felt {
    Felt::from_u64(n)
}

#[test]
fn field_addition() {
    assert_eq!(f(2).add(f(3)), f(5));
    assert_eq!(Felt::from_i64(-1).add(f(1)), Felt::zero());
    assert_eq!(Felt::from_i64(-1).add(f(2)), f(1));
}

#[test]
fn field_subtraction() {
    assert_eq!(f(10).sub(f(3)), f(7));
    assert_eq!(f(3).sub(f(10)), Felt::from_i64(-7));
    assert_ne!(Felt::from_i64(-7), f(7));
}

#[test]
fn field_multiplication() {
    assert_eq!(f(20).mul(f(20)), f(400));
    assert_eq!(Felt::from_i64(-1).mul(Felt::from_i64(-1)), f(1));
    assert_eq!(f(u64::MAX).mul(f(2)), f(u64::MAX).add(f(u64::MAX)));
}

#[test]
fn field_order_is_by_representative() {
    assert!(f(3).le(&f(3)));
    assert!(f(3).le(&f(4)));
    assert!(!f(4).le(&f(3)));
    assert!(f(4).le(&Felt::from_i64(-1)));
    assert!(Felt::zero().is_zero());
    assert!(!Felt::one().is_zero());
}

#[test]
fn decode_immediate_store() {
    let w = CairoWord::new(f(0x480680017fff8000));
    assert_eq!(w.off_dst(), Felt::zero());
    assert_eq!(w.off_op0(), Felt::from_i64(-1));
    assert_eq!(w.off_op1(), f(1));
    assert_eq!(w.dst_reg(), 0);
    assert_eq!(w.op0_reg(), 1);
    assert_eq!(w.op1_src(), OP1_VAL);
    assert_eq!(w.res_log(), RES_ONE);
    assert_eq!(w.pc_up(), 0);
    assert_eq!(w.ap_up(), AP_ONE);
    assert_eq!(w.opcode(), OPC_AEQ);
}

#[test]
fn decode_return() {
    let w = CairoWord::new(f(0x208b7fff7fff7ffe));
    assert_eq!(w.off_dst(), Felt::from_i64(-2));
    assert_eq!(w.off_op1(), Felt::from_i64(-1));
    assert_eq!(w.dst_reg(), 1);
    assert_eq!(w.pc_up(), PC_ABS);
    assert_eq!(w.ap_up(), AP_Z2);
    assert_eq!(w.opcode(), OPC_RET);
    assert_ne!(w.op1_src(), OP1_AP);
}
