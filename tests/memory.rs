use cairo_vm::felt::Felt;
use cairo_vm::memory::{CairoError, CairoMemory};
use cairo_vm::runner::{CairoPointers, CairoStep};

fn f(n: u64) -> Felt {
    Felt::from_u64(n)
}

#[test]
fn program_is_loaded_after_a_zero_word() {
    let mem = CairoMemory::new(vec![f(7), f(8)]);
    assert_eq!(mem.read(f(0)), Some(Felt::zero()));
    assert_eq!(mem.read(f(1)), Some(f(7)));
    assert_eq!(mem.read(f(2)), Some(f(8)));
    assert_eq!(mem.read(f(3)), None);
}

#[test]
fn program_at_a_base() {
    let mem = CairoMemory::new_at(&vec![f(7), f(8)], 100);
    assert_eq!(mem.read(f(99)), None);
    assert_eq!(mem.read(f(100)), Some(f(7)));
    assert_eq!(mem.read(f(101)), Some(f(8)));
}

#[test]
fn second_write_of_another_value_fails() {
    let mut mem = CairoMemory::new(vec![]);
    assert_eq!(mem.write(f(50), f(5)), Ok(()));
    assert_eq!(mem.write(f(50), f(5)), Ok(()));
    assert_eq!(mem.write(f(50), f(6)), Err(CairoError::MemoryInconsistency));
    assert_eq!(mem.read(f(50)), Some(f(5)));
    assert_eq!(mem.write(f(0), f(1)), Err(CairoError::MemoryInconsistency));
}

#[test]
fn reading_unset_cell_twice_stays_unset() {
    let mut mem = CairoMemory::new(vec![]);
    assert_eq!(mem.read(f(9)), None);
    assert_eq!(mem.read(f(9)), None);
    mem.write(f(10), f(0)).unwrap();
    assert_eq!(mem.read(f(9)), None);
    assert_eq!(mem.read(f(10)), Some(Felt::zero()));
}

#[test]
fn sparse_addresses() {
    let mut mem = CairoMemory::new(vec![]);
    let far = Felt::from_i64(-5);
    mem.write(far, f(3)).unwrap();
    mem.write(f(1_000_000), f(4)).unwrap();
    assert_eq!(mem.read(far), Some(f(3)));
    assert_eq!(mem.read(f(1_000_000)), Some(f(4)));
    assert_eq!(mem.read(f(999_999)), None);
}

#[test]
fn instruction_size_follows_op1_source() {
    // immediate operand: two words
    let mut mem = CairoMemory::new(vec![f(0x480680017fff8000), f(10)]);
    let mut step = CairoStep::new(CairoPointers::new(f(1), f(6), f(6)));
    step.execute(&mut mem).unwrap();
    assert_eq!(step.vars.size, f(2));
    // [ap] = [ap + 1], fp-relative dst: one word
    let mut mem = CairoMemory::new(vec![f(0x4011_8001_7fff_8000)]);
    mem.write(f(6), f(1)).unwrap();
    let mut step = CairoStep::new(CairoPointers::new(f(1), f(6), f(6)));
    step.execute(&mut mem).unwrap();
    assert_eq!(step.vars.size, f(1));
}
