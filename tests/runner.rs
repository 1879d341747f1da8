use cairo_vm::felt::Felt;
use cairo_vm::memory::{CairoError, CairoMemory};
use cairo_vm::runner::{CairoPointers, CairoProgram, CairoStep};

fn f(n: u64) -> Felt {
    Felt::from_u64(n)
}

fn vec_to_field(v: Vec<i128>) -> Vec<Felt> {
    v.into_iter().map(|x| Felt::from_i64(x as i64)).collect()
}

fn small_program() -> CairoMemory {
    let instrs = vec![f(0x480680017fff8000), f(10), f(0x208b7fff7fff7ffe)];
    let mut mem = CairoMemory::new(instrs);
    mem.write(f(4), f(7)).unwrap();
    mem.write(f(5), f(7)).unwrap();
    mem
}

#[test]
fn test_cairo_step() {
    // tempvar x = 10;
    let mut mem = small_program();
    let ptrs = CairoPointers::new(f(1), f(6), f(6));
    let mut step = CairoStep::new(ptrs);

    step.execute(&mut mem).unwrap();
    assert_eq!(step.next.unwrap().pc, f(3));
    assert_eq!(step.next.unwrap().ap, f(7));
    assert_eq!(step.next.unwrap().fp, f(6));
}

#[test]
fn test_cairo_program() {
    let mut mem = small_program();
    let prog = CairoProgram::new(&mut mem, 1, 6);
    assert!(prog.is_ok());
}

#[test]
fn program_runner_small_program() {
    let mut mem = small_program();
    let prog = CairoProgram::new(&mut mem, 1, 6).unwrap();
    // the immediate store, then the return that jumps past the allocated cells
    assert_eq!(prog.get_steps(), 2);
    assert!(prog.halted);
    assert_eq!(prog.get_final().pc, f(3));
    assert_eq!(prog.get_final().ap, f(7));
    assert_eq!(prog.get_final().fp, f(6));
    assert_eq!(mem.read(f(6)), Some(f(10)));
}

#[test]
fn test_cairo_output() {
    // %builtins output
    // from starkware.cairo.common.serialize import serialize_word
    // func main{output_ptr : felt*}():
    //     tempvar x = 10
    //     tempvar y = x + x
    //     tempvar z = y * y + x
    //     serialize_word(x)
    //     serialize_word(y)
    //     serialize_word(z)
    //     return ()
    // end
    let instrs: Vec<i128> = vec![
        0x400380007ffc7ffd,
        0x482680017ffc8000,
        1,
        0x208b7fff7fff7ffe,
        0x480680017fff8000,
        10,
        0x48307fff7fff8000,
        0x48507fff7fff8000,
        0x48307ffd7fff8000,
        0x480a7ffd7fff8000,
        0x48127ffb7fff8000,
        0x1104800180018000,
        -11,
        0x48127ff87fff8000,
        0x1104800180018000,
        -14,
        0x48127ff67fff8000,
        0x1104800180018000,
        -17,
        0x208b7fff7fff7ffe,
    ];

    let mut mem = CairoMemory::new(vec_to_field(instrs));
    mem.write(f(21), f(41)).unwrap(); // beginning of outputs
    mem.write(f(22), f(44)).unwrap(); // end of outputs
    mem.write(f(23), f(44)).unwrap(); // end of program
    let prog = CairoProgram::new(&mut mem, 5, 24).unwrap();
    assert_eq!(prog.get_final().pc, f(20));
    assert_eq!(prog.get_final().ap, f(41));
    assert_eq!(prog.get_final().fp, f(24));
    assert_eq!(mem.read(f(24)).unwrap(), f(10));
    assert_eq!(mem.read(f(25)).unwrap(), f(20));
    assert_eq!(mem.read(f(26)).unwrap(), f(400));
    assert_eq!(mem.read(f(27)).unwrap(), f(410));
    assert_eq!(mem.read(f(28)).unwrap(), f(41));
    assert_eq!(mem.read(f(29)).unwrap(), f(10));
    assert_eq!(mem.read(f(30)).unwrap(), f(24));
    assert_eq!(mem.read(f(31)).unwrap(), f(14));
    assert_eq!(mem.read(f(32)).unwrap(), f(42));
    assert_eq!(mem.read(f(33)).unwrap(), f(20));
    assert_eq!(mem.read(f(34)).unwrap(), f(24));
    assert_eq!(mem.read(f(35)).unwrap(), f(17));
    assert_eq!(mem.read(f(36)).unwrap(), f(43));
    assert_eq!(mem.read(f(37)).unwrap(), f(410));
    assert_eq!(mem.read(f(38)).unwrap(), f(24));
    assert_eq!(mem.read(f(39)).unwrap(), f(20));
    assert_eq!(mem.read(f(40)).unwrap(), f(44));
    assert_eq!(mem.read(f(41)).unwrap(), f(10));
    assert_eq!(mem.read(f(42)).unwrap(), f(20));
    assert_eq!(mem.read(f(43)).unwrap(), f(410));
}

#[test]
fn return_restores_frame_of_call() {
    // 1: call rel 3 (immediate at 2), 3: padding, 4: ret
    let instrs = vec![f(0x1104800180018000), f(3), f(0), f(0x208b7fff7fff7ffe)];
    let mut mem = CairoMemory::new(instrs);
    let mut call = CairoStep::new(CairoPointers::new(f(1), f(10), f(10)));
    call.execute(&mut mem).unwrap();
    let after_call = call.next.unwrap();
    assert_eq!(after_call, CairoPointers::new(f(4), f(12), f(12)));
    assert_eq!(mem.read(f(10)), Some(f(10)));
    assert_eq!(mem.read(f(11)), Some(f(3)));

    let mut ret = CairoStep::new(after_call);
    ret.execute(&mut mem).unwrap();
    let back = ret.next.unwrap();
    assert_eq!(back.fp, f(10));
    assert_eq!(back.pc, f(3));
    assert_eq!(back.ap, f(12));
}

#[test]
fn assert_equal_with_result_writes_destination() {
    let mut mem = small_program();
    assert_eq!(mem.read(f(6)), None);
    let mut step = CairoStep::new(CairoPointers::new(f(1), f(6), f(6)));
    step.execute(&mut mem).unwrap();
    assert_eq!(step.vars.res, Some(f(10)));
    assert_eq!(step.vars.dst_addr, f(6));
    assert_eq!(mem.read(f(6)), Some(f(10)));
}

#[test]
fn assert_equal_without_result_fills_second_operand() {
    // [ap] = [ap + 1]: dst and op1 ap-relative, result is op1
    let word = 0x4011_8001_7fff_8000u64;
    let mut mem = CairoMemory::new(vec![f(word)]);
    mem.write(f(6), f(42)).unwrap();
    let mut step = CairoStep::new(CairoPointers::new(f(1), f(6), f(6)));
    step.execute(&mut mem).unwrap();
    assert_eq!(step.vars.res, None);
    assert_eq!(step.vars.op1_addr, f(7));
    assert_eq!(mem.read(f(7)), Some(f(42)));
    assert_eq!(step.next.unwrap(), CairoPointers::new(f(2), f(6), f(6)));
}

#[test]
fn assert_equal_conflict_is_memory_inconsistency() {
    let mut mem = small_program();
    mem.write(f(6), f(11)).unwrap();
    let mut step = CairoStep::new(CairoPointers::new(f(1), f(6), f(6)));
    assert_eq!(step.execute(&mut mem), Err(CairoError::MemoryInconsistency));
    assert_eq!(mem.read(f(6)), Some(f(11)));
}

#[test]
fn missing_instruction_is_invalid() {
    let mut mem = small_program();
    let mut step = CairoStep::new(CairoPointers::new(f(100), f(6), f(6)));
    assert_eq!(step.execute(&mut mem), Err(CairoError::InvalidInstruction));
    assert!(step.next.is_none());
}

#[test]
fn combined_op1_sources_are_invalid() {
    // op1 flags immediate and fp-relative at once
    let word = 0x400c_8001_7fff_8000u64;
    let mut mem = CairoMemory::new(vec![f(word), f(5)]);
    let mut step = CairoStep::new(CairoPointers::new(f(1), f(6), f(6)));
    assert_eq!(step.execute(&mut mem), Err(CairoError::InvalidInstruction));
}

#[test]
fn jnz_with_add_result_is_invalid() {
    // jnz with res_log add
    let word = 0x0224_8001_7fff_8000u64;
    let mut mem = CairoMemory::new(vec![f(word), f(5)]);
    mem.write(f(5), f(1)).unwrap();
    let mut step = CairoStep::new(CairoPointers::new(f(1), f(6), f(6)));
    assert_eq!(step.execute(&mut mem), Err(CairoError::InvalidInstruction));
}

#[test]
fn jnz_jumps_unless_destination_is_zero() {
    // jmp rel 5 if [ap] != 0, immediate operand
    let word = 0x0206_8001_7fff_8000u64;
    let mut mem = CairoMemory::new(vec![f(word), f(5)]);
    mem.write(f(6), f(3)).unwrap();
    mem.write(f(7), f(0)).unwrap();
    let mut taken = CairoStep::new(CairoPointers::new(f(1), f(6), f(6)));
    taken.execute(&mut mem).unwrap();
    assert_eq!(taken.next.unwrap().pc, f(6));
    let mut not_taken = CairoStep::new(CairoPointers::new(f(1), f(7), f(7)));
    not_taken.execute(&mut mem).unwrap();
    assert_eq!(not_taken.next.unwrap().pc, f(3));
}

#[test]
fn step_limit_stops_run() {
    let mut mem = small_program();
    let prog = CairoProgram::with_limit(&mut mem, 1, 6, 1).unwrap();
    assert_eq!(prog.get_steps(), 1);
    assert!(!prog.halted);
    assert_eq!(prog.get_final(), CairoPointers::new(f(3), f(7), f(6)));
}
