use um::{decode_image, Action, Fault, Machine, RunStatus, SegmentStore};

fn std_op(op: u32, a: u32, b: u32, c: u32) -> u32 {
    (op << 28) | (a << 6) | (b << 3) | c
}

fn ortho(dest: u32, value: u32) -> u32 {
    (13 << 28) | (dest << 25) | value
}

const HALT: u32 = 7 << 28;

#[test]
fn hello_program_prints_hi_and_halts() {
    let program = vec![ortho(0, 72), ortho(1, 105), std_op(10, 0, 0, 0), std_op(10, 0, 0, 1), HALT];
    let mut m = Machine::new(program);
    let report = m.run(&vec![], 100);
    assert_eq!(report.status, RunStatus::Halted);
    let text: String = report.output.iter().map(|&v| char::from_u32(v).unwrap()).collect();
    assert_eq!(text, "Hi");
    assert_eq!(m.registers(), [72, 105, 0, 0, 0, 0, 0, 0]);
}

#[test]
fn allocate_amend_index_round_trip() {
    let program = vec![
        ortho(2, 4),            // r2 = 4
        std_op(8, 0, 1, 2),     // r1 = alloc(r2)
        ortho(3, 2),            // r3 = 2
        ortho(4, 42),           // r4 = 42
        std_op(2, 1, 3, 4),     // seg[r1][r3] = r4
        std_op(1, 5, 1, 3),     // r5 = seg[r1][r3]
        HALT,
    ];
    let mut m = Machine::new(program);
    let report = m.run(&vec![], 100);
    assert_eq!(report.status, RunStatus::Halted);
    assert_eq!(m.registers()[5], 42);
    assert_eq!(m.registers()[1], 1);
    assert_eq!(m.store().segment_len(1), Some(4));
}

#[test]
fn addition_wraps_and_subtraction_undoes_it() {
    let program = vec![
        ortho(1, 0x1ff_ffff),
        ortho(2, 0x7f),
        std_op(6, 3, 1, 1),     // r3 = !0x1ffffff
        std_op(3, 1, 1, 3),     // r1 = 0xffffffff
        ortho(2, 1),
        std_op(3, 0, 1, 2),     // r0 = 0xffffffff + 1
        ortho(5, 12345),
        std_op(3, 6, 5, 2),     // r6 = 12345 + 1
        std_op(6, 7, 2, 2),     // r7 = !1
        std_op(3, 7, 7, 2),     // r7 = -1
        std_op(3, 6, 6, 7),     // r6 = 12346 - 1
        HALT,
    ];
    let mut m = Machine::new(program);
    let report = m.run(&vec![], 100);
    assert_eq!(report.status, RunStatus::Halted);
    let r = m.registers();
    assert_eq!(r[1], 0xffff_ffff);
    assert_eq!(r[0], 0);
    assert_eq!(r[6], 12345);
}

#[test]
fn multiplication_and_division() {
    let program = vec![
        ortho(1, 0x10000),
        std_op(4, 2, 1, 1),     // r2 = 2^32 mod 2^32 = 0
        ortho(3, 100),
        ortho(4, 7),
        std_op(5, 5, 3, 4),     // r5 = 14
        std_op(4, 6, 3, 4),     // r6 = 700
        HALT,
    ];
    let mut m = Machine::new(program);
    assert_eq!(m.run(&vec![], 100).status, RunStatus::Halted);
    let r = m.registers();
    assert_eq!(r[2], 0);
    assert_eq!(r[5], 14);
    assert_eq!(r[6], 700);
}

#[test]
fn conditional_move() {
    let program = vec![ortho(1, 9), std_op(0, 2, 1, 0), ortho(3, 1), std_op(0, 4, 1, 3), HALT];
    let mut m = Machine::new(program);
    assert_eq!(m.run(&vec![], 100).status, RunStatus::Halted);
    let r = m.registers();
    assert_eq!(r[2], 0);
    assert_eq!(r[4], 9);
}

#[test]
fn division_by_zero_faults_and_changes_nothing() {
    let program = vec![ortho(1, 5), ortho(3, 8), std_op(5, 3, 1, 2), HALT];
    let mut m = Machine::new(program);
    assert_eq!(m.step(), Ok(Action::Continue));
    assert_eq!(m.step(), Ok(Action::Continue));
    let before = m.registers();
    assert_eq!(m.step(), Err(Fault::DivisionByZero));
    assert_eq!(m.registers(), before);
    assert_eq!(m.finger(), 2);
    let mut again = Machine::new(vec![ortho(1, 5), std_op(5, 3, 1, 2), HALT]);
    let report = again.run(&vec![], 100);
    assert_eq!(report.status, RunStatus::Faulted(Fault::DivisionByZero));
}

#[test]
fn load_program_from_zero_only_jumps() {
    let program = vec![ortho(2, 3), std_op(12, 0, 1, 2), ortho(5, 1), HALT];
    let mut m = Machine::new(program);
    assert_eq!(m.step(), Ok(Action::Continue));
    assert_eq!(m.step(), Ok(Action::Continue));
    assert_eq!(m.finger(), 3);
    assert_eq!(m.store().segment_len(0), Some(4));
    assert_eq!(m.step(), Ok(Action::Halt));
    assert_eq!(m.registers()[5], 0);
}

#[test]
fn load_program_copies_segment() {
    // Build a one-word program (Halt) in a new segment and jump to it.
    let program = vec![
        ortho(1, 1),
        std_op(8, 0, 2, 1),     // r2 = alloc(1)
        ortho(3, 7),
        ortho(4, 0x1000),
        std_op(4, 3, 3, 4),     // r3 = 7 << 12
        std_op(4, 3, 3, 4),     // r3 = 7 << 24
        ortho(4, 16),
        std_op(4, 3, 3, 4),     // r3 = 7 << 28 (Halt)
        ortho(5, 0),
        std_op(2, 2, 5, 3),     // seg[r2][0] = Halt
        std_op(12, 0, 2, 5),    // load seg r2, finger 0
    ];
    let mut m = Machine::new(program);
    let report = m.run(&vec![], 100);
    assert_eq!(report.status, RunStatus::Halted);
    assert_eq!(m.finger(), 0);
    assert_eq!(m.store().segment_len(0), Some(1));
    assert_eq!(m.store().get(2, 0), Err(Fault::InvalidSegmentAccess));
    assert_eq!(m.store().get(1, 0), Ok(HALT));
}

#[test]
fn input_reads_bytes_then_sentinel() {
    let program = vec![std_op(11, 0, 0, 1), std_op(11, 0, 0, 2), HALT];
    let mut m = Machine::new(program);
    let report = m.run(&vec![0x41], 100);
    assert_eq!(report.status, RunStatus::Halted);
    assert_eq!(m.registers()[1], 0x41);
    assert_eq!(m.registers()[2], 0xffff_ffff);
}

#[test]
fn step_reports_input_and_output_actions() {
    let program = vec![std_op(11, 0, 0, 3), std_op(10, 0, 0, 3), HALT];
    let mut m = Machine::new(program);
    assert_eq!(m.step(), Ok(Action::Input(3)));
    m.provide_input(3, Some(b'z'));
    assert_eq!(m.step(), Ok(Action::Output('z' as u32)));
    assert_eq!(m.step(), Ok(Action::Halt));
}

#[test]
fn invalid_output_value_faults() {
    let program = vec![ortho(1, 0xd800), std_op(10, 0, 0, 1), HALT];
    let mut m = Machine::new(program);
    let report = m.run(&vec![], 100);
    assert_eq!(report.status, RunStatus::Faulted(Fault::InvalidOutputValue));
    assert!(report.output.is_empty());
}

#[test]
fn unsupported_opcode_faults() {
    let mut m = Machine::new(vec![0xe000_0000]);
    assert_eq!(m.step(), Err(Fault::UnsupportedOpcode));
    let mut m = Machine::new(vec![0xf000_0000]);
    assert_eq!(m.step(), Err(Fault::UnsupportedOpcode));
}

#[test]
fn finger_past_end_faults() {
    let mut m = Machine::new(vec![ortho(0, 1)]);
    assert_eq!(m.step(), Ok(Action::Continue));
    assert_eq!(m.step(), Err(Fault::SegmentBoundsViolation));
    let mut empty = Machine::new(vec![]);
    assert_eq!(empty.run(&vec![], 10).status, RunStatus::Faulted(Fault::SegmentBoundsViolation));
}

#[test]
fn run_stops_when_out_of_steps() {
    // Jump to itself forever.
    let mut m = Machine::new(vec![std_op(12, 0, 0, 0)]);
    let report = m.run(&vec![], 50);
    assert_eq!(report.status, RunStatus::OutOfSteps);
    assert_eq!(m.finger(), 0);
}

#[test]
fn abandon_faults_on_zero_and_dead_segments() {
    let program = vec![std_op(9, 0, 0, 0), HALT];
    let mut m = Machine::new(program);
    assert_eq!(m.step(), Err(Fault::InvalidSegmentAccess));
    let program = vec![ortho(1, 3), std_op(9, 0, 0, 1), HALT];
    let mut m = Machine::new(program);
    assert_eq!(m.run(&vec![], 10).status, RunStatus::Faulted(Fault::InvalidSegmentAccess));
}

#[test]
fn index_and_amend_check_bounds_and_liveness() {
    let program = vec![ortho(1, 2), std_op(8, 0, 2, 1), ortho(3, 2), std_op(1, 4, 2, 3), HALT];
    let mut m = Machine::new(program);
    assert_eq!(m.run(&vec![], 10).status, RunStatus::Faulted(Fault::SegmentBoundsViolation));
    let program = vec![ortho(1, 5), std_op(2, 1, 0, 0), HALT];
    let mut m = Machine::new(program);
    assert_eq!(m.run(&vec![], 10).status, RunStatus::Faulted(Fault::InvalidSegmentAccess));
}

#[test]
fn store_reuses_identifiers_last_freed_first() {
    let mut s = SegmentStore::new(vec![1, 2, 3]);
    assert_eq!(s.allocate(2), Ok(1));
    assert_eq!(s.allocate(3), Ok(2));
    assert_eq!(s.allocate(4), Ok(3));
    assert_eq!(s.set(3, 1, 99), Ok(()));
    assert_eq!(s.abandon(3), Ok(()));
    assert_eq!(s.abandon(1), Ok(()));
    assert_eq!(s.allocate(5), Ok(1));
    assert_eq!(s.allocate(6), Ok(3));
    assert_eq!(s.segment_len(3), Some(6));
    for off in 0..6 {
        assert_eq!(s.get(3, off), Ok(0));
    }
    assert_eq!(s.allocate(1), Ok(4));
}

#[test]
fn store_refuses_bad_identifiers() {
    let mut s = SegmentStore::new(vec![]);
    assert_eq!(s.abandon(0), Err(Fault::InvalidSegmentAccess));
    assert_eq!(s.abandon(1), Err(Fault::InvalidSegmentAccess));
    assert_eq!(s.get(1, 0), Err(Fault::InvalidSegmentAccess));
    assert_eq!(s.allocate(1), Ok(1));
    assert_eq!(s.abandon(1), Ok(()));
    assert_eq!(s.abandon(1), Err(Fault::InvalidSegmentAccess));
    assert_eq!(s.set(1, 0, 5), Err(Fault::InvalidSegmentAccess));
    assert_eq!(s.load_program(1), Err(Fault::InvalidSegmentAccess));
    assert_eq!(s.get(0, 0), Err(Fault::SegmentBoundsViolation));
    assert!(!s.is_live(1));
    assert!(s.is_live(0));
}

#[test]
fn image_decodes_big_endian_words() {
    let bytes: Vec<u8> = vec![0x70, 0x00, 0x00, 0x00, 0x12, 0x34, 0x56, 0x78];
    assert_eq!(decode_image(&bytes), Ok(vec![0x7000_0000, 0x1234_5678]));
    assert_eq!(decode_image(&[]), Ok(vec![]));
}

#[test]
fn image_with_partial_word_is_malformed() {
    assert_eq!(decode_image(&[1, 2, 3, 4, 5]), Err(Fault::MalformedImage));
    assert_eq!(decode_image(&[1]), Err(Fault::MalformedImage));
}
