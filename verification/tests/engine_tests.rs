use pufferfish::program::{
    CycleInstruction, Direction, ExecError, InstructionPointer, Program, StepEffect,
};
use pufferfish::tank::Tank;

fn tank(name: &str, cells: Vec<usize>) -> Tank {
    Tank::from_cells(String::from(name), cells).unwrap()
}

fn zero_tank(name: &str) -> Tank {
    tank(name, vec![0; 20])
}

#[test]
fn test_ip_wraparound() {
    let origin = InstructionPointer::new(0, 0);
    assert_eq!(origin.move_dir(Direction::Left).col, 3);
    assert_eq!(origin.move_dir(Direction::Left).row, 0);
    assert_eq!(origin.move_dir(Direction::Up).row, 4);
    assert_eq!(origin.move_dir(Direction::Up).col, 0);
    let edge = InstructionPointer::new(2, 3);
    assert_eq!(edge.move_dir(Direction::Right).col, 0);
    assert_eq!(edge.move_dir(Direction::Right).row, 2);
    let bottom = InstructionPointer::new(4, 1);
    assert_eq!(bottom.move_dir(Direction::Down).row, 0);
}

#[test]
fn test_layout_six_tanks() {
    let tanks = (0..6).map(|i| zero_tank(&format!("{}", ('a' as u8 + i) as char))).collect();
    let p = Program::build_aquarium(tanks);
    assert_eq!(p.height(), 2);
    assert_eq!(p.width(), 3);
}

#[test]
fn test_layout_nine_tanks() {
    let tanks = (0..9).map(|i| zero_tank(&format!("{}", ('a' as u8 + i) as char))).collect();
    let p = Program::build_aquarium(tanks);
    assert_eq!(p.height(), 3);
    assert_eq!(p.width(), 3);
}

#[test]
fn test_trampoline_skips_next_instruction() {
    // Row 0 reads 7, 6, 3, 0: the tunnel sets the flag on an empty stack,
    // and the following cycle instruction (which would underflow) is
    // skipped, only the pointer advancing, the flag clearing.
    let mut cells = vec![0; 20];
    cells[0] = 7;
    cells[1] = 6;
    cells[2] = 3;
    let mut p = Program::build_aquarium(vec![tank("a", cells)]);
    assert!(matches!(p.step(), Ok(StepEffect::Continue)));
    assert!(p.trampoline());
    assert!(matches!(p.step(), Ok(StepEffect::Continue)));
    assert!(!p.trampoline());
    assert_eq!(p.ip().col, 2);
    assert!(p.stack_values().is_empty());
    assert_eq!(p.tank_at(0, 0).cycle_state(), CycleInstruction::Subtract);
}

#[test]
fn test_trampoline_survives_noop() {
    // Row 0 reads 7, 0, 6, 0: the no-op between the tunnel and the cycle
    // does not consume the flag, so the cycle instruction is still skipped.
    let mut cells = vec![0; 20];
    cells[0] = 7;
    cells[2] = 6;
    let mut p = Program::build_aquarium(vec![tank("a", cells)]);
    p.step().unwrap();
    assert!(p.trampoline());
    p.step().unwrap();
    assert!(p.trampoline());
    p.step().unwrap();
    assert!(!p.trampoline());
    assert_eq!(p.tank_at(0, 0).cycle_state(), CycleInstruction::Subtract);
}

#[test]
fn test_tunnel_clears_on_positive_top() {
    let mut cells = vec![0; 20];
    cells[0] = 7;
    let mut p = Program::build_aquarium(vec![tank("a", cells)]);
    p.provide_input(Some(1));
    p.step().unwrap();
    assert!(!p.trampoline());
}

#[test]
fn test_cycle_rotation() {
    // Row 0 is all 6s; the pointer wraps within the row, so five steps
    // execute five cycle instructions on the same tank.
    let mut cells = vec![0; 20];
    for c in 0..4 {
        cells[c] = 6;
    }
    let mut p = Program::build_aquarium(vec![tank("a", cells)]);
    p.provide_input(Some(5));
    p.provide_input(Some(3));
    assert_eq!(*p.stack_values(), vec![5, 3]);

    p.step().unwrap(); // Subtract: [5, 3] -> [2]
    assert_eq!(*p.stack_values(), vec![2]);
    assert_eq!(p.tank_at(0, 0).cycle_state(), CycleInstruction::Swap);

    p.provide_input(Some(7));
    p.provide_input(Some(9));
    p.step().unwrap(); // Swap: [2, 7, 9] -> [2, 9, 7]
    assert_eq!(*p.stack_values(), vec![2, 9, 7]);
    assert_eq!(p.tank_at(0, 0).cycle_state(), CycleInstruction::Dup);

    p.step().unwrap(); // Dup: [2, 9, 7] -> [2, 9, 7, 7]
    assert_eq!(*p.stack_values(), vec![2, 9, 7, 7]);
    assert_eq!(p.tank_at(0, 0).cycle_state(), CycleInstruction::Drop);

    p.step().unwrap(); // Drop: [2, 9, 7, 7] -> [2, 9, 7]
    assert_eq!(*p.stack_values(), vec![2, 9, 7]);
    assert_eq!(p.tank_at(0, 0).cycle_state(), CycleInstruction::Subtract);

    p.step().unwrap(); // Subtract again: [2, 9, 7] -> [2, 2]
    assert_eq!(*p.stack_values(), vec![2, 2]);
}

#[test]
fn test_cycle_underflow_is_fatal() {
    let mut cells = vec![0; 20];
    cells[0] = 6;
    let mut p = Program::build_aquarium(vec![tank("a", cells)]);
    assert_eq!(p.step().unwrap_err(), ExecError::StackUnderflow);
    // the failed step left the machine untouched
    assert_eq!(p.ip().col, 0);
    assert_eq!(p.tank_at(0, 0).cycle_state(), CycleInstruction::Subtract);
}

#[test]
fn test_unsupported_builtin_is_fatal() {
    let mut cells = vec![0; 20];
    cells[0] = 9;
    let mut p = Program::build_aquarium(vec![tank("z", cells)]);
    assert_eq!(p.step().unwrap_err(), ExecError::UnsupportedBuiltin);
}

#[test]
fn test_output_pops_and_underflows_when_empty() {
    let mut cells = vec![0; 20];
    cells[0] = 9;
    let mut p = Program::build_aquarium(vec![tank("o", cells)]);
    assert_eq!(p.step().unwrap_err(), ExecError::StackUnderflow);
}

#[test]
fn test_push_acc_counts_up() {
    // Row 0 reads 5, 5, 5: each push takes the accumulator and increments it.
    let mut cells = vec![0; 20];
    cells[0] = 5;
    cells[1] = 5;
    cells[2] = 5;
    let mut p = Program::build_aquarium(vec![tank("a", cells)]);
    p.step().unwrap();
    p.step().unwrap();
    p.step().unwrap();
    assert_eq!(*p.stack_values(), vec![0, 1, 2]);
    assert_eq!(p.tank_at(0, 0).acc(), 3);
}

#[test]
fn test_hop_wraps_around_aquarium() {
    let mut p = Program::build_aquarium(vec![zero_tank("a"), zero_tank("b")]);
    assert_eq!(p.height(), 1);
    assert_eq!(p.width(), 2);
    p.hop();
    assert_eq!(p.ftp(), (0, 1));
    p.hop();
    assert_eq!(p.ftp(), (0, 0));
}

#[test]
fn test_direction_codes_steer_pointer() {
    // 1 turns the pointer down and advances it in the new direction.
    let mut cells = vec![0; 20];
    cells[0] = 1;
    let mut p = Program::build_aquarium(vec![tank("a", cells)]);
    p.step().unwrap();
    assert_eq!(p.ip_dir(), Direction::Down);
    assert_eq!(p.ip().row, 1);
    assert_eq!(p.ip().col, 0);
}

#[test]
fn test_io_round_trip() {
    // The program text "i o" yields a 1 x 2 aquarium; calling the builtin of
    // the i tank and then of the o tank round-trips one byte.
    let mut p = Program::new("i o").unwrap();
    assert_eq!(p.height(), 1);
    assert_eq!(p.width(), 2);
    assert_eq!(*p.tank_at(0, 0).name(), String::from("i"));
    assert_eq!(*p.tank_at(0, 1).name(), String::from("o"));

    assert!(matches!(p.call(), Ok(StepEffect::ReadInput)));
    p.provide_input(Some(42));
    assert_eq!(*p.stack_values(), vec![42]);

    assert_eq!(p.ip_dir(), Direction::Right);
    p.hop();
    assert_eq!(p.ftp(), (0, 1));

    match p.call() {
        Ok(StepEffect::Output(text)) => {
            assert_eq!(text, "\u{0}\u{0}\u{0}\u{0}\u{0}\u{0}\u{0}*");
            assert_eq!(text.bytes().last(), Some(42));
        }
        other => panic!("expected output, got {:?}", other.is_ok()),
    }
    assert!(p.stack_values().is_empty());
}

#[test]
fn test_input_end_of_stream() {
    let mut p = Program::build_aquarium(vec![zero_tank("i")]);
    p.provide_input(None);
    assert_eq!(*p.stack_values(), vec![-1]);
}

#[test]
fn test_output_of_negative_value_is_lossy() {
    // -1 is eight 0xff bytes; the lossy decoding replaces each of them, so
    // the output differs from the raw bytes read as characters.
    let mut cells = vec![0; 20];
    cells[0] = 9;
    let mut p = Program::build_aquarium(vec![tank("o", cells)]);
    p.provide_input(None);
    match p.call() {
        Ok(StepEffect::Output(text)) => {
            assert_eq!(text, "\u{fffd}".repeat(8));
        }
        _ => panic!("expected output"),
    }
}

#[test]
fn test_halt_effect() {
    let mut cells = vec![0; 20];
    cells[0] = 9;
    let mut p = Program::build_aquarium(vec![tank("e", cells)]);
    assert!(matches!(p.step(), Ok(StepEffect::Halt)));
    // the halting call does not move the pointer
    assert_eq!(p.ip().col, 0);
}

#[test]
fn test_random_direction_call() {
    let mut cells = vec![0; 20];
    cells[0] = 9;
    let mut p = Program::build_aquarium(vec![tank("y", cells)]);
    assert!(matches!(p.step(), Ok(StepEffect::Continue)));
    let d = p.ip_dir();
    assert!(
        d == Direction::Up || d == Direction::Down || d == Direction::Left
            || d == Direction::Right
    );
}
