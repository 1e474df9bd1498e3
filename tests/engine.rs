use brainfck::{Effect, Instruction, Lexer, Memory, Program, TAPE_LEN};

/// Steps `p` until it halts, handing out `input` bytes on demand; returns the
/// emitted bytes and the other effects seen.
fn run_all(p: &mut Program, input: &[u8], max_steps: usize) -> (Vec<u8>, Vec<Effect>) {
    let mut out = Vec::new();
    let mut effects = Vec::new();
    let mut next_input = 0usize;
    let mut pending: Option<u8> = None;
    for _ in 0..max_steps {
        match p.step(pending.take()) {
            Effect::Halted => return (out, effects),
            Effect::Output(b) => out.push(b),
            Effect::NeedsInput => {
                pending = Some(input[next_input]);
                next_input += 1;
            }
            e => effects.push(e),
        }
    }
    panic!("program did not halt within {} steps", max_steps);
}

#[test]
fn transfer_loop_adds_into_cell_zero() {
    let mut p = Program::from_string("++>+++[<+>-]<".to_string());
    run_all(&mut p, &[], 1000);
    assert_eq!(p.read_memory(0), 5);
    assert_eq!(p.read_memory(1), 0);
    assert_eq!(p.data_pointer(), 0);
}

#[test]
fn move_below_zero_is_noop() {
    let mut m = Memory::new();
    m.dp_move(-1);
    assert_eq!(m.data_pointer(), 0);
    m.dp_move(-1);
    assert_eq!(m.data_pointer(), 0);
    m.dp_move(isize::MIN);
    assert_eq!(m.data_pointer(), 0);
    m.dp_move(5);
    m.dp_move(-6);
    assert_eq!(m.data_pointer(), 5);
}

#[test]
fn move_at_or_beyond_end_is_noop() {
    let mut m = Memory::new();
    m.dp_move(30000);
    assert_eq!(m.data_pointer(), 0);
    m.dp_move(29999);
    assert_eq!(m.data_pointer(), 29999);
    m.dp_move(1);
    assert_eq!(m.data_pointer(), 29999);
    m.dp_move(1);
    assert_eq!(m.data_pointer(), 29999);
    m.dp_move(isize::MAX);
    assert_eq!(m.data_pointer(), 29999);
    m.dp_move(-29999);
    assert_eq!(m.data_pointer(), 0);
}

#[test]
fn program_pointer_stays_on_tape() {
    let mut p = Program::from_string("<<<+".to_string());
    run_all(&mut p, &[], 100);
    assert_eq!(p.data_pointer(), 0);
    assert_eq!(p.read_memory(0), 1);
}

#[test]
fn increment_saturates_at_255() {
    let mut m = Memory::new();
    for _ in 0..255 {
        assert!(m.increment_byte());
    }
    assert_eq!(m.get_byte(), 255);
    assert!(!m.increment_byte());
    assert_eq!(m.get_byte(), 255);
}

#[test]
fn decrement_saturates_at_zero() {
    let mut m = Memory::new();
    assert!(!m.decrement_byte());
    assert_eq!(m.get_byte(), 0);
    m.set_byte(200);
    assert!(m.decrement_byte());
    assert_eq!(m.get_byte(), 199);
}

#[test]
fn saturation_is_reported_by_cell() {
    let mut p = Program::from_string(">-".to_string());
    let (_, effects) = run_all(&mut p, &[], 10);
    assert_eq!(effects, vec![Effect::Ran, Effect::Underflow(1)]);
    assert_eq!(p.read_memory(1), 0);
    let src: String = std::iter::repeat('+').take(256).collect();
    let mut q = Program::from_string(src);
    let (_, effects) = run_all(&mut q, &[], 1000);
    assert_eq!(effects.last(), Some(&Effect::Overflow(0)));
    assert_eq!(q.read_memory(0), 255);
}

#[test]
fn comment_only_source_loads_empty_and_halts() {
    let mut p = Program::from_string("hello world, no code here!".replace(',', " ").replace('.', " "));
    assert_eq!(p.instruction_count(), 0);
    assert_eq!(p.step(None), Effect::Halted);
    assert_eq!(p.step(Some(7)), Effect::Halted);
    assert_eq!(p.instruction_pointer(), 0);
    assert_eq!(p.data_pointer(), 0);
    for i in [0usize, 1, 100, TAPE_LEN - 1] {
        assert_eq!(p.read_memory(i), 0);
    }
}

#[test]
fn empty_source_halts() {
    let mut p = Program::from_string(String::new());
    assert_eq!(p.instruction_count(), 0);
    assert_eq!(p.step(None), Effect::Halted);
}

#[test]
fn output_count_matches_dots() {
    let src = "+.+.>.. text +++.-.";
    let dots = src.chars().filter(|&c| c == '.').count();
    let mut p = Program::from_string(src.to_string());
    let (out, _) = run_all(&mut p, &[], 1000);
    assert_eq!(out.len(), dots);
    assert_eq!(out, vec![1, 2, 0, 0, 3, 2]);
}

#[test]
fn output_emits_raw_byte() {
    let src: String = std::iter::repeat('+').take(65).chain(".".chars()).collect();
    let mut p = Program::from_string(src);
    let (out, _) = run_all(&mut p, &[], 1000);
    assert_eq!(out, b"A".to_vec());
}

#[test]
fn input_waits_for_a_byte() {
    let mut p = Program::from_string(",.".to_string());
    assert_eq!(p.step(None), Effect::NeedsInput);
    assert_eq!(p.instruction_pointer(), 0);
    assert_eq!(p.step(Some(42)), Effect::Ran);
    assert_eq!(p.read_memory(0), 42);
    assert_eq!(p.step(None), Effect::Output(42));
    assert_eq!(p.step(None), Effect::Halted);
}

#[test]
fn echo_with_input_bytes() {
    let mut p = Program::from_string(",>,<.>.".to_string());
    let (out, _) = run_all(&mut p, &[7, 9], 100);
    assert_eq!(out, vec![7, 9]);
}

#[test]
fn zero_cell_skips_loop_ending_at_last_instruction() {
    let mut p = Program::from_string("[+]".to_string());
    run_all(&mut p, &[], 100);
    assert_eq!(p.read_memory(0), 0);
    assert_eq!(p.instruction_pointer(), 3);
}

#[test]
fn unmatched_brackets_fall_through() {
    let mut p = Program::from_string("[+".to_string());
    run_all(&mut p, &[], 100);
    assert_eq!(p.read_memory(0), 1);
    let mut q = Program::from_string("+]+".to_string());
    run_all(&mut q, &[], 100);
    assert_eq!(q.read_memory(0), 2);
}

#[test]
fn nested_loop_jumps_to_nearest_bracket() {
    // At the outer `[` with a zero cell the scan stops at the inner `]`,
    // so the tail of the outer body still runs.
    let mut p = Program::from_string("[[+]+>]".to_string());
    run_all(&mut p, &[], 100);
    assert_eq!(p.read_memory(0), 1);
    assert_eq!(p.data_pointer(), 1);
}

#[test]
fn lexer_yields_one_token_per_char() {
    let mut lx = Lexer::new("a>[]");
    assert_eq!(lx.next(), Some(Instruction::Discard));
    assert_eq!(lx.next(), Some(Instruction::MoveRight));
    assert_eq!(lx.next(), Some(Instruction::JumpIfZero));
    assert_eq!(lx.next(), Some(Instruction::JumpIfNonZero));
    assert_eq!(lx.next(), None);
    assert_eq!(lx.next(), None);
}

#[test]
fn every_instruction_char_maps() {
    let pairs = [
        ('>', Instruction::MoveRight),
        ('<', Instruction::MoveLeft),
        ('+', Instruction::Increment),
        ('-', Instruction::Decrement),
        ('.', Instruction::Output),
        (',', Instruction::Input),
        ('[', Instruction::JumpIfZero),
        (']', Instruction::JumpIfNonZero),
        ('x', Instruction::Discard),
        ('é', Instruction::Discard),
    ];
    for (c, i) in pairs {
        assert_eq!(Instruction::from_char(c), i);
    }
}

#[test]
fn loader_drops_non_instructions_and_keeps_order() {
    let mut p = Program::from_string("a+b.c".to_string());
    assert_eq!(p.instruction_count(), 2);
    assert_eq!(p.step(None), Effect::Ran);
    assert_eq!(p.step(None), Effect::Output(1));
    assert_eq!(p.step(None), Effect::Halted);
}

#[test]
fn unicode_text_is_tokenized_by_char() {
    let mut p = Program::from_string("ü+ß+€.".to_string());
    assert_eq!(p.instruction_count(), 3);
    let (out, _) = run_all(&mut p, &[], 10);
    assert_eq!(out, vec![2]);
}

#[test]
fn arbitrary_read_sees_any_cell() {
    let mut m = Memory::new();
    m.dp_move(7);
    m.set_byte(9);
    m.dp_move(-7);
    assert_eq!(m.arbitrary_read(7), 9);
    assert_eq!(m.arbitrary_read(0), 0);
    assert_eq!(m.get_byte(), 0);
}
