use bf_interp::{
    is_runnable, link_loops, optimize, parse, Ast, CellSize, Event, Machine, Token, TokenType,
};

fn build(src: &str, do_optimize: bool) -> Ast {
    let mut ast = parse(&src.to_string()).unwrap();
    if do_optimize {
        optimize(&mut ast);
    }
    link_loops(&mut ast).unwrap();
    ast
}

fn run<T: CellSize>(
    ast: &Ast,
    tape_size: usize,
    input: &[u8],
) -> (Result<(), &'static str>, Vec<u8>, Machine<T>) {
    assert!(is_runnable(ast));
    let mut m = Machine::<T>::new(tape_size).unwrap();
    let mut out = Vec::new();
    let mut rest = input.iter();
    loop {
        match m.step(ast) {
            Ok(Event::Continue) => {},
            Ok(Event::Output(b)) => out.push(b),
            Ok(Event::NeedInput) => m.feed_input(ast, rest.next().copied()),
            Ok(Event::Halt) => return (Ok(()), out, m),
            Err(e) => return (Err(e), out, m),
        }
    }
}

#[test]
fn prints_three() {
    let (r, out, _) = run::<u8>(&build("+++.", true), 30000, &[]);
    assert_eq!(r, Ok(()));
    assert_eq!(out, vec![3]);
}

#[test]
fn eight_times_eight() {
    for opt in [true, false] {
        let (r, out, _) = run::<u8>(&build("++++++++[>++++++++<-]>.", opt), 30000, &[]);
        assert_eq!(r, Ok(()));
        assert_eq!(out, vec![64]);
    }
}

#[test]
fn clear_loop_becomes_set_and_zeroes() {
    let ast = build("[-]", true);
    assert_eq!(ast.len(), 2);
    assert_eq!(ast[0].tk, TokenType::SetCell);
    assert_eq!(ast[0].value, 0);
    let mut m = Machine::<u8>::new(30000).unwrap();
    m.cells[0] = 5;
    let mut out = Vec::new();
    loop {
        match m.step(&ast).unwrap() {
            Event::Halt => break,
            Event::Output(b) => out.push(b),
            _ => {},
        }
    }
    assert_eq!(m.cells[0], 0);
    assert!(out.is_empty());
}

#[test]
fn decrement_last_loop_runs_as_loop() {
    let ast = build("++[>+<-]>.", true);
    assert!(ast.iter().all(|t| t.tk != TokenType::Move));
    assert!(ast.iter().any(|t| t.tk == TokenType::LoopStart));
    let (r, out, m) = run::<u8>(&ast, 30000, &[]);
    assert_eq!(r, Ok(()));
    assert_eq!(out, vec![2]);
    assert_eq!(m.cells[0], 0);
}

#[test]
fn move_adds_into_destination() {
    let ast = build("+++>++<[->+<]>.", true);
    assert!(ast.iter().any(|t| t.tk == TokenType::Move && t.value == 1));
    let (r, out, m) = run::<u8>(&ast, 30000, &[]);
    assert_eq!(r, Ok(()));
    assert_eq!(out, vec![5]);
    assert_eq!(m.cells[0], 0);
}

#[test]
fn move_wraps_around() {
    let ast = build("-->+<[->+<]>.", true);
    let (r, out, _) = run::<u8>(&ast, 30000, &[]);
    assert_eq!(r, Ok(()));
    assert_eq!(out, vec![255]);
}

#[test]
fn move_on_zero_cell_does_nothing() {
    let ast = build("[-<+>]", true);
    assert_eq!(ast[0].tk, TokenType::Move);
    let (r, _, _) = run::<u8>(&ast, 30000, &[]);
    assert_eq!(r, Ok(()));
}

#[test]
fn move_past_left_edge_fails() {
    let ast = build("+[-<+>]", true);
    let (r, _, _) = run::<u8>(&ast, 30000, &[]);
    assert_eq!(r, Err("Data pointer moved out of bounds (too far left)"));
}

#[test]
fn move_past_tape_end_fails() {
    let ast = build("+[->>+<<]", true);
    let (r, _, _) = run::<u8>(&ast, 2, &[]);
    assert_eq!(r, Err("Data pointer moved out of bounds (too far right)"));
}

#[test]
fn add_wraps_at_each_width() {
    let mut a: u8 = 255;
    a.add_to_cell(1);
    assert_eq!(a, 0);
    let mut b: u16 = u16::MAX;
    b.add_to_cell(1);
    assert_eq!(b, 0);
    let mut c: u32 = u32::MAX;
    c.add_to_cell(1);
    assert_eq!(c, 0);
    let mut d: u64 = u64::MAX;
    d.add_to_cell(1);
    assert_eq!(d, 0);
}

#[test]
fn sub_wraps_at_each_width() {
    let mut a: u8 = 0;
    a.sub_from_cell(1);
    assert_eq!(a, 255);
    let mut b: u16 = 0;
    b.sub_from_cell(1);
    assert_eq!(b, u16::MAX);
    let mut c: u32 = 0;
    c.sub_from_cell(1);
    assert_eq!(c, u32::MAX);
    let mut d: u64 = 0;
    d.sub_from_cell(1);
    assert_eq!(d, u64::MAX);
}

#[test]
fn program_wraps_cells() {
    let (_, out, _) = run::<u8>(&build("-.", true), 10, &[]);
    assert_eq!(out, vec![255]);
    let (_, _, m) = run::<u16>(&build("-", true), 10, &[]);
    assert_eq!(m.cells[0], u16::MAX);
    let (_, out, m) = run::<u32>(&build("-.", true), 10, &[]);
    assert_eq!(m.cells[0], u32::MAX);
    assert_eq!(out, vec![255]);
    let (_, _, m) = run::<u64>(&build("-", true), 10, &[]);
    assert_eq!(m.cells[0], u64::MAX);
}

#[test]
fn payload_converts_modulo_width() {
    assert_eq!(u8::from_tk_value(-1), 255);
    assert_eq!(u8::from_tk_value(300), 44);
    assert_eq!(u16::from_tk_value(-2), 65534);
    assert_eq!(u16::from_tk_value(70000), 4464);
    assert_eq!(u32::from_tk_value(-1), u32::MAX);
    assert_eq!(u64::from_tk_value(-1), u64::MAX);
    assert_eq!(u64::from_tk_value(i32::MIN), u64::MAX - (1u64 << 31) + 1);
}

#[test]
fn output_takes_low_byte() {
    assert_eq!(0x1234u16.to_stdin(), 0x34);
    assert_eq!(0x1_0000_00ffu64.to_stdin(), 0xff);
    assert_eq!(0x1ffu32.to_stdin(), 0xff);
    assert_eq!(u16::from_stdout(200), 200);
}

#[test]
fn zero_tests() {
    assert!(0u8.is_zero());
    assert!(!0u8.is_nonzero());
    assert!(7u32.is_nonzero());
    assert!(!7u64.is_zero());
    assert_eq!(u16::get_zeroes(3), vec![0, 0, 0]);
}

#[test]
fn right_fails_at_tape_size() {
    let ast = build(">>>", true);
    let (r, _, m) = run::<u8>(&ast, 3, &[]);
    assert_eq!(r, Err("Data pointer moved out of bounds (too far right)"));
    assert_eq!(m.data_pointer, 0);
    let (r, _, m) = run::<u8>(&ast, 4, &[]);
    assert_eq!(r, Ok(()));
    assert_eq!(m.data_pointer, 3);
}

#[test]
fn left_fails_below_zero() {
    let (r, _, _) = run::<u8>(&build(">><<<", true), 10, &[]);
    assert_eq!(r, Err("Data pointer moved out of bounds (too far left)"));
    let (r, _, m) = run::<u8>(&build(">><<", true), 10, &[]);
    assert_eq!(r, Ok(()));
    assert_eq!(m.data_pointer, 0);
}

#[test]
fn tape_grows_with_zero_cells() {
    let src = ">".repeat(1500) + ".+.";
    let ast = build(&src, true);
    assert_eq!(ast[0].tk, TokenType::Right);
    assert_eq!(ast[0].value, 1500);
    let (r, out, m) = run::<u8>(&ast, 5000, &[]);
    assert_eq!(r, Ok(()));
    assert_eq!(out, vec![0, 1]);
    assert_eq!(m.data_pointer, 1500);
    assert_eq!(m.cells.len(), 2500);
    assert!(m.cells[1000..].iter().enumerate().all(|(i, c)| *c == 0 || i == 500));
}

#[test]
fn tape_growth_stops_at_tape_size() {
    let ast = build(&">".repeat(1200), true);
    let (r, _, m) = run::<u32>(&ast, 1201, &[]);
    assert_eq!(r, Ok(()));
    assert_eq!(m.cells.len(), 1201);
}

#[test]
fn tape_end_is_reachable() {
    let ast = build(&(">".repeat(1000) + "+."), true);
    let (r, out, _) = run::<u8>(&ast, 30000, &[]);
    assert_eq!(r, Ok(()));
    assert_eq!(out, vec![1]);
}

#[test]
fn zero_tape_size_is_refused() {
    assert!(matches!(Machine::<u8>::new(0), Err("Tape size must be greater than 0")));
    assert!(Machine::<u64>::new(1).is_ok());
}

#[test]
fn input_is_read_and_eof_is_zero() {
    let ast = build(",+.,.", true);
    let (r, out, _) = run::<u8>(&ast, 10, &[41]);
    assert_eq!(r, Ok(()));
    assert_eq!(out, vec![42, 0]);
    let (_, out, _) = run::<u16>(&build(",.", true), 10, &[255]);
    assert_eq!(out, vec![255]);
}

#[test]
fn input_waits_for_a_byte() {
    let ast = build(",", true);
    let mut m = Machine::<u8>::new(10).unwrap();
    assert_eq!(m.step(&ast), Ok(Event::NeedInput));
    assert_eq!(m.instruction_pointer, 0);
    m.feed_input(&ast, Some(9));
    assert_eq!(m.cells[0], 9);
    assert_eq!(m.step(&ast), Ok(Event::Halt));
}

#[test]
fn set_cell_reduces_payload() {
    let ast: Ast = vec![Token::new(TokenType::SetCell, 257), Token::new(TokenType::Out, 0), Token::new(TokenType::End, 0)];
    let (r, out, _) = run::<u8>(&ast, 10, &[]);
    assert_eq!(r, Ok(()));
    assert_eq!(out, vec![1]);
}

#[test]
fn runnable_rejects_bad_sequences() {
    assert!(!is_runnable(&vec![]));
    assert!(!is_runnable(&vec![Token::new(TokenType::Add, 1)]));
    assert!(!is_runnable(&vec![Token::new(TokenType::LoopStart, -1), Token::new(TokenType::End, 0)]));
    assert!(!is_runnable(&vec![Token::new(TokenType::Left, -3), Token::new(TokenType::End, 0)]));
    assert!(is_runnable(&build("[.]", true)));
}

#[test]
fn hello_world_runs() {
    let src = "++++++++[>++++[>++>+++>+++>+<<<<-]>+>+>->>+[<]<-]>>.>---.+++++++..+++.>>.<-.<.+++.------.--------.>>+.>++.";
    for opt in [true, false] {
        let (r, out, _) = run::<u8>(&build(src, opt), 30000, &[]);
        assert_eq!(r, Ok(()));
        assert_eq!(String::from_utf8(out).unwrap(), "Hello World!\n");
    }
}
