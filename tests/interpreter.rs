use aneurysm::engine::DEFAULT_TAPE_LENGTH;
use aneurysm::instruction::decode;
use aneurysm::Instruction::{
    Accept, Advance, Backward, Decrement, Forward, Increment, Output, Retreat,
};
use aneurysm::{resolve, tokenize, Aneurysm, Effect, Instruction, RuntimeError, StructureError};

/// Runs a loaded machine to its end, feeding it `input` byte by byte, and
/// returns what it wrote.
fn drive(m: &mut Aneurysm, input: &[u8]) -> Result<Vec<u8>, RuntimeError> {
    let mut out = Vec::new();
    let mut rest = input.iter();
    loop {
        match m.step()? {
            Effect::Continue => {}
            Effect::Output(b) => out.push(b),
            Effect::AwaitInput => m.accept(rest.next().copied())?,
            Effect::Halted => return Ok(out),
        }
    }
}

fn run_source(source: &str, input: &[u8]) -> Result<Vec<u8>, RuntimeError> {
    let mut m = Aneurysm::load(source).expect("balanced program");
    drive(&mut m, input)
}

#[test]
fn decode_maps_each_symbol() {
    assert_eq!(decode('>'), Some(Instruction::Advance));
    assert_eq!(decode('<'), Some(Instruction::Retreat));
    assert_eq!(decode('+'), Some(Instruction::Increment));
    assert_eq!(decode('-'), Some(Instruction::Decrement));
    assert_eq!(decode('.'), Some(Instruction::Output));
    assert_eq!(decode(','), Some(Instruction::Accept));
    assert_eq!(decode('['), Some(Instruction::Forward));
    assert_eq!(decode(']'), Some(Instruction::Backward));
    assert_eq!(decode('a'), None);
    assert_eq!(decode('#'), None);
}

#[test]
fn tokenize_keeps_commands_in_order() {
    assert_eq!(
        tokenize("><+-.,[]"),
        vec![Advance, Retreat, Increment, Decrement, Output, Accept, Forward, Backward]
    );
}

#[test]
fn tokenize_empty_source() {
    assert!(tokenize("").is_empty());
}

#[test]
fn comment_line_lexes_to_nothing() {
    assert!(tokenize("# hello\n").is_empty());
}

#[test]
fn comment_line_runs_as_no_op() {
    let mut m = Aneurysm::load("# hello\n").unwrap();
    assert_eq!(m.step(), Ok(Effect::Halted));
    assert_eq!(drive(&mut m, &[]), Ok(vec![]));
}

#[test]
fn comment_skips_commands_up_to_newline() {
    assert_eq!(tokenize("  \t# add, then loop [+]\n+"), vec![Increment]);
    assert_eq!(tokenize("#a+\n#b-\n>"), vec![Advance]);
    assert_eq!(tokenize("-\n# no newline at the end +"), vec![Decrement]);
}

#[test]
fn hash_after_text_is_junk() {
    assert_eq!(tokenize("x # +\n"), vec![Increment]);
    assert_eq!(tokenize("+#-"), vec![Increment, Decrement]);
}

#[test]
fn junk_between_commands_is_ignored() {
    let plain = tokenize("++[>++<-]>.");
    assert_eq!(tokenize("+ +\n[ > hello + + < - ] world\r\n>\t."), plain);
    assert_eq!(tokenize("é+漢+[>++<-]>.ok"), plain);
}

#[test]
fn resolve_pairs_brackets() {
    let table = resolve(&tokenize("[[]+]")).unwrap();
    assert_eq!(table.len(), 5);
    assert_eq!(table.partner(0), Some(4));
    assert_eq!(table.partner(4), Some(0));
    assert_eq!(table.partner(1), Some(2));
    assert_eq!(table.partner(2), Some(1));
    assert_eq!(table.partner(3), None);
    assert_eq!(table.partner(5), None);
}

#[test]
fn resolve_table_is_symmetric() {
    let program = tokenize("+[>[-]<[[]>]]-[]");
    let table = resolve(&program).unwrap();
    for a in 0..program.len() {
        if let Some(b) = table.partner(a) {
            assert_eq!(table.partner(b), Some(a));
        }
    }
}

#[test]
fn unmatched_open_fails_structurally() {
    assert_eq!(resolve(&tokenize("[+")).err(), Some(StructureError::Imbalanced));
    assert!(matches!(Aneurysm::load("[+"), Err(StructureError::Imbalanced)));
}

#[test]
fn unmatched_close_fails_structurally() {
    assert_eq!(resolve(&tokenize("+]")).err(), Some(StructureError::Imbalanced));
    assert!(matches!(Aneurysm::load("+]"), Err(StructureError::Imbalanced)));
    assert!(matches!(Aneurysm::load("][ "), Err(StructureError::Imbalanced)));
}

#[test]
fn five_increments_output_five() {
    assert_eq!(run_source("+++++.\n", &[]), Ok(vec![5]));
}

#[test]
fn loop_doubles_into_second_cell() {
    let mut m = Aneurysm::load("++[>++<-]>.").unwrap();
    assert_eq!(drive(&mut m, &[]), Ok(vec![4]));
    assert_eq!(m.cell(0), Some(0));
    assert_eq!(m.cell(1), Some(4));
    assert_eq!(m.head(), 1);
    assert_eq!(m.pc(), 11);
}

#[test]
fn retreat_at_cell_zero_underflows() {
    let mut m = Aneurysm::load("+<").unwrap();
    assert_eq!(m.step(), Ok(Effect::Continue));
    assert_eq!(m.step(), Err(RuntimeError::PointerUnderflow));
    assert_eq!(m.pc(), 1);
    assert_eq!(m.head(), 0);
    assert_eq!(m.cell(0), Some(1));
}

#[test]
fn tape_growth_keeps_written_cells() {
    let mut source = String::from("+++");
    for _ in 0..100 {
        source.push_str(">+");
    }
    for _ in 0..DEFAULT_TAPE_LENGTH {
        source.push('>');
    }
    source.push_str("++");
    let mut m = Aneurysm::load(&source).unwrap();
    assert_eq!(m.tape_len(), DEFAULT_TAPE_LENGTH);
    assert_eq!(drive(&mut m, &[]), Ok(vec![]));
    assert_eq!(m.tape_len(), 2 * DEFAULT_TAPE_LENGTH);
    assert_eq!(m.head(), 100 + DEFAULT_TAPE_LENGTH);
    assert_eq!(m.cell(0), Some(3));
    for i in 1..=100 {
        assert_eq!(m.cell(i), Some(1));
    }
    assert_eq!(m.cell(101), Some(0));
    assert_eq!(m.cell(100 + DEFAULT_TAPE_LENGTH), Some(2));
    assert_eq!(m.cell(2 * DEFAULT_TAPE_LENGTH), None);
}

#[test]
fn tape_grows_at_its_last_cell() {
    let mut source = String::new();
    for _ in 0..DEFAULT_TAPE_LENGTH - 1 {
        source.push('>');
    }
    let mut m = Aneurysm::load(&source).unwrap();
    assert_eq!(drive(&mut m, &[]), Ok(vec![]));
    assert_eq!(m.tape_len(), DEFAULT_TAPE_LENGTH);
    let mut m = Aneurysm::load(&(source + ">")).unwrap();
    assert_eq!(drive(&mut m, &[]), Ok(vec![]));
    assert_eq!(m.tape_len(), 2 * DEFAULT_TAPE_LENGTH);
}

#[test]
fn cells_wrap_modulo_256() {
    assert_eq!(run_source("-.", &[]), Ok(vec![255]));
    let mut source = String::new();
    for _ in 0..257 {
        source.push('+');
    }
    source.push('.');
    assert_eq!(run_source(&source, &[]), Ok(vec![1]));
}

#[test]
fn accept_reads_one_byte_per_comma() {
    assert_eq!(run_source(",.,+.", &[65, 200]), Ok(vec![65, 201]));
}

#[test]
fn accept_waits_until_fed() {
    let mut m = Aneurysm::load(",").unwrap();
    assert!(m.awaiting_input());
    assert_eq!(m.step(), Ok(Effect::AwaitInput));
    assert_eq!(m.pc(), 0);
    assert_eq!(m.accept(Some(7)), Ok(()));
    assert!(!m.awaiting_input());
    assert_eq!(m.cell(0), Some(7));
    assert_eq!(m.step(), Ok(Effect::Halted));
}

#[test]
fn input_exhausted_fails_the_run() {
    assert_eq!(run_source(",.", &[]), Err(RuntimeError::InputExhausted));
    assert_eq!(run_source(",,", &[1]), Err(RuntimeError::InputExhausted));
}

#[test]
fn forward_on_zero_skips_loop_body() {
    assert_eq!(run_source("[.+]+.", &[]), Ok(vec![1]));
}

#[test]
fn nested_loops_compute_product() {
    // 3 * 4 into cell 1, then printed
    assert_eq!(run_source("+++[>++++<-]>.", &[]), Ok(vec![12]));
    assert_eq!(run_source("++[>++[>+++<-]<-]>>.", &[]), Ok(vec![12]));
}

#[test]
fn hello_world() {
    let source = "++++++++[>++++[>++>+++>+++>+<<<<-]>+>+>->>+[<]<-]>>.>---.+++++++..+++.>>.<-.<.+++.------.--------.>>+.>++.";
    assert_eq!(run_source(source, &[]), Ok(b"Hello World!\n".to_vec()));
}
