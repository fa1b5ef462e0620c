use vstd::prelude::*;

verus! {

/// One command of the language; each corresponds to one source symbol.
#[derive(Clone, Copy, Debug, PartialEq, Eq, Structural)]
pub enum Instruction {
    /// `>`: move the data pointer right.
    Advance,
    /// `<`: move the data pointer left.
    Retreat,
    /// `+`: add one to the current cell.
    Increment,
    /// `-`: subtract one from the current cell.
    Decrement,
    /// `.`: emit the current cell as a byte.
    Output,
    /// `,`: read one byte into the current cell.
    Accept,
    /// `[`: loop open.
    Forward,
    /// `]`: loop close.
    Backward,
}

/// Whether `c` is one of the eight command symbols.
pub open spec fn is_command_char(c: char) -> bool {
    c == '>' || c == '<' || c == '+' || c == '-' || c == '.' || c == ',' || c == '['
        || c == ']'
}

/// The instruction that a command symbol stands for.
pub open spec fn command_of(c: char) -> Instruction
    recommends
        is_command_char(c),
{
    if c == '>' {
        Instruction::Advance
    } else if c == '<' {
        Instruction::Retreat
    } else if c == '+' {
        Instruction::Increment
    } else if c == '-' {
        Instruction::Decrement
    } else if c == '.' {
        Instruction::Output
    } else if c == ',' {
        Instruction::Accept
    } else if c == '[' {
        Instruction::Forward
    } else {
        Instruction::Backward
    }
}

/// The instruction for `c`, or `None` where `c` is not a command symbol.
pub fn decode(c: char) -> (r: Option<Instruction>)
    ensures
        r == (if is_command_char(c) {
            Some(command_of(c))
        } else {
            None
        }),
{
    match c {
        '>' => Some(Instruction::Advance),
        '<' => Some(Instruction::Retreat),
        '+' => Some(Instruction::Increment),
        '-' => Some(Instruction::Decrement),
        '.' => Some(Instruction::Output),
        ',' => Some(Instruction::Accept),
        '[' => Some(Instruction::Forward),
        ']' => Some(Instruction::Backward),
        _ => None,
    }
}

} // verus!
