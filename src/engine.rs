use vstd::prelude::*;

use crate::instruction::Instruction;
use crate::lexer::{lex, tokenize};
use crate::resolver::{is_jump_table, resolve, JumpTable, StructureError};

verus! {

/// The number of zeroed cells a fresh tape holds.
pub const DEFAULT_TAPE_LENGTH: usize = 30000;

/// A failure while running a program.
#[derive(Clone, Copy, Debug, PartialEq, Eq, Structural)]
pub enum RuntimeError {
    /// The input ended while a `,` was waiting for a byte.
    InputExhausted,
    /// A `<` would move the data pointer left of cell 0.
    PointerUnderflow,
    /// A `>` needed the tape to grow beyond what memory can address.
    TapeExhausted,
}

/// What the host has to do after one step of the machine.
#[derive(Clone, Copy, Debug, PartialEq, Eq, Structural)]
pub enum Effect {
    /// Nothing: the next step may follow.
    Continue,
    /// Write this byte to the output.
    Output(u8),
    /// The current instruction is `,`: prompt, read one byte and hand it to
    /// `accept`.
    AwaitInput,
    /// The program counter has passed the last instruction.
    Halted,
}

/// The machine as a mathematical value. Cells are bytes and wrap around
/// modulo 256 on `+` and `-`.
pub struct MachineState {
    pub program: Seq<Instruction>,
    pub table: Seq<Option<usize>>,
    pub tape: Seq<u8>,
    pub head: int,
    pub pc: int,
}

impl MachineState {
    pub open spec fn wf(self) -> bool {
        &&& is_jump_table(self.program, self.table)
        &&& 0 < self.tape.len() <= isize::MAX
        &&& 0 <= self.head < self.tape.len()
        &&& 0 <= self.pc <= self.program.len()
    }

    /// The same machine with the program counter one further.
    pub open spec fn next(self) -> MachineState {
        MachineState { pc: self.pc + 1, ..self }
    }

    pub open spec fn cell(self) -> u8 {
        self.tape[self.head]
    }

    /// The same machine with the current cell set to `v`, and the program
    /// counter one further.
    pub open spec fn store(self, v: u8) -> MachineState {
        MachineState { tape: self.tape.update(self.head, v), pc: self.pc + 1, ..self }
    }
}

/// `v + 1` modulo 256.
pub open spec fn wrap_inc(v: u8) -> u8 {
    if v == 255 {
        0
    } else {
        (v + 1) as u8
    }
}

/// `v - 1` modulo 256.
pub open spec fn wrap_dec(v: u8) -> u8 {
    if v == 0 {
        255
    } else {
        (v - 1) as u8
    }
}

/// The tape `t` doubled in length, the new half zeroed.
pub open spec fn doubled(t: Seq<u8>) -> Seq<u8> {
    t + Seq::new(t.len(), |i: int| 0u8)
}

/// The machine a program starts in: all cells zero, both indices at 0.
pub open spec fn initial(program: Seq<Instruction>, table: Seq<Option<usize>>) -> MachineState {
    MachineState {
        program,
        table,
        tape: Seq::new(DEFAULT_TAPE_LENGTH as nat, |i: int| 0u8),
        head: 0,
        pc: 0,
    }
}

/// One step of the machine: the effect for the host and the next state.
/// A `,` is not executed here; the machine waits for `accept_spec`.
pub open spec fn step_spec(m: MachineState) -> (Result<Effect, RuntimeError>, MachineState) {
    if m.pc >= m.program.len() {
        (Ok(Effect::Halted), m)
    } else {
        match m.program[m.pc] {
            Instruction::Advance => if m.head + 1 < m.tape.len() {
                (Ok(Effect::Continue), MachineState { head: m.head + 1, ..m.next() })
            } else if 2 * m.tape.len() <= isize::MAX {
                (
                    Ok(Effect::Continue),
                    MachineState { tape: doubled(m.tape), head: m.head + 1, ..m.next() },
                )
            } else {
                (Err(RuntimeError::TapeExhausted), m)
            },
            Instruction::Retreat => if m.head == 0 {
                (Err(RuntimeError::PointerUnderflow), m)
            } else {
                (Ok(Effect::Continue), MachineState { head: m.head - 1, ..m.next() })
            },
            Instruction::Increment => (Ok(Effect::Continue), m.store(wrap_inc(m.cell()))),
            Instruction::Decrement => (Ok(Effect::Continue), m.store(wrap_dec(m.cell()))),
            Instruction::Output => (Ok(Effect::Output(m.cell())), m.next()),
            Instruction::Accept => (Ok(Effect::AwaitInput), m),
            Instruction::Forward => if m.cell() == 0 {
                (Ok(Effect::Continue), MachineState { pc: m.table[m.pc]->0 as int, ..m })
            } else {
                (Ok(Effect::Continue), m.next())
            },
            Instruction::Backward => if m.cell() != 0 {
                (Ok(Effect::Continue), MachineState { pc: m.table[m.pc]->0 as int, ..m })
            } else {
                (Ok(Effect::Continue), m.next())
            },
        }
    }
}

/// Completes a waiting `,` with the byte read, or fails where the input
/// has ended.
pub open spec fn accept_spec(m: MachineState, byte: Option<u8>) -> (
    Result<(), RuntimeError>,
    MachineState,
) {
    match byte {
        Some(b) => (Ok(()), m.store(b)),
        None => (Err(RuntimeError::InputExhausted), m),
    }
}

/// The state after at most `n` steps; it stops early where a step fails,
/// halts or waits for input.
pub open spec fn run_steps(m: MachineState, n: nat) -> MachineState
    decreases n,
{
    if n == 0 {
        m
    } else {
        match step_spec(m).0 {
            Ok(Effect::Continue) => run_steps(step_spec(m).1, (n - 1) as nat),
            Ok(Effect::Output(_)) => run_steps(step_spec(m).1, (n - 1) as nat),
            _ => m,
        }
    }
}

/// Every step keeps the machine well formed.
pub proof fn lemma_step_wf(m: MachineState)
    requires
        m.wf(),
    ensures
        step_spec(m).1.wf(),
{
}

/// A `<` on cell 0 fails with `PointerUnderflow` and changes nothing.
pub proof fn lemma_retreat_at_zero(m: MachineState)
    requires
        m.wf(),
        m.pc < m.program.len(),
        m.program[m.pc] == Instruction::Retreat,
        m.head == 0,
    ensures
        step_spec(m) == (Err::<Effect, RuntimeError>(RuntimeError::PointerUnderflow), m),
{
}

/// A run of `>` instructions keeps every cell at its index with its value,
/// however often the tape doubles on the way.
pub proof fn lemma_advances_keep_tape(m: MachineState, n: nat)
    requires
        m.wf(),
        forall|k: int|
            0 <= k < n ==> m.pc + k < m.program.len() && #[trigger] m.program[m.pc + k]
                == Instruction::Advance,
    ensures
        run_steps(m, n).tape.len() >= m.tape.len(),
        run_steps(m, n).tape.subrange(0, m.tape.len() as int) == m.tape,
    decreases n,
{
    if n == 0 {
        assert(m.tape.subrange(0, m.tape.len() as int) =~= m.tape);
    } else {
        assert(m.program[m.pc + 0] == Instruction::Advance);
        let m1 = step_spec(m).1;
        lemma_step_wf(m);
        if step_spec(m).0 is Ok {
            assert forall|k: int| 0 <= k < n - 1 implies m1.pc + k < m1.program.len()
                && #[trigger] m1.program[m1.pc + k] == Instruction::Advance by {
                assert(m.program[m.pc + (k + 1)] == Instruction::Advance);
            }
            lemma_advances_keep_tape(m1, (n - 1) as nat);
            assert(m1.tape.subrange(0, m.tape.len() as int) =~= m.tape);
            assert(run_steps(m1, (n - 1) as nat).tape.subrange(0, m.tape.len() as int)
                =~= run_steps(m1, (n - 1) as nat).tape.subrange(0, m1.tape.len() as int).subrange(
                0,
                m.tape.len() as int,
            ));
        } else {
            assert(m.tape.subrange(0, m.tape.len() as int) =~= m.tape);
        }
    }
}

/// An interpreter loaded with one program: the instructions, their jump
/// table, the tape, the data pointer and the program counter.
pub struct Aneurysm {
    program: Vec<Instruction>,
    table: JumpTable,
    tape: Vec<u8>,
    head: usize,
    pc: usize,
}

/// Appends as many zero cells as the tape holds.
fn grow(tape: &mut Vec<u8>)
    ensures
        final(tape)@ == doubled(old(tape)@),
{
    let len = tape.len();
    let mut k: usize = 0;
    while k < len
        invariant
            k <= len == old(tape)@.len(),
            tape@.len() == len + k,
            tape@.subrange(0, len as int) == old(tape)@,
            forall|j: int| len <= j < len + k ==> tape@[j] == 0u8,
        decreases len - k,
    {
        tape.push(0);
        assert(tape@.subrange(0, len as int) =~= old(tape)@);
        k = k + 1;
    }
    assert(tape@ =~= doubled(old(tape)@));
}

impl View for Aneurysm {
    type V = MachineState;

    closed spec fn view(&self) -> MachineState {
        MachineState {
            program: self.program@,
            table: self.table@,
            tape: self.tape@,
            head: self.head as int,
            pc: self.pc as int,
        }
    }
}

impl Aneurysm {
    pub open spec fn wf(&self) -> bool {
        self@.wf()
    }

    /// Loads a program, pairing its brackets; fails where they do not nest.
    pub fn new(program: Vec<Instruction>) -> (r: Result<Aneurysm, StructureError>)
        ensures
            r is Ok <==> crate::resolver::balanced(program@),
            r matches Ok(a) ==> a.wf() && a@ == initial(program@, a@.table),
    {
        let table = match resolve(&program) {
            Ok(t) => t,
            Err(e) => {
                return Err(e);
            },
        };
        let mut tape: Vec<u8> = Vec::new();
        let mut k: usize = 0;
        while k < DEFAULT_TAPE_LENGTH
            invariant
                k <= DEFAULT_TAPE_LENGTH,
                tape@.len() == k,
                forall|j: int| 0 <= j < k ==> tape@[j] == 0u8,
            decreases DEFAULT_TAPE_LENGTH - k,
        {
            tape.push(0);
            k = k + 1;
        }
        let a = Aneurysm { program, table, tape, head: 0, pc: 0 };
        assert(a@.tape =~= Seq::new(DEFAULT_TAPE_LENGTH as nat, |i: int| 0u8));
        Ok(a)
    }

    /// Lexes and loads source text; fails where its brackets do not nest,
    /// before any instruction runs.
    pub fn load(source: &str) -> (r: Result<Aneurysm, StructureError>)
        ensures
            r is Ok <==> crate::resolver::balanced(lex(source@)),
            r matches Ok(a) ==> a.wf() && a@ == initial(lex(source@), a@.table),
    {
        Aneurysm::new(tokenize(source))
    }

    /// Runs the instruction at the program counter. A `,` is not run here:
    /// the machine reports `AwaitInput` and stays until `accept` is called.
    pub fn step(&mut self) -> (r: Result<Effect, RuntimeError>)
        requires
            old(self).wf(),
        ensures
            final(self).wf(),
            (r, final(self)@) == step_spec(old(self)@),
    {
        if self.pc >= self.program.len() {
            return Ok(Effect::Halted);
        }
        match self.program[self.pc] {
            Instruction::Advance => {
                if self.head + 1 >= self.tape.len() {
                    if self.tape.len() > (isize::MAX as usize) / 2 {
                        return Err(RuntimeError::TapeExhausted);
                    }
                    grow(&mut self.tape);
                }
                self.head = self.head + 1;
                self.pc = self.pc + 1;
            },
            Instruction::Retreat => {
                if self.head == 0 {
                    return Err(RuntimeError::PointerUnderflow);
                }
                self.head = self.head - 1;
                self.pc = self.pc + 1;
            },
            Instruction::Increment => {
                let v = self.tape[self.head];
                let w = if v == 255 {
                    0
                } else {
                    v + 1
                };
                self.tape.set(self.head, w);
                self.pc = self.pc + 1;
            },
            Instruction::Decrement => {
                let v = self.tape[self.head];
                let w = if v == 0 {
                    255
                } else {
                    v - 1
                };
                self.tape.set(self.head, w);
                self.pc = self.pc + 1;
            },
            Instruction::Output => {
                let v = self.tape[self.head];
                self.pc = self.pc + 1;
                return Ok(Effect::Output(v));
            },
            Instruction::Accept => {
                return Ok(Effect::AwaitInput);
            },
            Instruction::Forward => {
                if self.tape[self.head] == 0 {
                    self.pc = self.table.partner(self.pc).unwrap();
                } else {
                    self.pc = self.pc + 1;
                }
            },
            Instruction::Backward => {
                if self.tape[self.head] != 0 {
                    self.pc = self.table.partner(self.pc).unwrap();
                } else {
                    self.pc = self.pc + 1;
                }
            },
        }
        Ok(Effect::Continue)
    }

    /// Completes the `,` the machine waits on with the byte that was read;
    /// `None` means the input has ended, which fails the run.
    pub fn accept(&mut self, byte: Option<u8>) -> (r: Result<(), RuntimeError>)
        requires
            old(self).wf(),
            old(self)@.pc < old(self)@.program.len(),
            old(self)@.program[old(self)@.pc] == Instruction::Accept,
        ensures
            final(self).wf(),
            (r, final(self)@) == accept_spec(old(self)@, byte),
    {
        match byte {
            Some(b) => {
                // the counter lies within the program, so one more still fits
                let n = self.program.len();
                assert(self.pc < n);
                self.tape.set(self.head, b);
                self.pc = self.pc + 1;
                Ok(())
            },
            None => Err(RuntimeError::InputExhausted),
        }
    }

    /// Whether the machine waits for a byte of input.
    pub fn awaiting_input(&self) -> (r: bool)
        requires
            self.wf(),
        ensures
            r == (self@.pc < self@.program.len() && self@.program[self@.pc]
                == Instruction::Accept),
    {
        self.pc < self.program.len() && self.program[self.pc] == Instruction::Accept
    }

    /// The data pointer.
    pub fn head(&self) -> (r: usize)
        ensures
            r == self@.head,
    {
        self.head
    }

    /// The program counter.
    pub fn pc(&self) -> (r: usize)
        ensures
            r == self@.pc,
    {
        self.pc
    }

    /// The number of cells on the tape.
    pub fn tape_len(&self) -> (r: usize)
        ensures
            r == self@.tape.len(),
    {
        self.tape.len()
    }

    /// The value of cell `i`, if the tape reaches that far.
    pub fn cell(&self, i: usize) -> (r: Option<u8>)
        ensures
            r == (if i < self@.tape.len() {
                Some(self@.tape[i as int])
            } else {
                None
            }),
    {
        if i < self.tape.len() {
            Some(self.tape[i])
        } else {
            None
        }
    }
}

} // verus!
