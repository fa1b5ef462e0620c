use vstd::prelude::*;

use crate::instruction::{command_of, decode, is_command_char, Instruction};

verus! {

/// Where the scanner stands within the current line.
#[derive(Clone, Copy, Debug, PartialEq, Eq, Structural)]
pub enum LexState {
    /// Only blanks have been seen since the start of the line.
    LineStart,
    /// Something other than a blank has been seen on this line.
    Mid,
    /// Inside a line comment, up to the next newline.
    Comment,
}

/// Blanks that may precede a `#` that opens a comment line.
pub open spec fn is_blank(c: char) -> bool {
    c == ' ' || c == '\t' || c == '\r'
}

/// The state after reading `c` in state `st`.
pub open spec fn next_state(st: LexState, c: char) -> LexState {
    if c == '\n' {
        LexState::LineStart
    } else {
        match st {
            LexState::Comment => LexState::Comment,
            LexState::LineStart => if c == '#' {
                LexState::Comment
            } else if is_blank(c) {
                LexState::LineStart
            } else {
                LexState::Mid
            },
            LexState::Mid => LexState::Mid,
        }
    }
}

/// Whether reading `c` in state `st` yields an instruction.
pub open spec fn emits(st: LexState, c: char) -> bool {
    st != LexState::Comment && is_command_char(c)
}

/// The instructions that `s` yields when scanning starts in state `st`.
pub open spec fn lex_from(st: LexState, s: Seq<char>) -> Seq<Instruction>
    decreases s.len(),
{
    if s.len() == 0 {
        Seq::empty()
    } else {
        let rest = lex_from(next_state(st, s[0]), s.drop_first());
        if emits(st, s[0]) {
            seq![command_of(s[0])] + rest
        } else {
            rest
        }
    }
}

/// The state that scanning `s` from `st` ends in.
pub open spec fn state_after(st: LexState, s: Seq<char>) -> LexState
    decreases s.len(),
{
    if s.len() == 0 {
        st
    } else {
        state_after(next_state(st, s[0]), s.drop_first())
    }
}

/// The instructions of a source text: every command symbol in order, except
/// those on a line whose first non-blank character is `#`.
pub open spec fn lex(s: Seq<char>) -> Seq<Instruction> {
    lex_from(LexState::LineStart, s)
}

/// Scanning a concatenation scans the second part from the state the first
/// part ends in.
pub proof fn lemma_lex_concat(st: LexState, a: Seq<char>, b: Seq<char>)
    ensures
        lex_from(st, a + b) == lex_from(st, a) + lex_from(state_after(st, a), b),
    decreases a.len(),
{
    if a.len() == 0 {
        assert(a + b =~= b);
    } else {
        assert((a + b).drop_first() =~= a.drop_first() + b);
        lemma_lex_concat(next_state(st, a[0]), a.drop_first(), b);
    }
}

/// Text without commands and without `#`, read outside a comment, yields
/// nothing and does not enter a comment.
proof fn lemma_junk_silent(st: LexState, j: Seq<char>)
    requires
        st != LexState::Comment,
        forall|i: int| 0 <= i < j.len() ==> !is_command_char(#[trigger] j[i]) && j[i] != '#',
    ensures
        lex_from(st, j) == Seq::<Instruction>::empty(),
        state_after(st, j) != LexState::Comment,
    decreases j.len(),
{
    if j.len() > 0 {
        assert(forall|i: int|
            0 <= i < j.drop_first().len() ==> #[trigger] j.drop_first()[i] == j[i + 1]);
        lemma_junk_silent(next_state(st, j[0]), j.drop_first());
    }
}

/// Inserting text that holds neither a command symbol nor `#` never changes
/// the instructions, where it goes between two commands (or after the last
/// one) at a point outside a comment.
pub proof fn lemma_junk_insertion(a: Seq<char>, j: Seq<char>, b: Seq<char>)
    requires
        state_after(LexState::LineStart, a) != LexState::Comment,
        forall|i: int| 0 <= i < j.len() ==> !is_command_char(#[trigger] j[i]) && j[i] != '#',
        b.len() == 0 || is_command_char(b[0]),
    ensures
        lex(a + j + b) == lex(a + b),
{
    let st = state_after(LexState::LineStart, a);
    lemma_lex_concat(LexState::LineStart, a, j + b);
    lemma_lex_concat(LexState::LineStart, a, b);
    lemma_lex_concat(st, j, b);
    lemma_junk_silent(st, j);
    assert(a + j + b =~= a + (j + b));
    let st2 = state_after(st, j);
    if b.len() > 0 {
        assert(next_state(st, b[0]) == next_state(st2, b[0]));
    }
    assert(lex_from(st2, b) == lex_from(st, b));
    assert(lex_from(st, j + b) =~= lex_from(st, b));
}

fn step_state(st: LexState, c: char) -> (r: LexState)
    ensures
        r == next_state(st, c),
{
    if c == '\n' {
        LexState::LineStart
    } else {
        match st {
            LexState::Comment => LexState::Comment,
            LexState::LineStart => if c == '#' {
                LexState::Comment
            } else if c == ' ' || c == '\t' || c == '\r' {
                LexState::LineStart
            } else {
                LexState::Mid
            },
            LexState::Mid => LexState::Mid,
        }
    }
}

/// Scans source text into its instruction sequence. Characters that are not
/// commands are skipped, and so is every line whose first non-blank character
/// is `#`, up to and including its newline. Lexing never fails.
pub fn tokenize(s: &str) -> (r: Vec<Instruction>)
    ensures
        r@ == lex(s@),
{
    let mut out: Vec<Instruction> = Vec::new();
    let mut st = LexState::LineStart;
    assert(s@.skip(0) =~= s@);
    for c in it: s.chars()
        invariant
            it.seq() == s@,
            out@ + lex_from(st, s@.skip(it.index() as int)) == lex(s@),
    {
        proof {
            let rest = s@.skip(it.index() as int);
            assert(rest.drop_first() =~= s@.skip(it.index() + 1));
        }
        if st != LexState::Comment {
            match decode(c) {
                Some(ins) => out.push(ins),
                None => {},
            }
        }
        st = step_state(st, c);
    }
    out
}

} // verus!
