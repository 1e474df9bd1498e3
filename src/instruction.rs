use vstd::prelude::*;
use vstd::string::*;

verus! {

/// One token of the language; `Discard` stands for every character that is
/// not an instruction and never reaches a loaded program.
#[derive(Debug, Clone, Copy, PartialEq, Eq, Structural)]
pub enum Instruction {
    MoveRight,
    MoveLeft,
    Increment,
    Decrement,
    Output,
    Input,
    JumpIfZero,
    JumpIfNonZero,
    Discard,
}

/// The token that a single source character stands for.
pub open spec fn instruction_of(c: char) -> Instruction {
    if c == '>' {
        Instruction::MoveRight
    } else if c == '<' {
        Instruction::MoveLeft
    } else if c == '+' {
        Instruction::Increment
    } else if c == '-' {
        Instruction::Decrement
    } else if c == '.' {
        Instruction::Output
    } else if c == ',' {
        Instruction::Input
    } else if c == '[' {
        Instruction::JumpIfZero
    } else if c == ']' {
        Instruction::JumpIfNonZero
    } else {
        Instruction::Discard
    }
}

/// The token stream of a source text: one token per character, in order.
pub open spec fn tokens(s: Seq<char>) -> Seq<Instruction> {
    s.map_values(|c: char| instruction_of(c))
}

/// The loaded instruction stream: the tokens of `s` without the `Discard`
/// entries, in source order.
pub open spec fn load(s: Seq<char>) -> Seq<Instruction>
    decreases s.len(),
{
    if s.len() == 0 {
        Seq::empty()
    } else {
        let rest = load(s.drop_last());
        if instruction_of(s.last()) is Discard {
            rest
        } else {
            rest.push(instruction_of(s.last()))
        }
    }
}

impl Instruction {
    /// Maps a source character to its token.
    pub fn from_char(c: char) -> (r: Instruction)
        ensures
            r == instruction_of(c),
    {
        match c {
            '>' => Instruction::MoveRight,
            '<' => Instruction::MoveLeft,
            '+' => Instruction::Increment,
            '-' => Instruction::Decrement,
            '.' => Instruction::Output,
            ',' => Instruction::Input,
            '[' => Instruction::JumpIfZero,
            ']' => Instruction::JumpIfNonZero,
            _ => Instruction::Discard,
        }
    }
}

/// Produces the tokens of a source text one at a time, restartable by
/// building a new lexer over the same text.
pub struct Lexer<'a> {
    source: &'a str,
    pos: usize,
    len: usize,
}

impl<'a> Lexer<'a> {
    /// The characters being tokenized.
    pub closed spec fn text(&self) -> Seq<char> {
        self.source@
    }

    /// How many characters have been tokenized so far.
    pub closed spec fn position(&self) -> int {
        self.pos as int
    }

    pub closed spec fn wf(&self) -> bool {
        self.len == self.source@.len() && self.pos <= self.len
    }

    pub fn new(source: &'a str) -> (r: Lexer<'a>)
        ensures
            r.wf(),
            r.text() == source@,
            r.position() == 0,
    {
        Lexer { source, pos: 0, len: source.unicode_len() }
    }

    /// The token of the next character, or `None` once the text is used up.
    pub fn next(&mut self) -> (r: Option<Instruction>)
        requires
            old(self).wf(),
        ensures
            final(self).wf(),
            final(self).text() == old(self).text(),
            old(self).position() < old(self).text().len() ==> {
                &&& r == Some(instruction_of(old(self).text()[old(self).position()]))
                &&& final(self).position() == old(self).position() + 1
            },
            old(self).position() >= old(self).text().len() ==> {
                &&& r is None
                &&& final(self).position() == old(self).position()
            },
    {
        if self.pos < self.len {
            let c = self.source.get_char(self.pos);
            self.pos = self.pos + 1;
            Some(Instruction::from_char(c))
        } else {
            None
        }
    }
}

} // verus!
