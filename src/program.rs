use vstd::prelude::*;
use crate::instruction::{load, Instruction, Lexer};
use crate::memory::{Memory, TapeState, TAPE_LEN};

verus! {

/// A program as a mathematical value: its instruction stream, the
/// instruction cursor and the tape.
pub ghost struct MachineState {
    pub instrs: Seq<Instruction>,
    pub ip: int,
    pub tape: TapeState,
}

/// What one step of the engine asks of its surroundings.
#[derive(Debug, Clone, Copy, PartialEq, Eq, Structural)]
pub enum Effect {
    /// An instruction ran with nothing to report.
    Ran,
    /// An output instruction ran and emits this byte.
    Output(u8),
    /// The current instruction reads a byte and none was handed in; the
    /// machine is unchanged.
    NeedsInput,
    /// An increment was refused in the named cell, which holds 255 and is
    /// unchanged.
    Overflow(usize),
    /// A decrement was refused in the named cell, which holds 0 and is
    /// unchanged.
    Underflow(usize),
    /// The cursor is past the last instruction.
    Halted,
}

/// Index of the nearest `JumpIfNonZero` at or after `i`, or -1 when there is none.
pub open spec fn scan_forward(s: Seq<Instruction>, i: int) -> int
    decreases s.len() - i,
{
    if i < 0 || i >= s.len() {
        -1
    } else if s[i] is JumpIfNonZero {
        i
    } else {
        scan_forward(s, i + 1)
    }
}

/// Index of the nearest `JumpIfZero` strictly before `i`, or -1 when there is none.
pub open spec fn scan_backward(s: Seq<Instruction>, i: int) -> int
    decreases i,
{
    if i <= 0 || i > s.len() {
        -1
    } else if s[i - 1] is JumpIfZero {
        i - 1
    } else {
        scan_backward(s, i - 1)
    }
}

/// The jump target that the engine uses for the bracket at `ip`: the nearest
/// bracket of the opposite kind in the direction of the jump, with no count
/// of nesting depth. -1 when there is none.
pub open spec fn scan_target(s: Seq<Instruction>, ip: int) -> int {
    if s[ip] is JumpIfZero {
        scan_forward(s, ip)
    } else {
        scan_backward(s, ip)
    }
}

/// Whether the current cell's value makes the bracket under the cursor jump.
pub open spec fn jump_taken(v: MachineState) -> bool {
    (v.instrs[v.ip] is JumpIfZero && v.tape.current() == 0) || (v.instrs[v.ip] is JumpIfNonZero
        && v.tape.current() != 0)
}

/// One step from `v`, with `input` as the byte available to an input
/// instruction and `target` as the partner of a bracket under the cursor.
/// A taken jump resumes just after `target`; with no partner (-1), or when the
/// jump is not taken, the cursor advances by one.
pub open spec fn transition(v: MachineState, input: Option<u8>, target: int) -> MachineState {
    if v.ip < 0 || v.ip >= v.instrs.len() {
        v
    } else {
        let next = MachineState { ip: v.ip + 1, ..v };
        match v.instrs[v.ip] {
            Instruction::MoveRight => MachineState { tape: v.tape.moved(1), ..next },
            Instruction::MoveLeft => MachineState { tape: v.tape.moved(-1), ..next },
            Instruction::Increment => MachineState { tape: v.tape.incremented(), ..next },
            Instruction::Decrement => MachineState { tape: v.tape.decremented(), ..next },
            Instruction::Input => match input {
                Some(b) => MachineState { tape: v.tape.written(b), ..next },
                None => v,
            },
            Instruction::JumpIfZero | Instruction::JumpIfNonZero => {
                if jump_taken(v) && target >= 0 {
                    MachineState { ip: target + 1, ..v }
                } else {
                    next
                }
            },
            _ => next,
        }
    }
}

/// One step of the engine.
pub open spec fn step_spec(v: MachineState, input: Option<u8>) -> MachineState {
    transition(
        v,
        input,
        if 0 <= v.ip < v.instrs.len() {
            scan_target(v.instrs, v.ip)
        } else {
            -1
        },
    )
}

/// What one step of the engine reports.
pub open spec fn effect_spec(v: MachineState, input: Option<u8>) -> Effect {
    if v.ip < 0 || v.ip >= v.instrs.len() {
        Effect::Halted
    } else {
        match v.instrs[v.ip] {
            Instruction::Increment => if v.tape.current() == 255 {
                Effect::Overflow(v.tape.dp as usize)
            } else {
                Effect::Ran
            },
            Instruction::Decrement => if v.tape.current() == 0 {
                Effect::Underflow(v.tape.dp as usize)
            } else {
                Effect::Ran
            },
            Instruction::Output => Effect::Output(v.tape.current()),
            Instruction::Input => if input is None {
                Effect::NeedsInput
            } else {
                Effect::Ran
            },
            _ => Effect::Ran,
        }
    }
}

/// Finds the nearest `JumpIfNonZero` at or after `from`.
fn find_forward(s: &Vec<Instruction>, from: usize) -> (r: Option<usize>)
    requires
        from <= s@.len(),
    ensures
        match r {
            Some(k) => k as int == scan_forward(s@, from as int) && k < s@.len(),
            None => scan_forward(s@, from as int) == -1,
        },
{
    let mut i = from;
    while i < s.len()
        invariant
            from <= i <= s@.len(),
            scan_forward(s@, from as int) == scan_forward(s@, i as int),
        decreases s@.len() - i,
    {
        if matches!(s[i], Instruction::JumpIfNonZero) {
            return Some(i);
        }
        i = i + 1;
    }
    None
}

/// Finds the nearest `JumpIfZero` strictly before `from`.
fn find_backward(s: &Vec<Instruction>, from: usize) -> (r: Option<usize>)
    requires
        from <= s@.len(),
    ensures
        match r {
            Some(k) => k as int == scan_backward(s@, from as int) && k < from,
            None => scan_backward(s@, from as int) == -1,
        },
{
    let mut i = from;
    while i > 0
        invariant
            i <= from <= s@.len(),
            scan_backward(s@, from as int) == scan_backward(s@, i as int),
        decreases i,
    {
        if matches!(s[i - 1], Instruction::JumpIfZero) {
            return Some(i - 1);
        }
        i = i - 1;
    }
    None
}

/// A loaded instruction stream with its own tape and cursor.
pub struct Program {
    instructions: Vec<Instruction>,
    instruction_pointer: usize,
    memory: Memory,
}

impl View for Program {
    type V = MachineState;

    closed spec fn view(&self) -> MachineState {
        MachineState {
            instrs: self.instructions@,
            ip: self.instruction_pointer as int,
            tape: self.memory@,
        }
    }
}

impl Program {
    /// The stream holds no `Discard`, the cursor is at most one past its end,
    /// and the tape is well formed.
    pub open spec fn wf(&self) -> bool {
        &&& forall|i: int| 0 <= i < self@.instrs.len() ==> !(#[trigger] self@.instrs[i] is Discard)
        &&& 0 <= self@.ip <= self@.instrs.len()
        &&& self@.tape.wf()
    }

    /// Tokenizes `source_code`, drops the non-instruction characters, and
    /// sets up a fresh tape with the cursor on the first instruction.
    pub fn from_string(source_code: String) -> (r: Program)
        ensures
            r.wf(),
            r@.instrs == load(source_code@),
            r@.ip == 0,
            r@.tape == TapeState::fresh(),
    {
        let mut lexer = Lexer::new(source_code.as_str());
        let mut instructions: Vec<Instruction> = Vec::new();
        loop
            invariant
                lexer.wf(),
                lexer.text() == source_code@,
                0 <= lexer.position() <= source_code@.len(),
                instructions@ == load(source_code@.take(lexer.position())),
                forall|i: int| 0 <= i < instructions@.len() ==> !(#[trigger] instructions@[i] is Discard),
            ensures
                instructions@ == load(source_code@),
                forall|i: int| 0 <= i < instructions@.len() ==> !(#[trigger] instructions@[i] is Discard),
            decreases source_code@.len() - lexer.position(),
        {
            let ghost before = lexer.position();
            match lexer.next() {
                Some(t) => {
                    assert(source_code@.take(before + 1).drop_last() =~= source_code@.take(before));
                    if !matches!(t, Instruction::Discard) {
                        instructions.push(t);
                    }
                },
                None => {
                    assert(source_code@.take(before) =~= source_code@);
                    break;
                },
            }
        }
        Program { instructions, instruction_pointer: 0, memory: Memory::new() }
    }

    /// The byte in cell `dp` of the tape.
    pub fn read_memory(&self, dp: usize) -> (r: u8)
        requires
            self.wf(),
            dp < TAPE_LEN,
        ensures
            r == self@.tape.cells[dp as int],
    {
        self.memory.arbitrary_read(dp)
    }

    /// Runs the instruction under the cursor and moves the cursor on, unless
    /// the program has halted or an input instruction finds `input` empty.
    /// A `[` whose cell is zero resumes after the nearest `]` that follows it,
    /// and a `]` whose cell is not zero resumes after the nearest `[` before
    /// it; neither counts nesting depth.
    pub fn step(&mut self, input: Option<u8>) -> (r: Effect)
        requires
            old(self).wf(),
        ensures
            final(self).wf(),
            final(self)@ == step_spec(old(self)@, input),
            r == effect_spec(old(self)@, input),
    {
        if self.instruction_pointer >= self.instructions.len() {
            return Effect::Halted;
        }
        let ip = self.instruction_pointer;
        let mut effect = Effect::Ran;
        match self.instructions[ip] {
            Instruction::MoveRight => self.memory.dp_move(1),
            Instruction::MoveLeft => self.memory.dp_move(-1),
            Instruction::Increment => {
                if !self.memory.increment_byte() {
                    effect = Effect::Overflow(self.memory.data_pointer());
                }
            },
            Instruction::Decrement => {
                if !self.memory.decrement_byte() {
                    effect = Effect::Underflow(self.memory.data_pointer());
                }
            },
            Instruction::Output => {
                effect = Effect::Output(self.memory.get_byte());
            },
            Instruction::Input => match input {
                Some(b) => self.memory.set_byte(b),
                None => return Effect::NeedsInput,
            },
            Instruction::JumpIfZero => {
                if self.memory.get_byte() == 0 {
                    if let Some(k) = find_forward(&self.instructions, ip) {
                        self.instruction_pointer = k;
                    }
                }
            },
            Instruction::JumpIfNonZero => {
                if self.memory.get_byte() != 0 {
                    if let Some(k) = find_backward(&self.instructions, ip) {
                        self.instruction_pointer = k;
                    }
                }
            },
            Instruction::Discard => {},
        }
        self.instruction_pointer = self.instruction_pointer + 1;
        effect
    }

    /// Number of instructions in the loaded stream.
    pub fn instruction_count(&self) -> (r: usize)
        ensures
            r == self@.instrs.len(),
    {
        self.instructions.len()
    }

    /// The instruction cursor.
    pub fn instruction_pointer(&self) -> (r: usize)
        ensures
            r == self@.ip,
    {
        self.instruction_pointer
    }

    /// The index of the cell under the data pointer.
    pub fn data_pointer(&self) -> (r: usize)
        ensures
            r == self@.tape.dp,
    {
        self.memory.data_pointer()
    }
}

} // verus!
