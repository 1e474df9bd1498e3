use vstd::prelude::*;

verus! {

/// Number of cells on the tape.
pub const TAPE_LEN: usize = 30000;

/// The tape as a mathematical value: its cells and the data pointer.
pub ghost struct TapeState {
    pub cells: Seq<u8>,
    pub dp: int,
}

impl TapeState {
    /// The cells have the fixed tape length and the pointer lies on one of them.
    pub open spec fn wf(self) -> bool {
        &&& self.cells.len() == TAPE_LEN
        &&& 0 <= self.dp < TAPE_LEN
    }

    /// The byte under the data pointer.
    pub open spec fn current(self) -> u8 {
        self.cells[self.dp]
    }

    /// The tape after a pointer move by `delta`: a move that would leave the
    /// tape keeps the pointer where it is.
    pub open spec fn moved(self, delta: int) -> TapeState {
        if 0 <= self.dp + delta < TAPE_LEN {
            TapeState { dp: self.dp + delta, ..self }
        } else {
            self
        }
    }

    /// The tape with `b` written under the data pointer.
    pub open spec fn written(self, b: u8) -> TapeState {
        TapeState { cells: self.cells.update(self.dp, b), ..self }
    }

    /// The tape after a saturating increment of the current cell.
    pub open spec fn incremented(self) -> TapeState {
        if self.current() < 255 {
            self.written((self.current() + 1) as u8)
        } else {
            self
        }
    }

    /// The tape after a saturating decrement of the current cell.
    pub open spec fn decremented(self) -> TapeState {
        if self.current() > 0 {
            self.written((self.current() - 1) as u8)
        } else {
            self
        }
    }

    /// A fresh tape: every cell zero, the pointer on cell 0.
    pub open spec fn fresh() -> TapeState {
        TapeState { cells: Seq::new(TAPE_LEN as nat, |i: int| 0u8), dp: 0 }
    }
}

/// A fixed-length byte tape with a data pointer that never leaves it.
pub struct Memory {
    cells: Vec<u8>,
    data_pointer: usize,
}

impl View for Memory {
    type V = TapeState;

    closed spec fn view(&self) -> TapeState {
        TapeState { cells: self.cells@, dp: self.data_pointer as int }
    }
}

impl Memory {
    pub open spec fn wf(&self) -> bool {
        self@.wf()
    }

    /// A zeroed tape with the pointer on cell 0.
    pub fn new() -> (r: Memory)
        ensures
            r.wf(),
            r@ == TapeState::fresh(),
    {
        let cells = vec![0u8; TAPE_LEN];
        let r = Memory { cells, data_pointer: 0 };
        assert(r@.cells =~= TapeState::fresh().cells);
        r
    }

    /// Moves the data pointer by `value`; a move that would take it below 0
    /// or to `TAPE_LEN` and beyond leaves it unchanged.
    pub fn dp_move(&mut self, value: isize)
        requires
            old(self).wf(),
        ensures
            final(self).wf(),
            final(self)@ == old(self)@.moved(value as int),
    {
        let dp = self.data_pointer as isize;
        if value >= 0 {
            if value < TAPE_LEN as isize - dp {
                self.data_pointer = (dp + value) as usize;
            }
        } else if value >= -dp {
            self.data_pointer = (dp + value) as usize;
        }
    }

    /// Adds one to the current cell unless it already holds 255. Returns
    /// whether the cell changed; `false` signals a refused overflow.
    pub fn increment_byte(&mut self) -> (changed: bool)
        requires
            old(self).wf(),
        ensures
            final(self).wf(),
            final(self)@ == old(self)@.incremented(),
            changed == (old(self)@.current() < 255),
    {
        let b = self.cells[self.data_pointer];
        if b < 255 {
            self.cells.set(self.data_pointer, b + 1);
            true
        } else {
            false
        }
    }

    /// Subtracts one from the current cell unless it already holds 0. Returns
    /// whether the cell changed; `false` signals a refused underflow.
    pub fn decrement_byte(&mut self) -> (changed: bool)
        requires
            old(self).wf(),
        ensures
            final(self).wf(),
            final(self)@ == old(self)@.decremented(),
            changed == (old(self)@.current() > 0),
    {
        let b = self.cells[self.data_pointer];
        if b > 0 {
            self.cells.set(self.data_pointer, b - 1);
            true
        } else {
            false
        }
    }

    /// The byte under the data pointer.
    pub fn get_byte(&self) -> (r: u8)
        requires
            self.wf(),
        ensures
            r == self@.current(),
    {
        self.cells[self.data_pointer]
    }

    /// Overwrites the byte under the data pointer.
    pub fn set_byte(&mut self, byte: u8)
        requires
            old(self).wf(),
        ensures
            final(self).wf(),
            final(self)@ == old(self)@.written(byte),
    {
        self.cells.set(self.data_pointer, byte);
    }

    /// The byte in cell `dp`, wherever the data pointer stands.
    pub fn arbitrary_read(&self, dp: usize) -> (r: u8)
        requires
            self.wf(),
            dp < TAPE_LEN,
        ensures
            r == self@.cells[dp as int],
    {
        self.cells[dp]
    }

    /// The index of the cell under the data pointer.
    pub fn data_pointer(&self) -> (r: usize)
        ensures
            r == self@.dp,
    {
        self.data_pointer
    }
}

} // verus!
