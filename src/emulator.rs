//! The executable machine: memory, registers, stack, timers, display and
//! input, stepped one instruction at a time.

use vstd::prelude::*;
use crate::DISPLAY_SIZE;
use crate::instruction::Instruction;
use crate::model::{
    first_pressed, font_seq, lemma_cell_coords, lemma_cell_split, sprite_bit, Chip8Error,
    Chip8State, ShiftQuirk, FONT, FONT_SIZE, FONT_START, KEY_COUNT, MAX_PROGRAM_SIZE, MEMORY_SIZE,
    PIXEL_ON, PROGRAM_START, STACK_LIMIT,
};

verus! {

/// A key report from the host: whether the key is pressed (`0`) and its
/// logical key code (`1`).
#[derive(Debug)]
pub struct KeyMapValue(pub bool, pub u8);

pub struct Chip8 {
    memory: [u8; MEMORY_SIZE],
    display: [u32; DISPLAY_SIZE],
    stack: Vec<u16>,
    delay_timer: u8,
    sound_timer: u8,
    keys: [bool; KEY_COUNT],
    key_released: bool,
    pc: u16,
    v: [u8; 16],
    i: u16,
    shift_quirk: ShiftQuirk,
}

impl View for Chip8 {
    type V = Chip8State;

    closed spec fn view(&self) -> Chip8State {
        Chip8State {
            memory: self.memory@,
            display: self.display@,
            stack: self.stack@,
            v: self.v@,
            i: self.i,
            pc: self.pc,
            delay_timer: self.delay_timer,
            sound_timer: self.sound_timer,
            keys: self.keys@,
            key_released: self.key_released,
            shift_quirk: self.shift_quirk,
        }
    }
}


/// The value of a display cell after a set sprite bit reaches it.
spec fn toggled(cell: u32) -> u32 {
    if cell != 0 {
        0
    } else {
        PIXEL_ON
    }
}

/// Whether a `Dxyn` on `s` reaches `cell` before sprite row `row`, bit `bit`.
spec fn reached(s: Chip8State, x: u8, y: u8, n: u8, cell: int, row: int, bit: int) -> bool {
    let r = cell / 64 - s.v[y as int] % 32;
    let c = cell % 64 - s.v[x as int] % 64;
    s.draws_cell(x, y, n, cell) && (r < row || (r == row && c < bit))
}

/// Relies on rand::random: a byte from the thread-local generator, of which
/// nothing is promised.
#[verifier::external_body]
fn random_byte() -> (r: u8) {
    rand::random::<u8>()
}

impl Chip8 {
    /// The machine is consistent: sizes fixed, stack bounded, cells 0 or lit.
    pub open spec fn wf(&self) -> bool {
        self@.wf()
    }

    /// A machine with the font loaded, zeroed memory elsewhere, a clear
    /// display, no key pressed and `pc` at the program start.
    pub fn new() -> (r: Chip8)
        ensures
            r.wf(),
            r@ == Chip8State::initial(),
    {
        let mut em = Chip8 {
            memory: [0u8; MEMORY_SIZE],
            display: [0u32; DISPLAY_SIZE],
            stack: Vec::new(),
            delay_timer: 0,
            sound_timer: 0,
            keys: [false; KEY_COUNT],
            key_released: false,
            pc: PROGRAM_START as u16,
            v: [0u8; 16],
            i: 0,
            shift_quirk: ShiftQuirk::FromVy,
        };
        em.load_font();
        assert(em@ =~= Chip8State::initial());
        em
    }

    /// Copies the font table to its place in memory.
    fn load_font(&mut self)
        ensures
            final(self)@ == (Chip8State {
                memory: Seq::new(
                    MEMORY_SIZE as nat,
                    |a: int|
                        if FONT_START <= a < FONT_START + FONT_SIZE {
                            font_seq()[a - FONT_START]
                        } else {
                            old(self)@.memory[a]
                        },
                ),
                ..old(self)@
            }),
    {
        let mut idx: usize = 0;
        while idx < FONT_SIZE
            invariant
                idx <= FONT_SIZE,
                self@ == (Chip8State { memory: self@.memory, ..old(self)@ }),
                self@.memory.len() == MEMORY_SIZE,
                forall|a: int|
                    0 <= a < MEMORY_SIZE ==> #[trigger] self@.memory[a] == if FONT_START <= a
                        < FONT_START + idx {
                        font_seq()[a - FONT_START]
                    } else {
                        old(self)@.memory[a]
                    },
            decreases FONT_SIZE - idx,
        {
            self.memory[FONT_START + idx] = FONT[idx];
            idx += 1;
        }
        assert(self@ =~= (Chip8State {
            memory: Seq::new(
                MEMORY_SIZE as nat,
                |a: int|
                    if FONT_START <= a < FONT_START + FONT_SIZE {
                        font_seq()[a - FONT_START]
                    } else {
                        old(self)@.memory[a]
                    },
            ),
            ..old(self)@
        }));
    }

    /// Copies `rom` into memory from the program start. A program longer than
    /// the space above the program start is refused and nothing changes.
    pub fn load_rom(&mut self, rom: &[u8]) -> (r: Result<(), Chip8Error>)
        requires
            old(self).wf(),
        ensures
            final(self).wf(),
            rom@.len() > MAX_PROGRAM_SIZE ==> r == Err::<(), Chip8Error>(Chip8Error::LoadError)
                && final(self)@ == old(self)@,
            rom@.len() <= MAX_PROGRAM_SIZE ==> r == Ok::<(), Chip8Error>(()) && final(self)@ == old(self)@.loaded(rom@),
    {
        if rom.len() > MAX_PROGRAM_SIZE {
            return Err(Chip8Error::LoadError);
        }
        let mut k: usize = 0;
        while k < rom.len()
            invariant
                k <= rom@.len() <= MAX_PROGRAM_SIZE,
                self@ == (Chip8State { memory: self@.memory, ..old(self)@ }),
                self@.memory.len() == MEMORY_SIZE,
                forall|a: int|
                    0 <= a < MEMORY_SIZE ==> #[trigger] self@.memory[a] == if PROGRAM_START <= a
                        < PROGRAM_START + k {
                        rom@[a - PROGRAM_START]
                    } else {
                        old(self)@.memory[a]
                    },
            decreases rom@.len() - k,
        {
            self.memory[PROGRAM_START + k] = rom[k];
            k += 1;
        }
        assert(self@ =~= old(self)@.loaded(rom@));
        Ok(())
    }

    /// One timer tick: each timer above zero drops by one.
    pub fn decrement_timers(&mut self)
        requires
            old(self).wf(),
        ensures
            final(self).wf(),
            final(self)@ == old(self)@.ticked(),
    {
        if self.delay_timer > 0 {
            self.delay_timer -= 1;
        }
        if self.sound_timer > 0 {
            self.sound_timer -= 1;
        }
        assert(self@ =~= old(self)@.ticked());
    }

    /// Records whether the key with code `key.1` is pressed.
    pub fn set_key(&mut self, key: KeyMapValue)
        requires
            old(self).wf(),
            key.1 < KEY_COUNT,
        ensures
            final(self).wf(),
            final(self)@ == (Chip8State {
                keys: old(self)@.keys.update(key.1 as int, key.0),
                ..old(self)@
            }),
    {
        self.keys[key.1 as usize] = key.0;
        assert(self@ =~= (Chip8State {
            keys: old(self)@.keys.update(key.1 as int, key.0),
            ..old(self)@
        }));
    }

    /// Selects which register the shift instructions read.
    pub fn set_shift_quirk(&mut self, quirk: ShiftQuirk)
        requires
            old(self).wf(),
        ensures
            final(self).wf(),
            final(self)@ == (Chip8State { shift_quirk: quirk, ..old(self)@ }),
    {
        self.shift_quirk = quirk;
        assert(self@ =~= (Chip8State { shift_quirk: quirk, ..old(self)@ }));
    }
    /// `00E0`.
    fn op_00e0(&mut self)
        requires
            old(self).wf(),
        ensures
            final(self).wf(),
            old(self)@.execute(Instruction::ClearDisplay, 0) == Ok::<Chip8State, Chip8Error>(final(self)@),
    {
        let mut k: usize = 0;
        while k < DISPLAY_SIZE
            invariant
                k <= DISPLAY_SIZE,
                self@ == (Chip8State { display: self@.display, ..old(self)@ }),
                self@.display.len() == DISPLAY_SIZE,
                forall|j: int|
                    0 <= j < DISPLAY_SIZE ==> #[trigger] self@.display[j] == if j < k {
                        0u32
                    } else {
                        old(self)@.display[j]
                    },
            decreases DISPLAY_SIZE - k,
        {
            self.display[k] = 0;
            k += 1;
        }
        assert(self@ =~= (Chip8State { display: Seq::new(2048, |k: int| 0u32), ..old(self)@ }));
    }

    /// `00EE`.
    fn op_00ee(&mut self) -> (r: Result<(), Chip8Error>)
        requires
            old(self).wf(),
        ensures
            final(self).wf(),
            old(self)@.outcome_is(final(self)@, r, old(self)@.execute(Instruction::Return, 0)),
    {
        match self.stack.pop() {
            Some(addr) => {
                self.pc = addr;
                assert(self@ =~= (Chip8State {
                    pc: old(self)@.stack.last(),
                    stack: old(self)@.stack.drop_last(),
                    ..old(self)@
                }));
                Ok(())
            },
            None => Err(Chip8Error::StackUnderflow),
        }
    }

    /// `2nnn`: pushes the address of the next instruction.
    fn op_2nnn(&mut self, nnn: u16) -> (r: Result<(), Chip8Error>)
        requires
            old(self).wf(),
        ensures
            final(self).wf(),
            old(self)@.outcome_is(final(self)@, r, old(self)@.execute(Instruction::Call { nnn }, 0)),
    {
        if self.stack.len() >= STACK_LIMIT {
            return Err(Chip8Error::StackOverflow);
        }
        self.stack.push(self.pc);
        self.pc = nnn;
        assert(self@ =~= (Chip8State {
            stack: old(self)@.stack.push(old(self)@.pc),
            pc: nnn,
            ..old(self)@
        }));
        Ok(())
    }

    /// Advances `pc` past the next instruction when `cond` holds.
    fn skip_if(&mut self, cond: bool)
        requires
            old(self).wf(),
            old(self).pc <= MEMORY_SIZE,
        ensures
            final(self).wf(),
            final(self)@ == old(self)@.skip_if(cond),
    {
        if cond {
            self.pc = self.pc + 2;
            assert(self@ =~= old(self)@.with_pc(old(self)@.pc + 2));
        }
    }

    /// Sets `V[x]`, leaving everything else as it was.
    fn set_v(&mut self, x: u8, value: u8)
        requires
            old(self).wf(),
            x < 16,
        ensures
            final(self).wf(),
            final(self)@ == old(self)@.with_v(x as int, value),
    {
        self.v[x as usize] = value;
        assert(self@ =~= old(self)@.with_v(x as int, value));
    }

    /// Sets `V[x]`, then the flag register.
    fn set_v_flag(&mut self, x: u8, value: u8, flag: u8)
        requires
            old(self).wf(),
            x < 16,
        ensures
            final(self).wf(),
            final(self)@ == old(self)@.with_v_flag(x as int, value, flag),
    {
        self.v[x as usize] = value;
        self.v[15] = flag;
        assert(self@ =~= old(self)@.with_v_flag(x as int, value, flag));
    }

    /// `8xy4`.
    fn op_8xy4(&mut self, x: u8, y: u8)
        requires
            old(self).wf(),
            x < 16,
            y < 16,
        ensures
            final(self).wf(),
            old(self)@.execute(Instruction::AddReg { x, y }, 0) == Ok::<Chip8State, Chip8Error>(final(self)@),
    {
        let a = self.v[x as usize];
        let b = self.v[y as usize];
        let carry: u8 = if a as u16 + b as u16 > 255 { 1 } else { 0 };
        let sum = a.wrapping_add(b);
        assert(sum == ((a + b) % 256) as u8);
        self.set_v_flag(x, sum, carry);
    }

    /// `8xy5`.
    fn op_8xy5(&mut self, x: u8, y: u8)
        requires
            old(self).wf(),
            x < 16,
            y < 16,
        ensures
            final(self).wf(),
            old(self)@.execute(Instruction::SubReg { x, y }, 0) == Ok::<Chip8State, Chip8Error>(final(self)@),
    {
        let a = self.v[x as usize];
        let b = self.v[y as usize];
        let no_borrow: u8 = if a >= b { 1 } else { 0 };
        let diff = a.wrapping_sub(b);
        assert(diff == ((a - b + 256) % 256) as u8);
        self.set_v_flag(x, diff, no_borrow);
    }

    /// `8xy7`.
    fn op_8xy7(&mut self, x: u8, y: u8)
        requires
            old(self).wf(),
            x < 16,
            y < 16,
        ensures
            final(self).wf(),
            old(self)@.execute(Instruction::SubReverse { x, y }, 0) == Ok::<Chip8State, Chip8Error>(final(self)@),
    {
        let a = self.v[x as usize];
        let b = self.v[y as usize];
        let no_borrow: u8 = if b >= a { 1 } else { 0 };
        let diff = b.wrapping_sub(a);
        assert(diff == ((b - a + 256) % 256) as u8);
        self.set_v_flag(x, diff, no_borrow);
    }

    /// The operand of a shift: `V[y]` or `V[x]`, as the quirk selects.
    fn shift_source(&self, x: u8, y: u8) -> (r: u8)
        requires
            self.wf(),
            x < 16,
            y < 16,
        ensures
            r == if self@.shift_quirk == ShiftQuirk::FromVy {
                self@.v[y as int]
            } else {
                self@.v[x as int]
            },
    {
        match self.shift_quirk {
            ShiftQuirk::FromVy => self.v[y as usize],
            ShiftQuirk::InPlace => self.v[x as usize],
        }
    }

    /// `8xy6`.
    fn op_8xy6(&mut self, x: u8, y: u8)
        requires
            old(self).wf(),
            x < 16,
            y < 16,
        ensures
            final(self).wf(),
            old(self)@.execute(Instruction::ShiftRight { x, y }, 0) == Ok::<Chip8State, Chip8Error>(final(self)@),
    {
        let src = self.shift_source(x, y);
        let lsb = src & 1;
        assert(src >> 1 == src / 2 && src & 1 == src % 2) by (bit_vector);
        self.set_v_flag(x, src >> 1, lsb);
    }

    /// `8xyE`.
    fn op_8xye(&mut self, x: u8, y: u8)
        requires
            old(self).wf(),
            x < 16,
            y < 16,
        ensures
            final(self).wf(),
            old(self)@.execute(Instruction::ShiftLeft { x, y }, 0) == Ok::<Chip8State, Chip8Error>(final(self)@),
    {
        let src = self.shift_source(x, y);
        let msb = (src & 0x80) >> 7;
        assert(src << 1 == ((src * 2) % 256) as u8 && (src & 0x80) >> 7 == src / 128)
            by (bit_vector);
        self.set_v_flag(x, src << 1, msb);
    }

    /// Whether the key whose code is `code` is pressed; codes past the last
    /// key are never pressed.
    fn key_pressed(&self, code: u8) -> (r: bool)
        requires
            self.wf(),
        ensures
            r == self@.key_pressed(code as int),
    {
        (code as usize) < KEY_COUNT && self.keys[code as usize]
    }

    /// The lowest pressed key code, or `KEY_COUNT` when no key is pressed.
    fn first_pressed_key(&self) -> (r: usize)
        requires
            self.wf(),
        ensures
            r == first_pressed(self@.keys, 0),
    {
        let mut k: usize = 0;
        while k < KEY_COUNT && !self.keys[k]
            invariant
                k <= KEY_COUNT,
                self@.keys.len() == KEY_COUNT,
                first_pressed(self@.keys, 0) == first_pressed(self@.keys, k as int),
            decreases KEY_COUNT - k,
        {
            k += 1;
        }
        k
    }

    /// `Fx0A`: completes once a key goes down after a step with no key
    /// pressed, storing the lowest pressed code; until then it repeats.
    fn op_fx0a(&mut self, x: u8)
        requires
            old(self).wf(),
            x < 16,
            old(self).pc >= 2,
        ensures
            final(self).wf(),
            old(self)@.execute(Instruction::WaitKey { x }, 0) == Ok::<Chip8State, Chip8Error>(final(self)@),
    {
        let k = self.first_pressed_key();
        if k >= KEY_COUNT {
            self.pc = self.pc - 2;
            self.key_released = true;
        } else if self.key_released {
            self.v[x as usize] = k as u8;
            self.key_released = false;
        } else {
            self.pc = self.pc - 2;
        }
        assert(old(self)@.execute(Instruction::WaitKey { x }, 0) =~= Ok(self@));
    }

    /// `Fx33`.
    fn op_fx33(&mut self, x: u8) -> (r: Result<(), Chip8Error>)
        requires
            old(self).wf(),
            x < 16,
        ensures
            final(self).wf(),
            old(self)@.outcome_is(final(self)@, r, old(self)@.execute(Instruction::StoreBcd { x }, 0)),
    {
        let addr = self.i as usize;
        if addr + 2 >= MEMORY_SIZE {
            return Err(Chip8Error::OutOfBoundsAccess);
        }
        let val = self.v[x as usize];
        self.memory[addr] = val / 100;
        self.memory[addr + 1] = (val / 10) % 10;
        self.memory[addr + 2] = val % 10;
        assert(self@ =~= (Chip8State {
            memory: old(self)@.memory
                .update(addr as int, val / 100)
                .update(addr + 1, (val / 10) % 10)
                .update(addr + 2, val % 10),
            ..old(self)@
        }));
        Ok(())
    }

    /// `Fx55`.
    fn op_fx55(&mut self, x: u8) -> (r: Result<(), Chip8Error>)
        requires
            old(self).wf(),
            x < 16,
        ensures
            final(self).wf(),
            old(self)@.outcome_is(final(self)@, r, old(self)@.execute(Instruction::StoreRegisters { x }, 0)),
    {
        let base = self.i as usize;
        if base + x as usize >= MEMORY_SIZE {
            return Err(Chip8Error::OutOfBoundsAccess);
        }
        let mut k: usize = 0;
        while k <= x as usize
            invariant
                x < 16,
                k <= x + 1,
                base == old(self)@.i,
                base + x < MEMORY_SIZE,
                self@ == (Chip8State { memory: self@.memory, ..old(self)@ }),
                self@.memory.len() == MEMORY_SIZE,
                forall|a: int|
                    0 <= a < MEMORY_SIZE ==> #[trigger] self@.memory[a] == if base <= a < base + k {
                        old(self)@.v[a - base]
                    } else {
                        old(self)@.memory[a]
                    },
            decreases x + 1 - k,
        {
            self.memory[base + k] = self.v[k];
            k += 1;
        }
        assert(self@ =~= (Chip8State {
            memory: Seq::new(
                old(self)@.memory.len(),
                |a: int|
                    if old(self)@.i <= a <= old(self)@.i + x {
                        old(self)@.v[a - old(self)@.i]
                    } else {
                        old(self)@.memory[a]
                    },
            ),
            ..old(self)@
        }));
        Ok(())
    }

    /// `Fx65`.
    fn op_fx65(&mut self, x: u8) -> (r: Result<(), Chip8Error>)
        requires
            old(self).wf(),
            x < 16,
        ensures
            final(self).wf(),
            old(self)@.outcome_is(final(self)@, r, old(self)@.execute(Instruction::LoadRegisters { x }, 0)),
    {
        let base = self.i as usize;
        if base + x as usize >= MEMORY_SIZE {
            return Err(Chip8Error::OutOfBoundsAccess);
        }
        let mut k: usize = 0;
        while k <= x as usize
            invariant
                x < 16,
                k <= x + 1,
                base == old(self)@.i,
                base + x < MEMORY_SIZE,
                self@ == (Chip8State { v: self@.v, ..old(self)@ }),
                self@.v.len() == 16,
                forall|j: int|
                    0 <= j < 16 ==> #[trigger] self@.v[j] == if j < k {
                        old(self)@.memory[base + j]
                    } else {
                        old(self)@.v[j]
                    },
            decreases x + 1 - k,
        {
            self.v[k] = self.memory[base + k];
            k += 1;
        }
        assert(self@ =~= (Chip8State {
            v: Seq::new(
                16,
                |j: int|
                    if j <= x {
                        old(self)@.memory[old(self)@.i + j]
                    } else {
                        old(self)@.v[j]
                    },
            ),
            ..old(self)@
        }));
        Ok(())
    }
    /// `Dxyn`: toggles each display cell under a set sprite bit, clipping at
    /// the right and bottom edges; the flag records whether a lit cell went out.
    fn op_dxyn(&mut self, x: u8, y: u8, n: u8) -> (r: Result<(), Chip8Error>)
        requires
            old(self).wf(),
            x < 16,
            y < 16,
            n < 16,
        ensures
            final(self).wf(),
            old(self)@.outcome_is(final(self)@, r, old(self)@.execute(Instruction::Draw { x, y, n }, 0)),
    {
        let px: usize = (self.v[x as usize] % 64) as usize;
        let py: usize = (self.v[y as usize] % 32) as usize;
        let rows: usize = if n as usize + py > 32 { 32 - py } else { n as usize };
        let cols: usize = if px + 8 > 64 { 64 - px } else { 8 };
        let base = self.i as usize;
        if base + rows > MEMORY_SIZE {
            return Err(Chip8Error::OutOfBoundsAccess);
        }
        let ghost s0 = self@;
        let mut collided = false;
        let mut row: usize = 0;
        while row < rows
            invariant
                s0 == old(self)@,
                s0.wf(),
                x < 16,
                y < 16,
                px == s0.v[x as int] % 64,
                py == s0.v[y as int] % 32,
                rows == s0.sprite_rows(y, n),
                cols == if px + 8 > 64 { 64 - px } else { 8 },
                base == s0.i,
                base + rows <= MEMORY_SIZE,
                row <= rows,
                self@ == (Chip8State { display: self@.display, ..s0 }),
                self.wf(),
                forall|cell: int|
                    0 <= cell < 2048 ==> #[trigger] self@.display[cell] == if reached(
                        s0,
                        x,
                        y,
                        n,
                        cell,
                        row as int,
                        0,
                    ) {
                        toggled(s0.display[cell])
                    } else {
                        s0.display[cell]
                    },
                collided == exists|cell: int|
                    #[trigger] reached(s0, x, y, n, cell, row as int, 0) && s0.display[cell] != 0,
            decreases rows - row,
        {
            let byte = self.memory[base + row];
            let mut bit: usize = 0;
            while bit < cols
                invariant
                    s0 == old(self)@,
                    s0.wf(),
                    x < 16,
                    y < 16,
                    px == s0.v[x as int] % 64,
                    py == s0.v[y as int] % 32,
                    rows == s0.sprite_rows(y, n),
                    cols == if px + 8 > 64 { 64 - px } else { 8 },
                    base == s0.i,
                    base + rows <= MEMORY_SIZE,
                    row < rows,
                    bit <= cols,
                    byte == s0.memory[base + row],
                    self@ == (Chip8State { display: self@.display, ..s0 }),
                    self.wf(),
                    forall|cell: int|
                        0 <= cell < 2048 ==> #[trigger] self@.display[cell] == if reached(
                            s0,
                            x,
                            y,
                            n,
                            cell,
                            row as int,
                            bit as int,
                        ) {
                            toggled(s0.display[cell])
                        } else {
                            s0.display[cell]
                        },
                    collided == exists|cell: int|
                        #[trigger] reached(s0, x, y, n, cell, row as int, bit as int)
                            && s0.display[cell] != 0,
                decreases cols - bit,
            {
                let idx: usize = (py + row) * 64 + px + bit;
                proof {
                    lemma_cell_coords((py + row) as int, (px + bit) as int);
                }
                let ghost before = collided;
                if byte & (0x80u8 >> (bit as u8)) != 0 {
                    if self.display[idx] != 0 {
                        self.display[idx] = 0;
                        collided = true;
                    } else {
                        self.display[idx] = PIXEL_ON;
                    }
                }
                proof {
                    assert forall|cell: int|
                        reached(s0, x, y, n, cell, row as int, bit + 1) <==> reached(
                            s0,
                            x,
                            y,
                            n,
                            cell,
                            row as int,
                            bit as int,
                        ) || (cell == idx && s0.draws_cell(x, y, n, cell)) by {
                        if 0 <= cell < 2048 {
                            lemma_cell_split(cell);
                        }
                    }
                    assert(s0.draws_cell(x, y, n, idx as int) == sprite_bit(byte, bit as int));
                    if collided && !before {
                        assert(reached(s0, x, y, n, idx as int, row as int, bit + 1));
                    }
                }
                bit += 1;
            }
            proof {
                assert forall|cell: int|
                    reached(s0, x, y, n, cell, row + 1, 0) <==> reached(
                        s0,
                        x,
                        y,
                        n,
                        cell,
                        row as int,
                        bit as int,
                    ) by {
                    if 0 <= cell < 2048 {
                        lemma_cell_split(cell);
                    }
                }
                if collided {
                    let w = choose|cell: int|
                        #[trigger] reached(s0, x, y, n, cell, row as int, bit as int)
                            && s0.display[cell] != 0;
                    assert(reached(s0, x, y, n, w, row + 1, 0));
                }
                if exists|cell: int|
                    #[trigger] reached(s0, x, y, n, cell, row + 1, 0) && s0.display[cell] != 0 {
                    let w = choose|cell: int|
                        #[trigger] reached(s0, x, y, n, cell, row + 1, 0) && s0.display[cell] != 0;
                    assert(reached(s0, x, y, n, w, row as int, bit as int));
                }
            }
            row += 1;
        }
        proof {
            assert forall|cell: int|
                reached(s0, x, y, n, cell, row as int, 0) <==> s0.draws_cell(x, y, n, cell) by {
                if 0 <= cell < 2048 {
                    lemma_cell_split(cell);
                }
            }
        }
        self.v[15] = if collided { 1 } else { 0 };
        assert(self@ =~= (Chip8State {
            display: s0.drawn_display(x, y, n),
            v: s0.v.update(15, if s0.draw_collides(x, y, n) { 1u8 } else { 0u8 }),
            ..s0
        }));
        Ok(())
    }
    /// Reads the instruction at `pc` and advances `pc` past it.
    fn fetch_next_opcode(&mut self) -> (r: u16)
        requires
            old(self).wf(),
            old(self)@.fetch_ok(),
        ensures
            final(self).wf(),
            r == old(self)@.opcode_at(),
            final(self)@ == old(self)@.with_pc(old(self)@.pc + 2),
    {
        let first_byte = self.memory[self.pc as usize] as u16;
        let second_byte = self.memory[self.pc as usize + 1] as u16;
        self.pc = self.pc + 2;
        assert(self@ =~= old(self)@.with_pc(old(self)@.pc + 2));
        assert((first_byte << 8) | second_byte == first_byte * 256 + second_byte) by (bit_vector)
            requires
                first_byte < 256,
                second_byte < 256,
        ;
        (first_byte << 8) | second_byte
    }

    /// Instructions that move `pc` or the call stack, or clear the display.
    fn execute_flow(&mut self, ins: Instruction, random: u8) -> (r: Result<(), Chip8Error>)
        requires
            old(self).wf(),
            2 <= old(self).pc <= MEMORY_SIZE,
            ins.well_formed(),
            ins is ClearDisplay
                || ins is Return
                || ins is MachineCall
                || ins is Jump
                || ins is Call
                || ins is SkipIfEqualImm
                || ins is SkipIfNotEqualImm
                || ins is SkipIfEqualReg
                || ins is SkipIfNotEqualReg
                || ins is JumpOffset
                || ins is SkipIfKey
                || ins is SkipIfNotKey
                || ins is WaitKey,
        ensures
            final(self).wf(),
            old(self)@.outcome_is(final(self)@, r, old(self)@.execute(ins, random)),
    {
        match ins {
            Instruction::ClearDisplay => {
                self.op_00e0();
                Ok(())
            },
            Instruction::Return => self.op_00ee(),
            Instruction::MachineCall { nnn } => Ok(()),
            Instruction::Jump { nnn } => {
                self.pc = nnn;
                Ok(())
            },
            Instruction::Call { nnn } => self.op_2nnn(nnn),
            Instruction::SkipIfEqualImm { x, nn } => {
                let cond = self.v[x as usize] == nn;
                self.skip_if(cond);
                Ok(())
            },
            Instruction::SkipIfNotEqualImm { x, nn } => {
                let cond = self.v[x as usize] != nn;
                self.skip_if(cond);
                Ok(())
            },
            Instruction::SkipIfEqualReg { x, y } => {
                let cond = self.v[x as usize] == self.v[y as usize];
                self.skip_if(cond);
                Ok(())
            },
            Instruction::SkipIfNotEqualReg { x, y } => {
                let cond = self.v[x as usize] != self.v[y as usize];
                self.skip_if(cond);
                Ok(())
            },
            Instruction::JumpOffset { nnn } => {
                self.pc = nnn + self.v[0] as u16;
                Ok(())
            },
            Instruction::SkipIfKey { x } => {
                let cond = self.key_pressed(self.v[x as usize]);
                self.skip_if(cond);
                Ok(())
            },
            Instruction::SkipIfNotKey { x } => {
                let cond = !self.key_pressed(self.v[x as usize]);
                self.skip_if(cond);
                Ok(())
            },
            Instruction::WaitKey { x } => {
                self.op_fx0a(x);
                Ok(())
            },
            _ => Ok(()),
        }
    }

    /// Instructions that compute a register from registers and constants.
    /// Instructions that compute a register from registers and constants.
    #[verifier::spinoff_prover]
    fn execute_alu(&mut self, ins: Instruction, random: u8) -> (r: Result<(), Chip8Error>)
        requires
            old(self).wf(),
            2 <= old(self).pc <= MEMORY_SIZE,
            ins.well_formed(),
            ins is SetImm
                || ins is AddImm
                || ins is Move
                || ins is Or
                || ins is And
                || ins is Xor
                || ins is Random,
        ensures
            final(self).wf(),
            old(self)@.outcome_is(final(self)@, r, old(self)@.execute(ins, random)),
    {
        match ins {
            Instruction::SetImm { x, nn } => {
                self.set_v(x, nn);
                Ok(())
            },
            Instruction::AddImm { x, nn } => {
                let sum = self.v[x as usize].wrapping_add(nn);
                self.set_v(x, sum);
                Ok(())
            },
            Instruction::Move { x, y } => {
                let value = self.v[y as usize];
                self.set_v(x, value);
                Ok(())
            },
            Instruction::Or { x, y } => {
                let value = self.v[x as usize] | self.v[y as usize];
                self.set_v(x, value);
                Ok(())
            },
            Instruction::And { x, y } => {
                let value = self.v[x as usize] & self.v[y as usize];
                self.set_v(x, value);
                Ok(())
            },
            Instruction::Xor { x, y } => {
                let value = self.v[x as usize] ^ self.v[y as usize];
                self.set_v(x, value);
                Ok(())
            },
            Instruction::Random { x, nn } => {
                self.set_v(x, random & nn);
                Ok(())
            },
            _ => Ok(()),
        }
    }

    /// Arithmetic and shifts that also set the flag register.
    #[verifier::spinoff_prover]
    fn execute_flagged(&mut self, ins: Instruction, random: u8) -> (r: Result<(), Chip8Error>)
        requires
            old(self).wf(),
            2 <= old(self).pc <= MEMORY_SIZE,
            ins.well_formed(),
            ins is AddReg
                || ins is SubReg
                || ins is ShiftRight
                || ins is SubReverse
                || ins is ShiftLeft,
        ensures
            final(self).wf(),
            old(self)@.outcome_is(final(self)@, r, old(self)@.execute(ins, random)),
    {
        match ins {
            Instruction::AddReg { x, y } => {
                self.op_8xy4(x, y);
                Ok(())
            },
            Instruction::SubReg { x, y } => {
                self.op_8xy5(x, y);
                Ok(())
            },
            Instruction::ShiftRight { x, y } => {
                self.op_8xy6(x, y);
                Ok(())
            },
            Instruction::SubReverse { x, y } => {
                self.op_8xy7(x, y);
                Ok(())
            },
            Instruction::ShiftLeft { x, y } => {
                self.op_8xye(x, y);
                Ok(())
            },
            _ => Ok(()),
        }
    }

    #[verifier::spinoff_prover]
    #[verifier::rlimit(60)]
    fn execute_misc(&mut self, ins: Instruction, random: u8) -> (r: Result<(), Chip8Error>)
        requires
            old(self).wf(),
            2 <= old(self).pc <= MEMORY_SIZE,
            ins.well_formed(),
            ins is SetIndex
                || ins is Draw
                || ins is ReadDelay
                || ins is SetDelay
                || ins is SetSound
                || ins is AddIndex
                || ins is FontGlyph
                || ins is StoreBcd
                || ins is StoreRegisters
                || ins is LoadRegisters,
        ensures
            final(self).wf(),
            old(self)@.outcome_is(final(self)@, r, old(self)@.execute(ins, random)),
    {
        match ins {
            Instruction::SetIndex { nnn } => {
                self.i = nnn;
                Ok(())
            },
            Instruction::Draw { x, y, n } => self.op_dxyn(x, y, n),
            Instruction::ReadDelay { x } => {
                let value = self.delay_timer;
                self.set_v(x, value);
                Ok(())
            },
            Instruction::SetDelay { x } => {
                self.delay_timer = self.v[x as usize];
                Ok(())
            },
            Instruction::SetSound { x } => {
                self.sound_timer = self.v[x as usize];
                Ok(())
            },
            Instruction::AddIndex { x } => {
                self.i = self.i.wrapping_add(self.v[x as usize] as u16);
                Ok(())
            },
            Instruction::FontGlyph { x } => {
                let value = self.v[x as usize];
                let digit = value & 0xF;
                assert(digit == value % 16) by (bit_vector)
                    requires
                        digit == value & 0xF,
                ;
                self.i = FONT_START as u16 + 5 * digit as u16;
                Ok(())
            },
            Instruction::StoreBcd { x } => self.op_fx33(x),
            Instruction::StoreRegisters { x } => self.op_fx55(x),
            Instruction::LoadRegisters { x } => self.op_fx65(x),
            _ => Ok(()),
        }
    }

    /// Carries out `ins` on a machine whose `pc` already points past it.
    fn execute(&mut self, ins: Instruction, random: u8) -> (r: Result<(), Chip8Error>)
        requires
            old(self).wf(),
            2 <= old(self).pc <= MEMORY_SIZE,
            ins.well_formed(),
            !(ins is Unknown),
        ensures
            final(self).wf(),
            old(self)@.outcome_is(final(self)@, r, old(self)@.execute(ins, random)),
    {
        match ins {
            Instruction::ClearDisplay { .. }
            | Instruction::Return { .. }
            | Instruction::MachineCall { .. }
            | Instruction::Jump { .. }
            | Instruction::Call { .. }
            | Instruction::SkipIfEqualImm { .. }
            | Instruction::SkipIfNotEqualImm { .. }
            | Instruction::SkipIfEqualReg { .. }
            | Instruction::SkipIfNotEqualReg { .. }
            | Instruction::JumpOffset { .. }
            | Instruction::SkipIfKey { .. }
            | Instruction::SkipIfNotKey { .. }
            | Instruction::WaitKey { .. } => self.execute_flow(ins, random),
            Instruction::SetImm { .. }
            | Instruction::AddImm { .. }
            | Instruction::Move { .. }
            | Instruction::Or { .. }
            | Instruction::And { .. }
            | Instruction::Xor { .. }
            | Instruction::Random { .. } => self.execute_alu(ins, random),
            Instruction::AddReg { .. }
            | Instruction::SubReg { .. }
            | Instruction::ShiftRight { .. }
            | Instruction::SubReverse { .. }
            | Instruction::ShiftLeft { .. } => self.execute_flagged(ins, random),
            _ => self.execute_misc(ins, random),
        }
    }

    /// Fetches, decodes and executes one instruction; `random` is the byte
    /// that `Cxnn` masks. A fault other than an unknown opcode leaves the
    /// machine as it was; an unknown opcode is skipped and reported.
    pub fn step(&mut self, random: u8) -> (r: Result<(), Chip8Error>)
        requires
            old(self).wf(),
        ensures
            final(self).wf(),
            (final(self)@, r) == old(self)@.step(random),
    {
        if self.pc as usize + 1 >= MEMORY_SIZE {
            return Err(Chip8Error::OutOfBoundsAccess);
        }
        let start = self.pc;
        let opcode = self.fetch_next_opcode();
        let ins = Instruction::decode(opcode);
        match ins {
            Instruction::Unknown { opcode } => {
                Err(Chip8Error::UnknownOpcode(opcode))
            },
            _ => {
                let r = self.execute(ins, random);
                if r.is_err() {
                    self.pc = start;
                    assert(self@ =~= old(self)@);
                }
                r
            },
        }
    }

    /// Executes one instruction, drawing the byte for `Cxnn` at random.
    pub fn run(&mut self) -> (r: Result<(), Chip8Error>)
        requires
            old(self).wf(),
        ensures
            final(self).wf(),
            exists|random: u8| (final(self)@, r) == old(self)@.step(random),
    {
        let random = random_byte();
        self.step(random)
    }

    /// The display cells, row-major; each is 0 or `PIXEL_ON`.
    pub fn get_display(&self) -> (r: &[u32; DISPLAY_SIZE])
        ensures
            r@ == self@.display,
    {
        &self.display
    }

    /// The whole of memory.
    pub fn memory(&self) -> (r: &[u8; MEMORY_SIZE])
        ensures
            r@ == self@.memory,
    {
        &self.memory
    }

    /// Register `V[x]`.
    pub fn register(&self, x: usize) -> (r: u8)
        requires
            self.wf(),
            x < 16,
        ensures
            r == self@.v[x as int],
    {
        self.v[x]
    }

    /// The program counter.
    pub fn pc(&self) -> (r: u16)
        ensures
            r == self@.pc,
    {
        self.pc
    }

    /// The index register `I`.
    pub fn index(&self) -> (r: u16)
        ensures
            r == self@.i,
    {
        self.i
    }

    /// Number of return addresses on the call stack.
    pub fn stack_depth(&self) -> (r: usize)
        ensures
            r == self@.stack.len(),
    {
        self.stack.len()
    }

    pub fn delay_timer(&self) -> (r: u8)
        ensures
            r == self@.delay_timer,
    {
        self.delay_timer
    }

    pub fn sound_timer(&self) -> (r: u8)
        ensures
            r == self@.sound_timer,
    {
        self.sound_timer
    }

    /// Whether the host should be playing the tone.
    pub fn is_sound_active(&self) -> (r: bool)
        ensures
            r == self@.sound_active(),
    {
        self.sound_timer > 0
    }
}

} // verus!
