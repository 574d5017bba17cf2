//! The machine state as a mathematical value, and the effect of each
//! instruction on it.

use vstd::prelude::*;
use crate::instruction::{Instruction, decode_spec};

verus! {

/// Bytes of addressable memory.
pub const MEMORY_SIZE: usize = 4096;

/// Address of the first byte of the font table.
pub const FONT_START: usize = 0x50;

/// Bytes in the font table: sixteen glyphs of five rows.
pub const FONT_SIZE: usize = 80;

/// Address at which programs are loaded and execution starts.
pub const PROGRAM_START: usize = 0x200;

/// Largest program that fits in memory.
pub const MAX_PROGRAM_SIZE: usize = 3584;

/// Most return addresses the call stack holds.
pub const STACK_LIMIT: usize = 16;

/// Number of logical keys.
pub const KEY_COUNT: usize = 16;

/// Intensity of a lit display cell; an unlit cell holds 0.
pub const PIXEL_ON: u32 = 0xFF;

/// The glyphs of the hexadecimal digits 0 to F, five rows of each.
pub const FONT: [u8; 80] = [
    0xF0, 0x90, 0x90, 0x90, 0xF0, // 0
    0x20, 0x60, 0x20, 0x20, 0x70, // 1
    0xF0, 0x10, 0xF0, 0x80, 0xF0, // 2
    0xF0, 0x10, 0xF0, 0x10, 0xF0, // 3
    0x90, 0x90, 0xF0, 0x10, 0x10, // 4
    0xF0, 0x80, 0xF0, 0x10, 0xF0, // 5
    0xF0, 0x80, 0xF0, 0x90, 0xF0, // 6
    0xF0, 0x10, 0x20, 0x40, 0x40, // 7
    0xF0, 0x90, 0xF0, 0x90, 0xF0, // 8
    0xF0, 0x90, 0xF0, 0x10, 0xF0, // 9
    0xF0, 0x90, 0xF0, 0x90, 0x90, // A
    0xE0, 0x90, 0xE0, 0x90, 0xE0, // B
    0xF0, 0x80, 0x80, 0x80, 0xF0, // C
    0xE0, 0x90, 0x90, 0x90, 0xE0, // D
    0xF0, 0x80, 0xF0, 0x80, 0xF0, // E
    0xF0, 0x80, 0xF0, 0x80, 0x80, // F
];

/// Which register the shift instructions `8xy6` and `8xyE` read.
#[derive(Clone, Copy, Debug, PartialEq, Eq, Structural)]
pub enum ShiftQuirk {
    /// COSMAC VIP: `V[x]` receives the shifted value of `V[y]`.
    FromVy,
    /// Later interpreters: `V[x]` is shifted in place and `V[y]` is ignored.
    InPlace,
}

/// The faults that loading a program or executing a step can report.
#[derive(Clone, Copy, Debug, PartialEq, Eq, Structural)]
pub enum Chip8Error {
    /// The program does not fit in memory above the program start.
    LoadError,
    /// A call with sixteen return addresses already on the stack.
    StackOverflow,
    /// A return with an empty stack.
    StackUnderflow,
    /// A fetch or a memory operation reached an address past the end of memory.
    OutOfBoundsAccess,
    /// The opcode encodes no instruction; the step skipped it.
    UnknownOpcode(u16),
}

/// The whole observable state of the machine.
#[verifier::ext_equal]
pub struct Chip8State {
    pub memory: Seq<u8>,
    /// Row-major, `DISPLAY_WIDTH` cells per row, each 0 or `PIXEL_ON`.
    pub display: Seq<u32>,
    /// Return addresses, the most recent last.
    pub stack: Seq<u16>,
    pub v: Seq<u8>,
    pub i: u16,
    pub pc: u16,
    pub delay_timer: u8,
    pub sound_timer: u8,
    /// Pressed state of each logical key, indexed by key code.
    pub keys: Seq<bool>,
    /// Whether the key wait in progress has seen a step with no key pressed.
    pub key_released: bool,
    pub shift_quirk: ShiftQuirk,
}

/// Whether bit `k` of a sprite row is set, bit 0 being the most significant.
pub open spec fn sprite_bit(row: u8, k: int) -> bool {
    row & (0x80u8 >> (k as u8)) != 0
}

/// The lowest key code at or above `from` whose key is pressed, or the
/// length of `keys` when there is none.
pub open spec fn first_pressed(keys: Seq<bool>, from: int) -> int
    decreases keys.len() - from,
{
    if from >= keys.len() {
        keys.len() as int
    } else if from >= 0 && keys[from] {
        from
    } else {
        first_pressed(keys, from + 1)
    }
}

/// The font table as a sequence.
pub open spec fn font_seq() -> Seq<u8> {
    FONT@
}

impl Chip8State {
    pub open spec fn wf(self) -> bool {
        &&& self.memory.len() == MEMORY_SIZE
        &&& self.display.len() == 2048
        &&& self.stack.len() <= STACK_LIMIT
        &&& self.v.len() == 16
        &&& self.keys.len() == KEY_COUNT
        &&& forall|k: int|
            0 <= k < 2048 ==> #[trigger] self.display[k] == 0 || self.display[k] == PIXEL_ON
    }

    /// The state of a machine just constructed.
    pub open spec fn initial() -> Chip8State {
        Chip8State {
            memory: Seq::new(
                MEMORY_SIZE as nat,
                |a: int|
                    if FONT_START <= a < FONT_START + FONT_SIZE {
                        font_seq()[a - FONT_START]
                    } else {
                        0u8
                    },
            ),
            display: Seq::new(2048, |k: int| 0u32),
            stack: Seq::empty(),
            v: Seq::new(16, |k: int| 0u8),
            i: 0,
            pc: PROGRAM_START as u16,
            delay_timer: 0,
            sound_timer: 0,
            keys: Seq::new(KEY_COUNT as nat, |k: int| false),
            key_released: false,
            shift_quirk: ShiftQuirk::FromVy,
        }
    }

    /// Memory after copying `rom` to the program start.
    pub open spec fn loaded(self, rom: Seq<u8>) -> Chip8State {
        Chip8State {
            memory: Seq::new(
                self.memory.len(),
                |a: int|
                    if PROGRAM_START <= a < PROGRAM_START + rom.len() {
                        rom[a - PROGRAM_START]
                    } else {
                        self.memory[a]
                    },
            ),
            ..self
        }
    }

    /// Both timers one tick later.
    pub open spec fn ticked(self) -> Chip8State {
        Chip8State {
            delay_timer: if self.delay_timer > 0 { (self.delay_timer - 1) as u8 } else { 0 },
            sound_timer: if self.sound_timer > 0 { (self.sound_timer - 1) as u8 } else { 0 },
            ..self
        }
    }

    pub open spec fn sound_active(self) -> bool {
        self.sound_timer > 0
    }

    pub open spec fn key_pressed(self, code: int) -> bool {
        0 <= code < KEY_COUNT && self.keys[code]
    }

    pub open spec fn with_pc(self, pc: int) -> Chip8State {
        Chip8State { pc: pc as u16, ..self }
    }

    pub open spec fn with_v(self, x: int, value: u8) -> Chip8State {
        Chip8State { v: self.v.update(x, value), ..self }
    }

    /// `V[x] = value`, then `VF = flag`.
    pub open spec fn with_v_flag(self, x: int, value: u8, flag: u8) -> Chip8State {
        Chip8State { v: self.v.update(x, value).update(15, flag), ..self }
    }

    /// Skips the next instruction when `cond` holds.
    pub open spec fn skip_if(self, cond: bool) -> Chip8State {
        if cond {
            self.with_pc(self.pc + 2)
        } else {
            self
        }
    }

    /// Whether the two bytes of an instruction at `pc` lie in memory.
    pub open spec fn fetch_ok(self) -> bool {
        self.pc + 1 < MEMORY_SIZE
    }

    /// The opcode at `pc`, high byte first.
    pub open spec fn opcode_at(self) -> u16 {
        (self.memory[self.pc as int] as int * 256 + self.memory[self.pc + 1] as int) as u16
    }

    /// Number of sprite rows that a `Dxyn` reads: those above the bottom edge.
    pub open spec fn sprite_rows(self, y: u8, n: u8) -> int {
        let py = self.v[y as int] % 32;
        if n + py > 32 {
            32 - py
        } else {
            n as int
        }
    }

    /// Whether `Dxyn` reaches display cell `cell` with a set sprite bit.
    pub open spec fn draws_cell(self, x: u8, y: u8, n: u8, cell: int) -> bool {
        let px = self.v[x as int] % 64;
        let py = self.v[y as int] % 32;
        let r = cell / 64;
        let c = cell % 64;
        &&& 0 <= cell < 2048
        &&& py <= r < py + n
        &&& px <= c < px + 8
        &&& sprite_bit(self.memory[self.i + (r - py)], c - px)
    }

    /// The display after `Dxyn`: each reached cell is toggled.
    pub open spec fn drawn_display(self, x: u8, y: u8, n: u8) -> Seq<u32> {
        Seq::new(
            2048,
            |cell: int|
                if self.draws_cell(x, y, n, cell) {
                    if self.display[cell] != 0 {
                        0u32
                    } else {
                        PIXEL_ON
                    }
                } else {
                    self.display[cell]
                },
        )
    }

    /// Whether `Dxyn` turns off a lit cell.
    pub open spec fn draw_collides(self, x: u8, y: u8, n: u8) -> bool {
        exists|cell: int| #[trigger] self.draws_cell(x, y, n, cell) && self.display[cell] != 0
    }

    /// The effect of `ins` on a state whose `pc` already points past it.
    /// `random` is the byte that `Cxnn` uses.
    pub open spec fn execute(self, ins: Instruction, random: u8) -> Result<Chip8State, Chip8Error> {
        match ins {
            Instruction::ClearDisplay => Ok(Chip8State { display: Seq::new(2048, |k: int| 0u32), ..self }),
            Instruction::Return => if self.stack.len() == 0 {
                Err(Chip8Error::StackUnderflow)
            } else {
                Ok(Chip8State { pc: self.stack.last(), stack: self.stack.drop_last(), ..self })
            },
            Instruction::MachineCall { nnn } => Ok(self),
            Instruction::Jump { nnn } => Ok(self.with_pc(nnn as int)),
            Instruction::Call { nnn } => if self.stack.len() >= STACK_LIMIT {
                Err(Chip8Error::StackOverflow)
            } else {
                Ok(Chip8State { stack: self.stack.push(self.pc), pc: nnn, ..self })
            },
            Instruction::SkipIfEqualImm { x, nn } => Ok(self.skip_if(self.v[x as int] == nn)),
            Instruction::SkipIfNotEqualImm { x, nn } => Ok(self.skip_if(self.v[x as int] != nn)),
            Instruction::SkipIfEqualReg { x, y } => Ok(self.skip_if(self.v[x as int] == self.v[y as int])),
            Instruction::SetImm { x, nn } => Ok(self.with_v(x as int, nn)),
            Instruction::AddImm { x, nn } => Ok(self.with_v(x as int, ((self.v[x as int] + nn) % 256) as u8)),
            Instruction::Move { x, y } => Ok(self.with_v(x as int, self.v[y as int])),
            Instruction::Or { x, y } => Ok(self.with_v(x as int, self.v[x as int] | self.v[y as int])),
            Instruction::And { x, y } => Ok(self.with_v(x as int, self.v[x as int] & self.v[y as int])),
            Instruction::Xor { x, y } => Ok(self.with_v(x as int, self.v[x as int] ^ self.v[y as int])),
            Instruction::AddReg { x, y } => {
                let sum = self.v[x as int] + self.v[y as int];
                Ok(self.with_v_flag(x as int, (sum % 256) as u8, if sum > 255 { 1 } else { 0 }))
            },
            Instruction::SubReg { x, y } => {
                let a = self.v[x as int];
                let b = self.v[y as int];
                Ok(self.with_v_flag(x as int, ((a - b + 256) % 256) as u8, if a >= b { 1 } else { 0 }))
            },
            Instruction::SubReverse { x, y } => {
                let a = self.v[x as int];
                let b = self.v[y as int];
                Ok(self.with_v_flag(x as int, ((b - a + 256) % 256) as u8, if b >= a { 1 } else { 0 }))
            },
            Instruction::ShiftRight { x, y } => {
                let src = if self.shift_quirk == ShiftQuirk::FromVy { self.v[y as int] } else { self.v[x as int] };
                Ok(self.with_v_flag(x as int, src / 2, src % 2))
            },
            Instruction::ShiftLeft { x, y } => {
                let src = if self.shift_quirk == ShiftQuirk::FromVy { self.v[y as int] } else { self.v[x as int] };
                Ok(self.with_v_flag(x as int, ((src * 2) % 256) as u8, src / 128))
            },
            Instruction::SkipIfNotEqualReg { x, y } => Ok(self.skip_if(self.v[x as int] != self.v[y as int])),
            Instruction::SetIndex { nnn } => Ok(Chip8State { i: nnn, ..self }),
            Instruction::JumpOffset { nnn } => Ok(self.with_pc(nnn + self.v[0])),
            Instruction::Random { x, nn } => Ok(self.with_v(x as int, random & nn)),
            Instruction::Draw { x, y, n } => if self.i + self.sprite_rows(y, n) > MEMORY_SIZE {
                Err(Chip8Error::OutOfBoundsAccess)
            } else {
                Ok(Chip8State {
                    display: self.drawn_display(x, y, n),
                    v: self.v.update(15, if self.draw_collides(x, y, n) { 1u8 } else { 0u8 }),
                    ..self
                })
            },
            Instruction::SkipIfKey { x } => Ok(self.skip_if(self.key_pressed(self.v[x as int] as int))),
            Instruction::SkipIfNotKey { x } => Ok(self.skip_if(!self.key_pressed(self.v[x as int] as int))),
            Instruction::ReadDelay { x } => Ok(self.with_v(x as int, self.delay_timer)),
            Instruction::WaitKey { x } => {
                let k = first_pressed(self.keys, 0);
                if k >= KEY_COUNT {
                    Ok(Chip8State { pc: (self.pc - 2) as u16, key_released: true, ..self })
                } else if self.key_released {
                    Ok(Chip8State { v: self.v.update(x as int, k as u8), key_released: false, ..self })
                } else {
                    Ok(self.with_pc(self.pc - 2))
                }
            },
            Instruction::SetDelay { x } => Ok(Chip8State { delay_timer: self.v[x as int], ..self }),
            Instruction::SetSound { x } => Ok(Chip8State { sound_timer: self.v[x as int], ..self }),
            Instruction::AddIndex { x } => Ok(Chip8State { i: ((self.i + self.v[x as int]) % 0x10000) as u16, ..self }),
            Instruction::FontGlyph { x } => Ok(Chip8State { i: (FONT_START + 5 * (self.v[x as int] % 16)) as u16, ..self }),
            Instruction::StoreBcd { x } => if self.i + 2 >= MEMORY_SIZE {
                Err(Chip8Error::OutOfBoundsAccess)
            } else {
                let val = self.v[x as int];
                Ok(Chip8State {
                    memory: self.memory
                        .update(self.i as int, val / 100)
                        .update(self.i + 1, (val / 10) % 10)
                        .update(self.i + 2, val % 10),
                    ..self
                })
            },
            Instruction::StoreRegisters { x } => if self.i + x >= MEMORY_SIZE {
                Err(Chip8Error::OutOfBoundsAccess)
            } else {
                Ok(Chip8State {
                    memory: Seq::new(
                        self.memory.len(),
                        |a: int| if self.i <= a <= self.i + x { self.v[a - self.i] } else { self.memory[a] },
                    ),
                    ..self
                })
            },
            Instruction::LoadRegisters { x } => if self.i + x >= MEMORY_SIZE {
                Err(Chip8Error::OutOfBoundsAccess)
            } else {
                Ok(Chip8State {
                    v: Seq::new(16, |j: int| if j <= x { self.memory[self.i + j] } else { self.v[j] }),
                    ..self
                })
            },
            Instruction::Unknown { opcode } => Ok(self),
        }
    }

    /// Whether `post` and `r` are what `expected` describes, a fault leaving
    /// the state as it was in `self`.
    pub open spec fn outcome_is(
        self,
        post: Chip8State,
        r: Result<(), Chip8Error>,
        expected: Result<Chip8State, Chip8Error>,
    ) -> bool {
        match expected {
            Ok(t) => r == Ok::<(), Chip8Error>(()) && post == t,
            Err(e) => r == Err::<(), Chip8Error>(e) && post == self,
        }
    }

    /// One fetch-decode-execute step. A structural fault leaves the state as it
    /// was; an unknown opcode is skipped and reported.
    pub open spec fn step(self, random: u8) -> (Chip8State, Result<(), Chip8Error>) {
        if !self.fetch_ok() {
            (self, Err(Chip8Error::OutOfBoundsAccess))
        } else {
            let ins = decode_spec(self.opcode_at());
            let next = self.with_pc(self.pc + 2);
            match ins {
                Instruction::Unknown { opcode } => (next, Err(Chip8Error::UnknownOpcode(opcode))),
                _ => match next.execute(ins, random) {
                    Ok(t) => (t, Ok(())),
                    Err(e) => (self, Err(e)),
                },
            }
        }
    }
}

/// A row and a column name one display cell, and back.
pub proof fn lemma_cell_coords(r: int, c: int)
    requires
        0 <= r < 32,
        0 <= c < 64,
    ensures
        (r * 64 + c) / 64 == r,
        (r * 64 + c) % 64 == c,
        0 <= r * 64 + c < 2048,
{
    vstd::arithmetic::div_mod::lemma_fundamental_div_mod_converse(r * 64 + c, 64, r, c);
}

/// Every display cell has a row and a column.
pub proof fn lemma_cell_split(cell: int)
    requires
        0 <= cell < 2048,
    ensures
        cell == (cell / 64) * 64 + cell % 64,
        0 <= cell / 64 < 32,
        0 <= cell % 64 < 64,
{
    vstd::arithmetic::div_mod::lemma_fundamental_div_mod(cell, 64);
}

} // verus!
