//! Properties of the machine that relate several operations or hold of
//! every input, proved over the model.

use vstd::prelude::*;
use crate::instruction::{Instruction, decode_spec, op_group, op_n, op_nn, op_nnn, op_x, op_y};
use crate::model::{
    font_seq, lemma_cell_coords, sprite_bit, Chip8Error, Chip8State, FONT_SIZE, FONT_START,
    MAX_PROGRAM_SIZE, PROGRAM_START, STACK_LIMIT,
};

verus! {

/// Loading a program that fits copies its bytes to the program start and
/// leaves every other byte of memory as it was.
pub proof fn lemma_load_copies_program(s: Chip8State, rom: Seq<u8>)
    requires
        s.wf(),
        rom.len() <= MAX_PROGRAM_SIZE,
    ensures
        s.loaded(rom).wf(),
        forall|k: int| 0 <= k < rom.len() ==> #[trigger] s.loaded(rom).memory[PROGRAM_START + k] == rom[k],
        forall|a: int|
            0 <= a < s.memory.len() && !(PROGRAM_START <= a < PROGRAM_START + rom.len())
                ==> #[trigger] s.loaded(rom).memory[a] == s.memory[a],
{
}

/// Right after construction the font table sits at its place in memory.
pub proof fn lemma_initial_font()
    ensures
        Chip8State::initial().wf(),
        Chip8State::initial().memory.subrange(FONT_START as int, FONT_START + FONT_SIZE) == font_seq(),
{
    assert(Chip8State::initial().memory.subrange(FONT_START as int, FONT_START + FONT_SIZE)
        =~= font_seq());
}

/// Whether the instruction at `pc` stores into memory at addresses that
/// overlap the font table.
pub open spec fn stores_into_font(s: Chip8State) -> bool {
    let ins = decode_spec(s.opcode_at());
    let font_end = FONT_START + FONT_SIZE;
    match ins {
        Instruction::StoreBcd { x } => s.i < font_end && s.i + 2 >= FONT_START,
        Instruction::StoreRegisters { x } => s.i < font_end && s.i + x >= FONT_START,
        _ => false,
    }
}

/// Whether the font table is in place in `s`.
pub open spec fn font_intact(s: Chip8State) -> bool {
    s.memory.subrange(FONT_START as int, FONT_START + FONT_SIZE) == font_seq()
}

/// No step alters the font table, unless its instruction stores registers
/// or decimal digits at addresses inside it; loading a program and timer
/// ticks never do.
pub proof fn lemma_font_preserved(s: Chip8State, random: u8, rom: Seq<u8>)
    requires
        s.wf(),
        font_intact(s),
    ensures
        !stores_into_font(s) ==> font_intact(s.step(random).0),
        font_intact(s.loaded(rom)),
        font_intact(s.ticked()),
{
    let t = s.step(random).0;
    if !stores_into_font(s) {
        assert(t.memory.subrange(FONT_START as int, FONT_START + FONT_SIZE) =~= s.memory.subrange(
            FONT_START as int,
            FONT_START + FONT_SIZE,
        ));
    }
    assert(s.loaded(rom).memory.subrange(FONT_START as int, FONT_START + FONT_SIZE)
        =~= s.memory.subrange(FONT_START as int, FONT_START + FONT_SIZE));
    assert(s.ticked().memory =~= s.memory);
}

/// `6xnn` sets `V[x]` to `nn` and moves past itself; no other register,
/// the flag included, changes.
pub proof fn lemma_set_immediate(s: Chip8State, random: u8, x: u8, nn: u8)
    requires
        s.wf(),
        s.fetch_ok(),
        op_group(s.opcode_at()) == 6,
        op_x(s.opcode_at()) == x,
        op_nn(s.opcode_at()) == nn,
    ensures
        s.step(random).1 == Ok::<(), Chip8Error>(()),
        s.step(random).0 == (Chip8State { v: s.v.update(x as int, nn), pc: (s.pc + 2) as u16, ..s }),
        forall|k: int| 0 <= k < 16 && k != x ==> #[trigger] s.step(random).0.v[k] == s.v[k],
{
}

/// `7xnn` adds `nn` to `V[x]` modulo 256 and leaves the flag register alone
/// unless it is itself `V[x]`.
pub proof fn lemma_add_immediate(s: Chip8State, random: u8, x: u8, nn: u8)
    requires
        s.wf(),
        s.fetch_ok(),
        op_group(s.opcode_at()) == 7,
        op_x(s.opcode_at()) == x,
        op_nn(s.opcode_at()) == nn,
    ensures
        s.step(random).1 == Ok::<(), Chip8Error>(()),
        s.step(random).0 == (Chip8State {
            v: s.v.update(x as int, ((s.v[x as int] + nn) % 256) as u8),
            pc: (s.pc + 2) as u16,
            ..s
        }),
        x != 15 ==> s.step(random).0.v[15] == s.v[15],
{
}

/// `8xy4` with `V[x] = a` and `V[y] = b` leaves `(a + b) mod 256` in `V[x]`
/// and sets the flag exactly when `a + b > 255`. When `x` is the flag
/// register the flag write wins, so `x` is another register here.
pub proof fn lemma_add_registers(s: Chip8State, random: u8, x: u8, y: u8, a: u8, b: u8)
    requires
        s.wf(),
        s.fetch_ok(),
        op_group(s.opcode_at()) == 8,
        op_n(s.opcode_at()) == 4,
        op_x(s.opcode_at()) == x,
        op_y(s.opcode_at()) == y,
        x != 15,
        s.v[x as int] == a,
        s.v[y as int] == b,
    ensures
        s.step(random).1 == Ok::<(), Chip8Error>(()),
        s.step(random).0.v[x as int] == (a + b) % 256,
        s.step(random).0.v[15] == if a + b > 255 { 1u8 } else { 0u8 },
{
}

/// `8xy5` with `V[x] = a` and `V[y] = b` leaves `(a - b) mod 256` in `V[x]`
/// and sets the flag exactly when `a >= b`. When `x` is the flag register
/// the flag write wins, so `x` is another register here.
pub proof fn lemma_sub_registers(s: Chip8State, random: u8, x: u8, y: u8, a: u8, b: u8)
    requires
        s.wf(),
        s.fetch_ok(),
        op_group(s.opcode_at()) == 8,
        op_n(s.opcode_at()) == 5,
        op_x(s.opcode_at()) == x,
        op_y(s.opcode_at()) == y,
        x != 15,
        s.v[x as int] == a,
        s.v[y as int] == b,
    ensures
        s.step(random).1 == Ok::<(), Chip8Error>(()),
        s.step(random).0.v[x as int] == (a - b + 256) % 256,
        s.step(random).0.v[15] == if a >= b { 1u8 } else { 0u8 },
{
}

/// A `2nnn` followed by the `00EE` at `nnn` brings `pc` back to just past
/// the call and the stack back to what it was.
pub proof fn lemma_call_return(s: Chip8State, random: u8)
    requires
        s.wf(),
        s.fetch_ok(),
        op_group(s.opcode_at()) == 2,
        s.stack.len() < STACK_LIMIT,
        op_nnn(s.opcode_at()) + 1 < s.memory.len(),
        s.memory[op_nnn(s.opcode_at()) as int] == 0x00,
        s.memory[op_nnn(s.opcode_at()) + 1] == 0xEE,
    ensures
        s.step(random).1 == Ok::<(), Chip8Error>(()),
        s.step(random).0.step(random).1 == Ok::<(), Chip8Error>(()),
        s.step(random).0.step(random).0.pc == s.pc + 2,
        s.step(random).0.step(random).0.stack == s.stack,
{
    let t = s.step(random).0;
    assert(t.opcode_at() == 0x00EE);
    assert(t.stack.drop_last() =~= s.stack);
}

/// A call with sixteen return addresses on the stack fails with
/// `StackOverflow`; one with fewer pushes one more. A return with an empty
/// stack fails with `StackUnderflow`. A failed step changes nothing.
pub proof fn lemma_stack_limits(s: Chip8State, random: u8)
    requires
        s.wf(),
        s.fetch_ok(),
    ensures
        op_group(s.opcode_at()) == 2 && s.stack.len() == STACK_LIMIT ==> s.step(random) == (
        s,
        Err::<(), Chip8Error>(Chip8Error::StackOverflow),
        ),
        op_group(s.opcode_at()) == 2 && s.stack.len() < STACK_LIMIT ==> s.step(random).0.stack.len()
            == s.stack.len() + 1,
        s.opcode_at() == 0x00EE && s.stack.len() == 0 ==> s.step(random) == (
        s,
        Err::<(), Chip8Error>(Chip8Error::StackUnderflow),
        ),
{
}

/// Drawing the same sprite twice at the same place gives back the display
/// it started from: every cell the first draw lit is dark again, and the
/// second draw sets the flag exactly when the first lit at least one cell.
/// The first draw writes the flag register, so the coordinates are held in
/// other registers.
pub proof fn lemma_draw_twice(s: Chip8State, x: u8, y: u8, n: u8)
    requires
        s.wf(),
        x < 15,
        y < 15,
        n < 16,
        s.execute(Instruction::Draw { x, y, n }, 0) is Ok,
    ensures
        ({
            let ins = Instruction::Draw { x, y, n };
            let t = s.execute(ins, 0)->Ok_0;
            let u = t.execute(ins, 0)->Ok_0;
            &&& t.execute(ins, 0) is Ok
            &&& u.display == s.display
            &&& forall|cell: int|
                #![trigger s.draws_cell(x, y, n, cell)]
                s.draws_cell(x, y, n, cell) && s.display[cell] == 0 ==> t.display[cell] != 0
                    && u.display[cell] == 0
            &&& (u.v[15] == 1) == (exists|cell: int|
                #[trigger] s.draws_cell(x, y, n, cell) && s.display[cell] == 0)
            &&& u.v[15] == 1 || u.v[15] == 0
        }),
{
    let ins = Instruction::Draw { x, y, n };
    let t = s.execute(ins, 0)->Ok_0;
    assert forall|cell: int| #[trigger] t.draws_cell(x, y, n, cell) == s.draws_cell(x, y, n, cell) by {}
    let u = t.execute(ins, 0)->Ok_0;
    assert(u.display =~= s.display);
    if exists|cell: int| #[trigger] s.draws_cell(x, y, n, cell) && s.display[cell] == 0 {
        let w = choose|cell: int| #[trigger] s.draws_cell(x, y, n, cell) && s.display[cell] == 0;
        assert(t.draws_cell(x, y, n, w) && t.display[w] != 0);
    }
    if t.draw_collides(x, y, n) {
        let w = choose|cell: int| #[trigger] t.draws_cell(x, y, n, cell) && t.display[cell] != 0;
        assert(s.draws_cell(x, y, n, w) && s.display[w] == 0);
    }
}

/// Two draws whose set sprite bits reach no common cell, on cells that were
/// dark, never set the flag.
pub proof fn lemma_draw_disjoint(s: Chip8State, x1: u8, y1: u8, n1: u8, x2: u8, y2: u8, n2: u8)
    requires
        s.wf(),
        x1 < 16 && y1 < 16 && n1 < 16,
        x2 < 16 && y2 < 16 && n2 < 16,
        s.execute(Instruction::Draw { x: x1, y: y1, n: n1 }, 0) is Ok,
        ({
            let t = s.execute(Instruction::Draw { x: x1, y: y1, n: n1 }, 0)->Ok_0;
            &&& t.execute(Instruction::Draw { x: x2, y: y2, n: n2 }, 0) is Ok
            &&& forall|cell: int|
                #[trigger] s.draws_cell(x1, y1, n1, cell) ==> s.display[cell] == 0
            &&& forall|cell: int|
                #[trigger] t.draws_cell(x2, y2, n2, cell) ==> s.display[cell] == 0
                    && !s.draws_cell(x1, y1, n1, cell)
        }),
    ensures
        ({
            let t = s.execute(Instruction::Draw { x: x1, y: y1, n: n1 }, 0)->Ok_0;
            let u = t.execute(Instruction::Draw { x: x2, y: y2, n: n2 }, 0)->Ok_0;
            t.v[15] == 0 && u.v[15] == 0
        }),
{
    let t = s.execute(Instruction::Draw { x: x1, y: y1, n: n1 }, 0)->Ok_0;
    if t.draw_collides(x2, y2, n2) {
        let w = choose|cell: int| #[trigger] t.draws_cell(x2, y2, n2, cell) && t.display[cell] != 0;
        assert(s.display[w] == 0 && !s.draws_cell(x1, y1, n1, w));
    }
}

/// A draw changes exactly the cells under set sprite bits that lie within
/// the display: rows from `V[y] mod 32` and columns from `V[x] mod 64`, cut
/// at the bottom and right edges, never wrapping to the other side.
pub proof fn lemma_draw_clips(s: Chip8State, x: u8, y: u8, n: u8)
    requires
        s.wf(),
        x < 16,
        y < 16,
        n < 16,
        s.execute(Instruction::Draw { x, y, n }, 0) is Ok,
    ensures
        ({
            let t = s.execute(Instruction::Draw { x, y, n }, 0)->Ok_0;
            let px = s.v[x as int] % 64;
            let py = s.v[y as int] % 32;
            &&& forall|cell: int|
                0 <= cell < 2048 ==> (#[trigger] t.display[cell] != s.display[cell] <==> s.draws_cell(
                    x,
                    y,
                    n,
                    cell,
                ))
            &&& forall|cell: int|
                0 <= cell < 2048 && #[trigger] t.display[cell] != s.display[cell] ==> py <= cell / 64
                    < py + n && px <= cell % 64 < px + 8
            &&& forall|r: int, c: int|
                py <= r < 32 && r < py + n && px <= c < 64 && c < px + 8 && #[trigger] sprite_bit(
                    s.memory[s.i + (r - py)],
                    c - px,
                ) ==> t.display[r * 64 + c] != s.display[r * 64 + c]
        }),
{
    let t = s.execute(Instruction::Draw { x, y, n }, 0)->Ok_0;
    let px = s.v[x as int] % 64;
    let py = s.v[y as int] % 32;
    assert forall|r: int, c: int|
        py <= r < 32 && r < py + n && px <= c < 64 && c < px + 8 && #[trigger] sprite_bit(
            s.memory[s.i + (r - py)],
            c - px,
        ) implies t.display[r * 64 + c] != s.display[r * 64 + c] by {
        lemma_cell_coords(r, c);
        assert(s.draws_cell(x, y, n, r * 64 + c));
    }
}

} // verus!
