//! Choosing a bundled program by name.

use vstd::prelude::*;

verus! {

/// The directory a bundled program lives in.
#[derive(Clone, Copy, Debug, PartialEq, Eq, Structural)]
pub enum RomDir {
    /// Test programs for the interpreter.
    Tests,
    /// Games.
    Games,
}

/// A bundled program: its directory and its position in that directory's
/// listing.
#[derive(Clone, Copy, Debug, PartialEq, Eq, Structural)]
pub struct RomChoice {
    pub dir: RomDir,
    pub slot: usize,
}

/// What `str::to_lowercase` makes of a string.
pub uninterp spec fn lower_of(s: Seq<char>) -> Seq<char>;

/// Relies on str::to_lowercase: the lowercase mapping of each character,
/// which depends on the characters alone.
#[verifier::external_body]
fn lowercase(s: &str) -> (r: String)
    ensures
        r@ == lower_of(s@),
{
    s.to_lowercase()
}

/// The program that a lowercase name selects, if any.
pub open spec fn rom_for(name: Seq<char>) -> Option<RomChoice> {
    let t = |slot: usize| Some(RomChoice { dir: RomDir::Tests, slot });
    let g = |slot: usize| Some(RomChoice { dir: RomDir::Games, slot });
    if name == "chip8_logo"@ {
        t(0)
    } else if name == "ibm_logo"@ {
        t(1)
    } else if name == "corax"@ {
        t(2)
    } else if name == "flags"@ {
        t(3)
    } else if name == "keypad"@ {
        t(4)
    } else if name == "beep"@ {
        t(5)
    } else if name == "test_opcode"@ {
        t(6)
    } else if name == "metteo_test"@ {
        t(7)
    } else if name == "quirks"@ {
        t(8)
    } else if name == "blinky"@ {
        g(0)
    } else if name == "cave"@ {
        g(1)
    } else if name == "maze"@ {
        g(2)
    } else if name == "pong"@ {
        g(3)
    } else if name == "tetris"@ {
        g(4)
    } else {
        None
    }
}

/// Whether `name` is `literal`.
fn is_name(name: &String, literal: &str) -> (r: bool)
    ensures
        r == (name@ == literal@),
{
    *name == literal.to_owned()
}

/// The program that an already lowercase name selects, if any.
pub fn rom_for_lowercase(name: &String) -> (r: Option<RomChoice>)
    ensures
        r == rom_for(name@),
{
    if is_name(name, "chip8_logo") {
        Some(RomChoice { dir: RomDir::Tests, slot: 0 })
    } else if is_name(name, "ibm_logo") {
        Some(RomChoice { dir: RomDir::Tests, slot: 1 })
    } else if is_name(name, "corax") {
        Some(RomChoice { dir: RomDir::Tests, slot: 2 })
    } else if is_name(name, "flags") {
        Some(RomChoice { dir: RomDir::Tests, slot: 3 })
    } else if is_name(name, "keypad") {
        Some(RomChoice { dir: RomDir::Tests, slot: 4 })
    } else if is_name(name, "beep") {
        Some(RomChoice { dir: RomDir::Tests, slot: 5 })
    } else if is_name(name, "test_opcode") {
        Some(RomChoice { dir: RomDir::Tests, slot: 6 })
    } else if is_name(name, "metteo_test") {
        Some(RomChoice { dir: RomDir::Tests, slot: 7 })
    } else if is_name(name, "quirks") {
        Some(RomChoice { dir: RomDir::Tests, slot: 8 })
    } else if is_name(name, "blinky") {
        Some(RomChoice { dir: RomDir::Games, slot: 0 })
    } else if is_name(name, "cave") {
        Some(RomChoice { dir: RomDir::Games, slot: 1 })
    } else if is_name(name, "maze") {
        Some(RomChoice { dir: RomDir::Games, slot: 2 })
    } else if is_name(name, "pong") {
        Some(RomChoice { dir: RomDir::Games, slot: 3 })
    } else if is_name(name, "tetris") {
        Some(RomChoice { dir: RomDir::Games, slot: 4 })
    } else {
        None
    }
}

/// The program that `name` selects, compared without regard to case.
pub fn find_rom(name: &str) -> (r: Option<RomChoice>)
    ensures
        r == rom_for(lower_of(name@)),
{
    let lowered = lowercase(name);
    rom_for_lowercase(&lowered)
}

} // verus!
