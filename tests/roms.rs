use chip8::roms::{find_rom, rom_for_lowercase, RomChoice, RomDir};

#[test]
fn rom_names_select_slots() {
    assert_eq!(find_rom("chip8_logo"), Some(RomChoice { dir: RomDir::Tests, slot: 0 }));
    assert_eq!(find_rom("quirks"), Some(RomChoice { dir: RomDir::Tests, slot: 8 }));
    assert_eq!(find_rom("blinky"), Some(RomChoice { dir: RomDir::Games, slot: 0 }));
    assert_eq!(find_rom("tetris"), Some(RomChoice { dir: RomDir::Games, slot: 4 }));
}

#[test]
fn rom_names_ignore_case() {
    assert_eq!(find_rom("PONG"), Some(RomChoice { dir: RomDir::Games, slot: 3 }));
    assert_eq!(find_rom("Test_Opcode"), Some(RomChoice { dir: RomDir::Tests, slot: 6 }));
    assert_eq!(rom_for_lowercase(&"PONG".to_string()), None);
}

#[test]
fn unknown_rom_name_selects_nothing() {
    assert_eq!(find_rom("space_invaders"), None);
    assert_eq!(find_rom(""), None);
    assert_eq!(find_rom("pong "), None);
}
