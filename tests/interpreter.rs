use chip8::display::{Display, HEIGHT, WIDTH};
use chip8::execute::{add_vx, draw_sprite, execute_opcode, jump_to, set_i, set_vx, step};
use chip8::machine::{fetch_opcode, Error, State, MAX_PROGRAM_LEN, PROGRAM_START};
use chip8::opcode::{decode, Instruction};

fn lit_pixels(d: &Display) -> Vec<(usize, usize)> {
    let mut out = Vec::new();
    for y in 0..HEIGHT {
        for x in 0..WIDTH {
            if d.read(x, y) {
                out.push((x, y));
            }
        }
    }
    out
}

#[test]
fn decode_routes_each_template() {
    assert_eq!(decode(0x00E0), Some(Instruction::ClearScreen));
    assert_eq!(decode(0x1ABC), Some(Instruction::Jump { address: 0xABC }));
    assert_eq!(decode(0xA123), Some(Instruction::SetAddress { address: 0x123 }));
    assert_eq!(decode(0xD12F), Some(Instruction::DrawSprite { x: 1, y: 2, rows: 15 }));
    for x in 0u16..16 {
        for nn in [0x00u16, 0x01, 0x7F, 0x80, 0xFF] {
            assert_eq!(
                decode(0x6000 | (x << 8) | nn),
                Some(Instruction::SetRegister { x: x as u8, value: nn as u8 })
            );
            assert_eq!(
                decode(0x7000 | (x << 8) | nn),
                Some(Instruction::AddRegister { x: x as u8, value: nn as u8 })
            );
        }
    }
}

#[test]
fn decode_rejects_words_outside_the_subset() {
    for op in [0x0000u16, 0x00EE, 0x00E1, 0x0123, 0x2000, 0x3456, 0x8AB4, 0xB000, 0xC0FF, 0xE09E, 0xF00A]
    {
        assert_eq!(decode(op), None);
    }
}

#[test]
fn set_register_hits_every_register_index() {
    for x in 0u16..16 {
        let mut s = State::new();
        set_vx(&mut s, 0x6000 | (x << 8) | 0x5A);
        for k in 0..16 {
            assert_eq!(s.registers[k], if k == x as usize { 0x5A } else { 0 });
        }
    }
}

#[test]
fn add_register_hits_every_register_index() {
    for x in 0u16..16 {
        let mut s = State::new();
        s.registers[x as usize] = 0x10;
        add_vx(&mut s, 0x7000 | (x << 8) | 0x05);
        for k in 0..16 {
            assert_eq!(s.registers[k], if k == x as usize { 0x15 } else { 0 });
        }
    }
}

#[test]
fn jump_sets_program_counter_and_next_fetch_reads_there() {
    let mut s = State::new();
    s.program_counter = 0x0F00;
    s.memory[0x345] = 0xA1;
    s.memory[0x346] = 0x23;
    jump_to(&mut s, 0x1345);
    assert_eq!(s.program_counter, 0x345);
    assert_eq!(fetch_opcode(&mut s), Ok(0xA123));
    assert_eq!(s.program_counter, 0x347);
}

#[test]
fn set_then_add_wraps_modulo_256() {
    let mut s = State::new();
    let mut d = Display::new();
    assert_eq!(execute_opcode(0x60FF, &mut s, &mut d), Ok(()));
    assert_eq!(execute_opcode(0x7002, &mut s, &mut d), Ok(()));
    assert_eq!(s.registers[0], 0x01);
    assert_eq!(s.registers[0xF], 0);
}

#[test]
fn set_address_masks_to_twelve_bits() {
    let mut s = State::new();
    set_i(&mut s, 0xAFED);
    assert_eq!(s.address_register, 0xFED);
}

#[test]
fn clear_screen_then_every_pixel_reads_unlit() {
    let mut s = State::new();
    let mut d = Display::new();
    for y in 0..HEIGHT {
        for x in 0..WIDTH {
            if (x + y) % 3 == 0 {
                d.write(x, y, true);
            }
        }
    }
    assert!(!lit_pixels(&d).is_empty());
    assert_eq!(execute_opcode(0x00E0, &mut s, &mut d), Ok(()));
    assert!(lit_pixels(&d).is_empty());
}

#[test]
fn drawing_twice_restores_the_grid() {
    let mut s = State::new();
    let mut d = Display::new();
    d.write(10, 5, true);
    d.write(63, 31, true);
    s.registers[2] = 8;
    s.registers[3] = 4;
    s.address_register = 0x300;
    s.memory[0x300] = 0b1010_0101;
    s.memory[0x301] = 0b1111_1111;
    s.memory[0x302] = 0b0001_1000;
    let before = lit_pixels(&d);
    assert_eq!(draw_sprite(&mut s, &mut d, 0xD233), Ok(()));
    // (10, 5) was lit and lies under a set bit of the second row
    assert_eq!(s.registers[0xF], 1);
    assert!(!d.read(10, 5));
    assert_eq!(draw_sprite(&mut s, &mut d, 0xD233), Ok(()));
    assert_eq!(lit_pixels(&d), before);
    assert_eq!(s.registers[0xF], 1);
}

#[test]
fn drawing_twice_on_blank_grid_reports_collision() {
    let mut s = State::new();
    let mut d = Display::new();
    s.address_register = 0x200;
    s.memory[0x200] = 0b1000_0000;
    assert_eq!(draw_sprite(&mut s, &mut d, 0xD011), Ok(()));
    assert_eq!(s.registers[0xF], 0);
    assert_eq!(draw_sprite(&mut s, &mut d, 0xD011), Ok(()));
    assert_eq!(s.registers[0xF], 1);
    assert!(lit_pixels(&d).is_empty());
}

#[test]
fn one_cycle_of_clear_screen_program() {
    let mut s = State::new();
    let mut d = Display::new();
    d.write(1, 1, true);
    assert_eq!(s.load_program(&[0x00, 0xE0]), Ok(()));
    s.program_counter = 0x200;
    assert_eq!(step(&mut s, &mut d), Ok(()));
    assert!(lit_pixels(&d).is_empty());
    assert_eq!(s.program_counter, 0x202);
    assert_eq!(s.address_register, 0);
    assert_eq!(s.registers, [0u8; 16]);
}

#[test]
fn draw_one_row_at_origin() {
    let mut s = State::new();
    let mut d = Display::new();
    s.registers[0] = 0;
    s.registers[1] = 0;
    s.address_register = 0x200;
    s.memory[0x200] = 0b1111_0000;
    assert_eq!(execute_opcode(0xD011, &mut s, &mut d), Ok(()));
    for x in 0..4 {
        assert!(d.read(x, 0));
    }
    for x in 4..8 {
        assert!(!d.read(x, 0));
    }
    assert_eq!(lit_pixels(&d).len(), 4);
    assert_eq!(s.registers[0xF], 0);
}

#[test]
fn draw_origin_wraps_and_sprite_clips_at_right_edge() {
    let mut s = State::new();
    let mut d = Display::new();
    s.registers[0] = 64 + 60; // origin column 60
    s.registers[1] = 32 + 2; // origin row 2
    s.address_register = 0x400;
    s.memory[0x400] = 0xFF;
    assert_eq!(draw_sprite(&mut s, &mut d, 0xD011), Ok(()));
    assert_eq!(lit_pixels(&d), vec![(60, 2), (61, 2), (62, 2), (63, 2)]);
}

#[test]
fn draw_clips_at_bottom_edge() {
    let mut s = State::new();
    let mut d = Display::new();
    s.registers[0] = 0;
    s.registers[1] = 30;
    s.address_register = 0x400;
    for k in 0..4 {
        s.memory[0x400 + k] = 0x80;
    }
    assert_eq!(draw_sprite(&mut s, &mut d, 0xD014), Ok(()));
    assert_eq!(lit_pixels(&d), vec![(0, 30), (0, 31)]);
    assert_eq!(s.registers[0xF], 0);
}

#[test]
fn draw_sprite_past_end_of_memory_fails() {
    let mut s = State::new();
    let mut d = Display::new();
    s.address_register = 0xFFE;
    s.registers[0xF] = 7;
    assert_eq!(
        draw_sprite(&mut s, &mut d, 0xD013),
        Err(Error::SpriteOutOfBounds { address: 0xFFE, rows: 3 })
    );
    assert_eq!(s.registers[0xF], 7);
    assert!(lit_pixels(&d).is_empty());
    s.address_register = 0xFFD;
    assert_eq!(draw_sprite(&mut s, &mut d, 0xD013), Ok(()));
}

#[test]
fn unimplemented_opcode_is_reported() {
    let mut s = State::new();
    let mut d = Display::new();
    s.program_counter = 0x204;
    assert_eq!(
        execute_opcode(0x00EE, &mut s, &mut d),
        Err(Error::UnimplementedOpcode { opcode: 0x00EE, program_counter: 0x204 })
    );
    assert_eq!(s.program_counter, 0x204);
}

#[test]
fn fetch_at_end_of_memory_fails() {
    let mut s = State::new();
    s.program_counter = 0xFFF;
    assert_eq!(fetch_opcode(&mut s), Err(Error::FetchOutOfBounds { program_counter: 0xFFF }));
    assert_eq!(s.program_counter, 0xFFF);
    s.program_counter = 0xFFE;
    s.memory[0xFFE] = 0x12;
    s.memory[0xFFF] = 0x34;
    assert_eq!(fetch_opcode(&mut s), Ok(0x1234));
    assert_eq!(s.program_counter, 0x1000);
    let mut d = Display::new();
    assert_eq!(step(&mut s, &mut d), Err(Error::FetchOutOfBounds { program_counter: 0x1000 }));
}

#[test]
fn load_program_copies_after_reserved_area() {
    let mut s = State::new();
    assert_eq!(s.load_program(&[1, 2, 3]), Ok(()));
    assert_eq!(s.memory[PROGRAM_START - 1], 0);
    assert_eq!(&s.memory[PROGRAM_START..PROGRAM_START + 4], &[1, 2, 3, 0]);
}

#[test]
fn load_program_largest_and_too_large() {
    let mut s = State::new();
    let image = vec![0xAB; MAX_PROGRAM_LEN];
    assert_eq!(s.load_program(&image), Ok(()));
    assert_eq!(s.memory[0xFFF], 0xAB);
    let mut t = State::new();
    let too_big = vec![0xCD; MAX_PROGRAM_LEN + 1];
    assert_eq!(t.load_program(&too_big), Err(Error::ProgramTooLarge { len: MAX_PROGRAM_LEN + 1 }));
    assert!(t.memory.iter().all(|b| *b == 0));
}

#[test]
fn program_runs_several_cycles() {
    // 6005 A20A D001 1206, then sprite byte at 0x20A
    let mut s = State::new();
    let mut d = Display::new();
    let program = [0x60, 0x05, 0xA2, 0x0A, 0xD0, 0x01, 0x12, 0x06, 0x00, 0x00, 0xC0];
    assert_eq!(s.load_program(&program), Ok(()));
    s.program_counter = 0x200;
    for _ in 0..4 {
        assert_eq!(step(&mut s, &mut d), Ok(()));
    }
    assert_eq!(s.registers[0], 5);
    assert_eq!(s.address_register, 0x20A);
    assert_eq!(s.program_counter, 0x206);
    // D001 reads VY = V0 = 5 too: row 5, columns 5 and 6
    assert_eq!(lit_pixels(&d), vec![(5, 5), (6, 5)]);
}

#[test]
fn rgba_maps_lit_to_white_and_unlit_to_transparent() {
    let mut d = Display::new();
    d.write(1, 0, true);
    d.write(0, 1, true);
    let frame = d.to_rgba();
    assert_eq!(frame.len(), WIDTH * HEIGHT * 4);
    assert_eq!(&frame[0..4], &[0, 0, 0, 0]);
    assert_eq!(&frame[4..8], &[0xFF, 0xFF, 0xFF, 0xFF]);
    assert_eq!(&frame[WIDTH * 4..WIDTH * 4 + 4], &[0xFF, 0xFF, 0xFF, 0xFF]);
    assert_eq!(frame.iter().filter(|b| **b == 0xFF).count(), 8);
}
