use chip8::chip8::{Chip8, RomError};
use chip8::cpu::{self, Fault};

pub const MAX_ROM_SIZE: usize = 0x1000 - 0x200;

fn put_instruction(chip8: &mut Chip8, address: u16, instruction: u16) {
    chip8.bus.memory_write_byte(address, ((instruction & 0xff00) >> 8) as u8);
    chip8.bus.memory_write_byte(address + 1, (instruction & 0xff) as u8);
}

#[test]
pub fn max_load_rom() {
    let data: Vec<u8> = vec![3; MAX_ROM_SIZE];
    let mut chip8 = Chip8::new();
    chip8.load_rom(&data).unwrap();

    for i in 0..(MAX_ROM_SIZE) {
        assert_eq!(chip8.bus.memory_read_byte(cpu::PROGRAM_START + i as u16), 3);
    }
}

#[test]
pub fn oversize_rom_rejected() {
    let data: Vec<u8> = vec![0; MAX_ROM_SIZE + 1];
    let mut chip8 = Chip8::new();
    assert_eq!(chip8.load_rom(&data), Err(RomError::TooLarge));
    // Nothing was copied.
    assert_eq!(chip8.bus.memory_read_byte(0x200), 0);
}

#[test]
pub fn empty_rom_rejected() {
    let data: Vec<u8> = vec![0; 0];
    let mut chip8 = Chip8::new();
    assert_eq!(chip8.load_rom(&data), Err(RomError::Empty));
}

#[test]
pub fn small_rom_loads_at_program_start() {
    let data: Vec<u8> = vec![0xAB, 0xCD];
    let mut chip8 = Chip8::new();
    chip8.load_rom(&data).unwrap();
    assert_eq!(chip8.bus.memory_read_byte(0x200), 0xAB);
    assert_eq!(chip8.bus.memory_read_byte(0x201), 0xCD);
    assert_eq!(chip8.bus.memory_read_byte(0x202), 0);
}

#[test]
pub fn load_then_skip_equal_advances_by_four() {
    // A 6XKK load followed by a 3XKK compare against the same immediate
    // skips exactly one instruction.
    let mut chip8 = Chip8::new();
    put_instruction(&mut chip8, 0x200, 0x6145);
    put_instruction(&mut chip8, 0x202, 0x3145);
    chip8.run_instruction().unwrap();
    assert_eq!(chip8.cpu.get_pc(), 0x202);
    chip8.run_instruction().unwrap();
    assert_eq!(chip8.cpu.get_pc(), 0x206);
}

#[test]
pub fn unknown_instruction_faults() {
    let mut chip8 = Chip8::new();
    put_instruction(&mut chip8, 0x200, 0x5121);
    assert_eq!(
        chip8.run_instruction(),
        Err(Fault::UnknownInstruction { pc: 0x200, instruction: 0x5121 })
    );
    // The machine is left unchanged, so the same fault repeats.
    assert_eq!(
        chip8.run_instruction(),
        Err(Fault::UnknownInstruction { pc: 0x200, instruction: 0x5121 })
    );
}

#[test]
pub fn unknown_alu_instruction_faults() {
    let mut chip8 = Chip8::new();
    put_instruction(&mut chip8, 0x200, 0x8128);
    assert_eq!(
        chip8.run_instruction(),
        Err(Fault::UnknownInstruction { pc: 0x200, instruction: 0x8128 })
    );
}

#[test]
pub fn unknown_key_instruction_faults() {
    let mut chip8 = Chip8::new();
    put_instruction(&mut chip8, 0x200, 0xE100);
    assert_eq!(
        chip8.run_instruction(),
        Err(Fault::UnknownInstruction { pc: 0x200, instruction: 0xE100 })
    );
}

#[test]
pub fn unknown_misc_instruction_faults() {
    let mut chip8 = Chip8::new();
    put_instruction(&mut chip8, 0x200, 0xF1FF);
    assert_eq!(
        chip8.run_instruction(),
        Err(Fault::UnknownInstruction { pc: 0x200, instruction: 0xF1FF })
    );
}

#[test]
pub fn return_on_empty_stack_faults() {
    let mut chip8 = Chip8::new();
    put_instruction(&mut chip8, 0x200, 0x00EE);
    assert_eq!(
        chip8.run_instruction(),
        Err(Fault::StackUnderflow { pc: 0x200, instruction: 0x00EE })
    );
}

#[test]
pub fn call_on_full_stack_faults() {
    let mut chip8 = Chip8::new();
    // A chain of calls, each to the next instruction: the sixteenth call
    // finds the stack pointer at the last slot.
    for i in 0..16u16 {
        let addr = 0x200 + 2 * i;
        put_instruction(&mut chip8, addr, 0x2000 | (addr + 2));
    }
    for _ in 0..15 {
        chip8.run_instruction().unwrap();
    }
    assert_eq!(chip8.cpu.get_sp(), 15);
    assert_eq!(
        chip8.run_instruction(),
        Err(Fault::StackOverflow { pc: 0x21E, instruction: 0x2220 })
    );
}

#[test]
pub fn call_then_return_round_trip() {
    let mut chip8 = Chip8::new();
    put_instruction(&mut chip8, 0x200, 0x2400);
    put_instruction(&mut chip8, 0x400, 0x00EE);
    chip8.run_instruction().unwrap();
    assert_eq!(chip8.cpu.get_pc(), 0x400);
    assert_eq!(chip8.cpu.get_sp(), 1);
    chip8.run_instruction().unwrap();
    assert_eq!(chip8.cpu.get_pc(), 0x202);
    assert_eq!(chip8.cpu.get_sp(), 0);
}

#[test]
pub fn clear_screen_instruction_darkens_all() {
    let mut chip8 = Chip8::new();
    // Draw the one-row sprite 0xF0 from the font at (0, 0), then clear.
    put_instruction(&mut chip8, 0x200, 0xA000);
    put_instruction(&mut chip8, 0x202, 0xD121);
    put_instruction(&mut chip8, 0x204, 0x00E0);
    chip8.run_instruction().unwrap();
    chip8.run_instruction().unwrap();
    assert_eq!(chip8.get_display_buffer()[0], 1);
    chip8.run_instruction().unwrap();
    assert!(chip8.get_display_buffer().iter().all(|&c| c == 0));
    assert_eq!(chip8.cpu.get_pc(), 0x206);
}

#[test]
pub fn draw_sprite_twice_collides_and_restores() {
    let mut chip8 = Chip8::new();
    // I = 0: the font glyph for 0 (0xF0, 0x90, 0x90, 0x90, 0xF0).
    put_instruction(&mut chip8, 0x200, 0xA000);
    put_instruction(&mut chip8, 0x202, 0xD125);
    put_instruction(&mut chip8, 0x204, 0xD125);
    chip8.run_instruction().unwrap();
    chip8.run_instruction().unwrap();
    assert_eq!(chip8.cpu.read_reg(15), 0);
    assert_eq!(chip8.get_display_buffer()[0], 1);
    chip8.run_instruction().unwrap();
    assert_eq!(chip8.cpu.read_reg(15), 1);
    assert!(chip8.get_display_buffer().iter().all(|&c| c == 0));
}

#[test]
pub fn random_masked_with_zero_is_zero() {
    let mut chip8 = Chip8::new();
    chip8.cpu.write_reg(1, 0x5A);
    put_instruction(&mut chip8, 0x200, 0xC100);
    chip8.run_instruction().unwrap();
    assert_eq!(chip8.cpu.read_reg(1), 0);
    assert_eq!(chip8.cpu.get_pc(), 0x202);
}

#[test]
pub fn random_respects_mask() {
    let mut chip8 = Chip8::new();
    put_instruction(&mut chip8, 0x200, 0xC10F);
    chip8.run_instruction().unwrap();
    assert_eq!(chip8.cpu.read_reg(1) & 0xF0, 0);
}

#[test]
pub fn key_skip_if_pressed() {
    let mut chip8 = Chip8::new();
    chip8.cpu.write_reg(1, 0x5);
    chip8.set_key_pressed(Some(0x5));
    put_instruction(&mut chip8, 0x200, 0xE19E);
    chip8.run_instruction().unwrap();
    assert_eq!(chip8.cpu.get_pc(), 0x204);
}

#[test]
pub fn key_skip_if_not_pressed() {
    let mut chip8 = Chip8::new();
    chip8.cpu.write_reg(1, 0x5);
    chip8.set_key_pressed(Some(0x6));
    put_instruction(&mut chip8, 0x200, 0xE19E);
    chip8.run_instruction().unwrap();
    assert_eq!(chip8.cpu.get_pc(), 0x202);

    let mut other = Chip8::new();
    other.cpu.write_reg(1, 0x5);
    other.set_key_pressed(None);
    put_instruction(&mut other, 0x200, 0xE1A1);
    other.run_instruction().unwrap();
    assert_eq!(other.cpu.get_pc(), 0x204);
}

#[test]
pub fn key_poll_stores_latched_key() {
    let mut chip8 = Chip8::new();
    chip8.set_key_pressed(Some(0xB));
    put_instruction(&mut chip8, 0x200, 0xF10A);
    chip8.run_instruction().unwrap();
    assert_eq!(chip8.cpu.read_reg(1), 0xB);
    assert_eq!(chip8.cpu.get_pc(), 0x202);
}

#[test]
pub fn key_poll_without_key_still_advances() {
    let mut chip8 = Chip8::new();
    chip8.cpu.write_reg(1, 0x77);
    put_instruction(&mut chip8, 0x200, 0xF10A);
    chip8.run_instruction().unwrap();
    assert_eq!(chip8.cpu.read_reg(1), 0x77);
    assert_eq!(chip8.cpu.get_pc(), 0x202);
}

#[test]
pub fn timer_set_and_read_instructions() {
    let mut chip8 = Chip8::new();
    put_instruction(&mut chip8, 0x200, 0x6105);
    put_instruction(&mut chip8, 0x202, 0xF115);
    put_instruction(&mut chip8, 0x204, 0xF207);
    chip8.run_instruction().unwrap();
    chip8.run_instruction().unwrap();
    chip8.run_instruction().unwrap();
    assert_eq!(chip8.cpu.read_reg(2), 5);
}

#[test]
pub fn sound_timer_is_a_no_op_that_advances() {
    let mut chip8 = Chip8::new();
    put_instruction(&mut chip8, 0x200, 0xF118);
    chip8.run_instruction().unwrap();
    assert_eq!(chip8.cpu.get_pc(), 0x202);
}

#[test]
pub fn add_to_index_register() {
    let mut chip8 = Chip8::new();
    chip8.cpu.write_reg(1, 0x10);
    put_instruction(&mut chip8, 0x200, 0xA123);
    put_instruction(&mut chip8, 0x202, 0xF11E);
    chip8.run_instruction().unwrap();
    chip8.run_instruction().unwrap();
    assert_eq!(chip8.cpu.get_i(), 0x133);
}

#[test]
pub fn font_glyph_address() {
    let mut chip8 = Chip8::new();
    chip8.cpu.write_reg(1, 0xA);
    put_instruction(&mut chip8, 0x200, 0xF129);
    chip8.run_instruction().unwrap();
    assert_eq!(chip8.cpu.get_i(), 50);
}

#[test]
pub fn bcd_digits_written() {
    let mut chip8 = Chip8::new();
    chip8.cpu.write_reg(1, 234);
    put_instruction(&mut chip8, 0x200, 0xA300);
    put_instruction(&mut chip8, 0x202, 0xF133);
    chip8.run_instruction().unwrap();
    chip8.run_instruction().unwrap();
    assert_eq!(chip8.bus.memory_read_byte(0x300), 2);
    assert_eq!(chip8.bus.memory_read_byte(0x301), 3);
    assert_eq!(chip8.bus.memory_read_byte(0x302), 4);
}

#[test]
pub fn store_and_load_registers_round_trip() {
    let mut chip8 = Chip8::new();
    chip8.cpu.write_reg(0, 0x11);
    chip8.cpu.write_reg(1, 0x22);
    chip8.cpu.write_reg(2, 0x33);
    put_instruction(&mut chip8, 0x200, 0xA300);
    put_instruction(&mut chip8, 0x202, 0xF255);
    chip8.run_instruction().unwrap();
    chip8.run_instruction().unwrap();
    assert_eq!(chip8.bus.memory_read_byte(0x300), 0x11);
    assert_eq!(chip8.bus.memory_read_byte(0x301), 0x22);
    assert_eq!(chip8.bus.memory_read_byte(0x302), 0x33);
    // The store moved I past the stored registers.
    assert_eq!(chip8.cpu.get_i(), 0x303);

    // Load them back into a fresh register file.
    chip8.cpu.write_reg(0, 0);
    chip8.cpu.write_reg(1, 0);
    chip8.cpu.write_reg(2, 0);
    put_instruction(&mut chip8, 0x204, 0xA300);
    put_instruction(&mut chip8, 0x206, 0xF265);
    chip8.run_instruction().unwrap();
    chip8.run_instruction().unwrap();
    assert_eq!(chip8.cpu.read_reg(0), 0x11);
    assert_eq!(chip8.cpu.read_reg(1), 0x22);
    assert_eq!(chip8.cpu.read_reg(2), 0x33);
    // The load leaves I unchanged.
    assert_eq!(chip8.cpu.get_i(), 0x300);
}

#[test]
pub fn legacy_sys_jump() {
    let mut chip8 = Chip8::new();
    put_instruction(&mut chip8, 0x200, 0x0345);
    chip8.run_instruction().unwrap();
    assert_eq!(chip8.cpu.get_pc(), 0x345);
}
