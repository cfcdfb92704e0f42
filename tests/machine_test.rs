use chip8::instruction::{decode, Instruction};
use chip8::processor::{Fault, CHIP8_MEMORY};
use chip8::{CartridgeModule, Processor};

fn at(pc: usize) -> Processor {
    let mut p = Processor::new();
    p.pc = pc;
    p
}

fn no_keys() -> [bool; 16] {
    [false; 16]
}

#[test]
fn jump_is_absolute_from_any_pc() {
    for pc in [0x200usize, 0x666, 0xA00, 0xFFE] {
        let mut p = at(pc);
        assert_eq!(p.execute(0x1666, 0), Ok(()));
        assert_eq!(p.pc, 0x666);
    }
}

#[test]
fn skips_move_by_two_or_four() {
    let mut p = at(0x300);
    p.v[1] = 7;
    p.v[2] = 7;
    assert_eq!(p.execute(0x9120, 0), Ok(()));
    assert_eq!(p.pc, 0x302);
    let mut p = at(0x300);
    p.v[1] = 7;
    p.v[2] = 8;
    assert_eq!(p.execute(0x9120, 0), Ok(()));
    assert_eq!(p.pc, 0x304);
}

#[test]
fn key_skips_read_the_keypad() {
    let mut p = at(0x300);
    p.v[3] = 0xA;
    p.keypad[0xA] = true;
    assert_eq!(p.execute(0xE39E, 0), Ok(()));
    assert_eq!(p.pc, 0x304);
    let mut p = at(0x300);
    p.v[3] = 0xA;
    p.keypad[0xA] = true;
    assert_eq!(p.execute(0xE3A1, 0), Ok(()));
    assert_eq!(p.pc, 0x302);
}

#[test]
fn draw_on_dark_then_lit_region() {
    let mut p = at(0x300);
    p.i = 0;
    p.v[0] = 0;
    p.v[1] = 0;
    assert_eq!(p.execute(0xD015, 0), Ok(()));
    assert_eq!(p.v[0xF], 0);
    assert!(p.vram_changed);
    assert_eq!(p.vram[0][0..5], [1, 1, 1, 1, 0]);
    assert_eq!(p.vram[1][0..5], [1, 0, 0, 1, 0]);
    assert_eq!(p.vram[4][0..5], [1, 1, 1, 1, 0]);
    assert_eq!(p.execute(0xD015, 0), Ok(()));
    assert_eq!(p.v[0xF], 1);
    for row in 0..5 {
        assert_eq!(p.vram[row][0..8], [0; 8]);
    }
}

#[test]
fn draw_over_fully_lit_region_collides() {
    let mut p = at(0x300);
    p.vram = [[1; 64]; 32];
    p.i = 0x400;
    p.ram[0x400] = 0x80;
    p.v[0] = 10;
    p.v[1] = 10;
    assert_eq!(p.execute(0xD011, 0), Ok(()));
    assert_eq!(p.v[0xF], 1);
    assert_eq!(p.vram[10][10], 0);
    assert_eq!(p.vram[10][11], 1);
}

#[test]
fn draw_wraps_at_right_and_bottom_edges() {
    let mut p = at(0x300);
    p.i = 0;
    p.v[0] = 62;
    p.v[1] = 30;
    assert_eq!(p.execute(0xD015, 0), Ok(()));
    assert_eq!(p.v[0xF], 0);
    assert_eq!(p.vram[30][62], 1);
    assert_eq!(p.vram[30][63], 1);
    assert_eq!(p.vram[30][0], 1);
    assert_eq!(p.vram[30][1], 1);
    assert_eq!(p.vram[30][2], 0);
    assert_eq!(p.vram[0][62], 1);
    assert_eq!(p.vram[0][1], 1);
    assert_eq!(p.vram[2][62], 1);
    assert_eq!(p.vram[2][0], 1);
}

#[test]
fn dump_then_load_restores_registers() {
    let mut p = at(0x300);
    p.v = [10, 11, 12, 13, 14, 15, 16, 17, 18, 19, 20, 21, 22, 23, 24, 25];
    p.i = 0x500;
    assert_eq!(p.execute(0xF555, 0), Ok(()));
    assert_eq!(p.ram[0x500..0x506], [10, 11, 12, 13, 14, 15]);
    assert_eq!(p.ram[0x506], 0);
    for r in 0..6 {
        p.v[r] = 0xEE;
    }
    assert_eq!(p.execute(0xF565, 0), Ok(()));
    assert_eq!(p.v, [10, 11, 12, 13, 14, 15, 16, 17, 18, 19, 20, 21, 22, 23, 24, 25]);
    assert_eq!(p.i, 0x500);
}

#[test]
fn bcd_stores_three_digits() {
    let mut p = at(0x300);
    p.v[4] = 254;
    p.i = 0x600;
    assert_eq!(p.execute(0xF433, 0), Ok(()));
    assert_eq!(p.ram[0x600..0x603], [2, 5, 4]);
}

#[test]
fn font_address_and_index_add() {
    let mut p = at(0x300);
    p.v[2] = 0xA;
    assert_eq!(p.execute(0xF229, 0), Ok(()));
    assert_eq!(p.i, 50);
    p.i = 0x100;
    p.v[2] = 0xFF;
    p.v[0xF] = 9;
    assert_eq!(p.execute(0xF21E, 0), Ok(()));
    assert_eq!(p.i, 0x1FF);
    assert_eq!(p.v[0xF], 9);
}

#[test]
fn shifts_and_reverse_subtract() {
    check(0x0F, 0x00, 0x8016, 0x07, 1);
    check(0x0F, 0xF0, 0x8017, 0xE1, 1);
    check(0xF0, 0x0F, 0x8017, 0x1F, 0);
    check(0x80, 0x00, 0x801E, 0x00, 1);
}

fn check(a: u8, b: u8, op: u16, result: u8, vf: u8) {
    let mut p = at(0x300);
    p.v[0] = a;
    p.v[1] = b;
    assert_eq!(p.execute(op, 0), Ok(()));
    assert_eq!(p.v[0], result);
    assert_eq!(p.v[0xF], vf);
}

#[test]
fn random_is_masked_and_offset_jump() {
    let mut p = at(0x300);
    assert_eq!(p.execute(0xC0F0, 0xAB), Ok(()));
    assert_eq!(p.v[0], 0xA0);
    let mut p = at(0x300);
    p.v[3] = 0x55;
    assert_eq!(p.run_opcode(0xC300), Ok(()));
    assert_eq!(p.v[3], 0);
    assert_eq!(p.pc, 0x302);
    let mut p = at(0x300);
    p.v[0] = 4;
    assert_eq!(p.execute(0xB300, 0), Ok(()));
    assert_eq!(p.pc, 0x304);
}

#[test]
fn unknown_word_only_advances() {
    let mut p = at(0x300);
    p.v[1] = 3;
    assert_eq!(p.execute(0xFFFF, 0), Ok(()));
    assert_eq!(p.pc, 0x302);
    assert_eq!(p.v[1], 3);
    assert_eq!(p.execute(0x5121, 0), Ok(()));
    assert_eq!(p.pc, 0x304);
}

#[test]
fn timer_transfers() {
    let mut p = at(0x300);
    p.v[5] = 42;
    assert_eq!(p.execute(0xF515, 0), Ok(()));
    assert_eq!(p.execute(0xF518, 0), Ok(()));
    assert_eq!(p.delay_timer, 42);
    assert_eq!(p.sound_timer, 42);
    p.delay_timer = 7;
    assert_eq!(p.execute(0xF607, 0), Ok(()));
    assert_eq!(p.v[6], 7);
}

#[test]
fn faults_leave_the_state_unchanged() {
    let mut p = at(0x300);
    assert_eq!(p.execute(0x00EE, 0), Err(Fault::StackUnderflow));
    assert_eq!(p.pc, 0x300);
    p.sp = 16;
    assert_eq!(p.execute(0x2400, 0), Err(Fault::StackOverflow));
    assert_eq!(p.sp, 16);
    assert_eq!(p.pc, 0x300);
    p.sp = 0;
    p.i = 4094;
    assert_eq!(p.execute(0xF033, 0), Err(Fault::MemoryOutOfRange));
    assert_eq!(p.ram[4094], 0);
    p.i = 4090;
    assert_eq!(p.execute(0xFA55, 0), Err(Fault::MemoryOutOfRange));
    assert_eq!(p.execute(0xFA65, 0), Err(Fault::MemoryOutOfRange));
    assert_eq!(p.execute(0xD018, 0), Err(Fault::MemoryOutOfRange));
    assert_eq!(p.execute(0xD016, 0), Ok(()));
    p.i = usize::MAX;
    p.v[0] = 1;
    assert_eq!(p.execute(0xF01E, 0), Err(Fault::IndexOverflow));
    assert_eq!(p.i, usize::MAX);
    p.v[0] = 16;
    assert_eq!(p.execute(0xE09E, 0), Err(Fault::KeyOutOfRange));
    assert_eq!(p.execute(0xE0A1, 0), Err(Fault::KeyOutOfRange));
}

#[test]
fn call_then_return() {
    let mut p = at(0xF00);
    assert_eq!(p.execute(0x2666, 0), Ok(()));
    assert_eq!(p.stack[0], 0xF02);
    assert_eq!(p.sp, 1);
    assert_eq!(p.execute(0x00EE, 0), Ok(()));
    assert_eq!(p.pc, 0xF02);
    assert_eq!(p.sp, 0);
}

#[test]
fn step_fetches_big_endian_and_counts_timers_down() {
    let mut p = Processor::new();
    p.load(&[0x6A, 0x42, 0x00, 0xE0]);
    p.delay_timer = 5;
    p.sound_timer = 2;
    {
        let out = p.step(no_keys(), 0).unwrap();
        assert!(!out.vram_changed);
        assert!(out.beep);
    }
    assert_eq!(p.v[0xA], 0x42);
    assert_eq!(p.pc, 0x202);
    assert_eq!(p.delay_timer, 4);
    assert_eq!(p.sound_timer, 1);
    {
        let out = p.step(no_keys(), 0).unwrap();
        assert!(out.vram_changed);
        assert!(!out.beep);
        assert_eq!(out.vram[0][0], 0);
    }
    assert_eq!(p.sound_timer, 0);
    assert_eq!(p.pc, 0x204);
}

#[test]
fn step_waits_for_the_lowest_pressed_key() {
    let mut p = Processor::new();
    p.load(&[0xF3, 0x0A, 0x60, 0x01]);
    p.delay_timer = 9;
    assert!(p.step(no_keys(), 0).is_ok());
    assert!(p.keypad_waiting);
    assert_eq!(p.pc, 0x202);
    assert_eq!(p.delay_timer, 8);
    assert!(p.step(no_keys(), 0).is_ok());
    assert!(p.keypad_waiting);
    assert_eq!(p.pc, 0x202);
    assert_eq!(p.delay_timer, 8);
    let mut keys = no_keys();
    keys[7] = true;
    keys[12] = true;
    assert!(p.step(keys, 0).is_ok());
    assert!(!p.keypad_waiting);
    assert_eq!(p.v[3], 7);
    assert_eq!(p.pc, 0x202);
    assert_eq!(p.delay_timer, 8);
    assert!(p.step(no_keys(), 0).is_ok());
    assert_eq!(p.v[0], 1);
    assert_eq!(p.pc, 0x204);
}

#[test]
fn step_faults_when_pc_leaves_memory() {
    let mut p = at(CHIP8_MEMORY - 1);
    assert_eq!(p.step(no_keys(), 0).err(), Some(Fault::MemoryOutOfRange));
    assert_eq!(p.pc, CHIP8_MEMORY - 1);
    let mut p = Processor::new();
    p.load(&[0x00, 0xEE]);
    assert_eq!(p.tick(no_keys()).err(), Some(Fault::StackUnderflow));
}

#[test]
fn load_drops_bytes_past_memory() {
    let mut p = Processor::new();
    let data: Vec<u8> = (0..4000u32).map(|k| (k % 251) as u8 + 1).collect();
    p.load(&data);
    assert_eq!(p.ram[0x1FF], 0);
    assert_eq!(p.ram[0x200], 1);
    assert_eq!(p.ram[4095], data[4095 - 0x200]);
    assert_eq!(p.ram[0], 0xF0);
}

#[test]
fn cartridge_keeps_at_most_its_capacity() {
    let c = CartridgeModule::new(&[9, 8, 7]);
    assert_eq!(c.size, 3);
    assert_eq!(c.rom[0..4], [9, 8, 7, 0]);
    let big = vec![5u8; 5000];
    let c = CartridgeModule::new(&big);
    assert_eq!(c.size, 3584);
    assert_eq!(c.rom[3583], 5);
}

#[test]
fn decode_splits_fields() {
    assert_eq!(decode(0xD125), Instruction::Draw { x: 1, y: 2, n: 5 });
    assert_eq!(decode(0x8AB4), Instruction::AddReg { x: 0xA, y: 0xB });
    assert_eq!(decode(0xA123), Instruction::LoadIndex { addr: 0x123 });
    assert_eq!(decode(0x3C7F), Instruction::SkipEqByte { x: 0xC, kk: 0x7F });
    assert_eq!(decode(0x00E0), Instruction::Clear);
    assert_eq!(decode(0x0123), Instruction::Unknown);
}

#[test]
fn clear_marks_the_display_changed() {
    let mut p = Processor::new();
    p.load(&[0x00, 0xE0]);
    p.vram = [[1; 64]; 32];
    {
        let out = p.step(no_keys(), 0).unwrap();
        assert!(out.vram_changed);
        for row in out.vram.iter() {
            assert!(row.iter().all(|&px| px == 0));
        }
    }
    assert_eq!(p.pc, 0x202);
}
