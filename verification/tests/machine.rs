use chip8::vm::Chip8;
use chip8::insn::{decode, Instr};
use chip8::Chip8Error;

fn put_op(vm: &mut Chip8, addr: u16, op: u16) {
    vm.write_mem(addr, (op >> 8) as u8);
    vm.write_mem(addr + 1, (op & 0xFF) as u8);
}

const TICK: u64 = 16_666_666;

#[test]
fn cls_then_draw_lights_first_row() {
    let mut vm = Chip8::new();
    vm.write_mem(0x500, 0xFF);
    vm.set_index(0x500);
    put_op(&mut vm, 0x200, 0x00E0);
    put_op(&mut vm, 0x202, 0xD011);
    assert!(vm.cycle_with_random(0, 0).is_ok());
    assert!(vm.cycle_with_random(0, 0).is_ok());
    for x in 0..8 {
        assert!(vm.pixel(x, 0));
    }
    for x in 8..64 {
        assert!(!vm.pixel(x, 0));
    }
    assert_eq!(vm.reg(15), 0);
    assert!(vm.is_dirty());
}

#[test]
fn drawing_twice_toggles_back_and_collides() {
    let mut vm = Chip8::new();
    vm.write_mem(0x500, 0xFF);
    vm.set_index(0x500);
    assert!(vm.execute(decode(0xD011), 0).is_ok());
    assert_eq!(vm.reg(15), 0);
    assert!(vm.execute(decode(0xD011), 0).is_ok());
    assert_eq!(vm.reg(15), 1);
    for x in 0..8 {
        assert!(!vm.pixel(x, 0));
    }
}

#[test]
fn draw_wraps_each_axis_independently() {
    let mut vm = Chip8::new();
    vm.write_mem(0x500, 0xFF);
    vm.write_mem(0x501, 0xFF);
    vm.set_index(0x500);
    vm.set_reg(0, 60);
    vm.set_reg(1, 31);
    assert!(vm.execute(decode(0xD012), 0).is_ok());
    for x in [60, 61, 62, 63, 0, 1, 2, 3] {
        assert!(vm.pixel(x, 31));
        assert!(vm.pixel(x, 0));
    }
    assert!(!vm.pixel(4, 31));
    assert_eq!(vm.reg(15), 0);
}

#[test]
fn cls_clears_and_marks_dirty() {
    let mut vm = Chip8::new();
    vm.write_mem(0x500, 0xFF);
    vm.set_index(0x500);
    assert!(vm.execute(decode(0xD011), 0).is_ok());
    vm.clear_dirty();
    assert!(!vm.is_dirty());
    assert!(vm.execute(decode(0x00E0), 0).is_ok());
    assert!(vm.is_dirty());
    for x in 0..64 {
        for y in 0..32 {
            assert!(!vm.pixel(x, y));
        }
    }
}

#[test]
fn rom_loads_at_entry_point() {
    let mut vm = Chip8::new();
    let rom = vec![0x60, 0x2A, 0x12, 0x00];
    assert!(vm.load_rom(&rom).is_ok());
    assert_eq!(vm.mem_at(512), 0x60);
    assert_eq!(vm.mem_at(513), 0x2A);
    assert_eq!(vm.mem_at(514), 0x12);
    assert_eq!(vm.mem_at(515), 0x00);
    assert!(vm.cycle_with_random(0, 0).is_ok());
    assert_eq!(vm.reg(0), 0x2A);
}

#[test]
fn oversized_rom_is_rejected_whole() {
    let mut vm = Chip8::new();
    let rom = vec![0xABu8; 3585];
    assert_eq!(vm.load_rom(&rom), Err(Chip8Error::RomTooLarge));
    // Memory is untouched: still all zero past the font.
    for addr in 512..4096u16 {
        assert_eq!(vm.mem_at(addr), 0);
    }
    // The largest size that fits is accepted.
    let rom = vec![0xABu8; 3584];
    assert!(vm.load_rom(&rom).is_ok());
    assert_eq!(vm.mem_at(4095), 0xAB);
}

#[test]
fn stack_overflow_on_seventeenth_call() {
    let mut vm = Chip8::new();
    for _ in 0..16 {
        assert!(vm.execute(decode(0x2200), 0).is_ok());
    }
    assert_eq!(vm.execute(decode(0x2200), 0), Err(Chip8Error::StackOverflow));
}

#[test]
fn stack_underflow_on_ret_without_call() {
    let mut vm = Chip8::new();
    assert_eq!(vm.execute(decode(0x00EE), 0), Err(Chip8Error::StackUnderflow));
}

#[test]
fn memory_out_of_bounds_on_high_store() {
    let mut vm = Chip8::new();
    vm.set_index(4090);
    assert_eq!(vm.execute(decode(0xFF55), 0), Err(Chip8Error::MemoryOutOfBounds));
    assert_eq!(vm.execute(decode(0xFF65), 0), Err(Chip8Error::MemoryOutOfBounds));
    vm.set_index(4094);
    assert_eq!(vm.execute(decode(0xF133), 0), Err(Chip8Error::MemoryOutOfBounds));
    vm.set_index(4090);
    assert_eq!(vm.execute(decode(0xD01F), 0), Err(Chip8Error::MemoryOutOfBounds));
    // The program counter did not move on any of these.
    assert_eq!(vm.program_counter(), 512);
}

#[test]
fn fetch_past_memory_end_is_fatal() {
    let mut vm = Chip8::new();
    put_op(&mut vm, 0x200, 0x1FFF);
    assert!(vm.cycle_with_random(0, 0).is_ok());
    assert_eq!(vm.program_counter(), 0xFFF);
    assert_eq!(vm.cycle_with_random(0, 0), Err(Chip8Error::MemoryOutOfBounds));
}

#[test]
fn timers_hold_within_one_tick_of_time() {
    let mut vm = Chip8::new();
    vm.set_reg(0, 10);
    vm.set_reg(1, 5);
    put_op(&mut vm, 0x200, 0xF015);
    put_op(&mut vm, 0x202, 0xF118);
    put_op(&mut vm, 0x204, 0x1204);
    assert!(vm.cycle_with_random(0, 0).is_ok());
    assert!(vm.cycle_with_random(0, 0).is_ok());
    assert_eq!(vm.delay_timer(), 10);
    assert_eq!(vm.sound_timer(), 5);
    // A thousand cycles inside one tick period leave the timers alone.
    for k in 0..1000u64 {
        assert!(vm.cycle_with_random(0, k * 16_000).is_ok());
    }
    assert_eq!(vm.delay_timer(), 10);
    assert_eq!(vm.sound_timer(), 5);
}

#[test]
fn timers_drop_once_per_elapsed_tick() {
    let mut vm = Chip8::new();
    vm.set_reg(0, 3);
    put_op(&mut vm, 0x200, 0xF015);
    put_op(&mut vm, 0x202, 0x1202);
    assert!(vm.cycle_with_random(0, 0).is_ok());
    assert_eq!(vm.delay_timer(), 3);
    // Far more than one tick of time passed, yet each call drops at most 1.
    assert!(vm.cycle_with_random(0, 10 * TICK).is_ok());
    assert_eq!(vm.delay_timer(), 2);
    assert!(vm.cycle_with_random(0, 20 * TICK).is_ok());
    assert_eq!(vm.delay_timer(), 1);
    assert!(vm.cycle_with_random(0, 30 * TICK).is_ok());
    assert_eq!(vm.delay_timer(), 0);
    assert!(vm.cycle_with_random(0, 40 * TICK).is_ok());
    assert_eq!(vm.delay_timer(), 0);
}

#[test]
fn tone_edge_fires_once() {
    let mut vm = Chip8::new();
    vm.set_reg(0, 1);
    put_op(&mut vm, 0x200, 0xF018);
    put_op(&mut vm, 0x202, 0x1202);
    assert!(vm.cycle_with_random(0, 0).is_ok());
    assert_eq!(vm.sound_timer(), 1);
    assert!(!vm.tone_complete());
    assert!(vm.cycle_with_random(0, 2 * TICK).is_ok());
    assert_eq!(vm.sound_timer(), 0);
    assert!(vm.tone_complete());
    vm.clear_tone();
    // The sound timer stays at zero and the edge does not re-fire.
    assert!(vm.cycle_with_random(0, 4 * TICK).is_ok());
    assert!(vm.cycle_with_random(0, 6 * TICK).is_ok());
    assert!(!vm.tone_complete());
}

#[test]
fn key_wait_halts_until_key_arrives() {
    let mut vm = Chip8::new();
    // A key already down when the wait begins is discarded: the latch is
    // cleared to establish a clean edge.
    vm.set_key(5, true);
    put_op(&mut vm, 0x200, 0xF30A);
    assert!(vm.cycle_with_random(0, 0).is_ok());
    assert!(vm.awaiting_key());
    assert_eq!(vm.program_counter(), 0x200);
    for _ in 0..10 {
        assert!(vm.cycle_with_random(0, 0).is_ok());
        assert!(vm.awaiting_key());
        assert_eq!(vm.program_counter(), 0x200);
    }
    vm.set_key(3, true);
    assert!(vm.cycle_with_random(0, 0).is_ok());
    assert!(!vm.awaiting_key());
    assert_eq!(vm.reg(3), 3);
    assert_eq!(vm.program_counter(), 0x202);
    // The next cycle runs normally again.
    put_op(&mut vm, 0x202, 0x6009);
    assert!(vm.cycle_with_random(0, 0).is_ok());
    assert_eq!(vm.reg(0), 9);
    assert_eq!(vm.program_counter(), 0x204);
}

#[test]
fn key_wait_picks_lowest_key() {
    let mut vm = Chip8::new();
    put_op(&mut vm, 0x200, 0xF00A);
    assert!(vm.cycle_with_random(0, 0).is_ok());
    vm.set_key(9, true);
    vm.set_key(2, true);
    assert!(vm.cycle_with_random(0, 0).is_ok());
    assert_eq!(vm.reg(0), 2);
}

#[test]
fn key_wait_still_ticks_timers() {
    let mut vm = Chip8::new();
    vm.set_reg(0, 2);
    put_op(&mut vm, 0x200, 0xF015);
    put_op(&mut vm, 0x202, 0xF10A);
    assert!(vm.cycle_with_random(0, 0).is_ok());
    assert!(vm.cycle_with_random(0, 0).is_ok());
    assert!(vm.awaiting_key());
    assert!(vm.cycle_with_random(0, 2 * TICK).is_ok());
    assert!(vm.awaiting_key());
    assert_eq!(vm.delay_timer(), 1);
}

#[test]
fn power_on_state() {
    let vm = Chip8::new();
    assert_eq!(vm.program_counter(), 512);
    assert_eq!(vm.index_reg(), 0);
    assert_eq!(vm.delay_timer(), 0);
    assert_eq!(vm.sound_timer(), 0);
    assert!(!vm.is_dirty());
    assert!(!vm.tone_complete());
    assert!(!vm.awaiting_key());
    for x in 0..16u8 {
        assert_eq!(vm.reg(x), 0);
    }
    for x in 0..64 {
        for y in 0..32 {
            assert!(!vm.pixel(x, y));
        }
    }
    // The font table: glyph 0 starts with 0xF0, glyph 1 with 0x20, and the
    // first byte past the table is clear.
    assert_eq!(vm.mem_at(0), 0xF0);
    assert_eq!(vm.mem_at(5), 0x20);
    assert_eq!(vm.mem_at(79), 0x80);
    assert_eq!(vm.mem_at(80), 0);
}

#[test]
fn decode_splits_families() {
    assert_eq!(decode(0x00E0), Instr::Cls);
    assert_eq!(decode(0x00EE), Instr::Ret);
    assert_eq!(decode(0x0123), Instr::Sys);
    assert_eq!(decode(0x1ABC), Instr::Jp { nnn: 0xABC });
    assert_eq!(decode(0x8124), Instr::AddReg { x: 1, y: 2 });
    assert_eq!(decode(0x8FF9), Instr::Nop);
    assert_eq!(decode(0x5121), Instr::Nop);
    assert_eq!(decode(0xE29E), Instr::Skp { x: 2 });
    assert_eq!(decode(0xE2A2), Instr::Nop);
    assert_eq!(decode(0xF455), Instr::Store { x: 4 });
    assert_eq!(decode(0xF499), Instr::Nop);
}
