use chip8::vm::Chip8;
use chip8::insn::decode;

fn put_op(vm: &mut Chip8, addr: u16, op: u16) {
    vm.write_mem(addr, (op >> 8) as u8);
    vm.write_mem(addr + 1, (op & 0xFF) as u8);
}

#[test]
fn add_sets_carry_on_overflow() {
    let mut vm = Chip8::new();
    vm.set_reg(1, 200);
    vm.set_reg(2, 100);
    let r = vm.execute(decode(0x8124), 0);
    assert!(r.is_ok());
    assert_eq!(vm.reg(1), 44);
    assert_eq!(vm.reg(15), 1);
}

#[test]
fn add_without_overflow_clears_carry() {
    let mut vm = Chip8::new();
    vm.set_reg(1, 1);
    vm.set_reg(2, 2);
    vm.set_reg(15, 1);
    let r = vm.execute(decode(0x8124), 0);
    assert!(r.is_ok());
    assert_eq!(vm.reg(1), 3);
    assert_eq!(vm.reg(15), 0);
}

#[test]
fn sub_with_borrow_wraps() {
    let mut vm = Chip8::new();
    vm.set_reg(1, 5);
    vm.set_reg(2, 10);
    let r = vm.execute(decode(0x8125), 0);
    assert!(r.is_ok());
    assert_eq!(vm.reg(1), 251);
    assert_eq!(vm.reg(15), 0);
}

#[test]
fn sub_no_borrow_sets_flag() {
    let mut vm = Chip8::new();
    vm.set_reg(1, 10);
    vm.set_reg(2, 10);
    let r = vm.execute(decode(0x8125), 0);
    assert!(r.is_ok());
    assert_eq!(vm.reg(1), 0);
    assert_eq!(vm.reg(15), 1);
}

#[test]
fn subn_reversed_operands() {
    let mut vm = Chip8::new();
    vm.set_reg(1, 10);
    vm.set_reg(2, 5);
    let r = vm.execute(decode(0x8127), 0);
    assert!(r.is_ok());
    assert_eq!(vm.reg(1), 251);
    assert_eq!(vm.reg(15), 0);
}

#[test]
fn shr_keeps_low_bit_in_flag() {
    let mut vm = Chip8::new();
    vm.set_reg(1, 5);
    let r = vm.execute(decode(0x8106), 0);
    assert!(r.is_ok());
    assert_eq!(vm.reg(1), 2);
    assert_eq!(vm.reg(15), 1);
}

#[test]
fn shl_normalizes_high_bit_flag() {
    let mut vm = Chip8::new();
    vm.set_reg(1, 0x81);
    let r = vm.execute(decode(0x810E), 0);
    assert!(r.is_ok());
    assert_eq!(vm.reg(1), 0x02);
    assert_eq!(vm.reg(15), 1);
    vm.set_reg(1, 0x7F);
    let r = vm.execute(decode(0x810E), 0);
    assert!(r.is_ok());
    assert_eq!(vm.reg(1), 0xFE);
    assert_eq!(vm.reg(15), 0);
}

#[test]
fn logic_ops() {
    let mut vm = Chip8::new();
    vm.set_reg(1, 0b1100);
    vm.set_reg(2, 0b1010);
    assert!(vm.execute(decode(0x8121), 0).is_ok());
    assert_eq!(vm.reg(1), 0b1110);
    vm.set_reg(1, 0b1100);
    assert!(vm.execute(decode(0x8122), 0).is_ok());
    assert_eq!(vm.reg(1), 0b1000);
    vm.set_reg(1, 0b1100);
    assert!(vm.execute(decode(0x8123), 0).is_ok());
    assert_eq!(vm.reg(1), 0b0110);
}

#[test]
fn add_byte_wraps_without_flag() {
    let mut vm = Chip8::new();
    vm.set_reg(3, 250);
    vm.set_reg(15, 0);
    let r = vm.execute(decode(0x730A), 0);
    assert!(r.is_ok());
    assert_eq!(vm.reg(3), 4);
    assert_eq!(vm.reg(15), 0);
}

#[test]
fn pc_advances_by_two_on_plain_ops() {
    let mut vm = Chip8::new();
    assert_eq!(vm.program_counter(), 512);
    assert!(vm.execute(decode(0x6105), 0).is_ok());
    assert_eq!(vm.program_counter(), 514);
    assert!(vm.execute(decode(0xA123), 0).is_ok());
    assert_eq!(vm.program_counter(), 516);
    // An unrecognized opcode is a no-op that still advances.
    assert!(vm.execute(decode(0x8FF9), 0).is_ok());
    assert_eq!(vm.program_counter(), 518);
}

#[test]
fn taken_skip_advances_by_four() {
    let mut vm = Chip8::new();
    vm.set_reg(1, 7);
    assert!(vm.execute(decode(0x3107), 0).is_ok());
    assert_eq!(vm.program_counter(), 516);
    assert!(vm.execute(decode(0x3108), 0).is_ok());
    assert_eq!(vm.program_counter(), 518);
    assert!(vm.execute(decode(0x4108), 0).is_ok());
    assert_eq!(vm.program_counter(), 522);
    vm.set_reg(2, 7);
    assert!(vm.execute(decode(0x5120), 0).is_ok());
    assert_eq!(vm.program_counter(), 526);
    assert!(vm.execute(decode(0x9120), 0).is_ok());
    assert_eq!(vm.program_counter(), 528);
}

#[test]
fn jumps_set_pc_explicitly() {
    let mut vm = Chip8::new();
    assert!(vm.execute(decode(0x1300), 0).is_ok());
    assert_eq!(vm.program_counter(), 0x300);
    vm.set_reg(0, 4);
    assert!(vm.execute(decode(0xB200), 0).is_ok());
    assert_eq!(vm.program_counter(), 0x204);
}

#[test]
fn call_then_ret_resumes_after_call() {
    let mut vm = Chip8::new();
    vm.set_pc(0x300);
    let r = vm.execute(decode(0x2400), 0);
    assert!(r.is_ok());
    assert_eq!(vm.program_counter(), 0x400);
    let r = vm.execute(decode(0x00EE), 0);
    assert!(r.is_ok());
    assert_eq!(vm.program_counter(), 0x302);
}

#[test]
fn call_ret_round_trip_through_cycles() {
    let mut vm = Chip8::new();
    put_op(&mut vm, 0x300, 0x2400);
    put_op(&mut vm, 0x400, 0x00EE);
    vm.set_pc(0x300);
    assert!(vm.cycle_with_random(0, 0).is_ok());
    assert_eq!(vm.program_counter(), 0x400);
    assert!(vm.cycle_with_random(0, 0).is_ok());
    assert_eq!(vm.program_counter(), 0x302);
}

#[test]
fn store_load_round_trip() {
    let mut vm = Chip8::new();
    vm.set_reg(0, 11);
    vm.set_reg(1, 22);
    vm.set_reg(2, 33);
    vm.set_reg(3, 44);
    vm.set_index(0x500);
    assert!(vm.execute(decode(0xF355), 0).is_ok());
    assert_eq!(vm.mem_at(0x500), 11);
    assert_eq!(vm.mem_at(0x501), 22);
    assert_eq!(vm.mem_at(0x502), 33);
    assert_eq!(vm.mem_at(0x503), 44);
    // Scramble the registers, then load them back.
    for x in 0..4u8 {
        vm.set_reg(x, 0xEE);
    }
    assert!(vm.execute(decode(0xF365), 0).is_ok());
    assert_eq!(vm.reg(0), 11);
    assert_eq!(vm.reg(1), 22);
    assert_eq!(vm.reg(2), 33);
    assert_eq!(vm.reg(3), 44);
}

#[test]
fn bcd_splits_decimal_digits() {
    let mut vm = Chip8::new();
    vm.set_reg(1, 234);
    vm.set_index(0x600);
    assert!(vm.execute(decode(0xF133), 0).is_ok());
    assert_eq!(vm.mem_at(0x600), 2);
    assert_eq!(vm.mem_at(0x601), 3);
    assert_eq!(vm.mem_at(0x602), 4);
}

#[test]
fn font_address_is_five_per_glyph() {
    let mut vm = Chip8::new();
    vm.set_reg(2, 0xA);
    assert!(vm.execute(decode(0xF229), 0).is_ok());
    assert_eq!(vm.index_reg(), 50);
    // The font table itself sits at the start of memory.
    assert_eq!(vm.mem_at(0), 0xF0);
    assert_eq!(vm.mem_at(50), 0xF0);
}

#[test]
fn add_index_wraps_to_twelve_bits() {
    let mut vm = Chip8::new();
    vm.set_index(4095);
    vm.set_reg(0, 2);
    vm.set_reg(15, 0);
    assert!(vm.execute(decode(0xF01E), 0).is_ok());
    assert_eq!(vm.index_reg(), 1);
    // The overflow flag stays untouched by default.
    assert_eq!(vm.reg(15), 0);
}

#[test]
fn add_index_carry_quirk_sets_flag() {
    let mut vm = Chip8::new();
    vm.set_addi_carry(true);
    vm.set_index(4095);
    vm.set_reg(0, 2);
    assert!(vm.execute(decode(0xF01E), 0).is_ok());
    assert_eq!(vm.index_reg(), 1);
    assert_eq!(vm.reg(15), 1);
    vm.set_index(10);
    assert!(vm.execute(decode(0xF01E), 0).is_ok());
    assert_eq!(vm.index_reg(), 12);
    assert_eq!(vm.reg(15), 0);
}

#[test]
fn rnd_masks_supplied_byte() {
    let mut vm = Chip8::new();
    put_op(&mut vm, 0x200, 0xC0F0);
    assert!(vm.cycle_with_random(0xAB, 0).is_ok());
    assert_eq!(vm.reg(0), 0xA0);
}

#[test]
fn rnd_with_zero_mask_is_zero_whatever_the_source() {
    let mut vm = Chip8::new();
    vm.set_reg(0, 0x55);
    put_op(&mut vm, 0x200, 0xC000);
    // Through the real random source: the mask pins the result.
    assert!(vm.cycle(0).is_ok());
    assert_eq!(vm.reg(0), 0);
}

#[test]
fn key_skip_instructions() {
    let mut vm = Chip8::new();
    vm.set_reg(1, 4);
    vm.set_key(4, true);
    assert!(vm.execute(decode(0xE19E), 0).is_ok());
    assert_eq!(vm.program_counter(), 516);
    assert!(vm.execute(decode(0xE1A1), 0).is_ok());
    assert_eq!(vm.program_counter(), 518);
    vm.set_key(4, false);
    assert!(vm.execute(decode(0xE19E), 0).is_ok());
    assert_eq!(vm.program_counter(), 520);
    assert!(vm.execute(decode(0xE1A1), 0).is_ok());
    assert_eq!(vm.program_counter(), 524);
}

#[test]
fn delay_timer_transfer() {
    let mut vm = Chip8::new();
    vm.set_reg(1, 42);
    assert!(vm.execute(decode(0xF115), 0).is_ok());
    assert_eq!(vm.delay_timer(), 42);
    assert!(vm.execute(decode(0xF207), 0).is_ok());
    assert_eq!(vm.reg(2), 42);
    assert!(vm.execute(decode(0xF118), 0).is_ok());
    assert_eq!(vm.sound_timer(), 42);
}
