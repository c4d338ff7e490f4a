use chip8::cpu::{TickStatus, CPU, SCREEN_HEIGHT, SCREEN_WIDTH};
use chip8::CPUError;
use rand::rngs::mock::StepRng;
use rand::Rng;

fn any_mocked_rng() -> StepRng {
    StepRng::new(1, 1)
}

fn any_cpu_with_rom(rom: &[u8]) -> CPU {
    let mut cpu = CPU::new();
    cpu.load_rom(rom).expect("Couldn't load ROM");
    cpu
}

fn any_cpu_with_noop() -> CPU {
    any_cpu_with_rom(&[0x01, 0x23])
}

#[test]
fn test_new() {
    let cpu = CPU::new();
    assert_eq!(cpu.memory, [0; 4096]);
    assert_eq!(cpu.pc, 0x200);
    assert_eq!(cpu.v_registers, [0; 16]);
    assert_eq!(cpu.i_register, 0);
    assert_eq!(cpu.sp, 0);
    assert_eq!(cpu.stack, [0; 16]);
    assert_eq!(cpu.keypad, [false; 16]);
    assert_eq!(cpu.delay_timer, 0);
}

#[test]
fn test_load_rom_ok() {
    let mut cpu = CPU::new();
    let rom: [u8; 2] = [0x00, 0xE0];

    let res = cpu.load_rom(&rom);

    assert!(res.is_ok());
    assert_eq!(cpu.memory[0x200], 0x00);
    assert_eq!(cpu.memory[0x201], 0xE0);
    assert_eq!(cpu.pc, 0x200);
}

#[test]
fn test_load_rom_returns_error_on_memory_overflow() {
    let mut cpu = CPU::new();
    let rom: [u8; 4096 - 199] = [0; 4096 - 199];

    let res = cpu.load_rom(&rom);

    assert_eq!(res.unwrap_err(), CPUError::MemoryOverflow);
}

#[test]
fn test_set_key_status() {
    let mut cpu = CPU::new();

    let res_down = cpu.set_key_status(0xF, true);

    assert!(res_down.is_ok());
    assert_eq!(cpu.keypad[0xF], true);

    let res_up = cpu.set_key_status(0xF, false);
    assert!(res_up.is_ok());
    assert_eq!(cpu.keypad[0xF], false);
}

#[test]
fn test_set_key_status_returns_err() {
    let mut cpu = CPU::new();

    let res = cpu.set_key_status(0x10, true);
    assert_eq!(res.unwrap_err(), CPUError::InvalidKey(0x10));
}

#[test]
fn test_tick_returns_err_on_invalid_opcode() {
    let mut rng = any_mocked_rng();
    let mut cpu = any_cpu_with_rom(&[0xFF, 0xFF]);
    let res = cpu.tick(rng.gen());

    assert_eq!(res.unwrap_err(), CPUError::InvalidOpcode(0xFFFF));
}

#[test]
fn test_tick_returns_err_if_invalid_pc() {
    let mut rng = any_mocked_rng();
    let mut cpu = any_cpu_with_rom(&[]);
    cpu.pc = 0x1000;

    let res = cpu.tick(rng.gen());

    assert_eq!(res.unwrap_err(), CPUError::InvalidAddress(0x1000));
}

#[test]
fn test_tick_does_not_advance_if_waiting_for_key() {
    let mut rng = any_mocked_rng();
    let mut cpu = any_cpu_with_rom(&[]);
    cpu.is_waiting_for_key = (true, 0xF);

    let res = cpu.tick(rng.gen());

    assert_eq!(
        res.unwrap(),
        TickStatus {
            is_waiting_for_key: true,
            is_buzzing: false,
        }
    )
}

#[test]
fn test_tick_updates_timers() {
    let mut rng = any_mocked_rng();
    let mut cpu = any_cpu_with_rom(&[]);
    cpu.is_waiting_for_key = (true, 0x0);
    cpu.delay_timer = 1;
    cpu.sound_timer = 1;

    let res_1st_tick = cpu.tick(rng.gen());
    assert!(res_1st_tick.is_ok());
    assert_eq!(cpu.delay_timer, 0);
    assert_eq!(cpu.sound_timer, 0);

    let res_2nd_tick = cpu.tick(rng.gen());
    assert!(res_2nd_tick.is_ok());
    assert_eq!(cpu.delay_timer, 0); // no overflow
    assert_eq!(cpu.sound_timer, 0); // no overflow
}

#[test]
fn test_tick_returns_not_buzzing_when_sound_timer_is_zero() {
    let mut rng = any_mocked_rng();
    let mut cpu = any_cpu_with_noop(); // no op
    cpu.sound_timer = 0;

    let res = cpu.tick(rng.gen());

    assert_eq!(res.unwrap().is_buzzing, false);
}

#[test]
fn test_tick_returns_is_buzzing_when_sound_timer_is_greater_than_zero() {
    let mut rng = any_mocked_rng();
    let mut cpu = any_cpu_with_noop(); // no op
    cpu.sound_timer = 0x20;

    let res = cpu.tick(rng.gen());

    assert_eq!(res.unwrap().is_buzzing, true);
}

#[test]
fn test_tick_returns_is_buzzing_despite_waiting_for_key() {
    let mut rng = any_mocked_rng();
    let mut cpu = any_cpu_with_rom(&[]);
    cpu.sound_timer = 0x20;
    cpu.is_waiting_for_key = (true, 0x0);

    let res = cpu.tick(rng.gen());

    assert_eq!(res.unwrap().is_buzzing, true);
}

#[test]
fn test_noop() {
    let mut rng = any_mocked_rng();
    let mut cpu = any_cpu_with_rom(&[0x01, 0x23]);

    let res = cpu.tick(rng.gen());

    assert!(res.is_ok());
    assert_eq!(cpu.pc, 0x0202);
}

#[test]
fn test_clear_screen() {
    let mut rng = any_mocked_rng();
    let mut cpu = any_cpu_with_rom(&[0x00, 0xe0]);
    cpu.v_buffer = [true; SCREEN_WIDTH * SCREEN_HEIGHT];

    let res = cpu.tick(rng.gen());

    assert!(res.is_ok());
    assert_eq!(cpu.pc, 0x0202);
    assert_eq!(cpu.v_buffer, [false; SCREEN_WIDTH * SCREEN_HEIGHT]);
}

#[test]
fn test_return() {
    let mut rng = any_mocked_rng();
    let mut cpu = any_cpu_with_rom(&[0x00, 0xee]);
    cpu.stack[0] = 0x300;
    cpu.sp = 1;

    let res = cpu.tick(rng.gen());

    assert!(res.is_ok());
    assert_eq!(cpu.sp, 0);
    assert_eq!(cpu.pc, 0x300);
}

#[test]
fn test_jump() {
    let mut rng = any_mocked_rng();
    let mut cpu = any_cpu_with_rom(&[0x13, 0x21]);

    let res = cpu.tick(rng.gen());

    assert!(res.is_ok());
    assert_eq!(cpu.pc, 0x0321);
}

#[test]
fn test_call() {
    let mut rng = any_mocked_rng();
    let mut cpu = any_cpu_with_rom(&[0x23, 0x21]);

    let res = cpu.tick(rng.gen());

    assert!(res.is_ok());
    assert_eq!(cpu.pc, 0x0321);
    assert_eq!(cpu.stack[0], 0x202);
    assert_eq!(cpu.sp, 1);
}

#[test]
fn test_call_stack_overflow() {
    let mut rng = any_mocked_rng();
    let mut cpu = any_cpu_with_rom(&[0x23, 0x21]);
    cpu.sp = 16;

    let res = cpu.tick(rng.gen());

    assert_eq!(res.unwrap_err(), CPUError::StackOverflow);
}

#[test]
fn test_skip_vx_if_equal_skips() {
    let mut rng = any_mocked_rng();
    let mut cpu = any_cpu_with_rom(&[0x30, 0x42]);
    cpu.v_registers[0] = 0x42;

    let res = cpu.tick(rng.gen());

    assert!(res.is_ok());
    assert_eq!(cpu.pc, 0x204);
}

#[test]
fn test_skip_vx_if_equal_does_not_skip() {
    let mut rng = any_mocked_rng();
    let mut cpu = any_cpu_with_rom(&[0x30, 0x42]);
    cpu.v_registers[0] = 0x00;

    let res = cpu.tick(rng.gen());

    assert!(res.is_ok());
    assert_eq!(cpu.pc, 0x202);
}

#[test]
fn test_skip_vx_if_not_equal_skips() {
    let mut rng = any_mocked_rng();
    let mut cpu = any_cpu_with_rom(&[0x40, 0x42]);
    cpu.v_registers[0] = 0x00;

    let res = cpu.tick(rng.gen());

    assert!(res.is_ok());
    assert_eq!(cpu.pc, 0x204);
}

#[test]
fn test_skip_vx_if_not_equal_does_not_skip() {
    let mut rng = any_mocked_rng();
    let mut cpu = any_cpu_with_rom(&[0x40, 0x42]);
    cpu.v_registers[0] = 0x42;

    let res = cpu.tick(rng.gen());

    assert!(res.is_ok());
    assert_eq!(cpu.pc, 0x202);
}

#[test]
fn test_skip_if_equal_skips() {
    let mut rng = any_mocked_rng();
    let mut cpu = any_cpu_with_rom(&[0x50, 0x10]);
    cpu.v_registers[0] = 0xFF;
    cpu.v_registers[1] = 0xFF;

    let res = cpu.tick(rng.gen());

    assert!(res.is_ok());
    assert_eq!(cpu.pc, 0x204);
}

#[test]
fn test_skip_if_equal_does_not_skip() {
    let mut rng = any_mocked_rng();
    let mut cpu = any_cpu_with_rom(&[0x50, 0x10]);
    cpu.v_registers[0] = 0x00;
    cpu.v_registers[1] = 0xFF;

    let res = cpu.tick(rng.gen());

    assert!(res.is_ok());
    assert_eq!(cpu.pc, 0x202);
}

#[test]
fn test_load_vx() {
    let mut rng = any_mocked_rng();
    let mut cpu = any_cpu_with_rom(&[0x6A, 0x8F]);

    let res = cpu.tick(rng.gen());

    assert!(res.is_ok());
    assert_eq!(cpu.pc, 0x0202);
    assert_eq!(cpu.v_registers[0xA], 0x8F);
}

#[test]
fn test_add_vx() {
    let mut rng = any_mocked_rng();
    let mut cpu = any_cpu_with_rom(&[0x7A, 0x8F]);
    cpu.v_registers[0xA] = 0x1;

    let res = cpu.tick(rng.gen());

    assert!(res.is_ok());
    assert_eq!(cpu.pc, 0x0202);
    assert_eq!(cpu.v_registers[0xA], 0x90);
}

#[test]
fn test_set() {
    let mut rng = any_mocked_rng();
    let mut cpu = any_cpu_with_rom(&[0x80, 0x10]);
    cpu.v_registers[0x1] = 0xA;

    let res = cpu.tick(rng.gen());

    assert!(res.is_ok());
    assert_eq!(cpu.pc, 0x202);
    assert_eq!(cpu.v_registers[0x0], 0xA);
    assert_eq!(cpu.v_registers[0x1], 0xA);
}

#[test]
fn test_or() {
    let mut rng = any_mocked_rng();
    let mut cpu = any_cpu_with_rom(&[0x80, 0x11]);
    cpu.v_registers[0x0] = 0b_0001_1111;
    cpu.v_registers[0x1] = 0b_0110_1111;

    let res = cpu.tick(rng.gen());

    assert!(res.is_ok());
    assert_eq!(cpu.pc, 0x202);
    assert_eq!(cpu.v_registers[0x0], 0b_0111_1111);
    assert_eq!(cpu.v_registers[0x1], 0b_0110_1111);
}

#[test]
fn test_and() {
    let mut rng = any_mocked_rng();
    let mut cpu = any_cpu_with_rom(&[0x80, 0x12]);
    cpu.v_registers[0x0] = 0b_0001_1111;
    cpu.v_registers[0x1] = 0b_0110_1111;

    let res = cpu.tick(rng.gen());

    assert!(res.is_ok());
    assert_eq!(cpu.pc, 0x202);
    assert_eq!(cpu.v_registers[0x0], 0b_0000_1111);
    assert_eq!(cpu.v_registers[0x1], 0b_0110_1111);
}

#[test]
fn test_xor() {
    let mut rng = any_mocked_rng();
    let mut cpu = any_cpu_with_rom(&[0x80, 0x13]);
    cpu.v_registers[0x0] = 0b_0001_1111;
    cpu.v_registers[0x1] = 0b_0110_1111;

    let res = cpu.tick(rng.gen());

    assert!(res.is_ok());
    assert_eq!(cpu.pc, 0x202);
    assert_eq!(cpu.v_registers[0x0], 0b_0111_0000);
    assert_eq!(cpu.v_registers[0x1], 0b_0110_1111);
}

#[test]
fn test_add() {
    let mut rng = any_mocked_rng();
    let mut cpu = any_cpu_with_rom(&[0x80, 0x14]);
    cpu.v_registers[0x0] = 0x0F;
    cpu.v_registers[0x1] = 0x11;

    let res = cpu.tick(rng.gen());

    assert!(res.is_ok());
    assert_eq!(cpu.pc, 0x202);
    assert_eq!(cpu.v_registers[0x0], 0x20);
    assert_eq!(cpu.v_registers[0x1], 0x11);
    assert_eq!(cpu.v_registers[0xF], 0x0);
}

#[test]
fn test_add_overflow() {
    let mut rng = any_mocked_rng();
    let mut cpu = any_cpu_with_rom(&[0x80, 0x14]);
    cpu.v_registers[0x0] = 0xFD;
    cpu.v_registers[0x1] = 0x04;

    let res = cpu.tick(rng.gen());

    assert!(res.is_ok());
    assert_eq!(cpu.pc, 0x202);
    assert_eq!(cpu.v_registers[0x0], 0x01);
    assert_eq!(cpu.v_registers[0x1], 0x04);
    assert_eq!(cpu.v_registers[0xF], 0x01);
}

#[test]
fn test_sub() {
    let mut rng = any_mocked_rng();
    let mut cpu = any_cpu_with_rom(&[0x80, 0x15]);
    cpu.v_registers[0x0] = 0xF0;
    cpu.v_registers[0x1] = 0x11;

    let res = cpu.tick(rng.gen());

    assert!(res.is_ok());
    assert_eq!(cpu.pc, 0x202);
    assert_eq!(cpu.v_registers[0x0], 0xDF);
    assert_eq!(cpu.v_registers[0x1], 0x11);
    assert_eq!(cpu.v_registers[0xF], 0x1);
}

#[test]
fn test_sub_overflow() {
    let mut rng = any_mocked_rng();
    let mut cpu = any_cpu_with_rom(&[0x80, 0x15]);
    cpu.v_registers[0x0] = 0xF0;
    cpu.v_registers[0x1] = 0xF1;

    let res = cpu.tick(rng.gen());

    assert!(res.is_ok());
    assert_eq!(cpu.pc, 0x202);
    assert_eq!(cpu.v_registers[0x0], 0xFF);
    assert_eq!(cpu.v_registers[0x1], 0xF1);
    assert_eq!(cpu.v_registers[0xF], 0x0);
}

#[test]
fn test_shift_right_vx() {
    let mut rng = any_mocked_rng();
    let mut cpu = any_cpu_with_rom(&[0x80, 0x16]);
    cpu.v_registers[0x0] = 0b_0100_1110;

    let res = cpu.tick(rng.gen());

    assert!(res.is_ok());
    assert_eq!(cpu.pc, 0x202);
    assert_eq!(cpu.v_registers[0x0], 0b_0010_0_111);
    assert_eq!(cpu.v_registers[0xF], 0x0);
}

#[test]
fn test_shift_right_vx_with_shifted_out_bit() {
    let mut rng = any_mocked_rng();
    let mut cpu = any_cpu_with_rom(&[0x80, 0x16]);
    cpu.v_registers[0x0] = 0b_0100_1111;

    let res = cpu.tick(rng.gen());

    assert!(res.is_ok());
    assert_eq!(cpu.pc, 0x202);
    assert_eq!(cpu.v_registers[0x0], 0b_0010_0_111);
    assert_eq!(cpu.v_registers[0xF], 0x01);
}

#[test]
fn test_subn() {
    let mut rng = any_mocked_rng();
    let mut cpu = any_cpu_with_rom(&[0x80, 0x17]);
    cpu.v_registers[0x0] = 0x11;
    cpu.v_registers[0x1] = 0xF0;

    let res = cpu.tick(rng.gen());

    assert!(res.is_ok());
    assert_eq!(cpu.pc, 0x202);
    assert_eq!(cpu.v_registers[0x0], 0xDF);
    assert_eq!(cpu.v_registers[0x1], 0xF0);
    assert_eq!(cpu.v_registers[0xF], 0x1);
}

#[test]
fn test_subn_overflow() {
    let mut rng = any_mocked_rng();
    let mut cpu = any_cpu_with_rom(&[0x80, 0x17]);
    cpu.v_registers[0x0] = 0xF1;
    cpu.v_registers[0x1] = 0xF0;

    let res = cpu.tick(rng.gen());

    assert!(res.is_ok());
    assert_eq!(cpu.pc, 0x202);
    assert_eq!(cpu.v_registers[0x0], 0xFF);
    assert_eq!(cpu.v_registers[0x1], 0xF0);
    assert_eq!(cpu.v_registers[0xF], 0x0);
}

#[test]
fn test_shift_left_vx() {
    let mut rng = any_mocked_rng();
    let mut cpu = any_cpu_with_rom(&[0x80, 0x1E]);
    cpu.v_registers[0x0] = 0b_0100_1110;

    let res = cpu.tick(rng.gen());

    assert!(res.is_ok());
    assert_eq!(cpu.pc, 0x202);
    assert_eq!(cpu.v_registers[0x0], 0b_1001_1100);
    assert_eq!(cpu.v_registers[0xF], 0x0);
}

#[test]
fn test_shift_left_vx_with_shifted_out_bit() {
    let mut rng = any_mocked_rng();
    let mut cpu = any_cpu_with_rom(&[0x80, 0x1E]);
    cpu.v_registers[0x0] = 0b_1100_1111;

    let res = cpu.tick(rng.gen());

    assert!(res.is_ok());
    assert_eq!(cpu.pc, 0x202);
    assert_eq!(cpu.v_registers[0x0], 0b_1001_1110);
    assert_eq!(cpu.v_registers[0xF], 0x01);
}

#[test]
fn test_skip_if_not_equal_skips() {
    let mut rng = any_mocked_rng();
    let mut cpu = any_cpu_with_rom(&[0x90, 0x10]);
    cpu.v_registers[0] = 0xFF;
    cpu.v_registers[1] = 0x0F;

    let res = cpu.tick(rng.gen());

    assert!(res.is_ok());
    assert_eq!(cpu.pc, 0x204);
}

#[test]
fn test_skip_if_not_equal_does_not_skip() {
    let mut rng = any_mocked_rng();
    let mut cpu = any_cpu_with_rom(&[0x90, 0x10]);
    cpu.v_registers[0] = 0xFF;
    cpu.v_registers[1] = 0xFF;

    let res = cpu.tick(rng.gen());

    assert!(res.is_ok());
    assert_eq!(cpu.pc, 0x202);
}

#[test]
fn test_load_i() {
    let mut rng = any_mocked_rng();
    let mut cpu = any_cpu_with_rom(&[0xA1, 0x23]);

    let res = cpu.tick(rng.gen());

    assert!(res.is_ok());
    assert_eq!(cpu.pc, 0x0202);
    assert_eq!(cpu.i_register, 0x123);
}

#[test]
fn test_jump_offset() {
    let mut rng = any_mocked_rng();
    let mut cpu = any_cpu_with_rom(&[0xB2, 0x23]);
    cpu.v_registers[0x2] = 0x10;

    let res = cpu.tick(rng.gen());

    assert!(res.is_ok());
    assert_eq!(cpu.pc, 0x233);
}

#[test]
fn test_rand() {
    let mut rng = any_mocked_rng();
    let mut cpu = any_cpu_with_rom(&[0xC0, 0xAB]);

    let res = cpu.tick(rng.gen());

    assert!(res.is_ok());
    assert_eq!(cpu.v_registers[0], 0x01 & 0xAB);
}

#[test]
fn test_draw_sprite_simple() {
    let mut rng = any_mocked_rng();
    let mut cpu = any_cpu_with_rom(&[0xD0, 0x13]);
    cpu.i_register = 0x300;
    cpu.v_registers[0] = 0x1;
    cpu.v_registers[1] = 0x2;
    cpu.memory[0x300] = 0xFF;
    cpu.memory[0x301] = 0x00;
    cpu.memory[0x302] = 0xFF;

    let res = cpu.tick(rng.gen());

    let i = (2 * SCREEN_WIDTH) + 1;
    assert!(res.is_ok());
    assert_eq!(cpu.pc, 0x0202);
    assert_eq!(cpu.v_buffer[i..(i + 8)], [true; 8]);
    assert_eq!(cpu.v_buffer[i + 64..(i + 64 + 8)], [false; 8]);
    assert_eq!(cpu.v_buffer[i + 128..(i + 128 + 8)], [true; 8]);
    assert_eq!(cpu.v_registers[0xF], 0);
}

#[test]
fn test_draw_sprite_wraps() {
    let mut rng = any_mocked_rng();
    let mut cpu = any_cpu_with_rom(&[0xD0, 0x13]);
    cpu.i_register = 0x300;
    cpu.v_registers[0] = 60;
    cpu.v_registers[1] = 30;
    cpu.memory[0x300] = 0xFF;
    cpu.memory[0x301] = 0x00;
    cpu.memory[0x302] = 0xFF;

    let res = cpu.tick(rng.gen());

    let mut i = (30 * SCREEN_WIDTH) + 60;
    assert!(res.is_ok());
    assert_eq!(cpu.pc, 0x0202);
    assert_eq!(cpu.v_buffer[i..(i + 4)], [true; 4]);
    assert_eq!(cpu.v_buffer[i - 60..(i - 60 + 4)], [true; 4]);
    i = (30 * SCREEN_WIDTH) + 64;
    assert_eq!(cpu.v_buffer[i..(i + 4)], [false; 4]);
    assert_eq!(cpu.v_buffer[i - 60..(i - 60 + 4)], [false; 4]);
    i = 60;
    assert_eq!(cpu.v_buffer[i..(i + 4)], [true; 4]);
    assert_eq!(cpu.v_buffer[i - 60..(i - 60 + 4)], [true; 4]);
    assert_eq!(cpu.v_registers[0xF], 0);
}

#[test]
fn test_draw_sprite_with_collision() {
    let mut rng = any_mocked_rng();
    let mut cpu = any_cpu_with_rom(&[0xD0, 0x11]);
    cpu.i_register = 0x300;
    cpu.v_registers[0] = 0;
    cpu.v_registers[1] = 0;
    cpu.memory[0x300] = 0xFF;
    cpu.v_buffer[0..8].copy_from_slice(&[false, false, false, false, true, true, true, true]);

    let res = cpu.tick(rng.gen());

    assert!(res.is_ok());
    assert_eq!(cpu.pc, 0x202);
    assert_eq!(
        cpu.v_buffer[0..8],
        [true, true, true, true, false, false, false, false]
    );
    assert_eq!(cpu.v_registers[0xF], 1);
}

#[test]
fn test_skip_if_key_skips_when_key_is_pressed() {
    let mut rng = any_mocked_rng();
    let mut cpu = any_cpu_with_rom(&[0xE0, 0x9E]);
    cpu.v_registers[0x0] = 0x07;
    cpu.keypad[0x07] = true;

    let res = cpu.tick(rng.gen());

    assert!(res.is_ok());
    assert_eq!(cpu.pc, 0x204);
}

#[test]
fn test_skip_if_key_does_not_skip_when_key_is_not_pressed() {
    let mut rng = any_mocked_rng();
    let mut cpu = any_cpu_with_rom(&[0xE0, 0x9E]);
    cpu.v_registers[0x0] = 0x07;
    cpu.keypad[0x07] = false;

    let res = cpu.tick(rng.gen());

    assert!(res.is_ok());
    assert_eq!(cpu.pc, 0x202);
}

#[test]
fn test_skip_if_key_returns_error_when_invalid_key() {
    let mut rng = any_mocked_rng();
    let mut cpu = any_cpu_with_rom(&[0xE0, 0x9E]);
    cpu.v_registers[0x0] = 0x10;

    let res = cpu.tick(rng.gen());

    assert_eq!(res.unwrap_err(), CPUError::InvalidKey(0x10));
}

#[test]
fn test_skip_if_not_key_skips_when_key_is_not_pressed() {
    let mut rng = any_mocked_rng();
    let mut cpu = any_cpu_with_rom(&[0xE0, 0xA1]);
    cpu.v_registers[0x0] = 0x07;
    cpu.keypad[0x07] = false;

    let res = cpu.tick(rng.gen());

    assert!(res.is_ok());
    assert_eq!(cpu.pc, 0x204);
}

#[test]
fn test_skip_if_not_key_does_not_skip_when_key_is_pressed() {
    let mut rng = any_mocked_rng();
    let mut cpu = any_cpu_with_rom(&[0xE0, 0xA1]);
    cpu.v_registers[0x0] = 0x07;
    cpu.keypad[0x07] = true;

    let res = cpu.tick(rng.gen());

    assert!(res.is_ok());
    assert_eq!(cpu.pc, 0x202);
}

#[test]
fn test_load_delay() {
    let mut rng = any_mocked_rng();
    let mut cpu = any_cpu_with_rom(&[0xF0, 0x07]);
    cpu.delay_timer = 0xCC + 0x01; // +1 because it will be decremented with tick

    let res = cpu.tick(rng.gen());

    assert!(res.is_ok());
    assert_eq!(cpu.pc, 0x202);
    assert_eq!(cpu.v_registers[0x0], 0xCC);
}

#[test]
fn test_wait_for_key() {
    let mut rng = any_mocked_rng();
    let mut cpu = any_cpu_with_rom(&[0xF1, 0x0A]);

    let res = cpu.tick(rng.gen());
    assert_eq!(
        res.unwrap(),
        TickStatus {
            is_waiting_for_key: true,
            is_buzzing: false,
        }
    );
    assert_eq!(cpu.pc, 0x202);
    assert_eq!(cpu.is_waiting_for_key, (true, 0x01));

    // unblocked execution with a key pressed
    cpu.set_key_status(0xF, true).unwrap();

    assert_eq!(cpu.is_waiting_for_key, (false, 0x00));
    assert_eq!(cpu.v_registers[0x01], 0x0F);
}

#[test]
fn test_set_delay() {
    let mut rng = any_mocked_rng();
    let mut cpu = any_cpu_with_rom(&[0xF0, 0x15]);
    cpu.v_registers[0x0] = 0xFA;

    let res = cpu.tick(rng.gen());

    assert!(res.is_ok());
    assert_eq!(cpu.pc, 0x202);
    assert_eq!(cpu.delay_timer, 0xFA);
}

#[test]
fn test_set_sound() {
    let mut rng = any_mocked_rng();
    let mut cpu = any_cpu_with_rom(&[0xF0, 0x18]);
    cpu.v_registers[0x0] = 0xFA;

    let res = cpu.tick(rng.gen());

    assert!(res.is_ok());
    assert_eq!(cpu.pc, 0x202);
    assert_eq!(cpu.sound_timer, 0xFA);
}

#[test]
fn test_add_to_index() {
    let mut rng = any_mocked_rng();
    let mut cpu = any_cpu_with_rom(&[0xF0, 0x1E]);
    cpu.i_register = 0xFA;
    cpu.v_registers[0] = 0x02;

    let res = cpu.tick(rng.gen());

    assert!(res.is_ok());
    assert_eq!(cpu.pc, 0x202);
    assert_eq!(cpu.i_register, 0xFC);
}

#[test]
fn test_add_to_index_overflows() {
    let mut rng = any_mocked_rng();
    let mut cpu = any_cpu_with_rom(&[0xF0, 0x1E]);
    cpu.i_register = 0xFFE;
    cpu.v_registers[0x0] = 0x02;
    cpu.v_registers[0xF] = 0x0;

    let res = cpu.tick(rng.gen());

    assert!(res.is_ok());
    assert_eq!(cpu.pc, 0x202);
    assert_eq!(cpu.i_register, 0x00);
    assert_eq!(cpu.v_registers[0xF], 0x01);
}

#[test]
fn test_load_bcd() {
    let mut rng = any_mocked_rng();
    let mut cpu = any_cpu_with_rom(&[0xF0, 0x33]);
    cpu.v_registers[0x0] = 251;
    cpu.i_register = 0x500;

    let res = cpu.tick(rng.gen());

    assert!(res.is_ok());
    assert_eq!(cpu.pc, 0x202);
    assert_eq!(cpu.memory[0x500], 0x02);
    assert_eq!(cpu.memory[0x501], 0x05);
    assert_eq!(cpu.memory[0x502], 0x01);
}

#[test]
fn test_load_bcd_returns_invalid_address_error() {
    let mut rng = any_mocked_rng();
    let mut cpu = any_cpu_with_rom(&[0xF0, 0x33]);
    cpu.i_register = 0xFFF;

    let res = cpu.tick(rng.gen());
    assert_eq!(res.unwrap_err(), CPUError::InvalidAddress(0x1000));
}

#[test]
fn test_load_mem() {
    let mut rng = any_mocked_rng();
    let mut cpu = any_cpu_with_rom(&[0xF2, 0x65]);
    cpu.i_register = 0x500;
    cpu.memory[0x500..=0x503].copy_from_slice(&[0x02, 0x04, 0x06, 0xFF]);

    let res = cpu.tick(rng.gen());
    assert!(res.is_ok());
    assert_eq!(cpu.pc, 0x202);
    assert_eq!(cpu.i_register, 0x500);
    assert_eq!(cpu.v_registers[0x0], 0x02);
    assert_eq!(cpu.v_registers[0x1], 0x04);
    assert_eq!(cpu.v_registers[0x2], 0x06);
    assert_eq!(cpu.v_registers[0x3], 0x00);
}

#[test]
fn test_load_mem_returns_invalid_address_error() {
    let mut rng = any_mocked_rng();
    let mut cpu = any_cpu_with_rom(&[0xF1, 0x55]);
    cpu.i_register = 0xFFF;

    let res = cpu.tick(rng.gen());
    assert_eq!(res.unwrap_err(), CPUError::InvalidAddress(0x1000));
}
