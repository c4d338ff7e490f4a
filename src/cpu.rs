use vstd::prelude::*;

use crate::error::CPUError;
use crate::instruction::{decode, lemma_decode_outcomes, Instruction};
use crate::sprites;
use crate::sprites::{blit, collision, covered, lemma_draw_xor};

verus! {

/// Bytes of addressable memory.
pub const MEM_SIZE: usize = 4096;
/// The first address above the reserved region: where a program is loaded.
pub const MEM_START: usize = 0x200;
/// The last addressable byte.
pub const MEM_END: usize = 0xFFF;
/// Number of general-purpose registers.
pub const V_REGISTERS_SIZE: usize = 16;
/// Screen width in pixels.
pub const SCREEN_WIDTH: usize = 64;
/// Screen height in pixels.
pub const SCREEN_HEIGHT: usize = 32;
/// Number of pixels on the screen.
pub const SCREEN_SIZE: usize = SCREEN_WIDTH * SCREEN_HEIGHT;
/// Depth of the call stack.
pub const STACK_SIZE: usize = 16;
/// Number of keys on the keypad.
pub const KEYMAP_SIZE: usize = 16;
/// Where the glyph of digit 0 starts in the reserved region; the glyph of
/// digit `d` starts `d * DIGIT_SIZE` bytes further on.
pub const FONT_START: u16 = 0x000;
/// The flag register VF.
pub const FLAG_REGISTER: u8 = 0xF;

/// What a tick reports to the host.
#[derive(Debug, PartialEq, Eq, Structural, Clone, Copy)]
pub struct TickStatus {
    /// The interpreter waits for a key press and fetches nothing meanwhile.
    pub is_waiting_for_key: bool,
    /// The sound timer is running: the buzzer should sound.
    pub is_buzzing: bool,
}

/// The status of an instruction that neither waits nor buzzes.
pub open spec fn idle() -> TickStatus {
    TickStatus { is_waiting_for_key: false, is_buzzing: false }
}

impl Default for TickStatus {
    fn default() -> (r: TickStatus)
        ensures
            r == idle(),
    {
        TickStatus { is_waiting_for_key: false, is_buzzing: false }
    }
}

/// The complete state of the interpreter, owned by it alone. The fields are
/// public so that a host or a test can inspect and prepare a state; no
/// operation relies on more than their types give, since each one checks the
/// indices that it reads (the stack pointer, the waiting register, PC).
pub struct CPU {
    pub memory: [u8; MEM_SIZE],
    pub pc: u16,
    pub sp: usize,
    pub v_registers: [u8; V_REGISTERS_SIZE],
    pub i_register: u16,
    pub v_buffer: [bool; SCREEN_SIZE],
    pub stack: [u16; STACK_SIZE],
    pub keypad: [bool; KEYMAP_SIZE],
    pub delay_timer: u8,
    pub sound_timer: u8,
    /// Whether a wait-for-key is latched, and the register that receives the key.
    pub is_waiting_for_key: (bool, usize),
}

/// The interpreter's state as mathematical values, field for field.
pub struct Machine {
    pub memory: Seq<u8>,
    pub pc: u16,
    /// The number of return addresses on the stack.
    pub sp: usize,
    /// V0 to VF.
    pub v: Seq<u8>,
    /// The index register I.
    pub i: u16,
    /// The pixels, row-major.
    pub screen: Seq<bool>,
    pub stack: Seq<u16>,
    pub keypad: Seq<bool>,
    pub delay: u8,
    pub sound: u8,
    /// A wait-for-key is latched.
    pub waiting: bool,
    /// The register that receives the key once one is pressed.
    pub dest: usize,
}

impl View for CPU {
    type V = Machine;

    open spec fn view(&self) -> Machine {
        Machine {
            memory: self.memory@,
            pc: self.pc,
            sp: self.sp,
            v: self.v_registers@,
            i: self.i_register,
            screen: self.v_buffer@,
            stack: self.stack@,
            keypad: self.keypad@,
            delay: self.delay_timer,
            sound: self.sound_timer,
            waiting: self.is_waiting_for_key.0,
            dest: self.is_waiting_for_key.1,
        }
    }
}

/// How many consecutive addresses from `start` on the load and save
/// instructions may use: those in `MEM_START..=MEM_END`.
pub open spec fn writable_run(start: int) -> int {
    if MEM_START <= start <= MEM_END {
        MEM_END + 1 - start
    } else {
        0
    }
}

/// `base` with its bytes from `start` to `start + n` replaced by the first `n`
/// of `bytes`.
pub open spec fn overlay<T>(base: Seq<T>, start: int, bytes: Seq<T>, n: int) -> Seq<T> {
    Seq::new(base.len(), |a: int| if start <= a < start + n { bytes[a - start] } else { base[a] })
}

/// The sprite bytes that `DrawSprite` reads: `n` bytes from `start`.
pub open spec fn sprite_at(memory: Seq<u8>, start: int, n: int) -> Seq<u8> {
    memory.subrange(start, start + n)
}

impl Machine {
    /// The state in which a new interpreter starts and to which reset returns.
    pub open spec fn initial() -> Machine {
        Machine {
            memory: Seq::new(MEM_SIZE as nat, |a: int| 0u8),
            pc: MEM_START as u16,
            sp: 0,
            v: Seq::new(V_REGISTERS_SIZE as nat, |j: int| 0u8),
            i: 0,
            screen: Seq::new(SCREEN_SIZE as nat, |p: int| false),
            stack: Seq::new(STACK_SIZE as nat, |j: int| 0u16),
            keypad: Seq::new(KEYMAP_SIZE as nat, |k: int| false),
            delay: 0,
            sound: 0,
            waiting: false,
            dest: 0,
        }
    }

    /// The state with register `x` set to `value`.
    pub open spec fn set_reg(self, x: int, value: u8) -> Machine {
        Machine { v: self.v.update(x, value), ..self }
    }

    /// The state with the next instruction skipped where `cond` holds.
    pub open spec fn skip_if(self, cond: bool) -> Machine {
        if cond {
            Machine { pc: (self.pc + 2) as u16, ..self }
        } else {
            self
        }
    }

    /// Writes `bytes` from address `start` on, one by one, and stops with
    /// `InvalidAddress` at the first address outside `MEM_START..=MEM_END`.
    pub open spec fn store(self, start: int, bytes: Seq<u8>) -> (Machine, Result<TickStatus, CPUError>) {
        let run = writable_run(start);
        let n = if bytes.len() <= run { bytes.len() as int } else { run };
        (
            Machine { memory: overlay(self.memory, start, bytes, n), ..self },
            if bytes.len() <= run {
                Ok(idle())
            } else {
                Err(CPUError::InvalidAddress((start + run) as u16))
            },
        )
    }

    /// Reads `count` bytes from address `start` on into V0, V1, ..., one by
    /// one, and stops with `InvalidAddress` at the first address outside
    /// `MEM_START..=MEM_END`.
    pub open spec fn load(self, start: int, count: int) -> (Machine, Result<TickStatus, CPUError>) {
        let run = writable_run(start);
        let n = if count <= run { count } else { run };
        (
            Machine { v: overlay(self.v, 0, self.memory.subrange(start, start + n), n), ..self },
            if count <= run {
                Ok(idle())
            } else {
                Err(CPUError::InvalidAddress((start + run) as u16))
            },
        )
    }

    /// The effect of executing one decoded instruction, with `random` as the
    /// random byte that `Rand` uses.
    pub open spec fn execute(self, ins: Instruction, random: u8) -> (Machine, Result<TickStatus, CPUError>) {
        let done = Ok::<TickStatus, CPUError>(idle());
        match ins {
            Instruction::NoOp => (self, done),
            Instruction::ClearScreen => (
                Machine { screen: Seq::new(SCREEN_SIZE as nat, |p: int| false), ..self },
                done,
            ),
            Instruction::Return => if self.sp == 0 {
                (self, Err(CPUError::StackUnderflow))
            } else if self.sp > STACK_SIZE {
                (self, Err(CPUError::StackOverflow))
            } else {
                (Machine { pc: self.stack[self.sp - 1], sp: (self.sp - 1) as usize, ..self }, done)
            },
            Instruction::Jump(nnn) => (Machine { pc: nnn, ..self }, done),
            Instruction::Call(nnn) => if self.sp >= STACK_SIZE {
                (self, Err(CPUError::StackOverflow))
            } else {
                (
                    Machine {
                        stack: self.stack.update(self.sp as int, self.pc),
                        sp: (self.sp + 1) as usize,
                        pc: nnn,
                        ..self
                    },
                    done,
                )
            },
            Instruction::SkipVxEqual(x, kk) => if x >= 16 {
                (self, Err(CPUError::InvalidVRegister(x)))
            } else {
                (self.skip_if(self.v[x as int] == kk), done)
            },
            Instruction::SkipVxNotEqual(x, kk) => if x >= 16 {
                (self, Err(CPUError::InvalidVRegister(x)))
            } else {
                (self.skip_if(self.v[x as int] != kk), done)
            },
            Instruction::LoadVx(x, kk) => if x >= 16 {
                (self, Err(CPUError::InvalidVRegister(x)))
            } else {
                (self.set_reg(x as int, kk), done)
            },
            Instruction::AddVx(x, kk) => if x >= 16 {
                (self, Err(CPUError::InvalidVRegister(x)))
            } else {
                (self.set_reg(x as int, ((self.v[x as int] + kk) % 256) as u8), done)
            },
            Instruction::SkipEqual(x, y)
            | Instruction::SetRegister(x, y)
            | Instruction::Or(x, y)
            | Instruction::And(x, y)
            | Instruction::Xor(x, y)
            | Instruction::Add(x, y)
            | Instruction::Sub(x, y)
            | Instruction::SubN(x, y)
            | Instruction::SkipNotEqual(x, y) => if x >= 16 {
                (self, Err(CPUError::InvalidVRegister(x)))
            } else if y >= 16 {
                (self, Err(CPUError::InvalidVRegister(y)))
            } else {
                (self.pair(ins, self.v[x as int], self.v[y as int]), done)
            },
            Instruction::ShiftRightVx(x) => if x >= 16 {
                (self, Err(CPUError::InvalidVRegister(x)))
            } else {
                let vx = self.v[x as int];
                (self.set_reg(x as int, vx / 2).set_reg(0xF, vx % 2), done)
            },
            Instruction::ShiftLeftVx(x) => if x >= 16 {
                (self, Err(CPUError::InvalidVRegister(x)))
            } else {
                let vx = self.v[x as int];
                (self.set_reg(x as int, ((vx * 2) % 256) as u8).set_reg(0xF, vx / 128), done)
            },
            Instruction::LoadI(nnn) => (Machine { i: nnn, ..self }, done),
            Instruction::JumpOffset(x, nnn) => if x >= 16 {
                (self, Err(CPUError::InvalidVRegister(x)))
            } else {
                (Machine { pc: (nnn + self.v[x as int]) as u16, ..self }, done)
            },
            Instruction::Rand(x, kk) => if x >= 16 {
                (self, Err(CPUError::InvalidVRegister(x)))
            } else {
                (self.set_reg(x as int, random & kk), done)
            },
            Instruction::DrawSprite(x, y, n) => if self.i + n > MEM_SIZE {
                (self, Err(CPUError::InvalidAddress((self.i + n - 1) as u16)))
            } else if x >= 16 {
                (self, Err(CPUError::InvalidVRegister(x)))
            } else if y >= 16 {
                (self, Err(CPUError::InvalidVRegister(y)))
            } else {
                let sprite = sprite_at(self.memory, self.i as int, n as int);
                let (vx, vy) = (self.v[x as int] as int, self.v[y as int] as int);
                let k = (n * 8) as nat;
                let w = SCREEN_WIDTH as int;
                let h = SCREEN_HEIGHT as int;
                let hit = collision(self.screen, sprite, vx, vy, w, h, k);
                (
                    Machine { screen: blit(self.screen, sprite, vx, vy, w, h, k), ..self }.set_reg(
                        0xF,
                        if hit { 1 } else { 0 },
                    ),
                    done,
                )
            },
            Instruction::SkipIfKey(x) | Instruction::SkipIfNotKey(x) => if x >= 16 {
                (self, Err(CPUError::InvalidVRegister(x)))
            } else if self.v[x as int] >= 16 {
                (self, Err(CPUError::InvalidKey(self.v[x as int] as usize)))
            } else {
                let pressed = self.keypad[self.v[x as int] as int];
                (self.skip_if(if ins is SkipIfKey { pressed } else { !pressed }), done)
            },
            Instruction::LoadDelay(x) => if x >= 16 {
                (self, Err(CPUError::InvalidVRegister(x)))
            } else {
                (self.set_reg(x as int, self.delay), done)
            },
            Instruction::WaitForKey(x) => if x >= 16 {
                (self, Err(CPUError::InvalidVRegister(x)))
            } else {
                (
                    Machine { waiting: true, dest: x as usize, ..self },
                    Ok(TickStatus { is_waiting_for_key: true, is_buzzing: false }),
                )
            },
            Instruction::SetDelay(x) => if x >= 16 {
                (self, Err(CPUError::InvalidVRegister(x)))
            } else {
                (Machine { delay: self.v[x as int], ..self }, done)
            },
            Instruction::SetSound(x) => if x >= 16 {
                (self, Err(CPUError::InvalidVRegister(x)))
            } else {
                (Machine { sound: self.v[x as int], ..self }, done)
            },
            Instruction::AddToIndex(x) => if x >= 16 {
                (self, Err(CPUError::InvalidVRegister(x)))
            } else {
                let sum = self.i + self.v[x as int];
                if sum > MEM_END {
                    (Machine { i: (sum % 0x1000) as u16, ..self }.set_reg(0xF, 1), done)
                } else {
                    (Machine { i: sum as u16, ..self }.set_reg(0xF, 0), done)
                }
            },
            Instruction::LoadDigit(x) => if x >= 16 {
                (self, Err(CPUError::InvalidVRegister(x)))
            } else if self.v[x as int] >= 16 {
                (self, Err(CPUError::InvalidDigit(self.v[x as int])))
            } else {
                (Machine { i: (FONT_START + self.v[x as int] * 5) as u16, ..self }, done)
            },
            Instruction::LoadBCD(x) => if x >= 16 {
                (self, Err(CPUError::InvalidVRegister(x)))
            } else {
                let vx = self.v[x as int];
                self.store(self.i as int, seq![vx / 100, (vx / 10) % 10, vx % 10])
            },
            Instruction::SaveMem(x) => if x >= 16 {
                (self, Err(CPUError::InvalidVRegister(x)))
            } else {
                self.store(self.i as int, self.v.subrange(0, x + 1))
            },
            Instruction::LoadMem(x) => if x >= 16 {
                (self, Err(CPUError::InvalidVRegister(x)))
            } else {
                self.load(self.i as int, x + 1)
            },
        }
    }

    /// The effect of one tick: both timers count down, saturating at zero;
    /// then, unless a wait-for-key is latched, the big-endian word at PC is
    /// fetched (PC advancing past each byte read), decoded and executed.
    pub open spec fn tick(self, random: u8) -> (Machine, Result<TickStatus, CPUError>) {
        let m = Machine {
            delay: self.delay.saturating_sub(1),
            sound: self.sound.saturating_sub(1),
            ..self
        };
        if m.waiting {
            (m, Ok(TickStatus { is_waiting_for_key: true, is_buzzing: m.sound > 0 }))
        } else if m.pc >= MEM_SIZE {
            (m, Err(CPUError::InvalidAddress(m.pc)))
        } else if m.pc + 1 >= MEM_SIZE {
            (
                Machine { pc: (m.pc + 1) as u16, ..m },
                Err(CPUError::InvalidAddress((m.pc + 1) as u16)),
            )
        } else {
            let op = (m.memory[m.pc as int] * 256 + m.memory[m.pc + 1]) as u16;
            let fetched = Machine { pc: (m.pc + 2) as u16, ..m };
            match decode(op) {
                Err(e) => (fetched, Err(e)),
                Ok(ins) => {
                    let (after, r) = fetched.execute(ins, random);
                    (
                        after,
                        match r {
                            Ok(st) => Ok(TickStatus { is_buzzing: after.sound > 0, ..st }),
                            Err(e) => Err(e),
                        },
                    )
                },
            }
        }
    }

    /// The effect of the host reporting key `key` as pressed or released. A
    /// press while a wait-for-key is latched stores the key's index in the
    /// waiting register and clears the latch.
    pub open spec fn press(self, key: usize, pressed: bool) -> (Machine, Result<(), CPUError>) {
        if key >= KEYMAP_SIZE {
            (self, Err(CPUError::InvalidKey(key)))
        } else {
            let m = Machine { keypad: self.keypad.update(key as int, pressed), ..self };
            if m.waiting && pressed {
                if m.dest >= V_REGISTERS_SIZE {
                    (m, Err(CPUError::InvalidVRegister(m.dest as u8)))
                } else {
                    (Machine { waiting: false, dest: 0, ..m.set_reg(m.dest as int, key as u8) }, Ok(()))
                }
            } else {
                (m, Ok(()))
            }
        }
    }

    /// The effect of loading a program: it is copied to `MEM_START` on, and
    /// refused with `MemoryOverflow`, changing nothing, where it does not fit.
    pub open spec fn with_rom(self, rom: Seq<u8>) -> (Machine, Result<(), CPUError>) {
        if rom.len() > MEM_SIZE - MEM_START {
            (self, Err(CPUError::MemoryOverflow))
        } else {
            (Machine { memory: overlay(self.memory, MEM_START as int, rom, rom.len() as int), ..self }, Ok(()))
        }
    }

    /// The register-to-register instructions, given Vx and Vy.
    pub open spec fn pair(self, ins: Instruction, vx: u8, vy: u8) -> Machine {
        match ins {
            Instruction::SkipEqual(x, y) => self.skip_if(vx == vy),
            Instruction::SkipNotEqual(x, y) => self.skip_if(vx != vy),
            Instruction::SetRegister(x, y) => self.set_reg(x as int, vy),
            Instruction::Or(x, y) => self.set_reg(x as int, vx | vy),
            Instruction::And(x, y) => self.set_reg(x as int, vx & vy),
            Instruction::Xor(x, y) => self.set_reg(x as int, vx ^ vy),
            Instruction::Add(x, y) => self.set_reg(x as int, ((vx + vy) % 256) as u8).set_reg(
                0xF,
                if vx + vy >= 256 { 1 } else { 0 },
            ),
            Instruction::Sub(x, y) => self.set_reg(x as int, ((vx - vy) % 256) as u8).set_reg(
                0xF,
                if vx >= vy { 1 } else { 0 },
            ),
            Instruction::SubN(x, y) => self.set_reg(x as int, ((vy - vx) % 256) as u8).set_reg(
                0xF,
                if vy >= vx { 1 } else { 0 },
            ),
            _ => self,
        }
    }
}

impl CPU {
    /// A new interpreter: every byte, register, timer, key and pixel zero,
    /// the stack empty and PC at `MEM_START`.
    pub fn new() -> (r: CPU)
        ensures
            r@ == Machine::initial(),
    {
        let cpu = CPU {
            memory: [0; MEM_SIZE],
            pc: MEM_START as u16,
            sp: 0,
            v_registers: [0; V_REGISTERS_SIZE],
            i_register: 0,
            v_buffer: [false; SCREEN_SIZE],
            stack: [0; STACK_SIZE],
            keypad: [false; KEYMAP_SIZE],
            delay_timer: 0,
            sound_timer: 0,
            is_waiting_for_key: (false, 0),
        };
        assert(cpu@.memory =~= Machine::initial().memory);
        assert(cpu@.v =~= Machine::initial().v);
        assert(cpu@.screen =~= Machine::initial().screen);
        assert(cpu@.stack =~= Machine::initial().stack);
        assert(cpu@.keypad =~= Machine::initial().keypad);
        cpu
    }

    /// Copies `rom` into memory from `MEM_START` on; fails with
    /// `MemoryOverflow`, changing nothing, when it is longer than
    /// `MEM_SIZE - MEM_START` bytes.
    pub fn load_rom(&mut self, rom: &[u8]) -> (r: Result<(), CPUError>)
        ensures
            (final(self)@, r) == old(self)@.with_rom(rom@),
    {
        if rom.len() > MEM_SIZE - MEM_START {
            return Err(CPUError::MemoryOverflow);
        }
        let mut j: usize = 0;
        assert(self.memory@ =~= overlay(old(self)@.memory, MEM_START as int, rom@, 0));
        while j < rom.len()
            invariant
                j <= rom@.len() <= MEM_SIZE - MEM_START,
                self@ == (Machine {
                    memory: overlay(old(self)@.memory, MEM_START as int, rom@, j as int),
                    ..old(self)@
                }),
            decreases rom@.len() - j,
        {
            self.memory[MEM_START + j] = rom[j];
            j = j + 1;
            assert(self.memory@ =~= overlay(old(self)@.memory, MEM_START as int, rom@, j as int));
        }
        Ok(())
    }

    /// Returns every part of the state to what `new` gives.
    pub fn reset(&mut self)
        ensures
            final(self)@ == Machine::initial(),
    {
        *self = CPU::new();
    }

    /// Records key `i` as pressed or released; fails with `InvalidKey` for an
    /// index of 16 or more. While a wait-for-key is latched, the first press
    /// reported this way wins: its index goes to the waiting register and the
    /// latch clears. Keys pressed together are thus taken in the order in which
    /// the host reports them.
    pub fn set_key_status(&mut self, i: usize, status: bool) -> (r: Result<(), CPUError>)
        ensures
            (final(self)@, r) == old(self)@.press(i, status),
    {
        if i >= KEYMAP_SIZE {
            return Err(CPUError::InvalidKey(i));
        }
        self.keypad[i] = status;

        let (is_waiting, vx) = self.is_waiting_for_key;
        if is_waiting && status {
            if vx >= V_REGISTERS_SIZE {
                return Err(CPUError::InvalidVRegister(vx as u8));
            }
            self.v_registers[vx] = i as u8;
            self.is_waiting_for_key = (false, 0);
        }
        Ok(())
    }

    /// One interpreter step, as `Machine::tick` states it: the timers count
    /// down, then one instruction is fetched, decoded and executed unless a
    /// wait-for-key is latched. `random` is the byte that `Rand` uses; every
    /// other instruction ignores it.
    pub fn tick(&mut self, random: u8) -> (r: Result<TickStatus, CPUError>)
        ensures
            old(self)@.tick(random) == (final(self)@, r),
    {
        self.delay_timer = self.delay_timer.saturating_sub(1);
        self.sound_timer = self.sound_timer.saturating_sub(1);

        let (is_waiting, _) = self.is_waiting_for_key;
        if is_waiting {
            return Ok(TickStatus { is_waiting_for_key: true, is_buzzing: self.sound_timer > 0 });
        }

        let high = self.read_byte()?;
        let low = self.read_byte()?;
        let opcode = (high as u16) << 8 | low as u16;
        assert(opcode == high * 256 + low) by (bit_vector)
            requires
                opcode == (high as u16) << 8 | low as u16,
        ;
        proof {
            lemma_decode_outcomes(opcode);
        }
        let instruction = Instruction::try_from(opcode)?;

        let mut status = match instruction {
            Instruction::NoOp => Ok(TickStatus::default()),
            Instruction::ClearScreen => self.exec_clear_screen(),
            Instruction::Return => self.exec_return(),
            Instruction::Jump(addr) => self.exec_jump(addr),
            Instruction::Call(addr) => self.exec_call(addr),
            Instruction::SkipVxEqual(x, value) => self.exec_skip_vx_if_equal(x, value),
            Instruction::SkipVxNotEqual(x, value) => self.exec_skip_vx_if_not_equal(x, value),
            Instruction::SkipEqual(x, y) => self.exec_skip_if_equal(x, y),
            Instruction::LoadVx(x, value) => self.exec_load_vx(x, value),
            Instruction::AddVx(x, value) => self.exec_add_vx(x, value),
            Instruction::SetRegister(x, y) => self.exec_set(x, y),
            Instruction::Or(x, y) => self.exec_or(x, y),
            Instruction::And(x, y) => self.exec_and(x, y),
            Instruction::Xor(x, y) => self.exec_xor(x, y),
            Instruction::Add(x, y) => self.exec_add(x, y),
            Instruction::Sub(x, y) => self.exec_sub(x, y),
            Instruction::ShiftRightVx(x) => self.exec_shiftr_vx(x),
            Instruction::SubN(x, y) => self.exec_subn(x, y),
            Instruction::ShiftLeftVx(x) => self.exec_shiftl_vx(x),
            Instruction::SkipNotEqual(x, y) => self.exec_skip_if_not_equal(x, y),
            Instruction::LoadI(x) => self.exec_load_i(x),
            Instruction::JumpOffset(x, addr) => self.exec_jump_offset(x, addr),
            Instruction::Rand(x, value) => self.exec_rand(x, value, random),
            Instruction::DrawSprite(x, y, n) => self.exec_draw_sprite(x, y, n),
            Instruction::SkipIfKey(vx) => self.exec_skip_if_key(vx),
            Instruction::SkipIfNotKey(vx) => self.exec_skip_if_not_key(vx),
            Instruction::LoadDelay(vx) => self.exec_load_delay(vx),
            Instruction::WaitForKey(vx) => self.exec_wait_for_key(vx),
            Instruction::SetDelay(vx) => self.exec_set_delay(vx),
            Instruction::SetSound(vx) => self.exec_set_sound(vx),
            Instruction::AddToIndex(vx) => self.exec_add_to_index(vx),
            Instruction::LoadDigit(vx) => self.exec_load_digit(vx),
            Instruction::LoadBCD(vx) => self.exec_load_bcd(vx),
            Instruction::SaveMem(vx) => self.exec_save_mem(vx),
            Instruction::LoadMem(vx) => self.exec_load_mem(vx),
        }?;

        status.is_buzzing = self.sound_timer > 0;
        Ok(status)
    }

    /// The screen, row-major, `SCREEN_WIDTH` pixels to a row.
    pub fn visual_buffer(&self) -> (r: &[bool; SCREEN_SIZE])
        ensures
            r@ == self.v_buffer@,
    {
        &self.v_buffer
    }

    fn read_byte(&mut self) -> (r: Result<u8, CPUError>)
        ensures
            old(self).pc < MEM_SIZE ==> r == Ok::<u8, CPUError>(old(self).memory@[old(self).pc as int])
                && final(self)@ == (Machine { pc: (old(self).pc + 1) as u16, ..old(self)@ }),
            old(self).pc >= MEM_SIZE ==> r == Err::<u8, CPUError>(CPUError::InvalidAddress(old(self).pc))
                && final(self)@ == old(self)@,
    {
        if self.pc as usize >= MEM_SIZE {
            return Err(CPUError::InvalidAddress(self.pc));
        }
        let value = self.memory[self.pc as usize];
        self.pc = self.pc + 1;
        Ok(value)
    }

    fn read_register(&self, x: u8) -> (r: Result<u8, CPUError>)
        ensures
            x < 16 ==> r == Ok::<u8, CPUError>(self.v_registers@[x as int]),
            x >= 16 ==> r == Err::<u8, CPUError>(CPUError::InvalidVRegister(x)),
    {
        if x as usize >= V_REGISTERS_SIZE {
            return Err(CPUError::InvalidVRegister(x));
        }
        Ok(self.v_registers[x as usize])
    }

    fn set_register(&mut self, x: u8, value: u8) -> (r: Result<(), CPUError>)
        ensures
            x < 16 ==> r == Ok::<(), CPUError>(()) && final(self)@ == old(self)@.set_reg(x as int, value),
            x >= 16 ==> r == Err::<(), CPUError>(CPUError::InvalidVRegister(x)) && final(self)@ == old(self)@,
    {
        if x as usize >= V_REGISTERS_SIZE {
            return Err(CPUError::InvalidVRegister(x));
        }
        self.v_registers[x as usize] = value;
        Ok(())
    }

    fn set_memory(&mut self, addr: usize, value: u8) -> (r: Result<(), CPUError>)
        ensures
            MEM_START <= addr <= MEM_END ==> r == Ok::<(), CPUError>(()) && final(self)@ == (Machine {
                memory: old(self)@.memory.update(addr as int, value),
                ..old(self)@
            }),
            !(MEM_START <= addr <= MEM_END) ==> r == Err::<(), CPUError>(
                CPUError::InvalidAddress(addr as u16),
            ) && final(self)@ == old(self)@,
    {
        if addr < MEM_START || addr > MEM_END {
            return Err(CPUError::InvalidAddress(addr as u16));
        }
        self.memory[addr] = value;
        Ok(())
    }

    fn get_memory(&self, addr: usize) -> (r: Result<u8, CPUError>)
        ensures
            MEM_START <= addr <= MEM_END ==> r == Ok::<u8, CPUError>(self.memory@[addr as int]),
            !(MEM_START <= addr <= MEM_END) ==> r == Err::<u8, CPUError>(
                CPUError::InvalidAddress(addr as u16),
            ),
    {
        if addr < MEM_START || addr > MEM_END {
            return Err(CPUError::InvalidAddress(addr as u16));
        }
        Ok(self.memory[addr])
    }

    /// Sets I to `value` kept to 12 bits; the carry is 1 where bits were lost.
    fn set_i_register(&mut self, value: u32) -> (carry: u8)
        ensures
            value > MEM_END ==> carry == 1 && final(self)@ == (Machine {
                i: (value % 0x1000) as u16,
                ..old(self)@
            }),
            value <= MEM_END ==> carry == 0 && final(self)@ == (Machine { i: value as u16, ..old(self)@ }),
    {
        let mut carry = 0u8;
        let mut x = value;
        if x > MEM_END as u32 {
            assert(x & 0xFFF == x % 0x1000) by (bit_vector);
            x = x & (MEM_END as u32);
            carry = 0x01;
        }
        self.i_register = x as u16;
        carry
    }

    fn read_key(&self, i: u8) -> (r: Result<bool, CPUError>)
        ensures
            i < 16 ==> r == Ok::<bool, CPUError>(self.keypad@[i as int]),
            i >= 16 ==> r == Err::<bool, CPUError>(CPUError::InvalidKey(i as usize)),
    {
        if i as usize >= KEYMAP_SIZE {
            return Err(CPUError::InvalidKey(i as usize));
        }
        Ok(self.keypad[i as usize])
    }

    fn push_stack(&mut self, value: u16) -> (r: Result<(), CPUError>)
        ensures
            old(self).sp >= STACK_SIZE ==> r == Err::<(), CPUError>(CPUError::StackOverflow)
                && final(self)@ == old(self)@,
            old(self).sp < STACK_SIZE ==> r == Ok::<(), CPUError>(()) && final(self)@ == (Machine {
                stack: old(self)@.stack.update(old(self).sp as int, value),
                sp: (old(self).sp + 1) as usize,
                ..old(self)@
            }),
    {
        if self.sp >= STACK_SIZE {
            return Err(CPUError::StackOverflow);
        }
        self.stack[self.sp] = value;
        self.sp = self.sp + 1;
        Ok(())
    }

    fn pop_stack(&mut self) -> (r: Result<u16, CPUError>)
        ensures
            old(self).sp == 0 ==> r == Err::<u16, CPUError>(CPUError::StackUnderflow)
                && final(self)@ == old(self)@,
            old(self).sp > STACK_SIZE ==> r == Err::<u16, CPUError>(CPUError::StackOverflow)
                && final(self)@ == old(self)@,
            0 < old(self).sp <= STACK_SIZE ==> r == Ok::<u16, CPUError>(
                old(self)@.stack[old(self).sp - 1],
            ) && final(self)@ == (Machine { sp: (old(self).sp - 1) as usize, ..old(self)@ }),
    {
        if self.sp == 0 {
            return Err(CPUError::StackUnderflow);
        }
        if self.sp > STACK_SIZE {
            return Err(CPUError::StackOverflow);
        }
        let value = self.stack[self.sp - 1];
        self.sp = self.sp - 1;
        Ok(value)
    }

    fn exec_clear_screen(&mut self) -> (r: Result<TickStatus, CPUError>)
        ensures
            forall|rnd: u8| old(self)@.execute(Instruction::ClearScreen, rnd) == (final(self)@, r),
    {
        self.v_buffer = [false; SCREEN_SIZE];
        assert(self.v_buffer@ =~= Seq::new(SCREEN_SIZE as nat, |p: int| false));
        Ok(TickStatus::default())
    }

    fn exec_return(&mut self) -> (r: Result<TickStatus, CPUError>)
        ensures
            forall|rnd: u8| old(self)@.execute(Instruction::Return, rnd) == (final(self)@, r),
    {
        let to = self.pop_stack()?;
        self.pc = to;
        Ok(TickStatus::default())
    }

    fn exec_jump(&mut self, to: u16) -> (r: Result<TickStatus, CPUError>)
        ensures
            forall|rnd: u8| old(self)@.execute(Instruction::Jump(to), rnd) == (final(self)@, r),
    {
        self.pc = to;
        Ok(TickStatus::default())
    }

    fn exec_call(&mut self, to: u16) -> (r: Result<TickStatus, CPUError>)
        ensures
            forall|rnd: u8| old(self)@.execute(Instruction::Call(to), rnd) == (final(self)@, r),
    {
        self.push_stack(self.pc)?;
        self.pc = to;
        Ok(TickStatus::default())
    }

    fn exec_skip_vx_if_equal(&mut self, x: u8, value: u8) -> (r: Result<TickStatus, CPUError>)
        requires
            old(self).pc <= 0x1000,
        ensures
            forall|rnd: u8| old(self)@.execute(Instruction::SkipVxEqual(x, value), rnd) == (final(self)@, r),
    {
        if self.read_register(x)? == value {
            self.pc = self.pc + 2;
        }
        Ok(TickStatus::default())
    }

    fn exec_skip_vx_if_not_equal(&mut self, x: u8, value: u8) -> (r: Result<TickStatus, CPUError>)
        requires
            old(self).pc <= 0x1000,
        ensures
            forall|rnd: u8| old(self)@.execute(Instruction::SkipVxNotEqual(x, value), rnd) == (final(self)@, r),
    {
        if self.read_register(x)? != value {
            self.pc = self.pc + 2;
        }
        Ok(TickStatus::default())
    }

    fn exec_skip_if_equal(&mut self, x: u8, y: u8) -> (r: Result<TickStatus, CPUError>)
        requires
            old(self).pc <= 0x1000,
        ensures
            forall|rnd: u8| old(self)@.execute(Instruction::SkipEqual(x, y), rnd) == (final(self)@, r),
    {
        if self.read_register(x)? == self.read_register(y)? {
            self.pc = self.pc + 2;
        }
        Ok(TickStatus::default())
    }

    fn exec_load_vx(&mut self, x: u8, value: u8) -> (r: Result<TickStatus, CPUError>)
        ensures
            forall|rnd: u8| old(self)@.execute(Instruction::LoadVx(x, value), rnd) == (final(self)@, r),
    {
        self.set_register(x, value)?;
        Ok(TickStatus::default())
    }

    fn exec_add_vx(&mut self, x: u8, value: u8) -> (r: Result<TickStatus, CPUError>)
        ensures
            forall|rnd: u8| old(self)@.execute(Instruction::AddVx(x, value), rnd) == (final(self)@, r),
    {
        let vx = self.read_register(x)?;
        self.set_register(x, vx.wrapping_add(value))?;
        Ok(TickStatus::default())
    }

    fn exec_set(&mut self, x: u8, y: u8) -> (r: Result<TickStatus, CPUError>)
        ensures
            forall|rnd: u8| old(self)@.execute(Instruction::SetRegister(x, y), rnd) == (final(self)@, r),
    {
        self.read_register(x)?;
        let value = self.read_register(y)?;
        self.set_register(x, value)?;
        Ok(TickStatus::default())
    }

    fn exec_or(&mut self, x: u8, y: u8) -> (r: Result<TickStatus, CPUError>)
        ensures
            forall|rnd: u8| old(self)@.execute(Instruction::Or(x, y), rnd) == (final(self)@, r),
    {
        let value = self.read_register(x)? | self.read_register(y)?;
        self.set_register(x, value)?;
        Ok(TickStatus::default())
    }

    fn exec_and(&mut self, x: u8, y: u8) -> (r: Result<TickStatus, CPUError>)
        ensures
            forall|rnd: u8| old(self)@.execute(Instruction::And(x, y), rnd) == (final(self)@, r),
    {
        let value = self.read_register(x)? & self.read_register(y)?;
        self.set_register(x, value)?;
        Ok(TickStatus::default())
    }

    fn exec_xor(&mut self, x: u8, y: u8) -> (r: Result<TickStatus, CPUError>)
        ensures
            forall|rnd: u8| old(self)@.execute(Instruction::Xor(x, y), rnd) == (final(self)@, r),
    {
        let value = self.read_register(x)? ^ self.read_register(y)?;
        self.set_register(x, value)?;
        Ok(TickStatus::default())
    }

    fn exec_add(&mut self, x: u8, y: u8) -> (r: Result<TickStatus, CPUError>)
        ensures
            forall|rnd: u8| old(self)@.execute(Instruction::Add(x, y), rnd) == (final(self)@, r),
    {
        let vx = self.read_register(x)?;
        let vy = self.read_register(y)?;
        let carry = vx as u16 + vy as u16 > 0xFF;
        self.set_register(x, vx.wrapping_add(vy))?;
        self.set_register(FLAG_REGISTER, carry as u8)?;
        Ok(TickStatus::default())
    }

    fn exec_sub(&mut self, x: u8, y: u8) -> (r: Result<TickStatus, CPUError>)
        ensures
            forall|rnd: u8| old(self)@.execute(Instruction::Sub(x, y), rnd) == (final(self)@, r),
    {
        let vx = self.read_register(x)?;
        let vy = self.read_register(y)?;
        self.set_register(x, vx.wrapping_sub(vy))?;
        self.set_register(FLAG_REGISTER, (vx >= vy) as u8)?;
        Ok(TickStatus::default())
    }

    fn exec_shiftr_vx(&mut self, x: u8) -> (r: Result<TickStatus, CPUError>)
        ensures
            forall|rnd: u8| old(self)@.execute(Instruction::ShiftRightVx(x), rnd) == (final(self)@, r),
    {
        let value = self.read_register(x)?;
        let shifted_out = value & 0b_0000_0001;
        assert(value & 1 == value % 2 && value >> 1 == value / 2) by (bit_vector);
        self.set_register(x, value >> 1)?;
        self.set_register(FLAG_REGISTER, shifted_out)?;
        Ok(TickStatus::default())
    }

    fn exec_subn(&mut self, x: u8, y: u8) -> (r: Result<TickStatus, CPUError>)
        ensures
            forall|rnd: u8| old(self)@.execute(Instruction::SubN(x, y), rnd) == (final(self)@, r),
    {
        let vx = self.read_register(x)?;
        let vy = self.read_register(y)?;
        self.set_register(x, vy.wrapping_sub(vx))?;
        self.set_register(FLAG_REGISTER, (vy >= vx) as u8)?;
        Ok(TickStatus::default())
    }

    fn exec_shiftl_vx(&mut self, x: u8) -> (r: Result<TickStatus, CPUError>)
        ensures
            forall|rnd: u8| old(self)@.execute(Instruction::ShiftLeftVx(x), rnd) == (final(self)@, r),
    {
        let value = self.read_register(x)?;
        let shifted_out = (value & 0b_1000_0000) >> 7;
        assert((value & 0x80) >> 7 == value / 128 && value << 1 == ((value * 2) % 256) as u8)
            by (bit_vector);
        self.set_register(x, value << 1)?;
        self.set_register(FLAG_REGISTER, shifted_out)?;
        Ok(TickStatus::default())
    }

    fn exec_skip_if_not_equal(&mut self, x: u8, y: u8) -> (r: Result<TickStatus, CPUError>)
        requires
            old(self).pc <= 0x1000,
        ensures
            forall|rnd: u8| old(self)@.execute(Instruction::SkipNotEqual(x, y), rnd) == (final(self)@, r),
    {
        if self.read_register(x)? != self.read_register(y)? {
            self.pc = self.pc + 2;
        }
        Ok(TickStatus::default())
    }

    fn exec_load_i(&mut self, value: u16) -> (r: Result<TickStatus, CPUError>)
        ensures
            forall|rnd: u8| old(self)@.execute(Instruction::LoadI(value), rnd) == (final(self)@, r),
    {
        self.i_register = value;
        Ok(TickStatus::default())
    }

    fn exec_jump_offset(&mut self, x: u8, addr: u16) -> (r: Result<TickStatus, CPUError>)
        requires
            addr < 0x1000,
        ensures
            forall|rnd: u8| old(self)@.execute(Instruction::JumpOffset(x, addr), rnd) == (final(self)@, r),
    {
        let offset = self.read_register(x)?;
        self.pc = addr + offset as u16;
        Ok(TickStatus::default())
    }

    fn exec_rand(&mut self, x: u8, value: u8, random: u8) -> (r: Result<TickStatus, CPUError>)
        ensures
            old(self)@.execute(Instruction::Rand(x, value), random) == (final(self)@, r),
    {
        self.set_register(x, random & value)?;
        Ok(TickStatus::default())
    }

    fn exec_draw_sprite(&mut self, vx: u8, vy: u8, n: u8) -> (r: Result<TickStatus, CPUError>)
        ensures
            forall|rnd: u8| old(self)@.execute(Instruction::DrawSprite(vx, vy, n), rnd) == (final(self)@, r),
    {
        let sprite = sprites::read_sprite(self.i_register as usize, n as usize, &self.memory)?;

        let x = self.read_register(vx)?;
        let y = self.read_register(vy)?;

        let did_collide = sprites::draw(
            sprite,
            x as usize,
            y as usize,
            (SCREEN_WIDTH, SCREEN_HEIGHT),
            &mut self.v_buffer,
        );

        self.v_registers[FLAG_REGISTER as usize] = did_collide as u8;
        Ok(TickStatus::default())
    }

    fn exec_skip_if_key(&mut self, vx: u8) -> (r: Result<TickStatus, CPUError>)
        requires
            old(self).pc <= 0x1000,
        ensures
            forall|rnd: u8| old(self)@.execute(Instruction::SkipIfKey(vx), rnd) == (final(self)@, r),
    {
        let key_idx = self.read_register(vx)?;
        let is_key_pressed = self.read_key(key_idx)?;

        if is_key_pressed {
            self.pc = self.pc + 2;
        }
        Ok(TickStatus::default())
    }

    fn exec_skip_if_not_key(&mut self, vx: u8) -> (r: Result<TickStatus, CPUError>)
        requires
            old(self).pc <= 0x1000,
        ensures
            forall|rnd: u8| old(self)@.execute(Instruction::SkipIfNotKey(vx), rnd) == (final(self)@, r),
    {
        let key_idx = self.read_register(vx)?;
        let is_key_pressed = self.read_key(key_idx)?;

        if !is_key_pressed {
            self.pc = self.pc + 2;
        }
        Ok(TickStatus::default())
    }

    fn exec_load_delay(&mut self, vx: u8) -> (r: Result<TickStatus, CPUError>)
        ensures
            forall|rnd: u8| old(self)@.execute(Instruction::LoadDelay(vx), rnd) == (final(self)@, r),
    {
        self.set_register(vx, self.delay_timer)?;
        Ok(TickStatus::default())
    }

    fn exec_wait_for_key(&mut self, vx: u8) -> (r: Result<TickStatus, CPUError>)
        ensures
            forall|rnd: u8| old(self)@.execute(Instruction::WaitForKey(vx), rnd) == (final(self)@, r),
    {
        self.read_register(vx)?;
        self.is_waiting_for_key = (true, vx as usize);

        let mut status = TickStatus::default();
        status.is_waiting_for_key = true;
        Ok(status)
    }

    fn exec_set_delay(&mut self, vx: u8) -> (r: Result<TickStatus, CPUError>)
        ensures
            forall|rnd: u8| old(self)@.execute(Instruction::SetDelay(vx), rnd) == (final(self)@, r),
    {
        self.delay_timer = self.read_register(vx)?;
        Ok(TickStatus::default())
    }

    fn exec_set_sound(&mut self, vx: u8) -> (r: Result<TickStatus, CPUError>)
        ensures
            forall|rnd: u8| old(self)@.execute(Instruction::SetSound(vx), rnd) == (final(self)@, r),
    {
        self.sound_timer = self.read_register(vx)?;
        Ok(TickStatus::default())
    }

    fn exec_add_to_index(&mut self, vx: u8) -> (r: Result<TickStatus, CPUError>)
        ensures
            forall|rnd: u8| old(self)@.execute(Instruction::AddToIndex(vx), rnd) == (final(self)@, r),
    {
        let value = self.i_register as u32 + self.read_register(vx)? as u32;
        let carry = self.set_i_register(value);
        self.set_register(FLAG_REGISTER, carry)?;
        Ok(TickStatus::default())
    }

    fn exec_load_digit(&mut self, vx: u8) -> (r: Result<TickStatus, CPUError>)
        ensures
            forall|rnd: u8| old(self)@.execute(Instruction::LoadDigit(vx), rnd) == (final(self)@, r),
    {
        let digit = self.read_register(vx)?;
        if digit > 0xF {
            return Err(CPUError::InvalidDigit(digit));
        }
        self.i_register = FONT_START + digit as u16 * sprites::DIGIT_SIZE as u16;
        Ok(TickStatus::default())
    }

    fn exec_load_bcd(&mut self, vx: u8) -> (r: Result<TickStatus, CPUError>)
        ensures
            forall|rnd: u8| old(self)@.execute(Instruction::LoadBCD(vx), rnd) == (final(self)@, r),
    {
        let (hundreds, tens, ones) = to_bcd(self.read_register(vx)?);
        let digits = [hundreds, tens, ones];
        assert(digits@ =~= seq![hundreds, tens, ones]);
        self.store_bytes(self.i_register as usize, digits.as_slice())
    }

    fn exec_save_mem(&mut self, vx: u8) -> (r: Result<TickStatus, CPUError>)
        ensures
            forall|rnd: u8| old(self)@.execute(Instruction::SaveMem(vx), rnd) == (final(self)@, r),
    {
        self.read_register(vx)?;
        let registers = self.v_registers;
        let values = vstd::slice::slice_subrange(registers.as_slice(), 0, vx as usize + 1);
        self.store_bytes(self.i_register as usize, values)
    }

    fn exec_load_mem(&mut self, vx: u8) -> (r: Result<TickStatus, CPUError>)
        ensures
            forall|rnd: u8| old(self)@.execute(Instruction::LoadMem(vx), rnd) == (final(self)@, r),
    {
        self.read_register(vx)?;
        self.load_registers(self.i_register as usize, vx as usize + 1)
    }

    /// Writes `bytes` from `start` on through `set_memory`, stopping at the
    /// first address that it refuses.
    fn store_bytes(&mut self, start: usize, bytes: &[u8]) -> (r: Result<TickStatus, CPUError>)
        requires
            start <= u16::MAX,
            bytes@.len() <= V_REGISTERS_SIZE,
        ensures
            old(self)@.store(start as int, bytes@) == (final(self)@, r),
    {
        let mut j: usize = 0;
        assert(self.memory@ =~= overlay(old(self)@.memory, start as int, bytes@, 0));
        while j < bytes.len()
            invariant
                start <= u16::MAX,
                bytes@.len() <= V_REGISTERS_SIZE,
                j <= bytes@.len(),
                j <= writable_run(start as int),
                self@ == (Machine {
                    memory: overlay(old(self)@.memory, start as int, bytes@, j as int),
                    ..old(self)@
                }),
            decreases bytes@.len() - j,
        {
            match self.set_memory(start + j, bytes[j]) {
                Ok(()) => {},
                Err(e) => {
                    assert(j == writable_run(start as int));
                    return Err(e);
                },
            }
            j = j + 1;
            assert(self.memory@ =~= overlay(old(self)@.memory, start as int, bytes@, j as int));
        }
        Ok(TickStatus::default())
    }

    /// Reads `count` bytes from `start` on into V0, V1, ... through
    /// `get_memory`, stopping at the first address that it refuses.
    fn load_registers(&mut self, start: usize, count: usize) -> (r: Result<TickStatus, CPUError>)
        requires
            start <= u16::MAX,
            count <= V_REGISTERS_SIZE,
        ensures
            old(self)@.load(start as int, count as int) == (final(self)@, r),
    {
        let mut j: usize = 0;
        assert(self.v_registers@ =~= overlay(old(self)@.v, 0, old(self)@.memory.subrange(start as int, start as int), 0));
        while j < count
            invariant
                start <= u16::MAX,
                count <= V_REGISTERS_SIZE,
                j <= count,
                j <= writable_run(start as int),
                self@ == (Machine {
                    v: overlay(
                        old(self)@.v,
                        0,
                        old(self)@.memory.subrange(start as int, start + j),
                        j as int,
                    ),
                    ..old(self)@
                }),
            decreases count - j,
        {
            let value = match self.get_memory(start + j) {
                Ok(value) => value,
                Err(e) => {
                    assert(j == writable_run(start as int));
                    return Err(e);
                },
            };
            self.v_registers[j] = value;
            j = j + 1;
            assert(self.v_registers@ =~= overlay(
                old(self)@.v,
                0,
                old(self)@.memory.subrange(start as int, start + j),
                j as int,
            ));
        }
        Ok(TickStatus::default())
    }
}

impl Machine {
    /// Every sequence has the length of the part of the machine it stands for.
    pub open spec fn wf(self) -> bool {
        &&& self.memory.len() == MEM_SIZE
        &&& self.v.len() == V_REGISTERS_SIZE
        &&& self.screen.len() == SCREEN_SIZE
        &&& self.stack.len() == STACK_SIZE
        &&& self.keypad.len() == KEYMAP_SIZE
    }

    /// The instruction that the next tick would execute, if it would fetch
    /// and decode one.
    pub open spec fn next_instruction(self) -> Option<Instruction> {
        if !self.waiting && self.pc + 1 < MEM_SIZE {
            match decode((self.memory[self.pc as int] * 256 + self.memory[self.pc + 1]) as u16) {
                Ok(ins) => Some(ins),
                Err(_) => None,
            }
        } else {
            None
        }
    }

    /// Executes `Call` with each of `targets` in turn, stopping at the first
    /// failure.
    pub open spec fn call_chain(self, targets: Seq<u16>) -> (Machine, Result<TickStatus, CPUError>)
        decreases targets.len(),
    {
        if targets.len() == 0 {
            (self, Ok(idle()))
        } else {
            let (m, r) = self.execute(Instruction::Call(targets[0]), 0);
            if r is Ok {
                m.call_chain(targets.drop_first())
            } else {
                (m, r)
            }
        }
    }
}

/// The state of every interpreter is well formed.
pub proof fn lemma_view_wf(cpu: CPU)
    ensures
        cpu@.wf(),
{
}

/// `Add` stores the sum of Vx and Vy modulo 256 in Vx and sets VF to 1
/// exactly when that sum reaches 256 (for Vx other than VF itself, which the
/// flag overwrites).
pub proof fn lemma_add_carry(m: Machine, x: u8, y: u8, random: u8)
    requires
        m.wf(),
        x < 15,
        y < 16,
    ensures
        ({
            let (vx, vy) = (m.v[x as int], m.v[y as int]);
            let (after, r) = m.execute(Instruction::Add(x, y), random);
            &&& r is Ok
            &&& after.v[x as int] == (vx + vy) % 256
            &&& (after.v[0xF] == 1 <==> vx + vy >= 256)
            &&& (after.v[0xF] == 0 <==> vx + vy < 256)
        }),
{
}

/// `Sub` stores Vx - Vy modulo 256 in Vx and sets VF to 1 exactly when there
/// is no borrow, that is when Vx >= Vy (for Vx other than VF itself).
pub proof fn lemma_sub_borrow(m: Machine, x: u8, y: u8, random: u8)
    requires
        m.wf(),
        x < 15,
        y < 16,
    ensures
        ({
            let (vx, vy) = (m.v[x as int], m.v[y as int]);
            let (after, r) = m.execute(Instruction::Sub(x, y), random);
            &&& r is Ok
            &&& after.v[x as int] == (vx - vy) % 256
            &&& (after.v[0xF] == 1 <==> vx >= vy)
            &&& (after.v[0xF] == 0 <==> vx < vy)
        }),
{
}

/// `ShiftLeftVx` doubles Vx modulo 256 and leaves its former bit 7 in VF (for
/// Vx other than VF itself).
pub proof fn lemma_shift_left_bit(m: Machine, x: u8, random: u8)
    requires
        m.wf(),
        x < 15,
    ensures
        ({
            let vx = m.v[x as int];
            let (after, r) = m.execute(Instruction::ShiftLeftVx(x), random);
            &&& r is Ok
            &&& after.v[x as int] == (vx * 2) % 256
            &&& after.v[0xF] == (vx >> 7u8) & 1
        }),
{
    let vx = m.v[x as int];
    assert(vx / 128 == (vx >> 7u8) & 1) by (bit_vector);
}

/// `DrawSprite` XORs each pixel with whether the wrapped sprite read at I
/// covers it, and sets VF to 1 exactly when some covered pixel was set.
pub proof fn lemma_draw_sprite_xor(m: Machine, x: u8, y: u8, n: u8, random: u8)
    requires
        m.wf(),
        x < 16,
        y < 16,
        n < 16,
        m.i + n <= MEM_SIZE,
    ensures
        ({
            let sprite = sprite_at(m.memory, m.i as int, n as int);
            let (vx, vy) = (m.v[x as int] as int, m.v[y as int] as int);
            let (w, h) = (SCREEN_WIDTH as int, SCREEN_HEIGHT as int);
            let (after, r) = m.execute(Instruction::DrawSprite(x, y, n), random);
            &&& r is Ok
            &&& forall|p: int|
                0 <= p < SCREEN_SIZE ==> after.screen[p] == (m.screen[p] != covered(
                    sprite,
                    vx,
                    vy,
                    w,
                    h,
                    p,
                ))
            &&& (after.v[0xF] == 1 <==> exists|p: int|
                0 <= p < SCREEN_SIZE && m.screen[p] && covered(sprite, vx, vy, w, h, p))
        }),
{
    let sprite = sprite_at(m.memory, m.i as int, n as int);
    let (vx, vy) = (m.v[x as int] as int, m.v[y as int] as int);
    lemma_draw_xor(m.screen, sprite, vx, vy, SCREEN_WIDTH as int, SCREEN_HEIGHT as int);
}

/// Each tick counts both timers down by one, stopping at zero, whether or not
/// a wait-for-key is latched; only a `SetDelay` or `SetSound` executed in the
/// same tick puts a new value in its timer.
pub proof fn lemma_tick_timers(m: Machine, random: u8)
    requires
        m.wf(),
    ensures
        ({
            let (after, r) = m.tick(random);
            &&& !(m.next_instruction() matches Some(Instruction::SetDelay(_))) ==> after.delay
                == if m.delay == 0 { 0 } else { m.delay - 1 }
            &&& !(m.next_instruction() matches Some(Instruction::SetSound(_))) ==> after.sound
                == if m.sound == 0 { 0 } else { m.sound - 1 }
        }),
{
}

/// While a wait-for-key is latched, a tick changes nothing but the timers,
/// so PC stays where it is and no instruction runs, and it reports waiting.
pub proof fn lemma_waiting_tick(m: Machine, random: u8)
    requires
        m.waiting,
    ensures
        ({
            let (after, r) = m.tick(random);
            &&& after == Machine {
                delay: m.delay.saturating_sub(1),
                sound: m.sound.saturating_sub(1),
                ..m
            }
            &&& after.pc == m.pc
            &&& r == Ok::<TickStatus, CPUError>(
                TickStatus { is_waiting_for_key: true, is_buzzing: after.sound > 0 },
            )
        }),
{
}

/// While a wait-for-key is latched, pressing key `i` stores `i` in the waiting
/// register and clears the latch.
pub proof fn lemma_key_press_unlatches(m: Machine, i: usize)
    requires
        m.wf(),
        m.waiting,
        m.dest < 16,
        i < 16,
    ensures
        ({
            let (after, r) = m.press(i, true);
            &&& r is Ok
            &&& !after.waiting
            &&& after.v[m.dest as int] == i
            &&& after.keypad[i as int]
        }),
{
}

/// From an empty stack, sixteen nested calls succeed, each one deeper; a
/// seventeenth fails with `StackOverflow`; a return with the stack empty fails
/// with `StackUnderflow`.
pub proof fn lemma_call_depth(m: Machine, targets: Seq<u16>)
    requires
        m.wf(),
        m.sp == 0,
    ensures
        targets.len() <= STACK_SIZE ==> ({
            let (after, r) = m.call_chain(targets);
            r is Ok && after.sp == targets.len()
        }),
        targets.len() == STACK_SIZE + 1 ==> m.call_chain(targets).1 == Err::<TickStatus, CPUError>(
            CPUError::StackOverflow,
        ),
        m.execute(Instruction::Return, 0).1 == Err::<TickStatus, CPUError>(CPUError::StackUnderflow),
{
    lemma_call_chain(m, targets);
}

proof fn lemma_call_chain(m: Machine, targets: Seq<u16>)
    requires
        m.sp <= STACK_SIZE,
    ensures
        m.sp + targets.len() <= STACK_SIZE ==> ({
            let (after, r) = m.call_chain(targets);
            r is Ok && after.sp == m.sp + targets.len()
        }),
        m.sp + targets.len() == STACK_SIZE + 1 ==> m.call_chain(targets).1 == Err::<
            TickStatus,
            CPUError,
        >(CPUError::StackOverflow),
    decreases targets.len(),
{
    if targets.len() > 0 {
        let (next, r) = m.execute(Instruction::Call(targets[0]), 0);
        if m.sp < STACK_SIZE {
            lemma_call_chain(next, targets.drop_first());
        }
    }
}

/// A program of `MEM_SIZE - MEM_START` bytes fits and loads; one byte more is
/// refused with `MemoryOverflow`.
pub proof fn lemma_rom_capacity(m: Machine, rom: Seq<u8>)
    ensures
        rom.len() == MEM_SIZE - MEM_START ==> m.with_rom(rom).1 is Ok,
        rom.len() == MEM_SIZE - MEM_START + 1 ==> m.with_rom(rom).1 == Err::<(), CPUError>(
            CPUError::MemoryOverflow,
        ),
{
}

/// The hundreds, tens and ones digits of a byte.
fn to_bcd(value: u8) -> (r: (u8, u8, u8))
    ensures
        r == (value / 100, (value / 10) % 10, value % 10),
{
    let hundreds = value / 100;
    let tens = (value / 10) % 10;
    let ones = value % 10;

    (hundreds, tens, ones)
}

} // verus!
