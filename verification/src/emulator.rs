//! The CPU/emulator engine: all mutable machine state (registers, memory,
//! call stack, timers, framebuffer, key state) and the real-time scheduler
//! that decouples instruction execution and the two 60 Hz timers from the
//! host's variable update rate.
//!
//! Out-of-range addressing policy: memory addresses produced by a running
//! program (index register plus offset, program counter) are reduced modulo
//! the 4096-byte memory size; the program counter and index register wrap
//! modulo 2^16; key numbers above 15 are reduced modulo 16; a `Call` with 16
//! frames already on the stack and a `Return` with an empty stack leave
//! everything but the program counter advance unchanged. A running program
//! therefore never halts the engine.

use vstd::prelude::*;
use vstd::arithmetic::div_mod::{
    lemma_fundamental_div_mod,
    lemma_add_mod_noop,
    lemma_fundamental_div_mod_converse,
    lemma_small_mod,
};

use crate::instruction::Instruction;
use crate::instruction::{decode_spec, encode_spec};

verus! {

/// Threshold of the CPU-step accumulator: one decode/execute cycle fires
/// each time 2 ms of elapsed time have accumulated (a nominal 500 Hz rate).
pub const CPU_TICK_MICROS: u64 = 2000;

/// Threshold of the two timer accumulators: each 8-bit timer decays once
/// each time ~16.67 ms have accumulated (a nominal 60 Hz rate).
pub const TIMER_TICK_MICROS: u64 = 16667;

/// The virtual CPU: sixteen 8-bit general registers (`VF`, register 15, is
/// the implicit flag register), the 16-bit index register, the program
/// counter, a 16-slot call stack with its top index (-1 when empty), and the
/// two 8-bit hardware timers.
pub struct Cpu {
    pub registers: Vec<u8>,
    pub register_i: u16,
    pub program_counter: u16,
    pub stack: Vec<u16>,
    pub stack_index: i8,
    pub delay_timer: u8,
    pub sound_timer: u8,
}

/// The whole machine: the CPU, 4096 bytes of memory, the set of lit pixels
/// on the 64x32 screen (a sparse list of distinct coordinates), the 16 key
/// flags written by the host, and the three elapsed-time accumulators in
/// microseconds.
pub struct Emulator {
    pub cpu: Cpu,
    pub memory: Vec<u8>,
    pub active_pixels: Vec<(u32, u32)>,
    pub input: Vec<bool>,
    pub cpu_timer: u64,
    pub sound_timer: u64,
    pub delay_timer: u64,
}

/// The mathematical state of the machine: every contract on the engine is
/// stated as a relation between values of this type.
#[verifier::ext_equal]
pub ghost struct Model {
    pub regs: Seq<u8>,
    pub reg_i: u16,
    pub pc: u16,
    pub stack: Seq<u16>,
    pub sp: int,
    pub delay: u8,
    pub sound: u8,
    pub mem: Seq<u8>,
    pub pixels: Set<(u32, u32)>,
    pub keys: Seq<bool>,
    pub acc_cpu: u64,
    pub acc_delay: u64,
    pub acc_sound: u64,
}

/// No coordinate occurs twice in the framebuffer list.
pub open spec fn distinct_pixels(s: Seq<(u32, u32)>) -> bool {
    forall|i: int, j: int| 0 <= i < j < s.len() ==> s[i] != s[j]
}

impl Emulator {
    /// Structural invariant: the fixed-size parts have their fixed sizes,
    /// the stack index stays in range, and the pixel list holds no
    /// duplicates.
    pub open spec fn wf(self) -> bool {
        &&& self.cpu.registers@.len() == 16
        &&& self.cpu.stack@.len() == 16
        &&& -1 <= self.cpu.stack_index < 16
        &&& self.memory@.len() == 4096
        &&& self.input@.len() == 16
        &&& distinct_pixels(self.active_pixels@)
    }

    /// The mathematical view of the machine.
    pub open spec fn model(self) -> Model {
        Model {
            regs: self.cpu.registers@,
            reg_i: self.cpu.register_i,
            pc: self.cpu.program_counter,
            stack: self.cpu.stack@,
            sp: self.cpu.stack_index as int,
            delay: self.cpu.delay_timer,
            sound: self.cpu.sound_timer,
            mem: self.memory@,
            pixels: self.active_pixels@.to_set(),
            keys: self.input@,
            acc_cpu: self.cpu_timer,
            acc_delay: self.delay_timer,
            acc_sound: self.sound_timer,
        }
    }
}

/// A memory address formed from the index register (or program counter) and
/// a small offset, reduced modulo the memory size.
pub open spec fn mem_index(base: u16, off: int) -> int {
    (base + off) % 4096
}

/// Row `r` (0 to 4) of the 5-byte font sprite for hex digit `g`.
pub open spec fn font_row(g: int, r: int) -> u8 {
    let rows: Seq<u8> = if g == 0x0 {
        seq![0xF0, 0x90, 0x90, 0x90, 0xF0]
    } else if g == 0x1 {
        seq![0x20, 0x60, 0x20, 0x20, 0x70]
    } else if g == 0x2 {
        seq![0xF0, 0x10, 0xF0, 0x80, 0xF0]
    } else if g == 0x3 {
        seq![0xF0, 0x10, 0xF0, 0x10, 0xF0]
    } else if g == 0x4 {
        seq![0x90, 0x90, 0xF0, 0x10, 0x10]
    } else if g == 0x5 {
        seq![0xF0, 0x80, 0xF0, 0x10, 0xF0]
    } else if g == 0x6 {
        seq![0xF0, 0x80, 0xF0, 0x90, 0xF0]
    } else if g == 0x7 {
        seq![0xF0, 0x10, 0x20, 0x40, 0x40]
    } else if g == 0x8 {
        seq![0xF0, 0x90, 0xF0, 0x90, 0xF0]
    } else if g == 0x9 {
        seq![0xF0, 0x90, 0xF0, 0x10, 0xF0]
    } else if g == 0xA {
        seq![0xF0, 0x90, 0xF0, 0x90, 0x90]
    } else if g == 0xB {
        seq![0xE0, 0x90, 0xE0, 0x90, 0xE0]
    } else if g == 0xC {
        seq![0xF0, 0x80, 0x80, 0x80, 0xF0]
    } else if g == 0xD {
        seq![0xE0, 0x90, 0x90, 0x90, 0xE0]
    } else if g == 0xE {
        seq![0xF0, 0x80, 0xF0, 0x80, 0xF0]
    } else {
        seq![0xF0, 0x80, 0xF0, 0x80, 0x80]
    };
    rows[r]
}

/// The byte at address `a` of freshly initialized memory: the font table
/// occupies the even offsets of the first 160 bytes, ten bytes per glyph
/// (five populated rows, odd bytes left zero); everything else is zero.
pub open spec fn font_byte(a: int) -> u8 {
    if 0 <= a < 160 && a % 2 == 0 {
        font_row(a / 10, (a % 10) / 2)
    } else {
        0
    }
}

/// The machine as `new` builds it: font table in memory, program counter at
/// 512, empty stack and framebuffer, timers zero, and a CPU-step accumulator
/// already past its threshold so that the first `step` call executes an
/// instruction at once.
pub open spec fn initial_model() -> Model {
    Model {
        regs: Seq::new(16, |i: int| 0u8),
        reg_i: 0,
        pc: 512,
        stack: Seq::new(16, |i: int| 0u16),
        sp: -1,
        delay: 0,
        sound: 0,
        mem: Seq::new(4096, |a: int| font_byte(a)),
        pixels: Set::empty(),
        keys: Seq::new(16, |i: int| false),
        acc_cpu: u64::MAX,
        acc_delay: 0,
        acc_sound: 0,
    }
}

/// Glyph `g`'s font sprite lives at address `g * 10`; its row `r` sits at
/// even offset `2 * r` and the odd offset after it stays zero.
proof fn lemma_font_index(g: int, r: int)
    requires
        0 <= g < 16,
        0 <= r < 5,
    ensures
        0 <= g * 10 + 2 * r < 159,
        font_byte(g * 10 + 2 * r) == font_row(g, r),
        font_byte(g * 10 + 2 * r + 1) == 0,
{
    let a = g * 10 + 2 * r;
    lemma_fundamental_div_mod_converse(a, 10, g, 2 * r);
    lemma_fundamental_div_mod_converse(a, 2, g * 5 + r, 0);
    lemma_fundamental_div_mod_converse(2 * r, 2, r, 0);
    lemma_fundamental_div_mod_converse(a + 1, 2, g * 5 + r, 1);
}

/// `base + off` reduced modulo the memory size, computed without overflow.
fn wrap_index(base: u16, off: usize) -> (r: usize)
    requires
        off < 4096,
    ensures
        r == mem_index(base, off as int),
        r < 4096,
{
    let b = (base as usize) % 4096;
    proof {
        lemma_add_mod_noop(base as int, off as int, 4096);
        lemma_small_mod(off as nat, 4096);
        if b + off < 4096 {
            lemma_small_mod((b + off) as nat, 4096);
        } else {
            lemma_fundamental_div_mod_converse(b + off, 4096, 1, b + off - 4096);
        }
    }
    if b + off >= 4096 {
        b + off - 4096
    } else {
        b + off
    }
}

/// The big-endian 16-bit opcode word at the program counter.
pub open spec fn fetch_spec(m: Model) -> u16 {
    (m.mem[mem_index(m.pc, 0)] * 0x100 + m.mem[mem_index(m.pc, 1)]) as u16
}

impl Emulator {
    /// A fresh machine: font sprites preloaded, program counter at 512,
    /// stack empty, screen clear.
    pub fn new() -> (r: Emulator)
        ensures
            r.wf(),
            r.model() == initial_model(),
    {
        let mut registers: Vec<u8> = Vec::new();
        let mut stack: Vec<u16> = Vec::new();
        let mut input: Vec<bool> = Vec::new();
        let mut memory: Vec<u8> = Vec::new();
        for k in 0..16
            invariant
                registers@.len() == k,
                stack@.len() == k,
                input@.len() == k,
                forall|i: int| 0 <= i < k ==> registers@[i] == 0u8,
                forall|i: int| 0 <= i < k ==> stack@[i] == 0u16,
                forall|i: int| 0 <= i < k ==> input@[i] == false,
        {
            registers.push(0);
            stack.push(0);
            input.push(false);
        }
        for a in 0..4096
            invariant
                memory@.len() == a,
                forall|i: int| 0 <= i < a ==> memory@[i] == 0u8,
        {
            memory.push(0);
        }
        for g in 0..16usize
            invariant
                memory@.len() == 4096,
                forall|i: int| 0 <= i < 4096 ==> memory@[i] == (
                if i < g * 10 {
                    font_byte(i)
                } else {
                    0u8
                }),
        {
            for r in 0..5usize
                invariant
                    g < 16,
                    memory@.len() == 4096,
                    forall|i: int| 0 <= i < 4096 ==> memory@[i] == (
                    if i < g * 10 + 2 * r {
                        font_byte(i)
                    } else {
                        0u8
                    }),
            {
                let row = font_row_value(g as u8, r as u8);
                proof {
                    lemma_font_index(g as int, r as int);
                }
                memory[g * 10 + 2 * r] = row;
            }
        }
        let emulator = Emulator {
            cpu: Cpu {
                registers,
                register_i: 0,
                program_counter: 512,
                stack,
                stack_index: -1,
                delay_timer: 0,
                sound_timer: 0,
            },
            memory,
            active_pixels: Vec::new(),
            input,
            cpu_timer: u64::MAX,
            sound_timer: 0,
            delay_timer: 0,
        };
        proof {
            assert(emulator.model() =~= initial_model());
        }
        emulator
    }

    /// Copy a program image into memory starting at address 512 and reset
    /// the program counter there. Images longer than the 3584 bytes of
    /// program space do not fit.
    pub fn load_program_from_data(&mut self, data: &Vec<u8>)
        requires
            old(self).wf(),
            data@.len() <= 3584,
        ensures
            final(self).wf(),
            final(self).model() == (Model {
                pc: 512,
                mem: Seq::new(
                    4096,
                    |a: int|
                        if 512 <= a < 512 + data@.len() {
                            data@[a - 512]
                        } else {
                            old(self).model().mem[a]
                        },
                ),
                ..old(self).model()
            }),
    {
        let ghost mem0 = self.memory@;
        let mut i: usize = 0;
        while i < data.len()
            invariant
                self.wf(),
                data@.len() <= 3584,
                i <= data@.len(),
                self.cpu == old(self).cpu,
                self.active_pixels == old(self).active_pixels,
                self.input == old(self).input,
                self.cpu_timer == old(self).cpu_timer,
                self.delay_timer == old(self).delay_timer,
                self.sound_timer == old(self).sound_timer,
                self.memory@.len() == 4096,
                forall|a: int|
                    0 <= a < 4096 ==> self.memory@[a] == (
                    if 512 <= a < 512 + i {
                        data@[a - 512]
                    } else {
                        mem0[a]
                    }),
            decreases data@.len() - i,
        {
            self.memory[512 + i] = data[i];
            i += 1;
        }
        self.cpu.program_counter = 512;
        proof {
            assert(self.model() =~= Model {
                pc: 512,
                mem: Seq::new(
                    4096,
                    |a: int|
                        if 512 <= a < 512 + data@.len() {
                            data@[a - 512]
                        } else {
                            old(self).model().mem[a]
                        },
                ),
                ..old(self).model()
            });
        }
    }

    /// Read the two memory bytes at the program counter as one big-endian
    /// opcode word. Never fails: the address is reduced modulo memory size.
    pub fn fetch_opcode(&self) -> (r: Option<u16>)
        requires
            self.wf(),
        ensures
            r == Some(fetch_spec(self.model())),
    {
        let hi = self.memory[wrap_index(self.cpu.program_counter, 0)];
        let lo = self.memory[wrap_index(self.cpu.program_counter, 1)];
        Some((hi as u16) * 0x100 + (lo as u16))
    }
}

/// An 8-bit value wrapped into a byte.
pub open spec fn wrap8(v: int) -> u8 {
    (v % 0x100) as u8
}

/// The carry flag of an 8-bit addition or left shift: 1 iff the exact
/// result does not fit in a byte.
pub open spec fn carry8(v: int) -> u8 {
    if v > 255 {
        1
    } else {
        0
    }
}

/// An 8-bit difference wrapped into a byte.
pub open spec fn wrap8_diff(d: int) -> u8 {
    if d < 0 {
        (d + 0x100) as u8
    } else {
        d as u8
    }
}

/// A timer's saturating decrement: timers never go below zero.
pub open spec fn sat_dec(t: u8) -> u8 {
    if t > 0 {
        (t - 1) as u8
    } else {
        0
    }
}

/// Bit `j` of a sprite row byte, tested high to low: bit 0 is the most
/// significant bit and lands at the smallest x coordinate.
pub open spec fn row_bit(b: u8, j: int) -> bool {
    b & (0x80u8 >> (j as u32)) != 0
}

/// The pixels lit by bits `0..jn` of one sprite row byte drawn at origin
/// column `ox` on screen row `y`: pixels that would fall off the screen are
/// skipped, not wrapped.
pub open spec fn sprite_row_pixels(b: u8, ox: int, y: int, jn: int) -> Set<(u32, u32)> {
    Set::new(
        |p: (u32, u32)|
            exists|j: int|
                0 <= j < jn && #[trigger] row_bit(b, j) && ox + j < 64 && y < 32 && p.0 == ox + j
                    && p.1 == y,
    )
}

/// The pixels a `DisplaySprite` of `n` rows toggles: the sprite rows are
/// fetched from memory at the index register (reduced modulo memory size),
/// the origin is already reduced modulo the screen size, and pixels past the
/// right or bottom edge are skipped.
pub open spec fn sprite_pixels(mem: Seq<u8>, base: u16, ox: int, oy: int, n: int) -> Set<
    (u32, u32),
> {
    Set::new(
        |p: (u32, u32)|
            exists|r: int, j: int|
                0 <= r < n && 0 <= j < 8 && #[trigger] row_bit(mem[mem_index(base, r)], j) && ox + j
                    < 64 && oy + r < 32 && p.0 == ox + j && p.1 == oy + r,
    )
}

/// XOR drawing at the set level: toggling every pixel of `t` in `s` keeps
/// the pixels that are in exactly one of the two sets.
pub open spec fn xor_pixels(s: Set<(u32, u32)>, t: Set<(u32, u32)>) -> Set<(u32, u32)> {
    s.difference(t).union(t.difference(s))
}

/// Whether a draw collides: some toggled pixel was already lit.
pub open spec fn hits(t: Set<(u32, u32)>, s: Set<(u32, u32)>) -> bool {
    exists|p: (u32, u32)| t.contains(p) && s.contains(p)
}

/// Memory after registers `0..k` are stored at the index register, each
/// address reduced modulo memory size.
pub open spec fn store_regs(mem: Seq<u8>, regs: Seq<u8>, base: u16, k: int) -> Seq<u8>
    decreases k,
{
    if k <= 0 {
        mem
    } else {
        store_regs(mem, regs, base, k - 1).update(mem_index(base, k - 1), regs[k - 1])
    }
}

/// The smallest pressed key at index `k` or above, or 16 when none is
/// pressed.
pub open spec fn first_key_from(keys: Seq<bool>, k: int) -> int
    decreases 16 - k,
{
    if k < 0 || k >= 16 {
        16
    } else if keys[k] {
        k
    } else {
        first_key_from(keys, k + 1)
    }
}

/// The smallest pressed key, or 16 when none is pressed.
pub open spec fn first_key(keys: Seq<bool>) -> int {
    first_key_from(keys, 0)
}

/// The machine state after one operation executes. The program counter is
/// advanced by 2 before the operation's own effect is applied, so jump,
/// call and return targets are absolute. `rnd` is the byte the random
/// source handed back; only `BitwiseAndWithRand` reads it.
pub open spec fn execute_model(pre: Model, inst: Instruction, rnd: u8) -> Model {
    let m = Model { pc: pre.pc.wrapping_add(2), ..pre };
    match inst {
        Instruction::ClearDisplay => Model { pixels: Set::empty(), ..m },
        Instruction::Return => {
            if m.sp >= 0 {
                Model { pc: m.stack[m.sp], sp: m.sp - 1, ..m }
            } else {
                m
            }
        },
        Instruction::Jump { address } => Model { pc: address, ..m },
        Instruction::Call { address } => {
            if m.sp < 15 {
                Model { stack: m.stack.update(m.sp + 1, m.pc), sp: m.sp + 1, pc: address, ..m }
            } else {
                m
            }
        },
        Instruction::SkipIfRegEqConstant { register, constant } => {
            if m.regs[register as int] == constant {
                Model { pc: m.pc.wrapping_add(2), ..m }
            } else {
                m
            }
        },
        Instruction::SkipIfRegNotEqConstant { register, constant } => {
            if m.regs[register as int] != constant {
                Model { pc: m.pc.wrapping_add(2), ..m }
            } else {
                m
            }
        },
        Instruction::SkipIfRegEqReg { register_lhs, register_rhs } => {
            if m.regs[register_lhs as int] == m.regs[register_rhs as int] {
                Model { pc: m.pc.wrapping_add(2), ..m }
            } else {
                m
            }
        },
        Instruction::AssignConstToReg { register, constant } => Model {
            regs: m.regs.update(register as int, constant),
            ..m
        },
        Instruction::AddConstToReg { register, constant } => Model {
            regs: m.regs.update(register as int, wrap8(m.regs[register as int] + constant)),
            ..m
        },
        Instruction::AssignRegToReg { register_lhs, register_rhs } => Model {
            regs: m.regs.update(register_lhs as int, m.regs[register_rhs as int]),
            ..m
        },
        Instruction::BitwiseOr { register_lhs, register_rhs } => Model {
            regs: m.regs.update(
                register_lhs as int,
                m.regs[register_lhs as int] | m.regs[register_rhs as int],
            ),
            ..m
        },
        Instruction::BitwiseAnd { register_lhs, register_rhs } => Model {
            regs: m.regs.update(
                register_lhs as int,
                m.regs[register_lhs as int] & m.regs[register_rhs as int],
            ),
            ..m
        },
        Instruction::BitwiseXor { register_lhs, register_rhs } => Model {
            regs: m.regs.update(
                register_lhs as int,
                m.regs[register_lhs as int] ^ m.regs[register_rhs as int],
            ),
            ..m
        },
        Instruction::AddRegToReg { register_lhs, register_rhs } => {
            let s = m.regs[register_lhs as int] + m.regs[register_rhs as int];
            Model { regs: m.regs.update(register_lhs as int, wrap8(s)).update(15, carry8(s)), ..m }
        },
        Instruction::SubReg2FromReg1 { register_lhs, register_rhs } => {
            let d = m.regs[register_lhs as int] - m.regs[register_rhs as int];
            let no_borrow: u8 = if m.regs[register_lhs as int] >= m.regs[register_rhs as int] {
                1
            } else {
                0
            };
            Model {
                regs: m.regs.update(register_lhs as int, wrap8_diff(d)).update(15, no_borrow),
                ..m
            }
        },
        Instruction::BitwiseShrBy1 { register } => {
            let r1 = m.regs.update(15, (m.regs[register as int] % 2) as u8);
            Model { regs: r1.update(register as int, r1[register as int] / 2), ..m }
        },
        Instruction::SubReg1FromReg2 { register_lhs, register_rhs } => {
            let d = m.regs[register_rhs as int] - m.regs[register_lhs as int];
            let no_borrow: u8 = if m.regs[register_rhs as int] >= m.regs[register_lhs as int] {
                1
            } else {
                0
            };
            Model {
                regs: m.regs.update(register_lhs as int, wrap8_diff(d)).update(15, no_borrow),
                ..m
            }
        },
        Instruction::BitwiseShlBy1 { register } => {
            let v = m.regs[register as int] * 2;
            Model { regs: m.regs.update(register as int, wrap8(v)).update(15, carry8(v)), ..m }
        },
        Instruction::CondRegNotEqReg { register_lhs, register_rhs } => {
            if m.regs[register_lhs as int] != m.regs[register_rhs as int] {
                Model { pc: m.pc.wrapping_add(2), ..m }
            } else {
                m
            }
        },
        Instruction::SetAddress { address } => Model { reg_i: address, ..m },
        Instruction::JumpWithV0Offset { address } => Model {
            pc: (m.regs[0] + address) as u16,
            ..m
        },
        Instruction::BitwiseAndWithRand { register, constant } => Model {
            regs: m.regs.update(register as int, constant & rnd),
            ..m
        },
        Instruction::DisplaySprite { register_x, register_y, n_bytes } => {
            let ox = m.regs[register_x as int] as int % 64;
            let oy = m.regs[register_y as int] as int % 32;
            let toggled = sprite_pixels(m.mem, m.reg_i, ox, oy, n_bytes as int);
            let flag: u8 = if hits(toggled, m.pixels) {
                1
            } else {
                0
            };
            Model {
                pixels: xor_pixels(m.pixels, toggled),
                regs: m.regs.update(15, flag),
                ..m
            }
        },
        Instruction::SkipIfKeyPressed { register } => {
            if m.keys[m.regs[register as int] as int % 16] {
                Model { pc: m.pc.wrapping_add(2), ..m }
            } else {
                m
            }
        },
        Instruction::SkipIfKeyNotPressed { register } => {
            if !m.keys[m.regs[register as int] as int % 16] {
                Model { pc: m.pc.wrapping_add(2), ..m }
            } else {
                m
            }
        },
        Instruction::AssignDelayTimerToReg { register } => Model {
            regs: m.regs.update(register as int, m.delay),
            ..m
        },
        Instruction::AwaitAndSetKeyPress { register } => {
            let k = first_key(m.keys);
            if k < 16 {
                Model { regs: m.regs.update(register as int, k as u8), ..m }
            } else {
                Model { pc: pre.pc, ..m }
            }
        },
        Instruction::SetDelayTimer { register } => Model { delay: m.regs[register as int], ..m },
        Instruction::SetSoundTimer { register } => Model { sound: m.regs[register as int], ..m },
        Instruction::AddRegToAddressWithoutCarry { register } => Model {
            reg_i: m.reg_i.wrapping_add(m.regs[register as int] as u16),
            ..m
        },
        Instruction::AssignFontSpriteToAddress { register } => {
            let v = m.regs[register as int];
            Model {
                reg_i: if v < 16 {
                    (v * 10) as u16
                } else {
                    m.reg_i
                },
                ..m
            }
        },
        Instruction::StoreRegBcd { register } => {
            let v = m.regs[register as int] as int;
            Model {
                mem: m.mem.update(mem_index(m.reg_i, 0), (v / 100) as u8).update(
                    mem_index(m.reg_i, 1),
                    ((v / 10) % 10) as u8,
                ).update(mem_index(m.reg_i, 2), (v % 10) as u8),
                ..m
            }
        },
        Instruction::SaveRegisters { last_register } => Model {
            mem: store_regs(m.mem, m.regs, m.reg_i, last_register as int + 1),
            ..m
        },
        Instruction::LoadRegisters { last_register } => Model {
            regs: Seq::new(
                16,
                |j: int|
                    if j <= last_register as int {
                        m.mem[mem_index(m.reg_i, j)]
                    } else {
                        m.regs[j]
                    },
            ),
            ..m
        },
        Instruction::Unknown { opcode } => m,
    }
}

/// The three accumulators after one host tick's elapsed time is added and
/// the two 60 Hz timers have decayed where their thresholds were crossed.
/// Each accumulator saturates rather than overflows, fires at most once per
/// tick, and resets to zero when it fires.
pub open spec fn decay_model(m: Model, elapsed_micros: u64) -> Model {
    let ca = m.acc_cpu.saturating_add(elapsed_micros);
    let da = m.acc_delay.saturating_add(elapsed_micros);
    let sa = m.acc_sound.saturating_add(elapsed_micros);
    Model {
        acc_cpu: ca,
        acc_delay: if da >= TIMER_TICK_MICROS {
            0
        } else {
            da
        },
        delay: if da >= TIMER_TICK_MICROS {
            sat_dec(m.delay)
        } else {
            m.delay
        },
        acc_sound: if sa >= TIMER_TICK_MICROS {
            0
        } else {
            sa
        },
        sound: if sa >= TIMER_TICK_MICROS {
            sat_dec(m.sound)
        } else {
            m.sound
        },
        ..m
    }
}

/// One host tick: the timers decay first; then, if the CPU accumulator has
/// crossed its threshold, exactly one instruction is fetched at the program
/// counter, decoded and executed, and that accumulator resets.
pub open spec fn step_model(pre: Model, elapsed_micros: u64, rnd: u8) -> Model {
    let mid = decay_model(pre, elapsed_micros);
    if mid.acc_cpu >= CPU_TICK_MICROS {
        execute_model(Model { acc_cpu: 0, ..mid }, decode_spec(fetch_spec(mid)), rnd)
    } else {
        mid
    }
}

/// Removing one entry of a duplicate-free list removes exactly that element
/// from the set it holds.
proof fn lemma_to_set_remove(s: Seq<(u32, u32)>, idx: int)
    requires
        distinct_pixels(s),
        0 <= idx < s.len(),
    ensures
        distinct_pixels(s.remove(idx)),
        s.remove(idx).to_set() == s.to_set().remove(s[idx]),
{
    let r = s.remove(idx);
    s.remove_ensures(idx);
    assert forall|i: int, j: int| 0 <= i < j < r.len() implies r[i] != r[j] by {
        let i0 = if i < idx {
            i
        } else {
            i + 1
        };
        let j0 = if j < idx {
            j
        } else {
            j + 1
        };
        assert(r[i] == s[i0]);
        assert(r[j] == s[j0]);
    }
    assert forall|q: (u32, u32)| r.to_set().contains(q) implies s.to_set().remove(
        s[idx],
    ).contains(q) by {
        let i = choose|i: int| 0 <= i < r.len() && r[i] == q;
        let i0 = if i < idx {
            i
        } else {
            i + 1
        };
        assert(s[i0] == q);
        if i0 < idx {
            assert(s[i0] != s[idx]);
        } else {
            assert(s[idx] != s[i0]);
        }
    }
    assert forall|q: (u32, u32)| s.to_set().remove(s[idx]).contains(q) implies r.to_set().contains(
        q,
    ) by {
        let i0 = choose|i: int| 0 <= i < s.len() && s[i] == q;
        if i0 < idx {
            assert(r[i0] == q);
        } else {
            assert(i0 != idx);
            assert(r[i0 - 1] == q);
        }
    }
    assert(r.to_set() =~= s.to_set().remove(s[idx]));
}

/// Appending an element adds exactly it to the set a list holds, and keeps
/// the list duplicate-free when it was not there yet.
proof fn lemma_to_set_push(s: Seq<(u32, u32)>, p: (u32, u32))
    requires
        distinct_pixels(s),
        forall|i: int| 0 <= i < s.len() ==> s[i] != p,
    ensures
        distinct_pixels(s.push(p)),
        s.push(p).to_set() == s.to_set().insert(p),
{
    let r = s.push(p);
    assert forall|q: (u32, u32)| r.to_set().contains(q) implies s.to_set().insert(p).contains(q) by {
        let i = choose|i: int| 0 <= i < r.len() && r[i] == q;
        if i < s.len() {
            assert(s[i] == q);
        }
    }
    assert forall|q: (u32, u32)| s.to_set().insert(p).contains(q) implies r.to_set().contains(q) by {
        if q == p {
            assert(r[s.len() as int] == q);
        } else {
            let i = choose|i: int| 0 <= i < s.len() && s[i] == q;
            assert(r[i] == q);
        }
    }
    assert(r.to_set() =~= s.to_set().insert(p));
}

/// A linear scan for a coordinate in the pixel list.
fn find_pixel(v: &Vec<(u32, u32)>, x: u32, y: u32) -> (r: Option<usize>)
    ensures
        match r {
            Some(idx) => idx < v@.len() && v@[idx as int] == (x, y),
            None => forall|i: int| 0 <= i < v@.len() ==> v@[i] != (x, y),
        },
{
    let mut i: usize = 0;
    while i < v.len()
        invariant
            i <= v@.len(),
            forall|k: int| 0 <= k < i ==> v@[k] != (x, y),
        decreases v@.len() - i,
    {
        let p = v[i];
        if p.0 == x && p.1 == y {
            assert(v@[i as int] == (x, y));
            return Some(i);
        }
        i += 1;
    }
    None
}

impl Emulator {
    /// Toggle each listed pixel: a lit pixel goes dark, a dark one lights
    /// up. Returns whether any listed pixel was lit before (a collision).
    /// The list must not name a coordinate twice.
    pub fn draw_pixels(&mut self, pixels: &Vec<(u32, u32)>) -> (collided: bool)
        requires
            old(self).wf(),
            distinct_pixels(pixels@),
        ensures
            final(self).wf(),
            final(self).cpu == old(self).cpu,
            final(self).memory == old(self).memory,
            final(self).input == old(self).input,
            final(self).cpu_timer == old(self).cpu_timer,
            final(self).delay_timer == old(self).delay_timer,
            final(self).sound_timer == old(self).sound_timer,
            final(self).active_pixels@.to_set() == xor_pixels(
                old(self).active_pixels@.to_set(),
                pixels@.to_set(),
            ),
            collided == hits(pixels@.to_set(), old(self).active_pixels@.to_set()),
    {
        let ghost orig = self.active_pixels@.to_set();
        let mut collided = false;
        let mut k: usize = 0;
        while k < pixels.len()
            invariant
                distinct_pixels(pixels@),
                k <= pixels@.len(),
                distinct_pixels(self.active_pixels@),
                self.cpu == old(self).cpu,
                self.memory == old(self).memory,
                self.input == old(self).input,
                self.cpu_timer == old(self).cpu_timer,
                self.delay_timer == old(self).delay_timer,
                self.sound_timer == old(self).sound_timer,
                orig == old(self).active_pixels@.to_set(),
                self.active_pixels@.to_set() == xor_pixels(
                    orig,
                    pixels@.take(k as int).to_set(),
                ),
                collided == hits(pixels@.take(k as int).to_set(), orig),
            decreases pixels@.len() - k,
        {
            let p = pixels[k];
            let ghost taken = pixels@.take(k as int).to_set();
            proof {
                assert(pixels@.take(k as int + 1) =~= pixels@.take(k as int).push(p));
                assert(!taken.contains(p)) by {
                    if pixels@.take(k as int).contains(p) {
                        let i = choose|i: int|
                            0 <= i < k && pixels@.take(k as int)[i] == p;
                        assert(pixels@[i] == p);
                        assert(pixels@[i] != pixels@[k as int]);
                    }
                };
                assert(pixels@.take(k as int + 1).to_set() =~= taken.insert(p)) by {
                    assert forall|i: int| 0 <= i < k implies pixels@.take(k as int)[i] != p by {
                        assert(pixels@[i] != pixels@[k as int]);
                    }
                    lemma_to_set_push(pixels@.take(k as int), p);
                };
            }
            match find_pixel(&self.active_pixels, p.0, p.1) {
                Some(idx) => {
                    proof {
                        assert(self.active_pixels@.to_set().contains(p)) by {
                            assert(self.active_pixels@[idx as int] == p);
                        };
                        assert(orig.contains(p));
                        lemma_to_set_remove(self.active_pixels@, idx as int);
                    }
                    self.active_pixels.remove(idx);
                    collided = true;
                    proof {
                        assert(self.active_pixels@.to_set() =~= xor_pixels(
                            orig,
                            taken.insert(p),
                        ));
                        assert(hits(taken.insert(p), orig)) by {
                            assert(taken.insert(p).contains(p) && orig.contains(p));
                        };
                    }
                },
                None => {
                    proof {
                        assert(!self.active_pixels@.to_set().contains(p)) by {
                            if self.active_pixels@.contains(p) {
                                let i = choose|i: int|
                                    0 <= i < self.active_pixels@.len()
                                        && self.active_pixels@[i] == p;
                            }
                        };
                        assert(!orig.contains(p));
                        lemma_to_set_push(self.active_pixels@, p);
                    }
                    self.active_pixels.push(p);
                    proof {
                        assert(self.active_pixels@.to_set() =~= xor_pixels(
                            orig,
                            taken.insert(p),
                        ));
                        assert(hits(taken.insert(p), orig) == hits(taken, orig)) by {
                            if hits(taken.insert(p), orig) {
                                let q = choose|q: (u32, u32)|
                                    taken.insert(p).contains(q) && orig.contains(q);
                                assert(q != p);
                                assert(taken.contains(q));
                            }
                            if hits(taken, orig) {
                                let q = choose|q: (u32, u32)|
                                    taken.contains(q) && orig.contains(q);
                                assert(taken.insert(p).contains(q));
                            }
                        };
                    }
                },
            }
            k += 1;
        }
        proof {
            assert(pixels@.take(pixels@.len() as int) =~= pixels@);
        }
        collided
    }
}

/// One more bit of a sprite row adds at most one pixel: the one at column
/// `ox + j`, if bit `j` is set and on screen.
proof fn lemma_sprite_row_step(b: u8, ox: int, y: int, j: int)
    requires
        0 <= j < 8,
        0 <= ox,
        0 <= y,
    ensures
        sprite_row_pixels(b, ox, y, j + 1) == (
        if row_bit(b, j) && ox + j < 64 && y < 32 {
            sprite_row_pixels(b, ox, y, j).insert((((ox + j) as u32), (y as u32)))
        } else {
            sprite_row_pixels(b, ox, y, j)
        }),
{
    let with_j = sprite_row_pixels(b, ox, y, j + 1);
    let without = sprite_row_pixels(b, ox, y, j);
    if row_bit(b, j) && ox + j < 64 && y < 32 {
        let p = (((ox + j) as u32), (y as u32));
        assert forall|q: (u32, u32)| with_j.contains(q) implies without.insert(p).contains(q) by {
            let j0 = choose|j0: int|
                0 <= j0 < j + 1 && #[trigger] row_bit(b, j0) && ox + j0 < 64 && y < 32 && q.0 == ox
                    + j0 && q.1 == y;
            if j0 < j {
                assert(without.contains(q));
            } else {
                assert(q == p);
            }
        }
        assert forall|q: (u32, u32)| without.insert(p).contains(q) implies with_j.contains(q) by {
            if q == p {
                assert(row_bit(b, j) && ox + j < 64 && y < 32 && p.0 == ox + j && p.1 == y);
            } else {
                let j0 = choose|j0: int|
                    0 <= j0 < j && #[trigger] row_bit(b, j0) && ox + j0 < 64 && y < 32 && q.0 == ox
                        + j0 && q.1 == y;
                assert(row_bit(b, j0));
            }
        }
        assert(with_j =~= without.insert(p));
    } else {
        assert forall|q: (u32, u32)| with_j.contains(q) implies without.contains(q) by {
            let j0 = choose|j0: int|
                0 <= j0 < j + 1 && #[trigger] row_bit(b, j0) && ox + j0 < 64 && y < 32 && q.0 == ox
                    + j0 && q.1 == y;
            assert(j0 != j);
        }
        assert(with_j =~= without);
    }
}

/// One more sprite row adds exactly that row's pixels.
proof fn lemma_sprite_rows_step(mem: Seq<u8>, base: u16, ox: int, oy: int, r: int)
    requires
        0 <= r,
        0 <= ox,
        0 <= oy,
    ensures
        sprite_pixels(mem, base, ox, oy, r + 1) == sprite_pixels(mem, base, ox, oy, r).union(
            sprite_row_pixels(mem[mem_index(base, r)], ox, oy + r, 8),
        ),
{
    let all = sprite_pixels(mem, base, ox, oy, r + 1);
    let rows = sprite_pixels(mem, base, ox, oy, r);
    let row = sprite_row_pixels(mem[mem_index(base, r)], ox, oy + r, 8);
    assert forall|q: (u32, u32)| all.contains(q) implies rows.union(row).contains(q) by {
        let (r0, j0) = choose|r0: int, j0: int|
            0 <= r0 < r + 1 && 0 <= j0 < 8 && #[trigger] row_bit(mem[mem_index(base, r0)], j0)
                && ox + j0 < 64 && oy + r0 < 32 && q.0 == ox + j0 && q.1 == oy + r0;
        if r0 < r {
            assert(rows.contains(q));
        } else {
            assert(row.contains(q));
        }
    }
    assert forall|q: (u32, u32)| rows.union(row).contains(q) implies all.contains(q) by {
        if rows.contains(q) {
            let (r0, j0) = choose|r0: int, j0: int|
                0 <= r0 < r && 0 <= j0 < 8 && #[trigger] row_bit(mem[mem_index(base, r0)], j0) && ox
                    + j0 < 64 && oy + r0 < 32 && q.0 == ox + j0 && q.1 == oy + r0;
            assert(row_bit(mem[mem_index(base, r0)], j0));
        } else {
            let j0 = choose|j0: int|
                0 <= j0 < 8 && #[trigger] row_bit(mem[mem_index(base, r)], j0) && ox + j0 < 64 && oy
                    + r < 32 && q.0 == ox + j0 && q.1 == oy + r;
            assert(row_bit(mem[mem_index(base, r)], j0));
        }
    }
    assert(all =~= rows.union(row));
}

/// Walk the sprite rows high bit to low bit and collect the on-screen
/// coordinates of every set bit, each at most once.
fn collect_sprite_pixels(memory: &Vec<u8>, base: u16, ox: u32, oy: u32, n: usize) -> (v: Vec<
    (u32, u32),
>)
    requires
        memory@.len() == 4096,
        ox < 64,
        oy < 32,
        n < 16,
    ensures
        distinct_pixels(v@),
        v@.to_set() == sprite_pixels(memory@, base, ox as int, oy as int, n as int),
{
    let mut v: Vec<(u32, u32)> = Vec::new();
    proof {
        assert(v@.to_set() =~= sprite_pixels(memory@, base, ox as int, oy as int, 0));
    }
    for r in 0..n
        invariant
            memory@.len() == 4096,
            ox < 64,
            oy < 32,
            n < 16,
            distinct_pixels(v@),
            forall|t: int| 0 <= t < v@.len() ==> (#[trigger] v@[t]).1 < oy + r,
            v@.to_set() == sprite_pixels(memory@, base, ox as int, oy as int, r as int),
    {
        let data = memory[wrap_index(base, r)];
        let y = oy + (r as u32);
        proof {
            assert(sprite_row_pixels(data, ox as int, y as int, 0) =~= Set::empty());
            assert(v@.to_set() =~= sprite_pixels(
                memory@,
                base,
                ox as int,
                oy as int,
                r as int,
            ).union(sprite_row_pixels(data, ox as int, y as int, 0)));
        }
        for j in 0..8usize
            invariant
                memory@.len() == 4096,
                ox < 64,
                oy < 32,
                n < 16,
                r < n,
                y == oy + r,
                data == memory@[mem_index(base, r as int)],
                distinct_pixels(v@),
                forall|t: int|
                    0 <= t < v@.len() ==> (#[trigger] v@[t]).1 < y || (v@[t].1 == y && v@[t].0 < ox
                        + j),
                v@.to_set() == sprite_pixels(
                    memory@,
                    base,
                    ox as int,
                    oy as int,
                    r as int,
                ).union(sprite_row_pixels(data, ox as int, y as int, j as int)),
        {
            proof {
                lemma_sprite_row_step(data, ox as int, y as int, j as int);
            }
            if data & (0x80u8 >> (j as u32)) != 0 {
                let px = ox + (j as u32);
                if px < 64 && y < 32 {
                    proof {
                        lemma_to_set_push(v@, (px, y));
                    }
                    v.push((px, y));
                    proof {
                        assert(v@.to_set() =~= sprite_pixels(
                            memory@,
                            base,
                            ox as int,
                            oy as int,
                            r as int,
                        ).union(sprite_row_pixels(data, ox as int, y as int, j as int + 1)));
                    }
                }
            }
        }
        proof {
            lemma_sprite_rows_step(memory@, base, ox as int, oy as int, r as int);
            assert(v@.to_set() =~= sprite_pixels(
                memory@,
                base,
                ox as int,
                oy as int,
                r as int + 1,
            ));
        }
    }
    v
}

/// An execution trace enters the pressed key with the smallest number.
proof fn lemma_first_key_at(keys: Seq<bool>, k: int, i: int)
    requires
        0 <= k <= i < 16,
        keys[i],
        forall|j: int| k <= j < i ==> !keys[j],
    ensures
        first_key_from(keys, k) == i,
    decreases i - k,
{
    if k < i {
        lemma_first_key_at(keys, k + 1, i);
    }
}

/// With no key pressed there is no smallest pressed key.
proof fn lemma_first_key_none(keys: Seq<bool>, k: int)
    requires
        0 <= k <= 16,
        forall|j: int| k <= j < 16 ==> !keys[j],
    ensures
        first_key_from(keys, k) == 16,
    decreases 16 - k,
{
    if k < 16 {
        lemma_first_key_none(keys, k + 1);
    }
}

/// Relies on rand::random: draws one uniformly distributed byte from the
/// thread-local generator. Nothing is promised of the value; every
/// contract downstream holds whatever byte comes back.
#[verifier::external_body]
fn random_byte() -> u8 {
    rand::random::<u8>()
}

impl Emulator {
    /// Apply one decoded operation to the machine. The program counter
    /// advances by 2 before the operation's effect, so jump, call and
    /// return targets are absolute; an unrecognized encoding is a no-op
    /// beyond that advance and never halts the engine. The final state is
    /// `execute_model` of the starting state for some byte from the random
    /// source; only `BitwiseAndWithRand` depends on that byte.
    pub fn execute(&mut self, instruction: Instruction)
        requires
            old(self).wf(),
            instruction.wf(),
        ensures
            final(self).wf(),
            exists|b: u8|
                final(self).model() == #[trigger] execute_model(
                    old(self).model(),
                    instruction,
                    b,
                ),
    {
        let ghost pre = old(self).model();
        let ghost mut rnd: u8 = 0;
        self.cpu.program_counter = self.cpu.program_counter.wrapping_add(2);
        let ghost m = Model { pc: pre.pc.wrapping_add(2), ..pre };
        proof {
            assert(self.model() =~= m);
        }
        match instruction {
            Instruction::ClearDisplay => {
                self.active_pixels.clear();
                proof {
                    assert(self.model() =~= execute_model(pre, instruction, rnd));
                }
            },
            Instruction::Return => {
                if self.cpu.stack_index >= 0 {
                    self.cpu.program_counter = self.cpu.stack[self.cpu.stack_index as usize];
                    self.cpu.stack_index = self.cpu.stack_index - 1;
                }
                proof {
                    assert(self.model() =~= execute_model(pre, instruction, rnd));
                }
            },
            Instruction::Jump { address } => {
                self.cpu.program_counter = address;
                proof {
                    assert(self.model() =~= execute_model(pre, instruction, rnd));
                }
            },
            Instruction::Call { address } => {
                if self.cpu.stack_index < 15 {
                    let idx = (self.cpu.stack_index + 1) as usize;
                    self.cpu.stack[idx] = self.cpu.program_counter;
                    self.cpu.stack_index = self.cpu.stack_index + 1;
                    self.cpu.program_counter = address;
                }
                proof {
                    assert(self.model() =~= execute_model(pre, instruction, rnd));
                }
            },
            Instruction::SkipIfRegEqConstant { register, constant } => {
                if self.cpu.registers[register] == constant {
                    self.cpu.program_counter = self.cpu.program_counter.wrapping_add(2);
                }
                proof {
                    assert(self.model() =~= execute_model(pre, instruction, rnd));
                }
            },
            Instruction::SkipIfRegNotEqConstant { register, constant } => {
                if self.cpu.registers[register] != constant {
                    self.cpu.program_counter = self.cpu.program_counter.wrapping_add(2);
                }
                proof {
                    assert(self.model() =~= execute_model(pre, instruction, rnd));
                }
            },
            Instruction::SkipIfRegEqReg { register_lhs, register_rhs } => {
                if self.cpu.registers[register_lhs] == self.cpu.registers[register_rhs] {
                    self.cpu.program_counter = self.cpu.program_counter.wrapping_add(2);
                }
                proof {
                    assert(self.model() =~= execute_model(pre, instruction, rnd));
                }
            },
            Instruction::AssignConstToReg { register, constant } => {
                self.cpu.registers[register] = constant;
                proof {
                    assert(self.model() =~= execute_model(pre, instruction, rnd));
                }
            },
            Instruction::AddConstToReg { register, constant } => {
                let sum = self.cpu.registers[register] as u16 + constant as u16;
                self.cpu.registers[register] = (sum % 0x100) as u8;
                proof {
                    assert(self.model() =~= execute_model(pre, instruction, rnd));
                }
            },
            Instruction::AssignRegToReg { register_lhs, register_rhs } => {
                let value = self.cpu.registers[register_rhs];
                self.cpu.registers[register_lhs] = value;
                proof {
                    assert(self.model() =~= execute_model(pre, instruction, rnd));
                }
            },
            Instruction::BitwiseOr { register_lhs, register_rhs } => {
                let a = self.cpu.registers[register_lhs];
                let b = self.cpu.registers[register_rhs];
                self.cpu.registers[register_lhs] = a | b;
                proof {
                    assert(self.model() =~= execute_model(pre, instruction, rnd));
                }
            },
            Instruction::BitwiseAnd { register_lhs, register_rhs } => {
                let a = self.cpu.registers[register_lhs];
                let b = self.cpu.registers[register_rhs];
                self.cpu.registers[register_lhs] = a & b;
                proof {
                    assert(self.model() =~= execute_model(pre, instruction, rnd));
                }
            },
            Instruction::BitwiseXor { register_lhs, register_rhs } => {
                let a = self.cpu.registers[register_lhs];
                let b = self.cpu.registers[register_rhs];
                self.cpu.registers[register_lhs] = a ^ b;
                proof {
                    assert(self.model() =~= execute_model(pre, instruction, rnd));
                }
            },
            Instruction::AddRegToReg { register_lhs, register_rhs } => {
                let sum = self.cpu.registers[register_lhs] as u16
                    + self.cpu.registers[register_rhs] as u16;
                self.cpu.registers[register_lhs] = (sum % 0x100) as u8;
                self.cpu.registers[0xF] = if sum > 0xFF {
                    1
                } else {
                    0
                };
                proof {
                    assert(self.model() =~= execute_model(pre, instruction, rnd));
                }
            },
            Instruction::SubReg2FromReg1 { register_lhs, register_rhs } => {
                let a = self.cpu.registers[register_lhs];
                let b = self.cpu.registers[register_rhs];
                self.cpu.registers[register_lhs] = if a >= b {
                    a - b
                } else {
                    (a as u16 + 0x100 - b as u16) as u8
                };
                self.cpu.registers[0xF] = if a >= b {
                    1
                } else {
                    0
                };
                proof {
                    assert(self.model() =~= execute_model(pre, instruction, rnd));
                }
            },
            Instruction::BitwiseShrBy1 { register } => {
                let a = self.cpu.registers[register];
                self.cpu.registers[0xF] = a % 2;
                let shifted = self.cpu.registers[register] / 2;
                self.cpu.registers[register] = shifted;
                proof {
                    assert(self.model() =~= execute_model(pre, instruction, rnd));
                }
            },
            Instruction::SubReg1FromReg2 { register_lhs, register_rhs } => {
                let a = self.cpu.registers[register_lhs];
                let b = self.cpu.registers[register_rhs];
                self.cpu.registers[register_lhs] = if b >= a {
                    b - a
                } else {
                    (b as u16 + 0x100 - a as u16) as u8
                };
                self.cpu.registers[0xF] = if b >= a {
                    1
                } else {
                    0
                };
                proof {
                    assert(self.model() =~= execute_model(pre, instruction, rnd));
                }
            },
            Instruction::BitwiseShlBy1 { register } => {
                let doubled = self.cpu.registers[register] as u16 * 2;
                self.cpu.registers[register] = (doubled % 0x100) as u8;
                self.cpu.registers[0xF] = if doubled > 0xFF {
                    1
                } else {
                    0
                };
                proof {
                    assert(self.model() =~= execute_model(pre, instruction, rnd));
                }
            },
            Instruction::CondRegNotEqReg { register_lhs, register_rhs } => {
                if self.cpu.registers[register_lhs] != self.cpu.registers[register_rhs] {
                    self.cpu.program_counter = self.cpu.program_counter.wrapping_add(2);
                }
                proof {
                    assert(self.model() =~= execute_model(pre, instruction, rnd));
                }
            },
            Instruction::SetAddress { address } => {
                self.cpu.register_i = address;
                proof {
                    assert(self.model() =~= execute_model(pre, instruction, rnd));
                }
            },
            Instruction::JumpWithV0Offset { address } => {
                self.cpu.program_counter = self.cpu.registers[0] as u16 + address;
                proof {
                    assert(self.model() =~= execute_model(pre, instruction, rnd));
                }
            },
            Instruction::BitwiseAndWithRand { register, constant } => {
                let random_number = random_byte();
                proof {
                    rnd = random_number;
                }
                self.cpu.registers[register] = constant & random_number;
                proof {
                    assert(self.model() =~= execute_model(pre, instruction, rnd));
                }
            },
            Instruction::DisplaySprite { register_x, register_y, n_bytes } => {
                let origin_x = (self.cpu.registers[register_x] as u32) % 64;
                let origin_y = (self.cpu.registers[register_y] as u32) % 32;
                let pixels = collect_sprite_pixels(
                    &self.memory,
                    self.cpu.register_i,
                    origin_x,
                    origin_y,
                    n_bytes,
                );
                let ghost toggled = sprite_pixels(
                    m.mem,
                    m.reg_i,
                    origin_x as int,
                    origin_y as int,
                    n_bytes as int,
                );
                let mut xored = false;
                if pixels.len() > 0 {
                    xored = self.draw_pixels(&pixels);
                } else {
                    proof {
                        assert(toggled =~= Set::<(u32, u32)>::empty());
                        assert(xor_pixels(m.pixels, toggled) =~= m.pixels);
                        assert(!hits(toggled, m.pixels));
                    }
                }
                self.cpu.registers[0xF] = if xored {
                    1
                } else {
                    0
                };
                proof {
                    assert(self.model() =~= execute_model(pre, instruction, rnd));
                }
            },
            Instruction::SkipIfKeyPressed { register } => {
                let key = (self.cpu.registers[register] as usize) % 16;
                if self.input[key] {
                    self.cpu.program_counter = self.cpu.program_counter.wrapping_add(2);
                }
                proof {
                    assert(self.model() =~= execute_model(pre, instruction, rnd));
                }
            },
            Instruction::SkipIfKeyNotPressed { register } => {
                let key = (self.cpu.registers[register] as usize) % 16;
                if !self.input[key] {
                    self.cpu.program_counter = self.cpu.program_counter.wrapping_add(2);
                }
                proof {
                    assert(self.model() =~= execute_model(pre, instruction, rnd));
                }
            },
            Instruction::AssignDelayTimerToReg { register } => {
                self.cpu.registers[register] = self.cpu.delay_timer;
                proof {
                    assert(self.model() =~= execute_model(pre, instruction, rnd));
                }
            },
            Instruction::AwaitAndSetKeyPress { register } => {
                let mut found: usize = 16;
                let mut i: usize = 0;
                while i < 16
                    invariant
                        self.wf(),
                        i <= 16,
                        found == 16 || (found < i && self.input@[found as int] && forall|j: int|
                            0 <= j < found ==> !self.input@[j]),
                        found == 16 ==> forall|j: int| 0 <= j < i ==> !self.input@[j],
                    decreases 16 - i,
                {
                    if found == 16 && self.input[i] {
                        found = i;
                    }
                    i += 1;
                }
                if found < 16 {
                    proof {
                        lemma_first_key_at(self.input@, 0, found as int);
                    }
                    self.cpu.registers[register] = found as u8;
                } else {
                    proof {
                        lemma_first_key_none(self.input@, 0);
                    }
                    self.cpu.program_counter = self.cpu.program_counter.wrapping_sub(2);
                }
                proof {
                    assert(self.model() =~= execute_model(pre, instruction, rnd));
                }
            },
            Instruction::SetDelayTimer { register } => {
                self.cpu.delay_timer = self.cpu.registers[register];
                proof {
                    assert(self.model() =~= execute_model(pre, instruction, rnd));
                }
            },
            Instruction::SetSoundTimer { register } => {
                self.cpu.sound_timer = self.cpu.registers[register];
                proof {
                    assert(self.model() =~= execute_model(pre, instruction, rnd));
                }
            },
            Instruction::AddRegToAddressWithoutCarry { register } => {
                let offset = self.cpu.registers[register] as u16;
                self.cpu.register_i = self.cpu.register_i.wrapping_add(offset);
                proof {
                    assert(self.model() =~= execute_model(pre, instruction, rnd));
                }
            },
            Instruction::AssignFontSpriteToAddress { register } => {
                let character = self.cpu.registers[register];
                if character < 16 {
                    self.cpu.register_i = (character as u16) * 10;
                }
                proof {
                    assert(self.model() =~= execute_model(pre, instruction, rnd));
                }
            },
            Instruction::StoreRegBcd { register } => {
                let value = self.cpu.registers[register];
                let a0 = wrap_index(self.cpu.register_i, 0);
                let a1 = wrap_index(self.cpu.register_i, 1);
                let a2 = wrap_index(self.cpu.register_i, 2);
                self.memory[a0] = value / 100;
                self.memory[a1] = (value / 10) % 10;
                self.memory[a2] = value % 10;
                proof {
                    assert(self.model() =~= execute_model(pre, instruction, rnd));
                }
            },
            Instruction::SaveRegisters { last_register } => {
                let mut i: usize = 0;
                while i <= last_register
                    invariant
                        last_register < 16,
                        i <= last_register + 1,
                        self.wf(),
                        self.cpu.registers@ == m.regs,
                        self.cpu.register_i == m.reg_i,
                        self.memory@ == store_regs(m.mem, m.regs, m.reg_i, i as int),
                        self.cpu.program_counter == m.pc,
                        self.cpu.stack@ == m.stack,
                        self.cpu.stack_index as int == m.sp,
                        self.cpu.delay_timer == m.delay,
                        self.cpu.sound_timer == m.sound,
                        self.active_pixels@ == old(self).active_pixels@,
                        self.input@ == m.keys,
                        self.cpu_timer == m.acc_cpu,
                        self.delay_timer == m.acc_delay,
                        self.sound_timer == m.acc_sound,
                    decreases last_register + 1 - i,
                {
                    let a = wrap_index(self.cpu.register_i, i);
                    self.memory[a] = self.cpu.registers[i];
                    i += 1;
                }
                proof {
                    assert(self.model() =~= execute_model(pre, instruction, rnd));
                }
            },
            Instruction::LoadRegisters { last_register } => {
                let mut i: usize = 0;
                while i <= last_register
                    invariant
                        last_register < 16,
                        i <= last_register + 1,
                        self.wf(),
                        self.cpu.registers@.len() == 16,
                        forall|j: int|
                            0 <= j < i ==> self.cpu.registers@[j] == m.mem[mem_index(m.reg_i, j)],
                        forall|j: int| i <= j < 16 ==> self.cpu.registers@[j] == m.regs[j],
                        self.cpu.register_i == m.reg_i,
                        self.memory@ == m.mem,
                        self.cpu.program_counter == m.pc,
                        self.cpu.stack@ == m.stack,
                        self.cpu.stack_index as int == m.sp,
                        self.cpu.delay_timer == m.delay,
                        self.cpu.sound_timer == m.sound,
                        self.active_pixels@ == old(self).active_pixels@,
                        self.input@ == m.keys,
                        self.cpu_timer == m.acc_cpu,
                        self.delay_timer == m.acc_delay,
                        self.sound_timer == m.acc_sound,
                    decreases last_register + 1 - i,
                {
                    let a = wrap_index(self.cpu.register_i, i);
                    let value = self.memory[a];
                    self.cpu.registers[i] = value;
                    i += 1;
                }
                proof {
                    assert(self.cpu.registers@ =~= Seq::new(
                        16,
                        |j: int|
                            if j <= last_register as int {
                                m.mem[mem_index(m.reg_i, j)]
                            } else {
                                m.regs[j]
                            },
                    ));
                    assert(self.model() =~= execute_model(pre, instruction, rnd));
                }
            },
            Instruction::Unknown { opcode } => {
                proof {
                    assert(self.model() =~= execute_model(pre, instruction, rnd));
                }
            },
        }
        proof {
            assert(self.model() == execute_model(pre, instruction, rnd));
        }
    }
}

/// The byte stream of a program: each operation's opcode word, big-endian.
pub open spec fn program_bytes(instrs: Seq<Instruction>) -> Seq<u8> {
    Seq::new(
        2 * instrs.len(),
        |i: int|
            if i % 2 == 0 {
                (encode_spec(instrs[i / 2]) as int / 0x100) as u8
            } else {
                (encode_spec(instrs[i / 2]) as int % 0x100) as u8
            },
    )
}

impl Emulator {
    /// Assemble a list of operations into big-endian opcode words and load
    /// them as the program image at address 512.
    pub fn load_instructions(&mut self, instructions: Vec<Instruction>)
        requires
            old(self).wf(),
            forall|k: int| 0 <= k < instructions@.len() ==> (#[trigger] instructions@[k]).wf(),
            2 * instructions@.len() <= 3584,
        ensures
            final(self).wf(),
            final(self).model() == (Model {
                pc: 512,
                mem: Seq::new(
                    4096,
                    |a: int|
                        if 512 <= a < 512 + 2 * instructions@.len() {
                            program_bytes(instructions@)[a - 512]
                        } else {
                            old(self).model().mem[a]
                        },
                ),
                ..old(self).model()
            }),
    {
        let mut data: Vec<u8> = Vec::new();
        let mut k: usize = 0;
        while k < instructions.len()
            invariant
                forall|t: int| 0 <= t < instructions@.len() ==> (#[trigger] instructions@[t]).wf(),
                k <= instructions@.len(),
                data@ == program_bytes(instructions@.take(k as int)),
            decreases instructions@.len() - k,
        {
            let opcode = instructions[k].to_opcode();
            data.push((opcode / 0x100) as u8);
            data.push((opcode % 0x100) as u8);
            proof {
                let instrs = instructions@;
                let done = program_bytes(instrs.take(k as int + 1));
                assert(data@ =~= done) by {
                    assert forall|i: int| 0 <= i < 2 * (k + 1) implies data@[i] == done[i] by {
                        if i < 2 * k {
                            lemma_fundamental_div_mod(i, 2);
                            assert(data@[i] == program_bytes(instrs.take(k as int))[i]);
                            assert(instrs.take(k as int)[i / 2] == instrs.take(k as int + 1)[i
                                / 2]);
                        } else if i == 2 * k {
                            lemma_fundamental_div_mod_converse(i, 2, k as int, 0);
                        } else {
                            lemma_fundamental_div_mod_converse(i, 2, k as int, 1);
                        }
                    }
                };
            }
            k += 1;
        }
        proof {
            assert(instructions@.take(instructions@.len() as int) =~= instructions@);
        }
        self.load_program_from_data(&data);
    }

    /// One host tick: add the elapsed time to all three accumulators, let
    /// each 60 Hz timer decay once if its accumulator crossed the threshold,
    /// then fetch, decode and execute at most one instruction if the CPU
    /// accumulator crossed its own. No accumulator fires more than once per
    /// tick, however late the host is; each saturates rather than overflows.
    pub fn step(&mut self, elapsed_micros: u64)
        requires
            old(self).wf(),
        ensures
            final(self).wf(),
            exists|b: u8|
                final(self).model() == #[trigger] step_model(
                    old(self).model(),
                    elapsed_micros,
                    b,
                ),
    {
        let ghost pre = old(self).model();
        self.cpu_timer = self.cpu_timer.saturating_add(elapsed_micros);
        self.delay_timer = self.delay_timer.saturating_add(elapsed_micros);
        self.sound_timer = self.sound_timer.saturating_add(elapsed_micros);

        if self.delay_timer >= TIMER_TICK_MICROS {
            self.cpu.delay_timer = if self.cpu.delay_timer > 0 {
                self.cpu.delay_timer - 1
            } else {
                0
            };
            self.delay_timer = 0;
        }
        if self.sound_timer >= TIMER_TICK_MICROS {
            self.cpu.sound_timer = if self.cpu.sound_timer > 0 {
                self.cpu.sound_timer - 1
            } else {
                0
            };
            self.sound_timer = 0;
        }
        let ghost mid = decay_model(pre, elapsed_micros);
        proof {
            assert(self.model() =~= mid);
        }
        if self.cpu_timer >= CPU_TICK_MICROS {
            self.cpu_timer = 0;
            proof {
                assert(self.model() =~= Model { acc_cpu: 0, ..mid });
            }
            let opcode = self.fetch_opcode().unwrap();
            let instruction = Instruction::decode(opcode);
            self.execute(instruction);
            proof {
                let b = choose|b: u8|
                    self.model() == execute_model(Model { acc_cpu: 0, ..mid }, instruction, b);
                assert(self.model() == #[trigger] step_model(pre, elapsed_micros, b));
            }
        } else {
            proof {
                assert(self.model() == step_model(pre, elapsed_micros, 0u8));
            }
        }
    }
}

/// Row `r` of the font sprite for hex digit `g`, as executable code.
fn font_row_value(g: u8, r: u8) -> (b: u8)
    requires
        g < 16,
        r < 5,
    ensures
        b == font_row(g as int, r as int),
{
    let rows: [u8; 80] = [
        0xF0, 0x90, 0x90, 0x90, 0xF0,
        0x20, 0x60, 0x20, 0x20, 0x70,
        0xF0, 0x10, 0xF0, 0x80, 0xF0,
        0xF0, 0x10, 0xF0, 0x10, 0xF0,
        0x90, 0x90, 0xF0, 0x10, 0x10,
        0xF0, 0x80, 0xF0, 0x10, 0xF0,
        0xF0, 0x80, 0xF0, 0x90, 0xF0,
        0xF0, 0x10, 0x20, 0x40, 0x40,
        0xF0, 0x90, 0xF0, 0x90, 0xF0,
        0xF0, 0x90, 0xF0, 0x10, 0xF0,
        0xF0, 0x90, 0xF0, 0x90, 0x90,
        0xE0, 0x90, 0xE0, 0x90, 0xE0,
        0xF0, 0x80, 0x80, 0x80, 0xF0,
        0xE0, 0x90, 0x90, 0x90, 0xE0,
        0xF0, 0x80, 0xF0, 0x80, 0xF0,
        0xF0, 0x80, 0xF0, 0x80, 0x80,
    ];
    rows[(g as usize) * 5 + (r as usize)]
}

} // verus!
