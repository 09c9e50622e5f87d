//! Machine-wide laws of the engine, proved from the execute and scheduling
//! relations alone: what holds of every state, not of chosen inputs.

use vstd::prelude::*;

use crate::emulator::{
    decay_model,
    execute_model,
    fetch_spec,
    first_key,
    first_key_from,
    hits,
    sat_dec,
    sprite_pixels,
    step_model,
    xor_pixels,
    Model,
    TIMER_TICK_MICROS,
};
use crate::instruction::{decode_spec, Instruction};

verus! {

/// `ClearDisplay` always yields an empty framebuffer, whatever was lit
/// before and whatever else the machine holds.
pub proof fn lemma_clear_display_empties(m: Model, rnd: u8)
    ensures
        execute_model(m, Instruction::ClearDisplay, rnd).pixels == Set::<(u32, u32)>::empty(),
{
}

/// A `Call` followed immediately by a `Return` restores the program counter
/// to exactly the value it would have had without the pair: the pre-call
/// counter advanced past the call instruction. Holds whenever the call
/// finds a free stack slot.
pub proof fn lemma_call_return_restores_pc(m: Model, address: u16, rnd1: u8, rnd2: u8)
    requires
        m.stack.len() == 16,
        -1 <= m.sp < 15,
    ensures
        execute_model(
            execute_model(m, Instruction::Call { address }, rnd1),
            Instruction::Return,
            rnd2,
        ).pc == m.pc.wrapping_add(2),
        execute_model(
            execute_model(m, Instruction::Call { address }, rnd1),
            Instruction::Return,
            rnd2,
        ).sp == m.sp,
{
}

/// XOR drawing is self-inverse: drawing the same sprite twice at the same
/// coordinates returns the framebuffer to its pre-draw state, and the second
/// draw reports a collision whenever the first draw lit any pixel. The
/// coordinate registers must not be the flag register `VF`, which the first
/// draw overwrites.
pub proof fn lemma_draw_twice_restores(
    m: Model,
    register_x: usize,
    register_y: usize,
    n_bytes: usize,
    rnd1: u8,
    rnd2: u8,
)
    requires
        m.regs.len() == 16,
        register_x < 15,
        register_y < 15,
        n_bytes < 16,
    ensures
        ({
            let sprite = Instruction::DisplaySprite { register_x, register_y, n_bytes };
            let once = execute_model(m, sprite, rnd1);
            let twice = execute_model(once, sprite, rnd2);
            let toggled = sprite_pixels(
                m.mem,
                m.reg_i,
                m.regs[register_x as int] as int % 64,
                m.regs[register_y as int] as int % 32,
                n_bytes as int,
            );
            &&& twice.pixels == m.pixels
            &&& (exists|p: (u32, u32)|
                toggled.contains(p) && !m.pixels.contains(p)) ==> twice.regs[15] == 1
        }),
{
    let sprite = Instruction::DisplaySprite { register_x, register_y, n_bytes };
    let once = execute_model(m, sprite, rnd1);
    let twice = execute_model(once, sprite, rnd2);
    let toggled = sprite_pixels(
        m.mem,
        m.reg_i,
        m.regs[register_x as int] as int % 64,
        m.regs[register_y as int] as int % 32,
        n_bytes as int,
    );
    assert(once.regs[register_x as int] == m.regs[register_x as int]);
    assert(once.regs[register_y as int] == m.regs[register_y as int]);
    assert(once.pixels == xor_pixels(m.pixels, toggled));
    assert(twice.pixels =~= m.pixels);
    if exists|p: (u32, u32)| toggled.contains(p) && !m.pixels.contains(p) {
        let p = choose|p: (u32, u32)| toggled.contains(p) && !m.pixels.contains(p);
        assert(once.pixels.contains(p));
        assert(hits(toggled, once.pixels));
    }
}

/// Where the smallest pressed key sits: `first_key` is 16 exactly when no
/// key is pressed, and otherwise names the pressed key with the smallest
/// number.
proof fn lemma_first_key_bounds(keys: Seq<bool>, k: int)
    requires
        0 <= k <= 16,
    ensures
        k <= first_key_from(keys, k) <= 16,
        first_key_from(keys, k) < 16 ==> keys[first_key_from(keys, k)],
        forall|j: int| k <= j < first_key_from(keys, k) ==> !keys[j],
        first_key_from(keys, k) == 16 ==> forall|j: int| k <= j < 16 ==> !keys[j],
    decreases 16 - k,
{
    if k < 16 && !keys[k] {
        lemma_first_key_bounds(keys, k + 1);
    }
}

/// The blocking key wait: with no key pressed the instruction changes
/// nothing at all, so the machine re-executes it on every following CPU
/// step; once some key is pressed, the smallest pressed key's number lands
/// in the target register and the program counter finally advances.
pub proof fn lemma_await_key(m: Model, register: usize, rnd: u8)
    requires
        m.keys.len() == 16,
    ensures
        (forall|k: int| 0 <= k < 16 ==> !m.keys[k]) ==> execute_model(
            m,
            Instruction::AwaitAndSetKeyPress { register },
            rnd,
        ) == m,
        (exists|k: int| 0 <= k < 16 && m.keys[k]) ==> ({
            let k0 = first_key(m.keys);
            &&& 0 <= k0 < 16
            &&& m.keys[k0]
            &&& (forall|j: int| 0 <= j < k0 ==> !m.keys[j])
            &&& execute_model(m, Instruction::AwaitAndSetKeyPress { register }, rnd) == (Model {
                pc: m.pc.wrapping_add(2),
                regs: m.regs.update(register as int, k0 as u8),
                ..m
            })
        }),
{
    lemma_first_key_bounds(m.keys, 0);
    if forall|k: int| 0 <= k < 16 ==> !m.keys[k] {
        assert(first_key(m.keys) == 16) by {
            if first_key(m.keys) < 16 {
                assert(m.keys[first_key(m.keys)]);
            }
        };
        assert(execute_model(m, Instruction::AwaitAndSetKeyPress { register }, rnd) =~= m);
    }
    if exists|k: int| 0 <= k < 16 && m.keys[k] {
        let k = choose|k: int| 0 <= k < 16 && m.keys[k];
        assert(first_key(m.keys) < 16) by {
            if first_key(m.keys) == 16 {
                assert(!m.keys[k]);
            }
        };
        assert(execute_model(m, Instruction::AwaitAndSetKeyPress { register }, rnd) =~= (Model {
            pc: m.pc.wrapping_add(2),
            regs: m.regs.update(register as int, first_key(m.keys) as u8),
            ..m
        }));
    }
}

/// Executing any operation but a timer write leaves the delay timer alone.
proof fn lemma_execute_keeps_delay(m: Model, inst: Instruction, rnd: u8)
    requires
        !(inst is SetDelayTimer),
    ensures
        execute_model(m, inst, rnd).delay == m.delay,
{
}

/// Executing any operation but a timer write leaves the sound timer alone.
proof fn lemma_execute_keeps_sound(m: Model, inst: Instruction, rnd: u8)
    requires
        !(inst is SetSoundTimer),
    ensures
        execute_model(m, inst, rnd).sound == m.sound,
{
}

/// The 60 Hz timers decay by exactly 1 per crossed ~16.67 ms threshold of
/// accumulated elapsed time and by nothing otherwise, independently of
/// whether a CPU step fired in the same tick (unless the fired instruction
/// itself writes the timer), and they saturate at zero instead of
/// underflowing.
pub proof fn lemma_timer_rate(pre: Model, elapsed_micros: u64, rnd: u8)
    ensures
        ({
            let fired = decode_spec(fetch_spec(decay_model(pre, elapsed_micros)));
            let post = step_model(pre, elapsed_micros, rnd);
            &&& !(fired is SetDelayTimer) ==> post.delay == (
            if pre.acc_delay.saturating_add(elapsed_micros) >= TIMER_TICK_MICROS {
                sat_dec(pre.delay)
            } else {
                pre.delay
            })
            &&& !(fired is SetSoundTimer) ==> post.sound == (
            if pre.acc_sound.saturating_add(elapsed_micros) >= TIMER_TICK_MICROS {
                sat_dec(pre.sound)
            } else {
                pre.sound
            })
            &&& pre.delay > 0 ==> sat_dec(pre.delay) == pre.delay - 1
            &&& pre.delay == 0 ==> sat_dec(pre.delay) == 0
        }),
{
    let mid = decay_model(pre, elapsed_micros);
    let fired = decode_spec(fetch_spec(mid));
    if mid.acc_cpu >= crate::emulator::CPU_TICK_MICROS {
        if !(fired is SetDelayTimer) {
            lemma_execute_keeps_delay(Model { acc_cpu: 0, ..mid }, fired, rnd);
        }
        if !(fired is SetSoundTimer) {
            lemma_execute_keeps_sound(Model { acc_cpu: 0, ..mid }, fired, rnd);
        }
    }
}

} // verus!
