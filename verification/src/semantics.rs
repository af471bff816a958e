//! The mathematical model of the instruction set: one predicate per
//! instruction relating the machine state before dispatch to the state after
//! it, and the cycle predicate `spec_cycle` that ties fetch, decode and
//! dispatch together. The contract of [`crate::cpu::CPU::run_cycle`] is
//! stated entirely in terms of these predicates.

use vstd::prelude::*;

use crate::cpu::CPU;
use crate::error::Chip8Error;
use crate::keypad::{spec_first_down, Keypad};

verus! {

// --- Frame predicates: which parts of the machine a step leaves alone. ---

pub open spec fn regs_same(a: CPU, b: CPU) -> bool {
    a.registers@ == b.registers@
}

pub open spec fn mem_same(a: CPU, b: CPU) -> bool {
    a.memory@ == b.memory@
}

pub open spec fn fb_same(a: CPU, b: CPU) -> bool {
    a.frame_buffer@ == b.frame_buffer@
}

pub open spec fn stack_same(a: CPU, b: CPU) -> bool {
    a.stack@ == b.stack@ && a.stack_pointer == b.stack_pointer
}

pub open spec fn pc_same(a: CPU, b: CPU) -> bool {
    a.position_in_memory == b.position_in_memory
}

pub open spec fn index_same(a: CPU, b: CPU) -> bool {
    a.index_register == b.index_register
}

pub open spec fn timers_same(a: CPU, b: CPU) -> bool {
    a.delay_timer == b.delay_timer && a.sound_timer == b.sound_timer
}

/// The two machine states agree on every component.
pub open spec fn cpu_same(a: CPU, b: CPU) -> bool {
    &&& regs_same(a, b)
    &&& mem_same(a, b)
    &&& fb_same(a, b)
    &&& stack_same(a, b)
    &&& pc_same(a, b)
    &&& index_same(a, b)
    &&& timers_same(a, b)
}

/// The state after the fetch stage: the program counter has moved past the
/// fetched word and nothing else has changed yet.
pub open spec fn advanced(c: CPU) -> CPU {
    CPU {
        position_in_memory: (c.position_in_memory + 2) as usize,
        registers: c.registers,
        memory: c.memory,
        index_register: c.index_register,
        stack: c.stack,
        stack_pointer: c.stack_pointer,
        frame_buffer: c.frame_buffer,
        delay_timer: c.delay_timer,
        sound_timer: c.sound_timer,
    }
}

/// The big-endian 16-bit word formed from the two bytes at `pc`.
pub open spec fn spec_fetch(mem: Seq<u8>, pc: int) -> u16
    recommends
        0 <= pc,
        pc + 1 < mem.len(),
{
    ((mem[pc] as u16) << 8) | (mem[pc + 1] as u16)
}

// --- Arithmetic building blocks (all 8-bit, truncating). ---

/// The truncated unsigned 8-bit sum.
pub open spec fn sum_lo(a: int, b: int) -> u8 {
    ((a + b) % 256) as u8
}

/// 1 exactly when the unsigned 8-bit sum overflows.
pub open spec fn sum_carry(a: int, b: int) -> u8 {
    if a + b >= 256 {
        1u8
    } else {
        0u8
    }
}

/// The truncated unsigned 8-bit difference `a - b`.
pub open spec fn diff_lo(a: int, b: int) -> u8 {
    ((a - b + 256) % 256) as u8
}

/// The uniform borrow convention for both subtraction instructions:
/// 1 exactly when no borrow occurs, i.e. when `a >= b`.
pub open spec fn diff_no_borrow(a: int, b: int) -> u8 {
    if a >= b {
        1u8
    } else {
        0u8
    }
}

/// The value shifted right by one bit.
pub open spec fn shr_lo(v: u8) -> u8 {
    ((v as int) / 2) as u8
}

/// The bit shifted out by a right shift, taken from the pre-shift value.
pub open spec fn shr_out(v: u8) -> u8 {
    ((v as int) % 2) as u8
}

/// The value shifted left by one bit, truncated to 8 bits.
pub open spec fn shl_lo(v: u8) -> u8 {
    ((2 * (v as int)) % 256) as u8
}

/// The bit shifted out by a left shift, taken from the pre-shift value.
pub open spec fn shl_out(v: u8) -> u8 {
    ((v as int) / 128) as u8
}

// --- Per-instruction predicates. `s` is the state after the program counter
// has advanced past the fetched word; `t` is the state after the instruction.

/// `00E0`: every framebuffer pixel is unset; nothing else changes.
pub open spec fn spec_clear_display(s: CPU, t: CPU) -> bool {
    &&& t.frame_buffer@.len() == 2048
    &&& forall|p: int| 0 <= p < 2048 ==> !t.frame_buffer@[p]
    &&& regs_same(s, t)
    &&& mem_same(s, t)
    &&& pc_same(s, t)
    &&& stack_same(s, t)
    &&& index_same(s, t)
    &&& timers_same(s, t)
}

/// `00EE`: pops the call stack into the program counter; underflow with an
/// empty stack, leaving the machine untouched.
pub open spec fn spec_ret(s: CPU, t: CPU, r: Result<(), Chip8Error>) -> bool {
    if s.stack_pointer == 0 {
        r == Err::<(), Chip8Error>(Chip8Error::StackUnderflow) && cpu_same(s, t)
    } else {
        &&& r is Ok
        &&& t.stack_pointer == s.stack_pointer - 1
        &&& t.position_in_memory as int == s.stack@[s.stack_pointer - 1] as int
        &&& t.stack@ == s.stack@
        &&& regs_same(s, t)
        &&& mem_same(s, t)
        &&& fb_same(s, t)
        &&& index_same(s, t)
        &&& timers_same(s, t)
    }
}

/// `2nnn`: pushes the already-advanced program counter and jumps to `nnn`;
/// overflow with a full stack, leaving the machine untouched.
pub open spec fn spec_call(s: CPU, t: CPU, nnn: int, r: Result<(), Chip8Error>) -> bool {
    if s.stack_pointer >= 16 {
        r == Err::<(), Chip8Error>(Chip8Error::StackOverflow) && cpu_same(s, t)
    } else {
        &&& r is Ok
        &&& t.stack@ == s.stack@.update(s.stack_pointer as int, s.position_in_memory as u16)
        &&& t.stack_pointer == s.stack_pointer + 1
        &&& t.position_in_memory as int == nnn
        &&& regs_same(s, t)
        &&& mem_same(s, t)
        &&& fb_same(s, t)
        &&& index_same(s, t)
        &&& timers_same(s, t)
    }
}

/// `1nnn` and `Bnnn`: the program counter becomes `target`.
pub open spec fn spec_jump(s: CPU, t: CPU, target: int) -> bool {
    &&& t.position_in_memory as int == target
    &&& regs_same(s, t)
    &&& mem_same(s, t)
    &&& fb_same(s, t)
    &&& stack_same(s, t)
    &&& index_same(s, t)
    &&& timers_same(s, t)
}

/// The conditional skips: on a met condition the program counter moves past
/// one further instruction.
pub open spec fn spec_skip_if(s: CPU, t: CPU, cond: bool) -> bool {
    &&& t.position_in_memory as int == s.position_in_memory as int + (if cond {
        2int
    } else {
        0int
    })
    &&& regs_same(s, t)
    &&& mem_same(s, t)
    &&& fb_same(s, t)
    &&& stack_same(s, t)
    &&& index_same(s, t)
    &&& timers_same(s, t)
}

/// Register `x` becomes `v`; no flag side effect.
pub open spec fn spec_set_reg(s: CPU, t: CPU, x: int, v: u8) -> bool {
    &&& t.registers@ == s.registers@.update(x, v)
    &&& mem_same(s, t)
    &&& fb_same(s, t)
    &&& pc_same(s, t)
    &&& stack_same(s, t)
    &&& index_same(s, t)
    &&& timers_same(s, t)
}

/// Register `x` becomes `result` and the flag register becomes `flag`, in
/// that order, so the flag wins when `x` is the flag register itself.
pub open spec fn spec_arith(s: CPU, t: CPU, x: int, result: u8, flag: u8) -> bool {
    &&& t.registers@ == s.registers@.update(x, result).update(15, flag)
    &&& mem_same(s, t)
    &&& fb_same(s, t)
    &&& pc_same(s, t)
    &&& stack_same(s, t)
    &&& index_same(s, t)
    &&& timers_same(s, t)
}

/// `Annn` and `Fx1E`: the index register becomes `v`.
pub open spec fn spec_set_index(s: CPU, t: CPU, v: int) -> bool {
    &&& t.index_register as int == v
    &&& regs_same(s, t)
    &&& mem_same(s, t)
    &&& fb_same(s, t)
    &&& pc_same(s, t)
    &&& stack_same(s, t)
    &&& timers_same(s, t)
}

/// `Fx15`: the delay timer becomes `v`.
pub open spec fn spec_set_delay(s: CPU, t: CPU, v: u8) -> bool {
    &&& t.delay_timer == v
    &&& t.sound_timer == s.sound_timer
    &&& regs_same(s, t)
    &&& mem_same(s, t)
    &&& fb_same(s, t)
    &&& pc_same(s, t)
    &&& stack_same(s, t)
    &&& index_same(s, t)
}

/// `Fx18`: the sound timer becomes `v`.
pub open spec fn spec_set_sound(s: CPU, t: CPU, v: u8) -> bool {
    &&& t.sound_timer == v
    &&& t.delay_timer == s.delay_timer
    &&& regs_same(s, t)
    &&& mem_same(s, t)
    &&& fb_same(s, t)
    &&& pc_same(s, t)
    &&& stack_same(s, t)
    &&& index_same(s, t)
}

/// `Fx33`: the decimal digits of register `x` land in the three memory
/// bytes starting at the index register.
pub open spec fn spec_bcd(s: CPU, t: CPU, x: int, r: Result<(), Chip8Error>) -> bool {
    let base = s.index_register as int;
    let v = s.registers@[x] as int;
    if base + 2 < 4096 {
        &&& r is Ok
        &&& t.memory@ == s.memory@.update(base, (v / 100) as u8).update(
            base + 1,
            ((v / 10) % 10) as u8,
        ).update(base + 2, (v % 10) as u8)
        &&& regs_same(s, t)
        &&& fb_same(s, t)
        &&& pc_same(s, t)
        &&& stack_same(s, t)
        &&& index_same(s, t)
        &&& timers_same(s, t)
    } else {
        r == Err::<(), Chip8Error>(Chip8Error::OutOfBounds) && cpu_same(s, t)
    }
}

/// `Fx55`: registers 0 through `x` inclusive are copied into memory starting
/// at the index register, which itself stays put.
pub open spec fn spec_store_registers(s: CPU, t: CPU, x: int, r: Result<(), Chip8Error>) -> bool {
    let base = s.index_register as int;
    if base + x < 4096 {
        &&& r is Ok
        &&& t.memory@.len() == 4096
        &&& forall|k: int| 0 <= k <= x ==> t.memory@[base + k] == s.registers@[k]
        &&& forall|p: int|
            0 <= p < 4096 && !(base <= p <= base + x) ==> t.memory@[p] == s.memory@[p]
        &&& regs_same(s, t)
        &&& fb_same(s, t)
        &&& pc_same(s, t)
        &&& stack_same(s, t)
        &&& index_same(s, t)
        &&& timers_same(s, t)
    } else {
        r == Err::<(), Chip8Error>(Chip8Error::OutOfBounds) && cpu_same(s, t)
    }
}

/// `Fx65`: registers 0 through `x` inclusive are filled from memory starting
/// at the index register, which itself stays put; higher registers keep
/// their values.
pub open spec fn spec_load_registers(s: CPU, t: CPU, x: int, r: Result<(), Chip8Error>) -> bool {
    let base = s.index_register as int;
    if base + x < 4096 {
        &&& r is Ok
        &&& t.registers@.len() == 16
        &&& forall|k: int| 0 <= k <= x ==> t.registers@[k] == s.memory@[base + k]
        &&& forall|k: int| x < k < 16 ==> t.registers@[k] == s.registers@[k]
        &&& mem_same(s, t)
        &&& fb_same(s, t)
        &&& pc_same(s, t)
        &&& stack_same(s, t)
        &&& index_same(s, t)
        &&& timers_same(s, t)
    } else {
        r == Err::<(), Chip8Error>(Chip8Error::OutOfBounds) && cpu_same(s, t)
    }
}

// --- The display instruction. ---

/// Whether bit `j` of the sprite row byte `b`, counted from the most
/// significant bit, is set.
pub open spec fn sprite_pixel_on(b: u8, j: int) -> bool
    recommends
        0 <= j < 8,
{
    (b >> ((7 - j) as u8)) & 1 == 1
}

/// The framebuffer index a sprite bit lands on: row `i` and column `j` of a
/// sprite drawn at `(vx, vy)`, with both coordinates wrapping.
pub open spec fn pixel_index(vx: int, vy: int, i: int, j: int) -> int {
    ((vy + i) % 32) * 64 + ((vx + j) % 64)
}

/// Whether any bit of an `n`-row sprite drawn at `(vx, vy)` lands on
/// framebuffer index `p`.
pub open spec fn sprite_covers(vx: int, vy: int, n: int, p: int) -> bool {
    exists|i: int, j: int| 0 <= i < n && 0 <= j < 8 && pixel_index(vx, vy, i, j) == p
}

/// Whether drawing the sprite flips at least one already-set pixel off: some
/// set sprite bit lands on a set framebuffer pixel.
pub open spec fn sprite_collides(
    mem: Seq<u8>,
    fb: Seq<bool>,
    base: int,
    vx: int,
    vy: int,
    n: int,
) -> bool {
    exists|i: int, j: int|
        0 <= i < n && 0 <= j < 8 && sprite_pixel_on(mem[base + i], j) && fb[pixel_index(
            vx,
            vy,
            i,
            j,
        )]
}

/// Whether some sprite bit strictly before row `i`, column `j` in drawing
/// order lands on framebuffer index `p`. `covered_before(.., n, 0, p)` is
/// exactly [`sprite_covers`] for an `n`-row sprite.
pub open spec fn covered_before(vx: int, vy: int, i: int, j: int, p: int) -> bool {
    exists|a: int, b: int|
        0 <= a && 0 <= b < 8 && (a < i || (a == i && b < j)) && pixel_index(vx, vy, a, b) == p
}

/// Whether some set sprite bit strictly before row `i`, column `j` in
/// drawing order lands on a set framebuffer pixel.
pub open spec fn collides_before(
    mem: Seq<u8>,
    fb: Seq<bool>,
    base: int,
    vx: int,
    vy: int,
    i: int,
    j: int,
) -> bool {
    exists|a: int, b: int|
        0 <= a && 0 <= b < 8 && (a < i || (a == i && b < j)) && sprite_pixel_on(mem[base + a], b)
            && fb[pixel_index(vx, vy, a, b)]
}

/// Distinct bits of one sprite always land on distinct framebuffer
/// indices: the eight columns stay distinct modulo 64 and up to 32 rows
/// stay distinct modulo 32.
pub proof fn lemma_pixel_index_injective(vx: int, vy: int)
    ensures
        forall|i1: int, j1: int, i2: int, j2: int|
            #![trigger pixel_index(vx, vy, i1, j1), pixel_index(vx, vy, i2, j2)]
            0 <= i1 < 32 && 0 <= j1 < 8 && 0 <= i2 < 32 && 0 <= j2 < 8 && pixel_index(
                vx,
                vy,
                i1,
                j1,
            ) == pixel_index(vx, vy, i2, j2) ==> i1 == i2 && j1 == j2,
{
    assert forall|i1: int, j1: int, i2: int, j2: int|
        0 <= i1 < 32 && 0 <= j1 < 8 && 0 <= i2 < 32 && 0 <= j2 < 8 && #[trigger] pixel_index(
            vx,
            vy,
            i1,
            j1,
        ) == #[trigger] pixel_index(vx, vy, i2, j2) implies i1 == i2 && j1 == j2 by {
        let r1 = (vy + i1) % 32;
        let c1 = (vx + j1) % 64;
        let r2 = (vy + i2) % 32;
        let c2 = (vx + j2) % 64;
        assert(0 <= r1 < 32 && 0 <= c1 < 64 && 0 <= r2 < 32 && 0 <= c2 < 64);
        assert(r1 * 64 + c1 == r2 * 64 + c2);
        assert(r1 == r2 && c1 == c2) by (nonlinear_arith)
            requires
                0 <= c1 < 64,
                0 <= c2 < 64,
                0 <= r1,
                0 <= r2,
                r1 * 64 + c1 == r2 * 64 + c2,
        ;
        vstd::arithmetic::div_mod::lemma_fundamental_div_mod(vy + i1, 32);
        vstd::arithmetic::div_mod::lemma_fundamental_div_mod(vy + i2, 32);
        let q1 = (vy + i1) / 32;
        let q2 = (vy + i2) / 32;
        assert(i1 - i2 == 32 * (q1 - q2));
        assert(i1 == i2);
        vstd::arithmetic::div_mod::lemma_fundamental_div_mod(vx + j1, 64);
        vstd::arithmetic::div_mod::lemma_fundamental_div_mod(vx + j2, 64);
        let w1 = (vx + j1) / 64;
        let w2 = (vx + j2) / 64;
        assert(j1 - j2 == 64 * (w1 - w2));
        assert(j1 == j2);
    }
}

/// Finishing a row: the window up to `(i, 8)` covers the same pixels as the
/// window up to `(i + 1, 0)`.
pub proof fn lemma_covered_row_roll(vx: int, vy: int, i: int, p: int)
    ensures
        covered_before(vx, vy, i, 8, p) == covered_before(vx, vy, i + 1, 0, p),
{
    if covered_before(vx, vy, i, 8, p) {
        let (a, b) = choose|a: int, b: int|
            0 <= a && 0 <= b < 8 && (a < i || (a == i && b < 8)) && pixel_index(vx, vy, a, b) == p;
        assert(a < i + 1);
        assert(covered_before(vx, vy, i + 1, 0, p));
    }
    if covered_before(vx, vy, i + 1, 0, p) {
        let (a, b) = choose|a: int, b: int|
            0 <= a && 0 <= b < 8 && (a < i + 1 || (a == i + 1 && b < 0)) && pixel_index(
                vx,
                vy,
                a,
                b,
            ) == p;
        assert(a < i || (a == i && b < 8));
        assert(covered_before(vx, vy, i, 8, p));
    }
}

/// Finishing a row: the collisions seen up to `(i, 8)` are those seen up to
/// `(i + 1, 0)`.
pub proof fn lemma_collides_row_roll(
    mem: Seq<u8>,
    fb: Seq<bool>,
    base: int,
    vx: int,
    vy: int,
    i: int,
)
    ensures
        collides_before(mem, fb, base, vx, vy, i, 8) == collides_before(
            mem,
            fb,
            base,
            vx,
            vy,
            i + 1,
            0,
        ),
{
    if collides_before(mem, fb, base, vx, vy, i, 8) {
        let (a, b) = choose|a: int, b: int|
            0 <= a && 0 <= b < 8 && (a < i || (a == i && b < 8)) && sprite_pixel_on(
                mem[base + a],
                b,
            ) && fb[pixel_index(vx, vy, a, b)];
        assert(a < i + 1);
        assert(collides_before(mem, fb, base, vx, vy, i + 1, 0));
    }
    if collides_before(mem, fb, base, vx, vy, i + 1, 0) {
        let (a, b) = choose|a: int, b: int|
            0 <= a && 0 <= b < 8 && (a < i + 1 || (a == i + 1 && b < 0)) && sprite_pixel_on(
                mem[base + a],
                b,
            ) && fb[pixel_index(vx, vy, a, b)];
        assert(a < i || (a == i && b < 8));
        assert(collides_before(mem, fb, base, vx, vy, i, 8));
    }
}

/// The whole-sprite window coincides with [`sprite_covers`].
pub proof fn lemma_covered_full(vx: int, vy: int, n: int, p: int)
    ensures
        covered_before(vx, vy, n, 0, p) == sprite_covers(vx, vy, n, p),
{
    if covered_before(vx, vy, n, 0, p) {
        let (a, b) = choose|a: int, b: int|
            0 <= a && 0 <= b < 8 && (a < n || (a == n && b < 0)) && pixel_index(vx, vy, a, b) == p;
        assert(0 <= a < n && 0 <= b < 8 && pixel_index(vx, vy, a, b) == p);
        assert(sprite_covers(vx, vy, n, p));
    }
    if sprite_covers(vx, vy, n, p) {
        let (a, b) = choose|a: int, b: int|
            0 <= a < n && 0 <= b < 8 && pixel_index(vx, vy, a, b) == p;
        assert(covered_before(vx, vy, n, 0, p));
    }
}

/// The whole-sprite window coincides with [`sprite_collides`].
pub proof fn lemma_collides_full(
    mem: Seq<u8>,
    fb: Seq<bool>,
    base: int,
    vx: int,
    vy: int,
    n: int,
)
    ensures
        collides_before(mem, fb, base, vx, vy, n, 0) == sprite_collides(mem, fb, base, vx, vy, n),
{
    if collides_before(mem, fb, base, vx, vy, n, 0) {
        let (a, b) = choose|a: int, b: int|
            0 <= a && 0 <= b < 8 && (a < n || (a == n && b < 0)) && sprite_pixel_on(
                mem[base + a],
                b,
            ) && fb[pixel_index(vx, vy, a, b)];
        assert(0 <= a < n && 0 <= b < 8 && sprite_pixel_on(mem[base + a], b) && fb[pixel_index(
            vx,
            vy,
            a,
            b,
        )]);
        assert(sprite_collides(mem, fb, base, vx, vy, n));
    }
    if sprite_collides(mem, fb, base, vx, vy, n) {
        let (a, b) = choose|a: int, b: int|
            0 <= a < n && 0 <= b < 8 && sprite_pixel_on(mem[base + a], b) && fb[pixel_index(
                vx,
                vy,
                a,
                b,
            )];
        assert(collides_before(mem, fb, base, vx, vy, n, 0));
    }
}

/// `Dxyn`: the `n`-byte sprite at the index register is XORed onto the
/// framebuffer at `(Vx, Vy)` with wrapping coordinates; the flag register
/// reports whether any pixel flipped from set to unset across the whole
/// draw. Reading past the end of memory is out of bounds and changes
/// nothing.
pub open spec fn spec_display(
    s: CPU,
    t: CPU,
    x: int,
    y: int,
    n: int,
    r: Result<(), Chip8Error>,
) -> bool {
    let base = s.index_register as int;
    let vx = s.registers@[x] as int;
    let vy = s.registers@[y] as int;
    if base + n > 4096 {
        r == Err::<(), Chip8Error>(Chip8Error::OutOfBounds) && cpu_same(s, t)
    } else {
        &&& r is Ok
        &&& t.frame_buffer@.len() == 2048
        &&& forall|i: int, j: int|
            0 <= i < n && 0 <= j < 8 ==> t.frame_buffer@[pixel_index(vx, vy, i, j)] == (
            s.frame_buffer@[pixel_index(vx, vy, i, j)] != sprite_pixel_on(
                s.memory@[base + i],
                j,
            ))
        &&& forall|p: int|
            0 <= p < 2048 && !sprite_covers(vx, vy, n, p) ==> t.frame_buffer@[p]
                == s.frame_buffer@[p]
        &&& t.registers@ == s.registers@.update(
            15,
            if sprite_collides(s.memory@, s.frame_buffer@, base, vx, vy, n) {
                1u8
            } else {
                0u8
            },
        )
        &&& mem_same(s, t)
        &&& pc_same(s, t)
        &&& stack_same(s, t)
        &&& index_same(s, t)
        &&& timers_same(s, t)
    }
}

/// `Fx0A`: with some key pressed, the lowest-numbered pressed key lands in
/// register `x`; with none, the program counter steps back onto the same
/// instruction so the wait repeats next cycle without blocking the host.
pub open spec fn spec_wait_key(s: CPU, t: CPU, x: int, kp: Keypad) -> bool {
    match spec_first_down(kp.keys@, 0) {
        Some(k) => spec_set_reg(s, t, x, k),
        None => {
            &&& t.position_in_memory as int == s.position_in_memory as int - 2
            &&& regs_same(s, t)
            &&& mem_same(s, t)
            &&& fb_same(s, t)
            &&& stack_same(s, t)
            &&& index_same(s, t)
            &&& timers_same(s, t)
        },
    }
}

/// Dispatch: which instruction the decoded fields of `word` name, and that
/// instruction's relation between the advanced state `s` and the final
/// state `t`. A field tuple outside the table is an unimplemented opcode
/// and changes nothing beyond the already-advanced program counter.
pub open spec fn spec_dispatch(
    s: CPU,
    word: u16,
    kp: Keypad,
    t: CPU,
    r: Result<(), Chip8Error>,
) -> bool {
    let c = ((word >> 12) & 0xf) as u8;
    let x = ((word >> 8) & 0xf) as u8;
    let y = ((word >> 4) & 0xf) as u8;
    let d = (word & 0xf) as u8;
    let nnn = word & 0xfff;
    let kk = (word & 0xff) as u8;
    let xi = x as int;
    let yi = y as int;
    let ax = s.registers@[xi] as int;
    let ay = s.registers@[yi] as int;
    if c == 0 && x == 0 && y == 0 && d == 0 {
        r is Ok && cpu_same(s, t)
    } else if c == 0 && x == 0 && y == 0xE && d == 0 {
        r is Ok && spec_clear_display(s, t)
    } else if c == 0 && x == 0 && y == 0xE && d == 0xE {
        spec_ret(s, t, r)
    } else if c == 1 {
        r is Ok && spec_jump(s, t, nnn as int)
    } else if c == 2 {
        spec_call(s, t, nnn as int, r)
    } else if c == 3 {
        r is Ok && spec_skip_if(s, t, s.registers@[xi] == kk)
    } else if c == 4 {
        r is Ok && spec_skip_if(s, t, s.registers@[xi] != kk)
    } else if c == 5 && d == 0 {
        r is Ok && spec_skip_if(s, t, s.registers@[xi] == s.registers@[yi])
    } else if c == 6 {
        r is Ok && spec_set_reg(s, t, xi, kk)
    } else if c == 7 {
        r is Ok && spec_arith(s, t, xi, sum_lo(ax, kk as int), sum_carry(ax, kk as int))
    } else if c == 8 && d == 0 {
        r is Ok && spec_set_reg(s, t, xi, s.registers@[yi])
    } else if c == 8 && d == 1 {
        r is Ok && spec_set_reg(s, t, xi, s.registers@[xi] | s.registers@[yi])
    } else if c == 8 && d == 2 {
        r is Ok && spec_set_reg(s, t, xi, s.registers@[xi] & s.registers@[yi])
    } else if c == 8 && d == 3 {
        r is Ok && spec_set_reg(s, t, xi, s.registers@[xi] ^ s.registers@[yi])
    } else if c == 8 && d == 4 {
        r is Ok && spec_arith(s, t, xi, sum_lo(ax, ay), sum_carry(ax, ay))
    } else if c == 8 && d == 5 {
        r is Ok && spec_arith(s, t, xi, diff_lo(ax, ay), diff_no_borrow(ax, ay))
    } else if c == 8 && d == 6 {
        r is Ok && spec_arith(s, t, xi, shr_lo(s.registers@[xi]), shr_out(s.registers@[xi]))
    } else if c == 8 && d == 7 {
        r is Ok && spec_arith(s, t, xi, diff_lo(ay, ax), diff_no_borrow(ay, ax))
    } else if c == 8 && d == 0xE {
        r is Ok && spec_arith(s, t, xi, shl_lo(s.registers@[xi]), shl_out(s.registers@[xi]))
    } else if c == 9 && d == 0 {
        r is Ok && spec_skip_if(s, t, s.registers@[xi] != s.registers@[yi])
    } else if c == 0xA {
        r is Ok && spec_set_index(s, t, nnn as int)
    } else if c == 0xB {
        r is Ok && spec_jump(s, t, nnn as int + s.registers@[0] as int)
    } else if c == 0xD {
        spec_display(s, t, xi, yi, d as int, r)
    } else if c == 0xE && y == 9 && d == 0xE {
        r is Ok && spec_skip_if(s, t, kp.spec_pressed(s.registers@[xi]))
    } else if c == 0xE && y == 0xA && d == 1 {
        r is Ok && spec_skip_if(s, t, !kp.spec_pressed(s.registers@[xi]))
    } else if c == 0xF && y == 0 && d == 7 {
        r is Ok && spec_set_reg(s, t, xi, s.delay_timer)
    } else if c == 0xF && y == 0 && d == 0xA {
        r is Ok && spec_wait_key(s, t, xi, kp)
    } else if c == 0xF && y == 1 && d == 5 {
        r is Ok && spec_set_delay(s, t, s.registers@[xi])
    } else if c == 0xF && y == 1 && d == 8 {
        r is Ok && spec_set_sound(s, t, s.registers@[xi])
    } else if c == 0xF && y == 1 && d == 0xE {
        r is Ok && spec_set_index(s, t, (s.index_register as int + ax) % 0x10000)
    } else if c == 0xF && y == 3 && d == 3 {
        spec_bcd(s, t, xi, r)
    } else if c == 0xF && y == 5 && d == 5 {
        spec_store_registers(s, t, xi, r)
    } else if c == 0xF && y == 6 && d == 5 {
        spec_load_registers(s, t, xi, r)
    } else {
        r == Err::<(), Chip8Error>(Chip8Error::UnimplementedOpcode) && cpu_same(s, t)
    }
}

/// One whole fetch-decode-execute cycle. A fetch past the end of memory is
/// out of bounds and leaves the machine exactly as it was; otherwise the
/// program counter first advances past the fetched word and the decoded
/// instruction relates that advanced state to the final one.
pub open spec fn spec_cycle(pre: CPU, kp: Keypad, post: CPU, r: Result<(), Chip8Error>) -> bool {
    if pre.position_in_memory + 1 >= 4096 {
        r == Err::<(), Chip8Error>(Chip8Error::OutOfBounds) && cpu_same(pre, post)
    } else {
        spec_dispatch(
            advanced(pre),
            spec_fetch(pre.memory@, pre.position_in_memory as int),
            kp,
            post,
            r,
        )
    }
}

} // verus!
