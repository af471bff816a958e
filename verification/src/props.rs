//! Laws of the instruction set that relate several instructions, proved once
//! and for all from the per-instruction predicates in [`crate::semantics`].

use vstd::prelude::*;

use crate::cpu::CPU;
use crate::error::Chip8Error;
use crate::semantics::{
    cpu_same, fb_same, index_same, mem_same, pixel_index, regs_same, spec_call, spec_display,
    spec_load_registers, spec_ret, spec_store_registers, sprite_collides, sprite_covers,
    sprite_pixel_on, timers_same,
};

verus! {

/// Law: a call followed by a return is balanced. The stack pointer comes
/// back to its pre-call value, the program counter resumes at the
/// instruction following the call (the state `s0` is the one with the
/// program counter already advanced past the call word), the stack below
/// the pre-call pointer is untouched, and no other component moves. Since
/// `s0` is arbitrary, balanced sequences of up to 16 nested calls compose
/// from this law one pair at a time.
pub proof fn lemma_call_ret_round_trip(
    s0: CPU,
    s1: CPU,
    s2: CPU,
    nnn: int,
    r1: Result<(), Chip8Error>,
    r2: Result<(), Chip8Error>,
)
    requires
        s0.wf(),
        s0.stack_pointer < 16,
        spec_call(s0, s1, nnn, r1),
        r1 is Ok,
        spec_ret(s1, s2, r2),
    ensures
        r2 is Ok,
        s2.stack_pointer == s0.stack_pointer,
        s2.position_in_memory == s0.position_in_memory,
        forall|k: int| 0 <= k < s0.stack_pointer ==> s2.stack@[k] == s0.stack@[k],
        regs_same(s0, s2),
        mem_same(s0, s2),
        fb_same(s0, s2),
        index_same(s0, s2),
        timers_same(s0, s2),
{
    assert(s1.stack_pointer == s0.stack_pointer + 1);
    assert(s1.stack@[s0.stack_pointer as int] == s0.position_in_memory as u16);
    assert(s2.position_in_memory as int == (s0.position_in_memory as u16) as int);
}

/// Law: any balanced sequence of nested calls and returns is balanced at
/// every depth. `pre[m]` is the state just after the `m`-th call's word was
/// fetched and the counter advanced, with `spec_call` stepping `pre[m]` to
/// `pre[m + 1]`; the unwind then runs returns from the deepest state, with
/// `spec_ret` stepping `post[m + 1]` back to `post[m]`. At every depth `k`
/// the stack pointer comes back to its pre-call value and the program
/// counter resumes at the instruction following call `k`; registers,
/// memory, framebuffer, index register and timers are untouched by the
/// whole sequence. The stack depth bounds the nesting at 16.
pub proof fn lemma_balanced_calls_unwind(
    pre: Seq<CPU>,
    post: Seq<CPU>,
    targets: Seq<int>,
    k: int,
)
    requires
        pre.len() == post.len(),
        pre.len() >= 1,
        0 <= k < pre.len(),
        forall|m: int| 0 <= m < pre.len() ==> (#[trigger] pre[m]).wf(),
        forall|m: int|
            0 <= m < pre.len() - 1 ==> spec_call(
                #[trigger] pre[m],
                pre[m + 1],
                targets[m],
                Ok::<(), Chip8Error>(()),
            ),
        forall|m: int|
            0 <= m < pre.len() - 1 ==> spec_ret(
                #[trigger] post[m + 1],
                post[m],
                Ok::<(), Chip8Error>(()),
            ),
        cpu_same(pre[pre.len() - 1], post[pre.len() - 1]),
    ensures
        post[k].stack_pointer == pre[k].stack_pointer,
        post[k].position_in_memory == pre[k].position_in_memory,
        forall|j: int| 0 <= j < pre[k].stack_pointer ==> post[k].stack@[j] == pre[k].stack@[j],
        regs_same(pre[k], post[k]),
        mem_same(pre[k], post[k]),
        fb_same(pre[k], post[k]),
        index_same(pre[k], post[k]),
        timers_same(pre[k], post[k]),
    decreases pre.len() - k,
{
    if k == pre.len() - 1 {
    } else {
        lemma_balanced_calls_unwind(pre, post, targets, k + 1);
        assert(spec_call(pre[k], pre[k + 1], targets[k], Ok::<(), Chip8Error>(())));
        assert(spec_ret(post[k + 1], post[k], Ok::<(), Chip8Error>(())));
        assert(pre[k + 1].stack_pointer == pre[k].stack_pointer + 1);
        assert(pre[k + 1].stack@ == pre[k].stack@.update(
            pre[k].stack_pointer as int,
            pre[k].position_in_memory as u16,
        ));
        assert(post[k + 1].stack@[pre[k].stack_pointer as int] == pre[k].position_in_memory as u16);
        assert(post[k].position_in_memory as int == (pre[k].position_in_memory as u16) as int);
    }
}

/// Law: after a cleared screen, a draw leaves every pixel outside the
/// freshly drawn sprite unset.
pub proof fn lemma_draw_after_clear_outside_unset(
    s1: CPU,
    s2: CPU,
    x: int,
    y: int,
    n: int,
    r: Result<(), Chip8Error>,
)
    requires
        s1.frame_buffer@.len() == 2048,
        forall|p: int| 0 <= p < 2048 ==> !s1.frame_buffer@[p],
        spec_display(s1, s2, x, y, n, r),
        r is Ok,
    ensures
        forall|p: int|
            0 <= p < 2048 && !sprite_covers(
                s1.registers@[x] as int,
                s1.registers@[y] as int,
                n,
                p,
            ) ==> !s2.frame_buffer@[p],
{
}

/// Law: drawing the same sprite twice at the same position restores every
/// pixel, so a second draw over a cleared screen fully erases the sprite;
/// and when the sprite has at least one set bit, every one of its set bits
/// lands on a pixel the first draw set, so the second draw reports a
/// collision. The coordinate registers must not be the flag register, which
/// the first draw overwrites.
pub proof fn lemma_double_draw_erases(
    s0: CPU,
    s1: CPU,
    s2: CPU,
    x: int,
    y: int,
    n: int,
    r1: Result<(), Chip8Error>,
    r2: Result<(), Chip8Error>,
)
    requires
        0 <= x < 15,
        0 <= y < 15,
        0 <= n,
        s0.registers@.len() == 16,
        s0.frame_buffer@.len() == 2048,
        forall|p: int| 0 <= p < 2048 ==> !s0.frame_buffer@[p],
        spec_display(s0, s1, x, y, n, r1),
        r1 is Ok,
        spec_display(s1, s2, x, y, n, r2),
        r2 is Ok,
    ensures
        forall|p: int| 0 <= p < 2048 ==> !s2.frame_buffer@[p],
        (exists|i: int, j: int|
            0 <= i < n && 0 <= j < 8 && #[trigger] sprite_pixel_on(
                s0.memory@[s0.index_register + i],
                j,
            )) ==> s2.registers@[15] == 1,
{
    let base = s0.index_register as int;
    let vx = s0.registers@[x] as int;
    let vy = s0.registers@[y] as int;
    assert(s1.registers@[x] == s0.registers@[x]);
    assert(s1.registers@[y] == s0.registers@[y]);
    assert forall|p: int| 0 <= p < 2048 implies !s2.frame_buffer@[p] by {
        if sprite_covers(vx, vy, n, p) {
            let (i, j) = choose|i: int, j: int|
                0 <= i < n && 0 <= j < 8 && pixel_index(vx, vy, i, j) == p;
            assert(s1.frame_buffer@[pixel_index(vx, vy, i, j)] == (s0.frame_buffer@[pixel_index(
                vx,
                vy,
                i,
                j,
            )] != sprite_pixel_on(s0.memory@[base + i], j)));
            assert(s2.frame_buffer@[pixel_index(vx, vy, i, j)] == (s1.frame_buffer@[pixel_index(
                vx,
                vy,
                i,
                j,
            )] != sprite_pixel_on(s1.memory@[base + i], j)));
        } else {
            assert(s1.frame_buffer@[p] == s0.frame_buffer@[p]);
            assert(s2.frame_buffer@[p] == s1.frame_buffer@[p]);
        }
    }
    if exists|i: int, j: int|
        0 <= i < n && 0 <= j < 8 && #[trigger] sprite_pixel_on(s0.memory@[s0.index_register + i], j) {
        let (i, j) = choose|i: int, j: int|
            0 <= i < n && 0 <= j < 8 && #[trigger] sprite_pixel_on(s0.memory@[s0.index_register + i], j);
        let p = pixel_index(vx, vy, i, j);
        assert(s1.frame_buffer@[p] == (s0.frame_buffer@[p] != sprite_pixel_on(
            s0.memory@[base + i],
            j,
        )));
        assert(s1.frame_buffer@[p]);
        assert(sprite_pixel_on(s1.memory@[base + i], j) && s1.frame_buffer@[pixel_index(
            vx,
            vy,
            i,
            j,
        )]);
        assert(sprite_collides(s1.memory@, s1.frame_buffer@, base, vx, vy, n));
        assert(s2.registers@[15] == 1);
    }
}

/// Law: storing registers 0 through `x` to memory and loading them back
/// with the same index register returns every register, including those
/// above `x`, to its pre-store value.
pub proof fn lemma_store_load_round_trip(
    s0: CPU,
    s1: CPU,
    s2: CPU,
    x: int,
    r1: Result<(), Chip8Error>,
    r2: Result<(), Chip8Error>,
)
    requires
        s0.wf(),
        0 <= x < 16,
        spec_store_registers(s0, s1, x, r1),
        r1 is Ok,
        spec_load_registers(s1, s2, x, r2),
        r2 is Ok,
    ensures
        s2.registers@ == s0.registers@,
{
    let base = s0.index_register as int;
    assert(s1.index_register == s0.index_register);
    assert(s1.registers@ == s0.registers@);
    assert forall|k: int| 0 <= k < 16 implies s2.registers@[k] == s0.registers@[k] by {
        if k <= x {
            assert(s2.registers@[k] == s1.memory@[base + k]);
            assert(s1.memory@[base + k] == s0.registers@[k]);
        } else {
            assert(s2.registers@[k] == s1.registers@[k]);
        }
    }
    assert(s2.registers@ =~= s0.registers@);
}

} // verus!

