//! Machine-wide laws, proved once over the abstract transition functions
//! that the interpreter's contracts are stated against.
use crate::cpu::Fault;
use crate::model::{
    State, Output, spec_tick, fetch16, nib1, nib2, nib3, nib4,
    draw_screen, draw_collides, draw_covers, draw_bit_at, sprite_bit, row_of,
    col_of, lemma_first_pressed, lemma_none_pressed, lemma_cover_point, lemma_field_bounds, out_of,
};
use vstd::prelude::*;

verus! {

/// Whether the instruction word `op`, executed in state `s`, names `t` as
/// an explicit jump target: a jump, a call, an offset jump, or a return
/// to the newest saved address.
pub open spec fn jump_taken(s: State, op: u16, t: usize) -> bool {
    ||| (nib1(op) == 0x1 && t == (op & 0x0FFF) as usize)
    ||| (nib1(op) == 0x2 && t == (op & 0x0FFF) as usize)
    ||| (nib1(op) == 0xB && t == (s.v[0] + (op & 0x0FFF)) as usize)
    ||| (nib1(op) == 0x0 && nib2(op) == 0x0 && nib3(op) == 0xE && nib4(op) == 0xE
        && s.stack.len() > 0 && t == s.stack.last())
}

/// A tick moves the program counter by 0 (waiting, or a fault), by 2, by
/// 4, or to the jump target named by the fetched instruction.
pub proof fn lemma_tick_pc_increments(s: State, keys: Seq<bool>, r: u8)
    requires
        s.inv(),
        keys.len() == 16,
    ensures
        ({
            let s2 = spec_tick(s, keys, r).0;
            ||| s2.pc == s.pc
            ||| s2.pc == s.pc + 2
            ||| s2.pc == s.pc + 4
            ||| (!s.waiting && s.pc + 1 < 4096 && jump_taken(
                s,
                fetch16(s.ram, s.pc as int),
                s2.pc,
            ))
        }),
{
    if !s.waiting && s.pc + 1 < 4096 {
        lemma_field_bounds(fetch16(s.ram, s.pc as int));
    }
}

/// The clear instruction blanks every pixel and makes the display
/// snapshot present on that tick's output.
pub proof fn lemma_clear_blanks_and_shows(s: State, keys: Seq<bool>, r: u8)
    requires
        s.inv(),
        keys.len() == 16,
        !s.waiting,
        s.pc + 1 < 4096,
        fetch16(s.ram, s.pc as int) == 0x00E0,
    ensures
        forall|j: int| 0 <= j < 2048 ==> spec_tick(s, keys, r).0.screen[j] == 0,
        spec_tick(s, keys, r).1 == Ok::<Output, Fault>(out_of(spec_tick(s, keys, r).0)),
        out_of(spec_tick(s, keys, r).0).screen == Some(spec_tick(s, keys, r).0.screen),
{
    assert(nib1(0x00E0u16) == 0 && nib2(0x00E0u16) == 0 && nib3(0x00E0u16) == 0xE && nib4(
        0x00E0u16,
    ) == 0) by (bit_vector);
}

/// Drawing the same sprite twice at the same coordinates restores every
/// pixel: the XOR blit is its own inverse.
pub proof fn lemma_draw_twice_restores(ram: Seq<u8>, i: int, vx: int, vy: int, n: int, scr: Seq<u8>)
    requires
        scr.len() == 2048,
    ensures
        draw_screen(ram, i, vx, vy, n, draw_screen(ram, i, vx, vy, n, scr)) =~= scr,
{
    let scr1 = draw_screen(ram, i, vx, vy, n, scr);
    assert forall|j: int| 0 <= j < 2048 implies draw_screen(ram, i, vx, vy, n, scr1)[j]
        == scr[j] by {
        if draw_covers(vx, vy, n, j) {
            let p: u8 = scr[j];
            let b: u8 = draw_bit_at(ram, i, vx, vy, j);
            assert((p ^ b) ^ b == p) by (bit_vector);
        }
    }
}

/// Drawing a sprite with at least one set bit onto a blank region reports
/// no collision; drawing it again at the same coordinates reports one.
pub proof fn lemma_draw_blank_then_collide(
    ram: Seq<u8>,
    i: int,
    vx: int,
    vy: int,
    n: int,
    scr: Seq<u8>,
)
    requires
        ram.len() == 4096,
        scr.len() == 2048,
        0 <= vx < 64,
        0 <= vy < 32,
        0 <= n < 16,
        0 <= i,
        i + n <= 4096,
        forall|j: int| 0 <= j < 2048 && draw_covers(vx, vy, n, j) ==> (#[trigger] scr[j]) == 0,
        exists|q: (int, int)|
            0 <= q.0 < n && 0 <= q.1 < 8 && #[trigger] sprite_bit(ram[i + q.0], q.1) == 1,
    ensures
        !draw_collides(ram, i, vx, vy, n, scr),
        draw_collides(ram, i, vx, vy, n, draw_screen(ram, i, vx, vy, n, scr)),
{
    assert forall|j: int|
        0 <= j < 2048 && draw_covers(vx, vy, n, j) implies draw_bit_at(ram, i, vx, vy, j) & (
    #[trigger] scr[j]) != 1 by {
        let b: u8 = draw_bit_at(ram, i, vx, vy, j);
        assert(b & 0 != 1) by (bit_vector);
    }
    let q = choose|q: (int, int)|
        0 <= q.0 < n && 0 <= q.1 < 8 && #[trigger] sprite_bit(ram[i + q.0], q.1) == 1;
    let scr1 = draw_screen(ram, i, vx, vy, n, scr);
    lemma_cover_point(vx, vy, q.0, q.1);
    let py: int = if vy + q.0 < 32 {
        vy + q.0
    } else {
        vy + q.0 - 32
    };
    let px: int = if vx + q.1 < 64 {
        vx + q.1
    } else {
        vx + q.1 - 64
    };
    let j0: int = py * 64 + px;
    assert(draw_covers(vx, vy, n, j0));
    assert(draw_bit_at(ram, i, vx, vy, j0) == 1);
    assert(scr[j0] == 0);
    assert(0u8 ^ 1u8 == 1u8 && 1u8 & 1u8 == 1u8) by (bit_vector);
    assert(scr1[j0] == 1);
    assert(draw_bit_at(ram, i, vx, vy, j0) & scr1[j0] == 1);
}

proof fn lemma_draw_screen_bits(ram: Seq<u8>, i: int, vx: int, vy: int, n: int, scr: Seq<u8>)
    requires
        scr.len() == 2048,
        forall|j: int| 0 <= j < 2048 ==> (#[trigger] scr[j]) == 0 || scr[j] == 1,
    ensures
        forall|j: int|
            0 <= j < 2048 ==> (#[trigger] draw_screen(ram, i, vx, vy, n, scr)[j]) == 0
                || draw_screen(ram, i, vx, vy, n, scr)[j] == 1,
{
    assert forall|j: int|
        0 <= j < 2048 implies (#[trigger] draw_screen(ram, i, vx, vy, n, scr)[j]) == 0
        || draw_screen(ram, i, vx, vy, n, scr)[j] == 1 by {
        if draw_covers(vx, vy, n, j) {
            let p: u8 = scr[j];
            let row: u8 = ram[i + row_of(vy, j / 64)];
            let sh: u8 = (7 - col_of(vx, j % 64)) as u8;
            assert(((row >> sh) & 1) <= 1 && (p ^ ((row >> sh) & 1)) <= 1) by (bit_vector)
                requires
                    p <= 1,
            ;
        }
    }
}

/// Every tick keeps the state well-formed, so the laws here apply to any
/// run of ticks.
#[verifier::rlimit(100)]
pub proof fn lemma_tick_preserves_inv(s: State, keys: Seq<bool>, r: u8)
    requires
        s.inv(),
        keys.len() == 16,
    ensures
        spec_tick(s, keys, r).0.inv(),
{
    if !s.waiting && s.pc + 1 < 4096 {
        let op = fetch16(s.ram, s.pc as int);
        lemma_field_bounds(op);
        if nib1(op) == 0xD {
            let x: int = nib2(op) as int;
            let y: int = nib3(op) as int;
            let n: int = nib4(op) as int;
            lemma_draw_screen_bits(
                s.ram,
                s.i as int,
                (s.v[x] as int) % 64,
                (s.v[y] as int) % 32,
                n,
                s.screen,
            );
        }
    }
}

/// While the machine waits and no key is pressed, the program counter and
/// the registers stand still and the machine keeps waiting.
pub proof fn lemma_wait_holds(s: State, keys: Seq<bool>, r: u8)
    requires
        s.inv(),
        keys.len() == 16,
        s.waiting,
        forall|j: int| 0 <= j < 16 ==> !keys[j],
    ensures
        spec_tick(s, keys, r).0.pc == s.pc,
        spec_tick(s, keys, r).0.waiting,
        spec_tick(s, keys, r).0.v == s.v,
        spec_tick(s, keys, r).1 is Ok,
{
    lemma_none_pressed(keys);
}

/// On the first tick with a key pressed, the waiting machine writes the
/// lowest pressed key into the recorded register, resumes, and still does
/// not move the program counter; fetching resumes on the following tick.
pub proof fn lemma_wait_resumes(s: State, keys: Seq<bool>, r: u8, k: int)
    requires
        s.inv(),
        keys.len() == 16,
        s.waiting,
        0 <= k < 16,
        keys[k],
        forall|j: int| 0 <= j < k ==> !keys[j],
    ensures
        spec_tick(s, keys, r).0.pc == s.pc,
        !spec_tick(s, keys, r).0.waiting,
        spec_tick(s, keys, r).0.v == s.v.update(s.keyv as int, k as u8),
        spec_tick(s, keys, r).1 is Ok,
{
    lemma_first_pressed(keys, k);
}

/// The delay timer floors at zero: a tick that does not execute the
/// instruction that loads it leaves a zero delay timer at zero.
pub proof fn lemma_timer_floor(s: State, keys: Seq<bool>, r: u8)
    requires
        s.inv(),
        keys.len() == 16,
        s.dt == 0,
        s.waiting || s.pc + 1 >= 4096 || !(nib1(fetch16(s.ram, s.pc as int)) == 0xF && nib3(
            fetch16(s.ram, s.pc as int),
        ) == 0x1 && nib4(fetch16(s.ram, s.pc as int)) == 0x5),
    ensures
        spec_tick(s, keys, r).0.dt == 0,
{
}

/// Determinism: a running tick with no key pressed moves registers,
/// memory, stack, index, screen and program counter in a way that does
/// not depend on the timers, as long as the fetched instruction does not
/// read the delay timer. The byte `r` fixes the random instruction.
#[verifier::rlimit(100)]
pub proof fn lemma_tick_ignores_timers(s: State, t: State, keys: Seq<bool>, r: u8)
    requires
        s.inv(),
        t.inv(),
        keys.len() == 16,
        !s.waiting,
        forall|j: int| 0 <= j < 16 ==> !keys[j],
        t == (State { dt: t.dt, st: t.st, ..s }),
        s.pc + 1 < 4096 ==> !(nib1(fetch16(s.ram, s.pc as int)) == 0xF && nib3(
            fetch16(s.ram, s.pc as int),
        ) == 0x0 && nib4(fetch16(s.ram, s.pc as int)) == 0x7),
    ensures
        ({
            let s2 = spec_tick(s, keys, r).0;
            let t2 = spec_tick(t, keys, r).0;
            &&& s2.v == t2.v
            &&& s2.ram == t2.ram
            &&& s2.stack == t2.stack
            &&& s2.i == t2.i
            &&& s2.pc == t2.pc
            &&& s2.screen == t2.screen
            &&& s2.waiting == t2.waiting
            &&& s2.keyv == t2.keyv
        }),
{
}

} // verus!
