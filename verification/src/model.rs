//! The mathematical model of the machine: an abstract state record, one
//! transition function per instruction, and the tick-level transition that
//! the executable interpreter is proved to implement.
use crate::cpu::{Fault, Flow};
use crate::font::spec_font;
use vstd::prelude::*;

verus! {

/// The abstract interpreter state. The concrete machine's view is a value
/// of this record; every contract of the library speaks of it.
pub ghost struct State {
    /// 4096 bytes of memory; the glyph table sits below 0x200.
    pub ram: Seq<u8>,
    /// The sixteen general-purpose registers V0..VF.
    pub v: Seq<u8>,
    /// The live return addresses, oldest first; at most sixteen.
    pub stack: Seq<usize>,
    /// The index register, sixteen bits wide.
    pub i: usize,
    /// The program counter.
    pub pc: usize,
    /// The delay timer.
    pub dt: u8,
    /// The sound timer.
    pub st: u8,
    /// The sixteen key flags as of the latest tick.
    pub keys: Seq<bool>,
    /// True while the machine waits for a key press.
    pub waiting: bool,
    /// The register that a pressed key is delivered into.
    pub keyv: u8,
    /// The 64 by 32 display buffer, row-major, one byte per pixel, 0 or 1.
    pub screen: Seq<u8>,
    /// True when the display buffer changed during the current tick.
    pub dirty: bool,
}

/// What one tick hands back to the driver: a snapshot of the display when
/// it changed this tick, and whether the tone should be on.
pub ghost struct Output {
    pub screen: Option<Seq<u8>>,
    pub sound: bool,
}

impl State {
    /// Well-formedness of an abstract state. Every reachable state of a
    /// machine satisfies it.
    pub open spec fn inv(self) -> bool {
        &&& self.ram.len() == 4096
        &&& self.v.len() == 16
        &&& self.stack.len() <= 16
        &&& self.keys.len() == 16
        &&& self.keyv < 16
        &&& self.screen.len() == 2048
        &&& self.i <= 0xFFFF
        &&& self.pc <= 0xFFFF
        &&& forall|j: int| 0 <= j < self.stack.len() ==> (#[trigger] self.stack[j]) <= 0xFFFF
        &&& forall|j: int|
            0 <= j < 2048 ==> (#[trigger] self.screen[j]) == 0 || self.screen[j] == 1
    }
}

/// The state of a machine as it comes out of the constructor: the glyph
/// table at the bottom of memory, everything else zeroed, the program
/// counter at 0x200.
pub open spec fn initial_state() -> State {
    State {
        ram: spec_font() + Seq::new(4016, |j: int| 0u8),
        v: Seq::new(16, |j: int| 0u8),
        stack: Seq::empty(),
        i: 0,
        pc: 0x200,
        dt: 0,
        st: 0,
        keys: Seq::new(16, |j: int| false),
        waiting: false,
        keyv: 0,
        screen: Seq::new(2048, |j: int| 0u8),
        dirty: false,
    }
}

/// Memory after a program image is copied in at 0x200.
pub open spec fn loaded_ram(ram: Seq<u8>, data: Seq<u8>) -> Seq<u8> {
    Seq::new(4096, |j: int| if 0x200 <= j < 0x200 + data.len() { data[j - 0x200] } else { ram[j] })
}

/// One timer step: down by one, flooring at zero.
pub open spec fn timer_step(t: u8) -> u8 {
    if t > 0 {
        (t - 1) as u8
    } else {
        0
    }
}

/// The lowest pressed key at index `k` or above, if any.
pub open spec fn first_pressed_from(keys: Seq<bool>, k: int) -> Option<u8>
    decreases 16 - k,
{
    if k < 0 || k >= 16 {
        None
    } else if keys[k] {
        Some(k as u8)
    } else {
        first_pressed_from(keys, k + 1)
    }
}

proof fn lemma_first_pressed_from(keys: Seq<bool>, m: int, k: int)
    requires
        0 <= m <= k < 16,
        keys[k],
        forall|j: int| m <= j < k ==> !keys[j],
    ensures
        first_pressed_from(keys, m) == Some(k as u8),
    decreases k - m,
{
    if m < k {
        lemma_first_pressed_from(keys, m + 1, k);
    }
}

/// The key scan finds exactly the lowest pressed key.
pub proof fn lemma_first_pressed(keys: Seq<bool>, k: int)
    requires
        keys.len() == 16,
        0 <= k < 16,
        keys[k],
        forall|j: int| 0 <= j < k ==> !keys[j],
    ensures
        first_pressed_from(keys, 0) == Some(k as u8),
{
    lemma_first_pressed_from(keys, 0, k);
}

proof fn lemma_none_pressed_from(keys: Seq<bool>, m: int)
    requires
        forall|j: int| 0 <= j < 16 ==> !keys[j],
        0 <= m,
    ensures
        first_pressed_from(keys, m) == None::<u8>,
    decreases 16 - m,
{
    if m < 16 {
        lemma_none_pressed_from(keys, m + 1);
    }
}

/// The key scan finds nothing when no key is pressed.
pub proof fn lemma_none_pressed(keys: Seq<bool>)
    requires
        keys.len() == 16,
        forall|j: int| 0 <= j < 16 ==> !keys[j],
    ensures
        first_pressed_from(keys, 0) == None::<u8>,
{
    lemma_none_pressed_from(keys, 0);
}

/// Addition of two register bytes, wrapping modulo 256.
pub open spec fn wrap_add(a: u8, b: u8) -> u8 {
    if a + b > 255 {
        (a + b - 256) as u8
    } else {
        (a + b) as u8
    }
}

/// Subtraction of two register bytes, wrapping modulo 256.
pub open spec fn wrap_sub(a: u8, b: u8) -> u8 {
    if a >= b {
        (a - b) as u8
    } else {
        (a + 256 - b) as u8
    }
}

/// The four nibbles of an instruction word, high to low.
pub open spec fn nib1(op: u16) -> u8 {
    ((op >> 12u16) & 0xF) as u8
}

pub open spec fn nib2(op: u16) -> u8 {
    ((op >> 8u16) & 0xF) as u8
}

pub open spec fn nib3(op: u16) -> u8 {
    ((op >> 4u16) & 0xF) as u8
}

pub open spec fn nib4(op: u16) -> u8 {
    (op & 0xF) as u8
}

/// The big-endian instruction word at `pc`.
pub open spec fn fetch16(ram: Seq<u8>, pc: int) -> u16 {
    ((ram[pc] as u16) << 8u16) | (ram[pc + 1] as u16)
}

/// Nibbles, operand fields and masked words are all below their obvious
/// bounds.
pub proof fn lemma_field_bounds(op: u16)
    by (bit_vector)
    ensures
        nib1(op) < 16,
        nib2(op) < 16,
        nib3(op) < 16,
        nib4(op) < 16,
        (op & 0x0FFF) < 4096,
        (op & 0x00FF) < 256,
{
}

/// The program-counter directive chosen by one instruction.
pub open spec fn spec_skip_if(cond: bool) -> Flow {
    if cond {
        Flow::Skip
    } else {
        Flow::Next
    }
}

/// Applies a flow directive to the program counter.
pub open spec fn spec_apply_flow(s: State, f: Flow) -> State {
    match f {
        Flow::Next => State { pc: (s.pc + 2) as usize, ..s },
        Flow::Skip => State { pc: (s.pc + 4) as usize, ..s },
        Flow::Jump(a) => State { pc: a, ..s },
    }
}

// One transition function per instruction family. Each takes the state as
// it stands after the tick's timer step, with the program counter still on
// the instruction, and says what the instruction does to everything but
// the program counter, together with the flow directive it returns.

/// Clear the display.
pub open spec fn step_cls(s: State) -> (State, Flow) {
    (State { screen: Seq::new(2048, |j: int| 0u8), dirty: true, ..s }, Flow::Next)
}

/// Return from a call: pop the newest return address and jump to it.
pub open spec fn step_ret(s: State) -> Result<(State, Flow), Fault> {
    if s.stack.len() == 0 {
        Err(Fault::StackUnderflow)
    } else {
        Ok((State { stack: s.stack.drop_last(), ..s }, Flow::Jump(s.stack.last())))
    }
}

/// Jump to an address.
pub open spec fn step_jp(s: State, nnn: usize) -> (State, Flow) {
    (s, Flow::Jump(nnn))
}

/// Call: push the address of the following instruction, then jump.
pub open spec fn step_call(s: State, nnn: usize) -> Result<(State, Flow), Fault> {
    if s.stack.len() >= 16 {
        Err(Fault::StackOverflow)
    } else {
        Ok((State { stack: s.stack.push((s.pc + 2) as usize), ..s }, Flow::Jump(nnn)))
    }
}

/// Skip the next instruction when Vx equals the immediate.
pub open spec fn step_se(s: State, x: int, kk: u8) -> (State, Flow) {
    (s, spec_skip_if(s.v[x] == kk))
}

/// Skip the next instruction when Vx differs from the immediate.
pub open spec fn step_sne(s: State, x: int, kk: u8) -> (State, Flow) {
    (s, spec_skip_if(s.v[x] != kk))
}

/// Skip the next instruction when Vx equals Vy.
pub open spec fn step_sev(s: State, x: int, y: int) -> (State, Flow) {
    (s, spec_skip_if(s.v[x] == s.v[y]))
}

/// Skip the next instruction when Vx differs from Vy.
pub open spec fn step_snev(s: State, x: int, y: int) -> (State, Flow) {
    (s, spec_skip_if(s.v[x] != s.v[y]))
}

/// Load an immediate into Vx.
pub open spec fn step_ld(s: State, x: int, kk: u8) -> (State, Flow) {
    (State { v: s.v.update(x, kk), ..s }, Flow::Next)
}

/// Add an immediate to Vx, wrapping, with no flag change.
pub open spec fn step_add(s: State, x: int, kk: u8) -> (State, Flow) {
    (State { v: s.v.update(x, wrap_add(s.v[x], kk)), ..s }, Flow::Next)
}

/// Copy Vy into Vx.
pub open spec fn step_ldv(s: State, x: int, y: int) -> (State, Flow) {
    (State { v: s.v.update(x, s.v[y]), ..s }, Flow::Next)
}

/// Vx |= Vy.
pub open spec fn step_or(s: State, x: int, y: int) -> (State, Flow) {
    (State { v: s.v.update(x, s.v[x] | s.v[y]), ..s }, Flow::Next)
}

/// Vx &= Vy.
pub open spec fn step_and(s: State, x: int, y: int) -> (State, Flow) {
    (State { v: s.v.update(x, s.v[x] & s.v[y]), ..s }, Flow::Next)
}

/// Vx ^= Vy.
pub open spec fn step_xor(s: State, x: int, y: int) -> (State, Flow) {
    (State { v: s.v.update(x, s.v[x] ^ s.v[y]), ..s }, Flow::Next)
}

/// Vx += Vy, wrapping; VF is 1 exactly when the true sum exceeds 255.
pub open spec fn step_addv(s: State, x: int, y: int) -> (State, Flow) {
    let sum_wrapped: u8 = wrap_add(s.v[x], s.v[y]);
    let carry: u8 = if s.v[x] + s.v[y] > 255 {
        1u8
    } else {
        0u8
    };
    (State { v: s.v.update(x, sum_wrapped).update(15, carry), ..s }, Flow::Next)
}

/// Vx -= Vy, wrapping; VF is set first, to 1 exactly when no borrow occurs.
pub open spec fn step_sub(s: State, x: int, y: int) -> (State, Flow) {
    let v1 = s.v.update(
        15,
        if s.v[x] > s.v[y] {
            1u8
        } else {
            0u8
        },
    );
    (State { v: v1.update(x, wrap_sub(v1[x], v1[y])), ..s }, Flow::Next)
}

/// VF takes the low bit of Vx, then Vx shifts right by one.
pub open spec fn step_shr(s: State, x: int) -> (State, Flow) {
    let v1 = s.v.update(15, s.v[x] & 1);
    (State { v: v1.update(x, v1[x] >> 1u8), ..s }, Flow::Next)
}

/// Vx = Vy - Vx, wrapping; VF is set first, to 1 exactly when no borrow
/// occurs.
pub open spec fn step_subn(s: State, x: int, y: int) -> (State, Flow) {
    let v1 = s.v.update(
        15,
        if s.v[y] > s.v[x] {
            1u8
        } else {
            0u8
        },
    );
    (State { v: v1.update(x, wrap_sub(v1[y], v1[x])), ..s }, Flow::Next)
}

/// VF takes the high bit of Vx, then Vx shifts left by one.
pub open spec fn step_shl(s: State, x: int) -> (State, Flow) {
    let v1 = s.v.update(15, (s.v[x] & 0x80) >> 7u8);
    (State { v: v1.update(x, v1[x] << 1u8), ..s }, Flow::Next)
}

/// Set the index register.
pub open spec fn step_ldi(s: State, nnn: usize) -> (State, Flow) {
    (State { i: nnn, ..s }, Flow::Next)
}

/// Jump to V0 plus an offset.
pub open spec fn step_jpv(s: State, nnn: usize) -> (State, Flow) {
    (s, Flow::Jump((s.v[0] + nnn) as usize))
}

/// Vx takes a byte from the outside masked by the immediate.
pub open spec fn step_rand(s: State, x: int, kk: u8, r: u8) -> (State, Flow) {
    (State { v: s.v.update(x, r & kk), ..s }, Flow::Next)
}

/// Skip the next instruction when the key named by Vx is pressed. A Vx
/// beyond the sixteen keys is an out-of-bounds access and faults.
pub open spec fn step_skp(s: State, x: int) -> Result<(State, Flow), Fault> {
    if s.v[x] >= 16 {
        Err(Fault::MemoryFault)
    } else {
        Ok((s, spec_skip_if(s.keys[s.v[x] as int])))
    }
}

/// Skip the next instruction when the key named by Vx is not pressed.
pub open spec fn step_sknp(s: State, x: int) -> Result<(State, Flow), Fault> {
    if s.v[x] >= 16 {
        Err(Fault::MemoryFault)
    } else {
        Ok((s, spec_skip_if(!s.keys[s.v[x] as int])))
    }
}

/// Vx takes the delay timer, as already decremented this tick.
pub open spec fn step_ldvdt(s: State, x: int) -> (State, Flow) {
    (State { v: s.v.update(x, s.dt), ..s }, Flow::Next)
}

/// Wait for a key: record the destination register and pause. The program
/// counter still advances past the instruction; it then stands still for
/// as long as the machine waits.
pub open spec fn step_pause(s: State, x: int) -> (State, Flow) {
    (State { waiting: true, keyv: x as u8, ..s }, Flow::Next)
}

/// The delay timer takes Vx.
pub open spec fn step_lddtv(s: State, x: int) -> (State, Flow) {
    (State { dt: s.v[x], ..s }, Flow::Next)
}

/// The sound timer takes Vx.
pub open spec fn step_ldst(s: State, x: int) -> (State, Flow) {
    (State { st: s.v[x], ..s }, Flow::Next)
}

/// I += Vx, wrapping at sixteen bits; VF is 1 exactly when the new I
/// exceeds 0x0F00 (this variant's documented, non-standard threshold).
pub open spec fn step_addi(s: State, x: int) -> (State, Flow) {
    let raw: int = s.i + s.v[x];
    let ni: usize = if raw > 0xFFFF {
        (raw - 0x10000) as usize
    } else {
        raw as usize
    };
    (
        State {
            i: ni,
            v: s.v.update(
                15,
                if ni > 0x0F00 {
                    1u8
                } else {
                    0u8
                },
            ),
            ..s
        },
        Flow::Next,
    )
}

/// I points at the glyph for the digit in Vx.
pub open spec fn step_ldf(s: State, x: int) -> (State, Flow) {
    (State { i: (s.v[x] * 5) as usize, ..s }, Flow::Next)
}

/// The three decimal digits of Vx go to memory at I, I+1, I+2.
pub open spec fn step_ldb(s: State, x: int) -> Result<(State, Flow), Fault> {
    if s.i + 3 > 4096 {
        Err(Fault::MemoryFault)
    } else {
        let b: u8 = s.v[x];
        let ram1 = s.ram.update(s.i as int, (b / 100) as u8).update(
            s.i + 1,
            ((b % 100) / 10) as u8,
        ).update(s.i + 2, (b % 10) as u8);
        Ok((State { ram: ram1, ..s }, Flow::Next))
    }
}

/// Memory after registers V0..Vx are stored at I.
pub open spec fn stored_regs(ram: Seq<u8>, i: int, v: Seq<u8>, x: int) -> Seq<u8> {
    Seq::new(4096, |j: int| if i <= j <= i + x { v[j - i] } else { ram[j] })
}

/// Registers after V0..Vx are loaded from memory at I.
pub open spec fn loaded_regs(v: Seq<u8>, ram: Seq<u8>, i: int, x: int) -> Seq<u8> {
    Seq::new(16, |k: int| if k <= x { ram[i + k] } else { v[k] })
}

/// Store V0..Vx to memory at I.
pub open spec fn step_stregs(s: State, x: int) -> Result<(State, Flow), Fault> {
    if s.i + x + 1 > 4096 {
        Err(Fault::MemoryFault)
    } else {
        Ok((State { ram: stored_regs(s.ram, s.i as int, s.v, x), ..s }, Flow::Next))
    }
}

/// Load V0..Vx from memory at I.
pub open spec fn step_ldregs(s: State, x: int) -> Result<(State, Flow), Fault> {
    if s.i + x + 1 > 4096 {
        Err(Fault::MemoryFault)
    } else {
        Ok((State { v: loaded_regs(s.v, s.ram, s.i as int, x), ..s }, Flow::Next))
    }
}

/// An unrecognised instruction word: a no-op that only advances.
pub open spec fn step_unknown(s: State) -> (State, Flow) {
    (s, Flow::Next)
}

// The draw instruction. A sprite of n rows is taken from memory at I and
// XOR-blitted at column Vx % 64, row Vy % 32, wrapping at both edges.

/// Bit `c` of a sprite row, most significant first, as 0 or 1.
pub open spec fn sprite_bit(row: u8, c: int) -> u8 {
    (row >> ((7 - c) as u8)) & 1
}

/// Which sprite row lands on screen row `py`, for a sprite drawn at
/// reduced row `vy`: the offset of `py` above `vy`, wrapping at 32.
pub open spec fn row_of(vy: int, py: int) -> int {
    if py >= vy {
        py - vy
    } else {
        py + 32 - vy
    }
}

/// Which sprite column lands on screen column `px`, for a sprite drawn at
/// reduced column `vx`: the offset of `px` right of `vx`, wrapping at 64.
pub open spec fn col_of(vx: int, px: int) -> int {
    if px >= vx {
        px - vx
    } else {
        px + 64 - vx
    }
}

/// Whether the flat pixel index `j` lies under the sprite.
pub open spec fn draw_covers(vx: int, vy: int, n: int, j: int) -> bool {
    row_of(vy, j / 64) < n && col_of(vx, j % 64) < 8
}

/// The sprite bit that lands on flat pixel index `j`.
pub open spec fn draw_bit_at(ram: Seq<u8>, i: int, vx: int, vy: int, j: int) -> u8 {
    sprite_bit(ram[i + row_of(vy, j / 64)], col_of(vx, j % 64))
}

/// One pixel of the display after the draw: XOR of the old pixel with the
/// sprite bit that lands on it, untouched where none does.
pub open spec fn pix_after_draw(
    ram: Seq<u8>,
    i: int,
    vx: int,
    vy: int,
    n: int,
    scr: Seq<u8>,
    j: int,
) -> u8 {
    if draw_covers(vx, vy, n, j) {
        scr[j] ^ draw_bit_at(ram, i, vx, vy, j)
    } else {
        scr[j]
    }
}

/// The whole display after the draw.
pub open spec fn draw_screen(ram: Seq<u8>, i: int, vx: int, vy: int, n: int, scr: Seq<u8>) -> Seq<
    u8,
> {
    Seq::new(2048, |j: int| pix_after_draw(ram, i, vx, vy, n, scr, j))
}

/// Whether the draw turns any lit pixel off: some covered pixel whose
/// sprite bit and old value are both one.
pub open spec fn draw_collides(ram: Seq<u8>, i: int, vx: int, vy: int, n: int, scr: Seq<u8>) -> bool {
    exists|j: int|
        0 <= j < 2048 && draw_covers(vx, vy, n, j) && draw_bit_at(ram, i, vx, vy, j) & (
        #[trigger] scr[j]) == 1
}

/// Draw a sprite: n rows from memory at I, XOR-blitted with wrap; VF
/// records whether any lit pixel went out; the buffer is marked dirty even
/// when nothing changes. Reading sprite rows past the end of memory faults.
pub open spec fn step_draw(s: State, x: int, y: int, n: int) -> Result<(State, Flow), Fault> {
    let vx: int = (s.v[x] as int) % 64;
    let vy: int = (s.v[y] as int) % 32;
    if n > 0 && s.i + n > 4096 {
        Err(Fault::MemoryFault)
    } else {
        Ok(
            (
                State {
                    screen: draw_screen(s.ram, s.i as int, vx, vy, n, s.screen),
                    v: s.v.update(
                        15,
                        if draw_collides(s.ram, s.i as int, vx, vy, n, s.screen) {
                            1u8
                        } else {
                            0u8
                        },
                    ),
                    dirty: true,
                    ..s
                },
                Flow::Next,
            ),
        )
    }
}

/// A screen position is determined by its draw offsets: a flat index that
/// shares both offsets with a given row and column is that position.
pub proof fn lemma_cover_unique(vx: int, vy: int, j: int, py: int, px: int)
    requires
        0 <= vx < 64,
        0 <= vy < 32,
        0 <= j < 2048,
        0 <= py < 32,
        0 <= px < 64,
        row_of(vy, j / 64) == row_of(vy, py),
        col_of(vx, j % 64) == col_of(vx, px),
    ensures
        j == py * 64 + px,
{
    vstd::arithmetic::div_mod::lemma_fundamental_div_mod(j, 64);
    vstd::arithmetic::div_mod::lemma_mod_bound(j, 64);
}

/// The screen position that sprite row `b`, column `c` lands on, and its
/// draw offsets.
pub proof fn lemma_cover_point(vx: int, vy: int, b: int, c: int)
    requires
        0 <= vx < 64,
        0 <= vy < 32,
        0 <= b < 32,
        0 <= c < 8,
    ensures
        ({
            let py: int = if vy + b < 32 {
                vy + b
            } else {
                vy + b - 32
            };
            let px: int = if vx + c < 64 {
                vx + c
            } else {
                vx + c - 64
            };
            &&& 0 <= py * 64 + px < 2048
            &&& (py * 64 + px) / 64 == py
            &&& (py * 64 + px) % 64 == px
            &&& row_of(vy, py) == b
            &&& col_of(vx, px) == c
        }),
{
    let py: int = if vy + b < 32 {
        vy + b
    } else {
        vy + b - 32
    };
    let px: int = if vx + c < 64 {
        vx + c
    } else {
        vx + c - 64
    };
    vstd::arithmetic::div_mod::lemma_fundamental_div_mod_converse(py * 64 + px, 64, py, px);
}

/// Wraps an infallible instruction result: apply the flow directive.
pub open spec fn done(p: (State, Flow)) -> (State, Option<Fault>) {
    (spec_apply_flow(p.0, p.1), None)
}

/// Wraps a fallible instruction result: apply the flow directive on
/// success, keep the state and surface the fault otherwise.
pub open spec fn settle(s: State, r: Result<(State, Flow), Fault>) -> (State, Option<Fault>) {
    match r {
        Ok(p) => (spec_apply_flow(p.0, p.1), None),
        Err(f) => (s, Some(f)),
    }
}

/// Executes one instruction word on a state whose timers have already been
/// stepped this tick. Dispatch is total: every word maps to exactly one
/// transition, unmatched words to the no-op.
pub open spec fn spec_step(s: State, op: u16, r: u8) -> (State, Option<Fault>) {
    let a: u8 = nib1(op);
    let b: u8 = nib2(op);
    let c: u8 = nib3(op);
    let d: u8 = nib4(op);
    let x: int = b as int;
    let y: int = c as int;
    let n: int = d as int;
    let nnn: usize = (op & 0x0FFF) as usize;
    let kk: u8 = (op & 0x00FF) as u8;
    if a == 0 && b == 0 && c == 0xE && d == 0 {
        done(step_cls(s))
    } else if a == 0 && b == 0 && c == 0xE && d == 0xE {
        settle(s, step_ret(s))
    } else if a == 0x1 {
        done(step_jp(s, nnn))
    } else if a == 0x2 {
        settle(s, step_call(s, nnn))
    } else if a == 0x3 {
        done(step_se(s, x, kk))
    } else if a == 0x4 {
        done(step_sne(s, x, kk))
    } else if a == 0x5 {
        done(step_sev(s, x, y))
    } else if a == 0x6 {
        done(step_ld(s, x, kk))
    } else if a == 0x7 {
        done(step_add(s, x, kk))
    } else if a == 0x8 && d == 0x0 {
        done(step_ldv(s, x, y))
    } else if a == 0x8 && d == 0x1 {
        done(step_or(s, x, y))
    } else if a == 0x8 && d == 0x2 {
        done(step_and(s, x, y))
    } else if a == 0x8 && d == 0x3 {
        done(step_xor(s, x, y))
    } else if a == 0x8 && d == 0x4 {
        done(step_addv(s, x, y))
    } else if a == 0x8 && d == 0x5 {
        done(step_sub(s, x, y))
    } else if a == 0x8 && d == 0x6 {
        done(step_shr(s, x))
    } else if a == 0x8 && d == 0x7 {
        done(step_subn(s, x, y))
    } else if a == 0x8 && d == 0xE {
        done(step_shl(s, x))
    } else if a == 0x9 && d == 0x0 {
        done(step_snev(s, x, y))
    } else if a == 0xA {
        done(step_ldi(s, nnn))
    } else if a == 0xB {
        done(step_jpv(s, nnn))
    } else if a == 0xC {
        done(step_rand(s, x, kk, r))
    } else if a == 0xD {
        settle(s, step_draw(s, x, y, n))
    } else if a == 0xE && c == 0x9 && d == 0xE {
        settle(s, step_skp(s, x))
    } else if a == 0xE && c == 0xA && d == 0x1 {
        settle(s, step_sknp(s, x))
    } else if a == 0xF && c == 0x0 && d == 0x7 {
        done(step_ldvdt(s, x))
    } else if a == 0xF && c == 0x0 && d == 0xA {
        done(step_pause(s, x))
    } else if a == 0xF && c == 0x1 && d == 0x5 {
        done(step_lddtv(s, x))
    } else if a == 0xF && c == 0x1 && d == 0x8 {
        done(step_ldst(s, x))
    } else if a == 0xF && c == 0x1 && d == 0xE {
        done(step_addi(s, x))
    } else if a == 0xF && c == 0x2 && d == 0x9 {
        done(step_ldf(s, x))
    } else if a == 0xF && c == 0x3 && d == 0x3 {
        settle(s, step_ldb(s, x))
    } else if a == 0xF && c == 0x5 && d == 0x5 {
        settle(s, step_stregs(s, x))
    } else if a == 0xF && c == 0x6 && d == 0x5 {
        settle(s, step_ldregs(s, x))
    } else {
        done(step_unknown(s))
    }
}

/// The output record built from a post-tick state: the display snapshot is
/// present exactly when the buffer changed this tick; the tone is on while
/// the sound timer is positive.
pub open spec fn out_of(s: State) -> Output {
    Output {
        screen: if s.dirty {
            Some(s.screen)
        } else {
            None
        },
        sound: s.st > 0,
    }
}

/// One whole tick on the abstract state: the key flags are replaced, the
/// dirty mark cleared, both timers step down; a waiting machine scans for
/// the lowest pressed key and resumes on it without fetching; a running
/// machine fetches, decodes and executes one instruction, faulting when
/// the program counter leaves memory. `r` is the byte that the random
/// instruction consumes this tick.
pub open spec fn spec_tick(s: State, keys: Seq<bool>, r: u8) -> (State, Result<Output, Fault>) {
    let s1 = State {
        keys: keys,
        dirty: false,
        dt: timer_step(s.dt),
        st: timer_step(s.st),
        ..s
    };
    if s.waiting {
        match first_pressed_from(keys, 0) {
            Some(k) => {
                let s2 = State { waiting: false, v: s1.v.update(s.keyv as int, k), ..s1 };
                (s2, Ok(out_of(s2)))
            },
            None => (s1, Ok(out_of(s1))),
        }
    } else if s.pc + 1 >= 4096 {
        (s1, Err(Fault::MemoryFault))
    } else {
        let stepped = spec_step(s1, fetch16(s.ram, s.pc as int), r);
        match stepped.1 {
            Some(f) => (stepped.0, Err(f)),
            None => (stepped.0, Ok(out_of(stepped.0))),
        }
    }
}

} // verus!
