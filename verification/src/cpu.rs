//! The interpreter: concrete state, instruction handlers, and the tick
//! entry point, each proved against the transition functions in
//! [`crate::model`].
use crate::font::font_table;
use crate::font::spec_font;
use crate::model::{
    State, Output, initial_state, loaded_ram, timer_step, fetch16, lemma_field_bounds,
    spec_skip_if, step_cls, step_ret, step_jp, step_call, step_se, step_sne, step_sev, step_snev,
    step_ld, step_add, step_ldv, step_or, step_and, step_xor, step_addv, step_sub, step_shr,
    step_subn, step_shl, step_ldi, step_jpv, step_rand, step_skp, step_sknp, step_ldvdt,
    step_pause, step_lddtv, step_ldst, step_addi, step_ldf, step_ldb, step_stregs, step_ldregs,
    step_unknown, row_of, col_of, draw_bit_at, pix_after_draw, draw_screen, draw_collides,
    spec_step, spec_tick, stored_regs, loaded_regs, step_draw, lemma_cover_unique,
    lemma_cover_point, lemma_first_pressed, lemma_none_pressed,
};
use rand::Rng;
use vstd::prelude::*;

verus! {

/// The flow directive an instruction hands back: advance past the
/// instruction, skip one more, or go to an address.
pub enum Flow {
    Next,
    Skip,
    Jump(usize),
}

/// An unrecoverable condition: the tick that returns one of these has not
/// executed an instruction, and the session should stop.
#[derive(Clone, Copy, Debug, PartialEq, Eq, Structural)]
pub enum Fault {
    /// A call was made with sixteen return addresses already held.
    StackOverflow,
    /// A return was asked for with no call outstanding.
    StackUnderflow,
    /// The program counter, the index register or a key index pointed
    /// outside its range.
    MemoryFault,
}

/// The one way loading a program can fail.
#[derive(Clone, Copy, Debug, PartialEq, Eq, Structural)]
pub enum LoadError {
    /// The image does not fit between 0x200 and the end of memory.
    ProgramTooLarge,
}

/// What one tick hands the driver: a display snapshot when the buffer
/// changed this tick (row-major, 64 by 32, one byte per pixel), and
/// whether the tone should be on.
pub struct CpuOutput {
    pub screen: Option<Vec<u8>>,
    pub sound: bool,
}

impl View for CpuOutput {
    type V = Output;

    open spec fn view(&self) -> Output {
        Output {
            screen: match self.screen {
                Some(s) => Some(s@),
                None => None,
            },
            sound: self.sound,
        }
    }
}

/// The view of a tick's result.
pub open spec fn tick_res_view(res: Result<CpuOutput, Fault>) -> Result<Output, Fault> {
    match res {
        Ok(o) => Ok(o@),
        Err(f) => Err(f),
    }
}

impl Flow {
    /// Skip the next instruction when the condition holds, else advance.
    pub fn skip_if(condition: bool) -> (f: Flow)
        ensures
            f == spec_skip_if(condition),
    {
        if condition {
            Flow::Skip
        } else {
            Flow::Next
        }
    }
}

/// The machine. Its abstract value is a [`State`]; all contracts speak of
/// that view.
pub struct Cpu {
    ram: Vec<u8>,
    stack: Vec<usize>,
    i: usize,
    pc: usize,
    sp: usize,
    dt: u8,
    st: u8,
    v: Vec<u8>,
    keys: [bool; 16],
    paused: bool,
    keyv: u8,
    vram: Vec<u8>,
    screen_refresh: bool,
}

impl View for Cpu {
    type V = State;

    closed spec fn view(&self) -> State {
        State {
            ram: self.ram@,
            v: self.v@,
            stack: self.stack@.take(self.sp as int),
            i: self.i,
            pc: self.pc,
            dt: self.dt,
            st: self.st,
            keys: self.keys@,
            waiting: self.paused,
            keyv: self.keyv,
            screen: self.vram@,
            dirty: self.screen_refresh,
        }
    }
}

impl Cpu {
    /// Well-formedness of the concrete machine: fixed-size storage and an
    /// abstract view that satisfies its invariant.
    pub closed spec fn wf(&self) -> bool {
        &&& self.ram.len() == 4096
        &&& self.v.len() == 16
        &&& self.stack.len() == 16
        &&& self.sp <= 16
        &&& self.vram.len() == 2048
        &&& self@.inv()
    }

    /// A well-formed machine has a well-formed view.
    pub proof fn lemma_wf_inv(&self)
        requires
            self.wf(),
        ensures
            self@.inv(),
    {
    }

    /// A fresh machine: glyph table in low memory, registers and display
    /// zeroed, program counter at 0x200.
    pub fn new() -> (c: Cpu)
        ensures
            c.wf(),
            c@ == initial_state(),
    {
        let mut ram: Vec<u8> = font_table();
        while ram.len() < 4096
            invariant
                80 <= ram.len() <= 4096,
                forall|j: int| 0 <= j < 80 ==> ram@[j] == spec_font()[j],
                forall|j: int| 80 <= j < ram.len() ==> ram@[j] == 0,
            decreases 4096 - ram.len(),
        {
            ram.push(0u8);
        }
        let mut stack: Vec<usize> = Vec::new();
        while stack.len() < 16
            invariant
                stack.len() <= 16,
                forall|j: int| 0 <= j < stack.len() ==> stack@[j] == 0usize,
            decreases 16 - stack.len(),
        {
            stack.push(0usize);
        }
        let mut v: Vec<u8> = Vec::new();
        while v.len() < 16
            invariant
                v.len() <= 16,
                forall|j: int| 0 <= j < v.len() ==> v@[j] == 0u8,
            decreases 16 - v.len(),
        {
            v.push(0u8);
        }
        let mut vram: Vec<u8> = Vec::new();
        while vram.len() < 2048
            invariant
                vram.len() <= 2048,
                forall|j: int| 0 <= j < vram.len() ==> vram@[j] == 0u8,
            decreases 2048 - vram.len(),
        {
            vram.push(0u8);
        }
        let c = Cpu {
            ram,
            stack,
            v,
            i: 0,
            pc: 0x200,
            sp: 0,
            dt: 0,
            st: 0,
            keys: [false;16],
            paused: false,
            keyv: 0,
            vram,
            screen_refresh: false,
        };
        proof {
            assert(c@.ram =~= initial_state().ram);
            assert(c@.v =~= initial_state().v);
            assert(c@.stack =~= initial_state().stack);
            assert(c@.keys =~= initial_state().keys);
            assert(c@.screen =~= initial_state().screen);
            assert(c@ == initial_state());
        }
        c
    }

    /// Copies a program image into memory starting at 0x200. An image
    /// that does not fit is refused whole and the machine is unchanged.
    pub fn load(&mut self, data: &Vec<u8>) -> (res: Result<(), LoadError>)
        requires
            old(self).wf(),
        ensures
            final(self).wf(),
            data@.len() <= 3584 ==> res == Ok::<(), LoadError>(()) && final(self)@ == (State {
                ram: loaded_ram(old(self)@.ram, data@),
                ..old(self)@
            }),
            data@.len() > 3584 ==> res == Err::<(), LoadError>(LoadError::ProgramTooLarge)
                && *final(self) == *old(self),
    {
        if data.len() > 3584 {
            return Err(LoadError::ProgramTooLarge);
        }
        let mut k: usize = 0;
        while k < data.len()
            invariant
                old(self).wf(),
                self.wf(),
                k <= data.len() <= 3584,
                self@ == (State { ram: self@.ram, ..old(self)@ }),
                self@.ram.len() == 4096,
                forall|j: int|
                    0x200 <= j < 0x200 + k ==> self@.ram[j] == data@[j - 0x200],
                forall|j: int|
                    0 <= j < 4096 && !(0x200 <= j < 0x200 + k) ==> self@.ram[j] == old(
                        self,
                    )@.ram[j],
            decreases data.len() - k,
        {
            self.ram.set(0x200 + k, data[k]);
            k = k + 1;
        }
        proof {
            assert(self@.ram =~= loaded_ram(old(self)@.ram, data@));
        }
        Ok(())
    }

    /// Clear the display and mark it dirty.
    fn CLS(&mut self) -> (f: Flow)
        requires
            old(self).wf(),
        ensures
            final(self).wf(),
            (final(self)@, f) == step_cls(old(self)@),
    {
        let mut j: usize = 0;
        while j < 2048
            invariant
                old(self).wf(),
                self.wf(),
                j <= 2048,
                self@ == (State { screen: self@.screen, ..old(self)@ }),
                forall|k: int| 0 <= k < j ==> self@.screen[k] == 0,
            decreases 2048 - j,
        {
            self.vram.set(j, 0u8);
            j = j + 1;
        }
        self.screen_refresh = true;
        proof {
            assert(self@.screen =~= Seq::new(2048, |k: int| 0u8));
        }
        Flow::Next
    }

    /// Pop the newest return address and jump to it.
    fn RET(&mut self) -> (res: Result<Flow, Fault>)
        requires
            old(self).wf(),
        ensures
            final(self).wf(),
            (match res {
                Ok(f) => step_ret(old(self)@) == Ok::<(State, Flow), Fault>((final(self)@, f)),
                Err(e) => step_ret(old(self)@) == Err::<(State, Flow), Fault>(e) && *final(self)
                    == *old(self),
            }),
    {
        if self.sp == 0 {
            return Err(Fault::StackUnderflow);
        }
        self.sp = self.sp - 1;
        let a: usize = self.stack[self.sp];
        proof {
            assert(self@.stack =~= old(self)@.stack.drop_last());
            assert(self@ == (State { stack: old(self)@.stack.drop_last(), ..old(self)@ }));
        }
        Ok(Flow::Jump(a))
    }

    /// Jump to an address.
    fn JP(&mut self, nnn: usize) -> (f: Flow)
        requires
            old(self).wf(),
        ensures
            final(self).wf(),
            (final(self)@, f) == step_jp(old(self)@, nnn),
    {
        Flow::Jump(nnn)
    }

    /// Push the address of the following instruction, then jump.
    fn CALL(&mut self, nnn: usize) -> (res: Result<Flow, Fault>)
        requires
            old(self).wf(),
            old(self)@.pc + 2 <= 0xFFFF,
        ensures
            final(self).wf(),
            (match res {
                Ok(f) => step_call(old(self)@, nnn) == Ok::<(State, Flow), Fault>((
                    final(self)@,
                    f,
                )),
                Err(e) => step_call(old(self)@, nnn) == Err::<(State, Flow), Fault>(e)
                    && *final(self) == *old(self),
            }),
    {
        if self.sp >= 16 {
            return Err(Fault::StackOverflow);
        }
        let ret: usize = self.pc + 2;
        self.stack.set(self.sp, ret);
        self.sp = self.sp + 1;
        proof {
            assert(self@.stack =~= old(self)@.stack.push((old(self)@.pc + 2) as usize));
            assert(self@ == (State {
                stack: old(self)@.stack.push((old(self)@.pc + 2) as usize),
                ..old(self)@
            }));
        }
        Ok(Flow::Jump(nnn))
    }

    /// Skip when Vx equals the immediate.
    fn SE(&mut self, x: usize, kk: u8) -> (f: Flow)
        requires
            old(self).wf(),
            x < 16,
        ensures
            final(self).wf(),
            (final(self)@, f) == step_se(old(self)@, x as int, kk),
    {
        Flow::skip_if(self.v[x] == kk)
    }

    /// Skip when Vx differs from the immediate.
    fn SNE(&mut self, x: usize, kk: u8) -> (f: Flow)
        requires
            old(self).wf(),
            x < 16,
        ensures
            final(self).wf(),
            (final(self)@, f) == step_sne(old(self)@, x as int, kk),
    {
        Flow::skip_if(self.v[x] != kk)
    }

    /// Skip when Vx equals Vy.
    fn SEV(&mut self, x: usize, y: usize) -> (f: Flow)
        requires
            old(self).wf(),
            x < 16,
            y < 16,
        ensures
            final(self).wf(),
            (final(self)@, f) == step_sev(old(self)@, x as int, y as int),
    {
        Flow::skip_if(self.v[x] == self.v[y])
    }

    /// Skip when Vx differs from Vy.
    fn SNEV(&mut self, x: usize, y: usize) -> (f: Flow)
        requires
            old(self).wf(),
            x < 16,
            y < 16,
        ensures
            final(self).wf(),
            (final(self)@, f) == step_snev(old(self)@, x as int, y as int),
    {
        Flow::skip_if(self.v[x] != self.v[y])
    }

    /// Load an immediate into Vx.
    fn LD(&mut self, x: usize, kk: u8) -> (f: Flow)
        requires
            old(self).wf(),
            x < 16,
        ensures
            final(self).wf(),
            (final(self)@, f) == step_ld(old(self)@, x as int, kk),
    {
        self.v.set(x, kk);
        Flow::Next
    }

    /// Add an immediate to Vx, wrapping, without touching VF.
    fn ADD(&mut self, x: usize, kk: u8) -> (f: Flow)
        requires
            old(self).wf(),
            x < 16,
        ensures
            final(self).wf(),
            (final(self)@, f) == step_add(old(self)@, x as int, kk),
    {
        let sum: u16 = self.v[x] as u16 + kk as u16;
        let r: u8 = if sum > 255 {
            (sum - 256) as u8
        } else {
            sum as u8
        };
        self.v.set(x, r);
        Flow::Next
    }

    /// Copy Vy into Vx.
    fn LDV(&mut self, x: usize, y: usize) -> (f: Flow)
        requires
            old(self).wf(),
            x < 16,
            y < 16,
        ensures
            final(self).wf(),
            (final(self)@, f) == step_ldv(old(self)@, x as int, y as int),
    {
        let b: u8 = self.v[y];
        self.v.set(x, b);
        Flow::Next
    }

    /// Vx |= Vy.
    fn OR(&mut self, x: usize, y: usize) -> (f: Flow)
        requires
            old(self).wf(),
            x < 16,
            y < 16,
        ensures
            final(self).wf(),
            (final(self)@, f) == step_or(old(self)@, x as int, y as int),
    {
        let b: u8 = self.v[x] | self.v[y];
        self.v.set(x, b);
        Flow::Next
    }

    /// Vx &= Vy.
    fn AND(&mut self, x: usize, y: usize) -> (f: Flow)
        requires
            old(self).wf(),
            x < 16,
            y < 16,
        ensures
            final(self).wf(),
            (final(self)@, f) == step_and(old(self)@, x as int, y as int),
    {
        let b: u8 = self.v[x] & self.v[y];
        self.v.set(x, b);
        Flow::Next
    }

    /// Vx ^= Vy.
    fn XOR(&mut self, x: usize, y: usize) -> (f: Flow)
        requires
            old(self).wf(),
            x < 16,
            y < 16,
        ensures
            final(self).wf(),
            (final(self)@, f) == step_xor(old(self)@, x as int, y as int),
    {
        let b: u8 = self.v[x] ^ self.v[y];
        self.v.set(x, b);
        Flow::Next
    }

    /// Vx += Vy with carry into VF.
    fn ADDV(&mut self, x: usize, y: usize) -> (f: Flow)
        requires
            old(self).wf(),
            x < 16,
            y < 16,
        ensures
            final(self).wf(),
            (final(self)@, f) == step_addv(old(self)@, x as int, y as int),
    {
        let sum: u16 = self.v[x] as u16 + self.v[y] as u16;
        let r: u8 = if sum > 255 {
            (sum - 256) as u8
        } else {
            sum as u8
        };
        let carry: u8 = if sum > 255 {
            1
        } else {
            0
        };
        self.v.set(x, r);
        self.v.set(15, carry);
        Flow::Next
    }

    /// Vx -= Vy; VF is set first, to 1 exactly when no borrow occurs.
    fn SUB(&mut self, x: usize, y: usize) -> (f: Flow)
        requires
            old(self).wf(),
            x < 16,
            y < 16,
        ensures
            final(self).wf(),
            (final(self)@, f) == step_sub(old(self)@, x as int, y as int),
    {
        let flag: u8 = if self.v[x] > self.v[y] {
            1
        } else {
            0
        };
        self.v.set(15, flag);
        let a: u8 = self.v[x];
        let b: u8 = self.v[y];
        let r: u8 = if a >= b {
            a - b
        } else {
            ((a as u16 + 256) - b as u16) as u8
        };
        self.v.set(x, r);
        Flow::Next
    }

    /// VF takes the low bit of Vx; Vx shifts right.
    fn SHR(&mut self, x: usize) -> (f: Flow)
        requires
            old(self).wf(),
            x < 16,
        ensures
            final(self).wf(),
            (final(self)@, f) == step_shr(old(self)@, x as int),
    {
        let flag: u8 = self.v[x] & 1;
        self.v.set(15, flag);
        let b: u8 = self.v[x] >> 1u8;
        self.v.set(x, b);
        Flow::Next
    }

    /// Vx = Vy - Vx; VF is set first, to 1 exactly when no borrow occurs.
    fn SUBN(&mut self, x: usize, y: usize) -> (f: Flow)
        requires
            old(self).wf(),
            x < 16,
            y < 16,
        ensures
            final(self).wf(),
            (final(self)@, f) == step_subn(old(self)@, x as int, y as int),
    {
        let flag: u8 = if self.v[y] > self.v[x] {
            1
        } else {
            0
        };
        self.v.set(15, flag);
        let a: u8 = self.v[y];
        let b: u8 = self.v[x];
        let r: u8 = if a >= b {
            a - b
        } else {
            ((a as u16 + 256) - b as u16) as u8
        };
        self.v.set(x, r);
        Flow::Next
    }

    /// VF takes the high bit of Vx; Vx shifts left.
    fn SHL(&mut self, x: usize) -> (f: Flow)
        requires
            old(self).wf(),
            x < 16,
        ensures
            final(self).wf(),
            (final(self)@, f) == step_shl(old(self)@, x as int),
    {
        let flag: u8 = (self.v[x] & 0x80) >> 7u8;
        self.v.set(15, flag);
        let b: u8 = self.v[x] << 1u8;
        self.v.set(x, b);
        Flow::Next
    }

    /// Set the index register.
    fn LDI(&mut self, nnn: usize) -> (f: Flow)
        requires
            old(self).wf(),
            nnn < 4096,
        ensures
            final(self).wf(),
            (final(self)@, f) == step_ldi(old(self)@, nnn),
    {
        self.i = nnn;
        Flow::Next
    }

    /// Jump to V0 plus an offset.
    fn JPV(&mut self, nnn: usize) -> (f: Flow)
        requires
            old(self).wf(),
            nnn < 4096,
        ensures
            final(self).wf(),
            (final(self)@, f) == step_jpv(old(self)@, nnn),
    {
        Flow::Jump(self.v[0] as usize + nnn)
    }

    /// Vx takes the given byte masked by the immediate.
    fn RAND(&mut self, x: usize, kk: u8, r: u8) -> (f: Flow)
        requires
            old(self).wf(),
            x < 16,
        ensures
            final(self).wf(),
            (final(self)@, f) == step_rand(old(self)@, x as int, kk, r),
    {
        self.v.set(x, r & kk);
        Flow::Next
    }

    /// Skip when the key named by Vx is pressed.
    fn SKP(&mut self, x: usize) -> (res: Result<Flow, Fault>)
        requires
            old(self).wf(),
            x < 16,
        ensures
            final(self).wf(),
            (match res {
                Ok(f) => step_skp(old(self)@, x as int) == Ok::<(State, Flow), Fault>((
                    final(self)@,
                    f,
                )),
                Err(e) => step_skp(old(self)@, x as int) == Err::<(State, Flow), Fault>(e)
                    && *final(self) == *old(self),
            }),
    {
        let k: u8 = self.v[x];
        if k >= 16 {
            return Err(Fault::MemoryFault);
        }
        Ok(Flow::skip_if(self.keys[k as usize]))
    }

    /// Skip when the key named by Vx is not pressed.
    fn SKNP(&mut self, x: usize) -> (res: Result<Flow, Fault>)
        requires
            old(self).wf(),
            x < 16,
        ensures
            final(self).wf(),
            (match res {
                Ok(f) => step_sknp(old(self)@, x as int) == Ok::<(State, Flow), Fault>((
                    final(self)@,
                    f,
                )),
                Err(e) => step_sknp(old(self)@, x as int) == Err::<(State, Flow), Fault>(e)
                    && *final(self) == *old(self),
            }),
    {
        let k: u8 = self.v[x];
        if k >= 16 {
            return Err(Fault::MemoryFault);
        }
        Ok(Flow::skip_if(!self.keys[k as usize]))
    }

    /// Vx takes the delay timer.
    fn LDVDT(&mut self, x: usize) -> (f: Flow)
        requires
            old(self).wf(),
            x < 16,
        ensures
            final(self).wf(),
            (final(self)@, f) == step_ldvdt(old(self)@, x as int),
    {
        let b: u8 = self.dt;
        self.v.set(x, b);
        Flow::Next
    }

    /// Wait for a key: record the destination register and pause.
    fn PAUSE(&mut self, x: usize) -> (f: Flow)
        requires
            old(self).wf(),
            x < 16,
        ensures
            final(self).wf(),
            (final(self)@, f) == step_pause(old(self)@, x as int),
    {
        self.paused = true;
        self.keyv = x as u8;
        Flow::Next
    }

    /// The delay timer takes Vx.
    fn LDDTV(&mut self, x: usize) -> (f: Flow)
        requires
            old(self).wf(),
            x < 16,
        ensures
            final(self).wf(),
            (final(self)@, f) == step_lddtv(old(self)@, x as int),
    {
        self.dt = self.v[x];
        Flow::Next
    }

    /// The sound timer takes Vx.
    fn LDST(&mut self, x: usize) -> (f: Flow)
        requires
            old(self).wf(),
            x < 16,
        ensures
            final(self).wf(),
            (final(self)@, f) == step_ldst(old(self)@, x as int),
    {
        self.st = self.v[x];
        Flow::Next
    }

    /// I += Vx, wrapping at sixteen bits; VF flags a result above 0x0F00.
    fn ADDI(&mut self, x: usize) -> (f: Flow)
        requires
            old(self).wf(),
            x < 16,
        ensures
            final(self).wf(),
            (final(self)@, f) == step_addi(old(self)@, x as int),
    {
        let raw: usize = self.i + self.v[x] as usize;
        let ni: usize = if raw > 0xFFFF {
            raw - 0x10000
        } else {
            raw
        };
        self.i = ni;
        let flag: u8 = if ni > 0x0F00 {
            1
        } else {
            0
        };
        self.v.set(15, flag);
        Flow::Next
    }

    /// I points at the glyph for the digit in Vx.
    fn LDF(&mut self, x: usize) -> (f: Flow)
        requires
            old(self).wf(),
            x < 16,
        ensures
            final(self).wf(),
            (final(self)@, f) == step_ldf(old(self)@, x as int),
    {
        self.i = self.v[x] as usize * 5;
        Flow::Next
    }

    /// The three decimal digits of Vx go to memory at I, I+1, I+2.
    fn LDB(&mut self, x: usize) -> (res: Result<Flow, Fault>)
        requires
            old(self).wf(),
            x < 16,
        ensures
            final(self).wf(),
            (match res {
                Ok(f) => step_ldb(old(self)@, x as int) == Ok::<(State, Flow), Fault>((
                    final(self)@,
                    f,
                )),
                Err(e) => step_ldb(old(self)@, x as int) == Err::<(State, Flow), Fault>(e)
                    && *final(self) == *old(self),
            }),
    {
        if self.i > 4093 {
            return Err(Fault::MemoryFault);
        }
        let b: u8 = self.v[x];
        self.ram.set(self.i, b / 100);
        self.ram.set(self.i + 1, (b % 100) / 10);
        self.ram.set(self.i + 2, b % 10);
        Ok(Flow::Next)
    }

    /// Store V0..Vx to memory at I.
    fn LDIV(&mut self, x: usize) -> (res: Result<Flow, Fault>)
        requires
            old(self).wf(),
            x < 16,
        ensures
            final(self).wf(),
            (match res {
                Ok(f) => step_stregs(old(self)@, x as int) == Ok::<(State, Flow), Fault>((
                    final(self)@,
                    f,
                )),
                Err(e) => step_stregs(old(self)@, x as int) == Err::<(State, Flow), Fault>(e)
                    && *final(self) == *old(self),
            }),
    {
        if self.i + x + 1 > 4096 {
            return Err(Fault::MemoryFault);
        }
        let base: usize = self.i;
        let mut k: usize = 0;
        while k < x + 1
            invariant
                old(self).wf(),
                self.wf(),
                k <= x + 1,
                x < 16,
                base == old(self)@.i,
                base + x + 1 <= 4096,
                self@ == (State { ram: self@.ram, ..old(self)@ }),
                forall|j: int| base <= j < base + k ==> self@.ram[j] == old(self)@.v[j - base],
                forall|j: int|
                    0 <= j < 4096 && !(base <= j < base + k) ==> self@.ram[j] == old(self)@.ram[j],
            decreases x + 1 - k,
        {
            let b: u8 = self.v[k];
            self.ram.set(base + k, b);
            k = k + 1;
        }
        proof {
            assert(self@.ram =~= stored_regs(old(self)@.ram, old(self)@.i as int, old(self)@.v,
            x as int));
        }
        Ok(Flow::Next)
    }

    /// Load V0..Vx from memory at I.
    fn LDVI(&mut self, x: usize) -> (res: Result<Flow, Fault>)
        requires
            old(self).wf(),
            x < 16,
        ensures
            final(self).wf(),
            (match res {
                Ok(f) => step_ldregs(old(self)@, x as int) == Ok::<(State, Flow), Fault>((
                    final(self)@,
                    f,
                )),
                Err(e) => step_ldregs(old(self)@, x as int) == Err::<(State, Flow), Fault>(e)
                    && *final(self) == *old(self),
            }),
    {
        if self.i + x + 1 > 4096 {
            return Err(Fault::MemoryFault);
        }
        let base: usize = self.i;
        let mut k: usize = 0;
        while k < x + 1
            invariant
                old(self).wf(),
                self.wf(),
                k <= x + 1,
                x < 16,
                base == old(self)@.i,
                base + x + 1 <= 4096,
                self@ == (State { v: self@.v, ..old(self)@ }),
                forall|j: int| 0 <= j < k ==> self@.v[j] == old(self)@.ram[base + j],
                forall|j: int| k <= j < 16 ==> self@.v[j] == old(self)@.v[j],
            decreases x + 1 - k,
        {
            let b: u8 = self.ram[base + k];
            self.v.set(k, b);
            k = k + 1;
        }
        proof {
            assert(self@.v =~= loaded_regs(old(self)@.v, old(self)@.ram, old(self)@.i as int,
            x as int));
        }
        Ok(Flow::Next)
    }

    /// Draw an n-row sprite from memory at I, XOR-blitted at (Vx, Vy)
    /// with wrap at both edges; VF records whether any lit pixel went out.
    #[verifier::rlimit(60)]
    fn DRAW(&mut self, x: usize, y: usize, n: usize) -> (res: Result<Flow, Fault>)
        requires
            old(self).wf(),
            x < 16,
            y < 16,
            n < 16,
        ensures
            final(self).wf(),
            (match res {
                Ok(f) => step_draw(old(self)@, x as int, y as int, n as int) == Ok::<
                    (State, Flow),
                    Fault,
                >((final(self)@, f)),
                Err(e) => step_draw(old(self)@, x as int, y as int, n as int) == Err::<
                    (State, Flow),
                    Fault,
                >(e) && *final(self) == *old(self),
            }),
    {
        if n > 0 && self.i + n > 4096 {
            return Err(Fault::MemoryFault);
        }
        let base: usize = self.i;
        let vx: usize = self.v[x] as usize % 64;
        let vy: usize = self.v[y] as usize % 32;
        let ghost gvx: int = vx as int;
        let ghost gvy: int = vy as int;
        let ghost gi: int = base as int;
        let ghost ram0: Seq<u8> = old(self)@.ram;
        let ghost scr0: Seq<u8> = old(self)@.screen;
        let mut collide: u8 = 0;
        let mut row: usize = 0;
        while row < n
            invariant
                old(self).wf(),
                self.wf(),
                x < 16,
                y < 16,
                n < 16,
                row <= n,
                vx < 64,
                vy < 32,
                gvx == vx as int,
                gvy == vy as int,
                gi == base as int,
                gvx == (old(self)@.v[x as int] as int) % 64,
                gvy == (old(self)@.v[y as int] as int) % 32,
                base == old(self)@.i,
                n > 0 ==> base + n <= 4096,
                ram0 == old(self)@.ram,
                scr0 == old(self)@.screen,
                self@ == (State { screen: self@.screen, ..old(self)@ }),
                forall|j: int|
                    0 <= j < 2048 ==> (#[trigger] self@.screen[j]) == pix_after_draw(
                        ram0,
                        gi,
                        gvx,
                        gvy,
                        row as int,
                        scr0,
                        j,
                    ),
                collide == 0 || collide == 1,
                (collide == 1) == draw_collides(ram0, gi, gvx, gvy, row as int, scr0),
            decreases n - row,
        {
            let sprite: u8 = self.ram[base + row];
            let py: usize = if vy + row < 32 {
                vy + row
            } else {
                vy + row - 32
            };
            let mut bit: usize = 0;
            while bit < 8
                invariant
                    old(self).wf(),
                    self.wf(),
                    x < 16,
                    y < 16,
                    n < 16,
                    row < n,
                    bit <= 8,
                    vx < 64,
                    vy < 32,
                    py < 32,
                    gvx == vx as int,
                    gvy == vy as int,
                    gi == base as int,
                    base == old(self)@.i,
                    base + n <= 4096,
                    ram0 == old(self)@.ram,
                    scr0 == old(self)@.screen,
                    sprite == ram0[gi + row],
                    row_of(gvy, py as int) == row as int,
                    self@ == (State { screen: self@.screen, ..old(self)@ }),
                    forall|j: int|
                        0 <= j < 2048 ==> (#[trigger] self@.screen[j]) == (if row_of(gvy, j / 64)
                            < row as int && col_of(gvx, j % 64) < 8 {
                            scr0[j] ^ draw_bit_at(ram0, gi, gvx, gvy, j)
                        } else if row_of(gvy, j / 64) == row as int && col_of(gvx, j % 64)
                            < bit as int {
                            scr0[j] ^ draw_bit_at(ram0, gi, gvx, gvy, j)
                        } else {
                            scr0[j]
                        }),
                    collide == 0 || collide == 1,
                    (collide == 1) == (draw_collides(ram0, gi, gvx, gvy, row as int, scr0)
                        || exists|j: int|
                        0 <= j < 2048 && row_of(gvy, j / 64) == row as int && col_of(gvx, j % 64)
                            < bit as int && draw_bit_at(ram0, gi, gvx, gvy, j) & (#[trigger] scr0[j])
                            == 1),
                decreases 8 - bit,
            {
                let px: usize = if vx + bit < 64 {
                    vx + bit
                } else {
                    vx + bit - 64
                };
                let idx: usize = py * 64 + px;
                proof {
                    lemma_cover_point(gvx, gvy, row as int, bit as int);
                    assert(idx < 2048);
                    assert(idx as int / 64 == py as int && idx as int % 64 == px as int);
                    assert(row_of(gvy, idx as int / 64) == row as int);
                    assert(col_of(gvx, idx as int % 64) == bit as int);
                }
                let sh: u8 = (7 - bit) as u8;
                let src: u8 = (sprite >> sh) & 1;
                let old_p: u8 = self.vram[idx];
                proof {
                    assert(src == draw_bit_at(ram0, gi, gvx, gvy, idx as int));
                    assert(old_p == scr0[idx as int]);
                    assert(old_p <= 1);
                    assert(src <= 1) by (bit_vector)
                        requires
                            src == (sprite >> sh) & 1,
                    ;
                    assert((old_p ^ src) <= 1 && (src & old_p) <= 1) by (bit_vector)
                        requires
                            src <= 1 && old_p <= 1,
                    ;
                    assert(((collide | (src & old_p)) == 1 <==> (collide == 1 || (src & old_p)
                        == 1)) && (collide | (src & old_p)) <= 1) by (bit_vector)
                        requires
                            collide <= 1 && src <= 1 && old_p <= 1,
                    ;
                }
                let ghost collide_pre: u8 = collide;
                collide = collide | (src & old_p);
                self.vram.set(idx, old_p ^ src);
                proof {
                    if src & old_p == 1 {
                        assert(draw_bit_at(ram0, gi, gvx, gvy, idx as int) & scr0[idx as int]
                            == 1);
                        assert(collide == 1);
                    } else {
                        if collide_pre == 0 {
                            assert forall|j: int|
                                0 <= j < 2048 && row_of(gvy, j / 64) == row as int && col_of(
                                    gvx,
                                    j % 64,
                                ) < bit as int + 1 implies !(draw_bit_at(ram0, gi, gvx, gvy, j) & (
                            #[trigger] scr0[j]) == 1) by {
                                if col_of(gvx, j % 64) == bit as int {
                                    lemma_cover_unique(gvx, gvy, j, py as int, px as int);
                                }
                            }
                        }
                    }
                    assert forall|j: int| 0 <= j < 2048 implies (#[trigger] self@.screen[j]) == (
                    if row_of(gvy, j / 64) < row as int && col_of(gvx, j % 64) < 8 {
                        scr0[j] ^ draw_bit_at(ram0, gi, gvx, gvy, j)
                    } else if row_of(gvy, j / 64) == row as int && col_of(gvx, j % 64) < bit as int
                        + 1 {
                        scr0[j] ^ draw_bit_at(ram0, gi, gvx, gvy, j)
                    } else {
                        scr0[j]
                    }) by {
                        if j != idx as int && row_of(gvy, j / 64) == row as int && col_of(
                            gvx,
                            j % 64,
                        ) == bit as int {
                            lemma_cover_unique(gvx, gvy, j, py as int, px as int);
                        }
                    }
                }
                bit = bit + 1;
            }
            row = row + 1;
        }
        let flag: u8 = if collide > 0 {
            1
        } else {
            0
        };
        self.v.set(15, flag);
        self.screen_refresh = true;
        proof {
            assert(self@.screen =~= draw_screen(ram0, gi, gvx, gvy, n as int, scr0));
            assert(self@.v =~= old(self)@.v.update(
                15,
                if draw_collides(ram0, gi, gvx, gvy, n as int, scr0) {
                    1u8
                } else {
                    0u8
                },
            ));
        }
        Ok(Flow::Next)
    }

    /// An unrecognised instruction word: advance and do nothing else.
    fn unknown_opcode(&mut self, opcode: u16) -> (f: Flow)
        requires
            old(self).wf(),
        ensures
            final(self).wf(),
            (final(self)@, f) == step_unknown(old(self)@),
    {
        Flow::Next
    }

    /// The big-endian instruction word under the program counter.
    fn fetch(&self) -> (op: u16)
        requires
            self.wf(),
            self@.pc + 1 < 4096,
        ensures
            op == fetch16(self@.ram, self@.pc as int),
    {
        ((self.ram[self.pc] as u16) << 8u16) | (self.ram[self.pc + 1] as u16)
    }

    /// Decode one instruction word, run its handler, and apply the flow
    /// directive to the program counter. Dispatch is total.
    #[verifier::rlimit(80)]
    fn execute(&mut self, op: u16, r: u8) -> (res: Result<(), Fault>)
        requires
            old(self).wf(),
            old(self)@.pc + 1 < 4096,
        ensures
            final(self).wf(),
            (match res {
                Ok(u) => spec_step(old(self)@, op, r) == (final(self)@, None::<Fault>),
                Err(e) => spec_step(old(self)@, op, r) == (final(self)@, Some(e)),
            }),
    {
        let n1: u8 = ((op >> 12u16) & 0xF) as u8;
        let n2: u8 = ((op >> 8u16) & 0xF) as u8;
        let n3: u8 = ((op >> 4u16) & 0xF) as u8;
        let n4: u8 = (op & 0xF) as u8;
        let nnn: usize = (op & 0x0FFF) as usize;
        let kk: u8 = (op & 0x00FF) as u8;
        let x: usize = n2 as usize;
        let y: usize = n3 as usize;
        let n: usize = n4 as usize;
        proof {
            lemma_field_bounds(op);
        }
        let flow: Flow = match (n1, n2, n3, n4) {
            (0x0, 0x0, 0xE, 0x0) => self.CLS(),
            (0x0, 0x0, 0xE, 0xE) => match self.RET() {
                Ok(f) => f,
                Err(e) => {
                    return Err(e);
                },
            },
            (0x1, _, _, _) => self.JP(nnn),
            (0x2, _, _, _) => match self.CALL(nnn) {
                Ok(f) => f,
                Err(e) => {
                    return Err(e);
                },
            },
            (0x3, _, _, _) => self.SE(x, kk),
            (0x4, _, _, _) => self.SNE(x, kk),
            (0x5, _, _, _) => self.SEV(x, y),
            (0x6, _, _, _) => self.LD(x, kk),
            (0x7, _, _, _) => self.ADD(x, kk),
            (0x8, _, _, 0x0) => self.LDV(x, y),
            (0x8, _, _, 0x1) => self.OR(x, y),
            (0x8, _, _, 0x2) => self.AND(x, y),
            (0x8, _, _, 0x3) => self.XOR(x, y),
            (0x8, _, _, 0x4) => self.ADDV(x, y),
            (0x8, _, _, 0x5) => self.SUB(x, y),
            (0x8, _, _, 0x6) => self.SHR(x),
            (0x8, _, _, 0x7) => self.SUBN(x, y),
            (0x8, _, _, 0xE) => self.SHL(x),
            (0x9, _, _, 0x0) => self.SNEV(x, y),
            (0xA, _, _, _) => self.LDI(nnn),
            (0xB, _, _, _) => self.JPV(nnn),
            (0xC, _, _, _) => self.RAND(x, kk, r),
            (0xD, _, _, _) => match self.DRAW(x, y, n) {
                Ok(f) => f,
                Err(e) => {
                    return Err(e);
                },
            },
            (0xE, _, 0x9, 0xE) => match self.SKP(x) {
                Ok(f) => f,
                Err(e) => {
                    return Err(e);
                },
            },
            (0xE, _, 0xA, 0x1) => match self.SKNP(x) {
                Ok(f) => f,
                Err(e) => {
                    return Err(e);
                },
            },
            (0xF, _, 0x0, 0x7) => self.LDVDT(x),
            (0xF, _, 0x0, 0xA) => self.PAUSE(x),
            (0xF, _, 0x1, 0x5) => self.LDDTV(x),
            (0xF, _, 0x1, 0x8) => self.LDST(x),
            (0xF, _, 0x1, 0xE) => self.ADDI(x),
            (0xF, _, 0x2, 0x9) => self.LDF(x),
            (0xF, _, 0x3, 0x3) => match self.LDB(x) {
                Ok(f) => f,
                Err(e) => {
                    return Err(e);
                },
            },
            (0xF, _, 0x5, 0x5) => match self.LDIV(x) {
                Ok(f) => f,
                Err(e) => {
                    return Err(e);
                },
            },
            (0xF, _, 0x6, 0x5) => match self.LDVI(x) {
                Ok(f) => f,
                Err(e) => {
                    return Err(e);
                },
            },
            _ => self.unknown_opcode(op),
        };
        match flow {
            Flow::Next => {
                self.pc = self.pc + 2;
            },
            Flow::Skip => {
                self.pc = self.pc + 4;
            },
            Flow::Jump(a) => {
                self.pc = a;
            },
        }
        Ok(())
    }

    /// A copy of the display buffer.
    fn snapshot(&self) -> (s: Vec<u8>)
        requires
            self.wf(),
        ensures
            s@ == self@.screen,
    {
        let mut s: Vec<u8> = Vec::new();
        let mut j: usize = 0;
        while j < 2048
            invariant
                self.wf(),
                j <= 2048,
                s.len() == j,
                forall|k: int| 0 <= k < j ==> s@[k] == self@.screen[k],
            decreases 2048 - j,
        {
            s.push(self.vram[j]);
            j = j + 1;
        }
        proof {
            assert(s@ =~= self@.screen);
        }
        s
    }

    /// One tick driven by a given byte for the random instruction: the
    /// key flags are replaced, the dirty mark cleared, both timers step
    /// down; a waiting machine scans for the lowest pressed key; a running
    /// machine fetches and executes one instruction. The result and the
    /// new state are exactly those of the abstract transition.
    pub fn tick_with_byte(&mut self, keys: [bool; 16], r: u8) -> (res: Result<CpuOutput, Fault>)
        requires
            old(self).wf(),
        ensures
            final(self).wf(),
            (spec_tick(old(self)@, keys@, r) == (final(self)@, tick_res_view(res))),
    {
        self.keys = keys;
        self.screen_refresh = false;
        if self.dt > 0 {
            self.dt = self.dt - 1;
        }
        if self.st > 0 {
            self.st = self.st - 1;
        }
        proof {
            assert(self@ == (State {
                keys: keys@,
                dirty: false,
                dt: timer_step(old(self)@.dt),
                st: timer_step(old(self)@.st),
                ..old(self)@
            }));
        }
        if self.paused {
            let mut k: usize = 0;
            while k < 16 && !keys[k]
                invariant
                    k <= 16,
                    forall|j: int| 0 <= j < k ==> !keys@[j],
                decreases 16 - k,
            {
                k = k + 1;
            }
            if k < 16 {
                self.paused = false;
                let kv: usize = self.keyv as usize;
                self.v.set(kv, k as u8);
                proof {
                    lemma_first_pressed(keys@, k as int);
                }
            } else {
                proof {
                    lemma_none_pressed(keys@);
                }
            }
        } else {
            if self.pc >= 4095 {
                return Err(Fault::MemoryFault);
            }
            let op: u16 = self.fetch();
            match self.execute(op, r) {
                Ok(u) => {},
                Err(e) => {
                    return Err(e);
                },
            }
        }
        let snap: Option<Vec<u8>> = if self.screen_refresh {
            Some(self.snapshot())
        } else {
            None
        };
        let out = CpuOutput { screen: snap, sound: self.st > 0 };
        Ok(out)
    }

    /// The value of register Vx.
    pub fn reg(&self, x: usize) -> (b: u8)
        requires
            self.wf(),
            x < 16,
        ensures
            b == self@.v[x as int],
    {
        self.v[x]
    }

    /// The program counter.
    pub fn pc(&self) -> (p: usize)
        ensures
            p == self@.pc,
    {
        self.pc
    }

    /// The index register.
    pub fn index_reg(&self) -> (p: usize)
        ensures
            p == self@.i,
    {
        self.i
    }

    /// The delay timer.
    pub fn delay_timer(&self) -> (t: u8)
        ensures
            t == self@.dt,
    {
        self.dt
    }

    /// The sound timer.
    pub fn sound_timer(&self) -> (t: u8)
        ensures
            t == self@.st,
    {
        self.st
    }

    /// The byte at a memory address.
    pub fn mem(&self, addr: usize) -> (b: u8)
        requires
            self.wf(),
            addr < 4096,
        ensures
            b == self@.ram[addr as int],
    {
        self.ram[addr]
    }

    /// The pixel at column `px`, row `py`: 0 or 1.
    pub fn pixel(&self, px: usize, py: usize) -> (b: u8)
        requires
            self.wf(),
            px < 64,
            py < 32,
        ensures
            b == self@.screen[py as int * 64 + px as int],
    {
        self.vram[py * 64 + px]
    }

    /// Whether the machine is waiting for a key.
    pub fn waiting(&self) -> (w: bool)
        ensures
            w == self@.waiting,
    {
        self.paused
    }

    /// How many return addresses are held.
    pub fn stack_depth(&self) -> (d: usize)
        requires
            self.wf(),
        ensures
            d == self@.stack.len(),
    {
        self.sp
    }

    /// One tick as the driver calls it: like [`Cpu::tick_with_byte`], with
    /// the byte for the random instruction drawn from the outside. The
    /// transition is that of the abstract tick for some byte.
    pub fn tick(&mut self, keys: [bool; 16]) -> (res: Result<CpuOutput, Fault>)
        requires
            old(self).wf(),
        ensures
            final(self).wf(),
            exists|r: u8|
                (#[trigger] spec_tick(old(self)@, keys@, r)) == (final(self)@, tick_res_view(res)),
    {
        let r: u8 = random_byte();
        let res = self.tick_with_byte(keys, r);
        proof {
            assert(spec_tick(old(self)@, keys@, r) == (self@, tick_res_view(res)));
        }
        res
    }
}

/// Relies on rand::thread_rng and rand::Rng::gen: one byte from the
/// thread-local generator. Nothing is assumed of the value.
#[verifier::external_body]
fn random_byte() -> u8 {
    rand::thread_rng().gen::<u8>()
}

} // verus!
