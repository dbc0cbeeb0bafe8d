//! The machine state and the semantics of one fetch-decode-execute step.
use crate::instruction::{decode, decode_spec, Instruction};
use crate::random::{entropy_rng, random_byte, seeded_rng};
use rand::rngs::StdRng;
use vstd::prelude::*;

verus! {

/// Bytes of addressable memory.
pub const MEM_SIZE: usize = 4096;
/// Width of the framebuffer in pixels.
pub const SCREEN_WIDTH: usize = 64;
/// Height of the framebuffer in pixels.
pub const SCREEN_HEIGHT: usize = 32;
/// Pixels in the framebuffer, stored row by row.
pub const DISPLAY_SIZE: usize = 2048;
/// General-purpose registers; the last one doubles as the flag register.
pub const NUM_REGS: usize = 16;
/// Return-address slots of the call stack.
pub const STACK_SIZE: usize = 16;
/// Address at which programs are loaded and execution starts.
pub const PC_START: u16 = 0x200;
/// Bytes of the built-in hexadecimal font, stored from address 0.
pub const FONT_SIZE: usize = 80;
/// The longest program that fits between `PC_START` and the end of memory.
pub const MAX_PROGRAM_LEN: usize = 3584;

/// The built-in font: five rows of pixels for each hexadecimal digit.
pub open spec fn font() -> Seq<u8> {
    seq![
        0xF0u8, 0x90, 0x90, 0x90, 0xF0, // 0
        0x20, 0x60, 0x20, 0x20, 0x70, // 1
        0xF0, 0x10, 0xF0, 0x80, 0xF0, // 2
        0xF0, 0x10, 0xF0, 0x10, 0xF0, // 3
        0x90, 0x90, 0xF0, 0x10, 0x10, // 4
        0xF0, 0x80, 0xF0, 0x10, 0xF0, // 5
        0xF0, 0x80, 0xF0, 0x90, 0xF0, // 6
        0xF0, 0x10, 0x20, 0x40, 0x40, // 7
        0xF0, 0x90, 0xF0, 0x90, 0xF0, // 8
        0xF0, 0x90, 0xF0, 0x10, 0xF0, // 9
        0xF0, 0x90, 0xF0, 0x90, 0x90, // A
        0xE0, 0x90, 0xE0, 0x90, 0xE0, // B
        0xF0, 0x80, 0x80, 0x80, 0xF0, // C
        0xE0, 0x90, 0x90, 0x90, 0xE0, // D
        0xF0, 0x80, 0xF0, 0x80, 0xF0, // E
        0xF0, 0x80, 0xF0, 0x80, 0x80, // F
    ]
}

/// A fault raised by a step; the step that raises it changes nothing.
#[derive(Clone, Copy, Debug, PartialEq, Eq, Structural)]
pub enum Fault {
    /// A call while all stack slots are in use.
    StackOverflow,
    /// A return while the stack is empty.
    StackUnderflow,
    /// An instruction fetch, sprite read, digit store or register block copy
    /// that would reach past the end of memory.
    OutOfBounds,
}

/// A program too long to fit between `PC_START` and the end of memory.
#[derive(Clone, Copy, Debug, PartialEq, Eq, Structural)]
pub struct LoadError {
    /// The length of the rejected program.
    pub len: usize,
}

/// The mathematical state of a machine (the random generator aside).
#[verifier::ext_equal]
pub struct Chip8View {
    pub memory: Seq<u8>,
    pub v: Seq<u8>,
    pub i: u16,
    pub dt: u8,
    pub st: u8,
    pub pc: u16,
    pub sp: u8,
    pub stack: Seq<u16>,
    pub keyboard: u16,
    /// Pixels row by row: pixel (x, y) is at `y * 64 + x`.
    pub display: Seq<bool>,
}

/// `a + b` modulo 2^16.
pub open spec fn add16(a: int, b: int) -> u16 {
    ((a + b) % 0x10000) as u16
}

/// Bit `7 - c` of a sprite row: the pixel in column `c`, leftmost first.
pub open spec fn sprite_bit(row: u8, c: u8) -> bool {
    (row >> ((7 - c) as u8)) & 1u8 == 1u8
}

/// Whether key `k` is set in the keyboard mask; no key exists beyond 15.
pub open spec fn key_pressed(keyboard: u16, k: u8) -> bool {
    k < 16 && (keyboard >> (k as u16)) & 1u16 == 1u16
}

/// The lowest pressed key at or above `k`, or 16 when there is none.
pub open spec fn lowest_key_from(keyboard: u16, k: int) -> int
    decreases 16 - k,
{
    if k >= 16 {
        16
    } else if key_pressed(keyboard, k as u8) {
        k
    } else {
        lowest_key_from(keyboard, k + 1)
    }
}

/// The lowest pressed key, or 16 when no key is pressed.
pub open spec fn lowest_key(keyboard: u16) -> int {
    lowest_key_from(keyboard, 0)
}

impl Chip8View {
    /// Every array has its fixed size and the stack pointer is at most 16.
    pub open spec fn wf(self) -> bool {
        &&& self.memory.len() == MEM_SIZE
        &&& self.v.len() == NUM_REGS
        &&& self.stack.len() == STACK_SIZE
        &&& self.display.len() == DISPLAY_SIZE
        &&& self.sp <= 16
    }

    pub open spec fn pixel(self, x: int, y: int) -> bool {
        self.display[y * 64 + x]
    }

    pub open spec fn with_reg(self, x: int, val: u8) -> Chip8View {
        Chip8View { v: self.v.update(x, val), ..self }
    }

    pub open spec fn with_pc(self, pc: u16) -> Chip8View {
        Chip8View { pc, ..self }
    }

    pub open spec fn with_index(self, i: u16) -> Chip8View {
        Chip8View { i, ..self }
    }

    /// Skips the next instruction when `cond` holds.
    pub open spec fn skip_if(self, cond: bool) -> Chip8View {
        if cond {
            self.with_pc(add16(self.pc as int, 2))
        } else {
            self
        }
    }

    /// Whether the sprite of `n` rows read from memory at I, drawn at
    /// (vx, vy) with wraparound, has a set bit over pixel (px, py).
    pub open spec fn sprite_covers(self, vx: int, vy: int, n: int, px: int, py: int) -> bool {
        let c = (px - vx) % 64;
        let r = (py - vy) % 32;
        c < 8 && r < n && sprite_bit(self.memory[self.i + r], c as u8)
    }

    /// Whether drawing the sprite turns off a pixel that was on.
    pub open spec fn sprite_collides(self, vx: int, vy: int, n: int) -> bool {
        exists|p: int|
            0 <= p < 2048 && #[trigger] self.sprite_covers(vx, vy, n, p % 64, p / 64)
                && self.display[p]
    }

    /// The state after XOR-drawing the sprite, with the flag register
    /// telling whether a pixel was turned off.
    pub open spec fn draw(self, vx: int, vy: int, n: int) -> Chip8View {
        let display = Seq::new(
            2048,
            |p: int|
                if self.sprite_covers(vx, vy, n, p % 64, p / 64) {
                    !self.display[p]
                } else {
                    self.display[p]
                },
        );
        Chip8View { display, ..self }.with_reg(15, if self.sprite_collides(vx, vy, n) { 1 } else { 0 })
    }

    /// Memory with `src` written from address I on.
    pub open spec fn stored(self, src: Seq<u8>) -> Seq<u8> {
        Seq::new(
            4096,
            |a: int|
                if self.i <= a < self.i + src.len() {
                    src[a - self.i]
                } else {
                    self.memory[a]
                },
        )
    }

    /// The opcode at PC, big-endian, when both of its bytes lie in memory.
    pub open spec fn fetch(self) -> Option<u16> {
        if self.pc + 1 < 4096 {
            Some((self.memory[self.pc as int] * 256 + self.memory[self.pc + 1]) as u16)
        } else {
            None
        }
    }
}

/// The result of executing `ins` on `m` (after the fetch has advanced PC),
/// with `rnd` as the byte the random source gives.
pub open spec fn exec_spec(m: Chip8View, ins: Instruction, rnd: u8) -> Result<Chip8View, Fault> {
    match ins {
        Instruction::ClearScreen => Ok(Chip8View { display: Seq::new(2048, |p: int| false), ..m }),
        Instruction::Return => if m.sp == 0 {
            Err(Fault::StackUnderflow)
        } else {
            Ok(Chip8View { sp: (m.sp - 1) as u8, pc: m.stack[m.sp - 1], ..m })
        },
        Instruction::Jump { addr } => Ok(m.with_pc(addr)),
        Instruction::Call { addr } => if m.sp >= 16 {
            Err(Fault::StackOverflow)
        } else {
            Ok(
                Chip8View {
                    stack: m.stack.update(m.sp as int, m.pc),
                    sp: (m.sp + 1) as u8,
                    pc: addr,
                    ..m
                },
            )
        },
        Instruction::SkipEqImm { x, kk } => Ok(m.skip_if(m.v[x as int] == kk)),
        Instruction::SkipNeImm { x, kk } => Ok(m.skip_if(m.v[x as int] != kk)),
        Instruction::SkipEqReg { x, y } => Ok(m.skip_if(m.v[x as int] == m.v[y as int])),
        Instruction::SkipNeReg { x, y } => Ok(m.skip_if(m.v[x as int] != m.v[y as int])),
        Instruction::LoadImm { x, kk } => Ok(m.with_reg(x as int, kk)),
        Instruction::AddImm { x, kk } => Ok(m.with_reg(x as int, ((m.v[x as int] + kk) % 256) as u8)),
        Instruction::Move { x, y } => Ok(m.with_reg(x as int, m.v[y as int])),
        Instruction::Or { x, y } => Ok(m.with_reg(x as int, m.v[x as int] | m.v[y as int])),
        Instruction::And { x, y } => Ok(m.with_reg(x as int, m.v[x as int] & m.v[y as int])),
        Instruction::Xor { x, y } => Ok(m.with_reg(x as int, m.v[x as int] ^ m.v[y as int])),
        Instruction::AddCarry { x, y } => {
            let s = m.v[x as int] + m.v[y as int];
            Ok(m.with_reg(x as int, (s % 256) as u8).with_reg(15, if s > 255 { 1 } else { 0 }))
        },
        Instruction::Sub { x, y } => {
            let (a, b) = (m.v[x as int], m.v[y as int]);
            Ok(m.with_reg(x as int, ((a - b) % 256) as u8).with_reg(15, if a >= b { 1 } else { 0 }))
        },
        Instruction::SubReverse { x, y } => {
            let (a, b) = (m.v[y as int], m.v[x as int]);
            Ok(m.with_reg(x as int, ((a - b) % 256) as u8).with_reg(15, if a >= b { 1 } else { 0 }))
        },
        Instruction::ShiftRight { x } => {
            let a = m.v[x as int];
            Ok(m.with_reg(x as int, a / 2).with_reg(15, a % 2))
        },
        Instruction::ShiftLeft { x } => {
            let a = m.v[x as int];
            Ok(m.with_reg(x as int, ((a * 2) % 256) as u8).with_reg(15, a / 128))
        },
        Instruction::LoadIndex { addr } => Ok(m.with_index(addr)),
        Instruction::JumpOffset { addr } => Ok(m.with_pc((addr + m.v[0]) as u16)),
        Instruction::Random { x, kk } => Ok(m.with_reg(x as int, rnd & kk)),
        Instruction::Draw { x, y, n } => if m.i + n > 4096 {
            Err(Fault::OutOfBounds)
        } else {
            Ok(m.draw(m.v[x as int] as int, m.v[y as int] as int, n as int))
        },
        Instruction::SkipKey { x } => Ok(m.skip_if(key_pressed(m.keyboard, m.v[x as int]))),
        Instruction::SkipNotKey { x } => Ok(m.skip_if(!key_pressed(m.keyboard, m.v[x as int]))),
        Instruction::ReadDelay { x } => Ok(m.with_reg(x as int, m.dt)),
        Instruction::WaitKey { x } => if lowest_key(m.keyboard) < 16 {
            Ok(m.with_reg(x as int, lowest_key(m.keyboard) as u8))
        } else {
            Ok(m.with_pc(add16(m.pc as int, 0x10000 - 2)))
        },
        Instruction::SetDelay { x } => Ok(Chip8View { dt: m.v[x as int], ..m }),
        Instruction::SetSound { x } => Ok(Chip8View { st: m.v[x as int], ..m }),
        Instruction::AddIndex { x } => Ok(m.with_index(add16(m.i as int, m.v[x as int] as int))),
        Instruction::FontGlyph { x } => Ok(m.with_index((m.v[x as int] * 5) as u16)),
        Instruction::StoreBcd { x } => if m.i + 3 > 4096 {
            Err(Fault::OutOfBounds)
        } else {
            let d = m.v[x as int];
            Ok(Chip8View { memory: m.stored(seq![d / 100, (d / 10) % 10, d % 10]), ..m })
        },
        Instruction::StoreRegs { x } => if m.i + x + 1 > 4096 {
            Err(Fault::OutOfBounds)
        } else {
            Ok(Chip8View { memory: m.stored(m.v.subrange(0, x + 1)), ..m })
        },
        Instruction::LoadRegs { x } => if m.i + x + 1 > 4096 {
            Err(Fault::OutOfBounds)
        } else {
            Ok(
                Chip8View {
                    v: Seq::new(16, |r: int| if r <= x { m.memory[m.i + r] } else { m.v[r] }),
                    ..m
                },
            )
        },
        Instruction::Unknown { .. } => Ok(m),
    }
}

/// Whether the next step on `m` executes the random-AND instruction.
pub open spec fn draws_random(m: Chip8View) -> bool {
    match m.fetch() {
        Some(op) => decode_spec(op) is Random,
        None => false,
    }
}

/// The result of one fetch-decode-execute step on `m`: a fetch that would
/// read past memory faults; otherwise PC advances by 2 before execution.
pub open spec fn step_spec(m: Chip8View, rnd: u8) -> Result<Chip8View, Fault> {
    match m.fetch() {
        None => Err(Fault::OutOfBounds),
        Some(op) => exec_spec(m.with_pc((m.pc + 2) as u16), decode_spec(op), rnd),
    }
}

/// Whether a call that returned `r`, taking the machine from `pre` to `post`,
/// did what `expected` says: on success the new state, on a fault the same
/// fault and no change at all.
pub open spec fn outcome(
    pre: Chip8View,
    post: Chip8View,
    r: Result<(), Fault>,
    expected: Result<Chip8View, Fault>,
) -> bool {
    match expected {
        Ok(m) => r is Ok && post == m,
        Err(f) => r == Err::<(), Fault>(f) && post == pre,
    }
}

/// The state of a freshly constructed machine.
pub open spec fn initial_view() -> Chip8View {
    Chip8View {
        memory: Seq::new(4096, |a: int| if a < 80 { font()[a] } else { 0u8 }),
        v: Seq::new(16, |r: int| 0u8),
        i: 0,
        dt: 0,
        st: 0,
        pc: 0x200,
        sp: 0,
        stack: Seq::new(16, |r: int| 0u16),
        keyboard: 0,
        display: Seq::new(2048, |p: int| false),
    }
}

/// A CHIP-8 machine: memory, registers, timers, call stack, keyboard mask,
/// framebuffer, and the random generator used by the random-AND instruction.
pub struct Chip8 {
    memory: Vec<u8>,
    v_regs: Vec<u8>,
    i: u16,
    dt: u8,
    st: u8,
    pc: u16,
    sp: u8,
    stack: Vec<u16>,
    keyboard: u16,
    display: Vec<bool>,
    rng: StdRng,
}

impl View for Chip8 {
    type V = Chip8View;

    closed spec fn view(&self) -> Chip8View {
        Chip8View {
            memory: self.memory@,
            v: self.v_regs@,
            i: self.i,
            dt: self.dt,
            st: self.st,
            pc: self.pc,
            sp: self.sp,
            stack: self.stack@,
            keyboard: self.keyboard,
            display: self.display@,
        }
    }
}

/// A vector of `n` copies of `val`.
fn filled<T: Copy>(n: usize, val: T) -> (r: Vec<T>)
    ensures
        r@ == Seq::new(n as nat, |k: int| val),
{
    let mut r: Vec<T> = Vec::new();
    let mut k: usize = 0;
    while k < n
        invariant
            k <= n,
            r@ == Seq::new(k as nat, |j: int| val),
        decreases n - k,
    {
        r.push(val);
        k = k + 1;
        assert(r@ =~= Seq::new(k as nat, |j: int| val));
    }
    r
}

/// Fresh memory: the font from address 0, zeroes elsewhere.
fn initial_memory() -> (r: Vec<u8>)
    ensures
        r@ == initial_view().memory,
{
    let glyphs: [u8; 80] = [
        0xF0, 0x90, 0x90, 0x90, 0xF0, 0x20, 0x60, 0x20, 0x20, 0x70, 0xF0, 0x10, 0xF0, 0x80, 0xF0,
        0xF0, 0x10, 0xF0, 0x10, 0xF0, 0x90, 0x90, 0xF0, 0x10, 0x10, 0xF0, 0x80, 0xF0, 0x10, 0xF0,
        0xF0, 0x80, 0xF0, 0x90, 0xF0, 0xF0, 0x10, 0x20, 0x40, 0x40, 0xF0, 0x90, 0xF0, 0x90, 0xF0,
        0xF0, 0x90, 0xF0, 0x10, 0xF0, 0xF0, 0x90, 0xF0, 0x90, 0x90, 0xE0, 0x90, 0xE0, 0x90, 0xE0,
        0xF0, 0x80, 0x80, 0x80, 0xF0, 0xE0, 0x90, 0x90, 0x90, 0xE0, 0xF0, 0x80, 0xF0, 0x80, 0xF0,
        0xF0, 0x80, 0xF0, 0x80, 0x80,
    ];
    assert(glyphs@ =~= font());
    let mut r = filled(MEM_SIZE, 0u8);
    let mut k: usize = 0;
    while k < FONT_SIZE
        invariant
            k <= FONT_SIZE,
            glyphs@ == font(),
            r@.len() == MEM_SIZE,
            forall|a: int| 0 <= a < MEM_SIZE ==> #[trigger] r@[a] == (if a < k { font()[a] } else { 0u8 }),
        decreases FONT_SIZE - k,
    {
        r.set(k, glyphs[k]);
        k = k + 1;
    }
    assert(r@ =~= initial_view().memory);
    r
}

impl Chip8 {
    /// Well-formedness: see `Chip8View::wf`.
    pub open spec fn wf(&self) -> bool {
        self@.wf()
    }

    fn with_rng(rng: StdRng) -> (r: Chip8)
        ensures
            r.wf(),
            r@ == initial_view(),
    {
        let r = Chip8 {
            memory: initial_memory(),
            v_regs: filled(NUM_REGS, 0u8),
            i: 0,
            dt: 0,
            st: 0,
            pc: PC_START,
            sp: 0,
            stack: filled(STACK_SIZE, 0u16),
            keyboard: 0,
            display: filled(DISPLAY_SIZE, false),
            rng,
        };
        assert(r@ =~= initial_view());
        r
    }

    /// A fresh machine: font at address 0, all else zero, PC at `PC_START`,
    /// with a random generator seeded from the operating system.
    pub fn new() -> (r: Chip8)
        ensures
            r.wf(),
            r@ == initial_view(),
    {
        Chip8::with_rng(entropy_rng())
    }

    /// A fresh machine as `new` builds it, whose random generator is
    /// seeded from `seed`, so that runs can be repeated.
    pub fn with_seed(seed: u64) -> (r: Chip8)
        ensures
            r.wf(),
            r@ == initial_view(),
    {
        Chip8::with_rng(seeded_rng(seed))
    }

    /// Copies `rom_data` into memory from `PC_START` on. A program longer
    /// than `MAX_PROGRAM_LEN` is rejected and memory is left unchanged.
    pub fn load_rom_data(&mut self, rom_data: &[u8]) -> (r: Result<(), LoadError>)
        requires
            old(self).wf(),
        ensures
            final(self).wf(),
            rom_data@.len() > MAX_PROGRAM_LEN ==> r == Err::<(), LoadError>(LoadError { len: rom_data@.len() as usize })
                && final(self)@ == old(self)@,
            rom_data@.len() <= MAX_PROGRAM_LEN ==> r is Ok && final(self)@ == (Chip8View {
                memory: Seq::new(4096, |a: int|
                    if 0x200 <= a < 0x200 + rom_data@.len() { rom_data@[a - 0x200] } else { old(self)@.memory[a] }),
                ..old(self)@
            }),
    {
        let len = rom_data.len();
        if len > MAX_PROGRAM_LEN {
            return Err(LoadError { len });
        }
        let start = PC_START as usize;
        let mut k: usize = 0;
        while k < len
            invariant
                k <= len,
                len == rom_data@.len(),
                len <= MAX_PROGRAM_LEN,
                start == 0x200,
                self.wf(),
                self@ == (Chip8View { memory: self@.memory, ..old(self)@ }),
                forall|a: int| 0 <= a < MEM_SIZE ==> #[trigger] self@.memory[a] == (
                    if start <= a < start + k { rom_data@[a - start] } else { old(self)@.memory[a] }),
            decreases len - k,
        {
            self.memory.set(start + k, rom_data[k]);
            k = k + 1;
        }
        assert(self@.memory =~= Seq::new(4096, |a: int|
            if 0x200 <= a < 0x200 + rom_data@.len() { rom_data@[a - 0x200] } else { old(self)@.memory[a] }));
        Ok(())
    }

    /// One step of the timer unit: each nonzero timer goes down by one.
    pub fn timer_tick(&mut self)
        requires
            old(self).wf(),
        ensures
            final(self)@ == (Chip8View {
                dt: if old(self)@.dt > 0 { (old(self)@.dt - 1) as u8 } else { 0 },
                st: if old(self)@.st > 0 { (old(self)@.st - 1) as u8 } else { 0 },
                ..old(self)@
            }),
    {
        if self.dt > 0 {
            self.dt = self.dt - 1;
        }
        if self.st > 0 {
            self.st = self.st - 1;
        }
    }

    /// Records that key `idx` was pressed or released.
    pub fn keypress(&mut self, idx: usize, pressed: bool)
        requires
            old(self).wf(),
            idx < 16,
        ensures
            final(self)@ == (Chip8View { keyboard: final(self)@.keyboard, ..old(self)@ }),
            forall|k: u8| k < 16 ==> #[trigger] key_pressed(final(self)@.keyboard, k) == (
                if k as usize == idx { pressed } else { key_pressed(old(self)@.keyboard, k) }),
    {
        let bit: u16 = 1u16 << (idx as u16);
        let old_kb = self.keyboard;
        if pressed {
            self.keyboard = old_kb | bit;
        } else {
            self.keyboard = old_kb & !bit;
        }
        let new_kb = self.keyboard;
        let ghost i = idx as u16;
        assert(forall|k: u16| k < 16 ==> ((new_kb >> k) & 1u16 == 1u16) == (
            if k == i { pressed } else { (old_kb >> k) & 1u16 == 1u16 })) by (bit_vector)
            requires
                i < 16,
                bit == 1u16 << i,
                pressed ==> new_kb == old_kb | bit,
                !pressed ==> new_kb == old_kb & !bit;
    }

    /// The framebuffer, row by row: pixel (x, y) is at `y * 64 + x`.
    pub fn get_display(&self) -> (r: &[bool])
        ensures
            r@ == self@.display,
    {
        self.display.as_slice()
    }
}

/// The column offset within the sprite of framebuffer pixel `p`.
spec fn col_of(vx: int, p: int) -> int {
    (p % 64 - vx) % 64
}

/// The row offset within the sprite of framebuffer pixel `p`.
spec fn row_of(vy: int, p: int) -> int {
    (p / 64 - vy) % 32
}

/// Whether the draw loop, about to visit sprite cell (r, c), has already
/// flipped pixel `p`.
spec fn drawn_before(m: Chip8View, vx: int, vy: int, n: int, p: int, r: int, c: int) -> bool {
    &&& m.sprite_covers(vx, vy, n, p % 64, p / 64)
    &&& (row_of(vy, p) < r || (row_of(vy, p) == r && col_of(vx, p) < c))
}

/// Sprite cell (r, c) drawn at (vx, vy) lands on exactly one pixel, `p`.
proof fn lemma_cell(vx: int, vy: int, r: int, c: int, p: int)
    requires
        0 <= vx < 256,
        0 <= vy < 256,
        0 <= r < 16,
        0 <= c < 8,
        p == ((vy + r) % 32) * 64 + (vx + c) % 64,
    ensures
        0 <= p < 2048,
        p % 64 == (vx + c) % 64,
        p / 64 == (vy + r) % 32,
        col_of(vx, p) == c,
        row_of(vy, p) == r,
        forall|q: int| 0 <= q < 2048 && col_of(vx, q) == c && row_of(vy, q) == r ==> q == p,
{
    assert(p % 64 == (vx + c) % 64 && p / 64 == (vy + r) % 32) by (nonlinear_arith)
        requires
            p == ((vy + r) % 32) * 64 + (vx + c) % 64,
            0 <= (vx + c) % 64 < 64,
            0 <= (vy + r) % 32 < 32,
    ;
    assert forall|q: int| 0 <= q < 2048 && col_of(vx, q) == c && row_of(vy, q) == r implies q == p by {
        assert(q == (q / 64) * 64 + q % 64) by (nonlinear_arith);
        assert(0 <= q / 64 < 32) by (nonlinear_arith) requires 0 <= q < 2048;
    }
}

impl Chip8 {
    fn set_reg(&mut self, x: u8, val: u8)
        requires
            old(self).wf(),
            x < 16,
        ensures
            final(self).wf(),
            final(self)@ == old(self)@.with_reg(x as int, val),
    {
        self.v_regs.set(x as usize, val);
        assert(self@ =~= old(self)@.with_reg(x as int, val));
    }

    fn skip_if(&mut self, cond: bool)
        requires
            old(self).wf(),
        ensures
            final(self).wf(),
            final(self)@ == old(self)@.skip_if(cond),
    {
        if cond {
            self.pc = self.pc.wrapping_add(2);
        }
    }

    /// XOR-draws the `n`-row sprite at memory[I..I+n] at (vx, vy), with
    /// wraparound, and sets the flag register to whether a pixel went off.
    fn draw_sprite(&mut self, vx: u8, vy: u8, n: u8)
        requires
            old(self).wf(),
            old(self)@.i + n <= 4096,
            n < 16,
        ensures
            final(self).wf(),
            final(self)@ == old(self)@.draw(vx as int, vy as int, n as int),
    {
        let ghost m0 = self@;
        let ghost gx: int = vx as int;
        let ghost gy: int = vy as int;
        let ghost gn: int = n as int;
        let base = self.i as usize;
        let mut collided = false;
        let mut r: u8 = 0;
        while r < n
            invariant
                r <= n,
                n < 16,
                base == m0.i,
                base + n <= 4096,
                gx == vx as int && gy == vy as int && gn == n as int,
                m0.wf(),
                self.wf(),
                self@ == (Chip8View { display: self@.display, ..m0 }),
                forall|p: int| 0 <= p < 2048 ==> #[trigger] self@.display[p] == (
                    if drawn_before(m0, gx, gy, gn, p, r as int, 0) { !m0.display[p] } else { m0.display[p] }),
                collided == exists|p: int| 0 <= p < 2048 && #[trigger] drawn_before(m0, gx, gy, gn, p, r as int, 0) && m0.display[p],
            decreases n - r,
        {
            let row = self.memory[base + r as usize];
            let mut c: u8 = 0;
            while c < 8
                invariant
                    r < n,
                    c <= 8,
                    n < 16,
                    base == m0.i,
                    base + n <= 4096,
                    gx == vx as int && gy == vy as int && gn == n as int,
                    row == m0.memory[base + r],
                    m0.wf(),
                    self.wf(),
                    self@ == (Chip8View { display: self@.display, ..m0 }),
                    forall|p: int| 0 <= p < 2048 ==> #[trigger] self@.display[p] == (
                        if drawn_before(m0, gx, gy, gn, p, r as int, c as int) { !m0.display[p] } else { m0.display[p] }),
                    collided == exists|p: int| 0 <= p < 2048 && #[trigger] drawn_before(m0, gx, gy, gn, p, r as int, c as int) && m0.display[p],
                decreases 8 - c,
            {
                let px = ((vx as usize) + (c as usize)) % 64;
                let py = ((vy as usize) + (r as usize)) % 32;
                let p = py * 64 + px;
                proof {
                    lemma_cell(gx, gy, r as int, c as int, p as int);
                }
                let bit = (row >> (7 - c)) & 1 == 1;
                let ghost pre_display = self@.display;
                let ghost pre_collided = collided;
                assert forall|q: int| 0 <= q < 2048 implies
                    (#[trigger] drawn_before(m0, gx, gy, gn, q, r as int, c as int + 1)) == (
                        drawn_before(m0, gx, gy, gn, q, r as int, c as int) || (bit && q == p)) by {
                    if q == p as int {
                        assert(sprite_bit(row, c) == bit);
                    }
                }
                if bit {
                    let old_pixel = self.display[p];
                    if old_pixel {
                        collided = true;
                    }
                    self.display.set(p, !old_pixel);
                    assert(!drawn_before(m0, gx, gy, gn, p as int, r as int, c as int));
                }
                assert(self@ =~= (Chip8View { display: self@.display, ..m0 }));
                proof {
                    if collided {
                        if !pre_collided {
                            assert(drawn_before(m0, gx, gy, gn, p as int, r as int, c as int + 1));
                        } else {
                            let w = choose|q: int| 0 <= q < 2048 && #[trigger] drawn_before(m0, gx, gy, gn, q, r as int, c as int) && m0.display[q];
                            assert(drawn_before(m0, gx, gy, gn, w, r as int, c as int + 1));
                        }
                    } else {
                        assert forall|q: int| 0 <= q < 2048 && #[trigger] drawn_before(m0, gx, gy, gn, q, r as int, c as int + 1) implies !m0.display[q] by {
                            if !drawn_before(m0, gx, gy, gn, q, r as int, c as int) {
                                assert(q == p as int);
                            }
                        }
                    }
                }
                c = c + 1;
            }
            assert forall|q: int| 0 <= q < 2048 implies
                (#[trigger] drawn_before(m0, gx, gy, gn, q, r as int + 1, 0)) == drawn_before(m0, gx, gy, gn, q, r as int, 8) by {
            }
            proof {
                if collided {
                    let w = choose|q: int| 0 <= q < 2048 && #[trigger] drawn_before(m0, gx, gy, gn, q, r as int, 8) && m0.display[q];
                    assert(drawn_before(m0, gx, gy, gn, w, r as int + 1, 0));
                }
            }
            r = r + 1;
        }
        assert forall|q: int| 0 <= q < 2048 implies
            (#[trigger] drawn_before(m0, gx, gy, gn, q, gn, 0)) == m0.sprite_covers(gx, gy, gn, q % 64, q / 64) by {
        }
        proof {
            if collided {
                let w = choose|q: int| 0 <= q < 2048 && #[trigger] drawn_before(m0, gx, gy, gn, q, gn, 0) && m0.display[q];
                assert(m0.sprite_covers(gx, gy, gn, w % 64, w / 64));
            } else {
                assert forall|q: int| 0 <= q < 2048 && #[trigger] m0.sprite_covers(gx, gy, gn, q % 64, q / 64) implies !m0.display[q] by {
                    assert(drawn_before(m0, gx, gy, gn, q, gn, 0));
                }
            }
        }
        let ghost drawn = Chip8View { display: self@.display, ..m0 };
        assert(drawn.display =~= m0.draw(gx, gy, gn).display);
        self.set_reg(15, if collided { 1 } else { 0 });
        assert(self@ =~= m0.draw(gx, gy, gn));
    }

    /// The lowest pressed key, or 16 when no key is pressed.
    fn first_pressed_key(&self) -> (k: u8)
        ensures
            k as int == lowest_key(self@.keyboard),
    {
        let kb = self.keyboard;
        let mut k: u8 = 0;
        while k < 16
            invariant
                k <= 16,
                kb == self@.keyboard,
                lowest_key(kb) == lowest_key_from(kb, k as int),
            decreases 16 - k,
        {
            if (kb >> (k as u16)) & 1 == 1 {
                return k;
            }
            k = k + 1;
        }
        k
    }

    /// Copies V0..=Vx into memory from I on.
    fn store_regs(&mut self, x: u8)
        requires
            old(self).wf(),
            x < 16,
            old(self)@.i + x + 1 <= 4096,
        ensures
            final(self).wf(),
            final(self)@ == (Chip8View { memory: old(self)@.stored(old(self)@.v.subrange(0, x + 1)), ..old(self)@ }),
    {
        let base = self.i as usize;
        let mut r: usize = 0;
        while r <= x as usize
            invariant
                r <= x + 1,
                x < 16,
                base == old(self)@.i,
                base + x + 1 <= 4096,
                self.wf(),
                self@ == (Chip8View { memory: self@.memory, ..old(self)@ }),
                forall|a: int| 0 <= a < 4096 ==> #[trigger] self@.memory[a] == (
                    if base <= a < base + r { old(self)@.v[a - base] } else { old(self)@.memory[a] }),
            decreases x + 1 - r,
        {
            let val = self.v_regs[r];
            self.memory.set(base + r, val);
            r = r + 1;
        }
        assert(self@.memory =~= old(self)@.stored(old(self)@.v.subrange(0, x + 1)));
    }

    /// Loads V0..=Vx from memory from I on.
    fn load_regs(&mut self, x: u8)
        requires
            old(self).wf(),
            x < 16,
            old(self)@.i + x + 1 <= 4096,
        ensures
            final(self).wf(),
            final(self)@ == (Chip8View {
                v: Seq::new(16, |r: int| if r <= x { old(self)@.memory[old(self)@.i + r] } else { old(self)@.v[r] }),
                ..old(self)@
            }),
    {
        let base = self.i as usize;
        let mut r: usize = 0;
        while r <= x as usize
            invariant
                r <= x + 1,
                x < 16,
                base == old(self)@.i,
                base + x + 1 <= 4096,
                self.wf(),
                self@ == (Chip8View { v: self@.v, ..old(self)@ }),
                forall|k: int| 0 <= k < 16 ==> #[trigger] self@.v[k] == (
                    if k < r { old(self)@.memory[base + k] } else { old(self)@.v[k] }),
            decreases x + 1 - r,
        {
            let val = self.memory[base + r];
            self.v_regs.set(r, val);
            r = r + 1;
        }
        assert(self@.v =~= Seq::new(16, |r: int| if r <= x { old(self)@.memory[old(self)@.i + r] } else { old(self)@.v[r] }));
    }

    /// Executes one decoded instruction, with `random` as the byte drawn
    /// for the random-AND instruction. PC is taken as already advanced past
    /// the instruction. A fault changes nothing.
    pub fn execute(&mut self, ins: Instruction, random: u8) -> (r: Result<(), Fault>)
        requires
            old(self).wf(),
            ins.wf(),
        ensures
            final(self).wf(),
            outcome(old(self)@, final(self)@, r, exec_spec(old(self)@, ins, random)),
    {
        match ins {
            Instruction::ClearScreen => {
                self.display = filled(DISPLAY_SIZE, false);
            },
            Instruction::Return => {
                if self.sp == 0 {
                    return Err(Fault::StackUnderflow);
                }
                self.sp = self.sp - 1;
                self.pc = self.stack[self.sp as usize];
            },
            Instruction::Jump { addr } => {
                self.pc = addr;
            },
            Instruction::Call { addr } => {
                if self.sp as usize >= STACK_SIZE {
                    return Err(Fault::StackOverflow);
                }
                let pc = self.pc;
                self.stack.set(self.sp as usize, pc);
                self.sp = self.sp + 1;
                self.pc = addr;
                assert(self@.stack =~= old(self)@.stack.update(old(self)@.sp as int, old(self)@.pc));
            },
            Instruction::SkipEqImm { x, kk } => {
                let cond = self.v_regs[x as usize] == kk;
                self.skip_if(cond);
            },
            Instruction::SkipNeImm { x, kk } => {
                let cond = self.v_regs[x as usize] != kk;
                self.skip_if(cond);
            },
            Instruction::SkipEqReg { x, y } => {
                let cond = self.v_regs[x as usize] == self.v_regs[y as usize];
                self.skip_if(cond);
            },
            Instruction::SkipNeReg { x, y } => {
                let cond = self.v_regs[x as usize] != self.v_regs[y as usize];
                self.skip_if(cond);
            },
            Instruction::LoadImm { x, kk } => {
                self.set_reg(x, kk);
            },
            Instruction::AddImm { x, kk } => {
                let a = self.v_regs[x as usize];
                self.set_reg(x, a.wrapping_add(kk));
            },
            Instruction::Move { x, y } => {
                let b = self.v_regs[y as usize];
                self.set_reg(x, b);
            },
            Instruction::Or { x, y } => {
                let v = self.v_regs[x as usize] | self.v_regs[y as usize];
                self.set_reg(x, v);
            },
            Instruction::And { x, y } => {
                let v = self.v_regs[x as usize] & self.v_regs[y as usize];
                self.set_reg(x, v);
            },
            Instruction::Xor { x, y } => {
                let v = self.v_regs[x as usize] ^ self.v_regs[y as usize];
                self.set_reg(x, v);
            },
            Instruction::AddCarry { x, y } => {
                let sum: u16 = self.v_regs[x as usize] as u16 + self.v_regs[y as usize] as u16;
                self.set_reg(x, (sum % 256) as u8);
                self.set_reg(15, if sum > 255 { 1 } else { 0 });
            },
            Instruction::Sub { x, y } => {
                let a = self.v_regs[x as usize];
                let b = self.v_regs[y as usize];
                self.set_reg(x, a.wrapping_sub(b));
                self.set_reg(15, if a >= b { 1 } else { 0 });
            },
            Instruction::SubReverse { x, y } => {
                let a = self.v_regs[y as usize];
                let b = self.v_regs[x as usize];
                self.set_reg(x, a.wrapping_sub(b));
                self.set_reg(15, if a >= b { 1 } else { 0 });
            },
            Instruction::ShiftRight { x } => {
                let a = self.v_regs[x as usize];
                self.set_reg(x, a >> 1);
                self.set_reg(15, a & 1);
                assert(a >> 1u8 == a / 2 && a & 1u8 == a % 2) by (bit_vector);
            },
            Instruction::ShiftLeft { x } => {
                let a = self.v_regs[x as usize];
                self.set_reg(x, (a % 128) * 2);
                self.set_reg(15, a / 128);
            },
            Instruction::LoadIndex { addr } => {
                self.i = addr;
            },
            Instruction::JumpOffset { addr } => {
                self.pc = addr + self.v_regs[0] as u16;
            },
            Instruction::Random { x, kk } => {
                self.set_reg(x, random & kk);
            },
            Instruction::Draw { x, y, n } => {
                if self.i as usize + n as usize > MEM_SIZE {
                    return Err(Fault::OutOfBounds);
                }
                let vx = self.v_regs[x as usize];
                let vy = self.v_regs[y as usize];
                self.draw_sprite(vx, vy, n);
            },
            Instruction::SkipKey { x } => {
                let k = self.v_regs[x as usize];
                let cond = k < 16 && (self.keyboard >> (k as u16)) & 1 == 1;
                self.skip_if(cond);
            },
            Instruction::SkipNotKey { x } => {
                let k = self.v_regs[x as usize];
                let cond = k < 16 && (self.keyboard >> (k as u16)) & 1 == 1;
                self.skip_if(!cond);
            },
            Instruction::ReadDelay { x } => {
                let d = self.dt;
                self.set_reg(x, d);
            },
            Instruction::WaitKey { x } => {
                let k = self.first_pressed_key();
                if k < 16 {
                    self.set_reg(x, k);
                } else {
                    self.pc = self.pc.wrapping_sub(2);
                }
            },
            Instruction::SetDelay { x } => {
                self.dt = self.v_regs[x as usize];
            },
            Instruction::SetSound { x } => {
                self.st = self.v_regs[x as usize];
            },
            Instruction::AddIndex { x } => {
                self.i = self.i.wrapping_add(self.v_regs[x as usize] as u16);
            },
            Instruction::FontGlyph { x } => {
                self.i = self.v_regs[x as usize] as u16 * 5;
            },
            Instruction::StoreBcd { x } => {
                if self.i as usize + 3 > MEM_SIZE {
                    return Err(Fault::OutOfBounds);
                }
                let d = self.v_regs[x as usize];
                let base = self.i as usize;
                self.memory.set(base, d / 100);
                self.memory.set(base + 1, (d / 10) % 10);
                self.memory.set(base + 2, d % 10);
                assert(self@.memory =~= old(self)@.stored(seq![d / 100, (d / 10) % 10, d % 10]));
            },
            Instruction::StoreRegs { x } => {
                if self.i as usize + x as usize + 1 > MEM_SIZE {
                    return Err(Fault::OutOfBounds);
                }
                self.store_regs(x);
            },
            Instruction::LoadRegs { x } => {
                if self.i as usize + x as usize + 1 > MEM_SIZE {
                    return Err(Fault::OutOfBounds);
                }
                self.load_regs(x);
            },
            Instruction::Unknown { .. } => {},
        }
        Ok(())
    }

    /// The opcode at PC, when both of its bytes lie in memory.
    fn peek_opcode(&self) -> (r: Option<u16>)
        requires
            self.wf(),
        ensures
            r == self@.fetch(),
    {
        let pc = self.pc as usize;
        if pc + 1 >= MEM_SIZE {
            return None;
        }
        let hi = self.memory[pc] as u16;
        let lo = self.memory[pc + 1] as u16;
        Some(hi * 256 + lo)
    }

    /// Reads the opcode at PC and advances PC past it; a fetch that would
    /// read past memory faults and changes nothing.
    fn fetch_opcode(&mut self) -> (r: Result<u16, Fault>)
        requires
            old(self).wf(),
        ensures
            final(self).wf(),
            match r {
                Ok(op) => old(self)@.fetch() == Some(op) && final(self)@ == old(self)@.with_pc((old(self)@.pc + 2) as u16),
                Err(f) => old(self)@.fetch() is None && f == Fault::OutOfBounds && final(self)@ == old(self)@,
            },
    {
        match self.peek_opcode() {
            None => Err(Fault::OutOfBounds),
            Some(op) => {
                self.pc = self.pc + 2;
                Ok(op)
            },
        }
    }

    /// Runs one fetch-decode-execute cycle with `random` as the byte drawn
    /// for the random-AND instruction. A step that faults changes nothing,
    /// PC included.
    pub fn step_with(&mut self, random: u8) -> (r: Result<(), Fault>)
        requires
            old(self).wf(),
        ensures
            final(self).wf(),
            outcome(old(self)@, final(self)@, r, step_spec(old(self)@, random)),
    {
        let pc = self.pc;
        let op = match self.fetch_opcode() {
            Ok(op) => op,
            Err(f) => return Err(f),
        };
        let r = self.execute(decode(op), random);
        if r.is_err() {
            self.pc = pc;
        }
        r
    }

    /// Executes `opcode` as if just fetched (PC is not advanced first),
    /// drawing a byte from the machine's generator for the random-AND
    /// instruction. A fault changes nothing.
    pub fn process_opcode(&mut self, opcode: u16) -> (r: Result<(), Fault>)
        requires
            old(self).wf(),
        ensures
            final(self).wf(),
            exists|rnd: u8| outcome(old(self)@, final(self)@, r, #[trigger] exec_spec(old(self)@, decode_spec(opcode), rnd)),
            !(decode_spec(opcode) is Random) ==> outcome(old(self)@, final(self)@, r, exec_spec(old(self)@, decode_spec(opcode), 0)),
    {
        let ins = decode(opcode);
        let random = match ins {
            Instruction::Random { .. } => random_byte(&mut self.rng),
            _ => 0,
        };
        self.execute(ins, random)
    }

    /// Runs one fetch-decode-execute cycle, drawing a byte from the
    /// machine's generator when the instruction is random-AND. A step that
    /// faults changes nothing, PC included.
    pub fn tick(&mut self) -> (r: Result<(), Fault>)
        requires
            old(self).wf(),
        ensures
            final(self).wf(),
            exists|rnd: u8| outcome(old(self)@, final(self)@, r, #[trigger] step_spec(old(self)@, rnd)),
            !draws_random(old(self)@) ==> outcome(old(self)@, final(self)@, r, step_spec(old(self)@, 0)),
    {
        let random = match self.peek_opcode() {
            Some(op) => match decode(op) {
                Instruction::Random { .. } => random_byte(&mut self.rng),
                _ => 0,
            },
            None => 0,
        };
        self.step_with(random)
    }

    /// The program counter.
    pub fn pc(&self) -> (r: u16)
        ensures
            r == self@.pc,
    {
        self.pc
    }

    /// The stack pointer: how many return addresses are on the stack.
    pub fn sp(&self) -> (r: u8)
        ensures
            r == self@.sp,
    {
        self.sp
    }

    /// The address register I.
    pub fn index(&self) -> (r: u16)
        ensures
            r == self@.i,
    {
        self.i
    }

    /// The delay timer.
    pub fn delay_timer(&self) -> (r: u8)
        ensures
            r == self@.dt,
    {
        self.dt
    }

    /// The sound timer.
    pub fn sound_timer(&self) -> (r: u8)
        ensures
            r == self@.st,
    {
        self.st
    }

    /// The keyboard mask: bit k is set while key k is pressed.
    pub fn keyboard(&self) -> (r: u16)
        ensures
            r == self@.keyboard,
    {
        self.keyboard
    }

    /// The registers V0 to VF.
    pub fn registers(&self) -> (r: &[u8])
        ensures
            r@ == self@.v,
    {
        self.v_regs.as_slice()
    }

    /// The return-address slots of the call stack.
    pub fn stack(&self) -> (r: &[u16])
        ensures
            r@ == self@.stack,
    {
        self.stack.as_slice()
    }

    /// The whole memory.
    pub fn memory(&self) -> (r: &[u8])
        ensures
            r@ == self@.memory,
    {
        self.memory.as_slice()
    }
}

} // verus!
