//! Properties of the step semantics that relate several steps or hold of
//! every state, stated and proved over `step_spec` and `exec_spec`.
use crate::instruction::{decode_spec, Instruction};
use crate::machine::{add16, exec_spec, Fault, key_pressed, lowest_key, lowest_key_from, sprite_bit, step_spec, Chip8View};
use vstd::prelude::*;

verus! {

/// A jump instruction sets PC to its target exactly, from any state: the
/// fetch's advance by 2 is not added on top.
pub proof fn law_jump_sets_pc(m: Chip8View, addr: u16, rnd: u8)
    requires
        m.wf(),
        addr < 0x1000,
        m.fetch() == Some((0x1000 + addr) as u16),
    ensures
        step_spec(m, rnd) == Ok::<Chip8View, Fault>(m.with_pc(addr)),
{
    assert(decode_spec((0x1000 + addr) as u16) == Instruction::Jump { addr });
    assert(m.with_pc((m.pc + 2) as u16).with_pc(addr) =~= m.with_pc(addr));
}

/// A call from PC 0x200 with an empty stack pushes the advanced PC 0x202,
/// sets the stack pointer to 1 and jumps to the target.
pub proof fn law_call_pushes_next_pc(m: Chip8View, addr: u16, rnd: u8)
    requires
        m.wf(),
        addr < 0x1000,
        m.pc == 0x200,
        m.sp == 0,
        m.fetch() == Some((0x2000 + addr) as u16),
    ensures
        step_spec(m, rnd) is Ok,
        step_spec(m, rnd)->Ok_0.sp == 1,
        step_spec(m, rnd)->Ok_0.stack[0] == 0x202,
        step_spec(m, rnd)->Ok_0.pc == addr,
{
    assert(decode_spec((0x2000 + addr) as u16) == Instruction::Call { addr });
}

/// The pixel that column `c` of a sprite drawn at (vx, vy) covers in its
/// first row.
pub open spec fn first_row_pixel(vx: int, vy: int, c: int) -> int {
    (vy % 32) * 64 + (vx + c) % 64
}

/// Pixel `p` lies in the first sprite row drawn at (vx, vy) exactly when it
/// is one of the eight pixels of that row.
proof fn lemma_first_row(m: Chip8View, vx: int, vy: int, p: int)
    requires
        m.wf(),
        0 <= vx < 256,
        0 <= vy < 256,
        0 <= p < 2048,
        m.i + 1 <= 4096,
        m.memory[m.i as int] == 0xFF,
    ensures
        m.sprite_covers(vx, vy, 1, p % 64, p / 64) <==> exists|c: int| 0 <= c < 8 && p == #[trigger] first_row_pixel(vx, vy, c),
{
    let c = (p % 64 - vx) % 64;
    if m.sprite_covers(vx, vy, 1, p % 64, p / 64) {
        assert(p == (p / 64) * 64 + p % 64) by (nonlinear_arith);
        assert(p == first_row_pixel(vx, vy, c));
    }
    if exists|c: int| 0 <= c < 8 && p == #[trigger] first_row_pixel(vx, vy, c) {
        let c0 = choose|c: int| 0 <= c < 8 && p == #[trigger] first_row_pixel(vx, vy, c);
        lemma_first_row_pixel(vx, vy, c0);
        let b: u8 = c0 as u8;
        assert(sprite_bit(0xFF, b)) by (bit_vector)
            requires b < 8;
    }
}

proof fn lemma_first_row_pixel(vx: int, vy: int, c: int)
    requires
        0 <= vx < 256,
        0 <= vy < 256,
        0 <= c < 8,
    ensures
        0 <= first_row_pixel(vx, vy, c) < 2048,
        first_row_pixel(vx, vy, c) % 64 == (vx + c) % 64,
        first_row_pixel(vx, vy, c) / 64 == vy % 32,
        ((vx + c) % 64 - vx) % 64 == c,
{
    let p = first_row_pixel(vx, vy, c);
    assert(p % 64 == (vx + c) % 64 && p / 64 == vy % 32) by (nonlinear_arith)
        requires
            p == (vy % 32) * 64 + (vx + c) % 64,
            0 <= (vx + c) % 64 < 64,
            0 <= vy % 32 < 32,
    ;
}

/// Drawing a one-row sprite of byte 0xFF twice at the same place, over
/// eight pixels that are off: the first draw turns them on and clears the
/// flag; the second turns them off again and sets the flag.
pub proof fn law_draw_twice(m: Chip8View, x: u8, y: u8, rnd: u8)
    requires
        m.wf(),
        x < 15,
        y < 15,
        m.i + 1 <= 4096,
        m.memory[m.i as int] == 0xFF,
        forall|c: int| 0 <= c < 8 ==> !m.display[first_row_pixel(m.v[x as int] as int, m.v[y as int] as int, c)],
    ensures
        ({
            let ins = Instruction::Draw { x, y, n: 1 };
            let first = exec_spec(m, ins, rnd);
            let second = exec_spec(first->Ok_0, ins, rnd);
            let (vx, vy) = (m.v[x as int] as int, m.v[y as int] as int);
            &&& first is Ok
            &&& first->Ok_0.v[15] == 0
            &&& forall|c: int| 0 <= c < 8 ==> first->Ok_0.display[#[trigger] first_row_pixel(vx, vy, c)]
            &&& second is Ok
            &&& second->Ok_0.v[15] == 1
            &&& forall|c: int| 0 <= c < 8 ==> !second->Ok_0.display[#[trigger] first_row_pixel(vx, vy, c)]
        }),
{
    let ins = Instruction::Draw { x, y, n: 1 };
    let (vx, vy) = (m.v[x as int] as int, m.v[y as int] as int);
    let m1 = m.draw(vx, vy, 1);
    assert(exec_spec(m, ins, rnd) == Ok::<Chip8View, Fault>(m1));
    assert forall|p: int| 0 <= p < 2048 && #[trigger] m.sprite_covers(vx, vy, 1, p % 64, p / 64) implies !m.display[p] by {
        lemma_first_row(m, vx, vy, p);
    }
    assert(!m.sprite_collides(vx, vy, 1));
    assert forall|c: int| 0 <= c < 8 implies m1.display[#[trigger] first_row_pixel(vx, vy, c)] by {
        let p = first_row_pixel(vx, vy, c);
        lemma_first_row_pixel(vx, vy, c);
        lemma_first_row(m, vx, vy, p);
    }
    assert(m1.v[x as int] == m.v[x as int] && m1.v[y as int] == m.v[y as int]);
    assert(m1.wf());
    let m2 = m1.draw(vx, vy, 1);
    let p0 = first_row_pixel(vx, vy, 0);
    lemma_first_row_pixel(vx, vy, 0);
    lemma_first_row(m1, vx, vy, p0);
    assert(m1.sprite_covers(vx, vy, 1, p0 % 64, p0 / 64) && m1.display[p0]);
    assert(m1.sprite_collides(vx, vy, 1));
    assert forall|c: int| 0 <= c < 8 implies !m2.display[#[trigger] first_row_pixel(vx, vy, c)] by {
        let p = first_row_pixel(vx, vy, c);
        lemma_first_row_pixel(vx, vy, c);
        lemma_first_row(m1, vx, vy, p);
    }
}

/// A sprite drawn at x = 63 wraps: in each of its rows, column 7 lands on
/// framebuffer column 6, flipping the pixel there exactly when the
/// sprite's bit for that column is set.
pub proof fn law_draw_wraps_columns(m: Chip8View, x: u8, y: u8, n: u8, r: int, rnd: u8)
    requires
        m.wf(),
        x < 16,
        y < 16,
        n < 16,
        m.i + n <= 4096,
        m.v[x as int] == 63,
        0 <= r < n,
    ensures
        ({
            let vy = m.v[y as int] as int;
            let after = exec_spec(m, Instruction::Draw { x, y, n }, rnd);
            &&& after is Ok
            &&& after->Ok_0.pixel(6, (vy + r) % 32) == (m.pixel(6, (vy + r) % 32) != sprite_bit(m.memory[m.i + r], 7))
        }),
{
    let vy = m.v[y as int] as int;
    let py = (vy + r) % 32;
    let p = py * 64 + 6;
    assert(p % 64 == 6 && p / 64 == py) by (nonlinear_arith)
        requires
            p == py * 64 + 6,
            0 <= py < 32,
    ;
    assert((py - vy) % 32 == r);
    assert(m.sprite_covers(63, vy, n as int, 6, py) == sprite_bit(m.memory[m.i + r], 7));
}

/// With no key pressed there is no lowest pressed key.
proof fn lemma_no_key_from(k: int)
    requires
        0 <= k <= 16,
    ensures
        lowest_key_from(0, k) == 16,
    decreases 16 - k,
{
    if k < 16 {
        let b = k as u16;
        assert((0u16 >> b) & 1u16 != 1u16) by (bit_vector);
        lemma_no_key_from(k + 1);
    }
}

/// The lowest pressed key is `k` when `k` is pressed and no lower key is.
proof fn lemma_lowest_key_from(kb: u16, j: int, k: u8)
    requires
        0 <= j <= k,
        k < 16,
        key_pressed(kb, k),
        forall|i: u8| i < k ==> !#[trigger] key_pressed(kb, i),
    ensures
        lowest_key_from(kb, j) == k,
    decreases k - j,
{
    if j < k {
        assert(!key_pressed(kb, j as u8));
        lemma_lowest_key_from(kb, j + 1, k);
    }
}

/// With no key pressed, a step on a wait-for-key instruction leaves the
/// whole machine as it was, so repeated steps keep PC where it is.
pub proof fn law_wait_key_idles(m: Chip8View, x: u8, rnd: u8)
    requires
        m.wf(),
        x < 16,
        m.keyboard == 0,
        m.fetch() == Some((0xF00A + x * 0x100) as u16),
    ensures
        step_spec(m, rnd) == Ok::<Chip8View, Fault>(m),
{
    assert(decode_spec((0xF00A + x * 0x100) as u16) == Instruction::WaitKey { x });
    lemma_no_key_from(0);
    assert(add16(m.pc + 2, 0x10000 - 2) == m.pc);
    assert(m.with_pc((m.pc + 2) as u16).with_pc(m.pc) =~= m);
}

/// Once key `k` is pressed (and no lower key), a step on a wait-for-key
/// instruction advances PC by 2 and writes `k` into the target register.
pub proof fn law_wait_key_resumes(m: Chip8View, x: u8, k: u8, rnd: u8)
    requires
        m.wf(),
        x < 16,
        k < 16,
        key_pressed(m.keyboard, k),
        forall|i: u8| i < k ==> !#[trigger] key_pressed(m.keyboard, i),
        m.fetch() == Some((0xF00A + x * 0x100) as u16),
    ensures
        step_spec(m, rnd) == Ok::<Chip8View, Fault>(m.with_pc((m.pc + 2) as u16).with_reg(x as int, k)),
{
    assert(decode_spec((0xF00A + x * 0x100) as u16) == Instruction::WaitKey { x });
    lemma_lowest_key_from(m.keyboard, 0, k);
    assert(lowest_key(m.keyboard) == k);
}

} // verus!
