use vstd::prelude::*;
use crate::instruction::{addr_of, byte_of, decode_spec, nibbles_of, Instruction};
use crate::machine::{cell_of, drawn, lemma_drawn_stops, sprite_bit, SCREEN_CELLS, mem_index, cycle_spec, fetch_spec, flag_of, next_ip, run, step, with_ip, ChipException, ChipModel};

verus! {

/// The word made of four given nibbles splits back into them.
proof fn lemma_nibbles(a: u8, b: u8, c: u8, d: u8)
    requires
        a < 16,
        b < 16,
        c < 16,
        d < 16,
    ensures
        nibbles_of((a * 4096 + b * 256 + c * 16 + d) as u16) == (a, b, c, d),
        addr_of(b, c, d) == b * 256 + c * 16 + d,
        byte_of(c, d) == c * 16 + d,
{
    let w = a * 4096 + b * 256 + c * 16 + d;
    assert(w / 4096 == a) by (nonlinear_arith)
        requires
            w == a * 4096 + b * 256 + c * 16 + d,
            a < 16,
            b < 16,
            c < 16,
            d < 16,
    ;
    assert(w / 256 == a * 16 + b) by (nonlinear_arith)
        requires
            w == a * 4096 + b * 256 + c * 16 + d,
            a < 16,
            b < 16,
            c < 16,
            d < 16,
    ;
    assert(w / 16 == a * 256 + b * 16 + c) by (nonlinear_arith)
        requires
            w == a * 4096 + b * 256 + c * 16 + d,
            a < 16,
            b < 16,
            c < 16,
            d < 16,
    ;
    assert((a * 16 + b) % 16 == b) by (nonlinear_arith)
        requires
            b < 16,
    ;
    assert((a * 256 + b * 16 + c) % 16 == c) by (nonlinear_arith)
        requires
            c < 16,
    ;
    assert(w % 16 == d) by (nonlinear_arith)
        requires
            w == a * 4096 + b * 256 + c * 16 + d,
            d < 16,
    ;
}

/// Loading an immediate into any register and then adding an immediate to
/// it leaves the register at the sum of the two, modulo 256.
#[verifier::rlimit(40)]
pub proof fn law_load_then_add(m: ChipModel, x: u8, a: u8, b: u8, rnd1: u8, rnd2: u8)
    requires
        m.wf(),
        x < 16,
    ensures
        ({
            let (m1, r1) = run(m, (0x6000 + x * 256 + a) as u16, rnd1);
            let (m2, r2) = run(m1, (0x7000 + x * 256 + b) as u16, rnd2);
            r1 is Ok && r2 is Ok && m2.regs[x as int] == (a + b) % 256
        }),
{
    lemma_nibbles(6, x, a / 16, a % 16);
    lemma_nibbles(7, x, b / 16, b % 16);
    let w1 = (0x6000 + x * 256 + a) as u16;
    let w2 = (0x7000 + x * 256 + b) as u16;
    assert(decode_spec(w1) == Some(Instruction::LoadImm { x, value: a }));
    assert(decode_spec(w2) == Some(Instruction::AddImm { x, value: b }));
}

/// The add-with-carry instruction leaves the wrapped sum in its target and
/// sets the flag register to 1 exactly when the sum exceeds 255. The target
/// is any register but the flag register itself, which would take the sum.
#[verifier::rlimit(40)]
pub proof fn law_add_carry(m: ChipModel, x: u8, y: u8, rnd: u8)
    requires
        m.wf(),
        x < 15,
        y < 16,
    ensures
        ({
            let (m1, r) = run(m, (0x8004 + x * 256 + y * 16) as u16, rnd);
            let s = m.regs[x as int] + m.regs[y as int];
            &&& r is Ok
            &&& m1.regs[15] == flag_of(s > 255)
            &&& m1.regs[x as int] == s % 256
        }),
{
    lemma_nibbles(8, x, y, 4);
    let w = (0x8004 + x * 256 + y * 16) as u16;
    assert(decode_spec(w) == Some(Instruction::AddCarry { x, y }));
}

/// The subtract instruction leaves the wrapped difference `x - y` in its
/// target and sets the flag register to 1 exactly when the minuend is less
/// than the subtrahend; the target is any register but the flag register.
#[verifier::rlimit(40)]
pub proof fn law_sub_borrow(m: ChipModel, x: u8, y: u8, rnd: u8)
    requires
        m.wf(),
        x < 15,
        y < 16,
    ensures
        ({
            let (m1, r) = run(m, (0x8005 + x * 256 + y * 16) as u16, rnd);
            let (a, b) = (m.regs[x as int], m.regs[y as int]);
            &&& r is Ok
            &&& m1.regs[15] == flag_of(a < b)
            &&& m1.regs[x as int] == if a >= b { a - b } else { a - b + 256 }
        }),
{
    lemma_nibbles(8, x, y, 5);
    let w = (0x8005 + x * 256 + y * 16) as u16;
    assert(decode_spec(w) == Some(Instruction::SubBorrow { x, y }));
}

/// The reverse subtract instruction leaves the wrapped difference `y - x`
/// in its target, with the flag register 1 exactly when `y < x`; the target
/// is any register but the flag register.
#[verifier::rlimit(40)]
pub proof fn law_sub_reverse_borrow(m: ChipModel, x: u8, y: u8, rnd: u8)
    requires
        m.wf(),
        x < 15,
        y < 16,
    ensures
        ({
            let (m1, r) = run(m, (0x8007 + x * 256 + y * 16) as u16, rnd);
            let (a, b) = (m.regs[y as int], m.regs[x as int]);
            &&& r is Ok
            &&& m1.regs[15] == flag_of(a < b)
            &&& m1.regs[x as int] == if a >= b { a - b } else { a - b + 256 }
        }),
{
    lemma_nibbles(8, x, y, 7);
    let w = (0x8007 + x * 256 + y * 16) as u16;
    assert(decode_spec(w) == Some(Instruction::SubReverse { x, y }));
}

#[verifier::rlimit(40)]
proof fn lemma_call_cycle(m: ChipModel, addr: u16, rnd: u8)
    requires
        addr < 4096,
        fetch_spec(m) == 0x2000 + addr,
    ensures
        cycle_spec(m, rnd) == (ChipModel { ip: addr, stack: m.stack.push(next_ip(m.ip)), ..m }, Ok::<(), ChipException>(())),
{
    let w = fetch_spec(m);
    lemma_nibbles(2, (addr / 256) as u8, ((addr / 16) % 16) as u8, (addr % 16) as u8);
    assert(decode_spec(w) == Some(Instruction::Call { addr }));
}

#[verifier::rlimit(40)]
proof fn lemma_return_cycle(m: ChipModel, rnd: u8)
    requires
        fetch_spec(m) == 0x00EE,
        m.stack.len() > 0,
    ensures
        cycle_spec(m, rnd) == (ChipModel { ip: m.stack.last(), stack: m.stack.drop_last(), ..m }, Ok::<(), ChipException>(())),
{
    lemma_nibbles(0, 0, 14, 14);
    assert(decode_spec(0x00EE) == Some(Instruction::Return));
}

/// A cycle that calls a subroutine whose first instruction is a return,
/// followed by the cycle that runs that return, leaves the instruction
/// pointer just past the call and the call stack as it was.
#[verifier::rlimit(40)]
pub proof fn law_call_then_return(m: ChipModel, addr: u16, rnd1: u8, rnd2: u8)
    requires
        addr < 4096,
        fetch_spec(m) == 0x2000 + addr,
        m.memory[mem_index(addr, 0)] == 0x00,
        m.memory[mem_index(addr, 1)] == 0xEE,
    ensures
        cycle_spec(m, rnd1).1 is Ok,
        ({
            let (m2, r2) = cycle_spec(cycle_spec(m, rnd1).0, rnd2);
            r2 is Ok && m2.ip == next_ip(m.ip) && m2.stack == m.stack
        }),
{
    lemma_call_cycle(m, addr, rnd1);
    let m1 = cycle_spec(m, rnd1).0;
    assert(fetch_spec(m1) == 0x00EE);
    lemma_return_cycle(m1, rnd2);
    assert(m1.stack.drop_last() =~= m.stack);
}

/// A return with an empty call stack fails and changes nothing.
#[verifier::rlimit(40)]
pub proof fn law_return_needs_call(m: ChipModel, rnd: u8)
    requires
        m.stack.len() == 0,
    ensures
        run(m, 0x00EE, rnd) == (m, Err::<(), ChipException>(ChipException::ReturnOutsideSubroutine)),
{
    lemma_nibbles(0, 0, 14, 14);
    assert(decode_spec(0x00EE) == Some(Instruction::Return));
}

/// Distinct pixels of one sprite land on distinct framebuffer cells.
proof fn lemma_cells_distinct(sx: u8, sy: u8, j: int, k: int)
    requires
        0 <= j < k,
    ensures
        cell_of(sx, sy, j) != cell_of(sx, sy, k),
{
    assert(j == 8 * (j / 8) + j % 8);
    assert(k == 8 * (k / 8) + k % 8);
    assert(j / 8 <= k / 8);
}

/// Whether where a draw stops depends on the sprite and position only.
proof fn lemma_stop_ignores_video(v: Seq<u8>, w: Seq<u8>, mem: Seq<u8>, base: u16, sx: u8, sy: u8, k: nat)
    ensures
        drawn(v, mem, base, sx, sy, k).2 == drawn(w, mem, base, sx, sy, k).2,
    decreases k,
{
    if k > 0 {
        lemma_stop_ignores_video(v, w, mem, base, sx, sy, (k - 1) as nat);
    }
}

/// Pixel `j` is set and toggles a cell: the draw has not stopped before it
/// and its cell is inside the framebuffer.
pub open spec fn toggles(mem: Seq<u8>, base: u16, sx: u8, sy: u8, j: int) -> bool {
    &&& drawn(Seq::empty(), mem, base, sx, sy, j as nat).2 is None
    &&& sprite_bit(mem, base, j)
    &&& cell_of(sx, sy, j) < SCREEN_CELLS
}

pub open spec fn toggled_before(mem: Seq<u8>, base: u16, sx: u8, sy: u8, k: nat, i: int) -> bool {
    exists|j: int| 0 <= j < k && #[trigger] toggles(mem, base, sx, sy, j) && cell_of(sx, sy, j) == i
}

/// After `k` pixels each cell is flipped exactly when a toggling pixel hit
/// it, and a collision was seen exactly when one of those cells was lit.
proof fn lemma_drawn_cells(v: Seq<u8>, mem: Seq<u8>, base: u16, sx: u8, sy: u8, k: nat)
    requires
        v.len() == SCREEN_CELLS,
    ensures
        drawn(v, mem, base, sx, sy, k).0.len() == SCREEN_CELLS,
        forall|i: int| 0 <= i < SCREEN_CELLS ==> #[trigger] drawn(v, mem, base, sx, sy, k).0[i] == if toggled_before(mem, base, sx, sy, k, i) {
            v[i] ^ 1u8
        } else {
            v[i]
        },
        drawn(v, mem, base, sx, sy, k).1 == exists|j: int| 0 <= j < k && #[trigger] toggles(mem, base, sx, sy, j) && v[cell_of(sx, sy, j)] == 1,
    decreases k,
{
    if k > 0 {
        let k1 = (k - 1) as nat;
        lemma_drawn_cells(v, mem, base, sx, sy, k1);
        lemma_stop_ignores_video(v, Seq::empty(), mem, base, sx, sy, k1);
        let c = cell_of(sx, sy, k1 as int);
        if toggles(mem, base, sx, sy, k1 as int) {
            assert forall|j: int| 0 <= j < k1 implies cell_of(sx, sy, j) != c by {
                lemma_cells_distinct(sx, sy, j, k1 as int);
            }
            assert(!toggled_before(mem, base, sx, sy, k1, c));
            assert forall|i: int| 0 <= i < SCREEN_CELLS implies toggled_before(mem, base, sx, sy, k, i)
                == (toggled_before(mem, base, sx, sy, k1, i) || i == c) by {
                if i == c {
                    assert(toggles(mem, base, sx, sy, k1 as int));
                }
                if toggled_before(mem, base, sx, sy, k, i) && i != c {
                    let j = choose|j: int| 0 <= j < k && #[trigger] toggles(mem, base, sx, sy, j) && cell_of(sx, sy, j) == i;
                    assert(j < k1);
                }
            }
            let b = drawn(v, mem, base, sx, sy, k).1;
            if b && !drawn(v, mem, base, sx, sy, k1).1 {
                assert(toggles(mem, base, sx, sy, k1 as int) && v[c] == 1);
            }
            if !b {
                assert forall|j: int| 0 <= j < k && #[trigger] toggles(mem, base, sx, sy, j) implies v[cell_of(sx, sy, j)] != 1 by {
                    if j == k1 {
                    }
                }
            }
        } else {
            assert forall|i: int| 0 <= i < SCREEN_CELLS implies toggled_before(mem, base, sx, sy, k, i)
                == toggled_before(mem, base, sx, sy, k1, i) by {
                if toggled_before(mem, base, sx, sy, k, i) {
                    let j = choose|j: int| 0 <= j < k && #[trigger] toggles(mem, base, sx, sy, j) && cell_of(sx, sy, j) == i;
                    assert(j < k1);
                }
            }
            if drawn(v, mem, base, sx, sy, k).1 {
                let j = choose|j: int| 0 <= j < k && #[trigger] toggles(mem, base, sx, sy, j) && v[cell_of(sx, sy, j)] == 1;
                assert(j < k1);
            }
        }
    }
}

/// Clearing the screen and drawing one sprite twice at one position leaves
/// the screen clear and ends both draws alike. When the draws complete, the
/// first sees no collision, and the second sees one as soon as the sprite
/// has a pixel set. Neither corner register is the flag register, which the
/// first draw overwrites.
#[verifier::rlimit(40)]
pub proof fn law_draw_twice(m: ChipModel, x: u8, y: u8, n: u8, rnd: u8)
    requires
        m.wf(),
        x < 15,
        y < 15,
        n < 16,
    ensures
        ({
            let m1 = step(m, Instruction::ClearScreen, rnd).0;
            let (m2, r2) = step(m1, Instruction::Draw { x, y, n }, rnd);
            let (m3, r3) = step(m2, Instruction::Draw { x, y, n }, rnd);
            &&& r3 == r2
            &&& m3.video == m1.video
            &&& r2 is Ok ==> m2.regs[15] == 0
            &&& r2 is Ok && (exists|j: int| 0 <= j < 8 * n && #[trigger] sprite_bit(m.memory, m.addr, j))
                ==> m3.regs[15] == 1
        }),
{
    let m1 = step(m, Instruction::ClearScreen, rnd).0;
    let (m2, r2) = step(m1, Instruction::Draw { x, y, n }, rnd);
    let (m3, r3) = step(m2, Instruction::Draw { x, y, n }, rnd);
    let (mem, base) = (m.memory, m.addr);
    let (sx, sy) = (m.regs[x as int], m.regs[y as int]);
    let kk = (8 * n) as nat;
    let z = m1.video;
    assert(m1.regs == m.regs && m2.memory == mem && m2.addr == base);
    assert(m2.regs[x as int] == sx && m2.regs[y as int] == sy);
    let v1 = drawn(z, mem, base, sx, sy, kk).0;
    assert(m2.video == v1);
    lemma_drawn_cells(z, mem, base, sx, sy, kk);
    lemma_drawn_cells(v1, mem, base, sx, sy, kk);
    lemma_stop_ignores_video(z, v1, mem, base, sx, sy, kk);
    assert forall|i: int| 0 <= i < SCREEN_CELLS implies #[trigger] m3.video[i] == z[i] by {
        let b = z[i];
        assert(b == 0);
        assert((b ^ 1u8) ^ 1u8 == b) by (bit_vector);
    }
    assert(m3.video =~= z);
    if r2 is Ok {
        assert(drawn(z, mem, base, sx, sy, kk).2 is None);
        if exists|j: int| 0 <= j < 8 * n && #[trigger] sprite_bit(mem, base, j) {
            let j = choose|j: int| 0 <= j < 8 * n && #[trigger] sprite_bit(mem, base, j);
            lemma_stop_ignores_video(z, Seq::empty(), mem, base, sx, sy, j as nat);
            lemma_stop_ignores_video(z, Seq::empty(), mem, base, sx, sy, (j + 1) as nat);
            if drawn(z, mem, base, sx, sy, j as nat).2 is Some {
                lemma_drawn_stops(z, mem, base, sx, sy, j as nat, kk);
            }
            if drawn(z, mem, base, sx, sy, (j + 1) as nat).2 is Some {
                lemma_drawn_stops(z, mem, base, sx, sy, (j + 1) as nat, kk);
            }
            assert(toggles(mem, base, sx, sy, j));
            let c = cell_of(sx, sy, j);
            assert(toggled_before(mem, base, sx, sy, kk, c));
            assert(v1[c] == 1) by {
                let b = z[c];
                assert(b == 0);
                assert(b ^ 1u8 == 1) by (bit_vector)
                    requires b == 0;
            }
        }
    }
}

} // verus!
