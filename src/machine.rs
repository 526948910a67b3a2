use vstd::prelude::*;
use crate::instruction::{decode, decode_spec, registers_in_range, Instruction};
use crate::nibbles::binary_coded_decimal;
use crate::entropy::random_byte;

verus! {

/// Bytes of addressable memory.
pub const MEMORY_SIZE: usize = 4096;
/// Where a program image is loaded and execution starts.
pub const LOAD_ADDR: u16 = 0x200;
pub const SCREEN_WIDTH: u32 = 64;
pub const SCREEN_HEIGHT: u32 = 32;
/// Cells of the framebuffer, row-major.
pub const SCREEN_CELLS: usize = 2048;
/// The register overwritten by carry, borrow, shift-out and collision.
pub const FLAG: usize = 15;

/// A condition that stops one instruction from completing on its own.
/// The last three are suspensions the host resolves; the others are fatal.
#[derive(Clone, Copy, Debug, PartialEq, Eq, Structural)]
pub enum ChipException {
    InvalidRegister,
    ReturnOutsideSubroutine,
    IllegalInstruction,
    InvalidFontCodePoint,
    DrawingOutOfBounds { offset: usize },
    WaitForKey { register: u8 },
    SkipIfPressed { register: u8 },
    SkipIfNotPressed { register: u8 },
}

/// The whole machine state: memory, framebuffer, call stack and registers.
pub struct Chip {
    pub memory: Vec<u8>,
    pub ip: u16,
    pub video_memory: Vec<u8>,
    pub stack: Vec<u16>,
    pub data_regs: [u8; 16],
    pub addr_reg: u16,
    pub delay_timer: u8,
    pub sound_timer: u8,
}

/// Mathematical view of a `Chip`.
pub struct ChipModel {
    pub memory: Seq<u8>,
    pub ip: u16,
    pub video: Seq<u8>,
    pub stack: Seq<u16>,
    pub regs: Seq<u8>,
    pub addr: u16,
    pub delay: u8,
    pub sound: u8,
}

impl View for Chip {
    type V = ChipModel;

    open spec fn view(&self) -> ChipModel {
        ChipModel {
            memory: self.memory@,
            ip: self.ip,
            video: self.video_memory@,
            stack: self.stack@,
            regs: self.data_regs@,
            addr: self.addr_reg,
            delay: self.delay_timer,
            sound: self.sound_timer,
        }
    }
}

impl ChipModel {
    /// Sizes are fixed and every framebuffer cell is 0 or 1.
    pub open spec fn wf(self) -> bool {
        &&& self.memory.len() == MEMORY_SIZE
        &&& self.video.len() == SCREEN_CELLS
        &&& self.regs.len() == 16
        &&& forall|i: int| 0 <= i < SCREEN_CELLS ==> #[trigger] self.video[i] <= 1
    }
}

/// The sixteen 5-byte hexadecimal digit glyphs stored at address 0.
pub open spec fn glyphs() -> Seq<u8> {
    seq![
        0xF0u8, 0x90, 0x90, 0x90, 0xF0, 0x20, 0x60, 0x20, 0x20, 0x70,
        0xF0, 0x10, 0xF0, 0x80, 0xF0, 0xF0, 0x10, 0xF0, 0x10, 0xF0,
        0x90, 0x90, 0xF0, 0x10, 0x10, 0xF0, 0x80, 0xF0, 0x10, 0xF0,
        0xF0, 0x80, 0xF0, 0x90, 0xF0, 0xF0, 0x10, 0x20, 0x40, 0x40,
        0xF0, 0x90, 0xF0, 0x90, 0xF0, 0xF0, 0x90, 0xF0, 0x10, 0xF0,
        0xF0, 0x90, 0xF0, 0x90, 0x90, 0xE0, 0x90, 0xE0, 0x90, 0xE0,
        0xF0, 0x80, 0x80, 0x80, 0xF0, 0xE0, 0x90, 0x90, 0x90, 0xE0,
        0xF0, 0x80, 0xF0, 0x80, 0xF0, 0xF0, 0x80, 0xF0, 0x80, 0x80,
    ]
}

/// Memory is addressed by the low 12 bits of an address.
pub open spec fn mem_index(base: u16, offset: int) -> int {
    (base + offset) % (MEMORY_SIZE as int)
}

/// The instruction pointer two bytes further on, wrapping at 16 bits.
pub open spec fn next_ip(ip: u16) -> u16 {
    ((ip + 2) % 65536) as u16
}

/// The big-endian word at the instruction pointer.
pub open spec fn fetch_spec(m: ChipModel) -> u16 {
    (m.memory[mem_index(m.ip, 0)] * 256 + m.memory[mem_index(m.ip, 1)]) as u16
}

/// Whether a word encodes the masked-random instruction, the one whose
/// effect depends on the random byte.
pub open spec fn draws_random(w: u16) -> bool {
    decode_spec(w) matches Some(Instruction::Random { .. })
}

/// A timer one frame later: one less, but never below zero.
pub open spec fn decayed(t: u8) -> u8 {
    if t == 0 { 0 } else { (t - 1) as u8 }
}

pub open spec fn flag_of(b: bool) -> u8 {
    if b { 1 } else { 0 }
}

pub open spec fn with_regs(m: ChipModel, regs: Seq<u8>) -> ChipModel {
    ChipModel { regs, ..m }
}

pub open spec fn with_ip(m: ChipModel, ip: u16) -> ChipModel {
    ChipModel { ip, ..m }
}

pub open spec fn skip_if(m: ChipModel, cond: bool) -> ChipModel {
    if cond { with_ip(m, next_ip(m.ip)) } else { m }
}

/// Memory after registers `0..k` are stored from address `base` on.
pub open spec fn stored(mem: Seq<u8>, regs: Seq<u8>, base: u16, k: nat) -> Seq<u8>
    decreases k,
{
    if k == 0 {
        mem
    } else {
        stored(mem, regs, base, (k - 1) as nat).update(mem_index(base, k - 1), regs[k - 1])
    }
}

/// Registers after `0..k` are loaded from memory at address `base` on.
pub open spec fn loaded(regs: Seq<u8>, mem: Seq<u8>, base: u16, k: nat) -> Seq<u8>
    decreases k,
{
    if k == 0 {
        regs
    } else {
        loaded(regs, mem, base, (k - 1) as nat).update(k - 1, mem[mem_index(base, k - 1)])
    }
}

/// Whether pixel `k` of a sprite (row `k / 8`, column `k % 8`, most
/// significant bit first) is set.
pub open spec fn sprite_bit(mem: Seq<u8>, base: u16, k: int) -> bool {
    (mem[mem_index(base, k / 8)] >> ((7 - k % 8) as u8)) & 1u8 == 1u8
}

/// Framebuffer cell of sprite pixel `k` drawn with its corner at (`sx`, `sy`).
pub open spec fn cell_of(sx: u8, sy: u8, k: int) -> int {
    (sy + k / 8) * (SCREEN_WIDTH as int) + sx + k % 8
}

/// State of a draw after its first `k` pixels: the framebuffer, whether a
/// lit cell was turned off, and the offending cell once one fell outside.
pub open spec fn drawn(video: Seq<u8>, mem: Seq<u8>, base: u16, sx: u8, sy: u8, k: nat) -> (
    Seq<u8>,
    bool,
    Option<int>,
)
    decreases k,
{
    if k == 0 {
        (video, false, None)
    } else {
        let (v, hit, out) = drawn(video, mem, base, sx, sy, (k - 1) as nat);
        let c = cell_of(sx, sy, k - 1);
        if out is Some || !sprite_bit(mem, base, k - 1) {
            (v, hit, out)
        } else if c >= SCREEN_CELLS {
            (v, hit, Some(c))
        } else {
            (v.update(c, v[c] ^ 1u8), hit || v[c] == 1, None)
        }
    }
}

pub open spec fn draw_step(m: ChipModel, x: u8, y: u8, n: u8) -> (ChipModel, Result<(), ChipException>) {
    let (v, hit, out) = drawn(m.video, m.memory, m.addr, m.regs[x as int], m.regs[y as int], (8 * n) as nat);
    match out {
        Some(c) => (ChipModel { video: v, ..m }, Err(ChipException::DrawingOutOfBounds { offset: c as usize })),
        None => (ChipModel { video: v, regs: m.regs.update(FLAG as int, flag_of(hit)), ..m }, Ok(())),
    }
}

/// The effect of one instruction on a machine whose instruction pointer has
/// already moved past it; `rnd` is the random byte the masked-random
/// instruction draws.
pub open spec fn step(m: ChipModel, ins: Instruction, rnd: u8) -> (ChipModel, Result<(), ChipException>) {
    let r = m.regs;
    if !registers_in_range(ins) {
        (m, Err(ChipException::InvalidRegister))
    } else {
        match ins {
            Instruction::ClearScreen => (ChipModel { video: Seq::new(SCREEN_CELLS as nat, |i: int| 0u8), ..m }, Ok(())),
            Instruction::Return => if m.stack.len() == 0 {
                (m, Err(ChipException::ReturnOutsideSubroutine))
            } else {
                (ChipModel { ip: m.stack.last(), stack: m.stack.drop_last(), ..m }, Ok(()))
            },
            Instruction::MachineCall { addr } | Instruction::Call { addr } =>
                (ChipModel { ip: addr, stack: m.stack.push(m.ip), ..m }, Ok(())),
            Instruction::Jump { addr } => (with_ip(m, addr), Ok(())),
            Instruction::SkipEqImm { x, value } => (skip_if(m, r[x as int] == value), Ok(())),
            Instruction::SkipNeImm { x, value } => (skip_if(m, r[x as int] != value), Ok(())),
            Instruction::SkipEqReg { x, y } => (skip_if(m, r[x as int] == r[y as int]), Ok(())),
            Instruction::LoadImm { x, value } => (with_regs(m, r.update(x as int, value)), Ok(())),
            Instruction::AddImm { x, value } =>
                (with_regs(m, r.update(x as int, ((r[x as int] + value) % 256) as u8)), Ok(())),
            Instruction::Move { x, y } => (with_regs(m, r.update(x as int, r[y as int])), Ok(())),
            Instruction::Or { x, y } => (with_regs(m, r.update(x as int, r[x as int] | r[y as int])), Ok(())),
            Instruction::And { x, y } => (with_regs(m, r.update(x as int, r[x as int] & r[y as int])), Ok(())),
            Instruction::Xor { x, y } => (with_regs(m, r.update(x as int, r[x as int] ^ r[y as int])), Ok(())),
            Instruction::AddCarry { x, y } => {
                let s = r[x as int] + r[y as int];
                (with_regs(m, r.update(FLAG as int, flag_of(s > 255)).update(x as int, (s % 256) as u8)), Ok(()))
            },
            Instruction::SubBorrow { x, y } => {
                let (a, b) = (r[x as int], r[y as int]);
                (with_regs(m, r.update(FLAG as int, flag_of(a < b)).update(x as int, ((a - b + 256) % 256) as u8)), Ok(()))
            },
            Instruction::ShiftRight { x, y } =>
                (with_regs(m, r.update(x as int, r[y as int] / 2).update(FLAG as int, r[y as int] % 2)), Ok(())),
            Instruction::SubReverse { x, y } => {
                let (a, b) = (r[y as int], r[x as int]);
                (with_regs(m, r.update(FLAG as int, flag_of(a < b)).update(x as int, ((a - b + 256) % 256) as u8)), Ok(()))
            },
            Instruction::ShiftLeft { x, y } =>
                (with_regs(m, r.update(x as int, ((r[y as int] * 2) % 256) as u8).update(FLAG as int, r[y as int] / 128)), Ok(())),
            Instruction::SkipNeReg { x, y } => (skip_if(m, r[x as int] != r[y as int]), Ok(())),
            Instruction::SetAddr { addr } => (ChipModel { addr, ..m }, Ok(())),
            Instruction::JumpOffset { addr } => (with_ip(m, (r[0] + addr) as u16), Ok(())),
            Instruction::Random { x, mask } => (with_regs(m, r.update(x as int, rnd & mask)), Ok(())),
            Instruction::Draw { x, y, n } => draw_step(m, x, y, n),
            Instruction::SkipIfPressed { x } => (m, Err(ChipException::SkipIfPressed { register: x })),
            Instruction::SkipIfNotPressed { x } => (m, Err(ChipException::SkipIfNotPressed { register: x })),
            Instruction::ReadDelay { x } => (with_regs(m, r.update(x as int, m.delay)), Ok(())),
            Instruction::WaitForKey { x } => (m, Err(ChipException::WaitForKey { register: x })),
            Instruction::SetDelay { x } => (ChipModel { delay: r[x as int], ..m }, Ok(())),
            Instruction::SetSound { x } => (ChipModel { sound: r[x as int], ..m }, Ok(())),
            Instruction::AddAddr { x } => (ChipModel { addr: ((m.addr + r[x as int]) % 65536) as u16, ..m }, Ok(())),
            Instruction::Glyph { x } => if r[x as int] > 15 {
                (m, Err(ChipException::InvalidFontCodePoint))
            } else {
                (ChipModel { addr: (r[x as int] * 5) as u16, ..m }, Ok(()))
            },
            Instruction::Decimal { x } => {
                let v = r[x as int];
                let mem = m.memory.update(mem_index(m.addr, 0), (v / 100) as u8)
                    .update(mem_index(m.addr, 1), ((v / 10) % 10) as u8)
                    .update(mem_index(m.addr, 2), (v % 10) as u8);
                (ChipModel { memory: mem, ..m }, Ok(()))
            },
            Instruction::StoreRegs { x } =>
                (ChipModel { memory: stored(m.memory, r, m.addr, (x + 1) as nat), ..m }, Ok(())),
            Instruction::LoadRegs { x } =>
                (with_regs(m, loaded(r, m.memory, m.addr, (x + 1) as nat)), Ok(())),
        }
    }
}

/// The effect of executing one instruction word; `rnd` is as for `step`.
pub open spec fn run(m: ChipModel, w: u16, rnd: u8) -> (ChipModel, Result<(), ChipException>) {
    match decode_spec(w) {
        None => (m, Err(ChipException::IllegalInstruction)),
        Some(ins) => step(m, ins, rnd),
    }
}

/// One cycle: fetch the word at the instruction pointer, move the pointer
/// past it, then execute the word.
pub open spec fn cycle_spec(m: ChipModel, rnd: u8) -> (ChipModel, Result<(), ChipException>) {
    run(with_ip(m, next_ip(m.ip)), fetch_spec(m), rnd)
}

/// Proof that a draw that has stopped at a cell outside the framebuffer
/// stays stopped, with nothing further changed.
pub proof fn lemma_drawn_stops(video: Seq<u8>, mem: Seq<u8>, base: u16, sx: u8, sy: u8, k: nat, j: nat)
    requires
        k <= j,
        drawn(video, mem, base, sx, sy, k).2 is Some,
    ensures
        drawn(video, mem, base, sx, sy, j) == drawn(video, mem, base, sx, sy, k),
    decreases j - k,
{
    if k < j {
        lemma_drawn_stops(video, mem, base, sx, sy, k, (j - 1) as nat);
    }
}

fn advance(ip: u16) -> (r: u16)
    ensures
        r == next_ip(ip),
{
    if ip < 65534 {
        ip + 2
    } else {
        ip - 65534
    }
}

fn mem_at(base: u16, offset: usize) -> (r: usize)
    requires
        offset < MEMORY_SIZE,
    ensures
        r == mem_index(base, offset as int),
        r < MEMORY_SIZE,
{
    (base as usize + offset) % MEMORY_SIZE
}

fn operands_valid(ins: Instruction) -> (r: bool)
    ensures
        r == registers_in_range(ins),
{
    match ins {
        Instruction::SkipEqImm { x, .. } | Instruction::SkipNeImm { x, .. }
        | Instruction::LoadImm { x, .. } | Instruction::AddImm { x, .. }
        | Instruction::Random { x, .. } | Instruction::SkipIfPressed { x }
        | Instruction::SkipIfNotPressed { x } | Instruction::ReadDelay { x }
        | Instruction::WaitForKey { x } | Instruction::SetDelay { x }
        | Instruction::SetSound { x } | Instruction::AddAddr { x }
        | Instruction::Glyph { x } | Instruction::Decimal { x }
        | Instruction::StoreRegs { x } | Instruction::LoadRegs { x } => x < 16,
        Instruction::SkipEqReg { x, y } | Instruction::Move { x, y }
        | Instruction::Or { x, y } | Instruction::And { x, y }
        | Instruction::Xor { x, y } | Instruction::AddCarry { x, y }
        | Instruction::SubBorrow { x, y } | Instruction::ShiftRight { x, y }
        | Instruction::SubReverse { x, y } | Instruction::ShiftLeft { x, y }
        | Instruction::SkipNeReg { x, y } | Instruction::Draw { x, y, .. } => x < 16 && y < 16,
        _ => true,
    }
}

impl Chip {
    pub open spec fn wf(&self) -> bool {
        self@.wf()
    }

    /// A machine with the glyphs at address 0, the rest of memory and the
    /// framebuffer cleared, and the instruction pointer at the load address.
    pub fn new() -> (r: Chip)
        ensures
            r.wf(),
            r@.memory.subrange(0, 80) == glyphs(),
            forall|i: int| 80 <= i < MEMORY_SIZE ==> #[trigger] r@.memory[i] == 0,
            forall|i: int| 0 <= i < SCREEN_CELLS ==> #[trigger] r@.video[i] == 0,
            r@.ip == LOAD_ADDR,
            r@.stack.len() == 0,
            forall|i: int| 0 <= i < 16 ==> #[trigger] r@.regs[i] == 0,
            r@.addr == 0,
            r@.delay == 0,
            r@.sound == 0,
    {
        let font: [u8; 80] = [
            0xF0, 0x90, 0x90, 0x90, 0xF0, 0x20, 0x60, 0x20, 0x20, 0x70,
            0xF0, 0x10, 0xF0, 0x80, 0xF0, 0xF0, 0x10, 0xF0, 0x10, 0xF0,
            0x90, 0x90, 0xF0, 0x10, 0x10, 0xF0, 0x80, 0xF0, 0x10, 0xF0,
            0xF0, 0x80, 0xF0, 0x90, 0xF0, 0xF0, 0x10, 0x20, 0x40, 0x40,
            0xF0, 0x90, 0xF0, 0x90, 0xF0, 0xF0, 0x90, 0xF0, 0x10, 0xF0,
            0xF0, 0x90, 0xF0, 0x90, 0x90, 0xE0, 0x90, 0xE0, 0x90, 0xE0,
            0xF0, 0x80, 0x80, 0x80, 0xF0, 0xE0, 0x90, 0x90, 0x90, 0xE0,
            0xF0, 0x80, 0xF0, 0x80, 0xF0, 0xF0, 0x80, 0xF0, 0x80, 0x80,
        ];
        assert(font@ =~= glyphs());
        let mut memory: Vec<u8> = Vec::new();
        let mut i: usize = 0;
        while i < MEMORY_SIZE
            invariant
                memory@.len() == i,
                i <= MEMORY_SIZE,
                font@ == glyphs(),
                forall|j: int| 0 <= j < i ==> #[trigger] memory@[j] == if j < 80 { glyphs()[j] } else { 0u8 },
            decreases MEMORY_SIZE - i,
        {
            if i < 80 {
                memory.push(font[i]);
            } else {
                memory.push(0);
            }
            i += 1;
        }
        assert(memory@.subrange(0, 80) =~= glyphs());
        let mut video_memory: Vec<u8> = Vec::new();
        let mut i: usize = 0;
        while i < SCREEN_CELLS
            invariant
                video_memory@.len() == i,
                i <= SCREEN_CELLS,
                forall|j: int| 0 <= j < i ==> #[trigger] video_memory@[j] == 0,
            decreases SCREEN_CELLS - i,
        {
            video_memory.push(0);
            i += 1;
        }
        Chip {
            memory,
            ip: LOAD_ADDR,
            video_memory,
            stack: Vec::new(),
            data_regs: [0; 16],
            addr_reg: 0,
            delay_timer: 0,
            sound_timer: 0,
        }
    }

    /// Copies a program image to the load address. Bytes past the end of
    /// memory are dropped; returns how many were copied.
    pub fn load_program(&mut self, program: &[u8]) -> (n: usize)
        requires
            old(self).wf(),
        ensures
            final(self).wf(),
            n == if program@.len() <= MEMORY_SIZE - LOAD_ADDR {
                program@.len()
            } else {
                (MEMORY_SIZE - LOAD_ADDR) as nat
            },
            final(self)@.memory == old(self)@.memory.subrange(0, LOAD_ADDR as int) + program@.subrange(0, n as int)
                + old(self)@.memory.subrange(LOAD_ADDR + n, MEMORY_SIZE as int),
            final(self)@ == (ChipModel { memory: final(self)@.memory, ..old(self)@ }),
    {
        let room: usize = MEMORY_SIZE - LOAD_ADDR as usize;
        let n: usize = if program.len() <= room { program.len() } else { room };
        let ghost m0 = self@;
        let mut i: usize = 0;
        while i < n
            invariant
                n <= room,
                room == MEMORY_SIZE - LOAD_ADDR,
                n <= program@.len(),
                i <= n,
                self@ == (ChipModel { memory: self@.memory, ..m0 }),
                self@.memory.len() == MEMORY_SIZE,
                forall|j: int| 0 <= j < MEMORY_SIZE ==> #[trigger] self@.memory[j] == if LOAD_ADDR <= j < LOAD_ADDR + i {
                    program@[j - LOAD_ADDR]
                } else {
                    m0.memory[j]
                },
            decreases n - i,
        {
            self.memory.set(LOAD_ADDR as usize + i, program[i]);
            i += 1;
        }
        assert(self@.memory =~= m0.memory.subrange(0, LOAD_ADDR as int) + program@.subrange(0, n as int)
                + m0.memory.subrange(LOAD_ADDR + n, MEMORY_SIZE as int));
        n
    }

    /// Draws an `8 x n` sprite read at the address register with its corner
    /// at (register `x`, register `y`), toggling cells in row-major order.
    fn draw(&mut self, x: u8, y: u8, n: u8) -> (r: Result<(), ChipException>)
        requires
            old(self).wf(),
            x < 16,
            y < 16,
            n < 16,
        ensures
            final(self).wf(),
            (final(self)@, r) == draw_step(old(self)@, x, y, n),
    {
        let ghost m0 = self@;
        let sx = self.data_regs[x as usize];
        let sy = self.data_regs[y as usize];
        let total: usize = 8 * n as usize;
        let mut hit = false;
        let mut k: usize = 0;
        while k < total
            invariant
                total == 8 * n,
                n < 16,
                k <= total,
                m0 == old(self)@,
                m0.wf(),
                sx == m0.regs[x as int],
                sy == m0.regs[y as int],
                self.wf(),
                self@ == (ChipModel { video: self@.video, ..m0 }),
                drawn(m0.video, m0.memory, m0.addr, sx, sy, k as nat) == (self@.video, hit, None::<int>),
            decreases total - k,
        {
            let row: usize = k / 8;
            let col: usize = k % 8;
            let row_data = self.memory[mem_at(self.addr_reg, row)];
            let set = (row_data >> ((7 - col) as u8)) & 1u8 == 1u8;
            assert(set == sprite_bit(m0.memory, m0.addr, k as int));
            if set {
                let cell: u32 = (sy as u32 + row as u32) * SCREEN_WIDTH + sx as u32 + col as u32;
                assert(cell == cell_of(sx, sy, k as int));
                if cell as usize >= SCREEN_CELLS {
                    assert(drawn(m0.video, m0.memory, m0.addr, sx, sy, (k + 1) as nat)
                        == (self@.video, hit, Some(cell as int)));
                    proof {
                        lemma_drawn_stops(m0.video, m0.memory, m0.addr, sx, sy, (k + 1) as nat, total as nat);
                    }
                    return Err(ChipException::DrawingOutOfBounds { offset: cell as usize });
                }
                let before = self.video_memory[cell as usize];
                assert(before <= 1 ==> before ^ 1u8 <= 1) by (bit_vector);
                self.video_memory.set(cell as usize, before ^ 1u8);
                if before == 1 {
                    hit = true;
                }
            }
            k += 1;
        }
        self.data_regs[FLAG] = if hit { 1 } else { 0 };
        Ok(())
    }

    /// Writes registers `0..=x` to memory from the address register on.
    fn store_regs(&mut self, x: u8)
        requires
            old(self).wf(),
            x < 16,
        ensures
            final(self).wf(),
            final(self)@ == (ChipModel {
                memory: stored(old(self)@.memory, old(self)@.regs, old(self)@.addr, (x + 1) as nat),
                ..old(self)@
            }),
    {
        let ghost m0 = self@;
        let mut k: usize = 0;
        while k <= x as usize
            invariant
                x < 16,
                k <= x + 1,
                self@ == (ChipModel { memory: stored(m0.memory, m0.regs, m0.addr, k as nat), ..m0 }),
                self.wf(),
            decreases x + 1 - k,
        {
            let at = mem_at(self.addr_reg, k);
            self.memory.set(at, self.data_regs[k]);
            k += 1;
        }
    }

    /// Fills registers `0..=x` from memory at the address register on.
    fn load_regs(&mut self, x: u8)
        requires
            old(self).wf(),
            x < 16,
        ensures
            final(self).wf(),
            final(self)@ == with_regs(old(self)@, loaded(old(self)@.regs, old(self)@.memory, old(self)@.addr, (x + 1) as nat)),
    {
        let ghost m0 = self@;
        let mut k: usize = 0;
        while k <= x as usize
            invariant
                x < 16,
                k <= x + 1,
                self@ == with_regs(m0, loaded(m0.regs, m0.memory, m0.addr, k as nat)),
                self.wf(),
            decreases x + 1 - k,
        {
            let at = mem_at(self.addr_reg, k);
            self.data_regs[k] = self.memory[at];
            k += 1;
        }
    }

    /// Applies one decoded instruction, with `rnd` as the random byte of
    /// the masked-random instruction. The instruction pointer is expected to
    /// point past the instruction already.
    pub fn execute(&mut self, ins: Instruction, rnd: u8) -> (r: Result<(), ChipException>)
        requires
            old(self).wf(),
            ins.well_formed(),
        ensures
            final(self).wf(),
            (final(self)@, r) == step(old(self)@, ins, rnd),
    {
        if !operands_valid(ins) {
            return Err(ChipException::InvalidRegister);
        }
        match ins {
            Instruction::ClearScreen => {
                let mut i: usize = 0;
                while i < SCREEN_CELLS
                    invariant
                        i <= SCREEN_CELLS,
                        self@ == (ChipModel { video: self@.video, ..old(self)@ }),
                        self@.video.len() == SCREEN_CELLS,
                        forall|j: int| 0 <= j < i ==> #[trigger] self@.video[j] == 0,
                        forall|j: int| i <= j < SCREEN_CELLS ==> #[trigger] self@.video[j] <= 1,
                    decreases SCREEN_CELLS - i,
                {
                    self.video_memory.set(i, 0);
                    i += 1;
                }
                assert(self@.video =~= Seq::new(SCREEN_CELLS as nat, |i: int| 0u8));
            },
            Instruction::Return => {
                match self.stack.pop() {
                    Some(addr) => {
                        self.ip = addr;
                    },
                    None => {
                        return Err(ChipException::ReturnOutsideSubroutine);
                    },
                }
            },
            Instruction::MachineCall { addr } | Instruction::Call { addr } => {
                self.stack.push(self.ip);
                self.ip = addr;
            },
            Instruction::Jump { addr } => {
                self.ip = addr;
            },
            Instruction::SkipEqImm { x, value } => {
                if self.data_regs[x as usize] == value {
                    self.ip = advance(self.ip);
                }
            },
            Instruction::SkipNeImm { x, value } => {
                if self.data_regs[x as usize] != value {
                    self.ip = advance(self.ip);
                }
            },
            Instruction::SkipEqReg { x, y } => {
                if self.data_regs[x as usize] == self.data_regs[y as usize] {
                    self.ip = advance(self.ip);
                }
            },
            Instruction::LoadImm { x, value } => {
                self.data_regs[x as usize] = value;
            },
            Instruction::AddImm { x, value } => {
                let sum = self.data_regs[x as usize] as u16 + value as u16;
                self.data_regs[x as usize] = (sum % 256) as u8;
            },
            Instruction::Move { x, y } => {
                self.data_regs[x as usize] = self.data_regs[y as usize];
            },
            Instruction::Or { x, y } => {
                self.data_regs[x as usize] = self.data_regs[x as usize] | self.data_regs[y as usize];
            },
            Instruction::And { x, y } => {
                self.data_regs[x as usize] = self.data_regs[x as usize] & self.data_regs[y as usize];
            },
            Instruction::Xor { x, y } => {
                self.data_regs[x as usize] = self.data_regs[x as usize] ^ self.data_regs[y as usize];
            },
            Instruction::AddCarry { x, y } => {
                let sum = self.data_regs[x as usize] as u16 + self.data_regs[y as usize] as u16;
                self.data_regs[FLAG] = if sum > 255 { 1 } else { 0 };
                self.data_regs[x as usize] = (sum % 256) as u8;
            },
            Instruction::SubBorrow { x, y } => {
                let a = self.data_regs[x as usize];
                let b = self.data_regs[y as usize];
                self.data_regs[FLAG] = if a < b { 1 } else { 0 };
                self.data_regs[x as usize] = ((a as u16 + 256 - b as u16) % 256) as u8;
            },
            Instruction::ShiftRight { x, y } => {
                let v = self.data_regs[y as usize];
                self.data_regs[x as usize] = v / 2;
                self.data_regs[FLAG] = v % 2;
            },
            Instruction::SubReverse { x, y } => {
                let a = self.data_regs[y as usize];
                let b = self.data_regs[x as usize];
                self.data_regs[FLAG] = if a < b { 1 } else { 0 };
                self.data_regs[x as usize] = ((a as u16 + 256 - b as u16) % 256) as u8;
            },
            Instruction::ShiftLeft { x, y } => {
                let v = self.data_regs[y as usize];
                self.data_regs[x as usize] = ((v as u16 * 2) % 256) as u8;
                self.data_regs[FLAG] = v / 128;
            },
            Instruction::SkipNeReg { x, y } => {
                if self.data_regs[x as usize] != self.data_regs[y as usize] {
                    self.ip = advance(self.ip);
                }
            },
            Instruction::SetAddr { addr } => {
                self.addr_reg = addr;
            },
            Instruction::JumpOffset { addr } => {
                self.ip = self.data_regs[0] as u16 + addr;
            },
            Instruction::Random { x, mask } => {
                self.data_regs[x as usize] = rnd & mask;
            },
            Instruction::Draw { x, y, n } => {
                return self.draw(x, y, n);
            },
            Instruction::SkipIfPressed { x } => {
                return Err(ChipException::SkipIfPressed { register: x });
            },
            Instruction::SkipIfNotPressed { x } => {
                return Err(ChipException::SkipIfNotPressed { register: x });
            },
            Instruction::ReadDelay { x } => {
                self.data_regs[x as usize] = self.delay_timer;
            },
            Instruction::WaitForKey { x } => {
                return Err(ChipException::WaitForKey { register: x });
            },
            Instruction::SetDelay { x } => {
                self.delay_timer = self.data_regs[x as usize];
            },
            Instruction::SetSound { x } => {
                self.sound_timer = self.data_regs[x as usize];
            },
            Instruction::AddAddr { x } => {
                self.addr_reg = ((self.addr_reg as u32 + self.data_regs[x as usize] as u32) % 65536) as u16;
            },
            Instruction::Glyph { x } => {
                let v = self.data_regs[x as usize];
                if v > 15 {
                    return Err(ChipException::InvalidFontCodePoint);
                }
                self.addr_reg = v as u16 * 5;
            },
            Instruction::Decimal { x } => {
                let (d0, d1, d2) = binary_coded_decimal(self.data_regs[x as usize]);
                let at0 = mem_at(self.addr_reg, 0);
                let at1 = mem_at(self.addr_reg, 1);
                let at2 = mem_at(self.addr_reg, 2);
                self.memory.set(at0, d0);
                self.memory.set(at1, d1);
                self.memory.set(at2, d2);
            },
            Instruction::StoreRegs { x } => {
                self.store_regs(x);
            },
            Instruction::LoadRegs { x } => {
                self.load_regs(x);
            },
        }
        Ok(())
    }

    /// Executes one instruction word with `rnd` as the random byte.
    pub fn exec_with_random(&mut self, instr: u16, rnd: u8) -> (r: Result<(), ChipException>)
        requires
            old(self).wf(),
        ensures
            final(self).wf(),
            (final(self)@, r) == run(old(self)@, instr, rnd),
    {
        match decode(instr) {
            None => Err(ChipException::IllegalInstruction),
            Some(ins) => self.execute(ins, rnd),
        }
    }

    /// Executes one instruction word. The masked-random instruction draws
    /// its byte from the thread-local generator; every other word has a
    /// single outcome.
    pub fn exec(&mut self, instr: u16) -> (r: Result<(), ChipException>)
        requires
            old(self).wf(),
        ensures
            final(self).wf(),
            exists|rnd: u8| (final(self)@, r) == #[trigger] run(old(self)@, instr, rnd),
            !draws_random(instr) ==> (final(self)@, r) == run(old(self)@, instr, 0),
    {
        let rnd = if instr / 4096 == 0xC { random_byte() } else { 0 };
        let r = self.exec_with_random(instr, rnd);
        assert(!draws_random(instr) ==> rnd == 0);
        r
    }

    /// The big-endian instruction word at the instruction pointer.
    pub fn fetch(&self) -> (w: u16)
        requires
            self.wf(),
        ensures
            w == fetch_spec(self@),
    {
        let hi = self.memory[mem_at(self.ip, 0)];
        let lo = self.memory[mem_at(self.ip, 1)];
        hi as u16 * 256 + lo as u16
    }

    /// One cycle with `rnd` as the random byte: fetch, move the instruction
    /// pointer past the word, execute it.
    pub fn cycle_with_random(&mut self, rnd: u8) -> (r: Result<(), ChipException>)
        requires
            old(self).wf(),
        ensures
            final(self).wf(),
            (final(self)@, r) == cycle_spec(old(self)@, rnd),
    {
        let next = self.fetch();
        self.ip = advance(self.ip);
        self.exec_with_random(next, rnd)
    }

    /// One cycle: fetch, move the instruction pointer past the word, execute it.
    pub fn cycle(&mut self) -> (r: Result<(), ChipException>)
        requires
            old(self).wf(),
        ensures
            final(self).wf(),
            exists|rnd: u8| (final(self)@, r) == #[trigger] cycle_spec(old(self)@, rnd),
            !draws_random(fetch_spec(old(self)@)) ==> (final(self)@, r) == cycle_spec(old(self)@, 0),
    {
        let next = self.fetch();
        let rnd = if next / 4096 == 0xC { random_byte() } else { 0 };
        let r = self.cycle_with_random(rnd);
        assert(!draws_random(next) ==> rnd == 0);
        r
    }

    /// Completes a `WaitForKey` outcome: stores the key the host reports.
    pub fn resume_wait_for_key(&mut self, register: u8, key: u8) -> (r: Result<(), ChipException>)
        requires
            old(self).wf(),
        ensures
            final(self).wf(),
            register > 15 ==> r == Err::<(), ChipException>(ChipException::InvalidRegister) && final(self)@ == old(self)@,
            register <= 15 ==> r == Ok::<(), ChipException>(())
                && final(self)@ == with_regs(old(self)@, old(self)@.regs.update(register as int, key)),
    {
        if register > 15 {
            return Err(ChipException::InvalidRegister);
        }
        self.data_regs[register as usize] = key;
        Ok(())
    }

    /// Completes a key-skip outcome against the host's key matrix: the key
    /// is the code held in the outcome's register, and a code above 15 is
    /// never held. Other outcomes are handed back untouched.
    pub fn resolve_skip(&mut self, outcome: ChipException, keys: &[bool; 16]) -> (r: Result<(), ChipException>)
        requires
            old(self).wf(),
        ensures
            final(self).wf(),
            match outcome {
                ChipException::SkipIfPressed { register } | ChipException::SkipIfNotPressed { register } =>
                    if register > 15 {
                        r == Err::<(), ChipException>(ChipException::InvalidRegister) && final(self)@ == old(self)@
                    } else {
                        let code = old(self)@.regs[register as int];
                        let held = code < 16 && keys@[code as int];
                        r == Ok::<(), ChipException>(()) && final(self)@ == skip_if(
                            old(self)@,
                            if outcome is SkipIfPressed { held } else { !held },
                        )
                    },
                _ => r == Err::<(), ChipException>(outcome) && final(self)@ == old(self)@,
            },
    {
        let (register, when_held) = match outcome {
            ChipException::SkipIfPressed { register } => (register, true),
            ChipException::SkipIfNotPressed { register } => (register, false),
            _ => {
                return Err(outcome);
            },
        };
        if register > 15 {
            return Err(ChipException::InvalidRegister);
        }
        let code = self.data_regs[register as usize];
        let held = code < 16 && keys[code as usize];
        if held == when_held {
            self.ip = advance(self.ip);
        }
        Ok(())
    }

    /// One frame of timer decay: both timers drop by one, floored at zero.
    pub fn tick_timers(&mut self)
        requires
            old(self).wf(),
        ensures
            final(self).wf(),
            final(self)@ == (ChipModel {
                delay: decayed(old(self)@.delay),
                sound: decayed(old(self)@.sound),
                ..old(self)@
            }),
    {
        if self.delay_timer > 0 {
            self.delay_timer = self.delay_timer - 1;
        }
        if self.sound_timer > 0 {
            self.sound_timer = self.sound_timer - 1;
        }
    }
}

impl Default for Chip {
    fn default() -> (r: Chip)
        ensures
            r.wf(),
            r@.memory.subrange(0, 80) == glyphs(),
            forall|i: int| 80 <= i < MEMORY_SIZE ==> #[trigger] r@.memory[i] == 0,
            forall|i: int| 0 <= i < SCREEN_CELLS ==> #[trigger] r@.video[i] == 0,
            r@.ip == LOAD_ADDR,
            r@.stack.len() == 0,
            forall|i: int| 0 <= i < 16 ==> #[trigger] r@.regs[i] == 0,
            r@.addr == 0,
            r@.delay == 0,
            r@.sound == 0,
    {
        Chip::new()
    }
}

} // verus!
