use vstd::prelude::*;

use crate::font::{font_glyphs, font_set, FONT_SET_LEN};
use crate::instruction::{decode, decode_spec, operands_in_range, Instruction};
use vstd::arithmetic::div_mod::{lemma_fundamental_div_mod, lemma_mod_multiples_vanish, lemma_small_mod};

verus! {

pub const CHIP8_WIDTH: usize = 64;

pub const CHIP8_HEIGHT: usize = 32;

pub const CHIP8_MEMORY: usize = 4096;

/// Where programs are loaded and where execution starts.
pub const PROGRAM_START: usize = 0x200;

/// Size of one instruction word in bytes.
pub const OPCODE_SIZE: usize = 2;

/// Depth of the call stack.
pub const STACK_DEPTH: usize = 16;

/// How an instruction moves the program counter.
#[derive(Clone, Copy, Debug, PartialEq, Eq, Structural)]
pub enum ProgramCounter {
    /// To the following instruction (+2).
    Next,
    /// Over the following instruction (+4).
    Skip,
    /// To an absolute address.
    Jump(usize),
}

impl ProgramCounter {
    pub fn skip_if(condition: bool) -> (r: ProgramCounter)
        ensures
            r == skip_if_spec(condition),
    {
        if condition {
            ProgramCounter::Skip
        } else {
            ProgramCounter::Next
        }
    }
}

pub open spec fn skip_if_spec(condition: bool) -> ProgramCounter {
    if condition {
        ProgramCounter::Skip
    } else {
        ProgramCounter::Next
    }
}

/// A condition that stops an instruction: the program asked for something
/// the machine cannot do. The instruction then changes nothing.
#[derive(Clone, Copy, Debug, PartialEq, Eq, Structural)]
pub enum Fault {
    /// A call with all 16 stack levels in use.
    StackOverflow,
    /// A return with an empty stack.
    StackUnderflow,
    /// A memory access at or past address 4096.
    MemoryOutOfRange,
    /// The index register would exceed the machine word.
    IndexOverflow,
    /// A key test on a register that holds no key number (16 or more).
    KeyOutOfRange,
}

/// The machine's state as mathematical values.
#[verifier::ext_equal]
pub struct MachineState {
    pub ram: Seq<u8>,
    /// Rows of pixels: `vram[row][column]`.
    pub vram: Seq<Seq<u8>>,
    pub vram_changed: bool,
    pub stack: Seq<usize>,
    pub v: Seq<u8>,
    pub i: usize,
    pub pc: usize,
    pub sp: usize,
    pub delay_timer: u8,
    pub sound_timer: u8,
    pub keypad: Seq<bool>,
    pub keypad_waiting: bool,
    pub keypad_register: usize,
}

impl MachineState {
    /// Shapes of the containers, and the two bounded indices in range.
    pub open spec fn wf(self) -> bool {
        &&& self.ram.len() == CHIP8_MEMORY
        &&& self.vram.len() == CHIP8_HEIGHT
        &&& forall|r: int| 0 <= r < CHIP8_HEIGHT ==> #[trigger] self.vram[r].len() == CHIP8_WIDTH
        &&& self.stack.len() == STACK_DEPTH
        &&& self.v.len() == 16
        &&& self.keypad.len() == 16
        &&& self.sp <= STACK_DEPTH
        &&& self.keypad_register < 16
    }

    /// The same state with register `x` set to `b`.
    pub open spec fn with_v(self, x: int, b: u8) -> MachineState {
        MachineState { v: self.v.update(x, b), ..self }
    }
}

/// An all-dark display.
pub open spec fn blank_screen() -> Seq<Seq<u8>> {
    Seq::new(CHIP8_HEIGHT as nat, |r: int| Seq::new(CHIP8_WIDTH as nat, |c: int| 0u8))
}

/// Memory of a fresh machine: the glyph table at address 0, zeros elsewhere.
pub open spec fn initial_ram() -> Seq<u8> {
    Seq::new(CHIP8_MEMORY as nat, |a: int| if a < FONT_SET_LEN { font_glyphs()[a] } else { 0u8 })
}

/// A fresh machine.
pub open spec fn initial_state() -> MachineState {
    MachineState {
        ram: initial_ram(),
        vram: blank_screen(),
        vram_changed: false,
        stack: Seq::new(STACK_DEPTH as nat, |k: int| 0usize),
        v: Seq::new(16, |k: int| 0u8),
        i: 0,
        pc: PROGRAM_START,
        sp: 0,
        delay_timer: 0,
        sound_timer: 0,
        keypad: Seq::new(16, |k: int| false),
        keypad_waiting: false,
        keypad_register: 0,
    }
}

/// `ram` with `data` copied in from `PROGRAM_START`; bytes that would land
/// past the end of memory are dropped.
pub open spec fn loaded(ram: Seq<u8>, data: Seq<u8>) -> Seq<u8> {
    Seq::new(
        ram.len(),
        |a: int|
            if PROGRAM_START <= a < PROGRAM_START + data.len() {
                data[a - PROGRAM_START]
            } else {
                ram[a]
            },
    )
}

/// Bit `col` (0 = most significant) of sprite row `row`, read at I + row.
pub open spec fn sprite_bit(s: MachineState, row: int, col: int) -> u8 {
    (s.ram[s.i + row] >> ((7 - col) as u8)) & 1u8
}

/// The sprite row that lands on display row `r` when drawn from row `vy`.
pub open spec fn sprite_row(vy: u8, r: int) -> int {
    (r - vy) % (CHIP8_HEIGHT as int)
}

/// The sprite column that lands on display column `c` when drawn from
/// column `vx`.
pub open spec fn sprite_col(vx: u8, c: int) -> int {
    (c - vx) % (CHIP8_WIDTH as int)
}

/// Pixel (r, c) after the first `p` sprite bits (row by row, most
/// significant first) of an `n`-row sprite were XORed in at (vx, vy),
/// wrapping at the display edges.
pub open spec fn pixel_after(s: MachineState, vx: u8, vy: u8, n: int, p: int, r: int, c: int) -> u8 {
    let row = sprite_row(vy, r);
    let col = sprite_col(vx, c);
    if row < n && col < 8 && row * 8 + col < p {
        s.vram[r][c] ^ sprite_bit(s, row, col)
    } else {
        s.vram[r][c]
    }
}

/// The display after drawing the first `p` sprite bits.
pub open spec fn drawn_upto(s: MachineState, vx: u8, vy: u8, n: int, p: int) -> Seq<Seq<u8>> {
    Seq::new(
        CHIP8_HEIGHT as nat,
        |r: int| Seq::new(CHIP8_WIDTH as nat, |c: int| pixel_after(s, vx, vy, n, p, r, c)),
    )
}

/// The display after drawing the whole `n`-row sprite at (vx, vy).
pub open spec fn drawn(s: MachineState, vx: u8, vy: u8, n: int) -> Seq<Seq<u8>> {
    drawn_upto(s, vx, vy, n, n * 8)
}

/// The display pixel that sprite bit (row, col) lands on when the sprite
/// is drawn at (vx, vy).
pub open spec fn pixel_under(s: MachineState, vx: u8, vy: u8, row: int, col: int) -> u8 {
    s.vram[(vy + row) % (CHIP8_HEIGHT as int)][(vx + col) % (CHIP8_WIDTH as int)]
}

/// Some among the first `p` sprite bits is set and lands on a lit pixel.
pub open spec fn collides_upto(s: MachineState, vx: u8, vy: u8, n: int, p: int) -> bool {
    exists|row: int, col: int|
        0 <= row < n && 0 <= col < 8 && row * 8 + col < p && #[trigger] sprite_bit(s, row, col)
            == 1 && pixel_under(s, vx, vy, row, col) & 1 == 1
}

/// Drawing the `n`-row sprite at (vx, vy) turns some lit pixel off.
pub open spec fn collides(s: MachineState, vx: u8, vy: u8, n: int) -> bool {
    collides_upto(s, vx, vy, n, n * 8)
}

/// A sprite of `n` rows read at I would leave memory.
pub open spec fn sprite_out_of_range(s: MachineState, n: int) -> bool {
    n > 0 && s.i + n > CHIP8_MEMORY
}

/// `ram` with registers V0..=Vx stored from address `i`.
pub open spec fn dumped(ram: Seq<u8>, v: Seq<u8>, i: int, x: int) -> Seq<u8> {
    Seq::new(ram.len(), |a: int| if i <= a <= i + x { v[a - i] } else { ram[a] })
}

/// Registers with V0..=Vx read from memory at address `i`.
pub open spec fn restored(v: Seq<u8>, ram: Seq<u8>, i: int, x: int) -> Seq<u8> {
    Seq::new(v.len(), |r: int| if r <= x { ram[i + r] } else { v[r] })
}

pub open spec fn flag(b: bool) -> u8 {
    if b {
        1u8
    } else {
        0u8
    }
}

/// What an instruction does to the state, apart from the program counter,
/// and how it moves the program counter; `rnd` is the byte drawn for the
/// random instruction.
#[verifier::opaque]
pub open spec fn effect(s: MachineState, ins: Instruction, rnd: u8) -> Result<
    (MachineState, ProgramCounter),
    Fault,
> {
    match ins {
        Instruction::Clear => Ok(
            (MachineState { vram: blank_screen(), vram_changed: true, ..s }, ProgramCounter::Next),
        ),
        Instruction::Return => if s.sp == 0 {
            Err(Fault::StackUnderflow)
        } else {
            Ok(
                (
                    MachineState { sp: (s.sp - 1) as usize, ..s },
                    ProgramCounter::Jump(s.stack[s.sp - 1]),
                ),
            )
        },
        Instruction::Jump { addr } => Ok((s, ProgramCounter::Jump(addr))),
        Instruction::Call { addr } => if s.sp >= STACK_DEPTH {
            Err(Fault::StackOverflow)
        } else {
            Ok(
                (
                    MachineState {
                        stack: s.stack.update(s.sp as int, (s.pc + OPCODE_SIZE) as usize),
                        sp: (s.sp + 1) as usize,
                        ..s
                    },
                    ProgramCounter::Jump(addr),
                ),
            )
        },
        Instruction::SkipEqByte { x, kk } => Ok((s, skip_if_spec(s.v[x as int] == kk))),
        Instruction::SkipNeByte { x, kk } => Ok((s, skip_if_spec(s.v[x as int] != kk))),
        Instruction::SkipEqReg { x, y } => Ok((s, skip_if_spec(s.v[x as int] == s.v[y as int]))),
        Instruction::LoadByte { x, kk } => Ok((s.with_v(x as int, kk), ProgramCounter::Next)),
        Instruction::AddByte { x, kk } => Ok(
            (s.with_v(x as int, ((s.v[x as int] + kk) % 256) as u8), ProgramCounter::Next),
        ),
        Instruction::LoadReg { x, y } => Ok((s.with_v(x as int, s.v[y as int]), ProgramCounter::Next)),
        Instruction::Or { x, y } => Ok(
            (s.with_v(x as int, s.v[x as int] | s.v[y as int]), ProgramCounter::Next),
        ),
        Instruction::And { x, y } => Ok(
            (s.with_v(x as int, s.v[x as int] & s.v[y as int]), ProgramCounter::Next),
        ),
        Instruction::Xor { x, y } => Ok(
            (s.with_v(x as int, s.v[x as int] ^ s.v[y as int]), ProgramCounter::Next),
        ),
        Instruction::AddReg { x, y } => {
            let sum = s.v[x as int] + s.v[y as int];
            Ok((s.with_v(x as int, (sum % 256) as u8).with_v(15, flag(sum > 255)), ProgramCounter::Next))
        },
        Instruction::SubReg { x, y } => {
            let t = s.with_v(15, flag(s.v[x as int] > s.v[y as int]));
            Ok(
                (
                    t.with_v(x as int, ((t.v[x as int] - t.v[y as int]) % 256) as u8),
                    ProgramCounter::Next,
                ),
            )
        },
        Instruction::ShiftRight { x } => {
            let t = s.with_v(15, s.v[x as int] & 1);
            Ok((t.with_v(x as int, t.v[x as int] >> 1u8), ProgramCounter::Next))
        },
        Instruction::SubNeg { x, y } => {
            let t = s.with_v(15, flag(s.v[y as int] > s.v[x as int]));
            Ok(
                (
                    t.with_v(x as int, ((t.v[y as int] - t.v[x as int]) % 256) as u8),
                    ProgramCounter::Next,
                ),
            )
        },
        Instruction::ShiftLeft { x } => {
            let t = s.with_v(15, s.v[x as int] >> 7u8);
            Ok((t.with_v(x as int, t.v[x as int] << 1u8), ProgramCounter::Next))
        },
        Instruction::SkipNeReg { x, y } => Ok((s, skip_if_spec(s.v[x as int] != s.v[y as int]))),
        Instruction::LoadIndex { addr } => Ok((MachineState { i: addr, ..s }, ProgramCounter::Next)),
        Instruction::JumpOffset { addr } => Ok(
            (s, ProgramCounter::Jump((addr + s.v[0]) as usize)),
        ),
        Instruction::Random { x, kk } => Ok((s.with_v(x as int, rnd & kk), ProgramCounter::Next)),
        Instruction::Draw { x, y, n } => if sprite_out_of_range(s, n as int) {
            Err(Fault::MemoryOutOfRange)
        } else {
            let (vx, vy) = (s.v[x as int], s.v[y as int]);
            Ok(
                (
                    MachineState {
                        vram: drawn(s, vx, vy, n as int),
                        vram_changed: true,
                        v: s.v.update(15, flag(collides(s, vx, vy, n as int))),
                        ..s
                    },
                    ProgramCounter::Next,
                ),
            )
        },
        Instruction::SkipKey { x } => if s.v[x as int] >= 16 {
            Err(Fault::KeyOutOfRange)
        } else {
            Ok((s, skip_if_spec(s.keypad[s.v[x as int] as int])))
        },
        Instruction::SkipNoKey { x } => if s.v[x as int] >= 16 {
            Err(Fault::KeyOutOfRange)
        } else {
            Ok((s, skip_if_spec(!s.keypad[s.v[x as int] as int])))
        },
        Instruction::LoadDelay { x } => Ok((s.with_v(x as int, s.delay_timer), ProgramCounter::Next)),
        Instruction::WaitKey { x } => Ok(
            (MachineState { keypad_waiting: true, keypad_register: x, ..s }, ProgramCounter::Next),
        ),
        Instruction::SetDelay { x } => Ok(
            (MachineState { delay_timer: s.v[x as int], ..s }, ProgramCounter::Next),
        ),
        Instruction::SetSound { x } => Ok(
            (MachineState { sound_timer: s.v[x as int], ..s }, ProgramCounter::Next),
        ),
        Instruction::AddIndex { x } => if s.i + s.v[x as int] > usize::MAX {
            Err(Fault::IndexOverflow)
        } else {
            Ok((MachineState { i: (s.i + s.v[x as int]) as usize, ..s }, ProgramCounter::Next))
        },
        Instruction::LoadFont { x } => Ok(
            (MachineState { i: (s.v[x as int] * 5) as usize, ..s }, ProgramCounter::Next),
        ),
        Instruction::StoreBcd { x } => if s.i + 2 >= CHIP8_MEMORY {
            Err(Fault::MemoryOutOfRange)
        } else {
            let b = s.v[x as int];
            Ok(
                (
                    MachineState {
                        ram: s.ram.update(s.i as int, b / 100).update(s.i + 1, (b / 10) % 10).update(
                            s.i + 2,
                            b % 10,
                        ),
                        ..s
                    },
                    ProgramCounter::Next,
                ),
            )
        },
        Instruction::StoreRegs { x } => if s.i + x >= CHIP8_MEMORY {
            Err(Fault::MemoryOutOfRange)
        } else {
            Ok((MachineState { ram: dumped(s.ram, s.v, s.i as int, x as int), ..s }, ProgramCounter::Next))
        },
        Instruction::LoadRegs { x } => if s.i + x >= CHIP8_MEMORY {
            Err(Fault::MemoryOutOfRange)
        } else {
            Ok((MachineState { v: restored(s.v, s.ram, s.i as int, x as int), ..s }, ProgramCounter::Next))
        },
        Instruction::Unknown => Ok((s, ProgramCounter::Next)),
    }
}

/// The program counter after a move of kind `c` from `pc`.
pub open spec fn advance(pc: usize, c: ProgramCounter) -> usize {
    match c {
        ProgramCounter::Next => (pc + OPCODE_SIZE) as usize,
        ProgramCounter::Skip => (pc + 2 * OPCODE_SIZE) as usize,
        ProgramCounter::Jump(addr) => addr,
    }
}

/// The state after executing `ins`, or the fault that stops it.
pub open spec fn execute_spec(s: MachineState, ins: Instruction, rnd: u8) -> Result<MachineState, Fault> {
    match effect(s, ins, rnd) {
        Ok((t, c)) => Ok(MachineState { pc: advance(s.pc, c), ..t }),
        Err(e) => Err(e),
    }
}

/// The big-endian instruction word at the program counter.
pub open spec fn fetch(s: MachineState) -> u16 {
    (s.ram[s.pc as int] * 256 + s.ram[s.pc + 1]) as u16
}

/// Key `k` is pressed and no lower-numbered key is.
pub open spec fn is_first_pressed(keys: Seq<bool>, k: int) -> bool {
    0 <= k < 16 && keys[k] && forall|j: int| 0 <= j < k ==> !#[trigger] keys[j]
}

pub open spec fn timer_after(t: u8) -> u8 {
    if t > 0 {
        (t - 1) as u8
    } else {
        0
    }
}

/// One tick of the machine given the keypad and the random byte: the new
/// state, and the fault that stopped the instruction, if any.
pub open spec fn step_spec(s: MachineState, keys: Seq<bool>, rnd: u8) -> (MachineState, Option<Fault>) {
    let t = MachineState { keypad: keys, vram_changed: false, ..s };
    if s.keypad_waiting {
        if exists|k: int| is_first_pressed(keys, k) {
            let k = choose|k: int| is_first_pressed(keys, k);
            (MachineState { keypad_waiting: false, ..t.with_v(s.keypad_register as int, k as u8) }, None)
        } else {
            (t, None)
        }
    } else {
        let u = MachineState {
            delay_timer: timer_after(s.delay_timer),
            sound_timer: timer_after(s.sound_timer),
            ..t
        };
        if u.pc + 1 >= CHIP8_MEMORY {
            (u, Some(Fault::MemoryOutOfRange))
        } else {
            match execute_spec(u, decode_spec(fetch(u)), rnd) {
                Ok(w) => (w, None),
                Err(e) => (u, Some(e)),
            }
        }
    }
}

/// What a tick hands to the display and audio: the display, whether it
/// changed during the tick, and whether a tone should sound.
pub struct OutputState<'a> {
    pub vram: &'a [[u8; CHIP8_WIDTH]; CHIP8_HEIGHT],
    pub vram_changed: bool,
    pub beep: bool,
}

/// The CHIP-8 processor with all of its state.
pub struct Processor {
    pub vram: [[u8; CHIP8_WIDTH]; CHIP8_HEIGHT],
    pub vram_changed: bool,
    pub ram: [u8; CHIP8_MEMORY],
    pub stack: [usize; STACK_DEPTH],
    pub v: [u8; 16],
    pub i: usize,
    pub pc: usize,
    pub sp: usize,
    pub delay_timer: u8,
    pub sound_timer: u8,
    pub keypad: [bool; 16],
    pub keypad_waiting: bool,
    pub keypad_register: usize,
}

impl View for Processor {
    type V = MachineState;

    open spec fn view(&self) -> MachineState {
        MachineState {
            ram: self.ram@,
            vram: self.vram@.map_values(|row: [u8; CHIP8_WIDTH]| row@),
            vram_changed: self.vram_changed,
            stack: self.stack@,
            v: self.v@,
            i: self.i,
            pc: self.pc,
            sp: self.sp,
            delay_timer: self.delay_timer,
            sound_timer: self.sound_timer,
            keypad: self.keypad@,
            keypad_waiting: self.keypad_waiting,
            keypad_register: self.keypad_register,
        }
    }
}

impl Processor {
    pub open spec fn wf(&self) -> bool {
        self.sp <= STACK_DEPTH && self.keypad_register < 16
    }

    /// A fresh machine: glyph table at address 0, everything else zero,
    /// program counter at `PROGRAM_START`.
    pub fn new() -> (r: Processor)
        ensures
            r.wf(),
            r@ == initial_state(),
    {
        let font = font_set();
        let mut ram = [0u8; CHIP8_MEMORY];
        let mut k: usize = 0;
        while k < FONT_SET_LEN
            invariant
                k <= FONT_SET_LEN,
                font@ == font_glyphs(),
                forall|a: int| 0 <= a < k ==> ram@[a] == font_glyphs()[a],
                forall|a: int| k <= a < CHIP8_MEMORY ==> ram@[a] == 0,
            decreases FONT_SET_LEN - k,
        {
            ram[k] = font[k];
            k = k + 1;
        }
        let r = Processor {
            vram: [[0u8; CHIP8_WIDTH]; CHIP8_HEIGHT],
            vram_changed: false,
            ram,
            stack: [0usize; STACK_DEPTH],
            v: [0u8; 16],
            i: 0,
            pc: PROGRAM_START,
            sp: 0,
            delay_timer: 0,
            sound_timer: 0,
            keypad: [false; 16],
            keypad_waiting: false,
            keypad_register: 0,
        };
        assert(r.ram@ =~= initial_ram());
        assert(r@.vram =~~= blank_screen());
        assert(r@.stack =~= initial_state().stack);
        assert(r@.v =~= initial_state().v);
        assert(r@.keypad =~= initial_state().keypad);
        assert(r@ =~= initial_state());
        r
    }

    /// Copies `data` into memory from `PROGRAM_START`; bytes that would land
    /// past the end of memory are dropped. Nothing else changes.
    pub fn load(&mut self, data: &[u8])
        ensures
            final(self)@ == (MachineState { ram: loaded(old(self)@.ram, data@), ..old(self)@ }),
            final(self).wf() == old(self).wf(),
    {
        let ghost ram0 = self.ram@;
        let mut k: usize = 0;
        while k < data.len() && k < CHIP8_MEMORY - PROGRAM_START
            invariant
                k <= data@.len(),
                k <= CHIP8_MEMORY - PROGRAM_START,
                self.ram@.len() == CHIP8_MEMORY,
                forall|a: int|
                    0 <= a < CHIP8_MEMORY ==> self.ram@[a] == if PROGRAM_START <= a < PROGRAM_START + k {
                        data@[a - PROGRAM_START]
                    } else {
                        ram0[a]
                    },
                self.vram == old(self).vram,
                self.vram_changed == old(self).vram_changed,
                self.stack == old(self).stack,
                self.v == old(self).v,
                self.i == old(self).i,
                self.pc == old(self).pc,
                self.sp == old(self).sp,
                self.delay_timer == old(self).delay_timer,
                self.sound_timer == old(self).sound_timer,
                self.keypad == old(self).keypad,
                self.keypad_waiting == old(self).keypad_waiting,
                self.keypad_register == old(self).keypad_register,
            decreases data@.len() - k,
        {
            self.ram[PROGRAM_START + k] = data[k];
            k = k + 1;
        }
        assert(self.ram@ =~= loaded(ram0, data@));
    }
}


/// `post` and the program-counter move `r` are what `ins` does to `pre`
/// (or `r` is the fault it stops on, and nothing changed).
pub open spec fn performs(
    pre: MachineState,
    ins: Instruction,
    rnd: u8,
    post: MachineState,
    r: Result<ProgramCounter, Fault>,
) -> bool {
    match r {
        Ok(c) => effect(pre, ins, rnd) == Ok::<(MachineState, ProgramCounter), Fault>((post, c)),
        Err(e) => effect(pre, ins, rnd) == Err::<(MachineState, ProgramCounter), Fault>(e) && post
            == pre,
    }
}

impl Processor {
    /// CLS
    fn op_00e0(&mut self) -> (r: ProgramCounter)
        requires
            old(self).wf(),
        ensures
            final(self).wf(),
            performs(old(self)@, Instruction::Clear, 0, final(self)@, Ok(r)),
    {
        proof {
            reveal(effect);
        }
        self.vram = [[0u8; CHIP8_WIDTH]; CHIP8_HEIGHT];
        self.vram_changed = true;
        assert(self@.vram =~~= blank_screen());
        ProgramCounter::Next
    }

    /// RET
    fn op_00ee(&mut self) -> (r: Result<ProgramCounter, Fault>)
        requires
            old(self).wf(),
        ensures
            final(self).wf(),
            performs(old(self)@, Instruction::Return, 0, final(self)@, r),
    {
        proof {
            reveal(effect);
        }
        if self.sp == 0 {
            return Err(Fault::StackUnderflow);
        }
        self.sp = self.sp - 1;
        Ok(ProgramCounter::Jump(self.stack[self.sp]))
    }

    /// JP addr
    fn op_1nnn(&self, addr: usize) -> (r: ProgramCounter)
        ensures
            performs(self@, Instruction::Jump { addr }, 0, self@, Ok(r)),
    {
        proof {
            reveal(effect);
        }
        ProgramCounter::Jump(addr)
    }

    /// CALL addr
    fn op_2nnn(&mut self, addr: usize) -> (r: Result<ProgramCounter, Fault>)
        requires
            old(self).wf(),
            old(self).pc < CHIP8_MEMORY,
        ensures
            final(self).wf(),
            performs(old(self)@, Instruction::Call { addr }, 0, final(self)@, r),
    {
        proof {
            reveal(effect);
        }
        if self.sp >= STACK_DEPTH {
            return Err(Fault::StackOverflow);
        }
        self.stack[self.sp] = self.pc + OPCODE_SIZE;
        self.sp = self.sp + 1;
        Ok(ProgramCounter::Jump(addr))
    }

    /// SE Vx, byte
    fn op_3xkk(&self, x: usize, kk: u8) -> (r: ProgramCounter)
        requires
            x < 16,
        ensures
            performs(self@, Instruction::SkipEqByte { x, kk }, 0, self@, Ok(r)),
    {
        proof {
            reveal(effect);
        }
        ProgramCounter::skip_if(self.v[x] == kk)
    }

    /// SNE Vx, byte
    fn op_4xkk(&self, x: usize, kk: u8) -> (r: ProgramCounter)
        requires
            x < 16,
        ensures
            performs(self@, Instruction::SkipNeByte { x, kk }, 0, self@, Ok(r)),
    {
        proof {
            reveal(effect);
        }
        ProgramCounter::skip_if(self.v[x] != kk)
    }

    /// SE Vx, Vy
    fn op_5xy0(&self, x: usize, y: usize) -> (r: ProgramCounter)
        requires
            x < 16,
            y < 16,
        ensures
            performs(self@, Instruction::SkipEqReg { x, y }, 0, self@, Ok(r)),
    {
        proof {
            reveal(effect);
        }
        ProgramCounter::skip_if(self.v[x] == self.v[y])
    }

    /// LD Vx, byte
    fn op_6xkk(&mut self, x: usize, kk: u8) -> (r: ProgramCounter)
        requires
            old(self).wf(),
            x < 16,
        ensures
            final(self).wf(),
            performs(old(self)@, Instruction::LoadByte { x, kk }, 0, final(self)@, Ok(r)),
    {
        proof {
            reveal(effect);
        }
        self.v[x] = kk;
        ProgramCounter::Next
    }

    /// ADD Vx, byte
    fn op_7xkk(&mut self, x: usize, kk: u8) -> (r: ProgramCounter)
        requires
            old(self).wf(),
            x < 16,
        ensures
            final(self).wf(),
            performs(old(self)@, Instruction::AddByte { x, kk }, 0, final(self)@, Ok(r)),
    {
        proof {
            reveal(effect);
        }
        self.v[x] = self.v[x].wrapping_add(kk);
        ProgramCounter::Next
    }

    /// LD Vx, Vy
    fn op_8xy0(&mut self, x: usize, y: usize) -> (r: ProgramCounter)
        requires
            old(self).wf(),
            x < 16,
            y < 16,
        ensures
            final(self).wf(),
            performs(old(self)@, Instruction::LoadReg { x, y }, 0, final(self)@, Ok(r)),
    {
        proof {
            reveal(effect);
        }
        self.v[x] = self.v[y];
        ProgramCounter::Next
    }

    /// OR Vx, Vy
    fn op_8xy1(&mut self, x: usize, y: usize) -> (r: ProgramCounter)
        requires
            old(self).wf(),
            x < 16,
            y < 16,
        ensures
            final(self).wf(),
            performs(old(self)@, Instruction::Or { x, y }, 0, final(self)@, Ok(r)),
    {
        proof {
            reveal(effect);
        }
        self.v[x] = self.v[x] | self.v[y];
        ProgramCounter::Next
    }

    /// AND Vx, Vy
    fn op_8xy2(&mut self, x: usize, y: usize) -> (r: ProgramCounter)
        requires
            old(self).wf(),
            x < 16,
            y < 16,
        ensures
            final(self).wf(),
            performs(old(self)@, Instruction::And { x, y }, 0, final(self)@, Ok(r)),
    {
        proof {
            reveal(effect);
        }
        self.v[x] = self.v[x] & self.v[y];
        ProgramCounter::Next
    }

    /// XOR Vx, Vy
    fn op_8xy3(&mut self, x: usize, y: usize) -> (r: ProgramCounter)
        requires
            old(self).wf(),
            x < 16,
            y < 16,
        ensures
            final(self).wf(),
            performs(old(self)@, Instruction::Xor { x, y }, 0, final(self)@, Ok(r)),
    {
        proof {
            reveal(effect);
        }
        self.v[x] = self.v[x] ^ self.v[y];
        ProgramCounter::Next
    }

    /// ADD Vx, Vy: the sum wraps; VF is 1 when it exceeded 255.
    fn op_8xy4(&mut self, x: usize, y: usize) -> (r: ProgramCounter)
        requires
            old(self).wf(),
            x < 16,
            y < 16,
        ensures
            final(self).wf(),
            performs(old(self)@, Instruction::AddReg { x, y }, 0, final(self)@, Ok(r)),
    {
        proof {
            reveal(effect);
        }
        let result: u16 = self.v[x] as u16 + self.v[y] as u16;
        self.v[x] = self.v[x].wrapping_add(self.v[y]);
        self.v[15] = if result > 0xFF { 1 } else { 0 };
        ProgramCounter::Next
    }

    /// SUB Vx, Vy: VF is 1 when Vx > Vy (no borrow); the difference wraps.
    fn op_8xy5(&mut self, x: usize, y: usize) -> (r: ProgramCounter)
        requires
            old(self).wf(),
            x < 16,
            y < 16,
        ensures
            final(self).wf(),
            performs(old(self)@, Instruction::SubReg { x, y }, 0, final(self)@, Ok(r)),
    {
        proof {
            reveal(effect);
        }
        self.v[15] = if self.v[x] > self.v[y] { 1 } else { 0 };
        self.v[x] = self.v[x].wrapping_sub(self.v[y]);
        ProgramCounter::Next
    }

    /// SHR Vx: VF takes bit 0 of Vx, then Vx shifts right by one.
    fn op_8x06(&mut self, x: usize) -> (r: ProgramCounter)
        requires
            old(self).wf(),
            x < 16,
        ensures
            final(self).wf(),
            performs(old(self)@, Instruction::ShiftRight { x }, 0, final(self)@, Ok(r)),
    {
        proof {
            reveal(effect);
        }
        self.v[15] = self.v[x] & 1;
        self.v[x] = self.v[x] >> 1u8;
        ProgramCounter::Next
    }

    /// SUBN Vx, Vy: VF is 1 when Vy > Vx (no borrow); Vx = Vy - Vx, wrapping.
    fn op_8xy7(&mut self, x: usize, y: usize) -> (r: ProgramCounter)
        requires
            old(self).wf(),
            x < 16,
            y < 16,
        ensures
            final(self).wf(),
            performs(old(self)@, Instruction::SubNeg { x, y }, 0, final(self)@, Ok(r)),
    {
        proof {
            reveal(effect);
        }
        self.v[15] = if self.v[y] > self.v[x] { 1 } else { 0 };
        self.v[x] = self.v[y].wrapping_sub(self.v[x]);
        ProgramCounter::Next
    }

    /// SHL Vx: VF takes bit 7 of Vx, then Vx shifts left by one.
    fn op_8x0e(&mut self, x: usize) -> (r: ProgramCounter)
        requires
            old(self).wf(),
            x < 16,
        ensures
            final(self).wf(),
            performs(old(self)@, Instruction::ShiftLeft { x }, 0, final(self)@, Ok(r)),
    {
        proof {
            reveal(effect);
        }
        self.v[15] = self.v[x] >> 7u8;
        self.v[x] = self.v[x] << 1u8;
        ProgramCounter::Next
    }

    /// SNE Vx, Vy
    fn op_9xy0(&self, x: usize, y: usize) -> (r: ProgramCounter)
        requires
            x < 16,
            y < 16,
        ensures
            performs(self@, Instruction::SkipNeReg { x, y }, 0, self@, Ok(r)),
    {
        proof {
            reveal(effect);
        }
        ProgramCounter::skip_if(self.v[x] != self.v[y])
    }

    /// LD I, addr
    fn op_annn(&mut self, addr: usize) -> (r: ProgramCounter)
        requires
            old(self).wf(),
        ensures
            final(self).wf(),
            performs(old(self)@, Instruction::LoadIndex { addr }, 0, final(self)@, Ok(r)),
    {
        proof {
            reveal(effect);
        }
        self.i = addr;
        ProgramCounter::Next
    }

    /// JP V0, addr
    fn op_bnnn(&self, addr: usize) -> (r: ProgramCounter)
        requires
            addr < 0x1000,
        ensures
            performs(self@, Instruction::JumpOffset { addr }, 0, self@, Ok(r)),
    {
        proof {
            reveal(effect);
        }
        ProgramCounter::Jump(addr + self.v[0] as usize)
    }

    /// RND Vx, byte: `random` is the byte drawn for this instruction.
    fn op_cxkk(&mut self, x: usize, kk: u8, random: u8) -> (r: ProgramCounter)
        requires
            old(self).wf(),
            x < 16,
        ensures
            final(self).wf(),
            performs(old(self)@, Instruction::Random { x, kk }, random, final(self)@, Ok(r)),
    {
        proof {
            reveal(effect);
        }
        self.v[x] = random & kk;
        ProgramCounter::Next
    }

    /// SKP Vx
    fn op_ex9e(&self, x: usize) -> (r: Result<ProgramCounter, Fault>)
        requires
            x < 16,
        ensures
            performs(self@, Instruction::SkipKey { x }, 0, self@, r),
    {
        proof {
            reveal(effect);
        }
        let key = self.v[x] as usize;
        if key >= 16 {
            return Err(Fault::KeyOutOfRange);
        }
        Ok(ProgramCounter::skip_if(self.keypad[key]))
    }

    /// SKNP Vx
    fn op_exa1(&self, x: usize) -> (r: Result<ProgramCounter, Fault>)
        requires
            x < 16,
        ensures
            performs(self@, Instruction::SkipNoKey { x }, 0, self@, r),
    {
        proof {
            reveal(effect);
        }
        let key = self.v[x] as usize;
        if key >= 16 {
            return Err(Fault::KeyOutOfRange);
        }
        Ok(ProgramCounter::skip_if(!self.keypad[key]))
    }

    /// LD Vx, DT
    fn op_fx07(&mut self, x: usize) -> (r: ProgramCounter)
        requires
            old(self).wf(),
            x < 16,
        ensures
            final(self).wf(),
            performs(old(self)@, Instruction::LoadDelay { x }, 0, final(self)@, Ok(r)),
    {
        proof {
            reveal(effect);
        }
        self.v[x] = self.delay_timer;
        ProgramCounter::Next
    }

    /// LD Vx, K: the following ticks wait for a key.
    fn op_fx0a(&mut self, x: usize) -> (r: ProgramCounter)
        requires
            old(self).wf(),
            x < 16,
        ensures
            final(self).wf(),
            performs(old(self)@, Instruction::WaitKey { x }, 0, final(self)@, Ok(r)),
    {
        proof {
            reveal(effect);
        }
        self.keypad_waiting = true;
        self.keypad_register = x;
        ProgramCounter::Next
    }

    /// LD DT, Vx
    fn op_fx15(&mut self, x: usize) -> (r: ProgramCounter)
        requires
            old(self).wf(),
            x < 16,
        ensures
            final(self).wf(),
            performs(old(self)@, Instruction::SetDelay { x }, 0, final(self)@, Ok(r)),
    {
        proof {
            reveal(effect);
        }
        self.delay_timer = self.v[x];
        ProgramCounter::Next
    }

    /// LD ST, Vx
    fn op_fx18(&mut self, x: usize) -> (r: ProgramCounter)
        requires
            old(self).wf(),
            x < 16,
        ensures
            final(self).wf(),
            performs(old(self)@, Instruction::SetSound { x }, 0, final(self)@, Ok(r)),
    {
        proof {
            reveal(effect);
        }
        self.sound_timer = self.v[x];
        ProgramCounter::Next
    }

    /// ADD I, Vx: VF is not touched.
    fn op_fx1e(&mut self, x: usize) -> (r: Result<ProgramCounter, Fault>)
        requires
            old(self).wf(),
            x < 16,
        ensures
            final(self).wf(),
            performs(old(self)@, Instruction::AddIndex { x }, 0, final(self)@, r),
    {
        proof {
            reveal(effect);
        }
        let add = self.v[x] as usize;
        if add > usize::MAX - self.i {
            return Err(Fault::IndexOverflow);
        }
        self.i = self.i + add;
        Ok(ProgramCounter::Next)
    }

    /// LD F, Vx: each glyph is 5 bytes long.
    fn op_fx29(&mut self, x: usize) -> (r: ProgramCounter)
        requires
            old(self).wf(),
            x < 16,
        ensures
            final(self).wf(),
            performs(old(self)@, Instruction::LoadFont { x }, 0, final(self)@, Ok(r)),
    {
        proof {
            reveal(effect);
        }
        self.i = self.v[x] as usize * 5;
        ProgramCounter::Next
    }

    /// LD B, Vx: hundreds, tens and units of Vx at I, I+1, I+2.
    fn op_fx33(&mut self, x: usize) -> (r: Result<ProgramCounter, Fault>)
        requires
            old(self).wf(),
            x < 16,
        ensures
            final(self).wf(),
            performs(old(self)@, Instruction::StoreBcd { x }, 0, final(self)@, r),
    {
        proof {
            reveal(effect);
        }
        if self.i >= CHIP8_MEMORY - 2 {
            return Err(Fault::MemoryOutOfRange);
        }
        let value = self.v[x];
        let i = self.i;
        self.ram[i] = value / 100;
        self.ram[i + 1] = (value / 10) % 10;
        self.ram[i + 2] = value % 10;
        Ok(ProgramCounter::Next)
    }

    /// LD [I], Vx: V0..=Vx to memory from I.
    fn op_fx55(&mut self, x: usize) -> (r: Result<ProgramCounter, Fault>)
        requires
            old(self).wf(),
            x < 16,
        ensures
            final(self).wf(),
            performs(old(self)@, Instruction::StoreRegs { x }, 0, final(self)@, r),
    {
        proof {
            reveal(effect);
        }
        if self.i >= CHIP8_MEMORY || x >= CHIP8_MEMORY - self.i {
            return Err(Fault::MemoryOutOfRange);
        }
        let ghost ram0 = self.ram@;
        let base = self.i;
        let mut k: usize = 0;
        while k <= x
            invariant
                base == self.i,
                base + x < CHIP8_MEMORY,
                x < 16,
                k <= x + 1,
                self.ram@.len() == CHIP8_MEMORY,
                forall|a: int|
                    0 <= a < CHIP8_MEMORY ==> self.ram@[a] == if base <= a < base + k {
                        self.v@[a - base]
                    } else {
                        ram0[a]
                    },
                self.vram == old(self).vram,
                self.vram_changed == old(self).vram_changed,
                self.stack == old(self).stack,
                self.v == old(self).v,
                self.i == old(self).i,
                self.pc == old(self).pc,
                self.sp == old(self).sp,
                self.delay_timer == old(self).delay_timer,
                self.sound_timer == old(self).sound_timer,
                self.keypad == old(self).keypad,
                self.keypad_waiting == old(self).keypad_waiting,
                self.keypad_register == old(self).keypad_register,
            decreases x + 1 - k,
        {
            self.ram[base + k] = self.v[k];
            k = k + 1;
        }
        assert(self.ram@ =~= dumped(ram0, self.v@, base as int, x as int));
        Ok(ProgramCounter::Next)
    }

    /// LD Vx, [I]: V0..=Vx from memory at I.
    fn op_fx65(&mut self, x: usize) -> (r: Result<ProgramCounter, Fault>)
        requires
            old(self).wf(),
            x < 16,
        ensures
            final(self).wf(),
            performs(old(self)@, Instruction::LoadRegs { x }, 0, final(self)@, r),
    {
        proof {
            reveal(effect);
        }
        if self.i >= CHIP8_MEMORY || x >= CHIP8_MEMORY - self.i {
            return Err(Fault::MemoryOutOfRange);
        }
        let ghost v0 = self.v@;
        let base = self.i;
        let mut k: usize = 0;
        while k <= x
            invariant
                base == self.i,
                base + x < CHIP8_MEMORY,
                x < 16,
                k <= x + 1,
                self.v@.len() == 16,
                forall|r: int|
                    0 <= r < 16 ==> self.v@[r] == if r < k {
                        self.ram@[base + r]
                    } else {
                        v0[r]
                    },
                self.vram == old(self).vram,
                self.vram_changed == old(self).vram_changed,
                self.stack == old(self).stack,
                self.ram == old(self).ram,
                self.i == old(self).i,
                self.pc == old(self).pc,
                self.sp == old(self).sp,
                self.delay_timer == old(self).delay_timer,
                self.sound_timer == old(self).sound_timer,
                self.keypad == old(self).keypad,
                self.keypad_waiting == old(self).keypad_waiting,
                self.keypad_register == old(self).keypad_register,
            decreases x + 1 - k,
        {
            self.v[k] = self.ram[base + k];
            k = k + 1;
        }
        assert(self.v@ =~= restored(v0, self.ram@, base as int, x as int));
        Ok(ProgramCounter::Next)
    }
}


/// Drawing from row `v`, sprite row `k` lands on display row `(v + k) % m`,
/// and display row `r` shows sprite row `(r - v) % m`: the two maps are
/// inverse.
pub(crate) proof fn lemma_wrap(v: int, k: int, m: int)
    requires
        0 <= v,
        0 <= k < m,
        m == 32 || m == 64,
    ensures
        ((v + k) % m - v) % m == k,
        (v + (k - v) % m) % m == k,
{
    let q1 = (v + k) / m;
    lemma_fundamental_div_mod(v + k, m);
    assert((v + k) % m - v == m * (-q1) + k) by (nonlinear_arith)
        requires
            v + k == m * q1 + (v + k) % m,
    ;
    lemma_mod_multiples_vanish(-q1, k, m);
    lemma_small_mod(k as nat, m as nat);
    let q2 = (k - v) / m;
    lemma_fundamental_div_mod(k - v, m);
    assert(v + (k - v) % m == m * (-q2) + k) by (nonlinear_arith)
        requires
            k - v == m * q2 + (k - v) % m,
    ;
    lemma_mod_multiples_vanish(-q2, k, m);
}

proof fn lemma_sprite_bit_is_bit(b: u8, k: u8)
    ensures
        ((b >> k) & 1u8) <= 1,
{
    assert(((b >> k) & 1u8) <= 1) by (bit_vector);
}

proof fn lemma_collision_bits(f: u8, c: u8, px: u8)
    requires
        f <= 1,
        c <= 1,
    ensures
        (f | (c & px)) == (if f == 1 || (c == 1 && px & 1 == 1) { 1u8 } else { 0u8 }),
{
    assert((f | (c & px)) == (if f == 1 || (c == 1 && px & 1 == 1) { 1u8 } else { 0u8 }))
        by (bit_vector)
        requires
            f <= 1,
            c <= 1,
    ;
}

/// Drawing sprite bit number `byte * 8 + bit` changes exactly the pixel it
/// lands on, which no earlier bit touched.
proof fn lemma_pixel_step(s: MachineState, vx: u8, vy: u8, n: int, byte: int, bit: int, r: int, c: int)
    requires
        0 <= byte < n < CHIP8_HEIGHT,
        0 <= bit < 8,
        0 <= r < CHIP8_HEIGHT,
        0 <= c < CHIP8_WIDTH,
    ensures
        (r == (vy + byte) % 32 && c == (vx + bit) % 64) ==> pixel_after(
            s,
            vx,
            vy,
            n,
            byte * 8 + bit,
            r,
            c,
        ) == s.vram[r][c] && pixel_after(s, vx, vy, n, byte * 8 + bit + 1, r, c) == s.vram[r][c]
            ^ sprite_bit(s, byte, bit),
        !(r == (vy + byte) % 32 && c == (vx + bit) % 64) ==> pixel_after(
            s,
            vx,
            vy,
            n,
            byte * 8 + bit + 1,
            r,
            c,
        ) == pixel_after(s, vx, vy, n, byte * 8 + bit, r, c),
{
    lemma_wrap(vy as int, byte, 32);
    lemma_wrap(vx as int, bit, 64);
    lemma_wrap(vy as int, r, 32);
    lemma_wrap(vx as int, c, 64);
    let row = sprite_row(vy, r);
    let col = sprite_col(vx, c);
    if row < n && col < 8 && row * 8 + col == byte * 8 + bit {
        assert(row == byte && col == bit);
    }
}

/// The collision flag after one more sprite bit.
proof fn lemma_collision_step(s: MachineState, vx: u8, vy: u8, n: int, byte: int, bit: int)
    requires
        0 <= byte < n,
        0 <= bit < 8,
    ensures
        collides_upto(s, vx, vy, n, byte * 8 + bit + 1) == (collides_upto(
            s,
            vx,
            vy,
            n,
            byte * 8 + bit,
        ) || (sprite_bit(s, byte, bit) == 1 && s.vram[(vy + byte) % 32][(vx + bit) % 64] & 1
            == 1)),
{
    let p = byte * 8 + bit;
    if collides_upto(s, vx, vy, n, p + 1) {
        let (row, col) = choose|row: int, col: int|
            0 <= row < n && 0 <= col < 8 && row * 8 + col < p + 1 && #[trigger] sprite_bit(
                s,
                row,
                col,
            ) == 1 && pixel_under(s, vx, vy, row, col) & 1 == 1;
        if row * 8 + col == p {
            assert(row == byte && col == bit);
        }
    }
    if collides_upto(s, vx, vy, n, p) {
        let (row, col) = choose|row: int, col: int|
            0 <= row < n && 0 <= col < 8 && row * 8 + col < p && #[trigger] sprite_bit(
                s,
                row,
                col,
            ) == 1 && pixel_under(s, vx, vy, row, col) & 1 == 1;
        assert(row * 8 + col < p + 1);
    }
    if sprite_bit(s, byte, bit) == 1 && s.vram[(vy + byte) % 32][(vx + bit) % 64] & 1 == 1 {
        assert(byte * 8 + bit < p + 1);
    }
}

impl Processor {
    /// DRW Vx, Vy, nibble: XOR the n-row sprite at I onto the display at
    /// (Vx, Vy), wrapping at the edges; VF = 1 when a lit pixel went dark.
    /// The coordinates are Vx and Vy as they stand when the instruction
    /// begins.
    fn op_dxyn(&mut self, x: usize, y: usize, n: usize) -> (r: Result<ProgramCounter, Fault>)
        requires
            old(self).wf(),
            x < 16,
            y < 16,
            n < 16,
        ensures
            final(self).wf(),
            performs(old(self)@, Instruction::Draw { x, y, n }, 0, final(self)@, r),
    {
        proof {
            reveal(effect);
        }
        if n > 0 && (self.i >= CHIP8_MEMORY || n > CHIP8_MEMORY - self.i) {
            return Err(Fault::MemoryOutOfRange);
        }
        let ghost s0 = self@;
        let vx = self.v[x];
        let vy = self.v[y];
        let mut collision: u8 = 0;
        let mut byte: usize = 0;
        assert(!collides_upto(s0, vx, vy, n as int, 0));
        while byte < n
            invariant
                byte <= n,
                n < 16,
                s0 == old(self)@,
                vx == s0.v[x as int],
                vy == s0.v[y as int],
                n > 0 ==> self.i + n <= CHIP8_MEMORY,
                self.ram == old(self).ram,
                self.vram_changed == old(self).vram_changed,
                self.stack == old(self).stack,
                self.v == old(self).v,
                self.i == old(self).i,
                self.pc == old(self).pc,
                self.sp == old(self).sp,
                self.delay_timer == old(self).delay_timer,
                self.sound_timer == old(self).sound_timer,
                self.keypad == old(self).keypad,
                self.keypad_waiting == old(self).keypad_waiting,
                self.keypad_register == old(self).keypad_register,
                forall|r: int, c: int|
                    0 <= r < CHIP8_HEIGHT && 0 <= c < CHIP8_WIDTH ==> #[trigger] self.vram@[r]@[c]
                        == pixel_after(s0, vx, vy, n as int, byte * 8, r, c),
                collision == flag(collides_upto(s0, vx, vy, n as int, byte * 8)),
            decreases n - byte,
        {
            let row = (vy as usize + byte) % CHIP8_HEIGHT;
            let sprite = self.ram[self.i + byte];
            let mut bit: usize = 0;
            while bit < 8
                invariant
                    byte < n,
                    bit <= 8,
                    n < 16,
                    s0 == old(self)@,
                    vx == s0.v[x as int],
                    vy == s0.v[y as int],
                    row == (vy + byte) % 32,
                    sprite == s0.ram[s0.i + byte],
                    self.ram == old(self).ram,
                    self.vram_changed == old(self).vram_changed,
                    self.stack == old(self).stack,
                    self.v == old(self).v,
                    self.i == old(self).i,
                    self.pc == old(self).pc,
                    self.sp == old(self).sp,
                    self.delay_timer == old(self).delay_timer,
                    self.sound_timer == old(self).sound_timer,
                    self.keypad == old(self).keypad,
                    self.keypad_waiting == old(self).keypad_waiting,
                    self.keypad_register == old(self).keypad_register,
                    forall|r: int, c: int|
                        0 <= r < CHIP8_HEIGHT && 0 <= c < CHIP8_WIDTH ==> #[trigger] self.vram@[r]@[c]
                            == pixel_after(s0, vx, vy, n as int, byte * 8 + bit, r, c),
                    collision == flag(collides_upto(s0, vx, vy, n as int, byte * 8 + bit)),
                decreases 8 - bit,
            {
                let col = (vx as usize + bit) % CHIP8_WIDTH;
                let color: u8 = (sprite >> ((7 - bit) as u8)) & 1;
                let cur = self.vram[row][col];
                proof {
                    lemma_sprite_bit_is_bit(sprite, (7 - bit) as u8);
                    assert(color == sprite_bit(s0, byte as int, bit as int));
                    lemma_pixel_step(
                        s0,
                        vx,
                        vy,
                        n as int,
                        byte as int,
                        bit as int,
                        row as int,
                        col as int,
                    );
                    assert(cur == s0.vram[row as int][col as int]);
                    lemma_collision_step(s0, vx, vy, n as int, byte as int, bit as int);
                    lemma_collision_bits(collision, color, cur);
                }
                collision = collision | (color & cur);
                self.vram[row][col] = cur ^ color;
                proof {
                    assert forall|r: int, c: int|
                        0 <= r < CHIP8_HEIGHT && 0 <= c
                            < CHIP8_WIDTH implies #[trigger] self.vram@[r]@[c] == pixel_after(
                        s0,
                        vx,
                        vy,
                        n as int,
                        byte * 8 + bit + 1,
                        r,
                        c,
                    ) by {
                        lemma_pixel_step(s0, vx, vy, n as int, byte as int, bit as int, r, c);
                    }
                }
                bit = bit + 1;
            }
            byte = byte + 1;
        }
        self.v[15] = collision;
        self.vram_changed = true;
        assert(self@.vram =~~= drawn(s0, vx, vy, n as int));
        Ok(ProgramCounter::Next)
    }
}


/// The fault in `r`, if any.
pub open spec fn fault_of<T>(r: Result<T, Fault>) -> Option<Fault> {
    match r {
        Ok(_) => None,
        Err(e) => Some(e),
    }
}

/// `post` and the outcome `r` are what executing `ins` does to `pre`: the
/// instruction's state with the program counter moved, or the fault with
/// the state unchanged.
pub open spec fn executes(
    pre: MachineState,
    ins: Instruction,
    rnd: u8,
    post: MachineState,
    r: Result<(), Fault>,
) -> bool {
    match execute_spec(pre, ins, rnd) {
        Ok(t) => r is Ok && post == t,
        Err(e) => r == Err::<(), Fault>(e) && post == pre,
    }
}

/// Relies on `rand::random::<u8>`: a byte from the thread-local generator.
/// Nothing is known of its value.
#[verifier::external_body]
fn random_byte() -> (r: u8) {
    rand::random::<u8>()
}

impl Processor {
    /// Decodes and executes one instruction word; `random` is the byte used
    /// if the instruction is the random one.
    pub fn execute(&mut self, opcode: u16, random: u8) -> (r: Result<(), Fault>)
        requires
            old(self).wf(),
            old(self).pc < CHIP8_MEMORY,
        ensures
            final(self).wf(),
            executes(old(self)@, decode_spec(opcode), random, final(self)@, r),
    {
        let ins = decode(opcode);
        let res: Result<ProgramCounter, Fault> = match ins {
            Instruction::Clear => Ok(self.op_00e0()),
            Instruction::Return => self.op_00ee(),
            Instruction::Jump { addr } => Ok(self.op_1nnn(addr)),
            Instruction::Call { addr } => self.op_2nnn(addr),
            Instruction::SkipEqByte { x, kk } => Ok(self.op_3xkk(x, kk)),
            Instruction::SkipNeByte { x, kk } => Ok(self.op_4xkk(x, kk)),
            Instruction::SkipEqReg { x, y } => Ok(self.op_5xy0(x, y)),
            Instruction::LoadByte { x, kk } => Ok(self.op_6xkk(x, kk)),
            Instruction::AddByte { x, kk } => Ok(self.op_7xkk(x, kk)),
            Instruction::LoadReg { x, y } => Ok(self.op_8xy0(x, y)),
            Instruction::Or { x, y } => Ok(self.op_8xy1(x, y)),
            Instruction::And { x, y } => Ok(self.op_8xy2(x, y)),
            Instruction::Xor { x, y } => Ok(self.op_8xy3(x, y)),
            Instruction::AddReg { x, y } => Ok(self.op_8xy4(x, y)),
            Instruction::SubReg { x, y } => Ok(self.op_8xy5(x, y)),
            Instruction::ShiftRight { x } => Ok(self.op_8x06(x)),
            Instruction::SubNeg { x, y } => Ok(self.op_8xy7(x, y)),
            Instruction::ShiftLeft { x } => Ok(self.op_8x0e(x)),
            Instruction::SkipNeReg { x, y } => Ok(self.op_9xy0(x, y)),
            Instruction::LoadIndex { addr } => Ok(self.op_annn(addr)),
            Instruction::JumpOffset { addr } => Ok(self.op_bnnn(addr)),
            Instruction::Random { x, kk } => Ok(self.op_cxkk(x, kk, random)),
            Instruction::Draw { x, y, n } => self.op_dxyn(x, y, n),
            Instruction::SkipKey { x } => self.op_ex9e(x),
            Instruction::SkipNoKey { x } => self.op_exa1(x),
            Instruction::LoadDelay { x } => Ok(self.op_fx07(x)),
            Instruction::WaitKey { x } => Ok(self.op_fx0a(x)),
            Instruction::SetDelay { x } => Ok(self.op_fx15(x)),
            Instruction::SetSound { x } => Ok(self.op_fx18(x)),
            Instruction::AddIndex { x } => self.op_fx1e(x),
            Instruction::LoadFont { x } => Ok(self.op_fx29(x)),
            Instruction::StoreBcd { x } => self.op_fx33(x),
            Instruction::StoreRegs { x } => self.op_fx55(x),
            Instruction::LoadRegs { x } => self.op_fx65(x),
            Instruction::Unknown => {
                proof {
                    reveal(effect);
                }
                Ok(ProgramCounter::Next)
            },
        };
        proof {
            if !(ins is Random) {
                lemma_effect_ignores_random(old(self)@, ins, 0, random);
            }
            lemma_effect_keeps_pc(old(self)@, ins, random);
        }
        match res {
            Ok(change) => {
                let ghost mid = self@;
                assert(effect(old(self)@, ins, random) == Ok::<(MachineState, ProgramCounter), Fault>((mid, change)));
                self.pc =
                match change {
                    ProgramCounter::Next => self.pc + OPCODE_SIZE,
                    ProgramCounter::Skip => self.pc + 2 * OPCODE_SIZE,
                    ProgramCounter::Jump(addr) => addr,
                };
                assert(self@ =~= MachineState { pc: advance(old(self)@.pc, change), ..mid });
                Ok(())
            },
            Err(e) => Err(e),
        }
    }

    /// Executes one instruction word, drawing a random byte for the random
    /// instruction.
    pub fn run_opcode(&mut self, opcode: u16) -> (r: Result<(), Fault>)
        requires
            old(self).wf(),
            old(self).pc < CHIP8_MEMORY,
        ensures
            final(self).wf(),
            exists|b: u8| executes(old(self)@, decode_spec(opcode), b, final(self)@, r),
    {
        let random = random_byte();
        self.execute(opcode, random)
    }

    /// One tick given the keypad and the byte for the random instruction.
    ///
    /// While waiting for a key: the lowest-numbered pressed key, if any, is
    /// stored in the waiting register and the wait ends; nothing else runs.
    /// Otherwise both timers count down (stopping at zero) and the
    /// instruction at the program counter executes. The output shows the
    /// display, whether this tick changed it, and whether the sound timer
    /// is running. A fault leaves the instruction undone.
    pub fn step(&mut self, keypad: [bool; 16], random: u8) -> (r: Result<OutputState<'_>, Fault>)
        requires
            old(self).wf(),
        ensures
            final(self).wf(),
            (final(self)@, fault_of(r)) == step_spec(old(self)@, keypad@, random),
            r is Ok ==> ({
                let out = r->Ok_0;
                &&& *out.vram == final(self).vram
                &&& out.vram_changed == final(self).vram_changed
                &&& out.beep == (final(self).sound_timer > 0)
            }),
    {
        let ghost s0 = self@;
        self.keypad = keypad;
        self.vram_changed = false;
        if self.keypad_waiting {
            let mut k: usize = 0;
            while k < 16 && !keypad[k]
                invariant
                    k <= 16,
                    forall|j: int| 0 <= j < k ==> !keypad@[j],
                decreases 16 - k,
            {
                k = k + 1;
            }
            if k < 16 {
                assert(is_first_pressed(keypad@, k as int));
                assert forall|j: int| is_first_pressed(keypad@, j) implies j == k by {
                    if j < k {
                        assert(!keypad@[j]);
                    } else if j > k {
                        assert(!keypad@[k as int]);
                    }
                }
                self.v[self.keypad_register] = k as u8;
                self.keypad_waiting = false;
            } else {
                assert(!exists|j: int| is_first_pressed(keypad@, j));
            }
        } else {
            if self.delay_timer > 0 {
                self.delay_timer = self.delay_timer - 1;
            }
            if self.sound_timer > 0 {
                self.sound_timer = self.sound_timer - 1;
            }
            if self.pc >= CHIP8_MEMORY - 1 {
                return Err(Fault::MemoryOutOfRange);
            }
            let opcode: u16 = self.ram[self.pc] as u16 * 256 + self.ram[self.pc + 1] as u16;
            assert(opcode == fetch(self@));
            match self.execute(opcode, random) {
                Ok(()) => {},
                Err(e) => {
                    return Err(e);
                },
            }
        }
        Ok(OutputState { vram: &self.vram, vram_changed: self.vram_changed, beep: self.sound_timer > 0 })
    }

    /// One tick given the keypad, drawing a random byte for the random
    /// instruction: `step` with some byte.
    pub fn tick(&mut self, keypad: [bool; 16]) -> (r: Result<OutputState<'_>, Fault>)
        requires
            old(self).wf(),
        ensures
            final(self).wf(),
            exists|b: u8| (final(self)@, fault_of(r)) == step_spec(old(self)@, keypad@, b),
            r is Ok ==> ({
                let out = r->Ok_0;
                &&& *out.vram == final(self).vram
                &&& out.vram_changed == final(self).vram_changed
                &&& out.beep == (final(self).sound_timer > 0)
            }),
    {
        let random = random_byte();
        self.step(keypad, random)
    }
}

/// No instruction's effect moves the program counter by itself.
proof fn lemma_effect_keeps_pc(s: MachineState, ins: Instruction, rnd: u8)
    ensures
        effect(s, ins, rnd) is Ok ==> effect(s, ins, rnd)->Ok_0.0.pc == s.pc,
{
    reveal(effect);
}

/// Only the random instruction reads the random byte.
proof fn lemma_effect_ignores_random(s: MachineState, ins: Instruction, a: u8, b: u8)
    requires
        !(ins is Random),
    ensures
        effect(s, ins, a) == effect(s, ins, b),
{
    reveal(effect);
}

} // verus!
