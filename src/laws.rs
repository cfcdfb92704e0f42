use vstd::prelude::*;

use crate::instruction::{decode_spec, Instruction};
use crate::processor::{
    blank_screen, CHIP8_HEIGHT, CHIP8_MEMORY, CHIP8_WIDTH, dumped, effect, execute_spec, Fault,
    lemma_wrap, MachineState, pixel_under, restored, sprite_bit,
};

verus! {

/// A jump instruction (1nnn) sets the program counter to nnn, whatever it
/// held before, and changes nothing else.
pub proof fn lemma_jump_is_absolute(s: MachineState, op: u16, rnd: u8)
    requires
        s.wf(),
        0x1000 <= op < 0x2000,
    ensures
        execute_spec(s, decode_spec(op), rnd) == Ok::<MachineState, Fault>(
            MachineState { pc: (op - 0x1000) as usize, ..s },
        ),
{
    reveal(decode_spec);
    reveal(effect);
}

/// Clearing the display darkens every pixel, whatever the display held,
/// marks the display changed and moves on to the next instruction.
pub proof fn lemma_clear_blanks_display(s: MachineState, rnd: u8)
    requires
        s.wf(),
    ensures
        execute_spec(s, Instruction::Clear, rnd) == Ok::<MachineState, Fault>(
            MachineState {
                vram: blank_screen(),
                vram_changed: true,
                pc: (s.pc + 2) as usize,
                ..s
            },
        ),
        forall|r: int, c: int|
            0 <= r < CHIP8_HEIGHT && 0 <= c < CHIP8_WIDTH ==> #[trigger] blank_screen()[r][c] == 0,
{
    reveal(effect);
}

/// The conditional skip instructions.
pub open spec fn is_skip(ins: Instruction) -> bool {
    ||| ins is SkipEqByte
    ||| ins is SkipNeByte
    ||| ins is SkipEqReg
    ||| ins is SkipNeReg
    ||| ins is SkipKey
    ||| ins is SkipNoKey
}

/// A skip instruction moves the program counter by 2 or by 4 and changes
/// nothing else.
pub proof fn lemma_skip_moves_two_or_four(s: MachineState, ins: Instruction, rnd: u8)
    requires
        s.wf(),
        s.pc < CHIP8_MEMORY,
        is_skip(ins),
    ensures
        execute_spec(s, ins, rnd) is Ok ==> {
            let t = execute_spec(s, ins, rnd)->Ok_0;
            &&& t.pc == s.pc + 2 || t.pc == s.pc + 4
            &&& t == MachineState { pc: t.pc, ..s }
        },
{
    reveal(effect);
}

/// Drawing a sprite with at least one set bit over a region whose pixels
/// are all lit sets VF to 1.
pub proof fn lemma_draw_over_lit_region_collides(
    s: MachineState,
    x: usize,
    y: usize,
    n: usize,
    rnd: u8,
)
    requires
        s.wf(),
        x < 16,
        y < 16,
        0 < n < 16,
        s.i + n <= CHIP8_MEMORY,
        exists|row: int, col: int| 0 <= row < n && 0 <= col < 8 && sprite_bit(s, row, col) == 1,
        forall|row: int, col: int|
            0 <= row < n && 0 <= col < 8 ==> #[trigger] pixel_under(s, s.v[x as int], s.v[y as int], row, col)
                & 1 == 1,
    ensures
        execute_spec(s, Instruction::Draw { x, y, n }, rnd) is Ok,
        execute_spec(s, Instruction::Draw { x, y, n }, rnd)->Ok_0.v[15] == 1,
{
    reveal(effect);
    let (row, col) = choose|row: int, col: int|
        0 <= row < n && 0 <= col < 8 && sprite_bit(s, row, col) == 1;
    assert(pixel_under(s, s.v[x as int], s.v[y as int], row, col) & 1 == 1);
    assert(row * 8 + col < n * 8);
}

/// Drawing any sprite over a region whose pixels are all dark leaves VF
/// at 0.
pub proof fn lemma_draw_over_dark_region_is_clear(
    s: MachineState,
    x: usize,
    y: usize,
    n: usize,
    rnd: u8,
)
    requires
        s.wf(),
        x < 16,
        y < 16,
        n < 16,
        s.i + n <= CHIP8_MEMORY,
        forall|row: int, col: int|
            0 <= row < n && 0 <= col < 8 ==> #[trigger] pixel_under(s, s.v[x as int], s.v[y as int], row, col)
                & 1 == 0,
    ensures
        execute_spec(s, Instruction::Draw { x, y, n }, rnd) is Ok,
        execute_spec(s, Instruction::Draw { x, y, n }, rnd)->Ok_0.v[15] == 0,
{
    reveal(effect);
}

/// Sprite bit (row, col) lands on display pixel
/// ((Vy + row) mod 32, (Vx + col) mod 64): past the right or bottom edge
/// the sprite continues at column or row 0.
pub proof fn lemma_draw_wraps(
    s: MachineState,
    x: usize,
    y: usize,
    n: usize,
    rnd: u8,
    row: int,
    col: int,
)
    requires
        s.wf(),
        x < 16,
        y < 16,
        n < 16,
        s.i + n <= CHIP8_MEMORY,
        0 <= row < n,
        0 <= col < 8,
    ensures
        execute_spec(s, Instruction::Draw { x, y, n }, rnd) is Ok,
        ({
            let r = (s.v[y as int] + row) % (CHIP8_HEIGHT as int);
            let c = (s.v[x as int] + col) % (CHIP8_WIDTH as int);
            execute_spec(s, Instruction::Draw { x, y, n }, rnd)->Ok_0.vram[r][c] == s.vram[r][c]
                ^ sprite_bit(s, row, col)
        }),
{
    reveal(effect);
    lemma_wrap(s.v[y as int] as int, row, 32);
    lemma_wrap(s.v[x as int] as int, col, 64);
    assert(row * 8 + col < n * 8);
}

/// Storing V0..=Vx at I and then loading V0..=Vx from the same I gives
/// back every register as it was; neither step changes any register
/// above Vx.
pub proof fn lemma_dump_then_load_restores(s: MachineState, x: usize, rnd: u8)
    requires
        s.wf(),
        x < 16,
        s.i + x < CHIP8_MEMORY,
    ensures
        execute_spec(s, Instruction::StoreRegs { x }, rnd) is Ok,
        ({
            let t = execute_spec(s, Instruction::StoreRegs { x }, rnd)->Ok_0;
            &&& t.v == s.v
            &&& t.i == s.i
            &&& execute_spec(t, Instruction::LoadRegs { x }, rnd) is Ok
            &&& execute_spec(t, Instruction::LoadRegs { x }, rnd)->Ok_0.v == s.v
        }),
{
    reveal(effect);
    let ram = dumped(s.ram, s.v, s.i as int, x as int);
    assert(restored(s.v, ram, s.i as int, x as int) =~= s.v);
}

} // verus!
