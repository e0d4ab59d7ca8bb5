use vstd::prelude::*;

use crate::model::{
    draw_covers, execute_spec, op_kind, op_n, op_nnn, op_x, op_y, pixel_index, range_fits,
    sprite_bit, tick_spec, word_of, CpuState, FLAG_REG, SCREEN_HEIGHT, SCREEN_SIZE, SCREEN_WIDTH,
    STACK_SIZE,
};

verus! {

/// Adding register `y` into register `x` leaves `(a + b) mod 256` in `x` and sets the flags
/// register to 1 exactly when the sum exceeds 255.
pub proof fn lemma_add_with_carry(s: CpuState, op: u16, rnd: u8)
    requires
        s.wf(),
        op_kind(op) == 8,
        op_n(op) == 4,
        op_x(op) != FLAG_REG,
    ensures
        execute_spec(s, op, rnd) is Ok,
        execute_spec(s, op, rnd)->Ok_0.v[op_x(op)] == (s.v[op_x(op)] + s.v[op_y(op)]) % 256,
        execute_spec(s, op, rnd)->Ok_0.v[FLAG_REG as int] == if s.v[op_x(op)] + s.v[op_y(op)] > 255 {
            1u8
        } else {
            0u8
        },
{
}

/// Subtracting register `y` from register `x` leaves `(a - b) mod 256` in `x` and sets the flags
/// register to 1 exactly when no borrow occurs, that is when `a >= b`.
pub proof fn lemma_sub_with_borrow(s: CpuState, op: u16, rnd: u8)
    requires
        s.wf(),
        op_kind(op) == 8,
        op_n(op) == 5,
        op_x(op) != FLAG_REG,
    ensures
        execute_spec(s, op, rnd) is Ok,
        execute_spec(s, op, rnd)->Ok_0.v[op_x(op)] == (s.v[op_x(op)] - s.v[op_y(op)]) % 256,
        execute_spec(s, op, rnd)->Ok_0.v[FLAG_REG as int] == if s.v[op_x(op)] >= s.v[op_y(op)] {
            1u8
        } else {
            0u8
        },
{
}

/// Shifting register `x` right stores `v >> 1` and puts the bit shifted out, `v & 1`, in the
/// flags register.
pub proof fn lemma_shift_right(s: CpuState, op: u16, rnd: u8)
    requires
        s.wf(),
        op_kind(op) == 8,
        op_n(op) == 6,
        op_x(op) != FLAG_REG,
    ensures
        execute_spec(s, op, rnd) is Ok,
        execute_spec(s, op, rnd)->Ok_0.v[op_x(op)] == s.v[op_x(op)] >> 1u8,
        execute_spec(s, op, rnd)->Ok_0.v[FLAG_REG as int] == s.v[op_x(op)] & 1u8,
{
}

/// Drawing the same sprite twice at the same place gives back the screen as it was before the
/// first draw, and the second draw raises the flags register exactly when it finds one of the
/// sprite's cells lit by the first.
pub proof fn lemma_draw_twice(s: CpuState, op: u16, rnd: u8)
    requires
        s.wf(),
        op_kind(op) == 0xD,
        op_x(op) != FLAG_REG,
        op_y(op) != FLAG_REG,
        op_n(op) == 0 || range_fits(s.i as int, op_n(op) as int),
    ensures
        execute_spec(s, op, rnd) is Ok,
        execute_spec(execute_spec(s, op, rnd)->Ok_0, op, rnd) is Ok,
        execute_spec(execute_spec(s, op, rnd)->Ok_0, op, rnd)->Ok_0.screen == s.screen,
        (execute_spec(execute_spec(s, op, rnd)->Ok_0, op, rnd)->Ok_0.v[FLAG_REG as int] == 1u8)
            <==> exists|p: int|
            0 <= p < SCREEN_SIZE && #[trigger] draw_covers(
                s,
                s.v[op_x(op)] as int,
                s.v[op_y(op)] as int,
                op_n(op) as int,
                p,
            ) && execute_spec(s, op, rnd)->Ok_0.screen[p],
{
    let s1 = execute_spec(s, op, rnd)->Ok_0;
    let s2 = execute_spec(s1, op, rnd)->Ok_0;
    let x0 = s.v[op_x(op)] as int;
    let y0 = s.v[op_y(op)] as int;
    let n = op_n(op) as int;
    assert forall|p: int| 0 <= p < SCREEN_SIZE implies draw_covers(s1, x0, y0, n, p) == draw_covers(
        s,
        x0,
        y0,
        n,
        p,
    ) by {}
    assert(s2.screen =~= s.screen);
    if s2.v[FLAG_REG as int] == 1u8 {
        let w = choose|p: int|
            0 <= p < SCREEN_SIZE && #[trigger] draw_covers(s1, x0, y0, n, p) && s1.screen[p];
        assert(draw_covers(s, x0, y0, n, w));
    } else {
        assert forall|p: int|
            0 <= p < SCREEN_SIZE && #[trigger] draw_covers(s, x0, y0, n, p) implies !s1.screen[p] by {
            assert(draw_covers(s1, x0, y0, n, p));
        }
    }
}

/// A set sprite bit at row `row`, column `col` toggles the screen cell at
/// `((x + col) mod width, (y + row) mod height)`: sprites wrap round both screen edges.
pub proof fn lemma_draw_wraps(s: CpuState, op: u16, rnd: u8, row: int, col: int)
    requires
        s.wf(),
        op_kind(op) == 0xD,
        0 <= row < op_n(op),
        0 <= col < 8,
        range_fits(s.i as int, op_n(op) as int),
        sprite_bit(s.ram[s.i + row], col),
    ensures
        execute_spec(s, op, rnd) is Ok,
        ({
            let px = (s.v[op_x(op)] + col) % SCREEN_WIDTH as int;
            let py = (s.v[op_y(op)] + row) % SCREEN_HEIGHT as int;
            let p = pixel_index(px, py);
            0 <= p < SCREEN_SIZE && execute_spec(s, op, rnd)->Ok_0.screen[p] == !s.screen[p]
        }),
{
    let x0 = s.v[op_x(op)] as int;
    let y0 = s.v[op_y(op)] as int;
    let p = (x0 + col) % 64 + 64 * ((y0 + row) % 32);
    crate::lemmas::lemma_cell_of_offset(x0, y0, col, row, p);
    assert(draw_covers(s, x0, y0, op_n(op) as int, p));
}

/// A call followed, at its target, by a return comes back to the instruction after the call
/// with the stack pointer where it was.
pub proof fn lemma_call_then_return(s: CpuState, call: u16, rnd: u8)
    requires
        s.wf(),
        op_kind(call) == 2,
        s.sp < STACK_SIZE,
    ensures
        execute_spec(s, call, rnd) is Ok,
        execute_spec(s, call, rnd)->Ok_0.pc == op_nnn(call),
        execute_spec(execute_spec(s, call, rnd)->Ok_0, 0x00EE, rnd) is Ok,
        execute_spec(execute_spec(s, call, rnd)->Ok_0, 0x00EE, rnd)->Ok_0.pc == s.pc,
        execute_spec(execute_spec(s, call, rnd)->Ok_0, 0x00EE, rnd)->Ok_0.sp == s.sp,
{
    assert(op_kind(0x00EE) == 0);
}

/// The random byte matters only to `CXNN`: for every other instruction at the program counter,
/// a cycle has one outcome whatever byte it is given.
pub proof fn lemma_tick_ignores_random_byte(s: CpuState, rnd1: u8, rnd2: u8)
    requires
        s.wf(),
        range_fits(s.pc as int, 2) ==> op_kind(word_of(s.ram[s.pc as int], s.ram[s.pc + 1])) != 0xC,
    ensures
        tick_spec(s, rnd1) == tick_spec(s, rnd2),
{
}

} // verus!
