use vstd::prelude::*;

use crate::model::{draw_covers, CpuState, SCREEN_HEIGHT, SCREEN_SIZE, SCREEN_WIDTH};

verus! {

/// On a circle of `m` cells, stepping back `x0` from `a` lands on `c` exactly when `a` is
/// `c` steps past `x0`.
pub proof fn lemma_mod_offset(a: int, x0: int, c: int, m: int)
    requires
        0 <= a < m,
        0 <= c < m,
        0 <= x0,
        m > 0,
    ensures
        ((a - x0) % m == c) <==> (a == (x0 + c) % m),
{
    vstd::arithmetic::div_mod::lemma_fundamental_div_mod(a - x0, m);
    vstd::arithmetic::div_mod::lemma_fundamental_div_mod(x0 + c, m);
    vstd::arithmetic::div_mod::lemma_mod_bound(a - x0, m);
    vstd::arithmetic::div_mod::lemma_mod_bound(x0 + c, m);
    let q1 = (a - x0) / m;
    let q2 = (x0 + c) / m;
    assert((-q1) * m == -(m * q1)) by (nonlinear_arith);
    assert((-q2) * m == -(m * q2)) by (nonlinear_arith);
    if (a - x0) % m == c {
        vstd::arithmetic::div_mod::lemma_fundamental_div_mod_converse(x0 + c, m, -q1, a);
    }
    if a == (x0 + c) % m {
        vstd::arithmetic::div_mod::lemma_fundamental_div_mod_converse(a - x0, m, -q2, c);
    }
}

/// The screen cell that sprite column `c`, row `r` lands on when drawn at `(x0, y0)` is the one
/// cell whose offsets from `(x0, y0)`, taken round the screen, are `(c, r)`.
pub proof fn lemma_cell_of_offset(x0: int, y0: int, c: int, r: int, p: int)
    requires
        0 <= x0,
        0 <= y0,
        0 <= c < SCREEN_WIDTH,
        0 <= r < SCREEN_HEIGHT,
        0 <= p < SCREEN_SIZE,
    ensures
        ((p % 64 - x0) % 64 == c && (p / 64 - y0) % 32 == r) <==> (p == (x0 + c) % 64 + 64 * ((y0 + r) % 32)),
        0 <= (x0 + c) % 64 + 64 * ((y0 + r) % 32) < SCREEN_SIZE,
{
    lemma_mod_offset(p % 64, x0, c, 64);
    lemma_mod_offset(p / 64, y0, r, 32);
    let q = (x0 + c) % 64 + 64 * ((y0 + r) % 32);
    vstd::arithmetic::div_mod::lemma_fundamental_div_mod(p, 64);
    if p == q {
        vstd::arithmetic::div_mod::lemma_fundamental_div_mod_converse(p, 64, (y0 + r) % 32, (x0 + c) % 64);
    }
}

} // verus!
