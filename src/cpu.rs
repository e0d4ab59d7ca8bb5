use vstd::prelude::*;

use crate::model::{
    alu_spec, blank_screen, draw_covers, draw_spec, execute_spec, first_bad_addr, first_pressed,
    glyph_table, initial_ram, initial_state, key_skip_spec, load_spec, misc_spec, outcome,
    program_fits, range_fits, sprite_bit, tick_spec, tick_timers_spec, word_of, CpuError, CpuState,
    FLAG_REG, FONTSET_SIZE, NUM_KEYS, NUM_REGS, RAM_SIZE, SCREEN_HEIGHT, SCREEN_SIZE, SCREEN_WIDTH,
    STACK_SIZE, START_ADDR,
};

verus! {

/// The machine: registers, memory, framebuffer, call stack, keys and timers.
pub struct Cpu {
    pc: u16,
    ram: Vec<u8>,
    screen: Vec<bool>,
    v_reg: Vec<u8>,
    i_reg: u16,
    sp: u16,
    stack: Vec<u16>,
    keys: Vec<bool>,
    dt: u8,
    st: u8,
}

impl View for Cpu {
    type V = CpuState;

    closed spec fn view(&self) -> CpuState {
        CpuState {
            pc: self.pc,
            ram: self.ram@,
            screen: self.screen@,
            v: self.v_reg@,
            i: self.i_reg,
            sp: self.sp,
            stack: self.stack@,
            keys: self.keys@,
            dt: self.dt,
            st: self.st,
        }
    }
}

/// The glyph table as bytes.
fn fontset() -> (r: Vec<u8>)
    ensures
        r@ == glyph_table(),
{
    let r: Vec<u8> = vec![
        0xF0u8, 0x90, 0x90, 0x90, 0xF0,
        0x20, 0x60, 0x20, 0x20, 0x70,
        0xF0, 0x10, 0xF0, 0x80, 0xF0,
        0xF0, 0x10, 0xF0, 0x10, 0xF0,
        0x90, 0x90, 0xF0, 0x10, 0x10,
        0xF0, 0x80, 0xF0, 0x10, 0xF0,
        0xF0, 0x80, 0xF0, 0x90, 0xF0,
        0xF0, 0x10, 0x20, 0x40, 0x40,
        0xF0, 0x90, 0xF0, 0x90, 0xF0,
        0xF0, 0x90, 0xF0, 0x10, 0xF0,
        0xF0, 0x90, 0xF0, 0x90, 0x90,
        0xE0, 0x90, 0xE0, 0x90, 0xE0,
        0xF0, 0x80, 0x80, 0x80, 0xF0,
        0xE0, 0x90, 0x90, 0x90, 0xE0,
        0xF0, 0x80, 0xF0, 0x80, 0xF0,
        0xF0, 0x80, 0xF0, 0x80, 0x80,
    ];
    assert(r@ =~= glyph_table());
    r
}

/// Memory as it is after construction: the glyph table at address 0, zeros elsewhere.
fn initial_memory() -> (r: Vec<u8>)
    ensures
        r@ == initial_ram(),
{
    let font = fontset();
    let mut ram: Vec<u8> = vec![0u8; RAM_SIZE];
    let mut a: usize = 0;
    while a < FONTSET_SIZE
        invariant
            a <= FONTSET_SIZE,
            font@ == glyph_table(),
            ram@.len() == RAM_SIZE,
            forall|b: int| 0 <= b < a ==> ram@[b] == glyph_table()[b],
            forall|b: int| a <= b < RAM_SIZE ==> ram@[b] == 0u8,
        decreases FONTSET_SIZE - a,
    {
        ram[a] = font[a];
        a = a + 1;
    }
    assert(ram@ =~= initial_ram());
    ram
}

/// Relies on `rand::random::<u8>`: a byte drawn from the thread-local generator. Nothing is
/// promised about its value.
#[verifier::external_body]
fn random_byte() -> (r: u8) {
    rand::random::<u8>()
}

/// Sprite cell `(row, col)` comes before the cursor `(r, c)` in row-major order.
spec fn before_cursor(row: int, col: int, r: int, c: int) -> bool {
    row < r || (row == r && col < c)
}

/// Cell `p` is covered by the part of the sprite that lies before the cursor `(r, c)`.
spec fn drawn_so_far(s: CpuState, x0: int, y0: int, n: int, r: int, c: int, p: int) -> bool {
    draw_covers(s, x0, y0, n, p) && before_cursor(
        (p / SCREEN_WIDTH as int - y0) % SCREEN_HEIGHT as int,
        (p % SCREEN_WIDTH as int - x0) % SCREEN_WIDTH as int,
        r,
        c,
    )
}

/// Moving the cursor past sprite cell `(r, c)` adds exactly the screen cell that this sprite
/// cell lands on, and only if its bit is set.
proof fn lemma_cursor_step(s: CpuState, x0: int, y0: int, n: int, r: int, c: int)
    requires
        s.wf(),
        0 <= x0,
        0 <= y0,
        0 <= r < n < 16,
        0 <= c < 8,
        s.i + n <= RAM_SIZE,
    ensures
        0 <= (x0 + c) % 64 + 64 * ((y0 + r) % 32) < SCREEN_SIZE,
        !drawn_so_far(s, x0, y0, n, r, c, (x0 + c) % 64 + 64 * ((y0 + r) % 32)),
        forall|p: int|
            0 <= p < SCREEN_SIZE ==> #[trigger] drawn_so_far(s, x0, y0, n, r, c + 1, p) == (
            drawn_so_far(s, x0, y0, n, r, c, p) || (p == (x0 + c) % 64 + 64 * ((y0 + r) % 32)
                && sprite_bit(s.ram[s.i + r], c))),
{
    let target = (x0 + c) % 64 + 64 * ((y0 + r) % 32);
    crate::lemmas::lemma_cell_of_offset(x0, y0, c, r, target);
    assert forall|p: int|
        0 <= p < SCREEN_SIZE implies #[trigger] drawn_so_far(s, x0, y0, n, r, c + 1, p) == (
        drawn_so_far(s, x0, y0, n, r, c, p) || (p == target && sprite_bit(s.ram[s.i + r], c))) by {
        crate::lemmas::lemma_cell_of_offset(x0, y0, c, r, p);
    }
}

impl Cpu {
    /// A machine with the glyph table loaded, everything else zeroed and the program counter at
    /// the load address.
    pub fn new() -> (r: Cpu)
        ensures
            r@ == initial_state(),
    {
        let r = Cpu {
            pc: START_ADDR,
            ram: initial_memory(),
            screen: vec![false; SCREEN_SIZE],
            v_reg: vec![0u8; NUM_REGS],
            i_reg: 0,
            sp: 0,
            stack: vec![0u16; STACK_SIZE],
            keys: vec![false; NUM_KEYS],
            dt: 0,
            st: 0,
        };
        assert(r@.screen =~= initial_state().screen);
        assert(r@.v =~= initial_state().v);
        assert(r@.stack =~= initial_state().stack);
        assert(r@.keys =~= initial_state().keys);
        r
    }

    /// Puts the machine back into the state that `new` builds.
    pub fn reset(&mut self)
        ensures
            final(self)@ == initial_state(),
    {
        *self = Cpu::new();
    }

    /// Draws the `n`-row sprite at the index register onto the screen at the position held in
    /// registers `x` and `y`, XOR-ing each set bit and wrapping round the screen edges.
    fn draw(&mut self, x: usize, y: usize, n: usize) -> (r: Result<(), CpuError>)
        requires
            old(self)@.wf(),
            x < NUM_REGS,
            y < NUM_REGS,
            n < 16,
        ensures
            final(self)@.wf(),
            outcome(old(self)@, final(self)@, r, draw_spec(old(self)@, x as int, y as int, n as int)),
    {
        let i = self.i_reg as usize;
        if n > 0 && i + n > RAM_SIZE {
            return Err(CpuError::MemoryOutOfBounds { addr: if i >= RAM_SIZE { i } else { RAM_SIZE } });
        }
        let ghost s0 = self@;
        let x_coord = self.v_reg[x] as usize;
        let y_coord = self.v_reg[y] as usize;
        let ghost x0 = x_coord as int;
        let ghost y0 = y_coord as int;
        let mut flipped = false;
        let mut y_line: usize = 0;
        while y_line < n
            invariant
                self@.wf(),
                y_line <= n,
                n < 16,
                i == s0.i,
                n == 0 || i + n <= RAM_SIZE,
                s0.wf(),
                x < NUM_REGS,
                y < NUM_REGS,
                x0 == x_coord,
                y0 == y_coord,
                x_coord == s0.v[x as int],
                y_coord == s0.v[y as int],
                self@ == (CpuState { screen: self@.screen, ..s0 }),
                forall|p: int|
                    0 <= p < SCREEN_SIZE ==> self@.screen[p] == (s0.screen[p] != drawn_so_far(
                        s0, x0, y0, n as int, y_line as int, 0, p)),
                flipped == exists|p: int|
                    0 <= p < SCREEN_SIZE && #[trigger] drawn_so_far(s0, x0, y0, n as int, y_line as int, 0, p)
                        && s0.screen[p],
            decreases n - y_line,
        {
            let pixels = self.ram[i + y_line];
            let mut x_line: usize = 0;
            while x_line < 8
                invariant
                    self@.wf(),
                    x_line <= 8,
                    y_line < n,
                    n < 16,
                    i == s0.i,
                    i + n <= RAM_SIZE,
                    pixels == s0.ram[i + y_line],
                    s0.wf(),
                    x < NUM_REGS,
                    y < NUM_REGS,
                    x0 == x_coord,
                    y0 == y_coord,
                    x_coord == s0.v[x as int],
                    y_coord == s0.v[y as int],
                    self@ == (CpuState { screen: self@.screen, ..s0 }),
                    forall|p: int|
                        0 <= p < SCREEN_SIZE ==> self@.screen[p] == (s0.screen[p] != drawn_so_far(
                            s0, x0, y0, n as int, y_line as int, x_line as int, p)),
                    flipped == exists|p: int|
                        0 <= p < SCREEN_SIZE && #[trigger] drawn_so_far(
                            s0, x0, y0, n as int, y_line as int, x_line as int, p)
                            && s0.screen[p],
                decreases 8 - x_line,
            {
                let ghost r = y_line as int;
                let ghost c = x_line as int;
                let ghost target = (x0 + c) % 64 + 64 * ((y0 + r) % 32);
                proof {
                    lemma_cursor_step(s0, x0, y0, n as int, r, c);
                }
                if pixels & (0x80u8 >> (x_line as u8)) != 0 {
                    let px = (x_coord + x_line) % SCREEN_WIDTH;
                    let py = (y_coord + y_line) % SCREEN_HEIGHT;
                    let idx = px + SCREEN_WIDTH * py;
                    assert(idx == target);
                    flipped = flipped || self.screen[idx];
                    self.screen[idx] = !self.screen[idx];
                    proof {
                        if flipped {
                            if !s0.screen[target] {
                                let w = choose|p: int|
                                    0 <= p < SCREEN_SIZE && #[trigger] drawn_so_far(
                                        s0, x0, y0, n as int, r, c, p) && s0.screen[p];
                                assert(drawn_so_far(s0, x0, y0, n as int, r, c + 1, w));
                            } else {
                                assert(drawn_so_far(s0, x0, y0, n as int, r, c + 1, target));
                            }
                        }
                    }
                } else {
                    proof {
                        if flipped {
                            let w = choose|p: int|
                                0 <= p < SCREEN_SIZE && #[trigger] drawn_so_far(
                                    s0, x0, y0, n as int, r, c, p) && s0.screen[p];
                            assert(drawn_so_far(s0, x0, y0, n as int, r, c + 1, w));
                        }
                    }
                }
                x_line = x_line + 1;
            }
            proof {
                assert forall|p: int| 0 <= p < SCREEN_SIZE implies #[trigger] drawn_so_far(
                    s0, x0, y0, n as int, y_line as int, 8, p) == drawn_so_far(
                    s0, x0, y0, n as int, y_line as int + 1, 0, p) by {}
            }
            y_line = y_line + 1;
        }
        let ghost expected = draw_spec(s0, x as int, y as int, n as int);
        proof {
            assert forall|p: int| 0 <= p < SCREEN_SIZE implies #[trigger] drawn_so_far(
                s0, x0, y0, n as int, n as int, 0, p) == draw_covers(s0, x0, y0, n as int, p) by {}
            assert(expected.is_ok());
            assert(expected->Ok_0.screen =~= self@.screen);
        }
        self.v_reg[FLAG_REG] = if flipped { 1 } else { 0 };
        proof {
            let collided = exists|p: int|
                0 <= p < SCREEN_SIZE && #[trigger] draw_covers(s0, x0, y0, n as int, p) && s0.screen[p];
            if flipped {
                let w = choose|p: int|
                    0 <= p < SCREEN_SIZE && #[trigger] drawn_so_far(s0, x0, y0, n as int, n as int, 0, p)
                        && s0.screen[p];
                assert(draw_covers(s0, x0, y0, n as int, w));
            }
            if collided {
                let w = choose|p: int|
                    0 <= p < SCREEN_SIZE && #[trigger] draw_covers(s0, x0, y0, n as int, p) && s0.screen[p];
                assert(drawn_so_far(s0, x0, y0, n as int, n as int, 0, w));
            }
            assert(flipped == collided);
            assert(expected == Ok::<CpuState, CpuError>(self@));
        }
        Ok(())
    }

    /// Pushes a return address; a full stack is reported and left as it is.
    fn push(&mut self, val: u16) -> (r: Result<(), CpuError>)
        requires
            old(self)@.wf(),
        ensures
            final(self)@.wf(),
            old(self)@.sp < STACK_SIZE ==> r == Ok::<(), CpuError>(()) && final(self)@ == (CpuState {
                stack: old(self)@.stack.update(old(self)@.sp as int, val),
                sp: (old(self)@.sp + 1) as u16,
                ..old(self)@
            }),
            old(self)@.sp >= STACK_SIZE ==> r == Err::<(), CpuError>(CpuError::StackOverflow)
                && final(self)@ == old(self)@,
    {
        if self.sp as usize >= STACK_SIZE {
            return Err(CpuError::StackOverflow);
        }
        self.stack[self.sp as usize] = val;
        self.sp = self.sp + 1;
        Ok(())
    }

    /// Pops the latest return address; an empty stack is reported and left as it is.
    fn pop(&mut self) -> (r: Result<u16, CpuError>)
        requires
            old(self)@.wf(),
        ensures
            final(self)@.wf(),
            old(self)@.sp > 0 ==> r == Ok::<u16, CpuError>(old(self)@.stack[old(self)@.sp - 1])
                && final(self)@ == (CpuState { sp: (old(self)@.sp - 1) as u16, ..old(self)@ }),
            old(self)@.sp == 0 ==> r == Err::<u16, CpuError>(CpuError::StackUnderflow)
                && final(self)@ == old(self)@,
    {
        if self.sp == 0 {
            return Err(CpuError::StackUnderflow);
        }
        self.sp = self.sp - 1;
        Ok(self.stack[self.sp as usize])
    }

    /// Reads the big-endian instruction word at the program counter and moves past it.
    fn fetch(&mut self) -> (r: Result<u16, CpuError>)
        requires
            old(self)@.wf(),
        ensures
            final(self)@.wf(),
            range_fits(old(self)@.pc as int, 2) ==> r == Ok::<u16, CpuError>(
                word_of(old(self)@.ram[old(self)@.pc as int], old(self)@.ram[old(self)@.pc + 1]),
            ) && final(self)@ == old(self)@.with_pc((old(self)@.pc + 2) as u16),
            !range_fits(old(self)@.pc as int, 2) ==> r == Err::<u16, CpuError>(
                CpuError::MemoryOutOfBounds { addr: first_bad_addr(old(self)@.pc as int) },
            ) && final(self)@ == old(self)@,
    {
        let pc = self.pc as usize;
        if pc + 2 > RAM_SIZE {
            return Err(CpuError::MemoryOutOfBounds { addr: if pc >= RAM_SIZE { pc } else { RAM_SIZE } });
        }
        let higher_byte = self.ram[pc] as u16;
        let lower_byte = self.ram[pc + 1] as u16;
        let op = higher_byte * 256 + lower_byte;
        self.pc = self.pc + 2;
        Ok(op)
    }

    /// Arithmetic and logic instructions `8XYN`.
    #[verifier::rlimit(40)]
    fn alu(&mut self, op: u16) -> (r: Result<(), CpuError>)
        requires
            old(self)@.wf(),
        ensures
            final(self)@.wf(),
            outcome(old(self)@, final(self)@, r, alu_spec(old(self)@, op)),
    {
        let x = ((op / 0x100) % 16) as usize;
        let y = ((op / 0x10) % 16) as usize;
        let a = self.v_reg[x];
        let b = self.v_reg[y];
        match op % 16 {
            0 => {
                self.v_reg[x] = b;
            },
            1 => {
                self.v_reg[x] = a | b;
            },
            2 => {
                self.v_reg[x] = a & b;
            },
            3 => {
                self.v_reg[x] = a ^ b;
            },
            4 => {
                let carry = a as u16 + b as u16 > 255;
                self.v_reg[x] = a.wrapping_add(b);
                self.v_reg[FLAG_REG] = if carry { 1 } else { 0 };
            },
            5 => {
                let no_borrow = a >= b;
                self.v_reg[x] = a.wrapping_sub(b);
                self.v_reg[FLAG_REG] = if no_borrow { 1 } else { 0 };
            },
            6 => {
                self.v_reg[x] = a >> 1u8;
                self.v_reg[FLAG_REG] = a & 1u8;
            },
            7 => {
                let no_borrow = b >= a;
                self.v_reg[x] = b.wrapping_sub(a);
                self.v_reg[FLAG_REG] = if no_borrow { 1 } else { 0 };
            },
            0xE => {
                self.v_reg[x] = a << 1u8;
                self.v_reg[FLAG_REG] = (a >> 7u8) & 1u8;
            },
            _ => {
                return Err(CpuError::UnknownOpcode { op });
            },
        }
        proof {
            let e = alu_spec(old(self)@, op);
            assert(e->Ok_0.v =~= self@.v);
        }
        Ok(())
    }

    /// Key instructions `EX9E` (skip if pressed) and `EXA1` (skip if not pressed).
    fn key_skip(&mut self, op: u16) -> (r: Result<(), CpuError>)
        requires
            old(self)@.wf(),
            old(self)@.pc <= RAM_SIZE + 1,
        ensures
            final(self)@.wf(),
            outcome(old(self)@, final(self)@, r, key_skip_spec(old(self)@, op)),
    {
        let x = ((op / 0x100) % 16) as usize;
        let low = op % 0x100;
        if low != 0x9E && low != 0xA1 {
            return Err(CpuError::UnknownOpcode { op });
        }
        let key = self.v_reg[x] as usize;
        if key >= NUM_KEYS {
            return Err(CpuError::KeyOutOfRange { key });
        }
        let pressed = self.keys[key];
        if (low == 0x9E && pressed) || (low == 0xA1 && !pressed) {
            self.pc = self.pc + 2;
        }
        Ok(())
    }

    /// Timer, index, key-wait and memory-transfer instructions `FXNN`.
    fn misc(&mut self, op: u16) -> (r: Result<(), CpuError>)
        requires
            old(self)@.wf(),
            2 <= old(self)@.pc,
        ensures
            final(self)@.wf(),
            outcome(old(self)@, final(self)@, r, misc_spec(old(self)@, op)),
    {
        let ghost s0 = self@;
        let x = ((op / 0x100) % 16) as usize;
        let vx = self.v_reg[x];
        let i = self.i_reg as usize;
        match op % 0x100 {
            0x07 => {
                self.v_reg[x] = self.dt;
            },
            0x0A => {
                let mut k: usize = 0;
                while k < NUM_KEYS && !self.keys[k]
                    invariant
                        self@ == s0,
                        s0.wf(),
                        k <= NUM_KEYS,
                        first_pressed(s0.keys, 0) == first_pressed(s0.keys, k as int),
                    decreases NUM_KEYS - k,
                {
                    k = k + 1;
                }
                if k < NUM_KEYS {
                    self.v_reg[x] = k as u8;
                } else {
                    self.pc = self.pc - 2;
                }
            },
            0x15 => {
                self.dt = vx;
            },
            0x18 => {
                self.st = vx;
            },
            0x1E => {
                self.i_reg = self.i_reg.wrapping_add(vx as u16);
            },
            0x29 => {
                self.i_reg = (vx as u16) * 5;
            },
            0x33 => {
                if i + 3 > RAM_SIZE {
                    return Err(CpuError::MemoryOutOfBounds { addr: if i >= RAM_SIZE { i } else { RAM_SIZE } });
                }
                self.ram[i] = vx / 100;
                self.ram[i + 1] = (vx / 10) % 10;
                self.ram[i + 2] = vx % 10;
            },
            0x55 => {
                if i + x + 1 > RAM_SIZE {
                    return Err(CpuError::MemoryOutOfBounds { addr: if i >= RAM_SIZE { i } else { RAM_SIZE } });
                }
                let mut idx: usize = 0;
                while idx <= x
                    invariant
                        s0.wf(),
                        x < NUM_REGS,
                        i == s0.i,
                        i + x + 1 <= RAM_SIZE,
                        idx <= x + 1,
                        self@ == (CpuState { ram: self@.ram, ..s0 }),
                        self@.ram.len() == RAM_SIZE,
                        forall|a: int|
                            0 <= a < RAM_SIZE ==> #[trigger] self@.ram[a] == if i <= a < i + idx {
                                s0.v[a - i]
                            } else {
                                s0.ram[a]
                            },
                    decreases x + 1 - idx,
                {
                    self.ram[i + idx] = self.v_reg[idx];
                    idx = idx + 1;
                }
                proof {
                    assert(misc_spec(s0, op)->Ok_0.ram =~= self@.ram);
                }
            },
            0x65 => {
                if i + x + 1 > RAM_SIZE {
                    return Err(CpuError::MemoryOutOfBounds { addr: if i >= RAM_SIZE { i } else { RAM_SIZE } });
                }
                let mut idx: usize = 0;
                while idx <= x
                    invariant
                        s0.wf(),
                        x < NUM_REGS,
                        i == s0.i,
                        i + x + 1 <= RAM_SIZE,
                        idx <= x + 1,
                        self@ == (CpuState { v: self@.v, ..s0 }),
                        self@.v.len() == NUM_REGS,
                        forall|r: int|
                            0 <= r < NUM_REGS ==> #[trigger] self@.v[r] == if r < idx {
                                s0.ram[i + r]
                            } else {
                                s0.v[r]
                            },
                    decreases x + 1 - idx,
                {
                    self.v_reg[idx] = self.ram[i + idx];
                    idx = idx + 1;
                }
                proof {
                    assert(misc_spec(s0, op)->Ok_0.v =~= self@.v);
                }
            },
            _ => {
                return Err(CpuError::UnknownOpcode { op });
            },
        }
        proof {
            let e = misc_spec(s0, op);
            assert(e->Ok_0.v =~= self@.v);
            assert(e->Ok_0.ram =~= self@.ram);
        }
        Ok(())
    }

    /// Executes one instruction word; the program counter already points past it. `rnd` is the
    /// random byte that `CXNN` masks.
    fn execute(&mut self, op: u16, rnd: u8) -> (r: Result<(), CpuError>)
        requires
            old(self)@.wf(),
            2 <= old(self)@.pc <= RAM_SIZE + 1,
        ensures
            final(self)@.wf(),
            outcome(old(self)@, final(self)@, r, execute_spec(old(self)@, op, rnd)),
    {
        let x = ((op / 0x100) % 16) as usize;
        let y = ((op / 0x10) % 16) as usize;
        let n = op % 16;
        let nn = (op % 0x100) as u8;
        let nnn = op % 0x1000;
        match op / 0x1000 {
            0 => {
                if op == 0x0000 {
                    Ok(())
                } else if op == 0x00E0 {
                    self.screen = vec![false; SCREEN_SIZE];
                    proof {
                        assert(self@.screen =~= blank_screen());
                    }
                    Ok(())
                } else if op == 0x00EE {
                    let ret_addr = self.pop()?;
                    self.pc = ret_addr;
                    Ok(())
                } else {
                    Err(CpuError::UnknownOpcode { op })
                }
            },
            1 => {
                self.pc = nnn;
                Ok(())
            },
            2 => {
                self.push(self.pc)?;
                self.pc = nnn;
                Ok(())
            },
            3 => {
                if self.v_reg[x] == nn {
                    self.pc = self.pc + 2;
                }
                Ok(())
            },
            4 => {
                if self.v_reg[x] != nn {
                    self.pc = self.pc + 2;
                }
                Ok(())
            },
            5 => {
                if n != 0 {
                    return Err(CpuError::UnknownOpcode { op });
                }
                if self.v_reg[x] == self.v_reg[y] {
                    self.pc = self.pc + 2;
                }
                Ok(())
            },
            6 => {
                self.v_reg[x] = nn;
                Ok(())
            },
            7 => {
                self.v_reg[x] = self.v_reg[x].wrapping_add(nn);
                Ok(())
            },
            8 => self.alu(op),
            9 => {
                if n != 0 {
                    return Err(CpuError::UnknownOpcode { op });
                }
                if self.v_reg[x] != self.v_reg[y] {
                    self.pc = self.pc + 2;
                }
                Ok(())
            },
            0xA => {
                self.i_reg = nnn;
                Ok(())
            },
            0xB => {
                self.pc = self.v_reg[0] as u16 + nnn;
                Ok(())
            },
            0xC => {
                self.v_reg[x] = rnd & nn;
                Ok(())
            },
            0xD => self.draw(x, y, n as usize),
            0xE => self.key_skip(op),
            _ => self.misc(op),
        }
    }

    /// One fetch-decode-execute cycle with `rnd` as the random byte that `CXNN` consumes.
    /// A failing cycle leaves the machine exactly as it was, the program counter still on the
    /// offending instruction.
    pub fn tick_with(&mut self, rnd: u8) -> (r: Result<(), CpuError>)
        requires
            old(self)@.wf(),
        ensures
            final(self)@.wf(),
            outcome(old(self)@, final(self)@, r, tick_spec(old(self)@, rnd)),
    {
        let pc = self.pc;
        let op = self.fetch()?;
        match self.execute(op, rnd) {
            Ok(()) => Ok(()),
            Err(e) => {
                self.pc = pc;
                Err(e)
            },
        }
    }

    /// One fetch-decode-execute cycle, drawing the random byte for `CXNN` from the thread-local
    /// generator.
    pub fn tick(&mut self) -> (r: Result<(), CpuError>)
        requires
            old(self)@.wf(),
        ensures
            final(self)@.wf(),
            exists|rnd: u8| outcome(old(self)@, final(self)@, r, #[trigger] tick_spec(old(self)@, rnd)),
    {
        let rnd = random_byte();
        self.tick_with(rnd)
    }

    /// One timer cycle: the delay and sound timers each count down by one, stopping at zero.
    /// The sound timer going from 1 to 0 is the moment the host should sound its tone.
    pub fn tick_timers(&mut self)
        requires
            old(self)@.wf(),
        ensures
            final(self)@.wf(),
            final(self)@ == tick_timers_spec(old(self)@),
    {
        if self.dt > 0 {
            self.dt = self.dt - 1;
        }
        if self.st > 0 {
            self.st = self.st - 1;
        }
    }

    /// Marks key `idx` as pressed or released; an index past the sixteen keys is refused.
    pub fn keypress(&mut self, idx: usize, pressed: bool) -> (r: Result<(), CpuError>)
        requires
            old(self)@.wf(),
        ensures
            final(self)@.wf(),
            idx < NUM_KEYS ==> r == Ok::<(), CpuError>(()) && final(self)@ == (CpuState {
                keys: old(self)@.keys.update(idx as int, pressed),
                ..old(self)@
            }),
            idx >= NUM_KEYS ==> r == Err::<(), CpuError>(CpuError::KeyOutOfRange { key: idx })
                && final(self)@ == old(self)@,
    {
        if idx >= NUM_KEYS {
            return Err(CpuError::KeyOutOfRange { key: idx });
        }
        self.keys[idx] = pressed;
        Ok(())
    }

    /// Copies a program image into memory at the load address; an image that would run past the
    /// end of memory is refused before anything is copied.
    pub fn load(&mut self, data: &[u8]) -> (r: Result<(), CpuError>)
        requires
            old(self)@.wf(),
        ensures
            final(self)@.wf(),
            program_fits(data@.len() as int) ==> r == Ok::<(), CpuError>(()) && final(self)@ == (CpuState {
                ram: load_spec(old(self)@.ram, data@),
                ..old(self)@
            }),
            !program_fits(data@.len() as int) ==> r == Err::<(), CpuError>(
                CpuError::ProgramTooLarge { len: data@.len() as usize },
            ) && final(self)@ == old(self)@,
    {
        let start = START_ADDR as usize;
        if data.len() > RAM_SIZE - start {
            return Err(CpuError::ProgramTooLarge { len: data.len() });
        }
        let ghost s0 = self@;
        let mut k: usize = 0;
        while k < data.len()
            invariant
                s0.wf(),
                start == START_ADDR,
                start + data@.len() <= RAM_SIZE,
                k <= data@.len(),
                self@ == (CpuState { ram: self@.ram, ..s0 }),
                self@.ram.len() == RAM_SIZE,
                forall|a: int|
                    0 <= a < RAM_SIZE ==> #[trigger] self@.ram[a] == if start <= a < start + k {
                        data@[a - start]
                    } else {
                        s0.ram[a]
                    },
            decreases data@.len() - k,
        {
            self.ram[start + k] = data[k];
            k = k + 1;
        }
        proof {
            assert(self@.ram =~= load_spec(s0.ram, data@));
        }
        Ok(())
    }

    /// The framebuffer, row by row, `SCREEN_WIDTH` cells per row.
    pub fn get_display(&self) -> (r: &[bool])
        ensures
            r@ == self@.screen,
    {
        self.screen.as_slice()
    }

    /// The program counter.
    pub fn pc(&self) -> (r: u16)
        ensures
            r == self@.pc,
    {
        self.pc
    }

    /// The sixteen general-purpose registers, the flags register last.
    pub fn registers(&self) -> (r: &[u8])
        ensures
            r@ == self@.v,
    {
        self.v_reg.as_slice()
    }

    /// The index register.
    pub fn index_register(&self) -> (r: u16)
        ensures
            r == self@.i,
    {
        self.i_reg
    }

    /// The number of return addresses on the call stack.
    pub fn stack_pointer(&self) -> (r: u16)
        ensures
            r == self@.sp,
    {
        self.sp
    }

    /// The delay timer.
    pub fn delay_timer(&self) -> (r: u8)
        ensures
            r == self@.dt,
    {
        self.dt
    }

    /// The sound timer.
    pub fn sound_timer(&self) -> (r: u8)
        ensures
            r == self@.st,
    {
        self.st
    }

    /// The whole of memory.
    pub fn memory(&self) -> (r: &[u8])
        ensures
            r@ == self@.ram,
    {
        self.ram.as_slice()
    }
}

} // verus!
