use vstd::prelude::*;

verus! {

/// Width of the framebuffer, in pixels.
pub const SCREEN_WIDTH: usize = 64;

/// Height of the framebuffer, in pixels.
pub const SCREEN_HEIGHT: usize = 32;

/// Number of pixels in the framebuffer.
pub const SCREEN_SIZE: usize = 2048;

/// Address at which programs are loaded and execution starts.
pub const START_ADDR: u16 = 0x200;

/// Bytes of addressable memory.
pub const RAM_SIZE: usize = 4096;

/// Number of general-purpose registers; the last one doubles as the flags register.
pub const NUM_REGS: usize = 16;

/// Depth of the call stack.
pub const STACK_SIZE: usize = 16;

/// Number of keys on the input device.
pub const NUM_KEYS: usize = 16;

/// Size of the built-in glyph table (sixteen hex digits, five rows each).
pub const FONTSET_SIZE: usize = 80;

/// Index of the flags register.
pub const FLAG_REG: usize = 15;

/// The fatal conditions the machine reports; each stops the instruction before it changes anything.
#[derive(Debug, Clone, Copy, PartialEq, Eq, Structural)]
pub enum CpuError {
    /// A read or write touched memory at or past `addr`, the first address out of range.
    MemoryOutOfBounds { addr: usize },
    /// A call found the stack full.
    StackOverflow,
    /// A return found the stack empty.
    StackUnderflow,
    /// No instruction of the set has this encoding.
    UnknownOpcode { op: u16 },
    /// A program image of `len` bytes does not fit between the load address and the end of memory.
    ProgramTooLarge { len: usize },
    /// A key index outside the sixteen keys of the input device.
    KeyOutOfRange { key: usize },
}

/// The abstract machine state: every register, memory and the framebuffer as plain values.
pub struct CpuState {
    pub pc: u16,
    pub ram: Seq<u8>,
    pub screen: Seq<bool>,
    pub v: Seq<u8>,
    pub i: u16,
    pub sp: u16,
    pub stack: Seq<u16>,
    pub keys: Seq<bool>,
    pub dt: u8,
    pub st: u8,
}

/// The sprites of the hexadecimal digits 0..F, five bytes each.
pub open spec fn glyph_table() -> Seq<u8> {
    seq![
        0xF0u8, 0x90, 0x90, 0x90, 0xF0,
        0x20, 0x60, 0x20, 0x20, 0x70,
        0xF0, 0x10, 0xF0, 0x80, 0xF0,
        0xF0, 0x10, 0xF0, 0x10, 0xF0,
        0x90, 0x90, 0xF0, 0x10, 0x10,
        0xF0, 0x80, 0xF0, 0x10, 0xF0,
        0xF0, 0x80, 0xF0, 0x90, 0xF0,
        0xF0, 0x10, 0x20, 0x40, 0x40,
        0xF0, 0x90, 0xF0, 0x90, 0xF0,
        0xF0, 0x90, 0xF0, 0x10, 0xF0,
        0xF0, 0x90, 0xF0, 0x90, 0x90,
        0xE0, 0x90, 0xE0, 0x90, 0xE0,
        0xF0, 0x80, 0x80, 0x80, 0xF0,
        0xE0, 0x90, 0x90, 0x90, 0xE0,
        0xF0, 0x80, 0xF0, 0x80, 0xF0,
        0xF0, 0x80, 0xF0, 0x80, 0x80,
    ]
}

/// Memory right after construction: the glyph table, then zeros.
pub open spec fn initial_ram() -> Seq<u8> {
    Seq::new(RAM_SIZE as nat, |a: int| if a < FONTSET_SIZE { glyph_table()[a] } else { 0u8 })
}

/// A framebuffer with every pixel off.
pub open spec fn blank_screen() -> Seq<bool> {
    Seq::new(SCREEN_SIZE as nat, |p: int| false)
}

/// The state of a freshly constructed (or reset) machine.
pub open spec fn initial_state() -> CpuState {
    CpuState {
        pc: START_ADDR,
        ram: initial_ram(),
        screen: blank_screen(),
        v: Seq::new(NUM_REGS as nat, |r: int| 0u8),
        i: 0,
        sp: 0,
        stack: Seq::new(STACK_SIZE as nat, |k: int| 0u16),
        keys: Seq::new(NUM_KEYS as nat, |k: int| false),
        dt: 0,
        st: 0,
    }
}

impl CpuState {
    /// Every table has its fixed size and the stack pointer stays within the stack.
    pub open spec fn wf(self) -> bool {
        &&& self.ram.len() == RAM_SIZE
        &&& self.screen.len() == SCREEN_SIZE
        &&& self.v.len() == NUM_REGS
        &&& self.stack.len() == STACK_SIZE
        &&& self.keys.len() == NUM_KEYS
        &&& self.sp <= STACK_SIZE
    }

    /// The state with the program counter moved to `pc`.
    pub open spec fn with_pc(self, pc: u16) -> CpuState {
        CpuState { pc, ..self }
    }

    /// The state with register `x` set to `val`.
    pub open spec fn with_reg(self, x: int, val: u8) -> CpuState {
        CpuState { v: self.v.update(x, val), ..self }
    }

    /// The state with register `x` set to `val` and then the flags register to `flag`.
    pub open spec fn with_reg_flag(self, x: int, val: u8, flag: u8) -> CpuState {
        CpuState { v: self.v.update(x, val).update(FLAG_REG as int, flag), ..self }
    }

    /// The state that skips the next instruction when `cond` holds.
    pub open spec fn skip_if(self, cond: bool) -> CpuState {
        if cond { self.with_pc((self.pc + 2) as u16) } else { self }
    }
}

/// The first address of `[start, start + len)` that lies outside memory.
pub open spec fn first_bad_addr(start: int) -> usize {
    if start >= RAM_SIZE { start as usize } else { RAM_SIZE }
}

/// Reading or writing `len` bytes from `start` stays inside memory.
pub open spec fn range_fits(start: int, len: int) -> bool {
    start + len <= RAM_SIZE
}

/// Top nibble of an instruction word.
pub open spec fn op_kind(op: u16) -> u16 {
    (op / 0x1000) as u16
}

/// Second nibble: the first register operand.
pub open spec fn op_x(op: u16) -> int {
    ((op / 0x100) % 16) as int
}

/// Third nibble: the second register operand.
pub open spec fn op_y(op: u16) -> int {
    ((op / 0x10) % 16) as int
}

/// Low nibble.
pub open spec fn op_n(op: u16) -> u16 {
    (op % 16) as u16
}

/// Low byte, as a selector among the instructions that share a top nibble.
pub open spec fn op_low(op: u16) -> u16 {
    (op % 0x100) as u16
}

/// Low byte: an immediate value.
pub open spec fn op_nn(op: u16) -> u8 {
    (op % 0x100) as u8
}

/// Low twelve bits: an address.
pub open spec fn op_nnn(op: u16) -> u16 {
    (op % 0x1000) as u16
}

/// The big-endian instruction word made of two memory bytes.
pub open spec fn word_of(hi: u8, lo: u8) -> u16 {
    (hi as int * 256 + lo as int) as u16
}

/// Whether column `col` (0 = leftmost) of a sprite row is set.
pub open spec fn sprite_bit(row_bits: u8, col: int) -> bool {
    row_bits & (0x80u8 >> (col as u8)) != 0
}

/// Whether the sprite of `n` rows at `s.i`, drawn at `(x0, y0)`, covers framebuffer cell `p`
/// once coordinates wrap around the screen edges.
pub open spec fn draw_covers(s: CpuState, x0: int, y0: int, n: int, p: int) -> bool {
    let col = (p % SCREEN_WIDTH as int - x0) % SCREEN_WIDTH as int;
    let row = (p / SCREEN_WIDTH as int - y0) % SCREEN_HEIGHT as int;
    col < 8 && row < n && sprite_bit(s.ram[s.i + row], col)
}

/// Framebuffer cell of column `x`, row `y` (both already on screen).
pub open spec fn pixel_index(x: int, y: int) -> int {
    x + SCREEN_WIDTH * y
}

/// Draw instruction `DXYN`: XOR the sprite onto the screen; the flags register tells whether
/// some lit pixel went dark.
pub open spec fn draw_spec(s: CpuState, x: int, y: int, n: int) -> Result<CpuState, CpuError> {
    if n > 0 && !range_fits(s.i as int, n) {
        Err(CpuError::MemoryOutOfBounds { addr: first_bad_addr(s.i as int) })
    } else {
        let x0 = s.v[x] as int;
        let y0 = s.v[y] as int;
        let collided = exists|p: int|
            0 <= p < SCREEN_SIZE && #[trigger] draw_covers(s, x0, y0, n, p) && s.screen[p];
        Ok(CpuState {
            screen: Seq::new(
                SCREEN_SIZE as nat,
                |p: int| s.screen[p] != draw_covers(s, x0, y0, n, p),
            ),
            v: s.v.update(FLAG_REG as int, if collided { 1u8 } else { 0u8 }),
            ..s
        })
    }
}

/// Arithmetic and logic instructions `8XYN`.
pub open spec fn alu_spec(s: CpuState, op: u16) -> Result<CpuState, CpuError> {
    let x = op_x(op);
    let y = op_y(op);
    let a = s.v[x];
    let b = s.v[y];
    match op_n(op) {
        0 => Ok(s.with_reg(x, b)),
        1 => Ok(s.with_reg(x, a | b)),
        2 => Ok(s.with_reg(x, a & b)),
        3 => Ok(s.with_reg(x, a ^ b)),
        4 => Ok(s.with_reg_flag(x, ((a + b) % 256) as u8, if a + b > 255 { 1 } else { 0 })),
        5 => Ok(s.with_reg_flag(x, ((a - b) % 256) as u8, if a >= b { 1 } else { 0 })),
        6 => Ok(s.with_reg_flag(x, a >> 1u8, a & 1u8)),
        7 => Ok(s.with_reg_flag(x, ((b - a) % 256) as u8, if b >= a { 1 } else { 0 })),
        0xE => Ok(s.with_reg_flag(x, a << 1u8, (a >> 7u8) & 1u8)),
        _ => Err(CpuError::UnknownOpcode { op }),
    }
}

/// Index of the lowest pressed key at or after `from`, or `NUM_KEYS` if there is none.
pub open spec fn first_pressed(keys: Seq<bool>, from: int) -> int
    decreases NUM_KEYS - from,
{
    if from >= NUM_KEYS {
        NUM_KEYS as int
    } else if keys[from] {
        from
    } else {
        first_pressed(keys, from + 1)
    }
}

/// Key instructions `EX9E` and `EXA1`.
pub open spec fn key_skip_spec(s: CpuState, op: u16) -> Result<CpuState, CpuError> {
    let key = s.v[op_x(op)];
    if op_low(op) != 0x9E && op_low(op) != 0xA1 {
        Err(CpuError::UnknownOpcode { op })
    } else if key >= NUM_KEYS {
        Err(CpuError::KeyOutOfRange { key: key as usize })
    } else if op_low(op) == 0x9E {
        Ok(s.skip_if(s.keys[key as int]))
    } else {
        Ok(s.skip_if(!s.keys[key as int]))
    }
}

/// Timer, index, key-wait and memory-transfer instructions `FXNN`.
pub open spec fn misc_spec(s: CpuState, op: u16) -> Result<CpuState, CpuError> {
    let x = op_x(op);
    let vx = s.v[x];
    let i = s.i as int;
    match op_low(op) {
        0x07 => Ok(s.with_reg(x, s.dt)),
        0x0A => {
            let k = first_pressed(s.keys, 0);
            if k < NUM_KEYS {
                Ok(s.with_reg(x, k as u8))
            } else {
                Ok(s.with_pc((s.pc - 2) as u16))
            }
        },
        0x15 => Ok(CpuState { dt: vx, ..s }),
        0x18 => Ok(CpuState { st: vx, ..s }),
        0x1E => Ok(CpuState { i: ((s.i + vx) % 0x10000) as u16, ..s }),
        0x29 => Ok(CpuState { i: (vx * 5) as u16, ..s }),
        0x33 => if !range_fits(i, 3) {
            Err(CpuError::MemoryOutOfBounds { addr: first_bad_addr(i) })
        } else {
            Ok(
                CpuState {
                    ram: s.ram.update(i, (vx / 100) as u8).update(i + 1, ((vx / 10) % 10) as u8).update(
                        i + 2,
                        (vx % 10) as u8,
                    ),
                    ..s
                },
            )
        },
        0x55 => if !range_fits(i, x + 1) {
            Err(CpuError::MemoryOutOfBounds { addr: first_bad_addr(i) })
        } else {
            Ok(
                CpuState {
                    ram: Seq::new(
                        RAM_SIZE as nat,
                        |a: int| if i <= a <= i + x { s.v[a - i] } else { s.ram[a] },
                    ),
                    ..s
                },
            )
        },
        0x65 => if !range_fits(i, x + 1) {
            Err(CpuError::MemoryOutOfBounds { addr: first_bad_addr(i) })
        } else {
            Ok(
                CpuState {
                    v: Seq::new(NUM_REGS as nat, |r: int| if r <= x { s.ram[i + r] } else { s.v[r] }),
                    ..s
                },
            )
        },
        _ => Err(CpuError::UnknownOpcode { op }),
    }
}

/// The effect of executing instruction `op` once the program counter has moved past it;
/// `rnd` is the random byte that `CXNN` consumes.
pub open spec fn execute_spec(s: CpuState, op: u16, rnd: u8) -> Result<CpuState, CpuError> {
    let x = op_x(op);
    let y = op_y(op);
    let nn = op_nn(op);
    let nnn = op_nnn(op);
    match op_kind(op) {
        0 => if op == 0x0000 {
            Ok(s)
        } else if op == 0x00E0 {
            Ok(CpuState { screen: blank_screen(), ..s })
        } else if op == 0x00EE {
            if s.sp == 0 {
                Err(CpuError::StackUnderflow)
            } else {
                Ok(CpuState { pc: s.stack[s.sp - 1], sp: (s.sp - 1) as u16, ..s })
            }
        } else {
            Err(CpuError::UnknownOpcode { op })
        },
        1 => Ok(s.with_pc(nnn)),
        2 => if s.sp >= STACK_SIZE {
            Err(CpuError::StackOverflow)
        } else {
            Ok(CpuState { stack: s.stack.update(s.sp as int, s.pc), sp: (s.sp + 1) as u16, pc: nnn, ..s })
        },
        3 => Ok(s.skip_if(s.v[x] == nn)),
        4 => Ok(s.skip_if(s.v[x] != nn)),
        5 => if op_n(op) == 0 {
            Ok(s.skip_if(s.v[x] == s.v[y]))
        } else {
            Err(CpuError::UnknownOpcode { op })
        },
        6 => Ok(s.with_reg(x, nn)),
        7 => Ok(s.with_reg(x, ((s.v[x] + nn) % 256) as u8)),
        8 => alu_spec(s, op),
        9 => if op_n(op) == 0 {
            Ok(s.skip_if(s.v[x] != s.v[y]))
        } else {
            Err(CpuError::UnknownOpcode { op })
        },
        0xA => Ok(CpuState { i: nnn, ..s }),
        0xB => Ok(s.with_pc((s.v[0] + nnn) as u16)),
        0xC => Ok(s.with_reg(x, rnd & nn)),
        0xD => draw_spec(s, x, y, op_n(op) as int),
        0xE => key_skip_spec(s, op),
        _ => misc_spec(s, op),
    }
}

/// `r` and the state `after` are what `expected` describes; a failure leaves `before` untouched.
pub open spec fn outcome(
    before: CpuState,
    after: CpuState,
    r: Result<(), CpuError>,
    expected: Result<CpuState, CpuError>,
) -> bool {
    match r {
        Ok(_) => expected == Ok::<CpuState, CpuError>(after),
        Err(e) => expected == Err::<CpuState, CpuError>(e) && after == before,
    }
}

/// One machine cycle: fetch the big-endian word at the program counter, advance past it,
/// execute it. A failing cycle leaves the state as it was.
pub open spec fn tick_spec(s: CpuState, rnd: u8) -> Result<CpuState, CpuError> {
    if !range_fits(s.pc as int, 2) {
        Err(CpuError::MemoryOutOfBounds { addr: first_bad_addr(s.pc as int) })
    } else {
        let op = word_of(s.ram[s.pc as int], s.ram[s.pc + 1]);
        execute_spec(s.with_pc((s.pc + 2) as u16), op, rnd)
    }
}

/// Memory after copying `data` into the program region at the load address.
pub open spec fn load_spec(ram: Seq<u8>, data: Seq<u8>) -> Seq<u8> {
    Seq::new(
        RAM_SIZE as nat,
        |a: int| if START_ADDR <= a < START_ADDR + data.len() { data[a - START_ADDR] } else { ram[a] },
    )
}

/// A program image of `len` bytes fits between the load address and the end of memory.
pub open spec fn program_fits(len: int) -> bool {
    START_ADDR + len <= RAM_SIZE
}

/// One timer cycle: each timer counts down by one unless already at zero.
pub open spec fn tick_timers_spec(s: CpuState) -> CpuState {
    CpuState {
        dt: if s.dt > 0 { (s.dt - 1) as u8 } else { 0 },
        st: if s.st > 0 { (s.st - 1) as u8 } else { 0 },
        ..s
    }
}

} // verus!
