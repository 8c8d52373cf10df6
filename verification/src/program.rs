//! The execution engine: the aquarium of tanks, the fish-tank pointer, the
//! per-tank instruction pointer, the shared operand stack, the trampoline
//! flag, and the single-instruction `step` transition.

use vstd::prelude::*;

use crate::parser::ParseError;

verus! {

/// The number of rows of every tank grid.
pub const TANK_ROWS: usize = 5;

/// The number of columns of every tank grid.
pub const TANK_COLS: usize = 4;

/// The direction shared by instruction-pointer and fish-tank-pointer moves:
/// `Up` decreases the row, `Down` increases it, `Left` decreases the column,
/// `Right` increases it, always wrapping at the grid edge.
#[derive(Clone, Copy, PartialEq, Eq, Structural, Debug)]
pub enum Direction {
    Up,
    Left,
    Right,
    Down,
}

/// The per-tank cycle-instruction selector, advanced one position (with
/// wraparound) every time that tank executes its cycle opcode.
#[derive(Clone, Copy, PartialEq, Eq, Structural, Debug)]
pub enum CycleInstruction {
    Subtract,
    Swap,
    Dup,
    Drop,
}

impl CycleInstruction {
    /// The successor in the fixed cyclic order
    /// Subtract -> Swap -> Dup -> Drop -> Subtract.
    pub open spec fn spec_next(self) -> CycleInstruction {
        match self {
            CycleInstruction::Subtract => CycleInstruction::Swap,
            CycleInstruction::Swap => CycleInstruction::Dup,
            CycleInstruction::Dup => CycleInstruction::Drop,
            CycleInstruction::Drop => CycleInstruction::Subtract,
        }
    }

    /// Advances the selector one position in the cyclic order.
    pub fn next(self) -> (r: CycleInstruction)
        ensures
            r == self.spec_next(),
    {
        match self {
            CycleInstruction::Subtract => CycleInstruction::Swap,
            CycleInstruction::Swap => CycleInstruction::Dup,
            CycleInstruction::Dup => CycleInstruction::Drop,
            CycleInstruction::Drop => CycleInstruction::Subtract,
        }
    }
}

/// Four selector advances return to the start: the selector cycles with
/// period four, so every tank revisits Subtract, Swap, Dup and Drop in turn.
pub proof fn lemma_cycle_instruction_period(c: CycleInstruction)
    ensures
        c.spec_next().spec_next().spec_next().spec_next() == c,
{
}

/// A cell address inside one tank: a row below `TANK_ROWS` and a column below
/// `TANK_COLS`. Moves wrap modulo the respective dimension and can never
/// leave the grid.
#[derive(Clone, Copy, PartialEq, Eq, Structural, Debug)]
pub struct InstructionPointer {
    pub row: usize,
    pub col: usize,
}

impl InstructionPointer {
    /// Both coordinates are inside the fixed grid shape.
    pub open spec fn wf(self) -> bool {
        self.row < TANK_ROWS && self.col < TANK_COLS
    }

    /// The row moved one step up, wrapping from 0 to the bottom row.
    pub open spec fn spec_row_up(r: usize) -> usize {
        if r == 0 {
            (TANK_ROWS - 1) as usize
        } else {
            (r - 1) as usize
        }
    }

    /// The row moved one step down, wrapping from the bottom row to 0.
    pub open spec fn spec_row_down(r: usize) -> usize {
        if r + 1 == TANK_ROWS {
            0usize
        } else {
            (r + 1) as usize
        }
    }

    /// The column moved one step left, wrapping from 0 to the last column.
    pub open spec fn spec_col_left(c: usize) -> usize {
        if c == 0 {
            (TANK_COLS - 1) as usize
        } else {
            (c - 1) as usize
        }
    }

    /// The column moved one step right, wrapping from the last column to 0.
    pub open spec fn spec_col_right(c: usize) -> usize {
        if c + 1 == TANK_COLS {
            0usize
        } else {
            (c + 1) as usize
        }
    }

    /// The pointer moved one step in `dir`, with modular wraparound.
    pub open spec fn spec_move_dir(self, dir: Direction) -> InstructionPointer {
        match dir {
            Direction::Up => InstructionPointer { row: Self::spec_row_up(self.row), col: self.col },
            Direction::Down => InstructionPointer {
                row: Self::spec_row_down(self.row),
                col: self.col,
            },
            Direction::Left => InstructionPointer {
                row: self.row,
                col: Self::spec_col_left(self.col),
            },
            Direction::Right => InstructionPointer {
                row: self.row,
                col: Self::spec_col_right(self.col),
            },
        }
    }

    pub fn new(row: usize, col: usize) -> (r: InstructionPointer)
        requires
            row < TANK_ROWS,
            col < TANK_COLS,
        ensures
            r.row == row && r.col == col,
    {
        InstructionPointer { row, col }
    }

    /// Moves the pointer one step in `rhs`, wrapping the row modulo
    /// `TANK_ROWS` and the column modulo `TANK_COLS`; the result never leaves
    /// the grid.
    pub fn move_dir(self, rhs: Direction) -> (r: Self)
        requires
            self.wf(),
        ensures
            r == self.spec_move_dir(rhs),
            r.wf(),
    {
        match rhs {
            Direction::Up => Self {
                row: if self.row == 0 {
                    TANK_ROWS - 1
                } else {
                    self.row - 1
                },
                col: self.col,
            },
            Direction::Down => Self {
                row: if self.row + 1 == TANK_ROWS {
                    0
                } else {
                    self.row + 1
                },
                col: self.col,
            },
            Direction::Left => Self {
                row: self.row,
                col: if self.col == 0 {
                    TANK_COLS - 1
                } else {
                    self.col - 1
                },
            },
            Direction::Right => Self {
                row: self.row,
                col: if self.col + 1 == TANK_COLS {
                    0
                } else {
                    self.col + 1
                },
            },
        }
    }
}

impl Default for InstructionPointer {
    /// The pointer at the top-left cell.
    fn default() -> (r: Self)
        ensures
            r.row == 0 && r.col == 0,
    {
        InstructionPointer { row: 0, col: 0 }
    }
}

/// One of the engine's fatal execution conditions: a malformed or
/// unsupported interpreted program.
#[derive(Clone, Copy, PartialEq, Eq, Structural, Debug)]
pub enum ExecError {
    /// A stack operation needed more operands than the stack holds.
    StackUnderflow,
    /// A call selected a builtin letter the engine does not implement.
    UnsupportedBuiltin,
    /// A value left the machine's integer range.
    Overflow,
}

/// What one step asks of the host, beyond the state change.
#[derive(Debug)]
pub enum StepEffect {
    /// Nothing: execution just goes on.
    Continue,
    /// The program awaits one byte of input through `provide_input`.
    ReadInput,
    /// The program emits this text on the output stream.
    Output(String),
    /// The program terminates successfully; no further step should run.
    Halt,
}

/// Ghost mirror of `StepEffect`.
pub enum EffectModel {
    Continue,
    ReadInput,
    Output(Seq<char>),
    Halt,
}

impl View for StepEffect {
    type V = EffectModel;

    open spec fn view(&self) -> EffectModel {
        match self {
            StepEffect::Continue => EffectModel::Continue,
            StepEffect::ReadInput => EffectModel::ReadInput,
            StepEffect::Output(s) => EffectModel::Output(s@),
            StepEffect::Halt => EffectModel::Halt,
        }
    }
}

/// What `String::from_utf8_lossy` yields on the given bytes; the decoding
/// depends on the bytes alone.
pub uninterp spec fn utf8_lossy_of(bytes: Seq<u8>) -> Seq<char>;

/// Relies on String::from_utf8_lossy: a lossy UTF-8 decoding of the bytes,
/// a function of the bytes alone.
#[verifier::external_body]
fn decode_utf8_lossy(bytes: &Vec<u8>) -> (r: String)
    ensures
        r@ == utf8_lossy_of(bytes@),
{
    String::from_utf8_lossy(bytes.as_slice()).into_owned()
}

/// Relies on rand::random_range: a value drawn from the non-empty range
/// `0 .. 4`, so always below 4.
#[verifier::external_body]
fn random_index4() -> (r: u8)
    ensures
        r < 4,
{
    rand::random_range(0..4u8)
}

/// `d` is a positive divisor of `n`.
pub open spec fn spec_divides(d: usize, n: usize) -> bool {
    1 <= d <= n && n % d == 0
}

/// Relies on divisors_fixed::Divisors::divisors_unordered: the list of all
/// positive divisors of a positive integer, in no particular order.
#[verifier::external_body]
fn divisors_of(n: usize) -> (r: Vec<usize>)
    requires
        1 <= n,
    ensures
        forall|i: int| 0 <= i < r@.len() ==> spec_divides(#[trigger] r@[i], n),
        forall|d: usize| spec_divides(d, n) ==> #[trigger] r@.contains(d),
        r@.len() >= 1,
{
    divisors_fixed::Divisors::divisors_unordered(&n)
}

/// `|a - sqrt(n)| <= |b - sqrt(n)|`, stated without square roots: for
/// `a < b` it holds exactly when `(a + b)^2 >= 4 n`, and symmetrically.
pub open spec fn spec_closer_eq(a: int, b: int, n: int) -> bool {
    if a == b {
        true
    } else if a < b {
        (a + b) * (a + b) >= 4 * n
    } else {
        (a + b) * (a + b) <= 4 * n
    }
}

/// The documented aquarium height: a divisor of `n` no farther from
/// `sqrt(n)` than any other divisor, and the smallest such divisor, as an
/// ascending search keeping the first minimum would find.
pub open spec fn spec_best_height(h: usize, n: usize) -> bool {
    &&& spec_divides(h, n)
    &&& (forall|d: usize| #[trigger] spec_divides(d, n) ==> spec_closer_eq(h as int, d as int, n as int))
    &&& (forall|d: usize|
        #[trigger] spec_divides(d, n) && d < h ==> !spec_closer_eq(d as int, h as int, n as int))
}

proof fn lemma_sq_le(x: int, y: int)
    requires
        0 <= x <= y,
    ensures
        x * x <= y * y,
{
    assert(x * x <= y * y) by (nonlinear_arith)
        requires
            0 <= x <= y,
    {}
}

proof fn lemma_sq_lt(x: int, y: int)
    requires
        0 <= x < y,
    ensures
        x * x < y * y,
{
    assert(x * x < y * y) by (nonlinear_arith)
        requires
            0 <= x < y,
    {}
}

/// Closeness to the square root is transitive, so a linear scan can pick
/// the closest divisor.
proof fn lemma_closer_eq_trans(a: int, b: int, c: int, n: int)
    requires
        0 <= a,
        0 <= b,
        0 <= c,
        0 <= n,
        spec_closer_eq(a, b, n),
        spec_closer_eq(b, c, n),
    ensures
        spec_closer_eq(a, c, n),
{
    if a == b || b == c || a == c {
    } else if a < b {
        if b < c {
            lemma_sq_le(a + b, a + c);
        } else {
            // c < b, and (b+c)^2 <= 4n <= (a+b)^2 forces c <= a, so c < a
            if a + b < b + c {
                lemma_sq_lt(a + b, b + c);
            }
            assert(b + c <= a + b);
            lemma_sq_le(a + c, b + c);
        }
    } else {
        if b > c {
            lemma_sq_le(a + c, a + b);
        } else {
            // b < c, and (a+b)^2 <= 4n <= (b+c)^2 forces a <= c, so a < c
            if b + c < a + b {
                lemma_sq_lt(b + c, a + b);
            }
            assert(a + b <= b + c);
            lemma_sq_le(b + c, a + c);
        }
    }
}

/// Compares `(a + b)^2` with `4 n` without ever overflowing, so deciding
/// which of two divisors lies closer to the square root.
fn closer_eq(a: usize, b: usize, n: usize) -> (r: bool)
    ensures
        r == spec_closer_eq(a as int, b as int, n as int),
{
    if a == b {
        return true;
    }
    let s: u128 = a as u128 + b as u128;
    let ge: bool;
    let le: bool;
    if s >= 0x2_0000_0000 {
        proof {
            assert(s * s >= 0x2_0000_0000 * 0x2_0000_0000) by (nonlinear_arith)
                requires
                    s >= 0x2_0000_0000,
            {}
            assert(usize::MAX == 0xffff_ffff_ffff_ffff || usize::MAX == 0xffff_ffff);
        }
        ge = true;
        le = false;
    } else {
        proof {
            assert(s * s < 0x2_0000_0000 * 0x2_0000_0000) by (nonlinear_arith)
                requires
                    s < 0x2_0000_0000,
            {}
        }
        let sq = s * s;
        let m = 4 * (n as u128);
        ge = sq >= m;
        le = sq <= m;
    }
    if a < b {
        ge
    } else {
        le
    }
}

/// Ghost mirror of the whole machine state.
pub struct ProgramModel {
    pub tanks: Seq<crate::tank::TankModel>,
    pub width: usize,
    pub height: usize,
    pub ftp_row: usize,
    pub ftp_col: usize,
    pub ip: InstructionPointer,
    pub ip_dir: Direction,
    pub stack: Seq<i64>,
    pub trampoline_set: bool,
}

/// A well-shaped machine: a non-empty rectangular aquarium, both pointers in
/// range, and every tank of the fixed 5 x 4 shape.
pub open spec fn wf_model(m: ProgramModel) -> bool {
    &&& 1 <= m.width && 1 <= m.height
    &&& m.tanks.len() == m.width * m.height
    &&& m.ftp_row < m.height && m.ftp_col < m.width
    &&& m.ip.wf()
    &&& (forall|k: int| 0 <= k < m.tanks.len() ==> (#[trigger] m.tanks[k]).cells.len() == 20)
}

/// The index of the current tank in the row-major aquarium.
pub open spec fn spec_cur_idx(m: ProgramModel) -> int {
    m.ftp_row * m.width + m.ftp_col
}

/// The current tank.
pub open spec fn spec_cur_tank(m: ProgramModel) -> crate::tank::TankModel {
    m.tanks[spec_cur_idx(m)]
}

/// The instruction code fetched this step: the addressed cell modulo 10.
pub open spec fn spec_fetch(m: ProgramModel) -> usize {
    spec_cur_tank(m).cells[m.ip.row * 4 + m.ip.col] % 10
}

/// The state with the instruction pointer advanced along `ip_dir`.
pub open spec fn spec_adv(m: ProgramModel) -> ProgramModel {
    ProgramModel { ip: m.ip.spec_move_dir(m.ip_dir), ..m }
}

/// The state with a new pointer direction.
pub open spec fn spec_with_dir(m: ProgramModel, d: Direction) -> ProgramModel {
    ProgramModel { ip_dir: d, ..m }
}

/// The fish-tank pointer moved one step along `ip_dir`, wrapping modulo the
/// aquarium's dimensions; the instruction pointer does not move.
pub open spec fn spec_ftp_moved(m: ProgramModel) -> ProgramModel {
    match m.ip_dir {
        Direction::Down => ProgramModel {
            ftp_row: if m.ftp_row + 1 == m.height {
                0usize
            } else {
                (m.ftp_row + 1) as usize
            },
            ..m
        },
        Direction::Up => ProgramModel {
            ftp_row: if m.ftp_row == 0 {
                (m.height - 1) as usize
            } else {
                (m.ftp_row - 1) as usize
            },
            ..m
        },
        Direction::Left => ProgramModel {
            ftp_col: if m.ftp_col == 0 {
                (m.width - 1) as usize
            } else {
                (m.ftp_col - 1) as usize
            },
            ..m
        },
        Direction::Right => ProgramModel {
            ftp_col: if m.ftp_col + 1 == m.width {
                0usize
            } else {
                (m.ftp_col + 1) as usize
            },
            ..m
        },
    }
}

/// The stack transformation of each cycle instruction: Subtract pops `b`
/// then `a` and pushes `a - b`; Swap exchanges the two top values; Dup
/// duplicates the top; Drop removes it, doing nothing on an empty stack.
pub open spec fn spec_cycle_stack(ci: CycleInstruction, s: Seq<i64>) -> Seq<i64> {
    let n = s.len() as int;
    match ci {
        CycleInstruction::Subtract => s.take(n - 2).push((s[n - 2] - s[n - 1]) as i64),
        CycleInstruction::Swap => s.update(n - 1, s[n - 2]).update(n - 2, s[n - 1]),
        CycleInstruction::Dup => s.push(s[n - 1]),
        CycleInstruction::Drop => if n == 0 {
            s
        } else {
            s.drop_last()
        },
    }
}

/// The state after pushing the current tank's accumulator and incrementing it.
pub open spec fn spec_push_acc(m: ProgramModel) -> ProgramModel {
    let i = spec_cur_idx(m);
    let t = m.tanks[i];
    ProgramModel {
        tanks: m.tanks.update(
            i,
            crate::tank::TankModel { acc: (t.acc + 1) as usize, ..t },
        ),
        stack: m.stack.push(t.acc as i64),
        ..m
    }
}

/// The state after the current tank's cycle instruction ran and its selector
/// advanced.
pub open spec fn spec_do_cycle(m: ProgramModel) -> ProgramModel {
    let i = spec_cur_idx(m);
    let t = m.tanks[i];
    ProgramModel {
        tanks: m.tanks.update(
            i,
            crate::tank::TankModel { cycle_instr: t.cycle_instr.spec_next(), ..t },
        ),
        stack: spec_cycle_stack(t.cycle_instr, m.stack),
        ..m
    }
}

/// The tunnel: the trampoline flag becomes set unless the stack's top value
/// exists and is strictly positive.
pub open spec fn spec_tunnel(m: ProgramModel) -> ProgramModel {
    ProgramModel { trampoline_set: !(m.stack.len() > 0 && m.stack.last() > 0), ..m }
}

/// The big-endian bytes of a stack value, as `i64::to_be_bytes` lays them
/// out: byte `i` holds bits `56 - 8 i` and down of the two's complement.
pub open spec fn spec_be_bytes(v: i64) -> Seq<u8> {
    Seq::new(8, |i: int| (((v as u64) >> (((7 - i) * 8) as u64)) & 0xff) as u8)
}

/// The fatal condition of a call, if any: an empty or unknown builtin
/// letter, or popping output from an empty stack.
pub open spec fn spec_call_err(m: ProgramModel) -> Option<ExecError> {
    let t = spec_cur_tank(m);
    if t.name.len() == 0 {
        Some(ExecError::UnsupportedBuiltin)
    } else if t.name[0] == 'e' || t.name[0] == 'i' || t.name[0] == 'y' {
        None
    } else if t.name[0] == 'o' {
        if m.stack.len() == 0 {
            Some(ExecError::StackUnderflow)
        } else {
            None
        }
    } else {
        Some(ExecError::UnsupportedBuiltin)
    }
}

/// The state after a successful call; `yd` stands for the direction the `y`
/// builtin drew, and is ignored by every other builtin.
pub open spec fn spec_call_post(m: ProgramModel, yd: Direction) -> ProgramModel {
    let t = spec_cur_tank(m);
    if t.name.len() == 0 {
        m
    } else if t.name[0] == 'e' {
        m
    } else if t.name[0] == 'i' {
        spec_adv(m)
    } else if t.name[0] == 'o' {
        spec_adv(ProgramModel { stack: m.stack.drop_last(), ..m })
    } else if t.name[0] == 'y' {
        spec_adv(spec_with_dir(m, yd))
    } else {
        m
    }
}

/// What a successful call asks of the host.
pub open spec fn spec_call_effect(m: ProgramModel) -> EffectModel {
    let t = spec_cur_tank(m);
    if t.name.len() == 0 {
        EffectModel::Continue
    } else if t.name[0] == 'e' {
        EffectModel::Halt
    } else if t.name[0] == 'i' {
        EffectModel::ReadInput
    } else if t.name[0] == 'o' {
        EffectModel::Output(utf8_lossy_of(spec_be_bytes(m.stack.last())))
    } else {
        EffectModel::Continue
    }
}

/// The fatal condition of one step, if any. The no-op and a consumed
/// trampoline never fail; pushing the accumulator fails when it leaves the
/// machine range; the cycle instructions fail on a short stack or an
/// out-of-range difference; a call fails as `spec_call_err` says.
pub open spec fn spec_step_err(m: ProgramModel) -> Option<ExecError> {
    let code = spec_fetch(m);
    let n = m.stack.len() as int;
    if code == 0 || m.trampoline_set {
        None
    } else if code == 5 {
        let acc = spec_cur_tank(m).acc;
        if acc as int > i64::MAX as int || acc == usize::MAX {
            Some(ExecError::Overflow)
        } else {
            None
        }
    } else if code == 6 {
        spec_step_err_cycle(m)
    } else if code == 9 {
        spec_call_err(m)
    } else {
        None
    }
}

/// The state after one successful step; `yd` is the direction a `y` builtin
/// drew, ignored everywhere else. Code 0 only advances the pointer and in
/// particular leaves a set trampoline flag set; any other code under a set
/// flag is skipped, consuming the flag.
pub open spec fn spec_step_post(m: ProgramModel, yd: Direction) -> ProgramModel {
    let code = spec_fetch(m);
    if code == 0 {
        spec_adv(m)
    } else if m.trampoline_set {
        spec_adv(ProgramModel { trampoline_set: false, ..m })
    } else if code == 1 {
        spec_adv(spec_with_dir(m, Direction::Down))
    } else if code == 2 {
        spec_adv(spec_with_dir(m, Direction::Up))
    } else if code == 3 {
        spec_adv(spec_with_dir(m, Direction::Right))
    } else if code == 4 {
        spec_adv(spec_with_dir(m, Direction::Left))
    } else if code == 5 {
        spec_adv(spec_push_acc(m))
    } else if code == 6 {
        spec_adv(spec_do_cycle(m))
    } else if code == 7 {
        spec_adv(spec_tunnel(m))
    } else if code == 8 {
        spec_ftp_moved(m)
    } else {
        spec_call_post(m, yd)
    }
}

/// What one successful step asks of the host.
pub open spec fn spec_step_effect(m: ProgramModel) -> EffectModel {
    let code = spec_fetch(m);
    if code == 0 || m.trampoline_set {
        EffectModel::Continue
    } else if code == 9 {
        spec_call_effect(m)
    } else {
        EffectModel::Continue
    }
}

/// The execution engine: the aquarium, both pointers, the shared operand
/// stack and the trampoline flag. `step` advances it by exactly one
/// instruction cycle.
pub struct Program {
    aquarium: Vec<crate::tank::Tank>,
    width: usize,
    height: usize,
    ftp_row: usize,
    ftp_col: usize,
    ip: InstructionPointer,
    ip_dir: Direction,
    stack: Vec<i64>,
    trampoline_set: bool,
}

impl View for Program {
    type V = ProgramModel;

    closed spec fn view(&self) -> ProgramModel {
        ProgramModel {
            tanks: self.aquarium@.map_values(|t: crate::tank::Tank| t@),
            width: self.width,
            height: self.height,
            ftp_row: self.ftp_row,
            ftp_col: self.ftp_col,
            ip: self.ip,
            ip_dir: self.ip_dir,
            stack: self.stack@,
            trampoline_set: self.trampoline_set,
        }
    }
}

impl Program {
    /// Every tank's grid really has the fixed shape.
    pub closed spec fn tanks_wf(&self) -> bool {
        forall|k: int| 0 <= k < self.aquarium@.len() ==> (#[trigger] self.aquarium@[k]).wf()
    }

    /// A machine fit to step.
    pub open spec fn wf(&self) -> bool {
        wf_model(self@) && self.tanks_wf()
    }

    /// The aquarium's width.
    pub fn width(&self) -> (r: usize)
        ensures
            r == self@.width,
    {
        self.width
    }

    /// The aquarium's height.
    pub fn height(&self) -> (r: usize)
        ensures
            r == self@.height,
    {
        self.height
    }

    /// The fish-tank pointer, as (row, column).
    pub fn ftp(&self) -> (r: (usize, usize))
        ensures
            r.0 == self@.ftp_row && r.1 == self@.ftp_col,
    {
        (self.ftp_row, self.ftp_col)
    }

    /// The instruction pointer.
    pub fn ip(&self) -> (r: InstructionPointer)
        ensures
            r == self@.ip,
    {
        self.ip
    }

    /// The pointer direction.
    pub fn ip_dir(&self) -> (r: Direction)
        ensures
            r == self@.ip_dir,
    {
        self.ip_dir
    }

    /// Whether the trampoline flag is set.
    pub fn trampoline(&self) -> (r: bool)
        ensures
            r == self@.trampoline_set,
    {
        self.trampoline_set
    }

    /// The shared operand stack, bottom first.
    pub fn stack_values(&self) -> (r: &Vec<i64>)
        ensures
            r@ == self@.stack,
    {
        &self.stack
    }

    /// The tank at the given aquarium coordinates.
    pub fn tank_at(&self, row: usize, col: usize) -> (t: &crate::tank::Tank)
        requires
            self.wf(),
            row < self@.height,
            col < self@.width,
        ensures
            t@ == self@.tanks[row as int * self@.width + col as int],
            t.wf(),
    {
        let n = self.aquarium.len();
        proof {
            assert(self@.tanks.len() == self.aquarium@.len());
            assert(row * self.width + col < self.width * self.height) by (nonlinear_arith)
                requires
                    row < self.height,
                    col < self.width,
            {}
        }
        &self.aquarium[row * self.width + col]
    }

    /// The index of the current tank in the row-major aquarium.
    fn cur_idx(&self) -> (i: usize)
        requires
            self.wf(),
        ensures
            i as int == spec_cur_idx(self@),
            i < self.aquarium@.len(),
            i < self@.tanks.len(),
    {
        let n = self.aquarium.len();
        proof {
            assert(self@.tanks.len() == self.aquarium@.len());
            assert(self.ftp_row * self.width + self.ftp_col < self.width * self.height)
                by (nonlinear_arith)
                requires
                    self.ftp_row < self.height,
                    self.ftp_col < self.width,
            {}
        }
        self.ftp_row * self.width + self.ftp_col
    }

    /// Fetches the cell addressed by both pointers, reduced modulo 10.
    fn fetch(&self) -> (c: usize)
        requires
            self.wf(),
        ensures
            c == spec_fetch(self@),
            c < 10,
    {
        let i = self.cur_idx();
        self.aquarium[i].cell_at(self.ip.row, self.ip.col) % 10
    }

    /// Advances the instruction pointer one step along the direction.
    fn update_ip(&mut self)
        requires
            old(self).wf(),
        ensures
            final(self).wf(),
            final(self)@ == spec_adv(old(self)@),
    {
        self.ip = self.ip.move_dir(self.ip_dir);
    }

    fn down(&mut self)
        requires
            old(self).wf(),
        ensures
            final(self).wf(),
            final(self)@ == spec_adv(spec_with_dir(old(self)@, Direction::Down)),
    {
        self.ip_dir = Direction::Down;
        self.update_ip();
    }

    fn up(&mut self)
        requires
            old(self).wf(),
        ensures
            final(self).wf(),
            final(self)@ == spec_adv(spec_with_dir(old(self)@, Direction::Up)),
    {
        self.ip_dir = Direction::Up;
        self.update_ip();
    }

    fn right(&mut self)
        requires
            old(self).wf(),
        ensures
            final(self).wf(),
            final(self)@ == spec_adv(spec_with_dir(old(self)@, Direction::Right)),
    {
        self.ip_dir = Direction::Right;
        self.update_ip();
    }

    fn left(&mut self)
        requires
            old(self).wf(),
        ensures
            final(self).wf(),
            final(self)@ == spec_adv(spec_with_dir(old(self)@, Direction::Left)),
    {
        self.ip_dir = Direction::Left;
        self.update_ip();
    }

    /// Pushes the current tank's accumulator and increments it, failing
    /// without any state change if either value would leave machine range.
    fn push_acc(&mut self) -> (r: Result<(), ExecError>)
        requires
            old(self).wf(),
        ensures
            final(self).wf(),
            (match r {
                Ok(()) => final(self)@ == spec_adv(spec_push_acc(old(self)@)),
                Err(e) => e == ExecError::Overflow && final(self)@ == old(self)@ && (
                spec_cur_tank(old(self)@).acc as int > i64::MAX as int || spec_cur_tank(
                    old(self)@,
                ).acc == usize::MAX),
            }),
            (r is Err) == (spec_cur_tank(old(self)@).acc as int > i64::MAX as int
                || spec_cur_tank(old(self)@).acc == usize::MAX),
    {
        let i = self.cur_idx();
        let acc = self.aquarium[i].acc();
        if acc as u128 > i64::MAX as u128 || acc == usize::MAX {
            return Err(ExecError::Overflow);
        }
        let ghost pre = self.aquarium@;
        let mut t = self.aquarium.remove(i);
        t.bump_acc();
        self.stack.push(acc as i64);
        self.aquarium.insert(i, t);
        proof {
            assert(self.aquarium@ =~= pre.update(i as int, self.aquarium@[i as int]));
            assert(self@.tanks =~= spec_push_acc(old(self)@).tanks);
            assert(self@ == spec_push_acc(old(self)@));
        }
        self.update_ip();
        Ok(())
    }

    /// Runs the current tank's cycle instruction on the shared stack and
    /// advances the tank's selector, failing without any state change on a
    /// short stack or an out-of-range difference.
    fn cycle(&mut self) -> (r: Result<(), ExecError>)
        requires
            old(self).wf(),
        ensures
            final(self).wf(),
            (match r {
                Ok(()) => final(self)@ == spec_adv(spec_do_cycle(old(self)@)) && spec_step_err_cycle(
                    old(self)@,
                ) is None,
                Err(e) => spec_step_err_cycle(old(self)@) == Some(e) && final(self)@ == old(
                    self,
                )@,
            }),
    {
        let i = self.cur_idx();
        let instr = self.aquarium[i].cycle_state();
        let n = self.stack.len();
        match instr {
            CycleInstruction::Subtract => {
                if n < 2 {
                    return Err(ExecError::StackUnderflow);
                }
                let b = self.stack[n - 1];
                let a = self.stack[n - 2];
                let d = a as i128 - b as i128;
                if d > i64::MAX as i128 || d < i64::MIN as i128 {
                    return Err(ExecError::Overflow);
                }
                self.stack.pop();
                self.stack.pop();
                self.stack.push(d as i64);
                proof {
                    assert(self.stack@ =~= spec_cycle_stack(instr, old(self)@.stack));
                }
            },
            CycleInstruction::Swap => {
                if n < 2 {
                    return Err(ExecError::StackUnderflow);
                }
                let b = self.stack[n - 1];
                let a = self.stack[n - 2];
                self.stack.pop();
                self.stack.pop();
                self.stack.push(b);
                self.stack.push(a);
                proof {
                    assert(self.stack@ =~= spec_cycle_stack(instr, old(self)@.stack));
                }
            },
            CycleInstruction::Dup => {
                if n < 1 {
                    return Err(ExecError::StackUnderflow);
                }
                let a = self.stack[n - 1];
                self.stack.push(a);
                proof {
                    assert(self.stack@ =~= spec_cycle_stack(instr, old(self)@.stack));
                }
            },
            CycleInstruction::Drop => {
                if n > 0 {
                    self.stack.pop();
                }
                proof {
                    assert(self.stack@ =~= spec_cycle_stack(instr, old(self)@.stack));
                }
            },
        }
        let ghost pre = self.aquarium@;
        let mut t = self.aquarium.remove(i);
        t.advance_cycle();
        self.aquarium.insert(i, t);
        proof {
            assert(self.aquarium@ =~= pre.update(i as int, self.aquarium@[i as int]));
            assert(self@.tanks =~= spec_do_cycle(old(self)@).tanks);
            assert(self@ == spec_do_cycle(old(self)@));
        }
        self.update_ip();
        Ok(())
    }

    /// Inspects the stack top without popping: the trampoline flag clears on
    /// a strictly positive top and sets otherwise (empty stack included).
    fn tunnel(&mut self)
        requires
            old(self).wf(),
        ensures
            final(self).wf(),
            final(self)@ == spec_adv(spec_tunnel(old(self)@)),
    {
        let n = self.stack.len();
        if n > 0 && self.stack[n - 1] > 0 {
            self.trampoline_set = false;
        } else {
            self.trampoline_set = true;
        }
        self.update_ip();
    }

    /// Moves the fish-tank pointer one step along the current direction,
    /// wrapping modulo the aquarium's dimensions; the instruction pointer
    /// stays where it is.
    pub fn hop(&mut self)
        requires
            old(self).wf(),
        ensures
            final(self).wf(),
            final(self)@ == spec_ftp_moved(old(self)@),
    {
        match self.ip_dir {
            Direction::Down => {
                self.ftp_row = if self.ftp_row + 1 == self.height {
                    0
                } else {
                    self.ftp_row + 1
                };
            },
            Direction::Up => {
                self.ftp_row = if self.ftp_row == 0 {
                    self.height - 1
                } else {
                    self.ftp_row - 1
                };
            },
            Direction::Left => {
                self.ftp_col = if self.ftp_col == 0 {
                    self.width - 1
                } else {
                    self.ftp_col - 1
                };
            },
            Direction::Right => {
                self.ftp_col = if self.ftp_col + 1 == self.width {
                    0
                } else {
                    self.ftp_col + 1
                };
            },
        }
    }
}

/// The cycle branch of `spec_step_err`, named so the cycle helper can speak
/// of exactly its own failures.
pub open spec fn spec_step_err_cycle(m: ProgramModel) -> Option<ExecError> {
    let n = m.stack.len() as int;
    match spec_cur_tank(m).cycle_instr {
        CycleInstruction::Subtract => if n < 2 {
            Some(ExecError::StackUnderflow)
        } else if m.stack[n - 2] - m.stack[n - 1] > i64::MAX as int || m.stack[n - 2] - m.stack[n
            - 1] < i64::MIN as int {
            Some(ExecError::Overflow)
        } else {
            None
        },
        CycleInstruction::Swap => if n < 2 {
            Some(ExecError::StackUnderflow)
        } else {
            None
        },
        CycleInstruction::Dup => if n < 1 {
            Some(ExecError::StackUnderflow)
        } else {
            None
        },
        CycleInstruction::Drop => None,
    }
}

impl Program {
    /// The big-endian bytes of one stack value.
    fn be_bytes(v: i64) -> (r: Vec<u8>)
        ensures
            r@ == spec_be_bytes(v),
    {
        let u = v as u64;
        proof {
            lemma_byte_mask(u, 56);
            lemma_byte_mask(u, 48);
            lemma_byte_mask(u, 40);
            lemma_byte_mask(u, 32);
            lemma_byte_mask(u, 24);
            lemma_byte_mask(u, 16);
            lemma_byte_mask(u, 8);
            lemma_byte_mask(u, 0);
        }
        let mut out: Vec<u8> = Vec::new();
        out.push(((u >> 56u64) & 0xff) as u8);
        out.push(((u >> 48u64) & 0xff) as u8);
        out.push(((u >> 40u64) & 0xff) as u8);
        out.push(((u >> 32u64) & 0xff) as u8);
        out.push(((u >> 24u64) & 0xff) as u8);
        out.push(((u >> 16u64) & 0xff) as u8);
        out.push(((u >> 8u64) & 0xff) as u8);
        out.push(((u >> 0u64) & 0xff) as u8);
        proof {
            assert(out@ =~= spec_be_bytes(v));
        }
        out
    }

    /// Invokes the builtin selected by the first character of the current
    /// tank's name: `e` halts, `i` asks the host for one input byte, `o`
    /// pops one value and emits its big-endian bytes lossily decoded, `y`
    /// draws a fresh pointer direction at random. Any other letter, or a
    /// nameless tank, is an unsupported builtin; an error leaves the state
    /// unchanged.
    pub fn call(&mut self) -> (r: Result<StepEffect, ExecError>)
        requires
            old(self).wf(),
        ensures
            final(self).wf(),
            (match r {
                Ok(eff) => spec_call_err(old(self)@) is None && eff@ == spec_call_effect(
                    old(self)@,
                ) && final(self)@ == spec_call_post(old(self)@, final(self)@.ip_dir),
                Err(e) => spec_call_err(old(self)@) == Some(e) && final(self)@ == old(self)@,
            }),
    {
        let i = self.cur_idx();
        if self.aquarium[i].name().as_str().is_empty() {
            return Err(ExecError::UnsupportedBuiltin);
        }
        let c = self.aquarium[i].name().as_str().get_char(0);
        if c == 'e' {
            Ok(StepEffect::Halt)
        } else if c == 'i' {
            self.update_ip();
            Ok(StepEffect::ReadInput)
        } else if c == 'o' {
            let n = self.stack.len();
            if n == 0 {
                return Err(ExecError::StackUnderflow);
            }
            let v = self.stack[n - 1];
            self.stack.pop();
            let bytes = Self::be_bytes(v);
            let text = decode_utf8_lossy(&bytes);
            self.update_ip();
            Ok(StepEffect::Output(text))
        } else if c == 'y' {
            let k = random_index4();
            self.ip_dir = if k == 0 {
                Direction::Down
            } else if k == 1 {
                Direction::Left
            } else if k == 2 {
                Direction::Right
            } else {
                Direction::Up
            };
            self.update_ip();
            Ok(StepEffect::Continue)
        } else {
            Err(ExecError::UnsupportedBuiltin)
        }
    }

    /// One atomic instruction cycle: fetch the addressed cell modulo 10,
    /// honour a set trampoline flag (every code but 0 is then skipped, the
    /// flag clearing), otherwise dispatch the code. On a fatal condition the
    /// state is left untouched and the error says which rule was violated.
    pub fn step(&mut self) -> (r: Result<StepEffect, ExecError>)
        requires
            old(self).wf(),
        ensures
            final(self).wf(),
            (match r {
                Ok(eff) => spec_step_err(old(self)@) is None && eff@ == spec_step_effect(
                    old(self)@,
                ) && final(self)@ == spec_step_post(old(self)@, final(self)@.ip_dir),
                Err(e) => spec_step_err(old(self)@) == Some(e) && final(self)@ == old(self)@,
            }),
    {
        let instr = self.fetch();
        if instr == 0 {
            self.update_ip();
            return Ok(StepEffect::Continue);
        }
        if self.trampoline_set {
            self.trampoline_set = false;
            self.update_ip();
            return Ok(StepEffect::Continue);
        }
        if instr == 1 {
            self.down();
            Ok(StepEffect::Continue)
        } else if instr == 2 {
            self.up();
            Ok(StepEffect::Continue)
        } else if instr == 3 {
            self.right();
            Ok(StepEffect::Continue)
        } else if instr == 4 {
            self.left();
            Ok(StepEffect::Continue)
        } else if instr == 5 {
            match self.push_acc() {
                Ok(()) => Ok(StepEffect::Continue),
                Err(e) => Err(e),
            }
        } else if instr == 6 {
            match self.cycle() {
                Ok(()) => Ok(StepEffect::Continue),
                Err(e) => Err(e),
            }
        } else if instr == 7 {
            self.tunnel();
            Ok(StepEffect::Continue)
        } else if instr == 8 {
            self.hop();
            Ok(StepEffect::Continue)
        } else {
            self.call()
        }
    }

    /// Hands the engine the byte the `i` builtin asked for: its unsigned
    /// value is pushed onto the stack, or -1 at end of input.
    pub fn provide_input(&mut self, byte: Option<u8>)
        requires
            old(self).wf(),
        ensures
            final(self).wf(),
            final(self)@ == (ProgramModel {
                stack: old(self)@.stack.push(
                    match byte {
                        Some(b) => b as i64,
                        None => -1i64,
                    },
                ),
                ..old(self)@
            }),
    {
        match byte {
            Some(b) => self.stack.push(b as i64),
            None => self.stack.push(-1),
        }
    }
}

proof fn lemma_byte_mask(u: u64, s: u64)
    ensures
        (u >> s) & 0xff <= 0xff,
{
    assert((u >> s) & 0xff <= 0xff) by (bit_vector);
}

/// The engine's initial pointer and stack state: both pointers at the
/// origin, direction Right, empty stack, trampoline clear.
pub open spec fn spec_initial_pointers(p: ProgramModel) -> bool {
    &&& p.ftp_row == 0 && p.ftp_col == 0
    &&& p.ip == (InstructionPointer { row: 0, col: 0 })
    &&& p.ip_dir == Direction::Right
    &&& p.stack == Seq::<i64>::empty()
    &&& !p.trampoline_set
}

/// The machine built for the given names: one tank per name in order, the
/// documented aquarium shape, and the initial pointer state.
pub open spec fn spec_program_matches(p: ProgramModel, ns: Seq<Seq<char>>) -> bool {
    &&& p.tanks.len() == ns.len()
    &&& (forall|k: int|
        0 <= k < ns.len() ==> (#[trigger] p.tanks[k]).cells == crate::tank::spec_name_cells(ns[k]))
    &&& (forall|k: int| 0 <= k < ns.len() ==> (#[trigger] p.tanks[k]).name == ns[k])
    &&& (forall|k: int|
        0 <= k < ns.len() ==> (#[trigger] p.tanks[k]).cycle_instr == CycleInstruction::Subtract)
    &&& (forall|k: int| 0 <= k < ns.len() ==> (#[trigger] p.tanks[k]).acc == 0)
    &&& spec_best_height(p.height, p.tanks.len() as usize)
    &&& p.width as int * p.height as int == p.tanks.len()
    &&& spec_initial_pointers(p)
}

impl Program {
    /// Arranges finished tanks into a row-major aquarium whose height is the
    /// divisor of the tank count closest to its square root — ties broken
    /// toward the smaller divisor, as an ascending search keeping its first
    /// minimum — and whose width is the count divided by the height. Both
    /// pointers start at the origin, moving right, over an empty stack with
    /// the trampoline clear.
    pub fn build_aquarium(tanks: Vec<crate::tank::Tank>) -> (p: Program)
        requires
            1 <= tanks@.len(),
            forall|k: int| 0 <= k < tanks@.len() ==> (#[trigger] tanks@[k]).wf(),
        ensures
            p.wf(),
            p@.tanks == tanks@.map_values(|t: crate::tank::Tank| t@),
            spec_best_height(p@.height, tanks@.len() as usize),
            p@.width as int * p@.height as int == tanks@.len(),
            spec_initial_pointers(p@),
    {
        let n = tanks.len();
        let divs = divisors_of(n);
        let mut best = divs[0];
        let mut i: usize = 1;
        while i < divs.len()
            invariant
                1 <= n,
                i <= divs@.len(),
                forall|j: int| 0 <= j < divs@.len() ==> spec_divides(#[trigger] divs@[j], n),
                forall|d: usize| spec_divides(d, n) ==> #[trigger] divs@.contains(d),
                spec_divides(best, n),
                forall|j: int|
                    0 <= j < i ==> spec_closer_eq(best as int, #[trigger] divs@[j] as int, n as int),
                forall|j: int|
                    0 <= j < i && #[trigger] divs@[j] < best ==> !spec_closer_eq(
                        divs@[j] as int,
                        best as int,
                        n as int,
                    ),
            decreases divs@.len() - i,
        {
            let d = divs[i];
            let dle = closer_eq(d, best, n);
            let ble = closer_eq(best, d, n);
            if (dle && !ble) || (dle && ble && d < best) {
                proof {
                    assert forall|j: int| 0 <= j < i + 1 implies spec_closer_eq(
                        d as int,
                        divs@[j] as int,
                        n as int,
                    ) by {
                        if j < i {
                            lemma_closer_eq_trans(d as int, best as int, divs@[j] as int, n as int);
                        }
                    }
                    assert forall|j: int| 0 <= j < i + 1 && divs@[j] < d implies !spec_closer_eq(
                        divs@[j] as int,
                        d as int,
                        n as int,
                    ) by {
                        if j < i && spec_closer_eq(divs@[j] as int, d as int, n as int) {
                            lemma_closer_eq_trans(divs@[j] as int, d as int, best as int, n as int);
                            if divs@[j] >= best {
                                lemma_closer_eq_trans(
                                    best as int,
                                    divs@[j] as int,
                                    d as int,
                                    n as int,
                                );
                            }
                        }
                    }
                }
                best = d;
            }
            i = i + 1;
        }
        proof {
            assert forall|dd: usize| #[trigger] spec_divides(dd, n) implies spec_closer_eq(
                best as int,
                dd as int,
                n as int,
            ) by {
                assert(divs@.contains(dd));
                let j = choose|j: int| 0 <= j < divs@.len() && divs@[j] == dd;
                assert(spec_closer_eq(best as int, divs@[j] as int, n as int));
            }
            assert forall|dd: usize|
                #[trigger] spec_divides(dd, n) && dd < best implies !spec_closer_eq(
                dd as int,
                best as int,
                n as int,
            ) by {
                assert(divs@.contains(dd));
                let j = choose|j: int| 0 <= j < divs@.len() && divs@[j] == dd;
                assert(!spec_closer_eq(divs@[j] as int, best as int, n as int));
            }
        }
        let width = n / best;
        proof {
            vstd::arithmetic::div_mod::lemma_fundamental_div_mod(n as int, best as int);
            assert(width as int * best as int == n as int) by (nonlinear_arith)
                requires
                    n as int == best as int * (width as int),
            {}
            assert(width >= 1) by (nonlinear_arith)
                requires
                    width as int * best as int == n as int,
                    1 <= n,
                    1 <= best,
            {}
        }
        let p = Program {
            aquarium: tanks,
            width,
            height: best,
            ftp_row: 0,
            ftp_col: 0,
            ip: InstructionPointer { row: 0, col: 0 },
            ip_dir: Direction::Right,
            stack: Vec::new(),
            trampoline_set: false,
        };
        proof {
            assert(p@.tanks.len() == p@.width * p@.height) by (nonlinear_arith)
                requires
                    p@.tanks.len() == width as int * best as int,
                    p@.width == width,
                    p@.height == best,
            {}
        }
        p
    }

    /// Builds the machine for a source text: extracts its names, renders one
    /// tank per name, and lays the tanks out. Fails with the parse error
    /// exactly when name extraction rejects the text; the text must hold at
    /// least one name.
    pub fn new(code: &str) -> (r: Result<Program, ParseError>)
        requires
            (match crate::parser::spec_parse_names(code@, Seq::empty()) {
                Ok(ns) => ns.len() >= 1,
                Err(_) => true,
            }),
        ensures
            (match r {
                Ok(p) => p.wf() && (crate::parser::spec_parse_names(code@, Seq::empty())
                    matches Ok(ns) && spec_program_matches(p@, ns)),
                Err(e) => crate::parser::spec_parse_names(code@, Seq::empty())
                    == Err::<Seq<Seq<char>>, crate::parser::ParseErrorModel>(e@),
            }),
    {
        let names = match crate::parser::parse_names(code) {
            Ok(ns) => ns,
            Err(e) => {
                return Err(e);
            },
        };
        let tanks = match crate::tank::populate_tanks(names) {
            Ok(ts) => ts,
            Err(e) => {
                // unreachable: extracted names hold only letters and apostrophes
                proof {
                    assert(false);
                }
                return Err(e);
            },
        };
        Ok(Self::build_aquarium(tanks))
    }
}

/// A set trampoline flag skips exactly the next fetched instruction: unless
/// that instruction is the no-op 0, the step only advances the pointer and
/// clears the flag, leaving tanks, stack and direction untouched; the no-op
/// advances the pointer and leaves the flag set for the next fetch.
pub proof fn lemma_trampoline_skip(m: ProgramModel)
    requires
        wf_model(m),
        m.trampoline_set,
    ensures
        spec_step_err(m) is None,
        spec_step_effect(m) == EffectModel::Continue,
        spec_fetch(m) != 0 ==> (forall|yd: Direction|
            #[trigger] spec_step_post(m, yd) == (ProgramModel {
                ip: m.ip.spec_move_dir(m.ip_dir),
                trampoline_set: false,
                ..m
            })),
        spec_fetch(m) == 0 ==> (forall|yd: Direction|
            #[trigger] spec_step_post(m, yd) == (ProgramModel {
                ip: m.ip.spec_move_dir(m.ip_dir),
                ..m
            })),
{
}

/// Executing the tunnel (code 7) sets the trampoline flag exactly when the
/// stack is empty or its top value is not strictly positive; a strictly
/// positive top clears the flag.
pub proof fn lemma_tunnel_flag(m: ProgramModel)
    requires
        wf_model(m),
        !m.trampoline_set,
        spec_fetch(m) == 7,
    ensures
        spec_step_err(m) is None,
        forall|yd: Direction|
            (#[trigger] spec_step_post(m, yd)).trampoline_set == !(m.stack.len() > 0
                && m.stack.last() > 0),
{
}

/// One successful cycle step (code 6) applies the current tank's selector to
/// the stack and advances that selector one position; with
/// `lemma_cycle_instruction_period`, four such steps on one tank visit
/// Subtract, Swap, Dup and Drop in turn and return to the start.
pub proof fn lemma_cycle_rotation(m: ProgramModel)
    requires
        wf_model(m),
        !m.trampoline_set,
        spec_fetch(m) == 6,
        spec_step_err_cycle(m) is None,
    ensures
        spec_step_err(m) is None,
        forall|yd: Direction|
            (#[trigger] spec_step_post(m, yd)).stack == spec_cycle_stack(
                spec_cur_tank(m).cycle_instr,
                m.stack,
            ),
        forall|yd: Direction|
            spec_cur_tank(#[trigger] spec_step_post(m, yd)).cycle_instr == spec_cur_tank(
                m,
            ).cycle_instr.spec_next(),
{
    assert(0 <= spec_cur_idx(m) < m.tanks.len()) by (nonlinear_arith)
        requires
            m.ftp_row < m.height,
            m.ftp_col < m.width,
            m.tanks.len() == m.width * m.height,
    {}
}

} // verus!
