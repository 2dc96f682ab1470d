//! The mathematical model of the machine: an abstract state, the meaning of
//! every instruction as a state transformer, and the meaning of one driver
//! tick as a bounded run of such steps followed by a timer decrement.
//!
//! The executable core in [`crate::cpu`] is specified against these
//! functions: its contracts say that running the machine produces exactly
//! the states written here.

use vstd::prelude::*;
use vstd::arithmetic::div_mod::lemma_fundamental_div_mod;
use vstd::arithmetic::div_mod::lemma_mod_multiples_vanish;
use vstd::arithmetic::div_mod::lemma_small_mod;

use crate::display::blank_grid;
use crate::instr::{Fault, Instr, spec_decode, spec_x};

verus! {

/// The abstract machine state: every register, timer, flag and cell of the
/// concrete machine, as mathematical values.
#[verifier::ext_equal]
pub ghost struct CpuView {
    /// The 4096 memory cells.
    pub mem: Seq<u8>,
    /// The sixteen registers `V0..=VF`.
    pub v: Seq<u8>,
    /// The index register `I`.
    pub i: int,
    /// The program counter.
    pub pc: int,
    /// Return addresses, most recent last.
    pub stack: Seq<int>,
    /// The delay timer.
    pub delay: u8,
    /// The sound timer.
    pub sound: u8,
    /// User-requested halt: instructions and timers both freeze.
    pub paused: bool,
    /// Instructions executed per driver tick.
    pub speed: int,
    /// Which of the sixteen keys are held.
    pub keys: Seq<bool>,
    /// Suspended inside the wait-for-key opcode: instructions and timers
    /// both freeze until a key press.
    pub awaiting: bool,
    /// Code of the most recently pressed key.
    pub latest: u8,
    /// A key press has ended a wait; the register write-back is still owed.
    pub resume: bool,
    /// The 64 x 32 framebuffer, row-major.
    pub grid: Seq<bool>,
}

impl CpuView {
    /// Dimensions and ranges of a valid machine state.
    pub open spec fn wf(self) -> bool {
        &&& self.mem.len() == 4096
        &&& self.v.len() == 16
        &&& 0 <= self.i < 4096
        &&& 0 <= self.pc < 4096
        &&& forall|k: int| 0 <= k < self.stack.len() ==> 0 <= #[trigger] self.stack[k] < 4096
        &&& 0 <= self.speed
        &&& self.keys.len() == 16
        &&& self.grid.len() == 2048
    }
}

/// The state with the program counter moved past the instruction just
/// fetched, wrapped to the 12-bit address space.
pub open spec fn advance_pc(s: CpuView) -> CpuView {
    CpuView { pc: (s.pc + 2) % 4096, ..s }
}

/// Skip the next instruction.
pub open spec fn skip_next(s: CpuView) -> CpuView {
    CpuView { pc: (s.pc + 2) % 4096, ..s }
}

/// The state with register `x` set to `val`.
pub open spec fn set_reg(s: CpuView, x: u8, val: u8) -> CpuView {
    CpuView { v: s.v.update(x as int, val), ..s }
}

/// Is the key named by `code` held? Codes outside `0x0..=0xF` never are.
pub open spec fn key_held(s: CpuView, code: u8) -> bool {
    code < 16 && s.keys[code as int]
}

/// Bit `col` of a sprite byte, counting bit 7 (the most significant, drawn
/// leftmost) as column 0.
pub open spec fn bit_at(b: u8, col: int) -> bool {
    (b >> ((7 - col) as u8)) & 1 == 1
}

/// Does one of the first `k` bits (row-major, eight per row) of the `n`-row
/// sprite at `I`, drawn at `(Vx, Vy)`, land on flat pixel `p` and flip it?
/// The sprite bit for pixel `p` is found by inverting the wrapped
/// coordinates: its column offset from `Vx` modulo 64 and its row offset
/// from `Vy` modulo 32.
pub open spec fn sprite_flips(s: CpuView, x: u8, y: u8, n: u8, k: int, p: int) -> bool {
    let col = ((p % 64) - s.v[x as int]) % 64;
    let row = ((p / 64) - s.v[y as int]) % 32;
    &&& row < n
    &&& col < 8
    &&& row * 8 + col < k
    &&& bit_at(s.mem[(s.i + row) % 4096], col)
}

/// The framebuffer after the first `k` bits of the sprite are XORed on.
pub open spec fn draw_grid(s: CpuView, x: u8, y: u8, n: u8, k: int) -> Seq<bool> {
    Seq::new(2048, |p: int| if sprite_flips(s, x, y, n, k, p) {
        !s.grid[p]
    } else {
        s.grid[p]
    })
}

/// Did one of the first `k` sprite bits erase a lit pixel? This is the
/// collision outcome the draw opcode reports in `VF`.
pub open spec fn draw_erases(s: CpuView, x: u8, y: u8, n: u8, k: int) -> bool {
    exists|p: int| 0 <= p < 2048 && sprite_flips(s, x, y, n, k, p) && s.grid[p]
}

/// Memory after the first `k` of the registers `V0..` are stored in the
/// cells at `I`, wrapping within the 12-bit address space.
pub open spec fn store_prefix(s: CpuView, k: int) -> Seq<u8> {
    Seq::new(4096, |a: int| {
        let j = (a - s.i) % 4096;
        if j < k {
            s.v[j]
        } else {
            s.mem[a]
        }
    })
}

/// The register file after the first `k` registers are loaded back from the
/// cells at `I`.
pub open spec fn load_prefix(s: CpuView, k: int) -> Seq<u8> {
    Seq::new(16, |j: int| if j < k {
        s.mem[(s.i + j) % 4096]
    } else {
        s.v[j]
    })
}

/// The meaning of one decoded instruction, starting from the state in which
/// the program counter has already moved past it. `rnd` is the byte drawn by
/// the random-number opcode; every other instruction ignores it. The one
/// instruction with no defined effect here, a return on an empty stack, is
/// ruled out by [`exec_instr`], which turns it into a fault instead.
pub open spec fn apply_instr(s: CpuView, instr: Instr, rnd: u8) -> CpuView {
    match instr {
        Instr::Cls => CpuView { grid: blank_grid(), ..s },
        Instr::Ret => CpuView { pc: s.stack.last(), stack: s.stack.drop_last(), ..s },
        Instr::Jp(nnn) => CpuView { pc: nnn as int, ..s },
        Instr::Call(nnn) => CpuView { stack: s.stack.push(s.pc), pc: nnn as int, ..s },
        Instr::SeByte(x, kk) => if s.v[x as int] == kk {
            skip_next(s)
        } else {
            s
        },
        Instr::SneByte(x, kk) => if s.v[x as int] != kk {
            skip_next(s)
        } else {
            s
        },
        Instr::SeReg(x, y) => if s.v[x as int] == s.v[y as int] {
            skip_next(s)
        } else {
            s
        },
        Instr::LdByte(x, kk) => set_reg(s, x, kk),
        Instr::AddByte(x, kk) => set_reg(s, x, ((s.v[x as int] + kk) % 256) as u8),
        Instr::MovReg(x, y) => set_reg(s, x, s.v[y as int]),
        Instr::OrReg(x, y) => set_reg(s, x, s.v[x as int] | s.v[y as int]),
        Instr::AndReg(x, y) => set_reg(s, x, s.v[x as int] & s.v[y as int]),
        Instr::XorReg(x, y) => set_reg(s, x, s.v[x as int] ^ s.v[y as int]),
        Instr::AddReg(x, y) => {
            let sum = s.v[x as int] + s.v[y as int];
            let flagged = set_reg(s, 15, if sum > 255 { 1u8 } else { 0u8 });
            set_reg(flagged, x, (sum % 256) as u8)
        },
        Instr::SubReg(x, y) => {
            let diff = s.v[x as int] - s.v[y as int];
            let flagged = set_reg(s, 15, if s.v[x as int] > s.v[y as int] { 1u8 } else { 0u8 });
            set_reg(flagged, x, (diff % 256) as u8)
        },
        Instr::ShrReg(x) => {
            let flagged = set_reg(s, 15, if s.v[x as int] >= 128 { 1u8 } else { 0u8 });
            set_reg(flagged, x, flagged.v[x as int] / 2)
        },
        Instr::SubnReg(x, y) => {
            let diff = s.v[y as int] - s.v[x as int];
            let flagged = set_reg(s, 15, if s.v[y as int] > s.v[x as int] { 1u8 } else { 0u8 });
            set_reg(flagged, x, (diff % 256) as u8)
        },
        Instr::ShlReg(x) => {
            let doubled = ((2 * s.v[x as int]) % 256) as u8;
            let flagged = set_reg(s, 15, if s.v[x as int] >= 128 { 1u8 } else { 0u8 });
            set_reg(flagged, x, doubled)
        },
        Instr::SneReg(x, y) => if s.v[x as int] != s.v[y as int] {
            skip_next(s)
        } else {
            s
        },
        Instr::LdI(nnn) => CpuView { i: nnn as int, ..s },
        Instr::JpV0(nnn) => CpuView { pc: (nnn + s.v[0]) % 4096, ..s },
        Instr::Rnd(x, kk) => set_reg(s, x, rnd & kk),
        Instr::Drw(x, y, n) => CpuView {
            grid: draw_grid(s, x, y, n, 8 * n),
            v: s.v.update(15, if draw_erases(s, x, y, n, 8 * n) { 1u8 } else { 0u8 }),
            ..s
        },
        Instr::SkipKey(x) => if key_held(s, s.v[x as int]) {
            skip_next(s)
        } else {
            s
        },
        Instr::SkipNoKey(x) => if !key_held(s, s.v[x as int]) {
            skip_next(s)
        } else {
            s
        },
        Instr::ReadDelay(x) => set_reg(s, x, s.delay),
        Instr::WaitKey(_x) => CpuView { awaiting: true, ..s },
        Instr::SetDelay(x) => CpuView { delay: s.v[x as int], ..s },
        Instr::SetSound(x) => CpuView { sound: s.v[x as int], ..s },
        Instr::AddI(x) => CpuView { i: (s.i + s.v[x as int]) % 4096, ..s },
        Instr::LdGlyph(x) => CpuView { i: 5 * s.v[x as int], ..s },
        Instr::Bcd(x) => CpuView {
            mem: s.mem.update(s.i, s.v[x as int] / 100)
                .update((s.i + 1) % 4096, (s.v[x as int] / 10) % 10)
                .update((s.i + 2) % 4096, s.v[x as int] % 10),
            ..s
        },
        Instr::StoreRegs(x) => CpuView { mem: store_prefix(s, x + 1), ..s },
        Instr::LoadRegs(x) => CpuView { v: load_prefix(s, x + 1), ..s },
    }
}

/// The fault reported by a `Result` of the executable core, if any.
pub open spec fn fault_of(r: Result<(), Fault>) -> Option<Fault> {
    match r {
        Ok(_) => None,
        Err(f) => Some(f),
    }
}

/// The meaning of handing one opcode to the executor: the program counter
/// moves first, then the instruction either acts, or faults as an unknown
/// opcode or a return on an empty stack.
pub open spec fn exec_instr(s: CpuView, op: u16, rnd: u8) -> (CpuView, Option<Fault>) {
    let s1 = advance_pc(s);
    match spec_decode(op) {
        None => (s1, Some(Fault::UnknownOpcode)),
        Some(instr) => if instr == Instr::Ret && s1.stack.len() == 0 {
            (s1, Some(Fault::StackUnderflow))
        } else {
            (apply_instr(s1, instr, rnd), None)
        },
    }
}

/// Does this opcode consume a random byte?
pub open spec fn op_uses_rand(op: u16) -> bool {
    spec_decode(op) matches Some(Instr::Rnd(_x, _kk))
}

/// The big-endian opcode formed by the two bytes at address `a`, the second
/// byte wrapped into the address space.
pub open spec fn fetch_at(s: CpuView, a: int) -> u16 {
    (s.mem[a] * 256 + s.mem[(a + 1) % 4096]) as u16
}

/// The opcode at the program counter.
pub open spec fn fetch(s: CpuView) -> u16 {
    fetch_at(s, s.pc)
}

/// The register operand of the wait-for-key instruction that began the
/// current wait: the program counter has already moved past it, so it is
/// re-read two bytes back.
pub open spec fn resume_target(s: CpuView) -> u8 {
    spec_x(fetch_at(s, (s.pc + 4094) % 4096))
}

/// The owed write-back when a key press has ended a wait: the latest key
/// goes to the register the wait named, and the pending marker clears.
pub open spec fn do_resume(s: CpuView) -> CpuView {
    CpuView { v: s.v.update(resume_target(s) as int, s.latest), resume: false, ..s }
}

/// One iteration of the instruction loop of a driver tick: nothing happens
/// while paused or waiting for a key; otherwise an owed resume write-back is
/// performed first, and then the instruction at the program counter runs.
pub open spec fn step(s: CpuView, rnd: u8) -> (CpuView, Option<Fault>) {
    if s.paused || s.awaiting {
        (s, None)
    } else {
        let s0 = if s.resume {
            do_resume(s)
        } else {
            s
        };
        exec_instr(s0, fetch(s0), rnd)
    }
}

/// A run of one step per element of `rnds`, stopping at the first fault.
pub open spec fn run_steps(s: CpuView, rnds: Seq<u8>) -> (CpuView, Option<Fault>)
    decreases rnds.len(),
{
    if rnds.len() <= 0 {
        (s, None)
    } else {
        let first = step(s, rnds[0]);
        if first.1 is Some {
            first
        } else {
            run_steps(first.0, rnds.drop_first())
        }
    }
}

/// Each timer counts down by one, stopping at zero.
pub open spec fn tick_timers(s: CpuView) -> CpuView {
    CpuView {
        delay: if s.delay > 0 { (s.delay - 1) as u8 } else { s.delay },
        sound: if s.sound > 0 { (s.sound - 1) as u8 } else { s.sound },
        ..s
    }
}

/// The meaning of one driver tick starting from `pre`: one step per element
/// of `rnds` — one per unit of the configured speed — then, unless the run
/// ended paused or waiting for a key, one timer decrement. A fault stops the
/// tick on the spot and is reported.
pub open spec fn cycle_rel(pre: CpuView, post: CpuView, f: Option<Fault>, rnds: Seq<u8>) -> bool {
    let r = run_steps(pre, rnds);
    &&& rnds.len() == pre.speed
    &&& match r.1 {
        Some(e) => f == Some(e) && post == r.0,
        None => f == None::<Fault> && post == (if r.0.paused || r.0.awaiting {
            r.0
        } else {
            tick_timers(r.0)
        }),
    }
}

/// A valid state steps to a valid state, and neither the pause flag nor the
/// configured speed ever moves during a step.
pub proof fn lemma_step_wf(s: CpuView, rnd: u8)
    requires
        s.wf(),
    ensures
        step(s, rnd).0.wf(),
        step(s, rnd).0.paused == s.paused,
        step(s, rnd).0.speed == s.speed,
{
    if !s.paused && !s.awaiting {
        let s0 = if s.resume { do_resume(s) } else { s };
        let op = fetch(s0);
        crate::instr::lemma_decode_wf(op);
        let s1 = advance_pc(s0);
        if spec_decode(op) is Some {
            let instr = spec_decode(op)->Some_0;
            if !(instr == Instr::Ret && s1.stack.len() == 0) {
                lemma_apply_wf(s1, instr, rnd);
            }
        }
    }
}

/// A valid state and a well-formed instruction produce a valid state, with
/// the pause flag and the speed untouched. A return demands a return
/// address to pop; without one the executor faults instead of applying it.
pub proof fn lemma_apply_wf(s: CpuView, instr: Instr, rnd: u8)
    requires
        s.wf(),
        crate::instr::instr_wf(instr),
        instr is Ret ==> s.stack.len() > 0,
    ensures
        apply_instr(s, instr, rnd).wf(),
        apply_instr(s, instr, rnd).paused == s.paused,
        apply_instr(s, instr, rnd).speed == s.speed,
{
    match instr {
        Instr::Ret => {
            if s.stack.len() > 0 {
                assert(0 <= s.stack[s.stack.len() - 1] < 4096);
            }
        },
        _ => {},
    }
}

/// Extending a run by one step: the new step happens last, unless the run
/// had already faulted.
#[verifier::rlimit(50)]
#[verifier::spinoff_prover]
pub proof fn lemma_run_steps_snoc(s: CpuView, rnds: Seq<u8>, b: u8)
    ensures
        run_steps(s, rnds).1 is Some ==> {
            &&& run_steps(s, rnds.push(b)).0 == run_steps(s, rnds).0
            &&& run_steps(s, rnds.push(b)).1 == run_steps(s, rnds).1
        },
        run_steps(s, rnds).1 is None ==> {
            &&& run_steps(s, rnds.push(b)).0 == step(run_steps(s, rnds).0, b).0
            &&& run_steps(s, rnds.push(b)).1 == step(run_steps(s, rnds).0, b).1
        },
    decreases rnds.len(),
{
    if rnds.len() <= 0 {
        reveal_with_fuel(run_steps, 3);
        assert(rnds.push(b)[0] == b);
        assert(rnds.push(b).drop_first() =~= Seq::<u8>::empty());
    } else {
        assert(rnds.push(b)[0] == rnds[0]);
        assert(rnds.push(b).drop_first() =~= rnds.drop_first().push(b));
        let first = step(s, rnds[0]);
        if first.1 is None {
            lemma_run_steps_snoc(first.0, rnds.drop_first(), b);
        }
    }
}


/// Once a run has faulted, appending further steps changes nothing.
pub proof fn lemma_run_steps_absorb(s: CpuView, rnds: Seq<u8>, extra: Seq<u8>)
    requires
        run_steps(s, rnds).1 is Some,
    ensures
        run_steps(s, rnds + extra).0 == run_steps(s, rnds).0,
        run_steps(s, rnds + extra).1 == run_steps(s, rnds).1,
    decreases extra.len(),
{
    if extra.len() == 0 {
        assert(rnds + extra =~= rnds);
    } else {
        assert(rnds + extra =~= (rnds + extra.drop_last()).push(extra.last()));
        lemma_run_steps_absorb(s, rnds, extra.drop_last());
        lemma_run_steps_snoc(s, rnds + extra.drop_last(), extra.last());
    }
}

/// A whole run preserves validity — in particular, every address the
/// machine holds stays inside the 4096-cell space — and never moves the
/// pause flag or the configured speed.
pub proof fn lemma_run_steps_wf(s: CpuView, rnds: Seq<u8>)
    requires
        s.wf(),
    ensures
        run_steps(s, rnds).0.wf(),
        run_steps(s, rnds).0.paused == s.paused,
        run_steps(s, rnds).0.speed == s.speed,
    decreases rnds.len(),
{
    if rnds.len() > 0 {
        lemma_step_wf(s, rnds[0]);
        let first = step(s, rnds[0]);
        if first.1 is None {
            lemma_run_steps_wf(first.0, rnds.drop_first());
        }
    }
}

/// Inverting a wrapped offset: adding `k < m` to a base and reducing modulo
/// `m` is undone by subtracting the base and reducing again.
pub proof fn lemma_mod_inv(i: int, k: int, m: int)
    requires
        0 <= k < m,
        0 < m,
    ensures
        (((i + k) % m) - i) % m == k,
{
    let t = (i + k) % m;
    let q = (i + k) / m;
    lemma_fundamental_div_mod(i + k, m);
    assert(i + k == m * q + t);
    assert(t - i == k + m * (-q)) by {
        assert(m * (-q) == -(m * q)) by (nonlinear_arith);
    }
    lemma_mod_multiples_vanish(-q, k, m);
    lemma_small_mod(k as nat, m as nat);
}

/// Rounding a wrapped offset back: any address `a` below `m` is reached by
/// adding its own wrapped offset from the base.
pub proof fn lemma_mod_round(i: int, a: int, m: int)
    requires
        0 <= a < m,
        0 < m,
    ensures
        (i + ((a - i) % m)) % m == a,
{
    let j = (a - i) % m;
    let q = (a - i) / m;
    lemma_fundamental_div_mod(a - i, m);
    assert(a - i == m * q + j);
    assert(i + j == a + m * (-q)) by {
        assert(m * (-q) == -(m * q)) by (nonlinear_arith);
    }
    lemma_mod_multiples_vanish(-q, a, m);
    lemma_small_mod(a as nat, m as nat);
}


/// Before any sprite bit is applied, the framebuffer is untouched and
/// nothing has been erased.
pub proof fn lemma_draw_base(s: CpuView, x: u8, y: u8, n: u8)
    requires
        s.wf(),
        x < 16,
        y < 16,
    ensures
        draw_grid(s, x, y, n, 0) =~= s.grid,
        !draw_erases(s, x, y, n, 0),
{
    assert forall|p: int| 0 <= p < 2048 implies !sprite_flips(s, x, y, n, 0, p) by {
        let col = ((p % 64) - s.v[x as int]) % 64;
        let row = ((p / 64) - s.v[y as int]) % 32;
        assert(col >= 0 && row >= 0);
    }
}

/// Applying sprite bit `k` (row `row`, column `col`, so `k = 8 row + col`)
/// touches exactly one pixel: the one at the wrapped coordinates. If the bit
/// is set the pixel toggles, else nothing changes; the pixel had not been
/// touched by any earlier bit, so what the toggle erases is what the
/// framebuffer held there before the draw began.
pub proof fn lemma_draw_step(s: CpuView, x: u8, y: u8, n: u8, row: int, col: int)
    requires
        s.wf(),
        x < 16,
        y < 16,
        n < 16,
        0 <= row < n,
        0 <= col < 8,
    ensures
        ({
            let k = 8 * row + col;
            let p0 = ((s.v[y as int] + row) % 32) * 64 + (s.v[x as int] + col) % 64;
            let bit = bit_at(s.mem[(s.i + row) % 4096], col);
            &&& 0 <= p0 < 2048
            &&& draw_grid(s, x, y, n, k)[p0] == s.grid[p0]
            &&& bit ==> draw_grid(s, x, y, n, k + 1) =~= draw_grid(s, x, y, n, k).update(
                p0,
                !draw_grid(s, x, y, n, k)[p0],
            )
            &&& !bit ==> draw_grid(s, x, y, n, k + 1) =~= draw_grid(s, x, y, n, k)
            &&& draw_erases(s, x, y, n, k + 1) == (draw_erases(s, x, y, n, k) || (bit
                && s.grid[p0]))
        }),
{
    let vx = s.v[x as int];
    let vy = s.v[y as int];
    let k = 8 * row + col;
    let p0x = (vx + col) % 64;
    let p0y = (vy + row) % 32;
    let p0 = p0y * 64 + p0x;
    let bit = bit_at(s.mem[(s.i + row) % 4096], col);
    assert(0 <= p0x < 64 && 0 <= p0y < 32);
    assert(0 <= p0 < 2048) by (nonlinear_arith)
        requires 0 <= p0x < 64 && 0 <= p0y < 32 && p0 == p0y * 64 + p0x,
    ;
    vstd::arithmetic::div_mod::lemma_fundamental_div_mod_converse(p0, 64, p0y, p0x);
    assert(p0 % 64 == p0x && p0 / 64 == p0y);
    lemma_mod_inv(vx as int, col, 64);
    lemma_mod_inv(vy as int, row, 32);
    assert(((p0 % 64) - vx) % 64 == col);
    assert(((p0 / 64) - vy) % 32 == row);

    // Pixel p0 is the only one whose wrapped offsets decompose to (row, col),
    // and earlier bits never land on it.
    assert forall|p: int| 0 <= p < 2048 && p != p0 implies (sprite_flips(s, x, y, n, k + 1, p)
        == sprite_flips(s, x, y, n, k, p)) by {
        let pcol = ((p % 64) - vx) % 64;
        let prow = ((p / 64) - vy) % 32;
        if 0 <= pcol < 8 && prow < n && prow * 8 + pcol == k {
            assert(prow >= 0);
            assert(prow * 8 + pcol == row * 8 + col);
            assert(prow == row && pcol == col) by (nonlinear_arith)
                requires
                    prow * 8 + pcol == row * 8 + col,
                    0 <= pcol < 8,
                    0 <= col < 8,
                    0 <= prow,
                    0 <= row,
            ;
            lemma_mod_round(vx as int, p % 64, 64);
            lemma_mod_round(vy as int, p / 64, 32);
            assert(p % 64 == (vx + col) % 64);
            assert(p / 64 == (vy + row) % 32);
            vstd::arithmetic::div_mod::lemma_fundamental_div_mod(p, 64);
            assert(p == p0);
        }
    }
    assert(!sprite_flips(s, x, y, n, k, p0));
    assert(draw_grid(s, x, y, n, k)[p0] == s.grid[p0]);
    assert(sprite_flips(s, x, y, n, k + 1, p0) == bit);

    if bit {
        assert(draw_grid(s, x, y, n, k + 1) =~= draw_grid(s, x, y, n, k).update(
            p0,
            !draw_grid(s, x, y, n, k)[p0],
        ));
    } else {
        assert(draw_grid(s, x, y, n, k + 1) =~= draw_grid(s, x, y, n, k));
    }

    if draw_erases(s, x, y, n, k + 1) {
        let p = choose|p: int| 0 <= p < 2048 && sprite_flips(s, x, y, n, k + 1, p) && s.grid[p];
        if p == p0 {
            assert(bit && s.grid[p0]);
        } else {
            assert(sprite_flips(s, x, y, n, k, p));
            assert(draw_erases(s, x, y, n, k));
        }
    }
    if draw_erases(s, x, y, n, k) {
        let p = choose|p: int| 0 <= p < 2048 && sprite_flips(s, x, y, n, k, p) && s.grid[p];
        assert(sprite_flips(s, x, y, n, k + 1, p));
        assert(draw_erases(s, x, y, n, k + 1));
    }
    if bit && s.grid[p0] {
        assert(sprite_flips(s, x, y, n, k + 1, p0));
        assert(draw_erases(s, x, y, n, k + 1));
    }
}

/// Storing one more register extends the stored block by one wrapped cell.
pub proof fn lemma_store_step(s: CpuView, k: int)
    requires
        s.wf(),
        0 <= k < 16,
    ensures
        store_prefix(s, k + 1) =~= store_prefix(s, k).update((s.i + k) % 4096, s.v[k]),
{
    lemma_mod_inv(s.i, k, 4096);
    let a0 = (s.i + k) % 4096;
    assert((a0 - s.i) % 4096 == k);
    let lhs = store_prefix(s, k + 1);
    let rhs = store_prefix(s, k).update(a0, s.v[k]);
    assert forall|a: int| 0 <= a < 4096 implies lhs[a] == rhs[a] by {
        if a != a0 && (a - s.i) % 4096 == k {
            lemma_mod_round(s.i, a, 4096);
            assert(a == a0);
        }
    }
    assert(lhs =~= rhs);
}


/// The add-immediate opcode wraps modulo 256 and has no flag side effect:
/// the target register becomes the wrapped sum, and the flag register keeps
/// its value whenever it is not itself the target.
pub proof fn lemma_add_byte_no_flag(s: CpuView, x: u8, kk: u8, rnd: u8)
    requires
        s.wf(),
        x < 16,
    ensures
        apply_instr(s, Instr::AddByte(x, kk), rnd).v[x as int] == (s.v[x as int] + kk) % 256,
        x != 15 ==> apply_instr(s, Instr::AddByte(x, kk), rnd).v[15] == s.v[15],
{
}

/// The register add sets the flag to 1 exactly when the sum exceeds 255 and
/// leaves the wrapped sum in the target; the flag statement holds whenever
/// the flag register is not itself the target, which the add overwrites.
pub proof fn lemma_add_reg_carry(s: CpuView, x: u8, y: u8, rnd: u8)
    requires
        s.wf(),
        x < 16,
        y < 16,
    ensures
        apply_instr(s, Instr::AddReg(x, y), rnd).v[x as int] == (s.v[x as int] + s.v[y as int])
            % 256,
        x != 15 ==> apply_instr(s, Instr::AddReg(x, y), rnd).v[15] == (if s.v[x as int]
            + s.v[y as int] > 255 {
            1u8
        } else {
            0u8
        }),
{
}

/// Round trip: storing `V0..=Vx` at `I` and then loading `V0..=Vx` back
/// from the same `I` restores the whole register file exactly, whatever `I`
/// is — the block store and load wrap addresses the same way.
pub proof fn lemma_store_load_round_trip(s: CpuView, x: u8, rnd: u8)
    requires
        s.wf(),
        x < 16,
    ensures
        apply_instr(apply_instr(s, Instr::StoreRegs(x), rnd), Instr::LoadRegs(x), rnd).v =~= s.v,
{
    let stored = apply_instr(s, Instr::StoreRegs(x), rnd);
    assert forall|j: int| 0 <= j < 16 implies load_prefix(stored, (x + 1) as int)[j] == s.v[j] by {
        if j < x + 1 {
            lemma_mod_inv(s.i, j, 4096);
        }
    }
}


} // verus!
