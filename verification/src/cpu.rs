//! The executable machine: the state the instructions mutate, the
//! fetch-decode-execute cycle, the timer cadence and the wait-for-key
//! suspension. Every public function is specified against the abstract
//! model in [`crate::semantics`].

use vstd::prelude::*;

use crate::display::{Display, blank_grid};
use crate::instr::{Fault, Instr, decode, lemma_decode_wf};
use crate::keyboard::Keyboard;
use crate::semantics::{
    CpuView, advance_pc, apply_instr, cycle_rel, do_resume, draw_erases, draw_grid, exec_instr,
    fault_of, fetch, lemma_apply_wf, lemma_draw_base, lemma_draw_step, lemma_run_steps_absorb,
    lemma_run_steps_snoc, lemma_store_step, load_prefix, op_uses_rand, run_steps, step,
    store_prefix, tick_timers,
};
use vstd::arithmetic::div_mod::lemma_mod_multiples_vanish;

verus! {

/// The machine: memory, registers, call stack, timers, run-mode flags, and
/// the framebuffer and key state it drives.
pub struct Cpu {
    /// The framebuffer the draw opcodes flip pixels on.
    pub display: Display,
    /// Key state and the wait-for-key handshake.
    pub keyboard: Keyboard,
    /// 4096 bytes of memory. The first 80 hold the glyph sprites once
    /// loaded; programs start at `0x200`.
    pub memory: Vec<u8>,
    /// The sixteen registers `V0..=VF`. `VF` doubles as the flag register.
    pub v: Vec<u8>,
    /// The index register `I`, always below 4096.
    pub memory_addr: usize,
    /// The program counter, always below 4096.
    pub program_addr: usize,
    /// The delay timer.
    pub delay_timer: u8,
    /// The sound timer.
    pub sound_timer: u8,
    /// User-requested halt: instructions and timers both freeze.
    pub paused: bool,
    /// Instructions executed per driver tick.
    pub speed: u16,
    /// Return addresses, most recent last, each below 4096.
    pub stack: Vec<usize>,
}

impl View for Cpu {
    type V = CpuView;

    open spec fn view(&self) -> CpuView {
        CpuView {
            mem: self.memory@,
            v: self.v@,
            i: self.memory_addr as int,
            pc: self.program_addr as int,
            stack: self.stack@.map_values(|a: usize| a as int),
            delay: self.delay_timer,
            sound: self.sound_timer,
            paused: self.paused,
            speed: self.speed as int,
            keys: self.keyboard.keys_down@,
            awaiting: self.keyboard.awaiting_keypress,
            latest: self.keyboard.latest_key,
            resume: self.keyboard.handle_resume,
            grid: self.display@,
        }
    }
}

/// The state of a machine fresh out of [`Cpu::new`]: memory and registers
/// zeroed, the program counter at `0x200`, ten instructions per tick.
pub open spec fn initial_state() -> CpuView {
    CpuView {
        mem: Seq::new(4096, |j: int| 0u8),
        v: Seq::new(16, |j: int| 0u8),
        i: 0,
        pc: 0x200,
        stack: Seq::empty(),
        delay: 0,
        sound: 0,
        paused: false,
        speed: 10,
        keys: Seq::new(16, |j: int| false),
        awaiting: false,
        latest: 0,
        resume: false,
        grid: blank_grid(),
    }
}

/// The built-in glyph table: sixteen five-byte sprites for the hexadecimal
/// digits, in digit order.
pub open spec fn glyph_seq() -> Seq<u8> {
    seq![
        0xF0u8, 0x90, 0x90, 0x90, 0xF0, // 0
        0x20, 0x60, 0x20, 0x20, 0x70, // 1
        0xF0, 0x10, 0xF0, 0x80, 0xF0, // 2
        0xF0, 0x10, 0xF0, 0x10, 0xF0, // 3
        0x90, 0x90, 0xF0, 0x10, 0x10, // 4
        0xF0, 0x80, 0xF0, 0x10, 0xF0, // 5
        0xF0, 0x80, 0xF0, 0x90, 0xF0, // 6
        0xF0, 0x10, 0x20, 0x40, 0x40, // 7
        0xF0, 0x90, 0xF0, 0x90, 0xF0, // 8
        0xF0, 0x90, 0xF0, 0x10, 0xF0, // 9
        0xF0, 0x90, 0xF0, 0x90, 0x90, // A
        0xE0, 0x90, 0xE0, 0x90, 0xE0, // B
        0xF0, 0x80, 0x80, 0x80, 0xF0, // C
        0xE0, 0x90, 0x90, 0x90, 0xE0, // D
        0xF0, 0x80, 0xF0, 0x80, 0xF0, // E
        0xF0, 0x80, 0xF0, 0x80, 0x80, // F
    ]
}

/// A vector of `n` zero bytes.
fn byte_zeros(n: usize) -> (r: Vec<u8>)
    ensures
        r@ == Seq::new(n as nat, |j: int| 0u8),
{
    let mut r: Vec<u8> = Vec::new();
    while r.len() < n
        invariant
            r@ == Seq::new(r@.len(), |j: int| 0u8),
            r@.len() <= n,
        decreases n - r@.len(),
    {
        r.push(0);
    }
    proof {
        assert(r@ =~= Seq::new(n as nat, |j: int| 0u8));
    }
    r
}

impl Cpu {
    /// A fresh machine: memory and registers zeroed, empty stack, timers at
    /// zero, running unpaused at ten instructions per tick, program counter
    /// at the conventional program start `0x200`.
    pub fn new() -> (c: Cpu)
        ensures
            c@.wf(),
            c@ == initial_state(),
    {
        let display = Display::new();
        let keyboard = Keyboard::new();
        let memory = byte_zeros(4096);
        let v = byte_zeros(16);
        let stack: Vec<usize> = Vec::new();
        let c = Cpu {
            display,
            keyboard,
            memory,
            v,
            memory_addr: 0,
            program_addr: 0x200,
            delay_timer: 0,
            sound_timer: 0,
            paused: false,
            speed: 10,
            stack,
        };
        proof {
            assert(c@.stack =~= Seq::<int>::empty());
            assert(c@ =~~= initial_state());
        }
        c
    }

    /// Write the sixteen built-in five-byte glyph sprites into the first 80
    /// memory cells; everything else stays. Loading twice writes the same
    /// bytes again.
    pub fn load_sprites_to_memory(&mut self)
        requires
            old(self)@.wf(),
        ensures
            final(self)@.wf(),
            final(self)@ == (CpuView {
                mem: glyph_seq() + old(self)@.mem.skip(80),
                ..old(self)@
            }),
    {
        let sprites: Vec<u8> = vec![
            0xF0u8, 0x90, 0x90, 0x90, 0xF0, // 0
            0x20, 0x60, 0x20, 0x20, 0x70, // 1
            0xF0, 0x10, 0xF0, 0x80, 0xF0, // 2
            0xF0, 0x10, 0xF0, 0x10, 0xF0, // 3
            0x90, 0x90, 0xF0, 0x10, 0x10, // 4
            0xF0, 0x80, 0xF0, 0x10, 0xF0, // 5
            0xF0, 0x80, 0xF0, 0x90, 0xF0, // 6
            0xF0, 0x10, 0x20, 0x40, 0x40, // 7
            0xF0, 0x90, 0xF0, 0x90, 0xF0, // 8
            0xF0, 0x90, 0xF0, 0x10, 0xF0, // 9
            0xF0, 0x90, 0xF0, 0x90, 0x90, // A
            0xE0, 0x90, 0xE0, 0x90, 0xE0, // B
            0xF0, 0x80, 0x80, 0x80, 0xF0, // C
            0xE0, 0x90, 0x90, 0x90, 0xE0, // D
            0xF0, 0x80, 0xF0, 0x80, 0xF0, // E
            0xF0, 0x80, 0xF0, 0x80, 0x80, // F
        ];
        proof {
            assert(sprites@ =~= glyph_seq());
        }
        let ghost mem0 = old(self)@.mem;
        let mut j: usize = 0;
        while j < 80
            invariant
                self@ == (CpuView { mem: self@.mem, ..old(self)@ }),
                self@.mem.len() == 4096,
                j <= 80,
                sprites@ == glyph_seq(),
                mem0 == old(self)@.mem,
                forall|a: int| 0 <= a < j ==> #[trigger] self@.mem[a] == glyph_seq()[a],
                forall|a: int| j <= a < 4096 ==> #[trigger] self@.mem[a] == mem0[a],
            decreases 80 - j,
        {
            self.memory.set(j, sprites[j]);
            j = j + 1;
        }
        proof {
            assert(self@.mem =~= glyph_seq() + mem0.skip(80));
            assert(self@.stack == old(self)@.stack);
        }
    }

    /// Copy a program image into memory starting at `0x200`. An image that
    /// does not fit below the end of memory is refused whole: the fault is
    /// reported and nothing is written.
    pub fn load_program_to_memory(&mut self, bytes: Vec<u8>) -> (r: Result<(), Fault>)
        requires
            old(self)@.wf(),
        ensures
            final(self)@.wf(),
            bytes@.len() > 3584 ==> r == Err::<(), Fault>(Fault::ProgramTooLarge) && *final(self)
                == *old(self),
            bytes@.len() <= 3584 ==> r == Ok::<(), Fault>(()) && final(self)@ == (CpuView {
                mem: old(self)@.mem.take(512) + bytes@ + old(self)@.mem.skip(
                    512 + bytes@.len() as int,
                ),
                ..old(self)@
            }),
    {
        if bytes.len() > 3584 {
            return Err(Fault::ProgramTooLarge);
        }
        let ghost mem0 = old(self)@.mem;
        let count = bytes.len();
        let mut j: usize = 0;
        while j < count
            invariant
                self@ == (CpuView { mem: self@.mem, ..old(self)@ }),
                self@.mem.len() == 4096,
                j <= count,
                count == bytes@.len(),
                count <= 3584,
                mem0 == old(self)@.mem,
                forall|a: int| 0 <= a < 512 ==> #[trigger] self@.mem[a] == mem0[a],
                forall|a: int| 512 <= a < 512 + j ==> #[trigger] self@.mem[a] == bytes@[a - 512],
                forall|a: int| 512 + j <= a < 4096 ==> #[trigger] self@.mem[a] == mem0[a],
            decreases count - j,
        {
            self.memory.set(512 + j, bytes[j]);
            j = j + 1;
        }
        proof {
            assert(self@.mem =~= mem0.take(512) + bytes@ + mem0.skip(512 + count as int));
            assert(self@.stack == old(self)@.stack);
        }
        Ok(())
    }

    /// Each timer counts down by one, stopping at zero. The driver calls
    /// this once per tick while the machine is neither paused nor waiting
    /// for a key; [`Cpu::cycle`] applies that gate itself.
    pub fn update_timers(&mut self)
        requires
            old(self)@.wf(),
        ensures
            final(self)@.wf(),
            final(self)@ == tick_timers(old(self)@),
    {
        if self.delay_timer > 0 {
            self.delay_timer = self.delay_timer - 1;
        }
        if self.sound_timer > 0 {
            self.sound_timer = self.sound_timer - 1;
        }
        proof {
            assert(self@.stack == old(self)@.stack);
        }
    }

    /// Flip the user-requested pause. While paused, ticks leave the machine
    /// untouched.
    pub fn toggle_pause(&mut self)
        requires
            old(self)@.wf(),
        ensures
            final(self)@.wf(),
            final(self)@ == (CpuView { paused: !old(self)@.paused, ..old(self)@ }),
    {
        self.paused = !self.paused;
        proof {
            assert(self@.stack == old(self)@.stack);
        }
    }

    /// Perform the register write-back owed after a key press ended a wait:
    /// the wait-for-key instruction sits two bytes behind the program
    /// counter, its register operand receives the latest key, and the
    /// pending marker clears.
    pub fn handle_resume(&mut self)
        requires
            old(self)@.wf(),
        ensures
            final(self)@.wf(),
            final(self)@ == do_resume(old(self)@),
    {
        let addr: usize = (self.program_addr + 4094) % 4096;
        let hi = self.memory[addr];
        let lo = self.memory[(addr + 1) % 4096];
        let op: u16 = (hi as u16) * 256 + (lo as u16);
        let x: u8 = ((op / 256) % 16) as u8;
        self.v.set(x as usize, self.keyboard.latest_key);
        self.keyboard.handle_resume = false;
        proof {
            assert(self@.stack == old(self)@.stack);
        }
    }



    /// One driver tick: up to `speed` instructions, each preceded by an owed
    /// resume write-back if one is pending, then one timer decrement unless
    /// the machine ended the tick paused or waiting for a key. While paused
    /// or waiting at entry, a whole tick changes nothing: game time freezes.
    /// The first fault stops the tick on the spot and is reported.
    #[verifier::rlimit(100)]
    #[verifier::spinoff_prover]
    pub fn cycle(&mut self) -> (r: Result<(), Fault>)
        requires
            old(self)@.wf(),
        ensures
            final(self)@.wf(),
            exists|rnds: Seq<u8>|
                #[trigger] cycle_rel(old(self)@, final(self)@, fault_of(r), rnds),
            old(self)@.paused ==> final(self)@ == old(self)@ && r is Ok,
            old(self)@.awaiting ==> final(self)@ == old(self)@ && r is Ok,
    {
        let ghost pre = old(self)@;
        let ghost mut rnds: Seq<u8> = Seq::empty();
        let speed: u16 = self.speed;
        let mut idx: u16 = 0;
        while idx < speed
            invariant
                self@.wf(),
                pre == old(self)@,
                pre.wf(),
                idx <= speed,
                speed == pre.speed,
                rnds.len() == idx as int,
                run_steps(pre, rnds).0 == self@,
                run_steps(pre, rnds).1 is None,
                pre.paused ==> self@ == pre,
                pre.awaiting ==> self@ == pre,
            decreases speed - idx,
        {
            let ghost cur = self@;
            let res = self.step_once();
            proof {
                let b = choose|rnd: u8| step(cur, rnd) == (self@, fault_of(res));
                lemma_run_steps_snoc(pre, rnds, b);
                rnds = rnds.push(b);
            }
            match res {
                Ok(()) => {},
                Err(f) => {
                    proof {
                        let pad = Seq::new((speed - idx - 1) as nat, |j: int| 0u8);
                        lemma_run_steps_absorb(pre, rnds, pad);
                        rnds = rnds + pad;
                        assert(rnds.len() == pre.speed);
                        assert(cycle_rel(pre, self@, fault_of(Err::<(), Fault>(f)), rnds));
                    }
                    return Err(f);
                },
            }
            idx = idx + 1;
        }
        if !self.paused && !self.keyboard.awaiting_keypress {
            self.update_timers();
        }
        proof {
            assert(cycle_rel(pre, self@, fault_of(Ok::<(), Fault>(())), rnds));
        }
        Ok(())
    }

    /// One iteration of a tick's instruction loop: nothing while paused or
    /// waiting for a key; otherwise an owed resume write-back first, then
    /// the instruction at the program counter.
    #[verifier::rlimit(100)]
    #[verifier::spinoff_prover]
    fn step_once(&mut self) -> (r: Result<(), Fault>)
        requires
            old(self)@.wf(),
        ensures
            final(self)@.wf(),
            exists|rnd: u8| #[trigger] step(old(self)@, rnd) == (final(self)@, fault_of(r)),
            old(self)@.paused || old(self)@.awaiting ==> *final(self) == *old(self) && r is Ok,
    {
        let ghost cur = old(self)@;
        if !self.paused && !self.keyboard.awaiting_keypress {
            if self.keyboard.handle_resume {
                self.handle_resume();
            }
            let ghost mid = self@;
            let hi: u8 = self.memory[self.program_addr];
            let lo: u8 = self.memory[(self.program_addr + 1) % 4096];
            let op: u16 = (hi as u16) * 256 + (lo as u16);
            proof {
                assert(mid == (if cur.resume {
                    do_resume(cur)
                } else {
                    cur
                }));
                assert(op == fetch(mid));
            }
            let res = self.execute_instruction(op);
            proof {
                let b = choose|rnd: u8| exec_instr(mid, op, rnd) == (self@, fault_of(res));
                assert(step(cur, b) == exec_instr(mid, op, b));
                assert(step(cur, b) == (self@, fault_of(res)));
            }
            res
        } else {
            proof {
                assert(step(cur, 0u8) == (cur, None::<Fault>));
            }
            Ok(())
        }
    }

    /// Execute one already-fetched opcode. The program counter moves past it
    /// first, so jumps, calls and returns overwrite that unconditionally. An
    /// unknown bit pattern or a return on an empty stack is a fatal fault
    /// and leaves everything but the program counter untouched. The outcome
    /// is exactly the model's [`exec_instr`] for some value of the random
    /// byte, and for the byte zero whenever the opcode is not the
    /// random-number one.
    #[verifier::rlimit(100)]
    #[verifier::spinoff_prover]
    pub fn execute_instruction(&mut self, instruction: u16) -> (r: Result<(), Fault>)
        requires
            old(self)@.wf(),
        ensures
            final(self)@.wf(),
            exists|rnd: u8|
                #[trigger] exec_instr(old(self)@, instruction, rnd) == (final(self)@, fault_of(r)),
            !op_uses_rand(instruction) ==> exec_instr(old(self)@, instruction, 0) == (
                final(self)@,
                fault_of(r),
            ),
    {
        let ghost pre = old(self)@;
        self.program_addr = (self.program_addr + 2) % 4096;
        let ghost s1 = advance_pc(pre);
        proof {
            assert(self@ =~~= s1);
            assert(s1.wf());
            lemma_decode_wf(instruction);
        }
        let instr = match decode(instruction) {
            Some(i) => i,
            None => {
                proof {
                    assert(exec_instr(pre, instruction, 0u8) == (
                        self@,
                        fault_of(Err::<(), Fault>(Fault::UnknownOpcode)),
                    ));
                }
                return Err(Fault::UnknownOpcode);
            },
        };
        let ghost mut rused: u8 = 0;
        match instr {
            Instr::Cls => {
                self.display.clear();
            },
            Instr::Ret => {
                if self.stack.len() == 0 {
                    proof {
                        assert(s1.stack.len() == 0);
                        assert(exec_instr(pre, instruction, 0u8) == (
                            self@,
                            fault_of(Err::<(), Fault>(Fault::StackUnderflow)),
                        ));
                    }
                    return Err(Fault::StackUnderflow);
                }
                let target = self.stack.pop().unwrap();
                self.program_addr = target;
                proof {
                    assert(self@.stack =~= s1.stack.drop_last());
                    assert(self@.pc == s1.stack.last());
                }
            },
            Instr::Jp(nnn) => {
                self.program_addr = nnn as usize;
            },
            Instr::Call(nnn) => {
                self.stack.push(self.program_addr);
                self.program_addr = nnn as usize;
                proof {
                    assert(self@.stack =~= s1.stack.push(s1.pc));
                }
            },
            Instr::SeByte(x, kk) => {
                if self.v[x as usize] == kk {
                    self.program_addr = (self.program_addr + 2) % 4096;
                }
            },
            Instr::SneByte(x, kk) => {
                if self.v[x as usize] != kk {
                    self.program_addr = (self.program_addr + 2) % 4096;
                }
            },
            Instr::SeReg(x, y) => {
                if self.v[x as usize] == self.v[y as usize] {
                    self.program_addr = (self.program_addr + 2) % 4096;
                }
            },
            Instr::LdByte(x, kk) => {
                self.v.set(x as usize, kk);
            },
            Instr::AddByte(x, kk) => {
                let sum: u16 = self.v[x as usize] as u16 + kk as u16;
                self.v.set(x as usize, (sum % 256) as u8);
            },
            Instr::MovReg(x, y) => {
                let val: u8 = self.v[y as usize];
                self.v.set(x as usize, val);
            },
            Instr::OrReg(x, y) => {
                let val: u8 = self.v[x as usize] | self.v[y as usize];
                self.v.set(x as usize, val);
            },
            Instr::AndReg(x, y) => {
                let val: u8 = self.v[x as usize] & self.v[y as usize];
                self.v.set(x as usize, val);
            },
            Instr::XorReg(x, y) => {
                let val: u8 = self.v[x as usize] ^ self.v[y as usize];
                self.v.set(x as usize, val);
            },
            Instr::AddReg(x, y) => {
                let sum: u16 = self.v[x as usize] as u16 + self.v[y as usize] as u16;
                self.v.set(15, if sum > 255 { 1 } else { 0 });
                self.v.set(x as usize, (sum % 256) as u8);
            },
            Instr::SubReg(x, y) => {
                let vx: u8 = self.v[x as usize];
                let vy: u8 = self.v[y as usize];
                self.v.set(15, if vx > vy { 1 } else { 0 });
                let diff: u16 = (vx as u16 + 256) - (vy as u16);
                self.v.set(x as usize, (diff % 256) as u8);
                proof {
                    lemma_mod_multiples_vanish(1, vx - vy, 256);
                }
            },
            Instr::ShrReg(x) => {
                let ge: bool = self.v[x as usize] >= 128;
                self.v.set(15, if ge { 1 } else { 0 });
                let cur: u8 = self.v[x as usize];
                self.v.set(x as usize, cur / 2);
            },
            Instr::SubnReg(x, y) => {
                let vx: u8 = self.v[x as usize];
                let vy: u8 = self.v[y as usize];
                self.v.set(15, if vy > vx { 1 } else { 0 });
                let diff: u16 = (vy as u16 + 256) - (vx as u16);
                self.v.set(x as usize, (diff % 256) as u8);
                proof {
                    lemma_mod_multiples_vanish(1, vy - vx, 256);
                }
            },
            Instr::ShlReg(x) => {
                let vx: u8 = self.v[x as usize];
                let prod: u16 = (vx as u16 * 2) % 256;
                self.v.set(15, if vx >= 128 { 1 } else { 0 });
                self.v.set(x as usize, prod as u8);
            },
            Instr::SneReg(x, y) => {
                if self.v[x as usize] != self.v[y as usize] {
                    self.program_addr = (self.program_addr + 2) % 4096;
                }
            },
            Instr::LdI(nnn) => {
                self.memory_addr = nnn as usize;
            },
            Instr::JpV0(nnn) => {
                self.program_addr = (nnn as usize + self.v[0] as usize) % 4096;
            },
            Instr::Rnd(x, kk) => {
                let b = random_byte();
                proof {
                    rused = b;
                }
                self.v.set(x as usize, b & kk);
            },
            Instr::Drw(x, y, n) => {
                self.draw_sprite(x, y, n);
            },
            Instr::SkipKey(x) => {
                let code: u8 = self.v[x as usize];
                if self.keyboard.is_key_pressed(code) {
                    self.program_addr = (self.program_addr + 2) % 4096;
                }
            },
            Instr::SkipNoKey(x) => {
                let code: u8 = self.v[x as usize];
                if !self.keyboard.is_key_pressed(code) {
                    self.program_addr = (self.program_addr + 2) % 4096;
                }
            },
            Instr::ReadDelay(x) => {
                let val: u8 = self.delay_timer;
                self.v.set(x as usize, val);
            },
            Instr::WaitKey(_x) => {
                self.keyboard.awaiting_keypress = true;
            },
            Instr::SetDelay(x) => {
                self.delay_timer = self.v[x as usize];
            },
            Instr::SetSound(x) => {
                self.sound_timer = self.v[x as usize];
            },
            Instr::AddI(x) => {
                self.memory_addr = (self.memory_addr + self.v[x as usize] as usize) % 4096;
            },
            Instr::LdGlyph(x) => {
                self.memory_addr = self.v[x as usize] as usize * 5;
            },
            Instr::Bcd(x) => {
                let vx: u8 = self.v[x as usize];
                self.memory.set(self.memory_addr, vx / 100);
                self.memory.set((self.memory_addr + 1) % 4096, (vx / 10) % 10);
                self.memory.set((self.memory_addr + 2) % 4096, vx % 10);
            },
            Instr::StoreRegs(x) => {
                self.store_regs(x);
            },
            Instr::LoadRegs(x) => {
                self.load_regs(x);
            },
        }
        proof {
            lemma_apply_wf(s1, instr, rused);
            assert(self@ =~~= apply_instr(s1, instr, rused));
            assert(exec_instr(pre, instruction, rused) == (
                self@,
                fault_of(Ok::<(), Fault>(())),
            ));
        }
        Ok(())
    }

    /// XOR the `n`-byte sprite at `I` onto the display at `(Vx, Vy)`,
    /// wrapping coordinates, and set `VF` to whether a lit pixel was erased.
    fn draw_sprite(&mut self, x: u8, y: u8, n: u8)
        requires
            old(self)@.wf(),
            x < 16,
            y < 16,
            n < 16,
        ensures
            final(self)@.wf(),
            final(self)@ == apply_instr(old(self)@, Instr::Drw(x, y, n), 0),
    {
        let ghost s0 = old(self)@;
        let vx: u8 = self.v[x as usize];
        let vy: u8 = self.v[y as usize];
        let mut erased: bool = false;
        proof {
            lemma_draw_base(s0, x, y, n);
        }
        let mut row: u8 = 0;
        while row < n
            invariant
                self@.wf(),
                s0.wf(),
                x < 16,
                y < 16,
                n < 16,
                self@ == (CpuView { grid: self@.grid, ..s0 }),
                row <= n,
                vx == s0.v[x as int],
                vy == s0.v[y as int],
                self@.grid == draw_grid(s0, x, y, n, 8 * row),
                erased == draw_erases(s0, x, y, n, 8 * row),
            decreases n - row,
        {
            let byte: u8 = self.memory[(self.memory_addr + row as usize) % 4096];
            let mut col: u8 = 0;
            while col < 8
                invariant
                    self@.wf(),
                    s0.wf(),
                    x < 16,
                    y < 16,
                    n < 16,
                    self@ == (CpuView { grid: self@.grid, ..s0 }),
                    row < n,
                    col <= 8,
                    vx == s0.v[x as int],
                    vy == s0.v[y as int],
                    byte == s0.mem[(s0.i + row) % 4096],
                    self@.grid == draw_grid(s0, x, y, n, 8 * row + col),
                    erased == draw_erases(s0, x, y, n, 8 * row + col),
                decreases 8 - col,
            {
                proof {
                    lemma_draw_step(s0, x, y, n, row as int, col as int);
                }
                let sh: u8 = 7 - col;
                if (byte >> sh) & 1 == 1 {
                    let e = self.display.set_pixel(vx as i32 + col as i32, vy as i32 + row as i32);
                    erased = erased || e;
                }
                col = col + 1;
            }
            row = row + 1;
        }
        self.v.set(15, if erased { 1 } else { 0 });
        proof {
            assert(self@ =~~= apply_instr(s0, Instr::Drw(x, y, n), 0u8));
        }
    }

    /// Store `V0..=Vx` into the cells at `I`, wrapping addresses.
    fn store_regs(&mut self, x: u8)
        requires
            old(self)@.wf(),
            x < 16,
        ensures
            final(self)@.wf(),
            final(self)@ == apply_instr(old(self)@, Instr::StoreRegs(x), 0),
    {
        let ghost s0 = old(self)@;
        proof {
            assert(store_prefix(s0, 0) =~= s0.mem);
        }
        let mut k: usize = 0;
        while k <= x as usize
            invariant
                self@.wf(),
                s0.wf(),
                x < 16,
                k <= x as usize + 1,
                self@ == (CpuView { mem: self@.mem, ..s0 }),
                self@.mem == store_prefix(s0, k as int),
            decreases x as usize + 1 - k,
        {
            self.memory.set((self.memory_addr + k) % 4096, self.v[k]);
            proof {
                lemma_store_step(s0, k as int);
            }
            k = k + 1;
        }
        proof {
            assert(self@ =~~= apply_instr(s0, Instr::StoreRegs(x), 0u8));
        }
    }

    /// Load `V0..=Vx` back from the cells at `I`, wrapping addresses.
    fn load_regs(&mut self, x: u8)
        requires
            old(self)@.wf(),
            x < 16,
        ensures
            final(self)@.wf(),
            final(self)@ == apply_instr(old(self)@, Instr::LoadRegs(x), 0),
    {
        let ghost s0 = old(self)@;
        proof {
            assert(load_prefix(s0, 0) =~= s0.v);
        }
        let mut k: usize = 0;
        while k <= x as usize
            invariant
                self@.wf(),
                s0.wf(),
                x < 16,
                k <= x as usize + 1,
                self@ == (CpuView { v: self@.v, ..s0 }),
                self@.v == load_prefix(s0, k as int),
            decreases x as usize + 1 - k,
        {
            let val: u8 = self.memory[(self.memory_addr + k) % 4096];
            self.v.set(k, val);
            proof {
                assert(self@.v =~= load_prefix(s0, k + 1));
            }
            k = k + 1;
        }
        proof {
            assert(self@ =~~= apply_instr(s0, Instr::LoadRegs(x), 0u8));
        }
    }
}

/// Relies on `rand::random`: an independently drawn byte for the
/// random-number opcode. Nothing is promised of its value; the executor is
/// verified for every byte that may come back.
#[verifier::external_body]
fn random_byte() -> u8 {
    rand::random::<u8>()
}

} // verus!
