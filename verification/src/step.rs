//! The fetch-decode-execute engine: the semantics of every instruction as a
//! function from machine state to machine state, the executable engine
//! proved against it, the 60 Hz timer tick, and the key-wait state machine.

use vstd::prelude::*;
use vstd::arithmetic::div_mod::lemma_mod_add_multiples_vanish;
use crate::Chip8Error;
use crate::vm::{Chip8, VmView};
use crate::vm::{MEM_SIZE, NUM_REGS, NUM_KEYS, FB_SIZE, STACK_DEPTH, LAST_FETCH_PC, TICK_NANOS};
use crate::insn::{Instr, spec_decode, decode};
use crate::draw::{spec_draw_fb, spec_draw_collision, draw_sprite};

verus! {

/// The state with the program counter advanced past one instruction.
pub open spec fn adv(pre: VmView) -> VmView {
    VmView { pc: (pre.pc + 2) as u16, ..pre }
}

/// The state after an instruction that skips the next one when `c` holds.
pub open spec fn skip_if(pre: VmView, c: bool) -> VmView {
    VmView { pc: if c { (pre.pc + 4) as u16 } else { (pre.pc + 2) as u16 }, ..pre }
}

/// The state with register `x` set to `val`.
pub open spec fn set_reg(pre: VmView, x: int, val: u8) -> VmView {
    VmView { v: pre.v.update(x, val), ..pre }
}

/// Memory with V0..Vx written at addresses i..i+x inclusive.
pub open spec fn spec_store_regs(mem: Seq<u8>, i: int, v: Seq<u8>, x: int) -> Seq<u8> {
    Seq::new(MEM_SIZE as nat, |j: int| if i <= j <= i + x { v[j - i] } else { mem[j] })
}

/// Registers with V0..Vx read from addresses i..i+x inclusive.
pub open spec fn spec_load_regs(v: Seq<u8>, mem: Seq<u8>, i: int, x: int) -> Seq<u8> {
    Seq::new(NUM_REGS as nat, |r: int| if r <= x { mem[i + r] } else { v[r] })
}

/// What one decoded instruction does to the machine, given the random byte
/// `rb` that a random-number instruction would consume. Every fatal
/// condition surfaces as the matching error and leaves the state unchanged.
pub open spec fn spec_exec_instr(pre: VmView, ins: Instr, rb: u8) -> Result<VmView, Chip8Error> {
    match ins {
        Instr::Cls => Ok(VmView {
            fb: Seq::new(FB_SIZE as nat, |j: int| false),
            dirty: true,
            pc: (pre.pc + 2) as u16,
            ..pre
        }),
        Instr::Ret => if pre.stack.len() == 0 {
            Err(Chip8Error::StackUnderflow)
        } else {
            Ok(VmView { pc: pre.stack.last(), stack: pre.stack.drop_last(), ..pre })
        },
        Instr::Sys => Ok(adv(pre)),
        Instr::Jp { nnn } => Ok(VmView { pc: nnn, ..pre }),
        Instr::Call { nnn } => if pre.stack.len() >= STACK_DEPTH {
            Err(Chip8Error::StackOverflow)
        } else {
            Ok(VmView { stack: pre.stack.push((pre.pc + 2) as u16), pc: nnn, ..pre })
        },
        Instr::SeByte { x, kk } => Ok(skip_if(pre, pre.v[x as int] == kk)),
        Instr::SneByte { x, kk } => Ok(skip_if(pre, pre.v[x as int] != kk)),
        Instr::SeReg { x, y } => Ok(skip_if(pre, pre.v[x as int] == pre.v[y as int])),
        Instr::LdByte { x, kk } => Ok(adv(set_reg(pre, x as int, kk))),
        Instr::AddByte { x, kk } => Ok(adv(set_reg(pre, x as int,
            ((pre.v[x as int] + kk) % 256) as u8))),
        Instr::LdReg { x, y } => Ok(adv(set_reg(pre, x as int, pre.v[y as int]))),
        Instr::Or { x, y } => Ok(adv(set_reg(pre, x as int, pre.v[x as int] | pre.v[y as int]))),
        Instr::And { x, y } => Ok(adv(set_reg(pre, x as int, pre.v[x as int] & pre.v[y as int]))),
        Instr::Xor { x, y } => Ok(adv(set_reg(pre, x as int, pre.v[x as int] ^ pre.v[y as int]))),
        Instr::AddReg { x, y } => Ok(adv(VmView {
            v: pre.v
                .update(15, if pre.v[x as int] + pre.v[y as int] > 255 { 1u8 } else { 0u8 })
                .update(x as int, ((pre.v[x as int] + pre.v[y as int]) % 256) as u8),
            ..pre
        })),
        Instr::SubReg { x, y } => Ok(adv(VmView {
            v: pre.v
                .update(15, if pre.v[x as int] >= pre.v[y as int] { 1u8 } else { 0u8 })
                .update(x as int, ((pre.v[x as int] - pre.v[y as int]) % 256) as u8),
            ..pre
        })),
        Instr::Shr { x, y } => Ok(adv(VmView {
            v: pre.v
                .update(15, pre.v[x as int] & 1)
                .update(x as int, pre.v[x as int] >> 1u8),
            ..pre
        })),
        Instr::SubN { x, y } => Ok(adv(VmView {
            v: pre.v
                .update(15, if pre.v[y as int] >= pre.v[x as int] { 1u8 } else { 0u8 })
                .update(x as int, ((pre.v[y as int] - pre.v[x as int]) % 256) as u8),
            ..pre
        })),
        Instr::Shl { x, y } => Ok(adv(VmView {
            v: pre.v
                .update(15, pre.v[x as int] >> 7u8)
                .update(x as int, ((pre.v[x as int] * 2) % 256) as u8),
            ..pre
        })),
        Instr::SneReg { x, y } => Ok(skip_if(pre, pre.v[x as int] != pre.v[y as int])),
        Instr::LdI { nnn } => Ok(VmView { i: nnn, pc: (pre.pc + 2) as u16, ..pre }),
        Instr::JpV0 { nnn } => Ok(VmView { pc: (nnn + pre.v[0]) as u16, ..pre }),
        Instr::Rnd { x, kk } => Ok(adv(set_reg(pre, x as int, rb & kk))),
        Instr::Drw { x, y, n } => if pre.i + n > MEM_SIZE {
            Err(Chip8Error::MemoryOutOfBounds)
        } else {
            Ok(VmView {
                fb: spec_draw_fb(pre.fb, pre.mem, pre.i as int, pre.v[x as int], pre.v[y as int], n as int),
                v: pre.v.update(15,
                    if spec_draw_collision(pre.fb, pre.mem, pre.i as int, pre.v[x as int], pre.v[y as int], n as int)
                    { 1u8 } else { 0u8 }),
                dirty: true,
                pc: (pre.pc + 2) as u16,
                ..pre
            })
        },
        Instr::Skp { x } => if pre.v[x as int] >= NUM_KEYS {
            Err(Chip8Error::MemoryOutOfBounds)
        } else {
            Ok(skip_if(pre, pre.keys[pre.v[x as int] as int]))
        },
        Instr::Sknp { x } => if pre.v[x as int] >= NUM_KEYS {
            Err(Chip8Error::MemoryOutOfBounds)
        } else {
            Ok(skip_if(pre, !pre.keys[pre.v[x as int] as int]))
        },
        Instr::LdFromDt { x } => Ok(adv(set_reg(pre, x as int, pre.delay))),
        Instr::LdKey { x } => Ok(VmView {
            waiting: Some(x),
            keys: Seq::new(NUM_KEYS as nat, |j: int| false),
            ..pre
        }),
        Instr::LdToDt { x } => Ok(VmView { delay: pre.v[x as int], pc: (pre.pc + 2) as u16, ..pre }),
        Instr::LdToSt { x } => Ok(VmView { sound: pre.v[x as int], pc: (pre.pc + 2) as u16, ..pre }),
        Instr::AddI { x } => Ok(VmView {
            i: ((pre.i + pre.v[x as int]) % 4096) as u16,
            v: if pre.addi_carry {
                pre.v.update(15, if pre.i + pre.v[x as int] > 4095 { 1u8 } else { 0u8 })
            } else {
                pre.v
            },
            pc: (pre.pc + 2) as u16,
            ..pre
        }),
        Instr::LdFont { x } => Ok(VmView {
            i: (5 * pre.v[x as int]) as u16,
            pc: (pre.pc + 2) as u16,
            ..pre
        }),
        Instr::Bcd { x } => if pre.i + 2 >= MEM_SIZE {
            Err(Chip8Error::MemoryOutOfBounds)
        } else {
            Ok(VmView {
                mem: pre.mem
                    .update(pre.i as int, ((pre.v[x as int] as int) / 100) as u8)
                    .update(pre.i + 1, (((pre.v[x as int] as int) / 10) % 10) as u8)
                    .update(pre.i + 2, ((pre.v[x as int] as int) % 10) as u8),
                pc: (pre.pc + 2) as u16,
                ..pre
            })
        },
        Instr::Store { x } => if pre.i + x >= MEM_SIZE {
            Err(Chip8Error::MemoryOutOfBounds)
        } else {
            Ok(VmView {
                mem: spec_store_regs(pre.mem, pre.i as int, pre.v, x as int),
                pc: (pre.pc + 2) as u16,
                ..pre
            })
        },
        Instr::Load { x } => if pre.i + x >= MEM_SIZE {
            Err(Chip8Error::MemoryOutOfBounds)
        } else {
            Ok(VmView {
                v: spec_load_regs(pre.v, pre.mem, pre.i as int, x as int),
                pc: (pre.pc + 2) as u16,
                ..pre
            })
        },
        Instr::Nop => Ok(adv(pre)),
    }
}

/// The timers after a cycle at host time `now`: when more than a 60th of a
/// second has passed since the last tick, each nonzero timer drops by
/// exactly one — never more, whatever time passed — and the sound timer
/// reaching zero raises the one-shot tone edge.
pub open spec fn spec_tick(pre: VmView, now: u64) -> VmView {
    if now >= pre.last_tick && now - pre.last_tick > TICK_NANOS {
        VmView {
            delay: if pre.delay > 0 { (pre.delay - 1) as u8 } else { 0u8 },
            sound: if pre.sound > 0 { (pre.sound - 1) as u8 } else { 0u8 },
            tone: pre.tone || pre.sound == 1,
            last_tick: now,
            ..pre
        }
    } else {
        pre
    }
}

/// The lowest-indexed key at or above `k` that is down, if any.
pub open spec fn first_down(keys: Seq<bool>, k: int) -> Option<u8>
    decreases 16 - k,
{
    if k < 0 || k >= 16 {
        None
    } else if keys[k] {
        Some(k as u8)
    } else {
        first_down(keys, k + 1)
    }
}

/// One cycle spent in the key-wait state: if some key is down, the lowest
/// such key goes to Vx, the program counter resumes past the wait
/// instruction and the machine runs again; otherwise nothing moves.
pub open spec fn spec_wait_step(pre: VmView, x: u8) -> VmView {
    match first_down(pre.keys, 0) {
        Some(k) => VmView {
            v: pre.v.update(x as int, k),
            pc: (pre.pc + 2) as u16,
            waiting: None,
            ..pre
        },
        None => pre,
    }
}

/// One full cycle: resolve a pending key wait, or fetch the big-endian
/// opcode at the program counter, decode it and execute it; then tick the
/// timers. A fatal condition surfaces as its error and nothing changes.
pub open spec fn spec_step(pre: VmView, rb: u8, now: u64) -> Result<VmView, Chip8Error> {
    match pre.waiting {
        Some(x) => Ok(spec_tick(spec_wait_step(pre, x), now)),
        None => if pre.pc > LAST_FETCH_PC {
            Err(Chip8Error::MemoryOutOfBounds)
        } else {
            let op = ((pre.mem[pre.pc as int] as u16) << 8u16) | (pre.mem[pre.pc + 1] as u16);
            match spec_exec_instr(pre, spec_decode(op), rb) {
                Ok(next) => Ok(spec_tick(next, now)),
                Err(e) => Err(e),
            }
        },
    }
}

/// How an executable result relates to the model: on success the new state
/// is the specified one; on an error the state did not move.
pub open spec fn outcome_matches(
    pre: VmView, post: VmView, r: Result<(), Chip8Error>, expected: Result<VmView, Chip8Error>,
) -> bool {
    match r {
        Ok(_) => expected == Ok::<VmView, Chip8Error>(post),
        Err(e) => expected == Err::<VmView, Chip8Error>(e) && post == pre,
    }
}

/// What `execute` and its helpers require of the machine.
pub open spec fn exec_pre(pre: VmView, ins: Instr) -> bool {
    &&& pre.wf()
    &&& ins.wf()
    &&& pre.pc <= LAST_FETCH_PC
    &&& pre.waiting is None
}

/// Relies on rand::random::<u8>: a random byte from the thread-local
/// generator. Nothing is promised of the value.
#[verifier::external_body]
fn random_byte() -> u8 {
    rand::random::<u8>()
}

impl Chip8 {
    /// Control flow: clear, return, jumps, calls and skips.
    fn exec_flow(&mut self, ins: Instr, rand_byte: u8) -> (r: Result<(), Chip8Error>)
        requires
            exec_pre(old(self)@, ins),
            (ins matches Instr::Cls) || (ins matches Instr::Ret) || (ins matches Instr::Sys)
                || (ins matches Instr::Jp { .. }) || (ins matches Instr::Call { .. })
                || (ins matches Instr::SeByte { .. }) || (ins matches Instr::SneByte { .. })
                || (ins matches Instr::SeReg { .. }) || (ins matches Instr::SneReg { .. })
                || (ins matches Instr::JpV0 { .. }) || (ins matches Instr::Nop),
        ensures
            final(self)@.wf(),
            outcome_matches(old(self)@, final(self)@, r, spec_exec_instr(old(self)@, ins, rand_byte)),
    {
        let ghost pre = self@;
        match ins {
            Instr::Cls => {
                self.fb = crate::vm::cleared_fb();
                self.dirty = true;
                self.pc = self.pc + 2;
            }
            Instr::Ret => {
                match self.stack.pop() {
                    Some(ret) => {
                        self.pc = ret;
                        proof {
                            assert(self@.stack =~= pre.stack.drop_last());
                        }
                    }
                    None => {
                        return Err(Chip8Error::StackUnderflow);
                    }
                }
            }
            Instr::Sys => {
                self.pc = self.pc + 2;
            }
            Instr::Jp { nnn } => {
                self.pc = nnn;
            }
            Instr::Call { nnn } => {
                if self.stack.len() >= STACK_DEPTH {
                    return Err(Chip8Error::StackOverflow);
                }
                self.stack.push(self.pc + 2);
                self.pc = nnn;
            }
            Instr::SeByte { x, kk } => {
                let vx = self.v[x as usize];
                self.pc = if vx == kk { self.pc + 4 } else { self.pc + 2 };
            }
            Instr::SneByte { x, kk } => {
                let vx = self.v[x as usize];
                self.pc = if vx != kk { self.pc + 4 } else { self.pc + 2 };
            }
            Instr::SeReg { x, y } => {
                let vx = self.v[x as usize];
                let vy = self.v[y as usize];
                self.pc = if vx == vy { self.pc + 4 } else { self.pc + 2 };
            }
            Instr::SneReg { x, y } => {
                let vx = self.v[x as usize];
                let vy = self.v[y as usize];
                self.pc = if vx != vy { self.pc + 4 } else { self.pc + 2 };
            }
            Instr::JpV0 { nnn } => {
                self.pc = nnn + self.v[0] as u16;
            }
            _ => {
                self.pc = self.pc + 2;
            }
        }
        proof {
            assert(spec_exec_instr(pre, ins, rand_byte) == Ok::<VmView, Chip8Error>(self@));
        }
        Ok(())
    }

    /// Register arithmetic and logic, immediates and the random mask.
    fn exec_alu(&mut self, ins: Instr, rand_byte: u8) -> (r: Result<(), Chip8Error>)
        requires
            exec_pre(old(self)@, ins),
            (ins matches Instr::LdByte { .. }) || (ins matches Instr::AddByte { .. })
                || (ins matches Instr::LdReg { .. }) || (ins matches Instr::Or { .. })
                || (ins matches Instr::And { .. }) || (ins matches Instr::Xor { .. })
                || (ins matches Instr::AddReg { .. }) || (ins matches Instr::SubReg { .. })
                || (ins matches Instr::Shr { .. }) || (ins matches Instr::SubN { .. })
                || (ins matches Instr::Shl { .. }) || (ins matches Instr::Rnd { .. }),
        ensures
            final(self)@.wf(),
            outcome_matches(old(self)@, final(self)@, r, spec_exec_instr(old(self)@, ins, rand_byte)),
    {
        let ghost pre = self@;
        match ins {
            Instr::LdByte { x, kk } => {
                self.v.set(x as usize, kk);
                self.pc = self.pc + 2;
            }
            Instr::AddByte { x, kk } => {
                let s: u16 = self.v[x as usize] as u16 + kk as u16;
                self.v.set(x as usize, (s % 256) as u8);
                self.pc = self.pc + 2;
            }
            Instr::LdReg { x, y } => {
                let vy = self.v[y as usize];
                self.v.set(x as usize, vy);
                self.pc = self.pc + 2;
            }
            Instr::Or { x, y } => {
                let val = self.v[x as usize] | self.v[y as usize];
                self.v.set(x as usize, val);
                self.pc = self.pc + 2;
            }
            Instr::And { x, y } => {
                let val = self.v[x as usize] & self.v[y as usize];
                self.v.set(x as usize, val);
                self.pc = self.pc + 2;
            }
            Instr::Xor { x, y } => {
                let val = self.v[x as usize] ^ self.v[y as usize];
                self.v.set(x as usize, val);
                self.pc = self.pc + 2;
            }
            Instr::AddReg { x, y } => {
                let s: u16 = self.v[x as usize] as u16 + self.v[y as usize] as u16;
                self.v.set(15, if s > 255 { 1 } else { 0 });
                self.v.set(x as usize, (s % 256) as u8);
                self.pc = self.pc + 2;
            }
            Instr::SubReg { x, y } => {
                let vx = self.v[x as usize];
                let vy = self.v[y as usize];
                self.v.set(15, if vx >= vy { 1 } else { 0 });
                let d: u16 = (vx as u16 + 256 - vy as u16) % 256;
                proof {
                    lemma_mod_add_multiples_vanish(vx - vy, 256);
                }
                self.v.set(x as usize, d as u8);
                self.pc = self.pc + 2;
            }
            Instr::Shr { x, y } => {
                let vx = self.v[x as usize];
                self.v.set(15, vx & 1);
                self.v.set(x as usize, vx >> 1u8);
                self.pc = self.pc + 2;
            }
            Instr::SubN { x, y } => {
                let vx = self.v[x as usize];
                let vy = self.v[y as usize];
                self.v.set(15, if vy >= vx { 1 } else { 0 });
                let d: u16 = (vy as u16 + 256 - vx as u16) % 256;
                proof {
                    lemma_mod_add_multiples_vanish(vy - vx, 256);
                }
                self.v.set(x as usize, d as u8);
                self.pc = self.pc + 2;
            }
            Instr::Shl { x, y } => {
                let vx = self.v[x as usize];
                self.v.set(15, vx >> 7u8);
                let s: u16 = (vx as u16 * 2) % 256;
                self.v.set(x as usize, s as u8);
                self.pc = self.pc + 2;
            }
            Instr::Rnd { x, kk } => {
                self.v.set(x as usize, rand_byte & kk);
                self.pc = self.pc + 2;
            }
            _ => {
                proof { assert(false); }
            }
        }
        proof {
            assert(spec_exec_instr(pre, ins, rand_byte) == Ok::<VmView, Chip8Error>(self@));
        }
        Ok(())
    }

    /// The index register and memory traffic: loads, stores, decimal digits.
    fn exec_mem(&mut self, ins: Instr, rand_byte: u8) -> (r: Result<(), Chip8Error>)
        requires
            exec_pre(old(self)@, ins),
            (ins matches Instr::LdI { .. }) || (ins matches Instr::AddI { .. })
                || (ins matches Instr::LdFont { .. }) || (ins matches Instr::Bcd { .. })
                || (ins matches Instr::Store { .. }) || (ins matches Instr::Load { .. }),
        ensures
            final(self)@.wf(),
            outcome_matches(old(self)@, final(self)@, r, spec_exec_instr(old(self)@, ins, rand_byte)),
    {
        let ghost pre = self@;
        match ins {
            Instr::LdI { nnn } => {
                self.i = nnn;
                self.pc = self.pc + 2;
            }
            Instr::AddI { x } => {
                let sum: u16 = self.i + self.v[x as usize] as u16;
                if self.addi_carry {
                    self.v.set(15, if sum > 4095 { 1 } else { 0 });
                }
                self.i = sum % 4096;
                self.pc = self.pc + 2;
            }
            Instr::LdFont { x } => {
                self.i = 5 * self.v[x as usize] as u16;
                self.pc = self.pc + 2;
            }
            Instr::Bcd { x } => {
                if self.i as usize + 2 >= MEM_SIZE {
                    return Err(Chip8Error::MemoryOutOfBounds);
                }
                let vx = self.v[x as usize];
                self.mem.set(self.i as usize, vx / 100);
                self.mem.set(self.i as usize + 1, (vx / 10) % 10);
                self.mem.set(self.i as usize + 2, vx % 10);
                self.pc = self.pc + 2;
            }
            Instr::Store { x } => {
                if self.i as usize + x as usize >= MEM_SIZE {
                    return Err(Chip8Error::MemoryOutOfBounds);
                }
                let ghost mem0 = self@.mem;
                let mut k: usize = 0;
                while k <= x as usize
                    invariant
                        pre.wf(),
                        self@ == (VmView { mem: self@.mem, ..pre }),
                        self@.mem.len() == MEM_SIZE,
                        x < 16,
                        k <= x as usize + 1,
                        pre.i + x < MEM_SIZE,
                        mem0 == pre.mem,
                        forall |j: int| pre.i <= j < pre.i + k ==> self@.mem[j] == pre.v[j - pre.i],
                        forall |j: int| 0 <= j < MEM_SIZE && !(pre.i <= j < pre.i + k) ==> self@.mem[j] == mem0[j],
                    decreases x as usize + 1 - k,
                {
                    let val = self.v[k];
                    self.mem.set(self.i as usize + k, val);
                    k = k + 1;
                }
                proof {
                    assert(self@.mem =~= spec_store_regs(pre.mem, pre.i as int, pre.v, x as int));
                }
                self.pc = self.pc + 2;
            }
            Instr::Load { x } => {
                if self.i as usize + x as usize >= MEM_SIZE {
                    return Err(Chip8Error::MemoryOutOfBounds);
                }
                let ghost v0 = self@.v;
                let mut k: usize = 0;
                while k <= x as usize
                    invariant
                        pre.wf(),
                        self@ == (VmView { v: self@.v, ..pre }),
                        self@.v.len() == NUM_REGS,
                        x < 16,
                        k <= x as usize + 1,
                        pre.i + x < MEM_SIZE,
                        v0 == pre.v,
                        forall |r: int| 0 <= r < k ==> self@.v[r] == pre.mem[pre.i + r],
                        forall |r: int| k <= r < NUM_REGS ==> self@.v[r] == v0[r],
                    decreases x as usize + 1 - k,
                {
                    let val = self.mem[self.i as usize + k];
                    self.v.set(k, val);
                    k = k + 1;
                }
                proof {
                    assert(self@.v =~= spec_load_regs(pre.v, pre.mem, pre.i as int, x as int));
                }
                self.pc = self.pc + 2;
            }
            _ => {
                proof { assert(false); }
            }
        }
        proof {
            assert(spec_exec_instr(pre, ins, rand_byte) == Ok::<VmView, Chip8Error>(self@));
        }
        Ok(())
    }

    /// The framebuffer, keypad and timer instructions.
    fn exec_io(&mut self, ins: Instr, rand_byte: u8) -> (r: Result<(), Chip8Error>)
        requires
            exec_pre(old(self)@, ins),
            (ins matches Instr::Drw { .. }) || (ins matches Instr::Skp { .. })
                || (ins matches Instr::Sknp { .. }) || (ins matches Instr::LdFromDt { .. })
                || (ins matches Instr::LdKey { .. }) || (ins matches Instr::LdToDt { .. })
                || (ins matches Instr::LdToSt { .. }),
        ensures
            final(self)@.wf(),
            outcome_matches(old(self)@, final(self)@, r, spec_exec_instr(old(self)@, ins, rand_byte)),
    {
        let ghost pre = self@;
        match ins {
            Instr::Drw { x, y, n } => {
                if self.i as usize + n as usize > MEM_SIZE {
                    return Err(Chip8Error::MemoryOutOfBounds);
                }
                let vx = self.v[x as usize];
                let vy = self.v[y as usize];
                let coll = draw_sprite(&mut self.fb, &self.mem, self.i as usize, vx, vy, n as usize);
                self.v.set(15, if coll { 1 } else { 0 });
                self.dirty = true;
                self.pc = self.pc + 2;
            }
            Instr::Skp { x } => {
                let vx = self.v[x as usize];
                if vx as usize >= NUM_KEYS {
                    return Err(Chip8Error::MemoryOutOfBounds);
                }
                let down = self.keys[vx as usize];
                self.pc = if down { self.pc + 4 } else { self.pc + 2 };
            }
            Instr::Sknp { x } => {
                let vx = self.v[x as usize];
                if vx as usize >= NUM_KEYS {
                    return Err(Chip8Error::MemoryOutOfBounds);
                }
                let down = self.keys[vx as usize];
                self.pc = if !down { self.pc + 4 } else { self.pc + 2 };
            }
            Instr::LdFromDt { x } => {
                let d = self.delay;
                self.v.set(x as usize, d);
                self.pc = self.pc + 2;
            }
            Instr::LdKey { x } => {
                self.waiting = Some(x);
                self.keys = crate::vm::cleared_keys();
            }
            Instr::LdToDt { x } => {
                let vx = self.v[x as usize];
                self.delay = vx;
                self.pc = self.pc + 2;
            }
            Instr::LdToSt { x } => {
                let vx = self.v[x as usize];
                self.sound = vx;
                self.pc = self.pc + 2;
            }
            _ => {
                proof { assert(false); }
            }
        }
        proof {
            assert(spec_exec_instr(pre, ins, rand_byte) == Ok::<VmView, Chip8Error>(self@));
        }
        Ok(())
    }

    /// Executes one already-decoded instruction. `rand_byte` stands in for
    /// the random source: a random-number instruction masks it with its
    /// immediate, every other instruction ignores it. Fatal conditions
    /// return their error and leave the machine unchanged.
    pub fn execute(&mut self, ins: Instr, rand_byte: u8) -> (r: Result<(), Chip8Error>)
        requires
            old(self)@.wf(),
            ins.wf(),
            old(self)@.pc <= LAST_FETCH_PC,
            old(self)@.waiting is None,
        ensures
            final(self)@.wf(),
            outcome_matches(old(self)@, final(self)@, r, spec_exec_instr(old(self)@, ins, rand_byte)),
    {
        match ins {
            Instr::Cls | Instr::Ret | Instr::Sys | Instr::Jp { .. } | Instr::Call { .. }
            | Instr::SeByte { .. } | Instr::SneByte { .. } | Instr::SeReg { .. }
            | Instr::SneReg { .. } | Instr::JpV0 { .. } | Instr::Nop => {
                self.exec_flow(ins, rand_byte)
            }
            Instr::LdByte { .. } | Instr::AddByte { .. } | Instr::LdReg { .. }
            | Instr::Or { .. } | Instr::And { .. } | Instr::Xor { .. } | Instr::AddReg { .. }
            | Instr::SubReg { .. } | Instr::Shr { .. } | Instr::SubN { .. } | Instr::Shl { .. }
            | Instr::Rnd { .. } => {
                self.exec_alu(ins, rand_byte)
            }
            Instr::LdI { .. } | Instr::AddI { .. } | Instr::LdFont { .. } | Instr::Bcd { .. }
            | Instr::Store { .. } | Instr::Load { .. } => {
                self.exec_mem(ins, rand_byte)
            }
            Instr::Drw { .. } | Instr::Skp { .. } | Instr::Sknp { .. } | Instr::LdFromDt { .. }
            | Instr::LdKey { .. } | Instr::LdToDt { .. } | Instr::LdToSt { .. } => {
                self.exec_io(ins, rand_byte)
            }
        }
    }

    /// Ticks the timers once if more than a 60th of a second of host time
    /// has passed since the last tick.
    fn tick_timers(&mut self, now_nanos: u64)
        ensures
            final(self)@ == spec_tick(old(self)@, now_nanos),
    {
        if now_nanos >= self.last_tick && now_nanos - self.last_tick > TICK_NANOS {
            if self.delay > 0 {
                self.delay = self.delay - 1;
            }
            if self.sound > 0 {
                self.sound = self.sound - 1;
                if self.sound == 0 {
                    self.tone = true;
                }
            }
            self.last_tick = now_nanos;
            proof {
                assert(self@ =~= spec_tick(old(self)@, now_nanos));
            }
        }
    }

    /// One cycle with the random byte supplied by the caller, so that a run
    /// is fully deterministic: resolve a pending key wait or fetch, decode
    /// and execute one instruction, then tick the timers against
    /// `now_nanos`, the host clock in nanoseconds.
    pub fn cycle_with_random(&mut self, rand_byte: u8, now_nanos: u64) -> (r: Result<(), Chip8Error>)
        requires
            old(self)@.wf(),
        ensures
            final(self)@.wf(),
            outcome_matches(old(self)@, final(self)@, r, spec_step(old(self)@, rand_byte, now_nanos)),
    {
        let ghost pre = self@;
        match self.waiting {
            Some(x) => {
                let mut k: usize = 0;
                while k < NUM_KEYS && !self.keys[k]
                    invariant
                        pre.wf(),
                        self@ == pre,
                        k <= NUM_KEYS,
                        first_down(pre.keys, 0) == first_down(pre.keys, k as int),
                    decreases NUM_KEYS - k,
                {
                    k = k + 1;
                }
                if k < NUM_KEYS {
                    self.v.set(x as usize, k as u8);
                    self.pc = self.pc + 2;
                    self.waiting = None;
                }
                proof {
                    assert(self@ =~= spec_wait_step(pre, x));
                }
                self.tick_timers(now_nanos);
                Ok(())
            }
            None => {
                if self.pc > LAST_FETCH_PC {
                    return Err(Chip8Error::MemoryOutOfBounds);
                }
                let op: u16 = ((self.mem[self.pc as usize] as u16) << 8u16)
                    | (self.mem[self.pc as usize + 1] as u16);
                let ins = decode(op);
                let r = self.execute(ins, rand_byte);
                match r {
                    Ok(_) => {
                        self.tick_timers(now_nanos);
                        Ok(())
                    }
                    Err(e) => Err(e),
                }
            }
        }
    }

    /// One cycle with the random source drawn from the host's generator.
    /// The byte it feeds to a random-number instruction is arbitrary; all
    /// else is as deterministic as `cycle_with_random`.
    pub fn cycle(&mut self, now_nanos: u64) -> (r: Result<(), Chip8Error>)
        requires
            old(self)@.wf(),
        ensures
            final(self)@.wf(),
            exists |b: u8| outcome_matches(old(self)@, final(self)@, r,
                #[trigger] spec_step(old(self)@, b, now_nanos)),
    {
        let b = random_byte();
        let r = self.cycle_with_random(b, now_nanos);
        proof {
            assert(outcome_matches(old(self)@, self@, r, spec_step(old(self)@, b, now_nanos)));
        }
        r
    }
}

} // verus!
