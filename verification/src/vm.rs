//! The machine state: memory, registers, call stack, timers, framebuffer,
//! keypad latch, and its mathematical model `VmView`.

use vstd::prelude::*;
use crate::Chip8Error;

verus! {

/// Bytes of addressable memory.
pub const MEM_SIZE: usize = 4096;
/// First address of the loaded program, and the initial program counter.
pub const ENTRY_PC: u16 = 512;
/// Bytes available to a program image past the entry point.
pub const ROM_CAPACITY: usize = 3584;
/// General-purpose registers V0..VF.
pub const NUM_REGS: usize = 16;
/// Depth of the call stack.
pub const STACK_DEPTH: usize = 16;
/// Framebuffer width in pixels.
pub const FB_WIDTH: usize = 64;
/// Framebuffer height in pixels.
pub const FB_HEIGHT: usize = 32;
/// Pixels in the framebuffer.
pub const FB_SIZE: usize = 2048;
/// Logical keys on the keypad.
pub const NUM_KEYS: usize = 16;
/// Bytes of the built-in font table.
pub const FONT_BYTES: usize = 80;
/// Largest address from which a full two-byte instruction can be fetched.
pub const LAST_FETCH_PC: u16 = 4094;
/// Exclusive bound on the program counter: a jump to nnn + V0 can reach at
/// most 4095 + 255, and a taken skip at most 4098, all below this bound.
pub const PC_BOUND: u16 = 4352;
/// Nanoseconds that must elapse before the timers tick once (one 60th of a
/// second, rounded down).
pub const TICK_NANOS: u64 = 16666666;

/// The mathematical state of the machine. Every contract of the library is
/// stated over this model.
#[verifier::ext_equal]
pub struct VmView {
    /// 4096 bytes of memory: font, then the program from `ENTRY_PC`.
    pub mem: Seq<u8>,
    /// The sixteen 8-bit registers V0..VF.
    pub v: Seq<u8>,
    /// The index register, 12 bits effective.
    pub i: u16,
    /// The program counter.
    pub pc: u16,
    /// Return addresses of pending subroutine calls, most recent last.
    pub stack: Seq<u16>,
    /// The delay timer.
    pub delay: u8,
    /// The sound timer.
    pub sound: u8,
    /// The framebuffer, row-major: pixel (x, y) at index y * 64 + x.
    pub fb: Seq<bool>,
    /// The keypad latch: key k is down iff keys[k].
    pub keys: Seq<bool>,
    /// Set on any framebuffer write; cleared only by the renderer.
    pub dirty: bool,
    /// One-shot edge raised when the sound timer reaches zero from nonzero.
    pub tone: bool,
    /// `Some(x)` while a key-wait instruction holds the machine, where Vx
    /// will receive the key; `None` while running normally.
    pub waiting: Option<u8>,
    /// When true, the add-to-index instruction also writes the overflow
    /// flag to VF (a compatibility choice; off by default).
    pub addi_carry: bool,
    /// Timestamp, in host nanoseconds, of the last timer tick.
    pub last_tick: u64,
}

impl VmView {
    /// Well-formedness: the shape every operation preserves.
    pub open spec fn wf(self) -> bool {
        &&& self.mem.len() == MEM_SIZE
        &&& self.v.len() == NUM_REGS
        &&& self.stack.len() <= STACK_DEPTH
        &&& (forall |k: int| 0 <= k < self.stack.len() ==> self.stack[k] <= LAST_FETCH_PC + 2)
        &&& self.fb.len() == FB_SIZE
        &&& self.keys.len() == NUM_KEYS
        &&& self.i < MEM_SIZE
        &&& self.pc < PC_BOUND
        &&& (self.waiting matches Some(x) ==> x < NUM_REGS && self.pc <= LAST_FETCH_PC)
    }
}

/// The built-in font: sixteen glyphs of five bytes each, glyph d at
/// byte offset 5 * d.
pub open spec fn spec_font() -> Seq<u8> {
    seq![
        0xF0u8, 0x90, 0x90, 0x90, 0xF0,
        0x20, 0x60, 0x20, 0x20, 0x70,
        0xF0, 0x10, 0xF0, 0x80, 0xF0,
        0xF0, 0x10, 0xF0, 0x10, 0xF0,
        0x90, 0x90, 0xF0, 0x10, 0x10,
        0xF0, 0x80, 0xF0, 0x10, 0xF0,
        0xF0, 0x80, 0xF0, 0x90, 0xF0,
        0xF0, 0x10, 0x20, 0x40, 0x40,
        0xF0, 0x90, 0xF0, 0x90, 0xF0,
        0xF0, 0x90, 0xF0, 0x10, 0xF0,
        0xF0, 0x90, 0xF0, 0x90, 0x90,
        0xE0, 0x90, 0xE0, 0x90, 0xE0,
        0xF0, 0x80, 0x80, 0x80, 0xF0,
        0xE0, 0x90, 0x90, 0x90, 0xE0,
        0xF0, 0x80, 0xF0, 0x80, 0xF0,
        0xF0, 0x80, 0xF0, 0x80, 0x80,
    ]
}

/// Memory at power-on: the font table, then zeroes.
pub open spec fn spec_init_mem() -> Seq<u8> {
    Seq::new(MEM_SIZE as nat, |j: int| if j < FONT_BYTES { spec_font()[j] } else { 0u8 })
}

/// The machine at power-on: zeroed registers, stack, timers, framebuffer
/// and keypad; the program counter at the entry point; font in memory.
pub open spec fn spec_init() -> VmView {
    VmView {
        mem: spec_init_mem(),
        v: Seq::new(NUM_REGS as nat, |j: int| 0u8),
        i: 0,
        pc: ENTRY_PC,
        stack: Seq::empty(),
        delay: 0,
        sound: 0,
        fb: Seq::new(FB_SIZE as nat, |j: int| false),
        keys: Seq::new(NUM_KEYS as nat, |j: int| false),
        dirty: false,
        tone: false,
        waiting: None,
        addi_carry: false,
        last_tick: 0,
    }
}

/// Memory after a program image is copied in at the entry point.
pub open spec fn spec_loaded_mem(mem: Seq<u8>, rom: Seq<u8>) -> Seq<u8> {
    Seq::new(MEM_SIZE as nat, |j: int|
        if ENTRY_PC <= j < ENTRY_PC + rom.len() { rom[j - ENTRY_PC] } else { mem[j] })
}

/// The CHIP-8 machine.
pub struct Chip8 {
    pub mem: Vec<u8>,
    pub v: Vec<u8>,
    pub i: u16,
    pub pc: u16,
    pub stack: Vec<u16>,
    pub delay: u8,
    pub sound: u8,
    pub fb: Vec<bool>,
    pub keys: Vec<bool>,
    pub dirty: bool,
    pub tone: bool,
    pub waiting: Option<u8>,
    pub addi_carry: bool,
    pub last_tick: u64,
}

impl View for Chip8 {
    type V = VmView;

    open spec fn view(&self) -> VmView {
        VmView {
            mem: self.mem@,
            v: self.v@,
            i: self.i,
            pc: self.pc,
            stack: self.stack@,
            delay: self.delay,
            sound: self.sound,
            fb: self.fb@,
            keys: self.keys@,
            dirty: self.dirty,
            tone: self.tone,
            waiting: self.waiting,
            addi_carry: self.addi_carry,
            last_tick: self.last_tick,
        }
    }
}

/// A vector of `n` copies of `val`.
fn filled_bytes(n: usize, val: u8) -> (out: Vec<u8>)
    ensures out@ == Seq::new(n as nat, |j: int| val),
{
    let mut out: Vec<u8> = Vec::new();
    let mut k: usize = 0;
    while k < n
        invariant
            k <= n,
            out@.len() == k,
            forall |j: int| 0 <= j < k ==> out@[j] == val,
        decreases n - k,
    {
        out.push(val);
        k = k + 1;
    }
    proof { assert(out@ =~= Seq::new(n as nat, |j: int| val)); }
    out
}

/// A vector of `n` copies of `false`.
fn filled_bools(n: usize) -> (out: Vec<bool>)
    ensures out@ == Seq::new(n as nat, |j: int| false),
{
    let mut out: Vec<bool> = Vec::new();
    let mut k: usize = 0;
    while k < n
        invariant
            k <= n,
            out@.len() == k,
            forall |j: int| 0 <= j < k ==> out@[j] == false,
        decreases n - k,
    {
        out.push(false);
        k = k + 1;
    }
    proof { assert(out@ =~= Seq::new(n as nat, |j: int| false)); }
    out
}

/// A framebuffer with every pixel off.
pub(crate) fn cleared_fb() -> (out: Vec<bool>)
    ensures out@ == Seq::new(FB_SIZE as nat, |j: int| false),
{
    filled_bools(FB_SIZE)
}

/// A keypad latch with every key up.
pub(crate) fn cleared_keys() -> (out: Vec<bool>)
    ensures out@ == Seq::new(NUM_KEYS as nat, |j: int| false),
{
    filled_bools(NUM_KEYS)
}

/// Appends one five-byte glyph row group.
fn push5(out: &mut Vec<u8>, a: u8, b: u8, c: u8, d: u8, e: u8)
    ensures final(out)@ == old(out)@.push(a).push(b).push(c).push(d).push(e),
{
    out.push(a);
    out.push(b);
    out.push(c);
    out.push(d);
    out.push(e);
}

/// The font table as bytes.
#[verifier::rlimit(60)]
fn font_table() -> (out: Vec<u8>)
    ensures out@ == spec_font(),
{
    let mut out: Vec<u8> = Vec::new();
    push5(&mut out, 0xF0, 0x90, 0x90, 0x90, 0xF0);
    push5(&mut out, 0x20, 0x60, 0x20, 0x20, 0x70);
    push5(&mut out, 0xF0, 0x10, 0xF0, 0x80, 0xF0);
    push5(&mut out, 0xF0, 0x10, 0xF0, 0x10, 0xF0);
    push5(&mut out, 0x90, 0x90, 0xF0, 0x10, 0x10);
    push5(&mut out, 0xF0, 0x80, 0xF0, 0x10, 0xF0);
    push5(&mut out, 0xF0, 0x80, 0xF0, 0x90, 0xF0);
    push5(&mut out, 0xF0, 0x10, 0x20, 0x40, 0x40);
    push5(&mut out, 0xF0, 0x90, 0xF0, 0x90, 0xF0);
    push5(&mut out, 0xF0, 0x90, 0xF0, 0x10, 0xF0);
    push5(&mut out, 0xF0, 0x90, 0xF0, 0x90, 0x90);
    push5(&mut out, 0xE0, 0x90, 0xE0, 0x90, 0xE0);
    push5(&mut out, 0xF0, 0x80, 0x80, 0x80, 0xF0);
    push5(&mut out, 0xE0, 0x90, 0x90, 0x90, 0xE0);
    push5(&mut out, 0xF0, 0x80, 0xF0, 0x80, 0xF0);
    push5(&mut out, 0xF0, 0x80, 0xF0, 0x80, 0x80);
    proof { assert(out@ =~= spec_font()); }
    out
}

impl Chip8 {
    /// A machine at power-on: font loaded, everything else zeroed, program
    /// counter at the entry point.
    pub fn new() -> (vm: Chip8)
        ensures
            vm@ == spec_init(),
            vm@.wf(),
    {
        let mut mem = font_table();
        let mut k: usize = FONT_BYTES;
        while k < MEM_SIZE
            invariant
                FONT_BYTES <= k <= MEM_SIZE,
                mem@.len() == k,
                forall |j: int| 0 <= j < FONT_BYTES ==> mem@[j] == spec_font()[j],
                forall |j: int| FONT_BYTES <= j < k ==> mem@[j] == 0u8,
            decreases MEM_SIZE - k,
        {
            mem.push(0);
            k = k + 1;
        }
        proof { assert(mem@ =~= spec_init_mem()); }
        let vm = Chip8 {
            mem,
            v: filled_bytes(NUM_REGS, 0),
            i: 0,
            pc: ENTRY_PC,
            stack: Vec::new(),
            delay: 0,
            sound: 0,
            fb: filled_bools(FB_SIZE),
            keys: filled_bools(NUM_KEYS),
            dirty: false,
            tone: false,
            waiting: None,
            addi_carry: false,
            last_tick: 0,
        };
        proof { assert(vm@ =~= spec_init()); }
        vm
    }

    /// Copies a program image into memory at the entry point. An image
    /// longer than the remaining capacity is rejected whole: memory is
    /// left untouched.
    pub fn load_rom(&mut self, rom: &[u8]) -> (r: Result<(), Chip8Error>)
        requires
            old(self)@.wf(),
        ensures
            final(self)@.wf(),
            rom@.len() > ROM_CAPACITY ==> r == Err::<(), Chip8Error>(Chip8Error::RomTooLarge)
                && final(self)@ == old(self)@,
            rom@.len() <= ROM_CAPACITY ==> r == Ok::<(), Chip8Error>(())
                && final(self)@ == (VmView { mem: spec_loaded_mem(old(self)@.mem, rom@), ..old(self)@ }),
    {
        if rom.len() > ROM_CAPACITY {
            return Err(Chip8Error::RomTooLarge);
        }
        let ghost orig = self@;
        let mut k: usize = 0;
        while k < rom.len()
            invariant
                orig.wf(),
                rom@.len() <= ROM_CAPACITY,
                k <= rom@.len(),
                self@ == (VmView { mem: self@.mem, ..orig }),
                self@.mem.len() == MEM_SIZE,
                forall |j: int| ENTRY_PC <= j < ENTRY_PC + k ==> self@.mem[j] == rom@[j - ENTRY_PC],
                forall |j: int| 0 <= j < MEM_SIZE && !(ENTRY_PC <= j < ENTRY_PC + k) ==> self@.mem[j] == orig.mem[j],
            decreases rom@.len() - k,
        {
            self.mem.set(ENTRY_PC as usize + k, rom[k]);
            k = k + 1;
        }
        proof {
            assert(self@.mem =~= spec_loaded_mem(orig.mem, rom@));
            assert(self@ =~= (VmView { mem: spec_loaded_mem(orig.mem, rom@), ..orig }));
        }
        Ok(())
    }

    /// The pixel at column `x`, row `y` of the framebuffer.
    pub fn pixel(&self, x: usize, y: usize) -> (on: bool)
        requires
            self@.wf(),
            x < FB_WIDTH,
            y < FB_HEIGHT,
        ensures
            on == self@.fb[y * FB_WIDTH + x],
    {
        self.fb[y * FB_WIDTH + x]
    }

    /// Whether the framebuffer changed since the renderer last consumed it.
    pub fn is_dirty(&self) -> (d: bool)
        ensures d == self@.dirty,
    {
        self.dirty
    }

    /// Marks the framebuffer consumed; only the renderer calls this.
    pub fn clear_dirty(&mut self)
        ensures final(self)@ == (VmView { dirty: false, ..old(self)@ }),
    {
        self.dirty = false;
    }

    /// Whether the sound timer reached zero since the host last listened:
    /// the one-shot edge that ends a tone.
    pub fn tone_complete(&self) -> (t: bool)
        ensures t == self@.tone,
    {
        self.tone
    }

    /// Acknowledges the tone edge.
    pub fn clear_tone(&mut self)
        ensures final(self)@ == (VmView { tone: false, ..old(self)@ }),
    {
        self.tone = false;
    }

    /// Whether the machine is suspended waiting for a key.
    pub fn awaiting_key(&self) -> (w: bool)
        ensures w == (self@.waiting is Some),
    {
        self.waiting.is_some()
    }

    /// Writes one key of the keypad latch; the host calls this between
    /// cycles as keys go down and up.
    pub fn set_key(&mut self, k: u8, down: bool)
        requires
            old(self)@.wf(),
            k < NUM_KEYS,
        ensures
            final(self)@ == (VmView { keys: old(self)@.keys.update(k as int, down), ..old(self)@ }),
            final(self)@.wf(),
    {
        self.keys.set(k as usize, down);
    }

    /// The value of register Vx.
    pub fn reg(&self, x: u8) -> (val: u8)
        requires
            self@.wf(),
            x < NUM_REGS,
        ensures
            val == self@.v[x as int],
    {
        self.v[x as usize]
    }

    /// Writes register Vx; a debugging entry point for the host.
    pub fn set_reg(&mut self, x: u8, val: u8)
        requires
            old(self)@.wf(),
            x < NUM_REGS,
        ensures
            final(self)@ == (VmView { v: old(self)@.v.update(x as int, val), ..old(self)@ }),
            final(self)@.wf(),
    {
        self.v.set(x as usize, val);
    }

    /// The index register I.
    pub fn index_reg(&self) -> (val: u16)
        ensures val == self@.i,
    {
        self.i
    }

    /// Writes the index register; a debugging entry point for the host.
    pub fn set_index(&mut self, val: u16)
        requires
            old(self)@.wf(),
            val < MEM_SIZE,
        ensures
            final(self)@ == (VmView { i: val, ..old(self)@ }),
            final(self)@.wf(),
    {
        self.i = val;
    }

    /// The program counter.
    pub fn program_counter(&self) -> (val: u16)
        ensures val == self@.pc,
    {
        self.pc
    }

    /// Moves the program counter to an address from which a full two-byte
    /// instruction can be fetched; a debugging entry point for the host.
    pub fn set_pc(&mut self, val: u16)
        requires
            old(self)@.wf(),
            val <= LAST_FETCH_PC,
        ensures
            final(self)@ == (VmView { pc: val, ..old(self)@ }),
            final(self)@.wf(),
    {
        self.pc = val;
    }

    /// The byte at a memory address.
    pub fn mem_at(&self, addr: u16) -> (b: u8)
        requires
            self@.wf(),
            addr < MEM_SIZE,
        ensures
            b == self@.mem[addr as int],
    {
        self.mem[addr as usize]
    }

    /// Writes one byte of memory; a debugging entry point for the host.
    pub fn write_mem(&mut self, addr: u16, b: u8)
        requires
            old(self)@.wf(),
            addr < MEM_SIZE,
        ensures
            final(self)@ == (VmView { mem: old(self)@.mem.update(addr as int, b), ..old(self)@ }),
            final(self)@.wf(),
    {
        self.mem.set(addr as usize, b);
    }

    /// The delay timer.
    pub fn delay_timer(&self) -> (t: u8)
        ensures t == self@.delay,
    {
        self.delay
    }

    /// The sound timer.
    pub fn sound_timer(&self) -> (t: u8)
        ensures t == self@.sound,
    {
        self.sound
    }

    /// Chooses whether the add-to-index instruction also writes its 12-bit
    /// overflow into VF, a compatibility switch some programs expect;
    /// off at construction.
    pub fn set_addi_carry(&mut self, on: bool)
        ensures final(self)@ == (VmView { addi_carry: on, ..old(self)@ }),
    {
        self.addi_carry = on;
    }
}

} // verus!
