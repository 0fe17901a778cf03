use vstd::prelude::*;
use rand::Rng;
use crate::bits::{add16, add8, sub8, lemma_fields, lemma_wrapping_agree};
use crate::bus::{Bus, BusState};
use crate::display::{blit_result, blit_collides, zero_screen};
use crate::memory::{mem_read, mem_write};

verus! {

/// Programs are loaded, and the program counter starts, at this address.
pub const PROGRAM_START: u16 = 0x200;

/// Declares rand::rngs::ThreadRng, the thread-local generator that feeds
/// the random-byte instruction.
#[verifier::external_type_specification]
#[verifier::external_body]
pub struct ExThreadRng(rand::rngs::ThreadRng);

/// Relies on rand::thread_rng: a handle to the thread-local generator.
/// Nothing can be promised of it.
#[verifier::external_body]
fn new_thread_rng() -> rand::rngs::ThreadRng {
    rand::thread_rng()
}

/// Relies on rand's Rng::gen_range over the half-open range 0..0xff: the
/// drawn value lies in the range, so it is below 0xff. Which value comes
/// back is chance, so nothing more is stated.
#[verifier::external_body]
fn random_below_max(rng: &mut rand::rngs::ThreadRng) -> (r: u8)
    ensures
        r < 0xff,
{
    rng.gen_range(0..0xffu8)
}

/// A fatal core fault: execution must not continue with undefined state.
/// Each variant carries the failing program counter and the offending
/// instruction word for diagnostics.
#[derive(Clone, Copy, Debug, PartialEq, Eq, Structural)]
pub enum Fault {
    /// The instruction word matches no defined opcode pattern.
    UnknownInstruction { pc: u16, instruction: u16 },
    /// A return was executed with the stack pointer at its initial, empty
    /// position.
    StackUnderflow { pc: u16, instruction: u16 },
    /// A call was executed with the stack pointer already at the last slot.
    StackOverflow { pc: u16, instruction: u16 },
}

/// The processor as its contracts see it: the sixteen registers, the index
/// register, the program counter, and the call stack with its pointer.
#[verifier::ext_equal]
pub ghost struct CpuState {
    pub v: Seq<u8>,
    pub i: u16,
    pub pc: u16,
    pub stack: Seq<u16>,
    pub sp: u8,
}

/// The fixed shapes of the processor state: sixteen registers, sixteen
/// stack slots, and a stack pointer inside them.
pub open spec fn cpu_wf(c: CpuState) -> bool {
    &&& c.v.len() == 16
    &&& c.stack.len() == 16
    &&& c.sp < 16
}

/// The same processor state with the program counter advanced `d` bytes.
pub open spec fn adv(c: CpuState, d: u16) -> CpuState {
    CpuState { pc: add16(c.pc, d), ..c }
}

/// The instruction word fetched at the program counter: two consecutive
/// memory bytes, big-endian.
pub open spec fn spec_fetch(c: CpuState, b: BusState) -> u16 {
    ((mem_read(b.mem, c.pc) as u16) << 8) | (mem_read(b.mem, add16(c.pc, 1)) as u16)
}

/// The register file an arithmetic/logic instruction leaves behind, or
/// `None` when its low nibble matches no defined operation. The flag
/// register is also register 15, so the order of the two writes decides
/// what an instruction with `x == 15` leaves there, exactly as the
/// write sequence below fixes it.
pub open spec fn alu_result(w: u16, x: int, vx: u8, vy: u8, v: Seq<u8>) -> Option<Seq<u8>> {
    let sub = w & 0xf;
    if sub == 0x0 {
        Some(v.update(x, vy))
    } else if sub == 0x1 {
        Some(v.update(x, vx | vy))
    } else if sub == 0x2 {
        Some(v.update(x, vx & vy))
    } else if sub == 0x3 {
        Some(v.update(x, vx ^ vy))
    } else if sub == 0x4 {
        Some(v.update(x, add8(vx, vy)).update(15, if vx + vy > 0xff { 1u8 } else { 0u8 }))
    } else if sub == 0x5 {
        Some(v.update(x, sub8(vx, vy)).update(15, if vx >= vy { 1u8 } else { 0u8 }))
    } else if sub == 0x6 {
        let v1 = v.update(15, vx & 1);
        Some(v1.update(x, v1[x] >> 1u8))
    } else if sub == 0x7 {
        Some(v.update(15, if vy > vx { 1u8 } else { 0u8 }).update(x, sub8(vy, vx)))
    } else if sub == 0xe {
        let v1 = v.update(15, if (vx & 0x80) >> 7u8 == 1 { 1u8 } else { 0u8 });
        Some(v1.update(x, v1[x] << 1u8))
    } else {
        None
    }
}

/// The memory after registers 0 through `cnt - 1` are stored at
/// consecutive, individually masked addresses starting at `i`.
pub open spec fn store_regs(mem: Seq<u8>, v: Seq<u8>, i: u16, cnt: int) -> Seq<u8>
    decreases cnt,
{
    if cnt <= 0 {
        mem
    } else {
        mem_write(store_regs(mem, v, i, cnt - 1), add16(i, (cnt - 1) as u16), v[cnt - 1])
    }
}

/// The register file after registers 0 through `cnt - 1` are loaded from
/// consecutive, individually masked addresses starting at `i`.
pub open spec fn load_regs(mem: Seq<u8>, v: Seq<u8>, i: u16, cnt: int) -> Seq<u8>
    decreases cnt,
{
    if cnt <= 0 {
        v
    } else {
        load_regs(mem, v, i, cnt - 1).update(cnt - 1, mem_read(mem, add16(i, (cnt - 1) as u16)))
    }
}

/// The screen and the collision flag after the first `rows` rows of a
/// sprite at memory `i` are drawn at `(x, y)`: each row's target line wraps
/// modulo the screen height, and the per-row collision flags are ORed.
pub open spec fn draw_rec(screen: Seq<u8>, mem: Seq<u8>, i: u16, x: u8, y: u8, rows: int) -> (
    Seq<u8>,
    bool,
)
    decreases rows,
{
    if rows <= 0 {
        (screen, false)
    } else {
        let prev = draw_rec(screen, mem, i, x, y, rows - 1);
        let byte = mem_read(mem, add16(i, (rows - 1) as u16));
        let yr = ((y + rows - 1) % 32) as u8;
        (blit_result(prev.0, byte, x, yr), prev.1 || blit_collides(prev.0, byte, x, yr))
    }
}

/// One fetch-decode-execute cycle over the machine model: the next
/// processor and bus state, or the fault that must halt execution. `rb`
/// stands for the byte the random source drew and `tv` for the countdown
/// value the timer yielded; neither is a function of the model, so the
/// interpreter's contract quantifies over them.
pub open spec fn spec_step(c: CpuState, b: BusState, rb: u8, tv: u8) -> Result<
    (CpuState, BusState),
    Fault,
> {
    let w = spec_fetch(c, b);
    let nnn = w & 0xfff;
    let n = (w & 0xf) as u8;
    let x = ((w & 0x0f00) >> 8) as int;
    let y = ((w & 0x00f0) >> 4) as int;
    let kk = (w & 0xff) as u8;
    let op = (w >> 12) & 0xf;
    let vx = c.v[x];
    let vy = c.v[y];
    if op == 0x0 {
        if nnn == 0x0e0 {
            Ok((adv(c, 2), BusState { screen: zero_screen(), ..b }))
        } else if nnn == 0x0ee {
            if c.sp == 0 {
                Err(Fault::StackUnderflow { pc: c.pc, instruction: w })
            } else {
                Ok((CpuState { pc: c.stack[c.sp as int], sp: (c.sp - 1) as u8, ..c }, b))
            }
        } else {
            Ok((CpuState { pc: nnn, ..c }, b))
        }
    } else if op == 0x1 {
        Ok((CpuState { pc: nnn, ..c }, b))
    } else if op == 0x2 {
        if c.sp == 15 {
            Err(Fault::StackOverflow { pc: c.pc, instruction: w })
        } else {
            Ok(
                (
                    CpuState {
                        sp: (c.sp + 1) as u8,
                        stack: c.stack.update(c.sp + 1, add16(c.pc, 2)),
                        pc: nnn,
                        ..c
                    },
                    b,
                ),
            )
        }
    } else if op == 0x3 {
        Ok((adv(c, if vx == kk { 4 } else { 2 }), b))
    } else if op == 0x4 {
        Ok((adv(c, if vx != kk { 4 } else { 2 }), b))
    } else if op == 0x5 {
        if n != 0 {
            Err(Fault::UnknownInstruction { pc: c.pc, instruction: w })
        } else {
            Ok((adv(c, if vx == vy { 4 } else { 2 }), b))
        }
    } else if op == 0x6 {
        Ok((adv(CpuState { v: c.v.update(x, kk), ..c }, 2), b))
    } else if op == 0x7 {
        Ok((adv(CpuState { v: c.v.update(x, add8(vx, kk)), ..c }, 2), b))
    } else if op == 0x8 {
        match alu_result(w, x, vx, vy, c.v) {
            Some(v2) => Ok((adv(CpuState { v: v2, ..c }, 2), b)),
            None => Err(Fault::UnknownInstruction { pc: c.pc, instruction: w }),
        }
    } else if op == 0x9 {
        if n != 0 {
            Err(Fault::UnknownInstruction { pc: c.pc, instruction: w })
        } else {
            Ok((adv(c, if vx != vy { 4 } else { 2 }), b))
        }
    } else if op == 0xa {
        Ok((adv(CpuState { i: nnn, ..c }, 2), b))
    } else if op == 0xb {
        Ok((CpuState { pc: (nnn + c.v[0]) as u16, ..c }, b))
    } else if op == 0xc {
        Ok((adv(CpuState { v: c.v.update(x, rb & kk), ..c }, 2), b))
    } else if op == 0xd {
        let drawn = draw_rec(b.screen, b.mem, c.i, vx, vy, n as int);
        Ok(
            (
                adv(
                    CpuState { v: c.v.update(15, if drawn.1 { 1u8 } else { 0u8 }), ..c },
                    2,
                ),
                BusState { screen: drawn.0, ..b },
            ),
        )
    } else if op == 0xe {
        if kk == 0x9e {
            Ok((adv(c, if b.key == Some(vx) { 4 } else { 2 }), b))
        } else if kk == 0xa1 {
            Ok((adv(c, if b.key != Some(vx) { 4 } else { 2 }), b))
        } else {
            Err(Fault::UnknownInstruction { pc: c.pc, instruction: w })
        }
    } else {
        if kk == 0x07 {
            Ok((adv(CpuState { v: c.v.update(x, tv), ..c }, 2), b))
        } else if kk == 0x0a {
            let v2 = match b.key {
                Some(val) => c.v.update(x, val),
                None => c.v,
            };
            Ok((adv(CpuState { v: v2, ..c }, 2), b))
        } else if kk == 0x15 {
            Ok((adv(c, 2), BusState { timer: vx, ..b }))
        } else if kk == 0x18 {
            Ok((adv(c, 2), b))
        } else if kk == 0x1e {
            Ok((adv(CpuState { i: add16(c.i, vx as u16), ..c }, 2), b))
        } else if kk == 0x29 {
            Ok((adv(CpuState { i: (vx * 5) as u16, ..c }, 2), b))
        } else if kk == 0x33 {
            let m1 = mem_write(b.mem, c.i, (vx / 100) as u8);
            let m2 = mem_write(m1, add16(c.i, 1), ((vx % 100) / 10) as u8);
            let m3 = mem_write(m2, add16(c.i, 2), (vx % 10) as u8);
            Ok((adv(c, 2), BusState { mem: m3, ..b }))
        } else if kk == 0x55 {
            Ok(
                (
                    adv(CpuState { i: add16(c.i, (x + 1) as u16), ..c }, 2),
                    BusState { mem: store_regs(b.mem, c.v, c.i, x + 1), ..b },
                ),
            )
        } else if kk == 0x65 {
            Ok((adv(CpuState { v: load_regs(b.mem, c.v, c.i, x + 1), ..c }, 2), b))
        } else {
            Err(Fault::UnknownInstruction { pc: c.pc, instruction: w })
        }
    }
}

/// How the fixed fields decode from a load or a skip-if-equal instruction
/// word assembled out of a register field and an immediate byte.
proof fn lemma_skip_encode(x: u8, kk: u8)
    by (bit_vector)
    requires
        x < 16,
    ensures
        ((0x6000u16 | ((x as u16) << 8u16) | (kk as u16)) >> 12) & 0xf == 6,
        ((0x6000u16 | ((x as u16) << 8u16) | (kk as u16)) & 0x0f00) >> 8 == x as u16,
        (0x6000u16 | ((x as u16) << 8u16) | (kk as u16)) & 0xff == kk as u16,
        ((0x3000u16 | ((x as u16) << 8u16) | (kk as u16)) >> 12) & 0xf == 3,
        ((0x3000u16 | ((x as u16) << 8u16) | (kk as u16)) & 0x0f00) >> 8 == x as u16,
        (0x3000u16 | ((x as u16) << 8u16) | (kk as u16)) & 0xff == kk as u16,
{
}

/// Law: for every register `x` and immediate `kk`, executing `6XKK` and
/// then `3XKK` with the same `kk` skips exactly one instruction: the
/// program counter advances by 4 from the load's post-state, whatever
/// random byte or timer value either cycle consumed.
pub proof fn lemma_load_then_skip_equal(
    c: CpuState,
    b: BusState,
    mid: (CpuState, BusState),
    post: (CpuState, BusState),
    x: u8,
    kk: u8,
    rb1: u8,
    tv1: u8,
    rb2: u8,
    tv2: u8,
)
    requires
        cpu_wf(c),
        x < 16,
        spec_fetch(c, b) == 0x6000u16 | ((x as u16) << 8u16) | (kk as u16),
        spec_step(c, b, rb1, tv1) == Ok::<(CpuState, BusState), Fault>(mid),
        spec_fetch(mid.0, mid.1) == 0x3000u16 | ((x as u16) << 8u16) | (kk as u16),
        spec_step(mid.0, mid.1, rb2, tv2) == Ok::<(CpuState, BusState), Fault>(post),
    ensures
        mid.0.pc == add16(c.pc, 2),
        mid.0.v[x as int] == kk,
        post.0.pc == add16(mid.0.pc, 4),
{
    lemma_skip_encode(x, kk);
    assert(mid.0 == adv(CpuState { v: c.v.update(x as int, kk), ..c }, 2));
    assert(mid.0.v[x as int] == kk);
}

/// Owns the registers, program counter, call stack, stack pointer and the
/// random source, and drives the fetch-decode-execute cycle against a bus.
pub struct Cpu {
    v: Vec<u8>,
    i: u16,
    pc: u16,
    stack: Vec<u16>,
    sp: u8,
    rng: rand::rngs::ThreadRng,
}

impl View for Cpu {
    type V = CpuState;

    closed spec fn view(&self) -> CpuState {
        CpuState { v: self.v@, i: self.i, pc: self.pc, stack: self.stack@, sp: self.sp }
    }
}

impl Cpu {
    /// The register file and the stack keep their fixed sizes, and the
    /// stack pointer stays inside the stack.
    pub open spec fn wf(&self) -> bool {
        cpu_wf(self@)
    }

    /// Creates the processor: registers and stack zeroed, program counter
    /// at the program start, stack pointer at the empty position.
    pub fn new() -> (r: Cpu)
        ensures
            r.wf(),
            r@.pc == PROGRAM_START,
            r@.i == 0,
            r@.sp == 0,
            forall|j: int| 0 <= j < 16 ==> r@.v[j] == 0,
            forall|j: int| 0 <= j < 16 ==> r@.stack[j] == 0,
    {
        let mut v: Vec<u8> = Vec::new();
        while v.len() < 16
            invariant
                v@.len() <= 16,
                forall|j: int| 0 <= j < v@.len() ==> v@[j] == 0,
            decreases 16 - v@.len(),
        {
            v.push(0);
        }
        let mut stack: Vec<u16> = Vec::new();
        while stack.len() < 16
            invariant
                stack@.len() <= 16,
                forall|j: int| 0 <= j < stack@.len() ==> stack@[j] == 0,
            decreases 16 - stack@.len(),
        {
            stack.push(0);
        }
        Cpu { v, i: 0, pc: PROGRAM_START, stack, sp: 0, rng: new_thread_rng() }
    }

    /// Writes one general-purpose register.
    pub fn write_reg(&mut self, index: u8, value: u8)
        requires
            old(self).wf(),
            index < 16,
        ensures
            final(self).wf(),
            final(self)@ == (CpuState { v: old(self)@.v.update(index as int, value), ..old(self)@ }),
    {
        self.v[index as usize] = value;
    }

    /// Writes the flag register, register 15.
    pub fn write_flag_reg(&mut self, value: u8)
        requires
            old(self).wf(),
        ensures
            final(self).wf(),
            final(self)@ == (CpuState { v: old(self)@.v.update(15, value), ..old(self)@ }),
    {
        self.write_reg(15, value);
    }

    /// Reads one general-purpose register.
    pub fn read_reg(&self, index: u8) -> (r: u8)
        requires
            self.wf(),
            index < 16,
        ensures
            r == self@.v[index as int],
    {
        self.v[index as usize]
    }

    /// The program counter.
    pub fn get_pc(&self) -> (r: u16)
        ensures
            r == self@.pc,
    {
        self.pc
    }

    /// The stack pointer.
    pub fn get_sp(&self) -> (r: u8)
        ensures
            r == self@.sp,
    {
        self.sp
    }

    /// The index register.
    pub fn get_i(&self) -> (r: u16)
        ensures
            r == self@.i,
    {
        self.i
    }

    /// One call-stack slot.
    pub fn get_stack_entry(&self, index: u8) -> (r: u16)
        requires
            self.wf(),
            index < 16,
        ensures
            r == self@.stack[index as int],
    {
        self.stack[index as usize]
    }

    /// Draws an `height`-row sprite from memory at the index register onto
    /// the screen at `(x, y)`, wrapping each row modulo the screen height,
    /// and leaves the OR of the per-row collision flags in the flag
    /// register.
    fn draw_sprite(&mut self, bus: &mut Bus, x: u8, y: u8, height: u8)
        requires
            old(self).wf(),
            old(bus).wf(),
        ensures
            final(self).wf(),
            final(bus).wf(),
            ({
                let drawn = draw_rec(old(bus)@.screen, old(bus)@.mem, old(self)@.i, x, y, height as int);
                &&& final(bus)@ == (BusState { screen: drawn.0, ..old(bus)@ })
                &&& final(self)@ == (CpuState {
                    v: old(self)@.v.update(15, if drawn.1 { 1u8 } else { 0u8 }),
                    ..old(self)@
                })
            }),
    {
        let ghost c0 = self@;
        let ghost b0 = bus@;
        let mut should_set_vf = false;
        let mut sprite_y: u8 = 0;
        while sprite_y < height
            invariant
                self@ == c0,
                self.wf(),
                bus.wf(),
                sprite_y <= height,
                ({
                    let drawn = draw_rec(b0.screen, b0.mem, c0.i, x, y, sprite_y as int);
                    &&& bus@ == (BusState { screen: drawn.0, ..b0 })
                    &&& should_set_vf == drawn.1
                }),
            decreases height - sprite_y,
        {
            let addr = self.i.wrapping_add(sprite_y as u16);
            proof {
                lemma_wrapping_agree(self.i, sprite_y as u16, 0, 0);
            }
            let b = bus.memory_read_byte(addr);
            let yr = ((y as u16 + sprite_y as u16) % 32) as u8;
            if bus.draw_byte(b, x, yr) {
                should_set_vf = true;
            }
            sprite_y = sprite_y + 1;
        }
        if should_set_vf {
            self.write_flag_reg(1);
        } else {
            self.write_flag_reg(0);
        }
    }

    /// Performs exactly one fetch-decode-execute cycle against `bus`, or
    /// reports the fault that stops execution, leaving the whole machine
    /// state unchanged. The contract relates the old and the new machine
    /// state through `spec_step`, quantifying over the one random byte and
    /// the one timer reading a cycle may consume.
    pub fn run_instruction(&mut self, bus: &mut Bus) -> (r: Result<(), Fault>)
        requires
            old(self).wf(),
            old(bus).wf(),
        ensures
            final(self).wf(),
            final(bus).wf(),
            match r {
                Ok(()) => exists|rb: u8, tv: u8|
                    rb < 0xff && tv <= old(bus)@.timer && #[trigger] spec_step(
                        old(self)@,
                        old(bus)@,
                        rb,
                        tv,
                    ) == Ok::<(CpuState, BusState), Fault>((final(self)@, final(bus)@)),
                Err(f) => final(self)@ == old(self)@ && final(bus)@ == old(bus)@ && spec_step(
                    old(self)@,
                    old(bus)@,
                    0,
                    0,
                ) == Err::<(CpuState, BusState), Fault>(f),
            },
    {
        let ghost c0 = self@;
        let ghost b0 = bus@;

        let lo_byte = bus.memory_read_byte(self.pc) as u16;
        let pc1 = self.pc.wrapping_add(1);
        proof {
            lemma_wrapping_agree(c0.pc, 1, 0, 0);
        }
        let hi = bus.memory_read_byte(pc1) as u16;
        let instruction: u16 = (lo_byte << 8) | hi;
        proof {
            assert(instruction == spec_fetch(c0, b0));
            lemma_fields(instruction);
        }

        let nnn: u16 = instruction & 0xfff;
        let n: u8 = (instruction & 0xf) as u8;
        let x: u8 = ((instruction & 0x0f00) >> 8) as u8;
        let y: u8 = ((instruction & 0x00f0) >> 4) as u8;
        let kk: u8 = (instruction & 0xff) as u8;

        match (instruction >> 12) & 0xf {
            0x0 => {
                match instruction & 0xfff {
                    // Clear the display.
                    0x0e0 => {
                        bus.clear_screen();
                        self.advance_pc(2);
                    },
                    // Return from a subroutine.
                    0x0ee => {
                        if self.sp == 0 {
                            let f = Fault::StackUnderflow { pc: self.pc, instruction };
                            proof {
                                assert(spec_step(c0, b0, 0, 0) == Err::<
                                    (CpuState, BusState),
                                    Fault,
                                >(f));
                            }
                            return Err(f);
                        }
                        self.pc = self.stack[self.sp as usize];
                        self.sp = self.sp - 1;
                    },
                    // Legacy machine-code call: an unconditional jump.
                    _ => {
                        self.pc = nnn;
                    },
                }
            },
            // Jump to nnn.
            0x1 => {
                self.pc = nnn;
            },
            // Call the subroutine at nnn.
            0x2 => {
                if self.sp == 15 {
                    let f = Fault::StackOverflow { pc: self.pc, instruction };
                    proof {
                        assert(spec_step(c0, b0, 0, 0) == Err::<(CpuState, BusState), Fault>(f));
                    }
                    return Err(f);
                }
                self.sp = self.sp + 1;
                let ret = self.pc.wrapping_add(2);
                proof {
                    lemma_wrapping_agree(c0.pc, 2, 0, 0);
                }
                self.stack[self.sp as usize] = ret;
                self.pc = nnn;
            },
            // Skip the next instruction if Vx == kk.
            0x3 => {
                if self.read_reg(x) == kk {
                    self.advance_pc(4);
                } else {
                    self.advance_pc(2);
                }
            },
            // Skip the next instruction if Vx != kk.
            0x4 => {
                if self.read_reg(x) != kk {
                    self.advance_pc(4);
                } else {
                    self.advance_pc(2);
                }
            },
            // Skip the next instruction if Vx == Vy.
            0x5 => {
                if n != 0 {
                    let f = Fault::UnknownInstruction { pc: self.pc, instruction };
                    proof {
                        assert(spec_step(c0, b0, 0, 0) == Err::<(CpuState, BusState), Fault>(f));
                    }
                    return Err(f);
                }
                if self.read_reg(x) == self.read_reg(y) {
                    self.advance_pc(4);
                } else {
                    self.advance_pc(2);
                }
            },
            // Vx = kk.
            0x6 => {
                self.write_reg(x, kk);
                self.advance_pc(2);
            },
            // Vx = Vx + kk, wrapping.
            0x7 => {
                let value = self.read_reg(x).wrapping_add(kk);
                proof {
                    lemma_wrapping_agree(0, 0, c0.v[x as int], kk);
                }
                self.write_reg(x, value);
                self.advance_pc(2);
            },
            // The arithmetic/logic family.
            0x8 => {
                let vx = self.read_reg(x);
                let vy = self.read_reg(y);
                proof {
                    lemma_wrapping_agree(0, 0, vx, vy);
                    lemma_wrapping_agree(0, 0, vy, vx);
                }
                match instruction & 0xf {
                    // Vx = Vy.
                    0x0 => {
                        self.write_reg(x, vy);
                    },
                    // Vx = Vx | Vy.
                    0x1 => {
                        self.write_reg(x, vx | vy);
                    },
                    // Vx = Vx & Vy.
                    0x2 => {
                        self.write_reg(x, vx & vy);
                    },
                    // Vx = Vx ^ Vy.
                    0x3 => {
                        self.write_reg(x, vx ^ vy);
                    },
                    // Vx = Vx + Vy, VF = carry.
                    0x4 => {
                        let value = vx.wrapping_add(vy);
                        self.write_reg(x, value);
                        self.write_flag_reg(
                            if (vx as u16) + (vy as u16) > 0xff {
                                1
                            } else {
                                0
                            },
                        );
                    },
                    // Vx = Vx - Vy, VF = NOT borrow.
                    0x5 => {
                        let value = vx.wrapping_sub(vy);
                        self.write_reg(x, value);
                        self.write_flag_reg(if vx >= vy { 1 } else { 0 });
                    },
                    // VF = lsb of Vx, then Vx = Vx >> 1.
                    0x6 => {
                        self.write_flag_reg(vx & 1);
                        let cur = self.read_reg(x);
                        self.write_reg(x, cur >> 1u8);
                    },
                    // Vx = Vy - Vx, VF = NOT borrow.
                    0x7 => {
                        let value = vy.wrapping_sub(vx);
                        self.write_flag_reg(if vy > vx { 1 } else { 0 });
                        self.write_reg(x, value);
                    },
                    // VF = msb of Vx, then Vx = Vx << 1.
                    0xE => {
                        self.write_flag_reg(
                            if (vx & 0x80) >> 7u8 == 1 {
                                1
                            } else {
                                0
                            },
                        );
                        let cur = self.read_reg(x);
                        self.write_reg(x, cur << 1u8);
                    },
                    _ => {
                        let f = Fault::UnknownInstruction { pc: self.pc, instruction };
                        proof {
                            assert(spec_step(c0, b0, 0, 0) == Err::<(CpuState, BusState), Fault>(
                                f,
                            ));
                        }
                        return Err(f);
                    },
                }
                self.advance_pc(2);
            },
            // Skip the next instruction if Vx != Vy.
            0x9 => {
                if n != 0 {
                    let f = Fault::UnknownInstruction { pc: self.pc, instruction };
                    proof {
                        assert(spec_step(c0, b0, 0, 0) == Err::<(CpuState, BusState), Fault>(f));
                    }
                    return Err(f);
                }
                if self.read_reg(x) != self.read_reg(y) {
                    self.advance_pc(4);
                } else {
                    self.advance_pc(2);
                }
            },
            // I = nnn.
            0xA => {
                self.i = nnn;
                self.advance_pc(2);
            },
            // Jump to nnn + V0.
            0xB => {
                self.pc = nnn + self.read_reg(0) as u16;
            },
            // Vx = random byte & kk.
            0xC => {
                let random_value: u8 = random_below_max(&mut self.rng);
                self.write_reg(x, random_value & kk);
                self.advance_pc(2);
                proof {
                    assert(spec_step(c0, b0, random_value, 0) == Ok::<
                        (CpuState, BusState),
                        Fault,
                    >((self@, bus@)));
                }
                return Ok(());
            },
            // Draw an n-row sprite at (Vx, Vy), VF = collision.
            0xD => {
                let vx = self.read_reg(x);
                let vy = self.read_reg(y);
                self.draw_sprite(bus, vx, vy, n);
                self.advance_pc(2);
            },
            // The key-skip family.
            0xE => {
                if kk == 0x9e {
                    let key = self.read_reg(x);
                    if bus.is_key_pressed(key) {
                        self.advance_pc(4);
                    } else {
                        self.advance_pc(2);
                    }
                } else if kk == 0xa1 {
                    let key = self.read_reg(x);
                    if !bus.is_key_pressed(key) {
                        self.advance_pc(4);
                    } else {
                        self.advance_pc(2);
                    }
                } else {
                    let f = Fault::UnknownInstruction { pc: self.pc, instruction };
                    proof {
                        assert(spec_step(c0, b0, 0, 0) == Err::<(CpuState, BusState), Fault>(f));
                    }
                    return Err(f);
                }
            },
            // The timer, key, index and memory family.
            _ => {
                if kk == 0x07 {
                    let tv = bus.get_delay_timer();
                    self.write_reg(x, tv);
                    self.advance_pc(2);
                    proof {
                        assert(spec_step(c0, b0, 0, tv) == Ok::<(CpuState, BusState), Fault>(
                            (self@, bus@),
                        ));
                    }
                    return Ok(());
                } else if kk == 0x0a {
                    // Poll for a key: the program counter advances either
                    // way, so the program re-polls once per cycle.
                    if let Some(val) = bus.get_key_pressed() {
                        self.write_reg(x, val);
                    }
                    self.advance_pc(2);
                } else if kk == 0x15 {
                    let vx = self.read_reg(x);
                    bus.set_delay_timer(vx);
                    self.advance_pc(2);
                } else if kk == 0x18 {
                    // The sound timer is a no-op that still advances.
                    self.advance_pc(2);
                } else if kk == 0x1e {
                    let vx = self.read_reg(x);
                    proof {
                        lemma_wrapping_agree(c0.i, vx as u16, 0, 0);
                    }
                    self.i = self.i.wrapping_add(vx as u16);
                    self.advance_pc(2);
                } else if kk == 0x29 {
                    self.i = self.read_reg(x) as u16 * 5;
                    self.advance_pc(2);
                } else if kk == 0x33 {
                    let val = self.read_reg(x);
                    proof {
                        lemma_wrapping_agree(c0.i, 1, 0, 0);
                        lemma_wrapping_agree(c0.i, 2, 0, 0);
                    }
                    bus.memory_write_byte(self.i, val / 100);
                    bus.memory_write_byte(self.i.wrapping_add(1), (val % 100) / 10);
                    bus.memory_write_byte(self.i.wrapping_add(2), val % 10);
                    self.advance_pc(2);
                } else if kk == 0x55 {
                    let mut index: u8 = 0;
                    while index <= x
                        invariant
                            self@ == c0,
                            self.wf(),
                            bus.wf(),
                            index <= x + 1,
                            x < 16,
                            bus@ == (BusState {
                                mem: store_regs(b0.mem, c0.v, c0.i, index as int),
                                ..b0
                            }),
                        decreases x + 1 - index,
                    {
                        proof {
                            lemma_wrapping_agree(c0.i, index as u16, 0, 0);
                        }
                        let val = self.read_reg(index);
                        bus.memory_write_byte(self.i.wrapping_add(index as u16), val);
                        index = index + 1;
                    }
                    proof {
                        lemma_wrapping_agree(c0.i, (x + 1) as u16, 0, 0);
                    }
                    self.i = self.i.wrapping_add(x as u16 + 1);
                    self.advance_pc(2);
                } else if kk == 0x65 {
                    let mut index: u8 = 0;
                    while index <= x
                        invariant
                            self@ == (CpuState {
                                v: load_regs(b0.mem, c0.v, c0.i, index as int),
                                ..c0
                            }),
                            self.wf(),
                            bus.wf(),
                            bus@ == b0,
                            index <= x + 1,
                            x < 16,
                        decreases x + 1 - index,
                    {
                        proof {
                            lemma_wrapping_agree(c0.i, index as u16, 0, 0);
                        }
                        let val = bus.memory_read_byte(self.i.wrapping_add(index as u16));
                        self.write_reg(index, val);
                        index = index + 1;
                    }
                    self.advance_pc(2);
                } else {
                    let f = Fault::UnknownInstruction { pc: self.pc, instruction };
                    proof {
                        assert(spec_step(c0, b0, 0, 0) == Err::<(CpuState, BusState), Fault>(f));
                    }
                    return Err(f);
                }
            },
        }
        proof {
            assert(spec_step(c0, b0, 0, 0) == Ok::<(CpuState, BusState), Fault>((self@, bus@)));
        }
        Ok(())
    }

    /// Advances the program counter by `d` bytes, wrapping.
    fn advance_pc(&mut self, d: u16)
        requires
            old(self).wf(),
        ensures
            final(self).wf(),
            final(self)@ == adv(old(self)@, d),
    {
        proof {
            lemma_wrapping_agree(old(self)@.pc, d, 0, 0);
        }
        self.pc = self.pc.wrapping_add(d);
    }
}

} // verus!
