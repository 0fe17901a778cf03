use vstd::prelude::*;
use crate::bits::lemma_mask12;
use crate::bus::{Bus, BusState};
use crate::cpu::{Cpu, CpuState, Fault, spec_step, PROGRAM_START};
use crate::display::zero_screen;
use crate::memory::{font_table, FONT_BYTES, SIZE};

verus! {

/// Why a ROM is rejected before anything is copied into memory.
#[derive(Clone, Copy, Debug, PartialEq, Eq, Structural)]
pub enum RomError {
    /// The ROM holds no bytes at all.
    Empty,
    /// The ROM does not fit between the program start and the end of
    /// memory.
    TooLarge,
}

/// The memory after a ROM is copied in at the program start: the ROM's
/// bytes from the program start on, every other byte kept.
pub open spec fn loaded_mem(mem: Seq<u8>, data: Seq<u8>) -> Seq<u8> {
    Seq::new(
        mem.len(),
        |a: int|
            if PROGRAM_START <= a < PROGRAM_START + data.len() {
                data[a - PROGRAM_START]
            } else {
                mem[a]
            },
    )
}

/// The top-level machine: a processor and the bus it drives. It exposes
/// ROM loading and single-step execution to the host loop.
pub struct Chip8 {
    pub bus: Bus,
    pub cpu: Cpu,
}

impl Chip8 {
    /// Both halves of the machine keep their fixed shapes.
    pub open spec fn wf(&self) -> bool {
        self.bus.wf() && self.cpu.wf()
    }

    /// Creates a machine in its start state: font in memory, dark screen,
    /// no key, timer at zero, registers and stack zeroed, program counter
    /// at the program start.
    pub fn new() -> (r: Chip8)
        ensures
            r.wf(),
            r.cpu@.pc == PROGRAM_START,
            r.cpu@.i == 0,
            r.cpu@.sp == 0,
            forall|j: int| 0 <= j < 16 ==> r.cpu@.v[j] == 0,
            forall|j: int| 0 <= j < 16 ==> r.cpu@.stack[j] == 0,
            r.bus@.timer == 0,
            r.bus@.key is None,
            r.bus@.screen == zero_screen(),
            forall|i: int| 0 <= i < FONT_BYTES ==> r.bus@.mem[i] == font_table()[i],
            forall|i: int| FONT_BYTES <= i < SIZE ==> r.bus@.mem[i] == 0,
    {
        Chip8 { bus: Bus::new(), cpu: Cpu::new() }
    }

    /// Copies a ROM into memory starting at the program start. A ROM that
    /// is empty, or that does not fit in the program space, is rejected
    /// before anything is copied, and the machine is left unchanged.
    pub fn load_rom(&mut self, data: &Vec<u8>) -> (r: Result<(), RomError>)
        requires
            old(self).wf(),
        ensures
            final(self).wf(),
            final(self).cpu@ == old(self).cpu@,
            data@.len() > SIZE - PROGRAM_START ==> r == Err::<(), RomError>(RomError::TooLarge)
                && final(self).bus@ == old(self).bus@,
            data@.len() == 0 ==> r == Err::<(), RomError>(RomError::Empty) && final(self).bus@
                == old(self).bus@,
            0 < data@.len() <= SIZE - PROGRAM_START ==> r == Ok::<(), RomError>(())
                && final(self).bus@ == (BusState {
                    mem: loaded_mem(old(self).bus@.mem, data@),
                    ..old(self).bus@
                }),
    {
        if data.len() > self.bus.memory_get_size() - (PROGRAM_START as usize) {
            return Err(RomError::TooLarge);
        }
        if data.len() == 0 {
            return Err(RomError::Empty);
        }
        let ghost b0 = self.bus@;
        let mut index: usize = 0;
        while index < data.len()
            invariant
                self.bus.wf(),
                self.cpu == old(self).cpu,
                index <= data@.len(),
                0 < data@.len() <= SIZE - PROGRAM_START,
                self.bus@.screen == b0.screen,
                self.bus@.key == b0.key,
                self.bus@.timer == b0.timer,
                self.bus@.mem.len() == b0.mem.len(),
                b0.mem.len() == SIZE,
                forall|a: int|
                    PROGRAM_START <= a < PROGRAM_START + index ==> self.bus@.mem[a] == data@[a
                        - PROGRAM_START],
                forall|a: int|
                    (0 <= a < PROGRAM_START || PROGRAM_START + index <= a < SIZE)
                        ==> self.bus@.mem[a] == b0.mem[a],
            decreases data@.len() - index,
        {
            let addr: u16 = PROGRAM_START + index as u16;
            proof {
                lemma_mask12(addr);
            }
            self.bus.memory_write_byte(addr, data[index]);
            index = index + 1;
        }
        proof {
            assert(self.bus@.mem =~= loaded_mem(b0.mem, data@));
            assert(self.bus@ =~= (BusState { mem: loaded_mem(b0.mem, data@), ..b0 }));
        }
        Ok(())
    }

    /// Performs one fetch-decode-execute cycle, or reports the fault that
    /// stops execution, leaving the machine unchanged.
    pub fn run_instruction(&mut self) -> (r: Result<(), Fault>)
        requires
            old(self).wf(),
        ensures
            final(self).wf(),
            match r {
                Ok(()) => exists|rb: u8, tv: u8|
                    rb < 0xff && tv <= old(self).bus@.timer && #[trigger] spec_step(
                        old(self).cpu@,
                        old(self).bus@,
                        rb,
                        tv,
                    ) == Ok::<(CpuState, BusState), Fault>((final(self).cpu@, final(self).bus@)),
                Err(f) => final(self).cpu@ == old(self).cpu@ && final(self).bus@ == old(self).bus@
                    && spec_step(old(self).cpu@, old(self).bus@, 0, 0) == Err::<
                    (CpuState, BusState),
                    Fault,
                >(f),
            },
    {
        self.cpu.run_instruction(&mut self.bus)
    }

    /// A read-only view of the framebuffer for the host renderer.
    pub fn get_display_buffer(&self) -> (r: &[u8])
        ensures
            r@ == self.bus@.screen,
    {
        self.bus.get_display_buffer()
    }

    /// Replaces the key latch wholesale.
    pub fn set_key_pressed(&mut self, key: Option<u8>)
        requires
            old(self).wf(),
        ensures
            final(self).wf(),
            final(self).cpu@ == old(self).cpu@,
            final(self).bus@ == (BusState { key: key, ..old(self).bus@ }),
    {
        self.bus.set_key_pressed(key);
    }
}

} // verus!
