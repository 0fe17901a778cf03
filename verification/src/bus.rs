use vstd::prelude::*;
use std::time::{Duration, Instant};
use crate::display::{Display, blit_result, blit_collides, zero_screen, CELLS};
use crate::keyboard::Keyboard;
use crate::memory::{Memory, mem_read, mem_write, font_table, SIZE, FONT_BYTES};

verus! {

/// Declares std::time::Instant, an opaque reading of the monotonic clock,
/// so that the bus can hold the moment its timer was last set.
#[verifier::external_type_specification]
#[verifier::external_body]
pub struct ExInstant(Instant);

/// Relies on std::time::Instant::now: a reading of the monotonic clock.
/// Nothing can be promised of a clock value.
#[verifier::external_body]
fn now_instant() -> Instant {
    Instant::now()
}

/// Relies on std::time::Instant::elapsed: the span of time since `start`,
/// by the monotonic clock. Nothing can be promised of a clock reading.
#[verifier::external_body]
fn elapsed_since(start: &Instant) -> Duration {
    start.elapsed()
}

/// Relies on std::time::Duration::as_millis: the span in whole
/// milliseconds, here truncated to 64 bits.
#[verifier::external_body]
fn duration_millis(d: Duration) -> u64 {
    d.as_millis() as u64
}

/// The countdown value left `elapsed_ms` milliseconds after the timer was
/// set to `initial`: one tick is lost every 16 ms, and the value floors at
/// zero.
pub open spec fn spec_timer_remaining(initial: u8, elapsed_ms: u64) -> u8 {
    if elapsed_ms / 16 >= initial {
        0u8
    } else {
        (initial - elapsed_ms / 16) as u8
    }
}

/// Computes the countdown value left `elapsed_ms` milliseconds after the
/// timer was set to `initial`.
pub fn timer_remaining(initial: u8, elapsed_ms: u64) -> (r: u8)
    ensures
        r == spec_timer_remaining(initial, elapsed_ms),
        r <= initial,
{
    let ticks: u64 = elapsed_ms / 16;
    if ticks >= initial as u64 {
        0
    } else {
        initial - ticks as u8
    }
}

/// The bus as the interpreter sees it: the memory bytes, the framebuffer
/// cells, the latched key, and the magnitude the timer was last set to.
#[verifier::ext_equal]
pub ghost struct BusState {
    pub mem: Seq<u8>,
    pub screen: Seq<u8>,
    pub key: Option<u8>,
    pub timer: u8,
}

/// Composes the memory, framebuffer, key latch and timer behind one
/// interface; it owns no independent state beyond them.
pub struct Bus {
    display: Display,
    keyboard: Keyboard,
    memory: Memory,
    delay_timer: u8,
    delay_timer_set_time: Instant,
}

impl View for Bus {
    type V = BusState;

    closed spec fn view(&self) -> BusState {
        BusState {
            mem: self.memory@,
            screen: self.display@,
            key: self.keyboard@,
            timer: self.delay_timer,
        }
    }
}

impl Bus {
    /// The memory and the framebuffer keep their fixed sizes, and every
    /// framebuffer cell is 0 or 1.
    pub open spec fn wf(&self) -> bool {
        &&& self@.mem.len() == SIZE
        &&& self@.screen.len() == CELLS
        &&& forall|i: int| 0 <= i < CELLS ==> self@.screen[i] <= 1
    }

    /// Creates the bus: font in memory, dark screen, no key, timer at zero.
    pub fn new() -> (r: Bus)
        ensures
            r.wf(),
            r@.timer == 0,
            r@.key is None,
            r@.screen == zero_screen(),
            forall|i: int| 0 <= i < FONT_BYTES ==> r@.mem[i] == font_table()[i],
            forall|i: int| FONT_BYTES <= i < SIZE ==> r@.mem[i] == 0,
    {
        Bus {
            memory: Memory::new(),
            keyboard: Keyboard::new(),
            display: Display::new(),
            delay_timer: 0,
            delay_timer_set_time: now_instant(),
        }
    }

    /// Reads the memory byte at the 12-bit-masked address.
    pub fn memory_read_byte(&self, address: u16) -> (r: u8)
        requires
            self.wf(),
        ensures
            r == mem_read(self@.mem, address),
    {
        self.memory.read_byte(address)
    }

    /// Replaces the memory byte at the 12-bit-masked address.
    pub fn memory_write_byte(&mut self, address: u16, value: u8)
        requires
            old(self).wf(),
        ensures
            final(self).wf(),
            final(self)@ == (BusState { mem: mem_write(old(self)@.mem, address, value), ..old(self)@ }),
    {
        self.memory.write_byte(address, value)
    }

    /// The number of addressable memory bytes.
    pub fn memory_get_size(&self) -> (r: usize)
        ensures
            r == SIZE,
    {
        SIZE
    }

    /// XORs one sprite byte into row `y` starting at column `x`, and
    /// reports whether any lit cell was erased.
    pub fn draw_byte(&mut self, byte: u8, x: u8, y: u8) -> (r: bool)
        requires
            old(self).wf(),
            y < 32,
        ensures
            final(self).wf(),
            final(self)@ == (BusState { screen: blit_result(old(self)@.screen, byte, x, y), ..old(self)@ }),
            r == blit_collides(old(self)@.screen, byte, x, y),
    {
        self.display.draw_byte(byte, x, y)
    }

    /// Darkens every framebuffer cell.
    pub fn clear_screen(&mut self)
        requires
            old(self).wf(),
        ensures
            final(self).wf(),
            final(self)@ == (BusState { screen: zero_screen(), ..old(self)@ }),
    {
        self.display.clear()
    }

    /// Replaces the key latch wholesale.
    pub fn set_key_pressed(&mut self, key: Option<u8>)
        requires
            old(self).wf(),
        ensures
            final(self).wf(),
            final(self)@ == (BusState { key: key, ..old(self)@ }),
    {
        self.keyboard.set_key_pressed(key)
    }

    /// True exactly when the latch holds `key_code`.
    pub fn is_key_pressed(&self, key_code: u8) -> (r: bool)
        ensures
            r == (self@.key == Some(key_code)),
    {
        self.keyboard.is_key_pressed(key_code)
    }

    /// The latched key, without clearing it.
    pub fn get_key_pressed(&mut self) -> (r: Option<u8>)
        requires
            old(self).wf(),
        ensures
            final(self).wf(),
            final(self)@ == old(self)@,
            r == old(self)@.key,
    {
        self.keyboard.get_key_pressed()
    }

    /// Sets the countdown magnitude and captures the moment of the call as
    /// the instant the countdown starts from.
    pub fn set_delay_timer(&mut self, value: u8)
        requires
            old(self).wf(),
        ensures
            final(self).wf(),
            final(self)@ == (BusState { timer: value, ..old(self)@ }),
    {
        self.delay_timer_set_time = now_instant();
        self.delay_timer = value;
    }

    /// The countdown value derived from the elapsed wall-clock time: the
    /// set magnitude less one tick per 16 ms, floored at zero. No stored
    /// counter is mutated.
    pub fn get_delay_timer(&self) -> (r: u8)
        requires
            self.wf(),
        ensures
            r <= self@.timer,
            exists|ms: u64| r == spec_timer_remaining(self@.timer, ms),
    {
        let d = elapsed_since(&self.delay_timer_set_time);
        let ms = duration_millis(d);
        let r = timer_remaining(self.delay_timer, ms);
        proof {
            assert(r == spec_timer_remaining(self@.timer, ms));
        }
        r
    }

    /// A read-only view of the framebuffer for the host renderer.
    pub fn get_display_buffer(&self) -> (r: &[u8])
        ensures
            r@ == self@.screen,
    {
        self.display.get_display_buffer()
    }
}

} // verus!
