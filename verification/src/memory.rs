use vstd::prelude::*;
use crate::bits::lemma_mask12;

verus! {

/// Number of addressable bytes. Every access masks its address to twelve
/// bits, so out-of-range addresses wrap rather than fault.
pub const SIZE: usize = 4096;

/// The last address of the built-in font plus one: sixteen glyphs of five
/// bytes each stand at addresses 0 through 79.
pub const FONT_BYTES: usize = 80;

/// The built-in font: one five-byte glyph per hex digit, 0 through F.
pub open spec fn font_table() -> Seq<u8> {
    seq![0xf0u8, 0x90, 0x90, 0x90, 0xf0]
        + seq![0x20u8, 0x60, 0x20, 0x20, 0x70]
        + seq![0xf0u8, 0x10, 0xf0, 0x80, 0xf0]
        + seq![0xf0u8, 0x10, 0xf0, 0x10, 0xf0]
        + seq![0x90u8, 0x90, 0xf0, 0x10, 0x10]
        + seq![0xf0u8, 0x80, 0xf0, 0x10, 0xf0]
        + seq![0xf0u8, 0x80, 0xf0, 0x90, 0xf0]
        + seq![0xf0u8, 0x10, 0x20, 0x40, 0x40]
        + seq![0xf0u8, 0x90, 0xf0, 0x90, 0xf0]
        + seq![0xf0u8, 0x90, 0xf0, 0x10, 0xf0]
        + seq![0xf0u8, 0x90, 0xf0, 0x90, 0x90]
        + seq![0xe0u8, 0x90, 0xe0, 0x90, 0xe0]
        + seq![0xf0u8, 0x80, 0x80, 0x80, 0xf0]
        + seq![0xe0u8, 0x90, 0x90, 0x90, 0xe0]
        + seq![0xf0u8, 0x80, 0xf0, 0x80, 0xf0]
        + seq![0xf0u8, 0x80, 0xf0, 0x80, 0x80]
}

/// What a read at `addr` observes: the byte at the 12-bit-masked address.
pub open spec fn mem_read(mem: Seq<u8>, addr: u16) -> u8 {
    mem[(addr & 0xfff) as int]
}

/// The store after a write at `addr`: the byte at the 12-bit-masked address
/// is replaced, every other byte is kept.
pub open spec fn mem_write(mem: Seq<u8>, addr: u16, value: u8) -> Seq<u8> {
    mem.update((addr & 0xfff) as int, value)
}

/// The flat byte-addressable store. Its size is fixed for the machine's
/// lifetime; the font is written once, during construction.
pub struct Memory {
    ram: Vec<u8>,
}

impl View for Memory {
    type V = Seq<u8>;

    closed spec fn view(&self) -> Seq<u8> {
        self.ram@
    }
}

/// Appends one five-byte glyph to the store under construction.
fn push_glyph(ram: &mut Vec<u8>, b0: u8, b1: u8, b2: u8, b3: u8, b4: u8)
    ensures
        final(ram)@ == old(ram)@ + seq![b0, b1, b2, b3, b4],
{
    ram.push(b0);
    ram.push(b1);
    ram.push(b2);
    ram.push(b3);
    ram.push(b4);
    proof {
        assert(ram@ =~= old(ram)@ + seq![b0, b1, b2, b3, b4]);
    }
}

impl Memory {
    /// The store always holds exactly `SIZE` bytes.
    pub open spec fn wf(&self) -> bool {
        self@.len() == SIZE
    }

    /// Creates the store: the font at addresses 0 through 79, zero bytes
    /// everywhere above.
    pub fn new() -> (r: Memory)
        ensures
            r.wf(),
            forall|i: int| 0 <= i < FONT_BYTES ==> r@[i] == font_table()[i],
            forall|i: int| FONT_BYTES <= i < SIZE ==> r@[i] == 0,
    {
        let mut ram: Vec<u8> = Vec::new();
        push_glyph(&mut ram, 0xf0, 0x90, 0x90, 0x90, 0xf0);
        push_glyph(&mut ram, 0x20, 0x60, 0x20, 0x20, 0x70);
        push_glyph(&mut ram, 0xf0, 0x10, 0xf0, 0x80, 0xf0);
        push_glyph(&mut ram, 0xf0, 0x10, 0xf0, 0x10, 0xf0);
        push_glyph(&mut ram, 0x90, 0x90, 0xf0, 0x10, 0x10);
        push_glyph(&mut ram, 0xf0, 0x80, 0xf0, 0x10, 0xf0);
        push_glyph(&mut ram, 0xf0, 0x80, 0xf0, 0x90, 0xf0);
        push_glyph(&mut ram, 0xf0, 0x10, 0x20, 0x40, 0x40);
        push_glyph(&mut ram, 0xf0, 0x90, 0xf0, 0x90, 0xf0);
        push_glyph(&mut ram, 0xf0, 0x90, 0xf0, 0x10, 0xf0);
        push_glyph(&mut ram, 0xf0, 0x90, 0xf0, 0x90, 0x90);
        push_glyph(&mut ram, 0xe0, 0x90, 0xe0, 0x90, 0xe0);
        push_glyph(&mut ram, 0xf0, 0x80, 0x80, 0x80, 0xf0);
        push_glyph(&mut ram, 0xe0, 0x90, 0x90, 0x90, 0xe0);
        push_glyph(&mut ram, 0xf0, 0x80, 0xf0, 0x80, 0xf0);
        push_glyph(&mut ram, 0xf0, 0x80, 0xf0, 0x80, 0x80);
        proof {
            assert(ram@ =~= font_table());
        }
        while ram.len() < SIZE
            invariant
                FONT_BYTES <= ram@.len() <= SIZE,
                forall|i: int| 0 <= i < FONT_BYTES ==> ram@[i] == font_table()[i],
                forall|i: int| FONT_BYTES <= i < ram@.len() ==> ram@[i] == 0,
            decreases SIZE - ram@.len(),
        {
            ram.push(0);
        }
        Memory { ram }
    }

    /// Reads the byte at the 12-bit-masked address.
    pub fn read_byte(&self, address: u16) -> (r: u8)
        requires
            self.wf(),
        ensures
            r == mem_read(self@, address),
    {
        proof {
            lemma_mask12(address);
        }
        self.ram[(address & 0xfff) as usize]
    }

    /// Replaces the byte at the 12-bit-masked address.
    pub fn write_byte(&mut self, address: u16, value: u8)
        requires
            old(self).wf(),
        ensures
            final(self).wf(),
            final(self)@ == mem_write(old(self)@, address, value),
    {
        proof {
            lemma_mask12(address);
        }
        self.ram[(address & 0xfff) as usize] = value;
    }
}

} // verus!
