use vstd::prelude::*;
use vstd::arithmetic::div_mod::{lemma_mod_bound, lemma_mod_sub_multiples_vanish, lemma_small_mod};

verus! {

/// Pixels per framebuffer row.
pub const WIDTH: usize = 64;

/// Framebuffer rows.
pub const HEIGHT: usize = 32;

/// Cells of the framebuffer: one byte per pixel, row-major.
pub const CELLS: usize = 2048;

/// The `k`-th bit of a sprite byte, most significant first: the bit that
/// lands `k` columns to the right of the sprite's start.
pub open spec fn bit_of(b: u8, k: int) -> u8 {
    (b >> ((7 - k) as u8)) & 1
}

/// The cell that the `k`-th bit of a sprite byte drawn at `(x, y)` lands
/// on: each of the eight target columns wraps around the row on its own.
pub open spec fn blit_idx(x: u8, y: u8, k: int) -> int {
    y as int * 64 + (x as int + k) % 64
}

/// The screen after the first `k` bits of a sprite byte have been XORed in.
pub open spec fn blit_rec(s: Seq<u8>, b: u8, x: u8, y: u8, k: int) -> Seq<u8>
    decreases k,
{
    if k <= 0 {
        s
    } else {
        let prev = blit_rec(s, b, x, y, k - 1);
        let idx = blit_idx(x, y, k - 1);
        prev.update(idx, prev[idx] ^ bit_of(b, k - 1))
    }
}

/// Whether XORing in one of the first `k` bits of the sprite byte erased a
/// lit cell: the hardware's sprite-overlap signal.
pub open spec fn collide_rec(s: Seq<u8>, b: u8, x: u8, y: u8, k: int) -> bool
    decreases k,
{
    if k <= 0 {
        false
    } else {
        collide_rec(s, b, x, y, k - 1) || (blit_rec(s, b, x, y, k - 1)[blit_idx(x, y, k - 1)]
            == 1 && bit_of(b, k - 1) == 1)
    }
}

/// The screen after a whole sprite byte is drawn at `(x, y)`.
pub open spec fn blit_result(s: Seq<u8>, b: u8, x: u8, y: u8) -> Seq<u8> {
    blit_rec(s, b, x, y, 8)
}

/// Whether drawing the byte erases any lit cell.
pub open spec fn blit_collides(s: Seq<u8>, b: u8, x: u8, y: u8) -> bool {
    collide_rec(s, b, x, y, 8)
}

/// The cleared screen.
pub open spec fn zero_screen() -> Seq<u8> {
    Seq::new(CELLS as nat, |i: int| 0u8)
}

/// XOR keeps a cell in range when both operands are pixel values.
proof fn lemma_xor01(a: u8, b: u8)
    by (bit_vector)
    requires
        a <= 1,
        b <= 1,
    ensures
        a ^ b <= 1,
{
}

/// XOR with the same bit twice restores the cell it started from.
proof fn lemma_xor_cancel(a: u8, b: u8)
    by (bit_vector)
    ensures
        (a ^ b) ^ b == a,
        a == 0 && b == 1 ==> a ^ b == 1,
{
}

/// A non-zero byte has at least one bit set.
proof fn lemma_nonzero_bit(b: u8)
    by (bit_vector)
    ensures
        b != 0 ==> ((b >> 7u8) & 1 == 1 || (b >> 6u8) & 1 == 1 || (b >> 5u8) & 1 == 1 || (b
            >> 4u8) & 1 == 1 || (b >> 3u8) & 1 == 1 || (b >> 2u8) & 1 == 1 || (b >> 1u8) & 1 == 1
            || (b >> 0u8) & 1 == 1),
{
}

/// Two different bits of one sprite byte land on two different cells.
proof fn lemma_idx_distinct(x: u8, y: u8, j1: int, j2: int)
    requires
        0 <= j1 < j2 < 8,
    ensures
        blit_idx(x, y, j1) != blit_idx(x, y, j2),
{
    let a = x as int + j1;
    let d = j2 - j1;
    lemma_mod_bound(a, 64);
    let m = a % 64;
    lemma_add_mod_aux(a, d);
    if m + d < 64 {
        lemma_small_mod((m + d) as nat, 64);
    } else {
        lemma_mod_sub_multiples_vanish(m + d, 64);
        lemma_small_mod((m + d - 64) as nat, 64);
    }
}

/// Adding a small offset to a dividend adds it to the remainder, modulo 64.
proof fn lemma_add_mod_aux(a: int, d: int)
    requires
        0 <= a,
        0 <= d < 64,
    ensures
        (a + d) % 64 == (a % 64 + d) % 64,
{
    vstd::arithmetic::div_mod::lemma_add_mod_noop(a, d, 64);
    lemma_mod_bound(a, 64);
    lemma_small_mod(d as nat, 64);
}

/// Every target cell of a blit lies on the screen.
proof fn lemma_idx_bound(x: u8, y: u8, k: int)
    requires
        y < 32,
        0 <= k,
    ensures
        0 <= blit_idx(x, y, k) < 2048,
{
    lemma_mod_bound(x as int + k, 64);
}

/// What a blit does to each cell: a target cell is XORed with its sprite
/// bit, every other cell is kept, and a collision is reported exactly when
/// some lit target cell meets a set sprite bit.
pub proof fn lemma_blit_pointwise(s: Seq<u8>, b: u8, x: u8, y: u8, k: int)
    requires
        s.len() == 2048,
        y < 32,
        0 <= k <= 8,
    ensures
        blit_rec(s, b, x, y, k).len() == s.len(),
        forall|j: int|
            0 <= j < k ==> blit_rec(s, b, x, y, k)[#[trigger] blit_idx(x, y, j)] == s[blit_idx(
                x,
                y,
                j,
            )] ^ bit_of(b, j),
        forall|i: int|
            0 <= i < s.len() && (forall|j: int| 0 <= j < k ==> i != blit_idx(x, y, j))
                ==> #[trigger] blit_rec(s, b, x, y, k)[i] == s[i],
        collide_rec(s, b, x, y, k) <==> exists|j: int|
            0 <= j < k && s[#[trigger] blit_idx(x, y, j)] == 1 && bit_of(b, j) == 1,
    decreases k,
{
    if k > 0 {
        lemma_blit_pointwise(s, b, x, y, k - 1);
        lemma_idx_bound(x, y, k - 1);
        assert forall|j: int| 0 <= j < k - 1 implies #[trigger] blit_idx(x, y, j) != blit_idx(
            x,
            y,
            k - 1,
        ) by {
            lemma_idx_distinct(x, y, j, k - 1);
        }
        assert(blit_rec(s, b, x, y, k - 1)[blit_idx(x, y, k - 1)] == s[blit_idx(x, y, k - 1)]);
        if collide_rec(s, b, x, y, k) {
            if !collide_rec(s, b, x, y, k - 1) {
                assert(s[blit_idx(x, y, k - 1)] == 1 && bit_of(b, k - 1) == 1);
            }
        }
        if exists|j: int| 0 <= j < k && s[#[trigger] blit_idx(x, y, j)] == 1 && bit_of(b, j) == 1 {
            let j = choose|j: int|
                0 <= j < k && s[#[trigger] blit_idx(x, y, j)] == 1 && bit_of(b, j) == 1;
            if j < k - 1 {
                assert(collide_rec(s, b, x, y, k - 1));
            }
            assert(collide_rec(s, b, x, y, k));
        }
    }
}

/// Drawing one sprite byte twice at the same position restores the screen,
/// and when the byte is non-zero and the cells under its set bits start
/// dark, the second draw reports a collision.
pub proof fn lemma_double_blit(s: Seq<u8>, b: u8, x: u8, y: u8)
    requires
        s.len() == 2048,
        y < 32,
    ensures
        blit_result(blit_result(s, b, x, y), b, x, y) == s,
        b != 0 && (forall|k: int|
            0 <= k < 8 && bit_of(b, k) == 1 ==> s[#[trigger] blit_idx(x, y, k)] == 0)
            ==> blit_collides(blit_result(s, b, x, y), b, x, y),
{
    let s1 = blit_result(s, b, x, y);
    lemma_blit_pointwise(s, b, x, y, 8);
    lemma_blit_pointwise(s1, b, x, y, 8);
    let s2 = blit_result(s1, b, x, y);
    assert forall|i: int| 0 <= i < 2048 implies s2[i] == s[i] by {
        if exists|j: int| 0 <= j < 8 && i == #[trigger] blit_idx(x, y, j) {
            let j = choose|j: int| 0 <= j < 8 && i == #[trigger] blit_idx(x, y, j);
            lemma_xor_cancel(s[i], bit_of(b, j));
        }
    }
    assert(s2 =~= s);
    if b != 0 && (forall|k: int|
        0 <= k < 8 && bit_of(b, k) == 1 ==> s[#[trigger] blit_idx(x, y, k)] == 0) {
        lemma_nonzero_bit(b);
        let j: int = if (b >> 7u8) & 1 == 1 {
            0
        } else if (b >> 6u8) & 1 == 1 {
            1
        } else if (b >> 5u8) & 1 == 1 {
            2
        } else if (b >> 4u8) & 1 == 1 {
            3
        } else if (b >> 3u8) & 1 == 1 {
            4
        } else if (b >> 2u8) & 1 == 1 {
            5
        } else if (b >> 1u8) & 1 == 1 {
            6
        } else {
            7
        };
        assert(bit_of(b, j) == 1);
        lemma_xor_cancel(s[blit_idx(x, y, j)], bit_of(b, j));
        assert(s1[blit_idx(x, y, j)] == 1);
    }
}

/// The monochrome framebuffer: a row-major grid of cells, each 0 or 1,
/// created dark and mutated only by XOR blitting or an explicit clear.
pub struct Display {
    screen: Vec<u8>,
}

impl View for Display {
    type V = Seq<u8>;

    closed spec fn view(&self) -> Seq<u8> {
        self.screen@
    }
}

impl Display {
    /// The grid always holds one byte per pixel, each 0 or 1.
    pub open spec fn wf(&self) -> bool {
        &&& self@.len() == CELLS
        &&& forall|i: int| 0 <= i < CELLS ==> self@[i] <= 1
    }

    /// Creates the framebuffer with every cell dark.
    pub fn new() -> (r: Display)
        ensures
            r.wf(),
            r@ == zero_screen(),
    {
        let mut screen: Vec<u8> = Vec::new();
        while screen.len() < CELLS
            invariant
                screen@.len() <= CELLS,
                forall|i: int| 0 <= i < screen@.len() ==> screen@[i] == 0,
            decreases CELLS - screen@.len(),
        {
            screen.push(0);
        }
        proof {
            assert(screen@ =~= zero_screen());
        }
        Display { screen }
    }

    /// The row-major cell index of the pixel at `(x, y)`.
    pub fn get_index_from_coords(x: usize, y: usize) -> (r: usize)
        requires
            x < WIDTH,
            y < HEIGHT,
        ensures
            r == y * 64 + x,
    {
        y * WIDTH + x
    }

    /// XORs the eight bits of `byte`, most significant first, into the row
    /// `y`, starting at column `x`; each target column wraps around the row
    /// on its own. The caller wraps `y`. Reports whether any lit cell was
    /// erased.
    pub fn draw_byte(&mut self, byte: u8, x: u8, y: u8) -> (collided: bool)
        requires
            old(self).wf(),
            y < 32,
        ensures
            final(self).wf(),
            final(self)@ == blit_result(old(self)@, byte, x, y),
            collided == blit_collides(old(self)@, byte, x, y),
    {
        let mut erased = false;
        let mut k: usize = 0;
        while k < 8
            invariant
                self.wf(),
                k <= 8,
                y < 32,
                self@ == blit_rec(old(self)@, byte, x, y, k as int),
                erased == collide_rec(old(self)@, byte, x, y, k as int),
            decreases 8 - k,
        {
            let sh: u8 = (7 - k) as u8;
            let bit: u8 = (byte >> sh) & 1;
            proof {
                crate::bits::lemma_bit_le(byte, sh);
                lemma_idx_bound(x, y, k as int);
            }
            let pos_x: usize = (x as usize + k) % WIDTH;
            let index: usize = y as usize * WIDTH + pos_x;
            let prev = self.screen[index];
            proof {
                lemma_xor01(prev, bit);
            }
            self.screen[index] = prev ^ bit;
            if prev == 1 && bit == 1 {
                erased = true;
            }
            k = k + 1;
        }
        erased
    }

    /// Darkens every cell, whatever the grid held before.
    pub fn clear(&mut self)
        requires
            old(self).wf(),
        ensures
            final(self).wf(),
            final(self)@ == zero_screen(),
    {
        let mut k: usize = 0;
        while k < CELLS
            invariant
                self@.len() == CELLS,
                k <= CELLS,
                forall|i: int| 0 <= i < k ==> self@[i] == 0,
            decreases CELLS - k,
        {
            self.screen[k] = 0;
            k = k + 1;
        }
        proof {
            assert(self.screen@ =~= zero_screen());
        }
    }

    /// A read-only view of the grid for the host renderer.
    pub fn get_display_buffer(&self) -> (r: &[u8])
        ensures
            r@ == self@,
    {
        self.screen.as_slice()
    }
}

} // verus!
