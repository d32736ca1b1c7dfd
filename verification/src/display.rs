//! The display and how sprites are drawn onto it.
//!
//! The display is a sequence of cells, row by row. A sprite is a sequence of
//! rows of eight bits, the leftmost bit the most significant. It is XORed
//! onto the display and wraps round both edges.

use crate::state::{RAM_SIZE, SCREEN_HEIGHT, SCREEN_SIZE, SCREEN_WIDTH};
use vstd::arithmetic::div_mod::{lemma_fundamental_div_mod, lemma_fundamental_div_mod_converse};
use vstd::prelude::*;

verus! {

/// A display with every pixel off.
pub open spec fn blank_display() -> Seq<bool> {
    Seq::new(SCREEN_SIZE as nat, |k: int| false)
}

/// Bit `col` of a sprite row, counted from the most significant bit.
pub open spec fn sprite_bit(row: u8, col: u8) -> bool {
    row & (0x80u8 >> col) != 0
}

/// Bit `col` of a row is bit `7 - col` of the byte.
pub proof fn lemma_sprite_bit(row: u8, col: u8)
    requires
        col < 8,
    ensures
        sprite_bit(row, col) <==> (row >> (7 - col) as u8) % 2 == 1,
{
    assert(col < 8 ==> ((row & (0x80u8 >> col) != 0) <==> (row >> (7 - col) as u8) % 2 == 1))
        by (bit_vector);
}

/// The `n` bytes of memory from `index` on: the rows of a sprite.
pub open spec fn sprite_rows(memory: Seq<u8>, index: u16, n: u8) -> Seq<u8> {
    Seq::new(n as nat, |r: int| memory[index + r])
}

/// Whether the sprite `rows`, drawn with its top left corner at `(vx, vy)`
/// and wrapped round both edges, has a set bit on display cell `k`.
pub open spec fn sprite_pixel(rows: Seq<u8>, vx: u8, vy: u8, k: int) -> bool {
    let col = (k % (SCREEN_WIDTH as int) - vx) % (SCREEN_WIDTH as int);
    let row = (k / (SCREEN_WIDTH as int) - vy) % (SCREEN_HEIGHT as int);
    col < 8 && row < rows.len() && sprite_bit(rows[row], col as u8)
}

/// The display cell of sprite position `(r, c)`.
pub open spec fn cell_of(vx: u8, vy: u8, r: int, c: int) -> int {
    ((vy + r) % (SCREEN_HEIGHT as int)) * SCREEN_WIDTH + (vx + c) % (SCREEN_WIDTH as int)
}

/// Sprite positions and display cells correspond one to one.
pub proof fn lemma_cell_of(vx: u8, vy: u8, r: int, c: int)
    requires
        0 <= r < SCREEN_HEIGHT,
        0 <= c < SCREEN_WIDTH,
    ensures
        0 <= cell_of(vx, vy, r, c) < SCREEN_SIZE,
        (cell_of(vx, vy, r, c) % (SCREEN_WIDTH as int) - vx) % (SCREEN_WIDTH as int) == c,
        (cell_of(vx, vy, r, c) / (SCREEN_WIDTH as int) - vy) % (SCREEN_HEIGHT as int) == r,
{
    let (w, h) = (SCREEN_WIDTH as int, SCREEN_HEIGHT as int);
    let (px, py) = ((vx + c) % w, (vy + r) % h);
    let (qx, qy) = ((vx + c) / w, (vy + r) / h);
    lemma_fundamental_div_mod(vx + c, w);
    lemma_fundamental_div_mod(vy + r, h);
    lemma_fundamental_div_mod_converse(py * w + px, w, py, px);
    lemma_fundamental_div_mod_converse(px - vx, w, -qx, c);
    lemma_fundamental_div_mod_converse(py - vy, h, -qy, r);
}

/// Every display cell is the cell of the sprite position that
/// [`sprite_pixel`] reads for it.
pub proof fn lemma_cell_unique(vx: u8, vy: u8, k: int)
    requires
        0 <= k < SCREEN_SIZE,
    ensures
        k == cell_of(
            vx,
            vy,
            (k / (SCREEN_WIDTH as int) - vy) % (SCREEN_HEIGHT as int),
            (k % (SCREEN_WIDTH as int) - vx) % (SCREEN_WIDTH as int),
        ),
{
    let (w, h) = (SCREEN_WIDTH as int, SCREEN_HEIGHT as int);
    let (x, y) = (k % w, k / w);
    let (c, r) = ((x - vx) % w, (y - vy) % h);
    lemma_fundamental_div_mod(k, w);
    lemma_fundamental_div_mod(x - vx, w);
    lemma_fundamental_div_mod(y - vy, h);
    lemma_fundamental_div_mod_converse(vx + c, w, -((x - vx) / w), x);
    lemma_fundamental_div_mod_converse(vy + r, h, -((y - vy) / h), y);
}

/// The display after the sprite is XORed onto it.
pub open spec fn draw_display(display: Seq<bool>, rows: Seq<u8>, vx: u8, vy: u8) -> Seq<bool> {
    Seq::new(display.len(), |k: int| display[k] != sprite_pixel(rows, vx, vy, k))
}

/// Whether drawing the sprite switches some lit cell off.
pub open spec fn draw_collides(display: Seq<bool>, rows: Seq<u8>, vx: u8, vy: u8) -> bool {
    exists|k: int| 0 <= k < display.len() && display[k] && sprite_pixel(rows, vx, vy, k)
}

/// Display cell `k` belongs to a sprite row above `r`, or to row `r` and a
/// column left of `c`, for a sprite whose corner is at `(vx, vy)`.
spec fn drawn_before(vx: u8, vy: u8, k: int, r: int, c: int) -> bool {
    let col = (k % (SCREEN_WIDTH as int) - vx) % (SCREEN_WIDTH as int);
    let row = (k / (SCREEN_WIDTH as int) - vy) % (SCREEN_HEIGHT as int);
    row < r || (row == r && col < c)
}

/// Cell `k` was lit and the part of the sprite drawn before `(r, c)` has a
/// set bit on it.
spec fn hit_before(display: Seq<bool>, rows: Seq<u8>, vx: u8, vy: u8, k: int, r: int, c: int) -> bool {
    &&& 0 <= k < display.len()
    &&& display[k]
    &&& sprite_pixel(rows, vx, vy, k)
    &&& drawn_before(vx, vy, k, r, c)
}

/// XORs the `n`-row sprite at `index` onto `screen` with its corner at
/// `(vx, vy)`, wrapping round both edges. Answers whether a lit cell went
/// dark.
pub(crate) fn draw_rows(
    screen: &mut [bool; SCREEN_SIZE],
    ram: &[u8; RAM_SIZE],
    index: u16,
    n: u8,
    vx: u8,
    vy: u8,
) -> (collision: bool)
    requires
        n < 16,
        n > 0 ==> index + n <= RAM_SIZE,
    ensures
        final(screen)@ == draw_display(old(screen)@, sprite_rows(ram@, index, n), vx, vy),
        collision == draw_collides(old(screen)@, sprite_rows(ram@, index, n), vx, vy),
    no_unwind
{
    let ghost before = screen@;
    let ghost rows = sprite_rows(ram@, index, n);
    let mut collision = false;
    let mut r: u8 = 0;
    while r < n
        invariant
            r <= n < 16,
            n > 0 ==> index + n <= RAM_SIZE,
            before.len() == SCREEN_SIZE,
            rows == sprite_rows(ram@, index, n),
            forall|k: int|
                0 <= k < SCREEN_SIZE ==> screen@[k] == (before[k] != (sprite_pixel(rows, vx, vy, k)
                    && drawn_before(vx, vy, k, r as int, 0))),
            collision <==> exists|k: int| hit_before(before, rows, vx, vy, k, r as int, 0),
        decreases n - r,
    {
        let row: u8 = ram[index as usize + r as usize];
        let mut c: u8 = 0;
        while c < 8
            invariant
                r < n < 16,
                c <= 8,
                index + n <= RAM_SIZE,
                before.len() == SCREEN_SIZE,
                rows == sprite_rows(ram@, index, n),
                row == rows[r as int],
                forall|k: int|
                    0 <= k < SCREEN_SIZE ==> screen@[k] == (before[k] != (sprite_pixel(
                        rows,
                        vx,
                        vy,
                        k,
                    ) && drawn_before(vx, vy, k, r as int, c as int))),
                collision <==> exists|k: int|
                    hit_before(before, rows, vx, vy, k, r as int, c as int),
            decreases 8 - c,
        {
            let px: usize = (vx as usize + c as usize) % SCREEN_WIDTH;
            let py: usize = (vy as usize + r as usize) % SCREEN_HEIGHT;
            let cell: usize = py * SCREEN_WIDTH + px;
            let ghost was = collision;
            let ghost (ri, ci, next): (int, int, int) = (r as int, c as int, c + 1);
            proof {
                lemma_cell_of(vx, vy, ri, ci);
                assert(cell == cell_of(vx, vy, ri, ci));
                assert forall|k: int| 0 <= k < SCREEN_SIZE && k != cell implies drawn_before(
                    vx,
                    vy,
                    k,
                    ri,
                    next,
                ) == drawn_before(vx, vy, k, ri, ci) by {
                    lemma_cell_unique(vx, vy, k);
                }
                assert(sprite_pixel(rows, vx, vy, cell as int) == sprite_bit(row, c));
            }
            if row & (0x80u8 >> c) != 0 {
                if screen[cell] {
                    collision = true;
                }
                screen[cell] = !screen[cell];
            }
            proof {
                if collision {
                    if was {
                        let k = choose|k: int| hit_before(before, rows, vx, vy, k, ri, ci);
                        assert(hit_before(before, rows, vx, vy, k, ri, next));
                    } else {
                        assert(hit_before(before, rows, vx, vy, cell as int, ri, next));
                    }
                }
                assert forall|k: int| hit_before(before, rows, vx, vy, k, ri, next) implies collision by {
                    if k != cell {
                        assert(hit_before(before, rows, vx, vy, k, ri, ci));
                    }
                }
            }
            c += 1;
        }
        proof {
            let (ri, below): (int, int) = (r as int, r + 1);
            assert forall|k: int| 0 <= k < SCREEN_SIZE implies (sprite_pixel(rows, vx, vy, k)
                && #[trigger] drawn_before(vx, vy, k, ri, 8)) == (sprite_pixel(rows, vx, vy, k)
                && drawn_before(vx, vy, k, below, 0)) by {}
            if collision {
                let k = choose|k: int| hit_before(before, rows, vx, vy, k, ri, 8);
                assert(hit_before(before, rows, vx, vy, k, below, 0));
            }
            assert forall|k: int| hit_before(before, rows, vx, vy, k, below, 0) implies collision by {
                assert(hit_before(before, rows, vx, vy, k, ri, 8));
            }
        }
        r += 1;
    }
    proof {
        assert(screen@ =~= draw_display(before, rows, vx, vy));
        if collision {
            let k = choose|k: int| hit_before(before, rows, vx, vy, k, n as int, 0);
            assert(0 <= k < before.len() && before[k] && sprite_pixel(rows, vx, vy, k));
        }
        if draw_collides(before, rows, vx, vy) {
            let k = choose|k: int|
                0 <= k < before.len() && before[k] && sprite_pixel(rows, vx, vy, k);
            assert(hit_before(before, rows, vx, vy, k, n as int, 0));
        }
    }
    collision
}

} // verus!
