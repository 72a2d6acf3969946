//! Drawing sprites on the wrapping 64x32 screen.
use vstd::prelude::*;

verus! {

/// Whether column `col` (0 = leftmost) of the sprite row `b` is set.
pub open spec fn sprite_bit(b: u8, col: int) -> bool {
    (b & (0x80u8 >> (col as u8))) != 0
}

/// The sprite row that would land on screen position `p` when the sprite's
/// top edge is at row `y0` (rows wrap around the 32-row screen).
pub open spec fn sprite_row(p: int, y0: int) -> int {
    (p / 64 - y0) % 32
}

/// The sprite column that would land on screen position `p` when the
/// sprite's left edge is at column `x0` (columns wrap around the 64-column
/// screen).
pub open spec fn sprite_col(p: int, x0: int) -> int {
    (p % 64 - x0) % 64
}

/// Whether drawing the `n`-row sprite stored at `ram[i..]` with its top-left
/// corner at `(x0, y0)` flips the pixel at screen position `p`.
pub open spec fn sprite_hit(ram: Seq<u8>, i: int, n: int, x0: int, y0: int, p: int) -> bool {
    &&& sprite_row(p, y0) < n
    &&& sprite_col(p, x0) < 8
    &&& sprite_bit(ram[i + sprite_row(p, y0)], sprite_col(p, x0))
}

/// The screen after drawing: every hit pixel is flipped.
pub open spec fn drawn_display(
    display: Seq<bool>,
    ram: Seq<u8>,
    i: int,
    n: int,
    x0: int,
    y0: int,
) -> Seq<bool> {
    Seq::new(2048, |p: int| display[p] != sprite_hit(ram, i, n, x0, y0, p))
}

/// Whether drawing turns off a pixel that was on.
pub open spec fn draw_collides(
    display: Seq<bool>,
    ram: Seq<u8>,
    i: int,
    n: int,
    x0: int,
    y0: int,
) -> bool {
    exists|p: int| 0 <= p < 2048 && #[trigger] sprite_hit(ram, i, n, x0, y0, p) && display[p]
}

/// Hit by the part of the sprite drawn before row `row`, column `col`.
spec fn drawn_before(
    ram: Seq<u8>,
    i: int,
    n: int,
    x0: int,
    y0: int,
    p: int,
    row: int,
    col: int,
) -> bool {
    &&& sprite_hit(ram, i, n, x0, y0, p)
    &&& (sprite_row(p, y0) < row || (sprite_row(p, y0) == row && sprite_col(p, x0) < col))
}

/// The screen position written for sprite row `row` and column `col` is in
/// range, maps back to that row and column, and is the only position that does.
pub proof fn lemma_target(x0: int, y0: int, row: int, col: int)
    requires
        0 <= x0 < 64,
        0 <= y0 < 32,
        0 <= row < 32,
        0 <= col < 8,
    ensures
        ({
            let idx = (x0 + col) % 64 + 64 * ((y0 + row) % 32);
            &&& 0 <= idx < 2048
            &&& sprite_row(idx, y0) == row
            &&& sprite_col(idx, x0) == col
            &&& forall|p: int|
                0 <= p < 2048 && sprite_row(p, y0) == row && sprite_col(p, x0) == col ==> p == idx
        }),
{
    let idx = (x0 + col) % 64 + 64 * ((y0 + row) % 32);
    let px = (x0 + col) % 64;
    let py = (y0 + row) % 32;
    assert(idx / 64 == py && idx % 64 == px) by {
        vstd::arithmetic::div_mod::lemma_fundamental_div_mod_converse(idx, 64, py, px);
    }
    assert forall|p: int|
        0 <= p < 2048 && sprite_row(p, y0) == row && sprite_col(p, x0) == col implies p == idx by {
        assert(p == 64 * (p / 64) + p % 64) by {
            vstd::arithmetic::div_mod::lemma_fundamental_div_mod(p, 64);
        }
        assert(0 <= p / 64 < 32);
        assert(p % 64 == px);
        assert(p / 64 == py);
    }
}

/// Whether the sprite bit for `col` is set, as the drawing loop tests it.
pub proof fn lemma_sprite_bit(b: u8, col: u8)
    requires
        col < 8,
    ensures
        ((b & (0x80u8 >> col)) != 0) == sprite_bit(b, col as int),
{
}

/// Draws the `n`-row sprite stored at `ram[i..]` with its top-left corner at
/// `(x0, y0)`: every pixel under a set sprite bit is flipped, wrapping at the
/// screen edges. Returns whether a pixel that was on was turned off.
pub fn draw_sprite(
    display: &mut [bool; 2048],
    ram: &[u8; 4096],
    i: u16,
    n: u8,
    x0: usize,
    y0: usize,
) -> (collision: bool)
    requires
        x0 < 64,
        y0 < 32,
        n < 16,
        n == 0 || i + n <= 4096,
    ensures
        final(display)@ == drawn_display(old(display)@, ram@, i as int, n as int, x0 as int, y0 as int),
        collision == draw_collides(old(display)@, ram@, i as int, n as int, x0 as int, y0 as int),
    no_unwind
{
    let ghost d0 = old(display)@;
    let ghost r = ram@;
    let mut collision = false;
    let mut row: usize = 0;
    while row < n as usize
        invariant
            row <= n,
            x0 < 64,
            y0 < 32,
            n < 16,
            n == 0 || i + n <= 4096,
            d0.len() == 2048,
            r == ram@,
            display@.len() == 2048,
            forall|p: int|
                0 <= p < 2048 ==> display@[p] == (d0[p] != drawn_before(
                    r,
                    i as int,
                    n as int,
                    x0 as int,
                    y0 as int,
                    p,
                    row as int,
                    0,
                )),
            collision == exists|p: int|
                0 <= p < 2048 && #[trigger] drawn_before(
                    r,
                    i as int,
                    n as int,
                    x0 as int,
                    y0 as int,
                    p,
                    row as int,
                    0,
                ) && d0[p],
        decreases n - row,
    {
        let sprite_byte = ram[i as usize + row];
        let mut col: u8 = 0;
        while col < 8
            invariant
                row < n,
                col <= 8,
                x0 < 64,
                y0 < 32,
                n < 16,
                n == 0 || i + n <= 4096,
                d0.len() == 2048,
                r == ram@,
                sprite_byte == r[i + row],
                display@.len() == 2048,
                forall|p: int|
                    0 <= p < 2048 ==> display@[p] == (d0[p] != drawn_before(
                        r,
                        i as int,
                        n as int,
                        x0 as int,
                        y0 as int,
                        p,
                        row as int,
                        col as int,
                    )),
                collision == exists|p: int|
                    0 <= p < 2048 && #[trigger] drawn_before(
                        r,
                        i as int,
                        n as int,
                        x0 as int,
                        y0 as int,
                        p,
                        row as int,
                        col as int,
                    ) && d0[p],
            decreases 8 - col,
        {
            proof {
                lemma_sprite_bit(sprite_byte, col);
                lemma_target(x0 as int, y0 as int, row as int, col as int);
            }
            let ghost c = col as int;
            let ghost (ii, ni, xi, yi) = (i as int, n as int, x0 as int, y0 as int);
            let ghost rw = row as int;
            let ghost old_collision = collision;
            if (sprite_byte & (0b10000000u8 >> col)) != 0 {
                let pixel_x = (x0 + col as usize) % 64;
                let pixel_y = (y0 + row) % 32;
                let index = pixel_x + 64 * pixel_y;
                assert(drawn_before(r, ii, ni, xi, yi, index as int, rw, c + 1));
                assert(!drawn_before(r, ii, ni, xi, yi, index as int, rw, c));
                assert forall|p: int| 0 <= p < 2048 && p != index implies
                    #[trigger] drawn_before(r, ii, ni, xi, yi, p, rw, c + 1)
                        == drawn_before(r, ii, ni, xi, yi, p, rw, c) by {}
                let was_on = display[index];
                assert(was_on == d0[index as int]);
                if was_on {
                    collision = true;
                }
                display[index] = !was_on;
                proof {
                    if old_collision {
                        let q = choose|q: int|
                            0 <= q < 2048 && #[trigger] drawn_before(r, ii, ni, xi, yi, q, rw, c)
                                && d0[q];
                        assert(drawn_before(r, ii, ni, xi, yi, q, rw, c + 1));
                    }
                    if !old_collision && !was_on {
                        assert forall|p: int|
                            0 <= p < 2048 && #[trigger] drawn_before(r, ii, ni, xi, yi, p, rw, c + 1)
                            implies !d0[p] by {
                            if p != index {
                                assert(drawn_before(r, ii, ni, xi, yi, p, rw, c));
                            }
                        }
                    }
                }
            } else {
                assert forall|p: int| 0 <= p < 2048 implies
                    #[trigger] drawn_before(r, ii, ni, xi, yi, p, rw, c + 1)
                        == drawn_before(r, ii, ni, xi, yi, p, rw, c) by {}
                proof {
                    if old_collision {
                        let q = choose|q: int|
                            0 <= q < 2048 && #[trigger] drawn_before(r, ii, ni, xi, yi, q, rw, c)
                                && d0[q];
                        assert(drawn_before(r, ii, ni, xi, yi, q, rw, c + 1));
                    } else {
                        assert forall|p: int|
                            0 <= p < 2048 && #[trigger] drawn_before(r, ii, ni, xi, yi, p, rw, c + 1)
                            implies !d0[p] by {
                            assert(drawn_before(r, ii, ni, xi, yi, p, rw, c));
                        }
                    }
                }
            }
            col = col + 1;
        }
        proof {
            let ghost (ii, ni, xi, yi, rw) = (i as int, n as int, x0 as int, y0 as int, row as int);
            assert forall|p: int| 0 <= p < 2048 implies
                drawn_before(r, ii, ni, xi, yi, p, rw, 8)
                    == #[trigger] drawn_before(r, ii, ni, xi, yi, p, rw + 1, 0) by {}
            if collision {
                let q = choose|q: int|
                    0 <= q < 2048 && #[trigger] drawn_before(r, ii, ni, xi, yi, q, rw, 8) && d0[q];
                assert(drawn_before(r, ii, ni, xi, yi, q, rw + 1, 0));
            } else {
                assert forall|p: int|
                    0 <= p < 2048 && #[trigger] drawn_before(r, ii, ni, xi, yi, p, rw + 1, 0)
                    implies !d0[p] by {
                    assert(drawn_before(r, ii, ni, xi, yi, p, rw, 8));
                }
            }
        }
        row = row + 1;
    }
    proof {
        let ghost (ii, ni, xi, yi) = (i as int, n as int, x0 as int, y0 as int);
        assert forall|p: int| 0 <= p < 2048 implies
            drawn_before(r, ii, ni, xi, yi, p, ni, 0)
                == #[trigger] sprite_hit(r, ii, ni, xi, yi, p) by {}
        if collision {
            let q = choose|q: int|
                0 <= q < 2048 && #[trigger] drawn_before(r, ii, ni, xi, yi, q, ni, 0) && d0[q];
            assert(sprite_hit(r, ii, ni, xi, yi, q));
        } else {
            assert forall|p: int|
                0 <= p < 2048 && #[trigger] sprite_hit(r, ii, ni, xi, yi, p) implies !d0[p] by {
                assert(drawn_before(r, ii, ni, xi, yi, p, ni, 0));
            }
        }
    }
    assert(display@ =~= drawn_display(d0, r, i as int, n as int, x0 as int, y0 as int));
    collision
}

} // verus!
