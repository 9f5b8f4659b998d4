use vstd::prelude::*;

use crate::Fault;
use crate::decode::{op_n, op_x, op_y, lemma_op_field_bounds};
use crate::machine::{Chip8, MachineView};
use crate::ops::{vx, vy};

verus! {

/// `v` reduced once modulo `m`, for `v` already below `2 * m`.
pub open spec fn wrap(v: int, m: int) -> int {
    if v < m {
        v
    } else {
        v - m
    }
}

/// The sprite row that lands on framebuffer row `y` when the sprite
/// starts at row `ys`: the inverse of `y = wrap(ys + r, 32)`.
pub open spec fn row_of(ys: int, y: int) -> int {
    if y >= ys {
        y - ys
    } else {
        y + 32 - ys
    }
}

/// The sprite column that lands on framebuffer column `x` when the
/// sprite starts at column `xs`: the inverse of `x = wrap(xs + c, 64)`.
pub open spec fn col_of(xs: int, x: int) -> int {
    if x >= xs {
        x - xs
    } else {
        x + 64 - xs
    }
}

/// The framebuffer cell hit by sprite pixel (row `r`, column `c`) of a
/// sprite at (`xs`, `ys`); both coordinates wrap independently.
pub open spec fn pix_index(xs: int, ys: int, r: int, c: int) -> int {
    wrap(ys + r, 32) * 64 + wrap(xs + c, 64)
}

/// Bit `c` of a sprite byte, counted from the left: the sprite's own
/// column `c` pixel.
pub open spec fn sprite_pixel(b: u8, c: int) -> bool {
    (b >> ((7 - c) as u8)) & 1 == 1
}

/// The sprite pixels already processed when `rows` full rows are done
/// and `cols` pixels of row `rows` are done.
pub open spec fn in_region(rows: int, cols: int, r: int, c: int) -> bool {
    0 <= c < 8 && 0 <= r && (r < rows || (r == rows && c < cols))
}

/// Whether the draw flips the framebuffer cell at column `x`, row `y`:
/// the cell is hit by a processed sprite pixel whose bit is set.
pub open spec fn flips(
    mem: Seq<u8>,
    i: int,
    xs: int,
    ys: int,
    rows: int,
    cols: int,
    x: int,
    y: int,
) -> bool {
    let r = row_of(ys, y);
    let c = col_of(xs, x);
    in_region(rows, cols, r, c) && sprite_pixel(mem[i + r], c)
}

/// The framebuffer after the processed part of the draw: each hit cell
/// with a set sprite bit is toggled, every other cell keeps its value.
pub open spec fn fb_partial(
    fb: Seq<bool>,
    mem: Seq<u8>,
    i: int,
    xs: int,
    ys: int,
    rows: int,
    cols: int,
) -> Seq<bool> {
    Seq::new(
        2048,
        |idx: int|
            if flips(mem, i, xs, ys, rows, cols, idx % 64, idx / 64) {
                !fb[idx]
            } else {
                fb[idx]
            },
    )
}

/// The framebuffer after drawing all `n` rows of the sprite.
pub open spec fn fb_after_draw(
    fb: Seq<bool>,
    mem: Seq<u8>,
    i: int,
    xs: int,
    ys: int,
    n: int,
) -> Seq<bool> {
    fb_partial(fb, mem, i, xs, ys, n, 0)
}

/// Sprite pixel (r, c) is set and lands on a framebuffer cell that was
/// already set: one collision.
pub open spec fn collision_at(
    fb: Seq<bool>,
    mem: Seq<u8>,
    i: int,
    xs: int,
    ys: int,
    r: int,
    c: int,
) -> bool {
    sprite_pixel(mem[i + r], c) && fb[pix_index(xs, ys, r, c)]
}

/// Some processed sprite pixel collided.
pub open spec fn collides_upto(
    fb: Seq<bool>,
    mem: Seq<u8>,
    i: int,
    xs: int,
    ys: int,
    rows: int,
    cols: int,
) -> bool {
    exists|r: int, c: int|
        in_region(rows, cols, r, c) && #[trigger] collision_at(fb, mem, i, xs, ys, r, c)
}

/// Some pixel of the whole `n`-row draw collided: this decides VF.
pub open spec fn spec_collides(
    fb: Seq<bool>,
    mem: Seq<u8>,
    i: int,
    xs: int,
    ys: int,
    n: int,
) -> bool {
    collides_upto(fb, mem, i, xs, ys, n, 0)
}

/// Sprite pixel (r, c) is set and lands on a framebuffer cell that was
/// unset: the draw turns that cell on.
pub open spec fn sets_at(
    fb: Seq<bool>,
    mem: Seq<u8>,
    i: int,
    xs: int,
    ys: int,
    r: int,
    c: int,
) -> bool {
    sprite_pixel(mem[i + r], c) && !fb[pix_index(xs, ys, r, c)]
}

/// The draw turns at least one framebuffer cell on.
pub open spec fn draw_sets_pixel(
    fb: Seq<bool>,
    mem: Seq<u8>,
    i: int,
    xs: int,
    ys: int,
    n: int,
) -> bool {
    exists|r: int, c: int|
        in_region(n, 0, r, c) && #[trigger] sets_at(fb, mem, i, xs, ys, r, c)
}

/// The draw origin: Vx and Vy reduced into the 64x32 grid, and the
/// sprite's base address.
pub open spec fn draw_xs(s: MachineView) -> int {
    (vx(s) % 64) as int
}

pub open spec fn draw_ys(s: MachineView) -> int {
    (vy(s) % 32) as int
}

pub open spec fn draw_i(s: MachineView) -> int {
    s.index_register as int
}

/// The machine part-way through a draw: `rows` full sprite rows and
/// `cols` pixels of the next row applied, VF holding 1 exactly when a
/// processed pixel collided.
pub open spec fn draw_mid(s: MachineView, rows: int, cols: int) -> MachineView {
    MachineView {
        fb: fb_partial(s.fb, s.mem, draw_i(s), draw_xs(s), draw_ys(s), rows, cols),
        registers: s.registers.update(
            0xF,
            if collides_upto(s.fb, s.mem, draw_i(s), draw_xs(s), draw_ys(s), rows, cols) {
                1u8
            } else {
                0u8
            },
        ),
        ..s
    }
}

/// The draw can read its sprite: the last sprite byte I+N-1 is inside
/// memory.
pub open spec fn display_ok(s: MachineView) -> bool {
    s.index_register + op_n(s.opcode) <= 4096
}

// Draw sprite: N bytes at memory[I..I+N] are XORed onto the framebuffer
// at (Vx mod 64, Vy mod 32), both coordinates wrapping per pixel; VF
// becomes 1 exactly when some set sprite bit lands on an already-set
// cell. Faults when the sprite bytes run outside memory.
pub open spec fn spec_display(s: MachineView) -> (MachineView, Result<(), Fault>) {
    if display_ok(s) {
        (draw_mid(s, op_n(s.opcode) as int, 0), Ok(()))
    } else {
        (s, Err(Fault::MemOutOfBounds))
    }
}

/// Where sprite pixel (r, c) lands, and that the landing cell points
/// back at (r, c) alone.
pub proof fn lemma_pix_inverse(xs: int, ys: int, r: int, c: int)
    requires
        0 <= xs < 64,
        0 <= ys < 32,
        0 <= r < 32,
        0 <= c < 64,
    ensures
        0 <= pix_index(xs, ys, r, c) < 2048,
        pix_index(xs, ys, r, c) % 64 == wrap(xs + c, 64),
        pix_index(xs, ys, r, c) / 64 == wrap(ys + r, 32),
        row_of(ys, pix_index(xs, ys, r, c) / 64) == r,
        col_of(xs, pix_index(xs, ys, r, c) % 64) == c,
{
    let yw = wrap(ys + r, 32);
    let xw = wrap(xs + c, 64);
    vstd::arithmetic::div_mod::lemma_fundamental_div_mod_converse(yw * 64 + xw, 64, yw, xw);
}

/// Before any pixel is processed nothing is flipped.
pub proof fn lemma_fb_partial_init(fb: Seq<bool>, mem: Seq<u8>, i: int, xs: int, ys: int)
    requires
        fb.len() == 2048,
    ensures
        fb_partial(fb, mem, i, xs, ys, 0, 0) == fb,
{
    assert(fb_partial(fb, mem, i, xs, ys, 0, 0) =~= fb);
}

/// Before any pixel is processed nothing has collided.
pub proof fn lemma_collides_init(fb: Seq<bool>, mem: Seq<u8>, i: int, xs: int, ys: int)
    ensures
        !collides_upto(fb, mem, i, xs, ys, 0, 0),
{
    assert forall|r: int, c: int|
        !(in_region(0, 0, r, c) && #[trigger] collision_at(fb, mem, i, xs, ys, r, c)) by {}
}

/// Processing one more pixel of the current row toggles exactly its
/// landing cell, and only when its sprite bit is set.
pub proof fn lemma_fb_partial_col_step(
    fb: Seq<bool>,
    mem: Seq<u8>,
    i: int,
    xs: int,
    ys: int,
    rows: int,
    cols: int,
)
    requires
        fb.len() == 2048,
        0 <= xs < 64,
        0 <= ys < 32,
        0 <= rows < 32,
        0 <= cols < 8,
    ensures
        fb_partial(fb, mem, i, xs, ys, rows, cols + 1) == if sprite_pixel(mem[i + rows], cols) {
            fb_partial(fb, mem, i, xs, ys, rows, cols).update(
                pix_index(xs, ys, rows, cols),
                !fb[pix_index(xs, ys, rows, cols)],
            )
        } else {
            fb_partial(fb, mem, i, xs, ys, rows, cols)
        },
{
    lemma_pix_inverse(xs, ys, rows, cols);
    let idx = pix_index(xs, ys, rows, cols);
    let a = fb_partial(fb, mem, i, xs, ys, rows, cols + 1);
    let b = if sprite_pixel(mem[i + rows], cols) {
        fb_partial(fb, mem, i, xs, ys, rows, cols).update(idx, !fb[idx])
    } else {
        fb_partial(fb, mem, i, xs, ys, rows, cols)
    };
    assert forall|idx2: int| 0 <= idx2 < 2048 implies a[idx2] == b[idx2] by {
        vstd::arithmetic::div_mod::lemma_fundamental_div_mod(idx2, 64);
        vstd::arithmetic::div_mod::lemma_mod_pos_bound(idx2, 64);
        let x2 = idx2 % 64;
        let y2 = idx2 / 64;
        let r2 = row_of(ys, y2);
        let c2 = col_of(xs, x2);
        if idx2 != idx && r2 == rows && c2 == cols {
            assert(y2 == wrap(ys + rows, 32));
            assert(x2 == wrap(xs + cols, 64));
            assert(false);
        }
    }
    assert(a =~= b);
}

/// Finishing a row and starting the next name the same processed set.
pub proof fn lemma_fb_partial_row_end(
    fb: Seq<bool>,
    mem: Seq<u8>,
    i: int,
    xs: int,
    ys: int,
    rows: int,
)
    requires
        fb.len() == 2048,
    ensures
        fb_partial(fb, mem, i, xs, ys, rows, 8) == fb_partial(fb, mem, i, xs, ys, rows + 1, 0),
{
    assert(fb_partial(fb, mem, i, xs, ys, rows, 8) =~= fb_partial(fb, mem, i, xs, ys, rows + 1, 0));
}

/// One more pixel collides exactly when the earlier ones did or that
/// pixel itself does.
pub proof fn lemma_collides_col_step(
    fb: Seq<bool>,
    mem: Seq<u8>,
    i: int,
    xs: int,
    ys: int,
    rows: int,
    cols: int,
)
    requires
        0 <= rows,
        0 <= cols < 8,
    ensures
        collides_upto(fb, mem, i, xs, ys, rows, cols + 1) <==> (collides_upto(
            fb,
            mem,
            i,
            xs,
            ys,
            rows,
            cols,
        ) || collision_at(fb, mem, i, xs, ys, rows, cols)),
{
    if collides_upto(fb, mem, i, xs, ys, rows, cols + 1) {
        let (r, c) = choose|r: int, c: int|
            in_region(rows, cols + 1, r, c) && #[trigger] collision_at(fb, mem, i, xs, ys, r, c);
        if !(r == rows && c == cols) {
            assert(in_region(rows, cols, r, c));
        }
    }
    if collides_upto(fb, mem, i, xs, ys, rows, cols) {
        let (r, c) = choose|r: int, c: int|
            in_region(rows, cols, r, c) && #[trigger] collision_at(fb, mem, i, xs, ys, r, c);
        assert(in_region(rows, cols + 1, r, c));
    }
    if collision_at(fb, mem, i, xs, ys, rows, cols) {
        assert(in_region(rows, cols + 1, rows, cols));
    }
}

/// Collision over a finished row equals collision at the start of the
/// next.
pub proof fn lemma_collides_row_end(
    fb: Seq<bool>,
    mem: Seq<u8>,
    i: int,
    xs: int,
    ys: int,
    rows: int,
)
    requires
        0 <= rows,
    ensures
        collides_upto(fb, mem, i, xs, ys, rows, 8) <==> collides_upto(
            fb,
            mem,
            i,
            xs,
            ys,
            rows + 1,
            0,
        ),
{
    if collides_upto(fb, mem, i, xs, ys, rows, 8) {
        let (r, c) = choose|r: int, c: int|
            in_region(rows, 8, r, c) && #[trigger] collision_at(fb, mem, i, xs, ys, r, c);
        assert(in_region(rows + 1, 0, r, c));
    }
    if collides_upto(fb, mem, i, xs, ys, rows + 1, 0) {
        let (r, c) = choose|r: int, c: int|
            in_region(rows + 1, 0, r, c) && #[trigger] collision_at(fb, mem, i, xs, ys, r, c);
        assert(in_region(rows, 8, r, c));
    }
}

impl Chip8 {
    /// Draw sprite: XORs the N-byte sprite at memory[I..] onto the
    /// framebuffer at (Vx mod 64, Vy mod 32), wrapping each pixel's
    /// coordinates independently; VF reports whether any set pixel was
    /// flipped off.
    pub fn display(&mut self) -> (r: Result<(), Fault>)
        requires
            old(self)@.wf(),
        ensures
            final(self)@.wf(),
            (final(self)@, r) == spec_display(old(self)@),
    {
        proof {
            lemma_op_field_bounds(self.opcode);
        }
        let ghost s0 = old(self)@;
        let n = (self.opcode & 0xF) as usize;
        let i = self.index_register as usize;
        if i > 4096 - n {
            return Err(Fault::MemOutOfBounds);
        }
        let xi = self.x_index();
        let yi = self.y_index();
        let x_start = self.registers[xi] % 64;
        let y_start = self.registers[yi] % 32;
        proof {
            assert(x_start as int == draw_xs(s0));
            assert(y_start as int == draw_ys(s0));
            assert(0 <= draw_xs(s0) < 64 && 0 <= draw_ys(s0) < 32) by {
                vstd::arithmetic::div_mod::lemma_mod_pos_bound(vx(s0) as int, 64);
                vstd::arithmetic::div_mod::lemma_mod_pos_bound(vy(s0) as int, 32);
            }
        }
        self.registers[0xF] = 0;
        proof {
            lemma_fb_partial_init(s0.fb, s0.mem, i as int, draw_xs(s0), draw_ys(s0));
            lemma_collides_init(s0.fb, s0.mem, i as int, draw_xs(s0), draw_ys(s0));
            assert(self@ == draw_mid(s0, 0, 0));
        }
        let mut row: usize = 0;
        while row < n
            invariant
                s0 == old(self)@,
                s0.wf(),
                n == op_n(s0.opcode) as usize,
                n < 16,
                i == s0.index_register as usize,
                i + n <= 4096,
                x_start as int == draw_xs(s0),
                y_start as int == draw_ys(s0),
                0 <= draw_xs(s0) < 64,
                0 <= draw_ys(s0) < 32,
                row <= n,
                self@ == draw_mid(s0, row as int, 0),
            decreases n - row,
        {
            let sprite = self.mem[i + row];
            let mut col: usize = 0;
            while col < 8
                invariant
                    s0 == old(self)@,
                    s0.wf(),
                    n == op_n(s0.opcode) as usize,
                    n < 16,
                    i == s0.index_register as usize,
                    i + n <= 4096,
                    x_start as int == draw_xs(s0),
                    y_start as int == draw_ys(s0),
                    0 <= draw_xs(s0) < 64,
                    0 <= draw_ys(s0) < 32,
                    row < n,
                    col <= 8,
                    sprite == s0.mem[i + row],
                    self@ == draw_mid(s0, row as int, col as int),
                decreases 8 - col,
            {
                let ghost xs = draw_xs(s0);
                let ghost ys = draw_ys(s0);
                proof {
                    lemma_pix_inverse(xs, ys, row as int, col as int);
                    lemma_fb_partial_col_step(
                        s0.fb,
                        s0.mem,
                        i as int,
                        xs,
                        ys,
                        row as int,
                        col as int,
                    );
                    lemma_collides_col_step(
                        s0.fb,
                        s0.mem,
                        i as int,
                        xs,
                        ys,
                        row as int,
                        col as int,
                    );
                }
                let xp = (x_start + col as u8) % 64;
                let yp = (y_start + row as u8) % 32;
                let idx = (yp as usize) * 64 + (xp as usize);
                proof {
                    assert(xp as int == wrap(xs + col, 64) && yp as int == wrap(ys + row, 32)) by {
                        crate::ops::lemma_wrap_small(xs + col, 64);
                        crate::ops::lemma_wrap_small(ys + row, 32);
                    }
                    assert(idx as int == pix_index(xs, ys, row as int, col as int));
                }
                let shift: u8 = (7 - col) as u8;
                let bit = (sprite >> shift) & 1;
                proof {
                    assert((bit == 1) == sprite_pixel(s0.mem[i + row], col as int));
                }
                if bit == 1 {
                    if self.display[idx] {
                        self.registers[0xF] = 1;
                        proof {
                            assert(self@.registers =~= s0.registers.update(0xF, 1u8));
                        }
                    }
                    let cur = self.display[idx];
                    self.display[idx] = !cur;
                }
                proof {
                    assert(self@.fb =~= draw_mid(s0, row as int, col as int + 1).fb);
                    assert(self@.registers =~= draw_mid(s0, row as int, col as int + 1).registers);
                    assert(self@ == draw_mid(s0, row as int, col as int + 1));
                }
                col = col + 1;
            }
            proof {
                lemma_fb_partial_row_end(s0.fb, s0.mem, i as int, draw_xs(s0), draw_ys(s0), row as int);
                lemma_collides_row_end(s0.fb, s0.mem, i as int, draw_xs(s0), draw_ys(s0), row as int);
                assert(self@ == draw_mid(s0, row as int + 1, 0));
            }
            row = row + 1;
        }
        Ok(())
    }
}

} // verus!
