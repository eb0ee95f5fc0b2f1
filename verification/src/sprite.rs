//! What drawing a sprite does to a grid of pixels, stated over grids as
//! rows of booleans, and what follows from it.
//!
//! A sprite is a sequence of bytes, one per row. Its bits are numbered row
//! by row, the most significant bit of a row first; bit `k` lands `k % 8`
//! columns right of and `k / 8` rows below the place the sprite is drawn
//! at, wrapping round at the edges of the grid, and inverts the pixel there
//! when it is set.

use vstd::prelude::*;
use vstd::arithmetic::div_mod::lemma_fundamental_div_mod;

verus! {

/// Whether bit `j` of a sprite row is set, counting from the most
/// significant bit, which is bit 0 and is drawn leftmost.
pub open spec fn bit_set(row: u8, j: int) -> bool {
    (row >> ((7 - j) as u8)) & 1u8 == 1u8
}

/// Whether bit `k` of a sprite is set. The bits of a sprite are numbered
/// row by row: bit `k` is bit `k % 8` of row `k / 8`.
pub open spec fn sprite_bit(sprite: Seq<u8>, k: int) -> bool {
    bit_set(sprite[k / 8], k % 8)
}

/// The column on which bit `k` of a sprite drawn at column `x` lands.
pub open spec fn target_col(w: int, x: int, k: int) -> int {
    (x + k % 8) % w
}

/// The row on which bit `k` of a sprite drawn at row `y` lands.
pub open spec fn target_row(h: int, y: int, k: int) -> int {
    (y + k / 8) % h
}

/// Whether bit `k` of the sprite is set and lands on column `c` of row `r`.
pub open spec fn hits(w: int, h: int, x: int, y: int, sprite: Seq<u8>, k: int, c: int, r: int) -> bool {
    sprite_bit(sprite, k) && target_col(w, x, k) == c && target_row(h, y, k) == r
}

/// Whether an odd number of the first `n` bits of the sprite are set and
/// land on column `c` of row `r`: drawing those bits then inverts that
/// pixel.
pub open spec fn flips(
    w: int,
    h: int,
    x: int,
    y: int,
    sprite: Seq<u8>,
    n: int,
    c: int,
    r: int,
) -> bool
    decreases n,
{
    if n <= 0 {
        false
    } else {
        flips(w, h, x, y, sprite, n - 1, c, r) != hits(w, h, x, y, sprite, n - 1, c, r)
    }
}

/// The grid after the first `n` bits of the sprite have been drawn onto
/// `grid` at column `x`, row `y`.
pub open spec fn drawn(
    grid: Seq<Seq<bool>>,
    w: int,
    h: int,
    x: int,
    y: int,
    sprite: Seq<u8>,
    n: int,
) -> Seq<Seq<bool>> {
    Seq::new(
        h as nat,
        |r: int| Seq::new(w as nat, |c: int| grid[r][c] != flips(w, h, x, y, sprite, n, c, r)),
    )
}

/// Whether bit `k` of the sprite is set and lands on a lit pixel of `grid`.
pub open spec fn lands_lit(
    grid: Seq<Seq<bool>>,
    w: int,
    h: int,
    x: int,
    y: int,
    sprite: Seq<u8>,
    k: int,
) -> bool {
    sprite_bit(sprite, k) && grid[target_row(h, y, k)][target_col(w, x, k)]
}

/// Whether bit `k` of the sprite is set and finds its pixel lit at the
/// moment it is drawn, that is after the bits before it.
pub open spec fn erases(
    grid: Seq<Seq<bool>>,
    w: int,
    h: int,
    x: int,
    y: int,
    sprite: Seq<u8>,
    k: int,
) -> bool {
    lands_lit(drawn(grid, w, h, x, y, sprite, k), w, h, x, y, sprite, k)
}

/// Whether one of the first `n` bits of the sprite is set and finds its
/// pixel lit at the moment it is drawn.
pub open spec fn collides(
    grid: Seq<Seq<bool>>,
    w: int,
    h: int,
    x: int,
    y: int,
    sprite: Seq<u8>,
    n: int,
) -> bool {
    exists|k: int| 0 <= k < n && #[trigger] erases(grid, w, h, x, y, sprite, k)
}

/// The grid with the pixel in column `c` of row `r` inverted.
pub open spec fn inverted(grid: Seq<Seq<bool>>, c: int, r: int) -> Seq<Seq<bool>> {
    grid.update(r, grid[r].update(c, !grid[r][c]))
}

/// Whether `grid` has `h` rows of `w` pixels each.
pub open spec fn shaped(grid: Seq<Seq<bool>>, w: int, h: int) -> bool {
    &&& grid.len() == h
    &&& forall|r: int| 0 <= r < h ==> (#[trigger] grid[r]).len() == w
}

/// Whether the pixel in column `c` of row `r` is dark in `before` and lit
/// in `after`.
pub open spec fn newly_lit(before: Seq<Seq<bool>>, after: Seq<Seq<bool>>, c: int, r: int) -> bool {
    !before[r][c] && after[r][c]
}

/// Drawing the same bits at the same place twice gives the grid back.
pub proof fn lemma_draw_twice_restores(
    grid: Seq<Seq<bool>>,
    w: int,
    h: int,
    x: int,
    y: int,
    sprite: Seq<u8>,
    n: int,
)
    requires
        shaped(grid, w, h),
    ensures
        drawn(drawn(grid, w, h, x, y, sprite, n), w, h, x, y, sprite, n) == grid,
{
    let once = drawn(grid, w, h, x, y, sprite, n);
    assert(drawn(once, w, h, x, y, sprite, n) =~~= grid);
}

/// Two numbers less than `m` apart leave different remainders modulo `m`.
pub proof fn lemma_mod_apart(a: int, b: int, m: int)
    requires
        a < b,
        b - a < m,
    ensures
        a % m != b % m,
{
    lemma_fundamental_div_mod(a, m);
    lemma_fundamental_div_mod(b, m);
    if a % m == b % m {
        let q = b / m - a / m;
        assert(b - a == m * q) by (nonlinear_arith)
            requires
                a == m * (a / m) + a % m,
                b == m * (b / m) + b % m,
                a % m == b % m,
                q == b / m - a / m,
        ;
        assert(false) by (nonlinear_arith)
            requires
                0 < b - a < m,
                b - a == m * q,
        ;
    }
}

/// On a grid at least eight pixels wide, two different bits among those
/// of the first `h` rows of a sprite land on different pixels.
pub proof fn lemma_bits_apart(w: int, h: int, x: int, y: int, k1: int, k2: int)
    requires
        w >= 8,
        0 <= k1 < k2 < 8 * h,
    ensures
        target_col(w, x, k1) != target_col(w, x, k2) || target_row(h, y, k1) != target_row(
            h,
            y,
            k2,
        ),
{
    if k1 / 8 == k2 / 8 {
        lemma_mod_apart(x + k1 % 8, x + k2 % 8, w);
    } else {
        lemma_mod_apart(y + k1 / 8, y + k2 / 8, h);
    }
}

/// The place a bit lands on lies on the grid.
pub proof fn lemma_target_on_grid(w: int, h: int, x: int, y: int, k: int)
    requires
        w > 0,
        h > 0,
    ensures
        0 <= target_col(w, x, k) < w,
        0 <= target_row(h, y, k) < h,
{
    vstd::arithmetic::div_mod::lemma_mod_bound(x + k % 8, w);
    vstd::arithmetic::div_mod::lemma_mod_bound(y + k / 8, h);
}

/// Where no two bits share a pixel (the grid is at least eight pixels wide
/// and the bits are those of at most `h` rows), drawing inverts exactly the
/// pixels that a set bit lands on.
pub proof fn lemma_flips_where_hit(
    w: int,
    h: int,
    x: int,
    y: int,
    sprite: Seq<u8>,
    n: int,
    c: int,
    r: int,
)
    requires
        w >= 8,
        0 <= n <= 8 * h,
    ensures
        flips(w, h, x, y, sprite, n, c, r) <==> exists|k: int|
            0 <= k < n && #[trigger] hits(w, h, x, y, sprite, k, c, r),
    decreases n,
{
    if n > 0 {
        lemma_flips_where_hit(w, h, x, y, sprite, n - 1, c, r);
        if hits(w, h, x, y, sprite, n - 1, c, r) {
            assert forall|k: int| 0 <= k < n - 1 implies !#[trigger] hits(
                w,
                h,
                x,
                y,
                sprite,
                k,
                c,
                r,
            ) by {
                lemma_bits_apart(w, h, x, y, k, n - 1);
            }
        }
    }
}

/// Where no two bits share a pixel, a draw reports a collision exactly
/// when a set bit lands on a pixel that was lit before the draw.
pub proof fn lemma_collides_where_lit(
    grid: Seq<Seq<bool>>,
    w: int,
    h: int,
    x: int,
    y: int,
    sprite: Seq<u8>,
    n: int,
)
    requires
        shaped(grid, w, h),
        w >= 8,
        0 <= n <= 8 * h,
    ensures
        collides(grid, w, h, x, y, sprite, n) <==> exists|k: int|
            0 <= k < n && #[trigger] lands_lit(grid, w, h, x, y, sprite, k),
{
    assert forall|k: int| 0 <= k < n implies #[trigger] erases(grid, w, h, x, y, sprite, k)
        == lands_lit(grid, w, h, x, y, sprite, k) by {
        let c = target_col(w, x, k);
        let r = target_row(h, y, k);
        lemma_target_on_grid(w, h, x, y, k);
        lemma_flips_where_hit(w, h, x, y, sprite, k, c, r);
        assert forall|k1: int| 0 <= k1 < k implies !#[trigger] hits(
            w,
            h,
            x,
            y,
            sprite,
            k1,
            c,
            r,
        ) by {
            lemma_bits_apart(w, h, x, y, k1, k);
        }
    }
    if collides(grid, w, h, x, y, sprite, n) {
        let k = choose|k: int| 0 <= k < n && #[trigger] erases(grid, w, h, x, y, sprite, k);
        assert(lands_lit(grid, w, h, x, y, sprite, k));
    }
    if exists|k: int| 0 <= k < n && #[trigger] lands_lit(grid, w, h, x, y, sprite, k) {
        let k = choose|k: int| 0 <= k < n && #[trigger] lands_lit(grid, w, h, x, y, sprite, k);
        assert(erases(grid, w, h, x, y, sprite, k));
    }
}

/// Where no two bits share a pixel, drawing the same sprite at the same
/// place a second time reports a collision exactly when the first draw lit
/// a pixel.
pub proof fn lemma_second_draw_collides(
    grid: Seq<Seq<bool>>,
    w: int,
    h: int,
    x: int,
    y: int,
    sprite: Seq<u8>,
    n: int,
)
    requires
        shaped(grid, w, h),
        w >= 8,
        0 <= n <= 8 * h,
    ensures
        collides(drawn(grid, w, h, x, y, sprite, n), w, h, x, y, sprite, n) <==> exists|
            c: int,
            r: int,
        |
            0 <= c < w && 0 <= r < h && #[trigger] newly_lit(
                grid,
                drawn(grid, w, h, x, y, sprite, n),
                c,
                r,
            ),
{
    let once = drawn(grid, w, h, x, y, sprite, n);
    lemma_collides_where_lit(once, w, h, x, y, sprite, n);
    if collides(once, w, h, x, y, sprite, n) {
        let k = choose|k: int| 0 <= k < n && #[trigger] lands_lit(once, w, h, x, y, sprite, k);
        let c = target_col(w, x, k);
        let r = target_row(h, y, k);
        lemma_target_on_grid(w, h, x, y, k);
        lemma_flips_where_hit(w, h, x, y, sprite, n, c, r);
        assert(hits(w, h, x, y, sprite, k, c, r));
        assert(newly_lit(grid, once, c, r));
    }
    if exists|c: int, r: int| 0 <= c < w && 0 <= r < h && #[trigger] newly_lit(grid, once, c, r) {
        let (c, r) = choose|c: int, r: int|
            0 <= c < w && 0 <= r < h && #[trigger] newly_lit(grid, once, c, r);
        lemma_flips_where_hit(w, h, x, y, sprite, n, c, r);
        let k = choose|k: int| 0 <= k < n && #[trigger] hits(w, h, x, y, sprite, k, c, r);
        assert(lands_lit(once, w, h, x, y, sprite, k));
    }
}

/// A sprite drawn in the last column wraps round: the second bit of each
/// of its rows lands in the first column, where it inverts the pixel when
/// it is set.
pub proof fn lemma_wraps_at_right_edge(
    grid: Seq<Seq<bool>>,
    w: int,
    h: int,
    y: int,
    sprite: Seq<u8>,
    n: int,
    k: int,
)
    requires
        shaped(grid, w, h),
        w >= 8,
        0 <= n <= 8 * h,
        0 <= k < n,
        k % 8 == 1,
    ensures
        target_col(w, w - 1, k) == 0,
        sprite_bit(sprite, k) ==> drawn(grid, w, h, w - 1, y, sprite, n)[target_row(h, y, k)][0]
            == !grid[target_row(h, y, k)][0],
{
    lemma_fundamental_div_mod(w, w);
    vstd::arithmetic::div_mod::lemma_mod_self_0(w);
    lemma_target_on_grid(w, h, w - 1, y, k);
    if sprite_bit(sprite, k) {
        lemma_flips_where_hit(w, h, w - 1, y, sprite, n, 0, target_row(h, y, k));
        assert(hits(w, h, w - 1, y, sprite, k, 0, target_row(h, y, k)));
    }
}

} // verus!
