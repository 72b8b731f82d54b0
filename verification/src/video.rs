//! The 64x32 monochrome display.
//!
//! Pixels live in a flat row-major grid (`y * 64 + x`).  Drawing XOR-toggles
//! pixels and records collisions; a dirty flag tells the host when the grid
//! changed since it last presented a frame.

use vstd::prelude::*;

use crate::HEIGHT;
use crate::PIXEL_COUNT;
use crate::WIDTH;

verus! {

/// Mathematical model of the display: the pixel grid and the dirty flag.
#[verifier::ext_equal]
pub struct VideoAbs {
    /// Row-major pixel states, `y * 64 + x`, length 2048.
    pub pixels: Seq<bool>,
    /// True when the grid changed since the host last consumed a frame.
    pub should_render: bool,
}

/// Flat index of the pixel at `(x mod 64, y mod 32)`.
pub open spec fn pixel_index(x: int, y: int) -> int {
    (y % 32) * 64 + x % 64
}

/// Flat index of the pixel touched by bit `k` of sprite row `r`, for a sprite
/// drawn at `(x, y)`.  Rows wrap modulo 32 and columns modulo 64.
pub open spec fn target_of(x: int, y: int, r: int, k: int) -> int {
    ((y + r) % 32) * 64 + (x + k) % 64
}

/// Whether bit `k` (0 = most significant, leftmost pixel) of byte `b` is set.
pub open spec fn bit_of(b: u8, k: int) -> bool {
    (b >> ((7 - k) as u8)) & 1u8 == 1u8
}

/// Whether some set bit of the sprite `s`, drawn at `(x, y)`, lands on the
/// pixel with flat index `idx`.
pub open spec fn sprite_hits(x: int, y: int, s: Seq<u8>, idx: int) -> bool {
    exists|r: int, k: int|
        0 <= r < s.len() && 0 <= k < 8 && bit_of(s[r], k) && #[trigger] target_of(x, y, r, k)
            == idx
}

/// The pixel grid after drawing sprite `s` at `(x, y)` on grid `p`: every
/// pixel a set sprite bit lands on is toggled, the rest are unchanged.
pub open spec fn draw_pixels(p: Seq<bool>, x: int, y: int, s: Seq<u8>) -> Seq<bool> {
    Seq::new(p.len(), |idx: int| p[idx] != sprite_hits(x, y, s, idx))
}

/// Whether drawing sprite `s` at `(x, y)` on grid `p` turns some pixel off,
/// i.e. a set sprite bit lands on an already-set pixel.
pub open spec fn spec_collides(p: Seq<bool>, x: int, y: int, s: Seq<u8>) -> bool {
    exists|r: int, k: int|
        0 <= r < s.len() && 0 <= k < 8 && bit_of(s[r], k) && p[#[trigger] target_of(x, y, r, k)]
}

/// Whether the sprite has any set bit at all, i.e. whether drawing it touches
/// any pixel.
pub open spec fn sprite_has_set_bit(s: Seq<u8>) -> bool {
    exists|r: int, k: int| 0 <= r < s.len() && 0 <= k < 8 && #[trigger] bit_of(s[r], k)
}

/// Whether sprite position `(r, k)` comes strictly before `(i, j)` in drawing
/// order (row-major over rows, then bits).
spec fn pair_before(r: int, k: int, i: int, j: int) -> bool {
    r < i || (r == i && k < j)
}

/// `sprite_hits` restricted to the sprite positions drawn before `(i, j)`.
spec fn hits_before(x: int, y: int, s: Seq<u8>, i: int, j: int, idx: int) -> bool {
    exists|r: int, k: int|
        0 <= r < s.len() && 0 <= k < 8 && pair_before(r, k, i, j) && bit_of(s[r], k)
            && #[trigger] target_of(x, y, r, k) == idx
}

/// `spec_collides` restricted to the sprite positions drawn before `(i, j)`.
spec fn collides_before(p: Seq<bool>, x: int, y: int, s: Seq<u8>, i: int, j: int) -> bool {
    exists|r: int, k: int|
        0 <= r < s.len() && 0 <= k < 8 && pair_before(r, k, i, j) && bit_of(s[r], k)
            && p[#[trigger] target_of(x, y, r, k)]
}

/// `sprite_has_set_bit` restricted to the sprite positions drawn before `(i, j)`.
spec fn set_bit_before(s: Seq<u8>, i: int, j: int) -> bool {
    exists|r: int, k: int|
        0 <= r < s.len() && 0 <= k < 8 && pair_before(r, k, i, j) && #[trigger] bit_of(s[r], k)
}

/// A value in `[0, 2m)` reduces modulo `m` by at most one subtraction.
proof fn lemma_mod_span(a: int, m: int)
    requires
        0 < m,
        0 <= a < 2 * m,
    ensures
        a % m == if a < m {
            a
        } else {
            a - m
        },
{
    if a < m {
        vstd::arithmetic::div_mod::lemma_small_mod(a as nat, m as nat);
    } else {
        vstd::arithmetic::div_mod::lemma_mod_sub_multiples_vanish(a, m);
        vstd::arithmetic::div_mod::lemma_small_mod((a - m) as nat, m as nat);
    }
}

/// Distinct sprite positions land on distinct pixels: with at most 32 rows
/// and 8 columns the wrapped offsets cannot coincide.
proof fn lemma_targets_distinct(x: int, y: int, r1: int, k1: int, r2: int, k2: int)
    requires
        0 <= x < 64,
        0 <= y < 32,
        0 <= r1 < 32,
        0 <= r2 < 32,
        0 <= k1 < 8,
        0 <= k2 < 8,
        !(r1 == r2 && k1 == k2),
    ensures
        target_of(x, y, r1, k1) != target_of(x, y, r2, k2),
{
    lemma_mod_span(y + r1, 32);
    lemma_mod_span(y + r2, 32);
    lemma_mod_span(x + k1, 64);
    lemma_mod_span(x + k2, 64);
}

/// The pixel toggled at sprite position `(i, j)` was not touched by any
/// earlier sprite position.
proof fn lemma_no_prior_hit(x: int, y: int, s: Seq<u8>, i: int, j: int)
    requires
        0 <= x < 64,
        0 <= y < 32,
        s.len() <= 32,
        0 <= i < s.len(),
        0 <= j < 8,
    ensures
        !hits_before(x, y, s, i, j, target_of(x, y, i, j)),
{
    assert forall|r: int, k: int|
        0 <= r < s.len() && 0 <= k < 8 && pair_before(r, k, i, j) implies #[trigger] target_of(
        x,
        y,
        r,
        k,
    ) != target_of(x, y, i, j) by {
        lemma_targets_distinct(x, y, r, k, i, j);
    }
}

/// Draw-XOR idempotence: drawing the same sprite bytes at the same `(x, y)`
/// twice in succession returns the pixel grid to its pre-draw state.  And
/// when the first draw collided with nothing and the sprite has any set bit,
/// the second draw reports a collision, because the first draw set the pixels
/// the sprite lands on.
pub proof fn lemma_draw_xor_idempotent(p: Seq<bool>, x: int, y: int, s: Seq<u8>)
    requires
        p.len() == PIXEL_COUNT,
        0 <= x < 64,
        0 <= y < 32,
        s.len() <= 32,
    ensures
        draw_pixels(draw_pixels(p, x, y, s), x, y, s) == p,
        (!spec_collides(p, x, y, s) && sprite_has_set_bit(s)) ==> spec_collides(
            draw_pixels(p, x, y, s),
            x,
            y,
            s,
        ),
{
    assert(draw_pixels(draw_pixels(p, x, y, s), x, y, s) =~= p);
    if !spec_collides(p, x, y, s) && sprite_has_set_bit(s) {
        let (r, k) = choose|r: int, k: int|
            0 <= r < s.len() && 0 <= k < 8 && #[trigger] bit_of(s[r], k);
        let t = target_of(x, y, r, k);
        vstd::arithmetic::div_mod::lemma_mod_bound(y + r, 32);
        vstd::arithmetic::div_mod::lemma_mod_bound(x + k, 64);
        assert(sprite_hits(x, y, s, t));
        assert(!p[t]);
        assert(draw_pixels(p, x, y, s)[t]);
        assert(spec_collides(draw_pixels(p, x, y, s), x, y, s));
    }
}

/// The display: a 64x32 grid of pixels plus a redraw-needed flag.
pub struct Video {
    video_memory: Vec<bool>,
    should_render: bool,
}

impl View for Video {
    type V = VideoAbs;

    closed spec fn view(&self) -> VideoAbs {
        VideoAbs { pixels: self.video_memory@, should_render: self.should_render }
    }
}

impl Video {
    /// Well-formedness: the grid holds exactly 64 * 32 pixels.
    pub open spec fn wf(&self) -> bool {
        self@.pixels.len() == PIXEL_COUNT
    }

    /// A fresh display: all pixels off, no redraw needed.
    pub fn new() -> (v: Video)
        ensures
            v.wf(),
            v@.pixels =~= Seq::new(PIXEL_COUNT as nat, |idx: int| false),
            !v@.should_render,
    {
        Video { video_memory: all_off_pixels(), should_render: false }
    }

    /// XOR-toggle the pixel at `(x mod 64, y mod 32)` and mark the display
    /// dirty.
    pub fn update(&mut self, x: u32, y: u32)
        requires
            old(self).wf(),
        ensures
            final(self).wf(),
            final(self)@.pixels == old(self)@.pixels.update(
                pixel_index(x as int, y as int),
                !old(self)@.pixels[pixel_index(x as int, y as int)],
            ),
            final(self)@.should_render,
    {
        let yy: u32 = y % (HEIGHT as u32);
        let xx: u32 = x % (WIDTH as u32);
        let idx: usize = (yy * 64 + xx) as usize;
        let pixel: bool = self.video_memory[idx];
        if pixel {
            self.video_memory.set(idx, false);
        } else {
            self.video_memory.set(idx, true);
        }
        self.should_render = true;
    }

    /// Read the pixel at `(x mod 64, y mod 32)`.
    pub fn get_pixel(&self, x: u32, y: u32) -> (b: bool)
        requires
            self.wf(),
        ensures
            b == self@.pixels[pixel_index(x as int, y as int)],
    {
        let yy: u32 = y % (HEIGHT as u32);
        let xx: u32 = x % (WIDTH as u32);
        let idx: usize = (yy * 64 + xx) as usize;
        self.video_memory[idx]
    }

    /// Turn every pixel off and mark the display dirty.
    pub fn clear(&mut self)
        ensures
            final(self).wf(),
            final(self)@.pixels =~= Seq::new(PIXEL_COUNT as nat, |idx: int| false),
            final(self)@.should_render,
    {
        self.video_memory = all_off_pixels();
        self.should_render = true;
    }

    /// Whether the grid changed since the host last consumed a frame.
    pub fn is_dirty(&self) -> (d: bool)
        ensures
            d == self@.should_render,
    {
        self.should_render
    }

    /// Acknowledge that the host presented a frame: clear the dirty flag.
    pub fn acknowledge_render(&mut self)
        ensures
            final(self)@.pixels == old(self)@.pixels,
            !final(self)@.should_render,
    {
        self.should_render = false;
    }

    /// A read-only copy of the pixel grid, row-major (`y * 64 + x`).
    pub fn snapshot(&self) -> (g: Vec<bool>)
        requires
            self.wf(),
        ensures
            g@ == self@.pixels,
    {
        let mut g: Vec<bool> = Vec::new();
        let mut i: usize = 0;
        while i < PIXEL_COUNT
            invariant
                i <= PIXEL_COUNT,
                self.wf(),
                g@.len() == i,
                forall|idx: int| 0 <= idx < i ==> g@[idx] == self@.pixels[idx],
            decreases PIXEL_COUNT - i,
        {
            g.push(self.video_memory[i]);
            i = i + 1;
        }
        assert(g@ =~= self@.pixels);
        g
    }

    /// Draw an N-row sprite at `(x, y)`: bit `k` of row `r` (most significant
    /// bit leftmost) XOR-toggles the pixel at `((x + k) mod 64, (y + r) mod
    /// 32)`.  Returns whether any toggle turned a pixel off.
    #[verifier::loop_isolation(false)]
    pub fn draw_sprite(&mut self, x: u8, y: u8, sprite: &Vec<u8>) -> (collided: bool)
        requires
            old(self).wf(),
            x < 64,
            y < 32,
            sprite@.len() <= 32,
        ensures
            final(self).wf(),
            final(self)@.pixels == draw_pixels(old(self)@.pixels, x as int, y as int, sprite@),
            collided == spec_collides(old(self)@.pixels, x as int, y as int, sprite@),
            final(self)@.should_render == (old(self)@.should_render || sprite_has_set_bit(
                sprite@,
            )),
    {
        let ghost p0 = old(self)@.pixels;
        let ghost dirty0 = old(self)@.should_render;
        let ghost xs = x as int;
        let ghost ys = y as int;
        let n: usize = sprite.len();
        let mut collided: bool = false;
        let mut i: usize = 0;
        while i < n
            invariant
                i <= n,
                self.wf(),
                forall|idx: int|
                    0 <= idx < PIXEL_COUNT ==> self@.pixels[idx] == (p0[idx] != hits_before(
                        xs,
                        ys,
                        sprite@,
                        i as int,
                        0,
                        idx,
                    )),
                collided == collides_before(p0, xs, ys, sprite@, i as int, 0),
                self@.should_render == (dirty0 || set_bit_before(sprite@, i as int, 0)),
            decreases n - i,
        {
            let byte: u8 = sprite[i];
            let mut j: usize = 0;
            while j < 8
                invariant
                    j <= 8,
                    i < n,
                    self.wf(),
                    forall|idx: int|
                        0 <= idx < PIXEL_COUNT ==> self@.pixels[idx] == (p0[idx] != hits_before(
                            xs,
                            ys,
                            sprite@,
                            i as int,
                            j as int,
                            idx,
                        )),
                    collided == collides_before(p0, xs, ys, sprite@, i as int, j as int),
                    self@.should_render == (dirty0 || set_bit_before(
                        sprite@,
                        i as int,
                        j as int,
                    )),
                decreases 8 - j,
            {
                let shift: u8 = (7 - j) as u8;
                let bit: u8 = (byte >> shift) & 1;
                if bit == 1 {
                    proof {
                        lemma_no_prior_hit(xs, ys, sprite@, i as int, j as int);
                        vstd::arithmetic::div_mod::lemma_mod_bound(ys + i, 32);
                        vstd::arithmetic::div_mod::lemma_mod_bound(xs + j, 64);
                    }
                    let px: u32 = x as u32 + j as u32;
                    let py: u32 = y as u32 + i as u32;
                    let was_set: bool = self.get_pixel(px, py);
                    if was_set {
                        collided = true;
                    }
                    self.update(px, py);
                    assert(pixel_index(px as int, py as int) == target_of(
                        xs,
                        ys,
                        i as int,
                        j as int,
                    ));
                }
                proof {
                    let si = i as int;
                    let sj = j as int;
                    assert forall|idx: int| 0 <= idx < PIXEL_COUNT implies self@.pixels[idx] == (
                    p0[idx] != hits_before(xs, ys, sprite@, si, sj + 1, idx)) by {
                        if hits_before(xs, ys, sprite@, si, sj + 1, idx) {
                            let (r, k) = choose|r: int, k: int|
                                0 <= r < sprite@.len() && 0 <= k < 8 && pair_before(r, k, si, sj + 1)
                                    && bit_of(sprite@[r], k) && #[trigger] target_of(xs, ys, r, k)
                                    == idx;
                            if r == si && k == sj {
                                assert(target_of(xs, ys, si, sj) == idx);
                            } else {
                                assert(pair_before(r, k, si, sj));
                                assert(hits_before(xs, ys, sprite@, si, sj, idx));
                            }
                        } else {
                            assert(!hits_before(xs, ys, sprite@, si, sj, idx)) by {
                                if hits_before(xs, ys, sprite@, si, sj, idx) {
                                    let (r, k) = choose|r: int, k: int|
                                        0 <= r < sprite@.len() && 0 <= k < 8 && pair_before(
                                            r,
                                            k,
                                            si,
                                            sj,
                                        ) && bit_of(sprite@[r], k) && #[trigger] target_of(
                                            xs,
                                            ys,
                                            r,
                                            k,
                                        ) == idx;
                                    assert(pair_before(r, k, si, sj + 1));
                                }
                            }
                        }
                    }
                    assert(collided == collides_before(p0, xs, ys, sprite@, si, sj + 1)) by {
                        if collides_before(p0, xs, ys, sprite@, si, sj + 1) {
                            let (r, k) = choose|r: int, k: int|
                                0 <= r < sprite@.len() && 0 <= k < 8 && pair_before(r, k, si, sj + 1)
                                    && bit_of(sprite@[r], k) && p0[#[trigger] target_of(
                                    xs,
                                    ys,
                                    r,
                                    k,
                                )];
                            if !(r == si && k == sj) {
                                assert(pair_before(r, k, si, sj));
                                assert(collides_before(p0, xs, ys, sprite@, si, sj));
                            }
                        } else {
                            if collides_before(p0, xs, ys, sprite@, si, sj) {
                                let (r, k) = choose|r: int, k: int|
                                    0 <= r < sprite@.len() && 0 <= k < 8 && pair_before(r, k, si, sj)
                                        && bit_of(sprite@[r], k) && p0[#[trigger] target_of(
                                        xs,
                                        ys,
                                        r,
                                        k,
                                    )];
                                assert(pair_before(r, k, si, sj + 1));
                            }
                        }
                    }
                    assert(self@.should_render == (dirty0 || set_bit_before(
                        sprite@,
                        si,
                        sj + 1,
                    ))) by {
                        if set_bit_before(sprite@, si, sj + 1) {
                            let (r, k) = choose|r: int, k: int|
                                0 <= r < sprite@.len() && 0 <= k < 8 && pair_before(r, k, si, sj + 1)
                                    && #[trigger] bit_of(sprite@[r], k);
                            if !(r == si && k == sj) {
                                assert(pair_before(r, k, si, sj));
                                assert(set_bit_before(sprite@, si, sj));
                            }
                        } else {
                            if set_bit_before(sprite@, si, sj) {
                                let (r, k) = choose|r: int, k: int|
                                    0 <= r < sprite@.len() && 0 <= k < 8 && pair_before(r, k, si, sj)
                                        && #[trigger] bit_of(sprite@[r], k);
                                assert(pair_before(r, k, si, sj + 1));
                            }
                        }
                    }
                }
                j = j + 1;
            }
            proof {
                let si = i as int;
                assert forall|idx: int| 0 <= idx < PIXEL_COUNT implies hits_before(
                    xs,
                    ys,
                    sprite@,
                    si,
                    8,
                    idx,
                ) == hits_before(xs, ys, sprite@, si + 1, 0, idx) by {
                    if hits_before(xs, ys, sprite@, si, 8, idx) {
                        let (r, k) = choose|r: int, k: int|
                            0 <= r < sprite@.len() && 0 <= k < 8 && pair_before(r, k, si, 8)
                                && bit_of(sprite@[r], k) && #[trigger] target_of(xs, ys, r, k)
                                == idx;
                        assert(pair_before(r, k, si + 1, 0));
                    }
                    if hits_before(xs, ys, sprite@, si + 1, 0, idx) {
                        let (r, k) = choose|r: int, k: int|
                            0 <= r < sprite@.len() && 0 <= k < 8 && pair_before(r, k, si + 1, 0)
                                && bit_of(sprite@[r], k) && #[trigger] target_of(xs, ys, r, k)
                                == idx;
                        assert(pair_before(r, k, si, 8));
                    }
                }
                assert(collides_before(p0, xs, ys, sprite@, si, 8) == collides_before(
                    p0,
                    xs,
                    ys,
                    sprite@,
                    si + 1,
                    0,
                )) by {
                    if collides_before(p0, xs, ys, sprite@, si, 8) {
                        let (r, k) = choose|r: int, k: int|
                            0 <= r < sprite@.len() && 0 <= k < 8 && pair_before(r, k, si, 8)
                                && bit_of(sprite@[r], k) && p0[#[trigger] target_of(xs, ys, r, k)];
                        assert(pair_before(r, k, si + 1, 0));
                    }
                    if collides_before(p0, xs, ys, sprite@, si + 1, 0) {
                        let (r, k) = choose|r: int, k: int|
                            0 <= r < sprite@.len() && 0 <= k < 8 && pair_before(r, k, si + 1, 0)
                                && bit_of(sprite@[r], k) && p0[#[trigger] target_of(xs, ys, r, k)];
                        assert(pair_before(r, k, si, 8));
                    }
                }
                assert(set_bit_before(sprite@, si, 8) == set_bit_before(sprite@, si + 1, 0)) by {
                    if set_bit_before(sprite@, si, 8) {
                        let (r, k) = choose|r: int, k: int|
                            0 <= r < sprite@.len() && 0 <= k < 8 && pair_before(r, k, si, 8)
                                && #[trigger] bit_of(sprite@[r], k);
                        assert(pair_before(r, k, si + 1, 0));
                    }
                    if set_bit_before(sprite@, si + 1, 0) {
                        let (r, k) = choose|r: int, k: int|
                            0 <= r < sprite@.len() && 0 <= k < 8 && pair_before(r, k, si + 1, 0)
                                && #[trigger] bit_of(sprite@[r], k);
                        assert(pair_before(r, k, si, 8));
                    }
                }
            }
            i = i + 1;
        }
        proof {
            let ns = n as int;
            assert forall|idx: int| 0 <= idx < PIXEL_COUNT implies hits_before(
                xs,
                ys,
                sprite@,
                ns,
                0,
                idx,
            ) == sprite_hits(xs, ys, sprite@, idx) by {
                if hits_before(xs, ys, sprite@, ns, 0, idx) {
                    let (r, k) = choose|r: int, k: int|
                        0 <= r < sprite@.len() && 0 <= k < 8 && pair_before(r, k, ns, 0) && bit_of(
                            sprite@[r],
                            k,
                        ) && #[trigger] target_of(xs, ys, r, k) == idx;
                    assert(sprite_hits(xs, ys, sprite@, idx));
                }
                if sprite_hits(xs, ys, sprite@, idx) {
                    let (r, k) = choose|r: int, k: int|
                        0 <= r < sprite@.len() && 0 <= k < 8 && bit_of(sprite@[r], k)
                            && #[trigger] target_of(xs, ys, r, k) == idx;
                    assert(pair_before(r, k, ns, 0));
                }
            }
            assert(collides_before(p0, xs, ys, sprite@, ns, 0) == spec_collides(
                p0,
                xs,
                ys,
                sprite@,
            )) by {
                if collides_before(p0, xs, ys, sprite@, ns, 0) {
                    let (r, k) = choose|r: int, k: int|
                        0 <= r < sprite@.len() && 0 <= k < 8 && pair_before(r, k, ns, 0) && bit_of(
                            sprite@[r],
                            k,
                        ) && p0[#[trigger] target_of(xs, ys, r, k)];
                    assert(spec_collides(p0, xs, ys, sprite@));
                }
                if spec_collides(p0, xs, ys, sprite@) {
                    let (r, k) = choose|r: int, k: int|
                        0 <= r < sprite@.len() && 0 <= k < 8 && bit_of(sprite@[r], k)
                            && p0[#[trigger] target_of(xs, ys, r, k)];
                    assert(pair_before(r, k, ns, 0));
                }
            }
            assert(set_bit_before(sprite@, ns, 0) == sprite_has_set_bit(sprite@)) by {
                if set_bit_before(sprite@, ns, 0) {
                    let (r, k) = choose|r: int, k: int|
                        0 <= r < sprite@.len() && 0 <= k < 8 && pair_before(r, k, ns, 0)
                            && #[trigger] bit_of(sprite@[r], k);
                    assert(sprite_has_set_bit(sprite@));
                }
                if sprite_has_set_bit(sprite@) {
                    let (r, k) = choose|r: int, k: int|
                        0 <= r < sprite@.len() && 0 <= k < 8 && #[trigger] bit_of(sprite@[r], k);
                    assert(pair_before(r, k, ns, 0));
                }
            }
            assert(self@.pixels =~= draw_pixels(p0, xs, ys, sprite@));
        }
        collided
    }
}

/// A vector of 2048 pixels, all off.
fn all_off_pixels() -> (v: Vec<bool>)
    ensures
        v@ =~= Seq::new(PIXEL_COUNT as nat, |idx: int| false),
{
    let mut v: Vec<bool> = Vec::new();
    let mut i: usize = 0;
    while i < PIXEL_COUNT
        invariant
            i <= PIXEL_COUNT,
            v@.len() == i,
            forall|idx: int| 0 <= idx < i ==> !v@[idx],
        decreases PIXEL_COUNT - i,
    {
        v.push(false);
        i = i + 1;
    }
    v
}

} // verus!
