use vstd::prelude::*;

use crate::error::CPUError;

verus! {

/// Bytes in one digit glyph.
pub const DIGIT_SIZE: usize = 5;

/// The five rows of the glyph of hexadecimal digit `d`, for `d` below 16.
pub open spec fn glyph(d: u8) -> Seq<u8> {
    if d == 0x0 {
        seq![0xF0u8, 0x90u8, 0x90u8, 0x90u8, 0xF0u8]
    } else if d == 0x1 {
        seq![0x20u8, 0x60u8, 0x20u8, 0x20u8, 0x70u8]
    } else if d == 0x2 {
        seq![0xF0u8, 0x10u8, 0xF0u8, 0x80u8, 0xF0u8]
    } else if d == 0x3 {
        seq![0xF0u8, 0x10u8, 0xF0u8, 0x10u8, 0xF0u8]
    } else if d == 0x4 {
        seq![0x90u8, 0x90u8, 0xF0u8, 0x10u8, 0x10u8]
    } else if d == 0x5 {
        seq![0xF0u8, 0x80u8, 0xF0u8, 0x10u8, 0xF0u8]
    } else if d == 0x6 {
        seq![0xF0u8, 0x80u8, 0xF0u8, 0x90u8, 0xF0u8]
    } else if d == 0x7 {
        seq![0xF0u8, 0x10u8, 0x20u8, 0x40u8, 0x40u8]
    } else if d == 0x8 {
        seq![0xF0u8, 0x90u8, 0xF0u8, 0x90u8, 0xF0u8]
    } else if d == 0x9 {
        seq![0xF0u8, 0x90u8, 0xF0u8, 0x10u8, 0xF0u8]
    } else if d == 0xA {
        seq![0xF0u8, 0x90u8, 0xF0u8, 0x90u8, 0x90u8]
    } else if d == 0xB {
        seq![0xE0u8, 0x90u8, 0xE0u8, 0x90u8, 0xE0u8]
    } else if d == 0xC {
        seq![0xF0u8, 0x80u8, 0x80u8, 0x80u8, 0xF0u8]
    } else if d == 0xD {
        seq![0xE0u8, 0x90u8, 0x90u8, 0x90u8, 0xE0u8]
    } else if d == 0xE {
        seq![0xF0u8, 0x80u8, 0xF0u8, 0x80u8, 0xF0u8]
    } else if d == 0xF {
        seq![0xF0u8, 0x80u8, 0xF0u8, 0x80u8, 0x80u8]
    } else {
        Seq::empty()
    }
}

/// Bit `c` of a sprite row, counting from the most significant bit.
pub open spec fn sprite_bit(row: u8, c: int) -> bool {
    (row >> ((7 - c) as u8)) & 1u8 == 1u8
}

/// The buffer index that bit `c` of sprite row `r` lands on when the sprite is
/// drawn at (x, y) on a `w` by `h` row-major buffer; rows and columns wrap
/// independently.
pub open spec fn target(x: int, y: int, w: int, h: int, r: int, c: int) -> int {
    ((y + r) % h) * w + (x + c) % w
}

/// The buffer after the first `k` sprite bits, taken row by row and each row
/// from its most significant bit, have been XORed onto `prior`.
pub open spec fn blit(prior: Seq<bool>, sprite: Seq<u8>, x: int, y: int, w: int, h: int, k: nat) -> Seq<bool>
    decreases k,
{
    if k == 0 {
        prior
    } else {
        let before = blit(prior, sprite, x, y, w, h, (k - 1) as nat);
        let r = (k - 1) / 8;
        let c = (k - 1) % 8;
        let i = target(x, y, w, h, r, c);
        before.update(i, before[i] != sprite_bit(sprite[r], c))
    }
}

/// Whether any of the first `k` sprite bits was set where the buffer, as the
/// earlier bits left it, was already set.
pub open spec fn collision(prior: Seq<bool>, sprite: Seq<u8>, x: int, y: int, w: int, h: int, k: nat) -> bool
    decreases k,
{
    if k == 0 {
        false
    } else {
        let before = blit(prior, sprite, x, y, w, h, (k - 1) as nat);
        let r = (k - 1) / 8;
        let c = (k - 1) % 8;
        collision(prior, sprite, x, y, w, h, (k - 1) as nat) || (before[target(x, y, w, h, r, c)]
            && sprite_bit(sprite[r], c))
    }
}

/// Stepping one row or column further, with wraparound at `m`.
proof fn lemma_wrap_step(a: int, t: int, m: int)
    requires
        m > 0,
        a >= 0,
        t == a % m,
    ensures
        (if t + 1 == m { 0 } else { t + 1 }) == (a + 1) % m,
{
    let q = a / m;
    vstd::arithmetic::div_mod::lemma_fundamental_div_mod(a, m);
    assert(a == q * m + t);
    vstd::arithmetic::div_mod::lemma_mod_bound(a, m);
    if t + 1 == m {
        assert(a + 1 == (q + 1) * m + 0) by (nonlinear_arith)
            requires
                a == q * m + t,
                t + 1 == m,
        ;
        vstd::arithmetic::div_mod::lemma_fundamental_div_mod_converse(a + 1, m, q + 1, 0);
    } else {
        vstd::arithmetic::div_mod::lemma_fundamental_div_mod_converse(a + 1, m, q, t + 1);
    }
}

/// Sprite bit (r, c) is set and lands on buffer index `p`.
pub open spec fn lands_on(sprite: Seq<u8>, x: int, y: int, w: int, h: int, r: int, c: int, p: int) -> bool {
    &&& 0 <= r < sprite.len()
    &&& 0 <= c < 8
    &&& sprite_bit(sprite[r], c)
    &&& target(x, y, w, h, r, c) == p
}

/// Some set bit of the wrapped sprite lands on buffer index `p`.
pub open spec fn covered(sprite: Seq<u8>, x: int, y: int, w: int, h: int, p: int) -> bool {
    exists|r: int, c: int| lands_on(sprite, x, y, w, h, r, c, p)
}

/// Some set bit among the first `k` lands on buffer index `p`.
spec fn covered_before(sprite: Seq<u8>, x: int, y: int, w: int, h: int, k: int, p: int) -> bool {
    exists|r: int, c: int| r * 8 + c < k && lands_on(sprite, x, y, w, h, r, c, p)
}

/// Every sprite bit lands inside the buffer.
proof fn lemma_target_in_range(x: int, y: int, w: int, h: int, r: int, c: int)
    requires
        w > 0,
        h > 0,
    ensures
        0 <= target(x, y, w, h, r, c) < w * h,
{
    let a = (y + r) % h;
    let b = (x + c) % w;
    assert(0 <= a * w + b < w * h) by (nonlinear_arith)
        requires
            0 <= a < h,
            0 <= b < w,
    ;
}

/// Two sprite bits of rows below `h` and columns below `w` never land on the
/// same pixel.
proof fn lemma_target_unique(x: int, y: int, w: int, h: int, r: int, c: int, r2: int, c2: int)
    requires
        x >= 0,
        y >= 0,
        w > 0,
        h > 0,
        0 <= r < h,
        0 <= r2 < h,
        0 <= c < w,
        0 <= c2 < w,
        target(x, y, w, h, r, c) == target(x, y, w, h, r2, c2),
    ensures
        r == r2,
        c == c2,
{
    let (a, b) = ((y + r) % h, (x + c) % w);
    let (a2, b2) = ((y + r2) % h, (x + c2) % w);
    vstd::arithmetic::div_mod::lemma_fundamental_div_mod_converse(a * w + b, w, a, b);
    vstd::arithmetic::div_mod::lemma_fundamental_div_mod_converse(a2 * w + b2, w, a2, b2);
    lemma_mod_cancel(y, r, r2, h);
    lemma_mod_cancel(x, c, c2, w);
}

/// Offsets below the modulus that agree after adding a base agree.
proof fn lemma_mod_cancel(base: int, i: int, j: int, m: int)
    requires
        m > 0,
        0 <= i < m,
        0 <= j < m,
        (base + i) % m == (base + j) % m,
    ensures
        i == j,
{
    vstd::arithmetic::div_mod::lemma_mod_equivalence(base + i, base + j, m);
    let d = i - j;
    assert((base + i) - (base + j) == d);
    vstd::arithmetic::div_mod::lemma_fundamental_div_mod(d, m);
    let q = d / m;
    assert(d == m * q);
    assert(q == 0) by (nonlinear_arith)
        requires
            d == m * q,
            -m < d < m,
            m > 0,
    ;
}

/// The effect of a blit on each pixel is to XOR it with the blit of the same
/// sprite onto an all-clear buffer of the same size.
proof fn lemma_blit_mask(prior: Seq<bool>, sprite: Seq<u8>, x: int, y: int, w: int, h: int, k: nat)
    requires
        w > 0,
        h > 0,
        prior.len() == w * h,
    ensures
        blit(prior, sprite, x, y, w, h, k).len() == prior.len(),
        forall|p: int|
            0 <= p < prior.len() ==> blit(prior, sprite, x, y, w, h, k)[p] == (prior[p] != blit(
                Seq::new(prior.len(), |i: int| false),
                sprite,
                x,
                y,
                w,
                h,
                k,
            )[p]),
    decreases k,
{
    let clear = Seq::new(prior.len(), |i: int| false);
    if k > 0 {
        let j = (k - 1) as nat;
        lemma_blit_mask(prior, sprite, x, y, w, h, j);
        lemma_blit_mask(clear, sprite, x, y, w, h, j);
        assert(Seq::new(clear.len(), |i: int| false) =~= clear);
        let before = blit(prior, sprite, x, y, w, h, j);
        let mask = blit(clear, sprite, x, y, w, h, j);
        let r = (j / 8) as int;
        let c = (j % 8) as int;
        let t = target(x, y, w, h, r, c);
        let b = sprite_bit(sprite[r], c);
        lemma_target_in_range(x, y, w, h, r, c);
        assert(blit(prior, sprite, x, y, w, h, k) == before.update(t, before[t] != b));
        assert(blit(clear, sprite, x, y, w, h, k) == mask.update(t, mask[t] != b));
        assert forall|p: int| 0 <= p < prior.len() implies blit(prior, sprite, x, y, w, h, k)[p] == (
        prior[p] != blit(clear, sprite, x, y, w, h, k)[p]) by {
            assert(clear[p] == false);
        }
    }
}

/// The state of the buffer and the collision flag after the first `k` bits,
/// where no two sprite bits share a pixel.
proof fn lemma_blit_prefix(prior: Seq<bool>, sprite: Seq<u8>, x: int, y: int, w: int, h: int, k: nat)
    requires
        x >= 0,
        y >= 0,
        w >= 8,
        h > 0,
        sprite.len() <= h,
        prior.len() == w * h,
        k <= sprite.len() * 8,
    ensures
        blit(prior, sprite, x, y, w, h, k).len() == w * h,
        forall|p: int|
            0 <= p < w * h ==> blit(prior, sprite, x, y, w, h, k)[p] == (prior[p]
                != covered_before(sprite, x, y, w, h, k as int, p)),
        collision(prior, sprite, x, y, w, h, k) <==> exists|p: int|
            0 <= p < w * h && prior[p] && covered_before(sprite, x, y, w, h, k as int, p),
    decreases k,
{
    if k == 0 {
        assert forall|p: int| !covered_before(sprite, x, y, w, h, 0, p) by {
            if covered_before(sprite, x, y, w, h, 0, p) {
                let (r, c) = choose|r: int, c: int|
                    r * 8 + c < 0 && lands_on(sprite, x, y, w, h, r, c, p);
                assert(r * 8 + c >= 0) by (nonlinear_arith)
                    requires
                        r >= 0,
                        c >= 0,
                ;
            }
        }
    } else {
        let j = (k - 1) as nat;
        lemma_blit_prefix(prior, sprite, x, y, w, h, j);
        let before = blit(prior, sprite, x, y, w, h, j);
        let r0 = (j / 8) as int;
        let c0 = (j % 8) as int;
        let t = target(x, y, w, h, r0, c0);
        let b = sprite_bit(sprite[r0], c0);
        assert(r0 < sprite.len()) by (nonlinear_arith)
            requires
                r0 == j / 8,
                j < sprite.len() * 8,
        ;
        assert(r0 * 8 + c0 == j);
        lemma_target_in_range(x, y, w, h, r0, c0);
        // The bits before `j` and bit `j` itself.
        assert forall|p: int|
            covered_before(sprite, x, y, w, h, k as int, p) <==> (covered_before(
                sprite,
                x,
                y,
                w,
                h,
                j as int,
                p,
            ) || (b && p == t)) by {
            if covered_before(sprite, x, y, w, h, k as int, p) {
                let (r, c) = choose|r: int, c: int|
                    r * 8 + c < k && lands_on(sprite, x, y, w, h, r, c, p);
                if r * 8 + c == j {
                    vstd::arithmetic::div_mod::lemma_fundamental_div_mod_converse(j as int, 8, r, c);
                } else {
                    assert(r * 8 + c < j && lands_on(sprite, x, y, w, h, r, c, p));
                }
            }
            if b && p == t {
                assert(r0 * 8 + c0 < k && lands_on(sprite, x, y, w, h, r0, c0, p));
            }
        }
        if b {
            if covered_before(sprite, x, y, w, h, j as int, t) {
                let (r, c) = choose|r: int, c: int|
                    r * 8 + c < j && lands_on(sprite, x, y, w, h, r, c, t);
                lemma_target_unique(x, y, w, h, r, c, r0, c0);
            }
        }
        assert(collision(prior, sprite, x, y, w, h, k) == (collision(prior, sprite, x, y, w, h, j) || (
        before[t] && b)));
        if collision(prior, sprite, x, y, w, h, k) {
            if !collision(prior, sprite, x, y, w, h, j) {
                assert(0 <= t < w * h && prior[t] && covered_before(sprite, x, y, w, h, k as int, t));
            }
        }
        if exists|p: int|
            0 <= p < w * h && prior[p] && covered_before(sprite, x, y, w, h, k as int, p) {
            let p = choose|p: int|
                0 <= p < w * h && prior[p] && covered_before(sprite, x, y, w, h, k as int, p);
            if !covered_before(sprite, x, y, w, h, j as int, p) {
                assert(b && p == t);
            }
        }
    }
}

/// Where no two sprite bits share a pixel (the buffer is at least 8 wide and
/// the sprite no taller than the buffer), drawing leaves each pixel XORed with
/// whether the wrapped sprite covers it, and reports a collision exactly when
/// some covered pixel was already set.
pub proof fn lemma_draw_xor(prior: Seq<bool>, sprite: Seq<u8>, x: int, y: int, w: int, h: int)
    requires
        x >= 0,
        y >= 0,
        w >= 8,
        h > 0,
        sprite.len() <= h,
        prior.len() == w * h,
    ensures
        blit(prior, sprite, x, y, w, h, (sprite.len() * 8) as nat).len() == w * h,
        forall|p: int|
            0 <= p < w * h ==> blit(prior, sprite, x, y, w, h, (sprite.len() * 8) as nat)[p] == (
            prior[p] != covered(sprite, x, y, w, h, p)),
        collision(prior, sprite, x, y, w, h, (sprite.len() * 8) as nat) <==> exists|p: int|
            0 <= p < w * h && prior[p] && covered(sprite, x, y, w, h, p),
{
    let n = (sprite.len() * 8) as int;
    lemma_blit_prefix(prior, sprite, x, y, w, h, n as nat);
    assert forall|p: int|
        covered_before(sprite, x, y, w, h, n, p) <==> covered(sprite, x, y, w, h, p) by {
        if covered(sprite, x, y, w, h, p) {
            let (r, c) = choose|r: int, c: int| lands_on(sprite, x, y, w, h, r, c, p);
            assert(r * 8 + c < n) by (nonlinear_arith)
                requires
                    0 <= r < sprite.len(),
                    0 <= c < 8,
                    n == sprite.len() * 8,
            ;
        }
        if covered_before(sprite, x, y, w, h, n, p) {
            let (r, c) = choose|r: int, c: int|
                r * 8 + c < n && lands_on(sprite, x, y, w, h, r, c, p);
            assert(lands_on(sprite, x, y, w, h, r, c, p));
        }
    }
}

/// Drawing the same sprite at the same place twice gives back the buffer as it
/// was before the first draw; where no two sprite bits share a pixel, the
/// second draw reports a collision exactly when some pixel that the sprite
/// covers was set after the first.
pub proof fn lemma_draw_twice(prior: Seq<bool>, sprite: Seq<u8>, x: int, y: int, w: int, h: int)
    requires
        x >= 0,
        y >= 0,
        w > 0,
        h > 0,
        prior.len() == w * h,
    ensures
        ({
            let n = (sprite.len() * 8) as nat;
            let once = blit(prior, sprite, x, y, w, h, n);
            &&& blit(once, sprite, x, y, w, h, n) == prior
            &&& (w >= 8 && sprite.len() <= h) ==> (collision(once, sprite, x, y, w, h, n)
                <==> exists|p: int| 0 <= p < w * h && once[p] && covered(sprite, x, y, w, h, p))
        }),
{
    let n = (sprite.len() * 8) as nat;
    let once = blit(prior, sprite, x, y, w, h, n);
    lemma_blit_mask(prior, sprite, x, y, w, h, n);
    lemma_blit_mask(once, sprite, x, y, w, h, n);
    let clear = Seq::new(prior.len(), |i: int| false);
    assert(Seq::new(once.len(), |i: int| false) == clear);
    assert(blit(once, sprite, x, y, w, h, n) =~= prior);
    if w >= 8 && sprite.len() <= h {
        lemma_draw_xor(once, sprite, x, y, w, h);
    }
}

/// XOR-blits `sprite` onto the row-major `bounds.0` by `bounds.1` `buffer` at
/// (x, y), wrapping each row and each column around the edges, and reports
/// whether any sprite bit hit a pixel that was already set.
pub fn draw(sprite: &[u8], x: usize, y: usize, bounds: (usize, usize), buffer: &mut [bool]) -> (collided: bool)
    requires
        bounds.0 > 0,
        bounds.1 > 0,
        old(buffer)@.len() == bounds.0 * bounds.1,
    ensures
        final(buffer)@ == blit(old(buffer)@, sprite@, x as int, y as int, bounds.0 as int, bounds.1 as int, (sprite@.len() * 8) as nat),
        collided == collision(old(buffer)@, sprite@, x as int, y as int, bounds.0 as int, bounds.1 as int, (sprite@.len() * 8) as nat),
{
    let (width, height) = bounds;
    let ghost prior = buffer@;
    let total = buffer.len();
    let ghost (gx, gy, w, h) = (x as int, y as int, width as int, height as int);
    let mut did_collide = false;
    let mut ty: usize = y % height;
    let mut row: usize = 0;
    while row < sprite.len()
        invariant
            w > 0,
            h > 0,
            w == width,
            h == height,
            gx == x,
            gy == y,
            row <= sprite@.len(),
            buffer@.len() == w * h,
            total == w * h,
            ty == (gy + row) % h,
            buffer@ == blit(prior, sprite@, gx, gy, w, h, (row * 8) as nat),
            did_collide == collision(prior, sprite@, gx, gy, w, h, (row * 8) as nat),
        decreases sprite@.len() - row,
    {
        let mut tx: usize = x % width;
        let mut col: usize = 0;
        while col < 8
            invariant
                w > 0,
                h > 0,
                w == width,
                h == height,
                gx == x,
                gy == y,
                row < sprite@.len(),
                col <= 8,
                buffer@.len() == w * h,
                total == w * h,
                ty == (gy + row) % h,
                tx == (gx + col) % w,
                buffer@ == blit(prior, sprite@, gx, gy, w, h, (row * 8 + col) as nat),
                did_collide == collision(prior, sprite@, gx, gy, w, h, (row * 8 + col) as nat),
            decreases 8 - col,
        {
            let ghost k = (row * 8 + col) as nat;
            assert(k / 8 == row && k % 8 == col) by {
                vstd::arithmetic::div_mod::lemma_fundamental_div_mod_converse(k as int, 8, row as int, col as int);
            }
            assert(ty * w + tx < w * h) by (nonlinear_arith)
                requires
                    ty < h,
                    tx < w,
            ;
            let index = ty * width + tx;
            assert(index == target(gx, gy, w, h, row as int, col as int));
            let shift = (7 - col) as u8;
            let pixel = (sprite[row] >> shift) & 1 == 1;
            assert(blit(prior, sprite@, gx, gy, w, h, (k + 1) as nat) == buffer@.update(index as int, buffer@[index as int] != pixel));
            did_collide = did_collide || (buffer[index] && pixel);
            buffer[index] = buffer[index] != pixel;
            proof {
                lemma_wrap_step(gx + col, tx as int, w);
            }
            tx = if tx + 1 == width { 0 } else { tx + 1 };
            col = col + 1;
        }
        proof {
            lemma_wrap_step(gy + row, ty as int, h);
        }
        ty = if ty + 1 == height { 0 } else { ty + 1 };
        row = row + 1;
    }
    did_collide
}

/// The `size` bytes of `memory` from `addr` on, or `InvalidAddress` of the last
/// address that they would take where that lies past the end.
pub fn read_sprite(addr: usize, size: usize, memory: &[u8]) -> (r: Result<&[u8], CPUError>)
    requires
        addr + size <= usize::MAX,
    ensures
        addr + size <= memory@.len() ==> (r matches Ok(s) && s@ == memory@.subrange(
            addr as int,
            addr + size,
        )),
        addr + size > memory@.len() ==> r == Err::<&[u8], CPUError>(
            CPUError::InvalidAddress((addr + size - 1) as u16),
        ),
{
    if addr + size > memory.len() {
        return Err(CPUError::InvalidAddress((addr + size - 1) as u16));
    }
    Ok(vstd::slice::slice_subrange(memory, addr, addr + size))
}

/// The glyph of hexadecimal digit `x`, or `InvalidDigit` above 0xF.
pub fn digit_sprite_data(x: u8) -> (r: Result<[u8; DIGIT_SIZE], CPUError>)
    ensures
        match r {
            Ok(g) => x < 16 && g@ == glyph(x),
            Err(e) => x >= 16 && e == CPUError::InvalidDigit(x),
        },
{
    let g: [u8; DIGIT_SIZE] = match x {
        0x0 => [0xF0, 0x90, 0x90, 0x90, 0xF0],
        0x1 => [0x20, 0x60, 0x20, 0x20, 0x70],
        0x2 => [0xF0, 0x10, 0xF0, 0x80, 0xF0],
        0x3 => [0xF0, 0x10, 0xF0, 0x10, 0xF0],
        0x4 => [0x90, 0x90, 0xF0, 0x10, 0x10],
        0x5 => [0xF0, 0x80, 0xF0, 0x10, 0xF0],
        0x6 => [0xF0, 0x80, 0xF0, 0x90, 0xF0],
        0x7 => [0xF0, 0x10, 0x20, 0x40, 0x40],
        0x8 => [0xF0, 0x90, 0xF0, 0x90, 0xF0],
        0x9 => [0xF0, 0x90, 0xF0, 0x10, 0xF0],
        0xA => [0xF0, 0x90, 0xF0, 0x90, 0x90],
        0xB => [0xE0, 0x90, 0xE0, 0x90, 0xE0],
        0xC => [0xF0, 0x80, 0x80, 0x80, 0xF0],
        0xD => [0xE0, 0x90, 0x90, 0x90, 0xE0],
        0xE => [0xF0, 0x80, 0xF0, 0x80, 0xF0],
        0xF => [0xF0, 0x80, 0xF0, 0x80, 0x80],
        _ => return Err(CPUError::InvalidDigit(x)),
    };
    assert(g@ =~= glyph(x));
    Ok(g)
}

} // verus!
