//! Per-scanline sprite selection into two null-terminated caches, one per
//! priority.
use vstd::prelude::*;

use crate::types::{Sprite, SPRITE_CACHE, SPR_DOUBLE, SPR_ENABLED, SPR_MAIN_SCREEN, SPR_PRIORITY, SPR_SUB_SCREEN};

verus! {

/// At most `SPRITE_CACHE` sprites, terminated by the first `None` when fewer.
pub type SpriteCache = [Option<Sprite>; 16];
/// The caches of priority 0 and priority 1.
pub type SpriteCaches = [SpriteCache; 2];

/// The sprites of `oam` visible on row `y` whose priority flag is `p`, in
/// storage order.
pub open spec fn picks(oam: Seq<Sprite>, y: int, p: bool) -> Seq<Sprite>
    decreases oam.len(),
{
    if oam.len() == 0 {
        Seq::empty()
    } else {
        let rest = picks(oam.drop_last(), y, p);
        let s = oam.last();
        if s.visible_on(y) && s.flag(SPR_PRIORITY) == p {
            rest.push(s)
        } else {
            rest
        }
    }
}

/// The sprites drawn on row `y` at priority `p`: the first `SPRITE_CACHE`
/// visible ones.
pub open spec fn row_sprites(oam: Seq<Sprite>, y: int, p: bool) -> Seq<Sprite> {
    let all = picks(oam, y, p);
    if all.len() <= 16 {
        all
    } else {
        all.take(16)
    }
}

/// No more than `SPRITE_CACHE` sprites of one priority are drawn on a row:
/// the first of those visible, in storage order.
pub proof fn lemma_cache_cap(oam: Seq<Sprite>, y: int, p: bool)
    ensures
        row_sprites(oam, y, p).len() <= SPRITE_CACHE,
        row_sprites(oam, y, p).len() == (if picks(oam, y, p).len() <= 16 {
            picks(oam, y, p).len() as int
        } else {
            16
        }),
        forall|j: int|
            0 <= j < row_sprites(oam, y, p).len() ==> #[trigger] row_sprites(oam, y, p)[j] == picks(
                oam,
                y,
                p,
            )[j],
{
}

/// Index of the first empty entry of `c` at or after `i`, or `c.len()`.
pub open spec fn first_gap(c: Seq<Option<Sprite>>, i: int) -> int
    decreases c.len() - i,
{
    if i >= c.len() || i < 0 {
        i
    } else if c[i] is None {
        i
    } else {
        first_gap(c, i + 1)
    }
}

/// The sprites a cache holds before its terminator.
pub open spec fn cache_list(c: Seq<Option<Sprite>>) -> Seq<Sprite> {
    Seq::new(first_gap(c, 0) as nat, |j: int| c[j]->Some_0)
}

proof fn lemma_first_gap(c: Seq<Option<Sprite>>, i: int, n: int)
    requires
        0 <= i <= n <= c.len(),
        forall|j: int| i <= j < n ==> c[j] is Some,
        n == c.len() || c[n] is None,
    ensures
        first_gap(c, i) == n,
    decreases n - i,
{
    if i < n {
        lemma_first_gap(c, i + 1, n);
    }
}

/// Every sprite picked is visible on the row, has the priority asked for and
/// is a sprite of `oam`.
pub proof fn lemma_picks_from(oam: Seq<Sprite>, y: int, p: bool)
    ensures
        forall|j: int|
            0 <= j < picks(oam, y, p).len() ==> {
                &&& (#[trigger] picks(oam, y, p)[j]).visible_on(y)
                &&& picks(oam, y, p)[j].flag(SPR_PRIORITY) == p
                &&& oam.contains(picks(oam, y, p)[j])
            },
    decreases oam.len(),
{
    if oam.len() > 0 {
        lemma_picks_from(oam.drop_last(), y, p);
        let rest = picks(oam.drop_last(), y, p);
        assert forall|j: int| 0 <= j < rest.len() implies oam.contains(#[trigger] rest[j]) by {
            let k = choose|k: int| 0 <= k < oam.drop_last().len() && oam.drop_last()[k] == rest[j];
            assert(oam[k] == rest[j]);
        }
        assert(oam[oam.len() - 1] == oam.last());
    }
}

/// Picks over a prefix are a prefix of the picks over a longer one.
pub proof fn lemma_picks_prefix(oam: Seq<Sprite>, y: int, p: bool, i: int, n: int)
    requires
        0 <= i <= n <= oam.len(),
    ensures
        picks(oam.take(i), y, p).len() <= picks(oam.take(n), y, p).len(),
        forall|j: int|
            0 <= j < picks(oam.take(i), y, p).len() ==> picks(oam.take(n), y, p)[j] == picks(
                oam.take(i),
                y,
                p,
            )[j],
    decreases n - i,
{
    if i < n {
        lemma_picks_prefix(oam, y, p, i, n - 1);
        assert(oam.take(n).drop_last() =~= oam.take(n - 1));
    }
}

/// Fills both caches with the sprites drawn on row `y`: in each, the sprites
/// of `row_sprites`, followed by a terminator when there is room.
pub fn per_scanline(oam: &[Sprite; 256], y: u8, sprite_caches: &mut SpriteCaches)
    ensures
        forall|p: int|
            0 <= p < 2 ==> cache_list((#[trigger] final(sprite_caches)@[p])@) == row_sprites(
                oam@,
                y as int,
                p == 1,
            ),
{
    let mut counts: [usize; 2] = [0, 0];
    let mut i: usize = 0;
    while i < 256 && !(counts[0] == SPRITE_CACHE && counts[1] == SPRITE_CACHE)
        invariant
            0 <= i <= 256,
            forall|p: int|
                0 <= p < 2 ==> #[trigger] counts@[p] == (if picks(oam@.take(i as int), y as int, p == 1).len() <= 16 {
                    picks(oam@.take(i as int), y as int, p == 1).len() as int
                } else {
                    16
                }),
            forall|p: int, j: int|
                0 <= p < 2 && 0 <= j < counts@[p] ==> (#[trigger] sprite_caches@[p]@[j]) == Some(
                    picks(oam@.take(i as int), y as int, p == 1)[j],
                ),
        decreases 256 - i,
    {
        let spr = oam[i];
        proof {
            assert(oam@.take(i + 1).drop_last() =~= oam@.take(i as int));
            assert(oam@.take(i + 1).last() == spr);
        }
        let flags = spr.flags;
        let p: usize = if flags & SPR_PRIORITY != 0 {
            1
        } else {
            0
        };
        let enabled = flags & SPR_ENABLED != 0;
        let double = flags & SPR_DOUBLE != 0;
        let eff_height: i32 = if double {
            2 * spr.height as i32
        } else {
            spr.height as i32
        };
        let eff_width: i32 = if double {
            2 * spr.width as i32
        } else {
            spr.width as i32
        };
        let on_screen = (flags & SPR_MAIN_SCREEN != 0 && (flags >> 8) & 0xF != 0) || (flags
            & SPR_SUB_SCREEN != 0 && (flags >> 12) & 0xF != 0);
        let visible = enabled && on_screen && (y as i32) >= spr.y as i32 && (y as i32)
            < spr.y as i32 + eff_height && spr.x < 240 && (spr.x as i32) > -eff_width;
        assert(((flags >> 8u16) & 0xF) <= 15 && ((flags >> 12u16) & 0xF) <= 15) by (bit_vector);
        assert(visible == spr.visible_on(y as int));
        if visible && counts[p] < SPRITE_CACHE {
            let c = counts[p];
            let mut cache = sprite_caches[p];
            cache[c] = Some(spr);
            sprite_caches[p] = cache;
            counts[p] = c + 1;
        }
        i += 1;
    }
    proof {
        assert(oam@.take(256) =~= oam@);
        lemma_picks_prefix(oam@, y as int, false, i as int, 256);
        lemma_picks_prefix(oam@, y as int, true, i as int, 256);
        assert forall|q: int| 0 <= q < 2 implies #[trigger] counts@[q] == (if row_sprites(oam@, y as int, q == 1).len() <= 16 {
            row_sprites(oam@, y as int, q == 1).len() as int
        } else {
            16
        }) && forall|j: int| 0 <= j < counts@[q] ==> (#[trigger] sprite_caches@[q]@[j]) == Some(
            row_sprites(oam@, y as int, q == 1)[j],
        ) by {
            assert(counts@[q] == counts[q as int]);
        }
    }
    let mut p: usize = 0;
    while p < 2
        invariant
            0 <= p <= 2,
            forall|q: int|
                0 <= q < 2 ==> #[trigger] counts@[q] == (if row_sprites(oam@, y as int, q == 1).len() <= 16 {
                    row_sprites(oam@, y as int, q == 1).len() as int
                } else {
                    16
                }),
            forall|q: int, j: int|
                0 <= q < 2 && 0 <= j < counts@[q] ==> (#[trigger] sprite_caches@[q]@[j]) == Some(
                    row_sprites(oam@, y as int, q == 1)[j],
                ),
            forall|q: int| 0 <= q < p && counts@[q] < 16 ==> (#[trigger] sprite_caches@[q]@[counts@[q] as int]) is None,
        decreases 2 - p,
    {
        if counts[p] < SPRITE_CACHE {
            let mut cache = sprite_caches[p];
            cache[counts[p]] = None;
            sprite_caches[p] = cache;
        }
        p += 1;
    }
    assert forall|q: int| 0 <= q < 2 implies cache_list((#[trigger] sprite_caches@[q])@)
        == row_sprites(oam@, y as int, q == 1) by {
        lemma_first_gap(sprite_caches@[q]@, 0, counts@[q] as int);
        assert(cache_list(sprite_caches@[q]@) =~= row_sprites(oam@, y as int, q == 1));
    }
}

} // verus!
