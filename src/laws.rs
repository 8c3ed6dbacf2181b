use vstd::prelude::*;
use crate::game::{
    TICK_MS, BABY_START_LEVEL, start_difficulty, spawned,
    Difficulty, Entity, Track, is_bad, is_good, is_hit, last_hit, next_difficulty, overlaps, reaches,
    sat_inc,
};

verus! {

/// The level of track `k`.
pub open spec fn level(d: Difficulty, k: Track) -> u64 {
    match k {
        Track::Baby => d.baby,
        Track::Sloth => d.sloth,
        Track::Kitten => d.kitten,
    }
}

/// The difficulty after ticks that picked the tracks `ts`, in order.
pub open spec fn difficulty_after(d: Difficulty, ts: Seq<Track>) -> Difficulty
    decreases ts.len(),
{
    if ts.len() == 0 {
        d
    } else {
        next_difficulty(difficulty_after(d, ts.drop_last()), ts.last())
    }
}

/// How many of the ticks `ts` took track `k` to the threshold `t`, which is
/// what brings in that threshold's hazards.
pub open spec fn threshold_hits(d: Difficulty, ts: Seq<Track>, k: Track, t: u64) -> nat
    decreases ts.len(),
{
    if ts.len() == 0 {
        0
    } else {
        threshold_hits(d, ts.drop_last(), k, t) + if reaches(
            level(difficulty_after(d, ts.drop_last()), k),
            ts.last(),
            k,
            t,
        ) {
            1nat
        } else {
            0nat
        }
    }
}

proof fn lemma_level_step(d: Difficulty, picked: Track, k: Track)
    ensures
        level(next_difficulty(d, picked), k) == if picked == k { sat_inc(level(d, k)) } else { level(d, k) },
{
}

/// Ticking a track a tenth at a time from below a threshold, the threshold is
/// met by exactly one tick once the level has got that far, and by none
/// before; so its hazards come in exactly once over any run.
pub proof fn lemma_threshold_hit_once(d: Difficulty, ts: Seq<Track>, k: Track, t: u64)
    requires
        level(d, k) < t < u64::MAX,
    ensures
        threshold_hits(d, ts, k, t) == if level(difficulty_after(d, ts), k) >= t { 1nat } else { 0nat },
    decreases ts.len(),
{
    if ts.len() > 0 {
        let pre = ts.drop_last();
        lemma_threshold_hit_once(d, pre, k, t);
        lemma_level_step(difficulty_after(d, pre), ts.last(), k);
    }
}

/// A good thing that touches a bad thing ends the round: the check finds a
/// touching good thing at or after it, and it is the one whose situation
/// gives the message when no later good thing touches anything.
pub proof fn lemma_touch_ends_round(es: Seq<Entity>, i: int, j: int, nx: i64, ny: i64)
    requires
        0 <= i < es.len(),
        0 <= j < es.len(),
        is_good(es[i]),
        is_bad(es[j]),
        overlaps(es[i], es[j], nx, ny),
    ensures
        last_hit(es, es.len() as int, nx, ny) matches Some(h) && i <= h < es.len() && is_hit(es, h, nx, ny),
        (forall|m: int| i < m < es.len() ==> !is_hit(es, m, nx, ny)) ==> last_hit(es, es.len() as int, nx, ny) == Some(i),
{
    assert(is_hit(es, i, nx, ny));
    lemma_last_hit_from(es, es.len() as int, i, nx, ny);
}

proof fn lemma_last_hit_from(es: Seq<Entity>, n: int, i: int, nx: i64, ny: i64)
    requires
        0 <= i < n <= es.len(),
        is_hit(es, i, nx, ny),
    ensures
        last_hit(es, n, nx, ny) matches Some(h) && i <= h < n && is_hit(es, h, nx, ny),
        (forall|m: int| i < m < n ==> !is_hit(es, m, nx, ny)) ==> last_hit(es, n, nx, ny) == Some(i),
    decreases n,
{
    if n - 1 > i {
        lemma_last_hit_from(es, n - 1, i, nx, ny);
    }
}

/// The score timer, in milliseconds, after frames of lengths `dts`.
pub open spec fn timer_after(timer: int, dts: Seq<u32>) -> int
    decreases dts.len(),
{
    if dts.len() == 0 {
        timer
    } else {
        (timer_after(timer, dts.drop_last()) + dts.last()) % (TICK_MS as int)
    }
}

/// How many score ticks frames of lengths `dts` bring.
pub open spec fn timer_ticks(timer: int, dts: Seq<u32>) -> nat
    decreases dts.len(),
{
    if dts.len() == 0 {
        0
    } else {
        timer_ticks(timer, dts.drop_last()) + if timer_after(timer, dts.drop_last()) + dts.last() >= TICK_MS {
            1nat
        } else {
            0nat
        }
    }
}

pub open spec fn total(dts: Seq<u32>) -> int
    decreases dts.len(),
{
    if dts.len() == 0 {
        0
    } else {
        total(dts.drop_last()) + dts.last()
    }
}

/// With no frame longer than a second, the score timer ticks once for each
/// full second that has gone by.
pub proof fn lemma_ticks_per_second(timer: int, dts: Seq<u32>)
    requires
        0 <= timer < TICK_MS,
        forall|i: int| 0 <= i < dts.len() ==> #[trigger] dts[i] <= TICK_MS,
    ensures
        0 <= timer_after(timer, dts) < TICK_MS,
        timer + total(dts) == timer_after(timer, dts) + TICK_MS * timer_ticks(timer, dts),
    decreases dts.len(),
{
    if dts.len() > 0 {
        let pre = dts.drop_last();
        assert forall|i: int| 0 <= i < pre.len() implies #[trigger] pre[i] <= TICK_MS by {
            assert(pre[i] == dts[i]);
        }
        lemma_ticks_per_second(timer, pre);
        assert(dts.last() == dts[dts.len() - 1]);
        let a = timer_after(timer, pre) + dts.last();
        assert(0 <= a < 2 * TICK_MS);
        if a >= TICK_MS {
            assert(a % (TICK_MS as int) == a - TICK_MS) by (nonlinear_arith)
                requires TICK_MS <= a < 2 * TICK_MS;
        } else {
            assert(a % (TICK_MS as int) == a) by (nonlinear_arith)
                requires 0 <= a < TICK_MS;
        }
    }
}

/// The difficulty after `n` ticks that all picked the Baby track, from the
/// start of a round.
proof fn lemma_baby_ticks(n: nat)
    requires
        n <= 1000,
    ensures
        difficulty_after(start_difficulty(), Seq::new(n, |i: int| Track::Baby))
            == (Difficulty { baby: (BABY_START_LEVEL + n) as u64, sloth: 0, kitten: 0 }),
    decreases n,
{
    if n > 0 {
        let ts = Seq::new(n, |i: int| Track::Baby);
        assert(ts.drop_last() =~= Seq::new((n - 1) as nat, |i: int| Track::Baby));
        assert(ts.last() == Track::Baby);
        lemma_baby_ticks((n - 1) as nat);
        assert(sat_inc((BABY_START_LEVEL + n - 1) as u64) == (BABY_START_LEVEL + n) as u64);
    }
}

/// Five seconds into a fresh round, in frames of at most a second each and
/// with every tick picking the Baby track, the score is 5, the Baby level is
/// 1.5, the other levels are 0, and no tick has brought in anything.
pub proof fn lemma_five_seconds_of_baby(dts: Seq<u32>)
    requires
        forall|i: int| 0 <= i < dts.len() ==> #[trigger] dts[i] <= TICK_MS,
        total(dts) == 5 * TICK_MS,
    ensures
        timer_ticks(0, dts) == 5,
        timer_after(0, dts) == 0,
        difficulty_after(start_difficulty(), Seq::new(5, |i: int| Track::Baby))
            == (Difficulty { baby: 15, sloth: 0, kitten: 0 }),
        forall|d: Difficulty| #[trigger] spawned(d, Track::Baby) == Seq::<Entity>::empty(),
{
    lemma_ticks_per_second(0, dts);
    lemma_baby_ticks(5);
}

} // verus!
