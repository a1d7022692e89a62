//! What holds of every run of a sequence output.
use vstd::arithmetic::div_mod::{lemma_fundamental_div_mod, lemma_fundamental_div_mod_converse, lemma_mod_pos_bound};
use vstd::prelude::*;

use crate::model::{
    complete_at, driven_levels, finish_playthrough, level_at, run, start,
    SequenceModel,
};
use crate::Repeat;

verus! {

/// Counting one more tick moves `k % d` up by one, or wraps it to zero and
/// moves `k / d` up by one.
proof fn lemma_step_div_mod(k: nat, d: nat)
    requires
        d > 0,
    ensures
        k % d < d,
        k % d + 1 < d ==> (k + 1) % d == k % d + 1 && (k + 1) / d == k / d,
        k % d + 1 == d ==> (k + 1) % d == 0 && (k + 1) / d == k / d + 1,
{
    lemma_fundamental_div_mod(k as int, d as int);
    lemma_mod_pos_bound(k as int, d as int);
    let q = k / d;
    let r = k % d;
    if r + 1 < d {
        assert(k + 1 == q * d + (r + 1)) by (nonlinear_arith)
            requires
                k == d * q + r,
        ;
        lemma_fundamental_div_mod_converse((k + 1) as int, d as int, q as int, (r + 1) as int);
    } else {
        assert(k + 1 == (q + 1) * d + 0) by (nonlinear_arith)
            requires
                k == d * q + r,
                r + 1 == d,
        ;
        lemma_fundamental_div_mod_converse((k + 1) as int, d as int, (q + 1) as int, 0);
    }
}

/// Ticks compose: `a + b` ticks are `a` ticks and then `b` more.
pub proof fn lemma_run_add(m: SequenceModel, a: nat, b: nat)
    ensures
        run(m, a + b) == run(run(m, a), b),
    decreases b,
{
    if b > 0 {
        lemma_run_add(m, a, (b - 1) as nat);
        assert(((a + b) - 1) as nat == a + (b - 1) as nat);
    }
}

/// Ticks keep a state valid, with its pattern and scale.
pub proof fn lemma_run_valid(m: SequenceModel, k: nat)
    requires
        m.valid(),
    ensures
        run(m, k).valid(),
        run(m, k).scale == m.scale,
        run(m, k).pattern == m.pattern,
    decreases k,
{
    if k > 0 {
        lemma_run_valid(m, (k - 1) as nat);
    }
}

/// Within the first playthrough from a fresh start, `k` ticks have counted
/// `k % scale` ticks towards state `k / scale`.
proof fn lemma_within_playthrough(m: SequenceModel, k: nat)
    requires
        m.valid(),
        m.is_fresh(),
        k < m.playthrough_ticks(),
    ensures
        run(m, k) == (SequenceModel {
            scale: m.scale,
            pattern: m.pattern,
            repeat: m.repeat,
            scale_index: k % m.scale,
            state_index: k / m.scale,
            running: true,
        }),
    decreases k,
{
    let d = m.scale;
    let len = m.pattern.len();
    if k == 0 {
        lemma_fundamental_div_mod_converse(0, d as int, 0, 0);
    } else {
        let j = (k - 1) as nat;
        lemma_within_playthrough(m, j);
        lemma_step_div_mod(j, d);
        lemma_fundamental_div_mod(k as int, d as int);
        lemma_mod_pos_bound(k as int, d as int);
        let q = k / d;
        let r = k % d;
        assert(q < len) by (nonlinear_arith)
            requires
                k == d * q + r,
                r >= 0,
                k < len * d,
                d > 0,
        ;
    }
}

/// Over one playthrough from a fresh start, which takes `pattern.len() *
/// scale` ticks, tick `k` drives the line only when it completes `scale`
/// ticks, and then to state `k / scale` of the pattern, so the line is
/// driven exactly to the pattern, state by state. No tick before the last
/// reports the run complete; the last does so exactly when no playthrough
/// follows. The playthrough ends with the repeat setting used up once.
pub proof fn lemma_one_playthrough(m: SequenceModel)
    requires
        m.valid(),
        m.is_fresh(),
    ensures
        forall|k: nat|
            k < m.playthrough_ticks() ==> #[trigger] level_at(m, k) == if k % m.scale == (m.scale
                - 1) as nat {
                Some(m.pattern[(k / m.scale) as int])
            } else {
                None
            },
        forall|k: nat| k + 1 < m.playthrough_ticks() ==> !#[trigger] complete_at(m, k),
        complete_at(m, (m.playthrough_ticks() - 1) as nat) == !m.repeat.consumed().replays(),
        driven_levels(m, m.playthrough_ticks()) == m.pattern,
        run(m, m.playthrough_ticks()) == finish_playthrough(m),
{
    let d = m.scale;
    let len = m.pattern.len();
    let n = m.playthrough_ticks();
    assert(n >= 1) by (nonlinear_arith)
        requires
            n == len * d,
            len >= 1,
            d >= 1,
    ;
    assert forall|k: nat| k < n implies #[trigger] level_at(m, k) == if k % d == (d - 1) as nat {
        Some(m.pattern[(k / d) as int])
    } else {
        None
    } by {
        lemma_within_playthrough(m, k);
        lemma_step_div_mod(k, d);
    }
    assert forall|k: nat| k + 1 < n implies !#[trigger] complete_at(m, k) by {
        lemma_within_playthrough(m, k + 1);
    }
    let last = (n - 1) as nat;
    assert(last == (len - 1) * d + (d - 1)) by (nonlinear_arith)
        requires
            n == len * d,
            last == n - 1,
    ;
    lemma_fundamental_div_mod_converse(last as int, d as int, len - 1, d - 1);
    lemma_within_playthrough(m, last);
    assert(run(m, n) == finish_playthrough(m));
    // The line is driven to the states gathered so far.
    assert forall|k: nat| k <= n implies #[trigger] driven_levels(m, k) == m.pattern.take(
        (k / d) as int,
    ) by {
        lemma_driven_prefix(m, k);
    }
    assert(n / d == len) by {
        lemma_fundamental_div_mod_converse(n as int, d as int, len as int, 0);
    }
    assert(m.pattern.take(len as int) == m.pattern);
}

/// Over the first playthrough, the first `k` ticks drive the line to the
/// first `k / scale` states of the pattern.
proof fn lemma_driven_prefix(m: SequenceModel, k: nat)
    requires
        m.valid(),
        m.is_fresh(),
        k <= m.playthrough_ticks(),
    ensures
        driven_levels(m, k) == m.pattern.take((k / m.scale) as int),
    decreases k,
{
    let d = m.scale;
    if k == 0 {
        lemma_fundamental_div_mod_converse(0, d as int, 0, 0);
        assert(m.pattern.take(0) == Seq::<bool>::empty());
    } else {
        let j = (k - 1) as nat;
        lemma_driven_prefix(m, j);
        lemma_within_playthrough(m, j);
        lemma_run_valid(m, j);
        lemma_step_div_mod(j, d);
        if j % d + 1 == d {
            assert(m.pattern.take((j / d) as int).push(m.pattern[(j / d) as int]) =~= m.pattern.take(
                (k / d) as int,
            ));
        }
    }
}

/// Once no playthrough runs, none starts again: every later tick drives
/// nothing and reports the run complete.
pub proof fn lemma_stopped_stays(m: SequenceModel, k: nat)
    requires
        m.valid(),
        !m.running,
    ensures
        !run(m, k).running,
        run(m, k).valid(),
        level_at(m, k) is None,
        complete_at(m, k),
    decreases k,
{
    lemma_run_valid(m, k);
    if k > 0 {
        lemma_stopped_stays(m, (k - 1) as nat);
    }
}

/// After a stop, the levels driven stay those driven before it.
proof fn lemma_stopped_levels(m: SequenceModel, n: nat, k: nat)
    requires
        run(m, n).valid(),
        !run(m, n).running,
        n <= k,
    ensures
        driven_levels(m, k) == driven_levels(m, n),
    decreases k,
{
    if k > n {
        let j = (k - 1) as nat;
        lemma_stopped_levels(m, n, j);
        lemma_run_add(m, n, (j - n) as nat);
        lemma_stopped_stays(run(m, n), (j - n) as nat);
        assert(driven_levels(m, k) == driven_levels(m, j) + Seq::<bool>::empty());
        assert(driven_levels(m, j) + Seq::<bool>::empty() == driven_levels(m, j));
    }
}

/// `Repeat::Never`: the pattern is played exactly once. From the last tick
/// of that playthrough on, every tick reports the run complete, and no
/// later tick drives the line.
pub proof fn lemma_never(m: SequenceModel, k: nat)
    requires
        m.valid(),
        m.is_fresh(),
        m.repeat == Repeat::Never,
        k + 1 >= m.playthrough_ticks(),
    ensures
        complete_at(m, k),
        k >= m.playthrough_ticks() ==> level_at(m, k) is None,
        k >= m.playthrough_ticks() ==> driven_levels(m, k) == m.pattern,
{
    let n = m.playthrough_ticks();
    lemma_one_playthrough(m);
    if k >= n {
        lemma_run_add(m, n, (k - n) as nat);
        lemma_stopped_stays(run(m, n), (k - n) as nat);
        lemma_stopped_levels(m, n, k);
    }
}

/// `Repeat::Times(c)`: playthrough `i`, for `i` up to `c`, starts fresh
/// after `i` playthroughs with `c - i` repeats left; every tick before the
/// end of playthrough `c + 1` leaves the run going, and after it the run
/// has stopped, so playthrough `c + 2` never starts.
pub proof fn lemma_times(m: SequenceModel, c: u16)
    requires
        m.valid(),
        m.is_fresh(),
        m.repeat == Repeat::Times(c),
    ensures
        forall|i: nat|
            i <= c ==> #[trigger] run(m, i * m.playthrough_ticks()) == start(
                m.scale,
                m.pattern,
                Repeat::Times((c - i) as u16),
            ),
        forall|j: nat| j < (c as nat + 1) * m.playthrough_ticks() ==> #[trigger] run(m, j).running,
        !run(m, (c as nat + 1) * m.playthrough_ticks()).running,
    decreases c,
{
    let n = m.playthrough_ticks();
    lemma_one_playthrough(m);
    if c == 0 {
        assert forall|j: nat| j < (c as nat + 1) * n implies #[trigger] run(m, j).running by {
            if j > 0 {
                lemma_within_playthrough(m, j);
            }
        }
        assert(1 * n == n);
    } else {
        let m2 = run(m, n);
        assert(m2 == start(m.scale, m.pattern, Repeat::Times((c - 1) as u16)));
        lemma_times(m2, (c - 1) as u16);
        assert forall|i: nat| i <= c implies #[trigger] run(m, i * n) == start(
            m.scale,
            m.pattern,
            Repeat::Times((c - i) as u16),
        ) by {
            if i > 0 {
                let i1 = (i - 1) as nat;
                assert(i * n == n + i1 * n) by (nonlinear_arith)
                    requires
                        i1 == i - 1,
                ;
                lemma_run_add(m, n, i1 * n);
                assert(run(m2, i1 * n) == start(
                    m.scale,
                    m.pattern,
                    Repeat::Times(((c - 1) as u16 - i1) as u16),
                ));
            }
        }
        assert forall|j: nat| j < (c as nat + 1) * n implies #[trigger] run(m, j).running by {
            if j < n {
                lemma_within_playthrough(m, j);
            } else {
                assert(j - n < c as nat * n) by (nonlinear_arith)
                    requires
                        j < (c as nat + 1) * n,
                ;
                lemma_run_add(m, n, (j - n) as nat);
                assert(run(m2, (j - n) as nat).running);
            }
        }
        assert((c as nat + 1) * n == n + c as nat * n) by (nonlinear_arith);
        lemma_run_add(m, n, c as nat * n);
    }
}

/// `Repeat::Forever`: the pattern plays again and again; no tick ever
/// reports the run complete.
pub proof fn lemma_forever(m: SequenceModel, k: nat)
    requires
        m.valid(),
        m.is_fresh(),
        m.repeat == Repeat::Forever,
    ensures
        run(m, m.playthrough_ticks()) == m,
        run(m, k).running,
        !complete_at(m, k),
    decreases k,
{
    lemma_one_playthrough(m);
    lemma_forever_running(m, k + 1);
}

/// Under `Repeat::Forever`, a playthrough is running after any number of
/// ticks.
proof fn lemma_forever_running(m: SequenceModel, k: nat)
    requires
        m.valid(),
        m.is_fresh(),
        m.repeat == Repeat::Forever,
    ensures
        run(m, k).running,
        k > 0 ==> run(m, (k - 1) as nat).running,
    decreases k,
{
    let n = m.playthrough_ticks();
    lemma_one_playthrough(m);
    if k < n {
        if k > 0 {
            lemma_within_playthrough(m, k);
            lemma_within_playthrough(m, (k - 1) as nat);
        }
    } else {
        lemma_run_add(m, n, (k - n) as nat);
        lemma_forever_running(m, (k - n) as nat);
        if k > n {
            lemma_run_add(m, n, (k - 1 - n) as nat);
        } else {
            assert(run(m, (k - 1) as nat).running) by {
                if k > 1 {
                    lemma_within_playthrough(m, (k - 1) as nat);
                }
            }
        }
    }
}

/// With one tick per state, every tick of a playthrough drives the line to
/// the next state: tick `k` to state `k`.
pub proof fn lemma_unscaled(m: SequenceModel)
    requires
        m.valid(),
        m.is_fresh(),
        m.scale == 1,
    ensures
        m.playthrough_ticks() == m.pattern.len(),
        forall|k: nat| k < m.pattern.len() ==> #[trigger] level_at(m, k) == Some(m.pattern[k as int]),
{
    lemma_one_playthrough(m);
    assert(m.playthrough_ticks() == m.pattern.len());
    assert forall|k: nat| k < m.pattern.len() implies #[trigger] level_at(m, k) == Some(
        m.pattern[k as int],
    ) by {
        lemma_fundamental_div_mod_converse(k as int, 1, k as int, 0);
    }
}

/// Setting a pattern discards all progress: whatever ticks came between,
/// setting the same pattern again makes the same state as before, which
/// starts a playthrough at its first state.
pub proof fn lemma_set_restarts(m: SequenceModel, k: nat, pattern: Seq<bool>, repeat: Repeat)
    requires
        m.valid(),
    ensures
        start(run(m, k).scale, pattern, repeat) == start(m.scale, pattern, repeat),
        start(m.scale, pattern, repeat).is_fresh(),
{
    lemma_run_valid(m, k);
}

} // verus!
