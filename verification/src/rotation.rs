//! Fairness of the round-robin read path: over a run of consecutive
//! queries against an unchanged member table, the selections spread evenly.
//!
//! `query_request` selects the slot `pos % m` and then advances the cursor
//! by one, so the k-th query of a run that starts with the cursor at `p0`
//! selects slot `(p0 + k) % m` — as long as the cursor does not wrap around
//! the end of its 64-bit range during the run, which the lemmas below
//! assume by working on unbounded integers.

use vstd::prelude::*;
use vstd::arithmetic::div_mod::{
    lemma_fundamental_div_mod, lemma_fundamental_div_mod_converse_div,
    lemma_fundamental_div_mod_converse_mod, lemma_mod_division_less_than_divisor,
    lemma_mod_multiples_vanish,
};

verus! {

/// The slot that the k-th query of a run selects, when the cursor stood at
/// `p0` before the run and the table holds `m` members.
pub open spec fn selected_slot(p0: int, k: int, m: int) -> int {
    (p0 + k) % m
}

/// How many of the first `n` queries of such a run select slot `j`.
pub open spec fn times_selected(p0: int, n: int, m: int, j: int) -> int
    decreases n,
{
    if n <= 0 {
        0
    } else {
        times_selected(p0, n - 1, m, j) + if selected_slot(p0, n - 1, m) == j {
            1int
        } else {
            0int
        }
    }
}

/// The k-th query hits slot `j` exactly when `k` and `j - p0` agree
/// modulo the member count.
proof fn lemma_hit_iff(p0: int, k: int, m: int, j: int)
    requires
        m >= 1,
        k >= 0,
        0 <= j < m,
    ensures
        selected_slot(p0, k, m) == j <==> k % m == (j - p0) % m,
{
    let d = (j - p0) % m;
    let q1 = (j - p0) / m;
    let s = k % m;
    let q2 = k / m;
    lemma_mod_division_less_than_divisor(j - p0, m);
    lemma_fundamental_div_mod(j - p0, m);
    lemma_mod_division_less_than_divisor(k, m);
    lemma_fundamental_div_mod(k, m);
    assert(p0 + k == m * q2 + (p0 + s));
    lemma_mod_multiples_vanish(q2, p0 + s, m);
    assert(j == m * q1 + (p0 + d)) by {
        assert(j - p0 == m * q1 + d);
    }
    lemma_mod_multiples_vanish(q1, p0 + d, m);
    assert(j % m == j) by {
        lemma_fundamental_div_mod_converse_mod(j, m, 0, j);
    }
    if s == d {
        assert(selected_slot(p0, k, m) == j);
    }
    if selected_slot(p0, k, m) == j {
        assert((p0 + s) % m == (p0 + d) % m);
        lemma_fundamental_div_mod(p0 + s, m);
        lemma_fundamental_div_mod(p0 + d, m);
        let diff = (p0 + s) / m - (p0 + d) / m;
        assert(s - d == m * diff) by (nonlinear_arith)
            requires
                p0 + s == m * ((p0 + s) / m) + (p0 + s) % m,
                p0 + d == m * ((p0 + d) / m) + (p0 + d) % m,
                (p0 + s) % m == (p0 + d) % m,
                diff == (p0 + s) / m - (p0 + d) / m,
        ;
        assert(diff == 0) by (nonlinear_arith)
            requires
                s - d == m * diff,
                -m < s - d < m,
                m >= 1,
        ;
        assert(s == d);
    }
}

/// Closed form of the selection count: each slot is hit once per whole
/// cycle, and once more when it falls inside the remaining partial cycle.
proof fn lemma_count_closed(p0: int, n: int, m: int, j: int)
    requires
        m >= 1,
        n >= 0,
        0 <= j < m,
    ensures
        times_selected(p0, n, m, j) == n / m + if (j - p0) % m < n % m {
            1int
        } else {
            0int
        },
    decreases n,
{
    let d = (j - p0) % m;
    lemma_mod_division_less_than_divisor(j - p0, m);
    if n == 0 {
        assert(0int % m == 0 && 0int / m == 0) by {
            lemma_fundamental_div_mod_converse_mod(0, m, 0, 0);
            lemma_fundamental_div_mod_converse_div(0, m, 0, 0);
        }
    } else {
        lemma_count_closed(p0, n - 1, m, j);
        lemma_hit_iff(p0, n - 1, m, j);
        let q = (n - 1) / m;
        let s = (n - 1) % m;
        lemma_fundamental_div_mod(n - 1, m);
        lemma_mod_division_less_than_divisor(n - 1, m);
        if s + 1 == m {
            assert(n == (q + 1) * m + 0) by (nonlinear_arith)
                requires
                    n - 1 == m * q + s,
                    s + 1 == m,
            ;
            lemma_fundamental_div_mod_converse_div(n, m, q + 1, 0);
            lemma_fundamental_div_mod_converse_mod(n, m, q + 1, 0);
        } else {
            assert(n == q * m + (s + 1)) by (nonlinear_arith)
                requires
                    n - 1 == m * q + s,
            ;
            lemma_fundamental_div_mod_converse_div(n, m, q, s + 1);
            lemma_fundamental_div_mod_converse_mod(n, m, q, s + 1);
        }
    }
}

/// Round robin: over `n` consecutive queries against an unchanged table of
/// `m` members, every slot is selected either `n / m` times or one more —
/// and exactly `n / m` times when `m` divides `n`.
pub proof fn lemma_round_robin_fair(p0: int, n: int, m: int, j: int)
    requires
        m >= 1,
        n >= 0,
        0 <= j < m,
    ensures
        n / m <= times_selected(p0, n, m, j) <= n / m + 1,
        n % m == 0 ==> times_selected(p0, n, m, j) == n / m,
{
    lemma_count_closed(p0, n, m, j);
    lemma_mod_division_less_than_divisor(j - p0, m);
    lemma_mod_division_less_than_divisor(n, m);
}

} // verus!
