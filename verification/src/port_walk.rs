//! Cyclic walks through a range of ports `lo..=65535`, as the port allocators of the NATs and
//! the gateway make them.

use vstd::prelude::*;

verus! {

/// The port after `p` in the range `lo..=65535`, wrapping from 65535 back to `lo`.
pub open spec fn next_in_range(lo: u16, p: u16) -> u16 {
    if p == 65535 {
        lo
    } else {
        (p + 1) as u16
    }
}

/// The port reached from `start` after `k` steps through the range `lo..=65535`.
pub open spec fn walk_in_range(lo: u16, start: u16, k: nat) -> u16
    decreases k,
{
    if k == 0 {
        start
    } else {
        next_in_range(lo, walk_in_range(lo, start, (k - 1) as nat))
    }
}

/// The number of ports in `lo..=65535`.
pub open spec fn range_size(lo: u16) -> nat {
    (65536 - lo) as nat
}

/// Inside the range, `k` steps from `start` reach the port `k` places further on, counted
/// cyclically.
pub proof fn lemma_walk_in_range_closed_form(lo: u16, start: u16, k: nat)
    requires
        lo <= start,
    ensures
        walk_in_range(lo, start, k) == lo + (start - lo + k) % (range_size(lo) as int),
    decreases k,
{
    if k > 0 {
        lemma_walk_in_range_closed_form(lo, start, (k - 1) as nat);
        let n = range_size(lo) as int;
        let x = start - lo + k - 1;
        lemma_mod_step(x, n);
    } else {
        vstd::arithmetic::div_mod::lemma_fundamental_div_mod_converse(
            start - lo,
            range_size(lo) as int,
            0,
            start - lo,
        );
    }
}

/// Stepping `x` by one moves `x % n` one place on, wrapping from `n - 1` back to 0.
proof fn lemma_mod_step(x: int, n: int)
    requires
        0 <= x,
        0 < n,
    ensures
        0 <= x % n < n,
        x % n == n - 1 ==> (x + 1) % n == 0,
        x % n != n - 1 ==> (x + 1) % n == x % n + 1,
{
    vstd::arithmetic::div_mod::lemma_fundamental_div_mod(x, n);
    vstd::arithmetic::div_mod::lemma_mod_pos_bound(x, n);
    let q = x / n;
    let r = x % n;
    assert(x == n * q + r);
    assert((q + 1) * n == n * q + n) by (nonlinear_arith);
    assert(q * n == n * q) by (nonlinear_arith);
    if r == n - 1 {
        vstd::arithmetic::div_mod::lemma_fundamental_div_mod_converse(x + 1, n, q + 1, 0);
    } else {
        vstd::arithmetic::div_mod::lemma_fundamental_div_mod_converse(x + 1, n, q, r + 1);
    }
}

/// Every port of the range is reached from any start in it in fewer steps than the range has
/// ports.
pub proof fn lemma_walk_in_range_covers(lo: u16, start: u16, q: u16) -> (k: nat)
    requires
        lo <= start,
        lo <= q,
    ensures
        k < range_size(lo),
        walk_in_range(lo, start, k) == q,
{
    let k: nat = if q >= start {
        (q - start) as nat
    } else {
        (q - start + range_size(lo)) as nat
    };
    lemma_walk_in_range_closed_form(lo, start, k);
    let n = range_size(lo) as int;
    if q >= start {
        vstd::arithmetic::div_mod::lemma_fundamental_div_mod_converse(q - lo, n, 0, q - lo);
    } else {
        vstd::arithmetic::div_mod::lemma_fundamental_div_mod_converse(q - lo + n, n, 1, q - lo);
    }
    k
}

/// Every port of the walk stays in the range.
pub proof fn lemma_walk_in_range_stays(lo: u16, start: u16, k: nat)
    requires
        lo <= start,
    ensures
        lo <= walk_in_range(lo, start, k),
    decreases k,
{
    if k > 0 {
        lemma_walk_in_range_stays(lo, start, (k - 1) as nat);
    }
}

/// The ports `lo..=65535`.
pub open spec fn ports_from(lo: u16) -> Set<u16> {
    Set::new(|q: u16| lo <= q)
}

/// `lo..=65535` is finite and holds `range_size(lo)` ports.
pub proof fn lemma_ports_from_len(lo: u16)
    ensures
        ports_from(lo).finite(),
        ports_from(lo).len() == range_size(lo),
    decreases 65535 - lo,
{
    if lo == 65535 {
        assert(ports_from(lo) =~= Set::<u16>::empty().insert(65535u16));
    } else {
        let next = (lo + 1) as u16;
        lemma_ports_from_len(next);
        assert(ports_from(lo) =~= ports_from(next).insert(lo));
        assert(!ports_from(next).contains(lo));
    }
}

/// A finite set of ports with fewer members than `lo..=65535` misses some port of that range.
pub proof fn lemma_free_port_exists(ports: Set<u16>, lo: u16) -> (q: u16)
    requires
        ports.finite(),
        ports.len() < range_size(lo),
    ensures
        lo <= q,
        !ports.contains(q),
{
    lemma_ports_from_len(lo);
    if forall|q: u16| lo <= q ==> #[trigger] ports.contains(q) {
        assert(ports_from(lo).subset_of(ports));
        vstd::set_lib::lemma_len_subset(ports_from(lo), ports);
        assert(false);
    }
    choose|q: u16| lo <= q && !ports.contains(q)
}

/// The port after `p` in the range `lo..=65535` (see `next_in_range`).
pub fn next_port_in_range(lo: u16, p: u16) -> (next: u16)
    ensures
        next == next_in_range(lo, p),
{
    p.checked_add(1).unwrap_or(lo)
}

} // verus!
