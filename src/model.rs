use vstd::prelude::*;

verus! {

/// Population per seat, by floor division.
pub open spec fn ratio(pop: nat, seats: nat) -> nat {
    pop / seats
}

/// Population-per-seat ratio of each subdivision.
pub open spec fn ratio_seq(pops: Seq<nat>, seats: Seq<nat>) -> Seq<nat> {
    Seq::new(pops.len(), |i: int| ratio(pops[i], seats[i]))
}

/// `k` holds the largest value of `r`, and no earlier index holds as much.
pub open spec fn is_first_max(r: Seq<nat>, k: int) -> bool {
    &&& 0 <= k < r.len()
    &&& forall|j: int| 0 <= j < r.len() ==> r[j] <= r[k]
    &&& forall|j: int| 0 <= j < k ==> r[j] < r[k]
}

/// The first index that holds the largest value: ties go to the earliest
/// subdivision in input order.
pub open spec fn first_max_index(r: Seq<nat>) -> int
    decreases r.len(),
{
    if r.len() <= 1 {
        0
    } else {
        let m = first_max_index(r.drop_last());
        if r.last() > r[m] {
            r.len() - 1
        } else {
            m
        }
    }
}

/// The subdivision that receives the next seat.
pub open spec fn chosen(pops: Seq<nat>, seats: Seq<nat>) -> int {
    first_max_index(ratio_seq(pops, seats))
}

/// One allocation step: the subdivision with the largest ratio gains a seat.
pub open spec fn step(pops: Seq<nat>, seats: Seq<nat>) -> Seq<nat> {
    let k = chosen(pops, seats);
    seats.update(k, seats[k] + 1)
}

/// The seats after `k` allocation steps.
pub open spec fn run(pops: Seq<nat>, seats: Seq<nat>, k: nat) -> Seq<nat>
    decreases k,
{
    if k == 0 {
        seats
    } else {
        step(pops, run(pops, seats, (k - 1) as nat))
    }
}

/// Sum of a sequence of counts.
pub open spec fn total(s: Seq<nat>) -> nat
    decreases s.len(),
{
    if s.len() == 0 {
        0
    } else {
        total(s.drop_last()) + s.last()
    }
}

/// `n` subdivisions with `c` seats each.
pub open spec fn uniform(n: nat, c: nat) -> Seq<nat> {
    Seq::new(n, |i: int| c)
}

/// Every subdivision holds at least one seat.
pub open spec fn all_positive(seats: Seq<nat>) -> bool {
    forall|i: int| 0 <= i < seats.len() ==> seats[i] > 0
}

/// The recursive choice meets the first-maximum property.
pub proof fn lemma_first_max_index(r: Seq<nat>)
    requires
        r.len() > 0,
    ensures
        is_first_max(r, first_max_index(r)),
    decreases r.len(),
{
    if r.len() > 1 {
        let p = r.drop_last();
        lemma_first_max_index(p);
        let m = first_max_index(p);
        assert forall|j: int| 0 <= j < r.len() - 1 implies r[j] == p[j] by {}
    }
}

/// At most one index holds the first maximum.
pub proof fn lemma_first_max_unique(r: Seq<nat>, a: int, b: int)
    requires
        is_first_max(r, a),
        is_first_max(r, b),
    ensures
        a == b,
{
    if a < b {
        assert(r[a] < r[b]);
        assert(r[b] <= r[a]);
    } else if b < a {
        assert(r[b] < r[a]);
        assert(r[a] <= r[b]);
    }
}

/// Adding one to an entry adds one to the sum.
pub proof fn lemma_total_increment(s: Seq<nat>, i: int)
    requires
        0 <= i < s.len(),
    ensures
        total(s.update(i, s[i] + 1)) == total(s) + 1,
    decreases s.len(),
{
    let u = s.update(i, s[i] + 1);
    if i == s.len() - 1 {
        assert(u.drop_last() =~= s.drop_last());
    } else {
        lemma_total_increment(s.drop_last(), i);
        assert(u.drop_last() =~= s.drop_last().update(i, s[i] + 1));
    }
}

/// No entry exceeds the sum.
pub proof fn lemma_element_le_total(s: Seq<nat>, i: int)
    requires
        0 <= i < s.len(),
    ensures
        s[i] <= total(s),
    decreases s.len(),
{
    if i < s.len() - 1 {
        lemma_element_le_total(s.drop_last(), i);
    }
}

/// `n` entries of `c` sum to `n * c`.
pub proof fn lemma_total_uniform(n: nat, c: nat)
    ensures
        total(uniform(n, c)) == n * c,
    decreases n,
{
    if n > 0 {
        let m = (n - 1) as nat;
        lemma_total_uniform(m, c);
        assert(uniform(n, c).drop_last() =~= uniform(m, c));
        assert(uniform(n, c).last() == c);
        assert(n * c == m * c + c) by (nonlinear_arith)
            requires
                n == m + 1,
        ;
    } else {
        assert(n * c == 0) by (nonlinear_arith)
            requires
                n == 0,
        ;
    }
}

/// The chosen subdivision has a ratio at least that of every other, and
/// strictly greater than that of every subdivision before it; it gains exactly
/// one seat and no other subdivision's seats change.
pub proof fn lemma_step_greedy(pops: Seq<nat>, seats: Seq<nat>)
    requires
        pops.len() == seats.len(),
        seats.len() > 0,
    ensures
        is_first_max(ratio_seq(pops, seats), chosen(pops, seats)),
        step(pops, seats).len() == seats.len(),
        step(pops, seats)[chosen(pops, seats)] == seats[chosen(pops, seats)] + 1,
        forall|j: int|
            0 <= j < seats.len() && j != chosen(pops, seats) ==> step(pops, seats)[j] == seats[j],
{
    lemma_first_max_index(ratio_seq(pops, seats));
}

/// Every step hands out exactly one seat: after `k` steps the seats sum to
/// their starting sum plus `k`.
pub proof fn lemma_conservation(pops: Seq<nat>, seats: Seq<nat>, k: nat)
    requires
        pops.len() == seats.len(),
        seats.len() > 0,
    ensures
        run(pops, seats, k).len() == seats.len(),
        total(run(pops, seats, k)) == total(seats) + k,
    decreases k,
{
    if k > 0 {
        let prev = run(pops, seats, (k - 1) as nat);
        lemma_conservation(pops, seats, (k - 1) as nat);
        lemma_step_greedy(pops, prev);
        lemma_total_increment(prev, chosen(pops, prev));
    }
}

/// A subdivision's seats never decrease, and its ratio never increases, from
/// one step to the next.
pub proof fn lemma_step_monotone(pops: Seq<nat>, seats: Seq<nat>)
    requires
        pops.len() == seats.len(),
        seats.len() > 0,
        all_positive(seats),
    ensures
        all_positive(step(pops, seats)),
        forall|i: int| 0 <= i < seats.len() ==> step(pops, seats)[i] >= seats[i],
        forall|i: int|
            0 <= i < seats.len() ==> ratio_seq(pops, step(pops, seats))[i] <= ratio_seq(pops, seats)[i],
{
    lemma_step_greedy(pops, seats);
    let k = chosen(pops, seats);
    let p = pops[k];
    let s = seats[k];
    assert(p / (s + 1) <= p / s) by {
        vstd::arithmetic::div_mod::lemma_div_is_ordered_by_denominator(
            p as int,
            s as int,
            (s + 1) as int,
        );
    }
}

/// Over any number of steps, seats never decrease and every subdivision keeps
/// at least one seat.
pub proof fn lemma_run_monotone(pops: Seq<nat>, seats: Seq<nat>, a: nat, b: nat)
    requires
        pops.len() == seats.len(),
        seats.len() > 0,
        all_positive(seats),
        a <= b,
    ensures
        all_positive(run(pops, seats, b)),
        forall|i: int| 0 <= i < seats.len() ==> run(pops, seats, a)[i] <= run(pops, seats, b)[i],
    decreases b,
{
    lemma_conservation(pops, seats, b);
    if b > 0 {
        let prev = run(pops, seats, (b - 1) as nat);
        lemma_conservation(pops, seats, (b - 1) as nat);
        if a == b {
            lemma_run_monotone(pops, seats, (b - 1) as nat, (b - 1) as nat);
            lemma_step_monotone(pops, prev);
        } else {
            lemma_run_monotone(pops, seats, a, (b - 1) as nat);
            lemma_step_monotone(pops, prev);
        }
    }
}

/// A subdivision with no population has ratio zero, and does not gain a seat
/// while some subdivision has a positive ratio.
pub proof fn lemma_zero_population_passed_over(pops: Seq<nat>, seats: Seq<nat>, i: int, j: int)
    requires
        pops.len() == seats.len(),
        all_positive(seats),
        0 <= i < pops.len(),
        0 <= j < pops.len(),
        pops[i] == 0,
        ratio_seq(pops, seats)[j] > 0,
    ensures
        ratio_seq(pops, seats)[i] == 0,
        chosen(pops, seats) != i,
        step(pops, seats)[i] == seats[i],
{
    lemma_step_greedy(pops, seats);
    let s: int = seats[i] as int;
    assert(0int / s == 0) by (nonlinear_arith)
        requires
            s > 0,
    ;
    assert(ratio_seq(pops, seats)[i] == 0);
    assert(ratio_seq(pops, seats)[j] > ratio_seq(pops, seats)[i]);
}

} // verus!
