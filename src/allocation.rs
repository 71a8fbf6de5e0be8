use vstd::prelude::*;

use crate::model::{
    all_positive, chosen, first_max_index, is_first_max, lemma_conservation, lemma_element_le_total,
    lemma_first_max_index, lemma_first_max_unique, lemma_run_monotone, lemma_step_greedy,
    lemma_total_uniform, ratio, ratio_seq, run, step, total, uniform,
};
use crate::filter::{census_rows, filter_outcome, filter_states, filtered_view};
use crate::types::{ApportionError, CensusState, PopulationRecord, RepresentativeCount};

verus! {

/// A subdivision as the allocator sees it: its name and population.
pub open spec fn record_view(r: PopulationRecord) -> (Seq<char>, nat) {
    (r.name@, r.population as nat)
}

pub open spec fn records_view(rs: Seq<PopulationRecord>) -> Seq<(Seq<char>, nat)> {
    rs.map_values(|r: PopulationRecord| record_view(r))
}

/// A result row: name, seats and ratio.
pub open spec fn count_view(c: RepresentativeCount) -> (Seq<char>, nat, nat) {
    (c.state_name@, c.representatives as nat, c.ratio as nat)
}

pub open spec fn counts_view(cs: Seq<RepresentativeCount>) -> Seq<(Seq<char>, nat, nat)> {
    cs.map_values(|c: RepresentativeCount| count_view(c))
}

pub open spec fn outcome_view(r: Result<Vec<RepresentativeCount>, ApportionError>) -> Result<
    Seq<(Seq<char>, nat, nat)>,
    ApportionError,
> {
    match r {
        Ok(v) => Ok(counts_view(v@)),
        Err(e) => Err(e),
    }
}

pub open spec fn populations(recs: Seq<(Seq<char>, nat)>) -> Seq<nat> {
    recs.map_values(|r: (Seq<char>, nat)| r.1)
}

/// Two subdivisions share a name.
pub open spec fn has_duplicate_names(recs: Seq<(Seq<char>, nat)>) -> bool {
    exists|i: int, j: int| 0 <= i < j < recs.len() && recs[i].0 == recs[j].0
}

/// Seats of each subdivision once every seat above the initial floor has
/// been handed out.
pub open spec fn final_seats(recs: Seq<(Seq<char>, nat)>, initial: nat, target: nat) -> Seq<nat> {
    run(
        populations(recs),
        uniform(recs.len(), initial),
        (target - recs.len() * initial) as nat,
    )
}

/// The rows of a completed apportionment, in input order.
pub open spec fn apportionment(recs: Seq<(Seq<char>, nat)>, initial: nat, target: nat) -> Seq<
    (Seq<char>, nat, nat),
> {
    let seats = final_seats(recs, initial, target);
    Seq::new(recs.len(), |i: int| (recs[i].0, seats[i], ratio(recs[i].1, seats[i])))
}

/// What an apportionment of `recs` gives: the first failed check in the
/// order zero floor, no subdivision, duplicate name, target below the floor;
/// otherwise the rows of the apportionment.
pub open spec fn allocation_outcome(recs: Seq<(Seq<char>, nat)>, initial: nat, target: nat) -> Result<
    Seq<(Seq<char>, nat, nat)>,
    ApportionError,
> {
    if initial == 0 {
        Err(ApportionError::ZeroInitialSeats)
    } else if recs.len() == 0 {
        Err(ApportionError::NoSubdivisions)
    } else if has_duplicate_names(recs) {
        Err(ApportionError::DuplicateName)
    } else if recs.len() * initial > target {
        Err(ApportionError::TargetBelowFloor)
    } else {
        Ok(apportionment(recs, initial, target))
    }
}

fn has_duplicate(records: &Vec<PopulationRecord>) -> (r: bool)
    ensures
        r == has_duplicate_names(records_view(records@)),
{
    let ghost recs = records_view(records@);
    let n = records.len();
    let mut i: usize = 0;
    while i < n
        invariant
            n == records@.len(),
            recs == records_view(records@),
            i <= n,
            forall|a: int, b: int| 0 <= a < i && a < b < n ==> recs[a].0 != recs[b].0,
        decreases n - i,
    {
        let mut j: usize = i + 1;
        while j < n
            invariant
                n == records@.len(),
                recs == records_view(records@),
                i < n,
                i + 1 <= j <= n,
                forall|a: int, b: int| 0 <= a < i && a < b < n ==> recs[a].0 != recs[b].0,
                forall|b: int| i < b < j ==> recs[i as int].0 != recs[b].0,
            decreases n - j,
        {
            if records[i].name == records[j].name {
                assert(recs[i as int].0 == recs[j as int].0);
                return true;
            }
            j = j + 1;
        }
        i = i + 1;
    }
    false
}

/// Index of the first largest ratio.
fn max_ratio_index(ratios: &Vec<u128>) -> (k: usize)
    requires
        ratios@.len() > 0,
    ensures
        k < ratios@.len(),
        k == first_max_index(ratios@.map_values(|x: u128| x as nat)),
{
    let ghost r = ratios@.map_values(|x: u128| x as nat);
    let mut best: usize = 0;
    let mut i: usize = 1;
    while i < ratios.len()
        invariant
            r == ratios@.map_values(|x: u128| x as nat),
            0 < i <= ratios@.len(),
            best < i,
            forall|j: int| 0 <= j < i ==> r[j] <= r[best as int],
            forall|j: int| 0 <= j < best ==> r[j] < r[best as int],
        decreases ratios@.len() - i,
    {
        if ratios[i] > ratios[best] {
            best = i;
        }
        i = i + 1;
    }
    proof {
        lemma_first_max_index(r);
        lemma_first_max_unique(r, best as int, first_max_index(r));
    }
    best
}

pub open spec fn seat_view(s: Seq<u16>) -> Seq<nat> {
    s.map_values(|x: u16| x as nat)
}

/// Hands out seats by the highest-ratio method.
///
/// Every subdivision starts with `initial_seats`; while fewer than
/// `target_seats` seats are handed out, the subdivision with the largest
/// population-per-seat ratio gains one, the earliest in input order on a tie.
/// The rows come back in input order.
pub fn allocate(records: &Vec<PopulationRecord>, initial_seats: u16, target_seats: u16) -> (r: Result<
    Vec<RepresentativeCount>,
    ApportionError,
>)
    ensures
        outcome_view(r) == allocation_outcome(
            records_view(records@),
            initial_seats as nat,
            target_seats as nat,
        ),
{
    let ghost recs = records_view(records@);
    let ghost pops = populations(recs);
    if initial_seats == 0 {
        return Err(ApportionError::ZeroInitialSeats);
    }
    let n = records.len();
    if n == 0 {
        return Err(ApportionError::NoSubdivisions);
    }
    if has_duplicate(records) {
        return Err(ApportionError::DuplicateName);
    }
    if n > target_seats as usize {
        assert(n * initial_seats > target_seats) by (nonlinear_arith)
            requires
                n > target_seats,
                initial_seats >= 1,
        ;
        return Err(ApportionError::TargetBelowFloor);
    }
    assert((n as u64) * (initial_seats as u64) <= 65535 * 65535) by (nonlinear_arith)
        requires
            n <= 65535,
            initial_seats <= 65535,
    ;
    let floor: u64 = (n as u64) * (initial_seats as u64);
    if floor > target_seats as u64 {
        return Err(ApportionError::TargetBelowFloor);
    }
    let base: u16 = floor as u16;
    let ghost init = uniform(n as nat, initial_seats as nat);

    let mut seats: Vec<u16> = Vec::new();
    let mut ratios: Vec<u128> = Vec::new();
    let mut i: usize = 0;
    while i < n
        invariant
            n == records@.len(),
            recs == records_view(records@),
            pops == populations(recs),
            initial_seats > 0,
            i <= n,
            seats@.len() == i,
            ratios@.len() == i,
            forall|j: int| 0 <= j < i ==> seats@[j] == initial_seats,
            forall|j: int|
                0 <= j < i ==> ratios@[j] as nat == ratio(pops[j], initial_seats as nat),
        decreases n - i,
    {
        seats.push(initial_seats);
        ratios.push(records[i].population / (initial_seats as u128));
        i = i + 1;
    }
    proof {
        assert(seat_view(seats@) =~= init);
        lemma_total_uniform(n as nat, initial_seats as nat);
    }

    let mut given: u16 = base;
    while given != target_seats
        invariant
            n == records@.len(),
            n > 0,
            recs == records_view(records@),
            pops == populations(recs),
            pops.len() == n,
            init == uniform(n as nat, initial_seats as nat),
            all_positive(init),
            total(init) == base,
            base == n * initial_seats,
            base <= given <= target_seats,
            seats@.len() == n,
            ratios@.len() == n,
            seat_view(seats@) == run(pops, init, (given - base) as nat),
            total(seat_view(seats@)) == given,
            all_positive(seat_view(seats@)),
            forall|j: int|
                0 <= j < n ==> ratios@[j] as nat == ratio(pops[j], seats@[j] as nat),
        decreases target_seats - given,
    {
        let ghost before = seat_view(seats@);
        proof {
            assert(ratios@.map_values(|x: u128| x as nat) =~= ratio_seq(pops, before));
        }
        let k = max_ratio_index(&ratios);
        proof {
            lemma_element_le_total(before, k as int);
            lemma_step_greedy(pops, before);
        }
        let s: u16 = seats[k] + 1;
        seats.set(k, s);
        ratios.set(k, records[k].population / (s as u128));
        given = given + 1;
        proof {
            assert(seat_view(seats@) =~= step(pops, before));
            let steps = (given - base) as nat;
            assert(run(pops, init, steps) == step(pops, run(pops, init, (steps - 1) as nat)));
            lemma_conservation(pops, init, steps);
            lemma_run_monotone(pops, init, steps, steps);
        }
    }

    let mut out: Vec<RepresentativeCount> = Vec::new();
    let mut i: usize = 0;
    while i < n
        invariant
            n == records@.len(),
            recs == records_view(records@),
            pops == populations(recs),
            seats@.len() == n,
            ratios@.len() == n,
            seat_view(seats@) == final_seats(recs, initial_seats as nat, target_seats as nat),
            forall|j: int|
                0 <= j < n ==> ratios@[j] as nat == ratio(pops[j], seats@[j] as nat),
            i <= n,
            out@.len() == i,
            forall|j: int|
                0 <= j < i ==> count_view(#[trigger] out@[j]) == apportionment(
                    recs,
                    initial_seats as nat,
                    target_seats as nat,
                )[j],
        decreases n - i,
    {
        out.push(
            RepresentativeCount {
                state_name: records[i].name.clone(),
                representatives: seats[i],
                ratio: ratios[i],
            },
        );
        i = i + 1;
    }
    assert(counts_view(out@) =~= apportionment(recs, initial_seats as nat, target_seats as nat));
    Ok(out)
}

/// The records of one census year: each row's name with the population of
/// the later year where `later` holds, of the earlier one otherwise.
pub open spec fn year_records(rows: Seq<(u8, Seq<char>, nat, nat)>, later: bool) -> Seq<
    (Seq<char>, nat),
> {
    rows.map_values(
        |row: (u8, Seq<char>, nat, nat)|
            (row.1, if later {
                row.3
            } else {
                row.2
            }),
    )
}

fn year_population_records(states: &Vec<CensusState>, later: bool) -> (r: Vec<PopulationRecord>)
    ensures
        records_view(r@) == year_records(census_rows(states@), later),
{
    let mut out: Vec<PopulationRecord> = Vec::new();
    let mut i: usize = 0;
    while i < states.len()
        invariant
            i <= states@.len(),
            out@.len() == i,
            forall|j: int|
                0 <= j < i ==> record_view(#[trigger] out@[j]) == year_records(
                    census_rows(states@),
                    later,
                )[j],
        decreases states@.len() - i,
    {
        let population = if later {
            states[i].population_2018
        } else {
            states[i].population_2010
        };
        out.push(PopulationRecord { name: states[i].state_name.clone(), population });
        i = i + 1;
    }
    assert(records_view(out@) =~= year_records(census_rows(states@), later));
    out
}

/// What apportioning both census years gives: the filter's error, else the
/// first year's allocation error, else the second's, else both results.
pub open spec fn representatives_outcome(
    rows: Seq<(u8, Seq<char>, nat, nat)>,
    excluded: Seq<u8>,
    initial: nat,
    target: nat,
) -> Result<(Seq<(Seq<char>, nat, nat)>, Seq<(Seq<char>, nat, nat)>), ApportionError> {
    match filter_outcome(rows, excluded) {
        Err(e) => Err(e),
        Ok(states) => match allocation_outcome(year_records(states, false), initial, target) {
            Err(e) => Err(e),
            Ok(first) => match allocation_outcome(year_records(states, true), initial, target) {
                Err(e) => Err(e),
                Ok(second) => Ok((first, second)),
            },
        },
    }
}

pub open spec fn representatives_view(
    r: Result<(Vec<RepresentativeCount>, Vec<RepresentativeCount>), ApportionError>,
) -> Result<(Seq<(Seq<char>, nat, nat)>, Seq<(Seq<char>, nat, nat)>), ApportionError> {
    match r {
        Ok((a, b)) => Ok((counts_view(a@), counts_view(b@))),
        Err(e) => Err(e),
    }
}

/// Filters the census table and apportions the seats once by the 2010
/// populations and once by the 2018 estimates. The two results list the same
/// states in the same order.
pub fn get_representatives(
    census_data: &Vec<CensusState>,
    excluded: &Vec<u8>,
    initial_seats: u16,
    target_seats: u16,
) -> (r: Result<(Vec<RepresentativeCount>, Vec<RepresentativeCount>), ApportionError>)
    ensures
        representatives_view(r) == representatives_outcome(
            census_rows(census_data@),
            excluded@,
            initial_seats as nat,
            target_seats as nat,
        ),
{
    let filtered = filter_states(census_data, excluded);
    let states = match filtered {
        Ok(states) => states,
        Err(e) => {
            return Err(e);
        },
    };
    let first = allocate(&year_population_records(&states, false), initial_seats, target_seats);
    let first = match first {
        Ok(v) => v,
        Err(e) => {
            return Err(e);
        },
    };
    let second = allocate(&year_population_records(&states, true), initial_seats, target_seats);
    match second {
        Ok(v) => Ok((first, v)),
        Err(e) => Err(e),
    }
}

/// Once the allocation ends, the seats sum to exactly the target, and every
/// subdivision holds at least its initial seats.
pub proof fn lemma_apportionment_conserves(recs: Seq<(Seq<char>, nat)>, initial: nat, target: nat)
    requires
        initial > 0,
        recs.len() > 0,
        recs.len() * initial <= target,
    ensures
        final_seats(recs, initial, target).len() == recs.len(),
        total(final_seats(recs, initial, target)) == target,
        forall|i: int|
            0 <= i < recs.len() ==> final_seats(recs, initial, target)[i] >= initial,
{
    let n = recs.len();
    let pops = populations(recs);
    let init = uniform(n, initial);
    let k = (target - n * initial) as nat;
    lemma_total_uniform(n, initial);
    lemma_conservation(pops, init, k);
    lemma_run_monotone(pops, init, 0, k);
}

/// With a target equal to the initial seats, no step runs: every subdivision
/// keeps its initial seats and the ratio they give.
pub proof fn lemma_no_extra_seats(recs: Seq<(Seq<char>, nat)>, initial: nat)
    requires
        initial > 0,
    ensures
        apportionment(recs, initial, recs.len() * initial) == Seq::new(
            recs.len(),
            |i: int| (recs[i].0, initial, ratio(recs[i].1, initial)),
        ),
{
    let target = recs.len() * initial;
    assert(final_seats(recs, initial, target) == uniform(recs.len(), initial));
    assert(apportionment(recs, initial, target) =~= Seq::new(
        recs.len(),
        |i: int| (recs[i].0, initial, ratio(recs[i].1, initial)),
    ));
}

/// Two allocations of the same records with the same floor and target give
/// the same rows, or the same error.
pub proof fn lemma_allocation_deterministic(
    records: Seq<PopulationRecord>,
    initial_seats: u16,
    target_seats: u16,
    a: Result<Vec<RepresentativeCount>, ApportionError>,
    b: Result<Vec<RepresentativeCount>, ApportionError>,
)
    requires
        outcome_view(a) == allocation_outcome(
            records_view(records),
            initial_seats as nat,
            target_seats as nat,
        ),
        outcome_view(b) == allocation_outcome(
            records_view(records),
            initial_seats as nat,
            target_seats as nat,
        ),
    ensures
        outcome_view(a) == outcome_view(b),
{
}

/// Where both census years are apportioned, the two results name the same
/// subdivisions at the same positions, so rows pair up by name.
pub proof fn lemma_years_pair_by_name(
    rows: Seq<(u8, Seq<char>, nat, nat)>,
    excluded: Seq<u8>,
    initial: nat,
    target: nat,
)
    requires
        representatives_outcome(rows, excluded, initial, target) is Ok,
    ensures
        ({
            let (first, second) = representatives_outcome(rows, excluded, initial, target)->Ok_0;
            &&& first.len() == second.len()
            &&& forall|i: int| 0 <= i < first.len() ==> #[trigger] first[i].0 == second[i].0
        }),
{
}

} // verus!
