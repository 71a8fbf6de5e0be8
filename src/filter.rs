use vstd::prelude::*;

use crate::types::{
    ApportionError, CensusState, FEDERAL_DISTRICT_ID, REGION_ID, TERRITORY_ID,
};

verus! {

/// A census row: identifier, name, and the two population figures.
pub open spec fn census_view(c: CensusState) -> (u8, Seq<char>, nat, nat) {
    (c.state_no, c.state_name@, c.population_2010 as nat, c.population_2018 as nat)
}

pub open spec fn census_rows(cs: Seq<CensusState>) -> Seq<(u8, Seq<char>, nat, nat)> {
    cs.map_values(|c: CensusState| census_view(c))
}

/// The rows whose identifier is not excluded, in the order they came.
pub open spec fn kept(rows: Seq<(u8, Seq<char>, nat, nat)>, excluded: Seq<u8>) -> Seq<
    (u8, Seq<char>, nat, nat),
>
    decreases rows.len(),
{
    if rows.len() == 0 {
        rows
    } else {
        let rest = kept(rows.drop_last(), excluded);
        if excluded.contains(rows.last().0) {
            rest
        } else {
            rest.push(rows.last())
        }
    }
}

/// What filtering gives: the kept rows, or an error where none is left.
pub open spec fn filter_outcome(rows: Seq<(u8, Seq<char>, nat, nat)>, excluded: Seq<u8>) -> Result<
    Seq<(u8, Seq<char>, nat, nat)>,
    ApportionError,
> {
    if kept(rows, excluded).len() == 0 {
        Err(ApportionError::NoSubdivisions)
    } else {
        Ok(kept(rows, excluded))
    }
}

pub open spec fn filtered_view(r: Result<Vec<CensusState>, ApportionError>) -> Result<
    Seq<(u8, Seq<char>, nat, nat)>,
    ApportionError,
> {
    match r {
        Ok(v) => Ok(census_rows(v@)),
        Err(e) => Err(e),
    }
}

/// Filtering rows that were already filtered leaves them as they are.
pub proof fn lemma_filter_idempotent(rows: Seq<(u8, Seq<char>, nat, nat)>, excluded: Seq<u8>)
    ensures
        kept(kept(rows, excluded), excluded) == kept(rows, excluded),
        filter_outcome(rows, excluded) is Ok ==> filter_outcome(kept(rows, excluded), excluded)
            == filter_outcome(rows, excluded),
    decreases rows.len(),
{
    if rows.len() > 0 {
        let rest = kept(rows.drop_last(), excluded);
        lemma_filter_idempotent(rows.drop_last(), excluded);
        if !excluded.contains(rows.last().0) {
            let p = rest.push(rows.last());
            assert(p.drop_last() =~= rest);
        }
    }
}

/// Whether `id` is one of `excluded`.
fn is_excluded(id: u8, excluded: &Vec<u8>) -> (r: bool)
    ensures
        r == excluded@.contains(id),
{
    let mut i: usize = 0;
    while i < excluded.len()
        invariant
            i <= excluded@.len(),
            forall|j: int| 0 <= j < i ==> excluded@[j] != id,
        decreases excluded@.len() - i,
    {
        if excluded[i] == id {
            return true;
        }
        i = i + 1;
    }
    false
}

/// Keeps the census rows whose identifier is not in `excluded`, in order.
/// Fails where no row is left, an empty table included.
pub fn filter_states(census_data: &Vec<CensusState>, excluded: &Vec<u8>) -> (r: Result<
    Vec<CensusState>,
    ApportionError,
>)
    ensures
        filtered_view(r) == filter_outcome(census_rows(census_data@), excluded@),
{
    let ghost rows = census_rows(census_data@);
    let mut out: Vec<CensusState> = Vec::new();
    let mut i: usize = 0;
    while i < census_data.len()
        invariant
            rows == census_rows(census_data@),
            i <= census_data@.len(),
            census_rows(out@) == kept(rows.take(i as int), excluded@),
        decreases census_data@.len() - i,
    {
        let c = &census_data[i];
        proof {
            assert(rows.take(i + 1).drop_last() =~= rows.take(i as int));
        }
        if !is_excluded(c.state_no, excluded) {
            let copy = CensusState {
                state_no: c.state_no,
                state_name: c.state_name.clone(),
                population_2010: c.population_2010,
                population_2018: c.population_2018,
            };
            out.push(copy);
            proof {
                assert(census_rows(out@) =~= kept(rows.take(i as int), excluded@).push(
                    census_view(copy),
                ));
            }
        }
        i = i + 1;
    }
    assert(rows.take(census_data@.len() as int) =~= rows);
    if out.len() == 0 {
        Err(ApportionError::NoSubdivisions)
    } else {
        Ok(out)
    }
}

/// The identifiers left out of apportionment: the aggregate regions, the
/// federal district and the territory.
pub fn default_exclusions() -> (r: Vec<u8>)
    ensures
        r@ == seq![REGION_ID, FEDERAL_DISTRICT_ID, TERRITORY_ID],
{
    let mut r: Vec<u8> = Vec::new();
    r.push(REGION_ID);
    r.push(FEDERAL_DISTRICT_ID);
    r.push(TERRITORY_ID);
    assert(r@ =~= seq![REGION_ID, FEDERAL_DISTRICT_ID, TERRITORY_ID]);
    r
}

} // verus!
