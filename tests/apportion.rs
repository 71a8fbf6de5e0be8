use apportion::allocation::{allocate, get_representatives};
use apportion::filter::{default_exclusions, filter_states};
use apportion::ordering::sort_by_ratio;
use apportion::types::{
    ApportionError, CensusState, PopulationRecord, RepresentativeCount, INITIAL_SEATS_PER_STATE,
    TOTAL_SEATS,
};

fn rec(name: &str, population: u128) -> PopulationRecord {
    PopulationRecord { name: name.to_string(), population }
}

fn row(name: &str, representatives: u16, ratio: u128) -> RepresentativeCount {
    RepresentativeCount { state_name: name.to_string(), representatives, ratio }
}

fn state(no: u8, name: &str, p2010: u128, p2018: u128) -> CensusState {
    CensusState {
        state_no: no,
        state_name: name.to_string(),
        population_2010: p2010,
        population_2018: p2018,
    }
}

fn seats_sum(v: &[RepresentativeCount]) -> u32 {
    v.iter().map(|c| c.representatives as u32).sum()
}

#[test]
fn three_subdivisions_trace() {
    let recs = vec![rec("A", 100), rec("B", 60), rec("C", 40)];
    let out = allocate(&recs, 1, 5).unwrap();
    assert_eq!(out, vec![row("A", 2, 50), row("B", 2, 30), row("C", 1, 40)]);
    assert_eq!(seats_sum(&out), 5);
}

#[test]
fn target_equal_to_floor_runs_no_step() {
    let recs = vec![rec("A", 100), rec("B", 60), rec("C", 40)];
    let out = allocate(&recs, 2, 6).unwrap();
    assert_eq!(out, vec![row("A", 2, 50), row("B", 2, 30), row("C", 2, 20)]);
}

#[test]
fn zero_population_never_wins_while_others_positive() {
    let recs = vec![rec("Empty", 0), rec("B", 90), rec("C", 10)];
    let out = allocate(&recs, 1, 10).unwrap();
    assert_eq!(out[0], row("Empty", 1, 0));
    assert_eq!(seats_sum(&out), 10);
}

#[test]
fn ties_go_to_the_earliest_subdivision() {
    let recs = vec![rec("X", 50), rec("Y", 50)];
    let out = allocate(&recs, 1, 3).unwrap();
    assert_eq!(out, vec![row("X", 2, 25), row("Y", 1, 50)]);
}

#[test]
fn seats_are_conserved_over_many_steps() {
    let recs = vec![rec("A", 1_000_000), rec("B", 750_000), rec("C", 330_000), rec("D", 12)];
    for target in 4u16..60 {
        let out = allocate(&recs, 1, target).unwrap();
        assert_eq!(seats_sum(&out), target as u32);
        for c in &out {
            let pop = recs.iter().find(|r| r.name == c.state_name).unwrap().population;
            assert_eq!(c.ratio, pop / c.representatives as u128);
            assert!(c.representatives >= 1);
        }
    }
}

#[test]
fn seats_never_decrease_as_target_grows() {
    let recs = vec![rec("A", 523), rec("B", 311), rec("C", 97)];
    let mut prev = allocate(&recs, 1, 3).unwrap();
    for target in 4u16..40 {
        let next = allocate(&recs, 1, target).unwrap();
        for i in 0..recs.len() {
            assert!(next[i].representatives >= prev[i].representatives);
        }
        prev = next;
    }
}

#[test]
fn runs_are_deterministic() {
    let recs = vec![rec("A", 7), rec("B", 7), rec("C", 7), rec("D", 3)];
    assert_eq!(allocate(&recs, 1, 11), allocate(&recs, 1, 11));
}

#[test]
fn zero_initial_seats_is_rejected() {
    let recs = vec![rec("A", 100)];
    assert_eq!(allocate(&recs, 0, 5), Err(ApportionError::ZeroInitialSeats));
}

#[test]
fn empty_records_are_rejected() {
    assert_eq!(allocate(&vec![], 1, 5), Err(ApportionError::NoSubdivisions));
}

#[test]
fn duplicate_names_are_rejected() {
    let recs = vec![rec("A", 100), rec("B", 5), rec("A", 3)];
    assert_eq!(allocate(&recs, 1, 5), Err(ApportionError::DuplicateName));
}

#[test]
fn target_below_floor_is_rejected() {
    let recs = vec![rec("A", 100), rec("B", 5)];
    assert_eq!(allocate(&recs, 3, 5), Err(ApportionError::TargetBelowFloor));
}

#[test]
fn large_populations_do_not_overflow() {
    let recs = vec![rec("Big", 400_000_000), rec("Small", 600_000)];
    let out = allocate(&recs, 3, 435).unwrap();
    assert_eq!(seats_sum(&out), 435);
    assert_eq!(out[1].representatives, 3);
    assert_eq!(out[0].representatives, 432);
    assert_eq!(out[0].ratio, 400_000_000 / 432);
}

#[test]
fn filter_drops_excluded_rows_in_order() {
    let data = vec![
        state(0, "United States", 300, 310),
        state(1, "Alabama", 50, 51),
        state(11, "District of Columbia", 6, 7),
        state(2, "Alaska", 7, 8),
        state(72, "Puerto Rico", 37, 32),
    ];
    let kept = filter_states(&data, &default_exclusions()).unwrap();
    let names: Vec<&str> = kept.iter().map(|c| c.state_name.as_str()).collect();
    assert_eq!(names, vec!["Alabama", "Alaska"]);
    assert_eq!(kept[1].population_2018, 8);
}

#[test]
fn filtering_twice_changes_nothing() {
    let data = vec![state(0, "Region", 1, 1), state(5, "E", 2, 3), state(6, "F", 4, 5)];
    let once = filter_states(&data, &default_exclusions()).unwrap();
    let twice = filter_states(&once, &default_exclusions()).unwrap();
    assert_eq!(once.len(), twice.len());
    for (a, b) in once.iter().zip(twice.iter()) {
        assert_eq!(a.state_no, b.state_no);
        assert_eq!(a.state_name, b.state_name);
        assert_eq!(a.population_2010, b.population_2010);
        assert_eq!(a.population_2018, b.population_2018);
    }
}

#[test]
fn filter_fails_when_nothing_is_left() {
    let data = vec![state(0, "Region", 1, 1), state(72, "Territory", 2, 3)];
    assert!(matches!(
        filter_states(&data, &default_exclusions()),
        Err(ApportionError::NoSubdivisions)
    ));
    assert!(matches!(
        filter_states(&vec![], &default_exclusions()),
        Err(ApportionError::NoSubdivisions)
    ));
}

#[test]
fn default_exclusions_list() {
    assert_eq!(default_exclusions(), vec![0u8, 11, 72]);
}

#[test]
fn both_census_years_are_apportioned() {
    let data = vec![
        state(0, "Region", 1000, 1000),
        state(1, "A", 100, 40),
        state(2, "B", 60, 60),
        state(3, "C", 40, 100),
    ];
    let (first, second) = get_representatives(&data, &default_exclusions(), 1, 5).unwrap();
    assert_eq!(first, vec![row("A", 2, 50), row("B", 2, 30), row("C", 1, 40)]);
    assert_eq!(second, vec![row("A", 1, 40), row("B", 2, 30), row("C", 2, 50)]);
}

#[test]
fn house_sized_apportionment_sums_to_total() {
    let mut data = Vec::new();
    for i in 1u8..=50 {
        data.push(state(i + 12, &format!("State{}", i), 100_000 * i as u128, 120_000 * i as u128));
    }
    let (first, second) =
        get_representatives(&data, &default_exclusions(), INITIAL_SEATS_PER_STATE, TOTAL_SEATS)
            .unwrap();
    assert_eq!(seats_sum(&first), 435);
    assert_eq!(seats_sum(&second), 435);
    assert!(first.iter().all(|c| c.representatives >= 3));
}

#[test]
fn get_representatives_reports_errors() {
    let data = vec![state(1, "A", 10, 10), state(2, "B", 10, 10)];
    assert_eq!(
        get_representatives(&data, &default_exclusions(), 0, 5),
        Err(ApportionError::ZeroInitialSeats)
    );
    assert_eq!(
        get_representatives(&data, &default_exclusions(), 3, 5),
        Err(ApportionError::TargetBelowFloor)
    );
    let only_excluded = vec![state(11, "District", 10, 10)];
    assert_eq!(
        get_representatives(&only_excluded, &default_exclusions(), 1, 5),
        Err(ApportionError::NoSubdivisions)
    );
}

#[test]
fn sort_orders_rows_by_ratio() {
    let mut v = vec![row("A", 2, 50), row("B", 2, 30), row("C", 1, 40), row("D", 1, 30)];
    sort_by_ratio(&mut v);
    let ratios: Vec<u128> = v.iter().map(|c| c.ratio).collect();
    assert_eq!(ratios, vec![30, 30, 40, 50]);
    let mut names: Vec<&str> = v.iter().map(|c| c.state_name.as_str()).collect();
    names.sort();
    assert_eq!(names, vec!["A", "B", "C", "D"]);
}

#[test]
fn sort_of_empty_rows() {
    let mut v: Vec<RepresentativeCount> = Vec::new();
    sort_by_ratio(&mut v);
    assert!(v.is_empty());
}
