use vstd::prelude::*;

verus! {

/// Seats every state starts with (House floor plus the two Senate seats).
pub const INITIAL_SEATS_PER_STATE: u16 = 3;

/// Total number of seats to be handed out.
pub const TOTAL_SEATS: u16 = 435;

/// Census identifier of the aggregate region rows.
pub const REGION_ID: u8 = 0;

/// Census identifier of the federal district.
pub const FEDERAL_DISTRICT_ID: u8 = 11;

/// Census identifier of Puerto Rico.
pub const TERRITORY_ID: u8 = 72;

/// One row of the census table: an identifier, a name, and the population
/// figures of two census years.
#[derive(Debug, Clone)]
pub struct CensusState {
    pub state_no: u8,
    pub state_name: String,
    pub population_2010: u128,
    pub population_2018: u128,
}

/// A subdivision and the population that seats are apportioned by.
#[derive(Debug, Clone)]
pub struct PopulationRecord {
    pub name: String,
    pub population: u128,
}

/// The outcome of one apportionment for one subdivision.
#[derive(Debug, Clone, PartialEq, Eq)]
pub struct RepresentativeCount {
    pub state_name: String,
    pub representatives: u16,
    pub ratio: u128,
}

/// Why an apportionment cannot be run.
#[derive(Debug, Clone, Copy, PartialEq, Eq, Structural)]
pub enum ApportionError {
    /// The initial number of seats per subdivision is zero.
    ZeroInitialSeats,
    /// There is no subdivision to apportion seats to.
    NoSubdivisions,
    /// Two subdivisions carry the same name.
    DuplicateName,
    /// The target is below the seats handed out at the start.
    TargetBelowFloor,
}

} // verus!
