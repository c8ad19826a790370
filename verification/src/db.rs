//! The tables and columns of the relational store that the rows go to.

use vstd::prelude::*;
use vstd::string::StringExecFns;

verus! {

/// The table of services and its columns. A service is one train number in
/// one timetable year.
#[derive(Debug, PartialEq, Eq, Clone, Copy, Structural)]
pub enum Service {
    Table,
    Id,
    TrainNumber,
    TimetableYear,
    Type,
    Provider,
}

impl Service {
    /// The name of the table or column in the store.
    pub open spec fn name(self) -> Seq<char> {
        match self {
            Service::Table => "service"@,
            Service::Id => "id"@,
            Service::TrainNumber => "train_number"@,
            Service::TimetableYear => "timetable_year"@,
            Service::Type => "type"@,
            Service::Provider => "provider"@,
        }
    }

    /// The name of the table or column in the store.
    pub fn to_string(&self) -> (r: String)
        ensures
            r@ == self.name(),
    {
        match self {
            Service::Table => String::from_str("service"),
            Service::Id => String::from_str("id"),
            Service::TrainNumber => String::from_str("train_number"),
            Service::TimetableYear => String::from_str("timetable_year"),
            Service::Type => String::from_str("type"),
            Service::Provider => String::from_str("provider"),
        }
    }
}

/// The table of journeys and its columns. A journey is one service on one
/// day.
#[derive(Debug, PartialEq, Eq, Clone, Copy, Structural)]
pub enum Journey {
    Table,
    Id,
    ServiceId,
    RunningOn,
    Attributes,
    SourceIds,
}

impl Journey {
    /// The name of the table or column in the store.
    pub open spec fn name(self) -> Seq<char> {
        match self {
            Journey::Table => "journey"@,
            Journey::Id => "id"@,
            Journey::ServiceId => "service_id"@,
            Journey::RunningOn => "running_on"@,
            Journey::Attributes => "attributes"@,
            Journey::SourceIds => "source_ids"@,
        }
    }

    /// The name of the table or column in the store.
    pub fn to_string(&self) -> (r: String)
        ensures
            r@ == self.name(),
    {
        match self {
            Journey::Table => String::from_str("journey"),
            Journey::Id => String::from_str("id"),
            Journey::ServiceId => String::from_str("service_id"),
            Journey::RunningOn => String::from_str("running_on"),
            Journey::Attributes => String::from_str("attributes"),
            Journey::SourceIds => String::from_str("source_ids"),
        }
    }
}

/// The table of journey events and its columns. A journey event is one
/// station on the way of one journey.
#[derive(Debug, PartialEq, Eq, Clone, Copy, Structural)]
pub enum JourneyEvent {
    Table,
    Id,
    JourneyId,
    Station,
    EventTypePlanned,
    StopOrder,
    ArrivalTimePlanned,
    ArrivalPlatformPlanned,
    DepartureTimePlanned,
    DeparturePlatformPlanned,
    Attributes,
}

impl JourneyEvent {
    /// The name of the table or column in the store.
    pub open spec fn name(self) -> Seq<char> {
        match self {
            JourneyEvent::Table => "journey_event"@,
            JourneyEvent::Id => "id"@,
            JourneyEvent::JourneyId => "journey_id"@,
            JourneyEvent::Station => "station"@,
            JourneyEvent::EventTypePlanned => "event_type_planned"@,
            JourneyEvent::StopOrder => "stop_order"@,
            JourneyEvent::ArrivalTimePlanned => "arrival_time_planned"@,
            JourneyEvent::ArrivalPlatformPlanned => "arrival_platform_planned"@,
            JourneyEvent::DepartureTimePlanned => "departure_time_planned"@,
            JourneyEvent::DeparturePlatformPlanned => "departure_platform_planned"@,
            JourneyEvent::Attributes => "attributes"@,
        }
    }

    /// The name of the table or column in the store.
    pub fn to_string(&self) -> (r: String)
        ensures
            r@ == self.name(),
    {
        match self {
            JourneyEvent::Table => String::from_str("journey_event"),
            JourneyEvent::Id => String::from_str("id"),
            JourneyEvent::JourneyId => String::from_str("journey_id"),
            JourneyEvent::Station => String::from_str("station"),
            JourneyEvent::EventTypePlanned => String::from_str("event_type_planned"),
            JourneyEvent::StopOrder => String::from_str("stop_order"),
            JourneyEvent::ArrivalTimePlanned => String::from_str("arrival_time_planned"),
            JourneyEvent::ArrivalPlatformPlanned => String::from_str("arrival_platform_planned"),
            JourneyEvent::DepartureTimePlanned => String::from_str("departure_time_planned"),
            JourneyEvent::DeparturePlatformPlanned => String::from_str(
                "departure_platform_planned",
            ),
            JourneyEvent::Attributes => String::from_str("attributes"),
        }
    }
}

/// The table of stations and its columns.
#[derive(Debug, PartialEq, Eq, Clone, Copy, Structural)]
pub enum Station {
    Table,
    UicCode,
    UicCdCode,
    EvaCode,
    CdCode,
    Code,
    StationType,
    NameLong,
    NameMedium,
    NameShort,
    NameSynonyms,
    Country,
    Tracks,
    HasTravelAssistance,
    IsBorderStop,
    IsAvailableForAccessibleTravel,
    HasKnownFacilities,
    AreTracksIndependentlyAccessible,
    Location,
}

impl Station {
    /// The name of the table or column in the store.
    pub open spec fn name(self) -> Seq<char> {
        match self {
            Station::Table => "station"@,
            Station::UicCode => "uic_code"@,
            Station::UicCdCode => "uic_cd_code"@,
            Station::EvaCode => "eva_code"@,
            Station::CdCode => "cd_code"@,
            Station::Code => "code"@,
            Station::StationType => "station_type"@,
            Station::NameLong => "name_long"@,
            Station::NameMedium => "name_medium"@,
            Station::NameShort => "name_short"@,
            Station::NameSynonyms => "name_synonyms"@,
            Station::Country => "country"@,
            Station::Tracks => "tracks"@,
            Station::HasTravelAssistance => "has_travel_assistance"@,
            Station::IsBorderStop => "is_border_stop"@,
            Station::IsAvailableForAccessibleTravel => "is_available_for_accessible_travel"@,
            Station::HasKnownFacilities => "has_known_facilities"@,
            Station::AreTracksIndependentlyAccessible => "are_tracks_independently_accessible"@,
            Station::Location => "location"@,
        }
    }

    /// The name of the table or column in the store.
    pub fn to_string(&self) -> (r: String)
        ensures
            r@ == self.name(),
    {
        match self {
            Station::Table => String::from_str("station"),
            Station::UicCode => String::from_str("uic_code"),
            Station::UicCdCode => String::from_str("uic_cd_code"),
            Station::EvaCode => String::from_str("eva_code"),
            Station::CdCode => String::from_str("cd_code"),
            Station::Code => String::from_str("code"),
            Station::StationType => String::from_str("station_type"),
            Station::NameLong => String::from_str("name_long"),
            Station::NameMedium => String::from_str("name_medium"),
            Station::NameShort => String::from_str("name_short"),
            Station::NameSynonyms => String::from_str("name_synonyms"),
            Station::Country => String::from_str("country"),
            Station::Tracks => String::from_str("tracks"),
            Station::HasTravelAssistance => String::from_str("has_travel_assistance"),
            Station::IsBorderStop => String::from_str("is_border_stop"),
            Station::IsAvailableForAccessibleTravel => String::from_str("is_available_for_accessible_travel"),
            Station::HasKnownFacilities => String::from_str("has_known_facilities"),
            Station::AreTracksIndependentlyAccessible => String::from_str("are_tracks_independently_accessible"),
            Station::Location => String::from_str("location"),
        }
    }
}

/// The table of the tracks between two stations and its columns.
#[derive(Debug, PartialEq, Eq, Clone, Copy, Structural)]
pub enum StationGeometry {
    Table,
    From,
    To,
    LineString,
}

impl StationGeometry {
    /// The name of the table or column in the store.
    pub open spec fn name(self) -> Seq<char> {
        match self {
            StationGeometry::Table => "station_geometry"@,
            StationGeometry::From => "from"@,
            StationGeometry::To => "to"@,
            StationGeometry::LineString => "line_string"@,
        }
    }

    /// The name of the table or column in the store.
    pub fn to_string(&self) -> (r: String)
        ensures
            r@ == self.name(),
    {
        match self {
            StationGeometry::Table => String::from_str("station_geometry"),
            StationGeometry::From => String::from_str("from"),
            StationGeometry::To => String::from_str("to"),
            StationGeometry::LineString => String::from_str("line_string"),
        }
    }
}

} // verus!
