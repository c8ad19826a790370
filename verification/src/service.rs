//! A service of the timetable: what the feed says of one train, and the
//! legs it is made of.
//!
//! A service runs under one number, or under two: then it is two trains
//! that share a stop, and [`Service::split_legs`] parts it there. Stops are
//! counted from 1 over the station events that are no passages.

use crate::service::attribute::{clone_attributes, Attribute, AttributeView};
use crate::service::identification::ServiceIdentification;
use crate::service::number::{ServiceNumber, ServiceNumberView};
use crate::views::{lemma_seq_view_empty, lemma_seq_view_push};
use crate::service::platform_info::{PlatformInfo, PlatformInfoView};
use crate::service::station_event::{
    StationEvent, StationEventType, StationEventView, StubError,
};
use crate::service::transport_mode::{TransportMode, TransportModeView};
use crate::service::validity::Validity;
use crate::views::seq_view;
use vstd::prelude::*;

pub mod attribute;
pub mod identification;
pub mod number;
pub mod platform_info;
pub mod station_event;
pub mod transport_mode;
pub mod validity;

verus! {

/// A station event with the platforms known for it, if any.
pub type Stop = (StationEvent, Option<PlatformInfo>);

/// A [`Stop`] as plain values.
pub type StopView = (StationEventView, Option<PlatformInfoView>);

/// The plain values of the platforms of a stop.
pub open spec fn platform_view(platform: Option<PlatformInfo>) -> Option<PlatformInfoView> {
    match platform {
        Some(p) => Some(p@),
        None => None,
    }
}

/// The plain values of a stop.
pub open spec fn stop_view(stop: Stop) -> StopView {
    (stop.0@, platform_view(stop.1))
}

/// The plain values of a list of stops.
pub open spec fn stops_view(stops: Seq<Stop>) -> Seq<StopView> {
    Seq::new(stops.len(), |k: int| stop_view(stops[k]))
}

/// Whether a train halts at this station event.
pub open spec fn is_halt(stop: StopView) -> bool {
    stop.0.stop_type != StationEventType::Passage
}

/// The first `n` station events without the passages.
pub open spec fn halts(events: Seq<StopView>, n: int) -> Seq<StopView>
    decreases n,
{
    if n <= 0 || n > events.len() {
        Seq::empty()
    } else if is_halt(events[n - 1]) {
        halts(events, n - 1).push(events[n - 1])
    } else {
        halts(events, n - 1)
    }
}

/// The station events at which the train halts, in their order.
pub open spec fn all_halts(events: Seq<StopView>) -> Seq<StopView> {
    halts(events, events.len() as int)
}

/// The position, from `from` on, of the `k`-th station event that is no
/// passage; `k` counts from 1.
pub open spec fn nth_halt(events: Seq<StopView>, from: int, k: int) -> Option<int>
    decreases events.len() - from,
{
    if k < 1 || from < 0 || from >= events.len() {
        None
    } else if is_halt(events[from]) {
        if k == 1 {
            Some(from)
        } else {
            nth_halt(events, from + 1, k - 1)
        }
    } else {
        nth_halt(events, from + 1, k)
    }
}

/// The position, from `from` on, of the first of `events` that says what
/// `event` says.
pub open spec fn first_same(events: Seq<StopView>, event: StationEventView, from: int) -> Option<
    int,
>
    decreases events.len() - from,
{
    if from < 0 || from >= events.len() {
        None
    } else if events[from].0 == event {
        Some(from)
    } else {
        first_same(events, event, from + 1)
    }
}

/// A service as the feed states it.
#[derive(Debug, PartialEq)]
pub struct Service {
    pub identification: ServiceIdentification,
    pub service_number: Vec<ServiceNumber>,
    pub validity: Validity,
    pub transport_mode: TransportMode,
    pub attributes: Vec<Attribute>,
    pub station_events: Vec<(StationEvent, Option<PlatformInfo>)>,
}

/// A [`Service`] as plain values.
pub struct ServiceView {
    pub identification: ServiceIdentification,
    pub service_number: Seq<ServiceNumberView>,
    pub validity: Validity,
    pub transport_mode: TransportModeView,
    pub attributes: Seq<AttributeView>,
    pub station_events: Seq<StopView>,
}

impl View for Service {
    type V = ServiceView;

    open spec fn view(&self) -> ServiceView {
        ServiceView {
            identification: self.identification,
            service_number: seq_view(self.service_number@),
            validity: self.validity,
            transport_mode: self.transport_mode@,
            attributes: seq_view(self.attributes@),
            station_events: stops_view(self.station_events@),
        }
    }
}

/// One train of a service: its number and the station events of its way.
#[derive(Debug, PartialEq)]
pub struct ServiceLeg {
    pub service_number: ServiceNumber,
    pub validity: Validity,
    pub transport_mode: TransportMode,
    pub attributes: Vec<Attribute>,
    pub station_events: Vec<(StationEvent, Option<PlatformInfo>)>,
}

/// A [`ServiceLeg`] as plain values.
pub struct ServiceLegView {
    pub service_number: ServiceNumberView,
    pub validity: Validity,
    pub transport_mode: TransportModeView,
    pub attributes: Seq<AttributeView>,
    pub station_events: Seq<StopView>,
}

impl View for ServiceLeg {
    type V = ServiceLegView;

    open spec fn view(&self) -> ServiceLegView {
        ServiceLegView {
            service_number: self.service_number@,
            validity: self.validity,
            transport_mode: self.transport_mode@,
            attributes: seq_view(self.attributes@),
            station_events: stops_view(self.station_events@),
        }
    }
}

/// Why a service cannot be split into legs.
#[derive(Debug, PartialEq, Eq, Clone, Copy, Structural)]
pub enum SplitError {
    /// The service has no number, or more than two.
    UnsupportedServiceNumbers,
    /// The first number's last stop is none of the service's stops.
    BoundaryNotFound,
    /// The station event at the boundary has no time of arrival.
    MissingArrival,
    /// The station event at the boundary has no time of departure.
    MissingDeparture,
}

impl ServiceView {
    /// The leg that runs under the `k`-th number over `events`.
    pub open spec fn leg(self, k: int, events: Seq<StopView>) -> ServiceLegView {
        ServiceLegView {
            service_number: self.service_number[k],
            validity: self.validity,
            transport_mode: self.transport_mode,
            attributes: self.attributes,
            station_events: events,
        }
    }

    /// Where a service of two numbers is split: at the stop that the first
    /// number names as its last, counted from 1 over the station events
    /// that are no passages.
    pub open spec fn boundary(self) -> Option<int> {
        nth_halt(self.station_events, 0, self.service_number[0].last_stop as int)
    }

    /// The legs of the service.
    ///
    /// Under one number the service is its one leg. Under two it is split
    /// at the boundary: the first leg is all before the boundary and an
    /// arrival there, the second a departure there and all after it. The
    /// station event at the boundary must have both times.
    pub open spec fn split_legs(self) -> Result<Seq<ServiceLegView>, SplitError> {
        if self.service_number.len() == 1 {
            Ok(seq![self.leg(0, self.station_events)])
        } else if self.service_number.len() == 2 {
            match self.boundary() {
                None => Err(SplitError::BoundaryNotFound),
                Some(b) => {
                    let at = self.station_events[b];
                    if at.0.arrival_time.is_none() {
                        Err(SplitError::MissingArrival)
                    } else if at.0.departure_time.is_none() {
                        Err(SplitError::MissingDeparture)
                    } else {
                        Ok(
                            seq![
                                self.leg(
                                    0,
                                    self.station_events.subrange(0, b).push(
                                        (at.0.as_arrival(), at.1),
                                    ),
                                ),
                                self.leg(
                                    1,
                                    seq![(at.0.as_departure(), at.1)]
                                        + self.station_events.subrange(
                                        b + 1,
                                        self.station_events.len() as int,
                                    ),
                                ),
                            ],
                        )
                    }
                },
            }
        } else {
            Err(SplitError::UnsupportedServiceNumbers)
        }
    }
}

/// A copy of the platforms of a stop.
pub fn clone_platform(p: &Option<PlatformInfo>) -> (r: Option<PlatformInfo>)
    ensures
        platform_view(r) == platform_view(*p),
{
    match p {
        Some(info) => Some(info.clone()),
        None => None,
    }
}

/// A copy of a stop.
pub fn clone_stop(stop: &Stop) -> (r: Stop)
    ensures
        stop_view(r) == stop_view(*stop),
{
    (stop.0.clone(), clone_platform(&stop.1))
}

/// A copy of the stops from `a` up to `b`.
pub fn clone_stops(v: &Vec<Stop>, a: usize, b: usize) -> (r: Vec<Stop>)
    requires
        a <= b <= v.len(),
    ensures
        stops_view(r@) == stops_view(v@).subrange(a as int, b as int),
{
    let mut out: Vec<Stop> = Vec::new();
    let mut k: usize = a;
    assert(stops_view(out@) =~= stops_view(v@).subrange(a as int, a as int));
    while k < b
        invariant
            a <= k <= b <= v.len(),
            stops_view(out@) == stops_view(v@).subrange(a as int, k as int),
        decreases b - k,
    {
        let stop = clone_stop(&v[k]);
        let ghost before = out@;
        out.push(stop);
        proof {
            let want = stops_view(v@).subrange(a as int, k + 1);
            assert(stops_view(v@).len() == v@.len());
            assert(stops_view(before).len() == before.len());
            assert(stops_view(v@).subrange(a as int, k as int).len() == k - a);
            assert(out@.len() == want.len());
            assert forall|j: int| 0 <= j < out@.len() implies stops_view(out@)[j] == want[j] by {
                if j < before.len() {
                    assert(stops_view(before)[j] == stops_view(v@).subrange(a as int, k as int)[j]);
                }
            }
            assert(stops_view(out@) =~= want);
        }
        k += 1;
    }
    out
}

/// A copy of a list of service numbers.
pub fn clone_numbers(v: &Vec<ServiceNumber>) -> (r: Vec<ServiceNumber>)
    ensures
        seq_view(r@) == seq_view(v@),
{
    let mut out: Vec<ServiceNumber> = Vec::new();
    let mut k: usize = 0;
    proof {
        lemma_seq_view_empty::<ServiceNumber>();
        assert(v@.subrange(0, 0) =~= Seq::<ServiceNumber>::empty());
    }
    while k < v.len()
        invariant
            k <= v.len(),
            seq_view(out@) == seq_view(v@.subrange(0, k as int)),
        decreases v.len() - k,
    {
        let number = v[k].clone();
        proof {
            lemma_seq_view_push(out@, number);
            lemma_seq_view_push(v@.subrange(0, k as int), v@[k as int]);
            assert(v@.subrange(0, k + 1) =~= v@.subrange(0, k as int).push(v@[k as int]));
        }
        out.push(number);
        k += 1;
    }
    assert(v@.subrange(0, v@.len() as int) =~= v@);
    out
}

impl Clone for Service {
    fn clone(&self) -> (r: Self)
        ensures
            r@ == self@,
    {
        let station_events = clone_stops(&self.station_events, 0, self.station_events.len());
        assert(stops_view(self.station_events@).subrange(0, self.station_events@.len() as int)
            =~= stops_view(self.station_events@));
        Service {
            identification: self.identification,
            service_number: clone_numbers(&self.service_number),
            validity: self.validity,
            transport_mode: self.transport_mode.clone(),
            attributes: clone_attributes(&self.attributes),
            station_events,
        }
    }
}

impl Clone for ServiceLeg {
    fn clone(&self) -> (r: Self)
        ensures
            r@ == self@,
    {
        let station_events = clone_stops(&self.station_events, 0, self.station_events.len());
        assert(stops_view(self.station_events@).subrange(0, self.station_events@.len() as int)
            =~= stops_view(self.station_events@));
        ServiceLeg {
            service_number: self.service_number.clone(),
            validity: self.validity,
            transport_mode: self.transport_mode.clone(),
            attributes: clone_attributes(&self.attributes),
            station_events,
        }
    }
}

/// Finds the `k`-th station event that is no passage; `k` counts from 1.
pub fn find_nth_halt(events: &Vec<Stop>, k: u32) -> (r: Option<usize>)
    ensures
        match nth_halt(stops_view(events@), 0, k as int) {
            Some(n) => r == Some(n as usize) && 0 <= n < events.len(),
            None => r.is_none(),
        },
{
    if k < 1 {
        return None;
    }
    let mut left: u32 = k;
    let mut idx: usize = 0;
    while idx < events.len()
        invariant
            idx <= events.len(),
            1 <= left <= k,
            nth_halt(stops_view(events@), 0, k as int) == nth_halt(
                stops_view(events@),
                idx as int,
                left as int,
            ),
        decreases events.len() - idx,
    {
        if events[idx].0.stop_type != StationEventType::Passage {
            if left == 1 {
                return Some(idx);
            }
            left -= 1;
        }
        idx += 1;
    }
    None
}

impl Service {
    /// The `stop_index`-th stop of the service, counted from 1 over the
    /// station events that are no passages, with its platforms. `None`
    /// where the service has no such stop or no platforms are known for it.
    pub fn stop_at(&self, stop_index: u32) -> (r: Option<(StationEvent, PlatformInfo)>)
        requires
            stop_index >= 1,
        ensures
            match nth_halt(self@.station_events, 0, stop_index as int) {
                Some(k) => match self@.station_events[k].1 {
                    Some(p) => r matches Some(found) && found.0@ == self@.station_events[k].0
                        && found.1@ == p,
                    None => r.is_none(),
                },
                None => r.is_none(),
            },
    {
        assert(self@.station_events.len() == self.station_events@.len());
        match find_nth_halt(&self.station_events, stop_index) {
            Some(k) => match &self.station_events[k].1 {
                Some(p) => Some((self.station_events[k].0.clone(), p.clone())),
                None => None,
            },
            None => None,
        }
    }

    fn make_leg(&self, k: usize, station_events: Vec<Stop>) -> (r: ServiceLeg)
        requires
            k < self.service_number.len(),
        ensures
            r@ == self@.leg(k as int, stops_view(station_events@)),
    {
        ServiceLeg {
            service_number: self.service_number[k].clone(),
            validity: self.validity,
            transport_mode: self.transport_mode.clone(),
            attributes: clone_attributes(&self.attributes),
            station_events,
        }
    }

    /// Splits the service into its legs: one under one number, two under
    /// two. Fails on any other count of numbers, where the first number's
    /// last stop is no stop of the service, and where the station event at
    /// the boundary lacks a time.
    pub fn split_legs(&self) -> (r: Result<Vec<ServiceLeg>, SplitError>)
        ensures
            match self@.split_legs() {
                Ok(legs) => r matches Ok(v) && seq_view(v@) == legs,
                Err(e) => r == Err::<Vec<ServiceLeg>, SplitError>(e),
            },
    {
        let n = self.station_events.len();
        assert(self@.station_events.len() == self.station_events@.len());
        assert(self@.service_number.len() == self.service_number@.len());
        if self.service_number.len() == 1 {
            let events = clone_stops(&self.station_events, 0, n);
            assert(stops_view(self.station_events@).subrange(0, n as int) =~= stops_view(
                self.station_events@,
            ));
            let leg = self.make_leg(0, events);
            let mut legs: Vec<ServiceLeg> = Vec::new();
            legs.push(leg);
            assert(seq_view(legs@) =~= seq![self@.leg(0, self@.station_events)]);
            return Ok(legs);
        }
        if self.service_number.len() != 2 {
            return Err(SplitError::UnsupportedServiceNumbers);
        }
        let b = match find_nth_halt(&self.station_events, self.service_number[0].last_stop) {
            Some(b) => b,
            None => {
                return Err(SplitError::BoundaryNotFound);
            },
        };
        let arrival = match self.station_events[b].0.clone().into_arrival() {
            Ok(e) => e,
            Err(_) => {
                return Err(SplitError::MissingArrival);
            },
        };
        let departure = match self.station_events[b].0.clone().into_departure() {
            Ok(e) => e,
            Err(_) => {
                return Err(SplitError::MissingDeparture);
            },
        };
        let mut first_events = clone_stops(&self.station_events, 0, b);
        first_events.push((arrival, clone_platform(&self.station_events[b].1)));
        let mut second_events: Vec<Stop> = Vec::new();
        second_events.push((departure, clone_platform(&self.station_events[b].1)));
        let mut rest = clone_stops(&self.station_events, b + 1, n);
        let ghost rest_view = stops_view(rest@);
        let ghost head_view = stops_view(second_events@);
        second_events.append(&mut rest);
        proof {
            let at = self@.station_events[b as int];
            assert(stops_view(first_events@) =~= self@.station_events.subrange(0, b as int).push(
                (at.0.as_arrival(), at.1),
            ));
            assert(head_view =~= seq![(at.0.as_departure(), at.1)]);
            assert(stops_view(second_events@) =~= head_view + rest_view);
        }
        let first = self.make_leg(0, first_events);
        let second = self.make_leg(1, second_events);
        let mut legs: Vec<ServiceLeg> = Vec::new();
        legs.push(first);
        legs.push(second);
        proof {
            assert(seq_view(legs@) =~= seq![first@, second@]);
        }
        Ok(legs)
    }
}

impl ServiceLeg {
    /// The station events at which the train halts: all but the passages,
    /// in their order.
    pub fn stops(&self) -> (r: Vec<&(StationEvent, Option<PlatformInfo>)>)
        ensures
            r@.len() == all_halts(self@.station_events).len(),
            forall|k: int|
                0 <= k < r@.len() ==> stop_view(*#[trigger] r@[k]) == all_halts(
                    self@.station_events,
                )[k],
    {
        let mut out: Vec<&(StationEvent, Option<PlatformInfo>)> = Vec::new();
        let mut idx: usize = 0;
        assert(self@.station_events.len() == self.station_events@.len());
        while idx < self.station_events.len()
            invariant
                idx <= self.station_events.len(),
                self@.station_events.len() == self.station_events@.len(),
                out@.len() == halts(self@.station_events, idx as int).len(),
                forall|k: int|
                    0 <= k < out@.len() ==> stop_view(*#[trigger] out@[k]) == halts(
                        self@.station_events,
                        idx as int,
                    )[k],
            decreases self.station_events.len() - idx,
        {
            if self.station_events[idx].0.stop_type != StationEventType::Passage {
                out.push(&self.station_events[idx]);
            }
            idx += 1;
        }
        out
    }

    /// The number of stops: the station events that are no passages.
    pub fn num_stops(&self) -> (r: u32)
        requires
            self.station_events.len() <= u32::MAX,
        ensures
            r == all_halts(self@.station_events).len(),
    {
        let mut count: u32 = 0;
        let mut idx: usize = 0;
        assert(self@.station_events.len() == self.station_events@.len());
        while idx < self.station_events.len()
            invariant
                idx <= self.station_events.len() <= u32::MAX,
                self@.station_events.len() == self.station_events@.len(),
                count == halts(self@.station_events, idx as int).len(),
                count <= idx,
            decreases self.station_events.len() - idx,
        {
            if self.station_events[idx].0.stop_type != StationEventType::Passage {
                count += 1;
            }
            idx += 1;
        }
        count
    }

    /// The place of `event` among the stops, counted from 0: that of the
    /// first stop that says what `event` says. `None` where `event` is a
    /// passage or no stop of the leg says the same.
    pub fn stop_number(&self, event: &StationEvent) -> (r: Option<u32>)
        requires
            self.station_events.len() <= u32::MAX,
        ensures
            r == stop_number_of(self@.station_events, event@),
    {
        if event.stop_type == StationEventType::Passage {
            return None;
        }
        let mut count: u32 = 0;
        let mut idx: usize = 0;
        assert(self@.station_events.len() == self.station_events@.len());
        while idx < self.station_events.len()
            invariant
                idx <= self.station_events.len() <= u32::MAX,
                self@.station_events.len() == self.station_events@.len(),
                is_halt((event@, None)),
                count <= idx,
                count == halts(self@.station_events, idx as int).len(),
                first_same(self@.station_events, event@, 0) == first_same(
                    self@.station_events,
                    event@,
                    idx as int,
                ),
            decreases self.station_events.len() - idx,
        {
            if self.station_events[idx].0.same_as(event) {
                return Some(count);
            }
            if self.station_events[idx].0.stop_type != StationEventType::Passage {
                count += 1;
            }
            idx += 1;
        }
        None
    }
}

/// The place of `event` among the halts of `events`, counted from 0: the
/// number of halts before the first of `events` that says what `event`
/// says. `None` where `event` is a passage or none of `events` says the same.
pub open spec fn stop_number_of(events: Seq<StopView>, event: StationEventView) -> Option<u32> {
    if !is_halt((event, None)) {
        None
    } else {
        match first_same(events, event, 0) {
            Some(k) => Some(halts(events, k).len() as u32),
            None => None,
        }
    }
}

/// What `first_same` finds says the same, and nothing before it does.
pub proof fn lemma_first_same(events: Seq<StopView>, event: StationEventView, from: int)
    requires
        0 <= from,
    ensures
        match first_same(events, event, from) {
            Some(k) => from <= k < events.len() && events[k].0 == event && forall|j: int|
                from <= j < k ==> (#[trigger] events[j]).0 != event,
            None => forall|j: int| from <= j < events.len() ==> (#[trigger] events[j]).0 != event,
        },
    decreases events.len() - from,
{
    if from < events.len() && events[from].0 != event {
        lemma_first_same(events, event, from + 1);
    }
}

/// The halts among the first `n` station events open the halts among the
/// first `m`, for `n` up to `m`.
pub proof fn lemma_halts_prefix(events: Seq<StopView>, n: int, m: int)
    requires
        0 <= n <= m <= events.len(),
    ensures
        halts(events, n).len() <= halts(events, m).len() <= m,
        forall|j: int|
            0 <= j < halts(events, n).len() ==> #[trigger] halts(events, m)[j] == halts(
                events,
                n,
            )[j],
    decreases m,
{
    if n < m {
        lemma_halts_prefix(events, n, m - 1);
    } else if m > 0 {
        lemma_halts_prefix(events, n - 1, m - 1);
    }
}

/// The stop that a stop number names says what the event says: with `p`
/// the stop number of `event`, the `p`-th halt of the leg is the first
/// station event that says the same.
pub proof fn lemma_stop_number_names_event(events: Seq<StopView>, event: StationEventView)
    requires
        events.len() <= u32::MAX,
        stop_number_of(events, event).is_some(),
    ensures
        stop_number_of(events, event).unwrap() < all_halts(events).len(),
        all_halts(events)[stop_number_of(events, event).unwrap() as int].0 == event,
{
    lemma_first_same(events, event, 0);
    let k = first_same(events, event, 0).unwrap();
    lemma_halts_prefix(events, k, k + 1);
    lemma_halts_prefix(events, k + 1, events.len() as int);
    assert(halts(events, k + 1) == halts(events, k).push(events[k]));
    assert(halts(events, k + 1)[halts(events, k).len() as int] == events[k]);
}

/// What `nth_halt` finds is a station event of the list that is no
/// passage.
pub proof fn lemma_nth_halt(events: Seq<StopView>, from: int, k: int)
    requires
        0 <= from,
    ensures
        nth_halt(events, from, k) matches Some(b) ==> from <= b < events.len() && is_halt(
            events[b],
        ),
    decreases events.len() - from,
{
    if k >= 1 && from < events.len() {
        if is_halt(events[from]) {
            if k > 1 {
                lemma_nth_halt(events, from + 1, k - 1);
            }
        } else {
            lemma_nth_halt(events, from + 1, k);
        }
    }
}

/// A service under one number has one leg, and that leg is the service
/// field for field: its number, validity, transport mode, attributes and
/// station events.
pub proof fn lemma_split_one_number(service: ServiceView)
    requires
        service.service_number.len() == 1,
    ensures
        service.split_legs() matches Ok(legs) && legs.len() == 1 && legs[0].service_number
            == service.service_number[0] && legs[0].validity == service.validity
            && legs[0].transport_mode == service.transport_mode && legs[0].attributes
            == service.attributes && legs[0].station_events == service.station_events,
{
}

/// A service under two numbers that can be split has two legs, cut at the
/// stop that the first number names as its last. The first ends with an
/// arrival and the second starts with a departure, both at the station of
/// that stop, with the times and platforms of the station event there. Without those two, the station events of the legs are those
/// of the service without the one at the boundary, in their order.
pub proof fn lemma_split_two_numbers(service: ServiceView)
    requires
        service.service_number.len() == 2,
        service.split_legs().is_ok(),
    ensures
        service.boundary() matches Some(b) && 0 <= b < service.station_events.len() && ({
            let legs = service.split_legs().unwrap();
            let at = service.station_events[b];
            let arrival = legs[0].station_events.last();
            let departure = legs[1].station_events.first();
            &&& legs.len() == 2
            &&& is_halt(at)
            &&& nth_halt(service.station_events, 0, service.service_number[0].last_stop as int)
                == Some(b)
            &&& legs[0].station_events.len() == b + 1
            &&& legs[1].station_events.len() == service.station_events.len() - b
            &&& legs[0].service_number == service.service_number[0]
            &&& legs[1].service_number == service.service_number[1]
            &&& legs[0].station_events.drop_last() + seq![at] + legs[1].station_events.drop_first()
                == service.station_events
            &&& arrival.0.stop_type == StationEventType::Arrival
            &&& departure.0.stop_type == StationEventType::Departure
            &&& arrival.0.station == at.0.station
            &&& departure.0.station == at.0.station
            &&& arrival.0.arrival_time.is_some()
            &&& arrival.0.arrival_time == at.0.arrival_time
            &&& arrival.0.departure_time.is_none()
            &&& departure.0.departure_time.is_some()
            &&& departure.0.departure_time == at.0.departure_time
            &&& departure.0.arrival_time.is_none()
            &&& arrival.1 == at.1
            &&& departure.1 == at.1
        }),
{
    let events = service.station_events;
    lemma_nth_halt(events, 0, service.service_number[0].last_stop as int);
    let b = service.boundary().unwrap();
    let legs = service.split_legs().unwrap();
    let at = events[b];
    assert(legs[0].station_events.drop_last() =~= events.subrange(0, b));
    assert(legs[1].station_events.drop_first() =~= events.subrange(b + 1, events.len() as int));
    assert(events.subrange(0, b) + seq![at] + events.subrange(b + 1, events.len() as int)
        =~= events);
}

} // verus!
