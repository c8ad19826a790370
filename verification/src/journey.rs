//! The journeys of a leg: on which days it runs, and what is stored of each
//! of its station events.
//!
//! A leg is first resolved against the footnotes and the companies of the
//! feed into a [`LegPlan`], which holds as plain values all that its rows
//! will say. The statements that store the rows are built from the plan and
//! from the identifiers that the store hands back.

use crate::calendar::{Date, Time, LAST_DAY};
use crate::company::{company_index, Companies, Company};
use crate::footnote::{footnote_index, Footnote, FootnoteView, Footnotes};
use crate::identification::Identification;
use crate::service::attribute::{Attribute, AttributeView};
use crate::service::identification::ServiceIdentification;
use crate::service::number::{clone_optional, optional_view, ServiceNumber, ServiceNumberView};
use crate::service::station_event::StationEventType;
use crate::service::{
    all_halts, stop_number_of, stops_view, ServiceLeg, ServiceLegView, StopView,
};
use crate::text::{decimal_string, decimal_text};
use crate::views::seq_view;
use vstd::prelude::*;

verus! {

/// Why a leg cannot be stored.
#[derive(Debug, PartialEq, Eq, Clone, Copy, Structural)]
pub enum LegError {
    /// No footnote of the feed has the number that the leg's validity names.
    FootnoteNotFound,
    /// The footnote has flags for days that no calendar day stands for.
    FootnoteOutOfRange,
    /// No company of the feed has the number that the leg's service number
    /// names.
    CompanyNotFound,
    /// The leg has more station events than can be counted.
    TooManyStops,
    /// A station event holds a time that no clock shows.
    InvalidTime,
}

/// The train number of a leg: its service number where that is not 0, else
/// its variant, else none.
pub open spec fn train_number_of(number: ServiceNumberView) -> Option<Seq<char>> {
    if number.service_number != 0 {
        Some(decimal_text(number.service_number as nat))
    } else {
        number.variant
    }
}

/// The train number under which a leg is stored: its service number where
/// that is not 0, else its variant, else none.
pub fn get_service_number(number: &ServiceNumber) -> (r: Option<String>)
    ensures
        optional_view(r) == train_number_of(number@),
{
    if number.service_number != 0 {
        Some(decimal_string(number.service_number))
    } else {
        clone_optional(&number.variant)
    }
}

/// Which attributes of a leg are asked for.
#[derive(Debug, PartialEq, Eq, Clone, Copy, Structural)]
pub enum AttributeRule {
    /// Those of the whole journey: from stop 1 to the last of `stops` stops.
    JourneyLevel { stops: u32 },
    /// Those of one stop: not of the whole journey of `stops` stops, and
    /// with `number` between their first and their last stop.
    AtStop { stops: u32, number: u32 },
}

impl AttributeRule {
    /// Whether the rule asks for an attribute from `first_stop` to
    /// `last_stop`.
    pub open spec fn takes(self, first_stop: u32, last_stop: u32) -> bool {
        match self {
            AttributeRule::JourneyLevel { stops } => first_stop == 1 && last_stop == stops,
            AttributeRule::AtStop { stops, number } => !(first_stop == 1 && last_stop == stops)
                && first_stop <= number <= last_stop,
        }
    }

    /// Whether the rule asks for `attribute`.
    pub fn test(&self, attribute: &Attribute) -> (r: bool)
        ensures
            r == self.takes(attribute.first_stop, attribute.last_stop),
    {
        match self {
            AttributeRule::JourneyLevel { stops } => attribute.first_stop == 1
                && attribute.last_stop == *stops,
            AttributeRule::AtStop { stops, number } => !(attribute.first_stop == 1
                && attribute.last_stop == *stops) && attribute.first_stop <= *number && *number
                <= attribute.last_stop,
        }
    }
}

/// The codes of those of the first `n` attributes that `rule` asks for, in
/// their order.
pub open spec fn selected_codes(attributes: Seq<AttributeView>, rule: AttributeRule, n: int) -> Seq<
    Seq<char>,
>
    decreases n,
{
    if n <= 0 || n > attributes.len() {
        Seq::empty()
    } else if rule.takes(attributes[n - 1].first_stop, attributes[n - 1].last_stop) {
        selected_codes(attributes, rule, n - 1).push(attributes[n - 1].code)
    } else {
        selected_codes(attributes, rule, n - 1)
    }
}

/// A list of codes as it is stored: no value where the list is empty.
pub open spec fn stored_codes(codes: Seq<Seq<char>>) -> Option<Seq<Seq<char>>> {
    if codes.len() == 0 {
        None
    } else {
        Some(codes)
    }
}

/// The codes of the attributes that `rule` asks for, as they are stored.
pub open spec fn attribute_codes(attributes: Seq<AttributeView>, rule: AttributeRule) -> Option<
    Seq<Seq<char>>,
> {
    stored_codes(selected_codes(attributes, rule, attributes.len() as int))
}

/// The texts that an optional list of strings holds.
pub open spec fn texts_view(texts: Option<Vec<String>>) -> Option<Seq<Seq<char>>> {
    match texts {
        Some(v) => Some(seq_view(v@)),
        None => None,
    }
}

/// The codes of the attributes that `rule` asks for, as they are stored: no
/// value where there is none.
pub fn select_codes(attributes: &Vec<Attribute>, rule: AttributeRule) -> (r: Option<Vec<String>>)
    ensures
        texts_view(r) == attribute_codes(seq_view(attributes@), rule),
{
    let mut codes: Vec<String> = Vec::new();
    let mut k: usize = 0;
    let ghost views = seq_view(attributes@);
    assert(seq_view(codes@) =~= selected_codes(views, rule, 0));
    while k < attributes.len()
        invariant
            k <= attributes.len(),
            views == seq_view(attributes@),
            views.len() == attributes@.len(),
            seq_view(codes@) == selected_codes(views, rule, k as int),
        decreases attributes.len() - k,
    {
        if rule.test(&attributes[k]) {
            let code = attributes[k].code.clone();
            let ghost before = codes@;
            codes.push(code);
            assert(seq_view(codes@) =~= seq_view(before).push(code@));
        }
        k += 1;
    }
    if codes.len() == 0 {
        None
    } else {
        Some(codes)
    }
}

/// The days among the first `n` of a footnote on which the service runs,
/// counted from `first`, in their order.
pub open spec fn running_days(footnote: FootnoteView, first: Date, n: int) -> Seq<Date>
    decreases n,
{
    if n <= 0 || n > footnote.vector.len() {
        Seq::empty()
    } else if footnote.vector[n - 1] {
        running_days(footnote, first, n - 1).push(Date { days: (first.days + n - 1) as i32 })
    } else {
        running_days(footnote, first, n - 1)
    }
}

/// All days of a footnote on which the service runs, counted from `first`.
pub open spec fn all_running_days(footnote: FootnoteView, first: Date) -> Seq<Date> {
    running_days(footnote, first, footnote.vector.len() as int)
}

/// The days on which the service runs: those that the walk over the
/// footnote yields, without the days on which it does not run.
pub fn collect_running_days(footnote: &Footnote, delivery: &Identification) -> (r: Vec<Date>)
    requires
        footnote.in_range(delivery.first_valid),
    ensures
        r@ == all_running_days(footnote@, delivery.first_valid),
        forall|k: int| 0 <= k < r@.len() ==> (#[trigger] r@[k]).wf(),
{
    let mut out: Vec<Date> = Vec::new();
    let mut it = footnote.iterate_valid_dates(delivery);
    loop
        invariant
            it.wf(),
            it.footnote == footnote,
            it.delivery == delivery,
            footnote.in_range(delivery.first_valid),
            out@ == running_days(footnote@, delivery.first_valid, it.index as int),
            forall|k: int| 0 <= k < out@.len() ==> (#[trigger] out@[k]).wf(),
        decreases footnote.vector@.len() - it.index,
    {
        match it.next() {
            Some(Some(date)) => {
                out.push(date);
            },
            Some(None) => {},
            None => {
                return out;
            },
        }
    }
}

/// What is stored of one station event of a leg, but for the journey it
/// belongs to and its place in the leg.
#[derive(Debug, PartialEq)]
pub struct EventPlan {
    pub station: String,
    pub event_type: StationEventType,
    pub arrival_time: Option<Time>,
    pub arrival_platform: Option<String>,
    pub departure_time: Option<Time>,
    pub departure_platform: Option<String>,
    pub attributes: Option<Vec<String>>,
}

/// An [`EventPlan`] as plain values.
pub struct EventPlanView {
    pub station: Seq<char>,
    pub event_type: StationEventType,
    pub arrival_time: Option<Time>,
    pub arrival_platform: Option<Seq<char>>,
    pub departure_time: Option<Time>,
    pub departure_platform: Option<Seq<char>>,
    pub attributes: Option<Seq<Seq<char>>>,
}

impl View for EventPlan {
    type V = EventPlanView;

    open spec fn view(&self) -> EventPlanView {
        EventPlanView {
            station: self.station@,
            event_type: self.event_type,
            arrival_time: self.arrival_time,
            arrival_platform: optional_view(self.arrival_platform),
            departure_time: self.departure_time,
            departure_platform: optional_view(self.departure_platform),
            attributes: texts_view(self.attributes),
        }
    }
}

impl EventPlanView {
    /// The times are times that the clock shows.
    pub open spec fn wf(self) -> bool {
        &&& self.arrival_time matches Some(t) ==> t.wf()
        &&& self.departure_time matches Some(t) ==> t.wf()
    }
}

/// All that the rows of a leg will say.
#[derive(Debug, PartialEq)]
pub struct LegPlan {
    /// The number of the service in the timetable file.
    pub service_identification: u32,
    /// The train number under which the service is stored.
    pub train_number: String,
    /// The code of the transport mode.
    pub mode: String,
    /// The code of the company.
    pub provider: String,
    /// The days on which the leg runs: one journey each.
    pub dates: Vec<Date>,
    /// The codes of the attributes of the whole journey.
    pub journey_attributes: Option<Vec<String>>,
    /// The station events, in the order of the way.
    pub events: Vec<EventPlan>,
}

/// A [`LegPlan`] as plain values.
pub struct LegPlanView {
    pub service_identification: u32,
    pub train_number: Seq<char>,
    pub mode: Seq<char>,
    pub provider: Seq<char>,
    pub dates: Seq<Date>,
    pub journey_attributes: Option<Seq<Seq<char>>>,
    pub events: Seq<EventPlanView>,
}

impl View for LegPlan {
    type V = LegPlanView;

    open spec fn view(&self) -> LegPlanView {
        LegPlanView {
            service_identification: self.service_identification,
            train_number: self.train_number@,
            mode: self.mode@,
            provider: self.provider@,
            dates: self.dates@,
            journey_attributes: texts_view(self.journey_attributes),
            events: seq_view(self.events@),
        }
    }
}

impl LegPlanView {
    /// The days are days that `chrono` can hold and the times are times
    /// that the clock shows.
    pub open spec fn wf(self) -> bool {
        &&& forall|k: int| 0 <= k < self.dates.len() ==> (#[trigger] self.dates[k]).wf()
        &&& forall|k: int| 0 <= k < self.events.len() ==> (#[trigger] self.events[k]).wf()
    }
}

impl LegPlan {
    /// The days are days that `chrono` can hold and the times are times
    /// that the clock shows.
    pub open spec fn wf(&self) -> bool {
        self@.wf()
    }

    /// Whether the days are days that `chrono` can hold and the times are
    /// times that the clock shows.
    pub fn is_valid(&self) -> (r: bool)
        ensures
            r == self.wf(),
    {
        let mut k: usize = 0;
        while k < self.dates.len()
            invariant
                k <= self.dates.len(),
                forall|j: int| 0 <= j < k ==> (#[trigger] self.dates@[j]).wf(),
            decreases self.dates.len() - k,
        {
            if !self.dates[k].is_valid() {
                assert(!self@.dates[k as int].wf());
                return false;
            }
            k += 1;
        }
        assert(self@.events.len() == self.events@.len());
        let mut k: usize = 0;
        while k < self.events.len()
            invariant
                k <= self.events.len(),
                self@.events.len() == self.events@.len(),
                forall|j: int| 0 <= j < self.dates@.len() ==> (#[trigger] self.dates@[j]).wf(),
                forall|j: int| 0 <= j < k ==> (#[trigger] self@.events[j]).wf(),
            decreases self.events.len() - k,
        {
            let event = &self.events[k];
            assert(self@.events[k as int] == event@);
            if !time_is_valid(&event.arrival_time) || !time_is_valid(&event.departure_time) {
                assert(!self@.events[k as int].wf());
                return false;
            }
            k += 1;
        }
        true
    }
}

/// What is stored of the station event `stop` of a leg with `stops` stops.
/// Its attributes are those of the leg that are not of the whole journey
/// and whose stops, from the first to the last, hold the event's stop
/// number; a passage has none.
pub open spec fn event_plan(leg: ServiceLegView, stops: u32, stop: StopView) -> EventPlanView {
    EventPlanView {
        station: stop.0.station,
        event_type: stop.0.stop_type,
        arrival_time: stop.0.arrival_time,
        arrival_platform: match stop.1 {
            Some(p) => Some(p.arrival_platform),
            None => None,
        },
        departure_time: stop.0.departure_time,
        departure_platform: match stop.1 {
            Some(p) => Some(p.departure_platform),
            None => None,
        },
        attributes: match stop_number_of(leg.station_events, stop.0) {
            Some(number) => attribute_codes(leg.attributes, AttributeRule::AtStop { stops, number }),
            None => None,
        },
    }
}

/// The footnote that says on which days a leg runs: the one that means
/// every day where the leg names footnote 0, whatever footnotes the feed
/// holds; else the first of the feed with the number that the leg names.
pub open spec fn footnote_of(
    leg: ServiceLegView,
    delivery: Identification,
    footnotes: Seq<Footnote>,
) -> Option<FootnoteView> {
    if leg.validity.footnote == 0 {
        Some(FootnoteView::always_valid(delivery@))
    } else {
        match footnote_index(footnotes, leg.validity.footnote, 0) {
            Some(k) => Some(footnotes[k]@),
            None => None,
        }
    }
}

/// The plan of a leg, or why it has none. `Ok(None)` says that the leg has
/// no train number and is skipped. The footnote is looked up first; then
/// the train number, then the company; the days and the station events are
/// looked at last.
pub open spec fn plan_of(
    id: ServiceIdentification,
    leg: ServiceLegView,
    delivery: Identification,
    footnotes: Seq<Footnote>,
    companies: Seq<Company>,
) -> Result<Option<LegPlanView>, LegError> {
    let stops = all_halts(leg.station_events).len() as u32;
    let events = Seq::new(
        leg.station_events.len(),
        |k: int| event_plan(leg, stops, leg.station_events[k]),
    );
    match footnote_of(leg, delivery, footnotes) {
        None => Err(LegError::FootnoteNotFound),
        Some(footnote) => match train_number_of(leg.service_number) {
            None => Ok(None),
            Some(train_number) => match company_index(
                companies,
                leg.service_number.company_number,
                0,
            ) {
                None => Err(LegError::CompanyNotFound),
                Some(c) => if delivery.first_valid.days + footnote.vector.len() > LAST_DAY + 1 {
                    Err(LegError::FootnoteOutOfRange)
                } else if leg.station_events.len() > u32::MAX {
                    Err(LegError::TooManyStops)
                } else if !(forall|k: int| 0 <= k < events.len() ==> (#[trigger] events[k]).wf()) {
                    Err(LegError::InvalidTime)
                } else {
                    Ok(
                        Some(
                            LegPlanView {
                                service_identification: id.0,
                                train_number,
                                mode: leg.transport_mode.code,
                                provider: companies[c].code@,
                                dates: all_running_days(footnote, delivery.first_valid),
                                journey_attributes: attribute_codes(
                                    leg.attributes,
                                    AttributeRule::JourneyLevel { stops },
                                ),
                                events,
                            },
                        ),
                    )
                },
            },
        },
    }
}

/// Whether an optional time is one that the clock shows.
fn time_is_valid(time: &Option<Time>) -> (r: bool)
    ensures
        r == (*time matches Some(t) ==> t.wf()),
{
    match time {
        Some(t) => t.is_valid(),
        None => true,
    }
}

/// What is stored of the `k`-th station event of a leg with `stops` stops.
/// `None` where the event holds a time that no clock shows.
fn plan_event(leg: &ServiceLeg, stops: u32, k: usize) -> (r: Option<EventPlan>)
    requires
        k < leg.station_events.len() <= u32::MAX,
    ensures
        match r {
            Some(e) => e@ == event_plan(leg@, stops, leg@.station_events[k as int]) && e@.wf(),
            None => !event_plan(leg@, stops, leg@.station_events[k as int]).wf(),
        },
{
    assert(leg@.station_events.len() == leg.station_events@.len());
    let stop = &leg.station_events[k];
    if !time_is_valid(&stop.0.arrival_time) || !time_is_valid(&stop.0.departure_time) {
        return None;
    }
    let attributes = match leg.stop_number(&stop.0) {
        Some(number) => select_codes(&leg.attributes, AttributeRule::AtStop { stops, number }),
        None => None,
    };
    let (arrival_platform, departure_platform) = match &stop.1 {
        Some(p) => (Some(p.arrival_platform.clone()), Some(p.departure_platform.clone())),
        None => (None, None),
    };
    Some(
        EventPlan {
            station: stop.0.station.clone(),
            event_type: stop.0.stop_type,
            arrival_time: stop.0.arrival_time,
            arrival_platform,
            departure_time: stop.0.departure_time,
            departure_platform,
            attributes,
        },
    )
}

/// Resolves a leg into its plan: finds its footnote and its company, and
/// lays out its days and what is stored of its station events. `Ok(None)`
/// says that the leg has no train number, so that nothing is stored of it.
pub fn plan_leg(
    id: ServiceIdentification,
    leg: &ServiceLeg,
    delivery: &Identification,
    footnotes: &Footnotes,
    companies: &Companies,
) -> (r: Result<Option<LegPlan>, LegError>)
    requires
        delivery.wf(),
    ensures
        match plan_of(id, leg@, *delivery, footnotes.data@, companies.data@) {
            Ok(Some(plan)) => r matches Ok(Some(p)) && p@ == plan && p@.wf(),
            Ok(None) => r matches Ok(None),
            Err(e) => r == Err::<Option<LegPlan>, LegError>(e),
        },
{
    let footnote = if leg.validity.footnote == 0 {
        Footnote::always_valid(delivery)
    } else {
        match footnotes.get_by_id(leg.validity.footnote) {
            Some(f) => f.clone(),
            None => {
                return Err(LegError::FootnoteNotFound);
            },
        }
    };
    assert(Some(footnote@) == footnote_of(leg@, *delivery, footnotes.data@));
    let train_number = match get_service_number(&leg.service_number) {
        Some(t) => t,
        None => {
            return Ok(None);
        },
    };
    let provider = match companies.get_by_id(leg.service_number.company_number) {
        Some(c) => c.code.clone(),
        None => {
            return Err(LegError::CompanyNotFound);
        },
    };
    if !footnote.is_in_range(&delivery.first_valid) {
        return Err(LegError::FootnoteOutOfRange);
    }
    assert(leg@.station_events.len() == leg.station_events@.len());
    if leg.station_events.len() > u32::MAX as usize {
        return Err(LegError::TooManyStops);
    }
    let stops = leg.num_stops();
    let ghost wanted = Seq::new(
        leg@.station_events.len(),
        |k: int| event_plan(leg@, stops, leg@.station_events[k]),
    );
    let ghost verdict = plan_of(id, leg@, *delivery, footnotes.data@, companies.data@);
    let mut events: Vec<EventPlan> = Vec::new();
    let mut k: usize = 0;
    while k < leg.station_events.len()
        invariant
            k <= leg.station_events.len() <= u32::MAX,
            verdict == plan_of(id, leg@, *delivery, footnotes.data@, companies.data@),
            (exists|j: int| 0 <= j < wanted.len() && !(#[trigger] wanted[j]).wf()) ==> verdict
                == Err::<Option<LegPlanView>, LegError>(LegError::InvalidTime),
            leg@.station_events.len() == leg.station_events@.len(),
            wanted == Seq::new(
                leg@.station_events.len(),
                |k: int| event_plan(leg@, stops, leg@.station_events[k]),
            ),
            events@.len() == k,
            forall|j: int| 0 <= j < k ==> (#[trigger] events@[j])@ == wanted[j],
            forall|j: int| 0 <= j < k ==> (#[trigger] wanted[j]).wf(),
        decreases leg.station_events.len() - k,
    {
        match plan_event(leg, stops, k) {
            Some(event) => {
                events.push(event);
            },
            None => {
                assert(!wanted[k as int].wf());
                return Err(LegError::InvalidTime);
            },
        }
        k += 1;
    }
    assert(seq_view(events@) =~= wanted);
    let dates = collect_running_days(&footnote, delivery);
    let journey_attributes = select_codes(&leg.attributes, AttributeRule::JourneyLevel { stops });
    Ok(
        Some(
            LegPlan {
                service_identification: id.0,
                train_number,
                mode: leg.transport_mode.code.clone(),
                provider,
                dates,
                journey_attributes,
                events,
            },
        ),
    )
}

/// Whether one of the first `n` attributes that `rule` asks for, other
/// than the one at `but`, has the code `code`.
pub open spec fn has_source(
    attributes: Seq<AttributeView>,
    rule: AttributeRule,
    n: int,
    but: int,
    code: Seq<char>,
) -> bool {
    exists|k: int|
        0 <= k < n && k != but && rule.takes(
            (#[trigger] attributes[k]).first_stop,
            attributes[k].last_stop,
        ) && attributes[k].code == code
}

/// The selected codes are the codes of the attributes that the rule asks
/// for: each of those attributes gives its code, and each code is that of
/// one of them.
pub proof fn lemma_selected_codes(attributes: Seq<AttributeView>, rule: AttributeRule, n: int)
    requires
        0 <= n <= attributes.len(),
    ensures
        forall|k: int|
            0 <= k < n && rule.takes(
                (#[trigger] attributes[k]).first_stop,
                attributes[k].last_stop,
            ) ==> selected_codes(attributes, rule, n).contains(attributes[k].code),
        forall|i: int|
            0 <= i < selected_codes(attributes, rule, n).len() ==> has_source(
                attributes,
                rule,
                n,
                -1,
                #[trigger] selected_codes(attributes, rule, n)[i],
            ),
    decreases n,
{
    if n > 0 {
        lemma_selected_codes(attributes, rule, n - 1);
        let before = selected_codes(attributes, rule, n - 1);
        let now = selected_codes(attributes, rule, n);
        let last = attributes[n - 1];
        assert forall|i: int| 0 <= i < before.len() implies has_source(
            attributes,
            rule,
            n,
            -1,
            #[trigger] before[i],
        ) by {
            assert(has_source(attributes, rule, n - 1, -1, before[i]));
            let k = choose|k: int|
                0 <= k < n - 1 && k != -1 && rule.takes(
                    (#[trigger] attributes[k]).first_stop,
                    attributes[k].last_stop,
                ) && attributes[k].code == before[i];
            assert(0 <= k < n);
        }
        if rule.takes(last.first_stop, last.last_stop) {
            assert(now == before.push(last.code));
            assert(now[before.len() as int] == last.code);
            assert forall|k: int|
                0 <= k < n && rule.takes(
                    (#[trigger] attributes[k]).first_stop,
                    attributes[k].last_stop,
                ) implies now.contains(attributes[k].code) by {
                if k < n - 1 {
                    let i = choose|i: int| 0 <= i < before.len() && before[i] == attributes[k].code;
                    assert(now[i] == attributes[k].code);
                }
            }
            assert forall|i: int| 0 <= i < now.len() implies has_source(
                attributes,
                rule,
                n,
                -1,
                #[trigger] now[i],
            ) by {
                if i < before.len() {
                    assert(now[i] == before[i]);
                } else {
                    assert(attributes[n - 1].code == now[i]);
                }
            }
        } else {
            assert(now == before);
        }
    }
}

/// An attribute that holds from stop 1 to the last stop of a leg is one of
/// the whole journey: its code is stored with each journey of the leg, and
/// the attribute is among those of no station event, whose codes all come
/// from other attributes.
pub proof fn lemma_attribute_partition(leg: ServiceLegView, stops: u32, a: int)
    requires
        0 <= a < leg.attributes.len(),
        leg.attributes[a].first_stop == 1,
        leg.attributes[a].last_stop == stops,
    ensures
        attribute_codes(leg.attributes, AttributeRule::JourneyLevel { stops }) matches Some(codes)
            && codes.contains(leg.attributes[a].code),
        forall|number: u32|
            !(#[trigger] AttributeRule::AtStop { stops, number }.takes(
                leg.attributes[a].first_stop,
                leg.attributes[a].last_stop,
            )),
        forall|number: u32, i: int|
            0 <= i < selected_codes(
                leg.attributes,
                AttributeRule::AtStop { stops, number },
                leg.attributes.len() as int,
            ).len() ==> has_source(
                leg.attributes,
                AttributeRule::AtStop { stops, number },
                leg.attributes.len() as int,
                a,
                #[trigger] selected_codes(
                    leg.attributes,
                    AttributeRule::AtStop { stops, number },
                    leg.attributes.len() as int,
                )[i],
            ),
{
    let n = leg.attributes.len() as int;
    lemma_selected_codes(leg.attributes, AttributeRule::JourneyLevel { stops }, n);
    assert(AttributeRule::JourneyLevel { stops }.takes(
        leg.attributes[a].first_stop,
        leg.attributes[a].last_stop,
    ));
    assert forall|number: u32, i: int|
        0 <= i < selected_codes(
            leg.attributes,
            AttributeRule::AtStop { stops, number },
            n,
        ).len() implies has_source(
        leg.attributes,
        AttributeRule::AtStop { stops, number },
        n,
        a,
        #[trigger] selected_codes(leg.attributes, AttributeRule::AtStop { stops, number }, n)[i],
    ) by {
        let rule = AttributeRule::AtStop { stops, number };
        lemma_selected_codes(leg.attributes, rule, n);
        let code = selected_codes(leg.attributes, rule, n)[i];
        assert(has_source(leg.attributes, rule, n, -1, code));
        let k = choose|k: int|
            0 <= k < n && k != -1 && rule.takes(
                (#[trigger] leg.attributes[k]).first_stop,
                leg.attributes[k].last_stop,
            ) && leg.attributes[k].code == code;
        assert(k != a);
    }
}

/// A leg that names footnote 0 runs on every day of the validity,
/// whatever footnotes the feed holds: also one with the number 0.
pub proof fn lemma_footnote_zero_ignores_feed(
    leg: ServiceLegView,
    delivery: Identification,
    footnotes: Seq<Footnote>,
)
    requires
        delivery.wf(),
        leg.validity.footnote == 0,
    ensures
        footnote_of(leg, delivery, footnotes) == Some(FootnoteView::always_valid(delivery@)),
        all_running_days(FootnoteView::always_valid(delivery@), delivery.first_valid).len()
            == delivery@.days_valid(),
        forall|k: int|
            0 <= k < delivery@.days_valid() ==> #[trigger] all_running_days(
                FootnoteView::always_valid(delivery@),
                delivery.first_valid,
            )[k] == (Date { days: (delivery.first_valid.days + k) as i32 }),
{
    let always = FootnoteView::always_valid(delivery@);
    lemma_running_days_of_all(always, delivery.first_valid, always.vector.len() as int);
}

/// Where the first `n` flags of a footnote are set, its first `n` days are
/// all days on which the service runs.
proof fn lemma_running_days_of_all(footnote: FootnoteView, first: Date, n: int)
    requires
        0 <= n <= footnote.vector.len(),
        forall|k: int| 0 <= k < n ==> footnote.vector[k],
    ensures
        running_days(footnote, first, n).len() == n,
        forall|k: int|
            0 <= k < n ==> #[trigger] running_days(footnote, first, n)[k] == (Date {
                days: (first.days + k) as i32,
            }),
    decreases n,
{
    if n > 0 {
        lemma_running_days_of_all(footnote, first, n - 1);
    }
}

} // verus!
