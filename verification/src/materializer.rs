//! The statements that store a leg, and the order in which they go to the
//! store.
//!
//! A leg is stored in one transaction: the service is upserted and hands
//! back its identifier; each journey is upserted under it and hands back
//! its own; the station events of all journeys go in one statement; then
//! the transaction is committed. [`Materializer`] says what is to be done
//! next and takes what the store replied. It does no work on the store
//! itself.

use crate::calendar::Date;
use crate::db;
use crate::journey::{texts_view, EventPlan, EventPlanView, LegPlan, LegPlanView};
use crate::service::number::optional_view;
use crate::statement::{
    add_row, returning, statement_model, upsert_into, ConflictModel, SqlValue, SqlValueView,
    StatementModel,
};
use crate::text::{decimal_string, decimal_text};
use crate::views::seq_view;
use vstd::prelude::*;
use vstd::string::StringExecFns;

verus! {

/// The expression that the source ids of a journey take on a conflict: the
/// ids of the row in the table and those of the new row, each once.
pub open spec fn merged_source_ids() -> Seq<char> {
    "ARRAY(SELECT DISTINCT unnest(array_cat(\"journey\".\"source_ids\", \"excluded\".\"source_ids\")))"@
}

/// A copy of an optional list of texts.
pub fn clone_texts(texts: &Option<Vec<String>>) -> (r: Option<Vec<String>>)
    ensures
        texts_view(r) == texts_view(*texts),
{
    match texts {
        Some(v) => {
            let mut out: Vec<String> = Vec::new();
            let mut k: usize = 0;
            while k < v.len()
                invariant
                    k <= v.len(),
                    out@.len() == k,
                    forall|j: int| 0 <= j < k ==> (#[trigger] out@[j])@ == v@[j]@,
                decreases v.len() - k,
            {
                out.push(v[k].clone());
                k += 1;
            }
            assert(seq_view(out@) =~= seq_view(v@));
            Some(out)
        },
        None => None,
    }
}

impl LegPlanView {
    /// The row of the service: its train number, the code of its transport
    /// mode and the code of its company.
    pub open spec fn service_row(self) -> Seq<SqlValueView> {
        seq![
            SqlValueView::Text(Some(self.train_number)),
            SqlValueView::Text(Some(self.mode)),
            SqlValueView::Text(Some(self.provider)),
        ]
    }

    /// The statement that stores the service. A service is one train number
    /// in one timetable year: where it is in the table, the statement sets
    /// its train number to what it is, so that the row's identifier is
    /// handed back in either case.
    pub open spec fn service_statement(self) -> StatementModel {
        StatementModel {
            table: Some(db::Service::Table.name()),
            columns: seq![
                db::Service::TrainNumber.name(),
                db::Service::Type.name(),
                db::Service::Provider.name(),
            ],
            rows: seq![self.service_row()],
            conflict: Some(
                ConflictModel {
                    keys: seq![db::Service::TrainNumber.name(), db::Service::TimetableYear.name()],
                    update_columns: seq![db::Service::TrainNumber.name()],
                    merged: Seq::empty(),
                },
            ),
            returning: Some(seq![db::Service::Id.name()]),
        }
    }

    /// The row of the journey of the service `service_id` on `date`: the
    /// service, the day, the codes of the attributes of the whole journey,
    /// and the number of the service in the timetable file as the one
    /// source id.
    pub open spec fn journey_row(self, service_id: u128, date: Date) -> Seq<SqlValueView> {
        seq![
            SqlValueView::Id(service_id),
            SqlValueView::Date(date),
            SqlValueView::Texts(self.journey_attributes),
            SqlValueView::Texts(Some(seq![decimal_text(self.service_identification as nat)])),
        ]
    }

    /// The statement that stores one journey. A journey is one service on
    /// one day: where it is in the table, it takes the new attributes, and
    /// its source ids become those it had and the new ones, each once. The
    /// row's identifier is handed back.
    pub open spec fn journey_statement(self, service_id: u128, date: Date) -> StatementModel {
        StatementModel {
            table: Some(db::Journey::Table.name()),
            columns: seq![
                db::Journey::ServiceId.name(),
                db::Journey::RunningOn.name(),
                db::Journey::Attributes.name(),
                db::Journey::SourceIds.name(),
            ],
            rows: seq![self.journey_row(service_id, date)],
            conflict: Some(
                ConflictModel {
                    keys: seq![db::Journey::ServiceId.name(), db::Journey::RunningOn.name()],
                    update_columns: seq![db::Journey::Attributes.name()],
                    merged: seq![(db::Journey::SourceIds.name(), merged_source_ids())],
                },
            ),
            returning: Some(seq![db::Journey::Id.name()]),
        }
    }
}

/// The row of a station event of the journey `journey_id`, at the place
/// `stop_order` on the way, counted from 0 with the passages.
pub open spec fn event_row(event: EventPlanView, journey_id: u128, stop_order: int) -> Seq<
    SqlValueView,
> {
    seq![
        SqlValueView::Id(journey_id),
        SqlValueView::Text(Some(event.station)),
        SqlValueView::Text(Some(event.event_type.name())),
        SqlValueView::BigUnsigned(stop_order as u64),
        SqlValueView::Time(event.arrival_time),
        SqlValueView::Text(event.arrival_platform),
        SqlValueView::Time(event.departure_time),
        SqlValueView::Text(event.departure_platform),
        SqlValueView::Texts(event.attributes),
    ]
}

impl LegPlanView {
    /// The rows of the first `n` station events of the journey
    /// `journey_id`.
    pub open spec fn journey_event_rows(self, journey_id: u128, n: int) -> Seq<Seq<SqlValueView>> {
        Seq::new(n as nat, |k: int| event_row(self.events[k], journey_id, k))
    }

    /// The rows of the station events of the first `n` journeys: journey by
    /// journey, and within a journey in the order of the way.
    pub open spec fn event_rows(self, journey_ids: Seq<u128>, n: int) -> Seq<Seq<SqlValueView>>
        decreases n,
    {
        if n <= 0 || n > journey_ids.len() {
            Seq::empty()
        } else {
            self.event_rows(journey_ids, n - 1) + self.journey_event_rows(
                journey_ids[n - 1],
                self.events.len() as int,
            )
        }
    }

    /// The statement that stores the station events of the journeys
    /// `journey_ids`. A journey event is one place on the way of one
    /// journey: where it is in the table, it takes all the new values.
    pub open spec fn events_statement(self, journey_ids: Seq<u128>) -> StatementModel {
        StatementModel {
            table: Some(db::JourneyEvent::Table.name()),
            columns: seq![
                db::JourneyEvent::JourneyId.name(),
                db::JourneyEvent::Station.name(),
                db::JourneyEvent::EventTypePlanned.name(),
                db::JourneyEvent::StopOrder.name(),
                db::JourneyEvent::ArrivalTimePlanned.name(),
                db::JourneyEvent::ArrivalPlatformPlanned.name(),
                db::JourneyEvent::DepartureTimePlanned.name(),
                db::JourneyEvent::DeparturePlatformPlanned.name(),
                db::JourneyEvent::Attributes.name(),
            ],
            rows: self.event_rows(journey_ids, journey_ids.len() as int),
            conflict: Some(
                ConflictModel {
                    keys: seq![
                        db::JourneyEvent::JourneyId.name(),
                        db::JourneyEvent::StopOrder.name(),
                    ],
                    update_columns: seq![
                        db::JourneyEvent::Station.name(),
                        db::JourneyEvent::EventTypePlanned.name(),
                        db::JourneyEvent::ArrivalTimePlanned.name(),
                        db::JourneyEvent::ArrivalPlatformPlanned.name(),
                        db::JourneyEvent::DepartureTimePlanned.name(),
                        db::JourneyEvent::DeparturePlatformPlanned.name(),
                        db::JourneyEvent::Attributes.name(),
                    ],
                    merged: Seq::empty(),
                },
            ),
            returning: None,
        }
    }
}

/// The row of a station event of the journey `journey_id` at the place
/// `stop_order`.
fn make_event_row(event: &EventPlan, journey_id: u128, stop_order: usize) -> (r: Vec<SqlValue>)
    requires
        event@.wf(),
    ensures
        seq_view(r@) == event_row(event@, journey_id, stop_order as int),
        r@.len() == 9,
        forall|k: int| 0 <= k < r@.len() ==> (#[trigger] r@[k]).wf(),
{
    let mut row: Vec<SqlValue> = Vec::new();
    row.push(SqlValue::Id(journey_id));
    row.push(SqlValue::Text(Some(event.station.clone())));
    row.push(SqlValue::Text(Some(event.event_type.to_string())));
    row.push(SqlValue::BigUnsigned(stop_order as u64));
    row.push(SqlValue::Time(event.arrival_time));
    row.push(SqlValue::Text(crate::service::number::clone_optional(&event.arrival_platform)));
    row.push(SqlValue::Time(event.departure_time));
    row.push(SqlValue::Text(crate::service::number::clone_optional(&event.departure_platform)));
    row.push(SqlValue::Texts(clone_texts(&event.attributes)));
    proof {
        assert(row@[5]@ == SqlValueView::Text(optional_view(event.arrival_platform)));
        assert(row@[7]@ == SqlValueView::Text(optional_view(event.departure_platform)));
        assert(row@[8]@ == SqlValueView::Texts(texts_view(event.attributes)));
        assert(seq_view(row@) =~= event_row(event@, journey_id, stop_order as int));
    }
    row
}

impl LegPlan {
    /// The statement that stores the service of the leg.
    pub fn service_statement(&self) -> (r: sea_query::InsertStatement)
        ensures
            statement_model(r) == self@.service_statement(),
    {
        let mut names: Vec<String> = Vec::new();
        names.push(db::Service::TrainNumber.to_string());
        names.push(db::Service::Type.to_string());
        names.push(db::Service::Provider.to_string());
        let mut keys: Vec<String> = Vec::new();
        keys.push(db::Service::TrainNumber.to_string());
        keys.push(db::Service::TimetableYear.to_string());
        let mut updates: Vec<String> = Vec::new();
        updates.push(db::Service::TrainNumber.to_string());
        let merged: Vec<(String, String)> = Vec::new();
        let mut handed_back: Vec<String> = Vec::new();
        handed_back.push(db::Service::Id.to_string());
        let table = db::Service::Table.to_string();
        let mut statement = upsert_into(table.as_str(), &names, &keys, &updates, &merged);
        returning(&mut statement, &handed_back);
        let mut row: Vec<SqlValue> = Vec::new();
        row.push(SqlValue::Text(Some(self.train_number.clone())));
        row.push(SqlValue::Text(Some(self.mode.clone())));
        row.push(SqlValue::Text(Some(self.provider.clone())));
        proof {
            assert(seq_view(names@) =~= self@.service_statement().columns);
            assert(seq_view(keys@) =~= self@.service_statement().conflict.unwrap().keys);
            assert(seq_view(updates@) =~= self@.service_statement().conflict.unwrap().update_columns);
            assert(Seq::new(merged@.len(), |k: int| (merged@[k].0@, merged@[k].1@))
                =~= Seq::<(Seq<char>, Seq<char>)>::empty());
            assert(seq_view(handed_back@) =~= seq![db::Service::Id.name()]);
            assert(seq_view(row@) =~= self@.service_row());
        }
        let ok = add_row(&mut statement, &row);
        proof {
            assert(ok);
            assert(statement_model(statement).rows =~= seq![self@.service_row()]);
        }
        statement
    }

    /// The statement that stores the journey of the service `service_id`
    /// on `date`.
    pub fn journey_statement(&self, service_id: u128, date: Date) -> (r:
        sea_query::InsertStatement)
        requires
            date.wf(),
        ensures
            statement_model(r) == self@.journey_statement(service_id, date),
    {
        let mut names: Vec<String> = Vec::new();
        names.push(db::Journey::ServiceId.to_string());
        names.push(db::Journey::RunningOn.to_string());
        names.push(db::Journey::Attributes.to_string());
        names.push(db::Journey::SourceIds.to_string());
        let mut keys: Vec<String> = Vec::new();
        keys.push(db::Journey::ServiceId.to_string());
        keys.push(db::Journey::RunningOn.to_string());
        let mut updates: Vec<String> = Vec::new();
        updates.push(db::Journey::Attributes.to_string());
        let mut merged: Vec<(String, String)> = Vec::new();
        merged.push(
            (
                db::Journey::SourceIds.to_string(),
                String::from_str(
                    "ARRAY(SELECT DISTINCT unnest(array_cat(\"journey\".\"source_ids\", \"excluded\".\"source_ids\")))",
                ),
            ),
        );
        let mut handed_back: Vec<String> = Vec::new();
        handed_back.push(db::Journey::Id.to_string());
        let table = db::Journey::Table.to_string();
        let mut statement = upsert_into(table.as_str(), &names, &keys, &updates, &merged);
        returning(&mut statement, &handed_back);
        let mut source_ids: Vec<String> = Vec::new();
        source_ids.push(decimal_string(self.service_identification));
        let mut row: Vec<SqlValue> = Vec::new();
        row.push(SqlValue::Id(service_id));
        row.push(SqlValue::Date(date));
        row.push(SqlValue::Texts(clone_texts(&self.journey_attributes)));
        row.push(SqlValue::Texts(Some(source_ids)));
        proof {
            assert(seq_view(names@) =~= self@.journey_statement(service_id, date).columns);
            assert(seq_view(keys@) =~= self@.journey_statement(
                service_id,
                date,
            ).conflict.unwrap().keys);
            assert(seq_view(updates@) =~= seq![db::Journey::Attributes.name()]);
            assert(Seq::new(merged@.len(), |k: int| (merged@[k].0@, merged@[k].1@)) =~= seq![
                (db::Journey::SourceIds.name(), merged_source_ids()),
            ]);
            assert(seq_view(handed_back@) =~= seq![db::Journey::Id.name()]);
            assert(seq_view(source_ids@) =~= seq![
                decimal_text(self.service_identification as nat),
            ]);
            assert(row@[2]@ == SqlValueView::Texts(texts_view(self.journey_attributes)));
            assert(row@[3]@ == SqlValueView::Texts(Some(seq_view(source_ids@))));
            assert(seq_view(row@) =~= self@.journey_row(service_id, date));
        }
        let ok = add_row(&mut statement, &row);
        proof {
            assert(ok);
            assert(statement_model(statement).rows =~= seq![self@.journey_row(service_id, date)]);
        }
        statement
    }

    /// The statement that stores the station events of the journeys
    /// `journey_ids`.
    pub fn events_statement(&self, journey_ids: &Vec<u128>) -> (r: sea_query::InsertStatement)
        requires
            self.wf(),
        ensures
            statement_model(r) == self@.events_statement(journey_ids@),
    {
        let mut names: Vec<String> = Vec::new();
        names.push(db::JourneyEvent::JourneyId.to_string());
        names.push(db::JourneyEvent::Station.to_string());
        names.push(db::JourneyEvent::EventTypePlanned.to_string());
        names.push(db::JourneyEvent::StopOrder.to_string());
        names.push(db::JourneyEvent::ArrivalTimePlanned.to_string());
        names.push(db::JourneyEvent::ArrivalPlatformPlanned.to_string());
        names.push(db::JourneyEvent::DepartureTimePlanned.to_string());
        names.push(db::JourneyEvent::DeparturePlatformPlanned.to_string());
        names.push(db::JourneyEvent::Attributes.to_string());
        let mut keys: Vec<String> = Vec::new();
        keys.push(db::JourneyEvent::JourneyId.to_string());
        keys.push(db::JourneyEvent::StopOrder.to_string());
        let mut updates: Vec<String> = Vec::new();
        updates.push(db::JourneyEvent::Station.to_string());
        updates.push(db::JourneyEvent::EventTypePlanned.to_string());
        updates.push(db::JourneyEvent::ArrivalTimePlanned.to_string());
        updates.push(db::JourneyEvent::ArrivalPlatformPlanned.to_string());
        updates.push(db::JourneyEvent::DepartureTimePlanned.to_string());
        updates.push(db::JourneyEvent::DeparturePlatformPlanned.to_string());
        updates.push(db::JourneyEvent::Attributes.to_string());
        let merged: Vec<(String, String)> = Vec::new();
        let table = db::JourneyEvent::Table.to_string();
        let mut statement = upsert_into(table.as_str(), &names, &keys, &updates, &merged);
        let ghost wanted = self@.events_statement(journey_ids@);
        proof {
            assert(seq_view(names@) =~= wanted.columns);
            assert(seq_view(keys@) =~= wanted.conflict.unwrap().keys);
            assert(seq_view(updates@) =~= wanted.conflict.unwrap().update_columns);
            assert(Seq::new(merged@.len(), |k: int| (merged@[k].0@, merged@[k].1@))
                =~= Seq::<(Seq<char>, Seq<char>)>::empty());
            assert(self@.events.len() == self.events@.len());
        }
        let mut j: usize = 0;
        while j < journey_ids.len()
            invariant
                j <= journey_ids.len(),
                self.wf(),
                self@.events.len() == self.events@.len(),
                wanted == self@.events_statement(journey_ids@),
                statement_model(statement) == (StatementModel {
                    rows: self@.event_rows(journey_ids@, j as int),
                    ..wanted
                }),
            decreases journey_ids.len() - j,
        {
            let journey_id = journey_ids[j];
            let mut k: usize = 0;
            proof {
                assert(self@.event_rows(journey_ids@, j as int) + self@.journey_event_rows(
                    journey_id,
                    0,
                ) =~= self@.event_rows(journey_ids@, j as int));
            }
            while k < self.events.len()
                invariant
                    k <= self.events.len(),
                    j < journey_ids.len(),
                    journey_id == journey_ids@[j as int],
                    self.wf(),
                    self@.events.len() == self.events@.len(),
                    wanted == self@.events_statement(journey_ids@),
                    statement_model(statement) == (StatementModel {
                        rows: self@.event_rows(journey_ids@, j as int) + self@.journey_event_rows(
                            journey_id,
                            k as int,
                        ),
                        ..wanted
                    }),
                decreases self.events.len() - k,
            {
                assert(self@.events[k as int] == self.events@[k as int]@);
                assert(self@.events[k as int].wf());
                let row = make_event_row(&self.events[k], journey_id, k);
                let ok = add_row(&mut statement, &row);
                proof {
                    assert(ok);
                    assert(self@.journey_event_rows(journey_id, k as int).push(seq_view(row@))
                        =~= self@.journey_event_rows(journey_id, k + 1));
                    assert((self@.event_rows(journey_ids@, j as int) + self@.journey_event_rows(
                        journey_id,
                        k as int,
                    )).push(seq_view(row@)) =~= self@.event_rows(journey_ids@, j as int)
                        + self@.journey_event_rows(journey_id, k + 1));
                }
                k += 1;
            }
            j += 1;
        }
        statement
    }
}

/// What is to be done on the store next.
pub enum Action {
    /// Run the statement and hand back the identifier it returns.
    Query(sea_query::InsertStatement),
    /// Run the statement; it returns nothing.
    Execute(sea_query::InsertStatement),
    /// Commit the transaction.
    Commit,
    /// Nothing: the leg is stored.
    Done,
}

/// An [`Action`] as plain values.
pub enum ActionModel {
    Query(StatementModel),
    Execute(StatementModel),
    Commit,
    Done,
}

impl View for Action {
    type V = ActionModel;

    open spec fn view(&self) -> ActionModel {
        match self {
            Action::Query(statement) => ActionModel::Query(statement_model(*statement)),
            Action::Execute(statement) => ActionModel::Execute(statement_model(*statement)),
            Action::Commit => ActionModel::Commit,
            Action::Done => ActionModel::Done,
        }
    }
}

/// What the store replied to the last action.
#[derive(Debug, PartialEq, Eq, Clone, Copy, Structural)]
pub enum Reply {
    /// The identifier that a query returned.
    RowId(u128),
    /// The statement was run, or the transaction committed.
    Done,
}

/// How far the storing of one leg has come.
#[derive(Debug, PartialEq)]
pub struct Materializer {
    /// What is to be stored.
    pub plan: LegPlan,
    /// The identifier of the service, once the store has handed it back.
    pub service_id: Option<u128>,
    /// The identifiers of the journeys that are stored, in the order of
    /// the days of the plan.
    pub journey_ids: Vec<u128>,
    /// Whether the station events are stored.
    pub events_stored: bool,
    /// Whether the transaction is committed.
    pub committed: bool,
}

/// A [`Materializer`] as plain values.
pub struct MaterializerView {
    pub plan: LegPlanView,
    pub service_id: Option<u128>,
    pub journey_ids: Seq<u128>,
    pub events_stored: bool,
    pub committed: bool,
}

impl View for Materializer {
    type V = MaterializerView;

    open spec fn view(&self) -> MaterializerView {
        MaterializerView {
            plan: self.plan@,
            service_id: self.service_id,
            journey_ids: self.journey_ids@,
            events_stored: self.events_stored,
            committed: self.committed,
        }
    }
}

impl MaterializerView {
    /// The plan is well-formed, and no more journeys are stored than the
    /// plan has days.
    pub open spec fn wf(self) -> bool {
        self.plan.wf() && self.journey_ids.len() <= self.plan.dates.len()
    }

    /// What is to be done next: store the service; then the journeys, day
    /// by day; then the station events of all journeys, if there are any;
    /// then commit.
    pub open spec fn next(self) -> ActionModel {
        match self.service_id {
            None => ActionModel::Query(self.plan.service_statement()),
            Some(service_id) => if self.journey_ids.len() < self.plan.dates.len() {
                ActionModel::Query(
                    self.plan.journey_statement(
                        service_id,
                        self.plan.dates[self.journey_ids.len() as int],
                    ),
                )
            } else if !self.events_stored && self.journey_ids.len() > 0 && self.plan.events.len()
                > 0 {
                ActionModel::Execute(self.plan.events_statement(self.journey_ids))
            } else if !self.committed {
                ActionModel::Commit
            } else {
                ActionModel::Done
            },
        }
    }

    /// The state after the store has replied to the action that was to be
    /// done; `None` where the reply is none to that action.
    pub open spec fn after(self, reply: Reply) -> Option<MaterializerView> {
        match (self.next(), reply) {
            (ActionModel::Query(_), Reply::RowId(id)) => if self.service_id.is_none() {
                Some(MaterializerView { service_id: Some(id), ..self })
            } else {
                Some(MaterializerView { journey_ids: self.journey_ids.push(id), ..self })
            },
            (ActionModel::Execute(_), Reply::Done) => Some(
                MaterializerView { events_stored: true, ..self },
            ),
            (ActionModel::Commit, Reply::Done) => Some(
                MaterializerView { committed: true, ..self },
            ),
            _ => None,
        }
    }
}

impl Materializer {
    /// The plan is well-formed, and no more journeys are stored than the
    /// plan has days.
    pub open spec fn wf(&self) -> bool {
        self@.wf()
    }

    /// Whether the plan is well-formed and no more journeys are stored than
    /// the plan has days.
    pub fn is_valid(&self) -> (r: bool)
        ensures
            r == self.wf(),
    {
        self.plan.is_valid() && self.journey_ids.len() <= self.plan.dates.len()
    }

    /// The start of the storing of a leg: nothing is stored yet.
    pub fn new(plan: LegPlan) -> (r: Materializer)
        requires
            plan.wf(),
        ensures
            r.wf(),
            r@ == (MaterializerView {
                plan: plan@,
                service_id: None,
                journey_ids: Seq::empty(),
                events_stored: false,
                committed: false,
            }),
    {
        Materializer {
            plan,
            service_id: None,
            journey_ids: Vec::new(),
            events_stored: false,
            committed: false,
        }
    }

    /// What is to be done on the store next.
    pub fn next_action(&self) -> (r: Action)
        requires
            self.wf(),
        ensures
            r@ == self@.next(),
    {
        let service_id = match self.service_id {
            None => {
                return Action::Query(self.plan.service_statement());
            },
            Some(id) => id,
        };
        assert(self@.plan.events.len() == self.plan.events@.len());
        if self.journey_ids.len() < self.plan.dates.len() {
            let date = self.plan.dates[self.journey_ids.len()];
            Action::Query(self.plan.journey_statement(service_id, date))
        } else if !self.events_stored && self.journey_ids.len() > 0 && self.plan.events.len()
            > 0 {
            Action::Execute(self.plan.events_statement(&self.journey_ids))
        } else if !self.committed {
            Action::Commit
        } else {
            Action::Done
        }
    }

    /// Takes the reply of the store to the action that was to be done.
    /// Returns whether the reply is one to that action; where it is not,
    /// nothing changes.
    pub fn advance(&mut self, reply: Reply) -> (ok: bool)
        requires
            old(self).wf(),
        ensures
            final(self).wf(),
            match old(self)@.after(reply) {
                Some(state) => ok && final(self)@ == state,
                None => !ok && final(self)@ == old(self)@,
            },
    {
        assert(self@.plan.events.len() == self.plan.events@.len());
        match reply {
            Reply::RowId(id) => {
                if self.service_id.is_none() {
                    self.service_id = Some(id);
                    true
                } else if self.journey_ids.len() < self.plan.dates.len() {
                    self.journey_ids.push(id);
                    true
                } else {
                    false
                }
            },
            Reply::Done => {
                if self.service_id.is_none() || self.journey_ids.len() < self.plan.dates.len() {
                    false
                } else if !self.events_stored && self.journey_ids.len() > 0
                    && self.plan.events.len() > 0 {
                    self.events_stored = true;
                    true
                } else if !self.committed {
                    self.committed = true;
                    true
                } else {
                    false
                }
            },
        }
    }

    /// Whether the leg is stored and the transaction committed.
    pub fn is_done(&self) -> (r: bool)
        requires
            self.wf(),
        ensures
            r == (self@.next() == ActionModel::Done),
    {
        assert(self@.plan.events.len() == self.plan.events@.len());
        let events_left = !self.events_stored && self.journey_ids.len() > 0
            && self.plan.events.len() > 0;
        self.service_id.is_some() && self.journey_ids.len() >= self.plan.dates.len()
            && !events_left && self.committed
    }
}

/// The station events go to the store after the service and all journeys
/// of the leg, and the transaction is committed after all of them.
pub proof fn lemma_store_order(state: MaterializerView)
    requires
        state.wf(),
    ensures
        state.next() is Execute ==> state.service_id.is_some() && state.journey_ids.len()
            == state.plan.dates.len(),
        state.next() is Commit ==> state.service_id.is_some() && state.journey_ids.len()
            == state.plan.dates.len() && (state.events_stored || state.journey_ids.len() == 0
            || state.plan.events.len() == 0),
        state.next() is Done ==> state.committed,
{
}

} // verus!
