//! The load of a whole feed: what is read of its files, the legs that are
//! queued, and the states that a leg goes through.

use crate::company::{company_file, company_file_at, Companies};
use crate::footnote::{footnote_file, footnote_file_at, Footnotes};
use crate::journey::LegError;
use crate::service::identification::ServiceIdentification;
use crate::service::{Service, ServiceLeg, ServiceLegView, ServiceView, SplitError};
use crate::timetable::{timetable_file, timetable_file_at, Timetable};
use crate::views::seq_view;
use vstd::prelude::*;

verus! {

/// Why a file of the feed is not loaded.
#[derive(Debug, PartialEq, Eq, Clone, Copy, Structural)]
pub enum ImportError {
    /// The header line does not parse.
    Parse,
    /// Something is left after the last record that parses.
    TrailingInput,
}

/// Loads a timetable file. The whole input must be a header line and
/// services: where anything is left after the last service that parses,
/// nothing is loaded.
pub fn load_timetable(input: &str) -> (r: Result<Timetable, ImportError>)
    ensures
        match timetable_file_at(input@) {
            Some((id, data, n)) => if n == input@.len() {
                r matches Ok(file) && file.identification@ == id && file.identification.wf()
                    && seq_view(file.data@) == data
            } else {
                r == Err::<Timetable, ImportError>(ImportError::TrailingInput)
            },
            None => r == Err::<Timetable, ImportError>(ImportError::Parse),
        },
{
    match timetable_file(input) {
        Ok((rest, file)) => {
            if rest.unicode_len() == 0 {
                Ok(file)
            } else {
                Err(ImportError::TrailingInput)
            }
        },
        Err(_) => Err(ImportError::Parse),
    }
}

/// Loads a footnote file. The whole input must be a header line and
/// footnotes with one flag for each day of the file's validity: where
/// anything is left after the last such footnote, nothing is loaded.
pub fn load_footnotes(input: &str) -> (r: Result<Footnotes, ImportError>)
    ensures
        match footnote_file_at(input@) {
            Some((id, data, n)) => if n == input@.len() {
                r matches Ok(file) && file.identification@ == id && seq_view(file.data@) == data
                    && file.wf()
            } else {
                r == Err::<Footnotes, ImportError>(ImportError::TrailingInput)
            },
            None => r == Err::<Footnotes, ImportError>(ImportError::Parse),
        },
{
    match footnote_file(input) {
        Ok((rest, file)) => {
            if rest.unicode_len() == 0 {
                Ok(file)
            } else {
                Err(ImportError::TrailingInput)
            }
        },
        Err(_) => Err(ImportError::Parse),
    }
}

/// Loads a company file. The whole input must be a header line and company
/// lines: where anything is left after the last line that parses, nothing
/// is loaded.
pub fn load_companies(input: &str) -> (r: Result<Companies, ImportError>)
    ensures
        match company_file_at(input@) {
            Some((id, data, n)) => if n == input@.len() {
                r matches Ok(file) && file.identification@ == id && file.identification.wf()
                    && seq_view(file.data@) == data
            } else {
                r == Err::<Companies, ImportError>(ImportError::TrailingInput)
            },
            None => r == Err::<Companies, ImportError>(ImportError::Parse),
        },
{
    match company_file(input) {
        Ok((rest, file)) => {
            if rest.unicode_len() == 0 {
                Ok(file)
            } else {
                Err(ImportError::TrailingInput)
            }
        },
        Err(_) => Err(ImportError::Parse),
    }
}

/// What is queued of a service: each of its legs, or, where it cannot be
/// split, the reason.
#[derive(Debug, PartialEq)]
pub enum Queued {
    Leg(ServiceIdentification, ServiceLeg),
    Unsplit(ServiceIdentification, SplitError),
}

/// A [`Queued`] as plain values.
pub enum QueuedView {
    Leg(ServiceIdentification, ServiceLegView),
    Unsplit(ServiceIdentification, SplitError),
}

impl View for Queued {
    type V = QueuedView;

    open spec fn view(&self) -> QueuedView {
        match self {
            Queued::Leg(id, leg) => QueuedView::Leg(*id, leg@),
            Queued::Unsplit(id, e) => QueuedView::Unsplit(*id, *e),
        }
    }
}

/// What is queued of one service: its legs in their order, each with the
/// number of the service, or the one reason why it has none.
pub open spec fn queued_of(service: ServiceView) -> Seq<QueuedView> {
    match service.split_legs() {
        Ok(legs) => Seq::new(
            legs.len(),
            |k: int| QueuedView::Leg(service.identification, legs[k]),
        ),
        Err(e) => seq![QueuedView::Unsplit(service.identification, e)],
    }
}

/// What is queued of the first `n` services, service by service.
pub open spec fn queue_of(services: Seq<ServiceView>, n: int) -> Seq<QueuedView>
    decreases n,
{
    if n <= 0 || n > services.len() {
        Seq::empty()
    } else {
        queue_of(services, n - 1) + queued_of(services[n - 1])
    }
}

/// The queue of a timetable: every service split into its legs, in the
/// order of the file. A service that cannot be split is queued as such, so
/// that it is reported and the others are stored.
pub fn queue_legs(services: &Vec<Service>) -> (r: Vec<Queued>)
    ensures
        seq_view(r@) == queue_of(seq_view(services@), services@.len() as int),
{
    let mut queue: Vec<Queued> = Vec::new();
    let mut n: usize = 0;
    let ghost views = seq_view(services@);
    assert(seq_view(queue@) =~= queue_of(views, 0));
    while n < services.len()
        invariant
            n <= services.len(),
            views == seq_view(services@),
            views.len() == services@.len(),
            seq_view(queue@) == queue_of(views, n as int),
        decreases services.len() - n,
    {
        let id = services[n].identification;
        let ghost before = queue@;
        assert(views[n as int] == services@[n as int]@);
        match services[n].split_legs() {
            Ok(legs) => {
                let ghost leg_views = seq_view(legs@);
                let mut legs = legs;
                let mut k: usize = 0;
                let count = legs.len();
                let ghost all = legs@;
                assert(seq_view(queue@) =~= seq_view(before) + queued_of(views[n as int]).take(0));
                while legs.len() > 0
                    invariant
                        n < services.len(),
                        views == seq_view(services@),
                        leg_views == seq_view(all),
                        views[n as int].split_legs() == Ok::<Seq<ServiceLegView>, SplitError>(
                            leg_views,
                        ),
                        id == views[n as int].identification,
                        count == all.len(),
                        k + legs@.len() == count,
                        legs@ == all.subrange(k as int, count as int),
                        seq_view(queue@) == seq_view(before) + queued_of(views[n as int]).take(
                            k as int,
                        ),
                    decreases legs@.len(),
                {
                    let leg = legs.remove(0);
                    assert(leg == all[k as int]);
                    let ghost queue_before = queue@;
                    queue.push(Queued::Leg(id, leg));
                    proof {
                        assert(legs@ =~= all.subrange(k + 1, count as int));
                        assert(queued_of(views[n as int])[k as int] == QueuedView::Leg(
                            id,
                            leg_views[k as int],
                        ));
                        assert(seq_view(queue@) =~= seq_view(queue_before).push(
                            QueuedView::Leg(id, leg@),
                        ));
                        assert(seq_view(queue@) =~= seq_view(before) + queued_of(
                            views[n as int],
                        ).take(k + 1));
                    }
                    k += 1;
                }
                assert(queued_of(views[n as int]).take(k as int) =~= queued_of(views[n as int]));
            },
            Err(e) => {
                queue.push(Queued::Unsplit(id, e));
                assert(seq_view(queue@) =~= seq_view(before) + queued_of(views[n as int]));
            },
        }
        n += 1;
    }
    queue
}

/// The outcome of a leg that did not fail: stored, or skipped for want of a
/// train number. Each holds the number of the service in the timetable
/// file.
#[derive(Debug, PartialEq, Eq, Clone, Copy, Structural)]
pub enum ProcessingResult {
    Success(u32),
    Skipped(u32),
}

/// The states of a leg in the load.
#[derive(Debug, PartialEq, Eq, Clone, Copy, Structural)]
pub enum LegState {
    /// The leg waits for a worker.
    Queued,
    /// A worker stores the leg.
    Processing,
    /// The leg is stored.
    Committed,
    /// The leg has no train number; nothing is stored of it.
    Skipped,
    /// The leg could not be stored; nothing is stored of it.
    Failed,
}

/// What happens to a leg.
#[derive(Debug, PartialEq, Eq, Clone, Copy, Structural)]
pub enum LegEvent {
    /// A worker takes the leg from the queue.
    Taken,
    /// The leg turns out to have no train number.
    NoTrainNumber,
    /// A lookup or the store fails.
    Error,
    /// The transaction of the leg is committed.
    Commit,
}

impl LegState {
    /// The state that follows on `event`: a queued leg is taken and
    /// processed, and a processed leg is committed, skipped or fails.
    /// `None` where `event` cannot happen in this state.
    pub open spec fn after(self, event: LegEvent) -> Option<LegState> {
        match (self, event) {
            (LegState::Queued, LegEvent::Taken) => Some(LegState::Processing),
            (LegState::Processing, LegEvent::NoTrainNumber) => Some(LegState::Skipped),
            (LegState::Processing, LegEvent::Error) => Some(LegState::Failed),
            (LegState::Processing, LegEvent::Commit) => Some(LegState::Committed),
            _ => None,
        }
    }

    /// Whether the leg is through: committed, skipped or failed.
    pub open spec fn is_terminal(self) -> bool {
        self == LegState::Committed || self == LegState::Skipped || self == LegState::Failed
    }

    /// The state that follows on `event`, if `event` can happen in this
    /// state.
    pub fn next(self, event: LegEvent) -> (r: Option<LegState>)
        ensures
            r == self.after(event),
    {
        match (self, event) {
            (LegState::Queued, LegEvent::Taken) => Some(LegState::Processing),
            (LegState::Processing, LegEvent::NoTrainNumber) => Some(LegState::Skipped),
            (LegState::Processing, LegEvent::Error) => Some(LegState::Failed),
            (LegState::Processing, LegEvent::Commit) => Some(LegState::Committed),
            _ => None,
        }
    }

    /// The state in which a leg ends with `result`.
    pub open spec fn ends_in(result: Result<ProcessingResult, LegError>) -> LegState {
        match result {
            Ok(ProcessingResult::Success(_)) => LegState::Committed,
            Ok(ProcessingResult::Skipped(_)) => LegState::Skipped,
            Err(_) => LegState::Failed,
        }
    }

    /// The state in which a leg ends with `result`.
    pub fn of(result: &Result<ProcessingResult, LegError>) -> (r: LegState)
        ensures
            r == LegState::ends_in(*result),
            r.is_terminal(),
    {
        match result {
            Ok(ProcessingResult::Success(_)) => LegState::Committed,
            Ok(ProcessingResult::Skipped(_)) => LegState::Skipped,
            Err(_) => LegState::Failed,
        }
    }
}

/// Nothing happens to a leg that is through, and every leg that is through
/// was processed.
pub proof fn lemma_terminal_states(state: LegState, event: LegEvent)
    ensures
        state.is_terminal() ==> state.after(event).is_none(),
        state.after(event) matches Some(next) ==> (next.is_terminal() <==> state
            == LegState::Processing),
{
}

/// How many legs of a load were committed, skipped and failed.
#[derive(Debug, PartialEq, Eq, Clone, Copy, Structural)]
pub struct Tally {
    pub committed: u64,
    pub skipped: u64,
    pub failed: u64,
}

/// One more than `n`, but no more than `u64::MAX`.
pub open spec fn one_more(n: u64) -> u64 {
    if n < u64::MAX {
        (n + 1) as u64
    } else {
        n
    }
}

fn count_up(n: u64) -> (r: u64)
    ensures
        r == one_more(n),
{
    if n < u64::MAX {
        n + 1
    } else {
        n
    }
}

impl Tally {
    /// The tally after a leg has ended in `state`; a leg that is not
    /// through is not counted.
    pub open spec fn with(self, state: LegState) -> Tally {
        match state {
            LegState::Committed => Tally { committed: one_more(self.committed), ..self },
            LegState::Skipped => Tally { skipped: one_more(self.skipped), ..self },
            LegState::Failed => Tally { failed: one_more(self.failed), ..self },
            _ => self,
        }
    }

    /// A tally of no legs.
    pub fn new() -> (r: Tally)
        ensures
            r == (Tally { committed: 0, skipped: 0, failed: 0 }),
    {
        Tally { committed: 0, skipped: 0, failed: 0 }
    }

    /// Counts a leg that has ended in `state`.
    pub fn record(&mut self, state: LegState)
        ensures
            *final(self) == old(self).with(state),
    {
        match state {
            LegState::Committed => {
                self.committed = count_up(self.committed);
            },
            LegState::Skipped => {
                self.skipped = count_up(self.skipped);
            },
            LegState::Failed => {
                self.failed = count_up(self.failed);
            },
            _ => {},
        }
    }
}

} // verus!
