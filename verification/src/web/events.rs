//! Events that the pages of the interface follow, and questions that wait for an
//! answer from them.

use crate::table::{any, exists_row, first, first_row, not, reject, select, Row};
use crate::text::{decimal, decimal_text, same};
use crate::web::answers::{normalize_answers, normalized};
use crate::web::models::{QuestionRequest, QuestionRequestModel};
use crate::web::util::{base64_url, random_id, EVENT_CAPACITY};
use vstd::prelude::*;

verus! {

/// The kind of the event that asks a page to load everything again.
pub const RESYNC_REQUIRED: &'static str = "resync_required";

/// One event. Its data is JSON text.
pub struct EventRecord {
    pub id: u64,
    pub kind: String,
    pub data: String,
}

/// The model of [`EventRecord`].
#[verifier::ext_equal]
pub struct EventRecordModel {
    pub id: u64,
    pub kind: Seq<char>,
    pub data: Seq<char>,
}

impl DeepView for EventRecord {
    type V = EventRecordModel;

    open spec fn deep_view(&self) -> EventRecordModel {
        EventRecordModel { id: self.id, kind: self.kind@, data: self.data@ }
    }
}

impl Row for EventRecord {
    fn dup(&self) -> (copy: Self) {
        EventRecord { id: self.id, kind: self.kind.clone(), data: self.data.clone() }
    }
}

/// The events of late.
pub struct EventHub {
    next_id: u64,
    records: Vec<EventRecord>,
}

/// The model of [`EventHub`].
#[verifier::ext_equal]
pub struct HubModel {
    pub next_id: u64,
    pub records: Seq<EventRecordModel>,
}

impl View for EventHub {
    type V = HubModel;

    closed spec fn view(&self) -> HubModel {
        HubModel { next_id: self.next_id, records: self.records.deep_view() }
    }
}

/// One more, but no more than the largest number.
pub open spec fn next_after(id: u64) -> u64 {
    if id == u64::MAX {
        id
    } else {
        (id + 1) as u64
    }
}

/// One less, but no less than 0.
pub open spec fn last_before(id: u64) -> u64 {
    if id == 0 {
        0
    } else {
        (id - 1) as u64
    }
}

pub open spec fn later_than(after: u64) -> spec_fn(EventRecordModel) -> bool {
    |r: EventRecordModel| r.id > after
}

/// The event that asks a page to load everything again.
pub open spec fn resync(id: u64) -> EventRecordModel {
    EventRecordModel {
        id,
        kind: RESYNC_REQUIRED@,
        data: "{\"latest_event_id\":"@ + decimal(id as nat) + "}"@,
    }
}

impl HubModel {
    /// At most as many events as are kept, in the order of their ids, and each
    /// before the next.
    pub open spec fn well_formed(self) -> bool {
        &&& self.records.len() <= EVENT_CAPACITY
        &&& self.next_id >= 1
        &&& forall|i: int, j: int|
            0 <= i < j < self.records.len() ==> (#[trigger] self.records[i]).id <= (
            #[trigger] self.records[j]).id
        &&& forall|i: int| 0 <= i < self.records.len() ==> (#[trigger] self.records[i]).id
            <= self.next_id
    }

    pub open spec fn published(self, kind: Seq<char>, data: Seq<char>) -> HubModel {
        let record = EventRecordModel { id: self.next_id, kind, data };
        let kept = if self.records.len() == EVENT_CAPACITY {
            self.records.drop_first()
        } else {
            self.records
        };
        HubModel { next_id: next_after(self.next_id), records: kept.push(record) }
    }

    pub open spec fn latest_id(self) -> u64 {
        last_before(self.next_id)
    }

    /// Whether a page that has seen the events up to `after` must load
    /// everything again: it has seen events that never were, or has missed some
    /// that are gone.
    pub open spec fn lost(self, after: u64) -> bool {
        ||| after > self.latest_id()
        ||| self.records.len() > 0 && after < last_before(self.records[0].id)
    }

    /// What a page is sent that has seen the events up to `after`.
    pub open spec fn replayed(self, after: u64) -> (HubModel, Seq<EventRecordModel>) {
        if self.lost(after) {
            (
                HubModel { next_id: next_after(self.next_id), ..self },
                seq![resync(self.next_id)],
            )
        } else {
            (self, self.records.filter(later_than(after)))
        }
    }
}

impl EventHub {
    /// No event has happened.
    pub fn new() -> (hub: EventHub)
        ensures
            hub@.well_formed(),
            hub@ == (HubModel { next_id: 1, records: Seq::empty() }),
    {
        let hub = EventHub { next_id: 1, records: Vec::new() };
        assert(hub@.records =~= Seq::<EventRecordModel>::empty());
        hub
    }

    /// Lets an event happen, and gives its id.
    pub fn publish(&mut self, kind: &str, data: &str) -> (id: u64)
        requires
            old(self)@.well_formed(),
        ensures
            final(self)@.well_formed(),
            final(self)@ == old(self)@.published(kind@, data@),
            id == old(self)@.next_id,
    {
        let ghost before = self@;
        let id: u64 = self.next_id;
        if self.next_id < u64::MAX {
            self.next_id = self.next_id + 1;
        }
        if self.records.len() == EVENT_CAPACITY {
            let ghost rows = self.records.deep_view();
            let _ = self.records.remove(0);
            assert(self.records.deep_view() =~= rows.drop_first());
        }
        let ghost kept = self.records.deep_view();
        let record = EventRecord { id, kind: kind.to_owned(), data: data.to_owned() };
        self.records.push(record);
        proof {
            assert(self.records.deep_view() =~= kept.push(record.deep_view()));
            assert forall|i: int, j: int| 0 <= i < j < self@.records.len() implies (
            #[trigger] self@.records[i]).id <= (#[trigger] self@.records[j]).id by {
                let shift: int = if before.records.len() == EVENT_CAPACITY {
                    1
                } else {
                    0
                };
                assert(self@.records[i] == before.records[i + shift]);
                if j < kept.len() {
                    assert(self@.records[j] == before.records[j + shift]);
                }
            }
        }
        id
    }

    /// The id of the last event.
    pub fn latest_id(&self) -> (id: u64)
        ensures
            id == self@.latest_id(),
    {
        if self.next_id == 0 {
            0
        } else {
            self.next_id - 1
        }
    }

    /// The record of the last event, for those who listen.
    pub fn latest(&self) -> (record: Option<EventRecord>)
        ensures
            record.deep_view() == crate::table::last_of(self@.records),
    {
        crate::table::last_row(&self.records)
    }

    /// What a page is sent that has seen the events up to `after`.
    pub fn replay_after(&mut self, after: u64) -> (records: Vec<EventRecord>)
        requires
            old(self)@.well_formed(),
        ensures
            final(self)@.well_formed(),
            (final(self)@, records.deep_view()) == old(self)@.replayed(after),
    {
        let ahead = after > self.latest_id();
        let behind = if self.records.len() == 0 {
            false
        } else {
            assert(self@.records[0] == self.records[0].deep_view());
            let oldest: u64 = self.records[0].id;
            oldest > 0 && after < oldest - 1
        };
        if ahead || behind {
            return self.resync_record();
        }
        let later = |r: &EventRecord| -> (b: bool)
            ensures
                b == later_than(after)(r.deep_view()),
            { r.id > after };
        select(&self.records, &later, Ghost(later_than(after)))
    }

    fn resync_record(&mut self) -> (records: Vec<EventRecord>)
        requires
            old(self)@.well_formed(),
        ensures
            final(self)@.well_formed(),
            final(self)@ == (HubModel { next_id: next_after(old(self)@.next_id), ..old(self)@ }),
            records.deep_view() == seq![resync(old(self)@.next_id)],
    {
        let id: u64 = self.next_id;
        if self.next_id < u64::MAX {
            self.next_id = self.next_id + 1;
        }
        let data = "{\"latest_event_id\":".to_owned().concat(decimal_text(id).as_str()).concat("}");
        let mut records: Vec<EventRecord> = Vec::new();
        records.push(EventRecord { id, kind: RESYNC_REQUIRED.to_owned(), data });
        assert(records.deep_view() =~= seq![resync(id)]);
        records
    }
}

/// How far a page has been told what happened.
#[verifier::ext_equal]
pub struct StreamModel {
    pub pending: Seq<EventRecordModel>,
    pub last_id: u64,
}

/// How far a page has been told what happened, and what is to be told next.
pub struct EventStream {
    pending: Vec<EventRecord>,
    last_id: u64,
}

impl View for EventStream {
    type V = StreamModel;

    closed spec fn view(&self) -> StreamModel {
        StreamModel { pending: self.pending.deep_view(), last_id: self.last_id }
    }
}

/// Whether an event is told to a page that was told up to `last_id`.
pub open spec fn is_news(record: EventRecordModel, last_id: u64) -> bool {
    record.kind == RESYNC_REQUIRED@ || record.id > last_id
}

impl StreamModel {
    /// The next event to tell of those that are pending, and what is pending
    /// then.
    pub open spec fn told(self) -> (StreamModel, Option<EventRecordModel>)
        decreases self.pending.len(),
    {
        if self.pending.len() == 0 {
            (self, None)
        } else {
            let record = self.pending[0];
            let rest = self.pending.drop_first();
            if is_news(record, self.last_id) {
                (StreamModel { pending: rest, last_id: record.id }, Some(record))
            } else {
                StreamModel { pending: rest, ..self }.told()
            }
        }
    }
}

impl EventStream {
    /// The stream of a page that has seen the events up to `after`, and is sent
    /// `pending` first.
    pub fn new(pending: Vec<EventRecord>, after: u64) -> (stream: EventStream)
        ensures
            stream@ == (StreamModel { pending: pending.deep_view(), last_id: after }),
    {
        EventStream { pending, last_id: after }
    }

    /// The next event that is pending and is news to the page.
    pub fn next_pending(&mut self) -> (record: Option<EventRecord>)
        ensures
            (final(self)@, record.deep_view()) == old(self)@.told(),
    {
        let ghost start = self@;
        while self.pending.len() > 0
            invariant
                start == old(self)@,
                self@.told() == start.told(),
            decreases self.pending.len(),
        {
            let ghost rows = self.pending.deep_view();
            assert(rows[0] == self.pending[0].deep_view());
            let record = self.pending.remove(0);
            assert(self.pending.deep_view() =~= rows.drop_first());
            if same(record.kind.as_str(), RESYNC_REQUIRED) || record.id > self.last_id {
                self.last_id = record.id;
                return Some(record);
            }
        }
        None
    }

    /// Whether an event that has just happened is told.
    pub fn receive(&mut self, record: &EventRecord) -> (told: bool)
        ensures
            told == (record.id > old(self)@.last_id),
            final(self)@ == if told {
                StreamModel { last_id: record.id, ..old(self)@ }
            } else {
                old(self)@
            },
    {
        if record.id > self.last_id {
            self.last_id = record.id;
            true
        } else {
            false
        }
    }

    /// Starts over from what the hub has kept, after the page fell behind.
    pub fn catch_up(&mut self, hub: &mut EventHub)
        requires
            old(hub)@.well_formed(),
        ensures
            final(hub)@.well_formed(),
            (final(hub)@, final(self)@.pending) == old(hub)@.replayed(old(self)@.last_id),
            final(self)@.last_id == old(self)@.last_id,
    {
        self.pending = hub.replay_after(self.last_id);
    }
}

/// A question that waits for its answer, and the run that asked it.
pub struct PendingQuestion {
    pub question_id: String,
    pub run_id: String,
    pub request: QuestionRequest,
}

/// The model of [`PendingQuestion`].
#[verifier::ext_equal]
pub struct PendingQuestionModel {
    pub question_id: Seq<char>,
    pub run_id: Seq<char>,
    pub request: QuestionRequestModel,
}

impl DeepView for PendingQuestion {
    type V = PendingQuestionModel;

    open spec fn deep_view(&self) -> PendingQuestionModel {
        PendingQuestionModel {
            question_id: self.question_id@,
            run_id: self.run_id@,
            request: self.request.deep_view(),
        }
    }
}

impl Row for PendingQuestion {
    fn dup(&self) -> (copy: Self) {
        PendingQuestion {
            question_id: self.question_id.clone(),
            run_id: self.run_id.clone(),
            request: self.request.dup(),
        }
    }
}

pub open spec fn with_id(question_id: Seq<char>) -> spec_fn(PendingQuestionModel) -> bool {
    |q: PendingQuestionModel| q.question_id == question_id
}

pub open spec fn of_run(run_id: Seq<char>) -> spec_fn(PendingQuestionModel) -> bool {
    |q: PendingQuestionModel| q.run_id == run_id
}

pub open spec fn question_id_of() -> spec_fn(PendingQuestionModel) -> Seq<char> {
    |q: PendingQuestionModel| q.question_id
}

/// Why an answer was not taken.
#[derive(Debug)]
pub enum AnswerFailure {
    NotFound,
    Invalid(String),
    Gone,
}

/// The model of [`AnswerFailure`].
#[verifier::ext_equal]
pub enum AnswerFailureModel {
    NotFound,
    Invalid(Seq<char>),
    Gone,
}

impl View for AnswerFailure {
    type V = AnswerFailureModel;

    open spec fn view(&self) -> AnswerFailureModel {
        match self {
            AnswerFailure::NotFound => AnswerFailureModel::NotFound,
            AnswerFailure::Invalid(message) => AnswerFailureModel::Invalid(message@),
            AnswerFailure::Gone => AnswerFailureModel::Gone,
        }
    }
}

/// The questions that wait for an answer.
pub struct QuestionBroker {
    pending: Vec<PendingQuestion>,
}

impl View for QuestionBroker {
    type V = Seq<PendingQuestionModel>;

    closed spec fn view(&self) -> Seq<PendingQuestionModel> {
        self.pending.deep_view()
    }
}

/// What an answer comes to: the run that is told, and the answers as it gets
/// them; and what waits then. `fault` is what the one who asked finds wrong with
/// the answers.
pub open spec fn answered(
    pending: Seq<PendingQuestionModel>,
    question_id: Seq<char>,
    answers: Seq<Seq<Seq<char>>>,
    fault: Option<Seq<char>>,
) -> Result<
    (Seq<PendingQuestionModel>, (Seq<char>, Seq<Seq<Seq<char>>>)),
    AnswerFailureModel,
> {
    match first(pending, with_id(question_id)) {
        None => Err(AnswerFailureModel::NotFound),
        Some(question) => match normalized(question.request, answers, fault) {
            Err(message) => Err(AnswerFailureModel::Invalid(message)),
            Ok(answers) => Ok(
                (pending.filter(not(with_id(question_id))), (question.run_id, answers)),
            ),
        },
    }
}

impl QuestionBroker {
    /// No question waits.
    pub fn new() -> (broker: QuestionBroker)
        ensures
            broker@ == Seq::<PendingQuestionModel>::empty(),
    {
        let broker = QuestionBroker { pending: Vec::new() };
        assert(broker@ =~= Seq::<PendingQuestionModel>::empty());
        broker
    }

    /// Whether a question waits.
    pub fn is_pending(&self, question_id: &str) -> (yes: bool)
        ensures
            yes == any(self@, with_id(question_id@)),
    {
        let this = |q: &PendingQuestion| -> (b: bool)
            ensures
                b == with_id(question_id@)(q.deep_view()),
            { same(q.question_id.as_str(), question_id) };
        exists_row(&self.pending, &this, Ghost(with_id(question_id@)))
    }

    /// What was asked by a question that waits.
    pub fn request_of(&self, question_id: &str) -> (request: Option<QuestionRequest>)
        ensures
            request.deep_view() == match first(self@, with_id(question_id@)) {
                Some(question) => Some(question.request),
                None => None,
            },
    {
        let this = |q: &PendingQuestion| -> (b: bool)
            ensures
                b == with_id(question_id@)(q.deep_view()),
            { same(q.question_id.as_str(), question_id) };
        match first_row(&self.pending, &this, Ghost(with_id(question_id@))) {
            Some(question) => Some(question.request),
            None => None,
        }
    }

    /// Lets a question wait under an id that is not in use, and says whether it
    /// was not.
    pub fn insert_as(&mut self, question_id: &str, run_id: &str, request: &QuestionRequest) -> (
        inserted: bool)
        ensures
            inserted == !any(old(self)@, with_id(question_id@)),
            final(self)@ == if inserted {
                old(self)@.push(
                    PendingQuestionModel {
                        question_id: question_id@,
                        run_id: run_id@,
                        request: request.deep_view(),
                    },
                )
            } else {
                old(self)@
            },
    {
        if self.is_pending(question_id) {
            return false;
        }
        let question = PendingQuestion {
            question_id: question_id.to_owned(),
            run_id: run_id.to_owned(),
            request: request.dup(),
        };
        crate::table::append(&mut self.pending, question);
        true
    }

    /// Lets a question wait under a new id. There is none only where every one
    /// of very many random ids was in use, so never where no question waits.
    pub fn insert(&mut self, run_id: &str, request: &QuestionRequest) -> (question_id: Option<
        String,
    >)
        ensures
            match question_id {
                Some(id) => {
                    &&& exists|drawn: Seq<u8>|
                        drawn.len() == 18 && id@ == "question"@ + "_"@ + #[trigger] base64_url(
                            drawn,
                        )
                    &&& !any(old(self)@, with_id(id@))
                    &&& final(self)@ == old(self)@.push(
                        PendingQuestionModel {
                            question_id: id@,
                            run_id: run_id@,
                            request: request.deep_view(),
                        },
                    )
                },
                None => {
                    &&& final(self)@ == old(self)@
                    &&& exists|drawn: Seq<u8>|
                        drawn.len() == 18 && any(
                            old(self)@,
                            with_id("question"@ + "_"@ + #[trigger] base64_url(drawn)),
                        )
                },
            },
    {
        let mut left: u64 = u64::MAX;
        while left > 0
            invariant
                self@ == old(self)@,
                left < u64::MAX ==> exists|drawn: Seq<u8>|
                    drawn.len() == 18 && any(
                        old(self)@,
                        with_id("question"@ + "_"@ + #[trigger] base64_url(drawn)),
                    ),
            decreases left,
        {
            let id = random_id("question", 18);
            if self.insert_as(id.as_str(), run_id, request) {
                return Some(id);
            }
            left = left - 1;
        }
        None
    }

    /// Takes the answer to a question. What is returned is for the run that
    /// asked; the question waits no more, unless the answer was not taken.
    pub fn answer(
        &mut self,
        question_id: &str,
        answers: Vec<Vec<String>>,
        fault: Option<String>,
    ) -> (result: Result<(String, Vec<Vec<String>>), AnswerFailure>)
        ensures
            match answered(old(self)@, question_id@, answers.deep_view(), fault.deep_view()) {
                Ok((pending, answer)) => {
                    &&& result matches Ok(got)
                    &&& got.deep_view() == answer
                    &&& final(self)@ == pending
                },
                Err(failure) => {
                    &&& result matches Err(got)
                    &&& got@ == failure
                    &&& final(self)@ == old(self)@
                },
            },
    {
        let this = |q: &PendingQuestion| -> (b: bool)
            ensures
                b == with_id(question_id@)(q.deep_view()),
            { same(q.question_id.as_str(), question_id) };
        let question = match first_row(&self.pending, &this, Ghost(with_id(question_id@))) {
            Some(question) => question,
            None => return Err(AnswerFailure::NotFound),
        };
        let answers = match normalize_answers(&question.request, answers, fault) {
            Ok(answers) => answers,
            Err(message) => return Err(AnswerFailure::Invalid(message)),
        };
        self.pending = reject(&self.pending, &this, Ghost(with_id(question_id@)));
        Ok((question.run_id, answers))
    }

    /// What becomes of an answer that was handed to its run, which may have
    /// stopped listening.
    pub fn delivered(&self, sent: bool) -> (result: Result<(), AnswerFailure>)
        ensures
            sent ==> result is Ok,
            !sent ==> (result matches Err(failure) && failure@ == AnswerFailureModel::Gone),
    {
        if sent {
            Ok(())
        } else {
            Err(AnswerFailure::Gone)
        }
    }

    /// Lets no question of a run wait any more, and names those that did.
    pub fn cancel_run(&mut self, run_id: &str) -> (ids: Vec<String>)
        ensures
            final(self)@ == old(self)@.filter(not(of_run(run_id@))),
            ids.deep_view() == old(self)@.filter(of_run(run_id@)).map_values(question_id_of()),
    {
        let mine = |q: &PendingQuestion| -> (b: bool)
            ensures
                b == of_run(run_id@)(q.deep_view()),
            { same(q.run_id.as_str(), run_id) };
        let gone = select(&self.pending, &mine, Ghost(of_run(run_id@)));
        let id_of = |q: &PendingQuestion| -> (id: String)
            ensures
                id.deep_view() == question_id_of()(q.deep_view()),
            { q.question_id.clone() };
        let ids = crate::table::map_rows(&gone, &id_of, Ghost(question_id_of()));
        self.pending = reject(&self.pending, &mine, Ghost(of_run(run_id@)));
        ids
    }
}

} // verus!
